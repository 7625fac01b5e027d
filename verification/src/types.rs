//! Parameters, results and events of the contract's entrypoints.

use vstd::prelude::*;
use crate::address::{AccountAddress, Address, ContractAddress};

verus! {

/// Contract token ID type. To save bytes the token ID is limited to a `u32`.
pub type ContractTokenId = u32;

/// Contract token amount. Since the tokens are non-fungible the total supply
/// of any token will be at most 1, so a small type suffices.
pub type ContractTokenAmount = u8;

/// The receiving address for a transfer; for a contract it names the
/// function to call on it.
#[derive(Debug, PartialEq, Eq, Clone)]
pub enum Receiver {
    Account(AccountAddress),
    Contract(ContractAddress, String),
}

impl Receiver {
    /// Get the Address of the receiver.
    pub fn address(&self) -> (r: Address)
        ensures
            r == receiver_address(*self),
    {
        match self {
            Receiver::Account(a) => Address::Account(*a),
            Receiver::Contract(c, _) => Address::Contract(*c),
        }
    }
}

/// The address of a receiver.
pub open spec fn receiver_address(r: Receiver) -> Address {
    match r {
        Receiver::Account(a) => Address::Account(a),
        Receiver::Contract(c, _) => Address::Contract(c),
    }
}

/// A single transfer of some amount of a token.
#[derive(Debug, PartialEq, Eq, Clone)]
pub struct Transfer {
    /// The ID of the token being transferred.
    pub token_id: ContractTokenId,
    /// The amount of tokens being transferred.
    pub amount: ContractTokenAmount,
    /// The address owning the tokens being transferred.
    pub from: Address,
    /// The address receiving the tokens being transferred.
    pub to: Receiver,
    /// Additional data to include in the transfer.
    pub data: Vec<u8>,
}

/// The update to an operator.
#[derive(Debug, PartialEq, Eq, Clone, Copy)]
pub enum OperatorUpdate {
    /// Remove the operator.
    Remove,
    /// Add an address as an operator.
    Add,
}

/// A single update of an operator.
#[derive(Debug, PartialEq, Eq, Clone, Copy)]
pub struct UpdateOperator {
    /// The update for this operator.
    pub update: OperatorUpdate,
    /// The address which is either added or removed as an operator.
    pub operator: Address,
}

/// A query for whether `address` is an operator of `owner`.
#[derive(Debug, PartialEq, Eq, Clone, Copy)]
pub struct OperatorOfQuery {
    pub owner: Address,
    pub address: Address,
}

/// A query for the balance of `address` in `token_id`.
#[derive(Debug, PartialEq, Eq, Clone, Copy)]
pub struct BalanceOfQuery {
    pub token_id: ContractTokenId,
    pub address: Address,
}

/// The location of the metadata of a token.
#[derive(Debug, PartialEq, Eq, Clone)]
pub struct MetadataUrl {
    /// The URL following the specification RFC1738.
    pub url: String,
    /// A optional hash of the content.
    pub hash: Option<[u8; 32]>,
}

/// The query result type for whether a smart contract supports a standard.
#[derive(Debug, PartialEq, Eq, Clone)]
pub enum SupportResult {
    /// The standard is not supported.
    NoSupport,
    /// The standard is supported by the current contract address.
    Support,
    /// The standard is supported by using another contract address.
    SupportBy(Vec<ContractAddress>),
}

/// The parameter for the contract function `mint` which mints a number of
/// tokens to a given address.
#[derive(Debug, PartialEq, Eq, Clone)]
pub struct MintParams {
    /// Owner of the newly minted tokens.
    pub owner: Address,
    /// The base of the metadata URL of each new token.
    pub token_metadata_base_url: String,
    /// The tokens to mint; they are minted in increasing order.
    pub tokens: std::collections::BTreeSet<ContractTokenId>,
}

/// The parameter type for the contract function `setImplementors`.
#[derive(Debug, PartialEq, Eq, Clone)]
pub struct SetImplementorsParams {
    /// The identifier for the standard.
    pub id: String,
    /// The addresses of the implementors of the standard.
    pub implementors: Vec<ContractAddress>,
}

/// The message that the signer of a permit signs.
#[derive(Debug, PartialEq, Eq, Clone)]
pub struct PermitMessage {
    /// The contract_address that the signature is intended for.
    pub contract_address: ContractAddress,
    /// A nonce to prevent replay attacks.
    pub nonce: u64,
    /// A timestamp (milliseconds since the epoch) to make signatures expire.
    pub timestamp: u64,
    /// The entry_point that the signature is intended for.
    pub entry_point: String,
    /// The serialized payload that should be forwarded to either the
    /// `transfer` or the `updateOperator` function.
    pub payload: Vec<u8>,
}

/// The parameter handed to the receive hook of a contract that receives
/// tokens.
#[derive(Debug, PartialEq, Eq, Clone)]
pub struct OnReceivingCis2Params {
    /// The ID of the token received.
    pub token_id: ContractTokenId,
    /// The amount of tokens received.
    pub amount: ContractTokenAmount,
    /// The previous owner of the tokens.
    pub from: Address,
    /// Some extra information which was sent as part of the transfer.
    pub data: Vec<u8>,
}

/// A call of the receive hook of a contract that received tokens.
#[derive(Debug, PartialEq, Eq, Clone)]
pub struct ReceiveHook {
    /// The contract to call.
    pub address: ContractAddress,
    /// The function to call on it.
    pub function: String,
    /// The parameter of the call.
    pub parameter: OnReceivingCis2Params,
}

/// What a transfer asks of the chain: an event to log, then possibly a
/// receive hook to invoke.
#[derive(Debug, PartialEq, Eq, Clone)]
pub struct TransferAction {
    pub event: Event,
    pub hook: Option<ReceiveHook>,
}

/// The update that a permit message authorizes.
#[derive(Debug, PartialEq, Eq, Clone, Copy)]
pub enum PermitAction {
    /// Its payload is a list of transfers.
    Transfer,
    /// Its payload is a list of operator updates.
    UpdateOperator,
}

/// The event tracks the nonce used by the signer of a permit message.
#[derive(Debug, PartialEq, Eq, Clone, Copy)]
pub struct NonceEvent {
    pub account: AccountAddress,
    pub nonce: u64,
}

/// The CIS-2 token events.
#[derive(Debug, PartialEq, Eq, Clone)]
pub enum Cis2Event {
    /// A transfer between two addresses of some amount of tokens.
    Transfer { token_id: ContractTokenId, amount: ContractTokenAmount, from: Address, to: Address },
    /// Creation of a new token.
    Mint { token_id: ContractTokenId, amount: ContractTokenAmount, owner: Address },
    /// Updates to an operator of an address.
    UpdateOperator { update: OperatorUpdate, owner: Address, operator: Address },
    /// Setting the metadata of a token.
    TokenMetadata { token_id: ContractTokenId, metadata_url: MetadataUrl },
}

/// The events this contract logs.
#[derive(Debug, PartialEq, Eq, Clone)]
pub enum Event {
    /// The nonce used by the signer of a permit message.
    Nonce(NonceEvent),
    /// A CIS-2 token event.
    Cis2Event(Cis2Event),
}

/// The state of one address, as the view entrypoint returns it.
#[derive(Debug, PartialEq, Eq, Clone)]
pub struct ViewAddressState {
    pub owned_tokens: Vec<ContractTokenId>,
    pub operators: Vec<Address>,
}

/// The entire contents of the state, as the view entrypoint returns it.
#[derive(Debug, PartialEq, Eq, Clone)]
pub struct ViewState {
    pub state: Vec<(Address, ViewAddressState)>,
    pub all_tokens: Vec<ContractTokenId>,
    pub nonces_registry: Vec<(AccountAddress, u64)>,
    pub implementors: Vec<(String, Vec<ContractAddress>)>,
    pub token_metadata_urls: Vec<(ContractTokenId, String)>,
}

/// Response in case of an error. This is going to be encoded as a JSON body
/// with fields 'code' and 'message'.
#[derive(Debug, PartialEq, Eq, Clone)]
pub struct ErrorResponse {
    pub code: u16,
    pub message: String,
}

} // verus!
