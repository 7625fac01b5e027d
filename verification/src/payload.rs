//! The payloads of permit messages: the serialized parameter of the
//! `transfer` or `updateOperator` entrypoint that the signer authorized.

use vstd::prelude::*;
use concordium_cis2::{OperatorUpdate as ChainUpdate, Receiver as ChainReceiver, TokenAmountU8, TokenIdU32};
use concordium_cis2::{TransferParams, UpdateOperatorParams};
use concordium_std::{from_bytes, AccountAddress as ChainAccount, AccountSignatures, Address as ChainAddress};
use concordium_std::{Cursor, Get, ParseResult};
use crate::address::{AccountAddress, Address, ContractAddress};
use crate::errors::{ContractError, CustomContractError};
use crate::types::{OperatorUpdate, PermitAction, Receiver, Transfer, UpdateOperator};

verus! {

/// The transfers that `from_bytes` reads from `payload` as the parameter of
/// the `transfer` entrypoint, or `None` where it fails.
pub uninterp spec fn transfer_payload(payload: Seq<u8>) -> Option<Seq<Transfer>>;

/// The operator updates that `from_bytes` reads from `payload` as the
/// parameter of the `updateOperator` entrypoint, or `None` where it fails.
pub uninterp spec fn update_operator_payload(payload: Seq<u8>) -> Option<Seq<UpdateOperator>>;

/// `concordium_std::from_bytes` of `concordium_cis2::TransferParams`, each
/// transfer carried over field by field. The result is a function of the
/// bytes alone, named `transfer_payload`.
#[verifier::external_body]
pub(crate) fn parse_transfer_payload(payload: &Vec<u8>) -> (r: Option<Vec<Transfer>>)
    ensures
        r is Some == transfer_payload(payload@) is Some,
        r is Some ==> Some(r->0@) == transfer_payload(payload@),
{
    let addr = |a| match a {
        ChainAddress::Account(x) => Address::Account(AccountAddress(x.0)),
        ChainAddress::Contract(c) => Address::Contract(ContractAddress { index: c.index, subindex: c.subindex }),
    };
    Some(from_bytes::<TransferParams<TokenIdU32, TokenAmountU8>>(payload).ok()?.0.into_iter().map(|t| Transfer {
        token_id: t.token_id.0,
        amount: t.amount.0,
        from: addr(t.from),
        to: match t.to {
            ChainReceiver::Account(x) => Receiver::Account(AccountAddress(x.0)),
            ChainReceiver::Contract(c, f) => Receiver::Contract(ContractAddress { index: c.index, subindex: c.subindex }, f.to_string()),
        },
        data: t.data.as_ref().to_vec(),
    }).collect())
}

/// `concordium_std::from_bytes` of `concordium_cis2::UpdateOperatorParams`,
/// each update carried over field by field. The result is a function of the
/// bytes alone, named `update_operator_payload`.
#[verifier::external_body]
pub(crate) fn parse_update_operator_payload(payload: &Vec<u8>) -> (r: Option<Vec<UpdateOperator>>)
    ensures
        r is Some == update_operator_payload(payload@) is Some,
        r is Some ==> Some(r->0@) == update_operator_payload(payload@),
{
    let addr = |a| match a {
        ChainAddress::Account(x) => Address::Account(AccountAddress(x.0)),
        ChainAddress::Contract(c) => Address::Contract(ContractAddress { index: c.index, subindex: c.subindex }),
    };
    Some(from_bytes::<UpdateOperatorParams>(payload).ok()?.0.into_iter().map(|u| UpdateOperator {
        update: match u.update {
            ChainUpdate::Add => OperatorUpdate::Add,
            ChainUpdate::Remove => OperatorUpdate::Remove,
        },
        operator: addr(u.operator),
    }).collect())
}

/// The signer that `Get::get` reads from the front of `parameter`, after the
/// account signatures, as the start of a permit parameter, with the position
/// of the cursor after it; `None` where reading fails.
pub uninterp spec fn permit_signer_prefix(parameter: Seq<u8>) -> Option<(AccountAddress, usize)>;

/// Reads the account signatures and then the signer from the front of a
/// permit parameter through a `concordium_std::Cursor`, answering the signer
/// and the cursor's offset after it. The result is a function of the bytes
/// alone, named `permit_signer_prefix`; the cursor's `Read` never moves the
/// offset past the end of the bytes.
#[verifier::external_body]
pub(crate) fn parse_permit_signer(parameter: &Vec<u8>) -> (r: Option<(AccountAddress, usize)>)
    ensures
        r == permit_signer_prefix(parameter@),
        r matches Some((_, n)) ==> n <= parameter.len(),
{
    let mut cursor = Cursor::new(parameter.as_slice());
    let read: ParseResult<(AccountSignatures, ChainAccount)> = cursor.get();
    let signer = read.ok()?.1;
    Some((AccountAddress(signer.0), cursor.offset))
}

/// The updates a permit message carries.
#[derive(Debug, PartialEq, Eq, Clone)]
pub enum PermitPayload {
    /// Transfers, executed in order.
    Transfers(Vec<Transfer>),
    /// Operator updates of the signer, applied in order.
    UpdateOperators(Vec<UpdateOperator>),
}

/// Reads the payload of a permit message as the parameter of the entrypoint
/// it names. It rejects with `ParseParams` if the payload cannot be parsed.
pub fn permit_payload(action: PermitAction, payload: &Vec<u8>) -> (r: Result<PermitPayload, ContractError>)
    ensures
        action == PermitAction::Transfer ==> match transfer_payload(payload@) {
            Some(ts) => r matches Ok(PermitPayload::Transfers(v)) && v@ == ts,
            None => r == Err::<PermitPayload, ContractError>(
                ContractError::Custom(CustomContractError::ParseParams),
            ),
        },
        action == PermitAction::UpdateOperator ==> match update_operator_payload(payload@) {
            Some(us) => r matches Ok(PermitPayload::UpdateOperators(v)) && v@ == us,
            None => r == Err::<PermitPayload, ContractError>(
                ContractError::Custom(CustomContractError::ParseParams),
            ),
        },
{
    match action {
        PermitAction::Transfer => match parse_transfer_payload(payload) {
            Some(v) => Ok(PermitPayload::Transfers(v)),
            None => Err(ContractError::Custom(CustomContractError::ParseParams)),
        },
        PermitAction::UpdateOperator => match parse_update_operator_payload(payload) {
            Some(v) => Ok(PermitPayload::UpdateOperators(v)),
            None => Err(ContractError::Custom(CustomContractError::ParseParams)),
        },
    }
}

} // verus!
