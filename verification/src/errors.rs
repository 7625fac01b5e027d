//! The errors the contract can produce and how other failures map to them.

use vstd::prelude::*;
use vstd::std_specs::convert::FromSpecImpl;

verus! {

/// The custom errors the contract can produce.
#[derive(Debug, PartialEq, Eq, Clone, Copy)]
pub enum CustomContractError {
    /// Failed parsing the parameter.
    ParseParams,
    /// Failed logging: Log is full.
    LogFull,
    /// Failed logging: Log is malformed.
    LogMalformed,
    /// Failing to mint new tokens because one of the token IDs already exists
    /// in this contract.
    TokenIdAlreadyExists,
    /// Failed to invoke a contract.
    InvokeContractError,
    /// Failed to verify signature because signer account does not exist on
    /// chain.
    MissingAccount,
    /// Failed to verify signature because data was malformed.
    MalformedData,
    /// Failed signature verification: Invalid signature.
    WrongSignature,
    /// Failed signature verification: A different nonce is expected.
    NonceMismatch,
    /// Failed signature verification: Signature was intended for a different
    /// contract.
    WrongContract,
    /// Failed signature verification: Signature was intended for a different
    /// entry_point.
    WrongEntryPoint,
    /// Failed signature verification: Signature is expired.
    Expired,
    /// Failed signature verification: Invalid public key.
    SignatureFailed,
}

/// The errors of the CIS-2 standard, wrapping the custom errors.
#[derive(Debug, PartialEq, Eq, Clone, Copy)]
pub enum ContractError {
    /// Invalid token id.
    InvalidTokenId,
    /// The balance of the token owner is insufficient for the transfer.
    InsufficientFunds,
    /// Sender is unauthorized to call this function.
    Unauthorized,
    /// Custom error.
    Custom(CustomContractError),
}

/// A failure to add an entry to the event log.
#[derive(Debug, PartialEq, Eq, Clone, Copy)]
pub enum LogError {
    /// The log is full.
    Full,
    /// The message to log was malformed (e.g., too long).
    Malformed,
}

/// A failure of a call into another contract.
#[derive(Debug, PartialEq, Eq, Clone, Copy)]
pub enum CallContractError {
    AmountTooLarge,
    MissingAccount,
    MissingContract,
    MissingEntrypoint,
    MessageFailed,
    LogicReject { reason: i32 },
    Trap,
}

/// A failure to parse a parameter.
#[derive(Debug, PartialEq, Eq, Clone, Copy)]
pub struct ParseError;

/// A failure of the chain to check an account signature.
#[derive(Debug, PartialEq, Eq, Clone, Copy)]
pub enum CheckAccountSignatureError {
    /// The account does not exist in the state.
    MissingAccount,
    /// The signature data could not be parsed.
    MalformedData,
}

/// Mapping the logging errors to CustomContractError.
impl From<LogError> for CustomContractError {
    fn from(le: LogError) -> (r: Self) {
        match le {
            LogError::Full => CustomContractError::LogFull,
            LogError::Malformed => CustomContractError::LogMalformed,
        }
    }
}

impl FromSpecImpl<LogError> for CustomContractError {
    open spec fn obeys_from_spec() -> bool {
        true
    }

    open spec fn from_spec(le: LogError) -> CustomContractError {
        match le {
            LogError::Full => CustomContractError::LogFull,
            LogError::Malformed => CustomContractError::LogMalformed,
        }
    }
}

/// Mapping errors related to contract invocations to CustomContractError.
impl From<CallContractError> for CustomContractError {
    fn from(_cce: CallContractError) -> (r: Self) {
        CustomContractError::InvokeContractError
    }
}

impl FromSpecImpl<CallContractError> for CustomContractError {
    open spec fn obeys_from_spec() -> bool {
        true
    }

    open spec fn from_spec(cce: CallContractError) -> CustomContractError {
        CustomContractError::InvokeContractError
    }
}

/// A parse failure is the custom error `ParseParams`.
impl From<ParseError> for CustomContractError {
    fn from(_pe: ParseError) -> (r: Self) {
        CustomContractError::ParseParams
    }
}

impl FromSpecImpl<ParseError> for CustomContractError {
    open spec fn obeys_from_spec() -> bool {
        true
    }

    open spec fn from_spec(pe: ParseError) -> CustomContractError {
        CustomContractError::ParseParams
    }
}

/// Mapping CustomContractError to ContractError.
impl From<CustomContractError> for ContractError {
    fn from(c: CustomContractError) -> (r: Self) {
        ContractError::Custom(c)
    }
}

impl FromSpecImpl<CustomContractError> for ContractError {
    open spec fn obeys_from_spec() -> bool {
        true
    }

    open spec fn from_spec(c: CustomContractError) -> ContractError {
        ContractError::Custom(c)
    }
}

} // verus!
