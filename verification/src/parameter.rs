//! Reading the parameters of the entrypoints from their bytes. The chain
//! crates' decoders read each field; the layout of the contract's own
//! parameter types, and the answer `ParseParams` to a parameter that cannot
//! be read, are stated and proved here.

use vstd::prelude::*;
use concordium_cis2::{BalanceOfQueryParams, OperatorOfQueryParams, TokenIdU32, TokenMetadataQueryParams};
use concordium_std::schema::SizeLength;
use concordium_std::{from_bytes, Address as ChainAddress, ContractAddress as ChainContract};
use concordium_std::{Cursor, DeserialCtx, Get, OwnedEntrypointName, ParseResult, Timestamp};
use crate::address::{AccountAddress, Address, ContractAddress};
use crate::errors::{ContractError, CustomContractError};
use crate::payload::{
    parse_permit_signer, parse_transfer_payload, parse_update_operator_payload, permit_signer_prefix,
    transfer_payload, update_operator_payload,
};
use crate::types::{BalanceOfQuery, MintParams, OperatorOfQuery, PermitMessage, SetImplementorsParams, Transfer, UpdateOperator};

verus! {

/// The queries that `from_bytes` reads from `parameter` as
/// `BalanceOfQueryParams` with `TokenIdU32` ids, or `None` where it fails.
pub uninterp spec fn balance_of_parameter(parameter: Seq<u8>) -> Option<Seq<BalanceOfQuery>>;

/// The queries that `from_bytes` reads from `parameter` as
/// `OperatorOfQueryParams`, or `None` where it fails.
pub uninterp spec fn operator_of_parameter(parameter: Seq<u8>) -> Option<Seq<OperatorOfQuery>>;

/// The token ids that `from_bytes` reads from `parameter` as
/// `TokenMetadataQueryParams` with `TokenIdU32` ids, or `None` where it fails.
pub uninterp spec fn token_metadata_parameter(parameter: Seq<u8>) -> Option<Seq<u32>>;

/// The length that `Get::get` reads as a `u16` from `parameter` at `pos`,
/// with the position after it.
pub uninterp spec fn length_u16_at(parameter: Seq<u8>, pos: usize) -> Option<(u16, usize)>;

/// The text that `String::deserial_ctx` with a one-byte length reads from
/// `parameter` at `pos` (a standard identifier), with the position after it.
pub uninterp spec fn identifier_at(parameter: Seq<u8>, pos: usize) -> Option<(Seq<char>, usize)>;

/// The contract addresses that `Get::get` reads as a `Vec` from `parameter`
/// at `pos`, with the position after them.
pub uninterp spec fn contract_addresses_at(parameter: Seq<u8>, pos: usize) -> Option<(Seq<ContractAddress>, usize)>;

/// The entrypoint names that `Vec::deserial_ctx` with a two-byte length
/// reads from `parameter`, or `None` where it fails.
pub uninterp spec fn entrypoint_names_parameter(parameter: Seq<u8>) -> Option<Seq<Seq<char>>>;

/// The owner address and then the base URL text that `Get::get` reads from
/// the front of `parameter`, with the position after them.
pub uninterp spec fn mint_head_parameter(parameter: Seq<u8>) -> Option<(Address, Seq<char>, usize)>;

/// The token ids that `BTreeSet::deserial_ctx` with a one-byte length and no
/// order check reads from `parameter` at `pos`, with the position after them.
pub uninterp spec fn token_set_at(parameter: Seq<u8>, pos: usize) -> Option<(Set<u32>, usize)>;

/// The contract address, nonce, timestamp (milliseconds) and entrypoint name
/// that `Get::get` reads from `parameter` at `pos`, with the position after.
pub uninterp spec fn permit_message_head_at(parameter: Seq<u8>, pos: usize) -> Option<(ContractAddress, u64, u64, Seq<char>, usize)>;

/// The bytes that `Vec::deserial_ctx` with a two-byte length reads from
/// `parameter` at `pos`, with the position after them.
pub uninterp spec fn payload_at(parameter: Seq<u8>, pos: usize) -> Option<(Seq<u8>, usize)>;

/// `from_bytes` of `concordium_cis2::BalanceOfQueryParams<TokenIdU32>`, each
/// query carried over field by field; named `balance_of_parameter`.
#[verifier::external_body]
pub(crate) fn read_balance_of(parameter: &Vec<u8>) -> (r: Option<Vec<BalanceOfQuery>>)
    ensures
        r is Some == balance_of_parameter(parameter@) is Some,
        r is Some ==> Some(r->0@) == balance_of_parameter(parameter@),
{
    let addr = |a| match a {
        ChainAddress::Account(x) => Address::Account(AccountAddress(x.0)),
        ChainAddress::Contract(c) => Address::Contract(ContractAddress { index: c.index, subindex: c.subindex }),
    };
    let p = from_bytes::<BalanceOfQueryParams<TokenIdU32>>(parameter).ok()?;
    Some(p.queries.into_iter().map(|q| BalanceOfQuery { token_id: q.token_id.0, address: addr(q.address) }).collect())
}

/// `from_bytes` of `concordium_cis2::OperatorOfQueryParams`, each query
/// carried over field by field; named `operator_of_parameter`.
#[verifier::external_body]
pub(crate) fn read_operator_of(parameter: &Vec<u8>) -> (r: Option<Vec<OperatorOfQuery>>)
    ensures
        r is Some == operator_of_parameter(parameter@) is Some,
        r is Some ==> Some(r->0@) == operator_of_parameter(parameter@),
{
    let addr = |a| match a {
        ChainAddress::Account(x) => Address::Account(AccountAddress(x.0)),
        ChainAddress::Contract(c) => Address::Contract(ContractAddress { index: c.index, subindex: c.subindex }),
    };
    let p = from_bytes::<OperatorOfQueryParams>(parameter).ok()?;
    Some(p.queries.into_iter().map(|q| OperatorOfQuery { owner: addr(q.owner), address: addr(q.address) }).collect())
}

/// `from_bytes` of `concordium_cis2::TokenMetadataQueryParams<TokenIdU32>`,
/// each id as its `u32`; named `token_metadata_parameter`.
#[verifier::external_body]
pub(crate) fn read_token_metadata(parameter: &Vec<u8>) -> (r: Option<Vec<u32>>)
    ensures
        r is Some == token_metadata_parameter(parameter@) is Some,
        r is Some ==> Some(r->0@) == token_metadata_parameter(parameter@),
{
    let p = from_bytes::<TokenMetadataQueryParams<TokenIdU32>>(parameter).ok()?;
    Some(p.queries.into_iter().map(|t| t.0).collect())
}

/// `Get::get` of a `u16` through a `concordium_std::Cursor` at `pos`,
/// answering the cursor's offset after it; named `length_u16_at`. The
/// cursor's `Read` never moves the offset past the end of the bytes.
#[verifier::external_body]
pub(crate) fn read_length_u16(parameter: &Vec<u8>, pos: usize) -> (r: Option<(u16, usize)>)
    requires
        pos <= parameter.len(),
    ensures
        r == length_u16_at(parameter@, pos),
        r matches Some((_, n)) ==> pos <= n <= parameter.len(),
{
    let mut cursor = Cursor { offset: pos, data: parameter.as_slice() };
    let read: ParseResult<u16> = cursor.get();
    Some((read.ok()?, cursor.offset))
}

/// `String::deserial_ctx` with a one-byte length through a cursor at `pos`,
/// which is how a standard identifier is read; named `identifier_at`.
#[verifier::external_body]
pub(crate) fn read_identifier(parameter: &Vec<u8>, pos: usize) -> (r: Option<(String, usize)>)
    requires
        pos <= parameter.len(),
    ensures
        r is Some == identifier_at(parameter@, pos) is Some,
        r matches Some((s, n)) ==> identifier_at(parameter@, pos) == Some((s@, n)) && pos <= n <= parameter.len(),
{
    let mut cursor = Cursor { offset: pos, data: parameter.as_slice() };
    let s = String::deserial_ctx(SizeLength::U8, false, &mut cursor).ok()?;
    Some((s, cursor.offset))
}

/// `Get::get` of a `Vec` of contract addresses through a cursor at `pos`,
/// each carried over field by field; named `contract_addresses_at`.
#[verifier::external_body]
pub(crate) fn read_contract_addresses(parameter: &Vec<u8>, pos: usize) -> (r: Option<(Vec<ContractAddress>, usize)>)
    requires
        pos <= parameter.len(),
    ensures
        r is Some == contract_addresses_at(parameter@, pos) is Some,
        r matches Some((v, n)) ==> contract_addresses_at(parameter@, pos) == Some((v@, n)) && pos <= n
            <= parameter.len(),
{
    let mut cursor = Cursor { offset: pos, data: parameter.as_slice() };
    let read: ParseResult<Vec<ChainContract>> = cursor.get();
    let v = read.ok()?.into_iter().map(|c| ContractAddress { index: c.index, subindex: c.subindex }).collect();
    Some((v, cursor.offset))
}

/// `Vec::<OwnedEntrypointName>::deserial_ctx` with a two-byte length, each
/// name as its text; named `entrypoint_names_parameter`.
#[verifier::external_body]
pub(crate) fn read_entrypoint_names(parameter: &Vec<u8>) -> (r: Option<Vec<String>>)
    ensures
        r is Some == entrypoint_names_parameter(parameter@) is Some,
        r matches Some(v) ==> entrypoint_names_parameter(parameter@) == Some(v@.map_values(|s: String| s@)),
{
    let mut cursor = Cursor::new(parameter.as_slice());
    let names = Vec::<OwnedEntrypointName>::deserial_ctx(SizeLength::U16, false, &mut cursor).ok()?;
    Some(names.into_iter().map(String::from).collect())
}

/// `Get::get` of an address and then a `String` from the front of the
/// bytes; named `mint_head_parameter`.
#[verifier::external_body]
pub(crate) fn read_mint_head(parameter: &Vec<u8>) -> (r: Option<(Address, String, usize)>)
    ensures
        r is Some == mint_head_parameter(parameter@) is Some,
        r matches Some((a, s, n)) ==> mint_head_parameter(parameter@) == Some((a, s@, n)) && n <= parameter.len(),
{
    let mut cursor = Cursor::new(parameter.as_slice());
    let read: ParseResult<(ChainAddress, String)> = cursor.get();
    let (a, s) = read.ok()?;
    let owner = match a {
        ChainAddress::Account(x) => Address::Account(AccountAddress(x.0)),
        ChainAddress::Contract(c) => Address::Contract(ContractAddress { index: c.index, subindex: c.subindex }),
    };
    Some((owner, s, cursor.offset))
}

/// `BTreeSet::<TokenIdU32>::deserial_ctx` with a one-byte length and no
/// order check through a cursor at `pos`, each id as its `u32`; named
/// `token_set_at`.
#[verifier::external_body]
pub(crate) fn read_token_set(parameter: &Vec<u8>, pos: usize) -> (r: Option<(std::collections::BTreeSet<u32>, usize)>)
    requires
        pos <= parameter.len(),
    ensures
        r is Some == token_set_at(parameter@, pos) is Some,
        r matches Some((t, n)) ==> token_set_at(parameter@, pos) == Some((t@, n)) && pos <= n <= parameter.len(),
{
    let mut cursor = Cursor { offset: pos, data: parameter.as_slice() };
    let set = std::collections::BTreeSet::<TokenIdU32>::deserial_ctx(SizeLength::U8, false, &mut cursor).ok()?;
    Some((set.into_iter().map(|t| t.0).collect(), cursor.offset))
}

/// `Get::get` of a contract address, a `u64`, a `Timestamp` and an
/// `OwnedEntrypointName` through a cursor at `pos`; named
/// `permit_message_head_at`.
#[verifier::external_body]
pub(crate) fn read_permit_message_head(parameter: &Vec<u8>, pos: usize) -> (r: Option<(ContractAddress, u64, u64, String, usize)>)
    requires
        pos <= parameter.len(),
    ensures
        r is Some == permit_message_head_at(parameter@, pos) is Some,
        r matches Some((c, nonce, t, e, n)) ==> permit_message_head_at(parameter@, pos) == Some((c, nonce, t, e@, n))
            && pos <= n <= parameter.len(),
{
    let mut cursor = Cursor { offset: pos, data: parameter.as_slice() };
    let read: ParseResult<(ChainContract, u64, (Timestamp, OwnedEntrypointName))> = cursor.get();
    let (c, nonce, (t, e)) = read.ok()?;
    let contract = ContractAddress { index: c.index, subindex: c.subindex };
    Some((contract, nonce, t.millis, String::from(e), cursor.offset))
}

/// `Vec::<u8>::deserial_ctx` with a two-byte length through a cursor at
/// `pos`; named `payload_at`.
#[verifier::external_body]
pub(crate) fn read_payload(parameter: &Vec<u8>, pos: usize) -> (r: Option<(Vec<u8>, usize)>)
    requires
        pos <= parameter.len(),
    ensures
        r is Some == payload_at(parameter@, pos) is Some,
        r matches Some((v, n)) ==> payload_at(parameter@, pos) == Some((v@, n)) && pos <= n <= parameter.len(),
{
    let mut cursor = Cursor { offset: pos, data: parameter.as_slice() };
    let v = Vec::<u8>::deserial_ctx(SizeLength::U16, false, &mut cursor).ok()?;
    Some((v, cursor.offset))
}

/// The error answered for a parameter that cannot be read.
pub open spec fn parse_error() -> ContractError {
    ContractError::Custom(CustomContractError::ParseParams)
}

/// The parameter of `transfer`: the transfers, or `ParseParams`.
pub fn transfer_parameter(parameter: &Vec<u8>) -> (r: Result<Vec<Transfer>, ContractError>)
    ensures
        match transfer_payload(parameter@) {
            Some(ts) => r matches Ok(v) && v@ == ts,
            None => r == Err::<Vec<Transfer>, ContractError>(parse_error()),
        },
{
    match parse_transfer_payload(parameter) {
        Some(v) => Ok(v),
        None => Err(ContractError::Custom(CustomContractError::ParseParams)),
    }
}

/// The parameter of `updateOperator`: the updates, or `ParseParams`.
pub fn update_operator_parameter(parameter: &Vec<u8>) -> (r: Result<Vec<UpdateOperator>, ContractError>)
    ensures
        match update_operator_payload(parameter@) {
            Some(us) => r matches Ok(v) && v@ == us,
            None => r == Err::<Vec<UpdateOperator>, ContractError>(parse_error()),
        },
{
    match parse_update_operator_payload(parameter) {
        Some(v) => Ok(v),
        None => Err(ContractError::Custom(CustomContractError::ParseParams)),
    }
}

/// The parameter of `balanceOf`: the queries, or `ParseParams`.
pub fn balance_of_queries(parameter: &Vec<u8>) -> (r: Result<Vec<BalanceOfQuery>, ContractError>)
    ensures
        match balance_of_parameter(parameter@) {
            Some(qs) => r matches Ok(v) && v@ == qs,
            None => r == Err::<Vec<BalanceOfQuery>, ContractError>(parse_error()),
        },
{
    match read_balance_of(parameter) {
        Some(v) => Ok(v),
        None => Err(ContractError::Custom(CustomContractError::ParseParams)),
    }
}

/// The parameter of `operatorOf`: the queries, or `ParseParams`.
pub fn operator_of_queries(parameter: &Vec<u8>) -> (r: Result<Vec<OperatorOfQuery>, ContractError>)
    ensures
        match operator_of_parameter(parameter@) {
            Some(qs) => r matches Ok(v) && v@ == qs,
            None => r == Err::<Vec<OperatorOfQuery>, ContractError>(parse_error()),
        },
{
    match read_operator_of(parameter) {
        Some(v) => Ok(v),
        None => Err(ContractError::Custom(CustomContractError::ParseParams)),
    }
}

/// The parameter of `tokenMetadata`: the token ids, or `ParseParams`.
pub fn token_metadata_queries(parameter: &Vec<u8>) -> (r: Result<Vec<u32>, ContractError>)
    ensures
        match token_metadata_parameter(parameter@) {
            Some(qs) => r matches Ok(v) && v@ == qs,
            None => r == Err::<Vec<u32>, ContractError>(parse_error()),
        },
{
    match read_token_metadata(parameter) {
        Some(v) => Ok(v),
        None => Err(ContractError::Custom(CustomContractError::ParseParams)),
    }
}

/// The parameter of `supportsPermit`: the entrypoint names, or `ParseParams`.
pub fn supports_permit_queries(parameter: &Vec<u8>) -> (r: Result<Vec<String>, ContractError>)
    ensures
        match entrypoint_names_parameter(parameter@) {
            Some(qs) => r matches Ok(v) && v@.map_values(|s: String| s@) == qs,
            None => r == Err::<Vec<String>, ContractError>(parse_error()),
        },
{
    match read_entrypoint_names(parameter) {
        Some(v) => Ok(v),
        None => Err(ContractError::Custom(CustomContractError::ParseParams)),
    }
}

/// The `count` standard identifiers that follow each other from `pos`, with
/// the position after the last.
pub open spec fn identifiers_from(parameter: Seq<u8>, pos: usize, count: nat) -> Option<(Seq<Seq<char>>, usize)>
    decreases count,
{
    if count == 0 {
        Some((Seq::empty(), pos))
    } else {
        match identifiers_from(parameter, pos, (count - 1) as nat) {
            None => None,
            Some((ids, q)) => match identifier_at(parameter, q) {
                None => None,
                Some((id, n)) => Some((ids.push(id), n)),
            },
        }
    }
}

proof fn lemma_identifiers_fail(parameter: Seq<u8>, pos: usize, k: nat, m: nat)
    requires
        k <= m,
        identifiers_from(parameter, pos, k) is None,
    ensures
        identifiers_from(parameter, pos, m) is None,
    decreases m,
{
    if k < m {
        lemma_identifiers_fail(parameter, pos, k, (m - 1) as nat);
    }
}

/// The parameter of `supports`: a two-byte count, then that many standard
/// identifiers.
pub open spec fn supports_parameter(parameter: Seq<u8>) -> Option<Seq<Seq<char>>> {
    match length_u16_at(parameter, 0) {
        None => None,
        Some((count, q)) => match identifiers_from(parameter, q, count as nat) {
            None => None,
            Some((ids, _)) => Some(ids),
        },
    }
}

/// The parameter of `supports`: the standard identifiers, or `ParseParams`.
pub fn supports_queries(parameter: &Vec<u8>) -> (r: Result<Vec<String>, ContractError>)
    ensures
        match supports_parameter(parameter@) {
            Some(qs) => r matches Ok(v) && v@.map_values(|s: String| s@) == qs,
            None => r == Err::<Vec<String>, ContractError>(parse_error()),
        },
{
    let (count, start) = match read_length_u16(parameter, 0) {
        Some(x) => x,
        None => {
            return Err(ContractError::Custom(CustomContractError::ParseParams));
        },
    };
    let mut ids: Vec<String> = Vec::new();
    let mut pos: usize = start;
    let mut i: u16 = 0;
    while i < count
        invariant
            i <= count,
            pos <= parameter.len(),
            length_u16_at(parameter@, 0) == Some((count, start)),
            identifiers_from(parameter@, start, i as nat) == Some((ids@.map_values(|s: String| s@), pos)),
        decreases count - i,
    {
        match read_identifier(parameter, pos) {
            Some((id, next)) => {
                proof {
                    assert(ids@.push(id).map_values(|s: String| s@) =~= ids@.map_values(|s: String| s@).push(id@));
                }
                ids.push(id);
                pos = next;
            },
            None => {
                assert(identifiers_from(parameter@, start, (i + 1) as nat) is None);
                proof {
                    lemma_identifiers_fail(parameter@, start, (i + 1) as nat, count as nat);
                }
                return Err(ContractError::Custom(CustomContractError::ParseParams));
            },
        }
        i = i + 1;
    }
    Ok(ids)
}

/// The parameter of `setImplementors`: a standard identifier, then the
/// implementing contract addresses.
pub open spec fn set_implementors_parameter(parameter: Seq<u8>) -> Option<(Seq<char>, Seq<ContractAddress>)> {
    match identifier_at(parameter, 0) {
        None => None,
        Some((id, q)) => match contract_addresses_at(parameter, q) {
            None => None,
            Some((implementors, _)) => Some((id, implementors)),
        },
    }
}

/// The parameter of `setImplementors`, or `ParseParams`.
pub fn set_implementors_params(parameter: &Vec<u8>) -> (r: Result<SetImplementorsParams, ContractError>)
    ensures
        match set_implementors_parameter(parameter@) {
            Some((id, implementors)) => r matches Ok(p) && p.id@ == id && p.implementors@ == implementors,
            None => r == Err::<SetImplementorsParams, ContractError>(parse_error()),
        },
{
    let (id, pos) = match read_identifier(parameter, 0) {
        Some(x) => x,
        None => {
            return Err(ContractError::Custom(CustomContractError::ParseParams));
        },
    };
    match read_contract_addresses(parameter, pos) {
        Some((implementors, _)) => Ok(SetImplementorsParams { id, implementors }),
        None => Err(ContractError::Custom(CustomContractError::ParseParams)),
    }
}

/// The parameter of `mint`: the owner, the metadata base URL, then the set
/// of token ids with a one-byte count.
pub open spec fn mint_parameter(parameter: Seq<u8>) -> Option<(Address, Seq<char>, Set<u32>)> {
    match mint_head_parameter(parameter) {
        None => None,
        Some((owner, base, q)) => match token_set_at(parameter, q) {
            None => None,
            Some((tokens, _)) => Some((owner, base, tokens)),
        },
    }
}

/// The parameter of `mint`, or `ParseParams`.
pub fn mint_params(parameter: &Vec<u8>) -> (r: Result<MintParams, ContractError>)
    ensures
        match mint_parameter(parameter@) {
            Some((owner, base, tokens)) => r matches Ok(p) && p.owner == owner && p.token_metadata_base_url@
                == base && p.tokens@ == tokens,
            None => r == Err::<MintParams, ContractError>(parse_error()),
        },
{
    let (owner, token_metadata_base_url, pos) = match read_mint_head(parameter) {
        Some(x) => x,
        None => {
            return Err(ContractError::Custom(CustomContractError::ParseParams));
        },
    };
    match read_token_set(parameter, pos) {
        Some((tokens, _)) => Ok(MintParams { owner, token_metadata_base_url, tokens }),
        None => Err(ContractError::Custom(CustomContractError::ParseParams)),
    }
}

/// The parameter of `permit`: the signatures and the signer, then the
/// message: contract address, nonce, timestamp, entrypoint name and the
/// payload with a two-byte length. The signatures are read by the chain.
pub open spec fn permit_parameter(parameter: Seq<u8>) -> Option<(AccountAddress, ContractAddress, u64, u64, Seq<char>, Seq<u8>)> {
    match permit_signer_prefix(parameter) {
        None => None,
        Some((signer, q)) => match permit_message_head_at(parameter, q) {
            None => None,
            Some((contract, nonce, timestamp, entry_point, q2)) => match payload_at(parameter, q2) {
                None => None,
                Some((payload, _)) => Some((signer, contract, nonce, timestamp, entry_point, payload)),
            },
        },
    }
}

/// The parameter of `permit`: the signer and the message, or `ParseParams`.
pub fn permit_params(parameter: &Vec<u8>) -> (r: Result<(AccountAddress, PermitMessage), ContractError>)
    ensures
        match permit_parameter(parameter@) {
            Some((signer, contract, nonce, timestamp, entry_point, payload)) => r matches Ok((s, m)) && s == signer
                && m.contract_address == contract && m.nonce == nonce && m.timestamp == timestamp
                && m.entry_point@ == entry_point && m.payload@ == payload,
            None => r == Err::<(AccountAddress, PermitMessage), ContractError>(parse_error()),
        },
{
    let (signer, pos) = match parse_permit_signer(parameter) {
        Some(x) => x,
        None => {
            return Err(ContractError::Custom(CustomContractError::ParseParams));
        },
    };
    let (contract_address, nonce, timestamp, entry_point, pos2) = match read_permit_message_head(parameter, pos) {
        Some(x) => x,
        None => {
            return Err(ContractError::Custom(CustomContractError::ParseParams));
        },
    };
    match read_payload(parameter, pos2) {
        Some((payload, _)) => Ok(
            (signer, PermitMessage { contract_address, nonce, timestamp, entry_point, payload }),
        ),
        None => Err(ContractError::Custom(CustomContractError::ParseParams)),
    }
}

} // verus!
