//! Token ids as text, metadata URLs and the standards this contract
//! answers for.

use vstd::prelude::*;
use vstd::string::StringExecFns;

verus! {

/// The upper-case hexadecimal digit of `n` (`0 <= n < 16`).
pub open spec fn hex_digit(n: int) -> char {
    if n < 10 {
        (48 + n) as char
    } else {
        (55 + n) as char
    }
}

/// The two upper-case hexadecimal digits of a byte.
pub open spec fn hex_byte(b: int) -> Seq<char> {
    seq![hex_digit(b / 16), hex_digit(b % 16)]
}

/// A token id as text: its four bytes in little-endian order, each as two
/// upper-case hexadecimal digits.
pub open spec fn token_id_hex(id: u32) -> Seq<char> {
    let n = id as int;
    hex_byte(n % 256) + hex_byte((n / 256) % 256) + hex_byte((n / 65536) % 256) + hex_byte(
        n / 16777216,
    )
}

/// The metadata URL of a token: the base URL appended with the token id
/// encoded as hex.
pub open spec fn metadata_url_of(token_id: u32, base: Seq<char>) -> Seq<char> {
    base + token_id_hex(token_id)
}

/// `Display` of `concordium_cis2::TokenIdU32`: the crate writes each byte of
/// `to_le_bytes()` with `{:02X}`, which is `token_id_hex`.
#[verifier::external_body]
fn token_id_to_string(id: u32) -> (s: String)
    ensures
        s@ == token_id_hex(id),
{
    concordium_cis2::TokenIdU32(id).to_string()
}

/// Build a string from the base URL appended with the token ID encoded as
/// hex.
pub fn build_token_metadata_url(token_id: u32, token_metadata_base_url: String) -> (url: String)
    ensures
        url@ == metadata_url_of(token_id, token_metadata_base_url@),
{
    let mut token_metadata_url = token_metadata_base_url;
    let id_text = token_id_to_string(token_id);
    token_metadata_url.append(id_text.as_str());
    token_metadata_url
}

/// The standards that this contract supports itself: CIS-0 and CIS-2.
pub open spec fn is_supported_standard(id: Seq<char>) -> bool {
    id == "CIS-0"@ || id == "CIS-2"@
}

/// Equality with `concordium_cis2::CIS0_STANDARD_IDENTIFIER`, which the crate
/// declares as the identifier `"CIS-0"`; identifiers compare by their text.
#[verifier::external_body]
fn is_cis0_identifier(id: &String) -> (r: bool)
    ensures
        r == (id@ == "CIS-0"@),
{
    concordium_cis2::StandardIdentifierOwned::new_unchecked(id.clone()).as_standard_identifier()
        == concordium_cis2::CIS0_STANDARD_IDENTIFIER
}

/// Equality with `concordium_cis2::CIS2_STANDARD_IDENTIFIER`, which the crate
/// declares as the identifier `"CIS-2"`; identifiers compare by their text.
#[verifier::external_body]
fn is_cis2_identifier(id: &String) -> (r: bool)
    ensures
        r == (id@ == "CIS-2"@),
{
    concordium_cis2::StandardIdentifierOwned::new_unchecked(id.clone()).as_standard_identifier()
        == concordium_cis2::CIS2_STANDARD_IDENTIFIER
}

/// Whether the contract itself supports the standard `id`.
pub fn supports_standard(id: &String) -> (r: bool)
    ensures
        r == is_supported_standard(id@),
{
    is_cis0_identifier(id) || is_cis2_identifier(id)
}

/// The entrypoints that can be reached through a signed permit message.
pub open spec fn is_permit_entrypoint(name: Seq<char>) -> bool {
    name == "updateOperator"@ || name == "transfer"@
}

/// Exact comparison of a string with a literal.
pub fn string_is(s: &String, lit: &str) -> (r: bool)
    ensures
        r == (s@ == lit@),
{
    let other = String::from_str(lit);
    s.eq(&other)
}

/// Whether the entrypoint `name` can be reached through a permit message.
pub fn supports_permit_entrypoint(name: &String) -> (r: bool)
    ensures
        r == is_permit_entrypoint(name@),
{
    string_is(name, "updateOperator") || string_is(name, "transfer")
}

} // verus!
