//! Identifiers. Users, sessions and roles are identified by 128-bit UUIDs,
//! held here as their `u128` value; the `uuid` crate generates, formats and
//! parses them.
use vstd::prelude::*;

verus! {

/// The canonical text of the UUID with value `id` (what `Uuid::to_string` gives).
pub uninterp spec fn uuid_text(id: u128) -> Seq<char>;

/// What parsing `text` as a UUID gives (`<Uuid as FromStr>::from_str`), as its value.
pub uninterp spec fn uuid_parse(text: Seq<char>) -> Option<u128>;

/// A fresh version-7 UUID.
///
/// Trusted: calls `uuid::Uuid::now_v7` and returns `as_u128`. The value depends on
/// the clock and on random bits, so nothing is claimed of it.
#[verifier::external_body]
pub fn new_id() -> (r: u128) {
    uuid::Uuid::now_v7().as_u128()
}

/// The text of the UUID `id`.
///
/// Trusted: calls `Uuid::from_u128(id).to_string()`. The result is named
/// `uuid_text(id)`. The crate's `Display` writes the lowercase hyphenated form,
/// which its `FromStr` parses back to the same value; that round trip is claimed.
#[verifier::external_body]
pub fn id_text(id: u128) -> (r: String)
    ensures
        r@ == uuid_text(id),
        uuid_parse(r@) == Some(id),
{
    uuid::Uuid::from_u128(id).to_string()
}

/// Parses `text` as a UUID.
///
/// Trusted: calls `text.parse::<uuid::Uuid>()` and returns the value of an `Ok`.
/// The result is named `uuid_parse(text)`.
#[verifier::external_body]
pub fn parse_id(text: &str) -> (r: Option<u128>)
    ensures
        r == uuid_parse(text@),
{
    match text.parse::<uuid::Uuid>() {
        Ok(u) => Some(u.as_u128()),
        Err(_) => None,
    }
}

} // verus!
