//! Record identifiers are UUIDs, held as their 128-bit value. Reading one
//! out of text and writing one back are the uuid crate's work, behind
//! trusted declarations.

use vstd::prelude::*;

verus! {

/// The 128-bit value that the uuid crate reads out of a piece of text, or
/// `None` where the text is not a UUID in one of its accepted forms.
pub uninterp spec fn parsed_uuid(s: Seq<char>) -> Option<u128>;

/// The hyphenated text of the UUID with the given 128-bit value.
pub uninterp spec fn uuid_text(v: u128) -> Seq<char>;

/// Relies on uuid::Uuid::parse_str and Uuid::as_u128: the value read
/// depends on the characters alone.
#[verifier::external_body]
pub(crate) fn parse_id(s: &str) -> (r: Option<u128>)
    ensures
        r == parsed_uuid(s@),
{
    match uuid::Uuid::parse_str(s) {
        Ok(u) => Some(u.as_u128()),
        Err(_) => None,
    }
}

/// Relies on uuid::Uuid::new_v4: a freshly drawn random identifier.
/// Nothing is promised of the value; the store checks it against the
/// identifiers it already holds.
#[verifier::external_body]
pub(crate) fn fresh_id() -> u128 {
    uuid::Uuid::new_v4().as_u128()
}

/// Relies on uuid::Uuid::from_u128 and its hyphenated formatter: the text
/// is a function of the value alone, is 36 characters long, and parse_str
/// reads the same value back out of it.
#[verifier::external_body]
pub(crate) fn id_text(v: u128) -> (r: String)
    ensures
        r@ == uuid_text(v),
        r@.len() == 36,
        parsed_uuid(r@) == Some(v),
{
    uuid::Uuid::from_u128(v).hyphenated().to_string()
}

} // verus!
