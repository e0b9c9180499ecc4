use vstd::prelude::*;

verus! {

/// The 128-bit value of the UUID that `text` spells, or `None` when it
/// spells none (by `uuid::Uuid::parse_str`).
pub uninterp spec fn parsed_uuid(text: Seq<char>) -> Option<u128>;

/// Parses a UUID in any of the textual forms that `uuid::Uuid::parse_str`
/// accepts and returns its 128-bit big-endian value (`Uuid::as_u128`).
/// The contract names the result as a function of the text alone; which
/// texts are accepted is not written out.
#[verifier::external_body]
pub(crate) fn parse_uuid_str(text: &str) -> (r: Option<u128>)
    ensures
        r == parsed_uuid(text@),
{
    match uuid::Uuid::parse_str(text) {
        Ok(id) => Some(id.as_u128()),
        Err(_) => None,
    }
}

} // verus!
