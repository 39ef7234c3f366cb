//! Execution ids: random 128-bit UUIDs, shown in their hyphenated form.

use vstd::prelude::*;

verus! {

/// The canonical text of an id: lower-case hyphenated hex.
pub uninterp spec fn uuid_text(id: u128) -> Seq<char>;

/// The id that a text denotes, if it is a well-formed UUID.
pub uninterp spec fn uuid_parse(s: Seq<char>) -> Option<u128>;

/// Relies on `uuid::Uuid::new_v4`: a fresh random (version 4) UUID. Nothing
/// is promised of its value.
#[verifier::external_body]
pub(crate) fn random_execution_id() -> (r: u128) {
    uuid::Uuid::new_v4().as_u128()
}

/// Relies on `uuid::Uuid`'s `Display`: the hyphenated lower-case form, 36
/// characters, which `Uuid::parse_str` reads back to the same id.
#[verifier::external_body]
pub(crate) fn id_text(id: u128) -> (r: String)
    ensures
        r@ == uuid_text(id),
        r@.len() == 36,
        uuid_parse(r@) == Some(id),
{
    uuid::Uuid::from_u128(id).to_string()
}

/// Relies on `uuid::Uuid::parse_str`: the id a text denotes, or `None` when
/// it is no UUID.
#[verifier::external_body]
pub(crate) fn parse_id(s: &str) -> (r: Option<u128>)
    ensures
        r == uuid_parse(s@),
{
    uuid::Uuid::parse_str(s).ok().map(|u| u.as_u128())
}

/// The external name of the execution `id`: the text of its id, under
/// which its sandbox process runs and can be terminated.
pub fn execution_name(id: u128) -> (r: String)
    ensures
        r@ == uuid_text(id),
        uuid_parse(r@) == Some(id),
{
    id_text(id)
}

} // verus!
