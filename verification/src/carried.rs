//! What a vault item carries without looking inside: identifiers and
//! timestamps, in the types of the crates that define them.

use vstd::prelude::*;

verus! {

/// `uuid::Uuid`, the identifier of an item, an organization, a folder or a
/// collection. Nothing is stated of what it holds.
#[verifier::external_type_specification]
#[verifier::external_body]
pub struct ExUuid(uuid::Uuid);

/// `chrono::NaiveDateTime`, a date and time without an offset. Every timestamp
/// of an item is one in UTC. Nothing is stated of what it holds.
#[verifier::external_type_specification]
#[verifier::external_body]
pub struct ExNaiveDateTime(chrono::NaiveDateTime);

/// Whether two identifiers are the same.
///
/// Stands on `Uuid`'s `==`, which compares the sixteen bytes that make up the
/// whole of an identifier.
#[verifier::external_body]
pub(crate) fn same_id(a: &uuid::Uuid, b: &uuid::Uuid) -> (same: bool)
    ensures
        same == (*a == *b),
{
    a == b
}

} // verus!
