//! Identifiers that are made at random.

use vstd::prelude::*;

verus! {

/// `uuid::Uuid::new_v4` in its hyphenated form, which has 36 characters. Nothing else is said of the
/// identifier: it is random.
#[verifier::external_body]
pub(crate) fn random_id() -> (r: String)
    ensures
        r@.len() == 36,
{
    uuid::Uuid::new_v4().to_string()
}

} // verus!
