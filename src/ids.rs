use vstd::prelude::*;

verus! {

/// Relies on `uuid::Uuid::new_v4` and its `to_string`: a random id in the hyphenated form,
/// 36 characters long.
#[verifier::external_body]
pub(crate) fn new_id() -> (r: String)
    ensures
        r@.len() == 36,
{
    uuid::Uuid::new_v4().to_string()
}

} // verus!
