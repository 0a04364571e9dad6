use vstd::prelude::*;

use serde_json::Value;

verus! {

/// The stored documents are `serde_json::Value`s, carried through unread.
#[verifier::external_type_specification]
#[verifier::external_body]
pub struct ExValue(serde_json::Value);

/// Relies on the `Clone` that `serde_json::Value` derives: the copy is the
/// same document.
#[verifier::external_body]
pub(crate) fn copy_value(v: &Value) -> (r: Value)
    ensures
        r == *v,
{
    v.clone()
}

} // verus!
