use vstd::prelude::*;

verus! {

/// Structured wire values are `serde_json::Value`: nested maps, sequences,
/// strings, numbers, booleans and null. They are opaque to the storage
/// layer, which moves them around but never interprets their contents.
#[verifier::external_type_specification]
#[verifier::external_body]
pub struct ExValue(serde_json::Value);

/// Relies on serde_json::Value's derived Clone, a deep copy that equals the
/// original value.
#[verifier::external_body]
pub(crate) fn clone_value(v: &serde_json::Value) -> (r: serde_json::Value)
    ensures
        r == *v,
{
    v.clone()
}

} // verus!
