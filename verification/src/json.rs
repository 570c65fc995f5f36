//! Reading single values out of JSON documents (bundle metadata), through
//! serde_json.
use vstd::prelude::*;

verus! {

/// The unsigned integer serde_json finds at JSON Pointer `pointer` in the
/// document `bytes`: `None` when `bytes` is not a JSON document, nothing
/// sits at `pointer`, or what sits there is not a `u64`.
pub uninterp spec fn json_u64_at(bytes: Seq<u8>, pointer: Seq<char>) -> Option<u64>;

/// The boolean serde_json finds at JSON Pointer `pointer` in the document
/// `bytes`: `None` when `bytes` is not a JSON document, nothing sits at
/// `pointer`, or what sits there is not a boolean.
pub uninterp spec fn json_bool_at(bytes: Seq<u8>, pointer: Seq<char>) -> Option<bool>;

/// Calls `serde_json::from_slice` into a `serde_json::Value`, then
/// `Value::pointer` and `Value::as_u64`. Trusted: the result is named
/// [`json_u64_at`] of the bytes and the pointer, and nothing more is
/// claimed of it; it depends on those two arguments alone.
#[verifier::external_body]
pub(crate) fn u64_at(bytes: &[u8], pointer: &str) -> (r: Option<u64>)
    ensures
        r == json_u64_at(bytes@, pointer@),
{
    serde_json::from_slice::<serde_json::Value>(bytes)
        .ok()
        .and_then(|value| value.pointer(pointer).and_then(|found| found.as_u64()))
}

/// Calls `serde_json::from_slice` into a `serde_json::Value`, then
/// `Value::pointer` and `Value::as_bool`. Trusted: the result is named
/// [`json_bool_at`] of the bytes and the pointer, and nothing more is
/// claimed of it.
#[verifier::external_body]
pub(crate) fn bool_at(bytes: &[u8], pointer: &str) -> (r: Option<bool>)
    ensures
        r == json_bool_at(bytes@, pointer@),
{
    serde_json::from_slice::<serde_json::Value>(bytes)
        .ok()
        .and_then(|value| value.pointer(pointer).and_then(|found| found.as_bool()))
}

} // verus!
