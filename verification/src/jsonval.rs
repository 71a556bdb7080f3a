//! Trusted declarations around `serde_json`: the `Value` type and the
//! four accessor calls the format parser makes.  A `Value` is opaque
//! here; every decision about what an accessor returned is made by
//! verified code downstream.

use vstd::prelude::*;

verus! {

#[verifier::external_type_specification]
#[verifier::external_body]
pub struct ExValue(serde_json::Value);

/// Relies on serde_json::Value::get: the member of a JSON object
/// under the given key, if the value is an object holding one.
#[verifier::external_body]
pub(crate) fn json_get<'a>(v: &'a serde_json::Value, key: &str) -> (r: Option<
    &'a serde_json::Value,
>) {
    v.get(key)
}

/// Relies on serde_json::Value::as_array: the elements, if the value
/// is a JSON array.
#[verifier::external_body]
pub(crate) fn json_as_array<'a>(v: &'a serde_json::Value) -> (r: Option<
    &'a Vec<serde_json::Value>,
>) {
    v.as_array()
}

/// Relies on serde_json::Value::as_str: the text, if the value is a
/// JSON string; copied into an owned `String`.
#[verifier::external_body]
pub(crate) fn json_as_str(v: &serde_json::Value) -> (r: Option<String>) {
    v.as_str().map(|s| s.to_owned())
}

/// Relies on serde_json::Value::as_u64: the number, if the value is a
/// JSON number representable as `u64`.
#[verifier::external_body]
pub(crate) fn json_as_u64(v: &serde_json::Value) -> (r: Option<u64>) {
    v.as_u64()
}

} // verus!
