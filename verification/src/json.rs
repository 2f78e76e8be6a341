//! Trusted bridge to the generic structured-value decoder.
//!
//! The JSON parsing engine is an external collaborator: everything here
//! either declares its opaque types or wraps one of its calls. A decoded
//! value is opaque, and what each call reveals of one is deterministic in
//! the document alone, so the results are given names: `json_wf` and
//! `json_doc` for what the parser makes of the raw bytes, and the
//! `value_*` names for what each accessor reveals of a value. The bridge
//! reduces what the decoder's logic reads to plain values (`FieldValue`);
//! all interpretation of those values is verified in `decode`, whose
//! contracts are stated over these names, so they reach back to the bytes.

use vstd::prelude::*;

use crate::decode::FieldValue;

verus! {

#[verifier::external_type_specification]
#[verifier::external_body]
pub struct ExJsonValue(serde_json::Value);

/// Whether the parser accepts the bytes as one JSON document.
pub uninterp spec fn json_wf(bytes: Seq<u8>) -> bool;

/// The document the parser decodes the bytes into, when it accepts them.
pub uninterp spec fn json_doc(bytes: Seq<u8>) -> serde_json::Value;

/// Whether the value is a JSON array.
pub uninterp spec fn value_is_array(v: serde_json::Value) -> bool;

/// The elements a JSON array holds, in order.
pub uninterp spec fn value_elems(v: serde_json::Value) -> Seq<serde_json::Value>;

/// Whether the value is an object with a member named `key`.
pub uninterp spec fn value_has(v: serde_json::Value, key: Seq<char>) -> bool;

/// The member named `key` of an object value.
pub uninterp spec fn value_at(v: serde_json::Value, key: Seq<char>) -> serde_json::Value;

/// Whether the value is the JSON null.
pub uninterp spec fn value_null(v: serde_json::Value) -> bool;

/// Whether the value is a JSON object.
pub uninterp spec fn value_object(v: serde_json::Value) -> bool;

/// The scalar shape of a value: its boolean or string contents as plain
/// values, `Other` for numbers, arrays and objects.
pub uninterp spec fn value_scalar(v: serde_json::Value) -> FieldValue;

/// Relies on serde_json::from_slice: decodes UTF-8 JSON bytes into one
/// generic structured value, deterministically in the bytes alone; a
/// rejected payload comes back as the parser's own diagnostic text.
#[verifier::external_body]
pub(crate) fn parse_json(bytes: &[u8]) -> (r: Result<serde_json::Value, String>)
    ensures
        r is Ok <==> json_wf(bytes@),
        r matches Ok(v) ==> v == json_doc(bytes@),
{
    match serde_json::from_slice(bytes) {
        Ok(v) => Ok(v),
        Err(e) => Err(e.to_string()),
    }
}

/// Relies on serde_json::Value::as_array: the element vector of a JSON
/// array, and nothing for any other value.
#[verifier::external_body]
pub(crate) fn value_as_array<'a>(v: &'a serde_json::Value) -> (r: Option<
    &'a Vec<serde_json::Value>,
>)
    ensures
        r is Some <==> value_is_array(*v),
        r matches Some(a) ==> a@ == value_elems(*v),
{
    v.as_array()
}

/// Relies on serde_json::Value::get with a string index: member lookup on
/// a JSON object, nothing on absent keys and non-objects.
#[verifier::external_body]
pub(crate) fn value_member<'a>(v: &'a serde_json::Value, key: &str) -> (r: Option<
    &'a serde_json::Value,
>)
    ensures
        r is Some <==> value_has(*v, key@),
        r matches Some(x) ==> *x == value_at(*v, key@),
{
    v.get(key)
}

/// Relies on serde_json::Value::is_object.
#[verifier::external_body]
pub(crate) fn value_is_object(v: &serde_json::Value) -> (r: bool)
    ensures
        r == value_object(*v),
{
    v.is_object()
}

/// Relies on serde_json::Value::is_null.
#[verifier::external_body]
pub(crate) fn value_is_null(v: &serde_json::Value) -> (r: bool)
    ensures
        r == value_null(*v),
{
    v.is_null()
}

/// Tells a scalar JSON value's shape apart, carrying booleans and string
/// contents over as plain values; numbers, arrays and objects classify as
/// `Other`. Relies on the serde_json::Value variant structure.
#[verifier::external_body]
pub(crate) fn classify_value(v: &serde_json::Value) -> (r: FieldValue)
    ensures
        r == value_scalar(*v),
{
    match v {
        serde_json::Value::Null => FieldValue::Null,
        serde_json::Value::Bool(b) => FieldValue::Flag(*b),
        serde_json::Value::String(s) => FieldValue::Text(s.clone()),
        _ => FieldValue::Other,
    }
}

} // verus!
