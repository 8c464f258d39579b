//! Trusted boundary around `serde_json`.
//!
//! Fetched documents arrive as text and are parsed by `serde_json`; the
//! resulting `serde_json::Value` is opaque to the verifier. `json_of` names
//! what a text parses to, `json_model` names what a parsed value holds —
//! both as values of the library's own model — and the wrappers below say,
//! over those names, what each accessor returns, exactly as the crate's
//! source shows. The library reads parsed documents only through these
//! wrappers.

use vstd::prelude::*;

use crate::jsonmodel::JsonV;
use serde_json::Value;

verus! {

/// `serde_json::Value`, declared so that parsed documents can flow through
/// verified code.
#[verifier::external_type_specification]
#[verifier::external_body]
pub struct ExValue(Value);

/// `serde_json::Error`, the error type of `serde_json::from_str`.
#[verifier::external_type_specification]
#[verifier::external_body]
pub struct ExJsonError(serde_json::Error);

/// The value a text parses to: `None` when the text is not well-formed
/// JSON. Parsing is a function of the text alone.
pub uninterp spec fn json_of(s: Seq<char>) -> Option<JsonV>;

/// The library's model of what a `serde_json::Value` holds; the wrappers
/// of every accessor the library calls speak of it.
pub uninterp spec fn json_model(v: Value) -> JsonV;

/// Relies on `serde_json::from_str`: parses text as one JSON value, `Err`
/// exactly when the text is not well-formed JSON.
#[verifier::external_body]
pub(crate) fn parse_json(s: &str) -> (r: Result<Value, serde_json::Error>)
    ensures
        r is Ok <==> json_of(s@) is Some,
        r matches Ok(v) ==> json_model(v) == json_of(s@)->Some_0,
{
    serde_json::from_str(s)
}

/// Relies on `serde_json::Value::get`: the member of a JSON object under a
/// key, `None` when the value is not an object or has no such member.
#[verifier::external_body]
pub(crate) fn json_get<'a>(v: &'a Value, key: &str) -> (r: Option<&'a Value>)
    ensures
        match r {
            Some(x) => json_model(*v) matches JsonV::Obj(o) && o.contains_key(key@)
                && json_model(*x) == o[key@],
            None => !(json_model(*v) matches JsonV::Obj(o) && o.contains_key(key@)),
        },
{
    v.get(key)
}

/// Relies on `serde_json::Value::as_array`: the elements of a JSON array,
/// `None` when the value is not an array.
#[verifier::external_body]
pub(crate) fn json_as_array<'a>(v: &'a Value) -> (r: Option<&'a Vec<Value>>)
    ensures
        match r {
            Some(arr) => json_model(*v) == JsonV::Arr(
                arr@.map_values(|x: Value| json_model(x)),
            ),
            None => !(json_model(*v) is Arr),
        },
{
    v.as_array()
}

/// Relies on `serde_json::Value::as_i64`: the value of a JSON number that
/// is representable as a signed 64-bit integer, `None` otherwise.
#[verifier::external_body]
pub(crate) fn json_as_i64(v: &Value) -> (r: Option<i64>)
    ensures
        match r {
            Some(n) => json_model(*v) == JsonV::Int(n as int),
            None => !(json_model(*v) is Int),
        },
{
    v.as_i64()
}

/// Relies on `serde_json::Value::as_str`: the contents of a JSON string,
/// `None` when the value is not a string.
#[verifier::external_body]
pub(crate) fn json_as_str<'a>(v: &'a Value) -> (r: Option<&'a str>)
    ensures
        match r {
            Some(s) => json_model(*v) == JsonV::Str(s@),
            None => !(json_model(*v) is Str),
        },
{
    v.as_str()
}

} // verus!
