//! Reading of JSON documents through the `serde_json` crate.
//!
//! A JSON value is seen through the string members of the object it is:
//! each key whose value is a JSON string, with that string (no member at all
//! when the value is not an object).
use vstd::prelude::*;
use crate::text::opt_view;

verus! {

/// The string members of a JSON value, by key.
pub uninterp spec fn json_string_members(value: serde_json::Value) -> Map<Seq<char>, Seq<char>>;

/// What parsing a text with `serde_json::from_str` gives: the string members
/// of the value, or `None` where the parser returns an error.
pub uninterp spec fn json_document(text: Seq<char>) -> Option<Map<Seq<char>, Seq<char>>>;

/// The string member under the key, if any.
pub open spec fn member(m: Map<Seq<char>, Seq<char>>, key: Seq<char>) -> Option<Seq<char>> {
    if m.contains_key(key) {
        Some(m[key])
    } else {
        None
    }
}

/// The `serde_json::Value` type.
#[verifier::external_type_specification]
#[verifier::external_body]
pub struct ExJsonValue(serde_json::Value);

/// The `serde_json::Error` type.
#[verifier::external_type_specification]
#[verifier::external_body]
pub struct ExJsonError(serde_json::Error);

/// Calls `serde_json::from_str::<serde_json::Value>`. Claimed: it succeeds
/// exactly where `json_document` is `Some`, and the value has those string members.
#[verifier::external_body]
pub(crate) fn parse_json(text: &str) -> (r: Result<serde_json::Value, serde_json::Error>)
    ensures
        r is Ok <==> json_document(text@) is Some,
        r matches Ok(v) ==> json_document(text@) == Some(json_string_members(v)),
{
    serde_json::from_str(text)
}

/// Calls `serde_json::Value::get` and keeps the member when it is a string.
/// Claimed: the result is the string member under the key.
#[verifier::external_body]
pub(crate) fn json_get_str(value: &serde_json::Value, key: &str) -> (r: Option<String>)
    ensures
        opt_view(r) == member(json_string_members(*value), key@),
{
    match value.get(key) {
        Some(serde_json::Value::String(s)) => Some(s.clone()),
        _ => None,
    }
}

} // verus!
