use serde_json::Value;
use vstd::prelude::*;

use crate::json::{number_from_serde, number_to_serde, opt_json, opt_text, Json, JsonView};

verus! {

#[verifier::external_type_specification]
#[verifier::external_body]
pub struct ExSerdeValue(Value);

/// What `serde_json::from_str::<serde_json::Value>` yields for `text`, taken
/// member for member into a [`Json`]; `None` where it reports an error.
pub uninterp spec fn json_parse(text: Seq<char>) -> Option<JsonView>;

/// What `serde_json::to_string` writes for the `serde_json::Value` that
/// corresponds to `value`; `None` where it reports an error. It depends on
/// the model alone: the model holds every string, key, boolean and order, and
/// a number's model (its text and `u64` value) fixes the `serde_json::Number`
/// written for it (see [`crate::json::JsonNumber`]).
pub uninterp spec fn json_text(value: JsonView) -> Option<Seq<char>>;

/// Takes a `serde_json::Value` over into a [`Json`], one node for one node:
/// a number is taken over by `number_from_serde`.
#[verifier::external_body]
fn json_from_serde(v: Value) -> Json {
    match v {
        Value::Null => Json::Null,
        Value::Bool(b) => Json::Bool(b),
        Value::Number(n) => Json::Number(number_from_serde(n)),
        Value::String(s) => Json::Str(s),
        Value::Array(a) => Json::Array(a.into_iter().map(json_from_serde).collect()),
        Value::Object(m) => Json::Object(m.into_iter().map(|(k, v)| (k, json_from_serde(v))).collect()),
    }
}

/// Takes a [`Json`] over into a `serde_json::Value`, one node for one node; a
/// number is taken over by `number_to_serde`.
#[verifier::external_body]
fn json_to_serde(v: &Json) -> Value {
    match v {
        Json::Null => Value::Null,
        Json::Bool(b) => Value::Bool(*b),
        Json::Number(n) => number_to_serde(n),
        Json::Str(s) => Value::String(s.clone()),
        Json::Array(a) => Value::Array(a.iter().map(json_to_serde).collect()),
        Json::Object(m) => Value::Object(m.iter().map(|(k, v)| (k.clone(), json_to_serde(v))).collect()),
    }
}

/// Parses JSON text with `serde_json::from_str::<serde_json::Value>`.
/// The contract only names the result: `json_parse` of the text.
#[verifier::external_body]
pub(crate) fn parse_json(text: &str) -> (r: Option<Json>)
    ensures
        opt_json(r) == json_parse(text@),
{
    match serde_json::from_str::<Value>(text) {
        Ok(v) => Some(json_from_serde(v)),
        Err(_) => None,
    }
}

/// Writes `value` as compact JSON text with `serde_json::to_string`.
/// The contract only names the result: `json_text` of the value.
#[verifier::external_body]
pub(crate) fn json_to_string(value: &Json) -> (r: Option<String>)
    ensures
        opt_text(r) == json_text(value@),
{
    serde_json::to_string(&json_to_serde(value)).ok()
}


/// Reads JSON text.
pub fn read_json(text: &str) -> (r: Option<Json>)
    ensures
        opt_json(r) == json_parse(text@),
{
    parse_json(text)
}

/// Writes a JSON value as compact JSON text.
pub fn write_json(value: &Json) -> (r: Option<String>)
    ensures
        opt_text(r) == json_text(value@),
{
    json_to_string(value)
}

}
