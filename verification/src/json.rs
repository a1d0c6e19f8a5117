//! JSON values as plain library data, and the trusted boundary to
//! serde_json, which does the text parsing.

use vstd::prelude::*;

verus! {

/// A JSON value held as plain data. A number keeps its literal text:
/// the library carries numbers through, it never computes with them.
#[derive(Debug, PartialEq, Eq)]
pub enum JsonValue {
    Null,
    Bool(bool),
    Num(String),
    Str(String),
    Arr(Vec<JsonValue>),
    Obj(Vec<(String, JsonValue)>),
}

#[verifier::external_type_specification]
#[verifier::external_body]
pub struct ExValue(serde_json::Value);

/// The contents of a parsed serde_json tree, as library data.
pub uninterp spec fn value_rep(v: serde_json::Value) -> JsonValue;

/// What serde_json's parser returns on a given text: the parsed tree as
/// library data, or nothing where the text is not valid JSON.
pub uninterp spec fn parsed_json(s: Seq<char>) -> Option<JsonValue>;

/// Relies on serde_json::from_str for serde_json::Value: the result is a
/// function of the input text alone, and parsing fails exactly where the
/// text is not valid JSON.
#[verifier::external_body]
fn parse_value(s: &str) -> (r: Option<serde_json::Value>)
    ensures
        r matches Some(v) ==> parsed_json(s@) == Some(value_rep(v)),
        (r is Some) == (parsed_json(s@) is Some),
{
    serde_json::from_str::<serde_json::Value>(s).ok()
}

/// Relies on serde_json::Value's six variants: each arm moves the parsed
/// data over, a number as the text its Display form gives.
#[verifier::external_body]
fn value_to_json(v: serde_json::Value) -> (r: JsonValue)
    ensures
        r == value_rep(v),
{
    match v {
        serde_json::Value::Null => JsonValue::Null,
        serde_json::Value::Bool(b) => JsonValue::Bool(b),
        serde_json::Value::Number(n) => JsonValue::Num(n.to_string()),
        serde_json::Value::String(s) => JsonValue::Str(s),
        serde_json::Value::Array(a) => JsonValue::Arr(a.into_iter().map(value_to_json).collect()),
        serde_json::Value::Object(m) => JsonValue::Obj(m.into_iter().map(|p| (p.0, value_to_json(p.1))).collect()),
    }
}

/// Parses JSON text into library data; fails exactly where serde_json's
/// parser fails.
pub fn parse_json(s: &str) -> (r: Option<JsonValue>)
    ensures
        r == parsed_json(s@),
{
    match parse_value(s) {
        Some(v) => Some(value_to_json(v)),
        None => None,
    }
}

} // verus!
