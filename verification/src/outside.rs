//! The calls into other crates: the JSON parser and printer of `serde_json`,
//! and the URL type of `reqwest`.
//!
//! Nothing in this file is proved: the contracts below are stated of those
//! crates and believed.

use crate::json::{Json, JsonNumber, JsonValue};
use serde_json::{Number, Value};
use vstd::prelude::*;

verus! {

#[verifier::external_type_specification]
#[verifier::external_body]
pub struct ExOutsideValue(serde_json::Value);

#[verifier::external_type_specification]
#[verifier::external_body]
pub struct ExOutsideError(serde_json::Error);

/// The compact JSON text that `serde_json` prints for a value.
pub uninterp spec fn compact_json(v: Json) -> Seq<char>;

/// What `serde_json` reads from a text: the value, or nothing where the text
/// is not JSON.
pub uninterp spec fn parsed_json(text: Seq<char>) -> Option<Json>;

/// The text of the URL that `reqwest::Url` makes of a base URL and query
/// pairs, or nothing where it does not accept the base.
pub uninterp spec fn url_text(base: Seq<char>, pairs: Seq<(Seq<char>, Seq<char>)>) -> Option<
    Seq<char>,
>;

/// The models of a list of pairs of strings, in order.
pub open spec fn pairs_view(pairs: Seq<(String, String)>) -> Seq<(Seq<char>, Seq<char>)> {
    Seq::new(pairs.len(), |i: int| (pairs[i].0@, pairs[i].1@))
}

/// The message that a parse error of `serde_json` prints.
pub uninterp spec fn json_error_text(e: serde_json::Error) -> Seq<char>;

/// Builds the `serde_json::Value` that stands for `v`: `Value::from` for an
/// integer, and for a double what `serde_json::Number` reads from its text
/// (null where that text is no number). Of two fields of one key the later one
/// stays.
#[verifier::external_body]
fn to_outside(v: &JsonValue) -> Value {
    match v {
        JsonValue::Null => Value::Null,
        JsonValue::Bool(b) => Value::Bool(*b),
        JsonValue::Number(JsonNumber::PosInt(u)) => Value::from(*u),
        JsonValue::Number(JsonNumber::NegInt(i)) => Value::from(*i),
        JsonValue::Number(JsonNumber::Float(t)) => t.parse::<Number>().map_or(Value::Null, Value::Number),
        JsonValue::String(s) => Value::String(s.clone()),
        JsonValue::Array(items) => Value::Array(items.iter().map(to_outside).collect()),
        JsonValue::Object(fields) => Value::Object(fields.iter().map(|f| (f.0.clone(), to_outside(&f.1))).collect()),
    }
}

/// Reads a `serde_json::Value` into a [`JsonValue`]: an integer by `as_u64`
/// or `as_i64`, a double as the text that `to_string` prints for it, and the
/// fields of an object in the order in which its map hands them out.
#[verifier::external_body]
fn from_outside(v: &Value) -> JsonValue {
    match v {
        Value::Null => JsonValue::Null,
        Value::Bool(b) => JsonValue::Bool(*b),
        Value::Number(n) => JsonValue::Number(match (n.as_u64(), n.as_i64()) {
            (Some(u), _) => JsonNumber::PosInt(u),
            (None, Some(i)) => JsonNumber::NegInt(i),
            (None, None) => JsonNumber::Float(n.to_string()),
        }),
        Value::String(s) => JsonValue::String(s.clone()),
        Value::Array(items) => JsonValue::Array(items.iter().map(from_outside).collect()),
        Value::Object(map) => JsonValue::Object(map.iter().map(|(k, x)| (k.clone(), from_outside(x))).collect()),
    }
}

/// `serde_json::Value::to_string`: the compact JSON text of the value. The
/// text depends on the model of `v` alone.
#[verifier::external_body]
pub(crate) fn compact_text(v: &JsonValue) -> (s: String)
    ensures
        s@ == compact_json(v@),
{
    to_outside(v).to_string()
}

/// `serde_json::from_str`: reads one JSON value from `text`. Whether the text
/// is accepted, and the value read, depend on the text alone. A value that
/// was read has no object with a key twice.
#[verifier::external_body]
pub(crate) fn parse_text(text: &str) -> (r: Result<JsonValue, serde_json::Error>)
    ensures
        match r {
            Ok(v) => parsed_json(text@) == Some(v@) && v@.wf(),
            Err(_) => parsed_json(text@) is None,
        },
{
    serde_json::from_str::<Value>(text).map(|v| from_outside(&v))
}

/// `serde_json::Error::to_string`: the message of a parse error.
#[verifier::external_body]
pub(crate) fn error_text(e: &serde_json::Error) -> (s: String)
    ensures
        s@ == json_error_text(*e),
{
    e.to_string()
}

/// `reqwest::Url::parse`, then `query_pairs_mut().extend_pairs`, then
/// `to_string`: the URL `base` with `pairs` appended to its query, each
/// percent-encoded as a form field. The text depends on the arguments alone.
/// A base with a fragment is left out: the crate then restores the fragment
/// behind the query, and gives up where the URL has outgrown its counters.
#[verifier::external_body]
pub(crate) fn url_with_query(base: &str, pairs: &Vec<(String, String)>) -> (r: Option<String>)
    requires
        !base@.contains('#'),
    ensures
        match r {
            Some(s) => url_text(base@, pairs_view(pairs@)) == Some(s@),
            None => url_text(base@, pairs_view(pairs@)) is None,
        },
{
    let mut url = reqwest::Url::parse(base).ok()?;
    url.query_pairs_mut().extend_pairs(pairs);
    Some(url.to_string())
}

} // verus!
