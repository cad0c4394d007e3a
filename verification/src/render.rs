//! How a JSON value is written into a change record.

use crate::json::{Json, JsonNumber, JsonValue, Num};
use crate::outside::{compact_json, compact_text};
use crate::text::{decimal_text, signed_decimal, signed_decimal_text};
use vstd::prelude::*;
use vstd::string::*;

verus! {

/// The text `null`, which also stands for a side that has no value.
pub open spec fn null_text() -> Seq<char> {
    seq!['n', 'u', 'l', 'l']
}

pub open spec fn true_text() -> Seq<char> {
    seq!['t', 'r', 'u', 'e']
}

pub open spec fn false_text() -> Seq<char> {
    seq!['f', 'a', 'l', 's', 'e']
}

/// The rendered form of a value: a string is its own text, without quotes;
/// null, a boolean and a number are their JSON text; an array or an object is
/// its compact JSON text.
pub open spec fn rendered(v: Json) -> Seq<char> {
    match v {
        Json::String(s) => s,
        Json::Null => null_text(),
        Json::Number(Num::Int(i)) => signed_decimal(i),
        Json::Number(Num::Float(t)) => t,
        Json::Bool(b) => if b {
            true_text()
        } else {
            false_text()
        },
        Json::Array(_) => compact_json(v),
        Json::Object(_) => compact_json(v),
    }
}

/// The text `null`.
pub fn null_string() -> (s: String)
    ensures
        s@ == null_text(),
{
    proof {
        reveal_strlit("null");
        assert("null"@ =~= null_text());
    }
    String::from_str("null")
}

/// Renders a value for a change record.
pub fn format_value(value: &JsonValue) -> (s: String)
    ensures
        s@ == rendered(value@),
{
    match value {
        JsonValue::String(s) => s.clone(),
        JsonValue::Null => null_string(),
        JsonValue::Number(n) => match n {
            JsonNumber::PosInt(u) => decimal_text(*u),
            JsonNumber::NegInt(i) => signed_decimal_text(*i),
            JsonNumber::Float(t) => t.clone(),
        },
        JsonValue::Bool(b) => {
            proof {
                reveal_strlit("true");
                reveal_strlit("false");
                assert("true"@ =~= true_text());
                assert("false"@ =~= false_text());
            }
            if *b {
                String::from_str("true")
            } else {
                String::from_str("false")
            }
        },
        JsonValue::Array(_) => compact_text(value),
        JsonValue::Object(_) => compact_text(value),
    }
}

} // verus!
