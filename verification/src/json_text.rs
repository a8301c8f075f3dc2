//! The boundary to the `serde_json` crate: reading and writing dynamic
//! values as text. Everything in this file is believed, not proved.

use crate::json::{JsonNumber, JsonTree, JsonValue};
use serde_json::{Number, Value};
use vstd::prelude::*;

verus! {

/// `serde_json::Value`: a value of the crate, carried through without a
/// look inside.
#[verifier::external_type_specification]
#[verifier::external_body]
pub struct ExJsonValue(Value);

/// `serde_json::Number`: a number of the crate, carried through without a
/// look inside.
#[verifier::external_type_specification]
#[verifier::external_body]
pub struct ExJsonNumber(Number);

/// `serde_json::Error`: why a text could not be read or a value not
/// written.
#[verifier::external_type_specification]
#[verifier::external_body]
pub struct ExJsonError(serde_json::Error);

/// The value that `serde_json::from_str` reads from `text`, or `None` where
/// it reports an error.
pub uninterp spec fn json_document(text: Seq<char>) -> Option<JsonTree>;

/// The text that `serde_json::to_string_pretty` writes for `tree`, or `None`
/// where the tree cannot be handed over or the writer reports an error.
pub uninterp spec fn json_pretty(tree: JsonTree) -> Option<Seq<char>>;

/// Turns a `serde_json::Number` into the library's number: an unsigned
/// integer, else a signed one, else a float kept by the text that its
/// `Display` writes.
#[verifier::external_body]
fn number_from_outside(n: &Number) -> JsonNumber {
    match (n.as_u64(), n.as_i64(), n.as_f64()) {
        (Some(u), _, _) => JsonNumber::PosInt(u),
        (_, Some(i), _) => JsonNumber::NegInt(i),
        (_, _, x) => JsonNumber::Float(x.unwrap_or_default().to_string()),
    }
}

/// Turns a `serde_json::Value` into the library's value, variant by variant.
#[verifier::external_body]
fn json_from_outside(value: Value) -> JsonValue {
    match value {
        Value::Null => JsonValue::Null,
        Value::Bool(b) => JsonValue::Bool(b),
        Value::Number(n) => JsonValue::Number(number_from_outside(&n)),
        Value::String(s) => JsonValue::String(s),
        Value::Array(a) => JsonValue::Array(a.into_iter().map(json_from_outside).collect()),
        Value::Object(m) => JsonValue::Object(
            m.into_iter().map(|(k, v)| (k, json_from_outside(v))).collect(),
        ),
    }
}

/// Turns the library's number into a `serde_json::Number`. `None` where the
/// text of a float cannot be read back or is not finite.
#[verifier::external_body]
fn number_to_outside(n: &JsonNumber) -> Option<Number> {
    match n {
        JsonNumber::PosInt(u) => Some(Number::from(*u)),
        JsonNumber::NegInt(i) => Some(Number::from(*i)),
        JsonNumber::Float(text) => Number::from_f64(text.parse().ok()?),
    }
}

/// Turns the library's value into a `serde_json::Value`, variant by variant.
/// `None` where a number cannot be handed over.
#[verifier::external_body]
fn json_to_outside(value: &JsonValue) -> Option<Value> {
    Some(match value {
        JsonValue::Null => Value::Null,
        JsonValue::Bool(b) => Value::Bool(*b),
        JsonValue::Number(n) => Value::Number(number_to_outside(n)?),
        JsonValue::String(s) => Value::String(s.clone()),
        JsonValue::Array(a) => Value::Array(
            a.iter().map(json_to_outside).collect::<Option<_>>()?,
        ),
        JsonValue::Object(m) => Value::Object(
            m.iter().map(|(k, v)| Some((k.clone(), json_to_outside(v)?))).collect::<Option<_>>()?,
        ),
    })
}

/// `serde_json::from_str`: reads `text` as one JSON value. The result is a
/// function of the text alone, and every object in it comes out of the
/// crate's map, which holds each key once.
#[verifier::external_body]
pub(crate) fn read_json(text: &str) -> (r: Result<JsonValue, serde_json::Error>)
    ensures
        match r {
            Ok(value) => json_document(text@) == Some(value@) && value@.well_formed(),
            Err(_) => json_document(text@) is None,
        },
{
    serde_json::from_str::<Value>(text).map(json_from_outside)
}

/// `serde_json::to_string_pretty`: writes `value` as indented JSON. The
/// result is a function of the tree alone; the error is `None` where the tree
/// could not be handed to the crate.
#[verifier::external_body]
pub(crate) fn write_json(value: &JsonValue) -> (r: Result<String, Option<serde_json::Error>>)
    ensures
        match r {
            Ok(text) => json_pretty(value@) == Some(text@),
            Err(_) => json_pretty(value@) is None,
        },
{
    let outside = json_to_outside(value).ok_or(None)?;
    serde_json::to_string_pretty(&outside).map_err(Some)
}

/// The text of the float that `serde_json::Number::as_f64` gives for the
/// unsigned integer `n`, or `None` where it gives none.
pub uninterp spec fn float_text_of(n: u64) -> Option<Seq<char>>;

/// `serde_json::Number::as_f64` on an unsigned integer: the nearest float,
/// kept by the text that its `Display` writes.
#[verifier::external_body]
pub(crate) fn unsigned_as_float(n: u64) -> (r: Option<String>)
    ensures
        match r {
            Some(text) => float_text_of(n) == Some(text@),
            None => float_text_of(n) is None,
        },
{
    Number::from(n).as_f64().map(|x| x.to_string())
}

/// The message of a `serde_json::Error`, as its `Display` writes it.
#[verifier::external_body]
pub(crate) fn json_error_text(error: &serde_json::Error) -> (r: String) {
    error.to_string()
}

} // verus!
