//! The boundary to the `toml` crate: reading and writing settings text.
//! Everything in this file is believed, not proved.

use crate::tree::{TomlTree, TomlValue};
use toml::Value;
use vstd::prelude::*;

verus! {

/// `toml::Value`: a value of the crate, carried through without a look
/// inside.
#[verifier::external_type_specification]
#[verifier::external_body]
pub struct ExTomlValue(Value);

/// `toml::de::Error`: why a text could not be read.
#[verifier::external_type_specification]
#[verifier::external_body]
pub struct ExTomlReadError(toml::de::Error);

/// `toml::ser::Error`: why a value could not be written.
#[verifier::external_type_specification]
#[verifier::external_body]
pub struct ExTomlWriteError(toml::ser::Error);

/// The tree that `toml::from_str` reads from `text` as a document, or `None`
/// where it reports an error.
pub uninterp spec fn toml_document(text: Seq<char>) -> Option<TomlTree>;

/// The text that `toml::to_string_pretty` writes for `tree`, or `None` where
/// the tree cannot be handed over or the writer reports an error.
pub uninterp spec fn toml_pretty(tree: TomlTree) -> Option<Seq<char>>;

/// Turns a `toml::Value` into the library's tree, variant by variant. A float
/// and a date-time are kept by the text that their `Display` writes, a table
/// by its entries in the order in which the crate's map hands them out.
#[verifier::external_body]
fn toml_from_outside(value: Value) -> TomlValue {
    match value {
        Value::String(s) => TomlValue::String(s),
        Value::Integer(n) => TomlValue::Integer(n),
        Value::Float(x) => TomlValue::Float(x.to_string()),
        Value::Boolean(b) => TomlValue::Boolean(b),
        Value::Datetime(d) => TomlValue::Datetime(d.to_string()),
        Value::Array(a) => TomlValue::Array(a.into_iter().map(toml_from_outside).collect()),
        Value::Table(t) => TomlValue::Table(
            t.into_iter().map(|(k, v)| (k, toml_from_outside(v))).collect(),
        ),
    }
}

/// Turns the library's tree into a `toml::Value`, variant by variant. `None`
/// where the text of a float or of a date-time cannot be read back.
#[verifier::external_body]
fn toml_to_outside(value: &TomlValue) -> Option<Value> {
    Some(match value {
        TomlValue::String(s) => Value::String(s.clone()),
        TomlValue::Integer(n) => Value::Integer(*n),
        TomlValue::Float(text) => Value::Float(text.parse().ok()?),
        TomlValue::Boolean(b) => Value::Boolean(*b),
        TomlValue::Datetime(text) => Value::Datetime(text.parse().ok()?),
        TomlValue::Array(a) => Value::Array(
            a.iter().map(toml_to_outside).collect::<Option<_>>()?,
        ),
        TomlValue::Table(t) => Value::Table(
            t.iter().map(|(k, v)| Some((k.clone(), toml_to_outside(v)?))).collect::<Option<_>>()?,
        ),
    })
}

/// `toml::from_str`: reads `text` as a TOML document. The result is a
/// function of the text alone, and every table in it comes out of the
/// crate's map, which holds each key once.
#[verifier::external_body]
pub(crate) fn read_toml(text: &str) -> (r: Result<TomlValue, toml::de::Error>)
    ensures
        match r {
            Ok(value) => toml_document(text@) == Some(value@) && value@.well_formed(),
            Err(_) => toml_document(text@) is None,
        },
{
    toml::from_str::<Value>(text).map(toml_from_outside)
}

/// `toml::to_string_pretty`: writes `value` as a TOML document. The result is
/// a function of the tree alone; the error is `None` where the tree could not
/// be handed to the crate.
#[verifier::external_body]
pub(crate) fn write_toml(value: &TomlValue) -> (r: Result<String, Option<toml::ser::Error>>)
    ensures
        match r {
            Ok(text) => toml_pretty(value@) == Some(text@),
            Err(_) => toml_pretty(value@) is None,
        },
{
    let outside = toml_to_outside(value).ok_or(None)?;
    toml::to_string_pretty(&outside).map_err(Some)
}

/// The message of a `toml::de::Error`, as its `Display` writes it.
#[verifier::external_body]
pub(crate) fn toml_read_error_text(error: &toml::de::Error) -> (r: String) {
    error.to_string()
}

/// The message of a `toml::ser::Error`, as its `Display` writes it.
#[verifier::external_body]
pub(crate) fn toml_write_error_text(error: &toml::ser::Error) -> (r: String) {
    error.to_string()
}

} // verus!
