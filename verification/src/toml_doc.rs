//! A TOML document as plain values: what the configuration decoder reads.
//! Parsing itself is the `toml` crate's work.

use vstd::prelude::*;

verus! {

#[verifier::external_type_specification]
#[verifier::external_body]
pub struct ExTomlValue(toml::Value);

/// One TOML value. Floats and date-times are not read by any
/// configuration key, so they are kept only by their TOML type name.
pub enum TomlValue {
    Str(String),
    Int(i64),
    Bool(bool),
    Array(Vec<TomlValue>),
    Table(Vec<(String, TomlValue)>),
    Other(String),
}

/// What the `toml` crate makes of `text` as a document: its top-level
/// table, entry by entry in the crate's own order, or its error message.
pub uninterp spec fn toml_document(text: Seq<char>) -> Result<Vec<(String, TomlValue)>, String>;

/// `toml::from_str::<toml::Table>`: parses a document. The contract claims
/// only that the result is a function of the text.
#[verifier::external_body]
pub fn parse_toml(text: &str) -> (r: Result<Vec<(String, TomlValue)>, String>)
    ensures
        r == toml_document(text@),
{
    match toml::from_str::<toml::Table>(text) {
        Ok(table) => Ok(table.into_iter().map(|(k, v)| (k, TomlValue::from_toml(v))).collect()),
        Err(e) => Err(e.to_string()),
    }
}

impl TomlValue {
    /// One-for-one conversion of a `toml::Value`, variant by variant;
    /// used by `parse_toml` only.
    #[verifier::external_body]
    fn from_toml(v: toml::Value) -> TomlValue {
        match v {
            toml::Value::String(s) => TomlValue::Str(s),
            toml::Value::Integer(i) => TomlValue::Int(i),
            toml::Value::Boolean(b) => TomlValue::Bool(b),
            toml::Value::Array(a) => TomlValue::Array(a.into_iter().map(TomlValue::from_toml).collect()),
            toml::Value::Table(t) => TomlValue::Table(
                t.into_iter().map(|(k, x)| (k, TomlValue::from_toml(x))).collect(),
            ),
            other => TomlValue::Other(other.type_str().to_string()),
        }
    }
}

} // verus!
