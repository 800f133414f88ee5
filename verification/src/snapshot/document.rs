//! The text of a snapshot's register files: TOML documents, parsed and
//! rendered by the `toml` crate.
use vstd::prelude::*;
use crate::snapshot::TomlValue;

verus! {

#[verifier::external_type_specification]
#[verifier::external_body]
pub struct ExTomlValue(toml::Value);

/// What `toml::from_str::<toml::Value>` gives for a text, as the library's
/// value, or the message of its error.
pub uninterp spec fn toml_document(text: Seq<char>) -> Result<TomlValue, Seq<char>>;

/// What `toml::to_string_pretty` gives for the toml crate's value of `v`
/// (its text, or its error's message); `None` for a value that holds
/// `Other` somewhere, which has no toml value.
pub uninterp spec fn toml_text(v: TomlValue) -> Option<Result<Seq<char>, Seq<char>>>;

/// The library's value for a value of the toml crate, variant by variant;
/// floats and datetimes become `Other`. Part of `parse_toml`'s conversion.
#[verifier::external_body]
fn value_of_toml(v: &toml::Value) -> TomlValue {
    match v {
        toml::Value::String(s) => TomlValue::String(s.clone()),
        toml::Value::Integer(i) => TomlValue::Integer(*i),
        toml::Value::Boolean(b) => TomlValue::Boolean(*b),
        toml::Value::Array(a) => TomlValue::Array(a.iter().map(value_of_toml).collect()),
        toml::Value::Table(t) => TomlValue::Table(
            t.iter().map(|(k, x)| (k.clone(), value_of_toml(x))).collect(),
        ),
        toml::Value::Float(_) | toml::Value::Datetime(_) => TomlValue::Other,
    }
}

/// The toml crate's value for `v`, variant by variant; `None` where `v`
/// holds `Other`. Part of `render_toml`'s conversion.
#[verifier::external_body]
fn toml_of_value(v: &TomlValue) -> Option<toml::Value> {
    Some(match v {
        TomlValue::String(s) => toml::Value::String(s.clone()),
        TomlValue::Integer(i) => toml::Value::Integer(*i),
        TomlValue::Boolean(b) => toml::Value::Boolean(*b),
        TomlValue::Array(a) => toml::Value::Array(a.iter().map(toml_of_value).collect::<Option<_>>()?),
        TomlValue::Table(t) => toml::Value::Table(
            t.iter().map(|(k, x)| Some((k.clone(), toml_of_value(x)?))).collect::<Option<_>>()?,
        ),
        TomlValue::Other => return None,
    })
}

/// `toml::from_str::<toml::Value>` on `text`: the parsed document as the
/// library's value, or the error's message. The crate parses a given text
/// the same way every time (its tables are ordered maps); which documents it
/// accepts, and what it gives for them, is left to the crate.
#[verifier::external_body]
fn parse_toml(text: &str) -> (r: Result<TomlValue, String>)
    ensures
        match r {
            Ok(d) => toml_document(text@) == Ok::<TomlValue, Seq<char>>(d),
            Err(e) => toml_document(text@) == Err::<TomlValue, Seq<char>>(e@),
        },
{
    match toml::from_str::<toml::Value>(text) {
        Ok(v) => Ok(value_of_toml(&v)),
        Err(e) => Err(e.to_string()),
    }
}

/// `toml::to_string_pretty` on the toml crate's value for `v`: the text, or
/// the error's message; `None` where `v` has no toml value. What text the
/// crate writes is left to it.
#[verifier::external_body]
fn render_toml(v: &TomlValue) -> (r: Option<Result<String, String>>)
    ensures
        match r {
            Some(Ok(t)) => toml_text(*v) == Some(Ok::<Seq<char>, Seq<char>>(t@)),
            Some(Err(e)) => toml_text(*v) == Some(Err::<Seq<char>, Seq<char>>(e@)),
            None => toml_text(*v) is None,
        },
{
    toml_of_value(v).map(|x| toml::to_string_pretty(&x).map_err(|e| e.to_string()))
}

/// The message given for a value that holds a float or a datetime, which the
/// library keeps no contents of.
pub open spec fn no_contents_message() -> Seq<char> {
    "value without TOML contents"@
}

/// Parses the text of a snapshot file: the document, or the parser's message.
pub fn parse_document(text: &str) -> (r: Result<TomlValue, String>)
    ensures
        match toml_document(text@) {
            Ok(d) => r is Ok && r->Ok_0 == d,
            Err(e) => r is Err && r->Err_0@ == e,
        },
{
    parse_toml(text)
}

/// The text of a snapshot file for `v`: what the toml crate writes for it,
/// its error, or an error for a value that has no TOML counterpart.
pub fn render_document(v: &TomlValue) -> (r: Result<String, String>)
    ensures
        match toml_text(*v) {
            Some(Ok(t)) => r is Ok && r->Ok_0@ == t,
            Some(Err(e)) => r is Err && r->Err_0@ == e,
            None => r is Err && r->Err_0@ == no_contents_message(),
        },
{
    match render_toml(v) {
        Some(r) => r,
        None => {
            proof {
                reveal_strlit("value without TOML contents");
            }
            Err(String::from_str("value without TOML contents"))
        },
    }
}

} // verus!
