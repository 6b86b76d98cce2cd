//! TOML documents, read with the `toml` crate and held as plain values.
use vstd::prelude::*;

use crate::json::result_view;

verus! {

#[verifier::external_type_specification]
#[verifier::external_body]
pub struct ExTomlValue(toml::Value);

/// A TOML value.  Integers, floats, booleans and datetimes are all `Other`:
/// nothing in this crate reads them.
#[derive(Debug)]
pub enum TomlValue {
    Str(String),
    Array(Vec<TomlValue>),
    /// Keys in the order that the `toml` crate's map walks them (sorted), unique.
    Table(Vec<(String, TomlValue)>),
    Other,
}

/// What `str::parse::<toml::Value>` gives for a text: the document's root
/// table, or the message of the error.
pub uninterp spec fn toml_document(text: Seq<char>) -> Result<TomlValue, Seq<char>>;

/// Calls `str::parse::<toml::Value>` (the `toml` crate's `FromStr`), and hands
/// back the value as a [`TomlValue`] or the error's message.  The contract
/// names the result and claims nothing else of the TOML grammar.
#[verifier::external_body]
pub(crate) fn parse_toml(text: &str) -> (r: Result<TomlValue, String>)
    ensures
        result_view(r) == toml_document(text@),
{
    match text.parse::<toml::Value>() {
        Ok(v) => Ok(plain_toml(v)),
        Err(e) => Err(e.to_string()),
    }
}

/// Moves a `toml::Value` into a [`TomlValue`], variant by variant.
#[verifier::external_body]
fn plain_toml(v: toml::Value) -> TomlValue {
    match v {
        toml::Value::String(s) => TomlValue::Str(s),
        toml::Value::Integer(_) => TomlValue::Other,
        toml::Value::Float(_) => TomlValue::Other,
        toml::Value::Boolean(_) => TomlValue::Other,
        toml::Value::Datetime(_) => TomlValue::Other,
        toml::Value::Array(a) => TomlValue::Array(a.into_iter().map(plain_toml).collect()),
        toml::Value::Table(t) => TomlValue::Table(
            t.into_iter().map(|(k, x)| (k, plain_toml(x))).collect(),
        ),
    }
}

/// The value of the first entry of `entries` named `key`.
pub open spec fn entry(entries: Seq<(String, TomlValue)>, key: Seq<char>) -> Option<TomlValue>
    decreases entries.len(),
{
    if entries.len() == 0 {
        None
    } else if entries[0].0@ == key {
        Some(entries[0].1)
    } else {
        entry(entries.drop_first(), key)
    }
}

/// `toml::Value::get` with a string key.
pub open spec fn toml_get(v: TomlValue, key: Seq<char>) -> Option<TomlValue> {
    match v {
        TomlValue::Table(entries) => entry(entries@, key),
        _ => None,
    }
}

/// `Value::as_str` on an optional value.
pub open spec fn toml_str(v: Option<TomlValue>) -> Option<Seq<char>> {
    match v {
        Some(TomlValue::Str(s)) => Some(s@),
        _ => None,
    }
}

/// The entry `key` of `v`, when `v` is a table that has one.
pub fn get<'a>(v: &'a TomlValue, key: &str) -> (r: Option<&'a TomlValue>)
    ensures
        r matches Some(x) ==> toml_get(*v, key@) == Some(*x),
        r is None ==> toml_get(*v, key@) is None,
{
    match v {
        TomlValue::Table(entries) => {
            let k = crate::text::owned(key);
            let mut i: usize = 0;
            assert(entries@.skip(0) =~= entries@);
            while i < entries.len()
                invariant
                    0 <= i <= entries.len(),
                    k@ == key@,
                    toml_get(*v, key@) == entry(entries@, key@),
                    entry(entries@, key@) == entry(entries@.skip(i as int), key@),
                decreases entries.len() - i,
            {
                assert(entries@.skip(i as int).drop_first() =~= entries@.skip(i + 1));
                if entries[i].0 == k {
                    assert(entries@.skip(i as int)[0] == entries@[i as int]);
                    return Some(&entries[i].1);
                }
                i = i + 1;
            }
            assert(entries@.skip(i as int).len() == 0);
            None
        },
        _ => None,
    }
}

} // verus!
