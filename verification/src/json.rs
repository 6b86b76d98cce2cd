//! JSON documents, read with `serde_json` and held as plain values.
use vstd::prelude::*;

verus! {

#[verifier::external_type_specification]
#[verifier::external_body]
pub struct ExSerdeJsonValue(serde_json::Value);

/// A JSON value.  Numbers carry no payload: nothing in this crate reads one.
#[derive(Debug)]
pub enum JsonValue {
    Null,
    Bool(bool),
    Number,
    Str(String),
    Array(Vec<JsonValue>),
    /// Members in the order that `serde_json`'s map walks them, keys unique.
    Object(Vec<(String, JsonValue)>),
}

/// What `serde_json::from_str::<serde_json::Value>` gives for a text: the
/// value, or the message of the error.
pub uninterp spec fn json_document(text: Seq<char>) -> Result<JsonValue, Seq<char>>;

/// A parse result with the error message taken by its view.
pub open spec fn result_view<T>(r: Result<T, String>) -> Result<T, Seq<char>> {
    match r {
        Ok(v) => Ok(v),
        Err(m) => Err(m@),
    }
}

/// Calls `serde_json::from_str` for a `serde_json::Value`, and hands back the
/// value as a [`JsonValue`] or the error's message.  The contract names the
/// result and claims nothing else of the JSON grammar.
#[verifier::external_body]
pub(crate) fn parse_json(text: &str) -> (r: Result<JsonValue, String>)
    ensures
        result_view(r) == json_document(text@),
{
    match serde_json::from_str::<serde_json::Value>(text) {
        Ok(v) => Ok(plain_json(v)),
        Err(e) => Err(e.to_string()),
    }
}

/// Moves a `serde_json::Value` into a [`JsonValue`], variant by variant.
#[verifier::external_body]
fn plain_json(v: serde_json::Value) -> JsonValue {
    match v {
        serde_json::Value::Null => JsonValue::Null,
        serde_json::Value::Bool(b) => JsonValue::Bool(b),
        serde_json::Value::Number(_) => JsonValue::Number,
        serde_json::Value::String(s) => JsonValue::Str(s),
        serde_json::Value::Array(a) => JsonValue::Array(a.into_iter().map(plain_json).collect()),
        serde_json::Value::Object(m) => JsonValue::Object(
            m.into_iter().map(|(k, x)| (k, plain_json(x))).collect(),
        ),
    }
}

/// The value of the first member of `entries` named `key`.
pub open spec fn member(entries: Seq<(String, JsonValue)>, key: Seq<char>) -> Option<JsonValue>
    decreases entries.len(),
{
    if entries.len() == 0 {
        None
    } else if entries[0].0@ == key {
        Some(entries[0].1)
    } else {
        member(entries.drop_first(), key)
    }
}

/// `serde_json::Value::get` with a string key.
pub open spec fn json_get(v: JsonValue, key: Seq<char>) -> Option<JsonValue> {
    match v {
        JsonValue::Object(entries) => member(entries@, key),
        _ => None,
    }
}

/// `Value::as_str` on an optional value.
pub open spec fn json_str(v: Option<JsonValue>) -> Option<Seq<char>> {
    match v {
        Some(JsonValue::Str(s)) => Some(s@),
        _ => None,
    }
}

/// The member `key` of `v`, when `v` is an object that has one.
pub fn get<'a>(v: &'a JsonValue, key: &str) -> (r: Option<&'a JsonValue>)
    ensures
        r matches Some(x) ==> json_get(*v, key@) == Some(*x),
        r is None ==> json_get(*v, key@) is None,
{
    match v {
        JsonValue::Object(entries) => {
            let k = crate::text::owned(key);
            let mut i: usize = 0;
            assert(entries@.skip(0) =~= entries@);
            while i < entries.len()
                invariant
                    0 <= i <= entries.len(),
                    k@ == key@,
                    json_get(*v, key@) == member(entries@, key@),
                    member(entries@, key@) == member(entries@.skip(i as int), key@),
                decreases entries.len() - i,
            {
                assert(entries@.skip(i as int).drop_first() =~= entries@.skip(i + 1));
                if entries[i].0 == k {
                    assert(entries@.skip(i as int)[0] == entries@[i as int]);
                    return Some(&entries[i].1);
                }
                i = i + 1;
            }
            assert(entries@.skip(i as int).len() == 0);
            None
        },
        _ => None,
    }
}

/// The text of `v`, when it is a JSON string.
pub fn as_str(v: Option<&JsonValue>) -> (r: Option<&String>)
    ensures
        r matches Some(s) ==> json_str(match v { Some(x) => Some(*x), None => None }) == Some(s@),
        r is None ==> json_str(match v { Some(x) => Some(*x), None => None }) is None,
{
    match v {
        Some(JsonValue::Str(s)) => Some(s),
        _ => None,
    }
}

} // verus!
