//! JSON values as plain data: the shape API responses are read into and
//! reports are written from.
use vstd::prelude::*;

use crate::text::same;

verus! {

#[verifier::external_type_specification]
#[verifier::external_body]
pub struct ExJsonValue(serde_json::Value);

/// A JSON value. A number is kept as the text `serde_json` prints for it.
#[derive(Debug)]
pub enum Json {
    Null,
    Bool(bool),
    Number(String),
    Text(String),
    Array(Vec<Json>),
    Object(Vec<(String, Json)>),
}

/// What `serde_json` reads a text as: a value, or the message that says why
/// the text is not JSON.
pub uninterp spec fn json_document(text: Seq<char>) -> Result<Json, Seq<char>>;

/// The text `serde_json::to_string` writes for a value.
pub uninterp spec fn json_compact(value: Json) -> Seq<char>;

/// Reads a JSON text with `serde_json::from_str`.
#[verifier::external_body]
pub(crate) fn parse_json(text: &str) -> (r: Result<Json, String>)
    ensures
        match r {
            Ok(v) => json_document(text@) == Ok::<Json, Seq<char>>(v),
            Err(m) => json_document(text@) == Err::<Json, Seq<char>>(m@),
        },
{
    match serde_json::from_str::<serde_json::Value>(text) {
        Ok(v) => Ok(json_tree(v)),
        Err(e) => Err(e.to_string()),
    }
}

/// Writes a value as compact JSON with `serde_json::to_string`.
#[verifier::external_body]
pub(crate) fn compact_text(value: &Json) -> (r: String)
    ensures
        r@ == json_compact(*value),
{
    serde_json::to_string(&json_value(value)).unwrap_or_default()
}

/// Converts a `serde_json::Value`, variant for variant.
#[verifier::external_body]
fn json_tree(value: serde_json::Value) -> Json {
    match value {
        serde_json::Value::Null => Json::Null,
        serde_json::Value::Bool(b) => Json::Bool(b),
        serde_json::Value::Number(n) => Json::Number(n.to_string()),
        serde_json::Value::String(s) => Json::Text(s),
        serde_json::Value::Array(a) => Json::Array(a.into_iter().map(json_tree).collect()),
        serde_json::Value::Object(o) => Json::Object(o.into_iter().map(|(k, v)| (k, json_tree(v))).collect()),
    }
}

/// Converts to a `serde_json::Value`, variant for variant.
#[verifier::external_body]
fn json_value(value: &Json) -> serde_json::Value {
    match value {
        Json::Null => serde_json::Value::Null,
        Json::Bool(b) => serde_json::Value::Bool(*b),
        Json::Number(n) => n.parse::<serde_json::Number>().map(serde_json::Value::Number).unwrap_or(serde_json::Value::Null),
        Json::Text(s) => serde_json::Value::String(s.clone()),
        Json::Array(a) => serde_json::Value::Array(a.iter().map(json_value).collect()),
        Json::Object(o) => serde_json::Value::Object(o.iter().map(|(k, v)| (k.clone(), json_value(v))).collect()),
    }
}

impl Json {
    /// Reads a JSON text.
    pub fn parse(text: &str) -> (r: Result<Json, String>)
        ensures
            match r {
                Ok(v) => json_document(text@) == Ok::<Json, Seq<char>>(v),
                Err(m) => json_document(text@) == Err::<Json, Seq<char>>(m@),
            },
    {
        parse_json(text)
    }

    /// The value as compact JSON text.
    pub fn to_compact(&self) -> (r: String)
        ensures
            r@ == json_compact(*self),
    {
        compact_text(self)
    }
}

/// The value an object holds under `key`, the first such member.
pub open spec fn member_of(members: Seq<(String, Json)>, key: Seq<char>) -> Option<Json>
    decreases members.len(),
{
    if members.len() == 0 {
        None
    } else if members[0].0@ == key {
        Some(members[0].1)
    } else {
        member_of(members.drop_first(), key)
    }
}

/// The value `v` holds under `key`, when it is an object with such a member.
pub open spec fn member(v: Json, key: Seq<char>) -> Option<Json> {
    match v {
        Json::Object(members) => member_of(members@, key),
        _ => None,
    }
}

/// The text `v` holds, when it is a string.
pub open spec fn text(v: Json) -> Option<Seq<char>> {
    match v {
        Json::Text(s) => Some(s@),
        _ => None,
    }
}

/// The value under `key`, or `None` when `v` is not an object or has no
/// such member.
pub fn get<'a>(v: &'a Json, key: &str) -> (r: Option<&'a Json>)
    ensures
        match member(*v, key@) {
            Some(m) => r == Some(&m),
            None => r is None,
        },
{
    match v {
        Json::Object(members) => {
            let mut i: usize = 0;
            assert(members@.subrange(0, members@.len() as int) == members@);
            while i < members.len()
                invariant
                    *v == Json::Object(*members),
                    i <= members@.len(),
                    member_of(members@, key@) == member_of(members@.subrange(i as int, members@.len() as int), key@),
                decreases members.len() - i,
            {
                let ghost rest = members@.subrange(i as int, members@.len() as int);
                assert(rest[0] == members@[i as int]);
                assert(rest.drop_first() == members@.subrange(i + 1, members@.len() as int));
                if same(members[i].0.as_str(), key) {
                    return Some(&members[i].1);
                }
                i += 1;
            }
            None
        },
        _ => None,
    }
}

/// The text `v` holds, when it is a string.
pub fn as_text(v: &Json) -> (r: Option<&str>)
    ensures
        match text(*v) {
            Some(s) => r matches Some(t) && t@ == s,
            None => r is None,
        },
{
    match v {
        Json::Text(s) => Some(s.as_str()),
        _ => None,
    }
}

} // verus!
