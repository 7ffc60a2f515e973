//! A TOML document as plain values: the shape the configuration file is read
//! into before its settings are decoded.
use vstd::prelude::*;

use crate::text::same;

verus! {

#[verifier::external_type_specification]
#[verifier::external_body]
pub struct ExTomlValue(toml::Value);

/// A TOML value. Floats and date-times, which no setting takes, are `Other`.
#[derive(Debug)]
pub enum Toml {
    Text(String),
    Integer(i64),
    Boolean(bool),
    Array(Vec<Toml>),
    Table(Vec<(String, Toml)>),
    Other,
}

/// What `toml` reads a document as: its top-level table, or the message
/// that says why the text is not valid TOML.
pub uninterp spec fn toml_document(text: Seq<char>) -> Result<Toml, Seq<char>>;

/// Reads a TOML document with `toml::Table::from_str`; the result is the
/// document's top-level table, or the error's message.
#[verifier::external_body]
pub(crate) fn parse_toml(text: &str) -> (r: Result<Toml, String>)
    ensures
        match r {
            Ok(t) => toml_document(text@) == Ok::<Toml, Seq<char>>(t) && t is Table,
            Err(m) => toml_document(text@) == Err::<Toml, Seq<char>>(m@),
        },
{
    match text.parse::<toml::Table>() {
        Ok(table) => Ok(toml_tree(toml::Value::Table(table))),
        Err(e) => Err(e.to_string()),
    }
}

/// Converts a `toml::Value`, variant for variant.
#[verifier::external_body]
fn toml_tree(value: toml::Value) -> Toml {
    match value {
        toml::Value::String(s) => Toml::Text(s),
        toml::Value::Integer(i) => Toml::Integer(i),
        toml::Value::Boolean(b) => Toml::Boolean(b),
        toml::Value::Array(a) => Toml::Array(a.into_iter().map(toml_tree).collect()),
        toml::Value::Table(t) => Toml::Table(t.into_iter().map(|(k, v)| (k, toml_tree(v))).collect()),
        _ => Toml::Other,
    }
}

/// The value a table holds under `key`, the first such entry.
pub open spec fn entry(table: Seq<(String, Toml)>, key: Seq<char>) -> Option<Toml>
    decreases table.len(),
{
    if table.len() == 0 {
        None
    } else if table[0].0@ == key {
        Some(table[0].1)
    } else {
        entry(table.drop_first(), key)
    }
}

/// The value a table holds under `key`, the last such entry.
pub open spec fn last_entry(table: Seq<(String, Toml)>, key: Seq<char>) -> Option<Toml>
    decreases table.len(),
{
    if table.len() == 0 {
        None
    } else if table.last().0@ == key {
        Some(table.last().1)
    } else {
        last_entry(table.drop_last(), key)
    }
}

/// One more entry changes what the last entry under its own key is, and
/// nothing else.
pub proof fn lemma_last_entry_push(t: Seq<(String, Toml)>, e: (String, Toml))
    ensures
        forall|k: Seq<char>|
            #[trigger] last_entry(t.push(e), k) == if e.0@ == k {
                Some(e.1)
            } else {
                last_entry(t, k)
            },
{
    assert(t.push(e).drop_last() == t);
}

/// The text a value holds, when it is a string.
pub open spec fn text_value(v: Toml) -> Option<Seq<char>> {
    match v {
        Toml::Text(s) => Some(s@),
        _ => None,
    }
}

/// The texts an array holds, when every element is a string.
pub open spec fn texts_value(v: Toml) -> Option<Seq<Seq<char>>> {
    match v {
        Toml::Array(items) => if forall|i: int| 0 <= i < items@.len() ==> (#[trigger] items@[i]) is Text {
            Some(items@.map_values(|t: Toml| text_value(t).unwrap()))
        } else {
            None
        },
        _ => None,
    }
}

/// The value under `key`, read from the entries of a table.
pub fn lookup<'a>(table: &'a Vec<(String, Toml)>, key: &str) -> (r: Option<&'a Toml>)
    ensures
        match entry(table@, key@) {
            Some(v) => r == Some(&v),
            None => r is None,
        },
{
    let mut i: usize = 0;
    assert(table@.subrange(0, table@.len() as int) == table@);
    while i < table.len()
        invariant
            i <= table@.len(),
            entry(table@, key@) == entry(table@.subrange(i as int, table@.len() as int), key@),
        decreases table.len() - i,
    {
        let ghost rest = table@.subrange(i as int, table@.len() as int);
        assert(rest[0] == table@[i as int]);
        assert(rest.drop_first() == table@.subrange(i + 1, table@.len() as int));
        if same(table[i].0.as_str(), key) {
            return Some(&table[i].1);
        }
        i += 1;
    }
    None
}

/// The text a value holds, when it is a string.
pub fn text_of(v: &Toml) -> (r: Option<String>)
    ensures
        match text_value(*v) {
            Some(s) => r matches Some(t) && t@ == s,
            None => r is None,
        },
{
    match v {
        Toml::Text(s) => Some(s.clone()),
        _ => None,
    }
}

/// The texts an array holds, when every element is a string.
pub fn texts_of(v: &Toml) -> (r: Option<Vec<String>>)
    ensures
        match texts_value(*v) {
            Some(s) => r matches Some(t) && t@.map_values(|x: String| x@) == s,
            None => r is None,
        },
{
    match v {
        Toml::Array(items) => {
            let mut out: Vec<String> = Vec::new();
            let mut i: usize = 0;
            while i < items.len()
                invariant
                    *v == Toml::Array(*items),
                    i <= items@.len(),
                    out@.len() == i,
                    forall|j: int| 0 <= j < i ==> (#[trigger] items@[j]) is Text,
                    forall|j: int| 0 <= j < i ==> (#[trigger] out@[j])@ == text_value(items@[j]).unwrap(),
                decreases items.len() - i,
            {
                match &items[i] {
                    Toml::Text(s) => out.push(s.clone()),
                    _ => {
                        assert(!(items@[i as int] is Text));
                        assert(!(forall|j: int| 0 <= j < items@.len() ==> (#[trigger] items@[j]) is Text));
                        return None;
                    },
                }
                i += 1;
            }
            assert(out@.map_values(|x: String| x@) =~= items@.map_values(|t: Toml| text_value(t).unwrap()));
            Some(out)
        },
        _ => None,
    }
}

} // verus!
