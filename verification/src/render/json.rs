//! JSON output, for piping into other tools: an array with one object per
//! item, laid out as `serde_json`'s pretty printer lays out a list of records.
use vstd::prelude::*;

use crate::cache::hex_digit;
use crate::item::Item;
use crate::text::{join, join_all, opt_string, owned, push_str};
use crate::time::{instant_text, instant_to_text};

verus! {

/// How `serde_json` writes a character inside a string literal: a quote, a
/// backslash and the control characters escaped, the five with short
/// escapes by them and the others as `\u00` and two lower-case hex digits;
/// every other character as it is.
pub open spec fn json_char(c: char) -> Seq<char> {
    if c == '"' {
        seq!['\\', '"']
    } else if c == '\\' {
        seq!['\\', '\\']
    } else if c == '\u{8}' {
        seq!['\\', 'b']
    } else if c == '\t' {
        seq!['\\', 't']
    } else if c == '\n' {
        seq!['\\', 'n']
    } else if c == '\u{c}' {
        seq!['\\', 'f']
    } else if c == '\r' {
        seq!['\\', 'r']
    } else if (c as u32) < 0x20 {
        seq!['\\', 'u', '0', '0', hex_digit((c as u32 / 16) as nat), hex_digit((c as u32 % 16) as nat)]
    } else {
        seq![c]
    }
}

/// The characters of a string as a JSON string literal holds them.
pub open spec fn json_escaped(s: Seq<char>) -> Seq<char>
    decreases s.len(),
{
    if s.len() == 0 {
        seq![]
    } else {
        json_escaped(s.drop_last()) + json_char(s.last())
    }
}

/// What `serde_json::to_string` writes for a string: it quoted, with the
/// characters JSON requires escaped.
pub open spec fn json_quoted(s: Seq<char>) -> Seq<char> {
    seq!['"'] + json_escaped(s) + seq!['"']
}

/// A string as a JSON string literal, by `serde_json::to_string`, which
/// writes a string's characters one by one through a table of escapes and
/// cannot fail for a string.
#[verifier::external_body]
fn quoted(s: &str) -> (r: String)
    ensures
        r@ == json_quoted(s@),
{
    serde_json::to_string(s).unwrap_or_default()
}

/// An optional string as JSON: quoted, or `null`.
pub open spec fn optional_json(s: Option<Seq<char>>) -> Seq<char> {
    match s {
        Some(t) => json_quoted(t),
        None => "null"@,
    }
}

/// One member line of an item's object.
pub open spec fn member_line(name: Seq<char>, value: Seq<char>) -> Seq<char> {
    "    \""@ + name + "\": "@ + value
}

/// The members of an item's object, in the order its fields are declared;
/// the completion time is written as an RFC 3339 instant in UTC.
pub open spec fn item_members(it: Item) -> Seq<Seq<char>> {
    seq![
        member_line("completed_at"@, json_quoted(instant_text(it.completed_at.instant))),
        member_line("source"@, json_quoted(it.source@)),
        member_line("kind"@, json_quoted(it.kind@)),
        member_line("reference"@, optional_json(opt_string(it.reference))),
        member_line("title"@, json_quoted(it.title@)),
        member_line("url"@, json_quoted(it.url@)),
        member_line("context"@, optional_json(opt_string(it.context))),
    ]
}

/// An item's object.
pub open spec fn item_object(it: Item) -> Seq<char> {
    "  {\n"@ + join(item_members(it), ",\n"@) + "\n  }"@
}

/// The whole output: `[]` for no items.
pub open spec fn items_json(items: Seq<Item>) -> Seq<char> {
    if items.len() == 0 {
        "[]"@
    } else {
        "[\n"@ + join(items.map_values(|it: Item| item_object(it)), ",\n"@) + "\n]"@
    }
}

fn member(name: &str, value: &str) -> (r: String)
    ensures
        r@ == member_line(name@, value@),
{
    let mut m = owned("    \"");
    push_str(&mut m, name);
    push_str(&mut m, "\": ");
    push_str(&mut m, value);
    m
}

fn optional(s: &Option<String>) -> (r: String)
    ensures
        r@ == optional_json(opt_string(*s)),
{
    match s {
        Some(t) => quoted(t.as_str()),
        None => owned("null"),
    }
}

/// An item's object.
fn object(it: &Item) -> (r: String)
    ensures
        r@ == item_object(*it),
{
    let members = vec![
        member("completed_at", quoted(instant_to_text(it.completed_at.instant).as_str()).as_str()),
        member("source", quoted(it.source.as_str()).as_str()),
        member("kind", quoted(it.kind.as_str()).as_str()),
        member("reference", optional(&it.reference).as_str()),
        member("title", quoted(it.title.as_str()).as_str()),
        member("url", quoted(it.url.as_str()).as_str()),
        member("context", optional(&it.context).as_str()),
    ];
    assert(members@.map_values(|p: String| p@) =~= item_members(*it));
    let mut r = owned("  {\n");
    push_str(&mut r, join_all(&members, ",\n").as_str());
    push_str(&mut r, "\n  }");
    r
}

/// Renders items as a JSON array, one object per item.
pub fn render(items: &[Item]) -> (r: String)
    ensures
        r@ == items_json(items@),
{
    if items.len() == 0 {
        return owned("[]");
    }
    let mut objects: Vec<String> = Vec::new();
    let mut i: usize = 0;
    while i < items.len()
        invariant
            i <= items@.len(),
            objects@.len() == i,
            forall|k: int| 0 <= k < i ==> (#[trigger] objects@[k])@ == item_object(items@[k]),
        decreases items.len() - i,
    {
        objects.push(object(&items[i]));
        i += 1;
    }
    assert(objects@.map_values(|p: String| p@) =~= items@.map_values(|it: Item| item_object(it)));
    let mut r = owned("[\n");
    push_str(&mut r, join_all(&objects, ",\n").as_str());
    push_str(&mut r, "\n]");
    r
}

} // verus!
