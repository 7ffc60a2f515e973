//! Output rendering.
//!
//! Rows are derived once, then handed to a renderer. Every renderer is a
//! function from rows to a `String`, so output is snapshot-testable without a
//! terminal.
pub mod json;
pub mod markdown;
pub mod terminal;
pub mod shown;

use vstd::prelude::*;

use crate::cache::{utf8, utf8_char};
use crate::config::Format;
use crate::item::{Item, SourceId};
use crate::period::TimeRange;
use crate::text::{
    chars_of, decimal, decimal_of, join, join_all, opt_string, opt_view, owned, parse_u64, parse_u64_of, push_char,
    push_str, same, string_of, upper_char,
};
use crate::period::moment_text;
use crate::time::{formatted, Moment};

verus! {

/// One rendered line of the report, with styling and layout still undecided.
#[derive(Debug, Clone, PartialEq)]
pub struct Row {
    pub date: String,
    /// Human day heading, such as `Monday 14 September`.
    pub day: String,
    pub source: String,
    pub kind: String,
    pub reference: String,
    pub title: String,
    pub context: Option<String>,
    /// What the context is called in the item's source, such as `repository`.
    pub context_noun: &'static str,
    pub url: String,
}

/// What `char::to_uppercase` gives for a character.
pub uninterp spec fn uppercase(c: char) -> Seq<char>;

/// A character in upper case, by `char::to_uppercase`, which maps an ASCII
/// lower-case letter to its capital and leaves any other ASCII character as
/// it is.
#[verifier::external_body]
fn uppercase_of(c: char) -> (r: String)
    ensures
        r@ == uppercase(c),
        'a' <= c <= 'z' ==> r@ == seq![upper_char(c)],
        (c as u32) < 0x80 && !('a' <= c <= 'z') ==> r@ == seq![c],
{
    c.to_uppercase().collect::<String>()
}

/// The text with its first character in upper case.
pub open spec fn capitalized(text: Seq<char>) -> Seq<char> {
    if text.len() == 0 {
        seq![]
    } else {
        uppercase(text[0]) + text.drop_first()
    }
}

/// The text with its first character in upper case.
pub fn capitalize(text: &str) -> (r: String)
    ensures
        r@ == capitalized(text@),
        text@.len() > 0 && (text@[0] as u32) < 0x80 ==> r@ == seq![upper_char(text@[0])] + text@.drop_first(),
{
    let v = chars_of(text);
    if v.len() == 0 {
        return String::new();
    }
    let mut r = uppercase_of(v[0]);
    let rest = string_of(v.as_slice(), 1, v.len());
    assert(rest@ == text@.drop_first());
    push_str(&mut r, rest.as_str());
    r
}

/// A source identifier the way its own project spells it.
pub open spec fn source_text(id: Seq<char>) -> Seq<char> {
    if id == "github"@ {
        "GitHub"@
    } else if id == "todoist"@ {
        "Todoist"@
    } else if id == "jira"@ {
        "Jira"@
    } else {
        capitalized(id)
    }
}

/// Renders a source identifier the way its own project spells it.
pub fn source_label(id: &str) -> (r: String)
    ensures
        r@ == source_text(id@),
        id@ != "github"@ && id@ != "todoist"@ && id@ != "jira"@ && id@.len() > 0 && (id@[0] as u32) < 0x80 ==> r@
            == seq![upper_char(id@[0])] + id@.drop_first(),
{
    if same(id, "github") {
        owned("GitHub")
    } else if same(id, "todoist") {
        owned("Todoist")
    } else if same(id, "jira") {
        owned("Jira")
    } else {
        capitalize(id)
    }
}

/// The place an item lives, in its source's own vocabulary.
pub open spec fn noun_of(source: Seq<char>) -> Seq<char> {
    if source == "jira"@ {
        "project"@
    } else {
        "repository"@
    }
}

/// Names the place an item lives, in its source's own vocabulary.
pub fn context_noun(source: &str) -> (r: &'static str)
    ensures
        r@ == noun_of(source@),
{
    if same(source, "jira") {
        "project"
    } else {
        "repository"
    }
}

/// An item kind as a noun.
pub open spec fn kind_text(kind: Seq<char>) -> Seq<char> {
    if kind == "pr"@ {
        "PR"@
    } else {
        capitalized(kind)
    }
}

/// Renders an item kind as a noun, so a column of them reads as prose.
pub fn kind_label(kind: &str) -> (r: String)
    ensures
        r@ == kind_text(kind@),
        kind@ != "pr"@ && kind@.len() > 0 && (kind@[0] as u32) < 0x80 ==> r@ == seq![upper_char(kind@[0])]
            + kind@.drop_first(),
{
    if same(kind, "pr") {
        owned("PR")
    } else {
        capitalize(kind)
    }
}

/// The day heading of a moment, such as `Monday 14 September`.
pub open spec fn day_text(at: Moment) -> Seq<char> {
    formatted("%A"@, at.date, at.clock, at.offset) + " "@ + decimal(at.date.day as nat) + " "@
        + formatted("%B"@, at.date, at.clock, at.offset)
}

/// A date as a heading reads it, such as `Mon 14 Sep`.
pub open spec fn short_text(at: Moment) -> Seq<char> {
    formatted("%a"@, at.date, at.clock, at.offset) + " "@ + decimal(at.date.day as nat) + " "@
        + formatted("%b"@, at.date, at.clock, at.offset)
}

/// Renders the day heading a row is grouped under.
pub fn day_label(at: &Moment) -> (r: String)
    requires
        at.date.wf(),
    ensures
        r@ == day_text(*at),
{
    let mut r = at.format("%A");
    push_str(&mut r, " ");
    push_str(&mut r, decimal_of(at.date.day as u64).as_str());
    push_str(&mut r, " ");
    push_str(&mut r, at.format("%B").as_str());
    r
}

/// Renders a date the way a heading reads it, such as `Mon 14 Sep`.
pub fn short_date(at: &Moment) -> (r: String)
    requires
        at.date.wf(),
    ensures
        r@ == short_text(*at),
{
    let mut r = at.format("%a");
    push_str(&mut r, " ");
    push_str(&mut r, decimal_of(at.date.day as u64).as_str());
    push_str(&mut r, " ");
    push_str(&mut r, at.format("%b").as_str());
    r
}

/// Whether a character is an ASCII vowel, in either case.
pub open spec fn vowel(c: char) -> bool {
    let l = crate::text::lower_char(c);
    l == 'a' || l == 'e' || l == 'i' || l == 'o' || l == 'u'
}

/// The character the `-ies` rule looks at: the one whose position is the
/// noun's length in UTF-8 bytes less two (none less than zero), which for an
/// ASCII noun is the character before its last.
pub open spec fn letter_before_last(s: Seq<char>) -> Option<char> {
    let k = if utf8(s).len() >= 2 { utf8(s).len() - 2 } else { 0 };
    if k < s.len() {
        Some(s[k as int])
    } else {
        None
    }
}

/// The plural of a noun: `-ies` for a final `y` whose letter before is no
/// vowel, `-es` after `s` or `x`, else `-s`.
pub open spec fn plural_noun(s: Seq<char>) -> Seq<char> {
    if s.len() > 0 && s.last() == 'y' && !(letter_before_last(s) matches Some(c) && vowel(c)) {
        s.drop_last() + "ies"@
    } else if s.len() > 0 && (s.last() == 's' || s.last() == 'x') {
        s + "es"@
    } else {
        s + "s"@
    }
}

/// How many bytes a text takes in UTF-8.
fn utf8_length(v: &Vec<char>) -> (r: u128)
    ensures
        r == utf8(v@).len(),
{
    let mut total: u128 = 0;
    let mut i: usize = 0;
    while i < v.len()
        invariant
            i <= v@.len(),
            total == utf8(v@.take(i as int)).len(),
            total <= 4 * i,
        decreases v.len() - i,
    {
        assert(v@.take(i + 1).drop_last() == v@.take(i as int));
        let n = v[i] as u32;
        let width: u128 = if n < 0x80 {
            1
        } else if n < 0x800 {
            2
        } else if n < 0x10000 {
            3
        } else {
            4
        };
        assert(utf8_char(v@[i as int]).len() == width);
        total = total + width;
        i += 1;
    }
    assert(v@.take(v@.len() as int) == v@);
    total
}

/// A count and a noun that agrees with it.
pub open spec fn plural_text(count: nat, singular: Seq<char>) -> Seq<char> {
    decimal(count) + " "@ + if count == 1 {
        singular
    } else {
        plural_noun(singular)
    }
}

/// Pluralizes a noun against a count.
pub fn plural(count: usize, singular: &str) -> (r: String)
    ensures
        r@ == plural_text(count as nat, singular@),
{
    let mut r = decimal_of(count as u64);
    push_str(&mut r, " ");
    if count == 1 {
        push_str(&mut r, singular);
        return r;
    }
    let v = chars_of(singular);
    let n = v.len();
    if n > 0 && v[n - 1] == 'y' {
        let bytes = utf8_length(&v);
        let k: u128 = if bytes >= 2 { bytes - 2 } else { 0 };
        let after_vowel = k < n as u128 && {
            let l = crate::text::lower_char_of(v[k as usize]);
            l == 'a' || l == 'e' || l == 'i' || l == 'o' || l == 'u'
        };
        if !after_vowel {
            push_str(&mut r, string_of(v.as_slice(), 0, n - 1).as_str());
            push_str(&mut r, "ies");
            assert(v@.subrange(0, n - 1) == singular@.drop_last());
            return r;
        }
    }
    push_str(&mut r, singular);
    if n > 0 && (v[n - 1] == 's' || v[n - 1] == 'x') {
        push_str(&mut r, "es");
    } else {
        push_str(&mut r, "s");
    }
    r
}

/// Whether `r` is the row an item becomes.
pub open spec fn row_of(r: Row, it: Item) -> bool {
    let at = it.completed_at;
    &&& r.date@ == formatted("%Y-%m-%d"@, at.date, at.clock, at.offset)
    &&& r.day@ == day_text(at)
    &&& r.source@ == source_text(it.source@)
    &&& r.kind@ == kind_text(it.kind@)
    &&& r.reference@ == match opt_string(it.reference) {
        Some(s) => s,
        None => seq![],
    }
    &&& r.title@ == it.title@
    &&& opt_string(r.context) == opt_string(it.context)
    &&& r.context_noun@ == noun_of(it.source@)
    &&& r.url@ == it.url@
}

/// Flattens items into rows, resolving every label a renderer might show.
pub fn rows(items: &[Item]) -> (r: Vec<Row>)
    requires
        forall|i: int| 0 <= i < items@.len() ==> (#[trigger] items@[i]).completed_at.date.wf(),
    ensures
        r@.len() == items@.len(),
        forall|i: int| 0 <= i < items@.len() ==> row_of(#[trigger] r@[i], items@[i]),
{
    let mut out: Vec<Row> = Vec::new();
    let mut i: usize = 0;
    while i < items.len()
        invariant
            i <= items@.len(),
            out@.len() == i,
            forall|k: int| 0 <= k < items@.len() ==> (#[trigger] items@[k]).completed_at.date.wf(),
            forall|k: int| 0 <= k < i ==> row_of(#[trigger] out@[k], items@[k]),
        decreases items.len() - i,
    {
        let item = &items[i];
        let reference = match &item.reference {
            Some(s) => owned(s.as_str()),
            None => String::new(),
        };
        let context = match &item.context {
            Some(s) => Some(owned(s.as_str())),
            None => None,
        };
        out.push(
            Row {
                date: item.date(),
                day: day_label(&item.completed_at),
                source: source_label(item.source.as_str()),
                kind: kind_label(item.kind.as_str()),
                reference,
                title: owned(item.title.as_str()),
                context,
                context_noun: context_noun(item.source.as_str()),
                url: owned(item.url.as_str()),
            },
        );
        i += 1;
    }
    out
}

/// What the report should show, independent of format.
#[derive(Debug, Clone, Copy)]
pub struct Layout {
    pub show_source: bool,
    pub styled: bool,
    /// Terminal width, when stdout is a terminal whose size is known.
    pub width: Option<usize>,
}

/// Whether output is styled: only the terminal format is, and only when
/// `--no-color` is off, `NO_COLOR` is unset or empty, `TERM` is not `dumb`,
/// and stdout is a terminal.
pub open spec fn styling(
    format: Format,
    no_color: bool,
    no_color_var: Option<Seq<char>>,
    term: Option<Seq<char>>,
    is_terminal: bool,
) -> bool {
    &&& format == Format::Terminal
    &&& !no_color
    &&& !(no_color_var matches Some(v) && v.len() > 0)
    &&& term != Some("dumb"@)
    &&& is_terminal
}

/// Decides whether to emit styling. Markdown and JSON are meant to be copied
/// or piped verbatim, so only the terminal format is ever styled.
pub fn should_style(
    format: Format,
    no_color: bool,
    no_color_var: Option<&str>,
    term: Option<&str>,
    is_terminal: bool,
) -> (r: bool)
    ensures
        r == styling(format, no_color, opt_view(no_color_var), opt_view(term), is_terminal),
{
    if format != Format::Terminal || no_color {
        return false;
    }
    if let Some(v) = no_color_var {
        if !v.is_empty() {
            return false;
        }
    }
    if let Some(t) = term {
        if same(t, "dumb") {
            return false;
        }
    }
    is_terminal
}

/// The width output may use: the terminal's, when stdout is a terminal that
/// reports a size, else a positive `COLUMNS`; none when stdout is not a
/// terminal, so redirected output keeps full titles.
pub open spec fn usable_width(is_terminal: bool, size: Option<u16>, columns: Option<Seq<char>>) -> Option<usize> {
    if !is_terminal {
        None
    } else if size matches Some(w) && w > 0 {
        Some(size->0 as usize)
    } else {
        match columns {
            Some(c) => match parse_u64(c) {
                Some(n) => if 0 < n <= usize::MAX {
                    Some(n as usize)
                } else {
                    None
                },
                None => None,
            },
            None => None,
        }
    }
}

/// Width available for output, from whether stdout is a terminal, the size
/// the terminal reports, and `COLUMNS`.
pub fn terminal_width(is_terminal: bool, size: Option<u16>, columns: Option<&str>) -> (r: Option<usize>)
    ensures
        r == usable_width(is_terminal, size, opt_view(columns)),
{
    if !is_terminal {
        return None;
    }
    if let Some(w) = size {
        if w > 0 {
            return Some(w as usize);
        }
    }
    match columns {
        Some(c) => match parse_u64_of(c) {
            Some(n) => if 0 < n && n <= usize::MAX as u64 {
                Some(n as usize)
            } else {
                None
            },
            None => None,
        },
        None => None,
    }
}

/// What the spinner says while sources are queried: the sources, as their
/// projects spell them, and the window.
pub open spec fn progress_text(ids: Seq<SourceId>, range: TimeRange) -> Seq<char> {
    "Querying "@ + join(ids.map_values(|id: SourceId| source_text(id@)), ", "@) + " · "@ + moment_text(
        "%Y-%m-%d"@,
        range.start,
    ) + " .. "@ + moment_text("%Y-%m-%d %H:%M"@, range.end)
}

/// Says which sources are being queried, over which window.
pub fn progress_message(ids: &[SourceId], range: &TimeRange) -> (r: String)
    ensures
        r@ == progress_text(ids@, *range),
{
    let mut labels: Vec<String> = Vec::new();
    let mut i: usize = 0;
    while i < ids.len()
        invariant
            i <= ids@.len(),
            labels@.map_values(|p: String| p@) == ids@.take(i as int).map_values(|id: SourceId| source_text(id@)),
        decreases ids.len() - i,
    {
        let ghost before = labels@.map_values(|p: String| p@);
        labels.push(source_label(ids[i].as_str()));
        assert(ids@.take(i + 1).map_values(|id: SourceId| source_text(id@)) =~= ids@.take(i as int).map_values(
            |id: SourceId| source_text(id@),
        ).push(source_text(ids@[i as int]@)));
        assert(labels@.map_values(|p: String| p@) =~= before.push(source_text(ids@[i as int]@)));
        i += 1;
    }
    assert(ids@.take(ids@.len() as int) =~= ids@);
    let mut r = owned("Querying ");
    push_str(&mut r, join_all(&labels, ", ").as_str());
    push_str(&mut r, " · ");
    push_str(&mut r, range.label().as_str());
    r
}

/// Renders a complete report in the chosen format.
pub fn render(format: Format, items: &[Item], range: &TimeRange, layout: Layout) -> (r: String)
    requires
        forall|i: int| 0 <= i < items@.len() ==> (#[trigger] items@[i]).completed_at.date.wf(),
        format == Format::Terminal ==> {
            &&& range.start.date.wf()
            &&& range.end.instant.second - 1 >= i64::MIN
            &&& (crate::time::Instant {
                second: (range.end.instant.second - 1) as i64,
                nanosecond: range.end.instant.nanosecond,
            }).representable()
        },
    ensures
        exists|rs: Seq<Row>|
            #![trigger rs.len()]
            rs.len() == items@.len() && (forall|i: int| 0 <= i < items@.len() ==> row_of(#[trigger] rs[i], items@[i]))
                && match format {
                Format::Terminal => exists|last: Moment|
                    #![trigger terminal::window_text(range.start, last)]
                    last.wf() && last.zone == range.end.zone && last.instant.total() == range.end.instant.total() - 1_000_000_000
                        && terminal::composed(rs, terminal::window_text(range.start, last), layout, r@),
                Format::Markdown => r@ == markdown::table_text(rs, layout.show_source),
                Format::Json => r@ == json::items_json(items@),
            },
{
    let rows = rows(items);
    match format {
        Format::Terminal => terminal::render(rows.as_slice(), range, layout),
        Format::Markdown => markdown::render(rows.as_slice(), layout.show_source),
        Format::Json => json::render(items),
    }
}

} // verus!
