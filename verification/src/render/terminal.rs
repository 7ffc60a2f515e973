//! Styled terminal output.
//!
//! Rows are grouped under a heading per day, because a work report is read a
//! day at a time. Columns are laid out on the plain text and styled
//! afterwards: colour and hyperlink escapes occupy no display width and would
//! otherwise corrupt every alignment they touch.
//!
//! Only the sixteen themeable ANSI colours are used, so the terminal's own
//! theme resolves them and the output stays legible on light and dark
//! backgrounds alike.
use vstd::prelude::*;

use super::{plural, plural_text, short_date, short_text, Layout, Row};
use crate::period::TimeRange;
use crate::text::{
    chars_of, owned, push_char, push_str, same, signed_decimal, signed_decimal_of, trim_end,
    trimmed_end, text_lt, compare, Order, lemma_text_lt_irreflexive, lemma_text_lt_asymmetric,
};
use crate::time::Moment;

verus! {

/// The looks the report uses. Structure is carried by weight and space, not
/// colour, so headings stay legible under any theme and the body keeps only
/// two hues; identifiers and locations are metadata around the title, and
/// recede.
#[derive(Debug, Clone, Copy, PartialEq, Eq, Structural)]
pub enum Look {
    Plain,
    Bold,
    Magenta,
    Cyan,
    Green,
    Yellow,
}

/// The escape that starts a look.
pub open spec fn open_code(look: Look) -> Seq<char> {
    match look {
        Look::Plain => seq![],
        Look::Bold => "\x1b[1m"@,
        Look::Magenta => "\x1b[35m"@,
        Look::Cyan => "\x1b[36m"@,
        Look::Green => "\x1b[32m"@,
        Look::Yellow => "\x1b[33m"@,
    }
}

/// The escape that ends a look: none for the plain look.
pub open spec fn close_code(look: Look) -> Seq<char> {
    match look {
        Look::Plain => seq![],
        _ => "\x1b[0m"@,
    }
}

/// The escapes `anstyle` writes for a look: its `Display` of the style,
/// and the alternate form that resets it. The style's effects come first
/// (`ESC [1m` for bold), then its foreground colour (`ESC [3Nm`); the reset
/// is `ESC [0m`, elided for a plain style.
#[verifier::external_body]
fn style_codes(look: Look) -> (r: (String, String))
    ensures
        r.0@ == open_code(look),
        r.1@ == close_code(look),
{
    let style = match look {
        Look::Plain => anstyle::Style::new(),
        Look::Bold => anstyle::Style::new().bold(),
        Look::Magenta => anstyle::Style::new().fg_color(Some(anstyle::AnsiColor::Magenta.into())),
        Look::Cyan => anstyle::Style::new().fg_color(Some(anstyle::AnsiColor::Cyan.into())),
        Look::Green => anstyle::Style::new().fg_color(Some(anstyle::AnsiColor::Green.into())),
        Look::Yellow => anstyle::Style::new().fg_color(Some(anstyle::AnsiColor::Yellow.into())),
    };
    (format!("{style}"), format!("{style:#}"))
}

/// The look of an item kind. The kind is always spelled out beside it, so
/// the colour is redundant decoration rather than the only carrier of
/// meaning.
pub open spec fn kind_look(kind: Seq<char>) -> Look {
    if kind == "PR"@ {
        Look::Cyan
    } else if kind == "Issue"@ {
        Look::Green
    } else {
        Look::Yellow
    }
}

fn kind_style(kind: &str) -> (r: Look)
    ensures
        r == kind_look(kind@),
{
    if same(kind, "PR") {
        Look::Cyan
    } else if same(kind, "Issue") {
        Look::Green
    } else {
        Look::Yellow
    }
}

/// Text in a look, when styling is on.
pub open spec fn painted(look: Look, text: Seq<char>, styled: bool) -> Seq<char> {
    if styled {
        open_code(look) + text + close_code(look)
    } else {
        text
    }
}

/// Text in a look, when styling is on.
pub fn paint(look: Look, text: &str, styled: bool) -> (r: String)
    ensures
        r@ == painted(look, text@, styled),
{
    if styled {
        let (open, close) = style_codes(look);
        let mut r = open;
        push_str(&mut r, text);
        push_str(&mut r, close.as_str());
        r
    } else {
        owned(text)
    }
}

/// Text wrapped in an OSC 8 hyperlink.
pub open spec fn linked(url: Seq<char>, text: Seq<char>) -> Seq<char> {
    "\x1b]8;;"@ + url + "\x1b\\"@ + text + "\x1b]8;;\x1b\\"@
}

/// Wraps text in an OSC 8 hyperlink.
///
/// Adds no styling of its own: terminals mark hyperlinks themselves, often
/// according to a user preference that an underline here would override.
pub fn hyperlink(url: &str, text: &str) -> (r: String)
    ensures
        r@ == linked(url@, text@),
{
    let mut r = owned("\x1b]8;;");
    push_str(&mut r, url);
    push_str(&mut r, "\x1b\\");
    push_str(&mut r, text);
    push_str(&mut r, "\x1b]8;;\x1b\\");
    r
}

/// The columns a text occupies on a terminal, as `unicode-width` measures
/// it.
pub uninterp spec fn display_width(s: Seq<char>) -> nat;

/// The display width of a text, by `UnicodeWidthStr::width`.
#[verifier::external_body]
fn width_of(s: &str) -> (r: usize)
    ensures
        r == display_width(s@),
{
    unicode_width::UnicodeWidthStr::width(s)
}

/// The display width of one character, as a one-character text.
fn char_width(c: char) -> (r: usize)
    ensures
        r == display_width(seq![c]),
{
    let mut s = String::new();
    push_char(&mut s, c);
    width_of(s.as_str())
}

/// How many leading characters fit in `budget` columns, each measured on
/// its own, stopping at the first that does not fit.
pub open spec fn fitting(chars: Seq<char>, budget: int) -> nat
    decreases chars.len(),
{
    if chars.len() == 0 || display_width(seq![chars[0]]) > budget {
        0
    } else {
        1 + fitting(chars.drop_first(), budget - display_width(seq![chars[0]]))
    }
}

/// Text shortened to `limit` display columns, with `…` marking the cut.
pub open spec fn shortened(text: Seq<char>, limit: nat) -> Seq<char> {
    if display_width(text) <= limit {
        text
    } else if limit <= 1 {
        seq!['…']
    } else {
        text.take(fitting(text, limit - 1) as int) + seq!['…']
    }
}

proof fn lemma_fitting_step(chars: Seq<char>, i: int, budget: int)
    requires
        0 <= i < chars.len(),
        fitting(chars.skip(i), budget) > 0,
    ensures
        fitting(chars.skip(i), budget) == 1 + fitting(chars.skip(i + 1), budget - display_width(seq![chars[i]])),
{
    assert(chars.skip(i).drop_first() == chars.skip(i + 1));
}

/// Shortens text to `limit` display columns, marking the cut.
pub fn truncate(text: &str, limit: usize) -> (r: String)
    ensures
        r@ == shortened(text@, limit as nat),
{
    if width_of(text) <= limit {
        return owned(text);
    }
    if limit <= 1 {
        let mut r = String::new();
        push_char(&mut r, '…');
        return r;
    }
    let v = chars_of(text);
    let mut out = String::new();
    let mut used: u128 = 0;
    let mut i: usize = 0;
    let ghost budget = (limit - 1) as int;
    assert(v@.skip(0) == v@);
    loop
        invariant
            v@ == text@,
            limit > 1,
            budget == limit - 1,
            i <= v@.len(),
            used <= budget,
            out@ == v@.take(i as int),
            fitting(v@, budget) == i + fitting(v@.skip(i as int), budget - used),
        ensures
            out@ == v@.take(fitting(v@, budget) as int),
        decreases v.len() - i,
    {
        if i >= v.len() {
            assert(v@.skip(i as int).len() == 0);
            break;
        }
        let w = char_width(v[i]);
        if used + (w as u128) > (limit - 1) as u128 {
            assert(v@.skip(i as int)[0] == v@[i as int]);
            break;
        }
        proof {
            assert(v@.skip(i as int)[0] == v@[i as int]);
            lemma_fitting_step(v@, i as int, budget - used);
        }
        push_char(&mut out, v[i]);
        assert(v@.take(i + 1) == v@.take(i as int).push(v@[i as int]));
        used = used + w as u128;
        i += 1;
    }
    push_char(&mut out, '…');
    out
}

/// Appends `text`, padding to `width` columns using `display_width` rather
/// than the string's length, so styled text still aligns.
fn push_cell(line: &mut String, text: &str, display_width: u128, width: u128)
    ensures
        final(line)@ == old(line)@ + text@ + spaces(if width > display_width { (width - display_width) as nat } else { 0 }),
{
    push_str(line, text);
    let pad: u128 = if width > display_width { width - display_width } else { 0 };
    let mut k: u128 = 0;
    let ghost base = line@;
    while k < pad
        invariant
            k <= pad,
            line@ == base + spaces(k as nat),
        decreases pad - k,
    {
        push_char(line, ' ');
        assert(spaces((k + 1) as nat) == spaces(k as nat).push(' '));
        k += 1;
    }
}

/// `n` spaces.
pub open spec fn spaces(n: nat) -> Seq<char> {
    Seq::new(n, |i: int| ' ')
}

/// The window as a heading reads it, collapsing a single day: its first
/// day, and the day of its last second when that is another day, then the
/// year of that last second.
pub open spec fn window_text(start: Moment, last: Moment) -> Seq<char> {
    let (a, b) = (short_text(start), short_text(last));
    if a == b {
        a + " "@ + signed_decimal(last.date.year as int)
    } else {
        a + " – "@ + b + " "@ + signed_decimal(last.date.year as int)
    }
}

/// Renders the window as a heading reads it, collapsing a single day.
pub fn window_label(range: &TimeRange) -> (r: String)
    requires
        range.start.date.wf(),
        range.end.instant.second - 1 >= i64::MIN,
        (crate::time::Instant {
            second: (range.end.instant.second - 1) as i64,
            nanosecond: range.end.instant.nanosecond,
        }).representable(),
    ensures
        exists|last: Moment|
            #![trigger window_text(range.start, last)]
            last.wf() && last.zone == range.end.zone && last.instant.total() == range.end.instant.total() - 1_000_000_000 && r@
                == window_text(range.start, last),
{
    let start = short_date(&range.start);
    let last = match range.end.plus_seconds(-1) {
        Some(m) => m,
        None => return String::new(),
    };
    let end = short_date(&last);
    let mut r = owned(start.as_str());
    if same(start.as_str(), end.as_str()) {
        push_str(&mut r, " ");
    } else {
        push_str(&mut r, " – ");
        push_str(&mut r, end.as_str());
        push_str(&mut r, " ");
    }
    push_str(&mut r, signed_decimal_of(last.date.year as i64).as_str());
    assert(r@ == window_text(range.start, last));
    r
}

/// The columns a report is laid out in: the width of the kind, source and
/// reference columns (the source column's including its gap), the title's
/// limit when titles are cut to fit, and the length of the closing rule.
#[derive(Debug, Clone, Copy, PartialEq, Eq, Structural)]
pub struct Widths {
    pub kind: u128,
    pub source: u128,
    pub reference: u128,
    pub title: Option<usize>,
    pub rule: u128,
}

/// The widest of some texts, or 0 for none.
pub open spec fn widest(texts: Seq<Seq<char>>) -> nat
    decreases texts.len(),
{
    if texts.len() == 0 {
        0
    } else {
        let w = display_width(texts.last());
        let rest = widest(texts.drop_last());
        if w > rest {
            w
        } else {
            rest
        }
    }
}

pub open spec fn kinds_of(rows: Seq<Row>) -> Seq<Seq<char>> {
    rows.map_values(|r: Row| r.kind@)
}

pub open spec fn sources_of(rows: Seq<Row>) -> Seq<Seq<char>> {
    rows.map_values(|r: Row| r.source@)
}

pub open spec fn references_of(rows: Seq<Row>) -> Seq<Seq<char>> {
    rows.map_values(|r: Row| r.reference@)
}

pub open spec fn titles_of(rows: Seq<Row>) -> Seq<Seq<char>> {
    rows.map_values(|r: Row| r.title@)
}

/// The contexts of the rows that have one, in order.
pub open spec fn contexts_of(rows: Seq<Row>) -> Seq<Seq<char>>
    decreases rows.len(),
{
    if rows.len() == 0 {
        seq![]
    } else {
        let earlier = contexts_of(rows.drop_last());
        match rows.last().context {
            Some(c) => earlier.push(c@),
            None => earlier,
        }
    }
}

pub open spec fn smaller(a: int, b: int) -> int {
    if a < b {
        a
    } else {
        b
    }
}

/// How the columns are measured: each column as wide as its widest cell.
/// Without a known terminal width nothing is cut, and the rule stops at 96
/// columns; with one, the title gets the room left beside the other columns,
/// but never less than 24 columns, and the rule stops at the terminal's edge.
pub open spec fn measured(rows: Seq<Row>, layout: Layout) -> Widths {
    let kind = widest(kinds_of(rows));
    let source = if layout.show_source {
        widest(sources_of(rows)) + 2
    } else {
        0
    };
    let reference = widest(references_of(rows));
    let context = widest(contexts_of(rows));
    let natural = widest(titles_of(rows));
    let fixed = display_width("  "@) + kind + 2 + source + reference + 2;
    match layout.width {
        None => Widths {
            kind: kind as u128,
            source: source as u128,
            reference: reference as u128,
            title: None,
            rule: smaller((fixed + natural + 2 + context) as int, 96) as u128,
        },
        Some(available) => {
            let room = if available >= fixed + 2 + context {
                available - (fixed + 2 + context)
            } else {
                0
            };
            let title = smaller(natural as int, if room > 24 { room as int } else { 24 });
            Widths {
                kind: kind as u128,
                source: source as u128,
                reference: reference as u128,
                title: Some(title as usize),
                rule: smaller(fixed + title + 2 + context, available as int) as u128,
            }
        },
    }
}

/// The columns fit a terminal of known width: each of the kind, source and
/// reference columns is as wide as its widest cell (the source column with
/// its gap, and only when shown); the title column is never wider than the
/// widest title, nor narrower than 24 columns unless every title is; the
/// rule never passes the terminal's edge; and whenever the terminal leaves
/// the title at least 24 columns beside the other columns, a row's columns
/// (indent, kind and gap, source, reference and gap, title, gap, place) add
/// up to no more than the terminal's width. Widths are taken to fit the
/// machine's word, as any text in memory does.
pub proof fn lemma_columns_fit_the_terminal(rows: Seq<Row>, layout: Layout, available: usize)
    requires
        layout.width == Some(available),
        display_width("  "@) <= usize::MAX,
        widest(kinds_of(rows)) <= usize::MAX,
        widest(sources_of(rows)) <= usize::MAX,
        widest(references_of(rows)) <= usize::MAX,
        widest(titles_of(rows)) <= usize::MAX,
        widest(contexts_of(rows)) <= usize::MAX,
    ensures
        ({
            let w = measured(rows, layout);
            let source = if layout.show_source {
                widest(sources_of(rows)) + 2
            } else {
                0
            };
            let fixed = display_width("  "@) + widest(kinds_of(rows)) + 2 + source + widest(references_of(rows)) + 2;
            &&& w.kind == widest(kinds_of(rows))
            &&& w.source == source
            &&& w.reference == widest(references_of(rows))
            &&& w.rule <= available
            &&& w.title matches Some(t) && t <= widest(titles_of(rows)) && (t >= 24 || t == widest(titles_of(rows)))
                && (available >= fixed + 24 + 2 + widest(contexts_of(rows)) ==> display_width("  "@) + w.kind + 2
                + w.source + w.reference + 2 + t + 2 + widest(contexts_of(rows)) <= available)
        }),
{
}

/// Without a known terminal width nothing is cut: there is no title limit,
/// the other columns are as wide as their widest cells, and the rule runs
/// under the columns but never past 96 columns.
pub proof fn lemma_an_unknown_width_cuts_nothing(rows: Seq<Row>, layout: Layout)
    requires
        layout.width is None,
        display_width("  "@) <= usize::MAX,
        widest(kinds_of(rows)) <= usize::MAX,
        widest(sources_of(rows)) <= usize::MAX,
        widest(references_of(rows)) <= usize::MAX,
        widest(titles_of(rows)) <= usize::MAX,
        widest(contexts_of(rows)) <= usize::MAX,
    ensures
        ({
            let w = measured(rows, layout);
            let source = if layout.show_source {
                widest(sources_of(rows)) + 2
            } else {
                0
            };
            let line = display_width("  "@) + widest(kinds_of(rows)) + 2 + source + widest(references_of(rows)) + 2
                + widest(titles_of(rows)) + 2 + widest(contexts_of(rows));
            &&& w.title is None
            &&& w.kind == widest(kinds_of(rows))
            &&& w.source == source
            &&& w.reference == widest(references_of(rows))
            &&& w.rule <= 96
            &&& w.rule <= line
            &&& (line <= 96 ==> w.rule == line)
        }),
{
}

/// The widest of the texts `pick` reads from the rows.
fn widest_of(texts: &Vec<String>) -> (r: usize)
    ensures
        r == widest(texts@.map_values(|t: String| t@)),
{
    let ghost views = texts@.map_values(|t: String| t@);
    let mut best: usize = 0;
    let mut i: usize = 0;
    while i < texts.len()
        invariant
            i <= texts@.len(),
            views == texts@.map_values(|t: String| t@),
            best == widest(views.take(i as int)),
        decreases texts.len() - i,
    {
        assert(views.take(i + 1).drop_last() == views.take(i as int));
        assert(views.take(i + 1).last() == views[i as int]);
        let w = width_of(texts[i].as_str());
        if w > best {
            best = w;
        }
        i += 1;
    }
    assert(views.take(views.len() as int) == views);
    best
}

/// Measures the columns of a report.
#[verifier::rlimit(40)]
pub fn measure(rows: &[Row], layout: &Layout) -> (r: Widths)
    ensures
        r == measured(rows@, *layout),
        r.kind <= usize::MAX,
        r.reference <= usize::MAX,
{
    let mut kinds: Vec<String> = Vec::new();
    let mut sources: Vec<String> = Vec::new();
    let mut references: Vec<String> = Vec::new();
    let mut titles: Vec<String> = Vec::new();
    let mut contexts: Vec<String> = Vec::new();
    let mut i: usize = 0;
    while i < rows.len()
        invariant
            i <= rows@.len(),
            kinds@.map_values(|t: String| t@) == kinds_of(rows@.take(i as int)),
            sources@.map_values(|t: String| t@) == sources_of(rows@.take(i as int)),
            references@.map_values(|t: String| t@) == references_of(rows@.take(i as int)),
            titles@.map_values(|t: String| t@) == titles_of(rows@.take(i as int)),
            contexts@.map_values(|t: String| t@) == contexts_of(rows@.take(i as int)),
        decreases rows.len() - i,
    {
        let ghost before = rows@.take(i as int);
        assert(rows@.take(i + 1) == before.push(rows@[i as int]));
        assert(rows@.take(i + 1).drop_last() == before);
        let ghost old_kinds = kinds@;
        let ghost old_sources = sources@;
        kinds.push(owned(rows[i].kind.as_str()));
        sources.push(owned(rows[i].source.as_str()));
        assert(kinds@ == old_kinds.push(kinds@.last()));
        assert(kinds@.map_values(|t: String| t@) =~= old_kinds.map_values(|t: String| t@).push(rows@[i as int].kind@));
        assert(kinds_of(rows@.take(i + 1)) =~= kinds_of(before).push(rows@[i as int].kind@));
        assert(sources@.map_values(|t: String| t@) =~= old_sources.map_values(|t: String| t@).push(rows@[i as int].source@));
        assert(sources_of(rows@.take(i + 1)) =~= sources_of(before).push(rows@[i as int].source@));
        let ghost old_references = references@;
        let ghost old_titles = titles@;
        references.push(owned(rows[i].reference.as_str()));
        titles.push(owned(rows[i].title.as_str()));
        assert(references@.map_values(|t: String| t@) =~= old_references.map_values(|t: String| t@).push(rows@[i as int].reference@));
        assert(references_of(rows@.take(i + 1)) =~= references_of(before).push(rows@[i as int].reference@));
        assert(titles@.map_values(|t: String| t@) =~= old_titles.map_values(|t: String| t@).push(rows@[i as int].title@));
        assert(titles_of(rows@.take(i + 1)) =~= titles_of(before).push(rows@[i as int].title@));
        if let Some(c) = &rows[i].context {
            contexts.push(owned(c.as_str()));
        }
        assert(kinds@.map_values(|t: String| t@) =~= kinds_of(rows@.take(i + 1)));
        assert(sources@.map_values(|t: String| t@) =~= sources_of(rows@.take(i + 1)));
        assert(references@.map_values(|t: String| t@) =~= references_of(rows@.take(i + 1)));
        assert(titles@.map_values(|t: String| t@) =~= titles_of(rows@.take(i + 1)));
        assert(contexts@.map_values(|t: String| t@) =~= contexts_of(rows@.take(i + 1)));
        i += 1;
    }
    assert(rows@.take(rows@.len() as int) == rows@);
    let kind = widest_of(&kinds) as u128;
    let source: u128 = if layout.show_source {
        widest_of(&sources) as u128 + 2
    } else {
        0
    };
    let reference = widest_of(&references) as u128;
    let context = widest_of(&contexts) as u128;
    let natural = widest_of(&titles);
    let fixed: u128 = width_of("  ") as u128 + kind + 2 + source + reference + 2;
    match layout.width {
        None => {
            let whole = fixed + natural as u128 + 2 + context;
            Widths { kind, source, reference, title: None, rule: if whole < 96 { whole } else { 96 } }
        },
        Some(available) => {
            let needed = fixed + 2 + context;
            let room: u128 = if available as u128 >= needed { available as u128 - needed } else { 0 };
            let floor: u128 = if room > 24 { room } else { 24 };
            let title: usize = if (natural as u128) < floor { natural } else { floor as usize };
            let whole = fixed + title as u128 + 2 + context;
            Widths {
                kind,
                source,
                reference,
                title: Some(title),
                rule: if whole < available as u128 { whole } else { available as u128 },
            }
        },
    }
}

/// Text padded with spaces to `width` columns, given its display width.
pub open spec fn cell(text: Seq<char>, text_width: nat, width: nat) -> Seq<char> {
    text + spaces(if width > text_width { (width - text_width) as nat } else { 0 })
}

/// One line of the report body: the kind, the source when it is shown, the
/// reference, the title (cut to its limit, and a hyperlink when styled) and
/// the context, aligned in columns, without trailing white space.
pub open spec fn row_text(row: Row, w: Widths, layout: Layout) -> Seq<char> {
    let styled = layout.styled;
    trim_end(
        "  "@ + cell(
            painted(kind_look(row.kind@), row.kind@, styled),
            display_width(row.kind@),
            (w.kind + 2) as nat,
        ) + (if layout.show_source {
            cell(row.source@, display_width(row.source@), w.source as nat)
        } else {
            seq![]
        }) + cell(
            painted(Look::Magenta, row.reference@, styled),
            display_width(row.reference@),
            (w.reference + 2) as nat,
        ) + row_tail(row, w, layout),
    )
}

/// The title as a row shows it: cut to its limit when there is one.
pub open spec fn row_title(row: Row, w: Widths) -> Seq<char> {
    match w.title {
        Some(limit) => shortened(row.title@, limit as nat),
        None => row.title@,
    }
}

/// The end of a row: the title, a hyperlink when styled, then the context,
/// aligned in its column when titles have a limit.
pub open spec fn row_tail(row: Row, w: Widths, layout: Layout) -> Seq<char> {
    let styled = layout.styled;
    let title = row_title(row, w);
    let rendered = if styled {
        linked(row.url@, title)
    } else {
        title
    };
    match (row.context, w.title) {
        (None, _) => rendered,
        (Some(c), Some(limit)) => cell(rendered, display_width(title), (limit + 2) as nat) + painted(
            Look::Magenta,
            c@,
            styled,
        ),
        (Some(c), None) => rendered + "  "@ + painted(Look::Magenta, c@, styled),
    }
}

/// Renders one line of the report body.
#[verifier::rlimit(60)]
pub fn render_row(row: &Row, widths: &Widths, layout: &Layout) -> (r: String)
    requires
        widths.kind + 2 <= u128::MAX,
        widths.reference + 2 <= u128::MAX,
    ensures
        r@ == row_text(*row, *widths, *layout),
{
    let mut line = owned("  ");
    push_cell(
        &mut line,
        paint(kind_style(row.kind.as_str()), row.kind.as_str(), layout.styled).as_str(),
        width_of(row.kind.as_str()) as u128,
        widths.kind + 2,
    );
    if layout.show_source {
        push_cell(&mut line, row.source.as_str(), width_of(row.source.as_str()) as u128, widths.source);
    }
    push_cell(
        &mut line,
        paint(Look::Magenta, row.reference.as_str(), layout.styled).as_str(),
        width_of(row.reference.as_str()) as u128,
        widths.reference + 2,
    );
    let title = match widths.title {
        Some(limit) => truncate(row.title.as_str(), limit),
        None => owned(row.title.as_str()),
    };
    let title_width = width_of(title.as_str());
    let rendered = if layout.styled {
        hyperlink(row.url.as_str(), title.as_str())
    } else {
        title
    };
    let ghost head = line@;
    match (&row.context, widths.title) {
        (None, _) => push_str(&mut line, rendered.as_str()),
        (Some(context), Some(limit)) => {
            push_cell(&mut line, rendered.as_str(), title_width as u128, limit as u128 + 2);
            push_str(&mut line, paint(Look::Magenta, context.as_str(), layout.styled).as_str());
        },
        (Some(context), None) => {
            push_str(&mut line, rendered.as_str());
            push_str(&mut line, "  ");
            push_str(&mut line, paint(Look::Magenta, context.as_str(), layout.styled).as_str());
        },
    }
    proof {
        let styled = layout.styled;
        assert(title_width == display_width(row_title(*row, *widths)));
        assert(line@ == head + row_tail(*row, *widths, *layout));
        assert(head == "  "@ + cell(
            painted(kind_look(row.kind@), row.kind@, styled),
            display_width(row.kind@),
            (widths.kind + 2) as nat,
        ) + (if layout.show_source {
            cell(row.source@, display_width(row.source@), widths.source as nat)
        } else {
            seq![]
        }) + cell(
            painted(Look::Magenta, row.reference@, styled),
            display_width(row.reference@),
            (widths.reference + 2) as nat,
        ));
    }
    trimmed_end(line.as_str())
}

/// How many rows are of kind `k`.
pub open spec fn kind_count(rows: Seq<Row>, k: Seq<char>) -> nat
    decreases rows.len(),
{
    if rows.len() == 0 {
        0
    } else {
        kind_count(rows.drop_last(), k) + if rows.last().kind@ == k {
            1nat
        } else {
            0nat
        }
    }
}

/// Whether entries are in strictly increasing text order of their names.
pub open spec fn strictly_sorted(t: Seq<(Seq<char>, nat)>) -> bool {
    forall|i: int, j: int| 0 <= i < j < t.len() ==> text_lt(#[trigger] t[i].0, #[trigger] t[j].0)
}

/// Whether `t` tallies the rows' kinds: each kind once, in text order, with
/// the number of rows of that kind.
pub open spec fn kind_tally(t: Seq<(Seq<char>, nat)>, rows: Seq<Row>) -> bool {
    &&& strictly_sorted(t)
    &&& forall|i: int| 0 <= i < t.len() ==> (#[trigger] t[i]).1 == kind_count(rows, t[i].0) && t[i].1 > 0
    &&& forall|r: int| 0 <= r < rows.len() ==> exists|i: int| 0 <= i < t.len() && (#[trigger] t[i]).0 == (#[trigger] rows[r]).kind@
}

/// Whether tally `t` holds entry `e`.
pub open spec fn holds_entry(t: Seq<(Seq<char>, nat)>, e: (Seq<char>, nat)) -> bool {
    exists|j: int| 0 <= j < t.len() && t[j] == e
}

/// Two tallies in text order that hold the same entries are the same.
#[verifier::spinoff_prover]
proof fn lemma_sorted_tally_unique(a: Seq<(Seq<char>, nat)>, b: Seq<(Seq<char>, nat)>)
    requires
        strictly_sorted(a),
        strictly_sorted(b),
        forall|i: int| 0 <= i < a.len() ==> holds_entry(b, #[trigger] a[i]),
        forall|j: int| 0 <= j < b.len() ==> holds_entry(a, #[trigger] b[j]),
    ensures
        a == b,
    decreases a.len(),
{
    if a.len() == 0 {
        if b.len() > 0 {
            assert(holds_entry(a, b[0]));
        }
        assert(a =~= b);
    } else {
        assert(holds_entry(b, a[0]));
        let j = choose|j: int| 0 <= j < b.len() && b[j] == a[0];
        assert(holds_entry(a, b[0]));
        let k = choose|k: int| 0 <= k < a.len() && a[k] == b[0];
        if j > 0 {
            assert(text_lt(b[0].0, b[j].0));
            if k == 0 {
                lemma_text_lt_irreflexive(a[0].0);
            } else {
                assert(text_lt(a[0].0, a[k].0));
                lemma_text_lt_asymmetric(a[0].0, b[0].0);
            }
        }
        let ra = a.drop_first();
        let rb = b.drop_first();
        assert forall|i: int| 0 <= i < ra.len() implies holds_entry(rb, #[trigger] ra[i]) by {
            assert(ra[i] == a[i + 1]);
            assert(holds_entry(b, a[i + 1]));
            let j = choose|j: int| 0 <= j < b.len() && b[j] == a[i + 1];
            if j == 0 {
                assert(text_lt(a[0].0, a[i + 1].0));
                lemma_text_lt_irreflexive(a[0].0);
            }
            assert(rb[j - 1] == b[j]);
        }
        assert forall|j: int| 0 <= j < rb.len() implies holds_entry(ra, #[trigger] rb[j]) by {
            assert(rb[j] == b[j + 1]);
            assert(holds_entry(a, b[j + 1]));
            let i = choose|i: int| 0 <= i < a.len() && a[i] == b[j + 1];
            if i == 0 {
                assert(text_lt(b[0].0, b[j + 1].0));
                lemma_text_lt_irreflexive(b[0].0);
            }
            assert(ra[i - 1] == a[i]);
        }
        lemma_sorted_tally_unique(ra, rb);
        assert(b[0] == a[0]);
        assert(a.len() == b.len());
        assert forall|i: int| 0 <= i < a.len() implies a[i] == b[i] by {
            if i > 0 {
                assert(a[i] == ra[i - 1]);
                assert(b[i] == rb[i - 1]);
            }
        }
        assert(a =~= b);
    }
}

/// The rows have one tally of their kinds.
pub proof fn lemma_kind_tally_unique(a: Seq<(Seq<char>, nat)>, b: Seq<(Seq<char>, nat)>, rows: Seq<Row>)
    requires
        kind_tally(a, rows),
        kind_tally(b, rows),
    ensures
        a == b,
{
    assert forall|i: int| 0 <= i < a.len() implies holds_entry(b, #[trigger] a[i]) by {
        lemma_count_positive_has_row(rows, a[i].0);
        let r = choose|r: int| 0 <= r < rows.len() && rows[r].kind@ == a[i].0;
        let j = choose|j: int| 0 <= j < b.len() && (#[trigger] b[j]).0 == (#[trigger] rows[r]).kind@;
        assert(b[j] == a[i]);
    }
    assert forall|j: int| 0 <= j < b.len() implies holds_entry(a, #[trigger] b[j]) by {
        lemma_count_positive_has_row(rows, b[j].0);
        let r = choose|r: int| 0 <= r < rows.len() && rows[r].kind@ == b[j].0;
        let i = choose|i: int| 0 <= i < a.len() && (#[trigger] a[i]).0 == (#[trigger] rows[r]).kind@;
        assert(a[i] == b[j]);
    }
    lemma_sorted_tally_unique(a, b);
}

/// A noun a place tally counts is the noun of a row with a context.
proof fn lemma_counted_noun_has_row(rows: Seq<Row>, n: Seq<char>)
    requires
        places(rows, n).finite(),
        places(rows, n).len() > 0,
    ensures
        exists|r: int| 0 <= r < rows.len() && (#[trigger] rows[r]).context_noun@ == n && rows[r].context is Some,
{
    if forall|c: Seq<char>| !places(rows, n).contains(c) {
        assert(places(rows, n) =~= Set::<Seq<char>>::empty());
    }
    let c = choose|c: Seq<char>| places(rows, n).contains(c);
    let r = choose|r: int|
        0 <= r < rows.len() && (#[trigger] rows[r]).context_noun@ == n && crate::text::opt_string(rows[r].context) == Some(c);
    assert(rows[r].context is Some);
}

/// The rows have one tally of their places.
pub proof fn lemma_place_tally_unique(a: Seq<(Seq<char>, nat)>, b: Seq<(Seq<char>, nat)>, rows: Seq<Row>)
    requires
        place_tally(a, rows),
        place_tally(b, rows),
    ensures
        a == b,
{
    assert forall|i: int| 0 <= i < a.len() implies holds_entry(b, #[trigger] a[i]) by {
        lemma_counted_noun_has_row(rows, a[i].0);
        let r = choose|r: int| 0 <= r < rows.len() && (#[trigger] rows[r]).context_noun@ == a[i].0 && rows[r].context is Some;
        let j = choose|j: int| 0 <= j < b.len() && (#[trigger] b[j]).0 == rows[r].context_noun@;
        assert(b[j] == a[i]);
    }
    assert forall|j: int| 0 <= j < b.len() implies holds_entry(a, #[trigger] b[j]) by {
        lemma_counted_noun_has_row(rows, b[j].0);
        let r = choose|r: int| 0 <= r < rows.len() && (#[trigger] rows[r]).context_noun@ == b[j].0 && rows[r].context is Some;
        let i = choose|i: int| 0 <= i < a.len() && (#[trigger] a[i]).0 == rows[r].context_noun@;
        assert(a[i] == b[j]);
    }
    lemma_sorted_tally_unique(a, b);
}

/// The distinct contexts the rows of noun `n` name.
pub open spec fn places(rows: Seq<Row>, n: Seq<char>) -> Set<Seq<char>> {
    Set::new(
        |c: Seq<char>|
            exists|r: int|
                0 <= r < rows.len() && (#[trigger] rows[r]).context_noun@ == n && crate::text::opt_string(rows[r].context) == Some(c),
    )
}

/// Whether `p` tallies the places: each noun once, in text order, with the
/// number of distinct contexts rows of that noun name.
pub open spec fn place_tally(p: Seq<(Seq<char>, nat)>, rows: Seq<Row>) -> bool {
    &&& strictly_sorted(p)
    &&& forall|i: int|
        0 <= i < p.len() ==> places(rows, (#[trigger] p[i]).0).finite() && p[i].1 == places(rows, p[i].0).len() && p[i].1 > 0
    &&& forall|r: int|
        0 <= r < rows.len() && (#[trigger] rows[r]).context is Some ==> exists|i: int|
            0 <= i < p.len() && (#[trigger] p[i]).0 == rows[r].context_noun@
}

/// The summary line: how many items, then how many of each kind, then how
/// many distinct places of each kind of place.
pub open spec fn summary_text(
    count: nat,
    kinds: Seq<(Seq<char>, nat)>,
    places: Seq<(Seq<char>, nat)>,
    styled: bool,
) -> Seq<char> {
    crate::text::join(
        seq![painted(Look::Bold, plural_text(count, "item"@), styled)] + kinds.map_values(
            |e: (Seq<char>, nat)| painted(kind_look(e.0), plural_text(e.1, e.0), styled),
        ) + places.map_values(|e: (Seq<char>, nat)| painted(Look::Magenta, plural_text(e.1, e.0), styled)),
        " · "@,
    )
}

pub open spec fn tally_view(t: Seq<(String, usize)>) -> Seq<(Seq<char>, nat)> {
    t.map_values(|e: (String, usize)| (e.0@, e.1 as nat))
}

proof fn lemma_kind_count_step(rows: Seq<Row>, i: int, k: Seq<char>)
    requires
        0 <= i < rows.len(),
    ensures
        kind_count(rows.take(i + 1), k) == kind_count(rows.take(i), k) + if rows[i].kind@ == k {
            1nat
        } else {
            0nat
        },
        kind_count(rows.take(i), k) <= i,
{
    assert(rows.take(i + 1).drop_last() == rows.take(i));
    lemma_kind_count_bound(rows.take(i), k);
}

proof fn lemma_kind_count_bound(rows: Seq<Row>, k: Seq<char>)
    ensures
        kind_count(rows, k) <= rows.len(),
    decreases rows.len(),
{
    if rows.len() > 0 {
        lemma_kind_count_bound(rows.drop_last(), k);
    }
}

/// Tallies the rows' kinds.
#[verifier::spinoff_prover]
#[verifier::rlimit(30)]
fn tally_kinds(rows: &[Row]) -> (r: Vec<(String, usize)>)
    ensures
        kind_tally(tally_view(r@), rows@),
{
    let mut t: Vec<(String, usize)> = Vec::new();
    let mut i: usize = 0;
    while i < rows.len()
        invariant
            i <= rows@.len(),
            kind_tally(tally_view(t@), rows@.take(i as int)),
        decreases rows.len() - i,
    {
        let ghost before = rows@.take(i as int);
        let ghost after = rows@.take(i + 1);
        let ghost tv = tally_view(t@);
        let kind = rows[i].kind.as_str();
        proof {
            assert forall|k: Seq<char>| #[trigger] kind_count(after, k) == kind_count(before, k) + if rows@[i as int].kind@ == k { 1nat } else { 0nat } by {
                lemma_kind_count_step(rows@, i as int, k);
            }
        }
        let mut p: usize = 0;
        while p < t.len() && matches!(compare(t[p].0.as_str(), kind), Order::Less)
            invariant
                p <= t@.len(),
                tv == tally_view(t@),
                forall|q: int| 0 <= q < p ==> text_lt(#[trigger] tv[q].0, kind@),
            decreases t.len() - p,
        {
            p += 1;
        }
        let found = p < t.len() && same(t[p].0.as_str(), kind);
        if found {
            let c = t[p].1;
            proof {
                assert(tv[p as int].1 == kind_count(before, tv[p as int].0));
                lemma_kind_count_bound(before, kind@);
            }
            let name = owned(t[p].0.as_str());
            t.set(p, (name, c + 1));
            proof {
                let nv = tally_view(t@);
                assert(nv == tv.update(p as int, (kind@, (c + 1) as nat)));
                assert forall|a: int, b: int| 0 <= a < b < nv.len() implies text_lt(#[trigger] nv[a].0, #[trigger] nv[b].0) by {
                    assert(nv[a].0 == tv[a].0 && nv[b].0 == tv[b].0);
                }
                assert forall|r: int| 0 <= r < after.len() implies exists|q: int| 0 <= q < nv.len() && (#[trigger] nv[q]).0 == (#[trigger] after[r]).kind@ by {
                    if r < i {
                        assert(after[r] == before[r]);
                        let q = choose|q: int| 0 <= q < tv.len() && (#[trigger] tv[q]).0 == before[r].kind@;
                        assert(nv[q].0 == tv[q].0);
                    } else {
                        assert(nv[p as int].0 == after[r].kind@);
                    }
                }
                assert forall|q: int| 0 <= q < nv.len() implies (#[trigger] nv[q]).1 == kind_count(after, nv[q].0) && nv[q].1 > 0 by {
                    if q != p {
                        assert(nv[q] == tv[q]);
                        assert(tv[q].0 != kind@) by {
                            if q < p {
                            } else {
                                assert(text_lt(tv[p as int].0, tv[q].0));
                                crate::text::lemma_text_lt_irreflexive(kind@);
                            }
                        }
                    }
                }
            }
        } else {
            t.insert(p, (owned(kind), 1));
            proof {
                let nv = tally_view(t@);
                assert(nv == tv.insert(p as int, (kind@, 1nat)));
                if p < tv.len() {
                    crate::text::lemma_text_total(tv[p as int].0, kind@);
                }
                assert forall|a: int, b: int| 0 <= a < b < nv.len() implies text_lt(#[trigger] nv[a].0, #[trigger] nv[b].0) by {
                    if b < p {
                        assert(nv[a] == tv[a] && nv[b] == tv[b]);
                    } else if b == p {
                        assert(nv[a] == tv[a]);
                    } else if a > p {
                        assert(nv[a] == tv[a - 1] && nv[b] == tv[b - 1]);
                    } else if a < p {
                        assert(nv[a] == tv[a] && nv[b] == tv[b - 1]);
                    } else {
                        assert(nv[b] == tv[b - 1]);
                        if b - 1 > p {
                            crate::text::lemma_text_lt_transitive(kind@, tv[p as int].0, tv[b - 1].0);
                        }
                    }
                }
                assert forall|r: int| 0 <= r < after.len() implies exists|q: int| 0 <= q < nv.len() && (#[trigger] nv[q]).0 == (#[trigger] after[r]).kind@ by {
                    if r < i {
                        assert(after[r] == before[r]);
                        let q = choose|q: int| 0 <= q < tv.len() && (#[trigger] tv[q]).0 == before[r].kind@;
                        if q < p {
                            assert(nv[q] == tv[q]);
                        } else {
                            assert(nv[q + 1] == tv[q]);
                        }
                    } else {
                        assert(nv[p as int].0 == after[r].kind@);
                    }
                }
                assert(kind_count(before, kind@) == 0) by {
                    if kind_count(before, kind@) > 0 {
                        lemma_count_positive_has_row(before, kind@);
                        let r = choose|r: int| 0 <= r < before.len() && before[r].kind@ == kind@;
                        let q = choose|q: int| 0 <= q < tv.len() && (#[trigger] tv[q]).0 == (#[trigger] before[r]).kind@;
                        if q < p {
                            crate::text::lemma_text_lt_irreflexive(kind@);
                        } else if q > p {
                            crate::text::lemma_text_lt_transitive(kind@, tv[p as int].0, tv[q].0);
                            crate::text::lemma_text_lt_irreflexive(kind@);
                        }
                    }
                }
                assert forall|q: int| 0 <= q < nv.len() implies (#[trigger] nv[q]).1 == kind_count(after, nv[q].0) && nv[q].1 > 0 by {
                    if q < p {
                        assert(nv[q] == tv[q]);
                        crate::text::lemma_text_lt_irreflexive(kind@);
                    } else if q > p {
                        assert(nv[q] == tv[q - 1]);
                        if q - 1 > p {
                            crate::text::lemma_text_lt_transitive(kind@, tv[p as int].0, tv[q - 1].0);
                        }
                        crate::text::lemma_text_lt_irreflexive(kind@);
                    }
                }
            }
        }
        i += 1;
    }
    assert(rows@.take(rows@.len() as int) == rows@);
    t
}

pub(crate) proof fn lemma_count_positive_has_row(rows: Seq<Row>, k: Seq<char>)
    requires
        kind_count(rows, k) > 0,
    ensures
        exists|r: int| 0 <= r < rows.len() && rows[r].kind@ == k,
    decreases rows.len(),
{
    if rows.last().kind@ == k {
        assert(rows[rows.len() - 1].kind@ == k);
    } else {
        lemma_count_positive_has_row(rows.drop_last(), k);
        let r = choose|r: int| 0 <= r < rows.drop_last().len() && rows.drop_last()[r].kind@ == k;
        assert(rows[r] == rows.drop_last()[r]);
    }
}

proof fn lemma_places_step(rows: Seq<Row>, i: int, n: Seq<char>)
    requires
        0 <= i < rows.len(),
    ensures
        places(rows.take(i + 1), n) == match rows[i].context {
            Some(c) => if rows[i].context_noun@ == n {
                places(rows.take(i), n).insert(c@)
            } else {
                places(rows.take(i), n)
            },
            None => places(rows.take(i), n),
        },
{
    let before = rows.take(i);
    let after = rows.take(i + 1);
    let expected = match rows[i].context {
        Some(c) => if rows[i].context_noun@ == n {
            places(before, n).insert(c@)
        } else {
            places(before, n)
        },
        None => places(before, n),
    };
    assert forall|x: Seq<char>| places(after, n).contains(x) <==> expected.contains(x) by {
        if places(after, n).contains(x) {
            let r = choose|r: int|
                0 <= r < after.len() && (#[trigger] after[r]).context_noun@ == n && crate::text::opt_string(after[r].context) == Some(x);
            if r < i {
                assert(after[r] == before[r]);
            }
        }
        if places(before, n).contains(x) {
            let r = choose|r: int|
                0 <= r < before.len() && (#[trigger] before[r]).context_noun@ == n && crate::text::opt_string(before[r].context) == Some(x);
            assert(after[r] == before[r]);
        }
        if expected.contains(x) && !places(before, n).contains(x) {
            assert(after[i] == rows[i]);
        }
    }
    assert(places(after, n) =~= expected);
}

/// Whether a contexts list holds each of the contexts rows of noun `n` name,
/// once.
pub open spec fn lists_places(contexts: Seq<String>, rows: Seq<Row>, n: Seq<char>) -> bool {
    let v = contexts.map_values(|c: String| c@);
    &&& v.no_duplicates()
    &&& v.to_set() == places(rows, n)
    &&& v.len() > 0
}

/// Whether a string is among a list.
fn listed(list: &Vec<String>, item: &str) -> (r: bool)
    ensures
        r == list@.map_values(|c: String| c@).contains(item@),
{
    let ghost v = list@.map_values(|c: String| c@);
    let mut k: usize = 0;
    while k < list.len()
        invariant
            k <= list@.len(),
            v == list@.map_values(|c: String| c@),
            forall|j: int| 0 <= j < k ==> v[j] != item@,
        decreases list.len() - k,
    {
        if same(list[k].as_str(), item) {
            assert(v[k as int] == item@);
            return true;
        }
        k += 1;
    }
    false
}

/// Tallies the places: for each noun, how many distinct contexts rows of it
/// name.
#[verifier::spinoff_prover]
fn tally_places(rows: &[Row]) -> (r: Vec<(String, usize)>)
    ensures
        place_tally(tally_view(r@), rows@),
{
    let mut entries: Vec<(String, Vec<String>)> = Vec::new();
    let mut i: usize = 0;
    while i < rows.len()
        invariant
            i <= rows@.len(),
            forall|a: int, b: int| 0 <= a < b < entries@.len() ==> text_lt(#[trigger] entries@[a].0@, #[trigger] entries@[b].0@),
            forall|q: int| 0 <= q < entries@.len() ==> lists_places(#[trigger] entries@[q].1@, rows@.take(i as int), entries@[q].0@),
            forall|q: int| 0 <= q < entries@.len() ==> (#[trigger] entries@[q]).1@.len() <= i,
            forall|r: int|
                0 <= r < i && (#[trigger] rows@[r]).context is Some ==> exists|q: int|
                    0 <= q < entries@.len() && (#[trigger] entries@[q]).0@ == rows@[r].context_noun@,
        decreases rows.len() - i,
    {
        let ghost before = rows@.take(i as int);
        let ghost after = rows@.take(i + 1);
        let ghost prev = entries@;
        proof {
            assert forall|n: Seq<char>| #[trigger] places(after, n) == match rows@[i as int].context {
                Some(c) => if rows@[i as int].context_noun@ == n {
                    places(before, n).insert(c@)
                } else {
                    places(before, n)
                },
                None => places(before, n),
            } by {
                lemma_places_step(rows@, i as int, n);
            }
        }
        let context = match &rows[i].context {
            Some(c) => c,
            None => {
                i += 1;
                continue;
            },
        };
        let noun = rows[i].context_noun;
        let mut p: usize = 0;
        while p < entries.len() && matches!(compare(entries[p].0.as_str(), noun), Order::Less)
            invariant
                p <= entries@.len(),
                prev == entries@,
                forall|q: int| 0 <= q < p ==> text_lt(#[trigger] prev[q].0@, noun@),
            decreases entries.len() - p,
        {
            p += 1;
        }
        if p < entries.len() && same(entries[p].0.as_str(), noun) {
            let present = listed(&entries[p].1, context.as_str());
            if !present {
                let (name, mut list) = entries.remove(p);
                let ghost old_list = list@;
                list.push(owned(context.as_str()));
                proof {
                    assert(list@.map_values(|c: String| c@) =~= old_list.map_values(|c: String| c@).push(context@));
                    old_list.map_values(|c: String| c@).lemma_push_to_set_commute(context@);
                    let nv = list@.map_values(|c: String| c@);
                    let v = old_list.map_values(|c: String| c@);
                    assert forall|a: int, b: int|
                        0 <= a < nv.len() && 0 <= b < nv.len() && a != b implies #[trigger] nv[a] != #[trigger] nv[b] by {
                        if b == old_list.len() {
                            assert(v.contains(v[a]));
                        } else if a == old_list.len() {
                            assert(v.contains(v[b]));
                        } else {
                            assert(nv[a] == v[a] && nv[b] == v[b]);
                        }
                    }
                }
                entries.insert(p, (name, list));
            }
            proof {
                let now = entries@;
                assert(now.len() == prev.len());
                assert forall|q: int| 0 <= q < now.len() implies now[q].0@ == prev[q].0@ && (q != p ==> now[q] == prev[q]) by {}
                assert forall|q: int| 0 <= q < now.len() && q != p implies #[trigger] prev[q].0@ != noun@ by {
                    if q > p {
                        assert(text_lt(prev[p as int].0@, prev[q].0@));
                    }
                    crate::text::lemma_text_lt_irreflexive(noun@);
                }
                assert forall|q: int| 0 <= q < now.len() implies lists_places(#[trigger] now[q].1@, after, now[q].0@) by {
                    if q == p && present {
                        assert(places(before, noun@).contains(context@));
                        assert(places(after, noun@) =~= places(before, noun@));
                    }
                }
                assert forall|r: int|
                    0 <= r < i + 1 && (#[trigger] rows@[r]).context is Some implies exists|q: int|
                        0 <= q < now.len() && (#[trigger] now[q]).0@ == rows@[r].context_noun@ by {
                    if r < i {
                        let q = choose|q: int| 0 <= q < prev.len() && (#[trigger] prev[q]).0@ == rows@[r].context_noun@;
                        assert(now[q].0@ == prev[q].0@);
                    } else {
                        assert(now[p as int].0@ == noun@);
                    }
                }
            }
        } else {
            entries.insert(p, (owned(noun), vec![owned(context.as_str())]));
            proof {
                let now = entries@;
                if p < prev.len() {
                    crate::text::lemma_text_total(prev[p as int].0@, noun@);
                }
                assert(places(before, noun@) =~= Set::<Seq<char>>::empty()) by {
                    if exists|x: Seq<char>| places(before, noun@).contains(x) {
                        let x = choose|x: Seq<char>| places(before, noun@).contains(x);
                        let r = choose|r: int|
                            0 <= r < before.len() && (#[trigger] before[r]).context_noun@ == noun@ && crate::text::opt_string(before[r].context) == Some(x);
                        assert(rows@[r] == before[r]);
                        let q = choose|q: int| 0 <= q < prev.len() && (#[trigger] prev[q]).0@ == rows@[r].context_noun@;
                        if q < p {
                            crate::text::lemma_text_lt_irreflexive(noun@);
                        } else if q > p {
                            crate::text::lemma_text_lt_transitive(noun@, prev[p as int].0@, prev[q].0@);
                            crate::text::lemma_text_lt_irreflexive(noun@);
                        }
                    }
                }
                Seq::<Seq<char>>::empty().lemma_push_to_set_commute(context@);
                assert(Seq::<Seq<char>>::empty().to_set() =~= Set::<Seq<char>>::empty());
                assert(seq![context@] == Seq::<Seq<char>>::empty().push(context@));
                assert forall|a: int, b: int| 0 <= a < b < now.len() implies text_lt(#[trigger] now[a].0@, #[trigger] now[b].0@) by {
                    if b < p {
                        assert(now[a] == prev[a] && now[b] == prev[b]);
                    } else if b == p {
                        assert(now[a] == prev[a]);
                    } else if a > p {
                        assert(now[a] == prev[a - 1] && now[b] == prev[b - 1]);
                    } else if a < p {
                        assert(now[a] == prev[a] && now[b] == prev[b - 1]);
                    } else {
                        assert(now[b] == prev[b - 1]);
                        if b - 1 > p {
                            crate::text::lemma_text_lt_transitive(noun@, prev[p as int].0@, prev[b - 1].0@);
                        }
                    }
                }
                assert forall|q: int| 0 <= q < now.len() implies lists_places(#[trigger] now[q].1@, after, now[q].0@) by {
                    if q < p {
                        assert(now[q] == prev[q]);
                        crate::text::lemma_text_lt_irreflexive(noun@);
                    } else if q > p {
                        assert(now[q] == prev[q - 1]);
                        if q - 1 > p {
                            crate::text::lemma_text_lt_transitive(noun@, prev[p as int].0@, prev[q - 1].0@);
                        }
                        crate::text::lemma_text_lt_irreflexive(noun@);
                    } else {
                        assert(now[q].1@.map_values(|c: String| c@) =~= seq![context@]);
                    }
                }
                assert forall|q: int| 0 <= q < now.len() implies (#[trigger] now[q]).1@.len() <= i + 1 by {
                    if q < p {
                        assert(now[q] == prev[q]);
                    } else if q > p {
                        assert(now[q] == prev[q - 1]);
                    }
                }
                assert forall|r: int|
                    0 <= r < i + 1 && (#[trigger] rows@[r]).context is Some implies exists|q: int|
                        0 <= q < now.len() && (#[trigger] now[q]).0@ == rows@[r].context_noun@ by {
                    if r < i {
                        let q = choose|q: int| 0 <= q < prev.len() && (#[trigger] prev[q]).0@ == rows@[r].context_noun@;
                        if q < p {
                            assert(now[q] == prev[q]);
                        } else {
                            assert(now[q + 1] == prev[q]);
                        }
                    } else {
                        assert(now[p as int].0@ == noun@);
                    }
                }
            }
        }
        i += 1;
    }
    assert(rows@.take(rows@.len() as int) == rows@);
    let mut out: Vec<(String, usize)> = Vec::new();
    let mut q: usize = 0;
    while q < entries.len()
        invariant
            q <= entries@.len(),
            out@.len() == q,
            forall|k: int| 0 <= k < q ==> (#[trigger] out@[k]).0@ == entries@[k].0@ && out@[k].1 == entries@[k].1@.len(),
        decreases entries.len() - q,
    {
        out.push((owned(entries[q].0.as_str()), entries[q].1.len()));
        q += 1;
    }
    proof {
        let v = tally_view(out@);
        assert forall|k: int| 0 <= k < v.len() implies places(rows@, (#[trigger] v[k]).0).finite() && v[k].1 == places(rows@, v[k].0).len() && v[k].1 > 0 by {
            let list = entries@[k].1@.map_values(|c: String| c@);
            assert(lists_places(entries@[k].1@, rows@, entries@[k].0@));
            list.unique_seq_to_set();
        }
        assert forall|r: int|
            0 <= r < rows@.len() && (#[trigger] rows@[r]).context is Some implies exists|k: int|
                0 <= k < v.len() && (#[trigger] v[k]).0 == rows@[r].context_noun@ by {
            let k = choose|k: int| 0 <= k < entries@.len() && (#[trigger] entries@[k]).0@ == rows@[r].context_noun@;
            assert(v[k].0 == entries@[k].0@);
        }
        assert forall|a: int, b: int| 0 <= a < b < v.len() implies text_lt(#[trigger] v[a].0, #[trigger] v[b].0) by {
            assert(text_lt(entries@[a].0@, entries@[b].0@));
        }
    }
    out
}

/// Renders totals: how much, of what, across how many places.
pub fn summary(rows: &[Row], styled: bool) -> (r: String)
    ensures
        exists|kinds: Seq<(Seq<char>, nat)>, places: Seq<(Seq<char>, nat)>|
            #![trigger summary_text(rows@.len(), kinds, places, styled)]
            kind_tally(kinds, rows@) && place_tally(places, rows@) && r@ == summary_text(
                rows@.len(),
                kinds,
                places,
                styled,
            ),
{
    let counts = tally_kinds(rows);
    let places = tally_places(rows);
    let mut parts: Vec<String> = vec![paint(Look::Bold, plural(rows.len(), "item").as_str(), styled)];
    let mut i: usize = 0;
    while i < counts.len()
        invariant
            i <= counts@.len(),
            parts@.map_values(|p: String| p@) == seq![painted(Look::Bold, plural_text(rows@.len(), "item"@), styled)]
                + tally_view(counts@).take(i as int).map_values(
                |e: (Seq<char>, nat)| painted(kind_look(e.0), plural_text(e.1, e.0), styled),
            ),
        decreases counts.len() - i,
    {
        let kind = counts[i].0.as_str();
        let ghost old_parts = parts@;
        let piece = paint(kind_style(kind), plural(counts[i].1, kind).as_str(), styled);
        let ghost e = tally_view(counts@)[i as int];
        assert(e == (counts@[i as int].0@, counts@[i as int].1 as nat));
        assert(piece@ == painted(kind_look(e.0), plural_text(e.1, e.0), styled));
        parts.push(piece);
        assert(parts@.map_values(|p: String| p@) =~= old_parts.map_values(|p: String| p@).push(piece@));
        assert(tally_view(counts@).take(i + 1) == tally_view(counts@).take(i as int).push(e));
        assert(tally_view(counts@).take(i + 1).map_values(
                |e: (Seq<char>, nat)| painted(kind_look(e.0), plural_text(e.1, e.0), styled),
            ) =~= tally_view(counts@).take(i as int).map_values(
                |e: (Seq<char>, nat)| painted(kind_look(e.0), plural_text(e.1, e.0), styled),
            ).push(piece@));
        assert(parts@.map_values(|p: String| p@) =~= seq![painted(Look::Bold, plural_text(rows@.len(), "item"@), styled)]
                + tally_view(counts@).take(i + 1).map_values(
                |e: (Seq<char>, nat)| painted(kind_look(e.0), plural_text(e.1, e.0), styled),
            ));
        i += 1;
    }
    assert(tally_view(counts@).take(counts@.len() as int) == tally_view(counts@));
    let ghost first = parts@.map_values(|p: String| p@);
    let mut j: usize = 0;
    while j < places.len()
        invariant
            j <= places@.len(),
            parts@.map_values(|p: String| p@) == first + tally_view(places@).take(j as int).map_values(
                |e: (Seq<char>, nat)| painted(Look::Magenta, plural_text(e.1, e.0), styled),
            ),
        decreases places.len() - j,
    {
        let ghost old_parts = parts@;
        let piece = paint(Look::Magenta, plural(places[j].1, places[j].0.as_str()).as_str(), styled);
        let ghost e = tally_view(places@)[j as int];
        assert(e == (places@[j as int].0@, places@[j as int].1 as nat));
        parts.push(piece);
        assert(parts@.map_values(|p: String| p@) =~= old_parts.map_values(|p: String| p@).push(piece@));
        assert(tally_view(places@).take(j + 1) == tally_view(places@).take(j as int).push(e));
        assert(tally_view(places@).take(j + 1).map_values(
                |e: (Seq<char>, nat)| painted(Look::Magenta, plural_text(e.1, e.0), styled),
            ) =~= tally_view(places@).take(j as int).map_values(
                |e: (Seq<char>, nat)| painted(Look::Magenta, plural_text(e.1, e.0), styled),
            ).push(piece@));
        assert(parts@.map_values(|p: String| p@) =~= first + tally_view(places@).take(j + 1).map_values(
                |e: (Seq<char>, nat)| painted(Look::Magenta, plural_text(e.1, e.0), styled),
            ));
        j += 1;
    }
    assert(tally_view(places@).take(places@.len() as int) == tally_view(places@));
    let r = crate::text::join_all(&parts, " · ");
    assert(r@ == summary_text(rows@.len(), tally_view(counts@), tally_view(places@), styled));
    r
}

/// The body of the report: under a heading per day, a line per row. A
/// heading is written when a row's day differs from the row before it, and
/// is set off by a blank line when it follows another day's rows.
pub open spec fn body_lines(rows: Seq<Row>, w: Widths, layout: Layout) -> Seq<char>
    decreases rows.len(),
{
    if rows.len() == 0 {
        seq![]
    } else {
        let i = rows.len() - 1;
        let prev_day = if i == 0 {
            seq![]
        } else {
            rows[i - 1].day@
        };
        body_lines(rows.drop_last(), w, layout) + (if rows[i].day@ != prev_day {
            (if prev_day.len() > 0 {
                "\n"@
            } else {
                seq![]
            }) + painted(Look::Bold, rows[i].day@, layout.styled) + "\n"@
        } else {
            seq![]
        }) + row_text(rows[i], w, layout) + "\n"@
    }
}

/// The whole report: a heading naming the window and how many items it
/// holds, then the rows grouped by day, a rule and the summary; or, for no
/// rows, a sentence that says so and no summary.
pub open spec fn report_text(rows: Seq<Row>, window: Seq<char>, layout: Layout, w: Widths, summary: Seq<char>) -> Seq<char> {
    let styled = layout.styled;
    let subtitle = if rows.len() == 0 {
        window
    } else {
        window + " · "@ + plural_text(rows.len(), "item"@)
    };
    let head = painted(Look::Bold, "Completed work"@, styled) + "\n"@ + painted(Look::Plain, subtitle, styled)
        + "\n"@ + "\n"@;
    if rows.len() == 0 {
        head + "Nothing was completed in this period.\n"@
    } else {
        head + body_lines(rows, w, layout) + "\n"@ + painted(
            Look::Plain,
            Seq::new(w.rule as nat, |k: int| '─'),
            styled,
        ) + "\n"@ + summary + "\n"@
    }
}

/// What composing a report of `rows` under the heading `window` gives: the
/// report text, its summary tallying the rows' kinds and places.
pub open spec fn composed(rows: Seq<Row>, window: Seq<char>, layout: Layout, r: Seq<char>) -> bool {
    exists|kinds: Seq<(Seq<char>, nat)>, places: Seq<(Seq<char>, nat)>|
        #![trigger summary_text(rows.len(), kinds, places, layout.styled)]
        kind_tally(kinds, rows) && place_tally(places, rows) && r == report_text(
            rows,
            window,
            layout,
            measured(rows, layout),
            summary_text(rows.len(), kinds, places, layout.styled),
        )
}

/// Renders the report: a heading, a block per day, and a summary.
pub fn render(rows: &[Row], range: &TimeRange, layout: Layout) -> (r: String)
    requires
        range.start.date.wf(),
        range.end.instant.second - 1 >= i64::MIN,
        (crate::time::Instant {
            second: (range.end.instant.second - 1) as i64,
            nanosecond: range.end.instant.nanosecond,
        }).representable(),
    ensures
        exists|last: Moment|
            #![trigger window_text(range.start, last)]
            last.wf() && last.zone == range.end.zone && last.instant.total() == range.end.instant.total() - 1_000_000_000
                && composed(rows@, window_text(range.start, last), layout, r@),
{
    let window = window_label(range);
    compose(rows, window.as_str(), layout)
}

/// Lays out a report under a heading naming its window: the heading and the
/// item count, a block per day, a rule and the summary.
#[verifier::rlimit(60)]
pub fn compose(rows: &[Row], window: &str, layout: Layout) -> (r: String)
    ensures
        composed(rows@, window@, layout, r@),
{
    let mut out = paint(Look::Bold, "Completed work", layout.styled);
    push_str(&mut out, "\n");
    let subtitle = if rows.len() == 0 {
        owned(window)
    } else {
        let mut t = owned(window);
        push_str(&mut t, " · ");
        push_str(&mut t, plural(rows.len(), "item").as_str());
        t
    };
    push_str(&mut out, paint(Look::Plain, subtitle.as_str(), layout.styled).as_str());
    push_str(&mut out, "\n");
    push_str(&mut out, "\n");
    let widths = measure(rows, &layout);
    if rows.len() == 0 {
        push_str(&mut out, "Nothing was completed in this period.\n");
        let ghost none: Seq<(Seq<char>, nat)> = seq![];
        assert(kind_tally(none, rows@) && place_tally(none, rows@));
        assert(out@ == report_text(rows@, window@, layout, widths, summary_text(rows@.len(), none, none, layout.styled)));
        return out;
    }
    let ghost top = out@;
    let mut current_day = String::new();
    let mut i: usize = 0;
    while i < rows.len()
        invariant
            i <= rows@.len(),
            widths == measured(rows@, layout),
            widths.kind <= usize::MAX,
            widths.reference <= usize::MAX,
            out@ == top + body_lines(rows@.take(i as int), widths, layout),
            current_day@ == if i == 0 {
                seq![]
            } else {
                rows@[i - 1].day@
            },
        decreases rows.len() - i,
    {
        let row = &rows[i];
        assert(rows@.take(i + 1).drop_last() == rows@.take(i as int));
        assert(rows@.take(i + 1).last() == rows@[i as int]);
        if i > 0 {
            assert(rows@.take(i + 1)[i - 1] == rows@[i - 1]);
        }
        if !same(row.day.as_str(), current_day.as_str()) {
            if !current_day.as_str().is_empty() {
                push_str(&mut out, "\n");
            }
            push_str(&mut out, paint(Look::Bold, row.day.as_str(), layout.styled).as_str());
            push_str(&mut out, "\n");
            current_day = owned(row.day.as_str());
        }
        push_str(&mut out, render_row(row, &widths, &layout).as_str());
        push_str(&mut out, "\n");
        i += 1;
    }
    assert(rows@.take(rows@.len() as int) == rows@);
    push_str(&mut out, "\n");
    let mut rule = String::new();
    let mut k: u128 = 0;
    while k < widths.rule
        invariant
            k <= widths.rule,
            rule@ == Seq::new(k as nat, |x: int| '─'),
        decreases widths.rule - k,
    {
        push_char(&mut rule, '─');
        assert(rule@ =~= Seq::new((k + 1) as nat, |x: int| '─'));
        k += 1;
    }
    push_str(&mut out, paint(Look::Plain, rule.as_str(), layout.styled).as_str());
    push_str(&mut out, "\n");
    let closing = summary(rows, layout.styled);
    let ghost (kinds, places) = choose|kinds: Seq<(Seq<char>, nat)>, places: Seq<(Seq<char>, nat)>|
        #![trigger summary_text(rows@.len(), kinds, places, layout.styled)]
        kind_tally(kinds, rows@) && place_tally(places, rows@) && closing@ == summary_text(
            rows@.len(),
            kinds,
            places,
            layout.styled,
        );
    push_str(&mut out, closing.as_str());
    push_str(&mut out, "\n");
    assert(out@ == report_text(rows@, window@, layout, widths, summary_text(rows@.len(), kinds, places, layout.styled)));
    out
}

} // verus!
