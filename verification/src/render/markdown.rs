//! Markdown table output, for pasting into issue trackers and wikis.
//!
//! Never styled: the output is meant to survive a copy-paste intact.
use vstd::prelude::*;

use super::Row;
use crate::text::{join, join_all, owned, push_str, replace, replace_char};

verus! {

/// A cell's text with the characters that would break a table cell
/// escaped: backslashes and pipes gain a backslash, and line breaks become
/// spaces.
pub open spec fn escaped(text: Seq<char>) -> Seq<char> {
    replace(replace(replace(text, '\\', "\\\\"@), '|', "\\|"@), '\n', " "@)
}

/// The item cell: the reference and title as a link to the item, then where
/// it lives.
pub open spec fn item_text(row: Row) -> Seq<char> {
    let label = if row.reference@.len() == 0 {
        row.title@
    } else {
        row.reference@ + " "@ + row.title@
    };
    let link = "["@ + escaped(label) + "]("@ + row.url@ + ")"@;
    match row.context {
        Some(c) => link + " — "@ + escaped(c@),
        None => link,
    }
}

/// One table line.
pub open spec fn line_text(cells: Seq<Seq<char>>) -> Seq<char> {
    "| "@ + join(cells, " | "@) + " |\n"@
}

/// The cells of a row.
pub open spec fn row_cells(row: Row, show_source: bool) -> Seq<Seq<char>> {
    seq![row.date@] + (if show_source { seq![escaped(row.source@)] } else { seq![] }) + seq![
        escaped(row.kind@),
        item_text(row),
    ]
}

/// The lines of the rows, in order.
pub open spec fn body_text(rows: Seq<Row>, show_source: bool) -> Seq<char>
    decreases rows.len(),
{
    if rows.len() == 0 {
        seq![]
    } else {
        body_text(rows.drop_last(), show_source) + line_text(row_cells(rows.last(), show_source))
    }
}

/// The table: nothing for no rows; else a header, its separator, and a line
/// per row.
pub open spec fn table_text(rows: Seq<Row>, show_source: bool) -> Seq<char> {
    if rows.len() == 0 {
        seq![]
    } else {
        let headers = seq!["Date"@] + (if show_source { seq!["Source"@] } else { seq![] }) + seq![
            "Type"@,
            "Item"@,
        ];
        line_text(headers) + line_text(Seq::new(headers.len(), |i: int| "---"@)) + body_text(rows, show_source)
    }
}

/// Replacing a character by one other character keeps every position and
/// changes just the replaced ones.
proof fn lemma_replace_by_one(s: Seq<char>, from: char, to: char)
    ensures
        replace(s, from, seq![to]).len() == s.len(),
        forall|i: int| 0 <= i < s.len() ==> #[trigger] replace(s, from, seq![to])[i] == if s[i] == from {
            to
        } else {
            s[i]
        },
    decreases s.len(),
{
    if s.len() > 0 {
        lemma_replace_by_one(s.drop_last(), from, to);
        let r = replace(s, from, seq![to]);
        assert forall|i: int| 0 <= i < s.len() implies #[trigger] r[i] == if s[i] == from { to } else { s[i] } by {
            if i < s.len() - 1 {
                assert(s.drop_last()[i] == s[i]);
            }
        }
    }
}

/// Whether every pipe in a text follows a backslash.
pub open spec fn pipes_escaped(t: Seq<char>) -> bool {
    forall|i: int| 0 <= i < t.len() && #[trigger] t[i] == '|' ==> i > 0 && t[i - 1] == '\\'
}

/// Putting a backslash before each pipe leaves no pipe without one.
proof fn lemma_pipes_gain_a_backslash(s: Seq<char>)
    ensures
        pipes_escaped(replace(s, '|', seq!['\\', '|'])),
    decreases s.len(),
{
    if s.len() > 0 {
        lemma_pipes_gain_a_backslash(s.drop_last());
        let before = replace(s.drop_last(), '|', seq!['\\', '|']);
        let r = replace(s, '|', seq!['\\', '|']);
        assert forall|i: int| 0 <= i < r.len() && #[trigger] r[i] == '|' implies i > 0 && r[i - 1] == '\\' by {
            if i < before.len() {
                assert(r[i] == before[i]);
                assert(r[i - 1] == before[i - 1]);
            }
        }
    }
}

/// An escaped cell cannot break its table: it holds no line break, and each
/// pipe in it follows a backslash.
pub proof fn lemma_escaped_cells_stay_in_their_cell(text: Seq<char>)
    ensures
        forall|i: int| 0 <= i < escaped(text).len() ==> escaped(text)[i] != '\n',
        pipes_escaped(escaped(text)),
{
    reveal_strlit("\\\\");
    reveal_strlit("\\|");
    reveal_strlit(" ");
    let piped = replace(replace(text, '\\', "\\\\"@), '|', "\\|"@);
    assert("\\|"@ =~= seq!['\\', '|']);
    assert(" "@ =~= seq![' ']);
    lemma_pipes_gain_a_backslash(replace(text, '\\', "\\\\"@));
    lemma_replace_by_one(piped, '\n', ' ');
    let r = escaped(text);
    assert forall|i: int| 0 <= i < r.len() && #[trigger] r[i] == '|' implies i > 0 && r[i - 1] == '\\' by {
        assert(r[i] == if piped[i] == '\n' { ' ' } else { piped[i] });
        assert(piped[i] == '|');
        assert(r[i - 1] == if piped[i - 1] == '\n' { ' ' } else { piped[i - 1] });
    }
}

/// Where an item lives only ever follows its link: a row with a context
/// gets the same link as the row without one, then ` — ` and the escaped
/// context.
pub proof fn lemma_the_context_follows_the_link(row: Row)
    ensures
        row.context matches Some(c) ==> item_text(row) == item_text(Row { context: None, ..row }) + " — "@
            + escaped(c@),
        item_text(Row { context: None, ..row }).len() > 0,
        item_text(Row { context: None, ..row })[0] == '[',
{
    reveal_strlit("[");
}

proof fn lemma_join_push(parts: Seq<Seq<char>>, p: Seq<char>, sep: Seq<char>)
    requires
        parts.len() > 0,
    ensures
        join(parts.push(p), sep) == join(parts, sep) + sep + p,
{
    assert(parts.push(p).drop_last() =~= parts);
}

/// The line of a row: its cells in the order the header names them.
proof fn lemma_row_line(row: Row, show_source: bool)
    ensures
        line_text(row_cells(row, show_source)) =~= "| "@ + row.date@ + (if show_source {
            " | "@ + escaped(row.source@)
        } else {
            seq![]
        }) + " | "@ + escaped(row.kind@) + " | "@ + item_text(row) + " |\n"@,
{
    let sep = " | "@;
    let c0 = seq![row.date@];
    assert(join(c0, sep) == row.date@);
    let c1 = if show_source { c0.push(escaped(row.source@)) } else { c0 };
    if show_source {
        lemma_join_push(c0, escaped(row.source@), sep);
    }
    let c2 = c1.push(escaped(row.kind@));
    lemma_join_push(c1, escaped(row.kind@), sep);
    let c3 = c2.push(item_text(row));
    lemma_join_push(c2, item_text(row), sep);
    assert(row_cells(row, show_source) =~= c3);
}

/// The header line and its separator.
proof fn lemma_header_lines(show_source: bool)
    ensures
        ({
            let headers = seq!["Date"@] + (if show_source { seq!["Source"@] } else { seq![] }) + seq![
                "Type"@,
                "Item"@,
            ];
            line_text(headers) + line_text(Seq::new(headers.len(), |i: int| "---"@))
        }) == if show_source {
            "| Date | Source | Type | Item |\n| --- | --- | --- | --- |\n"@
        } else {
            "| Date | Type | Item |\n| --- | --- | --- |\n"@
        },
{
    reveal_strlit("| ");
    reveal_strlit(" | ");
    reveal_strlit(" |\n");
    reveal_strlit("Date");
    reveal_strlit("Source");
    reveal_strlit("Type");
    reveal_strlit("Item");
    reveal_strlit("---");
    reveal_strlit("| Date | Source | Type | Item |\n| --- | --- | --- | --- |\n");
    reveal_strlit("| Date | Type | Item |\n| --- | --- | --- |\n");
    let sep = " | "@;
    let h0 = seq!["Date"@];
    let d0 = seq!["---"@];
    assert(join(h0, sep) == "Date"@);
    assert(join(d0, sep) == "---"@);
    let h1 = if show_source { h0.push("Source"@) } else { h0 };
    let d1 = if show_source { d0.push("---"@) } else { d0 };
    if show_source {
        lemma_join_push(h0, "Source"@, sep);
        lemma_join_push(d0, "---"@, sep);
    }
    lemma_join_push(h1, "Type"@, sep);
    lemma_join_push(d1, "---"@, sep);
    lemma_join_push(h1.push("Type"@), "Item"@, sep);
    lemma_join_push(d1.push("---"@), "---"@, sep);
    let headers = seq!["Date"@] + (if show_source { seq!["Source"@] } else { seq![] }) + seq!["Type"@, "Item"@];
    assert(headers =~= h1.push("Type"@).push("Item"@));
    assert(Seq::new(headers.len(), |i: int| "---"@) =~= d1.push("---"@).push("---"@));
    let got = line_text(headers) + line_text(Seq::new(headers.len(), |i: int| "---"@));
    if show_source {
        assert(got =~= "| Date | Source | Type | Item |\n| --- | --- | --- | --- |\n"@);
    } else {
        assert(got =~= "| Date | Type | Item |\n| --- | --- | --- |\n"@);
    }
}

/// Each row's line sits under the header: a table opens with the header
/// line `Date`, `Source` (when sources are shown), `Type`, `Item` and its
/// separator, and each further row adds one line whose cells are, in that
/// order, the row's date, source, kind and item.
#[verifier::spinoff_prover]
pub proof fn lemma_cells_sit_under_their_headers(rows: Seq<Row>, row: Row, show_source: bool)
    ensures
        table_text(seq![row], show_source) == (if show_source {
            "| Date | Source | Type | Item |\n| --- | --- | --- | --- |\n"@
        } else {
            "| Date | Type | Item |\n| --- | --- | --- |\n"@
        }) + ("| "@ + row.date@ + (if show_source {
            " | "@ + escaped(row.source@)
        } else {
            seq![]
        }) + " | "@ + escaped(row.kind@) + " | "@ + item_text(row) + " |\n"@),
        rows.len() > 0 ==> table_text(rows.push(row), show_source) == table_text(rows, show_source) + ("| "@
            + row.date@ + (if show_source {
            " | "@ + escaped(row.source@)
        } else {
            seq![]
        }) + " | "@ + escaped(row.kind@) + " | "@ + item_text(row) + " |\n"@),
{
    lemma_row_line(row, show_source);
    lemma_header_lines(show_source);
    let line = line_text(row_cells(row, show_source));
    let one = seq![row];
    assert(one.drop_last() =~= Seq::<Row>::empty());
    assert(body_text(Seq::<Row>::empty(), show_source) == Seq::<char>::empty());
    assert(one.last() == row);
    assert(body_text(one, show_source) =~= line);
    if rows.len() > 0 {
        assert(rows.push(row).drop_last() =~= rows);
        assert(rows.push(row).last() == row);
        assert(body_text(rows.push(row), show_source) == body_text(rows, show_source) + line);
        let headers = seq!["Date"@] + (if show_source { seq!["Source"@] } else { seq![] }) + seq![
            "Type"@,
            "Item"@,
        ];
        let top = line_text(headers) + line_text(Seq::new(headers.len(), |i: int| "---"@));
        assert(table_text(rows, show_source) == top + body_text(rows, show_source));
        assert(table_text(rows.push(row), show_source) =~= table_text(rows, show_source) + line);
    }
}

/// Escapes the characters that would otherwise break a table cell.
pub fn escape(text: &str) -> (r: String)
    ensures
        r@ == escaped(text@),
{
    let a = replace_char(text, '\\', "\\\\");
    let b = replace_char(a.as_str(), '|', "\\|");
    replace_char(b.as_str(), '\n', " ")
}

/// The item cell of a row.
pub fn item_cell(row: &Row) -> (r: String)
    ensures
        r@ == item_text(*row),
{
    let label = if row.reference.as_str().is_empty() {
        owned(row.title.as_str())
    } else {
        let mut l = owned(row.reference.as_str());
        push_str(&mut l, " ");
        push_str(&mut l, row.title.as_str());
        l
    };
    let mut link = owned("[");
    push_str(&mut link, escape(label.as_str()).as_str());
    push_str(&mut link, "](");
    push_str(&mut link, row.url.as_str());
    push_str(&mut link, ")");
    match &row.context {
        Some(context) => {
            push_str(&mut link, " — ");
            push_str(&mut link, escape(context.as_str()).as_str());
            link
        },
        None => link,
    }
}

/// Appends one table line.
fn push_line(out: &mut String, cells: &Vec<String>)
    ensures
        final(out)@ == old(out)@ + line_text(cells@.map_values(|p: String| p@)),
{
    push_str(out, "| ");
    push_str(out, join_all(cells, " | ").as_str());
    push_str(out, " |\n");
}

/// Renders rows as a GitHub-flavoured markdown table with inline links.
pub fn render(rows: &[Row], show_source: bool) -> (r: String)
    ensures
        r@ == table_text(rows@, show_source),
{
    if rows.len() == 0 {
        return String::new();
    }
    let mut headers: Vec<String> = vec![owned("Date")];
    if show_source {
        headers.push(owned("Source"));
    }
    headers.push(owned("Type"));
    headers.push(owned("Item"));
    let mut rule: Vec<String> = Vec::new();
    let mut k: usize = 0;
    while k < headers.len()
        invariant
            k <= headers@.len(),
            rule@.len() == k,
            forall|j: int| 0 <= j < k ==> (#[trigger] rule@[j])@ == "---"@,
        decreases headers.len() - k,
    {
        rule.push(owned("---"));
        k += 1;
    }
    let ghost header_texts = seq!["Date"@] + (if show_source { seq!["Source"@] } else { seq![] }) + seq![
        "Type"@,
        "Item"@,
    ];
    assert(headers@.map_values(|p: String| p@) =~= header_texts);
    assert(rule@.map_values(|p: String| p@) =~= Seq::new(header_texts.len(), |i: int| "---"@));
    let mut out = String::new();
    push_line(&mut out, &headers);
    push_line(&mut out, &rule);
    let ghost top = out@;
    let mut i: usize = 0;
    while i < rows.len()
        invariant
            i <= rows@.len(),
            out@ == top + body_text(rows@.take(i as int), show_source),
        decreases rows.len() - i,
    {
        assert(rows@.take(i + 1).drop_last() == rows@.take(i as int));
        assert(rows@.take(i + 1).last() == rows@[i as int]);
        let row = &rows[i];
        let mut cells: Vec<String> = vec![owned(row.date.as_str())];
        if show_source {
            cells.push(escape(row.source.as_str()));
        }
        cells.push(escape(row.kind.as_str()));
        cells.push(item_cell(row));
        assert(cells@.map_values(|p: String| p@) =~= row_cells(*row, show_source));
        push_line(&mut out, &cells);
        i += 1;
    }
    assert(rows@.take(rows@.len() as int) == rows@);
    out
}

} // verus!
