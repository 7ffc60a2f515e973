//! What a terminal shows of styled text: the characters left once colour
//! codes (CSI sequences) and hyperlink wrappers (OSC sequences) are taken
//! out. Styling is applied after layout, so the styled report shows exactly
//! the plain one.
use vstd::prelude::*;

use crate::render::terminal::{
    body_lines, cell, close_code, composed, display_width, kind_count, kind_look, kind_tally,
    lemma_kind_tally_unique, lemma_place_tally_unique, linked, measured, open_code, painted,
    place_tally, places, report_text, row_tail, row_text, row_title, shortened, spaces,
    summary_text, Look, Widths,
};
use crate::render::{plural_noun, plural_text, Layout, Row};
use crate::text::{all_digits, decimal, is_space, join, lemma_decimal_digits, opt_string, trim_end};

verus! {

/// A CSI sequence ends at its first byte in `@`..=`~`.
pub open spec fn is_final_byte(c: char) -> bool {
    '@' <= c && c <= '~'
}

/// How many characters of `t` a CSI sequence whose `ESC [` precedes `t`
/// still takes: up to and including its final byte, or all of `t`.
pub open spec fn csi_len(t: Seq<char>) -> nat
    decreases t.len(),
{
    if t.len() == 0 {
        0
    } else if is_final_byte(t[0]) {
        1
    } else {
        1 + csi_len(t.drop_first())
    }
}

/// How many characters of `t` an OSC sequence whose `ESC ]` precedes `t`
/// still takes: up to and including a BEL or an `ESC \`, or all of `t`.
pub open spec fn osc_len(t: Seq<char>) -> nat
    decreases t.len(),
{
    if t.len() == 0 {
        0
    } else if t[0] == '\x07' {
        1
    } else if t[0] == '\x1b' && t.len() >= 2 && t[1] == '\\' {
        2
    } else {
        1 + osc_len(t.drop_first())
    }
}

/// How many characters the escape sequence at the start of `s` takes, `s`
/// starting with `ESC`.
pub open spec fn escape_len(s: Seq<char>) -> nat {
    if s.len() >= 2 && s[1] == '[' {
        2 + csi_len(s.skip(2))
    } else if s.len() >= 2 && s[1] == ']' {
        2 + osc_len(s.skip(2))
    } else if s.len() >= 2 {
        2
    } else {
        1
    }
}

/// What a terminal shows of `s`: its characters, escape sequences left out.
pub open spec fn shown(s: Seq<char>) -> Seq<char>
    decreases s.len(),
{
    if s.len() == 0 {
        seq![]
    } else if s[0] != '\x1b' {
        seq![s[0]] + shown(s.drop_first())
    } else {
        let k = escape_len(s);
        if 1 <= k <= s.len() {
            shown(s.skip(k as int))
        } else {
            seq![]
        }
    }
}

/// Text that holds no escape character.
pub open spec fn clean(s: Seq<char>) -> bool {
    forall|i: int| 0 <= i < s.len() ==> s[i] != '\x1b'
}

/// A URL a hyperlink can carry: it cannot end the link early.
pub open spec fn link_safe(url: Seq<char>) -> bool {
    forall|i: int| 0 <= i < url.len() ==> url[i] != '\x1b' && url[i] != '\x07'
}

/// Clean text shows as itself, ahead of whatever follows it.
pub proof fn lemma_clean_shown(a: Seq<char>, t: Seq<char>)
    requires
        clean(a),
    ensures
        shown(a + t) == a + shown(t),
    decreases a.len(),
{
    if a.len() == 0 {
        assert(a + t =~= t);
        assert(a + shown(t) =~= shown(t));
    } else {
        let rest = a.drop_first();
        lemma_clean_shown(rest, t);
        assert((a + t)[0] == a[0]);
        assert((a + t).drop_first() =~= rest + t);
        assert(a + shown(t) =~= seq![a[0]] + (rest + shown(t)));
    }
}

proof fn lemma_csi_len(p: Seq<char>, f: char, t: Seq<char>)
    requires
        forall|i: int| 0 <= i < p.len() ==> !is_final_byte(#[trigger] p[i]),
        is_final_byte(f),
    ensures
        csi_len(p + seq![f] + t) == p.len() + 1,
    decreases p.len(),
{
    if p.len() == 0 {
        assert((p + seq![f] + t)[0] == f);
    } else {
        lemma_csi_len(p.drop_first(), f, t);
        assert((p + seq![f] + t)[0] == p[0]);
        assert((p + seq![f] + t).drop_first() =~= p.drop_first() + seq![f] + t);
    }
}

/// A complete CSI sequence shows nothing.
proof fn lemma_csi_shown(p: Seq<char>, f: char, t: Seq<char>)
    requires
        forall|i: int| 0 <= i < p.len() ==> !is_final_byte(#[trigger] p[i]),
        is_final_byte(f),
    ensures
        shown(seq!['\x1b', '['] + p + seq![f] + t) == shown(t),
{
    let s = seq!['\x1b', '['] + p + seq![f] + t;
    assert(s.skip(2) =~= p + seq![f] + t);
    lemma_csi_len(p, f, t);
    assert(s[0] == '\x1b' && s[1] == '[');
    assert(escape_len(s) == p.len() + 3);
    assert(s.skip(p.len() + 3int) =~= t);
}

proof fn lemma_osc_len(q: Seq<char>, t: Seq<char>)
    requires
        link_safe(q),
    ensures
        osc_len(q + seq!['\x1b', '\\'] + t) == q.len() + 2,
    decreases q.len(),
{
    let s = q + seq!['\x1b', '\\'] + t;
    if q.len() == 0 {
        assert(s[0] == '\x1b' && s[1] == '\\');
    } else {
        lemma_osc_len(q.drop_first(), t);
        assert(s[0] == q[0]);
        assert(s.drop_first() =~= q.drop_first() + seq!['\x1b', '\\'] + t);
    }
}

/// A complete OSC sequence, ended by `ESC \`, shows nothing.
proof fn lemma_osc_shown(q: Seq<char>, t: Seq<char>)
    requires
        link_safe(q),
    ensures
        shown(seq!['\x1b', ']'] + q + seq!['\x1b', '\\'] + t) == shown(t),
{
    let s = seq!['\x1b', ']'] + q + seq!['\x1b', '\\'] + t;
    assert(s.skip(2) =~= q + seq!['\x1b', '\\'] + t);
    lemma_osc_len(q, t);
    assert(s[0] == '\x1b' && s[1] == ']');
    assert(escape_len(s) == q.len() + 4);
    assert(s.skip(q.len() + 4int) =~= t);
}

/// The code that opens or closes a look shows nothing.
proof fn lemma_code_shown(code: Seq<char>, t: Seq<char>)
    requires
        code == seq!['\x1b', '[', '1', 'm'] || code == seq!['\x1b', '[', '0', 'm']
            || code == seq!['\x1b', '[', '3', '5', 'm'] || code == seq!['\x1b', '[', '3', '6', 'm']
            || code == seq!['\x1b', '[', '3', '2', 'm'] || code == seq!['\x1b', '[', '3', '3', 'm']
            || code.len() == 0,
    ensures
        shown(code + t) == shown(t),
{
    if code.len() == 0 {
        assert(code + t =~= t);
    } else {
        let p = code.subrange(2, code.len() - 1);
        assert(code + t =~= seq!['\x1b', '['] + p + seq!['m'] + t);
        lemma_csi_shown(p, 'm', t);
    }
}

proof fn lemma_codes(look: Look)
    ensures
        open_code(look) == seq!['\x1b', '[', '1', 'm'] || open_code(look) == seq!['\x1b', '[', '0', 'm']
            || open_code(look) == seq!['\x1b', '[', '3', '5', 'm'] || open_code(look) == seq![
            '\x1b',
            '[',
            '3',
            '6',
            'm',
        ] || open_code(look) == seq!['\x1b', '[', '3', '2', 'm'] || open_code(look) == seq![
            '\x1b',
            '[',
            '3',
            '3',
            'm',
        ] || open_code(look).len() == 0,
        close_code(look) == seq!['\x1b', '[', '0', 'm'] || close_code(look).len() == 0,
{
    reveal_strlit("\x1b[1m");
    reveal_strlit("\x1b[0m");
    reveal_strlit("\x1b[35m");
    reveal_strlit("\x1b[36m");
    reveal_strlit("\x1b[32m");
    reveal_strlit("\x1b[33m");
}

/// Painted clean text shows as the text itself.
pub proof fn lemma_painted_shown(look: Look, a: Seq<char>, t: Seq<char>)
    requires
        clean(a),
    ensures
        shown(painted(look, a, true) + t) == painted(look, a, false) + shown(t),
{
    lemma_codes(look);
    let (open, close) = (open_code(look), close_code(look));
    assert(painted(look, a, true) + t =~= open + (a + (close + t)));
    lemma_code_shown(open, a + (close + t));
    lemma_clean_shown(a, close + t);
    lemma_code_shown(close, t);
}

/// A hyperlink shows as its clean text.
pub proof fn lemma_linked_shown(url: Seq<char>, a: Seq<char>, t: Seq<char>)
    requires
        link_safe(url),
        clean(a),
    ensures
        shown(linked(url, a) + t) == a + shown(t),
{
    reveal_strlit("\x1b]8;;");
    reveal_strlit("\x1b\\");
    reveal_strlit("\x1b]8;;\x1b\\");
    let q = seq!['8', ';', ';'] + url;
    assert(link_safe(q)) by {
        assert forall|i: int| 0 <= i < q.len() implies q[i] != '\x1b' && q[i] != '\x07' by {
            if i >= 3 {
                assert(q[i] == url[i - 3]);
            }
        }
    }
    let closer = seq!['\x1b', ']'] + seq!['8', ';', ';'] + seq!['\x1b', '\\'] + t;
    assert(linked(url, a) + t =~= seq!['\x1b', ']'] + q + seq!['\x1b', '\\'] + (a + (seq![
        '\x1b',
        ']',
        '8',
        ';',
        ';',
        '\x1b',
        '\\',
    ] + t)));
    lemma_osc_shown(q, a + (seq!['\x1b', ']', '8', ';', ';', '\x1b', '\\'] + t));
    lemma_clean_shown(a, seq!['\x1b', ']', '8', ';', ';', '\x1b', '\\'] + t);
    assert(seq!['\x1b', ']', '8', ';', ';', '\x1b', '\\'] + t =~= closer);
    assert(link_safe(seq!['8', ';', ';']));
    lemma_osc_shown(seq!['8', ';', ';'], t);
}

/// Two clean texts make a clean text.
proof fn lemma_clean_concat(a: Seq<char>, b: Seq<char>)
    requires
        clean(a),
        clean(b),
    ensures
        clean(a + b),
{
    assert forall|i: int| 0 <= i < (a + b).len() implies (a + b)[i] != '\x1b' by {
        if i >= a.len() {
            assert((a + b)[i] == b[i - a.len()]);
        }
    }
}

/// A count and a clean noun make a clean phrase.
proof fn lemma_plural_clean(count: nat, noun: Seq<char>)
    requires
        clean(noun),
    ensures
        clean(plural_text(count, noun)),
{
    reveal_strlit(" ");
    reveal_strlit("ies");
    reveal_strlit("es");
    reveal_strlit("s");
    lemma_decimal_digits(count);
    assert(clean(decimal(count))) by {
        assert forall|i: int| 0 <= i < decimal(count).len() implies decimal(count)[i] != '\x1b' by {
            assert(all_digits(decimal(count)));
        }
    }
    let word = if count == 1 {
        noun
    } else {
        plural_noun(noun)
    };
    assert(clean(word)) by {
        if count != 1 {
            if noun.len() > 0 {
                assert(clean(noun.drop_last()));
                lemma_clean_concat(noun.drop_last(), "ies"@);
            }
            lemma_clean_concat(noun, "es"@);
            lemma_clean_concat(noun, "s"@);
        }
    }
    lemma_clean_concat(decimal(count), " "@);
    lemma_clean_concat(decimal(count) + " "@, word);
}

/// The layout with styling on.
pub open spec fn styled(layout: Layout) -> Layout {
    Layout { styled: true, ..layout }
}

/// The layout with styling off.
pub open spec fn unstyled(layout: Layout) -> Layout {
    Layout { styled: false, ..layout }
}

/// Text that ends in a character a terminal shows.
pub open spec fn ends_visibly(s: Seq<char>) -> bool {
    s.len() > 0 && !is_space(s.last())
}

/// A row whose texts hold no escape character, whose URL cannot end its
/// hyperlink early, and whose last column (the context, or the title when
/// there is none) ends in a character a terminal shows.
pub open spec fn plain_row(row: Row) -> bool {
    &&& clean(row.kind@)
    &&& clean(row.source@)
    &&& clean(row.reference@)
    &&& clean(row.title@)
    &&& clean(row.day@)
    &&& clean(row.context_noun@)
    &&& link_safe(row.url@)
    &&& match opt_string(row.context) {
        Some(c) => clean(c) && ends_visibly(c),
        None => ends_visibly(row.title@),
    }
}

proof fn lemma_fitting_bound(chars: Seq<char>, budget: int)
    ensures
        crate::render::terminal::fitting(chars, budget) <= chars.len(),
    decreases chars.len(),
{
    if chars.len() > 0 {
        lemma_fitting_bound(chars.drop_first(), budget - display_width(seq![chars[0]]));
    }
}

/// A shortened title stays clean, and ends visibly when the title does.
proof fn lemma_title_plain(row: Row, w: Widths)
    requires
        plain_row(row),
    ensures
        clean(row_title(row, w)),
        ends_visibly(row.title@) ==> ends_visibly(row_title(row, w)),
{
    let t = row.title@;
    if let Some(limit) = w.title {
        if display_width(t) > limit && limit > 1 {
            let k = crate::render::terminal::fitting(t, limit - 1) as int;
            lemma_fitting_bound(t, limit - 1);
            assert(clean(t.take(k))) by {
                assert forall|i: int| 0 <= i < t.take(k).len() implies t.take(k)[i] != '\x1b' by {
                    assert(t.take(k)[i] == t[i]);
                }
            }
            lemma_clean_concat(t.take(k), seq!['…']);
        }
    }
}

/// Clean text padded in its cell shows as it is.
proof fn lemma_cell_shown(look: Look, a: Seq<char>, a_width: nat, width: nat, t: Seq<char>)
    requires
        clean(a),
    ensures
        shown(cell(painted(look, a, true), a_width, width) + t) == cell(painted(look, a, false), a_width, width)
            + shown(t),
{
    let sp = spaces(if width > a_width { (width - a_width) as nat } else { 0 });
    assert(cell(painted(look, a, true), a_width, width) + t =~= painted(look, a, true) + (sp + t));
    lemma_painted_shown(look, a, sp + t);
    lemma_clean_shown(sp, t);
    assert(cell(painted(look, a, false), a_width, width) + shown(t) =~= a + (sp + shown(t)));
}

/// The end of a row shows as the plain one does.
#[verifier::rlimit(40)]
#[verifier::spinoff_prover]
proof fn lemma_tail_shown(row: Row, w: Widths, layout: Layout, t: Seq<char>)
    requires
        plain_row(row),
    ensures
        shown(row_tail(row, w, styled(layout)) + t) == row_tail(row, w, unstyled(layout)) + shown(t),
        ends_visibly(row_tail(row, w, styled(layout))),
        ends_visibly(row_tail(row, w, unstyled(layout))),
{
    reveal_strlit("  ");
    reveal_strlit("\x1b]8;;\x1b\\");
    reveal_strlit("\x1b[0m");
    let title = row_title(row, w);
    lemma_title_plain(row, w);
    let url = row.url@;
    match (row.context, w.title) {
        (None, _) => {
            lemma_linked_shown(url, title, t);
        },
        (Some(c), Some(limit)) => {
            let sp = spaces(if (limit + 2) as nat > display_width(title) {
                ((limit + 2) as nat - display_width(title)) as nat
            } else {
                0
            });
            let p = painted(Look::Magenta, c@, true);
            assert(row_tail(row, w, styled(layout)) + t =~= linked(url, title) + (sp + (p + t)));
            lemma_linked_shown(url, title, sp + (p + t));
            lemma_clean_shown(sp, p + t);
            lemma_painted_shown(Look::Magenta, c@, t);
            assert(row_tail(row, w, unstyled(layout)) + shown(t) =~= title + (sp + (c@ + shown(t))));
            assert(row_tail(row, w, unstyled(layout)).last() == c@.last());
        },
        (Some(c), None) => {
            let p = painted(Look::Magenta, c@, true);
            assert(row_tail(row, w, styled(layout)) + t =~= linked(url, title) + ("  "@ + (p + t)));
            lemma_linked_shown(url, title, "  "@ + (p + t));
            lemma_clean_shown("  "@, p + t);
            lemma_painted_shown(Look::Magenta, c@, t);
            assert(row_tail(row, w, unstyled(layout)) + shown(t) =~= title + ("  "@ + (c@ + shown(t))));
            assert(row_tail(row, w, unstyled(layout)).last() == c@.last());
        },
    }
}

/// A line that ends visibly loses nothing to trimming.
proof fn lemma_trim_end_visible(s: Seq<char>)
    requires
        ends_visibly(s),
    ensures
        trim_end(s) == s,
{
}

/// A row shows as the plain row does.
#[verifier::rlimit(40)]
#[verifier::spinoff_prover]
proof fn lemma_row_shown(row: Row, w: Widths, layout: Layout, t: Seq<char>)
    requires
        plain_row(row),
    ensures
        shown(row_text(row, w, styled(layout)) + t) == row_text(row, w, unstyled(layout)) + shown(t),
{
    reveal_strlit("  ");
    let (ls, lp) = (styled(layout), unstyled(layout));
    let kl = kind_look(row.kind@);
    let k_width = (w.kind + 2) as nat;
    let r_width = (w.reference + 2) as nat;
    let k_s = cell(painted(kl, row.kind@, true), display_width(row.kind@), k_width);
    let k_p = cell(painted(kl, row.kind@, false), display_width(row.kind@), k_width);
    let src = if layout.show_source {
        cell(row.source@, display_width(row.source@), w.source as nat)
    } else {
        seq![]
    };
    let r_s = cell(painted(Look::Magenta, row.reference@, true), display_width(row.reference@), r_width);
    let r_p = cell(painted(Look::Magenta, row.reference@, false), display_width(row.reference@), r_width);
    let tail_s = row_tail(row, w, ls);
    let tail_p = row_tail(row, w, lp);
    lemma_tail_shown(row, w, layout, t);
    let line_s = "  "@ + k_s + src + r_s + tail_s;
    let line_p = "  "@ + k_p + src + r_p + tail_p;
    assert(line_s.last() == tail_s.last());
    assert(line_p.last() == tail_p.last());
    lemma_trim_end_visible(line_s);
    lemma_trim_end_visible(line_p);
    assert(row_text(row, w, ls) == line_s);
    assert(row_text(row, w, lp) == line_p);
    assert(clean(src)) by {
        if layout.show_source {
            let n = w.source as nat;
            let d = display_width(row.source@);
            lemma_clean_concat(row.source@, spaces(if n > d { (n - d) as nat } else { 0 }));
        }
    }
    assert(line_s + t =~= "  "@ + (k_s + (src + (r_s + (tail_s + t)))));
    lemma_clean_shown("  "@, k_s + (src + (r_s + (tail_s + t))));
    lemma_cell_shown(kl, row.kind@, display_width(row.kind@), k_width, src + (r_s + (tail_s + t)));
    lemma_clean_shown(src, r_s + (tail_s + t));
    lemma_cell_shown(Look::Magenta, row.reference@, display_width(row.reference@), r_width, tail_s + t);
    assert(line_p + shown(t) =~= "  "@ + (k_p + (src + (r_p + (tail_p + shown(t))))));
}

/// What the body adds for a row: its day's heading when the day changes
/// (set off from an earlier day's rows), then the row's line.
pub open spec fn day_block(row: Row, prev_day: Seq<char>, w: Widths, layout: Layout) -> Seq<char> {
    (if row.day@ != prev_day {
        (if prev_day.len() > 0 {
            "\n"@
        } else {
            seq![]
        }) + painted(Look::Bold, row.day@, layout.styled) + "\n"@
    } else {
        seq![]
    }) + row_text(row, w, layout) + "\n"@
}

/// A row's block shows as the plain one does.
#[verifier::rlimit(40)]
#[verifier::spinoff_prover]
proof fn lemma_block_shown(row: Row, prev_day: Seq<char>, w: Widths, layout: Layout, t: Seq<char>)
    requires
        plain_row(row),
    ensures
        shown(day_block(row, prev_day, w, styled(layout)) + t) == day_block(row, prev_day, w, unstyled(layout))
            + shown(t),
{
    reveal_strlit("\n");
    let (ls, lp) = (styled(layout), unstyled(layout));
    let line_s = row_text(row, w, ls) + "\n"@;
    let line_p = row_text(row, w, lp) + "\n"@;
    lemma_row_shown(row, w, layout, "\n"@ + t);
    lemma_clean_shown("\n"@, t);
    assert(line_s + t =~= row_text(row, w, ls) + ("\n"@ + t));
    assert(line_p + shown(t) =~= row_text(row, w, lp) + ("\n"@ + shown(t)));
    assert(shown(line_s + t) == line_p + shown(t));
    if row.day@ != prev_day {
        let gap = if prev_day.len() > 0 {
            "\n"@
        } else {
            seq![]
        };
        let rest = "\n"@ + (line_s + t);
        assert(day_block(row, prev_day, w, ls) + t =~= gap + (painted(Look::Bold, row.day@, true) + rest));
        lemma_clean_shown(gap, painted(Look::Bold, row.day@, true) + rest);
        lemma_painted_shown(Look::Bold, row.day@, rest);
        lemma_clean_shown("\n"@, line_s + t);
        assert(day_block(row, prev_day, w, lp) + shown(t) =~= gap + (row.day@ + ("\n"@ + (line_p + shown(
            t,
        )))));
    } else {
        assert(day_block(row, prev_day, w, ls) + t =~= line_s + t);
        assert(day_block(row, prev_day, w, lp) =~= line_p);
    }
}

/// The body grows by one block per row.
proof fn lemma_body_step(rows: Seq<Row>, w: Widths, layout: Layout)
    requires
        rows.len() > 0,
    ensures
        body_lines(rows, w, layout) == body_lines(rows.drop_last(), w, layout) + day_block(
            rows.last(),
            if rows.len() == 1 {
                seq![]
            } else {
                rows[rows.len() - 2].day@
            },
            w,
            layout,
        ),
{
}

/// Rows grouped under their days show as the plain rows do.
#[verifier::rlimit(40)]
#[verifier::spinoff_prover]
proof fn lemma_body_shown(rows: Seq<Row>, w: Widths, layout: Layout, t: Seq<char>)
    requires
        forall|r: int| 0 <= r < rows.len() ==> plain_row(#[trigger] rows[r]),
    ensures
        shown(body_lines(rows, w, styled(layout)) + t) == body_lines(rows, w, unstyled(layout)) + shown(t),
    decreases rows.len(),
{
    let (ls, lp) = (styled(layout), unstyled(layout));
    if rows.len() == 0 {
        assert(body_lines(rows, w, ls) + t =~= t);
        assert(body_lines(rows, w, lp) + shown(t) =~= shown(t));
    } else {
        let prefix = rows.drop_last();
        let prev_day = if rows.len() == 1 {
            seq![]
        } else {
            rows[rows.len() - 2].day@
        };
        let row = rows.last();
        assert(plain_row(rows[rows.len() - 1]));
        let x_s = day_block(row, prev_day, w, ls);
        let x_p = day_block(row, prev_day, w, lp);
        lemma_body_step(rows, w, ls);
        lemma_body_step(rows, w, lp);
        assert forall|r: int| 0 <= r < prefix.len() implies plain_row(#[trigger] prefix[r]) by {
            assert(prefix[r] == rows[r]);
        }
        lemma_body_shown(prefix, w, layout, x_s + t);
        assert(body_lines(rows, w, ls) + t =~= body_lines(prefix, w, ls) + (x_s + t));
        lemma_block_shown(row, prev_day, w, layout, t);
        assert(body_lines(rows, w, lp) + shown(t) =~= body_lines(prefix, w, lp) + (x_p + shown(t)));
    }
}

/// Parts painted in their looks and joined by a clean separator show as the
/// plain parts joined.
#[verifier::rlimit(40)]
#[verifier::spinoff_prover]
proof fn lemma_join_shown(looks: Seq<Look>, parts: Seq<Seq<char>>, sep: Seq<char>, t: Seq<char>)
    requires
        looks.len() == parts.len(),
        clean(sep),
        forall|i: int| 0 <= i < parts.len() ==> clean(#[trigger] parts[i]),
    ensures
        shown(join(Seq::new(parts.len(), |i: int| painted(looks[i], parts[i], true)), sep) + t) == join(
            Seq::new(parts.len(), |i: int| painted(looks[i], parts[i], false)),
            sep,
        ) + shown(t),
    decreases parts.len(),
{
    let xs = Seq::new(parts.len(), |i: int| painted(looks[i], parts[i], true));
    let ys = Seq::new(parts.len(), |i: int| painted(looks[i], parts[i], false));
    if parts.len() == 0 {
        assert(join(xs, sep) + t =~= t);
        assert(join(ys, sep) + shown(t) =~= shown(t));
    } else if parts.len() == 1 {
        lemma_painted_shown(looks[0], parts[0], t);
    } else {
        let n = parts.len() - 1;
        let (lf, pf) = (looks.drop_last(), parts.drop_last());
        assert(xs.drop_last() =~= Seq::new(pf.len(), |i: int| painted(lf[i], pf[i], true)));
        assert(ys.drop_last() =~= Seq::new(pf.len(), |i: int| painted(lf[i], pf[i], false)));
        assert forall|i: int| 0 <= i < pf.len() implies clean(#[trigger] pf[i]) by {
            assert(pf[i] == parts[i]);
        }
        let last_t = sep + (xs.last() + t);
        lemma_join_shown(lf, pf, sep, last_t);
        assert(join(xs, sep) + t =~= join(xs.drop_last(), sep) + last_t);
        lemma_clean_shown(sep, xs.last() + t);
        assert(parts[n] == parts.last());
        lemma_painted_shown(looks[n], parts[n], t);
        assert(join(ys, sep) + shown(t) =~= join(ys.drop_last(), sep) + (sep + (ys.last() + shown(t))));
    }
}

/// The names a tally gives are those of the rows' kinds and places, so they
/// are as clean as the rows.
#[verifier::rlimit(40)]
#[verifier::spinoff_prover]
proof fn lemma_tally_names_clean(rows: Seq<Row>, kinds: Seq<(Seq<char>, nat)>, places_of: Seq<(Seq<char>, nat)>)
    requires
        forall|r: int| 0 <= r < rows.len() ==> plain_row(#[trigger] rows[r]),
        kind_tally(kinds, rows),
        place_tally(places_of, rows),
    ensures
        forall|i: int| 0 <= i < kinds.len() ==> clean((#[trigger] kinds[i]).0),
        forall|i: int| 0 <= i < places_of.len() ==> clean((#[trigger] places_of[i]).0),
{
    assert forall|i: int| 0 <= i < kinds.len() implies clean((#[trigger] kinds[i]).0) by {
        crate::render::terminal::lemma_count_positive_has_row(rows, kinds[i].0);
        let r = choose|r: int| 0 <= r < rows.len() && rows[r].kind@ == kinds[i].0;
        assert(plain_row(rows[r]));
    }
    assert forall|i: int| 0 <= i < places_of.len() implies clean((#[trigger] places_of[i]).0) by {
        let n = places_of[i].0;
        let set = places(rows, n);
        assert(set.len() > 0);
        if set =~= Set::<Seq<char>>::empty() {
            assert(set.len() == 0);
        }
        let c = choose|c: Seq<char>| set.contains(c);
        assert(set.contains(c));
        let r = choose|r: int|
            0 <= r < rows.len() && (#[trigger] rows[r]).context_noun@ == n && opt_string(rows[r].context) == Some(c);
        assert(plain_row(rows[r]));
    }
}

/// The looks the summary's parts are painted in.
pub open spec fn summary_looks(kinds: Seq<(Seq<char>, nat)>, places_of: Seq<(Seq<char>, nat)>) -> Seq<Look> {
    seq![Look::Bold] + kinds.map_values(|e: (Seq<char>, nat)| kind_look(e.0)) + places_of.map_values(
        |e: (Seq<char>, nat)| Look::Magenta,
    )
}

/// The summary's parts, unpainted.
pub open spec fn summary_parts(count: nat, kinds: Seq<(Seq<char>, nat)>, places_of: Seq<(Seq<char>, nat)>) -> Seq<
    Seq<char>,
> {
    seq![plural_text(count, "item"@)] + kinds.map_values(|e: (Seq<char>, nat)| plural_text(e.1, e.0))
        + places_of.map_values(|e: (Seq<char>, nat)| plural_text(e.1, e.0))
}

/// The summary is its parts, painted, joined.
#[verifier::rlimit(40)]
#[verifier::spinoff_prover]
proof fn lemma_summary_parts(count: nat, kinds: Seq<(Seq<char>, nat)>, places_of: Seq<(Seq<char>, nat)>, on: bool)
    ensures
        summary_text(count, kinds, places_of, on) == join(
            Seq::new(
                summary_parts(count, kinds, places_of).len(),
                |i: int| painted(summary_looks(kinds, places_of)[i], summary_parts(count, kinds, places_of)[i], on),
            ),
            " · "@,
        ),
{
    let looks = summary_looks(kinds, places_of);
    let parts = summary_parts(count, kinds, places_of);
    let painted_parts = seq![painted(Look::Bold, plural_text(count, "item"@), on)] + kinds.map_values(
        |e: (Seq<char>, nat)| painted(kind_look(e.0), plural_text(e.1, e.0), on),
    ) + places_of.map_values(|e: (Seq<char>, nat)| painted(Look::Magenta, plural_text(e.1, e.0), on));
    let k = kinds.len() as int;
    assert forall|i: int| 0 <= i < parts.len() implies #[trigger] painted_parts[i] == painted(looks[i], parts[i], on) by {
        if 1 <= i < 1 + k {
            assert(looks[i] == kind_look(kinds[i - 1].0));
            assert(parts[i] == plural_text(kinds[i - 1].1, kinds[i - 1].0));
        } else if i >= 1 + k {
            assert(looks[i] == Look::Magenta);
            assert(parts[i] == plural_text(places_of[i - 1 - k].1, places_of[i - 1 - k].0));
        }
    }
    assert(painted_parts =~= Seq::new(parts.len(), |i: int| painted(looks[i], parts[i], on)));
}

/// The summary shows as the plain one does.
#[verifier::rlimit(40)]
#[verifier::spinoff_prover]
proof fn lemma_summary_shown(count: nat, kinds: Seq<(Seq<char>, nat)>, places_of: Seq<(Seq<char>, nat)>, t: Seq<char>)
    requires
        forall|i: int| 0 <= i < kinds.len() ==> clean((#[trigger] kinds[i]).0),
        forall|i: int| 0 <= i < places_of.len() ==> clean((#[trigger] places_of[i]).0),
    ensures
        shown(summary_text(count, kinds, places_of, true) + t) == summary_text(count, kinds, places_of, false)
            + shown(t),
{
    reveal_strlit("item");
    reveal_strlit(" · ");
    let looks = summary_looks(kinds, places_of);
    let parts = summary_parts(count, kinds, places_of);
    let k = kinds.len() as int;
    assert(clean("item"@));
    assert forall|i: int| 0 <= i < parts.len() implies clean(#[trigger] parts[i]) by {
        if i == 0 {
            lemma_plural_clean(count, "item"@);
        } else if i < 1 + k {
            assert(parts[i] == plural_text(kinds[i - 1].1, kinds[i - 1].0));
            lemma_plural_clean(kinds[i - 1].1, kinds[i - 1].0);
        } else {
            assert(parts[i] == plural_text(places_of[i - 1 - k].1, places_of[i - 1 - k].0));
            lemma_plural_clean(places_of[i - 1 - k].1, places_of[i - 1 - k].0);
        }
    }
    assert(clean(" · "@));
    lemma_summary_parts(count, kinds, places_of, true);
    lemma_summary_parts(count, kinds, places_of, false);
    lemma_join_shown(looks, parts, " · "@, t);
}

/// What follows a report's heading: the body, rule and summary, or the
/// sentence that says there is nothing.
pub open spec fn report_rest(rows: Seq<Row>, layout: Layout, w: Widths, summary: Seq<char>) -> Seq<char> {
    if rows.len() == 0 {
        "Nothing was completed in this period.\n"@
    } else {
        body_lines(rows, w, layout) + ("\n"@ + (painted(
            Look::Plain,
            Seq::new(w.rule as nat, |k: int| '─'),
            layout.styled,
        ) + ("\n"@ + (summary + "\n"@))))
    }
}

/// What follows the heading shows as the plain one does.
#[verifier::rlimit(40)]
#[verifier::spinoff_prover]
proof fn lemma_rest_shown(
    rows: Seq<Row>,
    layout: Layout,
    w: Widths,
    kinds: Seq<(Seq<char>, nat)>,
    places_of: Seq<(Seq<char>, nat)>,
)
    requires
        forall|r: int| 0 <= r < rows.len() ==> plain_row(#[trigger] rows[r]),
        kind_tally(kinds, rows),
        place_tally(places_of, rows),
    ensures
        shown(report_rest(rows, styled(layout), w, summary_text(rows.len(), kinds, places_of, true))) == report_rest(
            rows,
            unstyled(layout),
            w,
            summary_text(rows.len(), kinds, places_of, false),
        ),
{
    reveal_strlit("\n");
    reveal_strlit("Nothing was completed in this period.\n");
    let nl = "\n"@;
    let empty = Seq::<char>::empty();
    assert(clean(nl));
    if rows.len() == 0 {
        let nothing = "Nothing was completed in this period.\n"@;
        assert(clean(nothing));
        lemma_clean_shown(nothing, empty);
        assert(nothing + empty =~= nothing);
    } else {
        let sum_s = summary_text(rows.len(), kinds, places_of, true);
        let rule = Seq::new(w.rule as nat, |k: int| '─');
        lemma_tally_names_clean(rows, kinds, places_of);
        lemma_clean_shown(nl, empty);
        assert(nl + empty =~= nl);
        lemma_summary_shown(rows.len(), kinds, places_of, nl);
        lemma_clean_shown(nl, sum_s + nl);
        lemma_painted_shown(Look::Plain, rule, nl + (sum_s + nl));
        lemma_clean_shown(nl, painted(Look::Plain, rule, true) + (nl + (sum_s + nl)));
        lemma_body_shown(rows, w, layout, nl + (painted(Look::Plain, rule, true) + (nl + (sum_s + nl))));
    }
}

/// The report's subtitle: the window, then how many items it holds.
pub open spec fn subtitle_text(count: nat, window: Seq<char>) -> Seq<char> {
    if count == 0 {
        window
    } else {
        window + " · "@ + plural_text(count, "item"@)
    }
}

proof fn lemma_subtitle_clean(count: nat, window: Seq<char>)
    requires
        clean(window),
    ensures
        clean(subtitle_text(count, window)),
{
    reveal_strlit(" · ");
    reveal_strlit("item");
    if count > 0 {
        assert(clean("item"@));
        assert(clean(" · "@));
        lemma_plural_clean(count, "item"@);
        lemma_clean_concat(window, " · "@);
        lemma_clean_concat(window + " · "@, plural_text(count, "item"@));
    }
}

/// A report is its heading, then what follows it.
#[verifier::rlimit(40)]
#[verifier::spinoff_prover]
proof fn lemma_report_parts(rows: Seq<Row>, window: Seq<char>, layout: Layout, w: Widths, summary: Seq<char>)
    ensures
        report_text(rows, window, layout, w, summary) == painted(Look::Bold, "Completed work"@, layout.styled) + (
        "\n"@ + (painted(Look::Plain, subtitle_text(rows.len(), window), layout.styled) + ("\n"@ + ("\n"@
            + report_rest(rows, layout, w, summary))))),
{
    assert(report_text(rows, window, layout, w, summary) =~= painted(
        Look::Bold,
        "Completed work"@,
        layout.styled,
    ) + ("\n"@ + (painted(Look::Plain, subtitle_text(rows.len(), window), layout.styled) + ("\n"@ + ("\n"@
        + report_rest(rows, layout, w, summary))))));
}

/// Styling never changes what a report shows: with its colour codes and
/// hyperlink wrappers taken out, the styled report is the plain one, line
/// for line and column for column. This holds of rows whose texts hold no
/// escape character, whose URLs cannot end a hyperlink early, and whose last
/// column ends in a character a terminal shows (trailing blanks are trimmed
/// from a plain line, but not from behind a closing style code).
#[verifier::rlimit(40)]
#[verifier::spinoff_prover]
pub proof fn lemma_styling_keeps_the_visible_report(
    rows: Seq<Row>,
    window: Seq<char>,
    layout: Layout,
    w: Widths,
    kinds: Seq<(Seq<char>, nat)>,
    places_of: Seq<(Seq<char>, nat)>,
)
    requires
        forall|r: int| 0 <= r < rows.len() ==> plain_row(#[trigger] rows[r]),
        clean(window),
        kind_tally(kinds, rows),
        place_tally(places_of, rows),
    ensures
        shown(report_text(rows, window, styled(layout), w, summary_text(rows.len(), kinds, places_of, true)))
            == report_text(rows, window, unstyled(layout), w, summary_text(rows.len(), kinds, places_of, false)),
{
    reveal_strlit("Completed work");
    reveal_strlit("\n");
    let nl = "\n"@;
    let title = "Completed work"@;
    assert(clean(nl));
    assert(clean(title));
    let subtitle = subtitle_text(rows.len(), window);
    lemma_subtitle_clean(rows.len(), window);
    let (ls, lp) = (styled(layout), unstyled(layout));
    let sum_s = summary_text(rows.len(), kinds, places_of, true);
    let sum_p = summary_text(rows.len(), kinds, places_of, false);
    let rest_s = report_rest(rows, ls, w, sum_s);
    lemma_rest_shown(rows, layout, w, kinds, places_of);
    lemma_report_parts(rows, window, ls, w, sum_s);
    lemma_report_parts(rows, window, lp, w, sum_p);
    lemma_clean_shown(nl, rest_s);
    lemma_clean_shown(nl, nl + rest_s);
    lemma_painted_shown(Look::Plain, subtitle, nl + (nl + rest_s));
    lemma_clean_shown(nl, painted(Look::Plain, subtitle, true) + (nl + (nl + rest_s)));
    lemma_painted_shown(Look::Bold, title, nl + (painted(Look::Plain, subtitle, true) + (nl + (nl + rest_s))));
}

/// Styling never changes what a composed report shows: of two reports
/// composed from the same rows under the same heading, one styled and one
/// plain, the styled one with its colour codes and hyperlink wrappers taken
/// out is the plain one. It holds of the rows and headings the report law
/// above holds of.
pub proof fn lemma_styling_keeps_the_composed_report(
    rows: Seq<Row>,
    window: Seq<char>,
    layout: Layout,
    with_style: Seq<char>,
    without_style: Seq<char>,
)
    requires
        forall|r: int| 0 <= r < rows.len() ==> plain_row(#[trigger] rows[r]),
        clean(window),
        composed(rows, window, styled(layout), with_style),
        composed(rows, window, unstyled(layout), without_style),
    ensures
        shown(with_style) == without_style,
{
    let (k1, p1) = choose|kinds: Seq<(Seq<char>, nat)>, places: Seq<(Seq<char>, nat)>|
        #![trigger summary_text(rows.len(), kinds, places, true)]
        kind_tally(kinds, rows) && place_tally(places, rows) && with_style == report_text(
            rows,
            window,
            styled(layout),
            measured(rows, styled(layout)),
            summary_text(rows.len(), kinds, places, true),
        );
    let (k2, p2) = choose|kinds: Seq<(Seq<char>, nat)>, places: Seq<(Seq<char>, nat)>|
        #![trigger summary_text(rows.len(), kinds, places, false)]
        kind_tally(kinds, rows) && place_tally(places, rows) && without_style == report_text(
            rows,
            window,
            unstyled(layout),
            measured(rows, unstyled(layout)),
            summary_text(rows.len(), kinds, places, false),
        );
    lemma_kind_tally_unique(k1, k2, rows);
    lemma_place_tally_unique(p1, p2, rows);
    assert(measured(rows, styled(layout)) == measured(rows, unstyled(layout)));
    lemma_styling_keeps_the_visible_report(rows, window, layout, measured(rows, styled(layout)), k1, p1);
}

} // verus!
