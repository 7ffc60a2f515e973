use fin::source::{collect, Fetch};
use fin::render::terminal_width;
use fin::render::should_style;
use fin::config::Format;
use fin::item::{Item, Kind, SourceId};
use fin::period::{self, DayName, Period, TimeRange};
use fin::render::terminal::{self, window_label, Look};
use fin::render::{
    capitalize, context_noun, day_label, kind_label, markdown, plural, rows, short_date,
    source_label, Layout,
};
use fin::time::Moment;
use unicode_width::UnicodeWidthStr;

fn sample() -> Vec<Item> {
    vec![
        Item {
            completed_at: Moment::parse("2026-09-14T11:15:00+02:00[Europe/Oslo]").unwrap(),
            source: SourceId::new("github"),
            kind: Kind::new("pr"),
            reference: Some("#12".into()),
            title: "Add retries to the upload path".into(),
            url: "https://github.com/o/r/pull/12".into(),
            context: Some("o/r".into()),
        },
        Item {
            completed_at: Moment::parse("2026-09-14T14:00:00+02:00[Europe/Oslo]").unwrap(),
            source: SourceId::new("github"),
            kind: Kind::new("issue"),
            reference: Some("#7".into()),
            title: "Flaky integration test".into(),
            url: "https://github.com/o/r/issues/7".into(),
            context: Some("o/r".into()),
        },
        Item {
            completed_at: Moment::parse("2026-09-15T09:30:00+02:00[Europe/Oslo]").unwrap(),
            source: SourceId::new("github"),
            kind: Kind::new("pr"),
            reference: Some("#13".into()),
            title: "Drop the | separator".into(),
            url: "https://github.com/other/repo/pull/13".into(),
            context: Some("other/repo".into()),
        },
    ]
}

fn range() -> TimeRange {
    let now = Moment::parse("2026-09-15T14:30:00+02:00[Europe/Oslo]").unwrap();
    period::resolve(&now, Period::Week, DayName::Mon, false).unwrap()
}

fn plain() -> Layout {
    Layout { show_source: false, styled: false, width: Some(80) }
}

fn styled() -> Layout {
    Layout { styled: true, ..plain() }
}

fn report(items: &[Item], layout: Layout) -> String {
    terminal::render(&rows(items), &range(), layout)
}

/// Removes CSI colour sequences and OSC 8 hyperlink wrappers, leaving the
/// text a terminal would actually display.
fn strip_escapes(s: &str) -> String {
    let mut out = String::new();
    let mut chars = s.chars().peekable();
    while let Some(c) = chars.next() {
        if c != '\x1b' {
            out.push(c);
            continue;
        }
        match chars.next() {
            Some('[') => {
                for t in chars.by_ref() {
                    if ('@'..='~').contains(&t) {
                        break;
                    }
                }
            }
            Some(']') => {
                while let Some(t) = chars.next() {
                    if t == '\x07' {
                        break;
                    }
                    if t == '\x1b' && chars.peek() == Some(&'\\') {
                        chars.next();
                        break;
                    }
                }
            }
            _ => {}
        }
    }
    out
}

// JSON

#[test]
fn renders_an_array_of_items_with_utc_timestamps() {
    let out = fin::render::json::render(&sample());
    let parsed: serde_json::Value = serde_json::from_str(&out).unwrap();
    assert_eq!(parsed.as_array().unwrap().len(), 3);
    assert_eq!(parsed[0]["kind"], "pr");
    assert_eq!(parsed[0]["source"], "github");
    assert_eq!(parsed[0]["completed_at"], "2026-09-14T09:15:00Z");
}

#[test]
fn no_items_renders_an_empty_array() {
    assert_eq!(fin::render::json::render(&[]), "[]");
}

#[test]
fn json_output_is_laid_out_as_a_pretty_printer_would() {
    let items = sample();
    let out = fin::render::json::render(&items[..1]);
    let value: serde_json::Value = serde_json::from_str(&out).unwrap();
    assert_eq!(
        out,
        "[\n  {\n    \"completed_at\": \"2026-09-14T09:15:00Z\",\n    \"source\": \"github\",\n    \"kind\": \"pr\",\n    \"reference\": \"#12\",\n    \"title\": \"Add retries to the upload path\",\n    \"url\": \"https://github.com/o/r/pull/12\",\n    \"context\": \"o/r\"\n  }\n]"
    );
    assert_eq!(value[0]["reference"], "#12");
    assert_eq!(value[0]["context"], "o/r");
    let mut bare = items[0].clone();
    bare.reference = None;
    bare.context = None;
    bare.title = "Say \"hi\"".into();
    let value: serde_json::Value =
        serde_json::from_str(&fin::render::json::render(&[bare])).unwrap();
    assert!(value[0]["reference"].is_null());
    assert!(value[0]["context"].is_null());
    assert_eq!(value[0]["title"], "Say \"hi\"");
}

// Markdown

#[test]
fn renders_a_table_with_links_and_no_source_column() {
    let out = markdown::render(&rows(&sample()), false);
    assert_eq!(
        out,
        "| Date | Type | Item |\n\
         | --- | --- | --- |\n\
         | 2026-09-14 | PR | [#12 Add retries to the upload path](https://github.com/o/r/pull/12) — o/r |\n\
         | 2026-09-14 | Issue | [#7 Flaky integration test](https://github.com/o/r/issues/7) — o/r |\n\
         | 2026-09-15 | PR | [#13 Drop the \\| separator](https://github.com/other/repo/pull/13) — other/repo |\n"
    );
}

#[test]
fn renders_a_source_column_when_asked() {
    let out = markdown::render(&rows(&sample()), true);
    assert!(out.starts_with("| Date | Source | Type | Item |"));
    assert!(out.contains("| GitHub |"));
}

#[test]
fn pipes_in_titles_are_escaped_so_cells_survive() {
    let out = markdown::render(&rows(&sample()), false);
    assert!(out.contains(r"Drop the \| separator"));
    assert_eq!(out.lines().filter(|l| l.starts_with('|')).count(), 5);
}

#[test]
fn no_rows_renders_nothing() {
    assert_eq!(markdown::render(&[], false), "");
}

#[test]
fn cells_escape_backslashes_pipes_and_line_breaks() {
    assert_eq!(markdown::escape("a\\b|c\nd"), "a\\\\b\\|c d");
    let mut r = rows(&sample());
    r[0].reference = String::new();
    r[0].context = None;
    assert_eq!(
        markdown::item_cell(&r[0]),
        "[Add retries to the upload path](https://github.com/o/r/pull/12)"
    );
}

// Rows and labels

#[test]
fn rows_carry_resolved_labels() {
    let rows = rows(&sample());
    assert_eq!(rows[0].date, "2026-09-14");
    assert_eq!(rows[0].day, "Monday 14 September");
    assert_eq!(rows[0].kind, "PR");
    assert_eq!(rows[0].source, "GitHub");
    assert_eq!(rows[0].reference, "#12");
}

#[test]
fn kinds_and_sources_render_as_their_projects_spell_them() {
    assert_eq!(kind_label("pr"), "PR");
    assert_eq!(kind_label("issue"), "Issue");
    assert_eq!(kind_label("task"), "Task");
    assert_eq!(source_label("github"), "GitHub");
    assert_eq!(source_label("linear"), "Linear");
}

#[test]
fn plurals_read_correctly() {
    assert_eq!(plural(1, "PR"), "1 PR");
    assert_eq!(plural(2, "PR"), "2 PRs");
    assert_eq!(plural(1, "repository"), "1 repository");
    assert_eq!(plural(3, "repository"), "3 repositories");
    assert_eq!(plural(2, "issue"), "2 issues");
    assert_eq!(plural(0, "item"), "0 items");
    assert_eq!(plural(2, "day"), "2 days");
    assert_eq!(plural(2, "box"), "2 boxes");
    assert_eq!(plural(2, "status"), "2 statuses");
}

#[test]
fn dates_render_for_headings() {
    let at = Moment::parse("2026-09-14T11:15:00+02:00[Europe/Oslo]").unwrap();
    assert_eq!(day_label(&at), "Monday 14 September");
    assert_eq!(short_date(&at), "Mon 14 Sep");
}

#[test]
fn labels_capitalize_only_the_first_character() {
    assert_eq!(capitalize(""), "");
    assert_eq!(capitalize("todo list"), "Todo list");
    assert_eq!(source_label("jira"), "Jira");
    assert_eq!(source_label("todoist"), "Todoist");
    assert_eq!(context_noun("jira"), "project");
    assert_eq!(context_noun("github"), "repository");
}

#[test]
fn days_before_the_tenth_carry_no_leading_zero() {
    let at = Moment::parse("2026-09-07T11:15:00+02:00[Europe/Oslo]").unwrap();
    assert_eq!(day_label(&at), "Monday 7 September");
    assert_eq!(short_date(&at), "Mon 7 Sep");
}

#[test]
fn render_dispatches_on_the_format() {
    let items = sample();
    let layout = plain();
    assert_eq!(
        fin::render::render(Format::Markdown, &items, &range(), layout),
        markdown::render(&rows(&items), false)
    );
    assert_eq!(
        fin::render::render(Format::Json, &items, &range(), layout),
        fin::render::json::render(&items)
    );
    assert_eq!(
        fin::render::render(Format::Terminal, &items, &range(), layout),
        report(&items, layout)
    );
}

// Terminal

const PLAIN_REPORT: &str = "Completed work
Mon 14 Sep – Tue 15 Sep 2026 · 3 items

Monday 14 September
  PR     #12  Add retries to the upload path  o/r
  Issue  #7   Flaky integration test          o/r

Tuesday 15 September
  PR     #13  Drop the | separator            other/repo

────────────────────────────────────────────────────────
3 items · 1 Issue · 2 PRs · 2 repositories
";

#[test]
fn renders_a_grouped_plain_report() {
    assert_eq!(report(&sample(), plain()), PLAIN_REPORT);
}

#[test]
fn renders_a_styled_report() {
    let expected = [
        "\x1b[1mCompleted work\x1b[0m\n",
        "Mon 14 Sep – Tue 15 Sep 2026 · 3 items\n",
        "\n",
        "\x1b[1mMonday 14 September\x1b[0m\n",
        "  \x1b[36mPR\x1b[0m     \x1b[35m#12\x1b[0m  ",
        "\x1b]8;;https://github.com/o/r/pull/12\x1b\\Add retries to the upload path\x1b]8;;\x1b\\",
        "  \x1b[35mo/r\x1b[0m\n",
        "  \x1b[32mIssue\x1b[0m  \x1b[35m#7\x1b[0m   ",
        "\x1b]8;;https://github.com/o/r/issues/7\x1b\\Flaky integration test\x1b]8;;\x1b\\",
        "          \x1b[35mo/r\x1b[0m\n",
        "\n",
        "\x1b[1mTuesday 15 September\x1b[0m\n",
        "  \x1b[36mPR\x1b[0m     \x1b[35m#13\x1b[0m  ",
        "\x1b]8;;https://github.com/other/repo/pull/13\x1b\\Drop the | separator\x1b]8;;\x1b\\",
        "            \x1b[35mother/repo\x1b[0m\n",
        "\n",
        "────────────────────────────────────────────────────────\n",
        "\x1b[1m3 items\x1b[0m · \x1b[32m1 Issue\x1b[0m · \x1b[36m2 PRs\x1b[0m · \x1b[35m2 repositories\x1b[0m\n",
    ]
    .join("");
    assert_eq!(report(&sample(), styled()), expected);
}

#[test]
fn rows_are_grouped_under_one_heading_per_day() {
    let out = report(&sample(), plain());
    assert_eq!(out.matches("Monday 14 September").count(), 1);
    assert_eq!(out.matches("Tuesday 15 September").count(), 1);
}

#[test]
fn styling_never_changes_the_visible_layout() {
    let styled = report(&sample(), styled());
    assert_eq!(strip_escapes(&styled), report(&sample(), plain()));
}

#[test]
fn styled_output_hyperlinks_each_title() {
    let out = report(&sample(), styled());
    assert!(out.contains("\x1b]8;;https://github.com/o/r/pull/12\x1b\\"));
}

#[test]
fn titles_carry_no_styling_of_their_own() {
    let out = report(&sample(), styled());
    assert!(
        !out.contains("\x1b[4m"),
        "a hyperlink must not hardcode an underline: the terminal marks it"
    );
    let title = "Add retries to the upload path";
    let at = out.find(title).expect("title missing from output");
    assert!(
        out[..at].ends_with("\x1b\\"),
        "title is preceded by styling rather than by the hyperlink opener"
    );
}

#[test]
fn unstyled_output_has_no_escape_sequences() {
    let out = report(&sample(), plain());
    assert!(!out.contains('\x1b'), "escape leaked into unstyled output");
}

#[test]
fn the_summary_counts_items_kinds_and_repositories() {
    let out = report(&sample(), plain());
    assert!(out.contains("3 items · 1 Issue · 2 PRs · 2 repositories"), "got:\n{out}");
}

#[test]
fn the_summary_counts_places_in_each_sources_own_vocabulary() {
    let mut items = sample();
    let mut ticket = items[0].clone();
    ticket.source = SourceId::new("jira");
    ticket.kind = Kind::new("issue");
    ticket.url = "https://example.atlassian.net/browse/ABC-1".into();
    items.push(ticket);
    let out = report(&items, plain());
    assert!(
        out.contains("4 items · 2 Issues · 2 PRs · 1 project · 2 repositories"),
        "got:\n{out}"
    );
}

#[test]
fn a_source_column_appears_when_more_than_one_source_is_in_play() {
    let out = report(&sample(), Layout { show_source: true, ..plain() });
    assert!(out.contains("GitHub"));
}

#[test]
fn an_empty_report_says_so_without_a_summary() {
    let out = terminal::render(&[], &range(), plain());
    assert!(out.contains("Nothing was completed in this period."));
    assert!(!out.contains("items"));
    assert_eq!(
        out,
        "Completed work\nMon 14 Sep – Tue 15 Sep 2026\n\nNothing was completed in this period.\n"
    );
}

#[test]
fn titles_are_truncated_to_the_terminal_width() {
    let mut items = sample();
    items[0].title = "A".repeat(200);
    let narrow = Layout { show_source: false, styled: false, width: Some(60) };
    let out = report(&items, narrow);
    assert!(out.contains('…'), "long title was not truncated");
    assert!(out.lines().all(|l| l.width() <= 60), "a line overflowed the terminal");
}

#[test]
fn an_unknown_width_leaves_titles_intact() {
    let mut items = sample();
    items[0].title = "A".repeat(200);
    let unbounded = Layout { show_source: false, styled: false, width: None };
    let out = report(&items, unbounded);
    assert!(out.contains(&"A".repeat(200)));
    assert!(!out.contains('…'));
}

#[test]
fn a_single_day_window_reads_as_one_date() {
    let now = Moment::parse("2026-09-14T14:30:00+02:00[Europe/Oslo]").unwrap();
    let single = period::resolve(&now, Period::Week, DayName::Mon, false).unwrap();
    assert_eq!(window_label(&single), "Mon 14 Sep 2026");
}

#[test]
fn a_multi_day_window_names_both_ends() {
    assert_eq!(window_label(&range()), "Mon 14 Sep – Tue 15 Sep 2026");
}

#[test]
fn truncation_marks_the_cut_and_respects_wide_characters() {
    assert_eq!(terminal::truncate("hello", 10), "hello");
    assert_eq!(terminal::truncate("hello world", 8), "hello w…");
    assert_eq!(terminal::truncate("日本語のタイトル", 7), "日本語…");
    assert_eq!(terminal::truncate("anything", 1), "…");
}

#[test]
fn wide_characters_keep_columns_aligned() {
    let mut items = sample();
    items[0].title = "日本語のタイトル".into();
    let out = report(&items, plain());
    let body: Vec<&str> = out.lines().filter(|l| l.starts_with("  ")).collect();
    let column_of = |line: &str, needle: &str| line.find(needle).map(|byte| line[..byte].width());
    let context_columns: Vec<Option<usize>> = body
        .iter()
        .map(|l| column_of(l, "o/r").or_else(|| column_of(l, "other/repo")))
        .collect();
    assert!(
        context_columns.windows(2).all(|w| w[0] == w[1]),
        "context column drifted: {context_columns:?}"
    );
}

#[test]
fn painting_wraps_text_only_when_styled() {
    assert_eq!(terminal::paint(Look::Cyan, "x", false), "x");
    assert_eq!(terminal::paint(Look::Bold, "x", true), "\x1b[1mx\x1b[0m");
    assert_eq!(terminal::paint(Look::Plain, "x", true), "x");
    assert_eq!(
        terminal::hyperlink("https://e.test", "t"),
        "\x1b]8;;https://e.test\x1b\\t\x1b]8;;\x1b\\"
    );
}

#[test]
fn an_unbounded_layout_caps_the_rule() {
    let mut items = sample();
    items[0].title = "A".repeat(200);
    let out = report(&items, Layout { show_source: false, styled: false, width: None });
    let rule = out.lines().find(|l| l.starts_with('─')).unwrap();
    assert_eq!(rule.chars().count(), 96);
}

#[test]
fn only_a_terminal_report_on_a_terminal_is_styled() {
    assert!(should_style(Format::Terminal, false, None, Some("xterm-256color"), true));
    assert!(should_style(Format::Terminal, false, Some(""), None, true));
    assert!(!should_style(Format::Terminal, false, Some("1"), None, true));
    assert!(!should_style(Format::Terminal, false, None, Some("dumb"), true));
    assert!(!should_style(Format::Terminal, true, None, None, true));
    assert!(!should_style(Format::Terminal, false, None, None, false));
    assert!(!should_style(Format::Markdown, false, None, None, true));
    assert!(!should_style(Format::Json, false, None, None, true));
}

#[test]
fn the_width_comes_from_the_terminal_then_columns() {
    assert_eq!(terminal_width(false, Some(120), Some("80")), None);
    assert_eq!(terminal_width(true, Some(120), Some("80")), Some(120));
    assert_eq!(terminal_width(true, Some(0), Some("80")), Some(80));
    assert_eq!(terminal_width(true, None, Some("+72")), Some(72));
    assert_eq!(terminal_width(true, None, Some("0")), None);
    assert_eq!(terminal_width(true, None, Some("wide")), None);
    assert_eq!(terminal_width(true, None, None), None);
}

#[test]
fn the_spinner_names_the_sources_and_the_window() {
    let ids = vec![SourceId::new("github"), SourceId::new("jira")];
    assert_eq!(
        fin::render::progress_message(&ids, &range()),
        "Querying GitHub, Jira · 2026-09-14 .. 2026-09-15 14:30"
    );
}

#[test]
fn a_report_collects_every_answer_once_and_oldest_first() {
    let items = sample();
    let mut first = Fetch::new();
    first.add(vec![items[2].clone(), items[0].clone()], None);
    let mut second = Fetch::new();
    second.add(vec![items[1].clone(), items[0].clone()], None);
    let collected = collect(vec![first, second]);
    let urls: Vec<&str> = collected.iter().map(|i| i.url.as_str()).collect();
    assert_eq!(
        urls,
        vec![
            "https://github.com/o/r/pull/12",
            "https://github.com/o/r/issues/7",
            "https://github.com/other/repo/pull/13"
        ]
    );
    assert!(collect(Vec::new()).is_empty());
}


#[test]
fn a_report_is_composed_under_the_window_label() {
    let range = range();
    let rows = rows(&sample());
    let label = window_label(&range);
    assert_eq!(terminal::compose(&rows, &label, plain()), terminal::render(&rows, &range, plain()));
    assert_eq!(
        strip_escapes(&terminal::compose(&rows, &label, styled())),
        terminal::compose(&rows, &label, plain())
    );
}

#[test]
fn the_letter_before_a_final_y_is_found_by_byte_position() {
    // The character read is at the noun's byte length less two: for an
    // ASCII noun the one before the `y`, for others one further along.
    assert_eq!(plural(2, "key"), "2 keys");
    assert_eq!(plural(2, "y"), "2 ies");
    assert_eq!(plural(2, "éay"), "2 éaies");
    assert_eq!(plural(2, "æby"), "2 æbies");
    assert_eq!(plural(2, "ébuy"), "2 ébuies");
}

#[test]
fn json_strings_escape_quotes_backslashes_and_control_characters() {
    let mut item = sample()[0].clone();
    item.title = "a\"b\\c\n\t\u{1}é/".into();
    let out = fin::render::json::render(&[item]);
    assert!(out.contains("\"title\": \"a\\\"b\\\\c\\n\\t\\u0001é/\","));
}
