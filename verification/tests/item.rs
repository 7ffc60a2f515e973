use fin::item::{dedupe, item_before, sort, Item, Kind, SourceId};
use fin::source::Fetch;
use fin::time::Moment;

fn item(url: &str, ts: &str) -> Item {
    Item {
        completed_at: Moment::parse(ts).unwrap(),
        source: SourceId::new("github"),
        kind: Kind::new("pr"),
        reference: None,
        title: "t".into(),
        url: url.into(),
        context: None,
    }
}

#[test]
fn kinds_and_sources_normalize_case() {
    assert_eq!(Kind::new("PR").as_str(), "pr");
    assert_eq!(SourceId::new("GitHub").as_str(), "github");
}

#[test]
fn sort_orders_oldest_first() {
    let mut items = vec![
        item("b", "2026-09-10T12:00:00+02:00[Europe/Oslo]"),
        item("a", "2026-09-08T12:00:00+02:00[Europe/Oslo]"),
    ];
    sort(&mut items);
    assert_eq!(items[0].url, "a");
}

#[test]
fn dedupe_keeps_first_of_each_url() {
    let mut items = vec![
        item("a", "2026-09-08T12:00:00+02:00[Europe/Oslo]"),
        item("a", "2026-09-09T12:00:00+02:00[Europe/Oslo]"),
        item("b", "2026-09-09T12:00:00+02:00[Europe/Oslo]"),
    ];
    dedupe(&mut items);
    assert_eq!(items.len(), 2);
    assert_eq!(items[0].date(), "2026-09-08");
}

#[test]
fn equal_times_order_by_source_kind_title_then_url() {
    let ts = "2026-09-08T12:00:00+02:00[Europe/Oslo]";
    let mut jira = item("z", ts);
    jira.source = SourceId::new("jira");
    let mut issue = item("y", ts);
    issue.kind = Kind::new("issue");
    let mut titled = item("x", ts);
    titled.title = "u".into();
    let plain = item("w", ts);
    let mut items = vec![jira, titled, issue, plain];
    sort(&mut items);
    let urls: Vec<&str> = items.iter().map(|i| i.url.as_str()).collect();
    assert_eq!(urls, vec!["y", "w", "x", "z"]);
}

#[test]
fn sorting_twice_changes_nothing() {
    let mut items = vec![
        item("c", "2026-09-10T12:00:00+02:00[Europe/Oslo]"),
        item("a", "2026-09-08T12:00:00+02:00[Europe/Oslo]"),
        item("b", "2026-09-08T12:00:00+02:00[Europe/Oslo]"),
    ];
    sort(&mut items);
    let once: Vec<String> = items.iter().map(|i| i.url.clone()).collect();
    sort(&mut items);
    let twice: Vec<String> = items.iter().map(|i| i.url.clone()).collect();
    assert_eq!(once, twice);
    assert_eq!(once, vec!["a", "b", "c"]);
}

#[test]
fn an_item_does_not_sort_before_itself() {
    let a = item("a", "2026-09-08T12:00:00+02:00[Europe/Oslo]");
    let b = item("b", "2026-09-08T12:00:00+02:00[Europe/Oslo]");
    assert!(!item_before(&a, &a));
    assert!(item_before(&a, &b));
    assert!(!item_before(&b, &a));
}

#[test]
fn a_fetch_collects_items_and_warnings_in_order() {
    let mut fetch = Fetch::new();
    fetch.add(vec![item("a", "2026-09-08T12:00:00+02:00[Europe/Oslo]")], None);
    fetch.add(
        vec![
            item("a", "2026-09-09T12:00:00+02:00[Europe/Oslo]"),
            item("b", "2026-09-09T12:00:00+02:00[Europe/Oslo]"),
        ],
        Some("capped".to_string()),
    );
    assert_eq!(fetch.items.len(), 3);
    assert_eq!(fetch.warnings, vec!["capped".to_string()]);
    fetch.dedupe_items();
    let urls: Vec<&str> = fetch.items.iter().map(|i| i.url.as_str()).collect();
    assert_eq!(urls, vec!["a", "b"]);
    assert_eq!(fetch.items[0].date(), "2026-09-08");
}

#[test]
fn identifiers_read_from_text_lowercased() {
    let k: Kind = "Issue".parse().unwrap();
    assert_eq!(k, Kind::new("issue"));
    let s: SourceId = "JIRA".parse().unwrap();
    assert!(s.same_as(&SourceId::new("jira")));
}

#[test]
fn items_that_sort_alike_keep_their_order() {
    let ts = "2026-09-08T12:00:00+02:00[Europe/Oslo]";
    let mut first = item("a", ts);
    first.reference = Some("#1".into());
    let mut second = item("a", ts);
    second.reference = Some("#2".into());
    let earlier = item("z", "2026-09-07T12:00:00+02:00[Europe/Oslo]");
    let mut items = vec![first, earlier, second];
    sort(&mut items);
    let refs: Vec<Option<&str>> = items.iter().map(|i| i.reference.as_deref()).collect();
    assert_eq!(refs, vec![None, Some("#1"), Some("#2")]);
}
