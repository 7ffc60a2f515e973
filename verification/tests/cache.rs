use fin::cache::{cache_dir, fnv1a_hex, is_fresh, key, Cache, FORMAT_VERSION};
use fin::duration::Duration;
use fin::item::{Kind, SourceId};
use fin::period::{self, DayName, Period, TimeRange};
use fin::time::{Instant, Moment};

fn moment(text: &str) -> Moment {
    Moment::parse(text).unwrap()
}

fn instant(text: &str) -> Instant {
    Instant::parse(text).unwrap()
}

fn range(previous: bool) -> TimeRange {
    let now = moment("2026-09-15T14:30:00+02:00[Europe/Oslo]");
    period::resolve(&now, Period::Week, DayName::Mon, previous).unwrap()
}

fn kinds() -> Vec<Kind> {
    vec![Kind::new("pr"), Kind::new("issue")]
}

#[test]
fn the_same_inputs_produce_the_same_key() {
    let id = SourceId::new("github");
    let a = key(&id, "fp", &range(false), &kinds());
    let b = key(&id, "fp", &range(false), &kinds());
    assert_eq!(a, b);
    assert!(a.starts_with("github-"));
}

#[test]
fn kind_order_does_not_change_the_key() {
    let id = SourceId::new("github");
    let forward = key(&id, "fp", &range(false), &[Kind::new("pr"), Kind::new("issue")]);
    let reverse = key(&id, "fp", &range(false), &[Kind::new("issue"), Kind::new("pr")]);
    assert_eq!(forward, reverse);
}

#[test]
fn a_changed_fingerprint_changes_the_key() {
    let id = SourceId::new("github");
    assert_ne!(
        key(&id, "orgs=", &range(false), &kinds()),
        key(&id, "orgs=acme", &range(false), &kinds())
    );
}

#[test]
fn differing_kinds_change_the_key() {
    let id = SourceId::new("github");
    assert_ne!(
        key(&id, "fp", &range(false), &[Kind::new("pr")]),
        key(&id, "fp", &range(false), &kinds())
    );
}

#[test]
fn an_open_window_ignores_its_moving_end() {
    let id = SourceId::new("github");
    let early = moment("2026-09-15T09:00:00+02:00[Europe/Oslo]");
    let late = moment("2026-09-15T17:00:00+02:00[Europe/Oslo]");
    let a = period::resolve(&early, Period::Week, DayName::Mon, false).unwrap();
    let b = period::resolve(&late, Period::Week, DayName::Mon, false).unwrap();
    assert_ne!(a.end, b.end);
    assert_eq!(key(&id, "fp", &a, &kinds()), key(&id, "fp", &b, &kinds()));
}

#[test]
fn a_closed_window_keys_on_its_end() {
    let id = SourceId::new("github");
    assert_ne!(
        key(&id, "fp", &range(false), &kinds()),
        key(&id, "fp", &range(true), &kinds())
    );
}

#[test]
fn the_digest_is_stable_across_builds() {
    assert_eq!(fnv1a_hex(""), "cbf29ce484222325");
    assert_eq!(fnv1a_hex("a"), "af63dc4c8601ec8c");
}

#[test]
fn freshness_is_bounded_by_the_ttl() {
    let base = instant("2026-09-15T12:00:00Z");
    let ttl = Duration::from_secs(900);
    let later = instant("2026-09-15T12:14:59Z");
    let expired = instant("2026-09-15T12:15:01Z");
    assert!(is_fresh(base, later, ttl));
    assert!(!is_fresh(base, expired, ttl));
}

#[test]
fn a_zero_ttl_never_serves_an_entry() {
    let base = instant("2026-09-15T12:00:00Z");
    assert!(!is_fresh(base, base, Duration::zero()));
}

#[test]
fn an_entry_from_the_future_is_not_served() {
    let base = instant("2026-09-15T12:00:00Z");
    let earlier = instant("2026-09-15T11:00:00Z");
    assert!(!is_fresh(base, earlier, Duration::from_secs(900)));
}

#[test]
fn cache_dir_follows_xdg_then_home() {
    assert_eq!(cache_dir(Some("/xdg"), Some("/home")).unwrap(), "/xdg/fin/v1");
    assert_eq!(cache_dir(None, Some("/home")).unwrap(), "/home/.cache/fin/v1");
    assert!(cache_dir(None, None).is_err());
}

#[test]
fn empty_variables_count_as_unset_for_the_cache_dir() {
    assert_eq!(cache_dir(Some(""), Some("/home")).unwrap(), "/home/.cache/fin/v1");
    assert!(cache_dir(Some(""), Some("")).is_err());
    assert_eq!(FORMAT_VERSION, "v1");
}

#[test]
fn an_entry_is_fresh_up_to_the_last_millisecond_of_its_lifetime() {
    let base = instant("2026-09-15T12:00:00Z");
    let last = instant("2026-09-15T12:14:59.999Z");
    let edge = instant("2026-09-15T12:15:00Z");
    let ttl = Duration::from_secs(900);
    assert!(is_fresh(base, last, ttl));
    assert!(!is_fresh(base, edge, ttl));
}

#[test]
fn a_cache_keeps_entries_as_json_files_in_its_directory() {
    let cache = Cache::new("/tmp/fin".to_string(), Duration::from_secs(60));
    assert_eq!(cache.path("github-00"), "/tmp/fin/github-00.json");
    assert_eq!(cache.dir(), "/tmp/fin");
    assert_eq!(cache.ttl(), Duration::from_secs(60));
    assert!(cache.enabled());
}

#[test]
fn a_disabled_cache_serves_nothing() {
    let base = instant("2026-09-15T12:00:00Z");
    let cache = Cache::new("/tmp/fin".to_string(), Duration::zero());
    assert!(!cache.enabled());
    assert!(!cache.serves(base, base));
    let live = Cache::new("/tmp/fin".to_string(), Duration::from_secs(60));
    assert!(live.serves(base, base));
}

#[test]
fn the_key_names_its_source_and_a_sixteen_digit_digest() {
    let id = SourceId::new("jira");
    let k = key(&id, "fp", &range(false), &kinds());
    assert!(k.starts_with("jira-"));
    let digest = &k["jira-".len()..];
    assert_eq!(digest.len(), 16);
    assert!(digest.chars().all(|c| c.is_ascii_hexdigit() && !c.is_ascii_uppercase()));
}
