use fin::sources::jira::client::read_body;
use fin::config::JiraConfig;
use fin::item::{Kind, SourceId};
use fin::json::{as_text, get, Json};
use fin::period::{self, DayName, Period, TimeRange};
use fin::sources::jira::auth::{resolve, Site, Token, EMAIL_VAR, SITE_VAR, TOKEN_VAR};
use fin::sources::jira::client::check_status;
use fin::sources::jira::map::{parse_page, to_items, SearchPage};
use fin::sources::jira::query::{project_filter, resolved_issues, search_body, PAGE_SIZE};
use fin::sources::jira::{
    cache_fingerprint, confirm_account, default_kinds, id, wants_issues, IssueRun,
};
use fin::time::{Date, Moment};
use jiff::tz::TimeZone;

fn json(text: &str) -> Json {
    Json::parse(text).unwrap()
}

// Authentication

fn full_env(name: &str) -> Option<String> {
    match name {
        SITE_VAR => Some("env.atlassian.net".into()),
        EMAIL_VAR => Some("env@example.com".into()),
        TOKEN_VAR => Some("env-token\n".into()),
        _ => None,
    }
}

#[test]
fn the_environment_supplies_everything_when_nothing_is_configured() {
    let c = resolve(&JiraConfig::default(), &full_env).unwrap();
    assert_eq!(c.site.as_str(), "env.atlassian.net");
    assert_eq!(c.email, "env@example.com");
    assert_eq!(c.token.expose(), "env-token");
}

#[test]
fn configured_site_and_email_win_over_the_environment() {
    let config = JiraConfig {
        site: Some("https://file.atlassian.net/".into()),
        email: Some("file@example.com".into()),
        ..Default::default()
    };
    let c = resolve(&config, &full_env).unwrap();
    assert_eq!(c.site.as_str(), "file.atlassian.net");
    assert_eq!(c.email, "file@example.com");
}

#[test]
fn a_missing_site_names_both_the_key_and_the_variable() {
    let env = |name: &str| (name != SITE_VAR).then(|| "x".to_string());
    let err = resolve(&JiraConfig::default(), &env).err().unwrap();
    assert!(err.contains("`site`"), "{err}");
    assert!(err.contains(SITE_VAR), "{err}");
}

#[test]
fn a_missing_email_names_both_the_key_and_the_variable() {
    let env = |name: &str| (name != EMAIL_VAR).then(|| "x".to_string());
    let err = resolve(&JiraConfig::default(), &env).err().unwrap();
    assert!(err.contains("`email`"), "{err}");
    assert!(err.contains(EMAIL_VAR), "{err}");
}

#[test]
fn the_token_is_read_only_from_the_environment() {
    let env = |name: &str| (name != TOKEN_VAR).then(|| "example.atlassian.net".to_string());
    let err = resolve(&JiraConfig::default(), &env).err().unwrap();
    assert!(err.contains(TOKEN_VAR), "{err}");
}

#[test]
fn blank_values_count_as_missing() {
    let env = |_: &str| Some("  ".to_string());
    assert!(resolve(&JiraConfig::default(), &env).is_err());
}

#[test]
fn sites_normalize_to_a_lowercase_host() {
    for raw in [
        "example.atlassian.net",
        "Example.Atlassian.net",
        "https://example.atlassian.net",
        "HTTPS://example.atlassian.net/",
        "  example.atlassian.net  ",
    ] {
        assert_eq!(Site::parse(raw).unwrap().as_str(), "example.atlassian.net", "{raw}");
    }
}

#[test]
fn sites_with_another_scheme_or_a_path_are_rejected() {
    for raw in [
        "",
        "http://example.atlassian.net",
        "https://",
        "example.atlassian.net/jira",
        "https://example.atlassian.net/browse/X-1",
    ] {
        assert!(Site::parse(raw).is_err(), "accepted {raw:?}");
    }
}

#[test]
fn a_site_builds_api_and_browse_urls() {
    let site = Site::parse("example.atlassian.net").unwrap();
    assert_eq!(site.base_url(), "https://example.atlassian.net");
    assert_eq!(site.browse_url("ABC-12"), "https://example.atlassian.net/browse/ABC-12");
}

#[test]
fn token_debug_output_hides_the_secret() {
    let rendered = Token::new("supersecret").debug_text();
    assert_eq!(rendered, "Token(<redacted>)");
}

#[test]
fn a_rejected_site_says_what_is_expected() {
    let err = Site::parse("http://example.atlassian.net").err().unwrap();
    assert!(err.contains("http://example.atlassian.net"), "{err}");
}

// Client

#[test]
fn ok_status_passes() {
    assert!(check_status(200, "{}").is_ok());
}

#[test]
fn a_bad_request_surfaces_jiras_own_messages() {
    let body = r#"{"errorMessages":["Field 'resolutiondate' is odd"],"errors":{"jql":"bad"}}"#;
    let err = check_status(400, body).unwrap_err();
    assert!(err.contains("Field 'resolutiondate' is odd"), "{err}");
    assert!(err.contains("jql: bad"), "{err}");
}

#[test]
fn a_bad_request_without_structured_errors_shows_the_body() {
    let err = check_status(400, "plain failure").unwrap_err();
    assert!(err.contains("plain failure"), "{err}");
}

#[test]
fn unauthorized_names_the_token_variable() {
    let err = check_status(401, "").unwrap_err();
    assert!(err.contains(TOKEN_VAR), "{err}");
}

#[test]
fn forbidden_mentions_permissions() {
    let err = check_status(403, "").unwrap_err();
    assert!(err.contains("permission"), "{err}");
}

#[test]
fn not_found_points_at_the_site() {
    let err = check_status(404, "").unwrap_err();
    assert!(err.contains("site"), "{err}");
}

#[test]
fn other_statuses_include_a_truncated_body() {
    let err = check_status(502, &"x".repeat(500)).unwrap_err();
    assert!(err.contains("502"));
    assert!(err.contains('…'));
    assert!(err.len() < 400);
}

// Mapping

fn tz() -> TimeZone {
    TimeZone::get("Europe/Oslo").unwrap()
}

fn site() -> Site {
    Site::parse("example.atlassian.net").unwrap()
}

fn since_monday() -> TimeRange {
    let now = Moment::parse("2026-09-15T14:30:00+02:00[Europe/Oslo]").unwrap();
    period::explicit(&now, Date::parse("2026-09-14").unwrap(), None).unwrap()
}

fn issue(key: &str, resolved: Option<&str>) -> String {
    let resolved = match resolved {
        Some(r) => format!("\"{r}\""),
        None => "null".to_string(),
    };
    format!(
        r#"{{"id": "10001", "key": "{key}", "fields": {{
            "summary": "Work on {key}",
            "resolutiondate": {resolved},
            "project": {{"key": "ABC", "name": "Alphabet"}}
        }}}}"#
    )
}

fn page(issues: &[String]) -> SearchPage {
    parse_page(&json(&format!(r#"{{"issues": [{}], "isLast": true}}"#, issues.join(",")))).unwrap()
}

#[test]
fn maps_a_resolved_issue_into_an_item() {
    let items = to_items(
        &page(&[issue("ABC-12", Some("2026-09-14T11:15:00.000+0200"))]),
        &site(),
        &since_monday(),
        &tz(),
    );
    assert_eq!(items.len(), 1);
    let item = &items[0];
    assert_eq!(item.source, SourceId::new("jira"));
    assert_eq!(item.kind, Kind::new("issue"));
    assert_eq!(item.reference.as_deref(), Some("ABC-12"));
    assert_eq!(item.title, "Work on ABC-12");
    assert_eq!(item.url, "https://example.atlassian.net/browse/ABC-12");
    assert_eq!(item.context.as_deref(), Some("Alphabet"));
    assert_eq!(item.completed_at.clock.hour, 11);
}

#[test]
fn resolution_offsets_are_honoured_when_converting_zones() {
    let items = to_items(
        &page(&[issue("ABC-1", Some("2026-09-14T05:00:00.000-0400"))]),
        &site(),
        &since_monday(),
        &tz(),
    );
    assert_eq!(items[0].completed_at.clock.hour, 11);
}

#[test]
fn issues_resolved_outside_the_exact_window_are_dropped() {
    let items = to_items(
        &page(&[
            issue("ABC-1", Some("2026-09-13T23:59:59.999+0200")),
            issue("ABC-2", Some("2026-09-14T00:00:00.000+0200")),
            issue("ABC-3", Some("2026-09-15T14:29:59.000+0200")),
            issue("ABC-4", Some("2026-09-15T14:30:00.000+0200")),
        ]),
        &site(),
        &since_monday(),
        &tz(),
    );
    let keys: Vec<_> = items.iter().filter_map(|i| i.reference.as_deref()).collect();
    assert_eq!(keys, vec!["ABC-2", "ABC-3"]);
}

#[test]
fn unresolved_issues_are_dropped() {
    let items = to_items(&page(&[issue("ABC-1", None)]), &site(), &since_monday(), &tz());
    assert!(items.is_empty());
}

#[test]
fn the_project_key_stands_in_for_a_missing_name() {
    let raw = json(
        r#"{ "issues": [{
            "key": "ABC-1",
            "fields": {
                "summary": "s",
                "resolutiondate": "2026-09-14T11:15:00.000+0200",
                "project": { "key": "ABC" }
            }
        }]}"#,
    );
    let items = to_items(&parse_page(&raw).unwrap(), &site(), &since_monday(), &tz());
    assert_eq!(items[0].context.as_deref(), Some("ABC"));
}

#[test]
fn a_malformed_timestamp_is_an_error_rather_than_a_silent_gap() {
    let raw = json(&format!(r#"{{"issues": [{}]}}"#, issue("ABC-1", Some("yesterday"))));
    assert!(parse_page(&raw).is_err());
}

#[test]
fn the_last_page_ends_pagination_even_with_a_token() {
    let last = parse_page(&json(r#"{ "issues": [], "nextPageToken": "t", "isLast": true }"#)).unwrap();
    assert_eq!(last.next(), None);
    let more = parse_page(&json(r#"{ "issues": [], "nextPageToken": "t" }"#)).unwrap();
    assert_eq!(more.next(), Some("t"));
}

// Queries

fn week() -> TimeRange {
    let now = Moment::parse("2026-09-15T14:30:20+02:00[Europe/Oslo]").unwrap();
    period::resolve(&now, Period::Week, DayName::Mon, false).unwrap()
}

#[test]
fn the_window_is_widened_by_the_widest_offset_on_both_sides() {
    // Start 2026-09-13T22:00Z less 14h; end 12:30:20Z plus 14h, rounded up.
    assert_eq!(
        resolved_issues(&week(), &[]),
        "assignee = currentUser() AND resolutiondate >= \"2026/09/13 08:00\" \
         AND resolutiondate < \"2026/09/16 02:31\" ORDER BY resolutiondate ASC"
    );
}

#[test]
fn projects_are_quoted_and_escaped() {
    let projects = vec!["ABC".to_string(), " ".to_string(), "A \"B\"".to_string()];
    assert!(resolved_issues(&week(), &projects)
        .contains(r#" AND project in ("ABC", "A \"B\"") ORDER BY"#));
}

#[test]
fn the_first_page_request_carries_no_page_token() {
    let body = search_body("jql", None);
    assert_eq!(get(&body, "jql").and_then(as_text), Some("jql"));
    assert_eq!(get(&body, "maxResults").unwrap().to_compact(), PAGE_SIZE.to_string());
    assert_eq!(
        get(&body, "fields").unwrap().to_compact(),
        r#"["summary","resolutiondate","project"]"#
    );
    assert!(get(&body, "nextPageToken").is_none());
}

#[test]
fn later_page_requests_carry_the_page_token() {
    let body = search_body("jql", Some("t1"));
    assert_eq!(get(&body, "nextPageToken").and_then(as_text), Some("t1"));
}

#[test]
fn blank_projects_add_no_filter() {
    assert_eq!(project_filter(&[]), "");
    assert_eq!(project_filter(&[" ".to_string()]), "");
    assert_eq!(project_filter(&["A\\B".to_string()]), r#" AND project in ("A\\B")"#);
}

// Source

#[test]
fn the_fingerprint_tracks_site_account_and_projects_but_not_their_order() {
    let fp = |projects: &[&str]| {
        cache_fingerprint(
            &site(),
            "me@example.com",
            &projects.iter().map(|p| p.to_string()).collect(),
        )
    };
    assert_eq!(fp(&["A", "B"]), fp(&["B", "A"]));
    assert_ne!(fp(&[]), fp(&["A"]));
    let other_account = cache_fingerprint(&site(), "someone@example.com", &vec![]);
    assert_ne!(fp(&[]), other_account);
}

#[test]
fn nothing_is_queried_when_issues_are_not_requested() {
    assert!(!wants_issues(&[Kind::new("pr")]));
    assert!(wants_issues(&[Kind::new("pr"), Kind::new("issue")]));
    assert_eq!(default_kinds(), vec![Kind::new("issue")]);
    assert_eq!(id().as_str(), "jira");
}

#[test]
fn an_account_is_confirmed_before_searching() {
    assert!(confirm_account(&json(r#"{"accountId": "abc123"}"#)).is_ok());
    assert_eq!(
        confirm_account(&json(r#"{}"#)).unwrap_err(),
        "Jira did not return an account for the credentials"
    );
}

fn token_page(keys: &[&str], token: Option<&str>, last: bool) -> Json {
    let issues: Vec<String> =
        keys.iter().map(|k| issue(k, Some("2026-09-14T11:15:00.000+0200"))).collect();
    let token = match token {
        Some(t) => format!(r#", "nextPageToken": "{t}""#),
        None => String::new(),
    };
    json(&format!(r#"{{"issues": [{}], "isLast": {last}{token}}}"#, issues.join(",")))
}

#[test]
fn pagination_follows_the_page_token_until_the_last_page() {
    let mut run = IssueRun::new();
    let first = run.request("jql");
    assert!(get(&first, "nextPageToken").is_none());
    run.take_page(&token_page(&["ABC-1"], Some("t1"), false), &site(), &since_monday(), &tz())
        .unwrap();
    assert!(!run.done);
    let second = run.request("jql");
    assert_eq!(get(&second, "nextPageToken").and_then(as_text), Some("t1"));
    run.take_page(&token_page(&["ABC-2"], None, true), &site(), &since_monday(), &tz()).unwrap();
    assert!(run.done);
    let keys: Vec<_> = run.items.iter().filter_map(|i| i.reference.as_deref()).collect();
    assert_eq!(keys, vec!["ABC-1", "ABC-2"]);
}

#[test]
fn a_repeated_page_token_ends_pagination() {
    let mut run = IssueRun::new();
    run.take_page(&token_page(&["ABC-1"], Some("t1"), false), &site(), &since_monday(), &tz())
        .unwrap();
    run.take_page(&token_page(&["ABC-2"], Some("t1"), false), &site(), &since_monday(), &tz())
        .unwrap();
    assert!(run.done);
    assert_eq!(run.items.len(), 2);
}

#[test]
fn configured_projects_reach_the_query() {
    let jql = resolved_issues(&week(), &["OPS".to_string()]);
    assert!(jql.contains(r#"project in ("OPS")"#), "{jql}");
}

#[test]
fn rejected_credentials_fail_before_any_search_can_return_nothing() {
    // Jira answers bad credentials as an anonymous user, without an account.
    let anonymous = json(r#"{"self": "https://example.atlassian.net/rest/api/3/myself"}"#);
    assert!(confirm_account(&anonymous).is_err());
    assert!(confirm_account(&json(r#"{"accountId": null}"#)).is_err());
}

#[test]
fn answers_are_read_only_from_a_successful_status() {
    let (message, cause) = read_body(401, "").unwrap_err();
    assert!(message.contains(TOKEN_VAR));
    assert!(cause.is_none());
    let (message, cause) = read_body(200, "not json").unwrap_err();
    assert_eq!(message, "response was not valid JSON");
    assert!(cause.is_some());
    let body = read_body(200, r#"{"accountId": "abc"}"#).unwrap();
    assert!(confirm_account(&body).is_ok());
}
