use fin::sources::github::client::classify;
use fin::config::{GithubConfig, IssueMatch};
use fin::diag::Diag;
use fin::duration::Duration;
use fin::item::{Item, Kind};
use fin::json::{as_text, get, Json};
use fin::period::{self, DayName, Period, TimeRange};
use fin::sources::github::auth::{
    discover, parse_token_output, token_from_env, GhTokenSource, Origin, Token,
};
use fin::sources::github::client::{
    check_graphql_errors, check_status, is_graphql_rate_limit, is_rate_limit, truncate,
};
use fin::sources::github::map::{parse_page, to_items};
use fin::sources::github::query::{closed_issues, merged_prs, org_filter, Search};
use fin::sources::github::retry::{
    decide, rate_limit_message, Decision, Failure, Policy, RateLimit, Retrying, Step,
};
use fin::sources::github::{
    cache_fingerprint, cap_warning, default_kinds, id, searches, viewer_login, SearchRun,
};
use fin::time::{Instant, Moment};
use jiff::tz::TimeZone;

fn json(text: &str) -> Json {
    Json::parse(text).unwrap()
}

fn tz() -> TimeZone {
    TimeZone::get("Europe/Oslo").unwrap()
}

fn range() -> TimeRange {
    let now = Moment::parse("2026-09-15T14:30:00+02:00[Europe/Oslo]").unwrap();
    period::resolve(&now, Period::Week, DayName::Mon, false).unwrap()
}

// Authentication

struct FixedGh(Result<String, String>);

impl GhTokenSource for FixedGh {
    fn token(&self, _host: &str) -> Result<String, String> {
        self.0.clone()
    }
}

fn no_env(_: &str) -> Option<String> {
    None
}

#[test]
fn env_token_takes_precedence_and_names_its_variable() {
    let env = |name: &str| (name == "GITHUB_TOKEN").then(|| "gho_env".to_string());
    let (token, origin) = token_from_env(&env).unwrap();
    assert_eq!(token, "gho_env");
    assert_eq!(origin, Origin::Env("GITHUB_TOKEN"));
}

#[test]
fn gh_token_wins_over_github_token() {
    let env = |name: &str| match name {
        "GH_TOKEN" => Some("first".to_string()),
        "GITHUB_TOKEN" => Some("second".to_string()),
        _ => None,
    };
    assert_eq!(token_from_env(&env).unwrap().0, "first");
}

#[test]
fn blank_env_values_are_ignored() {
    let env = |_: &str| Some("   ".to_string());
    assert!(token_from_env(&env).is_none());
}

#[test]
fn the_cli_is_consulted_only_when_the_environment_is_empty() {
    let gh = FixedGh(Ok("gho_from_cli".to_string()));
    let creds = discover(&no_env, &|host: &str| gh.token(host)).unwrap();
    assert_eq!(creds.token.expose(), "gho_from_cli");
    assert_eq!(creds.origin, Origin::GhCli);

    let env = |name: &str| (name == "GH_TOKEN").then(|| "gho_env".to_string());
    assert_eq!(discover(&env, &|host: &str| gh.token(host)).unwrap().origin, Origin::Env("GH_TOKEN"));
}

#[test]
fn token_output_is_trimmed_of_its_trailing_newline() {
    assert_eq!(parse_token_output(true, "gho_abc\n", "").unwrap(), "gho_abc");
}

#[test]
fn a_failing_gh_surfaces_its_own_message_and_the_remedy() {
    let err = parse_token_output(false, "", "You are not logged into any GitHub hosts").unwrap_err();
    assert!(err.contains("not logged into"), "lost gh's message: {err}");
    assert!(err.contains("gh auth login"), "no remedy offered: {err}");
}

#[test]
fn an_empty_success_is_still_an_error() {
    assert!(parse_token_output(true, "  \n", "").is_err());
}

#[test]
fn a_failing_gh_without_detail_still_errors_usefully() {
    let err = parse_token_output(false, "", "   ").unwrap_err();
    assert!(err.contains("gh auth login"));
}

#[test]
fn auth_token_debug_output_hides_the_secret() {
    let rendered = Token::new("gho_supersecret").debug_text();
    assert_eq!(rendered, "Token(<redacted>)");
    assert!(!rendered.contains("supersecret"));
}

#[test]
fn a_failing_cli_reports_its_own_error() {
    let gh = FixedGh(Err("`gh` is not installed".to_string()));
    let err = discover(&no_env, &|host: &str| gh.token(host)).err().unwrap();
    assert_eq!(err, "`gh` is not installed");
}

struct EchoHost;

impl GhTokenSource for EchoHost {
    fn token(&self, host: &str) -> Result<String, String> {
        Ok(format!("for {host}"))
    }
}

#[test]
fn the_cli_is_asked_for_a_github_com_token() {
    let creds = discover(&no_env, &|host: &str| EchoHost.token(host)).unwrap();
    assert_eq!(creds.token.expose(), "for github.com");
    assert_eq!(creds.origin, Origin::GhCli);
}

#[test]
fn origins_describe_themselves_for_diagnostics() {
    assert_eq!(Origin::Env("GH_TOKEN").describe(), "$GH_TOKEN");
    assert_eq!(Origin::GhCli.describe(), "gh auth token");
}

// Client

#[test]
fn client_ok_status_passes() {
    assert!(check_status(200, "{}").is_ok());
}

#[test]
fn unauthorized_status_suggests_reauthenticating() {
    let err = check_status(401, "").unwrap_err();
    assert!(err.contains("gh auth login"));
}

#[test]
fn forbidden_status_mentions_scopes_and_sso() {
    let err = check_status(403, "").unwrap_err();
    assert!(err.contains("read:org"));
    assert!(err.contains("SSO"));
}

#[test]
fn other_statuses_include_the_body() {
    let err = check_status(502, "bad gateway").unwrap_err();
    assert!(err.contains("502"));
    assert!(err.contains("bad gateway"));
}

#[test]
fn graphql_errors_are_surfaced_despite_a_200() {
    let body = json(r#"{"errors": [{"message": "Field 'bogus' doesn't exist"}, {"message": "second"}]}"#);
    let err = check_graphql_errors(&body).unwrap_err();
    assert!(err.contains("doesn't exist"));
    assert!(err.contains("second"));
    assert_eq!(err, "GitHub GraphQL error: Field 'bogus' doesn't exist; second");
}

#[test]
fn graphql_errors_without_messages_fall_back_to_the_body() {
    let body = json(r#"{"errors": [{"type": "RATE_LIMITED"}]}"#);
    let err = check_graphql_errors(&body).unwrap_err();
    assert!(err.contains("RATE_LIMITED"), "body missing from: {err}");
    assert_eq!(err, r#"GitHub GraphQL error: {"errors":[{"type":"RATE_LIMITED"}]}"#);
}

#[test]
fn truncation_counts_characters_rather_than_bytes() {
    assert_eq!(truncate("  æøå  ", 3), "æøå");
    assert_eq!(truncate("æøåæøå", 3), "æøå…");
}

#[test]
fn an_absent_or_empty_errors_array_is_fine() {
    assert!(check_graphql_errors(&json(r#"{"data": {}}"#)).is_ok());
    assert!(check_graphql_errors(&json(r#"{"errors": []}"#)).is_ok());
}

#[test]
fn a_rate_limited_graphql_error_is_recognised() {
    let limited = json(r#"{"errors": [{"type": "RATE_LIMITED", "message": "API rate limit exceeded"}]}"#);
    let other = json(r#"{"errors": [{"type": "NOT_FOUND", "message": "nope"}]}"#);
    assert!(is_graphql_rate_limit(&limited));
    assert!(!is_graphql_rate_limit(&other));
    assert!(!is_graphql_rate_limit(&json(r#"{"data": {}}"#)));
}

#[test]
fn a_forbidden_status_is_a_rate_limit_only_when_the_headers_say_so() {
    let exhausted = RateLimit { remaining: Some(0), ..Default::default() };
    assert!(is_rate_limit(429, &RateLimit::default()));
    assert!(is_rate_limit(403, &exhausted));
    assert!(!is_rate_limit(403, &RateLimit::default()));
    assert!(!is_rate_limit(401, &exhausted));
}

#[test]
fn long_bodies_are_truncated() {
    let long = "x".repeat(500);
    let err = check_status(500, &long).unwrap_err();
    assert!(err.contains('…'));
    assert!(err.len() < 400);
}

// Mapping

fn body() -> Json {
    json(
        r#"{
          "data": { "search": {
            "issueCount": 4,
            "pageInfo": { "hasNextPage": false, "endCursor": "Y3Vyc29y" },
            "nodes": [
              { "__typename": "PullRequest", "number": 12, "title": "Add retries",
                "url": "https://github.com/o/r/pull/12", "mergedAt": "2026-09-14T09:15:00Z",
                "repository": { "nameWithOwner": "o/r" } },
              { "__typename": "PullRequest", "number": 13, "title": "Never merged",
                "url": "https://github.com/o/r/pull/13", "mergedAt": null,
                "repository": { "nameWithOwner": "o/r" } },
              { "__typename": "Issue", "number": 7, "title": "Flaky test",
                "url": "https://github.com/o/r/issues/7", "closedAt": "2026-09-15T07:00:00Z",
                "stateReason": "COMPLETED", "repository": { "nameWithOwner": "o/r" } },
              { "__typename": "Issue", "number": 8, "title": "Wont do",
                "url": "https://github.com/o/r/issues/8", "closedAt": "2026-09-15T07:30:00Z",
                "stateReason": "NOT_PLANNED", "repository": { "nameWithOwner": "o/r" } }
            ]
          }}
        }"#,
    )
}

#[test]
fn maps_pull_requests_and_issues_into_items() {
    let page = parse_page(&body()).unwrap();
    let items = to_items(&page, &tz(), false);
    assert_eq!(items.len(), 2);
    assert_eq!(items[0].kind, Kind::new("pr"));
    assert_eq!(items[0].reference.as_deref(), Some("#12"));
    assert_eq!(items[0].title, "Add retries");
    assert_eq!(items[0].context.as_deref(), Some("o/r"));
    assert_eq!(items[1].kind, Kind::new("issue"));
}

#[test]
fn timestamps_are_converted_into_the_target_zone() {
    let page = parse_page(&body()).unwrap();
    let items = to_items(&page, &tz(), false);
    // 09:15Z is 11:15 in Oslo on a summer date, still the 14th.
    assert_eq!(items[0].date(), "2026-09-14");
    assert_eq!(items[0].completed_at.clock.hour, 11);
}

#[test]
fn items_without_a_completion_time_are_dropped() {
    let page = parse_page(&body()).unwrap();
    let items = to_items(&page, &tz(), false);
    assert!(!items.iter().any(|i| i.title.contains("Never merged")));
}

#[test]
fn issues_closed_as_not_planned_are_excluded_by_default() {
    let page = parse_page(&body()).unwrap();
    assert!(!to_items(&page, &tz(), false).iter().any(|i| i.title.contains("Wont do")));
    assert!(to_items(&page, &tz(), true).iter().any(|i| i.title.contains("Wont do")));
}

#[test]
fn unknown_node_types_are_ignored_rather_than_failing() {
    let raw = json(
        r#"{ "data": { "search": {
            "issueCount": 1,
            "pageInfo": { "hasNextPage": false, "endCursor": null },
            "nodes": [ { "__typename": "Discussion", "title": "hello" } ]
        }}}"#,
    );
    let page = parse_page(&raw).unwrap();
    assert!(to_items(&page, &tz(), false).is_empty());
}

#[test]
fn page_info_is_read_for_pagination() {
    let page = parse_page(&body()).unwrap();
    assert!(!page.page_info.has_next_page);
    assert_eq!(page.issue_count, 4);
}

#[test]
fn a_response_without_search_data_is_an_error() {
    let raw = json(r#"{ "data": {} }"#);
    assert!(parse_page(&raw).is_err());
}

#[test]
fn a_malformed_page_is_an_error_rather_than_an_empty_one() {
    let raw = json(r#"{ "data": { "search": { "issueCount": "many" } } }"#);
    assert_eq!(parse_page(&raw).unwrap_err(), "unexpected search result shape");
    assert_eq!(
        parse_page(&json(r#"{ "data": {} }"#)).unwrap_err(),
        "response contained no search results"
    );
}

#[test]
fn item_fields_come_from_their_nodes() {
    let page = parse_page(&body()).unwrap();
    let items = to_items(&page, &tz(), true);
    assert_eq!(items.len(), 3);
    assert_eq!(items[0].url, "https://github.com/o/r/pull/12");
    assert_eq!(items[0].source.as_str(), "github");
    assert_eq!(items[0].completed_at.instant, Instant::parse("2026-09-14T09:15:00Z").unwrap());
    assert_eq!(items[2].reference.as_deref(), Some("#8"));
}

// Queries

#[test]
fn merged_pr_query_bounds_on_merge_time() {
    let q = merged_prs("joakimen", &range(), &[]);
    assert_eq!(q.len(), 1);
    assert_eq!(
        q[0].query,
        "is:pr author:joakimen is:merged \
         merged:2026-09-14T00:00:00+02:00..2026-09-15T14:30:00+02:00"
    );
}

#[test]
fn either_match_produces_one_query_per_qualifier() {
    let q = closed_issues("joakimen", &range(), &[], IssueMatch::Either);
    assert_eq!(q.len(), 2);
    assert!(q[0].query.contains("author:joakimen"));
    assert!(q[1].query.contains("assignee:joakimen"));
    assert!(q.iter().all(|s| s.kind == "issue"));
}

#[test]
fn narrower_match_produces_a_single_query() {
    assert_eq!(closed_issues("j", &range(), &[], IssueMatch::Author).len(), 1);
    assert_eq!(closed_issues("j", &range(), &[], IssueMatch::Assignee).len(), 1);
}

#[test]
fn organizations_are_appended_as_repeated_qualifiers() {
    let orgs = vec!["one".to_string(), "two".to_string()];
    let q = merged_prs("j", &range(), &orgs);
    assert!(q[0].query.ends_with(" org:one org:two"));
}

#[test]
fn blank_organization_entries_are_skipped() {
    let orgs = vec!["  ".to_string(), "real".to_string()];
    assert_eq!(org_filter(&orgs), " org:real");
    assert_eq!(org_filter(&[]), "");
}

#[test]
fn issue_queries_bound_on_close_time() {
    let q = closed_issues("j", &range(), &["acme".to_string()], IssueMatch::Assignee);
    assert_eq!(
        q[0],
        Search {
            kind: "issue",
            query: "is:issue assignee:j is:closed \
                    closed:2026-09-14T00:00:00+02:00..2026-09-15T14:30:00+02:00 org:acme"
                .to_string(),
        }
    );
}

// Source

#[test]
fn the_cap_warning_names_the_search_it_concerns() {
    assert!(cap_warning("pr", 1001).unwrap().contains("pull request search"));
    assert!(cap_warning("issue", 1001).unwrap().contains("issue search"));
    assert!(cap_warning("issue", 1000).is_none());
}

#[test]
fn only_the_requested_kinds_are_queried() {
    let planned = searches("joakimen", &range(), &GithubConfig::default(), &[Kind::new("pr")]);
    assert_eq!(planned.len(), 1);
    assert!(planned[0].query.contains("is:pr"));
    assert!(!planned.iter().any(|s| s.query.contains("is:issue")));
    let all = searches("joakimen", &range(), &GithubConfig::default(), &default_kinds());
    assert_eq!(all.len(), 3);
    assert_eq!(all[0].kind, "pr");
}

#[test]
fn configured_orgs_reach_the_query() {
    let config = GithubConfig { orgs: vec!["acme".into()], ..Default::default() };
    let planned = searches("joakimen", &range(), &config, &default_kinds());
    assert!(planned.iter().all(|s| s.query.contains("org:acme")));
}

#[test]
fn the_fingerprint_tracks_every_setting_that_shapes_a_query() {
    let base = cache_fingerprint(&GithubConfig::default());
    let with_org = cache_fingerprint(&GithubConfig { orgs: vec!["acme".into()], ..Default::default() });
    let with_match = cache_fingerprint(&GithubConfig {
        issue_match: IssueMatch::Author,
        ..Default::default()
    });
    let with_not_planned = cache_fingerprint(&GithubConfig {
        include_not_planned: true,
        ..Default::default()
    });
    assert_ne!(base, with_org);
    assert_ne!(base, with_match);
    assert_ne!(base, with_not_planned);
}

#[test]
fn the_fingerprint_ignores_the_order_organizations_are_listed_in() {
    let forward = cache_fingerprint(&GithubConfig {
        orgs: vec!["a".into(), "b".into()],
        ..Default::default()
    });
    let reverse = cache_fingerprint(&GithubConfig {
        orgs: vec!["b".into(), "a".into()],
        ..Default::default()
    });
    assert_eq!(forward, reverse);
    assert_eq!(forward, "orgs=a,b;issues=Either;not_planned=false");
}

#[test]
fn the_source_is_github_and_asks_for_prs_and_issues_by_default() {
    assert_eq!(id().as_str(), "github");
    assert_eq!(default_kinds(), vec![Kind::new("pr"), Kind::new("issue")]);
}

#[test]
fn the_viewer_login_is_read_from_its_query() {
    let body = json(r#"{"data": {"viewer": {"login": "joakimen"}}}"#);
    assert_eq!(viewer_login(&body).unwrap(), "joakimen");
    assert_eq!(
        viewer_login(&json(r#"{"data": {}}"#)).unwrap_err(),
        "GitHub did not return a login for the token"
    );
}

fn pr_page(matched: u32, number: u64, cursor: Option<&str>) -> Json {
    let info = match cursor {
        Some(c) => format!(r#"{{"hasNextPage": true, "endCursor": "{c}"}}"#),
        None => r#"{"hasNextPage": false, "endCursor": null}"#.to_string(),
    };
    json(&format!(
        r#"{{"data": {{"search": {{"issueCount": {matched}, "pageInfo": {info}, "nodes": [
            {{"__typename": "PullRequest", "number": {number}, "title": "work",
              "url": "https://github.com/o/r/pull/{number}", "mergedAt": "2026-09-14T09:00:00Z",
              "repository": {{"nameWithOwner": "o/r"}}}}]}}}}}}"#
    ))
}

fn pr_search() -> Search {
    Search { kind: "pr", query: "is:pr".to_string() }
}

#[test]
fn pagination_follows_the_cursor_until_exhausted() {
    let search = pr_search();
    let mut run = SearchRun::new();
    let first = run.variables(&search);
    assert_eq!(get(&first, "q").and_then(as_text), Some("is:pr"));
    assert!(matches!(get(&first, "cursor"), Some(Json::Null)));
    assert_eq!(get(&first, "size").unwrap().to_compact(), "100");
    run.take_page(&search, &pr_page(2, 1, Some("c1")), &tz(), false).unwrap();
    assert!(!run.done);
    assert_eq!(run.cursor.as_deref(), Some("c1"));
    let next = run.variables(&search);
    assert_eq!(get(&next, "cursor").and_then(as_text), Some("c1"));
    run.take_page(&search, &pr_page(2, 2, None), &tz(), false).unwrap();
    assert!(run.done);
    let refs: Vec<Option<&str>> = run.items.iter().map(|i: &Item| i.reference.as_deref()).collect();
    assert_eq!(refs, vec![Some("#1"), Some("#2")]);
}

#[test]
fn a_page_claiming_more_without_a_cursor_terminates() {
    let search = pr_search();
    let mut run = SearchRun::new();
    let body = json(
        r#"{ "data": { "search": {
            "issueCount": 1,
            "pageInfo": { "hasNextPage": true, "endCursor": null },
            "nodes": [{"__typename": "PullRequest", "number": 1, "title": "work",
              "url": "https://github.com/o/r/pull/1", "mergedAt": "2026-09-14T09:00:00Z",
              "repository": {"nameWithOwner": "o/r"}}]
        }}}"#,
    );
    run.take_page(&search, &body, &tz(), false).unwrap();
    assert!(run.done);
    assert_eq!(run.items.len(), 1);
}

#[test]
fn a_search_over_the_result_cap_warns_but_still_returns_its_items() {
    let search = pr_search();
    let mut run = SearchRun::new();
    run.take_page(&search, &pr_page(1500, 1, None), &tz(), false).unwrap();
    assert_eq!(run.items.len(), 1);
    let warning = run.capped.unwrap();
    assert!(warning.contains("1500"), "{warning}");
    assert!(warning.contains("--org"), "{warning}");
}

#[test]
fn a_search_within_the_result_cap_raises_no_warning() {
    let search = pr_search();
    let mut run = SearchRun::new();
    run.take_page(&search, &pr_page(1000, 1, None), &tz(), false).unwrap();
    assert!(run.capped.is_none());
}

#[test]
fn a_failed_page_leaves_the_search_as_it_was() {
    let search = pr_search();
    let mut run = SearchRun::new();
    let err = run.take_page(&search, &json(r#"{"data": {}}"#), &tz(), false).unwrap_err();
    assert_eq!(err, "response contained no search results");
    assert!(run.items.is_empty());
    assert!(!run.done);
    assert!(run.cursor.is_none());
}

// Retries

fn now() -> Instant {
    Instant::parse("2026-09-15T12:00:00Z").unwrap()
}

fn policy() -> Policy {
    Policy::default()
}

fn secs(n: u64) -> Duration {
    Duration::from_secs(n)
}

#[test]
fn transient_failures_back_off_exponentially_until_attempts_run_out() {
    let cases = [
        (Failure::Transport, 1, Decision::Retry(secs(1))),
        (Failure::Transport, 2, Decision::Retry(secs(2))),
        (Failure::Transport, 3, Decision::Exhausted),
        (Failure::Status(502, RateLimit::default()), 1, Decision::Retry(secs(1))),
        (Failure::Status(503, RateLimit::default()), 2, Decision::Retry(secs(2))),
        (Failure::Status(504, RateLimit::default()), 3, Decision::Exhausted),
    ];
    for (failure, attempt, expected) in cases {
        assert_eq!(
            decide(&policy(), &failure, attempt, now()),
            expected,
            "{failure:?} on attempt {attempt}"
        );
    }
}

#[test]
fn failures_a_retry_cannot_fix_are_never_retried() {
    let cases = [
        Failure::Permanent,
        Failure::Status(400, RateLimit::default()),
        Failure::Status(401, RateLimit::default()),
        Failure::Status(403, RateLimit::default()),
        Failure::Status(404, RateLimit::default()),
        Failure::Status(500, RateLimit::default()),
    ];
    for failure in cases {
        assert_eq!(decide(&policy(), &failure, 1, now()), Decision::Permanent, "{failure:?}");
    }
}

#[test]
fn a_rate_limit_waits_as_long_as_github_asks_within_the_cap() {
    let after = RateLimit { retry_after: Some(secs(5)), ..Default::default() };
    let reset = RateLimit {
        remaining: Some(0),
        reset: Some(Instant::parse("2026-09-15T12:00:20Z").unwrap()),
        ..Default::default()
    };
    let cases = [
        (Failure::Status(429, after), Decision::Retry(secs(5))),
        (Failure::Status(403, after), Decision::Retry(secs(5))),
        (Failure::Status(403, reset), Decision::Retry(secs(20))),
        (Failure::RateLimited(reset), Decision::Retry(secs(20))),
        (Failure::Status(429, RateLimit::default()), Decision::Retry(secs(1))),
    ];
    for (failure, expected) in cases {
        assert_eq!(decide(&policy(), &failure, 1, now()), expected, "{failure:?}");
    }
}

#[test]
fn a_rate_limit_beyond_the_cap_fails_at_once_with_the_wait() {
    let limit = RateLimit {
        remaining: Some(0),
        reset: Some(Instant::parse("2026-09-15T12:10:00Z").unwrap()),
        ..Default::default()
    };
    assert_eq!(
        decide(&policy(), &Failure::Status(403, limit), 1, now()),
        Decision::RateLimited { wait: Some(secs(600)) }
    );
}

#[test]
fn a_rate_limit_still_in_force_on_the_last_attempt_is_reported_as_one() {
    let limit = RateLimit { retry_after: Some(secs(5)), ..Default::default() };
    assert_eq!(
        decide(&policy(), &Failure::Status(429, limit), 3, now()),
        Decision::RateLimited { wait: Some(secs(5)) }
    );
}

#[test]
fn a_reset_already_past_retries_immediately() {
    let limit = RateLimit {
        remaining: Some(0),
        reset: Some(Instant::parse("2026-09-15T11:59:00Z").unwrap()),
        ..Default::default()
    };
    assert_eq!(
        decide(&policy(), &Failure::Status(403, limit), 1, now()),
        Decision::Retry(Duration::zero())
    );
}

#[test]
fn headers_parse_into_rate_limit_signals() {
    let headers = |name: &str| match name {
        "retry-after" => Some("7"),
        "x-ratelimit-remaining" => Some("0"),
        "x-ratelimit-reset" => Some("1789473600"),
        _ => None,
    };
    let limit = RateLimit::from_headers(headers);
    assert_eq!(limit.retry_after, Some(secs(7)));
    assert_eq!(limit.remaining, Some(0));
    assert_eq!(limit.reset.unwrap().second, 1_789_473_600);
    assert!(limit.is_exhausted());
}

#[test]
fn malformed_or_absent_headers_signal_nothing() {
    let limit = RateLimit::from_headers(|name: &str| (name == "retry-after").then_some("soon"));
    assert_eq!(limit, RateLimit::default());
    assert!(!limit.is_exhausted());
}

#[test]
fn the_rate_limit_message_rounds_up_to_whole_minutes() {
    assert!(rate_limit_message(Some(secs(600))).contains("about 10 minutes"));
    assert!(rate_limit_message(Some(secs(31))).contains("about 1 minute"));
    assert!(rate_limit_message(None).contains("try again later"));
}

#[test]
fn header_values_are_trimmed_before_they_are_read() {
    let limit = RateLimit::from_values(Some(" 3 "), Some("12"), None);
    assert_eq!(limit.retry_after, Some(secs(3)));
    assert_eq!(limit.remaining, Some(12));
    assert!(limit.reset.is_none());
    assert!(limit.is_exhausted());
}

#[test]
fn a_transient_failure_is_retried_after_the_backoff() {
    let client = Retrying::new((), (), policy(), Diag::new(false));
    let step = client.after_failure(&Failure::Status(502, RateLimit::default()), 1, now());
    assert_eq!(step, Step::Wait { delay: secs(1), next: 2 });
}

#[test]
fn exhausted_retries_say_how_many_attempts_were_made() {
    let client = Retrying::new((), (), policy(), Diag::new(false));
    assert_eq!(
        client.after_failure(&Failure::Transport, 2, now()),
        Step::Wait { delay: secs(2), next: 3 }
    );
    assert_eq!(
        client.after_failure(&Failure::Transport, 3, now()),
        Step::GiveUp { context: Some("gave up after 3 attempts".to_string()) }
    );
}

#[test]
fn a_permanent_failure_returns_its_own_error_without_sleeping() {
    let client = Retrying::new((), (), policy(), Diag::new(false));
    assert_eq!(
        client.after_failure(&Failure::Status(401, RateLimit::default()), 1, now()),
        Step::GiveUp { context: None }
    );
}

#[test]
fn a_long_rate_limit_fails_without_waiting_it_out() {
    let limit = RateLimit { retry_after: Some(secs(3600)), ..Default::default() };
    let client = Retrying::new((), (), policy(), Diag::new(false));
    assert_eq!(
        client.after_failure(&Failure::Status(429, limit), 1, now()),
        Step::GiveUp {
            context: Some(
                "GitHub's rate limit is exhausted and resets in about 60 minutes".to_string()
            )
        }
    );
}

#[test]
fn fetching_prs_maps_the_single_page() {
    let search = pr_search();
    let mut run = SearchRun::new();
    run.take_page(&search, &pr_page(1, 1, None), &tz(), false).unwrap();
    assert!(run.done);
    assert_eq!(run.items.len(), 1);
    assert_eq!(run.items[0].reference.as_deref(), Some("#1"));
    assert_eq!(run.items[0].title, "work");
}

#[test]
fn either_match_dedupes_an_issue_found_by_both_queries() {
    let issue = r#"{"data": {"search": {"issueCount": 1,
        "pageInfo": {"hasNextPage": false, "endCursor": null},
        "nodes": [{"__typename": "Issue", "number": 5, "title": "dup",
            "url": "https://github.com/o/r/issues/5", "closedAt": "2026-09-14T09:00:00Z",
            "stateReason": "COMPLETED", "repository": {"nameWithOwner": "o/r"}}]}}}"#;
    let planned = searches("joakimen", &range(), &GithubConfig::default(), &[Kind::new("issue")]);
    assert_eq!(planned.len(), 2);
    let mut fetch = fin::source::Fetch::new();
    for search in &planned {
        let mut run = SearchRun::new();
        run.take_page(search, &json(issue), &tz(), false).unwrap();
        fetch.add(run.items, run.capped);
    }
    assert_eq!(fetch.items.len(), 2);
    fetch.dedupe_items();
    assert_eq!(fetch.items.len(), 1);
}

#[test]
fn answers_are_classified_by_status_body_and_errors() {
    let limited = RateLimit { remaining: Some(0), ..Default::default() };
    let f = classify(403, limited, "").unwrap_err();
    assert_eq!(f.failure, Failure::Status(403, limited));
    assert_eq!(f.message, "GitHub rate limit exceeded (HTTP 403)");
    let f = classify(401, RateLimit::default(), "").unwrap_err();
    assert_eq!(f.failure, Failure::Status(401, RateLimit::default()));
    assert!(f.message.contains("gh auth login"));
    assert!(f.cause.is_none());
    let f = classify(200, RateLimit::default(), "<html>").unwrap_err();
    assert_eq!(f.failure, Failure::Permanent);
    assert_eq!(f.message, "response was not valid JSON");
    assert!(f.cause.is_some());
    let f = classify(200, limited, r#"{"errors": [{"type": "RATE_LIMITED", "message": "slow down"}]}"#)
        .unwrap_err();
    assert_eq!(f.failure, Failure::RateLimited(limited));
    assert_eq!(f.message, "GitHub GraphQL error: slow down");
    let f = classify(200, limited, r#"{"errors": [{"message": "bad field"}]}"#).unwrap_err();
    assert_eq!(f.failure, Failure::Permanent);
    let ok = classify(200, limited, r#"{"data": {"viewer": {"login": "me"}}}"#).unwrap();
    assert_eq!(viewer_login(&ok).unwrap(), "me");
}

#[test]
fn items_are_seen_in_the_zone_they_were_mapped_into() {
    let page = parse_page(&body()).unwrap();
    let items = to_items(&page, &tz(), false);
    assert!(!items.is_empty());
    for item in &items {
        assert_eq!(item.completed_at.zone, tz());
        // Oslo is two hours east of UTC in September.
        assert_eq!(item.completed_at.offset, 7200);
    }
}
