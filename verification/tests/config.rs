use fin::cli::Cli;
use fin::config::{
    config_path, parse_ttl, resolve, ConfigError, ConfigFile, Format, IssueMatch, DEFAULT_CACHE_TTL,
};
use fin::duration::Duration;
use fin::item::{Kind, SourceId};
use fin::period::{date_text, DayName, Period};
use fin::time::{Date, Moment};

fn now() -> Moment {
    Moment::parse("2026-09-15T14:30:00+02:00[Europe/Oslo]").unwrap()
}

fn date(text: &str) -> Date {
    Date::parse(text).unwrap()
}

#[test]
fn defaults_to_the_current_week_on_github() {
    let s = resolve(&Cli::default(), ConfigFile::default(), &now()).unwrap();
    assert_eq!(s.sources, vec![SourceId::new("github")]);
    assert_eq!(date_text(s.range.start.date), "2026-09-14");
    assert_eq!(s.format, Format::Terminal);
}

#[test]
fn config_period_applies_when_no_flag_is_given() {
    let file = ConfigFile::parse("period = \"month\"").unwrap();
    let s = resolve(&Cli::default(), file, &now()).unwrap();
    assert_eq!(date_text(s.range.start.date), "2026-09-01");
}

#[test]
fn a_period_flag_overrides_the_configured_period() {
    let file = ConfigFile::parse("period = \"month\"").unwrap();
    let cli = Cli { week: true, ..Default::default() };
    let s = resolve(&cli, file, &now()).unwrap();
    assert_eq!(date_text(s.range.start.date), "2026-09-14");
}

#[test]
fn configured_first_day_of_week_moves_the_window() {
    let file = ConfigFile::parse("first_day_of_week = \"sun\"").unwrap();
    let cli = Cli { week: true, ..Default::default() };
    let s = resolve(&cli, file, &now()).unwrap();
    assert_eq!(date_text(s.range.start.date), "2026-09-13");
}

#[test]
fn explicit_dates_win_over_any_period() {
    let file = ConfigFile::parse("period = \"month\"").unwrap();
    let cli = Cli {
        since: Some(date("2026-08-03")),
        until: Some(date("2026-08-09")),
        ..Default::default()
    };
    let s = resolve(&cli, file, &now()).unwrap();
    assert_eq!(date_text(s.range.start.date), "2026-08-03");
    assert_eq!(date_text(s.range.end.date), "2026-08-10");
}

#[test]
fn source_column_is_dropped_for_a_single_source() {
    let file = ConfigFile::parse("sources = [\"github\", \"todoist\"]").unwrap();
    assert!(resolve(&Cli::default(), file, &now()).unwrap().show_source_column);
    let cli = Cli { github: true, ..Default::default() };
    assert!(!resolve(&cli, ConfigFile::default(), &now()).unwrap().show_source_column);
}

#[test]
fn a_source_flag_narrows_the_configured_set() {
    let file = ConfigFile::parse("sources = [\"github\", \"todoist\"]").unwrap();
    let cli = Cli { github: true, ..Default::default() };
    let s = resolve(&cli, file, &now()).unwrap();
    assert_eq!(s.sources, vec![SourceId::new("github")]);
}

#[test]
fn type_flags_replace_configured_types_for_selected_sources() {
    let file = ConfigFile::parse("[types]\ngithub = [\"pr\", \"issue\"]").unwrap();
    let cli = Cli { types: vec![Kind::new("pr")], ..Default::default() };
    let s = resolve(&cli, file, &now()).unwrap();
    assert_eq!(s.kinds_for(&SourceId::new("github"), &[]), vec![Kind::new("pr")]);
}

#[test]
fn kinds_fall_back_to_source_defaults_when_unconfigured() {
    let s = resolve(&Cli::default(), ConfigFile::default(), &now()).unwrap();
    let defaults = vec![Kind::new("pr"), Kind::new("issue")];
    assert_eq!(s.kinds_for(&SourceId::new("github"), &defaults), defaults);
}

#[test]
fn org_flags_replace_configured_orgs() {
    let file = ConfigFile::parse("[github]\norgs = [\"from-config\"]").unwrap();
    let cli = Cli { orgs: vec!["from-flag".to_string()], ..Default::default() };
    let s = resolve(&cli, file, &now()).unwrap();
    assert_eq!(s.github.orgs, vec!["from-flag".to_string()]);
}

#[test]
fn unknown_configuration_keys_are_rejected() {
    assert!(ConfigFile::parse("perild = \"week\"").is_err());
}

#[test]
fn a_full_configuration_parses() {
    let file = ConfigFile::parse(
        r#"
            first_day_of_week = "mon"
            period = "week"
            sources = ["github"]

            [types]
            github = ["pr", "issue"]

            [github]
            orgs = []
            issue_match = "either"
            "#,
    )
    .unwrap();
    assert_eq!(file.first_day_of_week, Some(DayName::Mon));
    assert_eq!(file.github.issue_match, IssueMatch::Either);
}

#[test]
fn cache_ttl_defaults_to_fifteen_minutes() {
    let s = resolve(&Cli::default(), ConfigFile::default(), &now()).unwrap();
    assert_eq!(s.cache_ttl, Duration::from_secs(900));
    assert_eq!(DEFAULT_CACHE_TTL, 900);
}

#[test]
fn configured_cache_ttl_is_honoured() {
    let file = ConfigFile::parse("cache_ttl = \"2h\"").unwrap();
    assert_eq!(resolve(&Cli::default(), file, &now()).unwrap().cache_ttl, Duration::from_secs(7200));
}

#[test]
fn no_cache_flag_overrides_any_configured_ttl() {
    let file = ConfigFile::parse("cache_ttl = \"2h\"").unwrap();
    let cli = Cli { no_cache: true, ..Default::default() };
    assert_eq!(resolve(&cli, file, &now()).unwrap().cache_ttl, Duration::zero());
}

#[test]
fn ttl_units_parse() {
    assert_eq!(parse_ttl("45s").unwrap(), Duration::from_secs(45));
    assert_eq!(parse_ttl("15m").unwrap(), Duration::from_secs(900));
    assert_eq!(parse_ttl("2h").unwrap(), Duration::from_secs(7200));
    assert_eq!(parse_ttl(" 15m ").unwrap(), Duration::from_secs(900));
}

#[test]
fn a_bare_number_is_read_as_minutes() {
    assert_eq!(parse_ttl("15").unwrap(), Duration::from_secs(900));
}

#[test]
fn zero_ttl_disables_caching() {
    assert_eq!(parse_ttl("0").unwrap(), Duration::zero());
}

#[test]
fn a_malformed_ttl_is_rejected_with_the_accepted_units() {
    let err = parse_ttl("soon").unwrap_err().message();
    assert!(err.contains("s, m or h"), "unhelpful error: {err}");
    assert!(parse_ttl("10d").is_err());
    assert!(parse_ttl("").is_err());
}

#[test]
fn config_path_follows_flag_then_xdg_then_home() {
    let flag = "/tmp/a.toml";
    assert_eq!(config_path(Some(flag), Some("/xdg"), Some("/home")).unwrap(), flag);
    assert_eq!(config_path(None, Some("/xdg"), Some("/home")).unwrap(), "/xdg/fin/config.toml");
    assert_eq!(config_path(None, None, Some("/home")).unwrap(), "/home/.config/fin/config.toml");
    assert!(config_path(None, None, None).is_err());
}

#[test]
fn each_ttl_error_names_what_was_wrong() {
    assert_eq!(
        parse_ttl("soon"),
        Err(ConfigError::InvalidTtl { text: "soon".to_string() })
    );
    assert_eq!(
        parse_ttl("10d"),
        Err(ConfigError::UnknownTtlUnit { unit: "d".to_string() })
    );
    assert_eq!(
        parse_ttl("99999999999999999999s"),
        Err(ConfigError::TtlTooLarge { text: "99999999999999999999s".to_string() })
    );
    assert_eq!(
        ConfigError::UnknownTtlUnit { unit: "d".to_string() }.message(),
        "unknown cache_ttl unit `d` (expected s, m or h)"
    );
}

#[test]
fn a_unit_may_follow_its_number_after_a_space() {
    assert_eq!(parse_ttl("2 h").unwrap(), Duration::from_secs(7200));
}

#[test]
fn configuration_errors_name_the_offending_key() {
    let unknown = ConfigFile::parse("perild = \"week\"").unwrap_err();
    assert_eq!(unknown, ConfigError::UnknownField { key: "perild".to_string() });
    assert_eq!(unknown.message(), "invalid configuration: unknown field `perild`");
    let invalid = ConfigFile::parse("period = \"fortnight\"").unwrap_err();
    assert_eq!(invalid, ConfigError::InvalidValue { key: "period".to_string() });
    assert!(matches!(
        ConfigFile::parse("period = "),
        Err(ConfigError::Syntax { .. })
    ));
    assert!(matches!(
        ConfigFile::parse("[github]\nissue_match = \"nobody\""),
        Err(ConfigError::InvalidValue { .. })
    ));
}

#[test]
fn markdown_wins_over_json_and_json_over_the_terminal() {
    let md = Cli { markdown: true, json: true, ..Default::default() };
    assert_eq!(resolve(&md, ConfigFile::default(), &now()).unwrap().format, Format::Markdown);
    let json = Cli { json: true, ..Default::default() };
    assert_eq!(resolve(&json, ConfigFile::default(), &now()).unwrap().format, Format::Json);
}

#[test]
fn an_inverted_explicit_window_is_refused() {
    let cli = Cli {
        since: Some(date("2026-09-10")),
        until: Some(date("2026-09-01")),
        ..Default::default()
    };
    let err = resolve(&cli, ConfigFile::default(), &now()).unwrap_err();
    assert_eq!(err.message(), "--until must not precede --since");
}

#[test]
fn the_file_spells_periods_in_full_lower_case() {
    let file = ConfigFile::parse("period = \"day\"").unwrap();
    assert_eq!(file.period, Some(Period::Day));
    assert!(ConfigFile::parse("period = \"D\"").is_err());
}

#[test]
fn an_empty_file_configures_nothing() {
    let file = ConfigFile::parse("").unwrap();
    assert_eq!(file.first_day_of_week, None);
    assert_eq!(file.period, None);
    assert!(file.sources.is_none());
    assert!(file.cache_ttl.is_none());
    assert!(file.github.orgs.is_empty());
    assert_eq!(file.github.issue_match, IssueMatch::Either);
    assert!(!file.github.include_not_planned);
}

#[test]
fn jira_settings_read_from_their_table() {
    let file = ConfigFile::parse(
        "[jira]\nsite = \"acme.atlassian.net\"\nemail = \"me@acme.test\"\nprojects = [\"OPS\"]",
    )
    .unwrap();
    assert_eq!(file.jira.site.as_deref(), Some("acme.atlassian.net"));
    assert_eq!(file.jira.email.as_deref(), Some("me@acme.test"));
    assert_eq!(file.jira.projects, vec!["OPS".to_string()]);
}

#[test]
fn a_lifetime_too_long_to_count_in_seconds_is_refused() {
    assert_eq!(
        parse_ttl("9999999999999999999h"),
        Err(ConfigError::TtlTooLarge { text: "9999999999999999999h".to_string() })
    );
    assert_eq!(
        parse_ttl("307445734561825861m"),
        Err(ConfigError::TtlTooLarge { text: "307445734561825861m".to_string() })
    );
    assert_eq!(parse_ttl("307445734561825860m").unwrap(), Duration::from_secs(18446744073709551600));
    assert_eq!(
        parse_ttl("18446744073709551615s").unwrap(),
        Duration::from_secs(u64::MAX)
    );
}
