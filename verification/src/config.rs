//! Configuration file model and precedence resolution.
//!
//! [`ConfigFile`] mirrors `config.toml` and is all-optional; [`Settings`] is
//! the fully-resolved form the rest of the program runs on, with no choices
//! left to make. `resolve` is pure: the clock and the file contents are
//! arguments, so precedence is testable without touching the filesystem.
use vstd::prelude::*;

use crate::cli::{named_period, Cli};
use crate::duration::Duration;
use crate::item::{Kind, SourceId};
use crate::kinds::{kind_names, KindTable};
use crate::period::{self, explicit_window, resolved, window_dates_spec, DayName, Period, PeriodError, TimeRange};
use crate::text::{
    opt_string, opt_view, all_digits, chars_of, copy_texts, digits_value, is_digit, owned, parse_u64_of, push_str, lower,
    same, string_of, trim, trimmed,
};
use crate::time::{days_after, ordinary, Moment};
use crate::toml_doc::{last_entry, parse_toml, text_of, text_value, texts_of, texts_value, toml_document, Toml};

verus! {

/// How an issue is matched to you, given that GitHub search cannot express
/// "closed by me".
#[derive(Debug, Clone, Copy, PartialEq, Eq, Structural, Default)]
pub enum IssueMatch {
    Author,
    Assignee,
    #[default]
    Either,
}

impl IssueMatch {
    /// The variant's name, as a fingerprint spells it.
    pub fn name(&self) -> (r: &'static str)
        ensures
            r@ == match self {
                IssueMatch::Author => "Author"@,
                IssueMatch::Assignee => "Assignee"@,
                IssueMatch::Either => "Either"@,
            },
    {
        match self {
            IssueMatch::Author => "Author",
            IssueMatch::Assignee => "Assignee",
            IssueMatch::Either => "Either",
        }
    }
}

/// The `[github]` table.
#[derive(Debug, Clone, Default)]
pub struct GithubConfig {
    /// Organizations to restrict results to. Empty means every repository the
    /// token can see.
    pub orgs: Vec<String>,
    pub issue_match: IssueMatch,
    /// Count issues closed as not planned. Off by default: abandoned work is
    /// not finished work.
    pub include_not_planned: bool,
}

/// The `[jira]` table.
#[derive(Debug, Clone, Default)]
pub struct JiraConfig {
    /// Jira Cloud site; falls back to `JIRA_HOST`.
    pub site: Option<String>,
    /// Email of the account the API token belongs to; falls back to
    /// `JIRA_API_USER`.
    pub email: Option<String>,
    /// Project keys to restrict results to. Empty means every project the
    /// account can browse.
    pub projects: Vec<String>,
}

/// The configuration file, every field optional.
#[derive(Debug)]
pub struct ConfigFile {
    pub first_day_of_week: Option<DayName>,
    /// How long a fetched result stays reusable, such as `15m`. `0` disables
    /// caching.
    pub cache_ttl: Option<String>,
    pub period: Option<Period>,
    pub sources: Option<Vec<SourceId>>,
    pub types: KindTable,
    pub github: GithubConfig,
    pub jira: JiraConfig,
}

/// Why the configuration could not be used.
#[derive(Debug, Clone, PartialEq, Eq)]
pub enum ConfigError {
    /// The file is not valid TOML.
    Syntax { detail: String },
    /// A key the configuration does not know.
    UnknownField { key: String },
    /// A key whose value has the wrong type or names no known choice.
    InvalidValue { key: String },
    /// A cache lifetime that does not start with a number.
    InvalidTtl { text: String },
    /// A cache lifetime whose number does not fit.
    TtlTooLarge { text: String },
    /// A cache lifetime with a unit other than s, m or h.
    UnknownTtlUnit { unit: String },
    /// Neither an explicit path nor `HOME` locates the configuration.
    HomeNotSet,
    /// The reporting window could not be resolved.
    Window { cause: PeriodError },
}

/// What a cache lifetime reads as: seconds, or the kind of error.
pub enum TtlReading {
    Seconds(u64),
    Invalid,
    TooLarge,
    UnknownUnit(Seq<char>),
}

/// How many leading characters of `s` are ASCII digits.
pub open spec fn digit_run(s: Seq<char>) -> nat
    decreases s.len(),
{
    if s.len() > 0 && is_digit(s[0]) {
        1 + digit_run(s.drop_first())
    } else {
        0
    }
}

/// How a cache lifetime such as `30s`, `15m` or `2h` reads: a number, then
/// a unit; a bare number counts minutes, and a bare `0` disables caching.
/// A lifetime whose seconds do not fit in 64 bits is too large.
pub open spec fn ttl_reading(text: Seq<char>) -> TtlReading {
    let t = trim(text);
    if t == "0"@ {
        TtlReading::Seconds(0)
    } else {
        let k = digit_run(t) as int;
        let digits = t.subrange(0, k);
        let unit = trim(t.subrange(k, t.len() as int));
        if k == 0 {
            TtlReading::Invalid
        } else if digits_value(digits) > u64::MAX {
            TtlReading::TooLarge
        } else if unit == "s"@ {
            TtlReading::Seconds(digits_value(digits) as u64)
        } else if unit == "m"@ || unit.len() == 0 {
            if digits_value(digits) * 60 > u64::MAX {
                TtlReading::TooLarge
            } else {
                TtlReading::Seconds((digits_value(digits) * 60) as u64)
            }
        } else if unit == "h"@ {
            if digits_value(digits) * 3600 > u64::MAX {
                TtlReading::TooLarge
            } else {
                TtlReading::Seconds((digits_value(digits) * 3600) as u64)
            }
        } else {
            TtlReading::UnknownUnit(unit)
        }
    }
}

proof fn lemma_digit_run(s: Seq<char>)
    ensures
        digit_run(s) <= s.len(),
        all_digits(s.subrange(0, digit_run(s) as int)),
        digit_run(s) < s.len() ==> !is_digit(s[digit_run(s) as int]),
    decreases s.len(),
{
    if s.len() > 0 && is_digit(s[0]) {
        lemma_digit_run(s.drop_first());
        let k = digit_run(s.drop_first()) as int;
        assert forall|i: int| 0 <= i < k + 1 implies is_digit(#[trigger] s.subrange(0, k + 1)[i]) by {
            if i > 0 {
                assert(s.subrange(0, k + 1)[i] == s.drop_first().subrange(0, k)[i - 1]);
            }
        }
        if k + 1 < s.len() {
            assert(s[k + 1] == s.drop_first()[k]);
        }
    }
}

/// Parses a cache lifetime such as `30s`, `15m` or `2h`.
///
/// A bare `0` disables caching; a bare number counts minutes.
pub fn parse_ttl(text: &str) -> (r: Result<Duration, ConfigError>)
    ensures
        match ttl_reading(text@) {
            TtlReading::Seconds(n) => r == Ok::<Duration, ConfigError>(Duration { secs: n }),
            TtlReading::Invalid => r matches Err(ConfigError::InvalidTtl { text: t }) && t@ == trim(text@),
            TtlReading::TooLarge => r matches Err(ConfigError::TtlTooLarge { text: t }) && t@ == trim(text@),
            TtlReading::UnknownUnit(u) => r matches Err(ConfigError::UnknownTtlUnit { unit: x }) && x@ == u,
        },
{
    let t = trimmed(text);
    if same(t.as_str(), "0") {
        return Ok(Duration::zero());
    }
    let v = chars_of(t.as_str());
    let mut k: usize = 0;
    assert(t@.subrange(0, t@.len() as int) == t@);
    while k < v.len() && '0' <= v[k] && v[k] <= '9'
        invariant
            v@ == t@,
            k <= v@.len(),
            digit_run(t@) == k + digit_run(t@.subrange(k as int, t@.len() as int)),
        decreases v.len() - k,
    {
        assert(t@.subrange(k as int, t@.len() as int).drop_first() == t@.subrange(k + 1, t@.len() as int));
        k += 1;
    }
    proof {
        let rest = t@.subrange(k as int, t@.len() as int);
        if k < v.len() {
            assert(rest[0] == v@[k as int]);
        }
        assert(digit_run(rest) == 0);
        assert(t@.subrange(0, t@.len() as int) == t@);
    }
    if k == 0 {
        return Err(ConfigError::InvalidTtl { text: t });
    }
    let digits = string_of(v.as_slice(), 0, k);
    let unit_raw = string_of(v.as_slice(), k, v.len());
    let unit = trimmed(unit_raw.as_str());
    let amount = match parse_u64_of(digits.as_str()) {
        Some(a) => a,
        None => {
            proof {
                lemma_digit_run(t@);
                assert(digits@[0] != '+');
            }
            return Err(ConfigError::TtlTooLarge { text: t });
        },
    };
    proof {
        lemma_digit_run(t@);
        assert(digits@.len() > 0 && digits@[0] != '+');
        assert(k == digit_run(t@));
        assert(digits@ == t@.subrange(0, k as int));
        assert(crate::text::u64_body(digits@) == digits@);
        assert(digits_value(digits@) == amount);
        assert(unit@ == trim(t@.subrange(k as int, t@.len() as int)));
        assert(t@ != "0"@);
    }
    let u = unit.as_str();
    let factor: u64 = if same(u, "s") {
        1
    } else if same(u, "m") || u.is_empty() {
        60
    } else if same(u, "h") {
        3600
    } else {
        return Err(ConfigError::UnknownTtlUnit { unit });
    };
    let seconds = match amount.checked_mul(factor) {
        Some(n) => n,
        None => return Err(ConfigError::TtlTooLarge { text: t }),
    };
    Ok(Duration::from_secs(seconds))
}

/// A path with one more component, as `PathBuf::join` appends a relative one.
pub open spec fn join_path(base: Seq<char>, part: Seq<char>) -> Seq<char> {
    if base.len() == 0 {
        part
    } else if base.last() == '/' {
        base + part
    } else {
        base + "/"@ + part
    }
}

/// Appends a relative path component.
pub fn join_path_of(base: &str, part: &str) -> (r: String)
    ensures
        r@ == join_path(base@, part@),
{
    let v = chars_of(base);
    let mut r = owned(base);
    if v.len() > 0 && v[v.len() - 1] != '/' {
        push_str(&mut r, "/");
    }
    push_str(&mut r, part);
    r
}

/// Where the configuration lives: the explicit flag, else under
/// `XDG_CONFIG_HOME`, else under `~/.config`; unset and empty variables
/// count as absent.
pub open spec fn config_path_spec(
    flag: Option<Seq<char>>,
    xdg: Option<Seq<char>>,
    home: Option<Seq<char>>,
) -> Option<Seq<char>> {
    match flag {
        Some(path) => Some(path),
        None => {
            let base = match xdg {
                Some(dir) if dir.len() > 0 => Some(dir),
                _ => match home {
                    Some(h) if h.len() > 0 => Some(join_path(h, ".config"@)),
                    _ => None,
                },
            };
            match base {
                Some(b) => Some(join_path(join_path(b, "fin"@), "config.toml"@)),
                None => None,
            }
        },
    }
}


/// Resolves the configuration file path.
///
/// Precedence: explicit flag, then `XDG_CONFIG_HOME`, then `~/.config`.
pub fn config_path(flag: Option<&str>, xdg: Option<&str>, home: Option<&str>) -> (r: Result<
    String,
    ConfigError,
>)
    ensures
        match config_path_spec(opt_view(flag), opt_view(xdg), opt_view(home)) {
            Some(p) => r matches Ok(s) && s@ == p,
            None => r == Err::<String, ConfigError>(ConfigError::HomeNotSet),
        },
{
    if let Some(path) = flag {
        return Ok(owned(path));
    }
    let base = match xdg {
        Some(dir) if !dir.is_empty() => owned(dir),
        _ => match home {
            Some(h) if !h.is_empty() => join_path_of(h, ".config"),
            _ => return Err(ConfigError::HomeNotSet),
        },
    };
    let with_app = join_path_of(base.as_str(), "fin");
    Ok(join_path_of(with_app.as_str(), "config.toml"))
}

} // verus!

verus! {

/// A day name as the configuration spells it: lower case, three letters.
pub open spec fn day_setting(v: Toml) -> Option<DayName> {
    match v {
        Toml::Text(s) => if s@ == "mon"@ {
            Some(DayName::Mon)
        } else if s@ == "tue"@ {
            Some(DayName::Tue)
        } else if s@ == "wed"@ {
            Some(DayName::Wed)
        } else if s@ == "thu"@ {
            Some(DayName::Thu)
        } else if s@ == "fri"@ {
            Some(DayName::Fri)
        } else if s@ == "sat"@ {
            Some(DayName::Sat)
        } else if s@ == "sun"@ {
            Some(DayName::Sun)
        } else {
            None
        },
        _ => None,
    }
}

/// The short names of the days, Monday first.
pub open spec fn week_day_names() -> Seq<Seq<char>> {
    seq!["mon"@, "tue"@, "wed"@, "thu"@, "fri"@, "sat"@, "sun"@]
}

/// The short day names are seven different names.
proof fn lemma_day_names_differ()
    ensures
        forall|i: int, j: int| 0 <= i < 7 && 0 <= j < 7 && i != j ==> week_day_names()[i] != week_day_names()[j],
{
    reveal_strlit("mon");
    reveal_strlit("tue");
    reveal_strlit("wed");
    reveal_strlit("thu");
    reveal_strlit("fri");
    reveal_strlit("sat");
    reveal_strlit("sun");
    let n = week_day_names();
    assert(n[0] == "mon"@ && n[1] == "tue"@ && n[2] == "wed"@ && n[3] == "thu"@);
    assert(n[4] == "fri"@ && n[5] == "sat"@ && n[6] == "sun"@);
    assert(n[0][0] == 'm' && n[1][0] == 't' && n[2][0] == 'w' && n[3][0] == 't' && n[4][0] == 'f' && n[5][0] == 's'
        && n[6][0] == 's');
    assert(n[1][1] == 'u' && n[3][1] == 'h' && n[5][1] == 'a' && n[6][1] == 'u');
}

/// A configured first day reads as the day it names: the setting is one of
/// the seven short names, at the day's own place in the week counted from
/// Monday, and it is the day the day-name reader makes of that name.
pub proof fn lemma_a_configured_day_is_the_day_it_names(setting: String, day: DayName)
    requires
        day_setting(Toml::Text(setting)) == Some(day),
    ensures
        setting@ == week_day_names()[day.offset()],
        period::day_from_lower(setting@) == Some(day),
{
    reveal_strlit("mon");
    reveal_strlit("tue");
    reveal_strlit("wed");
    reveal_strlit("thu");
    reveal_strlit("fri");
    reveal_strlit("sat");
    reveal_strlit("sun");
    reveal_strlit("monday");
    reveal_strlit("tuesday");
    reveal_strlit("wednesday");
    reveal_strlit("thursday");
    reveal_strlit("friday");
    reveal_strlit("saturday");
    reveal_strlit("sunday");
    let names = week_day_names();
    assert(names[0] == "mon"@ && names[1] == "tue"@ && names[2] == "wed"@ && names[3] == "thu"@);
    assert(names[4] == "fri"@ && names[5] == "sat"@ && names[6] == "sun"@);
    lemma_day_names_differ();
}

/// Each of the seven short names is read as its day.
pub proof fn lemma_every_short_name_is_a_day(setting: String, i: int)
    requires
        0 <= i < 7,
        setting@ == week_day_names()[i],
    ensures
        day_setting(Toml::Text(setting)) matches Some(d) && d.offset() == i,
{
    reveal_strlit("mon");
    reveal_strlit("tue");
    reveal_strlit("wed");
    reveal_strlit("thu");
    reveal_strlit("fri");
    reveal_strlit("sat");
    reveal_strlit("sun");
    let names = week_day_names();
    assert(names[0] == "mon"@ && names[1] == "tue"@ && names[2] == "wed"@ && names[3] == "thu"@);
    assert(names[4] == "fri"@ && names[5] == "sat"@ && names[6] == "sun"@);
    lemma_day_names_differ();
}

/// A configured period reads as the period the period-name reader makes of
/// the same word, and only the full names `day`, `week` and `month` are
/// accepted.
pub proof fn lemma_a_configured_period_is_the_period_it_names(setting: String, period: Period)
    requires
        period_setting(Toml::Text(setting)) == Some(period),
    ensures
        period::period_from_lower(setting@) == Some(period),
        setting@ == match period {
            Period::Day => "day"@,
            Period::Week => "week"@,
            Period::Month => "month"@,
        },
{
    reveal_strlit("day");
    reveal_strlit("week");
    reveal_strlit("month");
    reveal_strlit("d");
    reveal_strlit("w");
    reveal_strlit("m");
    assert("day"@.len() == 3 && "week"@.len() == 4 && "month"@.len() == 5);
    assert("d"@.len() == 1 && "w"@.len() == 1 && "m"@.len() == 1);
}

/// A period as the configuration spells it.
pub open spec fn period_setting(v: Toml) -> Option<Period> {
    match v {
        Toml::Text(s) => if s@ == "day"@ {
            Some(Period::Day)
        } else if s@ == "week"@ {
            Some(Period::Week)
        } else if s@ == "month"@ {
            Some(Period::Month)
        } else {
            None
        },
        _ => None,
    }
}

/// An issue match as the configuration spells it.
pub open spec fn issue_match_setting(v: Toml) -> Option<IssueMatch> {
    match v {
        Toml::Text(s) => if s@ == "author"@ {
            Some(IssueMatch::Author)
        } else if s@ == "assignee"@ {
            Some(IssueMatch::Assignee)
        } else if s@ == "either"@ {
            Some(IssueMatch::Either)
        } else {
            None
        },
        _ => None,
    }
}

pub fn day_of(v: &Toml) -> (r: Option<DayName>)
    ensures
        r == day_setting(*v),
{
    match v {
        Toml::Text(s) => {
            let t = s.as_str();
            if same(t, "mon") {
                Some(DayName::Mon)
            } else if same(t, "tue") {
                Some(DayName::Tue)
            } else if same(t, "wed") {
                Some(DayName::Wed)
            } else if same(t, "thu") {
                Some(DayName::Thu)
            } else if same(t, "fri") {
                Some(DayName::Fri)
            } else if same(t, "sat") {
                Some(DayName::Sat)
            } else if same(t, "sun") {
                Some(DayName::Sun)
            } else {
                None
            }
        },
        _ => None,
    }
}

pub fn period_of(v: &Toml) -> (r: Option<Period>)
    ensures
        r == period_setting(*v),
{
    match v {
        Toml::Text(s) => {
            let t = s.as_str();
            if same(t, "day") {
                Some(Period::Day)
            } else if same(t, "week") {
                Some(Period::Week)
            } else if same(t, "month") {
                Some(Period::Month)
            } else {
                None
            }
        },
        _ => None,
    }
}

pub fn issue_match_of(v: &Toml) -> (r: Option<IssueMatch>)
    ensures
        r == issue_match_setting(*v),
{
    match v {
        Toml::Text(s) => {
            let t = s.as_str();
            if same(t, "author") {
                Some(IssueMatch::Author)
            } else if same(t, "assignee") {
                Some(IssueMatch::Assignee)
            } else if same(t, "either") {
                Some(IssueMatch::Either)
            } else {
                None
            }
        },
        _ => None,
    }
}

/// The identifiers named by a list of texts.
pub fn source_ids(names: &Vec<String>) -> (r: Vec<SourceId>)
    ensures
        r@.len() == names@.len(),
        forall|i: int| 0 <= i < names@.len() ==> (#[trigger] r@[i])@ == lower(names@[i]@),
        r@.map_values(|s: SourceId| s@) == lowered(names@.map_values(|x: String| x@)),
{
    let mut r: Vec<SourceId> = Vec::new();
    let mut i: usize = 0;
    while i < names.len()
        invariant
            i <= names@.len(),
            r@.len() == i,
            forall|j: int| 0 <= j < i ==> (#[trigger] r@[j])@ == lower(names@[j]@),
        decreases names.len() - i,
    {
        r.push(SourceId::new(names[i].as_str()));
        i += 1;
    }
    assert(r@.map_values(|s: SourceId| s@) =~= lowered(names@.map_values(|x: String| x@)));
    r
}

/// The kinds named by a list of texts.
pub fn kinds_named(names: &Vec<String>) -> (r: Vec<Kind>)
    ensures
        r@.len() == names@.len(),
        forall|i: int| 0 <= i < names@.len() ==> (#[trigger] r@[i])@ == lower(names@[i]@),
{
    let mut r: Vec<Kind> = Vec::new();
    let mut i: usize = 0;
    while i < names.len()
        invariant
            i <= names@.len(),
            r@.len() == i,
            forall|j: int| 0 <= j < i ==> (#[trigger] r@[j])@ == lower(names@[j]@),
        decreases names.len() - i,
    {
        r.push(Kind::new(names[i].as_str()));
        i += 1;
    }
    r
}

/// Whether a key of the `[github]` table is one the configuration knows.
pub open spec fn github_key(k: Seq<char>) -> bool {
    k == "orgs"@ || k == "issue_match"@ || k == "include_not_planned"@
}

/// Whether a key of the `[jira]` table is one the configuration knows.
pub open spec fn jira_key(k: Seq<char>) -> bool {
    k == "site"@ || k == "email"@ || k == "projects"@
}

/// Whether a top-level key is one the configuration knows.
pub open spec fn top_key(k: Seq<char>) -> bool {
    k == "first_day_of_week"@ || k == "cache_ttl"@ || k == "period"@ || k == "sources"@ || k
        == "types"@ || k == "github"@ || k == "jira"@
}

/// Whether a value is acceptable for a key of the `[github]` table.
pub open spec fn github_value_ok(k: Seq<char>, v: Toml) -> bool {
    if k == "orgs"@ {
        texts_value(v) is Some
    } else if k == "issue_match"@ {
        issue_match_setting(v) is Some
    } else {
        v is Boolean
    }
}

/// Whether a value is acceptable for a key of the `[jira]` table.
pub open spec fn jira_value_ok(k: Seq<char>, v: Toml) -> bool {
    if k == "projects"@ {
        texts_value(v) is Some
    } else {
        v is Text
    }
}

/// Whether every entry of a table is a list of texts.
pub open spec fn types_value_ok(v: Toml) -> bool {
    match v {
        Toml::Table(t) => forall|i: int| 0 <= i < t@.len() ==> texts_value((#[trigger] t@[i]).1) is Some,
        _ => false,
    }
}

/// Whether a value is acceptable for a top-level key.
pub open spec fn top_value_ok(k: Seq<char>, v: Toml) -> bool {
    if k == "first_day_of_week"@ {
        day_setting(v) is Some
    } else if k == "cache_ttl"@ {
        v is Text
    } else if k == "period"@ {
        period_setting(v) is Some
    } else if k == "sources"@ {
        texts_value(v) is Some
    } else if k == "types"@ {
        types_value_ok(v)
    } else if k == "github"@ {
        match v {
            Toml::Table(t) => table_ok(t@, |k: Seq<char>| github_key(k), |k: Seq<char>, v: Toml| github_value_ok(k, v)),
            _ => false,
        }
    } else {
        match v {
            Toml::Table(t) => table_ok(t@, |k: Seq<char>| jira_key(k), |k: Seq<char>, v: Toml| jira_value_ok(k, v)),
            _ => false,
        }
    }
}

/// Whether every entry of a table has a known key and an acceptable value.
pub open spec fn table_ok(
    t: Seq<(String, Toml)>,
    known: spec_fn(Seq<char>) -> bool,
    ok: spec_fn(Seq<char>, Toml) -> bool,
) -> bool {
    forall|i: int| 0 <= i < t.len() ==> known((#[trigger] t[i]).0@) && ok(t[i].0@, t[i].1)
}

/// The first entry of a table that the configuration cannot take.
pub open spec fn first_bad(
    t: Seq<(String, Toml)>,
    known: spec_fn(Seq<char>) -> bool,
    ok: spec_fn(Seq<char>, Toml) -> bool,
) -> int {
    choose|i: int|
        0 <= i < t.len() && !(known(t[i].0@) && ok(t[i].0@, t[i].1)) && forall|j: int|
            0 <= j < i ==> known((#[trigger] t[j]).0@) && ok(t[j].0@, t[j].1)
}

/// The error that names the first entry of a table the configuration cannot
/// take: an unknown key, or a known one whose value does not fit.
pub open spec fn rejection(
    e: ConfigError,
    t: Seq<(String, Toml)>,
    known: spec_fn(Seq<char>) -> bool,
    ok: spec_fn(Seq<char>, Toml) -> bool,
) -> bool {
    let bad = first_bad(t, known, ok);
    if known(t[bad].0@) {
        e matches ConfigError::InvalidValue { key } && key@ == t[bad].0@
    } else {
        e matches ConfigError::UnknownField { key } && key@ == t[bad].0@
    }
}

} // verus!

verus! {

/// The texts of a list, folded to lower case.
pub open spec fn lowered(names: Seq<Seq<char>>) -> Seq<Seq<char>> {
    names.map_values(|n: Seq<char>| lower(n))
}

/// The `[types]` table as a map from source to kinds, later entries
/// replacing earlier ones that fold to the same source.
pub open spec fn types_map(t: Seq<(String, Toml)>) -> Map<Seq<char>, Seq<Seq<char>>>
    decreases t.len(),
{
    if t.len() == 0 {
        Map::empty()
    } else {
        types_map(t.drop_last()).insert(
            lower(t.last().0@),
            lowered(texts_value(t.last().1).unwrap()),
        )
    }
}

/// A setting read from its last entry, or a default when it has none.
pub open spec fn setting_or<T>(v: Option<Toml>, read: spec_fn(Toml) -> T, default: T) -> T {
    match v {
        Some(x) => read(x),
        None => default,
    }
}

pub open spec fn github_orgs(t: Seq<(String, Toml)>) -> Seq<Seq<char>> {
    setting_or(last_entry(t, "orgs"@), |v: Toml| texts_value(v).unwrap(), Seq::<Seq<char>>::empty())
}

pub open spec fn github_issue_match(t: Seq<(String, Toml)>) -> IssueMatch {
    setting_or(last_entry(t, "issue_match"@), |v: Toml| issue_match_setting(v).unwrap(), IssueMatch::Either)
}

pub open spec fn github_not_planned(t: Seq<(String, Toml)>) -> bool {
    setting_or(last_entry(t, "include_not_planned"@), |v: Toml| v->Boolean_0, false)
}

pub open spec fn github_table_ok(t: Seq<(String, Toml)>) -> bool {
    table_ok(t, |k: Seq<char>| github_key(k), |k: Seq<char>, v: Toml| github_value_ok(k, v))
}

impl GithubConfig {
    /// Reads the `[github]` table; its keys are all optional.
    pub fn decode(t: &Vec<(String, Toml)>) -> (r: Result<GithubConfig, ConfigError>)
        ensures
            match r {
                Ok(c) => {
                    &&& github_table_ok(t@)
                    &&& c.orgs@.map_values(|o: String| o@) == github_orgs(t@)
                    &&& c.issue_match == github_issue_match(t@)
                    &&& c.include_not_planned == github_not_planned(t@)
                },
                Err(e) => !github_table_ok(t@) && rejection(
                    e,
                    t@,
                    |k: Seq<char>| github_key(k),
                    |k: Seq<char>, v: Toml| github_value_ok(k, v),
                ),
            },
    {
        let mut c = GithubConfig { orgs: Vec::new(), issue_match: IssueMatch::Either, include_not_planned: false };
        let mut i: usize = 0;
        while i < t.len()
            invariant
                i <= t@.len(),
                table_ok(t@.take(i as int), |k: Seq<char>| github_key(k), |k: Seq<char>, v: Toml| github_value_ok(k, v)),
                c.orgs@.map_values(|o: String| o@) == setting_or(
                    last_entry(t@.take(i as int), "orgs"@),
                    |v: Toml| texts_value(v).unwrap(),
                    Seq::<Seq<char>>::empty(),
                ),
                c.issue_match == setting_or(
                    last_entry(t@.take(i as int), "issue_match"@),
                    |v: Toml| issue_match_setting(v).unwrap(),
                    IssueMatch::Either,
                ),
                c.include_not_planned == setting_or(
                    last_entry(t@.take(i as int), "include_not_planned"@),
                    |v: Toml| v->Boolean_0,
                    false,
                ),
            decreases t.len() - i,
        {
            let ghost pre = t@.take(i as int);
            let ghost now = t@.take(i + 1);
            assert(now.drop_last() == pre);
            assert(now.last() == t@[i as int]);
            let key = t[i].0.as_str();
            let value = &t[i].1;
            assert(*value == t@[i as int].1);
            assert(key@ == t@[i as int].0@);
            proof {
                reveal_strlit("orgs");
                reveal_strlit("issue_match");
                reveal_strlit("include_not_planned");
            }
            if same(key, "orgs") {
                match texts_of(value) {
                    Some(v) => c.orgs = v,
                    None => {
                        proof { lemma_first_bad(t@, i as int, |k: Seq<char>| github_key(k), |k: Seq<char>, v: Toml| github_value_ok(k, v)); }
                        return Err(ConfigError::InvalidValue { key: t[i].0.clone() });
                    },
                }
            } else if same(key, "issue_match") {
                match issue_match_of(value) {
                    Some(m) => {
                        assert(m == issue_match_setting(t@[i as int].1).unwrap());
                        c.issue_match = m;
                    },
                    None => {
                        proof { lemma_first_bad(t@, i as int, |k: Seq<char>| github_key(k), |k: Seq<char>, v: Toml| github_value_ok(k, v)); }
                        return Err(ConfigError::InvalidValue { key: t[i].0.clone() });
                    },
                }
            } else if same(key, "include_not_planned") {
                match value {
                    Toml::Boolean(b) => c.include_not_planned = *b,
                    _ => {
                        proof { lemma_first_bad(t@, i as int, |k: Seq<char>| github_key(k), |k: Seq<char>, v: Toml| github_value_ok(k, v)); }
                        return Err(ConfigError::InvalidValue { key: t[i].0.clone() });
                    },
                }
            } else {
                proof { lemma_first_bad(t@, i as int, |k: Seq<char>| github_key(k), |k: Seq<char>, v: Toml| github_value_ok(k, v)); }
                return Err(ConfigError::UnknownField { key: t[i].0.clone() });
            }
            proof {
                lemma_table_ok_push(pre, t@[i as int], |k: Seq<char>| github_key(k), |k: Seq<char>, v: Toml| github_value_ok(k, v));
                if t@[i as int].0@ == "issue_match"@ {
                    assert(last_entry(now, "issue_match"@) == Some(t@[i as int].1));
                    assert(c.issue_match == issue_match_setting(t@[i as int].1).unwrap());
                } else {
                    assert(last_entry(now, "issue_match"@) == last_entry(pre, "issue_match"@));
                }
            }
            i += 1;
        }
        assert(t@.take(t@.len() as int) == t@);
        Ok(c)
    }
}

proof fn lemma_table_ok_push(
    t: Seq<(String, Toml)>,
    e: (String, Toml),
    known: spec_fn(Seq<char>) -> bool,
    ok: spec_fn(Seq<char>, Toml) -> bool,
)
    requires
        table_ok(t, known, ok),
        known(e.0@) && ok(e.0@, e.1),
    ensures
        table_ok(t.push(e), known, ok),
{
    assert forall|i: int| 0 <= i < t.push(e).len() implies known((#[trigger] t.push(e)[i]).0@) && ok(t.push(e)[i].0@, t.push(e)[i].1) by {
        if i < t.len() {
            assert(t.push(e)[i] == t[i]);
        }
    }
}

proof fn lemma_first_bad(
    t: Seq<(String, Toml)>,
    i: int,
    known: spec_fn(Seq<char>) -> bool,
    ok: spec_fn(Seq<char>, Toml) -> bool,
)
    requires
        0 <= i < t.len(),
        table_ok(t.take(i), known, ok),
        !(known(t[i].0@) && ok(t[i].0@, t[i].1)),
    ensures
        !table_ok(t, known, ok),
        first_bad(t, known, ok) == i,
{
    assert forall|j: int| 0 <= j < i implies known((#[trigger] t[j]).0@) && ok(t[j].0@, t[j].1) by {
        assert(t.take(i)[j] == t[j]);
    }
    let b = first_bad(t, known, ok);
    if b < i {
        assert(t.take(i)[b] == t[b]);
    }
}

} // verus!

verus! {

pub open spec fn opt_text(v: Option<Toml>) -> Option<Seq<char>> {
    match v {
        Some(x) => text_value(x),
        None => None,
    }
}

pub open spec fn jira_table_ok(t: Seq<(String, Toml)>) -> bool {
    table_ok(t, |k: Seq<char>| jira_key(k), |k: Seq<char>, v: Toml| jira_value_ok(k, v))
}

pub open spec fn jira_projects(t: Seq<(String, Toml)>) -> Seq<Seq<char>> {
    setting_or(last_entry(t, "projects"@), |v: Toml| texts_value(v).unwrap(), Seq::<Seq<char>>::empty())
}


impl JiraConfig {
    /// Reads the `[jira]` table; its keys are all optional.
    pub fn decode(t: &Vec<(String, Toml)>) -> (r: Result<JiraConfig, ConfigError>)
        ensures
            match r {
                Ok(c) => {
                    &&& jira_table_ok(t@)
                    &&& opt_string(c.site) == opt_text(last_entry(t@, "site"@))
                    &&& opt_string(c.email) == opt_text(last_entry(t@, "email"@))
                    &&& c.projects@.map_values(|o: String| o@) == jira_projects(t@)
                },
                Err(e) => !jira_table_ok(t@) && rejection(
                    e,
                    t@,
                    |k: Seq<char>| jira_key(k),
                    |k: Seq<char>, v: Toml| jira_value_ok(k, v),
                ),
            },
    {
        let mut c = JiraConfig { site: None, email: None, projects: Vec::new() };
        let mut i: usize = 0;
        while i < t.len()
            invariant
                i <= t@.len(),
                jira_table_ok(t@.take(i as int)),
                opt_string(c.site) == opt_text(last_entry(t@.take(i as int), "site"@)),
                opt_string(c.email) == opt_text(last_entry(t@.take(i as int), "email"@)),
                c.projects@.map_values(|o: String| o@) == jira_projects(t@.take(i as int)),
            decreases t.len() - i,
        {
            let ghost pre = t@.take(i as int);
            let ghost now = t@.take(i + 1);
            assert(now.drop_last() == pre);
            assert(now.last() == t@[i as int]);
            let key = t[i].0.as_str();
            let value = &t[i].1;
            assert(*value == t@[i as int].1);
            assert(key@ == t@[i as int].0@);
            proof {
                reveal_strlit("site");
                reveal_strlit("email");
                reveal_strlit("projects");
            }
            if same(key, "site") {
                match text_of(value) {
                    Some(v) => c.site = Some(v),
                    None => {
                        proof { lemma_first_bad(t@, i as int, |k: Seq<char>| jira_key(k), |k: Seq<char>, v: Toml| jira_value_ok(k, v)); }
                        return Err(ConfigError::InvalidValue { key: t[i].0.clone() });
                    },
                }
            } else if same(key, "email") {
                match text_of(value) {
                    Some(v) => c.email = Some(v),
                    None => {
                        proof { lemma_first_bad(t@, i as int, |k: Seq<char>| jira_key(k), |k: Seq<char>, v: Toml| jira_value_ok(k, v)); }
                        return Err(ConfigError::InvalidValue { key: t[i].0.clone() });
                    },
                }
            } else if same(key, "projects") {
                match texts_of(value) {
                    Some(v) => c.projects = v,
                    None => {
                        proof { lemma_first_bad(t@, i as int, |k: Seq<char>| jira_key(k), |k: Seq<char>, v: Toml| jira_value_ok(k, v)); }
                        return Err(ConfigError::InvalidValue { key: t[i].0.clone() });
                    },
                }
            } else {
                proof { lemma_first_bad(t@, i as int, |k: Seq<char>| jira_key(k), |k: Seq<char>, v: Toml| jira_value_ok(k, v)); }
                return Err(ConfigError::UnknownField { key: t[i].0.clone() });
            }
            proof {
                lemma_table_ok_push(pre, t@[i as int], |k: Seq<char>| jira_key(k), |k: Seq<char>, v: Toml| jira_value_ok(k, v));
            }
            i += 1;
        }
        assert(t@.take(t@.len() as int) == t@);
        Ok(c)
    }
}

/// Reads the `[types]` table into kinds per source.
pub fn decode_types(t: &Vec<(String, Toml)>) -> (r: Option<KindTable>)
    ensures
        match r {
            Some(k) => (forall|i: int| 0 <= i < t@.len() ==> texts_value((#[trigger] t@[i]).1) is Some)
                && k.wf() && k.view() == types_map(t@),
            None => !(forall|i: int| 0 <= i < t@.len() ==> texts_value((#[trigger] t@[i]).1) is Some),
        },
{
    let mut table = KindTable::new();
    let mut i: usize = 0;
    while i < t.len()
        invariant
            i <= t@.len(),
            forall|j: int| 0 <= j < i ==> texts_value((#[trigger] t@[j]).1) is Some,
            table.wf(),
            table.view() == types_map(t@.take(i as int)),
        decreases t.len() - i,
    {
        let value = &t[i].1;
        assert(*value == t@[i as int].1);
        let names = match texts_of(value) {
            Some(n) => n,
            None => return None,
        };
        let kinds = kinds_named(&names);
        proof {
            let now = t@.take(i + 1);
            assert(now.drop_last() == t@.take(i as int));
            assert(now.last() == t@[i as int]);
            assert(kind_names(kinds@) =~= lowered(texts_value(t@[i as int].1).unwrap()));
        }
        table.insert(SourceId::new(t[i].0.as_str()), kinds);
        i += 1;
    }
    assert(t@.take(t@.len() as int) == t@);
    Some(table)
}

} // verus!

verus! {

/// The value of the last entry under `key`, when it is a table; no entries
/// otherwise.
pub open spec fn file_table(t: Seq<(String, Toml)>, key: Seq<char>) -> Seq<(String, Toml)> {
    match last_entry(t, key) {
        Some(Toml::Table(inner)) => inner@,
        _ => Seq::empty(),
    }
}

pub open spec fn file_first_day(t: Seq<(String, Toml)>) -> Option<DayName> {
    match last_entry(t, "first_day_of_week"@) {
        Some(v) => day_setting(v),
        None => None,
    }
}

pub open spec fn file_period(t: Seq<(String, Toml)>) -> Option<Period> {
    match last_entry(t, "period"@) {
        Some(v) => period_setting(v),
        None => None,
    }
}

pub open spec fn file_sources(t: Seq<(String, Toml)>) -> Option<Seq<Seq<char>>> {
    match last_entry(t, "sources"@) {
        Some(v) => Some(lowered(texts_value(v).unwrap())),
        None => None,
    }
}

pub open spec fn id_names(ids: Option<Vec<SourceId>>) -> Option<Seq<Seq<char>>> {
    match ids {
        Some(v) => Some(v@.map_values(|s: SourceId| s@)),
        None => None,
    }
}

/// Whether every top-level entry has a known key and an acceptable value.
pub open spec fn file_ok(t: Seq<(String, Toml)>) -> bool {
    table_ok(t, |k: Seq<char>| top_key(k), |k: Seq<char>, v: Toml| top_value_ok(k, v))
}

/// The error that names a top-level entry the configuration cannot take;
/// inside `[github]` and `[jira]`, the first entry of that table it cannot
/// take.
pub open spec fn entry_rejection(e: ConfigError, key: Seq<char>, value: Toml) -> bool {
    if !top_key(key) {
        e matches ConfigError::UnknownField { key: k } && k@ == key
    } else if key == "github"@ && value is Table {
        rejection(e, value->Table_0@, |k: Seq<char>| github_key(k), |k: Seq<char>, v: Toml| github_value_ok(k, v))
    } else if key == "jira"@ && value is Table {
        rejection(e, value->Table_0@, |k: Seq<char>| jira_key(k), |k: Seq<char>, v: Toml| jira_value_ok(k, v))
    } else {
        e matches ConfigError::InvalidValue { key: k } && k@ == key
    }
}

/// The error that names the first top-level entry the configuration cannot
/// take.
pub open spec fn file_rejection(e: ConfigError, t: Seq<(String, Toml)>) -> bool {
    let bad = first_bad(t, |k: Seq<char>| top_key(k), |k: Seq<char>, v: Toml| top_value_ok(k, v));
    entry_rejection(e, t[bad].0@, t[bad].1)
}

/// The top-level keys are seven different texts.
proof fn lemma_top_keys_distinct()
    ensures
        "first_day_of_week"@ != "cache_ttl"@,
        "first_day_of_week"@ != "period"@,
        "first_day_of_week"@ != "sources"@,
        "first_day_of_week"@ != "types"@,
        "first_day_of_week"@ != "github"@,
        "first_day_of_week"@ != "jira"@,
        "cache_ttl"@ != "period"@,
        "cache_ttl"@ != "sources"@,
        "cache_ttl"@ != "types"@,
        "cache_ttl"@ != "github"@,
        "cache_ttl"@ != "jira"@,
        "period"@ != "sources"@,
        "period"@ != "types"@,
        "period"@ != "github"@,
        "period"@ != "jira"@,
        "sources"@ != "types"@,
        "sources"@ != "github"@,
        "sources"@ != "jira"@,
        "types"@ != "github"@,
        "types"@ != "jira"@,
        "github"@ != "jira"@,
{
    reveal_strlit("first_day_of_week");
    reveal_strlit("cache_ttl");
    reveal_strlit("period");
    reveal_strlit("sources");
    reveal_strlit("types");
    reveal_strlit("github");
    reveal_strlit("jira");
    assert("first_day_of_week"@.len() == 17);
    assert("cache_ttl"@.len() == 9);
    assert("period"@.len() == 6);
    assert("sources"@.len() == 7);
    assert("types"@.len() == 5);
    assert("github"@.len() == 6);
    assert("jira"@.len() == 4);
    assert("period"@[0] != "github"@[0]);
}

impl ConfigFile {
    /// The settings a table of entries holds, each from its last entry.
    pub open spec fn reads(&self, t: Seq<(String, Toml)>) -> bool {
        let github = file_table(t, "github"@);
        let jira = file_table(t, "jira"@);
        &&& self.first_day_of_week == file_first_day(t)
        &&& opt_string(self.cache_ttl) == opt_text(last_entry(t, "cache_ttl"@))
        &&& self.period == file_period(t)
        &&& id_names(self.sources) == file_sources(t)
        &&& self.types.wf()
        &&& self.types.view() == types_map(file_table(t, "types"@))
        &&& self.github.orgs@.map_values(|o: String| o@) == github_orgs(github)
        &&& self.github.issue_match == github_issue_match(github)
        &&& self.github.include_not_planned == github_not_planned(github)
        &&& opt_string(self.jira.site) == opt_text(last_entry(jira, "site"@))
        &&& opt_string(self.jira.email) == opt_text(last_entry(jira, "email"@))
        &&& self.jira.projects@.map_values(|o: String| o@) == jira_projects(jira)
    }

    /// Reads the top-level entries of a configuration file. Every key is
    /// optional; an unknown key, or a value that does not fit its key, is an
    /// error that names the key.
    pub fn decode(t: &Vec<(String, Toml)>) -> (r: Result<ConfigFile, ConfigError>)
        ensures
            match r {
                Ok(c) => file_ok(t@) && c.reads(t@),
                Err(e) => !file_ok(t@) && file_rejection(e, t@),
            },
    {
        let mut c = ConfigFile::empty();
        let mut i: usize = 0;
        while i < t.len()
            invariant
                i <= t@.len(),
                file_ok(t@.take(i as int)),
                c.reads(t@.take(i as int)),
            decreases t.len() - i,
        {
            let ghost pre = t@.take(i as int);
            assert(t@.take(i + 1) == pre.push(t@[i as int]));
            match c.read_entry(&t[i], Ghost(pre)) {
                Ok(()) => {},
                Err(e) => {
                    proof {
                        lemma_first_bad(t@, i as int, |k: Seq<char>| top_key(k), |k: Seq<char>, v: Toml| top_value_ok(k, v));
                    }
                    return Err(e);
                },
            }
            proof {
                lemma_table_ok_push(pre, t@[i as int], |k: Seq<char>| top_key(k), |k: Seq<char>, v: Toml| top_value_ok(k, v));
            }
            i += 1;
        }
        assert(t@.take(t@.len() as int) == t@);
        Ok(c)
    }

    /// Takes one top-level entry into the settings read so far.
    #[verifier::rlimit(50)]
    fn read_entry(&mut self, e: &(String, Toml), Ghost(pre): Ghost<Seq<(String, Toml)>>) -> (r: Result<(), ConfigError>)
        requires
            old(self).reads(pre),
        ensures
            match r {
                Ok(()) => top_key(e.0@) && top_value_ok(e.0@, e.1) && final(self).reads(pre.push(*e)),
                Err(x) => !(top_key(e.0@) && top_value_ok(e.0@, e.1)) && entry_rejection(x, e.0@, e.1),
            },
    {
        proof {
            crate::toml_doc::lemma_last_entry_push(pre, *e);
            lemma_top_keys_distinct();
        }
        let key = e.0.as_str();
        let value = &e.1;
        if same(key, "first_day_of_week") {
            match day_of(value) {
                Some(d) => self.first_day_of_week = Some(d),
                None => return Err(ConfigError::InvalidValue { key: e.0.clone() }),
            }
        } else if same(key, "cache_ttl") {
            match text_of(value) {
                Some(v) => self.cache_ttl = Some(v),
                None => return Err(ConfigError::InvalidValue { key: e.0.clone() }),
            }
        } else if same(key, "period") {
            match period_of(value) {
                Some(p) => self.period = Some(p),
                None => return Err(ConfigError::InvalidValue { key: e.0.clone() }),
            }
        } else if same(key, "sources") {
            match texts_of(value) {
                Some(names) => self.sources = Some(source_ids(&names)),
                None => return Err(ConfigError::InvalidValue { key: e.0.clone() }),
            }
        } else if same(key, "types") {
            match value {
                Toml::Table(entries) => match decode_types(entries) {
                    Some(k) => self.types = k,
                    None => return Err(ConfigError::InvalidValue { key: e.0.clone() }),
                },
                _ => return Err(ConfigError::InvalidValue { key: e.0.clone() }),
            }
        } else if same(key, "github") {
            match value {
                Toml::Table(entries) => match GithubConfig::decode(entries) {
                    Ok(g) => self.github = g,
                    Err(x) => return Err(x),
                },
                _ => return Err(ConfigError::InvalidValue { key: e.0.clone() }),
            }
        } else if same(key, "jira") {
            match value {
                Toml::Table(entries) => match JiraConfig::decode(entries) {
                    Ok(j) => self.jira = j,
                    Err(x) => return Err(x),
                },
                _ => return Err(ConfigError::InvalidValue { key: e.0.clone() }),
            }
        } else {
            return Err(ConfigError::UnknownField { key: e.0.clone() });
        }
        Ok(())
    }

    /// A configuration that sets nothing.
    pub fn empty() -> (r: ConfigFile)
        ensures
            r.reads(Seq::empty()),
    {
        let r = ConfigFile {
            first_day_of_week: None,
            cache_ttl: None,
            period: None,
            sources: None,
            types: KindTable::new(),
            github: GithubConfig { orgs: Vec::new(), issue_match: IssueMatch::Either, include_not_planned: false },
            jira: JiraConfig { site: None, email: None, projects: Vec::new() },
        };
        assert(r.github.orgs@.map_values(|o: String| o@) =~= Seq::<Seq<char>>::empty());
        assert(r.jira.projects@.map_values(|o: String| o@) =~= Seq::<Seq<char>>::empty());
        r
    }
}

} // verus!

verus! {

impl ConfigFile {
    /// Parses configuration from TOML text.
    pub fn parse(text: &str) -> (r: Result<ConfigFile, ConfigError>)
        ensures
            match toml_document(text@) {
                Ok(Toml::Table(t)) => match r {
                    Ok(c) => file_ok(t@) && c.reads(t@),
                    Err(e) => !file_ok(t@) && file_rejection(e, t@),
                },
                Err(m) => r matches Err(ConfigError::Syntax { detail }) && detail@ == m,
                Ok(_) => false,
            },
    {
        match parse_toml(text) {
            Ok(Toml::Table(t)) => ConfigFile::decode(&t),
            Ok(_) => Err(ConfigError::Syntax { detail: String::new() }),
            Err(detail) => Err(ConfigError::Syntax { detail }),
        }
    }
}

impl Default for ConfigFile {
    fn default() -> (r: ConfigFile)
        ensures
            r.reads(Seq::empty()),
    {
        ConfigFile::empty()
    }
}

/// How the report is printed.
#[derive(Debug, Clone, Copy, PartialEq, Eq, Structural)]
pub enum Format {
    Terminal,
    Markdown,
    Json,
}

/// Fully-resolved run configuration.
#[derive(Debug)]
pub struct Settings {
    pub range: TimeRange,
    pub sources: Vec<SourceId>,
    pub types: KindTable,
    pub format: Format,
    /// False when exactly one source is in play, since the column would then
    /// repeat a single value on every row.
    pub show_source_column: bool,
    pub github: GithubConfig,
    pub jira: JiraConfig,
    pub cache_ttl: Duration,
}

impl Settings {
    /// Item kinds to request from a source, falling back to the source's own
    /// defaults when nothing is configured for it.
    pub fn kinds_for(&self, source: &SourceId, defaults: &[Kind]) -> (r: Vec<Kind>)
        requires
            self.types.wf(),
        ensures
            kind_names(r@) == if self.types.view().contains_key(source@) && self.types.view()[source@].len() > 0 {
                self.types.view()[source@]
            } else {
                kind_names(defaults@)
            },
    {
        self.types.kinds_for(source, defaults)
    }
}

/// Cache lifetime applied when the configuration names none, in seconds:
/// fifteen minutes.
pub const DEFAULT_CACHE_TTL: u64 = 900;

/// The sources used when neither the flags nor the file name any.
pub fn default_sources() -> (r: Vec<SourceId>)
    ensures
        r@.map_values(|s: SourceId| s@) == seq!["github"@],
{
    let id = SourceId::new("github");
    proof {
        reveal_strlit("github");
    }
    assert(id@ == "github"@);
    let r = vec![id];
    assert(r@.map_values(|s: SourceId| s@) =~= seq!["github"@]);
    r
}

/// The period in force: the flag's, else the file's, else a week.
pub open spec fn chosen_period(flag: Option<Period>, file: Option<Period>) -> Period {
    match flag {
        Some(p) => p,
        None => match file {
            Some(p) => p,
            None => Period::Week,
        },
    }
}

/// The day weeks start on: the file's, else Monday.
pub open spec fn chosen_first_day(file: Option<DayName>) -> DayName {
    match file {
        Some(d) => d,
        None => DayName::Mon,
    }
}

/// What the reporting window of a run is: explicit dates win over any
/// period; otherwise the period in force, relative to `now`.
pub open spec fn window_of(
    cli: Cli,
    file_period: Option<Period>,
    file_first_day: Option<DayName>,
    now: Moment,
    r: Result<TimeRange, PeriodError>,
) -> bool {
    match cli.since {
        Some(since) => explicit_window(now, since, cli.until, r),
        None => resolved(
            now,
            chosen_period(named_period(cli.day, cli.week, cli.month), file_period),
            chosen_first_day(file_first_day),
            cli.prev,
            r,
        ),
    }
}

/// The sources named by flags, GitHub first.
pub open spec fn flagged_sources(github: bool, jira: bool) -> Seq<Seq<char>> {
    (if github { seq!["github"@] } else { seq![] }) + (if jira { seq!["jira"@] } else { seq![] })
}

/// The sources in force: those the flags name, else the file's when it
/// names any, else GitHub.
pub open spec fn chosen_sources(flagged: Seq<Seq<char>>, file: Option<Seq<Seq<char>>>) -> Seq<Seq<char>> {
    if flagged.len() > 0 {
        flagged
    } else {
        match file {
            Some(s) => if s.len() > 0 { s } else { seq!["github"@] },
            None => seq!["github"@],
        }
    }
}

/// The kinds per source in force: the kinds flags name replace the file's for
/// every source in play.
pub open spec fn chosen_kinds(
    file: Map<Seq<char>, Seq<Seq<char>>>,
    sources: Seq<Seq<char>>,
    flagged: Seq<Seq<char>>,
) -> Map<Seq<char>, Seq<Seq<char>>> {
    if flagged.len() == 0 {
        file
    } else {
        file.union_prefer_right(Map::new(|s: Seq<char>| sources.contains(s), |s: Seq<char>| flagged))
    }
}

/// The output format: markdown wins over JSON, and the terminal is the
/// default.
pub open spec fn chosen_format(markdown: bool, json: bool) -> Format {
    if markdown {
        Format::Markdown
    } else if json {
        Format::Json
    } else {
        Format::Terminal
    }
}

/// How the cache lifetime in force reads: none with `--no-cache`, else the
/// file's, else fifteen minutes.
pub open spec fn chosen_ttl(no_cache: bool, file: Option<Seq<char>>) -> TtlReading {
    if no_cache {
        TtlReading::Seconds(0)
    } else {
        match file {
            Some(text) => ttl_reading(text),
            None => TtlReading::Seconds(900),
        }
    }
}

/// The error a cache lifetime that does not read as seconds gives.
pub open spec fn ttl_refusal(e: ConfigError, reading: TtlReading, text: Seq<char>) -> bool {
    match reading {
        TtlReading::Seconds(_) => false,
        TtlReading::Invalid => e matches ConfigError::InvalidTtl { text: t } && t@ == trim(text),
        TtlReading::TooLarge => e matches ConfigError::TtlTooLarge { text: t } && t@ == trim(text),
        TtlReading::UnknownUnit(u) => e matches ConfigError::UnknownTtlUnit { unit: x } && x@ == u,
    }
}

/// Merges command-line arguments over file configuration over built-in
/// defaults, producing the settings the run executes with.
pub fn resolve(cli: &Cli, file: ConfigFile, now: &Moment) -> (r: Result<Settings, ConfigError>)
    requires
        file.types.wf(),
    ensures
        match r {
            Ok(s) => {
                let sources = chosen_sources(flagged_sources(cli.github, cli.jira), id_names(file.sources));
                &&& window_of(*cli, file.period, file.first_day_of_week, *now, Ok(s.range))
                &&& s.sources@.map_values(|x: SourceId| x@) == sources
                &&& s.show_source_column == (sources.len() > 1)
                &&& s.types.wf()
                &&& s.types.view() == chosen_kinds(file.types.view(), sources, kind_names(cli.types@))
                &&& s.format == chosen_format(cli.markdown, cli.json)
                &&& s.github.orgs@.map_values(|x: String| x@) == if cli.orgs.len() > 0 {
                    cli.orgs@.map_values(|x: String| x@)
                } else {
                    file.github.orgs@.map_values(|x: String| x@)
                }
                &&& s.github.issue_match == file.github.issue_match
                &&& s.github.include_not_planned == file.github.include_not_planned
                &&& s.jira == file.jira
                &&& chosen_ttl(cli.no_cache, opt_string(file.cache_ttl)) == TtlReading::Seconds(s.cache_ttl.secs)
            },
            Err(ConfigError::Window { cause }) => window_of(*cli, file.period, file.first_day_of_week, *now, Err(cause)),
            Err(e) => ttl_refusal(e, chosen_ttl(cli.no_cache, opt_string(file.cache_ttl)), file.cache_ttl.unwrap()@),
        },
        chosen_ttl(cli.no_cache, opt_string(file.cache_ttl)) is Seconds && cli.since is None && (window_dates_spec(
            now.date,
            chosen_period(named_period(cli.day, cli.week, cli.month), file.period),
            chosen_first_day(file.first_day_of_week),
            cli.prev,
        ) matches Some(d) && ordinary(d.first) && (d.last matches Some(l) ==> ordinary(l))) ==> r is Ok,
        chosen_ttl(cli.no_cache, opt_string(file.cache_ttl)) is Seconds && (cli.since matches Some(since) && ordinary(
            since,
        ) && (cli.until matches Some(u) ==> (days_after(u, 1) matches Some(n) && ordinary(n)))) ==> (r is Ok || r
            == Err::<Settings, ConfigError>(ConfigError::Window { cause: PeriodError::Inverted })),
{
    let range = match cli.since {
        Some(since) => period::explicit(now, since, cli.until),
        None => {
            let period = match cli.period() {
                Some(p) => p,
                None => match file.period {
                    Some(p) => p,
                    None => Period::Week,
                },
            };
            let first_day = match file.first_day_of_week {
                Some(d) => d,
                None => DayName::Mon,
            };
            period::resolve(now, period, first_day, cli.prev)
        },
    };
    let range = match range {
        Ok(r) => r,
        Err(cause) => return Err(ConfigError::Window { cause }),
    };

    let selected = cli.selected_sources();
    let sources = if selected.len() > 0 {
        selected
    } else {
        match file.sources {
            Some(s) if s.len() > 0 => s,
            _ => default_sources(),
        }
    };

    let mut types = file.types;
    if cli.types.len() > 0 {
        let ghost base = types.view();
        let ghost names = sources@.map_values(|x: SourceId| x@);
        let ghost kinds = kind_names(cli.types@);
        let mut i: usize = 0;
        while i < sources.len()
            invariant
                i <= sources@.len(),
                names == sources@.map_values(|x: SourceId| x@),
                kinds == kind_names(cli.types@),
                types.wf(),
                types.view() == base.union_prefer_right(
                    Map::new(|s: Seq<char>| names.take(i as int).contains(s), |s: Seq<char>| kinds),
                ),
            decreases sources.len() - i,
        {
            let copied = crate::item::copy_kinds(cli.types.as_slice());
            assert(kind_names(copied@) =~= kinds);
            types.insert(sources[i].copy(), copied);
            proof {
                let before = names.take(i as int);
                let after = names.take(i + 1);
                assert forall|s: Seq<char>| after.contains(s) <==> (before.contains(s) || s == names[i as int]) by {
                    if before.contains(s) {
                        let j = choose|j: int| 0 <= j < before.len() && before[j] == s;
                        assert(after[j] == s);
                    }
                    if s == names[i as int] {
                        assert(after[i as int] == s);
                    }
                    if after.contains(s) {
                        let j = choose|j: int| 0 <= j < after.len() && after[j] == s;
                        if j < i {
                            assert(before[j] == s);
                        }
                    }
                }
                assert(types.view() =~= base.union_prefer_right(
                    Map::new(|s: Seq<char>| names.take(i + 1).contains(s), |s: Seq<char>| kinds),
                ));
            }
            i += 1;
        }
        assert(names.take(sources@.len() as int) == names);
    }

    let mut github = file.github;
    if cli.orgs.len() > 0 {
        github.orgs = copy_texts(&cli.orgs);
    }

    let format = if cli.markdown {
        Format::Markdown
    } else if cli.json {
        Format::Json
    } else {
        Format::Terminal
    };

    let cache_ttl = if cli.no_cache {
        Duration::zero()
    } else {
        match &file.cache_ttl {
            Some(text) => match parse_ttl(text.as_str()) {
                Ok(d) => d,
                Err(e) => return Err(e),
            },
            None => Duration::from_secs(DEFAULT_CACHE_TTL),
        }
    };

    Ok(Settings {
        show_source_column: sources.len() > 1,
        range,
        sources,
        types,
        format,
        github,
        jira: file.jira,
        cache_ttl,
    })
}

} // verus!

verus! {

/// What an error says, worded for the person running the report.
pub open spec fn config_error_text(e: ConfigError) -> Seq<char> {
    match e {
        ConfigError::Syntax { detail } => "invalid configuration: "@ + detail@,
        ConfigError::UnknownField { key } => "invalid configuration: unknown field `"@ + key@ + "`"@,
        ConfigError::InvalidValue { key } => "invalid configuration: invalid value for `"@ + key@ + "`"@,
        ConfigError::InvalidTtl { text } => "invalid cache_ttl `"@ + text@
            + "` (expected a number followed by s, m or h)"@,
        ConfigError::TtlTooLarge { text } => "invalid cache_ttl `"@ + text@ + "`"@,
        ConfigError::UnknownTtlUnit { unit } => "unknown cache_ttl unit `"@ + unit@
            + "` (expected s, m or h)"@,
        ConfigError::HomeNotSet => "HOME is not set"@,
        ConfigError::Window { cause } => crate::period::period_error_text(cause),
    }
}

impl ConfigError {
    /// What went wrong, worded for the person running the report.
    pub fn message(&self) -> (r: String)
        ensures
            r@ == config_error_text(*self),
    {
        match self {
            ConfigError::Syntax { detail } => {
                let mut m = owned("invalid configuration: ");
                push_str(&mut m, detail.as_str());
                m
            },
            ConfigError::UnknownField { key } => {
                let mut m = owned("invalid configuration: unknown field `");
                push_str(&mut m, key.as_str());
                push_str(&mut m, "`");
                m
            },
            ConfigError::InvalidValue { key } => {
                let mut m = owned("invalid configuration: invalid value for `");
                push_str(&mut m, key.as_str());
                push_str(&mut m, "`");
                m
            },
            ConfigError::InvalidTtl { text } => {
                let mut m = owned("invalid cache_ttl `");
                push_str(&mut m, text.as_str());
                push_str(&mut m, "` (expected a number followed by s, m or h)");
                m
            },
            ConfigError::TtlTooLarge { text } => {
                let mut m = owned("invalid cache_ttl `");
                push_str(&mut m, text.as_str());
                push_str(&mut m, "`");
                m
            },
            ConfigError::UnknownTtlUnit { unit } => {
                let mut m = owned("unknown cache_ttl unit `");
                push_str(&mut m, unit.as_str());
                push_str(&mut m, "` (expected s, m or h)");
                m
            },
            ConfigError::HomeNotSet => owned("HOME is not set"),
            ConfigError::Window { cause } => cause.message(),
        }
    }
}

} // verus!
