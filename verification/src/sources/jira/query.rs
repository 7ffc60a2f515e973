//! Construction of Jira search requests.
//!
//! A window plus a few settings in, JQL and request bodies out.
//!
//! JQL date literals have minute precision, carry no offset, and are read in
//! the time zone of the searching user's Jira profile, which is independent
//! of the machine running this program. The query window is therefore
//! widened by the largest UTC offset in use on either side, and results are
//! trimmed to the exact window once their timestamps are parsed.
use vstd::prelude::*;

use crate::json::{member, Json};
use crate::period::TimeRange;
use crate::text::{opt_view, blank, is_blank, join, join_all, owned, push_str, replace, replace_char, trim, trimmed};
use crate::time::{format_civil, formatted, utc_civil, utc_civil_of, Instant};

verus! {

/// Largest distance between any civil time zone and UTC, in seconds: 14
/// hours.
pub const WIDEST_OFFSET: i64 = 50400;

/// Largest page the search endpoint is asked for.
pub const PAGE_SIZE: u32 = 100;

/// An instant moved by whole seconds.
pub open spec fn shifted(at: Instant, seconds: int) -> Instant {
    Instant { second: (at.second + seconds) as i64, nanosecond: at.nanosecond }
}

/// An instant as a JQL date literal: its UTC date and time to the minute.
pub open spec fn jql_literal(at: Instant) -> Seq<char> {
    formatted("%Y/%m/%d %H:%M"@, utc_civil(at).unwrap().0, utc_civil(at).unwrap().1, 0)
}

/// A project key as a JQL string: quoted, with backslashes and quotes
/// escaped.
pub open spec fn quoted(project: Seq<char>) -> Seq<char> {
    "\""@ + replace(replace(trim(project), '\\', "\\\\"@), '"', "\\\""@) + "\""@
}

/// The quoted keys of the projects that are not blank, in order.
pub open spec fn quoted_projects(projects: Seq<String>) -> Seq<Seq<char>>
    decreases projects.len(),
{
    if projects.len() == 0 {
        seq![]
    } else {
        let earlier = quoted_projects(projects.drop_last());
        if is_blank(projects.last()@) {
            earlier
        } else {
            earlier.push(quoted(projects.last()@))
        }
    }
}

/// The project restriction: none when no project is named.
pub open spec fn project_clause(projects: Seq<String>) -> Seq<char> {
    if quoted_projects(projects).len() == 0 {
        seq![]
    } else {
        " AND project in ("@ + join(quoted_projects(projects), ", "@) + ")"@
    }
}

/// Whether the widened window of `range` stays within the span `jiff`
/// represents.
pub open spec fn widenable(range: TimeRange) -> bool {
    &&& range.start.instant.second - 50400 >= -377705023201
    &&& range.end.instant.second + 50460 <= 253402207200
    &&& shifted(range.start.instant, -50400).representable()
    &&& shifted(range.end.instant, 50460).representable()
}

/// The JQL for issues assigned to the searching user and resolved between
/// two literals.
pub open spec fn resolved_jql(start: Seq<char>, end: Seq<char>, projects: Seq<String>) -> Seq<char> {
    "assignee = currentUser() AND resolutiondate >= \""@ + start + "\" AND resolutiondate < \""@ + end
        + "\""@ + project_clause(projects) + " ORDER BY resolutiondate ASC"@
}

/// Formats an instant as a JQL date literal, truncated to the minute.
fn literal(at: Instant) -> (r: String)
    requires
        at.representable(),
    ensures
        r@ == jql_literal(at),
{
    match utc_civil_of(at) {
        Some((date, clock)) => format_civil("%Y/%m/%d %H:%M", date, clock, 0),
        None => String::new(),
    }
}

/// The project restriction.
pub fn project_filter(projects: &[String]) -> (r: String)
    ensures
        r@ == project_clause(projects@),
{
    let mut parts: Vec<String> = Vec::new();
    let mut i: usize = 0;
    while i < projects.len()
        invariant
            i <= projects@.len(),
            parts@.map_values(|p: String| p@) == quoted_projects(projects@.take(i as int)),
        decreases projects.len() - i,
    {
        assert(projects@.take(i + 1).drop_last() == projects@.take(i as int));
        assert(projects@.take(i + 1).last() == projects@[i as int]);
        if !blank(projects[i].as_str()) {
            let t = trimmed(projects[i].as_str());
            let a = replace_char(t.as_str(), '\\', "\\\\");
            let b = replace_char(a.as_str(), '"', "\\\"");
            let mut q = owned("\"");
            push_str(&mut q, b.as_str());
            push_str(&mut q, "\"");
            parts.push(q);
        }
        assert(parts@.map_values(|p: String| p@) =~= quoted_projects(projects@.take(i + 1)));
        i += 1;
    }
    assert(projects@.take(projects@.len() as int) == projects@);
    if parts.len() == 0 {
        return String::new();
    }
    let mut r = owned(" AND project in (");
    push_str(&mut r, join_all(&parts, ", ").as_str());
    push_str(&mut r, ")");
    r
}

/// JQL for issues assigned to the searching user and resolved during a
/// window that contains `range` whatever the profile's time zone: 14 hours
/// earlier at the start, and 14 hours and a minute later at the end, so the
/// minute the window ends in is searched whole.
pub fn resolved_issues(range: &TimeRange, projects: &[String]) -> (r: String)
    requires
        widenable(*range),
    ensures
        r@ == resolved_jql(
            jql_literal(shifted(range.start.instant, -50400)),
            jql_literal(shifted(range.end.instant, 50460)),
            projects@,
        ),
{
    let start = literal(
        Instant { second: range.start.instant.second - WIDEST_OFFSET, nanosecond: range.start.instant.nanosecond },
    );
    let end = literal(
        Instant { second: range.end.instant.second + WIDEST_OFFSET + 60, nanosecond: range.end.instant.nanosecond },
    );
    let mut r = owned("assignee = currentUser() AND resolutiondate >= \"");
    push_str(&mut r, start.as_str());
    push_str(&mut r, "\" AND resolutiondate < \"");
    push_str(&mut r, end.as_str());
    push_str(&mut r, "\"");
    push_str(&mut r, project_filter(projects).as_str());
    push_str(&mut r, " ORDER BY resolutiondate ASC");
    r
}

/// Whether a value is the text `s`.
pub open spec fn text_is(v: Json, s: Seq<char>) -> bool {
    v matches Json::Text(t) && t@ == s
}

/// The members of a search request: the JQL, the fields the mapping reads,
/// the page size, and the page token when there is one.
pub open spec fn request_members(m: Seq<(String, Json)>, jql: Seq<char>, token: Option<Seq<char>>) -> bool {
    &&& m.len() == if token is Some { 4int } else { 3int }
    &&& m[0].0@ == "jql"@ && text_is(m[0].1, jql)
    &&& m[1].0@ == "fields"@ && (m[1].1 matches Json::Array(f) && (f@.len() == 3 && text_is(f@[0], "summary"@)
        && text_is(f@[1], "resolutiondate"@) && text_is(f@[2], "project"@)))
    &&& m[2].0@ == "maxResults"@ && (m[2].1 matches Json::Number(n) && n@ == "100"@)
    &&& token matches Some(t) ==> m[3].0@ == "nextPageToken"@ && text_is(m[3].1, t)
}

/// The body of one `POST /rest/api/3/search/jql` request: the JQL, the
/// fields the mapping reads, the page size, and the page token for every
/// page after the first.
pub fn search_body(jql: &str, next_page_token: Option<&str>) -> (r: Json)
    ensures
        r matches Json::Object(members) && request_members(members@, jql@, opt_view(next_page_token)),
{
    let fields = vec![
        Json::Text(owned("summary")),
        Json::Text(owned("resolutiondate")),
        Json::Text(owned("project")),
    ];
    let mut members = vec![
        (owned("jql"), Json::Text(owned(jql))),
        (owned("fields"), Json::Array(fields)),
        (owned("maxResults"), Json::Number(owned("100"))),
    ];
    if let Some(token) = next_page_token {
        members.push((owned("nextPageToken"), Json::Text(owned(token))));
    }
    Json::Object(members)
}

} // verus!
