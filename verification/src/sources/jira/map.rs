//! Conversion of Jira search responses into [`Item`]s.
//!
//! The site, the window and the target time zone are parameters.
use vstd::prelude::*;

use jiff::tz::TimeZone;

use super::auth::Site;
use crate::item::{Item, Kind, SourceId};
use crate::json::{get, member, text, Json};
use crate::period::TimeRange;
use crate::sources::github::map::{optional_text, text_value};
use crate::text::{opt_string, owned};
use crate::time::{instant_from_template, instant_from_text, moment_at, parse_instant, parse_instant_with, Instant};

verus! {

/// One page of search results.
#[derive(Debug)]
pub struct SearchPage {
    pub issues: Vec<Issue>,
    pub next_page_token: Option<String>,
    pub is_last: Option<bool>,
}

impl SearchPage {
    /// The token for the following page, when there is one.
    pub fn next(&self) -> (r: Option<&str>)
        ensures
            match r {
                Some(t) => self.is_last != Some(true) && (self.next_page_token matches Some(n) && t@ == n@),
                None => self.is_last == Some(true) || self.next_page_token is None,
            },
    {
        if self.is_last == Some(true) {
            return None;
        }
        match &self.next_page_token {
            Some(t) => Some(t.as_str()),
            None => None,
        }
    }
}

#[derive(Debug)]
pub struct Issue {
    pub key: String,
    pub fields: Fields,
}

#[derive(Debug)]
pub struct Fields {
    pub summary: String,
    pub resolutiondate: Option<Instant>,
    pub project: Option<Project>,
}

#[derive(Debug)]
pub struct Project {
    pub key: String,
    pub name: Option<String>,
}

/// The template Jira writes timestamps with, such as
/// `2026-09-14T11:15:00.000+0200`.
pub open spec fn jira_template() -> Seq<char> {
    "%Y-%m-%dT%H:%M:%S%.f%z"@
}

/// What a Jira timestamp text reads as: Jira's own form, else RFC 3339.
pub open spec fn jira_instant(t: Seq<char>) -> Option<Instant> {
    match instant_from_template(jira_template(), t) {
        Some(i) => Some(i),
        None => instant_from_text(t),
    }
}

/// A resolution date: `Some(None)` when absent or null, `None` when it is
/// neither a readable timestamp nor absent.
pub open spec fn resolution(v: Option<Json>) -> Option<Option<Instant>> {
    match v {
        None => Some(None),
        Some(Json::Null) => Some(None),
        Some(Json::Text(s)) => match jira_instant(s@) {
            Some(i) => Some(Some(i)),
            None => None,
        },
        _ => None,
    }
}

/// A summary: empty when absent.
pub open spec fn summary_text(v: Option<Json>) -> Option<Seq<char>> {
    match v {
        None => Some(seq![]),
        Some(t) => text(t),
    }
}

/// Whether a project can be read, when present.
pub open spec fn project_readable(v: Option<Json>) -> bool {
    match v {
        None => true,
        Some(Json::Null) => true,
        Some(p) => text_value(member(p, "key"@)) is Some && optional_text(member(p, "name"@)) is Some,
    }
}

/// Whether `p` is the project a readable member says.
pub open spec fn project_reads(p: Option<Project>, v: Option<Json>) -> bool {
    match v {
        None => p is None,
        Some(Json::Null) => p is None,
        Some(j) => p matches Some(pr) && (text_value(member(j, "key"@)) == Some(pr.key@) && optional_text(
            member(j, "name"@),
        ) == Some(opt_string(pr.name))),
    }
}

/// Whether an issue can be read: a key, and fields of the right kinds.
pub open spec fn issue_readable(j: Json) -> bool {
    &&& text_value(member(j, "key"@)) is Some
    &&& member(j, "fields"@) matches Some(f) && (f is Object && summary_text(member(f, "summary"@))
        is Some && resolution(member(f, "resolutiondate"@)) is Some && project_readable(
        member(f, "project"@),
    ))
}

/// Whether `i` is the issue a readable object says.
pub open spec fn issue_reads(i: Issue, j: Json) -> bool {
    &&& text_value(member(j, "key"@)) == Some(i.key@)
    &&& member(j, "fields"@) matches Some(f) && (summary_text(member(f, "summary"@)) == Some(
        i.fields.summary@,
    ) && resolution(member(f, "resolutiondate"@)) == Some(i.fields.resolutiondate) && project_reads(
        i.fields.project,
        member(f, "project"@),
    ))
}

/// Whether every issue can be read.
pub open spec fn all_readable(issues: Seq<Json>) -> bool {
    forall|i: int| 0 <= i < issues.len() ==> issue_readable(#[trigger] issues[i])
}

/// Whether a search response can be read: an object whose issues, if it
/// lists any, are readable, and whose page token and last-page flag have the
/// right kinds.
pub open spec fn page_readable(j: Json) -> bool {
    &&& j is Object
    &&& match member(j, "issues"@) {
        None => true,
        Some(Json::Array(issues)) => all_readable(issues@),
        _ => false,
    }
    &&& optional_text(member(j, "nextPageToken"@)) is Some
    &&& match member(j, "isLast"@) {
        None => true,
        Some(Json::Null) => true,
        Some(Json::Bool(_)) => true,
        _ => false,
    }
}

/// Whether `p` is the page a readable response says.
pub open spec fn page_reads(p: SearchPage, j: Json) -> bool {
    &&& match member(j, "issues"@) {
        Some(Json::Array(issues)) => issues@.len() == p.issues@.len() && forall|i: int|
            0 <= i < issues@.len() ==> issue_reads(#[trigger] p.issues@[i], issues@[i]),
        _ => p.issues@.len() == 0,
    }
    &&& optional_text(member(j, "nextPageToken"@)) == Some(opt_string(p.next_page_token))
    &&& p.is_last == match member(j, "isLast"@) {
        Some(Json::Bool(b)) => Some(b),
        _ => None,
    }
}

/// Reads a Jira timestamp.
fn read_instant(t: &str) -> (r: Option<Instant>)
    ensures
        r == jira_instant(t@),
{
    match parse_instant_with("%Y-%m-%dT%H:%M:%S%.f%z", t) {
        Some(i) => Some(i),
        None => parse_instant(t),
    }
}

fn read_text(j: &Json, key: &str) -> (r: Option<String>)
    ensures
        match text_value(member(*j, key@)) {
            Some(t) => r matches Some(s) && s@ == t,
            None => r is None,
        },
{
    match get(j, key) {
        Some(Json::Text(s)) => Some(owned(s.as_str())),
        _ => None,
    }
}

fn read_optional_text(j: &Json, key: &str) -> (r: Option<Option<String>>)
    ensures
        match optional_text(member(*j, key@)) {
            Some(t) => r matches Some(s) && opt_string(s) == t,
            None => r is None,
        },
{
    match get(j, key) {
        None => Some(None),
        Some(Json::Null) => Some(None),
        Some(Json::Text(s)) => Some(Some(owned(s.as_str()))),
        _ => None,
    }
}

/// Reads one issue.
pub fn read_issue(j: &Json) -> (r: Option<Issue>)
    ensures
        match r {
            Some(i) => issue_readable(*j) && issue_reads(i, *j),
            None => !issue_readable(*j),
        },
{
    let key = read_text(j, "key")?;
    let f = match get(j, "fields") {
        Some(f) => f,
        None => return None,
    };
    match f {
        Json::Object(_) => {},
        _ => return None,
    }
    let summary = match get(f, "summary") {
        None => String::new(),
        Some(Json::Text(s)) => owned(s.as_str()),
        Some(_) => return None,
    };
    let resolutiondate = match get(f, "resolutiondate") {
        None => None,
        Some(Json::Null) => None,
        Some(Json::Text(s)) => match read_instant(s.as_str()) {
            Some(i) => Some(i),
            None => return None,
        },
        Some(_) => return None,
    };
    let project = match get(f, "project") {
        None => None,
        Some(Json::Null) => None,
        Some(p) => {
            let key = read_text(p, "key")?;
            let name = read_optional_text(p, "name")?;
            Some(Project { key, name })
        },
    };
    Some(Issue { key, fields: Fields { summary, resolutiondate, project } })
}

/// Reads one search response into a page.
pub fn parse_page(body: &Json) -> (r: Result<SearchPage, String>)
    ensures
        match r {
            Ok(p) => page_readable(*body) && page_reads(p, *body),
            Err(e) => !page_readable(*body) && e@ == "unexpected Jira search result shape"@,
        },
{
    match body {
        Json::Object(_) => {},
        _ => return Err(owned("unexpected Jira search result shape")),
    }
    let mut issues: Vec<Issue> = Vec::new();
    match get(body, "issues") {
        None => {},
        Some(Json::Array(list)) => {
            let mut i: usize = 0;
            while i < list.len()
                invariant
                    member(*body, "issues"@) == Some(Json::Array(*list)),
                    i <= list@.len(),
                    issues@.len() == i,
                    forall|k: int| 0 <= k < i ==> issue_readable(#[trigger] list@[k]),
                    forall|k: int| 0 <= k < i ==> issue_reads(#[trigger] issues@[k], list@[k]),
                decreases list.len() - i,
            {
                match read_issue(&list[i]) {
                    Some(issue) => issues.push(issue),
                    None => {
                        assert(!all_readable(list@));
                        return Err(owned("unexpected Jira search result shape"));
                    },
                }
                i += 1;
            }
        },
        Some(_) => return Err(owned("unexpected Jira search result shape")),
    }
    let next_page_token = match read_optional_text(body, "nextPageToken") {
        Some(t) => t,
        None => return Err(owned("unexpected Jira search result shape")),
    };
    let is_last = match get(body, "isLast") {
        None => None,
        Some(Json::Null) => None,
        Some(Json::Bool(b)) => Some(*b),
        Some(_) => return Err(owned("unexpected Jira search result shape")),
    };
    Ok(SearchPage { issues, next_page_token, is_last })
}

/// Whether an issue is reported: it was resolved at a representable instant
/// within the window, its start included and its end not.
pub open spec fn reported(i: Issue, range: TimeRange) -> bool {
    i.fields.resolutiondate matches Some(t) && (t.representable() && range.start.instant.total()
        <= t.total() && t.total() < range.end.instant.total())
}

/// The issues that are reported, in order.
pub open spec fn reported_issues(issues: Seq<Issue>, range: TimeRange) -> Seq<Issue> {
    issues.filter(|i: Issue| reported(i, range))
}

/// Whether `it` is the item a reported issue becomes.
pub open spec fn item_of(it: Item, i: Issue, site: Site, zone: TimeZone) -> bool {
    &&& it.completed_at.instant.total() == i.fields.resolutiondate.unwrap().total()
    &&& it.completed_at.wf()
    &&& it.completed_at.zone == zone
    &&& it.source@ == "jira"@
    &&& it.kind@ == "issue"@
    &&& opt_string(it.reference) == Some(i.key@)
    &&& it.title@ == i.fields.summary@
    &&& it.url@ == "https://"@ + site.host() + "/browse/"@ + i.key@
    &&& opt_string(it.context) == match i.fields.project {
        Some(p) => Some(
            match p.name {
                Some(n) => n@,
                None => p.key@,
            },
        ),
        None => None,
    }
}

/// The item an issue becomes, when it is reported.
fn issue_item(i: &Issue, site: &Site, range: &TimeRange, zone: &TimeZone) -> (r: Option<Item>)
    ensures
        match r {
            Some(it) => reported(*i, *range) && item_of(it, *i, *site, *zone),
            None => !reported(*i, *range),
        },
{
    proof {
        reveal_strlit("jira");
        reveal_strlit("issue");
        assert(crate::text::lower("jira"@) =~= "jira"@);
        assert(crate::text::lower("issue"@) =~= "issue"@);
    }
    let resolved = match i.fields.resolutiondate {
        Some(t) => t,
        None => return None,
    };
    if resolved.before(&range.start.instant) || !resolved.before(&range.end.instant) {
        return None;
    }
    let completed_at = match moment_at(resolved, zone) {
        Some(m) => m,
        None => return None,
    };
    let context = match &i.fields.project {
        Some(p) => match &p.name {
            Some(n) => Some(owned(n.as_str())),
            None => Some(owned(p.key.as_str())),
        },
        None => None,
    };
    Some(Item {
        completed_at,
        source: SourceId::new("jira"),
        kind: Kind::new("issue"),
        reference: Some(owned(i.key.as_str())),
        title: owned(i.fields.summary.as_str()),
        url: site.browse_url(i.key.as_str()),
        context,
    })
}

/// Turns one page of search results into items in `zone`.
///
/// Unresolved issues are dropped, as are issues resolved outside `range`:
/// the query window is deliberately wider than the report's.
pub fn to_items(page: &SearchPage, site: &Site, range: &TimeRange, zone: &TimeZone) -> (r: Vec<Item>)
    ensures
        r@.len() == reported_issues(page.issues@, *range).len(),
        forall|k: int| 0 <= k < r@.len() ==> item_of(#[trigger] r@[k], reported_issues(page.issues@, *range)[k], *site, *zone),
{
    let mut items: Vec<Item> = Vec::new();
    let mut i: usize = 0;
    while i < page.issues.len()
        invariant
            i <= page.issues@.len(),
            items@.len() == reported_issues(page.issues@.take(i as int), *range).len(),
            forall|k: int|
                0 <= k < items@.len() ==> item_of(
                    #[trigger] items@[k],
                    reported_issues(page.issues@.take(i as int), *range)[k],
                    *site,
                    *zone,
                ),
        decreases page.issues.len() - i,
    {
        let ghost before = page.issues@.take(i as int);
        assert(page.issues@.take(i + 1) == before.push(page.issues@[i as int]));
        match issue_item(&page.issues[i], site, range, zone) {
            Some(it) => items.push(it),
            None => {},
        }
        proof {
            let f = |x: Issue| reported(x, *range);
            before.lemma_filter_push(page.issues@[i as int], f);
        }
        i += 1;
    }
    assert(page.issues@.take(page.issues@.len() as int) == page.issues@);
    items
}

} // verus!
