//! GitHub data source.
//!
//! Treats a pull request as finished when it merged and an issue when it
//! closed, and reports each against the window it completed in.
pub mod auth;
pub mod client;
pub mod map;
pub mod query;
pub mod retry;

use vstd::prelude::*;

use jiff::tz::TimeZone;

use crate::config::GithubConfig;
use crate::item::{Item, Kind, SourceId};
use crate::json::{as_text, get, member, text, Json};
use crate::kinds::kind_names;
use crate::period::TimeRange;
use crate::text::{decimal, decimal_of, join, join_all, owned, push_str, same, sort_texts, views, copy_texts, text_le};

use map::{item_of, page_readable, page_reads, parse_page, reported_nodes, to_items, SearchPage};
use query::{closed_issues, issue_query, merged_prs, pr_query, qualifiers, Search};
use crate::period::{moment_text, search_template};
use crate::text::opt_string;

verus! {

/// Highest page size the search API accepts.
pub const PAGE_SIZE: u32 = 100;

/// Ceiling GitHub applies to any single search query.
pub const SEARCH_RESULT_CAP: u32 = 1000;

pub const SEARCH_QUERY: &'static str = "query FinSearch($q: String!, $cursor: String, $size: Int!) {
  search(query: $q, type: ISSUE, first: $size, after: $cursor) {
    issueCount
    pageInfo { hasNextPage endCursor }
    nodes {
      __typename
      ... on PullRequest {
        number title url mergedAt
        repository { nameWithOwner }
      }
      ... on Issue {
        number title url closedAt stateReason
        repository { nameWithOwner }
      }
    }
  }
}
";

pub const VIEWER_QUERY: &'static str = "query FinViewer { viewer { login } }";

pub fn id() -> (r: SourceId)
    ensures
        r@ == "github"@,
{
    proof {
        reveal_strlit("github");
        assert(crate::text::lower("github"@) =~= "github"@);
    }
    SourceId::new("github")
}

pub fn default_kinds() -> (r: Vec<Kind>)
    ensures
        kind_names(r@) == seq!["pr"@, "issue"@],
{
    proof {
        reveal_strlit("pr");
        reveal_strlit("issue");
        assert(crate::text::lower("pr"@) =~= "pr"@);
        assert(crate::text::lower("issue"@) =~= "issue"@);
    }
    let r = vec![Kind::new("pr"), Kind::new("issue")];
    assert(kind_names(r@) =~= seq!["pr"@, "issue"@]);
    r
}

/// The warning for a search that matched more than GitHub will return.
pub open spec fn cap_text(kind: Seq<char>, matched: u32) -> Option<Seq<char>> {
    let noun = if kind == "pr"@ { "pull request"@ } else { kind };
    if matched > 1000 {
        Some(
            "the "@ + noun + " search matched "@ + decimal(matched as nat)
                + " results, but GitHub returns at most 1000, so the report is incomplete; narrow the window or filter with --org"@,
        )
    } else {
        None
    }
}

/// Describes a search that matched more than GitHub will return, if it did.
pub fn cap_warning(kind: &str, matched: u32) -> (r: Option<String>)
    ensures
        match cap_text(kind@, matched) {
            Some(t) => r matches Some(w) && w@ == t,
            None => r is None,
        },
{
    if matched <= SEARCH_RESULT_CAP {
        return None;
    }
    let mut w = owned("the ");
    if same(kind, "pr") {
        push_str(&mut w, "pull request");
    } else {
        push_str(&mut w, kind);
    }
    push_str(&mut w, " search matched ");
    push_str(&mut w, decimal_of(matched as u64).as_str());
    push_str(
        &mut w,
        " results, but GitHub returns at most 1000, so the report is incomplete; narrow the window or filter with --org",
    );
    Some(w)
}

/// The login a viewer query's response names.
pub open spec fn viewer_login_of(body: Json) -> Option<Seq<char>> {
    match member(body, "data"@) {
        Some(data) => match member(data, "viewer"@) {
            Some(viewer) => match member(viewer, "login"@) {
                Some(login) => text(login),
                None => None,
            },
            None => None,
        },
        None => None,
    }
}

/// Reads the authenticated login, which every search query is built around.
pub fn viewer_login(body: &Json) -> (r: Result<String, String>)
    ensures
        match viewer_login_of(*body) {
            Some(l) => r matches Ok(s) && s@ == l,
            None => r matches Err(e) && e@ == "GitHub did not return a login for the token"@,
        },
{
    let login = match get(body, "data") {
        Some(data) => match get(data, "viewer") {
            Some(viewer) => match get(viewer, "login") {
                Some(login) => as_text(login),
                None => None,
            },
            None => None,
        },
        None => None,
    };
    match login {
        Some(l) => Ok(owned(l)),
        None => Err(owned("GitHub did not return a login for the token")),
    }
}

/// The organizations in text order: the one arrangement that is sorted and
/// holds each of them as often as the list does.
pub open spec fn sorted_orgs(orgs: Seq<String>) -> Seq<Seq<char>> {
    choose|s: Seq<Seq<char>>|
        #![trigger s.to_multiset()]
        vstd::relations::sorted_by(s, |a: Seq<char>, b: Seq<char>| text_le(a, b)) && s.to_multiset()
            == views(orgs).to_multiset()
}

/// The identity of the settings that change what GitHub is asked.
pub open spec fn fingerprint_text(config: GithubConfig) -> Seq<char> {
    "orgs="@ + join(sorted_orgs(config.orgs@), ","@) + ";issues="@ + match config.issue_match {
        crate::config::IssueMatch::Author => "Author"@,
        crate::config::IssueMatch::Assignee => "Assignee"@,
        crate::config::IssueMatch::Either => "Either"@,
    } + ";not_planned="@ + if config.include_not_planned {
        "true"@
    } else {
        "false"@
    }
}

/// Identity of the settings that change this source's results, so a
/// configuration change invalidates cached entries.
pub fn cache_fingerprint(config: &GithubConfig) -> (r: String)
    ensures
        r@ == fingerprint_text(*config),
{
    let mut orgs = copy_texts(&config.orgs);
    sort_texts(&mut orgs);
    proof {
        let le = |a: Seq<char>, b: Seq<char>| text_le(a, b);
        let s = sorted_orgs(config.orgs@);
        assert(views(orgs@).to_multiset() == views(config.orgs@).to_multiset());
        crate::text::lemma_text_le_total_ordering();
        vstd::seq_lib::lemma_sorted_unique(views(orgs@), s, le);
    }
    let mut r = owned("orgs=");
    push_str(&mut r, join_all(&orgs, ",").as_str());
    push_str(&mut r, ";issues=");
    push_str(&mut r, config.issue_match.name());
    push_str(&mut r, ";not_planned=");
    push_str(&mut r, if config.include_not_planned { "true" } else { "false" });
    r
}

/// The fingerprint does not depend on the order organizations are listed in.
pub proof fn lemma_fingerprint_ignores_org_order(a: GithubConfig, b: GithubConfig)
    requires
        views(a.orgs@).to_multiset() == views(b.orgs@).to_multiset(),
        a.issue_match == b.issue_match,
        a.include_not_planned == b.include_not_planned,
    ensures
        fingerprint_text(a) == fingerprint_text(b),
{
}

/// Whether `kinds` names `name`.
pub open spec fn wants(kinds: Seq<Kind>, name: Seq<char>) -> bool {
    exists|i: int| 0 <= i < kinds.len() && (#[trigger] kinds[i])@ == name
}

/// Whether `kinds` names `name`.
fn wanted(kinds: &[Kind], name: &str) -> (r: bool)
    ensures
        r == wants(kinds@, name@),
{
    let mut i: usize = 0;
    while i < kinds.len()
        invariant
            i <= kinds@.len(),
            forall|j: int| 0 <= j < i ==> (#[trigger] kinds@[j])@ != name@,
        decreases kinds.len() - i,
    {
        if same(kinds[i].as_str(), name) {
            assert(kinds@[i as int]@ == name@);
            return true;
        }
        i += 1;
    }
    false
}

/// The kind and query text of each search.
pub open spec fn search_texts(s: Seq<Search>) -> Seq<(Seq<char>, Seq<char>)> {
    s.map_values(|x: Search| (x.kind@, x.query@))
}

/// The searches a fetch runs: one for merged pull requests when they are
/// wanted, then one per issue qualifier when issues are.
pub open spec fn planned_searches(
    user: Seq<char>,
    start: Seq<char>,
    end: Seq<char>,
    config: GithubConfig,
    kinds: Seq<Kind>,
) -> Seq<(Seq<char>, Seq<char>)> {
    (if wants(kinds, "pr"@) {
        seq![("pr"@, pr_query(user, start, end, config.orgs@))]
    } else {
        seq![]
    }) + (if wants(kinds, "issue"@) {
        qualifiers(config.issue_match).map_values(
            |q: Seq<char>| ("issue"@, issue_query(q, user, start, end, config.orgs@)),
        )
    } else {
        seq![]
    })
}

/// The searches that find the requested kinds of work by `user` in `range`.
pub fn searches(user: &str, range: &TimeRange, config: &GithubConfig, kinds: &[Kind]) -> (r: Vec<Search>)
    ensures
        search_texts(r@) == planned_searches(
            user@,
            moment_text(search_template(), range.start),
            moment_text(search_template(), range.end),
            *config,
            kinds@,
        ),
{
    let mut all: Vec<Search> = Vec::new();
    if wanted(kinds, "pr") {
        all = merged_prs(user, range, config.orgs.as_slice());
    }
    if wanted(kinds, "issue") {
        let mut issues = closed_issues(user, range, config.orgs.as_slice(), config.issue_match);
        all.append(&mut issues);
    }
    proof {
        reveal_strlit("author");
        reveal_strlit("assignee");
    }
    assert(search_texts(all@) =~= planned_searches(
        user@,
        moment_text(search_template(), range.start),
        moment_text(search_template(), range.end),
        *config,
        kinds@,
    ));
    all
}

/// The search result a GraphQL response body carries, if any.
pub open spec fn search_of(body: Json) -> Option<Json> {
    match member(body, "data"@) {
        Some(data) => member(data, "search"@),
        None => None,
    }
}

/// What taking page `p` does to a search: its reported items are appended,
/// the first page decides the cap warning, and the search continues only
/// when the page says more follow and names the cursor to them.
pub open spec fn page_taken(
    before: SearchRun,
    after: SearchRun,
    p: SearchPage,
    kind: Seq<char>,
    include_not_planned: bool,
    zone: TimeZone,
) -> bool {
    let found = reported_nodes(p.nodes@, include_not_planned);
    &&& after.items@.len() == before.items@.len() + found.len()
    &&& after.items@.take(before.items@.len() as int) == before.items@
    &&& forall|i: int|
        0 <= i < found.len() ==> item_of(#[trigger] after.items@[before.items@.len() + i], found[i], zone)
    &&& if before.cursor is None {
        opt_string(after.capped) == cap_text(kind, p.issue_count)
    } else {
        after.capped == before.capped
    }
    &&& if p.page_info.has_next_page && p.page_info.end_cursor is Some {
        !after.done && opt_string(after.cursor) == opt_string(p.page_info.end_cursor)
    } else {
        after.done
    }
}

/// One search followed from page to page: the items found so far, the
/// cursor of the next page, and the warning when GitHub's result cap cut the
/// search short.
#[derive(Debug)]
pub struct SearchRun {
    pub items: Vec<Item>,
    pub cursor: Option<String>,
    pub capped: Option<String>,
    /// No page follows.
    pub done: bool,
}

impl SearchRun {
    /// A search before its first page.
    pub fn new() -> (r: SearchRun)
        ensures
            r.items@.len() == 0,
            r.cursor is None,
            r.capped is None,
            !r.done,
    {
        SearchRun { items: Vec::new(), cursor: None, capped: None, done: false }
    }

    /// The variables of the request for the next page: the query, the cursor
    /// (null for the first page) and the page size.
    pub fn variables(&self, search: &Search) -> (r: Json)
        ensures
            member(r, "q"@) matches Some(Json::Text(q)) && q@ == search.query@,
            match self.cursor {
                Some(c) => member(r, "cursor"@) matches Some(Json::Text(t)) && t@ == c@,
                None => member(r, "cursor"@) == Some(Json::Null),
            },
            member(r, "size"@) matches Some(Json::Number(n)) && n@ == "100"@,
    {
        let cursor = match &self.cursor {
            Some(c) => Json::Text(owned(c.as_str())),
            None => Json::Null,
        };
        let r = Json::Object(
            vec![
                (owned("q"), Json::Text(owned(search.query.as_str()))),
                (owned("cursor"), cursor),
                (owned("size"), Json::Number(owned("100"))),
            ],
        );
        proof {
            reveal_strlit("q");
            reveal_strlit("cursor");
            reveal_strlit("size");
            reveal_strlit("100");
            assert("q"@.len() == 1 && "cursor"@.len() == 6 && "size"@.len() == 4);
            reveal_with_fuel(crate::json::member_of, 4);
        }
        r
    }

    /// Takes the response to the request for the next page: its items are
    /// kept, the first page says whether the result cap cut the search short,
    /// and the page information says whether another page follows. A page
    /// that claims more without a cursor ends the search.
    pub fn take_page(&mut self, search: &Search, body: &Json, zone: &TimeZone, include_not_planned: bool) -> (r:
        Result<(), String>)
        ensures
            match search_of(*body) {
                None => r matches Err(e) && e@ == "response contained no search results"@ && *final(self)
                    == *old(self),
                Some(s) => if !page_readable(s) {
                    r matches Err(e) && e@ == "unexpected search result shape"@ && *final(self) == *old(self)
                } else {
                    &&& r is Ok
                    &&& exists|p: SearchPage|
                        #![trigger page_reads(p, s)]
                        page_reads(p, s) && page_taken(*old(self), *final(self), p, search.kind@, include_not_planned, *zone)
                },
            },
    {
        let page = match parse_page(body) {
            Ok(p) => p,
            Err(e) => return Err(e),
        };
        if self.cursor.is_none() {
            self.capped = cap_warning(search.kind, page.issue_count);
        }
        let ghost before = self.items@;
        let mut found = to_items(&page, zone, include_not_planned);
        let ghost added = found@;
        self.items.append(&mut found);
        assert(self.items@.take(before.len() as int) =~= before);
        assert forall|i: int| 0 <= i < added.len() implies self.items@[before.len() + i] == added[i] by {}
        match &page.page_info.end_cursor {
            Some(next) if page.page_info.has_next_page => {
                self.cursor = Some(owned(next.as_str()));
                self.done = false;
            },
            _ => {
                self.done = true;
            },
        }
        assert(page_reads(page, search_of(*body).unwrap()));
        assert(page_taken(*old(self), *self, page, search.kind@, include_not_planned, *zone));
        Ok(())
    }
}

/// Each setting that shapes a query shows in the fingerprint: two
/// configurations with the same organizations but a different issue match,
/// or a different choice about issues closed as not planned, never share a
/// fingerprint.
pub proof fn lemma_fingerprint_tracks_query_settings(a: GithubConfig, b: GithubConfig)
    requires
        views(a.orgs@).to_multiset() == views(b.orgs@).to_multiset(),
        a.issue_match != b.issue_match || a.include_not_planned != b.include_not_planned,
    ensures
        fingerprint_text(a) != fingerprint_text(b),
{
    reveal_strlit("orgs=");
    reveal_strlit(",");
    reveal_strlit(";issues=");
    reveal_strlit("Author");
    reveal_strlit("Assignee");
    reveal_strlit("Either");
    reveal_strlit(";not_planned=");
    reveal_strlit("true");
    reveal_strlit("false");
    let prefix = "orgs="@ + join(sorted_orgs(a.orgs@), ","@) + ";issues="@;
    let name = |m: crate::config::IssueMatch| match m {
        crate::config::IssueMatch::Author => "Author"@,
        crate::config::IssueMatch::Assignee => "Assignee"@,
        crate::config::IssueMatch::Either => "Either"@,
    };
    let flag = |f: bool| if f { "true"@ } else { "false"@ };
    let fa = fingerprint_text(a);
    let fb = fingerprint_text(b);
    assert(fa == prefix + name(a.issue_match) + ";not_planned="@ + flag(a.include_not_planned));
    assert(fb == prefix + name(b.issue_match) + ";not_planned="@ + flag(b.include_not_planned));
    if a.issue_match != b.issue_match {
        let k = (prefix.len() + 1) as int;
        assert(fa[k] == name(a.issue_match)[1]);
        assert(fb[k] == name(b.issue_match)[1]);
    } else {
        let k = (prefix.len() + name(a.issue_match).len() + 13) as int;
        assert(";not_planned="@.len() == 13);
        assert(fa[k] == flag(a.include_not_planned)[0]);
        assert(fb[k] == flag(b.include_not_planned)[0]);
    }
}

} // verus!
