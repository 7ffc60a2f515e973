//! Jira Cloud data source.
//!
//! Treats an issue as finished when it was resolved while assigned to the
//! searching user, and reports it against the moment it was resolved.
pub mod auth;
pub mod client;
pub mod map;
pub mod query;

use vstd::prelude::*;

use jiff::tz::TimeZone;

use crate::item::{Item, Kind, SourceId};
use crate::json::{get, member, text, Json};
use crate::kinds::kind_names;
use crate::period::TimeRange;
use crate::text::{copy_texts, join, join_all, opt_string, owned, push_str, same, sort_texts, text_le, views};

use auth::Site;
use map::{item_of, page_readable, page_reads, parse_page, reported_issues, to_items, SearchPage};

verus! {

pub fn id() -> (r: SourceId)
    ensures
        r@ == "jira"@,
{
    proof {
        reveal_strlit("jira");
        assert(crate::text::lower("jira"@) =~= "jira"@);
    }
    SourceId::new("jira")
}

pub fn default_kinds() -> (r: Vec<Kind>)
    ensures
        kind_names(r@) == seq!["issue"@],
{
    proof {
        reveal_strlit("issue");
        assert(crate::text::lower("issue"@) =~= "issue"@);
    }
    let r = vec![Kind::new("issue")];
    assert(kind_names(r@) =~= seq!["issue"@]);
    r
}

/// Whether `kinds` asks for issues, the only kind Jira reports.
pub fn wants_issues(kinds: &[Kind]) -> (r: bool)
    ensures
        r == exists|i: int| 0 <= i < kinds@.len() && (#[trigger] kinds@[i])@ == "issue"@,
{
    let mut i: usize = 0;
    while i < kinds.len()
        invariant
            i <= kinds@.len(),
            forall|j: int| 0 <= j < i ==> (#[trigger] kinds@[j])@ != "issue"@,
        decreases kinds.len() - i,
    {
        if same(kinds[i].as_str(), "issue") {
            assert(kinds@[i as int]@ == "issue"@);
            return true;
        }
        i += 1;
    }
    false
}

/// The project keys in text order: the one arrangement that is sorted and
/// holds each of them as often as the list does.
pub open spec fn sorted_projects(projects: Seq<String>) -> Seq<Seq<char>> {
    choose|s: Seq<Seq<char>>|
        #![trigger s.to_multiset()]
        vstd::relations::sorted_by(s, |a: Seq<char>, b: Seq<char>| text_le(a, b)) && s.to_multiset()
            == views(projects).to_multiset()
}

/// The identity of the settings that change what Jira is asked.
pub open spec fn fingerprint_text(site: Site, email: Seq<char>, projects: Seq<String>) -> Seq<char> {
    "site="@ + site.host() + ";email="@ + email + ";projects="@ + join(sorted_projects(projects), ","@)
}

/// Identity of the settings that change this source's results, so a
/// configuration change invalidates cached entries.
pub fn cache_fingerprint(site: &Site, email: &str, projects: &Vec<String>) -> (r: String)
    ensures
        r@ == fingerprint_text(*site, email@, projects@),
{
    let mut sorted = copy_texts(projects);
    sort_texts(&mut sorted);
    proof {
        let le = |a: Seq<char>, b: Seq<char>| text_le(a, b);
        crate::text::lemma_text_le_total_ordering();
        vstd::seq_lib::lemma_sorted_unique(views(sorted@), sorted_projects(projects@), le);
    }
    let mut r = owned("site=");
    push_str(&mut r, site.as_str());
    push_str(&mut r, ";email=");
    push_str(&mut r, email);
    push_str(&mut r, ";projects=");
    push_str(&mut r, join_all(&sorted, ",").as_str());
    r
}

/// The fingerprint does not depend on the order projects are listed in.
pub proof fn lemma_fingerprint_ignores_project_order(site: Site, email: Seq<char>, a: Seq<String>, b: Seq<String>)
    requires
        views(a).to_multiset() == views(b).to_multiset(),
    ensures
        fingerprint_text(site, email, a) == fingerprint_text(site, email, b),
{
}

/// Whether an account lookup's response names an account.
pub open spec fn names_account(body: Json) -> bool {
    match member(body, "accountId"@) {
        Some(id) => text(id) is Some,
        None => false,
    }
}

/// Confirms the credentials belong to an account. Jira answers a search
/// with bad credentials as an anonymous user who can see nothing, so the
/// account is confirmed before searching.
pub fn confirm_account(body: &Json) -> (r: Result<(), String>)
    ensures
        match r {
            Ok(()) => names_account(*body),
            Err(e) => !names_account(*body) && e@ == "Jira did not return an account for the credentials"@,
        },
{
    match get(body, "accountId") {
        Some(Json::Text(_)) => Ok(()),
        _ => Err(owned("Jira did not return an account for the credentials")),
    }
}

/// One search followed from page to page: the items found so far, the
/// token of the next page, and whether the search is over.
#[derive(Debug)]
pub struct IssueRun {
    pub items: Vec<Item>,
    pub token: Option<String>,
    /// No page follows.
    pub done: bool,
}

/// What taking page `p` does to a search: its reported issues' items are
/// appended, and the search continues only when the page names a next page
/// other than the one just read, so a repeated token ends it.
pub open spec fn page_taken(
    before: IssueRun,
    after: IssueRun,
    p: SearchPage,
    site: Site,
    range: TimeRange,
    zone: TimeZone,
) -> bool {
    let found = reported_issues(p.issues@, range);
    let next = if p.is_last == Some(true) {
        None
    } else {
        opt_string(p.next_page_token)
    };
    &&& after.items@.len() == before.items@.len() + found.len()
    &&& after.items@.take(before.items@.len() as int) == before.items@
    &&& forall|i: int|
        0 <= i < found.len() ==> item_of(#[trigger] after.items@[before.items@.len() + i], found[i], site, zone)
    &&& if next is Some && next != opt_string(before.token) {
        !after.done && opt_string(after.token) == next
    } else {
        after.done
    }
}

impl IssueRun {
    /// A search before its first page.
    pub fn new() -> (r: IssueRun)
        ensures
            r.items@.len() == 0,
            r.token is None,
            !r.done,
    {
        IssueRun { items: Vec::new(), token: None, done: false }
    }

    /// The body of the request for the next page.
    pub fn request(&self, jql: &str) -> (r: Json)
        ensures
            r matches Json::Object(members) && query::request_members(members@, jql@, opt_string(self.token)),
    {
        let token = match &self.token {
            Some(t) => Some(t.as_str()),
            None => None,
        };
        query::search_body(jql, token)
    }

    /// Takes the response to the request for the next page.
    pub fn take_page(&mut self, body: &Json, site: &Site, range: &TimeRange, zone: &TimeZone) -> (r: Result<
        (),
        String,
    >)
        ensures
            if !page_readable(*body) {
                r matches Err(e) && e@ == "unexpected Jira search result shape"@ && *final(self) == *old(self)
            } else {
                &&& r is Ok
                &&& exists|p: SearchPage|
                    #![trigger page_reads(p, *body)]
                    page_reads(p, *body) && page_taken(*old(self), *final(self), p, *site, *range, *zone)
            },
    {
        let page = match parse_page(body) {
            Ok(p) => p,
            Err(e) => return Err(e),
        };
        let ghost before = self.items@;
        let mut found = to_items(&page, site, range, zone);
        let ghost added = found@;
        self.items.append(&mut found);
        assert(self.items@.take(before.len() as int) =~= before);
        assert forall|i: int| 0 <= i < added.len() implies self.items@[before.len() + i] == added[i] by {}
        let repeated = match (page.next(), &self.token) {
            (Some(next), Some(current)) => same(next, current.as_str()),
            _ => false,
        };
        match page.next() {
            Some(next) if !repeated => {
                self.token = Some(owned(next));
                self.done = false;
            },
            _ => {
                self.done = true;
            },
        }
        assert(page_taken(*old(self), *self, page, *site, *range, *zone));
        Ok(())
    }
}

} // verus!
