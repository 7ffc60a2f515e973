//! Conversion of GitHub search responses into [`Item`]s.
//!
//! The target time zone is a parameter, so mapping is testable against
//! recorded responses without consulting the system clock.
use vstd::prelude::*;

use jiff::tz::TimeZone;

use crate::item::{Item, Kind, SourceId};
use crate::json::{as_text, get, member, text, Json};
use crate::text::{decimal, decimal_of, opt_string, owned, parse_u64, parse_u64_of, push_str, same};
use crate::time::{instant_from_text, moment_at, parse_instant, Instant};

verus! {

/// One page of search results.
#[derive(Debug)]
pub struct SearchPage {
    pub issue_count: u32,
    pub page_info: PageInfo,
    pub nodes: Vec<Node>,
}

#[derive(Debug)]
pub struct PageInfo {
    pub has_next_page: bool,
    pub end_cursor: Option<String>,
}

#[derive(Debug)]
pub struct Repository {
    pub name_with_owner: String,
}

/// A search result: a pull request, an issue, or something else search can
/// return, which is ignored.
#[derive(Debug)]
pub enum Node {
    PullRequest { number: u64, title: String, url: String, merged_at: Option<Instant>, repository: Repository },
    Issue {
        number: u64,
        title: String,
        url: String,
        closed_at: Option<Instant>,
        state_reason: Option<String>,
        repository: Repository,
    },
    Unknown,
}

/// A whole number as a JSON number holds it.
pub open spec fn number_value(v: Option<Json>) -> Option<u64> {
    match v {
        Some(Json::Number(n)) => parse_u64(n@),
        _ => None,
    }
}

/// The text of a member that must be a string.
pub open spec fn text_value(v: Option<Json>) -> Option<Seq<char>> {
    match v {
        Some(t) => text(t),
        None => None,
    }
}

/// An optional string member: `Some(None)` when absent or null, `None` when
/// it is neither a string nor absent.
pub open spec fn optional_text(v: Option<Json>) -> Option<Option<Seq<char>>> {
    match v {
        None => Some(None),
        Some(Json::Null) => Some(None),
        Some(Json::Text(s)) => Some(Some(s@)),
        _ => None,
    }
}

/// An optional timestamp member: `Some(None)` when absent or null, `None`
/// when it is neither a readable timestamp nor absent.
pub open spec fn optional_instant(v: Option<Json>) -> Option<Option<Instant>> {
    match v {
        None => Some(None),
        Some(Json::Null) => Some(None),
        Some(Json::Text(s)) => match instant_from_text(s@) {
            Some(i) => Some(Some(i)),
            None => None,
        },
        _ => None,
    }
}

/// The repository a node names.
pub open spec fn repository_name(v: Option<Json>) -> Option<Seq<char>> {
    match v {
        Some(r) => text_value(member(r, "nameWithOwner"@)),
        None => None,
    }
}

/// The type a node declares.
pub open spec fn typename(j: Json) -> Option<Seq<char>> {
    text_value(member(j, "__typename"@))
}

/// Whether a node can be read: it declares its type, and a pull request or
/// an issue carries every field of its kind.
pub open spec fn node_readable(j: Json) -> bool {
    match typename(j) {
        None => false,
        Some(t) => if t == "PullRequest"@ {
            &&& number_value(member(j, "number"@)) is Some
            &&& text_value(member(j, "title"@)) is Some
            &&& text_value(member(j, "url"@)) is Some
            &&& optional_instant(member(j, "mergedAt"@)) is Some
            &&& repository_name(member(j, "repository"@)) is Some
        } else if t == "Issue"@ {
            &&& number_value(member(j, "number"@)) is Some
            &&& text_value(member(j, "title"@)) is Some
            &&& text_value(member(j, "url"@)) is Some
            &&& optional_instant(member(j, "closedAt"@)) is Some
            &&& optional_text(member(j, "stateReason"@)) is Some
            &&& repository_name(member(j, "repository"@)) is Some
        } else {
            true
        },
    }
}

/// Whether `n` is what a readable node says.
pub open spec fn node_reads(n: Node, j: Json) -> bool {
    match n {
        Node::PullRequest { number, title, url, merged_at, repository } => {
            &&& typename(j) == Some("PullRequest"@)
            &&& number_value(member(j, "number"@)) == Some(number)
            &&& text_value(member(j, "title"@)) == Some(title@)
            &&& text_value(member(j, "url"@)) == Some(url@)
            &&& optional_instant(member(j, "mergedAt"@)) == Some(merged_at)
            &&& repository_name(member(j, "repository"@)) == Some(repository.name_with_owner@)
        },
        Node::Issue { number, title, url, closed_at, state_reason, repository } => {
            &&& typename(j) == Some("Issue"@)
            &&& number_value(member(j, "number"@)) == Some(number)
            &&& text_value(member(j, "title"@)) == Some(title@)
            &&& text_value(member(j, "url"@)) == Some(url@)
            &&& optional_instant(member(j, "closedAt"@)) == Some(closed_at)
            &&& optional_text(member(j, "stateReason"@)) == Some(opt_string(state_reason))
            &&& repository_name(member(j, "repository"@)) == Some(repository.name_with_owner@)
        },
        Node::Unknown => typename(j) matches Some(t) && t != "PullRequest"@ && t != "Issue"@,
    }
}

/// Whether a search result can be read: a match count that fits in 32
/// bits, page information, and an array of readable nodes.
pub open spec fn page_readable(j: Json) -> bool {
    &&& number_value(member(j, "issueCount"@)) matches Some(n) && n <= u32::MAX
    &&& member(j, "pageInfo"@) matches Some(info) && (member(info, "hasNextPage"@) matches Some(
        Json::Bool(_),
    ) && optional_text(member(info, "endCursor"@)) is Some)
    &&& nodes_readable(member(j, "nodes"@))
}

/// Whether a member is an array of readable nodes.
pub open spec fn nodes_readable(v: Option<Json>) -> bool {
    match v {
        Some(Json::Array(nodes)) => all_readable(nodes@),
        _ => false,
    }
}

/// Whether every node can be read.
pub open spec fn all_readable(nodes: Seq<Json>) -> bool {
    forall|i: int| 0 <= i < nodes.len() ==> node_readable(#[trigger] nodes[i])
}

/// Whether `p` is what a readable search result says.
pub open spec fn page_reads(p: SearchPage, j: Json) -> bool {
    &&& number_value(member(j, "issueCount"@)) == Some(p.issue_count as u64)
    &&& member(j, "pageInfo"@) matches Some(info) && (member(info, "hasNextPage"@) == Some(
        Json::Bool(p.page_info.has_next_page),
    ) && optional_text(member(info, "endCursor"@)) == Some(opt_string(p.page_info.end_cursor)))
    &&& member(j, "nodes"@) matches Some(Json::Array(nodes)) && (nodes@.len() == p.nodes@.len()
        && forall|i: int| 0 <= i < nodes@.len() ==> node_reads(#[trigger] p.nodes@[i], nodes@[i]))
}

/// Reads a member that must be a string.
fn read_text(j: &Json, key: &str) -> (r: Option<String>)
    ensures
        match text_value(member(*j, key@)) {
            Some(t) => r matches Some(s) && s@ == t,
            None => r is None,
        },
{
    match get(j, key) {
        Some(v) => match as_text(v) {
            Some(s) => Some(owned(s)),
            None => None,
        },
        None => None,
    }
}

/// Reads a member that must be a whole number.
fn read_number(j: &Json, key: &str) -> (r: Option<u64>)
    ensures
        r == number_value(member(*j, key@)),
{
    match get(j, key) {
        Some(Json::Number(n)) => parse_u64_of(n.as_str()),
        _ => None,
    }
}

/// Reads an optional string member.
fn read_optional_text(j: &Json, key: &str) -> (r: Option<Option<String>>)
    ensures
        match optional_text(member(*j, key@)) {
            Some(t) => r matches Some(s) && opt_string(s) == t,
            None => r is None,
        },
{
    match get(j, key) {
        None => Some(None),
        Some(Json::Null) => Some(None),
        Some(Json::Text(s)) => Some(Some(owned(s.as_str()))),
        _ => None,
    }
}

/// Reads an optional timestamp member.
fn read_optional_instant(j: &Json, key: &str) -> (r: Option<Option<Instant>>)
    ensures
        r == optional_instant(member(*j, key@)),
{
    match get(j, key) {
        None => Some(None),
        Some(Json::Null) => Some(None),
        Some(Json::Text(s)) => match parse_instant(s.as_str()) {
            Some(i) => Some(Some(i)),
            None => None,
        },
        _ => None,
    }
}

/// Reads the repository a node names.
fn read_repository(j: &Json) -> (r: Option<Repository>)
    ensures
        match repository_name(member(*j, "repository"@)) {
            Some(t) => r matches Some(repo) && repo.name_with_owner@ == t,
            None => r is None,
        },
{
    match get(j, "repository") {
        Some(repo) => match read_text(repo, "nameWithOwner") {
            Some(name) => Some(Repository { name_with_owner: name }),
            None => None,
        },
        None => None,
    }
}

/// Reads one search result.
pub fn read_node(j: &Json) -> (r: Option<Node>)
    ensures
        match r {
            Some(n) => node_readable(*j) && node_reads(n, *j),
            None => !node_readable(*j),
        },
{
    proof {
        reveal_strlit("PullRequest");
        reveal_strlit("Issue");
    }
    let typename = match read_text(j, "__typename") {
        Some(t) => t,
        None => return None,
    };
    if same(typename.as_str(), "PullRequest") {
        let number = read_number(j, "number")?;
        let title = read_text(j, "title")?;
        let url = read_text(j, "url")?;
        let merged_at = read_optional_instant(j, "mergedAt")?;
        let repository = read_repository(j)?;
        Some(Node::PullRequest { number, title, url, merged_at, repository })
    } else if same(typename.as_str(), "Issue") {
        let number = read_number(j, "number")?;
        let title = read_text(j, "title")?;
        let url = read_text(j, "url")?;
        let closed_at = read_optional_instant(j, "closedAt")?;
        let state_reason = read_optional_text(j, "stateReason")?;
        let repository = read_repository(j)?;
        Some(Node::Issue { number, title, url, closed_at, state_reason, repository })
    } else {
        Some(Node::Unknown)
    }
}

/// Reads a search result object into a page.
pub fn read_page(j: &Json) -> (r: Option<SearchPage>)
    ensures
        match r {
            Some(p) => page_readable(*j) && page_reads(p, *j),
            None => !page_readable(*j),
        },
{
    let count = match read_number(j, "issueCount") {
        Some(n) => if n <= 0xffff_ffff {
            n as u32
        } else {
            return None;
        },
        None => return None,
    };
    let info = match get(j, "pageInfo") {
        Some(i) => i,
        None => return None,
    };
    let has_next_page = match get(info, "hasNextPage") {
        Some(Json::Bool(b)) => *b,
        _ => return None,
    };
    let end_cursor = match read_optional_text(info, "endCursor") {
        Some(c) => c,
        None => return None,
    };
    let nodes = match get(j, "nodes") {
        Some(Json::Array(nodes)) => nodes,
        _ => return None,
    };
    let mut read: Vec<Node> = Vec::new();
    let mut i: usize = 0;
    while i < nodes.len()
        invariant
            member(*j, "nodes"@) == Some(Json::Array(*nodes)),
            i <= nodes@.len(),
            read@.len() == i,
            forall|k: int| 0 <= k < i ==> node_readable(#[trigger] nodes@[k]),
            forall|k: int| 0 <= k < i ==> node_reads(#[trigger] read@[k], nodes@[k]),
        decreases nodes.len() - i,
    {
        match read_node(&nodes[i]) {
            Some(n) => read.push(n),
            None => {
                assert(!node_readable(nodes@[i as int]));
                assert(!all_readable(nodes@));
                return None;
            },
        }
        i += 1;
    }
    Some(SearchPage { issue_count: count, page_info: PageInfo { has_next_page, end_cursor }, nodes: read })
}

/// Reads one `search` page out of a GraphQL response body.
pub fn parse_page(body: &Json) -> (r: Result<SearchPage, String>)
    ensures
        match member(*body, "data"@) {
            Some(data) => match member(data, "search"@) {
                Some(search) => match r {
                    Ok(p) => page_readable(search) && page_reads(p, search),
                    Err(e) => !page_readable(search) && e@ == "unexpected search result shape"@,
                },
                None => r matches Err(e) && e@ == "response contained no search results"@,
            },
            None => r matches Err(e) && e@ == "response contained no search results"@,
        },
{
    let search = match get(body, "data") {
        Some(data) => match get(data, "search") {
            Some(s) => s,
            None => return Err(owned("response contained no search results")),
        },
        None => return Err(owned("response contained no search results")),
    };
    match read_page(search) {
        Some(p) => Ok(p),
        None => Err(owned("unexpected search result shape")),
    }
}

/// When a node's work completed, if it did: a pull request's merge or an
/// issue's close.
pub open spec fn completion(n: Node) -> Option<Instant> {
    match n {
        Node::PullRequest { merged_at, .. } => merged_at,
        Node::Issue { closed_at, .. } => closed_at,
        Node::Unknown => None,
    }
}

/// Whether a node is reported: it completed at a representable instant, and
/// it is not an issue closed as not planned, unless those are included.
pub open spec fn reported(n: Node, include_not_planned: bool) -> bool {
    &&& completion(n) matches Some(t) && t.representable()
    &&& n matches Node::Issue { state_reason, .. } ==> include_not_planned || opt_string(state_reason)
        != Some("NOT_PLANNED"@)
}

/// The nodes that are reported, in order.
pub open spec fn reported_nodes(nodes: Seq<Node>, include_not_planned: bool) -> Seq<Node> {
    nodes.filter(|n: Node| reported(n, include_not_planned))
}

/// Whether `it` is the item a reported node becomes.
pub open spec fn item_of(it: Item, n: Node, zone: TimeZone) -> bool {
    &&& it.completed_at.instant.total() == completion(n).unwrap().total()
    &&& it.completed_at.wf()
    &&& it.completed_at.zone == zone
    &&& it.source@ == "github"@
    &&& match n {
        Node::PullRequest { number, title, url, repository, .. } => {
            &&& it.kind@ == "pr"@
            &&& opt_string(it.reference) == Some("#"@ + decimal(number as nat))
            &&& it.title@ == title@
            &&& it.url@ == url@
            &&& opt_string(it.context) == Some(repository.name_with_owner@)
        },
        Node::Issue { number, title, url, repository, .. } => {
            &&& it.kind@ == "issue"@
            &&& opt_string(it.reference) == Some("#"@ + decimal(number as nat))
            &&& it.title@ == title@
            &&& it.url@ == url@
            &&& opt_string(it.context) == Some(repository.name_with_owner@)
        },
        Node::Unknown => false,
    }
}

/// `#` and the number.
fn reference(number: u64) -> (r: String)
    ensures
        r@ == "#"@ + decimal(number as nat),
{
    let mut r = owned("#");
    push_str(&mut r, decimal_of(number).as_str());
    r
}

/// The item a node becomes, when it is reported.
fn node_item(n: &Node, zone: &TimeZone, include_not_planned: bool) -> (r: Option<Item>)
    ensures
        match r {
            Some(it) => reported(*n, include_not_planned) && item_of(it, *n, *zone),
            None => !reported(*n, include_not_planned),
        },
{
    proof {
        reveal_strlit("NOT_PLANNED");
        reveal_strlit("github");
        reveal_strlit("pr");
        reveal_strlit("issue");
        assert(crate::text::lower("github"@) =~= "github"@);
        assert(crate::text::lower("pr"@) =~= "pr"@);
        assert(crate::text::lower("issue"@) =~= "issue"@);
    }
    match n {
        Node::PullRequest { number, title, url, merged_at, repository } => {
            let at = match merged_at {
                Some(t) => *t,
                None => return None,
            };
            let completed_at = match moment_at(at, zone) {
                Some(m) => m,
                None => return None,
            };
            let it = Item {
                completed_at,
                source: SourceId::new("github"),
                kind: Kind::new("pr"),
                reference: Some(reference(*number)),
                title: owned(title.as_str()),
                url: owned(url.as_str()),
                context: Some(owned(repository.name_with_owner.as_str())),
            };
            Some(it)
        },
        Node::Issue { number, title, url, closed_at, state_reason, repository } => {
            let abandoned = match state_reason {
                Some(s) => same(s.as_str(), "NOT_PLANNED"),
                None => false,
            };
            if abandoned && !include_not_planned {
                return None;
            }
            let at = match closed_at {
                Some(t) => *t,
                None => return None,
            };
            let completed_at = match moment_at(at, zone) {
                Some(m) => m,
                None => return None,
            };
            Some(Item {
                completed_at,
                source: SourceId::new("github"),
                kind: Kind::new("issue"),
                reference: Some(reference(*number)),
                title: owned(title.as_str()),
                url: owned(url.as_str()),
                context: Some(owned(repository.name_with_owner.as_str())),
            })
        },
        Node::Unknown => None,
    }
}

/// Turns one page of search results into items in `zone`.
///
/// Nodes without a completion timestamp are dropped: search can return an item
/// whose state changed between matching and being read back. Issues closed as
/// not planned are dropped unless `include_not_planned` is set, since
/// abandoned work is not finished work.
pub fn to_items(page: &SearchPage, zone: &TimeZone, include_not_planned: bool) -> (r: Vec<Item>)
    ensures
        r@.len() == reported_nodes(page.nodes@, include_not_planned).len(),
        forall|i: int| 0 <= i < r@.len() ==> item_of(#[trigger] r@[i], reported_nodes(page.nodes@, include_not_planned)[i], *zone),
{
    let mut items: Vec<Item> = Vec::new();
    let mut i: usize = 0;
    while i < page.nodes.len()
        invariant
            i <= page.nodes@.len(),
            items@.len() == reported_nodes(page.nodes@.take(i as int), include_not_planned).len(),
            forall|k: int|
                0 <= k < items@.len() ==> item_of(
                    #[trigger] items@[k],
                    reported_nodes(page.nodes@.take(i as int), include_not_planned)[k],
                    *zone,
                ),
        decreases page.nodes.len() - i,
    {
        let ghost before = page.nodes@.take(i as int);
        assert(page.nodes@.take(i + 1) == before.push(page.nodes@[i as int]));
        match node_item(&page.nodes[i], zone, include_not_planned) {
            Some(it) => {
                items.push(it);
            },
            None => {},
        }
        proof {
            let f = |n: Node| reported(n, include_not_planned);
            assert(before.push(page.nodes@[i as int]).filter(f) == if f(page.nodes@[i as int]) {
                before.filter(f).push(page.nodes@[i as int])
            } else {
                before.filter(f)
            }) by {
                before.lemma_filter_push(page.nodes@[i as int], f);
            }
        }
        i += 1;
    }
    assert(page.nodes@.take(page.nodes@.len() as int) == page.nodes@);
    items
}

} // verus!
