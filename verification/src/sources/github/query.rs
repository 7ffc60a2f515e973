//! Construction of GitHub search queries.
//!
//! A window plus a few settings in, query strings out. GitHub's search
//! grammar has no disjunction across different qualifiers, so a request that
//! reads as one question ("issues I authored or was assigned") becomes more
//! than one query, deduplicated by the caller.
use vstd::prelude::*;

use crate::config::{issue_match_setting, IssueMatch};
use crate::toml_doc::Toml;
use crate::period::{moment_text, search_template, TimeRange};
use crate::text::{is_blank, owned, push_str, blank};

verus! {

/// A GitHub search expression together with the item kind it retrieves.
#[derive(Debug, Clone, PartialEq, Eq)]
pub struct Search {
    pub kind: &'static str,
    pub query: String,
}

/// The organization restriction: ` org:NAME` for each organization that is
/// not blank, in order.
pub open spec fn org_qualifiers(orgs: Seq<String>) -> Seq<char>
    decreases orgs.len(),
{
    if orgs.len() == 0 {
        seq![]
    } else {
        org_qualifiers(orgs.drop_last()) + if is_blank(orgs.last()@) {
            seq![]
        } else {
            " org:"@ + orgs.last()@
        }
    }
}

/// The pull-request query for `user` over a window whose bounds read
/// `start` and `end`.
pub open spec fn pr_query(user: Seq<char>, start: Seq<char>, end: Seq<char>, orgs: Seq<String>) -> Seq<char> {
    "is:pr author:"@ + user + " is:merged merged:"@ + start + ".."@ + end + org_qualifiers(orgs)
}

/// The issue query for `user` under one qualifier.
pub open spec fn issue_query(
    qualifier: Seq<char>,
    user: Seq<char>,
    start: Seq<char>,
    end: Seq<char>,
    orgs: Seq<String>,
) -> Seq<char> {
    "is:issue "@ + qualifier + ":"@ + user + " is:closed closed:"@ + start + ".."@ + end
        + org_qualifiers(orgs)
}

/// The qualifiers an issue match searches by.
pub open spec fn qualifiers(matching: IssueMatch) -> Seq<Seq<char>> {
    match matching {
        IssueMatch::Author => seq!["author"@],
        IssueMatch::Assignee => seq!["assignee"@],
        IssueMatch::Either => seq!["author"@, "assignee"@],
    }
}

/// Each issue search looks for the role the configuration names: the
/// setting `author` searches by `author:` alone, `assignee` by `assignee:`
/// alone, and `either` by both, author first.
pub proof fn lemma_issue_searches_use_the_configured_role(setting: String, matching: IssueMatch)
    requires
        issue_match_setting(Toml::Text(setting)) == Some(matching),
    ensures
        setting@ != "either"@ ==> qualifiers(matching) == seq![setting@],
        setting@ == "either"@ ==> qualifiers(matching) == seq!["author"@, "assignee"@],
        setting@ == "author"@ || setting@ == "assignee"@ || setting@ == "either"@,
{
    reveal_strlit("author");
    reveal_strlit("assignee");
    reveal_strlit("either");
    assert("either"@[0] != "author"@[0]);
    assert("either"@[0] != "assignee"@[0]);
}

/// Matching either role searches exactly what matching each role searches,
/// authored issues first.
pub proof fn lemma_either_role_is_both_roles()
    ensures
        qualifiers(IssueMatch::Either) == qualifiers(IssueMatch::Author) + qualifiers(IssueMatch::Assignee),
        qualifiers(IssueMatch::Author) != qualifiers(IssueMatch::Assignee),
{
    reveal_strlit("author");
    reveal_strlit("assignee");
    assert(qualifiers(IssueMatch::Author) + qualifiers(IssueMatch::Assignee) =~= seq!["author"@, "assignee"@]);
    assert(qualifiers(IssueMatch::Author)[0].len() != qualifiers(IssueMatch::Assignee)[0].len());
}

/// Renders an organization restriction.
///
/// Repeating a single qualifier is how GitHub search expresses alternatives,
/// so several organizations widen the result rather than narrowing it to none.
pub fn org_filter(orgs: &[String]) -> (r: String)
    ensures
        r@ == org_qualifiers(orgs@),
{
    let mut r = String::new();
    let mut i: usize = 0;
    while i < orgs.len()
        invariant
            i <= orgs@.len(),
            r@ == org_qualifiers(orgs@.take(i as int)),
        decreases orgs.len() - i,
    {
        assert(orgs@.take(i + 1).drop_last() == orgs@.take(i as int));
        assert(orgs@.take(i + 1).last() == orgs@[i as int]);
        if !blank(orgs[i].as_str()) {
            push_str(&mut r, " org:");
            push_str(&mut r, orgs[i].as_str());
        }
        i += 1;
    }
    assert(orgs@.take(orgs@.len() as int) == orgs@);
    r
}

/// Queries returning pull requests the user merged during the window.
pub fn merged_prs(user: &str, range: &TimeRange, orgs: &[String]) -> (r: Vec<Search>)
    ensures
        r@.len() == 1,
        r@[0].kind@ == "pr"@,
        r@[0].query@ == pr_query(
            user@,
            moment_text(search_template(), range.start),
            moment_text(search_template(), range.end),
            orgs@,
        ),
{
    let (start, end) = range.as_search_bounds();
    let mut query = owned("is:pr author:");
    push_str(&mut query, user);
    push_str(&mut query, " is:merged merged:");
    push_str(&mut query, start.as_str());
    push_str(&mut query, "..");
    push_str(&mut query, end.as_str());
    push_str(&mut query, org_filter(orgs).as_str());
    proof {
        reveal_strlit("pr");
    }
    vec![Search { kind: "pr", query }]
}

/// One issue query under `qualifier`.
fn issue_search(qualifier: &str, user: &str, start: &str, end: &str, orgs: &str) -> (r: Search)
    ensures
        r.kind@ == "issue"@,
        r.query@ == "is:issue "@ + qualifier@ + ":"@ + user@ + " is:closed closed:"@ + start@ + ".."@
            + end@ + orgs@,
{
    let mut query = owned("is:issue ");
    push_str(&mut query, qualifier);
    push_str(&mut query, ":");
    push_str(&mut query, user);
    push_str(&mut query, " is:closed closed:");
    push_str(&mut query, start);
    push_str(&mut query, "..");
    push_str(&mut query, end);
    push_str(&mut query, orgs);
    proof {
        reveal_strlit("issue");
    }
    Search { kind: "issue", query }
}

/// Queries returning issues closed during the window that belong to the user.
///
/// GitHub has no "closed by" qualifier, so association is by authorship or
/// assignment; `IssueMatch::Either` needs one query for each.
pub fn closed_issues(user: &str, range: &TimeRange, orgs: &[String], matching: IssueMatch) -> (r: Vec<
    Search,
>)
    ensures
        r@.len() == qualifiers(matching).len(),
        forall|i: int|
            0 <= i < r@.len() ==> (#[trigger] r@[i]).kind@ == "issue"@ && r@[i].query@ == issue_query(
                qualifiers(matching)[i],
                user@,
                moment_text(search_template(), range.start),
                moment_text(search_template(), range.end),
                orgs@,
            ),
{
    let (start, end) = range.as_search_bounds();
    let filter = org_filter(orgs);
    proof {
        reveal_strlit("author");
        reveal_strlit("assignee");
    }
    match matching {
        IssueMatch::Author => vec![issue_search("author", user, start.as_str(), end.as_str(), filter.as_str())],
        IssueMatch::Assignee => vec![issue_search("assignee", user, start.as_str(), end.as_str(), filter.as_str())],
        IssueMatch::Either => {
            let a = issue_search("author", user, start.as_str(), end.as_str(), filter.as_str());
            let b = issue_search("assignee", user, start.as_str(), end.as_str(), filter.as_str());
            vec![a, b]
        },
    }
}

} // verus!
