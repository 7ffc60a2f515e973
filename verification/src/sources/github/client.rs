//! How the GitHub API's answers are judged: which statuses and GraphQL error
//! lists are failures, which of them are rate limits, and what each failure
//! says to the person running the report. The requests themselves are made
//! by the program around the library.
use vstd::prelude::*;

use super::retry::{exhausted, Failure, RateLimit};
use crate::json::{as_text, compact_text, get, json_compact, json_document, member, parse_json, text, Json};
use crate::text::{decimal, decimal_of, join, join_all, owned, push_str, truncated};

pub use crate::text::truncate;

verus! {

pub const DEFAULT_ENDPOINT: &'static str = "https://api.github.com/graphql";

/// Whether a failed status reports a rate limit rather than a refusal.
pub fn is_rate_limit(status: u16, limit: &RateLimit) -> (r: bool)
    ensures
        r == (status == 429 || (status == 403 && exhausted(*limit))),
{
    status == 429 || (status == 403 && limit.is_exhausted())
}

/// What a status says is wrong, or `None` for success.
pub open spec fn status_problem(status: u16, body: Seq<char>) -> Option<Seq<char>> {
    if status == 200 {
        None
    } else if status == 401 {
        Some("GitHub rejected the token (401).\nRun `gh auth login` to refresh it."@)
    } else if status == 403 {
        Some(
            "GitHub refused the request (403).\nThe token may lack the `repo` and `read:org` scopes, or an organization may require SSO authorization.\nRun `gh auth refresh -s repo,read:org` and authorize the organization."@,
        )
    } else {
        Some("GitHub returned HTTP "@ + decimal(status as nat) + ": "@ + truncated(body, 300))
    }
}

/// Turns a transport-level failure into a message that says what to do.
pub fn check_status(status: u16, body: &str) -> (r: Result<(), String>)
    ensures
        match status_problem(status, body@) {
            None => r is Ok,
            Some(m) => r matches Err(e) && e@ == m,
        },
{
    if status == 200 {
        Ok(())
    } else if status == 401 {
        Err(owned("GitHub rejected the token (401).\nRun `gh auth login` to refresh it."))
    } else if status == 403 {
        Err(
            owned(
                "GitHub refused the request (403).\nThe token may lack the `repo` and `read:org` scopes, or an organization may require SSO authorization.\nRun `gh auth refresh -s repo,read:org` and authorize the organization.",
            ),
        )
    } else {
        let mut m = owned("GitHub returned HTTP ");
        push_str(&mut m, decimal_of(status as u64).as_str());
        push_str(&mut m, ": ");
        push_str(&mut m, truncate(body, 300).as_str());
        Err(m)
    }
}

/// The entries of a body's `errors` array, when it has one.
pub open spec fn error_entries(body: Json) -> Option<Seq<Json>> {
    match member(body, "errors"@) {
        Some(Json::Array(entries)) => Some(entries@),
        _ => None,
    }
}

/// Whether an error entry has a `type` of `ty`.
pub open spec fn typed(entry: Json, ty: Seq<char>) -> bool {
    match member(entry, "type"@) {
        Some(t) => text(t) == Some(ty),
        None => false,
    }
}

/// The `message` texts of error entries, in order, skipping entries without
/// one.
pub open spec fn entry_messages(entries: Seq<Json>) -> Seq<Seq<char>>
    decreases entries.len(),
{
    if entries.len() == 0 {
        seq![]
    } else {
        let earlier = entry_messages(entries.drop_last());
        match member(entries.last(), "message"@) {
            Some(m) => match text(m) {
                Some(t) => earlier.push(t),
                None => earlier,
            },
            None => earlier,
        }
    }
}

/// Whether a GraphQL error body reports a rate limit.
pub open spec fn rate_limited_body(body: Json) -> bool {
    match error_entries(body) {
        Some(entries) => exists|i: int| 0 <= i < entries.len() && typed(#[trigger] entries[i], "RATE_LIMITED"@),
        None => false,
    }
}

/// What a GraphQL error list says is wrong, or `None` when there is none.
pub open spec fn graphql_problem(body: Json) -> Option<Seq<char>> {
    match error_entries(body) {
        None => None,
        Some(entries) => if entries.len() == 0 {
            None
        } else {
            let joined = join(entry_messages(entries), "; "@);
            Some(
                "GitHub GraphQL error: "@ + if joined.len() == 0 {
                    truncated(json_compact(body), 300)
                } else {
                    joined
                },
            )
        },
    }
}

/// Whether a GraphQL error body reports a rate limit.
///
/// The GraphQL API signals an exhausted primary limit with HTTP 200 and an
/// error of type `RATE_LIMITED`.
pub fn is_graphql_rate_limit(body: &Json) -> (r: bool)
    ensures
        r == rate_limited_body(*body),
{
    let entries = match get(body, "errors") {
        Some(Json::Array(entries)) => entries,
        _ => return false,
    };
    proof {
        reveal_strlit("errors");
    }
    let mut i: usize = 0;
    while i < entries.len()
        invariant
            error_entries(*body) == Some(entries@),
            i <= entries@.len(),
            forall|j: int| 0 <= j < i ==> !typed(#[trigger] entries@[j], "RATE_LIMITED"@),
        decreases entries.len() - i,
    {
        let found = match get(&entries[i], "type") {
            Some(t) => match as_text(t) {
                Some(s) => crate::text::same(s, "RATE_LIMITED"),
                None => false,
            },
            None => false,
        };
        if found {
            assert(typed(entries@[i as int], "RATE_LIMITED"@));
            assert(error_entries(*body).unwrap()[i as int] == entries@[i as int]);
            return true;
        }
        i += 1;
    }
    false
}

/// Fails on a GraphQL `errors` array.
///
/// The API answers with HTTP 200 for query-level failures, so the body is the
/// only place a bad query, a missing scope or a rate-limit trip shows up.
pub fn check_graphql_errors(body: &Json) -> (r: Result<(), String>)
    ensures
        match graphql_problem(*body) {
            None => r is Ok,
            Some(m) => r matches Err(e) && e@ == m,
        },
{
    let entries = match get(body, "errors") {
        Some(Json::Array(entries)) => entries,
        _ => return Ok(()),
    };
    if entries.len() == 0 {
        return Ok(());
    }
    let mut messages: Vec<String> = Vec::new();
    let mut i: usize = 0;
    while i < entries.len()
        invariant
            error_entries(*body) == Some(entries@),
            i <= entries@.len(),
            messages@.map_values(|p: String| p@) == entry_messages(entries@.take(i as int)),
        decreases entries.len() - i,
    {
        let ghost before = entries@.take(i as int);
        assert(entries@.take(i + 1).drop_last() == before);
        assert(entries@.take(i + 1).last() == entries@[i as int]);
        match get(&entries[i], "message") {
            Some(m) => match as_text(m) {
                Some(s) => {
                    messages.push(owned(s));
                    assert(messages@.map_values(|p: String| p@) =~= entry_messages(before).push(s@));
                },
                None => {},
            },
            None => {},
        }
        i += 1;
    }
    assert(entries@.take(entries@.len() as int) == entries@);
    let joined = join_all(&messages, "; ");
    let mut m = owned("GitHub GraphQL error: ");
    if joined.as_str().is_empty() {
        push_str(&mut m, truncate(compact_text(body).as_str(), 300).as_str());
    } else {
        push_str(&mut m, joined.as_str());
    }
    Err(m)
}

/// Why an answer cannot be used: how the attempt failed, what to tell the
/// person running the report, and the lower-level cause when there is one.
#[derive(Debug)]
pub struct Refusal {
    pub failure: Failure,
    pub message: String,
    pub cause: Option<String>,
}

/// What a refusal of a non-success status says: a rate limit as such, any
/// other status as `check_status` words it.
pub open spec fn status_refusal(status: u16, limit: RateLimit, body: Seq<char>) -> Seq<char> {
    if status == 429 || (status == 403 && exhausted(limit)) {
        "GitHub rate limit exceeded (HTTP "@ + decimal(status as nat) + ")"@
    } else {
        match status_problem(status, body) {
            Some(m) => m,
            None => seq![],
        }
    }
}

/// Judges one answer from the GraphQL endpoint: its status, the rate-limit
/// signals its headers carried, and its body. A non-success status fails
/// with that status; a body that is not JSON fails for good; a GraphQL error
/// list fails as a rate limit when one of its errors is one, and for good
/// otherwise; anything else is the answer.
pub fn classify(status: u16, limit: RateLimit, body: &str) -> (r: Result<Json, Refusal>)
    ensures
        status != 200 ==> (r matches Err(f) && f.failure == Failure::Status(status, limit) && f.message@
            == status_refusal(status, limit, body@) && f.cause is None),
        status == 200 ==> match json_document(body@) {
            Err(e) => r matches Err(f) && f.failure == Failure::Permanent && f.message@
                == "response was not valid JSON"@ && (f.cause matches Some(c) && c@ == e),
            Ok(v) => match graphql_problem(v) {
                None => r matches Ok(j) && j == v,
                Some(m) => r matches Err(f) && f.failure == (if rate_limited_body(v) {
                    Failure::RateLimited(limit)
                } else {
                    Failure::Permanent
                }) && f.message@ == m && f.cause is None,
            },
        },
{
    if status != 200 {
        let message = if is_rate_limit(status, &limit) {
            let mut m = owned("GitHub rate limit exceeded (HTTP ");
            push_str(&mut m, decimal_of(status as u64).as_str());
            push_str(&mut m, ")");
            m
        } else {
            match check_status(status, body) {
                Err(m) => m,
                Ok(()) => String::new(),
            }
        };
        return Err(Refusal { failure: Failure::Status(status, limit), message, cause: None });
    }
    let json = match parse_json(body) {
        Ok(j) => j,
        Err(e) => {
            return Err(
                Refusal { failure: Failure::Permanent, message: owned("response was not valid JSON"), cause: Some(e) },
            )
        },
    };
    match check_graphql_errors(&json) {
        Ok(()) => Ok(json),
        Err(m) => {
            let failure = if is_graphql_rate_limit(&json) {
                Failure::RateLimited(limit)
            } else {
                Failure::Permanent
            };
            Err(Refusal { failure, message: m, cause: None })
        },
    }
}

} // verus!
