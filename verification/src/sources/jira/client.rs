//! How the Jira search API's answers are judged: which statuses are
//! failures, and what each failure says to the person running the report.
//! The requests themselves are made by the program around the library.
use vstd::prelude::*;

use crate::json::{json_document, parse_json, text, Json};
use crate::text::{decimal, decimal_of, join, join_all, owned, push_str, truncated};

pub use crate::text::truncate;

verus! {

/// The texts among Jira's `errorMessages`, in order.
pub open spec fn listed_messages(entries: Seq<Json>) -> Seq<Seq<char>>
    decreases entries.len(),
{
    if entries.len() == 0 {
        seq![]
    } else {
        let earlier = listed_messages(entries.drop_last());
        match text(entries.last()) {
            Some(t) => earlier.push(t),
            None => earlier,
        }
    }
}

/// `field: message` for each field error whose message is a text, in order.
pub open spec fn field_messages(entries: Seq<(String, Json)>) -> Seq<Seq<char>>
    decreases entries.len(),
{
    if entries.len() == 0 {
        seq![]
    } else {
        let earlier = field_messages(entries.drop_last());
        match text(entries.last().1) {
            Some(t) => earlier.push(entries.last().0@ + ": "@ + t),
            None => earlier,
        }
    }
}

/// The messages a JSON error body carries: its `errorMessages`, then its
/// field `errors`.
pub open spec fn body_messages(body: Json) -> Seq<Seq<char>> {
    (match crate::json::member(body, "errorMessages"@) {
        Some(Json::Array(entries)) => listed_messages(entries@),
        _ => seq![],
    }) + (match crate::json::member(body, "errors"@) {
        Some(Json::Object(entries)) => field_messages(entries@),
        _ => seq![],
    })
}

/// What a rejected search says: Jira's own messages when the body carries
/// any, else the body itself, cut short.
pub open spec fn rejection_text(body: Seq<char>) -> Seq<char> {
    match json_document(body) {
        Ok(j) => if body_messages(j).len() > 0 {
            join(body_messages(j), "; "@)
        } else {
            truncated(body, 300)
        },
        Err(_) => truncated(body, 300),
    }
}

/// What a status says is wrong, or `None` for success.
pub open spec fn status_problem(status: u16, body: Seq<char>) -> Option<Seq<char>> {
    if status == 200 {
        None
    } else if status == 400 {
        Some("Jira rejected the search (400): "@ + rejection_text(body))
    } else if status == 401 {
        Some(
            "Jira rejected the credentials (401).\nCheck JIRA_API_TOKEN, and that the email is the account the token belongs to."@,
        )
    } else if status == 403 {
        Some(
            "Jira refused the request (403).\nThe account may lack permission to browse the projects searched."@,
        )
    } else if status == 404 {
        Some("Jira returned 404 for its REST API.\nCheck that the site is a Jira Cloud site."@)
    } else {
        Some("Jira returned HTTP "@ + decimal(status as nat) + ": "@ + truncated(body, 300))
    }
}

/// The messages a JSON error body carries.
fn messages_of(body: &Json) -> (r: Vec<String>)
    ensures
        r@.map_values(|p: String| p@) == body_messages(*body),
{
    let mut out: Vec<String> = Vec::new();
    match crate::json::get(body, "errorMessages") {
        Some(Json::Array(entries)) => {
            let mut i: usize = 0;
            while i < entries.len()
                invariant
                    i <= entries@.len(),
                    out@.map_values(|p: String| p@) == listed_messages(entries@.take(i as int)),
                decreases entries.len() - i,
            {
                assert(entries@.take(i + 1).drop_last() == entries@.take(i as int));
                assert(entries@.take(i + 1).last() == entries@[i as int]);
                if let Json::Text(t) = &entries[i] {
                    out.push(owned(t.as_str()));
                }
                assert(out@.map_values(|p: String| p@) =~= listed_messages(entries@.take(i + 1)));
                i += 1;
            }
            assert(entries@.take(entries@.len() as int) == entries@);
        },
        _ => {},
    }
    let ghost listed = out@.map_values(|p: String| p@);
    match crate::json::get(body, "errors") {
        Some(Json::Object(entries)) => {
            let mut i: usize = 0;
            while i < entries.len()
                invariant
                    i <= entries@.len(),
                    out@.map_values(|p: String| p@) == listed + field_messages(entries@.take(i as int)),
                decreases entries.len() - i,
            {
                assert(entries@.take(i + 1).drop_last() == entries@.take(i as int));
                assert(entries@.take(i + 1).last() == entries@[i as int]);
                let ghost before = field_messages(entries@.take(i as int));
                if let Json::Text(t) = &entries[i].1 {
                    let mut m = owned(entries[i].0.as_str());
                    push_str(&mut m, ": ");
                    push_str(&mut m, t.as_str());
                    assert(field_messages(entries@.take(i + 1)) == before.push(m@));
                    assert((listed + before).push(m@) =~= listed + before.push(m@));
                    out.push(m);
                    assert(out@.map_values(|p: String| p@) =~= (listed + before).push(m@));
                } else {
                    assert(field_messages(entries@.take(i + 1)) == before);
                }
                i += 1;
            }
            assert(entries@.take(entries@.len() as int) == entries@);
        },
        _ => {
            assert(listed + field_messages(seq![]) =~= listed);
        },
    }
    proof {
        assert(out@.map_values(|p: String| p@) =~= body_messages(*body));
    }
    out
}

/// Extracts Jira's error list, falling back to the raw body.
fn error_messages(body: &str) -> (r: String)
    ensures
        r@ == rejection_text(body@),
{
    let json = match parse_json(body) {
        Ok(j) => j,
        Err(_) => return truncate(body, 300),
    };
    let messages = messages_of(&json);
    if messages.len() == 0 {
        truncate(body, 300)
    } else {
        join_all(&messages, "; ")
    }
}

/// Turns a transport-level failure into a message that says what to do.
pub fn check_status(status: u16, body: &str) -> (r: Result<(), String>)
    ensures
        match status_problem(status, body@) {
            None => r is Ok,
            Some(m) => r matches Err(e) && e@ == m,
        },
{
    if status == 200 {
        Ok(())
    } else if status == 400 {
        let mut m = owned("Jira rejected the search (400): ");
        push_str(&mut m, error_messages(body).as_str());
        Err(m)
    } else if status == 401 {
        Err(
            owned(
                "Jira rejected the credentials (401).\nCheck JIRA_API_TOKEN, and that the email is the account the token belongs to.",
            ),
        )
    } else if status == 403 {
        Err(
            owned(
                "Jira refused the request (403).\nThe account may lack permission to browse the projects searched.",
            ),
        )
    } else if status == 404 {
        Err(owned("Jira returned 404 for its REST API.\nCheck that the site is a Jira Cloud site."))
    } else {
        let mut m = owned("Jira returned HTTP ");
        push_str(&mut m, decimal_of(status as u64).as_str());
        push_str(&mut m, ": ");
        push_str(&mut m, truncate(body, 300).as_str());
        Err(m)
    }
}

/// Reads one answer from Jira: the JSON body of a successful response; or
/// what is wrong, with the lower-level cause when there is one.
pub fn read_body(status: u16, text: &str) -> (r: Result<Json, (String, Option<String>)>)
    ensures
        match status_problem(status, text@) {
            Some(m) => r matches Err((message, cause)) && message@ == m && cause is None,
            None => match json_document(text@) {
                Ok(v) => r matches Ok(j) && j == v,
                Err(e) => r matches Err((message, cause)) && message@ == "response was not valid JSON"@
                    && (cause matches Some(c) && c@ == e),
            },
        },
{
    if let Err(m) = check_status(status, text) {
        return Err((m, None));
    }
    match parse_json(text) {
        Ok(j) => Ok(j),
        Err(e) => Err((owned("response was not valid JSON"), Some(e))),
    }
}

} // verus!
