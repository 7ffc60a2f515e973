//! GitHub credential discovery.
//!
//! An explicit `GH_TOKEN`/`GITHUB_TOKEN` wins, so the tool works in CI and in
//! containers without the CLI present. Otherwise the token comes from
//! `gh auth token`, which resolves whatever storage `gh` chose (keychain,
//! config file or environment) without this program needing to know which.
//!
//! [`token_from_env`] and [`parse_token_output`] decide; [`discover`] asks
//! the environment and then, only when it has no token, the CLI.
use vstd::prelude::*;

use crate::text::{is_blank, owned, push_str, trim, trimmed, blank};

verus! {

pub const HOST: &'static str = "github.com";

/// A GitHub API token. Never renders its value, so it cannot reach a log or a
/// panic message.
#[derive(Clone)]
pub struct Token(String);

impl Token {
    /// The token's text.
    pub closed spec fn secret(self) -> Seq<char> {
        self.0@
    }

    pub fn new(value: &str) -> (r: Token)
        ensures
            r.secret() == value@,
    {
        Token(owned(value))
    }

    pub fn expose(&self) -> (r: &str)
        ensures
            r@ == self.secret(),
    {
        self.0.as_str()
    }

    /// How the token shows in diagnostics: never its value.
    pub fn debug_text(&self) -> (r: String)
        ensures
            r@ == "Token(<redacted>)"@,
    {
        owned("Token(<redacted>)")
    }
}

/// Where a token came from, for `--debug` output.
#[derive(Debug, Clone, Copy, PartialEq, Eq)]
pub enum Origin {
    Env(&'static str),
    GhCli,
}

impl Origin {
    /// The origin as `--debug` names it: `$VARIABLE`, or the CLI command.
    pub fn describe(&self) -> (r: String)
        ensures
            r@ == match self {
                Origin::Env(name) => "$"@ + name@,
                Origin::GhCli => "gh auth token"@,
            },
    {
        match self {
            Origin::Env(name) => {
                let mut s = owned("$");
                push_str(&mut s, name);
                s
            },
            Origin::GhCli => owned("gh auth token"),
        }
    }
}

pub struct Credentials {
    pub token: Token,
    pub origin: Origin,
}

/// Whether an environment value carries a token: it is set and not blank.
pub open spec fn usable(v: Option<String>) -> bool {
    v matches Some(s) && !is_blank(s@)
}

/// What the environment supplies, given the values of `GH_TOKEN` and
/// `GITHUB_TOKEN`: the first usable one, trimmed, with its variable's name.
pub open spec fn env_token(gh_token: Option<String>, github_token: Option<String>) -> Option<(Seq<char>, Seq<char>)> {
    if usable(gh_token) {
        Some((trim(gh_token.unwrap()@), "GH_TOKEN"@))
    } else if usable(github_token) {
        Some((trim(github_token.unwrap()@), "GITHUB_TOKEN"@))
    } else {
        None
    }
}

/// The token an environment value carries, trimmed, when it is usable.
fn usable_value(v: Option<String>) -> (r: Option<String>)
    ensures
        match r {
            Some(t) => usable(v) && t@ == trim(v.unwrap()@),
            None => !usable(v),
        },
{
    match v {
        Some(s) => if blank(s.as_str()) {
            None
        } else {
            Some(trimmed(s.as_str()))
        },
        None => None,
    }
}

/// Picks the first environment variable that carries a token.
pub fn token_from_env<F: Fn(&str) -> Option<String>>(lookup: &F) -> (r: Option<(String, Origin)>)
    requires
        forall|name: &str| lookup.requires((name,)),
    ensures
        exists|a: Option<String>, b: Option<String>|
            #![trigger env_token(a, b)]
            lookup.ensures(("GH_TOKEN",), a) && (usable(a) || lookup.ensures(("GITHUB_TOKEN",), b))
                && match (r, env_token(a, b)) {
                (Some((t, Origin::Env(name))), Some((u, n))) => t@ == u && name@ == n,
                (None, None) => true,
                _ => false,
            },
{
    let a = lookup("GH_TOKEN");
    proof {
        reveal_strlit("GH_TOKEN");
        reveal_strlit("GITHUB_TOKEN");
    }
    match usable_value(a) {
        Some(t) => {
            let r = Some((t, Origin::Env("GH_TOKEN")));
            let ghost none: Option<String> = None;
            assert(lookup.ensures(("GH_TOKEN",), a) && (usable(a) || lookup.ensures(("GITHUB_TOKEN",), none))
                && match (r, env_token(a, none)) {
                (Some((t, Origin::Env(name))), Some((u, n))) => t@ == u && name@ == n,
                (None, None) => true,
                _ => false,
            });
            r
        },
        None => {
            let b = lookup("GITHUB_TOKEN");
            let r = match usable_value(b) {
                Some(t) => Some((t, Origin::Env("GITHUB_TOKEN"))),
                None => None,
            };
            assert(lookup.ensures(("GH_TOKEN",), a) && (usable(a) || lookup.ensures(("GITHUB_TOKEN",), b))
                && match (r, env_token(a, b)) {
                (Some((t, Origin::Env(name))), Some((u, n))) => t@ == u && name@ == n,
                (None, None) => true,
                _ => false,
            });
            r
        },
    }
}

/// A token, or the reason there is none, as texts.
pub open spec fn answer_view(r: Result<String, String>) -> Result<Seq<char>, Seq<char>> {
    match r {
        Ok(t) => Ok(t@),
        Err(e) => Err(e@),
    }
}

/// Supplies a token from the `gh` CLI, or the reason it could not. The
/// program implements it by running `gh`; `discover` asks it through a
/// closure, whose answer it can then speak of.
pub trait GhTokenSource {
    fn token(&self, host: &str) -> Result<String, String>;
}

/// What `gh auth token` gives, given whether it succeeded and what it
/// printed: the trimmed token, or a message that keeps gh's own words and
/// says how to fix it.
pub open spec fn token_outcome(success: bool, stdout: Seq<char>, stderr: Seq<char>) -> Result<
    Seq<char>,
    Seq<char>,
> {
    if !success {
        let detail = if trim(stderr).len() == 0 {
            "gh reported no detail"@
        } else {
            trim(stderr)
        };
        Err("`gh auth token` failed: "@ + detail + "\nRun `gh auth login` to authenticate."@)
    } else if trim(stdout).len() == 0 {
        Err("`gh auth token` returned nothing.\nRun `gh auth login` to authenticate."@)
    } else {
        Ok(trim(stdout))
    }
}

/// Interprets the result of `gh auth token`.
pub fn parse_token_output(success: bool, stdout: &str, stderr: &str) -> (r: Result<String, String>)
    ensures
        match (r, token_outcome(success, stdout@, stderr@)) {
            (Ok(t), Ok(u)) => t@ == u,
            (Err(e), Err(m)) => e@ == m,
            _ => false,
        },
{
    if !success {
        let detail = trimmed(stderr);
        let mut m = owned("`gh auth token` failed: ");
        if detail.as_str().is_empty() {
            push_str(&mut m, "gh reported no detail");
        } else {
            push_str(&mut m, detail.as_str());
        }
        push_str(&mut m, "\nRun `gh auth login` to authenticate.");
        return Err(m);
    }
    let token = trimmed(stdout);
    if token.as_str().is_empty() {
        return Err(owned("`gh auth token` returned nothing.\nRun `gh auth login` to authenticate."));
    }
    Ok(token)
}

/// Finds a usable token, reporting where it came from. The CLI is asked only
/// when the environment has none, and a token it gives is trusted as given.
pub fn discover<F: Fn(&str) -> Option<String>, G: Fn(&str) -> Result<String, String>>(env: &F, gh: &G) -> (r:
    Result<Credentials, String>)
    requires
        forall|name: &str| env.requires((name,)),
        gh.requires((HOST,)),
    ensures
        exists|a: Option<String>, b: Option<String>|
            #![trigger env_token(a, b)]
            env.ensures(("GH_TOKEN",), a) && (usable(a) || env.ensures(("GITHUB_TOKEN",), b))
                && match env_token(a, b) {
                Some((u, n)) => r matches Ok(c) && (c.token.secret() == u && (c.origin matches Origin::Env(
                    name,
                ) && name@ == n)),
                None => exists|t: Result<String, String>|
                    #![trigger answer_view(t)]
                    gh.ensures((HOST,), t) && match answer_view(t) {
                        Ok(token) => r matches Ok(c) && c.token.secret() == token && c.origin == Origin::GhCli,
                        Err(e) => r matches Err(m) && m@ == e,
                    },
            },
{
    let found = token_from_env(env);
    let ghost (a, b) = choose|a: Option<String>, b: Option<String>|
        #![trigger env_token(a, b)]
        env.ensures(("GH_TOKEN",), a) && (usable(a) || env.ensures(("GITHUB_TOKEN",), b))
            && match (found, env_token(a, b)) {
            (Some((t, Origin::Env(name))), Some((u, n))) => t@ == u && name@ == n,
            (None, None) => true,
            _ => false,
        };
    let r = match found {
        Some((token, origin)) => Ok(Credentials { token: Token::new(token.as_str()), origin }),
        None => {
            let answer = gh(HOST);
            let ghost t = answer;
            let r = match answer {
                Ok(token) => Ok(Credentials { token: Token::new(token.as_str()), origin: Origin::GhCli }),
                Err(e) => Err(e),
            };
            assert(gh.ensures((HOST,), t) && match answer_view(t) {
                Ok(token) => r matches Ok(c) && c.token.secret() == token && c.origin == Origin::GhCli,
                Err(e) => r matches Err(m) && m@ == e,
            });
            r
        },
    };
    r
}

} // verus!
