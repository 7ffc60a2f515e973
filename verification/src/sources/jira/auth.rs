//! Jira Cloud connection settings and credential discovery.
//!
//! The site and account email come from the configuration file, falling back
//! to `JIRA_HOST` and `JIRA_API_USER`; the API token comes only from
//! `JIRA_API_TOKEN`, so it never has to be written to disk. Resolution is
//! decided over an environment lookup.
use vstd::prelude::*;

use crate::config::JiraConfig;
use crate::text::{
    contains, contains_char, contains_text, has_char, lower, opt_string, owned, push_char, push_str,
    starts_with, starts_with_text, string_of, chars_of, to_lower, trim, trimmed,
};

verus! {

pub const SITE_VAR: &'static str = "JIRA_HOST";

pub const EMAIL_VAR: &'static str = "JIRA_API_USER";

pub const TOKEN_VAR: &'static str = "JIRA_API_TOKEN";

/// A Jira API token. Never renders its value, so it cannot reach a log or a
/// panic message.
#[derive(Clone)]
pub struct Token(String);

impl Token {
    /// The token's text.
    pub closed spec fn secret(self) -> Seq<char> {
        self.0@
    }

    pub fn new(value: &str) -> (r: Token)
        ensures
            r.secret() == value@,
    {
        Token(owned(value))
    }

    pub fn expose(&self) -> (r: &str)
        ensures
            r@ == self.secret(),
    {
        self.0.as_str()
    }

    /// How the token shows in diagnostics: never its value.
    pub fn debug_text(&self) -> (r: String)
        ensures
            r@ == "Token(<redacted>)"@,
    {
        owned("Token(<redacted>)")
    }
}

/// The host name of a Jira Cloud site, such as `example.atlassian.net`.
#[derive(Debug, Clone, PartialEq, Eq)]
pub struct Site(String);

/// The text with every trailing `/` removed.
pub open spec fn without_trailing_slashes(s: Seq<char>) -> Seq<char>
    decreases s.len(),
{
    if s.len() > 0 && s.last() == '/' {
        without_trailing_slashes(s.drop_last())
    } else {
        s
    }
}

/// Whether a host holds a character no host may hold.
pub open spec fn has_bad_char(host: Seq<char>) -> bool {
    exists|i: int|
        0 <= i < host.len() && (host[i] == '/' || host[i] == ' ' || host[i] == '?' || host[i] == '#'
            || host[i] == '@')
}

/// What a site setting reads as: a bare host or an `https://` URL, with or
/// without trailing slashes, folded to lower case; or the reason it is not
/// one.
pub open spec fn site_reading(raw: Seq<char>) -> Result<Seq<char>, Seq<char>> {
    let t = trim(raw);
    let l = lower(t);
    if !starts_with(l, "https://"@) && contains(l, "://"@) {
        Err("invalid Jira site `"@ + t + "` (expected a host or an https:// URL)"@)
    } else {
        let host = without_trailing_slashes(
            if starts_with(l, "https://"@) {
                t.skip(8)
            } else {
                t
            },
        );
        if host.len() == 0 || has_bad_char(host) {
            Err("invalid Jira site `"@ + t + "` (expected a host such as example.atlassian.net)"@)
        } else {
            Ok(lower(host))
        }
    }
}

impl Site {
    /// The host.
    pub closed spec fn host(self) -> Seq<char> {
        self.0@
    }

    /// Accepts a bare host or an `https://` URL, with or without a trailing
    /// slash.
    pub fn parse(raw: &str) -> (r: Result<Site, String>)
        ensures
            match site_reading(raw@) {
                Ok(h) => r matches Ok(s) && s.host() == h,
                Err(m) => r matches Err(e) && e@ == m,
            },
    {
        let t = trimmed(raw);
        let l = to_lower(t.as_str());
        let secure = starts_with_text(l.as_str(), "https://");
        if !secure && contains_text(l.as_str(), "://") {
            let mut m = owned("invalid Jira site `");
            push_str(&mut m, t.as_str());
            push_str(&mut m, "` (expected a host or an https:// URL)");
            return Err(m);
        }
        let v = chars_of(t.as_str());
        proof {
            reveal_strlit("https://");
        }
        let from: usize = if secure { 8 } else { 0 };
        let mut to = v.len();
        assert(v@.subrange(from as int, to as int) == if secure { t@.skip(8) } else { t@ });
        while to > from && v[to - 1] == '/'
            invariant
                v@ == t@,
                from <= to <= v@.len(),
                without_trailing_slashes(v@.subrange(from as int, to as int)) == without_trailing_slashes(
                    if secure { t@.skip(8) } else { t@ },
                ),
            decreases to,
        {
            assert(v@.subrange(from as int, to as int).drop_last() == v@.subrange(from as int, to - 1));
            to -= 1;
        }
        let host = string_of(v.as_slice(), from, to);
        assert(without_trailing_slashes(host@) == host@);
        let mut bad = host.as_str().is_empty();
        let hv = chars_of(host.as_str());
        let mut i: usize = 0;
        while i < hv.len() && !bad
            invariant
                hv@ == host@,
                i <= hv@.len(),
                bad == (host@.len() == 0 || exists|k: int|
                    0 <= k < i && (host@[k] == '/' || host@[k] == ' ' || host@[k] == '?' || host@[k]
                        == '#' || host@[k] == '@')),
            decreases hv.len() - i,
        {
            let c = hv[i];
            if c == '/' || c == ' ' || c == '?' || c == '#' || c == '@' {
                bad = true;
            }
            i += 1;
        }
        if bad {
            let mut m = owned("invalid Jira site `");
            push_str(&mut m, t.as_str());
            push_str(&mut m, "` (expected a host such as example.atlassian.net)");
            return Err(m);
        }
        Ok(Site(to_lower(host.as_str())))
    }

    /// The host, as the site is written.
    pub fn as_str(&self) -> (r: &str)
        ensures
            r@ == self.host(),
    {
        self.0.as_str()
    }

    pub fn base_url(&self) -> (r: String)
        ensures
            r@ == "https://"@ + self.host(),
    {
        let mut r = owned("https://");
        push_str(&mut r, self.0.as_str());
        r
    }

    /// Where a person opens an issue in the browser.
    pub fn browse_url(&self, key: &str) -> (r: String)
        ensures
            r@ == "https://"@ + self.host() + "/browse/"@ + key@,
    {
        let mut r = owned("https://");
        push_str(&mut r, self.0.as_str());
        push_str(&mut r, "/browse/");
        push_str(&mut r, key);
        r
    }
}

/// Everything needed to talk to one Jira Cloud site as one account.
#[derive(Clone)]
pub struct Connection {
    pub site: Site,
    pub email: String,
    pub token: Token,
}

/// A setting: the configured value when there is one, else the
/// environment's, trimmed; blank counts as missing.
pub open spec fn chosen(configured: Option<Seq<char>>, from_env: Option<String>) -> Option<Seq<char>> {
    let raw = match configured {
        Some(c) => Some(c),
        None => match from_env {
            Some(e) => Some(e@),
            None => None,
        },
    };
    match raw {
        Some(r) => if trim(r).len() > 0 {
            Some(trim(r))
        } else {
            None
        },
        None => None,
    }
}

/// The connection the configuration and the environment's values of the
/// three variables give: its site's host, its email and its token; or what
/// is missing or wrong, checked in that order.
pub open spec fn connection_reading(
    config: JiraConfig,
    site_env: Option<String>,
    email_env: Option<String>,
    token_env: Option<String>,
) -> Result<(Seq<char>, Seq<char>, Seq<char>), Seq<char>> {
    match chosen(opt_string(config.site), site_env) {
        None => Err("no Jira site configured.\nSet `site` under [jira], or JIRA_HOST."@),
        Some(site) => match chosen(opt_string(config.email), email_env) {
            None => Err("no Jira account email configured.\nSet `email` under [jira], or JIRA_API_USER."@),
            Some(email) => match chosen(None, token_env) {
                None => Err(
                    "JIRA_API_TOKEN is not set.\nCreate an API token at https://id.atlassian.com/manage-profile/security/api-tokens and export it as JIRA_API_TOKEN."@,
                ),
                Some(token) => match site_reading(site) {
                    Ok(host) => Ok((host, email, token)),
                    Err(m) => Err(m),
                },
            },
        },
    }
}

/// A setting: the configured value when there is one, else the
/// environment's, trimmed; blank counts as missing.
fn setting(configured: Option<&String>, from_env: Option<String>) -> (r: Option<String>)
    ensures
        match chosen(
            match configured {
                Some(c) => Some(c@),
                None => None,
            },
            from_env,
        ) {
            Some(v) => r matches Some(s) && s@ == v,
            None => r is None,
        },
{
    let raw = match configured {
        Some(c) => owned(c.as_str()),
        None => match from_env {
            Some(e) => e,
            None => return None,
        },
    };
    let t = trimmed(raw.as_str());
    if t.as_str().is_empty() {
        None
    } else {
        Some(t)
    }
}

/// Resolves the connection from configuration, then the environment. The
/// environment is asked for a variable only when the configuration leaves it
/// to it.
pub fn resolve<F: Fn(&str) -> Option<String>>(config: &JiraConfig, env: &F) -> (r: Result<
    Connection,
    String,
>)
    requires
        forall|name: &str| env.requires((name,)),
    ensures
        exists|a: Option<String>, b: Option<String>, c: Option<String>|
            #![trigger connection_reading(*config, a, b, c)]
            (if config.site is None { env.ensures(("JIRA_HOST",), a) } else { a is None }) && (chosen(
                opt_string(config.site),
                a,
            ) is Some ==> if config.email is None {
                env.ensures(("JIRA_API_USER",), b)
            } else {
                b is None
            }) && (chosen(opt_string(config.site), a) is Some && chosen(opt_string(config.email), b) is Some
                ==> env.ensures(("JIRA_API_TOKEN",), c)) && match (
                r,
                connection_reading(*config, a, b, c),
            ) {
                (Ok(conn), Ok((host, email, token))) => conn.site.host() == host && conn.email@ == email
                    && conn.token.secret() == token,
                (Err(m), Err(n)) => m@ == n,
                _ => false,
            },
{
    let ghost none: Option<String> = None;
    let site_env = match &config.site {
        Some(_) => None,
        None => env(SITE_VAR),
    };
    let site = match setting(config.site.as_ref(), site_env) {
        Some(s) => s,
        None => {
            let r: Result<Connection, String> = Err(owned("no Jira site configured.\nSet `site` under [jira], or JIRA_HOST."));
            assert((if config.site is None { env.ensures(("JIRA_HOST",), site_env) } else { site_env is None }) && (chosen(
                opt_string(config.site),
                site_env,
            ) is Some ==> if config.email is None {
                env.ensures(("JIRA_API_USER",), none)
            } else {
                none is None
            }) && (chosen(opt_string(config.site), site_env) is Some && chosen(opt_string(config.email), none) is Some
                ==> env.ensures(("JIRA_API_TOKEN",), none)) && match (r, connection_reading(*config, site_env, none, none)) {
                (Ok(conn), Ok((host, email, token))) => conn.site.host() == host && conn.email@ == email
                    && conn.token.secret() == token,
                (Err(m), Err(n)) => m@ == n,
                _ => false,
            });
            return r;
        },
    };
    let email_env = match &config.email {
        Some(_) => None,
        None => env(EMAIL_VAR),
    };
    let email = match setting(config.email.as_ref(), email_env) {
        Some(e) => e,
        None => {
            let r: Result<Connection, String> = Err(owned("no Jira account email configured.\nSet `email` under [jira], or JIRA_API_USER."));
            assert((if config.site is None { env.ensures(("JIRA_HOST",), site_env) } else { site_env is None }) && (chosen(
                opt_string(config.site),
                site_env,
            ) is Some ==> if config.email is None {
                env.ensures(("JIRA_API_USER",), email_env)
            } else {
                email_env is None
            }) && (chosen(opt_string(config.site), site_env) is Some && chosen(opt_string(config.email), email_env) is Some
                ==> env.ensures(("JIRA_API_TOKEN",), none)) && match (r, connection_reading(*config, site_env, email_env, none)) {
                (Ok(conn), Ok((host, email, token))) => conn.site.host() == host && conn.email@ == email
                    && conn.token.secret() == token,
                (Err(m), Err(n)) => m@ == n,
                _ => false,
            });
            return r;
        },
    };
    let token_env = env(TOKEN_VAR);
    let token = match setting(None, token_env) {
        Some(t) => t,
        None => {
            let r: Result<Connection, String> = Err(
                owned(
                    "JIRA_API_TOKEN is not set.\nCreate an API token at https://id.atlassian.com/manage-profile/security/api-tokens and export it as JIRA_API_TOKEN.",
                ),
            );
            assert((if config.site is None { env.ensures(("JIRA_HOST",), site_env) } else { site_env is None }) && (chosen(
                opt_string(config.site),
                site_env,
            ) is Some ==> if config.email is None {
                env.ensures(("JIRA_API_USER",), email_env)
            } else {
                email_env is None
            }) && (chosen(opt_string(config.site), site_env) is Some && chosen(opt_string(config.email), email_env) is Some
                ==> env.ensures(("JIRA_API_TOKEN",), token_env)) && match (r, connection_reading(*config, site_env, email_env, token_env)) {
                (Ok(conn), Ok((host, email, token))) => conn.site.host() == host && conn.email@ == email
                    && conn.token.secret() == token,
                (Err(m), Err(n)) => m@ == n,
                _ => false,
            });
            return r;
        },
    };
    let r = match Site::parse(site.as_str()) {
        Ok(s) => Ok(Connection { site: s, email, token: Token::new(token.as_str()) }),
        Err(m) => Err(m),
    };
    assert((if config.site is None { env.ensures(("JIRA_HOST",), site_env) } else { site_env is None }) && (chosen(
                opt_string(config.site),
                site_env,
            ) is Some ==> if config.email is None {
                env.ensures(("JIRA_API_USER",), email_env)
            } else {
                email_env is None
            }) && (chosen(opt_string(config.site), site_env) is Some && chosen(opt_string(config.email), email_env) is Some
                ==> env.ensures(("JIRA_API_TOKEN",), token_env)) && match (r, connection_reading(*config, site_env, email_env, token_env)) {
        (Ok(conn), Ok((host, email, token))) => conn.site.host() == host && conn.email@ == email
            && conn.token.secret() == token,
        (Err(m), Err(n)) => m@ == n,
        _ => false,
    });
    r
}

} // verus!
