//! Bounded retries for the GitHub API.
//!
//! [`decide`] is the whole policy and is pure: given what went wrong, which
//! attempt it was and the current time, it says whether to wait and try again.
//! [`Retrying`] carries the policy through the loop around it; each failed
//! attempt is handed to [`Retrying::after_failure`], which says whether to
//! sleep and try again or to give up, and with which explanation.
use vstd::prelude::*;

use crate::text::opt_view;
use crate::diag::Diag;
use crate::duration::Duration;
use crate::text::{decimal, decimal_of, owned, parse_u64, parse_u64_of, push_str, trim, trimmed};
use crate::time::Instant;

verus! {

/// Rate-limit signals GitHub attaches to a response.
#[derive(Debug, Clone, Copy, Default, PartialEq, Eq, Structural)]
pub struct RateLimit {
    /// `retry-after`, sent with secondary rate limits.
    pub retry_after: Option<Duration>,
    /// `x-ratelimit-remaining`.
    pub remaining: Option<u64>,
    /// `x-ratelimit-reset`, when the primary limit replenishes.
    pub reset: Option<Instant>,
}

/// A header value read as a whole number, surrounding whitespace ignored.
pub open spec fn header_number(v: Option<Seq<char>>) -> Option<u64> {
    match v {
        Some(s) => parse_u64(trim(s)),
        None => None,
    }
}

/// The last second `jiff` can represent: the end of the year 9999.
pub open spec fn last_second() -> int {
    253402207200
}

/// The rate-limit signals three header values give; a reset time outside
/// the range `jiff` represents counts as absent.
pub open spec fn limit_from(
    retry_after: Option<Seq<char>>,
    remaining: Option<Seq<char>>,
    reset: Option<Seq<char>>,
) -> RateLimit {
    RateLimit {
        retry_after: match header_number(retry_after) {
            Some(n) => Some(Duration { secs: n }),
            None => None,
        },
        remaining: header_number(remaining),
        reset: match header_number(reset) {
            Some(n) => if n <= last_second() {
                Some(Instant { second: n as i64, nanosecond: 0 })
            } else {
                None
            },
            None => None,
        },
    }
}

/// Whether a 403 with these signals is a rate limit rather than a
/// permissions refusal.
pub open spec fn exhausted(limit: RateLimit) -> bool {
    limit.retry_after is Some || limit.remaining == Some(0u64)
}

/// The instant a number of seconds since the epoch names, by
/// `jiff::Timestamp::from_second`, which refuses exactly the seconds outside
/// `Timestamp::MIN ..= Timestamp::MAX`.
#[verifier::external_body]
fn timestamp_at(second: i64) -> (r: Option<Instant>)
    ensures
        r == if -377705023201 <= second <= last_second() {
            Some(Instant { second, nanosecond: 0 })
        } else {
            None
        },
{
    match jiff::Timestamp::from_second(second) {
        Ok(t) => Some(Instant { second: t.as_second(), nanosecond: t.subsec_nanosecond() }),
        Err(_) => None,
    }
}

/// A header value read as a whole number.
fn header_value(v: Option<&str>) -> (r: Option<u64>)
    ensures
        r == header_number(opt_view(v)),
{
    match v {
        Some(s) => {
            let t = trimmed(s);
            parse_u64_of(t.as_str())
        },
        None => None,
    }
}

impl RateLimit {
    /// The signals three header values give, ignoring malformed values.
    pub fn from_values(retry_after: Option<&str>, remaining: Option<&str>, reset: Option<&str>) -> (r:
        RateLimit)
        ensures
            r == limit_from(opt_view(retry_after), opt_view(remaining), opt_view(reset)),
    {
        let reset = match header_value(reset) {
            Some(n) => if n <= 253402207200 {
                timestamp_at(n as i64)
            } else {
                None
            },
            None => None,
        };
        RateLimit {
            retry_after: match header_value(retry_after) {
                Some(n) => Some(Duration::from_secs(n)),
                None => None,
            },
            remaining: header_value(remaining),
            reset,
        }
    }

    /// Reads the rate-limit headers through `header`, ignoring malformed
    /// values.
    pub fn from_headers<'a, F: Fn(&str) -> Option<&'a str>>(header: F) -> (r: RateLimit)
        requires
            forall|name: &str| header.requires((name,)),
        ensures
            exists|a: Option<&'a str>, b: Option<&'a str>, c: Option<&'a str>|
                header.ensures(("retry-after",), a) && header.ensures(("x-ratelimit-remaining",), b)
                    && header.ensures(("x-ratelimit-reset",), c) && r == limit_from(
                    opt_view(a),
                    opt_view(b),
                    opt_view(c),
                ),
    {
        let a = header("retry-after");
        let b = header("x-ratelimit-remaining");
        let c = header("x-ratelimit-reset");
        RateLimit::from_values(a, b, c)
    }

    /// Whether a 403 is a rate limit rather than a permissions refusal.
    pub fn is_exhausted(&self) -> (r: bool)
        ensures
            r == exhausted(*self),
    {
        self.retry_after.is_some() || self.remaining == Some(0u64)
    }
}

/// How a single request failed.
#[derive(Debug, Clone, Copy, PartialEq, Eq, Structural)]
pub enum Failure {
    /// The connection failed, timed out, or the body could not be read.
    Transport,
    /// A non-success HTTP status.
    Status(u16, RateLimit),
    /// A successful response whose GraphQL errors report a rate limit.
    RateLimited(RateLimit),
    /// Anything a retry cannot fix, such as a malformed query.
    Permanent,
}

/// How many attempts to make, and how long to wait between them.
#[derive(Debug, Clone, Copy, PartialEq, Eq, Structural)]
pub struct Policy {
    pub max_attempts: u32,
    /// Delay before the second attempt; each later attempt doubles it.
    pub base_delay: Duration,
    /// Longest wait a rate limit may impose before fin gives up instead.
    pub max_wait: Duration,
}

impl Default for Policy {
    /// Three attempts, a second apart at first, waiting out rate limits of up
    /// to half a minute.
    fn default() -> (r: Policy)
        ensures
            r == (Policy {
                max_attempts: 3,
                base_delay: Duration { secs: 1 },
                max_wait: Duration { secs: 30 },
            }),
    {
        Policy { max_attempts: 3, base_delay: Duration { secs: 1 }, max_wait: Duration { secs: 30 } }
    }
}

/// What follows a failed attempt.
#[derive(Debug, Clone, Copy, PartialEq, Eq, Structural)]
pub enum Decision {
    Retry(Duration),
    /// The failure is not transient.
    Permanent,
    /// The failure was transient, but every attempt is spent.
    Exhausted,
    /// The rate limit lifts later than fin is willing to wait.
    RateLimited { wait: Option<Duration> },
}

/// Whether a failure can pass with time, and under which rate limit: `None`
/// when it cannot, `Some(None)` for a transient failure with no limit, and
/// `Some(Some(limit))` for a rate limit.
pub open spec fn transience(f: Failure) -> Option<Option<RateLimit>> {
    match f {
        Failure::Permanent => None,
        Failure::Transport => Some(None),
        Failure::Status(status, limit) => if 502 <= status <= 504 {
            Some(None)
        } else if status == 429 || (status == 403 && exhausted(limit)) {
            Some(Some(limit))
        } else {
            None
        },
        Failure::RateLimited(limit) => Some(Some(limit)),
    }
}

/// Two to the power `n`.
pub open spec fn doubling(n: nat) -> nat
    decreases n,
{
    if n == 0 {
        1
    } else {
        2 * doubling((n - 1) as nat)
    }
}

/// Two to the power `n`, or `u32::MAX` when that does not fit, as
/// `u32::saturating_pow` gives it.
pub open spec fn capped_doubling(n: nat) -> nat {
    if doubling(n) > u32::MAX {
        u32::MAX as nat
    } else {
        doubling(n)
    }
}

/// The exponential backoff before the attempt after `attempt`.
pub open spec fn backoff(policy: Policy, attempt: u32) -> Duration {
    let factor = capped_doubling(if attempt == 0 { 0 } else { (attempt - 1) as nat });
    Duration {
        secs: if policy.base_delay.secs * factor <= u64::MAX {
            (policy.base_delay.secs * factor) as u64
        } else {
            u64::MAX
        },
    }
}

/// The wait GitHub asks for, from `retry-after` or else the reset time.
pub open spec fn asked_wait(limit: RateLimit, now: Instant) -> Option<Duration> {
    match limit.retry_after {
        Some(after) => Some(after),
        None => if limit.remaining == Some(0u64) && limit.reset is Some {
            let reset = limit.reset.unwrap().second;
            Some(
                Duration {
                    secs: if reset > now.second {
                        if reset - now.second <= i64::MAX {
                            (reset - now.second) as u64
                        } else {
                            i64::MAX as u64
                        }
                    } else {
                        0
                    },
                },
            )
        } else {
            None
        },
    }
}

/// What follows a failed `attempt`, counted from 1: a permanent failure is
/// never retried; a rate limit is waited out when it lifts within
/// `max_wait`; other transient failures back off exponentially; and once the
/// attempts are spent, the failure is reported.
pub open spec fn decision(policy: Policy, failure: Failure, attempt: u32, now: Instant) -> Decision {
    match transience(failure) {
        None => Decision::Permanent,
        Some(limit) => {
            let asked = match limit {
                Some(l) => asked_wait(l, now),
                None => None,
            };
            if asked matches Some(w) && w.secs > policy.max_wait.secs {
                Decision::RateLimited { wait: asked }
            } else if attempt >= policy.max_attempts {
                match limit {
                    Some(l) => Decision::RateLimited { wait: asked },
                    None => Decision::Exhausted,
                }
            } else {
                Decision::Retry(
                    match asked {
                        Some(w) => w,
                        None => backoff(policy, attempt),
                    },
                )
            }
        },
    }
}

proof fn lemma_doubling_grows(a: nat, b: nat)
    requires
        a <= b,
    ensures
        doubling(a) <= doubling(b),
    decreases b,
{
    if a < b {
        lemma_doubling_grows(a, (b - 1) as nat);
    }
}

/// Two to the power `n`, saturating at `u32::MAX`.
fn capped_power_of_two(n: u32) -> (r: u32)
    ensures
        r == capped_doubling(n as nat),
{
    let mut f: u64 = 1;
    let mut k: u32 = 0;
    while k < n && f <= 0xffff_ffff
        invariant
            k <= n,
            f == doubling(k as nat),
        decreases n - k,
    {
        f = f * 2;
        k += 1;
    }
    if f > 0xffff_ffff {
        proof {
            lemma_doubling_grows(k as nat, n as nat);
        }
        0xffff_ffff
    } else {
        f as u32
    }
}

/// The wait GitHub asks for, from `retry-after` or else the reset time.
fn required_wait(limit: &RateLimit, now: Instant) -> (r: Option<Duration>)
    ensures
        r == asked_wait(*limit, now),
{
    if let Some(after) = limit.retry_after {
        return Some(after);
    }
    if limit.remaining != Some(0u64) {
        return None;
    }
    match limit.reset {
        None => None,
        Some(reset) => {
            let seconds: u64 = if reset.second > now.second {
                let d = (reset.second as i128) - (now.second as i128);
                if d <= 0x7fff_ffff_ffff_ffff {
                    d as u64
                } else {
                    0x7fff_ffff_ffff_ffff
                }
            } else {
                0
            };
            Some(Duration::from_secs(seconds))
        },
    }
}

/// Decides what follows a failed `attempt`, counted from 1.
pub fn decide(policy: &Policy, failure: &Failure, attempt: u32, now: Instant) -> (r: Decision)
    ensures
        r == decision(*policy, *failure, attempt, now),
{
    let limit = match failure {
        Failure::Permanent => return Decision::Permanent,
        Failure::Transport => None,
        Failure::Status(status, limit) => {
            if 502 <= *status && *status <= 504 {
                None
            } else if *status == 429 || (*status == 403 && limit.is_exhausted()) {
                Some(*limit)
            } else {
                return Decision::Permanent;
            }
        },
        Failure::RateLimited(limit) => Some(*limit),
    };
    let exponent = if attempt == 0 { 0 } else { attempt - 1 };
    let backoff = policy.base_delay.saturating_mul(capped_power_of_two(exponent));
    let asked = match &limit {
        Some(l) => required_wait(l, now),
        None => None,
    };
    let wait = match asked {
        Some(w) => {
            if w.secs > policy.max_wait.secs {
                return Decision::RateLimited { wait: asked };
            }
            w
        },
        None => backoff,
    };
    if attempt >= policy.max_attempts {
        return match limit {
            Some(_) => Decision::RateLimited { wait: asked },
            None => Decision::Exhausted,
        };
    }
    Decision::Retry(wait)
}

/// Retries are bounded: once `max_attempts` attempts have failed, no policy
/// decision asks for another.
pub proof fn lemma_no_retry_after_the_last_attempt(policy: Policy, failure: Failure, attempt: u32, now: Instant)
    requires
        attempt >= policy.max_attempts,
    ensures
        !(decision(policy, failure, attempt, now) is Retry),
{
}

/// A rate limit is only waited out when it lifts within `max_wait`.
pub proof fn lemma_rate_limit_waits_stay_within_the_cap(
    policy: Policy,
    limit: RateLimit,
    attempt: u32,
    now: Instant,
)
    requires
        asked_wait(limit, now) is Some,
    ensures
        decision(policy, Failure::RateLimited(limit), attempt, now) matches Decision::Retry(w)
            ==> w.secs <= policy.max_wait.secs && Some(w) == asked_wait(limit, now),
{
}

/// The number of whole minutes a wait lasts, rounded up, and at least one.
pub open spec fn wait_minutes(secs: u64) -> nat {
    let m = (secs / 60 + if secs % 60 > 0 { 1nat } else { 0nat }) as nat;
    if m == 0 {
        1
    } else {
        m
    }
}

/// How a rate limit fin will not wait out is explained.
pub open spec fn rate_limit_text(wait: Option<Duration>) -> Seq<char> {
    match wait {
        Some(w) => "GitHub's rate limit is exhausted and resets in about "@ + decimal(
            wait_minutes(w.secs),
        ) + if wait_minutes(w.secs) == 1 {
            " minute"@
        } else {
            " minutes"@
        },
        None => "GitHub's rate limit is exhausted; try again later"@,
    }
}

/// Explains a rate limit fin will not wait out.
pub fn rate_limit_message(wait: Option<Duration>) -> (r: String)
    ensures
        r@ == rate_limit_text(wait),
{
    match wait {
        Some(w) => {
            let secs = w.as_secs();
            let mut minutes = secs / 60 + if secs % 60 > 0 { 1 } else { 0 };
            if minutes == 0 {
                minutes = 1;
            }
            let mut m = owned("GitHub's rate limit is exhausted and resets in about ");
            push_str(&mut m, decimal_of(minutes).as_str());
            if minutes == 1 {
                push_str(&mut m, " minute");
            } else {
                push_str(&mut m, " minutes");
            }
            m
        },
        None => owned("GitHub's rate limit is exhausted; try again later"),
    }
}

/// What the loop around a request does after a failed attempt.
#[derive(Debug, PartialEq, Eq)]
pub enum Step {
    /// Sleep for `delay`, then make attempt number `next`.
    Wait { delay: Duration, next: u32 },
    /// Stop, returning the failure's own error, explained by `context` when
    /// there is one.
    GiveUp { context: Option<String> },
}

/// The explanation added to a failure the loop gives up on.
pub open spec fn give_up_context(d: Decision, attempt: u32) -> Option<Seq<char>> {
    match d {
        Decision::Exhausted => Some("gave up after "@ + decimal(attempt as nat) + " attempts"@),
        Decision::RateLimited { wait } => Some(rate_limit_text(wait)),
        _ => None,
    }
}

/// A GraphQL client that retries transient failures under a [`Policy`]: the
/// exchange that makes one attempt, the timer that reads the clock and
/// sleeps, and the policy between them.
pub struct Retrying<E, T> {
    pub exchange: E,
    pub timer: T,
    pub policy: Policy,
    pub diag: Diag,
}

impl<E, T> Retrying<E, T> {
    pub fn new(exchange: E, timer: T, policy: Policy, diag: Diag) -> (r: Self)
        ensures
            r.exchange == exchange,
            r.timer == timer,
            r.policy == policy,
            r.diag == diag,
    {
        Retrying { exchange, timer, policy, diag }
    }

    /// What to do after attempt number `attempt` failed with `failure` at
    /// `now`: wait and try again, or give up with an explanation.
    pub fn after_failure(&self, failure: &Failure, attempt: u32, now: Instant) -> (r: Step)
        ensures
            match decision(self.policy, *failure, attempt, now) {
                Decision::Retry(delay) => r == Step::Wait { delay, next: (attempt + 1) as u32 },
                d => r matches Step::GiveUp { context } && match (context, give_up_context(d, attempt)) {
                    (Some(c), Some(t)) => c@ == t,
                    (None, None) => true,
                    _ => false,
                },
            },
    {
        match decide(&self.policy, failure, attempt, now) {
            Decision::Retry(delay) => Step::Wait { delay, next: attempt + 1 },
            Decision::Permanent => Step::GiveUp { context: None },
            Decision::Exhausted => {
                let mut m = owned("gave up after ");
                push_str(&mut m, decimal_of(attempt as u64).as_str());
                push_str(&mut m, " attempts");
                Step::GiveUp { context: Some(m) }
            },
            Decision::RateLimited { wait } => Step::GiveUp { context: Some(rate_limit_message(wait)) },
        }
    }
}

/// The timer that reads the system clock and sleeps on the async runtime.
pub struct TokioTimer;

} // verus!
