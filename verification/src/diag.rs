//! Opt-in diagnostics.
//!
//! Diagnostics go to stderr so that stdout stays pipeable data. Each line is
//! stamped to millisecond precision, which is what makes the timings between
//! successive queries readable.
use vstd::prelude::*;

use crate::text::{padded, padded_of, push_str};
use crate::time::Moment;

verus! {

/// Whether diagnostics are printed.
#[derive(Debug, Clone, Copy)]
pub struct Diag {
    enabled: bool,
}

impl Diag {
    /// Whether this handle prints diagnostics.
    pub closed spec fn on(self) -> bool {
        self.enabled
    }

    pub fn new(enabled: bool) -> (r: Diag)
        ensures
            r.on() == enabled,
    {
        Diag { enabled }
    }

    pub fn enabled(&self) -> (r: bool)
        ensures
            r == self.on(),
    {
        self.enabled
    }
}

/// The wall-clock time of a diagnostic as `HH:MM:SS.mmm`.
pub open spec fn stamp_text(now: Moment) -> Seq<char> {
    padded(now.clock.hour as nat, 2) + ":"@ + padded(now.clock.minute as nat, 2) + ":"@ + padded(
        now.clock.second as nat,
        2,
    ) + "."@ + padded((now.clock.subsec_nanosecond / 1_000_000) as nat, 3)
}

/// Renders the wall-clock time of a diagnostic as `HH:MM:SS.mmm`.
pub fn stamp(now: &Moment) -> (r: String)
    requires
        now.clock.wf(),
    ensures
        r@ == stamp_text(*now),
{
    let mut s = padded_of(now.clock.hour as u64, 2);
    push_str(&mut s, ":");
    push_str(&mut s, padded_of(now.clock.minute as u64, 2).as_str());
    push_str(&mut s, ":");
    push_str(&mut s, padded_of(now.clock.second as u64, 2).as_str());
    push_str(&mut s, ".");
    push_str(&mut s, padded_of((now.clock.subsec_nanosecond / 1_000_000) as u64, 3).as_str());
    s
}

} // verus!
