//! Spans of time in whole seconds: cache lifetimes and retry waits.
use vstd::prelude::*;

verus! {

/// A span of time, in whole seconds.
#[derive(Debug, Clone, Copy, PartialEq, Eq, PartialOrd, Ord, Hash, Default, Structural)]
pub struct Duration {
    pub secs: u64,
}

impl Duration {
    pub fn from_secs(secs: u64) -> (r: Duration)
        ensures
            r.secs == secs,
    {
        Duration { secs }
    }

    /// No time at all.
    pub fn zero() -> (r: Duration)
        ensures
            r.secs == 0,
    {
        Duration { secs: 0 }
    }

    pub fn as_secs(&self) -> (r: u64)
        ensures
            r == self.secs,
    {
        self.secs
    }

    pub fn as_millis(&self) -> (r: u128)
        ensures
            r == self.secs * 1000,
    {
        (self.secs as u128) * 1000
    }

    pub fn is_zero(&self) -> (r: bool)
        ensures
            r == (self.secs == 0),
    {
        self.secs == 0
    }

    /// `self` times `factor`, or the longest span when that does not fit.
    pub fn saturating_mul(&self, factor: u32) -> (r: Duration)
        ensures
            r.secs == if self.secs * factor <= u64::MAX { self.secs * factor } else { u64::MAX as int },
    {
        match self.secs.checked_mul(factor as u64) {
            Some(s) => Duration { secs: s },
            None => Duration { secs: u64::MAX },
        }
    }
}

} // verus!
