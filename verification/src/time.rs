//! Points in time and spans of time, with nanosecond resolution.

use vstd::prelude::*;

verus! {

/// Number of nanoseconds in one second.
pub const NANOS_PER_SEC: u64 = 1_000_000_000;

/// Number of nanoseconds in one millisecond.
pub const NANOS_PER_MILLI: u64 = 1_000_000;

/// Largest number of whole seconds that a [`Duration`] or [`Timestamp`] can hold.
pub const MAX_SECS: u64 = 18_446_744_073;

/// A span of time, held as a number of nanoseconds.
#[derive(Clone, Copy, Debug, PartialEq, Eq, Hash, Structural)]
pub struct Duration {
    pub nanos: u64,
}

/// A point in time, held as the number of nanoseconds since the UNIX epoch.
#[derive(Clone, Copy, Debug, PartialEq, Eq, Hash, Structural)]
pub struct Timestamp {
    pub nanos: u64,
}

impl Duration {
    /// The empty span.
    pub fn zero() -> (d: Duration)
        ensures
            d.nanos == 0,
    {
        Duration { nanos: 0 }
    }

    pub fn from_nanos(nanos: u64) -> (d: Duration)
        ensures
            d.nanos == nanos,
    {
        Duration { nanos }
    }

    /// A span of `millis` milliseconds, or `None` if it cannot be held.
    pub fn from_millis(millis: u64) -> (d: Option<Duration>)
        ensures
            millis * NANOS_PER_MILLI <= u64::MAX ==> d == Some(
                Duration { nanos: (millis * NANOS_PER_MILLI) as u64 },
            ),
            millis * NANOS_PER_MILLI > u64::MAX ==> d is None,
    {
        match millis.checked_mul(NANOS_PER_MILLI) {
            Some(nanos) => Some(Duration { nanos }),
            None => None,
        }
    }

    /// A span of `secs` seconds.
    pub fn from_secs(secs: u64) -> (d: Duration)
        requires
            secs <= MAX_SECS,
        ensures
            d.nanos == secs * NANOS_PER_SEC,
    {
        Duration { nanos: secs * NANOS_PER_SEC }
    }

    /// The number of whole seconds in this span.
    pub fn as_secs(&self) -> (s: u64)
        ensures
            s == self.nanos / NANOS_PER_SEC,
    {
        self.nanos / NANOS_PER_SEC
    }

    /// The part of this span below one second, in nanoseconds.
    pub fn subsec_nanos(&self) -> (n: u32)
        ensures
            n == self.nanos % NANOS_PER_SEC,
    {
        (self.nanos % NANOS_PER_SEC) as u32
    }

    pub fn as_nanos(&self) -> (n: u64)
        ensures
            n == self.nanos,
    {
        self.nanos
    }

    pub fn is_zero(&self) -> (z: bool)
        ensures
            z == (self.nanos == 0),
    {
        self.nanos == 0
    }

    /// The longer of two spans.
    pub fn longest(self, other: Duration) -> (d: Duration)
        ensures
            d.nanos == if self.nanos >= other.nanos {
                self.nanos
            } else {
                other.nanos
            },
    {
        if self.nanos >= other.nanos {
            self
        } else {
            other
        }
    }
}

impl Timestamp {
    /// The UNIX epoch itself.
    pub fn epoch() -> (t: Timestamp)
        ensures
            t.nanos == 0,
    {
        Timestamp { nanos: 0 }
    }

    pub fn from_nanos(nanos: u64) -> (t: Timestamp)
        ensures
            t.nanos == nanos,
    {
        Timestamp { nanos }
    }

    /// The point in time `secs` seconds and `nanos` nanoseconds after the UNIX
    /// epoch, or `None` if it cannot be held.
    pub fn from_unix_timestamp(secs: u64, nanos: u32) -> (t: Option<Timestamp>)
        ensures
            secs * NANOS_PER_SEC + nanos <= u64::MAX ==> t == Some(
                Timestamp { nanos: (secs * NANOS_PER_SEC + nanos) as u64 },
            ),
            secs * NANOS_PER_SEC + nanos > u64::MAX ==> t is None,
    {
        match secs.checked_mul(NANOS_PER_SEC) {
            Some(whole) => match whole.checked_add(nanos as u64) {
                Some(total) => Some(Timestamp { nanos: total }),
                None => None,
            },
            None => None,
        }
    }

    /// Seconds and remaining nanoseconds since the UNIX epoch.
    pub fn to_unix_timestamp(&self) -> (r: (u64, u32))
        ensures
            r.0 == self.nanos / NANOS_PER_SEC,
            r.1 == self.nanos % NANOS_PER_SEC,
    {
        (self.nanos / NANOS_PER_SEC, (self.nanos % NANOS_PER_SEC) as u32)
    }

    /// This point in time moved forward by `d`, or `None` if it cannot be held.
    pub fn checked_add(&self, d: Duration) -> (t: Option<Timestamp>)
        ensures
            self.nanos + d.nanos <= u64::MAX ==> t == Some(
                Timestamp { nanos: (self.nanos + d.nanos) as u64 },
            ),
            self.nanos + d.nanos > u64::MAX ==> t is None,
    {
        match self.nanos.checked_add(d.nanos) {
            Some(nanos) => Some(Timestamp { nanos }),
            None => None,
        }
    }

    /// The span from `earlier` to this point in time, or `None` if `earlier`
    /// is in fact later.
    pub fn duration_since(&self, earlier: Timestamp) -> (d: Option<Duration>)
        ensures
            earlier.nanos <= self.nanos ==> d == Some(
                Duration { nanos: (self.nanos - earlier.nanos) as u64 },
            ),
            earlier.nanos > self.nanos ==> d is None,
    {
        if earlier.nanos <= self.nanos {
            Some(Duration { nanos: self.nanos - earlier.nanos })
        } else {
            None
        }
    }
}

} // verus!
