//! Integer nanosecond media timestamps.
use vstd::prelude::*;

verus! {

/// A media timestamp in whole nanoseconds from the stream origin.
#[derive(Clone, Copy, Debug, PartialEq, Eq, Hash, PartialOrd, Ord, Structural)]
pub struct Timestamp {
    pub nanos: u64,
}

impl Timestamp {
    /// The stream origin.
    pub fn zero() -> (t: Timestamp)
        ensures
            t.spec_nanos() == 0,
    {
        Timestamp { nanos: 0 }
    }

    /// The timestamp as a mathematical number of nanoseconds.
    pub open spec fn spec_nanos(self) -> nat {
        self.nanos as nat
    }

    /// Creates a timestamp from whole nanoseconds.
    pub fn from_nanos(nanos: u64) -> (t: Timestamp)
        ensures
            t.spec_nanos() == nanos,
    {
        Timestamp { nanos }
    }

    /// Creates a timestamp from whole milliseconds, saturating at the largest
    /// representable timestamp.
    pub fn from_millis(millis: u64) -> (t: Timestamp)
        ensures
            t.spec_nanos() == if millis * 1_000_000 <= u64::MAX {
                millis * 1_000_000
            } else {
                u64::MAX as int
            },
    {
        match millis.checked_mul(1_000_000) {
            Some(nanos) => Timestamp { nanos },
            None => Timestamp { nanos: u64::MAX },
        }
    }

    /// Returns the whole nanoseconds of this timestamp.
    pub fn as_nanos(self) -> (n: u64)
        ensures
            n == self.spec_nanos(),
    {
        self.nanos
    }

    /// Adds a nanosecond offset, returning `None` on overflow.
    pub fn checked_add(self, nanos: u64) -> (r: Option<Timestamp>)
        ensures
            match r {
                Some(t) => t.spec_nanos() == self.spec_nanos() + nanos,
                None => self.spec_nanos() + nanos > u64::MAX,
            },
    {
        match self.nanos.checked_add(nanos) {
            Some(n) => Some(Timestamp { nanos: n }),
            None => None,
        }
    }
}

} // verus!
