//! Moments and spans of time.

use vstd::prelude::*;

verus! {

/// A span of time: whole seconds, and the nanoseconds that are left.
#[derive(Clone, Copy, Debug, PartialEq, Eq, Structural)]
pub struct TimeSpan {
    pub secs: u64,
    pub nanos: u32,
}

/// A moment, in nanoseconds of a clock that never goes back.
#[derive(Clone, Copy, Debug, PartialEq, Eq, Structural)]
pub struct Instant {
    pub nanos: u128,
}

/// A span as `{:?}` prints a `std::time::Duration` of that length.
pub uninterp spec fn span_text(secs: u64, nanos: u32) -> Seq<char>;

/// Prints a `std::time::Duration` with its `Debug`. `Duration::new` can panic
/// only where the nanoseconds make a further second.
#[verifier::external_body]
fn duration_text(secs: u64, nanos: u32) -> (r: String)
    requires
        nanos < 1_000_000_000,
    ensures
        r@ == span_text(secs, nanos),
{
    format!("{:?}", std::time::Duration::new(secs, nanos))
}

impl TimeSpan {
    /// The nanoseconds make no further second.
    pub open spec fn valid(self) -> bool {
        self.nanos < 1_000_000_000
    }

    /// The whole span in nanoseconds.
    pub open spec fn total(self) -> int {
        self.secs * 1_000_000_000 + self.nanos
    }

    /// The whole span in nanoseconds.
    pub fn as_nanos(&self) -> (r: u128)
        ensures
            r == self.total(),
    {
        self.secs as u128 * 1_000_000_000 + self.nanos as u128
    }

    /// The span in words, as logs show it.
    pub fn to_text(&self) -> (r: String)
        requires
            self.valid(),
        ensures
            r@ == span_text(self.secs, self.nanos),
    {
        duration_text(self.secs, self.nanos)
    }
}

impl Instant {
    /// The nanoseconds from this moment to `now`; none where `now` is earlier.
    pub open spec fn until(self, now: Instant) -> int {
        if now.nanos >= self.nanos {
            now.nanos - self.nanos
        } else {
            0
        }
    }

    /// The nanoseconds from this moment to `now`; none where `now` is earlier.
    pub fn elapsed(&self, now: Instant) -> (r: u128)
        ensures
            r == self.until(now),
    {
        if now.nanos >= self.nanos {
            now.nanos - self.nanos
        } else {
            0
        }
    }
}

} // verus!
