//! Spans of time.

use vstd::prelude::*;

verus! {

pub const NANOS_PER_SEC: u32 = 1_000_000_000;

/// A span of time: whole seconds and a fraction of a second in nanoseconds.
#[derive(Clone, Copy, PartialEq, Eq, Structural, Debug)]
pub struct Duration {
    pub secs: u64,
    pub nanos: u32,
}

/// The text that `{:?}` gives for a `std::time::Duration` of the given seconds
/// and nanoseconds.
pub uninterp spec fn duration_debug(secs: u64, nanos: u32) -> Seq<char>;

impl Duration {
    /// The fraction is less than a second.
    pub open spec fn wf(self) -> bool {
        self.nanos < NANOS_PER_SEC
    }

    /// The span in nanoseconds.
    pub open spec fn total(self) -> nat {
        (self.secs * NANOS_PER_SEC + self.nanos) as nat
    }

    /// The longest span.
    pub open spec fn max_total() -> nat {
        (u64::MAX * NANOS_PER_SEC + NANOS_PER_SEC - 1) as nat
    }

    /// The empty span.
    pub fn zero() -> (r: Self)
        ensures
            r.wf(),
            r.total() == 0,
            r == (Duration { secs: 0, nanos: 0 }),
    {
        Duration { secs: 0, nanos: 0 }
    }

    /// The span of `secs` seconds.
    pub fn from_secs(secs: u64) -> (r: Self)
        ensures
            r.wf(),
            r.total() == secs * NANOS_PER_SEC,
    {
        Duration { secs, nanos: 0 }
    }

    /// The span of `millis` milliseconds.
    pub fn from_millis(millis: u64) -> (r: Self)
        ensures
            r.wf(),
            r.total() == millis * 1_000_000,
    {
        let rest: u64 = millis % 1000;
        Duration { secs: millis / 1000, nanos: (rest * 1_000_000) as u32 }
    }

    /// Whether the span is empty.
    pub fn is_zero(&self) -> (r: bool)
        ensures
            r == (self.total() == 0),
    {
        self.secs == 0 && self.nanos == 0
    }

    /// Whether `self` is longer than `other`.
    pub fn exceeds(&self, other: &Duration) -> (r: bool)
        requires
            self.wf(),
            other.wf(),
        ensures
            r == (self.total() > other.total()),
    {
        if self.secs != other.secs {
            self.secs > other.secs
        } else {
            self.nanos > other.nanos
        }
    }

    /// The sum of two spans, if it can be represented.
    pub fn checked_add(self, other: Duration) -> (r: Option<Duration>)
        requires
            self.wf(),
            other.wf(),
        ensures
            match r {
                Some(d) => d.wf() && d.total() == self.total() + other.total(),
                None => self.total() + other.total() > Duration::max_total(),
            },
    {
        let nanos: u32 = self.nanos + other.nanos;
        let carry: u64 = if nanos >= NANOS_PER_SEC {
            1
        } else {
            0
        };
        let nanos: u32 = if nanos >= NANOS_PER_SEC {
            nanos - NANOS_PER_SEC
        } else {
            nanos
        };
        if self.secs > u64::MAX - other.secs {
            return None;
        }
        let secs: u64 = self.secs + other.secs;
        if secs > u64::MAX - carry {
            return None;
        }
        Some(Duration { secs: secs + carry, nanos })
    }

    /// Formats the span through `<std::time::Duration as Debug>::fmt`, by
    /// `format!("{:?}", ..)`. The contract claims that the outcome depends on
    /// the seconds and nanoseconds alone.
    #[verifier::external_body]
    pub(crate) fn debug_text(&self) -> (r: String)
        requires
            self.wf(),
        ensures
            r@ == duration_debug(self.secs, self.nanos),
    {
        format!("{:?}", std::time::Duration::new(self.secs, self.nanos))
    }
}

/// A span has a billion nanoseconds for each of its seconds, and those of its fraction.
pub proof fn spans_are_counted_in_nanoseconds(d: Duration)
    ensures
        d.total() == d.secs * 1_000_000_000 + d.nanos,
        d.wf() <==> d.nanos < 1_000_000_000,
{
}

/// The longest span has the greatest number of seconds and all but one nanosecond of one
/// more.
pub proof fn longest_span_is_this()
    ensures
        Duration::max_total() == u64::MAX * 1_000_000_000 + 999_999_999,
{
}

} // verus!
