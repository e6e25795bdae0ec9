//! Points in time and durations on a game's own timeline.
use vstd::prelude::*;

verus! {

/// Nanoseconds in a second.
pub const NANOS_PER_SEC: u128 = 1_000_000_000;

/// Nanoseconds in a millisecond.
pub const NANOS_PER_MILLI: u128 = 1_000_000;

/// A span of time with nanosecond resolution, also used for the point in time
/// that lies this long after the start of a game.
#[derive(PartialEq, Eq, Structural, PartialOrd, Ord, Hash, Clone, Copy, Debug, Default)]
pub struct InGameTime {
    /// Whole seconds.
    pub secs: u64,
    /// The part below a second, in nanoseconds.
    pub subsec_nanos: u32,
}

/// The number of nanoseconds in the longest representable span.
pub open spec fn max_nanos() -> nat {
    (u64::MAX * NANOS_PER_SEC + NANOS_PER_SEC - 1) as nat
}

impl InGameTime {
    /// The longest representable span.
    pub open spec fn longest() -> InGameTime {
        InGameTime { secs: u64::MAX, subsec_nanos: 999_999_999 }
    }

    /// No time at all.
    pub fn zero() -> (t: InGameTime)
        ensures
            t.wf(),
            t.nanos() == 0,
    {
        InGameTime { secs: 0, subsec_nanos: 0 }
    }

    /// The longest representable span.
    pub fn max() -> (t: InGameTime)
        ensures
            t.wf(),
            t == InGameTime::longest(),
            t.nanos() == max_nanos(),
    {
        InGameTime { secs: u64::MAX, subsec_nanos: 999_999_999 }
    }

    /// The part below a second is really below a second.
    pub open spec fn wf(self) -> bool {
        self.subsec_nanos < NANOS_PER_SEC
    }

    /// The whole span in nanoseconds.
    pub open spec fn nanos(self) -> nat {
        (self.secs * NANOS_PER_SEC + self.subsec_nanos) as nat
    }

    /// The whole milliseconds in the span.
    pub open spec fn millis(self) -> nat {
        self.nanos() / NANOS_PER_MILLI as nat
    }

    /// Whether the span is a whole number of milliseconds.
    pub open spec fn is_whole_millis(self) -> bool {
        self.nanos() % NANOS_PER_MILLI as nat == 0
    }

    /// The span of a whole number of milliseconds.
    pub fn from_millis(millis: u64) -> (t: InGameTime)
        ensures
            t.wf(),
            t.nanos() == millis * NANOS_PER_MILLI,
    {
        InGameTime { secs: millis / 1_000, subsec_nanos: (millis % 1_000) as u32 * 1_000_000 }
    }

    /// The span of a given number of nanoseconds.
    pub fn from_nanos(nanos: u128) -> (t: InGameTime)
        requires
            nanos <= max_nanos(),
        ensures
            t.wf(),
            t.nanos() == nanos,
    {
        InGameTime {
            secs: (nanos / NANOS_PER_SEC) as u64,
            subsec_nanos: (nanos % NANOS_PER_SEC) as u32,
        }
    }

    /// The whole span in nanoseconds.
    pub fn as_nanos(self) -> (n: u128)
        ensures
            n == self.nanos(),
    {
        self.secs as u128 * NANOS_PER_SEC + self.subsec_nanos as u128
    }

    /// The whole milliseconds in the span.
    pub fn as_millis(self) -> (n: u128)
        ensures
            n == self.millis(),
    {
        self.as_nanos() / NANOS_PER_MILLI
    }

    /// Whether the span is empty.
    pub fn is_zero(self) -> (b: bool)
        ensures
            b == (self.nanos() == 0),
    {
        self.secs == 0 && self.subsec_nanos == 0
    }

    /// The difference, or no time where it would be negative.
    pub fn saturating_sub(self, other: InGameTime) -> (t: InGameTime)
        requires
            self.wf(),
            other.wf(),
        ensures
            t.wf(),
            t.nanos() == if self.nanos() >= other.nanos() {
                (self.nanos() - other.nanos()) as nat
            } else {
                0
            },
    {
        let a: u128 = self.as_nanos();
        let b: u128 = other.as_nanos();
        if a >= b {
            InGameTime::from_nanos(a - b)
        } else {
            InGameTime::zero()
        }
    }

    /// The sum, or the longest representable span where it would be longer.
    pub fn saturating_add(self, other: InGameTime) -> (t: InGameTime)
        requires
            self.wf(),
            other.wf(),
        ensures
            t.wf(),
            t.nanos() == if self.nanos() + other.nanos() <= max_nanos() {
                self.nanos() + other.nanos()
            } else {
                max_nanos()
            },
    {
        let sum: u128 = self.as_nanos() + other.as_nanos();
        if sum <= InGameTime::max().as_nanos() {
            InGameTime::from_nanos(sum)
        } else {
            InGameTime::max()
        }
    }

    /// Whether this comes strictly before `other`.
    pub fn before(self, other: InGameTime) -> (b: bool)
        requires
            self.wf(),
            other.wf(),
        ensures
            b == (self.nanos() < other.nanos()),
    {
        self.as_nanos() < other.as_nanos()
    }

    /// The later of two points in time.
    pub fn later(self, other: InGameTime) -> (t: InGameTime)
        requires
            self.wf(),
            other.wf(),
        ensures
            t == if self.nanos() < other.nanos() {
                other
            } else {
                self
            },
    {
        if self.before(other) {
            other
        } else {
            self
        }
    }
}

/// A well-formed time is determined by its nanoseconds.
pub proof fn lemma_time_by_nanos(a: InGameTime, b: InGameTime)
    requires
        a.wf(),
        b.wf(),
        a.nanos() == b.nanos(),
    ensures
        a == b,
{
}

/// A span that may be infinite.
#[derive(PartialEq, Eq, Structural, PartialOrd, Ord, Hash, Clone, Copy, Debug)]
pub enum ExtDuration {
    /// A finite span.
    Finite(InGameTime),
    /// An infinite span.
    Infinite,
}

impl ExtDuration {
    /// A finite span is well-formed.
    pub open spec fn wf(self) -> bool {
        match self {
            ExtDuration::Finite(t) => t.wf(),
            ExtDuration::Infinite => true,
        }
    }

    /// The finite span, or the longest representable one.
    pub open spec fn saturated(self) -> InGameTime {
        match self {
            ExtDuration::Finite(t) => t,
            ExtDuration::Infinite => InGameTime::longest(),
        }
    }

    /// The finite span, or the longest representable one.
    pub fn saturating_duration(self) -> (t: InGameTime)
        ensures
            t == self.saturated(),
    {
        match self {
            ExtDuration::Finite(t) => t,
            ExtDuration::Infinite => InGameTime::max(),
        }
    }
}

} // verus!
