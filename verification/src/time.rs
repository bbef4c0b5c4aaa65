//! Lengths of time, counted in nanoseconds.

use vstd::prelude::*;

verus! {

pub const NANOS_PER_SECOND: u128 = 1_000_000_000;

pub const NANOS_PER_MILLISECOND: u128 = 1_000_000;

pub const NANOS_PER_MICROSECOND: u128 = 1_000;

/// The longest length of time, in nanoseconds.
pub const MAX_NANOS: u128 = 18_446_744_073_709_551_615_999_999_999;

/// A length of time, or a moment counted from the start of a run. Its whole seconds fit in 64
/// bits.
#[derive(Clone, Copy, Debug, Eq, PartialEq, Structural)]
pub struct Duration {
    nanos: u128,
}

impl DeepView for Duration {
    type V = Duration;

    open spec fn deep_view(&self) -> Duration {
        *self
    }
}

impl Duration {
    #[verifier::type_invariant]
    closed spec fn seconds_fit(self) -> bool {
        self.nanos <= MAX_NANOS
    }

    /// The number of nanoseconds.
    pub closed spec fn span(self) -> nat {
        self.nanos as nat
    }

    /// The length of a number of milliseconds.
    pub closed spec fn of_millis(milliseconds: u64) -> Duration {
        Duration { nanos: (milliseconds * NANOS_PER_MILLISECOND) as u128 }
    }

    /// The time that is left of this one after another, or none.
    pub closed spec fn less(self, other: Duration) -> Duration {
        if self.nanos >= other.nanos {
            Duration { nanos: (self.nanos - other.nanos) as u128 }
        } else {
            Duration { nanos: 0 }
        }
    }

    /// Lengths of time are the same where their nanoseconds are.
    pub proof fn lemma_same_span(self, other: Duration)
        requires
            self.span() == other.span(),
        ensures
            self == other,
    {
    }

    pub proof fn lemma_of_millis(milliseconds: u64)
        ensures
            Duration::of_millis(milliseconds).span() == milliseconds * NANOS_PER_MILLISECOND,
    {
    }

    pub proof fn lemma_less(self, other: Duration)
        ensures
            self.less(other).span() == (if self.span() >= other.span() {
                self.span() - other.span()
            } else {
                0
            }),
    {
    }

    /// No time at all.
    pub fn zero() -> (result: Duration)
        ensures
            result.span() == 0,
    {
        Duration { nanos: 0 }
    }

    pub fn from_secs(seconds: u64) -> (result: Duration)
        ensures
            result.span() == seconds * NANOS_PER_SECOND,
    {
        Duration { nanos: seconds as u128 * NANOS_PER_SECOND }
    }

    pub fn from_millis(milliseconds: u64) -> (result: Duration)
        ensures
            result == Duration::of_millis(milliseconds),
            result.span() == milliseconds * NANOS_PER_MILLISECOND,
    {
        Duration { nanos: milliseconds as u128 * NANOS_PER_MILLISECOND }
    }

    pub fn from_micros(microseconds: u64) -> (result: Duration)
        ensures
            result.span() == microseconds * NANOS_PER_MICROSECOND,
    {
        Duration { nanos: microseconds as u128 * NANOS_PER_MICROSECOND }
    }

    pub fn from_nanos(nanoseconds: u64) -> (result: Duration)
        ensures
            result.span() == nanoseconds,
    {
        Duration { nanos: nanoseconds as u128 }
    }

    pub fn as_nanos(self) -> (result: u128)
        ensures
            result == self.span(),
            result <= MAX_NANOS,
    {
        proof {
            use_type_invariant(&self);
        }
        self.nanos
    }

    pub fn is_zero(self) -> (result: bool)
        ensures
            result == (self.span() == 0),
    {
        self.nanos == 0
    }

    /// Whether this time is shorter, or this moment earlier, than another.
    pub fn is_before(self, other: Duration) -> (result: bool)
        ensures
            result == (self.span() < other.span()),
    {
        self.nanos < other.nanos
    }

    pub fn saturating_sub(self, other: Duration) -> (result: Duration)
        ensures
            result == self.less(other),
            result.span() == (if self.span() >= other.span() {
                self.span() - other.span()
            } else {
                0
            }),
    {
        proof {
            use_type_invariant(&self);
        }
        if self.nanos >= other.nanos {
            Duration { nanos: self.nanos - other.nanos }
        } else {
            Duration { nanos: 0 }
        }
    }
}

} // verus!
