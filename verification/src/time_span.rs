//! `TimeSpan`: a span of time counted in whole nanoseconds, bounded by the
//! largest span `std::time::Duration` can hold. Every duration of the
//! library (delays, ages, deadlines, readings of a monotonic clock) is one.

use vstd::prelude::*;

verus! {

/// Nanoseconds in one second.
pub const NANOS_PER_SEC: u128 = 1_000_000_000;

/// Nanoseconds in one millisecond.
pub const NANOS_PER_MILLI: u128 = 1_000_000;

/// The largest span, in nanoseconds: `u64::MAX` seconds plus
/// 999_999_999 nanoseconds, the same bound as `std::time::Duration::MAX`.
pub const MAX_NANOS: u128 = 18_446_744_073_709_551_615_999_999_999;

/// A non-negative span of time with nanosecond resolution.
#[derive(Debug, Clone, Copy, PartialEq, Eq, Structural, PartialOrd, Ord, Hash, Default)]
pub struct TimeSpan {
    nanos: u128,
}

impl View for TimeSpan {
    type V = nat;

    /// The span's length in nanoseconds.
    closed spec fn view(&self) -> nat {
        self.nanos as nat
    }
}

/// `ms` milliseconds, in nanoseconds.
pub open spec fn millis_nanos(ms: int) -> int {
    ms * 1_000_000
}

impl TimeSpan {
    #[verifier::type_invariant]
    spec fn bounded(self) -> bool {
        self.nanos <= MAX_NANOS
    }

    /// The empty span.
    pub fn zero() -> (r: TimeSpan)
        ensures
            r@ == 0,
    {
        TimeSpan { nanos: 0 }
    }

    /// The span of `nanos` nanoseconds.
    pub fn from_nanos(nanos: u64) -> (r: TimeSpan)
        ensures
            r@ == nanos,
    {
        TimeSpan { nanos: nanos as u128 }
    }

    /// The span of `ms` milliseconds.
    pub fn from_millis(ms: u64) -> (r: TimeSpan)
        ensures
            r@ == millis_nanos(ms as int),
    {
        TimeSpan { nanos: (ms as u128) * NANOS_PER_MILLI }
    }

    /// The span of `secs` seconds.
    pub fn from_secs(secs: u64) -> (r: TimeSpan)
        ensures
            r@ == secs * 1_000_000_000,
    {
        TimeSpan { nanos: (secs as u128) * NANOS_PER_SEC }
    }

    /// The span of `secs` seconds and `subsec_nanos` nanoseconds, where
    /// `subsec_nanos` is below one second (the form `Duration` splits a
    /// span into).
    pub fn new(secs: u64, subsec_nanos: u32) -> (r: TimeSpan)
        requires
            subsec_nanos < 1_000_000_000,
        ensures
            r@ == secs * 1_000_000_000 + subsec_nanos,
    {
        TimeSpan { nanos: (secs as u128) * NANOS_PER_SEC + subsec_nanos as u128 }
    }

    /// The span of `nanos` nanoseconds, or `None` when it exceeds
    /// [`MAX_NANOS`].
    pub fn checked_from_nanos(nanos: u128) -> (r: Option<TimeSpan>)
        ensures
            r is Some <==> nanos <= MAX_NANOS,
            r matches Some(s) ==> s@ == nanos,
    {
        if nanos <= MAX_NANOS {
            Some(TimeSpan { nanos })
        } else {
            None
        }
    }

    /// Length in nanoseconds.
    pub fn as_nanos(&self) -> (r: u128)
        ensures
            r == self@,
            r <= MAX_NANOS,
    {
        proof {
            use_type_invariant(self);
        }
        self.nanos
    }

    /// Length in whole milliseconds (rounded down).
    pub fn as_millis(&self) -> (r: u128)
        ensures
            r == self@ / 1_000_000,
    {
        self.nanos / NANOS_PER_MILLI
    }

    /// Whole seconds of the span.
    pub fn as_secs(&self) -> (r: u64)
        ensures
            r == self@ / 1_000_000_000,
    {
        proof {
            use_type_invariant(self);
        }
        (self.nanos / NANOS_PER_SEC) as u64
    }

    /// Nanoseconds past the whole seconds of the span.
    pub fn subsec_nanos(&self) -> (r: u32)
        ensures
            r == self@ % 1_000_000_000,
    {
        (self.nanos % NANOS_PER_SEC) as u32
    }

    /// Whether the span is empty.
    pub fn is_zero(&self) -> (r: bool)
        ensures
            r == (self@ == 0),
    {
        self.nanos == 0
    }

    /// The sum of two spans; the sum must not exceed [`MAX_NANOS`].
    pub fn add(self, other: TimeSpan) -> (r: TimeSpan)
        requires
            self@ + other@ <= MAX_NANOS,
        ensures
            r@ == self@ + other@,
    {
        proof {
            use_type_invariant(self);
            use_type_invariant(other);
        }
        TimeSpan { nanos: self.nanos + other.nanos }
    }

    /// The sum of two spans, or `None` when it exceeds [`MAX_NANOS`].
    pub fn checked_add(self, other: TimeSpan) -> (r: Option<TimeSpan>)
        ensures
            r is Some <==> self@ + other@ <= MAX_NANOS,
            r matches Some(s) ==> s@ == self@ + other@,
    {
        proof {
            use_type_invariant(self);
            use_type_invariant(other);
        }
        let sum = self.nanos + other.nanos;
        if sum <= MAX_NANOS {
            Some(TimeSpan { nanos: sum })
        } else {
            None
        }
    }

    /// The sum of two spans, capped at [`MAX_NANOS`].
    pub fn saturating_add(self, other: TimeSpan) -> (r: TimeSpan)
        ensures
            r@ == if self@ + other@ <= MAX_NANOS { self@ + other@ } else { MAX_NANOS as nat },
    {
        proof {
            use_type_invariant(self);
            use_type_invariant(other);
        }
        let sum = self.nanos + other.nanos;
        if sum <= MAX_NANOS {
            TimeSpan { nanos: sum }
        } else {
            TimeSpan { nanos: MAX_NANOS }
        }
    }

    /// `self - other`, or the empty span when `other` is the longer one.
    pub fn saturating_sub(self, other: TimeSpan) -> (r: TimeSpan)
        ensures
            r@ == if self@ >= other@ { self@ - other@ } else { 0 },
    {
        proof {
            use_type_invariant(self);
        }
        if self.nanos >= other.nanos {
            TimeSpan { nanos: self.nanos - other.nanos }
        } else {
            TimeSpan { nanos: 0 }
        }
    }

    /// The shorter of two spans.
    pub fn min(self, other: TimeSpan) -> (r: TimeSpan)
        ensures
            r@ == if self@ <= other@ { self@ } else { other@ },
    {
        if self.nanos <= other.nanos {
            self
        } else {
            other
        }
    }

    /// The longer of two spans.
    pub fn max(self, other: TimeSpan) -> (r: TimeSpan)
        ensures
            r@ == if self@ >= other@ { self@ } else { other@ },
    {
        if self.nanos >= other.nanos {
            self
        } else {
            other
        }
    }

    /// `self` restricted to `[lo, hi]`; `lo` must not exceed `hi`.
    pub fn clamp(self, lo: TimeSpan, hi: TimeSpan) -> (r: TimeSpan)
        requires
            lo@ <= hi@,
        ensures
            r@ == if self@ < lo@ { lo@ } else if self@ > hi@ { hi@ } else { self@ },
    {
        if self.nanos < lo.nanos {
            lo
        } else if self.nanos > hi.nanos {
            hi
        } else {
            self
        }
    }
}

} // verus!
