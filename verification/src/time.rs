//! A span of time, as a count of nanoseconds.
//!
//! It holds what `core::time::Duration` holds, as plain values: up to
//! `u64::MAX` whole seconds plus a fraction of a second, with nanosecond
//! resolution.
use vstd::prelude::*;

verus! {

/// The number of nanoseconds in one second.
pub const NANOS_PER_SEC: u128 = 1_000_000_000;

/// The number of nanoseconds in one millisecond.
pub const NANOS_PER_MILLI: u128 = 1_000_000;

/// The longest representable span: `u64::MAX` seconds and 999,999,999
/// nanoseconds.
pub const MAX_NANOS: u128 = 18_446_744_073_709_551_615_999_999_999;

/// A span of time with nanosecond resolution.
#[derive(Debug, Copy, Clone, PartialEq, Eq, Hash, Structural)]
pub struct Duration {
    nanos: u128,
}

impl View for Duration {
    type V = nat;

    /// The span in nanoseconds.
    closed spec fn view(&self) -> nat {
        self.nanos as nat
    }
}

impl Duration {
    #[verifier::type_invariant]
    spec fn inv(self) -> bool {
        self.nanos <= MAX_NANOS
    }

    /// Durations of the same length are equal.
    pub proof fn lemma_view_injective(self, other: Duration)
        ensures
            self@ == other@ <==> self == other,
    {
    }

    /// A duration of `nanos` nanoseconds.
    pub fn from_total_nanos(nanos: u128) -> (r: Duration)
        requires
            nanos <= MAX_NANOS,
        ensures
            r@ == nanos,
    {
        Duration { nanos }
    }

    /// `secs` whole seconds plus `nanos` nanoseconds (which may be more than
    /// a second; the excess carries into the seconds). The total must not
    /// exceed [`MAX_NANOS`], as for `core::time::Duration::new`, which
    /// panics there.
    pub fn new(secs: u64, nanos: u32) -> (r: Duration)
        requires
            secs * NANOS_PER_SEC + nanos <= MAX_NANOS,
        ensures
            r@ == secs * NANOS_PER_SEC + nanos,
    {
        let total: u128 = secs as u128 * NANOS_PER_SEC + nanos as u128;
        Duration { nanos: total }
    }

    /// A zero-length duration.
    pub fn zero() -> (r: Duration)
        ensures
            r@ == 0,
    {
        Duration { nanos: 0 }
    }

    /// `secs` whole seconds.
    pub fn from_secs(secs: u64) -> (r: Duration)
        ensures
            r@ == secs * NANOS_PER_SEC,
    {
        let total: u128 = secs as u128 * NANOS_PER_SEC;
        Duration { nanos: total }
    }

    /// `millis` milliseconds.
    pub fn from_millis(millis: u64) -> (r: Duration)
        ensures
            r@ == millis * NANOS_PER_MILLI,
    {
        let total: u128 = millis as u128 * NANOS_PER_MILLI;
        Duration { nanos: total }
    }

    /// The whole seconds in this duration.
    pub fn as_secs(&self) -> (r: u64)
        ensures
            r == self@ / (NANOS_PER_SEC as nat),
    {
        proof {
            use_type_invariant(self);
        }
        (self.nanos / NANOS_PER_SEC) as u64
    }

    /// The fractional part of this duration, in nanoseconds.
    pub fn subsec_nanos(&self) -> (r: u32)
        ensures
            r == self@ % (NANOS_PER_SEC as nat),
    {
        (self.nanos % NANOS_PER_SEC) as u32
    }

    /// The whole duration in nanoseconds.
    pub fn as_nanos(&self) -> (r: u128)
        ensures
            r == self@,
    {
        self.nanos
    }

    /// The sum of two durations, or `None` when it is longer than
    /// [`MAX_NANOS`].
    pub fn checked_add(self, rhs: Duration) -> (r: Option<Duration>)
        ensures
            r is Some <==> self@ + rhs@ <= MAX_NANOS,
            r matches Some(d) ==> d@ == self@ + rhs@,
    {
        proof {
            use_type_invariant(self);
            use_type_invariant(rhs);
        }
        if self.nanos <= MAX_NANOS - rhs.nanos {
            Some(Duration { nanos: self.nanos + rhs.nanos })
        } else {
            None
        }
    }

    /// The sum of two durations, which must not be longer than
    /// [`MAX_NANOS`] (`core::time::Duration` panics there).
    pub fn add(self, rhs: Duration) -> (r: Duration)
        requires
            self@ + rhs@ <= MAX_NANOS,
        ensures
            r@ == self@ + rhs@,
    {
        Duration { nanos: self.nanos + rhs.nanos }
    }

    /// `self - rhs`, or `None` when `rhs` is the longer one.
    pub fn checked_sub(self, rhs: Duration) -> (r: Option<Duration>)
        ensures
            r is Some <==> rhs@ <= self@,
            r matches Some(d) ==> d@ == self@ - rhs@,
    {
        proof {
            use_type_invariant(self);
        }
        if rhs.nanos <= self.nanos {
            Some(Duration { nanos: self.nanos - rhs.nanos })
        } else {
            None
        }
    }

    /// `self - rhs`; `rhs` must not be the longer one
    /// (`core::time::Duration` panics there).
    pub fn sub(self, rhs: Duration) -> (r: Duration)
        requires
            rhs@ <= self@,
        ensures
            r@ == self@ - rhs@,
    {
        proof {
            use_type_invariant(self);
        }
        Duration { nanos: self.nanos - rhs.nanos }
    }

    /// The duration divided by `rhs`, rounded down to the nanosecond;
    /// `rhs` must not be zero.
    pub fn div(self, rhs: u32) -> (r: Duration)
        requires
            rhs > 0,
        ensures
            r@ == self@ / (rhs as nat),
    {
        proof {
            use_type_invariant(self);
            assert(self.nanos / (rhs as u128) <= self.nanos) by (nonlinear_arith)
                requires
                    rhs > 0,
            ;
        }
        Duration { nanos: self.nanos / (rhs as u128) }
    }
}

impl Default for Duration {
    fn default() -> (r: Duration)
        ensures
            r@ == 0,
    {
        Duration::zero()
    }
}

} // verus!
