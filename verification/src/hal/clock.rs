//! Sources of time.
use crate::time::Duration;
use vstd::prelude::*;

verus! {

/// A source of time.
pub trait Clock: Sync {
    /// The amount of time that has elapsed since some arbitrary point in time
    /// (e.g. when the program started).
    fn elapsed(&self) -> Duration;
}

/// Something which has a clock.
pub trait HasClock {
    /// The kind of clock it has.
    type Source: Clock;

    fn clock(&self) -> &Self::Source;
}

impl<C: Clock> HasClock for C {
    type Source = C;

    /// A clock is its own clock.
    fn clock(&self) -> (r: &C)
        ensures
            r == self,
    {
        self
    }
}

/// A [`Clock`] which always returns a pre-defined [`Duration`].
#[derive(Debug, Copy, Clone, PartialEq, Eq, Structural)]
pub struct DummyClock(pub Duration);

impl Clock for DummyClock {
    fn elapsed(&self) -> (r: Duration)
        ensures
            r == self.0,
    {
        self.0
    }
}

impl Default for DummyClock {
    /// A clock stuck at zero.
    fn default() -> (r: DummyClock)
        ensures
            r.0@ == 0,
    {
        DummyClock(Duration::zero())
    }
}

} // verus!
