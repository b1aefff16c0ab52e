//! Clocks for running the controller on a desktop operating system.
use crate::time::Duration;
use vstd::prelude::*;

verus! {

/// `std::time::Instant`: a reading of the operating system's monotonic
/// clock.
#[verifier::external_type_specification]
#[verifier::external_body]
pub struct ExInstant(std::time::Instant);

/// Calls `std::time::Instant::now`. Nothing is stated of the reading: it
/// depends on when the call is made.
#[verifier::external_body]
fn instant_now() -> (r: std::time::Instant) {
    std::time::Instant::now()
}

/// Calls `std::time::Instant::elapsed`, converting the result. Nothing is
/// stated of it: it depends on when the call is made.
#[verifier::external_body]
fn instant_elapsed(started: &std::time::Instant) -> (r: Duration) {
    Duration::from_total_nanos(started.elapsed().as_nanos())
}

/// A source of time.
pub trait Clock: Sync {
    /// The amount of time that has elapsed since some arbitrary point in time
    /// (e.g. when the program started).
    fn elapsed(&self) -> Duration;
}

/// A [`Clock`] which uses the operating system clock to track time.
#[derive(Debug, Copy, Clone)]
pub struct OsClock {
    started: std::time::Instant,
}

impl OsClock {
    /// A clock that counts from now.
    pub fn new() -> (r: OsClock) {
        OsClock::with_epoch(instant_now())
    }

    /// A clock that counts from `started`.
    pub fn with_epoch(started: std::time::Instant) -> (r: OsClock)
        ensures
            r.epoch() == started,
    {
        OsClock { started }
    }

    /// The instant the clock counts from.
    pub closed spec fn epoch(self) -> std::time::Instant {
        self.started
    }
}

impl Clock for OsClock {
    fn elapsed(&self) -> (r: Duration) {
        instant_elapsed(&self.started)
    }
}

impl Default for OsClock {
    fn default() -> (r: OsClock) {
        OsClock::new()
    }
}

/// A [`Clock`] which always returns a pre-defined [`Duration`].
#[derive(Debug, Copy, Clone, PartialEq, Eq, Structural)]
pub struct DummyClock(pub Duration);

impl Clock for DummyClock {
    fn elapsed(&self) -> (r: Duration)
        ensures
            r == self.0,
    {
        self.0
    }
}

} // verus!
