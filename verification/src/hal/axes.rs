//! Drivers for the machine's axes.
use vstd::prelude::*;

verus! {

/// A driver which tracks the limit switch state.
pub trait Limits {
    fn limit_switches(&self, axis_number: usize) -> Option<LimitSwitchState>;
}

/// The state of a set of limit switches.
#[derive(Debug, Copy, Clone, PartialEq, Eq, Hash, Structural)]
pub struct LimitSwitchState {
    pub at_lower_limit: bool,
    pub at_upper_limit: bool,
}

impl Default for LimitSwitchState {
    /// Neither switch is pressed.
    fn default() -> (r: LimitSwitchState)
        ensures
            !r.at_lower_limit,
            !r.at_upper_limit,
    {
        LimitSwitchState { at_lower_limit: false, at_upper_limit: false }
    }
}

} // verus!
