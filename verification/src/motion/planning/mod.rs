//! Motion planning.
use vstd::prelude::*;

verus! {

/// A single step of a planned motion.
#[derive(Debug, Copy, Clone, PartialEq, Eq, Structural)]
pub struct Step;

} // verus!
