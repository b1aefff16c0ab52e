//! The top-level systems that make up the controller.
use vstd::prelude::*;

verus! {

/// A top-level component which will be polled at frequent intervals.
pub trait System<In: ?Sized, Out: ?Sized> {
    fn poll(&mut self, inputs: &In, outputs: &mut Out);
}

/// A placeholder used to show a [`System`] doesn't require an input or output.
#[derive(Debug, Copy, Clone, PartialEq, Eq, Structural)]
pub struct Ignored;

} // verus!
