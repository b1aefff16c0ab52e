//! The hardware abstraction layer: the traits and small types that the
//! systems of the motion controller are written against.
pub mod automation;
pub mod axes;
pub mod clock;
pub mod messaging;
pub mod system;

pub use messaging::Handler;
pub use system::System;
