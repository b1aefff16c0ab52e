//! Motion control: the messages that carry g-code programs, and the
//! translation of g-code commands into motions.
pub mod gcode;
pub mod gcode_program;
pub mod motion;
pub mod movements;
pub mod planning;

pub use gcode_program::GcodeProgram;
pub use motion::{ControlMode, Motion, StartHomingSequence};
