//! Turning g-code commands into motions.
pub mod translator;

pub use translator::{Action, CoordinateMode, Direction, Mnemonic, Modes, Units};
