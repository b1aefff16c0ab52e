//! A simulated 3D printer motion controller: the verified core.
//!
//! - [`hal`]: the traits the systems are written against, automation
//!   sequences, clocks and simple messages.
//! - [`comms`]: buffering bytes from the frontend, decoding packets and
//!   answering them.
//! - [`fps_counter`]: the rolling window of tick timings.
//! - [`motion`]: the g-code program messages and the meaning of g-code
//!   commands.
//! - [`sim`]: the computing parts of the browser simulator.
//! - [`packet`], [`wire`]: the trusted boundary to the `anpp` and `scroll`
//!   crates.
//! - [`time`], [`clock`]: spans of time and operating-system clocks.
pub mod clock;
pub mod comms;
pub mod fps_counter;
pub mod hal;
pub mod motion;
pub mod packet;
pub mod sim;
pub mod time;
pub mod wire;
