//! Timing and note-lifecycle core of a rhythm game.
//!
//! A chart of timed notes is promoted into live, travelling arrows by a
//! scheduler driven by a song clock; an integrator advances each arrow at
//! constant speed; a hit detector resolves arrows against fresh key presses
//! inside a tolerance window around a fixed target, and discards arrows that
//! overshoot the target.
//!
//! All coordinates are one-dimensional travel positions in milliunits, all
//! times are milliseconds of song time, and all speeds are milliunits per
//! millisecond, so every quantity is an exact integer.

pub mod consts;
pub mod types;
pub mod arrow;
pub mod session;
pub mod laws;
