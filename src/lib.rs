//! Verified core of a Breakout-style arcade game: circle-versus-rectangle
//! contact, ball motion and bounces, difficulty settings and the in-game
//! mode state machine.
//!
//! Lengths are integers in thousandths of a pixel and velocities are in
//! pixels per second, which is the same as thousandths of a pixel per
//! millisecond; a tick advances time by a whole number of milliseconds.
pub mod collider;
pub mod laws;
pub mod mode;
pub mod motion;
pub mod settings;
