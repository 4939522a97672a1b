//! Core simulation of a small 2D arcade shooter.
//!
//! A player-controlled ship moves inside a bounded rectangle centred at the
//! origin, turns to face a pointer, and fires bullets that travel in a
//! straight line until they have flown a fixed distance from their spawn
//! point.  All coordinates live on an integer sub-unit grid (see
//! [`configs::SCALE`]), so every per-tick transform is exact integer
//! arithmetic with a proved contract.
//!
//! The engine-facing glue (windowing, rendering, asset loading, raw input
//! capture) is out of scope here: a driver samples the clock, keyboard and
//! pointer, and hands plain values to [`player::tick`] once per frame.

pub mod configs;
pub mod laws;
pub mod player;
pub mod vec2;
