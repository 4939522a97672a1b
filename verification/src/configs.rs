//! Build-time constants of the simulation.
//!
//! Coordinates are kept on an integer grid of sub-units: [`SCALE`] sub-units
//! make one world unit.  All speeds, bounds and distances below are stated in
//! sub-units, so the per-tick updates stay in exact integer arithmetic.

use vstd::prelude::*;

verus! {

/// Sub-units of the coordinate grid per world unit.
pub const SCALE: i64 = 1000;

/// Player translation per held movement key and tick (8 world units).
pub const SPEED_PLAYER: i64 = 8 * SCALE;

/// Window width in sub-units (600 world units).
pub const WINDOW_WIDTH: i64 = 600 * SCALE;

/// Window height in sub-units (800 world units).
pub const WINDOW_HEIGHT: i64 = 800 * SCALE;

/// Margin kept between the window edge and the reachable play field.
pub const PADDING_BOUNDS: i64 = 80 * SCALE;

/// Half-extent of the play field along x, half of
/// WINDOW_WIDTH - PADDING_BOUNDS: the player's x stays in
/// [-HALF_BOUNDS_X, HALF_BOUNDS_X].
pub const HALF_BOUNDS_X: i64 = 260 * SCALE;

/// Half-extent of the play field along y, half of
/// WINDOW_HEIGHT - PADDING_BOUNDS.
pub const HALF_BOUNDS_Y: i64 = 360 * SCALE;

/// Minimum time between two shots, in milliseconds (0.1 s).
pub const BULLET_SPAWN_INTERVAL_MS: u64 = 100;

/// Bullet translation per tick along its unit travel direction
/// (10 world units).
pub const BULLET_SPEED: i64 = 10 * SCALE;

/// Distance ahead of the player at which a bullet spawns (40 world units),
/// so a fresh bullet does not overlap the ship.
pub const BULLET_STANDOFF: i64 = 40 * SCALE;

/// A bullet is destroyed once the ceiling of its distance from its spawn
/// point, in world units, reaches BULLET_RANGE / SCALE (150 world units).
pub const BULLET_RANGE: i64 = 150 * SCALE;

/// Strict sub-unit cutoff equivalent to the ceiling comparison: for a real
/// distance d in sub-units, ceil(d / SCALE) >= BULLET_RANGE / SCALE holds
/// exactly when d > BULLET_RANGE - SCALE.
pub const BULLET_RANGE_CUTOFF: i64 = BULLET_RANGE - SCALE;

/// A bullet advances at least BULLET_SPEED - 3 sub-units of straight-line
/// distance per tick, so it is expired after this many advances at the
/// latest: the ceiling of BULLET_RANGE / BULLET_SPEED.
pub const MAX_FLIGHT_TICKS: i64 = 15;

/// A direction rescaled to BULLET_SPEED keeps a squared length of at least
/// this, whatever its orientation: 9997 squared, since the sub-unit
/// rounding of the rescaling loses less than three sub-units of the speed.
pub const MIN_STEP_SQ: i64 = 99_940_009;

/// Largest pointer coordinate magnitude the simulation accepts, in
/// sub-units.  Keeps every intermediate product inside i64.
pub const CURSOR_LIMIT: i64 = 1_000_000_000;

/// Bound on the components of any stored facing or travel direction:
/// a direction is a pointer position minus a player position.
pub const DIR_LIMIT: i64 = CURSOR_LIMIT + HALF_BOUNDS_Y;

/// How far from its spawn point a live bullet can stand along one axis: it
/// survives despawn only within BULLET_RANGE_CUTOFF and then advances once.
pub const BULLET_TRAVEL_LIMIT: i64 = BULLET_RANGE_CUTOFF + BULLET_SPEED;

/// Bound on the components of a bullet spawn position: the player position
/// plus the standoff offset.
pub const ORIGIN_LIMIT: i64 = HALF_BOUNDS_Y + BULLET_STANDOFF;

} // verus!
