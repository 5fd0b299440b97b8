//! Fixed game constants.
//!
//! Every length, speed and factor is a fixed-point number held in thousandths:
//! `1_000` stands for one pixel, one pixel per second, or a factor of `1.0`.
//! Elapsed time is counted in whole microseconds.

use vstd::prelude::*;

verus! {

/// One whole unit of the fixed-point scale.
pub const UNIT: u32 = 1_000;

/// Width of the playing field.
pub const GAME_WIDTH: u32 = 576_000;

/// Height of the playing field. The field is centred on the origin, so its
/// bottom edge lies at `-GAME_HEIGHT / 2` and its top edge at `GAME_HEIGHT / 2`.
pub const GAME_HEIGHT: u32 = 324_000;

/// Collision group of everything that ends the attempt when touched.
pub const COLLISION_GROUP_GAME_OVER: u32 = 0b0010;

/// Collision group of the player.
pub const COLLISION_GROUP_PLAYER: u32 = 0b0100;

/// Collision group of the passable openings.
pub const COLLISION_GROUP_OPENING: u32 = 0b1000;

/// Vertical acceleration handed to the physics engine.
pub const GRAVITY: i64 = -1_080_000;

/// Upward velocity given to the player by a jump.
pub const JUMP_IMPULSE_VALUE: i64 = 300_000;

/// Speed factor at the start of every attempt.
pub const BASE_GAME_SPEED: u32 = 1_100;

/// Scroll speed at a speed factor of one.
pub const BASE_MOVE_SPEED: u32 = 94_000;

/// Factor by which the speed factor grows at every acceleration tick.
pub const ACCELERATION_FACTOR: u32 = 1_028;

/// Time between two acceleration ticks, in microseconds.
pub const MICROS_BETWEEN_ACCELERATION_TICK: u32 = 3_600_000;

} // verus!
