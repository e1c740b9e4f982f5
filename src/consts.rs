use vstd::prelude::*;

verus! {

// Lengths are in micro-units (a millionth of a screen unit), times in
// microseconds, speeds in micro-units per microsecond (equal to units per second).

pub const HALF_WIDTH: i64 = 300_000_000;
pub const HALF_HEIGHT: i64 = 400_000_000;

pub const PLAYER_SPEED: i64 = 400;
pub const PLAYER_RADIUS: i64 = 15_000_000;
pub const PLAYER_START_X: i64 = 0;
pub const PLAYER_START_Y: i64 = -320_000_000;

pub const BULLET_SPEED: i64 = 900;
pub const BULLET_HALF_W: i64 = 3_000_000;
pub const BULLET_HALF_H: i64 = 8_000_000;
pub const FIRE_COOLDOWN_US: u64 = 120_000;

pub const ENEMY_HALF_W: i64 = 14_000_000;
pub const ENEMY_HALF_H: i64 = 10_000_000;
pub const ENEMY_SPEED: i64 = 180;
pub const ENEMY_SPAWN_US: u64 = 800_000;
pub const WAVE_SIZE: usize = 5;
/// Distance kept between the outermost enemies of a wave and the side edges:
/// four fifths of an enemy's half-width.
pub const WAVE_MARGIN: i64 = 11_200_000;

pub const ENEMY_FIRE_COOLDOWN_US: u64 = 1_200_000;
pub const ENEMY_BULLET_SPEED: i64 = 420;
pub const ENEMY_BULLET_HALF_W: i64 = 3_000_000;
pub const ENEMY_BULLET_HALF_H: i64 = 7_000_000;

pub const PATTERN_AMPLITUDE: u32 = 120_000_000;
pub const PATTERN_PERIOD_US: u64 = 1_600_000;

/// Gap between a shooter's body and the bullet it fires.
pub const MUZZLE_GAP: i64 = 2_000_000;

} // verus!
