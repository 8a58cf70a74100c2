//! Tuning constants of the simulation.
//!
//! Units: lengths in milli-pixels, times in microseconds, angles in
//! microradians, speeds in milli-pixels (or microradians) per second.

use vstd::prelude::*;

verus! {

/// Side of one map tile.
pub const TILE_SIZE: i64 = 128_000;

/// Map width, in tiles.
pub const MAP_WIDTH: i64 = 50;

/// Map height, in tiles.
pub const MAP_HEIGHT: i64 = 30;

/// Length of a round.
pub const ROUND_TIME: i64 = 120_000_000;

/// Pre-round countdown during which the world stands still.
pub const ROUND_COUNTDOWN: i64 = 3_000_000;

/// How long the post-deploy notice is displayed.
pub const PLAYER_INTRO_TIME: i64 = 2_500_000;

/// Tanks fielded by each team.
pub const TANKS_PER_TEAM: usize = 4;

/// Collision radius of a tank.
pub const TANK_RADIUS: i64 = 28_000;

/// Collision radius of a bullet.
pub const BULLET_RADIUS: i64 = 6_000;

/// Muzzle speed of a bullet.
pub const BULLET_SPEED: i64 = 520_000;

/// Base forward speed of a tank; per-tank speed varies around it.
pub const TANK_SPEED: i64 = 130_000;

/// Hull rotation rate.
pub const BODY_ROT_SPEED: i64 = 2_600_000;

/// Turret rotation rate.
pub const TURRET_ROT_SPEED: i64 = 3_400_000;

/// Delay between two shots of one tank.
pub const FIRE_COOLDOWN: i64 = 1_100_000;

/// Delay between death and redeployment.
pub const RESPAWN_TIME: i64 = 3_000_000;

/// How long a track mark stays on the ground.
pub const TRACK_LIFE: i64 = 8_000_000;

/// How long an explosion puff is displayed.
pub const EXPLOSION_LIFE: i64 = 480_000;

/// Distance from tank center to bullet spawn point along the turret.
pub const BARREL_LENGTH: i64 = 46_000;

/// A track mark is dropped each time a tank covers this distance.
pub const TRACK_STEP_DISTANCE: i64 = 40_000;

/// Track marks appear this far behind the tank center.
pub const TRACK_OFFSET: i64 = 18_000;

/// Beyond this distance the AI approaches its target.
pub const AI_TARGET_FAR: i64 = 260_000;

/// Under this distance the AI retreats from its target.
pub const AI_TARGET_NEAR: i64 = 180_000;

/// The AI fires only under this distance to the target.
pub const AI_FIRE_RANGE: i64 = 900_000;

/// The AI fires only when the turret is aligned within this angle.
pub const AI_FIRE_ANGLE: i64 = 220_000;

/// Full health of every tank.
pub const MAX_HEALTH: i64 = 100;

/// Health removed by one bullet hit.
pub const BULLET_DAMAGE: i64 = 34;

/// Base lifetime of a bullet.
pub const BULLET_LIFE: i64 = 1_800_000;

/// How long the hit flash is displayed after damage or healing.
pub const HEALTH_FLASH_TIME: i64 = 300_000;

/// Base delay between powerup spawn attempts.
pub const POWERUP_BASE_SPAWN: i64 = 9_000_000;

/// Lower clamp of the spawn delay.
pub const POWERUP_MIN_SPAWN: i64 = 4_000_000;

/// Upper clamp of the spawn delay.
pub const POWERUP_MAX_SPAWN: i64 = 14_000_000;

/// How long the invincibility and rapid-fire effects last.
pub const POWERUP_DURATION: i64 = 6_000_000;

/// At most this many powerups lie on the field at once.
pub const POWERUP_MAX_COUNT: usize = 3;

/// A tank picks a powerup up within `TANK_RADIUS + POWERUP_PICKUP_EXTRA`.
pub const POWERUP_PICKUP_EXTRA: i64 = 22_000;

/// Largest frame delta the simulation accepts.
pub const DT_MAX: i64 = 60_000_000;

} // verus!
