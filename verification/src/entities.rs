//! Plain data records of everything the simulation moves around: tanks,
//! bullets, track marks, explosions and powerups, plus the two teams.

use vstd::prelude::*;

use crate::config::{EXPLOSION_LIFE, FIRE_COOLDOWN, MAX_HEALTH, TRACK_LIFE};
use crate::math::{in_box, Vec2, FULL_TURN};

verus! {

/// Every entity position stays inside this box; it leaves room under the
/// arithmetic limit for barrel, track and collision offsets.
pub const SIM_BOX: i64 = 900_000_000;

/// One of the two opposing sides.
#[derive(Clone, Copy, Debug, PartialEq, Eq, Structural)]
pub enum Team {
    Red,
    Blue,
}

/// The opposing team, as a spec-level mapping.
pub open spec fn spec_enemy(t: Team) -> Team {
    match t {
        Team::Red => Team::Blue,
        Team::Blue => Team::Red,
    }
}

impl Team {
    /// Index of the team in two-element tables: Red is 0, Blue is 1.
    pub fn index(self) -> (r: usize)
        ensures
            r == if self == Team::Red { 0int } else { 1int },
    {
        match self {
            Team::Red => 0,
            Team::Blue => 1,
        }
    }

    /// Display name of the team.
    pub fn name(self) -> (r: &'static str)
        ensures
            self == Team::Red ==> r@ == "Crimson"@,
            self == Team::Blue ==> r@ == "Azure"@,
    {
        match self {
            Team::Red => "Crimson",
            Team::Blue => "Azure",
        }
    }

    /// The opposing team.
    pub fn enemy(self) -> (r: Team)
        ensures
            r == spec_enemy(self),
    {
        match self {
            Team::Red => Team::Blue,
            Team::Blue => Team::Red,
        }
    }
}

/// Swapping sides twice leads back to the same team.
pub proof fn lemma_enemy_involution(t: Team)
    ensures
        spec_enemy(spec_enemy(t)) == t,
        spec_enemy(t) != t,
{
}

/// Tint of a cosmetic explosion puff.
#[derive(Clone, Copy, Debug, PartialEq, Eq, Structural)]
pub enum SmokeColor {
    Orange,
    Yellow,
    Grey,
    White,
}

/// What a powerup grants when picked up.
#[derive(Clone, Copy, Debug, PartialEq, Eq, Structural)]
pub enum PowerupKind {
    Invincible,
    RapidRange,
    Heal,
}

/// One vehicle, player- or AI-controlled.
#[derive(Clone, Copy, Debug, PartialEq, Eq, Structural)]
pub struct Tank {
    pub team: Team,
    pub pos: Vec2,
    pub body_angle: i64,
    pub turret_angle: i64,
    pub speed: i64,
    pub fire_cooldown: i64,
    pub alive: bool,
    pub respawn_timer: i64,
    pub waypoint: Vec2,
    pub track_distance: i64,
    pub tread_phase: i64,
    pub health: i64,
    pub max_health: i64,
    pub health_flash: i64,
    pub invincible_timer: i64,
    pub rapid_timer: i64,
}

/// Well-formedness of a tank: health within `[0, max_health]`, timers
/// non-negative, angles wrapped, and magnitudes small enough for the
/// engine's arithmetic.
pub open spec fn tank_wf(t: Tank) -> bool {
    &&& in_box(t.pos, SIM_BOX as int)
    &&& in_box(t.waypoint, SIM_BOX as int)
    &&& 0 <= t.body_angle < FULL_TURN
    &&& 0 <= t.turret_angle < FULL_TURN
    &&& 0 <= t.speed <= 200_000
    &&& 0 <= t.fire_cooldown <= 10_000_000
    &&& 0 <= t.respawn_timer
    &&& 0 <= t.health_flash
    &&& 0 <= t.invincible_timer
    &&& 0 <= t.rapid_timer
    &&& 0 < t.max_health <= 1_000_000
    &&& 0 <= t.health <= t.max_health
    &&& 0 <= t.track_distance <= 100_000_000
    &&& 0 <= t.tread_phase < 4_000_000
}

/// Speed factor of a tank, in percent: invincible tanks drive faster.
pub fn speed_multiplier(tank: &Tank) -> (r: i64)
    ensures
        r == if tank.invincible_timer > 0 { 115int } else { 100int },
{
    if tank.invincible_timer > 0 {
        115
    } else {
        100
    }
}

/// Fire-rate factor of a tank, in percent: rapid fire shortens the cooldown.
pub fn fire_rate_multiplier(tank: &Tank) -> (r: i64)
    ensures
        r == if tank.rapid_timer > 0 { 120int } else { 100int },
{
    if tank.rapid_timer > 0 {
        120
    } else {
        100
    }
}

/// Range factor of a tank: rapid fire doubles bullet lifetime and AI range.
pub fn range_multiplier(tank: &Tank) -> (r: i64)
    ensures
        r == if tank.rapid_timer > 0 { 2int } else { 1int },
{
    if tank.rapid_timer > 0 {
        2
    } else {
        1
    }
}

/// The cooldown a tank starts after firing: the base delay, shortened under
/// rapid fire.
pub open spec fn spec_cooldown_after_fire(t: Tank) -> int {
    if t.rapid_timer > 0 {
        FIRE_COOLDOWN * 100 / 120
    } else {
        FIRE_COOLDOWN as int
    }
}

/// One projectile in flight.
#[derive(Clone, Copy, Debug, PartialEq, Eq, Structural)]
pub struct Bullet {
    pub pos: Vec2,
    pub vel: Vec2,
    pub team: Team,
    pub life: i64,
}

/// Well-formedness of a bullet: bounded position, speed and lifetime.
pub open spec fn bullet_wf(b: Bullet) -> bool {
    &&& in_box(b.pos, SIM_BOX as int)
    &&& in_box(b.vel, 1_000_000)
    &&& 0 <= b.life <= 4_000_000
}

/// A cosmetic tread imprint left behind a moving tank.
#[derive(Clone, Copy, Debug, PartialEq, Eq, Structural)]
pub struct TrackMark {
    pub pos: Vec2,
    pub rotation: i64,
    pub age: i64,
}

/// Well-formedness of a track mark; marks older than their lifetime are
/// removed, so stored ages stay under it.
pub open spec fn track_wf(t: TrackMark) -> bool {
    &&& in_box(t.pos, SIM_BOX as int)
    &&& 0 <= t.rotation < FULL_TURN
    &&& 0 <= t.age <= TRACK_LIFE
}

/// A cosmetic explosion puff.
#[derive(Clone, Copy, Debug, PartialEq, Eq, Structural)]
pub struct Explosion {
    pub pos: Vec2,
    pub color: SmokeColor,
    pub age: i64,
}

/// Well-formedness of an explosion; expired explosions are removed, so
/// stored ages stay under the display lifetime.
pub open spec fn explosion_wf(e: Explosion) -> bool {
    &&& in_box(e.pos, SIM_BOX as int)
    &&& 0 <= e.age <= EXPLOSION_LIFE
}

/// A collectible effect lying on the field.
#[derive(Clone, Copy, Debug, PartialEq, Eq, Structural)]
pub struct Powerup {
    pub kind: PowerupKind,
    pub pos: Vec2,
    pub age: i64,
}

/// Well-formedness of a powerup.
pub open spec fn powerup_wf(p: Powerup) -> bool {
    &&& in_box(p.pos, SIM_BOX as int)
    &&& 0 <= p.age
}

/// A freshly spawned tank is at full health.
pub open spec fn tank_full_health(t: Tank) -> bool {
    t.health == t.max_health && t.max_health == MAX_HEALTH
}

/// Every tank in the sequence is well-formed.
pub open spec fn tanks_wf(s: Seq<Tank>) -> bool {
    forall|i: int| 0 <= i < s.len() ==> tank_wf(#[trigger] s[i])
}

/// Every bullet in the sequence is well-formed.
pub open spec fn bullets_wf(s: Seq<Bullet>) -> bool {
    forall|i: int| 0 <= i < s.len() ==> bullet_wf(#[trigger] s[i])
}

/// Every track mark in the sequence is well-formed.
pub open spec fn tracks_wf(s: Seq<TrackMark>) -> bool {
    forall|i: int| 0 <= i < s.len() ==> track_wf(#[trigger] s[i])
}

/// Every explosion in the sequence is well-formed.
pub open spec fn explosions_wf(s: Seq<Explosion>) -> bool {
    forall|i: int| 0 <= i < s.len() ==> explosion_wf(#[trigger] s[i])
}

/// Every powerup in the sequence is well-formed.
pub open spec fn powerups_wf(s: Seq<Powerup>) -> bool {
    forall|i: int| 0 <= i < s.len() ==> powerup_wf(#[trigger] s[i])
}

/// The two tanks agree on everything but position, accumulated track
/// distance and tread phase: what driving alone may change.
pub open spec fn tank_same_except_motion(a: Tank, b: Tank) -> bool {
    &&& b.team == a.team
    &&& b.body_angle == a.body_angle
    &&& b.turret_angle == a.turret_angle
    &&& b.speed == a.speed
    &&& b.fire_cooldown == a.fire_cooldown
    &&& b.alive == a.alive
    &&& b.respawn_timer == a.respawn_timer
    &&& b.waypoint == a.waypoint
    &&& b.health == a.health
    &&& b.max_health == a.max_health
    &&& b.health_flash == a.health_flash
    &&& b.invincible_timer == a.invincible_timer
    &&& b.rapid_timer == a.rapid_timer
}

/// The two tanks agree on everything that steering and firing cannot touch:
/// a control step never changes team, liveness, health or effect timers.
pub open spec fn tank_same_except_control(a: Tank, b: Tank) -> bool {
    &&& b.team == a.team
    &&& b.alive == a.alive
    &&& b.health == a.health
    &&& b.max_health == a.max_health
    &&& b.speed == a.speed
    &&& b.respawn_timer == a.respawn_timer
    &&& b.health_flash == a.health_flash
    &&& b.invincible_timer == a.invincible_timer
    &&& b.rapid_timer == a.rapid_timer
}

/// The two tanks agree on everything but position: what collision
/// resolution alone may change.
pub open spec fn tank_same_except_pos(a: Tank, b: Tank) -> bool {
    &&& tank_same_except_motion(a, b)
    &&& b.track_distance == a.track_distance
    &&& b.tread_phase == a.tread_phase
}

/// The two tanks agree on everything a bullet hit cannot touch: a hit only
/// changes health, the alive flag, and the health-flash and respawn timers.
pub open spec fn tank_same_except_damage(a: Tank, b: Tank) -> bool {
    &&& b.team == a.team
    &&& b.pos == a.pos
    &&& b.body_angle == a.body_angle
    &&& b.turret_angle == a.turret_angle
    &&& b.speed == a.speed
    &&& b.fire_cooldown == a.fire_cooldown
    &&& b.waypoint == a.waypoint
    &&& b.track_distance == a.track_distance
    &&& b.tread_phase == a.tread_phase
    &&& b.max_health == a.max_health
    &&& b.invincible_timer == a.invincible_timer
    &&& b.rapid_timer == a.rapid_timer
}

/// The two tanks agree on everything a powerup cannot touch: a pickup only
/// changes health and the effect and flash timers.
pub open spec fn tank_same_except_effects(a: Tank, b: Tank) -> bool {
    &&& b.team == a.team
    &&& b.pos == a.pos
    &&& b.body_angle == a.body_angle
    &&& b.turret_angle == a.turret_angle
    &&& b.speed == a.speed
    &&& b.fire_cooldown == a.fire_cooldown
    &&& b.alive == a.alive
    &&& b.respawn_timer == a.respawn_timer
    &&& b.waypoint == a.waypoint
    &&& b.track_distance == a.track_distance
    &&& b.tread_phase == a.tread_phase
    &&& b.max_health == a.max_health
}

} // verus!
