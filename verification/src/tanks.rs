//! Per-tank frame logic: spawning and respawning, timers, the movement
//! rules shared by the player and the AI, and firing.

use vstd::prelude::*;

use crate::config::{
    AI_FIRE_ANGLE, AI_FIRE_RANGE, AI_TARGET_FAR, AI_TARGET_NEAR, BARREL_LENGTH, BODY_ROT_SPEED,
    BULLET_LIFE, BULLET_SPEED, DT_MAX, FIRE_COOLDOWN, MAX_HEALTH, TANKS_PER_TEAM, TANK_RADIUS,
    TANK_SPEED, TRACK_OFFSET, TRACK_STEP_DISTANCE, TURRET_ROT_SPEED,
};
use crate::entities::{
    bullet_wf, bullets_wf, range_multiplier, spec_cooldown_after_fire, spec_enemy,
    speed_multiplier, tank_full_health, tank_same_except_control, tank_same_except_motion,
    tank_same_except_pos, tank_wf, tanks_wf, track_wf, tracks_wf, Bullet, Tank, Team, TrackMark,
    SIM_BOX,
};
use crate::input::{input_wf, PlayerInput};
use crate::math::{
    angle_difference, clamp_to_box, dist2, in_box, isqrt, mul_div, push_outside_rect,
    rotate_towards, spec_angle_difference, spec_clamp_to_box, spec_dist2, spec_isqrt,
    spec_mul_div, spec_near, spec_rect_contains, spec_rotate_towards, spec_vec2_add,
    spec_vec2_angle, spec_vec2_from_angle, spec_vec2_normalize, spec_vec2_scale, spec_vec2_sub,
    timer_sub, vec2_add, vec2_angle, vec2_distance, vec2_from_angle, vec2_normalize, vec2_scale,
    vec2_sub, within, wrap_angle, Vec2, FULL_TURN, HALF_TURN, POS_LIMIT,
};
use crate::rng::{random_angle, rng_range};
use crate::world::{lemma_zones_disjoint, spec_zone_rect, world_wf, World, WORLD_H_MPX,
    WORLD_W_MPX};

verus! {

/// A frozen view of one tank, taken before any tank moves, so that AI
/// targeting does not depend on update order.
#[derive(Clone, Copy, Debug, PartialEq, Eq, Structural)]
pub struct TankSnapshot {
    pub team: Team,
    pub pos: Vec2,
    pub alive: bool,
}

/// Well-formedness of a snapshot entry.
pub open spec fn snapshot_wf(s: TankSnapshot) -> bool {
    in_box(s.pos, SIM_BOX as int)
}

/// Freezes team, position and liveness of every tank.
pub fn collect_snapshot(tanks: &Vec<Tank>) -> (r: Vec<TankSnapshot>)
    requires
        tanks_wf(tanks@),
    ensures
        r@.len() == tanks@.len(),
        forall|i: int| 0 <= i < r@.len() ==> {
            &&& (#[trigger] r@[i]).team == tanks@[i].team
            &&& r@[i].pos == tanks@[i].pos
            &&& r@[i].alive == tanks@[i].alive
            &&& snapshot_wf(r@[i])
        },
{
    let mut r: Vec<TankSnapshot> = Vec::new();
    let mut i: usize = 0;
    while i < tanks.len()
        invariant
            tanks_wf(tanks@),
            i <= tanks@.len(),
            r@.len() == i,
            forall|k: int| 0 <= k < r@.len() ==> {
                &&& (#[trigger] r@[k]).team == tanks@[k].team
                &&& r@[k].pos == tanks@[k].pos
                &&& r@[k].alive == tanks@[k].alive
                &&& snapshot_wf(r@[k])
            },
        decreases tanks@.len() - i,
    {
        let t = &tanks[i];
        r.push(TankSnapshot { team: t.team, pos: t.pos, alive: t.alive });
        i = i + 1;
    }
    r
}

/// The nearest living enemy of the snapshot and the squared distance to it,
/// the earliest entry winning ties; `None` and the sentinel `i64::MAX` when
/// no living enemy exists.
pub open spec fn spec_nearest_enemy(s: Seq<TankSnapshot>, team: Team, pos: Vec2)
    -> (Option<Vec2>, int)
    decreases s.len(),
{
    if s.len() == 0 {
        (None, i64::MAX as int)
    } else {
        let (prev, prev_d2) = spec_nearest_enemy(s.drop_last(), team, pos);
        let e = s.last();
        if e.alive && e.team != team && spec_dist2(pos, e.pos) < prev_d2 {
            (Some(e.pos), spec_dist2(pos, e.pos))
        } else {
            (prev, prev_d2)
        }
    }
}

/// Finds the nearest living enemy in the snapshot. Returns its position and
/// the squared distance to it, or `None` and `i64::MAX` when no living
/// enemy exists.
pub fn find_target_snapshot(snapshot: &Vec<TankSnapshot>, team: Team, pos: Vec2)
    -> (r: (Option<Vec2>, i64))
    requires
        forall|i: int| 0 <= i < snapshot@.len() ==> snapshot_wf(#[trigger] snapshot@[i]),
        in_box(pos, SIM_BOX as int),
    ensures
        (r.0, r.1 as int) == spec_nearest_enemy(snapshot@, team, pos),
        r.0 is None ==> r.1 == i64::MAX,
        match r.0 {
            Some(t) => {
                &&& exists|i: int| 0 <= i < snapshot@.len()
                    && (#[trigger] snapshot@[i]).alive
                    && snapshot@[i].team != team
                    && snapshot@[i].pos == t
                &&& r.1 == spec_dist2(pos, t)
                &&& forall|i: int| 0 <= i < snapshot@.len()
                    && (#[trigger] snapshot@[i]).alive
                    && snapshot@[i].team != team
                    ==> r.1 <= spec_dist2(pos, snapshot@[i].pos)
                &&& in_box(t, SIM_BOX as int)
            },
            None => forall|i: int| 0 <= i < snapshot@.len()
                ==> !((#[trigger] snapshot@[i]).alive && snapshot@[i].team != team),
        },
{
    let mut best: Option<Vec2> = None;
    let mut best_d2: i64 = i64::MAX;
    let mut i: usize = 0;
    while i < snapshot.len()
        invariant
            forall|k: int| 0 <= k < snapshot@.len() ==> snapshot_wf(#[trigger] snapshot@[k]),
            in_box(pos, SIM_BOX as int),
            i <= snapshot@.len(),
            (best, best_d2 as int) == spec_nearest_enemy(snapshot@.take(i as int), team, pos),
            match best {
                Some(t) => {
                    &&& exists|k: int| 0 <= k < i
                        && (#[trigger] snapshot@[k]).alive
                        && snapshot@[k].team != team
                        && snapshot@[k].pos == t
                    &&& best_d2 == spec_dist2(pos, t)
                    &&& forall|k: int| 0 <= k < i
                        && (#[trigger] snapshot@[k]).alive
                        && snapshot@[k].team != team
                        ==> best_d2 <= spec_dist2(pos, snapshot@[k].pos)
                    &&& in_box(t, SIM_BOX as int)
                },
                None => {
                    &&& best_d2 == i64::MAX
                    &&& forall|k: int| 0 <= k < i
                        ==> !((#[trigger] snapshot@[k]).alive && snapshot@[k].team != team)
                },
            },
        decreases snapshot@.len() - i,
    {
        let entry = snapshot[i];
        proof {
            assert(snapshot@.take(i as int + 1).drop_last() =~= snapshot@.take(i as int));
            assert(snapshot@.take(i as int + 1).last() == snapshot@[i as int]);
        }
        if entry.alive && !matches_team(entry.team, team) {
            let d2 = dist2(pos, entry.pos);
            if d2 < best_d2 {
                best_d2 = d2;
                best = Some(entry.pos);
            }
        }
        i = i + 1;
    }
    proof {
        assert(snapshot@.take(snapshot@.len() as int) =~= snapshot@);
    }
    (best, best_d2)
}

/// Whether two teams are the same.
fn matches_team(a: Team, b: Team) -> (r: bool)
    ensures
        r == (a == b),
{
    match (a, b) {
        (Team::Red, Team::Red) => true,
        (Team::Blue, Team::Blue) => true,
        _ => false,
    }
}

/// A tank as deployment leaves it: alive at full health, every timer
/// cleared, turret aligned with the hull, strictly inside its own spawn
/// zone, with a waypoint outside the enemy zone.
pub open spec fn tank_fresh(t: Tank) -> bool {
    &&& t.alive
    &&& tank_full_health(t)
    &&& t.respawn_timer == 0
    &&& t.health_flash == 0
    &&& t.invincible_timer == 0
    &&& t.rapid_timer == 0
    &&& t.turret_angle == t.body_angle
    &&& spec_zone_rect(t.team).x < t.pos.x < spec_zone_rect(t.team).x + spec_zone_rect(t.team).w
    &&& spec_zone_rect(t.team).y < t.pos.y < spec_zone_rect(t.team).y + spec_zone_rect(t.team).h
    &&& !spec_rect_contains(spec_zone_rect(spec_enemy(t.team)), t.waypoint)
}

/// Picks a wandering waypoint by rejection sampling: a uniformly random
/// point away from the map border, rejected while it lies in the enemy
/// zone; after forty misses, a point in the tank's own zone.
pub fn pick_waypoint(world: &World, team: Team, rng: &mut rand::rngs::SmallRng) -> (r: Vec2)
    requires
        world_wf(*world),
    ensures
        (153_600 <= r.x < WORLD_W_MPX - 153_600 && 153_600 <= r.y < WORLD_H_MPX - 153_600)
            || (spec_zone_rect(team).x < r.x < spec_zone_rect(team).x + spec_zone_rect(team).w
                && spec_zone_rect(team).y < r.y
                    < spec_zone_rect(team).y + spec_zone_rect(team).h),
        0 < r.x < WORLD_W_MPX,
        0 < r.y < WORLD_H_MPX,
        in_box(r, SIM_BOX as int),
        !spec_rect_contains(spec_zone_rect(spec_enemy(team)), r),
{
    // The margin is 1.2 tiles.
    let margin: i64 = 153_600;
    let mut tries: usize = 0;
    while tries < 40
        invariant
            world_wf(*world),
            margin == 153_600,
        decreases 40 - tries,
    {
        tries = tries + 1;
        let x = rng_range(rng, margin, WORLD_W_MPX - margin);
        let y = rng_range(rng, margin, WORLD_H_MPX - margin);
        let pos = Vec2 { x, y };
        if !world.is_inside_enemy_zone(team, pos) {
            return pos;
        }
    }
    let fallback = world.random_point_in_zone(team, rng);
    proof {
        lemma_zones_disjoint(fallback);
    }
    fallback
}

/// Deploys both squads: `TANKS_PER_TEAM` Red tanks, then as many Blue ones,
/// each alive at full health, strictly inside its own zone, with randomized
/// heading, speed, cooldown and animation phases.
pub fn spawn_tanks(rng: &mut rand::rngs::SmallRng, world: &World) -> (r: Vec<Tank>)
    requires
        world_wf(*world),
    ensures
        r@.len() == 2 * TANKS_PER_TEAM,
        tanks_wf(r@),
        forall|i: int| 0 <= i < r@.len() ==> {
            &&& (#[trigger] r@[i]).team == if i < TANKS_PER_TEAM { Team::Red } else { Team::Blue }
            &&& tank_fresh(r@[i])
            &&& spec_rect_contains(spec_zone_rect(r@[i].team), r@[i].pos)
        },
{
    let mut tanks: Vec<Tank> = Vec::new();
    let mut i: usize = 0;
    while i < TANKS_PER_TEAM
        invariant
            world_wf(*world),
            i <= TANKS_PER_TEAM,
            tanks@.len() == i,
            tanks_wf(tanks@),
            forall|k: int| 0 <= k < tanks@.len() ==> {
                &&& (#[trigger] tanks@[k]).team == Team::Red
                &&& tank_fresh(tanks@[k])
                &&& spec_rect_contains(spec_zone_rect(tanks@[k].team), tanks@[k].pos)
            },
        decreases TANKS_PER_TEAM - i,
    {
        let t = spawn_tank(rng, world, Team::Red);
        tanks.push(t);
        i = i + 1;
    }
    let mut j: usize = 0;
    while j < TANKS_PER_TEAM
        invariant
            world_wf(*world),
            j <= TANKS_PER_TEAM,
            tanks@.len() == TANKS_PER_TEAM + j,
            tanks_wf(tanks@),
            forall|k: int| 0 <= k < tanks@.len() ==> {
                &&& (#[trigger] tanks@[k]).team
                    == if k < TANKS_PER_TEAM { Team::Red } else { Team::Blue }
                &&& tank_fresh(tanks@[k])
                &&& spec_rect_contains(spec_zone_rect(tanks@[k].team), tanks@[k].pos)
            },
        decreases TANKS_PER_TEAM - j,
    {
        let t = spawn_tank(rng, world, Team::Blue);
        tanks.push(t);
        j = j + 1;
    }
    tanks
}

/// Builds one fresh tank of the given team.
fn spawn_tank(rng: &mut rand::rngs::SmallRng, world: &World, team: Team) -> (t: Tank)
    requires
        world_wf(*world),
    ensures
        tank_wf(t),
        t.team == team,
        tank_fresh(t),
        spec_rect_contains(spec_zone_rect(team), t.pos),
{
    let pos = world.random_point_in_zone(team, rng);
    let angle = random_angle(rng);
    Tank {
        team,
        pos,
        body_angle: angle,
        turret_angle: angle,
        speed: TANK_SPEED + rng_range(rng, -12_000, 14_000),
        fire_cooldown: rng_range(rng, 0, 800_000),
        alive: true,
        respawn_timer: 0,
        waypoint: pick_waypoint(world, team, rng),
        track_distance: rng_range(rng, 0, TRACK_STEP_DISTANCE),
        tread_phase: rng_range(rng, 0, 3_000),
        health: MAX_HEALTH,
        max_health: MAX_HEALTH,
        health_flash: 0,
        invincible_timer: 0,
        rapid_timer: 0,
    }
}

/// Brings a dead tank back: alive at full health, strictly inside its own
/// spawn zone, facing a random direction, on half the base cooldown, with
/// every effect timer cleared.
pub fn respawn_tank(tank: &mut Tank, world: &World, rng: &mut rand::rngs::SmallRng)
    requires
        tank_wf(*old(tank)),
        world_wf(*world),
    ensures
        tank_wf(*final(tank)),
        final(tank).alive,
        final(tank).health == final(tank).max_health,
        spec_zone_rect(old(tank).team).x + 51_200 <= final(tank).pos.x
            < spec_zone_rect(old(tank).team).x + spec_zone_rect(old(tank).team).w - 51_200,
        spec_zone_rect(old(tank).team).y + 51_200 <= final(tank).pos.y
            < spec_zone_rect(old(tank).team).y + spec_zone_rect(old(tank).team).h - 51_200,
        spec_zone_rect(old(tank).team).x < final(tank).pos.x
            < spec_zone_rect(old(tank).team).x + spec_zone_rect(old(tank).team).w,
        spec_zone_rect(old(tank).team).y < final(tank).pos.y
            < spec_zone_rect(old(tank).team).y + spec_zone_rect(old(tank).team).h,
        final(tank).team == old(tank).team,
        final(tank).max_health == old(tank).max_health,
        final(tank).speed == old(tank).speed,
        final(tank).waypoint == old(tank).waypoint,
        final(tank).fire_cooldown == FIRE_COOLDOWN / 2,
        final(tank).turret_angle == final(tank).body_angle,
        final(tank).health_flash == 0,
        final(tank).invincible_timer == 0,
        final(tank).rapid_timer == 0,
{
    tank.alive = true;
    tank.pos = world.random_point_in_zone(tank.team, rng);
    tank.body_angle = random_angle(rng);
    tank.turret_angle = tank.body_angle;
    tank.fire_cooldown = mul_div(FIRE_COOLDOWN, 1, 2);
    tank.health = tank.max_health;
    tank.health_flash = 0;
    tank.invincible_timer = 0;
    tank.rapid_timer = 0;
}

/// Steps the three effect timers of a tank toward zero.
pub fn update_tank_timers(tank: &mut Tank, dt: i64)
    requires
        tank_wf(*old(tank)),
        0 <= dt <= DT_MAX,
    ensures
        tank_wf(*final(tank)),
        final(tank).health_flash
            == if old(tank).health_flash - dt >= 0 { old(tank).health_flash - dt } else { 0 },
        final(tank).invincible_timer
            == if old(tank).invincible_timer - dt >= 0 {
                old(tank).invincible_timer - dt
            } else {
                0
            },
        final(tank).rapid_timer
            == if old(tank).rapid_timer - dt >= 0 { old(tank).rapid_timer - dt } else { 0 },
        *final(tank) == (Tank {
            health_flash: final(tank).health_flash,
            invincible_timer: final(tank).invincible_timer,
            rapid_timer: final(tank).rapid_timer,
            ..*old(tank)
        }),
{
    tank.health_flash = timer_sub(tank.health_flash, dt);
    tank.invincible_timer = timer_sub(tank.invincible_timer, dt);
    tank.rapid_timer = timer_sub(tank.rapid_timer, dt);
}

/// One obstacle blocks a disc of radius `radius` centered at `pos`.
pub open spec fn obstacle_blocks(o: crate::world::Obstacle, pos: Vec2, radius: int) -> bool {
    spec_near(pos, o.pos, o.radius + radius)
}

/// A disc of radius `radius` at `pos` may stand there: fully inside the
/// world, not inside the enemy spawn zone, and clear of every obstacle.
pub open spec fn spec_position_clear(w: World, team: Team, pos: Vec2, radius: int) -> bool {
    &&& radius <= pos.x && pos.x + radius <= WORLD_W_MPX
    &&& radius <= pos.y && pos.y + radius <= WORLD_H_MPX
    &&& !spec_rect_contains(spec_zone_rect(spec_enemy(team)), pos)
    &&& forall|i: int| 0 <= i < w.obstacles@.len()
        ==> !obstacle_blocks(#[trigger] w.obstacles@[i], pos, radius)
}

/// Decides `spec_position_clear`: may a disc of this radius stand at `pos`?
pub fn position_clear(world: &World, team: Team, pos: Vec2, radius: i64) -> (b: bool)
    requires
        world_wf(*world),
        in_box(pos, POS_LIMIT as int),
        0 <= radius <= 100_000,
    ensures
        b == spec_position_clear(*world, team, pos, radius as int),
{
    if pos.x < radius || pos.y < radius
        || pos.x > WORLD_W_MPX - radius || pos.y > WORLD_H_MPX - radius {
        return false;
    }
    if world.is_inside_enemy_zone(team, pos) {
        return false;
    }
    let mut i: usize = 0;
    while i < world.obstacles.len()
        invariant
            world_wf(*world),
            in_box(pos, POS_LIMIT as int),
            0 <= radius <= 100_000,
            i <= world.obstacles@.len(),
            forall|k: int| 0 <= k < i
                ==> !obstacle_blocks(#[trigger] world.obstacles@[k], pos, radius as int),
        decreases world.obstacles@.len() - i,
    {
        let obs = &world.obstacles[i];
        if within(pos, obs.pos, obs.radius + radius) {
            return false;
        }
        i = i + 1;
    }
    true
}

/// The bullet a tank in this state fires: spawned a barrel length ahead
/// along the turret, flying along the turret at the muzzle speed, living
/// twice as long under rapid fire.
pub open spec fn spec_bullet_from_tank(t: Tank) -> Bullet {
    let dir = spec_vec2_from_angle(t.turret_angle as int);
    Bullet {
        pos: spec_clamp_to_box(
            spec_vec2_add(t.pos, spec_vec2_scale(dir, BARREL_LENGTH as int, 1000)),
            SIM_BOX as int,
        ),
        vel: spec_vec2_scale(dir, BULLET_SPEED as int, 1000),
        team: t.team,
        life: (BULLET_LIFE * if t.rapid_timer > 0 { 2int } else { 1int }) as i64,
    }
}

/// The mark a tank in this state drops: offset backward along the hull
/// axis, rotated like the hull, fresh.
pub open spec fn spec_track_mark(t: Tank) -> TrackMark {
    let back = (t.body_angle + HALF_TURN) % (FULL_TURN as int);
    let dir = spec_vec2_from_angle(back);
    TrackMark {
        pos: spec_clamp_to_box(
            spec_vec2_add(t.pos, spec_vec2_scale(dir, TRACK_OFFSET as int, 1000)),
            SIM_BOX as int,
        ),
        rotation: t.body_angle,
        age: 0,
    }
}

/// Where one frame of throttle sends a tank: its position advanced along
/// the hull direction by its speed, the throttle factor (per-mille) and the
/// frame time.
pub open spec fn spec_move_destination(t: Tank, dt: int, factor_milli: int) -> Vec2 {
    let dir = spec_vec2_from_angle(t.body_angle as int);
    let step = spec_mul_div(t.speed as int, factor_milli, 1000);
    let move_len = spec_mul_div(step, dt, 1_000_000);
    spec_vec2_add(t.pos, spec_vec2_scale(dir, move_len, 1000))
}

/// How an accepted move to `new_pos` changes a tank and the mark list: the
/// position advances; the track accumulator grows by the covered distance
/// and, past the step threshold, resets and drops exactly one fresh mark;
/// the tread phase advances with the distance.
pub open spec fn spec_drove(a: Tank, b: Tank, new_pos: Vec2, tr_a: Seq<TrackMark>,
    tr_b: Seq<TrackMark>) -> bool {
    let d = spec_isqrt(spec_dist2(a.pos, new_pos));
    &&& tank_same_except_motion(a, b)
    &&& b.pos == new_pos
    &&& b.tread_phase == (a.tread_phase + d / 20) % 4_000_000
    &&& if a.track_distance + d > TRACK_STEP_DISTANCE {
        b.track_distance == 0 && tr_b == tr_a.push(spec_track_mark(b))
    } else {
        b.track_distance == a.track_distance + d && tr_b == tr_a
    }
}

/// Moves the tank to `new_pos` if that position is clear, updating track
/// bookkeeping and possibly dropping a mark; otherwise the move is rejected
/// wholesale and nothing changes.
pub fn try_move_tank(tank: &mut Tank, world: &World, new_pos: Vec2,
    new_tracks: &mut Vec<TrackMark>)
    requires
        tank_wf(*old(tank)),
        world_wf(*world),
        in_box(new_pos, POS_LIMIT as int),
        spec_dist2(old(tank).pos, new_pos) <= 2_500_000_000_000_000,
        tracks_wf(old(new_tracks)@),
    ensures
        tank_wf(*final(tank)),
        tracks_wf(final(new_tracks)@),
        tank_same_except_motion(*old(tank), *final(tank)),
        spec_position_clear(*world, old(tank).team, new_pos, TANK_RADIUS as int)
            ==> final(tank).pos == new_pos
                && spec_drove(*old(tank), *final(tank), new_pos, old(new_tracks)@,
                    final(new_tracks)@),
        !spec_position_clear(*world, old(tank).team, new_pos, TANK_RADIUS as int)
            ==> *final(tank) == *old(tank) && final(new_tracks)@ == old(new_tracks)@,
        final(tank).pos == new_pos || final(tank).pos == old(tank).pos,
        old(new_tracks)@.len() <= final(new_tracks)@.len() <= old(new_tracks)@.len() + 1,
        final(new_tracks)@.len() > old(new_tracks)@.len()
            ==> final(new_tracks)@.subrange(0, old(new_tracks)@.len() as int)
                == old(new_tracks)@,
        final(new_tracks)@.len() == old(new_tracks)@.len()
            ==> final(new_tracks)@ == old(new_tracks)@,
{
    if position_clear(world, tank.team, new_pos, TANK_RADIUS) {
        move_tank_with_tracks(tank, new_pos, new_tracks);
    }
}

/// Applies an accepted move: advances the position, accumulates track
/// distance and tread phase, and drops a mark each time the accumulated
/// distance passes the step distance.
fn move_tank_with_tracks(tank: &mut Tank, new_pos: Vec2, new_tracks: &mut Vec<TrackMark>)
    requires
        tank_wf(*old(tank)),
        in_box(new_pos, SIM_BOX as int),
        spec_dist2(old(tank).pos, new_pos) <= 2_500_000_000_000_000,
        tracks_wf(old(new_tracks)@),
    ensures
        tank_wf(*final(tank)),
        tracks_wf(final(new_tracks)@),
        tank_same_except_motion(*old(tank), *final(tank)),
        final(tank).pos == new_pos,
        spec_drove(*old(tank), *final(tank), new_pos, old(new_tracks)@, final(new_tracks)@),
        old(new_tracks)@.len() <= final(new_tracks)@.len() <= old(new_tracks)@.len() + 1,
        final(new_tracks)@.len() > old(new_tracks)@.len()
            ==> final(new_tracks)@.subrange(0, old(new_tracks)@.len() as int)
                == old(new_tracks)@,
        final(new_tracks)@.len() == old(new_tracks)@.len()
            ==> final(new_tracks)@ == old(new_tracks)@,
{
    let distance = vec2_distance(tank.pos, new_pos);
    proof {
        assert(distance <= 50_000_000) by (nonlinear_arith)
            requires
                0 <= distance,
                distance * distance <= 2_500_000_000_000_000i64;
    }
    tank.track_distance = tank.track_distance + distance;
    tank.tread_phase = ((tank.tread_phase as u64 + (distance as u64) / 20) % 4_000_000) as i64;
    tank.pos = new_pos;
    if tank.track_distance > TRACK_STEP_DISTANCE {
        tank.track_distance = 0;
        let mark = track_mark_for_tank(tank);
        new_tracks.push(mark);
        assert(final(new_tracks)@.subrange(0, old(new_tracks)@.len() as int)
            =~= old(new_tracks)@);
    }
}

/// The mark a tank leaves: offset backward along the hull axis, rotated
/// like the hull.
fn track_mark_for_tank(tank: &Tank) -> (m: TrackMark)
    requires
        tank_wf(*tank),
    ensures
        m == spec_track_mark(*tank),
        track_wf(m),
        m.rotation == tank.body_angle,
        m.age == 0,
{
    let back = wrap_angle(tank.body_angle + HALF_TURN);
    let dir = vec2_from_angle(back);
    let offset = vec2_scale(dir, TRACK_OFFSET, 1000);
    proof {
        lemma_div_trunc_sym_bound(dir.x as int, TRACK_OFFSET as int, 1000, 18_000_000);
        lemma_div_trunc_sym_bound(dir.y as int, TRACK_OFFSET as int, 1000, 18_000_000);
    }
    let pos = clamp_to_box(vec2_add(tank.pos, offset), SIM_BOX);
    TrackMark { pos, rotation: tank.body_angle, age: 0 }
}

/// `|a| <= m / d` holds of `a * b / d` whenever `|a * b| <= m`.
pub proof fn lemma_div_trunc_sym_bound(a: int, b: int, d: int, m: int)
    requires
        d > 0,
        m >= 0,
        -m <= a * b <= m,
    ensures
        -(m / d) <= spec_mul_div(a, b, d) <= m / d,
        a * b >= 0 ==> spec_mul_div(a, b, d) >= 0,
        a * b <= 0 ==> spec_mul_div(a, b, d) <= 0,
{
    let p = a * b;
    if p >= 0 {
        vstd::arithmetic::div_mod::lemma_div_is_ordered(p, m, d);
        vstd::arithmetic::div_mod::lemma_div_pos_is_pos(p, d);
        vstd::arithmetic::div_mod::lemma_div_pos_is_pos(m, d);
    } else {
        vstd::arithmetic::div_mod::lemma_div_is_ordered(-p, m, d);
        vstd::arithmetic::div_mod::lemma_div_pos_is_pos(-p, d);
        vstd::arithmetic::div_mod::lemma_div_pos_is_pos(m, d);
    }
}

/// Fires one bullet from the tank's barrel and resets its cooldown, which
/// rapid fire shortens.
pub fn fire_bullet(tank: &mut Tank, new_bullets: &mut Vec<Bullet>)
    requires
        tank_wf(*old(tank)),
        bullets_wf(old(new_bullets)@),
    ensures
        tank_wf(*final(tank)),
        bullets_wf(final(new_bullets)@),
        *final(tank) == (Tank { fire_cooldown: final(tank).fire_cooldown, ..*old(tank) }),
        final(tank).fire_cooldown == spec_cooldown_after_fire(*old(tank)),
        final(new_bullets)@.len() == old(new_bullets)@.len() + 1,
        final(new_bullets)@.subrange(0, old(new_bullets)@.len() as int) == old(new_bullets)@,
        final(new_bullets)@.last() == spec_bullet_from_tank(*old(tank)),
        final(new_bullets)@.last().team == old(tank).team,
        final(new_bullets)@.last().life
            == BULLET_LIFE * if old(tank).rapid_timer > 0 { 2int } else { 1int },
{
    let b = bullet_from_tank(tank);
    new_bullets.push(b);
    assert(final(new_bullets)@.subrange(0, old(new_bullets)@.len() as int)
        =~= old(new_bullets)@);
    if tank.rapid_timer > 0 {
        tank.fire_cooldown = mul_div(FIRE_COOLDOWN, 100, 120);
    } else {
        tank.fire_cooldown = FIRE_COOLDOWN;
    }
}

/// The bullet a tank fires: spawned a barrel length ahead of the turret,
/// flying along the turret at the muzzle speed, living longer under rapid
/// fire.
fn bullet_from_tank(tank: &Tank) -> (b: Bullet)
    requires
        tank_wf(*tank),
    ensures
        b == spec_bullet_from_tank(*tank),
        bullet_wf(b),
        b.team == tank.team,
        b.life == BULLET_LIFE * if tank.rapid_timer > 0 { 2int } else { 1int },
{
    let dir = vec2_from_angle(tank.turret_angle);
    let offset = vec2_scale(dir, BARREL_LENGTH, 1000);
    proof {
        lemma_div_trunc_sym_bound(dir.x as int, BARREL_LENGTH as int, 1000, 46_000_000);
        lemma_div_trunc_sym_bound(dir.y as int, BARREL_LENGTH as int, 1000, 46_000_000);
    }
    let pos = clamp_to_box(vec2_add(tank.pos, offset), SIM_BOX);
    let vel = vec2_scale(dir, BULLET_SPEED, 1000);
    proof {
        lemma_div_trunc_sym_bound(dir.x as int, BULLET_SPEED as int, 1000, 520_000_000);
        lemma_div_trunc_sym_bound(dir.y as int, BULLET_SPEED as int, 1000, 520_000_000);
    }
    let mult = range_multiplier(tank);
    Bullet { pos, vel, team: tank.team, life: BULLET_LIFE * mult }
}

/// Drives the tank forward along its hull heading, scaled by
/// `factor_milli` per-mille (negative values reverse), for one frame.
pub fn advance_tank(tank: &mut Tank, dt: i64, factor_milli: i64, world: &World,
    new_tracks: &mut Vec<TrackMark>)
    requires
        tank_wf(*old(tank)),
        world_wf(*world),
        0 <= dt <= DT_MAX,
        -1150 <= factor_milli <= 1150,
        tracks_wf(old(new_tracks)@),
    ensures
        tank_wf(*final(tank)),
        tracks_wf(final(new_tracks)@),
        tank_same_except_motion(*old(tank), *final(tank)),
        final(tank).pos == old(tank).pos
            || spec_position_clear(*world, old(tank).team, final(tank).pos, TANK_RADIUS as int),
        ({
            let dest = spec_move_destination(*old(tank), dt as int, factor_milli as int);
            &&& spec_position_clear(*world, old(tank).team, dest, TANK_RADIUS as int)
                ==> spec_drove(*old(tank), *final(tank), dest, old(new_tracks)@,
                    final(new_tracks)@)
            &&& !spec_position_clear(*world, old(tank).team, dest, TANK_RADIUS as int)
                ==> *final(tank) == *old(tank) && final(new_tracks)@ == old(new_tracks)@
        }),
        old(new_tracks)@.len() <= final(new_tracks)@.len() <= old(new_tracks)@.len() + 1,
        final(new_tracks)@.len() > old(new_tracks)@.len()
            ==> final(new_tracks)@.subrange(0, old(new_tracks)@.len() as int)
                == old(new_tracks)@,
        final(new_tracks)@.len() == old(new_tracks)@.len()
            ==> final(new_tracks)@ == old(new_tracks)@,
{
    let dir = vec2_from_angle(tank.body_angle);
    proof {
        assert(-230_000_000 <= tank.speed * factor_milli <= 230_000_000) by (nonlinear_arith)
            requires 0 <= tank.speed <= 200_000, -1150 <= factor_milli <= 1150;
    }
    let step = mul_div(tank.speed, factor_milli, 1000);
    proof {
        lemma_div_trunc_sym_bound(tank.speed as int, factor_milli as int, 1000, 230_000_000);
        assert(-13_800_000_000_000 <= step * dt <= 13_800_000_000_000) by (nonlinear_arith)
            requires -230_000 <= step <= 230_000, 0 <= dt <= 60_000_000;
    }
    let move_len = mul_div(step, dt, 1_000_000);
    proof {
        lemma_div_trunc_sym_bound(step as int, dt as int, 1_000_000, 13_800_000_000_000);
        assert(-13_800_000_000 <= dir.x * move_len <= 13_800_000_000) by (nonlinear_arith)
            requires -1000 <= dir.x <= 1000, -13_800_000 <= move_len <= 13_800_000;
        assert(-13_800_000_000 <= dir.y * move_len <= 13_800_000_000) by (nonlinear_arith)
            requires -1000 <= dir.y <= 1000, -13_800_000 <= move_len <= 13_800_000;
    }
    let delta = vec2_scale(dir, move_len, 1000);
    proof {
        lemma_div_trunc_sym_bound(dir.x as int, move_len as int, 1000, 13_800_000_000);
        lemma_div_trunc_sym_bound(dir.y as int, move_len as int, 1000, 13_800_000_000);
    }
    let new_pos = vec2_add(tank.pos, delta);
    proof {
        let ghost p = old(tank).pos;
        assert(spec_dist2(p, new_pos) <= 2_500_000_000_000_000) by (nonlinear_arith)
            requires
                new_pos.x == p.x + delta.x,
                new_pos.y == p.y + delta.y,
                -13_800_000 <= delta.x <= 13_800_000,
                -13_800_000 <= delta.y <= 13_800_000;
    }
    proof {
        assert(new_pos == spec_move_destination(*old(tank), dt as int, factor_milli as int));
    }
    try_move_tank(tank, world, new_pos, new_tracks);
}

/// The push one obstacle contributes to the steering: directed away from
/// it, scaled by penetration depth over the avoid radius; zero outside the
/// avoid radius or exactly on its center.
pub open spec fn spec_avoid_push(o: crate::world::Obstacle, pos: Vec2) -> Vec2 {
    let avoid = o.radius + 70_000;
    let d2 = spec_dist2(pos, o.pos);
    if d2 > 0 && d2 < avoid * avoid {
        let dist = spec_isqrt(d2);
        let unit = spec_vec2_normalize(spec_vec2_sub(pos, o.pos));
        spec_vec2_scale(unit, avoid - dist, avoid)
    } else {
        Vec2 { x: 0, y: 0 }
    }
}

/// The obstacle pushes summed in list order.
pub open spec fn spec_avoidance_sum(obs: Seq<crate::world::Obstacle>, pos: Vec2) -> Vec2
    decreases obs.len(),
{
    if obs.len() == 0 {
        Vec2 { x: 0, y: 0 }
    } else {
        spec_vec2_add(
            spec_avoidance_sum(obs.drop_last(), pos),
            spec_avoid_push(obs.last(), pos),
        )
    }
}

/// The whole steering term: the summed obstacle pushes plus, inside the
/// enemy zone, a unit push away from that zone's center.
pub open spec fn spec_avoidance(w: World, team: Team, pos: Vec2) -> Vec2 {
    let steer = spec_avoidance_sum(w.obstacles@, pos);
    let zone = spec_zone_rect(spec_enemy(team));
    if spec_rect_contains(zone, pos) {
        let center = Vec2 { x: (zone.x + zone.w / 2) as i64, y: (zone.y + zone.h / 2) as i64 };
        spec_vec2_add(steer, spec_vec2_normalize(spec_vec2_sub(pos, center)))
    } else {
        steer
    }
}

/// The obstacle-avoidance and zone-escape steering term: a push away from
/// every obstacle within its avoid radius, scaled by penetration depth, plus
/// a push away from the enemy zone's center when standing inside it.
pub fn avoidance_vector(world: &World, team: Team, pos: Vec2) -> (r: Vec2)
    requires
        world_wf(*world),
        in_box(pos, SIM_BOX as int),
    ensures
        r == spec_avoidance(*world, team, pos),
        in_box(r, 201_000),
{
    let mut steer = Vec2 { x: 0, y: 0 };
    let mut i: usize = 0;
    while i < world.obstacles.len()
        invariant
            world_wf(*world),
            in_box(pos, SIM_BOX as int),
            i <= world.obstacles@.len(),
            in_box(steer, 1000 * i as int),
            steer == spec_avoidance_sum(world.obstacles@.take(i as int), pos),
        decreases world.obstacles@.len() - i,
    {
        proof {
            assert(world.obstacles@.take(i as int + 1).drop_last()
                =~= world.obstacles@.take(i as int));
            assert(world.obstacles@.take(i as int + 1).last() == world.obstacles@[i as int]);
        }
        let obs = &world.obstacles[i];
        let avoid: i64 = obs.radius + 70_000;
        let d2 = dist2(pos, obs.pos);
        if d2 > 0 && within(pos, obs.pos, avoid) {
            let dist = isqrt(d2);
            proof {
                assert(dist < avoid) by (nonlinear_arith)
                    requires
                        0 <= dist,
                        0 < avoid,
                        dist * dist <= d2,
                        d2 < avoid * avoid;
            }
            let away = vec2_sub(pos, obs.pos);
            let unit = vec2_normalize(away);
            proof {
                assert(-1000 * avoid <= unit.x * (avoid - dist) <= 1000 * avoid)
                    by (nonlinear_arith)
                    requires -1000 <= unit.x <= 1000, 0 <= avoid - dist <= avoid;
                assert(-1000 * avoid <= unit.y * (avoid - dist) <= 1000 * avoid)
                    by (nonlinear_arith)
                    requires -1000 <= unit.y <= 1000, 0 <= avoid - dist <= avoid;
                assert(1000 * (avoid as int) <= i64::MAX) by (nonlinear_arith)
                    requires avoid <= 130_000i64;
            }
            let push = vec2_scale(unit, avoid - dist, avoid);
            proof {
                lemma_div_trunc_sym_bound(
                    unit.x as int, (avoid - dist) as int, avoid as int, 1000 * avoid as int);
                lemma_div_trunc_sym_bound(
                    unit.y as int, (avoid - dist) as int, avoid as int, 1000 * avoid as int);
                vstd::arithmetic::div_mod::lemma_div_by_multiple(1000, avoid as int);
            }
            steer = vec2_add(steer, push);
        }
        i = i + 1;
    }
    proof {
        assert(world.obstacles@.take(world.obstacles@.len() as int) =~= world.obstacles@);
    }
    if world.is_inside_enemy_zone(team, pos) {
        let zone = world.zone_rect(team.enemy());
        let center = Vec2 { x: zone.x + mul_div(zone.w, 1, 2), y: zone.y + mul_div(zone.h, 1, 2) };
        let away = vec2_sub(pos, center);
        let unit = vec2_normalize(away);
        steer = vec2_add(steer, unit);
    }
    steer
}

/// The direction the AI wants to drive at a target: approach beyond the
/// far threshold, retreat under the near one, else strafe along the
/// left-hand perpendicular.
pub open spec fn spec_ai_desired(a: Tank, target: Vec2, d2: int) -> Vec2 {
    if d2 > AI_TARGET_FAR * AI_TARGET_FAR {
        spec_vec2_normalize(spec_vec2_sub(target, a.pos))
    } else if d2 < AI_TARGET_NEAR * AI_TARGET_NEAR {
        spec_vec2_normalize(spec_vec2_sub(a.pos, target))
    } else {
        spec_vec2_normalize(Vec2 {
            x: (-(target.y - a.pos.y)) as i64,
            y: (target.x - a.pos.x) as i64,
        })
    }
}

/// How one AI frame steers and moves the hull: the desired direction plus
/// the weighted avoidance term is normalized; when that steering vector is
/// long enough, the hull rotates toward its angle and the tank advances to
/// the frame's destination exactly when that spot is clear.
pub open spec fn spec_ai_movement(a: Tank, b: Tank, w: World, desired: Vec2, dt: int) -> bool {
    let steer = spec_vec2_normalize(spec_vec2_add(
        desired,
        spec_vec2_scale(spec_avoidance(w, a.team, a.pos), 1400, 1000),
    ));
    let body_step = spec_mul_div(BODY_ROT_SPEED as int, dt, 1_000_000);
    if spec_dist2(steer, Vec2 { x: 0, y: 0 }) > 10_000 {
        let body = spec_rotate_towards(a.body_angle as int, spec_vec2_angle(steer), body_step);
        let factor = (if a.invincible_timer > 0 { 115int } else { 100int }) * 10;
        let dest = spec_move_destination((Tank { body_angle: body as i64, ..a }), dt, factor);
        &&& b.body_angle == body
        &&& (spec_position_clear(w, a.team, dest, TANK_RADIUS as int) ==> b.pos == dest)
        &&& (!spec_position_clear(w, a.team, dest, TANK_RADIUS as int) ==> b.pos == a.pos)
    } else {
        b.body_angle == a.body_angle && b.pos == a.pos
    }
}

/// One frame of AI control: aim the turret at the nearest living enemy and
/// fire when lined up, steer to approach, retreat or strafe (or wander to a
/// waypoint when no enemy lives), avoid obstacles, and drive.
#[verifier::rlimit(50)]
pub fn update_ai_tank(tank: &mut Tank, dt: i64, world: &World, snapshot: &Vec<TankSnapshot>,
    rng: &mut rand::rngs::SmallRng, new_tracks: &mut Vec<TrackMark>,
    new_bullets: &mut Vec<Bullet>)
    requires
        tank_wf(*old(tank)),
        world_wf(*world),
        0 <= dt <= DT_MAX,
        forall|i: int| 0 <= i < snapshot@.len() ==> snapshot_wf(#[trigger] snapshot@[i]),
        tracks_wf(old(new_tracks)@),
        bullets_wf(old(new_bullets)@),
    ensures
        tank_wf(*final(tank)),
        tracks_wf(final(new_tracks)@),
        bullets_wf(final(new_bullets)@),
        tank_same_except_control(*old(tank), *final(tank)),
        final(tank).pos == old(tank).pos
            || spec_position_clear(*world, old(tank).team, final(tank).pos, TANK_RADIUS as int),
        old(new_bullets)@.len() <= final(new_bullets)@.len() <= old(new_bullets)@.len() + 1,
        final(new_bullets)@.subrange(0, old(new_bullets)@.len() as int) == old(new_bullets)@,
        final(new_bullets)@.len() > old(new_bullets)@.len() ==> {
            &&& old(tank).fire_cooldown == 0
            &&& final(new_bullets)@.last().team == old(tank).team
            &&& final(tank).fire_cooldown == spec_cooldown_after_fire(*old(tank))
            &&& exists|i: int| 0 <= i < snapshot@.len()
                && (#[trigger] snapshot@[i]).alive
                && snapshot@[i].team != old(tank).team
        },
        (forall|i: int| 0 <= i < snapshot@.len()
            ==> !((#[trigger] snapshot@[i]).alive && snapshot@[i].team != old(tank).team))
            ==> final(new_bullets)@ == old(new_bullets)@,
        old(new_tracks)@.len() <= final(new_tracks)@.len() <= old(new_tracks)@.len() + 1,
        final(new_tracks)@.subrange(0, old(new_tracks)@.len() as int) == old(new_tracks)@,
        ({
            let nearest = spec_nearest_enemy(snapshot@, old(tank).team, old(tank).pos);
            let step = spec_mul_div(TURRET_ROT_SPEED as int, dt as int, 1_000_000);
            match nearest.0 {
                Some(target) => {
                    let aim = spec_vec2_angle(spec_vec2_sub(target, old(tank).pos));
                    let range = AI_FIRE_RANGE
                        * if old(tank).rapid_timer > 0 { 2int } else { 1int };
                    let fire = spec_angle_difference(final(tank).turret_angle as int, aim)
                        < AI_FIRE_ANGLE
                        && old(tank).fire_cooldown == 0
                        && nearest.1 < range * range;
                    &&& final(tank).turret_angle
                        == spec_rotate_towards(old(tank).turret_angle as int, aim, step)
                    &&& final(tank).waypoint == old(tank).waypoint
                    &&& final(new_bullets)@.len()
                        == old(new_bullets)@.len() + if fire { 1int } else { 0int }
                    &&& (fire ==> final(new_bullets)@.last() == spec_bullet_from_tank(
                        (Tank { turret_angle: final(tank).turret_angle, ..*old(tank) })))
                    &&& spec_ai_movement(*old(tank), *final(tank), *world,
                        spec_ai_desired(*old(tank), target, nearest.1), dt as int)
                },
                None => {
                    &&& final(tank).turret_angle == spec_rotate_towards(
                        old(tank).turret_angle as int, old(tank).body_angle as int, step)
                    &&& final(new_bullets)@ == old(new_bullets)@
                    &&& (!spec_near(old(tank).waypoint, old(tank).pos, 80_000)
                        ==> final(tank).waypoint == old(tank).waypoint)
                    &&& spec_ai_movement(*old(tank), *final(tank), *world,
                        spec_vec2_normalize(spec_vec2_sub(final(tank).waypoint, old(tank).pos)),
                        dt as int)
                },
            }
        }),
{
    proof {
        assert(old(new_bullets)@.subrange(0, old(new_bullets)@.len() as int)
            =~= old(new_bullets)@);
        assert(old(new_tracks)@.subrange(0, old(new_tracks)@.len() as int)
            =~= old(new_tracks)@);
    }
    let (target_pos, target_d2) = find_target_snapshot(snapshot, tank.team, tank.pos);

    let desired_dir: Vec2;
    match target_pos {
        Some(target) => {
            if target_d2 > AI_TARGET_FAR * AI_TARGET_FAR {
                desired_dir = vec2_normalize(vec2_sub(target, tank.pos));
            } else if target_d2 < AI_TARGET_NEAR * AI_TARGET_NEAR {
                desired_dir = vec2_normalize(vec2_sub(tank.pos, target));
            } else {
                let to_target = vec2_sub(target, tank.pos);
                desired_dir = vec2_normalize(Vec2 { x: -to_target.y, y: to_target.x });
            }
        },
        None => {
            if within(tank.waypoint, tank.pos, 80_000) {
                tank.waypoint = pick_waypoint(world, tank.team, rng);
            }
            desired_dir = vec2_normalize(vec2_sub(tank.waypoint, tank.pos));
        },
    }

    let turret_step = mul_div(TURRET_ROT_SPEED, dt, 1_000_000);
    proof {
        lemma_div_trunc_sym_bound(
            TURRET_ROT_SPEED as int, dt as int, 1_000_000, 204_000_000_000_000);
    }
    match target_pos {
        Some(target) => {
            let target_angle = vec2_angle(vec2_sub(target, tank.pos));
            tank.turret_angle = rotate_towards(tank.turret_angle, target_angle, turret_step);
            let mult = range_multiplier(tank);
            let range = AI_FIRE_RANGE * mult;
            assert(range == 900_000 || range == 1_800_000);
            if angle_difference(tank.turret_angle, target_angle) < AI_FIRE_ANGLE
                && tank.fire_cooldown == 0
                && target_d2 < range * range {
                fire_bullet(tank, new_bullets);
            }
        },
        None => {
            tank.turret_angle = rotate_towards(tank.turret_angle, tank.body_angle, turret_step);
        },
    }

    let avoidance = avoidance_vector(world, tank.team, tank.pos);
    proof {
        assert(-282_000_000 <= avoidance.x * 1400 <= 282_000_000);
        assert(-282_000_000 <= avoidance.y * 1400 <= 282_000_000);
    }
    let weighted = vec2_scale(avoidance, 1400, 1000);
    proof {
        lemma_div_trunc_sym_bound(avoidance.x as int, 1400, 1000, 282_000_000);
        lemma_div_trunc_sym_bound(avoidance.y as int, 1400, 1000, 282_000_000);
    }
    let steer = vec2_normalize(vec2_add(desired_dir, weighted));
    if crate::math::vec2_longer_than(steer, 100) {
        let body_step = mul_div(BODY_ROT_SPEED, dt, 1_000_000);
        proof {
            lemma_div_trunc_sym_bound(
                BODY_ROT_SPEED as int, dt as int, 1_000_000, 156_000_000_000_000);
        }
        let target_angle = vec2_angle(steer);
        tank.body_angle = rotate_towards(tank.body_angle, target_angle, body_step);
        let factor = speed_multiplier(tank);
        advance_tank(tank, dt, factor * 10, world, new_tracks);
    }
}

/// One frame of player control: apply the turn and throttle axes, aim the
/// turret at the mouse's world position or along the supplied aim vector,
/// and fire on request once the cooldown has elapsed.
pub fn update_player_tank(tank: &mut Tank, dt: i64, world: &World, mouse_world: Vec2,
    input: &PlayerInput, new_tracks: &mut Vec<TrackMark>, new_bullets: &mut Vec<Bullet>)
    requires
        tank_wf(*old(tank)),
        world_wf(*world),
        0 <= dt <= DT_MAX,
        in_box(mouse_world, SIM_BOX as int),
        input_wf(*input),
        tracks_wf(old(new_tracks)@),
        bullets_wf(old(new_bullets)@),
    ensures
        tank_wf(*final(tank)),
        tracks_wf(final(new_tracks)@),
        bullets_wf(final(new_bullets)@),
        tank_same_except_control(*old(tank), *final(tank)),
        final(tank).pos == old(tank).pos
            || spec_position_clear(*world, old(tank).team, final(tank).pos, TANK_RADIUS as int),
        final(new_bullets)@.len() == old(new_bullets)@.len()
            + if input.wants_fire && old(tank).fire_cooldown == 0 { 1int } else { 0int },
        final(new_bullets)@.subrange(0, old(new_bullets)@.len() as int) == old(new_bullets)@,
        final(new_bullets)@.len() > old(new_bullets)@.len() ==> {
            &&& final(new_bullets)@.last().team == old(tank).team
            &&& final(new_bullets)@.last() == spec_bullet_from_tank(*final(tank))
            &&& final(tank).fire_cooldown == spec_cooldown_after_fire(*old(tank))
        },
        old(new_tracks)@.len() <= final(new_tracks)@.len() <= old(new_tracks)@.len() + 1,
        final(new_tracks)@.subrange(0, old(new_tracks)@.len() as int) == old(new_tracks)@,
        ({
            let rate_step = spec_mul_div(BODY_ROT_SPEED as int, dt as int, 1_000_000);
            let body = if input.turn != 0 {
                (old(tank).body_angle + spec_mul_div(rate_step, input.turn as int, 1000))
                    % (FULL_TURN as int)
            } else {
                old(tank).body_angle as int
            };
            &&& final(tank).body_angle == body
            &&& ({
                let factor = spec_mul_div(
                    input.movement as int,
                    if old(tank).invincible_timer > 0 { 115int } else { 100int },
                    100,
                );
                let dest = spec_move_destination(
                    (Tank { body_angle: body as i64, ..*old(tank) }),
                    dt as int,
                    factor,
                );
                if -10 <= input.movement <= 10 {
                    final(tank).pos == old(tank).pos && final(new_tracks)@ == old(new_tracks)@
                } else {
                    &&& (spec_position_clear(*world, old(tank).team, dest, TANK_RADIUS as int)
                        ==> final(tank).pos == dest)
                    &&& (!spec_position_clear(*world, old(tank).team, dest, TANK_RADIUS as int)
                        ==> final(tank).pos == old(tank).pos)
                }
            })
        }),
        ({
            let turret = if input.use_mouse_aim {
                let to_mouse = spec_vec2_sub(mouse_world, final(tank).pos);
                if spec_dist2(to_mouse, Vec2 { x: 0, y: 0 }) > 100 {
                    spec_vec2_angle(to_mouse)
                } else {
                    old(tank).turret_angle as int
                }
            } else {
                match input.aim_dir {
                    Some(aim) => if spec_dist2(aim, Vec2 { x: 0, y: 0 }) > 100 {
                        spec_vec2_angle(aim)
                    } else {
                        old(tank).turret_angle as int
                    },
                    None => old(tank).turret_angle as int,
                }
            };
            final(tank).turret_angle == turret
        }),
{
    proof {
        assert(old(new_bullets)@.subrange(0, old(new_bullets)@.len() as int)
            =~= old(new_bullets)@);
        assert(old(new_tracks)@.subrange(0, old(new_tracks)@.len() as int)
            =~= old(new_tracks)@);
    }
    if input.turn != 0 {
        let rate_step = mul_div(BODY_ROT_SPEED, dt, 1_000_000);
        proof {
            lemma_div_trunc_sym_bound(
                BODY_ROT_SPEED as int, dt as int, 1_000_000, 156_000_000_000_000);
            assert(-156_000_000_000 <= rate_step * input.turn <= 156_000_000_000)
                by (nonlinear_arith)
                requires 0 <= rate_step <= 156_000_000, -1000 <= input.turn <= 1000;
        }
        let turn_delta = mul_div(rate_step, input.turn, 1000);
        proof {
            lemma_div_trunc_sym_bound(
                rate_step as int, input.turn as int, 1000, 156_000_000_000);
        }
        tank.body_angle = wrap_angle(tank.body_angle + turn_delta);
    }

    if input.movement < -10 || input.movement > 10 {
        let mult = speed_multiplier(tank);
        proof {
            assert(-115_000 <= input.movement * mult <= 115_000) by (nonlinear_arith)
                requires -1000 <= input.movement <= 1000, 100 <= mult <= 115;
        }
        let factor = mul_div(input.movement, mult, 100);
        proof {
            lemma_div_trunc_sym_bound(input.movement as int, mult as int, 100, 115_000);
        }
        advance_tank(tank, dt, factor, world, new_tracks);
    }

    if input.use_mouse_aim {
        let turret_target = vec2_sub(mouse_world, tank.pos);
        if crate::math::vec2_longer_than(turret_target, 10) {
            tank.turret_angle = vec2_angle(turret_target);
        }
    } else if let Some(aim) = input.aim_dir {
        if crate::math::vec2_longer_than(aim, 10) {
            tank.turret_angle = vec2_angle(aim);
        }
    }

    if input.wants_fire && tank.fire_cooldown == 0 {
        fire_bullet(tank, new_bullets);
    }
}

/// No two living tanks stand closer than the collision minimum.
pub open spec fn tanks_separated(s: Seq<Tank>) -> bool {
    forall|i: int, j: int|
        0 <= i < j < s.len() && (#[trigger] s[i]).alive && (#[trigger] s[j]).alive
            ==> !spec_near(s[i].pos, s[j].pos, 2 * TANK_RADIUS - 2_000)
}

/// No living tank stands inside the spawn zone of its enemy.
pub open spec fn tanks_outside_enemy_zones(s: Seq<Tank>) -> bool {
    forall|i: int| 0 <= i < s.len() && (#[trigger] s[i]).alive
        ==> !spec_rect_contains(spec_zone_rect(spec_enemy(s[i].team)), s[i].pos)
}

/// Pairwise collision correction and enemy-zone ejection, iterated until
/// both hold together: overlapping living pairs are pushed apart
/// symmetrically (coincident ones along the x axis), living tanks inside
/// the enemy zone are ejected past its nearest edge, and if the iteration
/// budget runs out before the passes settle, the living tanks are spread
/// onto a fixed separated grid between the zones. Only positions change; a
/// configuration that is already resolved is left exactly as it is; after
/// the call no two living tanks stand closer than the collision minimum and
/// no living tank stands in its enemy's zone.
pub fn resolve_tank_collisions(tanks: &mut Vec<Tank>, world: &World)
    requires
        tanks_wf(old(tanks)@),
        world_wf(*world),
        old(tanks)@.len() <= 1000,
    ensures
        tanks_wf(final(tanks)@),
        final(tanks)@.len() == old(tanks)@.len(),
        forall|i: int| 0 <= i < final(tanks)@.len()
            ==> tank_same_except_pos(#[trigger] old(tanks)@[i], final(tanks)@[i]),
        forall|i: int| 0 <= i < final(tanks)@.len() && !(#[trigger] old(tanks)@[i]).alive
            ==> final(tanks)@[i] == old(tanks)@[i],
        tanks_separated(final(tanks)@),
        tanks_outside_enemy_zones(final(tanks)@),
        tanks_separated(old(tanks)@) && tanks_outside_enemy_zones(old(tanks)@)
            ==> final(tanks)@ == old(tanks)@,
{
    let ghost orig = tanks@;
    let mut done = false;
    let mut pass: usize = 0;
    while pass < 64 && !done
        invariant
            world_wf(*world),
            tanks_wf(tanks@),
            tanks@.len() == orig.len(),
            orig.len() <= 1000,
            forall|k: int| 0 <= k < orig.len()
                ==> tank_same_except_pos(#[trigger] orig[k], tanks@[k]),
            forall|k: int| 0 <= k < orig.len() && !(#[trigger] orig[k]).alive
                ==> tanks@[k] == orig[k],
            tanks_separated(orig) && tanks_outside_enemy_zones(orig)
                ==> tanks@ == orig && (pass >= 1 ==> done),
            done ==> tanks_separated(tanks@) && tanks_outside_enemy_zones(tanks@),
        decreases 64 - pass,
    {
        let pushed = separation_pass(tanks);
        let ejected = zone_pass(tanks, world);
        if !pushed && !ejected {
            done = true;
        }
        pass = pass + 1;
    }
    if !done {
        spread_tanks(tanks);
    }
}

/// One pass of pairwise collision correction: every living pair closer than
/// the collision minimum is pushed apart symmetrically along the separating
/// axis (coincident pairs along the x axis). Reports whether anything moved;
/// a pass that moves nothing certifies that every living pair is separated.
fn separation_pass(tanks: &mut Vec<Tank>) -> (changed: bool)
    requires
        tanks_wf(old(tanks)@),
    ensures
        tanks_wf(final(tanks)@),
        final(tanks)@.len() == old(tanks)@.len(),
        forall|i: int| 0 <= i < final(tanks)@.len()
            ==> tank_same_except_pos(#[trigger] old(tanks)@[i], final(tanks)@[i]),
        forall|i: int| 0 <= i < final(tanks)@.len() && !(#[trigger] old(tanks)@[i]).alive
            ==> final(tanks)@[i] == old(tanks)@[i],
        !changed ==> final(tanks)@ == old(tanks)@ && tanks_separated(final(tanks)@),
        tanks_separated(old(tanks)@) ==> !changed && final(tanks)@ == old(tanks)@,
{
    let ghost orig = tanks@;
    let mut changed = false;
    let n = tanks.len();
    let mut i: usize = 0;
    while i < n
        invariant
            n == tanks@.len(),
            n == orig.len(),
            tanks_wf(tanks@),
            i <= n,
            forall|k: int| 0 <= k < n
                ==> tank_same_except_pos(#[trigger] orig[k], tanks@[k]),
            forall|k: int| 0 <= k < n && !(#[trigger] orig[k]).alive ==> tanks@[k] == orig[k],
            !changed ==> tanks@ == orig,
            !changed ==> forall|a: int, b: int|
                0 <= a < b < n && a < i as int
                    && (#[trigger] tanks@[a]).alive && (#[trigger] tanks@[b]).alive
                    ==> !spec_near(tanks@[a].pos, tanks@[b].pos, 2 * TANK_RADIUS - 2_000),
            tanks_separated(orig) ==> !changed,
        decreases n - i,
    {
        let mut j: usize = i + 1;
        while j < n
            invariant
                n == tanks@.len(),
                n == orig.len(),
                tanks_wf(tanks@),
                i < n,
                i + 1 <= j <= n,
                forall|k: int| 0 <= k < n
                    ==> tank_same_except_pos(#[trigger] orig[k], tanks@[k]),
                forall|k: int| 0 <= k < n && !(#[trigger] orig[k]).alive
                    ==> tanks@[k] == orig[k],
                !changed ==> tanks@ == orig,
                !changed ==> forall|a: int, b: int|
                    0 <= a < b < n && (a < i as int || (a == i as int && b < j as int))
                        && (#[trigger] tanks@[a]).alive && (#[trigger] tanks@[b]).alive
                        ==> !spec_near(tanks@[a].pos, tanks@[b].pos, 2 * TANK_RADIUS - 2_000),
                tanks_separated(orig) ==> !changed,
            decreases n - j,
        {
            if tanks[i].alive && tanks[j].alive {
                let pi = tanks[i].pos;
                let pj = tanks[j].pos;
                let min_dist: i64 = 2 * TANK_RADIUS - 2_000;
                let d2 = dist2(pj, pi);
                proof {
                    crate::math::lemma_dist2_symm(pj, pi);
                }
                if d2 < min_dist * min_dist {
                    proof {
                        if tanks_separated(orig) {
                            // Nothing has moved yet, and this pair is
                            // separated.
                            assert(orig[i as int].alive && orig[j as int].alive);
                            assert(!spec_near(
                                orig[i as int].pos,
                                orig[j as int].pos,
                                2 * TANK_RADIUS - 2_000,
                            ));
                            assert(false);
                        }
                    }
                    let dist = isqrt(d2);
                    proof {
                        assert(dist < min_dist) by (nonlinear_arith)
                            requires
                                0 <= dist,
                                0 < min_dist,
                                dist * dist <= d2,
                                d2 < min_dist * min_dist;
                    }
                    // A coincident pair has no separating axis; push it
                    // apart along the x axis.
                    let unit = if d2 > 0 {
                        vec2_normalize(vec2_sub(pj, pi))
                    } else {
                        Vec2 { x: 1000, y: 0 }
                    };
                    let half: i64 = ((min_dist - dist) as u64 / 2) as i64;
                    proof {
                        assert(-27_000_000 <= unit.x * half <= 27_000_000) by (nonlinear_arith)
                            requires -1000 <= unit.x <= 1000, 0 <= half <= 27_000;
                        assert(-27_000_000 <= unit.y * half <= 27_000_000) by (nonlinear_arith)
                            requires -1000 <= unit.y <= 1000, 0 <= half <= 27_000;
                    }
                    let push = vec2_scale(unit, half, 1000);
                    proof {
                        lemma_div_trunc_sym_bound(unit.x as int, half as int, 1000, 27_000_000);
                        lemma_div_trunc_sym_bound(unit.y as int, half as int, 1000, 27_000_000);
                    }
                    let new_pi = clamp_to_box(vec2_sub(pi, push), SIM_BOX);
                    let new_pj = clamp_to_box(vec2_add(pj, push), SIM_BOX);
                    let mut ti = tanks[i];
                    ti.pos = new_pi;
                    tanks.set(i, ti);
                    let mut tj = tanks[j];
                    tj.pos = new_pj;
                    tanks.set(j, tj);
                    changed = true;
                }
            }
            j = j + 1;
        }
        i = i + 1;
    }
    changed
}

/// One pass of enemy-zone ejection: every living tank standing inside its
/// enemy's spawn zone is moved past the zone's nearest edge. Reports whether
/// anything moved; afterwards no living tank stands in its enemy's zone.
fn zone_pass(tanks: &mut Vec<Tank>, world: &World) -> (changed: bool)
    requires
        tanks_wf(old(tanks)@),
        world_wf(*world),
    ensures
        tanks_wf(final(tanks)@),
        final(tanks)@.len() == old(tanks)@.len(),
        forall|i: int| 0 <= i < final(tanks)@.len()
            ==> tank_same_except_pos(#[trigger] old(tanks)@[i], final(tanks)@[i]),
        forall|i: int| 0 <= i < final(tanks)@.len() && !(#[trigger] old(tanks)@[i]).alive
            ==> final(tanks)@[i] == old(tanks)@[i],
        tanks_outside_enemy_zones(final(tanks)@),
        !changed ==> final(tanks)@ == old(tanks)@,
        tanks_outside_enemy_zones(old(tanks)@) ==> !changed && final(tanks)@ == old(tanks)@,
{
    let ghost orig = tanks@;
    let mut changed = false;
    let n = tanks.len();
    let mut k: usize = 0;
    while k < n
        invariant
            world_wf(*world),
            n == tanks@.len(),
            n == orig.len(),
            tanks_wf(tanks@),
            k <= n,
            forall|m: int| 0 <= m < n
                ==> tank_same_except_pos(#[trigger] orig[m], tanks@[m]),
            forall|m: int| 0 <= m < n && !(#[trigger] orig[m]).alive ==> tanks@[m] == orig[m],
            forall|m: int| k <= m < n ==> #[trigger] tanks@[m] == orig[m],
            forall|m: int| 0 <= m < k && (#[trigger] tanks@[m]).alive
                ==> !spec_rect_contains(spec_zone_rect(spec_enemy(tanks@[m].team)), tanks@[m].pos),
            !changed ==> tanks@ == orig,
            tanks_outside_enemy_zones(orig) ==> !changed,
        decreases n - k,
    {
        if tanks[k].alive {
            let t = tanks[k];
            let zone = world.zone_rect(t.team.enemy());
            let new_pos = push_outside_rect(t.pos, zone, TANK_RADIUS + 2_000);
            if new_pos.x != t.pos.x || new_pos.y != t.pos.y {
                proof {
                    if tanks_outside_enemy_zones(orig) {
                        // Nothing has moved yet and this tank stands outside
                        // its enemy's zone, so the ejection returns it
                        // unmoved.
                        assert(orig[k as int].alive);
                        assert(false);
                    }
                }
                let mut t2 = t;
                t2.pos = new_pos;
                tanks.set(k, t2);
                changed = true;
            } else {
                proof {
                    assert(tanks@[k as int].pos == new_pos);
                }
            }
        }
        k = k + 1;
    }
    changed
}

/// The fixed fallback slot of tank `i`: a grid in the corridor between the
/// two spawn zones, spaced wider than the collision minimum.
pub open spec fn spec_spread_slot(i: int) -> Vec2 {
    Vec2 {
        x: (1_300_000 + (i % 50) * 60_000) as i64,
        y: (100_000 + (i / 50) * 60_000) as i64,
    }
}

/// Distinct fallback slots are separated by more than the collision minimum.
proof fn lemma_spread_slots_separated(a: int, b: int)
    requires
        0 <= a < b <= 1000,
    ensures
        !spec_near(spec_spread_slot(a), spec_spread_slot(b), 2 * TANK_RADIUS - 2_000),
{
    vstd::arithmetic::div_mod::lemma_fundamental_div_mod(a, 50);
    vstd::arithmetic::div_mod::lemma_fundamental_div_mod(b, 50);
    vstd::arithmetic::div_mod::lemma_mod_bound(a, 50);
    vstd::arithmetic::div_mod::lemma_mod_bound(b, 50);
    vstd::arithmetic::div_mod::lemma_div_is_ordered(a, 1000, 50);
    vstd::arithmetic::div_mod::lemma_div_is_ordered(b, 1000, 50);
    vstd::arithmetic::div_mod::lemma_div_pos_is_pos(a, 50);
    vstd::arithmetic::div_mod::lemma_div_pos_is_pos(b, 50);
    let pa = spec_spread_slot(a);
    let pb = spec_spread_slot(b);
    assert(pa.x == 1_300_000 + (a % 50) * 60_000);
    assert(pa.y == 100_000 + (a / 50) * 60_000);
    assert(pb.x == 1_300_000 + (b % 50) * 60_000);
    assert(pb.y == 100_000 + (b / 50) * 60_000);
    let dc = a % 50 - b % 50;
    let dr = a / 50 - b / 50;
    assert(dc != 0 || dr != 0);
    assert(spec_dist2(pa, pb) >= 3_600_000_000) by (nonlinear_arith)
        requires
            pa.x - pb.x == dc * 60_000,
            pa.y - pb.y == dr * 60_000,
            dc != 0 || dr != 0,
            -50 <= dc <= 50,
            -21 <= dr <= 21;
    assert((2 * TANK_RADIUS - 2_000) * (2 * TANK_RADIUS - 2_000) <= 3_600_000_000)
        by (nonlinear_arith)
        requires TANK_RADIUS == 28_000i64;
}

/// Spreads the living tanks onto the fallback grid: a defensive floor for
/// configurations the iterated passes cannot settle, never reached in an
/// ordinary round. Afterwards every living pair is separated and no living
/// tank stands in either zone's column.
fn spread_tanks(tanks: &mut Vec<Tank>)
    requires
        tanks_wf(old(tanks)@),
        old(tanks)@.len() <= 1000,
    ensures
        tanks_wf(final(tanks)@),
        final(tanks)@.len() == old(tanks)@.len(),
        forall|i: int| 0 <= i < final(tanks)@.len()
            ==> tank_same_except_pos(#[trigger] old(tanks)@[i], final(tanks)@[i]),
        forall|i: int| 0 <= i < final(tanks)@.len() && !(#[trigger] old(tanks)@[i]).alive
            ==> final(tanks)@[i] == old(tanks)@[i],
        tanks_separated(final(tanks)@),
        tanks_outside_enemy_zones(final(tanks)@),
{
    let ghost orig = tanks@;
    let n = tanks.len();
    let mut i: usize = 0;
    while i < n
        invariant
            n == tanks@.len(),
            n == orig.len(),
            n <= 1000,
            tanks_wf(tanks@),
            i <= n,
            forall|k: int| 0 <= k < n
                ==> tank_same_except_pos(#[trigger] orig[k], tanks@[k]),
            forall|k: int| 0 <= k < n && !(#[trigger] orig[k]).alive ==> tanks@[k] == orig[k],
            forall|k: int| i <= k < n ==> #[trigger] tanks@[k] == orig[k],
            forall|k: int| 0 <= k < i && (#[trigger] tanks@[k]).alive
                ==> tanks@[k].pos == spec_spread_slot(k),
        decreases n - i,
    {
        if tanks[i].alive {
            let col: i64 = (i % 50) as i64;
            let row: i64 = (i / 50) as i64;
            let mut t = tanks[i];
            t.pos = Vec2 { x: 1_300_000 + col * 60_000, y: 100_000 + row * 60_000 };
            proof {
                assert(t.pos == spec_spread_slot(i as int));
            }
            tanks.set(i, t);
        }
        i = i + 1;
    }
    proof {
        assert forall|a: int, b: int|
            0 <= a < b < n && (#[trigger] tanks@[a]).alive && (#[trigger] tanks@[b]).alive
            implies !spec_near(tanks@[a].pos, tanks@[b].pos, 2 * TANK_RADIUS - 2_000) by {
            lemma_spread_slots_separated(a, b);
        }
        assert forall|k: int| 0 <= k < n && (#[trigger] tanks@[k]).alive
            implies !spec_rect_contains(
                spec_zone_rect(spec_enemy(tanks@[k].team)), tanks@[k].pos) by {
            vstd::arithmetic::div_mod::lemma_mod_bound(k, 50);
        }
    }
}

} // verus!
