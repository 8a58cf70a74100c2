//! Powerup scheduling, placement and pickup: timed spawns whose cadence
//! follows round progress, and immediate consumption by nearby tanks.

use vstd::prelude::*;

use crate::config::{
    DT_MAX, HEALTH_FLASH_TIME, POWERUP_BASE_SPAWN, POWERUP_DURATION, POWERUP_MAX_COUNT,
    POWERUP_MAX_SPAWN, POWERUP_MIN_SPAWN, POWERUP_PICKUP_EXTRA, ROUND_TIME, TANK_RADIUS,
};
use crate::entities::{
    powerup_wf, powerups_wf, tank_same_except_effects, tank_wf, tanks_wf, Powerup, PowerupKind,
    Tank, Team, SIM_BOX,
};
use crate::math::{clamp_i64, in_box, mul_div, spec_mul_div, spec_near, spec_rect_contains, within, Vec2};
use crate::rng::rng_range;
use crate::world::{spec_zone_rect, world_wf, World};

verus! {

/// Grants one powerup's effect to a tank: an effect timer starts, or a heal
/// restores full health and lights the health flash.
pub fn apply_powerup(tank: &mut Tank, kind: PowerupKind)
    requires
        tank_wf(*old(tank)),
    ensures
        tank_wf(*final(tank)),
        tank_same_except_effects(*old(tank), *final(tank)),
        final(tank).health >= old(tank).health,
        kind == PowerupKind::Invincible ==> *final(tank)
            == (Tank { invincible_timer: POWERUP_DURATION, ..*old(tank) }),
        kind == PowerupKind::RapidRange ==> *final(tank)
            == (Tank { rapid_timer: POWERUP_DURATION, ..*old(tank) }),
        kind == PowerupKind::Heal ==> *final(tank)
            == (Tank {
                health: old(tank).max_health,
                health_flash: HEALTH_FLASH_TIME,
                ..*old(tank)
            }),
{
    match kind {
        PowerupKind::Invincible => {
            tank.invincible_timer = POWERUP_DURATION;
        },
        PowerupKind::RapidRange => {
            tank.rapid_timer = POWERUP_DURATION;
        },
        PowerupKind::Heal => {
            tank.health = tank.max_health;
            tank.health_flash = HEALTH_FLASH_TIME;
        },
    }
}

/// How a pickup pass may change one tank: either it is untouched, or it was
/// alive and carries exactly one powerup's effect.
pub open spec fn powerup_effect(a: Tank, b: Tank) -> bool {
    ||| b == a
    ||| (a.alive && {
        ||| b == (Tank { invincible_timer: POWERUP_DURATION as i64, ..a })
        ||| b == (Tank { rapid_timer: POWERUP_DURATION as i64, ..a })
        ||| b == (Tank { health: a.max_health, health_flash: HEALTH_FLASH_TIME as i64, ..a })
    })
}

/// Some living tank stands within pickup range of the powerup.
pub open spec fn powerup_reachable(p: Powerup, tanks: Seq<Tank>) -> bool {
    exists|t: int| 0 <= t < tanks.len() && (#[trigger] tanks[t]).alive
        && spec_near(p.pos, tanks[t].pos, TANK_RADIUS + POWERUP_PICKUP_EXTRA)
}

/// The tank after taking one powerup's effect.
pub open spec fn spec_applied(t: Tank, kind: PowerupKind) -> Tank {
    match kind {
        PowerupKind::Invincible => Tank { invincible_timer: POWERUP_DURATION as i64, ..t },
        PowerupKind::RapidRange => Tank { rapid_timer: POWERUP_DURATION as i64, ..t },
        PowerupKind::Heal => Tank {
            health: t.max_health,
            health_flash: HEALTH_FLASH_TIME as i64,
            ..t
        },
    }
}

/// The first living tank within pickup range of `p` that has not yet
/// consumed a powerup this frame, scanned from index `i` upward; `-1` when
/// none qualifies.
pub open spec fn spec_pickup_index(p: Powerup, tanks: Seq<Tank>, consumed: Seq<bool>, i: int)
    -> int
    decreases tanks.len() - i,
{
    if i < 0 || i >= tanks.len() {
        -1
    } else if !consumed[i] && tanks[i].alive
        && spec_near(p.pos, tanks[i].pos, TANK_RADIUS + POWERUP_PICKUP_EXTRA) {
        i
    } else {
        spec_pickup_index(p, tanks, consumed, i + 1)
    }
}

/// The whole pickup pass as one function of its inputs: each powerup in
/// order goes to the first free living tank within pickup range (which then
/// takes its effect and is marked), or is retained unchanged, in order.
pub open spec fn spec_collect(powerups: Seq<Powerup>, tanks: Seq<Tank>, consumed: Seq<bool>)
    -> (Seq<Powerup>, Seq<Tank>)
    decreases powerups.len(),
{
    if powerups.len() == 0 {
        (Seq::empty(), tanks)
    } else {
        let p = powerups[0];
        let rest = powerups.subrange(1, powerups.len() as int);
        let t = spec_pickup_index(p, tanks, consumed, 0);
        if t >= 0 {
            spec_collect(rest, tanks.update(t, spec_applied(tanks[t], p.kind)),
                consumed.update(t, true))
        } else {
            let out = spec_collect(rest, tanks, consumed);
            (seq![p] + out.0, out.1)
        }
    }
}

/// Hands powerups to tanks standing within pickup range: each powerup goes
/// to the first living tank near it that has not consumed one this frame,
/// and is removed in the same frame; each tank consumes at most one.
pub fn collect_powerups(powerups: &mut Vec<Powerup>, tanks: &mut Vec<Tank>)
    requires
        powerups_wf(old(powerups)@),
        tanks_wf(old(tanks)@),
    ensures
        powerups_wf(final(powerups)@),
        tanks_wf(final(tanks)@),
        final(tanks)@.len() == old(tanks)@.len(),
        final(powerups)@.len() <= old(powerups)@.len(),
        forall|t: int| 0 <= t < final(tanks)@.len()
            ==> powerup_effect(#[trigger] old(tanks)@[t], final(tanks)@[t]),
        forall|t: int| 0 <= t < final(tanks)@.len()
            ==> (#[trigger] final(tanks)@[t]).health >= old(tanks)@[t].health,
        (forall|p: int| 0 <= p < old(powerups)@.len()
            ==> !powerup_reachable(#[trigger] old(powerups)@[p], old(tanks)@))
            ==> final(powerups)@ == old(powerups)@ && final(tanks)@ == old(tanks)@,
        (exists|p: int| 0 <= p < old(powerups)@.len()
            && powerup_reachable(#[trigger] old(powerups)@[p], old(tanks)@))
            ==> final(powerups)@.len() < old(powerups)@.len(),
        ({
            let out = spec_collect(old(powerups)@, old(tanks)@,
                Seq::new(old(tanks)@.len(), |i: int| false));
            final(powerups)@ == out.0 && final(tanks)@ == out.1
        }),
{
    let n_tanks = tanks.len();
    let n_pow = powerups.len();
    let mut consumed: Vec<bool> = Vec::new();
    while consumed.len() < n_tanks
        invariant
            consumed@.len() <= n_tanks,
            forall|t: int| 0 <= t < consumed@.len() ==> !(#[trigger] consumed@[t]),
        decreases n_tanks - consumed@.len(),
    {
        consumed.push(false);
    }
    proof {
        assert(consumed@ =~= Seq::new(old(tanks)@.len(), |i: int| false));
        assert(powerups@.subrange(0, n_pow as int) =~= powerups@);
        assert(Seq::<Powerup>::empty()
            + spec_collect(powerups@, tanks@, consumed@).0
            =~= spec_collect(powerups@, tanks@, consumed@).0);
    }
    let mut remaining: Vec<Powerup> = Vec::new();
    let mut p: usize = 0;
    while p < n_pow
        invariant
            n_pow == powerups@.len(),
            powerups@ == old(powerups)@,
            powerups_wf(powerups@),
            n_tanks == tanks@.len(),
            tanks_wf(tanks@),
            consumed@.len() == n_tanks,
            p <= n_pow,
            remaining@.len() <= p,
            powerups_wf(remaining@),
            forall|t: int| 0 <= t < n_tanks
                ==> powerup_effect(#[trigger] old(tanks)@[t], tanks@[t]),
            forall|t: int| 0 <= t < n_tanks
                ==> (#[trigger] tanks@[t]).health >= old(tanks)@[t].health,
            forall|t: int| 0 <= t < n_tanks && !(#[trigger] consumed@[t])
                ==> tanks@[t] == old(tanks)@[t],
            (forall|q: int| 0 <= q < n_pow
                ==> !powerup_reachable(#[trigger] powerups@[q], old(tanks)@))
                ==> tanks@ == old(tanks)@ && remaining@ == powerups@.subrange(0, p as int),
            remaining@.len() < p || {
                &&& tanks@ == old(tanks)@
                &&& forall|k: int| 0 <= k < n_tanks ==> !(#[trigger] consumed@[k])
                &&& remaining@.len() == p
                &&& forall|q: int| 0 <= q < p
                    ==> !powerup_reachable(#[trigger] powerups@[q], old(tanks)@)
            },
            ({
                let full = spec_collect(old(powerups)@, old(tanks)@,
                    Seq::new(old(tanks)@.len(), |i: int| false));
                let rest = spec_collect(powerups@.subrange(p as int, n_pow as int), tanks@,
                    consumed@);
                full.0 == remaining@ + rest.0 && full.1 == rest.1
            }),
        decreases n_pow - p,
    {
        proof {
            assert(powerups@.subrange(p as int, n_pow as int)[0] == powerups@[p as int]);
            assert(powerups@.subrange(p as int, n_pow as int).subrange(1, n_pow - p as int)
                =~= powerups@.subrange(p as int + 1, n_pow as int));
        }
        let pw = powerups[p];
        let ghost tanks_entry = tanks@;
        let ghost consumed_entry = consumed@;
        let mut taken = false;
        let mut t: usize = 0;
        while t < n_tanks
            invariant_except_break
                !taken,
                tanks@ == tanks_entry,
                consumed@ == consumed_entry,
                spec_pickup_index(pw, tanks_entry, consumed_entry, 0)
                    == spec_pickup_index(pw, tanks_entry, consumed_entry, t as int),
                forall|k: int| 0 <= k < t && (#[trigger] tanks@[k]).alive && !consumed@[k]
                    ==> !spec_near(pw.pos, tanks@[k].pos, TANK_RADIUS + POWERUP_PICKUP_EXTRA),
            invariant
                n_tanks == tanks@.len(),
                tanks_wf(tanks@),
                consumed@.len() == n_tanks,
                powerup_wf(pw),
                t <= n_tanks,
                forall|k: int| 0 <= k < n_tanks
                    ==> powerup_effect(#[trigger] old(tanks)@[k], tanks@[k]),
                forall|k: int| 0 <= k < n_tanks
                    ==> (#[trigger] tanks@[k]).health >= old(tanks)@[k].health,
                forall|k: int| 0 <= k < n_tanks && !(#[trigger] consumed@[k])
                    ==> tanks@[k] == old(tanks)@[k],
                taken ==> exists|k: int| 0 <= k < n_tanks && (#[trigger] old(tanks)@[k]).alive
                    && spec_near(pw.pos, old(tanks)@[k].pos, TANK_RADIUS + POWERUP_PICKUP_EXTRA),
            ensures
                !taken ==> tanks@ == tanks_entry && consumed@ == consumed_entry,
                !taken ==> spec_pickup_index(pw, tanks_entry, consumed_entry, 0) == -1,
                taken ==> ({
                    let t0 = spec_pickup_index(pw, tanks_entry, consumed_entry, 0);
                    &&& 0 <= t0 < n_tanks
                    &&& tanks@ == tanks_entry.update(t0, spec_applied(tanks_entry[t0], pw.kind))
                    &&& consumed@ == consumed_entry.update(t0, true)
                }),
                !taken ==> forall|k: int| 0 <= k < n_tanks
                    && (#[trigger] tanks@[k]).alive && !consumed@[k]
                    ==> !spec_near(pw.pos, tanks@[k].pos, TANK_RADIUS + POWERUP_PICKUP_EXTRA),
                n_tanks == tanks@.len(),
                tanks_wf(tanks@),
                consumed@.len() == n_tanks,
                forall|k: int| 0 <= k < n_tanks
                    ==> powerup_effect(#[trigger] old(tanks)@[k], tanks@[k]),
                forall|k: int| 0 <= k < n_tanks
                    ==> (#[trigger] tanks@[k]).health >= old(tanks)@[k].health,
                forall|k: int| 0 <= k < n_tanks && !(#[trigger] consumed@[k])
                    ==> tanks@[k] == old(tanks)@[k],
                taken ==> exists|k: int| 0 <= k < n_tanks && (#[trigger] old(tanks)@[k]).alive
                    && spec_near(pw.pos, old(tanks)@[k].pos, TANK_RADIUS + POWERUP_PICKUP_EXTRA),
            decreases n_tanks - t,
        {
            if !consumed[t] && tanks[t].alive
                && within(pw.pos, tanks[t].pos, TANK_RADIUS + POWERUP_PICKUP_EXTRA) {
                proof {
                    assert(spec_pickup_index(pw, tanks_entry, consumed_entry, t as int)
                        == t as int);
                }
                let mut tk = tanks[t];
                apply_powerup(&mut tk, pw.kind);
                proof {
                    assert(tk == spec_applied(tanks_entry[t as int], pw.kind));
                }
                tanks.set(t, tk);
                consumed.set(t, true);
                taken = true;
                break;
            }
            t = t + 1;
        }
        proof {
            let rest_now = spec_collect(powerups@.subrange(p as int, n_pow as int),
                tanks_entry, consumed_entry);
            let rest_next = spec_collect(powerups@.subrange(p as int + 1, n_pow as int),
                tanks@, consumed@);
            if taken {
                assert(rest_now == rest_next);
            } else {
                assert(rest_now.0 == seq![pw] + rest_next.0 && rest_now.1 == rest_next.1);
                assert(remaining@.push(pw) + rest_next.0
                    =~= remaining@ + (seq![pw] + rest_next.0));
            }
        }
        if !taken {
            remaining.push(pw);
        }
        proof {
            if forall|q: int| 0 <= q < n_pow
                ==> !powerup_reachable(#[trigger] powerups@[q], old(tanks)@) {
                assert(!powerup_reachable(powerups@[p as int], old(tanks)@));
                assert(!taken);
                assert(remaining@ =~= powerups@.subrange(0, p as int + 1));
            }
        }
        p = p + 1;
    }
    proof {
        assert(powerups@.subrange(0, n_pow as int) =~= powerups@);
        assert(powerups@.subrange(n_pow as int, n_pow as int).len() == 0);
        assert(remaining@ + Seq::<Powerup>::empty() =~= remaining@);
    }
    *powerups = remaining;
}

/// Searches the central three-fifths of the map for a powerup position away
/// from spawn zones, obstacles and tanks; gives up after sixty tries.
pub fn find_powerup_spawn(world: &World, tanks: &Vec<Tank>, rng: &mut rand::rngs::SmallRng)
    -> (r: Option<Vec2>)
    requires
        world_wf(*world),
        tanks_wf(tanks@),
    ensures
        match r {
            Some(pos) => {
                &&& in_box(pos, SIM_BOX as int)
                &&& 1_280_000 <= pos.x < 5_120_000
                &&& 768_000 <= pos.y < 3_072_000
                &&& !spec_rect_contains(spec_zone_rect(Team::Red), pos)
                &&& !spec_rect_contains(spec_zone_rect(Team::Blue), pos)
                &&& forall|o: int| 0 <= o < world.obstacles@.len()
                    ==> !spec_near(pos, (#[trigger] world.obstacles@[o]).pos,
                        world.obstacles@[o].radius + 36_000)
                &&& forall|t: int| 0 <= t < tanks@.len()
                    ==> !spec_near(pos, (#[trigger] tanks@[t]).pos, TANK_RADIUS + 50_000)
            },
            None => true,
        },
{
    let mut tries: usize = 0;
    while tries < 60
        invariant
            world_wf(*world),
            tanks_wf(tanks@),
        decreases 60 - tries,
    {
        tries = tries + 1;
        // The central region spans twenty to eighty percent of each axis.
        let x = rng_range(rng, 1_280_000, 5_120_000);
        let y = rng_range(rng, 768_000, 3_072_000);
        let pos = Vec2 { x, y };
        if world.is_inside_spawn_zone(pos) {
            continue;
        }
        if any_obstacle_near_spot(world, pos) {
            continue;
        }
        if any_tank_near_spot(tanks, pos) {
            continue;
        }
        return Some(pos);
    }
    None
}

/// Whether any obstacle lies within its radius plus the spawn margin of the
/// candidate spot.
fn any_obstacle_near_spot(world: &World, pos: Vec2) -> (b: bool)
    requires
        world_wf(*world),
        in_box(pos, SIM_BOX as int),
    ensures
        b == exists|o: int| 0 <= o < world.obstacles@.len()
            && spec_near(pos, (#[trigger] world.obstacles@[o]).pos,
                world.obstacles@[o].radius + 36_000),
{
    let mut o: usize = 0;
    while o < world.obstacles.len()
        invariant
            world_wf(*world),
            in_box(pos, SIM_BOX as int),
            o <= world.obstacles@.len(),
            forall|k: int| 0 <= k < o
                ==> !spec_near(pos, (#[trigger] world.obstacles@[k]).pos,
                    world.obstacles@[k].radius + 36_000),
        decreases world.obstacles@.len() - o,
    {
        let obs = &world.obstacles[o];
        if within(pos, obs.pos, obs.radius + 36_000) {
            return true;
        }
        o = o + 1;
    }
    false
}

/// Whether any tank stands within the keep-away distance of the candidate
/// spot.
fn any_tank_near_spot(tanks: &Vec<Tank>, pos: Vec2) -> (b: bool)
    requires
        tanks_wf(tanks@),
        in_box(pos, SIM_BOX as int),
    ensures
        b == exists|t: int| 0 <= t < tanks@.len()
            && spec_near(pos, (#[trigger] tanks@[t]).pos, TANK_RADIUS + 50_000),
{
    let mut t: usize = 0;
    while t < tanks.len()
        invariant
            tanks_wf(tanks@),
            in_box(pos, SIM_BOX as int),
            t <= tanks@.len(),
            forall|k: int| 0 <= k < t
                ==> !spec_near(pos, (#[trigger] tanks@[k]).pos, TANK_RADIUS + 50_000),
        decreases tanks@.len() - t,
    {
        if within(pos, tanks[t].pos, TANK_RADIUS + 50_000) {
            return true;
        }
        t = t + 1;
    }
    false
}

/// The clamped spawn-delay target: the base delay divided by a boost that
/// grows toward the round's start and end, so the delay is longest
/// mid-round.
pub open spec fn spec_spawn_target(round_timer: int) -> int {
    let elapsed_milli = spec_mul_div(round_timer, 1000, ROUND_TIME as int);
    let raw = 1000 - elapsed_milli;
    let progress = if raw < 0 { 0int } else if raw > 1000 { 1000int } else { raw };
    let off_center = if progress >= 500 { progress - 500 } else { 500 - progress };
    let boost = 700 + spec_mul_div(2 * off_center, 800, 1000);
    let t = spec_mul_div(POWERUP_BASE_SPAWN as int, 1000, boost);
    if t < POWERUP_MIN_SPAWN {
        POWERUP_MIN_SPAWN as int
    } else if t > POWERUP_MAX_SPAWN {
        POWERUP_MAX_SPAWN as int
    } else {
        t
    }
}

/// The delay until the next spawn attempt: shortest near the start and the
/// end of the round, longest mid-round, with a uniform random factor.
pub fn next_powerup_spawn_delay(rng: &mut rand::rngs::SmallRng, round_timer: i64) -> (r: i64)
    requires
        0 <= round_timer <= ROUND_TIME,
    ensures
        ({
            let target = spec_spawn_target(round_timer as int);
            let lo = spec_mul_div(target, 85, 100);
            let hi = spec_mul_div(target, 115, 100);
            let span = if hi > lo { hi - lo } else { 1int };
            lo <= r < lo + span
        }),
        3_000_000 <= r <= 16_200_000,
{
    let elapsed_milli = mul_div(round_timer, 1000, ROUND_TIME);
    proof {
        crate::tanks::lemma_div_trunc_sym_bound(
            round_timer as int, 1000, ROUND_TIME as int, 1000 * ROUND_TIME as int);
        vstd::arithmetic::div_mod::lemma_div_by_multiple(1000, ROUND_TIME as int);
    }
    let progress = clamp_i64(1000 - elapsed_milli, 0, 1000);
    let off_center = if progress >= 500 { progress - 500 } else { 500 - progress };
    let edge = 2 * off_center;
    let boost = 700 + mul_div(edge, 800, 1000);
    proof {
        assert(edge == 2 * (off_center as int));
    }
    proof {
        crate::tanks::lemma_div_trunc_sym_bound(edge as int, 800, 1000, 800_000);
    }
    let target_raw = mul_div(POWERUP_BASE_SPAWN, 1000, boost);
    proof {
        crate::tanks::lemma_div_trunc_sym_bound(
            POWERUP_BASE_SPAWN as int, 1000, boost as int, 9_000_000_000);
        vstd::arithmetic::div_mod::lemma_div_is_ordered_by_denominator(
            9_000_000_000, 700, boost as int);
        vstd::arithmetic::div_mod::lemma_div_pos_is_pos(9_000_000_000, boost as int);
    }
    let target = clamp_i64(target_raw, POWERUP_MIN_SPAWN, POWERUP_MAX_SPAWN);
    let lo = mul_div(target, 85, 100);
    let hi = mul_div(target, 115, 100);
    proof {
        crate::tanks::lemma_div_trunc_sym_bound(target as int, 85, 100, 1_190_000_000);
        crate::tanks::lemma_div_trunc_sym_bound(target as int, 115, 100, 1_610_000_000);
        vstd::arithmetic::div_mod::lemma_div_pos_is_pos((target as int) * 85, 100);
        vstd::arithmetic::div_mod::lemma_div_pos_is_pos((target as int) * 115, 100);
    }
    let span = if hi > lo { hi - lo } else { 1 };
    let jitter = rng_range(rng, 0, span);
    proof {
        assert(lo >= (4_000_000i64 * 85) / 100) by {
            vstd::arithmetic::div_mod::lemma_div_is_ordered(
                340_000_000int, (target as int) * 85, 100);
            assert(4_000_000 * 85 <= (target as int) * 85) by (nonlinear_arith)
                requires target >= 4_000_000i64;
        }
    }
    lo + jitter
}

/// The powerup list one frame older: each age grows by `dt`, saturating far
/// beyond any display use.
pub open spec fn spec_age_powerups(s: Seq<Powerup>, dt: int) -> Seq<Powerup> {
    Seq::new(s.len(), |i: int| Powerup {
        age: (if s[i].age <= 4_000_000_000_000 { s[i].age + dt } else { s[i].age as int }) as i64,
        ..s[i]
    })
}

/// What holds of every freshly spawned powerup: it lies in the central part
/// of the map, outside both spawn zones, clear of every obstacle and tank.
pub open spec fn spawned_powerup_ok(p: Powerup, w: World, tanks: Seq<Tank>) -> bool {
    &&& p.age == 0
    &&& in_box(p.pos, SIM_BOX as int)
    &&& 1_280_000 <= p.pos.x < 5_120_000
    &&& 768_000 <= p.pos.y < 3_072_000
    &&& !spec_rect_contains(spec_zone_rect(Team::Red), p.pos)
    &&& !spec_rect_contains(spec_zone_rect(Team::Blue), p.pos)
    &&& forall|o: int| 0 <= o < w.obstacles@.len()
        ==> !spec_near(p.pos, (#[trigger] w.obstacles@[o]).pos,
            w.obstacles@[o].radius + 36_000)
    &&& forall|t: int| 0 <= t < tanks.len()
        ==> !spec_near(p.pos, (#[trigger] tanks[t]).pos, TANK_RADIUS + 50_000)
}

/// One frame of powerup bookkeeping: powerups age, the spawn timer runs
/// down and re-arms after every attempt, a new powerup appears when a clear
/// spot is found and the field is not full, and pickups are resolved.
pub fn update_powerups(powerups: &mut Vec<Powerup>, tanks: &mut Vec<Tank>, world: &World,
    rng: &mut rand::rngs::SmallRng, spawn_timer: &mut i64, round_timer: i64, dt: i64)
    requires
        powerups_wf(old(powerups)@),
        tanks_wf(old(tanks)@),
        world_wf(*world),
        0 <= dt <= DT_MAX,
        0 <= *old(spawn_timer) <= 16_200_000,
        0 <= round_timer <= ROUND_TIME,
        old(powerups)@.len() <= POWERUP_MAX_COUNT,
    ensures
        powerups_wf(final(powerups)@),
        tanks_wf(final(tanks)@),
        final(tanks)@.len() == old(tanks)@.len(),
        final(powerups)@.len() <= POWERUP_MAX_COUNT,
        0 <= *final(spawn_timer) <= 16_200_000,
        *old(spawn_timer) > dt ==> *final(spawn_timer) == *old(spawn_timer) - dt,
        *old(spawn_timer) <= dt ==> ({
            let target = spec_spawn_target(round_timer as int);
            let lo = spec_mul_div(target, 85, 100);
            let hi = spec_mul_div(target, 115, 100);
            let span = if hi > lo { hi - lo } else { 1int };
            lo <= *final(spawn_timer) < lo + span
        }),
        forall|t: int| 0 <= t < final(tanks)@.len()
            ==> powerup_effect(#[trigger] old(tanks)@[t], final(tanks)@[t]),
        forall|t: int| 0 <= t < final(tanks)@.len()
            ==> (#[trigger] final(tanks)@[t]).health >= old(tanks)@[t].health,
        (exists|p: int| 0 <= p < old(powerups)@.len()
            && powerup_reachable(#[trigger] old(powerups)@[p], old(tanks)@))
            ==> final(powerups)@.len() <= old(powerups)@.len(),
        (exists|p: int| 0 <= p < old(powerups)@.len()
            && powerup_reachable(#[trigger] old(powerups)@[p], old(tanks)@))
            && *old(spawn_timer) > dt
            ==> final(powerups)@.len() < old(powerups)@.len(),
        (forall|p: int| 0 <= p < old(powerups)@.len()
            ==> !powerup_reachable(#[trigger] old(powerups)@[p], old(tanks)@))
            ==> {
                &&& final(tanks)@ == old(tanks)@
                &&& final(powerups)@.len() >= old(powerups)@.len()
                &&& forall|i: int| 0 <= i < old(powerups)@.len()
                    ==> #[trigger] final(powerups)@[i] == (Powerup {
                        age: (if old(powerups)@[i].age <= 4_000_000_000_000 {
                            old(powerups)@[i].age + dt
                        } else {
                            old(powerups)@[i].age as int
                        }) as i64,
                        ..old(powerups)@[i]
                    })
            },
        exists|mid: Seq<Powerup>| {
            let aged = spec_age_powerups(old(powerups)@, dt as int);
            &&& (mid == aged || (#[trigger] mid.len() == aged.len() + 1
                && mid.subrange(0, aged.len() as int) == aged
                && spawned_powerup_ok(mid.last(), *world, old(tanks)@)))
            &&& ({
                let out = spec_collect(mid, old(tanks)@,
                    Seq::new(old(tanks)@.len(), |i: int| false));
                final(powerups)@ == out.0 && final(tanks)@ == out.1
            })
        },
{
    age_powerups(powerups, dt);

    if *spawn_timer <= dt {
        if powerups.len() < POWERUP_MAX_COUNT {
            if let Some(pos) = find_powerup_spawn(world, tanks, rng) {
                let kind = match rng_range(rng, 0, 3) {
                    0 => PowerupKind::Invincible,
                    1 => PowerupKind::RapidRange,
                    _ => PowerupKind::Heal,
                };
                powerups.push(Powerup { kind, pos, age: 0 });
            }
        }
        *spawn_timer = next_powerup_spawn_delay(rng, round_timer);
    } else {
        *spawn_timer = *spawn_timer - dt;
    }

    let ghost mid = powerups@;
    proof {
        let aged = spec_age_powerups(old(powerups)@, dt as int);
        if mid.len() == old(powerups)@.len() {
            assert(mid =~= aged);
        } else {
            assert(mid.subrange(0, aged.len() as int) =~= aged);
        }
        if exists|p: int| 0 <= p < old(powerups)@.len()
            && powerup_reachable(#[trigger] old(powerups)@[p], old(tanks)@) {
            let p = choose|p: int| 0 <= p < old(powerups)@.len()
                && powerup_reachable(#[trigger] old(powerups)@[p], old(tanks)@);
            // Aging and a possible spawn keep that powerup's position and
            // index, so it is still reachable when pickups are resolved.
            assert(mid[p].pos == old(powerups)@[p].pos);
            assert(powerup_reachable(mid[p], tanks@));
        } else {
            // No powerup was reachable, and neither aging nor a fresh spawn
            // brings one into pickup range: a spawn point keeps a wider
            // margin from every tank than the pickup radius.
            assert forall|q: int| 0 <= q < mid.len()
                implies !powerup_reachable(#[trigger] mid[q], tanks@) by {
                if q < old(powerups)@.len() {
                    assert(mid[q].pos == old(powerups)@[q].pos);
                } else {
                    assert forall|t: int| 0 <= t < tanks@.len()
                        implies !((#[trigger] tanks@[t]).alive
                            && spec_near(mid[q].pos, tanks@[t].pos,
                                TANK_RADIUS + POWERUP_PICKUP_EXTRA)) by {
                        assert(!spec_near(mid[q].pos, tanks@[t].pos, TANK_RADIUS + 50_000));
                        assert((TANK_RADIUS + POWERUP_PICKUP_EXTRA)
                            * (TANK_RADIUS + POWERUP_PICKUP_EXTRA)
                            <= (TANK_RADIUS + 50_000) * (TANK_RADIUS + 50_000))
                            by (nonlinear_arith);
                    }
                }
            }
        }
    }
    collect_powerups(powerups, tanks);
}

/// Ages every powerup by `dt`; the age is cosmetic and saturates far beyond
/// any display use.
fn age_powerups(powerups: &mut Vec<Powerup>, dt: i64)
    requires
        powerups_wf(old(powerups)@),
        0 <= dt <= DT_MAX,
    ensures
        powerups_wf(final(powerups)@),
        final(powerups)@.len() == old(powerups)@.len(),
        final(powerups)@ == spec_age_powerups(old(powerups)@, dt as int),
        forall|i: int| 0 <= i < final(powerups)@.len()
            ==> #[trigger] final(powerups)@[i] == (Powerup {
                age: (if old(powerups)@[i].age <= 4_000_000_000_000 {
                    old(powerups)@[i].age + dt
                } else {
                    old(powerups)@[i].age as int
                }) as i64,
                ..old(powerups)@[i]
            }),
{
    let n = powerups.len();
    let mut i: usize = 0;
    while i < n
        invariant
            n == powerups@.len(),
            powerups_wf(powerups@),
            0 <= dt <= DT_MAX,
            i <= n,
            forall|k: int| i <= k < n ==> #[trigger] powerups@[k] == old(powerups)@[k],
            forall|k: int| 0 <= k < i
                ==> #[trigger] powerups@[k] == (Powerup {
                    age: (if old(powerups)@[k].age <= 4_000_000_000_000 {
                        old(powerups)@[k].age + dt
                    } else {
                        old(powerups)@[k].age as int
                    }) as i64,
                    ..old(powerups)@[k]
                }),
        decreases n - i,
    {
        let mut pw = powerups[i];
        if pw.age <= 4_000_000_000_000 {
            pw.age = pw.age + dt;
            powerups.set(i, pw);
        } else {
            powerups.set(i, pw);
        }
        i = i + 1;
    }
    proof {
        assert(powerups@ =~= spec_age_powerups(old(powerups)@, dt as int));
    }
}

} // verus!
