//! Bullet advancement and hit resolution, and the aging of the cosmetic
//! track marks and explosions.

use vstd::prelude::*;

use crate::config::{
    BULLET_DAMAGE, BULLET_RADIUS, DT_MAX, EXPLOSION_LIFE, HEALTH_FLASH_TIME, RESPAWN_TIME,
    TANK_RADIUS, TRACK_LIFE,
};
use crate::entities::{
    bullets_wf, explosions_wf, tank_same_except_damage, tank_wf, tanks_wf, tracks_wf, Bullet,
    Explosion, SmokeColor, Tank, Team, TrackMark, SIM_BOX,
};
use crate::math::{
    clamp_to_box, in_box, point_in_bounds, rect_contains, spec_near, spec_rect_contains,
    vec2_add, vec2_scale, within, Vec2, POS_LIMIT,
};
use crate::world::{spec_zone_rect, world_wf, World};

verus! {

/// How one bullet pass may change a tank: health only falls, and only by
/// whole damage steps (or to the floor of zero); an invincible or dead tank
/// is untouched; a newly dead tank has zero health and a fresh respawn
/// timer; damage always lights the health flash.
pub open spec fn damage_evolution(a: Tank, b: Tank) -> bool {
    &&& tank_same_except_damage(a, b)
    &&& b.health <= a.health
    &&& (a.invincible_timer > 0 ==> b == a)
    &&& (!a.alive ==> b == a)
    &&& (b.health == 0
        || exists|k: int| k >= 0 && a.health - b.health == #[trigger] (k * BULLET_DAMAGE))
    &&& (b.health < a.health ==> b.health_flash == HEALTH_FLASH_TIME && a.invincible_timer <= 0)
    &&& (b.health == a.health && b.alive == a.alive ==> b.health_flash == a.health_flash)
    &&& (b.alive != a.alive ==> a.alive && !b.alive && b.health == 0
        && b.respawn_timer == RESPAWN_TIME && b.health_flash == HEALTH_FLASH_TIME)
    &&& (b.alive == a.alive ==> b.respawn_timer == a.respawn_timer)
}

/// Number of living tanks in the sequence.
pub open spec fn count_alive(s: Seq<Tank>) -> int
    decreases s.len(),
{
    if s.len() == 0 {
        0
    } else {
        count_alive(s.drop_last()) + if s.last().alive { 1int } else { 0int }
    }
}

/// How replacing one tank changes the number of living tanks.
proof fn lemma_count_alive_update(s: Seq<Tank>, i: int, t: Tank)
    requires
        0 <= i < s.len(),
    ensures
        count_alive(s.update(i, t)) == count_alive(s)
            + (if t.alive { 1int } else { 0int })
            - (if s[i].alive { 1int } else { 0int }),
    decreases s.len(),
{
    if i == s.len() - 1 {
        assert(s.update(i, t).drop_last() =~= s.drop_last());
        assert(s.update(i, t).last() == t);
    } else {
        assert(s.update(i, t).drop_last() =~= s.drop_last().update(i, t));
        lemma_count_alive_update(s.drop_last(), i, t);
        assert(s.update(i, t).last() == s.last());
    }
}

/// The count of living tanks is never negative.
proof fn lemma_count_alive_nonneg(s: Seq<Tank>)
    ensures
        count_alive(s) >= 0,
    decreases s.len(),
{
    if s.len() > 0 {
        lemma_count_alive_nonneg(s.drop_last());
    }
}

/// A sequence holding a living tank counts at least one.
proof fn lemma_count_alive_pos(s: Seq<Tank>, i: int)
    requires
        0 <= i < s.len(),
        s[i].alive,
    ensures
        count_alive(s) >= 1,
    decreases s.len(),
{
    lemma_count_alive_nonneg(s.drop_last());
    if i < s.len() - 1 {
        lemma_count_alive_pos(s.drop_last(), i);
    }
}

/// A tank left alone trivially satisfies the damage evolution.
proof fn lemma_damage_evolution_refl(a: Tank)
    ensures
        damage_evolution(a, a),
{
    assert(a.health - a.health == 0 * BULLET_DAMAGE);
}

/// Damage evolution composes across successive bullets.
proof fn lemma_damage_evolution_trans(a: Tank, b: Tank, c: Tank)
    requires
        damage_evolution(a, b),
        damage_evolution(b, c),
        c.health >= 0,
    ensures
        damage_evolution(a, c),
{
    if c.health != 0 {
        assert(b.health != 0);
        let k1 = choose|k: int| k >= 0 && a.health - b.health == #[trigger] (k * BULLET_DAMAGE);
        let k2 = choose|k: int| k >= 0 && b.health - c.health == #[trigger] (k * BULLET_DAMAGE);
        assert(a.health - c.health == (k1 + k2) * BULLET_DAMAGE) by (nonlinear_arith)
            requires
                a.health - b.health == k1 * BULLET_DAMAGE,
                b.health - c.health == k2 * BULLET_DAMAGE;
    }
}

/// Damage evolution composed over a whole tank list.
proof fn lemma_damage_evolution_seq_trans(a: Seq<Tank>, b: Seq<Tank>, c: Seq<Tank>)
    requires
        a.len() == b.len() == c.len(),
        forall|t: int| 0 <= t < a.len() ==> damage_evolution(#[trigger] a[t], b[t]),
        forall|t: int| 0 <= t < a.len() ==> damage_evolution(#[trigger] b[t], c[t]),
        tanks_wf(c),
    ensures
        forall|t: int| 0 <= t < a.len() ==> damage_evolution(#[trigger] a[t], c[t]),
{
    assert forall|t: int| 0 <= t < a.len() implies damage_evolution(#[trigger] a[t], c[t]) by {
        assert(tank_wf(c[t]));
        lemma_damage_evolution_trans(a[t], b[t], c[t]);
    }
}

/// Where one frame moves a bullet: the position advances by the velocity
/// scaled by `dt`, and the remaining life shrinks by `dt`.
pub open spec fn spec_advance_bullet(b: Bullet, dt: int) -> Bullet {
    Bullet {
        pos: Vec2 {
            x: (b.pos.x + crate::math::spec_mul_div(b.vel.x as int, dt, 1_000_000)) as i64,
            y: (b.pos.y + crate::math::spec_mul_div(b.vel.y as int, dt, 1_000_000)) as i64,
        },
        life: (b.life - dt) as i64,
        ..b
    }
}

/// A bullet that this frame cannot remove: it outlives the frame, and its
/// advanced position stays inside the world, outside foreign spawn zones,
/// and clear of every obstacle and every living enemy tank.
pub open spec fn bullet_safe(b: Bullet, w: World, tanks: Seq<Tank>, dt: int) -> bool {
    let nb = spec_advance_bullet(b, dt);
    &&& b.life > dt
    &&& spec_rect_contains(
        crate::math::Rect { x: 0, y: 0, w: crate::world::WORLD_W_MPX,
            h: crate::world::WORLD_H_MPX },
        nb.pos,
    )
    &&& !(spec_rect_contains(spec_zone_rect(Team::Red), nb.pos) && b.team != Team::Red)
    &&& !(spec_rect_contains(spec_zone_rect(Team::Blue), nb.pos) && b.team != Team::Blue)
    &&& forall|o: int| 0 <= o < w.obstacles@.len()
        ==> !spec_near(nb.pos, (#[trigger] w.obstacles@[o]).pos,
            w.obstacles@[o].radius + BULLET_RADIUS)
    &&& bullet_clear_of_tanks(nb, tanks)
}

/// The whole bullet pass as one function of the frame's inputs: each bullet
/// in order ages out, leaves the world, enters a foreign zone, bursts on an
/// obstacle, strikes the first living enemy in its hit radius (absorbed by
/// invincibility, else one damage step, with a kill credited to the
/// shooter's team), or survives advanced by its velocity.
pub open spec fn spec_bullet_pass(
    bullets: Seq<Bullet>,
    tanks: Seq<Tank>,
    explosions: Seq<Explosion>,
    red: u64,
    blue: u64,
    w: World,
    dt: int,
) -> (Seq<Bullet>, Seq<Tank>, Seq<Explosion>, u64, u64)
    decreases bullets.len(),
{
    if bullets.len() == 0 {
        (Seq::empty(), tanks, explosions, red, blue)
    } else {
        let b = bullets[0];
        let rest = bullets.subrange(1, bullets.len() as int);
        let nb = spec_advance_bullet(b, dt);
        if b.life <= dt {
            spec_bullet_pass(rest, tanks, explosions, red, blue, w, dt)
        } else if !spec_rect_contains(
            crate::math::Rect { x: 0, y: 0, w: crate::world::WORLD_W_MPX,
                h: crate::world::WORLD_H_MPX },
            nb.pos,
        ) {
            spec_bullet_pass(rest, tanks, explosions, red, blue, w, dt)
        } else if (spec_rect_contains(spec_zone_rect(Team::Red), nb.pos) && b.team != Team::Red)
            || (spec_rect_contains(spec_zone_rect(Team::Blue), nb.pos)
                && b.team != Team::Blue) {
            spec_bullet_pass(rest, tanks, explosions, red, blue, w, dt)
        } else if exists|o: int| 0 <= o < w.obstacles@.len()
            && spec_near(nb.pos, (#[trigger] w.obstacles@[o]).pos,
                w.obstacles@[o].radius + BULLET_RADIUS) {
            let burst = explosions
                .push(Explosion { pos: nb.pos, color: SmokeColor::Grey, age: 0 })
                .push(Explosion {
                    pos: crate::math::spec_clamp_to_box(
                        crate::math::spec_vec2_add(nb.pos, Vec2 { x: 12_000i64, y: -8_000i64 }),
                        SIM_BOX as int),
                    color: SmokeColor::White,
                    age: 0,
                });
            spec_bullet_pass(rest, tanks, burst, red, blue, w, dt)
        } else if spec_hit_index(nb, tanks, 0) >= 0 {
            let t = spec_hit_index(nb, tanks, 0);
            let victim = tanks[t];
            if victim.invincible_timer > 0 {
                let puff = explosions.push(Explosion {
                    pos: crate::math::spec_clamp_to_box(nb.pos, SIM_BOX as int),
                    color: SmokeColor::White,
                    age: 0,
                });
                spec_bullet_pass(rest, tanks, puff, red, blue, w, dt)
            } else {
                let struck = spec_damaged_tank(victim);
                let tanks2 = tanks.update(t, struck);
                if struck.health == 0 {
                    let pair = explosions
                        .push(Explosion { pos: victim.pos, color: SmokeColor::Orange, age: 0 })
                        .push(Explosion {
                            pos: crate::math::spec_clamp_to_box(
                                crate::math::spec_vec2_add(victim.pos,
                                    Vec2 { x: -12_000i64, y: 10_000i64 }),
                                SIM_BOX as int),
                            color: SmokeColor::Yellow,
                            age: 0,
                        });
                    if b.team == Team::Red {
                        spec_bullet_pass(rest, tanks2, pair, spec_bump(red), blue, w, dt)
                    } else {
                        spec_bullet_pass(rest, tanks2, pair, red, spec_bump(blue), w, dt)
                    }
                } else {
                    spec_bullet_pass(rest, tanks2, explosions, red, blue, w, dt)
                }
            }
        } else {
            let out = spec_bullet_pass(rest, tanks, explosions, red, blue, w, dt);
            (seq![nb] + out.0, out.1, out.2, out.3, out.4)
        }
    }
}

/// A bullet stands clear of every living tank of the other team.
pub open spec fn bullet_clear_of_tanks(b: Bullet, tanks: Seq<Tank>) -> bool {
    forall|t: int| 0 <= t < tanks.len() && (#[trigger] tanks[t]).alive && tanks[t].team != b.team
        ==> !spec_near(b.pos, tanks[t].pos, TANK_RADIUS + BULLET_RADIUS)
}

/// A bullet clear of every living enemy strikes nobody.
proof fn lemma_clear_no_hit(b: Bullet, tanks: Seq<Tank>, i: int)
    requires
        bullet_clear_of_tanks(b, tanks),
        0 <= i <= tanks.len(),
    ensures
        spec_hit_index(b, tanks, i) == -1,
    decreases tanks.len() - i,
{
    if i < tanks.len() {
        lemma_clear_no_hit(b, tanks, i + 1);
    }
}

/// Further bullet hits never bring a bullet closer to a living enemy: tanks
/// keep their positions and only fall out of the living set.
proof fn lemma_clear_preserved(b: Bullet, pre: Seq<Tank>, post: Seq<Tank>)
    requires
        pre.len() == post.len(),
        forall|t: int| 0 <= t < pre.len() ==> damage_evolution(#[trigger] pre[t], post[t]),
        bullet_clear_of_tanks(b, pre),
    ensures
        bullet_clear_of_tanks(b, post),
{
    assert forall|t: int|
        0 <= t < post.len() && (#[trigger] post[t]).alive && post[t].team != b.team
        implies !spec_near(b.pos, post[t].pos, TANK_RADIUS + BULLET_RADIUS) by {
        assert(damage_evolution(pre[t], post[t]));
        assert(pre[t].alive && pre[t].team != b.team && pre[t].pos == post[t].pos);
    }
}

/// Appends one explosion puff.
fn spawn_explosion(explosions: &mut Vec<Explosion>, pos: Vec2, color: SmokeColor)
    requires
        explosions_wf(old(explosions)@),
        in_box(pos, SIM_BOX as int),
    ensures
        explosions_wf(final(explosions)@),
        final(explosions)@ == old(explosions)@.push(Explosion { pos, color, age: 0 }),
        final(explosions)@.len() == old(explosions)@.len() + 1,
{
    explosions.push(Explosion { pos, color, age: 0 });
}

/// Appends a primary puff at `pos` and a secondary one at a small offset.
fn spawn_explosion_pair(explosions: &mut Vec<Explosion>, pos: Vec2, primary: SmokeColor,
    secondary: SmokeColor, offset: Vec2)
    requires
        explosions_wf(old(explosions)@),
        in_box(pos, SIM_BOX as int),
        in_box(offset, 100_000),
    ensures
        explosions_wf(final(explosions)@),
        final(explosions)@ == old(explosions)@
            .push(Explosion { pos, color: primary, age: 0 })
            .push(Explosion {
                pos: crate::math::spec_clamp_to_box(
                    crate::math::spec_vec2_add(pos, offset), SIM_BOX as int),
                color: secondary,
                age: 0,
            }),
        final(explosions)@.len() == old(explosions)@.len() + 2,
{
    spawn_explosion(explosions, pos, primary);
    let second = clamp_to_box(vec2_add(pos, offset), SIM_BOX);
    spawn_explosion(explosions, second, secondary);
}

/// The first living enemy tank of the bullet within the hit radius, scanned
/// from index `i` upward; `-1` when none is struck.
pub open spec fn spec_hit_index(b: Bullet, tanks: Seq<Tank>, i: int) -> int
    decreases tanks.len() - i,
{
    if i < 0 || i >= tanks.len() {
        -1
    } else if tanks[i].alive && tanks[i].team != b.team
        && spec_near(b.pos, tanks[i].pos, TANK_RADIUS + BULLET_RADIUS) {
        i
    } else {
        spec_hit_index(b, tanks, i + 1)
    }
}

/// A kill counter one kill later, saturating at the integer limit.
pub open spec fn spec_bump(k: u64) -> u64 {
    if k < u64::MAX {
        (k + 1) as u64
    } else {
        k
    }
}

/// What one non-absorbed hit does to a tank: one damage step off its
/// health (floored at zero) and the health flash lit; a tank falling to
/// zero dies and starts its respawn timer.
pub open spec fn spec_damaged_tank(t: Tank) -> Tank {
    let h = if t.health - BULLET_DAMAGE >= 0 { (t.health - BULLET_DAMAGE) as i64 } else { 0i64 };
    if h == 0 {
        Tank {
            health: h,
            health_flash: HEALTH_FLASH_TIME,
            alive: false,
            respawn_timer: RESPAWN_TIME,
            ..t
        }
    } else {
        Tank { health: h, health_flash: HEALTH_FLASH_TIME, ..t }
    }
}

/// Tries the bullet against every living enemy tank; the first one within
/// the hit radius takes the hit. An invincible target absorbs the bullet
/// without damage; otherwise the target loses one damage step of health
/// (floored at zero), and a tank falling to zero dies, starts its respawn
/// timer and credits the shooter's team with a kill.
fn bullet_hit_tanks(b: &Bullet, tanks: &mut Vec<Tank>, explosions: &mut Vec<Explosion>,
    kills_red: &mut u64, kills_blue: &mut u64) -> (hit: bool)
    requires
        tanks_wf(old(tanks)@),
        explosions_wf(old(explosions)@),
        in_box(b.pos, POS_LIMIT as int),
    ensures
        tanks_wf(final(tanks)@),
        explosions_wf(final(explosions)@),
        final(tanks)@.len() == old(tanks)@.len(),
        forall|t: int| 0 <= t < final(tanks)@.len()
            ==> damage_evolution(#[trigger] old(tanks)@[t], final(tanks)@[t]),
        *final(kills_red) >= *old(kills_red),
        *final(kills_blue) >= *old(kills_blue),
        *old(kills_red) + *old(kills_blue) + count_alive(old(tanks)@) <= u64::MAX
            ==> *final(kills_red) + *final(kills_blue) + count_alive(final(tanks)@)
                == *old(kills_red) + *old(kills_blue) + count_alive(old(tanks)@),
        !hit ==> {
            &&& final(tanks)@ == old(tanks)@
            &&& final(explosions)@ == old(explosions)@
            &&& *final(kills_red) == *old(kills_red)
            &&& *final(kills_blue) == *old(kills_blue)
            &&& forall|t: int| 0 <= t < old(tanks)@.len()
                && (#[trigger] old(tanks)@[t]).alive && old(tanks)@[t].team != b.team
                ==> !spec_near(b.pos, old(tanks)@[t].pos, TANK_RADIUS + BULLET_RADIUS)
        },
        hit == (spec_hit_index(*b, old(tanks)@, 0) >= 0),
        hit ==> ({
            let t = spec_hit_index(*b, old(tanks)@, 0);
            let victim = old(tanks)@[t];
            if victim.invincible_timer > 0 {
                &&& final(tanks)@ == old(tanks)@
                &&& final(explosions)@ == old(explosions)@.push(Explosion {
                    pos: crate::math::spec_clamp_to_box(b.pos, SIM_BOX as int),
                    color: SmokeColor::White,
                    age: 0,
                })
                &&& *final(kills_red) == *old(kills_red)
                &&& *final(kills_blue) == *old(kills_blue)
            } else {
                let struck = spec_damaged_tank(victim);
                &&& final(tanks)@ == old(tanks)@.update(t, struck)
                &&& if struck.health == 0 {
                    &&& final(explosions)@ == old(explosions)@
                        .push(Explosion { pos: victim.pos, color: SmokeColor::Orange, age: 0 })
                        .push(Explosion {
                            pos: crate::math::spec_clamp_to_box(
                                crate::math::spec_vec2_add(victim.pos,
                                    Vec2 { x: -12_000i64, y: 10_000i64 }),
                                SIM_BOX as int),
                            color: SmokeColor::Yellow,
                            age: 0,
                        })
                    &&& *final(kills_red) == if b.team == Team::Red {
                        spec_bump(*old(kills_red))
                    } else {
                        *old(kills_red)
                    }
                    &&& *final(kills_blue) == if b.team == Team::Blue {
                        spec_bump(*old(kills_blue))
                    } else {
                        *old(kills_blue)
                    }
                } else {
                    &&& final(explosions)@ == old(explosions)@
                    &&& *final(kills_red) == *old(kills_red)
                    &&& *final(kills_blue) == *old(kills_blue)
                }
            }
        }),
{
    let n = tanks.len();
    let mut t: usize = 0;
    while t < n
        invariant
            n == tanks@.len(),
            tanks_wf(tanks@),
            explosions_wf(explosions@),
            in_box(b.pos, POS_LIMIT as int),
            t <= n,
            tanks@ == old(tanks)@,
            explosions@ == old(explosions)@,
            *kills_red == *old(kills_red),
            *kills_blue == *old(kills_blue),
            forall|m: int| 0 <= m < t && (#[trigger] tanks@[m]).alive && tanks@[m].team != b.team
                ==> !spec_near(b.pos, tanks@[m].pos, TANK_RADIUS + BULLET_RADIUS),
            spec_hit_index(*b, tanks@, 0) == spec_hit_index(*b, tanks@, t as int),
        decreases n - t,
    {
        proof {
            assert forall|m: int| 0 <= m < tanks@.len()
                implies damage_evolution(#[trigger] old(tanks)@[m], tanks@[m]) by {
                lemma_damage_evolution_refl(old(tanks)@[m]);
            }
        }
        let target = tanks[t];
        if target.alive && !teams_equal(target.team, b.team)
            && within(b.pos, target.pos, TANK_RADIUS + BULLET_RADIUS) {
            if target.invincible_timer == 0 {
                let mut hit_tank = target;
                hit_tank.health = crate::math::timer_sub(target.health, BULLET_DAMAGE);
                hit_tank.health_flash = HEALTH_FLASH_TIME;
                if hit_tank.health == 0 {
                    hit_tank.alive = false;
                    hit_tank.respawn_timer = RESPAWN_TIME;
                    proof {
                        lemma_count_alive_pos(tanks@, t as int);
                    }
                    match b.team {
                        Team::Red => {
                            *kills_red = bump_kill(*kills_red);
                        },
                        Team::Blue => {
                            *kills_blue = bump_kill(*kills_blue);
                        },
                    }
                    spawn_explosion_pair(explosions, target.pos, SmokeColor::Orange,
                        SmokeColor::Yellow, Vec2 { x: -12_000, y: 10_000 });
                }
                proof {
                    if hit_tank.health != 0 {
                        assert(target.health - hit_tank.health == 1 * BULLET_DAMAGE);
                    }
                    lemma_count_alive_update(tanks@, t as int, hit_tank);
                }
                tanks.set(t, hit_tank);
                proof {
                    assert forall|m: int| 0 <= m < tanks@.len()
                        implies damage_evolution(#[trigger] old(tanks)@[m], tanks@[m]) by {
                        if m != t {
                            lemma_damage_evolution_refl(old(tanks)@[m]);
                        }
                    }
                }
            } else {
                let puff = clamp_to_box(b.pos, SIM_BOX);
                spawn_explosion(explosions, puff, SmokeColor::White);
                proof {
                    assert forall|m: int| 0 <= m < tanks@.len()
                        implies damage_evolution(#[trigger] old(tanks)@[m], tanks@[m]) by {
                        lemma_damage_evolution_refl(old(tanks)@[m]);
                    }
                }
            }
            return true;
        }
        t = t + 1;
    }
    proof {
        assert forall|m: int| 0 <= m < tanks@.len()
            implies damage_evolution(#[trigger] old(tanks)@[m], tanks@[m]) by {
            lemma_damage_evolution_refl(old(tanks)@[m]);
        }
    }
    false
}

/// Whether two teams are the same side.
fn teams_equal(a: Team, b: Team) -> (r: bool)
    ensures
        r == (a == b),
{
    match (a, b) {
        (Team::Red, Team::Red) => true,
        (Team::Blue, Team::Blue) => true,
        _ => false,
    }
}

/// Increments a kill counter, saturating at the integer limit.
fn bump_kill(k: u64) -> (r: u64)
    ensures
        r == if k < u64::MAX { k + 1 } else { k as int },
{
    if k < u64::MAX {
        k + 1
    } else {
        k
    }
}

/// One frame of bullet simulation: each bullet ages out at the end of its
/// life, advances by its velocity, and is removed when it leaves the world,
/// enters a spawn zone of the other team, strikes an obstacle, or strikes a
/// living enemy tank. Every surviving bullet is alive, inside the world,
/// outside foreign zones, and clear of obstacles and of every tank that is
/// still alive and hostile to it.
pub fn update_bullets(bullets: &mut Vec<Bullet>, tanks: &mut Vec<Tank>, world: &World,
    explosions: &mut Vec<Explosion>, kills_red: &mut u64, kills_blue: &mut u64, dt: i64)
    requires
        bullets_wf(old(bullets)@),
        tanks_wf(old(tanks)@),
        explosions_wf(old(explosions)@),
        world_wf(*world),
        0 <= dt <= DT_MAX,
    ensures
        bullets_wf(final(bullets)@),
        tanks_wf(final(tanks)@),
        explosions_wf(final(explosions)@),
        final(tanks)@.len() == old(tanks)@.len(),
        final(bullets)@.len() <= old(bullets)@.len(),
        forall|t: int| 0 <= t < final(tanks)@.len()
            ==> damage_evolution(#[trigger] old(tanks)@[t], final(tanks)@[t]),
        *final(kills_red) >= *old(kills_red),
        *final(kills_blue) >= *old(kills_blue),
        *old(kills_red) + *old(kills_blue) + count_alive(old(tanks)@) <= u64::MAX
            ==> *final(kills_red) + *final(kills_blue) + count_alive(final(tanks)@)
                == *old(kills_red) + *old(kills_blue) + count_alive(old(tanks)@),
        ({
            let full = spec_bullet_pass(old(bullets)@, old(tanks)@, old(explosions)@,
                *old(kills_red), *old(kills_blue), *world, dt as int);
            &&& final(bullets)@ == full.0
            &&& final(tanks)@ == full.1
            &&& final(explosions)@ == full.2
            &&& *final(kills_red) == full.3
            &&& *final(kills_blue) == full.4
        }),
        (forall|j: int| 0 <= j < old(bullets)@.len()
            ==> bullet_safe(#[trigger] old(bullets)@[j], *world, old(tanks)@, dt as int))
            ==> {
                &&& final(bullets)@.len() == old(bullets)@.len()
                &&& forall|j: int| 0 <= j < old(bullets)@.len()
                    ==> final(bullets)@[j]
                        == spec_advance_bullet(#[trigger] old(bullets)@[j], dt as int)
                &&& final(tanks)@ == old(tanks)@
                &&& final(explosions)@ == old(explosions)@
                &&& *final(kills_red) == *old(kills_red)
                &&& *final(kills_blue) == *old(kills_blue)
            },
        forall|i: int| 0 <= i < final(bullets)@.len() ==> {
            &&& (#[trigger] final(bullets)@[i]).life > 0
            &&& spec_rect_contains(
                crate::math::Rect { x: 0, y: 0, w: crate::world::WORLD_W_MPX,
                    h: crate::world::WORLD_H_MPX },
                final(bullets)@[i].pos,
            )
            &&& !(spec_rect_contains(spec_zone_rect(Team::Red), final(bullets)@[i].pos)
                && final(bullets)@[i].team != Team::Red)
            &&& !(spec_rect_contains(spec_zone_rect(Team::Blue), final(bullets)@[i].pos)
                && final(bullets)@[i].team != Team::Blue)
            &&& forall|o: int| 0 <= o < world.obstacles@.len()
                ==> !spec_near(final(bullets)@[i].pos, (#[trigger] world.obstacles@[o]).pos,
                    world.obstacles@[o].radius + BULLET_RADIUS)
            &&& bullet_clear_of_tanks(final(bullets)@[i], final(tanks)@)
            &&& exists|j: int| 0 <= j < old(bullets)@.len()
                && final(bullets)@[i].life == (#[trigger] old(bullets)@[j]).life - dt
        },
{
    proof {
        assert forall|m: int| 0 <= m < tanks@.len()
            implies damage_evolution(#[trigger] old(tanks)@[m], tanks@[m]) by {
            lemma_damage_evolution_refl(old(tanks)@[m]);
        }
        assert(bullets@.subrange(0, bullets@.len() as int) =~= bullets@);
        assert(Seq::<Bullet>::empty()
            + spec_bullet_pass(bullets@, tanks@, explosions@, *kills_red, *kills_blue, *world,
                dt as int).0
            =~= spec_bullet_pass(bullets@, tanks@, explosions@, *kills_red, *kills_blue, *world,
                dt as int).0);
    }
    let mut survivors: Vec<Bullet> = Vec::new();
    let mut idx: usize = 0;
    let n = bullets.len();
    while idx < n
        invariant
            n == bullets@.len(),
            bullets@ == old(bullets)@,
            bullets_wf(bullets@),
            tanks_wf(tanks@),
            explosions_wf(explosions@),
            world_wf(*world),
            0 <= dt <= DT_MAX,
            idx <= n,
            tanks@.len() == old(tanks)@.len(),
            survivors@.len() <= idx,
            forall|t: int| 0 <= t < tanks@.len()
                ==> damage_evolution(#[trigger] old(tanks)@[t], tanks@[t]),
            *kills_red >= *old(kills_red),
            *kills_blue >= *old(kills_blue),
            *old(kills_red) + *old(kills_blue) + count_alive(old(tanks)@) <= u64::MAX
                ==> *kills_red + *kills_blue + count_alive(tanks@)
                    == *old(kills_red) + *old(kills_blue) + count_alive(old(tanks)@),
            ({
                let full = spec_bullet_pass(old(bullets)@, old(tanks)@, old(explosions)@,
                    *old(kills_red), *old(kills_blue), *world, dt as int);
                let rest = spec_bullet_pass(bullets@.subrange(idx as int, n as int), tanks@,
                    explosions@, *kills_red, *kills_blue, *world, dt as int);
                &&& full.0 == survivors@ + rest.0
                &&& full.1 == rest.1
                &&& full.2 == rest.2
                &&& full.3 == rest.3
                &&& full.4 == rest.4
            }),
            (forall|j: int| 0 <= j < bullets@.len()
                ==> bullet_safe(#[trigger] bullets@[j], *world, old(tanks)@, dt as int))
                ==> {
                    &&& survivors@.len() == idx
                    &&& forall|j: int| 0 <= j < idx as int
                        ==> survivors@[j]
                            == spec_advance_bullet(#[trigger] bullets@[j], dt as int)
                    &&& tanks@ == old(tanks)@
                    &&& explosions@ == old(explosions)@
                    &&& *kills_red == *old(kills_red)
                    &&& *kills_blue == *old(kills_blue)
                },
            bullets_wf(survivors@),
            forall|i: int| 0 <= i < survivors@.len() ==> {
                &&& (#[trigger] survivors@[i]).life > 0
                &&& spec_rect_contains(
                    crate::math::Rect { x: 0, y: 0, w: crate::world::WORLD_W_MPX,
                        h: crate::world::WORLD_H_MPX },
                    survivors@[i].pos,
                )
                &&& !(spec_rect_contains(spec_zone_rect(Team::Red), survivors@[i].pos)
                    && survivors@[i].team != Team::Red)
                &&& !(spec_rect_contains(spec_zone_rect(Team::Blue), survivors@[i].pos)
                    && survivors@[i].team != Team::Blue)
                &&& forall|o: int| 0 <= o < world.obstacles@.len()
                    ==> !spec_near(survivors@[i].pos, (#[trigger] world.obstacles@[o]).pos,
                        world.obstacles@[o].radius + BULLET_RADIUS)
                &&& bullet_clear_of_tanks(survivors@[i], tanks@)
                &&& exists|j: int| 0 <= j < bullets@.len()
                    && survivors@[i].life == (#[trigger] bullets@[j]).life - dt
            },
        decreases n - idx,
    {
        let ghost cur = idx as int;
        let ghost tanks0 = tanks@;
        let ghost expl0 = explosions@;
        let ghost kr0 = *kills_red;
        let ghost kb0 = *kills_blue;
        proof {
            assert(bullets@.subrange(cur, n as int).len() == n - cur);
            assert(bullets@.subrange(cur, n as int)[0] == bullets@[cur]);
            assert(bullets@.subrange(cur, n as int).subrange(1, n - cur)
                =~= bullets@.subrange(cur + 1, n as int));
        }
        let mut b = bullets[idx];
        idx = idx + 1;
        if b.life <= dt {
            proof {
                assert(spec_bullet_pass(bullets@.subrange(cur, n as int), tanks0, expl0, kr0,
                    kb0, *world, dt as int)
                    == spec_bullet_pass(bullets@.subrange(cur + 1, n as int), tanks@,
                        explosions@, *kills_red, *kills_blue, *world, dt as int));
            }
            continue;
        }
        b.life = b.life - dt;
        proof {
            assert(b.life == bullets@[cur].life - dt);
        }
        proof {
            assert(-60_000_000_000_000 <= b.vel.x * dt <= 60_000_000_000_000)
                by (nonlinear_arith)
                requires -1_000_000 <= b.vel.x <= 1_000_000, 0 <= dt <= 60_000_000;
            assert(-60_000_000_000_000 <= b.vel.y * dt <= 60_000_000_000_000)
                by (nonlinear_arith)
                requires -1_000_000 <= b.vel.y <= 1_000_000, 0 <= dt <= 60_000_000;
        }
        let step = vec2_scale(b.vel, dt, 1_000_000);
        proof {
            crate::tanks::lemma_div_trunc_sym_bound(
                b.vel.x as int, dt as int, 1_000_000, 60_000_000_000_000);
            crate::tanks::lemma_div_trunc_sym_bound(
                b.vel.y as int, dt as int, 1_000_000, 60_000_000_000_000);
        }
        b.pos = vec2_add(b.pos, step);

        proof {
            assert(b == spec_advance_bullet(bullets@[cur], dt as int));
        }
        let bounds = world.world_bounds();
        if !point_in_bounds(b.pos, &bounds) {
            proof {
                assert(spec_bullet_pass(bullets@.subrange(cur, n as int), tanks0, expl0, kr0,
                    kb0, *world, dt as int)
                    == spec_bullet_pass(bullets@.subrange(cur + 1, n as int), tanks@,
                        explosions@, *kills_red, *kills_blue, *world, dt as int));
            }
            continue;
        }
        let red_zone = world.zone_rect(Team::Red);
        let blue_zone = world.zone_rect(Team::Blue);
        let in_red = rect_contains(&red_zone, b.pos);
        let in_blue = rect_contains(&blue_zone, b.pos);
        if (in_red && !teams_equal(b.team, Team::Red))
            || (in_blue && !teams_equal(b.team, Team::Blue)) {
            proof {
                assert(spec_bullet_pass(bullets@.subrange(cur, n as int), tanks0, expl0, kr0,
                    kb0, *world, dt as int)
                    == spec_bullet_pass(bullets@.subrange(cur + 1, n as int), tanks@,
                        explosions@, *kills_red, *kills_blue, *world, dt as int));
            }
            continue;
        }

        if bullet_hits_obstacle(world, b.pos, explosions) {
            proof {
                assert(spec_bullet_pass(bullets@.subrange(cur, n as int), tanks0, expl0, kr0,
                    kb0, *world, dt as int)
                    == spec_bullet_pass(bullets@.subrange(cur + 1, n as int), tanks@,
                        explosions@, *kills_red, *kills_blue, *world, dt as int));
            }
            continue;
        }

        let ghost pre = tanks@;
        let hit = bullet_hit_tanks(&b, tanks, explosions, kills_red, kills_blue);
        proof {
            lemma_damage_evolution_seq_trans(old(tanks)@, pre, tanks@);
            assert forall|i: int| 0 <= i < survivors@.len()
                implies bullet_clear_of_tanks(#[trigger] survivors@[i], tanks@) by {
                lemma_clear_preserved(survivors@[i], pre, tanks@);
            }
            if forall|j: int| 0 <= j < bullets@.len()
                ==> bullet_safe(#[trigger] bullets@[j], *world, old(tanks)@, dt as int) {
                // A safe bullet is clear of every living enemy and so
                // strikes nobody.
                assert(bullet_safe(bullets@[cur], *world, old(tanks)@, dt as int));
                lemma_clear_no_hit(b, pre, 0);
            }
        }
        if hit {
            proof {
                assert(spec_bullet_pass(bullets@.subrange(cur, n as int), tanks0, expl0, kr0,
                    kb0, *world, dt as int)
                    == spec_bullet_pass(bullets@.subrange(cur + 1, n as int), tanks@,
                        explosions@, *kills_red, *kills_blue, *world, dt as int));
            }
            continue;
        }
        proof {
            assert(in_box(b.pos, SIM_BOX as int));
            let rest_now = spec_bullet_pass(bullets@.subrange(cur, n as int), tanks0, expl0,
                kr0, kb0, *world, dt as int);
            let rest_next = spec_bullet_pass(bullets@.subrange(cur + 1, n as int), tanks@,
                explosions@, *kills_red, *kills_blue, *world, dt as int);
            assert(rest_now.0 == seq![b] + rest_next.0);
            assert(survivors@.push(b) + rest_next.0 =~= survivors@ + (seq![b] + rest_next.0));
        }
        survivors.push(b);
    }
    proof {
        assert(bullets@.subrange(n as int, n as int).len() == 0);
        assert(survivors@ + Seq::<Bullet>::empty() =~= survivors@);
    }
    *bullets = survivors;
}

/// Whether the bullet position strikes any obstacle; on a strike a grey and
/// white smoke pair is spawned.
fn bullet_hits_obstacle(world: &World, pos: Vec2, explosions: &mut Vec<Explosion>) -> (hit: bool)
    requires
        world_wf(*world),
        in_box(pos, SIM_BOX as int),
        explosions_wf(old(explosions)@),
    ensures
        explosions_wf(final(explosions)@),
        hit == exists|o: int| 0 <= o < world.obstacles@.len()
            && spec_near(pos, (#[trigger] world.obstacles@[o]).pos,
                world.obstacles@[o].radius + BULLET_RADIUS),
        !hit ==> final(explosions)@ == old(explosions)@,
        hit ==> final(explosions)@ == old(explosions)@
            .push(Explosion { pos, color: SmokeColor::Grey, age: 0 })
            .push(Explosion {
                pos: crate::math::spec_clamp_to_box(
                    crate::math::spec_vec2_add(pos, Vec2 { x: 12_000i64, y: -8_000i64 }),
                    SIM_BOX as int),
                color: SmokeColor::White,
                age: 0,
            }),
{
    let mut o: usize = 0;
    while o < world.obstacles.len()
        invariant
            world_wf(*world),
            in_box(pos, SIM_BOX as int),
            explosions_wf(explosions@),
            explosions@ == old(explosions)@,
            o <= world.obstacles@.len(),
            forall|k: int| 0 <= k < o
                ==> !spec_near(pos, (#[trigger] world.obstacles@[k]).pos,
                    world.obstacles@[k].radius + BULLET_RADIUS),
        decreases world.obstacles@.len() - o,
    {
        let obs = &world.obstacles[o];
        if within(pos, obs.pos, obs.radius + BULLET_RADIUS) {
            spawn_explosion_pair(explosions, pos, SmokeColor::Grey, SmokeColor::White,
                Vec2 { x: 12_000, y: -8_000 });
            return true;
        }
        o = o + 1;
    }
    false
}

/// The track marks one frame leaves: every mark aged by `dt`, in order,
/// dropping those whose new age reaches the lifetime.
pub open spec fn spec_age_tracks(s: Seq<TrackMark>, dt: int) -> Seq<TrackMark>
    decreases s.len(),
{
    if s.len() == 0 {
        Seq::empty()
    } else {
        let rest = spec_age_tracks(s.drop_last(), dt);
        let t = s.last();
        if t.age + dt < TRACK_LIFE {
            rest.push(TrackMark { age: (t.age + dt) as i64, ..t })
        } else {
            rest
        }
    }
}

/// Ages every track mark by `dt` and removes those past their lifetime.
pub fn update_tracks(tracks: &mut Vec<TrackMark>, dt: i64)
    requires
        tracks_wf(old(tracks)@),
        0 <= dt <= DT_MAX,
    ensures
        tracks_wf(final(tracks)@),
        final(tracks)@ == spec_age_tracks(old(tracks)@, dt as int),
        final(tracks)@.len() <= old(tracks)@.len(),
        forall|i: int| 0 <= i < final(tracks)@.len()
            ==> (#[trigger] final(tracks)@[i]).age < TRACK_LIFE,
{
    let n = tracks.len();
    let mut kept: Vec<TrackMark> = Vec::new();
    let mut i: usize = 0;
    while i < n
        invariant
            n == tracks@.len(),
            tracks@ == old(tracks)@,
            tracks_wf(tracks@),
            0 <= dt <= DT_MAX,
            i <= n,
            kept@.len() <= i,
            tracks_wf(kept@),
            kept@ == spec_age_tracks(tracks@.take(i as int), dt as int),
            forall|k: int| 0 <= k < kept@.len() ==> (#[trigger] kept@[k]).age < TRACK_LIFE,
        decreases n - i,
    {
        proof {
            assert(tracks@.take(i as int + 1).drop_last() =~= tracks@.take(i as int));
            assert(tracks@.take(i as int + 1).last() == tracks@[i as int]);
        }
        let mut t = tracks[i];
        if t.age + dt < TRACK_LIFE {
            t.age = t.age + dt;
            kept.push(t);
        }
        i = i + 1;
    }
    proof {
        assert(tracks@.take(n as int) =~= tracks@);
    }
    *tracks = kept;
}

/// The explosions one frame leaves: every puff aged by `dt`, in order,
/// dropping those whose new age reaches the display lifetime.
pub open spec fn spec_age_explosions(s: Seq<Explosion>, dt: int) -> Seq<Explosion>
    decreases s.len(),
{
    if s.len() == 0 {
        Seq::empty()
    } else {
        let rest = spec_age_explosions(s.drop_last(), dt);
        let e = s.last();
        if e.age + dt < EXPLOSION_LIFE {
            rest.push(Explosion { age: (e.age + dt) as i64, ..e })
        } else {
            rest
        }
    }
}

/// Ages every explosion by `dt` and removes those past the display lifetime.
pub fn update_explosions(explosions: &mut Vec<Explosion>, dt: i64)
    requires
        explosions_wf(old(explosions)@),
        0 <= dt <= DT_MAX,
    ensures
        explosions_wf(final(explosions)@),
        final(explosions)@ == spec_age_explosions(old(explosions)@, dt as int),
        final(explosions)@.len() <= old(explosions)@.len(),
        forall|i: int| 0 <= i < final(explosions)@.len()
            ==> (#[trigger] final(explosions)@[i]).age < EXPLOSION_LIFE,
{
    let n = explosions.len();
    let mut kept: Vec<Explosion> = Vec::new();
    let mut i: usize = 0;
    while i < n
        invariant
            n == explosions@.len(),
            explosions@ == old(explosions)@,
            explosions_wf(explosions@),
            0 <= dt <= DT_MAX,
            i <= n,
            kept@.len() <= i,
            explosions_wf(kept@),
            kept@ == spec_age_explosions(explosions@.take(i as int), dt as int),
            forall|k: int| 0 <= k < kept@.len() ==> (#[trigger] kept@[k]).age < EXPLOSION_LIFE,
        decreases n - i,
    {
        proof {
            assert(explosions@.take(i as int + 1).drop_last() =~= explosions@.take(i as int));
            assert(explosions@.take(i as int + 1).last() == explosions@[i as int]);
        }
        let mut e = explosions[i];
        if e.age + dt < EXPLOSION_LIFE {
            e.age = e.age + dt;
            kept.push(e);
        }
        i = i + 1;
    }
    proof {
        assert(explosions@.take(n as int) =~= explosions@);
    }
    *explosions = kept;
}

} // verus!
