//! Tests of world generation: spawn zones, obstacle placement, tiles.

use tank_sim::config::{MAP_HEIGHT, MAP_WIDTH};
use tank_sim::entities::Team;
use tank_sim::math::{vec2, Rect};
use tank_sim::rng::rng_from_seed;
use tank_sim::world::{obstacle_radius, World, WORLD_H_MPX, WORLD_W_MPX};

fn dist2(ax: i64, ay: i64, bx: i64, by: i64) -> i64 {
    (ax - bx) * (ax - bx) + (ay - by) * (ay - by)
}

fn check_world(seed: u64) {
    let mut rng = rng_from_seed(seed);
    let world = World::new(&mut rng);

    // Exactly two spawn zones, one per team, at their fixed places.
    assert_eq!(world.spawn_zones.len(), 2);
    assert_eq!(world.spawn_zones[0].team, Team::Red);
    assert_eq!(world.spawn_zones[1].team, Team::Blue);
    let red = world.spawn_zones[0].rect;
    let blue = world.spawn_zones[1].rect;
    assert_eq!(red, Rect { x: 256_000, y: 1_408_000, w: 896_000, h: 1_024_000 });
    assert_eq!(blue, Rect { x: 5_248_000, y: 1_408_000, w: 896_000, h: 1_024_000 });
    // Non-overlapping: the red zone ends left of where the blue one starts.
    assert!(red.x + red.w < blue.x);

    // A full tile grid.
    assert_eq!(world.width, MAP_WIDTH);
    assert_eq!(world.height, MAP_HEIGHT);
    assert_eq!(world.tiles.len(), (MAP_WIDTH * MAP_HEIGHT) as usize);

    // Every obstacle fits in the world, has the radius of its kind, and its
    // radius-inflated footprint clears both zones.
    for obs in &world.obstacles {
        assert_eq!(obs.radius, obstacle_radius(obs.kind));
        assert!(obs.pos.x >= obs.radius && obs.pos.x <= WORLD_W_MPX - obs.radius);
        assert!(obs.pos.y >= obs.radius && obs.pos.y <= WORLD_H_MPX - obs.radius);
        for zone in &world.spawn_zones {
            let z = zone.rect;
            let clear = obs.pos.x < z.x - obs.radius
                || obs.pos.x > z.x + z.w + obs.radius
                || obs.pos.y < z.y - obs.radius
                || obs.pos.y > z.y + z.h + obs.radius;
            assert!(clear);
        }
    }

    // No two radius-inflated footprints intersect: centers stay at least the
    // two radii plus the placement margin apart.
    for i in 0..world.obstacles.len() {
        for j in (i + 1)..world.obstacles.len() {
            let a = &world.obstacles[i];
            let b = &world.obstacles[j];
            let min = a.radius + b.radius + 16_000;
            assert!(dist2(a.pos.x, a.pos.y, b.pos.x, b.pos.y) >= min * min);
        }
    }
}

#[test]
fn world_invariants_hold_for_seed_zero() {
    check_world(0);
}

#[test]
fn world_invariants_hold_for_seed_forty_two() {
    check_world(42);
}

#[test]
fn world_invariants_hold_for_large_seed() {
    check_world(0xDEAD_BEEF_CAFE);
}

#[test]
fn spawn_zone_tiles_are_repainted() {
    let mut rng = rng_from_seed(17);
    let world = World::new(&mut rng);
    for y in 11..19usize {
        for x in 2..9usize {
            assert_eq!(world.tiles[y * 50 + x], tank_sim::world::TileKind::Grass);
        }
        for x in 41..48usize {
            assert_eq!(world.tiles[y * 50 + x], tank_sim::world::TileKind::Sand);
        }
    }
}

#[test]
fn world_generation_is_reproducible() {
    let mut rng_a = rng_from_seed(7);
    let a = World::new(&mut rng_a);
    let mut rng_b = rng_from_seed(7);
    let b = World::new(&mut rng_b);
    assert_eq!(a.tiles, b.tiles);
    assert_eq!(a.obstacles.len(), b.obstacles.len());
    for (oa, ob) in a.obstacles.iter().zip(b.obstacles.iter()) {
        assert_eq!(oa.pos, ob.pos);
        assert_eq!(oa.kind, ob.kind);
    }
}

#[test]
fn zone_queries_agree_with_geometry() {
    let mut rng = rng_from_seed(3);
    let world = World::new(&mut rng);
    let in_red = vec2(300_000, 1_500_000);
    assert!(world.is_inside_spawn_zone(in_red));
    assert!(world.is_inside_enemy_zone(Team::Blue, in_red));
    assert!(!world.is_inside_enemy_zone(Team::Red, in_red));
    let middle = vec2(3_200_000, 1_900_000);
    assert!(!world.is_inside_spawn_zone(middle));
    let bounds = world.world_bounds();
    assert_eq!(bounds, Rect { x: 0, y: 0, w: WORLD_W_MPX, h: WORLD_H_MPX });
}

#[test]
fn random_zone_points_stay_strictly_inside() {
    let mut rng = rng_from_seed(11);
    let world = World::new(&mut rng);
    for _ in 0..50 {
        let p = world.random_point_in_zone(Team::Red, &mut rng);
        let z = world.spawn_zones[0].rect;
        assert!(p.x > z.x && p.x < z.x + z.w);
        assert!(p.y > z.y && p.y < z.y + z.h);
        let q = world.random_point_in_zone(Team::Blue, &mut rng);
        let z2 = world.spawn_zones[1].rect;
        assert!(q.x > z2.x && q.x < z2.x + z2.w);
        assert!(q.y > z2.y && q.y < z2.y + z2.h);
    }
}
