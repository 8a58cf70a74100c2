//! Tests of the per-frame engine: movement, collisions, bullets, powerups.

use tank_sim::combat::{update_bullets, update_explosions, update_tracks};
use tank_sim::config::{
    BULLET_DAMAGE, FIRE_COOLDOWN, HEALTH_FLASH_TIME, MAX_HEALTH, POWERUP_DURATION, RESPAWN_TIME,
    ROUND_TIME, TANK_RADIUS,
};
use tank_sim::entities::{
    Bullet, Explosion, Powerup, PowerupKind, SmokeColor, Tank, Team, TrackMark,
};
use tank_sim::input::PlayerInput;
use tank_sim::math::{vec2, Rect, Vec2};
use tank_sim::powerups::{collect_powerups, next_powerup_spawn_delay};
use tank_sim::rng::rng_from_seed;
use tank_sim::tanks::{
    position_clear, resolve_tank_collisions, respawn_tank, spawn_tanks, update_player_tank,
    update_tank_timers,
};
use tank_sim::world::{obstacle_radius, Obstacle, ObstacleKind, SpawnZone, World};

fn open_world() -> World {
    World {
        width: 50,
        height: 30,
        tiles: vec![tank_sim::world::TileKind::Grass; 1500],
        obstacles: Vec::new(),
        spawn_zones: vec![
            SpawnZone {
                rect: Rect { x: 256_000, y: 1_408_000, w: 896_000, h: 1_024_000 },
                team: Team::Red,
            },
            SpawnZone {
                rect: Rect { x: 5_248_000, y: 1_408_000, w: 896_000, h: 1_024_000 },
                team: Team::Blue,
            },
        ],
    }
}

fn test_tank(team: Team, x: i64, y: i64) -> Tank {
    Tank {
        team,
        pos: vec2(x, y),
        body_angle: 0,
        turret_angle: 0,
        speed: 130_000,
        fire_cooldown: 0,
        alive: true,
        respawn_timer: 0,
        waypoint: vec2(3_000_000, 500_000),
        track_distance: 0,
        tread_phase: 0,
        health: MAX_HEALTH,
        max_health: MAX_HEALTH,
        health_flash: 0,
        invincible_timer: 0,
        rapid_timer: 0,
    }
}

fn dist(a: Vec2, b: Vec2) -> f64 {
    let dx = (a.x - b.x) as f64;
    let dy = (a.y - b.y) as f64;
    (dx * dx + dy * dy).sqrt()
}

#[test]
fn enemy_mapping_is_its_own_inverse() {
    assert_eq!(Team::Red.enemy(), Team::Blue);
    assert_eq!(Team::Blue.enemy(), Team::Red);
    assert_eq!(Team::Red.enemy().enemy(), Team::Red);
    assert_eq!(Team::Red.index(), 0);
    assert_eq!(Team::Blue.index(), 1);
    assert_eq!(Team::Red.name(), "Crimson");
    assert_eq!(Team::Blue.name(), "Azure");
}

#[test]
fn spawning_deploys_two_full_squads() {
    let mut rng = rng_from_seed(5);
    let world = World::new(&mut rng);
    let tanks = spawn_tanks(&mut rng, &world);
    assert_eq!(tanks.len(), 8);
    for (i, t) in tanks.iter().enumerate() {
        let expected = if i < 4 { Team::Red } else { Team::Blue };
        assert_eq!(t.team, expected);
        assert!(t.alive);
        assert_eq!(t.health, MAX_HEALTH);
        assert_eq!(t.max_health, MAX_HEALTH);
        let zone = world.zone_rect(t.team);
        assert!(t.pos.x >= zone.x && t.pos.x <= zone.x + zone.w);
        assert!(t.pos.y >= zone.y && t.pos.y <= zone.y + zone.h);
    }
}

#[test]
fn respawn_restores_health_inside_own_zone() {
    let mut rng = rng_from_seed(9);
    let world = World::new(&mut rng);
    let mut tank = test_tank(Team::Blue, 3_000_000, 2_000_000);
    tank.alive = false;
    tank.health = 0;
    tank.respawn_timer = 0;
    tank.invincible_timer = 123;
    respawn_tank(&mut tank, &world, &mut rng);
    assert!(tank.alive);
    assert_eq!(tank.health, MAX_HEALTH);
    assert_eq!(tank.fire_cooldown, FIRE_COOLDOWN / 2);
    assert_eq!(tank.invincible_timer, 0);
    assert_eq!(tank.turret_angle, tank.body_angle);
    let zone = world.zone_rect(Team::Blue);
    assert!(tank.pos.x > zone.x && tank.pos.x < zone.x + zone.w);
    assert!(tank.pos.y > zone.y && tank.pos.y < zone.y + zone.h);
}

#[test]
fn tank_timers_run_toward_zero() {
    let mut tank = test_tank(Team::Red, 3_000_000, 2_000_000);
    tank.health_flash = 100_000;
    tank.invincible_timer = 20_000;
    tank.rapid_timer = 0;
    update_tank_timers(&mut tank, 50_000);
    assert_eq!(tank.health_flash, 50_000);
    assert_eq!(tank.invincible_timer, 0);
    assert_eq!(tank.rapid_timer, 0);
}

#[test]
fn position_rules_reject_walls_zones_and_obstacles() {
    let mut world = open_world();
    world.obstacles.push(Obstacle {
        kind: ObstacleKind::TreeLarge,
        pos: vec2(3_000_000, 2_000_000),
        radius: 60_000,
    });
    // Clear ground.
    assert!(position_clear(&world, Team::Red, vec2(2_000_000, 2_000_000), TANK_RADIUS));
    // Outside the world.
    assert!(!position_clear(&world, Team::Red, vec2(10_000, 2_000_000), TANK_RADIUS));
    // Inside the enemy zone.
    assert!(!position_clear(&world, Team::Red, vec2(5_500_000, 1_800_000), TANK_RADIUS));
    // Own zone is fine.
    assert!(position_clear(&world, Team::Red, vec2(500_000, 1_800_000), TANK_RADIUS));
    // Too close to the obstacle: distance under the two radii.
    assert!(!position_clear(&world, Team::Red, vec2(3_080_000, 2_000_000), TANK_RADIUS));
    // Far enough from the obstacle.
    assert!(position_clear(&world, Team::Red, vec2(3_100_000, 2_000_000), TANK_RADIUS));
}

#[test]
fn player_movement_is_rejected_wholesale_at_walls() {
    let world = open_world();
    let intent = PlayerInput {
        turn: 0,
        movement: 1000,
        aim_dir: None,
        wants_fire: false,
        use_mouse_aim: false,
    };
    let mut tracks: Vec<TrackMark> = Vec::new();
    let mut bullets: Vec<Bullet> = Vec::new();

    // Free ground: a second of full throttle moves the tank along +x.
    let mut tank = test_tank(Team::Red, 2_000_000, 2_000_000);
    update_player_tank(&mut tank, 1_000_000, &world, vec2(0, 0), &intent, &mut tracks,
        &mut bullets);
    assert_eq!(tank.pos.y, 2_000_000);
    assert_eq!(tank.pos.x, 2_000_000 + 130_000);

    // Facing the wall just next to it: the destination circle would cross
    // the bounds, so the move is rejected outright.
    let mut blocked = test_tank(Team::Red, 6_371_000, 2_000_000);
    update_player_tank(&mut blocked, 1_000_000, &world, vec2(0, 0), &intent, &mut tracks,
        &mut bullets);
    assert_eq!(blocked.pos, vec2(6_371_000, 2_000_000));
}

#[test]
fn driving_past_the_step_distance_leaves_track_marks() {
    let world = open_world();
    let intent = PlayerInput {
        turn: 0,
        movement: 1000,
        aim_dir: None,
        wants_fire: false,
        use_mouse_aim: false,
    };
    let mut tracks: Vec<TrackMark> = Vec::new();
    let mut bullets: Vec<Bullet> = Vec::new();
    let mut tank = test_tank(Team::Red, 2_000_000, 2_000_000);
    // Four frames of a quarter second each cover 130 pixels: past the
    // 40-pixel step distance several times.
    for _ in 0..4 {
        update_player_tank(&mut tank, 250_000, &world, vec2(0, 0), &intent, &mut tracks,
            &mut bullets);
    }
    assert!(!tracks.is_empty());
    assert_eq!(tracks[0].rotation, 0);
    assert_eq!(tracks[0].age, 0);
}

#[test]
fn firing_spawns_one_bullet_and_arms_the_cooldown() {
    let world = open_world();
    let intent = PlayerInput {
        turn: 0,
        movement: 0,
        aim_dir: None,
        wants_fire: true,
        use_mouse_aim: false,
    };
    let mut tracks: Vec<TrackMark> = Vec::new();
    let mut bullets: Vec<Bullet> = Vec::new();
    let mut tank = test_tank(Team::Red, 2_000_000, 2_000_000);
    update_player_tank(&mut tank, 16_667, &world, vec2(0, 0), &intent, &mut tracks,
        &mut bullets);
    assert_eq!(bullets.len(), 1);
    assert_eq!(bullets[0].team, Team::Red);
    assert_eq!(tank.fire_cooldown, FIRE_COOLDOWN);
    // Cooldown armed: a second request this frame yields nothing.
    update_player_tank(&mut tank, 16_667, &world, vec2(0, 0), &intent, &mut tracks,
        &mut bullets);
    assert_eq!(bullets.len(), 1);

    // Rapid fire shortens the cooldown.
    let mut rapid = test_tank(Team::Blue, 2_000_000, 2_000_000);
    rapid.rapid_timer = POWERUP_DURATION;
    update_player_tank(&mut rapid, 16_667, &world, vec2(0, 0), &intent, &mut tracks,
        &mut bullets);
    assert_eq!(rapid.fire_cooldown, FIRE_COOLDOWN * 100 / 120);
    assert_eq!(bullets.last().unwrap().team, Team::Blue);
}

#[test]
fn collision_resolution_separates_overlapping_pair() {
    let world = open_world();
    let mut tanks = vec![
        test_tank(Team::Red, 3_000_000, 2_000_000),
        test_tank(Team::Blue, 3_020_000, 2_000_000),
    ];
    resolve_tank_collisions(&mut tanks, &world);
    // The pair was 20 pixels apart; resolution ends with the full 54-pixel
    // collision minimum between them.
    let d = dist(tanks[0].pos, tanks[1].pos);
    assert!(d >= 2.0 * (TANK_RADIUS as f64) - 2_000.0);
}

#[test]
fn collision_resolution_separates_a_chain_and_coincident_tanks() {
    let world = open_world();
    // Three collinear overlapping tanks plus a coincident pair: the
    // resolution iterates until every living pair is separated.
    let mut tanks = vec![
        test_tank(Team::Red, 3_000_000, 2_000_000),
        test_tank(Team::Blue, 3_030_000, 2_000_000),
        test_tank(Team::Red, 3_060_000, 2_000_000),
        test_tank(Team::Blue, 3_000_000, 2_000_000),
    ];
    resolve_tank_collisions(&mut tanks, &world);
    let min = 2.0 * (TANK_RADIUS as f64) - 2_000.0;
    for i in 0..tanks.len() {
        for j in (i + 1)..tanks.len() {
            assert!(dist(tanks[i].pos, tanks[j].pos) >= min);
        }
    }
}

#[test]
fn collision_resolution_is_idempotent_when_resolved() {
    let world = open_world();
    let mut tanks = vec![
        test_tank(Team::Red, 3_000_000, 2_000_000),
        test_tank(Team::Blue, 3_200_000, 2_000_000),
        test_tank(Team::Blue, 3_000_000, 2_300_000),
    ];
    let before: Vec<Vec2> = tanks.iter().map(|t| t.pos).collect();
    resolve_tank_collisions(&mut tanks, &world);
    let after: Vec<Vec2> = tanks.iter().map(|t| t.pos).collect();
    assert_eq!(before, after);
}

#[test]
fn living_tanks_are_ejected_from_the_enemy_zone() {
    let world = open_world();
    // A red tank standing inside the blue zone.
    let mut tanks = vec![test_tank(Team::Red, 5_300_000, 1_900_000)];
    resolve_tank_collisions(&mut tanks, &world);
    let zone = Rect { x: 5_248_000, y: 1_408_000, w: 896_000, h: 1_024_000 };
    let p = tanks[0].pos;
    assert!(p.x < zone.x || p.x > zone.x + zone.w || p.y < zone.y || p.y > zone.y + zone.h);
}

#[test]
fn bullet_damage_is_exactly_one_step() {
    let world = open_world();
    let mut tanks = vec![test_tank(Team::Red, 3_000_000, 2_000_000)];
    let mut bullets = vec![Bullet {
        pos: vec2(3_000_000, 2_000_000),
        vel: vec2(0, 0),
        team: Team::Blue,
        life: 1_000_000,
    }];
    let mut explosions: Vec<Explosion> = Vec::new();
    let mut kr: u64 = 0;
    let mut kb: u64 = 0;
    update_bullets(&mut bullets, &mut tanks, &world, &mut explosions, &mut kr, &mut kb, 16_667);
    assert_eq!(tanks[0].health, MAX_HEALTH - BULLET_DAMAGE);
    assert!(tanks[0].alive);
    assert_eq!(tanks[0].health_flash, HEALTH_FLASH_TIME);
    assert_eq!(bullets.len(), 0);
    assert_eq!(kr, 0);
    assert_eq!(kb, 0);
}

#[test]
fn lethal_hit_kills_and_credits_exactly_one_kill() {
    let world = open_world();
    let mut victim = test_tank(Team::Red, 3_000_000, 2_000_000);
    victim.health = BULLET_DAMAGE;  // the next hit reaches zero
    let mut tanks = vec![victim];
    let mut bullets = vec![Bullet {
        pos: vec2(3_000_000, 2_000_000),
        vel: vec2(0, 0),
        team: Team::Blue,
        life: 1_000_000,
    }];
    let mut explosions: Vec<Explosion> = Vec::new();
    let mut kr: u64 = 0;
    let mut kb: u64 = 0;
    update_bullets(&mut bullets, &mut tanks, &world, &mut explosions, &mut kr, &mut kb, 16_667);
    assert!(!tanks[0].alive);
    assert_eq!(tanks[0].health, 0);
    assert_eq!(tanks[0].respawn_timer, RESPAWN_TIME);
    assert_eq!(kb, 1);
    assert_eq!(kr, 0);
    // The kill spawns an orange and yellow smoke pair.
    assert_eq!(explosions.len(), 2);
    assert_eq!(explosions[0].color, SmokeColor::Orange);
    assert_eq!(explosions[1].color, SmokeColor::Yellow);
}

#[test]
fn invincible_target_absorbs_the_bullet_without_damage() {
    let world = open_world();
    let mut target = test_tank(Team::Red, 3_000_000, 2_000_000);
    target.invincible_timer = POWERUP_DURATION;
    let mut tanks = vec![target];
    let mut bullets = vec![Bullet {
        pos: vec2(3_000_000, 2_000_000),
        vel: vec2(0, 0),
        team: Team::Blue,
        life: 1_000_000,
    }];
    let mut explosions: Vec<Explosion> = Vec::new();
    let mut kr: u64 = 0;
    let mut kb: u64 = 0;
    update_bullets(&mut bullets, &mut tanks, &world, &mut explosions, &mut kr, &mut kb, 16_667);
    assert_eq!(tanks[0].health, MAX_HEALTH);
    assert!(tanks[0].alive);
    assert_eq!(bullets.len(), 0);
    assert_eq!(explosions.len(), 1);
    assert_eq!(explosions[0].color, SmokeColor::White);
    assert_eq!(kb, 0);
}

#[test]
fn friendly_fire_never_lands() {
    let world = open_world();
    let mut tanks = vec![test_tank(Team::Blue, 3_000_000, 2_000_000)];
    let mut bullets = vec![Bullet {
        pos: vec2(3_000_000, 2_000_000),
        vel: vec2(0, 0),
        team: Team::Blue,
        life: 1_000_000,
    }];
    let mut explosions: Vec<Explosion> = Vec::new();
    let mut kr: u64 = 0;
    let mut kb: u64 = 0;
    update_bullets(&mut bullets, &mut tanks, &world, &mut explosions, &mut kr, &mut kb, 16_667);
    assert_eq!(tanks[0].health, MAX_HEALTH);
    assert_eq!(bullets.len(), 1);
}

#[test]
fn bullets_age_out_at_the_end_of_their_life() {
    let world = open_world();
    let mut tanks: Vec<Tank> = Vec::new();
    let mut bullets = vec![Bullet {
        pos: vec2(3_000_000, 2_000_000),
        vel: vec2(0, 0),
        team: Team::Blue,
        life: 10_000,
    }];
    let mut explosions: Vec<Explosion> = Vec::new();
    let mut kr: u64 = 0;
    let mut kb: u64 = 0;
    update_bullets(&mut bullets, &mut tanks, &world, &mut explosions, &mut kr, &mut kb, 16_667);
    assert_eq!(bullets.len(), 0);

    // A surviving bullet is exactly one frame older.
    let mut flying = vec![Bullet {
        pos: vec2(3_000_000, 2_000_000),
        vel: vec2(520_000, 0),
        team: Team::Blue,
        life: 1_000_000,
    }];
    update_bullets(&mut flying, &mut tanks, &world, &mut explosions, &mut kr, &mut kb, 16_667);
    assert_eq!(flying.len(), 1);
    assert_eq!(flying[0].life, 1_000_000 - 16_667);
    assert_eq!(flying[0].pos.x, 3_000_000 + 520_000 * 16_667 / 1_000_000);
}

#[test]
fn bullets_vanish_on_leaving_the_world() {
    let world = open_world();
    let mut tanks: Vec<Tank> = Vec::new();
    let mut bullets = vec![Bullet {
        pos: vec2(10_000, 2_000_000),
        vel: vec2(-520_000, 0),
        team: Team::Blue,
        life: 1_000_000,
    }];
    let mut explosions: Vec<Explosion> = Vec::new();
    let mut kr: u64 = 0;
    let mut kb: u64 = 0;
    update_bullets(&mut bullets, &mut tanks, &world, &mut explosions, &mut kr, &mut kb, 100_000);
    assert_eq!(bullets.len(), 0);
    assert_eq!(explosions.len(), 0);
}

#[test]
fn bullets_vanish_in_the_foreign_spawn_zone() {
    let world = open_world();
    let mut tanks: Vec<Tank> = Vec::new();
    // A blue bullet drifting inside the red zone.
    let mut bullets = vec![Bullet {
        pos: vec2(500_000, 1_800_000),
        vel: vec2(0, 0),
        team: Team::Blue,
        life: 1_000_000,
    }];
    let mut explosions: Vec<Explosion> = Vec::new();
    let mut kr: u64 = 0;
    let mut kb: u64 = 0;
    update_bullets(&mut bullets, &mut tanks, &world, &mut explosions, &mut kr, &mut kb, 16_667);
    assert_eq!(bullets.len(), 0);

    // A red bullet inside the red zone survives.
    let mut own = vec![Bullet {
        pos: vec2(500_000, 1_800_000),
        vel: vec2(0, 0),
        team: Team::Red,
        life: 1_000_000,
    }];
    update_bullets(&mut own, &mut tanks, &world, &mut explosions, &mut kr, &mut kb, 16_667);
    assert_eq!(own.len(), 1);
}

#[test]
fn bullets_burst_on_obstacles() {
    let mut world = open_world();
    world.obstacles.push(Obstacle {
        kind: ObstacleKind::Oil,
        pos: vec2(3_000_000, 2_000_000),
        radius: 24_000,
    });
    let mut tanks: Vec<Tank> = Vec::new();
    let mut bullets = vec![Bullet {
        pos: vec2(3_010_000, 2_000_000),
        vel: vec2(0, 0),
        team: Team::Blue,
        life: 1_000_000,
    }];
    let mut explosions: Vec<Explosion> = Vec::new();
    let mut kr: u64 = 0;
    let mut kb: u64 = 0;
    update_bullets(&mut bullets, &mut tanks, &world, &mut explosions, &mut kr, &mut kb, 16_667);
    assert_eq!(bullets.len(), 0);
    assert_eq!(explosions.len(), 2);
    assert_eq!(explosions[0].color, SmokeColor::Grey);
    assert_eq!(explosions[1].color, SmokeColor::White);
}

#[test]
fn tracks_and_explosions_age_out() {
    let mut tracks = vec![
        TrackMark { pos: vec2(0, 0), rotation: 0, age: 0 },
        TrackMark { pos: vec2(0, 0), rotation: 0, age: 7_990_000 },
    ];
    update_tracks(&mut tracks, 16_667);
    assert_eq!(tracks.len(), 1);
    assert_eq!(tracks[0].age, 16_667);

    let mut explosions = vec![Explosion { pos: vec2(0, 0), color: SmokeColor::Grey, age: 470_000 }];
    update_explosions(&mut explosions, 16_667);
    assert_eq!(explosions.len(), 0);
}

#[test]
fn powerup_pickup_consumes_exactly_once() {
    let mut tanks = vec![test_tank(Team::Red, 3_000_000, 2_000_000)];
    let mut powerups = vec![Powerup {
        kind: PowerupKind::Invincible,
        pos: vec2(3_010_000, 2_000_000),
        age: 0,
    }];
    collect_powerups(&mut powerups, &mut tanks);
    // The powerup is gone in the same frame, and the effect is applied.
    assert_eq!(powerups.len(), 0);
    assert_eq!(tanks[0].invincible_timer, POWERUP_DURATION);
    assert_eq!(tanks[0].rapid_timer, 0);
}

#[test]
fn one_powerup_per_tank_per_frame() {
    let mut tanks = vec![test_tank(Team::Red, 3_000_000, 2_000_000)];
    let mut powerups = vec![
        Powerup { kind: PowerupKind::Invincible, pos: vec2(3_010_000, 2_000_000), age: 0 },
        Powerup { kind: PowerupKind::RapidRange, pos: vec2(2_990_000, 2_000_000), age: 0 },
    ];
    collect_powerups(&mut powerups, &mut tanks);
    // The tank consumes only the first; the second stays on the field.
    assert_eq!(powerups.len(), 1);
    assert_eq!(powerups[0].kind, PowerupKind::RapidRange);
    assert_eq!(tanks[0].invincible_timer, POWERUP_DURATION);
    assert_eq!(tanks[0].rapid_timer, 0);
}

#[test]
fn heal_restores_full_health() {
    let mut wounded = test_tank(Team::Blue, 3_000_000, 2_000_000);
    wounded.health = 10;
    let mut tanks = vec![wounded];
    let mut powerups = vec![Powerup {
        kind: PowerupKind::Heal,
        pos: vec2(3_000_000, 2_010_000),
        age: 0,
    }];
    collect_powerups(&mut powerups, &mut tanks);
    assert_eq!(tanks[0].health, MAX_HEALTH);
    assert_eq!(tanks[0].health_flash, HEALTH_FLASH_TIME);
    assert_eq!(powerups.len(), 0);
}

#[test]
fn obstacle_radii_follow_their_kinds() {
    assert_eq!(obstacle_radius(ObstacleKind::TreeSmall), 40_000);
    assert_eq!(obstacle_radius(ObstacleKind::TreeLarge), 60_000);
    assert_eq!(obstacle_radius(ObstacleKind::SandbagBrown), 30_000);
    assert_eq!(obstacle_radius(ObstacleKind::SandbagBeige), 30_000);
    assert_eq!(obstacle_radius(ObstacleKind::Oil), 24_000);
    assert_eq!(obstacle_radius(ObstacleKind::BarrelRedUp), 22_000);
    assert_eq!(obstacle_radius(ObstacleKind::BarrelGreenSideDamaged), 22_000);
}

#[test]
fn spawn_cadence_follows_round_progress() {
    let mut rng = rng_from_seed(21);
    for _ in 0..20 {
        // Round start: the edge boost shortens the delay toward six seconds.
        let early = next_powerup_spawn_delay(&mut rng, ROUND_TIME);
        assert!((5_100_000..6_900_000).contains(&early));
        // Mid-round: the delay is longest.
        let mid = next_powerup_spawn_delay(&mut rng, ROUND_TIME / 2);
        assert!((10_900_000..14_800_000).contains(&mid));
        assert!(mid > early);
    }
}

#[test]
fn powerups_ignore_dead_and_distant_tanks() {
    let mut dead = test_tank(Team::Red, 3_000_000, 2_000_000);
    dead.alive = false;
    let far = test_tank(Team::Blue, 4_000_000, 2_000_000);
    let mut tanks = vec![dead, far];
    let mut powerups = vec![Powerup {
        kind: PowerupKind::Heal,
        pos: vec2(3_000_000, 2_000_000),
        age: 0,
    }];
    collect_powerups(&mut powerups, &mut tanks);
    assert_eq!(powerups.len(), 1);
    assert_eq!(tanks[0].health_flash, 0);
    assert_eq!(tanks[1].health_flash, 0);
}
