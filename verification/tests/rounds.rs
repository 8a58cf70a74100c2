//! Tests of the round state machine and of whole-game scenarios.

use tank_sim::config::{
    DT_MAX, PLAYER_INTRO_TIME, ROUND_COUNTDOWN, ROUND_TIME, TANKS_PER_TEAM,
};
use tank_sim::entities::Team;
use tank_sim::game::{winner_of, Game, ScreenState};
use tank_sim::input::neutral_input;
use tank_sim::math::vec2;

const FRAME: i64 = 16_667;

fn step(game: &mut Game, dt: i64, start: bool) {
    let intent = neutral_input();
    game.update(dt, start, &intent, vec2(0, 0));
}

#[test]
fn winner_needs_strictly_more_kills() {
    assert_eq!(winner_of(3, 1), Some(Team::Red));
    assert_eq!(winner_of(1, 3), Some(Team::Blue));
    assert_eq!(winner_of(2, 2), None);
    assert_eq!(winner_of(0, 0), None);
}

#[test]
fn title_waits_for_the_start_trigger() {
    let mut game = Game::new(1);
    assert_eq!(game.state, ScreenState::Title);
    step(&mut game, FRAME, false);
    assert_eq!(game.state, ScreenState::Title);
    step(&mut game, FRAME, true);
    assert_eq!(game.state, ScreenState::Playing);
    assert_eq!(game.round_timer, ROUND_TIME);
    assert_eq!(game.countdown_timer, ROUND_COUNTDOWN);
    assert_eq!(game.intro_timer, PLAYER_INTRO_TIME);
    assert_eq!(game.kills_red, 0);
    assert_eq!(game.kills_blue, 0);
    assert_eq!(game.tanks.len(), 2 * TANKS_PER_TEAM);
    assert_eq!(game.player_index, 0);
    assert_eq!(game.tanks[0].team, Team::Red);
}

#[test]
fn countdown_freezes_the_battlefield() {
    let mut game = Game::new(2);
    step(&mut game, FRAME, true);
    let positions: Vec<_> = game.tanks.iter().map(|t| t.pos).collect();
    // One frame during the countdown: the battlefield is frozen, only the
    // countdown and intro timers tick.
    let spawn_timer = game.powerup_spawn_timer;
    step(&mut game, FRAME, false);
    assert_eq!(game.countdown_timer, ROUND_COUNTDOWN - FRAME);
    assert_eq!(game.round_timer, ROUND_TIME);
    assert_eq!(game.powerup_spawn_timer, spawn_timer);
    for (tank, before) in game.tanks.iter().zip(positions.iter()) {
        assert_eq!(tank.pos, *before);
    }
    assert!(game.bullets.is_empty());
    assert!(game.powerups.is_empty());
}

#[test]
fn round_ends_exactly_when_the_timer_reaches_zero() {
    let mut game = Game::new(3);
    step(&mut game, FRAME, true);
    // Burn the countdown in one step.
    step(&mut game, ROUND_COUNTDOWN, false);
    assert_eq!(game.countdown_timer, 0);
    assert_eq!(game.state, ScreenState::Playing);
    // Run the round down: two large steps reach zero exactly.
    step(&mut game, DT_MAX, false);
    assert_eq!(game.state, ScreenState::Playing);
    assert_eq!(game.round_timer, ROUND_TIME - DT_MAX);
    step(&mut game, DT_MAX, false);
    assert_eq!(game.round_timer, 0);
    assert_eq!(game.state, ScreenState::RoundOver);
    // No kills on either side: a stalemate crowns nobody.
    assert_eq!(game.last_winner, None);
}

#[test]
fn round_winner_follows_the_kill_counters() {
    let mut game = Game::new(4);
    step(&mut game, FRAME, true);
    step(&mut game, ROUND_COUNTDOWN, false);
    // A deterministic kill sequence recorded on the counters.
    game.kills_red = 5;
    game.kills_blue = 2;
    step(&mut game, DT_MAX, false);
    step(&mut game, DT_MAX, false);
    assert_eq!(game.state, ScreenState::RoundOver);
    assert_eq!(game.last_winner, Some(Team::Red));

    // The redeploy trigger starts a clean round.
    step(&mut game, FRAME, true);
    assert_eq!(game.state, ScreenState::Playing);
    assert_eq!(game.kills_red, 0);
    assert_eq!(game.kills_blue, 0);
    assert_eq!(game.last_winner, None);
    assert_eq!(game.round_timer, ROUND_TIME);
}

#[test]
fn ai_squads_advance_after_the_countdown() {
    // Seed 42, two squads of four; once the countdown elapses, sixty frames
    // of roughly a sixtieth of a second each set every AI tank in motion.
    let mut game = Game::new(42);
    step(&mut game, FRAME, true);
    step(&mut game, ROUND_COUNTDOWN, false);
    let before: Vec<_> = game.tanks.iter().map(|t| t.pos).collect();
    for _ in 0..60 {
        step(&mut game, FRAME, false);
    }
    for (i, tank) in game.tanks.iter().enumerate() {
        if i == game.player_index {
            continue;  // the player tank got no input and stands still
        }
        assert!(tank.pos != before[i], "tank {} never moved", i);
    }
    // Everyone drove well past the track step distance.
    assert!(!game.tracks.is_empty());
}

#[test]
fn a_zero_length_frame_changes_no_timer() {
    let mut game = Game::new(8);
    step(&mut game, FRAME, true);
    let countdown = game.countdown_timer;
    let round = game.round_timer;
    let intro = game.intro_timer;
    step(&mut game, 0, false);
    assert_eq!(game.countdown_timer, countdown);
    assert_eq!(game.round_timer, round);
    assert_eq!(game.intro_timer, intro);
    assert_eq!(game.state, ScreenState::Playing);
}

#[test]
fn one_seed_reproduces_one_battle() {
    // Reproducibility from a seed is the one ordering guarantee the design
    // makes: two games built and driven identically stay identical.
    let mut a = Game::new(77);
    let mut b = Game::new(77);
    assert_eq!(a.world.tiles, b.world.tiles);
    assert_eq!(a.world.obstacles.len(), b.world.obstacles.len());
    step(&mut a, FRAME, true);
    step(&mut b, FRAME, true);
    step(&mut a, ROUND_COUNTDOWN, false);
    step(&mut b, ROUND_COUNTDOWN, false);
    for _ in 0..120 {
        step(&mut a, FRAME, false);
        step(&mut b, FRAME, false);
    }
    for (ta, tb) in a.tanks.iter().zip(b.tanks.iter()) {
        assert_eq!(ta.pos, tb.pos);
        assert_eq!(ta.health, tb.health);
        assert_eq!(ta.alive, tb.alive);
    }
    assert_eq!(a.bullets.len(), b.bullets.len());
    assert_eq!(a.kills_red, b.kills_red);
    assert_eq!(a.kills_blue, b.kills_blue);
}

#[test]
fn health_stays_within_bounds_over_a_battle() {
    let mut game = Game::new(1234);
    step(&mut game, FRAME, true);
    step(&mut game, ROUND_COUNTDOWN, false);
    // Ten simulated seconds of battle.
    for _ in 0..600 {
        step(&mut game, FRAME, false);
        for tank in &game.tanks {
            assert!(0 <= tank.health && tank.health <= tank.max_health);
        }
        assert!(game.powerups.len() <= 3);
    }
}
