//! The round state machine and the per-frame update that drives the whole
//! simulation: title, pre-round countdown, play, and round over.

use vstd::prelude::*;

use crate::combat::{damage_evolution, update_bullets, update_explosions, update_tracks};
use crate::config::{
    DT_MAX, PLAYER_INTRO_TIME, POWERUP_BASE_SPAWN, POWERUP_MAX_COUNT, RESPAWN_TIME,
    ROUND_COUNTDOWN, ROUND_TIME,
    TANKS_PER_TEAM,
};
use crate::entities::{
    bullets_wf, explosions_wf, powerups_wf, tanks_wf, tracks_wf, Bullet, Explosion, Powerup,
    Tank, Team, TrackMark, SIM_BOX,
};
use crate::input::{input_wf, PlayerInput};
use crate::math::{in_box, spec_rect_contains, timer_sub, Vec2};
use crate::powerups::{powerup_effect, update_powerups};
use crate::rng::rng_from_seed;
use crate::tanks::{
    collect_snapshot, resolve_tank_collisions, snapshot_wf, spawn_tanks, respawn_tank,
    update_ai_tank, update_player_tank, update_tank_timers,
};
use crate::world::{spec_zone_rect, world_wf, World};

verus! {

/// Which screen the game is on.
#[derive(Clone, Copy, Debug, PartialEq, Eq, Structural)]
pub enum ScreenState {
    Title,
    Playing,
    RoundOver,
}

/// The whole simulation: world, entities, timers, score and screen state,
/// driven by one seeded generator.
pub struct Game {
    pub state: ScreenState,
    pub world: World,
    pub tanks: Vec<Tank>,
    pub bullets: Vec<Bullet>,
    pub tracks: Vec<TrackMark>,
    pub explosions: Vec<Explosion>,
    pub powerups: Vec<Powerup>,
    pub rng: rand::rngs::SmallRng,
    pub round_timer: i64,
    pub countdown_timer: i64,
    pub intro_timer: i64,
    pub powerup_spawn_timer: i64,
    pub kills_red: u64,
    pub kills_blue: u64,
    pub last_winner: Option<Team>,
    pub player_index: usize,
}

/// A dead tank one frame later, its respawn timer not yet elapsed: the
/// respawn countdown and the three effect timers tick, nothing else moves.
pub open spec fn dead_tank_ticked(t: Tank, dt: int) -> Tank {
    Tank {
        respawn_timer: (t.respawn_timer - dt) as i64,
        health_flash: (if t.health_flash - dt >= 0 { t.health_flash - dt } else { 0int }) as i64,
        invincible_timer: (if t.invincible_timer - dt >= 0 {
            t.invincible_timer - dt
        } else {
            0int
        }) as i64,
        rapid_timer: (if t.rapid_timer - dt >= 0 { t.rapid_timer - dt } else { 0int }) as i64,
        ..t
    }
}

/// How the per-tank control pass may change one tank in a frame: a living
/// tank keeps its health and ticks its effect timers; a dead tank waits its
/// respawn timer down; an elapsed timer forces a fresh redeployment.
pub open spec fn control_evolution(a: Tank, b: Tank, dt: int) -> bool {
    if a.alive {
        &&& b.alive
        &&& b.team == a.team
        &&& b.health == a.health
        &&& b.max_health == a.max_health
        &&& b.health_flash == (if a.health_flash - dt >= 0 { a.health_flash - dt } else { 0int })
        &&& b.invincible_timer == (if a.invincible_timer - dt >= 0 {
            a.invincible_timer - dt
        } else {
            0int
        })
        &&& b.rapid_timer == (if a.rapid_timer - dt >= 0 { a.rapid_timer - dt } else { 0int })
    } else if a.respawn_timer > dt {
        b == dead_tank_ticked(a, dt)
    } else {
        &&& b.alive
        &&& b.team == a.team
        &&& b.max_health == a.max_health
        &&& b.health == b.max_health
        &&& b.fire_cooldown == crate::config::FIRE_COOLDOWN / 2
        &&& b.health_flash == 0
        &&& b.invincible_timer == 0
        &&& b.rapid_timer == 0
        &&& b.turret_angle == b.body_angle
    }
}

/// Well-formedness of the whole game: a well-formed world, a full roster of
/// well-formed tanks, well-formed entity lists, and clamped timers.
pub open spec fn game_wf(g: Game) -> bool {
    &&& world_wf(g.world)
    &&& tanks_wf(g.tanks@)
    &&& g.tanks@.len() == 2 * TANKS_PER_TEAM
    &&& g.player_index < g.tanks@.len()
    &&& bullets_wf(g.bullets@)
    &&& tracks_wf(g.tracks@)
    &&& explosions_wf(g.explosions@)
    &&& powerups_wf(g.powerups@)
    &&& g.powerups@.len() <= POWERUP_MAX_COUNT
    &&& 0 <= g.round_timer <= ROUND_TIME
    &&& 0 <= g.countdown_timer <= ROUND_COUNTDOWN
    &&& 0 <= g.intro_timer <= PLAYER_INTRO_TIME
    &&& 0 <= g.powerup_spawn_timer <= 16_200_000
}

/// A game state as a round reset leaves it: fresh timers, no score, no
/// projectiles or debris, and both squads redeployed at full health inside
/// their own zones.
pub open spec fn game_freshly_reset(g: Game) -> bool {
    &&& g.round_timer == ROUND_TIME
    &&& g.countdown_timer == ROUND_COUNTDOWN
    &&& g.intro_timer == PLAYER_INTRO_TIME
    &&& g.powerup_spawn_timer == POWERUP_BASE_SPAWN
    &&& g.kills_red == 0
    &&& g.kills_blue == 0
    &&& g.last_winner is None
    &&& g.bullets@.len() == 0
    &&& g.tracks@.len() == 0
    &&& g.explosions@.len() == 0
    &&& g.powerups@.len() == 0
    &&& g.tanks@.len() == 2 * TANKS_PER_TEAM
    &&& forall|i: int| 0 <= i < g.tanks@.len() ==> {
        &&& crate::tanks::tank_fresh(#[trigger] g.tanks@[i])
        &&& g.tanks@[i].team == if i < TANKS_PER_TEAM { Team::Red } else { Team::Blue }
        &&& spec_rect_contains(spec_zone_rect(g.tanks@[i].team), g.tanks@[i].pos)
    }
}

/// In every well-formed game state — and `update` keeps the game well
/// formed — every tank's health lies between zero and its maximum.
pub proof fn lemma_health_bounds(g: Game)
    requires
        game_wf(g),
    ensures
        forall|i: int| 0 <= i < g.tanks@.len()
            ==> 0 <= (#[trigger] g.tanks@[i]).health <= g.tanks@[i].max_health,
{
}

/// The winner by kill count: strictly more kills wins, a tie crowns nobody.
pub open spec fn spec_winner(red: u64, blue: u64) -> Option<Team> {
    if red > blue {
        Some(Team::Red)
    } else if blue > red {
        Some(Team::Blue)
    } else {
        None
    }
}

/// Decides the round winner from the two kill counters.
pub fn winner_of(red: u64, blue: u64) -> (r: Option<Team>)
    ensures
        r == spec_winner(red, blue),
{
    if red > blue {
        Some(Team::Red)
    } else if blue > red {
        Some(Team::Blue)
    } else {
        None
    }
}

impl Game {
    /// Builds a game from a seed and leaves it on the title screen; the same
    /// seed reproduces the same world and deployments.
    pub fn new(seed: u64) -> (g: Game)
        ensures
            game_wf(g),
            g.state == ScreenState::Title,
            game_freshly_reset(g),
    {
        let mut rng = rng_from_seed(seed);
        let world = World::new(&mut rng);
        let tanks = spawn_tanks(&mut rng, &world);
        let mut game = Game {
            state: ScreenState::Title,
            world,
            tanks,
            bullets: Vec::new(),
            tracks: Vec::new(),
            explosions: Vec::new(),
            powerups: Vec::new(),
            rng,
            round_timer: ROUND_TIME,
            countdown_timer: ROUND_COUNTDOWN,
            intro_timer: PLAYER_INTRO_TIME,
            powerup_spawn_timer: POWERUP_BASE_SPAWN,
            kills_red: 0,
            kills_blue: 0,
            last_winner: None,
            player_index: 0,
        };
        game.reset_round();
        game.state = ScreenState::Title;
        game
    }

    /// Starts a fresh round: regenerates the world, redeploys both squads,
    /// clears projectiles, debris and powerups, resets every timer and both
    /// kill counters, and re-derives the player-controlled tank.
    pub fn reset_round(&mut self)
        ensures
            game_wf(*final(self)),
            game_freshly_reset(*final(self)),
            final(self).state == old(self).state,
            final(self).player_index == 0,
    {
        self.world = World::new(&mut self.rng);
        self.tanks = spawn_tanks(&mut self.rng, &self.world);
        self.bullets = Vec::new();
        self.tracks = Vec::new();
        self.explosions = Vec::new();
        self.powerups = Vec::new();
        self.round_timer = ROUND_TIME;
        self.countdown_timer = ROUND_COUNTDOWN;
        self.intro_timer = PLAYER_INTRO_TIME;
        self.powerup_spawn_timer = POWERUP_BASE_SPAWN;
        self.kills_red = 0;
        self.kills_blue = 0;
        self.last_winner = None;
        self.player_index = 0;
    }

    /// One simulation step. On the title and round-over screens a start
    /// press deploys a fresh round. While the pre-round countdown runs, the
    /// battlefield stands still: only the countdown and the intro display
    /// timer advance. Afterwards the round timer runs down; when it reaches
    /// zero the round ends and the team with strictly more kills wins (a tie
    /// crowns nobody). Otherwise every powerup, tank, bullet, track mark and
    /// explosion advances one frame.
    #[verifier::rlimit(80)]
    pub fn update(&mut self, dt: i64, start_pressed: bool, input: &PlayerInput,
        mouse_world: Vec2)
        requires
            game_wf(*old(self)),
            0 <= dt <= DT_MAX,
            input_wf(*input),
            in_box(mouse_world, SIM_BOX as int),
        ensures
            game_wf(*final(self)),
            old(self).state == ScreenState::Title || old(self).state == ScreenState::RoundOver
                ==> if start_pressed {
                    final(self).state == ScreenState::Playing
                        && game_freshly_reset(*final(self))
                } else {
                    *final(self) == *old(self)
                },
            old(self).state == ScreenState::Playing ==> {
                &&& final(self).intro_timer
                    == if old(self).intro_timer - dt >= 0 { old(self).intro_timer - dt } else { 0 }
                &&& old(self).countdown_timer > 0 ==> {
                    // The world stands still during the countdown: only the
                    // countdown itself and the intro display timer advance.
                    &&& *final(self) == (Game {
                        countdown_timer: (if old(self).countdown_timer - dt >= 0 {
                            old(self).countdown_timer - dt
                        } else {
                            0int
                        }) as i64,
                        intro_timer: (if old(self).intro_timer - dt >= 0 {
                            old(self).intro_timer - dt
                        } else {
                            0int
                        }) as i64,
                        ..*old(self)
                    })
                    &&& final(self).state == ScreenState::Playing
                }
                &&& old(self).countdown_timer <= 0 ==> {
                    &&& final(self).countdown_timer == 0
                    &&& final(self).round_timer == if old(self).round_timer - dt >= 0 {
                        old(self).round_timer - dt
                    } else {
                        0
                    }
                    &&& old(self).round_timer <= dt ==> {
                        &&& final(self).state == ScreenState::RoundOver
                        &&& final(self).last_winner
                            == spec_winner(old(self).kills_red, old(self).kills_blue)
                    }
                    &&& old(self).round_timer > dt ==> {
                        &&& final(self).state == ScreenState::Playing
                        &&& final(self).last_winner == old(self).last_winner
                    }
                    &&& final(self).kills_red >= old(self).kills_red
                    &&& final(self).kills_blue >= old(self).kills_blue
                    &&& final(self).tanks@.len() == old(self).tanks@.len()
                    &&& forall|t: int| 0 <= t < final(self).tanks@.len()
                        ==> ((#[trigger] final(self).tanks@[t]).alive
                            && !old(self).tanks@[t].alive
                            ==> old(self).tanks@[t].respawn_timer <= dt)
                    &&& forall|t: int| 0 <= t < final(self).tanks@.len()
                        && !(#[trigger] old(self).tanks@[t]).alive
                        && old(self).tanks@[t].respawn_timer > dt
                        ==> !final(self).tanks@[t].alive
                            && final(self).tanks@[t].respawn_timer
                                == old(self).tanks@[t].respawn_timer - dt
                    &&& forall|t: int| 0 <= t < final(self).tanks@.len()
                        && !(#[trigger] old(self).tanks@[t]).alive
                        && old(self).tanks@[t].respawn_timer <= dt
                        ==> final(self).tanks@[t].alive
                            || final(self).tanks@[t].respawn_timer == RESPAWN_TIME
                    &&& (exists|p: int| 0 <= p < old(self).powerups@.len()
                        && crate::powerups::powerup_reachable(
                            #[trigger] old(self).powerups@[p], old(self).tanks@))
                        ==> final(self).powerups@.len() <= old(self).powerups@.len()
                    &&& forall|i: int| 0 <= i < final(self).bullets@.len() ==> {
                        &&& (#[trigger] final(self).bullets@[i]).life > 0
                        &&& spec_rect_contains(
                            crate::math::Rect {
                                x: 0,
                                y: 0,
                                w: crate::world::WORLD_W_MPX,
                                h: crate::world::WORLD_H_MPX,
                            },
                            final(self).bullets@[i].pos,
                        )
                    }
                    &&& forall|i: int| 0 <= i < final(self).tracks@.len()
                        ==> (#[trigger] final(self).tracks@[i]).age < crate::config::TRACK_LIFE
                    &&& forall|i: int| 0 <= i < final(self).explosions@.len()
                        ==> (#[trigger] final(self).explosions@[i]).age
                            < crate::config::EXPLOSION_LIFE
                    &&& (old(self).powerup_spawn_timer > dt
                        ==> final(self).powerup_spawn_timer
                            == old(self).powerup_spawn_timer - dt)
                    &&& (old(self).powerup_spawn_timer <= dt
                        ==> final(self).powerup_spawn_timer >= 3_000_000)
                    &&& forall|t: int| 0 <= t < final(self).tanks@.len()
                        ==> exists|mid: Tank, moved: Tank|
                            powerup_effect(#[trigger] old(self).tanks@[t], mid)
                            && #[trigger] control_evolution(mid, moved, dt as int)
                            && damage_evolution(moved, final(self).tanks@[t])
                }
            },
    {
        match self.state {
            ScreenState::Title => {
                if start_pressed {
                    self.reset_round();
                    self.state = ScreenState::Playing;
                }
            },
            ScreenState::RoundOver => {
                if start_pressed {
                    self.reset_round();
                    self.state = ScreenState::Playing;
                }
            },
            ScreenState::Playing => {
                self.intro_timer = timer_sub(self.intro_timer, dt);
                if self.countdown_timer > 0 {
                    self.countdown_timer = timer_sub(self.countdown_timer, dt);
                    return;
                }
                update_powerups(&mut self.powerups, &mut self.tanks, &self.world, &mut self.rng,
                    &mut self.powerup_spawn_timer, self.round_timer, dt);

                if self.round_timer <= dt {
                    self.round_timer = 0;
                    self.state = ScreenState::RoundOver;
                    self.last_winner = winner_of(self.kills_red, self.kills_blue);
                } else {
                    self.round_timer = self.round_timer - dt;
                }
                let ghost after_powerups = self.tanks@;
                self.update_tanks(dt, input, mouse_world);
                let ghost after_tanks = self.tanks@;
                update_bullets(&mut self.bullets, &mut self.tanks, &self.world,
                    &mut self.explosions, &mut self.kills_red, &mut self.kills_blue, dt);
                update_tracks(&mut self.tracks, dt);
                update_explosions(&mut self.explosions, dt);
                proof {
                    assert forall|t: int| 0 <= t < self.tanks@.len()
                        && (#[trigger] self.tanks@[t]).alive && !old(self).tanks@[t].alive
                        implies old(self).tanks@[t].respawn_timer <= dt by {
                        assert(powerup_effect(old(self).tanks@[t], after_powerups[t]));
                        assert(damage_evolution(after_tanks[t], self.tanks@[t]));
                    }
                    assert forall|t: int| 0 <= t < self.tanks@.len()
                        && !(#[trigger] old(self).tanks@[t]).alive
                        implies after_powerups[t] == old(self).tanks@[t] by {
                        assert(powerup_effect(old(self).tanks@[t], after_powerups[t]));
                    }
                    assert forall|t: int| 0 <= t < self.tanks@.len()
                        && !(#[trigger] old(self).tanks@[t]).alive
                        && old(self).tanks@[t].respawn_timer > dt
                        implies !self.tanks@[t].alive
                            && self.tanks@[t].respawn_timer
                                == old(self).tanks@[t].respawn_timer - dt by {
                        assert(damage_evolution(after_tanks[t], self.tanks@[t]));
                    }
                    assert forall|t: int| 0 <= t < self.tanks@.len()
                        && !(#[trigger] old(self).tanks@[t]).alive
                        && old(self).tanks@[t].respawn_timer <= dt
                        implies self.tanks@[t].alive
                            || self.tanks@[t].respawn_timer == RESPAWN_TIME by {
                        assert(damage_evolution(after_tanks[t], self.tanks@[t]));
                    }
                    assert forall|t: int| 0 <= t < self.tanks@.len()
                        implies exists|mid: Tank, moved: Tank|
                            powerup_effect(#[trigger] old(self).tanks@[t], mid)
                            && #[trigger] control_evolution(mid, moved, dt as int)
                            && damage_evolution(moved, self.tanks@[t]) by {
                        assert(powerup_effect(old(self).tanks@[t], after_powerups[t]));
                        assert(control_evolution(after_powerups[t], after_tanks[t], dt as int));
                        assert(damage_evolution(after_tanks[t], self.tanks@[t]));
                    }
                }
            },
        }
    }

    /// Advances every tank one frame from a frozen positional snapshot:
    /// timers run, dead tanks wait out their respawn timer and redeploy, the
    /// player tank follows the frame's intent, every other living tank runs
    /// its AI, and pairwise collisions are resolved afterwards.
    fn update_tanks(&mut self, dt: i64, input: &PlayerInput, mouse_world: Vec2)
        requires
            game_wf(*old(self)),
            0 <= dt <= DT_MAX,
            input_wf(*input),
            in_box(mouse_world, SIM_BOX as int),
        ensures
            game_wf(*final(self)),
            final(self).state == old(self).state,
            final(self).world == old(self).world,
            final(self).powerups == old(self).powerups,
            final(self).explosions == old(self).explosions,
            final(self).round_timer == old(self).round_timer,
            final(self).countdown_timer == old(self).countdown_timer,
            final(self).intro_timer == old(self).intro_timer,
            final(self).powerup_spawn_timer == old(self).powerup_spawn_timer,
            final(self).kills_red == old(self).kills_red,
            final(self).kills_blue == old(self).kills_blue,
            final(self).last_winner == old(self).last_winner,
            final(self).player_index == old(self).player_index,
            final(self).tanks@.len() == old(self).tanks@.len(),
            forall|t: int| 0 <= t < final(self).tanks@.len()
                ==> ((#[trigger] final(self).tanks@[t]).alive && !old(self).tanks@[t].alive
                    ==> old(self).tanks@[t].respawn_timer <= dt),
            forall|t: int| 0 <= t < final(self).tanks@.len()
                ==> (!(#[trigger] final(self).tanks@[t]).alive ==> !old(self).tanks@[t].alive),
            forall|t: int| 0 <= t < final(self).tanks@.len()
                && (#[trigger] old(self).tanks@[t]).alive
                ==> ({
                    let a = old(self).tanks@[t];
                    let b = final(self).tanks@[t];
                    &&& b.alive
                    &&& b.team == a.team
                    &&& b.health == a.health
                    &&& b.max_health == a.max_health
                    &&& b.health_flash
                        == (if a.health_flash - dt >= 0 { a.health_flash - dt } else { 0int })
                    &&& b.invincible_timer == (if a.invincible_timer - dt >= 0 {
                        a.invincible_timer - dt
                    } else {
                        0int
                    })
                    &&& b.rapid_timer
                        == (if a.rapid_timer - dt >= 0 { a.rapid_timer - dt } else { 0int })
                }),
            forall|t: int| 0 <= t < final(self).tanks@.len()
                && !(#[trigger] old(self).tanks@[t]).alive
                && old(self).tanks@[t].respawn_timer > dt
                ==> final(self).tanks@[t] == dead_tank_ticked(old(self).tanks@[t], dt as int),
            forall|t: int| 0 <= t < final(self).tanks@.len()
                && !(#[trigger] old(self).tanks@[t]).alive
                && old(self).tanks@[t].respawn_timer <= dt
                ==> {
                    let revived = final(self).tanks@[t];
                    &&& revived.alive
                    &&& revived.team == old(self).tanks@[t].team
                    &&& revived.max_health == old(self).tanks@[t].max_health
                    &&& revived.health == revived.max_health
                    &&& revived.fire_cooldown == crate::config::FIRE_COOLDOWN / 2
                    &&& revived.health_flash == 0
                    &&& revived.invincible_timer == 0
                    &&& revived.rapid_timer == 0
                    &&& revived.turret_angle == revived.body_angle
                },
            forall|t: int| 0 <= t < final(self).tanks@.len()
                ==> control_evolution(#[trigger] old(self).tanks@[t], final(self).tanks@[t],
                    dt as int),
    {
        let snapshot = collect_snapshot(&self.tanks);
        let mut new_bullets: Vec<Bullet> = Vec::new();
        let mut new_tracks: Vec<TrackMark> = Vec::new();
        let n = self.tanks.len();
        let mut i: usize = 0;
        while i < n
            invariant
                n == self.tanks@.len(),
                n == old(self).tanks@.len(),
                world_wf(self.world),
                self.world == old(self).world,
                self.player_index == old(self).player_index,
                self.player_index < n,
                tanks_wf(self.tanks@),
                bullets_wf(new_bullets@),
                tracks_wf(new_tracks@),
                self.state == old(self).state,
                self.bullets == old(self).bullets,
                self.tracks == old(self).tracks,
                self.explosions == old(self).explosions,
                self.powerups == old(self).powerups,
                self.round_timer == old(self).round_timer,
                self.countdown_timer == old(self).countdown_timer,
                self.intro_timer == old(self).intro_timer,
                self.powerup_spawn_timer == old(self).powerup_spawn_timer,
                self.kills_red == old(self).kills_red,
                self.kills_blue == old(self).kills_blue,
                self.last_winner == old(self).last_winner,
                game_wf(*old(self)),
                0 <= dt <= DT_MAX,
                input_wf(*input),
                in_box(mouse_world, SIM_BOX as int),
                i <= n,
                snapshot@.len() == n,
                forall|k: int| 0 <= k < snapshot@.len()
                    ==> snapshot_wf(#[trigger] snapshot@[k]),
                forall|k: int| i <= k < n
                    ==> #[trigger] self.tanks@[k] == old(self).tanks@[k],
                forall|k: int| 0 <= k < n
                    ==> ((#[trigger] self.tanks@[k]).alive && !old(self).tanks@[k].alive
                        ==> old(self).tanks@[k].respawn_timer <= dt),
                forall|k: int| 0 <= k < n
                    ==> (!(#[trigger] self.tanks@[k]).alive ==> !old(self).tanks@[k].alive),
                forall|k: int| 0 <= k < i && (#[trigger] old(self).tanks@[k]).alive
                    ==> ({
                        let a = old(self).tanks@[k];
                        let b = self.tanks@[k];
                        &&& b.alive
                        &&& b.team == a.team
                        &&& b.health == a.health
                        &&& b.max_health == a.max_health
                        &&& b.health_flash
                            == (if a.health_flash - dt >= 0 { a.health_flash - dt } else { 0int })
                        &&& b.invincible_timer == (if a.invincible_timer - dt >= 0 {
                            a.invincible_timer - dt
                        } else {
                            0int
                        })
                        &&& b.rapid_timer
                            == (if a.rapid_timer - dt >= 0 { a.rapid_timer - dt } else { 0int })
                    }),
                forall|k: int| 0 <= k < i
                    && !(#[trigger] old(self).tanks@[k]).alive
                    && old(self).tanks@[k].respawn_timer > dt
                    ==> self.tanks@[k] == dead_tank_ticked(old(self).tanks@[k], dt as int),
                forall|k: int| 0 <= k < i
                    && !(#[trigger] old(self).tanks@[k]).alive
                    && old(self).tanks@[k].respawn_timer <= dt
                    ==> {
                        let revived = self.tanks@[k];
                        &&& revived.alive
                        &&& revived.team == old(self).tanks@[k].team
                        &&& revived.max_health == old(self).tanks@[k].max_health
                        &&& revived.health == revived.max_health
                        &&& revived.fire_cooldown == crate::config::FIRE_COOLDOWN / 2
                        &&& revived.health_flash == 0
                        &&& revived.invincible_timer == 0
                        &&& revived.rapid_timer == 0
                        &&& revived.turret_angle == revived.body_angle
                    },
            decreases n - i,
        {
            let mut tank = self.tanks[i];
            update_tank_timers(&mut tank, dt);

            if !tank.alive {
                tank.respawn_timer = timer_sub(tank.respawn_timer, dt);
                if tank.respawn_timer == 0 {
                    respawn_tank(&mut tank, &self.world, &mut self.rng);
                }
                self.tanks.set(i, tank);
                i = i + 1;
                continue;
            }

            tank.fire_cooldown = timer_sub(tank.fire_cooldown, dt);

            if i == self.player_index {
                update_player_tank(&mut tank, dt, &self.world, mouse_world, input,
                    &mut new_tracks, &mut new_bullets);
            } else {
                update_ai_tank(&mut tank, dt, &self.world, &snapshot, &mut self.rng,
                    &mut new_tracks, &mut new_bullets);
            }
            self.tanks.set(i, tank);
            i = i + 1;
        }

        let ghost mid = *self;
        let mut j: usize = 0;
        while j < new_bullets.len()
            invariant
                bullets_wf(self.bullets@),
                bullets_wf(new_bullets@),
                j <= new_bullets@.len(),
                *self == (Game { bullets: self.bullets, ..mid }),
            decreases new_bullets@.len() - j,
        {
            self.bullets.push(new_bullets[j]);
            j = j + 1;
        }
        let mut m: usize = 0;
        while m < new_tracks.len()
            invariant
                bullets_wf(self.bullets@),
                tracks_wf(self.tracks@),
                tracks_wf(new_tracks@),
                m <= new_tracks@.len(),
                *self == (Game { bullets: self.bullets, tracks: self.tracks, ..mid }),
            decreases new_tracks@.len() - m,
        {
            self.tracks.push(new_tracks[m]);
            m = m + 1;
        }
        proof {
            assert(tanks_wf(self.tanks@));
        }

        let ghost before_resolve = self.tanks@;
        resolve_tank_collisions(&mut self.tanks, &self.world);
        proof {
            assert forall|t: int| 0 <= t < self.tanks@.len()
                implies (#[trigger] self.tanks@[t]).alive == before_resolve[t].alive by {
                assert(crate::entities::tank_same_except_pos(before_resolve[t], self.tanks@[t]));
            }
            assert forall|t: int| 0 <= t < self.tanks@.len()
                implies control_evolution(#[trigger] old(self).tanks@[t], self.tanks@[t],
                    dt as int) by {
                let a = old(self).tanks@[t];
                let m = before_resolve[t];
                let b = self.tanks@[t];
                assert(crate::entities::tank_same_except_pos(m, b));
                if a.alive {
                    assert(m.alive);
                    assert(m.team == a.team);
                    assert(m.health == a.health);
                    assert(m.max_health == a.max_health);
                    assert(m.health_flash
                        == if a.health_flash - dt >= 0 { a.health_flash - dt } else { 0int });
                    assert(m.invincible_timer == if a.invincible_timer - dt >= 0 {
                        a.invincible_timer - dt
                    } else {
                        0int
                    });
                    assert(m.rapid_timer
                        == if a.rapid_timer - dt >= 0 { a.rapid_timer - dt } else { 0int });
                } else if a.respawn_timer > dt {
                    assert(m == dead_tank_ticked(a, dt as int));
                    assert(!m.alive);
                    assert(b == m);
                } else {
                    assert(m.alive);
                    assert(m.team == a.team);
                    assert(m.health == m.max_health);
                    assert(m.fire_cooldown == crate::config::FIRE_COOLDOWN / 2);
                    assert(m.health_flash == 0);
                    assert(m.invincible_timer == 0);
                    assert(m.rapid_timer == 0);
                    assert(m.turret_angle == m.body_angle);
                }
            }
        }
    }
}

} // verus!
