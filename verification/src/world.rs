//! The battlefield: smoothed-noise tiles, two spawn zones and scattered
//! obstacles, regenerated from the seeded generator at every round.

use vstd::prelude::*;

use crate::config::{MAP_HEIGHT, MAP_WIDTH, TILE_SIZE};
use crate::entities::{spec_enemy, Team};
use crate::math::{
    in_box, rect_contains, rect_inflate, rect_wf, spec_near, spec_rect_contains,
    spec_rect_inflate, vec2, within, Rect, Vec2, POS_LIMIT,
};
use crate::rng::rng_range;

verus! {

/// Width of the world in milli-pixels.
pub const WORLD_W_MPX: i64 = MAP_WIDTH * TILE_SIZE;

/// Height of the world in milli-pixels.
pub const WORLD_H_MPX: i64 = MAP_HEIGHT * TILE_SIZE;

/// Spawn zone width, in tiles.
pub const ZONE_TILES_W: i64 = 7;

/// Spawn zone height, in tiles.
pub const ZONE_TILES_H: i64 = 8;

/// Ground cover of one tile.
#[derive(Clone, Copy, Debug, PartialEq, Eq, Structural)]
pub enum TileKind {
    Grass,
    Dirt,
    Sand,
}

/// The protected rectangle where one team's tanks deploy.
#[derive(Clone, Copy, Debug, PartialEq, Eq, Structural)]
pub struct SpawnZone {
    pub rect: Rect,
    pub team: Team,
}

impl SpawnZone {
    /// Whether a point lies in the zone, boundary included.
    pub fn contains(&self, pos: Vec2) -> (b: bool)
        requires
            rect_wf(self.rect, POS_LIMIT as int),
            in_box(pos, POS_LIMIT as int),
        ensures
            b == spec_rect_contains(self.rect, pos),
    {
        rect_contains(&self.rect, pos)
    }
}

/// The fixed rectangle of a team's spawn zone: 7 x 8 tiles, vertically
/// centered, two tiles in from the left (Red) or right (Blue) map edge.
pub open spec fn spec_zone_rect(team: Team) -> Rect {
    match team {
        Team::Red => Rect { x: 256_000, y: 1_408_000, w: 896_000, h: 1_024_000 },
        Team::Blue => Rect { x: 5_248_000, y: 1_408_000, w: 896_000, h: 1_024_000 },
    }
}

/// The two spawn zones never overlap: no point lies in both.
pub proof fn lemma_zones_disjoint(p: Vec2)
    ensures
        !(spec_rect_contains(spec_zone_rect(Team::Red), p)
            && spec_rect_contains(spec_zone_rect(Team::Blue), p)),
{
}

/// What kind of prop an obstacle is; the kind fixes its radius.
#[derive(Clone, Copy, Debug, PartialEq, Eq, Structural)]
pub enum ObstacleKind {
    TreeSmall,
    TreeLarge,
    SandbagBrown,
    SandbagBeige,
    Oil,
    BarrelRedUp,
    BarrelRedSide,
    BarrelGreyUp,
    BarrelGreySide,
    BarrelGreyRust,
    BarrelGreenUp,
    BarrelGreenSide,
    BarrelGreenSideDamaged,
}

/// Collision radius of each obstacle kind.
pub open spec fn spec_obstacle_radius(kind: ObstacleKind) -> int {
    match kind {
        ObstacleKind::TreeSmall => 40_000,
        ObstacleKind::TreeLarge => 60_000,
        ObstacleKind::SandbagBrown => 30_000,
        ObstacleKind::SandbagBeige => 30_000,
        ObstacleKind::Oil => 24_000,
        _ => 22_000,
    }
}

/// Collision radius of an obstacle kind, in milli-pixels.
pub fn obstacle_radius(kind: ObstacleKind) -> (r: i64)
    ensures
        r == spec_obstacle_radius(kind),
        22_000 <= r <= 60_000,
{
    match kind {
        ObstacleKind::TreeSmall => 40_000,
        ObstacleKind::TreeLarge => 60_000,
        ObstacleKind::SandbagBrown => 30_000,
        ObstacleKind::SandbagBeige => 30_000,
        ObstacleKind::Oil => 24_000,
        _ => 22_000,
    }
}

/// The obstacle kind at an index, cycling through all thirteen kinds.
pub fn obstacle_kind_from_index(i: i64) -> (k: ObstacleKind)
    requires
        0 <= i < 13,
{
    if i == 0 {
        ObstacleKind::TreeSmall
    } else if i == 1 {
        ObstacleKind::TreeLarge
    } else if i == 2 {
        ObstacleKind::SandbagBrown
    } else if i == 3 {
        ObstacleKind::SandbagBeige
    } else if i == 4 {
        ObstacleKind::Oil
    } else if i == 5 {
        ObstacleKind::BarrelRedUp
    } else if i == 6 {
        ObstacleKind::BarrelRedSide
    } else if i == 7 {
        ObstacleKind::BarrelGreyUp
    } else if i == 8 {
        ObstacleKind::BarrelGreySide
    } else if i == 9 {
        ObstacleKind::BarrelGreyRust
    } else if i == 10 {
        ObstacleKind::BarrelGreenUp
    } else if i == 11 {
        ObstacleKind::BarrelGreenSide
    } else {
        ObstacleKind::BarrelGreenSideDamaged
    }
}

/// A solid prop on the field.
#[derive(Clone, Copy, Debug, PartialEq, Eq, Structural)]
pub struct Obstacle {
    pub kind: ObstacleKind,
    pub pos: Vec2,
    pub radius: i64,
}

/// Well-formedness of one obstacle: its radius matches its kind, it fits
/// fully inside the world, and its radius-inflated footprint clears both
/// spawn zones (the center stays a radius away from each zone rectangle).
pub open spec fn obstacle_wf(o: Obstacle) -> bool {
    &&& o.radius == spec_obstacle_radius(o.kind)
    &&& o.radius <= o.pos.x <= WORLD_W_MPX - o.radius
    &&& o.radius <= o.pos.y <= WORLD_H_MPX - o.radius
    &&& !spec_rect_contains(spec_rect_inflate(spec_zone_rect(Team::Red), o.radius as int), o.pos)
    &&& !spec_rect_contains(spec_rect_inflate(spec_zone_rect(Team::Blue), o.radius as int), o.pos)
}

/// No two obstacles come closer than the sum of their radii plus a margin:
/// their radius-inflated footprints never intersect.
pub open spec fn obstacles_separated(s: Seq<Obstacle>) -> bool {
    forall|i: int, j: int|
        0 <= i < j < s.len() ==> !spec_near(
            s[i].pos,
            s[j].pos,
            s[i].radius + s[j].radius + 16_000,
        )
}

/// Well-formedness of the whole obstacle list.
pub open spec fn obstacles_wf(s: Seq<Obstacle>) -> bool {
    &&& forall|i: int| 0 <= i < s.len() ==> obstacle_wf(s[i])
    &&& obstacles_separated(s)
}

/// The generated battlefield.
pub struct World {
    pub width: i64,
    pub height: i64,
    pub tiles: Vec<TileKind>,
    pub obstacles: Vec<Obstacle>,
    pub spawn_zones: Vec<SpawnZone>,
}

/// Well-formedness of a world: fixed dimensions, a full tile grid, exactly
/// one spawn zone per team at its fixed place, and a well-formed obstacle
/// list.
pub open spec fn world_wf(w: World) -> bool {
    &&& w.width == MAP_WIDTH
    &&& w.height == MAP_HEIGHT
    &&& w.tiles.len() == MAP_WIDTH * MAP_HEIGHT
    &&& w.spawn_zones.len() == 2
    &&& w.spawn_zones[0] == (SpawnZone { rect: spec_zone_rect(Team::Red), team: Team::Red })
    &&& w.spawn_zones[1] == (SpawnZone { rect: spec_zone_rect(Team::Blue), team: Team::Blue })
    &&& w.obstacles@.len() <= 200
    &&& obstacles_wf(w.obstacles@)
}

impl World {
    /// Generates a fresh battlefield from the given generator: noise tiles,
    /// the two fixed spawn zones, and randomly scattered obstacles.
    pub fn new(rng: &mut rand::rngs::SmallRng) -> (w: World)
        ensures
            world_wf(w),
            w.obstacles@.len() <= 120,
    {
        let tiles = generate_tiles(rng);
        let mut spawn_zones: Vec<SpawnZone> = Vec::new();
        spawn_zones.push(SpawnZone {
            rect: Rect {
                x: 2 * TILE_SIZE,
                y: ((MAP_HEIGHT - ZONE_TILES_H) / 2) * TILE_SIZE,
                w: ZONE_TILES_W * TILE_SIZE,
                h: ZONE_TILES_H * TILE_SIZE,
            },
            team: Team::Red,
        });
        spawn_zones.push(SpawnZone {
            rect: Rect {
                x: (MAP_WIDTH - ZONE_TILES_W - 2) * TILE_SIZE,
                y: ((MAP_HEIGHT - ZONE_TILES_H) / 2) * TILE_SIZE,
                w: ZONE_TILES_W * TILE_SIZE,
                h: ZONE_TILES_H * TILE_SIZE,
            },
            team: Team::Blue,
        });
        let mut world = World {
            width: MAP_WIDTH,
            height: MAP_HEIGHT,
            tiles,
            obstacles: Vec::new(),
            spawn_zones,
        };
        world.generate_obstacles(rng);
        world
    }

    /// Index of tile `(x, y)` in the row-major tile grid.
    pub fn index(&self, x: i64, y: i64) -> (r: usize)
        requires
            world_wf(*self),
            0 <= x < MAP_WIDTH,
            0 <= y < MAP_HEIGHT,
        ensures
            r == y * MAP_WIDTH + x,
            r < self.tiles.len(),
    {
        (y * MAP_WIDTH + x) as usize
    }

    /// Ground cover at tile `(x, y)`.
    pub fn tile_kind(&self, x: i64, y: i64) -> (r: TileKind)
        requires
            world_wf(*self),
            0 <= x < MAP_WIDTH,
            0 <= y < MAP_HEIGHT,
        ensures
            r == self.tiles[y * MAP_WIDTH + x],
    {
        self.tiles[self.index(x, y)]
    }

    /// The playable area.
    pub fn world_bounds(&self) -> (r: Rect)
        ensures
            r == (Rect { x: 0, y: 0, w: WORLD_W_MPX, h: WORLD_H_MPX }),
    {
        Rect { x: 0, y: 0, w: WORLD_W_MPX, h: WORLD_H_MPX }
    }

    /// The spawn-zone rectangle of a team.
    pub fn zone_rect(&self, team: Team) -> (r: Rect)
        requires
            world_wf(*self),
        ensures
            r == spec_zone_rect(team),
    {
        match team {
            Team::Red => self.spawn_zones[0].rect,
            Team::Blue => self.spawn_zones[1].rect,
        }
    }

    /// A uniformly random point strictly inside a team's spawn zone, kept
    /// four tenths of a tile away from every zone edge.
    pub fn random_point_in_zone(&self, team: Team, rng: &mut rand::rngs::SmallRng) -> (r: Vec2)
        requires
            world_wf(*self),
        ensures
            spec_zone_rect(team).x + 51_200 <= r.x
                < spec_zone_rect(team).x + spec_zone_rect(team).w - 51_200,
            spec_zone_rect(team).y + 51_200 <= r.y
                < spec_zone_rect(team).y + spec_zone_rect(team).h - 51_200,
            spec_zone_rect(team).x < r.x < spec_zone_rect(team).x + spec_zone_rect(team).w,
            spec_zone_rect(team).y < r.y < spec_zone_rect(team).y + spec_zone_rect(team).h,
            spec_rect_contains(spec_zone_rect(team), r),
            in_box(r, POS_LIMIT as int),
    {
        let zone = self.zone_rect(team);
        let margin: i64 = TILE_SIZE * 4 / 10;
        let x = rng_range(rng, zone.x + margin, zone.x + zone.w - margin);
        let y = rng_range(rng, zone.y + margin, zone.y + zone.h - margin);
        vec2(x, y)
    }

    /// Whether `pos` lies inside the spawn zone of the enemy of `team`.
    pub fn is_inside_enemy_zone(&self, team: Team, pos: Vec2) -> (b: bool)
        requires
            world_wf(*self),
            in_box(pos, POS_LIMIT as int),
        ensures
            b == spec_rect_contains(spec_zone_rect(spec_enemy(team)), pos),
    {
        let zone = self.zone_rect(team.enemy());
        rect_contains(&zone, pos)
    }

    /// Whether `pos` lies inside either spawn zone.
    pub fn is_inside_spawn_zone(&self, pos: Vec2) -> (b: bool)
        requires
            world_wf(*self),
            in_box(pos, POS_LIMIT as int),
        ensures
            b == (spec_rect_contains(spec_zone_rect(Team::Red), pos)
                || spec_rect_contains(spec_zone_rect(Team::Blue), pos)),
    {
        let red = self.zone_rect(Team::Red);
        let blue = self.zone_rect(Team::Blue);
        rect_contains(&red, pos) || rect_contains(&blue, pos)
    }

    /// Scatters obstacles: first one attempt series per kind, then random
    /// kinds up to a density target; placements that find no clear position
    /// are skipped.
    fn generate_obstacles(&mut self, rng: &mut rand::rngs::SmallRng)
        requires
            world_wf(*old(self)),
            old(self).obstacles@.len() == 0,
        ensures
            world_wf(*final(self)),
            final(self).obstacles@.len() <= 120,
            final(self).width == old(self).width,
            final(self).height == old(self).height,
            final(self).tiles == old(self).tiles,
            final(self).spawn_zones == old(self).spawn_zones,
    {
        let mut i: i64 = 0;
        while i < 13
            invariant
                world_wf(*self),
                self.width == old(self).width,
                self.height == old(self).height,
                self.tiles == old(self).tiles,
                self.spawn_zones == old(self).spawn_zones,
                0 <= i <= 13,
                self.obstacles@.len() <= i,
            decreases 13 - i,
        {
            let kind = obstacle_kind_from_index(i);
            self.try_place_obstacle(kind, rng, 120);
            i = i + 1;
        }

        // Density target: eight percent of the tile count.
        let target: usize = ((MAP_WIDTH * MAP_HEIGHT) as usize) * 8 / 100;
        let mut attempts: usize = 0;
        while self.obstacles.len() < target && attempts < target * 8
            invariant
                world_wf(*self),
                self.width == old(self).width,
                self.height == old(self).height,
                self.tiles == old(self).tiles,
                self.spawn_zones == old(self).spawn_zones,
                target == 120,
                self.obstacles@.len() <= 120,
                attempts <= target * 8,
            decreases target * 8 - attempts,
        {
            attempts = attempts + 1;
            let kind = obstacle_kind_from_index(rng_range(rng, 0, 13));
            self.try_place_obstacle(kind, rng, 40);
        }
    }

    /// Tries to place one obstacle of the given kind; on failure the world
    /// is left as it was.
    fn try_place_obstacle(&mut self, kind: ObstacleKind, rng: &mut rand::rngs::SmallRng,
        attempts: usize)
        requires
            world_wf(*old(self)),
            old(self).obstacles@.len() < 200,
        ensures
            world_wf(*final(self)),
            final(self).width == old(self).width,
            final(self).height == old(self).height,
            final(self).tiles == old(self).tiles,
            final(self).spawn_zones == old(self).spawn_zones,
            old(self).obstacles@.len() <= final(self).obstacles@.len()
                <= old(self).obstacles@.len() + 1,
    {
        let radius = obstacle_radius(kind);
        if let Some(pos) = self.find_open_obstacle_position(radius, rng, attempts) {
            proof {
                lemma_obstacle_extends_separated(self.obstacles@, Obstacle { kind, pos, radius });
            }
            self.obstacles.push(Obstacle { kind, pos, radius });
        }
    }

    /// Searches for a position where an obstacle of the given radius would
    /// fit inside the world, outside both spawn zones, and clear of every
    /// obstacle placed so far; gives up after `attempts` tries.
    fn find_open_obstacle_position(&self, radius: i64, rng: &mut rand::rngs::SmallRng,
        attempts: usize) -> (r: Option<Vec2>)
        requires
            world_wf(*self),
            22_000 <= radius <= 60_000,
        ensures
            match r {
                Some(pos) => {
                    &&& radius <= pos.x <= WORLD_W_MPX - radius
                    &&& radius <= pos.y <= WORLD_H_MPX - radius
                    &&& !spec_rect_contains(
                        spec_rect_inflate(spec_zone_rect(Team::Red), radius as int), pos)
                    &&& !spec_rect_contains(
                        spec_rect_inflate(spec_zone_rect(Team::Blue), radius as int), pos)
                    &&& forall|i: int| 0 <= i < self.obstacles@.len() ==> !spec_near(
                        self.obstacles@[i].pos,
                        pos,
                        self.obstacles@[i].radius + radius + 16_000,
                    )
                },
                None => true,
            },
    {
        let mut tries: usize = 0;
        while tries < attempts
            invariant
                world_wf(*self),
                22_000 <= radius <= 60_000,
            decreases attempts - tries,
        {
            tries = tries + 1;
            let x = rng_range(rng, radius, WORLD_W_MPX - radius);
            let y = rng_range(rng, radius, WORLD_H_MPX - radius);
            let pos = vec2(x, y);
            // The whole footprint must clear both zones, not only the center.
            let red_zone = self.zone_rect(Team::Red);
            let blue_zone = self.zone_rect(Team::Blue);
            if rect_contains(&rect_inflate(&red_zone, radius), pos)
                || rect_contains(&rect_inflate(&blue_zone, radius), pos) {
                continue;
            }
            if self.any_obstacle_near(pos, radius) {
                continue;
            }
            return Some(pos);
        }
        None
    }

    /// Whether any placed obstacle is closer to `pos` than the two radii
    /// plus the placement margin.
    fn any_obstacle_near(&self, pos: Vec2, radius: i64) -> (b: bool)
        requires
            world_wf(*self),
            in_box(pos, POS_LIMIT as int),
            0 <= radius <= 100_000,
        ensures
            b == exists|i: int| 0 <= i < self.obstacles@.len() && spec_near(
                self.obstacles@[i].pos,
                pos,
                self.obstacles@[i].radius + radius + 16_000,
            ),
    {
        let mut i: usize = 0;
        while i < self.obstacles.len()
            invariant
                world_wf(*self),
                in_box(pos, POS_LIMIT as int),
                0 <= radius <= 100_000,
                i <= self.obstacles@.len(),
                forall|k: int| 0 <= k < i ==> !spec_near(
                    self.obstacles@[k].pos,
                    pos,
                    self.obstacles@[k].radius + radius + 16_000,
                ),
            decreases self.obstacles@.len() - i,
        {
            let obs = &self.obstacles[i];
            if within(obs.pos, pos, obs.radius + radius + 16_000) {
                return true;
            }
            i = i + 1;
        }
        false
    }
}

/// Pushing a new obstacle that is clear of every placed one keeps the list
/// separated, since nearness is symmetric.
proof fn lemma_obstacle_extends_separated(s: Seq<Obstacle>, o: Obstacle)
    requires
        obstacles_separated(s),
        forall|i: int| 0 <= i < s.len() ==> !spec_near(
            s[i].pos,
            o.pos,
            s[i].radius + o.radius + 16_000,
        ),
    ensures
        obstacles_separated(s.push(o)),
{
    let t = s.push(o);
    assert forall|i: int, j: int| 0 <= i < j < t.len() implies !spec_near(
        t[i].pos,
        t[j].pos,
        t[i].radius + t[j].radius + 16_000,
    ) by {
        if j == s.len() {
            assert(t[i] == s[i]);
            assert(t[j] == o);
        } else {
            assert(t[i] == s[i]);
            assert(t[j] == s[j]);
        }
    }
}

/// Random tile noise, three box-blur smoothing passes, and thresholding
/// into the three ground kinds; spawn-zone tiles are repainted afterwards.
fn generate_tiles(rng: &mut rand::rngs::SmallRng) -> (t: Vec<TileKind>)
    ensures
        t.len() == MAP_WIDTH * MAP_HEIGHT,
        forall|k: int| 0 <= k < 1500 && red_zone_tile(k)
            ==> #[trigger] t@[k] == TileKind::Grass,
        forall|k: int| 0 <= k < 1500 && blue_zone_tile(k)
            ==> #[trigger] t@[k] == TileKind::Sand,
{
    let mut values: Vec<i64> = Vec::new();
    while values.len() < 1500
        invariant
            forall|k: int| 0 <= k < values@.len() ==> 0 <= #[trigger] values@[k] < 1000,
            values@.len() <= 1500,
        decreases 1500 - values@.len(),
    {
        values.push(rng_range(rng, 0, 1000));
    }

    let mut pass: usize = 0;
    while pass < 3
        invariant
            values@.len() == 1500,
            forall|k: int| 0 <= k < values@.len() ==> 0 <= #[trigger] values@[k] < 1000,
        decreases 3 - pass,
    {
        values = blur_pass(&values);
        pass = pass + 1;
    }

    let mut tiles = threshold_tiles(&values);
    paint_spawn_zones(&mut tiles);
    tiles
}

/// The ground kind a smoothed noise value maps to: low values read as sand,
/// middle ones as dirt, high ones as grass.
pub open spec fn spec_tile_of(v: int) -> TileKind {
    if v < 350 {
        TileKind::Sand
    } else if v < 620 {
        TileKind::Dirt
    } else {
        TileKind::Grass
    }
}

/// Maps every smoothed noise value to its ground kind.
fn threshold_tiles(values: &Vec<i64>) -> (t: Vec<TileKind>)
    requires
        values@.len() == 1500,
    ensures
        t@.len() == 1500,
        forall|k: int| 0 <= k < 1500 ==> #[trigger] t@[k] == spec_tile_of(values@[k] as int),
{
    let mut tiles: Vec<TileKind> = Vec::new();
    let mut i: usize = 0;
    while i < 1500
        invariant
            values@.len() == 1500,
            tiles@.len() == i,
            i <= 1500,
            forall|k: int| 0 <= k < i ==> #[trigger] tiles@[k] == spec_tile_of(values@[k] as int),
        decreases 1500 - i,
    {
        let v = values[i];
        tiles.push(
            if v < 350 {
                TileKind::Sand
            } else if v < 620 {
                TileKind::Dirt
            } else {
                TileKind::Grass
            },
        );
        i = i + 1;
    }
    tiles
}

/// The tile grid indices the Red spawn zone covers.
pub open spec fn red_zone_tile(k: int) -> bool {
    11 <= k / 50 < 19 && 2 <= k % 50 < 9
}

/// The tile grid indices the Blue spawn zone covers.
pub open spec fn blue_zone_tile(k: int) -> bool {
    11 <= k / 50 < 19 && 41 <= k % 50 < 48
}

/// Repaints the tiles under the Red zone to grass and those under the Blue
/// zone to sand, leaving every other tile untouched.
fn paint_spawn_zones(tiles: &mut Vec<TileKind>)
    requires
        old(tiles)@.len() == 1500,
    ensures
        final(tiles)@.len() == 1500,
        forall|k: int| 0 <= k < 1500 ==> #[trigger] final(tiles)@[k] == (
            if red_zone_tile(k) {
                TileKind::Grass
            } else if blue_zone_tile(k) {
                TileKind::Sand
            } else {
                old(tiles)@[k]
            }
        ),
{
    let mut y: usize = 11;
    while y < 19
        invariant
            tiles@.len() == 1500,
            11 <= y <= 19,
            forall|k: int| 0 <= k < 1500 ==> #[trigger] tiles@[k] == (
                if red_zone_tile(k) && k / 50 < y {
                    TileKind::Grass
                } else if blue_zone_tile(k) && k / 50 < y {
                    TileKind::Sand
                } else {
                    old(tiles)@[k]
                }
            ),
        decreases 19 - y,
    {
        let mut x: usize = 2;
        while x < 9
            invariant
                tiles@.len() == 1500,
                11 <= y < 19,
                2 <= x <= 9,
                forall|k: int| 0 <= k < 1500 ==> #[trigger] tiles@[k] == (
                    if red_zone_tile(k) && (k / 50 < y || (k / 50 == y && k % 50 < x)) {
                        TileKind::Grass
                    } else if blue_zone_tile(k) && k / 50 < y {
                        TileKind::Sand
                    } else {
                        old(tiles)@[k]
                    }
                ),
            decreases 9 - x,
        {
            tiles.set(y * 50 + x, TileKind::Grass);
            proof {
                vstd::arithmetic::div_mod::lemma_fundamental_div_mod_converse(
                    (y * 50 + x) as int, 50, y as int, x as int);
                assert forall|k: int| 0 <= k < 1500 implies #[trigger] tiles@[k] == (
                    if red_zone_tile(k) && (k / 50 < y || (k / 50 == y && k % 50 < x + 1)) {
                        TileKind::Grass
                    } else if blue_zone_tile(k) && k / 50 < y {
                        TileKind::Sand
                    } else {
                        old(tiles)@[k]
                    }
                ) by {
                    vstd::arithmetic::div_mod::lemma_fundamental_div_mod(k, 50);
                }
            }
            x = x + 1;
        }
        let mut bx: usize = 41;
        while bx < 48
            invariant
                tiles@.len() == 1500,
                11 <= y < 19,
                41 <= bx <= 48,
                forall|k: int| 0 <= k < 1500 ==> #[trigger] tiles@[k] == (
                    if red_zone_tile(k) && k / 50 <= y {
                        TileKind::Grass
                    } else if blue_zone_tile(k)
                        && (k / 50 < y || (k / 50 == y && k % 50 < bx)) {
                        TileKind::Sand
                    } else {
                        old(tiles)@[k]
                    }
                ),
            decreases 48 - bx,
        {
            tiles.set(y * 50 + bx, TileKind::Sand);
            proof {
                vstd::arithmetic::div_mod::lemma_fundamental_div_mod_converse(
                    (y * 50 + bx) as int, 50, y as int, bx as int);
                assert forall|k: int| 0 <= k < 1500 implies #[trigger] tiles@[k] == (
                    if red_zone_tile(k) && k / 50 <= y {
                        TileKind::Grass
                    } else if blue_zone_tile(k)
                        && (k / 50 < y || (k / 50 == y && k % 50 < bx + 1)) {
                        TileKind::Sand
                    } else {
                        old(tiles)@[k]
                    }
                ) by {
                    vstd::arithmetic::div_mod::lemma_fundamental_div_mod(k, 50);
                }
            }
            bx = bx + 1;
        }
        y = y + 1;
    }
}

/// The sum of `n` noise values of row `ny` starting at column `x0`.
pub open spec fn spec_row_sum(values: Seq<i64>, ny: int, x0: int, n: int) -> int
    decreases n,
{
    if n <= 0 {
        0
    } else {
        spec_row_sum(values, ny, x0, n - 1) + values[ny * 50 + x0 + (n - 1)]
    }
}

/// The sum of a `rows` by `cols` window of noise values whose top-left cell
/// is `(x0, y0)`.
pub open spec fn spec_window_sum(values: Seq<i64>, y0: int, x0: int, rows: int, cols: int) -> int
    decreases rows,
{
    if rows <= 0 {
        0
    } else {
        spec_window_sum(values, y0, x0, rows - 1, cols)
            + spec_row_sum(values, y0 + (rows - 1), x0, cols)
    }
}

/// One blurred cell: the average of the cell and its in-bounds neighbors,
/// edges clamped.
pub open spec fn spec_blur_at(values: Seq<i64>, x: int, y: int) -> int {
    let y0 = if y == 0 { 0int } else { y - 1 };
    let y1 = if y + 1 < 30 { y + 1 } else { 29int };
    let x0 = if x == 0 { 0int } else { x - 1 };
    let x1 = if x + 1 < 50 { x + 1 } else { 49int };
    spec_window_sum(values, y0, x0, y1 - y0 + 1, x1 - x0 + 1) / ((y1 - y0 + 1) * (x1 - x0 + 1))
}

/// One 3 x 3 box-blur pass over the noise grid, averaging each cell with
/// its in-bounds neighbors.
fn blur_pass(values: &Vec<i64>) -> (r: Vec<i64>)
    requires
        values@.len() == 1500,
        forall|k: int| 0 <= k < values@.len() ==> 0 <= #[trigger] values@[k] < 1000,
    ensures
        r@.len() == 1500,
        forall|k: int| 0 <= k < r@.len() ==> 0 <= #[trigger] r@[k] < 1000,
        forall|k: int| 0 <= k < 1500
            ==> #[trigger] r@[k] == spec_blur_at(values@, k % 50, k / 50),
{
    let mut next: Vec<i64> = Vec::new();
    let mut y: usize = 0;
    while y < 30
        invariant
            values@.len() == 1500,
            forall|k: int| 0 <= k < values@.len() ==> 0 <= #[trigger] values@[k] < 1000,
            next@.len() == y * 50,
            y <= 30,
            forall|k: int| 0 <= k < next@.len() ==> 0 <= #[trigger] next@[k] < 1000,
            forall|k: int| 0 <= k < next@.len()
                ==> #[trigger] next@[k] == spec_blur_at(values@, k % 50, k / 50),
        decreases 30 - y,
    {
        let mut x: usize = 0;
        while x < 50
            invariant
                values@.len() == 1500,
                forall|k: int| 0 <= k < values@.len() ==> 0 <= #[trigger] values@[k] < 1000,
                next@.len() == y * 50 + x,
                y < 30,
                x <= 50,
                forall|k: int| 0 <= k < next@.len() ==> 0 <= #[trigger] next@[k] < 1000,
                forall|k: int| 0 <= k < next@.len()
                    ==> #[trigger] next@[k] == spec_blur_at(values@, k % 50, k / 50),
            decreases 50 - x,
        {
            let y0: usize = if y == 0 { 0 } else { y - 1 };
            let y1: usize = if y + 1 < 30 { y + 1 } else { 29 };
            let x0: usize = if x == 0 { 0 } else { x - 1 };
            let x1: usize = if x + 1 < 50 { x + 1 } else { 49 };
            let cols: i64 = (x1 - x0 + 1) as i64;
            let mut sum: i64 = 0;
            let mut ny: usize = y0;
            while ny <= y1
                invariant
                    values@.len() == 1500,
                    forall|k: int| 0 <= k < values@.len() ==> 0 <= #[trigger] values@[k] < 1000,
                    y0 <= ny <= y1 + 1,
                    y0 <= y1 < 30,
                    y1 - y0 <= 2,
                    x0 <= x1 < 50,
                    x1 - x0 <= 2,
                    cols == x1 - x0 + 1,
                    0 <= sum <= 8991,
                    sum <= 999 * ((ny - y0) * (x1 - x0 + 1)),
                    sum == spec_window_sum(values@, y0 as int, x0 as int, ny - y0, cols as int),
                decreases y1 + 1 - ny,
            {
                let mut row: i64 = 0;
                let mut nx: usize = x0;
                while nx <= x1
                    invariant
                        values@.len() == 1500,
                        forall|k: int| 0 <= k < values@.len()
                            ==> 0 <= #[trigger] values@[k] < 1000,
                        x0 <= nx <= x1 + 1,
                        ny < 30,
                        x0 <= x1 < 50,
                        0 <= row,
                        row <= 999 * (nx - x0),
                        row == spec_row_sum(values@, ny as int, x0 as int, nx - x0),
                    decreases x1 + 1 - nx,
                {
                    row = row + values[ny * 50 + nx];
                    nx = nx + 1;
                }
                proof {
                    assert(sum + row <= 999 * ((ny + 1 - y0) * (x1 - x0 + 1))
                        && sum + row <= 8991)
                        by (nonlinear_arith)
                        requires
                            sum <= 999 * ((ny as int - y0 as int) * (x1 as int - x0 as int + 1)),
                            0 <= row <= 999 * (x1 as int - x0 as int + 1),
                            0 <= sum,
                            y0 as int <= ny as int <= y1 as int,
                            y1 as int - y0 as int <= 2,
                            x1 as int - x0 as int <= 2;
                }
                sum = sum + row;
                ny = ny + 1;
            }
            let rows: i64 = (y1 - y0 + 1) as i64;
            proof {
                assert(1 <= rows * cols <= 9) by (nonlinear_arith)
                    requires 1 <= rows <= 3i64, 1 <= cols <= 3i64;
            }
            let count: i64 = rows * cols;
            let avg: i64 = ((sum as u64) / (count as u64)) as i64;
            proof {
                let c = count as int;
                assert(1 <= c <= 9 && sum <= 999 * c) by (nonlinear_arith)
                    requires
                        c == (y1 as int - y0 as int + 1) * (x1 as int - x0 as int + 1),
                        1 <= y1 as int - y0 as int + 1 <= 3,
                        1 <= x1 as int - x0 as int + 1 <= 3,
                        sum <= 999 * ((y1 as int + 1 - y0 as int) * (x1 as int - x0 as int + 1)),
                        sum >= 0;
                vstd::arithmetic::div_mod::lemma_div_is_ordered(sum as int, 999 * c, c);
                vstd::arithmetic::div_mod::lemma_div_by_multiple(999, c);
                vstd::arithmetic::div_mod::lemma_div_pos_is_pos(sum as int, c);
                vstd::arithmetic::div_mod::lemma_fundamental_div_mod_converse(
                    (y * 50 + x) as int, 50, y as int, x as int);
            }
            next.push(avg);
            x = x + 1;
        }
        y = y + 1;
    }
    next
}

} // verus!
