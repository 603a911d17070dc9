use vstd::prelude::*;

use crate::gamemap::GameMap;
use crate::rng::{choose_room, random_range, random_ratio};
use crate::tile::{ore, plain_wall, walkable, TileType, UndergroundType};

verus! {

/// An axis-aligned rectangle given by two corners; its interior cells are
/// those strictly between the corners.
#[derive(Clone, Copy, Debug, PartialEq, Eq, Structural)]
pub struct Rect {
    pub x1: i32,
    pub y1: i32,
    pub x2: i32,
    pub y2: i32,
}

/// (x, y) lies strictly inside `r`.
pub open spec fn in_rect_interior(r: Rect, x: int, y: int) -> bool {
    r.x1 < x < r.x2 && r.y1 < y < r.y2
}

/// Rust's truncating halving of an integer.
pub open spec fn half_toward_zero(v: int) -> int {
    if v >= 0 {
        v / 2
    } else {
        -((-v) / 2)
    }
}

/// Two rectangles overlap or touch (closed ranges intersect on both axes).
pub open spec fn rects_meet(a: Rect, b: Rect) -> bool {
    a.x1 <= b.x2 && a.x2 >= b.x1 && a.y1 <= b.y2 && a.y2 >= b.y1
}

impl Rect {
    /// The rectangle with corner (x, y), width `w` and height `h`.
    pub fn new(x: i32, y: i32, w: i32, h: i32) -> (r: Rect)
        requires
            i32::MIN <= x + w <= i32::MAX,
            i32::MIN <= y + h <= i32::MAX,
        ensures
            r.x1 == x,
            r.y1 == y,
            r.x2 == x + w,
            r.y2 == y + h,
    {
        Rect { x1: x, y1: y, x2: x + w, y2: y + h }
    }

    /// The midpoint of the corners, halved toward zero.
    pub fn center(&self) -> (c: (i32, i32))
        requires
            i32::MIN <= self.x1 + self.x2 <= i32::MAX,
            i32::MIN <= self.y1 + self.y2 <= i32::MAX,
        ensures
            c.0 == half_toward_zero(self.x1 + self.x2),
            c.1 == half_toward_zero(self.y1 + self.y2),
    {
        ((self.x1 + self.x2) / 2, (self.y1 + self.y2) / 2)
    }

    /// Whether the two rectangles overlap or touch.
    pub fn intersect(&self, other: &Rect) -> (b: bool)
        ensures
            b == rects_meet(*self, *other),
    {
        self.x1 <= other.x2 && self.x2 >= other.x1 && self.y1 <= other.y2 && self.y2 >= other.y1
    }

    /// Some cell strictly inside the rectangle; which one depends on the
    /// generator.
    pub fn random_point(&self, rng: &mut rand::rngs::ThreadRng) -> (p: (i32, i32))
        requires
            self.x1 + 1 < self.x2,
            self.y1 + 1 < self.y2,
        ensures
            in_rect_interior(*self, p.0 as int, p.1 as int),
    {
        let x = random_range(rng, self.x1 + 1, self.x2);
        let y = random_range(rng, self.y1 + 1, self.y2);
        (x, y)
    }
}

/// Fills the interior of `room` with `tile_type`; cells outside the map are
/// skipped and every other cell keeps its tile.
fn apply_room_to_map(level: &mut GameMap, room: &Rect, tile_type: TileType)
    requires
        old(level).wf(),
        room.x1 < i32::MAX,
        room.y1 < i32::MAX,
    ensures
        final(level).wf(),
        final(level).same_shape(&*old(level)),
        forall|a: int, b: int|
            #![trigger final(level).tile_at(a, b)]
            final(level).tile_at(a, b) == (if in_rect_interior(*room, a, b) && old(level).in_bounds_spec(a, b) {
                tile_type
            } else {
                old(level).tile_at(a, b)
            }),
{
    let mut y = room.y1 + 1;
    while y < room.y2
        invariant
            level.wf(),
            level.same_shape(&*old(level)),
            room.x1 < i32::MAX,
            room.y1 + 1 <= y,
            y <= room.y2 || y == room.y1 + 1,
            forall|a: int, b: int|
                #![trigger level.tile_at(a, b)]
                level.tile_at(a, b) == (if room.x1 < a < room.x2 && room.y1 < b < y && old(level).in_bounds_spec(a, b) {
                    tile_type
                } else {
                    old(level).tile_at(a, b)
                }),
        decreases room.y2 - y,
    {
        let mut x = room.x1 + 1;
        while x < room.x2
            invariant
                level.wf(),
                level.same_shape(&*old(level)),
                room.y1 < y < room.y2,
                room.x1 + 1 <= x,
                x <= room.x2 || x == room.x1 + 1,
                forall|a: int, b: int|
                    #![trigger level.tile_at(a, b)]
                    level.tile_at(a, b) == (if ((room.x1 < a < room.x2 && room.y1 < b < y) || (b
                        == y && room.x1 < a < x)) && old(level).in_bounds_spec(a, b) {
                        tile_type
                    } else {
                        old(level).tile_at(a, b)
                    }),
            decreases room.x2 - x,
        {
            level.set_tile(x, y, tile_type);
            x = x + 1;
        }
        y = y + 1;
    }
    assert forall|a: int, b: int|
        #![trigger level.tile_at(a, b)]
        level.tile_at(a, b) == (if in_rect_interior(*room, a, b) && old(level).in_bounds_spec(a, b) {
            tile_type
        } else {
            old(level).tile_at(a, b)
        }) by {
        if room.y1 < b < y {
        }
    }
}

/// Sets row `y` from `min(x1, x2)` to `max(x1, x2)` to `tile_type` (cells
/// outside the map skipped).
fn apply_horizontal_tunnel(level: &mut GameMap, x1: i32, x2: i32, y: i32, tile_type: TileType)
    requires
        old(level).wf(),
    ensures
        final(level).wf(),
        final(level).same_shape(&*old(level)),
        forall|a: int, b: int|
            #![trigger final(level).tile_at(a, b)]
            final(level).tile_at(a, b) == (if b == y && (if x1 < x2 {
                x1 <= a <= x2
            } else {
                x2 <= a <= x1
            }) && old(level).in_bounds_spec(a, b) {
                tile_type
            } else {
                old(level).tile_at(a, b)
            }),
{
    let lo = if x1 < x2 {
        x1
    } else {
        x2
    };
    let hi = if x1 < x2 {
        x2
    } else {
        x1
    };
    let mut x: i64 = lo as i64;
    while x <= hi as i64
        invariant
            level.wf(),
            level.same_shape(&*old(level)),
            lo <= x <= hi + 1,
            forall|a: int, b: int|
                #![trigger level.tile_at(a, b)]
                level.tile_at(a, b) == (if b == y && lo <= a < x && old(level).in_bounds_spec(a, b) {
                    tile_type
                } else {
                    old(level).tile_at(a, b)
                }),
        decreases hi + 1 - x,
    {
        level.set_tile(x as i32, y, tile_type);
        x = x + 1;
    }
}

/// Sets column `x` from `min(y1, y2)` to `max(y1, y2)` to `tile_type` (cells
/// outside the map skipped).
fn apply_vertical_tunnel(level: &mut GameMap, y1: i32, y2: i32, x: i32, tile_type: TileType)
    requires
        old(level).wf(),
    ensures
        final(level).wf(),
        final(level).same_shape(&*old(level)),
        forall|a: int, b: int|
            #![trigger final(level).tile_at(a, b)]
            final(level).tile_at(a, b) == (if a == x && (if y1 < y2 {
                y1 <= b <= y2
            } else {
                y2 <= b <= y1
            }) && old(level).in_bounds_spec(a, b) {
                tile_type
            } else {
                old(level).tile_at(a, b)
            }),
{
    let lo = if y1 < y2 {
        y1
    } else {
        y2
    };
    let hi = if y1 < y2 {
        y2
    } else {
        y1
    };
    let mut y: i64 = lo as i64;
    while y <= hi as i64
        invariant
            level.wf(),
            level.same_shape(&*old(level)),
            lo <= y <= hi + 1,
            forall|a: int, b: int|
                #![trigger level.tile_at(a, b)]
                level.tile_at(a, b) == (if a == x && lo <= b < y && old(level).in_bounds_spec(a, b) {
                    tile_type
                } else {
                    old(level).tile_at(a, b)
                }),
        decreases hi + 1 - y,
    {
        level.set_tile(x, y as i32, tile_type);
        y = y + 1;
    }
}

/// 1 when `t` is a plain wall, else 0.
pub open spec fn wall_count(t: TileType) -> int {
    if plain_wall(t) {
        1
    } else {
        0
    }
}

/// Number of the eight neighbours of (x, y) holding a plain wall (cells
/// outside the map read as `Wall`).
pub open spec fn wall_neighbors(level: &GameMap, x: int, y: int) -> int {
    wall_count(level.tile_at(x - 1, y - 1)) + wall_count(level.tile_at(x - 1, y)) + wall_count(
        level.tile_at(x - 1, y + 1),
    ) + wall_count(level.tile_at(x, y - 1)) + wall_count(level.tile_at(x, y + 1)) + wall_count(
        level.tile_at(x + 1, y - 1),
    ) + wall_count(level.tile_at(x + 1, y)) + wall_count(level.tile_at(x + 1, y + 1))
}

/// Wall count of neighbour (x + dx, y + dy); the cell itself counts 0.
pub open spec fn neighbor_term(level: &GameMap, x: int, y: int, dx: int, dy: int) -> int {
    if dx == 0 && dy == 0 {
        0
    } else {
        wall_count(level.tile_at(x + dx, y + dy))
    }
}

/// Sum of `neighbor_term` over dy from -1 to k - 1.
pub open spec fn column_walls(level: &GameMap, x: int, y: int, dx: int, k: int) -> int
    decreases k + 1,
{
    if k <= -1 {
        0
    } else {
        column_walls(level, x, y, dx, k - 1) + neighbor_term(level, x, y, dx, k - 1)
    }
}

/// Sum of full columns over dx from -1 to j - 1.
pub open spec fn grid_walls(level: &GameMap, x: int, y: int, j: int) -> int
    decreases j + 1,
{
    if j <= -1 {
        0
    } else {
        grid_walls(level, x, y, j - 1) + column_walls(level, x, y, j - 1, 2)
    }
}

/// Counts the plain walls among the eight neighbours of (x, y).
pub fn count_walls(level: &GameMap, x: i32, y: i32) -> (n: i32)
    requires
        level.wf(),
        i32::MIN < x < i32::MAX,
        i32::MIN < y < i32::MAX,
    ensures
        n == wall_neighbors(level, x as int, y as int),
        0 <= n <= 8,
{
    let mut count: i32 = 0;
    let mut nx: i32 = -1;
    while nx <= 1
        invariant
            level.wf(),
            i32::MIN < x < i32::MAX,
            i32::MIN < y < i32::MAX,
            -1 <= nx <= 2,
            count == grid_walls(level, x as int, y as int, nx as int),
            0 <= count <= 3 * (nx + 1),
        decreases 2 - nx,
    {
        let mut ny: i32 = -1;
        let ghost base = count;
        while ny <= 1
            invariant
                level.wf(),
                i32::MIN < x < i32::MAX,
                i32::MIN < y < i32::MAX,
                -1 <= nx <= 1,
                -1 <= ny <= 2,
                base == grid_walls(level, x as int, y as int, nx as int),
                0 <= base <= 3 * (nx + 1),
                count == base + column_walls(level, x as int, y as int, nx as int, ny as int),
                0 <= count - base <= ny + 1,
            decreases 2 - ny,
        {
            if !(nx == 0 && ny == 0) {
                let tile = level.get_tile(x + nx, y + ny);
                if tile == TileType::CaveWall || tile == TileType::MineWall || tile == TileType::Wall {
                    count = count + 1;
                }
            }
            ny = ny + 1;
        }
        nx = nx + 1;
    }
    proof {
        reveal_with_fuel(grid_walls, 4);
        reveal_with_fuel(column_walls, 4);
    }
    count
}


/// The tile a cell becomes in one smoothing step, given its tile and its
/// number of wall neighbours: a cave wall with fewer than 4 wall neighbours
/// opens up, any other tile with more than 5 becomes a cave wall.
pub open spec fn smoothed(t: TileType, walls: int) -> TileType {
    if t == TileType::CaveWall {
        if walls < 4 {
            TileType::CaveFloor
        } else {
            t
        }
    } else {
        if walls > 5 {
            TileType::CaveWall
        } else {
            t
        }
    }
}

/// `b` is `a` after one step of the cellular automaton: each interior cell
/// becomes `smoothed` by the walls around it in `a`; the outer ring stays.
pub open spec fn smooth_step(a: &GameMap, b: &GameMap) -> bool {
    &&& b.wf()
    &&& b.same_shape(a)
    &&& forall|x: int, y: int|
        #![trigger b.tile_at(x, y)]
        b.tile_at(x, y) == (if a.interior(x, y) {
            smoothed(a.tile_at(x, y), wall_neighbors(a, x, y))
        } else {
            a.tile_at(x, y)
        })
}

/// In one smoothing step an interior cave wall with fewer than four wall
/// neighbours opens into cave floor, and one with four or more stays a cave
/// wall.
pub proof fn lemma_smoothing_cave_wall(a: &GameMap, b: &GameMap, x: int, y: int)
    requires
        smooth_step(a, b),
        a.interior(x, y),
        a.tile_at(x, y) == TileType::CaveWall,
    ensures
        wall_neighbors(a, x, y) < 4 ==> b.tile_at(x, y) == TileType::CaveFloor,
        wall_neighbors(a, x, y) >= 4 ==> b.tile_at(x, y) == TileType::CaveWall,
{
    assert(b.tile_at(x, y) == smoothed(a.tile_at(x, y), wall_neighbors(a, x, y)));
}

/// In one smoothing step an interior cell that is not a cave wall becomes a
/// cave wall when more than five of its neighbours are walls, and keeps its
/// tile otherwise.
pub proof fn lemma_smoothing_open_cell(a: &GameMap, b: &GameMap, x: int, y: int)
    requires
        smooth_step(a, b),
        a.interior(x, y),
        a.tile_at(x, y) != TileType::CaveWall,
    ensures
        wall_neighbors(a, x, y) > 5 ==> b.tile_at(x, y) == TileType::CaveWall,
        wall_neighbors(a, x, y) <= 5 ==> b.tile_at(x, y) == a.tile_at(x, y),
{
    assert(b.tile_at(x, y) == smoothed(a.tile_at(x, y), wall_neighbors(a, x, y)));
}

/// The eight neighbours of (x, y) all hold `t`.
pub open spec fn ringed_by(a: &GameMap, x: int, y: int, t: TileType) -> bool {
    &&& a.tile_at(x - 1, y - 1) == t
    &&& a.tile_at(x - 1, y) == t
    &&& a.tile_at(x - 1, y + 1) == t
    &&& a.tile_at(x, y - 1) == t
    &&& a.tile_at(x, y + 1) == t
    &&& a.tile_at(x + 1, y - 1) == t
    &&& a.tile_at(x + 1, y) == t
    &&& a.tile_at(x + 1, y + 1) == t
}

/// Smoothing keeps solid rock and opens lone pillars: an interior cave wall
/// whose eight neighbours are all cave walls stays a cave wall, and one whose
/// eight neighbours are all cave floor becomes cave floor.
pub proof fn lemma_smoothing_rock_and_pillars(a: &GameMap, b: &GameMap, x: int, y: int)
    requires
        smooth_step(a, b),
        a.interior(x, y),
        a.tile_at(x, y) == TileType::CaveWall,
    ensures
        ringed_by(a, x, y, TileType::CaveWall) ==> b.tile_at(x, y) == TileType::CaveWall,
        ringed_by(a, x, y, TileType::CaveFloor) ==> b.tile_at(x, y) == TileType::CaveFloor,
{
    lemma_smoothing_cave_wall(a, b, x, y);
    if ringed_by(a, x, y, TileType::CaveWall) {
        assert(wall_neighbors(a, x, y) == 8);
    }
    if ringed_by(a, x, y, TileType::CaveFloor) {
        assert(wall_neighbors(a, x, y) == 0);
    }
}

/// One step of the cellular automaton, applied to every interior cell at
/// once (all counts read the level before the step).
fn smooth_cave(level: &mut GameMap)
    requires
        old(level).wf(),
    ensures
        smooth_step(&*old(level), &*final(level)),
{
    let mut next = GameMap {
        depth: level.depth,
        map: level.map.clone(),
        width: level.width,
        height: level.height,
        underground_type: level.underground_type,
    };
    assert(next.map@ =~= level.map@);
    let mut y: i32 = 1;
    while y < level.height - 1
        invariant
            level == old(level),
            level.wf(),
            next.wf(),
            next.same_shape(level),
            1 <= y,
            y <= level.height - 1 || y == 1,
            forall|a: int, b: int|
                #![trigger next.tile_at(a, b)]
                next.tile_at(a, b) == (if 1 <= a < level.width - 1 && 1 <= b < y {
                    smoothed(level.tile_at(a, b), wall_neighbors(level, a, b))
                } else {
                    level.tile_at(a, b)
                }),
        decreases level.height - y,
    {
        let mut x: i32 = 1;
        while x < level.width - 1
            invariant
                level == old(level),
                level.wf(),
                next.wf(),
                next.same_shape(level),
                1 <= y < level.height - 1,
                1 <= x,
                x <= level.width - 1 || x == 1,
                forall|a: int, b: int|
                    #![trigger next.tile_at(a, b)]
                    next.tile_at(a, b) == (if (1 <= a < level.width - 1 && 1 <= b < y) || (b == y
                        && 1 <= a < x) {
                        smoothed(level.tile_at(a, b), wall_neighbors(level, a, b))
                    } else {
                        level.tile_at(a, b)
                    }),
            decreases level.width - x,
        {
            let neighbors = count_walls(level, x, y);
            let current = level.get_tile(x, y);
            if current == TileType::CaveWall {
                if neighbors < 4 {
                    next.set_tile(x, y, TileType::CaveFloor);
                }
            } else {
                if neighbors > 5 {
                    next.set_tile(x, y, TileType::CaveWall);
                }
            }
            x = x + 1;
        }
        y = y + 1;
    }
    level.map = next.map;
    proof {
        assert forall|a: int, b: int|
            #![trigger level.tile_at(a, b)]
            level.tile_at(a, b) == (if old(level).interior(a, b) {
                smoothed(old(level).tile_at(a, b), wall_neighbors(&*old(level), a, b))
            } else {
                old(level).tile_at(a, b)
            }) by {
            assert(level.tile_at(a, b) == next.tile_at(a, b));
        }
    }
}

/// The smaller of two integers.
fn min_i32(a: i32, b: i32) -> (m: i32)
    ensures
        m == (if a < b {
            a
        } else {
            b
        }),
{
    if a < b {
        a
    } else {
        b
    }
}

/// Ore chances fit in an `i32` at this depth.
pub open spec fn ore_depth_ok(depth: int) -> bool {
    25 - 2 * depth <= i32::MAX && depth + 24 <= i32::MAX
}

/// Every cell of `new` either keeps its tile from `old` or is an interior
/// mine or cave wall turned into an ore.
pub open spec fn ore_veins_added(old: &GameMap, new: &GameMap) -> bool {
    forall|a: int, b: int|
        #![trigger new.tile_at(a, b)]
        new.tile_at(a, b) == old.tile_at(a, b) || (old.interior(a, b) && (old.tile_at(a, b)
            == TileType::MineWall || old.tile_at(a, b) == TileType::CaveWall) && ore(
            new.tile_at(a, b),
        ))
}

/// What a wall becomes at `depth` for a roll in `0..100`: iron below
/// `15 - min(depth, 10)`, then copper for the next `10 - min(depth, 8)`,
/// sonorite for the next `min(depth, 15)`, glimmerstone for the next
/// `min(depth, 12)`, whispering iron for the next `depth - 10` (when
/// positive); with a higher roll the wall `t` stays.
pub open spec fn ore_roll(depth: int, roll: int, t: TileType) -> TileType {
    let iron = 15 - (if depth < 10 { depth } else { 10 });
    let copper = 10 - (if depth < 8 { depth } else { 8 });
    let sonorite = if depth < 15 { depth } else { 15 };
    let glimmerstone = if depth < 12 { depth } else { 12 };
    let whispering_iron = if depth > 10 { depth - 10 } else { 0 };
    if roll < iron {
        TileType::IronOre
    } else if roll < iron + copper {
        TileType::CopperOre
    } else if roll < iron + copper + sonorite {
        TileType::SonoriteOre
    } else if roll < iron + copper + sonorite + glimmerstone {
        TileType::GlimmerstoneOre
    } else if roll < iron + copper + sonorite + glimmerstone + whispering_iron {
        TileType::WhisperingIronOre
    } else {
        t
    }
}

/// `new` is `old` after every interior mine or cave wall rolled once: each
/// such cell holds `ore_roll(depth, r, wall)` for some roll `r` in `0..100`,
/// and every other cell keeps its tile.
pub open spec fn ore_rolled(old: &GameMap, new: &GameMap, depth: int) -> bool {
    forall|a: int, b: int|
        #![trigger new.tile_at(a, b)]
        if old.interior(a, b) && (old.tile_at(a, b) == TileType::MineWall || old.tile_at(a, b)
            == TileType::CaveWall) {
            exists|roll: int| 0 <= roll < 100 && new.tile_at(a, b) == #[trigger] ore_roll(depth, roll, old.tile_at(a, b))
        } else {
            new.tile_at(a, b) == old.tile_at(a, b)
        }
}

/// Turns some interior mine and cave walls into ores, each wall rolling
/// once: iron and copper are likelier shallow, sonorite, glimmerstone and
/// whispering iron deeper.
fn add_ore_veins(level: &mut GameMap, rng: &mut rand::rngs::ThreadRng, depth: i32)
    requires
        old(level).wf(),
        ore_depth_ok(depth as int),
    ensures
        final(level).wf(),
        final(level).same_shape(&*old(level)),
        ore_veins_added(&*old(level), &*final(level)),
        ore_rolled(&*old(level), &*final(level), depth as int),
{
    let iron_chance = 15 - min_i32(depth, 10);
    let copper_chance = 10 - min_i32(depth, 8);
    let sonorite_chance = min_i32(depth, 15);
    let glimmerstone_chance = min_i32(depth, 12);
    let whispering_iron_chance = if depth > 10 {
        depth - 10
    } else {
        0
    };
    let mut y: i32 = 1;
    while y < level.height - 1
        invariant
            level.wf(),
            level.same_shape(&*old(level)),
            1 <= y,
            ore_depth_ok(depth as int),
            iron_chance == 15 - (if depth < 10 { depth as int } else { 10 }),
            copper_chance == 10 - (if depth < 8 { depth as int } else { 8 }),
            sonorite_chance == (if depth < 15 { depth as int } else { 15 }),
            glimmerstone_chance == (if depth < 12 { depth as int } else { 12 }),
            whispering_iron_chance == (if depth > 10 { depth - 10 } else { 0 }),
            ore_veins_added(&*old(level), level),
            forall|a: int, b: int|
                #![trigger level.tile_at(a, b)]
                if old(level).interior(a, b) && b < y && (old(level).tile_at(a, b) == TileType::MineWall
                    || old(level).tile_at(a, b) == TileType::CaveWall) {
                    exists|roll: int| 0 <= roll < 100 && level.tile_at(a, b) == #[trigger] ore_roll(depth as int, roll, old(level).tile_at(a, b))
                } else {
                    level.tile_at(a, b) == old(level).tile_at(a, b)
                },
        decreases level.height - y,
    {
        let mut x: i32 = 1;
        while x < level.width - 1
            invariant
                level.wf(),
                level.same_shape(&*old(level)),
                1 <= y < level.height - 1,
                1 <= x,
                ore_depth_ok(depth as int),
                iron_chance == 15 - (if depth < 10 { depth as int } else { 10 }),
                copper_chance == 10 - (if depth < 8 { depth as int } else { 8 }),
                sonorite_chance == (if depth < 15 { depth as int } else { 15 }),
                glimmerstone_chance == (if depth < 12 { depth as int } else { 12 }),
                whispering_iron_chance == (if depth > 10 { depth - 10 } else { 0 }),
                ore_veins_added(&*old(level), level),
                forall|a: int, b: int|
                    #![trigger level.tile_at(a, b)]
                    if old(level).interior(a, b) && (b < y || (b == y && a < x)) && (old(level).tile_at(a, b) == TileType::MineWall
                        || old(level).tile_at(a, b) == TileType::CaveWall) {
                        exists|roll: int| 0 <= roll < 100 && level.tile_at(a, b) == #[trigger] ore_roll(depth as int, roll, old(level).tile_at(a, b))
                    } else {
                        level.tile_at(a, b) == old(level).tile_at(a, b)
                    },
            decreases level.width - x,
        {
            let current = level.get_tile(x, y);
            if current == TileType::MineWall || current == TileType::CaveWall {
                let roll = random_range(rng, 0, 100);
                let ghost before = *level;
                if roll < iron_chance {
                    level.set_tile(x, y, TileType::IronOre);
                } else if roll < iron_chance + copper_chance {
                    level.set_tile(x, y, TileType::CopperOre);
                } else if roll < iron_chance + copper_chance + sonorite_chance {
                    level.set_tile(x, y, TileType::SonoriteOre);
                } else if roll < iron_chance + copper_chance + sonorite_chance + glimmerstone_chance {
                    level.set_tile(x, y, TileType::GlimmerstoneOre);
                } else if roll < iron_chance + copper_chance + sonorite_chance + glimmerstone_chance
                    + whispering_iron_chance {
                    level.set_tile(x, y, TileType::WhisperingIronOre);
                }
                proof {
                    assert(level.tile_at(x as int, y as int) == ore_roll(depth as int, roll as int, current));
                    assert forall|a: int, b: int|
                        #![trigger level.tile_at(a, b)]
                        level.tile_at(a, b) == old(level).tile_at(a, b) || (old(level).interior(a, b)
                            && (old(level).tile_at(a, b) == TileType::MineWall || old(
                            level).tile_at(a, b) == TileType::CaveWall) && ore(
                            level.tile_at(a, b),
                        )) by {
                        assert(before.tile_at(a, b) == before.tile_at(a, b));
                    }
                    assert forall|a: int, b: int|
                        #![trigger level.tile_at(a, b)]
                        if old(level).interior(a, b) && (b < y || (b == y && a < x + 1)) && (old(level).tile_at(a, b) == TileType::MineWall
                            || old(level).tile_at(a, b) == TileType::CaveWall) {
                            exists|roll: int| 0 <= roll < 100 && level.tile_at(a, b) == #[trigger] ore_roll(depth as int, roll, old(level).tile_at(a, b))
                        } else {
                            level.tile_at(a, b) == old(level).tile_at(a, b)
                        } by {
                        assert(before.tile_at(a, b) == before.tile_at(a, b));
                    }
                }
            }
            x = x + 1;
        }
        y = y + 1;
    }
}

/// `r` lies within the map's interior with room for at least one interior
/// cell of its own on each axis.
pub open spec fn room_fits(r: Rect, level: &GameMap) -> bool {
    &&& 1 <= r.x1
    &&& r.x1 + 3 <= r.x2 <= level.width - 2
    &&& 1 <= r.y1
    &&& r.y1 + 3 <= r.y2 <= level.height - 2
}

/// Interior cells of `new` may be unstable walls made from mine or cave walls
/// or gas pockets made from mine floor; every other cell keeps its tile.
pub open spec fn mine_features_added(old: &GameMap, new: &GameMap) -> bool {
    forall|a: int, b: int|
        #![trigger new.tile_at(a, b)]
        new.tile_at(a, b) == old.tile_at(a, b) || (old.interior(a, b) && (((old.tile_at(a, b)
            == TileType::MineWall || old.tile_at(a, b) == TileType::CaveWall) && new.tile_at(a, b)
            == TileType::UnstableWall) || (old.tile_at(a, b) == TileType::MineFloor && new.tile_at(
            a,
            b,
        ) == TileType::GasPocket)))
}

/// Gas cells drawn for a mine: one per try (`depth / 3` tries, none above
/// depth 3) when there are rooms, none without rooms; each strictly inside
/// one of the rooms.
pub open spec fn mine_gas_draws(rooms: Seq<Rect>, depth: int, gas: Seq<(int, int)>) -> bool {
    &&& gas.len() == (if rooms.len() == 0 || depth < 3 {
        0
    } else {
        depth / 3
    })
    &&& forall|j: int| 0 <= j < gas.len() ==> in_some_room(rooms, #[trigger] gas[j])
}

/// Cell `c` lies strictly inside one of the rooms.
pub open spec fn in_some_room(rooms: Seq<Rect>, c: (int, int)) -> bool {
    exists|k: int| 0 <= k < rooms.len() && #[trigger] in_rect_interior(rooms[k], c.0, c.1)
}

/// `new` is `old` with the mine features at the drawn gas cells: each
/// interior mine or cave wall stays or (from depth 1 on) became an unstable
/// wall; each mine floor cell among the gas cells became a gas pocket; every
/// other cell keeps its tile.
pub open spec fn mine_features_at(old: &GameMap, new: &GameMap, depth: int, gas: Seq<(int, int)>) -> bool {
    forall|a: int, b: int|
        #![trigger new.tile_at(a, b)]
        if old.interior(a, b) && (old.tile_at(a, b) == TileType::MineWall || old.tile_at(a, b)
            == TileType::CaveWall) {
            new.tile_at(a, b) == old.tile_at(a, b) || (depth >= 1 && new.tile_at(a, b)
                == TileType::UnstableWall)
        } else if old.tile_at(a, b) == TileType::MineFloor && gas.contains((a, b)) {
            new.tile_at(a, b) == TileType::GasPocket
        } else {
            new.tile_at(a, b) == old.tile_at(a, b)
        }
}

/// The mine features were added with the gas cells `gas`.
pub open spec fn mine_features_drawn(
    old: &GameMap,
    new: &GameMap,
    depth: int,
    rooms: Seq<Rect>,
    gas: Seq<(int, int)>,
) -> bool {
    mine_gas_draws(rooms, depth, gas) && mine_features_at(old, new, depth, gas)
}

/// Turns some interior mine and cave walls into unstable walls (chance
/// `min(depth, 20)` in 100 each) and places `depth / 3` tries at gas pockets
/// on mine floor at random points of random rooms.
fn add_special_features(
    level: &mut GameMap,
    rng: &mut rand::rngs::ThreadRng,
    depth: i32,
    rooms: &Vec<Rect>,
)
    requires
        old(level).wf(),
        forall|i: int| 0 <= i < rooms@.len() ==> room_fits(#[trigger] rooms@[i], &*old(level)),
    ensures
        final(level).wf(),
        final(level).same_shape(&*old(level)),
        mine_features_added(&*old(level), &*final(level)),
        exists|gas: Seq<(int, int)>|
            #[trigger] mine_features_drawn(&*old(level), &*final(level), depth as int, rooms@, gas),
{
    let unstable_wall_chance = min_i32(depth, 20);
    let mut y: i32 = 1;
    while y < level.height - 1
        invariant
            level.wf(),
            level.same_shape(&*old(level)),
            1 <= y,
            mine_features_added(&*old(level), level),
            unstable_wall_chance == (if depth < 20 { depth as int } else { 20 }),
            mine_features_at(&*old(level), level, depth as int, Seq::empty()),
        decreases level.height - y,
    {
        let mut x: i32 = 1;
        while x < level.width - 1
            invariant
                level.wf(),
                level.same_shape(&*old(level)),
                1 <= y < level.height - 1,
                1 <= x,
                mine_features_added(&*old(level), level),
                unstable_wall_chance == (if depth < 20 { depth as int } else { 20 }),
                mine_features_at(&*old(level), level, depth as int, Seq::empty()),
            decreases level.width - x,
        {
            let current = level.get_tile(x, y);
            if (current == TileType::MineWall || current == TileType::CaveWall) && !current.is_ore() {
                let roll = random_range(rng, 0, 100);
                if roll < unstable_wall_chance {
                    level.set_tile(x, y, TileType::UnstableWall);
                }
            }
            x = x + 1;
        }
        y = y + 1;
    }
    let num_gas_pockets = if depth >= 3 {
        depth / 3
    } else {
        0
    };
    let ghost mut gas: Seq<(int, int)> = Seq::empty();
    let mut k: i32 = 0;
    while k < num_gas_pockets
        invariant
            level.wf(),
            level.same_shape(&*old(level)),
            forall|i: int| 0 <= i < rooms@.len() ==> room_fits(#[trigger] rooms@[i], &*old(level)),
            mine_features_added(&*old(level), level),
            0 <= k <= num_gas_pockets,
            num_gas_pockets == (if depth >= 3 { depth / 3 } else { 0 }),
            gas.len() == (if rooms@.len() == 0 { 0 } else { k as int }),
            forall|j: int| 0 <= j < gas.len() ==> in_some_room(rooms@, #[trigger] gas[j]),
            mine_features_at(&*old(level), level, depth as int, gas),
        decreases num_gas_pockets - k,
    {
        if let Some(room) = choose_room(rooms, rng) {
            let (x, y) = room.random_point(rng);
            let ghost before = *level;
            let ghost old_gas = gas;
            proof {
                gas = gas.push((x as int, y as int));
                let ri = choose|ri: int| 0 <= ri < rooms@.len() && rooms@[ri] == room;
                assert(room_fits(rooms@[ri], &*old(level)));
                assert(in_rect_interior(rooms@[ri], gas.last().0, gas.last().1));
                assert(old(level).in_bounds_spec(x as int, y as int));
                assert forall|j: int| 0 <= j < gas.len() implies in_some_room(rooms@, #[trigger] gas[j]) by {
                    if j < old_gas.len() {
                        assert(gas[j] == old_gas[j]);
                    }
                }
            }
            if level.get_tile(x, y) == TileType::MineFloor {
                level.set_tile(x, y, TileType::GasPocket);
            }
            proof {
                assert forall|a: int, b: int|
                    #![trigger level.tile_at(a, b)]
                    if old(level).interior(a, b) && (old(level).tile_at(a, b) == TileType::MineWall
                        || old(level).tile_at(a, b) == TileType::CaveWall) {
                        level.tile_at(a, b) == old(level).tile_at(a, b) || (depth >= 1 && level.tile_at(a, b)
                            == TileType::UnstableWall)
                    } else if old(level).tile_at(a, b) == TileType::MineFloor && gas.contains((a, b)) {
                        level.tile_at(a, b) == TileType::GasPocket
                    } else {
                        level.tile_at(a, b) == old(level).tile_at(a, b)
                    } by {
                    assert(before.tile_at(a, b) == before.tile_at(a, b));
                    if gas.contains((a, b)) {
                        let j = choose|j: int| 0 <= j < gas.len() && gas[j] == (a, b);
                        if j < old_gas.len() {
                            assert(old_gas[j] == (a, b));
                            assert(old_gas.contains((a, b)));
                        } else {
                            assert(a == x && b == y);
                        }
                    }
                    if old_gas.contains((a, b)) {
                        let j = choose|j: int| 0 <= j < old_gas.len() && old_gas[j] == (a, b);
                        assert(gas[j] == (a, b));
                    }
                }
            }
        }
        k = k + 1;
    }
    proof {
        assert(mine_features_drawn(&*old(level), &*level, depth as int, rooms@, gas));
    }
}

/// Interior cave floor cells of `new` may have become stairs; every other
/// cell keeps its tile.
pub open spec fn cave_stairs_added(old: &GameMap, new: &GameMap) -> bool {
    forall|a: int, b: int|
        #![trigger new.tile_at(a, b)]
        new.tile_at(a, b) == old.tile_at(a, b) || (old.interior(a, b) && old.tile_at(a, b)
            == TileType::CaveFloor && (new.tile_at(a, b) == TileType::StairsDown || new.tile_at(
            a,
            b,
        ) == TileType::StairsUp))
}

/// How a search for cave floor among random interior cells of `level` went:
/// 1 to 100 cells were tried, each interior; every one before the last was
/// not cave floor, and the last was cave floor unless all 100 were tried.
pub open spec fn floor_search(level: &GameMap, tries: Seq<(int, int)>) -> bool {
    &&& 1 <= tries.len() <= 100
    &&& forall|j: int| 0 <= j < tries.len() ==> level.interior((#[trigger] tries[j]).0, tries[j].1)
    &&& forall|j: int|
        0 <= j < tries.len() - 1 ==> level.tile_at((#[trigger] tries[j]).0, tries[j].1)
            != TileType::CaveFloor
    &&& tries.len() < 100 ==> level.tile_at(tries.last().0, tries.last().1) == TileType::CaveFloor
}

/// `new` is `level` with `tile` on the last cell tried if that cell is cave
/// floor; every other cell keeps its tile.
pub open spec fn placed_at_search_end(
    level: &GameMap,
    new: &GameMap,
    tries: Seq<(int, int)>,
    tile: TileType,
) -> bool {
    forall|a: int, b: int|
        #![trigger new.tile_at(a, b)]
        new.tile_at(a, b) == (if (a, b) == tries.last() && level.tile_at(a, b) == TileType::CaveFloor {
            tile
        } else {
            level.tile_at(a, b)
        })
}

/// The stairs were added by the search `down` on `old`, which gave `mid`,
/// then the search `up` on `mid`, which gave `new`.
pub open spec fn cave_stairs_drawn(
    old: &GameMap,
    new: &GameMap,
    down: Seq<(int, int)>,
    mid: GameMap,
    up: Seq<(int, int)>,
) -> bool {
    &&& mid.same_shape(old)
    &&& floor_search(old, down)
    &&& placed_at_search_end(old, &mid, down, TileType::StairsDown)
    &&& floor_search(&mid, up)
    &&& placed_at_search_end(&mid, new, up, TileType::StairsUp)
}

/// Tries up to 100 random interior cells for a cave floor to hold the stairs
/// down, then likewise for the stairs up.
fn add_stairs_to_cave(level: &mut GameMap, rng: &mut rand::rngs::ThreadRng)
    requires
        old(level).wf(),
        old(level).width >= 3,
        old(level).height >= 3,
    ensures
        final(level).wf(),
        final(level).same_shape(&*old(level)),
        cave_stairs_added(&*old(level), &*final(level)),
        exists|down: Seq<(int, int)>, mid: GameMap, up: Seq<(int, int)>|
            #[trigger] cave_stairs_drawn(&*old(level), &*final(level), down, mid, up),
{
    let max_attempts: i32 = 100;
    let mut attempts: i32 = 0;
    let ghost mut down: Seq<(int, int)> = Seq::empty();
    while attempts < max_attempts
        invariant_except_break
            down.len() == attempts,
            forall|j: int|
                0 <= j < down.len() ==> old(level).interior((#[trigger] down[j]).0, down[j].1)
                    && old(level).tile_at(down[j].0, down[j].1) != TileType::CaveFloor,
            forall|a: int, b: int| #[trigger] level.tile_at(a, b) == old(level).tile_at(a, b),
        invariant
            level.wf(),
            level.same_shape(&*old(level)),
            level.width >= 3,
            level.height >= 3,
            0 <= attempts <= max_attempts,
            max_attempts == 100,
            cave_stairs_added(&*old(level), level),
        ensures
            floor_search(&*old(level), down),
            placed_at_search_end(&*old(level), level, down, TileType::StairsDown),
        decreases max_attempts - attempts,
    {
        let x = random_range(rng, 1, level.width - 1);
        let y = random_range(rng, 1, level.height - 1);
        let ghost old_down = down;
        proof {
            down = down.push((x as int, y as int));
            assert forall|j: int| 0 <= j < down.len() - 1 implies old(level).interior(
                (#[trigger] down[j]).0,
                down[j].1,
            ) && old(level).tile_at(down[j].0, down[j].1) != TileType::CaveFloor by {
                assert(down[j] == old_down[j]);
            }
        }
        if level.get_tile(x, y) == TileType::CaveFloor {
            level.set_tile(x, y, TileType::StairsDown);
            break;
        }
        attempts = attempts + 1;
    }
    let ghost mid = *level;
    attempts = 0;
    let ghost mut up: Seq<(int, int)> = Seq::empty();
    while attempts < max_attempts
        invariant_except_break
            up.len() == attempts,
            forall|j: int|
                0 <= j < up.len() ==> mid.interior((#[trigger] up[j]).0, up[j].1) && mid.tile_at(
                    up[j].0,
                    up[j].1,
                ) != TileType::CaveFloor,
            forall|a: int, b: int| #[trigger] level.tile_at(a, b) == mid.tile_at(a, b),
        invariant
            level.wf(),
            level.same_shape(&*old(level)),
            mid.same_shape(&*old(level)),
            level.width >= 3,
            level.height >= 3,
            0 <= attempts <= max_attempts,
            max_attempts == 100,
            cave_stairs_added(&*old(level), level),
        ensures
            floor_search(&mid, up),
            placed_at_search_end(&mid, level, up, TileType::StairsUp),
        decreases max_attempts - attempts,
    {
        let x = random_range(rng, 1, level.width - 1);
        let y = random_range(rng, 1, level.height - 1);
        let ghost old_up = up;
        proof {
            up = up.push((x as int, y as int));
            assert forall|j: int| 0 <= j < up.len() - 1 implies mid.interior(
                (#[trigger] up[j]).0,
                up[j].1,
            ) && mid.tile_at(up[j].0, up[j].1) != TileType::CaveFloor by {
                assert(up[j] == old_up[j]);
            }
        }
        if level.get_tile(x, y) == TileType::CaveFloor {
            level.set_tile(x, y, TileType::StairsUp);
            break;
        }
        attempts = attempts + 1;
    }
    proof {
        assert(cave_stairs_drawn(&*old(level), &*level, down, mid, up));
    }
}

/// Interior cells of `new` may be unstable walls made from cave walls, or gas
/// pockets or ancient machinery made from cave floor; every other cell keeps
/// its tile.
pub open spec fn cave_features_added(old: &GameMap, new: &GameMap) -> bool {
    forall|a: int, b: int|
        #![trigger new.tile_at(a, b)]
        new.tile_at(a, b) == old.tile_at(a, b) || (old.interior(a, b) && ((old.tile_at(a, b)
            == TileType::CaveWall && new.tile_at(a, b) == TileType::UnstableWall) || (old.tile_at(
            a,
            b,
        ) == TileType::CaveFloor && (new.tile_at(a, b) == TileType::GasPocket || new.tile_at(a, b)
            == TileType::AncientMachinery))))
}

/// A sequence with `c` pushed contains exactly what it contained and `c`.
proof fn lemma_push_contains<A>(s: Seq<A>, c: A, p: A)
    ensures
        s.push(c).contains(p) <==> (s.contains(p) || p == c),
{
    if s.push(c).contains(p) {
        let j = choose|j: int| 0 <= j < s.push(c).len() && s.push(c)[j] == p;
        if j < s.len() {
            assert(s[j] == p);
        }
    }
    if s.contains(p) {
        let j = choose|j: int| 0 <= j < s.len() && s[j] == p;
        assert(s.push(c)[j] == p);
    }
    if p == c {
        assert(s.push(c)[s.len() as int] == p);
    }
}

/// Cells drawn for a cave's features: `depth / 3` gas cells (none below
/// depth 3) and `depth / 5` machinery cells (none below depth 5), each an
/// interior cell of `level`.
pub open spec fn cave_feature_draws(
    level: &GameMap,
    depth: int,
    gas: Seq<(int, int)>,
    machinery: Seq<(int, int)>,
) -> bool {
    &&& gas.len() == (if depth >= 3 {
        depth / 3
    } else {
        0
    })
    &&& machinery.len() == (if depth >= 5 {
        depth / 5
    } else {
        0
    })
    &&& forall|j: int| 0 <= j < gas.len() ==> level.interior((#[trigger] gas[j]).0, gas[j].1)
    &&& forall|j: int|
        0 <= j < machinery.len() ==> level.interior((#[trigger] machinery[j]).0, machinery[j].1)
}

/// `new` is `old` with the cave features at the drawn cells: each interior
/// cave wall stays or (from depth 1 on) became an unstable wall; each cave
/// floor cell among the gas cells became a gas pocket, and one among the
/// machinery cells (and no gas cell) ancient machinery; every other cell
/// keeps its tile.
pub open spec fn cave_features_at(
    old: &GameMap,
    new: &GameMap,
    depth: int,
    gas: Seq<(int, int)>,
    machinery: Seq<(int, int)>,
) -> bool {
    forall|a: int, b: int|
        #![trigger new.tile_at(a, b)]
        if old.interior(a, b) && old.tile_at(a, b) == TileType::CaveWall {
            new.tile_at(a, b) == old.tile_at(a, b) || (depth >= 1 && new.tile_at(a, b)
                == TileType::UnstableWall)
        } else if old.tile_at(a, b) == TileType::CaveFloor && gas.contains((a, b)) {
            new.tile_at(a, b) == TileType::GasPocket
        } else if old.tile_at(a, b) == TileType::CaveFloor && machinery.contains((a, b)) {
            new.tile_at(a, b) == TileType::AncientMachinery
        } else {
            new.tile_at(a, b) == old.tile_at(a, b)
        }
}

/// The cave features were added with the drawn cells `gas` and `machinery`.
pub open spec fn cave_features_drawn(
    old: &GameMap,
    new: &GameMap,
    depth: int,
    gas: Seq<(int, int)>,
    machinery: Seq<(int, int)>,
) -> bool {
    cave_feature_draws(old, depth, gas, machinery) && cave_features_at(old, new, depth, gas, machinery)
}

/// Turns some interior cave walls into unstable walls (chance
/// `min(depth, 20)` in 100 each), then makes `depth / 3` tries at gas pockets
/// and `depth / 5` at ancient machinery on random interior cave floor.
fn add_special_features_to_cave(level: &mut GameMap, rng: &mut rand::rngs::ThreadRng, depth: i32)
    requires
        old(level).wf(),
        depth >= 3 ==> old(level).width >= 3 && old(level).height >= 3,
    ensures
        final(level).wf(),
        final(level).same_shape(&*old(level)),
        cave_features_added(&*old(level), &*final(level)),
        exists|gas: Seq<(int, int)>, machinery: Seq<(int, int)>|
            #[trigger] cave_features_drawn(&*old(level), &*final(level), depth as int, gas, machinery),
{
    let unstable_wall_chance = min_i32(depth, 20);
    let mut y: i32 = 1;
    while y < level.height - 1
        invariant
            level.wf(),
            level.same_shape(&*old(level)),
            1 <= y,
            unstable_wall_chance == (if depth < 20 { depth as int } else { 20 }),
            cave_features_added(&*old(level), level),
            cave_features_at(&*old(level), level, depth as int, Seq::empty(), Seq::empty()),
        decreases level.height - y,
    {
        let mut x: i32 = 1;
        while x < level.width - 1
            invariant
                level.wf(),
                level.same_shape(&*old(level)),
                1 <= y < level.height - 1,
                1 <= x,
                unstable_wall_chance == (if depth < 20 { depth as int } else { 20 }),
                cave_features_added(&*old(level), level),
                cave_features_at(&*old(level), level, depth as int, Seq::empty(), Seq::empty()),
            decreases level.width - x,
        {
            let current = level.get_tile(x, y);
            if current == TileType::CaveWall && !current.is_ore() {
                let roll = random_range(rng, 0, 100);
                if roll < unstable_wall_chance {
                    level.set_tile(x, y, TileType::UnstableWall);
                }
            }
            x = x + 1;
        }
        y = y + 1;
    }
    let num_gas_pockets = if depth >= 3 {
        depth / 3
    } else {
        0
    };
    let ghost mut gas: Seq<(int, int)> = Seq::empty();
    let mut k: i32 = 0;
    while k < num_gas_pockets
        invariant
            level.wf(),
            level.same_shape(&*old(level)),
            0 <= k <= num_gas_pockets,
            num_gas_pockets == (if depth >= 3 { depth / 3 } else { 0 }),
            depth >= 3 ==> level.width >= 3 && level.height >= 3,
            gas.len() == k,
            forall|j: int| 0 <= j < gas.len() ==> old(level).interior((#[trigger] gas[j]).0, gas[j].1),
            cave_features_added(&*old(level), level),
            cave_features_at(&*old(level), level, depth as int, gas, Seq::empty()),
        decreases num_gas_pockets - k,
    {
        let x = random_range(rng, 1, level.width - 1);
        let y = random_range(rng, 1, level.height - 1);
        let ghost before = *level;
        let ghost old_gas = gas;
        proof {
            gas = gas.push((x as int, y as int));
            assert forall|j: int| 0 <= j < gas.len() implies old(level).interior((#[trigger] gas[j]).0, gas[j].1) by {
                if j < old_gas.len() {
                    assert(gas[j] == old_gas[j]);
                }
            }
        }
        if level.get_tile(x, y) == TileType::CaveFloor {
            level.set_tile(x, y, TileType::GasPocket);
        }
        proof {
            assert forall|a: int, b: int| #![trigger level.tile_at(a, b)]
                if old(level).interior(a, b) && old(level).tile_at(a, b) == TileType::CaveWall {
                    level.tile_at(a, b) == old(level).tile_at(a, b) || (depth >= 1 && level.tile_at(a, b)
                        == TileType::UnstableWall)
                } else if old(level).tile_at(a, b) == TileType::CaveFloor && gas.contains((a, b)) {
                    level.tile_at(a, b) == TileType::GasPocket
                } else if old(level).tile_at(a, b) == TileType::CaveFloor && Seq::<(int, int)>::empty().contains((a, b)) {
                    level.tile_at(a, b) == TileType::AncientMachinery
                } else {
                    level.tile_at(a, b) == old(level).tile_at(a, b)
                } by {
                assert(before.tile_at(a, b) == before.tile_at(a, b));
                lemma_push_contains(old_gas, (x as int, y as int), (a, b));
            }
        }
        k = k + 1;
    }
    let num_ancient_machinery = if depth >= 5 {
        depth / 5
    } else {
        0
    };
    let ghost mut machinery: Seq<(int, int)> = Seq::empty();
    k = 0;
    while k < num_ancient_machinery
        invariant
            level.wf(),
            level.same_shape(&*old(level)),
            0 <= k <= num_ancient_machinery,
            num_ancient_machinery == (if depth >= 5 { depth / 5 } else { 0 }),
            depth >= 3 ==> level.width >= 3 && level.height >= 3,
            machinery.len() == k,
            gas.len() == (if depth >= 3 { depth / 3 } else { 0 }),
            forall|j: int| 0 <= j < gas.len() ==> old(level).interior((#[trigger] gas[j]).0, gas[j].1),
            forall|j: int|
                0 <= j < machinery.len() ==> old(level).interior((#[trigger] machinery[j]).0, machinery[j].1),
            cave_features_added(&*old(level), level),
            cave_features_at(&*old(level), level, depth as int, gas, machinery),
        decreases num_ancient_machinery - k,
    {
        let x = random_range(rng, 1, level.width - 1);
        let y = random_range(rng, 1, level.height - 1);
        let ghost before = *level;
        let ghost old_machinery = machinery;
        proof {
            machinery = machinery.push((x as int, y as int));
            assert forall|j: int| 0 <= j < machinery.len() implies old(level).interior(
                (#[trigger] machinery[j]).0,
                machinery[j].1,
            ) by {
                if j < old_machinery.len() {
                    assert(machinery[j] == old_machinery[j]);
                }
            }
        }
        if level.get_tile(x, y) == TileType::CaveFloor {
            level.set_tile(x, y, TileType::AncientMachinery);
        }
        proof {
            assert forall|a: int, b: int| #![trigger level.tile_at(a, b)]
                if old(level).interior(a, b) && old(level).tile_at(a, b) == TileType::CaveWall {
                    level.tile_at(a, b) == old(level).tile_at(a, b) || (depth >= 1 && level.tile_at(a, b)
                        == TileType::UnstableWall)
                } else if old(level).tile_at(a, b) == TileType::CaveFloor && gas.contains((a, b)) {
                    level.tile_at(a, b) == TileType::GasPocket
                } else if old(level).tile_at(a, b) == TileType::CaveFloor && machinery.contains((a, b)) {
                    level.tile_at(a, b) == TileType::AncientMachinery
                } else {
                    level.tile_at(a, b) == old(level).tile_at(a, b)
                } by {
                assert(before.tile_at(a, b) == before.tile_at(a, b));
                lemma_push_contains(old_machinery, (x as int, y as int), (a, b));
            }
        }
        k = k + 1;
    }
    proof {
        assert(cave_features_drawn(&*old(level), &*level, depth as int, gas, machinery));
    }
}


/// Only interior cells of `new` may differ from `old`.
pub open spec fn interior_only(old: &GameMap, new: &GameMap) -> bool {
    forall|a: int, b: int|
        #![trigger new.tile_at(a, b)]
        !old.interior(a, b) ==> new.tile_at(a, b) == old.tile_at(a, b)
}

/// A change confined to the interior keeps the outer ring as it was.
pub proof fn lemma_border_preserved(old: &GameMap, new: &GameMap, t: TileType)
    requires
        old.border_is(t),
        new.same_shape(old),
        interior_only(old, new),
    ensures
        new.border_is(t),
{
    assert forall|x: int, y: int| #[trigger] new.on_border(x, y) implies new.tile_at(x, y) == t by {
        assert(old.on_border(x, y));
    }
}

/// A map whose every stored tile is `t` has `t` all around its outer ring.
proof fn lemma_uniform_border(level: &GameMap, t: TileType)
    requires
        level.wf(),
        forall|i: int| 0 <= i < level.map@.len() ==> level.map@[i] == t,
    ensures
        level.border_is(t),
{
    assert forall|x: int, y: int| #[trigger] level.on_border(x, y) implies level.tile_at(x, y)
        == t by {
        crate::gamemap::lemma_grid_index(level.width as int, level.height as int, x, y);
    }
}

/// The centre of a fitting room is an interior cell of the map, and the
/// corner sums fit in an `i32`.
proof fn lemma_center_interior(r: Rect, level: &GameMap)
    requires
        level.wf(),
        room_fits(r, level),
    ensures
        r.x1 + r.x2 <= i32::MAX,
        r.y1 + r.y2 <= i32::MAX,
        1 <= half_toward_zero(r.x1 + r.x2) <= level.width - 2,
        1 <= half_toward_zero(r.y1 + r.y2) <= level.height - 2,
        in_rect_interior(r, half_toward_zero(r.x1 + r.x2), half_toward_zero(r.y1 + r.y2)),
{
    let w = level.width as int;
    let h = level.height as int;
    assert(2 * w <= i32::MAX && 2 * h <= i32::MAX) by (nonlinear_arith)
        requires
            w * h <= i32::MAX,
            w >= 6,
            h >= 6,
    ;
}

/// Tiles a mine level can hold: mine wall and floor, the ores, unstable
/// walls, gas pockets and the two stairs.
pub open spec fn mine_tile(t: TileType) -> bool {
    t == TileType::MineWall || t == TileType::MineFloor || ore(t) || t == TileType::UnstableWall
        || t == TileType::GasPocket || t == TileType::StairsUp || t == TileType::StairsDown
}

/// Tiles a cave level can hold: cave wall and floor, the ores, unstable
/// walls, gas pockets, ancient machinery and the two stairs.
pub open spec fn cave_tile(t: TileType) -> bool {
    t == TileType::CaveWall || t == TileType::CaveFloor || ore(t) || t == TileType::UnstableWall
        || t == TileType::GasPocket || t == TileType::AncientMachinery || t == TileType::StairsUp
        || t == TileType::StairsDown
}

/// Every cell of `level` holds a mine tile.
pub open spec fn all_mine_tiles(level: &GameMap) -> bool {
    forall|a: int, b: int|
        #![trigger level.tile_at(a, b)]
        level.in_bounds_spec(a, b) ==> mine_tile(level.tile_at(a, b))
}

/// Every cell of `level` holds a cave tile.
pub open spec fn all_cave_tiles(level: &GameMap) -> bool {
    forall|a: int, b: int|
        #![trigger level.tile_at(a, b)]
        level.in_bounds_spec(a, b) ==> cave_tile(level.tile_at(a, b))
}

/// At most one cell of `level` holds `t`.
pub open spec fn at_most_one(level: &GameMap, t: TileType) -> bool {
    forall|a1: int, b1: int, a2: int, b2: int|
        #![trigger level.tile_at(a1, b1), level.tile_at(a2, b2)]
        level.in_bounds_spec(a1, b1) && level.in_bounds_spec(a2, b2) && level.tile_at(a1, b1) == t
            && level.tile_at(a2, b2) == t ==> a1 == a2 && b1 == b2
}

/// Every interior cell of `r` holds `t`.
pub open spec fn room_filled(level: &GameMap, r: Rect, t: TileType) -> bool {
    forall|a: int, b: int|
        #![trigger level.tile_at(a, b)]
        in_rect_interior(r, a, b) ==> level.tile_at(a, b) == t
}

/// A mine tile one can walk across: floor, a gas pocket or stairs.
pub open spec fn floorlike(t: TileType) -> bool {
    t == TileType::MineFloor || t == TileType::GasPocket || t == TileType::StairsUp || t
        == TileType::StairsDown
}

/// `v` lies between `p` and `q`, both included.
pub open spec fn between(v: int, p: int, q: int) -> bool {
    (p <= v <= q) || (q <= v <= p)
}

/// The centre cell of a room.
pub open spec fn room_center(r: Rect) -> (int, int) {
    (half_toward_zero(r.x1 + r.x2), half_toward_zero(r.y1 + r.y2))
}

/// (x, y) lies on the L-shaped corridor from `a` to `b`: along `a`'s row then
/// `b`'s column when `horizontal_first`, else along `a`'s column then `b`'s
/// row.
pub open spec fn on_corridor(a: (int, int), b: (int, int), horizontal_first: bool, x: int, y: int) -> bool {
    if horizontal_first {
        (y == a.1 && between(x, a.0, b.0)) || (x == b.0 && between(y, a.1, b.1))
    } else {
        (x == a.0 && between(y, a.1, b.1)) || (y == b.1 && between(x, a.0, b.0))
    }
}

/// (x, y) lies strictly inside one of the rooms.
pub open spec fn in_a_room(rooms: Seq<Rect>, x: int, y: int) -> bool {
    exists|i: int| 0 <= i < rooms.len() && #[trigger] in_rect_interior(rooms[i], x, y)
}

/// (x, y) lies on one of the corridors joining consecutive room centres.
pub open spec fn on_a_corridor(rooms: Seq<Rect>, horizontal_first: Seq<bool>, x: int, y: int) -> bool {
    exists|i: int|
        1 <= i < rooms.len() && i < horizontal_first.len() && #[trigger] on_corridor(
            room_center(rooms[i - 1]),
            room_center(rooms[i]),
            horizontal_first[i],
            x,
            y,
        )
}

/// The layout of a mine level made with `num_rooms` room tries: at most that
/// many rooms (at least one when there was a try), each fitting in the map,
/// no two touching, their inner cells walkable; consecutive room centres
/// joined by L-shaped corridors (`horizontal_first[i]` for the one into room
/// `i`) of walkable cells, and no walkable cell elsewhere; stairs up at the
/// first room's centre and, with two rooms or more, stairs down at the last
/// room's centre (with fewer, no stairs down at all).
pub open spec fn mine_layout(
    level: &GameMap,
    num_rooms: int,
    rooms: Seq<Rect>,
    horizontal_first: Seq<bool>,
) -> bool {
    &&& rooms.len() <= (if num_rooms > 0 {
        num_rooms
    } else {
        0
    })
    &&& num_rooms > 0 ==> rooms.len() >= 1
    &&& forall|i: int| 0 <= i < rooms.len() ==> room_fits(#[trigger] rooms[i], level)
    &&& forall|i: int, j: int|
        0 <= i < j < rooms.len() ==> !rects_meet(#[trigger] rooms[i], #[trigger] rooms[j])
    &&& forall|i: int, x: int, y: int|
        #![trigger rooms[i], level.tile_at(x, y)]
        0 <= i < rooms.len() && in_rect_interior(rooms[i], x, y) ==> floorlike(level.tile_at(x, y))
    &&& horizontal_first.len() == rooms.len()
    &&& forall|i: int, x: int, y: int|
        #![trigger horizontal_first[i], level.tile_at(x, y)]
        1 <= i < rooms.len() && on_corridor(
            room_center(rooms[i - 1]),
            room_center(rooms[i]),
            horizontal_first[i],
            x,
            y,
        ) && level.in_bounds_spec(x, y) ==> floorlike(level.tile_at(x, y))
    &&& rooms.len() >= 1 ==> level.tile_at(room_center(rooms[0]).0, room_center(rooms[0]).1)
        == TileType::StairsUp
    &&& rooms.len() >= 2 ==> level.tile_at(
        room_center(rooms[rooms.len() - 1]).0,
        room_center(rooms[rooms.len() - 1]).1,
    ) == TileType::StairsDown
    &&& rooms.len() < 2 ==> forall|x: int, y: int|
        #![trigger level.tile_at(x, y)]
        level.tile_at(x, y) != TileType::StairsDown
    &&& forall|x: int, y: int|
        #![trigger level.tile_at(x, y)]
        level.in_bounds_spec(x, y) && floorlike(level.tile_at(x, y)) ==> in_a_room(rooms, x, y)
            || on_a_corridor(rooms, horizontal_first, x, y)
}

/// `new` is a mine level made from `level` with `5 + complexity_tenths` room
/// tries: same shape, a mine-wall outer ring, only mine tiles, at most one of
/// each stairs, and a `mine_layout`.
pub open spec fn mine_made(level: &GameMap, new: &GameMap, complexity_tenths: int) -> bool {
    &&& new.wf()
    &&& new.same_shape(level)
    &&& new.border_is(TileType::MineWall)
    &&& all_mine_tiles(new)
    &&& at_most_one(new, TileType::StairsUp)
    &&& at_most_one(new, TileType::StairsDown)
    &&& exists|rooms: Seq<Rect>, horizontal_first: Seq<bool>|
        #[trigger] mine_layout(new, 5 + complexity_tenths, rooms, horizontal_first)
}

/// Generates a mine level: mine walls everywhere, then up to
/// `5 + complexity_tenths` non-touching rooms of side 3 to 8 carved as mine
/// floor, consecutive rooms joined by L-shaped corridors, ore veins, stairs up
/// in the first room and down in the last, and special features. The outer
/// ring of the map stays mine wall.
pub fn generate_mine(
    level: &mut GameMap,
    rng: &mut rand::rngs::ThreadRng,
    complexity_tenths: i32,
    depth: i32,
)
    requires
        old(level).wf(),
        complexity_tenths <= i32::MAX - 5,
        5 + complexity_tenths > 0 ==> old(level).width >= 11 && old(level).height >= 11,
        ore_depth_ok(depth as int),
    ensures
        final(level).wf(),
        final(level).same_shape(&*old(level)),
        final(level).border_is(TileType::MineWall),
        all_mine_tiles(&*final(level)),
        at_most_one(&*final(level), TileType::StairsUp),
        at_most_one(&*final(level), TileType::StairsDown),
        mine_made(&*old(level), &*final(level), complexity_tenths as int),
{
    let n = level.map.len();
    let mut i: usize = 0;
    while i < n
        invariant
            level.wf(),
            level.same_shape(&*old(level)),
            n == level.map@.len(),
            i <= n,
            forall|j: int| 0 <= j < i ==> level.map@[j] == TileType::MineWall,
        decreases n - i,
    {
        level.map.set(i, TileType::MineWall);
        i = i + 1;
    }
    proof {
        lemma_uniform_border(level, TileType::MineWall);
        assert forall|a: int, b: int| #[trigger] level.in_bounds_spec(a, b) implies level.tile_at(a, b)
            == TileType::MineWall by {
            crate::gamemap::lemma_grid_index(level.width as int, level.height as int, a, b);
        }
    }
    let num_rooms = 5 + complexity_tenths;
    let min_room_size: i32 = 3;
    let max_room_size: i32 = 8;
    let mut rooms: Vec<Rect> = Vec::new();
    let mut k: i32 = 0;
    while k < num_rooms
        invariant
            level.wf(),
            level.same_shape(&*old(level)),
            level.border_is(TileType::MineWall),
            0 <= k,
            num_rooms > 0 ==> level.width >= 11 && level.height >= 11,
            min_room_size == 3,
            max_room_size == 8,
            forall|j: int| 0 <= j < rooms@.len() ==> room_fits(#[trigger] rooms@[j], level),
            forall|a: int, b: int|
                #![trigger level.tile_at(a, b)]
                level.in_bounds_spec(a, b) ==> level.tile_at(a, b) == TileType::MineWall
                    || level.tile_at(a, b) == TileType::MineFloor,
            k > 0 ==> rooms@.len() > 0,
            rooms@.len() <= k,
            k <= num_rooms || k == 0,
            forall|q: int| 0 <= q < rooms@.len() ==> room_filled(level, #[trigger] rooms@[q], TileType::MineFloor),
            forall|q: int, r: int|
                0 <= q < r < rooms@.len() ==> !rects_meet(#[trigger] rooms@[q], #[trigger] rooms@[r]),
            forall|a: int, b: int|
                #![trigger level.tile_at(a, b)]
                level.tile_at(a, b) == TileType::MineFloor ==> in_a_room(rooms@, a, b),
        decreases num_rooms - k,
    {
        let w = random_range(rng, min_room_size, max_room_size + 1);
        let h = random_range(rng, min_room_size, max_room_size + 1);
        let x = random_range(rng, 1, level.width - w - 1);
        let y = random_range(rng, 1, level.height - h - 1);
        let room = Rect::new(x, y, w, h);
        let mut overlap = false;
        let mut j: usize = 0;
        while j < rooms.len()
            invariant
                j <= rooms@.len(),
                overlap ==> rooms@.len() > 0,
                !overlap ==> forall|q: int| 0 <= q < j ==> !rects_meet(room, #[trigger] rooms@[q]),
            ensures
                overlap ==> rooms@.len() > 0,
                !overlap ==> forall|q: int| 0 <= q < rooms@.len() ==> !rects_meet(room, #[trigger] rooms@[q]),
            decreases rooms@.len() - j,
        {
            if room.intersect(&rooms[j]) {
                overlap = true;
                break;
            }
            j = j + 1;
        }
        if !overlap {
            let ghost before = *level;
            apply_room_to_map(level, &room, TileType::MineFloor);
            proof {
                lemma_border_preserved(&before, level, TileType::MineWall);
            }
            let ghost old_rooms = rooms@;
            rooms.push(room);
            proof {
                assert forall|q: int| 0 <= q < rooms@.len() implies room_filled(level, #[trigger] rooms@[q], TileType::MineFloor) by {
                    if q < old_rooms.len() {
                        assert(rooms@[q] == old_rooms[q]);
                        assert forall|a: int, b: int| in_rect_interior(rooms@[q], a, b) implies #[trigger] level.tile_at(a, b) == TileType::MineFloor by {
                            assert(before.tile_at(a, b) == TileType::MineFloor);
                        }
                    } else {
                        assert(rooms@[q] == room);
                        assert forall|a: int, b: int| in_rect_interior(rooms@[q], a, b) implies #[trigger] level.tile_at(a, b) == TileType::MineFloor by {
                            assert(before.in_bounds_spec(a, b));
                        }
                    }
                }
                assert forall|a: int, b: int|
                    #![trigger level.tile_at(a, b)]
                    level.tile_at(a, b) == TileType::MineFloor implies in_a_room(rooms@, a, b) by {
                    if before.tile_at(a, b) == TileType::MineFloor {
                        let q = choose|q: int| 0 <= q < old_rooms.len() && #[trigger] in_rect_interior(old_rooms[q], a, b);
                        assert(rooms@[q] == old_rooms[q]);
                    } else {
                        assert(in_rect_interior(rooms@[old_rooms.len() as int], a, b));
                    }
                }
                assert forall|q: int, r: int|
                    0 <= q < r < rooms@.len() implies !rects_meet(#[trigger] rooms@[q], #[trigger] rooms@[r]) by {
                    if r < old_rooms.len() {
                        assert(rooms@[q] == old_rooms[q] && rooms@[r] == old_rooms[r]);
                    } else {
                        assert(rooms@[q] == old_rooms[q]);
                        assert(!rects_meet(room, old_rooms[q]));
                    }
                }
            }
        }
        k = k + 1;
    }
    let ghost mut horizontal_first: Seq<bool> = seq![false];
    let mut i: usize = 1;
    while i < rooms.len()
        invariant
            level.wf(),
            level.same_shape(&*old(level)),
            level.border_is(TileType::MineWall),
            1 <= i,
            rooms@.len() > 0 ==> i <= rooms@.len(),
            horizontal_first.len() == i,
            forall|j: int| 0 <= j < rooms@.len() ==> room_fits(#[trigger] rooms@[j], level),
            forall|a: int, b: int|
                #![trigger level.tile_at(a, b)]
                level.in_bounds_spec(a, b) ==> level.tile_at(a, b) == TileType::MineWall
                    || level.tile_at(a, b) == TileType::MineFloor,
            num_rooms > 0 ==> rooms@.len() > 0,
            forall|q: int| 0 <= q < rooms@.len() ==> room_filled(level, #[trigger] rooms@[q], TileType::MineFloor),
            forall|q: int, x: int, y: int|
                #![trigger horizontal_first[q], level.tile_at(x, y)]
                1 <= q < i && q < rooms@.len() && on_corridor(
                    room_center(rooms@[q - 1]),
                    room_center(rooms@[q]),
                    horizontal_first[q],
                    x,
                    y,
                ) && level.in_bounds_spec(x, y) ==> level.tile_at(x, y) == TileType::MineFloor,
            forall|a: int, b: int|
                #![trigger level.tile_at(a, b)]
                level.tile_at(a, b) == TileType::MineFloor ==> in_a_room(rooms@, a, b) || on_a_corridor(
                    rooms@,
                    horizontal_first,
                    a,
                    b,
                ),
        decreases rooms@.len() - i,
    {
        proof {
            lemma_center_interior(rooms@[i - 1], level);
            lemma_center_interior(rooms@[i as int], level);
        }
        let (prev_x, prev_y) = rooms[i - 1].center();
        let (new_x, new_y) = rooms[i].center();
        let ghost before = *level;
        let horizontal = random_ratio(rng, 1, 2);
        if horizontal {
            apply_horizontal_tunnel(level, prev_x, new_x, prev_y, TileType::MineFloor);
            apply_vertical_tunnel(level, prev_y, new_y, new_x, TileType::MineFloor);
        } else {
            apply_vertical_tunnel(level, prev_y, new_y, prev_x, TileType::MineFloor);
            apply_horizontal_tunnel(level, prev_x, new_x, new_y, TileType::MineFloor);
        }
        proof {
            lemma_border_preserved(&before, level, TileType::MineWall);
            let old_h = horizontal_first;
            horizontal_first = horizontal_first.push(horizontal);
            assert forall|a: int, b: int|
                #![trigger level.tile_at(a, b)]
                before.tile_at(a, b) == TileType::MineFloor implies level.tile_at(a, b)
                == TileType::MineFloor by {
            }
            assert forall|q: int| 0 <= q < rooms@.len() implies room_filled(level, #[trigger] rooms@[q], TileType::MineFloor) by {
                assert forall|a: int, b: int| in_rect_interior(rooms@[q], a, b) implies #[trigger] level.tile_at(a, b) == TileType::MineFloor by {
                    assert(before.tile_at(a, b) == TileType::MineFloor);
                }
            }
            assert forall|q: int, x: int, y: int|
                #![trigger horizontal_first[q], level.tile_at(x, y)]
                1 <= q < i + 1 && q < rooms@.len() && on_corridor(
                    room_center(rooms@[q - 1]),
                    room_center(rooms@[q]),
                    horizontal_first[q],
                    x,
                    y,
                ) && level.in_bounds_spec(x, y) implies level.tile_at(x, y) == TileType::MineFloor by {
                if q < i {
                    assert(horizontal_first[q] == old_h[q]);
                    assert(before.tile_at(x, y) == TileType::MineFloor);
                } else {
                    assert(before.in_bounds_spec(x, y));
                }
            }
            assert forall|a: int, b: int|
                #![trigger level.tile_at(a, b)]
                level.tile_at(a, b) == TileType::MineFloor implies in_a_room(rooms@, a, b) || on_a_corridor(
                    rooms@,
                    horizontal_first,
                    a,
                    b,
                ) by {
                if before.tile_at(a, b) == TileType::MineFloor {
                    if !in_a_room(rooms@, a, b) {
                        let q = choose|q: int|
                            1 <= q < rooms@.len() && q < old_h.len() && #[trigger] on_corridor(
                                room_center(rooms@[q - 1]),
                                room_center(rooms@[q]),
                                old_h[q],
                                a,
                                b,
                            );
                        assert(horizontal_first[q] == old_h[q]);
                    }
                } else {
                    assert(on_corridor(
                        room_center(rooms@[i - 1]),
                        room_center(rooms@[i as int]),
                        horizontal_first[i as int],
                        a,
                        b,
                    ));
                }
            }
        }
        i = i + 1;
    }
    let ghost tunneled = *level;
    let ghost before = *level;
    add_ore_veins(level, rng, depth);
    proof {
        lemma_border_preserved(&before, level, TileType::MineWall);
    }
    let ghost ored = *level;
    let ghost mut up_cell: (int, int) = (-1, -1);
    let ghost mut down_cell: (int, int) = (-1, -1);
    let nrooms = rooms.len();
    if nrooms > 0 {
        proof {
            lemma_center_interior(rooms@[nrooms - 1], level);
            lemma_center_interior(rooms@[0], level);
        }
        let (x, y) = rooms[nrooms - 1].center();
        let ghost before = *level;
        level.set_tile(x, y, TileType::StairsDown);
        proof {
            lemma_border_preserved(&before, level, TileType::MineWall);
            down_cell = (x as int, y as int);
        }
        let (x, y) = rooms[0].center();
        let ghost before = *level;
        level.set_tile(x, y, TileType::StairsUp);
        proof {
            lemma_border_preserved(&before, level, TileType::MineWall);
            up_cell = (x as int, y as int);
        }
    }
    let ghost staired = *level;
    proof {
        // Before the features: walls, floor and ores, with the stairs at
        // their two cells only.
        assert forall|a: int, b: int|
            #![trigger staired.tile_at(a, b)]
            staired.in_bounds_spec(a, b) implies (staired.tile_at(a, b) == TileType::StairsUp <==> (a,
                b) == up_cell) && (staired.tile_at(a, b) == TileType::StairsDown ==> (a, b)
                == down_cell) && (staired.tile_at(a, b) == TileType::MineWall || staired.tile_at(a, b)
                == TileType::MineFloor || ore(staired.tile_at(a, b)) || staired.tile_at(a, b)
                == TileType::StairsUp || staired.tile_at(a, b) == TileType::StairsDown) by {
            assert(ored.tile_at(a, b) == ored.tile_at(a, b));
        }
    }
    let ghost before = *level;
    add_special_features(level, rng, depth, &rooms);
    proof {
        lemma_border_preserved(&before, level, TileType::MineWall);
        assert forall|a: int, b: int|
            #![trigger level.tile_at(a, b)]
            level.in_bounds_spec(a, b) implies mine_tile(level.tile_at(a, b)) && (level.tile_at(a, b)
                == TileType::StairsUp <==> (a, b) == up_cell) && (level.tile_at(a, b)
                == TileType::StairsDown ==> (a, b) == down_cell) by {
            assert(staired.tile_at(a, b) == staired.tile_at(a, b));
        }
        // Floor laid by the rooms and corridors stays walkable.
        assert forall|a: int, b: int|
            #![trigger level.tile_at(a, b)]
            tunneled.tile_at(a, b) == TileType::MineFloor implies floorlike(level.tile_at(a, b)) by {
            assert(ored.tile_at(a, b) == ored.tile_at(a, b));
            assert(staired.tile_at(a, b) == staired.tile_at(a, b));
        }
        let rs = rooms@;
        assert forall|q: int, x: int, y: int|
            #![trigger rs[q], level.tile_at(x, y)]
            0 <= q < rs.len() && in_rect_interior(rs[q], x, y) implies floorlike(level.tile_at(x, y)) by {
            assert(room_filled(&tunneled, rs[q], TileType::MineFloor));
            assert(tunneled.tile_at(x, y) == TileType::MineFloor);
        }
        assert forall|q: int, x: int, y: int|
            #![trigger horizontal_first[q], level.tile_at(x, y)]
            1 <= q < rs.len() && on_corridor(
                room_center(rs[q - 1]),
                room_center(rs[q]),
                horizontal_first[q],
                x,
                y,
            ) && level.in_bounds_spec(x, y) implies floorlike(level.tile_at(x, y)) by {
            assert(tunneled.in_bounds_spec(x, y));
            assert(tunneled.tile_at(x, y) == TileType::MineFloor);
        }
        if nrooms > 0 {
            assert(level.in_bounds_spec(up_cell.0, up_cell.1));
            assert(level.tile_at(up_cell.0, up_cell.1) == TileType::StairsUp);
        }
        if nrooms >= 2 {
            let f = rs[0];
            let l = rs[rs.len() - 1];
            assert(!rects_meet(f, l));
            assert(in_rect_interior(f, up_cell.0, up_cell.1));
            assert(in_rect_interior(l, down_cell.0, down_cell.1));
            assert(up_cell != down_cell);
            assert(staired.tile_at(down_cell.0, down_cell.1) == TileType::StairsDown);
            assert(level.tile_at(down_cell.0, down_cell.1) == TileType::StairsDown);
        }
        assert forall|a: int, b: int|
            #![trigger level.tile_at(a, b)]
            level.in_bounds_spec(a, b) && floorlike(level.tile_at(a, b)) implies in_a_room(rs, a, b)
                || on_a_corridor(rs, horizontal_first, a, b) by {
            assert(ored.tile_at(a, b) == ored.tile_at(a, b));
            assert(staired.tile_at(a, b) == staired.tile_at(a, b));
            if (a, b) == up_cell {
                assert(in_rect_interior(rs[0], a, b));
            } else if (a, b) == down_cell {
                assert(in_rect_interior(rs[rs.len() - 1], a, b));
            } else {
                assert(tunneled.tile_at(a, b) == TileType::MineFloor);
            }
        }
        if rs.len() < 2 {
            assert forall|a: int, b: int| #[trigger] level.tile_at(a, b) != TileType::StairsDown by {
                assert(staired.tile_at(a, b) == staired.tile_at(a, b));
                if level.in_bounds_spec(a, b) && level.tile_at(a, b) == TileType::StairsDown {
                    assert((a, b) == down_cell);
                    assert(down_cell == up_cell);
                }
            }
        }
        if rs.len() == 0 {
            assert(mine_layout(level, num_rooms as int, rs, Seq::<bool>::empty()));
        } else {
            assert(mine_layout(level, num_rooms as int, rs, horizontal_first));
        }
    }
}

/// `fill` is the first draw of a cave level shaped like `level`: a cave-wall
/// outer ring, and each other cell a cave wall for a roll in `0..100` below
/// `fill_percent`, else cave floor.
pub open spec fn cave_fill(level: &GameMap, fill: &GameMap, fill_percent: int) -> bool {
    &&& fill.wf()
    &&& fill.same_shape(level)
    &&& forall|x: int, y: int|
        #![trigger fill.tile_at(x, y)]
        fill.in_bounds_spec(x, y) ==> if fill.on_border(x, y) {
            fill.tile_at(x, y) == TileType::CaveWall
        } else {
            exists|roll: int|
                0 <= roll < 100 && fill.tile_at(x, y) == #[trigger] wall_or_floor(roll, fill_percent)
        }
}

/// The tile a cave cell is drawn as for `roll`: wall below `fill_percent`.
pub open spec fn wall_or_floor(roll: int, fill_percent: int) -> TileType {
    if roll < fill_percent {
        TileType::CaveWall
    } else {
        TileType::CaveFloor
    }
}

/// The stages of a cave level made from `level`: the fill (`passes[0]`),
/// five smoothing steps (`passes[1]` to `passes[5]`), every wall rolled for
/// ore (`ored`), the stairs searches (`staired`) and the special features
/// (`new`).
pub open spec fn cave_stages(
    level: &GameMap,
    new: &GameMap,
    complexity_tenths: int,
    depth: int,
    passes: Seq<GameMap>,
    ored: GameMap,
    staired: GameMap,
) -> bool {
    &&& passes.len() == 6
    &&& cave_fill(level, &passes[0], 55 - complexity_tenths)
    &&& forall|k: int| 0 <= k < 5 ==> #[trigger] smooth_step(&passes[k], &passes[k + 1])
    &&& ored.wf()
    &&& ored.same_shape(&passes[5])
    &&& ore_rolled(&passes[5], &ored, depth)
    &&& staired.wf()
    &&& staired.same_shape(&ored)
    &&& exists|down: Seq<(int, int)>, mid: GameMap, up: Seq<(int, int)>|
        #[trigger] cave_stairs_drawn(&ored, &staired, down, mid, up)
    &&& exists|gas: Seq<(int, int)>, machinery: Seq<(int, int)>|
        #[trigger] cave_features_drawn(&staired, new, depth, gas, machinery)
}

/// `new` is a cave level made from `level` (see `cave_stages`).
pub open spec fn cave_made(level: &GameMap, new: &GameMap, complexity_tenths: int, depth: int) -> bool {
    exists|passes: Seq<GameMap>, ored: GameMap, staired: GameMap|
        #[trigger] cave_stages(level, new, complexity_tenths, depth, passes, ored, staired)
}

/// Generates a cave level: a cave-wall outer ring, interior cells walls with
/// chance `55 - complexity_tenths` in 100, five smoothing steps, then ore
/// veins, stairs and special features. The outer ring stays cave wall.
pub fn generate_cave(
    level: &mut GameMap,
    rng: &mut rand::rngs::ThreadRng,
    complexity_tenths: i32,
    depth: i32,
)
    requires
        old(level).wf(),
        old(level).width >= 3,
        old(level).height >= 3,
        i32::MIN <= 55 - complexity_tenths <= i32::MAX,
        ore_depth_ok(depth as int),
    ensures
        final(level).wf(),
        final(level).same_shape(&*old(level)),
        final(level).border_is(TileType::CaveWall),
        all_cave_tiles(&*final(level)),
        at_most_one(&*final(level), TileType::StairsUp),
        at_most_one(&*final(level), TileType::StairsDown),
        cave_made(&*old(level), &*final(level), complexity_tenths as int, depth as int),
{
    let fill_percent = 55 - complexity_tenths;
    let mut y: i32 = 0;
    while y < level.height
        invariant
            level.wf(),
            level.same_shape(&*old(level)),
            0 <= y <= level.height,
            forall|a: int, b: int|
                #![trigger level.on_border(a, b)]
                level.on_border(a, b) && b < y ==> level.tile_at(a, b) == TileType::CaveWall,
            forall|a: int, b: int|
                #![trigger level.tile_at(a, b)]
                level.in_bounds_spec(a, b) && b < y ==> level.tile_at(a, b) == TileType::CaveWall
                    || level.tile_at(a, b) == TileType::CaveFloor,
            forall|a: int, b: int|
                #![trigger level.tile_at(a, b)]
                level.in_bounds_spec(a, b) && b < y && !level.on_border(a, b) ==> exists|roll: int|
                    0 <= roll < 100 && level.tile_at(a, b) == #[trigger] wall_or_floor(roll, 55 - complexity_tenths),
            fill_percent == 55 - complexity_tenths,
        decreases level.height - y,
    {
        let mut x: i32 = 0;
        while x < level.width
            invariant
                level.wf(),
                level.same_shape(&*old(level)),
                0 <= y < level.height,
                0 <= x <= level.width,
                forall|a: int, b: int|
                    #![trigger level.on_border(a, b)]
                    level.on_border(a, b) && (b < y || (b == y && a < x)) ==> level.tile_at(a, b)
                        == TileType::CaveWall,
                forall|a: int, b: int|
                    #![trigger level.tile_at(a, b)]
                    level.in_bounds_spec(a, b) && (b < y || (b == y && a < x)) ==> level.tile_at(a, b)
                        == TileType::CaveWall || level.tile_at(a, b) == TileType::CaveFloor,
                forall|a: int, b: int|
                    #![trigger level.tile_at(a, b)]
                    level.in_bounds_spec(a, b) && (b < y || (b == y && a < x)) && !level.on_border(a, b)
                        ==> exists|roll: int|
                        0 <= roll < 100 && level.tile_at(a, b) == #[trigger] wall_or_floor(roll, 55 - complexity_tenths),
                fill_percent == 55 - complexity_tenths,
            decreases level.width - x,
        {
            let ghost before = *level;
            if x == 0 || x == level.width - 1 || y == 0 || y == level.height - 1 {
                level.set_tile(x, y, TileType::CaveWall);
            } else {
                let roll = random_range(rng, 0, 100);
                if roll < fill_percent {
                    level.set_tile(x, y, TileType::CaveWall);
                } else {
                    level.set_tile(x, y, TileType::CaveFloor);
                }
                assert(level.tile_at(x as int, y as int) == wall_or_floor(roll as int, 55 - complexity_tenths));
            }
            proof {
                assert forall|a: int, b: int|
                    #![trigger level.on_border(a, b)]
                    level.on_border(a, b) && (b < y || (b == y && a < x + 1)) implies level.tile_at(
                        a,
                        b,
                    ) == TileType::CaveWall by {
                    assert(before.on_border(a, b));
                }
                assert forall|a: int, b: int|
                    #![trigger level.tile_at(a, b)]
                    level.in_bounds_spec(a, b) && (b < y || (b == y && a < x + 1)) && !level.on_border(a, b)
                        implies exists|roll: int|
                        0 <= roll < 100 && level.tile_at(a, b) == #[trigger] wall_or_floor(roll, 55 - complexity_tenths) by {
                    assert(before.tile_at(a, b) == before.tile_at(a, b));
                    assert(before.on_border(a, b) == level.on_border(a, b));
                }
            }
            x = x + 1;
        }
        y = y + 1;
    }
    proof {
        assert(cave_fill(&*old(level), &*level, 55 - complexity_tenths)) by {
            assert forall|x: int, y: int|
                #![trigger level.tile_at(x, y)]
                level.in_bounds_spec(x, y) && level.on_border(x, y) implies level.tile_at(x, y)
                == TileType::CaveWall by {
                assert(level.on_border(x, y));
            }
        }
    }
    let ghost mut passes: Seq<GameMap> = seq![*level];
    let mut it: i32 = 0;
    while it < 5
        invariant
            level.wf(),
            level.same_shape(&*old(level)),
            level.border_is(TileType::CaveWall),
            0 <= it <= 5,
            passes.len() == it + 1,
            passes[it as int] == *level,
            cave_fill(&*old(level), &passes[0], 55 - complexity_tenths),
            forall|k: int| 0 <= k < it ==> #[trigger] smooth_step(&passes[k], &passes[k + 1]),
            forall|a: int, b: int|
                #![trigger level.tile_at(a, b)]
                level.in_bounds_spec(a, b) ==> level.tile_at(a, b) == TileType::CaveWall
                    || level.tile_at(a, b) == TileType::CaveFloor,
        decreases 5 - it,
    {
        let ghost before = *level;
        smooth_cave(level);
        proof {
            lemma_border_preserved(&before, level, TileType::CaveWall);
            let p0 = passes;
            passes = passes.push(*level);
            assert forall|k: int| 0 <= k < it + 1 implies #[trigger] smooth_step(&passes[k], &passes[k + 1]) by {
                if k < it {
                    assert(passes[k] == p0[k] && passes[k + 1] == p0[k + 1]);
                }
            }
        }
        it = it + 1;
    }
    let ghost before = *level;
    add_ore_veins(level, rng, depth);
    proof {
        lemma_border_preserved(&before, level, TileType::CaveWall);
        assert(passes[5] == before);
    }
    let ghost ored = *level;
    add_stairs_to_cave(level, rng);
    proof {
        lemma_border_preserved(&ored, level, TileType::CaveWall);
    }
    let ghost staired = *level;
    proof {
        let (down, mid, up) = choose|down: Seq<(int, int)>, mid: GameMap, up: Seq<(int, int)>|
            #[trigger] cave_stairs_drawn(&ored, &staired, down, mid, up);
        assert forall|a: int, b: int|
            #![trigger staired.tile_at(a, b)]
            staired.in_bounds_spec(a, b) implies (staired.tile_at(a, b) == TileType::StairsUp ==> (a,
                b) == up.last()) && (staired.tile_at(a, b) == TileType::StairsDown ==> (a, b)
                == down.last()) && (staired.tile_at(a, b) == TileType::CaveWall || staired.tile_at(a, b)
                == TileType::CaveFloor || ore(staired.tile_at(a, b)) || staired.tile_at(a, b)
                == TileType::StairsUp || staired.tile_at(a, b) == TileType::StairsDown) by {
            assert(ored.tile_at(a, b) == ored.tile_at(a, b));
            assert(mid.tile_at(a, b) == mid.tile_at(a, b));
        }
        assert(at_most_one(&staired, TileType::StairsUp));
        assert(at_most_one(&staired, TileType::StairsDown));
    }
    add_special_features_to_cave(level, rng, depth);
    proof {
        lemma_border_preserved(&staired, level, TileType::CaveWall);
        assert forall|a: int, b: int|
            #![trigger level.tile_at(a, b)]
            level.in_bounds_spec(a, b) implies cave_tile(level.tile_at(a, b)) && (level.tile_at(a, b)
                == TileType::StairsUp ==> staired.tile_at(a, b) == TileType::StairsUp) && (
            level.tile_at(a, b) == TileType::StairsDown ==> staired.tile_at(a, b)
                == TileType::StairsDown) by {
            assert(staired.tile_at(a, b) == staired.tile_at(a, b));
        }
        assert(cave_stages(&*old(level), &*level, complexity_tenths as int, depth as int, passes, ored, staired));
    }
}

/// Tile kept in a dark-adventure level for a tile of a mine level.
pub open spec fn darkened(t: TileType) -> TileType {
    if t == TileType::MineWall {
        TileType::CaveWall
    } else if t == TileType::MineFloor {
        TileType::CaveFloor
    } else {
        t
    }
}

/// `base` is `mined` retiled for a dark adventure: mine walls and floor
/// become cave walls and floor, every other tile stays.
pub open spec fn retiled(mined: &GameMap, base: &GameMap) -> bool {
    &&& base.wf()
    &&& base.same_shape(mined)
    &&& forall|x: int, y: int|
        #![trigger base.tile_at(x, y)]
        base.tile_at(x, y) == darkened(mined.tile_at(x, y))
}

/// Retiling a mine for a dark adventure turns mine floor into cave floor and
/// mine wall into cave wall and keeps every other tile, so each cell can be
/// walked on after it exactly when it could before.
pub proof fn lemma_retiling_keeps_the_layout(mined: &GameMap, base: &GameMap, x: int, y: int)
    requires
        retiled(mined, base),
    ensures
        mined.tile_at(x, y) == TileType::MineFloor ==> base.tile_at(x, y) == TileType::CaveFloor,
        mined.tile_at(x, y) == TileType::MineWall ==> base.tile_at(x, y) == TileType::CaveWall,
        mined.tile_at(x, y) != TileType::MineFloor && mined.tile_at(x, y) != TileType::MineWall
            ==> base.tile_at(x, y) == mined.tile_at(x, y),
        walkable(base.tile_at(x, y)) == walkable(mined.tile_at(x, y)),
{
    assert(base.tile_at(x, y) == darkened(mined.tile_at(x, y)));
}

/// `new` is `base` with the dark-adventure features: ancient machinery on
/// cave floor at the `machinery` cells and whispering iron in cave walls at
/// the `ores` cells; every other cell keeps its tile.
pub open spec fn dark_features_at(
    base: &GameMap,
    new: &GameMap,
    machinery: Seq<(int, int)>,
    ores: Seq<(int, int)>,
) -> bool {
    &&& new.wf()
    &&& new.same_shape(base)
    &&& forall|x: int, y: int|
        #![trigger new.tile_at(x, y)]
        new.tile_at(x, y) == (if base.tile_at(x, y) == TileType::CaveFloor && machinery.contains((x, y)) {
            TileType::AncientMachinery
        } else if base.tile_at(x, y) == TileType::CaveWall && ores.contains((x, y)) {
            TileType::WhisperingIronOre
        } else {
            base.tile_at(x, y)
        })
}

/// The stages of a dark-adventure level made from `level`: `base` is a mine
/// level of complexity 7 retiled as cave, or a cave level of complexity 7;
/// then 3 to 6 interior cells drawn for machinery and 5 to 9 for whispering
/// iron (`dark_features_at`).
pub open spec fn dark_stages(
    level: &GameMap,
    new: &GameMap,
    depth: int,
    base: GameMap,
    machinery: Seq<(int, int)>,
    ores: Seq<(int, int)>,
) -> bool {
    &&& (exists|mined: GameMap| #[trigger] mine_made(level, &mined, 7) && retiled(&mined, &base))
        || cave_made(level, &base, 7, depth)
    &&& 3 <= machinery.len() <= 6
    &&& forall|k: int| 0 <= k < machinery.len() ==> base.interior((#[trigger] machinery[k]).0, machinery[k].1)
    &&& 5 <= ores.len() <= 9
    &&& forall|k: int| 0 <= k < ores.len() ==> base.interior((#[trigger] ores[k]).0, ores[k].1)
    &&& dark_features_at(&base, new, machinery, ores)
}

/// `new` is a dark-adventure level made from `level` (see `dark_stages`).
pub open spec fn dark_made(level: &GameMap, new: &GameMap, depth: int) -> bool {
    exists|base: GameMap, machinery: Seq<(int, int)>, ores: Seq<(int, int)>|
        #[trigger] dark_stages(level, new, depth, base, machinery, ores)
}

/// Generates a dark-adventure level: on a fair coin, a mine level of
/// complexity 7 retiled as cave, else a cave level of complexity 7; then 3 to
/// 6 tries at ancient machinery on cave floor and 5 to 9 at whispering iron
/// in cave walls. The outer ring is cave wall.
pub fn generate_dark_adventure(level: &mut GameMap, rng: &mut rand::rngs::ThreadRng, depth: i32)
    requires
        old(level).wf(),
        old(level).width >= 11,
        old(level).height >= 11,
        ore_depth_ok(depth as int),
    ensures
        final(level).wf(),
        final(level).same_shape(&*old(level)),
        final(level).border_is(TileType::CaveWall),
        all_cave_tiles(&*final(level)),
        at_most_one(&*final(level), TileType::StairsUp),
        at_most_one(&*final(level), TileType::StairsDown),
        dark_made(&*old(level), &*final(level), depth as int),
{
    if random_ratio(rng, 1, 2) {
        generate_mine(level, rng, 7, depth);
        let ghost mined = *level;
        let n = level.map.len();
        let mut i: usize = 0;
        while i < n
            invariant
                level.wf(),
                level.same_shape(&mined),
                mined.wf(),
                n == level.map@.len(),
                n == mined.map@.len(),
                i <= n,
                forall|j: int| 0 <= j < i ==> level.map@[j] == darkened(mined.map@[j]),
                forall|j: int| i <= j < n ==> level.map@[j] == mined.map@[j],
            decreases n - i,
        {
            if level.map[i] == TileType::MineWall {
                level.map.set(i, TileType::CaveWall);
            } else if level.map[i] == TileType::MineFloor {
                level.map.set(i, TileType::CaveFloor);
            }
            i = i + 1;
        }
        proof {
            assert forall|x: int, y: int| #[trigger] level.on_border(x, y) implies level.tile_at(x, y)
                == TileType::CaveWall by {
                assert(mined.on_border(x, y));
                crate::gamemap::lemma_grid_index(level.width as int, level.height as int, x, y);
            }
            assert forall|x: int, y: int|
                #![trigger level.tile_at(x, y)]
                level.tile_at(x, y) == darkened(mined.tile_at(x, y)) by {
                if level.in_bounds_spec(x, y) {
                    crate::gamemap::lemma_grid_index(level.width as int, level.height as int, x, y);
                }
            }
            assert forall|x: int, y: int|
                #![trigger level.tile_at(x, y)]
                level.in_bounds_spec(x, y) implies cave_tile(level.tile_at(x, y)) && (level.tile_at(x, y)
                    == TileType::StairsUp ==> mined.tile_at(x, y) == TileType::StairsUp) && (
                level.tile_at(x, y) == TileType::StairsDown ==> mined.tile_at(x, y)
                    == TileType::StairsDown) by {
                assert(mined.tile_at(x, y) == mined.tile_at(x, y));
            }
            assert(retiled(&mined, &*level));
        }
    } else {
        generate_cave(level, rng, 7, depth);
    }
    let ghost base = *level;
    let num_ancient_machinery = random_range(rng, 3, 7);
    let ghost mut machinery: Seq<(int, int)> = Seq::empty();
    let mut k: i32 = 0;
    while k < num_ancient_machinery
        invariant
            level.wf(),
            level.same_shape(&*old(level)),
            base.same_shape(&*old(level)),
            level.width >= 11,
            level.height >= 11,
            level.border_is(TileType::CaveWall),
            all_cave_tiles(level),
            at_most_one(level, TileType::StairsUp),
            at_most_one(level, TileType::StairsDown),
            0 <= k <= num_ancient_machinery,
            machinery.len() == k,
            forall|q: int| 0 <= q < machinery.len() ==> base.interior((#[trigger] machinery[q]).0, machinery[q].1),
            dark_features_at(&base, level, machinery, Seq::empty()),
        decreases num_ancient_machinery - k,
    {
        let x = random_range(rng, 1, level.width - 1);
        let y = random_range(rng, 1, level.height - 1);
        let ghost before = *level;
        let ghost old_m = machinery;
        proof {
            machinery = machinery.push((x as int, y as int));
            assert forall|q: int| 0 <= q < machinery.len() implies base.interior((#[trigger] machinery[q]).0, machinery[q].1) by {
                if q < old_m.len() {
                    assert(machinery[q] == old_m[q]);
                }
            }
        }
        if level.get_tile(x, y) == TileType::CaveFloor {
            level.set_tile(x, y, TileType::AncientMachinery);
            proof {
                lemma_border_preserved(&before, level, TileType::CaveWall);
            }
        }
        proof {
            assert forall|a: int, b: int|
                #![trigger level.tile_at(a, b)]
                level.tile_at(a, b) == (if base.tile_at(a, b) == TileType::CaveFloor && machinery.contains((a, b)) {
                    TileType::AncientMachinery
                } else if base.tile_at(a, b) == TileType::CaveWall && Seq::<(int, int)>::empty().contains((a, b)) {
                    TileType::WhisperingIronOre
                } else {
                    base.tile_at(a, b)
                }) by {
                assert(before.tile_at(a, b) == before.tile_at(a, b));
                lemma_push_contains(old_m, (x as int, y as int), (a, b));
            }
        }
        k = k + 1;
    }
    let num_exotic_ores = random_range(rng, 5, 10);
    let ghost mut ores: Seq<(int, int)> = Seq::empty();
    k = 0;
    while k < num_exotic_ores
        invariant
            level.wf(),
            level.same_shape(&*old(level)),
            base.same_shape(&*old(level)),
            level.width >= 11,
            level.height >= 11,
            level.border_is(TileType::CaveWall),
            all_cave_tiles(level),
            at_most_one(level, TileType::StairsUp),
            at_most_one(level, TileType::StairsDown),
            0 <= k <= num_exotic_ores,
            ores.len() == k,
            3 <= machinery.len() <= 6,
            forall|q: int| 0 <= q < machinery.len() ==> base.interior((#[trigger] machinery[q]).0, machinery[q].1),
            forall|q: int| 0 <= q < ores.len() ==> base.interior((#[trigger] ores[q]).0, ores[q].1),
            dark_features_at(&base, level, machinery, ores),
        decreases num_exotic_ores - k,
    {
        let x = random_range(rng, 1, level.width - 1);
        let y = random_range(rng, 1, level.height - 1);
        let ghost before = *level;
        let ghost old_o = ores;
        proof {
            ores = ores.push((x as int, y as int));
            assert forall|q: int| 0 <= q < ores.len() implies base.interior((#[trigger] ores[q]).0, ores[q].1) by {
                if q < old_o.len() {
                    assert(ores[q] == old_o[q]);
                }
            }
        }
        if level.get_tile(x, y) == TileType::CaveWall {
            level.set_tile(x, y, TileType::WhisperingIronOre);
            proof {
                lemma_border_preserved(&before, level, TileType::CaveWall);
            }
        }
        proof {
            assert forall|a: int, b: int|
                #![trigger level.tile_at(a, b)]
                level.tile_at(a, b) == (if base.tile_at(a, b) == TileType::CaveFloor && machinery.contains((a, b)) {
                    TileType::AncientMachinery
                } else if base.tile_at(a, b) == TileType::CaveWall && ores.contains((a, b)) {
                    TileType::WhisperingIronOre
                } else {
                    base.tile_at(a, b)
                }) by {
                assert(before.tile_at(a, b) == before.tile_at(a, b));
                lemma_push_contains(old_o, (x as int, y as int), (a, b));
            }
        }
        k = k + 1;
    }
    proof {
        assert(dark_stages(&*old(level), &*level, depth as int, base, machinery, ores));
    }
}

/// The surface level's tile at (x, y) with stairs down at (sx, sy): the
/// stairs, the outer ring of walls, floor everywhere else.
pub open spec fn surface_tile(level: &GameMap, sx: int, sy: int, x: int, y: int) -> TileType {
    if x == sx && y == sy {
        TileType::StairsDown
    } else if level.on_border(x, y) {
        TileType::Wall
    } else {
        TileType::Floor
    }
}

/// Every cell of the level holds its `surface_tile` for stairs at (sx, sy).
pub open spec fn surface_layout(level: &GameMap, sx: int, sy: int) -> bool {
    forall|x: int, y: int|
        #![trigger level.tile_at(x, y)]
        level.in_bounds_spec(x, y) ==> level.tile_at(x, y) == surface_tile(level, sx, sy, x, y)
}

/// The surface level: `width` by `height`, depth 0, not underground; a ring
/// of walls around floor, and stairs down at a random cell at least 5 cells
/// from the left and top edges and more than 5 from the right and bottom.
pub fn generate_surface_level(rng: &mut rand::rngs::ThreadRng, width: i32, height: i32) -> (level:
    GameMap)
    requires
        width > 10,
        height > 10,
        width * height <= i32::MAX,
    ensures
        level.wf(),
        level.width == width,
        level.height == height,
        level.depth == 0,
        level.underground_type is None,
        exists|sx: int, sy: int|
            5 <= sx < width - 5 && 5 <= sy < height - 5 && #[trigger] surface_layout(&level, sx, sy),
{
    let mut level = GameMap::new(width, height, 0, None);
    let mut y: i32 = 0;
    while y < level.height
        invariant
            level.wf(),
            level.width == width,
            level.height == height,
            level.depth == 0,
            level.underground_type is None,
            0 <= y <= level.height,
            forall|a: int, b: int|
                #![trigger level.tile_at(a, b)]
                level.in_bounds_spec(a, b) && b < y ==> level.tile_at(a, b) == (if level.on_border(
                    a,
                    b,
                ) {
                    TileType::Wall
                } else {
                    TileType::Floor
                }),
        decreases level.height - y,
    {
        let mut x: i32 = 0;
        while x < level.width
            invariant
                level.wf(),
                level.width == width,
                level.height == height,
                level.depth == 0,
                level.underground_type is None,
                0 <= y < level.height,
                0 <= x <= level.width,
                forall|a: int, b: int|
                    #![trigger level.tile_at(a, b)]
                    level.in_bounds_spec(a, b) && (b < y || (b == y && a < x)) ==> level.tile_at(
                        a,
                        b,
                    ) == (if level.on_border(a, b) {
                        TileType::Wall
                    } else {
                        TileType::Floor
                    }),
            decreases level.width - x,
        {
            if x == 0 || x == level.width - 1 || y == 0 || y == level.height - 1 {
                level.set_tile(x, y, TileType::Wall);
            } else {
                level.set_tile(x, y, TileType::Floor);
            }
            x = x + 1;
        }
        y = y + 1;
    }
    let stairs_x = random_range(rng, 5, level.width - 5);
    let stairs_y = random_range(rng, 5, level.height - 5);
    level.set_tile(stairs_x, stairs_y, TileType::StairsDown);
    assert(surface_layout(&level, stairs_x as int, stairs_y as int));
    level
}

/// The three underground levels below the surface: a 48 by 48 mine of
/// complexity 5 at depth 1, a 64 by 64 cave of complexity 7 at depth 2, and
/// an 80 by 80 dark-adventure area at depth 3. The mine is ringed by mine
/// walls, the other two by cave walls.
pub fn generate_underground_levels(rng: &mut rand::rngs::ThreadRng) -> (levels: (
    GameMap,
    GameMap,
    GameMap,
))
    ensures
        levels.0.wf() && levels.0.width == 48 && levels.0.height == 48 && levels.0.depth == 1
            && levels.0.underground_type == Some(UndergroundType::Mine) && levels.0.border_is(
            TileType::MineWall,
        ),
        all_mine_tiles(&levels.0) && at_most_one(&levels.0, TileType::StairsUp) && at_most_one(
            &levels.0,
            TileType::StairsDown,
        ),
        exists|start: GameMap| #[trigger] mine_made(&start, &levels.0, 5),
        exists|start: GameMap| #[trigger] cave_made(&start, &levels.1, 7, 2),
        exists|start: GameMap| #[trigger] dark_made(&start, &levels.2, 3),
        all_cave_tiles(&levels.1) && at_most_one(&levels.1, TileType::StairsUp) && at_most_one(
            &levels.1,
            TileType::StairsDown,
        ),
        all_cave_tiles(&levels.2) && at_most_one(&levels.2, TileType::StairsUp) && at_most_one(
            &levels.2,
            TileType::StairsDown,
        ),
        levels.1.wf() && levels.1.width == 64 && levels.1.height == 64 && levels.1.depth == 2
            && levels.1.underground_type == Some(UndergroundType::Cave) && levels.1.border_is(
            TileType::CaveWall,
        ),
        levels.2.wf() && levels.2.width == 80 && levels.2.height == 80 && levels.2.depth == 3
            && levels.2.underground_type == Some(UndergroundType::DarkAdventure)
            && levels.2.border_is(TileType::CaveWall),
{
    let mut mine_level = GameMap::new(48, 48, 1, Some(UndergroundType::Mine));
    let ghost mine_start = mine_level;
    generate_mine(&mut mine_level, rng, 5, 1);
    let mut cave_level = GameMap::new(64, 64, 2, Some(UndergroundType::Cave));
    let ghost cave_start = cave_level;
    generate_cave(&mut cave_level, rng, 7, 2);
    let mut dark_adventure_level = GameMap::new(80, 80, 3, Some(UndergroundType::DarkAdventure));
    let ghost dark_start = dark_adventure_level;
    generate_dark_adventure(&mut dark_adventure_level, rng, 3);
    assert(mine_made(&mine_start, &mine_level, 5));
    assert(cave_made(&cave_start, &cave_level, 7, 2));
    assert(dark_made(&dark_start, &dark_adventure_level, 3));
    (mine_level, cave_level, dark_adventure_level)
}

} // verus!
