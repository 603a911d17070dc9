use vstd::prelude::*;

use crate::gamemap::GameMap;
use crate::procgen::{between, half_toward_zero, in_rect_interior, on_corridor, Rect};
use crate::rng::random_index;
use crate::tile::{TileType, UndergroundType};

verus! {

/// Settings for generating a level at a given depth. The densities and
/// chances are kept in hundredths (30 is 0.30).
pub struct GenConfig {
    pub depth: usize,
    pub width: u32,
    pub height: u32,
    pub underground_type: UndergroundType,
    /// Rooms placed so far.
    pub rooms: Vec<Rect>,
    /// Least and most rooms.
    pub room_count: (usize, usize),
    /// Least and most room side.
    pub room_size: (usize, usize),
    pub ore_density: u32,
    pub hazard_density: u32,
    pub special_feature_chance: u32,
    pub echo_chamber_chance: u32,
    pub player_spawn_point: Option<(u32, u32)>,
}

/// The generation settings for `depth`: room counts, room sizes, ore and
/// hazard densities, feature and echo-chamber chances (in hundredths), in
/// four bands of depth (up to 3, 7, 12, deeper).
pub open spec fn depth_settings(depth: int) -> ((usize, usize), (usize, usize), u32, u32, u32, u32) {
    if depth <= 3 {
        ((3, 6), (4, 8), 30, 10, 5, 10)
    } else if depth <= 7 {
        ((5, 8), (3, 7), 50, 20, 10, 20)
    } else if depth <= 12 {
        ((7, 10), (3, 6), 60, 30, 15, 30)
    } else {
        ((8, 12), (3, 5), 70, 40, 20, 40)
    }
}

/// Sum of the coordinates of a room's centre, by which rooms are ordered.
pub open spec fn center_key(r: Rect) -> int {
    half_toward_zero(r.x1 + r.x2) + half_toward_zero(r.y1 + r.y2)
}

/// Room `i` comes first in the order by centre key (the earliest among equal
/// keys).
pub open spec fn is_first_room(rooms: Seq<Rect>, i: int) -> bool {
    &&& 0 <= i < rooms.len()
    &&& forall|j: int|
        0 <= j < rooms.len() ==> center_key(rooms[i]) < center_key(#[trigger] rooms[j]) || (
        center_key(rooms[i]) == center_key(rooms[j]) && i <= j)
}

/// Room `i` comes last in the order by centre key (the latest among equal
/// keys).
pub open spec fn is_last_room(rooms: Seq<Rect>, i: int) -> bool {
    &&& 0 <= i < rooms.len()
    &&& forall|j: int|
        0 <= j < rooms.len() ==> center_key(#[trigger] rooms[j]) < center_key(rooms[i]) || (
        center_key(rooms[j]) == center_key(rooms[i]) && j <= i)
}

/// Whether (x, y) holds floor (cells outside the map do not).
pub open spec fn floor_at(level: &GameMap, x: int, y: int) -> int {
    if level.in_bounds_spec(x, y) && level.tile_at(x, y) == TileType::Floor {
        1
    } else {
        0
    }
}

/// How many of the eight cells around (x, y) hold floor.
pub open spec fn floor_neighbors(level: &GameMap, x: int, y: int) -> int {
    floor_at(level, x - 1, y - 1) + floor_at(level, x, y - 1) + floor_at(level, x + 1, y - 1)
        + floor_at(level, x - 1, y) + floor_at(level, x + 1, y) + floor_at(level, x - 1, y + 1)
        + floor_at(level, x, y + 1) + floor_at(level, x + 1, y + 1)
}

/// (x, y) can hold stairs in room `r`: an inner cell of the room holding
/// floor with at least 6 floor cells around it.
pub open spec fn stair_spot(level: &GameMap, r: Rect, x: int, y: int) -> bool {
    &&& in_rect_interior(r, x, y)
    &&& floor_at(level, x, y) == 1
    &&& floor_neighbors(level, x, y) >= 6
}

/// `c` is where the stairs go in room `r`: one of its stair spots, or none
/// when it has none.
pub open spec fn stair_choice(level: &GameMap, r: Rect, c: Option<(int, int)>) -> bool {
    match c {
        Some(p) => stair_spot(level, r, p.0, p.1),
        None => forall|x: int, y: int| !#[trigger] stair_spot(level, r, x, y),
    }
}

/// `new` is `old` with stairs up at `up` and then stairs down at `down`,
/// where present; every other cell keeps its tile.
pub open spec fn stairs_placed(
    old: &GameMap,
    new: &GameMap,
    up: Option<(int, int)>,
    down: Option<(int, int)>,
) -> bool {
    &&& new.wf()
    &&& new.same_shape(old)
    &&& forall|a: int, b: int|
        #![trigger new.tile_at(a, b)]
        new.tile_at(a, b) == (if down == Some((a, b)) {
            TileType::StairsDown
        } else if up == Some((a, b)) {
            TileType::StairsUp
        } else {
            old.tile_at(a, b)
        })
}

/// Every room's corner sums fit in an `i32`.
pub open spec fn centers_fit(rooms: Seq<Rect>) -> bool {
    forall|i: int|
        0 <= i < rooms.len() ==> i32::MIN <= (#[trigger] rooms[i]).x1 + rooms[i].x2 <= i32::MAX
            && i32::MIN <= rooms[i].y1 + rooms[i].y2 <= i32::MAX
}

/// The centre key of a room, computed.
fn room_key(r: &Rect) -> (k: i64)
    requires
        i32::MIN <= r.x1 + r.x2 <= i32::MAX,
        i32::MIN <= r.y1 + r.y2 <= i32::MAX,
    ensures
        k == center_key(*r),
{
    let (cx, cy) = r.center();
    cx as i64 + cy as i64
}

/// Whether (x, y) holds floor, computed.
fn is_floor(level: &GameMap, x: i64, y: i64) -> (b: bool)
    requires
        level.wf(),
    ensures
        b == (floor_at(level, x as int, y as int) == 1),
{
    if x < 0 || y < 0 || x >= level.width as i64 || y >= level.height as i64 {
        return false;
    }
    level.get_tile(x as i32, y as i32) == TileType::Floor
}

/// The floor cells around (x, y), counted.
fn count_floor_neighbors(level: &GameMap, x: i64, y: i64) -> (n: i64)
    requires
        level.wf(),
        0 <= x < i32::MAX,
        0 <= y < i32::MAX,
    ensures
        n == floor_neighbors(level, x as int, y as int),
{
    let mut n: i64 = 0;
    if is_floor(level, x - 1, y - 1) {
        n = n + 1;
    }
    if is_floor(level, x, y - 1) {
        n = n + 1;
    }
    if is_floor(level, x + 1, y - 1) {
        n = n + 1;
    }
    if is_floor(level, x - 1, y) {
        n = n + 1;
    }
    if is_floor(level, x + 1, y) {
        n = n + 1;
    }
    if is_floor(level, x - 1, y + 1) {
        n = n + 1;
    }
    if is_floor(level, x, y + 1) {
        n = n + 1;
    }
    if is_floor(level, x + 1, y + 1) {
        n = n + 1;
    }
    n
}

/// (a, b) is on the straight run that starts just past `start` and ends at
/// `end` along one axis (x when `horizontal`, else y), the other coordinate
/// being `across`.
pub open spec fn leg_cell(start: int, end: int, across: int, horizontal: bool, a: int, b: int) -> bool {
    let (along, other) = if horizontal {
        (a, b)
    } else {
        (b, a)
    };
    other == across && between(along, start, end) && along != start
}

/// `new` is `old` with every in-bounds cell for which `cell` holds turned to
/// `Floor`; every other cell keeps its tile.
pub open spec fn floored_where(old: &GameMap, new: &GameMap, cell: spec_fn(int, int) -> bool) -> bool {
    &&& new.wf()
    &&& new.same_shape(old)
    &&& forall|a: int, b: int|
        #![trigger new.tile_at(a, b)]
        new.tile_at(a, b) == (if old.in_bounds_spec(a, b) && cell(a, b) {
            TileType::Floor
        } else {
            old.tile_at(a, b)
        })
}

/// A corridor from `from` goes along the row first when the coordinates of
/// `from` add up to an even number, else along the column first.
pub open spec fn corridor_row_first(from: (int, int)) -> bool {
    (from.0 + from.1) % 2 == 0
}

/// `new` is `old` with the L-shaped corridor from `from` to `to` carved as
/// floor: every cell of the corridor but `from` itself.
pub open spec fn corridor_carved(old: &GameMap, new: &GameMap, from: (int, int), to: (int, int)) -> bool {
    floored_where(
        old,
        new,
        |a: int, b: int| on_corridor(from, to, corridor_row_first(from), a, b) && (a, b) != from,
    )
}

/// Floors the straight run from just past `start` to `end` along one axis.
fn carve_leg(grid: &mut GameMap, start: i32, end: i32, across: i32, horizontal: bool)
    requires
        old(grid).wf(),
    ensures
        floored_where(
            &*old(grid),
            &*final(grid),
            |a: int, b: int| leg_cell(start as int, end as int, across as int, horizontal, a, b),
        ),
{
    let ghost g0 = *grid;
    let mut c: i32 = start;
    while c != end
        invariant
            grid.wf(),
            grid.same_shape(&g0),
            g0.wf(),
            between(c as int, start as int, end as int),
            forall|a: int, b: int|
                #![trigger grid.tile_at(a, b)]
                grid.tile_at(a, b) == (if g0.in_bounds_spec(a, b) && leg_cell(
                    start as int,
                    c as int,
                    across as int,
                    horizontal,
                    a,
                    b,
                ) {
                    TileType::Floor
                } else {
                    g0.tile_at(a, b)
                }),
        decreases (if c <= end {
            end - c
        } else {
            c - end
        }),
    {
        if c < end {
            c = c + 1;
        } else {
            c = c - 1;
        }
        if horizontal {
            grid.set_tile(c, across, TileType::Floor);
        } else {
            grid.set_tile(across, c, TileType::Floor);
        }
    }
}

/// Whether a corridor from (x, y) goes along the row first.
fn row_first(x: i32, y: i32) -> (b: bool)
    ensures
        b == corridor_row_first((x as int, y as int)),
{
    let s: i64 = x as i64 + y as i64;
    if s >= 0 {
        s % 2 == 0
    } else {
        (-s) % 2 == 0
    }
}

/// The stair spots of room `r`, in rows from the top.
fn stair_candidates(level: &GameMap, r: &Rect) -> (c: Vec<(i32, i32)>)
    requires
        level.wf(),
    ensures
        forall|k: int|
            0 <= k < c@.len() ==> stair_spot(level, *r, (#[trigger] c@[k]).0 as int, c@[k].1 as int),
        forall|x: int, y: int|
            #[trigger] stair_spot(level, *r, x, y) ==> exists|k: int|
                0 <= k < c@.len() && #[trigger] c@[k] == (x as i32, y as i32),
{
    let mut c: Vec<(i32, i32)> = Vec::new();
    let mut y: i64 = r.y1 as i64 + 1;
    while y < r.y2 as i64
        invariant
            level.wf(),
            r.y1 < y,
            forall|k: int|
                0 <= k < c@.len() ==> stair_spot(level, *r, (#[trigger] c@[k]).0 as int, c@[k].1 as int),
            forall|a: int, b: int|
                #[trigger] stair_spot(level, *r, a, b) && b < y ==> exists|k: int|
                    0 <= k < c@.len() && #[trigger] c@[k] == (a as i32, b as i32),
        decreases r.y2 as i64 - y,
    {
        let mut x: i64 = r.x1 as i64 + 1;
        while x < r.x2 as i64
            invariant
                level.wf(),
                r.y1 < y < r.y2,
                r.x1 < x,
                forall|k: int|
                    0 <= k < c@.len() ==> stair_spot(level, *r, (#[trigger] c@[k]).0 as int, c@[k].1 as int),
                forall|a: int, b: int|
                    #[trigger] stair_spot(level, *r, a, b) && (b < y || (b == y && a < x)) ==> exists|k: int|
                        0 <= k < c@.len() && #[trigger] c@[k] == (a as i32, b as i32),
            decreases r.x2 as i64 - x,
        {
            if is_floor(level, x, y) {
                let n = count_floor_neighbors(level, x, y);
                if n >= 6 {
                    let ghost old_c = c@;
                    c.push((x as i32, y as i32));
                    proof {
                        assert(c@[c@.len() - 1] == (x as i32, y as i32));
                        assert forall|a: int, b: int|
                            #[trigger] stair_spot(level, *r, a, b) && (b < y || (b == y && a < x
                                + 1)) implies exists|k: int|
                            0 <= k < c@.len() && #[trigger] c@[k] == (a as i32, b as i32) by {
                            if b < y || (b == y && a < x) {
                                let k = choose|k: int|
                                    0 <= k < old_c.len() && #[trigger] old_c[k] == (a as i32, b as i32);
                                assert(c@[k] == old_c[k]);
                            } else {
                                assert(c@[c@.len() - 1] == (a as i32, b as i32));
                            }
                        }
                        assert forall|k: int| 0 <= k < c@.len() implies stair_spot(
                            level,
                            *r,
                            (#[trigger] c@[k]).0 as int,
                            c@[k].1 as int,
                        ) by {
                            if k < old_c.len() {
                                assert(c@[k] == old_c[k]);
                            }
                        }
                    }
                }
            }
            x = x + 1;
        }
        y = y + 1;
    }
    c
}

/// Picks one of the candidate spots, if there are any.
fn pick_spot(c: &Vec<(i32, i32)>, rng: &mut fastrand::Rng) -> (p: Option<(i32, i32)>)
    ensures
        c@.len() == 0 ==> p is None,
        c@.len() > 0 ==> (p matches Some(q) && c@.contains(q)),
{
    if c.len() == 0 {
        return None;
    }
    let k = random_index(rng, c.len());
    let q = c[k];
    assert(c@[k as int] == q);
    Some(q)
}

impl GenConfig {
    /// The settings for a `width` by `height` level at `depth`: a mine down to
    /// depth 5, a cave deeper; counts, sizes and densities by
    /// `depth_settings`; no rooms and no spawn point yet.
    pub fn new(depth: usize, width: u32, height: u32) -> (c: GenConfig)
        ensures
            c.depth == depth,
            c.width == width,
            c.height == height,
            c.underground_type == (if depth <= 5 {
                UndergroundType::Mine
            } else {
                UndergroundType::Cave
            }),
            c.rooms@.len() == 0,
            (c.room_count, c.room_size, c.ore_density, c.hazard_density, c.special_feature_chance,
            c.echo_chamber_chance) == depth_settings(depth as int),
            c.player_spawn_point is None,
    {
        let underground_type = if depth <= 5 {
            UndergroundType::Mine
        } else {
            UndergroundType::Cave
        };
        let (room_count, room_size, ore_density, hazard_density, special_feature_chance, echo_chamber_chance) =
            if depth <= 3 {
            ((3, 6), (4, 8), 30, 10, 5, 10)
        } else if depth <= 7 {
            ((5, 8), (3, 7), 50, 20, 10, 20)
        } else if depth <= 12 {
            ((7, 10), (3, 6), 60, 30, 15, 30)
        } else {
            ((8, 12), (3, 5), 70, 40, 20, 40)
        };
        GenConfig {
            depth,
            width,
            height,
            underground_type,
            rooms: Vec::new(),
            room_count,
            room_size,
            ore_density,
            hazard_density,
            special_feature_chance,
            echo_chamber_chance,
            player_spawn_point: None,
        }
    }

    /// Carves the L-shaped corridor from `from` to `to` as floor, one cell at
    /// a time from just past `from`: along the row first when the coordinates
    /// of `from` add up to an even number, else along the column first. Cells
    /// off the map are skipped.
    pub fn carve_corridor(&self, grid: &mut GameMap, from: (i32, i32), to: (i32, i32))
        requires
            old(grid).wf(),
            i32::MIN <= from.0 + from.1 <= i32::MAX,
            i32::MIN <= to.0 - from.0 <= i32::MAX,
            i32::MIN <= to.1 - from.1 <= i32::MAX,
        ensures
            corridor_carved(&*old(grid), &*final(grid), (from.0 as int, from.1 as int), (to.0 as int, to.1 as int)),
    {
        let ghost g0 = *grid;
        let ghost f = (from.0 as int, from.1 as int);
        let ghost t = (to.0 as int, to.1 as int);
        if row_first(from.0, from.1) {
            carve_leg(grid, from.0, to.0, from.1, true);
            let ghost g1 = *grid;
            carve_leg(grid, from.1, to.1, to.0, false);
            proof {
                assert forall|a: int, b: int| #![trigger grid.tile_at(a, b)]
                    grid.tile_at(a, b) == (if g0.in_bounds_spec(a, b) && (on_corridor(f, t, corridor_row_first(f), a, b) && (a, b) != f) {
                        TileType::Floor
                    } else {
                        g0.tile_at(a, b)
                    }) by {
                    assert(g1.tile_at(a, b) == (if g0.in_bounds_spec(a, b) && leg_cell(f.0, t.0, f.1, true, a, b) { TileType::Floor } else { g0.tile_at(a, b) }));
                }
            }
        } else {
            carve_leg(grid, from.1, to.1, from.0, false);
            let ghost g1 = *grid;
            carve_leg(grid, from.0, to.0, to.1, true);
            proof {
                assert forall|a: int, b: int| #![trigger grid.tile_at(a, b)]
                    grid.tile_at(a, b) == (if g0.in_bounds_spec(a, b) && (on_corridor(f, t, corridor_row_first(f), a, b) && (a, b) != f) {
                        TileType::Floor
                    } else {
                        g0.tile_at(a, b)
                    }) by {
                    assert(g1.tile_at(a, b) == (if g0.in_bounds_spec(a, b) && leg_cell(f.1, t.1, f.0, false, a, b) { TileType::Floor } else { g0.tile_at(a, b) }));
                }
            }
        }
    }

    /// Puts stairs in the first and last rooms by centre key (`center_key`),
    /// away from walls: stairs up on a random stair spot of the first room,
    /// then stairs down on one of the last room, the spots being found before
    /// either is placed. Fewer than two rooms: nothing changes.
    pub fn place_stairs(&self, grid: &mut GameMap, rng: &mut fastrand::Rng)
        requires
            old(grid).wf(),
            centers_fit(self.rooms@),
        ensures
            self.rooms@.len() < 2 ==> *final(grid) == *old(grid),
            self.rooms@.len() >= 2 ==> exists|f: int, l: int, up: Option<(int, int)>, down: Option<(int, int)>|
                #![trigger is_first_room(self.rooms@, f), is_last_room(self.rooms@, l), stair_choice(&*old(grid), self.rooms@[f], up), stair_choice(&*old(grid), self.rooms@[l], down)]
                is_first_room(self.rooms@, f) && is_last_room(self.rooms@, l) && stair_choice(
                    &*old(grid),
                    self.rooms@[f],
                    up,
                ) && stair_choice(&*old(grid), self.rooms@[l], down) && stairs_placed(
                    &*old(grid),
                    &*final(grid),
                    up,
                    down,
                ),
    {
        let n = self.rooms.len();
        if n < 2 {
            return;
        }
        let mut first: usize = 0;
        let mut last: usize = 0;
        let mut first_key = room_key(&self.rooms[0]);
        let mut last_key = first_key;
        let mut i: usize = 1;
        while i < n
            invariant
                n == self.rooms@.len(),
                1 <= i <= n,
                centers_fit(self.rooms@),
                first < i,
                last < i,
                first_key == center_key(self.rooms@[first as int]),
                last_key == center_key(self.rooms@[last as int]),
                forall|j: int|
                    0 <= j < i ==> center_key(self.rooms@[first as int]) < center_key(
                        #[trigger] self.rooms@[j],
                    ) || (center_key(self.rooms@[first as int]) == center_key(self.rooms@[j])
                        && first <= j),
                forall|j: int|
                    0 <= j < i ==> center_key(#[trigger] self.rooms@[j]) < center_key(
                        self.rooms@[last as int],
                    ) || (center_key(self.rooms@[j]) == center_key(self.rooms@[last as int]) && j
                        <= last),
            decreases n - i,
        {
            let k = room_key(&self.rooms[i]);
            if k < first_key {
                first = i;
                first_key = k;
            }
            if k >= last_key {
                last = i;
                last_key = k;
            }
            i = i + 1;
        }
        let ghost g0 = *grid;
        let up_candidates = stair_candidates(grid, &self.rooms[first]);
        let down_candidates = stair_candidates(grid, &self.rooms[last]);
        let up = pick_spot(&up_candidates, rng);
        let down = pick_spot(&down_candidates, rng);
        let ghost up_cell: Option<(int, int)> = match up {
            Some(p) => Some((p.0 as int, p.1 as int)),
            None => None,
        };
        let ghost down_cell: Option<(int, int)> = match down {
            Some(p) => Some((p.0 as int, p.1 as int)),
            None => None,
        };
        proof {
            if let Some(p) = up {
                let k = choose|k: int| 0 <= k < up_candidates@.len() && up_candidates@[k] == p;
                assert(stair_spot(&g0, self.rooms@[first as int], up_candidates@[k].0 as int, up_candidates@[k].1 as int));
            } else {
                assert forall|x: int, y: int| !#[trigger] stair_spot(&g0, self.rooms@[first as int], x, y) by {
                    if stair_spot(&g0, self.rooms@[first as int], x, y) {
                        let k = choose|k: int| 0 <= k < up_candidates@.len() && #[trigger] up_candidates@[k] == (x as i32, y as i32);
                    }
                }
            }
            if let Some(p) = down {
                let k = choose|k: int| 0 <= k < down_candidates@.len() && down_candidates@[k] == p;
                assert(stair_spot(&g0, self.rooms@[last as int], down_candidates@[k].0 as int, down_candidates@[k].1 as int));
            } else {
                assert forall|x: int, y: int| !#[trigger] stair_spot(&g0, self.rooms@[last as int], x, y) by {
                    if stair_spot(&g0, self.rooms@[last as int], x, y) {
                        let k = choose|k: int| 0 <= k < down_candidates@.len() && #[trigger] down_candidates@[k] == (x as i32, y as i32);
                    }
                }
            }
            assert(stair_choice(&g0, self.rooms@[first as int], up_cell));
            assert(stair_choice(&g0, self.rooms@[last as int], down_cell));
        }
        if let Some((x, y)) = up {
            grid.set_tile(x, y, TileType::StairsUp);
        }
        if let Some((x, y)) = down {
            grid.set_tile(x, y, TileType::StairsDown);
        }
        proof {
            assert(is_first_room(self.rooms@, first as int));
            assert(is_last_room(self.rooms@, last as int));
            assert(stairs_placed(&g0, &*grid, up_cell, down_cell));
        }
    }
}

} // verus!
