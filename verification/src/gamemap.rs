use vstd::prelude::*;

use crate::tile::{TileType, UndergroundType};

verus! {

/// One level of the world: a row-major grid of tiles.
pub struct GameMap {
    pub depth: i32,
    pub map: Vec<TileType>,
    pub width: i32,
    pub height: i32,
    pub underground_type: Option<UndergroundType>,
}

/// Row-major index of (x, y) in a grid of width `w`.
pub open spec fn grid_index(w: int, x: int, y: int) -> int {
    y * w + x
}

/// Cells of a `w`-wide, `h`-high grid have distinct indices within `0..w*h`.
pub proof fn lemma_grid_index(w: int, h: int, x: int, y: int)
    requires
        0 <= x < w,
        0 <= y < h,
    ensures
        0 <= y * w,
        0 <= grid_index(w, x, y) < w * h,
{
    assert(0 <= y * w && 0 <= y * w + x < w * h) by (nonlinear_arith)
        requires
            0 <= x < w,
            0 <= y < h,
    ;
}

/// Two in-bounds cells with the same index are the same cell.
pub proof fn lemma_grid_index_injective(w: int, x1: int, y1: int, x2: int, y2: int)
    requires
        0 <= x1 < w,
        0 <= x2 < w,
        0 <= y1,
        0 <= y2,
        grid_index(w, x1, y1) == grid_index(w, x2, y2),
    ensures
        x1 == x2,
        y1 == y2,
{
    assert(y1 == y2) by (nonlinear_arith)
        requires
            0 <= x1 < w,
            0 <= x2 < w,
            0 <= y1,
            0 <= y2,
            y1 * w + x1 == y2 * w + x2,
    ;
}

impl GameMap {
    /// The tile vector holds exactly `width * height` tiles, a number that
    /// fits in an `i32`.
    pub open spec fn wf(&self) -> bool {
        &&& 0 <= self.width
        &&& 0 <= self.height
        &&& self.width * self.height <= i32::MAX
        &&& self.map@.len() == self.width * self.height
    }

    pub open spec fn in_bounds_spec(&self, x: int, y: int) -> bool {
        0 <= x < self.width && 0 <= y < self.height
    }

    /// The tile at (x, y); cells outside the map read as `Wall`.
    pub open spec fn tile_at(&self, x: int, y: int) -> TileType {
        if self.in_bounds_spec(x, y) {
            self.map@[grid_index(self.width as int, x, y)]
        } else {
            TileType::Wall
        }
    }

    /// (x, y) is an in-bounds cell on the outer ring of the map.
    pub open spec fn on_border(&self, x: int, y: int) -> bool {
        self.in_bounds_spec(x, y) && (x == 0 || x == self.width - 1 || y == 0 || y == self.height
            - 1)
    }

    /// (x, y) is an in-bounds cell off the outer ring.
    pub open spec fn interior(&self, x: int, y: int) -> bool {
        1 <= x < self.width - 1 && 1 <= y < self.height - 1
    }

    /// Every cell on the outer ring holds `t`.
    pub open spec fn border_is(&self, t: TileType) -> bool {
        forall|x: int, y: int| #[trigger] self.on_border(x, y) ==> self.tile_at(x, y) == t
    }

    /// Same dimensions, depth and kind as `other`.
    pub open spec fn same_shape(&self, other: &GameMap) -> bool {
        &&& self.width == other.width
        &&& self.height == other.height
        &&& self.depth == other.depth
        &&& self.underground_type == other.underground_type
    }

    /// A `width` by `height` level filled with `Wall`.
    pub fn new(width: i32, height: i32, depth: i32, underground_type: Option<UndergroundType>) -> (m:
        GameMap)
        requires
            0 <= width,
            0 <= height,
            width * height <= i32::MAX,
        ensures
            m.wf(),
            m.width == width,
            m.height == height,
            m.depth == depth,
            m.underground_type == underground_type,
            forall|i: int| 0 <= i < m.map@.len() ==> m.map@[i] == TileType::Wall,
    {
        let n = (width * height) as usize;
        let mut map: Vec<TileType> = Vec::new();
        let mut i: usize = 0;
        while i < n
            invariant
                i <= n,
                map@.len() == i,
                forall|j: int| 0 <= j < i ==> map@[j] == TileType::Wall,
            decreases n - i,
        {
            map.push(TileType::Wall);
            i = i + 1;
        }
        GameMap { depth, underground_type, map, width, height }
    }

    pub fn in_bounds(&self, x: i32, y: i32) -> (b: bool)
        ensures
            b == self.in_bounds_spec(x as int, y as int),
    {
        x >= 0 && x < self.width && y >= 0 && y < self.height
    }

    /// Row-major index of (x, y).
    pub fn get_index(&self, x: i32, y: i32) -> (i: usize)
        requires
            0 <= grid_index(self.width as int, x as int, y as int) <= i32::MAX,
            i32::MIN <= y * self.width <= i32::MAX,
        ensures
            i == grid_index(self.width as int, x as int, y as int),
    {
        (y * self.width + x) as usize
    }

    /// The tile at (x, y); `Wall` outside the map.
    pub fn get_tile(&self, x: i32, y: i32) -> (t: TileType)
        requires
            self.wf(),
        ensures
            t == self.tile_at(x as int, y as int),
    {
        if !self.in_bounds(x, y) {
            return TileType::Wall;
        }
        proof {
            lemma_grid_index(self.width as int, self.height as int, x as int, y as int);
        }
        self.map[self.get_index(x, y)]
    }

    /// Puts `tile` at (x, y); does nothing outside the map.
    pub fn set_tile(&mut self, x: i32, y: i32, tile: TileType)
        requires
            old(self).wf(),
        ensures
            final(self).wf(),
            final(self).same_shape(&*old(self)),
            old(self).in_bounds_spec(x as int, y as int) ==> final(self).map@ == old(
                self).map@.update(grid_index(old(self).width as int, x as int, y as int), tile),
            !old(self).in_bounds_spec(x as int, y as int) ==> final(self).map@ == old(self).map@,
            forall|a: int, b: int|
                #![trigger final(self).tile_at(a, b)]
                final(self).tile_at(a, b) == (if a == x && b == y && old(self).in_bounds_spec(a, b) {
                    tile
                } else {
                    old(self).tile_at(a, b)
                }),
    {
        if !self.in_bounds(x, y) {
            return;
        }
        proof {
            lemma_grid_index(self.width as int, self.height as int, x as int, y as int);
        }
        let idx = self.get_index(x, y);
        self.map.set(idx, tile);
        proof {
            assert forall|a: int, b: int|
                #![trigger self.tile_at(a, b)]
                self.tile_at(a, b) == (if a == x && b == y && old(self).in_bounds_spec(a, b) {
                    tile
                } else {
                    old(self).tile_at(a, b)
                }) by {
                if self.in_bounds_spec(a, b) {
                    lemma_grid_index(self.width as int, self.height as int, a, b);
                    if grid_index(self.width as int, a, b) == idx {
                        lemma_grid_index_injective(self.width as int, a, b, x as int, y as int);
                    }
                }
            }
        }
    }
}

} // verus!
