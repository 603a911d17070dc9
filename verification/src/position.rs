use vstd::prelude::*;

verus! {

/// A cell on the game grid; `y` grows downward (north is `y - 1`).
#[derive(Clone, Copy, Debug, PartialEq, Eq, Hash, Structural)]
pub struct Position {
    pub x: i32,
    pub y: i32,
}

/// The eight compass directions of the grid.
#[derive(Clone, Copy, Debug, PartialEq, Eq, Hash, Structural)]
pub enum Direction {
    North,
    NorthEast,
    East,
    SouthEast,
    South,
    SouthWest,
    West,
    NorthWest,
}

/// Sign of an integer: -1, 0 or 1.
pub open spec fn sign(v: int) -> int {
    if v > 0 {
        1
    } else if v < 0 {
        -1
    } else {
        0
    }
}

/// Unit offset `(dx, dy)` of a direction.
pub open spec fn dir_delta(d: Direction) -> (int, int) {
    match d {
        Direction::North => (0, -1),
        Direction::NorthEast => (1, -1),
        Direction::East => (1, 0),
        Direction::SouthEast => (1, 1),
        Direction::South => (0, 1),
        Direction::SouthWest => (-1, 1),
        Direction::West => (-1, 0),
        Direction::NorthWest => (-1, -1),
    }
}

/// Squared Euclidean distance between two cells.
pub open spec fn dist2(a: Position, b: Position) -> int {
    (a.x - b.x) * (a.x - b.x) + (a.y - b.y) * (a.y - b.y)
}

/// Both coordinate differences of `a - b` fit in an `i32`.
pub open spec fn diff_fits(a: Position, b: Position) -> bool {
    i32::MIN <= a.x - b.x <= i32::MAX && i32::MIN <= a.y - b.y <= i32::MAX
}

/// Absolute value of an integer.
pub open spec fn abs(v: int) -> int {
    if v < 0 {
        -v
    } else {
        v
    }
}

impl Position {
    pub fn new(x: i32, y: i32) -> (p: Position)
        ensures
            p.x == x,
            p.y == y,
    {
        Position { x, y }
    }

    pub fn x(&self) -> (r: i32)
        ensures
            r == self.x,
    {
        self.x
    }

    pub fn y(&self) -> (r: i32)
        ensures
            r == self.y,
    {
        self.y
    }

    /// Squared Euclidean distance to `other`, computed without overflow.
    pub fn distance_squared(&self, other: &Position) -> (d: i128)
        ensures
            d == dist2(*self, *other),
    {
        let dx: i128 = self.x as i128 - other.x as i128;
        let dy: i128 = self.y as i128 - other.y as i128;
        assert(0 <= dx * dx <= 0x1_0000_0000_0000_0000int) by (nonlinear_arith)
            requires
                -0x1_0000_0000 <= dx <= 0x1_0000_0000,
        ;
        assert(0 <= dy * dy <= 0x1_0000_0000_0000_0000int) by (nonlinear_arith)
            requires
                -0x1_0000_0000 <= dy <= 0x1_0000_0000,
        ;
        dx * dx + dy * dy
    }

    /// The cell one step away in direction `d`.
    pub fn step(&self, d: Direction) -> (p: Position)
        requires
            i32::MIN < self.x < i32::MAX,
            i32::MIN < self.y < i32::MAX,
        ensures
            p.x == self.x + dir_delta(d).0,
            p.y == self.y + dir_delta(d).1,
    {
        let (dx, dy) = d.coord();
        Position { x: self.x + dx, y: self.y + dy }
    }
}

impl Direction {
    /// The unit offset `(dx, dy)` of this direction.
    pub fn coord(&self) -> (c: (i32, i32))
        ensures
            c.0 == dir_delta(*self).0,
            c.1 == dir_delta(*self).1,
    {
        match self {
            Direction::North => (0, -1),
            Direction::NorthEast => (1, -1),
            Direction::East => (1, 0),
            Direction::SouthEast => (1, 1),
            Direction::South => (0, 1),
            Direction::SouthWest => (-1, 1),
            Direction::West => (-1, 0),
            Direction::NorthWest => (-1, -1),
        }
    }

    /// The direction whose offset is `(dx, dy)`; each component is -1, 0 or 1
    /// and they are not both 0.
    pub fn from_coord(dx: i32, dy: i32) -> (d: Direction)
        requires
            -1 <= dx <= 1,
            -1 <= dy <= 1,
            !(dx == 0 && dy == 0),
        ensures
            dir_delta(d) == (dx as int, dy as int),
            d == direction_of(dx as int, dy as int),
    {
        if dx == 0 {
            if dy < 0 {
                Direction::North
            } else {
                Direction::South
            }
        } else if dx > 0 {
            if dy < 0 {
                Direction::NorthEast
            } else if dy == 0 {
                Direction::East
            } else {
                Direction::SouthEast
            }
        } else {
            if dy < 0 {
                Direction::NorthWest
            } else if dy == 0 {
                Direction::West
            } else {
                Direction::SouthWest
            }
        }
    }
}

/// Sign of an `i32`.
pub fn signum(v: i32) -> (s: i32)
    ensures
        s == sign(v as int),
{
    if v > 0 {
        1
    } else if v < 0 {
        -1
    } else {
        0
    }
}

/// The direction with unit offset `(sx, sy)` (each -1, 0 or 1, not both 0).
pub open spec fn direction_of(sx: int, sy: int) -> Direction {
    if sx == 0 {
        if sy < 0 {
            Direction::North
        } else {
            Direction::South
        }
    } else if sx > 0 {
        if sy < 0 {
            Direction::NorthEast
        } else if sy == 0 {
            Direction::East
        } else {
            Direction::SouthEast
        }
    } else {
        if sy < 0 {
            Direction::NorthWest
        } else if sy == 0 {
            Direction::West
        } else {
            Direction::SouthWest
        }
    }
}

/// The direction from `from` toward `to` (signs of the offset on each axis),
/// `None` when both cells coincide.
pub open spec fn toward(from: Position, to: Position) -> Option<Direction> {
    if from == to {
        None
    } else {
        Some(direction_of(sign(to.x - from.x), sign(to.y - from.y)))
    }
}

/// The direction from `away_from` to `from`, north when both coincide.
pub open spec fn away(from: Position, away_from: Position) -> Direction {
    if from == away_from {
        Direction::North
    } else {
        direction_of(sign(from.x - away_from.x), sign(from.y - away_from.y))
    }
}

/// Sign of `b - a`, computed without overflow.
fn sign_of_difference(a: i32, b: i32) -> (s: i32)
    ensures
        s == sign(b - a),
{
    if b > a {
        1
    } else if b < a {
        -1
    } else {
        0
    }
}

/// The direction whose offset has the signs of `(to - from)` on each axis,
/// or `None` when both cells are the same.
pub fn calculate_direction_to_target(from: &Position, to: &Position) -> (r: Option<Direction>)
    ensures
        r == toward(*from, *to),
        r is None <==> *from == *to,
        r matches Some(d) ==> dir_delta(d) == (sign(to.x - from.x), sign(to.y - from.y)),
{
    let sx = sign_of_difference(from.x, to.x);
    let sy = sign_of_difference(from.y, to.y);
    if sx == 0 && sy == 0 {
        return None;
    }
    Some(Direction::from_coord(sx, sy))
}

/// The direction whose offset has the signs of `(from - away_from)`; when both
/// cells are the same the escape direction is north.
pub fn calculate_direction_away_from_target(from: &Position, away_from: &Position) -> (r: Option<
    Direction,
>)
    ensures
        r == Some(away(*from, *away_from)),
        *from != *away_from ==> dir_delta(r.unwrap()) == (
            sign(from.x - away_from.x),
            sign(from.y - away_from.y),
        ),
{
    let sx = sign_of_difference(away_from.x, from.x);
    let sy = sign_of_difference(away_from.y, from.y);
    if sx == 0 && sy == 0 {
        return Some(Direction::North);
    }
    Some(Direction::from_coord(sx, sy))
}

/// Whether the attacker stands within Euclidean distance 1 of the victim:
/// on the same cell or on one of its four orthogonal neighbours.
pub fn in_attack_range(attacker_pos: &Position, victim_pos: &Position) -> (r: bool)
    ensures
        r <==> dist2(*attacker_pos, *victim_pos) <= 1,
{
    attacker_pos.distance_squared(victim_pos) <= 1
}

/// Whether the two cells touch diagonally (both coordinates differ by one).
pub fn is_diagonal_adjacent(pos1: &Position, pos2: &Position) -> (r: bool)
    requires
        diff_fits(*pos1, *pos2),
        pos1.x - pos2.x != i32::MIN,
        pos1.y - pos2.y != i32::MIN,
    ensures
        r <==> (abs(pos1.x - pos2.x) == 1 && abs(pos1.y - pos2.y) == 1),
{
    let ddx = pos1.x - pos2.x;
    let ddy = pos1.y - pos2.y;
    let dx = if ddx < 0 {
        -ddx
    } else {
        ddx
    };
    let dy = if ddy < 0 {
        -ddy
    } else {
        ddy
    };
    dx == 1 && dy == 1
}

/// The cardinal direction with unit offset `(sx, sy)`, if there is one.
pub open spec fn cardinal_of(sx: int, sy: int) -> Option<Direction> {
    if sx == 0 && sy == -1 {
        Some(Direction::North)
    } else if sx == 1 && sy == 0 {
        Some(Direction::East)
    } else if sx == 0 && sy == 1 {
        Some(Direction::South)
    } else if sx == -1 && sy == 0 {
        Some(Direction::West)
    } else {
        None
    }
}

/// The cardinal direction of a single orthogonal step from `from` to `to`
/// (only the signs of the offset matter); `None` for no move or a diagonal.
pub fn position_to_direction(from: Position, to: Position) -> (r: Option<Direction>)
    ensures
        r == cardinal_of(sign(to.x - from.x), sign(to.y - from.y)),
{
    let sx = sign_of_difference(from.x, to.x);
    let sy = sign_of_difference(from.y, to.y);
    if sx == 0 && sy == -1 {
        Some(Direction::North)
    } else if sx == 1 && sy == 0 {
        Some(Direction::East)
    } else if sx == 0 && sy == 1 {
        Some(Direction::South)
    } else if sx == -1 && sy == 0 {
        Some(Direction::West)
    } else {
        None
    }
}

} // verus!
