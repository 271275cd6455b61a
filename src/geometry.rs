use vstd::prelude::*;

verus! {

/// One of the four grid directions.
#[derive(Clone, Copy, Debug, PartialEq, Eq, Structural)]
pub enum Direction {
    Up,
    Right,
    Down,
    Left,
}

/// The direction that points the other way.
pub open spec fn opposite_of(d: Direction) -> Direction {
    match d {
        Direction::Up => Direction::Down,
        Direction::Right => Direction::Left,
        Direction::Down => Direction::Up,
        Direction::Left => Direction::Right,
    }
}

impl Direction {
    pub fn opposite(&self) -> (r: Direction)
        ensures
            r == opposite_of(*self),
    {
        match self {
            Direction::Up => Direction::Down,
            Direction::Right => Direction::Left,
            Direction::Down => Direction::Up,
            Direction::Left => Direction::Right,
        }
    }
}

/// Turning around twice faces the original way again.
pub proof fn lemma_opposite_involutive(d: Direction)
    ensures
        opposite_of(opposite_of(d)) == d,
        opposite_of(d) != d,
{
}

/// An integer grid coordinate.
#[derive(Clone, Copy, Debug, PartialEq, Eq, Structural)]
pub struct Position {
    pub x: i32,
    pub y: i32,
}

impl Position {
    /// Component-wise difference.
    pub fn sub(self, rhs: Position) -> (r: Position)
        requires
            i32::MIN <= self.x - rhs.x <= i32::MAX,
            i32::MIN <= self.y - rhs.y <= i32::MAX,
        ensures
            r.x == self.x - rhs.x,
            r.y == self.y - rhs.y,
    {
        Position { x: self.x - rhs.x, y: self.y - rhs.y }
    }
}

/// Euclidean remainder: always in `[0, r)`, whatever the sign of `l`.
pub fn emod(l: i64, r: i64) -> (m: i64)
    requires
        r > 0,
    ensures
        m == l % r,
        0 <= m < r,
{
    if l >= 0 {
        ((l as u64) % (r as u64)) as i64
    } else {
        let k: u64 = (-(l + 1)) as u64;
        let q: u64 = k % (r as u64);
        proof {
            let qi = k as int / r as int;
            vstd::arithmetic::div_mod::lemma_fundamental_div_mod(k as int, r as int);
            assert(l == -(qi + 1) * r + (r - 1 - q)) by (nonlinear_arith)
                requires
                    k == -(l + 1),
                    k == r * qi + q,
            ;
            vstd::arithmetic::div_mod::lemma_fundamental_div_mod_converse(
                l as int,
                r as int,
                -(qi + 1),
                r - 1 - q,
            );
        }
        r - 1 - (q as i64)
    }
}

/// Where a cell lands after one step in direction `d` on a `w` by `h` grid
/// whose edges wrap around.
pub open spec fn advance(p: Position, d: Direction, w: int, h: int) -> Position {
    match d {
        Direction::Up => Position { x: p.x, y: ((p.y - 1) % h) as i32 },
        Direction::Right => Position { x: ((p.x + 1) % w) as i32, y: p.y },
        Direction::Down => Position { x: p.x, y: ((p.y + 1) % h) as i32 },
        Direction::Left => Position { x: ((p.x - 1) % w) as i32, y: p.y },
    }
}

/// One step from `p` in direction `d` on a `w` by `h` toroidal grid.
pub fn step(p: Position, d: Direction, w: u32, h: u32) -> (r: Position)
    requires
        0 < w <= i32::MAX,
        0 < h <= i32::MAX,
    ensures
        r == advance(p, d, w as int, h as int),
{
    match d {
        Direction::Up => Position { x: p.x, y: emod(p.y as i64 - 1, h as i64) as i32 },
        Direction::Right => Position { x: emod(p.x as i64 + 1, w as i64) as i32, y: p.y },
        Direction::Down => Position { x: p.x, y: emod(p.y as i64 + 1, h as i64) as i32 },
        Direction::Left => Position { x: emod(p.x as i64 - 1, w as i64) as i32, y: p.y },
    }
}

/// Stepping off one edge of the grid enters at the opposite edge, and the
/// coordinate that a step changes always lands inside the grid.
pub proof fn lemma_wrap_around(p: Position, w: int, h: int)
    requires
        0 < w <= i32::MAX,
        0 < h <= i32::MAX,
    ensures
        p.x == w - 1 ==> advance(p, Direction::Right, w, h).x == 0,
        p.x == 0 ==> advance(p, Direction::Left, w, h).x == w - 1,
        p.y == 0 ==> advance(p, Direction::Up, w, h).y == h - 1,
        p.y == h - 1 ==> advance(p, Direction::Down, w, h).y == 0,
        0 <= advance(p, Direction::Right, w, h).x < w,
        0 <= advance(p, Direction::Left, w, h).x < w,
        0 <= advance(p, Direction::Up, w, h).y < h,
        0 <= advance(p, Direction::Down, w, h).y < h,
{
    assert(p.x == w - 1 ==> (p.x + 1) % w == 0) by (nonlinear_arith)
        requires w > 0;
    assert(p.x == 0 ==> (p.x - 1) % w == w - 1) by (nonlinear_arith)
        requires w > 0;
    assert(p.y == 0 ==> (p.y - 1) % h == h - 1) by (nonlinear_arith)
        requires h > 0;
    assert(p.y == h - 1 ==> (p.y + 1) % h == 0) by (nonlinear_arith)
        requires h > 0;
}

} // verus!
