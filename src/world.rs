use vstd::prelude::*;
use crate::geometry::Position;

verus! {

/// Relies on rand::random: it returns some value of the requested type drawn
/// from the thread-local generator; nothing is promised about which one.
pub assume_specification<T>[ rand::random::<T> ]() -> (r: T)
    where
        rand::distributions::Standard: rand::distributions::Distribution<T>,
;

/// How many random draws food placement makes before it falls back to a scan.
pub const MAX_ROLLS: u32 = 4096;

/// The simulation's parameters and the food cell.
#[derive(Clone, Copy, Debug, PartialEq, Eq, Structural)]
pub struct World {
    pub width: u32,
    pub height: u32,
    /// Pixels per grid cell.
    pub scale: u32,
    /// Frames per logical step.
    pub tick_delay: u32,
    pub food: Position,
}

/// `p` lies on the `w` by `h` grid.
pub open spec fn in_grid(p: Position, w: int, h: int) -> bool {
    0 <= p.x < w && 0 <= p.y < h
}

/// Some cell of the `w` by `h` grid is not covered by `body`.
pub open spec fn has_free_cell(body: Seq<Position>, w: int, h: int) -> bool {
    exists|p: Position| in_grid(p, w, h) && !body.contains(p)
}

impl World {
    /// The grid is non-empty, fits the coordinate type, and steps happen.
    pub open spec fn wf(&self) -> bool {
        &&& 0 < self.width <= i32::MAX
        &&& 0 < self.height <= i32::MAX
        &&& 0 < self.tick_delay
    }

    pub open spec fn is_initial(&self) -> bool {
        &&& self.width == 32
        &&& self.height == 24
        &&& self.scale == 20
        &&& self.tick_delay == 5
        &&& self.food == Position { x: 5, y: 16 }
    }

    /// The starting world: a 32 by 24 grid of 20-pixel cells, one step every
    /// five frames, food at (5, 16).
    pub fn initial() -> (r: World)
        ensures
            r.is_initial(),
            r.wf(),
    {
        World { width: 32, height: 24, scale: 20, tick_delay: 5, food: Position { x: 5, y: 16 } }
    }

    /// Restores the starting values.
    pub fn reset(&mut self)
        ensures
            final(self).is_initial(),
    {
        *self = World::initial();
    }

    /// Moves the food off `body` if it is on it: random cells are drawn until
    /// one is free, and after `MAX_ROLLS` misses the first free cell in row
    /// order is taken. On a grid that `body` covers whole, the food stays on
    /// the body.
    pub fn place_food(&mut self, body: &Vec<Position>)
        requires
            old(self).wf(),
        ensures
            final(self).width == old(self).width,
            final(self).height == old(self).height,
            final(self).scale == old(self).scale,
            final(self).tick_delay == old(self).tick_delay,
            !body@.contains(old(self).food) ==> final(self).food == old(self).food,
            body@.contains(old(self).food) && has_free_cell(body@, old(self).width as int, old(self).height as int)
                ==> in_grid(final(self).food, old(self).width as int, old(self).height as int)
                    && !body@.contains(final(self).food),
            body@.contains(old(self).food) ==> body@.contains(final(self).food)
                || in_grid(final(self).food, old(self).width as int, old(self).height as int),
    {
        let ghost start = self.food;
        let mut rolls: u32 = 0;
        while rolls < MAX_ROLLS && contains(body, self.food)
            invariant
                self.width == old(self).width,
                self.height == old(self).height,
                self.scale == old(self).scale,
                self.tick_delay == old(self).tick_delay,
                self.wf(),
                self.food == start || in_grid(self.food, self.width as int, self.height as int),
                !body@.contains(start) ==> self.food == start,
            decreases MAX_ROLLS - rolls,
        {
            let rx: i32 = rand::random::<i32>();
            let ry: i32 = rand::random::<i32>();
            self.food = Position { x: abs_rem(rx, self.width), y: abs_rem(ry, self.height) };
            rolls = rolls + 1;
        }
        if contains(body, self.food) {
            match first_free_cell(body, self.width, self.height) {
                Some(p) => {
                    self.food = p;
                },
                None => {},
            }
        }
    }
}

/// `|r|` reduced modulo `n`: a cell index in `[0, n)` taken from a raw draw.
pub fn abs_rem(r: i32, n: u32) -> (c: i32)
    requires
        0 < n <= i32::MAX,
    ensures
        0 <= c < n,
        c == (if r < 0 { -r } else { r as int }) % (n as int),
{
    let a: u64 = if r < 0 { (-(r as i64)) as u64 } else { r as u64 };
    (a % (n as u64)) as i32
}

/// Whether `p` is one of the cells of `body`.
pub fn contains(body: &Vec<Position>, p: Position) -> (r: bool)
    ensures
        r == body@.contains(p),
{
    let mut i: usize = 0;
    while i < body.len()
        invariant
            i <= body.len(),
            forall|j: int| 0 <= j < i ==> body@[j] != p,
        decreases body.len() - i,
    {
        if body[i] == p {
            return true;
        }
        i = i + 1;
    }
    false
}

/// The first cell in row order (top row first, left to right) of the `w` by
/// `h` grid that `body` does not cover; `None` when it covers them all.
pub fn first_free_cell(body: &Vec<Position>, w: u32, h: u32) -> (r: Option<Position>)
    requires
        0 < w <= i32::MAX,
        0 < h <= i32::MAX,
    ensures
        r is Some <==> has_free_cell(body@, w as int, h as int),
        r matches Some(p) ==> in_grid(p, w as int, h as int) && !body@.contains(p)
            && forall|q: Position|
                in_grid(q, w as int, h as int) && (q.y < p.y || (q.y == p.y && q.x < p.x))
                    ==> body@.contains(q),
{
    let mut y: u32 = 0;
    while y < h
        invariant
            y <= h <= i32::MAX,
            0 < w <= i32::MAX,
            forall|q: Position| in_grid(q, w as int, h as int) && q.y < y ==> body@.contains(q),
        decreases h - y,
    {
        let mut x: u32 = 0;
        while x < w
            invariant
                y < h <= i32::MAX,
                x <= w <= i32::MAX,
                forall|q: Position| in_grid(q, w as int, h as int) && q.y < y ==> body@.contains(q),
                forall|q: Position| in_grid(q, w as int, h as int) && q.y == y && q.x < x
                    ==> body@.contains(q),
            decreases w - x,
        {
            let p = Position { x: x as i32, y: y as i32 };
            if !contains(body, p) {
                return Some(p);
            }
            x = x + 1;
        }
        y = y + 1;
    }
    proof {
        if has_free_cell(body@, w as int, h as int) {
            let q = choose|q: Position| in_grid(q, w as int, h as int) && !body@.contains(q);
            assert(body@.contains(q));
        }
    }
    None
}

} // verus!
