use vstd::prelude::*;
use crate::geometry::{Direction, Position, opposite_of, advance, step};
use crate::world::{World, has_free_cell, in_grid};

verus! {

/// Which of the four direction keys are held during a frame.
#[derive(Clone, Copy, Debug, PartialEq, Eq, Structural)]
pub struct Keys {
    pub up: bool,
    pub down: bool,
    pub left: bool,
    pub right: bool,
}

/// The snake: its cells head first, whether it still moves, its heading, a
/// frame counter and the food eaten so far.
#[derive(Clone, Debug)]
pub struct Snake {
    pub body: Vec<Position>,
    pub alive: bool,
    pub direction: Direction,
    pub ticker: u32,
    pub score: u32,
}

/// The `n`-th cell of a straight snake whose head is at `pos` and which moves
/// in direction `dir`: the cells trail away from the heading.
pub open spec fn trail_cell(pos: Position, dir: Direction, n: int) -> Position {
    match dir {
        Direction::Up => Position { x: pos.x, y: (pos.y + n) as i32 },
        Direction::Right => Position { x: (pos.x - n) as i32, y: pos.y },
        Direction::Down => Position { x: pos.x, y: (pos.y - n) as i32 },
        Direction::Left => Position { x: (pos.x + n) as i32, y: pos.y },
    }
}

/// The trail of `length` cells from `pos` stays within the coordinate range.
pub open spec fn trail_fits(pos: Position, dir: Direction, length: int) -> bool {
    match dir {
        Direction::Up => pos.y + (length - 1) <= i32::MAX,
        Direction::Right => pos.x - (length - 1) >= i32::MIN,
        Direction::Down => pos.y - (length - 1) >= i32::MIN,
        Direction::Left => pos.x + (length - 1) <= i32::MAX,
    }
}

/// The direction the keys ask for: of the held keys, the last in the order
/// up, down, left, right; the current direction when none is held.
pub open spec fn requested(cur: Direction, keys: Keys) -> Direction {
    if keys.right {
        Direction::Right
    } else if keys.left {
        Direction::Left
    } else if keys.down {
        Direction::Down
    } else if keys.up {
        Direction::Up
    } else {
        cur
    }
}

/// The heading after input: the requested one, unless it would reverse.
pub open spec fn resolved(cur: Direction, keys: Keys) -> Direction {
    if requested(cur, keys) == opposite_of(cur) {
        cur
    } else {
        requested(cur, keys)
    }
}

/// The head sits on another cell of the body.
pub open spec fn collides(b: Seq<Position>) -> bool {
    exists|i: int| 1 <= i < b.len() && #[trigger] b[i] == b[0]
}

/// The head sits on the food.
pub open spec fn eats(b: Seq<Position>, food: Position) -> bool {
    b.len() > 0 && b[0] == food
}

/// The body with three copies of its tail appended.
pub open spec fn grown(b: Seq<Position>) -> Seq<Position> {
    b + seq![b.last(), b.last(), b.last()]
}

/// The body after one step: a new head one cell on in direction `d`, and
/// every other cell where its predecessor was.
pub open spec fn stepped(b: Seq<Position>, d: Direction, w: int, h: int) -> Seq<Position> {
    Seq::new(b.len(), |i: int| if i == 0 { advance(b[0], d, w, h) } else { b[i - 1] })
}

/// A counter one on, wrapping to zero past the largest `u32`.
pub open spec fn next_count(n: u32) -> u32 {
    if n == u32::MAX { 0 } else { (n + 1) as u32 }
}

/// Input never turns the snake straight back on itself.
pub proof fn lemma_no_reversal(cur: Direction, keys: Keys)
    ensures
        resolved(cur, keys) != opposite_of(cur),
{
}

/// After a step, every cell but the head holds what the cell before it held
/// before the step, and the body keeps its length.
pub proof fn lemma_step_contiguity(b: Seq<Position>, d: Direction, w: int, h: int)
    ensures
        stepped(b, d, w, h).len() == b.len(),
        b.len() > 0 ==> stepped(b, d, w, h)[0] == advance(b[0], d, w, h),
        forall|i: int| 1 <= i < b.len() ==> #[trigger] stepped(b, d, w, h)[i] == b[i - 1],
{
}

/// Eating makes the body exactly three cells longer, keeps its cells in
/// place, makes the three new cells copies of the old tail, and adds exactly
/// one to a score below the largest `u32`.
pub proof fn lemma_growth(b: Seq<Position>, score: u32)
    requires
        b.len() > 0,
        score < u32::MAX,
    ensures
        grown(b).len() == b.len() + 3,
        forall|i: int| 0 <= i < b.len() ==> #[trigger] grown(b)[i] == b[i],
        forall|i: int| b.len() <= i < b.len() + 3 ==> #[trigger] grown(b)[i] == b[b.len() - 1],
        next_count(score) == score + 1,
{
}

impl Snake {
    /// The body always has a head.
    pub open spec fn wf(&self) -> bool {
        self.body.len() > 0
    }

    /// A live snake of `length` cells in a straight line from `pos`, heading
    /// `dir`, with the rest of the body trailing behind the head.
    pub fn new(pos: Position, length: u32, dir: Direction) -> (r: Snake)
        requires
            length >= 1,
            trail_fits(pos, dir, length as int),
        ensures
            r.body@ == Seq::new(length as nat, |n: int| trail_cell(pos, dir, n)),
            r.wf(),
            r.alive,
            r.direction == dir,
            r.ticker == 0,
            r.score == 0,
    {
        let mut body: Vec<Position> = Vec::new();
        let mut n: u32 = 0;
        while n < length
            invariant
                n <= length,
                trail_fits(pos, dir, length as int),
                body@ == Seq::new(n as nat, |k: int| trail_cell(pos, dir, k)),
            decreases length - n,
        {
            let k: i64 = n as i64;
            let p = match dir {
                Direction::Up => Position { x: pos.x, y: (pos.y as i64 + k) as i32 },
                Direction::Right => Position { x: (pos.x as i64 - k) as i32, y: pos.y },
                Direction::Down => Position { x: pos.x, y: (pos.y as i64 - k) as i32 },
                Direction::Left => Position { x: (pos.x as i64 + k) as i32, y: pos.y },
            };
            body.push(p);
            n = n + 1;
            assert(body@ =~= Seq::new(n as nat, |k: int| trail_cell(pos, dir, k)));
        }
        Snake { body, alive: true, direction: dir, ticker: 0, score: 0 }
    }

    /// Adopts the direction the keys ask for, unless it is the reverse of
    /// the current one.
    pub fn handle_input(&mut self, keys: Keys)
        ensures
            final(self).direction == resolved(old(self).direction, keys),
            final(self).body == old(self).body,
            final(self).alive == old(self).alive,
            final(self).ticker == old(self).ticker,
            final(self).score == old(self).score,
    {
        let mut queued = self.direction;
        if keys.up {
            queued = Direction::Up;
        }
        if keys.down {
            queued = Direction::Down;
        }
        if keys.left {
            queued = Direction::Left;
        }
        if keys.right {
            queued = Direction::Right;
        }
        if queued != self.direction.opposite() {
            self.direction = queued;
        }
    }

    /// Appends three copies of the tail cell.
    pub fn grow(&mut self)
        requires
            old(self).body.len() > 0,
            old(self).body.len() + 3 <= usize::MAX,
        ensures
            final(self).body@ == grown(old(self).body@),
            final(self).alive == old(self).alive,
            final(self).direction == old(self).direction,
            final(self).ticker == old(self).ticker,
            final(self).score == old(self).score,
    {
        let tail = self.body[self.body.len() - 1];
        self.body.push(tail);
        self.body.push(tail);
        self.body.push(tail);
        assert(self.body@ =~= grown(old(self).body@));
    }

    /// The state after one frame: a self-collision stops the snake for good,
    /// reaching the food grows it by three cells, scores one and moves the
    /// food off the body, and on every `tick_delay`-th frame a live snake
    /// takes the keys' direction and steps one cell.
    pub fn update(&mut self, world: &mut World, keys: Keys)
        requires
            old(world).wf(),
            old(self).body.len() + 3 <= usize::MAX,
        ensures
            ({
                let b0 = old(self).body@;
                let w = old(world).width as int;
                let h = old(world).height as int;
                let alive1 = old(self).alive && !collides(b0);
                let ate = eats(b0, old(world).food);
                let b1 = if ate { grown(b0) } else { b0 };
                let moving = alive1 && final(self).ticker % old(world).tick_delay == 0;
                &&& final(self).alive == alive1
                &&& final(self).ticker == next_count(old(self).ticker)
                &&& final(self).score == if ate { next_count(old(self).score) } else { old(self).score }
                &&& final(self).direction == if moving {
                    resolved(old(self).direction, keys)
                } else {
                    old(self).direction
                }
                &&& final(self).body@ == if moving { stepped(b1, final(self).direction, w, h) } else { b1 }
                &&& final(world).width == old(world).width
                &&& final(world).height == old(world).height
                &&& final(world).scale == old(world).scale
                &&& final(world).tick_delay == old(world).tick_delay
                &&& !ate ==> final(world).food == old(world).food
                &&& ate && has_free_cell(b1, w, h) ==> in_grid(final(world).food, w, h)
                    && !b1.contains(final(world).food)
            }),
            old(self).wf() ==> final(self).wf(),
            collides(old(self).body@) ==> !final(self).alive,
            !old(self).alive ==> final(self).body@ == if eats(old(self).body@, old(world).food) {
                grown(old(self).body@)
            } else {
                old(self).body@
            },
    {
        if self_collision(&self.body) {
            self.alive = false;
        }
        let ate = self.body.len() > 0 && self.body[0] == world.food;
        if ate {
            self.grow();
            self.score = self.score.wrapping_add(1);
            world.place_food(&self.body);
            assert(self.body@.contains(old(world).food)) by {
                assert(self.body@[0] == old(world).food);
            }
        }
        self.ticker = self.ticker.wrapping_add(1);
        if self.ticker % world.tick_delay == 0 && self.alive {
            self.handle_input(keys);
            self.body = stepped_body(&self.body, self.direction, world.width, world.height);
        }
    }
}

/// Whether the head of `body` sits on one of its other cells.
pub fn self_collision(body: &Vec<Position>) -> (r: bool)
    ensures
        r == collides(body@),
{
    if body.len() == 0 {
        return false;
    }
    let head = body[0];
    let mut i: usize = 1;
    while i < body.len()
        invariant
            1 <= i <= body.len(),
            head == body@[0],
            forall|j: int| 1 <= j < i ==> body@[j] != head,
        decreases body.len() - i,
    {
        if body[i] == head {
            return true;
        }
        i = i + 1;
    }
    false
}

/// The body after one step in direction `d` on a `w` by `h` toroidal grid.
/// The old body is only read and the new one only written.
pub fn stepped_body(body: &Vec<Position>, d: Direction, w: u32, h: u32) -> (r: Vec<Position>)
    requires
        0 < w <= i32::MAX,
        0 < h <= i32::MAX,
    ensures
        r@ == stepped(body@, d, w as int, h as int),
{
    let mut out: Vec<Position> = Vec::new();
    let mut i: usize = 0;
    while i < body.len()
        invariant
            i <= body.len(),
            0 < w <= i32::MAX,
            0 < h <= i32::MAX,
            out@ == stepped(body@, d, w as int, h as int).subrange(0, i as int),
        decreases body.len() - i,
    {
        if i == 0 {
            out.push(step(body[0], d, w, h));
        } else {
            out.push(body[i - 1]);
        }
        i = i + 1;
        assert(out@ =~= stepped(body@, d, w as int, h as int).subrange(0, i as int));
    }
    assert(out@ =~= stepped(body@, d, w as int, h as int));
    out
}

} // verus!
