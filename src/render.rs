use vstd::prelude::*;
use crate::geometry::Position;
use crate::snake::Snake;
use crate::world::World;

verus! {

/// Which neighbour a cell's motion came from: the unit vector from the
/// neighbour to the cell.
#[derive(Clone, Copy, Debug, PartialEq, Eq, Structural)]
pub enum Edge {
    /// The vector (-1, 0).
    Left,
    /// The vector (0, -1).
    Up,
    /// The vector (0, 1).
    Down,
    /// The vector (1, 0).
    Right,
}

/// An axis-aligned rectangle in pixels.
#[derive(Clone, Copy, Debug, PartialEq, Eq, Structural)]
pub struct Rect {
    pub x: i64,
    pub y: i64,
    pub w: i64,
    pub h: i64,
}

/// The edge that `p - q` selects, if it is a unit vector.
pub open spec fn edge_of(p: Position, q: Position) -> Option<Edge> {
    let dx = p.x - q.x;
    let dy = p.y - q.y;
    if dx == -1 && dy == 0 {
        Some(Edge::Left)
    } else if dx == 0 && dy == -1 {
        Some(Edge::Up)
    } else if dx == 0 && dy == 1 {
        Some(Edge::Down)
    } else if dx == 1 && dy == 0 {
        Some(Edge::Right)
    } else {
        None
    }
}

/// The whole cell `p` at `s` pixels per cell.
pub open spec fn cell_rect(p: Position, s: int) -> Rect {
    Rect { x: (p.x * s) as i64, y: (p.y * s) as i64, w: s as i64, h: s as i64 }
}

/// Cell `p` drawn `off` pixels into its motion along edge `e`.
pub open spec fn edge_rect(p: Position, e: Edge, off: int, s: int) -> Rect {
    match e {
        Edge::Left => Rect { x: ((p.x + 1) * s - off) as i64, y: (p.y * s) as i64, w: s as i64, h: s as i64 },
        Edge::Up => Rect { x: (p.x * s) as i64, y: ((p.y + 1) * s - off) as i64, w: s as i64, h: s as i64 },
        Edge::Down => Rect { x: (p.x * s) as i64, y: (p.y * s) as i64, w: s as i64, h: off as i64 },
        Edge::Right => Rect { x: (p.x * s) as i64, y: (p.y * s) as i64, w: off as i64, h: s as i64 },
    }
}

/// How far, in pixels, the head has glided into its cell: the fraction
/// `(ticker % td) / td` of a cell, rounded down. The tail has the rest.
pub open spec fn head_offset(ticker: int, td: int, s: int) -> int {
    (ticker % td) * s / td
}

pub open spec fn tail_offset(ticker: int, td: int, s: int) -> int {
    (td - ticker % td) * s / td
}

/// What is drawn for cell `i` of body `b`: the head and the tail glide
/// along the edge towards their neighbour (nothing when the neighbour is not
/// adjacent on the grid), every other cell is a whole square. A body of one
/// cell is a whole square.
pub open spec fn segment_rect(b: Seq<Position>, i: int, ticker: int, td: int, s: int) -> Option<Rect> {
    let last = b.len() - 1;
    if b.len() >= 2 && (i == 0 || i == last) {
        let nb = if i == 0 { b[1] } else { b[last - 1] };
        let off = if i == 0 { head_offset(ticker, td, s) } else { tail_offset(ticker, td, s) };
        match edge_of(b[i], nb) {
            Some(e) => Some(edge_rect(b[i], e, off, s)),
            None => None,
        }
    } else {
        Some(cell_rect(b[i], s))
    }
}

/// The edge that `p - q` selects, if it is a unit vector.
pub fn edge_between(p: Position, q: Position) -> (r: Option<Edge>)
    ensures
        r == edge_of(p, q),
{
    let dx: i64 = p.x as i64 - q.x as i64;
    let dy: i64 = p.y as i64 - q.y as i64;
    if dx == -1 && dy == 0 {
        Some(Edge::Left)
    } else if dx == 0 && dy == -1 {
        Some(Edge::Up)
    } else if dx == 0 && dy == 1 {
        Some(Edge::Down)
    } else if dx == 1 && dy == 0 {
        Some(Edge::Right)
    } else {
        None
    }
}

/// `k * s / td` for `k <= td`: the fraction `k / td` of `s` pixels, rounded down.
fn fraction_of(k: u32, td: u32, s: u32) -> (r: i64)
    requires
        k <= td,
        0 < td,
    ensures
        r == (k as int) * (s as int) / (td as int),
        0 <= r <= s,
{
    proof {
        assert((k as int) * (s as int) < 0x1_0000_0000 * 0x1_0000_0000) by (nonlinear_arith)
            requires
                k < 0x1_0000_0000,
                s < 0x1_0000_0000,
        ;
        assert(k * s <= td * s) by (nonlinear_arith)
            requires k <= td;
        vstd::arithmetic::div_mod::lemma_div_is_ordered(k * s, td * s, td as int);
        vstd::arithmetic::div_mod::lemma_div_multiples_vanish(s as int, td as int);
        vstd::arithmetic::div_mod::lemma_div_pos_is_pos(k * s, td as int);
    }
    let prod: u64 = k as u64 * s as u64;
    (prod / td as u64) as i64
}

/// A coordinate (or one past it) times a cell size fits in `i64`.
proof fn lemma_pixel_bound(c: i32, s: u32)
    ensures
        -0x8000_0000 * 0xffff_ffff <= (c as int) * (s as int),
        (c as int + 1) * (s as int) <= 0x8000_0000 * 0xffff_ffff,
        (c as int + 1) * (s as int) == (c as int) * (s as int) + s,
{
    let ci = c as int;
    let si = s as int;
    if ci >= 0 {
        vstd::arithmetic::mul::lemma_mul_inequality(ci + 1, 0x8000_0000, si);
        vstd::arithmetic::mul::lemma_mul_inequality(si, 0xffff_ffff, 0x8000_0000);
        vstd::arithmetic::mul::lemma_mul_nonnegative(ci, si);
    } else {
        vstd::arithmetic::mul::lemma_mul_inequality(-ci, 0x8000_0000, si);
        vstd::arithmetic::mul::lemma_mul_inequality(si, 0xffff_ffff, 0x8000_0000);
        vstd::arithmetic::mul::lemma_mul_unary_negation(ci, si);
        assert((ci + 1) * si <= 0) by (nonlinear_arith)
            requires ci + 1 <= 0, si >= 0;
    }
    vstd::arithmetic::mul::lemma_mul_is_distributive_add_other_way(si, ci, 1);
}

/// Cell `p` at `s` pixels per cell.
pub fn cell_rect_of(p: Position, s: u32) -> (r: Rect)
    ensures
        r == cell_rect(p, s as int),
{
    proof {
        lemma_pixel_bound(p.x, s);
        lemma_pixel_bound(p.y, s);
    }
    Rect { x: p.x as i64 * s as i64, y: p.y as i64 * s as i64, w: s as i64, h: s as i64 }
}

fn edge_rect_of(p: Position, e: Edge, off: i64, s: u32) -> (r: Rect)
    requires
        0 <= off <= s,
    ensures
        r == edge_rect(p, e, off as int, s as int),
{
    proof {
        lemma_pixel_bound(p.x, s);
        lemma_pixel_bound(p.y, s);
    }
    let x: i64 = p.x as i64 * s as i64;
    let y: i64 = p.y as i64 * s as i64;
    let s64: i64 = s as i64;
    match e {
        Edge::Left => Rect { x: x + s64 - off, y, w: s64, h: s64 },
        Edge::Up => Rect { x, y: y + s64 - off, w: s64, h: s64 },
        Edge::Down => Rect { x, y, w: s64, h: off },
        Edge::Right => Rect { x, y, w: off, h: s64 },
    }
}

impl Snake {
    /// The rectangle of every body cell, head first, for the current frame
    /// (`None` where the cell is not drawn).
    pub fn segment_rects(&self, world: &World) -> (r: Vec<Option<Rect>>)
        requires
            world.wf(),
        ensures
            r@.len() == self.body@.len(),
            forall|i: int|
                0 <= i < r@.len() ==> #[trigger] r@[i] == segment_rect(
                    self.body@,
                    i,
                    self.ticker as int,
                    world.tick_delay as int,
                    world.scale as int,
                ),
    {
        let b = &self.body;
        let n = b.len();
        let td = world.tick_delay;
        let s = world.scale;
        let k = self.ticker % td;
        let mut out: Vec<Option<Rect>> = Vec::new();
        let mut i: usize = 0;
        while i < n
            invariant
                n == b.len(),
                i <= n,
                0 < td,
                k == self.ticker % td,
                td == world.tick_delay,
                s == world.scale,
                out@.len() == i,
                forall|j: int|
                    0 <= j < i ==> #[trigger] out@[j] == segment_rect(
                        b@,
                        j,
                        self.ticker as int,
                        td as int,
                        s as int,
                    ),
            decreases n - i,
        {
            let r = if n >= 2 && (i == 0 || i == n - 1) {
                let nb = if i == 0 { b[1] } else { b[n - 2] };
                let off = if i == 0 { fraction_of(k, td, s) } else { fraction_of(td - k, td, s) };
                match edge_between(b[i], nb) {
                    Some(e) => Some(edge_rect_of(b[i], e, off, s)),
                    None => None,
                }
            } else {
                Some(cell_rect_of(b[i], s))
            };
            out.push(r);
            i = i + 1;
        }
        out
    }
}

/// The decimal digits of `n` in ASCII, most significant first.
pub open spec fn decimal(n: nat) -> Seq<u8>
    decreases n,
{
    if n < 10 {
        seq![(48 + n) as u8]
    } else {
        decimal(n / 10).push((48 + n % 10) as u8)
    }
}

/// `decimal(n)` with leading ASCII zeros up to `width` characters.
pub open spec fn zero_padded(n: nat, width: nat) -> Seq<u8> {
    if decimal(n).len() < width {
        Seq::new((width - decimal(n).len()) as nat, |i: int| 48u8) + decimal(n)
    } else {
        decimal(n)
    }
}

fn push_decimal(n: u32, out: &mut Vec<u8>)
    ensures
        final(out)@ == old(out)@ + decimal(n as nat),
    decreases n,
{
    if n < 10 {
        out.push(48u8 + n as u8);
        assert(final(out)@ =~= old(out)@ + decimal(n as nat));
    } else {
        push_decimal(n / 10, out);
        out.push(48u8 + (n % 10) as u8);
        assert(final(out)@ =~= old(out)@ + decimal(n as nat));
    }
}

/// The score as shown on screen: its decimal digits in ASCII, padded with
/// leading zeros to at least three characters.
pub fn score_digits(score: u32) -> (r: Vec<u8>)
    ensures
        r@ == zero_padded(score as nat, 3),
{
    let mut digits: Vec<u8> = Vec::new();
    push_decimal(score, &mut digits);
    assert(digits@ =~= decimal(score as nat));
    if digits.len() >= 3 {
        return digits;
    }
    let mut out: Vec<u8> = Vec::new();
    let pad: usize = 3 - digits.len();
    while out.len() < pad
        invariant
            out.len() <= pad,
            forall|i: int| 0 <= i < out.len() ==> out@[i] == 48u8,
        decreases pad - out.len(),
    {
        out.push(48u8);
    }
    let mut i: usize = 0;
    while i < digits.len()
        invariant
            i <= digits.len(),
            out@ == Seq::new(pad as nat, |k: int| 48u8) + digits@.subrange(0, i as int),
        decreases digits.len() - i,
    {
        out.push(digits[i]);
        i = i + 1;
        assert(out@ =~= Seq::new(pad as nat, |k: int| 48u8) + digits@.subrange(0, i as int));
    }
    assert(out@ =~= zero_padded(score as nat, 3));
    out
}

impl World {
    /// The food cell's square.
    pub fn food_rect(&self) -> (r: Rect)
        ensures
            r == cell_rect(self.food, self.scale as int),
    {
        cell_rect_of(self.food, self.scale)
    }
}

} // verus!
