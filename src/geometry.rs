use vstd::prelude::*;

verus! {

/// Number of steps in a full blend: a blend factor of `BLEND_SCALE` moves a
/// point all the way onto its target.
pub const BLEND_SCALE: u32 = 100;

/// A position on the integer grid.
#[derive(Clone, Copy, Debug, PartialEq, Eq, Structural)]
pub struct Point {
    pub x: i32,
    pub y: i32,
}

/// The extent of the region the points live in: `[0, width) x [0, height)`.
#[derive(Clone, Copy, Debug, PartialEq, Eq, Structural)]
pub struct Bounds {
    pub width: i32,
    pub height: i32,
}

impl Point {
    pub fn new(x: i32, y: i32) -> (r: Point)
        ensures
            r.x == x,
            r.y == y,
    {
        Point { x, y }
    }
}

impl Bounds {
    pub fn new(width: i32, height: i32) -> (r: Bounds)
        ensures
            r.width == width,
            r.height == height,
    {
        Bounds { width, height }
    }

    /// Both sides are positive.
    pub open spec fn valid(self) -> bool {
        self.width > 0 && self.height > 0
    }

    /// `p` lies in the half-open rectangle `[0, width) x [0, height)`.
    pub open spec fn holds(self, p: Point) -> bool {
        0 <= p.x < self.width && 0 <= p.y < self.height
    }
}

/// One coordinate moved from `a` toward `b` by `t` hundredths of the way,
/// rounded down onto the grid.
pub open spec fn lerp_coord(a: int, b: int, t: int) -> int {
    a + ((b - a) * t) / (BLEND_SCALE as int)
}

pub open spec fn lerp_point(a: Point, b: Point, t: int) -> Point {
    Point { x: lerp_coord(a.x as int, b.x as int, t) as i32, y: lerp_coord(a.y as int, b.y as int, t) as i32 }
}

/// For `0 <= t <= BLEND_SCALE` the interpolated coordinate lies between the
/// two end points.
pub proof fn lemma_lerp_coord_between(a: int, b: int, t: int)
    requires
        0 <= t <= BLEND_SCALE,
    ensures
        a <= b ==> a <= lerp_coord(a, b, t) <= b,
        b <= a ==> b <= lerp_coord(a, b, t) <= a,
{
    let s = BLEND_SCALE as int;
    if a <= b {
        assert(0 <= (b - a) * t <= (b - a) * s) by (nonlinear_arith)
            requires a <= b, 0 <= t <= s;
        assert(((b - a) * s) / s == b - a) by (nonlinear_arith)
            requires s == 100;
        vstd::arithmetic::div_mod::lemma_div_is_ordered((b - a) * t, (b - a) * s, s);
        vstd::arithmetic::div_mod::lemma_div_pos_is_pos((b - a) * t, s);
    } else {
        assert((a - b) * (-s) <= (b - a) * t <= 0) by (nonlinear_arith)
            requires b < a, 0 <= t <= s;
        assert(((a - b) * (-s)) / s == b - a) by (nonlinear_arith)
            requires s == 100;
        vstd::arithmetic::div_mod::lemma_div_is_ordered((a - b) * (-s), (b - a) * t, s);
        vstd::arithmetic::div_mod::lemma_div_is_ordered((b - a) * t, 0, s);
    }
}

/// Interpolation keeps `a` at blend `0`, reaches `b` at `BLEND_SCALE`, and
/// gives the midpoint (rounded down) at half of it.
pub proof fn lemma_lerp_ends_and_midpoint(a: Point, b: Point)
    ensures
        lerp_point(a, b, 0) == a,
        lerp_point(a, b, BLEND_SCALE as int) == b,
        lerp_point(a, b, 50).x == (a.x + b.x) / 2,
        lerp_point(a, b, 50).y == (a.y + b.y) / 2,
{
    lemma_lerp_coord_ends_and_midpoint(a.x as int, b.x as int);
    lemma_lerp_coord_ends_and_midpoint(a.y as int, b.y as int);
}

proof fn lemma_lerp_coord_ends_and_midpoint(a: int, b: int)
    ensures
        lerp_coord(a, b, 0) == a,
        lerp_coord(a, b, BLEND_SCALE as int) == b,
        lerp_coord(a, b, 50) == (a + b) / 2,
{
    let d = b - a;
    assert(d * 0 == 0) by (nonlinear_arith);
    assert((d * 100) / 100 == d) by (nonlinear_arith);
    assert((d * 50) / 100 == d / 2) by (nonlinear_arith);
    assert(a + d / 2 == (a + b) / 2) by (nonlinear_arith)
        requires d == b - a;
}

/// `a + (b - a) * t / BLEND_SCALE`, rounded down; `t` is in hundredths.
fn lerp_i32(a: i32, b: i32, t: u32) -> (r: i32)
    requires
        t <= BLEND_SCALE,
    ensures
        r == lerp_coord(a as int, b as int, t as int),
{
    proof {
        lemma_lerp_coord_between(a as int, b as int, t as int);
    }
    let d: i64 = b as i64 - a as i64;
    let t64: i64 = t as i64;
    if d >= 0 {
        assert(0 <= d * t64 <= 100 * 0x1_0000_0000) by (nonlinear_arith)
            requires 0 <= d <= 0x1_0000_0000, 0 <= t64 <= 100;
        let q: i64 = (d * t64) / 100;
        (a as i64 + q) as i32
    } else {
        let m: i64 = -d;
        assert(0 <= m * t64 <= 100 * 0x1_0000_0000) by (nonlinear_arith)
            requires 0 < m <= 0x1_0000_0000, 0 <= t64 <= 100;
        let q: i64 = (m * t64 + 99) / 100;
        proof {
            lemma_neg_div_floor(m * t64, 100);
            assert(d * t64 == -(m * t64)) by (nonlinear_arith)
                requires m == -d;
        }
        (a as i64 - q) as i32
    }
}

/// Floor division of a non-positive numerator by a positive divisor, through
/// the ceiling of its negation.
pub proof fn lemma_neg_div_floor(m: int, d: int)
    requires
        m >= 0,
        d > 0,
    ensures
        (-m) / d == -((m + d - 1) / d),
{
    let q = (m + d - 1) / d;
    let r = (m + d - 1) % d;
    vstd::arithmetic::div_mod::lemma_fundamental_div_mod(m + d - 1, d);
    assert(-m == (-q) * d + (d - 1 - r)) by (nonlinear_arith)
        requires m + d - 1 == d * q + r;
    vstd::arithmetic::div_mod::lemma_fundamental_div_mod_converse(-m, d, -q, d - 1 - r);
}

/// Moves `a` toward `b` by `t` hundredths of the way in each coordinate,
/// rounding down onto the grid.
pub fn lerp(a: Point, b: Point, t: u32) -> (r: Point)
    requires
        t <= BLEND_SCALE,
    ensures
        r == lerp_point(a, b, t as int),
        r.x == lerp_coord(a.x as int, b.x as int, t as int),
        r.y == lerp_coord(a.y as int, b.y as int, t as int),
{
    Point { x: lerp_i32(a.x, b.x, t), y: lerp_i32(a.y, b.y, t) }
}

} // verus!
