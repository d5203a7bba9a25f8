use vstd::prelude::*;
use crate::geometry::Point;

verus! {

/// Cells with more vertices than this are not summed: beyond it the exact
/// moment sums could leave the range of `i128`.
pub const MAX_CELL_VERTICES: usize = 1048576;

/// A cell's centroid on the grid, with twice the cell's signed area.
#[derive(Clone, Copy, Debug, PartialEq, Eq, Structural)]
pub struct CellCentroid {
    pub centroid: Point,
    pub double_area: i128,
}

/// Index of the vertex after `i` in a closed polygon of `len` vertices.
pub open spec fn next_index(len: int, i: int) -> int {
    if i + 1 == len {
        0
    } else {
        i + 1
    }
}

/// The cross product `a x b` of two grid positions taken as vectors.
pub open spec fn cross(a: Point, b: Point) -> int {
    a.x * b.y - b.x * a.y
}

/// The shoelace term of the edge leaving vertex `i`.
pub open spec fn edge_cross(poly: Seq<Point>, i: int) -> int {
    cross(poly[i], poly[next_index(poly.len() as int, i)])
}

/// Shoelace sum over the edges leaving vertices `0..n`.
pub open spec fn double_area_upto(poly: Seq<Point>, n: nat) -> int
    decreases n,
{
    if n == 0 {
        0
    } else {
        double_area_upto(poly, (n - 1) as nat) + edge_cross(poly, n - 1)
    }
}

/// First moment in `x` over the edges leaving vertices `0..n`.
pub open spec fn moment_x_upto(poly: Seq<Point>, n: nat) -> int
    decreases n,
{
    if n == 0 {
        0
    } else {
        let i = n - 1;
        moment_x_upto(poly, (n - 1) as nat) + (poly[i].x + poly[next_index(poly.len() as int, i)].x)
            * edge_cross(poly, i)
    }
}

/// First moment in `y` over the edges leaving vertices `0..n`.
pub open spec fn moment_y_upto(poly: Seq<Point>, n: nat) -> int
    decreases n,
{
    if n == 0 {
        0
    } else {
        let i = n - 1;
        moment_y_upto(poly, (n - 1) as nat) + (poly[i].y + poly[next_index(poly.len() as int, i)].y)
            * edge_cross(poly, i)
    }
}

/// Twice the signed area of the closed polygon (shoelace formula); positive
/// for counter-clockwise vertices in a y-up frame.
pub open spec fn double_area(poly: Seq<Point>) -> int {
    double_area_upto(poly, poly.len())
}

/// `moment / (3 * area2)` rounded down, for `area2 != 0`.
pub open spec fn centroid_coord(moment: int, area2: int) -> int {
    if area2 > 0 {
        moment / (3 * area2)
    } else {
        (-moment) / (-3 * area2)
    }
}

pub open spec fn fits_i32(v: int) -> bool {
    i32::MIN <= v <= i32::MAX
}

/// The centroid of a cell polygon, rounded down onto the grid; `None` for a
/// degenerate cell (under three vertices, or zero area), for a cell with more
/// than `MAX_CELL_VERTICES` vertices, and for one whose centroid lies off the
/// `i32` grid.
pub open spec fn cell_centroid(poly: Seq<Point>) -> Option<Point> {
    let a2 = double_area(poly);
    if poly.len() < 3 || poly.len() > MAX_CELL_VERTICES || a2 == 0 {
        None
    } else {
        let cx = centroid_coord(moment_x_upto(poly, poly.len()), a2);
        let cy = centroid_coord(moment_y_upto(poly, poly.len()), a2);
        if fits_i32(cx) && fits_i32(cy) {
            Some(Point { x: cx as i32, y: cy as i32 })
        } else {
            None
        }
    }
}

pub proof fn lemma_cross_bound(a: Point, b: Point)
    ensures
        -0x8000_0000_0000_0000 <= cross(a, b) <= 0x8000_0000_0000_0000,
{
    let (ax, ay, bx, by) = (a.x as int, a.y as int, b.x as int, b.y as int);
    assert(-0x4000_0000_0000_0000 <= ax * by <= 0x4000_0000_0000_0000) by (nonlinear_arith)
        requires -0x8000_0000 <= ax <= 0x8000_0000, -0x8000_0000 <= by <= 0x8000_0000;
    assert(-0x4000_0000_0000_0000 <= bx * ay <= 0x4000_0000_0000_0000) by (nonlinear_arith)
        requires -0x8000_0000 <= bx <= 0x8000_0000, -0x8000_0000 <= ay <= 0x8000_0000;
}

proof fn lemma_moment_term_bound(s: int, c: int)
    requires
        -0x1_0000_0000 <= s <= 0x1_0000_0000,
        -0x8000_0000_0000_0000 <= c <= 0x8000_0000_0000_0000,
    ensures
        -0x8000_0000_0000_0000_0000_0000 <= s * c <= 0x8000_0000_0000_0000_0000_0000,
{
    assert(-0x8000_0000_0000_0000_0000_0000 <= s * c <= 0x8000_0000_0000_0000_0000_0000)
        by (nonlinear_arith)
        requires
            -0x1_0000_0000 <= s <= 0x1_0000_0000,
            -0x8000_0000_0000_0000 <= c <= 0x8000_0000_0000_0000,
    ;
}

/// `a - o` and `b - o` are parallel (either may be zero).
pub open spec fn colinear3(o: Point, a: Point, b: Point) -> bool {
    (a.x - o.x) * (b.y - o.y) - (a.y - o.y) * (b.x - o.x) == 0
}

/// Every vertex lies on one line through the first vertex.
pub open spec fn all_colinear(poly: Seq<Point>) -> bool {
    forall|i: int, j: int|
        0 <= i < poly.len() && 0 <= j < poly.len() ==> #[trigger] colinear3(poly[0], poly[i], poly[j])
}

/// Every vertex of the polygon is `a` or `b`.
pub open spec fn vertices_among(poly: Seq<Point>, a: Point, b: Point) -> bool {
    forall|i: int| 0 <= i < poly.len() ==> #[trigger] poly[i] == a || poly[i] == b
}

/// The polygon has at most two distinct vertices.
pub open spec fn at_most_two_distinct(poly: Seq<Point>) -> bool {
    exists|a: Point, b: Point| #[trigger] vertices_among(poly, a, b)
}

proof fn lemma_triangle_cross(o: Point, a: Point, b: Point)
    ensures
        cross(o, a) + cross(a, b) - cross(o, b) == (a.x - o.x) * (b.y - o.y) - (a.y - o.y) * (b.x - o.x),
{
    let (ox, oy, ax, ay, bx, by) = (o.x as int, o.y as int, a.x as int, a.y as int, b.x as int, b.y as int);
    assert(ox * ay - ax * oy + ax * by - bx * ay - (ox * by - bx * oy) == (ax - ox) * (by - oy) - (ay - oy) * (bx - ox))
        by (nonlinear_arith);
}

proof fn lemma_colinear_prefix(poly: Seq<Point>, n: nat)
    requires
        all_colinear(poly),
        n < poly.len(),
    ensures
        double_area_upto(poly, n) == cross(poly[0], poly[n as int]),
    decreases n,
{
    if n == 0 {
        assert(cross(poly[0], poly[0]) == 0) by (nonlinear_arith);
    } else {
        let m = (n - 1) as nat;
        lemma_colinear_prefix(poly, m);
        assert(colinear3(poly[0], poly[m as int], poly[n as int]));
        lemma_triangle_cross(poly[0], poly[m as int], poly[n as int]);
    }
}

/// A degenerate cell has no centroid: one with under three vertices, with at
/// most two distinct vertices, or with all of its vertices on one line.
pub proof fn lemma_degenerate_cell_has_no_centroid(poly: Seq<Point>)
    requires
        poly.len() < 3 || at_most_two_distinct(poly) || all_colinear(poly),
    ensures
        cell_centroid(poly).is_none(),
{
    if poly.len() >= 3 {
        if !all_colinear(poly) {
            let (a, b) = choose|a: Point, b: Point| #[trigger] vertices_among(poly, a, b);
            assert forall|i: int, j: int| 0 <= i < poly.len() && 0 <= j < poly.len() implies
                #[trigger] colinear3(poly[0], poly[i], poly[j]) by {
                let (o, p, q) = (poly[0], poly[i], poly[j]);
                assert(o == a || o == b);
                assert(p == a || p == b);
                assert(q == a || q == b);
                if p == o {
                    assert((p.x - o.x) * (q.y - o.y) == 0 && (p.y - o.y) * (q.x - o.x) == 0) by (nonlinear_arith)
                        requires p.x == o.x, p.y == o.y;
                } else if q == o {
                    assert((p.x - o.x) * (q.y - o.y) == 0 && (p.y - o.y) * (q.x - o.x) == 0) by (nonlinear_arith)
                        requires q.x == o.x, q.y == o.y;
                } else {
                    assert(p == q);
                    assert((p.x - o.x) * (q.y - o.y) - (p.y - o.y) * (q.x - o.x) == 0) by (nonlinear_arith)
                        requires p.x == q.x, p.y == q.y;
                }
            }
        }
        let last = (poly.len() - 1) as nat;
        lemma_colinear_prefix(poly, last);
        let (p, q) = (poly[0], poly[last as int]);
        assert(cross(p, q) + cross(q, p) == 0) by (nonlinear_arith);
        assert(double_area(poly) == 0);
    }
}

/// The shoelace term `a x b`, computed exactly.
fn cross_i128(a: Point, b: Point) -> (r: i128)
    ensures
        r == cross(a, b),
{
    proof {
        lemma_cross_bound(a, b);
        let (ax, ay, bx, by) = (a.x as int, a.y as int, b.x as int, b.y as int);
        assert(-0x4000_0000_0000_0000 <= ax * by <= 0x4000_0000_0000_0000) by (nonlinear_arith)
            requires -0x8000_0000 <= ax <= 0x8000_0000, -0x8000_0000 <= by <= 0x8000_0000;
        assert(-0x4000_0000_0000_0000 <= bx * ay <= 0x4000_0000_0000_0000) by (nonlinear_arith)
            requires -0x8000_0000 <= bx <= 0x8000_0000, -0x8000_0000 <= ay <= 0x8000_0000;
    }
    (a.x as i128) * (b.y as i128) - (b.x as i128) * (a.y as i128)
}

/// Twice the signed area of the closed polygon `poly` (shoelace formula).
pub fn double_signed_area(poly: &Vec<Point>) -> (r: i128)
    ensures
        r == double_area(poly@),
{
    let k = poly.len();
    let mut acc: i128 = 0;
    let mut i: usize = 0;
    while i < k
        invariant
            k == poly@.len(),
            i <= k,
            acc == double_area_upto(poly@, i as nat),
            -(i as int) * 0x8000_0000_0000_0000 <= acc <= (i as int) * 0x8000_0000_0000_0000,
        decreases k - i,
    {
        let j: usize = if i + 1 == k { 0 } else { i + 1 };
        let c = cross_i128(poly[i], poly[j]);
        proof {
            lemma_cross_bound(poly@[i as int], poly@[j as int]);
            assert(k < 0x1_0000_0000_0000_0000);
        }
        acc = acc + c;
        i = i + 1;
    }
    acc
}

/// `n / d` rounded down, for a positive divisor.
fn floor_div(n: i128, d: i128) -> (q: i128)
    requires
        d > 0,
        -0x100_0000_0000_0000_0000_0000_0000_0000 <= n <= 0x100_0000_0000_0000_0000_0000_0000_0000,
        d <= 0x100_0000_0000_0000_0000_0000_0000_0000,
    ensures
        q == n / d,
{
    if n >= 0 {
        n / d
    } else {
        let m: i128 = -n;
        proof {
            crate::geometry::lemma_neg_div_floor(m as int, d as int);
            vstd::arithmetic::div_mod::lemma_div_pos_is_pos((m + d - 1) as int, d as int);
            vstd::arithmetic::div_mod::lemma_div_is_ordered_by_denominator((m + d - 1) as int, 1, d as int);
        }
        -((m + d - 1) / d)
    }
}

/// The centroid of the closed polygon `poly` by the shoelace formula, with
/// twice its signed area; `None` where `cell_centroid` has none.
pub fn centroid_of(poly: &Vec<Point>) -> (r: Option<CellCentroid>)
    ensures
        r.is_some() == cell_centroid(poly@).is_some(),
        r.is_some() ==> r.unwrap().centroid == cell_centroid(poly@).unwrap(),
        r.is_some() ==> r.unwrap().double_area == double_area(poly@),
{
    let k = poly.len();
    if k < 3 || k > MAX_CELL_VERTICES {
        return None;
    }
    let mut a2: i128 = 0;
    let mut mx: i128 = 0;
    let mut my: i128 = 0;
    let mut i: usize = 0;
    let bound: i128 = 0x8000_0000_0000_0000_0000_0000;
    while i < k
        invariant
            k == poly@.len(),
            3 <= k <= MAX_CELL_VERTICES,
            i <= k,
            bound == 0x8000_0000_0000_0000_0000_0000,
            a2 == double_area_upto(poly@, i as nat),
            mx == moment_x_upto(poly@, i as nat),
            my == moment_y_upto(poly@, i as nat),
            -(i as int) * 0x8000_0000_0000_0000 <= a2 <= (i as int) * 0x8000_0000_0000_0000,
            -(i as int) * bound <= mx <= (i as int) * bound,
            -(i as int) * bound <= my <= (i as int) * bound,
        decreases k - i,
    {
        let j: usize = if i + 1 == k { 0 } else { i + 1 };
        let v0 = poly[i];
        let v1 = poly[j];
        let c = cross_i128(v0, v1);
        proof {
            lemma_cross_bound(v0, v1);
            lemma_moment_term_bound(v0.x + v1.x, c as int);
            lemma_moment_term_bound(v0.y + v1.y, c as int);
        }
        a2 = a2 + c;
        mx = mx + (v0.x as i128 + v1.x as i128) * c;
        my = my + (v0.y as i128 + v1.y as i128) * c;
        i = i + 1;
    }
    if a2 == 0 {
        return None;
    }
    proof {
        assert(-(k as int) * bound >= -0x100_0000_0000_0000_0000_0000_0000_0000) by (nonlinear_arith)
            requires k <= 0x10_0000, bound == 0x8000_0000_0000_0000_0000_0000;
        assert((k as int) * 0x8000_0000_0000_0000 <= 0x8000_0000_0000_0000_0000_0000) by (nonlinear_arith)
            requires k <= 0x10_0000;
    }
    let (nx, ny, den) = if a2 > 0 {
        (mx, my, 3 * a2)
    } else {
        (-mx, -my, -3 * a2)
    };
    let cx = floor_div(nx, den);
    let cy = floor_div(ny, den);
    if cx < i32::MIN as i128 || cx > i32::MAX as i128 || cy < i32::MIN as i128 || cy > i32::MAX as i128 {
        return None;
    }
    Some(CellCentroid { centroid: Point { x: cx as i32, y: cy as i32 }, double_area: a2 })
}

} // verus!
