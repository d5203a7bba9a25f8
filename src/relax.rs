use vstd::prelude::*;
use crate::centroid::{cell_centroid, centroid_of};
use crate::geometry::{lemma_lerp_coord_between, lerp, lerp_coord, lerp_point, Point, BLEND_SCALE};

verus! {

/// The centroid paired with point `i`: that of cell `i`, where there is such
/// a cell and it has one.
pub open spec fn paired_centroid(cells: Seq<Vec<Point>>, i: int) -> Option<Point> {
    if 0 <= i < cells.len() {
        cell_centroid(cells[i]@)
    } else {
        None
    }
}

/// The centroid paired with each of the first `n` points.
pub open spec fn paired_centroids(n: nat, cells: Seq<Vec<Point>>) -> Seq<Option<Point>> {
    Seq::new(n, |i: int| paired_centroid(cells, i))
}

/// `p` moved `t` hundredths of the way toward `c`, or left where it is when
/// there is no centroid.
pub open spec fn moved(p: Point, c: Option<Point>, t: int) -> Point {
    match c {
        Some(c) => lerp_point(p, c, t),
        None => p,
    }
}

/// The positions after one relaxation step with blend factor `t`.
pub open spec fn relaxed(points: Seq<Point>, cells: Seq<Vec<Point>>, t: int) -> Seq<Point> {
    Seq::new(points.len(), |i: int| moved(points[i], paired_centroid(cells, i), t))
}

pub open spec fn abs(v: int) -> int {
    if v < 0 {
        -v
    } else {
        v
    }
}

/// Grid (Manhattan) distance from `p` to its centroid `c`; zero without one.
pub open spec fn displacement(p: Point, c: Option<Point>) -> int {
    match c {
        Some(c) => abs(c.x - p.x) + abs(c.y - p.y),
        None => 0,
    }
}

/// Summed distance of the first `n` points to the centroids of their cells.
pub open spec fn total_displacement(points: Seq<Point>, cells: Seq<Vec<Point>>, n: nat) -> int
    decreases n,
{
    if n == 0 {
        0
    } else {
        total_displacement(points, cells, (n - 1) as nat) + displacement(
            points[n - 1],
            paired_centroid(cells, n - 1),
        )
    }
}

/// What one relaxation step produced: the new positions and, for each point,
/// the centroid it was moved toward.
pub struct Relaxation {
    pub points: Vec<Point>,
    pub centroids: Vec<Option<Point>>,
}

/// One Lloyd relaxation step: point `i` moves `blend` hundredths of the way
/// toward the centroid of cell `i`. A point without a cell, or whose cell is
/// degenerate, keeps its position; cells beyond the points are ignored.
pub fn relax(points: &Vec<Point>, cells: &Vec<Vec<Point>>, blend: u32) -> (r: Relaxation)
    requires
        blend <= BLEND_SCALE,
    ensures
        r.points@ == relaxed(points@, cells@, blend as int),
        r.centroids@ == paired_centroids(points@.len(), cells@),
{
    let n = points.len();
    let mut out: Vec<Point> = Vec::with_capacity(n);
    let mut cents: Vec<Option<Point>> = Vec::with_capacity(n);
    let mut i: usize = 0;
    while i < n
        invariant
            n == points@.len(),
            blend <= BLEND_SCALE,
            i <= n,
            out@ =~= relaxed(points@, cells@, blend as int).take(i as int),
            cents@ =~= paired_centroids(n as nat, cells@).take(i as int),
        decreases n - i,
    {
        let c: Option<Point> = if i < cells.len() {
            match centroid_of(&cells[i]) {
                Some(cc) => Some(cc.centroid),
                None => None,
            }
        } else {
            None
        };
        let p = points[i];
        let q = match c {
            Some(c) => lerp(p, c, blend),
            None => p,
        };
        out.push(q);
        cents.push(c);
        i = i + 1;
    }
    Relaxation { points: out, centroids: cents }
}

/// How many of the first `n` entries carry no centroid.
pub open spec fn count_skipped_upto(centroids: Seq<Option<Point>>, n: nat) -> nat
    decreases n,
{
    if n == 0 {
        0
    } else {
        count_skipped_upto(centroids, (n - 1) as nat) + if centroids[n - 1] is None {
            1nat
        } else {
            0nat
        }
    }
}

/// The number of points a step left in place for want of a centroid.
pub fn count_skipped(centroids: &Vec<Option<Point>>) -> (r: usize)
    ensures
        r == count_skipped_upto(centroids@, centroids@.len()),
{
    let mut count: usize = 0;
    let mut i: usize = 0;
    while i < centroids.len()
        invariant
            i <= centroids@.len(),
            count == count_skipped_upto(centroids@, i as nat),
            count <= i,
        decreases centroids@.len() - i,
    {
        if centroids[i].is_none() {
            count = count + 1;
        }
        i = i + 1;
    }
    count
}

/// With blend factor `0` a step leaves every point where it is.
pub proof fn lemma_zero_blend_keeps_points(points: Seq<Point>, cells: Seq<Vec<Point>>)
    ensures
        relaxed(points, cells, 0) == points,
{
    assert forall|i: int| 0 <= i < points.len() implies #[trigger] relaxed(points, cells, 0)[i] == points[i] by {
        let p = points[i];
        if let Some(c) = paired_centroid(cells, i) {
            assert((c.x - p.x) * 0 == 0 && (c.y - p.y) * 0 == 0) by (nonlinear_arith);
        }
    }
    assert(relaxed(points, cells, 0) =~= points);
}

/// With blend factor `BLEND_SCALE` a step puts every point that has a
/// centroid exactly onto it; the others stay.
pub proof fn lemma_full_blend_reaches_centroids(points: Seq<Point>, cells: Seq<Vec<Point>>)
    ensures
        forall|i: int| 0 <= i < points.len() ==> #[trigger] relaxed(points, cells, BLEND_SCALE as int)[i] == (
        match paired_centroid(cells, i) {
            Some(c) => c,
            None => points[i],
        }),
{
    assert forall|i: int| 0 <= i < points.len() implies #[trigger] relaxed(points, cells, BLEND_SCALE as int)[i] == (
    match paired_centroid(cells, i) {
        Some(c) => c,
        None => points[i],
    }) by {
        let p = points[i];
        if let Some(c) = paired_centroid(cells, i) {
            let (dx, dy) = (c.x - p.x, c.y - p.y);
            assert((dx * 100) / 100 == dx) by (nonlinear_arith);
            assert((dy * 100) / 100 == dy) by (nonlinear_arith);
        }
    }
}

proof fn lemma_moved_displacement(p: Point, c: Option<Point>, t: int)
    requires
        0 <= t <= BLEND_SCALE,
    ensures
        displacement(moved(p, c, t), c) <= displacement(p, c),
{
    if let Some(c) = c {
        lemma_lerp_coord_between(p.x as int, c.x as int, t);
        lemma_lerp_coord_between(p.y as int, c.y as int, t);
    }
}

/// A step never increases the summed distance from the points to the
/// centroids they were moved toward, for any blend factor in range: every
/// point ends no farther from its centroid, in each coordinate, than it
/// started.
pub proof fn lemma_step_never_increases_displacement(
    points: Seq<Point>,
    cells: Seq<Vec<Point>>,
    t: int,
    n: nat,
)
    requires
        0 <= t <= BLEND_SCALE,
        n <= points.len(),
    ensures
        total_displacement(relaxed(points, cells, t), cells, n) <= total_displacement(points, cells, n),
    decreases n,
{
    if n > 0 {
        lemma_step_never_increases_displacement(points, cells, t, (n - 1) as nat);
        lemma_moved_displacement(points[n - 1], paired_centroid(cells, n - 1), t);
    }
}

} // verus!
