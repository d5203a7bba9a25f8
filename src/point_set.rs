use vstd::prelude::*;
use crate::geometry::{Bounds, Point};

verus! {

/// Structural misconfiguration reported to the caller; the state it was
/// reported against is left as it was.
#[derive(Clone, Copy, Debug, PartialEq, Eq, Structural)]
pub enum StippleError {
    /// A width or height that is not positive.
    InvalidBounds,
    /// A replacement whose length differs from the population size.
    SizeMismatch,
}

/// Relies on `macroquad::rand::gen_range` (quad-rand) on `i32`: it scales a
/// draw from `[0, 1)` onto `[low, high)` and truncates, so with `low == 0`
/// and `high > 0` the result lies in `[0, high)`.
#[verifier::external_body]
fn random_below(high: i32) -> (r: i32)
    requires
        0 < high,
    ensures
        0 <= r < high,
{
    macroquad::rand::gen_range(0i32, high)
}

/// The ordered positions being relaxed; a point's index is its identity.
pub struct PointSet {
    points: Vec<Point>,
}

impl View for PointSet {
    type V = Seq<Point>;

    closed spec fn view(&self) -> Seq<Point> {
        self.points@
    }
}

impl PointSet {
    /// Draws `n` points uniformly from `[0, width) x [0, height)`.
    pub fn randomize(n: usize, bounds: Bounds) -> (r: Result<PointSet, StippleError>)
        ensures
            r is Err <==> !bounds.valid(),
            r is Err ==> r == Err::<PointSet, StippleError>(StippleError::InvalidBounds),
            r matches Ok(s) ==> s@.len() == n && forall|i: int| 0 <= i < n ==> bounds.holds(#[trigger] s@[i]),
    {
        if bounds.width <= 0 || bounds.height <= 0 {
            return Err(StippleError::InvalidBounds);
        }
        let mut points: Vec<Point> = Vec::with_capacity(n);
        let mut i: usize = 0;
        while i < n
            invariant
                bounds.valid(),
                i <= n,
                points@.len() == i,
                forall|j: int| 0 <= j < i ==> bounds.holds(#[trigger] points@[j]),
            decreases n - i,
        {
            let x = random_below(bounds.width);
            let y = random_below(bounds.height);
            points.push(Point { x, y });
            i = i + 1;
        }
        Ok(PointSet { points })
    }

    /// A point set holding exactly `points`.
    pub fn from_points(points: Vec<Point>) -> (r: PointSet)
        ensures
            r@ == points@,
    {
        PointSet { points }
    }

    /// The population size.
    pub fn len(&self) -> (r: usize)
        ensures
            r == self@.len(),
    {
        self.points.len()
    }

    /// Swaps in `new_points` whole; refused when its length differs.
    pub fn replace(&mut self, new_points: Vec<Point>) -> (r: Result<(), StippleError>)
        ensures
            r is Ok <==> new_points@.len() == old(self)@.len(),
            r is Ok ==> final(self)@ == new_points@,
            r is Err ==> r == Err::<(), StippleError>(StippleError::SizeMismatch) && final(self)@ == old(self)@,
    {
        if new_points.len() != self.points.len() {
            return Err(StippleError::SizeMismatch);
        }
        self.points = new_points;
        Ok(())
    }

    /// A copy of the current positions.
    pub fn snapshot(&self) -> (r: Vec<Point>)
        ensures
            r@ == self@,
    {
        self.points.clone()
    }

    /// The current positions, read-only.
    pub fn points(&self) -> (r: &Vec<Point>)
        ensures
            r@ == self@,
    {
        &self.points
    }
}

} // verus!
