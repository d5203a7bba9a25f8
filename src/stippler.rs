use vstd::prelude::*;
use crate::controller::{
    clamped_blend, mode_after_request, mode_after_tick, mode_after_toggle, tick_steps, Controller, RunMode,
};
use crate::geometry::{Bounds, Point, BLEND_SCALE};
use crate::point_set::{PointSet, StippleError};
use crate::relax::{paired_centroids, relax, relaxed};

verus! {

/// The relaxation engine: the point set, the run-time parameters, and what the
/// last step computed (its cells and, per point, the centroid it used).
pub struct Stippler {
    points: PointSet,
    bounds: Bounds,
    controller: Controller,
    cells: Vec<Vec<Point>>,
    centroids: Vec<Option<Point>>,
}

impl Stippler {
    pub closed spec fn spec_points(&self) -> Seq<Point> {
        self.points@
    }

    pub closed spec fn spec_bounds(&self) -> Bounds {
        self.bounds
    }

    pub closed spec fn spec_controller(&self) -> Controller {
        self.controller
    }

    pub closed spec fn spec_cells(&self) -> Seq<Vec<Point>> {
        self.cells@
    }

    pub closed spec fn spec_centroids(&self) -> Seq<Option<Point>> {
        self.centroids@
    }

    pub open spec fn wf(&self) -> bool {
        self.spec_controller().wf()
    }

    /// `n` random points in `bounds`, running continuously at full blend.
    pub fn new(n: usize, bounds: Bounds) -> (r: Result<Stippler, StippleError>)
        ensures
            r is Err <==> !bounds.valid(),
            r is Err ==> r == Err::<Stippler, StippleError>(StippleError::InvalidBounds),
            r matches Ok(s) ==> {
                &&& s.wf()
                &&& s.spec_points().len() == n
                &&& forall|i: int| 0 <= i < n ==> bounds.holds(#[trigger] s.spec_points()[i])
                &&& s.spec_bounds() == bounds
                &&& s.spec_controller().spec_mode() == RunMode::Continuous
                &&& s.spec_controller().spec_blend() == BLEND_SCALE
                &&& s.spec_cells().len() == 0
                &&& s.spec_centroids().len() == 0
            },
    {
        match PointSet::randomize(n, bounds) {
            Ok(points) => Ok(
                Stippler {
                    points,
                    bounds,
                    controller: Controller::new(),
                    cells: Vec::new(),
                    centroids: Vec::new(),
                },
            ),
            Err(e) => Err(e),
        }
    }

    /// Replaces the points with `n` new random ones in `bounds` and forgets
    /// the last step's cells and centroids, whatever the run mode. Invalid
    /// bounds leave everything as it was.
    pub fn reset(&mut self, n: usize, bounds: Bounds) -> (r: Result<(), StippleError>)
        requires
            old(self).wf(),
        ensures
            final(self).wf(),
            r is Err <==> !bounds.valid(),
            r is Err ==> r == Err::<(), StippleError>(StippleError::InvalidBounds) && *final(self) == *old(self),
            r is Ok ==> {
                &&& final(self).spec_points().len() == n
                &&& forall|i: int| 0 <= i < n ==> bounds.holds(#[trigger] final(self).spec_points()[i])
                &&& final(self).spec_bounds() == bounds
                &&& final(self).spec_controller() == old(self).spec_controller()
                &&& final(self).spec_cells().len() == 0
                &&& final(self).spec_centroids().len() == 0
            },
    {
        match PointSet::randomize(n, bounds) {
            Ok(points) => {
                self.points = points;
                self.bounds = bounds;
                self.cells = Vec::new();
                self.centroids = Vec::new();
                Ok(())
            },
            Err(e) => Err(e),
        }
    }

    /// Runs one relaxation step over `cells` (cell `i` belongs to point `i`)
    /// at the current blend factor, whatever the run mode, and keeps the
    /// cells and centroids for display.
    pub fn step(&mut self, cells: Vec<Vec<Point>>)
        requires
            old(self).wf(),
        ensures
            final(self).wf(),
            final(self).spec_points() == relaxed(
                old(self).spec_points(),
                cells@,
                old(self).spec_controller().spec_blend(),
            ),
            final(self).spec_centroids() == paired_centroids(old(self).spec_points().len(), cells@),
            final(self).spec_cells() == cells@,
            final(self).spec_bounds() == old(self).spec_bounds(),
            final(self).spec_controller() == old(self).spec_controller(),
    {
        let blend = self.controller.blend_factor();
        let out = relax(self.points.points(), &cells, blend);
        let replaced = self.points.replace(out.points);
        proof {
            assert(replaced is Ok);
        }
        self.centroids = out.centroids;
        self.cells = cells;
    }

    /// One external tick: runs a step over `cells` when the run mode asks
    /// for one (and then consumes a pending single step); otherwise nothing
    /// changes. Returns whether a step ran.
    pub fn on_tick(&mut self, cells: Vec<Vec<Point>>) -> (stepped: bool)
        requires
            old(self).wf(),
        ensures
            final(self).wf(),
            stepped == tick_steps(old(self).spec_controller().spec_mode()),
            final(self).spec_controller().spec_mode() == mode_after_tick(old(self).spec_controller().spec_mode()),
            final(self).spec_controller().spec_blend() == old(self).spec_controller().spec_blend(),
            final(self).spec_bounds() == old(self).spec_bounds(),
            stepped ==> final(self).spec_points() == relaxed(
                old(self).spec_points(),
                cells@,
                old(self).spec_controller().spec_blend(),
            ),
            stepped ==> final(self).spec_centroids() == paired_centroids(old(self).spec_points().len(), cells@),
            stepped ==> final(self).spec_cells() == cells@,
            !stepped ==> *final(self) == *old(self),
    {
        if self.controller.on_tick() {
            self.step(cells);
            true
        } else {
            false
        }
    }

    pub fn toggle_pause(&mut self)
        requires
            old(self).wf(),
        ensures
            final(self).wf(),
            final(self).spec_controller().spec_mode() == mode_after_toggle(old(self).spec_controller().spec_mode()),
            final(self).spec_controller().spec_blend() == old(self).spec_controller().spec_blend(),
            final(self).spec_points() == old(self).spec_points(),
            final(self).spec_bounds() == old(self).spec_bounds(),
            final(self).spec_cells() == old(self).spec_cells(),
            final(self).spec_centroids() == old(self).spec_centroids(),
    {
        self.controller.toggle_pause();
    }

    pub fn request_step(&mut self)
        requires
            old(self).wf(),
        ensures
            final(self).wf(),
            final(self).spec_controller().spec_mode() == mode_after_request(old(self).spec_controller().spec_mode()),
            final(self).spec_controller().spec_blend() == old(self).spec_controller().spec_blend(),
            final(self).spec_points() == old(self).spec_points(),
            final(self).spec_bounds() == old(self).spec_bounds(),
            final(self).spec_cells() == old(self).spec_cells(),
            final(self).spec_centroids() == old(self).spec_centroids(),
    {
        self.controller.request_step();
    }

    pub fn set_blend_factor(&mut self, delta: i32)
        requires
            old(self).wf(),
        ensures
            final(self).wf(),
            final(self).spec_controller().spec_blend() == clamped_blend(
                old(self).spec_controller().spec_blend(),
                delta as int,
            ),
            final(self).spec_controller().spec_mode() == old(self).spec_controller().spec_mode(),
            final(self).spec_points() == old(self).spec_points(),
            final(self).spec_bounds() == old(self).spec_bounds(),
            final(self).spec_cells() == old(self).spec_cells(),
            final(self).spec_centroids() == old(self).spec_centroids(),
    {
        self.controller.set_blend_factor(delta);
    }

    /// A copy of the current positions, for the cell builder and renderer.
    pub fn snapshot(&self) -> (r: Vec<Point>)
        ensures
            r@ == self.spec_points(),
    {
        self.points.snapshot()
    }

    pub fn points(&self) -> (r: &Vec<Point>)
        ensures
            r@ == self.spec_points(),
    {
        self.points.points()
    }

    pub fn bounds(&self) -> (r: Bounds)
        ensures
            r == self.spec_bounds(),
    {
        self.bounds
    }

    pub fn controller(&self) -> (r: &Controller)
        ensures
            *r == self.spec_controller(),
    {
        &self.controller
    }

    /// The cells of the last step; empty after a reset.
    pub fn cells(&self) -> (r: &Vec<Vec<Point>>)
        ensures
            r@ == self.spec_cells(),
    {
        &self.cells
    }

    /// The centroid each point was moved toward in the last step; empty after
    /// a reset.
    pub fn centroids(&self) -> (r: &Vec<Option<Point>>)
        ensures
            r@ == self.spec_centroids(),
    {
        &self.centroids
    }
}

} // verus!
