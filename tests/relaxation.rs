use stippling::controller::{Controller, RunMode};
use stippling::geometry::{Bounds, Point};
use stippling::point_set::{PointSet, StippleError};
use stippling::relax::{count_skipped, relax};
use stippling::stippler::Stippler;

fn poly(v: &[(i32, i32)]) -> Vec<Point> {
    v.iter().map(|&(x, y)| Point::new(x, y)).collect()
}

fn square(x0: i32, y0: i32, side: i32) -> Vec<Point> {
    poly(&[(x0, y0), (x0 + side, y0), (x0 + side, y0 + side), (x0, y0 + side)])
}

fn grid_cells() -> Vec<Vec<Point>> {
    vec![square(0, 0, 100), square(100, 0, 100), square(0, 100, 100), square(100, 100, 100)]
}

fn grid_points() -> Vec<Point> {
    vec![Point::new(3, 7), Point::new(190, 20), Point::new(10, 199), Point::new(101, 101)]
}

fn total_displacement(points: &[Point], centroids: &[Option<Point>]) -> i64 {
    let mut sum = 0i64;
    for (p, c) in points.iter().zip(centroids.iter()) {
        if let Some(c) = c {
            sum += (c.x as i64 - p.x as i64).abs() + (c.y as i64 - p.y as i64).abs();
        }
    }
    sum
}

#[test]
fn zero_blend_leaves_points_unchanged() {
    let pts = grid_points();
    let r = relax(&pts, &grid_cells(), 0);
    assert_eq!(r.points, pts);
    assert_eq!(r.centroids.len(), 4);
}

#[test]
fn full_blend_moves_points_onto_centroids() {
    let pts = grid_points();
    let r = relax(&pts, &grid_cells(), 100);
    let expected = vec![Point::new(50, 50), Point::new(150, 50), Point::new(50, 150), Point::new(150, 150)];
    assert_eq!(r.points, expected);
    assert_eq!(r.centroids, expected.into_iter().map(Some).collect::<Vec<_>>());
}

#[test]
fn half_blend_moves_halfway() {
    let pts = vec![Point::new(0, 0)];
    let r = relax(&pts, &vec![square(0, 0, 100)], 50);
    assert_eq!(r.points, vec![Point::new(25, 25)]);
}

#[test]
fn missing_and_degenerate_cells_are_skipped() {
    let pts = vec![Point::new(1, 1), Point::new(2, 2), Point::new(3, 3)];
    let cells = vec![poly(&[(0, 0), (5, 5)]), square(0, 0, 10)];
    let r = relax(&pts, &cells, 100);
    assert_eq!(r.points, vec![Point::new(1, 1), Point::new(5, 5), Point::new(3, 3)]);
    assert_eq!(r.centroids, vec![None, Some(Point::new(5, 5)), None]);
    assert_eq!(count_skipped(&r.centroids), 2);
    assert_eq!(count_skipped(&vec![]), 0);
}

#[test]
fn extra_cells_are_ignored() {
    let pts = vec![Point::new(1, 1)];
    let cells = vec![square(0, 0, 10), square(50, 50, 10)];
    let r = relax(&pts, &cells, 100);
    assert_eq!(r.points, vec![Point::new(5, 5)]);
    assert_eq!(r.centroids, vec![Some(Point::new(5, 5))]);
}

#[test]
fn half_blend_displacement_never_grows() {
    let cells = grid_cells();
    let mut pts = grid_points();
    let first = relax(&pts, &cells, 50);
    let mut prev = total_displacement(&pts, &first.centroids);
    for _ in 0..30 {
        let r = relax(&pts, &cells, 50);
        let now = total_displacement(&r.points, &r.centroids);
        assert!(now <= prev);
        prev = now;
        pts = r.points;
    }
    assert!(prev <= 8);
}

#[test]
fn randomize_stays_in_bounds() {
    let bounds = Bounds::new(600, 400);
    let set = PointSet::randomize(1000, bounds).unwrap();
    assert_eq!(set.len(), 1000);
    for p in set.snapshot() {
        assert!(0 <= p.x && p.x < 600);
        assert!(0 <= p.y && p.y < 400);
    }
    let tiny = PointSet::randomize(50, Bounds::new(1, 1)).unwrap();
    assert!(tiny.snapshot().iter().all(|p| *p == Point::new(0, 0)));
    assert_eq!(PointSet::randomize(0, bounds).unwrap().len(), 0);
}

#[test]
fn randomize_rejects_bad_bounds() {
    assert_eq!(PointSet::randomize(5, Bounds::new(0, 10)).err(), Some(StippleError::InvalidBounds));
    assert_eq!(PointSet::randomize(5, Bounds::new(10, -1)).err(), Some(StippleError::InvalidBounds));
    assert!(Stippler::new(5, Bounds::new(-3, 3)).is_err());
}

#[test]
fn replace_checks_size() {
    let mut set = PointSet::from_points(vec![Point::new(1, 1), Point::new(2, 2)]);
    assert_eq!(set.replace(vec![Point::new(9, 9)]), Err(StippleError::SizeMismatch));
    assert_eq!(set.snapshot(), vec![Point::new(1, 1), Point::new(2, 2)]);
    assert_eq!(set.replace(vec![Point::new(7, 7), Point::new(8, 8)]), Ok(()));
    assert_eq!(set.points(), &vec![Point::new(7, 7), Point::new(8, 8)]);
}

#[test]
fn request_step_ignored_while_running() {
    let mut c = Controller::new();
    c.request_step();
    assert_eq!(c.mode(), RunMode::Continuous);
    assert!(c.on_tick());
    assert_eq!(c.mode(), RunMode::Continuous);
}

#[test]
fn single_step_after_pause() {
    let mut c = Controller::new();
    c.toggle_pause();
    assert_eq!(c.mode(), RunMode::Paused);
    assert!(!c.on_tick());
    c.request_step();
    assert_eq!(c.mode(), RunMode::PausedStepPending);
    assert!(c.will_step());
    assert!(c.on_tick());
    assert_eq!(c.mode(), RunMode::Paused);
    assert!(!c.on_tick());
    c.request_step();
    c.toggle_pause();
    assert_eq!(c.mode(), RunMode::Continuous);
}

#[test]
fn blend_factor_is_clamped() {
    let mut c = Controller::new();
    assert_eq!(c.blend_factor(), 100);
    c.set_blend_factor(5);
    assert_eq!(c.blend_factor(), 100);
    c.set_blend_factor(-30);
    assert_eq!(c.blend_factor(), 70);
    c.set_blend_factor(i32::MIN);
    assert_eq!(c.blend_factor(), 0);
    c.set_blend_factor(i32::MAX);
    assert_eq!(c.blend_factor(), 100);
    assert_eq!(c.mode(), RunMode::Continuous);
}

#[test]
fn stippler_ticks_and_pauses() {
    let mut s = Stippler::new(4, Bounds::new(200, 200)).unwrap();
    assert_eq!(s.points().len(), 4);
    s.set_blend_factor(-50);
    let start = s.snapshot();
    assert!(s.on_tick(grid_cells()));
    let expected = relax(&start, &grid_cells(), 50);
    assert_eq!(s.snapshot(), expected.points);
    assert_eq!(s.centroids(), &expected.centroids);
    assert_eq!(s.cells(), &grid_cells());

    s.toggle_pause();
    let before = s.snapshot();
    assert!(!s.on_tick(grid_cells()));
    assert_eq!(s.snapshot(), before);

    s.request_step();
    assert!(s.on_tick(grid_cells()));
    assert_eq!(s.controller().mode(), RunMode::Paused);
    assert_eq!(s.snapshot(), relax(&before, &grid_cells(), 50).points);
    assert!(!s.on_tick(grid_cells()));
}

#[test]
fn reset_replaces_points_and_clears_last_step() {
    let mut s = Stippler::new(4, Bounds::new(200, 200)).unwrap();
    s.step(grid_cells());
    s.toggle_pause();
    assert_eq!(s.reset(10, Bounds::new(0, 5)), Err(StippleError::InvalidBounds));
    assert_eq!(s.points().len(), 4);
    assert_eq!(s.cells().len(), 4);
    assert_eq!(s.reset(10, Bounds::new(30, 20)), Ok(()));
    assert_eq!(s.points().len(), 10);
    assert!(s.points().iter().all(|p| p.x >= 0 && p.x < 30 && p.y >= 0 && p.y < 20));
    assert!(s.cells().is_empty());
    assert!(s.centroids().is_empty());
    assert_eq!(s.bounds(), Bounds::new(30, 20));
    assert_eq!(s.controller().mode(), RunMode::Paused);
}
