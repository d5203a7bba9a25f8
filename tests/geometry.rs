use stippling::centroid::{centroid_of, double_signed_area, CellCentroid, MAX_CELL_VERTICES};
use stippling::geometry::{lerp, Point};

fn poly(v: &[(i32, i32)]) -> Vec<Point> {
    v.iter().map(|&(x, y)| Point::new(x, y)).collect()
}

#[test]
fn test_lerp() {
    let a = Point::new(0, 0);
    let b = Point::new(10, 10);

    let result = lerp(a, b, 50);
    assert_eq!(result.x, 5);
    assert_eq!(result.y, 5);

    let result = lerp(a, b, 0);
    assert_eq!(result.x, 0);
    assert_eq!(result.y, 0);

    let result = lerp(a, b, 100);
    assert_eq!(result.x, 10);
    assert_eq!(result.y, 10);
}

#[test]
fn lerp_is_linear_and_rounds_down() {
    assert_eq!(lerp(Point::new(0, 0), Point::new(10, 10), 25), Point::new(2, 2));
    assert_eq!(lerp(Point::new(-7, 20), Point::new(13, -40), 30), Point::new(-1, 2));
    assert_eq!(lerp(Point::new(0, 0), Point::new(3, -3), 50), Point::new(1, -2));
    assert_eq!(lerp(Point::new(10, 0), Point::new(0, 0), 50), Point::new(5, 0));
}

#[test]
fn lerp_ends_and_midpoint_on_extremes() {
    let a = Point::new(i32::MIN, i32::MAX);
    let b = Point::new(i32::MAX, i32::MIN);
    assert_eq!(lerp(a, b, 0), a);
    assert_eq!(lerp(a, b, 100), b);
    assert_eq!(lerp(a, b, 50), Point::new(-1, -1));
}

#[test]
fn square_centroid_is_its_center() {
    let sq = poly(&[(0, 0), (10, 0), (10, 10), (0, 10)]);
    assert_eq!(
        centroid_of(&sq),
        Some(CellCentroid { centroid: Point::new(5, 5), double_area: 200 })
    );
    assert_eq!(double_signed_area(&sq), 200);
}

#[test]
fn clockwise_square_has_negative_area_same_centroid() {
    let sq = poly(&[(0, 0), (0, 10), (10, 10), (10, 0)]);
    assert_eq!(
        centroid_of(&sq),
        Some(CellCentroid { centroid: Point::new(5, 5), double_area: -200 })
    );
    assert_eq!(double_signed_area(&sq), -200);
}

#[test]
fn triangle_centroid_rounds_down() {
    let t = poly(&[(0, 0), (6, 0), (0, 6)]);
    assert_eq!(centroid_of(&t).unwrap().centroid, Point::new(2, 2));
    assert_eq!(centroid_of(&t).unwrap().double_area, 36);
    let t = poly(&[(0, 0), (7, 1), (3, 5)]);
    assert_eq!(centroid_of(&t), Some(CellCentroid { centroid: Point::new(3, 2), double_area: 32 }));
}

#[test]
fn extreme_square_centroid() {
    let (lo, hi) = (i32::MIN, i32::MAX);
    let sq = poly(&[(lo, lo), (hi, lo), (hi, hi), (lo, hi)]);
    let c = centroid_of(&sq).unwrap();
    assert_eq!(c.centroid, Point::new(-1, -1));
    assert_eq!(c.double_area, 36893488130239234050);
}

#[test]
fn degenerate_cells_have_no_centroid() {
    assert_eq!(centroid_of(&poly(&[])), None);
    assert_eq!(centroid_of(&poly(&[(3, 4)])), None);
    assert_eq!(centroid_of(&poly(&[(0, 0), (10, 5)])), None);
    assert_eq!(centroid_of(&poly(&[(0, 0), (10, 5), (0, 0), (10, 5)])), None);
    assert_eq!(centroid_of(&poly(&[(0, 0), (5, 5), (10, 10)])), None);
    assert_eq!(centroid_of(&poly(&[(1, 2), (1, 2), (1, 2)])), None);
    assert_eq!(double_signed_area(&poly(&[(0, 0), (5, 5), (10, 10), (-3, -3)])), 0);
}

#[test]
fn oversized_cell_has_no_centroid() {
    let mut v = poly(&[(0, 0), (10, 0), (10, 10)]);
    while v.len() <= MAX_CELL_VERTICES {
        v.push(Point::new(0, 10));
    }
    assert_eq!(centroid_of(&v), None);
    assert_eq!(double_signed_area(&v), 200);
}
