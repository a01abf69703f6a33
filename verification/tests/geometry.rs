// Geometry kernel tests. Coordinates are in thousandths of a world unit,
// so the unit segment of the closest-point scenarios becomes (0,0)-(1000,1000).

use triplace::point::Point;
use triplace::segment::LineSegment;
use triplace::triangle::Triangle;
use triplace::rotation::Rotation;
use triplace::region::Region;

fn pt(x: i64, y: i64) -> Point {
    Point { x, y }
}

fn dist2_between(p: Point, q: Point) -> i64 {
    (q.x - p.x) * (q.x - p.x) + (q.y - p.y) * (q.y - p.y)
}

#[test]
fn closest_point() {
    let line = LineSegment { from: pt(0, 0), to: pt(1000, 1000) };
    assert_eq!(line.closest_point_to(&pt(0, 0)), pt(0, 0));
    assert_eq!(line.closest_point_to(&pt(-1000, 0)), pt(0, 0));
    assert_eq!(line.closest_point_to(&pt(2000, 2000)), pt(1000, 1000));
    // Within 0.01 world units, that is 10 grid units, squared 100.
    assert!(dist2_between(line.closest_point_to(&pt(900, 900)), pt(900, 900)) < 100);
    assert!(dist2_between(line.closest_point_to(&pt(0, 1000)), pt(500, 500)) < 100);
}

#[test]
fn closest_point_midpoint_exact() {
    let line = LineSegment { from: pt(0, 0), to: pt(1000, 1000) };
    assert_eq!(line.closest_point_to(&pt(0, 1000)), pt(500, 500));
    assert_eq!(line.closest_point_to(&pt(900, 900)), pt(900, 900));
}

#[test]
fn segment_distance_zero_on_segment() {
    let line = LineSegment { from: pt(0, 0), to: pt(1000, 1000) };
    // A point of the segment: distance exactly zero.
    let d = line.distance_sq_to(&pt(400, 400));
    assert!(d.is_zero());
    // Both endpoints lie on the segment.
    assert!(line.distance_sq_to(&pt(0, 0)).is_zero());
    assert!(line.distance_sq_to(&pt(1000, 1000)).is_zero());
    // A point off the segment: positive distance.
    let d = line.distance_sq_to(&pt(0, 1000));
    assert!(!d.is_zero());
    assert!(d.num > 0);
    // Perpendicular squared distance from (0,1000) to the diagonal is
    // 500^2 + 500^2 = 500000: num/den == 500000 exactly.
    assert_eq!(d.num, 500_000 * d.den);
}

#[test]
fn segment_distance_degenerate() {
    // A zero-length segment: the distance collapses to point-to-point.
    let line = LineSegment { from: pt(200, 300), to: pt(200, 300) };
    let d = line.distance_sq_to(&pt(230, 340));
    assert_eq!(d.den, 1);
    assert_eq!(d.num, 30 * 30 + 40 * 40);
    assert!(line.distance_sq_to(&pt(200, 300)).is_zero());
}

#[test]
fn triangle_center_exact() {
    let t = Triangle { a: pt(0, 0), b: pt(3000, 0), c: pt(0, 3000) };
    let g = t.center();
    assert_eq!(g, pt(1000, 1000));
}

#[test]
fn triangle_contains_point_exact() {
    let t = Triangle { a: pt(0, 0), b: pt(4000, 0), c: pt(0, 4000) };
    assert!(t.contains_point(&pt(1000, 1000)));
    // The boundary counts as contained.
    assert!(t.contains_point(&pt(2000, 0)));
    assert!(t.contains_point(&pt(0, 0)));
    assert!(!t.contains_point(&pt(4000, 4000)));
    assert!(!t.contains_point(&pt(-1, 0)));
}

#[test]
fn triangle_distance_zero_iff_intersects() {
    let t1 = Triangle { a: pt(0, 0), b: pt(4000, 0), c: pt(0, 4000) };
    // Overlapping triangle: intersects, distance zero.
    let t2 = Triangle { a: pt(1000, 1000), b: pt(5000, 1000), c: pt(1000, 5000) };
    assert!(t1.intersects(&t2));
    assert!(t1.distance_sq_to(&t2).is_zero());
    // Touching at one vertex: still intersecting, distance zero.
    let t3 = Triangle { a: pt(4000, 0), b: pt(8000, 0), c: pt(4000, 4000) };
    assert!(t1.intersects(&t3));
    assert!(t1.distance_sq_to(&t3).is_zero());
    // Disjoint triangle: no intersection, positive distance.
    let t4 = Triangle { a: pt(10_000, 0), b: pt(14_000, 0), c: pt(10_000, 4000) };
    assert!(!t1.intersects(&t4));
    let d = t1.distance_sq_to(&t4);
    assert!(!d.is_zero());
    // Nearest pair: (4000,0) against (10000,0), gap 6000, squared 36000000.
    assert_eq!(d.num, 36_000_000 * d.den);
}

#[test]
fn triangle_distance_to_self_zero() {
    let t = Triangle { a: pt(100, 200), b: pt(4100, 250), c: pt(2100, 3200) };
    assert!(t.distance_sq_to(&t).is_zero());
    // Even a degenerate triangle intersects itself.
    let flat = Triangle { a: pt(0, 0), b: pt(1000, 1000), c: pt(2000, 2000) };
    assert!(flat.distance_sq_to(&flat).is_zero());
}

#[test]
fn rotation_quarter_turn_exact() {
    // Half-angle tangent 1: a quarter turn, exactly.
    let r = Rotation::from_half_tan(1, 1);
    assert_eq!((r.c, r.s, r.m), (0, 2, 2));
    let t = Triangle { a: pt(100, 0), b: pt(200, 0), c: pt(100, 50) };
    let o = pt(0, 0);
    let u = t.rotate_about(&o, &r);
    assert_eq!(u.a, pt(0, 100));
    assert_eq!(u.b, pt(0, 200));
    assert_eq!(u.c, pt(-50, 100));
}

#[test]
fn rotation_round_trip_about_center() {
    // Half-angle tangent 1/2: the 3-4-5 rotation. Rotating about the
    // centroid and back returns each vertex within the rounding of the
    // grid (well under any visible tolerance).
    let r = Rotation::from_half_tan(1, 2);
    assert_eq!((r.c, r.s, r.m), (3, 4, 5));
    let t = Triangle { a: pt(10_000, 20_000), b: pt(14_500, 20_300), c: pt(12_000, 23_000) };
    let g = t.center();
    let spun = t.rotate_about(&g, &r);
    let back = spun.rotate_about(&g, &r.inverse());
    for (p, q) in [(t.a, back.a), (t.b, back.b), (t.c, back.c)] {
        assert!((p.x - q.x).abs() <= 3, "x drift: {} vs {}", p.x, q.x);
        assert!((p.y - q.y).abs() <= 3, "y drift: {} vs {}", p.y, q.y);
    }
}

#[test]
fn triangle_boundary_distance_of_interior_point() {
    // Distance measures the boundary, not the filled interior: a point
    // strictly inside has a positive distance to the nearest edge.
    let t = Triangle { a: pt(0, 0), b: pt(4000, 0), c: pt(0, 4000) };
    let p = pt(1000, 1000);
    assert!(t.contains_point(&p));
    let d = t.distance_sq_to_point(&p);
    assert!(!d.is_zero());
    // The nearest edges are the two legs, one unit away: squared 1000000.
    assert_eq!(d.num, 1_000_000 * d.den);
    // A point on an edge has distance zero to the boundary.
    assert!(t.distance_sq_to_point(&pt(2000, 0)).is_zero());
}

#[test]
fn degenerate_triangle_distance_queries() {
    // Collinear vertices: the queries fall back to segment behaviour
    // rather than failing.
    let flat = Triangle { a: pt(0, 0), b: pt(2000, 0), c: pt(4000, 0) };
    assert!(flat.distance_sq_to_point(&pt(1000, 0)).is_zero());
    let d = flat.distance_sq_to_point(&pt(1000, 500));
    assert_eq!(d.num, 250_000 * d.den);
    let other = Triangle { a: pt(0, 2000), b: pt(4000, 2000), c: pt(2000, 5000) };
    let dd = flat.distance_sq_to(&other);
    assert_eq!(dd.num, 4_000_000 * dd.den);
}

#[test]
fn bounding_box_of_skewed_polygon() {
    let poly = Region::new(vec![pt(5000, -2000), pt(-3000, 4000), pt(7000, 9000), pt(100, 500)]);
    let (lo, hi) = poly.bounding_box();
    assert_eq!(lo, pt(-3000, -2000));
    assert_eq!(hi, pt(7000, 9000));
}

#[test]
fn region_membership_and_bounding_box() {
    // The unit square of side 100 world units.
    let square = Region::new(vec![pt(0, 0), pt(100_000, 0), pt(100_000, 100_000), pt(0, 100_000)]);
    assert!(square.contains_point(&pt(50_000, 50_000)));
    assert!(square.contains_point(&pt(1, 1)));
    assert!(!square.contains_point(&pt(-1, 50_000)));
    assert!(!square.contains_point(&pt(150_000, 50_000)));
    assert!(!square.contains_point(&pt(50_000, 150_000)));
    let (lo, hi) = square.bounding_box();
    assert_eq!(lo, pt(0, 0));
    assert_eq!(hi, pt(100_000, 100_000));
    let inside = Triangle { a: pt(10_000, 10_000), b: pt(20_000, 10_000), c: pt(15_000, 20_000) };
    assert!(square.contains_triangle(&inside));
    let sticking_out = Triangle { a: pt(90_000, 90_000), b: pt(110_000, 90_000), c: pt(95_000, 95_000) };
    assert!(!square.contains_triangle(&sticking_out));
}

#[test]
fn region_concave_membership() {
    // An L-shaped region: the notch is outside.
    let ell = Region::new(vec![
        pt(0, 0),
        pt(100_000, 0),
        pt(100_000, 50_000),
        pt(50_000, 50_000),
        pt(50_000, 100_000),
        pt(0, 100_000),
    ]);
    assert!(ell.contains_point(&pt(25_000, 75_000)));
    assert!(ell.contains_point(&pt(75_000, 25_000)));
    assert!(!ell.contains_point(&pt(75_000, 75_000)));
}
