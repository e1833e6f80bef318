use paddleball::fixed::UNIT;
use paddleball::geometry::{
    circle_intersects_line_segment, circle_intersects_triangle, triangle_contains, Vector2,
};

fn vec2(x: i64, y: i64) -> Vector2 {
    Vector2::new(x, y)
}

/// A coordinate given in tenths of the unit length.
fn tenths(n: i64) -> i64 {
    n * UNIT / 10
}

#[test]
fn triangle_contains_works() {
    assert!(triangle_contains(
        vec2(tenths(1), tenths(1)),
        vec2(0, 0),
        vec2(UNIT, 0),
        vec2(0, UNIT)
    ));

    assert!(!triangle_contains(
        vec2(UNIT, UNIT),
        vec2(0, 0),
        vec2(UNIT, 0),
        vec2(0, UNIT)
    ));

    assert!(!triangle_contains(
        vec2(-tenths(1), -tenths(1)),
        vec2(0, 0),
        vec2(UNIT, 0),
        vec2(0, UNIT)
    ));
}

#[test]
fn circle_intersects_line_segment_works() {
    assert!(circle_intersects_line_segment(
        vec2(0, 0),
        UNIT,
        vec2(-UNIT, -UNIT),
        vec2(UNIT, UNIT)
    ));

    assert!(circle_intersects_line_segment(
        vec2(0, 0),
        UNIT,
        vec2(0, 0),
        vec2(UNIT, UNIT)
    ));

    assert!(circle_intersects_line_segment(
        vec2(0, 0),
        UNIT,
        vec2(0, 0),
        vec2(tenths(1), tenths(1))
    ));

    assert!(!circle_intersects_line_segment(
        vec2(0, 0),
        UNIT,
        vec2(0, 2 * UNIT),
        vec2(0, 2 * UNIT)
    ));
}

#[test]
fn centroid_lies_inside_either_winding() {
    let (a, b, c) = (vec2(-3, -7), vec2(12, 1), vec2(0, 9));
    let g = vec2(3, 1);
    assert!(triangle_contains(g, a, b, c));
    assert!(triangle_contains(g, a, c, b));
    assert!(triangle_contains(g, c, b, a));
}

#[test]
fn triangle_with_vertical_and_horizontal_edges() {
    // right angle at the origin, legs along the axes
    let (a, b, c) = (vec2(0, 0), vec2(0, 10), vec2(10, 0));
    assert!(triangle_contains(vec2(2, 2), a, b, c));
    assert!(!triangle_contains(vec2(-1, 2), a, b, c));
    assert!(!triangle_contains(vec2(2, -1), a, b, c));
    assert!(!triangle_contains(vec2(6, 6), a, b, c));
}

#[test]
fn degenerate_segment_is_a_point_test() {
    let a = vec2(3, 4);
    // distance 5 from the origin
    assert!(circle_intersects_line_segment(vec2(0, 0), 5, a, a));
    assert!(!circle_intersects_line_segment(vec2(0, 0), 4, a, a));
    assert!(circle_intersects_line_segment(a, 0, a, a));
    assert!(!circle_intersects_line_segment(a, -1, a, a));
}

#[test]
fn segment_closest_point_cases() {
    let a = vec2(0, 0);
    let b = vec2(10, 0);
    // beside the middle: the foot of the perpendicular
    assert!(circle_intersects_line_segment(vec2(5, 3), 3, a, b));
    assert!(!circle_intersects_line_segment(vec2(5, 3), 2, a, b));
    // beyond the end b: distance to b is 5
    assert!(circle_intersects_line_segment(vec2(13, 4), 5, a, b));
    assert!(!circle_intersects_line_segment(vec2(13, 4), 4, a, b));
    // before the end a: distance to a is 5
    assert!(circle_intersects_line_segment(vec2(-4, -3), 5, a, b));
    assert!(!circle_intersects_line_segment(vec2(-4, -3), 4, a, b));
}

#[test]
fn circle_with_center_inside_meets_triangle_at_radius_zero() {
    let (a, b, c) = (vec2(0, 0), vec2(UNIT, 0), vec2(0, UNIT));
    assert!(circle_intersects_triangle(vec2(tenths(2), tenths(2)), 0, a, b, c));
}

#[test]
fn circle_outside_meets_triangle_only_through_an_edge() {
    let (a, b, c) = (vec2(0, 0), vec2(10, 0), vec2(0, 10));
    assert!(circle_intersects_triangle(vec2(5, -2), 2, a, b, c));
    assert!(!circle_intersects_triangle(vec2(5, -2), 1, a, b, c));
    assert!(!circle_intersects_triangle(vec2(20, 20), 5, a, b, c));
}
