use routeguide::Point;
use routeguide::Rectangle;

fn pt(latitude: i32, longitude: i32) -> Point {
    Point { latitude, longitude }
}

#[test]
fn contains_inside_box() {
    let rect = Rectangle { lo: Some(pt(0, 0)), hi: Some(pt(10, 10)) };
    assert!(rect.contains(&pt(5, 5)));
}

#[test]
fn contains_normalizes_swapped_corners() {
    let rect = Rectangle { lo: Some(pt(10, 10)), hi: Some(pt(0, 0)) };
    assert!(rect.contains(&pt(5, 5)));
}

#[test]
fn contains_bounds_are_inclusive() {
    let rect = Rectangle { lo: Some(pt(0, 0)), hi: Some(pt(10, 10)) };
    assert!(rect.contains(&pt(0, 0)));
    assert!(rect.contains(&pt(10, 10)));
    assert!(rect.contains(&pt(0, 10)));
    assert!(!rect.contains(&pt(11, 5)));
    assert!(!rect.contains(&pt(5, -1)));
}

#[test]
fn contains_nothing_without_a_corner() {
    let no_hi = Rectangle { lo: Some(pt(0, 0)), hi: None };
    let no_lo = Rectangle { lo: None, hi: Some(pt(10, 10)) };
    let no_corners = Rectangle { lo: None, hi: None };
    assert!(!no_hi.contains(&pt(5, 5)));
    assert!(!no_lo.contains(&pt(5, 5)));
    assert!(!no_corners.contains(&pt(5, 5)));
}

#[test]
fn contains_negative_coordinates() {
    let rect = Rectangle { lo: Some(pt(-10, -10)), hi: Some(pt(-2, -2)) };
    assert!(rect.contains(&pt(-5, -5)));
    assert!(!rect.contains(&pt(0, 0)));
}

#[test]
fn distance_three_four_five() {
    let d = pt(0, 0).distance_between(&pt(3, 4));
    assert_eq!(d, 5);
    assert_eq!(d as f64, 5.0);
}

#[test]
fn distance_is_symmetric_here() {
    assert_eq!(pt(3, 4).distance_between(&pt(0, 0)), 5);
}

#[test]
fn distance_truncates_toward_zero() {
    assert_eq!(pt(0, 0).distance_between(&pt(1, 1)), 1);
    assert_eq!(pt(0, 0).distance_between(&pt(2, 3)), 3);
}

#[test]
fn distance_zero_for_same_point() {
    assert_eq!(pt(7, -9).distance_between(&pt(7, -9)), 0);
}

#[test]
fn distance_axis_aligned() {
    assert_eq!(pt(0, 0).distance_between(&pt(0, 10)), 10);
    assert_eq!(pt(-5, 0).distance_between(&pt(5, 0)), 10);
}

#[test]
fn distance_extreme_coordinates() {
    let d = pt(i32::MIN, i32::MIN).distance_between(&pt(i32::MAX, i32::MAX));
    // Both axes differ by 2^32 - 1, so the distance is (2^32 - 1) * sqrt(2),
    // truncated toward zero.
    assert_eq!(d, 6074000998);
}
