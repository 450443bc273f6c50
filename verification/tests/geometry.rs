use castle_fight::geometry::{abs_diff, isqrt, step_towards, travel_distance, Point};
use castle_fight::grid_traits::{snap_coordinate, SnapToGrid};

#[test]
fn abs_diff_spans_the_whole_range() {
    assert_eq!(abs_diff(3, 10), 7);
    assert_eq!(abs_diff(10, 3), 7);
    assert_eq!(abs_diff(i32::MIN, i32::MAX), 4_294_967_295);
}

#[test]
fn distance_squared_is_exact() {
    let a = Point { x: 0, y: 0 };
    let b = Point { x: 3_000, y: -4_000 };
    assert_eq!(a.distance_squared(b), 25_000_000);
    assert_eq!(b.distance_squared(a), 25_000_000);
    let far = Point { x: i32::MIN, y: i32::MIN };
    let opposite = Point { x: i32::MAX, y: i32::MAX };
    assert_eq!(far.distance_squared(opposite), 2 * 4_294_967_295u128 * 4_294_967_295u128);
}

#[test]
fn range_boundary_is_inclusive_and_arrival_is_strict() {
    let a = Point { x: 0, y: 0 };
    let b = Point { x: 3_000, y: 4_000 };
    assert!(a.within(b, 5_000));
    assert!(!a.within(b, 4_999));
    assert!(!a.closer_than(b, 5_000));
    assert!(a.closer_than(b, 5_001));
}

#[test]
fn isqrt_rounds_down() {
    assert_eq!(isqrt(0), 0);
    assert_eq!(isqrt(1), 1);
    assert_eq!(isqrt(3), 1);
    assert_eq!(isqrt(4), 2);
    assert_eq!(isqrt(24), 4);
    assert_eq!(isqrt(25), 5);
    assert_eq!(isqrt(1_000_000_000_000), 1_000_000);
    assert_eq!(isqrt(u128::MAX), u64::MAX);
}

#[test]
fn travel_is_speed_times_time() {
    // 96 units per second for a sixtieth of a second.
    assert_eq!(travel_distance(96_000, 16_667), 1_600);
    assert_eq!(travel_distance(96_000, 1_000_000), 96_000);
    assert_eq!(travel_distance(0, 1_000_000), 0);
    assert_eq!(travel_distance(96_000, 0), 0);
}

#[test]
fn step_moves_along_the_line() {
    let from = Point { x: 0, y: 0 };
    let to = Point { x: 3_000, y: 4_000 };
    assert_eq!(step_towards(from, to, 1_000), Point { x: 600, y: 800 });
    assert_eq!(step_towards(from, to, 2_500), Point { x: 1_500, y: 2_000 });
    let back = Point { x: -3_000, y: -4_000 };
    assert_eq!(step_towards(from, back, 1_000), Point { x: -600, y: -800 });
}

#[test]
fn step_never_overshoots() {
    let from = Point { x: 0, y: 0 };
    let to = Point { x: 3_000, y: 4_000 };
    assert_eq!(step_towards(from, to, 5_000), to);
    assert_eq!(step_towards(from, to, 9_999_999), to);
    assert_eq!(step_towards(to, to, 10), to);
    assert_eq!(step_towards(from, to, 0), from);
}

#[test]
fn snapping_goes_to_the_nearest_grid_point() {
    assert_eq!(snap_coordinate(0, 32_000), 0);
    assert_eq!(snap_coordinate(15_999, 32_000), 0);
    assert_eq!(snap_coordinate(16_000, 32_000), 32_000);
    assert_eq!(snap_coordinate(47_999, 32_000), 32_000);
    assert_eq!(snap_coordinate(-15_999, 32_000), 0);
    assert_eq!(snap_coordinate(-16_000, 32_000), -32_000);
    assert_eq!(snap_coordinate(-40_000, 32_000), -32_000);
    assert_eq!(snap_coordinate(7, 0), 7);
}

#[test]
fn snapping_stays_in_range() {
    // The nearest multiple of 2_000_000_000 to i32::MAX does not fit.
    assert_eq!(snap_coordinate(i32::MAX, 2_000_000_000), 2_000_000_000);
    assert_eq!(snap_coordinate(i32::MIN, 2_000_000_000), -2_000_000_000);
    assert_eq!(snap_coordinate(i32::MAX, 3_000_000_000), 0);
}

#[test]
fn points_snap_by_coordinate() {
    let p = Point { x: 33_000, y: -70_000 };
    assert_eq!(p.snap_to_grid(32_000), Point { x: 32_000, y: -64_000 });
}
