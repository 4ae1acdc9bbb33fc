//! Geometry and velocity-law behaviour on concrete values.

use mercenaries::geom::{
    check_point_collision, close_enough, distance, ease_speed, get_straightline_velocity,
    get_translate_from_position, isqrt, Point,
};

#[test]
fn isqrt_exact_values() {
    assert_eq!(isqrt(0), 0);
    assert_eq!(isqrt(1), 1);
    assert_eq!(isqrt(3), 1);
    assert_eq!(isqrt(4), 2);
    assert_eq!(isqrt(999_999), 999);
    assert_eq!(isqrt(1_000_000), 1000);
    assert_eq!(isqrt(u64::MAX), 4_294_967_295);
}

#[test]
fn distance_is_euclidean() {
    let a = Point { x: 0, y: 0 };
    let b = Point { x: 3000, y: 4000 };
    assert_eq!(distance(a, b), 5000);
    assert_eq!(distance(b, a), 5000);
    assert_eq!(distance(a, a), 0);
    // rounded down
    let c = Point { x: 1000, y: 1000 };
    assert_eq!(distance(a, c), 1414);
}

#[test]
fn ease_speed_curve_points() {
    // slope five near the target
    assert_eq!(ease_speed(0), 0);
    assert_eq!(ease_speed(1), 5);
    assert_eq!(ease_speed(1000), 5000);
    // half the cap at a tenth of the distance constant
    assert_eq!(ease_speed(13_750), 68_750);
    // levels off just below the distance constant
    assert_eq!(ease_speed(137_500), 137_366);
    assert_eq!(ease_speed(10_000_000), 137_366);
}

#[test]
fn velocity_points_at_target() {
    let v = get_straightline_velocity(Point { x: 500, y: 0 }, Point { x: 0, y: 0 });
    assert_eq!((v.x, v.y), (2500, 0));
    let v = get_straightline_velocity(Point { x: 0, y: -500 }, Point { x: 0, y: 0 });
    assert_eq!((v.x, v.y), (0, -2500));
    // at the target the velocity vanishes
    let v = get_straightline_velocity(Point { x: 70, y: 70 }, Point { x: 70, y: 70 });
    assert_eq!((v.x, v.y), (0, 0));
}

#[test]
fn velocity_caps_far_away() {
    let v = get_straightline_velocity(Point { x: 150_000, y: 0 }, Point { x: 0, y: 0 });
    assert_eq!((v.x, v.y), (137_366, 0));
}

#[test]
fn velocity_snaps_small_component_to_axis_gap() {
    // the y component eases below one unit per second, so it snaps to the
    // remaining y gap instead of dying to zero
    let v = get_straightline_velocity(Point { x: 200_000, y: 800 }, Point { x: 0, y: 0 });
    assert_eq!(v.y, 800);
    assert!(v.x >= 1000);
}

#[test]
fn close_enough_is_a_strict_band() {
    assert!(close_enough(5, 6, 2));
    assert!(close_enough(6, 5, 2));
    assert!(!close_enough(5, 8, 2));
    assert!(!close_enough(5, 7, 2));
    assert!(close_enough(40_500, 40_000, 1000));
    assert!(!close_enough(41_000, 40_000, 1000));
}

#[test]
fn translate_centers_the_window() {
    assert_eq!(get_translate_from_position(0, 0), (-400_000, 225_000));
    assert_eq!(get_translate_from_position(400_000, 225_000), (0, 0));
    assert_eq!(get_translate_from_position(800_000, 450_000), (400_000, -225_000));
}

#[test]
fn point_collision_uses_half_extents() {
    let sz = Point { x: 10_000, y: 10_000 };
    let center = Point { x: 100_000, y: 100_000 };
    assert!(check_point_collision(Point { x: 100_000, y: 100_000 }, center, sz));
    assert!(check_point_collision(Point { x: 104_000, y: 96_001 }, center, sz));
    // the boundary itself is outside
    assert!(!check_point_collision(Point { x: 105_000, y: 100_000 }, center, sz));
    assert!(!check_point_collision(Point { x: 100_000, y: 95_000 }, center, sz));
    assert!(!check_point_collision(Point { x: 120_000, y: 100_000 }, center, sz));
}
