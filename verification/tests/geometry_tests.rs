use darkswing::fixed::{
    clamp_to, div_round, div_trunc, isqrt, mul_big, mul_wide, nearest_over_root, over_root,
};
use darkswing::geometry::{direction_between, distance, distance_squared, point_in_rect, Rect, Vec2};
use darkswing::object::Object;

#[test]
fn point_in_rect_includes_the_bounds() {
    let rect = Rect { x: 10, y: 20, width: 30, height: 40 };
    assert!(point_in_rect(Vec2::new(10, 20), rect));
    assert!(point_in_rect(Vec2::new(40, 60), rect));
    assert!(point_in_rect(Vec2::new(25, 35), rect));
    assert!(!point_in_rect(Vec2::new(9, 20), rect));
    assert!(!point_in_rect(Vec2::new(41, 60), rect));
    assert!(!point_in_rect(Vec2::new(10, 19), rect));
    assert!(!point_in_rect(Vec2::new(40, 61), rect));
}

#[test]
fn point_in_rect_with_extreme_values_does_not_wrap() {
    let rect = Rect { x: i64::MAX, y: 0, width: i64::MAX, height: 10 };
    assert!(point_in_rect(Vec2::new(i64::MAX, 5), rect));
    assert!(!point_in_rect(Vec2::new(0, 5), rect));
}

#[test]
fn isqrt_rounds_down() {
    assert_eq!(isqrt(0), 0);
    assert_eq!(isqrt(1), 1);
    assert_eq!(isqrt(3), 1);
    assert_eq!(isqrt(4), 2);
    assert_eq!(isqrt(99), 9);
    assert_eq!(isqrt(100), 10);
    assert_eq!(isqrt(10_167_312_933), 100_833);
    assert_eq!(isqrt(u128::MAX), u64::MAX);
}

#[test]
fn div_trunc_rounds_toward_zero() {
    assert_eq!(div_trunc(7, 2), 3);
    assert_eq!(div_trunc(-7, 2), -3);
    assert_eq!(div_trunc(0, 5), 0);
    assert_eq!(div_trunc(-1, 5), 0);
}

#[test]
fn div_round_rounds_to_nearest() {
    assert_eq!(div_round(7, 2), 4);
    assert_eq!(div_round(-7, 2), -4);
    assert_eq!(div_round(5, 10), 1);
    assert_eq!(div_round(-5, 10), -1);
    assert_eq!(div_round(4, 10), 0);
    assert_eq!(div_round(-4, 10), 0);
    assert_eq!(div_round(-1089, 100), -11);
    assert_eq!(div_round(0, 3), 0);
}

#[test]
fn nearest_over_root_takes_a_rounded_share() {
    assert_eq!(nearest_over_root(3, 1_000, 25), 600);
    assert_eq!(nearest_over_root(-4, 1_000, 25), -800);
    assert_eq!(nearest_over_root(1, 100_000, 2), 70_711);
    assert_eq!(nearest_over_root(-1, 100_000, 2), -70_711);
    assert_eq!(nearest_over_root(0, 100_000, 2), 0);
    assert_eq!(nearest_over_root(1, 0, 2), 0);
    assert_eq!(nearest_over_root(120_640, 100_000, 29_795_640_449), 69_890);
    assert_eq!(
        nearest_over_root(2_000_000_000_000, 6_000_000_000_000, 8_000_000_000_000_000_000_000_000),
        4_242_640_687_119
    );
}

#[test]
fn mul_wide_is_exact() {
    assert_eq!(mul_wide(i64::MAX, i64::MAX), (i64::MAX as i128) * (i64::MAX as i128));
    assert_eq!(mul_wide(i64::MIN, i64::MIN), (i64::MIN as i128) * (i64::MIN as i128));
    assert_eq!(mul_wide(-3, 4), -12);
}

#[test]
fn mul_big_is_exact() {
    assert_eq!(
        mul_big(40_000_000_000_000_000_000_000_000, -4_000_000_000_000),
        -160_000_000_000_000_000_000_000_000_000_000_000_000
    );
    assert_eq!(mul_big(7, 6), 42);
}

#[test]
fn clamp_to_saturates() {
    assert_eq!(clamp_to(5, 10), 5);
    assert_eq!(clamp_to(11, 10), 10);
    assert_eq!(clamp_to(-11, 10), -10);
    assert_eq!(clamp_to(i128::MAX, 10), 10);
}

#[test]
fn distance_is_the_rounded_down_length() {
    let a = Vec2::new(0, 0);
    let b = Vec2::new(3_000, 4_000);
    assert_eq!(distance_squared(a, b), 25_000_000);
    assert_eq!(distance(a, b), 5_000);
    assert_eq!(distance(b, a), 5_000);
    assert_eq!(distance(a, Vec2::new(1, 1)), 1);
    assert_eq!(distance(a, a), 0);
}

#[test]
fn direction_is_a_unit_vector() {
    let d = direction_between(Vec2::new(0, 0), Vec2::new(300_000, 400_000));
    assert_eq!(d, Vec2::new(600_000, 800_000));
    let e = direction_between(Vec2::new(1_000, 0), Vec2::new(0, 1_000));
    assert_eq!(e, Vec2::new(-707_106, 707_106));
}

#[test]
fn direction_of_a_tiny_vector_is_still_a_unit_vector() {
    let d = direction_between(Vec2::new(0, 0), Vec2::new(1, 1));
    assert_eq!(d, Vec2::new(707_106, 707_106));
    let e = direction_between(Vec2::new(0, 0), Vec2::new(-1, 0));
    assert_eq!(e, Vec2::new(-1_000_000, 0));
}

#[test]
fn over_root_takes_a_share() {
    assert_eq!(over_root(3, 1_000, 25), 600);
    assert_eq!(over_root(-4, 1_000, 25), -800);
    assert_eq!(over_root(1, 100_000, 2), 70_710);
    assert_eq!(over_root(0, 100_000, 2), 0);
    assert_eq!(over_root(1, 0, 2), 0);
}

#[test]
fn direction_of_nothing_points_right() {
    let p = Vec2::new(42, -7);
    assert_eq!(direction_between(p, p), Vec2::new(1_000_000, 0));
}

#[test]
fn object_rect_is_corner_and_size() {
    let o = Object::new(Vec2::new(1, 2), Vec2::new(3, 4));
    assert_eq!(o.get_rect(), Rect { x: 1, y: 2, width: 3, height: 4 });
    assert_eq!(o.position, Vec2::new(1, 2));
    assert_eq!(o.size, Vec2::new(3, 4));
}
