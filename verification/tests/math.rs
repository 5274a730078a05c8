use neon_rush::geom::{clamp64, dist_sq, isqrt64, mul_div, sat_coord, unit_scaled, Vec2};
use neon_rush::trig::{cos_mrad, sin_mrad, wrap_angle};

#[test]
fn isqrt_on_small_values() {
    assert_eq!(isqrt64(0), 0);
    assert_eq!(isqrt64(1), 1);
    assert_eq!(isqrt64(15), 3);
    assert_eq!(isqrt64(16), 4);
    assert_eq!(isqrt64(2_000_000), 1414);
}

#[test]
fn mul_div_truncates_toward_zero() {
    assert_eq!(mul_div(7, 1, 2), 3);
    assert_eq!(mul_div(-7, 1, 2), -3);
    assert_eq!(mul_div(5, 0, 3), 0);
    assert_eq!(mul_div(-1500, 2, 1000), -3);
}

#[test]
fn clamping() {
    assert_eq!(clamp64(5, 0, 10), 5);
    assert_eq!(clamp64(-5, 0, 10), 0);
    assert_eq!(clamp64(15, 0, 10), 10);
    assert_eq!(sat_coord(2_000_000_000), 1_000_000_000);
    assert_eq!(sat_coord(-2_000_000_000), -1_000_000_000);
}

#[test]
fn unit_vector_of_a_three_four_five_triangle() {
    let u = unit_scaled(3000, 4000);
    assert_eq!(u, Vec2 { x: 600, y: 800 });
    let v = unit_scaled(-3000, 4000);
    assert_eq!(v, Vec2 { x: -600, y: 800 });
}

#[test]
fn distance_squared() {
    let a = Vec2 { x: 3_000, y: 0 };
    let b = Vec2 { x: 0, y: 4_000 };
    assert_eq!(dist_sq(&a, &b), 25_000_000);
}

#[test]
fn sine_and_cosine_fixed_points() {
    assert_eq!(sin_mrad(0), 0);
    assert_eq!(sin_mrad(1571), 1000);
    assert_eq!(cos_mrad(0), 1000);
    // half a turn onward the sine flips sign
    assert_eq!(sin_mrad(1571 + 3142), -1000);
}

#[test]
fn sine_stays_scaled_within_one() {
    let mut a: i64 = -50_000;
    while a <= 50_000 {
        let s = sin_mrad(a);
        assert!(-1000 <= s && s <= 1000);
        let c = cos_mrad(a);
        assert!(-1000 <= c && c <= 1000);
        a += 379;
    }
}

#[test]
fn wrap_angle_into_one_turn() {
    assert_eq!(wrap_angle(0), 0);
    assert_eq!(wrap_angle(6283), 0);
    assert_eq!(wrap_angle(6284), 1);
    assert_eq!(wrap_angle(-1), 6282);
    assert_eq!(wrap_angle(-6283), 0);
}
