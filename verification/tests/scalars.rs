//! The fixed-point scalar and vector operations against their
//! floating-point counterparts.

use fieldtrace::fx::{fx_add, fx_sub, fx_mul, fx_div, fx_ln, fx_atan_ratio, isqrt, ONE};
use fieldtrace::vec2::{V2, v_len, v_norm, v_dot, v_perp};

fn fx(v: f64) -> i64 {
    (v * 65536.0).round() as i64
}

fn fl(v: i64) -> f64 {
    v as f64 / 65536.0
}

#[test]
fn one_is_the_scale() {
    assert_eq!(ONE, 65536);
}

#[test]
fn mul_exact_on_representable_product() {
    assert_eq!(fx_mul(fx(1.5), fx(2.5)), Some(fx(3.75)));
    assert_eq!(fx_mul(fx(-1.5), fx(2.5)), Some(fx(-3.75)));
}

#[test]
fn mul_overflow_is_none() {
    assert_eq!(fx_mul(i64::MAX, i64::MAX), None);
}

#[test]
fn div_exact_and_by_zero_none() {
    assert_eq!(fx_div(fx(3.0), fx(2.0)), Some(fx(1.5)));
    assert_eq!(fx_div(fx(3.0), 0), None);
}

#[test]
fn add_sub_checked() {
    assert_eq!(fx_add(fx(1.0), fx(2.0)), Some(fx(3.0)));
    assert_eq!(fx_add(i64::MAX, 1), None);
    assert_eq!(fx_sub(fx(1.0), fx(4.0)), Some(fx(-3.0)));
}

#[test]
fn isqrt_is_the_floor_root() {
    assert_eq!(isqrt(0), 0);
    assert_eq!(isqrt(1), 1);
    assert_eq!(isqrt(15), 3);
    assert_eq!(isqrt(16), 4);
    assert_eq!(isqrt(10_000_000_000_000_000_000_000u128), 100_000_000_000);
    assert_eq!(isqrt(9_999_999_999_999_999_999_999u128), 99_999_999_999);
}

#[test]
fn ln_matches_float_log() {
    for &v in &[0.01f64, 0.5, 1.0, 2.0, 7.3, 100.0, 5000.0] {
        let got: f64 = fl(fx_ln(fx(v)).unwrap());
        let want: f64 = v.ln();
        assert!((got - want).abs() < 1e-3, "ln({v}): {got} vs {want}");
    }
}

#[test]
fn atan_matches_float_atan() {
    for &(n, d) in &[(0.5f64, 1.0f64), (1.0, 2.0), (3.0, 1.0), (-2.0, 5.0), (4.0, -3.0)] {
        let got: f64 = fl(fx_atan_ratio(fx(n), fx(d)));
        let want: f64 = (n / d).atan();
        assert!((got - want).abs() < 1e-3, "atan({n}/{d}): {got} vs {want}");
    }
}

#[test]
fn atan_of_zero_denominator_is_a_quarter_turn() {
    let got: f64 = fl(fx_atan_ratio(fx(2.0), 0));
    assert!((got - std::f64::consts::FRAC_PI_2).abs() < 1e-3);
    let got_neg: f64 = fl(fx_atan_ratio(fx(-2.0), 0));
    assert!((got_neg + std::f64::consts::FRAC_PI_2).abs() < 1e-3);
    assert_eq!(fx_atan_ratio(0, 0), 0);
}

#[test]
fn vector_length_and_norm() {
    let v = V2 { x: fx(3.0), y: fx(4.0) };
    assert_eq!(v_len(v), Some(fx(5.0)));
    let u = v_norm(v).unwrap();
    assert!((fl(u.x) - 0.6).abs() < 1e-4);
    assert!((fl(u.y) - 0.8).abs() < 1e-4);
    assert_eq!(v_norm(V2 { x: 0, y: 0 }), None);
}

#[test]
fn dot_and_perp() {
    let a = V2 { x: fx(2.0), y: fx(1.0) };
    let b = V2 { x: fx(3.0), y: fx(-4.0) };
    assert_eq!(v_dot(a, b), Some(fx(2.0)));
    let p = v_perp(a).unwrap();
    assert_eq!(p, V2 { x: fx(-1.0), y: fx(2.0) });
    assert_eq!(v_dot(a, p), Some(0));
}
