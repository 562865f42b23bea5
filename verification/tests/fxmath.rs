//! Tests of the fixed-point scalar layer: exact rounding, clipping, square
//! roots, and the accuracy of the trigonometric approximations.

use planetoid_core::fx::{fx_add, fx_div, fx_half, fx_mul, fx_sub, sqrt_fx, FX_LIM, FX_ONE};
use planetoid_core::trig::{acos_fx, atan2_fx, cos_fx, sin_fx, FX_HALF_PI, FX_PI, FX_TWO_PI};

fn fx(x: f64) -> i64 {
    (x * 1e8).round() as i64
}

fn fl(v: i64) -> f64 {
    v as f64 / 1e8
}

#[test]
fn fx_mul_exact_values() {
    assert_eq!(fx_mul(FX_ONE, FX_ONE), FX_ONE);
    assert_eq!(fx_mul(FX_ONE / 2, FX_ONE / 2), 25_000_000);
    assert_eq!(fx_mul(-FX_ONE, 5_000_000), -5_000_000);
    assert_eq!(fx_mul(3 * FX_ONE, -2 * FX_ONE), -6 * FX_ONE);
    assert_eq!(fx_mul(0, 123_456), 0);
}

#[test]
fn fx_mul_rounds_to_nearest() {
    // 0.00000001 * 0.5 = 0.000000005 rounds away from zero.
    assert_eq!(fx_mul(1, FX_ONE / 2), 1);
    assert_eq!(fx_mul(-1, FX_ONE / 2), -1);
    // 0.00000001 * 0.4 rounds down to zero.
    assert_eq!(fx_mul(1, 40_000_000), 0);
}

#[test]
fn fx_mul_saturates() {
    assert_eq!(fx_mul(FX_LIM, FX_LIM), FX_LIM);
    assert_eq!(fx_mul(FX_LIM, -FX_LIM), -FX_LIM);
}

#[test]
fn fx_add_sub_saturate() {
    assert_eq!(fx_add(FX_LIM, FX_LIM), FX_LIM);
    assert_eq!(fx_sub(-FX_LIM, FX_LIM), -FX_LIM);
    assert_eq!(fx_add(1, 2), 3);
    assert_eq!(fx_sub(1, 2), -1);
}

#[test]
fn fx_div_exact_values() {
    assert_eq!(fx_div(FX_ONE, FX_ONE), FX_ONE);
    assert_eq!(fx_div(FX_ONE, 2 * FX_ONE), FX_ONE / 2);
    assert_eq!(fx_div(-3 * FX_ONE, 2 * FX_ONE), -150_000_000);
}

#[test]
fn fx_half_rounds_away_from_zero() {
    assert_eq!(fx_half(7), 4);
    assert_eq!(fx_half(-7), -4);
    assert_eq!(fx_half(8), 4);
    assert_eq!(fx_half(0), 0);
}

#[test]
fn sqrt_exact_squares() {
    assert_eq!(sqrt_fx(0), 0);
    assert_eq!(sqrt_fx(FX_ONE), FX_ONE);
    assert_eq!(sqrt_fx(4 * FX_ONE), 2 * FX_ONE);
    assert_eq!(sqrt_fx(25 * FX_ONE), 5 * FX_ONE);
}

#[test]
fn sqrt_matches_float() {
    for k in 1..200u32 {
        let v = k as f64 * 0.37;
        let got = fl(sqrt_fx(fx(v)));
        assert!((got - v.sqrt()).abs() < 1e-7, "sqrt({v}) = {got}");
    }
}

#[test]
fn sin_cos_match_float() {
    for k in -100..100i32 {
        let x = k as f64 * 0.073;
        let s = fl(sin_fx(fx(x)));
        let c = fl(cos_fx(fx(x)));
        assert!((s - x.sin()).abs() < 2e-6, "sin({x}) = {s}");
        assert!((c - x.cos()).abs() < 2e-6, "cos({x}) = {c}");
    }
}

#[test]
fn sin_cos_exact_at_zero() {
    assert_eq!(sin_fx(0), 0);
    assert_eq!(cos_fx(0), FX_ONE);
}

#[test]
fn trig_constants_are_consistent() {
    assert_eq!(2 * FX_HALF_PI, FX_PI);
    assert_eq!(2 * FX_PI, FX_TWO_PI);
    assert!((fl(FX_PI) - std::f64::consts::PI).abs() < 1e-7);
}

#[test]
fn atan2_matches_float() {
    for ky in -7..8i32 {
        for kx in -7..8i32 {
            if ky == 0 && kx == 0 {
                continue;
            }
            let y = ky as f64 * 0.31;
            let x = kx as f64 * 0.27;
            let got = fl(atan2_fx(fx(y), fx(x)));
            let want = y.atan2(x);
            assert!((got - want).abs() < 2e-6, "atan2({y}, {x}) = {got}, want {want}");
        }
    }
}

#[test]
fn atan2_edge_values() {
    assert_eq!(atan2_fx(0, 0), 0);
    assert_eq!(atan2_fx(0, FX_ONE), 0);
    assert_eq!(atan2_fx(FX_ONE, 0), FX_HALF_PI);
    assert_eq!(atan2_fx(0, -FX_ONE), FX_PI);
    assert_eq!(atan2_fx(-FX_ONE, 0), -FX_HALF_PI);
}

#[test]
fn acos_matches_float() {
    for k in -100..=100i32 {
        let c = k as f64 / 100.0;
        let got = fl(acos_fx(fx(c)));
        assert!((got - c.acos()).abs() < 1e-5, "acos({c}) = {got}");
    }
}

#[test]
fn acos_edge_values_and_clamping() {
    assert_eq!(acos_fx(FX_ONE), 0);
    assert_eq!(acos_fx(-FX_ONE), FX_PI);
    assert_eq!(acos_fx(0), FX_HALF_PI);
    // Out-of-domain cosines are clamped, not propagated.
    assert_eq!(acos_fx(2 * FX_ONE), 0);
    assert_eq!(acos_fx(-2 * FX_ONE), FX_PI);
}
