//! Tests of the global rotation state: norm boundedness over long runs and
//! the axis-angle advance itself.

use planetoid_core::fx::FX_ONE;
use planetoid_core::planetoid::{planetoid_rotation, PlanetoidRotation};
use planetoid_core::quat::QuatFx;

fn fx(x: f64) -> i64 {
    (x * 1e8).round() as i64
}

fn fl(v: i64) -> f64 {
    v as f64 / 1e8
}

fn norm(q: QuatFx) -> f64 {
    let (x, y, z, w) = (fl(q.x), fl(q.y), fl(q.z), fl(q.w));
    (x * x + y * y + z * z + w * w).sqrt()
}

#[test]
fn rotation_norm_bounded_over_ten_thousand_ticks() {
    let mut r = PlanetoidRotation::new();
    let dt = fx(0.016);
    for _ in 0..10_000 {
        planetoid_rotation(&mut r, dt);
        let n = norm(r.0);
        assert!(n >= 1.0 - 1e-4 && n <= 1.0 + 1e-4, "norm drifted to {n}");
    }
}

#[test]
fn rotation_advance_matches_axis_angle() {
    // One tick of a whole second: a rotation of 0.1 rad about the unit
    // diagonal.
    let mut r = PlanetoidRotation::new();
    planetoid_rotation(&mut r, FX_ONE);
    let half = 0.05f64;
    let d = 1.0 / 3.0f64.sqrt();
    let s = half.sin();
    assert!((fl(r.0.w) - half.cos()).abs() < 1e-6);
    assert!((fl(r.0.x) - d * s).abs() < 1e-6);
    assert!((fl(r.0.y) - d * s).abs() < 1e-6);
    assert!((fl(r.0.z) - d * s).abs() < 1e-6);
}

#[test]
fn rotation_zero_dt_is_identity() {
    let mut r = PlanetoidRotation::new();
    planetoid_rotation(&mut r, 0);
    assert_eq!(r.0, QuatFx { x: 0, y: 0, z: 0, w: FX_ONE });
}

#[test]
fn rotation_composes_across_ticks() {
    // Two half-second ticks land where one full-second tick does, within
    // rounding of the composition.
    let mut a = PlanetoidRotation::new();
    planetoid_rotation(&mut a, FX_ONE);
    let mut b = PlanetoidRotation::new();
    planetoid_rotation(&mut b, FX_ONE / 2);
    planetoid_rotation(&mut b, FX_ONE / 2);
    assert!((fl(a.0.x) - fl(b.0.x)).abs() < 1e-6);
    assert!((fl(a.0.y) - fl(b.0.y)).abs() < 1e-6);
    assert!((fl(a.0.z) - fl(b.0.z)).abs() < 1e-6);
    assert!((fl(a.0.w) - fl(b.0.w)).abs() < 1e-6);
}
