//! Tests of the spherical coordinate model: round-tripping away from the
//! poles, pole canonicalization, and degenerate-input guarding.

use planetoid_core::fx::{FX_ONE, FX_HALF};
use planetoid_core::transform::{
    cartesian_to_normalized_sphere, normalized_sphere_to_cartesian, SphereCoords,
};
use planetoid_core::vec3::Vec3Fx;

fn fx(x: f64) -> i64 {
    (x * 1e8).round() as i64
}

fn fl(v: i64) -> f64 {
    v as f64 / 1e8
}

fn vec(x: f64, y: f64, z: f64) -> Vec3Fx {
    Vec3Fx { x: fx(x), y: fx(y), z: fx(z) }
}

#[test]
fn round_trip_away_from_poles() {
    let dirs: [(f64, f64, f64); 10] = [
        (1.0, 0.0, 0.0),
        (0.0, 0.0, 1.0),
        (-1.0, 0.0, 0.0),
        (0.0, 0.0, -1.0),
        (0.3, 0.5, -0.7),
        (-0.2, -0.8, 0.4),
        (0.9, 0.1, 0.1),
        (-0.5, 0.5, 0.5),
        (0.1, -0.9, 0.2),
        (0.7, 0.7, -0.1),
    ];
    for &(x, y, z) in dirs.iter() {
        let len = (x * x + y * y + z * z).sqrt();
        let p = vec(x / len, y / len, z / len);
        let coords = cartesian_to_normalized_sphere(p).expect("unit vector");
        let back = normalized_sphere_to_cartesian(coords);
        assert!((fl(back.x) - fl(p.x)).abs() < 1e-5, "x for {x} {y} {z}");
        assert!((fl(back.y) - fl(p.y)).abs() < 1e-5, "y for {x} {y} {z}");
        assert!((fl(back.z) - fl(p.z)).abs() < 1e-5, "z for {x} {y} {z}");
    }
}

#[test]
fn forward_map_known_values() {
    // +x is the seam: u = 1/2 on the equator.
    let c = cartesian_to_normalized_sphere(Vec3Fx { x: FX_ONE, y: 0, z: 0 }).unwrap();
    assert_eq!(c.u, FX_HALF);
    assert_eq!(c.v, FX_HALF);
    // +z is a quarter turn on.
    let c = cartesian_to_normalized_sphere(Vec3Fx { x: 0, y: 0, z: FX_ONE }).unwrap();
    assert_eq!(c.u, 75_000_000);
    assert_eq!(c.v, FX_HALF);
    // -z.
    let c = cartesian_to_normalized_sphere(Vec3Fx { x: 0, y: 0, z: -FX_ONE }).unwrap();
    assert_eq!(c.u, 25_000_000);
    assert_eq!(c.v, FX_HALF);
}

#[test]
fn pole_canonicalization() {
    // The exact north pole gets the canonical azimuth u = 0, not an
    // unstable or undefined value, and the same value on every call.
    let first = cartesian_to_normalized_sphere(Vec3Fx { x: 0, y: FX_ONE, z: 0 });
    assert_eq!(first, Some(SphereCoords { u: 0, v: 0 }));
    for _ in 0..10 {
        let again = cartesian_to_normalized_sphere(Vec3Fx { x: 0, y: FX_ONE, z: 0 });
        assert_eq!(again, first);
    }
    // The south pole: v = 1, same canonical u.
    let south = cartesian_to_normalized_sphere(Vec3Fx { x: 0, y: -FX_ONE, z: 0 });
    assert_eq!(south, Some(SphereCoords { u: 0, v: FX_ONE }));
}

#[test]
fn degenerate_vectors_are_guarded() {
    assert_eq!(cartesian_to_normalized_sphere(Vec3Fx { x: 0, y: 0, z: 0 }), None);
    // Too short to normalize: guarded as degenerate, not NaN-like garbage.
    assert_eq!(cartesian_to_normalized_sphere(Vec3Fx { x: 1, y: 1, z: 1 }), None);
}

#[test]
fn inverse_map_known_values() {
    let p = normalized_sphere_to_cartesian(SphereCoords { u: 0, v: 0 });
    assert_eq!(p.y, FX_ONE);
    assert_eq!((p.x, p.z), (0, 0));
    let p = normalized_sphere_to_cartesian(SphereCoords { u: FX_HALF, v: FX_HALF });
    assert!((fl(p.x) - 1.0).abs() < 1e-6);
    assert!(fl(p.y).abs() < 1e-6);
    assert!(fl(p.z).abs() < 1e-6);
}
