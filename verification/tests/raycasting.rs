//! Tests of the screen-to-surface raycaster: hit resolution through the
//! inverse global rotation, miss behavior, and backface culling.

use planetoid_core::camera::MainCameraTransform;
use planetoid_core::creature::CreatureTarget;
use planetoid_core::fx::FX_ONE;
use planetoid_core::planetoid::PlanetoidRotation;
use planetoid_core::quat::QuatFx;
use planetoid_core::raycast::{ray_sphere_intersection, set_creature_target};
use planetoid_core::transform::{cartesian_to_normalized_sphere, SphereCoords, TransformFx};
use planetoid_core::trig::FX_HALF_PI;
use planetoid_core::vec3::Vec3Fx;

fn fl(v: i64) -> f64 {
    v as f64 / 1e8
}

#[test]
fn ray_hits_north_pole_exactly() {
    let origin = Vec3Fx { x: 0, y: 5 * FX_ONE, z: 0 };
    let dir = Vec3Fx { x: 0, y: -FX_ONE, z: 0 };
    let hit = ray_sphere_intersection(origin, dir).expect("hit");
    assert_eq!(hit, Vec3Fx { x: 0, y: FX_ONE, z: 0 });
}

#[test]
fn hit_resolution_identity_rotation_gives_canonical_pole() {
    // A ray hitting cartesian (0, 1, 0) under the identity global rotation
    // resolves to the pole's canonical coordinates.
    let origin = Vec3Fx { x: 0, y: 5 * FX_ONE, z: 0 };
    let dir = Vec3Fx { x: 0, y: -FX_ONE, z: 0 };
    let hit = ray_sphere_intersection(origin, dir).expect("hit");
    let rotation = QuatFx::identity();
    let local = rotation.conjugate().rotate(hit);
    let coords = cartesian_to_normalized_sphere(local).expect("coords");
    assert_eq!(coords, SphereCoords { u: 0, v: 0 });
}

#[test]
fn hit_resolution_quarter_turn_shifts_u_by_a_quarter() {
    // The same world-space equator hit, under a quarter turn of the sphere
    // about the vertical axis, resolves to a u shifted by 0.25 (mod 1):
    // the raycaster undoes the global rotation before mapping to
    // coordinates.
    let world_hit = Vec3Fx { x: FX_ONE, y: 0, z: 0 };
    let identity_coords =
        cartesian_to_normalized_sphere(QuatFx::identity().conjugate().rotate(world_hit)).unwrap();
    let quarter = QuatFx::from_rotation_y(FX_HALF_PI);
    let rotated_coords =
        cartesian_to_normalized_sphere(quarter.conjugate().rotate(world_hit)).unwrap();
    let du = (fl(rotated_coords.u) - fl(identity_coords.u)).rem_euclid(1.0);
    assert!((du - 0.25).abs() < 1e-5, "u shift {du}");
    assert!((fl(rotated_coords.v) - fl(identity_coords.v)).abs() < 1e-5);
}

#[test]
fn exact_quarter_turn_shifts_u_exactly() {
    // For the exact quarter-turned point (-z, y, x) the u shift is not
    // merely within tolerance but exact: same v, u moved by exactly a
    // quarter, wrapped into [0, 1).
    let points = [
        Vec3Fx { x: FX_ONE, y: 0, z: 0 },
        Vec3Fx { x: 30_000_000, y: 50_000_000, z: -70_000_000 },
        Vec3Fx { x: -FX_ONE, y: 20_000_000, z: FX_ONE },
        Vec3Fx { x: 0, y: -10_000_000, z: -FX_ONE },
    ];
    for &p in points.iter() {
        let q = Vec3Fx { x: -p.z, y: p.y, z: p.x };
        let cp = cartesian_to_normalized_sphere(p).expect("long enough");
        let cq = cartesian_to_normalized_sphere(q).expect("long enough");
        assert_eq!(cq.v, cp.v);
        assert_eq!(cq.u, (cp.u + 25_000_000) % FX_ONE);
    }
}

#[test]
fn full_pipeline_hit_sets_target_exactly() {
    // The startup camera looks at the sphere from (0, 0, -5); with the
    // identity rotation the forward ray hits (0, 0, -1), which is
    // u = 1/4, v = 1/2 — all exact in fixed point.
    let camera = MainCameraTransform {
        value: TransformFx {
            rotation: QuatFx { x: 0, y: FX_ONE, z: 0, w: 0 },
            translation: Vec3Fx { x: 0, y: 0, z: -5 * FX_ONE },
        },
    };
    let rotation = PlanetoidRotation::new();
    let mut target = CreatureTarget::new();
    set_creature_target(true, &rotation, &mut target, &camera);
    assert_eq!(target.target, Some(SphereCoords { u: 25_000_000, v: 50_000_000 }));
}

#[test]
fn miss_preserves_previous_target() {
    // A camera at (0, 0, -5) facing away from the sphere: the ray misses
    // analytically, and the previously published target must survive.
    let camera = MainCameraTransform {
        value: TransformFx {
            rotation: QuatFx::identity(),
            translation: Vec3Fx { x: 0, y: 0, z: -5 * FX_ONE },
        },
    };
    let rotation = PlanetoidRotation::new();
    let prev = Some(SphereCoords { u: 30_000_000, v: 40_000_000 });
    let mut target = CreatureTarget { target: prev };
    set_creature_target(true, &rotation, &mut target, &camera);
    assert_eq!(target.target, prev);
}

#[test]
fn no_trigger_preserves_target() {
    let camera = MainCameraTransform {
        value: TransformFx {
            rotation: QuatFx { x: 0, y: FX_ONE, z: 0, w: 0 },
            translation: Vec3Fx { x: 0, y: 0, z: -5 * FX_ONE },
        },
    };
    let rotation = PlanetoidRotation::new();
    let prev = Some(SphereCoords { u: 1_234_567, v: 7_654_321 });
    let mut target = CreatureTarget { target: prev };
    set_creature_target(false, &rotation, &mut target, &camera);
    assert_eq!(target.target, prev);
}

#[test]
fn sideways_ray_misses() {
    // Closest approach 5 > 1: an analytic miss.
    let origin = Vec3Fx { x: 0, y: 5 * FX_ONE, z: 0 };
    let dir = Vec3Fx { x: FX_ONE, y: 0, z: 0 };
    assert_eq!(ray_sphere_intersection(origin, dir), None);
}

#[test]
fn backfaces_are_culled_from_inside() {
    // From the sphere's center every surface point shows its back: culled.
    let origin = Vec3Fx { x: 0, y: 0, z: 0 };
    let dir = Vec3Fx { x: 0, y: 0, z: FX_ONE };
    assert_eq!(ray_sphere_intersection(origin, dir), None);
}

#[test]
fn ray_behind_sphere_misses() {
    let origin = Vec3Fx { x: 0, y: 0, z: -5 * FX_ONE };
    let dir = Vec3Fx { x: 0, y: 0, z: -FX_ONE };
    assert_eq!(ray_sphere_intersection(origin, dir), None);
}

#[test]
fn degenerate_direction_misses() {
    let origin = Vec3Fx { x: 0, y: 0, z: -5 * FX_ONE };
    let dir = Vec3Fx { x: 0, y: 0, z: 0 };
    assert_eq!(ray_sphere_intersection(origin, dir), None);
}
