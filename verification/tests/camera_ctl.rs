//! Tests of the camera controller: zoom scaling and compounding, orbit yaw,
//! and the secondary-button gate.

use planetoid_core::camera::{camera_pan, scroll_events, update_cam_transform, MainCameraTransform};
use planetoid_core::fx::FX_ONE;
use planetoid_core::quat::QuatFx;
use planetoid_core::transform::TransformFx;
use planetoid_core::vec3::Vec3Fx;

fn fl(v: i64) -> f64 {
    v as f64 / 1e8
}

fn start_camera() -> TransformFx {
    // Five units back on -z, looking at the origin (half turn about up).
    TransformFx {
        rotation: QuatFx { x: 0, y: FX_ONE, z: 0, w: 0 },
        translation: Vec3Fx { x: 0, y: 0, z: -5 * FX_ONE },
    }
}

fn distance(t: &TransformFx) -> f64 {
    let (x, y, z) = (fl(t.translation.x), fl(t.translation.y), fl(t.translation.z));
    (x * x + y * y + z * z).sqrt()
}

fn forward(t: &TransformFx) -> (f64, f64, f64) {
    let f = t.rotation.rotate(Vec3Fx { x: 0, y: 0, z: -FX_ONE });
    (fl(f.x), fl(f.y), fl(f.z))
}

#[test]
fn zoom_scaling_three_unit_wheel_events() {
    // The wheel-delta sequence [1, 1, 1] in one tick compounds three
    // factors of 0.95.
    let mut cam = start_camera();
    let before = distance(&cam);
    scroll_events(&mut cam, &vec![FX_ONE, FX_ONE, FX_ONE]);
    let after = distance(&cam);
    let want = before * 0.95f64.powi(3);
    assert!(((after - want) / want).abs() < 1e-4, "distance {after}, want {want}");
    // The camera still looks at the origin: zoom never touches rotation.
    assert_eq!(cam.rotation, start_camera().rotation);
    // And for this start position the fixed-point result is exact.
    assert_eq!(cam.translation.z, -428_687_500);
}

#[test]
fn zoom_compounds_alike_batched_or_spread() {
    // Three events in one tick land exactly where one event in each of
    // three ticks does: the fold is per event, not per tick.
    let mut batched = start_camera();
    scroll_events(&mut batched, &vec![FX_ONE, FX_ONE, FX_ONE]);
    let mut spread = start_camera();
    for _ in 0..3 {
        scroll_events(&mut spread, &vec![FX_ONE]);
    }
    assert_eq!(batched.translation, spread.translation);
    assert_eq!(batched.rotation, spread.rotation);
}

#[test]
fn zoom_events_of_mixed_sign_compound() {
    // A zoom-out then an equal zoom-in both apply: x1.05 then x0.95.
    let mut cam = start_camera();
    scroll_events(&mut cam, &vec![-FX_ONE, FX_ONE]);
    let want = 5.0 * 1.05 * 0.95;
    let got = distance(&cam);
    assert!((got - want).abs() < 1e-6, "distance {got}, want {want}");
}

#[test]
fn zoom_without_wheel_events_changes_nothing() {
    let mut cam = start_camera();
    scroll_events(&mut cam, &vec![]);
    assert_eq!(cam.translation, start_camera().translation);
    assert_eq!(cam.rotation, start_camera().rotation);
}

#[test]
fn zoom_in_can_collapse_distance() {
    // Unclamped by design: a +20 wheel delta scales the distance by zero.
    let mut cam = start_camera();
    scroll_events(&mut cam, &vec![20 * FX_ONE]);
    assert_eq!(cam.translation, Vec3Fx { x: 0, y: 0, z: 0 });
}

#[test]
fn orbit_yaw_rotates_forward_by_tenth_radian() {
    let mut cam = start_camera();
    let (fx0, fy0, fz0) = forward(&cam);
    camera_pan(&mut cam, true, &vec![(10 * FX_ONE, 0)]);
    let (fx1, fy1, fz1) = forward(&cam);
    // The angle between the forward vectors is dx * 0.01 = 0.1 rad.
    let dot = fx0 * fx1 + fy0 * fy1 + fz0 * fz1;
    let n0 = (fx0 * fx0 + fy0 * fy0 + fz0 * fz0).sqrt();
    let n1 = (fx1 * fx1 + fy1 * fy1 + fz1 * fz1).sqrt();
    let angle = (dot / (n0 * n1)).clamp(-1.0, 1.0).acos();
    assert!((angle - 0.1).abs() < 1e-5, "angle {angle}");
    // A drag with dy = 0 is a pure world-up yaw: compare against the
    // analytically composed rotation of the start forward (0, 0, 1).
    assert!((fx1 - 0.1f64.sin()).abs() < 1e-5);
    assert!(fy1.abs() < 1e-5);
    assert!((fz1 - 0.1f64.cos()).abs() < 1e-5);
    // The translation orbits with the camera, keeping the distance.
    let d = distance(&cam);
    assert!((d - 5.0).abs() < 1e-4, "distance {d}");
}

#[test]
fn orbit_without_button_changes_nothing() {
    let mut cam = start_camera();
    camera_pan(&mut cam, false, &vec![(10 * FX_ONE, 0), (0, 5 * FX_ONE)]);
    assert_eq!(cam.rotation, start_camera().rotation);
    assert_eq!(cam.translation, start_camera().translation);
}

#[test]
fn publish_copies_the_camera_transform() {
    let mut published = MainCameraTransform { value: TransformFx::identity() };
    let cam = start_camera();
    update_cam_transform(&mut published, &cam);
    assert_eq!(published.value.rotation, cam.rotation);
    assert_eq!(published.value.translation, cam.translation);
}
