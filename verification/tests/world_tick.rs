//! Tests of the per-tick world context: setup invariants, tick ordering
//! effects, determinism, creature motion, and cursor tracking.

use planetoid_core::fx::{FX_HALF, FX_ONE};
use planetoid_core::quat::QuatFx;
use planetoid_core::transform::{PlanetoidTransform, SphereCoords};
use planetoid_core::world::{SetupError, TickInput, WorldState};

fn fx(x: f64) -> i64 {
    (x * 1e8).round() as i64
}

fn fl(v: i64) -> f64 {
    v as f64 / 1e8
}

fn quiet_tick(dt: i64) -> TickInput {
    TickInput {
        dt,
        wheel: vec![],
        motions: vec![],
        cursor_moves: vec![],
        secondary_held: false,
        primary_held: false,
    }
}

fn states_equal(a: &WorldState, b: &WorldState) -> bool {
    a.rotation == b.rotation && a.camera == b.camera && a.cam_transform == b.cam_transform
        && a.creature_target == b.creature_target && a.creatures == b.creatures
        && a.cursor == b.cursor
}

#[test]
fn setup_needs_exactly_one_surface() {
    assert!(matches!(WorldState::new(0), Err(SetupError::NoRaycastSurface)));
    assert!(matches!(WorldState::new(2), Err(SetupError::MultipleRaycastSurfaces)));
    assert!(matches!(WorldState::new(7), Err(SetupError::MultipleRaycastSurfaces)));
    assert!(WorldState::new(1).is_ok());
}

#[test]
fn initial_world_contents() {
    let w = WorldState::new(1).unwrap();
    assert_eq!(w.rotation.0, QuatFx { x: 0, y: 0, z: 0, w: FX_ONE });
    assert_eq!(w.creature_target.target, None);
    assert_eq!(w.cursor, None);
    assert_eq!(w.creatures.len(), 4);
    assert_eq!(w.creatures[0].sphere_coords, SphereCoords { u: 0, v: 0 });
    assert_eq!(w.creatures[1].sphere_coords, SphereCoords { u: FX_HALF, v: 0 });
    assert_eq!(w.creatures[2].sphere_coords, SphereCoords { u: 0, v: FX_HALF });
    assert_eq!(w.creatures[3].sphere_coords, SphereCoords { u: FX_HALF, v: FX_HALF });
    assert_eq!(w.camera.translation.z, -5 * FX_ONE);
}

#[test]
fn determinism_identical_runs() {
    let inputs = |_: ()| -> Vec<TickInput> {
        vec![
            TickInput {
                dt: fx(0.016),
                wheel: vec![FX_ONE],
                motions: vec![(3 * FX_ONE, -2 * FX_ONE)],
                cursor_moves: vec![(5, 6)],
                secondary_held: true,
                primary_held: false,
            },
            TickInput {
                dt: fx(0.02),
                wheel: vec![],
                motions: vec![(-FX_ONE, FX_ONE)],
                cursor_moves: vec![],
                secondary_held: true,
                primary_held: true,
            },
            TickInput {
                dt: fx(0.016),
                wheel: vec![-2 * FX_ONE],
                motions: vec![],
                cursor_moves: vec![(7, 8), (9, 10)],
                secondary_held: false,
                primary_held: true,
            },
        ]
    };
    let mut a = WorldState::new(1).unwrap();
    let mut b = WorldState::new(1).unwrap();
    for input in inputs(()) {
        a.tick(&input);
    }
    for input in inputs(()) {
        b.tick(&input);
    }
    assert!(states_equal(&a, &b), "identical inputs must give identical states");
}

#[test]
fn run_equals_sequential_ticks() {
    let make_inputs = || -> Vec<TickInput> {
        vec![
            TickInput {
                dt: fx(0.016),
                wheel: vec![FX_ONE],
                motions: vec![(2 * FX_ONE, FX_ONE)],
                cursor_moves: vec![],
                secondary_held: true,
                primary_held: false,
            },
            TickInput {
                dt: fx(0.016),
                wheel: vec![],
                motions: vec![],
                cursor_moves: vec![(1, 1)],
                secondary_held: false,
                primary_held: true,
            },
        ]
    };
    let mut by_run = WorldState::new(1).unwrap();
    by_run.run(&make_inputs());
    let mut by_ticks = WorldState::new(1).unwrap();
    for input in make_inputs() {
        by_ticks.tick(&input);
    }
    assert!(states_equal(&by_run, &by_ticks));
}

#[test]
fn tick_hit_snaps_all_creatures_same_tick() {
    // The startup camera hits (0, 0, -1): target (1/4, 1/2), and the
    // creatures read the target published in the same tick.
    let mut w = WorldState::new(1).unwrap();
    let mut input = quiet_tick(0);
    input.primary_held = true;
    w.tick(&input);
    let want = SphereCoords { u: 25_000_000, v: 50_000_000 };
    assert_eq!(w.creature_target.target, Some(want));
    for c in w.creatures.iter() {
        assert_eq!(c.sphere_coords, want);
        assert_eq!(c.rotation, 0);
    }
}

#[test]
fn quiet_tick_moves_nothing_but_rotation() {
    let mut w = WorldState::new(1).unwrap();
    let before_creatures = w.creatures.clone();
    w.tick(&quiet_tick(fx(0.016)));
    assert_eq!(w.creature_target.target, None);
    assert_eq!(w.creatures, before_creatures);
    assert_eq!(w.camera.translation.z, -5 * FX_ONE);
    // The camera transform was published this tick.
    assert_eq!(w.cam_transform.value.translation, w.camera.translation);
    assert_eq!(w.cam_transform.value.rotation, w.camera.rotation);
    // And the sphere rotated.
    assert!(w.rotation.0 != QuatFx { x: 0, y: 0, z: 0, w: FX_ONE });
}

#[test]
fn target_is_sticky_across_ticks() {
    let mut w = WorldState::new(1).unwrap();
    let mut input = quiet_tick(0);
    input.primary_held = true;
    w.tick(&input);
    let target = w.creature_target.target;
    assert!(target.is_some());
    // Later quiet ticks never clear it.
    for _ in 0..5 {
        w.tick(&quiet_tick(fx(0.016)));
        assert_eq!(w.creature_target.target, target);
    }
}

#[test]
fn cursor_tracks_last_event() {
    let mut w = WorldState::new(1).unwrap();
    let mut input = quiet_tick(0);
    input.cursor_moves = vec![(1, 2), (3, 4)];
    w.tick(&input);
    assert_eq!(w.cursor, Some((3, 4)));
    // A tick without cursor events keeps the last position.
    w.tick(&quiet_tick(0));
    assert_eq!(w.cursor, Some((3, 4)));
}

#[test]
fn creature_spin_is_kept_when_snapping() {
    let mut w = WorldState::new(1).unwrap();
    w.creatures[0].rotation = fx(0.75);
    let mut input = quiet_tick(0);
    input.primary_held = true;
    w.tick(&input);
    assert_eq!(w.creatures[0].rotation, fx(0.75));
    assert_eq!(w.creatures[1].rotation, 0);
}

#[test]
fn world_transforms_follow_rotation_and_placement() {
    let w = WorldState::new(1).unwrap();
    // Identity rotation: the planetoid transform is the identity rotation
    // at the origin.
    let pt = w.planetoid_transform();
    assert_eq!(pt.rotation, QuatFx { x: 0, y: 0, z: 0, w: FX_ONE });
    assert_eq!((pt.translation.x, pt.translation.y, pt.translation.z), (0, 0, 0));
    // The creature at (u, v) = (0, 0) sits exactly on the north pole.
    let ts = w.creature_transforms();
    assert_eq!(ts.len(), 4);
    assert_eq!(
        (ts[0].translation.x, ts[0].translation.y, ts[0].translation.z),
        (0, FX_ONE, 0),
    );
    // The creature at (1/2, 1/2) sits on the equator seam (+x), within
    // fixed-point tolerance.
    assert!((fl(ts[3].translation.x) - 1.0).abs() < 1e-5);
    assert!(fl(ts[3].translation.y).abs() < 1e-5);
    assert!(fl(ts[3].translation.z).abs() < 1e-5);
}

#[test]
fn transforms_match_coordinate_model() {
    // The synthesizer's translation for an entity equals the coordinate
    // model's direction for the same (u, v), up to fixed-point rounding.
    let mut w = WorldState::new(1).unwrap();
    w.creatures.clear();
    w.creatures.push(PlanetoidTransform {
        sphere_coords: SphereCoords { u: fx(0.3), v: fx(0.6) },
        rotation: 0,
    });
    let ts = w.creature_transforms();
    let dir = planetoid_core::transform::normalized_sphere_to_cartesian(SphereCoords {
        u: fx(0.3),
        v: fx(0.6),
    });
    assert!((fl(ts[0].translation.x) - fl(dir.x)).abs() < 1e-5);
    assert!((fl(ts[0].translation.y) - fl(dir.y)).abs() < 1e-5);
    assert!((fl(ts[0].translation.z) - fl(dir.z)).abs() < 1e-5);
}
