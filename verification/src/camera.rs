//! The orbit/zoom camera controller.
//!
//! Per tick the controller applies every wheel event in order (zoom scales
//! the camera's translation multiplicatively, so repeated events compound),
//! then every pointer-motion event while the secondary button is held
//! (orbit: a yaw about world-up composed with a pitch about the camera's own
//! right axis, left-multiplied onto the transform, so the camera orbits the
//! world origin), and finally publishes the resulting transform once into
//! [`MainCameraTransform`] for the raycaster and the renderer.  Zoom is not
//! clamped: a large enough wheel delta may collapse the distance to zero or
//! invert it, exactly as the event stream dictates.

use vstd::prelude::*;
use crate::fx::{
    FX_ONE, FX_LIM, fx_rdiv, spec_fx_mul, spec_fx_add, spec_fx_sub, fx_mul, fx_add, fx_sub,
    lemma_rdiv_mul_exact, lemma_rdiv_error, lemma_fx_mul_zero,
};
use crate::quat::{QuatFx, lemma_compose_identity_right, lemma_from_axis_angle_zero};
use crate::vec3::Vec3Fx;
use crate::transform::TransformFx;

verus! {

/// Zoom factor step per wheel unit: the distance scales by
/// `1 - 0.05 * wheel_y` per wheel event.
pub const ZOOM_STEP: i64 = 5_000_000;

/// Orbit angle per unit of pointer motion: 0.01 radians.
pub const PAN_STEP: i64 = 1_000_000;

/// The camera transform published once per tick, after all input handling,
/// for the raycaster and the rendering collaborators.
#[derive(Clone, Copy, PartialEq, Eq, Structural, Debug)]
pub struct MainCameraTransform {
    pub value: TransformFx,
}

/// One zoom event: the camera translation scales by `1 + (-wheel_y) * 0.05`;
/// the rotation is never touched.
pub open spec fn spec_scroll_step(t: TransformFx, wy: int) -> TransformFx {
    let factor = spec_fx_add(FX_ONE as int, spec_fx_mul(spec_fx_sub(0, wy), ZOOM_STEP as int));
    TransformFx { rotation: t.rotation, translation: t.translation.spec_scaled(factor) }
}

/// Zoom: every wheel event of the tick is applied in order, each scaling the
/// translation multiplicatively, so repeated events compound; without wheel
/// events nothing changes.
pub open spec fn spec_scroll_events(t: TransformFx, wheel: Seq<i64>) -> TransformFx
    decreases wheel.len(),
{
    if wheel.len() == 0 {
        t
    } else {
        spec_scroll_events(spec_scroll_step(t, wheel[0] as int), wheel.drop_first())
    }
}

/// Applies the tick's wheel events to the camera; result pinned by
/// [`spec_scroll_events`].  The rotation is never touched.
pub fn scroll_events(camera: &mut TransformFx, wheel: &Vec<i64>)
    ensures
        *final(camera) == spec_scroll_events(*old(camera), wheel@),
        final(camera).rotation == old(camera).rotation,
        wheel@.len() == 0 ==> *final(camera) == *old(camera),
{
    let mut i: usize = 0;
    proof {
        assert(wheel@.skip(0) =~= wheel@);
    }
    while i < wheel.len()
        invariant
            i <= wheel.len(),
            camera.rotation == old(camera).rotation,
            spec_scroll_events(*old(camera), wheel@) == spec_scroll_events(
                *camera,
                wheel@.skip(i as int),
            ),
        decreases wheel.len() - i,
    {
        let factor: i64 = fx_add(FX_ONE, fx_mul(fx_sub(0, wheel[i]), ZOOM_STEP));
        let ghost before: TransformFx = *camera;
        camera.translation = camera.translation.scaled(factor);
        proof {
            assert(*camera == spec_scroll_step(before, wheel@[i as int] as int));
            assert(wheel@.skip(i as int).drop_first() =~= wheel@.skip(i as int + 1));
            assert(wheel@.skip(i as int)[0] == wheel@[i as int]);
        }
        i = i + 1;
    }
    proof {
        assert(wheel@.skip(wheel@.len() as int).len() == 0);
    }
}

/// One orbit step for a pointer motion `(dx, dy)`: compose
/// `yaw(dx * 0.01)` about world-up with `pitch(-dy * 0.01)` about the
/// camera's current right axis, and left-multiply onto the transform.
pub open spec fn spec_camera_pan_step(t: TransformFx, dx: int, dy: int) -> TransformFx {
    let rot_y = QuatFx::spec_from_rotation_y(spec_fx_mul(dx, PAN_STEP as int));
    let local_x = t.rotation.spec_rotate(Vec3Fx { x: FX_ONE as i64, y: 0, z: 0 });
    let rot_x = QuatFx::spec_from_axis_angle(local_x, spec_fx_mul(dy, -(PAN_STEP as int)));
    let delta = rot_y.spec_compose(rot_x);
    TransformFx {
        rotation: delta.spec_compose(t.rotation),
        translation: delta.spec_rotate(t.translation),
    }
}

/// Orbit: while the secondary button is held, every motion event of the tick
/// is applied in order; otherwise nothing changes.
pub open spec fn spec_camera_pan(t: TransformFx, motions: Seq<(i64, i64)>, held: bool)
    -> TransformFx
    decreases motions.len(),
{
    if !held || motions.len() == 0 {
        t
    } else {
        spec_camera_pan(
            spec_camera_pan_step(t, motions[0].0 as int, motions[0].1 as int),
            motions.drop_first(),
            held,
        )
    }
}

/// Applies the tick's orbit input to the camera; result pinned by
/// [`spec_camera_pan`].
#[verifier::rlimit(60)]
pub fn camera_pan(camera: &mut TransformFx, secondary_held: bool, motions: &Vec<(i64, i64)>)
    ensures
        *final(camera) == spec_camera_pan(*old(camera), motions@, secondary_held),
        !secondary_held ==> *final(camera) == *old(camera),
{
    if !secondary_held {
        return ;
    }
    let mut i: usize = 0;
    proof {
        assert(motions@.skip(0) =~= motions@);
    }
    while i < motions.len()
        invariant
            i <= motions.len(),
            spec_camera_pan(*old(camera), motions@, true) == spec_camera_pan(
                *camera,
                motions@.skip(i as int),
                true,
            ),
        decreases motions.len() - i,
    {
        let m: (i64, i64) = motions[i];
        let rot_y: QuatFx = QuatFx::from_rotation_y(fx_mul(m.0, PAN_STEP));
        let local_x: Vec3Fx = camera.rotation.rotate(Vec3Fx { x: FX_ONE, y: 0, z: 0 });
        let rot_x: QuatFx = QuatFx::from_axis_angle(local_x, fx_mul(m.1, -PAN_STEP));
        let delta: QuatFx = rot_y.compose(rot_x);
        let ghost before: TransformFx = *camera;
        camera.translation = delta.rotate(camera.translation);
        camera.rotation = delta.compose(camera.rotation);
        proof {
            assert(*camera == spec_camera_pan_step(before, m.0 as int, m.1 as int));
            assert(motions@.skip(i as int).drop_first() =~= motions@.skip(i as int + 1));
            assert(motions@.skip(i as int)[0] == motions@[i as int]);
        }
        i = i + 1;
    }
    proof {
        assert(motions@.skip(motions@.len() as int).len() == 0);
    }
}

/// Publishes the camera transform for downstream consumers; the published
/// value becomes exactly the camera's current transform.
pub fn update_cam_transform(cam_transform: &mut MainCameraTransform, camera: &TransformFx)
    ensures
        final(cam_transform).value == *camera,
{
    cam_transform.value = *camera;
}

/// The exact fixed-point zoom factor of a one-unit wheel event: 0.95.
pub proof fn lemma_zoom_factor_unit()
    ensures
        spec_fx_add(
            FX_ONE as int,
            spec_fx_mul(spec_fx_sub(0, FX_ONE as int), ZOOM_STEP as int),
        ) == 95_000_000,
{
    lemma_rdiv_mul_exact(-5_000_000, FX_ONE as int);
    assert((-(FX_ONE as int)) * (ZOOM_STEP as int) == (-5_000_000) * (FX_ONE as int))
        by (nonlinear_arith);
}

/// One zoom-by-0.95 of a representable component: within half a unit of the
/// exact product, and still representable.
proof fn lemma_zoom_component_step(c: int)
    requires
        -FX_LIM <= c <= FX_LIM,
    ensures
        spec_fx_mul(c, 95_000_000) == fx_rdiv(c * 95_000_000, FX_ONE as int),
        -(FX_ONE as int) <= 2 * (spec_fx_mul(c, 95_000_000) * (FX_ONE as int) - c * 95_000_000)
            <= FX_ONE as int,
        -FX_LIM <= spec_fx_mul(c, 95_000_000) <= FX_LIM,
        20 * spec_fx_mul(c, 95_000_000) <= 19 * c + 10,
        19 * c - 10 <= 20 * spec_fx_mul(c, 95_000_000),
{
    lemma_rdiv_error(c * 95_000_000, FX_ONE as int);
    let r = fx_rdiv(c * 95_000_000, FX_ONE as int);
    assert(-(FX_ONE as int) <= 2 * (r * (FX_ONE as int) - c * 95_000_000) <= FX_ONE as int);
    assert(-FX_LIM <= r <= FX_LIM) by (nonlinear_arith)
        requires
            -FX_LIM <= c <= FX_LIM,
            -(FX_ONE as int) <= 2 * (r * (FX_ONE as int) - c * 95_000_000) <= FX_ONE as int,
    ;
    assert(20 * r <= 19 * c + 10 && 19 * c - 10 <= 20 * r) by (nonlinear_arith)
        requires
            -(FX_ONE as int) <= 2 * (r * (FX_ONE as int) - c * 95_000_000) <= FX_ONE as int,
    ;
}

/// Triple zoom-by-0.95 of a representable component: within two units of the
/// exact ratio 6859/8000 = 0.95^3.
proof fn lemma_zoom_component_triple(c: int)
    requires
        -FX_LIM <= c <= FX_LIM,
    ensures
        ({
            let c3 = spec_fx_mul(spec_fx_mul(spec_fx_mul(c, 95_000_000), 95_000_000), 95_000_000);
            -11410 <= 8000 * c3 - 6859 * c <= 11410
        }),
{
    let c1 = spec_fx_mul(c, 95_000_000);
    lemma_zoom_component_step(c);
    let c2 = spec_fx_mul(c1, 95_000_000);
    lemma_zoom_component_step(c1);
    let c3 = spec_fx_mul(c2, 95_000_000);
    lemma_zoom_component_step(c2);
    assert(-11410 <= 8000 * c3 - 6859 * c <= 11410) by (nonlinear_arith)
        requires
            20 * c1 <= 19 * c + 10,
            19 * c - 10 <= 20 * c1,
            20 * c2 <= 19 * c1 + 10,
            19 * c1 - 10 <= 20 * c2,
            20 * c3 <= 19 * c2 + 10,
            19 * c2 - 10 <= 20 * c3,
    ;
}

/// Law (zoom scaling): the wheel-delta sequence `[1, 1, 1]`, with no other
/// input, compounds three factors of 0.95 and so multiplies every component
/// of the camera's translation — and with it its distance from the origin —
/// by `0.95^3 = 6859 / 8000`, up to a rounding error below two
/// representation units (2e-8) per component.  The rotation is unchanged.
/// Because events fold one by one, the same holds whether the three events
/// arrive in one tick or in three.
pub proof fn lemma_zoom_scaling(t: TransformFx)
    requires
        t.translation.wf(),
    ensures
        ({
            let t3 = spec_scroll_events(t, seq![FX_ONE, FX_ONE, FX_ONE]);
            &&& t3.rotation == t.rotation
            &&& t3 == spec_scroll_events(
                spec_scroll_events(spec_scroll_events(t, seq![FX_ONE]), seq![FX_ONE]),
                seq![FX_ONE],
            )
            &&& -11410 <= 8000 * (t3.translation.x as int) - 6859 * (t.translation.x as int)
                <= 11410
            &&& -11410 <= 8000 * (t3.translation.y as int) - 6859 * (t.translation.y as int)
                <= 11410
            &&& -11410 <= 8000 * (t3.translation.z as int) - 6859 * (t.translation.z as int)
                <= 11410
        }),
{
    reveal_with_fuel(spec_scroll_events, 5);
    let w = seq![FX_ONE, FX_ONE, FX_ONE];
    let s1 = spec_scroll_step(t, FX_ONE as int);
    let s2 = spec_scroll_step(s1, FX_ONE as int);
    let s3 = spec_scroll_step(s2, FX_ONE as int);
    assert(w.drop_first() =~= seq![FX_ONE, FX_ONE]);
    assert(seq![FX_ONE, FX_ONE].drop_first() =~= seq![FX_ONE]);
    assert(seq![FX_ONE].drop_first() =~= Seq::<i64>::empty());
    assert(spec_scroll_events(t, w) == s3);
    assert(spec_scroll_events(t, seq![FX_ONE]) == s1);
    assert(spec_scroll_events(s1, seq![FX_ONE]) == s2);
    assert(spec_scroll_events(s2, seq![FX_ONE]) == s3);
    lemma_zoom_factor_unit();
    lemma_zoom_component_triple(t.translation.x as int);
    lemma_zoom_component_triple(t.translation.y as int);
    lemma_zoom_component_triple(t.translation.z as int);
}

/// Law (orbit yaw): a single drag `(dx, 0)` with the secondary button held
/// composes exactly the world-up yaw rotation by `dx * 0.01` radians onto the
/// camera — the pitch factor degenerates to the identity, so the applied
/// delta is analytically the yaw quaternion alone.
pub proof fn lemma_orbit_yaw(t: TransformFx, dx: i64)
    ensures
        ({
            let yaw = QuatFx::spec_from_rotation_y(spec_fx_mul(dx as int, PAN_STEP as int));
            spec_camera_pan_step(t, dx as int, 0) == (TransformFx {
                rotation: yaw.spec_compose(t.rotation),
                translation: yaw.spec_rotate(t.translation),
            })
        }),
{
    let yaw = QuatFx::spec_from_rotation_y(spec_fx_mul(dx as int, PAN_STEP as int));
    let local_x = t.rotation.spec_rotate(Vec3Fx { x: FX_ONE as i64, y: 0, z: 0 });
    lemma_fx_mul_zero(-(PAN_STEP as int));
    lemma_from_axis_angle_zero(local_x);
    assert(yaw.wf());
    lemma_compose_identity_right(yaw);
}

} // verus!
