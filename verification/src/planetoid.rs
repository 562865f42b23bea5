//! Global rotation state of the planetoid.
//!
//! A single unit quaternion advances once per tick by a fixed-axis,
//! fixed-speed increment scaled by the elapsed time, and is renormalized
//! every tick so that accumulated rounding never drifts its norm.

use vstd::prelude::*;
use crate::fx::{spec_fx_mul, fx_mul};
use crate::quat::{QuatFx, lemma_renormalize_near_unit};
use crate::vec3::Vec3Fx;
use crate::transform::TransformFx;

verus! {

/// Angular speed of the planetoid, fixed-point radians per second.
pub const ROTATION_SPEED: i64 = 10_000_000;

/// Component of the normalized rotation axis `(1, 1, 1) / sqrt(3)`.
pub const ROTATION_AXIS_DIAG: i64 = 57_735_027;

/// The sphere's current orientation; created as the identity at startup and
/// written exactly once per tick by [`planetoid_rotation`].
#[derive(Clone, Copy, PartialEq, Eq, Structural, Debug)]
pub struct PlanetoidRotation(pub QuatFx);

/// The fixed rotation axis: the unit diagonal.
pub open spec fn spec_rotation_axis() -> Vec3Fx {
    Vec3Fx { x: ROTATION_AXIS_DIAG, y: ROTATION_AXIS_DIAG, z: ROTATION_AXIS_DIAG }
}

/// The fixed rotation axis.
pub fn rotation_axis() -> (r: Vec3Fx)
    ensures
        r == spec_rotation_axis(),
{
    Vec3Fx { x: ROTATION_AXIS_DIAG, y: ROTATION_AXIS_DIAG, z: ROTATION_AXIS_DIAG }
}

/// One tick of the global rotation: compose with the axis-angle increment
/// `angle = ROTATION_SPEED * dt`, then renormalize.
pub open spec fn spec_planetoid_rotation(q: QuatFx, dt: int) -> QuatFx {
    let incr = QuatFx::spec_from_axis_angle(
        spec_rotation_axis(),
        spec_fx_mul(ROTATION_SPEED as int, dt),
    );
    q.spec_compose(incr).spec_renormalize()
}

impl PlanetoidRotation {
    /// The startup orientation: identity.
    pub fn new() -> (r: PlanetoidRotation)
        ensures
            r.0 == QuatFx::spec_identity(),
    {
        PlanetoidRotation(QuatFx::identity())
    }
}

/// Advances the global rotation by one tick of `dt` fixed-point seconds;
/// result pinned by [`spec_planetoid_rotation`] and always near-unit.
pub fn planetoid_rotation(rotation: &mut PlanetoidRotation, dt: i64)
    ensures
        final(rotation).0 == spec_planetoid_rotation(old(rotation).0, dt as int),
        final(rotation).0.spec_near_unit(),
        final(rotation).0.wf(),
{
    let angle: i64 = fx_mul(ROTATION_SPEED, dt);
    let incr: QuatFx = QuatFx::from_axis_angle(rotation_axis(), angle);
    let composed: QuatFx = rotation.0.compose(incr);
    rotation.0 = composed.renormalize();
}

/// The planetoid's own world transform: the global rotation about the
/// origin, with no translation.
pub open spec fn spec_set_planetoid_rotation(q: QuatFx) -> TransformFx {
    TransformFx { rotation: q, translation: Vec3Fx { x: 0, y: 0, z: 0 } }
}

/// Produces the world transform that the renderer applies to the planetoid
/// mesh; result pinned by [`spec_set_planetoid_rotation`].
pub fn set_planetoid_rotation(rotation: &PlanetoidRotation) -> (r: TransformFx)
    ensures
        r == spec_set_planetoid_rotation(rotation.0),
{
    TransformFx { rotation: rotation.0, translation: Vec3Fx::zero() }
}

/// The global rotation after a whole sequence of ticks.
pub open spec fn spec_rotation_run(q: QuatFx, dts: Seq<i64>) -> QuatFx
    decreases dts.len(),
{
    if dts.len() == 0 {
        q
    } else {
        spec_rotation_run(spec_planetoid_rotation(q, dts[0] as int), dts.drop_first())
    }
}

/// Law (rotation norm bound): after any positive number of ticks, from any
/// starting quaternion and for any sequence of tick durations, the global
/// rotation's squared norm stays within `QUAT_NORM_TOL` (1e-6) of one —
/// well inside a 1e-4 tolerance on the norm itself.
pub proof fn lemma_rotation_norm_bounded(q: QuatFx, dts: Seq<i64>)
    requires
        dts.len() >= 1,
    ensures
        spec_rotation_run(q, dts).spec_near_unit(),
    decreases dts.len(),
{
    let stepped = spec_planetoid_rotation(q, dts[0] as int);
    if dts.len() == 1 {
        lemma_renormalize_near_unit(
            q.spec_compose(
                QuatFx::spec_from_axis_angle(
                    spec_rotation_axis(),
                    spec_fx_mul(ROTATION_SPEED as int, dts[0] as int),
                ),
            ),
        );
        assert(spec_rotation_run(stepped, dts.drop_first()) == stepped);
    } else {
        lemma_rotation_norm_bounded(stepped, dts.drop_first());
    }
}

} // verus!
