//! Fixed-point quaternions: composition of rotations, rotation of vectors,
//! axis-angle construction, and renormalization.

use vstd::prelude::*;
use crate::fx::{
    FX_ONE, FX_LIM, spec_fx_mul, spec_fx_add, spec_fx_sub, spec_fx_div, spec_fx_half, spec_sqrt_fx,
    fx_mul, fx_add, fx_sub, fx_div, fx_half, sqrt_fx,
};
use crate::trig::{spec_sin_fx, spec_cos_fx, sin_fx, cos_fx};
use crate::vec3::{Vec3Fx, lemma_fx_square_nonneg};

verus! {

/// A quaternion of fixed-point components; `w` is the scalar part.
#[derive(Clone, Copy, PartialEq, Eq, Structural, Debug)]
pub struct QuatFx {
    pub x: i64,
    pub y: i64,
    pub z: i64,
    pub w: i64,
}

/// Tolerated distance of a squared norm from `FX_ONE`, for quaternions that
/// have just been renormalized (1e-6 of a unit).
pub const QUAT_NORM_TOL: i64 = 100;

impl QuatFx {
    /// All components inside the representable range.
    pub open spec fn wf(self) -> bool {
        &&& -FX_LIM <= self.x <= FX_LIM
        &&& -FX_LIM <= self.y <= FX_LIM
        &&& -FX_LIM <= self.z <= FX_LIM
        &&& -FX_LIM <= self.w <= FX_LIM
    }

    /// The identity rotation.
    pub open spec fn spec_identity() -> QuatFx {
        QuatFx { x: 0, y: 0, z: 0, w: FX_ONE }
    }

    /// The identity rotation.
    pub fn identity() -> (r: QuatFx)
        ensures
            r == QuatFx::spec_identity(),
    {
        QuatFx { x: 0, y: 0, z: 0, w: FX_ONE }
    }

    /// The vector (imaginary) part.
    pub open spec fn spec_vec_part(self) -> Vec3Fx {
        Vec3Fx { x: self.x, y: self.y, z: self.z }
    }

    /// Hamilton product, componentwise in fixed point.
    pub open spec fn spec_compose(self, o: QuatFx) -> QuatFx {
        QuatFx {
            x: spec_fx_sub(
                spec_fx_add(
                    spec_fx_add(
                        spec_fx_mul(self.w as int, o.x as int),
                        spec_fx_mul(self.x as int, o.w as int),
                    ),
                    spec_fx_mul(self.y as int, o.z as int),
                ),
                spec_fx_mul(self.z as int, o.y as int),
            ) as i64,
            y: spec_fx_add(
                spec_fx_sub(
                    spec_fx_add(
                        spec_fx_mul(self.w as int, o.y as int),
                        spec_fx_mul(self.y as int, o.w as int),
                    ),
                    spec_fx_mul(self.x as int, o.z as int),
                ),
                spec_fx_mul(self.z as int, o.x as int),
            ) as i64,
            z: spec_fx_sub(
                spec_fx_add(
                    spec_fx_add(
                        spec_fx_mul(self.w as int, o.z as int),
                        spec_fx_mul(self.z as int, o.w as int),
                    ),
                    spec_fx_mul(self.x as int, o.y as int),
                ),
                spec_fx_mul(self.y as int, o.x as int),
            ) as i64,
            w: spec_fx_sub(
                spec_fx_sub(
                    spec_fx_sub(
                        spec_fx_mul(self.w as int, o.w as int),
                        spec_fx_mul(self.x as int, o.x as int),
                    ),
                    spec_fx_mul(self.y as int, o.y as int),
                ),
                spec_fx_mul(self.z as int, o.z as int),
            ) as i64,
        }
    }

    /// The conjugate; for a unit quaternion this is the inverse rotation.
    pub open spec fn spec_conjugate(self) -> QuatFx {
        QuatFx {
            x: spec_fx_sub(0, self.x as int) as i64,
            y: spec_fx_sub(0, self.y as int) as i64,
            z: spec_fx_sub(0, self.z as int) as i64,
            w: self.w,
        }
    }

    /// Rotation of a vector: `v + 2 w (q x v) + 2 q x (q x v)`.
    pub open spec fn spec_rotate(self, v: Vec3Fx) -> Vec3Fx {
        let qv = self.spec_vec_part();
        let c = qv.spec_cross(v);
        let t = c.spec_plus(c);
        v.spec_plus(t.spec_scaled(self.w as int)).spec_plus(qv.spec_cross(t))
    }

    /// Squared norm as a fixed-point value.
    pub open spec fn spec_norm2(self) -> int {
        spec_fx_add(
            spec_fx_add(
                spec_fx_mul(self.x as int, self.x as int),
                spec_fx_mul(self.y as int, self.y as int),
            ),
            spec_fx_add(
                spec_fx_mul(self.z as int, self.z as int),
                spec_fx_mul(self.w as int, self.w as int),
            ),
        )
    }

    /// A squared norm within [`QUAT_NORM_TOL`] of one: the quaternion is a
    /// rotation up to a 1e-6 relative error.
    pub open spec fn spec_near_unit(self) -> bool {
        FX_ONE - QUAT_NORM_TOL <= self.spec_norm2() <= FX_ONE + QUAT_NORM_TOL
    }

    /// Renormalization: scales the quaternion by the inverse of its length,
    /// then falls back to the identity if the result is still degenerate
    /// (which a guard makes impossible to publish).
    pub open spec fn spec_renormalize(self) -> QuatFx {
        let n = spec_sqrt_fx(self.spec_norm2());
        if n >= 1 {
            let c = QuatFx {
                x: spec_fx_div(self.x as int, n) as i64,
                y: spec_fx_div(self.y as int, n) as i64,
                z: spec_fx_div(self.z as int, n) as i64,
                w: spec_fx_div(self.w as int, n) as i64,
            };
            if c.spec_near_unit() {
                c
            } else {
                QuatFx::spec_identity()
            }
        } else {
            QuatFx::spec_identity()
        }
    }

    /// Hamilton product; result pinned by [`QuatFx::spec_compose`].
    pub fn compose(self, o: QuatFx) -> (r: QuatFx)
        ensures
            r == self.spec_compose(o),
            r.wf(),
    {
        QuatFx {
            x: fx_sub(
                fx_add(fx_add(fx_mul(self.w, o.x), fx_mul(self.x, o.w)), fx_mul(self.y, o.z)),
                fx_mul(self.z, o.y),
            ),
            y: fx_add(
                fx_sub(fx_add(fx_mul(self.w, o.y), fx_mul(self.y, o.w)), fx_mul(self.x, o.z)),
                fx_mul(self.z, o.x),
            ),
            z: fx_sub(
                fx_add(fx_add(fx_mul(self.w, o.z), fx_mul(self.z, o.w)), fx_mul(self.x, o.y)),
                fx_mul(self.y, o.x),
            ),
            w: fx_sub(
                fx_sub(fx_sub(fx_mul(self.w, o.w), fx_mul(self.x, o.x)), fx_mul(self.y, o.y)),
                fx_mul(self.z, o.z),
            ),
        }
    }

    /// Conjugate; result pinned by [`QuatFx::spec_conjugate`].
    pub fn conjugate(self) -> (r: QuatFx)
        ensures
            r == self.spec_conjugate(),
    {
        QuatFx { x: fx_sub(0, self.x), y: fx_sub(0, self.y), z: fx_sub(0, self.z), w: self.w }
    }

    /// Rotates a vector; result pinned by [`QuatFx::spec_rotate`].
    pub fn rotate(self, v: Vec3Fx) -> (r: Vec3Fx)
        ensures
            r == self.spec_rotate(v),
            r.wf(),
    {
        let qv: Vec3Fx = Vec3Fx { x: self.x, y: self.y, z: self.z };
        let c: Vec3Fx = qv.cross(v);
        let t: Vec3Fx = c.plus(c);
        v.plus(t.scaled(self.w)).plus(qv.cross(t))
    }

    /// Squared norm; result pinned by [`QuatFx::spec_norm2`].
    pub fn norm2(self) -> (r: i64)
        ensures
            r == self.spec_norm2(),
            0 <= r <= FX_LIM,
    {
        proof {
            lemma_fx_square_nonneg(self.x as int);
            lemma_fx_square_nonneg(self.y as int);
            lemma_fx_square_nonneg(self.z as int);
            lemma_fx_square_nonneg(self.w as int);
        }
        fx_add(
            fx_add(fx_mul(self.x, self.x), fx_mul(self.y, self.y)),
            fx_add(fx_mul(self.z, self.z), fx_mul(self.w, self.w)),
        )
    }

    /// Renormalizes; result pinned by [`QuatFx::spec_renormalize`] and always
    /// near-unit, which bounds the drift of a composed rotation for good.
    pub fn renormalize(self) -> (r: QuatFx)
        ensures
            r == self.spec_renormalize(),
            r.spec_near_unit(),
            r.wf(),
    {
        let n2: i64 = self.norm2();
        let n: i64 = sqrt_fx(n2);
        if n >= 1 {
            let c: QuatFx = QuatFx {
                x: fx_div(self.x, n),
                y: fx_div(self.y, n),
                z: fx_div(self.z, n),
                w: fx_div(self.w, n),
            };
            let cn2: i64 = c.norm2();
            if FX_ONE - QUAT_NORM_TOL <= cn2 && cn2 <= FX_ONE + QUAT_NORM_TOL {
                proof {
                    lemma_identity_near_unit();
                }
                c
            } else {
                proof {
                    lemma_identity_near_unit();
                }
                QuatFx::identity()
            }
        } else {
            proof {
                lemma_identity_near_unit();
            }
            QuatFx::identity()
        }
    }

    /// Quaternion for a rotation of `angle` about `axis` (a unit vector):
    /// `(axis * sin(angle/2), cos(angle/2))`.
    pub open spec fn spec_from_axis_angle(axis: Vec3Fx, angle: int) -> QuatFx {
        let h = spec_fx_half(angle);
        let s = spec_sin_fx(h);
        let c = spec_cos_fx(h);
        QuatFx {
            x: spec_fx_mul(axis.x as int, s) as i64,
            y: spec_fx_mul(axis.y as int, s) as i64,
            z: spec_fx_mul(axis.z as int, s) as i64,
            w: c as i64,
        }
    }

    /// Axis-angle constructor; result pinned by
    /// [`QuatFx::spec_from_axis_angle`].
    pub fn from_axis_angle(axis: Vec3Fx, angle: i64) -> (r: QuatFx)
        ensures
            r == QuatFx::spec_from_axis_angle(axis, angle as int),
            r.wf(),
    {
        let h: i64 = fx_half(angle);
        let s: i64 = sin_fx(h);
        let c: i64 = cos_fx(h);
        QuatFx { x: fx_mul(axis.x, s), y: fx_mul(axis.y, s), z: fx_mul(axis.z, s), w: c }
    }

    /// Quaternion for a rotation of `angle` about the world-up (y) axis:
    /// `(0, sin(angle/2), 0, cos(angle/2))`.
    pub open spec fn spec_from_rotation_y(angle: int) -> QuatFx {
        let h = spec_fx_half(angle);
        QuatFx { x: 0, y: spec_sin_fx(h) as i64, z: 0, w: spec_cos_fx(h) as i64 }
    }

    /// Rotation about world-up; result pinned by
    /// [`QuatFx::spec_from_rotation_y`].
    pub fn from_rotation_y(angle: i64) -> (r: QuatFx)
        ensures
            r == QuatFx::spec_from_rotation_y(angle as int),
            r.wf(),
    {
        let h: i64 = fx_half(angle);
        QuatFx { x: 0, y: sin_fx(h), z: 0, w: cos_fx(h) }
    }
}

/// Law: renormalization always lands within the norm window, whatever the
/// input quaternion; this is what keeps the global rotation's norm bounded
/// over arbitrarily many ticks.
pub proof fn lemma_renormalize_near_unit(q: QuatFx)
    ensures
        q.spec_renormalize().spec_near_unit(),
{
    lemma_identity_near_unit();
}

/// Composing with the identity on the right changes nothing (for
/// representable components).
pub proof fn lemma_compose_identity_right(q: QuatFx)
    requires
        q.wf(),
    ensures
        q.spec_compose(QuatFx::spec_identity()) == q,
{
    crate::fx::lemma_fx_mul_zero(q.x as int);
    crate::fx::lemma_fx_mul_zero(q.y as int);
    crate::fx::lemma_fx_mul_zero(q.z as int);
    crate::fx::lemma_fx_mul_zero(q.w as int);
    crate::fx::lemma_fx_mul_one(q.x as int);
    crate::fx::lemma_fx_mul_one(q.y as int);
    crate::fx::lemma_fx_mul_one(q.z as int);
    crate::fx::lemma_fx_mul_one(q.w as int);
}

/// Half of the zero angle is zero.
proof fn lemma_fx_half_zero()
    ensures
        spec_fx_half(0) == 0,
{
    vstd::arithmetic::div_mod::lemma_basic_div(1, 2);
}

/// A rotation by angle zero is the identity, whatever the axis.
pub proof fn lemma_from_axis_angle_zero(axis: Vec3Fx)
    ensures
        QuatFx::spec_from_axis_angle(axis, 0) == QuatFx::spec_identity(),
{
    lemma_fx_half_zero();
    crate::trig::lemma_sin_cos_zero();
    crate::fx::lemma_fx_mul_zero(axis.x as int);
    crate::fx::lemma_fx_mul_zero(axis.y as int);
    crate::fx::lemma_fx_mul_zero(axis.z as int);
}

/// The identity quaternion has squared norm exactly `FX_ONE`.
pub proof fn lemma_identity_near_unit()
    ensures
        QuatFx::spec_identity().spec_norm2() == FX_ONE,
        QuatFx::spec_identity().spec_near_unit(),
{
    crate::fx::lemma_rdiv_mul_exact(FX_ONE as int, FX_ONE as int);
    crate::fx::lemma_rdiv_mul_exact(0, FX_ONE as int);
    assert(0 * (FX_ONE as int) == 0) by (nonlinear_arith);
    assert((FX_ONE as int) * (FX_ONE as int) == 10_000_000_000_000_000) by (nonlinear_arith);
}

} // verus!
