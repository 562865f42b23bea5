//! Fixed-point 3-component vectors.

use vstd::prelude::*;
use crate::fx::{
    FX_ONE, FX_LIM, spec_fx_mul, spec_fx_add, spec_fx_sub, spec_sqrt_fx, fx_mul, fx_add, fx_sub,
    sqrt_fx, fx_rdiv, fx_clip,
};

verus! {

/// A vector of three fixed-point components.
#[derive(Clone, Copy, PartialEq, Eq, Structural, Debug)]
pub struct Vec3Fx {
    pub x: i64,
    pub y: i64,
    pub z: i64,
}

impl Vec3Fx {
    /// All components inside the representable range.
    pub open spec fn wf(self) -> bool {
        &&& -FX_LIM <= self.x <= FX_LIM
        &&& -FX_LIM <= self.y <= FX_LIM
        &&& -FX_LIM <= self.z <= FX_LIM
    }

    /// Componentwise clipped sum.
    pub open spec fn spec_plus(self, o: Vec3Fx) -> Vec3Fx {
        Vec3Fx {
            x: spec_fx_add(self.x as int, o.x as int) as i64,
            y: spec_fx_add(self.y as int, o.y as int) as i64,
            z: spec_fx_add(self.z as int, o.z as int) as i64,
        }
    }

    /// Componentwise clipped difference.
    pub open spec fn spec_minus(self, o: Vec3Fx) -> Vec3Fx {
        Vec3Fx {
            x: spec_fx_sub(self.x as int, o.x as int) as i64,
            y: spec_fx_sub(self.y as int, o.y as int) as i64,
            z: spec_fx_sub(self.z as int, o.z as int) as i64,
        }
    }

    /// Componentwise fixed-point scaling.
    pub open spec fn spec_scaled(self, s: int) -> Vec3Fx {
        Vec3Fx {
            x: spec_fx_mul(self.x as int, s) as i64,
            y: spec_fx_mul(self.y as int, s) as i64,
            z: spec_fx_mul(self.z as int, s) as i64,
        }
    }

    /// Fixed-point dot product.
    pub open spec fn spec_dot(self, o: Vec3Fx) -> int {
        spec_fx_add(
            spec_fx_add(
                spec_fx_mul(self.x as int, o.x as int),
                spec_fx_mul(self.y as int, o.y as int),
            ),
            spec_fx_mul(self.z as int, o.z as int),
        )
    }

    /// Fixed-point cross product.
    pub open spec fn spec_cross(self, o: Vec3Fx) -> Vec3Fx {
        Vec3Fx {
            x: spec_fx_sub(
                spec_fx_mul(self.y as int, o.z as int),
                spec_fx_mul(self.z as int, o.y as int),
            ) as i64,
            y: spec_fx_sub(
                spec_fx_mul(self.z as int, o.x as int),
                spec_fx_mul(self.x as int, o.z as int),
            ) as i64,
            z: spec_fx_sub(
                spec_fx_mul(self.x as int, o.y as int),
                spec_fx_mul(self.y as int, o.x as int),
            ) as i64,
        }
    }

    /// Squared length as a fixed-point value.
    pub open spec fn spec_norm2(self) -> int {
        self.spec_dot(self)
    }

    /// Length as a fixed-point value.
    pub open spec fn spec_length(self) -> int {
        spec_sqrt_fx(self.spec_norm2())
    }

    /// The zero vector.
    pub fn zero() -> (r: Vec3Fx)
        ensures
            r == (Vec3Fx { x: 0, y: 0, z: 0 }),
    {
        Vec3Fx { x: 0, y: 0, z: 0 }
    }

    /// Componentwise clipped sum; result pinned by [`Vec3Fx::spec_plus`].
    pub fn plus(self, o: Vec3Fx) -> (r: Vec3Fx)
        ensures
            r == self.spec_plus(o),
            r.wf(),
    {
        Vec3Fx { x: fx_add(self.x, o.x), y: fx_add(self.y, o.y), z: fx_add(self.z, o.z) }
    }

    /// Componentwise clipped difference; result pinned by
    /// [`Vec3Fx::spec_minus`].
    pub fn minus(self, o: Vec3Fx) -> (r: Vec3Fx)
        ensures
            r == self.spec_minus(o),
            r.wf(),
    {
        Vec3Fx { x: fx_sub(self.x, o.x), y: fx_sub(self.y, o.y), z: fx_sub(self.z, o.z) }
    }

    /// Componentwise scaling; result pinned by [`Vec3Fx::spec_scaled`].
    pub fn scaled(self, s: i64) -> (r: Vec3Fx)
        ensures
            r == self.spec_scaled(s as int),
            r.wf(),
    {
        Vec3Fx { x: fx_mul(self.x, s), y: fx_mul(self.y, s), z: fx_mul(self.z, s) }
    }

    /// Dot product; result pinned by [`Vec3Fx::spec_dot`].
    pub fn dot(self, o: Vec3Fx) -> (r: i64)
        ensures
            r == self.spec_dot(o),
            -FX_LIM <= r <= FX_LIM,
    {
        fx_add(fx_add(fx_mul(self.x, o.x), fx_mul(self.y, o.y)), fx_mul(self.z, o.z))
    }

    /// Cross product; result pinned by [`Vec3Fx::spec_cross`].
    pub fn cross(self, o: Vec3Fx) -> (r: Vec3Fx)
        ensures
            r == self.spec_cross(o),
            r.wf(),
    {
        Vec3Fx {
            x: fx_sub(fx_mul(self.y, o.z), fx_mul(self.z, o.y)),
            y: fx_sub(fx_mul(self.z, o.x), fx_mul(self.x, o.z)),
            z: fx_sub(fx_mul(self.x, o.y), fx_mul(self.y, o.x)),
        }
    }

    /// Squared length; result pinned by [`Vec3Fx::spec_norm2`] and
    /// non-negative.
    pub fn norm2(self) -> (r: i64)
        ensures
            r == self.spec_norm2(),
            0 <= r <= FX_LIM,
    {
        proof {
            lemma_fx_square_nonneg(self.x as int);
            lemma_fx_square_nonneg(self.y as int);
            lemma_fx_square_nonneg(self.z as int);
        }
        fx_add(fx_add(fx_mul(self.x, self.x), fx_mul(self.y, self.y)), fx_mul(self.z, self.z))
    }

    /// Length; result pinned by [`Vec3Fx::spec_length`].
    pub fn length(self) -> (r: i64)
        ensures
            r == self.spec_length(),
            0 <= r <= FX_LIM,
    {
        let n: i64 = self.norm2();
        sqrt_fx(n)
    }
}

/// A fixed-point square is never negative.
pub proof fn lemma_fx_square_nonneg(a: int)
    ensures
        spec_fx_mul(a, a) >= 0,
{
    assert(a * a >= 0) by (nonlinear_arith);
    crate::fx::lemma_rdiv_mono(0, a * a, FX_ONE as int);
    assert(fx_rdiv(0, FX_ONE as int) == 0) by {
        crate::fx::lemma_rdiv_mul_exact(0, FX_ONE as int);
        assert(0 * (FX_ONE as int) == 0) by (nonlinear_arith);
    }
    assert(fx_clip(fx_rdiv(a * a, FX_ONE as int)) >= 0);
}

} // verus!
