//! The spherical coordinate model and the surface transform synthesizer.
//!
//! A point on the unit sphere is addressed by normalized coordinates
//! `(u, v)`: `u` is the azimuth as a fraction of a full turn (offset so that
//! the `-x` direction is `u = 1/2`), `v` the polar angle as a fraction of a
//! half turn.  The forward map uses `atan2 / (2 pi)` and the inverse uses the
//! azimuth `(u - 1/2) * 2 pi`, so the two directions are mutually consistent
//! and round-trip away from the poles.  At an exact pole the azimuth is
//! mathematically undefined; the forward map canonically returns `u = 0`
//! there, so a transform sitting on a pole stays stable.

use vstd::prelude::*;
use crate::fx::{
    FX_ONE, FX_HALF, FX_LIM, spec_fx_mul, spec_fx_add, spec_fx_sub, spec_fx_div, fx_mul, fx_add,
    fx_sub, fx_div, lemma_rdiv_mono, lemma_rdiv_mul_exact, lemma_rdiv_shift,
};
use crate::trig::{
    FX_PI, FX_HALF_PI, FX_TWO_PI, spec_sin_fx, spec_cos_fx, spec_atan2_fx, spec_acos_fx, spec_clamp_unit,
    sin_fx, cos_fx, atan2_fx, acos_fx, clamp_unit, lemma_atan2_quarter_turn, lemma_atan2_range,
};
use crate::vec3::{Vec3Fx, lemma_fx_square_nonneg};
use crate::quat::QuatFx;

verus! {

/// Normalized surface coordinates: `u` in `[0, FX_ONE)`, `v` in
/// `[0, FX_ONE]`.
#[derive(Clone, Copy, PartialEq, Eq, Structural, Debug)]
pub struct SphereCoords {
    pub u: i64,
    pub v: i64,
}

impl SphereCoords {
    /// Coordinates inside their normalized ranges.
    pub open spec fn wf(self) -> bool {
        &&& 0 <= self.u < FX_ONE
        &&& 0 <= self.v <= FX_ONE
    }
}

/// Per-entity surface placement: coordinates on the sphere plus a local spin
/// (fixed-point radians) about the surface normal.
#[derive(Clone, Copy, PartialEq, Eq, Structural, Debug)]
pub struct PlanetoidTransform {
    pub sphere_coords: SphereCoords,
    pub rotation: i64,
}

/// A rigid world transform: a rotation followed by a translation.
#[derive(Clone, Copy, PartialEq, Eq, Structural, Debug)]
pub struct TransformFx {
    pub rotation: QuatFx,
    pub translation: Vec3Fx,
}

impl TransformFx {
    /// The identity transform.
    pub open spec fn spec_identity() -> TransformFx {
        TransformFx {
            rotation: QuatFx::spec_identity(),
            translation: Vec3Fx { x: 0, y: 0, z: 0 },
        }
    }

    /// The identity transform.
    pub fn identity() -> (r: TransformFx)
        ensures
            r == TransformFx::spec_identity(),
    {
        TransformFx { rotation: QuatFx::identity(), translation: Vec3Fx::zero() }
    }
}

/// Forward coordinate map.  `None` exactly when the vector is too short to
/// normalize (degenerate input, guarded rather than propagated); an exact
/// pole gets the canonical azimuth `u = 0`.
pub open spec fn spec_cartesian_to_normalized_sphere(p: Vec3Fx) -> Option<SphereCoords> {
    let len = p.spec_length();
    if len < 1 {
        None
    } else if p.x == 0 && p.z == 0 {
        Some(SphereCoords { u: 0, v: if p.y > 0 { 0 } else { FX_ONE as i64 } })
    } else {
        let phi = spec_atan2_fx(p.z as int, p.x as int);
        let u0 = FX_HALF as int + spec_fx_div(phi, FX_TWO_PI as int);
        let u = if u0 >= FX_ONE as int {
            u0 - FX_ONE as int
        } else {
            u0
        };
        let ratio = spec_clamp_unit(spec_fx_div(p.y as int, len));
        let v = spec_fx_div(spec_acos_fx(ratio), FX_PI as int);
        Some(SphereCoords { u: u as i64, v: v as i64 })
    }
}

/// A fixed-point ratio of an angle within `[-bound, bound]` to a positive
/// divisor at least as large stays within `[-half, half]` scaled.
proof fn lemma_angle_ratio_bounds(phi: int)
    requires
        -FX_PI <= phi <= FX_PI,
    ensures
        -(FX_HALF as int) <= spec_fx_div(phi, FX_TWO_PI as int) <= FX_HALF as int,
{
    assert((FX_HALF as int) * (FX_TWO_PI as int) == (FX_PI as int) * (FX_ONE as int))
        by (nonlinear_arith);
    lemma_rdiv_mul_exact(FX_HALF as int, FX_TWO_PI as int);
    lemma_rdiv_mul_exact(-(FX_HALF as int), FX_TWO_PI as int);
    assert((-(FX_HALF as int)) * (FX_TWO_PI as int) == -((FX_PI as int) * (FX_ONE as int)))
        by (nonlinear_arith);
    lemma_rdiv_mono(phi * (FX_ONE as int), (FX_PI as int) * (FX_ONE as int), FX_TWO_PI as int);
    lemma_rdiv_mono(-((FX_PI as int) * (FX_ONE as int)), phi * (FX_ONE as int), FX_TWO_PI as int);
    assert(phi * (FX_ONE as int) <= (FX_PI as int) * (FX_ONE as int)
        && -((FX_PI as int) * (FX_ONE as int)) <= phi * (FX_ONE as int)) by (nonlinear_arith)
        requires
            -FX_PI <= phi <= FX_PI,
    ;
}

/// A non-negative angle at most `FX_PI`, divided by `FX_PI`, stays in
/// `[0, FX_ONE]`.
proof fn lemma_polar_ratio_bounds(a: int)
    requires
        0 <= a <= FX_PI,
    ensures
        0 <= spec_fx_div(a, FX_PI as int) <= FX_ONE as int,
{
    lemma_rdiv_mul_exact(FX_ONE as int, FX_PI as int);
    assert((FX_ONE as int) * (FX_PI as int) == (FX_PI as int) * (FX_ONE as int))
        by (nonlinear_arith);
    lemma_rdiv_mono(a * (FX_ONE as int), (FX_PI as int) * (FX_ONE as int), FX_PI as int);
    lemma_rdiv_mul_exact(0, FX_PI as int);
    assert(0 * (FX_PI as int) == 0) by (nonlinear_arith);
    lemma_rdiv_mono(0, a * (FX_ONE as int), FX_PI as int);
    assert(a * (FX_ONE as int) <= (FX_PI as int) * (FX_ONE as int) && 0 <= a * (FX_ONE as int))
        by (nonlinear_arith)
        requires
            0 <= a <= FX_PI,
    ;
}

/// Converts a cartesian direction into normalized surface coordinates.
/// Succeeds exactly on vectors long enough to normalize; an exact pole
/// canonically maps to `u = 0` so repeated calls are stable there.
pub fn cartesian_to_normalized_sphere(pos: Vec3Fx) -> (r: Option<SphereCoords>)
    requires
        pos.wf(),
    ensures
        r == spec_cartesian_to_normalized_sphere(pos),
        r.is_some() <==> pos.spec_length() >= 1,
        r.is_some() ==> r.unwrap().wf(),
        pos.spec_length() >= 1 && pos.x == 0 && pos.z == 0 && pos.y > 0 ==> r == Some(
            SphereCoords { u: 0, v: 0 },
        ),
        pos.spec_length() >= 1 && pos.x == 0 && pos.z == 0 && pos.y < 0 ==> r == Some(
            SphereCoords { u: 0, v: FX_ONE as i64 },
        ),
{
    let len: i64 = pos.length();
    if len < 1 {
        None
    } else if pos.x == 0 && pos.z == 0 {
        Some(SphereCoords { u: 0, v: if pos.y > 0 { 0 } else { FX_ONE } })
    } else {
        let phi: i64 = atan2_fx(pos.z, pos.x);
        proof {
            lemma_angle_ratio_bounds(phi as int);
        }
        let u0: i64 = FX_HALF + fx_div(phi, FX_TWO_PI);
        let u: i64 = if u0 >= FX_ONE {
            u0 - FX_ONE
        } else {
            u0
        };
        let ratio: i64 = clamp_unit(fx_div(pos.y, len));
        let a: i64 = acos_fx(ratio);
        proof {
            lemma_polar_ratio_bounds(a as int);
        }
        let v: i64 = fx_div(a, FX_PI);
        Some(SphereCoords { u, v })
    }
}

/// An angle value scaled by `FX_ONE` never lands on a rounding tie of the
/// division by two pi: the scaled angle carries more factors of two than the
/// divisor, so odd multiples of pi are unreachable.
proof fn lemma_two_pi_no_tie(theta: int)
    ensures
        (2 * (theta * (FX_ONE as int)) + FX_TWO_PI as int) % (2 * (FX_TWO_PI as int)) != 0,
{
    let n = theta * (FX_ONE as int);
    let d = FX_TWO_PI as int;
    assert(2 * n + d == (theta * 1_562_500 + 4_908_738) * 128 + 64) by (nonlinear_arith)
        requires
            n == theta * 100_000_000,
            d == 628_318_528,
    ;
    vstd::arithmetic::div_mod::lemma_fundamental_div_mod_converse_mod(
        2 * n + d,
        128,
        theta * 1_562_500 + 4_908_738,
        64,
    );
    if (2 * n + d) % (2 * d) == 0 {
        vstd::arithmetic::div_mod::lemma_fundamental_div_mod(2 * n + d, 2 * d);
        let k = (2 * n + d) / (2 * d);
        assert(2 * n + d == (2 * d) * k);
        assert((2 * d) * k == (9_817_477 * k) * 128) by (nonlinear_arith)
            requires
                d == 628_318_528,
        ;
        vstd::arithmetic::div_mod::lemma_fundamental_div_mod_converse_mod(
            2 * n + d,
            128,
            9_817_477 * k,
            0,
        );
        assert(false);
    }
}

/// Shifting an angle forward by a quarter turn, or back by three quarters,
/// shifts its normalized azimuth fraction by exactly a quarter either way.
proof fn lemma_div_two_pi_shift(theta: int)
    requires
        -(FX_PI as int) <= theta <= FX_PI as int,
    ensures
        spec_fx_div(theta + FX_HALF_PI as int, FX_TWO_PI as int) == spec_fx_div(
            theta,
            FX_TWO_PI as int,
        ) + 25_000_000,
        spec_fx_div(theta - 3 * (FX_HALF_PI as int), FX_TWO_PI as int) == spec_fx_div(
            theta,
            FX_TWO_PI as int,
        ) - 75_000_000,
{
    let one = FX_ONE as int;
    let d = FX_TWO_PI as int;
    let n = theta * one;
    lemma_two_pi_no_tie(theta);
    lemma_rdiv_shift(n, 25_000_000, d);
    lemma_rdiv_shift(n, -75_000_000, d);
    assert((theta + FX_HALF_PI as int) * one == n + 25_000_000 * d) by (nonlinear_arith)
        requires
            one == 100_000_000,
            d == 628_318_528,
            n == theta * 100_000_000,
            FX_HALF_PI as int == 157_079_632,
    ;
    assert((theta - 3 * (FX_HALF_PI as int)) * one == n + (-75_000_000) * d) by (nonlinear_arith)
        requires
            one == 100_000_000,
            d == 628_318_528,
            n == theta * 100_000_000,
            FX_HALF_PI as int == 157_079_632,
    ;
    assert((FX_HALF as int) * d == (FX_PI as int) * one) by (nonlinear_arith)
        requires
            one == 100_000_000,
            d == 628_318_528,
            FX_HALF as int == 50_000_000,
            FX_PI as int == 314_159_264,
    ;
    lemma_rdiv_mul_exact(FX_HALF as int, d);
    lemma_rdiv_mul_exact(-(FX_HALF as int), d);
    assert((-(FX_HALF as int)) * d == -((FX_HALF as int) * d)) by (nonlinear_arith);
    lemma_rdiv_mono(n, (FX_PI as int) * one, d);
    lemma_rdiv_mono(-((FX_PI as int) * one), n, d);
    assert(n <= (FX_PI as int) * one && -((FX_PI as int) * one) <= n) by (nonlinear_arith)
        requires
            -(FX_PI as int) <= theta <= FX_PI as int,
            n == theta * one,
            one >= 1,
    ;
}

/// A clipped three-term sum of non-negative representable values does not
/// depend on the order of its outer operands.
proof fn lemma_fx_add3_swap(a: int, b: int, c: int)
    requires
        0 <= a <= FX_LIM,
        0 <= b <= FX_LIM,
        0 <= c <= FX_LIM,
    ensures
        spec_fx_add(spec_fx_add(a, b), c) == spec_fx_add(spec_fx_add(c, b), a),
{
}

/// Law (hit resolution under a quarter turn): take any point `p` off the
/// polar axis and its image `q = (-p.z, p.y, p.x)` under an exact quarter
/// turn about the vertical axis.  Both resolve to surface coordinates
/// together; the polar coordinate `v` is the same, and `q`'s azimuth is
/// `p`'s shifted by exactly a quarter, wrapped into `[0, 1)`.  This is the
/// raycaster's inverse-rotation step in exact form: what a quarter turn of
/// the sphere does to the resolution of a fixed world-space hit point.
pub proof fn lemma_quarter_turn_shifts_u(p: Vec3Fx, q: Vec3Fx)
    requires
        q.x as int == -(p.z as int),
        q.y == p.y,
        q.z == p.x,
        !(p.x == 0 && p.z == 0),
    ensures
        ({
            let rp = spec_cartesian_to_normalized_sphere(p);
            let rq = spec_cartesian_to_normalized_sphere(q);
            &&& rp.is_some() <==> rq.is_some()
            &&& rp.is_some() ==> rq.unwrap().v == rp.unwrap().v
            &&& rp.is_some() ==> rq.unwrap().u as int == (if rp.unwrap().u + 25_000_000 < FX_ONE
                as int {
                rp.unwrap().u + 25_000_000
            } else {
                rp.unwrap().u + 25_000_000 - FX_ONE as int
            })
        }),
{
    let one = FX_ONE as int;
    let xx = spec_fx_mul(p.x as int, p.x as int);
    let yy = spec_fx_mul(p.y as int, p.y as int);
    let zz = spec_fx_mul(p.z as int, p.z as int);
    assert(spec_fx_mul(q.x as int, q.x as int) == zz) by {
        assert((-(p.z as int)) * (-(p.z as int)) == (p.z as int) * (p.z as int))
            by (nonlinear_arith);
    }
    lemma_fx_square_nonneg(p.x as int);
    lemma_fx_square_nonneg(p.y as int);
    lemma_fx_square_nonneg(p.z as int);
    lemma_fx_add3_swap(xx, yy, zz);
    assert(q.spec_norm2() == p.spec_norm2());
    assert(q.spec_length() == p.spec_length());
    let len = p.spec_length();
    if len >= 1 {
        assert(!(q.x == 0 && q.z == 0));
        let theta = spec_atan2_fx(p.z as int, p.x as int);
        lemma_atan2_range(p.z as int, p.x as int);
        lemma_atan2_quarter_turn(p.z as int, p.x as int);
        assert(spec_atan2_fx(q.z as int, q.x as int) == spec_atan2_fx(
            p.x as int,
            -(p.z as int),
        ));
        lemma_div_two_pi_shift(theta);
        lemma_angle_ratio_bounds(theta);
        let d = FX_TWO_PI as int;
        assert(25_000_000 * d == (FX_HALF_PI as int) * one) by (nonlinear_arith)
            requires
                one == 100_000_000,
                d == 628_318_528,
                FX_HALF_PI as int == 157_079_632,
        ;
        lemma_rdiv_mul_exact(25_000_000, d);
        let u0 = FX_HALF as int + spec_fx_div(theta, d);
        if p.x < 0 && p.z >= 0 {
            // theta is in the second quadrant; the shifted angle wraps once.
            assert((FX_HALF_PI as int) * one <= theta * one) by (nonlinear_arith)
                requires
                    FX_HALF_PI as int <= theta,
                    one >= 1,
            ;
            lemma_rdiv_mono((FX_HALF_PI as int) * one, theta * one, d);
            assert(spec_fx_div(theta, d) >= 25_000_000);
        } else {
            assert(theta * one <= (FX_HALF_PI as int) * one) by (nonlinear_arith)
                requires
                    theta <= FX_HALF_PI as int,
                    one >= 1,
            ;
            lemma_rdiv_mono(theta * one, (FX_HALF_PI as int) * one, d);
            assert(spec_fx_div(theta, d) <= 25_000_000);
        }
        assert(0 <= u0 <= one);
    }
}

/// Inverse coordinate map: the cartesian direction of `(u, v)`, with azimuth
/// `(u - 1/2) * 2 pi` and polar angle `v * pi`, matching the forward map.
pub open spec fn spec_normalized_sphere_to_cartesian(c: SphereCoords) -> Vec3Fx {
    let phi = spec_fx_mul(spec_fx_sub(c.u as int, FX_HALF as int), FX_TWO_PI as int);
    let vp = spec_fx_mul(c.v as int, FX_PI as int);
    let sv = spec_sin_fx(vp);
    let cv = spec_cos_fx(vp);
    Vec3Fx {
        x: spec_fx_mul(sv, spec_cos_fx(phi)) as i64,
        y: cv as i64,
        z: spec_fx_mul(sv, spec_sin_fx(phi)) as i64,
    }
}

/// Converts normalized surface coordinates back to a cartesian direction;
/// result pinned by [`spec_normalized_sphere_to_cartesian`].
pub fn normalized_sphere_to_cartesian(sphere_coords: SphereCoords) -> (r: Vec3Fx)
    ensures
        r == spec_normalized_sphere_to_cartesian(sphere_coords),
        r.wf(),
        -FX_ONE <= r.x <= FX_ONE,
        -FX_ONE <= r.y <= FX_ONE,
        -FX_ONE <= r.z <= FX_ONE,
{
    let phi: i64 = fx_mul(fx_sub(sphere_coords.u, FX_HALF), FX_TWO_PI);
    let vp: i64 = fx_mul(sphere_coords.v, FX_PI);
    let sv: i64 = sin_fx(vp);
    let cv: i64 = cos_fx(vp);
    proof {
        lemma_unit_product_bounds(sv as int, spec_cos_fx(phi as int));
        lemma_unit_product_bounds(sv as int, spec_sin_fx(phi as int));
    }
    Vec3Fx { x: fx_mul(sv, cos_fx(phi)), y: cv, z: fx_mul(sv, sin_fx(phi)) }
}

/// The fixed-point product of two values within `[-FX_ONE, FX_ONE]` stays
/// within `[-FX_ONE, FX_ONE]`.
pub proof fn lemma_unit_product_bounds(a: int, b: int)
    requires
        -FX_ONE <= a <= FX_ONE,
        -FX_ONE <= b <= FX_ONE,
    ensures
        -FX_ONE <= spec_fx_mul(a, b) <= FX_ONE,
{
    assert(a * b <= (FX_ONE as int) * (FX_ONE as int) && -((FX_ONE as int) * (FX_ONE as int)) <= a
        * b) by (nonlinear_arith)
        requires
            -FX_ONE <= a <= FX_ONE,
            -FX_ONE <= b <= FX_ONE,
    ;
    lemma_rdiv_mul_exact(FX_ONE as int, FX_ONE as int);
    lemma_rdiv_mul_exact(-(FX_ONE as int), FX_ONE as int);
    assert((-(FX_ONE as int)) * (FX_ONE as int) == -((FX_ONE as int) * (FX_ONE as int)))
        by (nonlinear_arith);
    lemma_rdiv_mono(a * b, (FX_ONE as int) * (FX_ONE as int), FX_ONE as int);
    lemma_rdiv_mono(-((FX_ONE as int) * (FX_ONE as int)), a * b, FX_ONE as int);
}

/// The world transform of one surface entity:
/// `GlobalRotation * orientationFrame(u, v) * translate(0, 1, 0) * spin`.
/// The frame rotates `(0, 1, 0)` onto the surface normal of `(u, v)`, the
/// unit translation lifts the entity onto the surface, and the spin turns it
/// about the normal.
pub open spec fn spec_surface_transform(g: QuatFx, pt: PlanetoidTransform) -> TransformFx {
    let alpha = spec_fx_add(
        spec_fx_sub(
            0,
            spec_fx_mul(spec_fx_sub(pt.sphere_coords.u as int, FX_HALF as int), FX_TWO_PI as int),
        ),
        FX_PI as int,
    );
    let axis = Vec3Fx { x: spec_sin_fx(alpha) as i64, y: 0, z: spec_cos_fx(alpha) as i64 };
    let frame = QuatFx::spec_from_axis_angle(
        axis,
        spec_fx_mul(pt.sphere_coords.v as int, FX_PI as int),
    );
    let gf = g.spec_compose(frame);
    let spin = QuatFx::spec_from_rotation_y(spec_fx_sub(0, pt.rotation as int));
    TransformFx {
        rotation: gf.spec_compose(spin),
        translation: gf.spec_rotate(Vec3Fx { x: 0, y: FX_ONE as i64, z: 0 }),
    }
}

/// Computes one entity's world transform; result pinned by
/// [`spec_surface_transform`].
pub fn surface_transform(g: QuatFx, pt: &PlanetoidTransform) -> (r: TransformFx)
    ensures
        r == spec_surface_transform(g, *pt),
{
    let alpha: i64 = fx_add(
        fx_sub(0, fx_mul(fx_sub(pt.sphere_coords.u, FX_HALF), FX_TWO_PI)),
        FX_PI,
    );
    let axis: Vec3Fx = Vec3Fx { x: sin_fx(alpha), y: 0, z: cos_fx(alpha) };
    let frame: QuatFx = QuatFx::from_axis_angle(axis, fx_mul(pt.sphere_coords.v, FX_PI));
    let gf: QuatFx = g.compose(frame);
    let spin: QuatFx = QuatFx::from_rotation_y(fx_sub(0, pt.rotation));
    TransformFx {
        rotation: gf.compose(spin),
        translation: gf.rotate(Vec3Fx { x: 0, y: FX_ONE, z: 0 }),
    }
}

/// The world transforms of all surface entities, in entity order.
pub open spec fn spec_match_planetoid_transforms(g: QuatFx, pts: Seq<PlanetoidTransform>) -> Seq<
    TransformFx,
> {
    pts.map(|i: int, pt: PlanetoidTransform| spec_surface_transform(g, pt))
}

/// Computes the world transform of every entity with a surface placement,
/// in entity order; result pinned by [`spec_match_planetoid_transforms`].
pub fn match_planetoid_transforms(g: QuatFx, pts: &Vec<PlanetoidTransform>) -> (r: Vec<
    TransformFx,
>)
    ensures
        r@ == spec_match_planetoid_transforms(g, pts@),
{
    let mut r: Vec<TransformFx> = Vec::new();
    let mut i: usize = 0;
    while i < pts.len()
        invariant
            i <= pts.len(),
            r@.len() == i as int,
            forall|j: int|
                0 <= j < i as int ==> r@[j] == spec_surface_transform(g, pts@[j]),
        decreases pts.len() - i,
    {
        let t: TransformFx = surface_transform(g, &pts[i]);
        r.push(t);
        i = i + 1;
    }
    proof {
        assert(r@ =~= spec_match_planetoid_transforms(g, pts@));
    }
    r
}

} // verus!
