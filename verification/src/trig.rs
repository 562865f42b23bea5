//! Fixed-point trigonometry.
//!
//! Angles are fixed-point radians.  `sin` and `cos` reduce their argument to
//! an eighth of the circle and evaluate a truncated Taylor polynomial there;
//! `atan2` reduces to a ratio in `[0, 1]` and a polynomial on the first
//! octant; `acos` is derived from `atan2` and the square root.  Every result
//! is pinned exactly by a spec-level counterpart, and out-of-domain arguments
//! are clamped rather than left undefined, so no call can produce an
//! unrepresentable value.

use vstd::prelude::*;
use crate::fx::{
    FX_ONE, FX_LIM, fx_rdiv, spec_fx_mul, spec_fx_sub, spec_fx_div, spec_isqrt, abs64, fx_mul, fx_sub,
    fx_add, fx_div, isqrt_u128,
};

verus! {

/// Fixed-point quarter turn of radians (pi / 4).
pub const FX_QUARTER_PI: i64 = 78_539_816;

/// Fixed-point half pi; exactly `2 * FX_QUARTER_PI` so that range reduction
/// is exact.
pub const FX_HALF_PI: i64 = 157_079_632;

/// Fixed-point pi.
pub const FX_PI: i64 = 314_159_264;

/// Fixed-point two pi.
pub const FX_TWO_PI: i64 = 628_318_528;

/// `tan(pi / 8)` in fixed point: the octant split point of `atan`.
pub const FX_TAN_EIGHTH: i64 = 41_421_356;

/// Taylor coefficient 1/6.
pub const SIN_C3: i64 = 16_666_667;

/// Taylor coefficient 1/120.
pub const SIN_C5: i64 = 833_333;

/// Taylor coefficient 1/5040.
pub const SIN_C7: i64 = 19_841;

/// Taylor coefficient 1/2.
pub const COS_C2: i64 = 50_000_000;

/// Taylor coefficient 1/24.
pub const COS_C4: i64 = 4_166_667;

/// Taylor coefficient 1/720.
pub const COS_C6: i64 = 138_889;

/// Taylor coefficient 1/40320.
pub const COS_C8: i64 = 2_480;

/// Taylor coefficient 1/3.
pub const ATAN_C3: i64 = 33_333_333;

/// Taylor coefficient 1/5.
pub const ATAN_C5: i64 = 20_000_000;

/// Taylor coefficient 1/7.
pub const ATAN_C7: i64 = 14_285_714;

/// Taylor coefficient 1/9.
pub const ATAN_C9: i64 = 11_111_111;

/// Taylor coefficient 1/11.
pub const ATAN_C11: i64 = 9_090_909;

/// Taylor coefficient 1/13.
pub const ATAN_C13: i64 = 7_692_308;

/// Clamps a value into `[-FX_ONE, FX_ONE]`.
pub open spec fn spec_clamp_unit(x: int) -> int {
    if x > FX_ONE as int {
        FX_ONE as int
    } else if x < -(FX_ONE as int) {
        -(FX_ONE as int)
    } else {
        x
    }
}

/// Euclidean remainder of an angle by two pi, in `[0, FX_TWO_PI)`.
pub open spec fn spec_mod_two_pi(x: int) -> int {
    x % (FX_TWO_PI as int)
}

/// Taylor polynomial for `sin` on `[0, pi/4]`.
pub open spec fn spec_sin_poly(r: int) -> int {
    let x2 = spec_fx_mul(r, r);
    let p1 = spec_fx_sub(SIN_C5 as int, spec_fx_mul(x2, SIN_C7 as int));
    let p2 = spec_fx_sub(SIN_C3 as int, spec_fx_mul(x2, p1));
    let p3 = spec_fx_sub(FX_ONE as int, spec_fx_mul(x2, p2));
    spec_fx_mul(r, p3)
}

/// Taylor polynomial for `cos` on `[0, pi/4]`.
pub open spec fn spec_cos_poly(r: int) -> int {
    let x2 = spec_fx_mul(r, r);
    let p1 = spec_fx_sub(COS_C6 as int, spec_fx_mul(x2, COS_C8 as int));
    let p2 = spec_fx_sub(COS_C4 as int, spec_fx_mul(x2, p1));
    let p3 = spec_fx_sub(COS_C2 as int, spec_fx_mul(x2, p2));
    spec_fx_sub(FX_ONE as int, spec_fx_mul(x2, p3))
}

/// `sin` on the quarter circle `[0, pi/2)`, by the co-function identity.
pub open spec fn spec_half_sin(r: int) -> int {
    if r <= FX_QUARTER_PI as int {
        spec_sin_poly(r)
    } else {
        spec_cos_poly(FX_HALF_PI as int - r)
    }
}

/// `cos` on the quarter circle `[0, pi/2)`, by the co-function identity.
pub open spec fn spec_half_cos(r: int) -> int {
    if r <= FX_QUARTER_PI as int {
        spec_cos_poly(r)
    } else {
        spec_sin_poly(FX_HALF_PI as int - r)
    }
}

/// Fixed-point sine of a fixed-point radian angle, clamped into
/// `[-FX_ONE, FX_ONE]`.
pub open spec fn spec_sin_fx(x: int) -> int {
    let y = spec_mod_two_pi(x);
    let q = y / (FX_HALF_PI as int);
    let r = y % (FX_HALF_PI as int);
    let s = if q == 0 {
        spec_half_sin(r)
    } else if q == 1 {
        spec_half_cos(r)
    } else if q == 2 {
        -spec_half_sin(r)
    } else {
        -spec_half_cos(r)
    };
    spec_clamp_unit(s)
}

/// Fixed-point cosine of a fixed-point radian angle, clamped into
/// `[-FX_ONE, FX_ONE]`.
pub open spec fn spec_cos_fx(x: int) -> int {
    let y = spec_mod_two_pi(x);
    let q = y / (FX_HALF_PI as int);
    let r = y % (FX_HALF_PI as int);
    let c = if q == 0 {
        spec_half_cos(r)
    } else if q == 1 {
        -spec_half_sin(r)
    } else if q == 2 {
        -spec_half_cos(r)
    } else {
        spec_half_sin(r)
    };
    spec_clamp_unit(c)
}

/// Taylor polynomial for `atan` on `[-tan(pi/8), tan(pi/8)]`.
pub open spec fn spec_atan_poly(t: int) -> int {
    let x2 = spec_fx_mul(t, t);
    let p1 = spec_fx_sub(ATAN_C11 as int, spec_fx_mul(x2, ATAN_C13 as int));
    let p2 = spec_fx_sub(ATAN_C9 as int, spec_fx_mul(x2, p1));
    let p3 = spec_fx_sub(ATAN_C7 as int, spec_fx_mul(x2, p2));
    let p4 = spec_fx_sub(ATAN_C5 as int, spec_fx_mul(x2, p3));
    let p5 = spec_fx_sub(ATAN_C3 as int, spec_fx_mul(x2, p4));
    let p6 = spec_fx_sub(FX_ONE as int, spec_fx_mul(x2, p5));
    spec_fx_mul(t, p6)
}

/// `atan` of a ratio in `[0, FX_ONE]`, clamped into `[0, pi/2]`; ratios above
/// the octant split use the half-angle transformation.
pub open spec fn spec_atan_unit(t: int) -> int {
    let raw = if t <= FX_TAN_EIGHTH as int {
        spec_atan_poly(t)
    } else {
        FX_QUARTER_PI as int + spec_atan_poly(spec_fx_div(t - FX_ONE as int, t + FX_ONE as int))
    };
    if raw < 0 {
        0
    } else if raw > FX_HALF_PI as int {
        FX_HALF_PI as int
    } else {
        raw
    }
}

/// Fixed-point `atan2`, in `(-pi, pi]`.  The undefined point
/// `atan2(0, 0)` canonically returns 0.
pub open spec fn spec_atan2_fx(y: int, x: int) -> int {
    if x == 0 && y == 0 {
        0
    } else {
        let ax = if x >= 0 { x } else { -x };
        let ay = if y >= 0 { y } else { -y };
        let base = if ay <= ax {
            spec_atan_unit(spec_fx_div(ay, ax))
        } else {
            FX_HALF_PI as int - spec_atan_unit(spec_fx_div(ax, ay))
        };
        let mag = if x >= 0 { base } else { FX_PI as int - base };
        if y >= 0 { mag } else { -mag }
    }
}

/// Fixed-point `acos` of a cosine value; out-of-domain values are clamped to
/// `[-FX_ONE, FX_ONE]` first.  Result is in `[0, pi]`.
pub open spec fn spec_acos_fx(c: int) -> int {
    let cc = spec_clamp_unit(c);
    let s = spec_isqrt((FX_ONE as int) * (FX_ONE as int) - cc * cc);
    spec_atan2_fx(s, cc)
}

/// Remainder of an angle by two pi; result pinned by [`spec_mod_two_pi`].
pub fn mod_two_pi(x: i64) -> (r: i64)
    ensures
        r == spec_mod_two_pi(x as int),
        0 <= r < FX_TWO_PI,
{
    let d: u64 = FX_TWO_PI as u64;
    let m: u64 = abs64(x) % d;
    if x >= 0 {
        m as i64
    } else {
        proof {
            let mag = -(x as int);
            vstd::arithmetic::div_mod::lemma_fundamental_div_mod(mag, d as int);
            let q = mag / (d as int);
            if m == 0 {
                vstd::arithmetic::div_mod::lemma_fundamental_div_mod_converse_mod(
                    x as int, d as int, -q, 0);
            } else {
                vstd::arithmetic::div_mod::lemma_fundamental_div_mod_converse_mod(
                    x as int, d as int, -q - 1, d as int - m);
            }
        }
        if m == 0 {
            0
        } else {
            (d - m) as i64
        }
    }
}

/// Sine Taylor polynomial; result pinned by [`spec_sin_poly`].
fn sin_poly(r: i64) -> (s: i64)
    ensures
        s == spec_sin_poly(r as int),
{
    let x2: i64 = fx_mul(r, r);
    let p1: i64 = fx_sub(SIN_C5, fx_mul(x2, SIN_C7));
    let p2: i64 = fx_sub(SIN_C3, fx_mul(x2, p1));
    let p3: i64 = fx_sub(FX_ONE, fx_mul(x2, p2));
    fx_mul(r, p3)
}

/// Cosine Taylor polynomial; result pinned by [`spec_cos_poly`].
fn cos_poly(r: i64) -> (c: i64)
    ensures
        c == spec_cos_poly(r as int),
{
    let x2: i64 = fx_mul(r, r);
    let p1: i64 = fx_sub(COS_C6, fx_mul(x2, COS_C8));
    let p2: i64 = fx_sub(COS_C4, fx_mul(x2, p1));
    let p3: i64 = fx_sub(COS_C2, fx_mul(x2, p2));
    fx_sub(FX_ONE, fx_mul(x2, p3))
}

/// Sine on the quarter circle; result pinned by [`spec_half_sin`].
fn half_sin(r: i64) -> (s: i64)
    requires
        0 <= r < FX_HALF_PI,
    ensures
        s == spec_half_sin(r as int),
{
    if r <= FX_QUARTER_PI {
        sin_poly(r)
    } else {
        cos_poly(FX_HALF_PI - r)
    }
}

/// Cosine on the quarter circle; result pinned by [`spec_half_cos`].
fn half_cos(r: i64) -> (c: i64)
    requires
        0 <= r < FX_HALF_PI,
    ensures
        c == spec_half_cos(r as int),
{
    if r <= FX_QUARTER_PI {
        cos_poly(r)
    } else {
        sin_poly(FX_HALF_PI - r)
    }
}

/// Clamps a value into `[-FX_ONE, FX_ONE]`; result pinned by
/// [`spec_clamp_unit`].
pub fn clamp_unit(x: i64) -> (r: i64)
    ensures
        r == spec_clamp_unit(x as int),
        -FX_ONE <= r <= FX_ONE,
{
    if x > FX_ONE {
        FX_ONE
    } else if x < -FX_ONE {
        -FX_ONE
    } else {
        x
    }
}

/// Splits a reduced angle in `[0, FX_TWO_PI)` into its quadrant and offset.
fn quadrant_split(y: i64) -> (qr: (u64, i64))
    requires
        0 <= y < FX_TWO_PI,
    ensures
        qr.0 == (y as int) / (FX_HALF_PI as int),
        qr.1 == (y as int) % (FX_HALF_PI as int),
        qr.0 <= 3,
        0 <= qr.1 < FX_HALF_PI,
{
    let yu: u64 = y as u64;
    let h: u64 = FX_HALF_PI as u64;
    let q: u64 = yu / h;
    let r: u64 = yu % h;
    proof {
        vstd::arithmetic::div_mod::lemma_fundamental_div_mod_converse_div(
            4 * (FX_HALF_PI as int) - 1, FX_HALF_PI as int, 3, FX_HALF_PI as int - 1);
        vstd::arithmetic::div_mod::lemma_div_is_ordered(yu as int, 4 * (FX_HALF_PI as int) - 1,
            FX_HALF_PI as int);
        vstd::arithmetic::div_mod::lemma_div_pos_is_pos(yu as int, FX_HALF_PI as int);
    }
    (q, r as i64)
}

/// Fixed-point sine; result pinned by [`spec_sin_fx`].
pub fn sin_fx(x: i64) -> (s: i64)
    ensures
        s == spec_sin_fx(x as int),
        -FX_ONE <= s <= FX_ONE,
{
    let y: i64 = mod_two_pi(x);
    let qr: (u64, i64) = quadrant_split(y);
    let q: u64 = qr.0;
    let r: i64 = qr.1;
    let s: i64 = if q == 0 {
        half_sin(r)
    } else if q == 1 {
        half_cos(r)
    } else if q == 2 {
        let t: i64 = half_sin(r);
        -t
    } else {
        let t: i64 = half_cos(r);
        -t
    };
    clamp_unit(s)
}

/// Fixed-point cosine; result pinned by [`spec_cos_fx`].
pub fn cos_fx(x: i64) -> (c: i64)
    ensures
        c == spec_cos_fx(x as int),
        -FX_ONE <= c <= FX_ONE,
{
    let y: i64 = mod_two_pi(x);
    let qr: (u64, i64) = quadrant_split(y);
    let q: u64 = qr.0;
    let r: i64 = qr.1;
    let c: i64 = if q == 0 {
        half_cos(r)
    } else if q == 1 {
        let t: i64 = half_sin(r);
        -t
    } else if q == 2 {
        let t: i64 = half_cos(r);
        -t
    } else {
        half_sin(r)
    };
    clamp_unit(c)
}

/// Arctangent Taylor polynomial; result pinned by [`spec_atan_poly`].
fn atan_poly(t: i64) -> (r: i64)
    ensures
        r == spec_atan_poly(t as int),
{
    let x2: i64 = fx_mul(t, t);
    let p1: i64 = fx_sub(ATAN_C11, fx_mul(x2, ATAN_C13));
    let p2: i64 = fx_sub(ATAN_C9, fx_mul(x2, p1));
    let p3: i64 = fx_sub(ATAN_C7, fx_mul(x2, p2));
    let p4: i64 = fx_sub(ATAN_C5, fx_mul(x2, p3));
    let p5: i64 = fx_sub(ATAN_C3, fx_mul(x2, p4));
    let p6: i64 = fx_sub(FX_ONE, fx_mul(x2, p5));
    fx_mul(t, p6)
}

/// Arctangent of a ratio in `[0, FX_ONE]`; result pinned by
/// [`spec_atan_unit`] and kept inside `[0, pi/2]`.
fn atan_unit(t: i64) -> (r: i64)
    requires
        0 <= t <= FX_ONE,
    ensures
        r == spec_atan_unit(t as int),
        0 <= r <= FX_HALF_PI,
{
    let raw: i64 = if t <= FX_TAN_EIGHTH {
        atan_poly(t)
    } else {
        let num: i64 = fx_sub(t, FX_ONE);
        let den: i64 = fx_add(t, FX_ONE);
        let w: i64 = fx_div(num, den);
        FX_QUARTER_PI + atan_poly(w)
    };
    if raw < 0 {
        0
    } else if raw > FX_HALF_PI {
        FX_HALF_PI
    } else {
        raw
    }
}

/// Fixed-point `atan2`; result pinned by [`spec_atan2_fx`], in `(-pi, pi]`.
pub fn atan2_fx(y: i64, x: i64) -> (r: i64)
    requires
        -FX_LIM <= y <= FX_LIM,
        -FX_LIM <= x <= FX_LIM,
    ensures
        r == spec_atan2_fx(y as int, x as int),
        -FX_PI <= r <= FX_PI,
        y >= 0 ==> 0 <= r <= FX_PI,
{
    if x == 0 && y == 0 {
        return 0;
    }
    let ax: i64 = if x >= 0 { x } else { -x };
    let ay: i64 = if y >= 0 { y } else { -y };
    let base: i64 = if ay <= ax {
        proof {
            lemma_ratio_in_unit(ay as int, ax as int);
        }
        atan_unit(fx_div(ay, ax))
    } else {
        proof {
            lemma_ratio_in_unit(ax as int, ay as int);
        }
        let t: i64 = atan_unit(fx_div(ax, ay));
        FX_HALF_PI - t
    };
    let mag: i64 = if x >= 0 { base } else { FX_PI - base };
    if y >= 0 { mag } else { -mag }
}

/// A quotient of magnitudes `0 <= a <= b` stays in `[0, FX_ONE]`.
proof fn lemma_ratio_in_unit(a: int, b: int)
    requires
        0 <= a <= b,
        0 < b,
    ensures
        0 <= spec_fx_div(a, b) <= FX_ONE,
{
    assert(a * (FX_ONE as int) <= b * (FX_ONE as int)) by (nonlinear_arith)
        requires 0 <= a <= b;
    crate::fx::lemma_rdiv_mono(a * (FX_ONE as int), b * (FX_ONE as int), b);
    crate::fx::lemma_rdiv_mul_exact(FX_ONE as int, b);
    assert((FX_ONE as int) * b == b * (FX_ONE as int)) by (nonlinear_arith);
    assert(a * (FX_ONE as int) >= 0) by (nonlinear_arith)
        requires a >= 0;
    vstd::arithmetic::div_mod::lemma_div_pos_is_pos(b, 2);
    vstd::arithmetic::div_mod::lemma_div_pos_is_pos(a * (FX_ONE as int) + b / 2, b);
}

/// The arctangent of a zero ratio is exactly zero.
proof fn lemma_atan_unit_zero()
    ensures
        spec_atan_unit(0) == 0,
{
    crate::fx::lemma_fx_mul_zero(ATAN_C13 as int);
    let p1 = crate::fx::spec_fx_sub(ATAN_C11 as int, 0);
    let p2 = crate::fx::spec_fx_sub(ATAN_C9 as int, crate::fx::spec_fx_mul(0, p1));
    crate::fx::lemma_fx_mul_zero(p1);
    let p3 = crate::fx::spec_fx_sub(ATAN_C7 as int, crate::fx::spec_fx_mul(0, p2));
    crate::fx::lemma_fx_mul_zero(p2);
    let p4 = crate::fx::spec_fx_sub(ATAN_C5 as int, crate::fx::spec_fx_mul(0, p3));
    crate::fx::lemma_fx_mul_zero(p3);
    let p5 = crate::fx::spec_fx_sub(ATAN_C3 as int, crate::fx::spec_fx_mul(0, p4));
    crate::fx::lemma_fx_mul_zero(p4);
    let p6 = crate::fx::spec_fx_sub(FX_ONE as int, crate::fx::spec_fx_mul(0, p5));
    crate::fx::lemma_fx_mul_zero(p5);
    crate::fx::lemma_fx_mul_zero(p6);
    assert(spec_atan_poly(0) == 0);
}

/// The arctangent of the ratio one is exactly an eighth of a turn: the
/// half-angle transformation degenerates to a zero ratio there.
proof fn lemma_atan_unit_one()
    ensures
        spec_atan_unit(FX_ONE as int) == FX_QUARTER_PI,
{
    lemma_atan_unit_zero();
    assert((2 * (FX_ONE as int)) / 2 == FX_ONE as int && (FX_ONE as int) / (2 * (FX_ONE
        as int)) == 0) by {
        vstd::arithmetic::div_mod::lemma_fundamental_div_mod_converse_div(
            2 * (FX_ONE as int), 2, FX_ONE as int, 0);
        vstd::arithmetic::div_mod::lemma_basic_div(FX_ONE as int, 2 * (FX_ONE as int));
    }
    assert(fx_rdiv(0, 2 * (FX_ONE as int)) == 0);
    assert((FX_ONE as int) - (FX_ONE as int) == 0);
    assert(spec_fx_div(0, 2 * (FX_ONE as int)) == 0) by {
        assert(0 * (FX_ONE as int) == 0) by (nonlinear_arith);
    }
}

/// A positive magnitude divided by itself is exactly one.
proof fn lemma_fx_div_self(s: int)
    requires
        s >= 1,
    ensures
        spec_fx_div(s, s) == FX_ONE,
{
    crate::fx::lemma_rdiv_mul_exact(FX_ONE as int, s);
    assert(s * (FX_ONE as int) == (FX_ONE as int) * s) by (nonlinear_arith);
}

/// Law (quarter-turn arctangent): turning a direction by an exact quarter
/// turn — `(z, x)` read as `(x, -z)` — shifts its fixed-point `atan2` by
/// exactly a quarter circle, wrapping once past the `+pi` seam.  This is
/// exact because `FX_PI` is by construction four times `FX_QUARTER_PI` and
/// both angles reduce to the same first-octant arctangent call.
pub proof fn lemma_atan2_quarter_turn(z: int, x: int)
    requires
        !(z == 0 && x == 0),
    ensures
        x < 0 && z >= 0 ==> spec_atan2_fx(x, -z) == spec_atan2_fx(z, x) - 3 * FX_HALF_PI,
        !(x < 0 && z >= 0) ==> spec_atan2_fx(x, -z) == spec_atan2_fx(z, x) + FX_HALF_PI,
{
    lemma_atan_unit_zero();
    lemma_atan_unit_one();
    let az = if z >= 0 { z } else { -z };
    let ax = if x >= 0 { x } else { -x };
    if az == ax {
        lemma_fx_div_self(az);
    }
    if x == 0 {
        assert(spec_fx_div(0, az) == 0) by {
            crate::fx::lemma_rdiv_mul_exact(0, az);
            assert(0 * (FX_ONE as int) == 0 && 0 * az == 0) by (nonlinear_arith);
        }
    }
    if z == 0 {
        assert(spec_fx_div(0, ax) == 0) by {
            crate::fx::lemma_rdiv_mul_exact(0, ax);
            assert(0 * (FX_ONE as int) == 0 && 0 * ax == 0) by (nonlinear_arith);
        }
    }
}

/// The spec-level range of `atan2`: it stays within a half turn either way,
/// and the second quadrant (negative x, non-negative y) is exactly where it
/// exceeds a quarter turn.
pub proof fn lemma_atan2_range(y: int, x: int)
    ensures
        -(FX_PI as int) <= spec_atan2_fx(y, x) <= FX_PI as int,
        x < 0 && y >= 0 ==> FX_HALF_PI as int <= spec_atan2_fx(y, x),
        !(x < 0 && y >= 0) ==> spec_atan2_fx(y, x) <= FX_HALF_PI as int,
{
}

/// The sine and cosine of the zero angle are exact.
pub proof fn lemma_sin_cos_zero()
    ensures
        spec_sin_fx(0) == 0,
        spec_cos_fx(0) == FX_ONE,
{
    vstd::arithmetic::div_mod::lemma_small_mod(0nat, FX_TWO_PI as nat);
    vstd::arithmetic::div_mod::lemma_basic_div(0, FX_HALF_PI as int);
    vstd::arithmetic::div_mod::lemma_small_mod(0nat, FX_HALF_PI as nat);
    crate::fx::lemma_fx_mul_zero(SIN_C7 as int);
    crate::fx::lemma_fx_mul_zero(COS_C8 as int);
    let sp1 = crate::fx::spec_fx_sub(SIN_C5 as int, 0);
    let sp2 = crate::fx::spec_fx_sub(SIN_C3 as int, crate::fx::spec_fx_mul(0, sp1));
    crate::fx::lemma_fx_mul_zero(sp1);
    let sp3 = crate::fx::spec_fx_sub(FX_ONE as int, crate::fx::spec_fx_mul(0, sp2));
    crate::fx::lemma_fx_mul_zero(sp2);
    crate::fx::lemma_fx_mul_zero(sp3);
    assert(spec_sin_poly(0) == 0);
    let cp1 = crate::fx::spec_fx_sub(COS_C6 as int, 0);
    let cp2 = crate::fx::spec_fx_sub(COS_C4 as int, crate::fx::spec_fx_mul(0, cp1));
    crate::fx::lemma_fx_mul_zero(cp1);
    let cp3 = crate::fx::spec_fx_sub(COS_C2 as int, crate::fx::spec_fx_mul(0, cp2));
    crate::fx::lemma_fx_mul_zero(cp2);
    crate::fx::lemma_fx_mul_zero(cp3);
    assert(spec_cos_poly(0) == FX_ONE);
}

/// Fixed-point `acos`; result pinned by [`spec_acos_fx`], in `[0, pi]`.
pub fn acos_fx(c: i64) -> (r: i64)
    ensures
        r == spec_acos_fx(c as int),
        0 <= r <= FX_PI,
{
    let cc: i64 = clamp_unit(c);
    let mag: u64 = abs64(cc);
    proof {
        assert((mag as int) * (mag as int) <= (FX_ONE as int) * (FX_ONE as int)
            && (cc as int) * (cc as int) == (mag as int) * (mag as int)) by (nonlinear_arith)
            requires
                mag == if cc >= 0 { cc as int } else { -(cc as int) },
                -FX_ONE <= cc <= FX_ONE,
        ;
    }
    let p: u128 = (FX_ONE as u128) * (FX_ONE as u128) - (mag as u128) * (mag as u128);
    let s: u64 = isqrt_u128(p);
    proof {
        assert(s <= FX_ONE) by (nonlinear_arith)
            requires
                (s as int) * (s as int) <= p as int,
                p as int <= (FX_ONE as int) * (FX_ONE as int),
                s >= 0,
        ;
    }
    atan2_fx(s as i64, cc)
}

} // verus!
