//! Fixed-point scalar arithmetic.
//!
//! A quantity is stored as an `i64` holding the real value scaled by
//! [`FX_ONE`] (1e8), so one unit of the stored integer is 1e-8 of the real
//! quantity.  Every operation is total: results are clipped into
//! `[-FX_LIM, FX_LIM]`, and each operation's result is pinned exactly by its
//! spec-level counterpart, which makes the whole simulation a deterministic
//! function of its inputs.

use vstd::prelude::*;

verus! {

/// The fixed-point representation of 1.0.
pub const FX_ONE: i64 = 100_000_000;

/// The fixed-point representation of 0.5.
pub const FX_HALF: i64 = 50_000_000;

/// Saturation bound of the representation (1e7 in real units): all operation
/// results are kept inside `[-FX_LIM, FX_LIM]`.
pub const FX_LIM: i64 = 1_000_000_000_000_000;

/// Clips a mathematical integer into the representable range.
pub open spec fn fx_clip(x: int) -> int {
    if x > FX_LIM as int {
        FX_LIM as int
    } else if x < -(FX_LIM as int) {
        -(FX_LIM as int)
    } else {
        x
    }
}

/// Division rounded to the nearest integer, ties away from zero (`d > 0`).
pub open spec fn fx_rdiv(n: int, d: int) -> int
    recommends
        d > 0,
{
    if n >= 0 {
        (n + d / 2) / d
    } else {
        -((-n + d / 2) / d)
    }
}

/// Fixed-point product: `a * b` rescaled by `FX_ONE`, rounded, clipped.
pub open spec fn spec_fx_mul(a: int, b: int) -> int {
    fx_clip(fx_rdiv(a * b, FX_ONE as int))
}

/// Clipped sum.
pub open spec fn spec_fx_add(a: int, b: int) -> int {
    fx_clip(a + b)
}

/// Clipped difference.
pub open spec fn spec_fx_sub(a: int, b: int) -> int {
    fx_clip(a - b)
}

/// Fixed-point quotient `a / b` for `b > 0`: rescaled by `FX_ONE`, rounded,
/// clipped.
pub open spec fn spec_fx_div(a: int, b: int) -> int
    recommends
        b > 0,
{
    fx_clip(fx_rdiv(a * (FX_ONE as int), b))
}

/// Halving with rounding to nearest, clipped.
pub open spec fn spec_fx_half(a: int) -> int {
    fx_clip(fx_rdiv(a, 2))
}

/// Magnitude of an `i64` as a `u64`.
pub fn abs64(a: i64) -> (r: u64)
    ensures
        a >= 0 ==> r == a as int,
        a < 0 ==> r == -(a as int),
{
    if a >= 0 {
        a as u64
    } else {
        (-(a as i128)) as u64
    }
}

/// Round-to-nearest division on non-negative magnitudes.
fn rdiv_mag(n: u128, d: u128) -> (r: u128)
    requires
        d > 0,
        n <= u128::MAX - d,
    ensures
        r == fx_rdiv(n as int, d as int),
{
    let h: u128 = d / 2;
    (n + h) / d
}

/// Clips a non-negative magnitude at `FX_LIM` and applies a sign.
fn clip_signed(q: u128, neg: bool) -> (r: i64)
    ensures
        neg ==> r == fx_clip(-(q as int)),
        !neg ==> r == fx_clip(q as int),
{
    let qc: u128 = if q > FX_LIM as u128 {
        FX_LIM as u128
    } else {
        q
    };
    let qi: i64 = qc as i64;
    if neg {
        -qi
    } else {
        qi
    }
}

/// `fx_rdiv` negates with its numerator.
proof fn lemma_rdiv_neg(n: int, d: int)
    requires
        d > 0,
    ensures
        fx_rdiv(-n, d) == -fx_rdiv(n, d),
{
    if n == 0 {
        vstd::arithmetic::div_mod::lemma_fundamental_div_mod(d, 2);
        vstd::arithmetic::div_mod::lemma_basic_div(d / 2, d);
        assert(fx_rdiv(0, d) == (d / 2) / d);
        assert((d / 2) / d == 0);
    } else if n > 0 {
        assert(fx_rdiv(n, d) == (n + d / 2) / d);
        assert(-n < 0);
        assert(fx_rdiv(-n, d) == -((-(-n) + d / 2) / d));
        assert(-(-n) == n);
    } else {
        assert(fx_rdiv(-n, d) == (-n + d / 2) / d);
        assert(fx_rdiv(n, d) == -((-n + d / 2) / d));
    }
}

/// Fixed-point multiplication; result pinned by [`spec_fx_mul`].
pub fn fx_mul(a: i64, b: i64) -> (r: i64)
    ensures
        r == spec_fx_mul(a as int, b as int),
        -FX_LIM <= r <= FX_LIM,
{
    let neg: bool = (a < 0) != (b < 0);
    let ma: u64 = abs64(a);
    let mb: u64 = abs64(b);
    proof {
        assert((ma as int) * (mb as int) <= u128::MAX - FX_ONE) by (nonlinear_arith)
            requires
                ma <= 0x8000_0000_0000_0000u64,
                mb <= 0x8000_0000_0000_0000u64,
        ;
    }
    let p: u128 = (ma as u128) * (mb as u128);
    proof {
        assert((a as int) * (b as int) == if neg { -(p as int) } else { p as int })
            by (nonlinear_arith)
            requires
                p == (ma as int) * (mb as int),
                a >= 0 ==> ma == a as int,
                a < 0 ==> ma == -(a as int),
                b >= 0 ==> mb == b as int,
                b < 0 ==> mb == -(b as int),
                neg == ((a < 0) != (b < 0)),
        ;
    }
    let q: u128 = rdiv_mag(p, FX_ONE as u128);
    proof {
        lemma_rdiv_neg(p as int, FX_ONE as int);
    }
    clip_signed(q, neg)
}

/// Clipped addition; result pinned by [`spec_fx_add`].
pub fn fx_add(a: i64, b: i64) -> (r: i64)
    ensures
        r == spec_fx_add(a as int, b as int),
        -FX_LIM <= r <= FX_LIM,
{
    let s: i128 = a as i128 + b as i128;
    if s > FX_LIM as i128 {
        FX_LIM
    } else if s < -(FX_LIM as i128) {
        -FX_LIM
    } else {
        s as i64
    }
}

/// Clipped subtraction; result pinned by [`spec_fx_sub`].
pub fn fx_sub(a: i64, b: i64) -> (r: i64)
    ensures
        r == spec_fx_sub(a as int, b as int),
        -FX_LIM <= r <= FX_LIM,
{
    let s: i128 = a as i128 - b as i128;
    if s > FX_LIM as i128 {
        FX_LIM
    } else if s < -(FX_LIM as i128) {
        -FX_LIM
    } else {
        s as i64
    }
}

/// Fixed-point division by a positive denominator; result pinned by
/// [`spec_fx_div`].
pub fn fx_div(a: i64, b: i64) -> (r: i64)
    requires
        b > 0,
    ensures
        r == spec_fx_div(a as int, b as int),
        -FX_LIM <= r <= FX_LIM,
{
    let ma: u64 = abs64(a);
    proof {
        assert((ma as int) * (FX_ONE as int) <= u128::MAX - b) by (nonlinear_arith)
            requires
                ma <= 0x8000_0000_0000_0000u64,
                0 < b,
        ;
    }
    let p: u128 = (ma as u128) * (FX_ONE as u128);
    proof {
        assert((a as int) * (FX_ONE as int) == if a < 0 { -(p as int) } else { p as int })
            by (nonlinear_arith)
            requires
                p == (ma as int) * (FX_ONE as int),
                a >= 0 ==> ma == a as int,
                a < 0 ==> ma == -(a as int),
        ;
    }
    let q: u128 = rdiv_mag(p, b as u128);
    proof {
        lemma_rdiv_neg(p as int, b as int);
    }
    clip_signed(q, a < 0)
}

/// For positive `d`, its half rounds down below it.
proof fn lemma_half_below(d: int)
    requires
        d > 0,
    ensures
        0 <= d / 2 < d,
{
    vstd::arithmetic::div_mod::lemma_fundamental_div_mod(d, 2);
}

/// Rounded division is monotone in its numerator.
pub proof fn lemma_rdiv_mono(n1: int, n2: int, d: int)
    requires
        n1 <= n2,
        d > 0,
    ensures
        fx_rdiv(n1, d) <= fx_rdiv(n2, d),
{
    lemma_half_below(d);
    if n1 >= 0 {
        vstd::arithmetic::div_mod::lemma_div_is_ordered(n1 + d / 2, n2 + d / 2, d);
    } else if n2 >= 0 {
        vstd::arithmetic::div_mod::lemma_div_pos_is_pos(-n1 + d / 2, d);
        vstd::arithmetic::div_mod::lemma_div_pos_is_pos(n2 + d / 2, d);
    } else {
        vstd::arithmetic::div_mod::lemma_div_is_ordered(-n2 + d / 2, -n1 + d / 2, d);
    }
}

/// Rounded division undoes an exact multiplication: `fx_rdiv(m * d, d) == m`.
pub proof fn lemma_rdiv_mul_exact(m: int, d: int)
    requires
        d > 0,
    ensures
        fx_rdiv(m * d, d) == m,
{
    lemma_half_below(d);
    if m >= 0 {
        assert(m * d >= 0) by (nonlinear_arith)
            requires m >= 0, d > 0;
        vstd::arithmetic::div_mod::lemma_hoist_over_denominator(d / 2, m, d as nat);
        vstd::arithmetic::div_mod::lemma_basic_div(d / 2, d);
    } else {
        assert(m * d < 0) by (nonlinear_arith)
            requires m < 0, d > 0;
        assert(-(m * d) == (-m) * d) by (nonlinear_arith);
        assert((-m) * d >= 0) by (nonlinear_arith)
            requires m < 0, d > 0;
        vstd::arithmetic::div_mod::lemma_hoist_over_denominator(d / 2, -m, d as nat);
        vstd::arithmetic::div_mod::lemma_basic_div(d / 2, d);
        assert(fx_rdiv((-m) * d, d) == -m);
        lemma_rdiv_neg((-m) * d, d);
        assert(-((-m) * d) == m * d) by (nonlinear_arith);
    }
}

/// Rounded division misses exact division by at most half the divisor:
/// `2 * |fx_rdiv(n, d) * d - n| <= d`.
pub proof fn lemma_rdiv_error(n: int, d: int)
    requires
        d > 0,
    ensures
        -d <= 2 * (fx_rdiv(n, d) * d - n) <= d,
    decreases (if n < 0 { 1int } else { 0int }),
{
    lemma_half_below(d);
    vstd::arithmetic::div_mod::lemma_fundamental_div_mod(d, 2);
    if n >= 0 {
        let h = d / 2;
        let q = fx_rdiv(n, d);
        vstd::arithmetic::div_mod::lemma_fundamental_div_mod(n + h, d);
        vstd::arithmetic::div_mod::lemma_mod_division_less_than_divisor(n + h, d);
        let m = (n + h) % d;
        assert(n + h == d * ((n + h) / d) + m);
        assert(q == (n + h) / d);
        assert(q * d == d * q) by (nonlinear_arith);
        assert(2 * (q * d - n) == 2 * h - 2 * m);
    } else {
        lemma_rdiv_error(-n, d);
        lemma_rdiv_neg(-n, d);
        assert(fx_rdiv(n, d) == -fx_rdiv(-n, d));
        assert((-fx_rdiv(-n, d)) * d == -(fx_rdiv(-n, d) * d)) by (nonlinear_arith);
    }
}

/// Away from ties, rounded division by an even divisor is a single floor
/// division: `fx_rdiv(n, d) == (2n + d - 1) / (2d)`.
proof fn lemma_rdiv_as_floor(n: int, d: int)
    requires
        d > 0,
        d % 2 == 0,
        (2 * n + d) % (2 * d) != 0,
    ensures
        fx_rdiv(n, d) == (2 * n + d - 1) / (2 * d),
{
    vstd::arithmetic::div_mod::lemma_fundamental_div_mod(d, 2);
    let h = d / 2;
    assert(d == 2 * h);
    if n >= 0 {
        // (n + h) / d == (2n + d) / (2d) by scaling both by 2.
        vstd::arithmetic::div_mod::lemma_fundamental_div_mod(n + h, d);
        let q = (n + h) / d;
        let r = (n + h) % d;
        vstd::arithmetic::div_mod::lemma_mod_division_less_than_divisor(n + h, d);
        assert(2 * n + d == q * (2 * d) + 2 * r) by (nonlinear_arith)
            requires
                n + h == d * q + r,
                d == 2 * h,
        ;
        vstd::arithmetic::div_mod::lemma_fundamental_div_mod_converse_mod(
            2 * n + d, 2 * d, q, 2 * r);
        assert(2 * r != 0);
        vstd::arithmetic::div_mod::lemma_fundamental_div_mod_converse_div(
            2 * n + d - 1, 2 * d, q, 2 * r - 1);
    } else {
        lemma_rdiv_neg(-n, d);
        assert(fx_rdiv(n, d) == -fx_rdiv(-n, d));
        vstd::arithmetic::div_mod::lemma_fundamental_div_mod(-n + h, d);
        let q = (-n + h) / d;
        let r = (-n + h) % d;
        vstd::arithmetic::div_mod::lemma_mod_division_less_than_divisor(-n + h, d);
        // 2n + d - 1 == (-q)(2d) + (2d - 2r - 1), with the remainder in range.
        assert(2 * n + d - 1 == (-q) * (2 * d) + (2 * d - 2 * r - 1)) by (nonlinear_arith)
            requires
                -n + h == d * q + r,
                d == 2 * h,
        ;
        vstd::arithmetic::div_mod::lemma_fundamental_div_mod_converse_div(
            2 * n + d - 1, 2 * d, -q, 2 * d - 2 * r - 1);
    }
}

/// Shifting the numerator by a whole multiple of an even divisor shifts the
/// rounded quotient by exactly that multiple, away from ties.
pub proof fn lemma_rdiv_shift(n: int, m: int, d: int)
    requires
        d > 0,
        d % 2 == 0,
        (2 * n + d) % (2 * d) != 0,
    ensures
        fx_rdiv(n + m * d, d) == fx_rdiv(n, d) + m,
{
    lemma_rdiv_as_floor(n, d);
    assert((2 * (n + m * d) + d) % (2 * d) != 0) by {
        vstd::arithmetic::div_mod::lemma_mod_multiples_vanish(m, 2 * n + d, 2 * d);
        assert(m * (2 * d) + (2 * n + d) == 2 * (n + m * d) + d) by (nonlinear_arith);
    }
    lemma_rdiv_as_floor(n + m * d, d);
    vstd::arithmetic::div_mod::lemma_hoist_over_denominator(2 * n + d - 1, m, (2 * d) as nat);
    assert(2 * n + d - 1 + m * (2 * d) == 2 * (n + m * d) + d - 1) by (nonlinear_arith);
}

/// Multiplying by fixed-point zero gives zero.
pub proof fn lemma_fx_mul_zero(a: int)
    ensures
        spec_fx_mul(a, 0) == 0,
        spec_fx_mul(0, a) == 0,
{
    assert(a * 0 == 0 && 0 * a == 0) by (nonlinear_arith);
    lemma_rdiv_mul_exact(0, FX_ONE as int);
    assert(0 * (FX_ONE as int) == 0) by (nonlinear_arith);
}

/// Multiplying a representable value by fixed-point one keeps it unchanged.
pub proof fn lemma_fx_mul_one(a: int)
    requires
        -FX_LIM <= a <= FX_LIM,
    ensures
        spec_fx_mul(a, FX_ONE as int) == a,
        spec_fx_mul(FX_ONE as int, a) == a,
{
    lemma_rdiv_mul_exact(a, FX_ONE as int);
    assert(a * (FX_ONE as int) == (FX_ONE as int) * a) by (nonlinear_arith);
}

/// The integer square root of `n >= 0`: the unique `r >= 0` with
/// `r * r <= n < (r + 1) * (r + 1)`.
pub open spec fn spec_isqrt(n: int) -> int {
    choose|r: int| 0 <= r && #[trigger] (r * r) <= n && n < (r + 1) * (r + 1)
}

/// There is only one integer square root, so any witness equals `spec_isqrt`.
pub proof fn lemma_isqrt_unique(n: int, r: int)
    requires
        0 <= r,
        r * r <= n,
        n < (r + 1) * (r + 1),
    ensures
        spec_isqrt(n) == r,
{
    assert(exists|c: int| 0 <= c && #[trigger] (c * c) <= n && n < (c + 1) * (c + 1)) by {
        assert(0 <= r && r * r <= n && n < (r + 1) * (r + 1));
    }
    let c: int = spec_isqrt(n);
    assert(0 <= c && c * c <= n && n < (c + 1) * (c + 1));
    if c < r {
        assert((c + 1) * (c + 1) <= r * r) by (nonlinear_arith)
            requires
                0 <= c,
                c < r,
        ;
        assert(false);
    } else if c > r {
        assert((r + 1) * (r + 1) <= c * c) by (nonlinear_arith)
            requires
                0 <= r,
                r < c,
        ;
        assert(false);
    }
}

/// Integer square root by binary digit descent.
pub fn isqrt_u128(n: u128) -> (r: u64)
    requires
        n < 0x4000_0000_0000_0000_0000_0000_0000_0000u128,
    ensures
        r == spec_isqrt(n as int),
        (r as int) * (r as int) <= n as int,
        (n as int) < (r as int + 1) * (r as int + 1),
{
    let mut r: u64 = 0;
    let mut bit: u64 = 0x4000_0000_0000_0000u64;
    let ghost mut k: nat = 62;
    proof {
        vstd::arithmetic::power2::lemma2_to64_rest();
        assert(bit == vstd::arithmetic::power2::pow2(62));
        assert((n as int) < (r as int + 2 * (bit as int)) * (r as int + 2 * (bit as int)))
            by (nonlinear_arith)
            requires
                r == 0,
                bit == 0x4000_0000_0000_0000u64,
                n < 0x4000_0000_0000_0000_0000_0000_0000_0000u128,
        ;
    }
    while bit > 0
        invariant
            (r as int) * (r as int) <= n as int,
            bit > 0 ==> (n as int) < (r as int + 2 * (bit as int)) * (r as int + 2 * (bit as int)),
            bit == 0 ==> (n as int) < (r as int + 1) * (r as int + 1),
            r as int + 2 * (bit as int) <= 0x8000_0000_0000_0000,
            bit > 0 ==> bit as nat == vstd::arithmetic::power2::pow2(k) && k <= 62,
        decreases bit,
    {
        proof {
            if k > 0 {
                vstd::arithmetic::power2::lemma_pow2_adds(1, (k - 1) as nat);
                vstd::arithmetic::power2::lemma2_to64();
                assert(vstd::arithmetic::power2::pow2(k) == 2 * vstd::arithmetic::power2::pow2(
                    (k - 1) as nat,
                ));
                vstd::arithmetic::power2::lemma_pow2_pos((k - 1) as nat);
            } else {
                vstd::arithmetic::power2::lemma2_to64();
                assert(bit == 1);
            }
        }
        let cand: u64 = r + bit;
        proof {
            assert((cand as int) * (cand as int) <= 0x8000_0000_0000_0000i128
                * 0x8000_0000_0000_0000i128) by (nonlinear_arith)
                requires
                    0 <= cand as int <= 0x8000_0000_0000_0000i128,
            ;
        }
        let sq: u128 = (cand as u128) * (cand as u128);
        let ghost old_r: u64 = r;
        let ghost old_bit: u64 = bit;
        if sq <= n {
            r = cand;
        }
        if bit == 1 {
            bit = 0;
            proof {
                if sq <= n {
                    // n < (old_r + 2)^2 by the invariant, and r == old_r + 1.
                    assert((n as int) < (r as int + 1) * (r as int + 1));
                } else {
                    assert((n as int) < (r as int + 1) * (r as int + 1));
                }
            }
        } else {
            bit = bit / 2;
            proof {
                k = (k - 1) as nat;
                assert(old_bit == 2 * bit);
                if sq <= n {
                    assert(r as int + 2 * (bit as int) == old_r as int + 2 * (old_bit as int));
                } else {
                    assert(r as int + 2 * (bit as int) == old_r as int + old_bit as int);
                    assert((n as int) < (cand as int) * (cand as int));
                }
            }
        }
    }
    proof {
        lemma_isqrt_unique(n as int, r as int);
    }
    r
}

/// Square root of a non-negative fixed-point value, as a fixed-point value:
/// `spec_isqrt(v * FX_ONE)` is the real square root of `v / FX_ONE`, rescaled
/// by `FX_ONE` and rounded down.
pub open spec fn spec_sqrt_fx(v: int) -> int {
    spec_isqrt(v * FX_ONE)
}

/// Fixed-point square root; result pinned by [`spec_sqrt_fx`].
pub fn sqrt_fx(v: i64) -> (r: i64)
    requires
        v >= 0,
    ensures
        r == spec_sqrt_fx(v as int),
        0 <= r <= FX_LIM,
{
    proof {
        assert((v as int) * (FX_ONE as int) < 0x4000_0000_0000_0000_0000_0000_0000_0000u128)
            by (nonlinear_arith)
            requires
                0 <= v <= 0x7fff_ffff_ffff_ffffi64,
        ;
    }
    let p: u128 = (v as u128) * (FX_ONE as u128);
    let r: u64 = isqrt_u128(p);
    proof {
        assert(r as int <= FX_LIM) by (nonlinear_arith)
            requires
                (r as int) * (r as int) <= p as int,
                p as int <= 0x7fff_ffff_ffff_ffffi64 * (FX_ONE as int),
                r >= 0,
        ;
    }
    r as i64
}

/// Halves a value, rounding to nearest; result pinned by [`spec_fx_half`].
pub fn fx_half(a: i64) -> (r: i64)
    ensures
        r == spec_fx_half(a as int),
        -FX_LIM <= r <= FX_LIM,
{
    let ma: u64 = abs64(a);
    let q: u64 = (ma + 1) / 2;
    proof {
        lemma_rdiv_neg(ma as int, 2);
    }
    clip_signed(q as u128, a < 0)
}

} // verus!
