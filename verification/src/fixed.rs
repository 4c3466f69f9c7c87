//! 16.16 fixed-point scalar arithmetic.
//!
//! A scalar is an `i64` holding `value * 65536`. Every operation has an
//! exact contract over mathematical integers, so the stages built on top of
//! these primitives can state their results exactly.

use vstd::prelude::*;
use vstd::arithmetic::div_mod::{
    lemma_fundamental_div_mod, lemma_fundamental_div_mod_converse, lemma_div_is_ordered,
};

verus! {

/// The fixed-point representation of 1.0.
pub const FX_ONE: i64 = 65536;

/// The fixed-point representation of 0.5.
pub const FX_HALF: i64 = 32768;

/// Magnitude bound under which all fixed-point products stay well inside
/// the intermediate 128-bit range used by the primitives.
pub const FX_ABS_MAX: i64 = 0x40_0000_0000;

/// A scalar is in working range.
pub open spec fn fx_wf(a: i64) -> bool {
    -FX_ABS_MAX <= a <= FX_ABS_MAX
}

/// Mathematical value of a fixed-point product: floor(a * b / 65536).
pub open spec fn spec_fx_mul(a: int, b: int) -> int {
    (a * b) / (FX_ONE as int)
}

/// Mathematical value of a fixed-point quotient: floor(a * 65536 / b).
pub open spec fn spec_fx_div(a: int, b: int) -> int {
    (a * (FX_ONE as int)) / b
}

/// Linear interpolation between two scalars: a + floor((b - a) * t / 65536).
pub open spec fn spec_fx_lerp(a: int, b: int, t: int) -> int {
    a + (b - a) * t / (FX_ONE as int)
}

/// Floor division of a wide intermediate by a positive divisor.
pub fn floor_div_i128(p: i128, d: i128) -> (r: i128)
    requires
        0 < d <= 0x10_0000_0000_0000_0000_0000_0000,
        -0x4000_0000_0000_0000_0000_0000_0000_0000 <= p
            <= 0x4000_0000_0000_0000_0000_0000_0000_0000,
    ensures
        r == (p as int) / (d as int),
{
    if p >= 0 {
        let q: u128 = (p as u128) / (d as u128);
        proof {
            assert(q == (p as int) / (d as int));
            lemma_div_is_ordered_by_one(p as int, d as int);
            lemma_div_is_ordered(0int, p as int, d as int);
        }
        q as i128
    } else {
        let n: u128 = (-p) as u128;
        let q: u128 = (n + (d as u128) - 1) / (d as u128);
        proof {
            let ni = n as int;
            let di = d as int;
            let qn = ni / di;
            let rn = ni % di;
            lemma_fundamental_div_mod(ni, di);
            assert(ni == di * qn + rn);
            assert(di * qn == qn * di && (qn + 1) * di == qn * di + di && (-qn) * di == -(qn * di)
                && (-(qn + 1)) * di == -(qn * di) - di) by (nonlinear_arith);
            if rn == 0 {
                lemma_fundamental_div_mod_converse(ni + di - 1, di, qn, di - 1);
                assert(q == qn);
                lemma_fundamental_div_mod_converse(p as int, di, -qn, 0);
            } else {
                lemma_fundamental_div_mod_converse(ni + di - 1, di, qn + 1, rn - 1);
                assert(q == qn + 1);
                lemma_fundamental_div_mod_converse(p as int, di, -(qn + 1), di - rn);
            }
            lemma_div_is_ordered_by_one(ni + di - 1, di);
            lemma_div_is_ordered(0int, ni, di);
        }
        -(q as i128)
    }
}

/// Scale a wide product back down to fixed point.
pub fn fx_down(p: i128) -> (r: i64)
    requires
        -0x8000_0000_0000_0000 * 0x10000 <= p <= 0x7FFF_FFFF_FFFF_FFFF * 0x10000,
    ensures
        r == (p as int) / (FX_ONE as int),
{
    let q: i128 = floor_div_i128(p, 65536);
    proof {
        let hi = 0x7FFF_FFFF_FFFF_FFFFint * 0x10000;
        let lo = -0x8000_0000_0000_0000int * 0x10000;
        lemma_div_is_ordered(p as int, hi, 65536);
        lemma_div_is_ordered(lo, p as int, 65536);
        lemma_div_of_multiple(0x7FFF_FFFF_FFFF_FFFFint, 65536);
        lemma_div_of_multiple(-0x8000_0000_0000_0000int, 65536);
    }
    q as i64
}

/// Fixed-point product, rounded toward negative infinity.
pub fn fx_mul(a: i64, b: i64) -> (r: i64)
    requires
        fx_wf(a),
        fx_wf(b),
    ensures
        r == spec_fx_mul(a as int, b as int),
{
    proof {
        assert((a as int) * (b as int) <= 0x40_0000_0000int * 0x40_0000_0000
            && (a as int) * (b as int) >= -0x40_0000_0000int * 0x40_0000_0000)
            by (nonlinear_arith)
            requires -0x40_0000_0000 <= a as int <= 0x40_0000_0000,
                -0x40_0000_0000 <= b as int <= 0x40_0000_0000;
    }
    let p: i128 = (a as i128) * (b as i128);
    fx_down(p)
}

/// Fixed-point quotient by a positive scalar, rounded toward negative infinity.
pub fn fx_div(a: i64, b: i64) -> (r: i64)
    requires
        fx_wf(a),
        0 < b,
    ensures
        r == spec_fx_div(a as int, b as int),
{
    let p: i128 = (a as i128) * 65536;
    let q: i128 = floor_div_i128(p, b as i128);
    proof {
        let bd = 0x40_0000_0000int * 65536;
        lemma_div_is_ordered(p as int, bd, b as int);
        lemma_div_is_ordered(-bd, p as int, b as int);
        lemma_div_is_ordered_by_one(bd, b as int);
        lemma_neg_div_ge(bd, b as int);
    }
    q as i64
}

/// Floor division of a scalar by a positive divisor.
pub fn floor_div_long(a: i64, d: i64) -> (r: i64)
    requires
        0 < d,
    ensures
        r == (a as int) / (d as int),
{
    let q: i128 = floor_div_i128(a as i128, d as i128);
    proof {
        if a >= 0 {
            lemma_div_is_ordered(0int, a as int, d as int);
            lemma_div_is_ordered_by_one(a as int, d as int);
        } else {
            lemma_div_is_ordered(a as int, 0int, d as int);
            lemma_neg_div_ge(-(a as int), d as int);
            assert(0int / (d as int) == 0) by {
                lemma_div_of_multiple(0int, d as int);
                assert(0int * (d as int) == 0) by (nonlinear_arith);
            }
        }
    }
    q as i64
}

/// The magnitude of a fixed-point product, from its factors' magnitudes.
pub proof fn lemma_fx_mul_mag(a: int, b: int, ba: int, bb: int)
    requires
        -ba <= a <= ba,
        -bb <= b <= bb,
        0 <= ba,
        0 <= bb,
    ensures
        spec_fx_mul(a, b) <= ba * bb / 65536,
        spec_fx_mul(a, b) >= -(ba * bb / 65536) - 1,
{
    assert(-(ba * bb) <= a * b <= ba * bb) by (nonlinear_arith)
        requires -ba <= a <= ba, -bb <= b <= bb, 0 <= ba, 0 <= bb;
    lemma_div_is_ordered(a * b, ba * bb, 65536);
    lemma_div_is_ordered(-(ba * bb), a * b, 65536);
    lemma_neg_div_floor(ba * bb, 65536);
}

/// The scaled quotient of two scalars with a positive divisor, kept wide.
pub fn wide_fx_div(a: i64, b: i64) -> (r: i128)
    requires
        0 < b,
    ensures
        r == (a as int) * 65536 / (b as int),
{
    floor_div_i128((a as i128) * 65536, b as i128)
}

/// The quotient of two wide intermediates, the divisor made positive
/// first, clamped into [-lim, lim].
pub open spec fn spec_ratio_clamped(c: int, d: int, lim: int) -> int {
    let cn = if d < 0 { -c } else { c };
    let dn = if d < 0 { -d } else { d };
    spec_clamp(cn / dn, -lim, lim)
}

/// Divide two wide intermediates, making the divisor positive first, and
/// clamp the quotient into [-lim, lim].
pub fn ratio_clamped(c: i128, d: i128, lim: i64) -> (r: i64)
    requires
        d != 0,
        0 < lim,
        -0x4000_0000_0000_0000_0000_0000_0000_0000 <= c
            <= 0x4000_0000_0000_0000_0000_0000_0000_0000,
        -0x10_0000_0000_0000_0000_0000_0000 <= d <= 0x10_0000_0000_0000_0000_0000_0000,
    ensures
        r == spec_ratio_clamped(c as int, d as int, lim as int),
        -lim <= r <= lim,
{
    let cn: i128 = if d < 0 { -c } else { c };
    let dn: i128 = if d < 0 { -d } else { d };
    let q: i128 = floor_div_i128(cn, dn);
    if q < -(lim as i128) {
        -lim
    } else if q > lim as i128 {
        lim
    } else {
        q as i64
    }
}

/// Split a scalar into its cell index (the floor of its value) and its
/// nonnegative fractional part.
pub fn fx_split(a: i64) -> (r: (i64, i64))
    requires
        -0x10_0000_0000_0000 <= a <= 0x10_0000_0000_0000,
    ensures
        r.0 == (a as int) / (FX_ONE as int),
        r.1 == (a as int) % (FX_ONE as int),
        0 <= r.1 < FX_ONE,
        a == r.0 * (FX_ONE as int) + r.1,
        -0x1_0000_0000_00 <= r.0 <= 0x1_0000_0000_00,
{
    let c128: i128 = floor_div_i128(a as i128, 65536);
    proof {
        lemma_fundamental_div_mod(a as int, 65536);
        lemma_div_is_ordered(a as int, 0x10_0000_0000_0000int, 65536);
        lemma_div_is_ordered(-0x10_0000_0000_0000int, a as int, 65536);
        lemma_div_of_multiple(0x1_0000_0000_00int, 65536);
        lemma_div_of_multiple(-0x1_0000_0000_00int, 65536);
    }
    let c: i64 = c128 as i64;
    let f: i64 = a - c * 65536;
    (c, f)
}

/// A multiple of a positive divisor divides back to its factor.
pub proof fn lemma_div_of_multiple(k: int, d: int)
    requires
        0 < d,
    ensures
        (k * d) / d == k,
{
    lemma_fundamental_div_mod_converse(k * d, d, k, 0);
}

/// Dividing a nonnegative bound by a positive divisor does not increase it.
pub proof fn lemma_div_is_ordered_by_one(x: int, d: int)
    requires
        0 <= x,
        0 < d,
    ensures
        x / d <= x,
{
    lemma_fundamental_div_mod(x, d);
    assert(x / d <= x) by (nonlinear_arith)
        requires 0 <= x, 0 < d, x == d * (x / d) + x % d, 0 <= x % d < d;
}

/// The floor quotient of a negated value undershoots the negated floor
/// quotient by at most one.
pub proof fn lemma_neg_div_floor(a: int, d: int)
    requires
        0 <= a,
        0 < d,
    ensures
        (-a) / d >= -(a / d) - 1,
{
    lemma_fundamental_div_mod(a, d);
    let q = a / d;
    let r = a % d;
    assert(d * q == q * d && (-q) * d == -(q * d) && (-q - 1) * d == -(q * d) - d)
        by (nonlinear_arith);
    if r == 0 {
        lemma_fundamental_div_mod_converse(-a, d, -q, 0);
    } else {
        lemma_fundamental_div_mod_converse(-a, d, -q - 1, d - r);
    }
}

/// Dividing a negated nonnegative bound by a positive divisor does not decrease it.
pub proof fn lemma_neg_div_ge(x: int, d: int)
    requires
        0 <= x,
        0 < d,
    ensures
        -x <= (-x) / d,
{
    lemma_fundamental_div_mod(-x, d);
    assert(-x <= (-x) / d) by (nonlinear_arith)
        requires 0 <= x, 0 < d, -x == d * ((-x) / d) + (-x) % d, 0 <= (-x) % d < d;
}

/// An interpolated value lies between its two endpoints.
pub proof fn lemma_fx_lerp_between(a: int, b: int, t: int)
    requires
        0 <= t <= FX_ONE as int,
    ensures
        a <= b ==> a <= spec_fx_lerp(a, b, t) <= b,
        b <= a ==> b <= spec_fx_lerp(a, b, t) <= a,
{
    let d = b - a;
    if d == 0 {
        assert(0 * t == 0) by (nonlinear_arith);
        lemma_div_of_multiple(0int, 65536);
        assert(0int / 65536 == 0);
    } else if d > 0 {
        assert(0 <= d * t <= d * 65536) by (nonlinear_arith)
            requires 0 < d, 0 <= t <= 65536;
        lemma_div_is_ordered(0int, d * t, 65536);
        lemma_div_is_ordered(d * t, d * 65536, 65536);
        lemma_div_of_multiple(d, 65536);
        lemma_div_of_multiple(0int, 65536);
    } else {
        assert(d * 65536 <= d * t <= 0) by (nonlinear_arith)
            requires d < 0, 0 <= t <= 65536;
        lemma_div_is_ordered(d * t, 0int, 65536);
        lemma_div_is_ordered(d * 65536, d * t, 65536);
        lemma_div_of_multiple(d, 65536);
        lemma_div_of_multiple(0int, 65536);
    }
}

/// Clamp a scalar into a closed interval.
pub fn fx_clamp(v: i64, lo: i64, hi: i64) -> (r: i64)
    requires
        lo <= hi,
    ensures
        r == spec_clamp(v as int, lo as int, hi as int),
{
    if v < lo {
        lo
    } else if v > hi {
        hi
    } else {
        v
    }
}

/// Mathematical clamp into [lo, hi].
pub open spec fn spec_clamp(v: int, lo: int, hi: int) -> int {
    if v < lo {
        lo
    } else if v > hi {
        hi
    } else {
        v
    }
}

/// Absolute value of a scalar in working range.
pub fn fx_abs(v: i64) -> (r: i64)
    requires
        fx_wf(v),
    ensures
        r == abs_int(v as int),
{
    if v < 0 {
        -v
    } else {
        v
    }
}

/// Mathematical absolute value.
pub open spec fn abs_int(v: int) -> int {
    if v < 0 {
        -v
    } else {
        v
    }
}

/// Smaller of two scalars.
pub fn fx_min(a: i64, b: i64) -> (r: i64)
    ensures
        r == if a as int <= b as int { a as int } else { b as int },
{
    if a <= b {
        a
    } else {
        b
    }
}

/// Larger of two scalars.
pub fn fx_max(a: i64, b: i64) -> (r: i64)
    ensures
        r == if a as int >= b as int { a as int } else { b as int },
{
    if a >= b {
        a
    } else {
        b
    }
}

/// Linear interpolation from `a` to `b` by `t` in [0, 65536].
pub fn fx_lerp(a: i64, b: i64, t: i64) -> (r: i64)
    requires
        fx_wf(a),
        fx_wf(b),
        0 <= t <= FX_ONE,
    ensures
        r == spec_fx_lerp(a as int, b as int, t as int),
{
    let d: i128 = (b as i128) - (a as i128);
    proof {
        assert(((b as int) - (a as int)) * (t as int) <= 0x80_0000_0000int * 65536
            && ((b as int) - (a as int)) * (t as int) >= -0x80_0000_0000int * 65536)
            by (nonlinear_arith)
            requires -0x80_0000_0000 <= (b as int) - (a as int) <= 0x80_0000_0000,
                0 <= t as int <= 65536;
    }
    let p: i128 = d * (t as i128);
    proof {
        let bd = 0x80_0000_0000int * 65536;
        lemma_div_is_ordered(p as int, bd, 65536);
        lemma_div_is_ordered(-bd, p as int, 65536);
        lemma_div_of_multiple(0x80_0000_0000int, 65536);
        lemma_div_of_multiple(-0x80_0000_0000int, 65536);
    }
    let s: i64 = fx_down(p);
    a + s
}

} // verus!
