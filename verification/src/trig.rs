//! Fixed-point trigonometry and square roots.
//!
//! Sine and cosine use a rational approximation over a half period, the
//! square root is the exact integer floor root, and the arctangent uses a
//! first-order rational approximation per octant. Each function's result is
//! pinned exactly by a `spec_` mirror, and bounded by its mathematical
//! range, so callers can reason about determinism and magnitude.

use vstd::prelude::*;
use vstd::arithmetic::div_mod::{lemma_fundamental_div_mod, lemma_div_is_ordered};
use crate::fixed::{spec_clamp, fx_clamp, lemma_div_of_multiple, lemma_div_is_ordered_by_one, FX_ONE};

verus! {

/// Fixed-point pi.
pub const FX_PI: i64 = 205887;

/// Fixed-point pi / 2.
pub const FX_HALF_PI: i64 = 102944;

/// Fixed-point pi / 4.
pub const FX_QUARTER_PI: i64 = 51472;

/// Fixed-point 2 pi, the period of the sine.
pub const FX_TWO_PI: i64 = 411774;

/// The largest angle or coordinate the trigonometric functions accept.
pub const TRIG_MAX: i64 = 0x10_0000_0000_0000;

/// The largest angle the cosine accepts: a quarter period under the
/// sine's bound.
pub const COS_MAX: i64 = 0xF_FFFF_FFF0_0000;

/// The arctangent correction weight (0.273).
pub const FX_ATAN_C: i64 = 17891;

/// The sine over the first half period, by the rational approximation
/// 16 t (pi - t) / (5 pi^2 - 4 t (pi - t)), clamped into the unit range.
#[verifier::opaque]
pub open spec fn spec_sin_half(t: int) -> int {
    if t == FX_HALF_PI as int {
        FX_ONE as int
    } else {
        let q = t * (FX_PI as int - t) / (FX_ONE as int);
        let den = 5 * ((FX_PI as int) * (FX_PI as int) / (FX_ONE as int)) - 4 * q;
        spec_clamp(16 * q * (FX_ONE as int) / den, 0, FX_ONE as int)
    }
}

/// The sine of any angle: the angle reduced into one period, the second
/// half period mirrored negative.
pub open spec fn spec_sin(x: int) -> int {
    let m = x % (FX_TWO_PI as int);
    if m < FX_PI as int {
        spec_sin_half(m)
    } else {
        -spec_sin_half(m - FX_PI as int)
    }
}

/// The cosine, as the sine shifted by a quarter period.
pub open spec fn spec_cos(x: int) -> int {
    spec_sin(x + FX_HALF_PI as int)
}

/// Reduce an angle into [0, 2 pi).
fn angle_mod(x: i64) -> (m: i64)
    requires
        -TRIG_MAX <= x <= TRIG_MAX,
    ensures
        m == (x as int) % (FX_TWO_PI as int),
        0 <= m < FX_TWO_PI,
{
    let q: i64 = crate::fixed::floor_div_long(x, FX_TWO_PI);
    proof {
        lemma_fundamental_div_mod(x as int, FX_TWO_PI as int);
        assert((FX_TWO_PI as int) * ((x as int) / (FX_TWO_PI as int))
            == ((x as int) / (FX_TWO_PI as int)) * (FX_TWO_PI as int)) by (nonlinear_arith);
        lemma_div_is_ordered(x as int, TRIG_MAX as int, FX_TWO_PI as int);
        lemma_div_is_ordered(-(TRIG_MAX as int), x as int, FX_TWO_PI as int);
        lemma_div_is_ordered_by_one(TRIG_MAX as int, FX_TWO_PI as int);
        crate::fixed::lemma_neg_div_ge(TRIG_MAX as int, FX_TWO_PI as int);
    }
    x - q * FX_TWO_PI
}

/// The sine over [0, pi), exactly as `spec_sin_half` states it: the
/// rational approximation, with the quarter-period pinned to exactly one
/// so that the axis values of sine and cosine are exact.
fn sin_half(t: i64) -> (r: i64)
    requires
        0 <= t < FX_PI,
    ensures
        r == spec_sin_half(t as int),
        0 <= r <= FX_ONE,
{
    if t == FX_HALF_PI {
        proof {
            reveal(spec_sin_half);
        }
        return FX_ONE;
    }
    proof {
        reveal(spec_sin_half);
        assert(0 <= (t as int) * (FX_PI as int - t as int)
            && 4 * ((t as int) * (FX_PI as int - t as int))
                <= (FX_PI as int) * (FX_PI as int)) by (nonlinear_arith)
            requires 0 <= (t as int) < FX_PI as int;
        lemma_div_is_ordered(0int, (t as int) * (FX_PI as int - t as int), 65536);
        lemma_div_is_ordered(4 * ((t as int) * (FX_PI as int - t as int)),
            (FX_PI as int) * (FX_PI as int), 65536);
    }
    let prod: i64 = t * (FX_PI - t);
    let q: i64 = ((prod as u64) / 65536) as i64;
    proof {
        lemma_quarter_bound(prod as int, q as int);
    }
    let pi2one: i64 = ((FX_PI as u64) * (FX_PI as u64) / 65536) as i64;
    proof {
        assert((FX_PI as int) * (FX_PI as int) == 42389456769) by (nonlinear_arith);
        lemma_fundamental_div_mod(42389456769, 65536);
        vstd::arithmetic::div_mod::lemma_fundamental_div_mod_converse(
            42389456769, 65536, 646811, 51073,
        );
    }
    let den: i64 = 5 * pi2one - 4 * q;
    let num: i64 = 16 * q * 65536;
    proof {
        lemma_div_is_ordered(0int, num as int, den as int);
        lemma_div_is_ordered_by_one(num as int, den as int);
    }
    let raw: i64 = ((num as u64) / (den as u64)) as i64;
    fx_clamp(raw, 0, FX_ONE)
}

/// Four times the quarter-scaled product stays under the squared half
/// period, so the denominator of the sine approximation stays positive.
proof fn lemma_quarter_bound(prod: int, q: int)
    requires
        0 <= prod,
        4 * prod <= (FX_PI as int) * (FX_PI as int),
        q == prod / 65536,
    ensures
        0 <= q,
        4 * q <= 646811,
{
    lemma_div_is_ordered(0int, prod, 65536);
    lemma_div_is_ordered(4 * prod, (FX_PI as int) * (FX_PI as int), 65536);
    assert((FX_PI as int) * (FX_PI as int) == 42389456769) by (nonlinear_arith);
    assert(42389456769int / 65536 == 646811) by {
        lemma_fundamental_div_mod(42389456769, 65536);
        vstd::arithmetic::div_mod::lemma_fundamental_div_mod_converse(
            42389456769, 65536, 646811, 51073,
        );
    }
    assert(4 * q <= (4 * prod) / 65536) by {
        lemma_fundamental_div_mod(prod, 65536);
        lemma_fundamental_div_mod(4 * prod, 65536);
        assert(prod == 65536 * (prod / 65536) + prod % 65536
            && 4 * prod == 65536 * ((4 * prod) / 65536) + (4 * prod) % 65536
            && 0 <= prod % 65536 < 65536
            && 0 <= (4 * prod) % 65536 < 65536
            ==> 4 * (prod / 65536) <= (4 * prod) / 65536) by (nonlinear_arith);
    }
    lemma_div_is_ordered(4 * prod, 42389456769, 65536);
}

/// The fixed-point sine: period 2 pi, range [-1, 1], the exact value of
/// its spec mirror for every angle in working range.
pub fn fixed_sin(x: i64) -> (r: i64)
    requires
        -TRIG_MAX <= x <= TRIG_MAX,
    ensures
        r == spec_sin(x as int),
        -FX_ONE <= r <= FX_ONE,
{
    let m: i64 = angle_mod(x);
    if m < FX_PI {
        sin_half(m)
    } else {
        -sin_half(m - FX_PI)
    }
}

/// The fixed-point cosine: the sine a quarter period ahead.
pub fn fixed_cos(x: i64) -> (r: i64)
    requires
        -COS_MAX <= x <= COS_MAX,
    ensures
        r == spec_cos(x as int),
        -FX_ONE <= r <= FX_ONE,
{
    fixed_sin(x + FX_HALF_PI)
}

/// The floor of the square root of a nonnegative number, defined one step
/// at a time.
pub open spec fn spec_isqrt(n: int) -> int
    decreases n,
{
    if n <= 0 {
        0
    } else {
        let p = spec_isqrt(n - 1);
        if (p + 1) * (p + 1) <= n {
            p + 1
        } else {
            p
        }
    }
}

/// The floor root squares to at most its argument, and the next integer
/// squares past it.
pub proof fn lemma_isqrt_char(n: int)
    requires
        0 <= n,
    ensures
        0 <= spec_isqrt(n),
        spec_isqrt(n) * spec_isqrt(n) <= n,
        n < (spec_isqrt(n) + 1) * (spec_isqrt(n) + 1),
    decreases n,
{
    if n == 0 {
        assert(spec_isqrt(0) == 0);
        assert(0int * 0 == 0) by (nonlinear_arith);
        assert((0int + 1) * (0int + 1) == 1) by (nonlinear_arith);
    } else {
        lemma_isqrt_char(n - 1);
        let p = spec_isqrt(n - 1);
        if (p + 1) * (p + 1) <= n {
            assert(n - 1 < (p + 1) * (p + 1));
            assert(n < (p + 2) * (p + 2)) by (nonlinear_arith)
                requires n <= (p + 1) * (p + 1), 0 <= p;
        }
    }
}

/// Only one nonnegative integer has the floor-root property.
pub proof fn lemma_isqrt_unique(n: int, a: int, b: int)
    requires
        0 <= a,
        0 <= b,
        a * a <= n < (a + 1) * (a + 1),
        b * b <= n < (b + 1) * (b + 1),
    ensures
        a == b,
{
    assert(a == b) by (nonlinear_arith)
        requires
            0 <= a,
            0 <= b,
            a * a <= n,
            n < (a + 1) * (a + 1),
            b * b <= n,
            n < (b + 1) * (b + 1);
}

/// The integer square root, by bisection: exactly the floor of the real
/// root.
pub fn isqrt(n: u64) -> (r: u64)
    ensures
        r == spec_isqrt(n as int),
        r * r <= n,
{
    let mut lo: u64 = 0;
    let mut hi: u64 = 0x1_0000_0000;
    proof {
        assert((0x1_0000_0000 as int) * (0x1_0000_0000 as int) > u64::MAX as int)
            by (nonlinear_arith);
        assert(0int * 0 == 0) by (nonlinear_arith);
    }
    while hi - lo > 1
        invariant
            lo < hi <= 0x1_0000_0000,
            (lo as int) * (lo as int) <= n as int,
            (n as int) < (hi as int) * (hi as int),
        decreases hi - lo,
    {
        let mid: u64 = lo + (hi - lo) / 2;
        proof {
            assert((mid as int) * (mid as int) < (0x1_0000_0000 as int) * (0x1_0000_0000 as int))
                by (nonlinear_arith)
                requires 0 <= (mid as int) < 0x1_0000_0000;
        }
        let sq: u64 = mid * mid;
        if sq <= n {
            lo = mid;
        } else {
            hi = mid;
        }
    }
    proof {
        lemma_isqrt_char(n as int);
        lemma_isqrt_unique(n as int, lo as int, spec_isqrt(n as int));
    }
    lo
}

/// The arctangent of a ratio in [0, 1], scaled into [0, pi / 4] by a
/// first-order rational approximation.
pub open spec fn spec_atan_unit(z: int) -> int {
    z * ((FX_QUARTER_PI as int) + (FX_ATAN_C as int) * ((FX_ONE as int) - z)
        / (FX_ONE as int)) / (FX_ONE as int)
}

/// The two-argument arctangent over the four quadrants, with the octant
/// reduced through `spec_atan_unit`; zero at the origin.
pub open spec fn spec_atan2(y: int, x: int) -> int {
    let ax = if x < 0 { -x } else { x };
    let ay = if y < 0 { -y } else { y };
    if ax == 0 && ay == 0 {
        0
    } else {
        let base = if ax >= ay {
            spec_atan_unit(ay * (FX_ONE as int) / ax)
        } else {
            (FX_HALF_PI as int) - spec_atan_unit(ax * (FX_ONE as int) / ay)
        };
        if x >= 0 && y >= 0 {
            base
        } else if x < 0 && y >= 0 {
            (FX_PI as int) - base
        } else if x < 0 {
            base - (FX_PI as int)
        } else {
            -base
        }
    }
}

/// The arctangent core over one octant, exactly as its mirror states.
fn atan_unit(z: i64) -> (r: i64)
    requires
        0 <= z <= FX_ONE,
    ensures
        r == spec_atan_unit(z as int),
        0 <= r <= FX_HALF_PI,
{
    let w: i64 = FX_QUARTER_PI + ((FX_ATAN_C as u64) * ((FX_ONE - z) as u64) / 65536) as i64;
    proof {
        assert(0 <= (FX_ATAN_C as int) * ((FX_ONE as int) - z as int)
            && (FX_ATAN_C as int) * ((FX_ONE as int) - z as int)
                <= (FX_ATAN_C as int) * 65536) by (nonlinear_arith)
            requires 0 <= z as int <= 65536;
        lemma_div_is_ordered(0int,
            (FX_ATAN_C as int) * ((FX_ONE as int) - z as int), 65536);
        lemma_div_is_ordered((FX_ATAN_C as int) * ((FX_ONE as int) - z as int),
            (FX_ATAN_C as int) * 65536, 65536);
        lemma_div_of_multiple(FX_ATAN_C as int, 65536);
        assert(0 <= (z as int) * (w as int)
            && (z as int) * (w as int) <= 65536 * ((FX_QUARTER_PI + FX_ATAN_C) as int))
            by (nonlinear_arith)
            requires 0 <= z as int <= 65536,
                0 < w as int <= (FX_QUARTER_PI + FX_ATAN_C) as int;
        lemma_div_is_ordered(0int, (z as int) * (w as int), 65536);
        lemma_div_is_ordered((z as int) * (w as int),
            65536 * ((FX_QUARTER_PI + FX_ATAN_C) as int), 65536);
        assert(65536 * ((FX_QUARTER_PI + FX_ATAN_C) as int)
            == ((FX_QUARTER_PI + FX_ATAN_C) as int) * 65536) by (nonlinear_arith);
        lemma_div_of_multiple((FX_QUARTER_PI + FX_ATAN_C) as int, 65536);
    }
    let p: i64 = z * w;
    ((p as u64) / 65536) as i64
}

/// The fixed-point two-argument arctangent, in (-pi, pi], the exact value
/// of its spec mirror.
pub fn fixed_atan2(y: i64, x: i64) -> (r: i64)
    requires
        -0x40_0000_0000 <= x <= 0x40_0000_0000,
        -0x40_0000_0000 <= y <= 0x40_0000_0000,
    ensures
        r == spec_atan2(y as int, x as int),
        -FX_PI <= r <= FX_PI,
{
    let ax: i64 = if x < 0 { -x } else { x };
    let ay: i64 = if y < 0 { -y } else { y };
    if ax == 0 && ay == 0 {
        return 0;
    }
    let base: i64 = if ax >= ay {
        let z: i64 = (((ay as u64) * 65536) / (ax as u64)) as i64;
        proof {
            lemma_ratio_unit(ay as int, ax as int);
        }
        atan_unit(z)
    } else {
        let z: i64 = (((ax as u64) * 65536) / (ay as u64)) as i64;
        proof {
            lemma_ratio_unit(ax as int, ay as int);
        }
        FX_HALF_PI - atan_unit(z)
    };
    if x >= 0 && y >= 0 {
        base
    } else if x < 0 && y >= 0 {
        FX_PI - base
    } else if x < 0 {
        base - FX_PI
    } else {
        -base
    }
}

/// The scaled ratio of a smaller by a larger magnitude stays in the unit
/// interval.
proof fn lemma_ratio_unit(small: int, large: int)
    requires
        0 <= small <= large,
        0 < large,
    ensures
        0 <= small * 65536 / large <= 65536,
{
    assert(0 <= small * 65536 && small * 65536 <= large * 65536) by (nonlinear_arith)
        requires 0 <= small <= large;
    lemma_div_is_ordered(0int, small * 65536, large);
    lemma_div_is_ordered(small * 65536, large * 65536, large);
    lemma_div_of_multiple(65536int, large);
    assert(large * 65536 == 65536 * large) by (nonlinear_arith);
}

} // verus!
