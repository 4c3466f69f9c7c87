//! A seeded, deterministic coherent-noise field, and the fractal (octave)
//! accumulator built on it.
//!
//! The field hashes the corners of the unit lattice cell around a sample
//! point and interpolates them with a smooth fade, entirely in fixed-point
//! integers. Every sample is an exact function of the seed and the sample
//! position, stated by the `spec_` mirrors below, and lies in
//! [-65536, 65536], the fixed-point [-1, 1].

use vstd::prelude::*;
use vstd::arithmetic::div_mod::{lemma_fundamental_div_mod, lemma_div_is_ordered};
use crate::fixed::{
    fx_split, fx_lerp, fx_mul, spec_fx_lerp, spec_fx_mul, lemma_fx_lerp_between,
    lemma_div_of_multiple, FX_ONE,
};

verus! {

/// The largest sample coordinate the field accepts.
pub const NOISE_MAX: i64 = 0x10_0000_0000_0000;

/// The largest coordinate the octave accumulator accepts; six octave
/// doublings and the per-octave offset stay under [`NOISE_MAX`].
pub const FBM_MAX: i64 = 0x7000_0000_0000;

/// The most octaves the accumulator takes.
pub const FBM_MAX_OCTAVES: usize = 6;

/// The fixed-point per-octave offset that breaks lattice symmetry (0.1).
pub const FBM_OFFSET: i64 = 6554;

/// A seeded coherent-noise field. Copying the handle copies the whole
/// field: a sample depends on nothing but the seed and the position.
#[derive(Clone, Copy, PartialEq, Eq, Structural, Debug)]
pub struct NoiseField {
    pub seed: u64,
}

/// One diffusion round of the corner hash.
pub open spec fn spec_scramble(v: u64) -> u64 {
    let a = v ^ (v << 13);
    let b = a ^ (a >> 7);
    b ^ (b << 17)
}

/// The hashed lattice-corner value, in [-65536, 65535].
#[verifier::opaque]
pub open spec fn spec_corner(seed: u64, cx: int, cy: int) -> int {
    let ux = (cx + 0x100_0000_0000) as u64;
    let uy = (cy + 0x100_0000_0000) as u64;
    let h = spec_scramble(seed ^ spec_scramble(ux) ^ spec_scramble(
        uy ^ 0x9E37_79B9_7F4A_7C15,
    ));
    ((h & 0x1_FFFF) as int) - 65536
}

/// The smooth fade weight of a fractional offset: t * t * (3 - 2 t) over
/// the fixed-point unit interval.
#[verifier::opaque]
pub open spec fn spec_fade(t: int) -> int {
    (t * t / (FX_ONE as int)) * (3 * (FX_ONE as int) - 2 * t) / (FX_ONE as int)
}

/// The sampled field: the four corner values of the lattice cell around
/// the point, blended by the faded fractional offsets.
pub open spec fn spec_noise2(seed: u64, x: int, y: int) -> int {
    let cx = x / (FX_ONE as int);
    let cy = y / (FX_ONE as int);
    let u = spec_fade(x % (FX_ONE as int));
    let v = spec_fade(y % (FX_ONE as int));
    let n0 = spec_fx_lerp(spec_corner(seed, cx, cy), spec_corner(seed, cx + 1, cy), u);
    let n1 = spec_fx_lerp(
        spec_corner(seed, cx, cy + 1),
        spec_corner(seed, cx + 1, cy + 1),
        u,
    );
    spec_fx_lerp(n0, n1, v)
}

impl NoiseField {
    /// A field from its seed.
    pub fn with_seed(seed: u64) -> (n: NoiseField)
        ensures
            n.seed == seed,
    {
        NoiseField { seed }
    }

    /// Sample the field. The result is the exact spec-level sample, and
    /// lies in the fixed-point [-1, 1].
    pub fn noise2(&self, x: i64, y: i64) -> (r: i64)
        requires
            -NOISE_MAX <= x <= NOISE_MAX,
            -NOISE_MAX <= y <= NOISE_MAX,
        ensures
            r == spec_noise2(self.seed, x as int, y as int),
            -FX_ONE <= r <= FX_ONE,
    {
        let (cx, fx) = fx_split(x);
        let (cy, fy) = fx_split(y);
        let u: i64 = fade(fx);
        let v: i64 = fade(fy);
        let c00: i64 = corner(self.seed, cx, cy);
        let c10: i64 = corner(self.seed, cx + 1, cy);
        let c01: i64 = corner(self.seed, cx, cy + 1);
        let c11: i64 = corner(self.seed, cx + 1, cy + 1);
        let n0: i64 = fx_lerp(c00, c10, u);
        let n1: i64 = fx_lerp(c01, c11, u);
        proof {
            lemma_fx_lerp_between(c00 as int, c10 as int, u as int);
            lemma_fx_lerp_between(c01 as int, c11 as int, u as int);
            lemma_fx_lerp_between(n0 as int, n1 as int, v as int);
        }
        fx_lerp(n0, n1, v)
    }
}

/// The octave amplitudes: each one is the previous damped by 0.6.
pub open spec fn spec_amp_next(amp: int) -> int {
    amp * 3 / 5
}

/// The remaining octaves of the fractal accumulator, from octave `i` on,
/// with the current amplitude and frequency doubling per octave.
pub open spec fn spec_fbm_rec(
    seed: u64,
    x: int,
    y: int,
    i: nat,
    octaves: nat,
    amp: int,
    freq: int,
) -> int
    decreases octaves - i,
{
    if i >= octaves {
        0
    } else {
        let off = i * (FBM_OFFSET as int);
        spec_fx_mul(spec_noise2(seed, x * freq + off, y * freq + off), amp)
            + spec_fbm_rec(seed, x, y, i + 1, octaves, spec_amp_next(amp), freq * 2)
    }
}

/// The whole fractal accumulation: octaves summed from full amplitude and
/// unit frequency.
pub open spec fn spec_fbm(seed: u64, x: int, y: int, octaves: nat) -> int {
    spec_fbm_rec(seed, x, y, 0, octaves, FX_ONE as int, 1)
}

/// The sum of the remaining octave amplitudes from octave `i` on.
pub open spec fn spec_amp_sum(i: nat, octaves: nat, amp: int) -> int
    decreases octaves - i,
{
    if i >= octaves {
        0
    } else {
        amp + spec_amp_sum(i + 1, octaves, spec_amp_next(amp))
    }
}

/// The geometric amplitude series is nonnegative and bounded: with the
/// damping factor 0.6, the amplitudes from any octave on sum to at most
/// 5/2 of the first.
pub proof fn lemma_amp_sum_bound(i: nat, octaves: nat, amp: int)
    requires
        0 <= amp,
    ensures
        0 <= spec_amp_sum(i, octaves, amp),
        2 * spec_amp_sum(i, octaves, amp) <= 5 * amp,
    decreases octaves - i,
{
    if i < octaves {
        let amp3 = spec_amp_next(amp);
        lemma_fundamental_div_mod(amp * 3, 5);
        lemma_div_is_ordered(0int, amp * 3, 5);
        assert(5 * amp3 <= amp * 3);
        lemma_amp_sum_bound(i + 1, octaves, amp3);
    }
}

/// Accumulated fractal noise: `octaves` samples of the field, the sample
/// position doubling in frequency and the weight damped by 0.6 from one
/// octave to the next, with a small per-octave offset breaking symmetry.
/// The result is the exact spec-level accumulation — a repeated call with
/// the same field, position and octave count returns the same value — and
/// its magnitude is bounded by the geometric sum of the octave amplitudes.
pub fn fbm_noise(noise: &NoiseField, x: i64, y: i64, octaves: usize) -> (r: i64)
    requires
        -FBM_MAX <= x <= FBM_MAX,
        -FBM_MAX <= y <= FBM_MAX,
        octaves <= FBM_MAX_OCTAVES,
    ensures
        r == spec_fbm(noise.seed, x as int, y as int, octaves as nat),
        -spec_amp_sum(0, octaves as nat, FX_ONE as int) <= r
            <= spec_amp_sum(0, octaves as nat, FX_ONE as int),
        -163840 <= r <= 163840,
{
    let ghost total = spec_amp_sum(0, octaves as nat, FX_ONE as int);
    proof {
        lemma_amp_sum_bound(0, octaves as nat, FX_ONE as int);
    }
    let mut value: i64 = 0;
    let mut amplitude: i64 = 65536;
    let mut frequency: i64 = 1;
    let mut i: usize = 0;
    while i < octaves
        invariant
            -FBM_MAX <= x <= FBM_MAX,
            -FBM_MAX <= y <= FBM_MAX,
            octaves <= FBM_MAX_OCTAVES,
            i <= octaves,
            0 <= amplitude <= 65536,
            1 <= frequency,
            frequency == spec_pow2(i as nat),
            total == spec_amp_sum(0, octaves as nat, FX_ONE as int),
            value + spec_fbm_rec(
                noise.seed, x as int, y as int, i as nat, octaves as nat,
                amplitude as int, frequency as int,
            ) == spec_fbm(noise.seed, x as int, y as int, octaves as nat),
            value + spec_amp_sum(i as nat, octaves as nat, amplitude as int) <= total,
            -value + spec_amp_sum(i as nat, octaves as nat, amplitude as int) <= total,
            0 <= spec_amp_sum(i as nat, octaves as nat, amplitude as int),
            2 * total <= 5 * 65536,
            0 <= total,
        decreases octaves - i,
    {
        proof {
            lemma_pow2_bounded(i as nat);
            assert(x * frequency <= FBM_MAX as int * 32
                && x * frequency >= -(FBM_MAX as int) * 32
                && y * frequency <= FBM_MAX as int * 32
                && y * frequency >= -(FBM_MAX as int) * 32) by (nonlinear_arith)
                requires
                    -(FBM_MAX as int) <= x as int <= FBM_MAX as int,
                    -(FBM_MAX as int) <= y as int <= FBM_MAX as int,
                    1 <= frequency as int <= 32;
        }
        let off: i64 = (i as i64) * FBM_OFFSET;
        let sx: i64 = x * frequency + off;
        let sy: i64 = y * frequency + off;
        let sample: i64 = noise.noise2(sx, sy);
        let term: i64 = fx_mul(sample, amplitude);
        proof {
            lemma_term_within_amp(sample as int, amplitude as int);
            lemma_amp_sum_bound(i as nat, octaves as nat, amplitude as int);
            lemma_amp_sum_bound((i + 1) as nat, octaves as nat,
                spec_amp_next(amplitude as int));
            lemma_fundamental_div_mod(amplitude as int * 3, 5);
            lemma_div_is_ordered(0int, amplitude as int * 3, 5);
        }
        value = value + term;
        amplitude = (((amplitude as u64) * 3) / 5) as i64;
        frequency = frequency * 2;
        i = i + 1;
    }
    value
}

/// Powers of two, for the per-octave frequency doubling.
pub open spec fn spec_pow2(n: nat) -> int
    decreases n,
{
    if n == 0 {
        1
    } else {
        2 * spec_pow2((n - 1) as nat)
    }
}

/// The first seven powers of two stay under 65.
proof fn lemma_pow2_bounded(n: nat)
    requires
        n <= 6,
    ensures
        1 <= spec_pow2(n) <= 64,
        n <= 5 ==> spec_pow2(n) <= 32,
{
    assert(spec_pow2(0) == 1);
    assert(spec_pow2(1) == 2);
    assert(spec_pow2(2) == 4);
    assert(spec_pow2(3) == 8);
    assert(spec_pow2(4) == 16);
    assert(spec_pow2(5) == 32);
    assert(spec_pow2(6) == 64);
}

/// Weighting a unit-bounded sample by a nonnegative amplitude yields a
/// term within that amplitude.
proof fn lemma_term_within_amp(sample: int, amp: int)
    requires
        -65536 <= sample <= 65536,
        0 <= amp,
    ensures
        -amp <= spec_fx_mul(sample, amp) <= amp,
{
    assert(-(65536 * amp) <= sample * amp <= 65536 * amp) by (nonlinear_arith)
        requires -65536 <= sample <= 65536, 0 <= amp;
    lemma_div_is_ordered(sample * amp, 65536 * amp, 65536);
    lemma_div_is_ordered(-(65536 * amp), sample * amp, 65536);
    assert(65536 * amp == amp * 65536) by (nonlinear_arith);
    lemma_div_of_multiple(amp, 65536);
    lemma_div_of_multiple(-amp, 65536);
    assert(-(65536 * amp) == (-amp) * 65536) by (nonlinear_arith);
}

/// One diffusion round of the corner hash.
fn scramble(v: u64) -> (r: u64)
    ensures
        r == spec_scramble(v),
{
    let a: u64 = v ^ (v << 13);
    let b: u64 = a ^ (a >> 7);
    b ^ (b << 17)
}

/// The hashed value of one lattice corner.
fn corner(seed: u64, cx: i64, cy: i64) -> (r: i64)
    requires
        -0x2_0000_0000_00 <= cx <= 0x2_0000_0000_00,
        -0x2_0000_0000_00 <= cy <= 0x2_0000_0000_00,
    ensures
        r == spec_corner(seed, cx as int, cy as int),
        -FX_ONE <= r < FX_ONE,
{
    proof {
        reveal(spec_corner);
    }
    let ux: u64 = (cx + 0x100_0000_0000) as u64;
    let uy: u64 = (cy + 0x100_0000_0000) as u64;
    let h: u64 = scramble(seed ^ scramble(ux) ^ scramble(uy ^ 0x9E37_79B9_7F4A_7C15));
    let low: u64 = h & 0x1_FFFF;
    proof {
        assert(h & 0x1_FFFF < 0x2_0000) by (bit_vector);
    }
    (low as i64) - 65536
}

/// The smooth fade weight of a fractional offset, in [0, 65536].
fn fade(t: i64) -> (r: i64)
    requires
        0 <= t < FX_ONE,
    ensures
        r == spec_fade(t as int),
        0 <= r <= FX_ONE,
{
    proof {
        reveal(spec_fade);
        assert(0 <= (t as int) * (t as int) && (t as int) * (t as int) <= (t as int) * 65536)
            by (nonlinear_arith)
            requires 0 <= (t as int) < 65536;
        lemma_nonneg_div_le((t as int) * (t as int), t as int, 65536);
    }
    let tt: u64 = (t as u64) * (t as u64);
    let t2: i64 = (tt / 65536) as i64;
    let w: i64 = 3 * 65536 - 2 * t;
    proof {
        assert(0 <= (t2 as int) * (w as int) && (t2 as int) * (w as int)
            <= 65536int * (3 * 65536)) by (nonlinear_arith)
            requires 0 <= t2 as int <= 65536, 0 < w as int <= 3 * 65536;
        lemma_fade_in_unit(t as int, t2 as int);
        lemma_div_is_ordered(0int, (t2 as int) * (w as int), 65536);
    }
    let p: i64 = t2 * w;
    ((p as u64) / 65536) as i64
}

/// The quotient of a product of bounded factors stays under the bound.
proof fn lemma_nonneg_div_le(p: int, b: int, d: int)
    requires
        0 < d,
        0 <= b,
        0 <= p <= b * d,
    ensures
        0 <= p / d <= b,
{
    lemma_div_is_ordered(0int, p, d);
    lemma_div_is_ordered(p, b * d, d);
    lemma_div_of_multiple(b, d);
}

/// The fade polynomial never leaves the fixed-point unit interval:
/// t2 * (3 - 2 t) <= 1 when t2 <= t * t.
proof fn lemma_fade_in_unit(t: int, t2: int)
    requires
        0 <= t < 65536,
        0 <= t2,
        t2 <= t * t / 65536,
    ensures
        t2 * (3 * 65536 - 2 * t) / 65536 <= 65536,
{
    let one = 65536int;
    let w = 3 * one - 2 * t;
    let q = t * t / one;
    lemma_fundamental_div_mod(t * t, one);
    assert(q * one <= t * t);
    let s = one - t;
    assert(s * s * (one + 2 * t) >= 0) by (nonlinear_arith)
        requires 0 <= t, s == one - t, 0 < one;
    assert(one * one * one - t * t * w == s * s * (one + 2 * t)) by (nonlinear_arith)
        requires w == 3 * one - 2 * t, s == one - t;
    assert(t * t * w <= one * one * one);
    assert(q * w <= one * one) by (nonlinear_arith)
        requires
            q * one <= t * t,
            t * t * w <= one * one * one,
            0 < w,
            one == 65536,
            0 <= q;
    assert(t2 * w <= q * w) by (nonlinear_arith)
        requires 0 <= t2 <= q, 0 < w;
    lemma_div_is_ordered(t2 * w, one * one, one);
    lemma_div_of_multiple(one, one);
}

} // verus!
