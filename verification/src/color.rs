//! RGB colors with integer channels in [0, 255].
//!
//! A color supports saturating addition, scaling by a fixed-point factor,
//! linear interpolation toward another color, and packing into a 24-bit
//! hexadecimal value for framebuffer storage.

use vstd::prelude::*;
use vstd::arithmetic::div_mod::lemma_div_is_ordered;
use crate::fixed::{
    fx_wf, fx_mul, fx_clamp, fx_lerp, spec_fx_mul, spec_fx_lerp, spec_clamp,
    lemma_div_of_multiple, lemma_div_is_ordered_by_one, lemma_neg_div_ge, FX_ONE,
};

verus! {

/// An RGB triple. The channel type keeps every color inside [0, 255].
#[derive(Clone, Copy, PartialEq, Eq, Structural, Debug)]
pub struct Color {
    pub r: u8,
    pub g: u8,
    pub b: u8,
}

/// A channel interpolated from `a` toward `b` by `t`, with `t` clamped
/// into [0, 65536].
pub open spec fn spec_channel_lerp(a: int, b: int, t: int) -> int {
    a + (b - a) * spec_clamp(t, 0, FX_ONE as int) / (FX_ONE as int)
}

/// A channel scaled by a fixed-point factor and clamped into [0, 255].
pub open spec fn spec_channel_scale(c: int, f: int) -> int {
    spec_clamp(spec_fx_mul(c, f), 0, 255)
}

/// Two channels added with saturation at 255.
pub open spec fn spec_channel_add(a: int, b: int) -> int {
    if a + b > 255 {
        255
    } else {
        a + b
    }
}

/// The packed 24-bit value of three channels.
pub open spec fn spec_pack(r: int, g: int, b: int) -> int {
    r * 0x10000 + g * 0x100 + b
}

/// A whole color interpolated channel by channel.
pub open spec fn spec_lerp_color(a: Color, b: Color, t: int) -> Color {
    Color {
        r: spec_channel_lerp(a.r as int, b.r as int, t) as u8,
        g: spec_channel_lerp(a.g as int, b.g as int, t) as u8,
        b: spec_channel_lerp(a.b as int, b.b as int, t) as u8,
    }
}

/// A whole color scaled channel by channel.
pub open spec fn spec_scale_color(c: Color, f: int) -> Color {
    Color {
        r: spec_channel_scale(c.r as int, f) as u8,
        g: spec_channel_scale(c.g as int, f) as u8,
        b: spec_channel_scale(c.b as int, f) as u8,
    }
}

/// Two whole colors added channel by channel, saturating.
pub open spec fn spec_add_color(a: Color, b: Color) -> Color {
    Color {
        r: spec_channel_add(a.r as int, b.r as int) as u8,
        g: spec_channel_add(a.g as int, b.g as int) as u8,
        b: spec_channel_add(a.b as int, b.b as int) as u8,
    }
}

impl Color {
    /// A color from its three channels.
    pub fn new(r: u8, g: u8, b: u8) -> (c: Color)
        ensures
            c.r == r,
            c.g == g,
            c.b == b,
    {
        Color { r, g, b }
    }

    /// Black.
    pub fn black() -> (c: Color)
        ensures
            c.r == 0,
            c.g == 0,
            c.b == 0,
    {
        Color { r: 0, g: 0, b: 0 }
    }

    /// The packed 24-bit representation, red in the high byte.
    pub fn to_hex(&self) -> (h: u32)
        ensures
            h == spec_pack(self.r as int, self.g as int, self.b as int),
            h < 0x1000000,
    {
        (self.r as u32) * 0x10000 + (self.g as u32) * 0x100 + (self.b as u32)
    }

    /// The color packed inside the low 24 bits of a hexadecimal value.
    pub fn from_hex(h: u32) -> (c: Color)
        ensures
            c.r == (h as int / 0x10000) % 0x100,
            c.g == (h as int / 0x100) % 0x100,
            c.b == h as int % 0x100,
    {
        Color {
            r: ((h / 0x10000) % 0x100) as u8,
            g: ((h / 0x100) % 0x100) as u8,
            b: (h % 0x100) as u8,
        }
    }

    /// Per-channel sum, saturating at the channel maximum.
    pub fn add(&self, other: &Color) -> (c: Color)
        ensures
            c == spec_add_color(*self, *other),
            c.r == spec_channel_add(self.r as int, other.r as int),
            c.g == spec_channel_add(self.g as int, other.g as int),
            c.b == spec_channel_add(self.b as int, other.b as int),
    {
        Color {
            r: sat_add_channel(self.r, other.r),
            g: sat_add_channel(self.g, other.g),
            b: sat_add_channel(self.b, other.b),
        }
    }

    /// Per-channel scaling by a fixed-point factor, clamped into [0, 255].
    pub fn scale(&self, f: i64) -> (c: Color)
        requires
            fx_wf(f),
        ensures
            c == spec_scale_color(*self, f as int),
            c.r == spec_channel_scale(self.r as int, f as int),
            c.g == spec_channel_scale(self.g as int, f as int),
            c.b == spec_channel_scale(self.b as int, f as int),
    {
        Color {
            r: scale_channel(self.r, f),
            g: scale_channel(self.g, f),
            b: scale_channel(self.b, f),
        }
    }

    /// Per-channel linear interpolation from `self` toward `other` by `t`;
    /// `t` is clamped into [0, 65536] first, so the result always lies
    /// between the two endpoint channels.
    pub fn lerp(&self, other: &Color, t: i64) -> (c: Color)
        ensures
            c == spec_lerp_color(*self, *other, t as int),
            c.r == spec_channel_lerp(self.r as int, other.r as int, t as int),
            c.g == spec_channel_lerp(self.g as int, other.g as int, t as int),
            c.b == spec_channel_lerp(self.b as int, other.b as int, t as int),
    {
        Color {
            r: lerp_channel(self.r, other.r, t),
            g: lerp_channel(self.g, other.g, t),
            b: lerp_channel(self.b, other.b, t),
        }
    }
}

/// One channel of a saturating color sum.
fn sat_add_channel(a: u8, b: u8) -> (r: u8)
    ensures
        r == spec_channel_add(a as int, b as int),
{
    let s: u16 = a as u16 + b as u16;
    if s > 255 {
        255
    } else {
        s as u8
    }
}

/// One channel scaled by a fixed-point factor.
fn scale_channel(c: u8, f: i64) -> (r: u8)
    requires
        fx_wf(f),
    ensures
        r == spec_channel_scale(c as int, f as int),
{
    let p: i64 = fx_mul(c as i64, f);
    fx_clamp(p, 0, 255) as u8
}

/// One channel interpolated from `a` toward `b` by a clamped factor.
fn lerp_channel(a: u8, b: u8, t: i64) -> (r: u8)
    ensures
        r == spec_channel_lerp(a as int, b as int, t as int),
{
    let tc: i64 = fx_clamp(t, 0, FX_ONE);
    let v: i64 = fx_lerp(a as i64, b as i64, tc);
    proof {
        lemma_channel_lerp_between(a as int, b as int, t as int);
        assert(spec_fx_lerp(a as int, b as int, spec_clamp(t as int, 0, FX_ONE as int))
            == spec_channel_lerp(a as int, b as int, t as int));
    }
    v as u8
}

/// An interpolated channel lies between its two endpoints.
pub proof fn lemma_channel_lerp_between(a: int, b: int, t: int)
    ensures
        a <= b ==> a <= spec_channel_lerp(a, b, t) <= b,
        b <= a ==> b <= spec_channel_lerp(a, b, t) <= a,
{
    let tc = spec_clamp(t, 0, FX_ONE as int);
    let d = b - a;
    if d >= 0 {
        assert(0 <= d * tc <= d * 65536) by (nonlinear_arith)
            requires 0 <= d, 0 <= tc <= 65536;
        lemma_div_is_ordered(0int, d * tc, 65536);
        lemma_div_is_ordered(d * tc, d * 65536, 65536);
        lemma_div_of_multiple(d, 65536);
    } else {
        assert(d * 65536 <= d * tc <= 0) by (nonlinear_arith)
            requires d < 0, 0 <= tc <= 65536;
        lemma_div_is_ordered(d * tc, 0int, 65536);
        lemma_div_is_ordered(d * 65536, d * tc, 65536);
        lemma_div_of_multiple(d, 65536);
    }
}

/// Interpolating by the factor 0 returns the first endpoint, and by the
/// factor 65536 (one) the second, exactly.
pub proof fn lemma_lerp_endpoints(a: Color, b: Color)
    ensures
        spec_channel_lerp(a.r as int, b.r as int, 0) == a.r,
        spec_channel_lerp(a.g as int, b.g as int, 0) == a.g,
        spec_channel_lerp(a.b as int, b.b as int, 0) == a.b,
        spec_channel_lerp(a.r as int, b.r as int, FX_ONE as int) == b.r,
        spec_channel_lerp(a.g as int, b.g as int, FX_ONE as int) == b.g,
        spec_channel_lerp(a.b as int, b.b as int, FX_ONE as int) == b.b,
{
    lemma_channel_lerp_endpoints(a.r as int, b.r as int);
    lemma_channel_lerp_endpoints(a.g as int, b.g as int);
    lemma_channel_lerp_endpoints(a.b as int, b.b as int);
}

/// Endpoint behavior of one interpolated channel.
proof fn lemma_channel_lerp_endpoints(a: int, b: int)
    ensures
        spec_channel_lerp(a, b, 0) == a,
        spec_channel_lerp(a, b, FX_ONE as int) == b,
{
    let d = b - a;
    assert(d * 0 == 0) by (nonlinear_arith);
    lemma_div_of_multiple(0int, 65536);
    lemma_div_of_multiple(d, 65536);
}

/// Interpolation is monotonic in its factor, channel by channel: a larger
/// factor moves each channel further from the first endpoint toward the
/// second, never past it.
pub proof fn lemma_lerp_monotonic(a: Color, b: Color, t1: int, t2: int)
    requires
        t1 <= t2,
    ensures
        a.r <= b.r ==> spec_channel_lerp(a.r as int, b.r as int, t1)
            <= spec_channel_lerp(a.r as int, b.r as int, t2),
        a.r >= b.r ==> spec_channel_lerp(a.r as int, b.r as int, t1)
            >= spec_channel_lerp(a.r as int, b.r as int, t2),
        a.g <= b.g ==> spec_channel_lerp(a.g as int, b.g as int, t1)
            <= spec_channel_lerp(a.g as int, b.g as int, t2),
        a.g >= b.g ==> spec_channel_lerp(a.g as int, b.g as int, t1)
            >= spec_channel_lerp(a.g as int, b.g as int, t2),
        a.b <= b.b ==> spec_channel_lerp(a.b as int, b.b as int, t1)
            <= spec_channel_lerp(a.b as int, b.b as int, t2),
        a.b >= b.b ==> spec_channel_lerp(a.b as int, b.b as int, t1)
            >= spec_channel_lerp(a.b as int, b.b as int, t2),
{
    lemma_channel_lerp_monotone(a.r as int, b.r as int, t1, t2);
    lemma_channel_lerp_monotone(a.g as int, b.g as int, t1, t2);
    lemma_channel_lerp_monotone(a.b as int, b.b as int, t1, t2);
}

/// Monotonicity of one interpolated channel in its factor.
proof fn lemma_channel_lerp_monotone(a: int, b: int, t1: int, t2: int)
    requires
        t1 <= t2,
    ensures
        a <= b ==> spec_channel_lerp(a, b, t1) <= spec_channel_lerp(a, b, t2),
        a >= b ==> spec_channel_lerp(a, b, t1) >= spec_channel_lerp(a, b, t2),
{
    let c1 = spec_clamp(t1, 0, FX_ONE as int);
    let c2 = spec_clamp(t2, 0, FX_ONE as int);
    let d = b - a;
    assert(c1 <= c2);
    if d == 0 {
        assert(0 * c1 == 0 && 0 * c2 == 0) by (nonlinear_arith);
    } else if d > 0 {
        assert(d * c1 <= d * c2) by (nonlinear_arith)
            requires 0 <= d, c1 <= c2;
        lemma_div_is_ordered(d * c1, d * c2, 65536);
    } else {
        assert(d * c2 <= d * c1) by (nonlinear_arith)
            requires d < 0, c1 <= c2;
        lemma_div_is_ordered(d * c2, d * c1, 65536);
    }
}

} // verus!
