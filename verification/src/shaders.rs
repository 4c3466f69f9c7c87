//! The procedural fragment shaders, one per celestial body.
//!
//! Each shader is a pure function from a fragment and the frame's
//! uniforms to a color, built from the verified noise, trigonometry and
//! color primitives; each one's result is pinned exactly by its `spec_`
//! mirror, so a repeated call with the same inputs returns the same
//! color. The sun is the one emissive body: its color doubles as the
//! emission value of its pixels.

use vstd::prelude::*;
use crate::color::{
    Color, spec_lerp_color, spec_scale_color, spec_add_color,
};
use crate::fixed::{fx_mul, fx_abs, fx_clamp, fx_max, fx_div, spec_fx_mul, spec_fx_div,
    abs_int, spec_clamp, FX_ONE, FX_HALF};
use crate::geom::Uniforms;
use crate::noise::{spec_noise2, spec_fbm, fbm_noise};
use crate::raster::Fragment;
use crate::trig::{fixed_sin, fixed_cos, spec_sin, spec_cos, isqrt, spec_isqrt};

verus! {

/// A fragment a shader accepts: its blended model-space position is in
/// model range and its intensity is a unit scalar.
pub open spec fn shader_in(f: Fragment) -> bool {
    f.vertex_position.wf() && 0 <= f.intensity <= FX_ONE
}

/// The time counter scaled down by a divisor, as a fixed-point angle or
/// sample coordinate.
pub open spec fn spec_tdiv(time: u32, d: int) -> int {
    (time as int) * (FX_ONE as int) / d
}

/// The time counter scaled down by a positive divisor.
fn tdiv(time: u32, d: u64) -> (r: i64)
    requires
        1 <= d <= 1000,
    ensures
        r == spec_tdiv(time, d as int),
        0 <= r <= 0x4_0000_0000_0000,
{
    (((time as u64) * 65536) / d) as i64
}

/// The sun's color: a pulsating blend of core, eruption and corona tones
/// with a time-driven halo.
pub open spec fn spec_sun_shader(u: Uniforms) -> Color {
    let pulsate = (spec_sin(spec_tdiv(u.time, 100)) + FX_ONE as int) / 2;
    let surface_noise = spec_noise2(u.noise.seed, spec_tdiv(u.time, 10), spec_tdiv(u.time, 10));
    let eruption_noise = spec_noise2(u.noise.seed, spec_tdiv(u.time, 50),
        spec_cos(spec_tdiv(u.time, 50)));
    let core = spec_lerp_color(Color { r: 255, g: 140, b: 0 }, Color { r: 255, g: 69, b: 0 },
        surface_noise);
    let corona_intensity = abs_int(spec_cos(spec_tdiv(u.time, 200)));
    let corona = spec_scale_color(Color { r: 255, g: 255, b: 160 }, corona_intensity);
    let flare_intensity: int = if eruption_noise > 52429 { 98304 } else { 65536 };
    let final_color = spec_scale_color(spec_scale_color(spec_add_color(core, corona), pulsate),
        flare_intensity);
    let halo_intensity = spec_clamp(
        spec_fx_mul(abs_int(spec_sin(spec_tdiv(u.time, 500))), FX_HALF as int), 0,
        FX_ONE as int);
    spec_add_color(final_color, spec_scale_color(Color { r: 255, g: 215, b: 0 },
        halo_intensity))
}

/// The sun shader; see [`spec_sun_shader`]. It takes no fragment: the sun
/// is lit uniformly by time-driven pulsation.
pub fn sun_shader(uniforms: &Uniforms) -> (r: Color)
    ensures
        r == spec_sun_shader(*uniforms),
{
    let pulsate: i64 = ((fixed_sin(tdiv(uniforms.time, 100)) + FX_ONE) as u64 / 2) as i64;
    let surface_noise: i64 = uniforms.noise.noise2(tdiv(uniforms.time, 10),
        tdiv(uniforms.time, 10));
    let eruption_noise: i64 = uniforms.noise.noise2(tdiv(uniforms.time, 50),
        fixed_cos(tdiv(uniforms.time, 50)));
    let core_color = Color::new(255, 140, 0);
    let flare_color = Color::new(255, 69, 0);
    let corona_color = Color::new(255, 255, 160);
    let core = core_color.lerp(&flare_color, surface_noise);
    let corona_intensity: i64 = fx_abs(fixed_cos(tdiv(uniforms.time, 200)));
    let corona = corona_color.scale(corona_intensity);
    let flare_intensity: i64 = if eruption_noise > 52429 {
        98304
    } else {
        65536
    };
    let final_color = core.add(&corona).scale(pulsate).scale(flare_intensity);
    let halo_color = Color::new(255, 215, 0);
    let halo_intensity: i64 = fx_clamp(fx_mul(fx_abs(fixed_sin(tdiv(uniforms.time, 500))),
        FX_HALF), 0, FX_ONE);
    final_color.add(&halo_color.scale(halo_intensity))
}

/// The day-night factor of a fragment: half plus half its clamped local
/// z-coordinate.
pub open spec fn spec_light_factor(z: int) -> int {
    FX_HALF as int + spec_fx_mul(spec_clamp(z, -(FX_ONE as int), FX_ONE as int),
        FX_HALF as int)
}

/// The day-night factor, in [0, 65536].
fn light_factor(z: i64) -> (r: i64)
    requires
        -0x40_0000 <= z <= 0x40_0000,
    ensures
        r == spec_light_factor(z as int),
        0 <= r <= FX_ONE,
{
    FX_HALF + fx_mul(fx_clamp(z, -FX_ONE, FX_ONE), FX_HALF)
}

/// The earth's color: noise-chosen biomes over an ocean, dynamic clouds,
/// and a day-night gradient.
pub open spec fn spec_earth_shader(f: Fragment, u: Uniforms) -> Color {
    let ts = spec_tdiv(u.time, 200);
    let tc = spec_tdiv(u.time, 50);
    let biome_noise = spec_noise2(u.noise.seed, f.vertex_position.x as int * 50 + ts,
        f.vertex_position.y as int * 50 + ts);
    let cloud_noise = spec_noise2(u.noise.seed, f.vertex_position.x as int * 100 + tc,
        f.vertex_position.y as int * 100 + tc);
    let biome_color: Color = if biome_noise > 45875 {
        Color { r: 139, g: 137, b: 137 }
    } else if biome_noise > 32768 {
        Color { r: 210, g: 180, b: 140 }
    } else {
        Color { r: 34, g: 139, b: 34 }
    };
    let surface_color: Color = if biome_noise < 19661 {
        spec_lerp_color(Color { r: 0, g: 102, b: 204 }, biome_color,
            spec_fx_div(biome_noise, 19661))
    } else {
        biome_color
    };
    let final_color: Color = if cloud_noise > 52429 {
        Color { r: 255, g: 255, b: 255 }
    } else if cloud_noise > 39322 {
        spec_lerp_color(Color { r: 240, g: 248, b: 255 }, surface_color, FX_HALF as int)
    } else {
        surface_color
    };
    spec_scale_color(spec_scale_color(final_color,
        spec_light_factor(f.vertex_position.z as int)), f.intensity as int)
}

/// The earth shader; see [`spec_earth_shader`].
#[verifier::rlimit(100)]
pub fn earth_shader(fragment: &Fragment, uniforms: &Uniforms) -> (r: Color)
    requires
        shader_in(*fragment),
    ensures
        r == spec_earth_shader(*fragment, *uniforms),
{
    let ocean_color = Color::new(0, 102, 204);
    let land_color = Color::new(34, 139, 34);
    let desert_color = Color::new(210, 180, 140);
    let mountain_color = Color::new(139, 137, 137);
    let cloud_color = Color::new(255, 255, 255);
    let ice_color = Color::new(240, 248, 255);
    let ts: i64 = tdiv(uniforms.time, 200);
    let tc: i64 = tdiv(uniforms.time, 50);
    let vp = &fragment.vertex_position;
    let biome_noise: i64 = uniforms.noise.noise2(vp.x * 50 + ts, vp.y * 50 + ts);
    let cloud_noise: i64 = uniforms.noise.noise2(vp.x * 100 + tc, vp.y * 100 + tc);
    let biome_color: Color = if biome_noise > 45875 {
        mountain_color
    } else if biome_noise > 32768 {
        desert_color
    } else {
        land_color
    };
    let surface_color: Color = if biome_noise < 19661 {
        ocean_color.lerp(&biome_color, fx_div(biome_noise, 19661))
    } else {
        biome_color
    };
    let final_color: Color = if cloud_noise > 52429 {
        cloud_color
    } else if cloud_noise > 39322 {
        ice_color.lerp(&surface_color, FX_HALF)
    } else {
        surface_color
    };
    final_color.scale(light_factor(vp.z)).scale(fragment.intensity)
}

/// The martian surface: fractal rock over sand, fine detail, and cracks.
pub open spec fn spec_mars_shader(f: Fragment, u: Uniforms) -> Color {
    let t = spec_tdiv(u.time, 100);
    let base_rock = spec_fbm(u.noise.seed, f.vertex_position.x as int * 10 + t,
        f.vertex_position.y as int * 10 + t, 6);
    let fine_noise = spec_noise2(u.noise.seed, f.vertex_position.x as int * 50,
        f.vertex_position.y as int * 50);
    let crack_noise = spec_noise2(u.noise.seed, f.vertex_position.x as int * 15 + t / 2,
        f.vertex_position.y as int * 15 + t / 2);
    let surface_color: Color = if base_rock > 39322 {
        spec_scale_color(spec_lerp_color(Color { r: 130, g: 60, b: 35 },
            Color { r: 150, g: 75, b: 45 }, fine_noise), f.intensity as int)
    } else if crack_noise > 32768 {
        spec_scale_color(Color { r: 90, g: 40, b: 20 }, f.intensity as int)
    } else {
        spec_scale_color(spec_lerp_color(Color { r: 210, g: 77, b: 38 },
            Color { r: 150, g: 75, b: 45 }, fine_noise), f.intensity as int)
    };
    spec_scale_color(surface_color, spec_light_factor(f.vertex_position.z as int))
}

/// The mars shader; see [`spec_mars_shader`].
#[verifier::rlimit(100)]
pub fn mars_shader(fragment: &Fragment, uniforms: &Uniforms) -> (r: Color)
    requires
        shader_in(*fragment),
    ensures
        r == spec_mars_shader(*fragment, *uniforms),
{
    let sand_color = Color::new(210, 77, 38);
    let rock_color = Color::new(150, 75, 45);
    let ridge_color = Color::new(130, 60, 35);
    let crack_color = Color::new(90, 40, 20);
    let t: i64 = tdiv(uniforms.time, 100);
    let vp = &fragment.vertex_position;
    let base_rock: i64 = fbm_noise(&uniforms.noise, vp.x * 10 + t, vp.y * 10 + t, 6);
    let fine_noise: i64 = uniforms.noise.noise2(vp.x * 50, vp.y * 50);
    let th: i64 = ((t as u64) / 2) as i64;
    let crack_noise: i64 = uniforms.noise.noise2(vp.x * 15 + th, vp.y * 15 + th);
    let surface_color: Color = if base_rock > 39322 {
        ridge_color.lerp(&rock_color, fine_noise).scale(fragment.intensity)
    } else if crack_noise > 32768 {
        crack_color.scale(fragment.intensity)
    } else {
        sand_color.lerp(&rock_color, fine_noise).scale(fragment.intensity)
    };
    surface_color.scale(light_factor(vp.z))
}

/// The jovian bands: waves of blended band tones under turbulence, with
/// the great red spot near a fixed position.
/// The turbulence sample of the jovian bands.
pub open spec fn spec_jupiter_turb(f: Fragment, u: Uniforms) -> int {
    spec_noise2(u.noise.seed, f.vertex_position.x as int * 10 + spec_tdiv(u.time, 167),
        f.vertex_position.y as int * 10)
}

/// The wave intensity of the jovian bands.
pub open spec fn spec_jupiter_wave(f: Fragment, u: Uniforms) -> int {
    let t = spec_tdiv(u.time, 50);
    let x = f.vertex_position.x as int;
    let y = f.vertex_position.y as int;
    let wave_pattern = spec_sin(y * 15 + spec_sin(t * 2));
    let fbm_value = spec_fbm(u.noise.seed, x + spec_fx_mul(x, FX_HALF as int)
        + spec_tdiv(u.time, 1000), y * 3, 6);
    spec_fx_mul(
        spec_fx_mul(wave_pattern + spec_fx_mul(fbm_value, FX_HALF as int), FX_HALF as int)
            + FX_HALF as int,
        FX_ONE as int + spec_fx_mul(spec_jupiter_turb(f, u), 13107))
}

/// The blended band tone of the jovian bands.
pub open spec fn spec_jupiter_band(f: Fragment, u: Uniforms) -> Color {
    let wave_intensity = spec_jupiter_wave(f, u);
    spec_lerp_color(spec_lerp_color(spec_lerp_color(
        Color { r: 255, g: 239, b: 170 }, Color { r: 230, g: 220, b: 170 },
        spec_fx_mul(wave_intensity, FX_HALF as int)), Color { r: 180, g: 120, b: 70 },
        spec_fx_mul(wave_intensity, 52429)), Color { r: 120, g: 70, b: 40 }, wave_intensity)
}

pub open spec fn spec_jupiter_shader(f: Fragment, u: Uniforms) -> Color {
    let x = f.vertex_position.x as int;
    let y = f.vertex_position.y as int;
    let turbulence = spec_jupiter_turb(f, u);
    let band_color = spec_jupiter_band(f, u);
    let dx = x + 13107;
    let dy = y - 13107;
    let red_spot_dist = spec_isqrt(dx * dx + dy * dy);
    let red_spot_intensity = spec_clamp(FX_ONE as int - red_spot_dist * 4, 0, FX_ONE as int);
    let final_color: Color = if red_spot_intensity > 45875 {
        spec_scale_color(Color { r: 255, g: 69, b: 0 }, red_spot_intensity)
    } else {
        spec_scale_color(band_color, f.intensity as int)
    };
    spec_scale_color(final_color, spec_clamp(FX_ONE as int + spec_fx_mul(turbulence, 9830), 0,
        78643))
}

/// The jupiter shader; see [`spec_jupiter_shader`].
#[verifier::rlimit(100)]
pub fn jupiter_shader(fragment: &Fragment, uniforms: &Uniforms) -> (r: Color)
    requires
        shader_in(*fragment),
    ensures
        r == spec_jupiter_shader(*fragment, *uniforms),
{
    let band_yellow = Color::new(255, 239, 170);
    let band_beige = Color::new(230, 220, 170);
    let band_brown = Color::new(180, 120, 70);
    let band_dark_brown = Color::new(120, 70, 40);
    let storm_color = Color::new(255, 69, 0);
    let t: i64 = tdiv(uniforms.time, 50);
    let vp = &fragment.vertex_position;
    let wave_pattern: i64 = fixed_sin(vp.y * 15 + fixed_sin(t * 2));
    let fbm_value: i64 = fbm_noise(&uniforms.noise, vp.x + fx_mul(vp.x, FX_HALF)
        + tdiv(uniforms.time, 1000), vp.y * 3, 6);
    let turbulence: i64 = uniforms.noise.noise2(vp.x * 10 + tdiv(uniforms.time, 167), vp.y * 10);
    proof {
        crate::fixed::lemma_fx_mul_mag(fbm_value as int, FX_HALF as int, 163840, 32768);
        crate::fixed::lemma_fx_mul_mag(turbulence as int, 13107, 65536, 13107);
    }
    let half_fbm: i64 = fx_mul(fbm_value, FX_HALF);
    proof {
        crate::fixed::lemma_fx_mul_mag((wave_pattern + half_fbm) as int, FX_HALF as int,
            262144, 32768);
    }
    let inner: i64 = fx_mul(wave_pattern + half_fbm, FX_HALF) + FX_HALF;
    let turb_gain: i64 = FX_ONE + fx_mul(turbulence, 13107);
    proof {
        crate::fixed::lemma_fx_mul_mag(inner as int, turb_gain as int, 262144, 131072);
    }
    let wave_intensity: i64 = fx_mul(inner, turb_gain);
    proof {
        assert(turbulence == spec_jupiter_turb(*fragment, *uniforms));
        assert(wave_intensity == spec_jupiter_wave(*fragment, *uniforms));
        crate::fixed::lemma_fx_mul_mag(wave_intensity as int, FX_HALF as int,
            0x8000_0000, 32768);
        crate::fixed::lemma_fx_mul_mag(wave_intensity as int, 52429, 0x8000_0000, 52429);
    }
    let band_color = band_yellow.lerp(&band_beige, fx_mul(wave_intensity, FX_HALF)).lerp(
        &band_brown, fx_mul(wave_intensity, 52429)).lerp(&band_dark_brown, wave_intensity);
    proof {
        assert(band_color == spec_jupiter_band(*fragment, *uniforms));
    }
    let dx: i64 = vp.x + 13107;
    let dy: i64 = vp.y - 13107;
    proof {
        lemma_square3_bounds(dx as int, dy as int, 0);
        crate::trig::lemma_isqrt_char((dx * dx + dy * dy) as int);
        lemma_root3_small(dx as int, dy as int, 0);
    }
    let red_spot_dist: i64 = isqrt((dx * dx + dy * dy) as u64) as i64;
    let red_spot_intensity: i64 = fx_clamp(FX_ONE - red_spot_dist * 4, 0, FX_ONE);
    let final_color: Color = if red_spot_intensity > 45875 {
        storm_color.scale(red_spot_intensity)
    } else {
        band_color.scale(fragment.intensity)
    };
    final_color.scale(fx_clamp(FX_ONE + fx_mul(turbulence, 9830), 0, 78643))
}

/// The lunar surface: fractal craters masked over gray, with a day-night
/// gradient standing in for the phases.
pub open spec fn spec_moon_shader(f: Fragment, u: Uniforms) -> Color {
    let t = spec_tdiv(u.time, 10);
    let x = f.vertex_position.x as int;
    let y = f.vertex_position.y as int;
    let z = f.vertex_position.z as int;
    let denom = if abs_int(z) >= 6554 { abs_int(z) } else { 6554 };
    let sx = spec_fx_div(x, denom);
    let sy = spec_fx_div(y, denom);
    let crater_noise = spec_fbm(u.noise.seed, sx * 30 + t, sy * 30, 4);
    let mask_noise = spec_fbm(u.noise.seed, sx * 60, sy * 60, 5);
    let depth_noise = spec_noise2(u.noise.seed, x * 300, y * 300);
    let crater_effect: Color = if crater_noise > 36045 && mask_noise > 19661 {
        spec_lerp_color(Color { r: 80, g: 80, b: 80 }, Color { r: 120, g: 120, b: 120 },
            depth_noise)
    } else {
        Color { r: 180, g: 180, b: 180 }
    };
    spec_scale_color(spec_scale_color(crater_effect, spec_light_factor(z)), f.intensity as int)
}

/// The moon shader; see [`spec_moon_shader`].
#[verifier::rlimit(100)]
pub fn moon_shader(fragment: &Fragment, uniforms: &Uniforms) -> (r: Color)
    requires
        shader_in(*fragment),
    ensures
        r == spec_moon_shader(*fragment, *uniforms),
{
    let base_gray = Color::new(180, 180, 180);
    let crater_edge_color = Color::new(120, 120, 120);
    let crater_center_color = Color::new(80, 80, 80);
    let t: i64 = tdiv(uniforms.time, 10);
    let vp = &fragment.vertex_position;
    let denom: i64 = fx_max(fx_abs(vp.z), 6554);
    let sx: i64 = fx_div(vp.x, denom);
    let sy: i64 = fx_div(vp.y, denom);
    proof {
        lemma_latitude_small(vp.x as int, denom as int);
        lemma_latitude_small(vp.y as int, denom as int);
    }
    let crater_noise: i64 = fbm_noise(&uniforms.noise, sx * 30 + t, sy * 30, 4);
    let mask_noise: i64 = fbm_noise(&uniforms.noise, sx * 60, sy * 60, 5);
    let depth_noise: i64 = uniforms.noise.noise2(vp.x * 300, vp.y * 300);
    let crater_effect: Color = if crater_noise > 36045 && mask_noise > 19661 {
        crater_center_color.lerp(&crater_edge_color, depth_noise)
    } else {
        base_gray
    };
    crater_effect.scale(light_factor(vp.z)).scale(fragment.intensity)
}

/// Saturn: latitude-driven bands on the body, noise-chosen grays in the
/// ring annulus between radius one and two and a half.
pub open spec fn spec_saturn_shader(f: Fragment, u: Uniforms) -> Color {
    let x = f.vertex_position.x as int;
    let y = f.vertex_position.y as int;
    let z = f.vertex_position.z as int;
    let radius = spec_isqrt(x * x + z * z);
    let angle = crate::trig::spec_atan2(z, x);
    let ring_noise = spec_noise2(u.noise.seed, radius * 20,
        angle * 15 + spec_tdiv(u.time, 50));
    let ring_color: Color = if ring_noise > 43254 {
        Color { r: 192, g: 192, b: 192 }
    } else if ring_noise > 21627 {
        Color { r: 169, g: 169, b: 169 }
    } else {
        Color { r: 220, g: 220, b: 220 }
    };
    let norm = spec_isqrt(x * x + y * y + z * z);
    let latitude: int = if norm > 0 { spec_fx_div(y, norm) } else { 0 };
    let band_noise = spec_fbm(u.noise.seed, latitude * 30 + spec_tdiv(u.time, 100), 0, 6);
    let band_color: Color = if band_noise > 49152 {
        Color { r: 210, g: 180, b: 140 }
    } else if band_noise > 32768 {
        Color { r: 170, g: 140, b: 110 }
    } else if band_noise > 16384 {
        Color { r: 240, g: 230, b: 140 }
    } else {
        Color { r: 200, g: 160, b: 100 }
    };
    if radius > FX_ONE as int && radius < 163840 {
        spec_scale_color(ring_color, f.intensity as int)
    } else {
        spec_scale_color(band_color, f.intensity as int)
    }
}

/// The saturn shader; see [`spec_saturn_shader`].
#[verifier::rlimit(100)]
pub fn saturn_shader(fragment: &Fragment, uniforms: &Uniforms) -> (r: Color)
    requires
        shader_in(*fragment),
    ensures
        r == spec_saturn_shader(*fragment, *uniforms),
{
    let band_color1 = Color::new(210, 180, 140);
    let band_color2 = Color::new(170, 140, 110);
    let band_color3 = Color::new(240, 230, 140);
    let band_color4 = Color::new(200, 160, 100);
    let ring_color1 = Color::new(192, 192, 192);
    let ring_color2 = Color::new(169, 169, 169);
    let ring_color3 = Color::new(220, 220, 220);
    let vp = &fragment.vertex_position;
    proof {
        lemma_root_small(vp.x as int, vp.z as int);
        crate::trig::lemma_isqrt_char((vp.x as int) * (vp.x as int) + (vp.z as int) * (vp.z as int));
    }
    let radius: i64 = isqrt((vp.x * vp.x + vp.z * vp.z) as u64) as i64;
    let angle: i64 = crate::trig::fixed_atan2(vp.z, vp.x);
    let ring_noise: i64 = uniforms.noise.noise2(radius * 20,
        angle * 15 + tdiv(uniforms.time, 50));
    let ring_color: Color = if ring_noise > 43254 {
        ring_color1
    } else if ring_noise > 21627 {
        ring_color2
    } else {
        ring_color3
    };
    proof {
        lemma_square3_bounds(vp.x as int, vp.y as int, vp.z as int);
        crate::trig::lemma_isqrt_char((vp.x * vp.x + vp.y * vp.y + vp.z * vp.z) as int);
        lemma_root3_small(vp.x as int, vp.y as int, vp.z as int);
    }
    let norm: i64 = isqrt((vp.x * vp.x + vp.y * vp.y + vp.z * vp.z) as u64) as i64;
    let latitude: i64 = if norm > 0 {
        fx_div(vp.y, norm)
    } else {
        0
    };
    proof {
        if norm > 0 {
            lemma_latitude_small(vp.y as int, norm as int);
        }
    }
    let band_noise: i64 = fbm_noise(&uniforms.noise,
        latitude * 30 + tdiv(uniforms.time, 100), 0, 6);
    let band_color: Color = if band_noise > 49152 {
        band_color1
    } else if band_noise > 32768 {
        band_color2
    } else if band_noise > 16384 {
        band_color3
    } else {
        band_color4
    };
    if radius > FX_ONE && radius < 163840 {
        ring_color.scale(fragment.intensity)
    } else {
        band_color.scale(fragment.intensity)
    }
}

/// The comet: a pulsating cracked core inside unit distance, a noise-run
/// tail outside it.
/// The comet's cracked, pulsating surface tone.
pub open spec fn spec_comet_surface(f: Fragment, u: Uniforms) -> Color {
    let t = spec_tdiv(u.time, 20);
    let x = f.vertex_position.x as int;
    let y = f.vertex_position.y as int;
    let pulsate = spec_clamp(spec_fx_mul(spec_sin(t), FX_HALF as int) + FX_HALF as int, 19661,
        FX_ONE as int);
    let surface_noise = spec_fbm(u.noise.seed, x * 8, y * 8, 4);
    let crack_noise = spec_noise2(u.noise.seed, x * 50 + t, y * 50 + t);
    if crack_noise > 39322 {
        spec_scale_color(spec_lerp_color(Color { r: 50, g: 205, b: 50 },
            Color { r: 72, g: 61, b: 139 }, surface_noise),
            spec_clamp(FX_ONE as int - crack_noise, FX_HALF as int, FX_ONE as int))
    } else {
        spec_scale_color(spec_scale_color(Color { r: 255, g: 105, b: 180 }, pulsate),
            45875 + spec_fx_mul(surface_noise, 19661))
    }
}

/// The comet's tail tone, already weighted by the tail's strength.
pub open spec fn spec_comet_tail(f: Fragment, u: Uniforms) -> Color {
    let t = spec_tdiv(u.time, 20);
    let x = f.vertex_position.x as int;
    let y = f.vertex_position.y as int;
    let distance = spec_isqrt(x * x + y * y);
    let tail_noise = spec_noise2(u.noise.seed, x * 15 + t, y * 15 + t);
    let tail_color = spec_lerp_color(Color { r: 0, g: 255, b: 255 },
        Color { r: 255, g: 69, b: 0 }, tail_noise);
    let tail_intensity = spec_fx_mul(spec_clamp(FX_ONE as int - spec_fx_mul(distance, 13107),
        0, FX_ONE as int), tail_noise);
    spec_scale_color(tail_color, tail_intensity)
}

pub open spec fn spec_comet_shader(f: Fragment, u: Uniforms) -> Color {
    let x = f.vertex_position.x as int;
    let y = f.vertex_position.y as int;
    let z = f.vertex_position.z as int;
    let distance = spec_isqrt(x * x + y * y);
    let illuminated = spec_scale_color(spec_comet_surface(f, u), spec_light_factor(z));
    if distance < FX_ONE as int {
        spec_scale_color(illuminated, f.intensity as int)
    } else {
        spec_scale_color(spec_comet_tail(f, u), f.intensity as int)
    }
}

/// The comet shader; see [`spec_comet_shader`].
#[verifier::rlimit(100)]
pub fn comet_shader(fragment: &Fragment, uniforms: &Uniforms) -> (r: Color)
    requires
        shader_in(*fragment),
    ensures
        r == spec_comet_shader(*fragment, *uniforms),
{
    let core_color = Color::new(255, 105, 180);
    let surface_color = Color::new(72, 61, 139);
    let crack_color = Color::new(50, 205, 50);
    let tail_inner_color = Color::new(0, 255, 255);
    let tail_outer_color = Color::new(255, 69, 0);
    let t: i64 = tdiv(uniforms.time, 20);
    let vp = &fragment.vertex_position;
    let pulsate: i64 = fx_clamp(fx_mul(fixed_sin(t), FX_HALF) + FX_HALF, 19661, FX_ONE);
    let surface_noise: i64 = fbm_noise(&uniforms.noise, vp.x * 8, vp.y * 8, 4);
    let crack_noise: i64 = uniforms.noise.noise2(vp.x * 50 + t, vp.y * 50 + t);
    proof {
        lemma_square3_bounds(vp.x as int, vp.y as int, 0);
        crate::trig::lemma_isqrt_char((vp.x * vp.x + vp.y * vp.y) as int);
        lemma_root3_small(vp.x as int, vp.y as int, 0);
    }
    let distance: i64 = isqrt((vp.x * vp.x + vp.y * vp.y) as u64) as i64;
    let tail_noise: i64 = uniforms.noise.noise2(vp.x * 15 + t, vp.y * 15 + t);
    let tail_color = tail_inner_color.lerp(&tail_outer_color, tail_noise);
    proof {
        crate::fixed::lemma_fx_mul_mag(spec_clamp(FX_ONE as int - spec_fx_mul(
            distance as int, 13107), 0, FX_ONE as int), tail_noise as int, 65536, 65536);
    }
    let tail_intensity: i64 = fx_mul(fx_clamp(FX_ONE - fx_mul(distance, 13107), 0, FX_ONE),
        tail_noise);
    proof {
        crate::fixed::lemma_fx_mul_mag(surface_noise as int, 19661, 163840, 19661);
    }
    let surface_effect: Color = if crack_noise > 39322 {
        crack_color.lerp(&surface_color, surface_noise).scale(fx_clamp(FX_ONE - crack_noise,
            FX_HALF, FX_ONE))
    } else {
        core_color.scale(pulsate).scale(45875 + fx_mul(surface_noise, 19661))
    };
    proof {
        assert(surface_effect == spec_comet_surface(*fragment, *uniforms));
    }
    let weighted_tail = tail_color.scale(tail_intensity);
    proof {
        assert(weighted_tail == spec_comet_tail(*fragment, *uniforms));
    }
    let illuminated = surface_effect.scale(light_factor(vp.z));
    if distance < FX_ONE {
        illuminated.scale(fragment.intensity)
    } else {
        weighted_tail.scale(fragment.intensity)
    }
}

/// The sum of two coordinate squares is small and nonnegative.
proof fn lemma_root_small(x: int, z: int)
    requires
        -0x80_0000 <= x <= 0x80_0000,
        -0x80_0000 <= z <= 0x80_0000,
    ensures
        0 <= x * x + z * z <= 0x80_0000_0000_0000,
        0 <= x * x,
        0 <= z * z,
        spec_isqrt(x * x + z * z) <= 0x1000_0000,
{
    assert(0 <= x * x <= 0x40_0000_0000_0000int && 0 <= z * z <= 0x40_0000_0000_0000int)
        by (nonlinear_arith)
        requires -0x80_0000 <= x <= 0x80_0000, -0x80_0000 <= z <= 0x80_0000;
    crate::trig::lemma_isqrt_char(x * x + z * z);
    let r = spec_isqrt(x * x + z * z);
    assert(r <= 0x1000_0000) by (nonlinear_arith)
        requires
            0 <= r,
            r * r <= x * x + z * z,
            x * x + z * z <= 0x80_0000_0000_0000int,
            0x80_0000_0000_0000int < (0x1000_0000int + 1) * (0x1000_0000int + 1);
}

/// The sum of three coordinate squares is small and nonnegative.
proof fn lemma_square3_bounds(x: int, y: int, z: int)
    requires
        -0x80_0000 <= x <= 0x80_0000,
        -0x80_0000 <= y <= 0x80_0000,
        -0x80_0000 <= z <= 0x80_0000,
    ensures
        0 <= x * x + y * y + z * z <= 0xC0_0000_0000_0000,
        0 <= x * x,
        0 <= y * y,
        0 <= z * z,
        x * x <= 0x40_0000_0000_0000,
        y * y <= 0x40_0000_0000_0000,
        z * z <= 0x40_0000_0000_0000,
{
    assert(0 <= x * x <= 0x40_0000_0000_0000int && 0 <= y * y <= 0x40_0000_0000_0000int
        && 0 <= z * z <= 0x40_0000_0000_0000int) by (nonlinear_arith)
        requires -0x80_0000 <= x <= 0x80_0000, -0x80_0000 <= y <= 0x80_0000,
            -0x80_0000 <= z <= 0x80_0000;
}

/// The root of a small square sum is small.
proof fn lemma_root3_small(x: int, y: int, z: int)
    requires
        -0x80_0000 <= x <= 0x80_0000,
        -0x80_0000 <= y <= 0x80_0000,
        -0x80_0000 <= z <= 0x80_0000,
    ensures
        spec_isqrt(x * x + y * y + z * z) <= 0x1000_0000,
{
    lemma_square3_bounds(x, y, z);
    crate::trig::lemma_isqrt_char(x * x + y * y + z * z);
    let r = spec_isqrt(x * x + y * y + z * z);
    assert(r <= 0x1000_0000) by (nonlinear_arith)
        requires
            0 <= r,
            r * r <= 0xC0_0000_0000_0000,
            0xC0_0000_0000_0000int < (0x1000_0000int + 1) * (0x1000_0000int + 1);
}

/// A latitude ratio stays within a few units.
proof fn lemma_latitude_small(y: int, norm: int)
    requires
        -0x40_0000 <= y <= 0x40_0000,
        0 < norm,
    ensures
        -0x40_0000_0000 <= spec_fx_div(y, norm) <= 0x40_0000_0000,
{
    assert(-(0x40_0000int * 65536) <= y * 65536 <= 0x40_0000int * 65536)
        by (nonlinear_arith)
        requires -0x40_0000 <= y <= 0x40_0000;
    vstd::arithmetic::div_mod::lemma_div_is_ordered(y * 65536, 0x40_0000int * 65536, norm);
    vstd::arithmetic::div_mod::lemma_div_is_ordered(-0x40_0000int * 65536, y * 65536, norm);
    crate::fixed::lemma_div_is_ordered_by_one(0x40_0000int * 65536, norm);
    crate::fixed::lemma_neg_div_ge(0x40_0000int * 65536, norm);
}

} // verus!
