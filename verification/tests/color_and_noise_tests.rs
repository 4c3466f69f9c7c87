use astro_raster::color::Color;
use astro_raster::fixed::FX_ONE;
use astro_raster::noise::{NoiseField, fbm_noise};
use astro_raster::trig::{fixed_sin, fixed_cos, isqrt, FX_PI, FX_HALF_PI};

#[test]
fn lerp_by_zero_returns_first_endpoint() {
    let a = Color::new(10, 200, 77);
    let b = Color::new(250, 3, 128);
    assert_eq!(a.lerp(&b, 0), a);
}

#[test]
fn lerp_by_one_returns_second_endpoint() {
    let a = Color::new(10, 200, 77);
    let b = Color::new(250, 3, 128);
    assert_eq!(a.lerp(&b, FX_ONE), b);
}

#[test]
fn lerp_is_monotonic_per_channel() {
    let a = Color::new(10, 200, 77);
    let b = Color::new(250, 3, 128);
    let mut previous = a.lerp(&b, 0);
    let mut t: i64 = 0;
    while t <= FX_ONE {
        let c = a.lerp(&b, t);
        assert!(c.r >= previous.r);
        assert!(c.g <= previous.g);
        assert!(c.b >= previous.b);
        previous = c;
        t += 4096;
    }
}

#[test]
fn color_round_trips_through_hex() {
    let c = Color::new(0x12, 0x34, 0x56);
    assert_eq!(c.to_hex(), 0x123456);
    assert_eq!(Color::from_hex(0x123456), c);
}

#[test]
fn color_add_saturates() {
    let a = Color::new(200, 100, 0);
    let b = Color::new(100, 100, 5);
    let c = a.add(&b);
    assert_eq!((c.r, c.g, c.b), (255, 200, 5));
}

#[test]
fn color_scale_by_half() {
    let a = Color::new(200, 101, 1);
    let c = a.scale(FX_ONE / 2);
    assert_eq!((c.r, c.g, c.b), (100, 50, 0));
}

#[test]
fn fbm_noise_is_deterministic() {
    let n = NoiseField::with_seed(1337);
    let a = fbm_noise(&n, 123456, -654321, 6);
    let b = fbm_noise(&n, 123456, -654321, 6);
    assert_eq!(a, b);
}

#[test]
fn fbm_noise_is_bounded_by_the_amplitude_series() {
    let n = NoiseField::with_seed(99);
    // The octave amplitudes 65536, 39321, 23592, 14155, 8493, 5095 sum to 156192.
    let bound: i64 = 65536 + 39321 + 23592 + 14155 + 8493 + 5095;
    let mut x: i64 = -500000;
    while x < 500000 {
        let v = fbm_noise(&n, x, x / 3, 6);
        assert!(-bound <= v && v <= bound);
        x += 61333;
    }
}

#[test]
fn noise_samples_stay_in_unit_range() {
    let n = NoiseField::with_seed(7);
    let mut x: i64 = -400000;
    while x < 400000 {
        let v = n.noise2(x, 3 * x + 17);
        assert!(-FX_ONE <= v && v <= FX_ONE);
        x += 37777;
    }
}

#[test]
fn sine_and_cosine_are_exact_on_the_axes() {
    assert_eq!(fixed_sin(0), 0);
    assert_eq!(fixed_sin(FX_HALF_PI), FX_ONE);
    assert_eq!(fixed_cos(0), FX_ONE);
    assert_eq!(fixed_sin(FX_PI), 0);
    assert_eq!(fixed_sin(FX_PI + FX_HALF_PI), -FX_ONE);
    assert_eq!(fixed_cos(FX_PI), -FX_ONE);
}

#[test]
fn integer_square_root_is_exact() {
    assert_eq!(isqrt(0), 0);
    assert_eq!(isqrt(1), 1);
    assert_eq!(isqrt(3), 1);
    assert_eq!(isqrt(4), 2);
    assert_eq!(isqrt(65536 * 65536), 65536);
    assert_eq!(isqrt(65536 * 65536 - 1), 65535);
}
