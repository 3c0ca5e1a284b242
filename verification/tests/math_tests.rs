use flycam::fixed::{div_floor, div_floor_i64, isqrt};
use flycam::trig::{cos_fx, sin_fx};
use flycam::vec3::{normalize, Vec3};
use flycam::SCALE;

#[test]
fn isqrt_small_values() {
    assert_eq!(isqrt(0), 0);
    assert_eq!(isqrt(1), 1);
    assert_eq!(isqrt(2), 1);
    assert_eq!(isqrt(3), 1);
    assert_eq!(isqrt(4), 2);
    assert_eq!(isqrt(99), 9);
    assert_eq!(isqrt(100), 10);
}

#[test]
fn isqrt_large_values() {
    assert_eq!(isqrt(1_000_000_000_000), 1_000_000);
    assert_eq!(isqrt(999_999_999_999), 999_999);
    assert_eq!(isqrt(9_000_000_000_000_000_000_000_000_000_000), 3_000_000_000_000_000);
}

#[test]
fn division_rounds_toward_negative_infinity() {
    assert_eq!(div_floor(7, 2), 3);
    assert_eq!(div_floor(-7, 2), -4);
    assert_eq!(div_floor_i64(-1, 1_000_000), -1);
    assert_eq!(div_floor_i64(999_999, 1_000_000), 0);
}

#[test]
fn sine_is_exact_at_quadrants() {
    assert_eq!(sin_fx(0), 0);
    assert_eq!(sin_fx(900), SCALE);
    assert_eq!(sin_fx(1800), 0);
    assert_eq!(sin_fx(2700), -SCALE);
    assert_eq!(sin_fx(3600), 0);
    assert_eq!(sin_fx(-900), -SCALE);
    assert_eq!(sin_fx(4500), SCALE);
}

#[test]
fn cosine_is_exact_at_quadrants() {
    assert_eq!(cos_fx(0), SCALE);
    assert_eq!(cos_fx(900), 0);
    assert_eq!(cos_fx(1800), -SCALE);
    assert_eq!(cos_fx(2700), 0);
    assert_eq!(cos_fx(-900), 0);
    assert_eq!(cos_fx(3600), SCALE);
}

#[test]
fn sine_stays_close_to_the_real_sine() {
    // Half the field of view: within 0.2 percent of the scale.
    assert_eq!(sin_fx(225), 383_561);
    assert_eq!(cos_fx(225), 923_076);
    // 30 degrees: the real sine is exactly one half.
    let s30 = sin_fx(300);
    assert!((s30 - 500_000).abs() < 2_000);
    // 45 degrees.
    let s45 = sin_fx(450);
    assert!((s45 - 707_107).abs() < 2_000);
}

#[test]
fn sine_is_odd_at_a_skew_angle() {
    assert_eq!(sin_fx(123), 214_657);
    assert_eq!(sin_fx(-123), -214_657);
}

#[test]
fn normalize_is_exact_on_axis_vectors() {
    let w = normalize(Vec3 { x: 0, y: 0, z: -3_000_000 });
    assert_eq!(w, Vec3 { x: 0, y: 0, z: -SCALE });
    let w = normalize(Vec3 { x: 700, y: 0, z: 0 });
    assert_eq!(w, Vec3 { x: SCALE, y: 0, z: 0 });
}

#[test]
fn normalize_is_exact_on_a_pythagorean_triple() {
    let w = normalize(Vec3 { x: 3_000_000, y: 4_000_000, z: 0 });
    assert_eq!(w, Vec3 { x: 600_000, y: 800_000, z: 0 });
}

#[test]
fn normalize_keeps_the_norm_within_tolerance() {
    let samples = [
        Vec3 { x: 1_000_000, y: 333_333, z: 777_777 },
        Vec3 { x: -17_452, y: 999_847, z: 1 },
        Vec3 { x: 1_400_000_000, y: -1_400_000_000, z: 1_400_000_000 },
        Vec3 { x: 321, y: 5, z: -7 },
    ];
    for v in samples {
        let w = normalize(v);
        let n = w.x * w.x + w.y * w.y + w.z * w.z;
        let unit = SCALE * SCALE;
        assert!(n >= unit - 6_000_000, "norm too short: {n}");
        assert!(n <= unit + 7_000_000, "norm too long: {n}");
    }
}

#[test]
fn cross_of_the_axes() {
    let x = Vec3 { x: SCALE, y: 0, z: 0 };
    let y = Vec3 { x: 0, y: SCALE, z: 0 };
    let r = x.cross(y);
    assert_eq!(r, Vec3 { x: 0, y: 0, z: SCALE });
    let r = y.cross(x);
    assert_eq!(r, Vec3 { x: 0, y: 0, z: -SCALE });
}
