use terminal_boids::math::{clamp_len, div_trunc, isqrt, normalize};

#[test]
fn isqrt_exact_values() {
    assert_eq!(isqrt(0), 0);
    assert_eq!(isqrt(1), 1);
    assert_eq!(isqrt(2), 1);
    assert_eq!(isqrt(99), 9);
    assert_eq!(isqrt(100), 10);
    assert_eq!(isqrt(1_000_000), 1000);
    assert_eq!(isqrt(1_999_999), 1414);
}

#[test]
fn div_trunc_rounds_toward_zero() {
    assert_eq!(div_trunc(7, 2), 3);
    assert_eq!(div_trunc(-7, 2), -3);
    assert_eq!(div_trunc(0, 5), 0);
    assert_eq!(div_trunc(-1, 1000), 0);
}

#[test]
fn normalize_scales_to_unit_length() {
    assert_eq!(normalize(3000, 4000), (600, 800));
    assert_eq!(normalize(-3000, 4000), (-600, 800));
    assert_eq!(normalize(0, 0), (0, 0));
    assert_eq!(normalize(5, 0), (1000, 0));
}

#[test]
fn normalize_is_accurate_for_sub_unit_vectors() {
    // a vector of a thousandth of a unit per axis still normalizes to
    // (nearly) unit length
    let (nx, ny) = normalize(1, 1);
    assert_eq!((nx, ny), (707, 707));
    let len_sq = nx * nx + ny * ny;
    assert!(997 * 997 <= len_sq && len_sq < 1001 * 1001);
    assert_eq!(normalize(-1, 0), (-1000, 0));
    assert_eq!(normalize(3, 4), (600, 800));
}

#[test]
fn normalize_is_accurate_for_large_vectors() {
    let (nx, ny) = normalize(3_000_000, 4_000_000);
    assert_eq!((nx, ny), (600, 800));
}

#[test]
fn clamp_len_caps_only_fast_vectors() {
    assert_eq!(clamp_len(3000, 4000, 1000), (600, 800));
    assert_eq!(clamp_len(300, 400, 1000), (300, 400));
    let (vx, vy) = clamp_len(10000, 10000, 1000);
    assert_eq!((vx, vy), (707, 707));
    assert!(vx * vx + vy * vy <= 1001 * 1001);
}
