use noisegen::arith::{clip, tdiv_i128, sat_to_i64, SCALE};

// The quotient truncates toward zero for every sign combination.
#[test]
fn truncating_division_rounds_toward_zero() {
    assert_eq!(tdiv_i128(7, 2), 3);
    assert_eq!(tdiv_i128(-7, 2), -3);
    assert_eq!(tdiv_i128(7, -2), -3);
    assert_eq!(tdiv_i128(-7, -2), 3);
    assert_eq!(tdiv_i128(0, 5), 0);
    assert_eq!(tdiv_i128(997_097_506 * 25_000_000, SCALE as i128), 24_927_437);
}

#[test]
fn saturation_caps_at_the_i64_bounds() {
    assert_eq!(sat_to_i64(i64::MAX as i128 + 1), i64::MAX);
    assert_eq!(sat_to_i64(i64::MIN as i128 - 1), i64::MIN);
    assert_eq!(sat_to_i64(42), 42);
    assert_eq!(sat_to_i64(-42), -42);
}

#[test]
fn clip_is_identity_inside_the_range() {
    for v in [-SCALE, -1, 0, 1, SCALE] {
        assert_eq!(clip(v), v);
    }
    assert_eq!(clip(SCALE + 1), SCALE);
    assert_eq!(clip(-SCALE - 1), -SCALE);
}
