use noisegen::arith::{SCALE, COEFF_LIMIT};
use noisegen::engine::{StereoEngine, StereoSample};
use noisegen::profiles::{identity_profile, pink_profile, DEFAULT_GAIN};

// Output is always clamped into [-1, 1] (fixed point: [-SCALE, SCALE]),
// even under a gain and inputs that drive the filter far outside it.
#[test]
fn outputs_always_clamped() {
    let c = identity_profile(COEFF_LIMIT);
    let mut e = StereoEngine::new(c);
    let wild = [i64::MAX, i64::MIN, 3 * SCALE, -3 * SCALE, 0, 1];
    for (k, &x) in wild.iter().enumerate() {
        let s = e.produce_frame(x, wild[wild.len() - 1 - k]);
        assert!(-SCALE <= s.left && s.left <= SCALE);
        assert!(-SCALE <= s.right && s.right <= SCALE);
    }
}

#[test]
fn clamp_caps_not_wraps() {
    let c = identity_profile(COEFF_LIMIT);
    let mut e = StereoEngine::new(c);
    let s = e.produce_frame(SCALE, -SCALE);
    assert_eq!(s, StereoSample { left: SCALE, right: -SCALE });
}

#[test]
fn channels_are_independent() {
    let c = pink_profile();
    let mut e = StereoEngine::new(c);
    let s1 = e.produce_frame(SCALE, 0);
    assert_eq!(s1.left, 49_922_035);
    assert_eq!(s1.right, 0);
    let s2 = e.produce_frame(0, SCALE);
    assert_ne!(s2.left, s1.left);
    assert_eq!(s2.right, 49_922_035);
}

#[test]
fn last_outputs_peeks_without_advancing() {
    let c = pink_profile();
    let mut e = StereoEngine::new(c);
    assert_eq!(e.last_outputs(), StereoSample { left: 0, right: 0 });
    let s = e.produce_frame(SCALE, -SCALE);
    assert_eq!(e.last_outputs(), s);
    assert_eq!(e.last_outputs(), s);
}

// last_outputs clamps the peek: a saturated previous frame reads as
// exactly full scale.
#[test]
fn last_outputs_is_clamped() {
    let c = identity_profile(COEFF_LIMIT);
    let mut e = StereoEngine::new(c);
    e.produce_frame(i64::MAX, i64::MIN);
    let s = e.last_outputs();
    assert_eq!(s, StereoSample { left: SCALE, right: -SCALE });
}

#[test]
fn engine_starts_from_silence() {
    let c = pink_profile();
    let mut e = StereoEngine::new(c);
    assert_eq!(e.last_outputs(), StereoSample { left: 0, right: 0 });
    let s = e.produce_frame(0, 0);
    assert_eq!(s, StereoSample { left: 0, right: 0 });
}

// Identity engine frames equal clamp(gain * x) per channel.
#[test]
fn identity_engine_scales_each_channel() {
    let c = identity_profile(DEFAULT_GAIN);
    let mut e = StereoEngine::new(c);
    let s = e.produce_frame(SCALE, -SCALE / 2);
    assert_eq!(s, StereoSample { left: 25_000_000, right: -12_500_000 });
}
