use noisegen::arith::{clip, SCALE, COEFF_LIMIT};
use noisegen::filter::{push_iir_buf, FilterCoefficients, IIR};
use noisegen::profiles::{
    identity_profile, brown_profile, pink_profile, DEFAULT_GAIN, BROWN_FEEDBACK,
};

#[test]
fn profiles_have_nonzero_a0() {
    assert_ne!(identity_profile(DEFAULT_GAIN).a0, 0);
    assert_ne!(brown_profile(DEFAULT_GAIN).a0, 0);
    assert_ne!(pink_profile().a0, 0);
}

#[test]
fn new_rejects_zero_a0() {
    assert!(FilterCoefficients::new(0, vec![0], vec![DEFAULT_GAIN]).is_none());
}

#[test]
fn new_rejects_empty_or_oversized() {
    assert!(FilterCoefficients::new(SCALE, vec![], vec![DEFAULT_GAIN]).is_none());
    assert!(FilterCoefficients::new(SCALE, vec![0], vec![]).is_none());
    assert!(FilterCoefficients::new(SCALE, vec![0; 65], vec![DEFAULT_GAIN]).is_none());
    assert!(FilterCoefficients::new(SCALE, vec![0], vec![COEFF_LIMIT + 1]).is_none());
    assert!(FilterCoefficients::new(SCALE, vec![-COEFF_LIMIT - 1], vec![DEFAULT_GAIN]).is_none());
}

#[test]
fn new_accepts_the_pink_coefficients() {
    let p = pink_profile();
    let c = FilterCoefficients::new(p.a0, p.a.clone(), p.b.clone());
    assert!(c.is_some());
    let c = c.unwrap();
    assert_eq!(c.a0, SCALE);
    assert_eq!(c.a, vec![-2_494_956_002, 2_017_265_875, -522_189_400]);
    assert_eq!(c.b, vec![49_922_035, -95_993_537, 50_612_699, -4_408_786]);
}

#[test]
fn push_shifts_and_keeps_length() {
    let mut buf: Vec<i64> = vec![10, 20, 30];
    push_iir_buf(&mut buf, 7);
    assert_eq!(buf, vec![7, 10, 20]);
    push_iir_buf(&mut buf, -1);
    assert_eq!(buf, vec![-1, 7, 10]);
}

#[test]
fn push_on_length_one_replaces() {
    let mut buf: Vec<i64> = vec![5];
    push_iir_buf(&mut buf, 9);
    assert_eq!(buf, vec![9]);
}

// Identity profile with gain 0.025: driving samples 1.0, -1.0, 0.5 yield
// outputs 0.025, -0.025, 0.0125 from zero initial history.
#[test]
fn identity_scenario_three_samples() {
    let c = identity_profile(DEFAULT_GAIN);
    let mut f = IIR::new(&c);
    assert_eq!(f.update(&c, SCALE), 25_000_000);
    assert_eq!(f.update(&c, -SCALE), -25_000_000);
    assert_eq!(f.update(&c, SCALE / 2), 12_500_000);
}

// Identity: pure scaling, no memory effect — earlier inputs never matter.
#[test]
fn identity_ignores_history() {
    let c = identity_profile(DEFAULT_GAIN);
    let mut f = IIR::new(&c);
    for x in [SCALE, -3 * SCALE, 31_337, 0, 2 * SCALE] {
        assert_eq!(f.update(&c, x), clip_mul_gain(x));
    }
}

fn clip_mul_gain(x: i64) -> i64 {
    ((DEFAULT_GAIN as i128 * x as i128) / SCALE as i128) as i64
}

// Determinism: identical histories and identical inputs give identical
// outputs, run after run.
#[test]
fn advance_is_deterministic() {
    let drives = [SCALE, -SCALE / 3, 777_000_001, 0, -SCALE, SCALE / 7];
    let c1 = pink_profile();
    let c2 = pink_profile();
    let mut f1 = IIR::new(&c1);
    let mut f2 = IIR::new(&c2);
    for x in drives {
        assert_eq!(f1.update(&c1, x), f2.update(&c2, x));
    }
    assert_eq!(f1.current(), f2.current());
}

// Brown decay: after a nonzero seed, all-zero driving samples make the
// output magnitude strictly decrease toward zero.
#[test]
fn brown_decays_on_silence() {
    let c = brown_profile(DEFAULT_GAIN);
    assert_eq!(c.a, vec![BROWN_FEEDBACK]);
    let mut f = IIR::new(&c);
    let seed = f.update(&c, SCALE);
    assert_eq!(seed, 25_000_000);
    // One zero-input step: 997_097_506 * 25_000_000 / SCALE, truncated.
    let y1 = f.update(&c, 0);
    assert_eq!(y1, 24_927_437);
    let mut prev = y1;
    for _ in 0..64 {
        let y = f.update(&c, 0);
        if prev == 0 {
            assert_eq!(y, 0);
        } else {
            assert!(y.abs() < prev.abs());
        }
        prev = y;
    }
}

// History buffer sizes stay N and M after any number of advances, for both
// a (1,1) and the (3,4) profile.
#[test]
fn history_lengths_invariant() {
    let ci = identity_profile(DEFAULT_GAIN);
    let mut fi = IIR::new(&ci);
    let cp = pink_profile();
    let mut fp = IIR::new(&cp);
    assert_eq!((fi.output_history_len(), fi.input_history_len()), (1, 1));
    assert_eq!((fp.output_history_len(), fp.input_history_len()), (3, 4));
    for k in 0..1000i64 {
        fi.update(&ci, k * 1_000_001);
        fp.update(&cp, k * 1_000_001);
        assert_eq!((fi.output_history_len(), fi.input_history_len()), (1, 1));
        assert_eq!((fp.output_history_len(), fp.input_history_len()), (3, 4));
    }
}

#[test]
fn current_reads_last_output_without_computing() {
    let c = pink_profile();
    let mut f = IIR::new(&c);
    assert_eq!(f.current(), 0);
    let y = f.update(&c, SCALE);
    assert_eq!(f.current(), y);
    assert_eq!(f.current(), y);
}

#[test]
fn next_sample_does_not_mutate() {
    let c = pink_profile();
    let mut f = IIR::new(&c);
    f.update(&c, SCALE);
    f.update(&c, -SCALE / 2);
    let peek1 = f.next_sample(&c);
    let peek2 = f.next_sample(&c);
    assert_eq!(peek1, peek2);
    assert_eq!(f.update(&c, 0), {
        let mut g = IIR::new(&c);
        g.update(&c, SCALE);
        g.update(&c, -SCALE / 2);
        g.update(&c, 0)
    });
}

#[test]
fn clip_clamps_to_full_scale() {
    assert_eq!(clip(SCALE + 1), SCALE);
    assert_eq!(clip(i64::MAX), SCALE);
    assert_eq!(clip(-SCALE - 1), -SCALE);
    assert_eq!(clip(i64::MIN), -SCALE);
    assert_eq!(clip(SCALE), SCALE);
    assert_eq!(clip(-SCALE), -SCALE);
    assert_eq!(clip(123), 123);
}

// Pink profile, one exact value: first output is b[0] * x / a0.
#[test]
fn pink_first_output_exact() {
    let c = pink_profile();
    let mut f = IIR::new(&c);
    // 49_922_035 * SCALE / SCALE == 49_922_035 (0.049922035 for a 1.0 input).
    assert_eq!(f.update(&c, SCALE), 49_922_035);
    // Second step: b[0]*x1 + b[1]*x0 - a[0]*y0, over SCALE.
    // x1 = 0: (-95_993_537 * SCALE - (-2_494_956_002 * 49_922_035)) / SCALE
    let expect = ((-95_993_537i128 * SCALE as i128
        - (-2_494_956_002i128 * 49_922_035i128))
        / SCALE as i128) as i64;
    assert_eq!(f.update(&c, 0), expect);
}
