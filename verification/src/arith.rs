//! Fixed-point arithmetic base: scaling constants, truncating division,
//! saturation into the sample type, and clamping into the amplitude range.

use vstd::prelude::*;

verus! {

/// Fixed-point scale: an `i64` sample holds the real amplitude times `SCALE`,
/// so 1.0 (full scale) is `SCALE`.
pub const SCALE: i64 = 1_000_000_000;

/// Largest coefficient magnitude a profile may hold (a real value of 10^7).
/// This bound is forced by the machine: it keeps every product
/// `coefficient * sample` and every accumulator sum inside `i128`.
pub const COEFF_LIMIT: i64 = 10_000_000_000_000_000;

/// Largest filter order (history length) a profile may hold; together with
/// `COEFF_LIMIT` it keeps the accumulator inside `i128`.
pub const MAX_ORDER: usize = 64;

/// 2^63: a bound on the magnitude of every `i64` value.
pub const I64_MAG: i128 = 9_223_372_036_854_775_808;

/// Bound on one accumulator term: `COEFF_LIMIT * I64_MAG`.
pub const TERM_BOUND: i128 = COEFF_LIMIT as i128 * I64_MAG;

/// Bound on the whole accumulator: at most `2 * MAX_ORDER` terms.
pub const ACC_BOUND: i128 = 128 * TERM_BOUND;

/// Magnitude of an integer.
pub open spec fn iabs(v: int) -> int {
    if v < 0 {
        -v
    } else {
        v
    }
}

/// Truncating (round-toward-zero) division, the semantics of the executable
/// quotient used by the filter. Meaningful only for `d != 0`.
pub open spec fn tdiv(n: int, d: int) -> int {
    if (n < 0) == (d < 0) {
        iabs(n) / iabs(d)
    } else {
        -(iabs(n) / iabs(d))
    }
}

/// Saturate an integer into the `i64` range.
pub open spec fn sat64(v: int) -> int {
    if v > i64::MAX as int {
        i64::MAX as int
    } else if v < i64::MIN as int {
        i64::MIN as int
    } else {
        v
    }
}

/// Clamp an amplitude into the representable range `[-SCALE, SCALE]`
/// (cap, not wrap).
pub open spec fn clip_spec(v: int) -> int {
    if v > SCALE as int {
        SCALE as int
    } else if v < -(SCALE as int) {
        -(SCALE as int)
    } else {
        v
    }
}

/// Clamp a sample into the amplitude range `[-SCALE, SCALE]`.
pub fn clip(x: i64) -> (r: i64)
    ensures
        r as int == clip_spec(x as int),
        -SCALE <= r <= SCALE,
{
    if x > SCALE {
        SCALE
    } else if x < -SCALE {
        -SCALE
    } else {
        x
    }
}

/// Truncating division on `i128`, matching `tdiv`.
pub fn tdiv_i128(n: i128, d: i128) -> (r: i128)
    requires
        d != 0,
        i128::MIN < n,
        i128::MIN < d,
    ensures
        r as int == tdiv(n as int, d as int),
        iabs(r as int) == iabs(n as int) / iabs(d as int),
{
    let nn: u128 = if n >= 0 {
        n as u128
    } else {
        (-n) as u128
    };
    let dd: u128 = if d >= 0 {
        d as u128
    } else {
        (-d) as u128
    };
    let q: u128 = nn / dd;
    assert(q <= nn) by {
        assert(nn as int / dd as int <= nn as int) by (nonlinear_arith)
            requires
                dd >= 1,
                nn >= 0,
        ;
    };
    if (n < 0) == (d < 0) {
        q as i128
    } else {
        -(q as i128)
    }
}

/// Saturate an `i128` into the `i64` range, matching `sat64`.
pub fn sat_to_i64(q: i128) -> (r: i64)
    ensures
        r as int == sat64(q as int),
{
    if q > i64::MAX as i128 {
        i64::MAX
    } else if q < i64::MIN as i128 {
        i64::MIN
    } else {
        q as i64
    }
}

/// A product is bounded by the product of the factors' bounds.
pub proof fn lemma_mul_bound(c: int, v: int, cb: int, vb: int)
    by (nonlinear_arith)
    requires
        iabs(c) <= cb,
        iabs(v) <= vb,
    ensures
        iabs(c * v) <= cb * vb,
{
}

/// Clamping a saturated value equals clamping the value itself: the clamp
/// range lies inside the `i64` range.
pub proof fn lemma_clip_sat(v: int)
    ensures
        clip_spec(sat64(v)) == clip_spec(v),
{
}

} // verus!
