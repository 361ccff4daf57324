//! The fixed coefficient profiles: identity ("white", pure gain), one-pole
//! brown (red, -6 dB/octave), and the 3-pole/4-zero pink (1/f, -3 dB/octave)
//! approximation; with the laws they obey (pure scaling for identity,
//! strict decay for brown).

use vstd::prelude::*;

use crate::arith::{iabs, tdiv, sat64, clip_spec, lemma_clip_sat, SCALE, COEFF_LIMIT};
use crate::filter::{shifted, dotp, next_out, FilterCoefficients};

verus! {

/// The gain the default configuration uses (a real gain of 0.025).
pub const DEFAULT_GAIN: i64 = 25_000_000;

/// Brown one-pole feedback coefficient: `-(1 - cutoff/rate)` in fixed point,
/// with a 128 Hz cutoff at a 44100 Hz sample rate
/// (`128 * SCALE / 44100 == 2_902_494`, truncated).
pub const BROWN_FEEDBACK: i64 = -(SCALE - 2_902_494);

/// Identity ("white") profile: `a0 = 1, a = [0], b = [gain]` in fixed point.
/// The output is the scaled input; history has no effect.
pub fn identity_profile(gain: i64) -> (r: FilterCoefficients)
    requires
        -COEFF_LIMIT <= gain <= COEFF_LIMIT,
    ensures
        r.wf(),
        r.a0 == SCALE,
        r.a@ == seq![0i64],
        r.b@ == seq![gain],
{
    let mut a: Vec<i64> = Vec::new();
    a.push(0);
    let mut b: Vec<i64> = Vec::new();
    b.push(gain);
    assert(a@ =~= seq![0i64]);
    assert(b@ =~= seq![gain]);
    FilterCoefficients { a0: SCALE, a, b }
}

/// Brown (red) profile: a one-pole low-pass, `a0 = 1`,
/// `a = [-(1 - cutoff/rate)]`, `b = [gain]` in fixed point. Produces a
/// -6 dB/octave slope (integrated white noise).
pub fn brown_profile(gain: i64) -> (r: FilterCoefficients)
    requires
        -COEFF_LIMIT <= gain <= COEFF_LIMIT,
    ensures
        r.wf(),
        r.a0 == SCALE,
        r.a@ == seq![BROWN_FEEDBACK],
        r.b@ == seq![gain],
{
    let mut a: Vec<i64> = Vec::new();
    a.push(BROWN_FEEDBACK);
    let mut b: Vec<i64> = Vec::new();
    b.push(gain);
    assert(a@ =~= seq![BROWN_FEEDBACK]);
    assert(b@ =~= seq![gain]);
    FilterCoefficients { a0: SCALE, a, b }
}

/// Pink profile: a fixed 3-pole/4-zero approximation of a -3 dB/octave (1/f)
/// slope over the audible range, in fixed point (the empirically derived
/// poles/zeros -2.494956002, 2.017265875, -0.522189400 and 0.049922035,
/// -0.095993537, 0.050612699, -0.004408786 times `SCALE`).
pub fn pink_profile() -> (r: FilterCoefficients)
    ensures
        r.wf(),
        r.a0 == SCALE,
        r.a@ == seq![-2_494_956_002i64, 2_017_265_875i64, -522_189_400i64],
        r.b@ == seq![49_922_035i64, -95_993_537i64, 50_612_699i64, -4_408_786i64],
{
    let mut a: Vec<i64> = Vec::new();
    a.push(-2_494_956_002);
    a.push(2_017_265_875);
    a.push(-522_189_400);
    let mut b: Vec<i64> = Vec::new();
    b.push(49_922_035);
    b.push(-95_993_537);
    b.push(50_612_699);
    b.push(-4_408_786);
    assert(a@ =~= seq![-2_494_956_002i64, 2_017_265_875i64, -522_189_400i64]);
    assert(b@ =~= seq![49_922_035i64, -95_993_537i64, 50_612_699i64, -4_408_786i64]);
    FilterCoefficients { a0: SCALE, a, b }
}

/// With an identity profile (`a = [0]`, `b = [g]`), advancing on input `x`
/// yields the scaled input alone, whatever the histories hold: pure scaling,
/// no memory effect; clamped, it is exactly `clamp(g * x)`.
pub proof fn lemma_identity_pure_scaling(
    c: FilterCoefficients,
    ys: Seq<i64>,
    xs: Seq<i64>,
    x: i64,
    g: i64,
)
    requires
        c.a0 == SCALE,
        c.a@ == seq![0i64],
        c.b@ == seq![g],
        ys.len() == 1,
        xs.len() == 1,
    ensures
        next_out(c, ys, shifted(xs, x)) == sat64(tdiv(g as int * x as int, SCALE as int)),
        clip_spec(next_out(c, ys, shifted(xs, x))) == clip_spec(
            tdiv(g as int * x as int, SCALE as int),
        ),
{
    let sx = shifted(xs, x);
    assert(sx =~= seq![x]);
    assert(dotp(c.b@, sx, 0) == 0);
    assert(dotp(c.a@, ys, 0) == 0);
    assert(dotp(c.b@, sx, 1) == (g as int) * (x as int));
    assert(c.a@[0] == 0i64);
    assert((c.a@[0] as int) * (ys[0] as int) == 0);
    assert(dotp(c.a@, ys, 1) == 0);
    lemma_clip_sat(tdiv(g as int * x as int, SCALE as int));
}

/// With the brown profile and a zero driving sample, the output magnitude
/// strictly decreases: the pole lies strictly inside the unit circle, so
/// after a nonzero seed an all-zero driving sequence decays toward silence.
pub proof fn lemma_brown_decay(c: FilterCoefficients, ys: Seq<i64>, xs: Seq<i64>, g: i64)
    requires
        c.a0 == SCALE,
        c.a@ == seq![BROWN_FEEDBACK],
        c.b@ == seq![g],
        ys.len() == 1,
        xs.len() == 1,
        ys[0] != 0,
    ensures
        iabs(next_out(c, ys, shifted(xs, 0i64))) < iabs(ys[0] as int),
{
    let sx = shifted(xs, 0i64);
    assert(sx =~= seq![0i64]);
    let y0 = ys[0] as int;
    let k = iabs(y0);
    assert(dotp(c.b@, sx, 0) == 0);
    assert(dotp(c.a@, ys, 0) == 0);
    assert(sx[0] == 0i64);
    assert((c.b@[0] as int) * (sx[0] as int) == 0);
    assert(dotp(c.b@, sx, 1) == 0);
    assert(dotp(c.a@, ys, 1) == (BROWN_FEEDBACK as int) * y0);
    let num = 0 - (BROWN_FEEDBACK as int) * y0;
    assert(BROWN_FEEDBACK == -997_097_506i64);
    assert(num == 997_097_506 * y0);
    assert(iabs(num) == 997_097_506 * k) by (nonlinear_arith)
        requires
            num == 997_097_506 * y0,
            k == iabs(y0),
    ;
    let q = tdiv(num, SCALE as int);
    assert(iabs(q) == iabs(num) / (SCALE as int));
    vstd::arithmetic::div_mod::lemma_fundamental_div_mod(iabs(num), SCALE as int);
    let rem = iabs(num) % (SCALE as int);
    assert(iabs(q) < k) by (nonlinear_arith)
        requires
            1_000_000_000 * iabs(q) + rem == 997_097_506 * k,
            0 <= rem < 1_000_000_000,
            k >= 1,
    ;
    assert(1 <= k <= 9_223_372_036_854_775_808int);
    assert(sat64(q) == q);
}

} // verus!
