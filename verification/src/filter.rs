//! The recursive (IIR) digital filter: coefficient profiles, per-channel
//! history state, and the advance step
//! `y = (sum_j b[j]*x_hist[j] - sum_i a[i]*y_hist[i]) / a0`
//! over fixed-point samples, with most-recent-first history buffers.

use vstd::prelude::*;

use crate::arith::{
    iabs, tdiv, sat64, tdiv_i128, sat_to_i64, lemma_mul_bound, COEFF_LIMIT, MAX_ORDER, TERM_BOUND,
    ACC_BOUND, I64_MAG,
};

verus! {

/// A history buffer after one push: the new value in front, the oldest
/// value discarded; the length is unchanged.
pub open spec fn shifted<T>(s: Seq<T>, v: T) -> Seq<T> {
    seq![v].add(s.drop_last())
}

/// Dot product of the first `n` entries of two sample sequences, summed
/// low-to-high index.
pub open spec fn dotp(c: Seq<i64>, v: Seq<i64>, n: int) -> int
    decreases n,
{
    if n <= 0 {
        0
    } else {
        dotp(c, v, n - 1) + (c[n - 1] as int) * (v[n - 1] as int)
    }
}

/// A coefficient profile: normalization divisor `a0`, feedback (output
/// history) coefficients `a`, feedforward (input history) coefficients `b`.
/// Immutable once built; shared read-only by all filter instances using it.
pub struct FilterCoefficients {
    pub a0: i64,
    pub a: Vec<i64>,
    pub b: Vec<i64>,
}

/// Per-channel filter state: the last `N` outputs and last `M` inputs,
/// most-recent-first.
pub struct IIR {
    pub y_buf: Vec<i64>,
    pub x_buf: Vec<i64>,
}

/// What a valid profile satisfies: a nonzero divisor, at least one
/// coefficient on each side, and machine-forced magnitude and order bounds
/// that keep the accumulator inside `i128`.
pub open spec fn coeff_ok(a0: i64, a: Seq<i64>, b: Seq<i64>) -> bool {
    &&& a0 != 0
    &&& 1 <= a.len() <= MAX_ORDER as int
    &&& 1 <= b.len() <= MAX_ORDER as int
    &&& forall|i: int| 0 <= i < a.len() ==> iabs(a[i] as int) <= COEFF_LIMIT as int
    &&& forall|j: int| 0 <= j < b.len() ==> iabs(b[j] as int) <= COEFF_LIMIT as int
}

/// The output the filter produces from the given histories: feedforward dot
/// minus feedback dot, divided (truncating) by `a0`, saturated into the
/// sample type.
pub open spec fn next_out(c: FilterCoefficients, ys: Seq<i64>, xs: Seq<i64>) -> int {
    sat64(tdiv(dotp(c.b@, xs, c.b@.len() as int) - dotp(c.a@, ys, c.a@.len() as int), c.a0 as int))
}

impl FilterCoefficients {
    /// Validity of this profile (see `coeff_ok`); in particular `a0 != 0`.
    pub open spec fn wf(self) -> bool {
        coeff_ok(self.a0, self.a@, self.b@)
    }

    /// Feedback order N.
    pub open spec fn n(self) -> int {
        self.a@.len() as int
    }

    /// Feedforward order M.
    pub open spec fn m(self) -> int {
        self.b@.len() as int
    }

    /// Build a profile, validating it once at construction: `None` exactly
    /// when the coefficients are malformed (zero `a0`, empty or oversized
    /// coefficient lists, or a coefficient over the machine-forced bound).
    pub fn new(a0: i64, a: Vec<i64>, b: Vec<i64>) -> (r: Option<FilterCoefficients>)
        ensures
            r is Some <==> coeff_ok(a0, a@, b@),
            r matches Some(c) ==> c.a0 == a0 && c.a@ == a@ && c.b@ == b@ && c.wf(),
    {
        if a0 == 0 {
            return None;
        }
        if a.len() < 1 || a.len() > MAX_ORDER {
            return None;
        }
        if b.len() < 1 || b.len() > MAX_ORDER {
            return None;
        }
        let mut i: usize = 0;
        while i < a.len()
            invariant
                i <= a@.len(),
                forall|k: int| 0 <= k < i ==> iabs(a@[k] as int) <= COEFF_LIMIT as int,
            decreases a@.len() - i,
        {
            let c = a[i];
            if c > COEFF_LIMIT || c < -COEFF_LIMIT {
                return None;
            }
            i += 1;
        }
        let mut j: usize = 0;
        while j < b.len()
            invariant
                j <= b@.len(),
                forall|k: int| 0 <= k < j ==> iabs(b@[k] as int) <= COEFF_LIMIT as int,
            decreases b@.len() - j,
        {
            let c = b[j];
            if c > COEFF_LIMIT || c < -COEFF_LIMIT {
                return None;
            }
            j += 1;
        }
        Some(FilterCoefficients { a0, a, b })
    }
}

/// Every well-formed coefficient profile has a nonzero normalization
/// divisor, so the filter's division cannot fail.
pub proof fn lemma_wf_a0_nonzero(c: FilterCoefficients)
    requires
        c.wf(),
    ensures
        c.a0 != 0,
{
}

/// The advance step is deterministic: identical histories and an identical
/// input always yield the identical output.
pub proof fn lemma_advance_deterministic(
    c: FilterCoefficients,
    ys1: Seq<i64>,
    xs1: Seq<i64>,
    ys2: Seq<i64>,
    xs2: Seq<i64>,
    x1: i64,
    x2: i64,
)
    requires
        ys1 == ys2,
        xs1 == xs2,
        x1 == x2,
    ensures
        next_out(c, ys1, shifted(xs1, x1)) == next_out(c, ys2, shifted(xs2, x2)),
{
}

/// Push `x` onto the front of a history buffer: every element moves one
/// place toward the back, the oldest is discarded, the length is unchanged.
pub fn push_iir_buf<T: Copy>(buf: &mut Vec<T>, x: T)
    requires
        old(buf)@.len() >= 1,
    ensures
        final(buf)@ == shifted(old(buf)@, x),
{
    let n = buf.len();
    let mut k: usize = n - 1;
    while k > 0
        invariant
            buf@.len() == old(buf)@.len(),
            n == old(buf)@.len(),
            k < n,
            forall|i: int| 0 <= i <= k ==> buf@[i] == old(buf)@[i],
            forall|i: int| k < i < n ==> buf@[i] == old(buf)@[i - 1],
        decreases k,
    {
        let v = buf[k - 1];
        buf[k] = v;
        k -= 1;
    }
    buf[0] = x;
    assert(buf@ =~= shifted(old(buf)@, x));
}

/// A buffer of `n` zero samples.
fn zeros(n: usize) -> (v: Vec<i64>)
    ensures
        v@.len() == n,
        forall|i: int| 0 <= i < n ==> v@[i] == 0i64,
{
    let mut v: Vec<i64> = Vec::new();
    let mut k: usize = 0;
    while k < n
        invariant
            k <= n,
            v@.len() == k,
            forall|i: int| 0 <= i < k ==> v@[i] == 0i64,
        decreases n - k,
    {
        v.push(0);
        k += 1;
    }
    v
}

impl IIR {
    /// The state fits the profile: history lengths equal the filter orders.
    /// This holds at construction and after every advance.
    pub open spec fn wf(self, c: FilterCoefficients) -> bool {
        &&& self.y_buf@.len() == c.n()
        &&& self.x_buf@.len() == c.m()
    }

    /// All history entries are zero (cold start / silence).
    pub open spec fn is_zero(self) -> bool {
        &&& forall|i: int| 0 <= i < self.y_buf@.len() ==> self.y_buf@[i] == 0i64
        &&& forall|i: int| 0 <= i < self.x_buf@.len() ==> self.x_buf@[i] == 0i64
    }

    /// A filter state for the given profile, starting from silence
    /// (all-zero history).
    pub fn new(c: &FilterCoefficients) -> (r: IIR)
        requires
            c.wf(),
        ensures
            r.wf(*c),
            r.is_zero(),
    {
        IIR { y_buf: zeros(c.a.len()), x_buf: zeros(c.b.len()) }
    }

    /// Compute the output the current histories yield, without mutating
    /// them: `(sum_j b[j]*x[j] - sum_i a[i]*y[i]) / a0`, feedforward and
    /// feedback terms each summed low-to-high index, quotient truncated,
    /// result saturated into the sample type.
    pub fn next_sample(&self, c: &FilterCoefficients) -> (r: i64)
        requires
            c.wf(),
            self.wf(*c),
        ensures
            r as int == next_out(*c, self.y_buf@, self.x_buf@),
    {
        let mut acc: i128 = 0;
        let mut j: usize = 0;
        while j < c.b.len()
            invariant
                c.wf(),
                self.wf(*c),
                j <= c.b@.len(),
                acc as int == dotp(c.b@, self.x_buf@, j as int),
                iabs(acc as int) <= j as int * TERM_BOUND as int,
            decreases c.b@.len() - j,
        {
            proof {
                lemma_mul_bound(
                    c.b@[j as int] as int,
                    self.x_buf@[j as int] as int,
                    COEFF_LIMIT as int,
                    I64_MAG as int,
                );
            }
            let t: i128 = (c.b[j] as i128) * (self.x_buf[j] as i128);
            proof {
                assert(iabs(t as int) <= TERM_BOUND as int);
                assert(iabs(acc as int + t as int) <= (j as int + 1) * TERM_BOUND as int);
                assert((j as int + 1) * TERM_BOUND as int <= ACC_BOUND as int) by (nonlinear_arith)
                    requires
                        0 <= j as int + 1 <= 128,
                        TERM_BOUND as int == 92233720368547758080000000000000000,
                ;
            }
            acc = acc + t;
            j += 1;
        }
        proof {
            assert(iabs(acc as int) <= 64 * TERM_BOUND as int) by (nonlinear_arith)
                requires
                    iabs(acc as int) <= j as int * TERM_BOUND as int,
                    j as int <= 64,
                    TERM_BOUND as int > 0,
            ;
        }
        let ghost dot_b: int = acc as int;
        let mut i: usize = 0;
        while i < c.a.len()
            invariant
                c.wf(),
                self.wf(*c),
                i <= c.a@.len(),
                acc as int == dot_b - dotp(c.a@, self.y_buf@, i as int),
                iabs(dot_b) <= 64 * TERM_BOUND as int,
                iabs(acc as int) <= (64 + i as int) * TERM_BOUND as int,
            decreases c.a@.len() - i,
        {
            proof {
                lemma_mul_bound(
                    c.a@[i as int] as int,
                    self.y_buf@[i as int] as int,
                    COEFF_LIMIT as int,
                    I64_MAG as int,
                );
            }
            let t: i128 = (c.a[i] as i128) * (self.y_buf[i] as i128);
            proof {
                assert(iabs(t as int) <= TERM_BOUND as int);
                assert(iabs(acc as int - t as int) <= (64 + i as int + 1) * TERM_BOUND as int);
                assert((64 + i as int + 1) * TERM_BOUND as int <= ACC_BOUND as int)
                    by (nonlinear_arith)
                    requires
                        0 <= 64 + i as int + 1 <= 128,
                        TERM_BOUND as int == 92233720368547758080000000000000000,
                ;
            }
            acc = acc - t;
            i += 1;
        }
        proof {
            assert(iabs(acc as int) <= 128 * TERM_BOUND as int) by (nonlinear_arith)
                requires
                    iabs(acc as int) <= (64 + i as int) * TERM_BOUND as int,
                    64 + i as int <= 128,
                    TERM_BOUND as int > 0,
            ;
        }
        let q: i128 = tdiv_i128(acc, c.a0 as i128);
        sat_to_i64(q)
    }

    /// Advance the filter by one driving sample: push `x` onto the input
    /// history, compute the output from the new input history and the old
    /// output history, push that output onto the output history, return it.
    /// History lengths are preserved (the state stays well-formed).
    pub fn update(&mut self, c: &FilterCoefficients, x: i64) -> (y: i64)
        requires
            c.wf(),
            old(self).wf(*c),
        ensures
            final(self).wf(*c),
            final(self).x_buf@ == shifted(old(self).x_buf@, x),
            y as int == next_out(*c, old(self).y_buf@, shifted(old(self).x_buf@, x)),
            final(self).y_buf@ == shifted(old(self).y_buf@, y),
    {
        push_iir_buf(&mut self.x_buf, x);
        let y = self.next_sample(c);
        push_iir_buf(&mut self.y_buf, y);
        y
    }

    /// The most recently produced output (`y_buf[0]`), with no computation.
    pub fn current(&self) -> (r: i64)
        requires
            self.y_buf@.len() >= 1,
        ensures
            r == self.y_buf@[0],
    {
        self.y_buf[0]
    }

    /// Length of the output history (the feedback order N).
    pub fn output_history_len(&self) -> (r: usize)
        ensures
            r == self.y_buf@.len(),
    {
        self.y_buf.len()
    }

    /// Length of the input history (the feedforward order M).
    pub fn input_history_len(&self) -> (r: usize)
        ensures
            r == self.x_buf@.len(),
    {
        self.x_buf.len()
    }
}

} // verus!
