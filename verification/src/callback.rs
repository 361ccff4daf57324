//! The real-time callback adapter: the per-buffer fill routine the audio
//! driver invokes (frame by frame: check the previous frame's clamped
//! outputs for saturation, produce a frame, write it interleaved), the
//! continuation signal handed back to the driver, and the stream lifecycle
//! (idle / streaming / stopped) it can transition.
//!
//! The fill routine allocates nothing: it writes into a caller-supplied
//! buffer and advances the caller's engine in place.

use vstd::prelude::*;

use crate::arith::{iabs, clip_spec, SCALE};
use crate::filter::{shifted, next_out, FilterCoefficients};
use crate::engine::StereoEngine;
use crate::profiles::{lemma_brown_decay, BROWN_FEEDBACK};

verus! {

/// The cooperative signal a callback invocation returns to the driver:
/// keep streaming, or stop.
#[derive(Clone, Copy, PartialEq, Eq, Structural, Debug)]
pub enum Continuation {
    Continue,
    Stop,
}

/// Stream lifecycle: not yet started, driven by the driver, or closed
/// (terminal).
#[derive(Clone, Copy, PartialEq, Eq, Structural, Debug)]
pub enum StreamPhase {
    Idle,
    Streaming,
    Stopped,
}

impl StreamPhase {
    /// Stream start (driver call): Idle moves to Streaming; any other
    /// phase is unchanged.
    pub fn on_start(self) -> (r: StreamPhase)
        ensures
            self is Idle ==> r is Streaming,
            !(self is Idle) ==> r == self,
    {
        match self {
            StreamPhase::Idle => StreamPhase::Streaming,
            other => other,
        }
    }

    /// Stream stop/close (driver call): Streaming moves to Stopped; any
    /// other phase is unchanged.
    pub fn on_stop(self) -> (r: StreamPhase)
        ensures
            self is Streaming ==> r is Stopped,
            !(self is Streaming) ==> r == self,
    {
        match self {
            StreamPhase::Streaming => StreamPhase::Stopped,
            other => other,
        }
    }

    /// Effect of a callback's continuation signal: a Stop signal while
    /// streaming moves to Stopped; anything else leaves the phase alone.
    pub fn on_callback_result(self, c: Continuation) -> (r: StreamPhase)
        ensures
            self is Streaming && c is Stop ==> r is Stopped,
            !(self is Streaming && c is Stop) ==> r == self,
    {
        match (self, c) {
            (StreamPhase::Streaming, Continuation::Stop) => StreamPhase::Stopped,
            (other, _) => other,
        }
    }
}

/// The left-channel driving samples of an interleaved sequence (even
/// positions).
pub open spec fn left_drives(d: Seq<i64>) -> Seq<i64> {
    Seq::new((d.len() / 2) as nat, |i: int| d[2 * i])
}

/// The right-channel driving samples of an interleaved sequence (odd
/// positions).
pub open spec fn right_drives(d: Seq<i64>) -> Seq<i64> {
    Seq::new((d.len() / 2) as nat, |i: int| d[2 * i + 1])
}

/// Input history after feeding the first `n` driving samples of `ds`.
pub open spec fn xs_after(xs: Seq<i64>, ds: Seq<i64>, n: int) -> Seq<i64>
    decreases n,
{
    if n <= 0 {
        xs
    } else {
        shifted(xs_after(xs, ds, n - 1), ds[n - 1])
    }
}

/// Output history after `n` advances of one channel from histories
/// (`ys`, `xs`) on the driving samples `ds`.
pub open spec fn ys_after(
    c: FilterCoefficients,
    ys: Seq<i64>,
    xs: Seq<i64>,
    ds: Seq<i64>,
    n: int,
) -> Seq<i64>
    decreases n,
{
    if n <= 0 {
        ys
    } else {
        shifted(
            ys_after(c, ys, xs, ds, n - 1),
            next_out(c, ys_after(c, ys, xs, ds, n - 1), xs_after(xs, ds, n)) as i64,
        )
    }
}

/// The output the channel produces at frame `n` (0-based): the advance on
/// driving sample `ds[n]` from the histories `n` frames in.
pub open spec fn out_at(
    c: FilterCoefficients,
    ys: Seq<i64>,
    xs: Seq<i64>,
    ds: Seq<i64>,
    n: int,
) -> int {
    next_out(c, ys_after(c, ys, xs, ds, n), xs_after(xs, ds, n + 1))
}

/// Whether the pre-frame saturation check fires at frame `n`: the previous
/// frame's clamped output of either channel sits exactly on the clamp
/// boundary (full scale).
pub open spec fn sat_at(
    c: FilterCoefficients,
    ly: Seq<i64>,
    lx: Seq<i64>,
    ry: Seq<i64>,
    rx: Seq<i64>,
    dl: Seq<i64>,
    dr: Seq<i64>,
    n: int,
) -> bool {
    ||| iabs(clip_spec(ys_after(c, ly, lx, dl, n)[0] as int)) == SCALE as int
    ||| iabs(clip_spec(ys_after(c, ry, rx, dr, n)[0] as int)) == SCALE as int
}

/// How many of the first `n` frames' saturation checks fire.
pub open spec fn sat_count(
    c: FilterCoefficients,
    ly: Seq<i64>,
    lx: Seq<i64>,
    ry: Seq<i64>,
    rx: Seq<i64>,
    dl: Seq<i64>,
    dr: Seq<i64>,
    n: int,
) -> int
    decreases n,
{
    if n <= 0 {
        0
    } else {
        sat_count(c, ly, lx, ry, rx, dl, dr, n - 1) + if sat_at(c, ly, lx, ry, rx, dl, dr, n - 1) {
            1int
        } else {
            0int
        }
    }
}

/// Advancing preserves the history lengths, however many frames run.
pub proof fn lemma_after_lens(
    c: FilterCoefficients,
    ys: Seq<i64>,
    xs: Seq<i64>,
    ds: Seq<i64>,
    n: int,
)
    requires
        ys.len() >= 1,
        xs.len() >= 1,
    ensures
        ys_after(c, ys, xs, ds, n).len() == ys.len(),
        xs_after(xs, ds, n).len() == xs.len(),
    decreases n,
{
    if n > 0 {
        lemma_after_lens(c, ys, xs, ds, n - 1);
    }
}

/// Brown decay over time: with the brown profile, once the driving samples
/// are all zero, every frame's output magnitude is strictly below the
/// previous output's magnitude until silence is reached — the pole lies
/// strictly inside the unit circle.
pub proof fn lemma_brown_decay_chain(
    c: FilterCoefficients,
    ys: Seq<i64>,
    xs: Seq<i64>,
    ds: Seq<i64>,
    g: i64,
    n: int,
)
    requires
        c.a0 == SCALE,
        c.a@ == seq![BROWN_FEEDBACK],
        c.b@ == seq![g],
        ys.len() == 1,
        xs.len() == 1,
        0 <= n < ds.len(),
        forall|k: int| 0 <= k <= n ==> ds[k] == 0i64,
        ys_after(c, ys, xs, ds, n)[0] != 0,
    ensures
        iabs(out_at(c, ys, xs, ds, n)) < iabs(ys_after(c, ys, xs, ds, n)[0] as int),
{
    lemma_after_lens(c, ys, xs, ds, n);
    assert(xs_after(xs, ds, n + 1) == shifted(xs_after(xs, ds, n), 0i64));
    lemma_brown_decay(c, ys_after(c, ys, xs, ds, n), xs_after(xs, ds, n), g);
}

/// One callback invocation: for each of `frames` frames, test the previous
/// frame's clamped outputs for saturation (diagnostic only: it never alters
/// control flow), advance both channels on their driving samples (`drives`
/// interleaved left/right), and write the clamped pair into `buffer` at
/// positions `2*i` and `2*i+1`. Returns the continuation signal — always
/// "continue" — and the number of frames whose saturation check fired.
pub fn fill_buffer(
    engine: &mut StereoEngine,
    drives: &Vec<i64>,
    buffer: &mut Vec<i64>,
    frames: usize,
) -> (r: (Continuation, usize))
    requires
        old(engine).wf(),
        drives@.len() == 2 * frames,
        old(buffer)@.len() == 2 * frames,
    ensures
        final(engine).wf(),
        final(engine).coeff == old(engine).coeff,
        final(buffer)@.len() == 2 * frames,
        final(engine).left.y_buf@ == ys_after(
            old(engine).coeff,
            old(engine).left.y_buf@,
            old(engine).left.x_buf@,
            left_drives(drives@),
            frames as int,
        ),
        final(engine).right.y_buf@ == ys_after(
            old(engine).coeff,
            old(engine).right.y_buf@,
            old(engine).right.x_buf@,
            right_drives(drives@),
            frames as int,
        ),
        final(engine).left.x_buf@ == xs_after(
            old(engine).left.x_buf@,
            left_drives(drives@),
            frames as int,
        ),
        final(engine).right.x_buf@ == xs_after(
            old(engine).right.x_buf@,
            right_drives(drives@),
            frames as int,
        ),
        forall|i: int|
            0 <= i < frames ==> final(buffer)@[2 * i] as int == clip_spec(
                out_at(
                    old(engine).coeff,
                    old(engine).left.y_buf@,
                    old(engine).left.x_buf@,
                    left_drives(drives@),
                    i,
                ),
            ),
        forall|i: int|
            0 <= i < frames ==> final(buffer)@[2 * i + 1] as int == clip_spec(
                out_at(
                    old(engine).coeff,
                    old(engine).right.y_buf@,
                    old(engine).right.x_buf@,
                    right_drives(drives@),
                    i,
                ),
            ),
        forall|i: int| 0 <= i < 2 * frames ==> -SCALE <= #[trigger] final(buffer)@[i] <= SCALE,
        r.1 as int == sat_count(
            old(engine).coeff,
            old(engine).left.y_buf@,
            old(engine).left.x_buf@,
            old(engine).right.y_buf@,
            old(engine).right.x_buf@,
            left_drives(drives@),
            right_drives(drives@),
            frames as int,
        ),
        r.0 == Continuation::Continue,
{
    let ghost c = old(engine).coeff;
    let ghost ly0 = old(engine).left.y_buf@;
    let ghost lx0 = old(engine).left.x_buf@;
    let ghost ry0 = old(engine).right.y_buf@;
    let ghost rx0 = old(engine).right.x_buf@;
    let ghost dl = left_drives(drives@);
    let ghost dr = right_drives(drives@);
    let total = drives.len();
    let mut count: usize = 0;
    let mut i: usize = 0;
    while i < frames
        invariant
            engine.wf(),
            engine.coeff == c,
            c == old(engine).coeff,
            ly0 == old(engine).left.y_buf@,
            lx0 == old(engine).left.x_buf@,
            ry0 == old(engine).right.y_buf@,
            rx0 == old(engine).right.x_buf@,
            dl == left_drives(drives@),
            dr == right_drives(drives@),
            i <= frames,
            count <= i,
            total == drives@.len(),
            drives@.len() == 2 * frames,
            buffer@.len() == 2 * frames,
            engine.left.y_buf@ == ys_after(c, ly0, lx0, dl, i as int),
            engine.right.y_buf@ == ys_after(c, ry0, rx0, dr, i as int),
            engine.left.x_buf@ == xs_after(lx0, dl, i as int),
            engine.right.x_buf@ == xs_after(rx0, dr, i as int),
            forall|k: int|
                0 <= k < i ==> buffer@[2 * k] as int == clip_spec(out_at(c, ly0, lx0, dl, k)),
            forall|k: int|
                0 <= k < i ==> buffer@[2 * k + 1] as int == clip_spec(out_at(c, ry0, rx0, dr, k)),
            forall|k: int|
                0 <= k < 2 * i ==> -SCALE <= #[trigger] buffer@[k] <= SCALE,
            count as int == sat_count(c, ly0, lx0, ry0, rx0, dl, dr, i as int),
        decreases frames - i,
    {
        let prev = engine.last_outputs();
        let fired = prev.left == SCALE || prev.left == -SCALE || prev.right == SCALE
            || prev.right == -SCALE;
        proof {
            assert(fired == sat_at(c, ly0, lx0, ry0, rx0, dl, dr, i as int));
        }
        if fired {
            count += 1;
        }
        let xl = drives[2 * i];
        let xr = drives[2 * i + 1];
        proof {
            assert(dl[i as int] == drives@[2 * (i as int)]);
            assert(dr[i as int] == drives@[2 * (i as int) + 1]);
            assert(xs_after(lx0, dl, i as int + 1) == shifted(xs_after(lx0, dl, i as int), xl));
            assert(xs_after(rx0, dr, i as int + 1) == shifted(xs_after(rx0, dr, i as int), xr));
        }
        let s = engine.produce_frame(xl, xr);
        proof {
            let yl = engine.left.y_buf@[0];
            let yr = engine.right.y_buf@[0];
            assert(yl as int == out_at(c, ly0, lx0, dl, i as int));
            assert(yr as int == out_at(c, ry0, rx0, dr, i as int));
            assert(yl == next_out(c, ys_after(c, ly0, lx0, dl, i as int), xs_after(lx0, dl, i as int + 1)) as i64);
            assert(yr == next_out(c, ys_after(c, ry0, rx0, dr, i as int), xs_after(rx0, dr, i as int + 1)) as i64);
            assert(engine.left.y_buf@ == ys_after(c, ly0, lx0, dl, i as int + 1));
            assert(engine.right.y_buf@ == ys_after(c, ry0, rx0, dr, i as int + 1));
            assert(sat_count(c, ly0, lx0, ry0, rx0, dl, dr, i as int + 1) == sat_count(
                c,
                ly0,
                lx0,
                ry0,
                rx0,
                dl,
                dr,
                i as int,
            ) + if sat_at(c, ly0, lx0, ry0, rx0, dl, dr, i as int) {
                1int
            } else {
                0int
            });
        }
        buffer[2 * i] = s.left;
        buffer[2 * i + 1] = s.right;
        i += 1;
    }
    (Continuation::Continue, count)
}

} // verus!
