//! The stereo noise engine: two independent filter instances (left/right)
//! sharing one read-only coefficient profile; each frame it advances both
//! channels on two independently drawn driving samples and clamps each
//! output into the amplitude range `[-SCALE, SCALE]`.

use vstd::prelude::*;

use crate::arith::{clip, clip_spec, SCALE};
use crate::filter::{shifted, next_out, FilterCoefficients, IIR};

verus! {

/// One frame of output: a clamped (left, right) amplitude pair.
#[derive(Clone, Copy, PartialEq, Eq, Structural, Debug)]
pub struct StereoSample {
    pub left: i64,
    pub right: i64,
}

/// Two independent filter states (left/right channels) sharing one
/// immutable coefficient profile.
pub struct StereoEngine {
    pub coeff: FilterCoefficients,
    pub left: IIR,
    pub right: IIR,
}

impl StereoEngine {
    /// The profile is valid and both channel states fit it.
    pub open spec fn wf(self) -> bool {
        &&& self.coeff.wf()
        &&& self.left.wf(self.coeff)
        &&& self.right.wf(self.coeff)
    }

    /// An engine over the given profile, both channels starting from
    /// silence (all-zero history).
    pub fn new(coeff: FilterCoefficients) -> (r: StereoEngine)
        requires
            coeff.wf(),
        ensures
            r.wf(),
            r.coeff == coeff,
            r.left.is_zero(),
            r.right.is_zero(),
    {
        let left = IIR::new(&coeff);
        let right = IIR::new(&coeff);
        StereoEngine { coeff, left, right }
    }

    /// Produce one frame: advance each channel's filter on its own driving
    /// sample (`xl` left, `xr` right) and clamp each output into
    /// `[-SCALE, SCALE]`. The histories keep the unclamped outputs.
    pub fn produce_frame(&mut self, xl: i64, xr: i64) -> (s: StereoSample)
        requires
            old(self).wf(),
        ensures
            final(self).wf(),
            final(self).coeff == old(self).coeff,
            final(self).left.x_buf@ == shifted(old(self).left.x_buf@, xl),
            final(self).right.x_buf@ == shifted(old(self).right.x_buf@, xr),
            final(self).left.y_buf@ == shifted(
                old(self).left.y_buf@,
                final(self).left.y_buf@[0],
            ),
            final(self).right.y_buf@ == shifted(
                old(self).right.y_buf@,
                final(self).right.y_buf@[0],
            ),
            final(self).left.y_buf@[0] as int == next_out(
                old(self).coeff,
                old(self).left.y_buf@,
                shifted(old(self).left.x_buf@, xl),
            ),
            final(self).right.y_buf@[0] as int == next_out(
                old(self).coeff,
                old(self).right.y_buf@,
                shifted(old(self).right.x_buf@, xr),
            ),
            s.left as int == clip_spec(final(self).left.y_buf@[0] as int),
            s.right as int == clip_spec(final(self).right.y_buf@[0] as int),
            -SCALE <= s.left <= SCALE,
            -SCALE <= s.right <= SCALE,
    {
        let yl = self.left.update(&self.coeff, xl);
        let yr = self.right.update(&self.coeff, xr);
        StereoSample { left: clip(yl), right: clip(yr) }
    }

    /// The previous frame's clamped outputs, without advancing: a
    /// pre-advance peek, used to test whether the last frame hit the clamp
    /// boundary before producing the next one.
    pub fn last_outputs(&self) -> (s: StereoSample)
        requires
            self.wf(),
        ensures
            s.left as int == clip_spec(self.left.y_buf@[0] as int),
            s.right as int == clip_spec(self.right.y_buf@[0] as int),
            -SCALE <= s.left <= SCALE,
            -SCALE <= s.right <= SCALE,
    {
        StereoSample { left: clip(self.left.current()), right: clip(self.right.current()) }
    }
}

} // verus!
