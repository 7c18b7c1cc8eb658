//! The channel transport: one queue per stereo channel decoupling the
//! input-capture context from the render context, with the lossy underrun
//! fallback the render step relies on.

use vstd::prelude::*;
use std::collections::VecDeque;
use crate::constants::AMP_CAP;
use crate::loop_buffer::samples_bounded;

verus! {

/// The two capture queues feeding the render step.
pub struct Buffers {
    pub left: VecDeque<i64>,
    pub right: VecDeque<i64>,
}

impl Buffers {
    pub open spec fn wf(&self) -> bool {
        &&& samples_bounded(self.left@, AMP_CAP)
        &&& samples_bounded(self.right@, AMP_CAP)
    }
}

/// Two empty capture queues.
pub fn make_buffers() -> (b: Buffers)
    ensures
        b.wf(),
        b.left@.len() == 0,
        b.right@.len() == 0,
{
    Buffers { left: VecDeque::new(), right: VecDeque::new() }
}

/// Clamps a raw converter sample into the fixed-point headroom.
pub fn clamp_amp(s: i64) -> (r: i64)
    ensures
        r == clamp_amp_spec(s),
        -AMP_CAP <= r <= AMP_CAP,
{
    if s > AMP_CAP {
        AMP_CAP
    } else if s < -AMP_CAP {
        -AMP_CAP
    } else {
        s
    }
}

/// The clamp applied to every sample entering the engine.
pub open spec fn clamp_amp_spec(s: i64) -> i64 {
    if s > AMP_CAP {
        AMP_CAP
    } else if s < -AMP_CAP {
        (-AMP_CAP) as i64
    } else {
        s
    }
}

/// A whole sequence clamped into the converter headroom.
pub open spec fn clamp_amp_seq(s: Seq<i64>) -> Seq<i64> {
    s.map_values(|x: i64| clamp_amp_spec(x))
}

/// Clamps every sample of a decoded buffer into the converter headroom.
pub fn clamp_samples(v: Vec<i64>) -> (out: Vec<i64>)
    ensures
        out@ == clamp_amp_seq(v@),
        samples_bounded(out@, AMP_CAP),
{
    let mut out: Vec<i64> = Vec::new();
    let mut i: usize = 0;
    while i < v.len()
        invariant
            i <= v@.len(),
            out@ =~= clamp_amp_seq(v@.take(i as int)),
            samples_bounded(out@, AMP_CAP),
        decreases v.len() - i,
    {
        out.push(clamp_amp(v[i]));
        proof {
            assert(out@ =~= clamp_amp_seq(v@.take(i + 1)));
        }
        i += 1;
    }
    proof {
        assert(v@.take(v@.len() as int) =~= v@);
    }
    out
}

impl Buffers {
    /// Queues one captured sample for a channel (0 = left, 1 = right),
    /// clamped into the fixed-point headroom.
    pub fn push(&mut self, channel: usize, sample: i64)
        requires
            channel < 2,
        ensures
            channel == 0 ==> final(self).left@ == old(self).left@.push(clamp_amp_spec(sample))
                && final(self).right@ == old(self).right@,
            channel == 1 ==> final(self).right@ == old(self).right@.push(clamp_amp_spec(sample))
                && final(self).left@ == old(self).left@,
            old(self).wf() ==> final(self).wf(),
    {
        let s = clamp_amp(sample);
        if channel == 0 {
            self.left.push_back(s);
        } else {
            self.right.push_back(s);
        }
    }

    /// Takes one frame, one sample per channel. On underrun the left channel
    /// substitutes silence and the right channel substitutes the left
    /// channel's value for this frame, preserving rough channel correlation;
    /// underrun is deliberate lossy degradation, never an error.
    pub fn pop_frame(&mut self) -> (frame: (i64, i64))
        ensures
            frame.0 == frame_left_spec(old(self).left@),
            final(self).left@ == (if old(self).left@.len() > 0 {
                old(self).left@.drop_first()
            } else {
                old(self).left@
            }),
            frame.1 == (if old(self).right@.len() > 0 {
                old(self).right@[0]
            } else {
                frame_left_spec(old(self).left@)
            }),
            final(self).right@ == (if old(self).right@.len() > 0 {
                old(self).right@.drop_first()
            } else {
                old(self).right@
            }),
            old(self).wf() ==> final(self).wf(),
    {
        let fallback: i64 = if self.left.len() > 0 {
            self.left[0]
        } else {
            0
        };
        let l = self.left.pop_front().unwrap_or(fallback);
        let r = self.right.pop_front().unwrap_or(fallback);
        proof {
            if old(self).left@.len() > 0 {
                assert(old(self).left@.subrange(1, old(self).left@.len() as int) =~= old(
                self).left@.drop_first());
            }
            if old(self).right@.len() > 0 {
                assert(old(self).right@.subrange(1, old(self).right@.len() as int) =~= old(
                self).right@.drop_first());
            }
        }
        (l, r)
    }
}

/// What the left channel yields for a frame: the front of its queue, or
/// silence on underrun.
pub open spec fn frame_left_spec(left: Seq<i64>) -> i64 {
    if left.len() > 0 {
        left[0]
    } else {
        0
    }
}

} // verus!
