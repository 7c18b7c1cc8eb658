//! The trigger pool: concurrently-sounding one-shot voices, each a shared
//! reference to a cue-sample buffer and its own playback cursor. A voice is
//! created when a subdivision boundary is crossed and removed when its
//! cursor reaches the end of its buffer.

use vstd::prelude::*;
use vstd::pervasive::VecAdditionalExecFns;
use std::sync::Arc;
use crate::constants::AMP_CAP;
use crate::loop_buffer::samples_bounded;

verus! {

/// One active voice: a shared, read-only sample buffer and a cursor.
pub struct SoundingSample {
    pub sample: Arc<Vec<i64>>,
    pub pos: usize,
}

/// The mathematical content of a voice.
#[verifier::ext_equal]
pub struct VoiceView {
    pub data: Seq<i64>,
    pub pos: int,
}

impl View for SoundingSample {
    type V = VoiceView;

    open spec fn view(&self) -> VoiceView {
        VoiceView { data: self.sample@, pos: self.pos as int }
    }
}

/// A voice still has samples left to play.
pub open spec fn voice_alive(v: VoiceView) -> bool {
    v.pos < v.data.len()
}

/// The cursor never passes one past the end, and the samples stay inside
/// the converter headroom.
pub open spec fn voice_wf(v: VoiceView) -> bool {
    &&& 0 <= v.pos <= v.data.len()
    &&& samples_bounded(v.data, AMP_CAP)
}

/// The voice one sample later.
pub open spec fn advance_voice(v: VoiceView) -> VoiceView {
    VoiceView { data: v.data, pos: v.pos + 1 }
}

/// What a voice contributes to the current sample: its cursor cell while
/// alive, silence once exhausted.
pub open spec fn voice_out(v: VoiceView) -> int {
    if voice_alive(v) {
        v.data[v.pos] as int
    } else {
        0
    }
}

/// The whole pool as mathematical voices.
pub open spec fn pool_view(voices: Seq<SoundingSample>) -> Seq<VoiceView> {
    voices.map_values(|s: SoundingSample| s@)
}

pub open spec fn pool_wf(pool: Seq<VoiceView>) -> bool {
    forall|i: int| 0 <= i < pool.len() ==> voice_wf(#[trigger] pool[i])
}

/// One render sample of the pool: every live voice advances, every
/// exhausted voice is removed, order otherwise kept.
pub open spec fn pool_step(pool: Seq<VoiceView>) -> Seq<VoiceView>
    decreases pool.len(),
{
    if pool.len() == 0 {
        Seq::empty()
    } else {
        let rest = pool_step(pool.drop_first());
        if voice_alive(pool[0]) {
            seq![advance_voice(pool[0])] + rest
        } else {
            rest
        }
    }
}

/// The summed contribution of every live voice to the current sample.
pub open spec fn pool_mix(pool: Seq<VoiceView>) -> int
    decreases pool.len(),
{
    if pool.len() == 0 {
        0
    } else {
        voice_out(pool[0]) + pool_mix(pool.drop_first())
    }
}

impl SoundingSample {
    /// A fresh voice over a shared sample buffer, cursor at the start.
    pub fn start(sample: &Arc<Vec<i64>>) -> (v: SoundingSample)
        ensures
            v@ == (VoiceView { data: sample@, pos: 0int }),
    {
        SoundingSample { sample: sample.clone(), pos: 0 }
    }

    /// Whether the voice still has samples left.
    pub fn is_alive(&self) -> (b: bool)
        ensures
            b == voice_alive(self@),
    {
        self.pos < self.sample.len()
    }

    /// The sample under the cursor.
    pub fn current(&self) -> (s: i64)
        requires
            voice_alive(self@),
        ensures
            s == self@.data[self@.pos],
    {
        self.sample[self.pos]
    }

    /// The same voice one sample later.
    pub fn advanced(&self) -> (v: SoundingSample)
        requires
            voice_alive(self@),
        ensures
            v@ == advance_voice(self@),
    {
        let n = self.sample.len();
        SoundingSample { sample: self.sample.clone(), pos: self.pos + 1 }
    }
}

/// Runs one render sample over the pool: mixes every live voice (when the
/// drum flag is on), advances its cursor, and removes exhausted voices.
/// Deletion iterates from the end backward so no voice is skipped or
/// processed twice.
pub fn pool_pass(voices: &mut Vec<SoundingSample>, drum_on: bool) -> (mix: i128)
    requires
        pool_wf(pool_view(old(voices)@)),
    ensures
        pool_view(final(voices)@) == pool_step(pool_view(old(voices)@)),
        mix == if drum_on {
            pool_mix(pool_view(old(voices)@))
        } else {
            0
        },
        pool_wf(pool_view(final(voices)@)),
        -(old(voices)@.len() * AMP_CAP) <= mix <= old(voices)@.len() * AMP_CAP,
{
    let ghost orig = pool_view(voices@);
    let mut mix: i128 = 0;
    let mut j: usize = voices.len();
    proof {
        assert(orig.len() == voices@.len());
        assert(orig.take(j as int) =~= orig);
        assert(orig.skip(j as int) =~= Seq::<VoiceView>::empty());
        assert(pool_view(voices@) =~= orig.take(j as int) + pool_step(orig.skip(j as int)));
    }
    while j > 0
        invariant
            j <= orig.len(),
            orig.len() <= usize::MAX,
            pool_wf(orig),
            pool_view(voices@) =~= orig.take(j as int) + pool_step(orig.skip(j as int)),
            voices@.len() >= j,
            forall|i: int| 0 <= i < j ==> #[trigger] voices@[i]@ == orig[i],
            mix == if drum_on {
                pool_mix(orig.skip(j as int))
            } else {
                0
            },
            -((orig.len() - j) * AMP_CAP) <= mix <= (orig.len() - j) * AMP_CAP,
        decreases j,
    {
        j -= 1;
        let ghost before = voices@;
        let ghost sj = orig.skip(j as int);
        proof {
            assert(sj.len() > 0);
            assert(sj[0] == orig[j as int]);
            assert(sj.drop_first() =~= orig.skip(j + 1));
            assert(voices@[j as int]@ == orig[j as int]);
            assert(voice_wf(orig[j as int]));
            assert(pool_mix(sj) == voice_out(sj[0]) + pool_mix(sj.drop_first()));
            if voice_alive(orig[j as int]) {
                assert(pool_step(sj) == seq![advance_voice(sj[0])] + pool_step(
                sj.drop_first()));
            } else {
                assert(pool_step(sj) == pool_step(sj.drop_first()));
            }
        }
        if voices[j].is_alive() {
            if drum_on {
                let s = voices[j].current();
                proof {
                    assert(-AMP_CAP <= s <= AMP_CAP);
                    assert(mix + s <= (orig.len() - j) * AMP_CAP);
                    assert(-((orig.len() - j) * AMP_CAP) <= mix + s);
                }
                mix = mix + s as i128;
            }
            let stepped = voices[j].advanced();
            voices.set(j, stepped);
            proof {
                assert(voices@ == before.update(j as int, stepped));
                lemma_pool_frame_update(before, orig, j as int, stepped);
            }
        } else {
            voices.remove(j);
            proof {
                assert(voices@ == before.remove(j as int));
                lemma_pool_frame_remove(before, orig, j as int);
            }
        }
    }
    proof {
        assert(orig.take(0) + pool_step(orig.skip(0)) =~= pool_step(orig));
        assert(orig.skip(0) =~= orig);
        lemma_pool_step_wf(orig);
    }
    mix
}

/// Advancing the live voice at `j` of a partly processed pool extends the
/// processed region one voice leftward.
proof fn lemma_pool_frame_update(
    before: Seq<SoundingSample>,
    orig: Seq<VoiceView>,
    j: int,
    stepped: SoundingSample,
)
    requires
        0 <= j < orig.len(),
        before.len() >= j + 1,
        pool_view(before) == orig.take(j + 1) + pool_step(orig.skip(j + 1)),
        forall|i: int| 0 <= i < j + 1 ==> #[trigger] before[i]@ == orig[i],
        voice_alive(orig[j]),
        stepped@ == advance_voice(orig[j]),
    ensures
        pool_view(before.update(j, stepped)) == orig.take(j) + pool_step(orig.skip(j)),
{
    let after = before.update(j, stepped);
    let lhs = pool_view(after);
    let rhs = orig.take(j) + pool_step(orig.skip(j));
    assert(orig.skip(j)[0] == orig[j]);
    assert(orig.skip(j).drop_first() =~= orig.skip(j + 1));
    assert(pool_step(orig.skip(j)) == seq![advance_voice(orig[j])] + pool_step(orig.skip(j + 1)));
    assert(before.len() == pool_view(before).len());
    assert(before.len() == j + 1 + pool_step(orig.skip(j + 1)).len());
    assert(lhs.len() == rhs.len());
    assert forall|i: int| 0 <= i < lhs.len() implies lhs[i] == rhs[i] by {
        assert(lhs[i] == after[i]@);
        if i < j {
            assert(after[i] == before[i]);
            assert(rhs[i] == orig.take(j)[i]);
        } else if i == j {
            assert(after[i] == stepped);
            assert(rhs[i] == pool_step(orig.skip(j))[0]);
        } else {
            assert(after[i] == before[i]);
            assert(before[i]@ == pool_view(before)[i]);
            assert(pool_view(before)[i] == pool_step(orig.skip(j + 1))[i - j - 1]);
            assert(rhs[i] == pool_step(orig.skip(j))[i - j]);
        }
    }
    assert(lhs =~= rhs);
}

/// Dropping the exhausted voice at `j` of a partly processed pool extends
/// the processed region one voice leftward.
proof fn lemma_pool_frame_remove(before: Seq<SoundingSample>, orig: Seq<VoiceView>, j: int)
    requires
        0 <= j < orig.len(),
        before.len() >= j + 1,
        pool_view(before) == orig.take(j + 1) + pool_step(orig.skip(j + 1)),
        forall|i: int| 0 <= i < j + 1 ==> #[trigger] before[i]@ == orig[i],
        !voice_alive(orig[j]),
    ensures
        pool_view(before.remove(j)) == orig.take(j) + pool_step(orig.skip(j)),
{
    let after = before.remove(j);
    let lhs = pool_view(after);
    let rhs = orig.take(j) + pool_step(orig.skip(j));
    assert(orig.skip(j)[0] == orig[j]);
    assert(orig.skip(j).drop_first() =~= orig.skip(j + 1));
    assert(pool_step(orig.skip(j)) == pool_step(orig.skip(j + 1)));
    assert(before.len() == pool_view(before).len());
    assert(before.len() == j + 1 + pool_step(orig.skip(j + 1)).len());
    assert(lhs.len() == rhs.len());
    assert forall|i: int| 0 <= i < lhs.len() implies lhs[i] == rhs[i] by {
        assert(lhs[i] == after[i]@);
        if i < j {
            assert(after[i] == before[i]);
            assert(rhs[i] == orig.take(j)[i]);
        } else {
            assert(after[i] == before[i + 1]);
            assert(before[i + 1]@ == pool_view(before)[i + 1]);
            assert(pool_view(before)[i + 1] == pool_step(orig.skip(j + 1))[i - j]);
            assert(rhs[i] == pool_step(orig.skip(j))[i - j]);
        }
    }
    assert(lhs =~= rhs);
}

/// The pool after `k` render samples.
pub open spec fn pool_after(pool: Seq<VoiceView>, k: nat) -> Seq<VoiceView>
    decreases k,
{
    if k == 0 {
        pool
    } else {
        pool_step(pool_after(pool, (k - 1) as nat))
    }
}

/// How many voices of `s` are still alive.
pub open spec fn live_count(s: Seq<VoiceView>) -> int
    decreases s.len(),
{
    if s.len() == 0 {
        0
    } else {
        (if voice_alive(s[0]) {
            1int
        } else {
            0int
        }) + live_count(s.drop_first())
    }
}

/// Where the voice that started at index `i` sits after `k` render
/// samples: each step keeps the live voices in order, so the new index is
/// the number of live voices before it.
pub open spec fn tracked_index(pool: Seq<VoiceView>, i: int, k: nat) -> int
    decreases k,
{
    if k == 0 {
        i
    } else {
        live_count(
            pool_after(pool, (k - 1) as nat).take(tracked_index(pool, i, (k - 1) as nat)),
        )
    }
}

/// One step moves a live voice at `i` to index `live_count(take(i))`,
/// advanced by one sample.
proof fn lemma_pool_step_tracks(pool: Seq<VoiceView>, i: int)
    requires
        0 <= i < pool.len(),
        voice_alive(pool[i]),
    ensures
        0 <= live_count(pool.take(i)) < pool_step(pool).len(),
        pool_step(pool)[live_count(pool.take(i))] == advance_voice(pool[i]),
    decreases pool.len(),
{
    if i == 0 {
        assert(pool.take(0) =~= Seq::<VoiceView>::empty());
    } else {
        let rest = pool.drop_first();
        lemma_pool_step_tracks(rest, i - 1);
        assert(pool.take(i).drop_first() =~= rest.take(i - 1));
        assert(pool.take(i)[0] == pool[0]);
        assert(live_count(pool.take(i)) == (if voice_alive(pool[0]) {
            1int
        } else {
            0int
        }) + live_count(rest.take(i - 1)));
        assert(rest[i - 1] == pool[i]);
    }
}

/// A voice that starts with its cursor at 0 in a pool of any other voices
/// is still in the pool after `k` render samples, for every `k` up to its
/// buffer length, with its cursor at exactly `k`.
pub proof fn lemma_voice_lifecycle(pool: Seq<VoiceView>, i: int, k: nat)
    requires
        0 <= i < pool.len(),
        pool[i].pos == 0,
        k <= pool[i].data.len(),
    ensures
        0 <= tracked_index(pool, i, k) < pool_after(pool, k).len(),
        pool_after(pool, k)[tracked_index(pool, i, k)] == (VoiceView {
            data: pool[i].data,
            pos: k as int,
        }),
    decreases k,
{
    if k > 0 {
        lemma_voice_lifecycle(pool, i, (k - 1) as nat);
        let p = pool_after(pool, (k - 1) as nat);
        let t = tracked_index(pool, i, (k - 1) as nat);
        lemma_pool_step_tracks(p, t);
    }
}

/// Removing an exhausted voice does not change what a step produces: the
/// step itself drops it.
pub proof fn lemma_pool_step_drops_dead(pool: Seq<VoiceView>, i: int)
    requires
        0 <= i < pool.len(),
        !voice_alive(pool[i]),
    ensures
        pool_step(pool) == pool_step(pool.remove(i)),
    decreases pool.len(),
{
    if i == 0 {
        assert(pool.remove(0) =~= pool.drop_first());
    } else {
        let rest = pool.drop_first();
        lemma_pool_step_drops_dead(rest, i - 1);
        assert(pool.remove(i).drop_first() =~= rest.remove(i - 1));
        assert(pool.remove(i)[0] == pool[0]);
        assert(rest[i - 1] == pool[i]);
        assert(pool.remove(i).len() == pool.len() - 1);
    }
}

/// The whole lifecycle: a voice pushed with a buffer of length `L` is
/// present for exactly `L` render samples — after `L` steps its cursor
/// sits at `L` and it is exhausted — and the following step proceeds
/// exactly as if it had been removed, however many other voices are
/// active.
pub proof fn lemma_voice_lifecycle_ends(pool: Seq<VoiceView>, i: int)
    requires
        0 <= i < pool.len(),
        pool[i].pos == 0,
    ensures
        ({
            let l = pool[i].data.len();
            let t = tracked_index(pool, i, l);
            &&& 0 <= t < pool_after(pool, l).len()
            &&& pool_after(pool, l)[t] == (VoiceView { data: pool[i].data, pos: l as int })
            &&& !voice_alive(pool_after(pool, l)[t])
            &&& pool_after(pool, (l + 1) as nat) == pool_step(pool_after(pool, l).remove(t))
        }),
{
    let l = pool[i].data.len();
    let t = tracked_index(pool, i, l);
    lemma_voice_lifecycle(pool, i, l);
    lemma_pool_step_drops_dead(pool_after(pool, l), t);
    assert(pool_after(pool, (l + 1) as nat) == pool_step(pool_after(pool, l)));
}

/// Stepping a well-formed pool yields a well-formed pool.
pub proof fn lemma_pool_step_wf(pool: Seq<VoiceView>)
    requires
        pool_wf(pool),
    ensures
        pool_wf(pool_step(pool)),
    decreases pool.len(),
{
    if pool.len() > 0 {
        assert(forall|i: int| 0 <= i < pool.drop_first().len() ==> pool.drop_first()[i]
            == pool[i + 1]);
        lemma_pool_step_wf(pool.drop_first());
    }
}

} // verus!
