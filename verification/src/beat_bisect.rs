//! Maps a continuous beat position to a discrete subdivision index.
//!
//! A subdivision cycle is given as a sorted list of boundary ticks
//! `[o_0, o_1, ..., o_k]` whose last entry is the cycle length. A beat
//! position is split into a whole number of cycles and a phase inside the
//! cycle; a binary search finds the greatest boundary at or below the phase
//! (inclusive on the lower side, exclusive on the upper), and the cycle count
//! times the number of intervals plus that position gives one monotonically
//! increasing index over all cycles.

use vstd::prelude::*;
use crate::config::{valid_rhythm, ParserRhythm, RhythmView};
use crate::constants::{BEAT_TICKS_MAX, MAX_ONSETS, MIN_CYCLE_TICKS, TICKS_PER_BEAT};
use crate::util::sorted;

verus! {

/// The greatest index whose entry is at most `v`, or `-1` when every entry
/// exceeds `v`.
pub open spec fn bisect_idx(s: Seq<u64>, v: u64) -> int
    decreases s.len(),
{
    if s.len() == 0 {
        -1
    } else if s.last() <= v {
        s.len() - 1
    } else {
        bisect_idx(s.drop_last(), v)
    }
}

/// On a sorted sequence, an index below which everything is at most `v` and
/// beyond which everything exceeds `v` is the greatest index at or below `v`.
proof fn lemma_bisect_idx_char(s: Seq<u64>, v: u64, i: int)
    requires
        -1 <= i < s.len(),
        forall|j: int| 0 <= j <= i ==> s[j] <= v,
        forall|j: int| i < j < s.len() ==> s[j] > v,
    ensures
        bisect_idx(s, v) == i,
    decreases s.len(),
{
    if s.len() == 0 {
    } else if s.last() <= v {
        assert(i == s.len() - 1);
    } else {
        assert(i < s.len() - 1);
        lemma_bisect_idx_char(s.drop_last(), v, i);
    }
}

/// Binary search for the greatest index whose entry is at most `val`:
/// `-1` when even the first entry exceeds `val`.
pub fn bisect(arr: &Vec<u64>, val: u64) -> (r: i64)
    requires
        sorted(arr@),
        arr@.len() <= 0x1000_0000,
    ensures
        r == bisect_idx(arr@, val),
        -1 <= r < arr@.len(),
{
    let mut lo: usize = 0;
    let mut hi: usize = arr.len();
    while lo < hi
        invariant
            lo <= hi <= arr@.len() <= 0x1000_0000,
            sorted(arr@),
            forall|j: int| 0 <= j < lo ==> arr@[j] <= val,
            forall|j: int| hi <= j < arr@.len() ==> arr@[j] > val,
        decreases hi - lo,
    {
        let mid = (lo + hi) / 2;
        if arr[mid] > val {
            proof {
                assert(forall|j: int| mid <= j < arr@.len() ==> arr@[mid as int] <= arr@[j]);
            }
            hi = mid;
        } else {
            proof {
                assert(forall|j: int| 0 <= j <= mid ==> arr@[j] <= arr@[mid as int]);
            }
            lo = mid + 1;
        }
    }
    proof {
        lemma_bisect_idx_char(arr@, val, lo - 1);
    }
    lo as i64 - 1
}

/// The boundary list actually searched: fewer than two entries fall back to
/// the uniform one-beat cycle `[0, TICKS_PER_BEAT]`.
pub open spec fn effective_times(subs: Seq<u64>) -> Seq<u64> {
    if subs.len() < 2 {
        seq![0u64, TICKS_PER_BEAT]
    } else {
        subs
    }
}

/// The subdivision index of beat position `beat` against the boundary list
/// `subs`: whole cycles times the interval count, plus the interval the
/// phase falls in.
pub open spec fn spec_beat_index(subs: Seq<u64>, beat: u64) -> int {
    let ts = effective_times(subs);
    let end = ts.last() as int;
    let cycles = beat as int / end;
    let phase = beat as int % end;
    cycles * (ts.len() - 1) + bisect_idx(ts, phase as u64)
}

/// Beat positions within the bisector's integer range.
pub open spec fn beat_index_in_range(subs: Seq<u64>, beat: u64) -> bool {
    let ts = effective_times(subs);
    (beat as int / ts.last() as int) * (ts.len() - 1) + ts.len() <= i64::MAX
}

/// The subdivision index for `beat` against the sorted boundary list
/// `subdivisions`, whose last entry is the cycle length; lists of fewer than
/// two entries are replaced by the uniform one-beat cycle.
pub fn beat_bisect(subdivisions: &Vec<u64>, beat: u64) -> (r: i64)
    requires
        sorted(subdivisions@),
        subdivisions@.len() >= 2 ==> subdivisions@.last() > 0,
        subdivisions@.len() <= 0x1000_0000,
        beat_index_in_range(subdivisions@, beat),
    ensures
        r == spec_beat_index(subdivisions@, beat),
{
    let mut default_subdivisions: Vec<u64> = Vec::new();
    default_subdivisions.push(0);
    default_subdivisions.push(TICKS_PER_BEAT);
    proof {
        assert(default_subdivisions@ =~= seq![0u64, TICKS_PER_BEAT]);
    }
    let subs: &Vec<u64> = if subdivisions.len() < 2 {
        &default_subdivisions
    } else {
        subdivisions
    };
    proof {
        assert(subs@ == effective_times(subdivisions@));
    }
    let subdivision_len: u64 = subs[subs.len() - 1];
    let beats_per_loop: u64 = (subs.len() - 1) as u64;
    let loop_count: u64 = beat / subdivision_len;
    let sub_beat: u64 = beat % subdivision_len;
    proof {
        assert(loop_count == beat as int / subdivision_len as int);
        assert(loop_count * beats_per_loop == (beat as int / subdivision_len as int) * (
        subs@.len() - 1));
        assert(loop_count * beats_per_loop + subs@.len() <= i64::MAX);
    }
    let bisection: i64 = bisect(subs, sub_beat);
    (loop_count * beats_per_loop) as i64 + bisection
}

/// The boundary list of a subdivision pattern: its onsets with the cycle
/// length appended. A pattern with fewer than two onsets degenerates to the
/// uniform two-point pattern over its own cycle.
pub open spec fn pattern_times(r: RhythmView) -> Seq<u64> {
    if r.notes.len() < 2 {
        seq![0u64, r.end]
    } else {
        r.notes.push(r.end)
    }
}

/// The subdivision index of beat position `beat` under pattern `r`.
pub open spec fn spec_subdivision_index(r: RhythmView, beat: u64) -> int {
    spec_beat_index(pattern_times(r), beat)
}

/// A valid pattern's boundary list is sorted, at least two long, and ends
/// with the positive cycle length.
pub proof fn lemma_pattern_times_wf(r: RhythmView)
    requires
        valid_rhythm(r),
    ensures
        sorted(pattern_times(r)),
        2 <= pattern_times(r).len() <= MAX_ONSETS + 1,
        pattern_times(r).last() == r.end,
        pattern_times(r).last() >= MIN_CYCLE_TICKS,
{
    let ts = pattern_times(r);
    if r.notes.len() < 2 {
        assert(ts[0] == 0 && ts[1] == r.end);
    } else {
        assert(forall|i: int, j: int| 0 <= i <= j < ts.len() ==> ts[i] <= ts[j]) by {
            assert(forall|i: int| 0 <= i < r.notes.len() ==> ts[i] == r.notes[i]);
            assert(ts[ts.len() - 1] == r.end);
            assert(forall|i: int| 0 <= i < r.notes.len() ==> #[trigger] r.notes[i]
                <= r.notes[r.notes.len() - 1]);
        }
    }
}

/// The subdivision index of any valid pattern stays inside `i64`, for any
/// beat position the clock can reach.
pub proof fn lemma_pattern_index_in_range(r: RhythmView, beat: u64)
    requires
        valid_rhythm(r),
        beat <= BEAT_TICKS_MAX,
    ensures
        beat_index_in_range(pattern_times(r), beat),
        0x1000 >= pattern_times(r).len() - 1 >= 1,
{
    let ts = pattern_times(r);
    lemma_pattern_times_wf(r);
    let b = beat as int;
    let e = ts.last() as int;
    let q = b / e;
    let k = ts.len() - 1;
    vstd::arithmetic::div_mod::lemma_div_is_ordered(b, BEAT_TICKS_MAX as int, e);
    vstd::arithmetic::div_mod::lemma_div_is_ordered_by_denominator(
        BEAT_TICKS_MAX as int,
        MIN_CYCLE_TICKS as int,
        e,
    );
    vstd::arithmetic::div_mod::lemma_div_pos_is_pos(b, e);
    let qmax = BEAT_TICKS_MAX as int / MIN_CYCLE_TICKS as int;
    assert(q <= qmax);
    vstd::arithmetic::mul::lemma_mul_inequality(q, qmax, k);
    vstd::arithmetic::mul::lemma_mul_inequality(k, 4097int, qmax);
    assert(q * k <= qmax * 4097);
    assert(qmax * 4097 + 4098 <= i64::MAX);
}

/// The subdivision index of `beat` under the pattern `r`: builds the
/// boundary list (onsets plus cycle length, degenerating to the uniform
/// two-point pattern below two onsets) and bisects the phase against it.
pub fn subdivision_index(r: &ParserRhythm, beat: u64) -> (idx: i64)
    requires
        valid_rhythm(r@),
        beat <= BEAT_TICKS_MAX,
    ensures
        idx == spec_subdivision_index(r@, beat),
        -1 <= idx <= spec_index_max(),
{
    proof {
        lemma_pattern_times_wf(r@);
        lemma_pattern_index_in_range(r@, beat);
    }
    let mut audio_times: Vec<u64> = Vec::new();
    if r.notes.len() < 2 {
        audio_times.push(0);
        audio_times.push(r.end);
        proof {
            assert(audio_times@ =~= pattern_times(r@));
        }
    } else {
        let mut i: usize = 0;
        while i < r.notes.len()
            invariant
                i <= r.notes@.len(),
                audio_times@ =~= r@.notes.take(i as int),
            decreases r.notes.len() - i,
        {
            audio_times.push(r.notes[i].time);
            proof {
                assert(audio_times@ =~= r@.notes.take(i + 1));
            }
            i += 1;
        }
        audio_times.push(r.end);
        proof {
            assert(r@.notes.take(r.notes@.len() as int) =~= r@.notes);
            assert(audio_times@ =~= pattern_times(r@));
        }
    }
    let idx = beat_bisect(&audio_times, beat);
    proof {
        lemma_index_bounds(r@, beat);
    }
    idx
}

/// The largest subdivision index any valid pattern and reachable beat can
/// produce.
pub open spec fn spec_index_max() -> int {
    (BEAT_TICKS_MAX as int / MIN_CYCLE_TICKS as int) * 4097 + 4097
}

/// The subdivision index is at least `-1` and at most [`spec_index_max`].
pub proof fn lemma_index_bounds(r: RhythmView, beat: u64)
    requires
        valid_rhythm(r),
        beat <= BEAT_TICKS_MAX,
    ensures
        -1 <= spec_subdivision_index(r, beat) <= spec_index_max(),
{
    lemma_pattern_times_wf(r);
    lemma_pattern_index_in_range(r, beat);
    let ts = pattern_times(r);
    let e = ts.last() as int;
    let q = beat as int / e;
    let k = ts.len() - 1;
    let bi = bisect_idx(ts, (beat as int % e) as u64);
    lemma_bisect_idx_range(ts, (beat as int % e) as u64);
    vstd::arithmetic::div_mod::lemma_div_pos_is_pos(beat as int, e);
    vstd::arithmetic::mul::lemma_mul_nonnegative(q, k);
    let qmax = BEAT_TICKS_MAX as int / MIN_CYCLE_TICKS as int;
    vstd::arithmetic::div_mod::lemma_div_is_ordered(beat as int, BEAT_TICKS_MAX as int, e);
    vstd::arithmetic::div_mod::lemma_div_is_ordered_by_denominator(
        BEAT_TICKS_MAX as int,
        MIN_CYCLE_TICKS as int,
        e,
    );
    vstd::arithmetic::mul::lemma_mul_inequality(q, qmax, k);
    vstd::arithmetic::mul::lemma_mul_inequality(k, 4097int, qmax);
}

/// `bisect_idx` stays inside the sequence.
proof fn lemma_bisect_idx_range(s: Seq<u64>, v: u64)
    ensures
        -1 <= bisect_idx(s, v) < s.len(),
    decreases s.len(),
{
    if s.len() > 0 && s.last() > v {
        lemma_bisect_idx_range(s.drop_last(), v);
    }
}

/// The accent rule: the index starts a new pattern cycle, or the pattern is
/// too small to distinguish subdivisions.
pub open spec fn is_accent(r: RhythmView, idx: int) -> bool {
    r.notes.len() < 2 || idx % (r.notes.len() as int) == 0
}

/// Divisibility of a magnitude is unchanged by the sign.
proof fn lemma_rem_zero_neg(x: int, k: int)
    requires
        k > 0,
        x >= 0,
    ensures
        ((-x) % k == 0) <==> (x % k == 0),
{
    if x % k == 0 {
        vstd::arithmetic::div_mod::lemma_fundamental_div_mod(x, k);
        assert(-x == k * (-(x / k))) by {
            assert(x == k * (x / k));
            vstd::arithmetic::mul::lemma_mul_unary_negation(k, x / k);
        }
        vstd::arithmetic::div_mod::lemma_mod_multiples_basic(-(x / k), k);
    }
    if (-x) % k == 0 {
        vstd::arithmetic::div_mod::lemma_fundamental_div_mod(-x, k);
        assert(x == k * (-((-x) / k))) by {
            assert(-x == k * ((-x) / k));
            vstd::arithmetic::mul::lemma_mul_unary_negation(k, (-x) / k);
        }
        vstd::arithmetic::div_mod::lemma_mod_multiples_basic(-((-x) / k), k);
    }
}

/// Classifies a subdivision index as an accent (the start of a pattern
/// cycle) or a regular subdivision.
pub fn classify_accent(r: &ParserRhythm, idx: i64) -> (accent: bool)
    requires
        idx > i64::MIN,
        r@.notes.len() <= 0x1000_0000,
    ensures
        accent == is_accent(r@, idx as int),
{
    let k = r.notes.len();
    if k < 2 {
        return true;
    }
    let k64 = k as i64;
    if idx >= 0 {
        idx % k64 == 0
    } else {
        let m = (-idx) % k64;
        proof {
            lemma_rem_zero_neg(-(idx as int), k as int);
        }
        m == 0
    }
}

/// A pattern with fewer than two onsets behaves exactly as the degenerate
/// pattern with the single onset 0 over the same cycle: the index is the
/// whole number of elapsed cycles.
pub proof fn lemma_pattern_degeneracy(r: RhythmView, beat: u64)
    requires
        r.notes.len() < 2,
        r.end > 0,
    ensures
        spec_subdivision_index(r, beat) == beat as int / r.end as int,
        spec_subdivision_index(r, beat) == spec_subdivision_index(
            RhythmView { notes: seq![0u64], start: r.start, end: r.end },
            beat,
        ),
{
    let ts = pattern_times(r);
    assert(ts =~= seq![0u64, r.end]);
    let single = RhythmView { notes: seq![0u64], start: r.start, end: r.end };
    assert(pattern_times(single) =~= seq![0u64, r.end]);
    let phase = beat as int % r.end as int;
    vstd::arithmetic::div_mod::lemma_mod_bound(beat as int, r.end as int);
    assert(ts.last() == r.end);
    assert(bisect_idx(ts, phase as u64) == bisect_idx(ts.drop_last(), phase as u64));
    assert(ts.drop_last() =~= seq![0u64]);
    assert(seq![0u64].last() == 0);
    assert(bisect_idx(seq![0u64], phase as u64) == 0);
}

/// A boundary list with fewer than two entries behaves as the uniform
/// one-beat cycle: the index is the whole number of beats.
pub proof fn lemma_degenerate_uniform(subs: Seq<u64>, beat: u64)
    requires
        subs.len() < 2,
    ensures
        spec_beat_index(subs, beat) == beat as int / TICKS_PER_BEAT as int,
{
    let ts = effective_times(subs);
    let phase = beat as int % TICKS_PER_BEAT as int;
    vstd::arithmetic::div_mod::lemma_mod_bound(beat as int, TICKS_PER_BEAT as int);
    assert(0 <= phase < TICKS_PER_BEAT);
    assert(ts.last() == TICKS_PER_BEAT);
    assert(ts.last() > phase as u64);
    assert(bisect_idx(ts, phase as u64) == bisect_idx(ts.drop_last(), phase as u64));
    assert(ts.drop_last() =~= seq![0u64]);
    assert(seq![0u64].last() == 0);
    assert(bisect_idx(seq![0u64], phase as u64) == 0);
}

} // verus!
