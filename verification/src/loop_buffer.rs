//! The overdub loop: a fixed-length circular delay line with one write
//! cursor, supporting simultaneous write of the current input and a
//! latency-compensated read for the audible mix.

use vstd::prelude::*;
use vstd::pervasive::VecAdditionalExecFns;
use crate::constants::LOOP_CAP;
use crate::util::mod_add;

verus! {

/// A vector of `n` zero samples.
pub fn zero_samples(n: usize) -> (v: Vec<i64>)
    ensures
        v@.len() == n,
        forall|i: int| 0 <= i < n ==> v@[i] == 0,
{
    let mut v: Vec<i64> = Vec::new();
    let mut k: usize = 0;
    while k < n
        invariant
            k <= n,
            v@.len() == k,
            forall|i: int| 0 <= i < k ==> v@[i] == 0,
        decreases n - k,
    {
        v.push(0);
        k += 1;
    }
    v
}

/// The circular loop buffer: `buffer.len()` samples and a write cursor that
/// advances modulo the length.
pub struct LoopBuffer {
    pub buffer: Vec<i64>,
    pub pos: usize,
}

/// All samples a loop cell can hold stay inside the fixed-point headroom.
pub open spec fn samples_bounded(s: Seq<i64>, cap: i64) -> bool {
    forall|i: int| 0 <= i < s.len() ==> -cap <= #[trigger] s[i] <= cap
}

impl LoopBuffer {
    /// The cursor sits inside the buffer (at 0 when the buffer is empty) and
    /// every cell is inside the loop headroom.
    pub open spec fn wf(&self) -> bool {
        &&& if self.buffer@.len() == 0 {
            self.pos == 0
        } else {
            self.pos < self.buffer@.len()
        }
        &&& samples_bounded(self.buffer@, LOOP_CAP)
    }

    /// A silent loop of `n` samples with the cursor at the start.
    pub fn new(n: usize) -> (lb: LoopBuffer)
        ensures
            lb.wf(),
            lb.buffer@.len() == n,
            forall|i: int| 0 <= i < n ==> lb.buffer@[i] == 0,
            lb.pos == 0,
    {
        LoopBuffer { buffer: zero_samples(n), pos: 0 }
    }

    /// The sample stored `i` cells into the loop.
    pub fn read(&self, i: usize) -> (s: i64)
        requires
            i < self.buffer@.len(),
        ensures
            s == self.buffer@[i as int],
    {
        self.buffer[i]
    }

    /// Stores `s` in cell `i`; the cursor does not move.
    pub fn write(&mut self, i: usize, s: i64)
        requires
            i < old(self).buffer@.len(),
            -LOOP_CAP <= s <= LOOP_CAP,
        ensures
            final(self).buffer@ == old(self).buffer@.update(i as int, s),
            final(self).pos == old(self).pos,
            old(self).wf() ==> final(self).wf(),
    {
        self.buffer.set(i, s);
    }

    /// Moves the cursor one cell forward, wrapping at the end of the loop.
    pub fn advance(&mut self)
        requires
            old(self).wf(),
            old(self).buffer@.len() > 0,
        ensures
            final(self).wf(),
            final(self).buffer@ == old(self).buffer@,
            final(self).pos == (old(self).pos + 1) % old(self).buffer@.len() as int,
    {
        self.pos = mod_add(self.pos, 1, self.buffer.len());
    }

    /// The cursor cell offset by `delta` with wrap-around: the compensated
    /// read position for the audible mix.
    pub fn offset_pos(&self, delta: usize) -> (p: usize)
        requires
            self.wf(),
            self.buffer@.len() > 0,
            self.pos + delta <= usize::MAX,
        ensures
            p == (self.pos + delta) % self.buffer@.len() as int,
            p < self.buffer@.len(),
    {
        mod_add(self.pos, delta, self.buffer.len())
    }

    /// Resizes the loop to `n` samples, keeping the leading samples that fit,
    /// zero-extending beyond them, and resetting the cursor to the start.
    pub fn resize_to(&mut self, n: usize)
        requires
            old(self).wf(),
        ensures
            final(self).wf(),
            final(self).buffer@.len() == n,
            final(self).pos == 0,
            forall|i: int| 0 <= i < n && i < old(self).buffer@.len() ==> final(self).buffer@[i]
                == old(self).buffer@[i],
            forall|i: int| old(self).buffer@.len() <= i < n ==> final(self).buffer@[i] == 0,
    {
        if n <= self.buffer.len() {
            self.buffer.truncate(n);
        } else {
            while self.buffer.len() < n
                invariant
                    old(self).wf(),
                    old(self).buffer@.len() <= self.buffer@.len() <= n,
                    forall|i: int| 0 <= i < old(self).buffer@.len() ==> self.buffer@[i] == old(
                    self).buffer@[i],
                    forall|i: int| old(self).buffer@.len() <= i < self.buffer@.len()
                        ==> self.buffer@[i] == 0,
                decreases n - self.buffer@.len(),
            {
                self.buffer.push(0);
            }
        }
        self.pos = 0;
    }
}

/// The cursor cell after `k` single-cell advances.
pub open spec fn cursor_after(pos: int, k: nat, len: int) -> int
    decreases k,
{
    if k == 0 {
        pos
    } else {
        (cursor_after(pos, (k - 1) as nat, len) + 1) % len
    }
}

/// Advancing `k` times lands on `(pos + k) mod len`.
pub proof fn lemma_cursor_after(pos: int, k: nat, len: int)
    requires
        0 <= pos < len,
    ensures
        cursor_after(pos, k, len) == (pos + k) % len,
    decreases k,
{
    if k == 0 {
        vstd::arithmetic::div_mod::lemma_small_mod(pos as nat, len as nat);
    } else {
        lemma_cursor_after(pos, (k - 1) as nat, len);
        vstd::arithmetic::div_mod::lemma_add_mod_noop(pos + (k - 1), 1, len);
        if len == 1 {
            vstd::arithmetic::div_mod::lemma_mod_bound(pos + k, 1);
            vstd::arithmetic::div_mod::lemma_mod_bound(pos + (k - 1), 1);
            vstd::arithmetic::div_mod::lemma_mod_bound((pos + (k - 1)) % len + 1, 1);
            vstd::arithmetic::div_mod::lemma_mod_bound(1, 1);
        } else {
            vstd::arithmetic::div_mod::lemma_small_mod(1, len as nat);
        }
    }
}

/// Round trip of the loop: a sample written at the cursor is read back at
/// the same cell after exactly one full cycle of advances, the loop content
/// otherwise untouched.
pub proof fn lemma_loop_round_trip(data: Seq<i64>, pos: int, s: i64)
    requires
        0 <= pos < data.len(),
    ensures
        data.update(pos, s)[pos] == s,
        cursor_after(pos, data.len() as nat, data.len() as int) == pos,
{
    lemma_cursor_after(pos, data.len() as nat, data.len() as int);
    vstd::arithmetic::div_mod::lemma_mod_add_multiples_vanish(pos, data.len() as int);
    vstd::arithmetic::div_mod::lemma_small_mod(pos as nat, data.len() as nat);
}

} // verus!
