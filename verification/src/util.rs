//! Small arithmetic helpers shared by the buffer and mixer code.

use vstd::prelude::*;

verus! {

/// A sequence of ticks in nondecreasing order.
pub open spec fn sorted(s: Seq<u64>) -> bool {
    forall|i: int, j: int| 0 <= i <= j < s.len() ==> s[i] <= s[j]
}

/// Adds `b` to `a` modulo `m`: the wrap-around step for circular buffer
/// cursors.
pub fn mod_add(a: usize, b: usize, m: usize) -> (r: usize)
    requires
        m > 0,
        a + b <= usize::MAX,
    ensures
        r == (a + b) % (m as int),
        r < m,
{
    (a + b) % m
}

} // verus!
