//! Nearest-value search over a sorted luminance sequence.

use vstd::prelude::*;

verus! {

/// The absolute difference between a value and a target.
pub open spec fn spec_dist(v: u64, target: u64) -> int {
    if v >= target {
        v - target
    } else {
        target - v
    }
}

/// Index `r` points at the entry of `l` closest to `target`, and at
/// the first such entry when several are equally close.
pub open spec fn is_nearest_first(l: Seq<u64>, target: u64, r: int) -> bool {
    &&& 0 <= r < l.len()
    &&& forall|i: int| 0 <= i < l.len() ==> spec_dist(l[r], target) <= spec_dist(#[trigger] l[i], target)
    &&& forall|i: int| 0 <= i < r ==> spec_dist(l[r], target) < spec_dist(#[trigger] l[i], target)
}

/// Returns the index of the entry closest to `target`. When two entries
/// are equally close — in particular when the target sits exactly
/// between two neighbors of an ascending sequence — the earlier (lower)
/// index wins. An empty sequence yields the documented fallback index
/// 0, which is not a valid position; callers are expected to query
/// non-empty ramps.
pub fn find_nearest_index(luminances: &[u64], target: u64) -> (r: usize)
    ensures
        luminances@.len() == 0 ==> r == 0,
        luminances@.len() > 0 ==> is_nearest_first(luminances@, target, r as int),
{
    let len = luminances.len();
    if len == 0 {
        return 0;
    }
    let mut best_idx: usize = 0;
    let mut best_diff: u64 = abs_diff(luminances[0], target);
    let mut i: usize = 1;
    while i < len
        invariant
            len == luminances@.len(),
            0 < len,
            1 <= i <= len,
            best_idx < i,
            best_diff == spec_dist(luminances@[best_idx as int], target),
            forall|j: int|
                0 <= j < i ==> best_diff <= spec_dist(#[trigger] luminances@[j], target),
            forall|j: int|
                0 <= j < best_idx ==> best_diff < spec_dist(#[trigger] luminances@[j], target),
        decreases len - i,
    {
        let diff = abs_diff(luminances[i], target);
        if diff < best_diff {
            best_diff = diff;
            best_idx = i;
        }
        i = i + 1;
    }
    best_idx
}

/// The absolute difference of two machine integers.
fn abs_diff(a: u64, b: u64) -> (r: u64)
    ensures
        r == spec_dist(a, b),
{
    if a >= b {
        a - b
    } else {
        b - a
    }
}

/// Querying with the exact value of entry `k` returns `k`, provided no
/// other entry holds the same value: the nearest-index search is
/// idempotent on ramp entries. `r` stands for what the search returns,
/// as its contract describes it.
pub proof fn lemma_nearest_exact(l: Seq<u64>, k: int, r: int)
    requires
        0 <= k < l.len(),
        is_nearest_first(l, l[k], r),
        forall|i: int| 0 <= i < l.len() && i != k ==> #[trigger] l[i] != l[k],
    ensures
        r == k,
{
    assert(spec_dist(l[r], l[k]) <= spec_dist(l[k], l[k]));
}

} // verus!
