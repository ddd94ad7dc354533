//! Counting and searching in a sequence of flags.

use vstd::prelude::*;

verus! {

/// How many of the first `n` flags are set.
pub open spec fn count_before(flags: Seq<bool>, n: int) -> int
    decreases n,
{
    if n <= 0 || n > flags.len() {
        0
    } else if flags[n - 1] {
        count_before(flags, n - 1) + 1
    } else {
        count_before(flags, n - 1)
    }
}

/// How many flags are set.
pub open spec fn count_set(flags: Seq<bool>) -> int {
    count_before(flags, flags.len() as int)
}

/// The index of the first set flag at or after `start`, or the number of
/// flags when there is none.
pub open spec fn next_set(flags: Seq<bool>, start: int) -> int
    decreases flags.len() - start,
{
    if start < 0 || start >= flags.len() {
        flags.len() as int
    } else if flags[start] {
        start
    } else {
        next_set(flags, start + 1)
    }
}

/// The index of the last set flag before `end`, or `-1` when there is
/// none.
pub open spec fn prev_set(flags: Seq<bool>, end: int) -> int
    decreases end,
{
    if end <= 0 || end > flags.len() {
        -1
    } else if flags[end - 1] {
        end - 1
    } else {
        prev_set(flags, end - 1)
    }
}

/// The count grows with the prefix, by at most one per flag, and by
/// exactly the set flags.
pub proof fn lemma_count_monotonic(flags: Seq<bool>, a: int, b: int)
    requires
        0 <= a <= b <= flags.len(),
    ensures
        0 <= count_before(flags, a) <= count_before(flags, b) <= count_before(flags, a) + (b - a),
        count_before(flags, a) <= a,
        (forall|k: int| a <= k < b ==> !flags[k]) ==> count_before(flags, b) == count_before(
            flags,
            a,
        ),
    decreases b,
{
    lemma_count_bounds(flags, a);
    if a < b {
        lemma_count_monotonic(flags, a, b - 1);
    }
}

proof fn lemma_count_bounds(flags: Seq<bool>, n: int)
    requires
        0 <= n <= flags.len(),
    ensures
        0 <= count_before(flags, n) <= n,
    decreases n,
{
    if n > 0 {
        lemma_count_bounds(flags, n - 1);
    }
}

/// A set flag is counted: the count just behind it is one more than the
/// count before it.
pub proof fn lemma_count_set_flag(flags: Seq<bool>, i: int)
    requires
        0 <= i < flags.len(),
        flags[i],
    ensures
        count_before(flags, i) < count_set(flags),
        count_set(flags) > 0,
{
    lemma_count_monotonic(flags, i + 1, flags.len() as int);
    lemma_count_monotonic(flags, 0, i);
}

/// The count is zero exactly when no flag is set.
pub proof fn lemma_count_zero(flags: Seq<bool>)
    ensures
        count_set(flags) == 0 <==> (forall|k: int| 0 <= k < flags.len() ==> !flags[k]),
{
    lemma_count_monotonic(flags, 0, flags.len() as int);
    if !(forall|k: int| 0 <= k < flags.len() ==> !flags[k]) {
        let k = choose|k: int| 0 <= k < flags.len() && flags[k];
        lemma_count_set_flag(flags, k);
    }
}

/// `next_set` names a set flag with none between `start` and it; when it
/// is the number of flags, none is set from `start` on.
pub proof fn lemma_next_set(flags: Seq<bool>, start: int)
    requires
        0 <= start <= flags.len(),
    ensures
        start <= next_set(flags, start) <= flags.len(),
        next_set(flags, start) < flags.len() ==> flags[next_set(flags, start)],
        forall|k: int| start <= k < next_set(flags, start) ==> !flags[k],
    decreases flags.len() - start,
{
    if start < flags.len() && !flags[start] {
        lemma_next_set(flags, start + 1);
    }
}

/// `prev_set` names a set flag with none between it and `end`; when it is
/// `-1`, none is set before `end`.
pub proof fn lemma_prev_set(flags: Seq<bool>, end: int)
    requires
        0 <= end <= flags.len(),
    ensures
        -1 <= prev_set(flags, end) < end,
        prev_set(flags, end) >= 0 ==> flags[prev_set(flags, end)],
        forall|k: int| prev_set(flags, end) < k < end ==> !flags[k],
    decreases end,
{
    if end > 0 && !flags[end - 1] {
        lemma_prev_set(flags, end - 1);
    }
}

} // verus!
