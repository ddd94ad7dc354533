//! Fuzzy matching: a filter matches a label when its characters occur in
//! the label in the same order, not necessarily side by side.
//!
//! The comparison ignores the case of the ASCII letters `A` to `Z`; every
//! other character has to occur exactly.

use vstd::prelude::*;

verus! {

/// The code point of `c`, with the ASCII upper-case letters mapped to their
/// lower-case counterparts.
pub open spec fn folded(c: char) -> int {
    let n = c as int;
    if 0x41 <= n <= 0x5A {
        n + 0x20
    } else {
        n
    }
}

/// Two characters are the same letter when they differ at most in ASCII
/// case.
pub open spec fn same_letter(a: char, b: char) -> bool {
    folded(a) == folded(b)
}

/// `positions` says where in `label` each character of `filter` is found:
/// one position per filter character, strictly increasing, each holding
/// the same letter.
pub open spec fn is_embedding(filter: Seq<char>, label: Seq<char>, positions: Seq<int>) -> bool {
    &&& positions.len() == filter.len()
    &&& forall|k: int| 0 <= k < positions.len() ==> 0 <= #[trigger] positions[k] < label.len()
    &&& forall|k: int, m: int| 0 <= k < m < positions.len() ==> positions[k] < positions[m]
    &&& forall|k: int|
        0 <= k < positions.len() ==> same_letter(filter[k], label[#[trigger] positions[k]])
}

/// The filter's characters appear in the label as a subsequence.
pub open spec fn fuzzy_matches(filter: Seq<char>, label: Seq<char>) -> bool {
    exists|positions: Seq<int>| is_embedding(filter, label, positions)
}

/// No way of finding the first `count` characters of `filter` in `label`
/// places the last of them before `limit`.
pub open spec fn none_ends_before(filter: Seq<char>, label: Seq<char>, count: int, limit: int) -> bool {
    forall|positions: Seq<int>| #[trigger]
        is_embedding(filter.take(count), label, positions) ==> positions[count - 1] >= limit
}

/// The positions of a vector of indices as mathematical integers.
pub open spec fn as_ints(v: Seq<usize>) -> Seq<int> {
    Seq::new(v.len(), |k: int| v[k] as int)
}

/// Decides whether two characters are the same letter.
pub fn chars_match(a: char, b: char) -> (same: bool)
    ensures
        same == same_letter(a, b),
{
    let x: u32 = a as u32;
    let y: u32 = b as u32;
    let fx: u32 = if 0x41 <= x && x <= 0x5A {
        x + 0x20
    } else {
        x
    };
    let fy: u32 = if 0x41 <= y && y <= 0x5A {
        y + 0x20
    } else {
        y
    };
    fx == fy
}

/// Every way of finding `filter` in `label` places each character at or
/// behind the position that `positions` gives it.
pub open spec fn is_leftmost(filter: Seq<char>, label: Seq<char>, positions: Seq<int>) -> bool {
    forall|other: Seq<int>, k: int|
        #![trigger is_embedding(filter, label, other), positions[k]]
        is_embedding(filter, label, other) && 0 <= k < positions.len() ==> positions[k]
            <= other[k]
}

proof fn lemma_prefix_embedding(filter: Seq<char>, label: Seq<char>, positions: Seq<int>, count: int)
    requires
        is_embedding(filter, label, positions),
        0 <= count <= filter.len(),
    ensures
        is_embedding(filter.take(count), label, positions.take(count)),
{
    let shorter = positions.take(count);
    assert forall|k: int| 0 <= k < shorter.len() implies 0 <= #[trigger] shorter[k]
        < label.len() by {
        assert(shorter[k] == positions[k]);
    }
    assert forall|k: int| 0 <= k < shorter.len() implies same_letter(
        filter.take(count)[k],
        label[#[trigger] shorter[k]],
    ) by {
        assert(shorter[k] == positions[k]);
    }
}

proof fn lemma_advance_on_match(filter: Seq<char>, label: Seq<char>, i: int, j: int)
    requires
        0 <= i,
        i + 1 < filter.len(),
        none_ends_before(filter, label, i + 1, j),
    ensures
        none_ends_before(filter, label, i + 2, j + 1),
{
    assert forall|positions: Seq<int>| #[trigger]
        is_embedding(filter.take(i + 2), label, positions) implies positions[i + 1] >= j + 1 by {
        lemma_prefix_embedding(filter.take(i + 2), label, positions, i + 1);
        assert(filter.take(i + 2).take(i + 1) =~= filter.take(i + 1));
        let shorter = positions.take(i + 1);
        assert(is_embedding(filter.take(i + 1), label, shorter));
        assert(shorter[i] == positions[i]);
    }
}

proof fn lemma_advance_on_mismatch(filter: Seq<char>, label: Seq<char>, i: int, j: int)
    requires
        0 <= i < filter.len(),
        0 <= j < label.len(),
        none_ends_before(filter, label, i + 1, j),
        !same_letter(filter[i], label[j]),
    ensures
        none_ends_before(filter, label, i + 1, j + 1),
{
    assert forall|positions: Seq<int>| #[trigger]
        is_embedding(filter.take(i + 1), label, positions) implies positions[i] >= j + 1 by {
        assert(same_letter(filter.take(i + 1)[i], label[positions[i]]));
    }
}

proof fn lemma_exhausted(filter: Seq<char>, label: Seq<char>, i: int)
    requires
        0 <= i < filter.len(),
        none_ends_before(filter, label, i + 1, label.len() as int),
    ensures
        !fuzzy_matches(filter, label),
{
    assert forall|positions: Seq<int>| !is_embedding(filter, label, positions) by {
        if is_embedding(filter, label, positions) {
            lemma_prefix_embedding(filter, label, positions, i + 1);
            let shorter = positions.take(i + 1);
            assert(is_embedding(filter.take(i + 1), label, shorter));
            assert(shorter[i] == positions[i]);
        }
    }
}

/// Looks for `filter` in `label`, taking for each character the first
/// position that can hold it.
///
/// `Some` exactly when the filter matches; the positions then say where
/// each filter character was found, and no other way of matching places
/// any character further left.
pub fn fuzzy_positions(filter: &Vec<char>, label: &Vec<char>) -> (found: Option<Vec<usize>>)
    ensures
        found is Some <==> fuzzy_matches(filter@, label@),
        found matches Some(positions) ==> {
            &&& is_embedding(filter@, label@, as_ints(positions@))
            &&& is_leftmost(filter@, label@, as_ints(positions@))
        },
{
    let mut positions: Vec<usize> = Vec::new();
    let mut i: usize = 0;
    let mut j: usize = 0;
    while i < filter.len() && j < label.len()
        invariant
            i <= filter@.len(),
            j <= label@.len(),
            positions@.len() == i,
            forall|k: int| 0 <= k < i ==> positions@[k] < j,
            forall|k: int, m: int| 0 <= k < m < i ==> positions@[k] < positions@[m],
            forall|k: int| 0 <= k < i ==> same_letter(filter@[k], label@[positions@[k] as int]),
            forall|k: int|
                0 <= k < i ==> none_ends_before(filter@, label@, k + 1, #[trigger] positions@[k] as int),
            i < filter@.len() ==> none_ends_before(filter@, label@, i + 1, j as int),
        decreases label@.len() - j,
    {
        if chars_match(filter[i], label[j]) {
            proof {
                if i + 1 < filter@.len() {
                    lemma_advance_on_match(filter@, label@, i as int, j as int);
                }
            }
            positions.push(j);
            i += 1;
        } else {
            proof {
                lemma_advance_on_mismatch(filter@, label@, i as int, j as int);
            }
        }
        j += 1;
    }
    if i == filter.len() {
        proof {
            let ints = as_ints(positions@);
            assert(is_embedding(filter@, label@, ints));
            assert forall|other: Seq<int>, k: int|
                #![trigger is_embedding(filter@, label@, other), ints[k]]
                is_embedding(filter@, label@, other) && 0 <= k < ints.len() implies ints[k]
                    <= other[k] by {
                lemma_prefix_embedding(filter@, label@, other, k + 1);
                assert(none_ends_before(filter@, label@, k + 1, positions@[k] as int));
                assert(other.take(k + 1)[k] == other[k]);
            }
        }
        Some(positions)
    } else {
        proof {
            lemma_exhausted(filter@, label@, i as int);
        }
        None
    }
}

/// An empty filter matches every label.
pub proof fn law_empty_filter_matches(label: Seq<char>)
    ensures
        fuzzy_matches(Seq::<char>::empty(), label),
{
    assert(is_embedding(Seq::<char>::empty(), label, Seq::<int>::empty()));
}

/// A label matches itself, and so does the same label in another ASCII
/// case.
pub proof fn law_label_matches_itself(label: Seq<char>)
    ensures
        fuzzy_matches(label, label),
{
    assert(is_embedding(label, label, Seq::new(label.len(), |k: int| k)));
}

/// A filter that is longer than the label cannot match it.
pub proof fn law_longer_filter_never_matches(filter: Seq<char>, label: Seq<char>)
    requires
        filter.len() > label.len(),
    ensures
        !fuzzy_matches(filter, label),
{
    assert forall|positions: Seq<int>| !is_embedding(filter, label, positions) by {
        if is_embedding(filter, label, positions) {
            lemma_increasing_bound(positions, positions.len() - 1);
        }
    }
}

proof fn lemma_increasing_bound(positions: Seq<int>, k: int)
    requires
        0 <= k < positions.len(),
        forall|a: int| 0 <= a < positions.len() ==> 0 <= #[trigger] positions[a],
        forall|a: int, b: int| 0 <= a < b < positions.len() ==> positions[a] < positions[b],
    ensures
        positions[k] >= k,
    decreases k,
{
    if k > 0 {
        lemma_increasing_bound(positions, k - 1);
    }
}

} // verus!
