//! Word boundaries in a sequence of characters.
//!
//! A word is a maximal run of characters none of which is whitespace.

use crate::text::{char_is_whitespace, is_whitespace};
use vstd::prelude::*;

verus! {

/// The index of the last whitespace character of `s` before `end`, or `-1`
/// when there is none.
pub open spec fn last_whitespace_before(s: Seq<char>, end: int) -> int
    decreases end,
{
    if end <= 0 || end > s.len() {
        -1
    } else if is_whitespace(s[end - 1]) {
        end - 1
    } else {
        last_whitespace_before(s, end - 1)
    }
}

/// The index of the first whitespace character of `s` at or after `start`,
/// or the length of `s` when there is none.
pub open spec fn first_whitespace_from(s: Seq<char>, start: int) -> int
    decreases s.len() - start,
{
    if start < 0 || start >= s.len() {
        s.len() as int
    } else if is_whitespace(s[start]) {
        start
    } else {
        first_whitespace_from(s, start + 1)
    }
}

/// `last_whitespace_before` names a whitespace character with none between
/// it and `end`; when it is `-1` there is no whitespace before `end` at all.
pub proof fn lemma_last_whitespace_before(s: Seq<char>, end: int)
    requires
        0 <= end <= s.len(),
    ensures
        -1 <= last_whitespace_before(s, end) < end,
        last_whitespace_before(s, end) >= 0 ==> is_whitespace(
            s[last_whitespace_before(s, end)],
        ),
        forall|k: int| last_whitespace_before(s, end) < k < end ==> !is_whitespace(s[k]),
    decreases end,
{
    if end > 0 && !is_whitespace(s[end - 1]) {
        lemma_last_whitespace_before(s, end - 1);
    }
}

/// `first_whitespace_from` names a whitespace character with none between
/// `start` and it; when it is the length there is no whitespace from `start`
/// on.
pub proof fn lemma_first_whitespace_from(s: Seq<char>, start: int)
    requires
        0 <= start <= s.len(),
    ensures
        start <= first_whitespace_from(s, start) <= s.len(),
        first_whitespace_from(s, start) < s.len() ==> is_whitespace(
            s[first_whitespace_from(s, start)],
        ),
        forall|k: int| start <= k < first_whitespace_from(s, start) ==> !is_whitespace(s[k]),
    decreases s.len() - start,
{
    if start < s.len() && !is_whitespace(s[start]) {
        lemma_first_whitespace_from(s, start + 1);
    }
}

/// Searches backwards from `end` for a whitespace character. Nothing is
/// found from an `end` behind the last character.
pub fn rfind_whitespace(v: &Vec<char>, end: usize) -> (found: Option<usize>)
    ensures
        match found {
            Some(p) => p == last_whitespace_before(v@, end as int) && p < end,
            None => last_whitespace_before(v@, end as int) == -1,
        },
{
    if end > v.len() {
        return None;
    }
    let mut i: usize = end;
    while i > 0
        invariant
            i <= end <= v@.len(),
            last_whitespace_before(v@, end as int) == last_whitespace_before(v@, i as int),
        decreases i,
    {
        if char_is_whitespace(v[i - 1]) {
            return Some(i - 1);
        }
        i -= 1;
    }
    None
}

/// Searches forwards from `start` for a whitespace character; the length of
/// `v` when there is none.
pub fn find_whitespace(v: &Vec<char>, start: usize) -> (found: usize)
    ensures
        found == first_whitespace_from(v@, start as int),
        found <= v@.len(),
        start <= v@.len() ==> start <= found,
{
    if start > v.len() {
        return v.len();
    }
    let mut i: usize = start;
    while i < v.len()
        invariant
            start <= i <= v@.len(),
            first_whitespace_from(v@, start as int) == first_whitespace_from(v@, i as int),
        decreases v@.len() - i,
    {
        if char_is_whitespace(v[i]) {
            return i;
        }
        i += 1;
    }
    i
}

} // verus!
