//! Splitting a sequence of characters at every occurrence of a separator.

use crate::text::push_chars;
use vstd::prelude::*;

verus! {

/// `pattern` stands in `s` at index `k`.
pub open spec fn occurs_at(s: Seq<char>, pattern: Seq<char>, k: int) -> bool {
    &&& 0 <= k
    &&& k + pattern.len() <= s.len()
    &&& s.subrange(k, k + pattern.len()) == pattern
}

/// The first index at or after `start` at which `pattern` stands in `s`,
/// or `-1` when it stands nowhere from there on.
pub open spec fn find_from(s: Seq<char>, pattern: Seq<char>, start: int) -> int
    decreases s.len() - start,
{
    if start < 0 || start + pattern.len() > s.len() {
        -1
    } else if occurs_at(s, pattern, start) {
        start
    } else if start < s.len() {
        find_from(s, pattern, start + 1)
    } else {
        -1
    }
}

/// The pieces of `s` from `start` on: what stands before the first
/// separator, then the pieces of what follows it; without a separator, the
/// rest as one piece. A separator at the very end leaves an empty last
/// piece.
pub open spec fn split_from(s: Seq<char>, separator: Seq<char>, start: int) -> Seq<Seq<char>>
    decreases s.len() - start,
{
    let k = find_from(s, separator, start);
    if separator.len() > 0 && 0 <= start <= k && k + separator.len() <= s.len() {
        seq![s.subrange(start, k)] + split_from(s, separator, k + separator.len())
    } else {
        seq![s.subrange(start, s.len() as int)]
    }
}

/// The pieces of `s` between its separators.
pub open spec fn split_spec(s: Seq<char>, separator: Seq<char>) -> Seq<Seq<char>> {
    split_from(s, separator, 0)
}

/// The views of the pieces of a split.
pub open spec fn pieces_view(pieces: Seq<Vec<char>>) -> Seq<Seq<char>> {
    Seq::new(pieces.len(), |i: int| pieces[i]@)
}

/// `find_from` is `-1` or names an occurrence at or after `start`, and no
/// occurrence stands between `start` and it.
pub proof fn lemma_find_from(s: Seq<char>, pattern: Seq<char>, start: int)
    requires
        0 <= start,
    ensures
        find_from(s, pattern, start) == -1 || (start <= find_from(s, pattern, start) && occurs_at(
            s,
            pattern,
            find_from(s, pattern, start),
        )),
        forall|k: int|
            start <= k && (find_from(s, pattern, start) == -1 || k < find_from(s, pattern, start))
                ==> !occurs_at(s, pattern, k),
    decreases s.len() - start,
{
    if start + pattern.len() <= s.len() && !occurs_at(s, pattern, start) && start < s.len() {
        lemma_find_from(s, pattern, start + 1);
    }
}

/// Decides whether `pattern` stands in `s` at index `k`.
pub fn stands_at(s: &Vec<char>, pattern: &Vec<char>, k: usize) -> (found: bool)
    ensures
        found == occurs_at(s@, pattern@, k as int),
{
    if pattern.len() > s.len() || k > s.len() - pattern.len() {
        return false;
    }
    let n = s.len();
    let mut i: usize = 0;
    while i < pattern.len()
        invariant
            i <= pattern@.len(),
            n == s@.len(),
            k + pattern@.len() <= s@.len(),
            forall|m: int| 0 <= m < i ==> s@[k + m] == pattern@[m],
        decreases pattern@.len() - i,
    {
        if s[k + i] != pattern[i] {
            assert(s@.subrange(k as int, k + pattern@.len())[i as int] == s@[k + i]);
            return false;
        }
        i += 1;
    }
    assert(s@.subrange(k as int, k + pattern@.len()) =~= pattern@);
    true
}

/// Finds the first occurrence of `pattern` at or after `start`.
pub fn find(s: &Vec<char>, pattern: &Vec<char>, start: usize) -> (found: Option<usize>)
    ensures
        match found {
            Some(k) => k == find_from(s@, pattern@, start as int),
            None => find_from(s@, pattern@, start as int) == -1,
        },
{
    if pattern.len() > s.len() {
        return None;
    }
    let last = s.len() - pattern.len();
    let mut i: usize = start;
    while i <= last
        invariant
            start <= i,
            last == s@.len() - pattern@.len(),
            find_from(s@, pattern@, start as int) == find_from(s@, pattern@, i as int),
        decreases last - i,
    {
        if stands_at(s, pattern, i) {
            return Some(i);
        }
        if i == last {
            assert(find_from(s@, pattern@, i as int + 1) == -1);
            return None;
        }
        i += 1;
    }
    None
}

/// Splits `s` at every occurrence of `separator`, from left to right. An
/// empty separator occurs nowhere.
pub fn split(s: &Vec<char>, separator: &Vec<char>) -> (pieces: Vec<Vec<char>>)
    ensures
        pieces_view(pieces@) == split_spec(s@, separator@),
        pieces@.len() >= 1,
{
    let n = s.len();
    let mut pieces: Vec<Vec<char>> = Vec::new();
    if separator.len() == 0 {
        pieces.push(copy_chars(s, 0, n));
        assert(pieces_view(pieces@) =~= seq![s@.subrange(0, s@.len() as int)]);
        return pieces;
    }
    let mut start: usize = 0;
    loop
        invariant
            n == s@.len(),
            separator@.len() > 0,
            start <= s@.len(),
            split_spec(s@, separator@) == pieces_view(pieces@) + split_from(
                s@,
                separator@,
                start as int,
            ),
        decreases s@.len() - start,
    {
        let ghost before = pieces_view(pieces@);
        proof {
            lemma_find_from(s@, separator@, start as int);
        }
        match find(s, separator, start) {
            Some(k) => {
                let piece = copy_chars(s, start, k);
                pieces.push(piece);
                assert(pieces_view(pieces@) =~= before.push(s@.subrange(start as int, k as int)));
                assert forall|rest: Seq<Seq<char>>| #[trigger]
                    (pieces_view(pieces@) + rest) == before + (seq![
                        s@.subrange(start as int, k as int),
                    ] + rest) by {
                    assert(pieces_view(pieces@) + rest =~= before + (seq![
                        s@.subrange(start as int, k as int),
                    ] + rest));
                }
                start = k + separator.len();
            },
            None => {
                let piece = copy_chars(s, start, s.len());
                pieces.push(piece);
                assert(pieces_view(pieces@) =~= before + seq![
                    s@.subrange(start as int, s@.len() as int),
                ]);
                return pieces;
            },
        }
    }
}

/// The characters of `v` from `from` up to `to`.
pub(crate) fn copy_chars(v: &Vec<char>, from: usize, to: usize) -> (part: Vec<char>)
    requires
        from <= to <= v@.len(),
    ensures
        part@ == v@.subrange(from as int, to as int),
{
    let mut part: Vec<char> = Vec::new();
    let mut i: usize = from;
    while i < to
        invariant
            from <= i <= to <= v@.len(),
            part@ == v@.subrange(from as int, i as int),
        decreases to - i,
    {
        part.push(v[i]);
        i += 1;
    }
    part
}

/// The first `n` of `pieces` with `separator` between them.
pub open spec fn join_spec(pieces: Seq<Seq<char>>, separator: Seq<char>, n: int) -> Seq<char>
    decreases n,
{
    if n <= 0 || n > pieces.len() {
        Seq::empty()
    } else if n == 1 {
        pieces[0]
    } else {
        join_spec(pieces, separator, n - 1) + separator + pieces[n - 1]
    }
}

/// `text` with every occurrence of `part`, from left to right, replaced by
/// `with`.
pub open spec fn replaced(text: Seq<char>, part: Seq<char>, with: Seq<char>) -> Seq<char> {
    join_spec(split_spec(text, part), with, split_spec(text, part).len() as int)
}

/// Joins `pieces` with `separator` between them.
pub fn join(pieces: &Vec<Vec<char>>, separator: &Vec<char>) -> (text: Vec<char>)
    ensures
        text@ == join_spec(pieces_view(pieces@), separator@, pieces@.len() as int),
{
    let ghost all = pieces_view(pieces@);
    let mut text: Vec<char> = Vec::new();
    let mut i: usize = 0;
    while i < pieces.len()
        invariant
            i <= pieces@.len(),
            all == pieces_view(pieces@),
            text@ == join_spec(all, separator@, i as int),
        decreases pieces@.len() - i,
    {
        assert(all[i as int] == pieces@[i as int]@);
        if i > 0 {
            push_chars(&mut text, separator);
        }
        push_chars(&mut text, &pieces[i]);
        assert(i == 0 ==> text@ =~= all[0]);
        i += 1;
    }
    text
}

/// Replaces every occurrence of `part` in `text` by `with`. An empty
/// `part` occurs nowhere.
pub fn replace(text: &Vec<char>, part: &Vec<char>, with: &Vec<char>) -> (result: Vec<char>)
    ensures
        result@ == replaced(text@, part@, with@),
{
    let pieces = split(text, part);
    join(&pieces, with)
}

proof fn lemma_join_prepend(first: Seq<char>, rest: Seq<Seq<char>>, separator: Seq<char>, n: int)
    requires
        1 <= n <= rest.len(),
    ensures
        join_spec(seq![first] + rest, separator, n + 1) == first + separator + join_spec(
            rest,
            separator,
            n,
        ),
    decreases n,
{
    let all = seq![first] + rest;
    assert(all[0] == first);
    assert(all[n] == rest[n - 1]);
    if n == 1 {
        assert(join_spec(all, separator, 1) == first);
        assert(join_spec(all, separator, 2) =~= first + separator + rest[0]);
    } else {
        lemma_join_prepend(first, rest, separator, n - 1);
        assert(join_spec(all, separator, n + 1) =~= first + separator + join_spec(
            rest,
            separator,
            n,
        ));
    }
}

proof fn lemma_split_join(s: Seq<char>, separator: Seq<char>, start: int)
    requires
        0 <= start <= s.len(),
    ensures
        split_from(s, separator, start).len() >= 1,
        join_spec(
            split_from(s, separator, start),
            separator,
            split_from(s, separator, start).len() as int,
        ) == s.subrange(start, s.len() as int),
    decreases s.len() - start,
{
    let k = find_from(s, separator, start);
    lemma_find_from(s, separator, start);
    if separator.len() > 0 && start <= k && k + separator.len() <= s.len() {
        let rest = split_from(s, separator, k + separator.len());
        lemma_split_join(s, separator, k + separator.len());
        lemma_join_prepend(s.subrange(start, k), rest, separator, rest.len() as int);
        assert(s.subrange(start, k) + separator + s.subrange(
            k + separator.len(),
            s.len() as int,
        ) =~= s.subrange(start, s.len() as int));
    }
}

/// Joining the pieces of a split with the separator gives back the text:
/// a split loses nothing and adds nothing.
pub proof fn law_join_undoes_split(s: Seq<char>, separator: Seq<char>)
    ensures
        join_spec(split_spec(s, separator), separator, split_spec(s, separator).len() as int) == s,
        replaced(s, separator, separator) == s,
{
    lemma_split_join(s, separator, 0);
    assert(s.subrange(0, s.len() as int) =~= s);
}

/// A text that does not hold what was expected of it.
#[derive(Debug)]
pub struct MalformedLine {
    /// The text as it was read.
    pub line: String,
}

/// The line with a carriage return at its end taken off.
pub open spec fn without_return(line: Seq<char>) -> Seq<char> {
    if line.len() > 0 && line[line.len() - 1] == '\r' {
        line.drop_last()
    } else {
        line
    }
}

/// The lines of a text. A line ends at a line feed; a carriage return just
/// before the line feed belongs to the line ending. What follows the last
/// line feed is a line of its own unless it is empty.
pub open spec fn lines_of(text: Seq<char>) -> Seq<Seq<char>> {
    let pieces = split_spec(text, seq!['\n']);
    let last = pieces[pieces.len() - 1];
    let ended = Seq::new((pieces.len() - 1) as nat, |i: int| without_return(pieces[i]));
    if last.len() == 0 {
        ended
    } else {
        ended.push(last)
    }
}

/// Splits a text into its lines.
pub fn lines(text: &Vec<char>) -> (found: Vec<Vec<char>>)
    ensures
        pieces_view(found@) == lines_of(text@),
{
    let mut separator: Vec<char> = Vec::new();
    separator.push('\n');
    assert(separator@ =~= seq!['\n']);
    let pieces = split(text, &separator);
    let ghost all = pieces_view(pieces@);
    let count = pieces.len();
    let mut found: Vec<Vec<char>> = Vec::new();
    let mut i: usize = 0;
    while i + 1 < count
        invariant
            count == pieces@.len(),
            count >= 1,
            i + 1 <= count,
            all == pieces_view(pieces@),
            pieces_view(found@) == Seq::new(i as nat, |k: int| without_return(all[k])),
        decreases count - i,
    {
        let piece = &pieces[i];
        let ghost before = pieces_view(found@);
        assert(all[i as int] == piece@);
        let len = piece.len();
        let line = if len > 0 && piece[len - 1] == '\r' {
            copy_chars(piece, 0, len - 1)
        } else {
            copy_chars(piece, 0, len)
        };
        assert(line@ =~= without_return(piece@));
        found.push(line);
        assert(pieces_view(found@) =~= before.push(without_return(all[i as int])));
        assert(before.push(without_return(all[i as int])) =~= Seq::new(
            (i + 1) as nat,
            |k: int| without_return(all[k]),
        ));
        i += 1;
    }
    let last = &pieces[count - 1];
    assert(all[count - 1] == last@);
    if last.len() > 0 {
        let ghost before = pieces_view(found@);
        let line = copy_chars(last, 0, last.len());
        assert(line@ =~= last@);
        found.push(line);
        assert(pieces_view(found@) =~= before.push(last@));
    }
    found
}

} // verus!
