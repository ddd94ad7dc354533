//! Conversions between strings and character sequences, and the character
//! classes the widgets rely on.

use vstd::prelude::*;
use vstd::string::StrSliceExecFns;

verus! {

/// The characters that delimit words: the code points that carry the Unicode
/// `White_Space` property.
pub open spec fn is_whitespace(c: char) -> bool {
    let n = c as u32;
    (0x09 <= n <= 0x0D) || n == 0x20 || n == 0x85 || n == 0xA0 || n == 0x1680 || (0x2000 <= n
        <= 0x200A) || n == 0x2028 || n == 0x2029 || n == 0x202F || n == 0x205F || n == 0x3000
}

/// The views of a list of strings.
pub open spec fn strings_view(strings: Seq<String>) -> Seq<Seq<char>> {
    Seq::new(strings.len(), |i: int| strings[i]@)
}

/// Decides whether `c` delimits words.
pub fn char_is_whitespace(c: char) -> (b: bool)
    ensures
        b == is_whitespace(c),
{
    let n: u32 = c as u32;
    (0x09 <= n && n <= 0x0D) || n == 0x20 || n == 0x85 || n == 0xA0 || n == 0x1680 || (0x2000 <= n
        && n <= 0x200A) || n == 0x2028 || n == 0x2029 || n == 0x202F || n == 0x205F || n == 0x3000
}

/// The characters of `s`, in order.
pub fn to_chars(s: &str) -> (chars: Vec<char>)
    ensures
        chars@ == s@,
{
    let n = s.unicode_len();
    let mut chars: Vec<char> = Vec::new();
    let mut i: usize = 0;
    while i < n
        invariant
            n == s@.len(),
            i <= n,
            chars@ == s@.subrange(0, i as int),
        decreases n - i,
    {
        chars.push(s.get_char(i));
        i += 1;
    }
    chars
}

/// Appends one character to a string.
///
/// Wraps `String::push`, which extends the string by exactly the given
/// character.
#[verifier::external_body]
fn push_char(s: &mut String, c: char)
    ensures
        final(s)@ == old(s)@.push(c),
{
    s.push(c);
}

/// The string made of the characters of `chars`, in order.
pub fn to_string(chars: &Vec<char>) -> (s: String)
    ensures
        s@ == chars@,
{
    let mut s = String::new();
    let mut i: usize = 0;
    while i < chars.len()
        invariant
            i <= chars.len(),
            s@ == chars@.subrange(0, i as int),
        decreases chars.len() - i,
    {
        push_char(&mut s, chars[i]);
        i += 1;
    }
    s
}

/// Decides whether two character vectors hold the same characters.
pub fn chars_eq(a: &Vec<char>, b: &Vec<char>) -> (same: bool)
    ensures
        same == (a@ == b@),
{
    if a.len() != b.len() {
        return false;
    }
    let mut i: usize = 0;
    while i < a.len()
        invariant
            i <= a@.len(),
            a@.len() == b@.len(),
            forall|k: int| 0 <= k < i ==> a@[k] == b@[k],
        decreases a@.len() - i,
    {
        if a[i] != b[i] {
            return false;
        }
        i += 1;
    }
    assert(a@ =~= b@);
    true
}

/// Decides whether the characters are those of `s`.
pub fn chars_are(chars: &Vec<char>, s: &str) -> (same: bool)
    ensures
        same == (chars@ == s@),
{
    let other = to_chars(s);
    chars_eq(chars, &other)
}

/// Decides whether two strings hold the same characters.
pub fn str_eq(a: &str, b: &str) -> (same: bool)
    ensures
        same == (a@ == b@),
{
    let left = to_chars(a);
    let right = to_chars(b);
    chars_eq(&left, &right)
}

/// Appends the characters of `s`.
pub fn push_str(dst: &mut Vec<char>, s: &str)
    ensures
        final(dst)@ == old(dst)@ + s@,
{
    let chars = to_chars(s);
    push_chars(dst, &chars);
}

/// Appends the characters of `src`.
pub fn push_chars(dst: &mut Vec<char>, src: &Vec<char>)
    ensures
        final(dst)@ == old(dst)@ + src@,
{
    let mut i: usize = 0;
    while i < src.len()
        invariant
            i <= src@.len(),
            dst@ == old(dst)@ + src@.subrange(0, i as int),
        decreases src@.len() - i,
    {
        dst.push(src[i]);
        i += 1;
    }
    assert(src@.subrange(0, src@.len() as int) =~= src@);
}

/// The index of the first character of `s` at or after `start` that is not
/// whitespace, or the length of `s`.
pub open spec fn leading_end(s: Seq<char>, start: int) -> int
    decreases s.len() - start,
{
    if start < 0 || start >= s.len() {
        s.len() as int
    } else if !is_whitespace(s[start]) {
        start
    } else {
        leading_end(s, start + 1)
    }
}

/// The index behind the last character of `s` before `end` that is not
/// whitespace, or `floor` when only whitespace stands between `floor` and
/// `end`.
pub open spec fn trailing_start(s: Seq<char>, floor: int, end: int) -> int
    decreases end,
{
    if end <= floor || end > s.len() || end <= 0 {
        floor
    } else if !is_whitespace(s[end - 1]) {
        end
    } else {
        trailing_start(s, floor, end - 1)
    }
}

/// `s` without the whitespace at its start and at its end.
pub open spec fn trimmed(s: Seq<char>) -> Seq<char> {
    s.subrange(leading_end(s, 0), trailing_start(s, leading_end(s, 0), s.len() as int))
}

/// The trimmed text starts and ends with a character that is not
/// whitespace, unless it is empty, and only whitespace was cut off.
pub proof fn lemma_trimmed(s: Seq<char>)
    ensures
        0 <= leading_end(s, 0) <= trailing_start(s, leading_end(s, 0), s.len() as int) <= s.len(),
        forall|k: int| 0 <= k < leading_end(s, 0) ==> is_whitespace(s[k]),
        forall|k: int|
            trailing_start(s, leading_end(s, 0), s.len() as int) <= k < s.len() ==> is_whitespace(
                s[k],
            ),
        trimmed(s).len() > 0 ==> !is_whitespace(trimmed(s)[0]) && !is_whitespace(
            trimmed(s)[trimmed(s).len() - 1],
        ),
{
    lemma_leading_end(s, 0);
    lemma_trailing_start(s, leading_end(s, 0), s.len() as int);
}

proof fn lemma_leading_end(s: Seq<char>, start: int)
    requires
        0 <= start <= s.len(),
    ensures
        start <= leading_end(s, start) <= s.len(),
        leading_end(s, start) < s.len() ==> !is_whitespace(s[leading_end(s, start)]),
        forall|k: int| start <= k < leading_end(s, start) ==> is_whitespace(s[k]),
    decreases s.len() - start,
{
    if start < s.len() && is_whitespace(s[start]) {
        lemma_leading_end(s, start + 1);
    }
}

proof fn lemma_trailing_start(s: Seq<char>, floor: int, end: int)
    requires
        0 <= floor <= end <= s.len(),
    ensures
        floor <= trailing_start(s, floor, end) <= end,
        trailing_start(s, floor, end) > floor ==> !is_whitespace(
            s[trailing_start(s, floor, end) - 1],
        ),
        forall|k: int| trailing_start(s, floor, end) <= k < end ==> is_whitespace(s[k]),
    decreases end,
{
    if end > floor && is_whitespace(s[end - 1]) {
        lemma_trailing_start(s, floor, end - 1);
    }
}

/// The characters of `v` without the whitespace at both ends.
pub fn trim(v: &Vec<char>) -> (t: Vec<char>)
    ensures
        t@ == trimmed(v@),
{
    let n = v.len();
    let mut from: usize = 0;
    while from < n && char_is_whitespace(v[from])
        invariant
            n == v@.len(),
            from <= n,
            leading_end(v@, 0) == leading_end(v@, from as int),
        decreases n - from,
    {
        from += 1;
    }
    let mut to: usize = n;
    while to > from && char_is_whitespace(v[to - 1])
        invariant
            n == v@.len(),
            from <= to <= n,
            from == leading_end(v@, 0),
            trailing_start(v@, from as int, n as int) == trailing_start(
                v@,
                from as int,
                to as int,
            ),
        decreases to,
    {
        to -= 1;
    }
    let mut t: Vec<char> = Vec::new();
    let mut i: usize = from;
    while i < to
        invariant
            from <= i <= to <= v@.len(),
            t@ == v@.subrange(from as int, i as int),
        decreases to - i,
    {
        t.push(v[i]);
        i += 1;
    }
    t
}

} // verus!
