//! Numbers written in decimal.

use vstd::prelude::*;

verus! {

/// True for the ten decimal digits.
pub open spec fn is_digit(c: char) -> bool {
    '0' <= c <= '9'
}

/// The value of a decimal digit.
pub open spec fn digit_value(c: char) -> int {
    c as int - '0' as int
}

/// The digit for a value below ten.
pub open spec fn digit_char(d: int) -> char {
    if d == 0 {
        '0'
    } else if d == 1 {
        '1'
    } else if d == 2 {
        '2'
    } else if d == 3 {
        '3'
    } else if d == 4 {
        '4'
    } else if d == 5 {
        '5'
    } else if d == 6 {
        '6'
    } else if d == 7 {
        '7'
    } else if d == 8 {
        '8'
    } else {
        '9'
    }
}

/// Every character is a decimal digit.
pub open spec fn all_digits(s: Seq<char>) -> bool {
    forall|i: int| 0 <= i < s.len() ==> is_digit(#[trigger] s[i])
}

/// The number that the first `n` digits of `s` write.
pub open spec fn value_of(s: Seq<char>, n: int) -> int
    decreases n,
{
    if n <= 0 || n > s.len() {
        0
    } else {
        value_of(s, n - 1) * 10 + digit_value(s[n - 1])
    }
}

/// The number that a digit string writes.
pub open spec fn number_of(s: Seq<char>) -> int {
    value_of(s, s.len() as int)
}

/// The decimal digits of `n`, without leading zeros; zero is written `0`.
pub open spec fn decimal(n: nat) -> Seq<char>
    decreases n,
{
    if n < 10 {
        seq![digit_char(n as int)]
    } else {
        decimal(n / 10).push(digit_char((n % 10) as int))
    }
}

/// The value of a digit string does not shrink as digits are added.
pub proof fn lemma_value_grows(s: Seq<char>, a: int, b: int)
    requires
        all_digits(s),
        0 <= a <= b <= s.len(),
    ensures
        0 <= value_of(s, a) <= value_of(s, b),
    decreases b,
{
    if b > 0 {
        if a < b {
            lemma_value_grows(s, a, b - 1);
            assert(is_digit(s[b - 1]));
        } else {
            lemma_value_grows(s, a - 1, b - 1);
            assert(is_digit(s[b - 1]));
        }
    }
}

/// Reading back what `decimal` wrote gives the number.
pub proof fn law_decimal_round_trip(n: nat)
    ensures
        all_digits(decimal(n)),
        decimal(n).len() >= 1,
        number_of(decimal(n)) == n,
    decreases n,
{
    if n >= 10 {
        law_decimal_round_trip(n / 10);
        let shorter = decimal(n / 10);
        let digits = decimal(n);
        let last = digit_char((n % 10) as int);
        assert(digits.drop_last() =~= shorter);
        assert(digits[digits.len() - 1] == last);
        assert(digit_value(last) == n % 10 && is_digit(last));
        lemma_value_prefix(digits, shorter, shorter.len() as int);
        assert(value_of(digits, digits.len() as int) == value_of(digits, digits.len() - 1) * 10
            + digit_value(last));
        assert forall|i: int| 0 <= i < digits.len() implies is_digit(#[trigger] digits[i]) by {
            if i < shorter.len() {
                assert(digits[i] == shorter[i]);
            }
        }
    } else {
        let digits = decimal(n);
        assert(digits.len() == 1);
        assert(digit_value(digits[0]) == n && is_digit(digits[0]));
        assert(value_of(digits, 1) == value_of(digits, 0) * 10 + digit_value(digits[0]));
    }
}

proof fn lemma_value_prefix(a: Seq<char>, b: Seq<char>, n: int)
    requires
        0 <= n <= a.len(),
        n <= b.len(),
        forall|i: int| 0 <= i < n ==> a[i] == b[i],
    ensures
        value_of(a, n) == value_of(b, n),
    decreases n,
{
    if n > 0 {
        lemma_value_prefix(a, b, n - 1);
    }
}

fn digit_for(d: usize) -> (c: char)
    requires
        d < 10,
    ensures
        c == digit_char(d as int),
{
    if d == 0 {
        '0'
    } else if d == 1 {
        '1'
    } else if d == 2 {
        '2'
    } else if d == 3 {
        '3'
    } else if d == 4 {
        '4'
    } else if d == 5 {
        '5'
    } else if d == 6 {
        '6'
    } else if d == 7 {
        '7'
    } else if d == 8 {
        '8'
    } else {
        '9'
    }
}

/// Writes `n` in decimal.
pub fn to_decimal(n: usize) -> (digits: Vec<char>)
    ensures
        digits@ == decimal(n as nat),
    decreases n,
{
    if n < 10 {
        let mut digits: Vec<char> = Vec::new();
        digits.push(digit_for(n));
        assert(digits@ =~= seq![digit_char(n as int)]);
        digits
    } else {
        let mut digits = to_decimal(n / 10);
        digits.push(digit_for(n % 10));
        digits
    }
}

/// Reads a number written in decimal.
///
/// `Some` exactly when the text is made of digits, at least one, and the
/// number they write fits.
pub fn parse_decimal(text: &Vec<char>) -> (number: Option<u64>)
    ensures
        number is Some <==> text@.len() > 0 && all_digits(text@) && number_of(text@) <= u64::MAX,
        number matches Some(n) ==> n == number_of(text@),
{
    if text.len() == 0 {
        return None;
    }
    let mut value: u64 = 0;
    let mut i: usize = 0;
    while i < text.len()
        invariant
            i <= text@.len(),
            forall|k: int| 0 <= k < i ==> is_digit(#[trigger] text@[k]),
            value == value_of(text@, i as int),
        decreases text@.len() - i,
    {
        let c = text[i];
        if !('0' <= c && c <= '9') {
            return None;
        }
        let d: u64 = (c as u32 - '0' as u32) as u64;
        if value > (u64::MAX - d) / 10 {
            proof {
                if all_digits(text@) {
                    lemma_value_grows(text@, i as int + 1, text@.len() as int);
                }
            }
            return None;
        }
        value = value * 10 + d;
        i += 1;
    }
    Some(value)
}

} // verus!
