//! Signing in to GitHub with a device code: reading what GitHub answers
//! and deciding how the wait for the user goes on.

use crate::numbers::{all_digits, number_of, parse_decimal};
use crate::split::{
    find, find_from, pieces_view, replace, replaced, split, split_spec, MalformedLine,
};
use crate::text::{to_chars, to_string};
use vstd::prelude::*;
use vstd::string::StringExecFns;

verus! {

/// The identifier under which the helper is known to GitHub.
pub const CLIENT_ID: &'static str = "Iv1.d8c9cc38202b9305";

/// The kind of grant that is asked for.
pub const GRANT_TYPE: &'static str = "urn:ietf:params:oauth:grant-type:device_code";

/// What GitHub answers to a request for a device code.
#[derive(Debug)]
pub struct DeviceCode {
    /// The code by which the helper asks for the token.
    pub device_code: String,
    /// The number of seconds after which the codes expire.
    pub expires_in: u64,
    /// The number of seconds to wait between two requests for the token.
    pub interval: u64,
    /// The code that the user types in.
    pub user_code: String,
    /// Where the user types it in.
    pub login_url: String,
}

/// How the wait for the user goes on.
#[derive(Debug)]
pub enum PollStep {
    /// GitHub handed out the token.
    Token(String),
    /// The codes have expired.
    TimedOut,
    /// Nothing yet: wait for the interval and ask again.
    Wait,
}

/// The first `n` characters of `s` without those that `dropped` names.
pub open spec fn without_chars(s: Seq<char>, dropped: Seq<char>, n: int) -> Seq<char>
    decreases n,
{
    if n <= 0 || n > s.len() {
        Seq::empty()
    } else if dropped.contains(s[n - 1]) {
        without_chars(s, dropped, n - 1)
    } else {
        without_chars(s, dropped, n - 1).push(s[n - 1])
    }
}

/// `s` without the characters that `dropped` names.
pub open spec fn strip(s: Seq<char>, dropped: Seq<char>) -> Seq<char> {
    without_chars(s, dropped, s.len() as int)
}

/// The value of the `i`-th of the fields that `separator` separates:
/// what stands between the first and the second `assign` of the field.
pub open spec fn value_at(text: Seq<char>, separator: Seq<char>, assign: Seq<char>, i: int) -> Seq<
    char,
> {
    split_spec(split_spec(text, separator)[i], assign)[1]
}

/// The `i`-th field exists and has a value.
pub open spec fn has_value(text: Seq<char>, separator: Seq<char>, assign: Seq<char>, i: int) -> bool {
    &&& 0 <= i < split_spec(text, separator).len()
    &&& split_spec(split_spec(text, separator)[i], assign).len() >= 2
}

/// The text is a number that fits.
pub open spec fn is_number(text: Seq<char>) -> bool {
    text.len() > 0 && all_digits(text) && number_of(text) <= u64::MAX
}

/// The answer with its quotation marks taken out.
pub open spec fn unquoted(answer: Seq<char>) -> Seq<char> {
    strip(answer, seq!['"'])
}

/// The answer holds a device code: five fields with values, the second
/// and the third of them numbers.
pub open spec fn holds_device_code(answer: Seq<char>) -> bool {
    let text = unquoted(answer);
    &&& forall|i: int| 0 <= i < 5 ==> has_value(text, "&"@, "="@, i)
    &&& is_number(value_at(text, "&"@, "="@, 1))
    &&& is_number(value_at(text, "&"@, "="@, 2))
}

/// `code` is what the answer holds: the values of its first five fields,
/// the colons and slashes of the address written out.
pub open spec fn device_code_of(code: DeviceCode, answer: Seq<char>) -> bool {
    let text = unquoted(answer);
    &&& code.device_code@ == value_at(text, "&"@, "="@, 0)
    &&& code.expires_in == number_of(value_at(text, "&"@, "="@, 1))
    &&& code.interval == number_of(value_at(text, "&"@, "="@, 2))
    &&& code.user_code@ == value_at(text, "&"@, "="@, 3)
    &&& code.login_url@ == replaced(
        replaced(value_at(text, "&"@, "="@, 4), "%3A"@, ":"@),
        "%2F"@,
        "/"@,
    )
}

fn holds(v: &Vec<char>, c: char) -> (found: bool)
    ensures
        found == v@.contains(c),
{
    let mut k: usize = 0;
    while k < v.len()
        invariant
            k <= v@.len(),
            forall|m: int| 0 <= m < k ==> v@[m] != c,
        decreases v@.len() - k,
    {
        if v[k] == c {
            return true;
        }
        k += 1;
    }
    false
}

fn strip_chars(text: &Vec<char>, dropped: &Vec<char>) -> (kept: Vec<char>)
    ensures
        kept@ == strip(text@, dropped@),
{
    let mut kept: Vec<char> = Vec::new();
    let mut i: usize = 0;
    while i < text.len()
        invariant
            i <= text@.len(),
            kept@ == without_chars(text@, dropped@, i as int),
        decreases text@.len() - i,
    {
        let c = text[i];
        let drop = holds(dropped, c);
        if !drop {
            kept.push(c);
        }
        i += 1;
    }
    kept
}

fn field_value(fields: &Vec<Vec<char>>, i: usize, assign: &str) -> (value: Option<Vec<char>>)
    requires
        i < fields@.len(),
    ensures
        match value {
            Some(v) => split_spec(fields@[i as int]@, assign@).len() >= 2 && v@ == split_spec(
                fields@[i as int]@,
                assign@,
            )[1],
            None => split_spec(fields@[i as int]@, assign@).len() < 2,
        },
{
    let parts = split(&fields[i], &to_chars(assign));
    if parts.len() < 2 {
        return None;
    }
    assert(pieces_view(parts@)[1] == parts@[1]@);
    Some(crate::split::copy_chars(&parts[1], 0, parts[1].len()))
}

/// Reads what GitHub answered to a request for a device code.
///
/// `Ok` exactly when the answer holds a device code; otherwise the answer
/// is handed back.
pub fn parse_device_code(answer: &str) -> (result: Result<DeviceCode, MalformedLine>)
    ensures
        result is Ok <==> holds_device_code(answer@),
        result matches Ok(code) ==> device_code_of(code, answer@),
        result matches Err(error) ==> error.line@ == answer@,
{
    let mut quote: Vec<char> = Vec::new();
    quote.push('"');
    assert(quote@ =~= seq!['"']);
    let text = strip_chars(&to_chars(answer), &quote);
    let fields = split(&text, &to_chars("&"));
    let ghost all = pieces_view(fields@);
    if fields.len() < 5 {
        assert(!has_value(text@, "&"@, "="@, 4));
        return Err(MalformedLine { line: String::from_str(answer) });
    }
    assert(all[0] == fields@[0]@ && all[1] == fields@[1]@ && all[2] == fields@[2]@ && all[3]
        == fields@[3]@ && all[4] == fields@[4]@);
    let device_code = field_value(&fields, 0, "=");
    let expires_in = field_value(&fields, 1, "=");
    let interval = field_value(&fields, 2, "=");
    let user_code = field_value(&fields, 3, "=");
    let login_url = field_value(&fields, 4, "=");
    match (device_code, expires_in, interval, user_code, login_url) {
        (Some(device_code), Some(expires_in), Some(interval), Some(user_code), Some(login_url)) => {
            match (parse_decimal(&expires_in), parse_decimal(&interval)) {
                (Some(expires_in), Some(interval)) => {
                    let colons = replace(&login_url, &to_chars("%3A"), &to_chars(":"));
                    let address = replace(&colons, &to_chars("%2F"), &to_chars("/"));
                    Ok(
                        DeviceCode {
                            device_code: to_string(&device_code),
                            expires_in,
                            interval,
                            user_code: to_string(&user_code),
                            login_url: to_string(&address),
                        },
                    )
                },
                _ => Err(MalformedLine { line: String::from_str(answer) }),
            }
        },
        _ => {
            assert(!(forall|i: int| 0 <= i < 5 ==> has_value(text@, "&"@, "="@, i))) by {
                if !has_value(text@, "&"@, "="@, 0) {
                } else if !has_value(text@, "&"@, "="@, 1) {
                } else if !has_value(text@, "&"@, "="@, 2) {
                } else if !has_value(text@, "&"@, "="@, 3) {
                } else {
                    assert(!has_value(text@, "&"@, "="@, 4));
                }
            }
            Err(MalformedLine { line: String::from_str(answer) })
        },
    }
}

/// The answer names a token: `access_token` stands in it.
pub open spec fn names_token(answer: Seq<char>) -> bool {
    find_from(answer, "access_token"@, 0) >= 0
}

/// The answer without its braces, quotation marks and slashes.
pub open spec fn flattened(answer: Seq<char>) -> Seq<char> {
    strip(answer, seq!['{', '}', '"', '/'])
}

/// The token that the answer hands out: the value of its first field, if
/// the answer names a token and the field has a value.
pub open spec fn token_of(answer: Seq<char>) -> Option<Seq<char>> {
    if names_token(answer) && has_value(flattened(answer), ","@, ":"@, 0) {
        Some(value_at(flattened(answer), ","@, ":"@, 0))
    } else {
        None
    }
}

/// Reads the token from what GitHub answered to a request for it.
pub fn parse_access_token(answer: &str) -> (token: Option<String>)
    ensures
        match token {
            Some(t) => token_of(answer@) == Some(t@),
            None => token_of(answer@) is None,
        },
{
    let text = to_chars(answer);
    match find(&text, &to_chars("access_token"), 0) {
        Some(_) => {},
        None => {
            return None;
        },
    }
    let mut dropped: Vec<char> = Vec::new();
    dropped.push('{');
    dropped.push('}');
    dropped.push('"');
    dropped.push('/');
    assert(dropped@ =~= seq!['{', '}', '"', '/']);
    let flat = strip_chars(&text, &dropped);
    let fields = split(&flat, &to_chars(","));
    assert(pieces_view(fields@)[0] == fields@[0]@);
    match field_value(&fields, 0, ":") {
        Some(value) => Some(to_string(&value)),
        None => None,
    }
}

/// Decides how the wait for the user goes on, given what GitHub answered
/// last, the seconds that have passed since the codes were handed out, and
/// the seconds after which they expire: a token ends the wait; without
/// one, the wait ends when more seconds have passed than the codes last.
pub fn authenticate(answer: &str, elapsed: u64, expires_in: u64) -> (step: PollStep)
    ensures
        match step {
            PollStep::Token(token) => token_of(answer@) == Some(token@),
            PollStep::TimedOut => token_of(answer@) is None && elapsed > expires_in,
            PollStep::Wait => token_of(answer@) is None && elapsed <= expires_in,
        },
{
    match parse_access_token(answer) {
        Some(token) => PollStep::Token(token),
        None => if elapsed > expires_in {
            PollStep::TimedOut
        } else {
            PollStep::Wait
        },
    }
}

/// The address at which a device code is asked for.
pub fn device_code_url() -> (url: String)
    ensures
        url@ == "https://github.com/login/device/code?client_id="@ + CLIENT_ID@,
{
    String::from_str("https://github.com/login/device/code?client_id=").concat(CLIENT_ID)
}

} // verus!
