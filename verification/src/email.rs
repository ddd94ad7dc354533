//! Judging an e-mail address.
//!
//! The address is held against a pattern by the `regex` crate; what the
//! user is told follows from its answer.

use crate::commit::Validation;
use vstd::prelude::*;
use vstd::string::StringExecFns;

verus! {

/// The pattern of an e-mail address.
pub const EMAIL_PATTERN: &'static str = "^[\\w-\\.]+@([\\w-]+\\.)+[\\w-]{2,4}$";

/// Whether `text` matches `pattern`, as `regex` decides it; `None` when
/// `regex` does not accept the pattern.
pub uninterp spec fn regex_match(pattern: Seq<char>, text: Seq<char>) -> Option<bool>;

/// Holds a text against a pattern.
///
/// Wraps `regex::Regex::new` and `regex::Regex::is_match`: the pattern is
/// compiled, and if it compiles, the answer is whether it matches anywhere
/// in the text. The contract only gives that answer its name.
#[verifier::external_body]
fn matches_pattern(pattern: &str, text: &str) -> (matched: Option<bool>)
    ensures
        matched == regex_match(pattern@, text@),
{
    match regex::Regex::new(pattern) {
        Ok(compiled) => Some(compiled.is_match(text)),
        Err(_) => None,
    }
}

/// The pattern of an e-mail address was not accepted.
#[derive(Clone, Copy, Debug, PartialEq, Eq, Structural)]
pub struct PatternError;

/// What is made of an address once it was held against the pattern: a
/// pattern that was not accepted is an error; an empty address is told
/// apart from one that does not match.
pub open spec fn judgement(email: Seq<char>, matched: Option<bool>) -> Result<
    Option<Seq<char>>,
    PatternError,
> {
    match matched {
        None => Err(PatternError),
        Some(found) => if email.len() == 0 {
            Ok(Some("Email cannot be empty"@))
        } else if !found {
            Ok(Some("Invalid email"@))
        } else {
            Ok(None)
        },
    }
}

/// `result` says what `expected` says: the same error, or a validation
/// that is invalid for the same reason, or valid.
pub open spec fn agrees(
    result: Result<Validation, PatternError>,
    expected: Result<Option<Seq<char>>, PatternError>,
) -> bool {
    match (result, expected) {
        (Err(_), Err(_)) => true,
        (Ok(Validation::Valid), Ok(None)) => true,
        (Ok(Validation::Invalid(reason)), Ok(Some(text))) => reason@ == text,
        _ => false,
    }
}

/// Judges an address, given whether it matched the pattern.
pub fn judge_email(email: &str, matched: Option<bool>) -> (result: Result<Validation, PatternError>)
    ensures
        agrees(result, judgement(email@, matched)),
{
    match matched {
        None => Err(PatternError),
        Some(found) => {
            if email.unicode_len() == 0 {
                return Ok(Validation::Invalid(String::from_str("Email cannot be empty")));
            }
            if !found {
                return Ok(Validation::Invalid(String::from_str("Invalid email")));
            }
            Ok(Validation::Valid)
        },
    }
}

/// Judges an e-mail address against `EMAIL_PATTERN`.
pub fn validate_email(email: &str) -> (result: Result<Validation, PatternError>)
    ensures
        agrees(result, judgement(email@, regex_match(EMAIL_PATTERN@, email@))),
{
    judge_email(email, matches_pattern(EMAIL_PATTERN, email))
}

} // verus!
