//! Answers typed at plain prompts: free text, yes or no, and the number of
//! a menu entry.

use crate::numbers::{all_digits, number_of, parse_decimal};
use crate::text::{chars_are, to_chars, to_string, trim, trimmed};
use vstd::prelude::*;
use vstd::string::StringExecFns;

verus! {

/// An entry of a numbered menu.
#[derive(Debug)]
pub struct MenuOption {
    pub title: String,
    pub id: i8,
}

impl MenuOption {
    /// An entry with the given title and id.
    pub fn new(title: &str, id: i8) -> (option: MenuOption)
        ensures
            option.title@ == title@,
            option.id == id,
    {
        MenuOption { title: String::from_str(title), id }
    }
}

/// Judges a line typed at a text prompt: the answer is the line, trimmed;
/// where an answer is required, a line of whitespace is none.
pub fn text(input: &str, required: bool) -> (answer: Option<String>)
    ensures
        match answer {
            Some(a) => a@ == trimmed(input@) && !(required && trimmed(input@).len() == 0),
            None => required && trimmed(input@).len() == 0,
        },
{
    let answer = trim(&to_chars(input));
    if required && answer.len() == 0 {
        return None;
    }
    Some(to_string(&answer))
}

/// The characters of `s` with the ASCII upper-case letters made lower
/// case.
pub open spec fn lowered(s: Seq<char>) -> Seq<char> {
    Seq::new(s.len(), |i: int| lower(s[i]))
}

/// The character, made lower case when it is an ASCII upper-case letter.
pub open spec fn lower(c: char) -> char {
    if 'A' <= c <= 'Z' {
        ((c as u8) + 32) as char
    } else {
        c
    }
}

/// What a line typed at a yes-or-no prompt means: nothing but whitespace
/// means the default; `y` and `yes` mean yes, `n` and `no` mean no, in any
/// case; anything else means nothing.
pub open spec fn confirmation(input: Seq<char>, default: bool) -> Option<bool> {
    let answer = lowered(trimmed(input));
    if trimmed(input).len() == 0 {
        Some(default)
    } else if answer == "y"@ || answer == "yes"@ {
        Some(true)
    } else if answer == "n"@ || answer == "no"@ {
        Some(false)
    } else {
        None
    }
}

fn lower_char(c: char) -> (l: char)
    ensures
        l == lower(c),
{
    if 'A' <= c && c <= 'Z' {
        ((c as u8) + 32) as char
    } else {
        c
    }
}

/// Judges a line typed at a yes-or-no prompt.
pub fn confirm(input: &str, default: bool) -> (answer: Option<bool>)
    ensures
        answer == confirmation(input@, default),
{
    let typed = trim(&to_chars(input));
    if typed.len() == 0 {
        return Some(default);
    }
    let mut answer: Vec<char> = Vec::new();
    let mut i: usize = 0;
    while i < typed.len()
        invariant
            i <= typed@.len(),
            answer@ == lowered(typed@).subrange(0, i as int),
        decreases typed@.len() - i,
    {
        answer.push(lower_char(typed[i]));
        assert(answer@ =~= lowered(typed@).subrange(0, i as int + 1));
        i += 1;
    }
    assert(answer@ =~= lowered(typed@));
    if chars_are(&answer, "y") || chars_are(&answer, "yes") {
        Some(true)
    } else if chars_are(&answer, "n") || chars_are(&answer, "no") {
        Some(false)
    } else {
        None
    }
}

/// What a line typed at a numbered menu of `count` entries means: the
/// index of the entry whose number, counted from one, was typed.
pub open spec fn choice(input: Seq<char>, count: nat) -> Option<int> {
    let typed = trimmed(input);
    if typed.len() > 0 && all_digits(typed) && 1 <= number_of(typed) <= count {
        Some(number_of(typed) - 1)
    } else {
        None
    }
}

/// Judges a line typed at a numbered menu of `count` entries.
pub fn list(input: &str, count: usize) -> (index: Option<usize>)
    ensures
        match index {
            Some(i) => choice(input@, count as nat) == Some(i as int),
            None => choice(input@, count as nat) is None,
        },
{
    let typed = trim(&to_chars(input));
    match parse_decimal(&typed) {
        Some(number) => {
            if number >= 1 && number <= count as u64 {
                Some((number - 1) as usize)
            } else {
                None
            }
        },
        None => None,
    }
}

/// What the main menu offers.
#[derive(Clone, Copy, Debug, PartialEq, Eq, Structural)]
pub enum MenuChoice {
    Commit,
    Clone,
    Init,
    Login,
    Settings,
    Version,
}

/// What the commit menu offers.
#[derive(Clone, Copy, Debug, PartialEq, Eq, Structural)]
pub enum CommitChoice {
    SpecificFiles,
    AllFiles,
}

/// The entry of the main menu that a label stands for.
pub fn menu(label: &str) -> (choice: Option<MenuChoice>)
    ensures
        choice == if label@ == "commit"@ {
            Some(MenuChoice::Commit)
        } else if label@ == "clone"@ {
            Some(MenuChoice::Clone)
        } else if label@ == "init"@ {
            Some(MenuChoice::Init)
        } else if label@ == "login"@ {
            Some(MenuChoice::Login)
        } else if label@ == "settings"@ {
            Some(MenuChoice::Settings)
        } else if label@ == "version"@ {
            Some(MenuChoice::Version)
        } else {
            None
        },
{
    let chars = to_chars(label);
    if chars_are(&chars, "commit") {
        Some(MenuChoice::Commit)
    } else if chars_are(&chars, "clone") {
        Some(MenuChoice::Clone)
    } else if chars_are(&chars, "init") {
        Some(MenuChoice::Init)
    } else if chars_are(&chars, "login") {
        Some(MenuChoice::Login)
    } else if chars_are(&chars, "settings") {
        Some(MenuChoice::Settings)
    } else if chars_are(&chars, "version") {
        Some(MenuChoice::Version)
    } else {
        None
    }
}

/// The entry of the commit menu that a label stands for.
pub fn commit_menu(label: &str) -> (choice: Option<CommitChoice>)
    ensures
        choice == if label@ == "Commit specific files"@ {
            Some(CommitChoice::SpecificFiles)
        } else if label@ == "Commit all files"@ {
            Some(CommitChoice::AllFiles)
        } else {
            None
        },
{
    let chars = to_chars(label);
    if chars_are(&chars, "Commit specific files") {
        Some(CommitChoice::SpecificFiles)
    } else if chars_are(&chars, "Commit all files") {
        Some(CommitChoice::AllFiles)
    } else {
        None
    }
}

} // verus!
