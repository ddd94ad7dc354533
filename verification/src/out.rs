//! Escape sequences that colour and embolden a message on a terminal.

use vstd::prelude::*;
use vstd::string::StringExecFns;

verus! {

/// The colours a message can be written in.
#[derive(Clone, Copy, Debug, PartialEq, Eq, Structural)]
pub enum Color {
    Red,
    Green,
    Yellow,
    Blue,
    Magenta,
    Cyan,
    White,
    Black,
}

/// The number by which a terminal knows a foreground colour, in decimal.
pub open spec fn color_code(color: Color) -> Seq<char> {
    match color {
        Color::Red => "31"@,
        Color::Green => "32"@,
        Color::Yellow => "33"@,
        Color::Blue => "34"@,
        Color::Magenta => "35"@,
        Color::Cyan => "36"@,
        Color::White => "37"@,
        Color::Black => "30"@,
    }
}

/// `message` between the sequence that starts an effect and the sequence
/// that resets every effect.
pub open spec fn wrapped(start: Seq<char>, message: Seq<char>) -> Seq<char> {
    start + message + "\x1B[m"@
}

fn wrap(start: &str, message: &str) -> (s: String)
    ensures
        s@ == wrapped(start@, message@),
{
    String::from_str(start).concat(message).concat("\x1B[m")
}

/// The message in bold red.
pub fn format_error(message: &str) -> (s: String)
    ensures
        s@ == wrapped("\x1B[1;31m"@, message@),
{
    wrap("\x1B[1;31m", message)
}

/// The message in bold green.
pub fn format_success(message: &str) -> (s: String)
    ensures
        s@ == wrapped("\x1B[1;32m"@, message@),
{
    wrap("\x1B[1;32m", message)
}

/// The message dimmed.
pub fn format_dim(message: &str) -> (s: String)
    ensures
        s@ == wrapped("\x1B[2m"@, message@),
{
    wrap("\x1B[2m", message)
}

/// The message in bold.
pub fn format_bold(message: &str) -> (s: String)
    ensures
        s@ == wrapped("\x1B[1m"@, message@),
{
    wrap("\x1B[1m", message)
}

/// The message underlined.
pub fn format_underline(message: &str) -> (s: String)
    ensures
        s@ == wrapped("\x1B[4m"@, message@),
{
    wrap("\x1B[4m", message)
}

/// The message in the given colour.
pub fn format_color(message: &str, color: Color) -> (s: String)
    ensures
        s@ == wrapped("\x1B["@ + color_code(color) + "m"@, message@),
{
    let code = match color {
        Color::Red => "31",
        Color::Green => "32",
        Color::Yellow => "33",
        Color::Blue => "34",
        Color::Magenta => "35",
        Color::Cyan => "36",
        Color::White => "37",
        Color::Black => "30",
    };
    let start = String::from_str("\x1B[").concat(code).concat("m");
    wrap(start.as_str(), message)
}

} // verus!
