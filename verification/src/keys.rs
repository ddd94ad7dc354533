//! Key events as the widgets consume them.

use vstd::prelude::*;

verus! {

/// The key that was pressed.
#[derive(Clone, Copy, Debug, PartialEq, Eq, Structural)]
pub enum KeyCode {
    /// A character key, carrying the character it produces.
    Char(char),
    Backspace,
    Left,
    Right,
    Up,
    Down,
    Enter,
    Esc,
    /// Any key the widgets do not react to.
    Other,
}

/// The modifier held while the key was pressed.
#[derive(Clone, Copy, Debug, PartialEq, Eq, Structural)]
pub enum Modifier {
    /// No modifier held.
    Plain,
    Control,
    Alt,
    Shift,
}

/// One keystroke.
#[derive(Clone, Copy, Debug, PartialEq, Eq, Structural)]
pub struct KeyEvent {
    pub code: KeyCode,
    pub modifiers: Modifier,
}

impl KeyEvent {
    /// A keystroke with the given key and modifier.
    pub fn new(code: KeyCode, modifiers: Modifier) -> (event: KeyEvent)
        ensures
            event.code == code,
            event.modifiers == modifiers,
    {
        KeyEvent { code, modifiers }
    }

    /// An unmodified character key.
    pub fn character(c: char) -> (event: KeyEvent)
        ensures
            event.code == KeyCode::Char(c),
            event.modifiers == Modifier::Plain,
    {
        KeyEvent { code: KeyCode::Char(c), modifiers: Modifier::Plain }
    }

    /// An unmodified key.
    pub fn plain(code: KeyCode) -> (event: KeyEvent)
        ensures
            event.code == code,
            event.modifiers == Modifier::Plain,
    {
        KeyEvent { code, modifiers: Modifier::Plain }
    }

    /// True for Control+C, the keystroke that aborts every widget.
    pub open spec fn is_abort(self) -> bool {
        self.modifiers == Modifier::Control && self.code == KeyCode::Char('c')
    }

    /// True for an unmodified Escape, the keystroke that cancels a prompt.
    pub open spec fn is_cancel(self) -> bool {
        self.modifiers == Modifier::Plain && self.code == KeyCode::Esc
    }

    /// True for an unmodified Enter, the keystroke that submits a prompt.
    pub open spec fn is_submit(self) -> bool {
        self.modifiers == Modifier::Plain && self.code == KeyCode::Enter
    }
}

} // verus!
