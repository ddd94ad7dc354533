//! The single-line editor behind text and password prompts.
//!
//! `EditorState` is the mathematical model: a text, a cursor and a masking
//! flag, with one transition per key. `TextInput` is the executable editor;
//! every method is specified by the transition it performs on its view.

use crate::keys::{KeyCode, KeyEvent, Modifier};
use crate::text::{char_is_whitespace, is_whitespace, to_string};
use crate::words::{
    find_whitespace, first_whitespace_from, last_whitespace_before, lemma_first_whitespace_from,
    lemma_last_whitespace_before, rfind_whitespace,
};
use vstd::prelude::*;

verus! {

/// How a prompt ended without a value.
#[derive(Clone, Copy, Debug, PartialEq, Eq, Structural)]
pub enum ReturnType {
    /// The user pressed Escape: go back to where the prompt came from.
    Cancel,
    /// The user pressed Control+C: leave the program.
    Exit,
}

/// Whether the text is shown as typed or hidden behind asterisks.
#[derive(Clone, Copy, Debug, PartialEq, Eq, Structural)]
pub enum TextInputType {
    Text,
    Password,
}

/// What the terminal has to do after a key was handled.
#[derive(Clone, Copy, Debug, PartialEq, Eq, Structural)]
pub enum EditAction {
    /// Nothing changed on screen.
    Nothing,
    /// Only the cursor moved; place it at `column`.
    MoveCursor { column: u16 },
    /// Clear from the prompt's column to the end of the line, draw the
    /// rendered buffer there, then place the cursor at `column`.
    Redraw { column: u16 },
}

/// What a prompt does with one key.
#[derive(Clone, Copy, Debug, PartialEq, Eq, Structural)]
pub enum PromptStep {
    /// The editor handled the key; the terminal follows the action.
    Continue(EditAction),
    /// The prompt ends with the text as it stands.
    Submit,
    /// The prompt ends without a value; the caller goes back.
    Cancel,
    /// The prompt ends without a value; the program exits.
    Exit,
}

/// The editor as a mathematical value.
pub struct EditorState {
    pub text: Seq<char>,
    pub cursor: int,
    pub masked: bool,
}

/// The result of feeding a sequence of keys to an editor.
pub enum Outcome {
    /// The keys ran out before the prompt ended.
    Pending(EditorState),
    /// Enter was pressed; the text at that moment.
    Submitted(Seq<char>),
    /// Escape was pressed.
    Cancelled,
    /// Control+C was pressed.
    Aborted,
}

/// The column on which the cursor stands: `position + cursor`, held at the
/// largest column a terminal can address.
pub open spec fn column_at(position: int, cursor: int) -> int {
    if position + cursor >= 0xFFFF {
        0xFFFF
    } else {
        position + cursor
    }
}

impl EditorState {
    /// An editor with no text.
    pub open spec fn empty(masked: bool) -> EditorState {
        EditorState { text: Seq::empty(), cursor: 0, masked }
    }

    /// The cursor lies within the text.
    pub open spec fn wf(self) -> bool {
        0 <= self.cursor <= self.text.len()
    }

    /// What is drawn for the text: the text itself, or one asterisk per
    /// character when masked.
    pub open spec fn display(self) -> Seq<char> {
        if self.masked {
            Seq::new(self.text.len(), |i: int| '*')
        } else {
            self.text
        }
    }

    pub open spec fn insert(self, c: char) -> EditorState {
        EditorState { text: self.text.insert(self.cursor, c), cursor: self.cursor + 1, ..self }
    }

    pub open spec fn backspace(self) -> EditorState {
        if self.cursor > 0 {
            EditorState { text: self.text.remove(self.cursor - 1), cursor: self.cursor - 1, ..self }
        } else {
            self
        }
    }

    pub open spec fn left(self) -> EditorState {
        if self.cursor > 0 {
            EditorState { cursor: self.cursor - 1, ..self }
        } else {
            self
        }
    }

    pub open spec fn right(self) -> EditorState {
        if self.cursor < self.text.len() {
            EditorState { cursor: self.cursor + 1, ..self }
        } else {
            self
        }
    }

    pub open spec fn home(self) -> EditorState {
        EditorState { cursor: 0, ..self }
    }

    pub open spec fn end(self) -> EditorState {
        EditorState { cursor: self.text.len() as int, ..self }
    }

    /// Deletes everything before the cursor.
    pub open spec fn kill_to_start(self) -> EditorState {
        EditorState {
            text: self.text.subrange(self.cursor, self.text.len() as int),
            cursor: 0,
            ..self
        }
    }

    /// Where a word deletion starts: at the last whitespace before the
    /// cursor, or at the start of the text when there is none.
    pub open spec fn word_cut(self) -> int {
        let p = last_whitespace_before(self.text, self.cursor);
        if p >= 0 {
            p
        } else {
            0
        }
    }

    /// Deletes the word before the cursor; clears a masked text entirely.
    pub open spec fn delete_word(self) -> EditorState {
        if self.masked {
            EditorState { text: Seq::empty(), cursor: 0, ..self }
        } else {
            EditorState {
                text: self.text.subrange(0, self.word_cut()) + self.text.subrange(
                    self.cursor,
                    self.text.len() as int,
                ),
                cursor: self.word_cut(),
                ..self
            }
        }
    }

    /// Where the cursor goes for "previous word": one whitespace directly
    /// before the cursor is stepped over, then the cursor lands behind the
    /// last whitespace before it, or at the start.
    pub open spec fn word_left_target(self) -> int {
        let from = if self.cursor > 0 && is_whitespace(self.text[self.cursor - 1]) {
            self.cursor - 1
        } else {
            self.cursor
        };
        last_whitespace_before(self.text, from) + 1
    }

    /// Where the cursor goes for "next word": one whitespace under the
    /// cursor is stepped over, then the cursor lands on the next whitespace,
    /// or at the end.
    pub open spec fn word_right_target(self) -> int {
        let from = if self.cursor < self.text.len() && is_whitespace(self.text[self.cursor]) {
            self.cursor + 1
        } else {
            self.cursor
        };
        first_whitespace_from(self.text, from)
    }

    /// Moves to the previous word boundary; to the start when masked.
    pub open spec fn word_left(self) -> EditorState {
        if self.masked {
            self.home()
        } else {
            EditorState { cursor: self.word_left_target(), ..self }
        }
    }

    /// Moves to the next word boundary; to the end when masked.
    pub open spec fn word_right(self) -> EditorState {
        if self.masked {
            self.end()
        } else {
            EditorState { cursor: self.word_right_target(), ..self }
        }
    }

    /// The editor after one key.
    pub open spec fn apply(self, event: KeyEvent) -> EditorState {
        match event.modifiers {
            Modifier::Alt => match event.code {
                KeyCode::Char(c) => if c == 'b' {
                    self.word_left()
                } else if c == 'f' {
                    self.word_right()
                } else {
                    self
                },
                _ => self,
            },
            Modifier::Control => match event.code {
                KeyCode::Char(c) => if c == 'a' {
                    self.home()
                } else if c == 'e' {
                    self.end()
                } else if c == 'u' {
                    self.kill_to_start()
                } else if c == 'h' || c == 'w' {
                    self.delete_word()
                } else {
                    self
                },
                _ => self,
            },
            Modifier::Plain => match event.code {
                KeyCode::Backspace => self.backspace(),
                KeyCode::Left => self.left(),
                KeyCode::Right => self.right(),
                KeyCode::Char(c) => self.insert(c),
                _ => self,
            },
            Modifier::Shift => match event.code {
                KeyCode::Char(c) => self.insert(c),
                _ => self,
            },
        }
    }

    /// True when the key makes the terminal draw the buffer again.
    pub open spec fn redraws(self, event: KeyEvent) -> bool {
        match event.modifiers {
            Modifier::Alt => false,
            Modifier::Control => match event.code {
                KeyCode::Char(c) => c == 'u' || c == 'h' || c == 'w',
                _ => false,
            },
            Modifier::Plain => match event.code {
                KeyCode::Backspace => self.cursor > 0,
                KeyCode::Char(c) => true,
                _ => false,
            },
            Modifier::Shift => event.code is Char,
        }
    }

    /// True when the key only makes the terminal move the cursor.
    pub open spec fn moves(self, event: KeyEvent) -> bool {
        match event.modifiers {
            Modifier::Alt => match event.code {
                KeyCode::Char(c) => c == 'b' || c == 'f',
                _ => false,
            },
            Modifier::Control => match event.code {
                KeyCode::Char(c) => c == 'a' || c == 'e',
                _ => false,
            },
            Modifier::Plain => match event.code {
                KeyCode::Left => self.cursor > 0,
                KeyCode::Right => self.cursor < self.text.len(),
                _ => false,
            },
            Modifier::Shift => false,
        }
    }

    /// What the terminal has to do for the key, the prompt ending at column
    /// `position`.
    pub open spec fn action(self, event: KeyEvent, position: int) -> EditAction {
        let column = column_at(position, self.apply(event).cursor) as u16;
        if self.redraws(event) {
            EditAction::Redraw { column }
        } else if self.moves(event) {
            EditAction::MoveCursor { column }
        } else {
            EditAction::Nothing
        }
    }

    /// The result of feeding `events` in order: the first Control+C aborts,
    /// the first unmodified Escape cancels, the first unmodified Enter
    /// submits, every other key edits.
    pub open spec fn run(self, events: Seq<KeyEvent>) -> Outcome
        decreases events.len(),
    {
        if events.len() == 0 {
            Outcome::Pending(self)
        } else if events[0].is_abort() {
            Outcome::Aborted
        } else if events[0].is_cancel() {
            Outcome::Cancelled
        } else if events[0].is_submit() {
            Outcome::Submitted(self.text)
        } else {
            self.apply(events[0]).run(events.drop_first())
        }
    }
}

/// The column for a cursor at `cursor` behind a prompt that ends at
/// `position`.
pub fn column_of(position: usize, cursor: usize) -> (column: u16)
    ensures
        column == column_at(position as int, cursor as int),
{
    if position >= 0xFFFF || cursor >= 0xFFFF - position {
        0xFFFF
    } else {
        (position + cursor) as u16
    }
}

/// A single-line editor: the text typed so far, the cursor within it, the
/// column at which the prompt ended, and whether the text is masked.
#[derive(Debug)]
pub struct TextInput {
    pub input: Vec<char>,
    pub position: usize,
    pub input_type: TextInputType,
    pub cursor_position: usize,
}

impl View for TextInput {
    type V = EditorState;

    open spec fn view(&self) -> EditorState {
        EditorState {
            text: self.input@,
            cursor: self.cursor_position as int,
            masked: self.input_type == TextInputType::Password,
        }
    }
}

impl TextInput {
    /// The cursor lies within the text.
    pub open spec fn wf(&self) -> bool {
        self@.wf()
    }

    /// Decides whether the editor is well-formed.
    pub fn is_wf(&self) -> (valid: bool)
        ensures
            valid == self.wf(),
    {
        self.cursor_position <= self.input.len()
    }

    /// An empty editor behind a prompt that ends at column `position`.
    pub fn new(position: usize, input_type: TextInputType) -> (editor: TextInput)
        ensures
            editor@ == EditorState::empty(input_type == TextInputType::Password),
            editor.position == position,
            editor.input_type == input_type,
            editor.wf(),
    {
        TextInput { input: Vec::new(), position, input_type, cursor_position: 0 }
    }

    /// The text typed so far.
    pub fn text(&self) -> (s: String)
        ensures
            s@ == self@.text,
    {
        to_string(&self.input)
    }

    /// The buffer as it is drawn: the text, or one asterisk per character
    /// for a password. A password's characters are never part of it.
    pub fn rendered(&self) -> (s: String)
        ensures
            s@ == self@.display(),
            self@.masked ==> s@ == Seq::new(self@.text.len(), |i: int| '*'),
    {
        match self.input_type {
            TextInputType::Text => to_string(&self.input),
            TextInputType::Password => {
                let mut stars: Vec<char> = Vec::new();
                let mut i: usize = 0;
                while i < self.input.len()
                    invariant
                        i <= self.input@.len(),
                        stars@ == Seq::new(i as nat, |k: int| '*'),
                    decreases self.input@.len() - i,
                {
                    stars.push('*');
                    i += 1;
                }
                to_string(&stars)
            },
        }
    }

    /// The column on which the cursor stands.
    pub fn column(&self) -> (column: u16)
        ensures
            column == column_at(self.position as int, self@.cursor),
    {
        column_of(self.position, self.cursor_position)
    }

    fn insert(&mut self, c: char)
        requires
            old(self).wf(),
        ensures
            final(self)@ == old(self)@.insert(c),
            final(self).position == old(self).position,
            final(self).input_type == old(self).input_type,
            final(self).wf(),
    {
        self.input.insert(self.cursor_position, c);
        let len = self.input.len();
        assert(self.cursor_position < len);
        self.cursor_position += 1;
    }

    fn word_left(&mut self)
        requires
            old(self).wf(),
        ensures
            final(self)@ == old(self)@.word_left(),
            final(self).position == old(self).position,
            final(self).input_type == old(self).input_type,
            final(self).wf(),
    {
        match self.input_type {
            TextInputType::Text => {
                let mut from: usize = self.cursor_position;
                if from > 0 && char_is_whitespace(self.input[from - 1]) {
                    from -= 1;
                }
                proof {
                    lemma_last_whitespace_before(self.input@, from as int);
                }
                self.cursor_position = match rfind_whitespace(&self.input, from) {
                    Some(p) => p + 1,
                    None => 0,
                };
            },
            TextInputType::Password => {
                self.cursor_position = 0;
            },
        }
    }

    fn word_right(&mut self)
        requires
            old(self).wf(),
        ensures
            final(self)@ == old(self)@.word_right(),
            final(self).position == old(self).position,
            final(self).input_type == old(self).input_type,
            final(self).wf(),
    {
        match self.input_type {
            TextInputType::Text => {
                let mut from: usize = self.cursor_position;
                if from < self.input.len() && char_is_whitespace(self.input[from]) {
                    from += 1;
                }
                self.cursor_position = find_whitespace(&self.input, from);
            },
            TextInputType::Password => {
                self.cursor_position = self.input.len();
            },
        }
    }

    fn kill_to_start(&mut self)
        requires
            old(self).wf(),
        ensures
            final(self)@ == old(self)@.kill_to_start(),
            final(self).position == old(self).position,
            final(self).input_type == old(self).input_type,
            final(self).wf(),
    {
        let tail = self.input.split_off(self.cursor_position);
        self.input = tail;
        self.cursor_position = 0;
    }

    fn delete_word(&mut self)
        requires
            old(self).wf(),
        ensures
            final(self)@ == old(self)@.delete_word(),
            final(self).position == old(self).position,
            final(self).input_type == old(self).input_type,
            final(self).wf(),
    {
        match self.input_type {
            TextInputType::Text => {
                proof {
                    lemma_last_whitespace_before(self.input@, self.cursor_position as int);
                }
                let cut: usize = match rfind_whitespace(&self.input, self.cursor_position) {
                    Some(p) => p,
                    None => 0,
                };
                let mut tail = self.input.split_off(self.cursor_position);
                self.input.truncate(cut);
                self.input.append(&mut tail);
                self.cursor_position = cut;
                assert(self.input@ =~= old(self)@.delete_word().text);
            },
            TextInputType::Password => {
                self.input.clear();
                self.cursor_position = 0;
            },
        }
    }

    /// Handles one key and says what the terminal has to do.
    ///
    /// Keys that end the prompt (Enter, Escape, Control+C) are not the
    /// editor's business: it leaves the text alone for them.
    pub fn handle_event(&mut self, event: KeyEvent) -> (action: EditAction)
        requires
            old(self).wf(),
        ensures
            final(self)@ == old(self)@.apply(event),
            action == old(self)@.action(event, old(self).position as int),
            final(self).position == old(self).position,
            final(self).input_type == old(self).input_type,
            final(self).wf(),
    {
        let mut redraw = false;
        let mut moved = false;
        match event.modifiers {
            Modifier::Alt => match event.code {
                KeyCode::Char(c) => {
                    if c == 'b' {
                        self.word_left();
                        moved = true;
                    } else if c == 'f' {
                        self.word_right();
                        moved = true;
                    }
                },
                _ => {},
            },
            Modifier::Control => match event.code {
                KeyCode::Char(c) => {
                    if c == 'a' {
                        self.cursor_position = 0;
                        moved = true;
                    } else if c == 'e' {
                        self.cursor_position = self.input.len();
                        moved = true;
                    } else if c == 'u' {
                        self.kill_to_start();
                        redraw = true;
                    } else if c == 'h' || c == 'w' {
                        self.delete_word();
                        redraw = true;
                    }
                },
                _ => {},
            },
            Modifier::Plain => match event.code {
                KeyCode::Backspace => {
                    if self.cursor_position > 0 {
                        self.cursor_position -= 1;
                        self.input.remove(self.cursor_position);
                        redraw = true;
                    }
                },
                KeyCode::Left => {
                    if self.cursor_position > 0 {
                        self.cursor_position -= 1;
                        moved = true;
                    }
                },
                KeyCode::Right => {
                    if self.cursor_position < self.input.len() {
                        self.cursor_position += 1;
                        moved = true;
                    }
                },
                KeyCode::Char(c) => {
                    self.insert(c);
                    redraw = true;
                },
                _ => {},
            },
            Modifier::Shift => match event.code {
                KeyCode::Char(c) => {
                    self.insert(c);
                    redraw = true;
                },
                _ => {},
            },
        }
        let column = column_of(self.position, self.cursor_position);
        if redraw {
            EditAction::Redraw { column }
        } else if moved {
            EditAction::MoveCursor { column }
        } else {
            EditAction::Nothing
        }
    }

    /// Handles one key of a prompt: Control+C leaves the program, an
    /// unmodified Escape cancels, an unmodified Enter submits, and every
    /// other key is handed to the editor.
    pub fn step(&mut self, event: KeyEvent) -> (step: PromptStep)
        requires
            old(self).wf(),
        ensures
            step == if event.is_abort() {
                PromptStep::Exit
            } else if event.is_cancel() {
                PromptStep::Cancel
            } else if event.is_submit() {
                PromptStep::Submit
            } else {
                PromptStep::Continue(old(self)@.action(event, old(self).position as int))
            },
            final(self)@ == if event.is_abort() || event.is_cancel() || event.is_submit() {
                old(self)@
            } else {
                old(self)@.apply(event)
            },
            final(self).position == old(self).position,
            final(self).input_type == old(self).input_type,
            final(self).wf(),
    {
        match event.modifiers {
            Modifier::Control => match event.code {
                KeyCode::Char(c) => {
                    if c == 'c' {
                        return PromptStep::Exit;
                    }
                },
                _ => {},
            },
            Modifier::Plain => match event.code {
                KeyCode::Esc => {
                    return PromptStep::Cancel;
                },
                KeyCode::Enter => {
                    return PromptStep::Submit;
                },
                _ => {},
            },
            _ => {},
        }
        PromptStep::Continue(self.handle_event(event))
    }

    /// Feeds `events` in order until one of them ends the prompt.
    ///
    /// `Some(Ok(text))` when Enter was reached, `Some(Err(..))` when Escape
    /// or Control+C was reached first, `None` when the keys ran out; the
    /// editor is then left as the keys made it.
    pub fn feed(&mut self, events: &Vec<KeyEvent>) -> (result: Option<Result<String, ReturnType>>)
        requires
            old(self).wf(),
        ensures
            match old(self)@.run(events@) {
                Outcome::Pending(state) => result is None && final(self)@ == state,
                Outcome::Submitted(text) => result matches Some(Ok(s)) && s@ == text,
                Outcome::Cancelled => result == Some(Err::<String, ReturnType>(ReturnType::Cancel)),
                Outcome::Aborted => result == Some(Err::<String, ReturnType>(ReturnType::Exit)),
            },
            final(self).position == old(self).position,
            final(self).input_type == old(self).input_type,
            final(self).wf(),
    {
        let mut i: usize = 0;
        assert(events@.subrange(0, events@.len() as int) =~= events@);
        while i < events.len()
            invariant
                i <= events@.len(),
                self.wf(),
                self.position == old(self).position,
                self.input_type == old(self).input_type,
                old(self)@.run(events@) == self@.run(events@.subrange(i as int, events@.len() as int)),
            decreases events@.len() - i,
        {
            let ghost rest = events@.subrange(i as int, events@.len() as int);
            assert(rest[0] == events@[i as int]);
            assert(rest.drop_first() =~= events@.subrange(i as int + 1, events@.len() as int));
            match self.step(events[i]) {
                PromptStep::Exit => {
                    return Some(Err(ReturnType::Exit));
                },
                PromptStep::Cancel => {
                    return Some(Err(ReturnType::Cancel));
                },
                PromptStep::Submit => {
                    return Some(Ok(self.text()));
                },
                PromptStep::Continue(_) => {},
            }
            i += 1;
        }
        None
    }
}

/// Runs a prompt on keys that are already known: an empty editor behind a
/// prompt ending at column `position` is fed `events` in order.
pub fn get_user_text_input(position: usize, input_type: TextInputType, events: &Vec<KeyEvent>) -> (result:
    Option<Result<String, ReturnType>>)
    ensures
        match EditorState::empty(input_type == TextInputType::Password).run(events@) {
            Outcome::Pending(_) => result is None,
            Outcome::Submitted(text) => result matches Some(Ok(s)) && s@ == text,
            Outcome::Cancelled => result == Some(Err::<String, ReturnType>(ReturnType::Cancel)),
            Outcome::Aborted => result == Some(Err::<String, ReturnType>(ReturnType::Exit)),
        },
{
    let mut text_input = TextInput::new(position, input_type);
    text_input.feed(events)
}

/// The keystroke that types `c`: the unmodified character key.
pub open spec fn char_key(c: char) -> KeyEvent {
    KeyEvent { code: KeyCode::Char(c), modifiers: Modifier::Plain }
}

/// The keystrokes that type `chars`: one unmodified character key each.
pub open spec fn typed(chars: Seq<char>) -> Seq<KeyEvent> {
    Seq::new(chars.len(), |i: int| char_key(chars[i]))
}

/// Every key keeps the cursor within the text and leaves the masking flag
/// alone.
pub proof fn lemma_apply_preserves_wf(state: EditorState, event: KeyEvent)
    requires
        state.wf(),
    ensures
        state.apply(event).wf(),
        state.apply(event).masked == state.masked,
{
    lemma_last_whitespace_before(state.text, state.cursor);
    if state.cursor > 0 {
        lemma_last_whitespace_before(state.text, state.cursor - 1);
    }
    lemma_first_whitespace_from(state.text, state.cursor);
    if state.cursor < state.text.len() {
        lemma_first_whitespace_from(state.text, state.cursor + 1);
    }
}

/// A key types a character when it is a character key with no modifier
/// or with Shift. (With Control or Alt a character key is a command.)
pub open spec fn is_typing(event: KeyEvent) -> bool {
    event.code is Char && (event.modifiers == Modifier::Plain || event.modifiers
        == Modifier::Shift)
}

/// The character of a character key.
pub open spec fn typed_char(event: KeyEvent) -> char {
    match event.code {
        KeyCode::Char(c) => c,
        _ => ' ',
    }
}

/// The characters of a sequence of character keys, in order.
pub open spec fn typed_chars(events: Seq<KeyEvent>) -> Seq<char> {
    Seq::new(events.len(), |i: int| typed_char(events[i]))
}

/// Keys that type characters, with nothing else in between, put exactly
/// those characters at the cursor, in order, and leave the cursor behind
/// them. In an empty editor the text is then the characters typed and the
/// cursor is their number.
pub proof fn law_typing_inserts_in_order(state: EditorState, events: Seq<KeyEvent>)
    requires
        state.wf(),
        forall|i: int| 0 <= i < events.len() ==> is_typing(#[trigger] events[i]),
    ensures
        state.run(events) == Outcome::Pending(
            EditorState {
                text: state.text.subrange(0, state.cursor) + typed_chars(events)
                    + state.text.subrange(state.cursor, state.text.len() as int),
                cursor: state.cursor + events.len(),
                masked: state.masked,
            },
        ),
        EditorState::empty(state.masked).run(events) == Outcome::Pending(
            EditorState {
                text: typed_chars(events),
                cursor: events.len() as int,
                masked: state.masked,
            },
        ),
{
    lemma_typing(state, events);
    let e = EditorState::empty(state.masked);
    lemma_typing(e, events);
    assert(e.text.subrange(0, e.cursor) + typed_chars(events) + e.text.subrange(
        e.cursor,
        e.text.len() as int,
    ) =~= typed_chars(events));
}

proof fn lemma_typing(state: EditorState, events: Seq<KeyEvent>)
    requires
        state.wf(),
        forall|i: int| 0 <= i < events.len() ==> is_typing(#[trigger] events[i]),
    ensures
        state.run(events) == Outcome::Pending(
            EditorState {
                text: state.text.subrange(0, state.cursor) + typed_chars(events)
                    + state.text.subrange(state.cursor, state.text.len() as int),
                cursor: state.cursor + events.len(),
                masked: state.masked,
            },
        ),
    decreases events.len(),
{
    let before = state.text.subrange(0, state.cursor);
    let after = state.text.subrange(state.cursor, state.text.len() as int);
    let chars = typed_chars(events);
    if events.len() == 0 {
        assert(before + chars + after =~= state.text);
    } else {
        assert(is_typing(events[0]));
        let next = state.insert(typed_char(events[0]));
        assert(state.apply(events[0]) == next);
        let rest = events.drop_first();
        assert forall|i: int| 0 <= i < rest.len() implies is_typing(#[trigger] rest[i]) by {
            assert(rest[i] == events[i + 1]);
        }
        lemma_typing(next, rest);
        assert(next.text.subrange(0, next.cursor) + typed_chars(rest) + next.text.subrange(
            next.cursor,
            next.text.len() as int,
        ) =~= before + chars + after);
    }
}

/// The keystrokes that type `chars` type them: fed to an editor, they put
/// `chars` at the cursor.
pub proof fn law_typed_keys_type(chars: Seq<char>)
    ensures
        forall|i: int| 0 <= i < typed(chars).len() ==> is_typing(#[trigger] typed(chars)[i]),
        typed_chars(typed(chars)) == chars,
{
    assert(typed_chars(typed(chars)) =~= chars);
}

/// Backspace with the cursor behind at least one character removes the
/// character before the cursor: the text is one shorter and the cursor one
/// further left. With the cursor at the start it changes nothing.
pub proof fn law_backspace(state: EditorState)
    requires
        state.wf(),
    ensures
        state.cursor > 0 ==> {
            &&& state.backspace().text == state.text.remove(state.cursor - 1)
            &&& state.backspace().text.len() == state.text.len() - 1
            &&& state.backspace().cursor == state.cursor - 1
        },
        state.cursor == 0 ==> state.backspace() == state,
        state.apply(KeyEvent { code: KeyCode::Backspace, modifiers: Modifier::Plain })
            == state.backspace(),
{
}

/// No change goes undrawn: a key that changes the text makes the terminal
/// draw the buffer again, from the prompt's column on, and a key that only
/// moves the cursor makes the terminal move it.
pub proof fn law_changes_are_drawn(state: EditorState, event: KeyEvent, position: int)
    requires
        state.wf(),
    ensures
        state.apply(event).text != state.text ==> state.action(event, position) is Redraw,
        state.apply(event).cursor != state.cursor ==> !(state.action(event, position) is Nothing),
        state.action(event, position) is Nothing ==> state.apply(event) == state,
{
}

/// A masked editor stays masked whatever is typed or deleted, and what it
/// draws is one asterisk per character of the text, never the text.
pub proof fn law_masked_display(state: EditorState, events: Seq<KeyEvent>)
    requires
        state.wf(),
        state.masked,
    ensures
        state.display() == Seq::new(state.text.len(), |i: int| '*'),
        state.run(events) matches Outcome::Pending(reached) ==> {
            &&& reached.wf()
            &&& reached.masked
            &&& reached.display() == Seq::new(reached.text.len(), |i: int| '*')
        },
    decreases events.len(),
{
    if events.len() > 0 && !events[0].is_abort() && !events[0].is_cancel()
        && !events[0].is_submit() {
        lemma_apply_preserves_wf(state, events[0]);
        law_masked_display(state.apply(events[0]), events.drop_first());
    }
}

} // verus!
