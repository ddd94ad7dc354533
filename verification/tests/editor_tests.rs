use tgh::editor::{
    column_of, get_user_text_input, EditAction, PromptStep, ReturnType, TextInput, TextInputType,
};
use tgh::keys::{KeyCode, KeyEvent, Modifier};

fn typed(text: &str) -> Vec<KeyEvent> {
    text.chars().map(KeyEvent::character).collect()
}

fn ctrl(c: char) -> KeyEvent {
    KeyEvent::new(KeyCode::Char(c), Modifier::Control)
}

fn alt(c: char) -> KeyEvent {
    KeyEvent::new(KeyCode::Char(c), Modifier::Alt)
}

fn editor_with(text: &str, input_type: TextInputType) -> TextInput {
    let mut editor = TextInput::new(0, input_type);
    assert_eq!(editor.feed(&typed(text)), None);
    editor
}

#[test]
fn typing_then_enter_returns_the_text() {
    let mut keys = typed("help");
    keys.push(KeyEvent::plain(KeyCode::Backspace));
    keys.push(KeyEvent::plain(KeyCode::Backspace));
    keys.push(KeyEvent::character('y'));
    keys.push(KeyEvent::plain(KeyCode::Enter));
    assert_eq!(
        get_user_text_input(0, TextInputType::Text, &keys),
        Some(Ok("hey".to_string()))
    );
}

#[test]
fn typed_characters_are_concatenated_in_order() {
    let editor = editor_with("git commit", TextInputType::Text);
    assert_eq!(editor.text(), "git commit");
    assert_eq!(editor.cursor_position, 10);
}

#[test]
fn shifted_characters_are_inserted() {
    let mut editor = TextInput::new(0, TextInputType::Text);
    let action = editor.handle_event(KeyEvent::new(KeyCode::Char('A'), Modifier::Shift));
    assert_eq!(action, EditAction::Redraw { column: 1 });
    assert_eq!(editor.text(), "A");
}

#[test]
fn characters_are_inserted_at_the_cursor() {
    let mut editor = editor_with("ac", TextInputType::Text);
    editor.handle_event(KeyEvent::plain(KeyCode::Left));
    editor.handle_event(KeyEvent::character('b'));
    assert_eq!(editor.text(), "abc");
    assert_eq!(editor.cursor_position, 2);
}

#[test]
fn backspace_removes_the_character_before_the_cursor() {
    let mut editor = editor_with("abc", TextInputType::Text);
    editor.handle_event(KeyEvent::plain(KeyCode::Left));
    let action = editor.handle_event(KeyEvent::plain(KeyCode::Backspace));
    assert_eq!(action, EditAction::Redraw { column: 1 });
    assert_eq!(editor.text(), "ac");
    assert_eq!(editor.cursor_position, 1);
}

#[test]
fn backspace_at_the_start_changes_nothing() {
    let mut editor = editor_with("abc", TextInputType::Text);
    editor.handle_event(ctrl('a'));
    let action = editor.handle_event(KeyEvent::plain(KeyCode::Backspace));
    assert_eq!(action, EditAction::Nothing);
    assert_eq!(editor.text(), "abc");
    assert_eq!(editor.cursor_position, 0);
}

#[test]
fn left_and_right_stop_at_the_ends() {
    let mut editor = editor_with("ab", TextInputType::Text);
    assert_eq!(editor.handle_event(KeyEvent::plain(KeyCode::Right)), EditAction::Nothing);
    assert_eq!(
        editor.handle_event(KeyEvent::plain(KeyCode::Left)),
        EditAction::MoveCursor { column: 1 }
    );
    editor.handle_event(KeyEvent::plain(KeyCode::Left));
    assert_eq!(editor.handle_event(KeyEvent::plain(KeyCode::Left)), EditAction::Nothing);
    assert_eq!(editor.cursor_position, 0);
}

#[test]
fn control_a_and_e_jump_to_the_ends() {
    let mut editor = TextInput::new(7, TextInputType::Text);
    editor.feed(&typed("hello"));
    assert_eq!(editor.handle_event(ctrl('a')), EditAction::MoveCursor { column: 7 });
    assert_eq!(editor.cursor_position, 0);
    assert_eq!(editor.handle_event(ctrl('e')), EditAction::MoveCursor { column: 12 });
    assert_eq!(editor.cursor_position, 5);
}

#[test]
fn control_u_deletes_everything_before_the_cursor() {
    let mut editor = editor_with("hello world", TextInputType::Text);
    for _ in 0..5 {
        editor.handle_event(KeyEvent::plain(KeyCode::Left));
    }
    assert_eq!(editor.handle_event(ctrl('u')), EditAction::Redraw { column: 0 });
    assert_eq!(editor.text(), "world");
    assert_eq!(editor.cursor_position, 0);
}

#[test]
fn control_w_deletes_the_word_before_the_cursor() {
    let mut editor = editor_with("git commit now", TextInputType::Text);
    editor.handle_event(ctrl('w'));
    assert_eq!(editor.text(), "git commit");
    assert_eq!(editor.cursor_position, 10);
    editor.handle_event(ctrl('h'));
    assert_eq!(editor.text(), "git");
    editor.handle_event(ctrl('w'));
    assert_eq!(editor.text(), "");
    assert_eq!(editor.cursor_position, 0);
}

#[test]
fn control_w_keeps_what_stands_behind_the_cursor() {
    let mut editor = editor_with("one two three", TextInputType::Text);
    for _ in 0..6 {
        editor.handle_event(KeyEvent::plain(KeyCode::Left));
    }
    editor.handle_event(ctrl('w'));
    assert_eq!(editor.text(), "one three");
    assert_eq!(editor.cursor_position, 3);
}

#[test]
fn control_w_clears_a_password() {
    let mut editor = editor_with("top secret", TextInputType::Password);
    editor.handle_event(KeyEvent::plain(KeyCode::Left));
    editor.handle_event(ctrl('w'));
    assert_eq!(editor.text(), "");
    assert_eq!(editor.cursor_position, 0);
}

#[test]
fn alt_b_and_f_move_by_words() {
    let mut editor = editor_with("one two three", TextInputType::Text);
    assert_eq!(editor.handle_event(alt('b')), EditAction::MoveCursor { column: 8 });
    editor.handle_event(alt('b'));
    assert_eq!(editor.cursor_position, 4);
    editor.handle_event(alt('b'));
    assert_eq!(editor.cursor_position, 0);
    editor.handle_event(alt('f'));
    assert_eq!(editor.cursor_position, 3);
    editor.handle_event(alt('f'));
    assert_eq!(editor.cursor_position, 7);
    editor.handle_event(alt('f'));
    assert_eq!(editor.cursor_position, 13);
}

#[test]
fn alt_b_and_f_jump_to_the_ends_of_a_password() {
    let mut editor = editor_with("top secret", TextInputType::Password);
    editor.handle_event(alt('b'));
    assert_eq!(editor.cursor_position, 0);
    editor.handle_event(alt('f'));
    assert_eq!(editor.cursor_position, 10);
}

#[test]
fn a_password_is_drawn_as_asterisks() {
    let mut editor = editor_with("hunter2", TextInputType::Password);
    assert_eq!(editor.rendered(), "*******");
    editor.handle_event(KeyEvent::plain(KeyCode::Backspace));
    assert_eq!(editor.rendered(), "******");
    editor.handle_event(ctrl('u'));
    assert_eq!(editor.rendered(), "");
    assert_eq!(editor_with("hunter2", TextInputType::Text).rendered(), "hunter2");
}

#[test]
fn escape_cancels_and_control_c_exits() {
    let mut keys = typed("ab");
    keys.push(KeyEvent::plain(KeyCode::Esc));
    keys.push(KeyEvent::plain(KeyCode::Enter));
    assert_eq!(
        get_user_text_input(0, TextInputType::Text, &keys),
        Some(Err(ReturnType::Cancel))
    );
    let mut keys = typed("ab");
    keys.push(ctrl('c'));
    assert_eq!(
        get_user_text_input(0, TextInputType::Password, &keys),
        Some(Err(ReturnType::Exit))
    );
    assert_eq!(get_user_text_input(0, TextInputType::Text, &typed("ab")), None);
}

#[test]
fn step_tells_the_prompt_what_to_do() {
    let mut editor = TextInput::new(2, TextInputType::Text);
    assert_eq!(
        editor.step(KeyEvent::character('c')),
        PromptStep::Continue(EditAction::Redraw { column: 3 })
    );
    assert_eq!(editor.step(KeyEvent::plain(KeyCode::Enter)), PromptStep::Submit);
    assert_eq!(editor.step(KeyEvent::plain(KeyCode::Esc)), PromptStep::Cancel);
    assert_eq!(editor.step(ctrl('c')), PromptStep::Exit);
    assert_eq!(editor.text(), "c");
}

#[test]
fn unknown_keys_are_ignored() {
    let mut editor = editor_with("ab", TextInputType::Text);
    assert_eq!(editor.handle_event(KeyEvent::plain(KeyCode::Up)), EditAction::Nothing);
    assert_eq!(editor.handle_event(ctrl('x')), EditAction::Nothing);
    assert_eq!(editor.handle_event(alt('x')), EditAction::Nothing);
    assert_eq!(editor.handle_event(KeyEvent::plain(KeyCode::Other)), EditAction::Nothing);
    assert_eq!(editor.text(), "ab");
}

#[test]
fn the_column_stops_at_the_last_column_of_a_terminal() {
    assert_eq!(column_of(3, 4), 7);
    assert_eq!(column_of(65_000, 1_000), 65_535);
    assert_eq!(column_of(usize::MAX, usize::MAX), 65_535);
}

#[test]
fn whitespace_is_what_the_standard_library_calls_whitespace() {
    for code in 0u32..=0x10FFFF {
        if let Some(c) = char::from_u32(code) {
            assert_eq!(tgh::text::char_is_whitespace(c), c.is_whitespace());
        }
    }
}

#[test]
fn strings_and_characters_convert_both_ways() {
    let chars = tgh::text::to_chars("héllo ✓");
    assert_eq!(chars, vec!['h', 'é', 'l', 'l', 'o', ' ', '✓']);
    assert_eq!(tgh::text::to_string(&chars), "héllo ✓");
}

#[test]
fn an_editor_knows_whether_it_is_well_formed() {
    let mut editor = editor_with("abc", TextInputType::Text);
    assert!(editor.is_wf());
    editor.cursor_position = 4;
    assert!(!editor.is_wf());
}
