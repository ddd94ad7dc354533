use tgh::fuzzy::{chars_match, fuzzy_positions};
use tgh::keys::{KeyCode, KeyEvent, Modifier};
use tgh::editor::ReturnType;
use tgh::list::{list, marker_for, row_cells, ListStep, ListView, RowMarker, MAX_ROWS};
use tgh::markup::MarkupColor;
use tgh::window::{offset_for, rows_available, window_size, FALLBACK_ROWS};

fn chars(s: &str) -> Vec<char> {
    s.chars().collect()
}

fn list_of(labels: &[&str], rows: Option<u16>) -> ListView<usize> {
    let entries = labels.iter().enumerate().map(|(i, l)| (i, l.to_string())).collect();
    ListView::new(entries, rows, 0).unwrap()
}

fn matched(list: &ListView<usize>) -> Vec<String> {
    list.items.iter().filter(|i| i.matched).map(|i| i.label.iter().collect()).collect()
}

fn type_into(list: &mut ListView<usize>, text: &str) {
    for c in text.chars() {
        assert_eq!(list.handle_key(KeyEvent::character(c)), ListStep::Continue);
    }
}

fn numbered(n: usize) -> Vec<String> {
    (0..n).map(|i| format!("item {i}")).collect()
}

#[test]
fn an_empty_list_cannot_be_browsed() {
    assert!(matches!(ListView::<u8>::new(Vec::new(), Some(24), 0), Err(ReturnType::Cancel)));
    let keys = vec![KeyEvent::plain(KeyCode::Enter)];
    assert_eq!(list::<u8>(Vec::new(), Some(24), 0, &keys), Some(Err(ReturnType::Cancel)));
    assert_eq!(list::<u8>(Vec::new(), None, 0, &Vec::new()), Some(Err(ReturnType::Cancel)));
}

fn fruit() -> Vec<(&'static str, String)> {
    ["apple", "banana", "grape"].into_iter().map(|f| (f, f.to_string())).collect()
}

fn keys_for(text: &str, last: KeyEvent) -> Vec<KeyEvent> {
    text.chars().map(KeyEvent::character).chain([last]).collect()
}

#[test]
fn a_list_is_run_on_keys() {
    let enter = KeyEvent::plain(KeyCode::Enter);
    assert_eq!(list(fruit(), Some(24), 0, &keys_for("gr", enter)), Some(Ok("grape")));
    assert_eq!(list(fruit(), Some(24), 0, &keys_for("", enter)), Some(Ok("apple")));
    assert_eq!(list(fruit(), Some(24), 0, &keys_for("zzz", enter)), Some(Ok("apple")));
    assert_eq!(list(fruit(), Some(24), 0, &keys_for("an", enter)), Some(Ok("banana")));
    let down = vec![KeyEvent::plain(KeyCode::Down), KeyEvent::plain(KeyCode::Down), enter, enter];
    assert_eq!(list(fruit(), Some(24), 0, &down), Some(Ok("grape")));
    let escape = KeyEvent::plain(KeyCode::Esc);
    assert_eq!(list(fruit(), Some(24), 0, &keys_for("gr", escape)), Some(Err(ReturnType::Cancel)));
    let abort = KeyEvent::new(KeyCode::Char('c'), Modifier::Control);
    assert_eq!(list(fruit(), Some(24), 0, &keys_for("gr", abort)), Some(Err(ReturnType::Exit)));
    let typing: Vec<KeyEvent> = "gr".chars().map(KeyEvent::character).collect();
    assert_eq!(list(fruit(), Some(24), 0, &typing), None);
    let mut view = ListView::new(fruit(), Some(24), 0).unwrap();
    assert_eq!(view.feed(&typing), None);
    assert_eq!(view.selected, 2);
    assert_eq!(view.feed(&vec![enter]), Some(Ok(2)));
}

#[test]
fn a_row_is_drawn_with_its_marker_and_highlights() {
    let mut view = ListView::new(fruit(), Some(24), 0).unwrap();
    view.feed(&"ae".chars().map(KeyEvent::character).collect());
    let rows = view.visible_rows();
    assert_eq!(rows.len(), 2);
    let cells = row_cells(&rows[0], &view.items[rows[0].index].label);
    let text: String = cells.iter().map(|c| c.ch).collect();
    assert_eq!(text, "> apple");
    assert_eq!(cells[0].style.foreground, MarkupColor::Cyan);
    let underlined: Vec<bool> = cells.iter().map(|c| c.style.underlined).collect();
    assert_eq!(underlined, vec![false, false, true, false, false, false, true]);
    let cells = row_cells(&rows[1], &view.items[rows[1].index].label);
    let text: String = cells.iter().map(|c| c.ch).collect();
    assert_eq!(text, "  grape");
    let underlined: Vec<bool> = cells.iter().map(|c| c.style.underlined).collect();
    assert_eq!(underlined, vec![false, false, false, false, true, false, true]);
}

#[test]
fn a_new_list_matches_everything_and_selects_the_first_entry() {
    let list = list_of(&["apple", "banana", "grape"], Some(24));
    assert_eq!(matched(&list), vec!["apple", "banana", "grape"]);
    assert_eq!(list.match_count(), 3);
    assert_eq!(list.selected, 0);
    assert_eq!(list.offset, 0);
    assert_eq!(list.window, 3);
    assert!(list.items.iter().enumerate().all(|(i, item)| item.original_index == i));
}

#[test]
fn filtering_by_gr_leaves_grape_selected() {
    let mut list = list_of(&["apple", "banana", "grape"], Some(24));
    type_into(&mut list, "gr");
    assert_eq!(matched(&list), vec!["grape"]);
    assert_eq!(list.selected, 2);
    assert_eq!(*list.selected_value(), 2);
    assert_eq!(list.filter.text(), "gr");
}

#[test]
fn a_filter_equal_to_a_label_matches_that_label() {
    let mut list = list_of(&["apple", "banana", "grape"], Some(24));
    type_into(&mut list, "banana");
    assert_eq!(matched(&list), vec!["banana"]);
    assert_eq!(list.selected, 1);
}

#[test]
fn a_filter_that_matches_nothing_selects_the_first_entry() {
    let mut list = list_of(&["apple", "banana", "grape"], Some(24));
    list.handle_key(KeyEvent::plain(KeyCode::Down));
    type_into(&mut list, "xyz");
    assert_eq!(list.match_count(), 0);
    assert_eq!(list.selected, 0);
    assert_eq!(list.offset, 0);
    assert!(list.visible_rows().is_empty());
    assert_eq!(list.handle_key(KeyEvent::plain(KeyCode::Down)), ListStep::Continue);
    assert_eq!(list.selected, 0);
}

#[test]
fn deleting_the_filter_brings_the_entries_back() {
    let mut list = list_of(&["apple", "banana", "grape"], Some(24));
    type_into(&mut list, "gr");
    list.handle_key(KeyEvent::plain(KeyCode::Backspace));
    list.handle_key(KeyEvent::plain(KeyCode::Backspace));
    assert_eq!(list.match_count(), 3);
    assert_eq!(list.selected, 2);
}

#[test]
fn matching_ignores_ascii_case_only() {
    assert!(chars_match('a', 'A'));
    assert!(chars_match('Z', 'z'));
    assert!(!chars_match('a', 'b'));
    assert!(!chars_match('é', 'É'));
    assert!(!chars_match('@', '`'));
    assert!(!chars_match('[', '{'));
    let mut list = list_of(&["Apple", "BANANA", "grape"], Some(24));
    type_into(&mut list, "AN");
    assert_eq!(matched(&list), vec!["BANANA"]);
}

#[test]
fn positions_are_the_leftmost_ones() {
    assert_eq!(fuzzy_positions(&chars("aa"), &chars("banana")), Some(vec![1, 3]));
    assert_eq!(fuzzy_positions(&chars("bnn"), &chars("banana")), Some(vec![0, 2, 4]));
    assert_eq!(fuzzy_positions(&chars(""), &chars("banana")), Some(vec![]));
    assert_eq!(fuzzy_positions(&chars("nab"), &chars("banana")), None);
    assert_eq!(fuzzy_positions(&chars("a"), &chars("")), None);
    assert_eq!(fuzzy_positions(&chars("bananas"), &chars("banana")), None);
}

#[test]
fn up_and_down_skip_entries_that_do_not_match() {
    let mut list = list_of(&["alpha", "beta", "gamma", "delta", "eta"], Some(24));
    type_into(&mut list, "et");
    assert_eq!(matched(&list), vec!["beta", "delta", "eta"]);
    assert_eq!(list.selected, 1);
    list.handle_key(KeyEvent::plain(KeyCode::Down));
    assert_eq!(list.selected, 3);
    list.handle_key(KeyEvent::plain(KeyCode::Down));
    assert_eq!(list.selected, 4);
    list.handle_key(KeyEvent::plain(KeyCode::Down));
    assert_eq!(list.selected, 4);
    list.handle_key(KeyEvent::plain(KeyCode::Up));
    list.handle_key(KeyEvent::plain(KeyCode::Up));
    assert_eq!(list.selected, 1);
    list.handle_key(KeyEvent::plain(KeyCode::Up));
    assert_eq!(list.selected, 1);
}

#[test]
fn enter_escape_and_control_c_end_the_list() {
    let mut list = list_of(&["apple", "banana"], Some(24));
    list.handle_key(KeyEvent::plain(KeyCode::Down));
    assert_eq!(list.handle_key(KeyEvent::plain(KeyCode::Enter)), ListStep::Commit);
    assert_eq!(list.handle_key(KeyEvent::plain(KeyCode::Esc)), ListStep::Cancel);
    assert_eq!(
        list.handle_key(KeyEvent::new(KeyCode::Char('c'), Modifier::Control)),
        ListStep::Exit
    );
    assert_eq!(list.selected, 1);
    assert_eq!(list.into_selected(), 1);
}

#[test]
fn the_window_is_bounded_by_the_terminal_the_cap_and_the_entries() {
    assert_eq!(MAX_ROWS, 12);
    assert_eq!(window_size(30, 23, 12), 12);
    assert_eq!(window_size(30, 5, 12), 5);
    assert_eq!(window_size(3, 23, 12), 3);
    assert_eq!(window_size(0, 23, 12), 0);
    assert_eq!(window_size(4, 0, 12), 1);
    assert_eq!(rows_available(Some(24), 1), 23);
    assert_eq!(rows_available(Some(1), 1), 1);
    assert_eq!(rows_available(Some(0), 3), 1);
    assert_eq!(rows_available(None, 1), FALLBACK_ROWS);
    let labels = numbered(30);
    let refs: Vec<&str> = labels.iter().map(|s| s.as_str()).collect();
    assert_eq!(list_of(&refs, None).window, FALLBACK_ROWS);
    assert_eq!(list_of(&refs, Some(8)).window, 7);
}

#[test]
fn the_offset_centres_the_selection_where_it_can() {
    assert_eq!(offset_for(0, 30, 12), 0);
    assert_eq!(offset_for(5, 30, 12), 0);
    assert_eq!(offset_for(6, 30, 12), 1);
    assert_eq!(offset_for(20, 30, 12), 15);
    assert_eq!(offset_for(29, 30, 12), 18);
    assert_eq!(offset_for(2, 3, 1), 2);
    assert_eq!(offset_for(2, 3, 12), 0);
    assert_eq!(offset_for(0, 0, 5), 0);
}

#[test]
fn the_selection_stays_inside_the_window() {
    for window_rows in [2u16, 3, 6, 13, 40] {
        let labels = numbered(30);
        let refs: Vec<&str> = labels.iter().map(|s| s.as_str()).collect();
        let mut list = list_of(&refs, Some(window_rows));
        let keys = [KeyCode::Down; 35].into_iter().chain([KeyCode::Up; 35]);
        for key in keys {
            list.handle_key(KeyEvent::plain(key));
            assert!(list.offset <= list.selected);
            assert!(list.selected < list.offset + list.window);
            assert!(list.offset + list.window <= 30);
        }
    }
}

#[test]
fn the_selection_stays_inside_the_window_of_matching_entries() {
    let labels = numbered(40);
    let refs: Vec<&str> = labels.iter().map(|s| s.as_str()).collect();
    let mut list = list_of(&refs, Some(6));
    type_into(&mut list, "3");
    assert_eq!(list.match_count(), 13);
    for _ in 0..15 {
        list.handle_key(KeyEvent::plain(KeyCode::Down));
        let rows = list.visible_rows();
        assert_eq!(rows.len(), 5);
        assert_eq!(rows.iter().filter(|r| r.marker == RowMarker::Selected).count(), 1);
        assert!(rows.iter().any(|r| r.index == list.selected));
    }
    assert_eq!(list.selected, 39);
}

#[test]
fn rows_carry_markers_and_highlights() {
    let labels = numbered(20);
    let refs: Vec<&str> = labels.iter().map(|s| s.as_str()).collect();
    let mut list = list_of(&refs, Some(5));
    let rows = list.visible_rows();
    let markers: Vec<RowMarker> = rows.iter().map(|r| r.marker).collect();
    assert_eq!(
        markers,
        vec![RowMarker::Selected, RowMarker::Plain, RowMarker::Plain, RowMarker::MoreBelow]
    );
    for _ in 0..10 {
        list.handle_key(KeyEvent::plain(KeyCode::Down));
    }
    let rows = list.visible_rows();
    let shown: Vec<usize> = rows.iter().map(|r| r.index).collect();
    assert_eq!(shown, vec![9, 10, 11, 12]);
    let markers: Vec<RowMarker> = rows.iter().map(|r| r.marker).collect();
    assert_eq!(
        markers,
        vec![RowMarker::MoreAbove, RowMarker::Selected, RowMarker::Plain, RowMarker::MoreBelow]
    );
    type_into(&mut list, "m1");
    let rows = list.visible_rows();
    assert_eq!(rows[0].highlights, vec![3, 5]);
    assert_eq!(marker_for(0, 4, 0, 4, false), RowMarker::Plain);
    assert_eq!(marker_for(3, 4, 2, 6, false), RowMarker::Plain);
    assert_eq!(marker_for(3, 4, 2, 7, false), RowMarker::MoreBelow);
}

#[test]
fn a_list_knows_whether_it_is_well_formed() {
    let mut view = ListView::new(fruit(), Some(24), 0).unwrap();
    assert!(view.is_wf());
    view.feed(&"an".chars().map(KeyEvent::character).collect());
    assert!(view.is_wf());
    view.selected = 0;
    assert!(!view.is_wf());
    view.selected = 1;
    assert!(view.is_wf());
    view.offset = 1;
    assert!(!view.is_wf());
    view.offset = 0;
    view.items[0].matched = true;
    assert!(!view.is_wf());
    view.items[0].matched = false;
    view.window = 0;
    assert!(!view.is_wf());
    view.window = 3;
    view.filter.cursor_position = 9;
    assert!(!view.is_wf());
}
