use kilo::editor::Editor;
use kilo::keys::{Action, Key};

fn cv(s: &str) -> Vec<char> {
    s.chars().collect()
}

fn sv(v: &Vec<char>) -> String {
    v.iter().collect()
}

fn empty_editor() -> Editor {
    Editor::start(80, 24, None, 0)
}

fn editor_with(name: &str, text: &str) -> Editor {
    Editor::start(80, 24, Some((cv(name), cv(text))), 0)
}

fn message_of(e: &Editor) -> String {
    match &e.status.text {
        Some(m) => sv(m),
        None => String::new(),
    }
}

#[test]
fn typing_then_save_as_then_quit() {
    let mut e = empty_editor();
    assert_eq!(e.process_key(Key::Char('h'), 1), Action::Continue);
    assert_eq!(e.process_key(Key::Char('i'), 2), Action::Continue);
    assert_eq!(e.process_key(Key::Enter, 3), Action::Continue);
    assert_eq!(e.process_key(Key::Char('!'), 4), Action::Continue);
    assert_eq!(e.process_key(Key::CtrlS, 5), Action::Continue);
    assert!(e.prompt.is_some());
    for c in "/tmp/t.txt".chars() {
        assert_eq!(e.process_key(Key::Char(c), 6), Action::Continue);
    }
    assert_eq!(e.process_key(Key::Enter, 7), Action::Save);
    assert_eq!(e.rows.filename.as_ref().map(|f| sv(f)), Some(String::from("/tmp/t.txt")));
    let bytes = e.serialize();
    assert_eq!(sv(&bytes), "hi\n!");
    assert_eq!(bytes.len(), 4);
    e.note_saved(bytes.len(), 8);
    assert_eq!(message_of(&e), "4 bytes written to disk");
    assert_eq!(e.dirty, 0);
    assert_eq!(e.process_key(Key::CtrlQ, 9), Action::Quit);
}

#[test]
fn unsaved_quit_guard_warns_and_counts_down() {
    let mut e = empty_editor();
    e.process_key(Key::Char('x'), 1);
    assert!(e.dirty > 0);
    assert_eq!(e.process_key(Key::CtrlQ, 2), Action::Continue);
    assert_eq!(
        message_of(&e),
        "WARNING!!! File has unsaved changes. Press Ctrl-Q 3 more times to quit."
    );
    assert_eq!(e.process_key(Key::CtrlQ, 3), Action::Continue);
    assert_eq!(
        message_of(&e),
        "WARNING!!! File has unsaved changes. Press Ctrl-Q 2 more times to quit."
    );
    assert_eq!(e.process_key(Key::ArrowUp, 4), Action::Continue);
    assert_eq!(e.quit_times, 3);
    assert_eq!(e.process_key(Key::CtrlQ, 5), Action::Continue);
    assert_eq!(
        message_of(&e),
        "WARNING!!! File has unsaved changes. Press Ctrl-Q 3 more times to quit."
    );
}

#[test]
fn quit_guard_exhausts_after_three_warnings() {
    let mut e = empty_editor();
    e.process_key(Key::Char('x'), 1);
    assert_eq!(e.process_key(Key::CtrlQ, 2), Action::Continue);
    assert_eq!(e.process_key(Key::CtrlQ, 3), Action::Continue);
    assert_eq!(e.process_key(Key::CtrlQ, 4), Action::Continue);
    assert_eq!(e.process_key(Key::CtrlQ, 5), Action::Quit);
}

#[test]
fn clean_buffer_quits_at_once() {
    let mut e = empty_editor();
    assert_eq!(e.process_key(Key::CtrlQ, 1), Action::Quit);
}

#[test]
fn backspace_at_start_of_row_joins_lines() {
    let mut e = editor_with("f.txt", "foo\nbar");
    e.process_key(Key::ArrowDown, 1);
    assert_eq!((e.cursor.cursor_y, e.cursor.cursor_x), (1, 0));
    e.process_key(Key::Backspace, 2);
    assert_eq!(e.rows.number_of_rows(), 1);
    assert_eq!(sv(&e.serialize()), "foobar");
    assert_eq!((e.cursor.cursor_y, e.cursor.cursor_x), (0, 3));
}

#[test]
fn delete_at_end_of_last_row_joins_downward() {
    let mut e = editor_with("f.txt", "a\n\n");
    assert_eq!(e.rows.number_of_rows(), 2);
    e.process_key(Key::ArrowRight, 1);
    assert_eq!((e.cursor.cursor_y, e.cursor.cursor_x), (0, 1));
    e.process_key(Key::Delete, 2);
    assert_eq!(e.rows.number_of_rows(), 1);
    assert_eq!(sv(&e.serialize()), "a");
    assert_eq!((e.cursor.cursor_y, e.cursor.cursor_x), (0, 1));
}

#[test]
fn save_as_aborted_keeps_dirty_and_reports() {
    let mut e = empty_editor();
    e.process_key(Key::Char('x'), 1);
    assert_eq!(e.process_key(Key::CtrlS, 2), Action::Continue);
    assert!(e.prompt.is_some());
    assert_eq!(message_of(&e), "Save as :  (ESC to cancel)");
    assert_eq!(e.process_key(Key::Escape, 3), Action::Continue);
    assert!(e.prompt.is_none());
    assert!(e.dirty > 0);
    assert_eq!(message_of(&e), "Save Aborted");
    assert!(e.rows.filename.is_none());
}

#[test]
fn prompt_echoes_and_edits_scratch_input() {
    let mut e = empty_editor();
    e.process_key(Key::Char('x'), 1);
    e.process_key(Key::CtrlS, 2);
    e.process_key(Key::Char('a'), 3);
    assert_eq!(message_of(&e), "Save as : a (ESC to cancel)");
    e.process_key(Key::Char('b'), 4);
    assert_eq!(message_of(&e), "Save as : ab (ESC to cancel)");
    e.process_key(Key::Backspace, 5);
    assert_eq!(message_of(&e), "Save as : a (ESC to cancel)");
    assert_eq!(e.process_key(Key::Enter, 6), Action::Save);
    assert_eq!(e.rows.filename.as_ref().map(|f| sv(f)), Some(String::from("a")));
}

#[test]
fn prompt_enter_on_empty_scratch_keeps_prompting() {
    let mut e = empty_editor();
    e.process_key(Key::Char('x'), 1);
    e.process_key(Key::CtrlS, 2);
    assert_eq!(e.process_key(Key::Enter, 3), Action::Continue);
    assert!(e.prompt.is_some());
}

#[test]
fn save_with_filename_needs_no_prompt() {
    let mut e = editor_with("f.txt", "abc");
    e.process_key(Key::Char('x'), 1);
    assert_eq!(e.process_key(Key::CtrlS, 2), Action::Save);
    assert!(e.prompt.is_none());
}

#[test]
fn insert_on_virtual_row_appends_and_counts_two() {
    let mut e = empty_editor();
    assert_eq!(e.rows.number_of_rows(), 0);
    e.process_key(Key::Char('x'), 1);
    assert_eq!(e.rows.number_of_rows(), 1);
    assert_eq!(sv(&e.serialize()), "x");
    assert_eq!(e.dirty, 2);
}

#[test]
fn insert_then_backspace_restores_row_dirty_grows_by_two() {
    let mut e = editor_with("f.txt", "abc");
    e.process_key(Key::ArrowRight, 1);
    let before = e.dirty;
    e.process_key(Key::Char('z'), 2);
    assert_eq!(sv(&e.serialize()), "azbc");
    e.process_key(Key::Backspace, 3);
    assert_eq!(sv(&e.serialize()), "abc");
    assert_eq!((e.cursor.cursor_y, e.cursor.cursor_x), (0, 1));
    assert_eq!(e.dirty, before + 2);
}

#[test]
fn newline_splits_row_and_backspace_rejoins() {
    let mut e = editor_with("f.txt", "AB");
    e.process_key(Key::ArrowRight, 1);
    e.process_key(Key::Enter, 2);
    assert_eq!(e.rows.number_of_rows(), 2);
    assert_eq!(sv(e.rows.get_row(0)), "A");
    assert_eq!(sv(e.rows.get_row(1)), "B");
    assert_eq!((e.cursor.cursor_y, e.cursor.cursor_x), (1, 0));
    e.process_key(Key::Backspace, 3);
    assert_eq!(e.rows.number_of_rows(), 1);
    assert_eq!(sv(e.rows.get_row(0)), "AB");
    assert_eq!((e.cursor.cursor_y, e.cursor.cursor_x), (0, 1));
}

#[test]
fn tab_key_inserts_a_tab_character() {
    let mut e = empty_editor();
    e.process_key(Key::Tab, 1);
    assert_eq!(sv(&e.serialize()), "\t");
}

#[test]
fn unbound_keys_are_ignored_but_rearm_quit_guard() {
    let mut e = empty_editor();
    e.process_key(Key::Char('x'), 1);
    e.process_key(Key::CtrlQ, 2);
    assert_eq!(e.quit_times, 2);
    e.process_key(Key::Other, 3);
    assert_eq!(e.quit_times, 3);
    assert_eq!(sv(&e.serialize()), "x");
}

#[test]
fn arrow_left_wraps_to_end_of_previous_row() {
    let mut e = editor_with("f.txt", "foo\nbar");
    e.process_key(Key::ArrowDown, 1);
    e.process_key(Key::ArrowLeft, 2);
    assert_eq!((e.cursor.cursor_y, e.cursor.cursor_x), (0, 3));
}

#[test]
fn arrow_right_wraps_to_start_of_next_row() {
    let mut e = editor_with("f.txt", "ab\ncd");
    e.process_key(Key::End, 1);
    assert_eq!((e.cursor.cursor_y, e.cursor.cursor_x), (0, 2));
    e.process_key(Key::ArrowRight, 2);
    assert_eq!((e.cursor.cursor_y, e.cursor.cursor_x), (1, 0));
}

#[test]
fn moving_to_shorter_row_clamps_column() {
    let mut e = editor_with("f.txt", "longline\nab");
    e.process_key(Key::End, 1);
    assert_eq!(e.cursor.cursor_x, 8);
    e.process_key(Key::ArrowDown, 2);
    assert_eq!((e.cursor.cursor_y, e.cursor.cursor_x), (1, 2));
}

#[test]
fn home_key_returns_to_column_zero() {
    let mut e = editor_with("f.txt", "abc");
    e.process_key(Key::End, 1);
    e.process_key(Key::Home, 2);
    assert_eq!((e.cursor.cursor_y, e.cursor.cursor_x), (0, 0));
}

#[test]
fn cursor_may_rest_one_past_last_row() {
    let mut e = editor_with("f.txt", "a");
    e.process_key(Key::ArrowDown, 1);
    assert_eq!((e.cursor.cursor_y, e.cursor.cursor_x), (1, 0));
    e.process_key(Key::ArrowDown, 2);
    assert_eq!((e.cursor.cursor_y, e.cursor.cursor_x), (1, 0));
}

#[test]
fn delete_past_last_row_is_a_no_op() {
    let mut e = editor_with("f.txt", "a");
    e.process_key(Key::ArrowDown, 1);
    let before = e.dirty;
    e.process_key(Key::Backspace, 2);
    assert_eq!(e.dirty, before);
    assert_eq!(sv(&e.serialize()), "a");
}
