use kilo::editor::Editor;
use kilo::keys::{Action, Key};
use kilo::row::Row;

fn cv(s: &str) -> Vec<char> {
    s.chars().collect()
}

fn sv(v: &Vec<char>) -> String {
    v.iter().collect()
}

#[test]
fn escape_outside_prompt_is_ignored() {
    let mut e = Editor::start(80, 24, Some((cv("f.txt"), cv("abc"))), 0);
    assert_eq!(e.process_key(Key::Escape, 1), Action::Continue);
    assert_eq!(sv(&e.serialize()), "abc");
    assert_eq!(e.dirty, 0);
}

#[test]
fn prompt_ignores_arrow_keys() {
    let mut e = Editor::start(80, 24, None, 0);
    e.process_key(Key::Char('x'), 1);
    e.process_key(Key::CtrlS, 2);
    e.process_key(Key::Char('a'), 3);
    assert_eq!(e.process_key(Key::ArrowLeft, 4), Action::Continue);
    assert!(e.prompt.is_some());
    e.process_key(Key::Enter, 5);
    assert_eq!(e.rows.filename.as_ref().map(|f| sv(f)), Some(String::from("a")));
}

#[test]
fn delete_in_the_middle_of_a_row() {
    let mut e = Editor::start(80, 24, Some((cv("f.txt"), cv("abc"))), 0);
    e.process_key(Key::ArrowRight, 1);
    e.process_key(Key::Delete, 2);
    assert_eq!(sv(&e.serialize()), "ac");
    assert_eq!((e.cursor.cursor_y, e.cursor.cursor_x), (0, 1));
}

#[test]
fn status_bar_truncates_long_left_side() {
    let mut e = Editor::start(10, 24, Some((cv("averylongfilename.txt"), cv("x"))), 0);
    let f = e.compose_frame(1);
    let bar = sv(&f.status_bar);
    assert_eq!(bar.len(), 10);
    assert_eq!(bar, "averylongf");
}

#[test]
fn control_characters_pass_through_rendering() {
    let row = Row::from_content(cv("a\rb"));
    assert_eq!(sv(&row.render), "a\rb");
}

#[test]
fn tab_at_a_stop_pads_a_full_eight_columns() {
    let row = Row::from_content(cv("12345678\tx"));
    assert_eq!(row.render.len(), 17);
    assert_eq!(sv(&row.render), format!("12345678{}x", " ".repeat(8)));
}

#[test]
fn tab_just_before_a_stop_pads_one_space() {
    let row = Row::from_content(cv("1234567\tx"));
    assert_eq!(sv(&row.render), "1234567 x");
}

#[test]
fn page_keys_on_an_empty_buffer_stay_put() {
    let mut e = Editor::start(10, 3, None, 0);
    let _ = e.compose_frame(0);
    assert_eq!(e.process_key(Key::PageDown, 1), Action::Continue);
    assert_eq!((e.cursor.cursor_y, e.cursor.cursor_x), (0, 0));
    assert_eq!(e.process_key(Key::PageUp, 2), Action::Continue);
    assert_eq!((e.cursor.cursor_y, e.cursor.cursor_x), (0, 0));
}

#[test]
fn saving_resets_quit_guard() {
    let mut e = Editor::start(80, 24, Some((cv("f.txt"), cv("a"))), 0);
    e.process_key(Key::Char('x'), 1);
    e.process_key(Key::CtrlQ, 2);
    assert_eq!(e.quit_times, 2);
    assert_eq!(e.process_key(Key::CtrlS, 3), Action::Save);
    let bytes = e.serialize();
    e.note_saved(bytes.len(), 4);
    assert_eq!(e.quit_times, 3);
    assert_eq!(e.dirty, 0);
}

#[test]
fn enter_at_column_zero_inserts_empty_row_above() {
    let mut e = Editor::start(80, 24, Some((cv("f.txt"), cv("abc"))), 0);
    e.process_key(Key::Enter, 1);
    assert_eq!(sv(&e.serialize()), "\nabc");
    assert_eq!((e.cursor.cursor_y, e.cursor.cursor_x), (1, 0));
}

#[test]
fn aborted_save_as_rearms_quit_guard() {
    let mut e = Editor::start(80, 24, None, 0);
    e.process_key(Key::Char('x'), 1);
    e.process_key(Key::CtrlQ, 2);
    assert_eq!(e.quit_times, 2);
    assert_eq!(e.process_key(Key::CtrlS, 3), Action::Continue);
    assert_eq!(e.quit_times, 3);
    assert_eq!(e.process_key(Key::Escape, 4), Action::Continue);
    assert_eq!(e.quit_times, 3);
    e.process_key(Key::CtrlQ, 5);
    let msg: String = match &e.status.text {
        Some(m) => m.iter().collect(),
        None => String::new(),
    };
    assert_eq!(msg, "WARNING!!! File has unsaved changes. Press Ctrl-Q 3 more times to quit.");
}

#[test]
fn prompt_keys_rearm_quit_guard() {
    let mut e = Editor::start(80, 24, None, 0);
    e.process_key(Key::Char('x'), 1);
    e.process_key(Key::CtrlQ, 2);
    assert_eq!(e.quit_times, 2);
    e.process_key(Key::CtrlS, 3);
    e.process_key(Key::Char('a'), 4);
    assert_eq!(e.quit_times, 3);
}

#[test]
fn status_bar_ignores_trailing_slashes_in_the_filename() {
    let mut e = Editor::start(40, 24, Some(("dir/".chars().collect(), cv("x"))), 0);
    let f = e.compose_frame(1);
    let bar = sv(&f.status_bar);
    assert!(bar.starts_with("dir  -- 1 lines of code"));
}

#[test]
fn status_bar_shows_placeholder_for_a_bare_slash() {
    let mut e = Editor::start(40, 24, Some(("/".chars().collect(), cv("x"))), 0);
    let f = e.compose_frame(1);
    let bar = sv(&f.status_bar);
    assert!(bar.starts_with("[Unknown file]  -- 1 lines of code"));
}
