use kilo::editor::Editor;
use kilo::keys::{Action, Key};

fn cv(s: &str) -> Vec<char> {
    s.chars().collect()
}

fn sv(v: &Vec<char>) -> String {
    v.iter().collect()
}

fn editor_sized(cols: usize, rows: usize, name: &str, text: &str) -> Editor {
    Editor::start(cols, rows, Some((cv(name), cv(text))), 0)
}

#[test]
fn render_x_reaches_tab_stop_after_crossing_tab() {
    let mut e = editor_sized(80, 24, "f.txt", "a\tb");
    assert_eq!(sv(e.rows.get_render(0)), "a       b");
    assert_eq!(e.process_key(Key::ArrowRight, 1), Action::Continue);
    assert_eq!(e.process_key(Key::ArrowRight, 2), Action::Continue);
    let _ = e.compose_frame(3);
    assert_eq!(e.cursor.render_x, 8);
}

#[test]
fn frame_shows_rows_and_tildes() {
    let mut e = editor_sized(10, 4, "f.txt", "one\ntwo");
    let f = e.compose_frame(1);
    assert_eq!(f.lines.len(), 4);
    assert_eq!(sv(&f.lines[0]), "one");
    assert_eq!(sv(&f.lines[1]), "two");
    assert_eq!(sv(&f.lines[2]), "~");
    assert_eq!(sv(&f.lines[3]), "~");
    assert_eq!(f.cursor_row, 0);
    assert_eq!(f.cursor_col, 0);
}

#[test]
fn welcome_banner_centers_a_third_of_the_way_down() {
    let mut e = Editor::start(40, 24, None, 0);
    let f = e.compose_frame(1);
    assert_eq!(sv(&f.lines[8]), "~    Editor for Juspay Round_B 1.0");
    assert_eq!(sv(&f.lines[7]), "~");
}

#[test]
fn welcome_banner_is_truncated_on_narrow_screens() {
    let mut e = Editor::start(12, 24, None, 0);
    let f = e.compose_frame(1);
    assert_eq!(sv(&f.lines[8]), "Editor for J");
}

#[test]
fn no_banner_once_the_buffer_has_rows() {
    let mut e = editor_sized(40, 24, "f.txt", "x");
    let f = e.compose_frame(1);
    assert_eq!(sv(&f.lines[8]), "~");
}

#[test]
fn scrolling_down_keeps_cursor_on_screen() {
    let mut e = editor_sized(10, 3, "f.txt", "a\nb\nc\nd\ne");
    for k in 0..4 {
        e.process_key(Key::ArrowDown, k);
        let _ = e.compose_frame(k);
    }
    assert_eq!(e.cursor.cursor_y, 4);
    assert_eq!(e.cursor.row_offset, 2);
    let f = e.compose_frame(9);
    assert_eq!(sv(&f.lines[0]), "c");
    assert_eq!(sv(&f.lines[2]), "e");
    assert_eq!(f.cursor_row, 2);
}

#[test]
fn scrolling_right_keeps_cursor_on_screen() {
    let mut e = editor_sized(4, 3, "f.txt", "abcdefgh");
    for k in 0..6 {
        e.process_key(Key::ArrowRight, k);
    }
    let f = e.compose_frame(9);
    assert_eq!(e.cursor.render_x, 6);
    assert_eq!(e.cursor.column_offset, 3);
    assert_eq!(sv(&f.lines[0]), "defg");
    assert_eq!(f.cursor_col, 3);
}

#[test]
fn status_bar_layout_and_contents() {
    let mut e = editor_sized(40, 24, "dir/name.txt", "x");
    let f = e.compose_frame(1);
    let bar = sv(&f.status_bar);
    assert_eq!(bar.len(), 40);
    assert_eq!(bar, "name.txt  -- 1 lines of code         1/1");
}

#[test]
fn status_bar_marks_modified_and_unknown_file() {
    let mut e = Editor::start(50, 24, None, 0);
    e.process_key(Key::Char('x'), 1);
    let f = e.compose_frame(2);
    let bar = sv(&f.status_bar);
    assert_eq!(bar.len(), 50);
    assert!(bar.starts_with("[Unknown file] (modified) -- 1 lines of code"));
    assert!(bar.ends_with("1/1"));
}

#[test]
fn message_bar_shows_then_expires_after_five_seconds() {
    let mut e = Editor::start(80, 24, None, 0);
    let f1 = e.compose_frame(4000);
    assert_eq!(sv(&f1.message_bar), "HELP: Ctrl-S to Save | Ctrl-Q to Quit ");
    let f2 = e.compose_frame(5001);
    assert_eq!(sv(&f2.message_bar), "");
    assert!(e.status.text.is_none());
}

#[test]
fn message_bar_is_truncated_to_screen_width() {
    let mut e = Editor::start(10, 24, None, 0);
    let f = e.compose_frame(0);
    assert_eq!(sv(&f.message_bar), "HELP: Ctrl");
}

#[test]
fn page_down_jumps_to_bottom_of_viewport_and_scrolls() {
    let mut e = editor_sized(10, 3, "f.txt", "a\nb\nc\nd\ne\nf");
    let _ = e.compose_frame(0);
    e.process_key(Key::PageDown, 1);
    assert_eq!(e.cursor.cursor_y, 5);
    let _ = e.compose_frame(2);
    assert_eq!(e.cursor.row_offset, 3);
}

#[test]
fn page_up_jumps_to_top_of_viewport() {
    let mut e = editor_sized(10, 3, "f.txt", "a\nb\nc\nd\ne\nf");
    e.process_key(Key::PageDown, 1);
    let _ = e.compose_frame(2);
    e.process_key(Key::PageUp, 3);
    assert_eq!(e.cursor.cursor_y, 0);
}

#[test]
fn rows_left_of_viewport_show_nothing() {
    let mut e = editor_sized(4, 3, "f.txt", "abcdefgh\nxy");
    for k in 0..8 {
        e.process_key(Key::ArrowRight, k);
    }
    let f = e.compose_frame(9);
    assert_eq!(e.cursor.column_offset, 5);
    assert_eq!(sv(&f.lines[0]), "fgh");
    assert_eq!(sv(&f.lines[1]), "");
}
