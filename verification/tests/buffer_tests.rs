use kilo::rows::EditorRows;
use kilo::row::Row;
use kilo::text::dec_of;

fn cv(s: &str) -> Vec<char> {
    s.chars().collect()
}

fn sv(v: &Vec<char>) -> String {
    v.iter().collect()
}

#[test]
fn render_expands_tab_to_next_stop() {
    let row = Row::from_content(cv("a\tb"));
    assert_eq!(sv(&row.render), "a       b");
}

#[test]
fn render_tab_at_origin_is_eight_spaces() {
    let row = Row::from_content(cv("\t"));
    assert_eq!(sv(&row.render), "        ");
}

#[test]
fn render_plain_text_is_unchanged() {
    let row = Row::from_content(cv("hello"));
    assert_eq!(sv(&row.render), "hello");
}

#[test]
fn render_two_tabs() {
    let row = Row::from_content(cv("ab\t\tc"));
    assert_eq!(sv(&row.render), "ab              c");
}

#[test]
fn row_insert_then_delete_restores_content() {
    let mut row = Row::from_content(cv("abc"));
    row.insert_char(1, 'x');
    assert_eq!(sv(&row.content), "axbc");
    assert_eq!(sv(&row.render), "axbc");
    row.delete_char(1);
    assert_eq!(sv(&row.content), "abc");
    assert_eq!(sv(&row.render), "abc");
}

#[test]
fn from_text_splits_on_line_feeds() {
    let r = EditorRows::from_text(cv("f.txt"), &cv("one\ntwo\nthree"));
    assert_eq!(r.number_of_rows(), 3);
    assert_eq!(sv(r.get_row(0)), "one");
    assert_eq!(sv(r.get_row(1)), "two");
    assert_eq!(sv(r.get_row(2)), "three");
}

#[test]
fn from_text_trailing_newline_opens_no_empty_row() {
    let r = EditorRows::from_text(cv("f.txt"), &cv("one\ntwo\n"));
    assert_eq!(r.number_of_rows(), 2);
    assert_eq!(sv(r.get_row(1)), "two");
}

#[test]
fn from_text_empty_file_has_no_rows() {
    let r = EditorRows::from_text(cv("f.txt"), &cv(""));
    assert_eq!(r.number_of_rows(), 0);
}

#[test]
fn from_text_lone_newline_is_one_empty_row() {
    let r = EditorRows::from_text(cv("f.txt"), &cv("\n"));
    assert_eq!(r.number_of_rows(), 1);
    assert_eq!(sv(r.get_row(0)), "");
}

#[test]
fn from_text_keeps_carriage_returns() {
    let r = EditorRows::from_text(cv("f.txt"), &cv("a\r\nb"));
    assert_eq!(r.number_of_rows(), 2);
    assert_eq!(sv(r.get_row(0)), "a\r");
}

#[test]
fn serialize_joins_with_single_newlines() {
    let r = EditorRows::from_text(cv("f.txt"), &cv("one\ntwo\nthree"));
    assert_eq!(sv(&r.serialize()), "one\ntwo\nthree");
}

#[test]
fn save_round_trip_drops_only_trailing_newline() {
    let with_nl = EditorRows::from_text(cv("f.txt"), &cv("alpha\nbeta\n"));
    assert_eq!(sv(&with_nl.serialize()), "alpha\nbeta");
    let without_nl = EditorRows::from_text(cv("f.txt"), &cv("alpha\nbeta"));
    assert_eq!(sv(&without_nl.serialize()), "alpha\nbeta");
}

#[test]
fn insert_row_and_join_adjacent_rows() {
    let mut r = EditorRows::from_text(cv("f.txt"), &cv("foo\nbar"));
    r.insert_row(1, cv("mid"));
    assert_eq!(sv(&r.serialize()), "foo\nmid\nbar");
    r.join_adjacent_rows(1);
    assert_eq!(sv(&r.serialize()), "foomid\nbar");
    assert_eq!(r.number_of_rows(), 2);
}

#[test]
fn join_rerenders_the_merged_row() {
    let mut r = EditorRows::from_text(cv("f.txt"), &cv("a\n\tb"));
    r.join_adjacent_rows(1);
    assert_eq!(sv(r.get_row(0)), "a\tb");
    assert_eq!(sv(r.get_render(0)), "a       b");
}

#[test]
fn decimal_formatting() {
    assert_eq!(sv(&dec_of(0)), "0");
    assert_eq!(sv(&dec_of(7)), "7");
    assert_eq!(sv(&dec_of(10)), "10");
    assert_eq!(sv(&dec_of(907)), "907");
    assert_eq!(sv(&dec_of(120034)), "120034");
}
