use hektor::buffer::{Buffer, Cursor, Viewport};

fn chars(s: &str) -> Vec<char> {
    s.chars().collect()
}

fn wide() -> Viewport {
    Viewport { width: 80, height: 24 }
}

fn buf(lines: &[&str]) -> Buffer {
    Buffer {
        name: String::new(),
        lines: lines.iter().map(|l| chars(l)).collect(),
        cursor: Cursor { col: 0, row: 0, desired_col: 0 },
    }
}

#[test]
fn vertical_moves_track_desired_column() {
    let vp = wide();
    let mut b = buf(&["abcdef", "ab", "abcd"]);
    b.cursor = Cursor { col: 5, row: 0, desired_col: 5 };
    b.cursor_down(vp);
    assert_eq!((b.cursor.row, b.cursor.col), (1, 2));
    b.cursor_down(vp);
    assert_eq!((b.cursor.row, b.cursor.col), (2, 4));
    b.cursor_up(vp);
    assert_eq!((b.cursor.row, b.cursor.col), (1, 2));
    b.cursor_up(vp);
    assert_eq!((b.cursor.row, b.cursor.col), (0, 5));
    assert_eq!(b.cursor.desired_col, 5);
}

#[test]
fn cursor_up_at_top_row_is_noop() {
    let vp = wide();
    let mut b = buf(&["abc", "de"]);
    b.cursor = Cursor { col: 2, row: 0, desired_col: 1 };
    b.cursor_up(vp);
    assert_eq!((b.cursor.row, b.cursor.col, b.cursor.desired_col), (0, 2, 1));
}

#[test]
fn move_left_then_right_restores_position() {
    let vp = wide();
    let mut b = buf(&["abc"]);
    b.cursor = Cursor { col: 2, row: 0, desired_col: 2 };
    b.cursor_left(vp);
    assert_eq!((b.cursor.row, b.cursor.col), (0, 1));
    b.cursor_right(vp);
    assert_eq!((b.cursor.row, b.cursor.col), (0, 2));
}

#[test]
fn move_left_at_column_zero_is_noop() {
    let vp = wide();
    let mut b = buf(&["abc"]);
    b.cursor_left(vp);
    assert_eq!((b.cursor.row, b.cursor.col), (0, 0));
}

#[test]
fn insert_char_inserts_at_cursor_column() {
    let mut b = buf(&["abc"]);
    b.cursor = Cursor { col: 1, row: 0, desired_col: 1 };
    b.insert_char('x');
    assert_eq!(b.lines[0], chars("axbc"));
    assert_eq!(b.lines[0].len(), 4);
    assert_eq!((b.cursor.row, b.cursor.col), (0, 1));
}

#[test]
fn delete_char_at_column_zero_is_noop() {
    let mut b = buf(&["abc"]);
    b.delete_char();
    assert_eq!(b.lines[0], chars("abc"));
    assert_eq!((b.cursor.row, b.cursor.col), (0, 0));
}

#[test]
fn delete_char_removes_before_cursor() {
    let mut b = buf(&["abc"]);
    b.cursor = Cursor { col: 2, row: 0, desired_col: 2 };
    b.delete_char();
    assert_eq!(b.lines[0], chars("ac"));
    assert_eq!(b.lines[0].len(), 2);
}

#[test]
fn insert_line_opens_empty_line_below() {
    let mut b = buf(&["a", "b"]);
    b.insert_line();
    assert_eq!(b.lines, vec![chars("a"), chars(""), chars("b")]);
    assert_eq!(b.cursor.row, 0);
}

#[test]
fn cursor_to_end_sets_column_to_line_length() {
    let mut b = buf(&["hello"]);
    b.cursor_to_end();
    assert_eq!(b.cursor.col, 5);
}

#[test]
fn cursor_to_end_then_start_resets_column() {
    let mut b = buf(&["some longer line"]);
    b.cursor_to_end();
    assert_eq!(b.cursor.col as usize, b.lines[0].len());
    b.cursor_to_start();
    assert_eq!(b.cursor.col, 0);
}

#[test]
fn cursor_right_clamped_by_viewport_width() {
    let vp = Viewport { width: 3, height: 24 };
    let mut b = buf(&["abcdef"]);
    b.cursor = Cursor { col: 3, row: 0, desired_col: 3 };
    b.cursor_right(vp);
    assert_eq!(b.cursor.col, 3);
    assert_eq!(b.cursor.desired_col, 4);
}

#[test]
fn cursor_down_clamped_by_viewport_height() {
    let vp = Viewport { width: 80, height: 3 };
    let mut b = buf(&["a", "b", "c"]);
    b.cursor_down(vp);
    assert_eq!(b.cursor.row, 1);
    b.cursor_down(vp);
    assert_eq!(b.cursor.row, 1);
}

#[test]
fn cursor_down_stops_at_last_line() {
    let vp = wide();
    let mut b = buf(&["a", "b"]);
    b.cursor_down(vp);
    b.cursor_down(vp);
    b.cursor_down(vp);
    assert_eq!(b.cursor.row, 1);
}

#[test]
fn contents_joins_lines_with_newlines() {
    let b = buf(&["ab", "c", "", "d"]);
    assert_eq!(b.contents(), chars("ab\nc\n\nd"));
}

#[test]
fn contents_of_single_line_has_no_newline() {
    let b = buf(&["solo"]);
    assert_eq!(b.contents(), chars("solo"));
}
