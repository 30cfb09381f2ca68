use hektor::buffer::{Cursor, Viewport};
use hektor::editor::{Hektor, InputEvent, InputMode};

fn chars(s: &str) -> Vec<char> {
    s.chars().collect()
}

fn wide() -> Viewport {
    Viewport { width: 80, height: 24 }
}

fn editor(lines: &[&str]) -> Hektor {
    Hektor::new(
        String::new(),
        lines.iter().map(|l| chars(l)).collect(),
        wide(),
    )
}

fn type_chars(ed: &mut Hektor, s: &str) {
    for c in s.chars() {
        ed.handle_event(InputEvent::Char(c), wide());
    }
}

#[test]
fn new_editor_starts_in_normal_mode_with_given_lines() {
    let ed = editor(&["one", "two"]);
    assert_eq!(ed.input_mode, InputMode::Normal);
    assert_eq!(ed.active_buffer_id, 0);
    assert_eq!(ed.buffers[0].lines, vec![chars("one"), chars("two")]);
    assert_eq!(ed.buffers[0].cursor, Cursor { col: 0, row: 0, desired_col: 0 });
    assert_eq!(ed.status, "Normal");
    assert!(!ed.should_quit);
    assert!(ed.command_queue.is_empty());
}

#[test]
fn new_editor_without_lines_gets_one_empty_line() {
    let ed = Hektor::new(String::new(), Vec::new(), wide());
    assert_eq!(ed.buffers[0].lines, vec![chars("")]);
}

#[test]
fn normal_o_opens_line_and_enters_insert() {
    let mut ed = editor(&["hello"]);
    ed.handle_event(InputEvent::Char('o'), wide());
    assert_eq!(ed.buffers[0].lines, vec![chars("hello"), chars("")]);
    assert_eq!((ed.buffers[0].cursor.row, ed.buffers[0].cursor.col), (1, 0));
    assert_eq!(ed.input_mode, InputMode::Insert);
    assert_eq!(ed.status, "Insert");
}

#[test]
fn command_q_enter_queues_quit_and_drains() {
    let mut ed = editor(&["hello"]);
    ed.handle_event(InputEvent::Char(':'), wide());
    assert_eq!(ed.input_mode, InputMode::Command);
    ed.handle_event(InputEvent::Char('q'), wide());
    ed.handle_event(InputEvent::Enter, wide());
    assert_eq!(ed.command_queue, vec![chars("q")]);
    assert_eq!(ed.command_buffer.lines[0], chars(""));
    assert_eq!(ed.input_mode, InputMode::Normal);
    let writes = ed.handle_command_queue();
    assert!(ed.should_quit);
    assert_eq!(writes, 0);
    assert!(ed.command_queue.is_empty());
}

#[test]
fn insert_backspace_at_origin_is_noop() {
    let mut ed = editor(&[""]);
    ed.handle_event(InputEvent::Char('i'), wide());
    ed.handle_event(InputEvent::Backspace, wide());
    assert_eq!(ed.buffers[0].lines, vec![chars("")]);
    assert_eq!((ed.buffers[0].cursor.row, ed.buffers[0].cursor.col), (0, 0));
}

#[test]
fn normal_navigation_keys_move_cursor() {
    let mut ed = editor(&["abc", "de"]);
    ed.handle_event(InputEvent::Char('l'), wide());
    assert_eq!(ed.buffers[0].cursor.col, 1);
    ed.handle_event(InputEvent::Char('j'), wide());
    assert_eq!(ed.buffers[0].cursor.row, 1);
    ed.handle_event(InputEvent::Char('h'), wide());
    assert_eq!(ed.buffers[0].cursor.col, 0);
    ed.handle_event(InputEvent::Char('k'), wide());
    assert_eq!(ed.buffers[0].cursor.row, 0);
    assert_eq!(ed.input_mode, InputMode::Normal);
}

#[test]
fn normal_i_enters_insert_where_cursor_is() {
    let mut ed = editor(&["hello"]);
    ed.buffers[0].cursor = Cursor { col: 2, row: 0, desired_col: 2 };
    ed.handle_event(InputEvent::Char('i'), wide());
    assert_eq!(ed.input_mode, InputMode::Insert);
    assert_eq!(ed.buffers[0].cursor.col, 2);
    assert_eq!(ed.status, "Insert");
}

#[test]
fn normal_capital_i_enters_insert_at_line_start() {
    let mut ed = editor(&["hello"]);
    ed.buffers[0].cursor = Cursor { col: 3, row: 0, desired_col: 3 };
    ed.handle_event(InputEvent::Char('I'), wide());
    assert_eq!(ed.input_mode, InputMode::Insert);
    assert_eq!(ed.buffers[0].cursor.col, 0);
}

#[test]
fn normal_a_enters_insert_one_right() {
    let mut ed = editor(&["hello"]);
    ed.buffers[0].cursor = Cursor { col: 2, row: 0, desired_col: 2 };
    ed.handle_event(InputEvent::Char('a'), wide());
    assert_eq!(ed.input_mode, InputMode::Insert);
    assert_eq!(ed.buffers[0].cursor.col, 3);
}

#[test]
fn normal_capital_a_enters_insert_at_line_end() {
    let mut ed = editor(&["hello"]);
    ed.handle_event(InputEvent::Char('A'), wide());
    assert_eq!(ed.input_mode, InputMode::Insert);
    assert_eq!(ed.buffers[0].cursor.col, 5);
}

#[test]
fn normal_ignores_unbound_keys() {
    let mut ed = editor(&["hello"]);
    ed.handle_event(InputEvent::Char('z'), wide());
    ed.handle_event(InputEvent::Enter, wide());
    ed.handle_event(InputEvent::Other, wide());
    assert_eq!(ed.input_mode, InputMode::Normal);
    assert_eq!(ed.buffers[0].lines, vec![chars("hello")]);
    assert_eq!(ed.buffers[0].cursor, Cursor { col: 0, row: 0, desired_col: 0 });
}

#[test]
fn insert_typing_inserts_and_advances() {
    let mut ed = editor(&[""]);
    ed.handle_event(InputEvent::Char('i'), wide());
    type_chars(&mut ed, "hi");
    assert_eq!(ed.buffers[0].lines, vec![chars("hi")]);
    assert_eq!(ed.buffers[0].cursor.col, 2);
}

#[test]
fn insert_enter_opens_line_below_without_splitting() {
    let mut ed = editor(&["abc"]);
    ed.buffers[0].cursor = Cursor { col: 1, row: 0, desired_col: 1 };
    ed.handle_event(InputEvent::Char('i'), wide());
    ed.handle_event(InputEvent::Enter, wide());
    assert_eq!(ed.buffers[0].lines, vec![chars("abc"), chars("")]);
    assert_eq!((ed.buffers[0].cursor.row, ed.buffers[0].cursor.col), (1, 0));
}

#[test]
fn insert_backspace_deletes_and_moves_left() {
    let mut ed = editor(&["abc"]);
    ed.buffers[0].cursor = Cursor { col: 2, row: 0, desired_col: 2 };
    ed.handle_event(InputEvent::Char('i'), wide());
    ed.handle_event(InputEvent::Backspace, wide());
    assert_eq!(ed.buffers[0].lines, vec![chars("ac")]);
    assert_eq!(ed.buffers[0].cursor.col, 1);
}

#[test]
fn insert_esc_returns_to_normal() {
    let mut ed = editor(&["abc"]);
    ed.handle_event(InputEvent::Char('i'), wide());
    ed.handle_event(InputEvent::Esc, wide());
    assert_eq!(ed.input_mode, InputMode::Normal);
    assert_eq!(ed.status, "Normal");
}

#[test]
fn unknown_command_reports_status_and_continues() {
    let mut ed = editor(&["hello"]);
    ed.handle_event(InputEvent::Char(':'), wide());
    type_chars(&mut ed, "x q");
    ed.handle_event(InputEvent::Enter, wide());
    let writes = ed.handle_command_queue();
    assert_eq!(ed.status, "Unrecognized command...");
    assert!(ed.should_quit);
    assert_eq!(writes, 0);
}

#[test]
fn command_w_requests_one_write() {
    let mut ed = editor(&["hello"]);
    ed.handle_event(InputEvent::Char(':'), wide());
    ed.handle_event(InputEvent::Char('w'), wide());
    ed.handle_event(InputEvent::Enter, wide());
    let writes = ed.handle_command_queue();
    assert_eq!(writes, 1);
    assert!(!ed.should_quit);
    assert_eq!(ed.status, "Normal");
}

#[test]
fn command_line_splits_on_whitespace() {
    let mut ed = editor(&["hello"]);
    ed.handle_event(InputEvent::Char(':'), wide());
    type_chars(&mut ed, "  w   q ");
    ed.handle_event(InputEvent::Enter, wide());
    assert_eq!(ed.command_queue, vec![chars("w"), chars("q")]);
    let writes = ed.handle_command_queue();
    assert_eq!(writes, 1);
    assert!(ed.should_quit);
}

#[test]
fn command_backspace_removes_last_char() {
    let mut ed = editor(&["hello"]);
    ed.handle_event(InputEvent::Char(':'), wide());
    type_chars(&mut ed, "ab");
    ed.handle_event(InputEvent::Backspace, wide());
    assert_eq!(ed.command_buffer.lines[0], chars("a"));
}

#[test]
fn command_backspace_on_empty_line_is_noop() {
    let mut ed = editor(&["hello"]);
    ed.handle_event(InputEvent::Char(':'), wide());
    ed.handle_event(InputEvent::Backspace, wide());
    assert_eq!(ed.command_buffer.lines[0], chars(""));
    assert_eq!(ed.input_mode, InputMode::Command);
}

#[test]
fn command_esc_clears_line_and_returns_to_normal() {
    let mut ed = editor(&["hello"]);
    ed.handle_event(InputEvent::Char(':'), wide());
    type_chars(&mut ed, "wq");
    ed.handle_event(InputEvent::Esc, wide());
    assert_eq!(ed.input_mode, InputMode::Normal);
    assert_eq!(ed.command_buffer.lines[0], chars(""));
    assert!(ed.command_queue.is_empty());
}

#[test]
fn drain_handles_tokens_in_fifo_order() {
    let mut ed = editor(&["hello"]);
    ed.handle_event(InputEvent::Char(':'), wide());
    type_chars(&mut ed, "w bad w");
    ed.handle_event(InputEvent::Enter, wide());
    let writes = ed.handle_command_queue();
    assert_eq!(writes, 2);
    assert_eq!(ed.status, "Unrecognized command...");
    assert!(!ed.should_quit);
    assert!(ed.command_queue.is_empty());
}
