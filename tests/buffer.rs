use blackbox::buffer::{Buffer, Direction, Viewport};
use blackbox::cursor::{CursorState, Position};

fn buf(text: &str) -> Buffer {
    Buffer::from_file("/v/n.md".to_string(), text)
}

#[test]
fn new_buffer_is_empty_with_one_line() {
    let b = Buffer::new();
    assert_eq!(b.line_count(), 1);
    assert_eq!(b.line_text(0), Some(String::new()));
    assert_eq!(b.line_text(1), None);
    assert!(b.path.is_none());
    assert!(!b.dirty);
    assert_eq!(b.viewport, Viewport { top_line: 0, height: 24, scroll_off: 5 });
}

#[test]
fn lines_drop_terminators() {
    let b = buf("a\r\nb\n");
    assert_eq!(b.line_count(), 3);
    assert_eq!(b.line_text(0), Some("a".to_string()));
    assert_eq!(b.line_text(1), Some("b".to_string()));
    assert_eq!(b.line_text(2), Some(String::new()));
    assert_eq!(b.contents(), "a\r\nb\n");
}

#[test]
fn edits_move_by_whole_characters() {
    let mut b = buf("héllo\nworld");
    b.move_cursor(Direction::Right);
    b.move_cursor(Direction::Right);
    assert_eq!(b.cursor.col, 3);
    b.insert_char('x');
    assert_eq!(b.contents(), "héxllo\nworld");
    assert_eq!(b.cursor.col, 4);
    assert!(b.dirty);
    b.delete_char_before();
    assert_eq!(b.contents(), "héllo\nworld");
    assert_eq!(b.cursor.col, 3);
    b.delete_char_before();
    assert_eq!(b.contents(), "hllo\nworld");
    assert_eq!(b.cursor.col, 1);
    b.move_cursor(Direction::Left);
    assert_eq!(b.cursor.col, 0);
}

#[test]
fn insert_multibyte_char_advances_by_its_bytes() {
    let mut b = buf("ab");
    b.move_cursor(Direction::LineEnd);
    b.insert_char('€');
    assert_eq!(b.contents(), "ab€");
    assert_eq!(b.cursor.col, 5);
}

#[test]
fn backspace_at_line_start_joins_lines() {
    let mut b = buf("ab\ncd");
    b.move_cursor(Direction::Down);
    assert_eq!((b.cursor.row, b.cursor.col), (1, 0));
    b.delete_char_before();
    assert_eq!(b.contents(), "abcd");
    assert_eq!((b.cursor.row, b.cursor.col), (0, 2));
}

#[test]
fn backspace_at_text_start_does_nothing() {
    let mut b = buf("ab");
    b.delete_char_before();
    assert_eq!(b.contents(), "ab");
    assert!(!b.dirty);
}

#[test]
fn newline_splits_the_line() {
    let mut b = buf("ab");
    b.move_cursor(Direction::Right);
    b.insert_newline();
    assert_eq!(b.contents(), "a\nb");
    assert_eq!((b.cursor.row, b.cursor.col, b.cursor.desired_col), (1, 0, 0));
}

#[test]
fn clamp_keeps_cursor_on_text() {
    let mut b = buf("ab\ncd");
    b.cursor.row = 10;
    b.cursor.col = 99;
    b.clamp_cursor();
    assert_eq!((b.cursor.row, b.cursor.col), (1, 2));
    let mut c = buf("é");
    c.cursor.col = 1;
    c.clamp_cursor();
    assert_eq!(c.cursor.col, 0);
}

#[test]
fn vertical_moves_use_sticky_column() {
    let mut b = buf("abcdef\nab\nabcdef");
    b.move_cursor(Direction::LineEnd);
    assert_eq!(b.cursor.col, 6);
    b.move_cursor(Direction::Down);
    assert_eq!((b.cursor.row, b.cursor.col), (1, 2));
    b.move_cursor(Direction::Down);
    assert_eq!((b.cursor.row, b.cursor.col), (2, 6));
    b.move_cursor(Direction::LineStart);
    assert_eq!(b.cursor.col, 0);
}

#[test]
fn scrolling_keeps_a_margin() {
    let text: Vec<String> = (0..100).map(|i| format!("line {i}")).collect();
    let mut b = buf(&text.join("\n"));
    b.cursor.row = 50;
    b.scroll_to_cursor();
    assert_eq!(b.viewport.top_line, 32);
    b.cursor.row = 34;
    b.scroll_to_cursor();
    assert_eq!(b.viewport.top_line, 29);
    let mut small = buf("a\nb");
    small.viewport.top_line = 1;
    small.scroll_to_cursor();
    assert_eq!(small.viewport.top_line, 0);
}

#[test]
fn move_reports_scrolling() {
    let text: Vec<String> = (0..40).map(|i| format!("{i}")).collect();
    let mut b = buf(&text.join("\n"));
    let mut scrolled = false;
    for _ in 0..18 {
        scrolled |= b.move_cursor(Direction::Down);
    }
    assert!(!scrolled);
    assert!(b.move_cursor(Direction::Down));
    assert_eq!(b.viewport.top_line, 1);
}

#[test]
fn cursor_state_helpers() {
    let mut c = CursorState::new();
    c.move_to(3, 4);
    assert_eq!(c.position(), Position { row: 3, col: 4 });
    assert_eq!(c.desired_col, 4);
    c.selection = Some((Position { row: 0, col: 0 }, Position { row: 1, col: 1 }));
    c.clear_selection();
    assert!(c.selection.is_none());
}

#[test]
fn save_then_reload_round_trip() {
    let mut b = buf("first\r\nsecond\n");
    b.move_cursor(Direction::LineEnd);
    b.insert_char('!');
    let saved = b.contents();
    let reloaded = Buffer::from_file("/v/n.md".to_string(), &saved);
    assert_eq!(reloaded.contents(), saved);
    assert_eq!(saved, "first!\r\nsecond\n");
}

#[test]
fn default_viewport() {
    assert_eq!(Viewport::default(), Viewport { top_line: 0, height: 24, scroll_off: 5 });
}

#[test]
fn backspace_joins_crlf_lines_whole() {
    let mut b = buf("a\r\nb");
    b.move_cursor(Direction::Down);
    b.delete_char_before();
    assert_eq!(b.contents(), "ab");
    assert_eq!((b.cursor.row, b.cursor.col), (0, 1));
}
