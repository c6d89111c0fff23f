use te_editor::editor::{CursorMovement, CursorPosition, DisplayPosition, Editor};

fn chars(s: &str) -> Vec<char> {
    s.chars().collect()
}

#[test]
fn test_moving_cursor_left() {
    let mut editor = Editor::new("...\n...\n...");
    editor.cursor = CursorPosition::new(1, 1);
    editor.move_cursor(CursorMovement::Left);
    assert_eq!(editor.cursor, CursorPosition::new(0, 1));
}

#[test]
fn test_moving_cursor_right() {
    let mut editor = Editor::new("...\n...\n...");
    editor.cursor = CursorPosition::new(1, 1);
    editor.move_cursor(CursorMovement::Right);
    assert_eq!(editor.cursor, CursorPosition::new(2, 1));
}

#[test]
fn test_moving_cursor_up() {
    let mut editor = Editor::new("...\n...\n...");
    editor.cursor = CursorPosition::new(1, 1);
    editor.move_cursor(CursorMovement::Up);
    assert_eq!(editor.cursor, CursorPosition::new(1, 0));
}

#[test]
fn test_moving_cursor_down() {
    let mut editor = Editor::new("...\n...\n...");
    editor.cursor = CursorPosition::new(1, 1);
    editor.move_cursor(CursorMovement::Down);
    assert_eq!(editor.cursor, CursorPosition::new(1, 2));
}

#[test]
fn test_moving_cursor_left_at_edge() {
    let mut editor = Editor::new("...\n...\n...");
    editor.cursor = CursorPosition::new(0, 1);
    editor.move_cursor(CursorMovement::Left);
    assert_eq!(editor.cursor, CursorPosition::new(0, 1));
}

#[test]
fn test_moving_cursor_right_at_edge() {
    let mut editor = Editor::new("...\n...\n...");
    editor.cursor = CursorPosition::new(2, 1);
    editor.move_cursor(CursorMovement::Right);
    assert_eq!(editor.cursor, CursorPosition::new(2, 1));
}

#[test]
fn test_moving_cursor_up_at_edge() {
    let mut editor = Editor::new("...\n...\n...");
    editor.cursor = CursorPosition::new(1, 0);
    editor.move_cursor(CursorMovement::Up);
    assert_eq!(editor.cursor, CursorPosition::new(1, 0));
}

#[test]
fn test_moving_cursor_down_at_edge() {
    let mut editor = Editor::new("...\n...\n...");
    editor.cursor = CursorPosition::new(1, 2);
    editor.move_cursor(CursorMovement::Down);
    assert_eq!(editor.cursor, CursorPosition::new(1, 2));
}

#[test]
fn test_scrolling_down() {
    let mut editor = Editor::new("1\n2\n3\n4\n5");
    editor.set_display_rows(3);
    editor.cursor = CursorPosition::new(0, 2);
    editor.display_position = DisplayPosition::new(0, 0);

    editor.move_cursor(CursorMovement::Down);

    assert_eq!(editor.cursor, CursorPosition::new(0, 2));
    assert_eq!(editor.display_position, DisplayPosition::new(0, 1));
}

#[test]
fn test_scrolling_right() {
    let mut editor = Editor::new("12345");
    editor.set_display_columns(3);
    editor.cursor = CursorPosition::new(2, 0);
    editor.display_position = DisplayPosition::new(0, 0);

    editor.move_cursor(CursorMovement::Right);

    assert_eq!(editor.cursor, CursorPosition::new(2, 0));
    assert_eq!(editor.display_position, DisplayPosition::new(1, 0));
}

#[test]
fn test_scrolling_left() {
    let mut editor = Editor::new("12345");
    editor.cursor = CursorPosition::new(0, 0);
    editor.display_position = DisplayPosition::new(1, 0);

    editor.move_cursor(CursorMovement::Left);

    assert_eq!(editor.cursor, CursorPosition::new(0, 0));
    assert_eq!(editor.display_position, DisplayPosition::new(0, 0));
}

#[test]
fn test_scrolling_up() {
    let mut editor = Editor::new("1\n2\n3\n4\n5");
    editor.cursor = CursorPosition::new(0, 0);
    editor.display_position = DisplayPosition::new(0, 2);

    editor.move_cursor(CursorMovement::Up);

    assert_eq!(editor.cursor, CursorPosition::new(0, 0));
    assert_eq!(editor.display_position, DisplayPosition::new(0, 1));
}

#[test]
fn test_scrolling_down_at_end() {
    let mut editor = Editor::new("1\n2\n3\n4\n5");
    editor.cursor = CursorPosition::new(0, 2);
    editor.display_position.row = 2;
    editor.move_cursor(CursorMovement::Down);
    assert_eq!(editor.cursor, CursorPosition::new(0, 2));
    assert_eq!(editor.display_position, DisplayPosition::new(0, 2));
}

#[test]
fn test_scrolling_up_at_end() {
    let mut editor = Editor::new("1\n2\n3\n4\n5");
    editor.cursor = CursorPosition::new(0, 0);
    editor.move_cursor(CursorMovement::Up);
    assert_eq!(editor.cursor, CursorPosition::new(0, 0));
    assert_eq!(editor.display_position, DisplayPosition::new(0, 0));
}

#[test]
fn test_inserting_a_char() {
    let mut editor = Editor::new("");
    editor.insert('a');
    assert_eq!(editor.contents, chars("a"));
}

#[test]
fn test_inserting_multiple_chars() {
    let mut editor = Editor::new("");
    editor.insert('a');
    editor.insert('b');
    editor.insert('c');
    assert_eq!(editor.contents, chars("abc"));
}

#[test]
fn test_inserting_multiple_lines() {
    let mut editor = Editor::new("");
    editor.insert('a');
    editor.insert('\n');
    editor.insert('b');
    editor.insert('\n');
    editor.insert('c');
    assert_eq!(editor.contents, chars("a\nb\nc"));
}

#[test]
fn test_removing_a_char() {
    let mut editor = Editor::new("abc");
    editor.cursor = CursorPosition::new(2, 0);
    editor.remove();
    assert_eq!(editor.contents, chars("ac"));
}

#[test]
fn test_removing_from_empty_buffer() {
    let mut editor = Editor::new("");
    editor.remove();
    assert_eq!(editor.contents, chars(""));
}

#[test]
fn test_row_length_per_row() {
    let mut editor = Editor::new("one\nseven77\n\nxy");
    assert_eq!(editor.row_length(), 3);
    editor.cursor = CursorPosition::new(0, 1);
    assert_eq!(editor.row_length(), 7);
    editor.cursor = CursorPosition::new(0, 2);
    assert_eq!(editor.row_length(), 0);
    editor.cursor = CursorPosition::new(0, 3);
    assert_eq!(editor.row_length(), 2);
    editor.cursor = CursorPosition::new(0, 4);
    assert_eq!(editor.row_length(), 0);
}

#[test]
fn test_cursor_index_counts_breaks() {
    let mut editor = Editor::new("ab\ncd\nef");
    editor.cursor = CursorPosition::new(1, 2);
    assert_eq!(editor.cursor_index(), 7);
    editor.cursor = CursorPosition::new(0, 0);
    assert_eq!(editor.cursor_index(), 0);
    editor.display_position = DisplayPosition::new(1, 1);
    assert_eq!(editor.cursor_index(), 4);
}

#[test]
fn test_cursor_in_document() {
    let mut editor = Editor::new("ab");
    assert!(editor.cursor_in_document());
    editor.cursor = CursorPosition::new(2, 0);
    assert!(editor.cursor_in_document());
    editor.cursor = CursorPosition::new(3, 0);
    assert!(!editor.cursor_in_document());
    editor.cursor = CursorPosition::new(0, 1);
    assert!(!editor.cursor_in_document());
}

#[test]
fn test_removing_a_line_break_merges_rows() {
    let mut editor = Editor::new("ab\ncd");
    editor.cursor = CursorPosition::new(0, 1);
    editor.remove();
    assert_eq!(editor.contents, chars("abcd"));
    assert_eq!(editor.cursor, CursorPosition::new(2, 0));
}

#[test]
fn test_up_then_down_round_trip() {
    let mut editor = Editor::new("aaa\nbbb\nccc");
    editor.cursor = CursorPosition::new(2, 1);
    editor.move_cursor(CursorMovement::Up);
    editor.move_cursor(CursorMovement::Down);
    assert_eq!(editor.cursor, CursorPosition::new(2, 1));
    assert_eq!(editor.display_position, DisplayPosition::new(0, 0));
}

#[test]
fn test_down_then_up_round_trip() {
    let mut editor = Editor::new("aaa\nbbb\nccc");
    editor.cursor = CursorPosition::new(1, 1);
    editor.move_cursor(CursorMovement::Down);
    editor.move_cursor(CursorMovement::Up);
    assert_eq!(editor.cursor, CursorPosition::new(1, 1));
    assert_eq!(editor.display_position, DisplayPosition::new(0, 0));
}

#[test]
fn test_insert_then_remove_round_trip() {
    let mut editor = Editor::new("hello\nworld");
    editor.cursor = CursorPosition::new(3, 1);
    editor.insert('x');
    editor.remove();
    assert_eq!(editor.contents, chars("hello\nworld"));
    assert_eq!(editor.cursor, CursorPosition::new(3, 1));

    editor.insert('\n');
    editor.remove();
    assert_eq!(editor.contents, chars("hello\nworld"));
    assert_eq!(editor.cursor, CursorPosition::new(3, 1));
}

#[test]
fn test_many_lefts_floor_at_zero() {
    let mut editor = Editor::new("12345");
    editor.cursor = CursorPosition::new(2, 0);
    editor.display_position = DisplayPosition::new(1, 0);
    for _ in 0..10 {
        editor.move_cursor(CursorMovement::Left);
    }
    assert_eq!(editor.cursor, CursorPosition::new(0, 0));
    assert_eq!(editor.display_position, DisplayPosition::new(0, 0));
}

#[test]
fn test_many_rights_stop_at_last_column() {
    // Navigate mode: the cursor rests on the last character.
    let mut editor = Editor::new("12345");
    for _ in 0..10 {
        editor.move_cursor(CursorMovement::Right);
    }
    assert_eq!(editor.cursor, CursorPosition::new(4, 0));
    assert_eq!(editor.display_position, DisplayPosition::new(0, 0));
}
