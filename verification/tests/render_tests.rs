use te_editor::editor::{
    CursorPosition, DisplayPosition, Editor, EditorAction, InputEvent,
};

fn chars(s: &str) -> Vec<char> {
    s.chars().collect()
}

fn frame_strings(editor: &Editor) -> Vec<String> {
    editor
        .render()
        .lines
        .iter()
        .map(|l| l.iter().collect::<String>())
        .collect()
}

#[test]
fn test_render_shows_viewport_rows() {
    let mut editor = Editor::new("1\n2\n3\n4\n5");
    editor.set_display_rows(3);
    assert_eq!(frame_strings(&editor), vec!["1", "2", "3"]);

    editor.display_position = DisplayPosition::new(0, 1);
    assert_eq!(frame_strings(&editor), vec!["2", "3", "4"]);

    editor.display_position = DisplayPosition::new(0, 4);
    assert_eq!(frame_strings(&editor), vec!["5"]);
}

#[test]
fn test_render_slices_columns() {
    let mut editor = Editor::new("abcdef\nxy");
    editor.set_display_columns(3);
    editor.display_position = DisplayPosition::new(1, 0);
    assert_eq!(frame_strings(&editor), vec!["bcd", "y"]);

    editor.display_position = DisplayPosition::new(4, 0);
    assert_eq!(frame_strings(&editor), vec!["ef", ""]);
}

#[test]
fn test_render_empty_document() {
    let editor = Editor::new("");
    assert_eq!(frame_strings(&editor), Vec::<String>::new());
}

#[test]
fn test_render_clamps_cursor_in_navigate_mode() {
    let mut editor = Editor::new("abc");
    editor.cursor = CursorPosition::new(5, 0);
    let frame = editor.render();
    assert_eq!(frame.cursor_column, 2);
    assert_eq!(frame.cursor_row, 0);
}

#[test]
fn test_render_allows_appending_column_in_edit_mode() {
    let mut editor = Editor::new("abc");
    editor.handle_event(InputEvent::Char('i'));
    editor.cursor = CursorPosition::new(5, 0);
    let frame = editor.render();
    assert_eq!(frame.cursor_column, 3);
}

#[test]
fn test_events_quit_and_save() {
    let mut editor = Editor::new("abc");
    assert_eq!(editor.handle_event(InputEvent::Char('q')), EditorAction::Quit);
    assert_eq!(editor.handle_event(InputEvent::Char('w')), EditorAction::Save);
    assert_eq!(editor.handle_event(InputEvent::Char('z')), EditorAction::Continue);
    assert_eq!(editor.contents, chars("abc"));
}

#[test]
fn test_events_type_a_word() {
    let mut editor = Editor::new("");
    assert_eq!(editor.handle_event(InputEvent::Char('i')), EditorAction::Continue);
    for c in "hi".chars() {
        editor.handle_event(InputEvent::Char(c));
    }
    editor.handle_event(InputEvent::Enter);
    editor.handle_event(InputEvent::Char('o'));
    editor.handle_event(InputEvent::Backspace);
    assert_eq!(editor.contents, chars("hi\n"));
    assert_eq!(editor.cursor, CursorPosition::new(0, 1));
}

#[test]
fn test_events_escape_returns_to_navigate() {
    let mut editor = Editor::new("ab");
    editor.handle_event(InputEvent::Char('i'));
    editor.handle_event(InputEvent::Esc);
    // movement keys work again instead of being inserted
    editor.handle_event(InputEvent::Char('l'));
    assert_eq!(editor.contents, chars("ab"));
    assert_eq!(editor.cursor, CursorPosition::new(1, 0));
}

#[test]
fn test_events_navigate_moves() {
    let mut editor = Editor::new("aaa\nbbb\nccc");
    editor.handle_event(InputEvent::Char('j'));
    editor.handle_event(InputEvent::Char('l'));
    assert_eq!(editor.cursor, CursorPosition::new(1, 1));
    editor.handle_event(InputEvent::Char('k'));
    editor.handle_event(InputEvent::Char('h'));
    assert_eq!(editor.cursor, CursorPosition::new(0, 0));
}

#[test]
fn test_event_right_respects_mode() {
    // Navigate mode stops on the last character; Edit mode goes one past it.
    let mut editor = Editor::new("ab");
    editor.handle_event(InputEvent::Char('l'));
    editor.handle_event(InputEvent::Char('l'));
    assert_eq!(editor.cursor, CursorPosition::new(1, 0));
    editor.handle_event(InputEvent::Char('i'));
    editor.handle_event(InputEvent::Esc);
    editor.handle_event(InputEvent::Char('i'));
    // still in Edit mode: 'l' is inserted, not interpreted
    editor.handle_event(InputEvent::Char('l'));
    assert_eq!(editor.contents, chars("alb"));
}
