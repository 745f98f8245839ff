use rgx::input::editor::Editor;

#[test]
fn test_insert_and_content() {
    let mut editor = Editor::new();
    editor.insert_char('h');
    editor.insert_char('i');
    assert_eq!(editor.content(), "hi");
    assert_eq!(editor.cursor(), 2);
}

#[test]
fn test_delete_back() {
    let mut editor = Editor::with_content("hello".to_string());
    editor.delete_back();
    assert_eq!(editor.content(), "hell");
}

#[test]
fn test_cursor_movement() {
    let mut editor = Editor::with_content("hello".to_string());
    editor.move_left();
    assert_eq!(editor.cursor(), 4);
    editor.move_home();
    assert_eq!(editor.cursor(), 0);
    editor.move_end();
    assert_eq!(editor.cursor(), 5);
}

#[test]
fn test_insert_newline() {
    let mut editor = Editor::new();
    editor.insert_char('a');
    editor.insert_newline();
    editor.insert_char('b');
    assert_eq!(editor.content(), "a\nb");
    assert_eq!(editor.cursor(), 3);
}

#[test]
fn test_cursor_line_col() {
    let editor = Editor::with_content("abc\ndef\nghi".to_string());
    assert_eq!(editor.cursor_line_col(), (2, 3));
}

#[test]
fn test_move_up_down() {
    let mut editor = Editor::with_content("abc\ndef\nghi".to_string());
    editor.move_up();
    assert_eq!(editor.cursor_line_col(), (1, 3));
    assert_eq!(&editor.content()[..editor.cursor()], "abc\ndef");
    editor.move_up();
    assert_eq!(editor.cursor_line_col(), (0, 3));
    assert_eq!(&editor.content()[..editor.cursor()], "abc");
    editor.move_up();
    assert_eq!(editor.cursor_line_col(), (0, 3));
    editor.move_down();
    assert_eq!(editor.cursor_line_col(), (1, 3));
}

#[test]
fn test_move_up_clamps_column() {
    let mut editor = Editor::with_content("abcdef\nab\nxyz".to_string());
    editor.move_up();
    assert_eq!(editor.cursor_line_col(), (1, 2));
    editor.move_up();
    assert_eq!(editor.cursor_line_col(), (0, 2));
}

#[test]
fn test_line_helpers() {
    let editor = Editor::with_content("abc\ndef\nghi".to_string());
    assert_eq!(editor.line_count(), 3);
    assert_eq!(editor.line_content(0), "abc");
    assert_eq!(editor.line_content(1), "def");
    assert_eq!(editor.line_content(2), "ghi");
}

#[test]
fn test_home_end_multiline() {
    let mut editor = Editor::with_content("abc\ndef".to_string());
    editor.move_home();
    assert_eq!(editor.cursor(), 4);
    assert_eq!(editor.cursor_line_col(), (1, 0));
    editor.move_end();
    assert_eq!(editor.cursor(), 7);
    assert_eq!(editor.cursor_line_col(), (1, 3));
}

#[test]
fn test_vertical_scroll() {
    let mut editor = Editor::with_content("a\nb\nc\nd\ne".to_string());
    editor.update_vertical_scroll(3);
    assert_eq!(editor.vertical_scroll(), 2);
}

#[test]
fn test_delete_back_across_newline() {
    let mut editor = Editor::with_content("abc\ndef".to_string());
    // put the cursor at the start of "def" (byte 4)
    editor.move_home();
    assert_eq!(editor.cursor(), 4);
    editor.delete_back();
    assert_eq!(editor.content(), "abcdef");
    assert_eq!(editor.cursor(), 3);
}

#[test]
fn cursor_counts_utf8_bytes() {
    let mut editor = Editor::with_content("é€😀".to_string());
    assert_eq!(editor.cursor(), 2 + 3 + 4);
    editor.move_left();
    assert_eq!(editor.cursor(), 5);
    editor.delete_back();
    assert_eq!(editor.content(), "é😀");
    assert_eq!(editor.cursor(), 2);
}

#[test]
fn wide_characters_keep_their_column_on_move_up() {
    let mut editor = Editor::with_content("你好x\nabcd".to_string());
    editor.move_up();
    // column 4 on the lower line lands after the two wide characters
    assert_eq!(editor.cursor_line_col(), (0, 4));
}

#[test]
fn horizontal_scroll_follows_cursor() {
    let mut editor = Editor::with_content("abcdefghij".to_string());
    editor.update_scroll(4);
    assert_eq!(editor.scroll_offset(), 7);
    assert_eq!(editor.visual_cursor(), 3);
    editor.move_home();
    assert_eq!(editor.scroll_offset(), 0);
}

#[test]
fn delete_forward_at_end_keeps_content() {
    let mut editor = Editor::with_content("ab".to_string());
    editor.delete_forward();
    assert_eq!(editor.content(), "ab");
    editor.move_left();
    editor.delete_forward();
    assert_eq!(editor.content(), "a");
    assert_eq!(editor.cursor(), 1);
}
