use wedi::buffer::RopeBuffer;
use wedi::cursor::Cursor;
use wedi::layout::{
    char_width, col_for_visual_exec, expand_tabs_and_build_map, logical_col_to_visual, visual_width,
    wrap_line, LineLayout,
};
use wedi::line_wrapper::LineWrapper;
use wedi::selection::{delete_selection, get_selected_text};
use wedi::view::{Selection, Terminal, View};

fn buffer_with(text: &str) -> RopeBuffer {
    let mut b = RopeBuffer::new(encoding_rs::UTF_8);
    b.insert(0, text);
    b
}

#[test]
fn tab_expands_to_next_stop() {
    let line: Vec<char> = "a\tb".chars().collect();
    let layout = LineLayout::for_line(&line, 80);
    assert_eq!(layout.visual_lines, vec!["a   b".to_string()]);
    assert_eq!(layout.visual_height, 1);
    assert_eq!(layout.logical_to_visual, vec![0, 1, 4, 5]);
}

#[test]
fn expand_map_counts_wide_chars() {
    let line: Vec<char> = "中a".chars().collect();
    let (shown, map) = expand_tabs_and_build_map(&line);
    assert_eq!(shown, line);
    assert_eq!(map, vec![0, 2, 3]);
    assert_eq!(char_width('中'), 2);
    assert_eq!(char_width('\u{7}'), 1);
    assert_eq!(visual_width("a中"), 3);
}

#[test]
fn fitting_line_is_one_sub_line() {
    let d: Vec<char> = "hello".chars().collect();
    assert_eq!(wrap_line(&d, 5), vec!["hello".to_string()]);
    assert_eq!(wrap_line(&d, 0), vec![String::new()]);
    assert_eq!(wrap_line(&Vec::new(), 3), vec![String::new()]);
}

#[test]
fn wrap_is_greedy() {
    let d: Vec<char> = "abcdefg".chars().collect();
    assert_eq!(wrap_line(&d, 3), vec!["abc".to_string(), "def".to_string(), "g".to_string()]);
    let wide: Vec<char> = "中中中".chars().collect();
    assert_eq!(wrap_line(&wide, 1), vec!["中".to_string(), "中".to_string(), "中".to_string()]);
}

#[test]
fn visual_to_logical_round_trip() {
    let line: Vec<char> = "a\tb中c".chars().collect();
    let (_, map) = expand_tabs_and_build_map(&line);
    for c in 0..=line.len() {
        let v = logical_col_to_visual(&line, c);
        let back = col_for_visual_exec(&map, v);
        assert!(back <= c);
        assert_eq!(map[back], v);
    }
    assert_eq!(col_for_visual_exec(&map, 3), 1);
    assert_eq!(col_for_visual_exec(&map, 100), 5);
}

#[test]
fn zero_width_column_maps_to_first() {
    let line: Vec<char> = "a\u{301}b".chars().collect();
    let (_, map) = expand_tabs_and_build_map(&line);
    assert_eq!(map, vec![0, 1, 1, 2]);
    assert_eq!(col_for_visual_exec(&map, logical_col_to_visual(&line, 2)), 1);
}

#[test]
fn page_down_stays_in_tall_line() {
    let text = "x".repeat(200) + "\nend";
    let buffer = buffer_with(&text);
    let view = View::new(&Terminal::with_size(73, 3));
    assert_eq!(view.get_available_width(&buffer), 70);
    assert_eq!(view.calculate_visual_lines_for_row(&buffer, 0).len(), 3);
    let rows = view.get_effective_screen_rows(false);
    assert_eq!(rows, 2);
    let mut cursor = Cursor::new();
    cursor.move_page_down(&buffer, &view, rows);
    assert_eq!(cursor.row, 0);
    assert_eq!(cursor.visual_line_index, 2);
    assert_eq!(cursor.col, 140);
    cursor.move_page_down(&buffer, &view, rows);
    assert_eq!(cursor.row, 1);
    assert_eq!(cursor.visual_line_index, 0);
    cursor.move_page_up(&buffer, &view, rows);
    assert_eq!(cursor.row, 0);
    assert_eq!(cursor.visual_line_index, 1);
}

#[test]
fn vertical_moves_keep_column() {
    let buffer = buffer_with("abcdef\nab\nabcdef");
    let view = View::new(&Terminal::with_size(80, 24));
    let mut cursor = Cursor::new();
    cursor.set_position(&buffer, &view, 0, 5);
    cursor.move_down(&buffer, &view);
    assert_eq!((cursor.row, cursor.col), (1, 2));
    cursor.move_down(&buffer, &view);
    assert_eq!((cursor.row, cursor.col), (2, 5));
    cursor.move_up(&buffer, &view);
    cursor.move_up(&buffer, &view);
    assert_eq!((cursor.row, cursor.col), (0, 5));
    cursor.move_up(&buffer, &view);
    assert_eq!((cursor.row, cursor.col), (0, 5));
}

#[test]
fn horizontal_moves_cross_lines() {
    let buffer = buffer_with("ab\ncd");
    let view = View::new(&Terminal::with_size(80, 24));
    let mut cursor = Cursor::new();
    cursor.move_left(&buffer, &view);
    assert_eq!((cursor.row, cursor.col), (0, 0));
    cursor.move_to_line_end(&buffer, &view);
    assert_eq!(cursor.col, 2);
    cursor.move_right(&buffer, &view);
    assert_eq!((cursor.row, cursor.col), (1, 0));
    cursor.move_left(&buffer, &view);
    assert_eq!((cursor.row, cursor.col), (0, 2));
    cursor.move_to_line(&buffer, &view, 9);
    assert_eq!(cursor.row, 1);
    cursor.move_to_line_end(&buffer, &view);
    cursor.move_right(&buffer, &view);
    assert_eq!((cursor.row, cursor.col), (1, 2));
    assert_eq!(cursor.char_position(&buffer), 5);
}

#[test]
fn cursor_position_on_screen() {
    let buffer = buffer_with("abcdefghij\nxy");
    let view = View::new(&Terminal::with_size(8, 10));
    assert_eq!(view.get_available_width(&buffer), 5);
    let mut cursor = Cursor::new();
    cursor.set_position(&buffer, &view, 0, 7);
    assert_eq!(cursor.visual_line_index, 1);
    assert_eq!(view.get_cursor_visual_position(&cursor, &buffer), (4, 1));
    cursor.set_position(&buffer, &view, 1, 1);
    assert_eq!(view.get_cursor_visual_position(&cursor, &buffer), (3, 2));
    assert_eq!(view.visual_to_logical_col(&buffer, 0, 1, 2), 7);
    assert_eq!(view.visual_to_logical_col(&buffer, 0, 5, 2), 0);
}

#[test]
fn scrolling_follows_cursor() {
    let buffer = buffer_with("1\n2\n3\n4\n5\n6");
    let mut view = View::new(&Terminal::with_size(80, 4));
    let mut cursor = Cursor::new();
    cursor.set_position(&buffer, &view, 5, 0);
    view.scroll_if_needed(&cursor, &buffer, false);
    assert_eq!(view.offset_row, 4);
    cursor.set_position(&buffer, &view, 1, 0);
    view.scroll_if_needed(&cursor, &buffer, false);
    assert_eq!(view.offset_row, 1);
}

#[test]
fn view_settings() {
    let mut view = View::new(&Terminal::with_size(80, 24));
    assert_eq!(view.screen_rows, 23);
    assert_eq!(view.get_effective_screen_rows(true), 22);
    view.toggle_line_numbers();
    assert!(!view.show_line_numbers);
    let buffer = buffer_with("a");
    assert_eq!(view.get_available_width(&buffer), 79);
    view.resize(100, 10);
    assert_eq!(view.screen_rows, 9);
    assert_eq!(view.logical_col_to_visual_col("\tx", 1), 4);
}

#[test]
fn multi_line_selection_delete() {
    let mut buffer = buffer_with("abc\ndef\nghi");
    let view = View::new(&Terminal::with_size(80, 24));
    let mut cursor = Cursor::new();
    let sel = Selection { start: (2, 2), end: (0, 1) };
    assert_eq!(get_selected_text(&buffer, &sel), "bc\ndef\ngh");
    delete_selection(&mut buffer, &mut cursor, &view, &sel);
    assert_eq!(buffer.contents(), "ai");
    assert_eq!(buffer.line_count(), 1);
    assert_eq!((cursor.row, cursor.col), (0, 1));
}

#[test]
fn single_line_selection_text_is_clamped() {
    let buffer = buffer_with("hello\nworld");
    let sel = Selection { start: (1, 1), end: (1, 99) };
    assert_eq!(get_selected_text(&buffer, &sel), "orld");
    let past_end = Selection { start: (0, 3), end: (9, 2) };
    assert_eq!(get_selected_text(&buffer, &past_end), "lo\nwo");
}

#[test]
fn line_wrapper_chunks() {
    let w = LineWrapper::new(3);
    assert_eq!(w.wrap_line("abc"), vec!["abc".to_string()]);
    assert_eq!(w.wrap_line("abcdefg"), vec!["abc".to_string(), "def".to_string(), "g".to_string()]);
}
