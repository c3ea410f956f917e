use wedi::buffer::{EncodingConfig, RopeBuffer};
use wedi::config::{Command, Direction};
use wedi::editor::{Editor, Notice, Request};
use wedi::view::Terminal;
use wedi::keymap::{handle_key_event, KeyCode, KeyEvent, KeyModifiers};

fn editor_with(text: &str, path: Option<&str>) -> Editor {
    let config = EncodingConfig { read_encoding: None, save_encoding: None };
    let buffer = match path {
        Some(p) => RopeBuffer::from_contents(p, Some(text.as_bytes().to_vec()), &config, encoding_rs::UTF_8),
        None => {
            let mut b = RopeBuffer::new(encoding_rs::UTF_8);
            if !text.is_empty() {
                b.insert(0, text);
            }
            b
        }
    };
    Editor::new(buffer, Terminal::with_size(80, 24), path, false)
}

#[test]
fn typing_and_undo_through_commands() {
    let mut e = editor_with("", None);
    for c in "hello".chars() {
        e.handle_command(Command::Insert(c));
    }
    assert_eq!(e.buffer.contents(), "hello");
    assert_eq!(e.cursor.col, 5);
    e.handle_command(Command::Insert('\n'));
    assert_eq!((e.cursor.row, e.cursor.col), (1, 0));
    e.handle_command(Command::Undo);
    assert_eq!(e.buffer.contents(), "hello");
    assert_eq!(e.message, Some(Notice::Undone));
    for _ in 0..5 {
        e.handle_command(Command::Undo);
    }
    assert_eq!(e.buffer.contents(), "");
    assert_eq!(e.cursor.col, 0);
    e.handle_command(Command::Undo);
    assert_eq!(e.message, Some(Notice::NothingToUndo));
    e.handle_command(Command::Redo);
    assert_eq!(e.buffer.contents(), "h");
}

#[test]
fn backspace_joins_rows() {
    let mut e = editor_with("ab\ncd", None);
    e.handle_command(Command::MoveDown);
    e.handle_command(Command::MoveHome);
    e.handle_command(Command::Backspace);
    assert_eq!(e.buffer.contents(), "abcd");
    assert_eq!((e.cursor.row, e.cursor.col), (0, 2));
    e.handle_command(Command::Backspace);
    assert_eq!(e.buffer.contents(), "acd");
    e.handle_command(Command::Delete);
    assert_eq!(e.buffer.contents(), "ad");
}

#[test]
fn selection_replace_and_copy_paste() {
    let mut e = editor_with("hello world", None);
    for _ in 0..5 {
        e.handle_command(Command::ExtendSelection(Direction::Right));
    }
    let r = e.handle_command(Command::Copy);
    assert_eq!(r, Request::CopyToClipboard("hello".to_string()));
    e.handle_command(Command::Insert('X'));
    assert_eq!(e.buffer.contents(), "X world");
    e.handle_command(Command::MoveEnd);
    e.paste(None);
    assert_eq!(e.buffer.contents(), "X worldhello");
    assert_eq!(e.cursor.col, 12);
}

#[test]
fn cut_line_and_paste_whole_line() {
    let mut e = editor_with("one\ntwo\n", None);
    let r = e.handle_command(Command::Cut);
    assert_eq!(r, Request::CopyToClipboard("one\n".to_string()));
    assert_eq!(e.buffer.contents(), "two\n");
    e.handle_command(Command::MoveDown);
    e.handle_command(Command::PasteInternal);
    assert_eq!(e.buffer.contents(), "two\none\n");
}

#[test]
fn quit_needs_confirmation_when_modified() {
    let mut e = editor_with("x", None);
    e.handle_command(Command::Quit);
    assert!(!e.should_quit);
    assert_eq!(e.message, Some(Notice::UnsavedChanges));
    e.handle_command(Command::Quit);
    assert!(e.should_quit);
}

#[test]
fn save_request_and_outcome() {
    let mut e = editor_with("x", Some("a.txt"));
    e.handle_command(Command::Insert('y'));
    assert_eq!(e.handle_command(Command::Save), Request::Save);
    e.save_finished(Err("disk full".to_string()));
    assert!(e.buffer.is_modified());
    assert_eq!(e.message, Some(Notice::SaveFailed("disk full".to_string())));
    e.save_finished(Ok(()));
    assert!(!e.buffer.is_modified());
    assert_eq!(e.message, Some(Notice::FileSaved));
}

#[test]
fn toggle_comment_single_and_selection() {
    let mut e = editor_with("a\nb\n", Some("x.py"));
    e.handle_command(Command::ToggleComment);
    assert_eq!(e.buffer.contents(), "# a\nb\n");
    e.handle_command(Command::ToggleComment);
    assert_eq!(e.buffer.contents(), "a\nb\n");
    e.handle_command(Command::SelectAll);
    e.handle_command(Command::ToggleComment);
    assert_eq!(e.buffer.contents(), "# a\n# b\n# ");
    assert_eq!(e.message, Some(Notice::CommentsAdded));
}

#[test]
fn indent_and_unindent() {
    let mut e = editor_with("x", None);
    e.handle_command(Command::Indent);
    assert_eq!(e.buffer.contents(), "    x");
    assert_eq!(e.cursor.col, 4);
    e.handle_command(Command::Unindent);
    assert_eq!(e.buffer.contents(), "x");
    assert_eq!(e.cursor.col, 0);
}

#[test]
fn search_and_go_to_line() {
    let mut e = editor_with("foo\nbar foo\n", None);
    assert_eq!(e.handle_command(Command::Find), Request::PromptSearch);
    e.search_for(Some("foo".to_string()));
    assert_eq!(e.message, Some(Notice::FoundMatches(2)));
    assert_eq!((e.cursor.row, e.cursor.col), (0, 0));
    e.handle_command(Command::FindNext);
    assert_eq!((e.cursor.row, e.cursor.col), (1, 4));
    e.search_for(Some("zzz".to_string()));
    assert_eq!(e.message, Some(Notice::NoMatches("zzz".to_string())));
    e.go_to_line(Some(" 2 ".to_string()));
    assert_eq!(e.cursor.row, 1);
    assert_eq!(e.message, Some(Notice::JumpedToLine(2)));
    e.go_to_line(Some("9".to_string()));
    assert_eq!(e.message, Some(Notice::InvalidLineNumber(9)));
    e.go_to_line(Some("abc".to_string()));
    assert_eq!(e.message, Some(Notice::NotANumber));
}

#[test]
fn utf8_save_then_load_round_trip() {
    let mut b = RopeBuffer::new(encoding_rs::UTF_8);
    b.insert(0, "Hello, 世界!\n\tline two");
    let bytes = b.utf8_contents();
    assert_eq!(bytes, "Hello, 世界!\n\tline two".as_bytes());
    let config = EncodingConfig { read_encoding: None, save_encoding: None };
    let loaded = RopeBuffer::from_contents("r.txt", Some(bytes), &config, encoding_rs::WINDOWS_1252);
    assert_eq!(loaded.contents(), b.contents());
}

#[test]
fn keys_map_to_commands() {
    let none = KeyModifiers { shift: false, control: false, alt: false, other: false };
    let ctrl = KeyModifiers { control: true, ..none };
    let shift = KeyModifiers { shift: true, ..none };
    let key = |code, modifiers| KeyEvent { code, modifiers };
    assert_eq!(handle_key_event(key(KeyCode::Char('a'), none), false), Some(Command::Insert('a')));
    assert_eq!(handle_key_event(key(KeyCode::Char('A'), shift), false), Some(Command::Insert('A')));
    assert_eq!(handle_key_event(key(KeyCode::Char('z'), ctrl), false), Some(Command::Undo));
    assert_eq!(handle_key_event(key(KeyCode::Char('p'), ctrl), true), Some(Command::ToggleSelectionMode));
    assert_eq!(handle_key_event(key(KeyCode::Up, none), false), Some(Command::MoveUp));
    assert_eq!(handle_key_event(key(KeyCode::Up, none), true), Some(Command::ExtendSelection(Direction::Up)));
    assert_eq!(handle_key_event(key(KeyCode::Left, shift), false), Some(Command::ExtendSelection(Direction::Left)));
    assert_eq!(handle_key_event(key(KeyCode::Enter, none), false), Some(Command::Insert('\n')));
    assert_eq!(handle_key_event(key(KeyCode::F(3), shift), false), Some(Command::FindPrev));
    assert_eq!(handle_key_event(key(KeyCode::Other, none), false), None);
}

#[test]
fn cached_layouts_follow_edits() {
    let mut e = editor_with("a\tb\nxyz", None);
    let first = e.row_layout(0).unwrap();
    assert_eq!(first.visual_lines, vec!["a   b".to_string()]);
    assert!(e.view.line_layout_cache[0].is_some());
    let again = e.row_layout(0).unwrap();
    assert_eq!(again.logical_to_visual, vec![0, 1, 4, 5]);
    e.handle_command(Command::Insert('Q'));
    assert!(e.view.line_layout_cache.iter().all(|slot| slot.is_none()));
    assert_eq!(e.row_layout(0).unwrap().visual_lines, vec!["Qa  b".to_string()]);
    assert!(e.row_layout(5).is_none());
}

#[test]
fn change_encoding_reloads_file() {
    let mut e = editor_with("abc", Some("r.txt"));
    assert_eq!(e.handle_command(Command::ChangeEncoding), Request::PromptEncoding);
    let r = e.encoding_chosen(Some("big5".to_string()));
    assert!(matches!(r, Request::Reload(enc) if enc.name() == "Big5"));
    e.reload(Ok(Some(vec![0xEF, 0xBB, 0xBF, b'h', b'i'])), encoding_rs::WINDOWS_1252);
    assert_eq!(e.buffer.read_encoding().name(), "windows-1252");
    assert_eq!(e.buffer.save_encoding().name(), "windows-1252");
    assert!(!e.buffer.is_modified());
    assert_eq!(e.message, Some(Notice::Reloaded));
    e.reload(Err("gone".to_string()), encoding_rs::UTF_8);
    assert_eq!(e.message, Some(Notice::ReloadFailed("gone".to_string())));
    assert_eq!(e.encoding_chosen(Some("nope".to_string())), Request::Nothing);
    assert_eq!(e.message, Some(Notice::UnsupportedEncoding("nope".to_string())));
    let mut untitled = editor_with("x", None);
    assert_eq!(untitled.encoding_chosen(Some("gbk".to_string())), Request::Nothing);
    assert_eq!(untitled.buffer.save_encoding().name(), "GBK");
}
