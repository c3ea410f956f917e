use wedi::buffer::{detect_unicode, BufferError, EncodingConfig, RopeBuffer, UnicodeEncoding};
use wedi::cursor::Cursor;
use wedi::view::{Terminal, View};

fn buffer_with(text: &str) -> RopeBuffer {
    let mut b = RopeBuffer::new(encoding_rs::UTF_8);
    b.insert(0, text);
    b
}

#[test]
fn basic_edit_then_undo() {
    let mut b = RopeBuffer::new(encoding_rs::UTF_8);
    let view = View::new(&Terminal::with_size(80, 24));
    let mut cursor = Cursor::new();
    b.insert(0, "hello");
    cursor.set_position(&b, &view, 0, 5);
    assert_eq!(cursor.col, 5);
    let pos = b.undo().unwrap();
    let row = b.char_to_line(pos);
    let col = pos - b.line_to_char(row);
    cursor.set_position(&b, &view, row, col);
    assert_eq!(b.contents(), "");
    assert_eq!(cursor.col, 0);
    assert_eq!(cursor.row, 0);
}

#[test]
fn undo_all_then_redo_all() {
    let mut b = buffer_with("abc\ndef");
    b.insert_char(3, 'X');
    b.delete_char(0);
    b.delete_range(2, 5);
    b.delete_line(0);
    let after = b.contents();
    for _ in 0..4 {
        assert!(b.undo().is_some());
    }
    assert_eq!(b.contents(), "abc\ndef");
    for _ in 0..4 {
        assert!(b.redo().is_some());
    }
    assert_eq!(b.contents(), after);
    assert!(b.redo().is_none());
}

#[test]
fn nothing_to_undo_or_redo() {
    let mut b = RopeBuffer::new(encoding_rs::UTF_8);
    assert_eq!(b.undo(), None);
    assert_eq!(b.redo(), None);
    assert!(!b.can_undo());
    assert!(!b.is_modified());
}

#[test]
fn insert_clamps_position() {
    let mut b = buffer_with("ab");
    b.insert(100, "c");
    assert_eq!(b.contents(), "abc");
    b.insert_char(1, '-');
    assert_eq!(b.contents(), "a-bc");
    assert!(b.is_modified());
}

#[test]
fn deletes_out_of_range_are_noops() {
    let mut b = buffer_with("ab");
    b.delete_char(2);
    b.delete_range(1, 1);
    b.delete_range(5, 9);
    b.delete_line(3);
    assert_eq!(b.contents(), "ab");
    b.delete_range(1, 50);
    assert_eq!(b.contents(), "a");
}

#[test]
fn delete_line_removes_terminator() {
    let mut b = buffer_with("one\ntwo\nthree");
    b.delete_line(1);
    assert_eq!(b.contents(), "one\nthree");
    b.delete_line(1);
    assert_eq!(b.contents(), "one\n");
    assert_eq!(b.undo(), Some(4));
    assert_eq!(b.contents(), "one\nthree");
}

#[test]
fn redo_of_insert_returns_end() {
    let mut b = buffer_with("");
    b.insert(0, "héllo");
    b.undo();
    assert_eq!(b.redo(), Some(5));
}

#[test]
fn lines_and_offsets() {
    let b = buffer_with("ab\r\ncd\nef");
    assert_eq!(b.line_count(), 3);
    assert_eq!(b.line_to_char(1), 4);
    assert_eq!(b.line_to_char(9), 9);
    assert_eq!(b.char_to_line(5), 1);
    assert_eq!(b.line(0), Some("ab\r\n".to_string()));
    assert_eq!(b.line(3), None);
    assert_eq!(b.get_line_full(1), "cd\n");
    assert_eq!(b.get_line_content(7), "");
    assert_eq!(b.line_chars(0), vec!['a', 'b']);
    assert_eq!(b.line_len(2), 2);
    assert_eq!(b.len_chars(), 9);
}

#[test]
fn bom_detection_strips_mark() {
    let mut bytes = vec![0xEF, 0xBB, 0xBF];
    bytes.extend_from_slice("Hello, 世界!".as_bytes());
    let config = EncodingConfig { read_encoding: None, save_encoding: None };
    let b = RopeBuffer::from_contents("x.txt", Some(bytes), &config, encoding_rs::WINDOWS_1252);
    assert_eq!(b.read_encoding().name(), "UTF-8");
    assert_eq!(b.contents(), "Hello, 世界!");
    assert!(!b.is_modified());
}

#[test]
fn utf16le_bom_detected() {
    let bytes = vec![0xFF, 0xFE, b'H', 0, b'i', 0];
    let config = EncodingConfig { read_encoding: None, save_encoding: None };
    let b = RopeBuffer::from_contents("x.txt", Some(bytes), &config, encoding_rs::UTF_8);
    assert_eq!(b.read_encoding().name(), "UTF-16LE");
    assert_eq!(b.contents(), "Hi");
}

#[test]
fn requested_encoding_used_for_non_utf8() {
    let bytes = vec![0xA9, b'x'];
    let config = EncodingConfig { read_encoding: Some(encoding_rs::WINDOWS_1252), save_encoding: None };
    let b = RopeBuffer::from_contents("x.txt", Some(bytes), &config, encoding_rs::UTF_8);
    assert_eq!(b.read_encoding().name(), "windows-1252");
    assert_eq!(b.save_encoding().name(), "windows-1252");
    assert_eq!(b.contents(), "©x");
}

#[test]
fn missing_file_gives_modified_empty_buffer() {
    let config = EncodingConfig { read_encoding: None, save_encoding: Some(encoding_rs::GBK) };
    let b = RopeBuffer::from_contents("dir/new.txt", None, &config, encoding_rs::UTF_8);
    assert!(b.is_modified());
    assert_eq!(b.contents(), "");
    assert_eq!(b.read_encoding().name(), "UTF-8");
    assert_eq!(b.save_encoding().name(), "GBK");
    assert_eq!(b.file_name(), "new.txt");
}

#[test]
fn detect_unicode_cases() {
    assert_eq!(detect_unicode(&[0xEF, 0xBB, 0xBF, b'a']), Some((UnicodeEncoding::Utf8, 3)));
    assert_eq!(detect_unicode(&[0xFE, 0xFF]), Some((UnicodeEncoding::Utf16Be, 2)));
    assert_eq!(detect_unicode("plain".as_bytes()), Some((UnicodeEncoding::Utf8, 0)));
    assert_eq!(detect_unicode(&[0xC3, 0x28]), None);
}

#[test]
fn encoded_contents_round_trip_utf8_and_gbk() {
    let mut b = buffer_with("Hello, 世界!");
    let (bytes, had_errors) = b.encoded_contents();
    assert!(!had_errors);
    assert_eq!(bytes, "Hello, 世界!".as_bytes());
    b.set_save_encoding(encoding_rs::GBK);
    let (gbk, had_errors) = b.encoded_contents();
    assert!(!had_errors);
    let (back, _, _) = encoding_rs::GBK.decode(&gbk);
    assert_eq!(back, "Hello, 世界!");
}

#[test]
fn save_and_reload() {
    let mut b = buffer_with("abc");
    assert!(b.is_modified());
    assert_eq!(b.reload_with_encoding(None, encoding_rs::UTF_8), Err(BufferError::NoFilePath));
    b.mark_saved(Some("f.txt".to_string()));
    assert!(!b.is_modified());
    assert!(b.has_file_path());
    assert_eq!(b.file_name(), "f.txt");
    assert!(b.reload_with_encoding(Some(b"xyz".to_vec()), encoding_rs::UTF_8).is_ok());
    assert_eq!(b.contents(), "xyz");
    assert!(!b.can_undo());
    b.change_encoding(encoding_rs::BIG5);
    assert!(!b.is_modified());
    assert_eq!(b.save_encoding().name(), "Big5");
}

#[test]
fn untitled_buffer_name() {
    let b = RopeBuffer::new(encoding_rs::UTF_8);
    assert_eq!(b.file_name(), "[No Name]");
    assert_eq!(b.file_path(), None);
}

#[test]
fn malformed_bytes_are_replaced_not_fatal() {
    let config = EncodingConfig { read_encoding: Some(encoding_rs::GBK), save_encoding: None };
    let b = RopeBuffer::from_contents("x.txt", Some(vec![b'a', 0x81]), &config, encoding_rs::UTF_8);
    assert!(b.had_decode_errors());
    assert_eq!(b.contents(), "a\u{FFFD}");
    let ok = RopeBuffer::from_contents("y.txt", Some(b"fine".to_vec()), &config, encoding_rs::UTF_8);
    assert!(!ok.had_decode_errors());
}

#[test]
fn encoding_labels_resolve() {
    assert_eq!(wedi::encoding::parse_single_encoding("GBK").unwrap().name(), "GBK");
    assert_eq!(wedi::encoding::parse_single_encoding("Shift-JIS").unwrap().name(), "Shift_JIS");
    assert_eq!(wedi::encoding::parse_single_encoding("latin1").unwrap().name(), "windows-1252");
    assert_eq!(wedi::encoding::parse_single_encoding("utf-16BE").unwrap().name(), "UTF-16BE");
    assert!(matches!(
        wedi::encoding::parse_single_encoding("klingon"),
        Err(wedi::encoding::EncodingError::Unsupported(ref s)) if s == "klingon"
    ));
    let config = wedi::encoding::parse_encoding(Some("big5"), None).unwrap();
    assert_eq!(config.read_encoding.unwrap().name(), "Big5");
    assert_eq!(config.save_encoding.unwrap().name(), "Big5");
    let config = wedi::encoding::parse_encoding(None, Some("cp1252")).unwrap();
    assert!(config.read_encoding.is_none());
    assert_eq!(config.save_encoding.unwrap().name(), "windows-1252");
}

#[test]
fn locale_charsets() {
    use_locale("zh_TW.Big5@euro", Some("Big5"));
    use_locale("en_US.UTF-8", Some("UTF-8"));
    use_locale("ja_JP.SJIS", Some("Shift_JIS"));
    use_locale("C", None);
    use_locale("xx.", None);
    use_locale("xx.nonsense", None);
}

fn use_locale(value: &str, expected: Option<&str>) {
    assert_eq!(wedi::encoding::locale_encoding(value).map(|e| e.name()), expected);
}
