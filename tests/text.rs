use wedi::text::strip_line_endings;

#[test]
fn test_newline_stripping() {
    assert_eq!(strip_line_endings("hello\n"), "hello");
    assert_eq!(strip_line_endings("hello\r\n"), "hello");
    assert_eq!(strip_line_endings("hello\r"), "hello");
    assert_eq!(strip_line_endings("hello"), "hello");
    assert_eq!(strip_line_endings(""), "");
}

#[test]
fn strip_removes_only_one_ending() {
    assert_eq!(strip_line_endings("a\n\n"), "a\n");
    assert_eq!(strip_line_endings("a\r\r"), "a\r");
}
