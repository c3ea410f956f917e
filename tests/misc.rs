use wedi::comment::CommentHandler;
use wedi::config::{ClipboardManager, Config, HighlightConfig};
use wedi::detector::FileType;
use wedi::history::{Action, History};
use wedi::search::Search;
use wedi::buffer::RopeBuffer;

#[test]
fn file_types_from_extension() {
    assert_eq!(FileType::from_path("src/main.rs"), FileType::Rust);
    assert_eq!(FileType::from_path("a/b.hpp"), FileType::Cpp);
    assert_eq!(FileType::from_path("notes.markdown"), FileType::Markdown);
    assert_eq!(FileType::from_path("Makefile"), FileType::Unknown);
    assert_eq!(FileType::from_path("x.zzz"), FileType::Unknown);
}

#[test]
fn comment_style_from_path() {
    let mut h = CommentHandler::new();
    assert!(!h.has_comment_style());
    assert_eq!(h.add_comment("x"), None);
    h.detect_from_path("main.rs");
    assert!(h.has_comment_style());
    assert_eq!(h.add_comment("  let x = 1;"), Some("  // let x = 1;".to_string()));
    assert_eq!(h.add_comment("   "), Some("// ".to_string()));
    assert!(h.is_commented("\t// x"));
    assert_eq!(h.remove_comment("    // x"), Some("    x".to_string()));
    assert_eq!(h.remove_comment("//"), Some(String::new()));
    assert_eq!(h.remove_comment("plain"), Some("plain".to_string()));
    assert_eq!(h.toggle_line_comment("\tfoo"), Some(" // foo".to_string()));
    assert_eq!(h.toggle_line_comment("//foo"), Some("foo".to_string()));
    assert_eq!(h.find_comment_start("é // c"), Some(3));
    assert_eq!(h.find_comment_start("none"), None);
}

#[test]
fn comment_markers_by_language() {
    let mut h = CommentHandler::new();
    h.detect_from_path("q.sql");
    assert_eq!(h.add_comment("x"), Some("-- x".to_string()));
    h.detect_from_path("run.bat");
    assert_eq!(h.add_comment("x"), Some("REM x".to_string()));
    h.detect_from_path("README");
    assert_eq!(h.add_comment("x"), Some("# x".to_string()));
}

#[test]
fn search_steps_through_matches() {
    let mut b = RopeBuffer::new(encoding_rs::UTF_8);
    b.insert(0, "aaa\nxa\n");
    let mut s = Search::new();
    s.set_query("aa".to_string());
    s.find_matches(&b);
    assert_eq!(s.match_count(), 2);
    assert_eq!(s.next_match(), Some((0, 0)));
    assert_eq!(s.next_match(), Some((0, 1)));
    assert_eq!(s.next_match(), Some((0, 0)));
    assert_eq!(s.prev_match(), Some((0, 0)));
    s.set_query("a".to_string());
    s.find_matches(&b);
    assert_eq!(s.match_count(), 4);
    assert_eq!(s.prev_match(), Some((1, 1)));
    s.set_query(String::new());
    s.find_matches(&b);
    assert_eq!(s.match_count(), 0);
    assert_eq!(s.next_match(), None);
}

#[test]
fn history_bound_keeps_newest() {
    let mut h = History::new(2);
    for i in 0..5 {
        h.push(Action::Insert { pos: i, text: "x".to_string() });
    }
    let a = h.undo().unwrap();
    assert!(matches!(a, Action::Insert { pos: 4, .. }));
    let b = h.undo().unwrap();
    assert!(matches!(b, Action::Insert { pos: 3, .. }));
    assert!(h.undo().is_none());
    assert!(h.can_redo());
    assert!(h.redo().is_some());
    h.push(Action::Delete { pos: 0, text: "y".to_string() });
    assert!(!h.can_redo());
    h.clear();
    assert!(!h.can_undo());
}

#[test]
fn settings_defaults() {
    let c = Config::new();
    assert_eq!(c.tab_width, 4);
    assert!(c.line_numbers && c.auto_indent);
    let hc = HighlightConfig::with_true_color(false);
    assert_eq!(hc.theme, "base16-ocean.dark");
    assert!(ClipboardManager::new().is_available());
}
