//! Editor settings.

use vstd::prelude::*;

verus! {

pub struct Config {
    pub tab_width: usize,
    pub line_numbers: bool,
    pub auto_indent: bool,
}

impl Config {
    /// Default settings: tabs of 4, line numbers shown, auto-indent on.
    pub fn new() -> (c: Config)
        ensures
            c.tab_width == 4 && c.line_numbers && c.auto_indent,
    {
        Config { tab_width: 4, line_numbers: true, auto_indent: true }
    }
}

/// Settings of the optional syntax highlighter.
pub struct HighlightConfig {
    pub enabled: bool,
    /// Name of the colour theme.
    pub theme: String,
    /// Whether to emit 24-bit colours.
    pub true_color: bool,
}

impl HighlightConfig {
    /// Highlighting on, with the default theme.
    pub fn with_true_color(true_color: bool) -> (c: HighlightConfig)
        ensures
            c.enabled,
            c.theme@ == "base16-ocean.dark"@,
            c.true_color == true_color,
    {
        HighlightConfig { enabled: true, theme: String::from_str("base16-ocean.dark"), true_color }
    }
}

/// Access to the system clipboard; the transfers themselves are done by the
/// program around the library.
pub struct ClipboardManager;

impl ClipboardManager {
    pub fn new() -> (c: ClipboardManager) {
        ClipboardManager
    }

    /// The clipboard is always usable.
    pub fn is_available(&self) -> (r: bool)
        ensures
            r,
    {
        true
    }
}

/// Direction of a cursor move, for moves that extend the selection.
#[derive(Clone, Copy, Debug, PartialEq, Eq, Structural)]
pub enum Direction {
    Up,
    Down,
    Left,
    Right,
    Home,
    End,
    PageUp,
    PageDown,
}

/// An editing intent, decoded from a key event.
#[derive(Clone, Copy, Debug, PartialEq, Eq, Structural)]
pub enum Command {
    Insert(char),
    Delete,
    Backspace,
    DeleteLine,
    MoveUp,
    MoveDown,
    MoveLeft,
    MoveRight,
    MoveHome,
    MoveEnd,
    PageUp,
    PageDown,
    MoveToFileStart,
    MoveToFileEnd,
    MoveToLineStart,
    MoveToLineEnd,
    Copy,
    Cut,
    Paste,
    Save,
    Quit,
    Undo,
    Redo,
    Find,
    FindNext,
    FindPrev,
    ToggleLineNumbers,
    ToggleComment,
    Indent,
    Unindent,
    SelectAll,
    ExtendSelection(Direction),
    ClearSelection,
    ToggleSelectionMode,
    CopyInternal,
    CutInternal,
    PasteInternal,
    Resize,
    ChangeEncoding,
    GoToLine,
    ClearMessage,
}

impl Default for Config {
    fn default() -> (c: Config)
        ensures
            c.tab_width == 4 && c.line_numbers && c.auto_indent,
    {
        Config::new()
    }
}

impl Default for ClipboardManager {
    fn default() -> (c: ClipboardManager) {
        ClipboardManager::new()
    }
}

} // verus!
