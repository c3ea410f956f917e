//! Key presses to editor commands.

use vstd::prelude::*;
use crate::config::{Command, Direction};

verus! {

/// A key, as the terminal reports it.
#[derive(Clone, Copy, Debug, PartialEq, Eq, Structural)]
pub enum KeyCode {
    Char(char),
    Up,
    Down,
    Left,
    Right,
    Home,
    End,
    PageUp,
    PageDown,
    Enter,
    Tab,
    BackTab,
    Backspace,
    Delete,
    Esc,
    /// Function key `F(n)`.
    F(u8),
    Other,
}

/// Modifier keys held with a key; `other` stands for any further modifier.
#[derive(Clone, Copy, Debug, PartialEq, Eq, Structural)]
pub struct KeyModifiers {
    pub shift: bool,
    pub control: bool,
    pub alt: bool,
    pub other: bool,
}

#[derive(Clone, Copy, Debug, PartialEq, Eq, Structural)]
pub struct KeyEvent {
    pub code: KeyCode,
    pub modifiers: KeyModifiers,
}

pub open spec fn no_mods(m: KeyModifiers) -> bool {
    !m.shift && !m.control && !m.alt && !m.other
}

pub open spec fn only_ctrl(m: KeyModifiers) -> bool {
    !m.shift && m.control && !m.alt && !m.other
}

pub open spec fn only_shift(m: KeyModifiers) -> bool {
    m.shift && !m.control && !m.alt && !m.other
}

pub open spec fn only_alt(m: KeyModifiers) -> bool {
    !m.shift && !m.control && m.alt && !m.other
}

/// Direction that an unmodified navigation key moves in.
pub open spec fn nav_direction(code: KeyCode) -> Option<Direction> {
    match code {
        KeyCode::Up => Some(Direction::Up),
        KeyCode::Down => Some(Direction::Down),
        KeyCode::Left => Some(Direction::Left),
        KeyCode::Right => Some(Direction::Right),
        KeyCode::Home => Some(Direction::Home),
        KeyCode::End => Some(Direction::End),
        KeyCode::PageUp => Some(Direction::PageUp),
        KeyCode::PageDown => Some(Direction::PageDown),
        _ => None,
    }
}

/// The plain move for a navigation direction.
pub open spec fn move_command(d: Direction) -> Command {
    match d {
        Direction::Up => Command::MoveUp,
        Direction::Down => Command::MoveDown,
        Direction::Left => Command::MoveLeft,
        Direction::Right => Command::MoveRight,
        Direction::Home => Command::MoveHome,
        Direction::End => Command::MoveEnd,
        Direction::PageUp => Command::PageUp,
        Direction::PageDown => Command::PageDown,
    }
}

/// The command for a key with Control held alone.
pub open spec fn ctrl_command(code: KeyCode) -> Option<Command> {
    match code {
        KeyCode::Up | KeyCode::Home => Some(Command::MoveToFileStart),
        KeyCode::Down | KeyCode::End => Some(Command::MoveToFileEnd),
        KeyCode::Left => Some(Command::MoveToLineStart),
        KeyCode::Right => Some(Command::MoveToLineEnd),
        KeyCode::Char(c) => if c == 's' || c == 'w' {
            Some(Command::Save)
        } else if c == 'q' {
            Some(Command::Quit)
        } else if c == 'z' {
            Some(Command::Undo)
        } else if c == 'y' {
            Some(Command::Redo)
        } else if c == 'f' {
            Some(Command::Find)
        } else if c == 'l' {
            Some(Command::ToggleLineNumbers)
        } else if c == 'g' {
            Some(Command::GoToLine)
        } else if c == 'a' {
            Some(Command::SelectAll)
        } else if c == 'd' {
            Some(Command::DeleteLine)
        } else if c == '\\' || c == '/' || c == 'u' {
            Some(Command::ToggleComment)
        } else if c == 'c' {
            Some(Command::Copy)
        } else if c == 'x' {
            Some(Command::Cut)
        } else if c == 'v' {
            Some(Command::Paste)
        } else if c == 'e' {
            Some(Command::ChangeEncoding)
        } else {
            None
        },
        _ => None,
    }
}

/// The command for a key press: Ctrl+P toggles selection mode; in
/// selection mode plain navigation keys extend the selection; Shift with a
/// navigation key extends it too.
pub open spec fn command_for(e: KeyEvent, selection_mode: bool) -> Option<Command> {
    let m = e.modifiers;
    if e.code == KeyCode::Char('p') && only_ctrl(m) {
        Some(Command::ToggleSelectionMode)
    } else if no_mods(m) && nav_direction(e.code) is Some {
        if selection_mode {
            Some(Command::ExtendSelection(nav_direction(e.code).unwrap()))
        } else {
            Some(move_command(nav_direction(e.code).unwrap()))
        }
    } else if m.control && m.shift && (e.code == KeyCode::Left || e.code == KeyCode::Home) {
        Some(Command::ExtendSelection(Direction::Home))
    } else if m.control && m.shift && (e.code == KeyCode::Right || e.code == KeyCode::End) {
        Some(Command::ExtendSelection(Direction::End))
    } else if only_shift(m) && nav_direction(e.code) is Some {
        Some(Command::ExtendSelection(nav_direction(e.code).unwrap()))
    } else if only_ctrl(m) && ctrl_command(e.code) is Some {
        ctrl_command(e.code)
    } else {
        match e.code {
            KeyCode::Char(c) => if no_mods(m) || only_shift(m) {
                Some(Command::Insert(c))
            } else if only_alt(m) && c == 'c' {
                Some(Command::CopyInternal)
            } else if only_alt(m) && c == 'x' {
                Some(Command::CutInternal)
            } else if only_alt(m) && c == 'v' {
                Some(Command::PasteInternal)
            } else {
                None
            },
            KeyCode::Enter => Some(Command::Insert('\n')),
            KeyCode::Tab => if no_mods(m) {
                Some(Command::Indent)
            } else if only_shift(m) {
                Some(Command::Unindent)
            } else {
                None
            },
            KeyCode::BackTab => Some(Command::Unindent),
            KeyCode::Backspace => Some(Command::Backspace),
            KeyCode::Delete => Some(Command::Delete),
            KeyCode::Esc => Some(Command::ClearMessage),
            KeyCode::F(n) => if n == 20 {
                Some(Command::Paste)
            } else if n == 21 && no_mods(m) {
                Some(Command::Resize)
            } else if n == 3 && no_mods(m) {
                Some(Command::FindNext)
            } else if (n == 4 && no_mods(m)) || (n == 3 && only_shift(m)) {
                Some(Command::FindPrev)
            } else {
                None
            },
            _ => None,
        }
    }
}

fn direction_of(code: KeyCode) -> (r: Option<Direction>)
    ensures
        r == nav_direction(code),
{
    match code {
        KeyCode::Up => Some(Direction::Up),
        KeyCode::Down => Some(Direction::Down),
        KeyCode::Left => Some(Direction::Left),
        KeyCode::Right => Some(Direction::Right),
        KeyCode::Home => Some(Direction::Home),
        KeyCode::End => Some(Direction::End),
        KeyCode::PageUp => Some(Direction::PageUp),
        KeyCode::PageDown => Some(Direction::PageDown),
        _ => None,
    }
}

fn ctrl_key(code: KeyCode) -> (r: Option<Command>)
    ensures
        r == ctrl_command(code),
{
    match code {
        KeyCode::Up | KeyCode::Home => Some(Command::MoveToFileStart),
        KeyCode::Down | KeyCode::End => Some(Command::MoveToFileEnd),
        KeyCode::Left => Some(Command::MoveToLineStart),
        KeyCode::Right => Some(Command::MoveToLineEnd),
        KeyCode::Char(c) => if c == 's' || c == 'w' {
            Some(Command::Save)
        } else if c == 'q' {
            Some(Command::Quit)
        } else if c == 'z' {
            Some(Command::Undo)
        } else if c == 'y' {
            Some(Command::Redo)
        } else if c == 'f' {
            Some(Command::Find)
        } else if c == 'l' {
            Some(Command::ToggleLineNumbers)
        } else if c == 'g' {
            Some(Command::GoToLine)
        } else if c == 'a' {
            Some(Command::SelectAll)
        } else if c == 'd' {
            Some(Command::DeleteLine)
        } else if c == '\\' || c == '/' || c == 'u' {
            Some(Command::ToggleComment)
        } else if c == 'c' {
            Some(Command::Copy)
        } else if c == 'x' {
            Some(Command::Cut)
        } else if c == 'v' {
            Some(Command::Paste)
        } else if c == 'e' {
            Some(Command::ChangeEncoding)
        } else {
            None
        },
        _ => None,
    }
}

/// The command for a key press, `None` for keys without one.
pub fn handle_key_event(event: KeyEvent, selection_mode: bool) -> (r: Option<Command>)
    ensures
        r == command_for(event, selection_mode),
{
    let m = event.modifiers;
    let plain = !m.shift && !m.control && !m.alt && !m.other;
    let ctrl = !m.shift && m.control && !m.alt && !m.other;
    let shift = m.shift && !m.control && !m.alt && !m.other;
    let alt = !m.shift && !m.control && m.alt && !m.other;
    let dir = direction_of(event.code);
    if event.code == KeyCode::Char('p') && ctrl {
        return Some(Command::ToggleSelectionMode);
    }
    if plain && dir.is_some() {
        let d = dir.unwrap();
        if selection_mode {
            return Some(Command::ExtendSelection(d));
        }
        return Some(match d {
            Direction::Up => Command::MoveUp,
            Direction::Down => Command::MoveDown,
            Direction::Left => Command::MoveLeft,
            Direction::Right => Command::MoveRight,
            Direction::Home => Command::MoveHome,
            Direction::End => Command::MoveEnd,
            Direction::PageUp => Command::PageUp,
            Direction::PageDown => Command::PageDown,
        });
    }
    if m.control && m.shift && (event.code == KeyCode::Left || event.code == KeyCode::Home) {
        return Some(Command::ExtendSelection(Direction::Home));
    }
    if m.control && m.shift && (event.code == KeyCode::Right || event.code == KeyCode::End) {
        return Some(Command::ExtendSelection(Direction::End));
    }
    if shift && dir.is_some() {
        return Some(Command::ExtendSelection(dir.unwrap()));
    }
    if ctrl {
        let c = ctrl_key(event.code);
        if c.is_some() {
            return c;
        }
    }
    match event.code {
        KeyCode::Char(c) => if plain || shift {
            Some(Command::Insert(c))
        } else if alt && c == 'c' {
            Some(Command::CopyInternal)
        } else if alt && c == 'x' {
            Some(Command::CutInternal)
        } else if alt && c == 'v' {
            Some(Command::PasteInternal)
        } else {
            None
        },
        KeyCode::Enter => Some(Command::Insert('\n')),
        KeyCode::Tab => if plain {
            Some(Command::Indent)
        } else if shift {
            Some(Command::Unindent)
        } else {
            None
        },
        KeyCode::BackTab => Some(Command::Unindent),
        KeyCode::Backspace => Some(Command::Backspace),
        KeyCode::Delete => Some(Command::Delete),
        KeyCode::Esc => Some(Command::ClearMessage),
        KeyCode::F(n) => if n == 20 {
            Some(Command::Paste)
        } else if n == 21 && plain {
            Some(Command::Resize)
        } else if n == 3 && plain {
            Some(Command::FindNext)
        } else if (n == 4 && plain) || (n == 3 && shift) {
            Some(Command::FindPrev)
        } else {
            None
        },
        _ => None,
    }
}

} // verus!
