//! The editing session: buffer, cursor, view, selection and the other
//! per-session state, and what each command does to them. Work that needs
//! the terminal, the clipboard or the disk is handed back as a request.

use vstd::prelude::*;
use vstd::view::View as ModelView;
use crate::buffer::RopeBuffer;
use crate::comment::{CommentHandler, trim_start, is_white_space};
use crate::encoding::{parse_single_encoding, EncodingError, label_resolves};
use crate::config::{Command, Direction};
use crate::cursor::{Cursor, moved_up, moved_down, moved_left, moved_right, moved_to_line_end, paged_up, paged_down};
use crate::edit_model::{Edit, model_edit, model_undo, model_redo, min_nat};
use crate::layout::{sat, width, vcol, visual_width, chars_width, logical_col_to_visual};
use crate::search::Search;
use crate::selection::{get_selected_text, delete_selection, selected_text};
use crate::text::{chars_of, push_char, line_count, line_text, line_start};
use crate::view::{Selection, Terminal, View, row_lines, prefix_width, sat_sub, lines_width};

verus! {

/// Where a move in direction `d` takes cursor `o`: the effect of the
/// matching `Cursor` move, pages being `e` sub-lines.
pub open spec fn moved_in(d: Direction, s: Seq<char>, max: nat, e: usize, o: Cursor, f: Cursor) -> bool {
    match d {
        Direction::Up => moved_up(s, max, o, f),
        Direction::Down => moved_down(s, max, o, f),
        Direction::Left => moved_left(s, max, o, f),
        Direction::Right => moved_right(s, max, o, f),
        Direction::Home => f.row == o.row && f.col == 0 && f.visual_line_index == 0 && f.desired_visual_col == 0,
        Direction::End => moved_to_line_end(s, max, o, f),
        Direction::PageUp => paged_up(s, max, o, f, e),
        Direction::PageDown => paged_down(s, max, o, f, e),
    }
}

/// The direction of a plain move command.
pub open spec fn command_direction(c: Command) -> Option<Direction> {
    match c {
        Command::MoveUp => Some(Direction::Up),
        Command::MoveDown => Some(Direction::Down),
        Command::MoveLeft => Some(Direction::Left),
        Command::MoveRight => Some(Direction::Right),
        Command::MoveHome | Command::MoveToLineStart => Some(Direction::Home),
        Command::MoveEnd | Command::MoveToLineEnd => Some(Direction::End),
        Command::PageUp => Some(Direction::PageUp),
        Command::PageDown => Some(Direction::PageDown),
        _ => None,
    }
}

/// Rows a page move covers: the screen rows, less the ruler's in debug mode.
pub open spec fn page_rows(v: View, debug_mode: bool) -> usize {
    if debug_mode { sat_sub(v.screen_rows as nat, 1) as usize } else { v.screen_rows }
}

/// Offset of the cursor in the text, as `Cursor::char_position` gives it.
pub open spec fn cursor_offset(s: Seq<char>, c: Cursor) -> nat {
    sat(line_start(s, min_nat(c.row as nat, line_count(s))) as nat + c.col as nat)
}

/// What the program around the library must do after a command.
#[derive(Debug, PartialEq, Eq)]
pub enum Request {
    Nothing,
    /// Encode and write the buffer, then report with `save_finished`.
    Save,
    /// Put this text on the system clipboard.
    CopyToClipboard(String),
    /// Read the system clipboard and hand it to `paste`.
    ReadClipboard,
    /// Ask for a search query and hand it to `search_for`.
    PromptSearch,
    /// Ask for a line number and hand it to `go_to_line`.
    PromptLine,
    /// Read the terminal size and hand it to `resize`.
    ReadTerminalSize,
    /// Ask for an encoding label and hand it to `encoding_chosen`.
    PromptEncoding,
    /// Read the buffer's file again and hand its bytes to `reload` with this encoding.
    Reload(&'static encoding_rs::Encoding),
}

/// A status message, turned into text by the renderer.
#[derive(Debug, PartialEq, Eq)]
pub enum Notice {
    Copied,
    CutDone,
    NothingToPaste,
    FileSaved,
    SaveFailed(String),
    UnsavedChanges,
    Undone,
    NothingToUndo,
    Redone,
    NothingToRedo,
    FoundMatches(usize),
    NoMatches(String),
    MatchPosition(usize, usize),
    NoActiveSearch,
    NoCommentStyle,
    CommentsAdded,
    CommentsRemoved,
    CommentToggled,
    JumpedToLine(usize),
    InvalidLineNumber(usize),
    NotANumber,
    SelectionMode(bool),
    UnsupportedEncoding(String),
    EncodingChanged,
    Reloaded,
    ReloadFailed(String),
}

/// The number that str::parse::<usize> reads from a string.
pub uninterp spec fn parsed_number(s: Seq<char>) -> Option<usize>;

/// Relies on str::parse::<usize>: an optional plus sign and decimal digits,
/// `None` on anything else or on overflow.
#[verifier::external_body]
fn parse_usize(s: &str) -> (r: Option<usize>)
    ensures
        r == parsed_number(s@),
{
    s.parse::<usize>().ok()
}

/// `s` without leading and trailing white space.
pub open spec fn trimmed(s: Seq<char>) -> Seq<char> {
    let t = trim_start(s);
    t.take(t.len() - trailing_ws(t))
}

/// Number of trailing white-space characters of `s`.
pub open spec fn trailing_ws(s: Seq<char>) -> nat
    decreases s.len(),
{
    if s.len() > 0 && is_white_space(s.last()) {
        1 + trailing_ws(s.drop_last())
    } else {
        0
    }
}

/// A line number typed by the user, surrounding white space allowed.
fn parse_line_number(s: &str) -> (r: Option<usize>)
    ensures
        r == parsed_number(trimmed(s@)),
{
    let v = chars_of(s);
    let (lead, _) = crate::comment::leading_white_space(&v);
    let mut end = v.len();
    let ghost t = v@.skip(lead as int);
    proof {
        assert(t.take(t.len() as int) =~= t);
    }
    while end > lead && crate::comment::char_is_whitespace(v[end - 1])
        invariant
            lead <= end <= v@.len(),
            t == v@.skip(lead as int),
            trailing_ws(t) == (v@.len() - end) + trailing_ws(t.take(end - lead)),
        decreases end,
    {
        proof {
            assert(t.take(end - lead).drop_last() =~= t.take(end - 1 - lead));
            assert(t.take(end - lead).last() == v@[end - 1]);
        }
        end -= 1;
    }
    proof {
        if end > lead {
            assert(t.take(end - lead).last() == v@[end - 1]);
        }
        assert(trailing_ws(t.take(end - lead)) == 0);
        assert(v@.subrange(lead as int, end as int) =~= trimmed(s@));
    }
    let inner = crate::text::string_from_chars(&v, lead, end);
    parse_usize(inner.as_str())
}

/// Figures shown on the status line in debug mode.
#[derive(Clone, Copy, Debug, PartialEq, Eq, Structural)]
pub struct DebugStats {
    pub screen_rows: usize,
    pub available_width: usize,
    pub row: usize,
    pub total_lines: usize,
    pub col: usize,
    pub line_chars: usize,
    pub line_width: usize,
    pub visual_line_index: usize,
    pub total_visual_lines: usize,
    pub col_in_visual_line: usize,
    pub visual_line_width: usize,
    pub selection_chars: usize,
    pub selection_width: usize,
}

pub struct Editor {
    pub buffer: RopeBuffer,
    pub cursor: Cursor,
    pub view: View,
    pub terminal: Terminal,
    pub search: Search,
    pub comment_handler: CommentHandler,
    pub internal_clipboard: String,
    pub should_quit: bool,
    pub selection: Option<Selection>,
    pub selection_mode: bool,
    pub message: Option<Notice>,
    pub quit_times: u8,
    pub debug_mode: bool,
}

impl Editor {
    /// The buffer is well formed, the cursor is on it, the search is consistent.
    pub open spec fn wf(&self) -> bool {
        &&& self.buffer.wf()
        &&& self.cursor.is_valid(self.buffer.text(), self.view.available(self.buffer.text()))
        &&& self.search.wf()
        &&& self.view.cache_fresh(self.buffer.text())
    }

    /// A session on `buffer` in a terminal of the given size; the comment
    /// style follows the file's extension.
    pub fn new(buffer: RopeBuffer, terminal: Terminal, file_path: Option<&str>, debug_mode: bool) -> (e: Editor)
        requires
            buffer.wf(),
        ensures
            e.wf(),
            e.buffer.model() == buffer.model(),
            e.cursor.row == 0 && e.cursor.col == 0,
            e.selection is None,
            !e.should_quit,
    {
        let view = View::new(&terminal);
        let mut comment_handler = CommentHandler::new();
        if let Some(p) = file_path {
            comment_handler.detect_from_path(p);
        }
        let mut cursor = Cursor::new();
        cursor.set_position(&buffer, &view, 0, 0);
        Editor {
            buffer,
            cursor,
            view,
            terminal,
            search: Search::new(),
            comment_handler,
            internal_clipboard: String::new(),
            should_quit: false,
            selection: None,
            selection_mode: false,
            message: None,
            quit_times: 0,
            debug_mode,
        }
    }

    /// Moves the cursor to (`row`, `col`), clamped to the text.
    fn place_cursor(&mut self, row: usize, col: usize)
        requires
            old(self).buffer.wf(),
            old(self).search.wf(),
        ensures
            final(self).wf(),
            final(self).buffer == old(self).buffer,
            final(self).view.same_frame(&old(self).view),
            final(self).view.cache_empty(),
            final(self).selection == old(self).selection,
            final(self).selection_mode == old(self).selection_mode,
            final(self).should_quit == old(self).should_quit,
            final(self).quit_times == old(self).quit_times,
            final(self).search == old(self).search,
            final(self).message == old(self).message,
            final(self).terminal == old(self).terminal,
            final(self).internal_clipboard == old(self).internal_clipboard,
            final(self).debug_mode == old(self).debug_mode,
            final(self).cursor.row == crate::selection::clamp_row(old(self).buffer.text(), row as nat),
            final(self).cursor.col <= col,
    {
        self.view.invalidate_cache();
        self.cursor.set_position(&self.buffer, &self.view, row, col);
    }

    /// Deletes the selected text, if any, and clears the selection.
    fn delete_selected(&mut self)
        requires
            old(self).wf(),
        ensures
            final(self).wf(),
            final(self).selection is None,
            final(self).view.same_frame(&old(self).view),
            final(self).should_quit == old(self).should_quit,
            final(self).quit_times == old(self).quit_times,
            final(self).selection_mode == old(self).selection_mode,
            old(self).selection is None ==> final(self).buffer == old(self).buffer && final(self).cursor
                == old(self).cursor,
    {
        if let Some(sel) = self.selection {
            self.view.invalidate_cache();
            delete_selection(&mut self.buffer, &mut self.cursor, &self.view, &sel);
            self.selection = None;
        }
    }

    /// Types `ch` at the cursor, replacing the selection; a line feed moves
    /// the cursor to the start of the next row.
    pub fn insert_char(&mut self, ch: char)
        requires
            old(self).wf(),
        ensures
            final(self).wf(),
            final(self).selection is None,
            !final(self).selection_mode,
            final(self).buffer.modified_flag(),
            old(self).selection is None ==> final(self).buffer.model() == model_edit(old(self).buffer.model(),
                Edit::InsertChar { pos: cursor_offset(old(self).buffer.text(), old(self).cursor), ch }),
    {
        self.delete_selected();
        let pos = self.cursor.char_position(&self.buffer);
        self.buffer.insert_char(pos, ch);
        if ch == '\n' {
            let row = self.cursor.row.saturating_add(1);
            self.place_cursor(row, 0);
        } else {
            let col = self.cursor.col.saturating_add(1);
            let row = self.cursor.row;
            self.place_cursor(row, col);
        }
        self.selection = None;
        self.selection_mode = false;
    }

    /// Deletes the selection, or the character before the cursor, joining
    /// the row to the previous one at its start.
    pub fn backspace(&mut self)
        requires
            old(self).wf(),
        ensures
            final(self).wf(),
            !final(self).selection_mode,
            final(self).selection is None,
            old(self).selection is None && old(self).cursor.col > 0 ==> final(self).buffer.model() == model_edit(
                old(self).buffer.model(),
                Edit::DeleteChar { pos: (cursor_offset(old(self).buffer.text(), old(self).cursor) - 1) as nat },
            ),
            old(self).selection is None && old(self).cursor.col == 0 && old(self).cursor.row == 0
                ==> final(self).buffer == old(self).buffer,
    {
        if self.selection.is_some() {
            self.delete_selected();
        } else if self.cursor.col > 0 {
            let new_col = self.cursor.col - 1;
            let row = self.cursor.row;
            let pos = self.cursor.char_position(&self.buffer);
            self.buffer.delete_char(pos - 1);
            self.place_cursor(row, new_col);
        } else if self.cursor.row > 0 {
            let new_row = self.cursor.row - 1;
            let prev_len = self.buffer.line_len(new_row);
            let pos = self.buffer.line_to_char(new_row).saturating_add(prev_len);
            self.buffer.delete_char(pos);
            self.place_cursor(new_row, prev_len);
        }
        self.selection_mode = false;
    }

    /// Deletes the selection, or the character under the cursor.
    pub fn delete_forward(&mut self)
        requires
            old(self).wf(),
        ensures
            final(self).wf(),
            !final(self).selection_mode,
            final(self).selection is None,
            old(self).selection is None ==> final(self).buffer.model() == model_edit(old(self).buffer.model(),
                Edit::DeleteChar { pos: cursor_offset(old(self).buffer.text(), old(self).cursor) }),
    {
        if self.selection.is_some() {
            self.delete_selected();
        } else {
            let pos = self.cursor.char_position(&self.buffer);
            self.buffer.delete_char(pos);
            let (row, col) = (self.cursor.row, self.cursor.col);
            self.place_cursor(row, col);
        }
        self.selection_mode = false;
    }

    /// Deletes the selection, or the cursor's row; the cursor goes to the
    /// start of its row (the last row when it was past the end).
    pub fn delete_current_line(&mut self)
        requires
            old(self).wf(),
        ensures
            final(self).wf(),
            !final(self).selection_mode,
            final(self).selection is None,
            old(self).selection is None ==> final(self).buffer.model() == model_edit(old(self).buffer.model(),
                Edit::DeleteLine { row: old(self).cursor.row as nat }),
            old(self).selection is None ==> final(self).cursor.col == 0,
    {
        if self.selection.is_some() {
            self.delete_selected();
        } else {
            let row = self.cursor.row;
            self.buffer.delete_line(row);
            self.place_cursor(row, 0);
        }
        self.selection_mode = false;
    }

    fn move_in(&mut self, dir: Direction)
        requires
            old(self).wf(),
        ensures
            final(self).wf(),
            final(self).buffer == old(self).buffer,
            final(self).view == old(self).view,
            final(self).selection == old(self).selection,
            final(self).selection_mode == old(self).selection_mode,
            final(self).should_quit == old(self).should_quit,
            final(self).quit_times == old(self).quit_times,
            final(self).search == old(self).search,
            final(self).message == old(self).message,
            moved_in(dir, old(self).buffer.text(), old(self).view.available(old(self).buffer.text()),
                page_rows(old(self).view, old(self).debug_mode), old(self).cursor, final(self).cursor),
    {
        let rows = self.view.get_effective_screen_rows(self.debug_mode);
        match dir {
            Direction::Up => self.cursor.move_up(&self.buffer, &self.view),
            Direction::Down => self.cursor.move_down(&self.buffer, &self.view),
            Direction::Left => self.cursor.move_left(&self.buffer, &self.view),
            Direction::Right => self.cursor.move_right(&self.buffer, &self.view),
            Direction::Home => self.cursor.move_to_line_start(),
            Direction::End => self.cursor.move_to_line_end(&self.buffer, &self.view),
            Direction::PageUp => self.cursor.move_page_up(&self.buffer, &self.view, rows),
            Direction::PageDown => self.cursor.move_page_down(&self.buffer, &self.view, rows),
        }
        proof {
            crate::cursor::lemma_row_lines_nonempty(self.buffer.text(), self.view.available(self.buffer.text()), self.cursor.row as nat);
        }
    }

    /// Moves the cursor and drops the selection.
    pub fn move_cursor(&mut self, dir: Direction)
        requires
            old(self).wf(),
        ensures
            final(self).wf(),
            final(self).buffer == old(self).buffer,
            final(self).selection is None,
            moved_in(dir, old(self).buffer.text(), old(self).view.available(old(self).buffer.text()),
                page_rows(old(self).view, old(self).debug_mode), old(self).cursor, final(self).cursor),
    {
        self.move_in(dir);
        self.selection = None;
    }

    /// Moves the cursor, the selection running from where it started (or
    /// from the cursor's old place) to the cursor's new place.
    pub fn extend_selection(&mut self, dir: Direction)
        requires
            old(self).wf(),
        ensures
            final(self).wf(),
            final(self).buffer == old(self).buffer,
            final(self).selection is Some,
            final(self).selection.unwrap().start == match old(self).selection {
                Some(sel) => sel.start,
                None => (old(self).cursor.row, old(self).cursor.col),
            },
            final(self).selection.unwrap().end == (final(self).cursor.row, final(self).cursor.col),
            moved_in(dir, old(self).buffer.text(), old(self).view.available(old(self).buffer.text()),
                page_rows(old(self).view, old(self).debug_mode), old(self).cursor, final(self).cursor),
    {
        let start = match self.selection {
            Some(sel) => sel.start,
            None => (self.cursor.row, self.cursor.col),
        };
        self.move_in(dir);
        self.selection = Some(Selection { start, end: (self.cursor.row, self.cursor.col) });
    }

    /// Selects the whole text and puts the cursor at its end.
    pub fn select_all(&mut self)
        requires
            old(self).wf(),
        ensures
            final(self).wf(),
            final(self).buffer == old(self).buffer,
            final(self).selection is Some,
            final(self).selection.unwrap().start == (0usize, 0usize),
            final(self).selection.unwrap().end == (final(self).cursor.row, final(self).cursor.col),
            final(self).cursor.row == line_count(old(self).buffer.text()) - 1,
    {
        let last = self.buffer.line_count() - 1;
        let last_col = self.buffer.line_len(last);
        self.place_cursor(last, last_col);
        self.selection = Some(Selection { start: (0, 0), end: (self.cursor.row, self.cursor.col) });
    }

    /// The selected text, or the cursor's whole row ending in a line feed.
    pub fn copy_source(&self) -> (t: String)
        requires
            self.wf(),
        ensures
            self.selection is Some ==> t@ == crate::selection::selected_text(self.buffer.text(), self.selection.unwrap()),
    {
        match self.selection {
            Some(sel) => get_selected_text(&self.buffer, &sel),
            None => {
                let mut line = self.buffer.get_line_full(self.cursor.row);
                let v = chars_of(line.as_str());
                if v.len() == 0 || v[v.len() - 1] != '\n' {
                    push_char(&mut line, '\n');
                }
                line
            },
        }
    }

    /// Copies: the text goes to the internal clipboard and, by the returned
    /// request, to the system one.
    pub fn copy(&mut self) -> (r: Request)
        requires
            old(self).wf(),
        ensures
            final(self).wf(),
            final(self).buffer == old(self).buffer,
            !final(self).selection_mode,
            match r {
                Request::CopyToClipboard(t) => t@ == final(self).internal_clipboard@,
                _ => false,
            },
    {
        let text = self.copy_source();
        let kept = text.clone();
        self.internal_clipboard = kept;
        self.selection_mode = false;
        Request::CopyToClipboard(text)
    }

    /// Removes what `copy_source` names after keeping it in the clipboard.
    fn remove_copied(&mut self)
        requires
            old(self).wf(),
        ensures
            final(self).wf(),
            final(self).selection is None,
    {
        if self.selection.is_some() {
            self.delete_selected();
        } else {
            let row = self.cursor.row;
            self.buffer.delete_line(row);
            self.place_cursor(row, 0);
        }
    }

    /// Cuts: like `copy`, then removes the selection or the row.
    pub fn cut(&mut self) -> (r: Request)
        requires
            old(self).wf(),
        ensures
            final(self).wf(),
            !final(self).selection_mode,
            final(self).selection is None,
            match r {
                Request::CopyToClipboard(t) => t@ == final(self).internal_clipboard@,
                _ => false,
            },
    {
        let text = self.copy_source();
        self.remove_copied();
        self.internal_clipboard = text.clone();
        self.selection_mode = false;
        Request::CopyToClipboard(text)
    }

    /// Copies to the internal clipboard only.
    pub fn copy_internal(&mut self)
        requires
            old(self).wf(),
        ensures
            final(self).wf(),
            final(self).buffer == old(self).buffer,
            final(self).message == Some(Notice::Copied),
    {
        let text = self.copy_source();
        self.internal_clipboard = text;
        self.message = Some(Notice::Copied);
        self.selection_mode = false;
    }

    /// Cuts to the internal clipboard only.
    pub fn cut_internal(&mut self)
        requires
            old(self).wf(),
        ensures
            final(self).wf(),
            final(self).selection is None,
            final(self).message == Some(Notice::CutDone),
    {
        let text = self.copy_source();
        self.internal_clipboard = text;
        self.remove_copied();
        self.message = Some(Notice::CutDone);
        self.selection_mode = false;
    }

    /// Pastes `text` (nothing when empty), replacing the selection. Text
    /// ending in a line feed goes in as whole rows above the cursor's row;
    /// other text goes in at the cursor, which moves past it.
    pub fn paste_text(&mut self, text: &str)
        requires
            old(self).wf(),
        ensures
            final(self).wf(),
            !final(self).selection_mode,
            text@.len() == 0 ==> final(self).buffer == old(self).buffer,
            text@.len() > 0 && old(self).selection is None ==> final(self).buffer.model() == model_edit(
                old(self).buffer.model(),
                Edit::Insert {
                    pos: if text@.last() == '\n' {
                        line_start(old(self).buffer.text(), min_nat(old(self).cursor.row as nat, line_count(old(self).buffer.text()))) as nat
                    } else {
                        cursor_offset(old(self).buffer.text(), old(self).cursor)
                    },
                    text: text@,
                },
            ),
    {
        let v = chars_of(text);
        if v.len() > 0 {
            self.delete_selected();
            if v[v.len() - 1] == '\n' {
                let row = self.cursor.row;
                let start = self.buffer.line_to_char(row);
                self.buffer.insert(start, text);
                self.place_cursor(row, 0);
            } else {
                let pos = self.cursor.char_position(&self.buffer);
                self.buffer.insert(pos, text);
                let mut row = self.cursor.row;
                let mut col = self.cursor.col;
                let mut i: usize = 0;
                while i < v.len()
                    invariant
                        i <= v@.len(),
                    decreases v@.len() - i,
                {
                    if v[i] == '\n' {
                        row = row.saturating_add(1);
                        col = 0;
                    } else {
                        col = col.saturating_add(1);
                    }
                    i += 1;
                }
                self.place_cursor(row, col);
            }
        }
        self.selection_mode = false;
    }

    /// Pastes what the system clipboard held, or the internal clipboard
    /// when it could not be read.
    pub fn paste(&mut self, system: Option<String>)
        requires
            old(self).wf(),
        ensures
            final(self).wf(),
    {
        let text = match system {
            Some(t) => t,
            None => self.internal_clipboard.clone(),
        };
        self.paste_text(text.as_str());
    }

    /// Pastes the internal clipboard.
    pub fn paste_internal(&mut self)
        requires
            old(self).wf(),
        ensures
            final(self).wf(),
            old(self).internal_clipboard@.len() == 0 ==> final(self).message == Some(Notice::NothingToPaste)
                && final(self).buffer == old(self).buffer,
    {
        let text = self.internal_clipboard.clone();
        if text.unicode_len() == 0 {
            self.message = Some(Notice::NothingToPaste);
            self.selection_mode = false;
        } else {
            self.paste_text(text.as_str());
        }
    }

    /// Records the outcome of writing the file.
    pub fn save_finished(&mut self, result: Result<(), String>)
        requires
            old(self).wf(),
        ensures
            final(self).wf(),
            result is Ok ==> !final(self).buffer.modified_flag() && final(self).message == Some(Notice::FileSaved),
            result is Err ==> final(self).buffer == old(self).buffer
                && final(self).message == Some(Notice::SaveFailed(result->Err_0)),
            result is Ok ==> final(self).buffer.model() == old(self).buffer.model(),
    {
        match result {
            Ok(()) => {
                self.buffer.mark_saved(None);
                self.message = Some(Notice::FileSaved);
            },
            Err(e) => {
                self.message = Some(Notice::SaveFailed(e));
            },
        }
    }

    /// Quits, unless the buffer is modified and this is the first request in a row.
    pub fn quit(&mut self)
        ensures
            old(self).buffer.modified_flag() && old(self).quit_times == 0 ==> final(self).should_quit
                == old(self).should_quit && final(self).quit_times == 1 && final(self).message == Some(Notice::UnsavedChanges),
            !(old(self).buffer.modified_flag() && old(self).quit_times == 0) ==> final(self).should_quit,
            final(self).buffer == old(self).buffer,
            final(self).cursor == old(self).cursor,
            final(self).view == old(self).view,
            final(self).search == old(self).search,
    {
        if self.buffer.is_modified() && self.quit_times == 0 {
            self.quit_times = 1;
            self.message = Some(Notice::UnsavedChanges);
        } else {
            self.should_quit = true;
        }
    }

    /// Puts the cursor at text offset `pos`.
    fn place_at_offset(&mut self, pos: usize)
        requires
            old(self).buffer.wf(),
            old(self).search.wf(),
        ensures
            final(self).wf(),
            final(self).buffer == old(self).buffer,
    {
        let row = self.buffer.char_to_line(pos);
        let start = self.buffer.line_to_char(row);
        let col = pos.saturating_sub(start);
        self.place_cursor(row, col);
    }

    /// Undoes the newest edit and moves the cursor to it.
    pub fn undo(&mut self)
        requires
            old(self).wf(),
        ensures
            final(self).wf(),
            final(self).buffer.model() == model_undo(old(self).buffer.model()),
            final(self).message == Some(if old(self).buffer.model().undo.len() > 0 { Notice::Undone } else { Notice::NothingToUndo }),
    {
        match self.buffer.undo() {
            Some(pos) => {
                self.place_at_offset(pos);
                self.message = Some(Notice::Undone);
            },
            None => {
                self.message = Some(Notice::NothingToUndo);
            },
        }
    }

    /// Redoes the newest undone edit and moves the cursor to it.
    pub fn redo(&mut self)
        requires
            old(self).wf(),
        ensures
            final(self).wf(),
            final(self).buffer.model() == model_redo(old(self).buffer.model()),
            final(self).message == Some(if old(self).buffer.model().redo.len() > 0 { Notice::Redone } else { Notice::NothingToRedo }),
    {
        match self.buffer.redo() {
            Some(pos) => {
                self.place_at_offset(pos);
                self.message = Some(Notice::Redone);
            },
            None => {
                self.message = Some(Notice::NothingToRedo);
            },
        }
    }

    /// Searches for `query` (nothing happens for `None` or an empty query)
    /// and moves to the first match.
    pub fn search_for(&mut self, query: Option<String>)
        requires
            old(self).wf(),
        ensures
            final(self).wf(),
            final(self).buffer == old(self).buffer,
            query is Some && query.unwrap()@.len() > 0 ==> {
                let found = crate::search::all_matches(old(self).buffer.text(), query.unwrap()@);
                &&& final(self).search.query_text() == query.unwrap()@
                &&& final(self).search.found() == found
                &&& found.len() == 0 ==> final(self).message == Some(Notice::NoMatches(query.unwrap()))
                &&& found.len() > 0 ==> final(self).message == Some(Notice::FoundMatches(found.len() as usize))
                    && final(self).cursor.row == found[0].0 && final(self).cursor.col <= found[0].1
            },
    {
        if let Some(q) = query {
            if q.unicode_len() > 0 {
                let shown = q.clone();
                assert(shown == q);
                self.search.set_query(q);
                self.search.find_matches(&self.buffer);
                let n = self.search.match_count();
                proof {
                    crate::search::lemma_matches_on_rows(self.buffer.text(), self.search.query_text(), 0);
                }
                if n > 0 {
                    if let Some((row, col)) = self.search.next_match() {
                        self.place_cursor(row, col);
                        self.message = Some(Notice::FoundMatches(n));
                    }
                } else {
                    self.message = Some(Notice::NoMatches(shown));
                }
            }
        }
    }

    /// Moves to the next (or previous) match of the active search.
    pub fn step_match(&mut self, forward: bool)
        requires
            old(self).wf(),
        ensures
            final(self).wf(),
            final(self).buffer == old(self).buffer,
            old(self).search.found().len() == 0 ==> final(self).message == Some(Notice::NoActiveSearch),
    {
        let n = self.search.match_count();
        if n > 0 {
            let found = if forward { self.search.next_match() } else { self.search.prev_match() };
            if let Some((row, col)) = found {
                self.place_cursor(row, col);
                let idx = self.search.current_index();
                self.message = Some(Notice::MatchPosition(idx + 1, n));
            }
        } else {
            self.message = Some(Notice::NoActiveSearch);
        }
    }

    /// Jumps to the 1-based line number typed by the user.
    pub fn go_to_line(&mut self, input: Option<String>)
        requires
            old(self).wf(),
        ensures
            final(self).wf(),
            final(self).buffer == old(self).buffer,
            input is None ==> final(self).message == old(self).message && final(self).cursor == old(self).cursor,
            input is Some ==> match parsed_number(trimmed(input.unwrap()@)) {
                Some(n) => if 0 < n <= line_count(old(self).buffer.text()) {
                    final(self).cursor.row == n - 1 && final(self).cursor.col == 0
                        && final(self).message == Some(Notice::JumpedToLine(n))
                } else {
                    final(self).message == Some(Notice::InvalidLineNumber(n)) && final(self).cursor == old(self).cursor
                },
                None => final(self).message == Some(Notice::NotANumber) && final(self).cursor == old(self).cursor,
            },
    {
        if let Some(s) = input {
            match parse_line_number(s.as_str()) {
                Some(n) => {
                    if n > 0 && n <= self.buffer.line_count() {
                        self.place_cursor(n - 1, 0);
                        self.message = Some(Notice::JumpedToLine(n));
                    } else {
                        self.message = Some(Notice::InvalidLineNumber(n));
                    }
                },
                None => {
                    self.message = Some(Notice::NotANumber);
                },
            }
        }
    }

    /// Takes new terminal dimensions.
    pub fn resize(&mut self, cols: u16, rows: u16)
        requires
            old(self).wf(),
        ensures
            final(self).wf(),
            final(self).buffer == old(self).buffer,
            final(self).terminal.dims() == (cols, rows),
            final(self).view.screen_cols == cols,
            final(self).view.screen_rows == sat_sub(rows as nat, 1),
            final(self).view.show_line_numbers == old(self).view.show_line_numbers,
            final(self).view.cache_empty(),
    {
        self.terminal.set_size(cols, rows);
        self.view.resize(cols, rows);
        let (r, c) = (self.cursor.row, self.cursor.col);
        self.place_cursor(r, c);
    }

    /// Rows covered by the selection, clamped to the text.
    fn selected_rows(&self, sel: &Selection) -> (r: (usize, usize))
        requires
            self.wf(),
        ensures
            r.0 <= r.1 < line_count(self.buffer.text()),
            r.1 < usize::MAX,
    {
        let count = self.buffer.line_count();
        let (a, b) = if sel.start.0 <= sel.end.0 { (sel.start.0, sel.end.0) } else { (sel.end.0, sel.start.0) };
        let last = count - 1;
        let b2 = if b <= last { b } else { last };
        let a2 = if a <= b2 { a } else { b2 };
        (a2, b2)
    }

    /// Replaces row `row` (with its terminator) by `new_line`, which keeps a
    /// line feed when the row had one.
    fn replace_row(&mut self, row: usize, new_line: &str, had_newline: bool)
        requires
            old(self).buffer.wf(),
        ensures
            final(self).buffer.wf(),
            final(self).search == old(self).search,
    {
        let start = self.buffer.line_to_char(row);
        let end = if row < self.buffer.line_count() && row + 1 < self.buffer.line_count() {
            self.buffer.line_to_char(row + 1)
        } else {
            self.buffer.len_chars()
        };
        self.buffer.delete_range(start, end);
        let v = chars_of(new_line);
        let mut n = v.len();
        while n > 0 && (v[n - 1] == '\n' || v[n - 1] == '\r')
            invariant
                n <= v@.len(),
            decreases n,
        {
            n -= 1;
        }
        let mut text = crate::text::string_from_chars(&v, 0, n);
        if had_newline {
            push_char(&mut text, '\n');
        }
        self.buffer.insert(start, text.as_str());
    }

    /// Whether a line's text ends with a line feed.
    fn ends_with_newline(s: &str) -> (r: bool)
        ensures
            r == (s@.len() > 0 && s@.last() == '\n'),
    {
        let v = chars_of(s);
        v.len() > 0 && v[v.len() - 1] == '\n'
    }

    /// Toggles the line comment on the cursor's row, or on every selected
    /// row: all commented when any was not, else all uncommented.
    pub fn toggle_comment(&mut self)
        requires
            old(self).wf(),
        ensures
            final(self).wf(),
            !old(self).comment_handler.has_style() ==> final(self).message == Some(Notice::NoCommentStyle)
                && final(self).buffer == old(self).buffer,
    {
        if !self.comment_handler.has_comment_style() {
            self.message = Some(Notice::NoCommentStyle);
            return;
        }
        match self.selection {
            Some(sel) => {
                let (first, last) = self.selected_rows(&sel);
                let mut any_plain = false;
                let mut row = first;
                while row <= last && !any_plain
                    invariant
                        last < usize::MAX,
                    decreases last + 1 - row,
                {
                    let content = self.buffer.get_line_content(row);
                    if !self.comment_handler.is_commented(content.as_str()) {
                        any_plain = true;
                    }
                    row += 1;
                }
                let mut r = last + 1;
                while r > first
                    invariant
                        self.buffer.wf(),
                        self.search.wf(),
                        first <= r,
                    decreases r,
                {
                    r -= 1;
                    let content = self.buffer.get_line_content(r);
                    let new_line = if any_plain {
                        if self.comment_handler.is_commented(content.as_str()) {
                            Some(content.clone())
                        } else {
                            self.comment_handler.add_comment(content.as_str())
                        }
                    } else {
                        self.comment_handler.remove_comment(content.as_str())
                    };
                    if let Some(line) = new_line {
                        let had_newline = Self::ends_with_newline(content.as_str());
                        self.replace_row(r, line.as_str(), had_newline);
                    }
                }
                self.place_cursor(first, 0);
                self.message = Some(if any_plain { Notice::CommentsAdded } else { Notice::CommentsRemoved });
            },
            None => {
                let row = self.cursor.row;
                let content = self.buffer.get_line_content(row);
                if let Some(line) = self.comment_handler.toggle_line_comment(content.as_str()) {
                    let had_newline = Self::ends_with_newline(content.as_str());
                    self.replace_row(row, line.as_str(), had_newline);
                    self.message = Some(Notice::CommentToggled);
                }
                let col = self.cursor.col;
                self.place_cursor(row, col);
            },
        }
    }

    /// Inserts four spaces at the start of every selected row, or at the cursor.
    pub fn indent(&mut self)
        requires
            old(self).wf(),
        ensures
            final(self).wf(),
            old(self).selection is None ==> final(self).buffer.model() == model_edit(old(self).buffer.model(),
                Edit::Insert { pos: cursor_offset(old(self).buffer.text(), old(self).cursor), text: "    "@ }),
    {
        match self.selection {
            Some(sel) => {
                let (first, last) = self.selected_rows(&sel);
                let mut r = last + 1;
                while r > first
                    invariant
                        self.buffer.wf(),
                        self.search.wf(),
                        first <= r,
                    decreases r,
                {
                    r -= 1;
                    let start = self.buffer.line_to_char(r);
                    self.buffer.insert(start, "    ");
                }
                self.place_cursor(first, 0);
            },
            None => {
                let pos = self.cursor.char_position(&self.buffer);
                self.buffer.insert(pos, "    ");
                let (row, col) = (self.cursor.row, self.cursor.col.saturating_add(4));
                self.place_cursor(row, col);
            },
        }
    }

    /// Removes up to four spaces at the start of every selected row, or
    /// just before the cursor.
    pub fn unindent(&mut self)
        requires
            old(self).wf(),
        ensures
            final(self).wf(),
    {
        match self.selection {
            Some(sel) => {
                let (first, last) = self.selected_rows(&sel);
                let mut r = last + 1;
                while r > first
                    invariant
                        self.buffer.wf(),
                        self.search.wf(),
                        first <= r,
                    decreases r,
                {
                    r -= 1;
                    let v = self.buffer.line_chars(r);
                    let mut n: usize = 0;
                    while n < 4 && n < v.len() && v[n] == ' '
                        invariant
                            n <= 4,
                        decreases 4 - n,
                    {
                        n += 1;
                    }
                    if n > 0 {
                        let start = self.buffer.line_to_char(r);
                        self.buffer.delete_range(start, start.saturating_add(n));
                    }
                }
                self.place_cursor(first, 0);
            },
            None => {
                let row = self.cursor.row;
                let col = self.cursor.col;
                let v = self.buffer.line_chars(row);
                let upto = if col <= v.len() { col } else { v.len() };
                let mut n: usize = 0;
                while n < 4 && n < upto && v[upto - 1 - n] == ' '
                    invariant
                        n <= 4,
                        n <= upto,
                        upto <= v@.len(),
                    decreases 4 - n,
                {
                    n += 1;
                }
                if n > 0 {
                    let start = self.buffer.line_to_char(row).saturating_add(upto - n);
                    self.buffer.delete_range(start, start.saturating_add(n));
                }
                self.place_cursor(row, upto - n);
            },
        }
    }

    /// Carries out `command`; returns what the program must do for it.
    pub fn handle_command(&mut self, command: Command) -> (r: Request)
        requires
            old(self).wf(),
        ensures
            final(self).wf(),
            command == Command::Undo ==> final(self).buffer.model() == model_undo(old(self).buffer.model()),
            command == Command::Redo ==> final(self).buffer.model() == model_redo(old(self).buffer.model()),
            command == Command::Save ==> r == Request::Save && final(self).buffer == old(self).buffer,
            command == Command::Paste ==> r == Request::ReadClipboard,
            command == Command::Find ==> r == Request::PromptSearch,
            command == Command::GoToLine ==> r == Request::PromptLine,
            command == Command::Resize ==> r == Request::ReadTerminalSize,
            command == Command::ClearSelection ==> final(self).selection is None
                && final(self).buffer == old(self).buffer,
            command matches Command::Insert(ch) && old(self).selection is None ==> final(self).buffer.model()
                == model_edit(old(self).buffer.model(), Edit::InsertChar {
                    pos: cursor_offset(old(self).buffer.text(), old(self).cursor),
                    ch: command->Insert_0,
                }),
            command == Command::Delete && old(self).selection is None ==> final(self).buffer.model()
                == model_edit(old(self).buffer.model(), Edit::DeleteChar {
                    pos: cursor_offset(old(self).buffer.text(), old(self).cursor),
                }),
            command == Command::Backspace && old(self).selection is None && old(self).cursor.col > 0
                ==> final(self).buffer.model() == model_edit(old(self).buffer.model(), Edit::DeleteChar {
                    pos: (cursor_offset(old(self).buffer.text(), old(self).cursor) - 1) as nat,
                }),
            command == Command::DeleteLine && old(self).selection is None ==> final(self).buffer.model()
                == model_edit(old(self).buffer.model(), Edit::DeleteLine { row: old(self).cursor.row as nat }),
            command == Command::Indent && old(self).selection is None ==> final(self).buffer.model()
                == model_edit(old(self).buffer.model(), Edit::Insert {
                    pos: cursor_offset(old(self).buffer.text(), old(self).cursor),
                    text: "    "@,
                }),
            command_direction(command) is Some ==> final(self).buffer == old(self).buffer
                && final(self).selection is None && moved_in(command_direction(command).unwrap(),
                old(self).buffer.text(), old(self).view.available(old(self).buffer.text()),
                page_rows(old(self).view, old(self).debug_mode), old(self).cursor, final(self).cursor),
            command is ExtendSelection ==> final(self).buffer == old(self).buffer && moved_in(
                command->ExtendSelection_0, old(self).buffer.text(),
                old(self).view.available(old(self).buffer.text()),
                page_rows(old(self).view, old(self).debug_mode), old(self).cursor, final(self).cursor)
                && final(self).selection == Some(Selection {
                    start: match old(self).selection {
                        Some(sel) => sel.start,
                        None => (old(self).cursor.row, old(self).cursor.col),
                    },
                    end: (final(self).cursor.row, final(self).cursor.col),
                }),
            command == Command::SelectAll ==> final(self).buffer == old(self).buffer
                && final(self).selection == Some(Selection {
                    start: (0usize, 0usize),
                    end: (final(self).cursor.row, final(self).cursor.col),
                }) && final(self).cursor.row == line_count(old(self).buffer.text()) - 1,
    {
        if command != Command::Quit {
            self.quit_times = 0;
        }
        let mut request = Request::Nothing;
        match command {
            Command::Insert(ch) => self.insert_char(ch),
            Command::Backspace => self.backspace(),
            Command::Delete => self.delete_forward(),
            Command::DeleteLine => self.delete_current_line(),
            Command::MoveUp => self.move_cursor(Direction::Up),
            Command::MoveDown => self.move_cursor(Direction::Down),
            Command::MoveLeft => self.move_cursor(Direction::Left),
            Command::MoveRight => self.move_cursor(Direction::Right),
            Command::MoveHome | Command::MoveToLineStart => self.move_cursor(Direction::Home),
            Command::MoveEnd | Command::MoveToLineEnd => self.move_cursor(Direction::End),
            Command::PageUp => self.move_cursor(Direction::PageUp),
            Command::PageDown => self.move_cursor(Direction::PageDown),
            Command::MoveToFileStart => {
                self.place_cursor(0, 0);
                self.selection = None;
            },
            Command::MoveToFileEnd => {
                let last = self.buffer.line_count() - 1;
                let len = self.buffer.line_len(last);
                self.place_cursor(last, len);
                self.selection = None;
            },
            Command::ExtendSelection(dir) => self.extend_selection(dir),
            Command::SelectAll => self.select_all(),
            Command::ClearSelection => {
                self.selection = None;
            },
            Command::ClearMessage => {
                self.selection = None;
                self.selection_mode = false;
                self.message = None;
            },
            Command::ToggleSelectionMode => {
                self.selection_mode = !self.selection_mode;
                if self.selection_mode && self.selection.is_none() {
                    self.selection = Some(Selection {
                        start: (self.cursor.row, self.cursor.col),
                        end: (self.cursor.row, self.cursor.col),
                    });
                }
                self.message = Some(Notice::SelectionMode(self.selection_mode));
            },
            Command::Copy => {
                request = self.copy();
            },
            Command::Cut => {
                request = self.cut();
            },
            Command::Paste => {
                request = Request::ReadClipboard;
            },
            Command::CopyInternal => self.copy_internal(),
            Command::CutInternal => self.cut_internal(),
            Command::PasteInternal => self.paste_internal(),
            Command::Save => {
                request = Request::Save;
            },
            Command::Quit => self.quit(),
            Command::Resize => {
                request = Request::ReadTerminalSize;
            },
            Command::Undo => self.undo(),
            Command::Redo => self.redo(),
            Command::Find => {
                request = Request::PromptSearch;
            },
            Command::FindNext => self.step_match(true),
            Command::FindPrev => self.step_match(false),
            Command::ToggleLineNumbers => {
                self.view.toggle_line_numbers();
                let (row, col) = (self.cursor.row, self.cursor.col);
                self.place_cursor(row, col);
            },
            Command::ToggleComment => self.toggle_comment(),
            Command::Indent => self.indent(),
            Command::Unindent => self.unindent(),
            Command::GoToLine => {
                request = Request::PromptLine;
            },
            Command::ChangeEncoding => {
                request = Request::PromptEncoding;
            },
        }
        request
    }

    /// Position and size figures of the cursor's row and of the selection.
    pub fn debug_stats(&self) -> (d: DebugStats)
        requires
            self.wf(),
        ensures
            ({
                let s = self.buffer.text();
                let max = self.view.available(s);
                let row = self.cursor.row as nat;
                let line = line_text(s, row);
                let ls = row_lines(s, max, row);
                let k = if self.cursor.visual_line_index <= ls.len() { self.cursor.visual_line_index as nat } else { ls.len() };
                &&& d.screen_rows == self.view.screen_rows
                &&& d.available_width == max
                &&& d.row == self.cursor.row
                &&& d.total_lines == line_count(s)
                &&& d.col == self.cursor.col
                &&& d.visual_line_index == self.cursor.visual_line_index
                &&& d.line_chars == line.len()
                &&& d.line_width == sat(width(line))
                &&& d.total_visual_lines == ls.len()
                &&& d.col_in_visual_line == sat_sub(vcol(line, self.cursor.col as int), prefix_width(ls, k as int))
                &&& d.visual_line_width == if self.cursor.visual_line_index < ls.len() {
                    sat(width(ls[self.cursor.visual_line_index as int]))
                } else {
                    0
                }
                &&& match self.selection {
                    Some(sel) => d.selection_chars == selected_text(s, sel).len()
                        && d.selection_width == sat(width(selected_text(s, sel))),
                    None => d.selection_chars == 0 && d.selection_width == 0,
                }
            }),
    {
        let row = self.cursor.row;
        let line = self.buffer.line_chars(row);
        let lines = self.view.calculate_visual_lines_for_row(&self.buffer, row);
        let vli = self.cursor.visual_line_index;
        let k = if vli <= lines.len() { vli } else { lines.len() };
        let acc = lines_width(&lines, k);
        let vc = logical_col_to_visual(&line, self.cursor.col);
        let current = if vli < lines.len() { visual_width(lines[vli].as_str()) } else { 0 };
        let (selection_chars, selection_width) = match self.selection {
            Some(sel) => {
                let t = get_selected_text(&self.buffer, &sel);
                let v = chars_of(t.as_str());
                (v.len(), chars_width(&v))
            },
            None => (0, 0),
        };
        DebugStats {
            screen_rows: self.view.screen_rows,
            available_width: self.view.get_available_width(&self.buffer),
            row,
            total_lines: self.buffer.line_count(),
            col: self.cursor.col,
            line_chars: line.len(),
            line_width: chars_width(&line),
            visual_line_index: vli,
            total_visual_lines: lines.len(),
            col_in_visual_line: vc.saturating_sub(acc),
            visual_line_width: current,
            selection_chars,
            selection_width,
        }
    }

    /// Scrolls the window to the cursor (leaving a row for the ruler in debug mode).
    pub fn scroll(&mut self)
        requires
            old(self).wf(),
        ensures
            final(self).wf(),
            final(self).buffer == old(self).buffer,
            final(self).cursor == old(self).cursor,
            crate::view::scrolled(
                old(self).buffer.text(),
                old(self).view.available(old(self).buffer.text()),
                if old(self).debug_mode { sat_sub(old(self).view.screen_rows as nat, 1) } else { old(self).view.screen_rows as nat },
                old(self).view.offset_row as nat,
                old(self).cursor.row as nat,
                final(self).view.offset_row as nat,
            ),
            final(self).view.show_line_numbers == old(self).view.show_line_numbers,
            final(self).view.screen_rows == old(self).view.screen_rows,
            final(self).view.screen_cols == old(self).view.screen_cols,
    {
        let ruler = self.debug_mode;
        self.view.scroll_if_needed(&self.cursor, &self.buffer, ruler);
    }

    /// Layout of row `row` for drawing; `None` past the last row.
    pub fn row_layout(&mut self, row: usize) -> (r: Option<crate::layout::LineLayout>)
        requires
            old(self).wf(),
        ensures
            final(self).wf(),
            final(self).buffer == old(self).buffer,
            row < line_count(final(self).buffer.text()) ==> r is Some && r.unwrap().is_layout_of(
                line_text(final(self).buffer.text(), row as nat),
                final(self).view.available(final(self).buffer.text()),
            ),
            row >= line_count(final(self).buffer.text()) ==> r is None,
    {
        self.view.row_layout(&self.buffer, row)
    }

    /// Takes the encoding label typed by the user: a file is then read again
    /// under it (by the returned request); a buffer without a file just
    /// takes it for reading and saving.
    pub fn encoding_chosen(&mut self, label: Option<String>) -> (r: Request)
        requires
            old(self).wf(),
        ensures
            final(self).wf(),
            final(self).buffer.model() == old(self).buffer.model(),
            label is None ==> r == Request::Nothing && final(self).buffer == old(self).buffer,
            label is Some && !label_resolves(label.unwrap()@) ==> r == Request::Nothing
                && final(self).buffer == old(self).buffer,
            label is Some && label_resolves(label.unwrap()@) && old(self).buffer.path() is Some
                ==> r is Reload && final(self).buffer == old(self).buffer,
            label is Some && label_resolves(label.unwrap()@) && old(self).buffer.path() is None
                ==> r == Request::Nothing && final(self).buffer.read_enc() == final(self).buffer.save_enc()
                && final(self).message == Some(Notice::EncodingChanged),
    {
        match label {
            None => Request::Nothing,
            Some(l) => match parse_single_encoding(l.as_str()) {
                Err(EncodingError::Unsupported(name)) => {
                    self.message = Some(Notice::UnsupportedEncoding(name));
                    Request::Nothing
                },
                Ok(enc) => {
                    if self.buffer.has_file_path() {
                        Request::Reload(enc)
                    } else {
                        self.buffer.change_encoding(enc);
                        self.message = Some(Notice::EncodingChanged);
                        Request::Nothing
                    }
                },
            },
        }
    }

    /// Replaces the text with the file read again under `encoding`
    /// (`Ok(None)`: the file is gone); on a read error only reports it.
    pub fn reload(&mut self, bytes: Result<Option<Vec<u8>>, String>, encoding: &'static encoding_rs::Encoding)
        requires
            old(self).wf(),
        ensures
            final(self).wf(),
            bytes is Err ==> final(self).buffer == old(self).buffer
                && final(self).message == Some(Notice::ReloadFailed(bytes->Err_0)),
            bytes is Ok && old(self).buffer.path() is Some ==> !final(self).buffer.modified_flag()
                && final(self).buffer.read_enc() == encoding && final(self).buffer.save_enc() == encoding
                && final(self).buffer.model().undo.len() == 0
                && final(self).message == Some(Notice::Reloaded),
            bytes is Ok && bytes->Ok_0 is Some && old(self).buffer.path() is Some ==> final(self).buffer.text()
                == crate::buffer::decoded_of(encoding, bytes->Ok_0->Some_0@).0,
    {
        match bytes {
            Err(e) => {
                self.message = Some(Notice::ReloadFailed(e));
            },
            Ok(b) => {
                self.view.invalidate_cache();
                match self.buffer.reload_with_encoding(b, encoding) {
                    Ok(()) => {
                        self.message = Some(Notice::Reloaded);
                    },
                    Err(_) => {},
                }
                self.selection = None;
                let (row, col) = (self.cursor.row, self.cursor.col);
                self.place_cursor(row, col);
            },
        }
    }
}

} // verus!
