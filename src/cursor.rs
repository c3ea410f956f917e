//! The cursor: a logical position plus the wrapped sub-line it is drawn on
//! and the visual column it tries to keep when moving vertically.

use vstd::prelude::*;
use vstd::view::View as ModelView;
use crate::buffer::RopeBuffer;
use crate::view::{View, row_lines, row_height, rows_height, prefix_width, logical_col_of, lines_width};
use crate::layout::{vcol, logical_col_to_visual, strings_view};
use crate::text::{line_count, line_text, line_start};

verus! {

#[derive(Clone, Copy, Debug)]
pub struct Cursor {
    /// Logical row (0-based).
    pub row: usize,
    /// Logical column in characters (0-based).
    pub col: usize,
    /// Sub-line of the row the cursor is drawn on.
    pub visual_line_index: usize,
    /// Visual column within the sub-line kept across vertical moves.
    pub desired_visual_col: usize,
}

/// Text of row `row` without its terminator; empty past the last row.
pub open spec fn row_text(s: Seq<char>, row: nat) -> Seq<char> {
    if row < line_count(s) {
        line_text(s, row)
    } else {
        Seq::empty()
    }
}

/// `col` clamped to the length of `line`.
pub open spec fn clamp_col(line: Seq<char>, col: nat) -> int {
    if col <= line.len() {
        col as int
    } else {
        line.len() as int
    }
}

/// Index of the sub-line that holds visual column `vc`: the first whose end
/// lies past `vc`, else the last one.
pub open spec fn sub_line_index(ls: Seq<Seq<char>>, vc: nat, idx: nat) -> nat
    decreases ls.len() - idx,
{
    if idx + 1 >= ls.len() {
        idx
    } else if vc < prefix_width(ls, (idx + 1) as int) {
        idx
    } else {
        sub_line_index(ls, vc, idx + 1)
    }
}

/// Sub-line on which logical column `col` of row `row` is drawn.
pub open spec fn visual_index_for(s: Seq<char>, max: nat, row: nat, col: nat) -> nat {
    if row < line_count(s) {
        sub_line_index(row_lines(s, max, row), vcol(line_text(s, row), clamp_col(line_text(s, row), col)), 0)
    } else {
        0
    }
}

/// Visual column of `col` within sub-line `vli` of row `row`.
pub open spec fn desired_for(s: Seq<char>, max: nat, row: nat, col: nat, vli: nat) -> nat {
    let ls = row_lines(s, max, row);
    let line = line_text(s, row);
    let k = if vli <= ls.len() { vli } else { ls.len() };
    crate::view::sat_sub(vcol(line, clamp_col(line, col)), prefix_width(ls, k as int))
}

/// Logical column for visual column `desired` of sub-line `vli`, clamped to
/// the row's length.
pub open spec fn col_for(s: Seq<char>, max: nat, row: nat, vli: nat, desired: nat) -> nat {
    if row < line_count(s) {
        let c = logical_col_of(line_text(s, row), max, vli, desired);
        if c <= line_text(s, row).len() {
            c
        } else {
            line_text(s, row).len()
        }
    } else {
        0
    }
}

/// Position of sub-line `vli` of row `row` among all sub-lines of the text.
pub open spec fn visual_pos(s: Seq<char>, max: nat, row: nat, vli: nat) -> nat {
    rows_height(s, max, 0, row) + vli
}

/// Effect of `move_up`: up one sub-line, within the row or onto the last sub-line of the row above; the column follows the sticky visual column, which is kept.
pub open spec fn moved_up(s: Seq<char>, max: nat, o: Cursor, f: Cursor) -> bool {
    &&& f.desired_visual_col == o.desired_visual_col
    &&& o.visual_line_index > 0 ==> f.row == o.row
        && f.visual_line_index == o.visual_line_index - 1
    &&& o.visual_line_index == 0 && o.row > 0 ==> f.row == o.row - 1
        && f.visual_line_index == row_height(s, max, (o.row - 1) as nat) - 1
    &&& (o.visual_line_index > 0 || o.row > 0) ==> f.col == col_for(
        s, max, f.row as nat, f.visual_line_index as nat, o.desired_visual_col as nat)
    &&& o.visual_line_index == 0 && o.row == 0 ==> f == o
    &&& o.is_valid(s, max) ==> f.is_valid(s, max)
}

/// Effect of `move_down`: down one sub-line, within the row or onto the first sub-line of the row below; the column follows the sticky visual column, which is kept.
pub open spec fn moved_down(s: Seq<char>, max: nat, o: Cursor, f: Cursor) -> bool {
    let h = row_height(s, max, o.row as nat);
    &&& f.desired_visual_col == o.desired_visual_col
    &&& o.visual_line_index + 1 < h ==> f.row == o.row
        && f.visual_line_index == o.visual_line_index + 1
    &&& o.visual_line_index + 1 >= h && o.row + 1 < line_count(s) ==> f.row
        == o.row + 1 && f.visual_line_index == 0
    &&& (o.visual_line_index + 1 < h || o.row + 1 < line_count(s)) ==> f.col
        == col_for(s, max, f.row as nat, f.visual_line_index as nat,
        o.desired_visual_col as nat)
    &&& !(o.visual_line_index + 1 < h || o.row + 1 < line_count(s)) ==> f == o
    &&& o.is_valid(s, max) ==> f.is_valid(s, max)
}

/// Effect of `move_left`: left one character or to the end of the row above; the sticky visual column is reset.
pub open spec fn moved_left(s: Seq<char>, max: nat, o: Cursor, f: Cursor) -> bool {
    &&& o.col > 0 ==> f.row == o.row && f.col == o.col - 1
    &&& o.col == 0 && o.row > 0 ==> f.row == o.row - 1
        && f.col == row_text(s, (o.row - 1) as nat).len()
    &&& o.col == 0 && o.row == 0 ==> f.row == 0 && f.col == 0
        && f.visual_line_index == o.visual_line_index
    &&& (o.col > 0 || o.row > 0) ==> f.visual_line_index
        == visual_index_for(s, max, f.row as nat, f.col as nat)
    &&& f.row < line_count(s) ==> f.desired_visual_col == desired_for(s, max,
        f.row as nat, f.col as nat, f.visual_line_index as nat)
    &&& o.is_valid(s, max) ==> f.is_valid(s, max)
}

/// Effect of `move_right`: right one character or to the start of the row below; the sticky visual column is reset.
pub open spec fn moved_right(s: Seq<char>, max: nat, o: Cursor, f: Cursor) -> bool {
    let len = row_text(s, o.row as nat).len();
    &&& o.col < len ==> f.row == o.row && f.col == o.col + 1
        && f.visual_line_index == visual_index_for(s, max, f.row as nat,
        f.col as nat)
    &&& o.col >= len && o.row + 1 < line_count(s) ==> f.row == o.row + 1
        && f.col == 0 && f.visual_line_index == 0
    &&& o.col >= len && o.row + 1 >= line_count(s) ==> f.row == o.row
        && f.col == o.col && f.visual_line_index == o.visual_line_index
    &&& f.row < line_count(s) ==> f.desired_visual_col == desired_for(s, max,
        f.row as nat, f.col as nat, f.visual_line_index as nat)
    &&& o.is_valid(s, max) ==> f.is_valid(s, max)
}

/// Effect of `move_to_line_end`.
pub open spec fn moved_to_line_end(s: Seq<char>, max: nat, o: Cursor, f: Cursor) -> bool {
    &&& f.row == o.row
    &&& f.col == row_text(s, o.row as nat).len()
    &&& f.visual_line_index == visual_index_for(s, max, f.row as nat, f.col as nat)
    &&& f.row < line_count(s) ==> f.desired_visual_col == desired_for(s, max,
        f.row as nat, f.col as nat, f.visual_line_index as nat)
    &&& o.is_valid(s, max) ==> f.is_valid(s, max)
}

/// Effect of `move_page_down` by `e` sub-lines.
pub open spec fn paged_down(s: Seq<char>, max: nat, o: Cursor, f: Cursor, e: usize) -> bool {
    let target = visual_pos(s, max, o.row as nat, o.visual_line_index as nat) + e as nat;
    let last_pos = (rows_height(s, max, 0, line_count(s)) - 1) as nat;
    o.is_valid(s, max) ==> {
        &&& visual_pos(s, max, f.row as nat, f.visual_line_index as nat)
            == if target <= last_pos { target } else { last_pos }
        &&& f.is_valid(s, max)
        &&& f.desired_visual_col == o.desired_visual_col
        &&& f.col == col_for(s, max, f.row as nat,
            f.visual_line_index as nat, o.desired_visual_col as nat)
        &&& o.visual_line_index + e < row_height(s, max, o.row as nat) ==> f.row == o.row
            && f.visual_line_index == o.visual_line_index + e
    }
}

/// Effect of `move_page_up` by `e` sub-lines.
pub open spec fn paged_up(s: Seq<char>, max: nat, o: Cursor, f: Cursor, e: usize) -> bool {
    let pos = visual_pos(s, max, o.row as nat, o.visual_line_index as nat);
    o.is_valid(s, max) ==> {
        &&& visual_pos(s, max, f.row as nat, f.visual_line_index as nat)
            == crate::view::sat_sub(pos, e as nat)
        &&& f.is_valid(s, max)
        &&& f.desired_visual_col == o.desired_visual_col
        &&& f.col == col_for(s, max, f.row as nat,
            f.visual_line_index as nat, o.desired_visual_col as nat)
    }
}

impl Cursor {
    /// The cursor is on a row of the text, within its line, on one of its sub-lines.
    pub open spec fn is_valid(&self, s: Seq<char>, max: nat) -> bool {
        &&& self.row < line_count(s)
        &&& self.col <= line_text(s, self.row as nat).len()
        &&& self.visual_line_index < row_height(s, max, self.row as nat)
    }

    pub fn new() -> (c: Cursor)
        ensures
            c.row == 0 && c.col == 0 && c.visual_line_index == 0 && c.desired_visual_col == 0,
    {
        Cursor { row: 0, col: 0, visual_line_index: 0, desired_visual_col: 0 }
    }
}

impl Cursor {
    /// Puts the cursor on the sub-line that holds its logical column.
    fn update_visual_from_logical(&mut self, buffer: &RopeBuffer, view: &View)
        ensures
            final(self).visual_line_index == visual_index_for(buffer.text(), view.available(buffer.text()),
                old(self).row as nat, old(self).col as nat),
            final(self).row == old(self).row,
            final(self).col == old(self).col,
            final(self).desired_visual_col == old(self).desired_visual_col,
    {
        let ghost s = buffer.text();
        let ghost max = view.available(s);
        if self.row >= buffer.line_count() {
            self.visual_line_index = 0;
            return;
        }
        let lines = view.calculate_visual_lines_for_row(buffer, self.row);
        let line = buffer.line_chars(self.row);
        let vc = logical_col_to_visual(&line, self.col);
        let ghost ls = row_lines(s, max, self.row as nat);
        proof {
            lemma_row_lines_nonempty(s, max, self.row as nat);
        }
        let mut idx: usize = 0;
        let mut acc: usize = 0;
        let mut found = false;
        while !found && idx < lines.len() - 1
            invariant
                strings_view(lines@) == ls,
                ls.len() >= 1,
                lines@.len() == ls.len(),
                idx < lines@.len(),
                acc == prefix_width(ls, idx as int),
                found ==> sub_line_index(ls, vc as nat, idx as nat) == idx,
                sub_line_index(ls, vc as nat, 0) == sub_line_index(ls, vc as nat, idx as nat),
            decreases lines@.len() - idx + if found { 0int } else { 1int },
        {
            let w = crate::layout::visual_width(lines[idx].as_str());
            let next = acc.saturating_add(w);
            if vc < next {
                found = true;
            } else {
                acc = next;
                idx += 1;
            }
        }
        self.visual_line_index = idx;
    }

    /// Sets the sticky visual column from the logical position.
    fn sync_desired_visual_col(&mut self, buffer: &RopeBuffer, view: &View)
        ensures
            old(self).row < line_count(buffer.text()) ==> final(self).desired_visual_col == desired_for(
                buffer.text(), view.available(buffer.text()), old(self).row as nat,
                old(self).col as nat, old(self).visual_line_index as nat),
            old(self).row >= line_count(buffer.text()) ==> final(self).desired_visual_col
                == old(self).desired_visual_col,
            final(self).row == old(self).row,
            final(self).col == old(self).col,
            final(self).visual_line_index == old(self).visual_line_index,
    {
        if self.row >= buffer.line_count() {
            return;
        }
        let line = buffer.line_chars(self.row);
        let vc = logical_col_to_visual(&line, self.col);
        let lines = view.calculate_visual_lines_for_row(buffer, self.row);
        let k = if self.visual_line_index <= lines.len() { self.visual_line_index } else { lines.len() };
        let acc = lines_width(&lines, k);
        self.desired_visual_col = vc.saturating_sub(acc);
    }

    /// Sets the logical column from the sticky visual column and sub-line.
    fn update_logical_col_from_visual(&mut self, buffer: &RopeBuffer, view: &View)
        ensures
            final(self).col == col_for(buffer.text(), view.available(buffer.text()), old(self).row as nat,
                old(self).visual_line_index as nat, old(self).desired_visual_col as nat),
            final(self).row == old(self).row,
            final(self).visual_line_index == old(self).visual_line_index,
            final(self).desired_visual_col == old(self).desired_visual_col,
    {
        let c = view.visual_to_logical_col(buffer, self.row, self.visual_line_index, self.desired_visual_col);
        let len = buffer.line_len(self.row);
        self.col = if c <= len { c } else { len };
    }
}

impl Cursor {
    /// Up one sub-line: within the row, or onto the last sub-line of the row
    /// above; the column follows the sticky visual column, which is kept.
    pub fn move_up(&mut self, buffer: &RopeBuffer, view: &View)
        ensures
            moved_up(buffer.text(), view.available(buffer.text()), *old(self), *final(self)),
    {
        if self.visual_line_index > 0 {
            self.visual_line_index -= 1;
            self.update_logical_col_from_visual(buffer, view);
        } else if self.row > 0 {
            self.row -= 1;
            let lines = view.calculate_visual_lines_for_row(buffer, self.row);
            proof {
                lemma_row_lines_nonempty(buffer.text(), view.available(buffer.text()), self.row as nat);
            }
            self.visual_line_index = lines.len() - 1;
            self.update_logical_col_from_visual(buffer, view);
        }
    }

    /// Down one sub-line: within the row, or onto the first sub-line of the
    /// row below; the column follows the sticky visual column, which is kept.
    pub fn move_down(&mut self, buffer: &RopeBuffer, view: &View)
        ensures
            moved_down(buffer.text(), view.available(buffer.text()), *old(self), *final(self)),
    {
        let lines = view.calculate_visual_lines_for_row(buffer, self.row);
        if self.visual_line_index < lines.len() && self.visual_line_index + 1 < lines.len() {
            self.visual_line_index += 1;
            self.update_logical_col_from_visual(buffer, view);
        } else if self.row < buffer.line_count() && self.row + 1 < buffer.line_count() {
            self.row += 1;
            self.visual_line_index = 0;
            proof {
                lemma_row_lines_nonempty(buffer.text(), view.available(buffer.text()), self.row as nat);
            }
            self.update_logical_col_from_visual(buffer, view);
        }
    }

    /// Left one character, or to the end of the row above; the sticky visual
    /// column is reset.
    pub fn move_left(&mut self, buffer: &RopeBuffer, view: &View)
        ensures
            moved_left(buffer.text(), view.available(buffer.text()), *old(self), *final(self)),
    {
        if self.col > 0 {
            self.col -= 1;
            self.update_visual_from_logical(buffer, view);
        } else if self.row > 0 {
            self.row -= 1;
            self.col = buffer.line_len(self.row);
            self.update_visual_from_logical(buffer, view);
        }
        proof {
            if self.row < line_count(buffer.text()) && (old(self).col > 0 || old(self).row > 0) {
                self.lemma_visual_index_valid(buffer.text(), view.available(buffer.text()));
            }
        }
        self.sync_desired_visual_col(buffer, view);
    }

    /// Right one character, or to the start of the row below; the sticky
    /// visual column is reset.
    pub fn move_right(&mut self, buffer: &RopeBuffer, view: &View)
        ensures
            moved_right(buffer.text(), view.available(buffer.text()), *old(self), *final(self)),
    {
        let len = buffer.line_len(self.row);
        if self.col < len {
            self.col += 1;
            self.update_visual_from_logical(buffer, view);
            proof {
                self.lemma_visual_index_valid(buffer.text(), view.available(buffer.text()));
            }
        } else if self.row < buffer.line_count() && self.row + 1 < buffer.line_count() {
            self.row += 1;
            self.col = 0;
            self.visual_line_index = 0;
            self.desired_visual_col = 0;
            proof {
                lemma_row_lines_nonempty(buffer.text(), view.available(buffer.text()), self.row as nat);
            }
        }
        self.sync_desired_visual_col(buffer, view);
    }

    /// To the start of the row.
    pub fn move_to_line_start(&mut self)
        ensures
            final(self).row == old(self).row,
            final(self).col == 0,
            final(self).visual_line_index == 0,
            final(self).desired_visual_col == 0,
    {
        self.col = 0;
        self.visual_line_index = 0;
        self.desired_visual_col = 0;
    }

    /// To the start of the row (after a line break is inserted).
    pub fn reset_to_line_start(&mut self)
        ensures
            final(self).row == old(self).row,
            final(self).col == 0,
            final(self).visual_line_index == 0,
            final(self).desired_visual_col == 0,
    {
        self.col = 0;
        self.visual_line_index = 0;
        self.desired_visual_col = 0;
    }

    /// To the end of the row.
    pub fn move_to_line_end(&mut self, buffer: &RopeBuffer, view: &View)
        ensures
            moved_to_line_end(buffer.text(), view.available(buffer.text()), *old(self), *final(self)),
    {
        self.col = buffer.line_len(self.row);
        self.update_visual_from_logical(buffer, view);
        proof {
            if self.row < line_count(buffer.text()) {
                self.lemma_visual_index_valid(buffer.text(), view.available(buffer.text()));
            }
        }
        self.sync_desired_visual_col(buffer, view);
    }

    /// To the first sub-line of row `line` (clamped to the last row); the
    /// column follows the sticky visual column.
    pub fn move_to_line(&mut self, buffer: &RopeBuffer, view: &View, line: usize)
        ensures
            ({
                let s = buffer.text();
                let max = view.available(s);
                let last = (line_count(s) - 1) as nat;
                &&& final(self).row == if line <= last { line as nat } else { last }
                &&& final(self).visual_line_index == 0
                &&& final(self).desired_visual_col == old(self).desired_visual_col
                &&& final(self).col == col_for(s, max, final(self).row as nat, 0, old(self).desired_visual_col as nat)
                &&& final(self).is_valid(s, max)
            }),
    {
        let last = buffer.line_count() - 1;
        self.row = if line <= last { line } else { last };
        self.visual_line_index = 0;
        proof {
            lemma_row_lines_nonempty(buffer.text(), view.available(buffer.text()), self.row as nat);
        }
        self.update_logical_col_from_visual(buffer, view);
    }

    /// Offset of the cursor in the text: start of its row (clamped to the
    /// line count) plus its column.
    pub fn char_position(&self, buffer: &RopeBuffer) -> (p: usize)
        ensures
            p == crate::layout::sat(line_start(buffer.text(), crate::edit_model::min_nat(self.row as nat,
                line_count(buffer.text()))) as nat + self.col as nat),
    {
        let start = buffer.line_to_char(self.row);
        start.saturating_add(self.col)
    }

    /// Moves to (`row`, `col`), each clamped to the text, and makes the
    /// sub-line and the sticky visual column agree with it.
    pub fn set_position(&mut self, buffer: &RopeBuffer, view: &View, row: usize, col: usize)
        ensures
            ({
                let s = buffer.text();
                let max = view.available(s);
                let last = (line_count(s) - 1) as nat;
                let r = if row <= last { row as nat } else { last };
                &&& final(self).row == r
                &&& final(self).col == if col <= line_text(s, r).len() { col as nat } else { line_text(s, r).len() }
                &&& final(self).visual_line_index == visual_index_for(s, max, final(self).row as nat, final(self).col as nat)
                &&& final(self).desired_visual_col == desired_for(s, max, final(self).row as nat,
                    final(self).col as nat, final(self).visual_line_index as nat)
                &&& final(self).is_valid(s, max)
            }),
    {
        let last = buffer.line_count() - 1;
        self.row = if row <= last { row } else { last };
        let len = buffer.line_len(self.row);
        self.col = if col <= len { col } else { len };
        self.update_visual_from_logical(buffer, view);
        proof {
            self.lemma_visual_index_valid(buffer.text(), view.available(buffer.text()));
        }
        self.sync_desired_visual_col(buffer, view);
    }

    proof fn lemma_visual_index_valid(&self, s: Seq<char>, max: nat)
        requires
            self.row < line_count(s),
            self.visual_line_index == visual_index_for(s, max, self.row as nat, self.col as nat),
        ensures
            self.visual_line_index < row_height(s, max, self.row as nat),
    {
        lemma_row_lines_nonempty(s, max, self.row as nat);
        let line = line_text(s, self.row as nat);
        lemma_sub_line_index_bound(row_lines(s, max, self.row as nat), vcol(line, clamp_col(line, self.col as nat)), 0);
    }
}

impl Cursor {
    /// Down by `effective_rows` sub-lines (counted across rows), stopping on
    /// the last sub-line of the text; the column follows the sticky visual
    /// column, which is kept.
    pub fn move_page_down(&mut self, buffer: &RopeBuffer, view: &View, effective_rows: usize)
        ensures
            paged_down(buffer.text(), view.available(buffer.text()), *old(self), *final(self), effective_rows),
    {
        let ghost s = buffer.text();
        let ghost max = view.available(s);
        let last = buffer.line_count() - 1;
        let mut row = self.row;
        let mut vli = self.visual_line_index;
        if row > last {
            row = last;
            vli = 0;
        }
        let h0 = view.calculate_visual_lines_for_row(buffer, row).len();
        proof {
            lemma_row_lines_nonempty(s, max, row as nat);
        }
        if vli >= h0 {
            vli = h0 - 1;
        }
        let ghost pos0 = visual_pos(s, max, row as nat, vli as nat);
        let ghost row0 = row;
        let ghost vli0 = vli;
        let ghost stays = vli0 + effective_rows < row_height(s, max, row0 as nat);
        let mut rem = effective_rows;
        let mut done = false;
        while !done && row < last
            invariant
                stays == (vli0 + effective_rows < row_height(s, max, row0 as nat)),
                stays ==> row == row0 && vli == vli0 && rem == effective_rows,
                s == buffer.text(),
                max == view.available(s),
                last == line_count(s) - 1,
                row <= last,
                vli < row_height(s, max, row as nat),
                visual_pos(s, max, row as nat, vli as nat) + rem == pos0 + effective_rows,
                done ==> row < last && vli + rem < row_height(s, max, row as nat),
            decreases last - row + if done { 0int } else { 1int },
        {
            let lines = view.calculate_visual_lines_for_row(buffer, row);
            let h = lines.len();
            assert(h == strings_view(lines@).len());
            if rem < h - vli {
                done = true;
            } else {
                proof {
                    lemma_rows_height_step(s, max, 0, row as nat);
                    lemma_row_lines_nonempty(s, max, (row + 1) as nat);
                }
                rem -= h - vli;
                row += 1;
                vli = 0;
            }
        }
        let h = view.calculate_visual_lines_for_row(buffer, row).len();
        proof {
            lemma_rows_height_step(s, max, 0, row as nat);
            lemma_rows_height_monotonic_end(s, max, 0, (row + 1) as nat, line_count(s));
            lemma_rows_height_step(s, max, 0, last as nat);
        }
        if rem < h - vli {
            vli = vli + rem;
        } else {
            vli = h - 1;
        }
        self.row = row;
        self.visual_line_index = vli;
        self.update_logical_col_from_visual(buffer, view);
    }

    /// Up by `effective_rows` sub-lines (counted across rows), stopping on
    /// the first sub-line of the text; the column follows the sticky visual
    /// column, which is kept.
    pub fn move_page_up(&mut self, buffer: &RopeBuffer, view: &View, effective_rows: usize)
        ensures
            paged_up(buffer.text(), view.available(buffer.text()), *old(self), *final(self), effective_rows),
    {
        let ghost s = buffer.text();
        let ghost max = view.available(s);
        let last = buffer.line_count() - 1;
        let mut row = self.row;
        let mut vli = self.visual_line_index;
        if row > last {
            row = last;
            vli = 0;
        }
        let h0 = view.calculate_visual_lines_for_row(buffer, row).len();
        proof {
            lemma_row_lines_nonempty(s, max, row as nat);
        }
        if vli >= h0 {
            vli = h0 - 1;
        }
        let ghost pos0 = visual_pos(s, max, row as nat, vli as nat);
        let mut rem = effective_rows;
        let mut done = false;
        while !done && row > 0
            invariant
                s == buffer.text(),
                max == view.available(s),
                last == line_count(s) - 1,
                row <= last,
                vli < row_height(s, max, row as nat),
                visual_pos(s, max, row as nat, vli as nat) - rem == pos0 - effective_rows,
                done ==> rem <= vli,
            decreases row + if done { 0int } else { 1int },
        {
            if rem <= vli {
                done = true;
            } else {
                rem -= vli + 1;
                row -= 1;
                let h = view.calculate_visual_lines_for_row(buffer, row).len();
                proof {
                    lemma_rows_height_step(s, max, 0, row as nat);
                    lemma_row_lines_nonempty(s, max, row as nat);
                }
                vli = h - 1;
            }
        }
        proof {
            assert(rows_height(s, max, 0, 0) == 0);
        }
        vli = vli.saturating_sub(rem);
        self.row = row;
        self.visual_line_index = vli;
        self.update_logical_col_from_visual(buffer, view);
    }
}

proof fn lemma_rows_height_step(s: Seq<char>, max: nat, a: nat, b: nat)
    requires
        a <= b,
    ensures
        rows_height(s, max, a, b + 1) == rows_height(s, max, a, b) + row_height(s, max, b),
    decreases b - a,
{
    if a < b {
        lemma_rows_height_step(s, max, a + 1, b);
    } else {
        assert(rows_height(s, max, b + 1, b + 1) == 0);
        assert(rows_height(s, max, a, b) == 0);
    }
}

proof fn lemma_rows_height_monotonic_end(s: Seq<char>, max: nat, a: nat, b: nat, c: nat)
    requires
        a <= b <= c,
    ensures
        rows_height(s, max, a, b) <= rows_height(s, max, a, c),
    decreases c - b,
{
    if b < c {
        lemma_rows_height_monotonic_end(s, max, a, b, (c - 1) as nat);
        lemma_rows_height_step(s, max, a, (c - 1) as nat);
    }
}

pub proof fn lemma_sub_line_index_bound(ls: Seq<Seq<char>>, vc: nat, idx: nat)
    requires
        idx < ls.len(),
    ensures
        idx <= sub_line_index(ls, vc, idx) < ls.len(),
    decreases ls.len() - idx,
{
    if idx + 1 < ls.len() && vc >= prefix_width(ls, (idx + 1) as int) {
        lemma_sub_line_index_bound(ls, vc, idx + 1);
    }
}

pub proof fn lemma_row_lines_nonempty(s: Seq<char>, max: nat, row: nat)
    ensures
        row_lines(s, max, row).len() >= 1,
{
    if row < line_count(s) && max > 0 {
        crate::layout::lemma_wrap_nonempty(crate::layout::expanded(line_text(s, row)), max);
    }
}

impl Default for Cursor {
    fn default() -> (c: Cursor)
        ensures
            c.row == 0 && c.col == 0 && c.visual_line_index == 0 && c.desired_visual_col == 0,
    {
        Cursor::new()
    }
}

} // verus!
