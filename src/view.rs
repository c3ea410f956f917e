//! The window onto the buffer: screen size, scrolling, line numbers, and the
//! visual layout of the buffer's rows.

use vstd::prelude::*;
use vstd::view::View as ModelView;
use crate::buffer::RopeBuffer;
use crate::layout::{
    LineLayout, visual_lines_of, visual_map, col_for_visual, vcol, width, sat,
    strings_view, col_for_visual_exec, logical_col_to_visual, lemma_visual_map_monotonic,
};
use crate::text::{line_count, line_text};
use crate::cursor::Cursor;

verus! {

/// Terminal dimensions as (columns, rows).
pub struct Terminal {
    size: (u16, u16),
}

impl Terminal {
    pub closed spec fn dims(&self) -> (u16, u16) {
        self.size
    }

    /// A terminal of `cols` columns and `rows` rows.
    pub fn with_size(cols: u16, rows: u16) -> (t: Terminal)
        ensures
            t.dims() == (cols, rows),
    {
        Terminal { size: (cols, rows) }
    }

    pub fn size(&self) -> (r: (u16, u16))
        ensures
            r == self.dims(),
    {
        self.size
    }

    /// Records new dimensions.
    pub fn set_size(&mut self, cols: u16, rows: u16)
        ensures
            final(self).dims() == (cols, rows),
    {
        self.size = (cols, rows);
    }
}

/// A range between two (row, column) positions; either end may come first.
#[derive(Clone, Copy, Debug)]
pub struct Selection {
    pub start: (usize, usize),
    pub end: (usize, usize),
}

/// Number of decimal digits of `n`.
pub open spec fn digits(n: nat) -> nat
    decreases n,
{
    if n < 10 {
        1
    } else {
        1 + digits(n / 10)
    }
}

/// `a - b`, or zero.
pub open spec fn sat_sub(a: nat, b: nat) -> nat {
    if a >= b {
        (a - b) as nat
    } else {
        0
    }
}

/// Sub-lines of row `row` of text `s` at width `max`; one empty sub-line
/// past the last row.
pub open spec fn row_lines(s: Seq<char>, max: nat, row: nat) -> Seq<Seq<char>> {
    if row < line_count(s) {
        visual_lines_of(line_text(s, row), max)
    } else {
        seq![Seq::<char>::empty()]
    }
}

/// Number of sub-lines of row `row`.
pub open spec fn row_height(s: Seq<char>, max: nat, row: nat) -> nat {
    row_lines(s, max, row).len()
}

/// Total width of the first `k` sub-lines (capped at the largest `usize`).
pub open spec fn prefix_width(ls: Seq<Seq<char>>, k: int) -> nat
    decreases k,
{
    if k <= 0 {
        0
    } else {
        sat(prefix_width(ls, k - 1) + sat(width(ls[k - 1])))
    }
}

/// Number of sub-lines of rows `from..to`.
pub open spec fn rows_height(s: Seq<char>, max: nat, from: nat, to: nat) -> nat
    decreases to - from,
{
    if from >= to {
        0
    } else {
        row_height(s, max, from) + rows_height(s, max, from + 1, to)
    }
}

/// Screen row reached from row `row` (at screen row `y`) when walking down to
/// row `to`, stopping once the screen is full.
pub open spec fn screen_row_of(s: Seq<char>, max: nat, row: nat, to: nat, y: nat, limit: nat) -> nat
    decreases to - row,
{
    if row >= to || y >= limit {
        y
    } else {
        screen_row_of(s, max, row + 1, to, sat(y + row_height(s, max, row)), limit)
    }
}

/// Logical column for sub-line `vli` and visual column `vc` within it, on
/// the line `line` at width `max`.
pub open spec fn logical_col_of(line: Seq<char>, max: nat, vli: nat, vc: nat) -> nat {
    let ls = visual_lines_of(line, max);
    if vli >= ls.len() {
        0
    } else {
        let in_line = if vc <= width(ls[vli as int]) { vc } else { width(ls[vli as int]) };
        col_for_visual(visual_map(line), sat(prefix_width(ls, vli as int) + sat(in_line))) as nat
    }
}

proof fn lemma_digits_bound(n: nat)
    ensures
        digits(n) <= n / 10 + 1,
        digits(n) >= 1,
    decreases n,
{
    if n >= 10 {
        lemma_digits_bound(n / 10);
    }
}

/// Total display width of the first `k` of `lines` (capped at the largest `usize`).
pub fn lines_width(lines: &Vec<String>, k: usize) -> (w: usize)
    requires
        k <= lines@.len(),
    ensures
        w == prefix_width(strings_view(lines@), k as int),
{
    let mut acc: usize = 0;
    let mut i: usize = 0;
    while i < k
        invariant
            i <= k <= lines@.len(),
            acc == prefix_width(strings_view(lines@), i as int),
        decreases k - i,
    {
        let w = crate::layout::visual_width(lines[i].as_str());
        acc = acc.saturating_add(w);
        i += 1;
    }
    acc
}

proof fn lemma_rows_height_monotonic(s: Seq<char>, max: nat, a: nat, b: nat, c: nat)
    requires
        a <= b <= c,
    ensures
        rows_height(s, max, a, c) >= rows_height(s, max, b, c),
    decreases b - a,
{
    if a < b {
        lemma_rows_height_monotonic(s, max, a + 1, b, c);
    }
}

impl LineLayout {
    /// Layout of row `row` at `available_width`; `None` past the last row.
    pub fn new(buffer: &RopeBuffer, row: usize, available_width: usize) -> (r: Option<LineLayout>)
        ensures
            row < line_count(buffer.text()) ==> r is Some && r.unwrap().is_layout_of(
                line_text(buffer.text(), row as nat),
                available_width as nat,
            ),
            row >= line_count(buffer.text()) ==> r is None,
    {
        if row >= buffer.line_count() {
            return None;
        }
        let line = buffer.line_chars(row);
        Some(LineLayout::for_line(&line, available_width))
    }
}

/// The top row after scrolling from `old_top` so that row `row` shows in
/// `eff` screen rows: `row` itself when above the window, else the first top
/// row from `old_top` on from which the rows down to `row` fit (or `row`).
pub open spec fn scrolled(s: Seq<char>, max: nat, eff: nat, old_top: nat, row: nat, top: nat) -> bool {
    if row < old_top {
        top == row
    } else {
        &&& old_top <= top <= row
        &&& (top == row || rows_height(s, max, top, row + 1) < eff)
        &&& forall|o: nat| old_top <= o < top ==> #[trigger] rows_height(s, max, o, row + 1) >= eff
    }
}

/// P5 at the level of a row's sub-lines: take logical column `c`, its visual
/// column `v`, and a sub-line `i` whose columns reach `v`; converting `v` back
/// within sub-line `i` gives a column no greater than `c` at the same visual
/// column.
pub proof fn lemma_row_visual_round_trip(line: Seq<char>, max: nat, i: nat, c: int)
    requires
        0 <= c <= line.len(),
        i < visual_lines_of(line, max).len(),
        prefix_width(visual_lines_of(line, max), i as int) <= vcol(line, c),
        vcol(line, c) <= prefix_width(visual_lines_of(line, max), i as int) + width(
            visual_lines_of(line, max)[i as int],
        ),
    ensures
        ({
            let r = logical_col_of(line, max, i, (vcol(line, c) - prefix_width(visual_lines_of(line, max), i as int)) as nat);
            &&& r <= c
            &&& vcol(line, r as int) == vcol(line, c)
        }),
{
    let ls = visual_lines_of(line, max);
    let v = vcol(line, c);
    let vc = (v - prefix_width(ls, i as int)) as nat;
    crate::layout::lemma_vcol_monotonic(line, c, c);
    assert(v <= usize::MAX);
    assert(vc <= width(ls[i as int]));
    assert(sat(vc) == vc);
    assert(sat(prefix_width(ls, i as int) + sat(vc)) == v);
    assert(logical_col_of(line, max, i, vc) == col_for_visual(visual_map(line), v) as nat);
    crate::layout::lemma_logical_visual_round_trip(line, c);
}

pub struct View {
    /// First row shown at the top of the window.
    pub offset_row: usize,
    pub show_line_numbers: bool,
    pub screen_rows: usize,
    pub screen_cols: usize,
    /// Layouts of the rows from `offset_row` down, three screens' worth,
    /// filled by `row_layout`; cleared when the screen size or the top row
    /// changes, and by the editor on every edit (see `cache_fresh`).
    pub line_layout_cache: Vec<Option<LineLayout>>,
}

impl View {
    /// Width of the line-number gutter, separator included.
    pub open spec fn gutter_width(&self, s: Seq<char>) -> nat {
        if self.show_line_numbers {
            digits(line_count(s)) + 1
        } else {
            0
        }
    }

    /// Columns left for text: the screen minus the gutter and one column.
    pub open spec fn available(&self, s: Seq<char>) -> nat {
        sat_sub(sat_sub(self.screen_cols as nat, self.gutter_width(s)), 1)
    }

    /// Every filled slot holds the layout of its row at the current width.
    pub open spec fn cache_fresh(&self, s: Seq<char>) -> bool {
        forall|i: int|
            0 <= i < self.line_layout_cache@.len() && #[trigger] self.line_layout_cache@[i] is Some ==> {
                &&& self.offset_row + i < line_count(s)
                &&& self.line_layout_cache@[i].unwrap().is_layout_of(
                    line_text(s, (self.offset_row + i) as nat),
                    self.available(s),
                )
            }
    }

    /// Same top row, line-number setting and screen size.
    pub open spec fn same_frame(&self, other: &View) -> bool {
        &&& self.offset_row == other.offset_row
        &&& self.show_line_numbers == other.show_line_numbers
        &&& self.screen_rows == other.screen_rows
        &&& self.screen_cols == other.screen_cols
    }

    pub open spec fn cache_len(&self) -> nat {
        self.line_layout_cache@.len()
    }

    pub open spec fn cache_empty(&self) -> bool {
        forall|i: int| 0 <= i < self.line_layout_cache@.len() ==> self.line_layout_cache@[i] is None
    }

    /// A view of a terminal: the bottom row is kept for the status bar.
    pub fn new(terminal: &Terminal) -> (v: View)
        ensures
            v.offset_row == 0,
            v.show_line_numbers,
            v.screen_rows == sat_sub(terminal.dims().1 as nat, 1),
            v.screen_cols == terminal.dims().0,
            v.cache_empty(),
            v.cache_len() == sat(3 * (if v.screen_rows >= 1 { v.screen_rows as nat } else { 1 })),
    {
        let (cols, rows) = terminal.size();
        let screen_rows = rows.saturating_sub(1) as usize;
        let mut v = View {
            offset_row: 0,
            show_line_numbers: true,
            screen_rows,
            screen_cols: cols as usize,
            line_layout_cache: Vec::new(),
        };
        v.invalidate_cache();
        v
    }

    /// Clears every cached layout; the cache holds three screens of rows.
    pub fn invalidate_cache(&mut self)
        ensures
            final(self).cache_empty(),
            final(self).cache_len() == sat(3 * (if old(self).screen_rows >= 1 { old(self).screen_rows as nat } else { 1 })),
            final(self).offset_row == old(self).offset_row,
            final(self).show_line_numbers == old(self).show_line_numbers,
            final(self).screen_rows == old(self).screen_rows,
            final(self).screen_cols == old(self).screen_cols,
    {
        let rows = if self.screen_rows >= 1 { self.screen_rows } else { 1 };
        let n = if rows <= usize::MAX / 3 { rows * 3 } else { usize::MAX };
        let mut cache: Vec<Option<LineLayout>> = Vec::new();
        let mut i: usize = 0;
        while i < n
            invariant
                i <= n,
                cache@.len() == i,
                forall|j: int| 0 <= j < i ==> cache@[j] is None,
            decreases n - i,
        {
            cache.push(None);
            i += 1;
        }
        self.line_layout_cache = cache;
    }

    /// Takes new terminal dimensions; the cache is cleared when they change.
    pub fn resize(&mut self, cols: u16, rows: u16)
        ensures
            final(self).screen_rows == sat_sub(rows as nat, 1),
            final(self).screen_cols == cols,
            final(self).offset_row == old(self).offset_row,
            final(self).show_line_numbers == old(self).show_line_numbers,
            (final(self).screen_rows != old(self).screen_rows || final(self).screen_cols != old(self).screen_cols)
                ==> final(self).cache_empty(),
    {
        let new_rows = rows.saturating_sub(1) as usize;
        let new_cols = cols as usize;
        if self.screen_rows != new_rows || self.screen_cols != new_cols {
            self.screen_rows = new_rows;
            self.screen_cols = new_cols;
            self.invalidate_cache();
        }
    }

    pub fn toggle_line_numbers(&mut self)
        ensures
            final(self).show_line_numbers == !old(self).show_line_numbers,
            final(self).offset_row == old(self).offset_row,
            final(self).screen_rows == old(self).screen_rows,
            final(self).screen_cols == old(self).screen_cols,
            final(self).line_layout_cache == old(self).line_layout_cache,
    {
        self.show_line_numbers = !self.show_line_numbers;
    }

    /// Rows available for text, one fewer when a ruler is shown.
    pub fn get_effective_screen_rows(&self, has_debug_ruler: bool) -> (r: usize)
        ensures
            r == if has_debug_ruler { sat_sub(self.screen_rows as nat, 1) } else { self.screen_rows as nat },
    {
        if has_debug_ruler {
            self.screen_rows.saturating_sub(1)
        } else {
            self.screen_rows
        }
    }

    /// Width of the line-number gutter for `buffer`.
    pub fn calculate_line_number_width(&self, buffer: &RopeBuffer) -> (w: usize)
        ensures
            w == self.gutter_width(buffer.text()),
    {
        if self.show_line_numbers {
            let n = buffer.line_count();
            let mut d: usize = 1;
            let mut m = n;
            proof {
                lemma_digits_bound(n as nat);
            }
            while m >= 10
                invariant
                    d + digits(m as nat) == digits(n as nat) + 1,
                    digits(n as nat) <= n / 10 + 1,
                    d >= 1,
                decreases m,
            {
                m = m / 10;
                d += 1;
            }
            d + 1
        } else {
            0
        }
    }

    /// Columns available for text.
    pub fn get_available_width(&self, buffer: &RopeBuffer) -> (w: usize)
        ensures
            w == self.available(buffer.text()),
    {
        let gutter = self.calculate_line_number_width(buffer);
        self.screen_cols.saturating_sub(gutter).saturating_sub(1)
    }

    /// Sub-lines of row `row` as displayed; one empty sub-line past the last row.
    pub fn calculate_visual_lines_for_row(&self, buffer: &RopeBuffer, row: usize) -> (r: Vec<String>)
        ensures
            strings_view(r@) == row_lines(buffer.text(), self.available(buffer.text()), row as nat),
    {
        if row >= buffer.line_count() {
            let mut r: Vec<String> = Vec::new();
            r.push(String::new());
            assert(strings_view(r@) =~= seq![Seq::<char>::empty()]);
            return r;
        }
        let width = self.get_available_width(buffer);
        let line = buffer.line_chars(row);
        let layout = LineLayout::for_line(&line, width);
        layout.visual_lines
    }

    /// Visual column of logical column `logical_col` of `line` (clamped to
    /// its length).
    pub fn logical_col_to_visual_col(&self, line: &str, logical_col: usize) -> (v: usize)
        ensures
            v == vcol(line@, if logical_col <= line@.len() { logical_col as int } else { line@.len() as int }),
    {
        let chars = crate::text::chars_of(line);
        logical_col_to_visual(&chars, logical_col)
    }

    /// Logical column on row `row` for visual column `visual_col` of its
    /// sub-line `visual_line_index`; 0 when there is no such sub-line.
    pub fn visual_to_logical_col(
        &self,
        buffer: &RopeBuffer,
        row: usize,
        visual_line_index: usize,
        visual_col: usize,
    ) -> (r: usize)
        ensures
            row < line_count(buffer.text()) ==> r == logical_col_of(
                line_text(buffer.text(), row as nat),
                self.available(buffer.text()),
                visual_line_index as nat,
                visual_col as nat,
            ),
            row >= line_count(buffer.text()) ==> r == 0,
    {
        if row >= buffer.line_count() {
            return 0;
        }
        let width = self.get_available_width(buffer);
        let line = buffer.line_chars(row);
        let layout = LineLayout::for_line(&line, width);
        let ghost ls = visual_lines_of(line@, width as nat);
        if visual_line_index >= layout.visual_lines.len() {
            return 0;
        }
        let acc = lines_width(&layout.visual_lines, visual_line_index);
        let w = crate::layout::visual_width(layout.visual_lines[visual_line_index].as_str());
        proof {
            assert(layout.visual_lines@[visual_line_index as int]@ == ls[visual_line_index as int]);
        }
        let in_line = if visual_col <= w { visual_col } else { w };
        let target = acc.saturating_add(in_line);
        proof {
            lemma_visual_map_monotonic(line@);
            assert(layout.logical_to_visual@ =~= visual_map(line@));
        }
        col_for_visual_exec(&layout.logical_to_visual, target)
    }

    /// Screen position (column, row) of `cursor`: rows above it in the
    /// window add their sub-lines, the result kept on screen.
    pub fn get_cursor_visual_position(&self, cursor: &Cursor, buffer: &RopeBuffer) -> (r: (usize, usize))
        ensures
            ({
                let s = buffer.text();
                let max = self.available(s);
                let y = sat(screen_row_of(s, max, self.offset_row as nat, cursor.row as nat, 0, self.screen_rows as nat)
                    + cursor.visual_line_index as nat);
                let lines = row_lines(s, max, cursor.row as nat);
                let line = if cursor.row < line_count(s) { line_text(s, cursor.row as nat) } else { Seq::<char>::empty() };
                let col = if cursor.col <= line.len() { cursor.col as int } else { line.len() as int };
                &&& r.1 == if y <= sat_sub(self.screen_rows as nat, 1) { y } else { sat_sub(self.screen_rows as nat, 1) }
                &&& r.0 == if cursor.visual_line_index < lines.len() {
                    sat(self.gutter_width(s) + sat_sub(vcol(line, col), prefix_width(lines, cursor.visual_line_index as int)))
                } else {
                    self.gutter_width(s)
                }
            }),
    {
        let gutter = self.calculate_line_number_width(buffer);
        let mut screen_y: usize = 0;
        let mut file_row = self.offset_row;
        let ghost s = buffer.text();
        let ghost max = self.available(s);
        while file_row < cursor.row && screen_y < self.screen_rows
            invariant
                s == buffer.text(),
                max == self.available(s),
                self.offset_row <= file_row,
                screen_row_of(s, max, self.offset_row as nat, cursor.row as nat, 0, self.screen_rows as nat)
                    == screen_row_of(s, max, file_row as nat, cursor.row as nat, screen_y as nat, self.screen_rows as nat),
            decreases cursor.row - file_row,
        {
            let h = self.calculate_visual_lines_for_row(buffer, file_row).len();
            screen_y = screen_y.saturating_add(h);
            file_row += 1;
        }
        let y = screen_y.saturating_add(cursor.visual_line_index);
        let last = self.screen_rows.saturating_sub(1);
        let y = if y <= last { y } else { last };
        let lines = self.calculate_visual_lines_for_row(buffer, cursor.row);
        let mut x = gutter;
        if cursor.visual_line_index < lines.len() {
            let acc = lines_width(&lines, cursor.visual_line_index);
            let line = buffer.line_chars(cursor.row);
            let vc = logical_col_to_visual(&line, cursor.col);
            x = gutter.saturating_add(vc.saturating_sub(acc));
        }
        (x, y)
    }

    /// Scrolls so that the cursor's row is in the window. Above the window,
    /// the cursor's row becomes the top row. Below, the top row moves down to
    /// the first row from which the rows down to the cursor's fit in the
    /// effective screen rows (or to the cursor's row itself).
    pub fn scroll_if_needed(&mut self, cursor: &Cursor, buffer: &RopeBuffer, has_debug_ruler: bool)
        ensures
            final(self).show_line_numbers == old(self).show_line_numbers,
            final(self).screen_rows == old(self).screen_rows,
            final(self).screen_cols == old(self).screen_cols,
            final(self).offset_row != old(self).offset_row ==> final(self).cache_empty(),
            final(self).offset_row == old(self).offset_row ==> final(self).line_layout_cache == old(self).line_layout_cache,
            scrolled(
                buffer.text(),
                old(self).available(buffer.text()),
                if has_debug_ruler { sat_sub(old(self).screen_rows as nat, 1) } else { old(self).screen_rows as nat },
                old(self).offset_row as nat,
                cursor.row as nat,
                final(self).offset_row as nat,
            ),
    {
        if cursor.row < self.offset_row {
            self.offset_row = cursor.row;
            self.invalidate_cache();
            return;
        }
        let eff = self.get_effective_screen_rows(has_debug_ruler);
        let ghost s = buffer.text();
        let ghost max = self.available(s);
        let ghost end = cursor.row as nat + 1;
        let ghost old_off = self.offset_row as nat;
        let mut top = cursor.row;
        let mut acc = self.calculate_visual_lines_for_row(buffer, top).len();
        proof {
            assert(rows_height(s, max, top as nat, end) == row_height(s, max, top as nat) + rows_height(s, max, end, end));
        }
        if acc < eff {
            let mut blocked = false;
            while !blocked && top > self.offset_row
                invariant
                    blocked ==> top > old_off && rows_height(s, max, (top - 1) as nat, end) >= eff,
                    s == buffer.text(),
                    max == self.available(s),
                    end == cursor.row as nat + 1,
                    old_off == self.offset_row,
                    old_off <= top <= cursor.row,
                    acc == rows_height(s, max, top as nat, end),
                    acc < eff,
                decreases top + if blocked { 0int } else { 1int },
            {
                let h = self.calculate_visual_lines_for_row(buffer, top - 1).len();
                proof {
                    assert(rows_height(s, max, (top - 1) as nat, end) == row_height(s, max, (top - 1) as nat)
                        + rows_height(s, max, top as nat, end));
                }
                if h >= eff - acc {
                    blocked = true;
                } else {
                    top -= 1;
                    acc += h;
                }
            }
            proof {
                assert forall|o: nat| old_off <= o < top implies #[trigger] rows_height(s, max, o, end) >= eff by {
                    lemma_rows_height_monotonic(s, max, o, (top - 1) as nat, end);
                }
            }
        } else {
            proof {
                assert forall|o: nat| old_off <= o < top implies #[trigger] rows_height(s, max, o, end) >= eff by {
                    lemma_rows_height_monotonic(s, max, o, top as nat, end);
                }
            }
        }
        if top != self.offset_row {
            self.offset_row = top;
            self.invalidate_cache();
        }
    }

    /// Layout of row `row`, taken from its slot when filled, else computed
    /// (and kept in its slot when the row has one); `None` past the last row.
    pub fn row_layout(&mut self, buffer: &RopeBuffer, row: usize) -> (r: Option<LineLayout>)
        requires
            old(self).cache_fresh(buffer.text()),
        ensures
            final(self).cache_fresh(buffer.text()),
            final(self).same_frame(&*old(self)),
            row < line_count(buffer.text()) ==> r is Some && r.unwrap().is_layout_of(
                line_text(buffer.text(), row as nat),
                final(self).available(buffer.text()),
            ),
            row >= line_count(buffer.text()) ==> r is None,
    {
        if row >= buffer.line_count() {
            return None;
        }
        if row >= self.offset_row && row - self.offset_row < self.line_layout_cache.len() {
            let idx = row - self.offset_row;
            let slot = &self.line_layout_cache[idx];
            if slot.is_some() {
                let l = slot.as_ref().unwrap();
                proof {
                    assert(self.line_layout_cache@[idx as int] is Some);
                    assert(*l == self.line_layout_cache@[idx as int].unwrap());
                    assert(self.offset_row + idx == row);
                }
                let copy = l.duplicate();
                return Some(copy);
            }
            let width = self.get_available_width(buffer);
            let line = buffer.line_chars(row);
            let l = LineLayout::for_line(&line, width);
            let kept = l.duplicate();
            let ghost before = self.line_layout_cache@;
            self.line_layout_cache.set(idx, Some(kept));
            proof {
                assert(self.offset_row + idx == row);
                assert(self.line_layout_cache@[idx as int] == Some(kept));
                assert forall|i: int|
                    0 <= i < self.line_layout_cache@.len() && #[trigger] self.line_layout_cache@[i] is Some implies {
                        &&& self.offset_row + i < line_count(buffer.text())
                        &&& self.line_layout_cache@[i].unwrap().is_layout_of(
                            line_text(buffer.text(), (self.offset_row + i) as nat),
                            self.available(buffer.text()),
                        )
                    } by {
                    if i != idx {
                        assert(before[i] == self.line_layout_cache@[i]);
                    }
                }
            }
            return Some(l);
        }
        let width = self.get_available_width(buffer);
        let line = buffer.line_chars(row);
        Some(LineLayout::for_line(&line, width))
    }
}

} // verus!
