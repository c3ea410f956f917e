//! Text covered by a selection, and its deletion.

use vstd::prelude::*;
use vstd::view::View as ModelView;
use crate::buffer::RopeBuffer;
use crate::cursor::{Cursor, row_text};
use crate::view::{Selection, View};
use crate::edit_model::{Edit, model_edit, min_nat};
use crate::text::{line_count, line_start};
use crate::layout::{vcol, logical_col_to_visual};
use crate::cursor::clamp_col;

verus! {

pub open spec fn pos_le(a: (usize, usize), b: (usize, usize)) -> bool {
    a.0 < b.0 || (a.0 == b.0 && a.1 <= b.1)
}

/// The earlier and the later end of a selection.
pub open spec fn ordered(sel: Selection) -> ((usize, usize), (usize, usize)) {
    if pos_le(sel.start, sel.end) {
        (sel.start, sel.end)
    } else {
        (sel.end, sel.start)
    }
}

/// `row` clamped to the last row of `s`.
pub open spec fn clamp_row(s: Seq<char>, row: nat) -> nat {
    if row < line_count(s) {
        row
    } else {
        (line_count(s) - 1) as nat
    }
}

/// A position clamped to the text: the row to the last row, the column to
/// that row's length.
pub open spec fn clamp_pos(s: Seq<char>, p: (usize, usize)) -> (nat, nat) {
    let r = clamp_row(s, p.0 as nat);
    let len = row_text(s, r).len();
    (r, if p.1 <= len { p.1 as nat } else { len })
}

/// Rows `from..to`, each followed by a line feed.
pub open spec fn full_rows(s: Seq<char>, from: nat, to: nat) -> Seq<char>
    decreases to - from,
{
    if from >= to {
        Seq::empty()
    } else {
        row_text(s, from) + seq!['\n'] + full_rows(s, from + 1, to)
    }
}

/// The text a selection covers: on one row the columns between its ends;
/// across rows the rest of the first row, the rows between, and the start of
/// the last row, joined by line feeds.
pub open spec fn selected_text(s: Seq<char>, sel: Selection) -> Seq<char> {
    let (a, b) = ordered(sel);
    let (r1, c1) = clamp_pos(s, a);
    let (r2, c2) = clamp_pos(s, b);
    if r1 == r2 {
        row_text(s, r1).subrange(c1 as int, if c1 <= c2 { c2 as int } else { c1 as int })
    } else {
        row_text(s, r1).skip(c1 as int) + seq!['\n'] + full_rows(s, r1 + 1, r2) + row_text(s, r2).take(c2 as int)
    }
}

/// Character offset of a clamped position.
pub open spec fn offset_of(s: Seq<char>, p: (nat, nat)) -> nat {
    (line_start(s, p.0) + p.1) as nat
}

fn clamp_position(buffer: &RopeBuffer, p: (usize, usize)) -> (r: (usize, usize))
    ensures
        r.0 == clamp_pos(buffer.text(), p).0,
        r.1 == clamp_pos(buffer.text(), p).1,
{
    let count = buffer.line_count();
    let row = if p.0 < count { p.0 } else { count - 1 };
    let len = buffer.line_len(row);
    (row, if p.1 <= len { p.1 } else { len })
}

fn ordered_ends(sel: &Selection) -> (r: ((usize, usize), (usize, usize)))
    ensures
        r == ordered(*sel),
{
    if sel.start.0 < sel.end.0 || (sel.start.0 == sel.end.0 && sel.start.1 <= sel.end.1) {
        (sel.start, sel.end)
    } else {
        (sel.end, sel.start)
    }
}

fn push_chars(out: &mut String, v: &Vec<char>, start: usize, end: usize)
    requires
        start <= end <= v@.len(),
    ensures
        final(out)@ == old(out)@ + v@.subrange(start as int, end as int),
{
    let piece = crate::text::string_from_chars(v, start, end);
    out.append(piece.as_str());
}

/// The text that `sel` covers in `buffer`, positions clamped to the text.
pub fn get_selected_text(buffer: &RopeBuffer, sel: &Selection) -> (t: String)
    ensures
        t@ == selected_text(buffer.text(), *sel),
{
    let ghost s = buffer.text();
    let (a, b) = ordered_ends(sel);
    let (r1, c1) = clamp_position(buffer, a);
    let (r2, c2) = clamp_position(buffer, b);
    let mut text = String::new();
    let first = buffer.line_chars(r1);
    if r1 == r2 {
        let e = if c1 <= c2 { c2 } else { c1 };
        push_chars(&mut text, &first, c1, e);
        assert(text@ =~= selected_text(s, *sel));
        return text;
    }
    push_chars(&mut text, &first, c1, first.len());
    crate::text::push_char(&mut text, '\n');
    let mut row = r1 + 1;
    proof {
        assert(r1 < r2);
    }
    while row < r2
        invariant
            s == buffer.text(),
            r1 < row <= r2,
            r2 < line_count(s),
            text@ + full_rows(s, row as nat, r2 as nat) == row_text(s, r1 as nat).skip(c1 as int)
                + seq!['\n'] + full_rows(s, (r1 + 1) as nat, r2 as nat),
        decreases r2 - row,
    {
        let line = buffer.line_chars(row);
        let ghost before = text@;
        push_chars(&mut text, &line, 0, line.len());
        crate::text::push_char(&mut text, '\n');
        proof {
            assert(line@.subrange(0, line@.len() as int) =~= line@);
            assert(text@ =~= before + row_text(s, row as nat) + seq!['\n']);
            assert(before + full_rows(s, row as nat, r2 as nat) =~= text@ + full_rows(s, (row + 1) as nat, r2 as nat));
        }
        row += 1;
    }
    let last = buffer.line_chars(r2);
    let ghost before = text@;
    push_chars(&mut text, &last, 0, c2);
    proof {
        assert(full_rows(s, r2 as nat, r2 as nat) =~= Seq::<char>::empty());
        assert(before =~= row_text(s, r1 as nat).skip(c1 as int) + seq!['\n'] + full_rows(s, (r1 + 1) as nat, r2 as nat));
        assert(last@.subrange(0, c2 as int) =~= last@.take(c2 as int));
        assert(first@.subrange(c1 as int, first@.len() as int) =~= first@.skip(c1 as int));
        assert(text@ =~= selected_text(s, *sel));
    }
    text
}

/// Deletes the text between the ends of `sel` (positions clamped to the
/// text) with one range deletion, and puts the cursor at the earlier end.
pub fn delete_selection(buffer: &mut RopeBuffer, cursor: &mut Cursor, view: &View, sel: &Selection)
    requires
        old(buffer).wf(),
    ensures
        final(buffer).wf(),
        ({
            let s = old(buffer).text();
            let (a, b) = ordered(*sel);
            let p1 = clamp_pos(s, a);
            let p2 = clamp_pos(s, b);
            &&& final(buffer).model() == model_edit(old(buffer).model(),
                Edit::DeleteRange { start: offset_of(s, p1), end: offset_of(s, p2) })
            &&& final(buffer).text() == if offset_of(s, p1) < offset_of(s, p2) && offset_of(s, p1) < s.len() {
                s.take(offset_of(s, p1) as int) + s.skip(min_nat(offset_of(s, p2), s.len()) as int)
            } else {
                s
            }
            &&& final(cursor).row == clamp_pos(final(buffer).text(), (p1.0 as usize, p1.1 as usize)).0
            &&& final(cursor).col == clamp_pos(final(buffer).text(), (p1.0 as usize, p1.1 as usize)).1
            &&& final(cursor).is_valid(final(buffer).text(), view.available(final(buffer).text()))
        }),
{
    let ghost s = buffer.text();
    let (a, b) = ordered_ends(sel);
    let (r1, c1) = clamp_position(buffer, a);
    let (r2, c2) = clamp_position(buffer, b);
    let start = buffer.line_to_char(r1);
    let end = buffer.line_to_char(r2);
    let total = buffer.len_chars();
    proof {
        assert(total == s.len());
        crate::text::lemma_line_bounds(s, r1 as nat);
        crate::text::lemma_line_bounds(s, r2 as nat);
    }
    buffer.delete_range(start + c1, end + c2);
    cursor.set_position(buffer, view, r1, c1);
}

/// Visual column of logical column `col` on row `row`; the column itself
/// past the last row.
pub open spec fn visual_col_on(s: Seq<char>, row: nat, col: nat) -> nat {
    if row < line_count(s) {
        vcol(row_text(s, row), clamp_col(row_text(s, row), col))
    } else {
        col
    }
}

/// The selection's ends as (row, visual column), the earlier first.
pub fn visual_selection(buffer: &RopeBuffer, sel: &Selection) -> (r: ((usize, usize), (usize, usize)))
    ensures
        ({
            let s = buffer.text();
            let (a, b) = ordered(*sel);
            &&& r.0.0 == a.0 && r.0.1 == visual_col_on(s, a.0 as nat, a.1 as nat)
            &&& r.1.0 == b.0 && r.1.1 == visual_col_on(s, b.0 as nat, b.1 as nat)
        }),
{
    let (a, b) = ordered_ends(sel);
    let count = buffer.line_count();
    let va = if a.0 < count {
        let line = buffer.line_chars(a.0);
        logical_col_to_visual(&line, a.1)
    } else {
        a.1
    };
    let vb = if b.0 < count {
        let line = buffer.line_chars(b.0);
        logical_col_to_visual(&line, b.1)
    } else {
        b.1
    };
    ((a.0, va), (b.0, vb))
}

/// Whether the character at visual column `col` of row `row` lies in the
/// visual selection `range` (end exclusive).
pub fn is_cell_selected(range: ((usize, usize), (usize, usize)), row: usize, col: usize) -> (r: bool)
    ensures
        r == (range.0.0 <= row <= range.1.0 && (row > range.0.0 || col >= range.0.1) && (row
            < range.1.0 || col < range.1.1)),
{
    let ((r1, c1), (r2, c2)) = range;
    if row < r1 || row > r2 {
        false
    } else if row == r1 && row == r2 {
        col >= c1 && col < c2
    } else if row == r1 {
        col >= c1
    } else if row == r2 {
        col < c2
    } else {
        true
    }
}

} // verus!
