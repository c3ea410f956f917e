//! Display widths, tab expansion, soft wrapping and the mapping between
//! logical (character) columns and visual (display) columns of one line.

use vstd::prelude::*;
use crate::text::string_from_chars;

verus! {

/// Tab stops are every `TAB_WIDTH` display columns.
pub const TAB_WIDTH: usize = 4;

/// What unicode-width reports for a single character.
pub uninterp spec fn unicode_width_of(c: char) -> Option<usize>;

/// Relies on unicode_width::UnicodeWidthChar::width: the display width of a
/// character, `None` for control characters; printable ASCII is one column
/// wide and C0 / C1 control codes have no width.
#[verifier::external_body]
fn unicode_char_width(c: char) -> (r: Option<usize>)
    ensures
        r == unicode_width_of(c),
        ' ' <= c && c < '\u{7F}' ==> r == Some(1usize),
        c < ' ' || ('\u{7F}' <= c && c < '\u{A0}') ==> r is None,
{
    unicode_width::UnicodeWidthChar::width(c)
}

/// Display width of a character as the layout uses it: one column where
/// unicode-width gives none.
pub open spec fn cw(c: char) -> nat {
    match unicode_width_of(c) {
        Some(w) => w as nat,
        None => 1,
    }
}

/// Sum of the display widths of the characters of `s`.
pub open spec fn width(s: Seq<char>) -> nat
    decreases s.len(),
{
    if s.len() == 0 {
        0
    } else {
        width(s.drop_last()) + cw(s.last())
    }
}

/// `x`, capped at the largest `usize`.
pub open spec fn sat(x: nat) -> nat {
    if x > usize::MAX {
        usize::MAX as nat
    } else {
        x
    }
}

/// Display columns that a character placed at visual column `v` occupies:
/// a tab reaches the next tab stop.
pub open spec fn advance(v: nat, c: char) -> nat {
    if c == '\t' {
        (TAB_WIDTH - v % (TAB_WIDTH as nat)) as nat
    } else {
        cw(c)
    }
}

/// Visual column before character `i` of the line (capped at the largest `usize`).
pub open spec fn vcol(s: Seq<char>, i: int) -> nat
    decreases i,
{
    if i <= 0 {
        0
    } else {
        sat(vcol(s, i - 1) + advance(vcol(s, i - 1), s[i - 1]))
    }
}

/// `n` spaces.
pub open spec fn spaces(n: nat) -> Seq<char> {
    Seq::new(n, |i: int| ' ')
}

/// The line as displayed: each tab replaced by spaces up to the next tab stop.
pub open spec fn expanded(s: Seq<char>) -> Seq<char>
    decreases s.len(),
{
    if s.len() == 0 {
        Seq::empty()
    } else {
        let p = s.drop_last();
        expanded(p) + if s.last() == '\t' {
            spaces(advance(vcol(p, p.len() as int), '\t'))
        } else {
            seq![s.last()]
        }
    }
}

/// Greedy wrapping of `s` at width `max`, as (sub-line starts, start of the
/// last sub-line, width of the last sub-line): a character starts a new
/// sub-line when it would push a non-empty sub-line past `max`.
pub open spec fn wrap_state(s: Seq<char>, max: nat) -> (Seq<int>, int, nat)
    decreases s.len(),
{
    if s.len() == 0 {
        (seq![0int], 0, 0)
    } else {
        let prev = wrap_state(s.drop_last(), max);
        let i = s.len() - 1;
        let c = cw(s.last());
        if prev.1 < i && prev.2 + c > max {
            (prev.0.push(i), i, c)
        } else {
            (prev.0, prev.1, prev.2 + c)
        }
    }
}

/// Offsets at which the sub-lines of `s` start when wrapped at `max`.
pub open spec fn wrap_starts(s: Seq<char>, max: nat) -> Seq<int> {
    wrap_state(s, max).0
}

/// Sub-line `k` of `s` given the sub-line starts `p`.
pub open spec fn segment(s: Seq<char>, p: Seq<int>, k: int) -> Seq<char> {
    s.subrange(p[k], if k + 1 < p.len() { p[k + 1] } else { s.len() as int })
}

/// The sub-lines of the displayed line `d` wrapped at `max`; a single empty
/// sub-line when `max` is zero.
pub open spec fn wrapped(d: Seq<char>, max: nat) -> Seq<Seq<char>> {
    if max == 0 {
        seq![Seq::<char>::empty()]
    } else {
        let p = wrap_starts(d, max);
        Seq::new(p.len(), |k: int| segment(d, p, k))
    }
}

/// The sub-lines of a logical line at available width `max`.
pub open spec fn visual_lines_of(line: Seq<char>, max: nat) -> Seq<Seq<char>> {
    wrapped(expanded(line), max)
}

/// `r` is the logical column for visual column `target` in the map `m`:
/// the first index holding the greatest visual column not past `target`.
pub open spec fn is_col_for_visual(m: Seq<usize>, target: nat, r: int) -> bool {
    &&& 0 <= r < m.len()
    &&& (m[r] <= target || r == 0)
    &&& forall|j: int| 0 <= j < m.len() && m[j] <= target ==> m[j] <= m[r]
    &&& forall|j: int| 0 <= j < r ==> m[j] < m[r]
}

/// The visual column map of a line: entry `i` is the visual column before
/// character `i`, the last entry the width of the whole line.
pub open spec fn is_visual_map(s: Seq<char>, m: Seq<usize>) -> bool {
    &&& m.len() == s.len() + 1
    &&& forall|i: int| 0 <= i <= s.len() ==> m[i] == vcol(s, i)
}

pub proof fn lemma_vcol_monotonic(s: Seq<char>, i: int, j: int)
    requires
        0 <= i <= j,
    ensures
        vcol(s, i) <= vcol(s, j),
        vcol(s, j) <= usize::MAX,
    decreases j,
{
    if j > 0 {
        if i < j {
            lemma_vcol_monotonic(s, i, j - 1);
        }
    }
}

/// Display width of a character: unicode-width's, or one column for a
/// control character.
pub fn char_width(ch: char) -> (w: usize)
    ensures
        w == cw(ch),
        ' ' <= ch && ch < '\u{7F}' ==> w == 1,
        ch < ' ' || ('\u{7F}' <= ch && ch < '\u{A0}') ==> w == 1,
{
    match unicode_char_width(ch) {
        Some(w) => w,
        None => 1,
    }
}

/// Display width of a string (capped at the largest `usize`).
pub fn visual_width(s: &str) -> (w: usize)
    ensures
        w == sat(width(s@)),
{
    let v = crate::text::chars_of(s);
    chars_width(&v)
}

/// Display width of a sequence of characters (capped at the largest `usize`).
pub fn chars_width(v: &Vec<char>) -> (w: usize)
    ensures
        w == sat(width(v@)),
{
    let mut acc: usize = 0;
    let mut i: usize = 0;
    while i < v.len()
        invariant
            i <= v@.len(),
            acc == sat(width(v@.take(i as int))),
        decreases v@.len() - i,
    {
        assert(v@.take(i + 1).drop_last() =~= v@.take(i as int));
        acc = acc.saturating_add(char_width(v[i]));
        i += 1;
    }
    assert(v@.take(v@.len() as int) =~= v@);
    acc
}

/// Expands tabs to the next tab stop and builds the visual column map.
pub fn expand_tabs_and_build_map(line: &Vec<char>) -> (r: (Vec<char>, Vec<usize>))
    ensures
        r.0@ == expanded(line@),
        is_visual_map(line@, r.1@),
{
    let mut displayed: Vec<char> = Vec::new();
    let mut map: Vec<usize> = Vec::new();
    let mut visual_col: usize = 0;
    let mut i: usize = 0;
    while i < line.len()
        invariant
            i <= line@.len(),
            displayed@ == expanded(line@.take(i as int)),
            visual_col == vcol(line@, i as int),
            map@.len() == i,
            forall|j: int| 0 <= j < i ==> map@[j] == vcol(line@, j),
        decreases line@.len() - i,
    {
        map.push(visual_col);
        let ch = line[i];
        let ghost p = line@.take(i as int);
        proof {
            assert(line@.take(i + 1).drop_last() =~= p);
            assert(line@.take(i + 1).last() == ch);
            lemma_vcol_prefix(line@, i as int, i as int);
        }
        if ch == '\t' {
            let n = TAB_WIDTH - visual_col % TAB_WIDTH;
            let mut k: usize = 0;
            let ghost before = displayed@;
            while k < n
                invariant
                    k <= n,
                    displayed@ == before + spaces(k as nat),
                decreases n - k,
            {
                displayed.push(' ');
                k += 1;
                assert(displayed@ =~= before + spaces(k as nat));
            }
            visual_col = visual_col.saturating_add(n);
        } else {
            displayed.push(ch);
            visual_col = visual_col.saturating_add(char_width(ch));
        }
        i += 1;
    }
    map.push(visual_col);
    assert(line@.take(line@.len() as int) =~= line@);
    (displayed, map)
}

proof fn lemma_vcol_prefix(s: Seq<char>, n: int, i: int)
    requires
        0 <= i <= n <= s.len(),
    ensures
        vcol(s.take(n), i) == vcol(s, i),
    decreases i,
{
    if i > 0 {
        lemma_vcol_prefix(s, n, i - 1);
    }
}

/// Start offsets of the sub-lines of `s` wrapped greedily at `max`.
pub fn wrap_points(s: &Vec<char>, max: usize) -> (p: Vec<usize>)
    ensures
        p@.len() == wrap_starts(s@, max as nat).len(),
        forall|k: int| 0 <= k < p@.len() ==> p@[k] == wrap_starts(s@, max as nat)[k],
{
    let mut p: Vec<usize> = Vec::new();
    p.push(0);
    let mut cur_start: usize = 0;
    let mut cur_w: usize = 0;
    let mut i: usize = 0;
    while i < s.len()
        invariant
            i <= s@.len(),
            cur_start <= i,
            ({
                let st = wrap_state(s@.take(i as int), max as nat);
                &&& p@.len() == st.0.len()
                &&& forall|k: int| 0 <= k < p@.len() ==> p@[k] == st.0[k]
                &&& cur_start == st.1
                &&& cur_w == st.2
            }),
            cur_start < i || cur_w == 0,
            cur_start < i ==> cur_w <= max || i - cur_start == 1,
        decreases s@.len() - i,
    {
        let c = char_width(s[i]);
        proof {
            assert(s@.take(i + 1).drop_last() =~= s@.take(i as int));
            assert(s@.take(i + 1).last() == s@[i as int]);
        }
        if cur_start < i && (cur_w > max || c > max - cur_w) {
            p.push(i);
            cur_start = i;
            cur_w = c;
        } else {
            cur_w = cur_w + c;
        }
        i += 1;
    }
    assert(s@.take(s@.len() as int) =~= s@);
    p
}

/// The sub-lines of the displayed line `d` at width `max`; a single empty
/// sub-line when `max` is zero.
pub fn wrap_line(d: &Vec<char>, max: usize) -> (r: Vec<String>)
    ensures
        r@.len() == wrapped(d@, max as nat).len(),
        forall|k: int| 0 <= k < r@.len() ==> r@[k]@ == wrapped(d@, max as nat)[k],
{
    let mut r: Vec<String> = Vec::new();
    if max == 0 {
        r.push(String::new());
        return r;
    }
    let p = wrap_points(d, max);
    let ghost ws = wrap_starts(d@, max as nat);
    proof {
        lemma_wrap_starts_bounds(d@, max as nat);
    }
    let mut k: usize = 0;
    while k < p.len()
        invariant
            k <= p@.len(),
            max > 0,
            ws == wrap_starts(d@, max as nat),
            p@.len() == ws.len(),
            forall|j: int| 0 <= j < p@.len() ==> p@[j] == ws[j],
            forall|j: int| 0 <= j < ws.len() ==> 0 <= #[trigger] ws[j] <= d@.len(),
            forall|j: int| 0 <= j < ws.len() - 1 ==> #[trigger] ws[j] < ws[j + 1],
            r@.len() == k,
            forall|j: int| 0 <= j < k ==> r@[j]@ == segment(d@, ws, j),
        decreases p@.len() - k,
    {
        let end = if k + 1 < p.len() { p[k + 1] } else { d.len() };
        proof {
            assert(ws[k as int] <= d@.len());
            if k + 1 < p.len() {
                assert(ws[k as int] < ws[k + 1]);
            }
        }
        let seg = string_from_chars(d, p[k], end);
        r.push(seg);
        k += 1;
    }
    assert(wrapped(d@, max as nat) == Seq::new(ws.len(), |j: int| segment(d@, ws, j)));
    r
}

proof fn lemma_wrap_starts_bounds(s: Seq<char>, max: nat)
    ensures
        ({
            let st = wrap_state(s, max);
            &&& st.0.len() >= 1
            &&& st.0[0] == 0
            &&& st.0.last() == st.1
            &&& 0 <= st.1 <= s.len()
            &&& s.len() > 0 ==> st.1 < s.len()
            &&& forall|j: int| 0 <= j < st.0.len() ==> 0 <= #[trigger] st.0[j] <= s.len()
            &&& forall|j: int| 0 <= j < st.0.len() - 1 ==> #[trigger] st.0[j] < st.0[j + 1]
        }),
    decreases s.len(),
{
    if s.len() > 0 {
        lemma_wrap_starts_bounds(s.drop_last(), max);
    }
}

/// The visual column map of a line as a sequence.
pub open spec fn visual_map(s: Seq<char>) -> Seq<usize> {
    Seq::new((s.len() + 1) as nat, |i: int| vcol(s, i) as usize)
}

pub open spec fn is_monotonic(m: Seq<usize>) -> bool {
    forall|i: int, j: int| 0 <= i <= j < m.len() ==> m[i] <= m[j]
}

/// The logical column for visual column `target` in map `m`.
pub open spec fn col_for_visual(m: Seq<usize>, target: nat) -> int {
    choose|r: int| is_col_for_visual(m, target, r)
}

proof fn lemma_col_for_visual_unique(m: Seq<usize>, target: nat, r1: int, r2: int)
    requires
        is_monotonic(m),
        is_col_for_visual(m, target, r1),
        is_col_for_visual(m, target, r2),
    ensures
        r1 == r2,
{
    if m[r1] <= target && m[r2] <= target {
        assert(m[r1] == m[r2]);
        if r1 < r2 {
            assert(m[r1] < m[r2]);
        } else if r2 < r1 {
            assert(m[r2] < m[r1]);
        }
    } else if m[r1] > target {
        assert(r1 == 0);
        if r2 != 0 {
            assert(m[0] <= m[r2]);
        }
    } else {
        assert(r2 == 0);
        if r1 != 0 {
            assert(m[0] <= m[r1]);
        }
    }
}

pub proof fn lemma_visual_map_monotonic(s: Seq<char>)
    ensures
        is_monotonic(visual_map(s)),
        visual_map(s)[0] == 0,
{
    assert forall|i: int, j: int| 0 <= i <= j < visual_map(s).len() implies visual_map(s)[i]
        <= visual_map(s)[j] by {
        lemma_vcol_monotonic(s, i, j);
    }
}

/// Logical column for visual column `target`: the first index of `map`
/// holding the greatest visual column not past `target`.
pub fn col_for_visual_exec(map: &Vec<usize>, target: usize) -> (r: usize)
    requires
        map@.len() >= 1,
        is_monotonic(map@),
    ensures
        is_col_for_visual(map@, target as nat, r as int),
        r == col_for_visual(map@, target as nat),
{
    let mut best: usize = 0;
    let mut idx: usize = 1;
    while idx < map.len() && map[idx] <= target
        invariant
            1 <= idx <= map@.len(),
            best < idx,
            is_monotonic(map@),
            map@[best as int] <= target || best == 0,
            forall|j: int| 0 <= j < idx && map@[j] <= target ==> map@[j] <= map@[best as int],
            forall|j: int| 0 <= j < best ==> map@[j] < map@[best as int],
        decreases map@.len() - idx,
    {
        if map[idx] > map[best] {
            best = idx;
        }
        idx += 1;
    }
    proof {
        assert forall|j: int| 0 <= j < map@.len() && map@[j] <= target implies map@[j]
            <= map@[best as int] by {
            if j >= idx {
                assert(map@[idx as int] <= map@[j]);
            }
        }
        assert(is_col_for_visual(map@, target as nat, best as int));
        lemma_col_for_visual_unique(map@, target as nat, best as int, col_for_visual(map@, target as nat));
    }
    best
}

/// Converting a logical column to its visual column and back lands on a
/// logical column no greater than the first, at the same visual column: the
/// closest one not past the target.
pub proof fn lemma_logical_visual_round_trip(s: Seq<char>, c: int)
    requires
        0 <= c <= s.len(),
    ensures
        0 <= col_for_visual(visual_map(s), vcol(s, c)) <= c,
        vcol(s, col_for_visual(visual_map(s), vcol(s, c))) == vcol(s, c),
{
    let m = visual_map(s);
    lemma_visual_map_monotonic(s);
    let target = vcol(s, c);
    lemma_first_equal(m, c);
    let w = choose|r: int| first_of_value(m, c, r);
    lemma_vcol_monotonic(s, c, c);
    assert(m[c] as nat == target);
    assert forall|j: int| 0 <= j < m.len() && m[j] <= target implies m[j] <= m[w] by {}
    assert(is_col_for_visual(m, target, w));
    let r = col_for_visual(m, target);
    lemma_col_for_visual_unique(m, target, r, w);
}

spec fn first_of_value(m: Seq<usize>, c: int, r: int) -> bool {
    0 <= r <= c && m[r] == m[c] && forall|j: int| 0 <= j < r ==> #[trigger] m[j] < m[c]
}

proof fn lemma_first_equal(m: Seq<usize>, c: int)
    requires
        is_monotonic(m),
        0 <= c < m.len(),
    ensures
        exists|r: int| first_of_value(m, c, r),
    decreases c,
{
    if c == 0 {
        assert(first_of_value(m, c, 0));
    } else if m[c - 1] == m[c] {
        let c1 = c - 1;
        lemma_first_equal(m, c1);
        let r = choose|r: int| first_of_value(m, c1, r);
        assert(first_of_value(m, c, r));
    } else {
        assert forall|j: int| 0 <= j < c implies m[j] < m[c] by {
            assert(m[j] <= m[c - 1]);
        }
        assert(first_of_value(m, c, c));
    }
}

proof fn lemma_wrap_state_fits(s: Seq<char>, max: nat)
    requires
        width(s) <= max,
    ensures
        wrap_state(s, max) == (seq![0int], 0int, width(s)),
    decreases s.len(),
{
    if s.len() > 0 {
        lemma_width_prefix(s);
        lemma_wrap_state_fits(s.drop_last(), max);
    }
}

proof fn lemma_width_prefix(s: Seq<char>)
    requires
        s.len() > 0,
    ensures
        width(s.drop_last()) <= width(s),
{
}

/// A displayed line no wider than the available width is not wrapped: it is
/// its own single sub-line. (A width of zero shows every line as one empty
/// sub-line, so there only the empty line qualifies.)
pub proof fn lemma_wrap_fitting_line(d: Seq<char>, max: nat)
    requires
        width(d) <= max,
        max > 0 || d.len() == 0,
    ensures
        wrapped(d, max) == seq![d],
{
    if max == 0 {
        assert(d =~= Seq::<char>::empty());
    } else {
        lemma_wrap_state_fits(d, max);
        let p = wrap_starts(d, max);
        assert(p == seq![0int]);
        assert(segment(d, p, 0) =~= d);
        assert(wrapped(d, max) =~= seq![d]);
    }
}

/// Visual column of logical column `logical_col` (clamped to the line's
/// length), tabs reaching the next tab stop.
pub fn logical_col_to_visual(line: &Vec<char>, logical_col: usize) -> (v: usize)
    ensures
        v == vcol(line@, if logical_col <= line@.len() { logical_col as int } else { line@.len() as int }),
{
    let mut visual_col: usize = 0;
    let mut i: usize = 0;
    while i < line.len() && i < logical_col
        invariant
            i <= line@.len(),
            i <= logical_col,
            visual_col == vcol(line@, i as int),
        decreases line@.len() - i,
    {
        let ch = line[i];
        if ch == '\t' {
            visual_col = visual_col.saturating_add(TAB_WIDTH - visual_col % TAB_WIDTH);
        } else {
            visual_col = visual_col.saturating_add(char_width(ch));
        }
        i += 1;
    }
    visual_col
}

pub open spec fn strings_view(v: Seq<String>) -> Seq<Seq<char>> {
    v.map_values(|x: String| x@)
}

/// Layout of one logical line at a given available width.
pub struct LineLayout {
    /// Sub-lines as displayed: tabs expanded, wrapped at the available width.
    pub visual_lines: Vec<String>,
    /// Number of sub-lines.
    pub visual_height: usize,
    /// Visual column before each logical column, plus the line's width.
    pub logical_to_visual: Vec<usize>,
}

impl LineLayout {
    /// The layout is that of `line` at width `max`.
    pub open spec fn is_layout_of(&self, line: Seq<char>, max: nat) -> bool {
        &&& strings_view(self.visual_lines@) == visual_lines_of(line, max)
        &&& self.visual_height == self.visual_lines@.len()
        &&& is_visual_map(line, self.logical_to_visual@)
    }

    /// A copy of this layout.
    pub fn duplicate(&self) -> (r: LineLayout)
        ensures
            strings_view(r.visual_lines@) == strings_view(self.visual_lines@),
            r.visual_height == self.visual_height,
            r.logical_to_visual@ == self.logical_to_visual@,
            forall|line: Seq<char>, max: nat| self.is_layout_of(line, max) ==> #[trigger] r.is_layout_of(line, max),
    {
        let mut lines: Vec<String> = Vec::new();
        let mut i: usize = 0;
        while i < self.visual_lines.len()
            invariant
                i <= self.visual_lines@.len(),
                lines@.len() == i,
                forall|j: int| 0 <= j < i ==> lines@[j]@ == self.visual_lines@[j]@,
            decreases self.visual_lines@.len() - i,
        {
            lines.push(self.visual_lines[i].clone());
            i += 1;
        }
        let mut map: Vec<usize> = Vec::new();
        let mut k: usize = 0;
        while k < self.logical_to_visual.len()
            invariant
                k <= self.logical_to_visual@.len(),
                map@ == self.logical_to_visual@.take(k as int),
            decreases self.logical_to_visual@.len() - k,
        {
            map.push(self.logical_to_visual[k]);
            k += 1;
            assert(map@ =~= self.logical_to_visual@.take(k as int));
        }
        assert(self.logical_to_visual@.take(self.logical_to_visual@.len() as int) =~= self.logical_to_visual@);
        let r = LineLayout { visual_lines: lines, visual_height: self.visual_height, logical_to_visual: map };
        assert(strings_view(r.visual_lines@) =~= strings_view(self.visual_lines@));
        assert(r.visual_lines@.len() == strings_view(r.visual_lines@).len());
        assert(self.visual_lines@.len() == strings_view(self.visual_lines@).len());
        r
    }

    /// Lays out the characters of a line (without its terminator).
    pub fn for_line(line: &Vec<char>, available_width: usize) -> (l: LineLayout)
        ensures
            l.is_layout_of(line@, available_width as nat),
    {
        let (displayed, map) = expand_tabs_and_build_map(line);
        let visual_lines = wrap_line(&displayed, available_width);
        let visual_height = visual_lines.len();
        let l = LineLayout { visual_lines, visual_height, logical_to_visual: map };
        assert(strings_view(l.visual_lines@) =~= visual_lines_of(line@, available_width as nat));
        l
    }
}

pub proof fn lemma_wrap_nonempty(d: Seq<char>, max: nat)
    ensures
        wrap_starts(d, max).len() >= 1,
        wrapped(d, max).len() >= 1,
{
    lemma_wrap_starts_bounds(d, max);
}

/// `s` made exactly `cols` columns wide for the status bar: padded with
/// spaces when narrower (one per missing character), else cut before the
/// first character that would not fit.
pub fn fit_to_width(s: &str, cols: usize) -> (r: String)
    ensures
        sat(width(s@)) < cols ==> r@ == s@ + spaces(if s@.len() < cols { (cols - s@.len()) as nat } else { 0 }),
        sat(width(s@)) >= cols ==> exists|k: int| 0 <= k <= s@.len() && r@ == s@.take(k) && width(s@.take(k)) <= cols
            && (k == s@.len() || width(#[trigger] s@.take(k + 1)) > cols),
{
    let v = crate::text::chars_of(s);
    let total = chars_width(&v);
    if total < cols {
        let mut out = String::from_str(s);
        let pad = if v.len() < cols { cols - v.len() } else { 0 };
        let mut i: usize = 0;
        let ghost start = out@;
        while i < pad
            invariant
                i <= pad,
                out@ == start + spaces(i as nat),
            decreases pad - i,
        {
            crate::text::push_char(&mut out, ' ');
            i += 1;
            assert(out@ =~= start + spaces(i as nat));
        }
        return out;
    }
    let mut k: usize = 0;
    let mut w: usize = 0;
    let mut done = false;
    assert(v@.take(0) =~= Seq::<char>::empty());
    while !done && k < v.len()
        invariant
            v@ == s@,
            k <= v@.len(),
            w == width(v@.take(k as int)),
            w <= cols,
            done ==> width(v@.take(k + 1)) > cols && k < v@.len(),
        decreases v@.len() - k + if done { 0int } else { 1int },
    {
        let c = char_width(v[k]);
        assert(v@.take(k + 1).drop_last() =~= v@.take(k as int));
        if c > cols - w {
            done = true;
        } else {
            w = w + c;
            k += 1;
        }
    }
    let r = string_from_chars(&v, 0, k);
    assert(v@.subrange(0, k as int) =~= s@.take(k as int));
    assert(k as int == s@.len() || width(s@.take(k as int + 1)) > cols);
    r
}

} // verus!


