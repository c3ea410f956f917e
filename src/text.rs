//! Character sequences, the line structure of a text, and the rope that
//! stores a buffer's text.

use vstd::prelude::*;

verus! {

/// Whether the character at `i` terminates a line: LF, VT, FF, NEL, LS, PS,
/// or a CR that is not the first half of a CRLF pair.
pub open spec fn is_line_end(s: Seq<char>, i: int) -> bool {
    let c = s[i];
    c == '\n' || c == '\x0B' || c == '\x0C' || c == '\u{85}' || c == '\u{2028}'
        || c == '\u{2029}' || (c == '\r' && !(i + 1 < s.len() && s[i + 1] == '\n'))
}

/// Number of line terminators among the first `p` characters.
pub open spec fn breaks_before(s: Seq<char>, p: int) -> nat
    decreases p,
{
    if p <= 0 {
        0
    } else {
        breaks_before(s, p - 1) + if is_line_end(s, p - 1) {
            1nat
        } else {
            0nat
        }
    }
}

/// Number of lines: one more than the number of line terminators.
pub open spec fn line_count(s: Seq<char>) -> nat {
    breaks_before(s, s.len() as int) + 1
}

/// The offset just after the first line terminator at or after `p`, or the
/// length of `s` if there is none.
pub open spec fn next_line_start(s: Seq<char>, p: int) -> int
    decreases s.len() - p,
{
    if p >= s.len() {
        s.len() as int
    } else if p >= 0 && is_line_end(s, p) {
        p + 1
    } else {
        next_line_start(s, p + 1)
    }
}

/// Character offset at which line `k` starts; the length of `s` for
/// `k >= line_count(s)`.
pub open spec fn line_start(s: Seq<char>, k: nat) -> int
    decreases k,
{
    if k == 0 {
        0
    } else {
        next_line_start(s, line_start(s, (k - 1) as nat))
    }
}

/// End of the range `[start, end)` once trailing CR and LF characters are dropped.
pub open spec fn trim_newlines_end(s: Seq<char>, start: int, end: int) -> int
    decreases end - start,
{
    if end > start && (s[end - 1] == '\n' || s[end - 1] == '\r') {
        trim_newlines_end(s, start, end - 1)
    } else {
        end
    }
}

/// The full text of line `row`, its terminator included.
pub open spec fn line_full(s: Seq<char>, row: nat) -> Seq<char> {
    s.subrange(line_start(s, row), line_start(s, row + 1))
}

/// The text of line `row` without trailing CR / LF characters.
pub open spec fn line_text(s: Seq<char>, row: nat) -> Seq<char> {
    s.subrange(
        line_start(s, row),
        trim_newlines_end(s, line_start(s, row), line_start(s, row + 1)),
    )
}

pub proof fn lemma_next_line_start_bounds(s: Seq<char>, p: int)
    requires
        0 <= p,
    ensures
        p <= s.len() ==> p <= next_line_start(s, p),
        next_line_start(s, p) <= s.len(),
        0 <= next_line_start(s, p),
    decreases s.len() - p,
{
    if p < s.len() && !is_line_end(s, p) {
        lemma_next_line_start_bounds(s, p + 1);
    }
}

pub proof fn lemma_line_start_bounds(s: Seq<char>, k: nat)
    ensures
        0 <= line_start(s, k) <= s.len(),
        line_start(s, k) <= line_start(s, k + 1),
    decreases k,
{
    if k > 0 {
        lemma_line_start_bounds(s, (k - 1) as nat);
        lemma_next_line_start_bounds(s, line_start(s, (k - 1) as nat));
    }
    lemma_next_line_start_bounds(s, line_start(s, k));
    assert(line_start(s, k + 1) == next_line_start(s, line_start(s, k)));
}

pub proof fn lemma_trim_bounds(s: Seq<char>, start: int, end: int)
    requires
        start <= end,
    ensures
        start <= trim_newlines_end(s, start, end) <= end,
    decreases end - start,
{
    if end > start && (s[end - 1] == '\n' || s[end - 1] == '\r') {
        lemma_trim_bounds(s, start, end - 1);
    }
}

/// Bounds of line `row`: its start, its content end and its full end are in order.
pub proof fn lemma_line_bounds(s: Seq<char>, row: nat)
    ensures
        0 <= line_start(s, row),
        line_start(s, row) <= trim_newlines_end(s, line_start(s, row), line_start(s, row + 1)),
        trim_newlines_end(s, line_start(s, row), line_start(s, row + 1)) <= line_start(s, row + 1),
        line_start(s, row + 1) <= s.len(),
{
    lemma_line_start_bounds(s, row);
    lemma_line_start_bounds(s, row + 1);
    lemma_trim_bounds(s, line_start(s, row), line_start(s, row + 1));
}

#[verifier::external_type_specification]
#[verifier::external_body]
pub struct ExRope(ropey::Rope);

/// The characters that a rope holds.
pub uninterp spec fn rope_chars(r: ropey::Rope) -> Seq<char>;

/// Relies on ropey::Rope::new: an empty rope.
#[verifier::external_body]
pub(crate) fn rope_new() -> (r: ropey::Rope)
    ensures
        rope_chars(r) == Seq::<char>::empty(),
{
    ropey::Rope::new()
}

/// Relies on ropey::Rope::from_str: a rope holding the characters of `s`.
#[verifier::external_body]
pub(crate) fn rope_from_str(s: &str) -> (r: ropey::Rope)
    ensures
        rope_chars(r) == s@,
{
    ropey::Rope::from_str(s)
}

/// Relies on ropey::Rope::len_chars: the number of characters.
#[verifier::external_body]
pub(crate) fn rope_len_chars(r: &ropey::Rope) -> (n: usize)
    ensures
        n == rope_chars(*r).len(),
{
    r.len_chars()
}

/// Relies on ropey::Rope::len_lines: the number of line breaks plus one,
/// where LF, CRLF, CR, VT, FF, NEL, LS and PS each count as one break.
#[verifier::external_body]
pub(crate) fn rope_len_lines(r: &ropey::Rope) -> (n: usize)
    ensures
        n == line_count(rope_chars(*r)),
{
    r.len_lines()
}

/// Relies on ropey::Rope::line_to_char: the offset at which a line starts,
/// the length for the line one past the last.
#[verifier::external_body]
pub(crate) fn rope_line_to_char(r: &ropey::Rope, line_idx: usize) -> (n: usize)
    requires
        line_idx <= line_count(rope_chars(*r)),
    ensures
        n == line_start(rope_chars(*r), line_idx as nat),
{
    r.line_to_char(line_idx)
}

/// Relies on ropey::Rope::char_to_line: the number of line breaks before
/// the given offset.
#[verifier::external_body]
pub(crate) fn rope_char_to_line(r: &ropey::Rope, char_idx: usize) -> (n: usize)
    requires
        char_idx <= rope_chars(*r).len(),
    ensures
        n == breaks_before(rope_chars(*r), char_idx as int),
{
    r.char_to_line(char_idx)
}

/// Relies on ropey::Rope::char: the character at an offset.
#[verifier::external_body]
pub(crate) fn rope_char(r: &ropey::Rope, char_idx: usize) -> (c: char)
    requires
        char_idx < rope_chars(*r).len(),
    ensures
        c == rope_chars(*r)[char_idx as int],
{
    r.char(char_idx)
}

/// Relies on ropey::Rope::slice: the characters in `[start, end)` as a string.
#[verifier::external_body]
pub(crate) fn rope_slice_string(r: &ropey::Rope, start: usize, end: usize) -> (s: String)
    requires
        start <= end <= rope_chars(*r).len(),
    ensures
        s@ == rope_chars(*r).subrange(start as int, end as int),
{
    r.slice(start..end).to_string()
}

/// Relies on ropey::Rope::insert: `text` is placed at `char_idx`.
#[verifier::external_body]
pub(crate) fn rope_insert(r: &mut ropey::Rope, char_idx: usize, text: &str)
    requires
        char_idx <= rope_chars(*old(r)).len(),
    ensures
        rope_chars(*final(r)) == rope_chars(*old(r)).take(char_idx as int) + text@
            + rope_chars(*old(r)).skip(char_idx as int),
{
    r.insert(char_idx, text)
}

/// Relies on ropey::Rope::insert_char: `ch` is placed at `char_idx`.
#[verifier::external_body]
pub(crate) fn rope_insert_char(r: &mut ropey::Rope, char_idx: usize, ch: char)
    requires
        char_idx <= rope_chars(*old(r)).len(),
    ensures
        rope_chars(*final(r)) == rope_chars(*old(r)).take(char_idx as int).push(ch)
            + rope_chars(*old(r)).skip(char_idx as int),
{
    r.insert_char(char_idx, ch)
}

/// Relies on ropey::Rope::remove: the characters in `[start, end)` are removed.
#[verifier::external_body]
pub(crate) fn rope_remove(r: &mut ropey::Rope, start: usize, end: usize)
    requires
        start <= end <= rope_chars(*old(r)).len(),
    ensures
        rope_chars(*final(r)) == rope_chars(*old(r)).take(start as int) + rope_chars(
            *old(r),
        ).skip(end as int),
{
    r.remove(start..end)
}

/// The characters of `s`, in order.
pub(crate) fn chars_of(s: &str) -> (v: Vec<char>)
    ensures
        v@ == s@,
{
    let mut v: Vec<char> = Vec::new();
    for c in it: s.chars()
        invariant
            it.seq() == s@,
            v@ == s@.take(it.index() as int),
    {
        v.push(c);
        assert(v@ =~= s@.take(it.index() as int + 1));
    }
    assert(v@ =~= s@);
    v
}

/// Relies on String::push: `c` is appended.
#[verifier::external_body]
pub(crate) fn push_char(s: &mut String, c: char)
    ensures
        final(s)@ == old(s)@.push(c),
{
    s.push(c)
}

/// A string holding the characters `v[start..end]`.
pub fn string_from_chars(v: &Vec<char>, start: usize, end: usize) -> (s: String)
    requires
        start <= end <= v@.len(),
    ensures
        s@ == v@.subrange(start as int, end as int),
{
    let mut s = String::new();
    let mut i = start;
    while i < end
        invariant
            start <= i <= end <= v@.len(),
            s@ == v@.subrange(start as int, i as int),
        decreases end - i,
    {
        push_char(&mut s, v[i]);
        proof {
            assert(v@.subrange(start as int, i + 1) == v@.subrange(start as int, i as int).push(v@[i as int]));
        }
        i += 1;
    }
    s
}

/// Number of bytes of `c` in UTF-8.
pub open spec fn utf8_len(c: char) -> nat {
    if (c as u32) < 0x80 {
        1
    } else if (c as u32) < 0x800 {
        2
    } else if (c as u32) < 0x10000 {
        3
    } else {
        4
    }
}

/// Number of bytes of `s` in UTF-8.
pub open spec fn utf8_size(s: Seq<char>) -> nat
    decreases s.len(),
{
    if s.len() == 0 {
        0
    } else {
        utf8_size(s.drop_last()) + utf8_len(s.last())
    }
}

/// Number of bytes of `c` in UTF-8.
pub fn char_utf8_len(c: char) -> (n: usize)
    ensures
        n == utf8_len(c),
{
    let v = c as u32;
    if v < 0x80 {
        1
    } else if v < 0x800 {
        2
    } else if v < 0x10000 {
        3
    } else {
        4
    }
}

/// Whether two strings hold the same characters.
pub fn same_text(a: &str, b: &str) -> (r: bool)
    ensures
        r == (a@ == b@),
{
    let x = chars_of(a);
    let y = chars_of(b);
    if x.len() != y.len() {
        assert(a@.len() != b@.len());
        return false;
    }
    let mut i: usize = 0;
    while i < x.len()
        invariant
            x@ == a@,
            y@ == b@,
            x@.len() == y@.len(),
            i <= x@.len(),
            forall|j: int| 0 <= j < i ==> x@[j] == y@[j],
        decreases x@.len() - i,
    {
        if x[i] != y[i] {
            assert(a@[i as int] != b@[i as int]);
            assert(a@ != b@);
            return false;
        }
        i += 1;
    }
    assert(x@ =~= y@);
    true
}

/// `s` without one trailing line ending: CRLF, LF or CR.
pub open spec fn without_line_ending(s: Seq<char>) -> Seq<char> {
    if s.len() >= 2 && s[s.len() - 2] == '\r' && s[s.len() - 1] == '\n' {
        s.take(s.len() - 2)
    } else if s.len() >= 1 && (s[s.len() - 1] == '\n' || s[s.len() - 1] == '\r') {
        s.take(s.len() - 1)
    } else {
        s
    }
}

/// Removes one trailing line ending: CRLF, LF or CR.
pub fn strip_line_endings(s: &str) -> (r: String)
    ensures
        r@ == without_line_ending(s@),
{
    let v = chars_of(s);
    let n = v.len();
    let end = if n >= 2 && v[n - 2] == '\r' && v[n - 1] == '\n' {
        n - 2
    } else if n >= 1 && (v[n - 1] == '\n' || v[n - 1] == '\r') {
        n - 1
    } else {
        n
    };
    let r = string_from_chars(&v, 0, end);
    assert(v@.subrange(0, end as int) =~= without_line_ending(s@));
    r
}

/// Extension of the last component of a path, when it has one that is valid text.
pub uninterp spec fn extension_of(p: Seq<char>) -> Option<Seq<char>>;

/// Relies on std::path::Path::extension: the extension of the file name.
#[verifier::external_body]
pub(crate) fn path_extension(p: &str) -> (r: Option<String>)
    ensures
        r is Some <==> extension_of(p@) is Some,
        r is Some ==> r.unwrap()@ == extension_of(p@).unwrap(),
{
    match std::path::Path::new(p).extension() {
        Some(e) => match e.to_str() {
            Some(t) => Some(t.to_string()),
            None => None,
        },
        None => None,
    }
}

} // verus!
