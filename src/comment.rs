//! Line comments: choosing the comment marker from a file's extension, and
//! adding or removing it on a line.

use vstd::prelude::*;
use crate::text::{
    chars_of, extension_of, path_extension, same_text, push_char, string_from_chars, utf8_size,
    char_utf8_len,
};
use crate::layout::{sat, spaces};

verus! {

#[derive(Debug)]
pub enum CommentStyle {
    /// A marker that comments out the rest of the line, such as "//".
    Line(String),
    /// Opening and closing markers, such as "/*" and "*/".
    Block(String, String),
}

/// Whether a character has the Unicode White_Space property.
pub uninterp spec fn is_white_space(c: char) -> bool;

/// Relies on char::is_whitespace: the White_Space property, which among
/// ASCII characters holds of the space and of tab through carriage return.
#[verifier::external_body]
pub(crate) fn char_is_whitespace(c: char) -> (r: bool)
    ensures
        r == is_white_space(c),
        (c as u32) < 0x80 ==> r == (c == ' ' || ('\t' <= c && c <= '\r')),
{
    c.is_whitespace()
}

/// Number of leading white-space characters of `s`.
pub open spec fn leading_ws(s: Seq<char>) -> nat
    decreases s.len(),
{
    if s.len() > 0 && is_white_space(s[0]) {
        1 + leading_ws(s.skip(1))
    } else {
        0
    }
}

/// `s` without its leading white space.
pub open spec fn trim_start(s: Seq<char>) -> Seq<char> {
    s.skip(leading_ws(s) as int)
}

/// Bytes of the leading white space, each replaced by a space when a line is rewritten.
pub open spec fn indent_of(s: Seq<char>) -> Seq<char> {
    spaces(sat(utf8_size(s.take(leading_ws(s) as int))))
}

pub open spec fn starts_with(s: Seq<char>, p: Seq<char>) -> bool {
    p.len() <= s.len() && s.take(p.len() as int) == p
}

/// The line with the comment marker `p` added before its text.
pub open spec fn with_comment(line: Seq<char>, p: Seq<char>) -> Seq<char> {
    let t = trim_start(line);
    if t.len() == 0 {
        p + seq![' ']
    } else {
        indent_of(line) + p + seq![' '] + t
    }
}

/// The line with the comment marker `p` (and one space after it) removed;
/// the line itself when it does not start with the marker.
pub open spec fn without_comment(line: Seq<char>, p: Seq<char>) -> Seq<char> {
    let t = trim_start(line);
    if starts_with(t, p) {
        let after = t.skip(p.len() as int);
        let rest = if after.len() > 0 && after[0] == ' ' { after.skip(1) } else { after };
        if rest.len() == 0 {
            Seq::empty()
        } else {
            indent_of(line) + rest
        }
    } else {
        line
    }
}

/// The comment marker used for files with extension `ext`.
pub open spec fn comment_prefix_for(ext: Option<Seq<char>>) -> Seq<char> {
    match ext {
        Some(e) => if e == "rs"@ || e == "c"@ || e == "cpp"@ || e == "cc"@ || e == "cxx"@ || e == "h"@
            || e == "hpp"@ || e == "java"@ || e == "js"@ || e == "ts"@ || e == "jsx"@ || e == "tsx"@
            || e == "go"@ || e == "cs"@ || e == "php"@ || e == "swift"@ || e == "kt"@ {
            "//"@
        } else if e == "sql"@ || e == "lua"@ || e == "hs"@ || e == "elm"@ {
            "--"@
        } else if e == "bat"@ || e == "cmd"@ {
            "REM"@
        } else if e == "vim"@ || e == "vimrc"@ {
            "\""@
        } else {
            "#"@
        },
        None => "#"@,
    }
}

/// Count of leading white-space characters and their size in bytes.
pub(crate) fn leading_white_space(v: &Vec<char>) -> (r: (usize, usize))
    ensures
        r.0 == leading_ws(v@),
        r.1 == sat(utf8_size(v@.take(leading_ws(v@) as int))),
        r.0 <= v@.len(),
{
    let mut i: usize = 0;
    let mut bytes: usize = 0;
    assert(v@.skip(0) =~= v@);
    assert(v@.take(0) =~= Seq::<char>::empty());
    while i < v.len() && char_is_whitespace(v[i])
        invariant
            i <= v@.len(),
            leading_ws(v@) == i + leading_ws(v@.skip(i as int)),
            bytes == sat(utf8_size(v@.take(i as int))),
        decreases v@.len() - i,
    {
        proof {
            assert(v@.skip(i as int).skip(1) =~= v@.skip(i + 1));
            assert(v@.take(i + 1).drop_last() =~= v@.take(i as int));
        }
        bytes = bytes.saturating_add(char_utf8_len(v[i]));
        i += 1;
    }
    proof {
        if i < v@.len() {
            assert(v@.skip(i as int)[0] == v@[i as int]);
        }
        assert(leading_ws(v@.skip(i as int)) == 0);
    }
    (i, bytes)
}

fn push_spaces(out: &mut String, n: usize)
    ensures
        final(out)@ == old(out)@ + spaces(n as nat),
{
    let mut k: usize = 0;
    let ghost start = out@;
    while k < n
        invariant
            k <= n,
            out@ == start + spaces(k as nat),
        decreases n - k,
    {
        push_char(out, ' ');
        k += 1;
        assert(out@ =~= start + spaces(k as nat));
    }
}

/// Whether `v[from..]` starts with `p`; false when `from` is past the end.
pub fn starts_with_exec(v: &Vec<char>, from: usize, p: &Vec<char>) -> (r: bool)
    ensures
        from <= v@.len() ==> r == starts_with(v@.skip(from as int), p@),
        from > v@.len() ==> !r,
{
    if from > v.len() {
        return false;
    }
    starts_with_at(v, from, p)
}

/// Whether `v[from..]` starts with `p`.
fn starts_with_at(v: &Vec<char>, from: usize, p: &Vec<char>) -> (r: bool)
    requires
        from <= v@.len(),
    ensures
        r == starts_with(v@.skip(from as int), p@),
{
    if p.len() > v.len() - from {
        return false;
    }
    let mut j: usize = 0;
    while j < p.len()
        invariant
            from + p@.len() <= v@.len(),
            v@.len() <= usize::MAX,
            j <= p@.len(),
            forall|k: int| 0 <= k < j ==> v@[from + k] == p@[k],
        decreases p@.len() - j,
    {
        if v[from + j] != p[j] {
            assert(v@.skip(from as int).take(p@.len() as int)[j as int] != p@[j as int]);
            return false;
        }
        j += 1;
    }
    assert(v@.skip(from as int).take(p@.len() as int) =~= p@);
    true
}

pub struct CommentHandler {
    style: Option<CommentStyle>,
}

impl CommentHandler {
    /// The line-comment marker, when the style is a line comment.
    pub closed spec fn line_prefix(&self) -> Option<Seq<char>> {
        match self.style {
            Some(CommentStyle::Line(p)) => Some(p@),
            _ => None,
        }
    }

    pub closed spec fn has_style(&self) -> bool {
        self.style is Some
    }

    /// A handler with no comment style yet.
    pub fn new() -> (h: CommentHandler)
        ensures
            !h.has_style(),
            h.line_prefix() is None,
    {
        CommentHandler { style: None }
    }

    /// Picks the line-comment marker from the path's extension; "#" when it
    /// is not recognised.
    pub fn detect_from_path(&mut self, path: &str)
        ensures
            final(self).has_style(),
            final(self).line_prefix() == Some(comment_prefix_for(extension_of(path@))),
    {
        let prefix = match path_extension(path) {
            Some(ext) => {
                let e = ext.as_str();
                if same_text(e, "rs") || same_text(e, "c") || same_text(e, "cpp") || same_text(e, "cc")
                    || same_text(e, "cxx") || same_text(e, "h") || same_text(e, "hpp") || same_text(e, "java")
                    || same_text(e, "js") || same_text(e, "ts") || same_text(e, "jsx") || same_text(e, "tsx")
                    || same_text(e, "go") || same_text(e, "cs") || same_text(e, "php") || same_text(e, "swift")
                    || same_text(e, "kt") {
                    String::from_str("//")
                } else if same_text(e, "sql") || same_text(e, "lua") || same_text(e, "hs") || same_text(e, "elm") {
                    String::from_str("--")
                } else if same_text(e, "bat") || same_text(e, "cmd") {
                    String::from_str("REM")
                } else if same_text(e, "vim") || same_text(e, "vimrc") {
                    String::from_str("\"")
                } else {
                    String::from_str("#")
                }
            },
            None => String::from_str("#"),
        };
        self.style = Some(CommentStyle::Line(prefix));
    }

    pub fn has_comment_style(&self) -> (r: bool)
        ensures
            r == self.has_style(),
    {
        self.style.is_some()
    }

    /// Whether the line, past its leading white space, starts with the marker.
    pub fn is_commented(&self, line: &str) -> (r: bool)
        ensures
            r == match self.line_prefix() {
                Some(p) => starts_with(trim_start(line@), p),
                None => false,
            },
    {
        match &self.style {
            Some(CommentStyle::Line(prefix)) => {
                let v = chars_of(line);
                let p = chars_of(prefix.as_str());
                let (lead, _) = leading_white_space(&v);
                starts_with_at(&v, lead, &p)
            },
            _ => false,
        }
    }

    /// The line commented out: marker and a space before its text, its
    /// indentation kept as spaces; `None` without a line-comment style.
    pub fn add_comment(&self, line: &str) -> (r: Option<String>)
        ensures
            match self.line_prefix() {
                Some(p) => r is Some && r.unwrap()@ == with_comment(line@, p),
                None => r is None,
            },
    {
        match &self.style {
            Some(CommentStyle::Line(prefix)) => {
                let v = chars_of(line);
                let (lead, bytes) = leading_white_space(&v);
                let mut out = String::new();
                if lead == v.len() {
                    out.append(prefix.as_str());
                    push_char(&mut out, ' ');
                    assert(out@ =~= with_comment(line@, prefix@));
                } else {
                    push_spaces(&mut out, bytes);
                    out.append(prefix.as_str());
                    push_char(&mut out, ' ');
                    let rest = string_from_chars(&v, lead, v.len());
                    out.append(rest.as_str());
                    assert(out@ =~= with_comment(line@, prefix@));
                }
                Some(out)
            },
            _ => None,
        }
    }

    /// The line with its marker removed (with one space after it); the line
    /// unchanged when not commented; `None` without a line-comment style.
    pub fn remove_comment(&self, line: &str) -> (r: Option<String>)
        ensures
            match self.line_prefix() {
                Some(p) => r is Some && r.unwrap()@ == without_comment(line@, p),
                None => r is None,
            },
    {
        match &self.style {
            Some(CommentStyle::Line(prefix)) => {
                let v = chars_of(line);
                let p = chars_of(prefix.as_str());
                Some(uncomment(&v, &p, line))
            },
            _ => None,
        }
    }

    /// Removes the marker from a commented line, adds it to another;
    /// `None` without a line-comment style.
    pub fn toggle_line_comment(&self, line: &str) -> (r: Option<String>)
        ensures
            match self.line_prefix() {
                Some(p) => r is Some && r.unwrap()@ == if starts_with(trim_start(line@), p) {
                    without_comment(line@, p)
                } else {
                    with_comment(line@, p)
                },
                None => r is None,
            },
    {
        if self.is_commented(line) {
            self.remove_comment(line)
        } else {
            self.add_comment(line)
        }
    }

    /// Byte offset of the first occurrence of the marker in the line; `None`
    /// when absent or without a line-comment style.
    pub fn find_comment_start(&self, line: &str) -> (r: Option<usize>)
        ensures
            match self.line_prefix() {
                Some(p) => match r {
                    Some(b) => exists|i: int| 0 <= i <= line@.len() && starts_with(#[trigger] line@.skip(i), p)
                        && b == sat(utf8_size(line@.take(i)))
                        && forall|j: int| 0 <= j < i ==> !starts_with(#[trigger] line@.skip(j), p),
                    None => forall|j: int| 0 <= j <= line@.len() ==> !starts_with(#[trigger] line@.skip(j), p),
                },
                None => r is None,
            },
    {
        match &self.style {
            Some(CommentStyle::Line(prefix)) => {
                let v = chars_of(line);
                let p = chars_of(prefix.as_str());
                let mut i: usize = 0;
                let mut bytes: usize = 0;
                assert(v@.take(0) =~= Seq::<char>::empty());
                while i < v.len()
                    invariant
                        v@ == line@,
                        p@ == prefix@,
                        self.line_prefix() == Some(prefix@),
                        i <= v@.len(),
                        bytes == sat(utf8_size(v@.take(i as int))),
                        forall|j: int| 0 <= j < i ==> !starts_with(#[trigger] v@.skip(j), p@),
                    decreases v@.len() - i,
                {
                    if starts_with_at(&v, i, &p) {
                        assert(starts_with(line@.skip(i as int), prefix@));
                        return Some(bytes);
                    }
                    proof {
                        assert(v@.take(i + 1).drop_last() =~= v@.take(i as int));
                    }
                    bytes = bytes.saturating_add(char_utf8_len(v[i]));
                    i += 1;
                }
                if starts_with_at(&v, i, &p) {
                    assert(starts_with(line@.skip(i as int), prefix@));
                    return Some(bytes);
                }
                None
            },
            _ => None,
        }
    }
}

/// `line` (as characters `v`) without the marker `p`.
fn uncomment(v: &Vec<char>, p: &Vec<char>, line: &str) -> (r: String)
    requires
        v@ == line@,
    ensures
        r@ == without_comment(line@, p@),
{
    let (lead, bytes) = leading_white_space(v);
    let n = v.len();
    if !starts_with_at(v, lead, p) {
        return String::from_str(line);
    }
    let mut start = lead + p.len();
    if start < v.len() && v[start] == ' ' {
        start += 1;
    }
    let ghost t = v@.skip(lead as int);
    let ghost after = t.skip(p@.len() as int);
    proof {
        if after.len() > 0 {
            assert(after[0] == v@[(lead + p@.len()) as int]);
        }
    }
    let mut out = String::new();
    if start < v.len() {
        push_spaces(&mut out, bytes);
        let rest = string_from_chars(v, start, v.len());
        out.append(rest.as_str());
        proof {
            let r2 = if after.len() > 0 && after[0] == ' ' { after.skip(1) } else { after };
            assert(r2 =~= v@.subrange(start as int, v@.len() as int));
        }
    } else {
        proof {
            let r2 = if after.len() > 0 && after[0] == ' ' { after.skip(1) } else { after };
            assert(r2.len() == 0);
        }
    }
    out
}

impl Default for CommentHandler {
    fn default() -> (h: CommentHandler)
        ensures
            !h.has_style(),
    {
        CommentHandler::new()
    }
}

} // verus!
