//! The editable text buffer: a rope, the file it belongs to, its encodings and
//! its undo/redo history.

use vstd::prelude::*;
use vstd::utf8::{valid_utf8, decode_utf8, encode_utf8, encode_utf8_decode_utf8, encode_utf8_valid_utf8};
use crate::history::{Action, ActionView, History};
use crate::edit_model::{
    BufferModel, Edit, model_edit, model_undo, model_redo, undo_pos, redo_pos,
    can_undo_on, can_redo_on, lemma_edit_wf, lemma_undo_wf, lemma_redo_wf,
    min_nat,
};
use crate::text::{
    rope_chars, rope_new, rope_from_str, rope_len_chars, rope_len_lines, rope_line_to_char,
    rope_char_to_line, rope_char, rope_slice_string, rope_insert, rope_insert_char, rope_remove,
    line_count, line_start, line_full, line_text, breaks_before, trim_newlines_end,
    lemma_line_bounds, lemma_line_start_bounds, chars_of,
};

verus! {

#[verifier::external_type_specification]
#[verifier::external_body]
pub struct ExEncoding(encoding_rs::Encoding);

/// Whether edits are being recorded or history is being replayed.
#[derive(Clone, Copy, Debug, PartialEq, Eq, Structural)]
pub enum RecordingMode {
    Normal,
    Replaying,
}

/// Encodings requested by the user for reading and for saving.
pub struct EncodingConfig {
    pub read_encoding: Option<&'static encoding_rs::Encoding>,
    pub save_encoding: Option<&'static encoding_rs::Encoding>,
}

/// A Unicode encoding recognised from a file's first bytes.
#[derive(Clone, Copy, Debug, PartialEq, Eq, Structural)]
pub enum UnicodeEncoding {
    Utf8,
    Utf16Le,
    Utf16Be,
}

/// The byte-order mark at the start of `b`, with its length, if any.
pub open spec fn bom_of(b: Seq<u8>) -> Option<(UnicodeEncoding, nat)> {
    if b.len() >= 3 && b[0] == 0xEFu8 && b[1] == 0xBBu8 && b[2] == 0xBFu8 {
        Some((UnicodeEncoding::Utf8, 3))
    } else if b.len() >= 2 && b[0] == 0xFFu8 && b[1] == 0xFEu8 {
        Some((UnicodeEncoding::Utf16Le, 2))
    } else if b.len() >= 2 && b[0] == 0xFEu8 && b[1] == 0xFFu8 {
        Some((UnicodeEncoding::Utf16Be, 2))
    } else {
        None
    }
}

/// Unicode detection: a byte-order mark first, else valid UTF-8 without one.
pub open spec fn detected_unicode(b: Seq<u8>) -> Option<(UnicodeEncoding, nat)> {
    match bom_of(b) {
        Some(x) => Some(x),
        None => if valid_utf8(b) {
            Some((UnicodeEncoding::Utf8, 0))
        } else {
            None
        },
    }
}

/// Relies on encoding_rs::Encoding::decode with UTF_8, on input without a
/// byte-order mark: the flag reports malformed sequences, and valid input
/// decodes to the characters it encodes.
#[verifier::external_body]
fn utf8_decode(bytes: &[u8]) -> (r: (String, bool))
    requires
        bom_of(bytes@) is None,
    ensures
        r.1 == !valid_utf8(bytes@),
        valid_utf8(bytes@) ==> r.0@ == decode_utf8(bytes@),
{
    let (text, _, had_errors) = encoding_rs::UTF_8.decode(bytes);
    (text.into_owned(), had_errors)
}

/// What encoding_rs's `decode` gives for `bytes` in `enc`: the text and
/// whether malformed sequences were replaced.
pub uninterp spec fn decoded_of(enc: &'static encoding_rs::Encoding, bytes: Seq<u8>) -> (Seq<char>, bool);

/// What encoding_rs's `encode` gives for `s` in `enc`: the bytes and
/// whether some character could not be represented.
pub uninterp spec fn encoded_of(enc: &'static encoding_rs::Encoding, s: Seq<char>) -> (Seq<u8>, bool);

/// Relies on encoding_rs::Encoding::decode: text decoded with `enc`,
/// malformed sequences replaced, and whether there were any; the result
/// depends on the encoding and the bytes alone.
#[verifier::external_body]
fn decode_with(enc: &'static encoding_rs::Encoding, bytes: &[u8]) -> (r: (String, bool))
    ensures
        (r.0@, r.1) == decoded_of(enc, bytes@),
{
    let (text, _, had_errors) = enc.decode(bytes);
    (text.into_owned(), had_errors)
}

/// Relies on encoding_rs::Encoding::encode: bytes of `s` in `enc`'s output
/// encoding, and whether some character could not be represented; the
/// result depends on the encoding and the text alone.
#[verifier::external_body]
fn encode_with(enc: &'static encoding_rs::Encoding, s: &str) -> (r: (Vec<u8>, bool))
    ensures
        (r.0@, r.1) == encoded_of(enc, s@),
{
    let (bytes, _, had_errors) = enc.encode(s);
    (bytes.into_owned(), had_errors)
}

/// Relies on encoding_rs::Encoding::encode with UTF_8: the UTF-8 bytes of
/// the text, which every character has.
#[verifier::external_body]
fn utf8_encode(s: &str) -> (r: Vec<u8>)
    ensures
        r@ == encode_utf8(s@),
{
    let (bytes, _, _) = encoding_rs::UTF_8.encode(s);
    bytes.into_owned()
}

/// Relies on encoding_rs::UTF_8.
#[verifier::external_body]
fn utf8_codec() -> (r: &'static encoding_rs::Encoding) {
    encoding_rs::UTF_8
}

/// Relies on encoding_rs::UTF_16LE.
#[verifier::external_body]
fn utf16le_codec() -> (r: &'static encoding_rs::Encoding) {
    encoding_rs::UTF_16LE
}

/// Relies on encoding_rs::UTF_16BE.
#[verifier::external_body]
fn utf16be_codec() -> (r: &'static encoding_rs::Encoding) {
    encoding_rs::UTF_16BE
}

/// Name of the last component of a path, when it has one that is valid text.
pub uninterp spec fn file_name_of(p: Seq<char>) -> Option<Seq<char>>;

/// Relies on std::path::Path::file_name: the last component of the path.
#[verifier::external_body]
fn path_file_name(p: &str) -> (r: Option<String>)
    ensures
        r is Some <==> file_name_of(p@) is Some,
        r is Some ==> r.unwrap()@ == file_name_of(p@).unwrap(),
{
    match std::path::Path::new(p).file_name() {
        Some(n) => match n.to_str() {
            Some(t) => Some(t.to_string()),
            None => None,
        },
        None => None,
    }
}

impl UnicodeEncoding {
    /// The codec for this encoding.
    pub fn codec(&self) -> &'static encoding_rs::Encoding {
        match self {
            UnicodeEncoding::Utf8 => utf8_codec(),
            UnicodeEncoding::Utf16Le => utf16le_codec(),
            UnicodeEncoding::Utf16Be => utf16be_codec(),
        }
    }
}

/// Detects a Unicode byte-order mark, or else valid UTF-8; returns the
/// encoding and the length of the mark.
pub fn detect_unicode(bytes: &[u8]) -> (r: Option<(UnicodeEncoding, usize)>)
    ensures
        r is Some <==> detected_unicode(bytes@) is Some,
        r is Some ==> r.unwrap().0 == detected_unicode(bytes@).unwrap().0 && r.unwrap().1
            == detected_unicode(bytes@).unwrap().1,
{
    let n = bytes.len();
    if n >= 3 && bytes[0] == 0xEF && bytes[1] == 0xBB && bytes[2] == 0xBF {
        Some((UnicodeEncoding::Utf8, 3))
    } else if n >= 2 && bytes[0] == 0xFF && bytes[1] == 0xFE {
        Some((UnicodeEncoding::Utf16Le, 2))
    } else if n >= 2 && bytes[0] == 0xFE && bytes[1] == 0xFF {
        Some((UnicodeEncoding::Utf16Be, 2))
    } else {
        let (_, had_errors) = utf8_decode(bytes);
        if !had_errors {
            Some((UnicodeEncoding::Utf8, 0))
        } else {
            None
        }
    }
}

/// Bytes from `start` on.
fn bytes_from(b: &[u8], start: usize) -> (r: Vec<u8>)
    requires
        start <= b@.len(),
    ensures
        r@ == b@.skip(start as int),
{
    let mut v: Vec<u8> = Vec::new();
    let mut i = start;
    while i < b.len()
        invariant
            start <= i <= b@.len(),
            v@ == b@.subrange(start as int, i as int),
        decreases b@.len() - i,
    {
        v.push(b[i]);
        i += 1;
    }
    v
}

/// Why a buffer operation that needs a file could not run.
#[derive(Clone, Copy, Debug, PartialEq, Eq, Structural)]
pub enum BufferError {
    NoFilePath,
}

/// Loading the UTF-8 encoding of a text gives the text back, unless the
/// encoding starts with a byte-order mark (the text starts with U+FEFF).
pub proof fn lemma_utf8_round_trip(t: Seq<char>)
    requires
        bom_of(encode_utf8(t)) is None,
    ensures
        detected_unicode(encode_utf8(t)) == Some((UnicodeEncoding::Utf8, 0nat)),
        utf8_loaded_text(encode_utf8(t)) == Some(t),
{
    encode_utf8_valid_utf8(t);
    encode_utf8_decode_utf8(t);
    assert(encode_utf8(t).skip(0) =~= encode_utf8(t));
}

/// The text that loading `b` yields where it is fixed by UTF-8 alone: the
/// file is UTF-8 (with or without a mark) and the rest is valid UTF-8.
pub open spec fn utf8_loaded_text(b: Seq<u8>) -> Option<Seq<char>> {
    match detected_unicode(b) {
        Some((UnicodeEncoding::Utf8, n)) => if bom_of(b.skip(n as int)) is None && valid_utf8(
            b.skip(n as int),
        ) {
            Some(decode_utf8(b.skip(n as int)))
        } else {
            None
        },
        _ => None,
    }
}

/// `e` when given, else `d`.
pub open spec fn or_default(
    e: Option<&'static encoding_rs::Encoding>,
    d: &'static encoding_rs::Encoding,
) -> &'static encoding_rs::Encoding {
    match e {
        Some(x) => x,
        None => d,
    }
}

/// Whether `b` starts with a byte-order mark.
fn has_bom(b: &[u8]) -> (r: bool)
    ensures
        r == bom_of(b@) is Some,
{
    let n = b.len();
    (n >= 3 && b[0] == 0xEF && b[1] == 0xBB && b[2] == 0xBF) || (n >= 2 && b[0] == 0xFF && b[1]
        == 0xFE) || (n >= 2 && b[0] == 0xFE && b[1] == 0xFF)
}

/// `e` when given, else `d`.
fn pick(e: Option<&'static encoding_rs::Encoding>, d: &'static encoding_rs::Encoding) -> (r:
    &'static encoding_rs::Encoding)
    ensures
        r == or_default(e, d),
{
    match e {
        Some(x) => x,
        None => d,
    }
}

/// Decodes a file's bytes: a detected Unicode encoding wins, then the
/// requested one, then `system`. Returns the text, the encoding used, and
/// whether malformed sequences were replaced.
fn decode_contents(
    b: &Vec<u8>,
    requested: Option<&'static encoding_rs::Encoding>,
    system: &'static encoding_rs::Encoding,
) -> (r: (String, &'static encoding_rs::Encoding, bool))
    ensures
        detected_unicode(b@) is None ==> r.1 == or_default(requested, system) && (r.0@, r.2)
            == decoded_of(or_default(requested, system), b@),
        utf8_loaded_text(b@) is Some ==> r.0@ == utf8_loaded_text(b@).unwrap() && !r.2,
{
    match detect_unicode(b.as_slice()) {
        Some((kind, bom_len)) => {
            let rest = bytes_from(b.as_slice(), bom_len);
            let codec = kind.codec();
            if kind == UnicodeEncoding::Utf8 && !has_bom(rest.as_slice()) {
                let (text, had_errors) = utf8_decode(rest.as_slice());
                (text, codec, had_errors)
            } else {
                let (text, had_errors) = decode_with(codec, rest.as_slice());
                (text, codec, had_errors)
            }
        },
        None => {
            let enc = pick(requested, system);
            let (text, had_errors) = decode_with(enc, b.as_slice());
            (text, enc, had_errors)
        },
    }
}

pub struct RopeBuffer {
    rope: ropey::Rope,
    file_path: Option<String>,
    modified: bool,
    history: History,
    mode: RecordingMode,
    read_encoding: &'static encoding_rs::Encoding,
    save_encoding: &'static encoding_rs::Encoding,
    /// Whether the last load replaced malformed byte sequences.
    decode_errors: bool,
}

impl RopeBuffer {
    /// The characters of the buffer.
    pub open spec fn text(&self) -> Seq<char> {
        self.model().text
    }

    /// Text and history together.
    pub closed spec fn model(&self) -> BufferModel {
        BufferModel {
            text: rope_chars(self.rope),
            undo: self.history.undo_view(),
            redo: self.history.redo_view(),
            max_size: self.history.max(),
        }
    }

    pub closed spec fn modified_flag(&self) -> bool {
        self.modified
    }

    pub closed spec fn path(&self) -> Option<Seq<char>> {
        match self.file_path {
            Some(p) => Some(p@),
            None => None,
        }
    }

    pub closed spec fn decode_flag(&self) -> bool {
        self.decode_errors
    }

    pub closed spec fn read_enc(&self) -> &'static encoding_rs::Encoding {
        self.read_encoding
    }

    pub closed spec fn save_enc(&self) -> &'static encoding_rs::Encoding {
        self.save_encoding
    }

    pub closed spec fn wf(&self) -> bool {
        &&& self.model().wf()
        &&& self.model().max_size >= 1
        &&& self.history.wf()
        &&& self.mode == RecordingMode::Normal
    }

    /// An empty, untitled buffer that reads and saves with `encoding`.
    pub fn new(encoding: &'static encoding_rs::Encoding) -> (b: RopeBuffer)
        ensures
            b.wf(),
            b.text() == Seq::<char>::empty(),
            b.model().undo.len() == 0,
            b.model().redo.len() == 0,
            b.model().max_size == 1000,
            !b.modified_flag(),
            b.path() is None,
            b.read_enc() == encoding,
            b.save_enc() == encoding,
    {
        RopeBuffer {
            rope: rope_new(),
            file_path: None,
            modified: false,
            history: History::default(),
            mode: RecordingMode::Normal,
            read_encoding: encoding,
            save_encoding: encoding,
            decode_errors: false,
        }
    }

    /// Records `action` unless history is being replayed.
    fn record(&mut self, action: Action)
        requires
            old(self).history.wf(),
        ensures
            final(self).history.wf(),
            final(self).history.max() == old(self).history.max(),
            old(self).mode == RecordingMode::Normal ==> final(self).history.undo_view()
                == crate::history::push_bounded(
                old(self).history.undo_view(),
                action@,
                old(self).history.max(),
            ) && final(self).history.redo_view() == Seq::<ActionView>::empty(),
            old(self).mode != RecordingMode::Normal ==> final(self).history == old(self).history,
            final(self).rope == old(self).rope,
            final(self).mode == old(self).mode,
            final(self).file_path == old(self).file_path,
            final(self).modified == old(self).modified,
            final(self).read_encoding == old(self).read_encoding,
            final(self).save_encoding == old(self).save_encoding,
    {
        if self.mode == RecordingMode::Normal {
            self.history.push(action);
        }
    }

    /// Inserts `ch` at `pos`, clamped to the length; records the insertion.
    pub fn insert_char(&mut self, pos: usize, ch: char)
        requires
            old(self).wf(),
        ensures
            final(self).wf(),
            final(self).model() == model_edit(old(self).model(), Edit::InsertChar { pos: pos as nat, ch }),
            final(self).text() == old(self).text().take(min_nat(pos as nat, old(self).text().len()) as int).push(ch)
                + old(self).text().skip(min_nat(pos as nat, old(self).text().len()) as int),
            final(self).modified_flag(),
            final(self).path() == old(self).path(),
            final(self).read_enc() == old(self).read_enc(),
            final(self).save_enc() == old(self).save_enc(),
    {
        let len = rope_len_chars(&self.rope);
        let p = if pos < len { pos } else { len };
        let mut text = String::new();
        crate::text::push_char(&mut text, ch);
        proof {
            assert(text@ =~= seq![ch]);
            lemma_edit_wf(old(self).model(), Edit::InsertChar { pos: pos as nat, ch });
        }
        self.record(Action::Insert { pos: p, text });
        rope_insert_char(&mut self.rope, p, ch);
        self.modified = true;
        proof {
            let t = old(self).text();
            assert(t.take(p as int).push(ch) + t.skip(p as int) =~= t.take(p as int) + seq![ch] + t.skip(p as int));
        }
    }

    /// Inserts `text` at `pos`, clamped to the length; records the insertion.
    pub fn insert(&mut self, pos: usize, text: &str)
        requires
            old(self).wf(),
        ensures
            final(self).wf(),
            final(self).model() == model_edit(old(self).model(), Edit::Insert { pos: pos as nat, text: text@ }),
            final(self).text() == old(self).text().take(min_nat(pos as nat, old(self).text().len()) as int)
                + text@ + old(self).text().skip(min_nat(pos as nat, old(self).text().len()) as int),
            final(self).modified_flag(),
            final(self).path() == old(self).path(),
            final(self).read_enc() == old(self).read_enc(),
            final(self).save_enc() == old(self).save_enc(),
    {
        let len = rope_len_chars(&self.rope);
        let p = if pos < len { pos } else { len };
        let recorded = String::from_str(text);
        proof {
            lemma_edit_wf(old(self).model(), Edit::Insert { pos: pos as nat, text: text@ });
        }
        self.record(Action::Insert { pos: p, text: recorded });
        rope_insert(&mut self.rope, p, text);
        self.modified = true;
    }

    /// Deletes the character at `pos`; nothing happens when `pos` is at or
    /// past the end.
    pub fn delete_char(&mut self, pos: usize)
        requires
            old(self).wf(),
        ensures
            final(self).wf(),
            final(self).model() == model_edit(old(self).model(), Edit::DeleteChar { pos: pos as nat }),
            pos < old(self).text().len() ==> final(self).text() == old(self).text().remove(pos as int)
                && final(self).modified_flag(),
            pos >= old(self).text().len() ==> final(self).modified_flag() == old(self).modified_flag(),
            final(self).path() == old(self).path(),
            final(self).read_enc() == old(self).read_enc(),
            final(self).save_enc() == old(self).save_enc(),
    {
        let len = rope_len_chars(&self.rope);
        if pos < len {
            let ch = rope_char(&self.rope, pos);
            let mut text = String::new();
            crate::text::push_char(&mut text, ch);
            proof {
                assert(text@ =~= seq![ch]);
                lemma_edit_wf(old(self).model(), Edit::DeleteChar { pos: pos as nat });
            }
            self.record(Action::Delete { pos, text });
            rope_remove(&mut self.rope, pos, pos + 1);
            self.modified = true;
            proof {
                let t = old(self).text();
                assert(t.take(pos as int) + t.skip(pos + 1) =~= t.remove(pos as int));
            }
        }
    }

    /// Deletes the characters in `[start, end)`, `end` clamped to the length;
    /// nothing happens when the range is empty or starts at or past the end.
    pub fn delete_range(&mut self, start: usize, end: usize)
        requires
            old(self).wf(),
        ensures
            final(self).wf(),
            final(self).model() == model_edit(old(self).model(), Edit::DeleteRange { start: start as nat, end: end as nat }),
            start < end && start < old(self).text().len() ==> final(self).text() == old(self).text().take(start as int)
                + old(self).text().skip(min_nat(end as nat, old(self).text().len()) as int)
                && final(self).modified_flag(),
            !(start < end && start < old(self).text().len()) ==> final(self).text() == old(self).text()
                && final(self).modified_flag() == old(self).modified_flag(),
            final(self).path() == old(self).path(),
            final(self).read_enc() == old(self).read_enc(),
            final(self).save_enc() == old(self).save_enc(),
    {
        let len = rope_len_chars(&self.rope);
        if start < end && start < len {
            let e = if end < len { end } else { len };
            let text = rope_slice_string(&self.rope, start, e);
            proof {
                lemma_edit_wf(old(self).model(), Edit::DeleteRange { start: start as nat, end: end as nat });
            }
            self.record(Action::DeleteRange { start, end: e, text });
            rope_remove(&mut self.rope, start, e);
            self.modified = true;
        }
    }

    /// Deletes line `row` with its terminator; nothing happens past the last line.
    pub fn delete_line(&mut self, row: usize)
        requires
            old(self).wf(),
        ensures
            final(self).wf(),
            final(self).model() == model_edit(old(self).model(), Edit::DeleteLine { row: row as nat }),
            row < line_count(old(self).text()) ==> final(self).text() == old(self).text().take(
                line_start(old(self).text(), row as nat),
            ) + old(self).text().skip(line_start(old(self).text(), row as nat + 1))
                && final(self).modified_flag(),
            row >= line_count(old(self).text()) ==> final(self).text() == old(self).text()
                && final(self).modified_flag() == old(self).modified_flag(),
            final(self).path() == old(self).path(),
            final(self).read_enc() == old(self).read_enc(),
            final(self).save_enc() == old(self).save_enc(),
    {
        let count = rope_len_lines(&self.rope);
        if row < count {
            let start = rope_line_to_char(&self.rope, row);
            let end = rope_line_to_char(&self.rope, row + 1);
            proof {
                lemma_line_bounds(old(self).text(), row as nat);
            }
            let text = rope_slice_string(&self.rope, start, end);
            proof {
                lemma_edit_wf(old(self).model(), Edit::DeleteLine { row: row as nat });
            }
            self.record(Action::DeleteRange { start, end, text });
            rope_remove(&mut self.rope, start, end);
            self.modified = true;
        }
    }

    /// Reverts the newest recorded action; returns the offset for the cursor,
    /// or `None` when there is nothing to undo.
    pub fn undo(&mut self) -> (r: Option<usize>)
        requires
            old(self).wf(),
        ensures
            final(self).wf(),
            final(self).model() == model_undo(old(self).model()),
            old(self).model().undo.len() == 0 ==> r is None && final(self).modified_flag()
                == old(self).modified_flag(),
            old(self).model().undo.len() > 0 ==> r == Some(undo_pos(old(self).model().undo.last()) as usize)
                && final(self).modified_flag(),
            final(self).path() == old(self).path(),
            final(self).read_enc() == old(self).read_enc(),
            final(self).save_enc() == old(self).save_enc(),
    {
        proof {
            lemma_undo_wf(old(self).model());
        }
        let len = rope_len_chars(&self.rope);
        match self.history.undo() {
            Some(action) => {
                // The action fits in the text, whose length is a `usize`.
                assert(can_undo_on(self.text(), action@) && len == self.text().len());
                self.mode = RecordingMode::Replaying;
                let pos = match action {
                    Action::Insert { pos, text } => {
                        let v = chars_of(text.as_str());
                        rope_remove(&mut self.rope, pos, pos + v.len());
                        pos
                    },
                    Action::Delete { pos, text } => {
                        rope_insert(&mut self.rope, pos, text.as_str());
                        pos
                    },
                    Action::DeleteRange { start, text, .. } => {
                        rope_insert(&mut self.rope, start, text.as_str());
                        start
                    },
                };
                self.modified = true;
                self.mode = RecordingMode::Normal;
                Some(pos)
            },
            None => None,
        }
    }

    /// Applies again the newest undone action; returns the offset for the
    /// cursor, or `None` when there is nothing to redo.
    pub fn redo(&mut self) -> (r: Option<usize>)
        requires
            old(self).wf(),
        ensures
            final(self).wf(),
            final(self).model() == model_redo(old(self).model()),
            old(self).model().redo.len() == 0 ==> r is None && final(self).modified_flag()
                == old(self).modified_flag(),
            old(self).model().redo.len() > 0 ==> r == Some(redo_pos(old(self).model().redo.last()) as usize)
                && final(self).modified_flag(),
            final(self).path() == old(self).path(),
            final(self).read_enc() == old(self).read_enc(),
            final(self).save_enc() == old(self).save_enc(),
    {
        proof {
            lemma_redo_wf(old(self).model());
        }
        let len = rope_len_chars(&self.rope);
        match self.history.redo() {
            Some(action) => {
                // The action fits in the text, whose length is a `usize`.
                assert(can_redo_on(self.text(), action@) && len == self.text().len());
                self.mode = RecordingMode::Replaying;
                let pos = match action {
                    Action::Insert { pos, text } => {
                        rope_insert(&mut self.rope, pos, text.as_str());
                        let v = chars_of(text.as_str());
                        let new_len = rope_len_chars(&self.rope);
                        assert(pos + v@.len() <= new_len);
                        pos + v.len()
                    },
                    Action::Delete { pos, text } => {
                        let v = chars_of(text.as_str());
                        rope_remove(&mut self.rope, pos, pos + v.len());
                        pos
                    },
                    Action::DeleteRange { start, end, .. } => {
                        rope_remove(&mut self.rope, start, end);
                        start
                    },
                };
                self.modified = true;
                self.mode = RecordingMode::Normal;
                Some(pos)
            },
            None => None,
        }
    }

    pub fn can_undo(&self) -> (r: bool)
        requires
            self.wf(),
        ensures
            r == (self.model().undo.len() > 0),
    {
        self.history.can_undo()
    }

    pub fn can_redo(&self) -> (r: bool)
        requires
            self.wf(),
        ensures
            r == (self.model().redo.len() > 0),
    {
        self.history.can_redo()
    }

    pub fn line_count(&self) -> (n: usize)
        ensures
            n == line_count(self.text()),
    {
        rope_len_lines(&self.rope)
    }

    pub fn len_chars(&self) -> (n: usize)
        ensures
            n == self.text().len(),
    {
        rope_len_chars(&self.rope)
    }

    /// Offset at which line `line_idx` starts, the index clamped to the line count.
    pub fn line_to_char(&self, line_idx: usize) -> (n: usize)
        ensures
            n == line_start(self.text(), min_nat(line_idx as nat, line_count(self.text()))),
            n <= self.text().len(),
    {
        let count = rope_len_lines(&self.rope);
        let k = if line_idx < count { line_idx } else { count };
        proof {
            lemma_line_start_bounds(self.text(), k as nat);
        }
        rope_line_to_char(&self.rope, k)
    }

    /// Line holding offset `char_idx`, the offset clamped to the length.
    pub fn char_to_line(&self, char_idx: usize) -> (n: usize)
        ensures
            n == breaks_before(self.text(), min_nat(char_idx as nat, self.text().len()) as int),
    {
        let len = rope_len_chars(&self.rope);
        let c = if char_idx < len { char_idx } else { len };
        rope_char_to_line(&self.rope, c)
    }

    /// Full text of line `idx`, its terminator included; `None` past the last line.
    pub fn line(&self, idx: usize) -> (r: Option<String>)
        ensures
            idx < line_count(self.text()) ==> r is Some && r.unwrap()@ == line_full(self.text(), idx as nat),
            idx >= line_count(self.text()) ==> r is None,
    {
        if idx < rope_len_lines(&self.rope) {
            Some(self.get_line_full(idx))
        } else {
            None
        }
    }

    /// Full text of line `line_idx`; empty past the last line.
    pub fn get_line_content(&self, line_idx: usize) -> (r: String)
        ensures
            line_idx < line_count(self.text()) ==> r@ == line_full(self.text(), line_idx as nat),
            line_idx >= line_count(self.text()) ==> r@.len() == 0,
    {
        match self.line(line_idx) {
            Some(l) => l,
            None => String::new(),
        }
    }

    /// Text from the start of line `line_idx` to the start of the next one
    /// (both clamped to the line count).
    pub fn get_line_full(&self, line_idx: usize) -> (r: String)
        ensures
            r@ == self.text().subrange(
                line_start(self.text(), min_nat(line_idx as nat, line_count(self.text()))),
                line_start(self.text(), min_nat(line_idx as nat + 1, line_count(self.text()))),
            ),
    {
        let count = rope_len_lines(&self.rope);
        let start = self.line_to_char(line_idx);
        let end = if line_idx < count { self.line_to_char(line_idx + 1) } else { start };
        proof {
            let t = self.text();
            let k = min_nat(line_idx as nat, line_count(t));
            lemma_line_start_bounds(t, k);
        }
        rope_slice_string(&self.rope, start, end)
    }

    /// Characters of line `row` without trailing CR / LF; empty past the last line.
    pub fn line_chars(&self, row: usize) -> (v: Vec<char>)
        ensures
            row < line_count(self.text()) ==> v@ == line_text(self.text(), row as nat),
            row >= line_count(self.text()) ==> v@.len() == 0,
    {
        if row >= rope_len_lines(&self.rope) {
            return Vec::new();
        }
        let start = rope_line_to_char(&self.rope, row);
        let full_end = rope_line_to_char(&self.rope, row + 1);
        proof {
            lemma_line_bounds(self.text(), row as nat);
        }
        let mut end = full_end;
        while end > start && (rope_char(&self.rope, end - 1) == '\n' || rope_char(&self.rope, end - 1) == '\r')
            invariant
                start <= end <= full_end <= self.text().len(),
                trim_newlines_end(self.text(), start as int, end as int) == trim_newlines_end(
                    self.text(), start as int, full_end as int),
            decreases end,
        {
            end -= 1;
        }
        let s = rope_slice_string(&self.rope, start, end);
        chars_of(s.as_str())
    }

    /// Number of characters on line `row` without trailing CR / LF; zero past
    /// the last line.
    pub fn line_len(&self, row: usize) -> (n: usize)
        ensures
            row < line_count(self.text()) ==> n == line_text(self.text(), row as nat).len(),
            row >= line_count(self.text()) ==> n == 0,
    {
        let v = self.line_chars(row);
        v.len()
    }

    pub fn is_modified(&self) -> (r: bool)
        ensures
            r == self.modified_flag(),
    {
        self.modified
    }

    pub fn has_file_path(&self) -> (r: bool)
        ensures
            r == self.path() is Some,
    {
        self.file_path.is_some()
    }

    pub fn file_path(&self) -> (r: Option<String>)
        ensures
            r is Some <==> self.path() is Some,
            r is Some ==> r.unwrap()@ == self.path().unwrap(),
    {
        match &self.file_path {
            Some(p) => Some(p.clone()),
            None => None,
        }
    }

    /// Last component of the file path, or "[No Name]".
    pub fn file_name(&self) -> (r: String)
        ensures
            (match self.path() {
                Some(p) => match file_name_of(p) {
                    Some(n) => r@ == n,
                    None => r@ == "[No Name]"@,
                },
                None => r@ == "[No Name]"@,
            }),
    {
        match &self.file_path {
            Some(p) => match path_file_name(p.as_str()) {
                Some(n) => n,
                None => String::from_str("[No Name]"),
            },
            None => String::from_str("[No Name]"),
        }
    }

    pub fn read_encoding(&self) -> (r: &'static encoding_rs::Encoding)
        ensures
            r == self.read_enc(),
    {
        self.read_encoding
    }

    pub fn save_encoding(&self) -> (r: &'static encoding_rs::Encoding)
        ensures
            r == self.save_enc(),
    {
        self.save_encoding
    }

    pub fn set_read_encoding(&mut self, encoding: &'static encoding_rs::Encoding)
        ensures
            final(self).read_enc() == encoding,
            final(self).save_enc() == old(self).save_enc(),
            final(self).model() == old(self).model(),
            final(self).modified_flag() == old(self).modified_flag(),
            final(self).path() == old(self).path(),
            old(self).wf() ==> final(self).wf(),
    {
        self.read_encoding = encoding;
    }

    /// Sets the save encoding and marks the buffer modified, since the bytes
    /// on disk will differ.
    pub fn set_save_encoding(&mut self, encoding: &'static encoding_rs::Encoding)
        ensures
            final(self).save_enc() == encoding,
            final(self).read_enc() == old(self).read_enc(),
            final(self).model() == old(self).model(),
            final(self).modified_flag(),
            final(self).path() == old(self).path(),
            old(self).wf() ==> final(self).wf(),
    {
        self.save_encoding = encoding;
        self.modified = true;
    }

    /// Sets both encodings of a buffer, without marking it modified.
    pub fn change_encoding(&mut self, encoding: &'static encoding_rs::Encoding)
        ensures
            final(self).read_enc() == encoding,
            final(self).save_enc() == encoding,
            final(self).model() == old(self).model(),
            final(self).modified_flag() == old(self).modified_flag(),
            final(self).path() == old(self).path(),
            old(self).wf() ==> final(self).wf(),
    {
        self.read_encoding = encoding;
        self.save_encoding = encoding;
    }

    /// A buffer for the file at `path`, from its bytes (`None` when the file
    /// does not exist). Encoding priority: byte-order mark, valid UTF-8, the
    /// requested read encoding, `system`. A missing file gives an empty buffer
    /// marked modified. The save encoding is the requested save encoding, else
    /// the requested read encoding, else the one used for reading.
    pub fn from_contents(
        path: &str,
        bytes: Option<Vec<u8>>,
        config: &EncodingConfig,
        system: &'static encoding_rs::Encoding,
    ) -> (b: RopeBuffer)
        ensures
            b.wf(),
            b.model().undo.len() == 0,
            b.model().redo.len() == 0,
            b.model().max_size == 1000,
            b.path() == Some(path@),
            b.save_enc() == or_default(config.save_encoding, or_default(config.read_encoding, b.read_enc())),
            bytes is None ==> b.text() == Seq::<char>::empty() && b.modified_flag()
                && b.read_enc() == or_default(config.read_encoding, system),
            bytes is Some ==> !b.modified_flag(),
            bytes is Some && detected_unicode(bytes.unwrap()@) is None ==> b.read_enc() == or_default(
                config.read_encoding, system) && (b.text(), b.decode_flag()) == decoded_of(
                or_default(config.read_encoding, system), bytes.unwrap()@),
            bytes is Some && utf8_loaded_text(bytes.unwrap()@) is Some ==> b.text()
                == utf8_loaded_text(bytes.unwrap()@).unwrap() && !b.decode_flag(),
            bytes is None ==> !b.decode_flag(),
    {
        let (rope, read_encoding, modified, decode_errors) = match bytes {
            Some(b) => {
                let (text, enc, had_errors) = decode_contents(&b, config.read_encoding, system);
                (rope_from_str(text.as_str()), enc, false, had_errors)
            },
            None => (rope_new(), pick(config.read_encoding, system), true, false),
        };
        let save_encoding = pick(config.save_encoding, pick(config.read_encoding, read_encoding));
        RopeBuffer {
            rope,
            file_path: Some(String::from_str(path)),
            modified,
            history: History::default(),
            mode: RecordingMode::Normal,
            read_encoding,
            save_encoding,
            decode_errors,
        }
    }

    /// The whole text in the save encoding, and whether some character could
    /// not be represented (those are written lossily).
    pub fn encoded_contents(&self) -> (r: (Vec<u8>, bool))
        ensures
            (r.0@, r.1) == encoded_of(self.save_enc(), self.text()),
    {
        let s = self.contents();
        encode_with(self.save_encoding, s.as_str())
    }

    /// The whole text.
    pub fn contents(&self) -> (s: String)
        ensures
            s@ == self.text(),
    {
        let len = rope_len_chars(&self.rope);
        let s = rope_slice_string(&self.rope, 0, len);
        assert(self.text().subrange(0, len as int) =~= self.text());
        s
    }

    /// Records a successful write: clears the modified flag and, when given,
    /// takes `path` as the buffer's file.
    pub fn mark_saved(&mut self, path: Option<String>)
        ensures
            !final(self).modified_flag(),
            path is Some ==> final(self).path() == Some(path.unwrap()@),
            path is None ==> final(self).path() == old(self).path(),
            final(self).model() == old(self).model(),
            final(self).read_enc() == old(self).read_enc(),
            final(self).save_enc() == old(self).save_enc(),
            old(self).wf() ==> final(self).wf(),
    {
        if let Some(p) = path {
            self.file_path = Some(p);
        }
        self.modified = false;
    }

    /// Replaces the content with the file's bytes decoded with `encoding`
    /// (`None`: the file is gone, the text becomes empty), which becomes both
    /// encodings; clears the history and the modified flag. Fails, changing
    /// nothing, when the buffer has no file.
    pub fn reload_with_encoding(
        &mut self,
        bytes: Option<Vec<u8>>,
        encoding: &'static encoding_rs::Encoding,
    ) -> (r: Result<(), BufferError>)
        requires
            old(self).wf(),
        ensures
            final(self).wf(),
            old(self).path() is None ==> r == Err::<(), BufferError>(BufferError::NoFilePath)
                && *final(self) == *old(self),
            old(self).path() is Some ==> r is Ok && !final(self).modified_flag()
                && final(self).model().undo.len() == 0 && final(self).model().redo.len() == 0
                && final(self).model().max_size == old(self).model().max_size
                && final(self).read_enc() == encoding && final(self).save_enc() == encoding,
            old(self).path() is Some && bytes is None ==> final(self).text() == Seq::<char>::empty()
                && !final(self).decode_flag(),
            old(self).path() is Some && bytes is Some ==> (final(self).text(), final(self).decode_flag())
                == decoded_of(encoding, bytes.unwrap()@),
            final(self).path() == old(self).path(),
    {
        match &self.file_path {
            None => Err(BufferError::NoFilePath),
            Some(_) => {
                let (rope, decode_errors) = match bytes {
                    Some(b) => {
                        let (text, had_errors) = decode_with(encoding, b.as_slice());
                        (rope_from_str(text.as_str()), had_errors)
                    },
                    None => (rope_new(), false),
                };
                self.rope = rope;
                self.decode_errors = decode_errors;
                self.read_encoding = encoding;
                self.save_encoding = encoding;
                self.modified = false;
                self.history.clear();
                Ok(())
            },
        }
    }

    /// The whole text in UTF-8.
    pub fn utf8_contents(&self) -> (b: Vec<u8>)
        ensures
            b@ == encode_utf8(self.text()),
    {
        let s = self.contents();
        utf8_encode(s.as_str())
    }

    /// Whether loading replaced malformed byte sequences (with U+FFFD);
    /// never the case for valid UTF-8.
    pub fn had_decode_errors(&self) -> (r: bool)
        ensures
            r == self.decode_flag(),
    {
        self.decode_errors
    }
}

} // verus!
