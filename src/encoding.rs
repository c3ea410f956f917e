//! Encoding labels given by the user, resolved to codecs.

use vstd::prelude::*;
use crate::buffer::EncodingConfig;
use vstd::utf8::encode_utf8;
use crate::text::same_text;

verus! {

/// Why an encoding label could not be used.
#[derive(Debug, PartialEq, Eq)]
pub enum EncodingError {
    Unsupported(String),
}

/// The lower-case form of a string.
pub uninterp spec fn lowercase_of(s: Seq<char>) -> Seq<char>;

/// Whether a label names an encoding in the WHATWG encoding standard.
pub uninterp spec fn label_known(label: Seq<u8>) -> bool;

/// `c` with an ASCII capital letter made small.
pub open spec fn ascii_lower(c: char) -> char {
    if 'A' <= c && c <= 'Z' {
        ((c as u32) + 32) as char
    } else {
        c
    }
}

/// Relies on str::to_lowercase: the result depends on the characters alone,
/// and ASCII text has its capital letters made small.
#[verifier::external_body]
fn lowercase(s: &str) -> (r: String)
    ensures
        r@ == lowercase_of(s@),
        (forall|i: int| 0 <= i < s@.len() ==> (s@[i] as u32) < 0x80) ==> r@ == s@.map_values(
            |c: char| ascii_lower(c),
        ),
{
    s.to_lowercase()
}

/// Relies on encoding_rs::Encoding::for_label: the encoding a WHATWG label
/// names, if any.
#[verifier::external_body]
fn encoding_for_label(label: &[u8]) -> (r: Option<&'static encoding_rs::Encoding>)
    ensures
        r is Some <==> label_known(label@),
{
    encoding_rs::Encoding::for_label(label)
}

/// Relies on encoding_rs::GBK.
#[verifier::external_body]
fn gbk_codec() -> (r: &'static encoding_rs::Encoding) {
    encoding_rs::GBK
}

/// Relies on encoding_rs::SHIFT_JIS.
#[verifier::external_body]
fn shift_jis_codec() -> (r: &'static encoding_rs::Encoding) {
    encoding_rs::SHIFT_JIS
}

/// Relies on encoding_rs::BIG5.
#[verifier::external_body]
fn big5_codec() -> (r: &'static encoding_rs::Encoding) {
    encoding_rs::BIG5
}

/// Relies on encoding_rs::WINDOWS_1252.
#[verifier::external_body]
fn windows_1252_codec() -> (r: &'static encoding_rs::Encoding) {
    encoding_rs::WINDOWS_1252
}

/// Relies on str::as_bytes: the UTF-8 bytes of the string.
#[verifier::external_body]
fn bytes_of(s: &str) -> (r: &[u8])
    ensures
        r@ == encode_utf8(s@),
{
    s.as_bytes()
}

/// The short names this editor accepts, in lower case.
pub open spec fn is_short_name(l: Seq<char>) -> bool {
    l == "utf-8"@ || l == "utf8"@ || l == "utf-16le"@ || l == "utf16le"@ || l == "utf-16be"@
        || l == "utf16be"@ || l == "gbk"@ || l == "cp936"@ || l == "shift-jis"@ || l == "shift_jis"@
        || l == "sjis"@ || l == "big5"@ || l == "cp950"@ || l == "cp1252"@ || l == "windows-1252"@
}

/// Whether `label` can be resolved: a short name in any case, or a WHATWG label.
pub open spec fn label_resolves(label: Seq<char>) -> bool {
    is_short_name(lowercase_of(label)) || label_known(encode_utf8(label))
}

/// The codec named by `label`: one of the short names (in any case), else
/// any WHATWG label; an error naming the label otherwise.
pub fn parse_single_encoding(label: &str) -> (r: Result<&'static encoding_rs::Encoding, EncodingError>)
    ensures
        r is Ok <==> label_resolves(label@),
        r matches Err(EncodingError::Unsupported(s)) ==> s@ == label@,
{
    let lower = lowercase(label);
    let l = lower.as_str();
    if same_text(l, "utf-8") || same_text(l, "utf8") {
        Ok(crate::buffer::UnicodeEncoding::Utf8.codec())
    } else if same_text(l, "utf-16le") || same_text(l, "utf16le") {
        Ok(crate::buffer::UnicodeEncoding::Utf16Le.codec())
    } else if same_text(l, "utf-16be") || same_text(l, "utf16be") {
        Ok(crate::buffer::UnicodeEncoding::Utf16Be.codec())
    } else if same_text(l, "gbk") || same_text(l, "cp936") {
        Ok(gbk_codec())
    } else if same_text(l, "shift-jis") || same_text(l, "shift_jis") || same_text(l, "sjis") {
        Ok(shift_jis_codec())
    } else if same_text(l, "big5") || same_text(l, "cp950") {
        Ok(big5_codec())
    } else if same_text(l, "cp1252") || same_text(l, "windows-1252") {
        Ok(windows_1252_codec())
    } else {
        match encoding_for_label(bytes_of(label)) {
            Some(enc) => Ok(enc),
            None => Err(EncodingError::Unsupported(String::from_str(label))),
        }
    }
}

/// Encodings from the command line: reading with `from`; saving with `to`,
/// else with `from`; each absent one left to detection.
pub fn parse_encoding(from: Option<&str>, to: Option<&str>) -> (r: Result<EncodingConfig, EncodingError>)
    ensures
        r is Ok <==> (from is Some ==> label_resolves(from.unwrap()@)) && (to is Some ==> label_resolves(
            to.unwrap()@,
        )),
        r is Ok ==> (r->Ok_0.read_encoding is Some <==> from is Some) && (r->Ok_0.save_encoding is Some
            <==> (from is Some || to is Some)),
{
    let read_encoding = match from {
        Some(s) => match parse_single_encoding(s) {
            Ok(e) => Some(e),
            Err(e) => return Err(e),
        },
        None => None,
    };
    let save_label = match to {
        Some(t) => Some(t),
        None => from,
    };
    let save_encoding = match save_label {
        Some(s) => match parse_single_encoding(s) {
            Ok(e) => Some(e),
            Err(e) => return Err(e),
        },
        None => None,
    };
    Ok(EncodingConfig { read_encoding, save_encoding })
}

/// Index of the first `a` or `b` in `s` from `i` on; the length when none.
pub open spec fn first_of(s: Seq<char>, a: char, b: char, i: int) -> int
    decreases s.len() - i,
{
    if i >= s.len() {
        s.len() as int
    } else if i >= 0 && (s[i] == a || s[i] == b) {
        i
    } else {
        first_of(s, a, b, i + 1)
    }
}

/// The charset part of a locale value such as "zh_TW.Big5@euro": after the
/// first '.', up to the next '.' or '@'; empty without a '.'.
pub open spec fn locale_charset(v: Seq<char>) -> Seq<char> {
    let d = first_of(v, '.', '.', 0);
    if d >= v.len() {
        Seq::empty()
    } else {
        let rest = v.skip(d + 1);
        rest.take(first_of(rest, '.', '@', 0))
    }
}

fn find_first(v: &Vec<char>, a: char, b: char, from: usize) -> (r: usize)
    requires
        from <= v@.len(),
    ensures
        r == first_of(v@, a, b, from as int),
        from <= r <= v@.len(),
{
    let mut i = from;
    while i < v.len() && v[i] != a && v[i] != b
        invariant
            from <= i <= v@.len(),
            first_of(v@, a, b, from as int) == first_of(v@, a, b, i as int),
        decreases v@.len() - i,
    {
        i += 1;
    }
    i
}

/// The encoding named by the charset of a locale value (LANG, LC_ALL, ...);
/// `None` without a charset or when it names no known encoding.
pub fn locale_encoding(value: &str) -> (r: Option<&'static encoding_rs::Encoding>)
    ensures
        locale_charset(value@).len() == 0 ==> r is None,
        locale_charset(value@).len() > 0 ==> (r is Some <==> label_resolves(locale_charset(value@))),
{
    let v = crate::text::chars_of(value);
    let d = find_first(&v, '.', '.', 0);
    if d >= v.len() {
        return None;
    }
    let end = find_first(&v, '.', '@', d + 1);
    proof {
        let rest = v@.skip(d + 1);
        lemma_first_of_shift(v@, d + 1, '.', '@', 0);
        assert(first_of(rest, '.', '@', 0) == end - (d + 1));
        assert(v@.subrange(d + 1, end as int) =~= rest.take(first_of(rest, '.', '@', 0)));
    }
    if end == d + 1 {
        return None;
    }
    let charset = crate::text::string_from_chars(&v, d + 1, end);
    match parse_single_encoding(charset.as_str()) {
        Ok(enc) => Some(enc),
        Err(_) => None,
    }
}

proof fn lemma_first_of_shift(s: Seq<char>, k: int, a: char, b: char, i: int)
    requires
        0 <= k <= s.len(),
        0 <= i,
    ensures
        first_of(s.skip(k), a, b, i) + k == first_of(s, a, b, i + k),
    decreases s.len() - k - i,
{
    if i + k < s.len() {
        assert(s.skip(k)[i] == s[i + k]);
        if !(s[i + k] == a || s[i + k] == b) {
            lemma_first_of_shift(s, k, a, b, i + 1);
        }
    }
}

} // verus!
