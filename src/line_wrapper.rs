//! Simple character wrapping of a string at a fixed width.

use vstd::prelude::*;
use vstd::view::View as ModelView;
use crate::layout::{cw, sat, char_width};
use crate::text::{chars_of, utf8_size, char_utf8_len, string_from_chars};

verus! {

/// Chunks of `s` after greedy wrapping at `max`, as (closed chunks, open
/// chunk, its width): a character that would overflow closes the open chunk.
pub open spec fn chunk_state(s: Seq<char>, max: nat) -> (Seq<Seq<char>>, Seq<char>, nat)
    decreases s.len(),
{
    if s.len() == 0 {
        (Seq::empty(), Seq::empty(), 0)
    } else {
        let prev = chunk_state(s.drop_last(), max);
        let c = cw(s.last());
        if prev.2 + c > max {
            (prev.0.push(prev.1), seq![s.last()], c)
        } else {
            (prev.0, prev.1.push(s.last()), prev.2 + c)
        }
    }
}

/// `s` wrapped at `max`: itself when its UTF-8 size (capped at the largest
/// `usize`) fits, else its chunks.
pub open spec fn wrapped_chunks(s: Seq<char>, max: nat) -> Seq<Seq<char>> {
    if sat(utf8_size(s)) <= max {
        seq![s]
    } else {
        let st = chunk_state(s, max);
        if st.1.len() > 0 {
            st.0.push(st.1)
        } else {
            st.0
        }
    }
}

pub struct LineWrapper {
    max_width: usize,
}

impl LineWrapper {
    pub closed spec fn width(&self) -> nat {
        self.max_width as nat
    }

    pub fn new(max_width: usize) -> (w: LineWrapper)
        ensures
            w.width() == max_width,
    {
        LineWrapper { max_width }
    }

    pub fn set_max_width(&mut self, width: usize)
        ensures
            final(self).width() == width,
    {
        self.max_width = width;
    }

    /// The line cut greedily into chunks of at most the width; a character
    /// that would overflow starts the next chunk.
    pub fn wrap_line(&self, line: &str) -> (r: Vec<String>)
        ensures
            r@.map_values(|x: String| x@) == wrapped_chunks(line@, self.width()),
    {
        let v = chars_of(line);
        let mut size: usize = 0;
        let mut i: usize = 0;
        assert(v@.take(0) =~= Seq::<char>::empty());
        while i < v.len()
            invariant
                v@ == line@,
                i <= v@.len(),
                size == sat(utf8_size(v@.take(i as int))),
            decreases v@.len() - i,
        {
            assert(v@.take(i + 1).drop_last() =~= v@.take(i as int));
            size = size.saturating_add(char_utf8_len(v[i]));
            i += 1;
        }
        assert(v@.take(v@.len() as int) =~= v@);
        let mut out: Vec<String> = Vec::new();
        if size <= self.max_width {
            out.push(String::from_str(line));
            assert(out@.map_values(|x: String| x@) =~= seq![line@]);
            return out;
        }
        let max = self.max_width;
        let mut start: usize = 0;
        let mut w: usize = 0;
        let mut k: usize = 0;
        assert(v@.take(0) =~= Seq::<char>::empty());
        while k < v.len()
            invariant
                v@ == line@,
                start <= k <= v@.len(),
                ({
                    let st = chunk_state(v@.take(k as int), max as nat);
                    &&& out@.map_values(|x: String| x@) == st.0
                    &&& v@.subrange(start as int, k as int) == st.1
                    &&& w == st.2
                }),
                start == k ==> w == 0,
                start < k ==> w <= max || k - start == 1,
            decreases v@.len() - k,
        {
            let c = char_width(v[k]);
            let ghost prev = out@.map_values(|x: String| x@);
            proof {
                assert(v@.take(k + 1).drop_last() =~= v@.take(k as int));
                assert(v@.take(k + 1).last() == v@[k as int]);
            }
            if w > max || c > max - w {
                let piece = string_from_chars(&v, start, k);
                out.push(piece);
                assert(out@.map_values(|x: String| x@) =~= prev.push(v@.subrange(start as int, k as int)));
                start = k;
                w = c;
                assert(v@.subrange(start as int, k + 1) =~= seq![v@[k as int]]);
            } else {
                w = w + c;
                assert(v@.subrange(start as int, k + 1) =~= v@.subrange(start as int, k as int).push(v@[k as int]));
            }
            k += 1;
        }
        let ghost closed = out@.map_values(|x: String| x@);
        if start < v.len() {
            let piece = string_from_chars(&v, start, v.len());
            out.push(piece);
            assert(out@.map_values(|x: String| x@) =~= closed.push(v@.subrange(start as int, v@.len() as int)));
        }
        out
    }
}

} // verus!
