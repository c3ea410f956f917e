//! Finding every occurrence of a query in the buffer and stepping through them.

use vstd::prelude::*;
use crate::buffer::RopeBuffer;
use crate::comment::starts_with;
use crate::text::{line_count, line_text, chars_of};

verus! {

/// Columns at or after `i` at which `q` occurs in `line`, in order.
pub open spec fn positions_from(line: Seq<char>, q: Seq<char>, i: int) -> Seq<nat>
    decreases line.len() + 1 - i,
{
    if i < 0 || i > line.len() {
        Seq::empty()
    } else if starts_with(line.skip(i), q) {
        seq![i as nat] + positions_from(line, q, i + 1)
    } else {
        positions_from(line, q, i + 1)
    }
}

/// Every (row, column) from row `row` on at which `q` occurs, in order.
pub open spec fn matches_from(s: Seq<char>, q: Seq<char>, row: nat) -> Seq<(nat, nat)>
    decreases line_count(s) - row,
{
    if row >= line_count(s) {
        Seq::empty()
    } else {
        positions_from(line_text(s, row), q, 0).map_values(|c: nat| (row, c)) + matches_from(s, q, row + 1)
    }
}

/// Every occurrence of a non-empty query in the text; none for an empty one.
pub open spec fn all_matches(s: Seq<char>, q: Seq<char>) -> Seq<(nat, nat)> {
    if q.len() == 0 {
        Seq::empty()
    } else {
        matches_from(s, q, 0)
    }
}

pub open spec fn pairs_view(v: Seq<(usize, usize)>) -> Seq<(nat, nat)> {
    v.map_values(|p: (usize, usize)| (p.0 as nat, p.1 as nat))
}

pub struct Search {
    query: String,
    matches: Vec<(usize, usize)>,
    current_match: usize,
}

impl Search {
    pub closed spec fn query_text(&self) -> Seq<char> {
        self.query@
    }

    pub closed spec fn found(&self) -> Seq<(nat, nat)> {
        pairs_view(self.matches@)
    }

    pub closed spec fn current(&self) -> nat {
        self.current_match as nat
    }

    pub closed spec fn wf(&self) -> bool {
        if self.matches@.len() == 0 {
            self.current_match == 0
        } else {
            self.current_match < self.matches@.len()
        }
    }

    pub fn new() -> (s: Search)
        ensures
            s.wf(),
            s.query_text().len() == 0,
            s.found().len() == 0,
            s.current() == 0,
    {
        let s = Search { query: String::new(), matches: Vec::new(), current_match: 0 };
        assert(s.found() =~= Seq::<(nat, nat)>::empty());
        s
    }

    /// Sets the query and forgets the previous matches.
    pub fn set_query(&mut self, query: String)
        ensures
            final(self).wf(),
            final(self).query_text() == query@,
            final(self).found().len() == 0,
            final(self).current() == 0,
    {
        self.query = query;
        self.matches = Vec::new();
        self.current_match = 0;
    }

    /// Finds every occurrence of the query, row by row, left to right
    /// (overlapping ones included); the current match goes back to the first.
    pub fn find_matches(&mut self, buffer: &RopeBuffer)
        ensures
            final(self).wf(),
            final(self).query_text() == old(self).query_text(),
            final(self).found() == all_matches(buffer.text(), old(self).query_text()),
            final(self).current() == 0,
    {
        let ghost s = buffer.text();
        self.matches = Vec::new();
        self.current_match = 0;
        let q = chars_of(self.query.as_str());
        if q.len() == 0 {
            assert(self.found() =~= all_matches(s, self.query@));
            return;
        }
        let count = buffer.line_count();
        let mut found: Vec<(usize, usize)> = Vec::new();
        let mut row: usize = 0;
        while row < count
            invariant
                s == buffer.text(),
                count == line_count(s),
                row <= count,
                q@.len() > 0,
                pairs_view(found@) + matches_from(s, q@, row as nat) == matches_from(s, q@, 0),
            decreases count - row,
        {
            let line = buffer.line_chars(row);
            let ghost before = found@;
            let mut i: usize = 0;
            while i < line.len()
                invariant
                    line@ == line_text(s, row as nat),
                    i <= line@.len(),
                    pairs_view(found@) + positions_from(line@, q@, i as int).map_values(|c: nat| (row as nat, c))
                        == pairs_view(before) + positions_from(line@, q@, 0).map_values(|c: nat| (row as nat, c)),
                decreases line@.len() - i,
            {
                let ghost prev = found@;
                let hit = crate::comment::starts_with_exec(&line, i, &q);
                if hit {
                    found.push((row, i));
                }
                proof {
                    let rest = positions_from(line@, q@, i + 1).map_values(|c: nat| (row as nat, c));
                    if hit {
                        assert(positions_from(line@, q@, i as int).map_values(|c: nat| (row as nat, c))
                            =~= seq![(row as nat, i as nat)] + rest);
                        assert(pairs_view(found@) =~= pairs_view(prev).push((row as nat, i as nat)));
                        assert(pairs_view(found@) + rest =~= pairs_view(prev) + (seq![(row as nat, i as nat)] + rest));
                    } else {
                        assert(found@ == prev);
                    }
                }
                i += 1;
            }
            let ghost prev = found@;
            let hit = crate::comment::starts_with_exec(&line, i, &q);
            if hit {
                found.push((row, i));
            }
            proof {
                let rest = positions_from(line@, q@, i + 1).map_values(|c: nat| (row as nat, c));
                assert(positions_from(line@, q@, i + 1) =~= Seq::<nat>::empty());
                if hit {
                    assert(positions_from(line@, q@, i as int).map_values(|c: nat| (row as nat, c))
                        =~= seq![(row as nat, i as nat)] + rest);
                    assert(pairs_view(found@) =~= pairs_view(prev).push((row as nat, i as nat)));
                } else {
                    assert(positions_from(line@, q@, i as int) =~= Seq::<nat>::empty());
                }
                assert(pairs_view(found@) + matches_from(s, q@, (row + 1) as nat) =~= pairs_view(before)
                    + matches_from(s, q@, row as nat));
            }
            row += 1;
        }
        self.matches = found;
        proof {
            assert(pairs_view(self.matches@) =~= pairs_view(self.matches@) + Seq::<(nat, nat)>::empty());
        }
    }

    /// The current match, then advances to the next one (wrapping around);
    /// `None` when there are no matches.
    pub fn next_match(&mut self) -> (r: Option<(usize, usize)>)
        requires
            old(self).wf(),
        ensures
            final(self).wf(),
            final(self).found() == old(self).found(),
            final(self).query_text() == old(self).query_text(),
            old(self).found().len() == 0 ==> r is None && final(self).current() == old(self).current(),
            old(self).found().len() > 0 ==> r is Some && (r.unwrap().0 as nat, r.unwrap().1 as nat)
                == old(self).found()[old(self).current() as int] && final(self).current() == (old(self).current() + 1) % old(self).found().len(),
    {
        if self.matches.len() == 0 {
            return None;
        }
        let result = self.matches[self.current_match];
        self.current_match = (self.current_match + 1) % self.matches.len();
        Some(result)
    }

    /// Steps back to the previous match (wrapping around) and returns it;
    /// `None` when there are no matches.
    pub fn prev_match(&mut self) -> (r: Option<(usize, usize)>)
        requires
            old(self).wf(),
        ensures
            final(self).wf(),
            final(self).found() == old(self).found(),
            final(self).query_text() == old(self).query_text(),
            old(self).found().len() == 0 ==> r is None && final(self).current() == old(self).current(),
            old(self).found().len() > 0 ==> final(self).current() == if old(self).current() == 0 {
                (old(self).found().len() - 1) as nat
            } else {
                (old(self).current() - 1) as nat
            } && r is Some && (r.unwrap().0 as nat, r.unwrap().1 as nat) == old(self).found()[final(self).current() as int],
    {
        if self.matches.len() == 0 {
            return None;
        }
        if self.current_match == 0 {
            self.current_match = self.matches.len() - 1;
        } else {
            self.current_match -= 1;
        }
        Some(self.matches[self.current_match])
    }

    /// Index of the current match.
    pub fn current_index(&self) -> (i: usize)
        requires
            self.wf(),
        ensures
            i == self.current(),
            self.found().len() > 0 ==> i < self.found().len(),
    {
        self.current_match
    }

    pub fn match_count(&self) -> (n: usize)
        ensures
            n == self.found().len(),
    {
        self.matches.len()
    }
}

impl Default for Search {
    fn default() -> (s: Search)
        ensures
            s.wf(),
            s.query_text().len() == 0,
            s.found().len() == 0,
    {
        Search::new()
    }
}

/// Every match lies on a row of the text.
pub proof fn lemma_matches_on_rows(s: Seq<char>, q: Seq<char>, row: nat)
    ensures
        forall|k: int| 0 <= k < matches_from(s, q, row).len() ==> #[trigger] matches_from(s, q, row)[k].0
            < line_count(s),
    decreases line_count(s) - row,
{
    if row < line_count(s) {
        lemma_matches_on_rows(s, q, row + 1);
        let first = positions_from(line_text(s, row), q, 0).map_values(|c: nat| (row, c));
        let rest = matches_from(s, q, row + 1);
        assert forall|k: int| 0 <= k < matches_from(s, q, row).len() implies #[trigger] matches_from(s, q, row)[k].0
            < line_count(s) by {
            if k < first.len() {
                assert(matches_from(s, q, row)[k] == first[k]);
            } else {
                assert(matches_from(s, q, row)[k] == rest[k - first.len()]);
            }
        }
    }
}

} // verus!
