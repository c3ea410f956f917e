//! Cache of highlighted lines, keyed by line index, with invalidation on edits.

use std::collections::HashMap;
use vstd::prelude::*;

verus! {

broadcast use vstd::std_specs::hash::group_hash_axioms;

/// A line's text and its highlighted rendering.
#[derive(Clone, Debug)]
pub struct CachedLine {
    /// The text the entry was made from, to check that it is still current.
    pub text: String,
    /// The highlighted rendering.
    pub highlighted: String,
}

/// Kind of edit, which decides how much of the cache an edit invalidates.
#[derive(Clone, Copy, Debug, PartialEq, Eq, Structural)]
pub enum EditType {
    CharInsert,
    CharDelete,
    LineInsert,
    LineDelete,
    MultiLineEdit,
}

/// Number of cached lines and the bound.
#[derive(Clone, Copy, Debug, PartialEq, Eq, Structural)]
pub struct CacheStats {
    pub cached_lines: usize,
    pub capacity: usize,
}

proof fn lemma_push_contains(s: Seq<usize>, v: usize, x: usize)
    ensures
        s.push(v).contains(x) <==> (s.contains(x) || x == v),
{
    if s.push(v).contains(x) {
        let j = choose|j: int| 0 <= j < s.push(v).len() && s.push(v)[j] == x;
        if j < s.len() {
            assert(s[j] == x);
        }
    }
    if s.contains(x) {
        let j = choose|j: int| 0 <= j < s.len() && s[j] == x;
        assert(s.push(v)[j] == x);
    }
    if x == v {
        assert(s.push(v)[s.len() as int] == x);
    }
}

/// Highlighted lines by line index; at the bound, inserting clears the cache.
pub struct HighlightCache {
    lines: HashMap<usize, CachedLine>,
    /// Every line index in `lines`, so that entries can be dropped by range.
    keys: Vec<usize>,
    max_size: usize,
}

impl HighlightCache {
    /// Cached entries by line index.
    pub closed spec fn lines(&self) -> Map<usize, CachedLine> {
        self.lines@
    }

    pub closed spec fn capacity(&self) -> nat {
        self.max_size as nat
    }

    pub closed spec fn wf(&self) -> bool {
        &&& self.lines@.dom().finite()
        &&& forall|k: usize| self.lines@.contains_key(k) <==> self.keys@.contains(k)
    }

    /// A cache of 1000 lines.
    pub fn new() -> (c: HighlightCache)
        ensures
            c.wf(),
            c.lines() == Map::<usize, CachedLine>::empty(),
            c.capacity() == 1000,
    {
        HighlightCache::with_capacity(1000)
    }

    /// A cache of `max_size` lines.
    pub fn with_capacity(max_size: usize) -> (c: HighlightCache)
        ensures
            c.wf(),
            c.lines() == Map::<usize, CachedLine>::empty(),
            c.capacity() == max_size,
    {
        let cap = if max_size < 1000 { max_size } else { 1000 };
        let c = HighlightCache { lines: HashMap::with_capacity(cap), keys: Vec::new(), max_size };
        assert(c.lines@ =~= Map::<usize, CachedLine>::empty());
        c
    }

    /// The entry for line `line_idx`, if cached.
    pub fn get(&self, line_idx: usize) -> (r: Option<&CachedLine>)
        ensures
            r is Some <==> self.lines().contains_key(line_idx),
            r is Some ==> *r.unwrap() == self.lines()[line_idx],
    {
        self.lines.get(&line_idx)
    }

    /// Whether line `line_idx` is cached with exactly `text`.
    pub fn is_valid(&self, line_idx: usize, text: &str) -> (r: bool)
        ensures
            r == (self.lines().contains_key(line_idx) && self.lines()[line_idx].text@ == text@),
    {
        match self.get(line_idx) {
            Some(c) => {
                let t = String::from_str(text);
                c.text == t
            },
            None => false,
        }
    }

    /// Caches `cached` for line `line_idx`; when the cache is full it is
    /// cleared first.
    pub fn insert(&mut self, line_idx: usize, cached: CachedLine)
        requires
            old(self).wf(),
        ensures
            final(self).wf(),
            final(self).capacity() == old(self).capacity(),
            old(self).lines().len() >= old(self).capacity() ==> final(self).lines()
                == Map::<usize, CachedLine>::empty().insert(line_idx, cached),
            old(self).lines().len() < old(self).capacity() ==> final(self).lines() == old(
                self,
            ).lines().insert(line_idx, cached),
            old(self).lines().len() <= old(self).capacity() && old(self).capacity() >= 1
                ==> final(self).lines().len() <= final(self).capacity(),
    {
        if self.lines.len() >= self.max_size {
            self.clear();
        }
        let ghost k_before = self.keys@;
        let present = self.lines.contains_key(&line_idx);
        if !present {
            self.keys.push(line_idx);
        }
        let ghost l_before = self.lines@;
        self.lines.insert(line_idx, cached);
        proof {
            assert(self.lines@.dom() =~= l_before.dom().insert(line_idx));
            assert(self.lines@.len() <= l_before.len() + 1);
            assert forall|k: usize| self.lines@.contains_key(k) <==> self.keys@.contains(k) by {
                lemma_push_contains(k_before, line_idx, k);
                if present {
                    assert(self.keys@ == k_before);
                } else {
                    assert(self.keys@ == k_before.push(line_idx));
                }
                assert(l_before.contains_key(k) == k_before.contains(k));
            }
        }
    }

    /// Keeps only the entries for lines below `from`, or above `to` when given.
    fn retain_outside(&mut self, from: usize, to: Option<usize>)
        requires
            old(self).wf(),
        ensures
            final(self).wf(),
            final(self).capacity() == old(self).capacity(),
            final(self).lines() == old(self).lines().restrict(outside(from, to)),
    {
        let ghost keep = outside(from, to);
        let ghost l0 = self.lines@;
        let ghost k0 = self.keys@;
        let mut kept: Vec<usize> = Vec::new();
        let mut i: usize = 0;
        while i < self.keys.len()
            invariant
                self.keys@ == k0,
                self.max_size == old(self).max_size,
                keep == outside(from, to),
                i <= k0.len(),
                forall|k: usize| l0.contains_key(k) <==> k0.contains(k),
                l0.dom().finite(),
                self.lines@ =~= l0.remove_keys(Set::new(|k: usize| k0.take(i as int).contains(k) && !keep.contains(k))),
                forall|k: usize| #[trigger] kept@.contains(k) <==> (k0.take(i as int).contains(k) && keep.contains(k)),
            decreases k0.len() - i,
        {
            let k = self.keys[i];
            proof {
                assert(k0.take(i + 1) =~= k0.take(i as int).push(k));
            }
            let ghost t0 = k0.take(i as int);
            let ghost t1 = k0.take(i + 1);
            let ghost kept0 = kept@;
            let ghost lines0 = self.lines@;
            proof {
                assert(t1 == t0.push(k));
                assert forall|x: usize| t1.contains(x) <==> (t0.contains(x) || x == k) by {
                    lemma_push_contains(t0, k, x);
                }
            }
            if k < from || (to.is_some() && k > to.unwrap()) {
                kept.push(k);
                proof {
                    assert(keep.contains(k));
                    assert(kept@ == kept0.push(k));
                    assert(self.lines@ =~= l0.remove_keys(Set::new(|x: usize| t1.contains(x) && !keep.contains(x))));
                    assert forall|x: usize| kept@.contains(x) <==> (t1.contains(x) && keep.contains(x)) by {
                        lemma_push_contains(kept0, k, x);
                        assert(kept0.contains(x) <==> (t0.contains(x) && keep.contains(x)));
                    }
                }
            } else {
                self.lines.remove(&k);
                proof {
                    assert(!keep.contains(k));
                    assert(self.lines@ =~= l0.remove_keys(Set::new(|x: usize| t1.contains(x) && !keep.contains(x))));
                    assert forall|x: usize| kept@.contains(x) <==> (t1.contains(x) && keep.contains(x)) by {
                        assert(kept0.contains(x) <==> (t0.contains(x) && keep.contains(x)));
                    }
                }
            }
            i += 1;
        }
        self.keys = kept;
        proof {
            assert(k0.take(k0.len() as int) =~= k0);
            assert(self.lines@ =~= l0.restrict(keep));
            assert(self.lines@.dom() =~= l0.dom().intersect(keep));
            assert forall|k: usize| self.lines@.contains_key(k) <==> self.keys@.contains(k) by {
                assert(k0.take(k0.len() as int).contains(k) == k0.contains(k));
                assert(l0.contains_key(k) <==> k0.contains(k));
                assert(self.keys@.contains(k) <==> (k0.take(k0.len() as int).contains(k) && keep.contains(k)));
            }
        }
    }

    /// Drops the entry for line `line_idx`.
    pub fn invalidate(&mut self, line_idx: usize)
        requires
            old(self).wf(),
        ensures
            final(self).wf(),
            final(self).capacity() == old(self).capacity(),
            final(self).lines() == old(self).lines().remove(line_idx),
    {
        self.retain_outside(line_idx, Some(line_idx));
        assert(self.lines() =~= old(self).lines().remove(line_idx));
    }

    /// Drops the entries for lines `start..=end`.
    pub fn invalidate_range(&mut self, start: usize, end: usize)
        requires
            old(self).wf(),
        ensures
            final(self).wf(),
            final(self).capacity() == old(self).capacity(),
            final(self).lines() == old(self).lines().restrict(Set::new(|k: usize| k < start || k > end)),
    {
        self.retain_outside(start, Some(end));
        assert(self.lines() =~= old(self).lines().restrict(Set::new(|k: usize| k < start || k > end)));
    }

    /// Drops the entries for line `line_idx` and every line after it.
    pub fn invalidate_from(&mut self, line_idx: usize)
        requires
            old(self).wf(),
        ensures
            final(self).wf(),
            final(self).capacity() == old(self).capacity(),
            final(self).lines() == old(self).lines().restrict(Set::new(|k: usize| k < line_idx)),
    {
        self.retain_outside(line_idx, None);
        assert(self.lines() =~= old(self).lines().restrict(Set::new(|k: usize| k < line_idx)));
    }

    /// Invalidation after an edit on line `line_idx`: a character edit drops
    /// that line and those after it; a line edit drops everything.
    pub fn invalidate_from_edit(&mut self, line_idx: usize, edit_type: EditType)
        requires
            old(self).wf(),
        ensures
            final(self).wf(),
            final(self).capacity() == old(self).capacity(),
            (edit_type == EditType::CharInsert || edit_type == EditType::CharDelete) ==> final(self).lines()
                == old(self).lines().restrict(Set::new(|k: usize| k < line_idx)),
            !(edit_type == EditType::CharInsert || edit_type == EditType::CharDelete) ==> final(self).lines()
                == Map::<usize, CachedLine>::empty(),
    {
        match edit_type {
            EditType::CharInsert | EditType::CharDelete => self.invalidate_from(line_idx),
            _ => self.clear(),
        }
    }

    /// Drops every entry.
    pub fn clear(&mut self)
        ensures
            final(self).wf(),
            final(self).capacity() == old(self).capacity(),
            final(self).lines() == Map::<usize, CachedLine>::empty(),
    {
        self.lines.clear();
        self.keys.clear();
        assert(self.lines@ =~= Map::<usize, CachedLine>::empty());
    }

    pub fn stats(&self) -> (r: CacheStats)
        ensures
            r.cached_lines == self.lines().len(),
            r.capacity == self.capacity(),
    {
        CacheStats { cached_lines: self.len(), capacity: self.max_size }
    }

    /// Number of cached lines.
    pub fn len(&self) -> (n: usize)
        ensures
            n == self.lines().len(),
    {
        self.lines.len()
    }

    pub fn is_empty(&self) -> (r: bool)
        ensures
            r == (self.lines().len() == 0),
    {
        self.len() == 0
    }
}

/// Line indices below `from`, or above `to` when given.
pub open spec fn outside(from: usize, to: Option<usize>) -> Set<usize> {
    Set::new(|k: usize| k < from || (to is Some && k > to.unwrap()))
}

impl Default for HighlightCache {
    fn default() -> (c: HighlightCache)
        ensures
            c.wf(),
            c.lines() == Map::<usize, CachedLine>::empty(),
            c.capacity() == 1000,
    {
        HighlightCache::new()
    }
}

} // verus!
