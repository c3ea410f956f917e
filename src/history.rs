//! Bounded undo/redo log of edit actions.

use vstd::prelude::*;

verus! {

/// One recorded edit. Character offsets; `text` is what was inserted or removed.
#[derive(Clone, Debug)]
pub enum Action {
    Insert { pos: usize, text: String },
    Delete { pos: usize, text: String },
    DeleteRange { start: usize, end: usize, text: String },
}

/// The mathematical value of an [`Action`].
pub enum ActionView {
    Insert { pos: nat, text: Seq<char> },
    Delete { pos: nat, text: Seq<char> },
    DeleteRange { start: nat, end: nat, text: Seq<char> },
}

impl View for Action {
    type V = ActionView;

    open spec fn view(&self) -> ActionView {
        match self {
            Action::Insert { pos, text } => ActionView::Insert { pos: *pos as nat, text: text@ },
            Action::Delete { pos, text } => ActionView::Delete { pos: *pos as nat, text: text@ },
            Action::DeleteRange { start, end, text } => ActionView::DeleteRange {
                start: *start as nat,
                end: *end as nat,
                text: text@,
            },
        }
    }
}

impl Action {
    /// A copy of this action.
    pub fn duplicate(&self) -> (r: Action)
        ensures
            r@ == self@,
    {
        match self {
            Action::Insert { pos, text } => Action::Insert { pos: *pos, text: text.clone() },
            Action::Delete { pos, text } => Action::Delete { pos: *pos, text: text.clone() },
            Action::DeleteRange { start, end, text } => Action::DeleteRange {
                start: *start,
                end: *end,
                text: text.clone(),
            },
        }
    }
}

/// The undo stack after `a` is recorded: with a bound of zero nothing is kept;
/// at the bound the oldest entry is dropped first.
pub open spec fn push_bounded(u: Seq<ActionView>, a: ActionView, max_size: nat) -> Seq<
    ActionView,
> {
    if max_size == 0 {
        u
    } else if u.len() >= max_size {
        u.skip(1).push(a)
    } else {
        u.push(a)
    }
}

/// The undo stack after each of `actions` is recorded in order.
pub open spec fn push_all(u: Seq<ActionView>, actions: Seq<ActionView>, max_size: nat) -> Seq<
    ActionView,
>
    decreases actions.len(),
{
    if actions.len() == 0 {
        u
    } else {
        push_bounded(push_all(u, actions.drop_last(), max_size), actions.last(), max_size)
    }
}

/// Undo and redo stacks of actions; the top of each stack is its last element.
pub struct History {
    undo_stack: Vec<Action>,
    redo_stack: Vec<Action>,
    max_size: usize,
}

pub open spec fn views_of(v: Seq<Action>) -> Seq<ActionView> {
    v.map_values(|a: Action| a@)
}

impl History {
    pub closed spec fn undo_view(&self) -> Seq<ActionView> {
        views_of(self.undo_stack@)
    }

    pub closed spec fn redo_view(&self) -> Seq<ActionView> {
        views_of(self.redo_stack@)
    }

    pub closed spec fn max(&self) -> nat {
        self.max_size as nat
    }

    /// The two stacks together never hold more than the bound.
    pub open spec fn wf(&self) -> bool {
        self.undo_view().len() + self.redo_view().len() <= self.max()
    }

    pub fn new(max_size: usize) -> (h: History)
        ensures
            h.wf(),
            h.undo_view() == Seq::<ActionView>::empty(),
            h.redo_view() == Seq::<ActionView>::empty(),
            h.max() == max_size,
    {
        let h = History { undo_stack: Vec::new(), redo_stack: Vec::new(), max_size };
        assert(h.undo_view() =~= Seq::<ActionView>::empty());
        assert(h.redo_view() =~= Seq::<ActionView>::empty());
        h
    }

    /// Records `action`, evicting the oldest entry at the bound, and clears
    /// the redo stack.
    pub fn push(&mut self, action: Action)
        requires
            old(self).wf(),
        ensures
            final(self).wf(),
            final(self).undo_view() == push_bounded(old(self).undo_view(), action@, old(self).max()),
            final(self).redo_view() == Seq::<ActionView>::empty(),
            final(self).max() == old(self).max(),
    {
        self.redo_stack.clear();
        if self.max_size == 0 {
            assert(self.redo_view() =~= Seq::<ActionView>::empty());
            return;
        }
        let ghost u0 = self.undo_stack@;
        if self.undo_stack.len() >= self.max_size {
            self.undo_stack.remove(0);
            assert(views_of(self.undo_stack@) =~= views_of(u0).skip(1));
        }
        let ghost u1 = self.undo_stack@;
        self.undo_stack.push(action);
        assert(views_of(self.undo_stack@) =~= views_of(u1).push(self.undo_stack@.last()@));
        assert(self.redo_view() =~= Seq::<ActionView>::empty());
    }

    /// Moves the top undo entry to the redo stack and returns it.
    pub fn undo(&mut self) -> (r: Option<Action>)
        requires
            old(self).wf(),
        ensures
            final(self).wf(),
            final(self).max() == old(self).max(),
            old(self).undo_view().len() == 0 ==> r.is_none() && final(self).undo_view()
                == old(self).undo_view() && final(self).redo_view() == old(self).redo_view(),
            old(self).undo_view().len() > 0 ==> r.is_some() && r.unwrap()@ == old(
                self,
            ).undo_view().last() && final(self).undo_view() == old(self).undo_view().drop_last()
                && final(self).redo_view() == old(self).redo_view().push(
                old(self).undo_view().last(),
            ),
    {
        let ghost u0 = self.undo_stack@;
        let ghost r0 = self.redo_stack@;
        match self.undo_stack.pop() {
            Some(action) => {
                let copy = action.duplicate();
                self.redo_stack.push(copy);
                assert(views_of(self.undo_stack@) =~= views_of(u0).drop_last());
                assert(views_of(self.redo_stack@) =~= views_of(r0).push(action@));
                Some(action)
            },
            None => None,
        }
    }

    /// Moves the top redo entry to the undo stack and returns it.
    pub fn redo(&mut self) -> (r: Option<Action>)
        requires
            old(self).wf(),
        ensures
            final(self).wf(),
            final(self).max() == old(self).max(),
            old(self).redo_view().len() == 0 ==> r.is_none() && final(self).undo_view()
                == old(self).undo_view() && final(self).redo_view() == old(self).redo_view(),
            old(self).redo_view().len() > 0 ==> r.is_some() && r.unwrap()@ == old(
                self,
            ).redo_view().last() && final(self).redo_view() == old(self).redo_view().drop_last()
                && final(self).undo_view() == old(self).undo_view().push(
                old(self).redo_view().last(),
            ),
    {
        let ghost u0 = self.undo_stack@;
        let ghost r0 = self.redo_stack@;
        match self.redo_stack.pop() {
            Some(action) => {
                let copy = action.duplicate();
                self.undo_stack.push(copy);
                assert(views_of(self.redo_stack@) =~= views_of(r0).drop_last());
                assert(views_of(self.undo_stack@) =~= views_of(u0).push(action@));
                Some(action)
            },
            None => None,
        }
    }

    pub fn can_undo(&self) -> (r: bool)
        ensures
            r == (self.undo_view().len() > 0),
    {
        !self.undo_stack.is_empty()
    }

    pub fn can_redo(&self) -> (r: bool)
        ensures
            r == (self.redo_view().len() > 0),
    {
        !self.redo_stack.is_empty()
    }

    /// Empties both stacks.
    pub fn clear(&mut self)
        ensures
            final(self).wf(),
            final(self).undo_view() == Seq::<ActionView>::empty(),
            final(self).redo_view() == Seq::<ActionView>::empty(),
            final(self).max() == old(self).max(),
    {
        self.undo_stack.clear();
        self.redo_stack.clear();
        assert(self.undo_view() =~= Seq::<ActionView>::empty());
        assert(self.redo_view() =~= Seq::<ActionView>::empty());
    }
}

impl Default for History {
    fn default() -> (h: History)
        ensures
            h.wf(),
            h.undo_view() == Seq::<ActionView>::empty(),
            h.redo_view() == Seq::<ActionView>::empty(),
            h.max() == 1000,
    {
        History::new(1000)
    }
}

/// Recording more actions than the bound keeps exactly the bound's worth of
/// entries: the newest ones, in order, the oldest dropped.
pub proof fn lemma_history_bound(actions: Seq<ActionView>, max_size: nat, k: nat)
    requires
        actions.len() == max_size + k,
    ensures
        push_all(Seq::empty(), actions, max_size).len() == max_size,
        push_all(Seq::empty(), actions, max_size) == actions.skip(k as int),
{
    if max_size == 0 {
        lemma_push_all_zero_bound(actions);
        assert(actions.skip(k as int) =~= Seq::<ActionView>::empty());
    } else {
        lemma_push_all_keeps_last(actions, max_size);
    }
}

proof fn lemma_push_all_zero_bound(actions: Seq<ActionView>)
    ensures
        push_all(Seq::empty(), actions, 0) == Seq::<ActionView>::empty(),
    decreases actions.len(),
{
    if actions.len() > 0 {
        lemma_push_all_zero_bound(actions.drop_last());
    }
}

proof fn lemma_push_all_keeps_last(actions: Seq<ActionView>, max_size: nat)
    requires
        max_size > 0,
    ensures
        actions.len() <= max_size ==> push_all(Seq::empty(), actions, max_size) == actions,
        actions.len() > max_size ==> push_all(Seq::empty(), actions, max_size) == actions.skip(
            actions.len() - max_size,
        ),
    decreases actions.len(),
{
    if actions.len() > 0 {
        let prev = actions.drop_last();
        lemma_push_all_keeps_last(prev, max_size);
        let p = push_all(Seq::empty(), prev, max_size);
        if actions.len() <= max_size {
            assert(p == prev);
            assert(p.push(actions.last()) =~= actions);
        } else if prev.len() <= max_size {
            assert(p == prev);
            assert(prev.len() == max_size);
            assert(p.skip(1).push(actions.last()) =~= actions.skip(actions.len() - max_size));
        } else {
            assert(p == prev.skip(prev.len() - max_size));
            assert(p.skip(1).push(actions.last()) =~= actions.skip(actions.len() - max_size));
        }
    }
}

} // verus!
