//! The mathematical model of a buffer's text and history, and how each edit,
//! undo and redo transforms it.

use vstd::prelude::*;
use crate::history::{ActionView, push_bounded};
use crate::text::{line_count, line_start};

verus! {

/// Text plus undo/redo stacks and the history bound.
pub struct BufferModel {
    pub text: Seq<char>,
    pub undo: Seq<ActionView>,
    pub redo: Seq<ActionView>,
    pub max_size: nat,
}

/// An edit request, as the buffer's editing operations receive it.
pub enum Edit {
    InsertChar { pos: nat, ch: char },
    Insert { pos: nat, text: Seq<char> },
    DeleteChar { pos: nat },
    DeleteRange { start: nat, end: nat },
    DeleteLine { row: nat },
}

pub open spec fn min_nat(a: nat, b: nat) -> nat {
    if a <= b {
        a
    } else {
        b
    }
}

/// The text with `a` applied (as a redo applies it).
pub open spec fn redo_text(t: Seq<char>, a: ActionView) -> Seq<char> {
    match a {
        ActionView::Insert { pos, text } => t.take(pos as int) + text + t.skip(pos as int),
        ActionView::Delete { pos, text } => t.take(pos as int) + t.skip((pos + text.len()) as int),
        ActionView::DeleteRange { start, end, text } => t.take(start as int) + t.skip(end as int),
    }
}

/// The text with `a` reverted (as an undo reverts it).
pub open spec fn undo_text(t: Seq<char>, a: ActionView) -> Seq<char> {
    match a {
        ActionView::Insert { pos, text } => t.take(pos as int) + t.skip((pos + text.len()) as int),
        ActionView::Delete { pos, text } => t.take(pos as int) + text + t.skip(pos as int),
        ActionView::DeleteRange { start, end, text } => t.take(start as int) + text + t.skip(
            start as int,
        ),
    }
}

/// `a` can be applied to `t`: its range is inside `t` and holds what it removes.
pub open spec fn can_redo_on(t: Seq<char>, a: ActionView) -> bool {
    match a {
        ActionView::Insert { pos, text } => pos <= t.len(),
        ActionView::Delete { pos, text } => pos + text.len() <= t.len() && t.subrange(
            pos as int,
            (pos + text.len()) as int,
        ) == text,
        ActionView::DeleteRange { start, end, text } => start <= end <= t.len() && t.subrange(
            start as int,
            end as int,
        ) == text,
    }
}

/// `a` can be reverted on `t`: what it inserted is where it put it.
pub open spec fn can_undo_on(t: Seq<char>, a: ActionView) -> bool {
    match a {
        ActionView::Insert { pos, text } => pos + text.len() <= t.len() && t.subrange(
            pos as int,
            (pos + text.len()) as int,
        ) == text,
        ActionView::Delete { pos, text } => pos <= t.len(),
        ActionView::DeleteRange { start, end, text } => start <= t.len() && end == start
            + text.len(),
    }
}

/// Offset where the cursor goes after `a` is undone.
pub open spec fn undo_pos(a: ActionView) -> nat {
    match a {
        ActionView::Insert { pos, .. } => pos,
        ActionView::Delete { pos, .. } => pos,
        ActionView::DeleteRange { start, .. } => start,
    }
}

/// Offset where the cursor goes after `a` is redone.
pub open spec fn redo_pos(a: ActionView) -> nat {
    match a {
        ActionView::Insert { pos, text } => pos + text.len(),
        ActionView::Delete { pos, .. } => pos,
        ActionView::DeleteRange { start, .. } => start,
    }
}

/// The action that `e` records on text `t`, or `None` when it changes nothing.
pub open spec fn edit_action(t: Seq<char>, e: Edit) -> Option<ActionView> {
    match e {
        Edit::InsertChar { pos, ch } => Some(
            ActionView::Insert { pos: min_nat(pos, t.len()), text: seq![ch] },
        ),
        Edit::Insert { pos, text } => Some(
            ActionView::Insert { pos: min_nat(pos, t.len()), text: text },
        ),
        Edit::DeleteChar { pos } => if pos < t.len() {
            Some(ActionView::Delete { pos, text: seq![t[pos as int]] })
        } else {
            None
        },
        Edit::DeleteRange { start, end } => if start < end && start < t.len() {
            let e2 = min_nat(end, t.len());
            Some(
                ActionView::DeleteRange {
                    start,
                    end: e2,
                    text: t.subrange(start as int, e2 as int),
                },
            )
        } else {
            None
        },
        Edit::DeleteLine { row } => if row < line_count(t) {
            let s = line_start(t, row);
            let e2 = line_start(t, row + 1);
            Some(
                ActionView::DeleteRange {
                    start: s as nat,
                    end: e2 as nat,
                    text: t.subrange(s, e2),
                },
            )
        } else {
            None
        },
    }
}

/// The model after edit `e`: the action is applied and recorded, the redo stack emptied.
pub open spec fn model_edit(m: BufferModel, e: Edit) -> BufferModel {
    match edit_action(m.text, e) {
        Some(a) => BufferModel {
            text: redo_text(m.text, a),
            undo: push_bounded(m.undo, a, m.max_size),
            redo: Seq::empty(),
            max_size: m.max_size,
        },
        None => m,
    }
}

/// The model after one undo; unchanged when there is nothing to undo.
pub open spec fn model_undo(m: BufferModel) -> BufferModel {
    if m.undo.len() == 0 {
        m
    } else {
        BufferModel {
            text: undo_text(m.text, m.undo.last()),
            undo: m.undo.drop_last(),
            redo: m.redo.push(m.undo.last()),
            max_size: m.max_size,
        }
    }
}

/// The model after one redo; unchanged when there is nothing to redo.
pub open spec fn model_redo(m: BufferModel) -> BufferModel {
    if m.redo.len() == 0 {
        m
    } else {
        BufferModel {
            text: redo_text(m.text, m.redo.last()),
            undo: m.undo.push(m.redo.last()),
            redo: m.redo.drop_last(),
            max_size: m.max_size,
        }
    }
}

/// Every undo entry can be reverted in turn, newest first.
pub open spec fn undo_chain_ok(t: Seq<char>, u: Seq<ActionView>) -> bool
    decreases u.len(),
{
    u.len() == 0 || (can_undo_on(t, u.last()) && undo_chain_ok(undo_text(t, u.last()), u.drop_last()))
}

/// Every redo entry can be applied in turn, top first.
pub open spec fn redo_chain_ok(t: Seq<char>, r: Seq<ActionView>) -> bool
    decreases r.len(),
{
    r.len() == 0 || (can_redo_on(t, r.last()) && redo_chain_ok(redo_text(t, r.last()), r.drop_last()))
}

impl BufferModel {
    pub open spec fn wf(self) -> bool {
        &&& self.undo.len() + self.redo.len() <= self.max_size
        &&& undo_chain_ok(self.text, self.undo)
        &&& redo_chain_ok(self.text, self.redo)
    }
}

pub proof fn lemma_redo_then_undo(t: Seq<char>, a: ActionView)
    requires
        can_redo_on(t, a),
    ensures
        can_undo_on(redo_text(t, a), a),
        undo_text(redo_text(t, a), a) == t,
{
    match a {
        ActionView::Insert { pos, text } => {
            let r = redo_text(t, a);
            assert(r.subrange(pos as int, (pos + text.len()) as int) =~= text);
            assert(undo_text(r, a) =~= t);
        },
        ActionView::Delete { pos, text } => {
            assert(t.take(pos as int) + text + t.skip((pos + text.len()) as int) =~= t);
            assert(undo_text(redo_text(t, a), a) =~= t);
        },
        ActionView::DeleteRange { start, end, text } => {
            assert(t.take(start as int) + text + t.skip(end as int) =~= t);
            assert(undo_text(redo_text(t, a), a) =~= t);
        },
    }
}

pub proof fn lemma_undo_then_redo(t: Seq<char>, a: ActionView)
    requires
        can_undo_on(t, a),
    ensures
        can_redo_on(undo_text(t, a), a),
        redo_text(undo_text(t, a), a) == t,
{
    match a {
        ActionView::Insert { pos, text } => {
            assert(t.take(pos as int) + text + t.skip((pos + text.len()) as int) =~= t);
            assert(redo_text(undo_text(t, a), a) =~= t);
        },
        ActionView::Delete { pos, text } => {
            let u = undo_text(t, a);
            assert(u.subrange(pos as int, (pos + text.len()) as int) =~= text);
            assert(redo_text(u, a) =~= t);
        },
        ActionView::DeleteRange { start, end, text } => {
            let u = undo_text(t, a);
            assert(u.subrange(start as int, end as int) =~= text);
            assert(redo_text(u, a) =~= t);
        },
    }
}

/// The action that an effective edit records can be applied to the text it met.
pub proof fn lemma_edit_action_applies(t: Seq<char>, e: Edit)
    requires
        edit_action(t, e) is Some,
    ensures
        can_redo_on(t, edit_action(t, e).unwrap()),
{
    match e {
        Edit::DeleteChar { pos } => {
            assert(t.subrange(pos as int, pos + 1 as int) =~= seq![t[pos as int]]);
        },
        Edit::DeleteLine { row } => {
            crate::text::lemma_line_start_bounds(t, row);
            crate::text::lemma_line_start_bounds(t, row + 1);
        },
        _ => {},
    }
}

proof fn lemma_undo_chain_skip_first(t: Seq<char>, u: Seq<ActionView>)
    requires
        undo_chain_ok(t, u),
        u.len() > 0,
    ensures
        undo_chain_ok(t, u.skip(1)),
    decreases u.len(),
{
    if u.len() > 1 {
        let t2 = undo_text(t, u.last());
        lemma_undo_chain_skip_first(t2, u.drop_last());
        assert(u.skip(1).last() == u.last());
        assert(u.skip(1).drop_last() =~= u.drop_last().skip(1));
    }
}

/// Editing keeps the model well formed.
pub proof fn lemma_edit_wf(m: BufferModel, e: Edit)
    requires
        m.wf(),
    ensures
        model_edit(m, e).wf(),
{
    if let Some(a) = edit_action(m.text, e) {
        lemma_edit_action_applies(m.text, e);
        lemma_redo_then_undo(m.text, a);
        let t2 = redo_text(m.text, a);
        let u2 = push_bounded(m.undo, a, m.max_size);
        if m.max_size == 0 {
            assert(m.undo.len() == 0);
            assert(undo_chain_ok(t2, u2));
        } else if m.undo.len() >= m.max_size {
            lemma_undo_chain_skip_first(m.text, m.undo);
            assert(u2.last() == a);
            assert(u2.drop_last() =~= m.undo.skip(1));
        } else {
            assert(u2.last() == a);
            assert(u2.drop_last() =~= m.undo);
        }
        assert(redo_chain_ok(t2, Seq::<ActionView>::empty()));
    }
}

/// Undo keeps the model well formed.
pub proof fn lemma_undo_wf(m: BufferModel)
    requires
        m.wf(),
    ensures
        model_undo(m).wf(),
{
    if m.undo.len() > 0 {
        let a = m.undo.last();
        lemma_undo_then_redo(m.text, a);
        let m2 = model_undo(m);
        assert(m2.redo.last() == a);
        assert(m2.redo.drop_last() =~= m.redo);
    }
}

/// Redo keeps the model well formed.
pub proof fn lemma_redo_wf(m: BufferModel)
    requires
        m.wf(),
    ensures
        model_redo(m).wf(),
{
    if m.redo.len() > 0 {
        let a = m.redo.last();
        lemma_redo_then_undo(m.text, a);
        let m2 = model_redo(m);
        assert(m2.undo.last() == a);
        assert(m2.undo.drop_last() =~= m.undo);
    }
}

/// The model after each edit in turn.
pub open spec fn apply_edits(m: BufferModel, edits: Seq<Edit>) -> BufferModel
    decreases edits.len(),
{
    if edits.len() == 0 {
        m
    } else {
        model_edit(apply_edits(m, edits.drop_last()), edits.last())
    }
}

/// Each edit changes the text it meets, and so records one action.
pub open spec fn all_effective(m: BufferModel, edits: Seq<Edit>) -> bool
    decreases edits.len(),
{
    edits.len() == 0 || (all_effective(m, edits.drop_last()) && edit_action(
        apply_edits(m, edits.drop_last()).text,
        edits.last(),
    ) is Some)
}

/// The model after `n` undos.
pub open spec fn undo_times(m: BufferModel, n: nat) -> BufferModel
    decreases n,
{
    if n == 0 {
        m
    } else {
        undo_times(model_undo(m), (n - 1) as nat)
    }
}

/// The model after `n` redos.
pub open spec fn redo_times(m: BufferModel, n: nat) -> BufferModel
    decreases n,
{
    if n == 0 {
        m
    } else {
        redo_times(model_redo(m), (n - 1) as nat)
    }
}

/// The actions that `edits` record, oldest first.
pub open spec fn recorded(m: BufferModel, edits: Seq<Edit>) -> Seq<ActionView>
    decreases edits.len(),
{
    if edits.len() == 0 {
        Seq::empty()
    } else {
        recorded(m, edits.drop_last()).push(
            edit_action(apply_edits(m, edits.drop_last()).text, edits.last()).unwrap(),
        )
    }
}

/// `t` with the actions of `u` reverted, newest first.
pub open spec fn unwind(t: Seq<char>, u: Seq<ActionView>) -> Seq<char>
    decreases u.len(),
{
    if u.len() == 0 {
        t
    } else {
        unwind(undo_text(t, u.last()), u.drop_last())
    }
}

/// `t` with the actions of `acts` applied, oldest first.
pub open spec fn replay(t: Seq<char>, acts: Seq<ActionView>) -> Seq<char>
    decreases acts.len(),
{
    if acts.len() == 0 {
        t
    } else {
        replay(redo_text(t, acts[0]), acts.skip(1))
    }
}

pub open spec fn reversed(s: Seq<ActionView>) -> Seq<ActionView> {
    Seq::new(s.len(), |i: int| s[s.len() - 1 - i])
}

proof fn lemma_replay_last(t: Seq<char>, acts: Seq<ActionView>)
    requires
        acts.len() > 0,
    ensures
        replay(t, acts) == redo_text(replay(t, acts.drop_last()), acts.last()),
    decreases acts.len(),
{
    if acts.len() > 1 {
        let t1 = redo_text(t, acts[0]);
        lemma_replay_last(t1, acts.skip(1));
        assert(acts.skip(1).drop_last() =~= acts.drop_last().skip(1));
        assert(acts.skip(1).last() == acts.last());
        assert(acts.drop_last()[0] == acts[0]);
        assert(replay(t, acts.drop_last()) == replay(t1, acts.drop_last().skip(1)));
    } else {
        assert(acts.skip(1).len() == 0);
        assert(acts.drop_last().len() == 0);
        assert(acts[0] == acts.last());
        assert(replay(redo_text(t, acts[0]), acts.skip(1)) == redo_text(t, acts[0]));
        assert(replay(t, acts.drop_last()) == t);
    }
}

proof fn lemma_edits_record(m: BufferModel, edits: Seq<Edit>)
    requires
        all_effective(m, edits),
        edits.len() <= m.max_size,
    ensures
        ({
            let mm = apply_edits(m, edits);
            let acts = recorded(m, edits);
            &&& acts.len() == edits.len()
            &&& mm.undo.len() >= edits.len()
            &&& mm.undo.subrange(mm.undo.len() - edits.len(), mm.undo.len() as int) == acts
            &&& unwind(mm.text, acts) == m.text
            &&& replay(m.text, acts) == mm.text
            &&& edits.len() > 0 ==> mm.redo.len() == 0
            &&& mm.max_size == m.max_size
        }),
    decreases edits.len(),
{
    if edits.len() > 0 {
        let prev = edits.drop_last();
        lemma_edits_record(m, prev);
        let m1 = apply_edits(m, prev);
        let acts1 = recorded(m, prev);
        let a = edit_action(m1.text, edits.last()).unwrap();
        let mm = apply_edits(m, edits);
        let acts = recorded(m, edits);
        lemma_edit_action_applies(m1.text, edits.last());
        lemma_redo_then_undo(m1.text, a);
        let n = edits.len();
        let len1 = m1.undo.len();
        if len1 >= m.max_size {
            assert(mm.undo =~= m1.undo.skip(1).push(a));
            assert(mm.undo.subrange(mm.undo.len() - n, mm.undo.len() as int) =~= m1.undo.subrange(
                len1 - (n - 1),
                len1 as int,
            ).push(a));
        } else {
            assert(mm.undo =~= m1.undo.push(a));
            assert(mm.undo.subrange(mm.undo.len() - n, mm.undo.len() as int) =~= m1.undo.subrange(
                len1 - (n - 1),
                len1 as int,
            ).push(a));
        }
        assert(acts.last() == a);
        assert(acts.drop_last() =~= acts1);
        lemma_replay_last(m.text, acts);
    }
}

proof fn lemma_undo_times(mm: BufferModel, k: nat)
    requires
        k <= mm.undo.len(),
    ensures
        undo_times(mm, k).text == unwind(
            mm.text,
            mm.undo.subrange(mm.undo.len() - k, mm.undo.len() as int),
        ),
        undo_times(mm, k).redo == mm.redo + reversed(
            mm.undo.subrange(mm.undo.len() - k, mm.undo.len() as int),
        ),
    decreases k,
{
    let len = mm.undo.len();
    let sub = mm.undo.subrange(len - k, len as int);
    if k == 0 {
        assert(sub.len() == 0);
        assert(mm.redo + reversed(sub) =~= mm.redo);
    } else {
        let m1 = model_undo(mm);
        lemma_undo_times(m1, (k - 1) as nat);
        let sub1 = m1.undo.subrange(m1.undo.len() - (k - 1), m1.undo.len() as int);
        assert(sub1 =~= sub.drop_last());
        assert(sub.last() == mm.undo.last());
        assert(mm.redo + reversed(sub) =~= m1.redo + reversed(sub1));
    }
}

proof fn lemma_redo_times(x: BufferModel, acts: Seq<ActionView>)
    requires
        x.redo == reversed(acts),
    ensures
        redo_times(x, acts.len()).text == replay(x.text, acts),
    decreases acts.len(),
{
    if acts.len() > 0 {
        let x1 = model_redo(x);
        assert(x.redo.last() == acts[0]);
        assert(x1.redo =~= reversed(acts.skip(1)));
        lemma_redo_times(x1, acts.skip(1));
    }
}

/// Undoing once per edit restores the text from before the edits, and
/// redoing as many times then restores the text after them. Each edit must
/// change something (a no-op records nothing), and no more edits than the
/// history keeps.
pub proof fn lemma_undo_redo_inverse(m: BufferModel, edits: Seq<Edit>)
    requires
        all_effective(m, edits),
        edits.len() <= m.max_size,
    ensures
        undo_times(apply_edits(m, edits), edits.len()).text == m.text,
        redo_times(undo_times(apply_edits(m, edits), edits.len()), edits.len()).text
            == apply_edits(m, edits).text,
{
    let mm = apply_edits(m, edits);
    let acts = recorded(m, edits);
    let n = edits.len();
    lemma_edits_record(m, edits);
    lemma_undo_times(mm, n);
    if n > 0 {
        assert(mm.redo + reversed(acts) =~= reversed(acts));
        lemma_redo_times(undo_times(mm, n), acts);
    }
}

} // verus!
