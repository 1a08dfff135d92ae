//! Bounded linear undo and redo over snapshots of the record store.

use crate::models::day_data::{DayData, DayDataView};
use vstd::prelude::*;

verus! {

/// How many snapshots the history keeps.
pub const MAX_HISTORY_DEPTH: usize = 50;

/// Two stacks of snapshots: what can be undone and what can be redone.
#[derive(Debug)]
pub struct History {
    undo_stack: Vec<DayData>,
    redo_stack: Vec<DayData>,
}

/// A history as a mathematical value. The top of each stack is the last element.
#[verifier::ext_equal]
pub struct HistoryView {
    pub undo: Seq<DayDataView>,
    pub redo: Seq<DayDataView>,
}

/// The last `n` elements of `s`, or all of it where it has fewer.
pub open spec fn most_recent(s: Seq<DayDataView>, n: int) -> Seq<DayDataView> {
    if s.len() <= n {
        s
    } else {
        s.subrange(s.len() - n, s.len() as int)
    }
}

impl HistoryView {
    /// The history with nothing to undo or redo.
    pub open spec fn empty() -> Self {
        HistoryView { undo: Seq::empty(), redo: Seq::empty() }
    }

    /// The two stacks together hold no more than the depth allows.
    pub open spec fn wf(self) -> bool {
        self.undo.len() + self.redo.len() <= MAX_HISTORY_DEPTH
    }

    /// The history after `state` was pushed: the oldest snapshot gives way
    /// when the undo stack is full, and nothing is left to redo.
    pub open spec fn pushed(self, state: DayDataView) -> Self {
        HistoryView {
            undo: if self.undo.len() >= MAX_HISTORY_DEPTH {
                self.undo.drop_first().push(state)
            } else {
                self.undo.push(state)
            },
            redo: Seq::empty(),
        }
    }

    /// The history after each of `states` was pushed, first to last.
    pub open spec fn pushed_all(self, states: Seq<DayDataView>) -> Self
        decreases states.len(),
    {
        if states.len() == 0 {
            self
        } else {
            self.pushed_all(states.drop_last()).pushed(states.last())
        }
    }

    /// Whether there is a snapshot to go back to.
    pub open spec fn can_undo(self) -> bool {
        self.undo.len() > 0
    }

    /// Whether there is a snapshot to go forward to.
    pub open spec fn can_redo(self) -> bool {
        self.redo.len() > 0
    }

    /// What an undo hands back: the snapshot on top of the undo stack.
    pub open spec fn undo_result(self) -> Option<DayDataView> {
        if self.can_undo() {
            Some(self.undo.last())
        } else {
            None
        }
    }

    /// The history after an undo from the state `current`.
    pub open spec fn undone(self, current: DayDataView) -> Self {
        if self.can_undo() {
            HistoryView { undo: self.undo.drop_last(), redo: self.redo.push(current) }
        } else {
            self
        }
    }

    /// What a redo hands back: the snapshot on top of the redo stack.
    pub open spec fn redo_result(self) -> Option<DayDataView> {
        if self.can_redo() {
            Some(self.redo.last())
        } else {
            None
        }
    }

    /// The history after a redo from the state `current`.
    pub open spec fn redone(self, current: DayDataView) -> Self {
        if self.can_redo() {
            HistoryView { undo: self.undo.push(current), redo: self.redo.drop_last() }
        } else {
            self
        }
    }

    /// Every snapshot in either stack is a well-formed store.
    pub open spec fn snapshots_wf(self) -> bool {
        &&& forall|i: int| 0 <= i < self.undo.len() ==> (#[trigger] self.undo[i]).wf()
        &&& forall|i: int| 0 <= i < self.redo.len() ==> (#[trigger] self.redo[i]).wf()
    }
}

impl View for History {
    type V = HistoryView;

    closed spec fn view(&self) -> HistoryView {
        HistoryView {
            undo: self.undo_stack@.map_values(|d: DayData| d@),
            redo: self.redo_stack@.map_values(|d: DayData| d@),
        }
    }
}

impl History {
    /// A history with nothing to undo or redo.
    pub fn new() -> (r: History)
        ensures
            r@ == HistoryView::empty(),
    {
        let r = History { undo_stack: Vec::new(), redo_stack: Vec::new() };
        assert(r@.undo =~= Seq::empty() && r@.redo =~= Seq::empty());
        r
    }

    /// Records `state` as the snapshot to go back to. Drops the oldest
    /// snapshot when the undo stack is full, and everything that could be redone.
    pub fn push(&mut self, state: DayData)
        ensures
            final(self)@ == old(self)@.pushed(state@),
            old(self)@.undo.len() <= MAX_HISTORY_DEPTH ==> final(self)@.undo.len()
                <= MAX_HISTORY_DEPTH,
    {
        if self.undo_stack.len() >= MAX_HISTORY_DEPTH {
            let _ = self.undo_stack.remove(0);
        }
        self.undo_stack.push(state);
        self.redo_stack.clear();
        assert(self@.undo =~= old(self)@.pushed(state@).undo);
        assert(self@.redo =~= old(self)@.pushed(state@).redo);
    }

    /// Goes back one step: hands out the last snapshot and keeps
    /// `current_state` to redo. Does nothing where there is no snapshot.
    pub fn undo(&mut self, current_state: DayData) -> (r: Option<DayData>)
        ensures
            final(self)@ == old(self)@.undone(current_state@),
            r is Some <==> old(self)@.can_undo(),
            r matches Some(previous) ==> Some(previous@) == old(self)@.undo_result(),
    {
        match self.undo_stack.pop() {
            Some(previous_state) => {
                self.redo_stack.push(current_state);
                assert(self@.undo =~= old(self)@.undo.drop_last());
                assert(self@.redo =~= old(self)@.redo.push(current_state@));
                Some(previous_state)
            },
            None => None,
        }
    }

    /// Goes forward one step: hands out the snapshot that the last undo kept
    /// and keeps `current_state` to undo. Does nothing where there is none.
    pub fn redo(&mut self, current_state: DayData) -> (r: Option<DayData>)
        ensures
            final(self)@ == old(self)@.redone(current_state@),
            r is Some <==> old(self)@.can_redo(),
            r matches Some(next) ==> Some(next@) == old(self)@.redo_result(),
    {
        match self.redo_stack.pop() {
            Some(next_state) => {
                self.undo_stack.push(current_state);
                assert(self@.undo =~= old(self)@.undo.push(current_state@));
                assert(self@.redo =~= old(self)@.redo.drop_last());
                Some(next_state)
            },
            None => None,
        }
    }

    /// Tells whether there is a snapshot to go back to.
    pub fn can_undo(&self) -> (r: bool)
        ensures
            r == self@.can_undo(),
    {
        self.undo_stack.len() > 0
    }

    /// Tells whether there is a snapshot to go forward to.
    pub fn can_redo(&self) -> (r: bool)
        ensures
            r == self@.can_redo(),
    {
        self.redo_stack.len() > 0
    }
}

/// A push keeps the history within its depth and its snapshots well formed.
pub proof fn lemma_push_keeps_wf(h: HistoryView, state: DayDataView)
    requires
        h.wf(),
    ensures
        h.pushed(state).wf(),
        h.pushed(state).undo.len() <= MAX_HISTORY_DEPTH,
        h.snapshots_wf() && state.wf() ==> h.pushed(state).snapshots_wf(),
{
    let p = h.pushed(state);
    if h.snapshots_wf() && state.wf() {
        assert forall|i: int| 0 <= i < p.undo.len() implies (#[trigger] p.undo[i]).wf() by {
            if h.undo.len() >= MAX_HISTORY_DEPTH {
                if i < p.undo.len() - 1 {
                    assert(p.undo[i] == h.undo[i + 1]);
                }
            } else {
                if i < p.undo.len() - 1 {
                    assert(p.undo[i] == h.undo[i]);
                }
            }
        }
    }
}

/// An undo or a redo moves one snapshot between the stacks: the history
/// stays within its depth and its snapshots stay well formed.
pub proof fn lemma_step_keeps_wf(h: HistoryView, current: DayDataView)
    requires
        h.wf(),
    ensures
        h.undone(current).wf(),
        h.redone(current).wf(),
        h.snapshots_wf() && current.wf() ==> h.undone(current).snapshots_wf() && h.redone(
            current,
        ).snapshots_wf(),
        h.snapshots_wf() && h.can_undo() ==> h.undo_result()->0.wf(),
        h.snapshots_wf() && h.can_redo() ==> h.redo_result()->0.wf(),
{
    if h.snapshots_wf() && current.wf() {
        let u = h.undone(current);
        assert forall|i: int| 0 <= i < u.undo.len() implies (#[trigger] u.undo[i]).wf() by {
            assert(u.undo[i] == h.undo[i]);
        }
        assert forall|i: int| 0 <= i < u.redo.len() implies (#[trigger] u.redo[i]).wf() by {
            if i < h.redo.len() {
                assert(u.redo[i] == h.redo[i]);
            }
        }
        let r = h.redone(current);
        assert forall|i: int| 0 <= i < r.undo.len() implies (#[trigger] r.undo[i]).wf() by {
            if i < h.undo.len() {
                assert(r.undo[i] == h.undo[i]);
            }
        }
        assert forall|i: int| 0 <= i < r.redo.len() implies (#[trigger] r.redo[i]).wf() by {
            assert(r.redo[i] == h.redo[i]);
        }
    }
}

/// However many snapshots are pushed, the undo stack holds the most recent
/// ones, up to the depth, and never more than the depth.
pub proof fn lemma_pushes_keep_most_recent(h: HistoryView, states: Seq<DayDataView>)
    requires
        h.undo.len() <= MAX_HISTORY_DEPTH,
    ensures
        h.pushed_all(states).undo == most_recent(h.undo + states, MAX_HISTORY_DEPTH as int),
        h.pushed_all(states).undo.len() <= MAX_HISTORY_DEPTH,
        states.len() >= MAX_HISTORY_DEPTH ==> h.pushed_all(states).undo == states.subrange(
            states.len() - MAX_HISTORY_DEPTH,
            states.len() as int,
        ),
        states.len() > 0 ==> h.pushed_all(states).redo == Seq::<DayDataView>::empty(),
    decreases states.len(),
{
    if states.len() == 0 {
        assert(h.undo + states =~= h.undo);
    } else {
        let init = states.drop_last();
        lemma_pushes_keep_most_recent(h, init);
        let before = h.pushed_all(init);
        let all_before = h.undo + init;
        let all = h.undo + states;
        assert(all =~= all_before.push(states.last()));
        assert(before.pushed(states.last()).undo =~= most_recent(all, MAX_HISTORY_DEPTH as int));
        if states.len() >= MAX_HISTORY_DEPTH {
            assert(most_recent(all, MAX_HISTORY_DEPTH as int) =~= states.subrange(
                states.len() - MAX_HISTORY_DEPTH,
                states.len() as int,
            ));
        }
    }
}

/// An undo followed by a redo, with no push between them, leads back: the
/// redo hands out the state that the undo was made from, and the history is
/// as it was before the undo.
pub proof fn lemma_undo_then_redo(h: HistoryView, current: DayDataView)
    requires
        h.can_undo(),
    ensures
        h.undone(current).redo_result() == Some(current),
        h.undone(current).redone(h.undo_result()->0) == h,
{
    let after_undo = h.undone(current);
    let previous = h.undo_result()->0;
    assert(after_undo.redone(previous).undo =~= h.undo);
    assert(after_undo.redone(previous).redo =~= h.redo);
}

/// A redo followed by an undo, with no push between them, leads back as well.
pub proof fn lemma_redo_then_undo(h: HistoryView, current: DayDataView)
    requires
        h.can_redo(),
    ensures
        h.redone(current).undo_result() == Some(current),
        h.redone(current).undone(h.redo_result()->0) == h,
{
    let after_redo = h.redone(current);
    let next = h.redo_result()->0;
    assert(after_redo.undone(next).undo =~= h.undo);
    assert(after_redo.undone(next).redo =~= h.redo);
}

/// A push leaves nothing to redo: a redo right after it hands out nothing
/// and changes nothing.
pub proof fn lemma_push_clears_redo(h: HistoryView, state: DayDataView, current: DayDataView)
    ensures
        !h.pushed(state).can_redo(),
        h.pushed(state).redo_result() is None,
        h.pushed(state).redone(current) == h.pushed(state),
{
}

} // verus!
