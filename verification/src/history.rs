//! Undo/redo history of an edited document, with revision numbers that say
//! whether the document differs from what was last saved.
//!
//! The history stores snapshots of type `S` (the edited project). Whether
//! the project has changed since a snapshot is decided by the caller, who
//! compares projects, and handed in as a flag.

use vstd::prelude::*;

verus! {

/// A snapshot of the document and the revision it had.
#[derive(Clone, Debug)]
pub struct HistoryState<S> {
    pub project: S,
    pub revision: u64,
}

/// One undoable step: the document before and after it.
#[derive(Clone, Debug)]
pub struct HistoryEntry<S> {
    pub before: HistoryState<S>,
    pub after: HistoryState<S>,
}

/// The mathematical state of a history.
pub struct HistoryModel<S> {
    pub undo: Seq<HistoryEntry<S>>,
    pub redo: Seq<HistoryEntry<S>>,
    pub group: Option<HistoryState<S>>,
    pub current: u64,
    pub clean: u64,
    pub next: u64,
}

/// `n + 1`, saturating at `u64::MAX`.
pub open spec fn next_revision(n: u64) -> u64 {
    if n == u64::MAX {
        n
    } else {
        (n + 1) as u64
    }
}

/// Records one step from `before` to `current`: it gets a fresh revision,
/// becomes the last undoable step and drops every redoable one.
pub open spec fn recorded<S>(h: HistoryModel<S>, before: HistoryState<S>, current: S) -> HistoryModel<
    S,
> {
    HistoryModel {
        undo: h.undo.push(
            HistoryEntry { before, after: HistoryState { project: current, revision: h.next } },
        ),
        redo: Seq::empty(),
        group: h.group,
        current: h.next,
        clean: h.clean,
        next: next_revision(h.next),
    }
}

/// A mutation outside a live group is recorded; inside one it waits for the
/// group to be committed.
pub open spec fn mutated<S>(h: HistoryModel<S>, before: S, before_revision: u64, current: S) -> HistoryModel<S> {
    if h.group is None {
        recorded(h, HistoryState { project: before, revision: before_revision }, current)
    } else {
        h
    }
}

/// Ends the live group (if any): it becomes one step when `changed` says the
/// project differs from the group's starting snapshot, and is dropped
/// otherwise.
pub open spec fn committed<S>(h: HistoryModel<S>, changed: bool, current: S) -> HistoryModel<S> {
    match h.group {
        None => h,
        Some(before) => {
            let ended = HistoryModel { group: None, ..h };
            if changed {
                recorded(ended, before, current)
            } else {
                ended
            }
        },
    }
}

pub open spec fn group_committed<S>(h: HistoryModel<S>, changed: bool) -> bool {
    h.group is Some && changed
}

/// The state after undoing: the last step moves to the redo stack and the
/// document takes the revision it had before that step.
pub open spec fn undone<S>(h: HistoryModel<S>, entry: HistoryEntry<S>) -> HistoryModel<S> {
    HistoryModel { redo: h.redo.push(entry), current: entry.before.revision, ..h }
}

/// The state after redoing: the step moves back to the undo stack and the
/// document takes the revision it had after that step.
pub open spec fn redone<S>(h: HistoryModel<S>, entry: HistoryEntry<S>) -> HistoryModel<S> {
    HistoryModel { undo: h.undo.push(entry), current: entry.after.revision, ..h }
}

/// The undo/redo history of a document.
pub struct EditHistory<S> {
    undo_stack: Vec<HistoryEntry<S>>,
    redo_stack: Vec<HistoryEntry<S>>,
    group: Option<HistoryState<S>>,
    current_revision: u64,
    clean_revision: u64,
    next_revision: u64,
}

impl<S: Clone> EditHistory<S> {
    pub closed spec fn model(&self) -> HistoryModel<S> {
        HistoryModel {
            undo: self.undo_stack@,
            redo: self.redo_stack@,
            group: self.group,
            current: self.current_revision,
            clean: self.clean_revision,
            next: self.next_revision,
        }
    }

    /// A fresh history: nothing to undo or redo, at revision 0, saved.
    pub fn new() -> (h: Self)
        ensures
            h.model() == (HistoryModel::<S> {
                undo: Seq::empty(),
                redo: Seq::empty(),
                group: None,
                current: 0,
                clean: 0,
                next: 1,
            }),
    {
        EditHistory {
            undo_stack: Vec::new(),
            redo_stack: Vec::new(),
            group: None,
            current_revision: 0,
            clean_revision: 0,
            next_revision: 1,
        }
    }

    pub fn current_revision(&self) -> (r: u64)
        ensures
            r == self.model().current,
    {
        self.current_revision
    }

    /// The snapshot the live group started from, for the caller to compare
    /// the project with.
    pub fn group_snapshot(&self) -> (r: Option<&S>)
        ensures
            match self.model().group {
                None => r is None,
                Some(state) => r == Some(&state.project),
            },
    {
        match &self.group {
            None => None,
            Some(state) => Some(&state.project),
        }
    }

    /// Whether the document differs from what was saved; `group_changed`
    /// says whether the project differs from the live group's snapshot.
    pub fn is_dirty(&self, group_changed: bool) -> (b: bool)
        ensures
            b == (self.model().current != self.model().clean || (self.model().group is Some
                && group_changed)),
    {
        self.current_revision != self.clean_revision || (self.group.is_some() && group_changed)
    }

    pub fn can_undo(&self, group_changed: bool) -> (b: bool)
        ensures
            b == (self.model().undo.len() > 0 || (self.model().group is Some && group_changed)),
    {
        self.undo_stack.len() > 0 || (self.group.is_some() && group_changed)
    }

    pub fn can_redo(&self) -> (b: bool)
        ensures
            b == (self.model().redo.len() > 0 && self.model().group is None),
    {
        self.redo_stack.len() > 0 && self.group.is_none()
    }

    /// Records a step from `before` to `current` (see [`recorded`]).
    pub fn record_history(&mut self, before: HistoryState<S>, current: S)
        ensures
            final(self).model() == recorded(old(self).model(), before, current),
    {
        let revision = self.next_revision;
        self.next_revision = if self.next_revision == u64::MAX {
            u64::MAX
        } else {
            self.next_revision + 1
        };
        self.current_revision = revision;
        self.undo_stack.push(
            HistoryEntry { before, after: HistoryState { project: current, revision } },
        );
        self.redo_stack = Vec::new();
    }

    /// Records a mutation unless a live group collects it (see [`mutated`]).
    pub fn record_mutation(&mut self, before: S, before_revision: u64, current: S)
        ensures
            final(self).model() == mutated(old(self).model(), before, before_revision, current),
    {
        if self.group.is_none() {
            self.record_history(HistoryState { project: before, revision: before_revision }, current);
        }
    }

    /// Starts a group of live mutations that will become one undo entry.
    pub fn begin_group(&mut self, current: S)
        ensures
            final(self).model() == (if old(self).model().group is None {
                HistoryModel {
                    group: Some(
                        HistoryState { project: current, revision: old(self).model().current },
                    ),
                    ..old(self).model()
                }
            } else {
                old(self).model()
            }),
    {
        if self.group.is_none() {
            self.group = Some(HistoryState { project: current, revision: self.current_revision });
        }
    }

    /// Commits the live group (see [`committed`]); returns whether it
    /// became an undo entry.
    pub fn commit_group(&mut self, changed: bool, current: S) -> (b: bool)
        ensures
            final(self).model() == committed(old(self).model(), changed, current),
            b == group_committed(old(self).model(), changed),
    {
        let before = match self.group.take() {
            None => return false,
            Some(before) => before,
        };
        if !changed {
            return false;
        }
        self.record_history(before, current);
        true
    }

    /// Commits the live group, then takes the last undoable step, if any.
    /// The caller restores `entry.before` and then calls
    /// [`Self::finish_undo`] with it.
    pub fn undo(&mut self, changed: bool, current: S) -> (r: Option<HistoryEntry<S>>)
        ensures
            ({
                let c = committed(old(self).model(), changed, current);
                if c.undo.len() == 0 {
                    r is None && final(self).model() == c
                } else {
                    r == Some(c.undo.last()) && final(self).model() == (HistoryModel {
                        undo: c.undo.drop_last(),
                        ..c
                    })
                }
            }),
    {
        self.commit_group(changed, current);
        self.undo_stack.pop()
    }

    /// Completes an undo whose `entry.before` the document now holds.
    pub fn finish_undo(&mut self, entry: HistoryEntry<S>)
        ensures
            final(self).model() == undone(old(self).model(), entry),
    {
        self.current_revision = entry.before.revision;
        self.redo_stack.push(entry);
    }

    /// Commits the live group, then takes the last redoable step, if any.
    /// The caller restores `entry.after` and then calls
    /// [`Self::finish_redo`] with it.
    pub fn redo(&mut self, changed: bool, current: S) -> (r: Option<HistoryEntry<S>>)
        ensures
            ({
                let c = committed(old(self).model(), changed, current);
                if c.redo.len() == 0 {
                    r is None && final(self).model() == c
                } else {
                    r == Some(c.redo.last()) && final(self).model() == (HistoryModel {
                        redo: c.redo.drop_last(),
                        ..c
                    })
                }
            }),
    {
        self.commit_group(changed, current);
        self.redo_stack.pop()
    }

    /// Completes a redo whose `entry.after` the document now holds.
    pub fn finish_redo(&mut self, entry: HistoryEntry<S>)
        ensures
            final(self).model() == redone(old(self).model(), entry),
    {
        self.current_revision = entry.after.revision;
        self.undo_stack.push(entry);
    }

    /// Marks the current revision as the saved one.
    pub fn mark_saved(&mut self)
        ensures
            final(self).model() == (HistoryModel {
                clean: old(self).model().current,
                ..old(self).model()
            }),
    {
        self.clean_revision = self.current_revision;
    }
}

/// Undoing a mutation made outside a live group brings back the revision the
/// document had before it, leaves the earlier steps undoable, and makes the
/// mutation redoable.
pub proof fn law_undo_reverts_mutation<S>(
    h: HistoryModel<S>,
    before: S,
    current: S,
    changed: bool,
    later: S,
)
    requires
        h.group is None,
    ensures
        ({
            let edited = mutated(h, before, h.current, current);
            let c = committed(edited, changed, later);
            let entry = c.undo.last();
            let after_undo = undone(HistoryModel { undo: c.undo.drop_last(), ..c }, entry);
            &&& c == edited
            &&& c.undo.len() > 0
            &&& entry.before == HistoryState { project: before, revision: h.current }
            &&& after_undo.current == h.current
            &&& after_undo.undo == h.undo
            &&& after_undo.redo == seq![entry]
        }),
{
    let edited = mutated(h, before, h.current, current);
    assert(edited.undo.drop_last() == h.undo);
}

/// Redoing right after an undo restores the history as it was before the
/// undo.
pub proof fn law_redo_reverts_undo<S>(h: HistoryModel<S>, changed: bool, later: S)
    requires
        h.group is None,
        h.undo.len() > 0,
        h.undo.last().after.revision == h.current,
    ensures
        ({
            let entry = h.undo.last();
            let after_undo = undone(HistoryModel { undo: h.undo.drop_last(), ..h }, entry);
            let c = committed(after_undo, changed, later);
            let after_redo = redone(HistoryModel { redo: c.redo.drop_last(), ..c }, c.redo.last());
            &&& c == after_undo
            &&& c.redo.len() > 0
            &&& c.redo.last() == entry
            &&& after_redo == h
        }),
{
    let entry = h.undo.last();
    let after_undo = undone(HistoryModel { undo: h.undo.drop_last(), ..h }, entry);
    assert(after_undo.redo.drop_last() == h.redo);
    assert(h.undo.drop_last().push(entry) == h.undo);
}

/// A new step makes nothing redoable: recording discards the redo branch.
pub proof fn law_record_discards_redo<S>(h: HistoryModel<S>, before: HistoryState<S>, current: S)
    ensures
        recorded(h, before, current).redo.len() == 0,
        recorded(h, before, current).undo.len() == h.undo.len() + 1,
{
}

/// A live group with no change leaves no undo entry; a changed one leaves
/// exactly one, spanning from the group's start to the end.
pub proof fn law_group_is_one_step<S>(h: HistoryModel<S>, start: S, changed: bool, current: S)
    requires
        h.group is None,
    ensures
        ({
            let begun = HistoryModel {
                group: Some(HistoryState { project: start, revision: h.current }),
                ..h
            };
            let c = committed(begun, changed, current);
            &&& c.group is None
            &&& !changed ==> c.undo == h.undo && c.current == h.current
            &&& changed ==> c.undo.len() == h.undo.len() + 1 && c.undo.last().before
                == HistoryState { project: start, revision: h.current } && c.undo.last().after
                == HistoryState { project: current, revision: h.next }
        }),
{
}

/// Saving makes the document clean; after a further mutation and its undo
/// it is clean again.
pub proof fn law_undo_back_to_saved_is_clean<S>(h: HistoryModel<S>, before: S, current: S, later: S)
    requires
        h.group is None,
    ensures
        ({
            let saved = HistoryModel { clean: h.current, ..h };
            let edited = mutated(saved, before, saved.current, current);
            let c = committed(edited, false, later);
            let after_undo = undone(HistoryModel { undo: c.undo.drop_last(), ..c }, c.undo.last());
            &&& saved.current == saved.clean
            &&& edited.current == h.next
            &&& after_undo.current == after_undo.clean
        }),
{
    let saved = HistoryModel { clean: h.current, ..h };
    law_undo_reverts_mutation(saved, before, current, false, later);
}

} // verus!
