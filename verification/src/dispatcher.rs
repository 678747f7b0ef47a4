//! The one channel through which the store is changed.
//!
//! An [`ActionDispatcher`] owns the store. Whoever renders reads it through
//! `store()`; whoever changes it must hold the dispatcher exclusively for
//! the length of the call, so no two submissions overlap and no reader
//! sees a store half changed.

use vstd::prelude::*;

use crate::local_state::LocalState;
use crate::local_state::StateValueView;
use crate::state_tree::{entries_with, entries_without, PathView};
use crate::store::{entries_step, ActionOp, ActionView, Store, StoreView};

verus! {

/// The views of a sequence of actions, in the same order.
pub open spec fn actions_view(ops: Seq<ActionOp>) -> Seq<ActionView> {
    ops.map_values(|op: ActionOp| op@)
}

/// Whether a store takes every action of a sequence, each applied to what
/// the ones before it left.
pub open spec fn accepts_all(s: StoreView, ops: Seq<ActionView>) -> bool
    decreases ops.len(),
{
    if ops.len() == 0 {
        true
    } else {
        s.accepts(ops[0]) && accepts_all(s.apply(ops[0]), ops.drop_first())
    }
}

/// The store after a sequence of actions, submitted in order up to the
/// first that the store refuses. Nothing after a refused action is applied.
pub open spec fn after_all(s: StoreView, ops: Seq<ActionView>) -> StoreView
    decreases ops.len(),
{
    if ops.len() == 0 {
        s
    } else if s.accepts(ops[0]) {
        after_all(s.apply(ops[0]), ops.drop_first())
    } else {
        s
    }
}

/// The entries of the state tree after a sequence of actions, submitted
/// to store `s` in order up to the first that it refuses.
pub open spec fn entries_after_all(
    entries: Seq<(PathView, StateValueView)>,
    s: StoreView,
    ops: Seq<ActionView>,
) -> Seq<(PathView, StateValueView)>
    decreases ops.len(),
{
    if ops.len() == 0 {
        entries
    } else if s.accepts(ops[0]) {
        entries_after_all(entries_step(entries, ops[0]), s.apply(ops[0]), ops.drop_first())
    } else {
        entries
    }
}

/// The owner of the store.
pub struct ActionDispatcher {
    store: Store,
}

impl View for ActionDispatcher {
    type V = StoreView;

    closed spec fn view(&self) -> StoreView {
        self.store@
    }
}

impl ActionDispatcher {
    /// The entries of the store's state tree, in their order.
    pub closed spec fn entries(&self) -> Seq<(PathView, StateValueView)> {
        self.store.states.entries()
    }

    /// A dispatcher that owns `store`.
    pub fn new(store: Store) -> (r: Self)
        ensures
            r@ == store@,
            r.entries() == store.states.entries(),
    {
        ActionDispatcher { store }
    }

    /// The store as it stands, to read.
    pub fn store(&self) -> (r: &Store)
        ensures
            r@ == self@,
            r.states.entries() == self.entries(),
    {
        &self.store
    }

    /// Gives the store back.
    pub fn into_store(self) -> (r: Store)
        ensures
            r@ == self@,
            r.states.entries() == self.entries(),
    {
        self.store
    }

    /// Hands one action to the store and answers as the store does.
    pub fn submit(&mut self, action: ActionOp) -> (r: Result<(), String>)
        ensures
            final(self)@ == old(self)@.step(action@),
            final(self).entries() == entries_step(old(self).entries(), action@),
            r is Ok <==> old(self)@.accepts(action@),
            r matches Err(e) ==> action@ matches ActionView::Save(id, _) && e@
                == crate::store::not_found_message(id),
    {
        self.store.update(action)
    }

    /// Stores `value` at `path` in the state tree.
    pub fn submit_state_at<T: LocalState>(&mut self, path: &Vec<String>, value: T) -> (r: Result<
        (),
        String,
    >)
        ensures
            r is Ok,
            final(self)@ == (StoreView {
                states: old(self)@.states.insert(path.deep_view(), T::encoded(value@)),
                ..old(self)@
            }),
            final(self).entries() == entries_with(
                old(self).entries(),
                path.deep_view(),
                T::encoded(value@),
            ),
    {
        self.submit(ActionOp::build_states_action(path, Some(value.encode())))
    }

    /// Removes what the state tree holds at `path`.
    pub fn clear_state_at(&mut self, path: &Vec<String>) -> (r: Result<(), String>)
        ensures
            r is Ok,
            final(self)@ == (StoreView {
                states: old(self)@.states.remove(path.deep_view()),
                ..old(self)@
            }),
            final(self).entries() == entries_without(old(self).entries(), path.deep_view()),
    {
        self.submit(ActionOp::build_states_action(path, None))
    }

    /// Submits the actions in order. The first refusal ends the run: its
    /// error is the answer, and the actions after it are dropped.
    pub fn submit_all(&mut self, actions: Vec<ActionOp>) -> (r: Result<(), String>)
        ensures
            final(self)@ == after_all(old(self)@, actions_view(actions@)),
            final(self).entries() == entries_after_all(
                old(self).entries(),
                old(self)@,
                actions_view(actions@),
            ),
            r is Ok <==> accepts_all(old(self)@, actions_view(actions@)),
    {
        let ghost all = actions_view(actions@);
        let ghost start = self@;
        let ghost first = self.entries();
        assert(all.skip(0) =~= all);
        for action in it: actions
            invariant
                it.seq() == actions@,
                all == actions_view(actions@),
                start == old(self)@,
                first == old(self).entries(),
                entries_after_all(first, start, all) == entries_after_all(
                    self.entries(),
                    self@,
                    all.skip(it.index()),
                ),
                after_all(start, all) == after_all(self@, all.skip(it.index())),
                accepts_all(start, all) == accepts_all(self@, all.skip(it.index())),
        {
            let ghost rest = all.skip(it.index());
            let ghost before = self@;
            assert(rest[0] == action@);
            assert(after_all(before, rest) == if before.accepts(action@) {
                after_all(before.apply(action@), rest.drop_first())
            } else {
                before
            });
            assert(accepts_all(before, rest) == (before.accepts(action@) && accepts_all(
                before.apply(action@),
                rest.drop_first(),
            )));
            assert(entries_after_all(self.entries(), before, rest) == if before.accepts(action@) {
                entries_after_all(
                    entries_step(self.entries(), action@),
                    before.apply(action@),
                    rest.drop_first(),
                )
            } else {
                self.entries()
            });
            assert(rest.drop_first() =~= all.skip(it.index() + 1));
            match self.submit(action) {
                Ok(_) => {},
                Err(e) => {
                    return Err(e);
                },
            }
        }
        assert(all.skip(all.len() as int) =~= Seq::<ActionView>::empty());
        Ok(())
    }
}

} // verus!
