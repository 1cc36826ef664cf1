//! The cell that holds the node's current state.

use crate::message::State;
use vstd::prelude::*;

verus! {

/// The current state of a node together with the id of the proposal whose
/// commit produced it. The id makes applying a commit idempotent: a commit
/// that arrives again changes nothing.
pub struct SharedState {
    value: State,
    last_committed: Option<String>,
}

/// What contracts say of a `SharedState`.
pub ghost struct SharedStateView {
    pub value: State,
    pub last_committed: Option<Seq<char>>,
}

impl SharedStateView {
    /// Whether a commit of `proposal_id` would change the cell: it does
    /// unless it is the commit applied last.
    pub open spec fn accepts(self, proposal_id: Seq<char>) -> bool {
        self.last_committed != Some(proposal_id)
    }

    /// The cell after a commit of `proposal_id` with `new_state` was handed
    /// to it.
    pub open spec fn apply(self, proposal_id: Seq<char>, new_state: State) -> SharedStateView {
        if self.accepts(proposal_id) {
            SharedStateView { value: new_state, last_committed: Some(proposal_id) }
        } else {
            self
        }
    }
}

impl View for SharedState {
    type V = SharedStateView;

    closed spec fn view(&self) -> SharedStateView {
        SharedStateView {
            value: self.value,
            last_committed: match self.last_committed {
                Some(id) => Some(id@),
                None => None,
            },
        }
    }
}

impl SharedState {
    /// A cell that holds `initial` and has seen no commit.
    pub fn new(initial: State) -> (cell: SharedState)
        ensures
            cell@ == (SharedStateView { value: initial, last_committed: None }),
    {
        SharedState { value: initial, last_committed: None }
    }

    /// The state the cell holds now.
    pub fn current(&self) -> (value: State)
        ensures
            value == self@.value,
    {
        self.value
    }

    /// The id of the proposal applied last, if any was.
    pub fn last_committed(&self) -> (id: Option<String>)
        ensures
            match id {
                Some(s) => self@.last_committed == Some(s@),
                None => self@.last_committed is None,
            },
    {
        match &self.last_committed {
            Some(s) => Some(s.clone()),
            None => None,
        }
    }

    /// Applies the commit of `proposal_id`: the cell takes `new_state` and
    /// remembers the id. A commit whose id is the one applied last is stale:
    /// the cell stays as it is and the result is `false`.
    pub fn try_apply(&mut self, proposal_id: &String, new_state: State) -> (applied: bool)
        ensures
            applied == old(self)@.accepts(proposal_id@),
            final(self)@ == old(self)@.apply(proposal_id@, new_state),
    {
        let stale = match &self.last_committed {
            Some(last) => *last == *proposal_id,
            None => false,
        };
        if stale {
            false
        } else {
            self.value = new_state;
            self.last_committed = Some(proposal_id.clone());
            true
        }
    }
}

} // verus!
