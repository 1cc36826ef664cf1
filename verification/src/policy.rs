//! Which proposals a node acknowledges.

use crate::message::State;
use vstd::prelude::*;

verus! {

/// The rule by which a node decides whether to acknowledge a proposal: it
/// looks at the state the node is in and at the state proposed, and at
/// nothing else. Every node of a cluster must be given the same rule, or
/// the nodes may come to accept different proposals.
#[derive(Debug, PartialEq, Eq)]
pub enum TransitionPolicy {
    /// Every proposal is acknowledged.
    Any,
    /// A proposal is acknowledged where the pair of the current state and
    /// the proposed state is listed.
    Only(Vec<(State, State)>),
}

impl View for TransitionPolicy {
    type V = Set<(State, State)>;

    /// The pairs of current and proposed state that the rule lets pass.
    open spec fn view(&self) -> Set<(State, State)> {
        match self {
            TransitionPolicy::Any => Set::full(),
            TransitionPolicy::Only(pairs) => pairs@.to_set(),
        }
    }
}

impl TransitionPolicy {
    /// Whether a node in state `from` acknowledges a proposal of `to`.
    pub fn permits(&self, from: State, to: State) -> (allowed: bool)
        ensures
            allowed == self@.contains((from, to)),
    {
        match self {
            TransitionPolicy::Any => true,
            TransitionPolicy::Only(pairs) => {
                let mut i: usize = 0;
                while i < pairs.len()
                    invariant
                        i <= pairs.len(),
                        self@ == pairs@.to_set(),
                        forall|j: int| 0 <= j < i ==> pairs[j] != (from, to),
                    decreases pairs.len() - i,
                {
                    if pairs[i].0 == from && pairs[i].1 == to {
                        return true;
                    }
                    i += 1;
                }
                false
            },
        }
    }

    /// A copy of this rule.
    pub fn duplicate(&self) -> (copy: TransitionPolicy)
        ensures
            copy@ == self@,
    {
        match self {
            TransitionPolicy::Any => TransitionPolicy::Any,
            TransitionPolicy::Only(pairs) => {
                let mut copied: Vec<(State, State)> = Vec::new();
                let mut i: usize = 0;
                while i < pairs.len()
                    invariant
                        i <= pairs.len(),
                        copied@ == pairs@.take(i as int),
                    decreases pairs.len() - i,
                {
                    copied.push((pairs[i].0, pairs[i].1));
                    i += 1;
                }
                assert(copied@ =~= pairs@);
                TransitionPolicy::Only(copied)
            },
        }
    }
}

} // verus!
