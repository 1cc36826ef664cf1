//! Why a consensus round can fail.

use vstd::prelude::*;

verus! {

/// The failures a proposer can be told of. Each leaves the shared state as
/// it was.
#[derive(Debug, Clone, Copy, PartialEq, Eq, Hash, Structural)]
pub enum ConsensusError {
    /// The deadline passed before a majority of the peers acknowledged.
    Timeout,
    /// A round with this proposal id is already in flight on this node.
    DuplicateProposal,
    /// No round with this proposal id is in flight on this node: it was
    /// never opened, or it has been decided already.
    UnknownProposal,
}

} // verus!
