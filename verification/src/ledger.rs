//! The proposer's book of rounds in flight.

use crate::error::ConsensusError;
use crate::message::State;
use std::collections::HashSet;
use vstd::prelude::*;

verus! {

broadcast use vstd::std_specs::hash::group_hash_axioms;

/// The number of acknowledgments that make a quorum among `peer_count`
/// peers: more than half of them. Only acknowledgments that peers sent are
/// counted; the proposer has no vote of its own.
pub open spec fn majority(peer_count: nat) -> nat {
    peer_count / 2 + 1
}

/// One round in flight, as contracts see it. The proposal id is the key
/// under which the ledger holds the record.
pub ghost struct RecordView {
    pub proposed_state: State,
    pub acknowledged: Set<u64>,
    pub created_at: u64,
}

/// The ledger as contracts see it: the rounds in flight by proposal id.
pub ghost struct LedgerView {
    pub records: Map<Seq<char>, RecordView>,
}

impl LedgerView {
    /// Whether a round with this id is in flight.
    pub open spec fn contains(self, proposal_id: Seq<char>) -> bool {
        self.records.contains_key(proposal_id)
    }

    /// How many nodes have acknowledged the round; 0 for a round that is
    /// not in flight.
    pub open spec fn ack_count(self, proposal_id: Seq<char>) -> nat {
        if self.contains(proposal_id) {
            self.records[proposal_id].acknowledged.len()
        } else {
            0
        }
    }

    /// The ledger with a new round that nobody has acknowledged yet.
    pub open spec fn begin(self, proposal_id: Seq<char>, state: State, now: u64) -> LedgerView {
        LedgerView {
            records: self.records.insert(
                proposal_id,
                RecordView { proposed_state: state, acknowledged: Set::empty(), created_at: now },
            ),
        }
    }

    /// The ledger after `node_id` acknowledged the round. A round that is
    /// not in flight takes no acknowledgment.
    pub open spec fn record_ack(self, proposal_id: Seq<char>, node_id: u64) -> LedgerView {
        if self.contains(proposal_id) {
            let record = self.records[proposal_id];
            LedgerView {
                records: self.records.insert(
                    proposal_id,
                    RecordView { acknowledged: record.acknowledged.insert(node_id), ..record },
                ),
            }
        } else {
            self
        }
    }

    /// Whether the round has its quorum among `peer_count` peers.
    pub open spec fn quorum_reached(self, proposal_id: Seq<char>, peer_count: nat) -> bool {
        self.ack_count(proposal_id) >= majority(peer_count)
    }

    /// The ledger without the round.
    pub open spec fn complete(self, proposal_id: Seq<char>) -> LedgerView {
        LedgerView { records: self.records.remove(proposal_id) }
    }
}

/// A round in flight: what was proposed, who has acknowledged it, and when
/// it began.
pub struct ProposalRecord {
    proposal_id: String,
    proposed_state: State,
    acknowledged: HashSet<u64>,
    created_at: u64,
}

impl View for ProposalRecord {
    type V = RecordView;

    closed spec fn view(&self) -> RecordView {
        RecordView {
            proposed_state: self.proposed_state,
            acknowledged: self.acknowledged@,
            created_at: self.created_at,
        }
    }
}

impl ProposalRecord {
    /// The state that the round proposes.
    pub fn proposed_state(&self) -> (state: State)
        ensures
            state == self@.proposed_state,
    {
        self.proposed_state
    }

    /// The time at which the round began.
    pub fn created_at(&self) -> (stamp: u64)
        ensures
            stamp == self@.created_at,
    {
        self.created_at
    }

    /// How many nodes have acknowledged the round.
    pub fn ack_count(&self) -> (count: usize)
        ensures
            count == self@.acknowledged.len(),
    {
        self.acknowledged.len()
    }

    /// Whether `node_id` has acknowledged the round.
    pub fn has_acknowledged(&self, node_id: u64) -> (present: bool)
        ensures
            present == self@.acknowledged.contains(node_id),
    {
        self.acknowledged.contains(&node_id)
    }
}

/// The rounds that this node has proposed and not yet finished. No two of
/// them share a proposal id.
pub struct Ledger {
    records: Vec<ProposalRecord>,
}

impl View for Ledger {
    type V = LedgerView;

    closed spec fn view(&self) -> LedgerView {
        LedgerView {
            records: Map::new(
                |id: Seq<char>| self.holds(id),
                |id: Seq<char>| self.records[self.index_of(id)]@,
            ),
        }
    }
}

impl Ledger {
    #[verifier::type_invariant]
    spec fn distinct_ids(self) -> bool {
        forall|i: int, j: int|
            0 <= i < j < self.records.len() ==> self.records[i].proposal_id@
                != self.records[j].proposal_id@
    }

    spec fn holds(self, id: Seq<char>) -> bool {
        exists|i: int| 0 <= i < self.records.len() && self.records[i].proposal_id@ == id
    }

    spec fn index_of(self, id: Seq<char>) -> int {
        choose|i: int| 0 <= i < self.records.len() && self.records[i].proposal_id@ == id
    }

    proof fn lemma_view_is(self, expected: Map<Seq<char>, RecordView>)
        requires
            self.distinct_ids(),
            forall|i: int|
                0 <= i < self.records.len() ==> expected.contains_key(
                    #[trigger] self.records[i].proposal_id@,
                ) && expected[self.records[i].proposal_id@] == self.records[i]@,
            forall|id: Seq<char>| expected.contains_key(id) ==> self.holds(id),
        ensures
            self@.records == expected,
    {
    }

    /// An empty ledger.
    pub fn new() -> (ledger: Ledger)
        ensures
            ledger@.records == Map::<Seq<char>, RecordView>::empty(),
    {
        Ledger { records: Vec::new() }
    }

    fn position(&self, proposal_id: &String) -> (found: Option<usize>)
        ensures
            match found {
                Some(i) => i < self.records.len() && self.records[i as int].proposal_id@
                    == proposal_id@,
                None => forall|i: int|
                    0 <= i < self.records.len() ==> self.records[i].proposal_id@ != proposal_id@,
            },
    {
        let mut i: usize = 0;
        while i < self.records.len()
            invariant
                i <= self.records.len(),
                forall|j: int| 0 <= j < i ==> self.records[j].proposal_id@ != proposal_id@,
            decreases self.records.len() - i,
        {
            if self.records[i].proposal_id == *proposal_id {
                return Some(i);
            }
            i += 1;
        }
        None
    }

    /// Whether a round with this id is in flight.
    pub fn contains(&self, proposal_id: &String) -> (present: bool)
        ensures
            present == self@.contains(proposal_id@),
    {
        self.position(proposal_id).is_some()
    }

    /// Opens a round: the ledger gains a record for `proposal_id` with no
    /// acknowledgment, stamped `now`. An id that is already in flight is
    /// refused and the ledger stays as it is.
    pub fn begin(&mut self, proposal_id: String, state: State, now: u64) -> (outcome: Result<
        (),
        ConsensusError,
    >)
        ensures
            outcome is Ok <==> !old(self)@.contains(proposal_id@),
            outcome is Ok ==> final(self)@ == old(self)@.begin(proposal_id@, state, now),
            outcome is Err ==> outcome == Err::<(), ConsensusError>(
                ConsensusError::DuplicateProposal,
            ) && final(self)@ == old(self)@,
    {
        proof {
            use_type_invariant(&*self);
        }
        match self.position(&proposal_id) {
            Some(_) => Err(ConsensusError::DuplicateProposal),
            None => {
                let ghost before = *self;
                let record = ProposalRecord {
                    proposal_id,
                    proposed_state: state,
                    acknowledged: HashSet::new(),
                    created_at: now,
                };
                // The records leave the ledger while they change.
                let mut records: Vec<ProposalRecord> = Vec::new();
                std::mem::swap(&mut self.records, &mut records);
                records.push(record);
                std::mem::swap(&mut self.records, &mut records);
                proof {
                    let expected = before@.begin(proposal_id@, state, now).records;
                    assert forall|id: Seq<char>| expected.contains_key(id) implies self.holds(
                        id,
                    ) by {
                        if id == proposal_id@ {
                            assert(self.records[before.records.len() as int].proposal_id@ == id);
                        } else {
                            assert(self.records[before.index_of(id)].proposal_id@ == id);
                        }
                    }
                    self.lemma_view_is(expected);
                }
                Ok(())
            },
        }
    }

    /// Counts the acknowledgment of `node_id` for the round and returns how
    /// many nodes have acknowledged it so far. A node that acknowledges
    /// again is counted once. For a round that is not in flight nothing
    /// changes and the result is 0.
    pub fn record_ack(&mut self, proposal_id: &String, node_id: u64) -> (count: usize)
        ensures
            final(self)@ == old(self)@.record_ack(proposal_id@, node_id),
            count == final(self)@.ack_count(proposal_id@),
    {
        proof {
            use_type_invariant(&*self);
        }
        match self.position(proposal_id) {
            None => 0,
            Some(i) => {
                let ghost before = *self;
                // The records leave the ledger while they change.
                let mut records: Vec<ProposalRecord> = Vec::new();
                std::mem::swap(&mut self.records, &mut records);
                records[i].acknowledged.insert(node_id);
                let count = records[i].acknowledged.len();
                std::mem::swap(&mut self.records, &mut records);
                proof {
                    let expected = before@.record_ack(proposal_id@, node_id).records;
                    assert forall|id: Seq<char>| expected.contains_key(id) implies self.holds(
                        id,
                    ) by {
                        assert(self.records[before.index_of(id)].proposal_id@ == id);
                    }
                    self.lemma_view_is(expected);
                }
                count
            },
        }
    }

    /// How many nodes have acknowledged the round; 0 for a round that is
    /// not in flight.
    pub fn ack_count(&self, proposal_id: &String) -> (count: usize)
        ensures
            count == self@.ack_count(proposal_id@),
    {
        proof {
            use_type_invariant(self);
        }
        match self.position(proposal_id) {
            Some(i) => self.records[i].acknowledged.len(),
            None => 0,
        }
    }

    /// Whether the round has its quorum: at least `peer_count / 2 + 1`
    /// acknowledgments. A round that is not in flight has none.
    pub fn quorum_reached(&self, proposal_id: &String, peer_count: usize) -> (reached: bool)
        ensures
            reached == self@.quorum_reached(proposal_id@, peer_count as nat),
            reached == (self@.ack_count(proposal_id@) >= peer_count / 2 + 1),
    {
        self.ack_count(proposal_id) >= peer_count / 2 + 1
    }

    /// Closes a round, committed or abandoned: its record leaves the
    /// ledger. The result says whether the round was in flight.
    pub fn complete(&mut self, proposal_id: &String) -> (removed: bool)
        ensures
            removed == old(self)@.contains(proposal_id@),
            final(self)@ == old(self)@.complete(proposal_id@),
    {
        proof {
            use_type_invariant(&*self);
        }
        let ghost before = *self;
        let ghost expected = before@.complete(proposal_id@).records;
        match self.position(proposal_id) {
            None => {
                proof {
                    assert(self@.records =~= expected);
                }
                false
            },
            Some(i) => {
                // The records leave the ledger while they change.
                let mut records: Vec<ProposalRecord> = Vec::new();
                std::mem::swap(&mut self.records, &mut records);
                records.remove(i);
                std::mem::swap(&mut self.records, &mut records);
                proof {
                    assert forall|id: Seq<char>| expected.contains_key(id) implies self.holds(
                        id,
                    ) by {
                        let k = before.index_of(id);
                        if k < i {
                            assert(self.records[k].proposal_id@ == id);
                        } else {
                            assert(self.records[k - 1].proposal_id@ == id);
                        }
                    }
                    self.lemma_view_is(expected);
                }
                true
            },
        }
    }

    /// The record of the round, if the round is in flight.
    pub fn get(&self, proposal_id: &String) -> (record: Option<&ProposalRecord>)
        ensures
            record is Some <==> self@.contains(proposal_id@),
            record is Some ==> record->0@ == self@.records[proposal_id@],
    {
        proof {
            use_type_invariant(self);
        }
        match self.position(proposal_id) {
            Some(i) => Some(&self.records[i]),
            None => None,
        }
    }
}

} // verus!
