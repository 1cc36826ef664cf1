//! What holds of the protocol whatever the messages and the times are.
//!
//! Each statement is about the models that the contracts of the library
//! speak of, so it holds of every run of the executable code.

use crate::ledger::LedgerView;
use crate::message::{MessageType, MessageView, State};
use crate::node::{NodeView, RoundPhase};
use crate::shared_state::SharedStateView;
use vstd::prelude::*;

verus! {

/// A round has its quorum exactly when its acknowledgments number at least
/// `peer_count / 2 + 1`, which is to say when they are more than half of
/// the peers.
pub proof fn lemma_quorum_is_majority(ledger: LedgerView, proposal_id: Seq<char>, peer_count: nat)
    ensures
        ledger.quorum_reached(proposal_id, peer_count) <==> ledger.ack_count(proposal_id)
            >= peer_count / 2 + 1,
        ledger.quorum_reached(proposal_id, peer_count) <==> 2 * ledger.ack_count(proposal_id)
            > peer_count,
{
}

/// A commit applied a second time changes nothing, and the cell reports
/// the second application as stale.
pub proof fn lemma_commit_is_idempotent(cell: SharedStateView, proposal_id: Seq<char>, state: State)
    ensures
        !cell.apply(proposal_id, state).accepts(proposal_id),
        cell.apply(proposal_id, state).apply(proposal_id, state) == cell.apply(proposal_id, state),
{
}

/// A commit message that a node receives a second time leaves the node as
/// the first one left it, the state and the id of the last commit included.
pub proof fn lemma_repeated_commit_is_ignored(node: NodeView, m: MessageView)
    requires
        m.message_type == MessageType::Commit,
    ensures
        node.handle(m).0.handle(m) == (node.handle(m).0, None::<crate::node::OutboundView>),
{
}

/// Looking at a round changes the shared state only where the round has
/// its quorum. A round that is given up at its deadline leaves the ledger
/// and leaves the shared state as it was.
pub proof fn lemma_no_commit_without_quorum(node: NodeView, proposal_id: Seq<char>, now: u64)
    ensures
        node.after_poll(proposal_id, now).state != node.state ==> node.ledger.quorum_reached(
            proposal_id,
            node.peer_count(),
        ),
        node.phase(proposal_id, now) == RoundPhase::TimedOut ==> {
            &&& node.after_poll(proposal_id, now).state == node.state
            &&& !node.after_poll(proposal_id, now).ledger.contains(proposal_id)
            &&& !node.ledger.quorum_reached(proposal_id, node.peer_count())
        },
{
}

/// No message but a commit changes the shared state of the node that
/// receives it: to acknowledge is to promise, not to apply.
pub proof fn lemma_only_commits_change_state(node: NodeView, m: MessageView)
    requires
        m.message_type != MessageType::Commit,
    ensures
        node.handle(m).0.state == node.state,
{
}

/// An acknowledgment that the same node sends again for the same round is
/// not counted again.
pub proof fn lemma_duplicate_ack_counts_once(
    ledger: LedgerView,
    proposal_id: Seq<char>,
    node_id: u64,
)
    ensures
        ledger.record_ack(proposal_id, node_id).record_ack(proposal_id, node_id)
            == ledger.record_ack(proposal_id, node_id),
        ledger.record_ack(proposal_id, node_id).record_ack(proposal_id, node_id).ack_count(
            proposal_id,
        ) == ledger.record_ack(proposal_id, node_id).ack_count(proposal_id),
{
    let once = ledger.record_ack(proposal_id, node_id);
    let twice = once.record_ack(proposal_id, node_id);
    if ledger.contains(proposal_id) {
        assert(once.records[proposal_id].acknowledged.insert(node_id)
            =~= once.records[proposal_id].acknowledged);
        assert(twice.records =~= once.records);
    }
}

/// One acknowledgment raises the count of its round by one where the node
/// had not acknowledged yet, and by nothing where it had. The ledger is one
/// whose rounds each have finitely many acknowledgments, as every ledger
/// of a running node has.
pub proof fn lemma_ack_counts_at_most_one(ledger: LedgerView, proposal_id: Seq<char>, node_id: u64)
    requires
        ledger.contains(proposal_id),
        ledger.records[proposal_id].acknowledged.finite(),
    ensures
        ledger.record_ack(proposal_id, node_id).ack_count(proposal_id) == ledger.ack_count(
            proposal_id,
        ) + if ledger.records[proposal_id].acknowledged.contains(node_id) {
            0nat
        } else {
            1nat
        },
{
}

/// An acknowledgment for one round leaves every other round as it was: its
/// record, and with it its count.
pub proof fn lemma_acks_do_not_cross_rounds(
    ledger: LedgerView,
    acknowledged: Seq<char>,
    other: Seq<char>,
    node_id: u64,
)
    requires
        acknowledged != other,
    ensures
        ledger.record_ack(acknowledged, node_id).contains(other) == ledger.contains(other),
        ledger.record_ack(acknowledged, node_id).records[other] == ledger.records[other],
        ledger.record_ack(acknowledged, node_id).ack_count(other) == ledger.ack_count(other),
{
}

/// The order in which two acknowledgments arrive makes no difference to the
/// ledger.
pub proof fn lemma_acks_commute(
    ledger: LedgerView,
    first_round: Seq<char>,
    first_node: u64,
    second_round: Seq<char>,
    second_node: u64,
)
    ensures
        ledger.record_ack(first_round, first_node).record_ack(second_round, second_node)
            == ledger.record_ack(second_round, second_node).record_ack(first_round, first_node),
{
    let one = ledger.record_ack(first_round, first_node).record_ack(second_round, second_node);
    let other = ledger.record_ack(second_round, second_node).record_ack(first_round, first_node);
    if first_round == second_round && ledger.contains(first_round) {
        let acks = ledger.records[first_round].acknowledged;
        assert(acks.insert(first_node).insert(second_node) =~= acks.insert(second_node).insert(
            first_node,
        ));
    }
    assert(one.records =~= other.records);
}

/// Once a round is decided, by quorum or by deadline, an acknowledgment
/// that arrives for it is ignored.
pub proof fn lemma_late_ack_is_ignored(
    node: NodeView,
    proposal_id: Seq<char>,
    now: u64,
    m: MessageView,
)
    requires
        node.phase(proposal_id, now) == RoundPhase::Committing || node.phase(proposal_id, now)
            == RoundPhase::TimedOut,
        m.message_type == MessageType::Acknowledgment,
        m.proposal_id == proposal_id,
    ensures
        node.after_poll(proposal_id, now).handle(m) == (
            node.after_poll(proposal_id, now),
            None::<crate::node::OutboundView>,
        ),
{
}

/// No round of a well-formed node counts more acknowledgments than the
/// node has peers.
pub proof fn lemma_acks_never_exceed_peers(node: NodeView, proposal_id: Seq<char>)
    requires
        node.wf(),
    ensures
        node.ledger.ack_count(proposal_id) <= node.peer_count(),
{
    if node.ledger.contains(proposal_id) {
        vstd::set_lib::lemma_len_subset(
            node.ledger.records[proposal_id].acknowledged,
            node.peers.dom(),
        );
    }
}

} // verus!
