//! The consensus coordinator of one node.
//!
//! A node plays two parts. As a proposer it opens a round, counts the
//! acknowledgments of its peers, and commits once a majority of them has
//! answered, or gives the round up when its deadline passes. As a peer it
//! acknowledges the proposals of others and applies their commits.
//!
//! Nothing here touches a socket or a clock. The embedding program hands in
//! each decoded message and the current time, and sends what comes back.

use crate::error::ConsensusError;
use crate::ledger::{Ledger, LedgerView};
use crate::message::{Message, MessageType, MessageView, State};
use crate::policy::TransitionPolicy;
use crate::shared_state::{SharedState, SharedStateView};
use std::collections::HashMap;
use vstd::prelude::*;
use vstd::std_specs::iter::IteratorSpec;

verus! {

broadcast use vstd::std_specs::hash::group_hash_axioms;

/// A message on its way to one peer.
#[derive(Debug, PartialEq, Eq)]
pub struct Outbound {
    /// The peer the message is for.
    pub peer_id: u64,
    /// Where that peer listens.
    pub address: String,
    pub message: Message,
}

/// An outbound message as contracts see it.
pub ghost struct OutboundView {
    pub peer_id: u64,
    pub address: Seq<char>,
    pub message: MessageView,
}

impl View for Outbound {
    type V = OutboundView;

    open spec fn view(&self) -> OutboundView {
        OutboundView { peer_id: self.peer_id, address: self.address@, message: self.message@ }
    }
}

/// The views of a list of outbound messages, in order.
pub open spec fn outbound_views(out: Seq<Outbound>) -> Seq<OutboundView> {
    out.map_values(|o: Outbound| o@)
}

/// The views of a list of messages, in order.
pub open spec fn message_views(messages: Seq<Message>) -> Seq<MessageView> {
    messages.map_values(|m: Message| m@)
}

/// A peer table with each address as its sequence of characters.
pub open spec fn addresses(peers: Map<u64, String>) -> Map<u64, Seq<char>> {
    peers.map_values(|address: String| address@)
}

/// A peer table keeps its node ids when its addresses are viewed.
pub proof fn lemma_addresses_keep_ids(peers: Map<u64, String>)
    ensures
        addresses(peers).dom() == peers.dom(),
{
}

/// The time that has passed at `now` since `since`; none if the clock
/// reads earlier than it did then.
pub open spec fn elapsed(since: u64, now: u64) -> nat {
    if now >= since {
        (now - since) as nat
    } else {
        0
    }
}

/// Where a round stands when the proposer looks at it.
pub ghost enum RoundPhase {
    /// No round with this id is in flight on this node.
    NotInFlight,
    /// The round has neither its quorum nor run out of time.
    AwaitingQuorum,
    /// A majority of the peers has acknowledged.
    Committing,
    /// The deadline passed without a quorum.
    TimedOut,
}

/// A node as contracts see it.
pub ghost struct NodeView {
    pub id: u64,
    pub address: Seq<char>,
    /// The other nodes of the cluster: where each one listens.
    pub peers: Map<u64, Seq<char>>,
    /// The pairs of current and proposed state that this node acknowledges.
    pub policy: Set<(State, State)>,
    /// How long a round may wait for its quorum.
    pub timeout: u64,
    pub state: SharedStateView,
    pub ledger: LedgerView,
}

impl NodeView {
    /// What holds of every node: it has finitely many peers, and only
    /// peers are counted as having acknowledged a round.
    pub open spec fn wf(self) -> bool {
        &&& self.peers.dom().finite()
        &&& forall|id: Seq<char>| #[trigger]
            self.ledger.contains(id) ==> self.ledger.records[id].acknowledged.subset_of(
                self.peers.dom(),
            )
    }

    /// The number of peers.
    pub open spec fn peer_count(self) -> nat {
        self.peers.dom().len()
    }

    /// Whether `out` carries `message` to every peer, once to each, at the
    /// peer's address. The order is left open.
    pub open spec fn is_broadcast(self, out: Seq<OutboundView>, message: MessageView) -> bool {
        let targets = out.map_values(|o: OutboundView| o.peer_id);
        &&& targets.no_duplicates()
        &&& targets.to_set() == self.peers.dom()
        &&& forall|j: int|
            0 <= j < out.len() ==> (#[trigger] out[j]).address == self.peers[out[j].peer_id]
                && out[j].message == message
    }

    /// The acknowledgment this node sends for the proposal `m`.
    pub open spec fn acknowledgment_of(self, m: MessageView) -> OutboundView {
        OutboundView {
            peer_id: m.sender_id,
            address: self.peers[m.sender_id],
            message: MessageView {
                sender_id: self.id,
                message_type: MessageType::Acknowledgment,
                proposed_state: m.proposed_state,
                proposal_id: m.proposal_id,
            },
        }
    }

    /// The node after it received `m`, and its reply if it sends one.
    ///
    /// A message from a node that is not a peer is ignored. A proposal
    /// changes nothing; it is acknowledged if the policy lets the step from
    /// the current state to the proposed one pass. An acknowledgment is
    /// counted for its round. A commit is applied to the shared state
    /// unless it is the one applied last.
    pub open spec fn handle(self, m: MessageView) -> (NodeView, Option<OutboundView>) {
        if !self.peers.contains_key(m.sender_id) {
            (self, None)
        } else {
            match m.message_type {
                MessageType::Proposal => if self.policy.contains(
                    (self.state.value, m.proposed_state),
                ) {
                    (self, Some(self.acknowledgment_of(m)))
                } else {
                    (self, None)
                },
                MessageType::Acknowledgment => (
                    NodeView { ledger: self.ledger.record_ack(m.proposal_id, m.sender_id), ..self },
                    None,
                ),
                MessageType::Commit => (
                    NodeView { state: self.state.apply(m.proposal_id, m.proposed_state), ..self },
                    None,
                ),
            }
        }
    }

    /// The node after it received the messages `ms` one after the other, and
    /// its replies in the order in which it made them.
    pub open spec fn handle_all(self, ms: Seq<MessageView>) -> (NodeView, Seq<OutboundView>)
        decreases ms.len(),
    {
        if ms.len() == 0 {
            (self, Seq::empty())
        } else {
            let (before, replies) = self.handle_all(ms.drop_last());
            let (after, reply) = before.handle(ms.last());
            match reply {
                Some(r) => (after, replies.push(r)),
                None => (after, replies),
            }
        }
    }

    /// The node after it opened a round for `state`.
    pub open spec fn begin_round(self, proposal_id: Seq<char>, state: State, now: u64) -> NodeView {
        NodeView { ledger: self.ledger.begin(proposal_id, state, now), ..self }
    }

    /// The proposal that opens the round.
    pub open spec fn proposal_message(self, proposal_id: Seq<char>, state: State) -> MessageView {
        MessageView {
            sender_id: self.id,
            message_type: MessageType::Proposal,
            proposed_state: state,
            proposal_id,
        }
    }

    /// The commit that closes a round in flight.
    pub open spec fn commit_message(self, proposal_id: Seq<char>) -> MessageView {
        MessageView {
            sender_id: self.id,
            message_type: MessageType::Commit,
            proposed_state: self.ledger.records[proposal_id].proposed_state,
            proposal_id,
        }
    }

    /// Where the round stands at `now`. A quorum counts even when the
    /// deadline has passed as well.
    pub open spec fn phase(self, proposal_id: Seq<char>, now: u64) -> RoundPhase {
        if !self.ledger.contains(proposal_id) {
            RoundPhase::NotInFlight
        } else if self.ledger.quorum_reached(proposal_id, self.peer_count()) {
            RoundPhase::Committing
        } else if elapsed(self.ledger.records[proposal_id].created_at, now) >= self.timeout {
            RoundPhase::TimedOut
        } else {
            RoundPhase::AwaitingQuorum
        }
    }

    /// The node once it has looked at the round at `now`. With a quorum the
    /// proposed state is applied and the round leaves the ledger. Past the
    /// deadline the round leaves the ledger and nothing is applied. Else
    /// nothing changes.
    pub open spec fn after_poll(self, proposal_id: Seq<char>, now: u64) -> NodeView {
        match self.phase(proposal_id, now) {
            RoundPhase::NotInFlight => self,
            RoundPhase::AwaitingQuorum => self,
            RoundPhase::Committing => NodeView {
                state: self.state.apply(
                    proposal_id,
                    self.ledger.records[proposal_id].proposed_state,
                ),
                ledger: self.ledger.complete(proposal_id),
                ..self
            },
            RoundPhase::TimedOut => NodeView { ledger: self.ledger.complete(proposal_id), ..self },
        }
    }
}

impl NodeView {
    /// A message leaves a well-formed node well formed.
    pub proof fn lemma_handle_keeps_wf(self, m: MessageView)
        requires
            self.wf(),
        ensures
            self.handle(m).0.wf(),
    {
        let after = self.handle(m).0;
        assert forall|id: Seq<char>| #[trigger]
            after.ledger.contains(id) implies after.ledger.records[id].acknowledged.subset_of(
            after.peers.dom(),
        ) by {
            assert(self.ledger.contains(id));
        }
    }

    /// A run of messages leaves a well-formed node well formed.
    pub proof fn lemma_handle_all_keeps_wf(self, ms: Seq<MessageView>)
        requires
            self.wf(),
        ensures
            self.handle_all(ms).0.wf(),
        decreases ms.len(),
    {
        if ms.len() > 0 {
            self.lemma_handle_all_keeps_wf(ms.drop_last());
            self.handle_all(ms.drop_last()).0.lemma_handle_keeps_wf(ms.last());
        }
    }

    /// Opening a round leaves a well-formed node well formed.
    pub proof fn lemma_begin_round_keeps_wf(self, proposal_id: Seq<char>, state: State, now: u64)
        requires
            self.wf(),
        ensures
            self.begin_round(proposal_id, state, now).wf(),
    {
        let after = self.begin_round(proposal_id, state, now);
        assert forall|id: Seq<char>| #[trigger]
            after.ledger.contains(id) implies after.ledger.records[id].acknowledged.subset_of(
            after.peers.dom(),
        ) by {
            if id != proposal_id {
                assert(self.ledger.contains(id));
            }
        }
    }

    /// Looking at a round leaves a well-formed node well formed.
    pub proof fn lemma_after_poll_keeps_wf(self, proposal_id: Seq<char>, now: u64)
        requires
            self.wf(),
        ensures
            self.after_poll(proposal_id, now).wf(),
    {
        let after = self.after_poll(proposal_id, now);
        assert forall|id: Seq<char>| #[trigger]
            after.ledger.contains(id) implies after.ledger.records[id].acknowledged.subset_of(
            after.peers.dom(),
        ) by {
            assert(self.ledger.contains(id));
        }
    }
}

/// What the proposer is to do about a round.
#[derive(Debug, PartialEq, Eq)]
pub enum RoundStatus {
    /// No round with this id is in flight on this node.
    NotInFlight,
    /// Keep waiting: look again later.
    AwaitingQuorum,
    /// The round is decided. The node has applied the state; these commits
    /// are to be sent, one to each peer.
    Committing(Vec<Outbound>),
    /// The round has failed: its deadline passed without a quorum.
    TimedOut,
}

impl RoundStatus {
    /// The phase that this status reports.
    pub open spec fn phase(self) -> RoundPhase {
        match self {
            RoundStatus::NotInFlight => RoundPhase::NotInFlight,
            RoundStatus::AwaitingQuorum => RoundPhase::AwaitingQuorum,
            RoundStatus::Committing(_) => RoundPhase::Committing,
            RoundStatus::TimedOut => RoundPhase::TimedOut,
        }
    }

    /// What the proposer reports to its caller: nothing while the round
    /// waits for its quorum, success once the round is decided, and
    /// otherwise the reason why no commit will come.
    pub fn outcome(&self) -> (report: Option<Result<(), ConsensusError>>)
        ensures
            report == match self.phase() {
                RoundPhase::AwaitingQuorum => None::<Result<(), ConsensusError>>,
                RoundPhase::Committing => Some(Ok::<(), ConsensusError>(())),
                RoundPhase::TimedOut => Some(Err::<(), ConsensusError>(ConsensusError::Timeout)),
                RoundPhase::NotInFlight => Some(
                    Err::<(), ConsensusError>(ConsensusError::UnknownProposal),
                ),
            },
    {
        match self {
            RoundStatus::AwaitingQuorum => None,
            RoundStatus::Committing(_) => Some(Ok(())),
            RoundStatus::TimedOut => Some(Err(ConsensusError::Timeout)),
            RoundStatus::NotInFlight => Some(Err(ConsensusError::UnknownProposal)),
        }
    }
}

/// A round that has just been opened.
#[derive(Debug, PartialEq, Eq)]
pub struct Round {
    /// The id under which the round runs.
    pub proposal_id: String,
    /// The proposals to send, one to each peer.
    pub outbound: Vec<Outbound>,
}

/// Mints the id of a new round: `uuid::Uuid::new_v4().to_string()`.
///
/// The id is random, so the contract says nothing of its value and two
/// calls may return anything. What it claims is the form that `uuid` gives
/// every id it prints: 36 characters, the hyphenated notation. The call
/// aborts if the operating system cannot supply random bytes.
#[verifier::external_body]
fn fresh_proposal_id() -> (id: String)
    ensures
        id@.len() == 36,
{
    uuid::Uuid::new_v4().to_string()
}

/// One node of the cluster: its identity, its peers, the shared state as it
/// knows it, and the rounds it has proposed.
pub struct Node {
    id: u64,
    address: String,
    peers: HashMap<u64, String>,
    policy: TransitionPolicy,
    timeout: u64,
    state: SharedState,
    ledger: Ledger,
}

impl View for Node {
    type V = NodeView;

    closed spec fn view(&self) -> NodeView {
        NodeView {
            id: self.id,
            address: self.address@,
            peers: addresses(self.peers@),
            policy: self.policy@,
            timeout: self.timeout,
            state: self.state@,
            ledger: self.ledger@,
        }
    }
}

impl Node {
    #[verifier::type_invariant]
    spec fn well_formed(self) -> bool {
        self@.wf()
    }

    /// A node in state `Init` with no round in flight. `peers` holds the
    /// other nodes of the cluster, `timeout` how long a round may wait for
    /// its quorum, in the unit in which the node is told the time. The node
    /// acknowledges every proposal.
    pub fn new(id: u64, address: String, peers: HashMap<u64, String>, timeout: u64) -> (node: Node)
        ensures
            node@.wf(),
            node@.id == id,
            node@.address == address@,
            node@.peers == addresses(peers@),
            node@.policy == Set::<(State, State)>::full(),
            node@.timeout == timeout,
            node@.state == (SharedStateView { value: State::Init, last_committed: None }),
            node@.ledger.records == Map::<Seq<char>, crate::ledger::RecordView>::empty(),
    {
        Node::with_policy(id, address, peers, timeout, TransitionPolicy::Any)
    }

    /// As `new`, with the rule by which the node acknowledges proposals.
    pub fn with_policy(
        id: u64,
        address: String,
        peers: HashMap<u64, String>,
        timeout: u64,
        policy: TransitionPolicy,
    ) -> (node: Node)
        ensures
            node@.wf(),
            node@.id == id,
            node@.address == address@,
            node@.peers == addresses(peers@),
            node@.policy == policy@,
            node@.timeout == timeout,
            node@.state == (SharedStateView { value: State::Init, last_committed: None }),
            node@.ledger.records == Map::<Seq<char>, crate::ledger::RecordView>::empty(),
    {
        proof {
            lemma_addresses_keep_ids(peers@);
        }
        Node {
            id,
            address,
            peers,
            policy,
            timeout,
            state: SharedState::new(State::Init),
            ledger: Ledger::new(),
        }
    }

    /// This node's identifier.
    pub fn id(&self) -> (id: u64)
        ensures
            id == self@.id,
    {
        self.id
    }

    /// The address at which this node listens.
    pub fn address(&self) -> (address: &String)
        ensures
            address@ == self@.address,
    {
        &self.address
    }

    /// The number of peers.
    pub fn peer_count(&self) -> (n: usize)
        ensures
            n == self@.peer_count(),
    {
        proof {
            lemma_addresses_keep_ids(self.peers@);
        }
        self.peers.len()
    }

    /// The state this node is in.
    pub fn current_state(&self) -> (value: State)
        ensures
            value == self@.state.value,
    {
        self.state.current()
    }

    /// The id of the proposal whose commit this node applied last, if any.
    pub fn last_committed(&self) -> (id: Option<String>)
        ensures
            match id {
                Some(s) => self@.state.last_committed == Some(s@),
                None => self@.state.last_committed is None,
            },
    {
        self.state.last_committed()
    }

    /// Whether a round with this id is in flight on this node.
    pub fn in_flight(&self, proposal_id: &String) -> (present: bool)
        ensures
            present == self@.ledger.contains(proposal_id@),
    {
        self.ledger.contains(proposal_id)
    }

    /// How many peers have acknowledged the round; 0 for a round that is
    /// not in flight. It is never more than there are peers.
    pub fn ack_count(&self, proposal_id: &String) -> (count: usize)
        ensures
            count == self@.ledger.ack_count(proposal_id@),
            count <= self@.peer_count(),
    {
        proof {
            use_type_invariant(self);
            if self@.ledger.contains(proposal_id@) {
                vstd::set_lib::lemma_len_subset(
                    self@.ledger.records[proposal_id@].acknowledged,
                    self@.peers.dom(),
                );
            }
        }
        self.ledger.ack_count(proposal_id)
    }

    /// One copy of `message` for each peer.
    fn broadcast(&self, message: &Message) -> (out: Vec<Outbound>)
        ensures
            self@.is_broadcast(outbound_views(out@), message@),
    {
        let ghost start = self.peers.iter();
        let mut out: Vec<Outbound> = Vec::new();
        for pair in it: self.peers.iter()
            invariant
                it.seq() == start.remaining(),
                start.remaining().no_duplicates(),
                out.len() == it.index(),
                forall|j: int|
                    0 <= j < out.len() ==> (#[trigger] out[j]).peer_id == *start.remaining()[j].0
                        && out[j].address == *start.remaining()[j].1 && out[j].message@
                        == message@,
        {
            let (peer_id, address) = pair;
            out.push(
                Outbound {
                    peer_id: *peer_id,
                    address: address.clone(),
                    message: message.duplicate(),
                },
            );
        }
        proof {
            let all = start.remaining();
            let sent = outbound_views(out@);
            let targets = sent.map_values(|o: OutboundView| o.peer_id);
            assert forall|i: int, j: int|
                0 <= i < targets.len() && 0 <= j < targets.len() && i != j implies targets[i]
                != targets[j] by {
                if targets[i] == targets[j] {
                    assert(self.peers@[*all[j].0] == *all[j].1);
                }
            }
            assert forall|k: u64| targets.to_set().contains(k) == self@.peers.dom().contains(
                k,
            ) by {
                if self.peers@.contains_key(k) {
                    let found = (&k, &self.peers@[k]);
                    let j = choose|j: int| 0 <= j < all.len() && all[j] == found;
                    assert(targets[j] == k);
                }
            }
            assert(targets.to_set() =~= self@.peers.dom());
        }
        out
    }

    /// Takes one received message and says what to send in reply, if
    /// anything: see `NodeView::handle`.
    pub fn handle_message(&mut self, message: &Message) -> (reply: Option<Outbound>)
        ensures
            final(self)@ == old(self)@.handle(message@).0,
            match reply {
                Some(r) => old(self)@.handle(message@).1 == Some(r@),
                None => old(self)@.handle(message@).1 is None,
            },
    {
        proof {
            use_type_invariant(&*self);
        }
        let address = match self.peers.get(&message.sender_id) {
            Some(address) => address,
            None => {
                return None;
            },
        };
        match message.message_type {
            MessageType::Proposal => {
                if self.policy.permits(self.state.current(), message.proposed_state) {
                    let answer = Message::acknowledgment(
                        self.id,
                        message.proposal_id.clone(),
                        message.proposed_state,
                    );
                    Some(
                        Outbound {
                            peer_id: message.sender_id,
                            address: address.clone(),
                            message: answer,
                        },
                    )
                } else {
                    None
                }
            },
            MessageType::Acknowledgment => {
                // The ledger leaves the node while it changes.
                let ghost before = self@;
                let mut ledger = Ledger::new();
                std::mem::swap(&mut self.ledger, &mut ledger);
                ledger.record_ack(&message.proposal_id, message.sender_id);
                proof {
                    before.lemma_handle_keeps_wf(message@);
                }
                std::mem::swap(&mut self.ledger, &mut ledger);
                None
            },
            MessageType::Commit => {
                // The cell leaves the node while it changes.
                let mut state = SharedState::new(State::Init);
                std::mem::swap(&mut self.state, &mut state);
                state.try_apply(&message.proposal_id, message.proposed_state);
                std::mem::swap(&mut self.state, &mut state);
                None
            },
        }
    }

    /// Takes the received messages one after the other and returns the
    /// replies in the order in which they were made: see
    /// `NodeView::handle_all`.
    pub fn handle_incoming_messages(&mut self, messages: &Vec<Message>) -> (replies: Vec<Outbound>)
        ensures
            final(self)@ == old(self)@.handle_all(message_views(messages@)).0,
            outbound_views(replies@) == old(self)@.handle_all(message_views(messages@)).1,
    {
        let ghost all = message_views(messages@);
        let mut replies: Vec<Outbound> = Vec::new();
        let mut i: usize = 0;
        while i < messages.len()
            invariant
                i <= messages.len(),
                all == message_views(messages@),
                self@ == old(self)@.handle_all(all.take(i as int)).0,
                outbound_views(replies@) == old(self)@.handle_all(all.take(i as int)).1,
            decreases messages.len() - i,
        {
            assert(all.take(i + 1).drop_last() =~= all.take(i as int));
            if let Some(reply) = self.handle_message(&messages[i]) {
                replies.push(reply);
            }
            i += 1;
        }
        assert(all.take(messages.len() as int) =~= all);
        replies
    }

    /// Opens a round under `proposal_id` for `state` at the time `now`, and
    /// returns the proposals to send, one to each peer. An id that is
    /// already in flight is refused and nothing changes.
    pub fn begin_round(&mut self, proposal_id: String, state: State, now: u64) -> (outcome: Result<
        Vec<Outbound>,
        ConsensusError,
    >)
        ensures
            outcome is Ok <==> !old(self)@.ledger.contains(proposal_id@),
            match outcome {
                Ok(out) => final(self)@ == old(self)@.begin_round(proposal_id@, state, now)
                    && old(self)@.is_broadcast(
                    outbound_views(out@),
                    old(self)@.proposal_message(proposal_id@, state),
                ),
                Err(e) => e == ConsensusError::DuplicateProposal && final(self)@ == old(self)@,
            },
    {
        proof {
            use_type_invariant(&*self);
        }
        let message = Message::proposal(self.id, proposal_id.clone(), state);
        // The ledger leaves the node while it changes.
        let ghost before = self@;
        let mut ledger = Ledger::new();
        std::mem::swap(&mut self.ledger, &mut ledger);
        let begun = ledger.begin(proposal_id, state, now);
        proof {
            before.lemma_begin_round_keeps_wf(proposal_id@, state, now);
        }
        std::mem::swap(&mut self.ledger, &mut ledger);
        match begun {
            Ok(()) => Ok(self.broadcast(&message)),
            Err(e) => Err(e),
        }
    }

    /// Proposes `proposed_state` to the cluster at the time `now`: mints a
    /// fresh id and opens the round under it, as `begin_round` does. The
    /// caller sends the proposals and then asks `poll_round` how the round
    /// stands until it is decided.
    ///
    /// The error is owed to chance alone: it comes where the minted id is
    /// that of a round already in flight. Minted ids are 36 characters long,
    /// so the call succeeds wherever no round in flight has an id of that
    /// length.
    pub fn broadcast_proposal(&mut self, proposed_state: State, now: u64) -> (outcome: Result<
        Round,
        ConsensusError,
    >)
        ensures
            (forall|id: Seq<char>| #[trigger] old(self)@.ledger.contains(id) ==> id.len() != 36)
                ==> outcome is Ok,
            match outcome {
                Ok(round) => round.proposal_id@.len() == 36 && !old(self)@.ledger.contains(
                    round.proposal_id@,
                ) && final(self)@ == old(self)@.begin_round(
                    round.proposal_id@,
                    proposed_state,
                    now,
                ) && old(self)@.is_broadcast(
                    outbound_views(round.outbound@),
                    old(self)@.proposal_message(round.proposal_id@, proposed_state),
                ),
                Err(e) => e == ConsensusError::DuplicateProposal && final(self)@ == old(self)@,
            },
    {
        let proposal_id = fresh_proposal_id();
        let kept = proposal_id.clone();
        match self.begin_round(proposal_id, proposed_state, now) {
            Ok(outbound) => Ok(Round { proposal_id: kept, outbound }),
            Err(e) => Err(e),
        }
    }

    /// Looks at a round at the time `now` and acts on what it finds: see
    /// `NodeView::phase` and `NodeView::after_poll`. With a quorum the
    /// node applies the proposed state and hands back the commits to send.
    /// After the deadline the round is given up and the shared state stays
    /// as it was. Either way the round leaves the ledger, so that
    /// acknowledgments that arrive later are not counted.
    pub fn poll_round(&mut self, proposal_id: &String, now: u64) -> (status: RoundStatus)
        ensures
            status.phase() == old(self)@.phase(proposal_id@, now),
            final(self)@ == old(self)@.after_poll(proposal_id@, now),
            match status {
                RoundStatus::Committing(out) => old(self)@.is_broadcast(
                    outbound_views(out@),
                    old(self)@.commit_message(proposal_id@),
                ),
                _ => true,
            },
    {
        proof {
            use_type_invariant(&*self);
            lemma_addresses_keep_ids(self.peers@);
        }
        let (proposed, created) = match self.ledger.get(proposal_id) {
            Some(record) => (record.proposed_state(), record.created_at()),
            None => {
                return RoundStatus::NotInFlight;
            },
        };
        let waited: u64 = if now >= created {
            now - created
        } else {
            0
        };
        let ghost before = self@;
        proof {
            before.lemma_after_poll_keeps_wf(proposal_id@, now);
        }
        if self.ledger.quorum_reached(proposal_id, self.peers.len()) {
            // The cell and the ledger leave the node while they change.
            let mut state = SharedState::new(State::Init);
            std::mem::swap(&mut self.state, &mut state);
            state.try_apply(proposal_id, proposed);
            std::mem::swap(&mut self.state, &mut state);
            let mut ledger = Ledger::new();
            std::mem::swap(&mut self.ledger, &mut ledger);
            ledger.complete(proposal_id);
            std::mem::swap(&mut self.ledger, &mut ledger);
            let message = Message::commit(self.id, proposal_id.clone(), proposed);
            RoundStatus::Committing(self.broadcast(&message))
        } else if waited >= self.timeout {
            // The ledger leaves the node while it changes.
            let mut ledger = Ledger::new();
            std::mem::swap(&mut self.ledger, &mut ledger);
            ledger.complete(proposal_id);
            std::mem::swap(&mut self.ledger, &mut ledger);
            RoundStatus::TimedOut
        } else {
            RoundStatus::AwaitingQuorum
        }
    }
}

} // verus!
