//! The values that travel between nodes.

use vstd::prelude::*;

verus! {

/// The symbolic states the cluster can agree on.
#[derive(Debug, Clone, Copy, PartialEq, Eq, Hash, Structural)]
pub enum State {
    Init,
    Running,
    Stopped,
}

/// What a message asks of its receiver.
#[derive(Debug, Clone, Copy, PartialEq, Eq, Hash, Structural)]
pub enum MessageType {
    /// A request to change the shared state.
    Proposal,
    /// A peer's promise to accept the proposal once it is committed.
    Acknowledgment,
    /// The proposer's instruction to apply the change.
    Commit,
}

/// One protocol message. It is self-contained: `proposal_id` ties it to its
/// round, so it can travel over a fresh connection or a shared one.
///
/// `proposed_state` is the state asked for in a proposal and the state to
/// apply in a commit. An acknowledgment echoes the state it answers; its
/// receiver does not read it.
#[derive(Debug, PartialEq, Eq)]
pub struct Message {
    pub sender_id: u64,
    pub message_type: MessageType,
    pub proposed_state: State,
    pub proposal_id: String,
}

/// A message as contracts see it: the identifier is its sequence of
/// characters.
pub ghost struct MessageView {
    pub sender_id: u64,
    pub message_type: MessageType,
    pub proposed_state: State,
    pub proposal_id: Seq<char>,
}

impl View for Message {
    type V = MessageView;

    open spec fn view(&self) -> MessageView {
        MessageView {
            sender_id: self.sender_id,
            message_type: self.message_type,
            proposed_state: self.proposed_state,
            proposal_id: self.proposal_id@,
        }
    }
}

impl Message {
    /// A proposal by `sender_id` to move the shared state to `state`.
    pub fn proposal(sender_id: u64, proposal_id: String, state: State) -> (m: Message)
        ensures
            m@ == (MessageView {
                sender_id,
                message_type: MessageType::Proposal,
                proposed_state: state,
                proposal_id: proposal_id@,
            }),
    {
        Message {
            sender_id,
            message_type: MessageType::Proposal,
            proposed_state: state,
            proposal_id,
        }
    }

    /// The acknowledgment by `sender_id` of the proposal `proposal_id`, which
    /// asked for `state`.
    pub fn acknowledgment(sender_id: u64, proposal_id: String, state: State) -> (m: Message)
        ensures
            m@ == (MessageView {
                sender_id,
                message_type: MessageType::Acknowledgment,
                proposed_state: state,
                proposal_id: proposal_id@,
            }),
    {
        Message {
            sender_id,
            message_type: MessageType::Acknowledgment,
            proposed_state: state,
            proposal_id,
        }
    }

    /// The commit by `sender_id` of the proposal `proposal_id`: every
    /// receiver is to apply `state`.
    pub fn commit(sender_id: u64, proposal_id: String, state: State) -> (m: Message)
        ensures
            m@ == (MessageView {
                sender_id,
                message_type: MessageType::Commit,
                proposed_state: state,
                proposal_id: proposal_id@,
            }),
    {
        Message {
            sender_id,
            message_type: MessageType::Commit,
            proposed_state: state,
            proposal_id,
        }
    }

    /// A copy of this message.
    pub fn duplicate(&self) -> (m: Message)
        ensures
            m@ == self@,
    {
        Message {
            sender_id: self.sender_id,
            message_type: self.message_type,
            proposed_state: self.proposed_state,
            proposal_id: self.proposal_id.clone(),
        }
    }
}

} // verus!
