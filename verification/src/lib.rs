//! A replicated finite-state machine: a fixed set of peer nodes agrees on
//! every transition of one shared state by a propose / acknowledge / commit
//! round before any node applies the change.
//!
//! The library holds the protocol's data and decisions. Sockets, timers and
//! task scheduling belong to the program that embeds it: that program feeds
//! received bytes, decoded messages and the current time in, and carries the
//! outbound messages that the library hands back.

pub mod error;
pub mod framing;
pub mod laws;
pub mod ledger;
pub mod message;
pub mod node;
pub mod policy;
pub mod shared_state;

pub use error::ConsensusError;
pub use framing::FrameBuffer;
pub use ledger::Ledger;
pub use message::{Message, MessageType, State};
pub use node::Node;
pub use shared_state::SharedState;
