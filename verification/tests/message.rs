use distributed_state_machine::message::{Message, MessageType, State};
use distributed_state_machine::policy::TransitionPolicy;

#[test]
fn proposal_carries_its_fields() {
    let m = Message::proposal(1, "p".to_string(), State::Running);
    assert_eq!(
        m,
        Message {
            sender_id: 1,
            message_type: MessageType::Proposal,
            proposed_state: State::Running,
            proposal_id: "p".to_string(),
        }
    );
}

#[test]
fn acknowledgment_carries_its_fields() {
    let m = Message::acknowledgment(2, "p".to_string(), State::Stopped);
    assert_eq!(
        m,
        Message {
            sender_id: 2,
            message_type: MessageType::Acknowledgment,
            proposed_state: State::Stopped,
            proposal_id: "p".to_string(),
        }
    );
}

#[test]
fn commit_carries_its_fields() {
    let m = Message::commit(3, "q".to_string(), State::Init);
    assert_eq!(
        m,
        Message {
            sender_id: 3,
            message_type: MessageType::Commit,
            proposed_state: State::Init,
            proposal_id: "q".to_string(),
        }
    );
}

#[test]
fn duplicate_equals_the_message() {
    let m = Message::commit(u64::MAX, "some-id".to_string(), State::Stopped);
    assert_eq!(m.duplicate(), m);
}

#[test]
fn states_compare_by_variant() {
    assert_eq!(State::Init, State::Init);
    assert_ne!(State::Init, State::Running);
    assert_ne!(State::Running, State::Stopped);
}

#[test]
fn policy_any_permits_every_step() {
    let policy = TransitionPolicy::Any;
    for from in [State::Init, State::Running, State::Stopped] {
        for to in [State::Init, State::Running, State::Stopped] {
            assert!(policy.permits(from, to));
        }
    }
}

#[test]
fn policy_only_permits_the_listed_steps() {
    let policy = TransitionPolicy::Only(vec![
        (State::Init, State::Running),
        (State::Running, State::Stopped),
    ]);
    assert!(policy.permits(State::Init, State::Running));
    assert!(policy.permits(State::Running, State::Stopped));
    assert!(!policy.permits(State::Init, State::Stopped));
    assert!(!policy.permits(State::Running, State::Init));
    assert!(!policy.permits(State::Stopped, State::Running));
    assert!(!policy.permits(State::Init, State::Init));
}

#[test]
fn policy_with_no_step_permits_nothing() {
    let policy = TransitionPolicy::Only(vec![]);
    assert!(!policy.permits(State::Init, State::Running));
    assert!(!policy.permits(State::Init, State::Init));
}

#[test]
fn policy_duplicate_permits_the_same_steps() {
    let policy = TransitionPolicy::Only(vec![(State::Stopped, State::Running)]);
    let copy = policy.duplicate();
    assert_eq!(copy, policy);
    assert!(copy.permits(State::Stopped, State::Running));
    assert!(!copy.permits(State::Running, State::Stopped));
    assert_eq!(TransitionPolicy::Any.duplicate(), TransitionPolicy::Any);
}
