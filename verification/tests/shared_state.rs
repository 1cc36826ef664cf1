use distributed_state_machine::message::State;
use distributed_state_machine::shared_state::SharedState;

#[test]
fn new_cell_holds_initial_state_and_no_commit() {
    let cell = SharedState::new(State::Init);
    assert_eq!(cell.current(), State::Init);
    assert_eq!(cell.last_committed(), None);
}

#[test]
fn try_apply_changes_state_and_remembers_id() {
    let mut cell = SharedState::new(State::Init);
    assert!(cell.try_apply(&"p-1".to_string(), State::Running));
    assert_eq!(cell.current(), State::Running);
    assert_eq!(cell.last_committed(), Some("p-1".to_string()));
}

#[test]
fn applying_the_same_commit_twice_is_a_no_op() {
    let mut cell = SharedState::new(State::Init);
    assert!(cell.try_apply(&"p-1".to_string(), State::Running));
    assert!(!cell.try_apply(&"p-1".to_string(), State::Running));
    assert_eq!(cell.current(), State::Running);
    assert_eq!(cell.last_committed(), Some("p-1".to_string()));
}

#[test]
fn stale_commit_with_another_state_is_refused() {
    let mut cell = SharedState::new(State::Init);
    assert!(cell.try_apply(&"p-1".to_string(), State::Running));
    assert!(!cell.try_apply(&"p-1".to_string(), State::Stopped));
    assert_eq!(cell.current(), State::Running);
}

#[test]
fn a_new_id_replaces_the_last_commit() {
    let mut cell = SharedState::new(State::Init);
    assert!(cell.try_apply(&"p-1".to_string(), State::Running));
    assert!(cell.try_apply(&"p-2".to_string(), State::Stopped));
    assert_eq!(cell.current(), State::Stopped);
    assert_eq!(cell.last_committed(), Some("p-2".to_string()));
}
