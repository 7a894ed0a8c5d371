use tinyfusion_core::session::{Session, SessionManager, SessionState};
use tinyfusion_core::sniffer::Message;

fn test_messages() -> Vec<Message> {
    vec![
        Message {
            role: "system".into(),
            content: "You are helpful".into(),
        },
        Message {
            role: "user".into(),
            content: "Fix this bug".into(),
        },
    ]
}

#[test]
fn test_session_creation() {
    let mut manager = SessionManager::new();
    let messages = test_messages();
    let id = Session::id_from_messages(&messages);

    let (returned_id, collision) = manager.get_or_create(id.clone(), messages, vec![]);
    assert_eq!(returned_id, id);
    assert!(!collision);
    let lookup = manager.lookup(&id);
    assert!(lookup.is_some());
    let session = lookup.unwrap();
    assert_eq!(session.state, SessionState::Diagnostic);
    assert_eq!(session.retry_count, 0);
}

#[test]
fn test_session_state_transition() {
    let mut manager = SessionManager::new();
    let messages = test_messages();
    let id = Session::id_from_messages(&messages);

    let _ = manager.get_or_create(id.clone(), messages, vec![]);

    manager.set_state(&id, SessionState::Execution);
    let session = manager.lookup(&id).unwrap();
    assert_eq!(session.state, SessionState::Execution);
}

#[test]
fn test_session_collision_detection() {
    let mut manager = SessionManager::new();
    let messages1 = test_messages();

    let mut messages2 = messages1.clone();
    messages2[0].content = "Different content to force different hash".into();

    let id1 = Session::id_from_messages(&messages1);
    let id2 = Session::id_from_messages(&messages2);
    assert_ne!(id1, id2, "Test requires different hashes");

    manager.get_or_create(id1.clone(), messages1, vec![]);

    let (_, collision) = manager.get_or_create(id1.clone(), messages2, vec![]);
    assert!(collision);
}

#[test]
fn test_session_hash_is_deterministic() {
    let messages = test_messages();
    let hash1 = Session::id_from_messages(&messages);
    let hash2 = Session::id_from_messages(&messages);
    assert_eq!(hash1, hash2);
}

#[test]
fn test_session_retry_increment() {
    let mut manager = SessionManager::new();
    let messages = test_messages();
    let id = Session::id_from_messages(&messages);

    let _ = manager.get_or_create(id.clone(), messages, vec![]);

    manager.increment_retry(&id);
    manager.increment_retry(&id);
    let session = manager.lookup(&id).unwrap();
    assert_eq!(session.retry_count, 2);
}

#[test]
fn test_transition_diagnostic_to_execution() {
    let mut manager = SessionManager::new();
    let messages = test_messages();
    let id = Session::id_from_messages(&messages);
    let _ = manager.get_or_create(id.clone(), messages, vec![]);

    let new_state = manager.transition(&id, 3).unwrap();
    assert_eq!(new_state, SessionState::Execution);
    assert_eq!(manager.lookup(&id).unwrap().state, SessionState::Execution);
}

#[test]
fn test_transition_execution_to_verify() {
    let mut manager = SessionManager::new();
    let messages = test_messages();
    let id = Session::id_from_messages(&messages);
    let _ = manager.get_or_create(id.clone(), messages, vec![]);

    manager.set_state(&id, SessionState::Execution);
    let new_state = manager.transition(&id, 3).unwrap();
    assert_eq!(new_state, SessionState::Verify);
}

#[test]
fn test_transition_verify_to_done_on_success() {
    let mut manager = SessionManager::new();
    let messages = test_messages();
    let id = Session::id_from_messages(&messages);
    let _ = manager.get_or_create(id.clone(), messages, vec![]);

    manager.set_state(&id, SessionState::Verify);
    // retry_count starts at 0, max_retries is 0 → should go to Done
    let new_state = manager.transition(&id, 0).unwrap();
    assert_eq!(new_state, SessionState::Done);
}

#[test]
fn test_transition_verify_to_diagnostic_on_retry() {
    let mut manager = SessionManager::new();
    let messages = test_messages();
    let id = Session::id_from_messages(&messages);
    let _ = manager.get_or_create(id.clone(), messages, vec![]);

    manager.set_state(&id, SessionState::Verify);
    // retry_count 0 < max 3 → should retry to Diagnostic
    let new_state = manager.transition(&id, 3).unwrap();
    assert_eq!(new_state, SessionState::Diagnostic);
    assert_eq!(manager.lookup(&id).unwrap().retry_count, 1);
}

#[test]
fn test_transition_done_returns_none() {
    let mut manager = SessionManager::new();
    let messages = test_messages();
    let id = Session::id_from_messages(&messages);
    let _ = manager.get_or_create(id.clone(), messages, vec![]);

    manager.set_state(&id, SessionState::Done);
    let result = manager.transition(&id, 3);
    assert!(result.is_none(), "Done state should not transition");
}

#[test]
fn test_transition_verify_to_done_when_max_retries_reached() {
    let mut manager = SessionManager::new();
    let messages = test_messages();
    let id = Session::id_from_messages(&messages);
    let _ = manager.get_or_create(id.clone(), messages, vec![]);

    manager.set_state(&id, SessionState::Verify);
    manager.increment_retry(&id);
    manager.increment_retry(&id);
    manager.increment_retry(&id); // retry_count = 3, max = 3

    let new_state = manager.transition(&id, 3).unwrap();
    assert_eq!(new_state, SessionState::Done);
}
