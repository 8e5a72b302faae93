use sidecar::state::{StateMachine, StateStore};
use sidecar::types::{Mode, RepositoryKey};

fn repo() -> RepositoryKey {
    RepositoryKey {
        owner_name: "lekkodev".to_string(),
        repo_name: "example".to_string(),
    }
}

fn is_shutdown(s: &StateStore) -> bool {
    matches!(s.current_state(), StateMachine::Shutdown)
}

#[test]
fn starts_bootstrapped_or_uninitialized() {
    let s = StateStore::new(None, Mode::Default);
    assert!(matches!(s.current_state(), StateMachine::Uninitialized));
    let s = StateStore::new(Some((repo(), "abc".to_string())), Mode::Default);
    match s.current_state() {
        StateMachine::Bootstrapped((rk, sha)) => {
            assert_eq!(rk.repo_name, "example");
            assert_eq!(sha, "abc");
        }
        other => panic!("unexpected state {other:?}"),
    }
}

#[test]
fn register_activates_only_in_default_mode() {
    let mut s = StateStore::new(None, Mode::Default);
    assert!(s.register(repo(), "key".to_string(), "session".to_string()));
    match s.current_state() {
        StateMachine::Active(cc) => assert_eq!(cc.session_key, "session"),
        other => panic!("unexpected state {other:?}"),
    }
    // A second registration changes nothing.
    assert!(!s.register(repo(), "key2".to_string(), "session2".to_string()));
    match s.current_state() {
        StateMachine::Active(cc) => assert_eq!(cc.api_key, "key"),
        other => panic!("unexpected state {other:?}"),
    }

    let mut s = StateStore::new(None, Mode::Static);
    assert!(!s.register(repo(), "key".to_string(), "session".to_string()));
    assert!(matches!(s.current_state(), StateMachine::Uninitialized));
}

#[test]
fn shutdown_waits_for_the_last_client() {
    let mut s = StateStore::new(None, Mode::Default);
    s.register(repo(), "key".to_string(), "session".to_string());
    s.register(repo(), "key".to_string(), "session".to_string());
    assert!(!s.shutdown());
    assert!(!is_shutdown(&s));
    assert!(!s.deregister());
    assert!(!is_shutdown(&s));
    assert!(s.deregister());
    assert!(is_shutdown(&s));
}

#[test]
fn shutdown_without_clients_is_immediate_and_final() {
    let mut s = StateStore::new(Some((repo(), "abc".to_string())), Mode::Default);
    assert!(s.shutdown());
    assert!(is_shutdown(&s));
    assert!(!s.register(repo(), "key".to_string(), "session".to_string()));
    assert!(is_shutdown(&s));
    assert!(!s.shutdown());
    assert!(is_shutdown(&s));
}

#[test]
fn deregister_before_shutdown_keeps_state() {
    let mut s = StateStore::new(None, Mode::Default);
    s.register(repo(), "key".to_string(), "session".to_string());
    assert!(!s.deregister());
    assert!(matches!(s.current_state(), StateMachine::Active(_)));
}
