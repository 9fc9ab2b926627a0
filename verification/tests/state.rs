use repligrate::state::{status_of, ListenerState};

#[test]
fn test_initial_state_unpaused() {
    let state = ListenerState::new();
    assert!(!state.is_paused());
    assert_eq!(state.status(), "LISTENING");
}

#[test]
fn test_pause() {
    let state = ListenerState::new();
    state.pause();
    assert!(state.is_paused());
    assert_eq!(state.status(), "PAUSED");
}

#[test]
fn test_continue_listening() {
    let state = ListenerState::new();
    state.pause();
    assert!(state.is_paused());
    state.continue_listening();
    assert!(!state.is_paused());
    assert_eq!(state.status(), "LISTENING");
}

#[test]
fn test_toggle() {
    let state = ListenerState::new();
    assert!(!state.is_paused());

    state.toggle();
    assert!(state.is_paused());

    state.toggle();
    assert!(!state.is_paused());
}

#[test]
fn test_clone_shares_state() {
    let state1 = ListenerState::new();
    let state2 = state1.clone();

    state1.pause();
    assert!(state2.is_paused());

    state2.continue_listening();
    assert!(!state1.is_paused());
}

#[test]
fn status_names() {
    assert_eq!(status_of(true), "PAUSED");
    assert_eq!(status_of(false), "LISTENING");
    assert!(!ListenerState::default().is_paused());
}
