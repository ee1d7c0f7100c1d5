use bitwarden_rofi::bitwarden::Error;
use bitwarden_rofi::providers::bitwarden::{flow_start, flow_step, FlowAction, FlowEvent, FlowState};

#[test]
fn flow_begins_by_asking_the_credential_store() {
    let (state, action) = flow_start();
    assert!(matches!(state, FlowState::Start));
    assert!(matches!(action, FlowAction::FetchStoredToken));
}

#[test]
fn locked_vault_triggers_interactive_unlock_then_persists_the_token() {
    // A stored token exists, so it is probed first.
    let (state, action) = flow_start();
    assert!(matches!(action, FlowAction::FetchStoredToken));
    let (state, action) = flow_step(state, FlowEvent::StoredToken(Some("old-tok".to_string())));
    match &action {
        FlowAction::RunStatus(token) => assert_eq!(token, "old-tok"),
        other => panic!("unexpected action: {:?}", other),
    }

    // The vault answers that it is locked: the flow must prompt.
    let probe = b"{\"status\":\"locked\"}".to_vec();
    let (state, action) = flow_step(state, FlowEvent::ProbeOutput(probe));
    assert!(matches!(state, FlowState::Prompting));
    assert!(matches!(action, FlowAction::PromptPassword));

    // The user enters the master password; the unlock subcommand runs.
    let (state, action) = flow_step(state, FlowEvent::PasswordEntered(Some("hunter2".to_string())));
    assert!(matches!(state, FlowState::Unlocking));
    match &action {
        FlowAction::RunUnlock(pw) => assert_eq!(pw, "hunter2"),
        other => panic!("unexpected action: {:?}", other),
    }

    // A fresh token comes back: the session is ready and the token is
    // persisted under the fixed service and account pair.
    let (state, action) = flow_step(state, FlowEvent::UnlockOutput(b"new-tok".to_vec()));
    match &state {
        FlowState::Ready(token) => assert_eq!(token, "new-tok"),
        other => panic!("unexpected state: {:?}", other),
    }
    match &action {
        FlowAction::StoreToken { service, account, token } => {
            assert_eq!(service, "bitwarden_rofi");
            assert_eq!(account, "BW_SESSION");
            assert_eq!(token, "new-tok");
        },
        other => panic!("unexpected action: {:?}", other),
    }
}

#[test]
fn valid_stored_token_is_adopted_without_prompting() {
    let (state, _) = flow_start();
    let (state, _) = flow_step(state, FlowEvent::StoredToken(Some("tok".to_string())));
    let probe = b"{\"status\":\"unlocked\"}".to_vec();
    let (state, action) = flow_step(state, FlowEvent::ProbeOutput(probe));
    match &state {
        FlowState::Ready(token) => assert_eq!(token, "tok"),
        other => panic!("unexpected state: {:?}", other),
    }
    assert!(matches!(action, FlowAction::Done));
}

#[test]
fn undecryptable_probe_falls_through_to_prompt() {
    let (state, _) = flow_start();
    let (state, _) = flow_step(state, FlowEvent::StoredToken(Some("tok".to_string())));
    let probe = b"Failed to decrypt. sorry".to_vec();
    let (state, action) = flow_step(state, FlowEvent::ProbeOutput(probe));
    assert!(matches!(state, FlowState::Prompting));
    assert!(matches!(action, FlowAction::PromptPassword));
}

#[test]
fn missing_stored_token_prompts_immediately() {
    let (state, _) = flow_start();
    let (state, action) = flow_step(state, FlowEvent::StoredToken(None));
    assert!(matches!(state, FlowState::Prompting));
    assert!(matches!(action, FlowAction::PromptPassword));
}

#[test]
fn cancelled_prompt_ends_the_flow() {
    let (state, _) = flow_start();
    let (state, _) = flow_step(state, FlowEvent::StoredToken(None));
    let (state, action) = flow_step(state, FlowEvent::PasswordEntered(None));
    assert!(matches!(state, FlowState::Cancelled));
    assert!(matches!(action, FlowAction::Fail));
}

#[test]
fn empty_unlock_output_is_a_rejected_password_not_a_session() {
    let (state, _) = flow_start();
    let (state, _) = flow_step(state, FlowEvent::StoredToken(None));
    let (state, _) = flow_step(state, FlowEvent::PasswordEntered(Some("wrong".to_string())));
    let (state, action) = flow_step(state, FlowEvent::UnlockOutput(Vec::new()));
    assert!(matches!(state, FlowState::Failed(Error::UnlockFailed)));
    assert!(matches!(action, FlowAction::Fail));
}

#[test]
fn mismatched_event_changes_nothing() {
    let (state, _) = flow_start();
    let (state, action) = flow_step(state, FlowEvent::UnlockOutput(b"x".to_vec()));
    assert!(matches!(state, FlowState::Start));
    assert!(matches!(action, FlowAction::Nothing));
}
