use tule_desktop::agents::{
    connection_gate, finalize_action, model_request_controls_response, require_main_window,
    resolve_draft_for_send,
    turn_duration_ms, AgentIpcError, AgentOperationGate, FinalizeAction, ReasoningEffort,
    TerminalMeta,
};
use tule_desktop::harness::{collect_provider_text, HarnessPublicError};
use tule_desktop::operation_broker::{BrokerError, BrokerFaultHook, BrokerFaultPoint};
use tule_desktop::projects::{ProjectCommandError, ProjectStorageState};
use tule_desktop::provider::{
    public_error_code, rejection_clears_selection, selection_response_from_state,
    ConnectionState, ConnectionStatus, FakeProvider, ProviderEvent, PublicError,
    SelectedDefaultResolution,
};
use tule_desktop::source_draft::{SourceDraftError, SourceDraftStore};
use tule_desktop::turn_rows::turn_select;

#[test]
fn operation_gate_is_try_locked_and_send_drop_clears_cancellation() {
    let mut gate = AgentOperationGate::new();
    gate.try_operation().unwrap();
    assert!(matches!(
        gate.try_operation(),
        Err(PublicError::SessionBusy)
    ));
    gate.begin_turn("turn".to_owned());

    gate.end_send_operation();

    assert_eq!(gate.cancel_turn("turn"), Err(AgentIpcError::InvalidInput));
    assert!(gate.try_operation().is_ok());
}

#[test]
fn cancelling_a_turn_needs_its_identifier() {
    let mut gate = AgentOperationGate::new();
    gate.try_operation().unwrap();
    gate.begin_turn("t-1".to_owned());
    assert_eq!(gate.cancel_turn("t-2"), Err(AgentIpcError::InvalidInput));
    assert!(!gate.is_cancelled());
    assert_eq!(gate.cancel_turn("t-1"), Ok(()));
    assert!(gate.is_cancelled());
    gate.end_operation();
    assert!(gate.try_operation().is_ok());
}

#[test]
fn public_error_codes_are_exact_snake_case_strings() {
    assert_eq!(public_error_code(PublicError::NotConnected), "not_connected");
    assert_eq!(
        public_error_code(PublicError::UnsupportedProviderOutput),
        "unsupported_provider_output"
    );
    assert_eq!(
        public_error_code(PublicError::CredentialStoreUnavailable),
        "credential_store_unavailable"
    );
    assert_eq!(public_error_code(PublicError::ModelUnavailable), "model_unavailable");
}

#[test]
fn ipc_errors_keep_public_codes_and_map_source_failures() {
    assert_eq!(
        AgentIpcError::from(PublicError::RateLimited),
        AgentIpcError::RateLimited
    );
    assert_eq!(
        AgentIpcError::from(SourceDraftError::RandomUnavailable),
        AgentIpcError::SourceUnsupported
    );
    assert_eq!(
        AgentIpcError::from(SourceDraftError::TooLarge),
        AgentIpcError::SourceTooLarge
    );
    assert_eq!(connection_gate(ConnectionState::Connected), Ok(()));
    assert_eq!(
        connection_gate(ConnectionState::ReconnectRequired),
        Err(AgentIpcError::AuthenticationRequired)
    );
    assert_eq!(
        connection_gate(ConnectionState::UnavailableInThisBuild),
        Err(AgentIpcError::ProviderUnavailable)
    );
    assert_eq!(
        connection_gate(ConnectionState::Connecting),
        Err(AgentIpcError::NotConnected)
    );
}

#[test]
fn finished_streams_settle_their_turn() {
    assert_eq!(finalize_action(Ok(()), true, true, true), FinalizeAction::KeepTerminal);
    assert_eq!(finalize_action(Ok(()), true, true, false), FinalizeAction::Cancel);
    assert_eq!(finalize_action(Ok(()), true, false, false), FinalizeAction::Complete);
    assert_eq!(
        finalize_action(Ok(()), false, false, false),
        FinalizeAction::Fail(PublicError::ProviderUnavailable)
    );
    assert_eq!(
        finalize_action(Err(PublicError::Cancelled), false, false, false),
        FinalizeAction::Cancel
    );
    assert_eq!(
        finalize_action(Err(PublicError::OutputLimit), true, false, false),
        FinalizeAction::Fail(PublicError::OutputLimit)
    );
}

#[test]
fn terminal_metadata_keeps_known_values() {
    let mut meta = TerminalMeta::new();
    meta.record(ProviderEvent::Delta("x".into()));
    assert!(!meta.completed);
    meta.record(ProviderEvent::Completed {
        response_id: Some("r".into()),
        input_tokens: Some(3),
        output_tokens: None,
    });
    meta.record(ProviderEvent::Completed {
        response_id: None,
        input_tokens: None,
        output_tokens: Some(4),
    });
    assert!(meta.completed);
    assert_eq!(meta.response_id.as_deref(), Some("r"));
    assert_eq!(meta.input_tokens, Some(3));
    assert_eq!(meta.output_tokens, Some(4));
}

#[test]
fn turn_duration_saturates() {
    assert_eq!(turn_duration_ms(100, Some(250)), Some(150));
    assert_eq!(turn_duration_ms(100, None), None);
    assert_eq!(turn_duration_ms(i64::MIN, Some(i64::MAX)), Some(i64::MAX));
    assert_eq!(turn_duration_ms(i64::MAX, Some(i64::MIN)), Some(i64::MIN));
}

#[test]
fn model_controls_follow_the_effort_capability() {
    let capable = model_request_controls_response("grok-4", Some(ReasoningEffort::Medium));
    assert_eq!(capable.model_id, "grok-4");
    assert!(capable.effort_available);
    assert_eq!(capable.effort_values, vec!["low", "medium", "high"]);
    assert_eq!(capable.effort_default, Some("medium"));
    assert!(!capable.speed_available);
    let plain = model_request_controls_response("grok-3", None);
    assert!(!plain.effort_available);
    assert!(plain.effort_values.is_empty());
    assert_eq!(plain.effort_default, None);
}

#[test]
fn send_attaches_only_drafts_of_its_target_scope() {
    let mut drafts = SourceDraftStore::new();
    let handle = drafts
        .insert("a.txt".into(), "x".into(), "local_text_file".into(), 1, None)
        .unwrap();
    assert_eq!(resolve_draft_for_send(&drafts, &handle, None).unwrap().content, "x");
    assert_eq!(
        resolve_draft_for_send(&drafts, &handle, Some("s".into())).unwrap_err(),
        AgentIpcError::SourceDraftExpired
    );
    drafts.bind_session_scope("s".into());
    assert_eq!(
        resolve_draft_for_send(&drafts, &handle, Some("s".into())).unwrap_err(),
        AgentIpcError::SourceDraftExpired
    );
}

#[test]
fn selection_response_resolves_the_stored_default() {
    let sealed = selection_response_from_state(true, Some("m".into()), true, SelectedDefaultResolution::RequiresChoice);
    assert_eq!(sealed.selected_model_id, None);
    assert!(!sealed.requires_selection);
    let marker = selection_response_from_state(
        false,
        Some("__requires_choice__".into()),
        true,
        SelectedDefaultResolution::Available("m".into()),
    );
    assert_eq!(marker.selected_model_id, None);
    assert!(marker.requires_selection);
    let available = selection_response_from_state(
        false,
        Some("m".into()),
        false,
        SelectedDefaultResolution::Available("m".into()),
    );
    assert_eq!(available.selected_model_id.as_deref(), Some("m"));
    assert_eq!(available.provider_id, "xai-subscription-oauth");
    let stale = selection_response_from_state(false, Some("gone".into()), false, SelectedDefaultResolution::RequiresChoice);
    assert_eq!(stale.selected_model_id.as_deref(), Some("gone"));
    assert!(stale.requires_selection);
    assert!(rejection_clears_selection(&Some("m".into()), &None, &"m".to_owned()));
    assert!(!rejection_clears_selection(&Some("a".into()), &Some("b".into()), &"m".to_owned()));
}

#[test]
fn harness_errors_and_collected_text() {
    assert_eq!(
        HarnessPublicError::from(PublicError::NotConnected),
        HarnessPublicError::ProviderUnavailable
    );
    assert_eq!(
        HarnessPublicError::from(PublicError::OutputLimit),
        HarnessPublicError::StorageUnavailable
    );
    assert_eq!(
        HarnessPublicError::from(BrokerError::Provider(PublicError::RateLimited)),
        HarnessPublicError::Blocked
    );
    assert_eq!(
        HarnessPublicError::from(BrokerError::GrantDenied("no".into())),
        HarnessPublicError::Denied
    );
    let text = collect_provider_text(&[
        ProviderEvent::Delta("he".into()),
        ProviderEvent::Completed { response_id: None, input_tokens: None, output_tokens: None },
        ProviderEvent::Delta("llo".into()),
    ]);
    assert_eq!(text, "hello");
}

#[test]
fn fault_hook_trips_only_at_the_armed_point() {
    let mut hook = BrokerFaultHook::new();
    assert_eq!(hook.trip(BrokerFaultPoint::AfterClaimed), Ok(()));
    hook.set(BrokerFaultPoint::AfterClaimed);
    assert_eq!(
        hook.trip(BrokerFaultPoint::AfterClaimed),
        Err(BrokerError::InjectedFault(BrokerFaultPoint::AfterClaimed))
    );
    assert_eq!(hook.trip(BrokerFaultPoint::AfterPrepared), Ok(()));
}

#[test]
fn unavailable_state_returns_only_the_storage_error_code() {
    let state: ProjectStorageState<String> = ProjectStorageState::unavailable();
    let error = match state.repository() {
        Ok(_) => panic!("unavailable storage unexpectedly returned a repository"),
        Err(error) => error,
    };

    assert_eq!(error, ProjectCommandError::ProjectStorageUnavailable);
}

#[test]
fn ready_state_clones_the_single_repository_owner() {
    let state = ProjectStorageState::ready("repository".to_owned());

    let first = state.repository().unwrap();
    let second = state.repository().unwrap();

    assert!(std::sync::Arc::ptr_eq(first, second));
}

#[test]
fn fake_provider_replays_its_outcome() {
    let status = ConnectionStatus {
        state: ConnectionState::Connected,
        provider_id: "p",
        model: "m",
    };
    let provider = FakeProvider::new(status, Ok(vec![ProviderEvent::Delta("a".into())]));
    assert_eq!(provider.connection_status(), status);
    let mut sink = Vec::new();
    assert_eq!(provider.stream(|| false, &mut sink), Ok(Vec::new()));
    assert_eq!(sink, vec![ProviderEvent::Delta("a".into())]);
    let mut sink = Vec::new();
    assert_eq!(provider.stream(|| true, &mut sink), Err(PublicError::Cancelled));
    assert!(sink.is_empty());
    let failing = FakeProvider::new(status, Err(PublicError::RateLimited));
    assert_eq!(failing.stream(|| false, &mut sink), Err(PublicError::RateLimited));
}

#[test]
fn turn_reads_append_their_suffix() {
    let sql = turn_select(" WHERE id = ?1");
    assert!(sql.starts_with("SELECT id, session_id, ordinal,"));
    assert!(sql.ends_with("FROM agent_turns WHERE id = ?1"));
}

#[test]
fn agent_commands_are_accepted_only_from_the_main_window() {
    assert_eq!(require_main_window("main"), Ok(()));
    assert_eq!(require_main_window("settings"), Err(AgentIpcError::InvalidInput));
    assert_eq!(require_main_window("Main"), Err(AgentIpcError::InvalidInput));
    assert_eq!(require_main_window(""), Err(AgentIpcError::InvalidInput));
}
