use tule_desktop::agents::{
    event_answers, send_step, AgentIpcError, FinalizeAction, RefreshOutcome, SendAction, SendEvent, SendRequest,
    SendState,
};
use tule_desktop::provider::{ConnectionState, PublicError};

fn request(existing: bool, model: Option<&str>, draft: bool, adapter: bool) -> SendRequest {
    SendRequest {
        existing_session: existing,
        project: false,
        requested_model: model.map(str::to_owned),
        draft,
        adapter,
    }
}

fn opened() -> SendEvent {
    SendEvent::Opened { main_window: true, operation_free: true, ids_valid: true }
}

#[test]
fn new_session_send_runs_to_a_completed_stream() {
    let (s, a) = send_step(SendState::Opening(request(false, Some("grok-3"), false, true)), opened());
    assert_eq!(a, SendAction::ReadConnection);
    let (s, a) = send_step(s, SendEvent::ConnectionRead(ConnectionState::Connected));
    assert_eq!(a, SendAction::ValidateModel("grok-3".to_string()));
    let (s, a) = send_step(s, SendEvent::ModelValidated(Ok("grok-3".to_string())));
    assert_eq!(a, SendAction::ResolveEffort("grok-3".to_string()));
    let (s, a) = send_step(s, SendEvent::EffortResolved(Ok(())));
    assert_eq!(a, SendAction::PrepareTurn);
    let (s, a) = send_step(s, SendEvent::Prepared(Ok(())));
    assert_eq!(a, SendAction::AssembleRequest);
    let (s, a) = send_step(s, SendEvent::Assembled(Ok(())));
    assert_eq!(a, SendAction::AnnounceStarted);
    let (s, a) = send_step(s, SendEvent::Announced(true));
    assert_eq!(a, SendAction::RefreshAccess);
    let (s, a) = send_step(s, SendEvent::Refreshed(RefreshOutcome::Ready));
    assert_eq!(a, SendAction::CheckCancellation);
    let (s, a) = send_step(s, SendEvent::CancellationChecked(false));
    assert_eq!(a, SendAction::StartStream);
    let (s, a) = send_step(
        s,
        SendEvent::Streamed { result: Ok(()), completed: true, cancelled: false, already_terminal: false },
    );
    assert_eq!(
        a,
        SendAction::FinalizeTurn { action: FinalizeAction::Complete, recover_rejected_model: false }
    );
    let (s, a) = send_step(s, SendEvent::TurnRecorded(true));
    assert_eq!(a, SendAction::SendTerminal);
    let (s, a) = send_step(s, SendEvent::TerminalSent(Ok(())));
    assert_eq!(a, SendAction::Finish(Ok(())));
    assert_eq!(s, SendState::Done(Ok(())));
}

#[test]
fn existing_sessions_use_their_frozen_model() {
    let (s, _) = send_step(SendState::Opening(request(true, Some("other"), true, false)), opened());
    let (s, a) = send_step(s, SendEvent::ConnectionRead(ConnectionState::Connected));
    assert_eq!(a, SendAction::FindSession);
    let (s, a) = send_step(s, SendEvent::SessionFound(Ok(Some("grok-3".to_string()))));
    assert_eq!(a, SendAction::ResolveEffort("grok-3".to_string()));
    let (s, a) = send_step(s, SendEvent::EffortResolved(Ok(())));
    assert_eq!(a, SendAction::ResolveDraft);
    let (_, a) = send_step(s, SendEvent::DraftResolved(Err(AgentIpcError::SourceDraftExpired)));
    assert_eq!(a, SendAction::Finish(Err(AgentIpcError::SourceDraftExpired)));
}

#[test]
fn gate_failures_end_the_send() {
    let (_, a) = send_step(
        SendState::Opening(request(false, None, false, false)),
        SendEvent::Opened { main_window: false, operation_free: true, ids_valid: true },
    );
    assert_eq!(a, SendAction::Finish(Err(AgentIpcError::InvalidInput)));
    let (_, a) = send_step(
        SendState::Opening(request(false, None, false, false)),
        SendEvent::Opened { main_window: true, operation_free: false, ids_valid: true },
    );
    assert_eq!(a, SendAction::Finish(Err(AgentIpcError::SessionBusy)));
    let (s, _) = send_step(SendState::Opening(request(false, None, false, false)), opened());
    let (_, a) = send_step(s, SendEvent::ConnectionRead(ConnectionState::ReconnectRequired));
    assert_eq!(a, SendAction::Finish(Err(AgentIpcError::AuthenticationRequired)));
    let (s, _) = send_step(SendState::Opening(request(false, None, false, false)), opened());
    let (_, a) = send_step(s, SendEvent::ConnectionRead(ConnectionState::Connected));
    assert_eq!(a, SendAction::Finish(Err(AgentIpcError::ModelUnavailable)));
}

#[test]
fn context_limit_fails_the_turn_and_the_send() {
    let (_, a) = send_step(
        SendState::Assembling(request(false, Some("m"), false, false)),
        SendEvent::Assembled(Err(PublicError::ContextLimit)),
    );
    assert_eq!(a, SendAction::FailTurn(PublicError::ContextLimit));
    let (_, a) = send_step(
        SendState::Abandoning { error: AgentIpcError::ContextLimit, strict: false },
        SendEvent::TurnRecorded(false),
    );
    assert_eq!(a, SendAction::Finish(Err(AgentIpcError::ContextLimit)));
}

#[test]
fn refresh_outcomes_terminate_the_turn() {
    let (_, a) = send_step(SendState::Refreshing, SendEvent::Refreshed(RefreshOutcome::Cancelled));
    assert_eq!(a, SendAction::CancelTurn);
    let (_, a) = send_step(
        SendState::Refreshing,
        SendEvent::Refreshed(RefreshOutcome::Failed(PublicError::AuthenticationRequired)),
    );
    assert_eq!(a, SendAction::FailTurn(PublicError::AuthenticationRequired));
    let (_, a) = send_step(
        SendState::Streaming,
        SendEvent::Streamed {
            result: Err(PublicError::ModelUnavailable),
            completed: false,
            cancelled: false,
            already_terminal: false,
        },
    );
    assert_eq!(
        a,
        SendAction::FinalizeTurn {
            action: FinalizeAction::Fail(PublicError::ModelUnavailable),
            recover_rejected_model: true
        }
    );
}

#[test]
fn a_host_can_tell_whether_an_event_answers_the_send_state() {
    let state = SendState::Opening(request(false, Some("grok-3"), false, true));
    assert!(event_answers(&state, &opened()));
    assert!(!event_answers(&state, &SendEvent::Announced(true)));
    assert!(event_answers(&SendState::Refreshing, &SendEvent::Refreshed(RefreshOutcome::Ready)));
    assert!(!event_answers(&SendState::Streaming, &SendEvent::CancellationChecked(false)));
    assert!(event_answers(&SendState::Done(Ok(())), &SendEvent::TurnRecorded(true)));
}
