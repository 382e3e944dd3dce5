//! Agent IPC decisions: the allowlisted error codes, the single-operation
//! gate with its cancellation slot, the connection gate before a send, the
//! stream's terminal metadata, how a finished stream is settled, and the
//! decisions of a send from its checks to its terminal event.

use vstd::prelude::*;

use crate::provider::{ConnectionState, ProviderEvent, ProviderEventModel, PublicError};
use crate::source_draft::{SourceDraft, SourceDraftError, SourceDraftStore};

verus! {

/// Allowlisted Agent IPC failures, including Source capture codes.
#[derive(Debug, Clone, Copy, PartialEq, Eq, Structural)]
pub enum AgentIpcError {
    NotConnected,
    InvalidInput,
    ContextLimit,
    SessionBusy,
    AuthenticationRequired,
    EntitlementUnavailable,
    RateLimited,
    ProviderUnavailable,
    UnsupportedProviderOutput,
    OutputLimit,
    Cancelled,
    Interrupted,
    CredentialStoreUnavailable,
    AgentStorageUnavailable,
    ModelUnavailable,
    SourceUnreadable,
    SourceUnsupported,
    SourceTooLarge,
    SourceDraftExpired,
}

/// Each public error keeps its own code across the IPC boundary.
pub open spec fn ipc_error_for_public(error: PublicError) -> AgentIpcError {
    match error {
        PublicError::NotConnected => AgentIpcError::NotConnected,
        PublicError::InvalidInput => AgentIpcError::InvalidInput,
        PublicError::ContextLimit => AgentIpcError::ContextLimit,
        PublicError::SessionBusy => AgentIpcError::SessionBusy,
        PublicError::AuthenticationRequired => AgentIpcError::AuthenticationRequired,
        PublicError::EntitlementUnavailable => AgentIpcError::EntitlementUnavailable,
        PublicError::RateLimited => AgentIpcError::RateLimited,
        PublicError::ProviderUnavailable => AgentIpcError::ProviderUnavailable,
        PublicError::UnsupportedProviderOutput => AgentIpcError::UnsupportedProviderOutput,
        PublicError::OutputLimit => AgentIpcError::OutputLimit,
        PublicError::Cancelled => AgentIpcError::Cancelled,
        PublicError::Interrupted => AgentIpcError::Interrupted,
        PublicError::CredentialStoreUnavailable => AgentIpcError::CredentialStoreUnavailable,
        PublicError::AgentStorageUnavailable => AgentIpcError::AgentStorageUnavailable,
        PublicError::ModelUnavailable => AgentIpcError::ModelUnavailable,
    }
}

/// Source capture failures map onto the Source codes; an unavailable random
/// source reads as an unsupported Source.
pub open spec fn ipc_error_for_source(error: SourceDraftError) -> AgentIpcError {
    match error {
        SourceDraftError::Unreadable => AgentIpcError::SourceUnreadable,
        SourceDraftError::Unsupported => AgentIpcError::SourceUnsupported,
        SourceDraftError::RandomUnavailable => AgentIpcError::SourceUnsupported,
        SourceDraftError::TooLarge => AgentIpcError::SourceTooLarge,
    }
}

impl From<PublicError> for AgentIpcError {
    fn from(error: PublicError) -> (r: Self) {
        match error {
            PublicError::NotConnected => AgentIpcError::NotConnected,
            PublicError::InvalidInput => AgentIpcError::InvalidInput,
            PublicError::ContextLimit => AgentIpcError::ContextLimit,
            PublicError::SessionBusy => AgentIpcError::SessionBusy,
            PublicError::AuthenticationRequired => AgentIpcError::AuthenticationRequired,
            PublicError::EntitlementUnavailable => AgentIpcError::EntitlementUnavailable,
            PublicError::RateLimited => AgentIpcError::RateLimited,
            PublicError::ProviderUnavailable => AgentIpcError::ProviderUnavailable,
            PublicError::UnsupportedProviderOutput => AgentIpcError::UnsupportedProviderOutput,
            PublicError::OutputLimit => AgentIpcError::OutputLimit,
            PublicError::Cancelled => AgentIpcError::Cancelled,
            PublicError::Interrupted => AgentIpcError::Interrupted,
            PublicError::CredentialStoreUnavailable => AgentIpcError::CredentialStoreUnavailable,
            PublicError::AgentStorageUnavailable => AgentIpcError::AgentStorageUnavailable,
            PublicError::ModelUnavailable => AgentIpcError::ModelUnavailable,
        }
    }
}

impl vstd::std_specs::convert::FromSpecImpl<PublicError> for AgentIpcError {
    open spec fn obeys_from_spec() -> bool {
        true
    }

    open spec fn from_spec(error: PublicError) -> AgentIpcError {
        ipc_error_for_public(error)
    }
}

impl From<SourceDraftError> for AgentIpcError {
    fn from(error: SourceDraftError) -> (r: Self) {
        match error {
            SourceDraftError::Unreadable => AgentIpcError::SourceUnreadable,
            SourceDraftError::Unsupported => AgentIpcError::SourceUnsupported,
            SourceDraftError::RandomUnavailable => AgentIpcError::SourceUnsupported,
            SourceDraftError::TooLarge => AgentIpcError::SourceTooLarge,
        }
    }
}

impl vstd::std_specs::convert::FromSpecImpl<SourceDraftError> for AgentIpcError {
    open spec fn obeys_from_spec() -> bool {
        true
    }

    open spec fn from_spec(error: SourceDraftError) -> AgentIpcError {
        ipc_error_for_source(error)
    }
}

/// Whether a send may proceed in the provider's connection state.
pub open spec fn connection_gate_spec(state: ConnectionState) -> Result<(), AgentIpcError> {
    match state {
        ConnectionState::Connected => Ok(()),
        ConnectionState::UnavailableInThisBuild => Err(AgentIpcError::ProviderUnavailable),
        ConnectionState::ReconnectRequired => Err(AgentIpcError::AuthenticationRequired),
        _ => Err(AgentIpcError::NotConnected),
    }
}

pub fn connection_gate(state: ConnectionState) -> (r: Result<(), AgentIpcError>)
    ensures
        r == connection_gate_spec(state),
{
    match state {
        ConnectionState::Connected => Ok(()),
        ConnectionState::UnavailableInThisBuild => Err(AgentIpcError::ProviderUnavailable),
        ConnectionState::ReconnectRequired => Err(AgentIpcError::AuthenticationRequired),
        _ => Err(AgentIpcError::NotConnected),
    }
}

/// The one Agent operation that may run at a time, and the cancellation
/// slot of the send in flight.
#[derive(Debug)]
pub struct AgentOperationGate {
    active: bool,
    cancellation: Option<(String, bool)>,
}

impl AgentOperationGate {
    /// Whether an operation is running.
    pub closed spec fn is_active(&self) -> bool {
        self.active
    }

    /// The turn of the send in flight, and whether it has been cancelled.
    pub closed spec fn cancellation_slot(&self) -> Option<(Seq<char>, bool)> {
        match self.cancellation {
            Some((turn, cancelled)) => Some((turn@, cancelled)),
            None => None,
        }
    }

    pub fn new() -> (gate: Self)
        ensures
            !gate.is_active(),
            gate.cancellation_slot() is None,
    {
        AgentOperationGate { active: false, cancellation: None }
    }

    /// Starts an operation, or reports the session busy while another one
    /// runs.
    pub fn try_operation(&mut self) -> (r: Result<(), PublicError>)
        ensures
            old(self).is_active() ==> r == Err::<(), PublicError>(PublicError::SessionBusy)
                && final(self).is_active(),
            !old(self).is_active() ==> r is Ok && final(self).is_active(),
            final(self).cancellation_slot() == old(self).cancellation_slot(),
    {
        if self.active {
            return Err(PublicError::SessionBusy);
        }
        self.active = true;
        Ok(())
    }

    /// Ends a non-send operation.
    pub fn end_operation(&mut self)
        ensures
            !final(self).is_active(),
            final(self).cancellation_slot() == old(self).cancellation_slot(),
    {
        self.active = false;
    }

    /// Ends a send; the send's cancellation slot goes with it.
    pub fn end_send_operation(&mut self)
        ensures
            !final(self).is_active(),
            final(self).cancellation_slot() is None,
    {
        self.cancellation = None;
        self.active = false;
    }

    /// Registers the turn that the send in flight streams into.
    pub fn begin_turn(&mut self, turn_id: String)
        ensures
            final(self).is_active() == old(self).is_active(),
            final(self).cancellation_slot() == Some((turn_id@, false)),
    {
        self.cancellation = Some((turn_id, false));
    }

    /// Cancels the turn in flight when `turn_id` names it.
    pub fn cancel_turn(&mut self, turn_id: &str) -> (r: Result<(), AgentIpcError>)
        ensures
            final(self).is_active() == old(self).is_active(),
            match old(self).cancellation_slot() {
                Some((active, _)) if active == turn_id@ => r is Ok
                    && final(self).cancellation_slot() == Some((active, true)),
                _ => r == Err::<(), AgentIpcError>(AgentIpcError::InvalidInput)
                    && final(self).cancellation_slot() == old(self).cancellation_slot(),
            },
    {
        let matches = match &self.cancellation {
            Some((active, _)) => crate::text::string_eq_str(active, turn_id),
            None => false,
        };
        if !matches {
            return Err(AgentIpcError::InvalidInput);
        }
        if let Some((active, _)) = self.cancellation.take() {
            self.cancellation = Some((active, true));
        }
        Ok(())
    }

    /// Whether the turn in flight has been cancelled.
    pub fn is_cancelled(&self) -> (r: bool)
        ensures
            r == (self.cancellation_slot() matches Some((_, true))),
    {
        match &self.cancellation {
            Some((_, cancelled)) => *cancelled,
            None => false,
        }
    }
}

/// The terminal metadata that a stream's `Completed` events leave behind.
#[derive(Debug)]
pub struct TerminalMeta {
    pub completed: bool,
    pub response_id: Option<String>,
    pub input_tokens: Option<u64>,
    pub output_tokens: Option<u64>,
}

impl TerminalMeta {
    pub fn new() -> (m: Self)
        ensures
            !m.completed,
            m.response_id is None,
            m.input_tokens is None,
            m.output_tokens is None,
    {
        TerminalMeta { completed: false, response_id: None, input_tokens: None, output_tokens: None }
    }

    /// Records a stream event: a `Completed` marks the stream complete and
    /// overwrites each piece of metadata that it carries; a delta changes
    /// nothing.
    pub fn record(&mut self, event: ProviderEvent)
        ensures
            match event@ {
                ProviderEventModel::Delta(_) => {
                    &&& final(self).completed == old(self).completed
                    &&& crate::source_draft::option_text(final(self).response_id)
                        == crate::source_draft::option_text(old(self).response_id)
                    &&& final(self).input_tokens == old(self).input_tokens
                    &&& final(self).output_tokens == old(self).output_tokens
                },
                ProviderEventModel::Completed { response_id, input_tokens, output_tokens } => {
                    &&& final(self).completed
                    &&& crate::source_draft::option_text(final(self).response_id) == (
                    if response_id is Some {
                        response_id
                    } else {
                        crate::source_draft::option_text(old(self).response_id)
                    })
                    &&& final(self).input_tokens == (if input_tokens is Some {
                        input_tokens
                    } else {
                        old(self).input_tokens
                    })
                    &&& final(self).output_tokens == (if output_tokens is Some {
                        output_tokens
                    } else {
                        old(self).output_tokens
                    })
                },
            },
    {
        if let ProviderEvent::Completed { response_id, input_tokens, output_tokens } = event {
            self.completed = true;
            if response_id.is_some() {
                self.response_id = response_id;
            }
            if input_tokens.is_some() {
                self.input_tokens = input_tokens;
            }
            if output_tokens.is_some() {
                self.output_tokens = output_tokens;
            }
        }
    }
}

/// How a finished stream settles its turn.
#[derive(Debug, Clone, Copy, PartialEq, Eq, Structural)]
pub enum FinalizeAction {
    /// The turn was already made terminal while streaming.
    KeepTerminal,
    Cancel,
    Complete,
    Fail(PublicError),
}

/// A turn already made terminal stays so; otherwise a cancelled send is
/// cancelled, a completed stream completes, a stream that ended without its
/// terminal fails as provider-unavailable, and a failed stream fails with
/// its error, a cancellation error cancelling.
pub open spec fn finalize_action_spec(
    result: Result<(), PublicError>,
    completed: bool,
    cancelled: bool,
    already_terminal: bool,
) -> FinalizeAction {
    if already_terminal {
        FinalizeAction::KeepTerminal
    } else {
        match result {
            Ok(()) => if cancelled {
                FinalizeAction::Cancel
            } else if completed {
                FinalizeAction::Complete
            } else {
                FinalizeAction::Fail(PublicError::ProviderUnavailable)
            },
            Err(PublicError::Cancelled) => FinalizeAction::Cancel,
            Err(e) => FinalizeAction::Fail(e),
        }
    }
}

pub fn finalize_action(
    result: Result<(), PublicError>,
    completed: bool,
    cancelled: bool,
    already_terminal: bool,
) -> (a: FinalizeAction)
    ensures
        a == finalize_action_spec(result, completed, cancelled, already_terminal),
{
    if already_terminal {
        return FinalizeAction::KeepTerminal;
    }
    match result {
        Ok(()) => if cancelled {
            FinalizeAction::Cancel
        } else if completed {
            FinalizeAction::Complete
        } else {
            FinalizeAction::Fail(PublicError::ProviderUnavailable)
        },
        Err(PublicError::Cancelled) => FinalizeAction::Cancel,
        Err(e) => FinalizeAction::Fail(e),
    }
}

/// How long a finished turn took; the subtraction saturates at the `i64`
/// bounds.
pub fn turn_duration_ms(started_at_unix_ms: i64, finished_at_unix_ms: Option<i64>) -> (r: Option<
    i64,
>)
    ensures
        match finished_at_unix_ms {
            Some(finished) => r == Some(
                if finished - started_at_unix_ms > i64::MAX {
                    i64::MAX
                } else if finished - started_at_unix_ms < i64::MIN {
                    i64::MIN
                } else {
                    (finished - started_at_unix_ms) as i64
                },
            ),
            None => r is None,
        },
{
    match finished_at_unix_ms {
        Some(finished) => {
            let difference = (finished as i128) - (started_at_unix_ms as i128);
            Some(
                if difference > i64::MAX as i128 {
                    i64::MAX
                } else if difference < i64::MIN as i128 {
                    i64::MIN
                } else {
                    difference as i64
                },
            )
        },
        None => None,
    }
}

/// Reasoning effort levels.
#[derive(Debug, Clone, Copy, PartialEq, Eq, Structural)]
pub enum ReasoningEffort {
    Low,
    Medium,
    High,
}

impl ReasoningEffort {
    pub open spec fn text(self) -> Seq<char> {
        match self {
            ReasoningEffort::Low => "low"@,
            ReasoningEffort::Medium => "medium"@,
            ReasoningEffort::High => "high"@,
        }
    }

    pub fn as_str(self) -> (s: &'static str)
        ensures
            s@ == self.text(),
    {
        match self {
            ReasoningEffort::Low => "low",
            ReasoningEffort::Medium => "medium",
            ReasoningEffort::High => "high",
        }
    }
}

/// The request controls a model offers.
#[derive(Debug)]
pub struct ModelRequestControlsResponse {
    pub model_id: String,
    pub effort_available: bool,
    pub effort_values: Vec<&'static str>,
    pub effort_default: Option<&'static str>,
    pub speed_available: bool,
}

/// The request controls of a model, given the effort capability the
/// provider reports for it: an effort-capable model offers the three levels
/// with its default, any other model none; speed is never offered.
pub fn model_request_controls_response(
    model_id: &str,
    effort_capability_default: Option<ReasoningEffort>,
) -> (r: ModelRequestControlsResponse)
    ensures
        r.model_id@ == model_id@,
        !r.speed_available,
        match effort_capability_default {
            Some(default) => {
                &&& r.effort_available
                &&& r.effort_values@.len() == 3
                &&& r.effort_values@[0]@ == "low"@
                &&& r.effort_values@[1]@ == "medium"@
                &&& r.effort_values@[2]@ == "high"@
                &&& r.effort_default matches Some(d) && d@ == default.text()
            },
            None => !r.effort_available && r.effort_values@.len() == 0 && r.effort_default is None,
        },
{
    match effort_capability_default {
        Some(default) => ModelRequestControlsResponse {
            model_id: model_id.to_owned(),
            effort_available: true,
            effort_values: vec!["low", "medium", "high"],
            effort_default: Some(default.as_str()),
            speed_available: false,
        },
        None => ModelRequestControlsResponse {
            model_id: model_id.to_owned(),
            effort_available: false,
            effort_values: Vec::new(),
            effort_default: None,
            speed_available: false,
        },
    }
}

/// The draft a send attaches: it must still be stored and bound to the
/// send's target scope, else the draft has expired.
pub fn resolve_draft_for_send(
    drafts: &SourceDraftStore,
    handle: &str,
    session_id: Option<String>,
) -> (r: Result<SourceDraft, AgentIpcError>)
    ensures
        match r {
            Ok(d) => drafts.draft(handle@) == Some(d@) && (match session_id {
                Some(id) => d@.scope == crate::source_draft::ScopeModel::Session(id@),
                None => d@.scope == drafts.scope() && drafts.scope() is NewSession,
            }),
            Err(e) => e == AgentIpcError::SourceDraftExpired,
        },
{
    let target = match drafts.send_target_for_session(session_id) {
        Some(target) => target,
        None => return Err(AgentIpcError::SourceDraftExpired),
    };
    match drafts.resolve_for_send(handle, &target) {
        Some(draft) => Ok(draft),
        None => Err(AgentIpcError::SourceDraftExpired),
    }
}

/// Label of the main application window.
pub const MAIN_WINDOW_LABEL: &'static str = "main";

/// Agent commands are honoured only from the main window, given the label
/// of the webview that issued them.
pub fn require_main_window(webview_label: &str) -> (r: Result<(), AgentIpcError>)
    ensures
        r == if webview_label@ == MAIN_WINDOW_LABEL@ {
            Ok::<(), AgentIpcError>(())
        } else {
            Err(AgentIpcError::InvalidInput)
        },
{
    if !crate::text::string_eq_str(&webview_label.to_owned(), MAIN_WINDOW_LABEL) {
        return Err(AgentIpcError::InvalidInput);
    }
    Ok(())
}

/// What a send asks for, as far as the send's decisions depend on it.
#[derive(Debug, Clone, PartialEq, Eq)]
pub struct SendRequest {
    /// The send continues an existing session.
    pub existing_session: bool,
    /// The send names a project.
    pub project: bool,
    /// The model the client asked for (ignored for an existing session).
    pub requested_model: Option<String>,
    /// The send carries a Source draft handle.
    pub draft: bool,
    /// A subscription adapter is present, whose access is refreshed before
    /// streaming.
    pub adapter: bool,
}

/// Where a send stands: each state waits for the answer to one action.
#[derive(Debug, PartialEq, Eq)]
pub enum SendState {
    Opening(SendRequest),
    CheckingProject(SendRequest),
    CheckingConnection(SendRequest),
    FindingSession(SendRequest),
    ValidatingModel(SendRequest),
    ResolvingEffort(SendRequest),
    ResolvingDraft(SendRequest),
    Preparing(SendRequest),
    Assembling(SendRequest),
    Announcing(SendRequest),
    /// The prepared turn is being failed before any stream; the send then
    /// ends with `error`, or with a storage error when `strict` and the
    /// failure could not be recorded.
    Abandoning { error: AgentIpcError, strict: bool },
    Refreshing,
    CheckingCancellation,
    Streaming,
    /// The turn's terminal state is being recorded.
    Terminating,
    SendingTerminal,
    Done(Result<(), AgentIpcError>),
}

/// The outcome of the pre-stream access refresh.
#[derive(Debug, Clone, Copy, PartialEq, Eq)]
pub enum RefreshOutcome {
    Ready,
    Cancelled,
    Failed(PublicError),
}

/// The answer to the action a send waits on.
#[derive(Debug, PartialEq, Eq)]
pub enum SendEvent {
    /// The command was received: whether from the main window, whether the
    /// send operation was free, and whether the given identifiers parse.
    Opened { main_window: bool, operation_free: bool, ids_valid: bool },
    /// The named project: found, missing, or unreadable storage.
    ProjectFound(Result<bool, ()>),
    ConnectionRead(ConnectionState),
    /// The existing session's frozen model: found, missing, or unreadable.
    SessionFound(Result<Option<String>, ()>),
    /// The requested model checked against the last validated catalog.
    ModelValidated(Result<String, PublicError>),
    EffortResolved(Result<(), PublicError>),
    /// The draft resolved for the send target and turned into a Source.
    DraftResolved(Result<(), AgentIpcError>),
    /// The turn prepared in storage.
    Prepared(Result<(), AgentIpcError>),
    /// The provider request assembled, or the context-limit or invalid-input
    /// failure.
    Assembled(Result<(), PublicError>),
    /// Whether the started event reached the client.
    Announced(bool),
    Refreshed(RefreshOutcome),
    CancellationChecked(bool),
    /// The provider stream ended: its result, whether its terminal event
    /// arrived, whether the send was cancelled and whether the turn was
    /// already made terminal while streaming.
    Streamed { result: Result<(), PublicError>, completed: bool, cancelled: bool, already_terminal: bool },
    /// Whether the turn's terminal state was recorded.
    TurnRecorded(bool),
    /// Whether the terminal turn reached the client.
    TerminalSent(Result<(), AgentIpcError>),
}

/// What the host does next for a send.
#[derive(Debug, PartialEq, Eq)]
pub enum SendAction {
    LookUpProject,
    ReadConnection,
    FindSession,
    ValidateModel(String),
    ResolveEffort(String),
    ResolveDraft,
    PrepareTurn,
    AssembleRequest,
    /// Clear the draft handle, adopt the session as the composer scope,
    /// register the cancellation slot and tell the client the turn started.
    AnnounceStarted,
    RefreshAccess,
    CheckCancellation,
    StartStream,
    FailTurn(PublicError),
    CancelTurn,
    /// Settle the streamed turn and, once it is settled, recover the model
    /// catalog when the provider rejected the model.
    FinalizeTurn { action: FinalizeAction, recover_rejected_model: bool },
    SendTerminal,
    Finish(Result<(), AgentIpcError>),
}

/// Whether `event` answers the action that `state` waits on.
pub open spec fn answers(state: SendState, event: SendEvent) -> bool {
    match state {
        SendState::Opening(_) => event is Opened,
        SendState::CheckingProject(_) => event is ProjectFound,
        SendState::CheckingConnection(_) => event is ConnectionRead,
        SendState::FindingSession(_) => event is SessionFound,
        SendState::ValidatingModel(_) => event is ModelValidated,
        SendState::ResolvingEffort(_) => event is EffortResolved,
        SendState::ResolvingDraft(_) => event is DraftResolved,
        SendState::Preparing(_) => event is Prepared,
        SendState::Assembling(_) => event is Assembled,
        SendState::Announcing(_) => event is Announced,
        SendState::Abandoning { .. } => event is TurnRecorded,
        SendState::Refreshing => event is Refreshed,
        SendState::CheckingCancellation => event is CancellationChecked,
        SendState::Streaming => event is Streamed,
        SendState::Terminating => event is TurnRecorded,
        SendState::SendingTerminal => event is TerminalSent,
        SendState::Done(_) => true,
    }
}

/// Whether `event` answers the action that `state` waits on; a host tests
/// this before it hands the event to [`send_step`].
pub fn event_answers(state: &SendState, event: &SendEvent) -> (r: bool)
    ensures
        r == answers(*state, *event),
{
    match state {
        SendState::Opening(_) => matches!(event, SendEvent::Opened { .. }),
        SendState::CheckingProject(_) => matches!(event, SendEvent::ProjectFound(_)),
        SendState::CheckingConnection(_) => matches!(event, SendEvent::ConnectionRead(_)),
        SendState::FindingSession(_) => matches!(event, SendEvent::SessionFound(_)),
        SendState::ValidatingModel(_) => matches!(event, SendEvent::ModelValidated(_)),
        SendState::ResolvingEffort(_) => matches!(event, SendEvent::EffortResolved(_)),
        SendState::ResolvingDraft(_) => matches!(event, SendEvent::DraftResolved(_)),
        SendState::Preparing(_) => matches!(event, SendEvent::Prepared(_)),
        SendState::Assembling(_) => matches!(event, SendEvent::Assembled(_)),
        SendState::Announcing(_) => matches!(event, SendEvent::Announced(_)),
        SendState::Abandoning { .. } => matches!(event, SendEvent::TurnRecorded(_)),
        SendState::Refreshing => matches!(event, SendEvent::Refreshed(_)),
        SendState::CheckingCancellation => matches!(event, SendEvent::CancellationChecked(_)),
        SendState::Streaming => matches!(event, SendEvent::Streamed { .. }),
        SendState::Terminating => matches!(event, SendEvent::TurnRecorded(_)),
        SendState::SendingTerminal => matches!(event, SendEvent::TerminalSent(_)),
        SendState::Done(_) => true,
    }
}

pub open spec fn finish(r: Result<(), AgentIpcError>) -> (SendState, SendAction) {
    (SendState::Done(r), SendAction::Finish(r))
}

pub open spec fn fail(e: AgentIpcError) -> (SendState, SendAction) {
    finish(Err(e))
}

/// After the connection gate: an existing session reads its frozen model; a
/// new session must name a model, which is checked against the catalog.
pub open spec fn after_connection(req: SendRequest) -> (SendState, SendAction) {
    if req.existing_session {
        (SendState::FindingSession(req), SendAction::FindSession)
    } else {
        match req.requested_model {
            None => fail(AgentIpcError::ModelUnavailable),
            Some(m) => (SendState::ValidatingModel(req), SendAction::ValidateModel(m)),
        }
    }
}

pub open spec fn after_effort(req: SendRequest) -> (SendState, SendAction) {
    if req.draft {
        (SendState::ResolvingDraft(req), SendAction::ResolveDraft)
    } else {
        (SendState::Preparing(req), SendAction::PrepareTurn)
    }
}

/// One decision of a send: from the state and the answer to its pending
/// action, the next state and action.
pub open spec fn send_step_spec(state: SendState, event: SendEvent) -> (SendState, SendAction) {
    match state {
        SendState::Done(r) => finish(r),
        SendState::Opening(req) => match event {
            SendEvent::Opened { main_window, operation_free, ids_valid } => if !main_window {
                fail(AgentIpcError::InvalidInput)
            } else if !operation_free {
                fail(AgentIpcError::SessionBusy)
            } else if !ids_valid {
                fail(AgentIpcError::InvalidInput)
            } else if req.project {
                (SendState::CheckingProject(req), SendAction::LookUpProject)
            } else {
                (SendState::CheckingConnection(req), SendAction::ReadConnection)
            },
            _ => finish(Ok(())),
        },
        SendState::CheckingProject(req) => match event {
            SendEvent::ProjectFound(Err(())) => fail(AgentIpcError::AgentStorageUnavailable),
            SendEvent::ProjectFound(Ok(false)) => fail(AgentIpcError::InvalidInput),
            SendEvent::ProjectFound(Ok(true)) => (
                SendState::CheckingConnection(req),
                SendAction::ReadConnection,
            ),
            _ => finish(Ok(())),
        },
        SendState::CheckingConnection(req) => match event {
            SendEvent::ConnectionRead(c) => match connection_gate_spec(c) {
                Err(e) => fail(e),
                Ok(()) => after_connection(req),
            },
            _ => finish(Ok(())),
        },
        SendState::FindingSession(req) => match event {
            SendEvent::SessionFound(Err(())) => fail(AgentIpcError::AgentStorageUnavailable),
            SendEvent::SessionFound(Ok(None)) => fail(AgentIpcError::InvalidInput),
            SendEvent::SessionFound(Ok(Some(model))) => (
                SendState::ResolvingEffort(req),
                SendAction::ResolveEffort(model),
            ),
            _ => finish(Ok(())),
        },
        SendState::ValidatingModel(req) => match event {
            SendEvent::ModelValidated(Err(e)) => fail(ipc_error_for_public(e)),
            SendEvent::ModelValidated(Ok(model)) => (
                SendState::ResolvingEffort(req),
                SendAction::ResolveEffort(model),
            ),
            _ => finish(Ok(())),
        },
        SendState::ResolvingEffort(req) => match event {
            SendEvent::EffortResolved(Err(e)) => fail(ipc_error_for_public(e)),
            SendEvent::EffortResolved(Ok(())) => after_effort(req),
            _ => finish(Ok(())),
        },
        SendState::ResolvingDraft(req) => match event {
            SendEvent::DraftResolved(Err(e)) => fail(e),
            SendEvent::DraftResolved(Ok(())) => (SendState::Preparing(req), SendAction::PrepareTurn),
            _ => finish(Ok(())),
        },
        SendState::Preparing(req) => match event {
            SendEvent::Prepared(Err(e)) => fail(e),
            SendEvent::Prepared(Ok(())) => (SendState::Assembling(req), SendAction::AssembleRequest),
            _ => finish(Ok(())),
        },
        SendState::Assembling(req) => match event {
            SendEvent::Assembled(Err(e)) => (
                SendState::Abandoning { error: ipc_error_for_public(e), strict: false },
                SendAction::FailTurn(e),
            ),
            SendEvent::Assembled(Ok(())) => (SendState::Announcing(req), SendAction::AnnounceStarted),
            _ => finish(Ok(())),
        },
        SendState::Announcing(req) => match event {
            SendEvent::Announced(false) => (
                SendState::Abandoning { error: AgentIpcError::ProviderUnavailable, strict: true },
                SendAction::FailTurn(PublicError::ProviderUnavailable),
            ),
            SendEvent::Announced(true) => if req.adapter {
                (SendState::Refreshing, SendAction::RefreshAccess)
            } else {
                (SendState::CheckingCancellation, SendAction::CheckCancellation)
            },
            _ => finish(Ok(())),
        },
        SendState::Abandoning { error, strict } => match event {
            SendEvent::TurnRecorded(recorded) => if recorded || !strict {
                fail(error)
            } else {
                fail(AgentIpcError::AgentStorageUnavailable)
            },
            _ => finish(Ok(())),
        },
        SendState::Refreshing => match event {
            SendEvent::Refreshed(RefreshOutcome::Ready) => (
                SendState::CheckingCancellation,
                SendAction::CheckCancellation,
            ),
            SendEvent::Refreshed(RefreshOutcome::Cancelled) => (
                SendState::Terminating,
                SendAction::CancelTurn,
            ),
            SendEvent::Refreshed(RefreshOutcome::Failed(e)) => (
                SendState::Terminating,
                SendAction::FailTurn(e),
            ),
            _ => finish(Ok(())),
        },
        SendState::CheckingCancellation => match event {
            SendEvent::CancellationChecked(true) => (SendState::Terminating, SendAction::CancelTurn),
            SendEvent::CancellationChecked(false) => (SendState::Streaming, SendAction::StartStream),
            _ => finish(Ok(())),
        },
        SendState::Streaming => match event {
            SendEvent::Streamed { result, completed, cancelled, already_terminal } => (
                SendState::Terminating,
                SendAction::FinalizeTurn {
                    action: finalize_action_spec(result, completed, cancelled, already_terminal),
                    recover_rejected_model: result == Err::<(), PublicError>(
                        PublicError::ModelUnavailable,
                    ),
                },
            ),
            _ => finish(Ok(())),
        },
        SendState::Terminating => match event {
            SendEvent::TurnRecorded(true) => (SendState::SendingTerminal, SendAction::SendTerminal),
            SendEvent::TurnRecorded(false) => fail(AgentIpcError::AgentStorageUnavailable),
            _ => finish(Ok(())),
        },
        SendState::SendingTerminal => match event {
            SendEvent::TerminalSent(r) => finish(r),
            _ => finish(Ok(())),
        },
    }
}

fn ipc_error(e: PublicError) -> (r: AgentIpcError)
    ensures
        r == ipc_error_for_public(e),
{
    AgentIpcError::from(e)
}

fn finish_with(r: Result<(), AgentIpcError>) -> (out: (SendState, SendAction))
    ensures
        out == finish(r),
{
    (SendState::Done(r), SendAction::Finish(r))
}

/// One decision of a send (see [`send_step_spec`]): the host performs the
/// returned action and answers it with the next event.
pub fn send_step(state: SendState, event: SendEvent) -> (r: (SendState, SendAction))
    requires
        answers(state, event),
    ensures
        r == send_step_spec(state, event),
{
    match state {
        SendState::Done(r) => finish_with(r),
        SendState::Opening(req) => match event {
            SendEvent::Opened { main_window, operation_free, ids_valid } => if !main_window {
                finish_with(Err(AgentIpcError::InvalidInput))
            } else if !operation_free {
                finish_with(Err(AgentIpcError::SessionBusy))
            } else if !ids_valid {
                finish_with(Err(AgentIpcError::InvalidInput))
            } else if req.project {
                (SendState::CheckingProject(req), SendAction::LookUpProject)
            } else {
                (SendState::CheckingConnection(req), SendAction::ReadConnection)
            },
            _ => finish_with(Ok(())),
        },
        SendState::CheckingProject(req) => match event {
            SendEvent::ProjectFound(Err(())) => finish_with(Err(AgentIpcError::AgentStorageUnavailable)),
            SendEvent::ProjectFound(Ok(false)) => finish_with(Err(AgentIpcError::InvalidInput)),
            SendEvent::ProjectFound(Ok(true)) => (
                SendState::CheckingConnection(req),
                SendAction::ReadConnection,
            ),
            _ => finish_with(Ok(())),
        },
        SendState::CheckingConnection(req) => match event {
            SendEvent::ConnectionRead(c) => match connection_gate(c) {
                Err(e) => finish_with(Err(e)),
                Ok(()) => if req.existing_session {
                    (SendState::FindingSession(req), SendAction::FindSession)
                } else {
                    match req.requested_model.clone() {
                        None => finish_with(Err(AgentIpcError::ModelUnavailable)),
                        Some(m) => {
                            proof {
                                assert(req.requested_model == Some(m));
                            }
                            (SendState::ValidatingModel(req), SendAction::ValidateModel(m))
                        },
                    }
                },
            },
            _ => finish_with(Ok(())),
        },
        SendState::FindingSession(req) => match event {
            SendEvent::SessionFound(Err(())) => finish_with(Err(AgentIpcError::AgentStorageUnavailable)),
            SendEvent::SessionFound(Ok(None)) => finish_with(Err(AgentIpcError::InvalidInput)),
            SendEvent::SessionFound(Ok(Some(model))) => (
                SendState::ResolvingEffort(req),
                SendAction::ResolveEffort(model),
            ),
            _ => finish_with(Ok(())),
        },
        SendState::ValidatingModel(req) => match event {
            SendEvent::ModelValidated(Err(e)) => finish_with(Err(ipc_error(e))),
            SendEvent::ModelValidated(Ok(model)) => (
                SendState::ResolvingEffort(req),
                SendAction::ResolveEffort(model),
            ),
            _ => finish_with(Ok(())),
        },
        SendState::ResolvingEffort(req) => match event {
            SendEvent::EffortResolved(Err(e)) => finish_with(Err(ipc_error(e))),
            SendEvent::EffortResolved(Ok(())) => if req.draft {
                (SendState::ResolvingDraft(req), SendAction::ResolveDraft)
            } else {
                (SendState::Preparing(req), SendAction::PrepareTurn)
            },
            _ => finish_with(Ok(())),
        },
        SendState::ResolvingDraft(req) => match event {
            SendEvent::DraftResolved(Err(e)) => finish_with(Err(e)),
            SendEvent::DraftResolved(Ok(())) => (SendState::Preparing(req), SendAction::PrepareTurn),
            _ => finish_with(Ok(())),
        },
        SendState::Preparing(req) => match event {
            SendEvent::Prepared(Err(e)) => finish_with(Err(e)),
            SendEvent::Prepared(Ok(())) => (SendState::Assembling(req), SendAction::AssembleRequest),
            _ => finish_with(Ok(())),
        },
        SendState::Assembling(req) => match event {
            SendEvent::Assembled(Err(e)) => (
                SendState::Abandoning { error: ipc_error(e), strict: false },
                SendAction::FailTurn(e),
            ),
            SendEvent::Assembled(Ok(())) => (SendState::Announcing(req), SendAction::AnnounceStarted),
            _ => finish_with(Ok(())),
        },
        SendState::Announcing(req) => match event {
            SendEvent::Announced(false) => (
                SendState::Abandoning { error: AgentIpcError::ProviderUnavailable, strict: true },
                SendAction::FailTurn(PublicError::ProviderUnavailable),
            ),
            SendEvent::Announced(true) => if req.adapter {
                (SendState::Refreshing, SendAction::RefreshAccess)
            } else {
                (SendState::CheckingCancellation, SendAction::CheckCancellation)
            },
            _ => finish_with(Ok(())),
        },
        SendState::Abandoning { error, strict } => match event {
            SendEvent::TurnRecorded(recorded) => if recorded || !strict {
                finish_with(Err(error))
            } else {
                finish_with(Err(AgentIpcError::AgentStorageUnavailable))
            },
            _ => finish_with(Ok(())),
        },
        SendState::Refreshing => match event {
            SendEvent::Refreshed(RefreshOutcome::Ready) => (
                SendState::CheckingCancellation,
                SendAction::CheckCancellation,
            ),
            SendEvent::Refreshed(RefreshOutcome::Cancelled) => (
                SendState::Terminating,
                SendAction::CancelTurn,
            ),
            SendEvent::Refreshed(RefreshOutcome::Failed(e)) => (
                SendState::Terminating,
                SendAction::FailTurn(e),
            ),
            _ => finish_with(Ok(())),
        },
        SendState::CheckingCancellation => match event {
            SendEvent::CancellationChecked(true) => (SendState::Terminating, SendAction::CancelTurn),
            SendEvent::CancellationChecked(false) => (SendState::Streaming, SendAction::StartStream),
            _ => finish_with(Ok(())),
        },
        SendState::Streaming => match event {
            SendEvent::Streamed { result, completed, cancelled, already_terminal } => {
                let rejected = match result {
                    Err(PublicError::ModelUnavailable) => true,
                    _ => false,
                };
                (
                    SendState::Terminating,
                    SendAction::FinalizeTurn {
                        action: finalize_action(result, completed, cancelled, already_terminal),
                        recover_rejected_model: rejected,
                    },
                )
            },
            _ => finish_with(Ok(())),
        },
        SendState::Terminating => match event {
            SendEvent::TurnRecorded(true) => (SendState::SendingTerminal, SendAction::SendTerminal),
            SendEvent::TurnRecorded(false) => finish_with(Err(AgentIpcError::AgentStorageUnavailable)),
            _ => finish_with(Ok(())),
        },
        SendState::SendingTerminal => match event {
            SendEvent::TerminalSent(r) => finish_with(r),
            _ => finish_with(Ok(())),
        },
    }
}

/// Law: a stream is started only once every check before it passed: the
/// last step before it found the send not cancelled.
pub proof fn lemma_stream_starts_only_after_checks(state: SendState, event: SendEvent)
    requires
        answers(state, event),
    ensures
        send_step_spec(state, event).1 == SendAction::StartStream ==> state
            == SendState::CheckingCancellation && event == SendEvent::CancellationChecked(false),
        send_step_spec(state, event).1 == SendAction::AnnounceStarted ==> state is Assembling
            && event == SendEvent::Assembled(Ok(())),
{
    if let SendState::Assembling(_) = state {
        if let SendEvent::Assembled(Ok(u)) = event {
            assert(u == ());
        }
    }
}

/// Law: once a send is done it stays done with the same result.
pub proof fn lemma_done_is_final(r: Result<(), AgentIpcError>, event: SendEvent)
    ensures
        send_step_spec(SendState::Done(r), event) == finish(r),
{
}

/// Law: a send that names a project goes on to read the connection only
/// when the project was found; a missing project ends the send as invalid
/// input and a failed lookup as unavailable storage.
pub proof fn lemma_send_needs_its_project(req: SendRequest, found: Result<bool, ()>)
    ensures
        send_step_spec(SendState::CheckingProject(req), SendEvent::ProjectFound(found)).1
            == SendAction::ReadConnection <==> found == Ok::<bool, ()>(true),
        found == Ok::<bool, ()>(false) ==> send_step_spec(
            SendState::CheckingProject(req),
            SendEvent::ProjectFound(found),
        ) == (
            SendState::Done(Err(AgentIpcError::InvalidInput)),
            SendAction::Finish(Err(AgentIpcError::InvalidInput)),
        ),
        found == Err::<bool, ()>(()) ==> send_step_spec(
            SendState::CheckingProject(req),
            SendEvent::ProjectFound(found),
        ) == (
            SendState::Done(Err(AgentIpcError::AgentStorageUnavailable)),
            SendAction::Finish(Err(AgentIpcError::AgentStorageUnavailable)),
        ),
{
}

} // verus!
