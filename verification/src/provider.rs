//! Provider-neutral contracts: public error codes, connection status and the
//! decisions that turn persisted model-selection state into responses.

use vstd::prelude::*;

use crate::text::{owned_string, string_eq_str};

verus! {

pub const PROVIDER_MODEL_CATALOG_CHANGED_EVENT: &'static str = "provider-model-catalog-changed";

pub const PROVIDER_MODEL_SELECTION_CHANGED_EVENT: &'static str = "provider-model-selection-changed";

/// Built-in xAI subscription OAuth provider-profile identifier.
pub const PROVIDER_PROFILE_ID: &'static str = "xai-subscription-oauth";

/// Upgrade-compatible default model identifier when still present in the catalog.
pub const MODEL_ID: &'static str = "grok-3";

/// Stored selected-default marker that forces an explicit new choice without
/// falling back to the built-in catalog default.
pub const REQUIRES_EXPLICIT_CHOICE: &'static str = "__requires_choice__";

/// Every error which may cross the native IPC boundary.
#[derive(Debug, Clone, Copy, PartialEq, Eq, Structural)]
pub enum PublicError {
    NotConnected,
    InvalidInput,
    ContextLimit,
    SessionBusy,
    AuthenticationRequired,
    EntitlementUnavailable,
    RateLimited,
    ProviderUnavailable,
    UnsupportedProviderOutput,
    OutputLimit,
    Cancelled,
    Interrupted,
    CredentialStoreUnavailable,
    AgentStorageUnavailable,
    ModelUnavailable,
}

#[derive(Debug, Clone, Copy, PartialEq, Eq, Structural)]
pub enum ConnectionState {
    Disconnected,
    Connecting,
    Connected,
    ReconnectRequired,
    UnavailableInThisBuild,
}

#[derive(Debug, Clone, Copy, PartialEq, Eq)]
pub struct ConnectionStatus {
    pub state: ConnectionState,
    pub provider_id: &'static str,
    pub model: &'static str,
}

/// One ordered event of a provider stream.
#[derive(Debug, Clone, PartialEq, Eq)]
pub enum ProviderEvent {
    Delta(String),
    Completed { response_id: Option<String>, input_tokens: Option<u64>, output_tokens: Option<u64> },
}

/// The content of a provider event, as contracts speak of it.
pub enum ProviderEventModel {
    Delta(Seq<char>),
    Completed {
        response_id: Option<Seq<char>>,
        input_tokens: Option<u64>,
        output_tokens: Option<u64>,
    },
}

impl View for ProviderEvent {
    type V = ProviderEventModel;

    open spec fn view(&self) -> ProviderEventModel {
        match self {
            ProviderEvent::Delta(text) => ProviderEventModel::Delta(text@),
            ProviderEvent::Completed { response_id, input_tokens, output_tokens } => {
                ProviderEventModel::Completed {
                    response_id: match response_id {
                        Some(id) => Some(id@),
                        None => None,
                    },
                    input_tokens: *input_tokens,
                    output_tokens: *output_tokens,
                }
            },
        }
    }
}

pub open spec fn events_view(events: Seq<ProviderEvent>) -> Seq<ProviderEventModel> {
    Seq::new(events.len(), |i: int| events[i]@)
}

impl ProviderEvent {
    /// A copy of the event.
    pub fn duplicate(&self) -> (r: ProviderEvent)
        ensures
            r@ == self@,
    {
        match self {
            ProviderEvent::Delta(text) => ProviderEvent::Delta(text.clone()),
            ProviderEvent::Completed { response_id, input_tokens, output_tokens } => {
                ProviderEvent::Completed {
                    response_id: match response_id {
                        Some(id) => Some(id.clone()),
                        None => None,
                    },
                    input_tokens: *input_tokens,
                    output_tokens: *output_tokens,
                }
            },
        }
    }
}

/// A provider that reports a fixed status and replays a fixed stream
/// outcome.
pub struct FakeProvider {
    status: ConnectionStatus,
    result: Result<Vec<ProviderEvent>, PublicError>,
}

impl FakeProvider {
    pub fn new(status: ConnectionStatus, result: Result<Vec<ProviderEvent>, PublicError>) -> (p:
        Self)
        ensures
            p.status() == status,
            p.outcome() == match result {
                Ok(events) => Ok::<Seq<ProviderEventModel>, PublicError>(events_view(events@)),
                Err(e) => Err(e),
            },
    {
        FakeProvider { status, result }
    }

    pub closed spec fn status(&self) -> ConnectionStatus {
        self.status
    }

    /// The events the provider replays, or the error it fails with.
    pub closed spec fn outcome(&self) -> Result<Seq<ProviderEventModel>, PublicError> {
        match self.result {
            Ok(events) => Ok(events_view(events@)),
            Err(e) => Err(e),
        }
    }

    pub fn connection_status(&self) -> (s: ConnectionStatus)
        ensures
            s == self.status(),
    {
        self.status
    }

    /// Replays the stream into `sink`, checking for cancellation before the
    /// stream and before each event.
    pub fn stream<K: Fn() -> bool>(&self, is_cancelled: K, sink: &mut Vec<ProviderEvent>) -> (r:
        Result<Vec<ProviderEvent>, PublicError>)
        requires
            call_requires(is_cancelled, ()),
            forall|b: bool| call_ensures(is_cancelled, (), b) ==> call_requires(is_cancelled, ()),
        ensures
            match r {
                Ok(v) => v@.len() == 0 && (self.outcome() matches Ok(events) && events_view(
                    final(sink)@,
                ) == events_view(old(sink)@) + events),
                Err(e) => (e == PublicError::Cancelled || self.outcome() == Err::<
                    Seq<ProviderEventModel>,
                    PublicError,
                >(e)) && events_view(old(sink)@).is_prefix_of(events_view(final(sink)@)),
            },
    {
        if is_cancelled() {
            return Err(PublicError::Cancelled);
        }
        let events = match &self.result {
            Ok(events) => events,
            Err(e) => return Err(*e),
        };
        let mut i: usize = 0;
        while i < events.len()
            invariant
                i <= events@.len(),
                self.result == Ok::<Vec<ProviderEvent>, PublicError>(*events),
                events_view(sink@) == events_view(old(sink)@) + events_view(events@.take(i as int)),
                forall|b: bool| call_ensures(is_cancelled, (), b) ==> call_requires(is_cancelled, ()),
                call_requires(is_cancelled, ()),
            decreases events@.len() - i,
        {
            if is_cancelled() {
                assert(events_view(old(sink)@).is_prefix_of(events_view(sink@))) by {
                    assert(events_view(sink@).take(events_view(old(sink)@).len() as int)
                        =~= events_view(old(sink)@));
                }
                return Err(PublicError::Cancelled);
            }
            let ghost before = events_view(sink@);
            sink.push(events[i].duplicate());
            assert(events_view(sink@) =~= before.push(events@[i as int]@));
            assert(events_view(events@.take(i + 1)) =~= events_view(events@.take(i as int)).push(
                events@[i as int]@,
            ));
            i = i + 1;
        }
        assert(events@.take(events@.len() as int) =~= events@);
        Ok(Vec::new())
    }
}

/// The snake-case wire code of each public error.
pub open spec fn public_error_code_spec(error: PublicError) -> Seq<char> {
    match error {
        PublicError::NotConnected => "not_connected"@,
        PublicError::InvalidInput => "invalid_input"@,
        PublicError::ContextLimit => "context_limit"@,
        PublicError::SessionBusy => "session_busy"@,
        PublicError::AuthenticationRequired => "authentication_required"@,
        PublicError::EntitlementUnavailable => "entitlement_unavailable"@,
        PublicError::RateLimited => "rate_limited"@,
        PublicError::ProviderUnavailable => "provider_unavailable"@,
        PublicError::UnsupportedProviderOutput => "unsupported_provider_output"@,
        PublicError::OutputLimit => "output_limit"@,
        PublicError::Cancelled => "cancelled"@,
        PublicError::Interrupted => "interrupted"@,
        PublicError::CredentialStoreUnavailable => "credential_store_unavailable"@,
        PublicError::AgentStorageUnavailable => "agent_storage_unavailable"@,
        PublicError::ModelUnavailable => "model_unavailable"@,
    }
}

/// Law: distinct public errors have distinct codes, so a persisted code
/// names exactly one error.
pub proof fn lemma_public_error_code_injective(a: PublicError, b: PublicError)
    ensures
        public_error_code_spec(a) == public_error_code_spec(b) ==> a == b,
{
    reveal_strlit("not_connected");
    reveal_strlit("invalid_input");
    reveal_strlit("context_limit");
    reveal_strlit("session_busy");
    reveal_strlit("authentication_required");
    reveal_strlit("entitlement_unavailable");
    reveal_strlit("rate_limited");
    reveal_strlit("provider_unavailable");
    reveal_strlit("unsupported_provider_output");
    reveal_strlit("output_limit");
    reveal_strlit("cancelled");
    reveal_strlit("interrupted");
    reveal_strlit("credential_store_unavailable");
    reveal_strlit("agent_storage_unavailable");
    reveal_strlit("model_unavailable");
    if public_error_code_spec(a) == public_error_code_spec(b) && a != b {
        let x = public_error_code_spec(a);
        let y = public_error_code_spec(b);
        assert(x.len() == y.len());
        assert(x[0] == y[0]);
        assert(x[x.len() - 1] == y[y.len() - 1]);
        assert(x[1] == y[1]);
        assert(x[2] == y[2]);
    }
}

/// Returns the persisted failure code of a public error.
pub fn public_error_code(error: PublicError) -> (code: &'static str)
    ensures
        code@ == public_error_code_spec(error),
{
    match error {
        PublicError::NotConnected => "not_connected",
        PublicError::InvalidInput => "invalid_input",
        PublicError::ContextLimit => "context_limit",
        PublicError::SessionBusy => "session_busy",
        PublicError::AuthenticationRequired => "authentication_required",
        PublicError::EntitlementUnavailable => "entitlement_unavailable",
        PublicError::RateLimited => "rate_limited",
        PublicError::ProviderUnavailable => "provider_unavailable",
        PublicError::UnsupportedProviderOutput => "unsupported_provider_output",
        PublicError::OutputLimit => "output_limit",
        PublicError::Cancelled => "cancelled",
        PublicError::Interrupted => "interrupted",
        PublicError::CredentialStoreUnavailable => "credential_store_unavailable",
        PublicError::AgentStorageUnavailable => "agent_storage_unavailable",
        PublicError::ModelUnavailable => "model_unavailable",
    }
}

/// Outcome of resolving a stored selected default against the catalog.
#[derive(Debug, Clone, PartialEq, Eq)]
pub enum SelectedDefaultResolution {
    Available(String),
    RequiresChoice,
}

#[derive(Debug, Clone, PartialEq, Eq)]
pub struct ProviderModelSelectionResponse {
    pub provider_id: String,
    pub selected_model_id: Option<String>,
    pub requires_selection: bool,
}

/// The selection response that the persisted selection state resolves to.
pub open spec fn selection_response_spec(
    sealed: bool,
    stored: Option<Seq<char>>,
    catalog_has_entries: bool,
    resolution: SelectedDefaultResolution,
) -> (Option<Seq<char>>, bool) {
    if sealed {
        (None, false)
    } else if stored == Some(REQUIRES_EXPLICIT_CHOICE@) {
        (None, catalog_has_entries)
    } else {
        match resolution {
            SelectedDefaultResolution::Available(model_id) => (Some(model_id@), false),
            SelectedDefaultResolution::RequiresChoice => (stored, catalog_has_entries || stored is Some),
        }
    }
}

/// Builds the selection response from the persisted state: whether catalog
/// reads are sealed, the stored selected default, whether the last validated
/// catalog has entries, and how the stored default resolves against it.
pub fn selection_response_from_state(
    sealed: bool,
    stored: Option<String>,
    catalog_has_entries: bool,
    resolution: SelectedDefaultResolution,
) -> (r: ProviderModelSelectionResponse)
    ensures
        r.provider_id@ == PROVIDER_PROFILE_ID@,
        (match r.selected_model_id {
            Some(id) => Some(id@),
            None => None::<Seq<char>>,
        }, r.requires_selection) == selection_response_spec(
            sealed,
            match stored {
                Some(s) => Some(s@),
                None => None::<Seq<char>>,
            },
            catalog_has_entries,
            resolution,
        ),
{
    let provider_id = owned_string(PROVIDER_PROFILE_ID);
    if sealed {
        return ProviderModelSelectionResponse {
            provider_id,
            selected_model_id: None,
            requires_selection: false,
        };
    }
    let marker = match &stored {
        Some(s) => string_eq_str(s, REQUIRES_EXPLICIT_CHOICE),
        None => false,
    };
    if marker {
        return ProviderModelSelectionResponse {
            provider_id,
            selected_model_id: None,
            requires_selection: catalog_has_entries,
        };
    }
    match resolution {
        SelectedDefaultResolution::Available(model_id) => ProviderModelSelectionResponse {
            provider_id,
            selected_model_id: Some(model_id),
            requires_selection: false,
        },
        SelectedDefaultResolution::RequiresChoice => {
            let requires_selection = catalog_has_entries || stored.is_some();
            ProviderModelSelectionResponse {
                provider_id,
                selected_model_id: stored,
                requires_selection,
            }
        },
    }
}

/// After a provider rejects `rejected`, the selected default is cleared when
/// either the resolved or the stored selection names it.
pub fn rejection_clears_selection(
    resolved: &Option<String>,
    stored: &Option<String>,
    rejected: &String,
) -> (r: bool)
    ensures
        r == ((resolved is Some && resolved->0@ == rejected@) || (stored is Some && stored->0@
            == rejected@)),
{
    let a = match resolved {
        Some(id) => *id == *rejected,
        None => false,
    };
    let b = match stored {
        Some(id) => *id == *rejected,
        None => false,
    };
    a || b
}

} // verus!
