//! Verified core of the TULE desktop host: provider contracts, credential
//! lifecycle, OAuth callback handling, provider stream framing, the
//! ephemeral Source draft store, and the decisions of sends, Harness runs and
//! brokered effects.

pub mod agents;
pub mod credentials;
pub mod harness;
pub mod json;
pub mod openai_chatgpt;
pub mod operation_broker;
pub mod preferences;
pub mod projects;
pub mod run_detail;
pub mod provider;
pub mod settings_window;
pub mod source_draft;
pub mod text;
pub mod turn_rows;

use vstd::prelude::*;

use crate::provider::{ConnectionStatus, PublicError};

verus! {

/// The status that a settled connect attempt publishes: the attempt's own
/// status when it succeeded, the authoritative current status otherwise.
pub open spec fn terminal_status_spec(
    result: Result<ConnectionStatus, PublicError>,
    status_on_error: ConnectionStatus,
) -> ConnectionStatus {
    match result {
        Ok(status) => status,
        Err(_) => status_on_error,
    }
}

pub fn terminal_status_for_emit(
    result: &Result<ConnectionStatus, PublicError>,
    status_on_error: ConnectionStatus,
) -> (status: ConnectionStatus)
    ensures
        status == terminal_status_spec(*result, status_on_error),
{
    match result {
        Ok(status) => *status,
        Err(_) => status_on_error,
    }
}

/// Publishes exactly one terminal status for a connect attempt and hands the
/// attempt's result back unchanged.
pub fn settle_connect_xai<F: FnOnce(&ConnectionStatus)>(
    emit: F,
    result: Result<ConnectionStatus, PublicError>,
    status_on_error: ConnectionStatus,
) -> (settled: Result<ConnectionStatus, PublicError>)
    requires
        call_requires(emit, (&terminal_status_spec(result, status_on_error),)),
    ensures
        settled == result,
        exists|u: ()| call_ensures(emit, (&terminal_status_spec(result, status_on_error),), u),
{
    let status = terminal_status_for_emit(&result, status_on_error);
    emit(&status);
    result
}

/// Cancels a running xAI connect through the adapter's own cancellation;
/// without an adapter in this build the provider is unavailable.
pub fn cancel_xai_connect_inner<F: FnOnce() -> Result<(), PublicError>>(adapter_cancel: Option<F>) -> (r:
    Result<(), PublicError>)
    requires
        adapter_cancel matches Some(f) ==> call_requires(f, ()),
    ensures
        match adapter_cancel {
            Some(f) => call_ensures(f, (), r),
            None => r == Err::<(), PublicError>(PublicError::ProviderUnavailable),
        },
{
    match adapter_cancel {
        Some(cancel) => cancel(),
        None => Err(PublicError::ProviderUnavailable),
    }
}

} // verus!
