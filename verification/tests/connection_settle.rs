use tule_desktop::provider::{ConnectionState, ConnectionStatus, PublicError};
use tule_desktop::{cancel_xai_connect_inner, settle_connect_xai, terminal_status_for_emit};

fn status(state: ConnectionState) -> ConnectionStatus {
    ConnectionStatus {
        state,
        provider_id: "xai-subscription-oauth",
        model: "grok-3",
    }
}

#[test]
fn terminal_status_emit_preserves_success_and_uses_authoritative_error_status() {
    let connected = ConnectionStatus {
        state: ConnectionState::Connected,
        provider_id: "xai-subscription-oauth",
        model: "grok-3",
    };
    let disconnected = ConnectionStatus {
        state: ConnectionState::Disconnected,
        provider_id: "xai-subscription-oauth",
        model: "grok-3",
    };

    assert_eq!(
        terminal_status_for_emit(&Ok(connected.clone()), disconnected.clone()),
        connected
    );
    assert_eq!(
        terminal_status_for_emit(&Err(PublicError::Cancelled), disconnected.clone()),
        disconnected
    );
    assert_eq!(
        terminal_status_for_emit(&Err(PublicError::InvalidInput), connected.clone()),
        connected
    );
}

#[test]
fn settle_emits_exactly_one_terminal_status_and_returns_the_result() {
    let emitted = std::cell::RefCell::new(Vec::new());
    let settled = settle_connect_xai(
        |s: &ConnectionStatus| emitted.borrow_mut().push(*s),
        Err(PublicError::Cancelled),
        status(ConnectionState::Disconnected),
    );
    assert_eq!(settled, Err(PublicError::Cancelled));
    assert_eq!(*emitted.borrow(), vec![status(ConnectionState::Disconnected)]);

    let emitted = std::cell::RefCell::new(Vec::new());
    let settled = settle_connect_xai(
        |s: &ConnectionStatus| emitted.borrow_mut().push(*s),
        Ok(status(ConnectionState::Connected)),
        status(ConnectionState::Disconnected),
    );
    assert_eq!(settled, Ok(status(ConnectionState::Connected)));
    assert_eq!(*emitted.borrow(), vec![status(ConnectionState::Connected)]);
}

#[test]
fn cancel_without_an_adapter_reports_the_provider_unavailable() {
    let none: Option<fn() -> Result<(), PublicError>> = None;
    assert_eq!(
        cancel_xai_connect_inner(none),
        Err(PublicError::ProviderUnavailable)
    );
    assert_eq!(cancel_xai_connect_inner(Some(|| Ok(()))), Ok(()));
    assert_eq!(
        cancel_xai_connect_inner(Some(|| Err(PublicError::InvalidInput))),
        Err(PublicError::InvalidInput)
    );
}
