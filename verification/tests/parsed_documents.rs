use tule_desktop::json::JsonValue;
use tule_desktop::openai_chatgpt::credential_lifecycle::{
    commit_error, CommitOutcome, TokenBundle, TokenPersistence,
};
use tule_desktop::openai_chatgpt::sse::events_from_json;
use tule_desktop::openai_chatgpt::token_response::{account_claim_of, token_response_from_document};
use tule_desktop::provider::{ProviderEvent, PublicError};
use tule_desktop::source_draft::{validate_link_parts, SourceDraftError};

fn text(s: &str) -> JsonValue {
    JsonValue::String(s.to_string())
}

fn object(fields: Vec<(&str, JsonValue)>) -> JsonValue {
    JsonValue::Object(fields.into_iter().map(|(k, v)| (k.to_string(), v)).collect())
}

#[test]
fn account_claim_prefers_the_nested_auth_claim() {
    let claims = object(vec![
        ("sub", text("s")),
        ("https://api.openai.com/auth", object(vec![("chatgpt_account_id", text("acct"))])),
    ]);
    assert_eq!(account_claim_of(&claims), Ok("acct".to_string()));
    assert_eq!(account_claim_of(&object(vec![("sub", text("s"))])), Ok("s".to_string()));
    assert_eq!(account_claim_of(&object(vec![])), Err(PublicError::ProviderUnavailable));
}

#[test]
fn token_document_without_access_token_is_refused() {
    let document = object(vec![("refresh_token", text("r"))]);
    assert!(matches!(
        token_response_from_document(&document, TokenPersistence::Rotation, Some(0)),
        Err(PublicError::ProviderUnavailable)
    ));
}

#[test]
fn token_document_with_an_unreadable_id_token_is_refused() {
    let document = object(vec![("access_token", text("a")), ("id_token", text("no-dots"))]);
    assert!(matches!(
        token_response_from_document(&document, TokenPersistence::Rotation, Some(0)),
        Err(PublicError::ProviderUnavailable)
    ));
    assert!(!matches!(
        token_response_from_document(&document, TokenPersistence::Rotation, Some(0)),
        Ok(TokenBundle::InvalidGrant)
    ));
}

#[test]
fn delta_payload_appends_one_delta() {
    let mut out = Vec::new();
    let payload = object(vec![
        ("type", text("response.output_text.delta")),
        ("delta", text("hi")),
    ]);
    assert_eq!(events_from_json(&payload, &mut out), Ok(()));
    assert_eq!(out, vec![ProviderEvent::Delta("hi".to_string())]);
    let tool = object(vec![("type", text("function_call"))]);
    assert_eq!(events_from_json(&tool, &mut out), Err(PublicError::UnsupportedProviderOutput));
}

#[test]
fn link_parts_policy() {
    assert_eq!(
        validate_link_parts(&"https".to_string(), &Some("Example.COM.".to_string())),
        Ok("example.com".to_string())
    );
    assert_eq!(
        validate_link_parts(&"http".to_string(), &Some("example.com".to_string())),
        Err(SourceDraftError::Unsupported)
    );
    assert_eq!(validate_link_parts(&"https".to_string(), &None), Err(SourceDraftError::Unsupported));
    assert_eq!(
        validate_link_parts(&"https".to_string(), &Some("localhost".to_string())),
        Err(SourceDraftError::Unsupported)
    );
}

#[test]
fn commit_outcomes_map_to_errors() {
    assert_eq!(commit_error(CommitOutcome::Committed), None);
    assert_eq!(commit_error(CommitOutcome::Cancelled), Some(PublicError::Cancelled));
    assert_eq!(commit_error(CommitOutcome::GuardUnavailable), Some(PublicError::ProviderUnavailable));
    assert_eq!(
        commit_error(CommitOutcome::StorageUnavailable),
        Some(PublicError::AgentStorageUnavailable)
    );
}
