use base64::Engine;
use tule_desktop::openai_chatgpt::credential_lifecycle::{TokenBundle, TokenPersistence};
use tule_desktop::openai_chatgpt::token_response::{
    accept_body_chunk, content_length_acceptable, extract_account_id, parse_token_response,
    refresh_rejection, refresh_request_body, token_exchange_body, unix_now_ms,
};
use tule_desktop::openai_chatgpt::url_coding::{decode_hex, urldecoding, urlencoding};
use tule_desktop::openai_chatgpt::MAX_PROVIDER_BODY;
use tule_desktop::provider::PublicError;

fn id_token(claims: &str) -> String {
    let payload = base64::engine::general_purpose::URL_SAFE_NO_PAD.encode(claims.as_bytes());
    format!("header.{payload}.signature")
}

#[test]
fn form_encoding_round_trips_and_escapes_reserved_bytes() {
    assert_eq!(urlencoding("a b&c=d/é~"), "a+b%26c%3Dd%2F%C3%A9~");
    for value in ["", "plain", "a b+c%d", "ünïcødé ✓", "x=y&z"] {
        assert_eq!(urldecoding(&urlencoding(value)).unwrap(), value);
    }
    assert_eq!(urldecoding("%zz"), Err(PublicError::InvalidInput));
    assert_eq!(urldecoding("%c3"), Err(PublicError::InvalidInput));
    assert_eq!(urldecoding("100%"), Err(PublicError::InvalidInput));
    assert_eq!(urldecoding("%41%62"), Ok("Ab".to_owned()));
    assert_eq!(decode_hex(b'7'), Some(7));
    assert_eq!(decode_hex(b'b'), Some(11));
    assert_eq!(decode_hex(b'F'), Some(15));
    assert_eq!(decode_hex(b'g'), None);
}

#[test]
fn token_request_bodies_are_form_encoded() {
    assert_eq!(
        token_exchange_body("http://localhost:1455/auth/callback", "ver ifier", "c&d"),
        "grant_type=authorization_code&client_id=app_EMoamEEZ73f0CkXaXp7hrann&code=c%26d&redirect_uri=http%3A%2F%2Flocalhost%3A1455%2Fauth%2Fcallback&code_verifier=ver+ifier"
    );
    assert_eq!(
        refresh_request_body("r/1"),
        "grant_type=refresh_token&client_id=app_EMoamEEZ73f0CkXaXp7hrann&refresh_token=r%2F1"
    );
}

#[test]
fn body_reads_are_bounded() {
    assert!(content_length_acceptable(None, 10));
    assert!(content_length_acceptable(Some(10), 10));
    assert!(!content_length_acceptable(Some(11), 10));
    let mut body = b"abc".to_vec();
    assert_eq!(accept_body_chunk(&mut body, b"de", 5), Ok(()));
    assert_eq!(body, b"abcde".to_vec());
    assert_eq!(accept_body_chunk(&mut body, b"f", 5), Err(PublicError::InvalidInput));
    assert!(body.is_empty());
}

#[test]
fn account_claim_prefers_the_namespaced_identifier() {
    assert_eq!(
        extract_account_id(&id_token(
            r#"{"https://api.openai.com/auth":{"chatgpt_account_id":"acct-1"},"chatgpt_account_id":"acct-2","sub":"s"}"#
        )),
        Ok("acct-1".to_owned())
    );
    assert_eq!(
        extract_account_id(&id_token(r#"{"chatgpt_account_id":"acct-2","sub":"s"}"#)),
        Ok("acct-2".to_owned())
    );
    assert_eq!(extract_account_id(&id_token(r#"{"sub":"s"}"#)), Ok("s".to_owned()));
    assert_eq!(
        extract_account_id(&id_token(r#"{"other":1}"#)),
        Err(PublicError::ProviderUnavailable)
    );
    assert_eq!(extract_account_id("no-dots"), Err(PublicError::ProviderUnavailable));
    assert_eq!(extract_account_id("a.!!!.c"), Err(PublicError::ProviderUnavailable));
    let padded = base64::engine::general_purpose::URL_SAFE.encode(br#"{"sub":"pad"}"#);
    assert_eq!(extract_account_id(&format!("h.{padded}")), Ok("pad".to_owned()));
}

#[test]
fn token_response_requires_access_and_account_and_initial_refresh() {
    let token = id_token(r#"{"sub":"acct"}"#);
    let body = format!(
        r#"{{"access_token":"a","refresh_token":"r","id_token":"{token}","expires_in":10}}"#
    );
    match parse_token_response(body.as_bytes(), TokenPersistence::Initial, Some(1_000)) {
        Ok(TokenBundle::Success(values)) => {
            assert_eq!(values.access, "a");
            assert_eq!(values.refresh, "r");
            assert_eq!(values.account, "acct");
            assert_eq!(values.expires_at_unix_ms, Some(11_000));
            assert!(!values.preserve_refresh);
        }
        _ => panic!("expected a token set"),
    }
    let without_refresh = format!(r#"{{"access_token":"a","id_token":"{token}"}}"#);
    assert!(matches!(
        parse_token_response(without_refresh.as_bytes(), TokenPersistence::Initial, Some(0)),
        Err(PublicError::ProviderUnavailable)
    ));
    match parse_token_response(without_refresh.as_bytes(), TokenPersistence::Rotation, None) {
        Ok(TokenBundle::Success(values)) => {
            assert!(values.preserve_refresh);
            assert_eq!(values.refresh, "");
            assert_eq!(values.expires_at_unix_ms, None);
        }
        _ => panic!("expected a rotation token set"),
    }
    match parse_token_response(without_refresh.as_bytes(), TokenPersistence::Rotation, Some(0)) {
        Ok(TokenBundle::Success(values)) => assert_eq!(values.expires_at_unix_ms, Some(3_600_000)),
        _ => panic!("expected a rotation token set"),
    }
    assert!(matches!(
        parse_token_response(br#"{"refresh_token":"r"}"#, TokenPersistence::Rotation, Some(0)),
        Err(PublicError::ProviderUnavailable)
    ));
    assert!(matches!(
        parse_token_response(br#"{"access_token":"a"}"#, TokenPersistence::Rotation, Some(0)),
        Err(PublicError::ProviderUnavailable)
    ));
    assert!(matches!(
        parse_token_response(b"not json", TokenPersistence::Rotation, Some(0)),
        Err(PublicError::ProviderUnavailable)
    ));
    let oversized_claims = format!(r#"{{"sub":"{}"}}"#, "x".repeat(MAX_PROVIDER_BODY));
    let huge = format!(
        r#"{{"access_token":"a","refresh_token":"r","id_token":"{}"}}"#,
        id_token(&oversized_claims)
    );
    assert!(matches!(
        parse_token_response(huge.as_bytes(), TokenPersistence::Initial, Some(0)),
        Err(PublicError::InvalidInput)
    ));
}

#[test]
fn refused_refresh_distinguishes_invalid_grant() {
    assert!(matches!(
        refresh_rejection(br#"{"error":"invalid_grant"}"#),
        Ok(TokenBundle::InvalidGrant)
    ));
    assert!(matches!(
        refresh_rejection(br#"{"error":"invalid_request"}"#),
        Err(PublicError::ProviderUnavailable)
    ));
    assert!(matches!(
        refresh_rejection(b"oops"),
        Err(PublicError::ProviderUnavailable)
    ));
}

#[test]
fn clock_reads_after_the_epoch() {
    assert!(unix_now_ms().unwrap() > 0);
}

#[test]
fn url_decoding_examples() {
    assert_eq!(urldecoding("a%2Bb+c"), Ok("a+b c".to_owned()));
    assert_eq!(urldecoding("%41"), Ok("A".to_owned()));
    assert_eq!(urldecoding("%4"), Err(PublicError::InvalidInput));
    assert_eq!(urldecoding("%zz"), Err(PublicError::InvalidInput));
    assert_eq!(urldecoding("%FF"), Err(PublicError::InvalidInput));
    for value in ["", "plain", "a b&c=d", "ünïcødé ✓", "%+"] {
        assert_eq!(urldecoding(&urlencoding(value)), Ok(value.to_owned()));
    }
}
