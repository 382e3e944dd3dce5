use std::cell::Cell;

use tule_desktop::credentials::{CredentialKind, CredentialStore, FakeCredentialStore};
use tule_desktop::openai_chatgpt::callback::{
    begin_authorization, build_authorization_url, callback_read_progress, evaluate_callback_request, parse_query,
    CallbackRead, CallbackReply,
};
use tule_desktop::openai_chatgpt::connect_session::{inference_status_outcome, ConnectSession};
use tule_desktop::openai_chatgpt::credential_lifecycle::{
    access_freshness, commit_marker_for_profile, complete_refresh,
    connection_status_for_commit_marker, persist_tokens, read_access_and_account, read_refresh_credential,
    remove_credentials_and_metadata, MemoryProfileStore, ProfileStore, ProviderCredentialMetadata, TokenBundle,
    TokenPersistence, TokenValues, ALL_CREDENTIAL_KINDS,
};
use tule_desktop::openai_chatgpt::{
    AUTH_URL, CLIENT_ID, CREDENTIAL_HANDLE, INFERENCE_URL, MAX_CALLBACK_REQUEST,
    MAX_CALLBACK_VALUE, MODEL, PROVIDER_ID, SCOPES, TOKEN_URL,
};
use tule_desktop::provider::{ConnectionState, PublicError};

fn token_values(access: &str, refresh: &str, account: &str, preserve_refresh: bool) -> TokenValues {
    TokenValues {
        access: access.into(),
        refresh: refresh.into(),
        account: account.into(),
        expires_at_unix_ms: Some(i64::MAX / 2),
        preserve_refresh,
    }
}

fn seed_connected(store: &mut FakeCredentialStore) {
    store
        .replace(CREDENTIAL_HANDLE, CredentialKind::RefreshToken, b"refresh")
        .unwrap();
    store
        .replace(CREDENTIAL_HANDLE, CredentialKind::AccessToken, b"access")
        .unwrap();
    store
        .replace(CREDENTIAL_HANDLE, CredentialKind::AccountId, b"account")
        .unwrap();
}

fn profile(handle: Option<&str>, expires: Option<i64>) -> ProviderCredentialMetadata {
    ProviderCredentialMetadata {
        credential_handle: handle.map(str::to_owned),
        access_token_expires_at_unix_ms: expires,
        updated_at_unix_ms: 0,
    }
}

fn status_of(store: &mut FakeCredentialStore, row: &MemoryProfileStore, reconnect_required: &mut bool) -> ConnectionState {
    let marker = commit_marker_for_profile(&row.read(), reconnect_required);
    connection_status_for_commit_marker(store, false, *reconnect_required, marker).state
}

#[test]
fn production_contract_is_pinned() {
    assert_eq!(PROVIDER_ID, "openai-chatgpt-compat");
    assert_eq!(MODEL, "gpt-5.5");
    assert_eq!(CLIENT_ID, "app_EMoamEEZ73f0CkXaXp7hrann");
    assert_eq!(AUTH_URL, "https://auth.openai.com/oauth/authorize");
    assert_eq!(TOKEN_URL, "https://auth.openai.com/oauth/token");
    assert_eq!(
        INFERENCE_URL,
        "https://chatgpt.com/backend-api/codex/responses"
    );
    assert_eq!(SCOPES, "openid profile email offline_access");
    let url =
        build_authorization_url("http://localhost:1455/auth/callback", "challenge", "state");
    assert!(url.contains("originator=tule"));
    assert!(url.contains("codex_cli_simplified_flow=true"));
    assert!(url.contains("id_token_add_organizations=true"));
    assert!(!url.contains("api.connectors"));
}

#[test]
fn authorization_url_uses_exact_bound_redirect() {
    let primary = build_authorization_url("http://localhost:1455/auth/callback", "ch", "st");
    assert!(primary.contains("redirect_uri=http%3A%2F%2Flocalhost%3A1455%2Fauth%2Fcallback"));
    let fallback = build_authorization_url("http://localhost:1457/auth/callback", "ch", "st");
    assert!(fallback.contains("redirect_uri=http%3A%2F%2Flocalhost%3A1457%2Fauth%2Fcallback"));
}

#[test]
fn authorization_url_is_exact() {
    let url = build_authorization_url("http://localhost:1455/auth/callback", "ch~_.-", "s t");
    assert_eq!(
        url,
        "https://auth.openai.com/oauth/authorize?response_type=code&client_id=app_EMoamEEZ73f0CkXaXp7hrann&redirect_uri=http%3A%2F%2Flocalhost%3A1455%2Fauth%2Fcallback&scope=openid+profile+email+offline_access&code_challenge=ch~_.-&code_challenge_method=S256&state=s+t&id_token_add_organizations=true&codex_cli_simplified_flow=true&originator=tule"
    );
}

#[test]
fn endpoint_constants_reject_drift_targets() {
    assert!(!AUTH_URL.contains("api.openai.com/v1"));
    assert!(!TOKEN_URL.contains("device"));
    assert_eq!(
        INFERENCE_URL,
        "https://chatgpt.com/backend-api/codex/responses"
    );
    assert!(!SCOPES.contains("api.connectors"));
}

#[test]
fn oversized_callback_values_are_rejected() {
    let huge = "x".repeat(MAX_CALLBACK_VALUE + 1);
    let query = format!("state={huge}&code=ok");
    let params = parse_query(&query).unwrap();
    assert!(params.get("state").unwrap().len() > MAX_CALLBACK_VALUE);
}

#[test]
fn parse_query_decodes_callback_pairs() {
    let params = parse_query("code=a%2Bb&state=s+t&error=access_denied").unwrap();
    assert_eq!(params.get("code").unwrap(), "a+b");
    assert_eq!(params.get("state").unwrap(), "s t");
    assert_eq!(params.get("error").unwrap(), "access_denied");
    assert_eq!(
        parse_query("state=one&state=two"),
        Err(PublicError::InvalidInput)
    );
    assert_eq!(
        parse_query("state=%💩&code=x"),
        Err(PublicError::InvalidInput)
    );
    assert_eq!(
        parse_query("state=%FF&code=x"),
        Err(PublicError::InvalidInput)
    );
}

#[test]
fn parse_query_skips_empty_parts_and_splits_at_the_first_equals() {
    let params = parse_query("&&a=b=c&flag&=v&").unwrap();
    assert_eq!(params.len(), 3);
    assert_eq!(params.get("a").unwrap(), "b=c");
    assert_eq!(params.get("flag").unwrap(), "");
    assert_eq!(params.get("").unwrap(), "v");
    assert!(params.contains_key("flag"));
    assert!(!params.contains_key("missing"));
    assert_eq!(parse_query("").unwrap().len(), 0);
    assert_eq!(parse_query("a=%4"), Err(PublicError::InvalidInput));
    assert_eq!(parse_query("a=%41").unwrap().get("a").unwrap(), "A");
}

fn callback(request: &str, expected_state: &str) -> (Result<String, PublicError>, CallbackReply) {
    let outcome = evaluate_callback_request(request.as_bytes(), expected_state);
    (outcome.result, outcome.reply)
}

#[test]
fn callback_requires_exact_method_path_and_state() {
    assert_eq!(
        callback(
            "GET /auth/callback?state=expected&code=ok HTTP/1.1\r\nHost: localhost\r\n\r\n",
            "expected",
        ),
        (Ok("ok".to_owned()), CallbackReply::Returned)
    );
    for request in [
        "POST /auth/callback?state=expected&code=ok HTTP/1.1\r\nHost: localhost\r\n\r\n",
        "GET /wrong?state=expected&code=ok HTTP/1.1\r\nHost: localhost\r\n\r\n",
        "GET /auth/callback?error=access_denied HTTP/1.1\r\nHost: localhost\r\n\r\n",
    ] {
        assert_eq!(callback(request, "expected").0, Err(PublicError::InvalidInput));
    }
    assert_eq!(
        callback(
            "GET /auth/callback?state=wrong&code=ok HTTP/1.1\r\nHost: localhost\r\n\r\n",
            "expected"
        ),
        (Err(PublicError::InvalidInput), CallbackReply::BadRequest)
    );
    assert_eq!(
        callback(
            "GET /auth/callback?state=expected&error=access_denied HTTP/1.1\r\nHost: localhost\r\n\r\n",
            "expected",
        ),
        (
            Err(PublicError::AuthenticationRequired),
            CallbackReply::SignInDeclined
        )
    );
}

#[test]
fn callback_request_line_edge_cases() {
    assert_eq!(callback("", "s").0, Err(PublicError::InvalidInput));
    assert_eq!(
        callback("GET /auth/callback?state=s&code=c HTTP/1.1 extra\r\n\r\n", "s").0,
        Err(PublicError::InvalidInput)
    );
    assert_eq!(
        callback("GET /auth/callback?state=s&code=c#frag HTTP/1.1\r\n\r\n", "s").0,
        Err(PublicError::InvalidInput)
    );
    assert_eq!(
        callback("GET /auth/callback?state=s&code=c HTTP/2\r\n\r\n", "s").0,
        Err(PublicError::InvalidInput)
    );
    assert_eq!(
        callback("GET\t/auth/callback?state=s&code=c   HTTP/1.0", "s"),
        (Ok("c".to_owned()), CallbackReply::Returned)
    );
    assert_eq!(
        callback("GET /auth/callback?state=s&code= HTTP/1.1\r\n\r\n", "s"),
        (Err(PublicError::InvalidInput), CallbackReply::Silent)
    );
    let too_long = "c".repeat(MAX_CALLBACK_VALUE + 1);
    assert_eq!(
        callback(&format!("GET /auth/callback?state=s&code={too_long} HTTP/1.1\r\n\r\n"), "s").0,
        Err(PublicError::InvalidInput)
    );
    let bytes = [0xffu8, b'G'];
    assert_eq!(
        evaluate_callback_request(&bytes, "s").result,
        Err(PublicError::InvalidInput)
    );
    assert!(CallbackReply::Returned.http_response().starts_with("HTTP/1.1 200 OK"));
    assert_eq!(CallbackReply::Silent.http_response(), "");
}

#[test]
fn callback_reading_stops_at_the_blank_line_or_the_limit() {
    assert_eq!(callback_read_progress(b"GET / HTTP/1.1\r\n"), CallbackRead::NeedMore);
    assert_eq!(
        callback_read_progress(b"GET / HTTP/1.1\r\n\r\n"),
        CallbackRead::HeadComplete
    );
    let big = vec![b'a'; MAX_CALLBACK_REQUEST + 1];
    assert_eq!(callback_read_progress(&big), CallbackRead::TooLarge);
    let at_limit = vec![b'a'; MAX_CALLBACK_REQUEST];
    assert_eq!(callback_read_progress(&at_limit), CallbackRead::NeedMore);
}

#[test]
fn cancel_connect_rejects_noop_and_duplicate_requests() {
    let mut session = ConnectSession::new();
    assert_eq!(session.cancel_connect(), Err(PublicError::InvalidInput));

    assert_eq!(session.begin_connect(7), Ok(()));
    assert_eq!(session.cancel_connect(), Ok(()));
    assert!(session.is_cancelled(7));
    assert_eq!(session.cancel_connect(), Err(PublicError::InvalidInput));
}

#[test]
fn connect_session_allows_one_attempt_and_clears_on_finish() {
    let mut session = ConnectSession::new();
    assert_eq!(session.begin_connect(1), Ok(()));
    assert_eq!(session.begin_connect(2), Err(PublicError::SessionBusy));
    assert_eq!(session.finish_connect(1, Ok(())), Ok(()));
    assert_eq!(session.cancel_connect(), Err(PublicError::InvalidInput));
    assert_eq!(session.begin_connect(3), Ok(()));
    assert_eq!(session.cancel_connect(), Ok(()));
    assert_eq!(session.abandon_busy_attempt(3), PublicError::Cancelled);
    assert_eq!(session.begin_connect(4), Ok(()));
    assert_eq!(session.abandon_busy_attempt(4), PublicError::SessionBusy);
    assert_eq!(
        session.finish_connect(5, Err(PublicError::Cancelled)),
        Err(PublicError::Cancelled)
    );
}

#[test]
fn inference_statuses_map_to_public_errors() {
    let mut reconnect = false;
    assert_eq!(inference_status_outcome(200, &mut reconnect), Ok(()));
    assert_eq!(
        inference_status_outcome(403, &mut reconnect),
        Err(PublicError::EntitlementUnavailable)
    );
    assert_eq!(
        inference_status_outcome(429, &mut reconnect),
        Err(PublicError::RateLimited)
    );
    assert_eq!(
        inference_status_outcome(500, &mut reconnect),
        Err(PublicError::ProviderUnavailable)
    );
    assert!(!reconnect);
    assert_eq!(
        inference_status_outcome(401, &mut reconnect),
        Err(PublicError::AuthenticationRequired)
    );
    assert!(reconnect);
}

#[test]
fn connection_status_requires_a_complete_credential_set_across_restart() {
    let mut fake = FakeCredentialStore::new();
    let mut row = MemoryProfileStore::new(Some(profile(None, None)), true);
    let mut reconnect = false;
    assert_eq!(
        status_of(&mut fake, &row, &mut reconnect),
        ConnectionState::Disconnected
    );

    fake.replace(CREDENTIAL_HANDLE, CredentialKind::RefreshToken, b"refresh")
        .unwrap();
    assert_eq!(
        status_of(&mut fake, &row, &mut reconnect),
        ConnectionState::ReconnectRequired
    );
    let mut restarted = false;
    assert_eq!(
        status_of(&mut fake, &row, &mut restarted),
        ConnectionState::ReconnectRequired
    );

    fake.replace(CREDENTIAL_HANDLE, CredentialKind::AccessToken, b"access")
        .unwrap();
    fake.replace(CREDENTIAL_HANDLE, CredentialKind::AccountId, b"account")
        .unwrap();
    assert_eq!(
        status_of(&mut fake, &row, &mut restarted),
        ConnectionState::ReconnectRequired
    );

    let mut wrong = MemoryProfileStore::new(Some(profile(Some("unexpected-handle"), None)), true);
    assert_eq!(
        status_of(&mut fake, &wrong, &mut restarted),
        ConnectionState::ReconnectRequired
    );

    let mut committed = MemoryProfileStore::new(Some(profile(Some(CREDENTIAL_HANDLE), Some(i64::MAX / 2))), true);
    let mut committed_restart = false;
    assert_eq!(
        status_of(&mut fake, &committed, &mut committed_restart),
        ConnectionState::Connected
    );
}

#[test]
fn cancellation_during_persistence_restores_the_credential_snapshot() {
    let mut fake = FakeCredentialStore::new();
    let mut row = MemoryProfileStore::new(Some(profile(None, None)), true);
    let mut reconnect = false;
    let checks = Cell::new(0);
    let result = persist_tokens(
        &mut fake,
        &mut row,
        &mut reconnect,
        token_values("access", "refresh", "account", false),
        TokenPersistence::Initial,
        Some(1),
        || {
            checks.set(checks.get() + 1);
            checks.get() >= 3
        },
    );
    assert_eq!(result, Err(PublicError::Cancelled));
    for kind in ALL_CREDENTIAL_KINDS {
        assert_eq!(fake.peek(CREDENTIAL_HANDLE, kind), None);
    }
}

#[test]
fn credential_write_order_compensates_on_failure() {
    for failed_operation in 4..=6 {
        let mut fake = FakeCredentialStore::new();
        fake.fail_on_operation(failed_operation);
        let mut row = MemoryProfileStore::new(Some(profile(None, None)), true);
        let mut reconnect = false;
        let result = persist_tokens(
            &mut fake,
            &mut row,
            &mut reconnect,
            token_values("access", "refresh", "account", false),
            TokenPersistence::Initial,
            Some(1),
            || false,
        );
        assert_eq!(result, Err(PublicError::CredentialStoreUnavailable));
        for kind in ALL_CREDENTIAL_KINDS {
            assert_eq!(fake.peek(CREDENTIAL_HANDLE, kind), None);
        }
        let marker = commit_marker_for_profile(&row.read(), &mut reconnect);
        assert_ne!(
            connection_status_for_commit_marker(&mut fake, false, reconnect, marker).state,
            ConnectionState::Connected
        );
    }
}

#[test]
fn metadata_failure_restores_initial_credential_state() {
    let mut fake = FakeCredentialStore::new();
    let mut row = MemoryProfileStore::new(Some(profile(None, None)), false);
    let mut reconnect = false;
    assert_eq!(
        persist_tokens(
            &mut fake,
            &mut row,
            &mut reconnect,
            token_values("access", "refresh", "account", false),
            TokenPersistence::Initial,
            Some(1),
            || false,
        ),
        Err(PublicError::AgentStorageUnavailable)
    );
    for kind in ALL_CREDENTIAL_KINDS {
        assert_eq!(fake.peek(CREDENTIAL_HANDLE, kind), None);
    }
}

#[test]
fn failed_rotation_restoration_leaves_the_commit_marker_cleared() {
    let mut fake = FakeCredentialStore::new();
    seed_connected(&mut fake);
    let mut row = MemoryProfileStore::new(Some(profile(Some(CREDENTIAL_HANDLE), Some(0))), true);
    fake.reset_operations();
    fake.fail_on_operations([5, 6]);
    let mut reconnect = false;

    assert_eq!(
        persist_tokens(
            &mut fake,
            &mut row,
            &mut reconnect,
            token_values("new-access", "new-refresh", "new-account", false),
            TokenPersistence::Rotation,
            Some(1),
            || false,
        ),
        Err(PublicError::CredentialStoreUnavailable)
    );
    assert_eq!(row.read().unwrap().unwrap().credential_handle, None);

    let mut restarted = false;
    assert_eq!(
        status_of(&mut fake, &row, &mut restarted),
        ConnectionState::ReconnectRequired
    );
}

#[test]
fn initial_connection_requires_refresh_but_rotation_may_preserve_it() {
    let mut fake = FakeCredentialStore::new();
    let mut row = MemoryProfileStore::new(Some(profile(None, None)), true);
    let mut reconnect = false;
    assert_eq!(
        persist_tokens(
            &mut fake,
            &mut row,
            &mut reconnect,
            token_values("access", "", "account", true),
            TokenPersistence::Initial,
            Some(1),
            || false,
        ),
        Err(PublicError::ProviderUnavailable)
    );
    for kind in ALL_CREDENTIAL_KINDS {
        assert_eq!(fake.peek(CREDENTIAL_HANDLE, kind), None);
    }

    seed_connected(&mut fake);
    fake.reset_operations();
    persist_tokens(
        &mut fake,
        &mut row,
        &mut reconnect,
        token_values("new-access", "", "new-account", true),
        TokenPersistence::Rotation,
        Some(1),
        || false,
    )
    .unwrap();
    assert_eq!(
        fake.peek(CREDENTIAL_HANDLE, CredentialKind::RefreshToken),
        Some(b"refresh".to_vec())
    );
    assert_eq!(
        fake.peek(CREDENTIAL_HANDLE, CredentialKind::AccessToken),
        Some(b"new-access".to_vec())
    );
    assert_eq!(
        row.read().unwrap().unwrap().credential_handle.as_deref(),
        Some(CREDENTIAL_HANDLE)
    );
}

#[test]
fn disconnect_failure_restores_credentials_or_fails_closed() {
    for failed_operation in 4..=9 {
        let mut fake = FakeCredentialStore::new();
        seed_connected(&mut fake);
        fake.reset_operations();
        fake.fail_on_operation(failed_operation);
        let mut row = MemoryProfileStore::new(Some(profile(Some(CREDENTIAL_HANDLE), Some(i64::MAX / 2))), true);
        let mut reconnect = false;

        assert_eq!(
            remove_credentials_and_metadata(
                &mut fake,
                &mut row,
                &mut reconnect,
                true,
                Some(1),
            ),
            Err(PublicError::CredentialStoreUnavailable)
        );
        assert_eq!(
            status_of(&mut fake, &row, &mut reconnect),
            ConnectionState::Connected
        );
        assert_eq!(
            fake.peek(CREDENTIAL_HANDLE, CredentialKind::RefreshToken),
            Some(b"refresh".to_vec())
        );
        assert_eq!(
            fake.peek(CREDENTIAL_HANDLE, CredentialKind::AccessToken),
            Some(b"access".to_vec())
        );
        assert_eq!(
            fake.peek(CREDENTIAL_HANDLE, CredentialKind::AccountId),
            Some(b"account".to_vec())
        );
    }

    let mut fake = FakeCredentialStore::new();
    seed_connected(&mut fake);
    fake.reset_operations();
    fake.fail_on_operations([5, 6]);
    let mut row = MemoryProfileStore::new(Some(profile(Some(CREDENTIAL_HANDLE), Some(i64::MAX / 2))), true);
    let mut reconnect = false;
    assert_eq!(
        remove_credentials_and_metadata(
            &mut fake,
            &mut row,
            &mut reconnect,
            true,
            Some(1),
        ),
        Err(PublicError::CredentialStoreUnavailable)
    );
    let marker = commit_marker_for_profile(&row.read(), &mut reconnect);
    assert_eq!(
        connection_status_for_commit_marker(&mut fake, false, reconnect, marker).state,
        ConnectionState::ReconnectRequired
    );
}

#[test]
fn successful_disconnect_removes_every_value_and_clears_the_marker() {
    let mut fake = FakeCredentialStore::new();
    seed_connected(&mut fake);
    let mut row = MemoryProfileStore::new(Some(profile(Some(CREDENTIAL_HANDLE), Some(5))), true);
    let mut reconnect = false;
    assert_eq!(
        remove_credentials_and_metadata(
            &mut fake,
            &mut row,
            &mut reconnect,
            true,
            Some(9),
        ),
        Ok(())
    );
    for kind in ALL_CREDENTIAL_KINDS {
        assert_eq!(fake.peek(CREDENTIAL_HANDLE, kind), None);
    }
    let stored = row.read().unwrap().unwrap();
    assert_eq!(stored.credential_handle, None);
    assert_eq!(stored.updated_at_unix_ms, 9);
    assert_eq!(
        status_of(&mut fake, &row, &mut reconnect),
        ConnectionState::Disconnected
    );
}

#[test]
fn invalid_grant_refresh_requires_reconnection_and_removes_credentials() {
    let mut fake = FakeCredentialStore::new();
    seed_connected(&mut fake);
    let mut row = MemoryProfileStore::new(Some(profile(Some(CREDENTIAL_HANDLE), Some(0))), true);
    let mut reconnect = false;
    assert_eq!(
        complete_refresh(
            &mut fake,
            &mut row,
            &mut reconnect,
            TokenBundle::InvalidGrant,
            Some(1),
            || false,
        ),
        Err(PublicError::AuthenticationRequired)
    );
    assert!(reconnect);
    for kind in ALL_CREDENTIAL_KINDS {
        assert_eq!(fake.peek(CREDENTIAL_HANDLE, kind), None);
    }
}

#[test]
fn access_freshness_follows_the_commit_marker_and_refresh_skew() {
    let mut reconnect = false;
    assert_eq!(
        access_freshness(Ok(None), Some(0), &mut reconnect),
        Err(PublicError::NotConnected)
    );
    assert_eq!(
        access_freshness(Err(()), Some(0), &mut reconnect),
        Err(PublicError::AgentStorageUnavailable)
    );
    assert_eq!(
        access_freshness(Ok(Some(profile(Some(CREDENTIAL_HANDLE), Some(160_000)))), Some(99_999), &mut reconnect),
        Ok(false)
    );
    assert_eq!(
        access_freshness(Ok(Some(profile(Some(CREDENTIAL_HANDLE), Some(160_000)))), Some(100_000), &mut reconnect),
        Ok(true)
    );
    assert_eq!(
        access_freshness(Ok(Some(profile(Some(CREDENTIAL_HANDLE), None))), Some(1), &mut reconnect),
        Ok(false)
    );
    assert!(!reconnect);
    assert_eq!(
        access_freshness(Ok(Some(profile(Some("other"), None))), Some(1), &mut reconnect),
        Err(PublicError::AuthenticationRequired)
    );
    assert!(reconnect);
}

#[test]
fn inference_credentials_require_both_values_as_utf8() {
    let mut fake = FakeCredentialStore::new();
    assert_eq!(read_access_and_account(&mut fake), Err(PublicError::NotConnected));
    seed_connected(&mut fake);
    assert_eq!(
        read_access_and_account(&mut fake),
        Ok(("access".to_owned(), "account".to_owned()))
    );
    fake.replace(CREDENTIAL_HANDLE, CredentialKind::AccountId, &[0xff]).unwrap();
    assert_eq!(
        read_access_and_account(&mut fake),
        Err(PublicError::AuthenticationRequired)
    );
}

#[test]
fn unrestored_disconnect_failure_keeps_refresh_until_the_rest_is_gone() {
    for failed_operation in 4..=9 {
        let mut fake = FakeCredentialStore::new();
        seed_connected(&mut fake);
        fake.reset_operations();
        fake.fail_on_operation(failed_operation);
        let mut row = MemoryProfileStore::new(Some(profile(Some(CREDENTIAL_HANDLE), Some(i64::MAX / 2))), true);
        let mut reconnect = false;
        assert!(remove_credentials_and_metadata(
            &mut fake,
            &mut row,
            &mut reconnect,
            false,
            Some(1),
        )
        .is_err());
        assert!(!reconnect);
        if fake.peek(CREDENTIAL_HANDLE, CredentialKind::RefreshToken).is_none() {
            assert_eq!(fake.peek(CREDENTIAL_HANDLE, CredentialKind::AccessToken), None);
            assert_eq!(fake.peek(CREDENTIAL_HANDLE, CredentialKind::AccountId), None);
        }
    }

    let mut fake = FakeCredentialStore::new();
    seed_connected(&mut fake);
    fake.reset_operations();
    fake.fail_on_operation(8);
    let mut row = MemoryProfileStore::new(Some(profile(Some(CREDENTIAL_HANDLE), Some(i64::MAX / 2))), true);
    let mut reconnect = false;
    assert_eq!(
        remove_credentials_and_metadata(
            &mut fake,
            &mut row,
            &mut reconnect,
            false,
            Some(1),
        ),
        Err(PublicError::CredentialStoreUnavailable)
    );
    assert_eq!(
        fake.peek(CREDENTIAL_HANDLE, CredentialKind::RefreshToken),
        Some(b"refresh".to_vec())
    );
    assert_eq!(fake.peek(CREDENTIAL_HANDLE, CredentialKind::AccessToken), None);
    assert_eq!(fake.peek(CREDENTIAL_HANDLE, CredentialKind::AccountId), None);
}

#[test]
fn token_values_zeroize_wipes_every_secret() {
    let mut token = token_values("access", "refresh", "account", true);
    token.zeroize();
    assert_eq!(token.access, "");
    assert_eq!(token.refresh, "");
    assert_eq!(token.account, "");
    assert_eq!(token.expires_at_unix_ms, Some(i64::MAX / 2));
    assert!(token.preserve_refresh);
}

#[test]
fn browser_authorization_uses_fresh_pkce_and_state() {
    let redirect = "http://localhost:1455/auth/callback";
    let first = begin_authorization(redirect);
    let second = begin_authorization(redirect);
    assert_eq!(first.verifier.len(), 43);
    assert_eq!(first.state.len(), 22);
    assert_ne!(first.state, second.state);
    assert_ne!(first.verifier, second.verifier);
    let (base, query) = first.url.split_once('?').unwrap();
    assert_eq!(base, AUTH_URL);
    let params = parse_query(query).unwrap();
    assert_eq!(params.get("state").unwrap(), &first.state);
    assert_eq!(params.get("redirect_uri").unwrap(), redirect);
    assert_eq!(params.get("code_challenge").unwrap().len(), 43);
    assert_ne!(params.get("code_challenge").unwrap(), &first.verifier);
    assert_eq!(params.get("code_challenge_method").unwrap(), "S256");
}

#[test]
fn cancelled_rotation_writes_the_prior_profile_row_back() {
    let mut fake = FakeCredentialStore::new();
    seed_connected(&mut fake);
    let mut row = MemoryProfileStore::new(Some(profile(Some(CREDENTIAL_HANDLE), Some(7))), true);
    let mut reconnect = false;
    let checks = Cell::new(0);
    let result = persist_tokens(
        &mut fake,
        &mut row,
        &mut reconnect,
        token_values("new-access", "new-refresh", "new-account", false),
        TokenPersistence::Rotation,
        Some(1),
        || {
            checks.set(checks.get() + 1);
            checks.get() >= 4
        },
    );
    assert_eq!(result, Err(PublicError::Cancelled));
    assert!(!reconnect);
    let stored = row.read().unwrap().unwrap();
    assert_eq!(stored.credential_handle.as_deref(), Some(CREDENTIAL_HANDLE));
    assert_eq!(stored.access_token_expires_at_unix_ms, Some(7));
    assert_eq!(fake.peek(CREDENTIAL_HANDLE, CredentialKind::RefreshToken), Some(b"refresh".to_vec()));
    assert_eq!(fake.peek(CREDENTIAL_HANDLE, CredentialKind::AccessToken), Some(b"access".to_vec()));
    assert_eq!(fake.peek(CREDENTIAL_HANDLE, CredentialKind::AccountId), Some(b"account".to_vec()));
}

#[test]
fn refused_profile_clear_restores_every_value_and_keeps_the_marker() {
    let mut fake = FakeCredentialStore::new();
    seed_connected(&mut fake);
    let mut row = MemoryProfileStore::new(Some(profile(Some(CREDENTIAL_HANDLE), Some(i64::MAX / 2))), false);
    let mut reconnect = false;
    assert_eq!(
        remove_credentials_and_metadata(&mut fake, &mut row, &mut reconnect, true, Some(1)),
        Err(PublicError::AgentStorageUnavailable)
    );
    assert!(!reconnect);
    assert_eq!(fake.peek(CREDENTIAL_HANDLE, CredentialKind::RefreshToken), Some(b"refresh".to_vec()));
    assert_eq!(fake.peek(CREDENTIAL_HANDLE, CredentialKind::AccessToken), Some(b"access".to_vec()));
    assert_eq!(fake.peek(CREDENTIAL_HANDLE, CredentialKind::AccountId), Some(b"account".to_vec()));
    assert_eq!(
        row.read().unwrap().unwrap().credential_handle.as_deref(),
        Some(CREDENTIAL_HANDLE)
    );
}

#[test]
fn removal_without_a_profile_row_changes_nothing() {
    let mut fake = FakeCredentialStore::new();
    seed_connected(&mut fake);
    let mut row = MemoryProfileStore::new(None, true);
    let mut reconnect = false;
    assert_eq!(
        remove_credentials_and_metadata(&mut fake, &mut row, &mut reconnect, false, Some(1)),
        Err(PublicError::AgentStorageUnavailable)
    );
    for kind in ALL_CREDENTIAL_KINDS {
        assert!(fake.peek(CREDENTIAL_HANDLE, kind).is_some());
    }
    assert!(row.read().unwrap().is_none());
}

#[test]
fn unrestored_removal_deletes_account_then_access_then_refresh() {
    for (failed_operation, gone) in [(4, 0), (5, 1), (6, 1), (7, 2), (8, 2), (9, 3)] {
        let mut fake = FakeCredentialStore::new();
        seed_connected(&mut fake);
        fake.reset_operations();
        fake.fail_on_operation(failed_operation);
        let mut row = MemoryProfileStore::new(Some(profile(Some(CREDENTIAL_HANDLE), Some(1))), true);
        let mut reconnect = false;
        assert_eq!(
            remove_credentials_and_metadata(&mut fake, &mut row, &mut reconnect, false, Some(1)),
            Err(PublicError::CredentialStoreUnavailable)
        );
        let order = [CredentialKind::AccountId, CredentialKind::AccessToken, CredentialKind::RefreshToken];
        for (rank, kind) in order.into_iter().enumerate() {
            assert_eq!(fake.peek(CREDENTIAL_HANDLE, kind).is_none(), rank < gone);
        }
        assert_eq!(
            row.read().unwrap().unwrap().credential_handle.as_deref(),
            Some(CREDENTIAL_HANDLE)
        );
    }
}

#[test]
fn refresh_credential_must_be_stored_as_utf8() {
    let mut fake = FakeCredentialStore::new();
    assert_eq!(read_refresh_credential(&mut fake), Err(PublicError::AuthenticationRequired));
    seed_connected(&mut fake);
    assert_eq!(read_refresh_credential(&mut fake), Ok("refresh".to_owned()));
    fake.replace(CREDENTIAL_HANDLE, CredentialKind::RefreshToken, &[0xc3]).unwrap();
    assert_eq!(read_refresh_credential(&mut fake), Err(PublicError::AuthenticationRequired));
}

#[test]
fn authorization_query_reads_back_every_parameter() {
    let url = build_authorization_url("http://localhost:1455/auth/callback", "ch al~", "st&ate");
    let (base, query) = url.split_once('?').unwrap();
    assert_eq!(base, AUTH_URL);
    let params = parse_query(query).unwrap();
    assert_eq!(params.get("redirect_uri").map(String::as_str), Some("http://localhost:1455/auth/callback"));
    assert_eq!(params.get("code_challenge").map(String::as_str), Some("ch al~"));
    assert_eq!(params.get("state").map(String::as_str), Some("st&ate"));
    assert_eq!(params.get("client_id").map(String::as_str), Some(CLIENT_ID));
    assert_eq!(params.get("scope").map(String::as_str), Some(SCOPES));
    assert_eq!(params.get("response_type").map(String::as_str), Some("code"));
    assert_eq!(params.get("code_challenge_method").map(String::as_str), Some("S256"));
}
