use tule_desktop::source_draft::{
    bracketed_address, generate_draft_handle, is_allowed_link_content_type, is_blocked_ipv4,
    is_blocked_ipv6, normalize_link_host, validate_link_destination, ComposerScope,
    SourceDraftError, SourceDraftStore, append_body_chunk, link_fetch_step, resolve_redirect,
    LinkFetchStep, LinkResponse, MAX_LINK_REDIRECTS, HostAddress, literal_host_verdict,
    resolved_addresses_verdict,
};

const LOCAL_TEXT_FILE: &str = "local_text_file";

fn insert(store: &mut SourceDraftStore, name: &str, content: &str) -> String {
    store
        .insert(name.into(), content.into(), LOCAL_TEXT_FILE.into(), 1, None)
        .unwrap()
}

#[test]
fn cross_session_handle_cannot_be_substituted() {
    let mut store = SourceDraftStore::new();
    let session_a = "session-a".to_owned();
    let session_b = "session-b".to_owned();
    store.bind_session_scope(session_a.clone());
    let handle = insert(&mut store, "a.txt", "from-a");
    assert!(
        store
            .resolve_for_send(&handle, &ComposerScope::Session(session_a))
            .is_some()
    );
    assert!(
        store
            .resolve_for_send(&handle, &ComposerScope::Session(session_b))
            .is_none()
    );
    assert!(
        store
            .resolve_for_send(&handle, &ComposerScope::NewSession { generation: 0 })
            .is_none()
    );
}

#[test]
fn repeated_new_session_scope_advances_and_invalidates() {
    let mut store = SourceDraftStore::new();
    let first = insert(&mut store, "a.txt", "one");
    store.begin_new_session_scope();
    assert!(store.get(&first).is_none());
    let second = insert(&mut store, "b.txt", "two");
    let generation = match store.current_scope() {
        ComposerScope::NewSession { generation } => generation,
        ComposerScope::Session(_) => panic!("expected new-session scope"),
    };
    assert!(
        store
            .resolve_for_send(&second, &ComposerScope::NewSession { generation })
            .is_some()
    );
    store.begin_new_session_scope();
    assert!(store.get(&second).is_none());
    assert_ne!(
        store.current_scope(),
        ComposerScope::NewSession { generation }
    );
}

#[test]
fn stale_and_reordered_scope_commands_cannot_revive_handles() {
    let mut store = SourceDraftStore::new();
    let session_a = "session-a".to_owned();
    let session_b = "session-b".to_owned();
    store.bind_session_scope(session_a.clone());
    let handle = insert(&mut store, "a.txt", "body");
    store.bind_session_scope(session_b);
    assert!(store.get(&handle).is_none());
    store.bind_session_scope(session_a.clone());
    assert!(store.get(&handle).is_none());
    assert!(
        store
            .resolve_for_send(&handle, &ComposerScope::Session(session_a))
            .is_none()
    );
}

#[test]
fn unknown_and_cleared_handles_are_expired() {
    let mut store = SourceDraftStore::new();
    assert!(
        store
            .resolve_for_send("deadbeef".repeat(4).as_str(), &store.current_scope())
            .is_none()
    );
    let handle = insert(&mut store, "a.txt", "x");
    store.clear_handle(&handle);
    assert!(
        store
            .resolve_for_send(&handle, &store.current_scope())
            .is_none()
    );
    let handle = insert(&mut store, "a.txt", "x");
    store.clear_all();
    assert!(
        store
            .resolve_for_send(&handle, &store.current_scope())
            .is_none()
    );
}

#[test]
fn draft_handle_uses_cryptographic_randomness() {
    let first = generate_draft_handle().unwrap();
    let second = generate_draft_handle().unwrap();
    assert_ne!(first, second);
    assert_eq!(first.len(), 32);
    assert!(first.chars().all(|ch| matches!(ch, '0'..='9' | 'a'..='f')));
}

#[test]
fn rebinding_the_same_session_keeps_drafts_and_replace_keeps_one() {
    let mut store = SourceDraftStore::new();
    store.bind_session_scope("s".to_owned());
    let first = insert(&mut store, "a.txt", "one");
    store.bind_session_scope("s".to_owned());
    let draft = store.get(&first).unwrap();
    assert_eq!(draft.content, "one");
    assert_eq!(draft.scope(), &ComposerScope::Session("s".to_owned()));
    let second = store
        .replace_with(
            "b.txt".into(),
            "two".into(),
            LOCAL_TEXT_FILE.into(),
            1,
            Some("https://example.com/b.txt".into()),
        )
        .unwrap();
    assert!(store.get(&first).is_none());
    let replaced = store.get(&second).unwrap();
    assert_eq!(replaced.display_name, "b.txt");
    assert_eq!(replaced.canonical_url.as_deref(), Some("https://example.com/b.txt"));
    assert_eq!(
        store.send_target_for_session(None),
        None,
        "a new-session send cannot target a bound session scope"
    );
    store.begin_new_session_scope();
    assert_eq!(
        store.send_target_for_session(None),
        Some(ComposerScope::NewSession { generation: 1 })
    );
    assert_eq!(
        store.send_target_for_session(Some("t".to_owned())),
        Some(ComposerScope::Session("t".to_owned()))
    );
}

#[test]
fn link_content_types_allow_text_and_structured_text_only() {
    for allowed in [
        "text/plain",
        "Text/HTML; charset=utf-8",
        "  application/json ",
        "application/xml",
        "application/javascript",
        "application/ecmascript",
        "application/x-javascript;x=y",
    ] {
        assert!(is_allowed_link_content_type(Some(allowed)), "{allowed}");
    }
    for refused in ["application/octet-stream", "", " ; text/plain", "image/png"] {
        assert!(!is_allowed_link_content_type(Some(refused)), "{refused}");
    }
    assert!(!is_allowed_link_content_type(None));
}

#[test]
fn link_destinations_refuse_plain_http_local_names_and_private_addresses() {
    assert_eq!(
        validate_link_destination("https://Example.COM./a.txt"),
        Ok("example.com".to_owned())
    );
    for url in [
        "http://example.com/a.txt",
        "https://localhost/a.txt",
        "https://api.localhost/a.txt",
        "file:///etc/passwd",
        "not a url",
    ] {
        assert_eq!(
            validate_link_destination(url),
            Err(SourceDraftError::Unsupported),
            "{url}"
        );
    }
    assert_eq!(validate_link_destination("https://127.0.0.1/a.txt"), Ok("127.0.0.1".to_owned()));
    assert!(is_blocked_ipv4([127, 0, 0, 1]));
    assert!(is_blocked_ipv4([192, 168, 0, 1]));
    assert!(is_blocked_ipv4([10, 0, 0, 1]));
    assert!(is_blocked_ipv4([100, 64, 0, 1]));
    assert!(!is_blocked_ipv4([100, 128, 0, 1]));
    assert!(is_blocked_ipv4([172, 31, 255, 255]));
    assert!(!is_blocked_ipv4([172, 32, 0, 1]));
    assert!(is_blocked_ipv4([224, 0, 0, 1]));
    assert!(!is_blocked_ipv4([93, 184, 216, 34]));
    assert!(is_blocked_ipv6([0, 0, 0, 0, 0, 0, 0, 1]));
    assert!(is_blocked_ipv6([0xfd00, 0, 0, 0, 0, 0, 0, 1]));
    assert!(is_blocked_ipv6([0xfe80, 0, 0, 0, 0, 0, 0, 1]));
    assert!(!is_blocked_ipv6([0x2606, 0x2800, 0, 0, 0, 0, 0, 1]));
    assert_eq!(normalize_link_host("LOCALHOST."), None);
    assert_eq!(normalize_link_host("Docs.Example.org.."), Some("docs.example.org".to_owned()));
    assert_eq!(bracketed_address("[::1]"), Some("::1".to_owned()));
    assert_eq!(bracketed_address("::1"), None);
}

#[test]
fn link_fetch_follows_checked_redirects_within_the_budget() {
    let current = "https://example.com/start";
    assert_eq!(
        link_fetch_step(current, 0, LinkResponse::Redirect(Some("https://docs.example.org/next".into()))),
        LinkFetchStep::Follow {
            url: "https://docs.example.org/next".into(),
            host: "docs.example.org".into(),
        }
    );
    assert_eq!(
        link_fetch_step(current, 2, LinkResponse::Redirect(Some("/other?x=1".into()))),
        LinkFetchStep::Follow {
            url: "https://example.com/other?x=1".into(),
            host: "example.com".into(),
        }
    );
    assert_eq!(
        link_fetch_step(current, MAX_LINK_REDIRECTS, LinkResponse::Redirect(Some("/other".into()))),
        LinkFetchStep::Stop(SourceDraftError::Unsupported)
    );
    assert_eq!(
        link_fetch_step(current, 0, LinkResponse::Redirect(Some("http://example.com/plain".into()))),
        LinkFetchStep::Stop(SourceDraftError::Unsupported)
    );
    assert_eq!(
        link_fetch_step(current, 0, LinkResponse::Redirect(Some("https://localhost/admin".into()))),
        LinkFetchStep::Stop(SourceDraftError::Unsupported)
    );
    assert_eq!(
        link_fetch_step(current, 0, LinkResponse::Redirect(None)),
        LinkFetchStep::Stop(SourceDraftError::Unsupported)
    );
    assert_eq!(link_fetch_step(current, 0, LinkResponse::Success), LinkFetchStep::ReadBody);
    assert_eq!(
        link_fetch_step(current, 0, LinkResponse::Failure),
        LinkFetchStep::Stop(SourceDraftError::Unreadable)
    );
}

#[test]
fn redirect_locations_resolve_against_the_current_link() {
    assert_eq!(
        resolve_redirect("https://example.com/a/b", "c").as_deref(),
        Some("https://example.com/a/c")
    );
    assert_eq!(
        resolve_redirect("https://example.com/a/b", "https://other.example/").as_deref(),
        Some("https://other.example/")
    );
    assert_eq!(resolve_redirect("not a url", "relative"), None);
}

#[test]
fn fetched_body_stays_within_its_limit() {
    let mut buffer = b"abc".to_vec();
    assert_eq!(append_body_chunk(&mut buffer, b"de", 5), Ok(()));
    assert_eq!(buffer, b"abcde".to_vec());
    assert_eq!(
        append_body_chunk(&mut buffer, b"f", 5),
        Err(SourceDraftError::TooLarge)
    );
    assert_eq!(buffer, b"abcde".to_vec());
}

#[test]
fn address_literals_are_judged_without_resolution() {
    assert_eq!(
        literal_host_verdict(Some(HostAddress::V4([127, 0, 0, 1])), None),
        Some(Err(SourceDraftError::Unsupported))
    );
    assert_eq!(literal_host_verdict(Some(HostAddress::V4([93, 184, 216, 34])), None), Some(Ok(())));
    assert_eq!(
        literal_host_verdict(None, Some(HostAddress::V6([0, 0, 0, 0, 0, 0, 0, 1]))),
        Some(Err(SourceDraftError::Unsupported))
    );
    assert_eq!(
        literal_host_verdict(None, Some(HostAddress::V6([0x2606, 0x2800, 0x220, 1, 0x248, 0x1893, 0x25c8, 0x1946]))),
        Some(Ok(()))
    );
    assert_eq!(literal_host_verdict(None, None), None);
}

#[test]
fn every_resolved_address_must_be_allowed() {
    assert_eq!(resolved_addresses_verdict(&[]), Err(SourceDraftError::Unsupported));
    assert_eq!(
        resolved_addresses_verdict(&[HostAddress::V4([93, 184, 216, 34])]),
        Ok(())
    );
    assert_eq!(
        resolved_addresses_verdict(&[
            HostAddress::V4([93, 184, 216, 34]),
            HostAddress::V4([10, 0, 0, 5]),
        ]),
        Err(SourceDraftError::Unsupported)
    );
    assert_eq!(
        resolved_addresses_verdict(&[HostAddress::V6([0xfe80, 0, 0, 0, 0, 0, 0, 1])]),
        Err(SourceDraftError::Unsupported)
    );
}
