use tule_desktop::credentials::{
    CredentialKind, CredentialStore, CredentialStoreError, FakeCredentialStore,
    UnavailableCredentialStore, CRED_MAX_CREDENTIAL_BLOB_SIZE,
};

#[test]
fn fake_enforces_windows_blob_limit() {
    let mut store = FakeCredentialStore::new();
    assert_eq!(
        store.replace(
            "h",
            CredentialKind::AccessToken,
            &vec![0; CRED_MAX_CREDENTIAL_BLOB_SIZE + 1]
        ),
        Err(CredentialStoreError::ValueTooLarge)
    );
}

#[test]
fn fake_round_trips_and_deletes() {
    let mut store = FakeCredentialStore::new();
    store
        .replace("h", CredentialKind::RefreshToken, b"secret")
        .unwrap();
    assert_eq!(
        store.read("h", CredentialKind::RefreshToken).unwrap(),
        Some(b"secret".to_vec())
    );
    store.delete("h", CredentialKind::RefreshToken).unwrap();
    assert_eq!(store.read("h", CredentialKind::RefreshToken).unwrap(), None);
}

#[test]
fn injected_failures_hit_exactly_their_operation() {
    let mut store = FakeCredentialStore::new();
    store.fail_on_operations([2, 4]);
    assert_eq!(store.replace("h", CredentialKind::AccountId, b"a"), Ok(()));
    assert_eq!(
        store.replace("h", CredentialKind::AccountId, b"b"),
        Err(CredentialStoreError::Unavailable)
    );
    assert_eq!(store.peek("h", CredentialKind::AccountId), Some(b"a".to_vec()));
    assert_eq!(store.read("h", CredentialKind::AccountId), Ok(Some(b"a".to_vec())));
    assert_eq!(
        store.delete("h", CredentialKind::AccountId),
        Err(CredentialStoreError::Unavailable)
    );
    store.reset_operations();
    assert_eq!(store.may_fail(), Ok(()));
    assert_eq!(CredentialKind::AccessToken.suffix(), "access");
    assert_eq!(CredentialKind::RefreshToken.suffix(), "refresh");
    assert_eq!(CredentialKind::AccountId.suffix(), "account");
}

#[test]
fn unavailable_store_refuses_everything() {
    let mut store = UnavailableCredentialStore;
    assert_eq!(
        store.read("h", CredentialKind::AccountId),
        Err(CredentialStoreError::Unavailable)
    );
    assert_eq!(
        store.replace("h", CredentialKind::AccountId, b"x"),
        Err(CredentialStoreError::Unavailable)
    );
    assert_eq!(
        store.delete("h", CredentialKind::AccountId),
        Err(CredentialStoreError::Unavailable)
    );
}

#[test]
fn replace_overwrites_only_its_own_key() {
    let mut store = FakeCredentialStore::new();
    store.replace("h", CredentialKind::AccessToken, b"one").unwrap();
    store.replace("h", CredentialKind::RefreshToken, b"keep").unwrap();
    store.replace("other", CredentialKind::AccessToken, b"else").unwrap();
    store.replace("h", CredentialKind::AccessToken, b"two").unwrap();
    assert_eq!(store.read("h", CredentialKind::AccessToken), Ok(Some(b"two".to_vec())));
    assert_eq!(store.read("h", CredentialKind::RefreshToken), Ok(Some(b"keep".to_vec())));
    assert_eq!(store.read("other", CredentialKind::AccessToken), Ok(Some(b"else".to_vec())));
    store.delete("h", CredentialKind::AccessToken).unwrap();
    assert_eq!(store.read("h", CredentialKind::AccessToken), Ok(None));
    assert_eq!(store.read("h", CredentialKind::RefreshToken), Ok(Some(b"keep".to_vec())));
}
