//! The adapter's protected-credential lifecycle: snapshots, ordered writes with
//! compensation, disconnect deletion, and the derived connection state.
//!
//! Durable profile metadata is reached through a [`ProfileStore`], and
//! cancellation through the closure that each operation takes.

use vstd::prelude::*;
use vstd::utf8::{decode_utf8, encode_utf8, valid_utf8};

use crate::credentials::{
    CredentialKey, CredentialKind, CredentialStore, CredentialStoreError, CRED_MAX_CREDENTIAL_BLOB_SIZE,
};
use crate::openai_chatgpt::{CREDENTIAL_HANDLE, MODEL, PROVIDER_ID, REFRESH_SKEW_SECS};
use crate::provider::{ConnectionState, ConnectionStatus, PublicError};
use crate::text::{owned_string, string_eq_str, string_from_utf8, zeroize_bytes, zeroize_string};

verus! {

broadcast use vstd::utf8::encode_utf8_valid_utf8, vstd::utf8::encode_utf8_decode_utf8;

/// Read order of every protected value.
pub const ALL_CREDENTIAL_KINDS: [CredentialKind; 3] = [
    CredentialKind::RefreshToken,
    CredentialKind::AccessToken,
    CredentialKind::AccountId,
];

/// Keep the refresh credential until every other protected value is gone so a
/// partial disconnect remains visibly retryable rather than falsely disconnected.
pub const DELETE_CREDENTIAL_ORDER: [CredentialKind; 3] = [
    CredentialKind::AccountId,
    CredentialKind::AccessToken,
    CredentialKind::RefreshToken,
];

pub open spec fn adapter_key(kind: CredentialKind) -> CredentialKey {
    (CREDENTIAL_HANDLE@, kind)
}

pub open spec fn stored_value(m: Map<CredentialKey, Seq<u8>>, key: CredentialKey) -> Option<
    Seq<u8>,
> {
    if m.contains_key(key) {
        Some(m[key])
    } else {
        None
    }
}

proof fn lemma_same_values_same_map(a: Map<CredentialKey, Seq<u8>>, b: Map<CredentialKey, Seq<u8>>)
    requires
        forall|key: CredentialKey| #[trigger] stored_value(a, key) == stored_value(b, key),
    ensures
        a == b,
{
    assert forall|key: CredentialKey| #[trigger] a.contains_key(key) == b.contains_key(key) by {
        assert(stored_value(a, key) == stored_value(b, key));
    }
    assert forall|key: CredentialKey| #[trigger] a.contains_key(key) implies a[key] == b[key] by {
        assert(stored_value(a, key) == stored_value(b, key));
    }
    assert(a =~= b);
}

pub fn map_credential_error(error: CredentialStoreError) -> (r: PublicError)
    ensures
        r == PublicError::CredentialStoreUnavailable,
{
    match error {
        CredentialStoreError::ValueTooLarge => PublicError::CredentialStoreUnavailable,
        CredentialStoreError::Unavailable => PublicError::CredentialStoreUnavailable,
    }
}

/// The protected values as they were before a multi-step write.
pub struct CredentialSnapshot {
    pub entries: Vec<(CredentialKind, Option<Vec<u8>>)>,
}

pub open spec fn entry_value(entry: (CredentialKind, Option<Vec<u8>>)) -> Option<Seq<u8>> {
    match entry.1 {
        Some(v) => Some(v@),
        None => None,
    }
}

/// The value recorded for `kind`: that of the first entry of this kind.
pub open spec fn entries_value(
    entries: Seq<(CredentialKind, Option<Vec<u8>>)>,
    kind: CredentialKind,
) -> Option<Seq<u8>>
    decreases entries.len(),
{
    if entries.len() == 0 {
        None
    } else if entries[0].0 == kind {
        entry_value(entries[0])
    } else {
        entries_value(entries.drop_first(), kind)
    }
}

impl CredentialSnapshot {
    pub open spec fn spec_value(&self, kind: CredentialKind) -> Option<Seq<u8>> {
        entries_value(self.entries@, kind)
    }

    /// Whether the snapshot records, for every kind, what `m` held for the
    /// adapter's handle.
    pub open spec fn matches(&self, m: Map<CredentialKey, Seq<u8>>) -> bool {
        forall|kind: CredentialKind| #[trigger]
            self.spec_value(kind) == stored_value(m, adapter_key(kind))
    }

    pub fn value(&self, kind: CredentialKind) -> (r: Option<&[u8]>)
        ensures
            match r {
                Some(v) => self.spec_value(kind) == Some(v@),
                None => self.spec_value(kind) is None,
            },
    {
        let mut i: usize = 0;
        assert(self.entries@.subrange(0, self.entries@.len() as int) =~= self.entries@);
        while i < self.entries.len()
            invariant
                i <= self.entries@.len(),
                entries_value(self.entries@, kind) == entries_value(
                    self.entries@.subrange(i as int, self.entries@.len() as int),
                    kind,
                ),
            decreases self.entries@.len() - i,
        {
            let entry = &self.entries[i];
            let ghost rest = self.entries@.subrange(i as int, self.entries@.len() as int);
            assert(rest[0] == self.entries@[i as int]);
            if entry.0 == kind {
                return match &entry.1 {
                    Some(v) => Some(v.as_slice()),
                    None => None,
                };
            }
            assert(rest.drop_first() =~= self.entries@.subrange(
                i + 1,
                self.entries@.len() as int,
            ));
            i = i + 1;
        }
        None
    }

    /// Wipes every recorded value.
    pub fn zeroize(&mut self)
        ensures
            forall|i: int|
                0 <= i < final(self).entries@.len() ==> (entry_value(
                    #[trigger] final(self).entries@[i],
                ) matches Some(v) ==> v.len() == 0),
    {
        let mut entries: Vec<(CredentialKind, Option<Vec<u8>>)> = Vec::new();
        std::mem::swap(&mut entries, &mut self.entries);
        let mut wiped: Vec<(CredentialKind, Option<Vec<u8>>)> = Vec::new();
        while entries.len() > 0
            invariant
                forall|i: int|
                    0 <= i < wiped@.len() ==> (entry_value(#[trigger] wiped@[i]) matches Some(v)
                        ==> v.len() == 0),
            decreases entries@.len(),
        {
            let entry = entries.pop();
            if let Some((kind, value)) = entry {
                let value = match value {
                    Some(bytes) => {
                        let mut bytes = bytes;
                        zeroize_bytes(&mut bytes);
                        Some(bytes)
                    },
                    None => None,
                };
                wiped.push((kind, value));
            }
        }
        self.entries = wiped;
    }
}

fn read_kind<C: CredentialStore>(credentials: &mut C, kind: CredentialKind) -> (r: Result<
    Option<Vec<u8>>,
    PublicError,
>)
    requires
        old(credentials).inv(),
    ensures
        final(credentials).inv(),
        final(credentials).stored() == old(credentials).stored(),
        r matches Ok(v) ==> match v {
            Some(b) => stored_value(old(credentials).stored(), adapter_key(kind)) == Some(b@),
            None => stored_value(old(credentials).stored(), adapter_key(kind)) is None,
        },
        r matches Err(e) ==> e == PublicError::CredentialStoreUnavailable,
        old(credentials).reliable() ==> r is Ok && final(credentials).reliable(),
        old(credentials).fails_at_most_once() ==> final(credentials).fails_at_most_once() || final(credentials).reliable(),
        old(credentials).fails_at_most_once() && r is Err ==> final(credentials).reliable(),
{
    match credentials.read(CREDENTIAL_HANDLE, kind) {
        Ok(v) => Ok(v),
        Err(error) => Err(map_credential_error(error)),
    }
}

/// Reads every protected value of the adapter's handle.
pub fn credential_snapshot<C: CredentialStore>(credentials: &mut C) -> (r: Result<
    CredentialSnapshot,
    PublicError,
>)
    requires
        old(credentials).inv(),
    ensures
        final(credentials).inv(),
        final(credentials).stored() == old(credentials).stored(),
        r matches Ok(snapshot) ==> snapshot.matches(old(credentials).stored()),
        r matches Err(e) ==> e == PublicError::CredentialStoreUnavailable,
        old(credentials).reliable() ==> r is Ok && final(credentials).reliable(),
        old(credentials).fails_at_most_once() ==> final(credentials).fails_at_most_once() || final(credentials).reliable(),
        old(credentials).fails_at_most_once() && r is Err ==> final(credentials).reliable(),
{
    let refresh = read_kind(credentials, CredentialKind::RefreshToken)?;
    let access = read_kind(credentials, CredentialKind::AccessToken)?;
    let account = read_kind(credentials, CredentialKind::AccountId)?;
    let mut entries: Vec<(CredentialKind, Option<Vec<u8>>)> = Vec::new();
    entries.push((CredentialKind::RefreshToken, refresh));
    entries.push((CredentialKind::AccessToken, access));
    entries.push((CredentialKind::AccountId, account));
    let snapshot = CredentialSnapshot { entries };
    proof {
        let e = snapshot.entries@;
        assert(e.drop_first().drop_first().drop_first().len() == 0);
        assert forall|kind: CredentialKind| #[trigger]
            snapshot.spec_value(kind) == stored_value(old(credentials).stored(), adapter_key(kind)) by {
            assert(e.drop_first()[0] == e[1]);
            assert(e.drop_first().drop_first()[0] == e[2]);
            reveal_with_fuel(entries_value, 4);
        }
    }
    Ok(snapshot)
}

/// Whether every value a snapshot records fits the native blob limit.
pub open spec fn snapshot_fits(snapshot: CredentialSnapshot) -> bool {
    forall|kind: CredentialKind|
        #[trigger] snapshot.spec_value(kind) matches Some(v) ==> v.len()
            <= CRED_MAX_CREDENTIAL_BLOB_SIZE
}

/// Writes back the snapshot value of every changed kind, newest change first.
/// Returns whether every write-back succeeded.
pub fn restore_snapshot<C: CredentialStore>(
    credentials: &mut C,
    snapshot: &CredentialSnapshot,
    changed: &[CredentialKind],
) -> (restored: bool)
    requires
        old(credentials).inv(),
    ensures
        final(credentials).inv(),
        forall|key: CredentialKey|
            key.0 != CREDENTIAL_HANDLE@ || !changed@.contains(key.1) ==> #[trigger] stored_value(
                final(credentials).stored(),
                key,
            ) == stored_value(old(credentials).stored(), key),
        restored ==> forall|kind: CredentialKind|
            changed@.contains(kind) ==> #[trigger] stored_value(
                final(credentials).stored(),
                adapter_key(kind),
            ) == snapshot.spec_value(kind),
        changed@.len() == 0 ==> restored && final(credentials).stored() == old(credentials).stored(),
        old(credentials).reliable() ==> final(credentials).reliable(),
        old(credentials).reliable() && snapshot_fits(*snapshot) ==> restored,
        forall|kind: CredentialKind| #[trigger]
            stored_value(final(credentials).stored(), adapter_key(kind)) == snapshot.spec_value(kind)
                || stored_value(final(credentials).stored(), adapter_key(kind)) == stored_value(
                old(credentials).stored(),
                adapter_key(kind),
            ),
{
    let mut restored = true;
    let mut idx: usize = changed.len();
    while idx > 0
        invariant
            idx <= changed@.len(),
            credentials.inv(),
            forall|key: CredentialKey|
                key.0 != CREDENTIAL_HANDLE@ || !changed@.subrange(
                    idx as int,
                    changed@.len() as int,
                ).contains(key.1) ==> #[trigger] stored_value(credentials.stored(), key)
                    == stored_value(old(credentials).stored(), key),
            restored ==> forall|kind: CredentialKind|
                changed@.subrange(idx as int, changed@.len() as int).contains(kind)
                    ==> #[trigger] stored_value(credentials.stored(), adapter_key(kind))
                    == snapshot.spec_value(kind),
            changed@.len() == 0 ==> restored && credentials.stored() == old(credentials).stored(),
            old(credentials).reliable() ==> credentials.reliable(),
            old(credentials).reliable() && snapshot_fits(*snapshot) ==> restored,
            forall|kind: CredentialKind| #[trigger]
                stored_value(credentials.stored(), adapter_key(kind)) == snapshot.spec_value(kind)
                    || stored_value(credentials.stored(), adapter_key(kind)) == stored_value(
                    old(credentials).stored(),
                    adapter_key(kind),
                ),
        decreases idx,
    {
        let ghost before = credentials.stored();
        let ghost tail = changed@.subrange(idx as int, changed@.len() as int);
        idx = idx - 1;
        let kind = changed[idx];
        let ghost now_tail = changed@.subrange(idx as int, changed@.len() as int);
        assert(now_tail =~= seq![kind] + tail);
        assert forall|k: CredentialKind| now_tail.contains(k) <==> (k == kind || tail.contains(k)) by {
            if now_tail.contains(k) {
                let w = choose|w: int| 0 <= w < now_tail.len() && now_tail[w] == k;
                if w > 0 {
                    assert(tail[w - 1] == k);
                }
            }
            if tail.contains(k) {
                let w = choose|w: int| 0 <= w < tail.len() && tail[w] == k;
                assert(now_tail[w + 1] == k);
            }
            if k == kind {
                assert(now_tail[0] == k);
            }
        }
        let ok = match snapshot.value(kind) {
            Some(value) => credentials.replace(CREDENTIAL_HANDLE, kind, value).is_ok(),
            None => credentials.delete(CREDENTIAL_HANDLE, kind).is_ok(),
        };
        proof {
            assert forall|key: CredentialKey| key != adapter_key(kind) implies #[trigger] stored_value(
                credentials.stored(),
                key,
            ) == stored_value(before, key) by {}
        }
        restored = restored && ok;
    }
    assert(changed@.subrange(0, changed@.len() as int) =~= changed@);
    restored
}

/// Metadata of the built-in provider profile that records a committed
/// credential set: its handle, access expiry and last update time.
pub struct ProviderCredentialMetadata {
    pub credential_handle: Option<String>,
    pub access_token_expires_at_unix_ms: Option<i64>,
    pub updated_at_unix_ms: i64,
}

impl ProviderCredentialMetadata {
    pub fn set_credential_metadata(
        &mut self,
        credential_handle: Option<String>,
        access_token_expires_at_unix_ms: Option<i64>,
        now_unix_ms: i64,
    )
        ensures
            final(self).credential_handle == credential_handle,
            final(self).access_token_expires_at_unix_ms == access_token_expires_at_unix_ms,
            final(self).updated_at_unix_ms == now_unix_ms,
    {
        self.credential_handle = credential_handle;
        self.access_token_expires_at_unix_ms = access_token_expires_at_unix_ms;
        self.updated_at_unix_ms = now_unix_ms;
    }

    pub fn duplicate(&self) -> (r: Self)
        ensures
            r == *self,
    {
        ProviderCredentialMetadata {
            credential_handle: match &self.credential_handle {
                Some(handle) => Some(handle.clone()),
                None => None,
            },
            access_token_expires_at_unix_ms: self.access_token_expires_at_unix_ms,
            updated_at_unix_ms: self.updated_at_unix_ms,
        }
    }
}

#[derive(Debug, Clone, Copy, PartialEq, Eq, Structural)]
pub enum TokenPersistence {
    Initial,
    Rotation,
}

/// Token values obtained from the token endpoint.
pub struct TokenValues {
    pub access: String,
    pub refresh: String,
    pub account: String,
    pub expires_at_unix_ms: Option<i64>,
    pub preserve_refresh: bool,
}

impl TokenValues {
    pub fn zeroize(&mut self)
        ensures
            final(self).access@ == Seq::<char>::empty(),
            final(self).refresh@ == Seq::<char>::empty(),
            final(self).account@ == Seq::<char>::empty(),
            final(self).expires_at_unix_ms == old(self).expires_at_unix_ms,
            final(self).preserve_refresh == old(self).preserve_refresh,
    {
        zeroize_string(&mut self.access);
        zeroize_string(&mut self.refresh);
        zeroize_string(&mut self.account);
    }
}

/// Whether a token set may be persisted: access and account are present, and
/// an initial connection carries its own refresh credential.
pub open spec fn token_values_acceptable(token: TokenValues, persistence: TokenPersistence) -> bool {
    &&& token.access@.len() != 0
    &&& token.account@.len() != 0
    &&& persistence == TokenPersistence::Initial ==> !token.preserve_refresh && token.refresh@.len()
        != 0
}

/// The bytes that a token set stores for a kind.
pub open spec fn token_bytes(token: TokenValues, kind: CredentialKind) -> Seq<u8> {
    encode_utf8(
        match kind {
            CredentialKind::RefreshToken => token.refresh@,
            CredentialKind::AccessToken => token.access@,
            CredentialKind::AccountId => token.account@,
        },
    )
}

/// Whether every value that a token set writes fits the native blob limit.
pub open spec fn token_fits(token: TokenValues) -> bool {
    forall|kind: CredentialKind|
        write_steps_spec(token.preserve_refresh).contains(kind) ==> #[trigger] token_bytes(
            token,
            kind,
        ).len() <= CRED_MAX_CREDENTIAL_BLOB_SIZE
}

/// The kinds a token set writes, in write order.
pub open spec fn write_steps_spec(preserve_refresh: bool) -> Seq<CredentialKind> {
    if preserve_refresh {
        seq![CredentialKind::AccessToken, CredentialKind::AccountId]
    } else {
        seq![CredentialKind::RefreshToken, CredentialKind::AccessToken, CredentialKind::AccountId]
    }
}

/// What the guarded final profile commit reports.
#[derive(Debug, Clone, Copy, PartialEq, Eq, Structural)]
pub enum CommitOutcome {
    /// The profile now names the credential set.
    Committed,
    /// The operation was cancelled or superseded before the commit.
    Cancelled,
    /// The connect guard could not be taken.
    GuardUnavailable,
    /// The durable profile write failed.
    StorageUnavailable,
}

/// The durable row of the built-in provider profile.
///
/// A read gives the row; an accepted update or commit writes exactly the
/// given metadata; a refused one changes nothing. A store that accepts
/// refuses nothing and keeps accepting.
pub trait ProfileStore {
    /// The stored row, if the profile exists.
    spec fn row(&self) -> Option<ProviderCredentialMetadata>;

    /// Whether the store currently accepts every read, update and commit.
    spec fn accepts(&self) -> bool;

    fn read(&self) -> (r: Result<Option<ProviderCredentialMetadata>, ()>)
        ensures
            r is Ok ==> r == Ok::<Option<ProviderCredentialMetadata>, ()>(self.row()),
            self.accepts() ==> r is Ok,
    ;

    fn update(&mut self, m: &ProviderCredentialMetadata) -> (ok: bool)
        ensures
            ok ==> final(self).row() == Some(*m),
            !ok ==> final(self).row() == old(self).row(),
            final(self).accepts() == old(self).accepts(),
            old(self).accepts() ==> ok,
    ;

    /// The guarded final commit of a credential set.
    fn commit(&mut self, m: &ProviderCredentialMetadata) -> (o: CommitOutcome)
        ensures
            o == CommitOutcome::Committed ==> final(self).row() == Some(*m),
            o != CommitOutcome::Committed ==> final(self).row() == old(self).row(),
            final(self).accepts() == old(self).accepts(),
            old(self).accepts() ==> o == CommitOutcome::Committed,
    ;
}

/// An in-memory profile row that accepts every write or refuses every
/// write, a refused commit reporting the storage as unavailable.
pub struct MemoryProfileStore {
    pub row: Option<ProviderCredentialMetadata>,
    pub writable: bool,
}

impl MemoryProfileStore {
    pub fn new(row: Option<ProviderCredentialMetadata>, writable: bool) -> (s: Self)
        ensures
            s.row == row,
            s.writable == writable,
    {
        MemoryProfileStore { row, writable }
    }
}

impl ProfileStore for MemoryProfileStore {
    open spec fn row(&self) -> Option<ProviderCredentialMetadata> {
        self.row
    }

    open spec fn accepts(&self) -> bool {
        self.writable
    }

    fn read(&self) -> (r: Result<Option<ProviderCredentialMetadata>, ()>) {
        match &self.row {
            Some(m) => Ok(Some(m.duplicate())),
            None => Ok(None),
        }
    }

    fn update(&mut self, m: &ProviderCredentialMetadata) -> (ok: bool) {
        if self.writable {
            self.row = Some(m.duplicate());
        }
        self.writable
    }

    fn commit(&mut self, m: &ProviderCredentialMetadata) -> (o: CommitOutcome) {
        if self.writable {
            self.row = Some(m.duplicate());
            CommitOutcome::Committed
        } else {
            CommitOutcome::StorageUnavailable
        }
    }
}

/// Whether every stored value of the adapter fits the native blob limit.
pub open spec fn stored_fits(m: Map<CredentialKey, Seq<u8>>) -> bool {
    forall|kind: CredentialKind|
        #[trigger] stored_value(m, adapter_key(kind)) matches Some(v) ==> v.len()
            <= CRED_MAX_CREDENTIAL_BLOB_SIZE
}

fn restore_persistence_state<C: CredentialStore, P: ProfileStore>(
    credentials: &mut C,
    profiles: &mut P,
    snapshot: &CredentialSnapshot,
    changed: &[CredentialKind],
    profile: &ProviderCredentialMetadata,
) -> (restored: bool)
    requires
        old(credentials).inv(),
    ensures
        final(credentials).inv(),
        forall|key: CredentialKey|
            key.0 != CREDENTIAL_HANDLE@ || !changed@.contains(key.1) ==> #[trigger] stored_value(
                final(credentials).stored(),
                key,
            ) == stored_value(old(credentials).stored(), key),
        restored ==> forall|kind: CredentialKind|
            changed@.contains(kind) ==> #[trigger] stored_value(
                final(credentials).stored(),
                adapter_key(kind),
            ) == snapshot.spec_value(kind),
        restored ==> final(profiles).row() == Some(*profile),
        !restored ==> final(profiles).row() == old(profiles).row(),
        changed@.len() == 0 ==> final(credentials).stored() == old(credentials).stored(),
        old(credentials).reliable() ==> final(credentials).reliable(),
        final(profiles).accepts() == old(profiles).accepts(),
        old(credentials).reliable() && snapshot_fits(*snapshot) && old(profiles).accepts()
            ==> restored,
{
    if !restore_snapshot(credentials, snapshot, changed) {
        return false;
    }
    profiles.update(profile)
}

/// Compensates a failed multi-step write: restores the snapshot and the
/// prior profile, then reports `error`, or fails closed when restoration
/// itself failed.
fn abandon_writes<C: CredentialStore, P: ProfileStore>(
    credentials: &mut C,
    profiles: &mut P,
    reconnect_required: &mut bool,
    token: &mut TokenValues,
    snapshot: &CredentialSnapshot,
    written: &[CredentialKind],
    prior_profile: &ProviderCredentialMetadata,
    error: PublicError,
) -> (r: Result<(), PublicError>)
    requires
        old(credentials).inv(),
    ensures
        final(credentials).inv(),
        final(token).access@.len() == 0,
        final(token).refresh@.len() == 0,
        final(token).account@.len() == 0,
        forall|key: CredentialKey|
            key.0 != CREDENTIAL_HANDLE@ || !written@.contains(key.1) ==> #[trigger] stored_value(
                final(credentials).stored(),
                key,
            ) == stored_value(old(credentials).stored(), key),
        old(credentials).reliable() ==> final(credentials).reliable(),
        final(profiles).accepts() == old(profiles).accepts(),
        (r == Err::<(), PublicError>(error) && *final(reconnect_required) == *old(reconnect_required) && final(profiles).row() == Some(*prior_profile) && forall|kind: CredentialKind|
            written@.contains(kind) ==> #[trigger] stored_value(
                final(credentials).stored(),
                adapter_key(kind),
            ) == snapshot.spec_value(kind)) || (r == Err::<(), PublicError>(
            PublicError::CredentialStoreUnavailable,
        ) && *final(reconnect_required)),
        old(credentials).reliable() && snapshot_fits(*snapshot) && old(profiles).accepts() ==> r
            == Err::<(), PublicError>(error) && *final(reconnect_required) == *old(reconnect_required)
            && final(profiles).row() == Some(*prior_profile) && forall|kind: CredentialKind|
            written@.contains(kind) ==> #[trigger] stored_value(
                final(credentials).stored(),
                adapter_key(kind),
            ) == snapshot.spec_value(kind),
{
    let restored = restore_persistence_state(
        credentials,
        profiles,
        snapshot,
        written,
        prior_profile,
    );
    token.zeroize();
    if !restored {
        *reconnect_required = true;
        return Err(PublicError::CredentialStoreUnavailable);
    }
    Err(error)
}

fn token_value_bytes<'a>(token: &'a TokenValues, kind: CredentialKind) -> (r: &'a [u8])
    ensures
        r@ == token_bytes(*token, kind),
{
    match kind {
        CredentialKind::RefreshToken => token.refresh.as_str().as_bytes(),
        CredentialKind::AccessToken => token.access.as_str().as_bytes(),
        CredentialKind::AccountId => token.account.as_str().as_bytes(),
    }
}

/// Writes the token's protected values in order. A failed write or a
/// cancellation after a write compensates through [`abandon_writes`].
fn write_token_credentials<
    C: CredentialStore,
    K: Fn() -> bool,
    P: ProfileStore,
>(
    credentials: &mut C,
    profiles: &mut P,
    reconnect_required: &mut bool,
    token: &mut TokenValues,
    snapshot: &CredentialSnapshot,
    written: &mut Vec<CredentialKind>,
    prior_profile: &ProviderCredentialMetadata,
    is_cancelled: &K,
) -> (r: Result<(), PublicError>)
    requires
        old(credentials).inv(),
        snapshot.matches(old(credentials).stored()),
        old(written)@.len() == 0,
        call_requires(*is_cancelled, ()),
    ensures
        final(credentials).inv(),
        forall|key: CredentialKey|
            key.0 != CREDENTIAL_HANDLE@ ==> #[trigger] stored_value(final(credentials).stored(), key)
                == stored_value(old(credentials).stored(), key),
        r is Ok ==> {
            &&& *final(token) == *old(token)
            &&& *final(reconnect_required) == *old(reconnect_required)
            &&& final(written)@ == write_steps_spec(old(token).preserve_refresh)
            &&& forall|kind: CredentialKind|
                final(written)@.contains(kind) ==> #[trigger] stored_value(
                    final(credentials).stored(),
                    adapter_key(kind),
                ) == Some(token_bytes(*old(token), kind))
            &&& forall|kind: CredentialKind|
                !final(written)@.contains(kind) ==> #[trigger] stored_value(
                    final(credentials).stored(),
                    adapter_key(kind),
                ) == stored_value(old(credentials).stored(), adapter_key(kind))
        },
        r is Err ==> final(credentials).stored() == old(credentials).stored() || (r
            == Err::<(), PublicError>(PublicError::CredentialStoreUnavailable)
            && *final(reconnect_required)),
        r is Err ==> r == Err::<(), PublicError>(PublicError::Cancelled) || r == Err::<
            (),
            PublicError,
        >(PublicError::CredentialStoreUnavailable),
        r == Err::<(), PublicError>(PublicError::Cancelled) ==> final(credentials).stored() == old(credentials).stored(),
        r is Err ==> (final(credentials).stored() == old(credentials).stored()
            && *final(reconnect_required) == *old(reconnect_required) && final(profiles).row()
            == Some(*prior_profile) && (r == Err::<(), PublicError>(PublicError::CredentialStoreUnavailable) || (r
            == Err::<(), PublicError>(PublicError::Cancelled) && call_ensures(
            *is_cancelled,
            (),
            true,
        )))) || (r == Err::<(), PublicError>(PublicError::CredentialStoreUnavailable)
            && *final(reconnect_required)),
        old(credentials).reliable() ==> final(credentials).reliable(),
        final(profiles).accepts() == old(profiles).accepts(),
        r is Ok ==> final(profiles).row() == old(profiles).row(),
        old(credentials).reliable() && snapshot_fits(*snapshot) && old(profiles).accepts() && r is Err
            ==> final(credentials).stored() == old(credentials).stored() && *final(reconnect_required)
            == *old(reconnect_required) && final(profiles).row() == Some(*prior_profile),
        old(credentials).reliable() && token_fits(*old(token)) && (forall|b: bool|
            call_ensures(*is_cancelled, (), b) ==> !b) ==> r is Ok,
        (old(credentials).reliable() || old(credentials).fails_at_most_once()) && snapshot_fits(
            *snapshot,
        ) && token_fits(*old(token)) && old(profiles).accepts() && (forall|b: bool|
            call_ensures(*is_cancelled, (), b) ==> !b) && r is Err ==> r == Err::<
            (),
            PublicError,
        >(PublicError::CredentialStoreUnavailable) && final(credentials).stored() == old(credentials).stored() && *final(reconnect_required) == *old(reconnect_required) && final(profiles).row() == Some(*prior_profile),
{
    let ghost initial = credentials.stored();
    let ghost initial_token = *token;
    let mut steps: Vec<CredentialKind> = Vec::new();
    if !token.preserve_refresh {
        steps.push(CredentialKind::RefreshToken);
    }
    steps.push(CredentialKind::AccessToken);
    steps.push(CredentialKind::AccountId);
    assert(steps@ =~= write_steps_spec(initial_token.preserve_refresh));
    let mut idx: usize = 0;
    while idx < steps.len()
        invariant
            idx <= steps@.len(),
            steps@ == write_steps_spec(initial_token.preserve_refresh),
            written@ == steps@.subrange(0, idx as int),
            *token == initial_token,
            initial_token == *old(token),
            initial == old(credentials).stored(),
            credentials.inv(),
            snapshot.matches(initial),
            *reconnect_required == *old(reconnect_required),
            written@.len() == idx,
            call_requires(*is_cancelled, ()),
            profiles.row() == old(profiles).row(),
            profiles.accepts() == old(profiles).accepts(),
            forall|key: CredentialKey|
                key.0 != CREDENTIAL_HANDLE@ || !written@.contains(key.1) ==> #[trigger] stored_value(
                    credentials.stored(),
                    key,
                ) == stored_value(initial, key),
            forall|kind: CredentialKind|
                written@.contains(kind) ==> #[trigger] stored_value(
                    credentials.stored(),
                    adapter_key(kind),
                ) == Some(token_bytes(initial_token, kind)),
            old(credentials).reliable() ==> credentials.reliable(),
            old(credentials).fails_at_most_once() ==> credentials.fails_at_most_once()
                || credentials.reliable(),
        decreases steps@.len() - idx,
    {
        let kind = steps[idx];
        let ghost before = credentials.stored();
        let replaced = credentials.replace(CREDENTIAL_HANDLE, kind, token_value_bytes(token, kind));
        match replaced {
            Ok(()) => {
                written.push(kind);
                proof {
                    assert(steps@.subrange(0, idx + 1) =~= steps@.subrange(0, idx as int).push(kind));
                    assert forall|k: CredentialKind|
                        written@.contains(k) <==> (k == kind || steps@.subrange(0, idx as int).contains(k)) by {
                        let prev = steps@.subrange(0, idx as int);
                        if written@.contains(k) {
                            let w = choose|w: int| 0 <= w < written@.len() && written@[w] == k;
                            if w < prev.len() {
                                assert(prev[w] == k);
                            }
                        }
                        if prev.contains(k) {
                            let w = choose|w: int| 0 <= w < prev.len() && prev[w] == k;
                            assert(written@[w] == k);
                        }
                        if k == kind {
                            assert(written@[idx as int] == k);
                        }
                    }
                    assert forall|key: CredentialKey| key != adapter_key(kind) implies #[trigger] stored_value(
                        credentials.stored(),
                        key,
                    ) == stored_value(before, key) by {}
                }
            },
            Err(error) => {
                let failure = map_credential_error(error);
                let r = abandon_writes(
                    credentials,
                    profiles,
                    reconnect_required,
                    token,
                    snapshot,
                    written.as_slice(),
                    prior_profile,
                    failure,
                );
                proof {
                    if forall|kind: CredentialKind| written@.contains(kind) ==> #[trigger] stored_value(
                    credentials.stored(),
                    adapter_key(kind),
                ) == snapshot.spec_value(kind) {
                    lemma_restored_is_initial(initial, credentials.stored(), *snapshot, written@);
                }
                }
                    return r;
            },
        }
        idx = idx + 1;
        if is_cancelled() {
            let r = abandon_writes(
                credentials,
                profiles,
                reconnect_required,
                token,
                snapshot,
                written.as_slice(),
                prior_profile,
                PublicError::Cancelled,
            );
            proof {
                if forall|kind: CredentialKind| written@.contains(kind) ==> #[trigger] stored_value(
                    credentials.stored(),
                    adapter_key(kind),
                ) == snapshot.spec_value(kind) {
                    lemma_restored_is_initial(initial, credentials.stored(), *snapshot, written@);
                }
            }
            return r;
        }
    }
    proof {
        assert(written@ =~= steps@.subrange(0, steps@.len() as int));
        assert(steps@.subrange(0, steps@.len() as int) =~= steps@);
    }
    Ok(())
}

/// The profile with its commit marker cleared at `now`: no credential
/// handle and no access expiry.
pub open spec fn cleared_profile(m: ProviderCredentialMetadata, now: i64) -> bool {
    &&& m.credential_handle is None
    &&& m.access_token_expires_at_unix_ms is None
    &&& m.updated_at_unix_ms == now
}

/// The profile committed at `now` for a credential set: it names the
/// adapter's credential handle and the access expiry.
pub open spec fn committed_profile(m: ProviderCredentialMetadata, expires: Option<i64>, now: i64) -> bool {
    &&& m.credential_handle matches Some(h) && h@ == CREDENTIAL_HANDLE@
    &&& m.access_token_expires_at_unix_ms == expires
    &&& m.updated_at_unix_ms == now
}

/// The error that a refused commit reports; none for a commit.
pub open spec fn commit_error_spec(outcome: CommitOutcome) -> Option<PublicError> {
    match outcome {
        CommitOutcome::Committed => None,
        CommitOutcome::Cancelled => Some(PublicError::Cancelled),
        CommitOutcome::GuardUnavailable => Some(PublicError::ProviderUnavailable),
        CommitOutcome::StorageUnavailable => Some(PublicError::AgentStorageUnavailable),
    }
}

/// The error that a refused commit reports; none for a commit.
pub fn commit_error(outcome: CommitOutcome) -> (r: Option<PublicError>)
    ensures
        r == commit_error_spec(outcome),
{
    match outcome {
        CommitOutcome::Committed => None,
        CommitOutcome::Cancelled => Some(PublicError::Cancelled),
        CommitOutcome::GuardUnavailable => Some(PublicError::ProviderUnavailable),
        CommitOutcome::StorageUnavailable => Some(PublicError::AgentStorageUnavailable),
    }
}

/// Whether a failed persist left everything as it was: the protected values,
/// the profile row and the reconnection flag.
pub open spec fn persist_unchanged(
    before: Map<CredentialKey, Seq<u8>>,
    after: Map<CredentialKey, Seq<u8>>,
    row_before: Option<ProviderCredentialMetadata>,
    row_after: Option<ProviderCredentialMetadata>,
    reconnect_before: bool,
    reconnect_after: bool,
) -> bool {
    &&& after == before
    &&& row_after == row_before
    &&& reconnect_after == reconnect_before
}

/// What a persisted token set leaves: its access token and account stored,
/// its refresh credential stored unless the set preserves the previous one,
/// the profile committed at `now` for it, and no reconnection required.
pub open spec fn token_set_persisted(
    before: Map<CredentialKey, Seq<u8>>,
    after: Map<CredentialKey, Seq<u8>>,
    row_after: Option<ProviderCredentialMetadata>,
    reconnect_after: bool,
    token: TokenValues,
    now_unix_ms: Option<i64>,
) -> bool {
    &&& !reconnect_after
    &&& stored_value(after, adapter_key(CredentialKind::AccessToken)) == Some(
        token_bytes(token, CredentialKind::AccessToken),
    )
    &&& stored_value(after, adapter_key(CredentialKind::AccountId)) == Some(
        token_bytes(token, CredentialKind::AccountId),
    )
    &&& stored_value(after, adapter_key(CredentialKind::RefreshToken)) == if token.preserve_refresh {
        stored_value(before, adapter_key(CredentialKind::RefreshToken))
    } else {
        Some(token_bytes(token, CredentialKind::RefreshToken))
    }
    &&& now_unix_ms is Some
    &&& row_after matches Some(m) && committed_profile(m, token.expires_at_unix_ms, now_unix_ms->Some_0)
}

/// Persists a token set: clears the profile's commit marker, writes the
/// protected values in order, then commits the profile metadata. Any failure
/// after the marker was cleared restores the snapshot and the prior profile
/// row; when that restoration fails the adapter is marked as requiring
/// reconnection.
pub fn persist_tokens<C: CredentialStore, K: Fn() -> bool, P: ProfileStore>(
    credentials: &mut C,
    profiles: &mut P,
    reconnect_required: &mut bool,
    token: TokenValues,
    persistence: TokenPersistence,
    now_unix_ms: Option<i64>,
    is_cancelled: K,
) -> (r: Result<(), PublicError>)
    requires
        old(credentials).inv(),
        call_requires(is_cancelled, ()),
    ensures
        final(credentials).inv(),
        final(profiles).accepts() == old(profiles).accepts(),
        forall|key: CredentialKey|
            key.0 != CREDENTIAL_HANDLE@ ==> #[trigger] stored_value(final(credentials).stored(), key)
                == stored_value(old(credentials).stored(), key),
        !token_values_acceptable(token, persistence) ==> r == Err::<(), PublicError>(
            PublicError::ProviderUnavailable,
        ) && persist_unchanged(
            old(credentials).stored(),
            final(credentials).stored(),
            old(profiles).row(),
            final(profiles).row(),
            *old(reconnect_required),
            *final(reconnect_required),
        ),
        r is Ok ==> token_set_persisted(
            old(credentials).stored(),
            final(credentials).stored(),
            final(profiles).row(),
            *final(reconnect_required),
            token,
            now_unix_ms,
        ),
        r is Err ==> persist_unchanged(
            old(credentials).stored(),
            final(credentials).stored(),
            old(profiles).row(),
            final(profiles).row(),
            *old(reconnect_required),
            *final(reconnect_required),
        ) || (r == Err::<(), PublicError>(PublicError::CredentialStoreUnavailable)
            && *final(reconnect_required)),
        r is Err ==> r == Err::<(), PublicError>(PublicError::ProviderUnavailable) || r == Err::<
            (),
            PublicError,
        >(PublicError::Cancelled) || r == Err::<(), PublicError>(
            PublicError::AgentStorageUnavailable,
        ) || r == Err::<(), PublicError>(PublicError::CredentialStoreUnavailable),
        token_values_acceptable(token, persistence) && (old(profiles).row() is None
            || now_unix_ms is None) ==> r is Err && persist_unchanged(
            old(credentials).stored(),
            final(credentials).stored(),
            old(profiles).row(),
            final(profiles).row(),
            *old(reconnect_required),
            *final(reconnect_required),
        ),
        old(credentials).reliable() && stored_fits(old(credentials).stored()) && old(profiles).accepts() && r is Err ==> persist_unchanged(
            old(credentials).stored(),
            final(credentials).stored(),
            old(profiles).row(),
            final(profiles).row(),
            *old(reconnect_required),
            *final(reconnect_required),
        ),
        old(credentials).reliable() && token_values_acceptable(token, persistence) && token_fits(
            token,
        ) && old(profiles).accepts() && old(profiles).row() is Some && now_unix_ms is Some && (
        forall|b: bool| #[trigger] call_ensures(is_cancelled, (), b) ==> !b) ==> r is Ok,
        token_values_acceptable(token, persistence) && old(profiles).accepts() && old(profiles).row() is Some && now_unix_ms is Some && (forall|b: bool|
            #[trigger] call_ensures(is_cancelled, (), b) ==> !b) && r is Err ==> r == Err::<
            (),
            PublicError,
        >(PublicError::CredentialStoreUnavailable),
        old(credentials).fails_at_most_once() && stored_fits(old(credentials).stored())
            && token_values_acceptable(token, persistence) && token_fits(token) && old(profiles).accepts() && old(profiles).row() is Some && now_unix_ms is Some && (forall|b: bool|
            #[trigger] call_ensures(is_cancelled, (), b) ==> !b) ==> r is Ok || (r == Err::<
            (),
            PublicError,
        >(PublicError::CredentialStoreUnavailable) && persist_unchanged(
            old(credentials).stored(),
            final(credentials).stored(),
            old(profiles).row(),
            final(profiles).row(),
            *old(reconnect_required),
            *final(reconnect_required),
        )),
{
    let ghost initial = credentials.stored();
    let ghost initial_row = profiles.row();
    let ghost initial_token = token;
    let mut token = token;
    if token.access.as_str().is_empty() || token.account.as_str().is_empty() || (persistence
        == TokenPersistence::Initial && (token.preserve_refresh
        || token.refresh.as_str().is_empty())) {
        token.zeroize();
        return Err(PublicError::ProviderUnavailable);
    }
    if is_cancelled() {
        token.zeroize();
        return Err(PublicError::Cancelled);
    }
    let mut profile = match profiles.read() {
        Ok(Some(profile)) => profile,
        _ => return Err(PublicError::AgentStorageUnavailable),
    };
    let now = match now_unix_ms {
        Some(now) => now,
        None => return Err(PublicError::AgentStorageUnavailable),
    };
    let mut snapshot = credential_snapshot(credentials)?;
    if is_cancelled() {
        token.zeroize();
        snapshot.zeroize();
        return Err(PublicError::Cancelled);
    }
    let prior_profile = profile.duplicate();
    assert(initial_row == Some(prior_profile));
    proof {
        if stored_fits(initial) {
            assert(snapshot_fits(snapshot));
        }
    }
    profile.set_credential_metadata(None, None, now);
    if !profiles.update(&profile) {
        token.zeroize();
        snapshot.zeroize();
        return Err(PublicError::AgentStorageUnavailable);
    }
    let mut written: Vec<CredentialKind> = Vec::new();
    let written_result = write_token_credentials(
        credentials,
        profiles,
        reconnect_required,
        &mut token,
        &snapshot,
        &mut written,
        &prior_profile,
        &is_cancelled,
    );
    if written_result.is_err() {
        snapshot.zeroize();
        return written_result;
    }
    profile.set_credential_metadata(
        Some(owned_string(CREDENTIAL_HANDLE)),
        token.expires_at_unix_ms,
        now,
    );
    let outcome = profiles.commit(&profile);
    let failure = commit_error(outcome);
    if let Some(error) = failure {
        let r = abandon_writes(
            credentials,
            profiles,
            reconnect_required,
            &mut token,
            &snapshot,
            written.as_slice(),
            &prior_profile,
            error,
        );
        proof {
            if forall|kind: CredentialKind| written@.contains(kind) ==> #[trigger] stored_value(
                    credentials.stored(),
                    adapter_key(kind),
                ) == snapshot.spec_value(kind) {
                    lemma_restored_is_initial(initial, credentials.stored(), snapshot, written@);
                }
        }
        snapshot.zeroize();
        return r;
    }
    proof {
        let s = write_steps_spec(initial_token.preserve_refresh);
        assert(s.contains(CredentialKind::AccessToken)) by {
            if initial_token.preserve_refresh {
                assert(s[0] == CredentialKind::AccessToken);
            } else {
                assert(s[1] == CredentialKind::AccessToken);
            }
        }
        assert(s.contains(CredentialKind::AccountId)) by {
            if initial_token.preserve_refresh {
                assert(s[1] == CredentialKind::AccountId);
            } else {
                assert(s[2] == CredentialKind::AccountId);
            }
        }
        if !initial_token.preserve_refresh {
            assert(s[0] == CredentialKind::RefreshToken);
        } else {
            assert(!s.contains(CredentialKind::RefreshToken)) by {
                if s.contains(CredentialKind::RefreshToken) {
                    let w = choose|w: int| 0 <= w < s.len() && s[w] == CredentialKind::RefreshToken;
                }
            }
        }
    }
    token.zeroize();
    snapshot.zeroize();
    *reconnect_required = false;
    Ok(())
}

/// The refresh credential outlasts the other protected values: where it was
/// present and is gone, the access token and account are gone too, so a
/// partly removed connection still reads as retryable.
pub open spec fn refresh_kept_while_others_remain(
    before: Map<CredentialKey, Seq<u8>>,
    after: Map<CredentialKey, Seq<u8>>,
) -> bool {
    stored_value(before, adapter_key(CredentialKind::RefreshToken)) is Some && stored_value(
        after,
        adapter_key(CredentialKind::RefreshToken),
    ) is None ==> stored_value(after, adapter_key(CredentialKind::AccessToken)) is None
        && stored_value(after, adapter_key(CredentialKind::AccountId)) is None
}

/// The position of a kind in [`DELETE_CREDENTIAL_ORDER`].
pub open spec fn delete_rank(kind: CredentialKind) -> int {
    match kind {
        CredentialKind::AccountId => 0,
        CredentialKind::AccessToken => 1,
        CredentialKind::RefreshToken => 2,
    }
}

/// The first `n` kinds of the deletion order are gone from the adapter's
/// handle and the other kinds hold what they held before.
pub open spec fn deleted_first(
    before: Map<CredentialKey, Seq<u8>>,
    after: Map<CredentialKey, Seq<u8>>,
    n: int,
) -> bool {
    forall|kind: CredentialKind| #[trigger]
        stored_value(after, adapter_key(kind)) == if delete_rank(kind) < n {
            None
        } else {
            stored_value(before, adapter_key(kind))
        }
}

/// Every protected value of the adapter either holds what it held before or
/// is gone.
pub open spec fn kept_or_removed(
    before: Map<CredentialKey, Seq<u8>>,
    after: Map<CredentialKey, Seq<u8>>,
) -> bool {
    forall|kind: CredentialKind|
        #[trigger] stored_value(after, adapter_key(kind)) == stored_value(before, adapter_key(kind))
            || stored_value(after, adapter_key(kind)) is None
}

proof fn lemma_restored_is_initial(
    initial: Map<CredentialKey, Seq<u8>>,
    now: Map<CredentialKey, Seq<u8>>,
    snapshot: CredentialSnapshot,
    changed: Seq<CredentialKind>,
)
    requires
        snapshot.matches(initial),
        forall|key: CredentialKey|
            key.0 != CREDENTIAL_HANDLE@ || !changed.contains(key.1) ==> #[trigger] stored_value(
                now,
                key,
            ) == stored_value(initial, key),
        forall|kind: CredentialKind|
            changed.contains(kind) ==> #[trigger] stored_value(now, adapter_key(kind))
                == snapshot.spec_value(kind),
    ensures
        now == initial,
{
    assert forall|key: CredentialKey| #[trigger] stored_value(now, key) == stored_value(initial, key) by {
        if key.0 == CREDENTIAL_HANDLE@ && changed.contains(key.1) {
            assert(stored_value(now, adapter_key(key.1)) == snapshot.spec_value(key.1));
        }
    }
    lemma_same_values_same_map(now, initial);
}

/// Undoes a failed removal when asked to: writes the snapshot back for the
/// deleted kinds, and marks the adapter as requiring reconnection when that
/// fails. Returns whether the adapter is left as it was.
fn undo_removal<C: CredentialStore>(
    credentials: &mut C,
    reconnect_required: &mut bool,
    restore_on_failure: bool,
    snapshot: &CredentialSnapshot,
    deleted: &[CredentialKind],
) -> (restored: bool)
    requires
        old(credentials).inv(),
    ensures
        final(credentials).inv(),
        forall|key: CredentialKey|
            key.0 != CREDENTIAL_HANDLE@ || !deleted@.contains(key.1) ==> #[trigger] stored_value(
                final(credentials).stored(),
                key,
            ) == stored_value(old(credentials).stored(), key),
        restored ==> restore_on_failure && forall|kind: CredentialKind|
            deleted@.contains(kind) ==> #[trigger] stored_value(
                final(credentials).stored(),
                adapter_key(kind),
            ) == snapshot.spec_value(kind),
        forall|kind: CredentialKind|
            deleted@.contains(kind) ==> #[trigger] stored_value(
                final(credentials).stored(),
                adapter_key(kind),
            ) == snapshot.spec_value(kind) || stored_value(
                final(credentials).stored(),
                adapter_key(kind),
            ) == stored_value(old(credentials).stored(), adapter_key(kind)),
        !restore_on_failure ==> final(credentials).stored() == old(credentials).stored()
            && *final(reconnect_required) == *old(reconnect_required),
        restore_on_failure ==> (restored && *final(reconnect_required) == *old(reconnect_required))
            || (!restored && *final(reconnect_required)),
        old(credentials).reliable() ==> final(credentials).reliable(),
        old(credentials).reliable() && snapshot_fits(*snapshot) && restore_on_failure ==> restored,
{
    if !restore_on_failure {
        return false;
    }
    let restored = restore_snapshot(credentials, snapshot, deleted);
    if !restored {
        *reconnect_required = true;
    }
    restored
}

/// Deletes every protected value (account, then access, then refresh),
/// confirming each deletion by a read, then clears the profile's commit
/// marker. With `restore_on_failure` a failure writes the deleted values
/// back; when that fails the adapter is marked as requiring reconnection.
pub fn remove_credentials_and_metadata<C: CredentialStore, P: ProfileStore>(
    credentials: &mut C,
    profiles: &mut P,
    reconnect_required: &mut bool,
    restore_on_failure: bool,
    now_unix_ms: Option<i64>,
) -> (r: Result<(), PublicError>)
    requires
        old(credentials).inv(),
    ensures
        final(credentials).inv(),
        final(profiles).accepts() == old(profiles).accepts(),
        forall|key: CredentialKey|
            key.0 != CREDENTIAL_HANDLE@ ==> #[trigger] stored_value(final(credentials).stored(), key)
                == stored_value(old(credentials).stored(), key),
        kept_or_removed(old(credentials).stored(), final(credentials).stored()),
        r is Ok ==> {
            &&& forall|kind: CredentialKind| #[trigger]
                stored_value(final(credentials).stored(), adapter_key(kind)) is None
            &&& now_unix_ms is Some
            &&& final(profiles).row() matches Some(m) && cleared_profile(m, now_unix_ms->Some_0)
        },
        r is Err ==> final(profiles).row() == old(profiles).row(),
        r is Err ==> r == Err::<(), PublicError>(PublicError::AgentStorageUnavailable) || r
            == Err::<(), PublicError>(PublicError::CredentialStoreUnavailable),
        *final(reconnect_required) == *old(reconnect_required) || (r == Err::<(), PublicError>(
            PublicError::CredentialStoreUnavailable,
        ) && *final(reconnect_required)),
        !(old(profiles).row() is Some && now_unix_ms is Some) ==> r == Err::<(), PublicError>(
            PublicError::AgentStorageUnavailable,
        ) && final(credentials).stored() == old(credentials).stored() && *final(reconnect_required)
            == *old(reconnect_required),
        !restore_on_failure ==> *final(reconnect_required) == *old(reconnect_required) && exists|
            n: int,
        | 0 <= n <= 3 && #[trigger] deleted_first(
            old(credentials).stored(),
            final(credentials).stored(),
            n,
        ),
        refresh_kept_while_others_remain(old(credentials).stored(), final(credentials).stored())
            || (r is Err && restore_on_failure && *final(reconnect_required)),
        restore_on_failure && r is Err ==> (final(credentials).stored() == old(credentials).stored()
            && *final(reconnect_required) == *old(reconnect_required)) || (r == Err::<
            (),
            PublicError,
        >(PublicError::CredentialStoreUnavailable) && *final(reconnect_required)),
        old(credentials).reliable() && old(profiles).accepts() && old(profiles).row() is Some
            && now_unix_ms is Some ==> r is Ok,
        old(profiles).accepts() && old(profiles).row() is Some && now_unix_ms is Some && r is Err
            ==> r == Err::<(), PublicError>(PublicError::CredentialStoreUnavailable),
        old(credentials).fails_at_most_once() && stored_fits(old(credentials).stored())
            && restore_on_failure && old(profiles).accepts() && old(profiles).row() is Some
            && now_unix_ms is Some ==> r is Ok || (r == Err::<(), PublicError>(
            PublicError::CredentialStoreUnavailable,
        ) && final(credentials).stored() == old(credentials).stored() && *final(reconnect_required)
            == *old(reconnect_required)),
        old(credentials).reliable() && stored_fits(old(credentials).stored()) && restore_on_failure
            ==> r is Ok || (r == Err::<(), PublicError>(PublicError::AgentStorageUnavailable)
            && final(credentials).stored() == old(credentials).stored() && *final(reconnect_required) == *old(reconnect_required)),
{
    let ghost initial = credentials.stored();
    assert(deleted_first(initial, initial, 0));
    let mut row = match profiles.read() {
        Ok(Some(row)) => row,
        _ => return Err(PublicError::AgentStorageUnavailable),
    };
    let now = match now_unix_ms {
        Some(now) => now,
        None => return Err(PublicError::AgentStorageUnavailable),
    };
    let mut snapshot = credential_snapshot(credentials)?;
    proof {
        if stored_fits(initial) {
            assert(snapshot_fits(snapshot));
        }
        assert(deleted_first(initial, credentials.stored(), 0));
    }
    let order = DELETE_CREDENTIAL_ORDER;
    assert(order@ =~= seq![
        CredentialKind::AccountId,
        CredentialKind::AccessToken,
        CredentialKind::RefreshToken,
    ]);
    let mut deleted: Vec<CredentialKind> = Vec::new();
    let mut idx: usize = 0;
    while idx < 3
        invariant
            idx <= 3,
            order@ == seq![
                CredentialKind::AccountId,
                CredentialKind::AccessToken,
                CredentialKind::RefreshToken,
            ],
            deleted@ == order@.subrange(0, idx as int),
            forall|kind: CredentialKind| #[trigger] deleted@.contains(kind) <==> delete_rank(kind) < idx,
            credentials.inv(),
            snapshot.matches(initial),
            stored_fits(initial) ==> snapshot_fits(snapshot),
            initial == old(credentials).stored(),
            *reconnect_required == *old(reconnect_required),
            profiles.row() == old(profiles).row(),
            profiles.accepts() == old(profiles).accepts(),
            old(profiles).row() == Some(row),
            now_unix_ms == Some(now),
            deleted_first(initial, credentials.stored(), idx as int),
            forall|key: CredentialKey|
                key.0 != CREDENTIAL_HANDLE@ ==> #[trigger] stored_value(credentials.stored(), key)
                    == stored_value(initial, key),
            old(credentials).reliable() ==> credentials.reliable(),
            old(credentials).fails_at_most_once() ==> credentials.fails_at_most_once()
                || credentials.reliable(),
        decreases 3 - idx,
    {
        let kind = order[idx];
        assert(delete_rank(kind) == idx) by {
            if idx == 0 {
                assert(kind == CredentialKind::AccountId);
            } else if idx == 1 {
                assert(kind == CredentialKind::AccessToken);
            } else {
                assert(kind == CredentialKind::RefreshToken);
            }
        }
        let ghost before = credentials.stored();
        let ghost prev = deleted@;
        match credentials.delete(CREDENTIAL_HANDLE, kind) {
            Ok(()) => {},
            Err(_) => {
                let restored = undo_removal(
                    credentials,
                    reconnect_required,
                    restore_on_failure,
                    &snapshot,
                    deleted.as_slice(),
                );
                proof {
                    self::lemma_removal_outcome(
                        initial,
                        before,
                        credentials.stored(),
                        snapshot,
                        deleted@,
                        idx as int,
                        restore_on_failure,
                        restored,
                    );
                }
                snapshot.zeroize();
                return Err(PublicError::CredentialStoreUnavailable);
            },
        }
        deleted.push(kind);
        proof {
            assert(order@.subrange(0, idx + 1) =~= order@.subrange(0, idx as int).push(kind));
            assert forall|k: CredentialKind| #[trigger] deleted@.contains(k) <==> delete_rank(k) < idx + 1 by {
                if deleted@.contains(k) {
                    let w = choose|w: int| 0 <= w < deleted@.len() && deleted@[w] == k;
                    if w < prev.len() {
                        assert(prev[w] == k);
                    }
                }
                if prev.contains(k) {
                    let w = choose|w: int| 0 <= w < prev.len() && prev[w] == k;
                    assert(deleted@[w] == k);
                }
                if k == kind {
                    assert(deleted@[idx as int] == k);
                }
                if delete_rank(k) < idx {
                    assert(prev.contains(k));
                }
            }
            assert forall|k: CredentialKind| #[trigger]
                stored_value(credentials.stored(), adapter_key(k)) == if delete_rank(k) < idx + 1 {
                    None
                } else {
                    stored_value(initial, adapter_key(k))
                } by {
                if k != kind {
                    assert(stored_value(credentials.stored(), adapter_key(k)) == stored_value(
                        before,
                        adapter_key(k),
                    ));
                }
            }
            assert forall|key: CredentialKey| key != adapter_key(kind) implies #[trigger] stored_value(
                credentials.stored(),
                key,
            ) == stored_value(before, key) by {}
        }
        let confirmed = match credentials.read(CREDENTIAL_HANDLE, kind) {
            Ok(None) => true,
            _ => false,
        };
        if !confirmed {
            let ghost after_delete = credentials.stored();
            let restored = undo_removal(
                credentials,
                reconnect_required,
                restore_on_failure,
                &snapshot,
                deleted.as_slice(),
            );
            proof {
                self::lemma_removal_outcome(
                    initial,
                    after_delete,
                    credentials.stored(),
                    snapshot,
                    deleted@,
                    idx + 1,
                    restore_on_failure,
                    restored,
                );
            }
            snapshot.zeroize();
            return Err(PublicError::CredentialStoreUnavailable);
        }
        idx = idx + 1;
    }
    let ghost removed = credentials.stored();
    row.set_credential_metadata(None, None, now);
    if !profiles.update(&row) {
        let restored = undo_removal(
            credentials,
            reconnect_required,
            restore_on_failure,
            &snapshot,
            deleted.as_slice(),
        );
        proof {
            self::lemma_removal_outcome(
                initial,
                removed,
                credentials.stored(),
                snapshot,
                deleted@,
                3,
                restore_on_failure,
                restored,
            );
        }
        snapshot.zeroize();
        if restore_on_failure && !restored {
            return Err(PublicError::CredentialStoreUnavailable);
        }
        return Err(PublicError::AgentStorageUnavailable);
    }
    proof {
        assert(deleted_first(initial, credentials.stored(), 3));
        assert forall|kind: CredentialKind| #[trigger]
            stored_value(credentials.stored(), adapter_key(kind)) is None by {
            assert(delete_rank(kind) < 3);
        }
    }
    snapshot.zeroize();
    Ok(())
}

/// What a failed removal leaves after [`undo_removal`]: the first `n` kinds
/// were deleted before the failure.
proof fn lemma_removal_outcome(
    initial: Map<CredentialKey, Seq<u8>>,
    before: Map<CredentialKey, Seq<u8>>,
    after: Map<CredentialKey, Seq<u8>>,
    snapshot: CredentialSnapshot,
    deleted: Seq<CredentialKind>,
    n: int,
    restore_on_failure: bool,
    restored: bool,
)
    requires
        0 <= n <= 3,
        snapshot.matches(initial),
        deleted_first(initial, before, n),
        forall|kind: CredentialKind| #[trigger] deleted.contains(kind) <==> delete_rank(kind) < n,
        forall|key: CredentialKey|
            key.0 != CREDENTIAL_HANDLE@ ==> #[trigger] stored_value(before, key) == stored_value(
                initial,
                key,
            ),
        forall|key: CredentialKey|
            key.0 != CREDENTIAL_HANDLE@ || !deleted.contains(key.1) ==> #[trigger] stored_value(
                after,
                key,
            ) == stored_value(before, key),
        restored ==> restore_on_failure && forall|kind: CredentialKind|
            deleted.contains(kind) ==> #[trigger] stored_value(after, adapter_key(kind))
                == snapshot.spec_value(kind),
        forall|kind: CredentialKind|
            deleted.contains(kind) ==> #[trigger] stored_value(after, adapter_key(kind))
                == snapshot.spec_value(kind) || stored_value(after, adapter_key(kind))
                == stored_value(before, adapter_key(kind)),
        !restore_on_failure ==> after == before,
    ensures
        kept_or_removed(initial, after),
        forall|key: CredentialKey|
            key.0 != CREDENTIAL_HANDLE@ ==> #[trigger] stored_value(after, key) == stored_value(
                initial,
                key,
            ),
        !restore_on_failure ==> deleted_first(initial, after, n),
        restored ==> after == initial,
        !restore_on_failure ==> refresh_kept_while_others_remain(initial, after),
{
    assert forall|kind: CredentialKind| #[trigger]
        stored_value(after, adapter_key(kind)) == stored_value(initial, adapter_key(kind))
            || stored_value(after, adapter_key(kind)) is None by {
        assert(snapshot.spec_value(kind) == stored_value(initial, adapter_key(kind)));
        assert(stored_value(before, adapter_key(kind)) == if delete_rank(kind) < n {
            None
        } else {
            stored_value(initial, adapter_key(kind))
        });
    }
    if restored {
        assert forall|key: CredentialKey| #[trigger] stored_value(after, key) == stored_value(
            initial,
            key,
        ) by {
            if key.0 == CREDENTIAL_HANDLE@ {
                assert(key == adapter_key(key.1));
                assert(snapshot.spec_value(key.1) == stored_value(initial, adapter_key(key.1)));
                assert(stored_value(before, adapter_key(key.1)) == if delete_rank(key.1) < n {
                    None
                } else {
                    stored_value(initial, adapter_key(key.1))
                });
            }
        }
        lemma_same_values_same_map(after, initial);
    }
    if !restore_on_failure {
        assert(stored_value(before, adapter_key(CredentialKind::RefreshToken)) == if 2 < n {
            None
        } else {
            stored_value(initial, adapter_key(CredentialKind::RefreshToken))
        });
        assert(stored_value(before, adapter_key(CredentialKind::AccessToken)) == if 1 < n {
            None
        } else {
            stored_value(initial, adapter_key(CredentialKind::AccessToken))
        });
        assert(stored_value(before, adapter_key(CredentialKind::AccountId)) == if 0 < n {
            None
        } else {
            stored_value(initial, adapter_key(CredentialKind::AccountId))
        });
    }
}

/// How many of the adapter's protected values are present.
pub open spec fn present_count(m: Map<CredentialKey, Seq<u8>>) -> usize {
    ((if m.contains_key(adapter_key(CredentialKind::RefreshToken)) {
        1usize
    } else {
        0usize
    }) + (if m.contains_key(adapter_key(CredentialKind::AccessToken)) {
        1usize
    } else {
        0usize
    }) + (if m.contains_key(adapter_key(CredentialKind::AccountId)) {
        1usize
    } else {
        0usize
    })) as usize
}

/// Counts the present protected values; any failed read fails the count.
pub fn count_present_credentials<C: CredentialStore>(credentials: &mut C) -> (r: Result<usize, ()>)
    requires
        old(credentials).inv(),
    ensures
        final(credentials).inv(),
        final(credentials).stored() == old(credentials).stored(),
        r matches Ok(n) ==> n == present_count(old(credentials).stored()),
        old(credentials).reliable() ==> r == Ok::<usize, ()>(
            present_count(old(credentials).stored()),
        ),
{
    let refresh = match credentials.read(CREDENTIAL_HANDLE, CredentialKind::RefreshToken) {
        Ok(v) => v.is_some(),
        Err(_) => return Err(()),
    };
    let access = match credentials.read(CREDENTIAL_HANDLE, CredentialKind::AccessToken) {
        Ok(v) => v.is_some(),
        Err(_) => return Err(()),
    };
    let account = match credentials.read(CREDENTIAL_HANDLE, CredentialKind::AccountId) {
        Ok(v) => v.is_some(),
        Err(_) => return Err(()),
    };
    let mut present: usize = 0;
    if refresh {
        present = present + 1;
    }
    if access {
        present = present + 1;
    }
    if account {
        present = present + 1;
    }
    Ok(present)
}

/// The connection state derived from the adapter's transient flags, the
/// number of present protected values and the profile's commit marker.
pub open spec fn connection_state_spec(
    connecting: bool,
    reconnect_required: bool,
    present: Result<usize, ()>,
    commit_marker: Result<Option<bool>, ()>,
) -> ConnectionState {
    if connecting {
        ConnectionState::Connecting
    } else if reconnect_required {
        ConnectionState::ReconnectRequired
    } else {
        match (present, commit_marker) {
            (Err(()), _) => ConnectionState::UnavailableInThisBuild,
            (_, Err(())) => ConnectionState::UnavailableInThisBuild,
            (Ok(n), Ok(None)) => if n == 3 {
                ConnectionState::Connected
            } else if n == 0 {
                ConnectionState::Disconnected
            } else {
                ConnectionState::ReconnectRequired
            },
            (Ok(n), Ok(Some(true))) => if n == 3 {
                ConnectionState::Connected
            } else {
                ConnectionState::ReconnectRequired
            },
            (Ok(n), Ok(Some(false))) => if n == 0 {
                ConnectionState::Disconnected
            } else {
                ConnectionState::ReconnectRequired
            },
        }
    }
}

pub fn connection_state_for(
    connecting: bool,
    reconnect_required: bool,
    present: Result<usize, ()>,
    commit_marker: Result<Option<bool>, ()>,
) -> (state: ConnectionState)
    ensures
        state == connection_state_spec(connecting, reconnect_required, present, commit_marker),
{
    if connecting {
        ConnectionState::Connecting
    } else if reconnect_required {
        ConnectionState::ReconnectRequired
    } else {
        match (present, commit_marker) {
            (Err(()), _) | (_, Err(())) => ConnectionState::UnavailableInThisBuild,
            (Ok(present), Ok(None)) if present == 3 => ConnectionState::Connected,
            (Ok(0), Ok(None)) => ConnectionState::Disconnected,
            (Ok(present), Ok(Some(true))) if present == 3 => ConnectionState::Connected,
            (Ok(0), Ok(Some(false))) => ConnectionState::Disconnected,
            _ => ConnectionState::ReconnectRequired,
        }
    }
}

/// Law: the adapter reports Connected only when no connect is running, no
/// reconnection is pending, all three protected values are present and the
/// profile does not record a cleared commit marker.
pub proof fn lemma_connected_requires_complete_credential_set(
    connecting: bool,
    reconnect_required: bool,
    present: Result<usize, ()>,
    commit_marker: Result<Option<bool>, ()>,
)
    ensures
        connection_state_spec(connecting, reconnect_required, present, commit_marker)
            == ConnectionState::Connected ==> !connecting && !reconnect_required && present
            == Ok::<usize, ()>(3) && commit_marker != Ok::<Option<bool>, ()>(Some(false))
            && commit_marker is Ok,
{
}

/// Samples the connection status. Protected values are only read when no
/// connect is running and no reconnection is pending.
pub fn connection_status_for_commit_marker<C: CredentialStore>(
    credentials: &mut C,
    connecting: bool,
    reconnect_required: bool,
    commit_marker: Result<Option<bool>, ()>,
) -> (status: ConnectionStatus)
    requires
        old(credentials).inv(),
    ensures
        final(credentials).inv(),
        final(credentials).stored() == old(credentials).stored(),
        status.provider_id@ == PROVIDER_ID@,
        status.model@ == MODEL@,
        exists|present: Result<usize, ()>|
            (present matches Ok(n) ==> n == present_count(old(credentials).stored()))
                && status.state == connection_state_spec(
                connecting,
                reconnect_required,
                present,
                commit_marker,
            ),
        old(credentials).reliable() ==> status.state == connection_state_spec(
            connecting,
            reconnect_required,
            Ok(present_count(old(credentials).stored())),
            commit_marker,
        ),
{
    let state = if connecting || reconnect_required {
        let state = connection_state_for(connecting, reconnect_required, Err(()), commit_marker);
        assert(connection_state_spec(connecting, reconnect_required, Err(()), commit_marker)
            == state);
        state
    } else {
        let present = count_present_credentials(credentials);
        connection_state_for(connecting, reconnect_required, present, commit_marker)
    };
    ConnectionStatus { state, provider_id: PROVIDER_ID, model: MODEL }
}

/// The commit marker a stored profile records: whether it names the adapter's
/// credential handle. A profile naming another handle marks the adapter as
/// requiring reconnection.
pub fn commit_marker_for_profile(
    profile: &Result<Option<ProviderCredentialMetadata>, ()>,
    reconnect_required: &mut bool,
) -> (marker: Result<Option<bool>, ()>)
    ensures
        match *profile {
            Ok(Some(p)) => match p.credential_handle {
                None => marker == Ok::<Option<bool>, ()>(Some(false)) && *final(reconnect_required)
                    == *old(reconnect_required),
                Some(h) => if h@ == CREDENTIAL_HANDLE@ {
                    marker == Ok::<Option<bool>, ()>(Some(true)) && *final(reconnect_required)
                        == *old(reconnect_required)
                } else {
                    marker == Ok::<Option<bool>, ()>(Some(false)) && *final(reconnect_required)
                },
            },
            _ => marker == Err::<Option<bool>, ()>(()) && *final(reconnect_required) == *old(reconnect_required),
        },
{
    match profile {
        Ok(Some(p)) => match &p.credential_handle {
            None => Ok(Some(false)),
            Some(handle) => {
                if string_eq_str(handle, CREDENTIAL_HANDLE) {
                    Ok(Some(true))
                } else {
                    *reconnect_required = true;
                    Ok(Some(false))
                }
            },
        },
        _ => Err(()),
    }
}

/// Whether a profile's commit marker names the adapter's credential handle.
pub open spec fn names_adapter_handle(p: ProviderCredentialMetadata) -> bool {
    p.credential_handle matches Some(h) && h@ == CREDENTIAL_HANDLE@
}

/// Whether the stored access token must be refreshed before use: it expires
/// within the refresh skew.
pub open spec fn access_needs_refresh(expires_at: Option<i64>, now: i64) -> bool {
    match expires_at {
        Some(expires) => expires - now <= REFRESH_SKEW_SECS * 1000,
        None => false,
    }
}

/// Decides whether a credential-using operation may proceed, must refresh
/// first, or must fail.
pub fn access_freshness(
    profile: Result<Option<ProviderCredentialMetadata>, ()>,
    now_unix_ms: Option<i64>,
    reconnect_required: &mut bool,
) -> (r: Result<bool, PublicError>)
    ensures
        match profile {
            Err(()) => r == Err::<bool, PublicError>(PublicError::AgentStorageUnavailable),
            Ok(None) => r == Err::<bool, PublicError>(PublicError::NotConnected),
            Ok(Some(p)) => if !names_adapter_handle(p) {
                r == Err::<bool, PublicError>(PublicError::AuthenticationRequired)
                    && *final(reconnect_required)
            } else {
                match now_unix_ms {
                    None => r == Err::<bool, PublicError>(PublicError::AgentStorageUnavailable),
                    Some(now) => r == Ok::<bool, PublicError>(
                        access_needs_refresh(p.access_token_expires_at_unix_ms, now),
                    ),
                }
            },
        },
        !(profile matches Ok(Some(p)) && !names_adapter_handle(p))
            ==> *final(reconnect_required) == *old(reconnect_required),
{
    let profile = match profile {
        Ok(Some(profile)) => profile,
        Ok(None) => return Err(PublicError::NotConnected),
        Err(()) => return Err(PublicError::AgentStorageUnavailable),
    };
    let matches = match &profile.credential_handle {
        Some(handle) => string_eq_str(handle, CREDENTIAL_HANDLE),
        None => false,
    };
    if !matches {
        *reconnect_required = true;
        return Err(PublicError::AuthenticationRequired);
    }
    let now = match now_unix_ms {
        Some(now) => now,
        None => return Err(PublicError::AgentStorageUnavailable),
    };
    match profile.access_token_expires_at_unix_ms {
        Some(expires) => Ok((expires as i128) - (now as i128) <= (REFRESH_SKEW_SECS as i128) * 1000),
        None => Ok(false),
    }
}

/// Result of a token-endpoint exchange.
pub enum TokenBundle {
    Success(TokenValues),
    InvalidGrant,
}

/// Applies the outcome of a refresh exchange: an invalid grant marks the
/// adapter as requiring reconnection and removes the credentials without
/// restoring them; new values are persisted as a rotation.
pub fn complete_refresh<C: CredentialStore, K: Fn() -> bool, P: ProfileStore>(
    credentials: &mut C,
    profiles: &mut P,
    reconnect_required: &mut bool,
    token: TokenBundle,
    now_unix_ms: Option<i64>,
    is_cancelled: K,
) -> (r: Result<(), PublicError>)
    requires
        old(credentials).inv(),
        call_requires(is_cancelled, ()),
    ensures
        final(credentials).inv(),
        final(profiles).accepts() == old(profiles).accepts(),
        forall|key: CredentialKey|
            key.0 != CREDENTIAL_HANDLE@ ==> #[trigger] stored_value(final(credentials).stored(), key)
                == stored_value(old(credentials).stored(), key),
        token is InvalidGrant ==> r is Err && *final(reconnect_required) && exists|n: int|
            0 <= n <= 3 && #[trigger] deleted_first(
                old(credentials).stored(),
                final(credentials).stored(),
                n,
            ),
        token is InvalidGrant && r == Err::<(), PublicError>(PublicError::AuthenticationRequired)
            ==> (forall|kind: CredentialKind| #[trigger]
            stored_value(final(credentials).stored(), adapter_key(kind)) is None) && now_unix_ms is Some
            && (final(profiles).row() matches Some(m) && cleared_profile(m, now_unix_ms->Some_0)),
        token is InvalidGrant && r != Err::<(), PublicError>(PublicError::AuthenticationRequired)
            ==> (r == Err::<(), PublicError>(PublicError::AgentStorageUnavailable) || r == Err::<
            (),
            PublicError,
        >(PublicError::CredentialStoreUnavailable)) && final(profiles).row() == old(profiles).row(),
        token is InvalidGrant && old(credentials).reliable() && old(profiles).accepts() && old(profiles).row() is Some && now_unix_ms is Some ==> r == Err::<(), PublicError>(
            PublicError::AuthenticationRequired,
        ),
        token is InvalidGrant && old(profiles).accepts() && old(profiles).row() is Some
            && now_unix_ms is Some ==> r == Err::<(), PublicError>(
            PublicError::AuthenticationRequired,
        ) || r == Err::<(), PublicError>(PublicError::CredentialStoreUnavailable),
        token matches TokenBundle::Success(values) && token_values_acceptable(
            values,
            TokenPersistence::Rotation,
        ) && old(profiles).accepts() && old(profiles).row() is Some && now_unix_ms is Some && (
        forall|b: bool| #[trigger] call_ensures(is_cancelled, (), b) ==> !b) && r is Err ==> r
            == Err::<(), PublicError>(PublicError::CredentialStoreUnavailable),
        token matches TokenBundle::Success(values) && old(credentials).fails_at_most_once()
            && stored_fits(old(credentials).stored()) && token_values_acceptable(
            values,
            TokenPersistence::Rotation,
        ) && token_fits(values) && old(profiles).accepts() && old(profiles).row() is Some
            && now_unix_ms is Some && (forall|b: bool|
            #[trigger] call_ensures(is_cancelled, (), b) ==> !b) ==> r is Ok || (r == Err::<
            (),
            PublicError,
        >(PublicError::CredentialStoreUnavailable) && persist_unchanged(
            old(credentials).stored(),
            final(credentials).stored(),
            old(profiles).row(),
            final(profiles).row(),
            *old(reconnect_required),
            *final(reconnect_required),
        )),
        token matches TokenBundle::Success(values) && !token_values_acceptable(
            values,
            TokenPersistence::Rotation,
        ) ==> r == Err::<(), PublicError>(PublicError::ProviderUnavailable) && persist_unchanged(
            old(credentials).stored(),
            final(credentials).stored(),
            old(profiles).row(),
            final(profiles).row(),
            *old(reconnect_required),
            *final(reconnect_required),
        ),
        token matches TokenBundle::Success(values) ==> r is Ok ==> token_set_persisted(
            old(credentials).stored(),
            final(credentials).stored(),
            final(profiles).row(),
            *final(reconnect_required),
            values,
            now_unix_ms,
        ),
        token is Success && r is Err ==> persist_unchanged(
            old(credentials).stored(),
            final(credentials).stored(),
            old(profiles).row(),
            final(profiles).row(),
            *old(reconnect_required),
            *final(reconnect_required),
        ) || (r == Err::<(), PublicError>(PublicError::CredentialStoreUnavailable)
            && *final(reconnect_required)),
        token is Success && old(credentials).reliable() && stored_fits(old(credentials).stored())
            && old(profiles).accepts() && r is Err ==> persist_unchanged(
            old(credentials).stored(),
            final(credentials).stored(),
            old(profiles).row(),
            final(profiles).row(),
            *old(reconnect_required),
            *final(reconnect_required),
        ),
        token matches TokenBundle::Success(values) && old(credentials).reliable()
            && token_values_acceptable(values, TokenPersistence::Rotation) && token_fits(values)
            && old(profiles).accepts() && old(profiles).row() is Some && now_unix_ms is Some && (
        forall|b: bool| #[trigger] call_ensures(is_cancelled, (), b) ==> !b) ==> r is Ok,
{
    match token {
        TokenBundle::InvalidGrant => {
            *reconnect_required = true;
            remove_credentials_and_metadata(
                credentials,
                profiles,
                reconnect_required,
                false,
                now_unix_ms,
            )?;
            Err(PublicError::AuthenticationRequired)
        },
        TokenBundle::Success(values) => persist_tokens(
            credentials,
            profiles,
            reconnect_required,
            values,
            TokenPersistence::Rotation,
            now_unix_ms,
            is_cancelled,
        ),
    }
}

/// The access token and account identifier an inference request reads: both
/// must be stored, else the adapter is not connected, and both must be UTF-8,
/// else the connection must be renewed.
pub open spec fn access_and_account_spec(m: Map<CredentialKey, Seq<u8>>) -> Result<
    (Seq<char>, Seq<char>),
    PublicError,
> {
    match (
        stored_value(m, adapter_key(CredentialKind::AccessToken)),
        stored_value(m, adapter_key(CredentialKind::AccountId)),
    ) {
        (Some(a), Some(b)) => if valid_utf8(a) && valid_utf8(b) {
            Ok((decode_utf8(a), decode_utf8(b)))
        } else {
            Err(PublicError::AuthenticationRequired)
        },
        _ => Err(PublicError::NotConnected),
    }
}

/// Reads the access token and account identifier for an inference request.
pub fn read_access_and_account<C: CredentialStore>(credentials: &mut C) -> (r: Result<
    (String, String),
    PublicError,
>)
    requires
        old(credentials).inv(),
    ensures
        final(credentials).inv(),
        final(credentials).stored() == old(credentials).stored(),
        r matches Ok((access, account)) ==> stored_value(
            old(credentials).stored(),
            adapter_key(CredentialKind::AccessToken),
        ) == Some(encode_utf8(access@)) && stored_value(
            old(credentials).stored(),
            adapter_key(CredentialKind::AccountId),
        ) == Some(encode_utf8(account@)),
        r is Err ==> r == Err::<(String, String), PublicError>(
            PublicError::CredentialStoreUnavailable,
        ) || r == Err::<(String, String), PublicError>(PublicError::NotConnected) || r == Err::<
            (String, String),
            PublicError,
        >(PublicError::AuthenticationRequired),
        (stored_value(old(credentials).stored(), adapter_key(CredentialKind::AccessToken)) is None
            || stored_value(old(credentials).stored(), adapter_key(CredentialKind::AccountId))
            is None) ==> r is Err,
        old(credentials).reliable() ==> match access_and_account_spec(old(credentials).stored()) {
            Ok((a, b)) => r matches Ok((access, account)) && access@ == a && account@ == b,
            Err(e) => r == Err::<(String, String), PublicError>(e),
        },
{
    let access = match read_kind(credentials, CredentialKind::AccessToken)? {
        Some(access) => access,
        None => return Err(PublicError::NotConnected),
    };
    let account = match read_kind(credentials, CredentialKind::AccountId)? {
        Some(account) => account,
        None => return Err(PublicError::NotConnected),
    };
    let ghost access_bytes = access@;
    let ghost account_bytes = account@;
    let access = match string_from_utf8(access) {
        Some(access) => access,
        None => return Err(PublicError::AuthenticationRequired),
    };
    let account = match string_from_utf8(account) {
        Some(account) => account,
        None => return Err(PublicError::AuthenticationRequired),
    };
    proof {
        vstd::utf8::decode_utf8_encode_utf8(access_bytes);
        vstd::utf8::decode_utf8_encode_utf8(account_bytes);
    }
    Ok((access, account))
}

/// The refresh credential a refresh exchange sends: it must be stored and be
/// UTF-8, else the connection must be renewed.
pub open spec fn refresh_credential_spec(m: Map<CredentialKey, Seq<u8>>) -> Result<
    Seq<char>,
    PublicError,
> {
    match stored_value(m, adapter_key(CredentialKind::RefreshToken)) {
        Some(b) => if valid_utf8(b) {
            Ok(decode_utf8(b))
        } else {
            Err(PublicError::AuthenticationRequired)
        },
        None => Err(PublicError::AuthenticationRequired),
    }
}

/// Reads the refresh credential for a refresh exchange.
pub fn read_refresh_credential<C: CredentialStore>(credentials: &mut C) -> (r: Result<
    String,
    PublicError,
>)
    requires
        old(credentials).inv(),
    ensures
        final(credentials).inv(),
        final(credentials).stored() == old(credentials).stored(),
        r matches Ok(refresh) ==> refresh_credential_spec(old(credentials).stored()) == Ok::<
            Seq<char>,
            PublicError,
        >(refresh@),
        r matches Err(e) ==> e == PublicError::CredentialStoreUnavailable
            || refresh_credential_spec(old(credentials).stored()) == Err::<Seq<char>, PublicError>(e),
        old(credentials).reliable() ==> match refresh_credential_spec(old(credentials).stored()) {
            Ok(v) => r matches Ok(refresh) && refresh@ == v,
            Err(e) => r == Err::<String, PublicError>(e),
        },
{
    let refresh = match read_kind(credentials, CredentialKind::RefreshToken)? {
        Some(refresh) => refresh,
        None => return Err(PublicError::AuthenticationRequired),
    };
    match string_from_utf8(refresh) {
        Some(refresh) => Ok(refresh),
        None => Err(PublicError::AuthenticationRequired),
    }
}

} // verus!
