//! Native-only credential storage for provider adapter secrets.
//!
//! A store maps a (handle, kind) pair to a protected byte value. Values never
//! cross the IPC boundary. The in-memory store is deterministic and supports
//! failure injection by operation number.

use vstd::prelude::*;

use crate::text::{copy_bytes, owned_string};

verus! {

/// Windows Credential Manager's per-entry blob limit.
pub const CRED_MAX_CREDENTIAL_BLOB_SIZE: usize = 2560;

/// The three protected values required by the compatibility adapter.
#[derive(Debug, Clone, Copy, PartialEq, Eq, Hash, Structural)]
pub enum CredentialKind {
    AccessToken,
    RefreshToken,
    AccountId,
}

impl CredentialKind {
    pub open spec fn suffix_spec(self) -> Seq<char> {
        match self {
            CredentialKind::AccessToken => "access"@,
            CredentialKind::RefreshToken => "refresh"@,
            CredentialKind::AccountId => "account"@,
        }
    }

    /// The entry-name suffix under which a kind is stored natively.
    pub fn suffix(self) -> (s: &'static str)
        ensures
            s@ == self.suffix_spec(),
    {
        match self {
            CredentialKind::AccessToken => "access",
            CredentialKind::RefreshToken => "refresh",
            CredentialKind::AccountId => "account",
        }
    }
}

/// The service name under which the native store keeps every entry.
pub const CREDENTIAL_SERVICE: &'static str = "build.tule.desktop";

/// The native entry name of a protected value: the handle, a dot, and the
/// kind's suffix.
pub fn credential_entry_user(handle: &str, kind: CredentialKind) -> (user: String)
    ensures
        user@ == handle@ + "."@ + kind.suffix_spec(),
{
    let mut user = String::new();
    user.append(handle);
    user.append(".");
    user.append(kind.suffix());
    user
}

#[derive(Debug, Clone, Copy, PartialEq, Eq, Structural)]
pub enum CredentialStoreError {
    Unavailable,
    ValueTooLarge,
}

/// The abstract key of a stored credential.
pub type CredentialKey = (Seq<char>, CredentialKind);

/// Opaque native credential storage.
///
/// A read never changes what is stored; a successful replace or delete
/// changes exactly its own key; a failed one changes nothing. Values above
/// the native blob limit are never accepted.
pub trait CredentialStore {
    /// The store's internal well-formedness.
    spec fn inv(&self) -> bool;

    spec fn stored(&self) -> Map<CredentialKey, Seq<u8>>;

    /// Whether the store currently accepts every operation: each read and
    /// delete succeeds, and so does each replace within the blob limit.
    spec fn reliable(&self) -> bool;

    /// Whether at most one of the operations still to come can fail: once
    /// one has failed, the store accepts every later one.
    spec fn fails_at_most_once(&self) -> bool;

    fn read(&mut self, handle: &str, kind: CredentialKind) -> (r: Result<
        Option<Vec<u8>>,
        CredentialStoreError,
    >)
        requires
            old(self).inv(),
        ensures
            final(self).inv(),
            final(self).stored() == old(self).stored(),
            r matches Ok(Some(value)) ==> old(self).stored().contains_key((handle@, kind))
                && value@ == old(self).stored()[(handle@, kind)],
            r matches Ok(None) ==> !old(self).stored().contains_key((handle@, kind)),
            old(self).reliable() ==> r is Ok && final(self).reliable(),
            old(self).fails_at_most_once() ==> final(self).fails_at_most_once() || final(self).reliable(),
            old(self).fails_at_most_once() && r is Err ==> final(self).reliable(),
    ;

    fn replace(&mut self, handle: &str, kind: CredentialKind, value: &[u8]) -> (r: Result<
        (),
        CredentialStoreError,
    >)
        requires
            old(self).inv(),
        ensures
            final(self).inv(),
            r is Ok ==> final(self).stored() == old(self).stored().insert((handle@, kind), value@),
            r is Err ==> final(self).stored() == old(self).stored(),
            value@.len() > CRED_MAX_CREDENTIAL_BLOB_SIZE ==> r is Err,
            old(self).reliable() ==> final(self).reliable(),
            old(self).reliable() && value@.len() <= CRED_MAX_CREDENTIAL_BLOB_SIZE ==> r is Ok,
            old(self).fails_at_most_once() ==> final(self).fails_at_most_once() || final(self).reliable(),
            old(self).fails_at_most_once() && r is Err && value@.len()
                <= CRED_MAX_CREDENTIAL_BLOB_SIZE ==> final(self).reliable(),
    ;

    fn delete(&mut self, handle: &str, kind: CredentialKind) -> (r: Result<
        (),
        CredentialStoreError,
    >)
        requires
            old(self).inv(),
        ensures
            final(self).inv(),
            r is Ok ==> final(self).stored() == old(self).stored().remove((handle@, kind)),
            r is Err ==> final(self).stored() == old(self).stored(),
            old(self).reliable() ==> r is Ok && final(self).reliable(),
            old(self).fails_at_most_once() ==> final(self).fails_at_most_once() || final(self).reliable(),
            old(self).fails_at_most_once() && r is Err ==> final(self).reliable(),
    ;
}

/// Read after write: once a replace of a credential has succeeded, the store
/// holds exactly the written value under that key, so a read of the key
/// answers with that value; every other credential is as it was.
pub proof fn lemma_read_after_replace<S: CredentialStore>(
    before: S,
    after: S,
    key: CredentialKey,
    value: Seq<u8>,
    other: CredentialKey,
)
    requires
        after.stored() == before.stored().insert(key, value),
    ensures
        after.stored().contains_key(key),
        after.stored()[key] == value,
        other != key ==> (after.stored().contains_key(other) == before.stored().contains_key(other)
            && after.stored()[other] == before.stored()[other]),
{
}

/// Read after delete: once a delete of a credential has succeeded, a read of
/// the key finds nothing; every other credential is as it was.
pub proof fn lemma_read_after_delete<S: CredentialStore>(
    before: S,
    after: S,
    key: CredentialKey,
    other: CredentialKey,
)
    requires
        after.stored() == before.stored().remove(key),
    ensures
        !after.stored().contains_key(key),
        other != key ==> (after.stored().contains_key(other) == before.stored().contains_key(other)
            && after.stored()[other] == before.stored()[other]),
{
}

/// Store selected on hosts without a native credential manager: every
/// operation fails closed.
pub struct UnavailableCredentialStore;

impl CredentialStore for UnavailableCredentialStore {
    open spec fn inv(&self) -> bool {
        true
    }

    open spec fn stored(&self) -> Map<CredentialKey, Seq<u8>> {
        Map::empty()
    }

    open spec fn reliable(&self) -> bool {
        false
    }

    open spec fn fails_at_most_once(&self) -> bool {
        false
    }

    fn read(&mut self, handle: &str, kind: CredentialKind) -> (r: Result<
        Option<Vec<u8>>,
        CredentialStoreError,
    >)
        ensures
            r == Err::<Option<Vec<u8>>, CredentialStoreError>(CredentialStoreError::Unavailable),
    {
        Err(CredentialStoreError::Unavailable)
    }

    fn replace(&mut self, handle: &str, kind: CredentialKind, value: &[u8]) -> (r: Result<
        (),
        CredentialStoreError,
    >)
        ensures
            r == Err::<(), CredentialStoreError>(CredentialStoreError::Unavailable),
    {
        Err(CredentialStoreError::Unavailable)
    }

    fn delete(&mut self, handle: &str, kind: CredentialKind) -> (r: Result<
        (),
        CredentialStoreError,
    >)
        ensures
            r == Err::<(), CredentialStoreError>(CredentialStoreError::Unavailable),
    {
        Err(CredentialStoreError::Unavailable)
    }
}

/// One stored entry of the in-memory store.
pub struct StoredCredential {
    pub handle: String,
    pub kind: CredentialKind,
    pub value: Vec<u8>,
}

pub open spec fn entry_key(entry: StoredCredential) -> CredentialKey {
    (entry.handle@, entry.kind)
}

pub open spec fn keys_unique(entries: Seq<StoredCredential>) -> bool {
    forall|i: int, j: int|
        0 <= i < entries.len() && 0 <= j < entries.len() && i != j ==> entry_key(entries[i])
            != entry_key(entries[j])
}

pub open spec fn has_key(entries: Seq<StoredCredential>, key: CredentialKey) -> bool {
    exists|i: int| 0 <= i < entries.len() && entry_key(entries[i]) == key
}

pub open spec fn key_index(entries: Seq<StoredCredential>, key: CredentialKey) -> int {
    choose|i: int| 0 <= i < entries.len() && entry_key(entries[i]) == key
}

/// The map that a sequence of entries with unique keys stands for.
pub open spec fn entries_map(entries: Seq<StoredCredential>) -> Map<CredentialKey, Seq<u8>> {
    Map::new(
        |key: CredentialKey| has_key(entries, key),
        |key: CredentialKey| entries[key_index(entries, key)].value@,
    )
}

proof fn lemma_key_index(entries: Seq<StoredCredential>, i: int)
    requires
        keys_unique(entries),
        0 <= i < entries.len(),
    ensures
        has_key(entries, entry_key(entries[i])),
        key_index(entries, entry_key(entries[i])) == i,
        entries_map(entries).contains_key(entry_key(entries[i])),
        entries_map(entries)[entry_key(entries[i])] == entries[i].value@,
{
    assert(has_key(entries, entry_key(entries[i])));
}

proof fn lemma_push(entries: Seq<StoredCredential>, e: StoredCredential)
    requires
        keys_unique(entries),
        !has_key(entries, entry_key(e)),
    ensures
        keys_unique(entries.push(e)),
        entries_map(entries.push(e)) == entries_map(entries).insert(entry_key(e), e.value@),
{
    let s = entries.push(e);
    assert(keys_unique(s)) by {
        assert forall|i: int, j: int|
            0 <= i < s.len() && 0 <= j < s.len() && i != j implies entry_key(s[i]) != entry_key(
            s[j]) by {
            if i == entries.len() as int {
                assert(entry_key(s[j]) == entry_key(entries[j]));
            } else if j == entries.len() as int {
                assert(entry_key(s[i]) == entry_key(entries[i]));
            }
        }
    }
    assert forall|key: CredentialKey| #[trigger]
        entries_map(s).contains_key(key) == entries_map(entries).insert(
            entry_key(e),
            e.value@,
        ).contains_key(key) by {
        assert(s[entries.len() as int] == e);
        assert(has_key(s, entry_key(e)));
        if has_key(entries, key) {
            let i = key_index(entries, key);
            assert(s[i] == entries[i]);
        }
        if has_key(s, key) {
            let i = key_index(s, key);
            if i < entries.len() {
                assert(s[i] == entries[i]);
            }
        }
    }
    assert forall|key: CredentialKey| #[trigger] entries_map(s).contains_key(key) implies entries_map(
        s,
    )[key] == entries_map(entries).insert(entry_key(e), e.value@)[key] by {
        let i = key_index(s, key);
        lemma_key_index(s, i);
        if i < entries.len() {
            assert(s[i] == entries[i]);
            lemma_key_index(entries, i);
        }
    }
    assert(entries_map(s) =~= entries_map(entries).insert(entry_key(e), e.value@));
}

proof fn lemma_update(entries: Seq<StoredCredential>, i: int, e: StoredCredential)
    requires
        keys_unique(entries),
        0 <= i < entries.len(),
        entry_key(e) == entry_key(entries[i]),
    ensures
        keys_unique(entries.update(i, e)),
        entries_map(entries.update(i, e)) == entries_map(entries).insert(entry_key(e), e.value@),
{
    let s = entries.update(i, e);
    assert(keys_unique(s)) by {
        assert forall|a: int, b: int|
            0 <= a < s.len() && 0 <= b < s.len() && a != b implies entry_key(s[a]) != entry_key(
            s[b]) by {
            assert(entry_key(s[a]) == entry_key(entries[a]));
            assert(entry_key(s[b]) == entry_key(entries[b]));
        }
    }
    assert forall|key: CredentialKey| #[trigger]
        entries_map(s).contains_key(key) == entries_map(entries).insert(
            entry_key(e),
            e.value@,
        ).contains_key(key) by {
        assert(s[i] == e);
        assert(has_key(s, entry_key(e)));
        if has_key(entries, key) {
            let j = key_index(entries, key);
            assert(entry_key(s[j]) == entry_key(entries[j]));
        }
        if has_key(s, key) {
            let j = key_index(s, key);
            assert(entry_key(s[j]) == entry_key(entries[j]));
        }
    }
    assert forall|key: CredentialKey| #[trigger] entries_map(s).contains_key(key) implies entries_map(
        s,
    )[key] == entries_map(entries).insert(entry_key(e), e.value@)[key] by {
        let j = key_index(s, key);
        lemma_key_index(s, j);
        if j != i {
            assert(s[j] == entries[j]);
            lemma_key_index(entries, j);
        }
    }
    assert(entries_map(s) =~= entries_map(entries).insert(entry_key(e), e.value@));
}

proof fn lemma_remove(entries: Seq<StoredCredential>, i: int)
    requires
        keys_unique(entries),
        0 <= i < entries.len(),
    ensures
        keys_unique(entries.remove(i)),
        entries_map(entries.remove(i)) == entries_map(entries).remove(entry_key(entries[i])),
{
    let s = entries.remove(i);
    let removed = entry_key(entries[i]);
    assert forall|j: int| 0 <= j < s.len() implies #[trigger] s[j] == (if j < i {
        entries[j]
    } else {
        entries[j + 1]
    }) by {}
    assert(keys_unique(s)) by {
        assert forall|a: int, b: int|
            0 <= a < s.len() && 0 <= b < s.len() && a != b implies entry_key(s[a]) != entry_key(
            s[b]) by {
            let a0 = if a < i {
                a
            } else {
                a + 1
            };
            let b0 = if b < i {
                b
            } else {
                b + 1
            };
            assert(s[a] == entries[a0]);
            assert(s[b] == entries[b0]);
        }
    }
    assert forall|key: CredentialKey| #[trigger]
        entries_map(s).contains_key(key) == entries_map(entries).remove(removed).contains_key(
            key,
        ) by {
        if has_key(entries, key) && key != removed {
            let j = key_index(entries, key);
            assert(j != i);
            let j2 = if j < i {
                j
            } else {
                j - 1
            };
            assert(s[j2] == entries[j]);
        }
        if has_key(s, key) {
            let j = key_index(s, key);
            let j0 = if j < i {
                j
            } else {
                j + 1
            };
            assert(s[j] == entries[j0]);
            assert(j0 != i);
        }
    }
    assert forall|key: CredentialKey| #[trigger] entries_map(s).contains_key(key) implies entries_map(
        s,
    )[key] == entries_map(entries).remove(removed)[key] by {
        let j = key_index(s, key);
        lemma_key_index(s, j);
        let j0 = if j < i {
            j
        } else {
            j + 1
        };
        assert(s[j] == entries[j0]);
        lemma_key_index(entries, j0);
    }
    assert(entries_map(s) =~= entries_map(entries).remove(removed));
}

fn contains_operation(operations: &Vec<usize>, wanted: usize) -> (r: bool)
    ensures
        r == operations@.contains(wanted),
{
    let mut i: usize = 0;
    while i < operations.len()
        invariant
            i <= operations@.len(),
            forall|j: int| 0 <= j < i ==> operations@[j] != wanted,
        decreases operations@.len() - i,
    {
        if operations[i] == wanted {
            assert(operations@[i as int] == wanted);
            return true;
        }
        i = i + 1;
    }
    false
}

/// The operation number after `n`; counting stops at the largest number.
pub open spec fn next_operation_count(n: usize) -> usize {
    if n == usize::MAX {
        usize::MAX
    } else {
        (n + 1) as usize
    }
}

/// Deterministic in-memory credential store with failure injection: the
/// operation whose number (counted from one) is in the failure set fails.
pub struct FakeCredentialStore {
    values: Vec<StoredCredential>,
    fail_at: Vec<usize>,
    operations: usize,
}

impl FakeCredentialStore {
    /// The numbers of the operations that are set to fail.
    pub closed spec fn failures(&self) -> Set<usize> {
        self.fail_at@.to_set()
    }

    /// How many operations have been counted since the last reset.
    pub closed spec fn operation_count(&self) -> usize {
        self.operations
    }

    pub fn new() -> (store: Self)
        ensures
            store.inv(),
            store.stored() == Map::<CredentialKey, Seq<u8>>::empty(),
            store.failures() == Set::<usize>::empty(),
            store.operation_count() == 0,
    {
        let store = FakeCredentialStore { values: Vec::new(), fail_at: Vec::new(), operations: 0 };
        assert(entries_map(store.values@) =~= Map::<CredentialKey, Seq<u8>>::empty());
        assert(store.fail_at@.to_set() =~= Set::<usize>::empty());
        store
    }

    /// Makes the given operation number fail.
    pub fn fail_on_operation(&mut self, operation: usize)
        requires
            old(self).inv(),
        ensures
            final(self).inv(),
            final(self).stored() == old(self).stored(),
            final(self).failures() == old(self).failures().insert(operation),
            final(self).operation_count() == old(self).operation_count(),
    {
        self.fail_at.push(operation);
        proof {
            assert(self.fail_at@.to_set() =~= old(self).fail_at@.to_set().insert(operation)) by {
                assert forall|x: usize| #[trigger]
                    self.fail_at@.to_set().contains(x) == old(self).fail_at@.to_set().insert(
                        operation,
                    ).contains(x) by {
                    if x != operation && self.fail_at@.contains(x) {
                        let k = choose|k: int| 0 <= k < self.fail_at@.len() && self.fail_at@[k] == x;
                        assert(old(self).fail_at@[k] == x);
                    }
                    if old(self).fail_at@.contains(x) {
                        let k = choose|k: int|
                            0 <= k < old(self).fail_at@.len() && old(self).fail_at@[k] == x;
                        assert(self.fail_at@[k] == x);
                    }
                    if x == operation {
                        assert(self.fail_at@[self.fail_at@.len() - 1] == x);
                    }
                }
            }
        }
    }

    /// Makes every given operation number fail.
    pub fn fail_on_operations<const N: usize>(&mut self, operations: [usize; N])
        requires
            old(self).inv(),
        ensures
            final(self).inv(),
            final(self).stored() == old(self).stored(),
            final(self).failures() == old(self).failures().union(operations@.to_set()),
            final(self).operation_count() == old(self).operation_count(),
    {
        let mut i: usize = 0;
        while i < N
            invariant
                i <= N,
                N == operations@.len(),
                self.inv(),
                self.stored() == old(self).stored(),
                self.failures() == old(self).failures().union(
                    operations@.subrange(0, i as int).to_set(),
                ),
                self.operation_count() == old(self).operation_count(),
            decreases N - i,
        {
            let operation = operations[i];
            self.fail_on_operation(operation);
            proof {
                let before = operations@.subrange(0, i as int);
                let after = operations@.subrange(0, i + 1);
                assert(after =~= before.push(operation));
                assert(after.to_set() =~= before.to_set().insert(operation)) by {
                    assert forall|x: usize| #[trigger]
                        after.to_set().contains(x) == before.to_set().insert(operation).contains(
                            x,
                        ) by {
                        if after.contains(x) {
                            let k = choose|k: int| 0 <= k < after.len() && after[k] == x;
                            if k < before.len() {
                                assert(before[k] == x);
                            }
                        }
                        if before.contains(x) {
                            let k = choose|k: int| 0 <= k < before.len() && before[k] == x;
                            assert(after[k] == x);
                        }
                        if x == operation {
                            assert(after[i as int] == x);
                        }
                    }
                }
            }
            i = i + 1;
        }
        assert(operations@.subrange(0, N as int) =~= operations@);
    }

    /// Restarts operation counting and clears every injected failure.
    pub fn reset_operations(&mut self)
        requires
            old(self).inv(),
        ensures
            final(self).inv(),
            final(self).stored() == old(self).stored(),
            final(self).failures() == Set::<usize>::empty(),
            final(self).operation_count() == 0,
    {
        self.operations = 0;
        self.fail_at.clear();
        assert(self.fail_at@.to_set() =~= Set::<usize>::empty());
    }

    fn find(&self, handle: &str, kind: CredentialKind) -> (r: Option<usize>)
        requires
            self.inv(),
        ensures
            r is None ==> !has_key(self.values@, (handle@, kind)),
            r matches Some(i) ==> i < self.values@.len() && entry_key(self.values@[i as int]) == (
            handle@, kind),
    {
        let wanted = owned_string(handle);
        let mut i: usize = 0;
        while i < self.values.len()
            invariant
                i <= self.values@.len(),
                wanted@ == handle@,
                forall|j: int| 0 <= j < i ==> entry_key(#[trigger] self.values@[j]) != (handle@, kind),
            decreases self.values@.len() - i,
        {
            let entry = &self.values[i];
            if entry.kind == kind && entry.handle == wanted {
                return Some(i);
            }
            i = i + 1;
        }
        None
    }

    /// Returns a copy of the stored value without counting an operation.
    pub fn peek(&self, handle: &str, kind: CredentialKind) -> (r: Option<Vec<u8>>)
        requires
            self.inv(),
        ensures
            r is Some == self.stored().contains_key((handle@, kind)),
            r matches Some(value) ==> value@ == self.stored()[(handle@, kind)],
    {
        match self.find(handle, kind) {
            Some(i) => {
                proof {
                    lemma_key_index(self.values@, i as int);
                }
                Some(copy_bytes(self.values[i].value.as_slice()))
            },
            None => None,
        }
    }

    /// Counts one operation and fails it when its number was injected.
    pub fn may_fail(&mut self) -> (r: Result<(), CredentialStoreError>)
        requires
            old(self).inv(),
        ensures
            final(self).inv(),
            final(self).stored() == old(self).stored(),
            final(self).failures() == old(self).failures(),
            final(self).operation_count() == if old(self).operation_count() == usize::MAX {
                usize::MAX
            } else {
                (old(self).operation_count() + 1) as usize
            },
            r is Err <==> final(self).failures().contains(final(self).operation_count()),
            r is Err ==> r == Err::<(), CredentialStoreError>(CredentialStoreError::Unavailable),
    {
        self.operations = self.operations.saturating_add(1);
        if contains_operation(&self.fail_at, self.operations) {
            return Err(CredentialStoreError::Unavailable);
        }
        Ok(())
    }
}

impl CredentialStore for FakeCredentialStore {
    closed spec fn inv(&self) -> bool {
        keys_unique(self.values@)
    }

    closed spec fn stored(&self) -> Map<CredentialKey, Seq<u8>> {
        entries_map(self.values@)
    }

    /// No operation still to come is set to fail.
    open spec fn reliable(&self) -> bool {
        forall|f: usize| #[trigger]
            self.failures().contains(f) ==> f <= self.operation_count() && f < usize::MAX
    }

    /// At most one operation still to come is set to fail.
    open spec fn fails_at_most_once(&self) -> bool {
        &&& forall|f: usize| #[trigger] self.failures().contains(f) ==> f < usize::MAX
        &&& forall|f: usize, g: usize|
            #[trigger] self.failures().contains(f) && #[trigger] self.failures().contains(g) && f
                > self.operation_count() && g > self.operation_count() ==> f == g
    }

    fn read(&mut self, handle: &str, kind: CredentialKind) -> (r: Result<
        Option<Vec<u8>>,
        CredentialStoreError,
    >)
        ensures
            final(self).failures() == old(self).failures(),
            final(self).operation_count() == next_operation_count(old(self).operation_count()),
            r is Err <==> old(self).failures().contains(
                next_operation_count(old(self).operation_count()),
            ),
            r is Err ==> r == Err::<Option<Vec<u8>>, CredentialStoreError>(
                CredentialStoreError::Unavailable,
            ),
    {
        self.may_fail()?;
        Ok(self.peek(handle, kind))
    }

    fn replace(&mut self, handle: &str, kind: CredentialKind, value: &[u8]) -> (r: Result<
        (),
        CredentialStoreError,
    >)
        ensures
            final(self).failures() == old(self).failures(),
            final(self).operation_count() == next_operation_count(old(self).operation_count()),
            old(self).failures().contains(next_operation_count(old(self).operation_count()))
                ==> r == Err::<(), CredentialStoreError>(CredentialStoreError::Unavailable),
            !old(self).failures().contains(next_operation_count(old(self).operation_count()))
                ==> r == if value@.len() > CRED_MAX_CREDENTIAL_BLOB_SIZE {
                Err::<(), CredentialStoreError>(CredentialStoreError::ValueTooLarge)
            } else {
                Ok(())
            },
    {
        self.may_fail()?;
        if value.len() > CRED_MAX_CREDENTIAL_BLOB_SIZE {
            return Err(CredentialStoreError::ValueTooLarge);
        }
        let bytes = copy_bytes(value);
        let entry = StoredCredential { handle: owned_string(handle), kind, value: bytes };
        match self.find(handle, kind) {
            Some(i) => {
                proof {
                    lemma_update(self.values@, i as int, entry);
                }
                self.values.set(i, entry);
            },
            None => {
                proof {
                    lemma_push(self.values@, entry);
                }
                self.values.push(entry);
            },
        }
        Ok(())
    }

    fn delete(&mut self, handle: &str, kind: CredentialKind) -> (r: Result<
        (),
        CredentialStoreError,
    >)
        ensures
            final(self).failures() == old(self).failures(),
            final(self).operation_count() == next_operation_count(old(self).operation_count()),
            r is Err <==> old(self).failures().contains(
                next_operation_count(old(self).operation_count()),
            ),
            r is Err ==> r == Err::<(), CredentialStoreError>(CredentialStoreError::Unavailable),
    {
        self.may_fail()?;
        match self.find(handle, kind) {
            Some(i) => {
                proof {
                    lemma_remove(self.values@, i as int);
                }
                self.values.remove(i);
            },
            None => {
                assert(entries_map(self.values@).remove((handle@, kind)) =~= entries_map(
                    self.values@,
                ));
            },
        }
        Ok(())
    }
}

} // verus!
