//! Ephemeral main-window Source drafts: draft handles bound to the composer
//! scope they were captured in, and the policy on which links may be
//! captured.

use vstd::prelude::*;

use crate::text::{
    chars_eq, chars_of, ends_with_text, find_char, first_index_of, is_unicode_whitespace,
    is_whitespace_char, leading_whitespace_len, starts_with, string_eq_str, string_of, trim_start,
};

verus! {

/// Native-owned composer scope that draft handles are bound to.
#[derive(Debug, Clone, PartialEq, Eq)]
pub enum ComposerScope {
    /// Bound to a persisted Agent session.
    Session(String),
    /// Bound to one host-generated new-session generation.
    NewSession { generation: u64 },
}

/// A composer scope as contracts speak of it.
pub enum ScopeModel {
    Session(Seq<char>),
    NewSession(u64),
}

impl View for ComposerScope {
    type V = ScopeModel;

    open spec fn view(&self) -> ScopeModel {
        match self {
            ComposerScope::Session(id) => ScopeModel::Session(id@),
            ComposerScope::NewSession { generation } => ScopeModel::NewSession(*generation),
        }
    }
}

impl ComposerScope {
    pub fn duplicate(&self) -> (r: ComposerScope)
        ensures
            r@ == self@,
    {
        match self {
            ComposerScope::Session(id) => ComposerScope::Session(id.clone()),
            ComposerScope::NewSession { generation } => ComposerScope::NewSession {
                generation: *generation,
            },
        }
    }

    /// Whether two scopes are the same scope.
    pub fn same_as(&self, other: &ComposerScope) -> (r: bool)
        ensures
            r == (self@ == other@),
    {
        match (self, other) {
            (ComposerScope::Session(a), ComposerScope::Session(b)) => *a == *b,
            (
                ComposerScope::NewSession { generation: a },
                ComposerScope::NewSession { generation: b },
            ) => *a == *b,
            _ => false,
        }
    }
}

/// Failures while capturing a Source draft.
#[derive(Debug, Clone, Copy, PartialEq, Eq, Structural)]
pub enum SourceDraftError {
    Unreadable,
    Unsupported,
    TooLarge,
    RandomUnavailable,
}

/// In-memory draft captured from one selection.
#[derive(Debug, Clone, PartialEq, Eq)]
pub struct SourceDraft {
    pub display_name: String,
    pub content: String,
    pub origin_kind: String,
    pub member_count: u32,
    pub canonical_url: Option<String>,
    scope: ComposerScope,
}

/// A draft as contracts speak of it.
pub struct DraftModel {
    pub display_name: Seq<char>,
    pub content: Seq<char>,
    pub origin_kind: Seq<char>,
    pub member_count: u32,
    pub canonical_url: Option<Seq<char>>,
    pub scope: ScopeModel,
}

pub open spec fn option_text(s: Option<String>) -> Option<Seq<char>> {
    match s {
        Some(s) => Some(s@),
        None => None,
    }
}

impl View for SourceDraft {
    type V = DraftModel;

    closed spec fn view(&self) -> DraftModel {
        DraftModel {
            display_name: self.display_name@,
            content: self.content@,
            origin_kind: self.origin_kind@,
            member_count: self.member_count,
            canonical_url: option_text(self.canonical_url),
            scope: self.scope@,
        }
    }
}

fn copy_text(s: &Option<String>) -> (r: Option<String>)
    ensures
        option_text(r) == option_text(*s),
{
    match s {
        Some(s) => Some(s.clone()),
        None => None,
    }
}

impl SourceDraft {
    /// The scope the draft is bound to.
    pub fn scope(&self) -> (r: &ComposerScope)
        ensures
            r@ == self@.scope,
    {
        &self.scope
    }

    /// A copy of the draft.
    pub fn duplicate(&self) -> (r: SourceDraft)
        ensures
            r@ == self@,
    {
        SourceDraft {
            display_name: self.display_name.clone(),
            content: self.content.clone(),
            origin_kind: self.origin_kind.clone(),
            member_count: self.member_count,
            canonical_url: copy_text(&self.canonical_url),
            scope: self.scope.duplicate(),
        }
    }
}

/// The draft stored under `handle`: the first entry with that handle.
pub open spec fn lookup_draft(entries: Seq<(String, SourceDraft)>, handle: Seq<char>) -> Option<
    DraftModel,
>
    decreases entries.len(),
{
    if entries.len() == 0 {
        None
    } else if entries[0].0@ == handle {
        Some(entries[0].1@)
    } else {
        lookup_draft(entries.drop_first(), handle)
    }
}

proof fn lemma_lookup_draft_push(
    entries: Seq<(String, SourceDraft)>,
    entry: (String, SourceDraft),
    handle: Seq<char>,
)
    ensures
        lookup_draft(entries.push(entry), handle) == (match lookup_draft(entries, handle) {
            Some(d) => Some(d),
            None => if entry.0@ == handle {
                Some(entry.1@)
            } else {
                None
            },
        }),
    decreases entries.len(),
{
    if entries.len() == 0 {
        assert(entries.push(entry).drop_first() =~= entries);
        assert(entries.push(entry)[0] == entry);
    } else {
        lemma_lookup_draft_push(entries.drop_first(), entry, handle);
        assert(entries.push(entry).drop_first() =~= entries.drop_first().push(entry));
        assert(entries.push(entry)[0] == entries[0]);
    }
}

proof fn lemma_lookup_draft_found(entries: Seq<(String, SourceDraft)>, handle: Seq<char>)
    requires
        lookup_draft(entries, handle) is Some,
    ensures
        exists|i: int|
            0 <= i < entries.len() && entries[i].0@ == handle && lookup_draft(entries, handle)
                == Some(#[trigger] entries[i].1@),
    decreases entries.len(),
{
    if entries[0].0@ != handle {
        lemma_lookup_draft_found(entries.drop_first(), handle);
        let i = choose|i: int|
            0 <= i < entries.drop_first().len() && entries.drop_first()[i].0@ == handle
                && lookup_draft(entries.drop_first(), handle) == Some(
                #[trigger] entries.drop_first()[i].1@,
            );
        assert(entries[i + 1] == entries.drop_first()[i]);
    }
}

/// Process-scoped draft handles for the main-window composer.
#[derive(Debug)]
pub struct SourceDraftStore {
    drafts: Vec<(String, SourceDraft)>,
    current_scope: ComposerScope,
    next_new_session_generation: u64,
}

/// Removes every entry stored under `handle`.
fn remove_handle(entries: &mut Vec<(String, SourceDraft)>, handle: &String)
    ensures
        forall|k: Seq<char>|
            #[trigger] lookup_draft(final(entries)@, k) == if k == handle@ {
                None
            } else {
                lookup_draft(old(entries)@, k)
            },
        forall|x: (String, SourceDraft)| final(entries)@.contains(x) ==> old(entries)@.contains(x),
{
    let mut kept: Vec<(String, SourceDraft)> = Vec::new();
    let ghost initial = entries@;
    let mut taken: usize = 0;
    let count = entries.len();
    assert(initial.len() == count);
    while entries.len() > 0
        invariant
            initial.len() <= usize::MAX,
            taken + entries@.len() == initial.len(),
            entries@ == initial.skip(taken as int),
            forall|x: (String, SourceDraft)| kept@.contains(x) ==> initial.contains(x),
            forall|k: Seq<char>|
                #[trigger] lookup_draft(kept@, k) == if k == handle@ {
                    None
                } else {
                    lookup_draft(initial.take(taken as int), k)
                },
        decreases entries@.len(),
    {
        let ghost before_kept = kept@;
        let entry = entries.remove(0);
        assert(initial.skip(taken as int)[0] == entry);
        assert(initial[taken as int] == entry);
        let keep = !(entry.0 == *handle);
        let ghost e = entry;
        if keep {
            kept.push(entry);
        }
        proof {
            assert(initial.take(taken + 1) =~= initial.take(taken as int).push(e));
            assert forall|k: Seq<char>|
                #[trigger] lookup_draft(kept@, k) == if k == handle@ {
                    None
                } else {
                    lookup_draft(initial.take(taken + 1), k)
                } by {
                lemma_lookup_draft_push(initial.take(taken as int), e, k);
                if keep {
                    lemma_lookup_draft_push(before_kept, e, k);
                }
            }
            assert forall|x: (String, SourceDraft)| kept@.contains(x) implies initial.contains(
                x,
            ) by {
                if keep && x == e {
                    assert(initial[taken as int] == x);
                } else if keep {
                    let j = choose|j: int| 0 <= j < kept@.len() && kept@[j] == x;
                    assert(before_kept.contains(x)) by {
                        assert(before_kept[j] == x);
                    }
                } else {
                }
            }
            assert(entries@ =~= initial.skip(taken + 1));
        }
        taken = taken + 1;
    }
    assert(initial.take(taken as int) =~= initial);
    *entries = kept;
}

/// Entries taken from a sequence whose drafts are all bound to `scope` are
/// bound to it too.
proof fn lemma_contained_in_scope(
    before: Seq<(String, SourceDraft)>,
    after: Seq<(String, SourceDraft)>,
    scope: ScopeModel,
)
    requires
        forall|i: int| 0 <= i < before.len() ==> (#[trigger] before[i]).1@.scope == scope,
        forall|x: (String, SourceDraft)| after.contains(x) ==> before.contains(x),
    ensures
        forall|i: int| 0 <= i < after.len() ==> (#[trigger] after[i]).1@.scope == scope,
{
    assert forall|i: int| 0 <= i < after.len() implies (#[trigger] after[i]).1@.scope == scope by {
        let x = after[i];
        assert(after.contains(x));
        assert(before.contains(x));
        let j = choose|j: int| 0 <= j < before.len() && before[j] == x;
        assert(before[j].1@.scope == scope);
    }
}

impl SourceDraftStore {
    /// The draft stored under a handle.
    pub closed spec fn draft(&self, handle: Seq<char>) -> Option<DraftModel> {
        lookup_draft(self.drafts@, handle)
    }

    /// The composer scope that new drafts are bound to.
    pub closed spec fn scope(&self) -> ScopeModel {
        self.current_scope@
    }

    /// The generation that the next new-session scope takes.
    pub closed spec fn next_generation(&self) -> u64 {
        self.next_new_session_generation
    }

    /// Every stored draft is bound to the current scope, and a new-session
    /// scope carries a generation below the next one handed out.
    #[verifier::type_invariant]
    pub closed spec fn wf(&self) -> bool {
        &&& forall|i: int|
            0 <= i < self.drafts@.len() ==> (#[trigger] self.drafts@[i]).1@.scope
                == self.current_scope@
        &&& self.current_scope@ matches ScopeModel::NewSession(g) ==> g < self.next_new_session_generation
            || self.next_new_session_generation == u64::MAX
    }

    pub fn new() -> (store: Self)
        ensures
            store.scope() == ScopeModel::NewSession(0),
            store.next_generation() == 1,
            forall|h: Seq<char>| #[trigger] store.draft(h) is None,
    {
        SourceDraftStore {
            drafts: Vec::new(),
            current_scope: ComposerScope::NewSession { generation: 0 },
            next_new_session_generation: 1,
        }
    }

    pub fn current_scope(&self) -> (r: ComposerScope)
        ensures
            r@ == self.scope(),
    {
        self.current_scope.duplicate()
    }

    /// Binds the composer to a session scope; moving to another scope
    /// invalidates every draft.
    pub fn bind_session_scope(&mut self, session_id: String)
        ensures
            final(self).scope() == ScopeModel::Session(session_id@),
            final(self).next_generation() == old(self).next_generation(),
            old(self).scope() == ScopeModel::Session(session_id@) ==> forall|h: Seq<char>|
                #[trigger] final(self).draft(h) == old(self).draft(h),
            old(self).scope() != ScopeModel::Session(session_id@) ==> forall|h: Seq<char>|
                #[trigger] final(self).draft(h) is None,
    {
        proof {
            use_type_invariant(&*self);
        }
        let next = ComposerScope::Session(session_id);
        if !self.current_scope.same_as(&next) {
            self.drafts = Vec::new();
            self.current_scope = next;
        }
    }

    /// Advances the host-owned new-session generation and invalidates every
    /// draft.
    pub fn begin_new_session_scope(&mut self)
        ensures
            final(self).scope() == ScopeModel::NewSession(old(self).next_generation()),
            final(self).next_generation() == (if old(self).next_generation() == u64::MAX {
                u64::MAX
            } else {
                (old(self).next_generation() + 1) as u64
            }),
            forall|h: Seq<char>| #[trigger] final(self).draft(h) is None,
    {
        proof {
            use_type_invariant(&*self);
        }
        let generation = self.next_new_session_generation;
        self.drafts = Vec::new();
        self.next_new_session_generation = self.next_new_session_generation.saturating_add(1);
        self.current_scope = ComposerScope::NewSession { generation };
    }

    /// Invalidates every draft.
    pub fn clear_all(&mut self)
        ensures
            final(self).scope() == old(self).scope(),
            final(self).next_generation() == old(self).next_generation(),
            forall|h: Seq<char>| #[trigger] final(self).draft(h) is None,
    {
        proof {
            use_type_invariant(&*self);
        }
        self.drafts = Vec::new();
    }

    /// Invalidates one draft handle.
    pub fn clear_handle(&mut self, handle: &str)
        ensures
            final(self).scope() == old(self).scope(),
            final(self).next_generation() == old(self).next_generation(),
            final(self).draft(handle@) is None,
            forall|h: Seq<char>|
                h != handle@ ==> #[trigger] final(self).draft(h) == old(self).draft(h),
    {
        proof {
            use_type_invariant(&*self);
        }
        let owned = handle.to_owned();
        let mut drafts: Vec<(String, SourceDraft)> = Vec::new();
        std::mem::swap(&mut drafts, &mut self.drafts);
        remove_handle(&mut drafts, &owned);
        proof {
            lemma_contained_in_scope(old(self).drafts@, drafts@, self.current_scope@);
        }
        self.drafts = drafts;
    }

    /// Stores a new draft under a fresh random handle, bound to the current
    /// scope.
    pub fn insert(
        &mut self,
        display_name: String,
        content: String,
        origin_kind: String,
        member_count: u32,
        canonical_url: Option<String>,
    ) -> (r: Result<String, SourceDraftError>)
        ensures
            final(self).scope() == old(self).scope(),
            final(self).next_generation() == old(self).next_generation(),
            match r {
                Ok(handle) => {
                    &&& is_draft_handle(handle@)
                    &&& final(self).draft(handle@) == Some(
                        DraftModel {
                            display_name: display_name@,
                            content: content@,
                            origin_kind: origin_kind@,
                            member_count,
                            canonical_url: option_text(canonical_url),
                            scope: old(self).scope(),
                        },
                    )
                    &&& forall|h: Seq<char>|
                        h != handle@ ==> #[trigger] final(self).draft(h) == old(self).draft(h)
                },
                Err(e) => {
                    &&& e == SourceDraftError::RandomUnavailable
                    &&& forall|h: Seq<char>| #[trigger] final(self).draft(h) == old(self).draft(h)
                },
            },
    {
        proof {
            use_type_invariant(&*self);
        }
        let handle = generate_draft_handle()?;
        let draft = SourceDraft {
            display_name,
            content,
            origin_kind,
            member_count,
            canonical_url,
            scope: self.current_scope.duplicate(),
        };
        let ghost model = draft@;
        let mut drafts: Vec<(String, SourceDraft)> = Vec::new();
        std::mem::swap(&mut drafts, &mut self.drafts);
        remove_handle(&mut drafts, &handle);
        proof {
            lemma_contained_in_scope(old(self).drafts@, drafts@, self.current_scope@);
        }
        let ghost before = drafts@;
        let entry = (handle.clone(), draft);
        let ghost e = entry;
        drafts.push(entry);
        proof {
            assert forall|h: Seq<char>| #[trigger] lookup_draft(drafts@, h) == (if h == handle@ {
                Some(model)
            } else {
                lookup_draft(old(self).drafts@, h)
            }) by {
                lemma_lookup_draft_push(before, e, h);
            }
            assert forall|i: int| 0 <= i < drafts@.len() implies (
            #[trigger] drafts@[i]).1@.scope == self.current_scope@ by {
                if i < before.len() {
                    assert(drafts@[i] == before[i]);
                }
            }
        }
        self.drafts = drafts;
        Ok(handle)
    }

    /// A copy of the draft stored under `handle`.
    pub fn get(&self, handle: &str) -> (r: Option<SourceDraft>)
        ensures
            match r {
                Some(d) => self.draft(handle@) == Some(d@),
                None => self.draft(handle@) is None,
            },
    {
        let entries = &self.drafts;
        let mut i: usize = 0;
        assert(entries@.skip(0) =~= entries@);
        while i < entries.len()
            invariant
                i <= entries@.len(),
                *entries == self.drafts,
                lookup_draft(entries@, handle@) == lookup_draft(entries@.skip(i as int), handle@),
            decreases entries@.len() - i,
        {
            assert(entries@.skip(i as int)[0] == entries@[i as int]);
            if string_eq_str(&entries[i].0, handle) {
                return Some(entries[i].1.duplicate());
            }
            assert(entries@.skip(i as int).drop_first() =~= entries@.skip(i + 1));
            i = i + 1;
        }
        assert(entries@.skip(i as int) =~= Seq::<(String, SourceDraft)>::empty());
        None
    }

    /// The draft under `handle`, only when it is bound to `send_target`.
    pub fn resolve_for_send(&self, handle: &str, send_target: &ComposerScope) -> (r: Option<
        SourceDraft,
    >)
        ensures
            match r {
                Some(d) => self.draft(handle@) == Some(d@) && d@.scope == send_target@,
                None => match self.draft(handle@) {
                    Some(d) => d.scope != send_target@,
                    None => true,
                },
            },
    {
        let draft = self.get(handle)?;
        if draft.scope().same_as(send_target) {
            Some(draft)
        } else {
            None
        }
    }

    /// Replaces every draft with one new draft.
    pub fn replace_with(
        &mut self,
        display_name: String,
        content: String,
        origin_kind: String,
        member_count: u32,
        canonical_url: Option<String>,
    ) -> (r: Result<String, SourceDraftError>)
        ensures
            final(self).scope() == old(self).scope(),
            final(self).next_generation() == old(self).next_generation(),
            match r {
                Ok(handle) => {
                    &&& is_draft_handle(handle@)
                    &&& final(self).draft(handle@) == Some(
                        DraftModel {
                            display_name: display_name@,
                            content: content@,
                            origin_kind: origin_kind@,
                            member_count,
                            canonical_url: option_text(canonical_url),
                            scope: old(self).scope(),
                        },
                    )
                    &&& forall|h: Seq<char>| h != handle@ ==> #[trigger] final(self).draft(h) is None
                },
                Err(e) => {
                    &&& e == SourceDraftError::RandomUnavailable
                    &&& forall|h: Seq<char>| #[trigger] final(self).draft(h) is None
                },
            },
    {
        self.clear_all();
        self.insert(display_name, content, origin_kind, member_count, canonical_url)
    }

    /// The send-target scope for an optional session identifier: a session
    /// send targets that session, a new-session send only the current
    /// new-session generation.
    pub fn send_target_for_session(&self, session_id: Option<String>) -> (r: Option<ComposerScope>)
        ensures
            match session_id {
                Some(id) => r matches Some(s) && s@ == ScopeModel::Session(id@),
                None => match self.scope() {
                    ScopeModel::NewSession(g) => r matches Some(s) && s@ == ScopeModel::NewSession(
                        g,
                    ),
                    ScopeModel::Session(_) => r is None,
                },
            },
    {
        match session_id {
            Some(id) => Some(ComposerScope::Session(id)),
            None => match &self.current_scope {
                ComposerScope::NewSession { generation } => Some(
                    ComposerScope::NewSession { generation: *generation },
                ),
                ComposerScope::Session(_) => None,
            },
        }
    }
}

/// Law: every draft a store holds is bound to the store's current scope, so
/// a handle captured before a scope change never resolves afterwards.
pub proof fn lemma_drafts_belong_to_current_scope(store: &SourceDraftStore, handle: Seq<char>)
    requires
        store.wf(),
    ensures
        store.draft(handle) matches Some(d) ==> d.scope == store.scope(),
{
    if store.draft(handle) is Some {
        lemma_lookup_draft_found(store.drafts@, handle);
    }
}

/// Law: a store's new-session scope always carries a generation below the
/// next one to be handed out (until the counter saturates). As no operation
/// lowers the next generation, every new-session scope opened later carries
/// a generation above every earlier one.
pub proof fn lemma_new_session_generations_increase(store: &SourceDraftStore)
    requires
        store.wf(),
    ensures
        store.scope() matches ScopeModel::NewSession(g) ==> g < store.next_generation()
            || store.next_generation() == u64::MAX,
{
}

/// A filesystem path, carried through opaquely.
#[verifier::external_type_specification]
#[verifier::external_body]
pub struct ExPathBuf(std::path::PathBuf);

/// What `Path::file_name` gives for a path, kept only when it is valid
/// Unicode (`OsStr::to_str`): a function of the path alone.
pub uninterp spec fn path_file_name(path: std::path::PathBuf) -> Option<Seq<char>>;

/// Calls `Path::file_name` and keeps the final component only when it is
/// valid Unicode (`OsStr::to_str`). The contract names the result as a
/// function of the path and says nothing more of it.
#[verifier::external_body]
fn path_file_name_text(path: &std::path::PathBuf) -> (r: Option<String>)
    ensures
        option_text(r) == path_file_name(*path),
{
    path.file_name().and_then(|name| name.to_str()).map(|name| name.to_owned())
}

/// The final component of a picked path, when it is valid Unicode.
pub fn lossless_basename(path: &std::path::PathBuf) -> (r: Option<String>)
    ensures
        option_text(r) == path_file_name(*path),
{
    path_file_name_text(path)
}

/// Lower-case hexadecimal digit of a value below sixteen.
pub open spec fn hex_lower_digit(n: u8) -> char {
    if n < 10 {
        (48 + n) as char
    } else {
        (87 + n) as char
    }
}

/// Two lower-case hexadecimal digits per byte, high digit first.
pub open spec fn hex_lower(bytes: Seq<u8>) -> Seq<char>
    decreases bytes.len(),
{
    if bytes.len() == 0 {
        seq![]
    } else {
        hex_lower(bytes.drop_last()) + seq![
            hex_lower_digit(bytes.last() / 16),
            hex_lower_digit(bytes.last() % 16),
        ]
    }
}

/// A draft handle: sixteen bytes written as lower-case hexadecimal.
pub open spec fn is_draft_handle(handle: Seq<char>) -> bool {
    exists|bytes: Seq<u8>| bytes.len() == 16 && handle == #[trigger] hex_lower(bytes)
}

proof fn lemma_hex_lower_shape(bytes: Seq<u8>)
    ensures
        hex_lower(bytes).len() == 2 * bytes.len(),
        forall|i: int|
            0 <= i < hex_lower(bytes).len() ==> {
                let c = #[trigger] hex_lower(bytes)[i];
                ('0' <= c <= '9') || ('a' <= c <= 'f')
            },
    decreases bytes.len(),
{
    if bytes.len() > 0 {
        lemma_hex_lower_shape(bytes.drop_last());
        let h = hex_lower(bytes);
        let p = hex_lower(bytes.drop_last());
        assert forall|i: int| 0 <= i < h.len() implies {
            let c = #[trigger] h[i];
            ('0' <= c <= '9') || ('a' <= c <= 'f')
        } by {
            if i < p.len() {
                assert(h[i] == p[i]);
            }
        }
    }
}

/// Law: a draft handle is thirty-two lower-case hexadecimal digits.
pub proof fn lemma_draft_handle_shape(handle: Seq<char>)
    requires
        is_draft_handle(handle),
    ensures
        handle.len() == 32,
        forall|i: int|
            0 <= i < handle.len() ==> ('0' <= #[trigger] handle[i] <= '9') || ('a' <= handle[i]
                <= 'f'),
{
    let bytes = choose|bytes: Seq<u8>| bytes.len() == 16 && handle == #[trigger] hex_lower(bytes);
    lemma_hex_lower_shape(bytes);
}

/// Calls `getrandom::fill` on the buffer: the system's random source fills
/// it, or the call fails. Nothing is promised of the bytes.
#[verifier::external_body]
fn fill_random(dest: &mut Vec<u8>) -> (r: Result<(), ()>)
    ensures
        final(dest)@.len() == old(dest)@.len(),
{
    getrandom::fill(dest.as_mut_slice()).map_err(|_| ())
}

fn hex_digit(n: u8) -> (c: char)
    requires
        n < 16,
    ensures
        c == hex_lower_digit(n),
{
    if n < 10 {
        (48u8 + n) as char
    } else {
        (87u8 + n) as char
    }
}

/// A fresh draft handle from sixteen random bytes.
pub fn generate_draft_handle() -> (r: Result<String, SourceDraftError>)
    ensures
        match r {
            Ok(handle) => is_draft_handle(handle@),
            Err(e) => e == SourceDraftError::RandomUnavailable,
        },
{
    let mut bytes: Vec<u8> = vec![0u8; 16];
    if fill_random(&mut bytes).is_err() {
        return Err(SourceDraftError::RandomUnavailable);
    }
    let mut handle = String::new();
    let mut i: usize = 0;
    while i < bytes.len()
        invariant
            i <= bytes@.len(),
            bytes@.len() == 16,
            handle@ == hex_lower(bytes@.take(i as int)),
        decreases bytes@.len() - i,
    {
        let byte = bytes[i];
        handle.push(hex_digit(byte / 16));
        handle.push(hex_digit(byte % 16));
        let ghost prefix = bytes@.take(i + 1);
        assert(prefix.drop_last() =~= bytes@.take(i as int));
        assert(prefix.last() == byte);
        assert(handle@ =~= hex_lower(prefix));
        i = i + 1;
    }
    assert(bytes@.take(16) =~= bytes@);
    Ok(handle)
}

/// `char::to_ascii_lowercase`.
pub open spec fn ascii_lower_char(c: char) -> char {
    if 65 <= (c as u32) <= 90 {
        ((c as u32) + 32) as char
    } else {
        c
    }
}

/// `str::to_ascii_lowercase`.
pub open spec fn ascii_lowercase(s: Seq<char>) -> Seq<char> {
    Seq::new(s.len(), |i: int| ascii_lower_char(s[i]))
}

fn lower_char(c: char) -> (r: char)
    ensures
        r == ascii_lower_char(c),
{
    let n = c as u32;
    if 65 <= n && n <= 90 {
        ((n + 32) as u8) as char
    } else {
        c
    }
}

fn ascii_lowercase_of(s: &[char]) -> (r: Vec<char>)
    ensures
        r@ == ascii_lowercase(s@),
{
    let mut out: Vec<char> = Vec::new();
    let mut i: usize = 0;
    while i < s.len()
        invariant
            i <= s@.len(),
            out@ == ascii_lowercase(s@.take(i as int)),
        decreases s@.len() - i,
    {
        out.push(lower_char(s[i]));
        i = i + 1;
        assert(out@ =~= ascii_lowercase(s@.take(i as int)));
    }
    assert(s@.take(s@.len() as int) =~= s@);
    out
}

/// The number of whitespace characters that a text ends with.
pub open spec fn trailing_whitespace(s: Seq<char>) -> nat
    decreases s.len(),
{
    if s.len() > 0 && is_unicode_whitespace(s.last()) {
        1 + trailing_whitespace(s.drop_last())
    } else {
        0
    }
}

/// `str::trim`.
pub open spec fn trim_text(s: Seq<char>) -> Seq<char> {
    let t = trim_start(s);
    t.take(t.len() - trailing_whitespace(t))
}

proof fn lemma_trailing_whitespace(s: Seq<char>, k: int)
    requires
        0 <= k <= s.len(),
        forall|i: int| s.len() - k <= i < s.len() ==> is_unicode_whitespace(#[trigger] s[i]),
        k < s.len() ==> !is_unicode_whitespace(s[s.len() - k - 1]),
    ensures
        trailing_whitespace(s) == k,
    decreases k,
{
    if k > 0 {
        assert forall|i: int| s.drop_last().len() - (k - 1) <= i < s.drop_last().len() implies
            is_unicode_whitespace(#[trigger] s.drop_last()[i]) by {
            assert(s.drop_last()[i] == s[i]);
        }
        lemma_trailing_whitespace(s.drop_last(), k - 1);
    }
}

fn trim_of(s: &[char]) -> (r: Vec<char>)
    ensures
        r@ == trim_text(s@),
{
    let start = leading_whitespace_len(s);
    let t = &s[start..s.len()];
    assert(t@ =~= trim_start(s@));
    let mut k: usize = 0;
    while k < t.len()
        invariant
            k <= t@.len(),
            forall|i: int| t@.len() - k <= i < t@.len() ==> is_unicode_whitespace(#[trigger] t@[i]),
        ensures
            k <= t@.len(),
            forall|i: int| t@.len() - k <= i < t@.len() ==> is_unicode_whitespace(#[trigger] t@[i]),
            k < t@.len() ==> !is_unicode_whitespace(t@[t@.len() - k - 1]),
        decreases t@.len() - k,
    {
        if !is_whitespace_char(t[t.len() - k - 1]) {
            break;
        }
        k = k + 1;
    }
    proof {
        lemma_trailing_whitespace(t@, k as int);
    }
    let r = vstd::slice::slice_to_vec(&t[0..t.len() - k]);
    assert(r@ =~= trim_text(s@));
    r
}

/// The media type of a `Content-Type` value: the part before any `;`,
/// trimmed and in ASCII lower case.
pub open spec fn media_type(raw: Seq<char>) -> Seq<char> {
    ascii_lowercase(trim_text(raw.take(first_index_of(raw, ';') as int)))
}

/// Text types, and the JSON, XML and script application types, may be
/// captured from a link.
pub open spec fn is_allowed_content_type(content_type: Option<Seq<char>>) -> bool {
    match content_type {
        None => false,
        Some(raw) => {
            let value = media_type(raw);
            value.len() > 0 && (starts_with(value, "text/"@) || value == "application/json"@
                || value == "application/xml"@ || value == "application/javascript"@ || value
                == "application/ecmascript"@ || value == "application/x-javascript"@)
        },
    }
}

pub fn is_allowed_link_content_type(content_type: Option<&str>) -> (r: bool)
    ensures
        r == is_allowed_content_type(
            match content_type {
                Some(s) => Some(s@),
                None => None,
            },
        ),
{
    let raw = match content_type {
        Some(raw) => chars_of(raw),
        None => return false,
    };
    let end = find_char(&raw, ';');
    let value = ascii_lowercase_of(&trim_of(&raw[0..end]));
    assert(raw@.take(end as int) =~= raw@.subrange(0, end as int));
    if value.len() == 0 {
        return false;
    }
    let text = chars_of("text/");
    if value.len() >= text.len() && chars_eq(&value[0..text.len()], &text) {
        assert(value@.take(text@.len() as int) =~= value@.subrange(0, text@.len() as int));
        return true;
    }
    assert(!starts_with(value@, "text/"@)) by {
        if starts_with(value@, "text/"@) {
            assert(value@.take(text@.len() as int) =~= value@.subrange(0, text@.len() as int));
        }
    }
    chars_eq(&value, &chars_of("application/json")) || chars_eq(&value, &chars_of("application/xml"))
        || chars_eq(&value, &chars_of("application/javascript")) || chars_eq(
        &value,
        &chars_of("application/ecmascript"),
    ) || chars_eq(&value, &chars_of("application/x-javascript"))
}

/// A host without its trailing dots.
pub open spec fn strip_trailing_dots(s: Seq<char>) -> Seq<char>
    decreases s.len(),
{
    if s.len() > 0 && s.last() == '.' {
        strip_trailing_dots(s.drop_last())
    } else {
        s
    }
}

/// The host a link names, as the link policy compares it.
pub open spec fn normalized_host(host: Seq<char>) -> Seq<char> {
    ascii_lowercase(strip_trailing_dots(host))
}

/// Hosts that are never fetched: empty ones and the loopback names.
pub open spec fn host_refused(normalized: Seq<char>) -> bool {
    normalized.len() == 0 || normalized == "localhost"@ || ends_with_text(
        normalized,
        ".localhost"@,
    )
}

fn strip_trailing_dots_of(s: &[char]) -> (r: &[char])
    ensures
        r@ == strip_trailing_dots(s@),
    decreases s@.len(),
{
    if s.len() > 0 && s[s.len() - 1] == '.' {
        let shorter = &s[0..s.len() - 1];
        assert(shorter@ =~= s@.drop_last());
        strip_trailing_dots_of(shorter)
    } else {
        s
    }
}

/// The normalized host of a link, or `None` for a host that is refused
/// outright.
pub fn normalize_link_host(host: &str) -> (r: Option<String>)
    ensures
        match r {
            Some(n) => n@ == normalized_host(host@) && !host_refused(n@),
            None => host_refused(normalized_host(host@)),
        },
{
    let chars = chars_of(host);
    let normalized = ascii_lowercase_of(strip_trailing_dots_of(&chars));
    if normalized.len() == 0 || chars_eq(&normalized, &chars_of("localhost"))
        || crate::text::text_ends_with(&normalized, &chars_of(".localhost")) {
        return None;
    }
    Some(string_of(&normalized))
}

/// The address between the brackets of a bracketed host.
pub open spec fn bracketed_inner(host: Seq<char>) -> Option<Seq<char>> {
    if host.len() >= 2 && host[0] == '[' && host.last() == ']' {
        Some(host.subrange(1, host.len() - 1))
    } else {
        None
    }
}

pub fn bracketed_address(host: &str) -> (r: Option<String>)
    ensures
        option_text(r) == bracketed_inner(host@),
{
    let chars = chars_of(host);
    if chars.len() >= 2 && chars[0] == '[' && chars[chars.len() - 1] == ']' {
        Some(string_of(&chars[1..chars.len() - 1]))
    } else {
        None
    }
}

/// IPv4 addresses a link may not reach: this network, private, loopback,
/// shared, link-local and multicast or reserved ranges.
pub open spec fn blocked_ipv4(octets: Seq<u8>) -> bool {
    octets[0] == 0 || octets[0] == 10 || octets[0] == 127 || (octets[0] == 100 && (octets[1]
        & 0xC0u8) == 64) || (octets[0] == 169 && octets[1] == 254) || (octets[0] == 172 && (16
        <= octets[1] <= 31)) || (octets[0] == 192 && octets[1] == 168) || octets[0] >= 224
}

/// IPv6 addresses a link may not reach: a leading zero segment, unique
/// local, link-local and loopback.
pub open spec fn blocked_ipv6(segments: Seq<u16>) -> bool {
    segments[0] == 0 || (segments[0] & 0xFE00u16) == 0xFC00 || (segments[0] & 0xFFC0u16)
        == 0xFE80 || segments == seq![0u16, 0, 0, 0, 0, 0, 0, 1]
}

pub fn is_blocked_ipv4(octets: [u8; 4]) -> (r: bool)
    ensures
        r == blocked_ipv4(octets@),
{
    octets[0] == 0 || octets[0] == 10 || octets[0] == 127 || (octets[0] == 100 && (octets[1]
        & 0xC0u8) == 64) || (octets[0] == 169 && octets[1] == 254) || (octets[0] == 172 && (
    octets[1] >= 16 && octets[1] <= 31)) || (octets[0] == 192 && octets[1] == 168) || octets[0]
        >= 224
}

pub fn is_blocked_ipv6(segments: [u16; 8]) -> (r: bool)
    ensures
        r == blocked_ipv6(segments@),
{
    let loopback = segments[0] == 0 && segments[1] == 0 && segments[2] == 0 && segments[3] == 0
        && segments[4] == 0 && segments[5] == 0 && segments[6] == 0 && segments[7] == 1;
    assert(loopback == (segments@ == seq![0u16, 0, 0, 0, 0, 0, 0, 1])) by {
        if segments@ == seq![0u16, 0, 0, 0, 0, 0, 0, 1] {
            assert(segments@[7] == 1);
        }
        if loopback {
            assert(segments@ =~= seq![0u16, 0, 0, 0, 0, 0, 0, 1]);
        }
    }
    segments[0] == 0 || (segments[0] & 0xFE00u16) == 0xFC00 || (segments[0] & 0xFFC0u16) == 0xFE80
        || loopback
}

/// An IP address as the link address policy reads it.
#[derive(Debug, Clone, Copy, PartialEq, Eq)]
pub enum HostAddress {
    V4([u8; 4]),
    V6([u16; 8]),
}

/// Whether a link may not reach an address.
pub open spec fn address_blocked(address: HostAddress) -> bool {
    match address {
        HostAddress::V4(octets) => blocked_ipv4(octets@),
        HostAddress::V6(segments) => blocked_ipv6(segments@),
    }
}

/// The verdict on one address: refused where the policy blocks it.
pub open spec fn address_verdict_spec(address: HostAddress) -> Result<(), SourceDraftError> {
    if address_blocked(address) {
        Err(SourceDraftError::Unsupported)
    } else {
        Ok(())
    }
}

pub fn address_verdict(address: &HostAddress) -> (r: Result<(), SourceDraftError>)
    ensures
        r == address_verdict_spec(*address),
{
    let blocked = match address {
        HostAddress::V4(octets) => is_blocked_ipv4(*octets),
        HostAddress::V6(segments) => is_blocked_ipv6(*segments),
    };
    if blocked {
        Err(SourceDraftError::Unsupported)
    } else {
        Ok(())
    }
}

/// The verdict on a link host that is an address literal, written bare or in
/// brackets: `None` where it is neither, so its name must be resolved.
pub fn literal_host_verdict(literal: Option<HostAddress>, bracketed: Option<HostAddress>) -> (r:
    Option<Result<(), SourceDraftError>>)
    ensures
        r == match literal {
            Some(a) => Some(address_verdict_spec(a)),
            None => match bracketed {
                Some(a) => Some(address_verdict_spec(a)),
                None => None,
            },
        },
{
    match literal {
        Some(a) => Some(address_verdict(&a)),
        None => match bracketed {
            Some(a) => Some(address_verdict(&a)),
            None => None,
        },
    }
}

/// The verdict on the addresses a host name resolves to: refused where it
/// resolves to none, or to any blocked address.
pub open spec fn resolved_verdict(addresses: Seq<HostAddress>) -> Result<(), SourceDraftError> {
    if addresses.len() == 0 || exists|i: int| 0 <= i < addresses.len() && #[trigger] address_blocked(
        addresses[i],
    ) {
        Err(SourceDraftError::Unsupported)
    } else {
        Ok(())
    }
}

pub fn resolved_addresses_verdict(addresses: &[HostAddress]) -> (r: Result<(), SourceDraftError>)
    ensures
        r == resolved_verdict(addresses@),
{
    if addresses.len() == 0 {
        return Err(SourceDraftError::Unsupported);
    }
    let mut i: usize = 0;
    while i < addresses.len()
        invariant
            i <= addresses@.len(),
            forall|j: int| 0 <= j < i ==> !#[trigger] address_blocked(addresses@[j]),
        decreases addresses@.len() - i,
    {
        if address_verdict(&addresses[i]).is_err() {
            assert(address_blocked(addresses@[i as int]));
            return Err(SourceDraftError::Unsupported);
        }
        i = i + 1;
    }
    Ok(())
}

/// What `url::Url::parse` makes of a link: its scheme and its host text,
/// `None` where parsing fails.
pub uninterp spec fn url_scheme_and_host(input: Seq<char>) -> Option<(Seq<char>, Option<Seq<char>>)>;

/// Calls `url::Url::parse` and reads `scheme` and `host_str` of the result.
/// The contract names the outcome as a function of the input only.
#[verifier::external_body]
fn parse_url_scheme_and_host(input: &str) -> (r: Option<(String, Option<String>)>)
    ensures
        match r {
            Some((scheme, host)) => url_scheme_and_host(input@) == Some((scheme@, option_text(host))),
            None => url_scheme_and_host(input@) is None,
        },
{
    url::Url::parse(input).ok().map(|u| (u.scheme().to_owned(), u.host_str().map(str::to_owned)))
}

/// The host that a link destination must still be checked for, once its
/// scheme and host have passed the policy.
pub open spec fn link_destination_spec(url: Seq<char>) -> Result<Seq<char>, SourceDraftError> {
    match url_scheme_and_host(url) {
        None => Err(SourceDraftError::Unsupported),
        Some((scheme, host)) => link_parts_spec(scheme, host),
    }
}

/// The policy on a parsed link's scheme and host: only `https` with a host
/// that is neither empty nor local passes, normalized.
pub open spec fn link_parts_spec(scheme: Seq<char>, host: Option<Seq<char>>) -> Result<
    Seq<char>,
    SourceDraftError,
> {
    if scheme != "https"@ {
        Err(SourceDraftError::Unsupported)
    } else {
        match host {
            None => Err(SourceDraftError::Unsupported),
            Some(h) => if host_refused(normalized_host(h)) {
                Err(SourceDraftError::Unsupported)
            } else {
                Ok(normalized_host(h))
            },
        }
    }
}

/// Checks a link's scheme and host name, and gives the normalized host
/// whose addresses remain to be checked.
pub fn validate_link_destination(url: &str) -> (r: Result<String, SourceDraftError>)
    ensures
        match r {
            Ok(host) => link_destination_spec(url@) == Ok::<Seq<char>, SourceDraftError>(host@),
            Err(e) => link_destination_spec(url@) == Err::<Seq<char>, SourceDraftError>(e),
        },
{
    match parse_url_scheme_and_host(url) {
        Some((scheme, host)) => validate_link_parts(&scheme, &host),
        None => Err(SourceDraftError::Unsupported),
    }
}

/// Applies the link policy to a parsed link's scheme and host.
pub fn validate_link_parts(scheme: &String, host: &Option<String>) -> (r: Result<
    String,
    SourceDraftError,
>)
    ensures
        match r {
            Ok(h) => link_parts_spec(scheme@, option_text(*host)) == Ok::<
                Seq<char>,
                SourceDraftError,
            >(h@),
            Err(e) => link_parts_spec(scheme@, option_text(*host)) == Err::<
                Seq<char>,
                SourceDraftError,
            >(e),
        },
{
    if !string_eq_str(scheme, "https") {
        return Err(SourceDraftError::Unsupported);
    }
    let host = match host {
        Some(host) => host,
        None => return Err(SourceDraftError::Unsupported),
    };
    match normalize_link_host(host.as_str()) {
        Some(normalized) => Ok(normalized),
        None => Err(SourceDraftError::Unsupported),
    }
}

/// Most HTTPS redirects a link capture follows.
pub const MAX_LINK_REDIRECTS: usize = 5;

/// What a link fetch needs to know of one HTTP response.
#[derive(Debug, PartialEq, Eq)]
pub enum LinkResponse {
    /// A redirection status, with its `Location` header where that is text.
    Redirect(Option<String>),
    /// A success status.
    Success,
    /// Any other status.
    Failure,
}

/// What a link fetch does after a response.
#[derive(Debug, PartialEq, Eq)]
pub enum LinkFetchStep {
    /// Fetch `url` next, once the addresses of `host` pass the address check.
    Follow { url: String, host: String },
    /// Read the body of this response.
    ReadBody,
    /// Give up with this error.
    Stop(SourceDraftError),
}

/// What `url::Url::parse` gives for an absolute link, serialized again by
/// `Url::to_string`.
pub uninterp spec fn url_serialization(input: Seq<char>) -> Option<Seq<char>>;

/// What `Url::join` gives for a reference resolved against a base link,
/// serialized by `Url::to_string`.
pub uninterp spec fn url_joined(base: Seq<char>, reference: Seq<char>) -> Option<Seq<char>>;

/// Calls `url::Url::parse` and serializes the result with `to_string`.
#[verifier::external_body]
fn serialize_absolute_url(input: &str) -> (r: Option<String>)
    ensures
        option_text(r) == url_serialization(input@),
{
    url::Url::parse(input).ok().map(|u| u.to_string())
}

/// Parses `base` with `url::Url::parse`, resolves `reference` against it with
/// `Url::join`, and serializes the result with `to_string`.
#[verifier::external_body]
fn join_url_reference(base: &str, reference: &str) -> (r: Option<String>)
    ensures
        option_text(r) == url_joined(base@, reference@),
{
    url::Url::parse(base).and_then(|b| b.join(reference)).ok().map(|u| u.to_string())
}

/// Where a redirect leads: the location itself where it is an absolute
/// link, else the location resolved against the current link.
pub open spec fn redirect_target(current: Seq<char>, location: Seq<char>) -> Option<Seq<char>> {
    match url_serialization(location) {
        Some(next) => Some(next),
        None => url_joined(current, location),
    }
}

/// The redirect target of a response to `current`.
pub fn resolve_redirect(current: &str, location: &str) -> (r: Option<String>)
    ensures
        option_text(r) == redirect_target(current@, location@),
{
    match serialize_absolute_url(location) {
        Some(next) => Some(next),
        None => join_url_reference(current, location),
    }
}

/// Decides what a link fetch does after the response to `current`, when
/// `redirects` redirects were already followed: a failure status stops as
/// unreadable, a success reads the body, and a redirect is followed only to
/// a link that passes the destination policy and within the redirect budget,
/// so a fetch makes at most `MAX_LINK_REDIRECTS + 1` requests.
pub fn link_fetch_step(current: &str, redirects: usize, response: LinkResponse) -> (r: LinkFetchStep)
    ensures
        match response {
            LinkResponse::Failure => r == LinkFetchStep::Stop(SourceDraftError::Unreadable),
            LinkResponse::Success => r == LinkFetchStep::ReadBody,
            LinkResponse::Redirect(None) => r == LinkFetchStep::Stop(SourceDraftError::Unsupported),
            LinkResponse::Redirect(Some(location)) => match redirect_target(current@, location@) {
                None => r == LinkFetchStep::Stop(SourceDraftError::Unsupported),
                Some(next) => match link_destination_spec(next) {
                    Err(e) => r == LinkFetchStep::Stop(e),
                    Ok(host) => if redirects >= MAX_LINK_REDIRECTS {
                        r == LinkFetchStep::Stop(SourceDraftError::Unsupported)
                    } else {
                        r matches LinkFetchStep::Follow { url, host: h } && url@ == next && h@
                            == host
                    },
                },
            },
        },
        r is Follow ==> redirects < MAX_LINK_REDIRECTS,
{
    match response {
        LinkResponse::Failure => LinkFetchStep::Stop(SourceDraftError::Unreadable),
        LinkResponse::Success => LinkFetchStep::ReadBody,
        LinkResponse::Redirect(None) => LinkFetchStep::Stop(SourceDraftError::Unsupported),
        LinkResponse::Redirect(Some(location)) => {
            let next = match resolve_redirect(current, location.as_str()) {
                Some(next) => next,
                None => return LinkFetchStep::Stop(SourceDraftError::Unsupported),
            };
            let host = match validate_link_destination(next.as_str()) {
                Ok(host) => host,
                Err(e) => return LinkFetchStep::Stop(e),
            };
            if redirects >= MAX_LINK_REDIRECTS {
                LinkFetchStep::Stop(SourceDraftError::Unsupported)
            } else {
                LinkFetchStep::Follow { url: next, host }
            }
        },
    }
}

/// Appends one chunk of a fetched body, refusing a body that would exceed
/// `limit` bytes.
pub fn append_body_chunk(buffer: &mut Vec<u8>, chunk: &[u8], limit: usize) -> (r: Result<
    (),
    SourceDraftError,
>)
    ensures
        old(buffer)@.len() + chunk@.len() > limit ==> r == Err::<(), SourceDraftError>(
            SourceDraftError::TooLarge,
        ) && final(buffer)@ == old(buffer)@,
        old(buffer)@.len() + chunk@.len() <= limit ==> r is Ok && final(buffer)@ == old(buffer)@
            + chunk@,
{
    if chunk.len() > limit || buffer.len() > limit - chunk.len() {
        return Err(SourceDraftError::TooLarge);
    }
    let mut i: usize = 0;
    let ghost initial = buffer@;
    while i < chunk.len()
        invariant
            i <= chunk@.len(),
            buffer@ == initial + chunk@.subrange(0, i as int),
        decreases chunk@.len() - i,
    {
        buffer.push(chunk[i]);
        assert(chunk@.subrange(0, i + 1) =~= chunk@.subrange(0, i as int).push(chunk@[i as int]));
        i = i + 1;
    }
    assert(chunk@.subrange(0, chunk@.len() as int) =~= chunk@);
    Ok(())
}

/// Law: every text media type may be captured from a link: whenever the
/// trimmed, lower-cased part of a content type before `;` begins with
/// `text/`, the content type is allowed, whatever parameters follow.
pub proof fn lemma_text_types_are_allowed(raw: Seq<char>)
    ensures
        starts_with(media_type(raw), "text/"@) ==> is_allowed_content_type(Some(raw)),
{
    reveal_strlit("text/");
}

} // verus!
