//! The detail view of a Harness run: the reconstructed run, as plain
//! records, mapped to what the run detail shows.

use vstd::prelude::*;
use vstd::utf8::{decode_utf8, encode_utf8, valid_utf8};

use crate::text::{copy_bytes, owned_string, string_from_utf8};

verus! {

/// The kinds of a run's journal events.
#[derive(Debug, Clone, Copy, PartialEq, Eq, Structural)]
pub enum RunEventKind {
    RunCreated,
    PairFrozen,
    Approved,
    GrantIssued,
    GrantRevoked,
    Denied,
    EffectPrepared,
    EffectClaimed,
    EffectDispatched,
    EffectSettled,
    Checkpointed,
    Validated,
    Completed,
    Paused,
    Cancelled,
    Abandoned,
    LeaseAcquired,
    LeaseReleased,
    LeaseTakeover,
    Resumed,
}

pub open spec fn event_kind_label_spec(kind: RunEventKind) -> Seq<char> {
    match kind {
        RunEventKind::RunCreated => "run_created"@,
        RunEventKind::PairFrozen => "pair_frozen"@,
        RunEventKind::Approved => "approved"@,
        RunEventKind::GrantIssued => "grant_issued"@,
        RunEventKind::GrantRevoked => "grant_revoked"@,
        RunEventKind::Denied => "denied"@,
        RunEventKind::EffectPrepared => "effect_prepared"@,
        RunEventKind::EffectClaimed => "effect_claimed"@,
        RunEventKind::EffectDispatched => "effect_dispatched"@,
        RunEventKind::EffectSettled => "effect_settled"@,
        RunEventKind::Checkpointed => "checkpointed"@,
        RunEventKind::Validated => "validated"@,
        RunEventKind::Completed => "completed"@,
        RunEventKind::Paused => "paused"@,
        RunEventKind::Cancelled => "cancelled"@,
        RunEventKind::Abandoned => "abandoned"@,
        RunEventKind::LeaseAcquired => "lease_acquired"@,
        RunEventKind::LeaseReleased => "lease_released"@,
        RunEventKind::LeaseTakeover => "lease_takeover"@,
        RunEventKind::Resumed => "resumed"@,
    }
}

/// The label the detail shows for an event kind.
pub fn event_kind_label(kind: RunEventKind) -> (r: &'static str)
    ensures
        r@ == event_kind_label_spec(kind),
{
    match kind {
        RunEventKind::RunCreated => "run_created",
        RunEventKind::PairFrozen => "pair_frozen",
        RunEventKind::Approved => "approved",
        RunEventKind::GrantIssued => "grant_issued",
        RunEventKind::GrantRevoked => "grant_revoked",
        RunEventKind::Denied => "denied",
        RunEventKind::EffectPrepared => "effect_prepared",
        RunEventKind::EffectClaimed => "effect_claimed",
        RunEventKind::EffectDispatched => "effect_dispatched",
        RunEventKind::EffectSettled => "effect_settled",
        RunEventKind::Checkpointed => "checkpointed",
        RunEventKind::Validated => "validated",
        RunEventKind::Completed => "completed",
        RunEventKind::Paused => "paused",
        RunEventKind::Cancelled => "cancelled",
        RunEventKind::Abandoned => "abandoned",
        RunEventKind::LeaseAcquired => "lease_acquired",
        RunEventKind::LeaseReleased => "lease_released",
        RunEventKind::LeaseTakeover => "lease_takeover",
        RunEventKind::Resumed => "resumed",
    }
}

/// The journal phase of an effect.
#[derive(Debug, Clone, Copy, PartialEq, Eq, Structural)]
pub enum EffectPhase {
    Prepared,
    Claimed,
    Dispatched,
    Settled,
}

/// What is known of a settled effect's outcome.
#[derive(Debug, Clone, Copy, PartialEq, Eq, Structural)]
pub enum SettledCertainty {
    ConfirmedCommitted,
    ConfirmedNoEffect,
    UnknownOrPartial,
}

pub open spec fn phase_label_spec(phase: EffectPhase) -> Seq<char> {
    match phase {
        EffectPhase::Prepared => "prepared"@,
        EffectPhase::Claimed => "claimed"@,
        EffectPhase::Dispatched => "dispatched"@,
        EffectPhase::Settled => "settled"@,
    }
}

pub fn phase_label(phase: EffectPhase) -> (r: &'static str)
    ensures
        r@ == phase_label_spec(phase),
{
    match phase {
        EffectPhase::Prepared => "prepared",
        EffectPhase::Claimed => "claimed",
        EffectPhase::Dispatched => "dispatched",
        EffectPhase::Settled => "settled",
    }
}

pub open spec fn certainty_label_spec(certainty: SettledCertainty) -> Seq<char> {
    match certainty {
        SettledCertainty::ConfirmedCommitted => "confirmed_committed"@,
        SettledCertainty::ConfirmedNoEffect => "confirmed_no_effect"@,
        SettledCertainty::UnknownOrPartial => "unknown_or_partial"@,
    }
}

pub fn certainty_label(certainty: SettledCertainty) -> (r: &'static str)
    ensures
        r@ == certainty_label_spec(certainty),
{
    match certainty {
        SettledCertainty::ConfirmedCommitted => "confirmed_committed",
        SettledCertainty::ConfirmedNoEffect => "confirmed_no_effect",
        SettledCertainty::UnknownOrPartial => "unknown_or_partial",
    }
}

/// What a grant covers.
#[derive(Debug, Clone, PartialEq, Eq)]
pub enum GrantResource {
    RunRoot,
    RelativeTarget(String),
    ContextManifestHash(String),
    ReplacementTarget { relative_target: String },
}

/// Which actions a grant covers.
#[derive(Debug, Clone, PartialEq, Eq)]
pub enum GrantScope {
    Run,
    Node(String),
    Effect(String),
    Attempt(String),
}

/// Whether a manifest hash can be cut to its first eight bytes: it is no
/// longer than that, or its first eight bytes end on a character boundary.
pub open spec fn hash_prefix_ok(hash: Seq<char>) -> bool {
    encode_utf8(hash).len() <= 8 || valid_utf8(encode_utf8(hash).take(8))
}

pub open spec fn hash_prefix(hash: Seq<char>) -> Seq<char> {
    if encode_utf8(hash).len() <= 8 {
        hash
    } else {
        decode_utf8(encode_utf8(hash).take(8))
    }
}

pub open spec fn resource_summary_spec(resource: GrantResource) -> Seq<char> {
    match resource {
        GrantResource::RunRoot => "run_root"@,
        GrantResource::RelativeTarget(path) => "relative:"@ + path@,
        GrantResource::ContextManifestHash(hash) => "manifest:"@ + hash_prefix(hash@),
        GrantResource::ReplacementTarget { relative_target } => "replacement:"@ + relative_target@,
    }
}

pub open spec fn resource_ok(resource: GrantResource) -> bool {
    match resource {
        GrantResource::ContextManifestHash(hash) => hash_prefix_ok(hash@),
        _ => true,
    }
}

fn prefixed(prefix: &str, rest: &str) -> (r: String)
    ensures
        r@ == prefix@ + rest@,
{
    let mut s = owned_string(prefix);
    s.append(rest);
    s
}

/// The summary the detail shows for a grant's resource; a manifest hash is
/// cut to its first eight bytes.
pub fn resource_summary(resource: &GrantResource) -> (r: String)
    requires
        resource_ok(*resource),
    ensures
        r@ == resource_summary_spec(*resource),
{
    match resource {
        GrantResource::RunRoot => owned_string("run_root"),
        GrantResource::RelativeTarget(path) => prefixed("relative:", path.as_str()),
        GrantResource::ContextManifestHash(hash) => {
            let bytes = hash.as_str().as_bytes();
            proof {
                broadcast use vstd::utf8::encode_utf8_decode_utf8;
                broadcast use vstd::string::group_string_axioms;
            }
            let prefix = if bytes.len() <= 8 {
                owned_string(hash.as_str())
            } else {
                match string_from_utf8(copy_bytes(&bytes[0..8])) {
                    Some(p) => p,
                    None => owned_string(""),
                }
            };
            prefixed("manifest:", prefix.as_str())
        },
        GrantResource::ReplacementTarget { relative_target } => prefixed(
            "replacement:",
            relative_target.as_str(),
        ),
    }
}

pub open spec fn scope_label_spec(scope: GrantScope) -> Seq<char> {
    match scope {
        GrantScope::Run => "run"@,
        GrantScope::Node(kind) => "node:"@ + kind@,
        GrantScope::Effect(id) => "effect:"@ + id@,
        GrantScope::Attempt(id) => "attempt:"@ + id@,
    }
}

/// The label the detail shows for a grant's action scope.
pub fn scope_label(scope: &GrantScope) -> (r: String)
    ensures
        r@ == scope_label_spec(*scope),
{
    match scope {
        GrantScope::Run => owned_string("run"),
        GrantScope::Node(kind) => prefixed("node:", kind.as_str()),
        GrantScope::Effect(id) => prefixed("effect:", id.as_str()),
        GrantScope::Attempt(id) => prefixed("attempt:", id.as_str()),
    }
}

/// A journal event of the run.
pub struct EventRecord {
    pub id: String,
    pub sequence: u64,
    pub kind: RunEventKind,
    pub recorded_at_unix_ms: i64,
}

/// An effect of the run's journal.
pub struct EffectRecord {
    pub id: String,
    pub operation_id: String,
    pub phase: EffectPhase,
    pub certainty: Option<SettledCertainty>,
    pub grant_id: String,
}

/// A recorded denial.
pub struct DenialRecord {
    pub id: String,
    pub reason: String,
    pub grant_id: Option<String>,
    pub recorded_at_unix_ms: i64,
}

/// A capability grant; `capability` is the capability's name.
pub struct GrantRecord {
    pub id: String,
    pub capability: String,
    pub resource: GrantResource,
    pub scope: GrantScope,
    pub expires_at_unix_ms: i64,
    pub revoked: bool,
    pub dispatch_budget_remaining: u32,
    pub related_approval_id: Option<String>,
}

/// A frozen execution plan version, as far as the detail reads it.
pub struct PlanRecord {
    pub id: String,
    pub graph_version_id: String,
    pub approval_hash: String,
    pub preimage_hash: String,
    pub postimage_hash: String,
    pub postimage: String,
}

/// A run graph version.
pub struct GraphRecord {
    pub id: String,
}

/// An approval of a plan/graph pair.
pub struct ApprovalRecord {
    pub id: String,
    pub approval_hash: String,
    pub approver: String,
}

/// The reconstructed run, in journal order.
pub struct RunRecord {
    pub events: Vec<EventRecord>,
    pub effects: Vec<EffectRecord>,
    pub denials: Vec<DenialRecord>,
    pub grants: Vec<GrantRecord>,
    pub plans: Vec<PlanRecord>,
    pub graphs: Vec<GraphRecord>,
    pub approvals: Vec<ApprovalRecord>,
}

pub struct EventEntry {
    pub id: String,
    pub sequence: u64,
    pub kind: &'static str,
    pub created_at_unix_ms: i64,
}

pub struct EffectEntry {
    pub id: String,
    pub operation_id: String,
    pub phase: &'static str,
    pub certainty: Option<&'static str>,
    pub grant_id: String,
}

pub struct DenialEntry {
    pub id: String,
    pub reason: String,
    pub grant_id: Option<String>,
    pub recorded_at_unix_ms: i64,
}

pub struct GrantEntry {
    pub id: String,
    pub capability: String,
    pub resource_summary: String,
    pub action_scope: String,
    pub expires_at_unix_ms: i64,
    pub revoked: bool,
    pub dispatch_budget_remaining: u32,
    pub related_approval_id: Option<String>,
}

/// The approval identity of the latest pair.
pub struct ApprovalIdentity {
    pub plan_version_id: String,
    pub graph_version_id: String,
    pub approval_hash: String,
    pub approved: bool,
    pub approval_id: Option<String>,
    pub approver: Option<String>,
}

/// What the native diff of the latest plan is computed from.
pub struct DiffInput {
    pub preimage: String,
    pub postimage: String,
    pub preimage_hash: String,
    pub postimage_hash: String,
}

/// The run detail. `pair` holds the positions of the latest plan and its
/// graph, from which the context, graph, disclosure and envelope previews
/// are read.
pub struct RunDetail {
    pub pair: Option<(usize, usize)>,
    pub context_content: Option<String>,
    pub diff: Option<DiffInput>,
    pub approval: Option<ApprovalIdentity>,
    pub grants: Vec<GrantEntry>,
    pub events: Vec<EventEntry>,
    pub effects: Vec<EffectEntry>,
    pub denials: Vec<DenialEntry>,
    pub resume_decision: Option<String>,
}

pub open spec fn opt_text(s: Option<String>) -> Option<Seq<char>> {
    match s {
        Some(t) => Some(t@),
        None => None,
    }
}

pub open spec fn opt_label(s: Option<&'static str>) -> Option<Seq<char>> {
    match s {
        Some(t) => Some(t@),
        None => None,
    }
}

pub open spec fn event_entry_of(e: EventEntry, r: EventRecord) -> bool {
    &&& e.id@ == r.id@
    &&& e.sequence == r.sequence
    &&& e.kind@ == event_kind_label_spec(r.kind)
    &&& e.created_at_unix_ms == r.recorded_at_unix_ms
}

pub open spec fn effect_entry_of(e: EffectEntry, r: EffectRecord) -> bool {
    &&& e.id@ == r.id@
    &&& e.operation_id@ == r.operation_id@
    &&& e.phase@ == phase_label_spec(r.phase)
    &&& opt_label(e.certainty) == match r.certainty {
        Some(c) => Some(certainty_label_spec(c)),
        None => None,
    }
    &&& e.grant_id@ == r.grant_id@
}

pub open spec fn denial_entry_of(e: DenialEntry, r: DenialRecord) -> bool {
    &&& e.id@ == r.id@
    &&& e.reason@ == r.reason@
    &&& opt_text(e.grant_id) == opt_text(r.grant_id)
    &&& e.recorded_at_unix_ms == r.recorded_at_unix_ms
}

pub open spec fn grant_entry_of(e: GrantEntry, r: GrantRecord) -> bool {
    &&& e.id@ == r.id@
    &&& e.capability@ == r.capability@
    &&& e.resource_summary@ == resource_summary_spec(r.resource)
    &&& e.action_scope@ == scope_label_spec(r.scope)
    &&& e.expires_at_unix_ms == r.expires_at_unix_ms
    &&& e.revoked == r.revoked
    &&& e.dispatch_budget_remaining == r.dispatch_budget_remaining
    &&& opt_text(e.related_approval_id) == opt_text(r.related_approval_id)
}

/// The position of the first graph with the given id, or the number of
/// graphs when there is none.
pub open spec fn graph_position(graphs: Seq<GraphRecord>, id: Seq<char>) -> int
    decreases graphs.len(),
{
    if graphs.len() == 0 {
        0
    } else if graphs[0].id@ == id {
        0
    } else {
        1 + graph_position(graphs.drop_first(), id)
    }
}

/// The position of the first approval with the given hash, or the number of
/// approvals when there is none.
pub open spec fn approval_position(approvals: Seq<ApprovalRecord>, hash: Seq<char>) -> int
    decreases approvals.len(),
{
    if approvals.len() == 0 {
        0
    } else if approvals[0].approval_hash@ == hash {
        0
    } else {
        1 + approval_position(approvals.drop_first(), hash)
    }
}

/// The latest plan and its graph: the last plan, and the first graph whose
/// id the plan names; none without plans or without that graph.
pub open spec fn latest_pair_spec(plans: Seq<PlanRecord>, graphs: Seq<GraphRecord>) -> Option<(int, int)> {
    if plans.len() == 0 {
        None
    } else {
        let g = graph_position(graphs, plans.last().graph_version_id@);
        if g < graphs.len() {
            Some((plans.len() - 1, g))
        } else {
            None
        }
    }
}

proof fn lemma_graph_position(graphs: Seq<GraphRecord>, id: Seq<char>, j: int)
    requires
        0 <= j <= graphs.len(),
        forall|k: int| 0 <= k < j ==> (#[trigger] graphs[k]).id@ != id,
        j < graphs.len() ==> graphs[j].id@ == id,
    ensures
        graph_position(graphs, id) == j,
    decreases j,
{
    if j > 0 {
        assert forall|k: int| 0 <= k < j - 1 implies (#[trigger] graphs.drop_first()[k]).id@ != id by {
            assert(graphs.drop_first()[k] == graphs[k + 1]);
        }
        lemma_graph_position(graphs.drop_first(), id, j - 1);
    }
}

proof fn lemma_approval_position(approvals: Seq<ApprovalRecord>, hash: Seq<char>, j: int)
    requires
        0 <= j <= approvals.len(),
        forall|k: int| 0 <= k < j ==> (#[trigger] approvals[k]).approval_hash@ != hash,
        j < approvals.len() ==> approvals[j].approval_hash@ == hash,
    ensures
        approval_position(approvals, hash) == j,
    decreases j,
{
    if j > 0 {
        assert forall|k: int| 0 <= k < j - 1 implies (
        #[trigger] approvals.drop_first()[k]).approval_hash@ != hash by {
            assert(approvals.drop_first()[k] == approvals[k + 1]);
        }
        lemma_approval_position(approvals.drop_first(), hash, j - 1);
    }
}

fn find_graph(graphs: &Vec<GraphRecord>, id: &String) -> (r: usize)
    ensures
        r == graph_position(graphs@, id@),
        r <= graphs@.len(),
{
    let mut j: usize = 0;
    while j < graphs.len()
        invariant
            j <= graphs@.len(),
            forall|k: int| 0 <= k < j ==> (#[trigger] graphs@[k]).id@ != id@,
        decreases graphs@.len() - j,
    {
        if crate::text::string_eq_str(&graphs[j].id, id.as_str()) {
            proof {
                lemma_graph_position(graphs@, id@, j as int);
            }
            return j;
        }
        j = j + 1;
    }
    proof {
        lemma_graph_position(graphs@, id@, j as int);
    }
    j
}

fn find_approval(approvals: &Vec<ApprovalRecord>, hash: &String) -> (r: usize)
    ensures
        r == approval_position(approvals@, hash@),
        r <= approvals@.len(),
{
    let mut j: usize = 0;
    while j < approvals.len()
        invariant
            j <= approvals@.len(),
            forall|k: int| 0 <= k < j ==> (#[trigger] approvals@[k]).approval_hash@ != hash@,
        decreases approvals@.len() - j,
    {
        if crate::text::string_eq_str(&approvals[j].approval_hash, hash.as_str()) {
            proof {
                lemma_approval_position(approvals@, hash@, j as int);
            }
            return j;
        }
        j = j + 1;
    }
    proof {
        lemma_approval_position(approvals@, hash@, j as int);
    }
    j
}

fn copy_text(s: &String) -> (r: String)
    ensures
        r@ == s@,
{
    owned_string(s.as_str())
}

fn copy_opt_text(s: &Option<String>) -> (r: Option<String>)
    ensures
        opt_text(r) == opt_text(*s),
{
    match s {
        Some(t) => Some(copy_text(t)),
        None => None,
    }
}

fn event_entries(records: &Vec<EventRecord>) -> (out: Vec<EventEntry>)
    ensures
        out@.len() == records@.len(),
        forall|i: int| 0 <= i < records@.len() ==> event_entry_of(#[trigger] out@[i], records@[i]),
{
    let mut out: Vec<EventEntry> = Vec::new();
    let mut i: usize = 0;
    while i < records.len()
        invariant
            i <= records@.len(),
            out@.len() == i,
            forall|k: int| 0 <= k < i ==> event_entry_of(#[trigger] out@[k], records@[k]),
        decreases records@.len() - i,
    {
        let r = &records[i];
        out.push(
            EventEntry {
                id: copy_text(&r.id),
                sequence: r.sequence,
                kind: event_kind_label(r.kind),
                created_at_unix_ms: r.recorded_at_unix_ms,
            },
        );
        i = i + 1;
    }
    out
}

fn effect_entries(records: &Vec<EffectRecord>) -> (out: Vec<EffectEntry>)
    ensures
        out@.len() == records@.len(),
        forall|i: int| 0 <= i < records@.len() ==> effect_entry_of(#[trigger] out@[i], records@[i]),
{
    let mut out: Vec<EffectEntry> = Vec::new();
    let mut i: usize = 0;
    while i < records.len()
        invariant
            i <= records@.len(),
            out@.len() == i,
            forall|k: int| 0 <= k < i ==> effect_entry_of(#[trigger] out@[k], records@[k]),
        decreases records@.len() - i,
    {
        let r = &records[i];
        let certainty = match r.certainty {
            Some(c) => Some(certainty_label(c)),
            None => None,
        };
        out.push(
            EffectEntry {
                id: copy_text(&r.id),
                operation_id: copy_text(&r.operation_id),
                phase: phase_label(r.phase),
                certainty,
                grant_id: copy_text(&r.grant_id),
            },
        );
        i = i + 1;
    }
    out
}

fn denial_entries(records: &Vec<DenialRecord>) -> (out: Vec<DenialEntry>)
    ensures
        out@.len() == records@.len(),
        forall|i: int| 0 <= i < records@.len() ==> denial_entry_of(#[trigger] out@[i], records@[i]),
{
    let mut out: Vec<DenialEntry> = Vec::new();
    let mut i: usize = 0;
    while i < records.len()
        invariant
            i <= records@.len(),
            out@.len() == i,
            forall|k: int| 0 <= k < i ==> denial_entry_of(#[trigger] out@[k], records@[k]),
        decreases records@.len() - i,
    {
        let r = &records[i];
        out.push(
            DenialEntry {
                id: copy_text(&r.id),
                reason: copy_text(&r.reason),
                grant_id: copy_opt_text(&r.grant_id),
                recorded_at_unix_ms: r.recorded_at_unix_ms,
            },
        );
        i = i + 1;
    }
    out
}

fn grant_entries(records: &Vec<GrantRecord>) -> (out: Vec<GrantEntry>)
    requires
        forall|i: int| 0 <= i < records@.len() ==> resource_ok(#[trigger] records@[i].resource),
    ensures
        out@.len() == records@.len(),
        forall|i: int| 0 <= i < records@.len() ==> grant_entry_of(#[trigger] out@[i], records@[i]),
{
    let mut out: Vec<GrantEntry> = Vec::new();
    let mut i: usize = 0;
    while i < records.len()
        invariant
            i <= records@.len(),
            out@.len() == i,
            forall|k: int| 0 <= k < records@.len() ==> resource_ok(#[trigger] records@[k].resource),
            forall|k: int| 0 <= k < i ==> grant_entry_of(#[trigger] out@[k], records@[k]),
        decreases records@.len() - i,
    {
        let r = &records[i];
        assert(resource_ok(records@[i as int].resource));
        out.push(
            GrantEntry {
                id: copy_text(&r.id),
                capability: copy_text(&r.capability),
                resource_summary: resource_summary(&r.resource),
                action_scope: scope_label(&r.scope),
                expires_at_unix_ms: r.expires_at_unix_ms,
                revoked: r.revoked,
                dispatch_budget_remaining: r.dispatch_budget_remaining,
                related_approval_id: copy_opt_text(&r.related_approval_id),
            },
        );
        i = i + 1;
    }
    out
}

/// Whether the detail's approval identity is that of the plan and graph,
/// approved exactly when an approval carries the plan's approval hash, and
/// naming the first such approval.
pub open spec fn approval_identity_of(
    a: ApprovalIdentity,
    plan: PlanRecord,
    graph: GraphRecord,
    approvals: Seq<ApprovalRecord>,
) -> bool {
    let k = approval_position(approvals, plan.approval_hash@);
    &&& a.plan_version_id@ == plan.id@
    &&& a.graph_version_id@ == graph.id@
    &&& a.approval_hash@ == plan.approval_hash@
    &&& a.approved == (k < approvals.len())
    &&& opt_text(a.approval_id) == if k < approvals.len() {
        Some(approvals[k].id@)
    } else {
        None
    }
    &&& opt_text(a.approver) == if k < approvals.len() {
        Some(approvals[k].approver@)
    } else {
        None
    }
}

/// The run detail of a reconstructed run, given the preimage bound to the
/// run root in this session, if any, and the resume decision.
pub fn run_detail(run: &RunRecord, bound_preimage: Option<&String>, resume_decision: Option<String>) -> (d:
    RunDetail)
    requires
        forall|i: int| 0 <= i < run.grants@.len() ==> resource_ok(#[trigger] run.grants@[i].resource),
    ensures
        d.events@.len() == run.events@.len(),
        forall|i: int| 0 <= i < run.events@.len() ==> event_entry_of(#[trigger] d.events@[i], run.events@[i]),
        d.effects@.len() == run.effects@.len(),
        forall|i: int| 0 <= i < run.effects@.len() ==> effect_entry_of(#[trigger] d.effects@[i], run.effects@[i]),
        d.denials@.len() == run.denials@.len(),
        forall|i: int| 0 <= i < run.denials@.len() ==> denial_entry_of(#[trigger] d.denials@[i], run.denials@[i]),
        d.grants@.len() == run.grants@.len(),
        forall|i: int| 0 <= i < run.grants@.len() ==> grant_entry_of(#[trigger] d.grants@[i], run.grants@[i]),
        match d.pair {
            Some((p, g)) => latest_pair_spec(run.plans@, run.graphs@) == Some((p as int, g as int)),
            None => latest_pair_spec(run.plans@, run.graphs@) is None,
        },
        d.pair is None ==> d.context_content is None && d.diff is None && d.approval is None,
        d.pair matches Some((p, g)) ==> {
            let plan = run.plans@[p as int];
            &&& opt_text(d.context_content) == Some(
                match bound_preimage {
                    Some(b) => b@,
                    None => Seq::<char>::empty(),
                },
            )
            &&& (bound_preimage is None <==> d.diff is None)
            &&& (d.diff matches Some(diff) ==> diff.preimage@ == bound_preimage->0@
                && diff.postimage@ == plan.postimage@ && diff.preimage_hash@ == plan.preimage_hash@
                && diff.postimage_hash@ == plan.postimage_hash@)
            &&& d.approval matches Some(a) && approval_identity_of(
                a,
                plan,
                run.graphs@[g as int],
                run.approvals@,
            )
        },
        opt_text(d.resume_decision) == opt_text(resume_decision),
{
    let events = event_entries(&run.events);
    let effects = effect_entries(&run.effects);
    let denials = denial_entries(&run.denials);
    let grants = grant_entries(&run.grants);
    let pair: Option<(usize, usize)> = if run.plans.len() == 0 {
        None
    } else {
        let p = run.plans.len() - 1;
        let g = find_graph(&run.graphs, &run.plans[p].graph_version_id);
        if g < run.graphs.len() {
            Some((p, g))
        } else {
            None
        }
    };
    let (context_content, diff, approval) = match pair {
        None => (None, None, None),
        Some((p, g)) => {
            let plan = &run.plans[p];
            let content = match bound_preimage {
                Some(b) => copy_text(b),
                None => {
                    proof {
                        reveal_strlit("");
                    }
                    owned_string("")
                },
            };
            let diff = match bound_preimage {
                Some(b) => Some(
                    DiffInput {
                        preimage: copy_text(b),
                        postimage: copy_text(&plan.postimage),
                        preimage_hash: copy_text(&plan.preimage_hash),
                        postimage_hash: copy_text(&plan.postimage_hash),
                    },
                ),
                None => None,
            };
            let k = find_approval(&run.approvals, &plan.approval_hash);
            let found = k < run.approvals.len();
            let approval = ApprovalIdentity {
                plan_version_id: copy_text(&plan.id),
                graph_version_id: copy_text(&run.graphs[g].id),
                approval_hash: copy_text(&plan.approval_hash),
                approved: found,
                approval_id: if found {
                    Some(copy_text(&run.approvals[k].id))
                } else {
                    None
                },
                approver: if found {
                    Some(copy_text(&run.approvals[k].approver))
                } else {
                    None
                },
            };
            (Some(content), diff, Some(approval))
        },
    };
    RunDetail {
        pair,
        context_content,
        diff,
        approval,
        grants,
        events,
        effects,
        denials,
        resume_decision,
    }
}

/// What the run root's file shows when a run is resumed after its last
/// checkpoint.
pub enum RootObservation {
    /// The run root is not bound in this session: the evidence alone decides.
    Unbound,
    /// The target could not be read.
    Unreadable,
    /// The target's content hash.
    Read(String),
}

/// The checks a resume revalidates.
#[derive(Debug, Clone, Copy, PartialEq, Eq, Structural)]
pub struct ResumeRevalidation {
    pub event_chain_matches: bool,
    pub filesystem_matches_expected: bool,
    pub execution_policy_matches: bool,
    pub operation_versions_match: bool,
}

/// Whether the root matches what the journal expects: with a confirmed
/// replacement, the checkpoint's postimage; otherwise, when there is a plan,
/// its preimage or the checkpoint's postimage; without a plan, anything. An
/// unbound root matches; an unreadable one does not.
pub open spec fn filesystem_matches_spec(
    observed: RootObservation,
    replacement_confirmed: bool,
    plan_preimage_hash: Option<Seq<char>>,
    expected_postimage_hash: Seq<char>,
) -> bool {
    match observed {
        RootObservation::Unbound => true,
        RootObservation::Unreadable => false,
        RootObservation::Read(hash) => if replacement_confirmed {
            hash@ == expected_postimage_hash
        } else {
            match plan_preimage_hash {
                Some(pre) => hash@ == pre || hash@ == expected_postimage_hash,
                None => true,
            }
        },
    }
}

/// The revalidation of a resume after a checkpoint: whether the event chain
/// up to the checkpoint hashes as recorded, whether the root matches, and
/// whether the latest plan's execution policy revision is the checkpoint's
/// (true without a plan); operation versions always match.
pub fn resume_revalidation(
    event_chain_matches: bool,
    observed: &RootObservation,
    replacement_confirmed: bool,
    plan: Option<(&String, u64)>,
    expected_postimage_hash: &String,
    checkpoint_policy_revision: u64,
) -> (r: ResumeRevalidation)
    ensures
        r.event_chain_matches == event_chain_matches,
        r.filesystem_matches_expected == filesystem_matches_spec(
            *observed,
            replacement_confirmed,
            match plan {
                Some((pre, _)) => Some(pre@),
                None => None,
            },
            expected_postimage_hash@,
        ),
        r.execution_policy_matches == match plan {
            Some((_, revision)) => revision == checkpoint_policy_revision,
            None => true,
        },
        r.operation_versions_match,
{
    let filesystem_matches_expected = match observed {
        RootObservation::Unbound => true,
        RootObservation::Unreadable => false,
        RootObservation::Read(hash) => if replacement_confirmed {
            crate::text::string_eq_str(hash, expected_postimage_hash.as_str())
        } else {
            match plan {
                Some((pre, _)) => crate::text::string_eq_str(hash, pre.as_str())
                    || crate::text::string_eq_str(hash, expected_postimage_hash.as_str()),
                None => true,
            }
        },
    };
    let execution_policy_matches = match plan {
        Some((_, revision)) => revision == checkpoint_policy_revision,
        None => true,
    };
    ResumeRevalidation {
        event_chain_matches,
        filesystem_matches_expected,
        execution_policy_matches,
        operation_versions_match: true,
    }
}

/// The outcome of a resume decision.
pub enum ResumeDecision {
    Continue,
    RequireReapprovalOrAbandon,
    SkipConfirmedReplacement { effect_id: String },
    RequireFreshGrant { expired_grant_id: String },
}

pub open spec fn resume_label_spec(decision: ResumeDecision) -> Seq<char> {
    match decision {
        ResumeDecision::Continue => "continue"@,
        ResumeDecision::RequireReapprovalOrAbandon => "require_reapproval_or_abandon"@,
        ResumeDecision::SkipConfirmedReplacement { effect_id } => "skip_confirmed_replacement:"@
            + effect_id@,
        ResumeDecision::RequireFreshGrant { expired_grant_id } => "require_fresh_grant:"@
            + expired_grant_id@,
    }
}

/// The label the detail shows for a resume decision; a run without a
/// checkpoint continues.
pub fn resume_label(decision: Option<&ResumeDecision>) -> (r: String)
    ensures
        r@ == match decision {
            Some(d) => resume_label_spec(*d),
            None => "continue"@,
        },
{
    match decision {
        None => owned_string("continue"),
        Some(ResumeDecision::Continue) => owned_string("continue"),
        Some(ResumeDecision::RequireReapprovalOrAbandon) => owned_string(
            "require_reapproval_or_abandon",
        ),
        Some(ResumeDecision::SkipConfirmedReplacement { effect_id }) => {
            let mut out = owned_string("skip_confirmed_replacement:");
            out.append(effect_id.as_str());
            out
        },
        Some(ResumeDecision::RequireFreshGrant { expired_grant_id }) => {
            let mut out = owned_string("require_fresh_grant:");
            out.append(expired_grant_id.as_str());
            out
        },
    }
}

/// Law: a root read before its replacement was confirmed matches only when
/// its hash is the plan's preimage hash or the expected postimage hash; once
/// the replacement is confirmed, only the expected postimage hash matches.
pub proof fn lemma_read_root_matches_only_known_hashes(
    hash: String,
    plan_preimage_hash: Seq<char>,
    expected_postimage_hash: Seq<char>,
    plan: Option<Seq<char>>,
)
    ensures
        filesystem_matches_spec(
            RootObservation::Read(hash),
            false,
            Some(plan_preimage_hash),
            expected_postimage_hash,
        ) <==> (hash@ == plan_preimage_hash || hash@ == expected_postimage_hash),
        filesystem_matches_spec(RootObservation::Read(hash), true, plan, expected_postimage_hash)
            <==> hash@ == expected_postimage_hash,
{
}

} // verus!
