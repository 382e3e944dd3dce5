use tule_desktop::run_detail::{
    resource_summary, resume_label, resume_revalidation, run_detail, scope_label,
    ResumeDecision, RootObservation, ApprovalRecord, DenialRecord, EffectPhase,
    EffectRecord, EventRecord, GrantRecord, GrantResource, GrantScope, GraphRecord, PlanRecord,
    RunEventKind, RunRecord, SettledCertainty,
};

fn s(t: &str) -> String {
    t.to_string()
}

fn run(with_graph: bool, approved: bool) -> RunRecord {
    RunRecord {
        events: vec![
            EventRecord { id: s("e1"), sequence: 1, kind: RunEventKind::RunCreated, recorded_at_unix_ms: 10 },
            EventRecord { id: s("e2"), sequence: 2, kind: RunEventKind::EffectSettled, recorded_at_unix_ms: 20 },
        ],
        effects: vec![EffectRecord {
            id: s("f1"),
            operation_id: s("op"),
            phase: EffectPhase::Settled,
            certainty: Some(SettledCertainty::UnknownOrPartial),
            grant_id: s("g1"),
        }],
        denials: vec![DenialRecord { id: s("d1"), reason: s("no"), grant_id: None, recorded_at_unix_ms: 5 }],
        grants: vec![GrantRecord {
            id: s("g1"),
            capability: s("create_or_replace"),
            resource: GrantResource::ContextManifestHash(s("0123456789abcdef")),
            scope: GrantScope::Node(s("replace")),
            expires_at_unix_ms: 99,
            revoked: false,
            dispatch_budget_remaining: 1,
            related_approval_id: Some(s("a1")),
        }],
        plans: vec![
            PlanRecord {
                id: s("p0"),
                graph_version_id: s("missing"),
                approval_hash: s("h0"),
                preimage_hash: s("pre0"),
                postimage_hash: s("post0"),
                postimage: s("old"),
            },
            PlanRecord {
                id: s("p1"),
                graph_version_id: s("g-latest"),
                approval_hash: s("h1"),
                preimage_hash: s("pre1"),
                postimage_hash: s("post1"),
                postimage: s("new"),
            },
        ],
        graphs: if with_graph { vec![GraphRecord { id: s("g-old") }, GraphRecord { id: s("g-latest") }] } else { vec![] },
        approvals: if approved {
            vec![ApprovalRecord { id: s("a1"), approval_hash: s("h1"), approver: s("owner") }]
        } else {
            vec![ApprovalRecord { id: s("a0"), approval_hash: s("h0"), approver: s("owner") }]
        },
    }
}

#[test]
fn detail_maps_journal_entries_one_to_one() {
    let preimage = s("before");
    let d = run_detail(&run(true, true), Some(&preimage), Some(s("continue")));
    assert_eq!(d.events.len(), 2);
    assert_eq!(d.events[1].kind, "effect_settled");
    assert_eq!(d.events[0].created_at_unix_ms, 10);
    assert_eq!(d.effects[0].phase, "settled");
    assert_eq!(d.effects[0].certainty, Some("unknown_or_partial"));
    assert_eq!(d.denials[0].reason, "no");
    assert_eq!(d.grants[0].resource_summary, "manifest:01234567");
    assert_eq!(d.grants[0].action_scope, "node:replace");
    assert_eq!(d.pair, Some((1, 1)));
    assert_eq!(d.context_content.as_deref(), Some("before"));
    let diff = d.diff.unwrap();
    assert_eq!(diff.postimage, "new");
    assert_eq!(diff.preimage_hash, "pre1");
    let approval = d.approval.unwrap();
    assert!(approval.approved);
    assert_eq!(approval.approval_id.as_deref(), Some("a1"));
    assert_eq!(approval.graph_version_id, "g-latest");
    assert_eq!(d.resume_decision.as_deref(), Some("continue"));
}

#[test]
fn detail_without_bound_root_or_graph() {
    let d = run_detail(&run(true, false), None, None);
    assert_eq!(d.context_content.as_deref(), Some(""));
    assert!(d.diff.is_none());
    let approval = d.approval.unwrap();
    assert!(!approval.approved);
    assert_eq!(approval.approver, None);
    let d = run_detail(&run(false, true), None, None);
    assert_eq!(d.pair, None);
    assert!(d.context_content.is_none() && d.diff.is_none() && d.approval.is_none());
}

#[test]
fn grant_labels() {
    assert_eq!(resource_summary(&GrantResource::RunRoot), "run_root");
    assert_eq!(resource_summary(&GrantResource::RelativeTarget(s("a/b"))), "relative:a/b");
    assert_eq!(resource_summary(&GrantResource::ContextManifestHash(s("abc"))), "manifest:abc");
    assert_eq!(
        resource_summary(&GrantResource::ReplacementTarget { relative_target: s("x") }),
        "replacement:x"
    );
    assert_eq!(scope_label(&GrantScope::Run), "run");
    assert_eq!(scope_label(&GrantScope::Attempt(s("7"))), "attempt:7");
}

#[test]
fn resume_revalidation_reads_the_root() {
    let post = s("post");
    let pre = s("pre");
    let r = resume_revalidation(true, &RootObservation::Read(s("post")), true, Some((&pre, 2)), &post, 2);
    assert!(r.filesystem_matches_expected && r.execution_policy_matches && r.operation_versions_match);
    let r = resume_revalidation(true, &RootObservation::Read(s("pre")), true, Some((&pre, 2)), &post, 3);
    assert!(!r.filesystem_matches_expected && !r.execution_policy_matches);
    let r = resume_revalidation(false, &RootObservation::Read(s("pre")), false, Some((&pre, 2)), &post, 2);
    assert!(r.filesystem_matches_expected && !r.event_chain_matches);
    let r = resume_revalidation(true, &RootObservation::Unreadable, false, None, &post, 2);
    assert!(!r.filesystem_matches_expected && r.execution_policy_matches);
    let r = resume_revalidation(true, &RootObservation::Unbound, true, None, &post, 2);
    assert!(r.filesystem_matches_expected);
}

#[test]
fn resume_labels() {
    assert_eq!(resume_label(None), "continue");
    assert_eq!(
        resume_label(Some(&ResumeDecision::SkipConfirmedReplacement { effect_id: s("e9") })),
        "skip_confirmed_replacement:e9"
    );
    assert_eq!(
        resume_label(Some(&ResumeDecision::RequireFreshGrant { expired_grant_id: s("g2") })),
        "require_fresh_grant:g2"
    );
    assert_eq!(
        resume_label(Some(&ResumeDecision::RequireReapprovalOrAbandon)),
        "require_reapproval_or_abandon"
    );
}
