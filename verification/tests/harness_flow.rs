use tule_desktop::harness::{
    bootstrap_request, harness_event_answers, harness_step, BootstrapRequest, HarnessAction, HarnessEvent, HarnessPhase,
    HarnessPublicError, ProviderMode, RunFacts,
};
use tule_desktop::operation_broker::{BrokerError, BrokerFaultPoint};

fn opened() -> HarnessEvent {
    HarnessEvent::Opened { run_id_valid: true, bound: Ok(()) }
}

#[test]
fn bootstrap_request_reads_blank_text_and_mode() {
    assert_eq!(
        bootstrap_request("  \n", "grok", "fixture"),
        BootstrapRequest { instructions_blank: true, model_blank: false, mode: ProviderMode::Fixture }
    );
    assert_eq!(bootstrap_request("do it", " ", "live").mode, ProviderMode::Live);
    assert!(bootstrap_request("do it", " ", "live").model_blank);
    assert_eq!(bootstrap_request("a", "b", "other").mode, ProviderMode::Unknown);
}

#[test]
fn fixture_bootstrap_falls_back_to_the_known_postimage() {
    let req = bootstrap_request("change heading", "grok-3", "fixture");
    let (p, a) = harness_step(HarnessPhase::BootstrapOpening(req), opened());
    assert_eq!(a, HarnessAction::IssueReadGrant);
    let (p, a) = harness_step(p, HarnessEvent::Checked(true));
    assert_eq!(a, HarnessAction::LocalRead);
    let (p, a) = harness_step(p, HarnessEvent::Brokered(Ok(())));
    assert_eq!(a, HarnessAction::UpdateBinding);
    let (p, a) = harness_step(p, HarnessEvent::Mapped(Ok(())));
    assert_eq!(a, HarnessAction::BuildManifest);
    let (p, a) = harness_step(p, HarnessEvent::Checked(true));
    assert_eq!(a, HarnessAction::IssueDiscloseGrant);
    let (p, a) = harness_step(p, HarnessEvent::Checked(true));
    assert_eq!(a, HarnessAction::Disclose(ProviderMode::Fixture));
    let (p, a) = harness_step(p, HarnessEvent::Disclosed(Ok(true)));
    assert_eq!(a, HarnessAction::CompileAndFreeze { fixture_postimage: true });
    let (p, a) = harness_step(p, HarnessEvent::Checked(true));
    assert_eq!(a, HarnessAction::ShowDetail);
    let (_, a) = harness_step(p, HarnessEvent::Shown(Ok(())));
    assert_eq!(a, HarnessAction::Finish(Ok(())));
}

#[test]
fn live_bootstrap_with_empty_answer_is_invalid() {
    let req = bootstrap_request("x", "m", "live");
    let (_, a) = harness_step(HarnessPhase::Disclosing(req), HarnessEvent::Disclosed(Ok(true)));
    assert_eq!(a, HarnessAction::Finish(Err(HarnessPublicError::InvalidInput)));
    let bad = bootstrap_request("x", "m", "other");
    let (_, a) = harness_step(HarnessPhase::IssuingDiscloseGrant(bad), HarnessEvent::Checked(true));
    assert_eq!(a, HarnessAction::Finish(Err(HarnessPublicError::InvalidInput)));
    let blank = bootstrap_request(" ", "m", "live");
    let (_, a) = harness_step(HarnessPhase::BootstrapOpening(blank), opened());
    assert_eq!(a, HarnessAction::Finish(Err(HarnessPublicError::InvalidInput)));
}

#[test]
fn execution_checks_the_run_before_replacing() {
    let (p, a) = harness_step(HarnessPhase::ExecuteOpening, opened());
    assert_eq!(a, HarnessAction::Reconstruct);
    let facts = RunFacts { blocked: false, has_plan: true, approved: false };
    let (_, a) = harness_step(p, HarnessEvent::Reconstructed(Ok(facts)));
    assert_eq!(a, HarnessAction::Finish(Err(HarnessPublicError::Denied)));
    let blocked = RunFacts { blocked: true, has_plan: true, approved: true };
    let (_, a) = harness_step(HarnessPhase::Reconstructing, HarnessEvent::Reconstructed(Ok(blocked)));
    assert_eq!(a, HarnessAction::Finish(Err(HarnessPublicError::Blocked)));
    let ok = RunFacts { blocked: false, has_plan: true, approved: true };
    let (p, a) = harness_step(HarnessPhase::Reconstructing, HarnessEvent::Reconstructed(Ok(ok)));
    assert_eq!(a, HarnessAction::AcquireLease);
    let (p, _) = harness_step(p, HarnessEvent::Checked(true));
    let (p, a) = harness_step(p, HarnessEvent::Checked(true));
    assert_eq!(a, HarnessAction::ReloadGrant);
    let (p, a) = harness_step(p, HarnessEvent::Brokered(Ok(())));
    assert_eq!(a, HarnessAction::CheckPreimage);
    let (p, a) = harness_step(p, HarnessEvent::Checked(true));
    assert_eq!(a, HarnessAction::Replace);
    let (_, a) = harness_step(
        p,
        HarnessEvent::Brokered(Err(BrokerError::InjectedFault(BrokerFaultPoint::AfterPrepared))),
    );
    assert_eq!(a, HarnessAction::Finish(Err(HarnessPublicError::Blocked)));
}

#[test]
fn a_host_can_tell_whether_an_event_answers_the_phase() {
    let req = bootstrap_request("change heading", "grok-3", "fixture");
    assert!(harness_event_answers(&HarnessPhase::BootstrapOpening(req), &opened()));
    assert!(!harness_event_answers(&HarnessPhase::BootstrapOpening(req), &HarnessEvent::Checked(true)));
    assert!(harness_event_answers(&HarnessPhase::Replacing, &HarnessEvent::Brokered(Ok(()))));
    assert!(harness_event_answers(&HarnessPhase::Leasing, &HarnessEvent::Checked(false)));
    assert!(!harness_event_answers(&HarnessPhase::Done, &HarnessEvent::Checked(true)));
}
