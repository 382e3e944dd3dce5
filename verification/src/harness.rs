//! The Harness surface's public error vocabulary, the provider text it
//! collects, and the decisions of a run's bootstrap and execution.

use vstd::prelude::*;

use crate::operation_broker::BrokerError;
use crate::provider::{events_view, ProviderEvent, ProviderEventModel, PublicError};

verus! {

#[derive(Debug, Clone, Copy, PartialEq, Eq, Structural)]
pub enum HarnessPublicError {
    InvalidInput,
    StorageUnavailable,
    Denied,
    UnsupportedOperation,
    Blocked,
    ProviderUnavailable,
}

pub open spec fn harness_error_for_public(error: PublicError) -> HarnessPublicError {
    match error {
        PublicError::InvalidInput => HarnessPublicError::InvalidInput,
        PublicError::ProviderUnavailable => HarnessPublicError::ProviderUnavailable,
        PublicError::NotConnected => HarnessPublicError::ProviderUnavailable,
        _ => HarnessPublicError::StorageUnavailable,
    }
}

impl From<PublicError> for HarnessPublicError {
    fn from(value: PublicError) -> (r: Self) {
        match value {
            PublicError::InvalidInput => HarnessPublicError::InvalidInput,
            PublicError::ProviderUnavailable => HarnessPublicError::ProviderUnavailable,
            PublicError::NotConnected => HarnessPublicError::ProviderUnavailable,
            _ => HarnessPublicError::StorageUnavailable,
        }
    }
}

impl vstd::std_specs::convert::FromSpecImpl<PublicError> for HarnessPublicError {
    open spec fn obeys_from_spec() -> bool {
        true
    }

    open spec fn from_spec(value: PublicError) -> HarnessPublicError {
        harness_error_for_public(value)
    }
}

/// How a broker failure reads at the Harness boundary: denials, storage
/// failures, an unavailable provider, or a blocked run.
pub open spec fn harness_error_for_broker(error: BrokerError) -> HarnessPublicError {
    match error {
        BrokerError::UnsupportedOperation(_) => HarnessPublicError::UnsupportedOperation,
        BrokerError::GrantDenied(_) => HarnessPublicError::Denied,
        BrokerError::MissingGrant => HarnessPublicError::Denied,
        BrokerError::AuthorityMismatch(_) => HarnessPublicError::Denied,
        BrokerError::MissingRun => HarnessPublicError::StorageUnavailable,
        BrokerError::Storage(_) => HarnessPublicError::StorageUnavailable,
        BrokerError::Provider(PublicError::ProviderUnavailable) => HarnessPublicError::ProviderUnavailable,
        BrokerError::Provider(PublicError::NotConnected) => HarnessPublicError::ProviderUnavailable,
        BrokerError::Provider(_) => HarnessPublicError::Blocked,
        BrokerError::InjectedFault(_) => HarnessPublicError::Blocked,
    }
}

impl From<BrokerError> for HarnessPublicError {
    fn from(value: BrokerError) -> (r: Self) {
        match value {
            BrokerError::UnsupportedOperation(_) => HarnessPublicError::UnsupportedOperation,
            BrokerError::GrantDenied(_) => HarnessPublicError::Denied,
            BrokerError::MissingGrant => HarnessPublicError::Denied,
            BrokerError::AuthorityMismatch(_) => HarnessPublicError::Denied,
            BrokerError::MissingRun => HarnessPublicError::StorageUnavailable,
            BrokerError::Storage(_) => HarnessPublicError::StorageUnavailable,
            BrokerError::Provider(PublicError::ProviderUnavailable) => HarnessPublicError::ProviderUnavailable,
            BrokerError::Provider(PublicError::NotConnected) => HarnessPublicError::ProviderUnavailable,
            BrokerError::Provider(_) => HarnessPublicError::Blocked,
            BrokerError::InjectedFault(_) => HarnessPublicError::Blocked,
        }
    }
}

impl vstd::std_specs::convert::FromSpecImpl<BrokerError> for HarnessPublicError {
    open spec fn obeys_from_spec() -> bool {
        true
    }

    open spec fn from_spec(value: BrokerError) -> HarnessPublicError {
        harness_error_for_broker(value)
    }
}

/// The text of a stream: its deltas in order.
pub open spec fn delta_text(events: Seq<ProviderEventModel>) -> Seq<char>
    decreases events.len(),
{
    if events.len() == 0 {
        seq![]
    } else {
        delta_text(events.drop_last()) + match events.last() {
            ProviderEventModel::Delta(text) => text,
            ProviderEventModel::Completed { .. } => seq![],
        }
    }
}

pub fn collect_provider_text(events: &[ProviderEvent]) -> (text: String)
    ensures
        text@ == delta_text(events_view(events@)),
{
    let mut text = String::new();
    let mut i: usize = 0;
    while i < events.len()
        invariant
            i <= events@.len(),
            text@ == delta_text(events_view(events@.take(i as int))),
        decreases events@.len() - i,
    {
        let ghost prefix = events_view(events@.take(i + 1));
        assert(prefix.drop_last() =~= events_view(events@.take(i as int)));
        assert(prefix.last() == events@[i as int]@);
        if let ProviderEvent::Delta(delta) = &events[i] {
            text.append(delta.as_str());
        } else {
            assert(text@ + Seq::<char>::empty() =~= text@);
        }
        i = i + 1;
    }
    assert(events@.take(events@.len() as int) =~= events@);
    text
}

/// The display name used when a picked root has no Unicode final component.
pub const DEFAULT_ROOT_DISPLAY_NAME: &'static str = "run-root";

/// The display name of a run root, given the root's final path component.
pub fn display_name_from_basename(basename: Option<String>) -> (r: String)
    ensures
        r@ == match basename {
            Some(name) => name@,
            None => DEFAULT_ROOT_DISPLAY_NAME@,
        },
{
    match basename {
        Some(name) => name,
        None => DEFAULT_ROOT_DISPLAY_NAME.to_owned(),
    }
}

/// The display name of a Harness run root: its final path component, or
/// the default name where that is missing or not valid Unicode.
pub fn display_name_for_root(root: &std::path::PathBuf) -> (r: String)
    ensures
        r@ == match crate::source_draft::path_file_name(*root) {
            Some(name) => name,
            None => DEFAULT_ROOT_DISPLAY_NAME@,
        },
{
    display_name_from_basename(crate::source_draft::lossless_basename(root))
}

/// Whether text is empty once surrounding whitespace is trimmed.
pub open spec fn is_blank(s: Seq<char>) -> bool {
    crate::text::leading_whitespace(s) == s.len()
}

/// How a bootstrap obtains its plan proposal.
#[derive(Debug, Clone, Copy, PartialEq, Eq, Structural)]
pub enum ProviderMode {
    /// The controlled fixture provider, whose postimage is known in advance.
    Fixture,
    /// The connected provider.
    Live,
    /// Any other mode text.
    Unknown,
}

pub open spec fn provider_mode_spec(mode: Seq<char>) -> ProviderMode {
    if mode == "fixture"@ {
        ProviderMode::Fixture
    } else if mode == "live"@ {
        ProviderMode::Live
    } else {
        ProviderMode::Unknown
    }
}

/// What a bootstrap request asks for, as far as its decisions depend on it.
#[derive(Debug, Clone, Copy, PartialEq, Eq, Structural)]
pub struct BootstrapRequest {
    pub instructions_blank: bool,
    pub model_blank: bool,
    pub mode: ProviderMode,
}

/// The decision-relevant parts of a bootstrap request.
pub fn bootstrap_request(instructions: &str, model_id: &str, provider_mode: &str) -> (r:
    BootstrapRequest)
    ensures
        r.instructions_blank == is_blank(instructions@),
        r.model_blank == is_blank(model_id@),
        r.mode == provider_mode_spec(provider_mode@),
{
    let i = crate::text::chars_of(instructions);
    let m = crate::text::chars_of(model_id);
    let instructions_blank = crate::text::leading_whitespace_len(i.as_slice()) == i.len();
    let model_blank = crate::text::leading_whitespace_len(m.as_slice()) == m.len();
    let mode = if crate::text::string_eq_str(&provider_mode.to_owned(), "fixture") {
        ProviderMode::Fixture
    } else if crate::text::string_eq_str(&provider_mode.to_owned(), "live") {
        ProviderMode::Live
    } else {
        ProviderMode::Unknown
    };
    BootstrapRequest { instructions_blank, model_blank, mode }
}

/// What the reconstructed run shows before an execution.
#[derive(Debug, Clone, Copy, PartialEq, Eq, Structural)]
pub struct RunFacts {
    /// The lifecycle requires reconciliation before anything else.
    pub blocked: bool,
    /// The run has a latest plan with its graph.
    pub has_plan: bool,
    /// An approval matches the latest plan's approval hash.
    pub approved: bool,
}

/// Where a bootstrap or an execution of a Harness run stands: each phase
/// waits for the answer to one action.
#[derive(Debug, Clone, Copy, PartialEq, Eq)]
pub enum HarnessPhase {
    BootstrapOpening(BootstrapRequest),
    IssuingReadGrant(BootstrapRequest),
    Reading(BootstrapRequest),
    UpdatingBinding(BootstrapRequest),
    BuildingManifest(BootstrapRequest),
    IssuingDiscloseGrant(BootstrapRequest),
    Disclosing(BootstrapRequest),
    Freezing,
    ExecuteOpening,
    Reconstructing,
    Leasing,
    FindingReplaceGrant,
    ReloadingReplaceGrant,
    CheckingPreimage,
    Replacing,
    ReloadingPlan,
    Checkpointing,
    FindingInspectGrant,
    ReloadingInspectGrant,
    Inspecting,
    Validating,
    Completing,
    Showing,
    Done,
}

/// The answer to the action a Harness flow waits on.
#[derive(Debug, PartialEq, Eq)]
pub enum HarnessEvent {
    /// The command was received: whether the run identifier parses, and the
    /// run root's binding lookup.
    Opened { run_id_valid: bool, bound: Result<(), HarnessPublicError> },
    /// A grant issue, lease, manifest, freeze, preimage or validation step
    /// succeeded or not.
    Checked(bool),
    /// A brokered operation.
    Brokered(Result<(), BrokerError>),
    /// A step that reports a Harness error itself.
    Mapped(Result<(), HarnessPublicError>),
    /// A lookup in the reconstructed run: found or not, or the reconstruction
    /// failed.
    Found(Result<bool, HarnessPublicError>),
    Reconstructed(Result<RunFacts, HarnessPublicError>),
    /// The disclosure: whether the provider's collected text is empty.
    Disclosed(Result<bool, BrokerError>),
    /// The run detail that the command answers with.
    Shown(Result<(), HarnessPublicError>),
}

/// What the host does next in a Harness flow.
#[derive(Debug, Clone, Copy, PartialEq, Eq)]
pub enum HarnessAction {
    IssueReadGrant,
    LocalRead,
    UpdateBinding,
    BuildManifest,
    IssueDiscloseGrant,
    Disclose(ProviderMode),
    /// Compile and freeze the plan/graph pair; with `fixture_postimage` the
    /// fixture's known postimage stands in for an empty provider answer.
    CompileAndFreeze { fixture_postimage: bool },
    Reconstruct,
    AcquireLease,
    FindReplaceGrant,
    ReloadGrant,
    CheckPreimage,
    Replace,
    ReloadPlan,
    Checkpoint,
    FindInspectGrant,
    Inspect,
    Validate,
    Complete,
    ShowDetail,
    Finish(Result<(), HarnessPublicError>),
}

/// Whether `event` answers the action that `phase` waits on.
pub open spec fn harness_answers(phase: HarnessPhase, event: HarnessEvent) -> bool {
    match phase {
        HarnessPhase::BootstrapOpening(_) | HarnessPhase::ExecuteOpening => event is Opened,
        HarnessPhase::Reading(_) | HarnessPhase::ReloadingReplaceGrant | HarnessPhase::Replacing
        | HarnessPhase::ReloadingInspectGrant | HarnessPhase::Inspecting => event is Brokered,
        HarnessPhase::UpdatingBinding(_) => event is Mapped,
        HarnessPhase::Disclosing(_) => event is Disclosed,
        HarnessPhase::Reconstructing => event is Reconstructed,
        HarnessPhase::ReloadingPlan | HarnessPhase::FindingInspectGrant => event is Found,
        HarnessPhase::Showing => event is Shown,
        HarnessPhase::Done => false,
        _ => event is Checked,
    }
}

/// Whether `event` answers the action that `phase` waits on; a host tests
/// this before it hands the event to [`harness_step`].
pub fn harness_event_answers(phase: &HarnessPhase, event: &HarnessEvent) -> (r: bool)
    ensures
        r == harness_answers(*phase, *event),
{
    match phase {
        HarnessPhase::BootstrapOpening(_) | HarnessPhase::ExecuteOpening => matches!(
            event,
            HarnessEvent::Opened { .. }
        ),
        HarnessPhase::Reading(_) | HarnessPhase::ReloadingReplaceGrant | HarnessPhase::Replacing
        | HarnessPhase::ReloadingInspectGrant | HarnessPhase::Inspecting => matches!(
            event,
            HarnessEvent::Brokered(_)
        ),
        HarnessPhase::UpdatingBinding(_) => matches!(event, HarnessEvent::Mapped(_)),
        HarnessPhase::Disclosing(_) => matches!(event, HarnessEvent::Disclosed(_)),
        HarnessPhase::Reconstructing => matches!(event, HarnessEvent::Reconstructed(_)),
        HarnessPhase::ReloadingPlan | HarnessPhase::FindingInspectGrant => matches!(
            event,
            HarnessEvent::Found(_)
        ),
        HarnessPhase::Showing => matches!(event, HarnessEvent::Shown(_)),
        HarnessPhase::Done => false,
        _ => matches!(event, HarnessEvent::Checked(_)),
    }
}

pub open spec fn harness_finish(r: Result<(), HarnessPublicError>) -> (HarnessPhase, HarnessAction) {
    (HarnessPhase::Done, HarnessAction::Finish(r))
}

pub open spec fn harness_fail(e: HarnessPublicError) -> (HarnessPhase, HarnessAction) {
    harness_finish(Err(e))
}

/// A step that succeeded or not: on success the next phase and action, else
/// the failure.
pub open spec fn gate(
    ok: bool,
    failure: HarnessPublicError,
    next: HarnessPhase,
    action: HarnessAction,
) -> (HarnessPhase, HarnessAction) {
    if ok {
        (next, action)
    } else {
        harness_fail(failure)
    }
}

pub open spec fn brokered(
    r: Result<(), BrokerError>,
    next: HarnessPhase,
    action: HarnessAction,
) -> (HarnessPhase, HarnessAction) {
    match r {
        Ok(()) => (next, action),
        Err(e) => harness_fail(harness_error_for_broker(e)),
    }
}

/// One decision of a Harness bootstrap or execution: from the phase and the
/// answer to its pending action, the next phase and action.
pub open spec fn harness_step_spec(phase: HarnessPhase, event: HarnessEvent) -> (
    HarnessPhase,
    HarnessAction,
) {
    match (phase, event) {
        (HarnessPhase::BootstrapOpening(req), HarnessEvent::Opened { run_id_valid, bound }) => if !run_id_valid
            || req.instructions_blank || req.model_blank {
            harness_fail(HarnessPublicError::InvalidInput)
        } else {
            match bound {
                Err(e) => harness_fail(e),
                Ok(()) => (HarnessPhase::IssuingReadGrant(req), HarnessAction::IssueReadGrant),
            }
        },
        (HarnessPhase::IssuingReadGrant(req), HarnessEvent::Checked(ok)) => gate(
            ok,
            HarnessPublicError::Denied,
            HarnessPhase::Reading(req),
            HarnessAction::LocalRead,
        ),
        (HarnessPhase::Reading(req), HarnessEvent::Brokered(r)) => brokered(
            r,
            HarnessPhase::UpdatingBinding(req),
            HarnessAction::UpdateBinding,
        ),
        (HarnessPhase::UpdatingBinding(req), HarnessEvent::Mapped(r)) => match r {
            Err(e) => harness_fail(e),
            Ok(()) => (HarnessPhase::BuildingManifest(req), HarnessAction::BuildManifest),
        },
        (HarnessPhase::BuildingManifest(req), HarnessEvent::Checked(ok)) => gate(
            ok,
            HarnessPublicError::InvalidInput,
            HarnessPhase::IssuingDiscloseGrant(req),
            HarnessAction::IssueDiscloseGrant,
        ),
        (HarnessPhase::IssuingDiscloseGrant(req), HarnessEvent::Checked(ok)) => if !ok {
            harness_fail(HarnessPublicError::Denied)
        } else if req.mode == ProviderMode::Unknown {
            harness_fail(HarnessPublicError::InvalidInput)
        } else {
            (HarnessPhase::Disclosing(req), HarnessAction::Disclose(req.mode))
        },
        (HarnessPhase::Disclosing(req), HarnessEvent::Disclosed(r)) => match r {
            Err(e) => harness_fail(harness_error_for_broker(e)),
            Ok(empty) => if !empty {
                (HarnessPhase::Freezing, HarnessAction::CompileAndFreeze { fixture_postimage: false })
            } else if req.mode == ProviderMode::Fixture {
                (HarnessPhase::Freezing, HarnessAction::CompileAndFreeze { fixture_postimage: true })
            } else {
                harness_fail(HarnessPublicError::InvalidInput)
            },
        },
        (HarnessPhase::Freezing, HarnessEvent::Checked(ok)) => gate(
            ok,
            HarnessPublicError::InvalidInput,
            HarnessPhase::Showing,
            HarnessAction::ShowDetail,
        ),
        (HarnessPhase::ExecuteOpening, HarnessEvent::Opened { run_id_valid, bound }) => if !run_id_valid {
            harness_fail(HarnessPublicError::InvalidInput)
        } else {
            match bound {
                Err(e) => harness_fail(e),
                Ok(()) => (HarnessPhase::Reconstructing, HarnessAction::Reconstruct),
            }
        },
        (HarnessPhase::Reconstructing, HarnessEvent::Reconstructed(r)) => match r {
            Err(e) => harness_fail(e),
            Ok(facts) => if facts.blocked {
                harness_fail(HarnessPublicError::Blocked)
            } else if !facts.has_plan {
                harness_fail(HarnessPublicError::InvalidInput)
            } else if !facts.approved {
                harness_fail(HarnessPublicError::Denied)
            } else {
                (HarnessPhase::Leasing, HarnessAction::AcquireLease)
            },
        },
        (HarnessPhase::Leasing, HarnessEvent::Checked(ok)) => gate(
            ok,
            HarnessPublicError::Denied,
            HarnessPhase::FindingReplaceGrant,
            HarnessAction::FindReplaceGrant,
        ),
        (HarnessPhase::FindingReplaceGrant, HarnessEvent::Checked(ok)) => gate(
            ok,
            HarnessPublicError::Denied,
            HarnessPhase::ReloadingReplaceGrant,
            HarnessAction::ReloadGrant,
        ),
        (HarnessPhase::ReloadingReplaceGrant, HarnessEvent::Brokered(r)) => brokered(
            r,
            HarnessPhase::CheckingPreimage,
            HarnessAction::CheckPreimage,
        ),
        (HarnessPhase::CheckingPreimage, HarnessEvent::Checked(ok)) => gate(
            ok,
            HarnessPublicError::InvalidInput,
            HarnessPhase::Replacing,
            HarnessAction::Replace,
        ),
        (HarnessPhase::Replacing, HarnessEvent::Brokered(r)) => brokered(
            r,
            HarnessPhase::ReloadingPlan,
            HarnessAction::ReloadPlan,
        ),
        (HarnessPhase::ReloadingPlan, HarnessEvent::Found(r)) => match r {
            Err(e) => harness_fail(e),
            Ok(found) => gate(
                found,
                HarnessPublicError::StorageUnavailable,
                HarnessPhase::Checkpointing,
                HarnessAction::Checkpoint,
            ),
        },
        (HarnessPhase::Checkpointing, HarnessEvent::Checked(ok)) => gate(
            ok,
            HarnessPublicError::Blocked,
            HarnessPhase::FindingInspectGrant,
            HarnessAction::FindInspectGrant,
        ),
        (HarnessPhase::FindingInspectGrant, HarnessEvent::Found(r)) => match r {
            Err(e) => harness_fail(e),
            Ok(found) => gate(
                found,
                HarnessPublicError::Denied,
                HarnessPhase::ReloadingInspectGrant,
                HarnessAction::ReloadGrant,
            ),
        },
        (HarnessPhase::ReloadingInspectGrant, HarnessEvent::Brokered(r)) => brokered(
            r,
            HarnessPhase::Inspecting,
            HarnessAction::Inspect,
        ),
        (HarnessPhase::Inspecting, HarnessEvent::Brokered(r)) => brokered(
            r,
            HarnessPhase::Validating,
            HarnessAction::Validate,
        ),
        (HarnessPhase::Validating, HarnessEvent::Checked(ok)) => gate(
            ok,
            HarnessPublicError::Blocked,
            HarnessPhase::Completing,
            HarnessAction::Complete,
        ),
        (HarnessPhase::Completing, HarnessEvent::Checked(ok)) => gate(
            ok,
            HarnessPublicError::StorageUnavailable,
            HarnessPhase::Showing,
            HarnessAction::ShowDetail,
        ),
        (HarnessPhase::Showing, HarnessEvent::Shown(r)) => harness_finish(r),
        _ => harness_finish(Ok(())),
    }
}

fn fail_with(e: HarnessPublicError) -> (r: (HarnessPhase, HarnessAction))
    ensures
        r == harness_fail(e),
{
    (HarnessPhase::Done, HarnessAction::Finish(Err(e)))
}

fn finish_with_result(res: Result<(), HarnessPublicError>) -> (r: (HarnessPhase, HarnessAction))
    ensures
        r == harness_finish(res),
{
    (HarnessPhase::Done, HarnessAction::Finish(res))
}

fn gate_with(ok: bool, failure: HarnessPublicError, next: HarnessPhase, action: HarnessAction) -> (r:
    (HarnessPhase, HarnessAction))
    ensures
        r == gate(ok, failure, next, action),
{
    if ok {
        (next, action)
    } else {
        fail_with(failure)
    }
}

fn brokered_with(res: Result<(), BrokerError>, next: HarnessPhase, action: HarnessAction) -> (r: (
    HarnessPhase,
    HarnessAction,
))
    ensures
        r == brokered(res, next, action),
{
    match res {
        Ok(()) => (next, action),
        Err(e) => fail_with(HarnessPublicError::from(e)),
    }
}

/// One decision of a Harness bootstrap or execution (see
/// [`harness_step_spec`]): the host performs the returned action and answers
/// it with the next event.
pub fn harness_step(phase: HarnessPhase, event: HarnessEvent) -> (r: (HarnessPhase, HarnessAction))
    requires
        harness_answers(phase, event),
    ensures
        r == harness_step_spec(phase, event),
{
    if is_bootstrap_phase(&phase) {
        bootstrap_step(phase, event)
    } else {
        execution_step(phase, event)
    }
}

/// Whether a phase belongs to a Harness bootstrap.
pub open spec fn bootstrap_phase(phase: HarnessPhase) -> bool {
    ||| phase is BootstrapOpening
    ||| phase is IssuingReadGrant
    ||| phase is Reading
    ||| phase is UpdatingBinding
    ||| phase is BuildingManifest
    ||| phase is IssuingDiscloseGrant
    ||| phase is Disclosing
    ||| phase is Freezing
}

fn is_bootstrap_phase(phase: &HarnessPhase) -> (r: bool)
    ensures
        r == bootstrap_phase(*phase),
{
    match phase {
        HarnessPhase::BootstrapOpening(_) | HarnessPhase::IssuingReadGrant(_) | HarnessPhase::Reading(_)
        | HarnessPhase::UpdatingBinding(_) | HarnessPhase::BuildingManifest(_)
        | HarnessPhase::IssuingDiscloseGrant(_) | HarnessPhase::Disclosing(_)
        | HarnessPhase::Freezing => true,
        _ => false,
    }
}

/// The decisions of a bootstrap phase.
#[verifier::spinoff_prover]
fn bootstrap_step(phase: HarnessPhase, event: HarnessEvent) -> (r: (HarnessPhase, HarnessAction))
    requires
        harness_answers(phase, event),
        bootstrap_phase(phase),
    ensures
        r == harness_step_spec(phase, event),
{
    match (phase, event) {
        (HarnessPhase::BootstrapOpening(req), HarnessEvent::Opened { run_id_valid, bound }) => if !run_id_valid
            || req.instructions_blank || req.model_blank {
            fail_with(HarnessPublicError::InvalidInput)
        } else {
            match bound {
                Err(e) => fail_with(e),
                Ok(()) => (HarnessPhase::IssuingReadGrant(req), HarnessAction::IssueReadGrant),
            }
        },
        (HarnessPhase::IssuingReadGrant(req), HarnessEvent::Checked(ok)) => gate_with(
            ok,
            HarnessPublicError::Denied,
            HarnessPhase::Reading(req),
            HarnessAction::LocalRead,
        ),
        (HarnessPhase::Reading(req), HarnessEvent::Brokered(r)) => brokered_with(
            r,
            HarnessPhase::UpdatingBinding(req),
            HarnessAction::UpdateBinding,
        ),
        (HarnessPhase::UpdatingBinding(req), HarnessEvent::Mapped(r)) => match r {
            Err(e) => fail_with(e),
            Ok(()) => (HarnessPhase::BuildingManifest(req), HarnessAction::BuildManifest),
        },
        (HarnessPhase::BuildingManifest(req), HarnessEvent::Checked(ok)) => gate_with(
            ok,
            HarnessPublicError::InvalidInput,
            HarnessPhase::IssuingDiscloseGrant(req),
            HarnessAction::IssueDiscloseGrant,
        ),
        (HarnessPhase::IssuingDiscloseGrant(req), HarnessEvent::Checked(ok)) => if !ok {
            fail_with(HarnessPublicError::Denied)
        } else if matches!(req.mode, ProviderMode::Unknown) {
            fail_with(HarnessPublicError::InvalidInput)
        } else {
            (HarnessPhase::Disclosing(req), HarnessAction::Disclose(req.mode))
        },
        (HarnessPhase::Disclosing(req), HarnessEvent::Disclosed(r)) => match r {
            Err(e) => fail_with(HarnessPublicError::from(e)),
            Ok(empty) => if !empty {
                (HarnessPhase::Freezing, HarnessAction::CompileAndFreeze { fixture_postimage: false })
            } else if matches!(req.mode, ProviderMode::Fixture) {
                (HarnessPhase::Freezing, HarnessAction::CompileAndFreeze { fixture_postimage: true })
            } else {
                fail_with(HarnessPublicError::InvalidInput)
            },
        },
        (HarnessPhase::Freezing, HarnessEvent::Checked(ok)) => gate_with(
            ok,
            HarnessPublicError::InvalidInput,
            HarnessPhase::Showing,
            HarnessAction::ShowDetail,
        ),
        _ => finish_with_result(Ok(())),
    }
}

/// The decisions of an execution phase.
#[verifier::spinoff_prover]
fn execution_step(phase: HarnessPhase, event: HarnessEvent) -> (r: (HarnessPhase, HarnessAction))
    requires
        harness_answers(phase, event),
        !bootstrap_phase(phase),
    ensures
        r == harness_step_spec(phase, event),
{
    match (phase, event) {
        (HarnessPhase::ExecuteOpening, HarnessEvent::Opened { run_id_valid, bound }) => if !run_id_valid {
            fail_with(HarnessPublicError::InvalidInput)
        } else {
            match bound {
                Err(e) => fail_with(e),
                Ok(()) => (HarnessPhase::Reconstructing, HarnessAction::Reconstruct),
            }
        },
        (HarnessPhase::Reconstructing, HarnessEvent::Reconstructed(r)) => match r {
            Err(e) => fail_with(e),
            Ok(facts) => if facts.blocked {
                fail_with(HarnessPublicError::Blocked)
            } else if !facts.has_plan {
                fail_with(HarnessPublicError::InvalidInput)
            } else if !facts.approved {
                fail_with(HarnessPublicError::Denied)
            } else {
                (HarnessPhase::Leasing, HarnessAction::AcquireLease)
            },
        },
        (HarnessPhase::Leasing, HarnessEvent::Checked(ok)) => gate_with(
            ok,
            HarnessPublicError::Denied,
            HarnessPhase::FindingReplaceGrant,
            HarnessAction::FindReplaceGrant,
        ),
        (HarnessPhase::FindingReplaceGrant, HarnessEvent::Checked(ok)) => gate_with(
            ok,
            HarnessPublicError::Denied,
            HarnessPhase::ReloadingReplaceGrant,
            HarnessAction::ReloadGrant,
        ),
        (HarnessPhase::ReloadingReplaceGrant, HarnessEvent::Brokered(r)) => brokered_with(
            r,
            HarnessPhase::CheckingPreimage,
            HarnessAction::CheckPreimage,
        ),
        (HarnessPhase::CheckingPreimage, HarnessEvent::Checked(ok)) => gate_with(
            ok,
            HarnessPublicError::InvalidInput,
            HarnessPhase::Replacing,
            HarnessAction::Replace,
        ),
        (HarnessPhase::Replacing, HarnessEvent::Brokered(r)) => brokered_with(
            r,
            HarnessPhase::ReloadingPlan,
            HarnessAction::ReloadPlan,
        ),
        (HarnessPhase::ReloadingPlan, HarnessEvent::Found(r)) => match r {
            Err(e) => fail_with(e),
            Ok(found) => gate_with(
                found,
                HarnessPublicError::StorageUnavailable,
                HarnessPhase::Checkpointing,
                HarnessAction::Checkpoint,
            ),
        },
        (HarnessPhase::Checkpointing, HarnessEvent::Checked(ok)) => gate_with(
            ok,
            HarnessPublicError::Blocked,
            HarnessPhase::FindingInspectGrant,
            HarnessAction::FindInspectGrant,
        ),
        (HarnessPhase::FindingInspectGrant, HarnessEvent::Found(r)) => match r {
            Err(e) => fail_with(e),
            Ok(found) => gate_with(
                found,
                HarnessPublicError::Denied,
                HarnessPhase::ReloadingInspectGrant,
                HarnessAction::ReloadGrant,
            ),
        },
        (HarnessPhase::ReloadingInspectGrant, HarnessEvent::Brokered(r)) => brokered_with(
            r,
            HarnessPhase::Inspecting,
            HarnessAction::Inspect,
        ),
        (HarnessPhase::Inspecting, HarnessEvent::Brokered(r)) => brokered_with(
            r,
            HarnessPhase::Validating,
            HarnessAction::Validate,
        ),
        (HarnessPhase::Validating, HarnessEvent::Checked(ok)) => gate_with(
            ok,
            HarnessPublicError::Blocked,
            HarnessPhase::Completing,
            HarnessAction::Complete,
        ),
        (HarnessPhase::Completing, HarnessEvent::Checked(ok)) => gate_with(
            ok,
            HarnessPublicError::StorageUnavailable,
            HarnessPhase::Showing,
            HarnessAction::ShowDetail,
        ),
        (HarnessPhase::Showing, HarnessEvent::Shown(r)) => finish_with_result(r),
        _ => finish_with_result(Ok(())),
    }
}

/// Law: an execution replaces the target only after the run was found
/// unblocked, planned and approved, the lease taken, a replacement grant
/// found and reloaded, and the preimage checked: the last step before it.
pub proof fn lemma_replace_only_after_checks(phase: HarnessPhase, event: HarnessEvent)
    requires
        harness_answers(phase, event),
    ensures
        harness_step_spec(phase, event).1 == HarnessAction::Replace ==> phase
            == HarnessPhase::CheckingPreimage && event == HarnessEvent::Checked(true),
        harness_step_spec(phase, event).1 == HarnessAction::AcquireLease ==> (event matches
            HarnessEvent::Reconstructed(Ok(facts)) && !facts.blocked && facts.has_plan
            && facts.approved),
{
}

/// Law: a disclosure that came back with a non-empty answer is compiled and
/// frozen as the postimage, whatever the provider mode; an empty answer
/// falls back to the fixture's postimage in fixture mode and fails as
/// invalid input otherwise.
pub proof fn lemma_answered_disclosure_is_frozen(req: BootstrapRequest)
    ensures
        harness_step_spec(HarnessPhase::Disclosing(req), HarnessEvent::Disclosed(Ok(false))) == (
            HarnessPhase::Freezing,
            HarnessAction::CompileAndFreeze { fixture_postimage: false },
        ),
        req.mode == ProviderMode::Fixture ==> harness_step_spec(
            HarnessPhase::Disclosing(req),
            HarnessEvent::Disclosed(Ok(true)),
        ) == (HarnessPhase::Freezing, HarnessAction::CompileAndFreeze { fixture_postimage: true }),
        req.mode != ProviderMode::Fixture ==> harness_step_spec(
            HarnessPhase::Disclosing(req),
            HarnessEvent::Disclosed(Ok(true)),
        ) == (HarnessPhase::Done, HarnessAction::Finish(Err(HarnessPublicError::InvalidInput))),
{
}

} // verus!
