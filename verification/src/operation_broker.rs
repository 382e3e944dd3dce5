//! The operation broker's error vocabulary, its deterministic fault
//! injection points and the effect protocol of a brokered file replacement.

use vstd::prelude::*;

use crate::provider::PublicError;

verus! {

pub const CLAIMANT: &'static str = "operation-broker";

/// Deterministic fault injection points of the broker's effect lifecycle.
#[derive(Debug, Clone, Copy, PartialEq, Eq, Structural)]
pub enum BrokerFaultPoint {
    NoFault,
    AfterPrepared,
    AfterClaimed,
    AfterDispatchedBeforeWrite,
    AfterWriteBeforeSettlement,
}

/// Failures of a brokered operation.
#[derive(Debug, Clone, PartialEq, Eq)]
pub enum BrokerError {
    UnsupportedOperation(&'static str),
    GrantDenied(String),
    MissingGrant,
    MissingRun,
    Provider(PublicError),
    Storage(String),
    InjectedFault(BrokerFaultPoint),
    AuthorityMismatch(&'static str),
}

/// The fault point armed for the next run of the broker.
#[derive(Debug)]
pub struct BrokerFaultHook {
    point: BrokerFaultPoint,
}

impl BrokerFaultHook {
    pub closed spec fn armed(&self) -> BrokerFaultPoint {
        self.point
    }

    pub fn new() -> (hook: Self)
        ensures
            hook.armed() == BrokerFaultPoint::NoFault,
    {
        BrokerFaultHook { point: BrokerFaultPoint::NoFault }
    }

    /// Arms a fault point.
    pub fn set(&mut self, point: BrokerFaultPoint)
        ensures
            final(self).armed() == point,
    {
        self.point = point;
    }

    /// Fails with an injected fault when the lifecycle reaches the armed
    /// point.
    pub fn trip(&self, point: BrokerFaultPoint) -> (r: Result<(), BrokerError>)
        ensures
            self.armed() == point ==> (r matches Err(BrokerError::InjectedFault(p)) && p == point),
            self.armed() != point ==> r is Ok,
    {
        if self.point == point {
            return Err(BrokerError::InjectedFault(point));
        }
        Ok(())
    }
}

/// How a settled effect ended.
#[derive(Debug, Clone, Copy, PartialEq, Eq, Structural)]
pub enum EffectResult {
    Success,
    Error,
}

/// What is known of a settled effect's outcome on disk.
#[derive(Debug, Clone, Copy, PartialEq, Eq, Structural)]
pub enum EffectCertainty {
    ConfirmedCommitted,
    UnknownOrPartial,
}

/// Where a brokered replacement stands: the step whose outcome is reported
/// next.
#[derive(Debug, Clone, PartialEq, Eq)]
pub enum ReplaceStage {
    /// Nothing has run yet.
    Start,
    /// The grant is being checked against the run, resource and scope.
    EnsuringGrant,
    /// The effect record is being prepared.
    Preparing,
    /// The prepared effect is being claimed.
    Claiming,
    /// The claimed effect is being marked dispatched.
    Dispatching,
    /// The target file is being replaced.
    Writing,
    /// The dispatched effect is being settled as a success.
    Settling,
    /// The dispatched effect is being settled after the write failed with
    /// the error carried here.
    SettlingFailure(BrokerError),
    /// The replacement has completed.
    Done,
}

/// The outcome of the step just performed.
#[derive(Debug, Clone, PartialEq, Eq)]
pub enum StepOutcome {
    Succeeded,
    Failed(BrokerError),
}

/// The next thing the broker does.
#[derive(Debug, Clone, Copy, PartialEq, Eq)]
pub enum BrokerAction {
    EnsureGrant,
    PrepareEffect,
    ClaimEffect,
    DispatchEffect,
    WriteTarget,
    SettleEffect { result: EffectResult, certainty: EffectCertainty },
    Finish,
}

/// Fails with the injected fault where `point` is armed, else continues to
/// `next` with `action`.
pub open spec fn after_fault_point(
    armed: BrokerFaultPoint,
    point: BrokerFaultPoint,
    next: ReplaceStage,
    action: BrokerAction,
) -> Result<(ReplaceStage, BrokerAction), BrokerError> {
    if armed == point {
        Err(BrokerError::InjectedFault(point))
    } else {
        Ok((next, action))
    }
}

/// One step of a brokered replacement: given the step just performed and its
/// outcome, the next stage and action, or the error the replacement ends
/// with. A failed step before the write ends the replacement with its error;
/// a failed write settles the dispatched effect as an error of unknown or
/// partial certainty and then ends with the write's error; each armed fault
/// point stops the replacement right after its step succeeded.
pub open spec fn replace_step_spec(
    stage: ReplaceStage,
    outcome: StepOutcome,
    armed: BrokerFaultPoint,
) -> Result<(ReplaceStage, BrokerAction), BrokerError> {
    match stage {
        ReplaceStage::Start => Ok((ReplaceStage::EnsuringGrant, BrokerAction::EnsureGrant)),
        ReplaceStage::Done => Ok((ReplaceStage::Done, BrokerAction::Finish)),
        ReplaceStage::SettlingFailure(error) => Err(error),
        _ => match outcome {
            StepOutcome::Failed(error) => match stage {
                ReplaceStage::Writing => Ok(
                    (
                        ReplaceStage::SettlingFailure(error),
                        BrokerAction::SettleEffect {
                            result: EffectResult::Error,
                            certainty: EffectCertainty::UnknownOrPartial,
                        },
                    ),
                ),
                _ => Err(error),
            },
            StepOutcome::Succeeded => match stage {
                ReplaceStage::EnsuringGrant => Ok((ReplaceStage::Preparing, BrokerAction::PrepareEffect)),
                ReplaceStage::Preparing => after_fault_point(
                    armed,
                    BrokerFaultPoint::AfterPrepared,
                    ReplaceStage::Claiming,
                    BrokerAction::ClaimEffect,
                ),
                ReplaceStage::Claiming => after_fault_point(
                    armed,
                    BrokerFaultPoint::AfterClaimed,
                    ReplaceStage::Dispatching,
                    BrokerAction::DispatchEffect,
                ),
                ReplaceStage::Dispatching => after_fault_point(
                    armed,
                    BrokerFaultPoint::AfterDispatchedBeforeWrite,
                    ReplaceStage::Writing,
                    BrokerAction::WriteTarget,
                ),
                ReplaceStage::Writing => after_fault_point(
                    armed,
                    BrokerFaultPoint::AfterWriteBeforeSettlement,
                    ReplaceStage::Settling,
                    BrokerAction::SettleEffect {
                        result: EffectResult::Success,
                        certainty: EffectCertainty::ConfirmedCommitted,
                    },
                ),
                _ => Ok((ReplaceStage::Done, BrokerAction::Finish)),
            },
        },
    }
}

fn fault_point_is(armed: BrokerFaultPoint, point: BrokerFaultPoint) -> (r: bool)
    ensures
        r == (armed == point),
{
    match (armed, point) {
        (BrokerFaultPoint::NoFault, BrokerFaultPoint::NoFault) => true,
        (BrokerFaultPoint::AfterPrepared, BrokerFaultPoint::AfterPrepared) => true,
        (BrokerFaultPoint::AfterClaimed, BrokerFaultPoint::AfterClaimed) => true,
        (
            BrokerFaultPoint::AfterDispatchedBeforeWrite,
            BrokerFaultPoint::AfterDispatchedBeforeWrite,
        ) => true,
        (
            BrokerFaultPoint::AfterWriteBeforeSettlement,
            BrokerFaultPoint::AfterWriteBeforeSettlement,
        ) => true,
        _ => false,
    }
}

fn after_fault(
    armed: BrokerFaultPoint,
    point: BrokerFaultPoint,
    next: ReplaceStage,
    action: BrokerAction,
) -> (r: Result<(ReplaceStage, BrokerAction), BrokerError>)
    ensures
        r == after_fault_point(armed, point, next, action),
{
    if fault_point_is(armed, point) {
        Err(BrokerError::InjectedFault(point))
    } else {
        Ok((next, action))
    }
}

/// One step of a brokered replacement (see [`replace_step_spec`]).
pub fn replace_step(stage: ReplaceStage, outcome: StepOutcome, armed: BrokerFaultPoint) -> (r:
    Result<(ReplaceStage, BrokerAction), BrokerError>)
    ensures
        r == replace_step_spec(stage, outcome, armed),
{
    match stage {
        ReplaceStage::Start => Ok((ReplaceStage::EnsuringGrant, BrokerAction::EnsureGrant)),
        ReplaceStage::Done => Ok((ReplaceStage::Done, BrokerAction::Finish)),
        ReplaceStage::SettlingFailure(error) => Err(error),
        ReplaceStage::EnsuringGrant => match outcome {
            StepOutcome::Failed(error) => Err(error),
            StepOutcome::Succeeded => Ok((ReplaceStage::Preparing, BrokerAction::PrepareEffect)),
        },
        ReplaceStage::Preparing => match outcome {
            StepOutcome::Failed(error) => Err(error),
            StepOutcome::Succeeded => after_fault(
                armed,
                BrokerFaultPoint::AfterPrepared,
                ReplaceStage::Claiming,
                BrokerAction::ClaimEffect,
            ),
        },
        ReplaceStage::Claiming => match outcome {
            StepOutcome::Failed(error) => Err(error),
            StepOutcome::Succeeded => after_fault(
                armed,
                BrokerFaultPoint::AfterClaimed,
                ReplaceStage::Dispatching,
                BrokerAction::DispatchEffect,
            ),
        },
        ReplaceStage::Dispatching => match outcome {
            StepOutcome::Failed(error) => Err(error),
            StepOutcome::Succeeded => after_fault(
                armed,
                BrokerFaultPoint::AfterDispatchedBeforeWrite,
                ReplaceStage::Writing,
                BrokerAction::WriteTarget,
            ),
        },
        ReplaceStage::Writing => match outcome {
            StepOutcome::Failed(error) => Ok(
                (
                    ReplaceStage::SettlingFailure(error),
                    BrokerAction::SettleEffect {
                        result: EffectResult::Error,
                        certainty: EffectCertainty::UnknownOrPartial,
                    },
                ),
            ),
            StepOutcome::Succeeded => after_fault(
                armed,
                BrokerFaultPoint::AfterWriteBeforeSettlement,
                ReplaceStage::Settling,
                BrokerAction::SettleEffect {
                    result: EffectResult::Success,
                    certainty: EffectCertainty::ConfirmedCommitted,
                },
            ),
        },
        ReplaceStage::Settling => match outcome {
            StepOutcome::Failed(error) => Err(error),
            StepOutcome::Succeeded => Ok((ReplaceStage::Done, BrokerAction::Finish)),
        },
    }
}

/// Law: a failed write settles the dispatched effect as an error of unknown
/// or partial certainty, and the replacement then ends with the write's
/// error whatever the settlement reported.
pub proof fn lemma_failed_write_settles_unknown(
    error: BrokerError,
    settled: StepOutcome,
    armed: BrokerFaultPoint,
)
    ensures
        replace_step_spec(ReplaceStage::Writing, StepOutcome::Failed(error), armed) == Ok::<
            (ReplaceStage, BrokerAction),
            BrokerError,
        >(
            (
                ReplaceStage::SettlingFailure(error),
                BrokerAction::SettleEffect {
                    result: EffectResult::Error,
                    certainty: EffectCertainty::UnknownOrPartial,
                },
            ),
        ),
        replace_step_spec(ReplaceStage::SettlingFailure(error), settled, armed) == Err::<
            (ReplaceStage, BrokerAction),
            BrokerError,
        >(error),
{
}

/// Law: an effect is settled as a confirmed success only right after a
/// write that succeeded, and the target is written only after the effect was
/// dispatched.
pub proof fn lemma_success_settles_only_after_write(
    stage: ReplaceStage,
    outcome: StepOutcome,
    armed: BrokerFaultPoint,
)
    ensures
        (replace_step_spec(stage, outcome, armed) matches Ok((_, a)) && a == BrokerAction::SettleEffect {
            result: EffectResult::Success,
            certainty: EffectCertainty::ConfirmedCommitted,
        }) ==> stage == ReplaceStage::Writing && outcome == StepOutcome::Succeeded,
        (replace_step_spec(stage, outcome, armed) matches Ok((_, a)) && a == BrokerAction::WriteTarget)
            ==> stage == ReplaceStage::Dispatching && outcome == StepOutcome::Succeeded,
{
}

} // verus!
