use tule_desktop::operation_broker::{
    replace_step, BrokerAction, BrokerError, BrokerFaultPoint, EffectCertainty, EffectResult,
    ReplaceStage, StepOutcome,
};

fn run(armed: BrokerFaultPoint, fail_at: Option<ReplaceStage>) -> (Vec<BrokerAction>, Result<(), BrokerError>) {
    let mut actions = Vec::new();
    let mut stage = ReplaceStage::Start;
    loop {
        let outcome = if Some(stage.clone()) == fail_at {
            StepOutcome::Failed(BrokerError::Storage("io".to_string()))
        } else {
            StepOutcome::Succeeded
        };
        match replace_step(stage, outcome, armed) {
            Ok((_, BrokerAction::Finish)) => return (actions, Ok(())),
            Ok((next, action)) => {
                actions.push(action);
                stage = next;
            }
            Err(e) => return (actions, Err(e)),
        }
    }
}

#[test]
fn replacement_runs_the_effect_protocol_in_order() {
    let (actions, result) = run(BrokerFaultPoint::NoFault, None);
    assert_eq!(result, Ok(()));
    assert_eq!(
        actions,
        vec![
            BrokerAction::EnsureGrant,
            BrokerAction::PrepareEffect,
            BrokerAction::ClaimEffect,
            BrokerAction::DispatchEffect,
            BrokerAction::WriteTarget,
            BrokerAction::SettleEffect {
                result: EffectResult::Success,
                certainty: EffectCertainty::ConfirmedCommitted
            },
        ]
    );
}

#[test]
fn failed_write_settles_as_unknown_error() {
    let (actions, result) = run(BrokerFaultPoint::NoFault, Some(ReplaceStage::Writing));
    assert_eq!(result, Err(BrokerError::Storage("io".to_string())));
    assert_eq!(
        actions.last(),
        Some(&BrokerAction::SettleEffect {
            result: EffectResult::Error,
            certainty: EffectCertainty::UnknownOrPartial
        })
    );
}

#[test]
fn armed_fault_points_stop_after_their_step() {
    let (actions, result) = run(BrokerFaultPoint::AfterClaimed, None);
    assert_eq!(result, Err(BrokerError::InjectedFault(BrokerFaultPoint::AfterClaimed)));
    assert_eq!(actions.last(), Some(&BrokerAction::ClaimEffect));
    let (actions, result) = run(BrokerFaultPoint::AfterWriteBeforeSettlement, None);
    assert_eq!(
        result,
        Err(BrokerError::InjectedFault(BrokerFaultPoint::AfterWriteBeforeSettlement))
    );
    assert_eq!(actions.last(), Some(&BrokerAction::WriteTarget));
    let (actions, result) = run(BrokerFaultPoint::NoFault, Some(ReplaceStage::Preparing));
    assert_eq!(result, Err(BrokerError::Storage("io".to_string())));
    assert_eq!(actions.last(), Some(&BrokerAction::PrepareEffect));
}
