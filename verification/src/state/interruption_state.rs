//! Interruption decisions and the outcomes and events that must agree with them.
use vstd::prelude::*;

use crate::content::{ToolEffect, ToolResult, ToolResultStatus};
#[allow(unused_imports)]
use crate::content::MessageView;
use crate::data::{any, check_each, check_indices, contains, find, is_same, keep, last, Data};
#[allow(unused_imports)]
use crate::data::{
    count_in, final_of, first_fault, first_in, first_index_fault, kept, some_in,
};
use crate::error::{fail, ContractError, ErrorCode};
#[allow(unused_imports)]
use crate::error::{failure, fault, or_else, Fault};
use crate::execution_contracts::{
    ExecutionSegment, InterruptionAction, InterruptionCause, SegmentOutcome,
};
#[allow(unused_imports)]
use crate::execution_contracts::{ExecutionSegmentView, InterruptionRecordView, SegmentOutcomeView};
use crate::interruption::{InterruptionDecisionRecord, InterruptionPlan};
#[allow(unused_imports)]
use crate::interruption::{
    app_state_fault, plan_fault, InterruptionDecisionRecordView, InterruptionPlanView,
};
use crate::refs::{record_key, RecordRef};
#[allow(unused_imports)]
use crate::refs::{key_of, RecordKeyView, RecordRefView};
use crate::run::{
    BudgetKind, OutcomeResult, RunEvent, RunEventPayload, RunLimits, RunOutcome, RunSnapshot,
    RunStatus,
};
#[allow(unused_imports)]
use crate::run::{
    OutcomeResultView, RunEventPayloadView, RunEventView, RunLimitsView, RunOutcomeView,
    RunSnapshotView,
};
use crate::state::messages::validate_tool_pair;
#[allow(unused_imports)]
use crate::state::messages::tool_pair_fault;
use crate::state::records::Records;
#[allow(unused_imports)]
use crate::state::records::{event_fault, value_at, ProtectedRecordView};
use crate::state::scope::ScopeState;
#[allow(unused_imports)]
use crate::state::scope::ScopeStateView;
use crate::text::reads;

verus! {

/// The budget that an outcome reports as exhausted has been used up.
pub open spec fn really_exhausted(outcome: RunOutcomeView, limits: RunLimitsView) -> bool {
    match outcome.result {
        OutcomeResultView::Exhausted { budget } => match budget {
            BudgetKind::ModelCalls => outcome.usage.model_calls >= limits.max_model_calls,
            BudgetKind::ToolAttempts => outcome.usage.tool_attempts >= limits.max_tool_attempts,
            BudgetKind::RepairAttempts => outcome.usage.repair_attempts
                >= limits.max_repair_attempts,
            BudgetKind::RecoveryAttempts => outcome.usage.recovery_attempts
                >= limits.max_recovery_attempts,
            BudgetKind::Elapsed => outcome.usage.elapsed_ms >= limits.max_elapsed_ms,
        },
        _ => false,
    }
}

/// The outcome failed with this code.
pub open spec fn failed_with(outcome: RunOutcomeView, code: &str) -> bool {
    outcome.result is Failed && outcome.result->Failed_failure.code == code@
}

/// The outcome is one that the cause and the accepted action of a decision lead to.
pub open spec fn outcome_allowed(
    decision: InterruptionDecisionRecordView,
    outcome: RunOutcomeView,
    limits: RunLimitsView,
) -> bool {
    match decision.interruption.cause {
        InterruptionCause::UserCancel => decision.action is UseDefault
            && outcome.result is Cancelled,
        InterruptionCause::BudgetExhausted => decision.action is UseDefault && really_exhausted(
            outcome,
            limits,
        ),
        InterruptionCause::OwnershipLost => false,
        InterruptionCause::RecoveryUnavailable => failed_with(outcome, "recovery_unavailable"),
        InterruptionCause::HostShutdown | InterruptionCause::SegmentStopped => match decision.action {
            InterruptionAction::UseDefault => if decision.interruption.recoverable {
                outcome.result == (OutcomeResultView::Interrupted {
                    interruption: decision.interruption,
                })
            } else {
                failed_with(outcome, "recovery_unavailable")
            },
            InterruptionAction::Pause => decision.interruption.recoverable && outcome.result == (
            OutcomeResultView::Interrupted { interruption: decision.interruption }),
            InterruptionAction::Cancel => outcome.result == (OutcomeResultView::Cancelled {
                reason: "execution_stop_policy"@,
            }),
            InterruptionAction::Fail => failed_with(outcome, "execution_stop_policy"),
        },
    }
}

/// Why an outcome does not follow from a decision.
pub open spec fn decided_outcome_fault(
    decision: InterruptionDecisionRecordView,
    outcome: RunOutcomeView,
    limits: RunLimitsView,
) -> Option<Fault> {
    if outcome.defect is Some {
        outcome.defect
    } else if decision.interruption.checkpoint_revision + 1 != outcome.checkpoint_revision
        || decision.app_state != outcome.app_state || decision.interruption.unresolved_effects
        != outcome.unresolved_effects || decision.interruption.recoverable
        != outcome.result is Interrupted {
        fault(ErrorCode::InvalidSnapshot, "interruption.result_identity")
    } else if !outcome_allowed(decision, outcome, limits) {
        fault(ErrorCode::InvalidSnapshot, "interruption.result_cause")
    } else {
        None
    }
}

fn is_really_exhausted(outcome: &RunOutcome, limits: &RunLimits) -> (r: bool)
    ensures
        r == really_exhausted(outcome@, limits@),
{
    match &outcome.result {
        OutcomeResult::Exhausted { budget } => match budget {
            BudgetKind::ModelCalls => outcome.usage.model_calls >= limits.max_model_calls,
            BudgetKind::ToolAttempts => outcome.usage.tool_attempts >= limits.max_tool_attempts,
            BudgetKind::RepairAttempts => outcome.usage.repair_attempts
                >= limits.max_repair_attempts,
            BudgetKind::RecoveryAttempts => outcome.usage.recovery_attempts
                >= limits.max_recovery_attempts,
            BudgetKind::Elapsed => outcome.usage.elapsed_ms >= limits.max_elapsed_ms,
        },
        _ => false,
    }
}

fn is_failed_with(outcome: &RunOutcome, code: &str) -> (r: bool)
    ensures
        r == failed_with(outcome@, code),
{
    match &outcome.result {
        OutcomeResult::Failed { failure } => failure.code.reads(code),
        _ => false,
    }
}

fn is_interrupted_by(decision: &InterruptionDecisionRecord, outcome: &RunOutcome) -> (r: bool)
    ensures
        r == (outcome@.result == (OutcomeResultView::Interrupted {
            interruption: decision@.interruption,
        })),
{
    match &outcome.result {
        OutcomeResult::Interrupted { interruption } => interruption.same(&decision.interruption),
        _ => false,
    }
}

fn is_outcome_allowed(
    decision: &InterruptionDecisionRecord,
    outcome: &RunOutcome,
    limits: &RunLimits,
) -> (r: bool)
    ensures
        r == outcome_allowed(decision@, outcome@, limits@),
{
    match decision.interruption.cause {
        InterruptionCause::UserCancel => decision.action == InterruptionAction::UseDefault
            && match &outcome.result {
            OutcomeResult::Cancelled { .. } => true,
            _ => false,
        },
        InterruptionCause::BudgetExhausted => decision.action == InterruptionAction::UseDefault
            && is_really_exhausted(outcome, limits),
        InterruptionCause::OwnershipLost => false,
        InterruptionCause::RecoveryUnavailable => is_failed_with(outcome, "recovery_unavailable"),
        InterruptionCause::HostShutdown | InterruptionCause::SegmentStopped => match decision.action {
            InterruptionAction::UseDefault => if decision.interruption.recoverable {
                is_interrupted_by(decision, outcome)
            } else {
                is_failed_with(outcome, "recovery_unavailable")
            },
            InterruptionAction::Pause => decision.interruption.recoverable && is_interrupted_by(
                decision,
                outcome,
            ),
            InterruptionAction::Cancel => match &outcome.result {
                OutcomeResult::Cancelled { reason } => reads(reason, "execution_stop_policy"),
                _ => false,
            },
            InterruptionAction::Fail => is_failed_with(outcome, "execution_stop_policy"),
        },
    }
}

/// Check that an outcome follows from a decision.
pub fn validate_result(
    decision: &InterruptionDecisionRecord,
    outcome: &RunOutcome,
    limits: &RunLimits,
) -> (r: Result<(), ContractError>)
    ensures
        failure(r) == decided_outcome_fault(decision@, outcome@, limits@),
{
    outcome.validate()?;
    let interrupted = match &outcome.result {
        OutcomeResult::Interrupted { .. } => true,
        _ => false,
    };
    let next_revision = decision.interruption.checkpoint_revision < u64::MAX
        && decision.interruption.checkpoint_revision + 1 == outcome.checkpoint_revision;
    if !next_revision || !decision.app_state.same(&outcome.app_state)
        || !decision.interruption.unresolved_effects.same(&outcome.unresolved_effects)
        || decision.interruption.recoverable != interrupted {
        return fail(ErrorCode::InvalidSnapshot, "interruption.result_identity");
    }
    if !is_outcome_allowed(decision, outcome, limits) {
        return fail(ErrorCode::InvalidSnapshot, "interruption.result_cause");
    }
    Ok(())
}

/// The references to the same place.
pub open spec fn at_key(key: RecordKeyView) -> spec_fn(RecordRefView) -> bool {
    |reference: RecordRefView| key_of(reference) == key
}

/// The segment of an identifier.
pub open spec fn segment_named(segment_id: Seq<char>) -> spec_fn(ExecutionSegmentView) -> bool {
    |segment: ExecutionSegmentView| segment.segment_id == segment_id
}

/// The outcome that the history holds for the segment of a decision.
pub open spec fn settled_outcome(
    state: ScopeStateView,
    run_id: Seq<char>,
    segment_id: Seq<char>,
) -> Option<RunOutcomeView> {
    if !state.executions.dom().contains(run_id) {
        None
    } else {
        match first_in(state.executions[run_id].segments, segment_named(segment_id)) {
            Some(segment) => match segment.outcome {
                Some(SegmentOutcomeView::Settled { outcome }) => Some(outcome),
                _ => None,
            },
            None => None,
        }
    }
}

/// The outcome that a decision led to: that of its segment, or the current one.
pub open spec fn outcome_of_decision(
    state: ScopeStateView,
    snapshot: RunSnapshotView,
    record: InterruptionDecisionRecordView,
) -> Option<RunOutcomeView> {
    match settled_outcome(state, snapshot.run_id, record.interruption.segment_id) {
        Some(outcome) => Some(outcome),
        None => match snapshot.outcome {
            Some(outcome) => if record.interruption.checkpoint_revision + 1
                == outcome.checkpoint_revision {
                Some(outcome)
            } else {
                None
            },
            None => None,
        },
    }
}

/// Why an effect that a decision left unresolved is no evidence.
pub open spec fn effect_fault(
    state: ScopeStateView,
    records: Map<RecordKeyView, ProtectedRecordView>,
    snapshot: RunSnapshotView,
    reference: RecordRefView,
) -> Option<Fault> {
    let result = value_at::<ToolResult>(records, reference);
    if event_fault::<ToolResult>(records, reference) is Some {
        event_fault::<ToolResult>(records, reference)
    } else if !(result.status is Unknown) || !(result.effect is Unknown) {
        fault(ErrorCode::InvalidSnapshot, "interruption.effect_reference")
    } else {
        tool_pair_fault(state, snapshot, Seq::empty(), result)
    }
}

/// Causes that no application policy may override.
pub open spec fn protected_cause(cause: InterruptionCause) -> bool {
    cause is UserCancel || cause is BudgetExhausted || cause is OwnershipLost
}

/// Why a saved decision does not fit its run.
pub open spec fn decision_fault(
    state: ScopeStateView,
    records: Map<RecordKeyView, ProtectedRecordView>,
    snapshot: RunSnapshotView,
    plan: InterruptionPlanView,
    record: InterruptionDecisionRecordView,
) -> Option<Fault> {
    if record.schema_version != "wickle.interruption-decision.v1"@ || record.scope
        != snapshot.scope || record.run_id != snapshot.run_id || snapshot.interruption_plan_ref
        != Some(record.plan_ref) || record.interruption.checkpoint_revision >= snapshot.revision {
        fault(ErrorCode::InvalidSnapshot, "interruption.record")
    } else if record.app_state is Some && app_state_fault(
        plan,
        record.app_state->Some_0,
    ) is Some {
        app_state_fault(plan, record.app_state->Some_0)
    } else if protected_cause(record.interruption.cause) && !(record.action is UseDefault) {
        fault(ErrorCode::InvalidSnapshot, "interruption.protected_cause")
    } else if first_fault(
        record.interruption.unresolved_effects,
        |reference: RecordRefView| effect_fault(state, records, snapshot, reference),
    ) is Some {
        first_fault(
            record.interruption.unresolved_effects,
            |reference: RecordRefView| effect_fault(state, records, snapshot, reference),
        )
    } else if state.executions.dom().contains(snapshot.run_id) && !some_in(
        state.executions[snapshot.run_id].segments,
        covers_checkpoint(record.interruption),
    ) {
        fault(ErrorCode::InvalidSnapshot, "interruption.segment")
    } else {
        match outcome_of_decision(state, snapshot, record) {
            None => fault(ErrorCode::InvalidSnapshot, "interruption.segment_outcome"),
            Some(outcome) => decided_outcome_fault(record, outcome, snapshot.limits),
        }
    }
}

/// The segment that an interruption names, accepted no later than its checkpoint.
pub open spec fn covers_checkpoint(interruption: InterruptionRecordView) -> spec_fn(
    ExecutionSegmentView,
) -> bool {
    |segment: ExecutionSegmentView|
        segment.segment_id == interruption.segment_id && segment.accepted_revision
            <= interruption.checkpoint_revision
}

/// Why the decision at a position is unacceptable.
pub open spec fn decision_at_fault(
    state: ScopeStateView,
    records: Map<RecordKeyView, ProtectedRecordView>,
    snapshot: RunSnapshotView,
    plan: InterruptionPlanView,
) -> spec_fn(int) -> Option<Fault> {
    |i: int|
        {
            let reference = snapshot.interruption_records[i];
            if some_in(snapshot.interruption_records.take(i), at_key(key_of(reference))) {
                fault(ErrorCode::InvalidSnapshot, "interruption.duplicate")
            } else if event_fault::<InterruptionDecisionRecord>(records, reference) is Some {
                event_fault::<InterruptionDecisionRecord>(records, reference)
            } else {
                decision_fault(
                    state,
                    records,
                    snapshot,
                    plan,
                    value_at::<InterruptionDecisionRecord>(records, reference),
                )
            }
        }
}

/// The latest decision of a run.
pub open spec fn latest_decision(
    records: Map<RecordKeyView, ProtectedRecordView>,
    snapshot: RunSnapshotView,
) -> Option<InterruptionDecisionRecordView> {
    match final_of(snapshot.interruption_records) {
        Some(reference) => Some(value_at::<InterruptionDecisionRecord>(records, reference)),
        None => None,
    }
}

/// Why the latest decision and the current checkpoint disagree.
pub open spec fn latest_decision_fault(
    snapshot: RunSnapshotView,
    latest: Option<InterruptionDecisionRecordView>,
) -> Option<Fault> {
    if latest is Some && snapshot.app_state != latest->Some_0.app_state {
        fault(ErrorCode::InvalidSnapshot, "interruption.app_state")
    } else {
        match snapshot.outcome {
            Some(outcome) => match outcome.result {
                OutcomeResultView::Interrupted { interruption } => match latest {
                    None => fault(ErrorCode::InvalidSnapshot, "interruption.record_missing"),
                    Some(record) => if record.interruption != interruption || !(
                    record.action is Pause || record.action is UseDefault) {
                        fault(ErrorCode::InvalidSnapshot, "interruption.outcome")
                    } else {
                        None
                    },
                },
                _ => None,
            },
            None => None,
        }
    }
}

/// Why the interruption state of a checkpoint is unacceptable.
pub open spec fn interruption_state_fault(
    state: ScopeStateView,
    records: Map<RecordKeyView, ProtectedRecordView>,
    snapshot: RunSnapshotView,
) -> Option<Fault> {
    match snapshot.interruption_plan_ref {
        None => if snapshot.app_state is Some || snapshot.interruption_records.len() != 0
            || snapshot.status is Interrupted {
            fault(ErrorCode::InvalidSnapshot, "interruption.plan_missing")
        } else {
            None
        },
        Some(reference) => {
            let plan = value_at::<InterruptionPlan>(records, reference);
            if event_fault::<InterruptionPlan>(records, reference) is Some {
                event_fault::<InterruptionPlan>(records, reference)
            } else if plan_fault(plan) is Some {
                plan_fault(plan)
            } else if snapshot.app_state is Some && app_state_fault(
                plan,
                snapshot.app_state->Some_0,
            ) is Some {
                app_state_fault(plan, snapshot.app_state->Some_0)
            } else {
                or_else(
                    first_index_fault(
                        0,
                        snapshot.interruption_records.len() as int,
                        decision_at_fault(state, records, snapshot, plan),
                    ),
                    latest_decision_fault(snapshot, latest_decision(records, snapshot)),
                )
            }
        },
    }
}

/// Whether an earlier reference points at the same place.
pub fn is_repeated_ref(references: &Vec<RecordRef>, i: usize) -> (r: bool)
    requires
        i < references.len(),
    ensures
        r == some_in(
            references.deep_view().take(i as int),
            at_key(key_of(references.deep_view()[i as int])),
        ),
{
    let ghost s = references.deep_view();
    let ghost p = at_key(key_of(s[i as int]));
    let key = record_key(&references[i]);
    let mut k: usize = 0;
    while k < i
        invariant
            k <= i < references.len(),
            s == references.deep_view(),
            key@ == key_of(s[i as int]),
            p == at_key(key_of(s[i as int])),
            forall|j: int| 0 <= j < k ==> !p(#[trigger] s.take(i as int)[j]),
        decreases i - k,
    {
        if record_key(&references[k]).same(&key) {
            assert(p(s.take(i as int)[k as int]));
            return true;
        }
        k = k + 1;
    }
    false
}

fn check_effect(
    state: &ScopeState,
    records: &Records,
    snapshot: &RunSnapshot,
    reference: &RecordRef,
) -> (r: Result<(), ContractError>)
    ensures
        failure(r) == effect_fault(state@, records@, snapshot@, reference@),
{
    let result = records.event_record::<ToolResult>(reference)?;
    if result.status != ToolResultStatus::Unknown || result.effect != ToolEffect::Unknown {
        return fail(ErrorCode::InvalidSnapshot, "interruption.effect_reference");
    }
    let none: Vec<crate::content::Message> = Vec::new();
    assert(none.deep_view() =~= Seq::<MessageView>::empty());
    validate_tool_pair(state, snapshot, &none, result)
}

fn check_decision(
    state: &ScopeState,
    records: &Records,
    snapshot: &RunSnapshot,
    plan: &InterruptionPlan,
    record: &InterruptionDecisionRecord,
) -> (r: Result<(), ContractError>)
    ensures
        failure(r) == decision_fault(state@, records@, snapshot@, plan@, record@),
{
    if !reads(&record.schema_version, "wickle.interruption-decision.v1") || !record.scope.same(
        &snapshot.scope,
    ) || !record.run_id.same(&snapshot.run_id) || !is_same(
        &snapshot.interruption_plan_ref,
        &record.plan_ref,
    ) || record.interruption.checkpoint_revision >= snapshot.revision {
        return fail(ErrorCode::InvalidSnapshot, "interruption.record");
    }
    if let Some(app_state) = &record.app_state {
        plan.validate_app_state(app_state)?;
    }
    let guarded = record.interruption.cause == InterruptionCause::UserCancel
        || record.interruption.cause == InterruptionCause::BudgetExhausted
        || record.interruption.cause == InterruptionCause::OwnershipLost;
    if guarded && record.action != InterruptionAction::UseDefault {
        return fail(ErrorCode::InvalidSnapshot, "interruption.protected_cause");
    }
    let effect = |reference: &RecordRef| -> (c: Result<(), ContractError>)
        ensures
            failure(c) == effect_fault(state@, records@, snapshot@, reference@),
    { check_effect(state, records, snapshot, reference) };
    check_each(
        &record.interruption.unresolved_effects,
        effect,
        Ghost(|reference: RecordRefView| effect_fault(state@, records@, snapshot@, reference)),
    )?;
    let history = state.executions.get(&snapshot.run_id);
    if let Some(history) = history {
        let covers = |segment: &ExecutionSegment| -> (b: bool)
            ensures
                b == covers_checkpoint(record@.interruption)(segment@),
        {
            segment.segment_id.same(&record.interruption.segment_id) && segment.accepted_revision
                <= record.interruption.checkpoint_revision
        };
        if !any(&history.segments, covers, Ghost(covers_checkpoint(record@.interruption))) {
            return fail(ErrorCode::InvalidSnapshot, "interruption.segment");
        }
    }
    let settled = match history {
        Some(history) => {
            let named = |segment: &ExecutionSegment| -> (b: bool)
                ensures
                    b == segment_named(record@.interruption.segment_id)(segment@),
            { segment.segment_id.same(&record.interruption.segment_id) };
            match find(
                &history.segments,
                named,
                Ghost(segment_named(record@.interruption.segment_id)),
            ) {
                Some(segment) => match &segment.outcome {
                    Some(SegmentOutcome::Settled { outcome }) => Some(&**outcome),
                    _ => None,
                },
                None => None,
            }
        },
        None => None,
    };
    assert(settled.deep_view() == settled_outcome(
        state@,
        snapshot@.run_id,
        record@.interruption.segment_id,
    ));
    let outcome = match settled {
        Some(outcome) => Some(outcome),
        None => match &snapshot.outcome {
            Some(outcome) => if record.interruption.checkpoint_revision < u64::MAX
                && record.interruption.checkpoint_revision + 1 == outcome.checkpoint_revision {
                Some(outcome)
            } else {
                None
            },
            None => None,
        },
    };
    match outcome {
        None => fail(ErrorCode::InvalidSnapshot, "interruption.segment_outcome"),
        Some(outcome) => validate_result(record, outcome, &snapshot.limits),
    }
}

/// Check the interruption state of a checkpoint.
pub fn validate(state: &ScopeState, records: &Records, snapshot: &RunSnapshot) -> (r: Result<
    (),
    ContractError,
>)
    ensures
        failure(r) == interruption_state_fault(state@, records@, snapshot@),
{
    let reference = match &snapshot.interruption_plan_ref {
        None => {
            if snapshot.app_state.is_some() || snapshot.interruption_records.len() != 0
                || snapshot.status == RunStatus::Interrupted {
                return fail(ErrorCode::InvalidSnapshot, "interruption.plan_missing");
            }
            return Ok(());
        },
        Some(reference) => reference,
    };
    let plan = records.event_record::<InterruptionPlan>(reference)?;
    plan.validate()?;
    if let Some(app_state) = &snapshot.app_state {
        plan.validate_app_state(app_state)?;
    }
    let decision = |i: usize| -> (c: Result<(), ContractError>)
        requires
            i < snapshot.interruption_records.len(),
        ensures
            failure(c) == decision_at_fault(state@, records@, snapshot@, plan@)(i as int),
    {
        if is_repeated_ref(&snapshot.interruption_records, i) {
            return fail(ErrorCode::InvalidSnapshot, "interruption.duplicate");
        }
        let record = records.event_record::<InterruptionDecisionRecord>(
            &snapshot.interruption_records[i],
        )?;
        check_decision(state, records, snapshot, plan, record)
    };
    check_indices(
        snapshot.interruption_records.len(),
        decision,
        Ghost(decision_at_fault(state@, records@, snapshot@, plan@)),
    )?;
    let latest = match last(&snapshot.interruption_records) {
        Some(reference) => {
            proof {
                let n = snapshot.interruption_records.len() as int;
                crate::data::lemma_first_index_fault(
                    0,
                    n,
                    decision_at_fault(state@, records@, snapshot@, plan@),
                );
                assert(decision_at_fault(state@, records@, snapshot@, plan@)(n - 1) is None);
            }
            Some(records.event_record::<InterruptionDecisionRecord>(reference)?)
        },
        None => None,
    };
    assert(latest.deep_view() == latest_decision(records@, snapshot@));
    if let Some(record) = latest {
        if !snapshot.app_state.same(&record.app_state) {
            return fail(ErrorCode::InvalidSnapshot, "interruption.app_state");
        }
    }
    if let Some(outcome) = &snapshot.outcome {
        if let OutcomeResult::Interrupted { interruption } = &outcome.result {
            match latest {
                None => {
                    return fail(ErrorCode::InvalidSnapshot, "interruption.record_missing");
                },
                Some(record) => {
                    if !record.interruption.same(interruption) || !(record.action
                        == InterruptionAction::Pause || record.action
                        == InterruptionAction::UseDefault) {
                        return fail(ErrorCode::InvalidSnapshot, "interruption.outcome");
                    }
                },
            }
        }
    }
    Ok(())
}

/// Why an interruption event is unacceptable.
pub open spec fn interruption_event_fault(
    records: Map<RecordKeyView, ProtectedRecordView>,
    snapshot: RunSnapshotView,
    outcome: RunOutcomeView,
    decision_ref: RecordRefView,
) -> Option<Fault> {
    let decision = value_at::<InterruptionDecisionRecord>(records, decision_ref);
    if outcome.defect is Some {
        outcome.defect
    } else if !(outcome.result is Interrupted) {
        fault(ErrorCode::InvalidSnapshot, "interruption.event_outcome")
    } else if event_fault::<InterruptionDecisionRecord>(records, decision_ref) is Some {
        event_fault::<InterruptionDecisionRecord>(records, decision_ref)
    } else if !snapshot.interruption_records.contains(decision_ref) || decision.interruption
        != outcome.result->Interrupted_interruption || decision.app_state != outcome.app_state
        || decision.scope != snapshot.scope || decision.run_id != snapshot.run_id {
        fault(ErrorCode::InvalidSnapshot, "interruption.event")
    } else {
        None
    }
}

/// Check the outcome and decision that an interruption event names.
pub fn validate_event(
    records: &Records,
    snapshot: &RunSnapshot,
    outcome: &RunOutcome,
    decision_ref: &RecordRef,
) -> (r: Result<(), ContractError>)
    ensures
        failure(r) == interruption_event_fault(records@, snapshot@, outcome@, decision_ref@),
{
    outcome.validate()?;
    let interruption = match &outcome.result {
        OutcomeResult::Interrupted { interruption } => interruption,
        _ => {
            return fail(ErrorCode::InvalidSnapshot, "interruption.event_outcome");
        },
    };
    let decision = records.event_record::<InterruptionDecisionRecord>(decision_ref)?;
    if !contains(&snapshot.interruption_records, decision_ref) || !decision.interruption.same(
        interruption,
    ) || !decision.app_state.same(&outcome.app_state) || !decision.scope.same(&snapshot.scope)
        || !decision.run_id.same(&snapshot.run_id) {
        return fail(ErrorCode::InvalidSnapshot, "interruption.event");
    }
    Ok(())
}

/// The outcome that an event reports for a decision.
pub open spec fn reported_outcome(
    records: Map<RecordKeyView, ProtectedRecordView>,
    reference: RecordRefView,
    decision: InterruptionDecisionRecordView,
    event: RunEventView,
) -> Option<RecordRefView> {
    match event.payload {
        RunEventPayloadView::RunInterrupted { outcome_ref, decision_ref } => if decision_ref
            == reference {
            Some(outcome_ref)
        } else {
            None
        },
        RunEventPayloadView::RunFinished { outcome_ref } => if decision.interruption.checkpoint_revision
            + 1 == value_at::<RunOutcome>(records, outcome_ref).checkpoint_revision {
            Some(outcome_ref)
        } else {
            None
        },
        _ => None,
    }
}

/// Why an event contradicts a decision.
pub open spec fn report_fault(
    records: Map<RecordKeyView, ProtectedRecordView>,
    limits: RunLimitsView,
    reference: RecordRefView,
    decision: InterruptionDecisionRecordView,
) -> spec_fn(RunEventView) -> Option<Fault> {
    |event: RunEventView|
        {
            let unreadable = match event.payload {
                RunEventPayloadView::RunFinished { outcome_ref } => event_fault::<RunOutcome>(
                    records,
                    outcome_ref,
                ),
                _ => None,
            };
            if unreadable is Some {
                unreadable
            } else {
                match reported_outcome(records, reference, decision, event) {
                    None => None,
                    Some(outcome_ref) => or_else(
                        event_fault::<RunOutcome>(records, outcome_ref),
                        decided_outcome_fault(
                            decision,
                            value_at::<RunOutcome>(records, outcome_ref),
                            limits,
                        ),
                    ),
                }
            }
        }
}

/// The events that report the outcome of a decision.
pub open spec fn reports(
    records: Map<RecordKeyView, ProtectedRecordView>,
    reference: RecordRefView,
    decision: InterruptionDecisionRecordView,
) -> spec_fn(RunEventView) -> bool {
    |event: RunEventView| reported_outcome(records, reference, decision, event) is Some
}

/// The events up to a sequence number.
pub open spec fn up_to(through: u64) -> spec_fn(RunEventView) -> bool {
    |event: RunEventView| event.seq <= through
}

/// The tool result that an event refers to.
pub open spec fn result_ref_of(event: RunEventView) -> Option<RecordRefView> {
    match event.payload {
        RunEventPayloadView::ToolUnresolved { result_ref, .. } => Some(result_ref),
        RunEventPayloadView::ToolSettled { result_ref } => Some(result_ref),
        _ => None,
    }
}

/// Why the tool result of an event cannot be read.
pub open spec fn event_result_fault(records: Map<RecordKeyView, ProtectedRecordView>) -> spec_fn(
    RunEventView,
) -> Option<Fault> {
    |event: RunEventView|
        match result_ref_of(event) {
            Some(result_ref) => event_fault::<ToolResult>(records, result_ref),
            None => None,
        }
}

/// The event settles the call with a known effect.
pub open spec fn settles_call(
    records: Map<RecordKeyView, ProtectedRecordView>,
    event: RunEventView,
    call_id: Seq<char>,
) -> bool {
    match event.payload {
        RunEventPayloadView::ToolSettled { result_ref } => {
            let result = value_at::<ToolResult>(records, result_ref);
            result.call_id == call_id && !(result.effect is Unknown) && !(result.status is Unknown)
        },
        _ => false,
    }
}

/// The event leaves an effect uncertain that no later event settles.
pub open spec fn outstanding(
    records: Map<RecordKeyView, ProtectedRecordView>,
    seen: Seq<RunEventView>,
    i: int,
) -> bool {
    &&& seen[i].payload is ToolUnresolved
    &&& forall|j: int|
        i < j < seen.len() ==> !settles_call(
            records,
            #[trigger] seen[j],
            value_at::<ToolResult>(records, result_ref_of(seen[i])->Some_0).call_id,
        )
}

/// An outstanding event refers to the place.
pub open spec fn outstanding_at(
    records: Map<RecordKeyView, ProtectedRecordView>,
    seen: Seq<RunEventView>,
    key: RecordKeyView,
) -> bool {
    exists|i: int|
        0 <= i < seen.len() && #[trigger] outstanding(records, seen, i) && key_of(
            result_ref_of(seen[i])->Some_0,
        ) == key
}

/// The effects are exactly the outstanding ones, each once.
pub open spec fn effects_complete(
    records: Map<RecordKeyView, ProtectedRecordView>,
    seen: Seq<RunEventView>,
    effects: Seq<RecordRefView>,
) -> bool {
    &&& forall|a: int|
        0 <= a < effects.len() ==> outstanding_at(records, seen, key_of(#[trigger] effects[a]))
            && !some_in(effects.take(a), at_key(key_of(effects[a])))
    &&& forall|i: int|
        0 <= i < seen.len() && #[trigger] outstanding(records, seen, i) ==> some_in(
            effects,
            at_key(key_of(result_ref_of(seen[i])->Some_0)),
        )
}

/// Why the events do not account for the decision of a reference.
pub open spec fn coverage_fault(
    records: Map<RecordKeyView, ProtectedRecordView>,
    snapshot: RunSnapshotView,
    events: Seq<RunEventView>,
) -> spec_fn(RecordRefView) -> Option<Fault> {
    |reference: RecordRefView|
        {
            let decision = value_at::<InterruptionDecisionRecord>(records, reference);
            let through = first_in(events, reports(records, reference, decision))->Some_0.seq;
            let seen = kept(events, up_to(through));
            if event_fault::<InterruptionDecisionRecord>(records, reference) is Some {
                event_fault::<InterruptionDecisionRecord>(records, reference)
            } else if first_fault(
                events,
                report_fault(records, snapshot.limits, reference, decision),
            ) is Some {
                first_fault(events, report_fault(records, snapshot.limits, reference, decision))
            } else if count_in(events, reports(records, reference, decision)) != 1 {
                fault(ErrorCode::InvalidSnapshot, "interruption.event_coverage")
            } else if first_fault(seen, event_result_fault(records)) is Some {
                first_fault(seen, event_result_fault(records))
            } else if !effects_complete(records, seen, decision.interruption.unresolved_effects) {
                fault(ErrorCode::InvalidSnapshot, "interruption.effect_evidence")
            } else {
                None
            }
        }
}

fn check_report(
    records: &Records,
    limits: &RunLimits,
    reference: &RecordRef,
    decision: &InterruptionDecisionRecord,
    event: &RunEvent,
) -> (r: Result<(), ContractError>)
    ensures
        failure(r) == report_fault(records@, limits@, reference@, decision@)(event@),
{
    let outcome_ref = match &event.payload {
        RunEventPayload::RunInterrupted { outcome_ref, decision_ref } => if decision_ref.same(
            reference,
        ) {
            Some(outcome_ref)
        } else {
            None
        },
        RunEventPayload::RunFinished { outcome_ref } => {
            let outcome = records.event_record::<RunOutcome>(outcome_ref)?;
            if decision.interruption.checkpoint_revision < u64::MAX
                && decision.interruption.checkpoint_revision + 1 == outcome.checkpoint_revision {
                Some(outcome_ref)
            } else {
                None
            }
        },
        _ => None,
    };
    match outcome_ref {
        None => Ok(()),
        Some(outcome_ref) => {
            let outcome = records.event_record::<RunOutcome>(outcome_ref)?;
            validate_result(decision, outcome, limits)
        },
    }
}

fn is_report(
    records: &Records,
    reference: &RecordRef,
    decision: &InterruptionDecisionRecord,
    event: &RunEvent,
) -> (r: bool)
    requires
        event@.payload is RunFinished ==> event_fault::<RunOutcome>(
            records@,
            event@.payload->RunFinished_outcome_ref,
        ) is None,
    ensures
        r == reports(records@, reference@, decision@)(event@),
{
    match &event.payload {
        RunEventPayload::RunInterrupted { decision_ref, .. } => decision_ref.same(reference),
        RunEventPayload::RunFinished { outcome_ref } => match records.event_record::<RunOutcome>(
            outcome_ref,
        ) {
            Ok(outcome) => decision.interruption.checkpoint_revision < u64::MAX
                && decision.interruption.checkpoint_revision + 1 == outcome.checkpoint_revision,
            Err(_) => false,
        },
        _ => false,
    }
}

fn is_settling(records: &Records, event: &RunEvent, call_id: &crate::serialization::Id) -> (r: bool)
    requires
        event_result_fault(records@)(event@) is None,
    ensures
        r == settles_call(records@, event@, call_id@),
{
    match &event.payload {
        RunEventPayload::ToolSettled { result_ref } => match records.event_record::<ToolResult>(
            result_ref,
        ) {
            Ok(result) => result.call_id.same(call_id) && result.effect != ToolEffect::Unknown
                && result.status != ToolResultStatus::Unknown,
            Err(_) => false,
        },
        _ => false,
    }
}

/// The reference of the event at `i`, where it is outstanding.
fn outstanding_ref<'e>(records: &Records, seen: &'e Vec<RunEvent>, i: usize) -> (r: Option<
    &'e RecordRef,
>)
    requires
        i < seen.len(),
        forall|k: int|
            0 <= k < seen.len() ==> event_result_fault(records@)(
                #[trigger] seen.deep_view()[k],
            ) is None,
    ensures
        r is Some == outstanding(records@, seen.deep_view(), i as int),
        r matches Some(reference) ==> result_ref_of(seen.deep_view()[i as int]) == Some(
            reference@,
        ),
{
    let ghost s = seen.deep_view();
    assert(s[i as int] == seen@[i as int]@);
    let result_ref = match &seen[i].payload {
        RunEventPayload::ToolUnresolved { result_ref, .. } => result_ref,
        _ => {
            return None;
        },
    };
    let result = match records.event_record::<ToolResult>(result_ref) {
        Ok(result) => result,
        Err(_) => {
            assert(event_result_fault(records@)(s[i as int]) is None);
            return None;
        },
    };
    let mut j: usize = i + 1;
    while j < seen.len()
        invariant
            i < j <= seen.len(),
            s == seen.deep_view(),
            forall|k: int|
                0 <= k < seen.len() ==> event_result_fault(records@)(#[trigger] s[k]) is None,
            s[i as int].payload is ToolUnresolved,
            result@.call_id == value_at::<ToolResult>(
                records@,
                result_ref_of(s[i as int])->Some_0,
            ).call_id,
            forall|k: int|
                i < k < j ==> !settles_call(records@, #[trigger] s[k], result@.call_id),
        decreases seen.len() - j,
    {
        assert(s[j as int] == seen@[j as int]@);
        if is_settling(records, &seen[j], &result.call_id) {
            assert(settles_call(records@, s[j as int], result@.call_id));
            return None;
        }
        j = j + 1;
    }
    Some(result_ref)
}

fn has_key(references: &Vec<RecordRef>, reference: &RecordRef) -> (r: bool)
    ensures
        r == some_in(references.deep_view(), at_key(key_of(reference@))),
{
    let key = record_key(reference);
    let same_place = |other: &RecordRef| -> (b: bool)
        ensures
            b == at_key(key_of(reference@))(other@),
    { record_key(other).same(&key) };
    any(references, same_place, Ghost(at_key(key_of(reference@))))
}

fn are_effects_complete(records: &Records, seen: &Vec<RunEvent>, effects: &Vec<RecordRef>) -> (r:
    bool)
    requires
        forall|k: int|
            0 <= k < seen.len() ==> event_result_fault(records@)(
                #[trigger] seen.deep_view()[k],
            ) is None,
    ensures
        r == effects_complete(records@, seen.deep_view(), effects.deep_view()),
{
    let ghost s = seen.deep_view();
    let ghost e = effects.deep_view();
    let mut expected: Vec<RecordRef> = Vec::new();
    let mut i: usize = 0;
    while i < seen.len()
        invariant
            i <= seen.len(),
            s == seen.deep_view(),
            e == effects.deep_view(),
            forall|k: int|
                0 <= k < seen.len() ==> event_result_fault(records@)(#[trigger] s[k]) is None,
            forall|k: int|
                0 <= k < i && #[trigger] outstanding(records@, s, k) ==> some_in(
                    e,
                    at_key(key_of(result_ref_of(s[k])->Some_0)),
                ),
            forall|k: int|
                0 <= k < i && #[trigger] outstanding(records@, s, k) ==> expected.deep_view().contains(
                    result_ref_of(s[k])->Some_0,
                ),
            forall|a: int|
                0 <= a < expected.len() ==> outstanding_at(
                    records@,
                    s,
                    key_of(#[trigger] expected.deep_view()[a]),
                ),
        decreases seen.len() - i,
    {
        if let Some(reference) = outstanding_ref(records, seen, i) {
            if !has_key(effects, reference) {
                assert(outstanding(records@, s, i as int));
                return false;
            }
            let ghost before = expected.deep_view();
            expected.push(reference.copy());
            proof {
                let after = expected.deep_view();
                assert(after =~= before.push(reference@));
                assert forall|k: int|
                    0 <= k < i + 1 && #[trigger] outstanding(
                        records@,
                        s,
                        k,
                    ) implies after.contains(result_ref_of(s[k])->Some_0) by {
                    if k < i {
                        let a = choose|a: int|
                            0 <= a < before.len() && before[a] == result_ref_of(s[k])->Some_0;
                        assert(after[a] == result_ref_of(s[k])->Some_0);
                    } else {
                        assert(after[before.len() as int] == result_ref_of(s[k])->Some_0);
                    }
                }
                assert forall|a: int| 0 <= a < expected.len() implies outstanding_at(
                    records@,
                    s,
                    key_of(#[trigger] after[a]),
                ) by {
                    if a == before.len() {
                        assert(outstanding(records@, s, i as int));
                    } else {
                        assert(after[a] == before[a]);
                    }
                }
            }
        }
        i = i + 1;
    }
    let mut a: usize = 0;
    while a < effects.len()
        invariant
            a <= effects.len(),
            s == seen.deep_view(),
            e == effects.deep_view(),
            forall|k: int|
                0 <= k < s.len() && #[trigger] outstanding(records@, s, k) ==> some_in(
                    e,
                    at_key(key_of(result_ref_of(s[k])->Some_0)),
                ),
            forall|k: int|
                0 <= k < s.len() && #[trigger] outstanding(
                    records@,
                    s,
                    k,
                ) ==> expected.deep_view().contains(result_ref_of(s[k])->Some_0),
            forall|b: int|
                0 <= b < expected.len() ==> outstanding_at(
                    records@,
                    s,
                    key_of(#[trigger] expected.deep_view()[b]),
                ),
            forall|b: int|
                0 <= b < a ==> outstanding_at(records@, s, key_of(#[trigger] e[b])) && !some_in(
                    e.take(b),
                    at_key(key_of(e[b])),
                ),
        decreases effects.len() - a,
    {
        if is_repeated_ref(effects, a) {
            assert(some_in(e.take(a as int), at_key(key_of(e[a as int]))));
            return false;
        }
        let found = has_key(&expected, &effects[a]);
        proof {
            let key = key_of(e[a as int]);
            if found {
                let b = choose|b: int|
                    0 <= b < expected.deep_view().len() && at_key(key)(
                        #[trigger] expected.deep_view()[b],
                    );
                assert(outstanding_at(records@, s, key_of(expected.deep_view()[b])));
            } else if outstanding_at(records@, s, key) {
                let k = choose|k: int|
                    0 <= k < s.len() && #[trigger] outstanding(records@, s, k) && key_of(
                        result_ref_of(s[k])->Some_0,
                    ) == key;
                let x = result_ref_of(s[k])->Some_0;
                let b = choose|b: int|
                    0 <= b < expected.deep_view().len() && expected.deep_view()[b] == x;
                assert(at_key(key)(expected.deep_view()[b]));
            }
        }
        if !found {
            assert(!outstanding_at(records@, s, key_of(e[a as int])));
            return false;
        }
        a = a + 1;
    }
    true
}

fn check_coverage(
    records: &Records,
    snapshot: &RunSnapshot,
    events: &Vec<RunEvent>,
    reference: &RecordRef,
) -> (r: Result<(), ContractError>)
    ensures
        failure(r) == coverage_fault(records@, snapshot@, events.deep_view())(reference@),
{
    let decision = records.event_record::<InterruptionDecisionRecord>(reference)?;
    let report = |event: &RunEvent| -> (c: Result<(), ContractError>)
        ensures
            failure(c) == report_fault(records@, snapshot@.limits, reference@, decision@)(event@),
    { check_report(records, &snapshot.limits, reference, decision, event) };
    check_each(
        events,
        report,
        Ghost(report_fault(records@, snapshot@.limits, reference@, decision@)),
    )?;
    let ghost p = reports(records@, reference@, decision@);
    let ghost s = events.deep_view();
    proof {
        crate::data::lemma_first_fault(
            s,
            report_fault(records@, snapshot@.limits, reference@, decision@),
        );
    }
    let mut matched: usize = 0;
    let mut through: u64 = 0;
    let mut i: usize = 0;
    assert(s.skip(0) =~= s);
    while i < events.len()
        invariant
            i <= events.len(),
            matched <= i,
            s == events.deep_view(),
            p == reports(records@, reference@, decision@),
            forall|k: int|
                0 <= k < s.len() ==> report_fault(
                    records@,
                    snapshot@.limits,
                    reference@,
                    decision@,
                )(#[trigger] s[k]) is None,
            count_in(s, p) == matched + count_in(s.skip(i as int), p),
            matched == 0 ==> first_in(s, p) == first_in(s.skip(i as int), p),
            matched > 0 ==> first_in(s, p) is Some && first_in(s, p)->Some_0.seq == through,
        decreases events.len() - i,
    {
        assert(s.skip(i as int)[0] == events@[i as int]@);
        assert(s.skip(i as int).skip(1) =~= s.skip(i + 1));
        assert(report_fault(records@, snapshot@.limits, reference@, decision@)(s[i as int]) is None);
        if is_report(records, reference, decision, &events[i]) {
            if matched == 0 {
                through = events[i].seq;
            }
            matched = matched + 1;
        }
        i = i + 1;
    }
    if matched != 1 {
        return fail(ErrorCode::InvalidSnapshot, "interruption.event_coverage");
    }
    let early = |event: &RunEvent| -> (b: bool)
        ensures
            b == up_to(through)(event@),
    { event.seq <= through };
    let seen = keep(events, early, Ghost(up_to(through)));
    let readable = |event: &RunEvent| -> (c: Result<(), ContractError>)
        ensures
            failure(c) == event_result_fault(records@)(event@),
    {
        match &event.payload {
            RunEventPayload::ToolUnresolved { result_ref, .. } => {
                records.event_record::<ToolResult>(result_ref)?;
                Ok(())
            },
            RunEventPayload::ToolSettled { result_ref } => {
                records.event_record::<ToolResult>(result_ref)?;
                Ok(())
            },
            _ => Ok(()),
        }
    };
    check_each(&seen, readable, Ghost(event_result_fault(records@)))?;
    proof {
        crate::data::lemma_first_fault(seen.deep_view(), event_result_fault(records@));
    }
    if !are_effects_complete(records, &seen, &decision.interruption.unresolved_effects) {
        return fail(ErrorCode::InvalidSnapshot, "interruption.effect_evidence");
    }
    Ok(())
}

/// Why the events of a run do not account for its decisions.
pub open spec fn interruption_events_fault(
    records: Map<RecordKeyView, ProtectedRecordView>,
    snapshot: RunSnapshotView,
    events: Seq<RunEventView>,
) -> Option<Fault> {
    first_fault(snapshot.interruption_records, coverage_fault(records, snapshot, events))
}

/// Check that every decision is reported by exactly one event, and that it left exactly the effects
/// unresolved that were uncertain then.
pub fn validate_history_events(
    records: &Records,
    snapshot: &RunSnapshot,
    events: &Vec<RunEvent>,
) -> (r: Result<(), ContractError>)
    ensures
        failure(r) == interruption_events_fault(records@, snapshot@, events.deep_view()),
{
    let covered = |reference: &RecordRef| -> (c: Result<(), ContractError>)
        ensures
            failure(c) == coverage_fault(records@, snapshot@, events.deep_view())(reference@),
    { check_coverage(records, snapshot, events, reference) };
    check_each(
        &snapshot.interruption_records,
        covered,
        Ghost(coverage_fault(records@, snapshot@, events.deep_view())),
    )
}

/// A protected cause is never overridden: no accepted decision on it takes another action than the
/// default, and none on a lost ownership is accepted at all.
pub proof fn law_protected_causes_keep_their_default(
    state: ScopeStateView,
    records: Map<RecordKeyView, ProtectedRecordView>,
    snapshot: RunSnapshotView,
    plan: InterruptionPlanView,
    record: InterruptionDecisionRecordView,
)
    requires
        decision_fault(state, records, snapshot, plan, record) is None,
        protected_cause(record.interruption.cause),
    ensures
        record.action is UseDefault,
        !(record.interruption.cause is OwnershipLost),
{
}

/// An outcome may report a budget as exhausted exactly where just that budget is used up.
pub proof fn law_only_used_up_budgets_are_exhausted(
    outcome: RunOutcomeView,
    limits: RunLimitsView,
)
    ensures
        really_exhausted(outcome, limits) <==> outcome.result is Exhausted && {
            let usage = outcome.usage;
            match outcome.result->budget {
                BudgetKind::ModelCalls => limits.max_model_calls <= usage.model_calls,
                BudgetKind::ToolAttempts => limits.max_tool_attempts <= usage.tool_attempts,
                BudgetKind::RepairAttempts => limits.max_repair_attempts <= usage.repair_attempts,
                BudgetKind::RecoveryAttempts => limits.max_recovery_attempts
                    <= usage.recovery_attempts,
                BudgetKind::Elapsed => limits.max_elapsed_ms <= usage.elapsed_ms,
            }
        },
{
}

/// What a decision on a stopped run leads to: a pause, and the default where the run can be recovered,
/// to the interruption itself; the default where it cannot, to a failure; a cancellation to a
/// cancelled run and a failure to a failed one.
pub proof fn law_stopped_runs_end_as_decided(
    decision: InterruptionDecisionRecordView,
    outcome: RunOutcomeView,
    limits: RunLimitsView,
)
    requires
        decision.interruption.cause == InterruptionCause::HostShutdown
            || decision.interruption.cause == InterruptionCause::SegmentStopped,
        outcome_allowed(decision, outcome, limits),
    ensures
        decision.action == InterruptionAction::Pause ==> outcome.result is Interrupted
            && decision.interruption.recoverable,
        decision.action == InterruptionAction::UseDefault && decision.interruption.recoverable
            ==> outcome.result is Interrupted,
        decision.action == InterruptionAction::UseDefault && !decision.interruption.recoverable
            ==> outcome.result is Failed,
        decision.action == InterruptionAction::Cancel ==> outcome.result is Cancelled,
        decision.action == InterruptionAction::Fail ==> outcome.result is Failed,
        outcome.result is Interrupted ==> outcome.result->interruption == decision.interruption,
        !(outcome.result is Succeeded) && !(outcome.result is Waiting)
            && !(outcome.result is Exhausted),
{
}

/// A user's cancellation ends in a cancelled run, and a used-up budget in an exhausted one, whatever
/// an application would rather; a lost ownership ends in nothing, for no one may write it.
pub proof fn law_protected_causes_have_their_outcome(
    decision: InterruptionDecisionRecordView,
    outcome: RunOutcomeView,
    limits: RunLimitsView,
)
    ensures
        decision.interruption.cause == InterruptionCause::UserCancel ==> (outcome_allowed(
            decision,
            outcome,
            limits,
        ) <==> decision.action == InterruptionAction::UseDefault && outcome.result is Cancelled),
        decision.interruption.cause == InterruptionCause::BudgetExhausted ==> (outcome_allowed(
            decision,
            outcome,
            limits,
        ) <==> decision.action == InterruptionAction::UseDefault && really_exhausted(
            outcome,
            limits,
        )),
        decision.interruption.cause == InterruptionCause::OwnershipLost ==> !outcome_allowed(
            decision,
            outcome,
            limits,
        ),
        decision.interruption.cause == InterruptionCause::RecoveryUnavailable && outcome_allowed(
            decision,
            outcome,
            limits,
        ) ==> outcome.result is Failed,
        protected_cause(decision.interruption.cause) <==> decision.interruption.cause
            == InterruptionCause::UserCancel || decision.interruption.cause
            == InterruptionCause::BudgetExhausted || decision.interruption.cause
            == InterruptionCause::OwnershipLost,
{
}

/// The outcome of a decision is the next checkpoint after the one that was interrupted, with the
/// decided business state and exactly the effects that were left unresolved.
pub proof fn law_decided_outcomes_keep_what_is_unresolved(
    decision: InterruptionDecisionRecordView,
    outcome: RunOutcomeView,
    limits: RunLimitsView,
)
    requires
        decided_outcome_fault(decision, outcome, limits) is None,
    ensures
        outcome.checkpoint_revision == decision.interruption.checkpoint_revision + 1,
        outcome.app_state == decision.app_state,
        outcome.unresolved_effects == decision.interruption.unresolved_effects,
        outcome.result is Interrupted <==> decision.interruption.recoverable,
        outcome_allowed(decision, outcome, limits),
        outcome.defect is None,
{
}

/// Only what is known settles a call: a result whose status or effect is unknown leaves it open.
pub proof fn law_only_known_results_settle(
    records: Map<RecordKeyView, ProtectedRecordView>,
    event: RunEventView,
    call_id: Seq<char>,
)
    ensures
        settles_call(records, event, call_id) <==> (event.payload matches
            RunEventPayloadView::ToolSettled { result_ref } && value_at::<ToolResult>(
            records,
            result_ref,
        ).call_id == call_id && value_at::<ToolResult>(records, result_ref).effect
            != ToolEffect::Unknown && value_at::<ToolResult>(records, result_ref).status
            != ToolResultStatus::Unknown),
{
}

/// A run is interrupted by a decision: the latest one, about that very interruption, to pause or to do
/// what is usual; and the app's state is the one that was decided with.
pub proof fn law_interruptions_rest_on_a_decision(
    snapshot: RunSnapshotView,
    latest: Option<InterruptionDecisionRecordView>,
)
    requires
        latest_decision_fault(snapshot, latest) is None,
    ensures
        latest is Some ==> snapshot.app_state == latest->Some_0.app_state,
        snapshot.outcome is Some && snapshot.outcome->Some_0.result is Interrupted ==> latest is Some
            && latest->Some_0.interruption
            == snapshot.outcome->Some_0.result->Interrupted_interruption && (
        latest->Some_0.action is Pause || latest->Some_0.action is UseDefault),
{
}

} // verus!
