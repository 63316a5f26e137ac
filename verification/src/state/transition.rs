//! Which checkpoint may follow which.
use vstd::prelude::*;

use crate::content::{ToolCall, ToolCallState, ToolLedgerEntry};
#[allow(unused_imports)]
use crate::content::{ToolCallStateView, ToolCallView, ToolLedgerEntryView};
use crate::data::{any, any_pair, check_from, check_pairs, continues_by_one, is_same, starts_with, Data};
#[allow(unused_imports)]
use crate::data::{continues, first_fault, first_pair_fault, lemma_first_pair_fault, some_in, some_pair};
use crate::error::{fail, verdict, ContractError, ErrorCode};
#[allow(unused_imports)]
use crate::error::{failure, fault, or_else, Fault};
use crate::hook::{HookApplication, HookTarget};
#[allow(unused_imports)]
use crate::hook::{HookApplicationView, HookTargetView};
#[allow(unused_imports)]
use crate::json::JsonView;
use crate::model::{ModelAttemptState, ModelInvocationRecord};
#[allow(unused_imports)]
use crate::model::{ModelAttemptStateView, ModelInvocationRecordView};
#[allow(unused_imports)]
use crate::run::{
    terminal, ApprovalTargetView, ResumeActionView, ResumeReceiptView, RunSnapshotView,
    WaitStateView, WaitTargetView,
};
#[allow(unused_imports)]
use crate::refs::RecordRefView;
use crate::run::{ResumeAction, RunSnapshot, RunStatus, WaitState, WaitTarget};

verus! {

/// What the validators of other components report about a transition.
#[derive(Debug)]
pub struct TransitionChecks {
    /// Context-source states.
    pub sources: Option<ContractError>,
    /// Budget reservations and usage.
    pub budget: Option<ContractError>,
}

#[verifier::ext_equal]
pub struct TransitionChecksView {
    pub sources: Option<Fault>,
    pub budget: Option<Fault>,
}

impl View for TransitionChecks {
    type V = TransitionChecksView;

    open spec fn view(&self) -> TransitionChecksView {
        TransitionChecksView {
            sources: self.sources.deep_view(),
            budget: self.budget.deep_view(),
        }
    }
}

impl DeepView for TransitionChecks {
    type V = TransitionChecksView;

    open spec fn deep_view(&self) -> TransitionChecksView {
        self@
    }
}

impl Data for TransitionChecks {
    fn same(&self, other: &Self) -> (r: bool) {
        self.sources.same(&other.sources)
            && self.budget.same(&other.budget)
    }

    fn copy(&self) -> (r: Self) {
        TransitionChecks {
            sources: self.sources.copy(),
            budget: self.budget.copy(),
        }
    }
}


/// The action answers exactly this wait.
pub open spec fn answers(wait: WaitStateView, action: ResumeActionView) -> bool {
    match action {
        ResumeActionView::Recover { .. } => false,
        ResumeActionView::Approve { wait_id, target } => wait.wait_id == wait_id && wait.target == (
        WaitTargetView::Approval { target }),
        ResumeActionView::Deny { wait_id, target, .. } => wait.wait_id == wait_id && wait.target
            == (WaitTargetView::Approval { target }),
        ResumeActionView::Input { wait_id, .. } => wait.wait_id == wait_id && wait.target is Input,
        ResumeActionView::External { wait_id, .. } => wait.wait_id == wait_id
            && wait.target is External,
    }
}

/// The action applies to the checkpoint: a recovery to a running one, any other to its wait.
pub open spec fn resumes(previous: RunSnapshotView, action: ResumeActionView) -> bool {
    if action is Recover {
        previous.status is Running
    } else {
        previous.wait matches Some(wait) && answers(wait, action)
    }
}

/// Whether an action answers exactly this wait.
pub fn action_matches_wait(wait: &WaitState, action: &ResumeAction) -> (r: bool)
    ensures
        r == answers(wait@, action@),
{
    match action {
        ResumeAction::Recover { .. } => false,
        ResumeAction::Approve { wait_id, target } => wait.wait_id.same(wait_id)
            && match &wait.target {
            WaitTarget::Approval { target: saved } => saved.same(target),
            _ => false,
        },
        ResumeAction::Deny { wait_id, target, .. } => wait.wait_id.same(wait_id)
            && match &wait.target {
            WaitTarget::Approval { target: saved } => saved.same(target),
            _ => false,
        },
        ResumeAction::Input { wait_id, .. } => wait.wait_id.same(wait_id) && match &wait.target {
            WaitTarget::Input { .. } => true,
            _ => false,
        },
        ResumeAction::External { wait_id, .. } => wait.wait_id.same(wait_id)
            && match &wait.target {
            WaitTarget::External { .. } => true,
            _ => false,
        },
    }
}

/// Whether an action applies to a checkpoint.
pub fn resume_target_matches(previous: &RunSnapshot, action: &ResumeAction) -> (r: bool)
    ensures
        r == resumes(previous@, action@),
{
    if let ResumeAction::Recover { .. } = action {
        return previous.status == RunStatus::Running;
    }
    match &previous.wait {
        Some(wait) => action_matches_wait(wait, action),
        None => false,
    }
}

/// A hook may be applied to its target while the checkpoint advances.
pub open spec fn hook_may_apply(
    previous: RunSnapshotView,
    next: RunSnapshotView,
    target: HookTargetView,
) -> bool {
    match target {
        HookTargetView::BeforeRun => previous.usage.model_calls == 0
            && previous.tool_ledger.len() == 0,
        HookTargetView::BeforeModel { model_step_id } => next.model_step_id == Some(model_step_id)
            && !some_in(previous.model_ledger, of_step(model_step_id)),
        HookTargetView::BeforeTool { call_id } => some_in(
            previous.tool_ledger,
            |entry: ToolLedgerEntryView|
                entry.call.call_id == call_id && entry.call.bound_input_ref is None
                    && entry.state is Planned,
        ),
        _ => false,
    }
}

/// The attempts of a model step.
pub open spec fn of_step(model_step_id: Seq<char>) -> spec_fn(ModelInvocationRecordView) -> bool {
    |invocation: ModelInvocationRecordView| invocation.model_step_id == model_step_id
}

/// Why the hook ledger may not change this way.
pub open spec fn hook_transition_fault(
    previous: RunSnapshotView,
    next: RunSnapshotView,
) -> Option<Fault> {
    if previous.hook_plan_ref != next.hook_plan_ref || !previous.hook_applications.is_prefix_of(
        next.hook_applications,
    ) {
        fault(ErrorCode::InvalidTransition, "hooks.immutable")
    } else {
        first_fault(
            next.hook_applications.skip(previous.hook_applications.len() as int),
            |added: HookApplicationView|
                if hook_may_apply(previous, next, added.target) {
                    None
                } else {
                    fault(ErrorCode::InvalidTransition, "hooks.target")
                },
        )
    }
}

fn may_apply(previous: &RunSnapshot, next: &RunSnapshot, target: &HookTarget) -> (r: bool)
    ensures
        r == hook_may_apply(previous@, next@, target@),
{
    match target {
        HookTarget::BeforeRun => previous.usage.model_calls == 0 && previous.tool_ledger.len() == 0,
        HookTarget::BeforeModel { model_step_id } => {
            let started = |invocation: &ModelInvocationRecord| -> (b: bool)
                ensures
                    b == of_step(model_step_id@)(invocation@),
            { invocation.model_step_id.same(model_step_id) };
            is_same(&next.model_step_id, model_step_id) && !any(
                &previous.model_ledger,
                started,
                Ghost(of_step(model_step_id@)),
            )
        },
        HookTarget::BeforeTool { call_id } => {
            let unbound = |entry: &ToolLedgerEntry| -> (b: bool)
                ensures
                    b == (entry@.call.call_id == call_id@ && entry@.call.bound_input_ref is None
                        && entry@.state is Planned),
            {
                entry.call.call_id.same(call_id) && entry.call.bound_input_ref.is_none()
                    && match &entry.state {
                    ToolCallState::Planned => true,
                    _ => false,
                }
            };
            any(
                &previous.tool_ledger,
                unbound,
                Ghost(
                    |entry: ToolLedgerEntryView|
                        entry.call.call_id == call_id@ && entry.call.bound_input_ref is None
                            && entry.state is Planned,
                ),
            )
        },
        _ => false,
    }
}

/// Check that the hook ledger only grows, and only by applications that are due.
pub fn validate_hook_transition(previous: &RunSnapshot, next: &RunSnapshot) -> (r: Result<
    (),
    ContractError,
>)
    ensures
        failure(r) == hook_transition_fault(previous@, next@),
{
    if !previous.hook_plan_ref.same(&next.hook_plan_ref) || !starts_with(
        &next.hook_applications,
        &previous.hook_applications,
    ) {
        return fail(ErrorCode::InvalidTransition, "hooks.immutable");
    }
    let due = |added: &HookApplication| -> (c: Result<(), ContractError>)
        ensures
            failure(c) == (if hook_may_apply(previous@, next@, added@.target) {
                None
            } else {
                fault(ErrorCode::InvalidTransition, "hooks.target")
            }),
    {
        if !may_apply(previous, next, &added.target) {
            return fail(ErrorCode::InvalidTransition, "hooks.target");
        }
        Ok(())
    };
    check_from(
        &next.hook_applications,
        previous.hook_applications.len(),
        due,
        Ghost(
            |added: HookApplicationView|
                if hook_may_apply(previous@, next@, added.target) {
                    None
                } else {
                    fault(ErrorCode::InvalidTransition, "hooks.target")
                },
        ),
    )
}

/// `old`, bound as `new` is bound when `old` is not bound yet.
pub open spec fn bound_like(old: ToolCallView, new: ToolCallView) -> ToolCallView {
    if old.bound_input_ref is None {
        ToolCallView { bound_input_ref: new.bound_input_ref, ..old }
    } else {
        old
    }
}

/// Whether `old`, bound as `new` is bound when `old` is not bound yet, is `new`.
pub fn same_bound_like(old: &ToolCall, new: &ToolCall) -> (r: bool)
    ensures
        r == (bound_like(old@, new@) == new@),
{
    old.call_id.same(&new.call_id) && old.run_id.same(&new.run_id) && old.provider_call_id.same(
        &new.provider_call_id,
    ) && old.model_request_id.same(&new.model_request_id) && old.tool_name.same(&new.tool_name)
        && old.model_inputs.same(&new.model_inputs) && old.descriptor_digest.same(
        &new.descriptor_digest,
    ) && (old.bound_input_ref.is_none() || old.bound_input_ref.same(&new.bound_input_ref))
        && old.provider_arguments.same(&new.provider_arguments)
}

/// The attempt and idempotency key of a call that has been dispatched.
pub open spec fn dispatched(state: ToolCallStateView) -> Option<(Seq<char>, Seq<char>)> {
    match state {
        ToolCallStateView::Dispatching { attempt_id, idempotency_key } => Some(
            (attempt_id, idempotency_key),
        ),
        ToolCallStateView::Unknown { attempt_id, idempotency_key } => Some(
            (attempt_id, idempotency_key),
        ),
        ToolCallStateView::ApprovalPending { attempt_id, idempotency_key } => Some(
            (attempt_id, idempotency_key),
        ),
        ToolCallStateView::InputPending { attempt_id, idempotency_key, .. } => Some(
            (attempt_id, idempotency_key),
        ),
        _ => None,
    }
}

/// A call may not move from one state to the other.
pub open spec fn illegal_move(old: ToolCallStateView, new: ToolCallStateView) -> bool {
    ||| (old is Dispatching || old is Unknown || old is ApprovalPending || old is InputPending)
        && new is Planned
    ||| old is Unknown && new is ApprovalPending
    ||| old is ApprovalPending && new is Unknown
    ||| old is InputPending && !(new is InputPending || new is Settled)
    ||| new is InputPending && !(old is Dispatching || old is InputPending)
}

/// A later dispatch may be a new attempt.
pub open spec fn is_retry(old: ToolCallStateView, new: ToolCallStateView) -> bool {
    (old is Unknown || old is ApprovalPending) && new is Dispatching
}

/// Why a ledger entry of a tool call may not change this way.
pub open spec fn tool_entry_fault(old: ToolLedgerEntryView, new: ToolLedgerEntryView) -> Option<
    Fault,
> {
    if bound_like(old.call, new.call) != new.call || (old.state is Settled && old != new)
        || illegal_move(old.state, new.state) {
        fault(ErrorCode::InvalidTransition, "tool_ledger")
    } else if dispatched(old.state) is Some && dispatched(new.state) is Some && (dispatched(
        old.state,
    )->Some_0.1 != dispatched(new.state)->Some_0.1 || (!is_retry(old.state, new.state)
        && dispatched(old.state)->Some_0.0 != dispatched(new.state)->Some_0.0)) {
        fault(ErrorCode::InvalidTransition, "tool_ledger.attempt")
    } else if old.state is InputPending && new.state is InputPending
        && old.state->InputPending_request != new.state->InputPending_request {
        fault(ErrorCode::InvalidTransition, "tool_ledger.input_request")
    } else {
        None
    }
}

fn is_illegal_move(old: &ToolCallState, new: &ToolCallState) -> (r: bool)
    ensures
        r == illegal_move(old@, new@),
{
    match (old, new) {
        (ToolCallState::Dispatching { .. }, ToolCallState::Planned) => true,
        (ToolCallState::Unknown { .. }, ToolCallState::Planned) => true,
        (ToolCallState::ApprovalPending { .. }, ToolCallState::Planned) => true,
        (ToolCallState::InputPending { .. }, ToolCallState::InputPending { .. }) => false,
        (ToolCallState::InputPending { .. }, ToolCallState::Settled { .. }) => false,
        (ToolCallState::InputPending { .. }, _) => true,
        (ToolCallState::Unknown { .. }, ToolCallState::ApprovalPending { .. }) => true,
        (ToolCallState::ApprovalPending { .. }, ToolCallState::Unknown { .. }) => true,
        (ToolCallState::Dispatching { .. }, ToolCallState::InputPending { .. }) => false,
        (_, ToolCallState::InputPending { .. }) => true,
        _ => false,
    }
}

fn attempt_changed(old: &ToolCallState, new: &ToolCallState) -> (r: bool)
    ensures
        r == (dispatched(old@) is Some && dispatched(new@) is Some && (dispatched(old@)->Some_0.1
            != dispatched(new@)->Some_0.1 || (!is_retry(old@, new@) && dispatched(old@)->Some_0.0
            != dispatched(new@)->Some_0.0))),
{
    let before = match old {
        ToolCallState::Dispatching { attempt_id, idempotency_key } => Some(
            (attempt_id, idempotency_key),
        ),
        ToolCallState::Unknown { attempt_id, idempotency_key } => Some((attempt_id, idempotency_key)),
        ToolCallState::ApprovalPending { attempt_id, idempotency_key } => Some(
            (attempt_id, idempotency_key),
        ),
        ToolCallState::InputPending { attempt_id, idempotency_key, .. } => Some(
            (attempt_id, idempotency_key),
        ),
        _ => None,
    };
    let after = match new {
        ToolCallState::Dispatching { attempt_id, idempotency_key } => Some(
            (attempt_id, idempotency_key),
        ),
        ToolCallState::Unknown { attempt_id, idempotency_key } => Some((attempt_id, idempotency_key)),
        ToolCallState::ApprovalPending { attempt_id, idempotency_key } => Some(
            (attempt_id, idempotency_key),
        ),
        ToolCallState::InputPending { attempt_id, idempotency_key, .. } => Some(
            (attempt_id, idempotency_key),
        ),
        _ => None,
    };
    let retry = match (old, new) {
        (ToolCallState::Unknown { .. }, ToolCallState::Dispatching { .. }) => true,
        (ToolCallState::ApprovalPending { .. }, ToolCallState::Dispatching { .. }) => true,
        _ => false,
    };
    match (before, after) {
        (Some((old_attempt, old_key)), Some((new_attempt, new_key))) => !old_key.same(new_key) || (
        !retry && !old_attempt.same(new_attempt)),
        _ => false,
    }
}

fn check_tool_entry(old: &ToolLedgerEntry, new: &ToolLedgerEntry) -> (r: Result<(), ContractError>)
    ensures
        failure(r) == tool_entry_fault(old@, new@),
{
    let settled = match &old.state {
        ToolCallState::Settled { .. } => true,
        _ => false,
    };
    if !same_bound_like(&old.call, &new.call) || (settled && !old.same(new)) || is_illegal_move(
        &old.state,
        &new.state,
    ) {
        return fail(ErrorCode::InvalidTransition, "tool_ledger");
    }
    if attempt_changed(&old.state, &new.state) {
        return fail(ErrorCode::InvalidTransition, "tool_ledger.attempt");
    }
    if let ToolCallState::InputPending { request: before, .. } = &old.state {
        if let ToolCallState::InputPending { request: after, .. } = &new.state {
            if !before.same(after) {
                return fail(ErrorCode::InvalidTransition, "tool_ledger.input_request");
            }
        }
    }
    Ok(())
}

/// A model attempt has ended for good.
pub open spec fn attempt_ended(state: ModelAttemptStateView) -> bool {
    state is Completed || state is Failed || state is Interrupted
}

/// A ledger entry of a model attempt may not change this way.
pub open spec fn model_entry_illegal(
    old: ModelInvocationRecordView,
    new: ModelInvocationRecordView,
) -> bool {
    ||| old.run_id != new.run_id
    ||| old.model_step_id != new.model_step_id
    ||| old.attempt_id != new.attempt_id
    ||| old.purpose != new.purpose
    ||| old.route != new.route
    ||| old.selection_reason != new.selection_reason
    ||| old.configuration != new.configuration
    ||| old.prepared_step_ref != new.prepared_step_ref
    ||| old.request_digest != new.request_digest
    ||| old.inspection_ref != new.inspection_ref
    ||| attempt_ended(old.state) && old != new
    ||| old.state is Unknown && new.state is Reserved
}

fn is_model_entry_illegal(old: &ModelInvocationRecord, new: &ModelInvocationRecord) -> (r: bool)
    ensures
        r == model_entry_illegal(old@, new@),
{
    let ended = match &old.state {
        ModelAttemptState::Completed => true,
        ModelAttemptState::Failed { .. } => true,
        ModelAttemptState::Interrupted => true,
        _ => false,
    };
    let reserved_again = match (&old.state, &new.state) {
        (ModelAttemptState::Unknown, ModelAttemptState::Reserved) => true,
        _ => false,
    };
    !old.run_id.same(&new.run_id) || !old.model_step_id.same(&new.model_step_id)
        || !old.attempt_id.same(&new.attempt_id) || !old.purpose.same(&new.purpose)
        || !old.route.same(&new.route) || !old.selection_reason.same(&new.selection_reason)
        || !old.configuration.same(&new.configuration) || !old.prepared_step_ref.same(
        &new.prepared_step_ref,
    ) || !old.request_digest.same(&new.request_digest) || !old.inspection_ref.same(
        &new.inspection_ref,
    ) || (ended && !old.same(new)) || reserved_again
}

/// Why the interruption history may not change this way.
pub open spec fn interruption_history_fault(
    previous: RunSnapshotView,
    next: RunSnapshotView,
) -> Option<Fault> {
    let added = next.interruption_records.len() != previous.interruption_records.len();
    if previous.interruption_plan_ref != next.interruption_plan_ref || !continues(
        previous.interruption_records,
        next.interruption_records,
    ) || (previous.app_state != next.app_state && !added) {
        fault(ErrorCode::InvalidTransition, "interruption.history")
    } else if (next.status is Interrupted && !added) || (added && next.outcome is None) {
        fault(ErrorCode::InvalidTransition, "interruption.settlement")
    } else {
        None
    }
}

/// Why a resume may not be accepted, or is missing.
pub open spec fn resume_acceptance_fault(
    previous: RunSnapshotView,
    next: RunSnapshotView,
) -> Option<Fault> {
    if !continues(previous.resume_receipts, next.resume_receipts) {
        fault(ErrorCode::InvalidTransition, "resume_receipts")
    } else if previous.status is Interrupted && next.status is Running
        && next.recovery_receipts.len() != previous.recovery_receipts.len() + 1 {
        fault(ErrorCode::InvalidTransition, "interruption.explicit_recovery")
    } else if next.resume_receipts.len() != previous.resume_receipts.len() {
        let receipt = next.resume_receipts.last();
        if !(previous.status is Waiting) || !(next.status is Running) || next.outcome is Some
            || next.wait is Some || receipt.accepted_revision != next.revision
            || receipt.command.expected_revision != previous.revision
            || receipt.previous_last_event_seq != previous.last_event_seq || !resumes(
            previous,
            receipt.command.action,
        ) {
            fault(ErrorCode::InvalidTransition, "resume_receipts.acceptance")
        } else {
            None
        }
    } else if previous.status is Waiting && next.status is Running {
        fault(ErrorCode::InvalidTransition, "resume_receipts.missing")
    } else {
        None
    }
}

/// Why the identity of a run may not change this way.
pub open spec fn identity_fault(previous: RunSnapshotView, next: RunSnapshotView) -> Option<Fault> {
    if previous.run_id != next.run_id || previous.request != next.request
        || previous.request_digest != next.request_digest || previous.scope != next.scope
        || previous.system_inputs != next.system_inputs || previous.limits != next.limits {
        fault(ErrorCode::InvalidTransition, "snapshot.immutable_fields")
    } else if previous.revision == u64::MAX {
        fault(ErrorCode::RevisionConflict, "revision")
    } else if next.revision != previous.revision + 1 || previous.assembly_ref != next.assembly_ref
        || (previous.routing_snapshot_ref is Some && previous.routing_snapshot_ref
        != next.routing_snapshot_ref) || (previous.routing_snapshot_ref is None
        && next.routing_snapshot_ref is Some && previous.usage.model_calls != 0) {
        fault(ErrorCode::InvalidTransition, "snapshot.immutable_fields")
    } else if previous.profile != next.profile {
        fault(ErrorCode::ProfileMismatch, "snapshot.profile")
    } else {
        None
    }
}

/// Why the ledgers may not change this way.
pub open spec fn ledger_fault(previous: RunSnapshotView, next: RunSnapshotView) -> Option<Fault> {
    if previous.tool_ledger.len() > next.tool_ledger.len() {
        fault(ErrorCode::InvalidTransition, "tool_ledger")
    } else {
        or_else(
            first_pair_fault(
                previous.tool_ledger,
                next.tool_ledger,
                |old: ToolLedgerEntryView, new: ToolLedgerEntryView| tool_entry_fault(old, new),
            ),
            if previous.model_ledger.len() > next.model_ledger.len() || some_pair(
                previous.model_ledger,
                next.model_ledger,
                |old: ModelInvocationRecordView, new: ModelInvocationRecordView|
                    model_entry_illegal(old, new),
            ) {
                fault(ErrorCode::InvalidTransition, "model_ledger")
            } else if next.usage.model_calls < previous.usage.model_calls
                || next.usage.tool_attempts < previous.usage.tool_attempts
                || next.usage.repair_attempts < previous.usage.repair_attempts
                || next.usage.recovery_attempts < previous.usage.recovery_attempts
                || next.usage.elapsed_ms < previous.usage.elapsed_ms {
                fault(ErrorCode::InvalidTransition, "usage")
            } else {
                None
            },
        )
    }
}

/// Why `next` may not follow `previous`: the first rule that it breaks.
pub open spec fn transition_fault(
    previous: RunSnapshotView,
    next: RunSnapshotView,
    checks: TransitionChecksView,
) -> Option<Fault> {
    if terminal(previous.status) {
        fault(ErrorCode::InvalidTransition, "run.status")
    } else if next.defect is Some {
        next.defect
    } else if hook_transition_fault(previous, next) is Some {
        hook_transition_fault(previous, next)
    } else if checks.sources is Some {
        checks.sources
    } else if interruption_history_fault(previous, next) is Some {
        interruption_history_fault(previous, next)
    } else if !continues(previous.model_step_inputs, next.model_step_inputs) || !continues(
        previous.prepared_steps,
        next.prepared_steps,
    ) {
        fault(ErrorCode::InvalidTransition, "prepared.history")
    } else if previous.skill_plan_ref != next.skill_plan_ref {
        fault(ErrorCode::InvalidTransition, "skills.immutable_plan")
    } else if checks.budget is Some {
        checks.budget
    } else if resume_acceptance_fault(previous, next) is Some {
        resume_acceptance_fault(previous, next)
    } else if identity_fault(previous, next) is Some {
        identity_fault(previous, next)
    } else {
        ledger_fault(previous, next)
    }
}

fn check_interruption_history(previous: &RunSnapshot, next: &RunSnapshot) -> (r: Result<
    (),
    ContractError,
>)
    ensures
        failure(r) == interruption_history_fault(previous@, next@),
{
    let added = next.interruption_records.len() != previous.interruption_records.len();
    if !previous.interruption_plan_ref.same(&next.interruption_plan_ref) || !continues_by_one(
        &previous.interruption_records,
        &next.interruption_records,
    ) || (!previous.app_state.same(&next.app_state) && !added) {
        return fail(ErrorCode::InvalidTransition, "interruption.history");
    }
    if (next.status == RunStatus::Interrupted && !added) || (added && next.outcome.is_none()) {
        return fail(ErrorCode::InvalidTransition, "interruption.settlement");
    }
    Ok(())
}

fn check_resume_acceptance(previous: &RunSnapshot, next: &RunSnapshot) -> (r: Result<
    (),
    ContractError,
>)
    ensures
        failure(r) == resume_acceptance_fault(previous@, next@),
{
    if !continues_by_one(&previous.resume_receipts, &next.resume_receipts) {
        return fail(ErrorCode::InvalidTransition, "resume_receipts");
    }
    let recovered = next.recovery_receipts.len() > previous.recovery_receipts.len()
        && next.recovery_receipts.len() - previous.recovery_receipts.len() == 1;
    if previous.status == RunStatus::Interrupted && next.status == RunStatus::Running && !recovered {
        return fail(ErrorCode::InvalidTransition, "interruption.explicit_recovery");
    }
    if next.resume_receipts.len() != previous.resume_receipts.len() {
        let receipt = &next.resume_receipts[next.resume_receipts.len() - 1];
        if previous.status != RunStatus::Waiting || next.status != RunStatus::Running
            || next.outcome.is_some() || next.wait.is_some() || receipt.accepted_revision
            != next.revision || receipt.command.expected_revision != previous.revision
            || receipt.previous_last_event_seq != previous.last_event_seq
            || !resume_target_matches(previous, &receipt.command.action) {
            return fail(ErrorCode::InvalidTransition, "resume_receipts.acceptance");
        }
    } else if previous.status == RunStatus::Waiting && next.status == RunStatus::Running {
        return fail(ErrorCode::InvalidTransition, "resume_receipts.missing");
    }
    Ok(())
}

fn check_identity(previous: &RunSnapshot, next: &RunSnapshot) -> (r: Result<(), ContractError>)
    ensures
        failure(r) == identity_fault(previous@, next@),
{
    if !previous.run_id.same(&next.run_id) || !previous.request.same(&next.request)
        || !previous.request_digest.same(&next.request_digest) || !previous.scope.same(&next.scope)
        || !previous.system_inputs.same(&next.system_inputs) || !previous.limits.same(
        &next.limits,
    ) {
        return fail(ErrorCode::InvalidTransition, "snapshot.immutable_fields");
    }
    if previous.revision == u64::MAX {
        return fail(ErrorCode::RevisionConflict, "revision");
    }
    if next.revision != previous.revision + 1 || !previous.assembly_ref.same(&next.assembly_ref) || (
    previous.routing_snapshot_ref.is_some() && !previous.routing_snapshot_ref.same(
        &next.routing_snapshot_ref,
    )) || (previous.routing_snapshot_ref.is_none() && next.routing_snapshot_ref.is_some()
        && previous.usage.model_calls != 0) {
        return fail(ErrorCode::InvalidTransition, "snapshot.immutable_fields");
    }
    if !previous.profile.same(&next.profile) {
        return fail(ErrorCode::ProfileMismatch, "snapshot.profile");
    }
    Ok(())
}

fn check_ledgers(previous: &RunSnapshot, next: &RunSnapshot) -> (r: Result<(), ContractError>)
    ensures
        failure(r) == ledger_fault(previous@, next@),
{
    if previous.tool_ledger.len() > next.tool_ledger.len() {
        return fail(ErrorCode::InvalidTransition, "tool_ledger");
    }
    let entry = |old: &ToolLedgerEntry, new: &ToolLedgerEntry| -> (c: Result<(), ContractError>)
        ensures
            failure(c) == tool_entry_fault(old@, new@),
    { check_tool_entry(old, new) };
    check_pairs(
        &previous.tool_ledger,
        &next.tool_ledger,
        entry,
        Ghost(|old: ToolLedgerEntryView, new: ToolLedgerEntryView| tool_entry_fault(old, new)),
    )?;
    let illegal = |old: &ModelInvocationRecord, new: &ModelInvocationRecord| -> (b: bool)
        ensures
            b == model_entry_illegal(old@, new@),
    { is_model_entry_illegal(old, new) };
    if previous.model_ledger.len() > next.model_ledger.len() || any_pair(
        &previous.model_ledger,
        &next.model_ledger,
        illegal,
        Ghost(
            |old: ModelInvocationRecordView, new: ModelInvocationRecordView|
                model_entry_illegal(old, new),
        ),
    ) {
        return fail(ErrorCode::InvalidTransition, "model_ledger");
    }
    if next.usage.model_calls < previous.usage.model_calls || next.usage.tool_attempts
        < previous.usage.tool_attempts || next.usage.repair_attempts
        < previous.usage.repair_attempts || next.usage.recovery_attempts
        < previous.usage.recovery_attempts || next.usage.elapsed_ms < previous.usage.elapsed_ms {
        return fail(ErrorCode::InvalidTransition, "usage");
    }
    Ok(())
}

/// Check that a checkpoint may follow another.
pub fn validate_transition(
    previous: &RunSnapshot,
    next: &RunSnapshot,
    checks: &TransitionChecks,
) -> (r: Result<(), ContractError>)
    ensures
        failure(r) == transition_fault(previous@, next@, checks@),
{
    if previous.status.is_terminal() {
        return fail(ErrorCode::InvalidTransition, "run.status");
    }
    next.validate()?;
    validate_hook_transition(previous, next)?;
    verdict(&checks.sources)?;
    check_interruption_history(previous, next)?;
    if !continues_by_one(&previous.model_step_inputs, &next.model_step_inputs)
        || !continues_by_one(&previous.prepared_steps, &next.prepared_steps) {
        return fail(ErrorCode::InvalidTransition, "prepared.history");
    }
    if !previous.skill_plan_ref.same(&next.skill_plan_ref) {
        return fail(ErrorCode::InvalidTransition, "skills.immutable_plan");
    }
    verdict(&checks.budget)?;
    check_resume_acceptance(previous, next)?;
    check_identity(previous, next)?;
    check_ledgers(previous, next)
}

/// No checkpoint follows a terminal one.
pub proof fn law_terminal_is_final(
    previous: RunSnapshotView,
    next: RunSnapshotView,
    checks: TransitionChecksView,
)
    requires
        terminal(previous.status),
    ensures
        transition_fault(previous, next, checks) == fault(ErrorCode::InvalidTransition, "run.status"),
{
}

/// An accepted checkpoint is the next revision of the same run: of the same request, profile,
/// scope, inputs and limits, with the same pinned plans. A routing snapshot is never replaced, and
/// appears only before the first model call.
pub proof fn law_transition_keeps_identity(
    previous: RunSnapshotView,
    next: RunSnapshotView,
    checks: TransitionChecksView,
)
    requires
        transition_fault(previous, next, checks) is None,
    ensures
        next.revision == previous.revision + 1,
        next.run_id == previous.run_id,
        next.scope == previous.scope,
        next.request == previous.request,
        next.request_digest == previous.request_digest,
        next.profile == previous.profile,
        next.system_inputs == previous.system_inputs,
        next.limits == previous.limits,
        next.assembly_ref == previous.assembly_ref,
        next.hook_plan_ref == previous.hook_plan_ref,
        next.skill_plan_ref == previous.skill_plan_ref,
        next.interruption_plan_ref == previous.interruption_plan_ref,
        previous.routing_snapshot_ref is Some ==> next.routing_snapshot_ref
            == previous.routing_snapshot_ref,
        previous.routing_snapshot_ref is None && next.routing_snapshot_ref is Some
            ==> previous.usage.model_calls == 0,
{
}

/// An accepted checkpoint keeps every history: receipts, interruptions, prepared steps and hook
/// applications only grow.
pub proof fn law_transition_keeps_histories(
    previous: RunSnapshotView,
    next: RunSnapshotView,
    checks: TransitionChecksView,
)
    requires
        transition_fault(previous, next, checks) is None,
    ensures
        previous.resume_receipts.is_prefix_of(next.resume_receipts),
        previous.interruption_records.is_prefix_of(next.interruption_records),
        previous.model_step_inputs.is_prefix_of(next.model_step_inputs),
        previous.prepared_steps.is_prefix_of(next.prepared_steps),
        previous.hook_applications.is_prefix_of(next.hook_applications),
{
}

/// An accepted checkpoint never rewrites a settled tool call, nor the identity of any call.
pub proof fn law_settled_calls_never_change(
    previous: RunSnapshotView,
    next: RunSnapshotView,
    checks: TransitionChecksView,
    i: int,
)
    requires
        transition_fault(previous, next, checks) is None,
        0 <= i < previous.tool_ledger.len(),
    ensures
        i < next.tool_ledger.len(),
        previous.tool_ledger[i].state is Settled ==> next.tool_ledger[i]
            == previous.tool_ledger[i],
        next.tool_ledger[i].call == bound_like(
            previous.tool_ledger[i].call,
            next.tool_ledger[i].call,
        ),
        next.tool_ledger[i].call.call_id == previous.tool_ledger[i].call.call_id,
{
    lemma_first_pair_fault(
        previous.tool_ledger,
        next.tool_ledger,
        |old: ToolLedgerEntryView, new: ToolLedgerEntryView| tool_entry_fault(old, new),
    );
    let old = previous.tool_ledger[i];
    let new = next.tool_ledger[i];
    assert(tool_entry_fault(old, new) is None);
}

/// An accepted checkpoint never rewrites a model attempt that has ended.
pub proof fn law_ended_attempts_never_change(
    previous: RunSnapshotView,
    next: RunSnapshotView,
    checks: TransitionChecksView,
    i: int,
)
    requires
        transition_fault(previous, next, checks) is None,
        0 <= i < previous.model_ledger.len(),
    ensures
        i < next.model_ledger.len(),
        attempt_ended(previous.model_ledger[i].state) ==> next.model_ledger[i]
            == previous.model_ledger[i],
        next.model_ledger[i].attempt_id == previous.model_ledger[i].attempt_id,
        next.model_ledger[i].route == previous.model_ledger[i].route,
{
    let illegal = |old: ModelInvocationRecordView, new: ModelInvocationRecordView|
        model_entry_illegal(old, new);
    assert(!illegal(previous.model_ledger[i], next.model_ledger[i])) by {
        assert(!some_pair(previous.model_ledger, next.model_ledger, illegal));
    }
}

/// Usage never decreases.
pub proof fn law_usage_never_decreases(
    previous: RunSnapshotView,
    next: RunSnapshotView,
    checks: TransitionChecksView,
)
    requires
        transition_fault(previous, next, checks) is None,
    ensures
        previous.usage.model_calls <= next.usage.model_calls,
        previous.usage.tool_attempts <= next.usage.tool_attempts,
        previous.usage.repair_attempts <= next.usage.repair_attempts,
        previous.usage.recovery_attempts <= next.usage.recovery_attempts,
        previous.usage.elapsed_ms <= next.usage.elapsed_ms,
{
}

/// A run leaves a wait only by one accepted command that answers exactly that wait, and leaves an
/// interruption only by one recovery.
pub proof fn law_waits_are_answered(
    previous: RunSnapshotView,
    next: RunSnapshotView,
    checks: TransitionChecksView,
)
    requires
        transition_fault(previous, next, checks) is None,
        next.status is Running,
    ensures
        previous.status is Waiting ==> next.resume_receipts.len()
            == previous.resume_receipts.len() + 1 && resumes(
            previous,
            next.resume_receipts.last().command.action,
        ) && next.resume_receipts.last().command.expected_revision == previous.revision,
        previous.status is Interrupted ==> next.recovery_receipts.len()
            == previous.recovery_receipts.len() + 1,
{
}

/// An approval and a denial answer the same waits: exactly the one of their name that asks for an
/// approval of their target, whatever reason a denial gives.
pub proof fn law_denials_answer_what_approvals_answer(
    wait: WaitStateView,
    wait_id: Seq<char>,
    target: ApprovalTargetView,
    reason: Seq<char>,
)
    ensures
        answers(wait, ResumeActionView::Deny { wait_id, target, reason }) == answers(
            wait,
            ResumeActionView::Approve { wait_id, target },
        ),
        answers(wait, ResumeActionView::Approve { wait_id, target }) <==> (wait.wait_id == wait_id
            && wait.target is Approval && wait.target->Approval_target == target),
{
}

/// Every wait can be answered under its own name: a wait for an approval by approving or denying
/// just that, a wait for input by any answer, a wait for an effect by any receipt.
pub proof fn law_every_wait_can_be_answered(
    wait: WaitStateView,
    reason: Seq<char>,
    answer: JsonView,
    receipt_ref: RecordRefView,
)
    ensures
        wait.target matches WaitTargetView::Approval { target } ==> answers(
            wait,
            ResumeActionView::Approve { wait_id: wait.wait_id, target },
        ) && answers(wait, ResumeActionView::Deny { wait_id: wait.wait_id, target, reason }),
        answers(wait, ResumeActionView::Input { wait_id: wait.wait_id, answer })
            <==> wait.target is Input,
        answers(wait, ResumeActionView::External { wait_id: wait.wait_id, receipt_ref })
            <==> wait.target is External,
{
}

/// What answers a wait carries its name and is of its kind: nothing that names another wait, or
/// another target, and no recovery, answers it.
pub proof fn law_answers_fit_their_wait(wait: WaitStateView, action: ResumeActionView)
    requires
        answers(wait, action),
    ensures
        match action {
            ResumeActionView::Approve { wait_id, target } => wait_id == wait.wait_id && wait.target
                == (WaitTargetView::Approval { target }),
            ResumeActionView::Deny { wait_id, target, .. } => wait_id == wait.wait_id
                && wait.target == (WaitTargetView::Approval { target }),
            ResumeActionView::Input { wait_id, .. } => wait_id == wait.wait_id
                && !(wait.target is Approval) && !(wait.target is External),
            ResumeActionView::External { wait_id, .. } => wait_id == wait.wait_id
                && !(wait.target is Approval) && !(wait.target is Input),
            ResumeActionView::Recover { .. } => false,
        },
{
}

/// A recovery resumes exactly the runs that are running; no other command resumes a run that does
/// not wait.
pub proof fn law_only_running_runs_are_recovered(
    previous: RunSnapshotView,
    action: ResumeActionView,
)
    ensures
        action is Recover ==> (resumes(previous, action) <==> previous.status == RunStatus::Running),
        !(action is Recover) && previous.wait is None ==> !resumes(previous, action),
        !(action is Recover) && previous.wait is Some ==> (resumes(previous, action) <==> answers(
            previous.wait->Some_0,
            action,
        )),
{
}

/// A waiting run with one more accepted receipt, that goes on.
pub open spec fn resumed_by(
    previous: RunSnapshotView,
    receipt: ResumeReceiptView,
) -> RunSnapshotView {
    RunSnapshotView {
        revision: (previous.revision + 1) as u64,
        status: RunStatus::Running,
        wait: None,
        outcome: None,
        resume_receipts: previous.resume_receipts.push(receipt),
        defect: None,
        ..previous
    }
}

/// A waiting run goes on by a command that was made for its last revision and answers its wait, an
/// approval or a denial alike, and by no other.
pub proof fn law_an_answer_resumes_a_waiting_run(
    previous: RunSnapshotView,
    receipt: ResumeReceiptView,
)
    requires
        previous.status == RunStatus::Waiting,
        previous.revision < u64::MAX,
    ensures
        transition_fault(
            previous,
            resumed_by(previous, receipt),
            TransitionChecksView { sources: None, budget: None },
        ) is None <==> {
            &&& receipt.accepted_revision == previous.revision + 1
            &&& receipt.command.expected_revision == previous.revision
            &&& receipt.previous_last_event_seq == previous.last_event_seq
            &&& previous.wait matches Some(wait) && (match receipt.command.action {
                ResumeActionView::Approve { wait_id, target } => wait.wait_id == wait_id
                    && wait.target == (WaitTargetView::Approval { target }),
                ResumeActionView::Deny { wait_id, target, .. } => wait.wait_id == wait_id
                    && wait.target == (WaitTargetView::Approval { target }),
                ResumeActionView::Input { wait_id, .. } => wait.wait_id == wait_id
                    && wait.target is Input,
                ResumeActionView::External { wait_id, .. } => wait.wait_id == wait_id
                    && wait.target is External,
                ResumeActionView::Recover { .. } => false,
            })
        },
{
    let next = resumed_by(previous, receipt);
    lemma_nothing_added(previous, next);
    assert(next.resume_receipts.take(previous.resume_receipts.len() as int)
        =~= previous.resume_receipts);
}

/// Ledgers and histories that stay as they are may follow themselves.
proof fn lemma_nothing_added(previous: RunSnapshotView, next: RunSnapshotView)
    requires
        next.hook_plan_ref == previous.hook_plan_ref,
        next.hook_applications == previous.hook_applications,
        next.interruption_records == previous.interruption_records,
        next.model_step_inputs == previous.model_step_inputs,
        next.prepared_steps == previous.prepared_steps,
        next.tool_ledger == previous.tool_ledger,
        next.model_ledger == previous.model_ledger,
        next.usage == previous.usage,
        next.resume_receipts == previous.resume_receipts || exists|receipt: ResumeReceiptView|
            next.resume_receipts == previous.resume_receipts.push(receipt),
    ensures
        hook_transition_fault(previous, next) is None,
        continues(previous.interruption_records, next.interruption_records),
        continues(previous.model_step_inputs, next.model_step_inputs),
        continues(previous.prepared_steps, next.prepared_steps),
        continues(previous.resume_receipts, next.resume_receipts),
        ledger_fault(previous, next) is None,
{
    let tools = |old: ToolLedgerEntryView, new: ToolLedgerEntryView| tool_entry_fault(old, new);
    lemma_pairs_pass(previous.tool_ledger, tools);
    assert(next.hook_applications.skip(previous.hook_applications.len() as int).len() == 0);
}

proof fn lemma_pairs_pass<V>(s: Seq<V>, f: spec_fn(V, V) -> Option<Fault>)
    requires
        forall|i: int| 0 <= i < s.len() ==> f(#[trigger] s[i], s[i]) is None,
    ensures
        first_pair_fault(s, s, f) is None,
    decreases s.len(),
{
    if s.len() > 0 {
        assert forall|i: int| 0 <= i < s.skip(1).len() implies f(
            #[trigger] s.skip(1)[i],
            s.skip(1)[i],
        ) is None by {
            assert(s.skip(1)[i] == s[i + 1]);
        }
        lemma_pairs_pass(s.skip(1), f);
    }
}

/// A run that neither ends nor waits may always save its next revision with nothing else changed.
pub proof fn law_an_unchanged_checkpoint_may_follow(previous: RunSnapshotView)
    requires
        previous.status == RunStatus::Running || previous.status == RunStatus::Waiting,
        previous.defect is None,
        previous.revision < u64::MAX,
    ensures
        transition_fault(
            previous,
            RunSnapshotView { revision: (previous.revision + 1) as u64, ..previous },
            TransitionChecksView { sources: None, budget: None },
        ) is None,
{
    let next = RunSnapshotView { revision: (previous.revision + 1) as u64, ..previous };
    lemma_nothing_added(previous, next);
}

/// A tool call goes through its states in one direction: it is never planned again, what waits for
/// input ends only by being settled, input is asked for only by a call that is being made, and a
/// settled call is final. An unknown or unapproved attempt may be made again, with its own key.
pub proof fn law_tool_calls_go_forward(old: ToolLedgerEntryView, new: ToolLedgerEntryView)
    requires
        tool_entry_fault(old, new) is None,
    ensures
        new.state is Planned ==> old.state is Planned,
        old.state is Settled ==> new == old,
        old.state is InputPending ==> new.state is InputPending || new.state is Settled,
        new.state is InputPending ==> old.state is Dispatching || old.state is InputPending,
        old.state is Unknown ==> !(new.state is ApprovalPending),
        old.state is ApprovalPending ==> !(new.state is Unknown),
        new.call.call_id == old.call.call_id,
        new.call.tool_name == old.call.tool_name,
        new.call.model_inputs == old.call.model_inputs,
        new.call.model_request_id == old.call.model_request_id,
        new.call.descriptor_digest == old.call.descriptor_digest,
        new.call.provider_arguments == old.call.provider_arguments,
        old.call.bound_input_ref is Some ==> new.call.bound_input_ref == old.call.bound_input_ref,
        dispatched(old.state) is Some && dispatched(new.state) is Some ==> dispatched(
            old.state,
        )->Some_0.1 == dispatched(new.state)->Some_0.1,
        dispatched(old.state) is Some && dispatched(new.state) is Some && dispatched(
            old.state,
        )->Some_0.0 != dispatched(new.state)->Some_0.0 ==> new.state is Dispatching && (
        old.state is Unknown || old.state is ApprovalPending),
{
}

/// A planned call may be made, an attempt of a call may be settled, and an attempt whose end is
/// unknown or that was not approved may be made again under another name with the same key.
pub proof fn law_tool_calls_may_be_made(
    call: ToolCallView,
    attempt_id: Seq<char>,
    later_id: Seq<char>,
    idempotency_key: Seq<char>,
    settled: ToolCallStateView,
    old: ToolCallStateView,
)
    requires
        settled is Settled,
        !(old is Settled),
    ensures
        ({
            let made = ToolCallStateView::Dispatching { attempt_id, idempotency_key };
            let again = ToolCallStateView::Dispatching { attempt_id: later_id, idempotency_key };
            let unknown = ToolCallStateView::Unknown { attempt_id, idempotency_key };
            let unapproved = ToolCallStateView::ApprovalPending { attempt_id, idempotency_key };
            let entry = |state: ToolCallStateView| ToolLedgerEntryView { call, state };
            &&& tool_entry_fault(entry(ToolCallStateView::Planned), entry(made)) is None
            &&& tool_entry_fault(entry(made), entry(unknown)) is None
            &&& tool_entry_fault(entry(made), entry(unapproved)) is None
            &&& tool_entry_fault(entry(unknown), entry(again)) is None
            &&& tool_entry_fault(entry(unapproved), entry(again)) is None
            &&& tool_entry_fault(entry(old), entry(settled)) is None
        }),
{
}

/// A hook is applied before what it guards and never after: before a run while nothing was called,
/// before a model step while the step was not attempted, before a tool call while the call is
/// planned and unbound. What was applied stays applied.
pub proof fn law_hooks_are_applied_in_time(
    previous: RunSnapshotView,
    next: RunSnapshotView,
    i: int,
)
    requires
        hook_transition_fault(previous, next) is None,
        previous.hook_applications.len() <= i < next.hook_applications.len(),
    ensures
        next.hook_plan_ref == previous.hook_plan_ref,
        forall|k: int|
            0 <= k < previous.hook_applications.len() ==> next.hook_applications[k]
                == #[trigger] previous.hook_applications[k],
        next.hook_applications[i].target is BeforeRun || next.hook_applications[i].target
            is BeforeModel || next.hook_applications[i].target is BeforeTool,
        next.hook_applications[i].target is BeforeRun ==> previous.usage.model_calls == 0
            && previous.tool_ledger.len() == 0,
        next.hook_applications[i].target matches HookTargetView::BeforeModel { model_step_id }
            ==> next.model_step_id == Some(model_step_id) && forall|k: int|
            0 <= k < previous.model_ledger.len() ==> (
            #[trigger] previous.model_ledger[k]).model_step_id != model_step_id,
        next.hook_applications[i].target matches HookTargetView::BeforeTool { call_id } ==> exists|
            k: int,
        |
            0 <= k < previous.tool_ledger.len() && (
            #[trigger] previous.tool_ledger[k]).call.call_id == call_id
                && previous.tool_ledger[k].call.bound_input_ref is None
                && previous.tool_ledger[k].state is Planned,
{
    let n = previous.hook_applications.len() as int;
    let added = next.hook_applications.skip(n);
    let f = |added: HookApplicationView|
        if hook_may_apply(previous, next, added.target) {
            None
        } else {
            fault(ErrorCode::InvalidTransition, "hooks.target")
        };
    crate::data::lemma_first_fault(added, f);
    assert(added[i - n] == next.hook_applications[i]);
    assert(f(added[i - n]) is None);
    let target = next.hook_applications[i].target;
    assert(hook_may_apply(previous, next, target));
    match target {
        HookTargetView::BeforeModel { model_step_id } => {
            assert forall|k: int| 0 <= k < previous.model_ledger.len() implies (
            #[trigger] previous.model_ledger[k]).model_step_id != model_step_id by {
                assert(!of_step(model_step_id)(previous.model_ledger[k]));
            }
        },
        HookTargetView::BeforeTool { call_id } => {
            let p = |entry: ToolLedgerEntryView|
                entry.call.call_id == call_id && entry.call.bound_input_ref is None
                    && entry.state is Planned;
            let k = choose|k: int|
                0 <= k < previous.tool_ledger.len() && p(#[trigger] previous.tool_ledger[k]);
            assert(p(previous.tool_ledger[k]));
        },
        _ => {},
    }
}

/// An attempt keeps what it was made for and what it sends: its run, step and purpose, its route and
/// configuration, its request and the preparation and inspection that it rests on. One whose end is
/// unknown is never held for a new one.
pub proof fn law_attempts_keep_what_they_send(
    previous: RunSnapshotView,
    next: RunSnapshotView,
    checks: TransitionChecksView,
    i: int,
)
    requires
        transition_fault(previous, next, checks) is None,
        0 <= i < previous.model_ledger.len(),
    ensures
        next.model_ledger[i].run_id == previous.model_ledger[i].run_id,
        next.model_ledger[i].model_step_id == previous.model_ledger[i].model_step_id,
        next.model_ledger[i].purpose == previous.model_ledger[i].purpose,
        next.model_ledger[i].selection_reason == previous.model_ledger[i].selection_reason,
        next.model_ledger[i].configuration == previous.model_ledger[i].configuration,
        next.model_ledger[i].prepared_step_ref == previous.model_ledger[i].prepared_step_ref,
        next.model_ledger[i].request_digest == previous.model_ledger[i].request_digest,
        next.model_ledger[i].inspection_ref == previous.model_ledger[i].inspection_ref,
        previous.model_ledger[i].state is Unknown ==> !(next.model_ledger[i].state is Reserved),
        previous.model_ledger[i].state is Completed || previous.model_ledger[i].state is Failed
            || previous.model_ledger[i].state is Interrupted ==> next.model_ledger[i]
            == previous.model_ledger[i],
{
    law_ended_attempts_never_change(previous, next, checks, i);
    let illegal = |old: ModelInvocationRecordView, new: ModelInvocationRecordView|
        model_entry_illegal(old, new);
    assert(!illegal(previous.model_ledger[i], next.model_ledger[i])) by {
        assert(!some_pair(previous.model_ledger, next.model_ledger, illegal));
    }
}

/// An interruption is recorded: a run is interrupted only with a new record, the app's state changes
/// only with one, and a new record comes with an outcome.
pub proof fn law_interruptions_are_recorded(previous: RunSnapshotView, next: RunSnapshotView)
    requires
        interruption_history_fault(previous, next) is None,
    ensures
        next.interruption_plan_ref == previous.interruption_plan_ref,
        previous.interruption_records.len() <= next.interruption_records.len()
            <= previous.interruption_records.len() + 1,
        forall|k: int|
            0 <= k < previous.interruption_records.len() ==> next.interruption_records[k]
                == #[trigger] previous.interruption_records[k],
        next.status is Interrupted ==> next.interruption_records.len()
            == previous.interruption_records.len() + 1,
        next.interruption_records.len() == previous.interruption_records.len() ==> next.app_state
            == previous.app_state,
        next.interruption_records.len() > previous.interruption_records.len() ==> next.outcome
            is Some,
{
}

} // verus!
