//! Control commands and the start of execution segments, each as one transaction on a scope.
use vstd::prelude::*;

use crate::data::{last, Data};
#[allow(unused_imports)]
use crate::data::{first_in, position_in, some_in};
use crate::error::{fail, ContractError, ErrorCode};
#[allow(unused_imports)]
use crate::error::{failure, fault, Fault};
use crate::execution_contracts::{
    AcceptedSegmentCommand, BeginSegmentRequest, BeginSegmentResult, ControlAction, ControlCommand,
    ControlReceipt, ExecutionHistory, SegmentStart, StoredControlCommand, SubmissionLimits,
};
#[allow(unused_imports)]
use crate::execution_contracts::{
    control_digest, AcceptedSegmentCommandView, BeginSegmentRequestView, BeginSegmentResultView,
    ControlActionView, ControlCommandView, ControlReceiptView, ExecutionHistoryView,
    ExecutionSegmentView, SegmentStartView, SegmentTransitionView, StoredControlCommandView,
    SubmissionLimitsView,
};
use crate::refs::Scope;
#[allow(unused_imports)]
use crate::refs::ScopeView;
use crate::run::{BudgetKind, OutcomeResult, RunPhase, RunSnapshot, RunStatus};
#[allow(unused_imports)]
use crate::run::{terminal, OutcomeResultView, RunSnapshotView};
use crate::serialization::{Id, JsonDigest};
use crate::state::commit::{commit, CommitChecks, CommitInput};
#[allow(unused_imports)]
use crate::state::commit::{
    commit_fault, committed_run, committed_state, settled_history, CommitChecksView, CommitInputView,
};
use crate::state::execution::{
    accepted_command, find_accepted, find_control, find_segment, has_accepted, has_segment, invalid,
    process, validate_control, validate_history,
};
#[allow(unused_imports)]
use crate::state::execution::{
    accepted_named, command_accepted, control_fault, control_named, history_fault, misrecorded,
    processed, segment_named,
};
use crate::state::leases::{acquire, lease_expiry};
#[allow(unused_imports)]
use crate::state::leases::{acquire_fault, expiry_fault, leased, next_lease};
use crate::state::scope::{not_found, RunLease, RunState, ScopeState};
#[allow(unused_imports)]
use crate::state::scope::{missing, run_as_stored, stored_run_fault, RunLeaseView, ScopeStateView};
use crate::text::reads;

verus! {

/// A run from before execution histories were kept.
pub open spec fn legacy() -> Option<Fault> {
    fault(ErrorCode::CapabilityUnsupported, "execution.legacy_checkpoint")
}

/// A control has nothing left to do for a run.
pub open spec fn needs_nothing(snapshot: RunSnapshotView, action: ControlActionView) -> bool {
    terminal(snapshot.status) || (action is Stop && snapshot.outcome is Some)
}

/// An execution history that a control command was added to.
pub open spec fn with_control(
    history: ExecutionHistoryView,
    command: ControlCommandView,
    segment_id: Option<Seq<char>>,
) -> ExecutionHistoryView {
    ExecutionHistoryView {
        accepted_commands: match segment_id {
            Some(id) => history.accepted_commands.push(
                AcceptedSegmentCommandView {
                    command_id: command.command_id,
                    payload_digest: control_digest(command),
                    segment_id: id,
                },
            ),
            None => history.accepted_commands,
        },
        controls: history.controls.push(
            StoredControlCommandView { command, processed_segment_id: segment_id },
        ),
        ..history
    }
}

/// An execution history after a control command was submitted to it.
pub open spec fn controlled(
    history: ExecutionHistoryView,
    snapshot: RunSnapshotView,
    command: ControlCommandView,
) -> ExecutionHistoryView {
    let done = needs_nothing(snapshot, command.action);
    match position_in(history.controls, control_named(command.command_id)) {
        Some(index) => if history.controls[index].processed_segment_id is None && done {
            processed(history, index, history.segments.last().segment_id)
        } else {
            history
        },
        None => with_control(
            history,
            command,
            if done {
                Some(history.segments.last().segment_id)
            } else {
                None
            },
        ),
    }
}

/// Why a control command is refused by an execution history.
pub open spec fn controlled_fault(
    history: ExecutionHistoryView,
    snapshot: RunSnapshotView,
    command: ControlCommandView,
    limits: SubmissionLimitsView,
) -> Option<Fault> {
    let done = needs_nothing(snapshot, command.action);
    let reused = fault(ErrorCode::RequestConflict, "control.command_id");
    let after = controlled(history, snapshot, command);
    match position_in(history.controls, control_named(command.command_id)) {
        Some(index) => if history.controls[index].command != command {
            reused
        } else if history.controls[index].processed_segment_id is Some || !done {
            None
        } else if history.segments.len() == 0 {
            misrecorded("execution.segment")
        } else {
            history_fault(after, snapshot, limits)
        },
        None => if some_in(history.accepted_commands, accepted_named(command.command_id)) {
            reused
        } else if done && history.segments.len() == 0 {
            misrecorded("execution.segment")
        } else {
            history_fault(after, snapshot, limits)
        },
    }
}

/// What whoever submits a control command is told.
pub open spec fn control_receipt(
    history: ExecutionHistoryView,
    snapshot: RunSnapshotView,
    run_id: Seq<char>,
    command: ControlCommandView,
) -> ControlReceiptView {
    let done = needs_nothing(snapshot, command.action);
    ControlReceiptView {
        run_id,
        command_id: command.command_id,
        processed_segment_id: match position_in(
            history.controls,
            control_named(command.command_id),
        ) {
            Some(index) => controlled(history, snapshot, command).controls[index].processed_segment_id,
            None => if done {
                Some(history.segments.last().segment_id)
            } else {
                None
            },
        },
    }
}

fn is_done(snapshot: &RunSnapshot, action: &ControlAction) -> (r: bool)
    ensures
        r == needs_nothing(snapshot@, action@),
{
    let is_stop = match action {
        ControlAction::Stop { .. } => true,
        _ => false,
    };
    snapshot.status.is_terminal() || (is_stop && snapshot.outcome.is_some())
}

fn current_segment_id(history: &ExecutionHistory) -> (r: Result<Id, ContractError>)
    ensures
        failure(r) == (if history@.segments.len() == 0 {
            misrecorded("execution.segment")
        } else {
            None
        }),
        r matches Ok(id) ==> id@ == history@.segments.last().segment_id,
{
    match last(&history.segments) {
        Some(segment) => Ok(segment.segment_id.copy()),
        None => invalid("execution.segment"),
    }
}

/// Take a control command into an execution history.
fn control_history(
    history: &ExecutionHistory,
    snapshot: &RunSnapshot,
    run_id: &Id,
    command: ControlCommand,
    limits: &SubmissionLimits,
) -> (r: Result<(ExecutionHistory, ControlReceipt), ContractError>)
    ensures
        failure(r) == controlled_fault(history@, snapshot@, command@, limits@),
        r matches Ok(parts) ==> parts.0@ == controlled(history@, snapshot@, command@) && parts.1@
            == control_receipt(history@, snapshot@, run_id@, command@),
{
    let ghost given = history@;
    let done = is_done(snapshot, &command.action);
    let command_id = command.command_id.copy();
    match find_control(&history.controls, &command_id) {
        Some(index) => {
            assert(given.controls[index as int] == history.controls@[index as int]@);
            if !history.controls[index].command.same(&command) {
                return fail(ErrorCode::RequestConflict, "control.command_id");
            }
            let mut after = history.copy();
            if after.controls[index].processed_segment_id.is_none() && done {
                let segment_id = current_segment_id(history)?;
                after = process(after, index, &segment_id);
                validate_history(&after, snapshot, limits)?;
            }
            assert(after@ == controlled(given, snapshot@, command@));
            assert(after@.controls.len() == after.controls.len());
            assert(after@.controls[index as int] == after.controls@[index as int]@);
            let processed_segment_id = after.controls[index].processed_segment_id.copy();
            Ok((after, ControlReceipt { run_id: run_id.copy(), command_id, processed_segment_id }))
        },
        None => {
            if has_accepted(&history.accepted_commands, &command_id) {
                return fail(ErrorCode::RequestConflict, "control.command_id");
            }
            let processed_segment_id = if done {
                Some(current_segment_id(history)?)
            } else {
                None
            };
            let ghost added = command@;
            let mut after = history.copy();
            if let Some(segment_id) = &processed_segment_id {
                let ghost before = after.accepted_commands.deep_view();
                let accepted = AcceptedSegmentCommand {
                    command_id: command_id.copy(),
                    payload_digest: command.digest(),
                    segment_id: segment_id.copy(),
                };
                let ghost item = accepted@;
                after.accepted_commands.push(accepted);
                assert(after.accepted_commands.deep_view() =~= before.push(item));
            }
            let ghost before = after.controls.deep_view();
            let control = StoredControlCommand {
                command,
                processed_segment_id: processed_segment_id.copy(),
            };
            let ghost item = control@;
            after.controls.push(control);
            assert(after.controls.deep_view() =~= before.push(item));
            assert(after@ == controlled(given, snapshot@, added));
            validate_history(&after, snapshot, limits)?;
            Ok((after, ControlReceipt { run_id: run_id.copy(), command_id, processed_segment_id }))
        },
    }
}

/// Why a control command for a run is refused.
pub open spec fn submission_refused(
    state: ScopeStateView,
    run_id: Seq<char>,
    command: ControlCommandView,
    limits: SubmissionLimitsView,
) -> Option<Fault> {
    if control_fault(command) is Some {
        control_fault(command)
    } else if !state.runs.dom().contains(run_id) {
        missing()
    } else if !state.executions.dom().contains(run_id) {
        legacy()
    } else {
        controlled_fault(state.executions[run_id], state.runs[run_id].snapshot, command, limits)
    }
}

/// A scope after a control command was submitted.
pub open spec fn controlled_state(
    state: ScopeStateView,
    run_id: Seq<char>,
    command: ControlCommandView,
) -> ScopeStateView {
    ScopeStateView {
        executions: state.executions.insert(
            run_id,
            controlled(state.executions[run_id], state.runs[run_id].snapshot, command),
        ),
        ..state
    }
}

/// Persist a control command of a run, or find it again; a reused identifier with another payload
/// is refused, and a refusal changes nothing. `limits` is what holding the texts of the run's
/// submission to the limits reported.
pub fn submit_control(
    state: &mut ScopeState,
    run_id: &Id,
    command: ControlCommand,
    limits: &SubmissionLimits,
) -> (r: Result<ControlReceipt, ContractError>)
    ensures
        failure(r) == submission_refused(old(state)@, run_id@, command@, limits@),
        r is Err ==> final(state)@ == old(state)@,
        r matches Ok(receipt) ==> final(state)@ == controlled_state(old(state)@, run_id@, command@)
            && receipt@ == control_receipt(
            old(state)@.executions[run_id@],
            old(state)@.runs[run_id@].snapshot,
            run_id@,
            command@,
        ),
{
    let ghost before = state@;
    let ghost given = command@;
    validate_control(&command)?;
    let (history, receipt) = {
        let run = state.run(run_id)?;
        let history = match state.executions.get(run_id) {
            Some(history) => history,
            None => {
                return fail(ErrorCode::CapabilityUnsupported, "execution.legacy_checkpoint");
            },
        };
        control_history(history, &run.snapshot, run_id, command, limits)?
    };
    state.executions.insert(run_id.copy(), history);
    assert(state@ =~= controlled_state(before, run_id@, given));
    Ok(receipt)
}

/// A command that a segment starts for, and the identity of its content.
#[derive(Debug)]
pub struct StartPayload {
    pub command_id: Id,
    pub digest: JsonDigest,
}

#[verifier::ext_equal]
pub struct StartPayloadView {
    pub command_id: Seq<char>,
    pub digest: Seq<char>,
}

impl View for StartPayload {
    type V = StartPayloadView;

    open spec fn view(&self) -> StartPayloadView {
        StartPayloadView {
            command_id: self.command_id.deep_view(),
            digest: self.digest.deep_view(),
        }
    }
}

impl DeepView for StartPayload {
    type V = StartPayloadView;

    open spec fn deep_view(&self) -> StartPayloadView {
        self@
    }
}

impl Data for StartPayload {
    fn same(&self, other: &Self) -> (r: bool) {
        self.command_id.same(&other.command_id)
            && self.digest.same(&other.digest)
    }

    fn copy(&self) -> (r: Self) {
        StartPayload {
            command_id: self.command_id.copy(),
            digest: self.digest.copy(),
        }
    }
}


/// Why what a segment starts for does not fit its request.
pub open spec fn payload_fault(
    history: ExecutionHistoryView,
    request: BeginSegmentRequestView,
) -> Option<Fault> {
    match request.start {
        SegmentStartView::Initial => None,
        SegmentStartView::Resume(command) => if command.run_id != request.run_id
            || command.expected_revision != request.expected_revision {
            fault(ErrorCode::RequestConflict, "execution.command")
        } else {
            None
        },
        SegmentStartView::Control(id) => if position_in(
            history.controls,
            control_named(id),
        ) is None {
            missing()
        } else {
            None
        },
    }
}

/// The command that a segment starts for, if any.
pub open spec fn start_payload(
    history: ExecutionHistoryView,
    request: BeginSegmentRequestView,
) -> Option<StartPayloadView> {
    match request.start {
        SegmentStartView::Initial => None,
        SegmentStartView::Resume(command) => Some(
            StartPayloadView { command_id: command.command_id, digest: command.digest },
        ),
        SegmentStartView::Control(id) => Some(
            StartPayloadView {
                command_id: id,
                digest: control_digest(
                    history.controls[position_in(
                        history.controls,
                        control_named(id),
                    )->0].command,
                ),
            },
        ),
    }
}

fn read_payload(history: &ExecutionHistory, request: &BeginSegmentRequest) -> (r: Result<
    Option<StartPayload>,
    ContractError,
>)
    ensures
        failure(r) == payload_fault(history@, request@),
        r matches Ok(payload) ==> payload.deep_view() == start_payload(history@, request@),
{
    match &request.start {
        SegmentStart::Initial => Ok(None),
        SegmentStart::Resume(command) => {
            if !command.run_id.same(&request.run_id) || command.expected_revision
                != request.expected_revision {
                return fail(ErrorCode::RequestConflict, "execution.command");
            }
            Ok(
                Some(
                    StartPayload {
                        command_id: command.command_id.copy(),
                        digest: command.digest.copy(),
                    },
                ),
            )
        },
        SegmentStart::Control(id) => match find_control(&history.controls, id) {
            Some(index) => {
                assert(history@.controls[index as int] == history.controls@[index as int]@);
                Ok(
                    Some(
                        StartPayload {
                            command_id: id.copy(),
                            digest: history.controls[index].command.digest(),
                        },
                    ),
                )
            },
            None => not_found(),
        },
    }
}

/// A request to start a segment was accepted before.
pub open spec fn was_started(
    history: ExecutionHistoryView,
    request: BeginSegmentRequestView,
) -> bool {
    match start_payload(history, request) {
        Some(payload) => some_in(history.accepted_commands, accepted_named(payload.command_id)),
        None => history.initial_claimed,
    }
}

/// Why a repeated request is not answered with the segment that it started.
pub open spec fn restart_fault(
    history: ExecutionHistoryView,
    request: BeginSegmentRequestView,
) -> Option<Fault> {
    match start_payload(history, request) {
        Some(payload) => {
            let receipt = first_in(
                history.accepted_commands,
                accepted_named(payload.command_id),
            )->0;
            if receipt.payload_digest != payload.digest {
                fault(ErrorCode::RequestConflict, "execution.command")
            } else if first_in(history.segments, segment_named(receipt.segment_id)) is None {
                misrecorded("execution.receipt")
            } else {
                None
            }
        },
        None => if request.segment_id != history.segments[0].segment_id {
            fault(ErrorCode::RequestConflict, "execution.initial_id")
        } else {
            None
        },
    }
}

/// The segment that a repeated request started.
pub open spec fn started_segment(
    history: ExecutionHistoryView,
    request: BeginSegmentRequestView,
) -> ExecutionSegmentView {
    match start_payload(history, request) {
        Some(payload) => first_in(
            history.segments,
            segment_named(
                first_in(
                    history.accepted_commands,
                    accepted_named(payload.command_id),
                )->0.segment_id,
            ),
        )->0,
        None => history.segments[0],
    }
}

fn find_started(
    history: &ExecutionHistory,
    request: &BeginSegmentRequest,
    payload: &Option<StartPayload>,
) -> (r: Result<Option<crate::execution_contracts::ExecutionSegment>, ContractError>)
    requires
        history.segments.len() > 0,
        payload.deep_view() == start_payload(history@, request@),
    ensures
        failure(r) == (if was_started(history@, request@) {
            restart_fault(history@, request@)
        } else {
            None
        }),
        r matches Ok(segment) ==> segment.deep_view() == (if was_started(history@, request@) {
            Some(started_segment(history@, request@))
        } else {
            None
        }),
{
    match payload {
        Some(payload) => {
            let receipt = match find_accepted(&history.accepted_commands, &payload.command_id) {
                Some(receipt) => receipt,
                None => {
                    proof {
                        crate::data::lemma_first_in(
                            history@.accepted_commands,
                            accepted_named(payload@.command_id),
                        );
                    }
                    return Ok(None);
                },
            };
            proof {
                crate::data::lemma_first_in(
                    history@.accepted_commands,
                    accepted_named(payload@.command_id),
                );
            }
            if !receipt.payload_digest.same(&payload.digest) {
                return fail(ErrorCode::RequestConflict, "execution.command");
            }
            match find_segment(&history.segments, &receipt.segment_id) {
                Some(segment) => Ok(Some(segment.copy())),
                None => invalid("execution.receipt"),
            }
        },
        None => {
            if !history.initial_claimed {
                return Ok(None);
            }
            assert(history@.segments[0] == history.segments@[0]@);
            if !request.segment_id.same(&history.segments[0].segment_id) {
                return fail(ErrorCode::RequestConflict, "execution.initial_id");
            }
            Ok(Some(history.segments[0].copy()))
        },
    }
}

/// The lease that a segment starts under.
pub open spec fn starting_lease(
    state: ScopeStateView,
    scope: ScopeView,
    request: BeginSegmentRequestView,
) -> RunLeaseView {
    next_lease(
        state.runs[request.run_id],
        scope,
        request.run_id,
        request.owner,
        (request.now_ms + request.lease_ttl_ms) as i64,
    )
}

/// A scope in which the run is leased for a new segment.
pub open spec fn leased_state(
    state: ScopeStateView,
    scope: ScopeView,
    request: BeginSegmentRequestView,
) -> ScopeStateView {
    ScopeStateView {
        runs: state.runs.insert(
            request.run_id,
            leased(state.runs[request.run_id], starting_lease(state, scope, request)),
        ),
        ..state
    }
}

/// A new checkpoint carries out what a segment starts for.
pub open spec fn start_transition_fault(
    history: ExecutionHistoryView,
    saved: RunSnapshotView,
    request: BeginSegmentRequestView,
    next: RunSnapshotView,
) -> Option<Fault> {
    match request.start {
        SegmentStartView::Initial => None,
        SegmentStartView::Resume(command) => if command_accepted(next) != Some(command) {
            fault(ErrorCode::InvalidContract, "execution.resume_transition")
        } else {
            None
        },
        SegmentStartView::Control(id) => {
            let control = history.controls[position_in(history.controls, control_named(id))->0];
            let refused = fault(ErrorCode::InvalidTransition, "execution.control_transition");
            match control.command.action {
                ControlActionView::Cancel { reason } => if next.status == RunStatus::Cancelled
                    && next.outcome is Some && next.outcome->0.result == (
                OutcomeResultView::Cancelled { reason }) {
                    None
                } else {
                    refused
                },
                ControlActionView::Expire => if request.now_ms >= saved.timing.deadline_at_ms
                    && next.status == RunStatus::Exhausted && next.outcome is Some
                    && next.outcome->0.result == (OutcomeResultView::Exhausted {
                    budget: BudgetKind::Elapsed,
                }) {
                    None
                } else {
                    refused
                },
                ControlActionView::Stop { .. } => fault(
                    ErrorCode::CapabilityUnsupported,
                    "execution.stop_checkpoint",
                ),
            }
        },
    }
}

fn check_start_transition(
    history: &ExecutionHistory,
    saved: &RunSnapshot,
    request: &BeginSegmentRequest,
    next: &RunSnapshot,
) -> (r: Result<(), ContractError>)
    requires
        payload_fault(history@, request@) is None,
    ensures
        failure(r) == start_transition_fault(history@, saved@, request@, next@),
{
    match &request.start {
        SegmentStart::Initial => Ok(()),
        SegmentStart::Resume(command) => {
            let is_accepted = match accepted_command(next) {
                Some(actual) => actual.same(command),
                None => false,
            };
            if !is_accepted {
                return fail(ErrorCode::InvalidContract, "execution.resume_transition");
            }
            Ok(())
        },
        SegmentStart::Control(id) => {
            let index: usize = match find_control(&history.controls, id) {
                Some(index) => index,
                None => {
                    return not_found();
                },
            };
            assert(history@.controls[index as int] == history.controls@[index as int]@);
            let is_allowed = match &history.controls[index].command.action {
                ControlAction::Cancel { reason } => next.status == RunStatus::Cancelled
                    && match &next.outcome {
                    Some(outcome) => match &outcome.result {
                        OutcomeResult::Cancelled { reason: actual } => reads(
                            actual,
                            reason.as_str(),
                        ),
                        _ => false,
                    },
                    None => false,
                },
                ControlAction::Expire => request.now_ms >= saved.timing.deadline_at_ms
                    && next.status == RunStatus::Exhausted && match &next.outcome {
                    Some(outcome) => match &outcome.result {
                        OutcomeResult::Exhausted { budget } => *budget == BudgetKind::Elapsed,
                        _ => false,
                    },
                    None => false,
                },
                ControlAction::Stop { .. } => {
                    return fail(ErrorCode::CapabilityUnsupported, "execution.stop_checkpoint");
                },
            };
            if !is_allowed {
                return fail(ErrorCode::InvalidTransition, "execution.control_transition");
            }
            Ok(())
        },
    }
}

/// What the start of a segment commits.
pub open spec fn starting_commit(
    request: BeginSegmentRequestView,
    transition: SegmentTransitionView,
    lease: RunLeaseView,
) -> CommitInputView {
    CommitInputView {
        control_commands: Seq::empty(),
        expected_revision: request.expected_revision,
        lease,
        now_ms: request.now_ms,
        snapshot: transition.snapshot,
        messages: transition.messages,
        events: transition.events,
        records: transition.records,
    }
}

/// An execution history once a control that a segment starts for was taken into account.
pub open spec fn started_history(
    history: ExecutionHistoryView,
    request: BeginSegmentRequestView,
) -> ExecutionHistoryView {
    match request.start {
        SegmentStartView::Control(id) => processed(
            history,
            position_in(history.controls, control_named(id))->0,
            request.segment_id,
        ),
        _ => history,
    }
}

/// Whether a request is answered without starting anything.
pub open spec fn is_answered(
    history: ExecutionHistoryView,
    saved: RunSnapshotView,
    request: BeginSegmentRequestView,
) -> bool {
    was_started(history, request) || terminal(saved.status)
}

/// Why a request to start a segment is refused before a lease is asked for.
#[verifier::opaque]
pub open spec fn request_fault(
    state: ScopeStateView,
    request: BeginSegmentRequestView,
) -> Option<Fault> {
    let run_id = request.run_id;
    let saved = state.runs[run_id].snapshot;
    let history = state.executions[run_id];
    if stored_run_fault(state, run_id) is Some {
        stored_run_fault(state, run_id)
    } else if !state.executions.dom().contains(run_id) {
        legacy()
    } else if history.segments.len() == 0 {
        misrecorded("execution.segment")
    } else if payload_fault(history, request) is Some {
        payload_fault(history, request)
    } else if was_started(history, request) {
        restart_fault(history, request)
    } else if saved.revision != request.expected_revision {
        fault(ErrorCode::RevisionConflict, "execution.revision")
    } else if terminal(saved.status) {
        if request.start is Control {
            None
        } else {
            fault(ErrorCode::InvalidTransition, "execution.terminal")
        }
    } else if !(request.start is Initial) && some_in(
        history.segments,
        segment_named(request.segment_id),
    ) {
        fault(ErrorCode::RequestConflict, "execution.segment_id")
    } else {
        None
    }
}

/// The segment with which a request is answered when it starts nothing.
pub open spec fn answer(
    state: ScopeStateView,
    request: BeginSegmentRequestView,
) -> BeginSegmentResultView {
    let history = state.executions[request.run_id];
    BeginSegmentResultView {
        state: run_as_stored(state, request.run_id),
        segment: if was_started(history, request) {
            started_segment(history, request)
        } else {
            history.segments.last()
        },
        lease: None,
    }
}

/// Whether the first segment of a run can be claimed.
pub open spec fn claim_fault(
    history: ExecutionHistoryView,
    saved: RunSnapshotView,
    request: BeginSegmentRequestView,
) -> Option<Fault> {
    if request.transition is Some || request.segment_id != history.segments.last().segment_id
        || saved.phase != RunPhase::Admission {
        fault(ErrorCode::InvalidTransition, "execution.initial")
    } else {
        None
    }
}

/// The scope after the first segment of a run was claimed.
pub open spec fn claimed_state(
    state: ScopeStateView,
    scope: ScopeView,
    request: BeginSegmentRequestView,
) -> ScopeStateView {
    let history = state.executions[request.run_id];
    ScopeStateView {
        executions: state.executions.insert(
            request.run_id,
            ExecutionHistoryView { initial_claimed: true, ..history },
        ),
        ..leased_state(state, scope, request)
    }
}

/// The scope after a segment was started with a checkpoint.
pub open spec fn started_state(
    state: ScopeStateView,
    scope: ScopeView,
    request: BeginSegmentRequestView,
) -> ScopeStateView {
    let lease = starting_lease(state, scope, request);
    let committed = committed_state(
        leased_state(state, scope, request),
        request.run_id,
        starting_commit(request, request.transition->0, lease),
        Some(request.segment_id),
    );
    ScopeStateView {
        executions: committed.executions.insert(
            request.run_id,
            started_history(committed.executions[request.run_id], request),
        ),
        ..committed
    }
}

/// Why a segment is not started with a checkpoint.
#[verifier::opaque]
pub open spec fn start_fault(
    state: ScopeStateView,
    scope: ScopeView,
    request: BeginSegmentRequestView,
    checks: CommitChecksView,
) -> Option<Fault> {
    let saved = state.runs[request.run_id].snapshot;
    let history = state.executions[request.run_id];
    let lease = starting_lease(state, scope, request);
    match request.transition {
        None => fault(ErrorCode::InvalidContract, "execution.transition"),
        Some(transition) => {
            let input = starting_commit(request, transition, lease);
            let working = leased_state(state, scope, request);
            if start_transition_fault(history, saved, request, transition.snapshot) is Some {
                start_transition_fault(history, saved, request, transition.snapshot)
            } else if commit_fault(
                working,
                scope,
                request.run_id,
                input,
                Some(request.segment_id),
                checks,
            ) is Some {
                commit_fault(
                    working,
                    scope,
                    request.run_id,
                    input,
                    Some(request.segment_id),
                    checks,
                )
            } else {
                history_fault(
                    started_state(state, scope, request).executions[request.run_id],
                    transition.snapshot,
                    checks.submitted,
                )
            }
        },
    }
}

/// Why a request to start a segment is refused.
pub open spec fn begin_fault(
    state: ScopeStateView,
    scope: ScopeView,
    request: BeginSegmentRequestView,
    checks: CommitChecksView,
) -> Option<Fault> {
    let run = state.runs[request.run_id];
    let history = state.executions[request.run_id];
    if request_fault(state, request) is Some {
        request_fault(state, request)
    } else if is_answered(history, run.snapshot, request) {
        None
    } else if expiry_fault(request.now_ms, request.lease_ttl_ms) is Some {
        expiry_fault(request.now_ms, request.lease_ttl_ms)
    } else if acquire_fault(run, request.now_ms) is Some {
        acquire_fault(run, request.now_ms)
    } else if request.start is Initial {
        claim_fault(history, run.snapshot, request)
    } else {
        start_fault(state, scope, request, checks)
    }
}

/// The scope after a request to start a segment.
pub open spec fn begun_state(
    state: ScopeStateView,
    scope: ScopeView,
    request: BeginSegmentRequestView,
) -> ScopeStateView {
    let history = state.executions[request.run_id];
    if is_answered(history, state.runs[request.run_id].snapshot, request) {
        state
    } else if request.start is Initial {
        claimed_state(state, scope, request)
    } else {
        started_state(state, scope, request)
    }
}

/// The answer to a request to start a segment.
pub open spec fn begun(
    state: ScopeStateView,
    scope: ScopeView,
    request: BeginSegmentRequestView,
) -> BeginSegmentResultView {
    let history = state.executions[request.run_id];
    let lease = starting_lease(state, scope, request);
    if is_answered(history, state.runs[request.run_id].snapshot, request) {
        answer(state, request)
    } else if request.start is Initial {
        BeginSegmentResultView {
            state: run_as_stored(state, request.run_id),
            segment: history.segments.last(),
            lease: Some(lease),
        }
    } else {
        let transition = request.transition->0;
        BeginSegmentResultView {
            state: committed_run(
                leased_state(state, scope, request),
                request.run_id,
                starting_commit(request, transition, lease),
            ),
            segment: started_state(
                state,
                scope,
                request,
            ).executions[request.run_id].segments.last(),
            lease: if terminal(transition.snapshot.status) {
                None
            } else {
                Some(lease)
            },
        }
    }
}

/// Read what a request is about, and answer it where it starts nothing.
fn consider(state: &ScopeState, request: &BeginSegmentRequest) -> (r: Result<
    Option<BeginSegmentResult>,
    ContractError,
>)
    ensures
        failure(r) == request_fault(state@, request@),
        r is Ok ==> state@.runs.dom().contains(request@.run_id)
            && state@.executions.dom().contains(request@.run_id)
            && state@.executions[request@.run_id].segments.len() > 0 && payload_fault(
            state@.executions[request@.run_id],
            request@,
        ) is None && stored_run_fault(state@, request@.run_id) is None,
        r matches Ok(found) ==> found.deep_view() == (if is_answered(
            state@.executions[request@.run_id],
            state@.runs[request@.run_id].snapshot,
            request@,
        ) {
            Some(answer(state@, request@))
        } else {
            None
        }),
{
    reveal(request_fault);
    let saved = state.stored_run(&request.run_id)?;
    let history = match state.executions.get(&request.run_id) {
        Some(history) => history,
        None => {
            return fail(ErrorCode::CapabilityUnsupported, "execution.legacy_checkpoint");
        },
    };
    let current = match last(&history.segments) {
        Some(segment) => segment,
        None => {
            return invalid("execution.segment");
        },
    };
    let payload = read_payload(history, request)?;
    if let Some(segment) = find_started(history, request, &payload)? {
        return Ok(Some(BeginSegmentResult { state: saved, segment, lease: None }));
    }
    if saved.snapshot.revision != request.expected_revision {
        return fail(ErrorCode::RevisionConflict, "execution.revision");
    }
    if saved.snapshot.status.is_terminal() {
        if let SegmentStart::Control(_) = &request.start {
            return Ok(
                Some(BeginSegmentResult { state: saved, segment: current.copy(), lease: None }),
            );
        }
        return fail(ErrorCode::InvalidTransition, "execution.terminal");
    }
    let is_initial = match &request.start {
        SegmentStart::Initial => true,
        _ => false,
    };
    if !is_initial && has_segment(&history.segments, &request.segment_id) {
        return fail(ErrorCode::RequestConflict, "execution.segment_id");
    }
    Ok(None)
}

/// Lease the run of a request.
fn lease_run(state: &mut ScopeState, scope: &Scope, request: &BeginSegmentRequest) -> (r: Result<
    RunLease,
    ContractError,
>)
    requires
        old(state)@.runs.dom().contains(request@.run_id),
    ensures
        failure(r) == (if expiry_fault(request@.now_ms, request@.lease_ttl_ms) is Some {
            expiry_fault(request@.now_ms, request@.lease_ttl_ms)
        } else {
            acquire_fault(old(state)@.runs[request@.run_id], request@.now_ms)
        }),
        r matches Ok(lease) ==> lease@ == starting_lease(old(state)@, scope@, request@)
            && final(state)@ == leased_state(old(state)@, scope@, request@),
{
    let ghost before = state@;
    let expires_at_ms: i64 = lease_expiry(request.now_ms, request.lease_ttl_ms)?;
    let run = state.run(&request.run_id)?;
    let lease = acquire(
        run,
        scope,
        &request.run_id,
        &request.owner,
        request.now_ms,
        expires_at_ms,
    )?;
    let next = RunState {
        snapshot: run.snapshot.copy(),
        events: run.events.copy(),
        lease: Some(lease.copy()),
        last_fencing_token: lease.fencing_token,
    };
    state.runs.insert(request.run_id.copy(), next);
    assert(state@ =~= leased_state(before, scope@, request@));
    Ok(lease)
}

/// Claim the first segment of a run.
fn claim(
    state: &mut ScopeState,
    request: &BeginSegmentRequest,
    lease: RunLease,
    original: Ghost<ScopeStateView>,
    scope: &Scope,
) -> (r: Result<BeginSegmentResult, ContractError>)
    requires
        original@.runs.dom().contains(request@.run_id),
        original@.executions.dom().contains(request@.run_id),
        original@.executions[request@.run_id].segments.len() > 0,
        stored_run_fault(original@, request@.run_id) is None,
        old(state)@ == leased_state(original@, scope@, request@),
        lease@ == starting_lease(original@, scope@, request@),
    ensures
        failure(r) == claim_fault(
            original@.executions[request@.run_id],
            original@.runs[request@.run_id].snapshot,
            request@,
        ),
        r matches Ok(result) ==> final(state)@ == claimed_state(original@, scope@, request@)
            && result@ == (BeginSegmentResultView {
            state: run_as_stored(original@, request@.run_id),
            segment: original@.executions[request@.run_id].segments.last(),
            lease: Some(lease@),
        }),
{
    let saved = state.stored_run(&request.run_id)?;
    let mut history = match state.executions.get(&request.run_id) {
        Some(history) => history.copy(),
        None => {
            return not_found();
        },
    };
    let segment = match last(&history.segments) {
        Some(segment) => segment.copy(),
        None => {
            return invalid("execution.segment");
        },
    };
    if request.transition.is_some() || !request.segment_id.same(&segment.segment_id)
        || saved.snapshot.phase != RunPhase::Admission {
        return fail(ErrorCode::InvalidTransition, "execution.initial");
    }
    history.initial_claimed = true;
    state.executions.insert(request.run_id.copy(), history);
    assert(state@ =~= claimed_state(original@, scope@, request@));
    Ok(BeginSegmentResult { state: saved, segment, lease: Some(lease) })
}

/// Take a control that a segment starts for into the history.
fn finish_history(history: ExecutionHistory, request: &BeginSegmentRequest) -> (r: ExecutionHistory)
    requires
        request@.start matches SegmentStartView::Control(id) ==> position_in(
            history@.controls,
            control_named(id),
        ) is Some,
    ensures
        r@ == started_history(history@, request@),
{
    match &request.start {
        SegmentStart::Control(id) => match find_control(&history.controls, id) {
            Some(index) => process(history, index, &request.segment_id),
            None => history,
        },
        _ => history,
    }
}

/// Start a segment with a checkpoint.
fn start(
    state: &mut ScopeState,
    scope: &Scope,
    request: &BeginSegmentRequest,
    lease: RunLease,
    checks: &CommitChecks,
    original: Ghost<ScopeStateView>,
) -> (r: Result<BeginSegmentResult, ContractError>)
    requires
        original@.runs.dom().contains(request@.run_id),
        original@.executions.dom().contains(request@.run_id),
        payload_fault(original@.executions[request@.run_id], request@) is None,
        old(state)@ == leased_state(original@, scope@, request@),
        lease@ == starting_lease(original@, scope@, request@),
    ensures
        failure(r) == start_fault(original@, scope@, request@, checks@),
        r matches Ok(result) ==> final(state)@ == started_state(original@, scope@, request@)
            && result@ == (BeginSegmentResultView {
            state: committed_run(
                leased_state(original@, scope@, request@),
                request@.run_id,
                starting_commit(request@, request@.transition->0, lease@),
            ),
            segment: started_state(
                original@,
                scope@,
                request@,
            ).executions[request@.run_id].segments.last(),
            lease: if terminal(request@.transition->0.snapshot.status) {
                None
            } else {
                Some(lease@)
            },
        }),
{
    reveal(start_fault);
    let transition = match &request.transition {
        Some(transition) => transition,
        None => {
            return fail(ErrorCode::InvalidContract, "execution.transition");
        },
    };
    {
        let run = state.run(&request.run_id)?;
        let history = match state.executions.get(&request.run_id) {
            Some(history) => history,
            None => {
                return not_found();
            },
        };
        check_start_transition(history, &run.snapshot, request, &transition.snapshot)?;
    }
    let input = CommitInput {
        control_commands: Vec::new(),
        expected_revision: request.expected_revision,
        lease: lease.copy(),
        now_ms: request.now_ms,
        snapshot: transition.snapshot.copy(),
        messages: transition.messages.copy(),
        events: transition.events.copy(),
        records: transition.records.copy(),
    };
    assert(input.control_commands.deep_view() =~= Seq::<Seq<char>>::empty());
    assert(input@ == starting_commit(request@, transition@, lease@));
    let ghost given = input@;
    let segment_id = Some(&request.segment_id);
    assert(segment_id.deep_view() == Some(request@.segment_id));
    let result = commit(state, scope, &request.run_id, input, segment_id, checks)?;
    let ghost committed = state@;
    let history = match state.executions.get(&request.run_id) {
        Some(history) => history.copy(),
        None => {
            return not_found();
        },
    };
    assert(history@.controls == original@.executions[request@.run_id].controls) by {
        assert(history@ == settled_history(
            leased_state(original@, scope@, request@),
            request@.run_id,
            given,
            Some(request@.segment_id),
        ));
    }
    let history = finish_history(history, request);
    validate_history(&history, &result.snapshot, &checks.submitted)?;
    let segment = match last(&history.segments) {
        Some(segment) => segment.copy(),
        None => {
            assert(false) by {
                reveal(history_fault);
            }
            return not_found();
        },
    };
    state.executions.insert(request.run_id.copy(), history);
    assert(state@ =~= started_state(original@, scope@, request@));
    let lease = if result.snapshot.status.is_terminal() {
        None
    } else {
        Some(lease)
    };
    Ok(BeginSegmentResult { state: result, segment, lease })
}

/// Start an execution segment, or answer a request that was accepted before. A refusal leaves the
/// working copy undefined.
pub fn begin(
    state: &mut ScopeState,
    scope: &Scope,
    request: &BeginSegmentRequest,
    checks: &CommitChecks,
) -> (r: Result<BeginSegmentResult, ContractError>)
    ensures
        failure(r) == begin_fault(old(state)@, scope@, request@, checks@),
        r matches Ok(result) ==> final(state)@ == begun_state(old(state)@, scope@, request@)
            && result@ == begun(old(state)@, scope@, request@),
{
    let ghost original = state@;
    if let Some(result) = consider(state, request)? {
        return Ok(result);
    }
    let lease = lease_run(state, scope, request)?;
    match &request.start {
        SegmentStart::Initial => claim(state, request, lease, Ghost(original), scope),
        _ => start(state, scope, request, lease, checks, Ghost(original)),
    }
}

/// A command is processed at most once: a request to start a segment for a command that was
/// accepted before changes nothing, and never hands out a lease.
pub proof fn law_a_command_starts_one_segment(
    state: ScopeStateView,
    scope: ScopeView,
    request: BeginSegmentRequestView,
    checks: CommitChecksView,
)
    requires
        begin_fault(state, scope, request, checks) is None,
        was_started(state.executions[request.run_id], request),
    ensures
        begun_state(state, scope, request) == state,
        begun(state, scope, request).lease is None,
        begun(state, scope, request).segment == started_segment(
            state.executions[request.run_id],
            request,
        ),
{
}

/// A submitted control is kept: submitting it again finds it, and changes nothing while it has
/// something left to do.
pub proof fn law_controls_are_found_again(
    history: ExecutionHistoryView,
    snapshot: RunSnapshotView,
    command: ControlCommandView,
    limits: SubmissionLimitsView,
)
    requires
        controlled_fault(history, snapshot, command, limits) is None,
        !needs_nothing(snapshot, command.action),
    ensures
        position_in(
            controlled(history, snapshot, command).controls,
            control_named(command.command_id),
        ) is Some,
        controlled_fault(
            controlled(history, snapshot, command),
            snapshot,
            command,
            limits,
        ) is None,
        controlled(controlled(history, snapshot, command), snapshot, command) == controlled(
            history,
            snapshot,
            command,
        ),
{
    let after = controlled(history, snapshot, command);
    if position_in(history.controls, control_named(command.command_id)) is None {
        lemma_pushed_position(
            history.controls,
            StoredControlCommandView { command, processed_segment_id: None },
            control_named(command.command_id),
        );
    }
}

proof fn lemma_pushed_position<V>(s: Seq<V>, x: V, p: spec_fn(V) -> bool)
    requires
        position_in(s, p) is None,
        p(x),
    ensures
        position_in(s.push(x), p) == Some(s.len() as int),
    decreases s.len(),
{
    if s.len() > 0 {
        lemma_pushed_position(s.skip(1), x, p);
        assert(s.push(x).skip(1) =~= s.skip(1).push(x));
    } else {
        assert(s.push(x)[0] == x);
    }
}

/// A control that is new to a run is kept behind those before it. It counts as done at once where the
/// run has ended, and a stop also where the segment has an outcome already; otherwise it is pending.
/// A name that was used for another command, or for a command of another kind, is refused.
pub proof fn law_new_controls_are_kept(
    history: ExecutionHistoryView,
    snapshot: RunSnapshotView,
    run_id: Seq<char>,
    command: ControlCommandView,
    limits: SubmissionLimitsView,
    i: int,
)
    ensures
        ({
            let after = controlled(history, snapshot, command);
            let receipt = control_receipt(history, snapshot, run_id, command);
            let done = snapshot.status == RunStatus::Succeeded || snapshot.status
                == RunStatus::Failed || snapshot.status == RunStatus::Cancelled || snapshot.status
                == RunStatus::Exhausted || (command.action is Stop && snapshot.outcome is Some);
            let known = exists|k: int|
                0 <= k < history.controls.len() && (
                #[trigger] history.controls[k]).command.command_id == command.command_id;
            &&& receipt.run_id == run_id
            &&& receipt.command_id == command.command_id
            &&& after.segments == history.segments
            &&& !known ==> {
                &&& after.controls.len() == history.controls.len() + 1
                &&& after.controls.last().command == command
                &&& after.controls.last().processed_segment_id == receipt.processed_segment_id
                &&& receipt.processed_segment_id is Some <==> done
                &&& done ==> receipt.processed_segment_id == Some(
                    history.segments.last().segment_id,
                )
                &&& 0 <= i < history.controls.len() ==> after.controls[i] == history.controls[i]
                &&& !done ==> after.accepted_commands == history.accepted_commands
            }
            &&& known && !done ==> after == history
            &&& (forall|k: int|
                0 <= k < history.controls.len() ==> (
                #[trigger] history.controls[k]).command.command_id == command.command_id
                    ==> history.controls[k].command != command) && known ==> controlled_fault(
                history,
                snapshot,
                command,
                limits,
            ) == fault(ErrorCode::RequestConflict, "control.command_id")
            &&& !known && (exists|k: int|
                0 <= k < history.accepted_commands.len() && (
                #[trigger] history.accepted_commands[k]).command_id == command.command_id)
                ==> controlled_fault(history, snapshot, command, limits) == fault(
                ErrorCode::RequestConflict,
                "control.command_id",
            )
        }),
{
    let p = control_named(command.command_id);
    let q = accepted_named(command.command_id);
    crate::data::lemma_position_in(history.controls, p);
    if some_in(history.controls, p) {
        let k = choose|k: int| 0 <= k < history.controls.len() && p(#[trigger] history.controls[k]);
        assert(history.controls[k].command.command_id == command.command_id);
    }
    if exists|k: int|
        0 <= k < history.controls.len() && (#[trigger] history.controls[k]).command.command_id
            == command.command_id {
        let k = choose|k: int|
            0 <= k < history.controls.len() && (#[trigger] history.controls[k]).command.command_id
                == command.command_id;
        assert(p(history.controls[k]));
    }
    if exists|k: int|
        0 <= k < history.accepted_commands.len() && (
        #[trigger] history.accepted_commands[k]).command_id == command.command_id {
        let k = choose|k: int|
            0 <= k < history.accepted_commands.len() && (
            #[trigger] history.accepted_commands[k]).command_id == command.command_id;
        assert(q(history.accepted_commands[k]));
    }
}

/// A segment starts for a command that names its run and the revision that the request names.
pub proof fn law_commands_name_their_run(
    history: ExecutionHistoryView,
    request: BeginSegmentRequestView,
)
    ensures
        request.start matches SegmentStartView::Resume(command) ==> (payload_fault(
            history,
            request,
        ) is None <==> command.run_id == request.run_id && command.expected_revision
            == request.expected_revision),
        request.start is Initial ==> payload_fault(history, request) is None,
{
}

/// The first segment of a run is claimed once, under a new lease, and nothing else of the run or of
/// any other run changes.
pub proof fn law_claiming_changes_the_lease_alone(
    state: ScopeStateView,
    scope: ScopeView,
    request: BeginSegmentRequestView,
    other: Seq<char>,
)
    requires
        state.runs.dom().contains(request.run_id),
        state.runs[request.run_id].last_fencing_token < u64::MAX,
    ensures
        ({
            let after = claimed_state(state, scope, request);
            let run = after.runs[request.run_id];
            &&& after.executions[request.run_id].initial_claimed
            &&& after.executions[request.run_id].segments
                == state.executions[request.run_id].segments
            &&& run.snapshot == state.runs[request.run_id].snapshot
            &&& run.events == state.runs[request.run_id].events
            &&& run.lease is Some
            &&& run.lease->Some_0.owner == request.owner
            &&& run.lease->Some_0.fencing_token == state.runs[request.run_id].last_fencing_token + 1
            &&& other != request.run_id ==> after.runs[other] == state.runs[other]
                && after.executions[other] == state.executions[other]
            &&& after.sessions == state.sessions
            &&& after.records == state.records
        }),
{
}

} // verus!
