//! The events that a checkpoint is committed with.
use vstd::prelude::*;

use crate::content::{
    tool_result_refs, ContentBlock, Message, ToolCall, ToolCallState, ToolEffect, ToolLedgerEntry,
    ToolResult, ToolResultStatus,
};
#[allow(unused_imports)]
use crate::content::{
    result_refs, ContentBlockView, InputRequestView, MessageView, ToolCallStateView, ToolCallView,
    ToolLedgerEntryView, ToolResultView,
};
use crate::context_strategy::ContextRevision;
use crate::data::{
    any, any_before, check_each, contains, count, find, is_same, joined, last, Data,
};
#[allow(unused_imports)]
use crate::data::{count_in, final_of, first_fault, first_in, first_index_fault, some_in};
use crate::error::{fail, verdict, ContractError, ErrorCode};
#[allow(unused_imports)]
use crate::error::{failure, fault, or_else, Fault};
use crate::model::ModelInvocationRecord;
#[allow(unused_imports)]
use crate::model::route_digest;
use crate::refs::RecordRef;
#[allow(unused_imports)]
use crate::refs::{key_of, RecordKeyView, RecordRefView};
use crate::run::{
    ApprovalTarget, ResumeAction, ResumeCommand, RunEvent, RunEventPayload, RunOutcome, RunRequest,
    RunSnapshot, RunStatus, WaitState, WaitTarget,
};
#[allow(unused_imports)]
use crate::run::{
    terminal, ApprovalTargetView, ResumeActionView, RunEventPayloadView, RunEventView,
    RunSnapshotView, WaitTargetView,
};
use crate::serialization::{Id, JsonDigest};
use crate::state::interruption_state;
#[allow(unused_imports)]
use crate::state::interruption_state::{interruption_event_fault, interruption_events_fault};
use crate::state::messages::{check_refs, validate_tool_pair};
#[allow(unused_imports)]
use crate::state::messages::tool_pair_fault;
use crate::state::records::{Recorded, Records};
#[allow(unused_imports)]
use crate::state::records::{
    event_fault, read_fault, record_fault, value_at, ProtectedRecordView,
};
use crate::state::scope::{not_found, ScopeState};
#[allow(unused_imports)]
use crate::state::scope::{missing, ScopeStateView};
#[allow(unused_imports)]
use crate::state::snapshot_refs::refs_fault;
use crate::state::transition::resume_target_matches;
#[allow(unused_imports)]
use crate::state::transition::resumes;
use crate::state::verification_state;
#[allow(unused_imports)]
use crate::state::verification_state::verification_event_fault;

verus! {

/// What the keepers of other parts of a run reported about its new events.
#[derive(Debug)]
pub struct EventChecks {
    /// Why corrections by reconciliation cannot be told.
    pub corrections: Option<ContractError>,
    /// The messages that reconciliation accounts for.
    pub reconciled: Vec<Id>,
    /// For each event, what the keeper of recoveries reported.
    pub recovery: Vec<Option<ContractError>>,
    /// For each event, what the keeper of context revisions reported.
    pub context: Vec<Option<ContractError>>,
}

#[verifier::ext_equal]
pub struct EventChecksView {
    pub corrections: Option<Fault>,
    pub reconciled: Seq<Seq<char>>,
    pub recovery: Seq<Option<Fault>>,
    pub context: Seq<Option<Fault>>,
}

impl View for EventChecks {
    type V = EventChecksView;

    open spec fn view(&self) -> EventChecksView {
        EventChecksView {
            corrections: self.corrections.deep_view(),
            reconciled: self.reconciled.deep_view(),
            recovery: self.recovery.deep_view(),
            context: self.context.deep_view(),
        }
    }
}

impl DeepView for EventChecks {
    type V = EventChecksView;

    open spec fn deep_view(&self) -> EventChecksView {
        self@
    }
}

impl Data for EventChecks {
    fn same(&self, other: &Self) -> (r: bool) {
        self.corrections.same(&other.corrections)
            && self.reconciled.same(&other.reconciled)
            && self.recovery.same(&other.recovery)
            && self.context.same(&other.context)
    }

    fn copy(&self) -> (r: Self) {
        EventChecks {
            corrections: self.corrections.copy(),
            reconciled: self.reconciled.copy(),
            recovery: self.recovery.copy(),
            context: self.context.copy(),
        }
    }
}


/// The failure of events.
pub open spec fn misreported(path: &str) -> Option<Fault> {
    fault(ErrorCode::InvalidEvent, path)
}

fn invalid<T>(path: &str) -> (r: Result<T, ContractError>)
    ensures
        r is Err,
        failure(r) == misreported(path),
{
    fail(ErrorCode::InvalidEvent, path)
}

/// What was reported about the event at a position.
pub open spec fn reported_at(reports: Seq<Option<Fault>>, i: int) -> Option<Fault> {
    if 0 <= i < reports.len() {
        reports[i]
    } else {
        None
    }
}

fn check_report(reports: &Vec<Option<ContractError>>, i: usize) -> (r: Result<(), ContractError>)
    ensures
        failure(r) == reported_at(reports.deep_view(), i as int),
{
    if i < reports.len() {
        assert(reports.deep_view()[i as int] == reports@[i as int].deep_view());
        verdict(&reports[i])
    } else {
        Ok(())
    }
}

/// The latest answer was accepted by this checkpoint and settles an external effect.
pub open spec fn accepts_external(snapshot: RunSnapshotView) -> bool {
    final_of(snapshot.resume_receipts) matches Some(receipt) && receipt.accepted_revision
        == snapshot.revision && receipt.command.action is External
}

/// A run waits for the external effect of a call.
pub open spec fn waits_for_external(snapshot: RunSnapshotView, call_id: Seq<char>) -> bool {
    snapshot.wait matches Some(wait) && (wait.target matches WaitTargetView::External {
        call_id: awaited,
        ..
    } && awaited == call_id)
}

/// The events that report a settled result.
pub open spec fn settles(
    records: Map<RecordKeyView, ProtectedRecordView>,
    result: ToolResultView,
) -> spec_fn(RunEventView) -> bool {
    |event: RunEventView|
        event.payload matches RunEventPayloadView::ToolSettled { result_ref } && event_fault::<
            ToolResult,
        >(records, result_ref) is None && value_at::<ToolResult>(records, result_ref) == result
}

/// Why a correction of a tool result is not accounted for.
pub open spec fn correction_fault(
    state: ScopeStateView,
    records: Map<RecordKeyView, ProtectedRecordView>,
    snapshot: RunSnapshotView,
    events: Seq<RunEventView>,
) -> spec_fn(ContentBlockView) -> Option<Fault> {
    |block: ContentBlockView|
        match block {
            ContentBlockView::ToolResultCorrection { result, .. } => if !state.runs.dom().contains(
                snapshot.run_id,
            ) {
                missing()
            } else if !waits_for_external(state.runs[snapshot.run_id].snapshot, result.call_id)
                || !accepts_external(snapshot) || !some_in(events, settles(records, result)) {
                misreported("events.tool_correction")
            } else {
                None
            },
            _ => None,
        }
}

/// Why a new message corrects results without account.
pub open spec fn corrections_fault(
    state: ScopeStateView,
    records: Map<RecordKeyView, ProtectedRecordView>,
    snapshot: RunSnapshotView,
    events: Seq<RunEventView>,
    reconciled: Seq<Seq<char>>,
) -> spec_fn(MessageView) -> Option<Fault> {
    |message: MessageView|
        if reconciled.contains(message.message_id) {
            None
        } else {
            first_fault(message.content, correction_fault(state, records, snapshot, events))
        }
}

fn is_accepting_external(snapshot: &RunSnapshot) -> (r: bool)
    ensures
        r == accepts_external(snapshot@),
{
    match last(&snapshot.resume_receipts) {
        Some(receipt) => receipt.accepted_revision == snapshot.revision && match
            &receipt.command.action {
            ResumeAction::External { .. } => true,
            _ => false,
        },
        None => false,
    }
}

fn is_waiting_for_external(snapshot: &RunSnapshot, call_id: &Id) -> (r: bool)
    ensures
        r == waits_for_external(snapshot@, call_id@),
{
    match &snapshot.wait {
        Some(wait) => match &wait.target {
            WaitTarget::External { call_id: awaited, .. } => awaited.same(call_id),
            _ => false,
        },
        None => false,
    }
}

fn is_settled_by(records: &Records, events: &Vec<RunEvent>, result: &ToolResult) -> (r: bool)
    ensures
        r == some_in(events.deep_view(), settles(records@, result@)),
{
    let reported = |event: &RunEvent| -> (b: bool)
        ensures
            b == settles(records@, result@)(event@),
    {
        match &event.payload {
            RunEventPayload::ToolSettled { result_ref } => match records.event_record::<ToolResult>(
                result_ref,
            ) {
                Ok(saved) => saved.same(result),
                Err(_) => false,
            },
            _ => false,
        }
    };
    any(events, reported, Ghost(settles(records@, result@)))
}

fn check_correction(
    state: &ScopeState,
    records: &Records,
    snapshot: &RunSnapshot,
    events: &Vec<RunEvent>,
    block: &ContentBlock,
) -> (r: Result<(), ContractError>)
    ensures
        failure(r) == correction_fault(state@, records@, snapshot@, events.deep_view())(block@),
{
    match block {
        ContentBlock::ToolResultCorrection { result, .. } => {
            let previous = state.run(&snapshot.run_id)?;
            if !is_waiting_for_external(&previous.snapshot, &result.call_id)
                || !is_accepting_external(snapshot) || !is_settled_by(records, events, result) {
                return invalid("events.tool_correction");
            }
            Ok(())
        },
        _ => Ok(()),
    }
}

fn check_corrections(
    state: &ScopeState,
    records: &Records,
    snapshot: &RunSnapshot,
    events: &Vec<RunEvent>,
    messages: &Vec<Message>,
    reconciled: &Vec<Id>,
) -> (r: Result<(), ContractError>)
    ensures
        failure(r) == first_fault(
            messages.deep_view(),
            corrections_fault(
                state@,
                records@,
                snapshot@,
                events.deep_view(),
                reconciled.deep_view(),
            ),
        ),
{
    let accounted = |message: &Message| -> (r: Result<(), ContractError>)
        ensures
            failure(r) == corrections_fault(
                state@,
                records@,
                snapshot@,
                events.deep_view(),
                reconciled.deep_view(),
            )(message@),
    {
        if contains(reconciled, &message.message_id) {
            return Ok(());
        }
        let allowed = |block: &ContentBlock| -> (r: Result<(), ContractError>)
            ensures
                failure(r) == correction_fault(
                    state@,
                    records@,
                    snapshot@,
                    events.deep_view(),
                )(block@),
        { check_correction(state, records, snapshot, events, block) };
        check_each(
            &message.content,
            allowed,
            Ghost(correction_fault(state@, records@, snapshot@, events.deep_view())),
        )
    };
    check_each(
        messages,
        accounted,
        Ghost(
            corrections_fault(
                state@,
                records@,
                snapshot@,
                events.deep_view(),
                reconciled.deep_view(),
            ),
        ),
    )
}

/// The record that an event is about.
pub open spec fn subject_of(payload: RunEventPayloadView) -> RecordRefView {
    match payload {
        RunEventPayloadView::RunStarted { request_ref, .. } => request_ref,
        RunEventPayloadView::RunRecovered { recovery_receipt_ref } => recovery_receipt_ref,
        RunEventPayloadView::RunResumed { command_ref } => command_ref,
        RunEventPayloadView::RunWaiting { wait_ref, .. } => wait_ref,
        RunEventPayloadView::RunInterrupted { outcome_ref, .. } => outcome_ref,
        RunEventPayloadView::RunFinished { outcome_ref } => outcome_ref,
        RunEventPayloadView::ToolPlanned { call_ref } => call_ref,
        RunEventPayloadView::ToolSettled { result_ref } => result_ref,
        RunEventPayloadView::ToolUnresolved { result_ref, .. } => result_ref,
        RunEventPayloadView::ToolReconciled { reconciliation_ref } => reconciliation_ref,
        RunEventPayloadView::ContextRewritten { revision_ref } => revision_ref,
        RunEventPayloadView::VerificationCompleted { verification_ref } => verification_ref,
        RunEventPayloadView::ModelRouteSelected { invocation_ref, .. } => invocation_ref,
    }
}

fn subject(payload: &RunEventPayload) -> (r: &RecordRef)
    ensures
        r@ == subject_of(payload@),
{
    match payload {
        RunEventPayload::RunStarted { request_ref, .. } => request_ref,
        RunEventPayload::RunRecovered { recovery_receipt_ref } => recovery_receipt_ref,
        RunEventPayload::RunResumed { command_ref } => command_ref,
        RunEventPayload::RunWaiting { wait_ref, .. } => wait_ref,
        RunEventPayload::RunInterrupted { outcome_ref, .. } => outcome_ref,
        RunEventPayload::RunFinished { outcome_ref } => outcome_ref,
        RunEventPayload::ToolPlanned { call_ref } => call_ref,
        RunEventPayload::ToolSettled { result_ref } => result_ref,
        RunEventPayload::ToolUnresolved { result_ref, .. } => result_ref,
        RunEventPayload::ToolReconciled { reconciliation_ref } => reconciliation_ref,
        RunEventPayload::ContextRewritten { revision_ref } => revision_ref,
        RunEventPayload::VerificationCompleted { verification_ref } => verification_ref,
        RunEventPayload::ModelRouteSelected { invocation_ref, .. } => invocation_ref,
    }
}

/// Why a rewritten context is misreported.
pub open spec fn rewritten_fault(
    records: Map<RecordKeyView, ProtectedRecordView>,
    snapshot: RunSnapshotView,
    revision_ref: RecordRefView,
    report: Option<Fault>,
) -> Option<Fault> {
    let revision = value_at::<ContextRevision>(records, revision_ref);
    let read = read_fault::<ContextRevision>(
        records,
        revision_ref,
        ErrorCode::InvalidSnapshot,
        "context.revision",
    );
    if report is Some {
        report
    } else if read is Some {
        read
    } else if snapshot.context_revision_ref != Some(revision_ref) || revision.run_id
        != snapshot.run_id || snapshot.model_step_id != Some(revision.model_step_id) {
        misreported("events.context")
    } else {
        None
    }
}

fn check_rewritten(
    records: &Records,
    snapshot: &RunSnapshot,
    revision_ref: &RecordRef,
    reports: &Vec<Option<ContractError>>,
    i: usize,
) -> (r: Result<(), ContractError>)
    ensures
        failure(r) == rewritten_fault(
            records@,
            snapshot@,
            revision_ref@,
            reported_at(reports.deep_view(), i as int),
        ),
{
    check_report(reports, i)?;
    let revision = records.read::<ContextRevision>(
        revision_ref,
        ErrorCode::InvalidSnapshot,
        "context.revision",
    )?;
    if !is_same(&snapshot.context_revision_ref, revision_ref) || !revision.run_id.same(
        &snapshot.run_id,
    ) || !is_same(&snapshot.model_step_id, &revision.model_step_id) {
        return invalid("events.context");
    }
    Ok(())
}

/// Why the start of a run is misreported.
pub open spec fn started_fault(
    records: Map<RecordKeyView, ProtectedRecordView>,
    snapshot: RunSnapshotView,
    admission: bool,
    request_ref: RecordRefView,
    profile_digest: Seq<char>,
) -> Option<Fault> {
    if !admission || profile_digest != snapshot.profile.profile_digest {
        misreported("events.run_started")
    } else if record_fault(records, request_ref) is Some {
        record_fault(records, request_ref)
    } else if <RunRequest as Recorded>::reading(records[key_of(request_ref)].content) != Some(
        snapshot.request,
    ) {
        misreported("events.run_started")
    } else {
        None
    }
}

fn check_started(
    records: &Records,
    snapshot: &RunSnapshot,
    admission: bool,
    request_ref: &RecordRef,
    profile_digest: &JsonDigest,
) -> (r: Result<(), ContractError>)
    ensures
        failure(r) == started_fault(
            records@,
            snapshot@,
            admission,
            request_ref@,
            profile_digest@,
        ),
{
    if !admission || !profile_digest.same(snapshot.profile.profile_digest()) {
        return invalid("events.run_started");
    }
    let record = records.record(request_ref)?;
    match <RunRequest as Recorded>::read(record.content()) {
        Some(request) => {
            if !request.same(&snapshot.request) {
                return invalid("events.run_started");
            }
            Ok(())
        },
        None => invalid("events.run_started"),
    }
}

/// Why an interruption is misreported.
pub open spec fn interrupted_fault(
    records: Map<RecordKeyView, ProtectedRecordView>,
    snapshot: RunSnapshotView,
    outcome_ref: RecordRefView,
    decision_ref: RecordRefView,
) -> Option<Fault> {
    let outcome = value_at::<RunOutcome>(records, outcome_ref);
    if event_fault::<RunOutcome>(records, outcome_ref) is Some {
        event_fault::<RunOutcome>(records, outcome_ref)
    } else if interruption_event_fault(records, snapshot, outcome, decision_ref) is Some {
        interruption_event_fault(records, snapshot, outcome, decision_ref)
    } else if snapshot.outcome != Some(outcome) || snapshot.status != RunStatus::Interrupted {
        misreported("events.run_interrupted")
    } else {
        None
    }
}

fn check_interrupted(
    records: &Records,
    snapshot: &RunSnapshot,
    outcome_ref: &RecordRef,
    decision_ref: &RecordRef,
) -> (r: Result<(), ContractError>)
    ensures
        failure(r) == interrupted_fault(records@, snapshot@, outcome_ref@, decision_ref@),
{
    let outcome = records.event_record::<RunOutcome>(outcome_ref)?;
    interruption_state::validate_event(records, snapshot, outcome, decision_ref)?;
    if !is_same(&snapshot.outcome, outcome) || snapshot.status != RunStatus::Interrupted {
        return invalid("events.run_interrupted");
    }
    Ok(())
}

/// Why the end of a run is misreported.
pub open spec fn finished_fault(
    records: Map<RecordKeyView, ProtectedRecordView>,
    snapshot: RunSnapshotView,
    outcome_ref: RecordRefView,
) -> Option<Fault> {
    match snapshot.outcome {
        None => misreported("events.run_finished"),
        Some(outcome) => if !terminal(snapshot.status) {
            misreported("events.run_finished")
        } else if record_fault(records, outcome_ref) is Some {
            record_fault(records, outcome_ref)
        } else if <RunOutcome as Recorded>::reading(records[key_of(outcome_ref)].content) != Some(
            outcome,
        ) {
            misreported("events.run_finished")
        } else {
            None
        },
    }
}

fn check_finished(records: &Records, snapshot: &RunSnapshot, outcome_ref: &RecordRef) -> (r: Result<
    (),
    ContractError,
>)
    ensures
        failure(r) == finished_fault(records@, snapshot@, outcome_ref@),
{
    let outcome = match &snapshot.outcome {
        Some(outcome) => outcome,
        None => {
            return invalid("events.run_finished");
        },
    };
    if !snapshot.status.is_terminal() {
        return invalid("events.run_finished");
    }
    let record = records.record(outcome_ref)?;
    match <RunOutcome as Recorded>::read(record.content()) {
        Some(saved) => {
            if !saved.same(outcome) {
                return invalid("events.run_finished");
            }
            Ok(())
        },
        None => invalid("events.run_finished"),
    }
}

/// The ledger entries of exactly this call.
pub open spec fn plans(call: ToolCallView) -> spec_fn(ToolLedgerEntryView) -> bool {
    |entry: ToolLedgerEntryView| entry.call == call
}

/// The ledger entries that were settled with this result.
pub open spec fn settled_with(result: ToolResultView) -> spec_fn(ToolLedgerEntryView) -> bool {
    |entry: ToolLedgerEntryView|
        entry.state matches ToolCallStateView::Settled { result: saved } && saved == result
}

/// The unresolved ledger entries of a call.
pub open spec fn unresolved(call_id: Seq<char>) -> spec_fn(ToolLedgerEntryView) -> bool {
    |entry: ToolLedgerEntryView| entry.call.call_id == call_id && entry.state is Unknown
}

/// The blocks that correct a result to this one.
pub open spec fn corrects_to(result: ToolResultView) -> spec_fn(ContentBlockView) -> bool {
    |block: ContentBlockView|
        block matches ContentBlockView::ToolResultCorrection { result: corrected, .. } && corrected
            == result
}

/// The messages that correct a result to this one.
pub open spec fn holds_correction(result: ToolResultView) -> spec_fn(MessageView) -> bool {
    |message: MessageView| some_in(message.content, corrects_to(result))
}

/// Why a settled call is misreported.
pub open spec fn settled_fault(
    state: ScopeStateView,
    records: Map<RecordKeyView, ProtectedRecordView>,
    snapshot: RunSnapshotView,
    messages: Seq<MessageView>,
    result_ref: RecordRefView,
) -> Option<Fault> {
    let result = value_at::<ToolResult>(records, result_ref);
    if event_fault::<ToolResult>(records, result_ref) is Some {
        event_fault::<ToolResult>(records, result_ref)
    } else if !some_in(snapshot.tool_ledger, settled_with(result)) {
        misreported("events.tool_settled")
    } else if state.runs.dom().contains(snapshot.run_id) && some_in(
        state.runs[snapshot.run_id].snapshot.tool_ledger,
        unresolved(result.call_id),
    ) && !some_in(messages, holds_correction(result)) {
        misreported("events.tool_correction_missing")
    } else {
        tool_pair_fault(state, snapshot, messages, result)
    }
}

fn has_correction(messages: &Vec<Message>, result: &ToolResult) -> (r: bool)
    ensures
        r == some_in(messages.deep_view(), holds_correction(result@)),
{
    let corrected = |message: &Message| -> (b: bool)
        ensures
            b == holds_correction(result@)(message@),
    {
        let block = |block: &ContentBlock| -> (b: bool)
            ensures
                b == corrects_to(result@)(block@),
        {
            match block {
                ContentBlock::ToolResultCorrection { result: corrected, .. } => corrected.same(
                    result,
                ),
                _ => false,
            }
        };
        any(&message.content, block, Ghost(corrects_to(result@)))
    };
    any(messages, corrected, Ghost(holds_correction(result@)))
}

fn is_unresolved_before(state: &ScopeState, snapshot: &RunSnapshot, result: &ToolResult) -> (r: bool)
    ensures
        r == (state@.runs.dom().contains(snapshot@.run_id) && some_in(
            state@.runs[snapshot@.run_id].snapshot.tool_ledger,
            unresolved(result@.call_id),
        )),
{
    match state.runs.get(&snapshot.run_id) {
        Some(previous) => {
            let pending = |entry: &ToolLedgerEntry| -> (b: bool)
                ensures
                    b == unresolved(result@.call_id)(entry@),
            {
                entry.call.call_id.same(&result.call_id) && match &entry.state {
                    ToolCallState::Unknown { .. } => true,
                    _ => false,
                }
            };
            any(&previous.snapshot.tool_ledger, pending, Ghost(unresolved(result@.call_id)))
        },
        None => false,
    }
}

fn check_settled(
    state: &ScopeState,
    records: &Records,
    snapshot: &RunSnapshot,
    messages: &Vec<Message>,
    result_ref: &RecordRef,
) -> (r: Result<(), ContractError>)
    ensures
        failure(r) == settled_fault(
            state@,
            records@,
            snapshot@,
            messages.deep_view(),
            result_ref@,
        ),
{
    let result = records.event_record::<ToolResult>(result_ref)?;
    let settled = |entry: &ToolLedgerEntry| -> (b: bool)
        ensures
            b == settled_with(result@)(entry@),
    {
        match &entry.state {
            ToolCallState::Settled { result: saved } => saved.same(result),
            _ => false,
        }
    };
    if !any(&snapshot.tool_ledger, settled, Ghost(settled_with(result@))) {
        return invalid("events.tool_settled");
    }
    if is_unresolved_before(state, snapshot, result) && !has_correction(messages, result) {
        return invalid("events.tool_correction_missing");
    }
    validate_tool_pair(state, snapshot, messages, result)
}

/// The ledger entries that are unresolved under an attempt.
pub open spec fn unresolved_under(
    call_id: Seq<char>,
    attempt_id: Seq<char>,
    idempotency_key: Seq<char>,
) -> spec_fn(ToolLedgerEntryView) -> bool {
    |entry: ToolLedgerEntryView|
        entry.call.call_id == call_id && entry.state == (ToolCallStateView::Unknown {
            attempt_id,
            idempotency_key,
        })
}

/// Why an unresolved call is misreported.
pub open spec fn unresolved_fault(
    state: ScopeStateView,
    records: Map<RecordKeyView, ProtectedRecordView>,
    snapshot: RunSnapshotView,
    messages: Seq<MessageView>,
    result_ref: RecordRefView,
    attempt_id: Seq<char>,
    idempotency_key: Seq<char>,
) -> Option<Fault> {
    let result = value_at::<ToolResult>(records, result_ref);
    if event_fault::<ToolResult>(records, result_ref) is Some {
        event_fault::<ToolResult>(records, result_ref)
    } else if result.status != ToolResultStatus::Unknown || result.effect != ToolEffect::Unknown
        || !some_in(
        snapshot.tool_ledger,
        unresolved_under(result.call_id, attempt_id, idempotency_key),
    ) {
        misreported("events.tool_unresolved")
    } else if tool_pair_fault(state, snapshot, messages, result) is Some {
        tool_pair_fault(state, snapshot, messages, result)
    } else {
        refs_fault(records, result_refs(result))
    }
}

fn check_unresolved(
    state: &ScopeState,
    records: &Records,
    snapshot: &RunSnapshot,
    messages: &Vec<Message>,
    result_ref: &RecordRef,
    attempt_id: &Id,
    idempotency_key: &Id,
) -> (r: Result<(), ContractError>)
    ensures
        failure(r) == unresolved_fault(
            state@,
            records@,
            snapshot@,
            messages.deep_view(),
            result_ref@,
            attempt_id@,
            idempotency_key@,
        ),
{
    let result = records.event_record::<ToolResult>(result_ref)?;
    let pending = |entry: &ToolLedgerEntry| -> (b: bool)
        ensures
            b == unresolved_under(result@.call_id, attempt_id@, idempotency_key@)(entry@),
    {
        entry.call.call_id.same(&result.call_id) && match &entry.state {
            ToolCallState::Unknown { attempt_id: saved, idempotency_key: key } => saved.same(
                attempt_id,
            ) && key.same(idempotency_key),
            _ => false,
        }
    };
    if result.status != ToolResultStatus::Unknown || result.effect != ToolEffect::Unknown || !any(
        &snapshot.tool_ledger,
        pending,
        Ghost(unresolved_under(result@.call_id, attempt_id@, idempotency_key@)),
    ) {
        return invalid("events.tool_unresolved");
    }
    validate_tool_pair(state, snapshot, messages, result)?;
    check_refs(records, &tool_result_refs(result))
}

/// The record that an accepted answer brings along.
pub open spec fn brought(action: ResumeActionView) -> Option<RecordRefView> {
    match action {
        ResumeActionView::External { receipt_ref, .. } => Some(receipt_ref),
        ResumeActionView::Recover { recovery_ref } => Some(recovery_ref),
        _ => None,
    }
}

/// Why a resumption is misreported.
pub open spec fn resumed_fault(
    state: ScopeStateView,
    records: Map<RecordKeyView, ProtectedRecordView>,
    snapshot: RunSnapshotView,
    command_ref: RecordRefView,
    timestamp_ms: i64,
) -> Option<Fault> {
    let command = value_at::<ResumeCommand>(records, command_ref);
    let previous = state.runs[snapshot.run_id].snapshot;
    if event_fault::<ResumeCommand>(records, command_ref) is Some {
        event_fault::<ResumeCommand>(records, command_ref)
    } else if !state.runs.dom().contains(snapshot.run_id) {
        missing()
    } else {
        match final_of(snapshot.resume_receipts) {
            None => misreported("events.run_resumed"),
            Some(receipt) => if snapshot.status != RunStatus::Running || command.run_id
                != snapshot.run_id || command.expected_revision != previous.revision || !resumes(
                previous,
                command.action,
            ) || receipt.command_ref != command_ref || receipt.command != command
                || receipt.accepted_revision != snapshot.revision {
                misreported("events.run_resumed")
            } else if event_fault::<RunOutcome>(records, receipt.previous_outcome_ref) is Some {
                event_fault::<RunOutcome>(records, receipt.previous_outcome_ref)
            } else if previous.outcome != Some(
                value_at::<RunOutcome>(records, receipt.previous_outcome_ref),
            ) || timestamp_ms != snapshot.timing.last_observed_at_ms {
                misreported("events.resume_outcome")
            } else {
                match brought(command.action) {
                    Some(reference) => record_fault(records, reference),
                    None => None,
                }
            },
        }
    }
}

fn check_resumed(
    state: &ScopeState,
    records: &Records,
    snapshot: &RunSnapshot,
    command_ref: &RecordRef,
    timestamp_ms: i64,
) -> (r: Result<(), ContractError>)
    ensures
        failure(r) == resumed_fault(state@, records@, snapshot@, command_ref@, timestamp_ms),
{
    let command = records.event_record::<ResumeCommand>(command_ref)?;
    let run = state.run(&snapshot.run_id)?;
    let previous = &run.snapshot;
    let receipt = match last(&snapshot.resume_receipts) {
        Some(receipt) => receipt,
        None => {
            return invalid("events.run_resumed");
        },
    };
    if snapshot.status != RunStatus::Running || !command.run_id.same(&snapshot.run_id)
        || command.expected_revision != previous.revision || !resume_target_matches(
        previous,
        &command.action,
    ) || !receipt.command_ref.same(command_ref) || !receipt.command.same(command)
        || receipt.accepted_revision != snapshot.revision {
        return invalid("events.run_resumed");
    }
    let prior = records.event_record::<RunOutcome>(&receipt.previous_outcome_ref)?;
    if !is_same(&previous.outcome, prior) || timestamp_ms != snapshot.timing.last_observed_at_ms {
        return invalid("events.resume_outcome");
    }
    match &command.action {
        ResumeAction::External { receipt_ref, .. } => records.check(receipt_ref),
        ResumeAction::Recover { recovery_ref } => records.check(recovery_ref),
        _ => Ok(()),
    }
}

/// Why a planned call is misreported.
pub open spec fn planned_fault(
    records: Map<RecordKeyView, ProtectedRecordView>,
    snapshot: RunSnapshotView,
    call_ref: RecordRefView,
) -> Option<Fault> {
    if event_fault::<ToolCall>(records, call_ref) is Some {
        event_fault::<ToolCall>(records, call_ref)
    } else if !some_in(snapshot.tool_ledger, plans(value_at::<ToolCall>(records, call_ref))) {
        misreported("events.tool_planned")
    } else {
        None
    }
}

fn check_planned(records: &Records, snapshot: &RunSnapshot, call_ref: &RecordRef) -> (r: Result<
    (),
    ContractError,
>)
    ensures
        failure(r) == planned_fault(records@, snapshot@, call_ref@),
{
    let call = records.event_record::<ToolCall>(call_ref)?;
    let planned = |entry: &ToolLedgerEntry| -> (b: bool)
        ensures
            b == plans(call@)(entry@),
    { entry.call.same(call) };
    if !any(&snapshot.tool_ledger, planned, Ghost(plans(call@))) {
        return invalid("events.tool_planned");
    }
    Ok(())
}

/// Why a wait is misreported.
pub open spec fn waiting_fault(
    records: Map<RecordKeyView, ProtectedRecordView>,
    snapshot: RunSnapshotView,
    wait_ref: RecordRefView,
) -> Option<Fault> {
    if event_fault::<WaitState>(records, wait_ref) is Some {
        event_fault::<WaitState>(records, wait_ref)
    } else if snapshot.status != RunStatus::Waiting || snapshot.wait != Some(
        value_at::<WaitState>(records, wait_ref),
    ) {
        misreported("events.run_waiting")
    } else {
        None
    }
}

fn check_waiting(records: &Records, snapshot: &RunSnapshot, wait_ref: &RecordRef) -> (r: Result<
    (),
    ContractError,
>)
    ensures
        failure(r) == waiting_fault(records@, snapshot@, wait_ref@),
{
    let wait = records.event_record::<WaitState>(wait_ref)?;
    if snapshot.status != RunStatus::Waiting || !is_same(&snapshot.wait, wait) {
        return invalid("events.run_waiting");
    }
    Ok(())
}

/// Why the route of an attempt is misreported.
pub open spec fn selected_fault(
    records: Map<RecordKeyView, ProtectedRecordView>,
    snapshot: RunSnapshotView,
    invocation_ref: RecordRefView,
    digest: Seq<char>,
) -> Option<Fault> {
    let invocation = value_at::<ModelInvocationRecord>(records, invocation_ref);
    if event_fault::<ModelInvocationRecord>(records, invocation_ref) is Some {
        event_fault::<ModelInvocationRecord>(records, invocation_ref)
    } else if route_digest(invocation.route) != digest || !snapshot.model_ledger.contains(
        invocation,
    ) {
        misreported("events.model_route_selected")
    } else {
        None
    }
}

fn check_selected(
    records: &Records,
    snapshot: &RunSnapshot,
    invocation_ref: &RecordRef,
    digest: &JsonDigest,
) -> (r: Result<(), ContractError>)
    ensures
        failure(r) == selected_fault(records@, snapshot@, invocation_ref@, digest@),
{
    let invocation = records.event_record::<ModelInvocationRecord>(invocation_ref)?;
    if !invocation.route.digest().same(digest) || !contains(&snapshot.model_ledger, invocation) {
        return invalid("events.model_route_selected");
    }
    Ok(())
}

/// Why what an event says is not so.
#[verifier::opaque]
pub open spec fn payload_fault(
    state: ScopeStateView,
    records: Map<RecordKeyView, ProtectedRecordView>,
    snapshot: RunSnapshotView,
    admission: bool,
    messages: Seq<MessageView>,
    event: RunEventView,
    recovery: Option<Fault>,
    context: Option<Fault>,
) -> Option<Fault> {
    match event.payload {
        RunEventPayloadView::RunRecovered { .. } => recovery,
        RunEventPayloadView::ToolReconciled { .. } => None,
        RunEventPayloadView::ContextRewritten { revision_ref } => rewritten_fault(
            records,
            snapshot,
            revision_ref,
            context,
        ),
        RunEventPayloadView::RunStarted { request_ref, profile_digest } => started_fault(
            records,
            snapshot,
            admission,
            request_ref,
            profile_digest,
        ),
        RunEventPayloadView::RunInterrupted { outcome_ref, decision_ref } => interrupted_fault(
            records,
            snapshot,
            outcome_ref,
            decision_ref,
        ),
        RunEventPayloadView::RunFinished { outcome_ref } => finished_fault(
            records,
            snapshot,
            outcome_ref,
        ),
        RunEventPayloadView::ToolPlanned { call_ref } => planned_fault(records, snapshot, call_ref),
        RunEventPayloadView::ToolSettled { result_ref } => settled_fault(
            state,
            records,
            snapshot,
            messages,
            result_ref,
        ),
        RunEventPayloadView::ToolUnresolved {
            result_ref,
            attempt_id,
            idempotency_key,
        } => unresolved_fault(
            state,
            records,
            snapshot,
            messages,
            result_ref,
            attempt_id,
            idempotency_key,
        ),
        RunEventPayloadView::VerificationCompleted { verification_ref } => {
            verification_event_fault(records, snapshot, verification_ref)
        },
        RunEventPayloadView::RunWaiting { wait_ref, .. } => waiting_fault(
            records,
            snapshot,
            wait_ref,
        ),
        RunEventPayloadView::RunResumed { command_ref } => resumed_fault(
            state,
            records,
            snapshot,
            command_ref,
            event.timestamp_ms,
        ),
        RunEventPayloadView::ModelRouteSelected { invocation_ref, route_digest } => selected_fault(
            records,
            snapshot,
            invocation_ref,
            route_digest,
        ),
    }
}

fn check_payload(
    state: &ScopeState,
    records: &Records,
    snapshot: &RunSnapshot,
    admission: bool,
    messages: &Vec<Message>,
    event: &RunEvent,
    checks: &EventChecks,
    i: usize,
) -> (r: Result<(), ContractError>)
    ensures
        failure(r) == payload_fault(
            state@,
            records@,
            snapshot@,
            admission,
            messages.deep_view(),
            event@,
            reported_at(checks@.recovery, i as int),
            reported_at(checks@.context, i as int),
        ),
{
    reveal(payload_fault);
    match &event.payload {
        RunEventPayload::RunRecovered { .. } => check_report(&checks.recovery, i),
        RunEventPayload::ToolReconciled { .. } => Ok(()),
        RunEventPayload::ContextRewritten { revision_ref } => check_rewritten(
            records,
            snapshot,
            revision_ref,
            &checks.context,
            i,
        ),
        RunEventPayload::RunStarted { request_ref, profile_digest } => check_started(
            records,
            snapshot,
            admission,
            request_ref,
            profile_digest,
        ),
        RunEventPayload::RunInterrupted { outcome_ref, decision_ref } => check_interrupted(
            records,
            snapshot,
            outcome_ref,
            decision_ref,
        ),
        RunEventPayload::RunFinished { outcome_ref } => check_finished(
            records,
            snapshot,
            outcome_ref,
        ),
        RunEventPayload::ToolPlanned { call_ref } => check_planned(records, snapshot, call_ref),
        RunEventPayload::ToolSettled { result_ref } => check_settled(
            state,
            records,
            snapshot,
            messages,
            result_ref,
        ),
        RunEventPayload::ToolUnresolved { result_ref, attempt_id, idempotency_key } => {
            check_unresolved(
                state,
                records,
                snapshot,
                messages,
                result_ref,
                attempt_id,
                idempotency_key,
            )
        },
        RunEventPayload::VerificationCompleted { verification_ref } => verification_state::event(
            records,
            snapshot,
            verification_ref,
        ),
        RunEventPayload::RunWaiting { wait_ref, .. } => check_waiting(records, snapshot, wait_ref),
        RunEventPayload::RunResumed { command_ref } => check_resumed(
            state,
            records,
            snapshot,
            command_ref,
            event.timestamp_ms,
        ),
        RunEventPayload::ModelRouteSelected { invocation_ref, route_digest } => check_selected(
            records,
            snapshot,
            invocation_ref,
            route_digest,
        ),
    }
}

/// The events under an identifier.
pub open spec fn event_named(event_id: Seq<char>) -> spec_fn(RunEventView) -> bool {
    |event: RunEventView| event.event_id == event_id
}

/// Why the event at a position is refused.
pub open spec fn event_fault_at(
    state: ScopeStateView,
    records: Map<RecordKeyView, ProtectedRecordView>,
    snapshot: RunSnapshotView,
    previous_seq: u64,
    events: Seq<RunEventView>,
    admission: bool,
    messages: Seq<MessageView>,
    checks: EventChecksView,
) -> spec_fn(int) -> Option<Fault> {
    |i: int|
        {
            let event = events[i];
            let said = payload_fault(
                state,
                records,
                snapshot,
                admission,
                messages,
                event,
                reported_at(checks.recovery, i),
                reported_at(checks.context, i),
            );
            if previous_seq + i + 1 > u64::MAX {
                misreported("events.seq")
            } else if event.scope != snapshot.scope || event.run_id != snapshot.run_id
                || event.session_id != snapshot.request.session_id || event.seq != previous_seq + i
                + 1 || state.event_ids.contains(event.event_id) || some_in(
                events.take(i),
                event_named(event.event_id),
            ) {
                misreported("events")
            } else if said is Some {
                said
            } else {
                record_fault(records, subject_of(event.payload))
            }
        }
}

fn check_event(
    state: &ScopeState,
    records: &Records,
    snapshot: &RunSnapshot,
    previous_seq: u64,
    events: &Vec<RunEvent>,
    admission: bool,
    messages: &Vec<Message>,
    checks: &EventChecks,
    i: usize,
) -> (r: Result<(), ContractError>)
    requires
        i < events.len(),
    ensures
        failure(r) == event_fault_at(
            state@,
            records@,
            snapshot@,
            previous_seq,
            events.deep_view(),
            admission,
            messages.deep_view(),
            checks@,
        )(i as int),
        r is Ok ==> previous_seq + i + 1 <= u64::MAX,
{
    let event = &events[i];
    assert(event@ == events.deep_view()[i as int]);
    if i as u64 >= u64::MAX - previous_seq {
        return invalid("events.seq");
    }
    let expected: u64 = previous_seq + i as u64 + 1;
    let same = |other: &RunEvent| -> (b: bool)
        ensures
            b == event_named(event@.event_id)(other@),
    { other.event_id.same(&event.event_id) };
    if !event.scope.same(&snapshot.scope) || !event.run_id.same(&snapshot.run_id)
        || !event.session_id.same(&snapshot.request.session_id) || event.seq != expected
        || state.event_ids.contains(&event.event_id) || any_before(
        events,
        i,
        same,
        Ghost(event_named(event@.event_id)),
    ) {
        return invalid("events");
    }
    check_payload(state, records, snapshot, admission, messages, event, checks, i)?;
    records.check(subject(&event.payload))
}

/// Events of one kind.
pub open spec fn is_start() -> spec_fn(RunEventView) -> bool {
    |event: RunEventView| event.payload is RunStarted
}

/// Events of one kind.
pub open spec fn is_finish() -> spec_fn(RunEventView) -> bool {
    |event: RunEventView| event.payload is RunFinished
}

/// Events of one kind.
pub open spec fn is_interruption() -> spec_fn(RunEventView) -> bool {
    |event: RunEventView| event.payload is RunInterrupted
}

/// Events of one kind.
pub open spec fn is_resumption() -> spec_fn(RunEventView) -> bool {
    |event: RunEventView| event.payload is RunResumed
}

/// How many answers a checkpoint accepts.
pub open spec fn newly_accepted(previous: RunSnapshotView, next: RunSnapshotView) -> int {
    if next.resume_receipts.len() >= previous.resume_receipts.len() {
        next.resume_receipts.len() - previous.resume_receipts.len()
    } else {
        0
    }
}

/// Why new events do not add up to the checkpoint that they come with.
pub open spec fn balance_fault(
    state: ScopeStateView,
    snapshot: RunSnapshotView,
    previous_seq: u64,
    events: Seq<RunEventView>,
    admission: bool,
) -> Option<Fault> {
    if previous_seq + events.len() != snapshot.last_event_seq || (admission && (count_in(
        events,
        is_start(),
    ) != 1 || events.len() != 1)) || (terminal(snapshot.status) && count_in(events, is_finish())
        != 1) || (snapshot.status == RunStatus::Interrupted && count_in(events, is_interruption())
        != 1) {
        misreported("events")
    } else if admission {
        None
    } else if !state.runs.dom().contains(snapshot.run_id) {
        missing()
    } else if count_in(events, is_resumption()) != newly_accepted(
        state.runs[snapshot.run_id].snapshot,
        snapshot,
    ) {
        misreported("events")
    } else {
        None
    }
}

fn count_starts(events: &Vec<RunEvent>) -> (r: usize)
    ensures
        r == count_in(events.deep_view(), is_start()),
{
    let kind = |event: &RunEvent| -> (b: bool)
        ensures
            b == is_start()(event@),
    {
        match &event.payload {
            RunEventPayload::RunStarted { .. } => true,
            _ => false,
        }
    };
    count(events, kind, Ghost(is_start()))
}

fn count_finishes(events: &Vec<RunEvent>) -> (r: usize)
    ensures
        r == count_in(events.deep_view(), is_finish()),
{
    let kind = |event: &RunEvent| -> (b: bool)
        ensures
            b == is_finish()(event@),
    {
        match &event.payload {
            RunEventPayload::RunFinished { .. } => true,
            _ => false,
        }
    };
    count(events, kind, Ghost(is_finish()))
}

fn count_interruptions(events: &Vec<RunEvent>) -> (r: usize)
    ensures
        r == count_in(events.deep_view(), is_interruption()),
{
    let kind = |event: &RunEvent| -> (b: bool)
        ensures
            b == is_interruption()(event@),
    {
        match &event.payload {
            RunEventPayload::RunInterrupted { .. } => true,
            _ => false,
        }
    };
    count(events, kind, Ghost(is_interruption()))
}

fn count_resumptions(events: &Vec<RunEvent>) -> (r: usize)
    ensures
        r == count_in(events.deep_view(), is_resumption()),
{
    let kind = |event: &RunEvent| -> (b: bool)
        ensures
            b == is_resumption()(event@),
    {
        match &event.payload {
            RunEventPayload::RunResumed { .. } => true,
            _ => false,
        }
    };
    count(events, kind, Ghost(is_resumption()))
}

fn check_balance(
    state: &ScopeState,
    snapshot: &RunSnapshot,
    previous_seq: u64,
    events: &Vec<RunEvent>,
    admission: bool,
) -> (r: Result<(), ContractError>)
    requires
        previous_seq + events.len() <= u64::MAX,
    ensures
        failure(r) == balance_fault(
            state@,
            snapshot@,
            previous_seq,
            events.deep_view(),
            admission,
        ),
{
    assert(events.deep_view().len() == events.len());
    let sequence: u64 = previous_seq + events.len() as u64;
    if sequence != snapshot.last_event_seq || (admission && (count_starts(events) != 1
        || events.len() != 1)) || (snapshot.status.is_terminal() && count_finishes(events) != 1)
        || (snapshot.status == RunStatus::Interrupted && count_interruptions(events) != 1) {
        return invalid("events");
    }
    if admission {
        return Ok(());
    }
    let run = state.run(&snapshot.run_id)?;
    let before: usize = run.snapshot.resume_receipts.len();
    let after: usize = snapshot.resume_receipts.len();
    assert(run@.snapshot.resume_receipts.len() == before);
    assert(snapshot@.resume_receipts.len() == after);
    let accepted: usize = if after >= before {
        after - before
    } else {
        0
    };
    if count_resumptions(events) != accepted {
        return invalid("events");
    }
    Ok(())
}

/// The ledger entries of a call.
pub open spec fn entry_of_call(call_id: Seq<char>) -> spec_fn(ToolLedgerEntryView) -> bool {
    |entry: ToolLedgerEntryView| entry.call.call_id == call_id
}

/// A message is a correction of a call's result, and of nothing else.
pub open spec fn sole_correction(call_id: Seq<char>) -> spec_fn(MessageView) -> bool {
    |message: MessageView|
        message.content.len() == 1 && (message.content[0] matches
            ContentBlockView::ToolResultCorrection { result, .. } && result.call_id == call_id)
}

/// Such a message that reconciliation accounts for.
pub open spec fn reconciled_correction(call_id: Seq<char>, reconciled: Seq<Seq<char>>) -> spec_fn(
    MessageView,
) -> bool {
    |message: MessageView|
        reconciled.contains(message.message_id) && sole_correction(call_id)(message)
}

/// Why an unresolved call was settled without a correction.
pub open spec fn resolution_fault(
    previous: RunSnapshotView,
    snapshot: RunSnapshotView,
    messages: Seq<MessageView>,
    reconciled: Seq<Seq<char>>,
) -> spec_fn(ToolLedgerEntryView) -> Option<Fault> {
    |old: ToolLedgerEntryView|
        {
            let call_id = old.call.call_id;
            match first_in(snapshot.tool_ledger, entry_of_call(call_id)) {
                None => None,
                Some(new) => if !(old.state is Unknown) || !(new.state is Settled) || some_in(
                    messages,
                    reconciled_correction(call_id, reconciled),
                ) {
                    None
                } else if !accepts_external(snapshot) || !waits_for_external(previous, call_id)
                    || !some_in(messages, sole_correction(call_id)) {
                    misreported("events.tool_correction_missing")
                } else {
                    None
                },
            }
        }
}

fn is_sole_correction(message: &Message, call_id: &Id) -> (r: bool)
    ensures
        r == sole_correction(call_id@)(message@),
{
    assert(message@.content.len() == message.content.len());
    if message.content.len() != 1 {
        return false;
    }
    assert(message@.content[0] == message.content@[0]@);
    match &message.content[0] {
        ContentBlock::ToolResultCorrection { result, .. } => result.call_id.same(call_id),
        _ => false,
    }
}

fn check_resolution(
    previous: &RunSnapshot,
    snapshot: &RunSnapshot,
    messages: &Vec<Message>,
    reconciled: &Vec<Id>,
    old: &ToolLedgerEntry,
) -> (r: Result<(), ContractError>)
    ensures
        failure(r) == resolution_fault(
            previous@,
            snapshot@,
            messages.deep_view(),
            reconciled.deep_view(),
        )(old@),
{
    let call_id = &old.call.call_id;
    let same = |entry: &ToolLedgerEntry| -> (b: bool)
        ensures
            b == entry_of_call(call_id@)(entry@),
    { entry.call.call_id.same(call_id) };
    let new = match find(&snapshot.tool_ledger, same, Ghost(entry_of_call(call_id@))) {
        Some(new) => new,
        None => {
            return Ok(());
        },
    };
    let was_unknown = match &old.state {
        ToolCallState::Unknown { .. } => true,
        _ => false,
    };
    let is_settled = match &new.state {
        ToolCallState::Settled { .. } => true,
        _ => false,
    };
    let accounted = |message: &Message| -> (b: bool)
        ensures
            b == reconciled_correction(call_id@, reconciled.deep_view())(message@),
    { contains(reconciled, &message.message_id) && is_sole_correction(message, call_id) };
    if !was_unknown || !is_settled || any(
        messages,
        accounted,
        Ghost(reconciled_correction(call_id@, reconciled.deep_view())),
    ) {
        return Ok(());
    }
    let corrected = |message: &Message| -> (b: bool)
        ensures
            b == sole_correction(call_id@)(message@),
    { is_sole_correction(message, call_id) };
    if !is_accepting_external(snapshot) || !is_waiting_for_external(previous, call_id) || !any(
        messages,
        corrected,
        Ghost(sole_correction(call_id@)),
    ) {
        return invalid("events.tool_correction_missing");
    }
    Ok(())
}

/// The call that a wait is about, with the request that it waits for.
pub open spec fn awaited(target: WaitTargetView) -> Option<(Seq<char>, Option<InputRequestView>)> {
    match target {
        WaitTargetView::Input { request } => Some((request.call_id, Some(request))),
        WaitTargetView::Approval { target } => match target {
            ApprovalTargetView::Tool { call_id, .. } => Some((call_id, None)),
            _ => None,
        },
        _ => None,
    }
}

/// Why the call that was waited for is not in the state of a call that is waited for.
pub open spec fn awaited_fault(
    previous: RunSnapshotView,
    call_id: Seq<char>,
    input: Option<InputRequestView>,
) -> Option<Fault> {
    match first_in(previous.tool_ledger, entry_of_call(call_id)) {
        None => fault(ErrorCode::InvalidSnapshot, "resume.call"),
        Some(old) => if (match input {
            Some(request) => old.state matches ToolCallStateView::InputPending {
                request: pending,
                ..
            } && pending == request,
            None => old.state is Planned || old.state is ApprovalPending,
        }) {
            None
        } else {
            fault(ErrorCode::InvalidTransition, "resume.call_state")
        },
    }
}

/// Why a resumption does not fit what was waited for.
pub open spec fn resume_target_fault(
    previous: RunSnapshotView,
    snapshot: RunSnapshotView,
) -> Option<Fault> {
    if final_of(snapshot.resume_receipts) matches Some(receipt) && receipt.accepted_revision
        == snapshot.revision {
        match previous.wait {
            None => missing(),
            Some(wait) => match awaited(wait.target) {
                None => None,
                Some((call_id, input)) => awaited_fault(previous, call_id, input),
            },
        }
    } else {
        None
    }
}

fn check_awaited(
    previous: &RunSnapshot,
    call_id: &Id,
    input: Option<&crate::content::InputRequest>,
) -> (r: Result<(), ContractError>)
    ensures
        failure(r) == awaited_fault(previous@, call_id@, input.deep_view()),
{
    let same = |entry: &ToolLedgerEntry| -> (b: bool)
        ensures
            b == entry_of_call(call_id@)(entry@),
    { entry.call.call_id.same(call_id) };
    let old = match find(&previous.tool_ledger, same, Ghost(entry_of_call(call_id@))) {
        Some(old) => old,
        None => {
            return fail(ErrorCode::InvalidSnapshot, "resume.call");
        },
    };
    let fits = match input {
        Some(request) => match &old.state {
            ToolCallState::InputPending { request: pending, .. } => pending.same(request),
            _ => false,
        },
        None => match &old.state {
            ToolCallState::Planned => true,
            ToolCallState::ApprovalPending { .. } => true,
            _ => false,
        },
    };
    if !fits {
        return fail(ErrorCode::InvalidTransition, "resume.call_state");
    }
    Ok(())
}

fn check_resume_target(previous: &RunSnapshot, snapshot: &RunSnapshot) -> (r: Result<
    (),
    ContractError,
>)
    ensures
        failure(r) == resume_target_fault(previous@, snapshot@),
{
    let is_accepted = match last(&snapshot.resume_receipts) {
        Some(receipt) => receipt.accepted_revision == snapshot.revision,
        None => false,
    };
    if !is_accepted {
        return Ok(());
    }
    let wait = match &previous.wait {
        Some(wait) => wait,
        None => {
            return not_found();
        },
    };
    match &wait.target {
        WaitTarget::Input { request } => check_awaited(previous, &request.call_id, Some(request)),
        WaitTarget::Approval { target } => match target {
            ApprovalTarget::Tool { call_id, .. } => check_awaited(previous, call_id, None),
            _ => Ok(()),
        },
        _ => Ok(()),
    }
}

/// Why new events do not continue the history of a run.
pub open spec fn continuation_fault(
    state: ScopeStateView,
    records: Map<RecordKeyView, ProtectedRecordView>,
    snapshot: RunSnapshotView,
    events: Seq<RunEventView>,
    messages: Seq<MessageView>,
    reconciled: Seq<Seq<char>>,
) -> Option<Fault> {
    let run = state.runs[snapshot.run_id];
    if !state.runs.dom().contains(snapshot.run_id) {
        missing()
    } else {
        or_else(
            interruption_events_fault(records, snapshot, run.events + events),
            or_else(
                first_fault(
                    run.snapshot.tool_ledger,
                    resolution_fault(run.snapshot, snapshot, messages, reconciled),
                ),
                resume_target_fault(run.snapshot, snapshot),
            ),
        )
    }
}

fn check_continuation(
    state: &ScopeState,
    records: &Records,
    snapshot: &RunSnapshot,
    events: &Vec<RunEvent>,
    messages: &Vec<Message>,
    reconciled: &Vec<Id>,
) -> (r: Result<(), ContractError>)
    ensures
        failure(r) == continuation_fault(
            state@,
            records@,
            snapshot@,
            events.deep_view(),
            messages.deep_view(),
            reconciled.deep_view(),
        ),
{
    let run = state.run(&snapshot.run_id)?;
    let history = joined(&run.events, events);
    interruption_state::validate_history_events(records, snapshot, &history)?;
    let previous = &run.snapshot;
    let resolved = |old: &ToolLedgerEntry| -> (r: Result<(), ContractError>)
        ensures
            failure(r) == resolution_fault(
                previous@,
                snapshot@,
                messages.deep_view(),
                reconciled.deep_view(),
            )(old@),
    { check_resolution(previous, snapshot, messages, reconciled, old) };
    check_each(
        &previous.tool_ledger,
        resolved,
        Ghost(
            resolution_fault(
                previous@,
                snapshot@,
                messages.deep_view(),
                reconciled.deep_view(),
            ),
        ),
    )?;
    check_resume_target(previous, snapshot)
}

/// Why the events that a checkpoint comes with are refused.
pub open spec fn events_fault(
    state: ScopeStateView,
    records: Map<RecordKeyView, ProtectedRecordView>,
    snapshot: RunSnapshotView,
    previous_seq: u64,
    events: Seq<RunEventView>,
    admission: bool,
    messages: Seq<MessageView>,
    checks: EventChecksView,
) -> Option<Fault> {
    or_else(
        checks.corrections,
        or_else(
            first_fault(
                messages,
                corrections_fault(state, records, snapshot, events, checks.reconciled),
            ),
            or_else(
                first_index_fault(
                    0,
                    events.len() as int,
                    event_fault_at(
                        state,
                        records,
                        snapshot,
                        previous_seq,
                        events,
                        admission,
                        messages,
                        checks,
                    ),
                ),
                or_else(
                    balance_fault(state, snapshot, previous_seq, events, admission),
                    if admission {
                        None
                    } else {
                        continuation_fault(
                            state,
                            records,
                            snapshot,
                            events,
                            messages,
                            checks.reconciled,
                        )
                    },
                ),
            ),
        ),
    )
}

fn check_each_event(
    state: &ScopeState,
    records: &Records,
    snapshot: &RunSnapshot,
    previous_seq: u64,
    events: &Vec<RunEvent>,
    admission: bool,
    messages: &Vec<Message>,
    checks: &EventChecks,
) -> (r: Result<(), ContractError>)
    ensures
        failure(r) == first_index_fault(
            0,
            events.len() as int,
            event_fault_at(
                state@,
                records@,
                snapshot@,
                previous_seq,
                events.deep_view(),
                admission,
                messages.deep_view(),
                checks@,
            ),
        ),
        r is Ok ==> previous_seq + events.len() <= u64::MAX,
{
    let ghost f = event_fault_at(
        state@,
        records@,
        snapshot@,
        previous_seq,
        events.deep_view(),
        admission,
        messages.deep_view(),
        checks@,
    );
    let ghost n = events.len() as int;
    let mut i: usize = 0;
    while i < events.len()
        invariant
            i <= events.len(),
            n == events.len(),
            f == event_fault_at(
                state@,
                records@,
                snapshot@,
                previous_seq,
                events.deep_view(),
                admission,
                messages.deep_view(),
                checks@,
            ),
            previous_seq + i <= u64::MAX,
            first_index_fault(0, n, f) == first_index_fault(i as int, n, f),
        decreases events.len() - i,
    {
        check_event(
            state,
            records,
            snapshot,
            previous_seq,
            events,
            admission,
            messages,
            checks,
            i,
        )?;
        i = i + 1;
    }
    Ok(())
}

/// Hold the new events of a run against the checkpoint, the records and the messages that they
/// come with. `checks` carries what the keepers of other parts reported.
pub fn validate_events(
    state: &ScopeState,
    records: &Records,
    snapshot: &RunSnapshot,
    previous_seq: u64,
    events: &Vec<RunEvent>,
    admission: bool,
    messages: &Vec<Message>,
    checks: &EventChecks,
) -> (r: Result<(), ContractError>)
    ensures
        failure(r) == events_fault(
            state@,
            records@,
            snapshot@,
            previous_seq,
            events.deep_view(),
            admission,
            messages.deep_view(),
            checks@,
        ),
{
    verdict(&checks.corrections)?;
    check_corrections(state, records, snapshot, events, messages, &checks.reconciled)?;
    assert(events.deep_view().len() == events.len());
    check_each_event(
        state,
        records,
        snapshot,
        previous_seq,
        events,
        admission,
        messages,
        checks,
    )?;
    check_balance(state, snapshot, previous_seq, events, admission)?;
    if admission {
        return Ok(());
    }
    check_continuation(state, records, snapshot, events, messages, &checks.reconciled)
}

/// Accepted events belong to the run, follow the last one without a gap up to the one that the
/// checkpoint names, and have identifiers that no earlier event has.
pub proof fn law_events_are_numbered_without_a_gap(
    state: ScopeStateView,
    records: Map<RecordKeyView, ProtectedRecordView>,
    snapshot: RunSnapshotView,
    previous_seq: u64,
    events: Seq<RunEventView>,
    admission: bool,
    messages: Seq<MessageView>,
    checks: EventChecksView,
)
    requires
        events_fault(
            state,
            records,
            snapshot,
            previous_seq,
            events,
            admission,
            messages,
            checks,
        ) is None,
    ensures
        snapshot.last_event_seq == previous_seq + events.len(),
        forall|i: int|
            0 <= i < events.len() ==> (#[trigger] events[i]).seq == previous_seq + i + 1
                && events[i].run_id == snapshot.run_id && events[i].scope == snapshot.scope
                && events[i].session_id == snapshot.request.session_id && !state.event_ids.contains(
                events[i].event_id,
            ),
        forall|i: int, j: int|
            0 <= i < j < events.len() ==> (#[trigger] events[i]).event_id != (
            #[trigger] events[j]).event_id,
{
    let f = event_fault_at(
        state,
        records,
        snapshot,
        previous_seq,
        events,
        admission,
        messages,
        checks,
    );
    crate::data::lemma_first_index_fault(0, events.len() as int, f);
    assert forall|i: int| 0 <= i < events.len() implies (#[trigger] events[i]).seq == previous_seq
        + i + 1 && events[i].run_id == snapshot.run_id && events[i].scope == snapshot.scope
        && events[i].session_id == snapshot.request.session_id && !state.event_ids.contains(
        events[i].event_id,
    ) by {
        assert(f(i) is None);
    }
    assert forall|i: int, j: int| 0 <= i < j < events.len() implies (
    #[trigger] events[i]).event_id != (#[trigger] events[j]).event_id by {
        assert(f(j) is None);
        assert(events.take(j)[i] == events[i]);
        assert(!event_named(events[j].event_id)(events.take(j)[i]));
    }
}

/// What events say of a run is so: the run ended where its end is reported, waits where a wait is,
/// is interrupted where an interruption is, and starts only where it is admitted. What is said of
/// a tool call stands in the ledger.
pub proof fn law_events_say_what_is_so(
    state: ScopeStateView,
    records: Map<RecordKeyView, ProtectedRecordView>,
    snapshot: RunSnapshotView,
    previous_seq: u64,
    events: Seq<RunEventView>,
    admission: bool,
    messages: Seq<MessageView>,
    checks: EventChecksView,
    i: int,
)
    requires
        events_fault(
            state,
            records,
            snapshot,
            previous_seq,
            events,
            admission,
            messages,
            checks,
        ) is None,
        0 <= i < events.len(),
    ensures
        events[i].payload is RunStarted ==> admission,
        events[i].payload is RunFinished ==> terminal(snapshot.status) && snapshot.outcome is Some,
        events[i].payload is RunWaiting ==> snapshot.status == RunStatus::Waiting && snapshot.wait
            is Some,
        events[i].payload is RunInterrupted ==> snapshot.status == RunStatus::Interrupted
            && snapshot.outcome is Some,
        events[i].payload is RunResumed ==> snapshot.status == RunStatus::Running
            && state.runs.dom().contains(snapshot.run_id) && snapshot.resume_receipts.len() > 0
            && snapshot.resume_receipts.last().accepted_revision == snapshot.revision
            && snapshot.resume_receipts.last().command.run_id == snapshot.run_id
            && snapshot.resume_receipts.last().command.expected_revision
            == state.runs[snapshot.run_id].snapshot.revision && events[i].timestamp_ms
            == snapshot.timing.last_observed_at_ms,
        events[i].payload matches RunEventPayloadView::ToolPlanned { call_ref } ==> exists|k: int|
            0 <= k < snapshot.tool_ledger.len() && (#[trigger] snapshot.tool_ledger[k]).call
                == value_at::<ToolCall>(records, call_ref),
        events[i].payload matches RunEventPayloadView::ToolSettled { result_ref } ==> exists|k: int|
            0 <= k < snapshot.tool_ledger.len() && (#[trigger] snapshot.tool_ledger[k]).state
                == (ToolCallStateView::Settled {
                result: value_at::<ToolResult>(records, result_ref),
            }),
        events[i].payload matches RunEventPayloadView::ToolUnresolved {
            result_ref,
            attempt_id,
            idempotency_key,
        } ==> value_at::<ToolResult>(records, result_ref).status == ToolResultStatus::Unknown
            && value_at::<ToolResult>(records, result_ref).effect == ToolEffect::Unknown && exists|
            k: int,
        |
            0 <= k < snapshot.tool_ledger.len() && (#[trigger] snapshot.tool_ledger[k]).state
                == (ToolCallStateView::Unknown { attempt_id, idempotency_key }),
{
    reveal(payload_fault);
    let f = event_fault_at(
        state,
        records,
        snapshot,
        previous_seq,
        events,
        admission,
        messages,
        checks,
    );
    crate::data::lemma_first_index_fault(0, events.len() as int, f);
    assert(f(i) is None);
    let ledger = snapshot.tool_ledger;
    match events[i].payload {
        RunEventPayloadView::ToolPlanned { call_ref } => {
            let p = plans(value_at::<ToolCall>(records, call_ref));
            let k = choose|k: int| 0 <= k < ledger.len() && p(#[trigger] ledger[k]);
            assert(p(ledger[k]));
        },
        RunEventPayloadView::ToolSettled { result_ref } => {
            let p = settled_with(value_at::<ToolResult>(records, result_ref));
            let k = choose|k: int| 0 <= k < ledger.len() && p(#[trigger] ledger[k]);
            assert(p(ledger[k]));
        },
        RunEventPayloadView::ToolUnresolved { result_ref, attempt_id, idempotency_key } => {
            let result = value_at::<ToolResult>(records, result_ref);
            let p = unresolved_under(result.call_id, attempt_id, idempotency_key);
            let k = choose|k: int| 0 <= k < ledger.len() && p(#[trigger] ledger[k]);
            assert(p(ledger[k]));
        },
        _ => {},
    }
}

/// What happens to a run is reported once: its admission by the only event that it comes with, its end
/// and its interruption by one event each.
pub proof fn law_ends_are_reported_once(
    state: ScopeStateView,
    records: Map<RecordKeyView, ProtectedRecordView>,
    snapshot: RunSnapshotView,
    previous_seq: u64,
    events: Seq<RunEventView>,
    admission: bool,
    messages: Seq<MessageView>,
    checks: EventChecksView,
)
    requires
        events_fault(
            state,
            records,
            snapshot,
            previous_seq,
            events,
            admission,
            messages,
            checks,
        ) is None,
    ensures
        admission ==> events.len() == 1 && events[0].payload is RunStarted,
        terminal(snapshot.status) ==> exists|i: int|
            0 <= i < events.len() && (#[trigger] events[i]).payload is RunFinished && forall|k: int|
                0 <= k < events.len() && k != i ==> !((#[trigger] events[k]).payload is RunFinished),
        snapshot.status == RunStatus::Interrupted ==> exists|i: int|
            0 <= i < events.len() && (#[trigger] events[i]).payload is RunInterrupted && forall|
                k: int,
            |
                0 <= k < events.len() && k != i ==> !((
                #[trigger] events[k]).payload is RunInterrupted),
{
    if admission {
        let i = crate::data::lemma_counted_once(events, is_start());
        assert(is_start()(events[i]));
    }
    if terminal(snapshot.status) {
        let i = crate::data::lemma_counted_once(events, is_finish());
        assert(is_finish()(events[i]));
        assert forall|k: int| 0 <= k < events.len() && k != i implies !((
        #[trigger] events[k]).payload is RunFinished) by {
            assert(!is_finish()(events[k]));
        }
    }
    if snapshot.status == RunStatus::Interrupted {
        let i = crate::data::lemma_counted_once(events, is_interruption());
        assert(is_interruption()(events[i]));
        assert forall|k: int| 0 <= k < events.len() && k != i implies !((
        #[trigger] events[k]).payload is RunInterrupted) by {
            assert(!is_interruption()(events[k]));
        }
    }
}

} // verus!
