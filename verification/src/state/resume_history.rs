//! The history of accepted answers: each wait, what settled it, and what the transcript shows.
use vstd::prelude::*;

use crate::content::{
    ContentBlock, InputContent, Message, ToolCallState, ToolEffect, ToolLedgerEntry, ToolResult,
    ToolResultStatus,
};
#[allow(unused_imports)]
use crate::content::{
    ContentBlockView, InputContentView, MessageView, ToolLedgerEntryView, ToolResultView,
};
use crate::data::{any, check_each, contains, find, find_last, keep, Data};
#[allow(unused_imports)]
use crate::data::{count_in, first_fault, first_in, first_index_fault, kept, last_in, some_in};
use crate::error::{fail, verdict, ContractError, ErrorCode};
#[allow(unused_imports)]
use crate::error::{failure, fault, Fault};
use crate::json::Json;
#[allow(unused_imports)]
use crate::json::{get_of, JsonView};
use crate::refs::RecordRef;
#[allow(unused_imports)]
use crate::refs::{key_of, RecordKeyView, RecordRefView};
use crate::run::{
    ApprovalTarget, OutcomeResult, ResumeAction, ResumeReceipt, RunEvent, RunEventPayload,
    RunOutcome, RunSnapshot, WaitState, WaitTarget,
};
#[allow(unused_imports)]
use crate::run::{
    ApprovalTargetView, OutcomeResultView, ResumeActionView, ResumeReceiptView, RunEventPayloadView,
    RunEventView, RunSnapshotView, WaitStateView, WaitTargetView,
};
use crate::serialization::{Id, JsonDigest};
#[allow(unused_imports)]
use crate::state::events::{entry_of_call, is_resumption, settled_with};
use crate::state::messages::validate_resume_result_message;
#[allow(unused_imports)]
use crate::state::messages::reports_result;
use crate::state::records::Records;
#[allow(unused_imports)]
use crate::state::records::{event_fault, record_fault, value_at, ProtectedRecordView};

verus! {

/// What the accepted answers have accounted for so far.
#[derive(Debug)]
pub struct ResumeProgress {
    /// Sequence number of the latest resumption.
    pub previous_seq: u64,
    /// Calls whose results were corrected.
    pub corrected: Vec<Id>,
    /// Messages that may correct a result.
    pub authorized: Vec<Id>,
}

#[verifier::ext_equal]
pub struct ResumeProgressView {
    pub previous_seq: u64,
    pub corrected: Seq<Seq<char>>,
    pub authorized: Seq<Seq<char>>,
}

impl View for ResumeProgress {
    type V = ResumeProgressView;

    open spec fn view(&self) -> ResumeProgressView {
        ResumeProgressView {
            previous_seq: self.previous_seq.deep_view(),
            corrected: self.corrected.deep_view(),
            authorized: self.authorized.deep_view(),
        }
    }
}

impl DeepView for ResumeProgress {
    type V = ResumeProgressView;

    open spec fn deep_view(&self) -> ResumeProgressView {
        self@
    }
}

impl Data for ResumeProgress {
    fn same(&self, other: &Self) -> (r: bool) {
        self.previous_seq.same(&other.previous_seq)
            && self.corrected.same(&other.corrected)
            && self.authorized.same(&other.authorized)
    }

    fn copy(&self) -> (r: Self) {
        ResumeProgress {
            previous_seq: self.previous_seq.copy(),
            corrected: self.corrected.copy(),
            authorized: self.authorized.copy(),
        }
    }
}


/// A run with its complete events and transcript.
pub struct Replayed<'a> {
    pub records: Records<'a>,
    pub snapshot: &'a RunSnapshot,
    pub events: &'a Vec<RunEvent>,
    pub messages: &'a Vec<Message>,
}

/// A run with its complete events and transcript.
pub struct ReplayedView {
    pub records: Map<RecordKeyView, ProtectedRecordView>,
    pub snapshot: RunSnapshotView,
    pub events: Seq<RunEventView>,
    pub messages: Seq<MessageView>,
}

impl<'a> View for Replayed<'a> {
    type V = ReplayedView;

    open spec fn view(&self) -> ReplayedView {
        ReplayedView {
            records: self.records@,
            snapshot: self.snapshot@,
            events: self.events.deep_view(),
            messages: self.messages.deep_view(),
        }
    }
}

/// The failure of a history.
pub open spec fn broken() -> Option<Fault> {
    fault(ErrorCode::InvalidSnapshot, "resume.history")
}

fn invalid<T>() -> (r: Result<T, ContractError>)
    ensures
        r is Err,
        failure(r) == broken(),
{
    fail(ErrorCode::InvalidSnapshot, "resume.history")
}

/// Why an approved call is not bound as it was when it was approved.
pub open spec fn resume_binding_fault(
    records: Map<RecordKeyView, ProtectedRecordView>,
    snapshot: RunSnapshotView,
    call_id: Seq<char>,
    binding_digest: Seq<char>,
) -> Option<Fault> {
    match first_in(snapshot.tool_ledger, entry_of_call(call_id)) {
        None => fault(ErrorCode::InvalidSnapshot, "resume.binding"),
        Some(entry) => match entry.call.bound_input_ref {
            None => fault(ErrorCode::InvalidSnapshot, "resume.binding"),
            Some(reference) => if record_fault(records, reference) is Some {
                record_fault(records, reference)
            } else if get_of(records[key_of(reference)].value, "binding_digest"@) != Some(
                JsonView::Text(binding_digest),
            ) {
                fault(ErrorCode::InvalidSnapshot, "resume.binding")
            } else {
                None
            },
        },
    }
}

/// Check that an approved call is still bound as it was when it was approved.
pub fn validate_resume_binding(
    records: &Records,
    snapshot: &RunSnapshot,
    call_id: &Id,
    binding_digest: &JsonDigest,
) -> (r: Result<(), ContractError>)
    ensures
        failure(r) == resume_binding_fault(records@, snapshot@, call_id@, binding_digest@),
{
    let same = |entry: &ToolLedgerEntry| -> (b: bool)
        ensures
            b == entry_of_call(call_id@)(entry@),
    { entry.call.call_id.same(call_id) };
    let entry = match find(&snapshot.tool_ledger, same, Ghost(entry_of_call(call_id@))) {
        Some(entry) => entry,
        None => {
            return fail(ErrorCode::InvalidSnapshot, "resume.binding");
        },
    };
    let reference = match &entry.call.bound_input_ref {
        Some(reference) => reference,
        None => {
            return fail(ErrorCode::InvalidSnapshot, "resume.binding");
        },
    };
    let record = records.record(reference)?;
    let is_bound = match record.value().get("binding_digest") {
        Some(value) => value.is_text(binding_digest.as_str()),
        None => false,
    };
    if !is_bound {
        return fail(ErrorCode::InvalidSnapshot, "resume.binding");
    }
    Ok(())
}

/// The events at a sequence number.
pub open spec fn at_seq(seq: u64) -> spec_fn(RunEventView) -> bool {
    |event: RunEventView| event.seq == seq
}

/// The events between two sequence numbers.
pub open spec fn between(from: u64, to: u64) -> spec_fn(RunEventView) -> bool {
    |event: RunEventView| from < event.seq && event.seq < to
}

/// A time has passed an optional deadline.
pub open spec fn passed(time: i64, deadline: Option<i64>) -> bool {
    deadline matches Some(deadline) && time >= deadline
}

/// A resumption does not follow the wait that its receipt names.
pub open spec fn out_of_order(
    h: ReplayedView,
    previous_seq: u64,
    event: RunEventView,
    receipt: ResumeReceiptView,
) -> bool {
    ||| event.payload != (RunEventPayloadView::RunResumed { command_ref: receipt.command_ref })
    ||| event.seq <= receipt.previous_last_event_seq
    ||| receipt.previous_last_event_seq <= previous_seq
    ||| event.timestamp_ms > h.snapshot.timing.last_observed_at_ms
}

/// The wait that a receipt answers.
pub open spec fn answered(h: ReplayedView, receipt: ResumeReceiptView) -> Option<WaitStateView> {
    match value_at::<RunOutcome>(h.records, receipt.previous_outcome_ref).result {
        OutcomeResultView::Waiting { wait } => Some(wait),
        _ => None,
    }
}

/// Why the wait that a receipt answers is not the one that was reported.
pub open spec fn wait_fault(
    h: ReplayedView,
    event: RunEventView,
    receipt: ResumeReceiptView,
) -> Option<Fault> {
    if event_fault::<RunOutcome>(h.records, receipt.previous_outcome_ref) is Some {
        event_fault::<RunOutcome>(h.records, receipt.previous_outcome_ref)
    } else {
        match (
            answered(h, receipt),
            first_in(h.events, at_seq(receipt.previous_last_event_seq)),
        ) {
            (Some(wait), Some(waiting)) => match waiting.payload {
                RunEventPayloadView::RunWaiting { wait_ref, .. } => if event_fault::<WaitState>(
                    h.records,
                    wait_ref,
                ) is Some {
                    event_fault::<WaitState>(h.records, wait_ref)
                } else if value_at::<WaitState>(h.records, wait_ref) != wait || receipt.expired != (
                event.timestamp_ms >= h.snapshot.timing.deadline_at_ms || passed(
                    event.timestamp_ms,
                    wait.expires_at_ms,
                )) || waiting.timestamp_ms > event.timestamp_ms {
                    broken()
                } else {
                    None
                },
                _ => broken(),
            },
            _ => broken(),
        }
    }
}

fn is_out_of_order(
    h: &Replayed,
    previous_seq: u64,
    event: &RunEvent,
    receipt: &ResumeReceipt,
) -> (r: bool)
    ensures
        r == out_of_order(h@, previous_seq, event@, receipt@),
{
    let names_command = match &event.payload {
        RunEventPayload::RunResumed { command_ref } => command_ref.same(&receipt.command_ref),
        _ => false,
    };
    !names_command || event.seq <= receipt.previous_last_event_seq
        || receipt.previous_last_event_seq <= previous_seq || event.timestamp_ms
        > h.snapshot.timing.last_observed_at_ms
}

fn find_wait<'a>(h: &Replayed<'a>, event: &RunEvent, receipt: &ResumeReceipt) -> (r: Result<
    &'a WaitState,
    ContractError,
>)
    ensures
        failure(r) == wait_fault(h@, event@, receipt@),
        r matches Ok(wait) ==> answered(h@, receipt@) == Some(wait@),
{
    let prior = h.records.event_record::<RunOutcome>(&receipt.previous_outcome_ref)?;
    let wait = match &prior.result {
        OutcomeResult::Waiting { wait } => wait,
        _ => {
            return invalid();
        },
    };
    let here = |event: &RunEvent| -> (b: bool)
        ensures
            b == at_seq(receipt@.previous_last_event_seq)(event@),
    { event.seq == receipt.previous_last_event_seq };
    let waiting = match find(
        h.events,
        here,
        Ghost(at_seq(receipt@.previous_last_event_seq)),
    ) {
        Some(waiting) => waiting,
        None => {
            return invalid();
        },
    };
    let wait_ref = match &waiting.payload {
        RunEventPayload::RunWaiting { wait_ref, .. } => wait_ref,
        _ => {
            return invalid();
        },
    };
    let saved = h.records.event_record::<WaitState>(wait_ref)?;
    let is_past = match wait.expires_at_ms {
        Some(deadline) => event.timestamp_ms >= deadline,
        None => false,
    };
    let expired = event.timestamp_ms >= h.snapshot.timing.deadline_at_ms || is_past;
    if !saved.same(wait) || receipt.expired != expired || waiting.timestamp_ms
        > event.timestamp_ms {
        return invalid();
    }
    Ok(wait)
}

/// An answer that only permits something: what it permits happens after it.
pub open spec fn permits(receipt: ResumeReceiptView, target: WaitTargetView) -> bool {
    ||| receipt.command.action is Approve
    ||| target matches WaitTargetView::Approval { target } && target is Candidate
}

fn is_permitting(receipt: &ResumeReceipt, target: &WaitTarget) -> (r: bool)
    ensures
        r == permits(receipt@, target@),
{
    let is_approval = match &receipt.command.action {
        ResumeAction::Approve { .. } => true,
        _ => false,
    };
    let is_candidate = match target {
        WaitTarget::Approval { target } => match target {
            ApprovalTarget::Candidate { .. } => true,
            _ => false,
        },
        _ => false,
    };
    is_approval || is_candidate
}

/// Why an answer that only permits something is refused.
pub open spec fn permission_fault(
    h: ReplayedView,
    target: WaitTargetView,
    intervening: Seq<RunEventView>,
) -> Option<Fault> {
    if intervening.len() > 0 {
        broken()
    } else {
        match target {
            WaitTargetView::Approval { target } => match target {
                ApprovalTargetView::Tool { call_id, binding_digest } => resume_binding_fault(
                    h.records,
                    h.snapshot,
                    call_id,
                    binding_digest,
                ),
                _ => None,
            },
            _ => None,
        }
    }
}

/// The failure of a result that the transcript does not show exactly once.
pub open spec fn shown_once_fault(h: ReplayedView, result: ToolResultView) -> Option<Fault> {
    if count_in(h.messages, reports_result(h.snapshot, result)) == 1 {
        None
    } else {
        fault(ErrorCode::InvalidSnapshot, "resume.result_message")
    }
}

/// Why the result of an answered question is refused.
pub open spec fn input_fault(
    h: ReplayedView,
    call_id: Seq<char>,
    answer: JsonView,
    result: ToolResultView,
) -> Option<Fault> {
    if result.call_id != call_id || result.status != ToolResultStatus::Succeeded || result.effect
        != ToolEffect::NotApplied || result.content != seq![
        InputContentView::Json { value: answer },
    ] || result.error is Some || result.effect_receipt_ref is Some {
        broken()
    } else {
        shown_once_fault(h, result)
    }
}

/// Why the result of a denied call is refused.
pub open spec fn denial_fault(
    h: ReplayedView,
    call_id: Seq<char>,
    binding_digest: Seq<char>,
    result: ToolResultView,
) -> Option<Fault> {
    if resume_binding_fault(h.records, h.snapshot, call_id, binding_digest) is Some {
        resume_binding_fault(h.records, h.snapshot, call_id, binding_digest)
    } else if result.call_id != call_id || result.status != ToolResultStatus::Denied
        || result.effect != ToolEffect::NotApplied || result.content.len() > 0
        || result.effect_receipt_ref is Some {
        broken()
    } else {
        shown_once_fault(h, result)
    }
}

/// The reports that a call's effect was left unknown.
pub open spec fn left_unknown(
    records: Map<RecordKeyView, ProtectedRecordView>,
    before: u64,
    call_id: Seq<char>,
    effect_key: Seq<char>,
) -> spec_fn(RunEventView) -> bool {
    |event: RunEventView|
        event.payload matches RunEventPayloadView::ToolUnresolved {
            result_ref,
            idempotency_key,
            ..
        } && event.seq < before && idempotency_key == effect_key && event_fault::<ToolResult>(
            records,
            result_ref,
        ) is None && value_at::<ToolResult>(records, result_ref).call_id == call_id
}

/// The messages that show exactly an unknown result.
pub open spec fn shows_unknown(
    run_id: Seq<char>,
    message_id: Seq<char>,
    unknown: ToolResultView,
) -> spec_fn(MessageView) -> bool {
    |message: MessageView|
        message.message_id == message_id && message.run_id == run_id && message.content.len() == 1
            && message.content[0] == (ContentBlockView::ToolResult { result: unknown })
}

/// The messages that correct an unknown result to a known one, and do nothing else.
pub open spec fn corrects_unknown(
    h: ReplayedView,
    unknown: ToolResultView,
    result: ToolResultView,
) -> spec_fn(MessageView) -> bool {
    |message: MessageView|
        message.run_id == h.snapshot.run_id && message.content.len() == 1 && (message.content[0]
            matches ContentBlockView::ToolResultCorrection {
            previous_message_id,
            previous_result_digest,
            result: corrected,
        } && corrected == result && previous_result_digest == unknown.digest && some_in(
            h.messages,
            shows_unknown(h.snapshot.run_id, previous_message_id, unknown),
        ))
}

/// The result that was left unknown before a wait.
pub open spec fn unknown_result(
    h: ReplayedView,
    before: u64,
    call_id: Seq<char>,
    effect_key: Seq<char>,
) -> Option<ToolResultView> {
    match last_in(h.events, left_unknown(h.records, before, call_id, effect_key)) {
        None => None,
        Some(event) => Some(
            value_at::<ToolResult>(h.records, event.payload->ToolUnresolved_result_ref),
        ),
    }
}

/// Why the result of an external effect is refused.
pub open spec fn external_fault(
    h: ReplayedView,
    progress: ResumeProgressView,
    receipt: ResumeReceiptView,
    receipt_ref: RecordRefView,
    call_id: Seq<char>,
    effect_key: Seq<char>,
    result: ToolResultView,
) -> Option<Fault> {
    if record_fault(h.records, receipt_ref) is Some {
        record_fault(h.records, receipt_ref)
    } else if result.call_id != call_id || result.effect == ToolEffect::Unknown || result.status
        == ToolResultStatus::Unknown {
        broken()
    } else {
        match unknown_result(h, receipt.previous_last_event_seq, call_id, effect_key) {
            None => broken(),
            Some(unknown) => {
                let matching = kept(h.messages, corrects_unknown(h, unknown, result));
                if matching.len() != 1 || progress.authorized.contains(matching[0].message_id)
                    || progress.corrected.contains(call_id) {
                    broken()
                } else {
                    None
                }
            },
        }
    }
}

/// The message that corrects the result of an external effect.
pub open spec fn external_correction(
    h: ReplayedView,
    receipt: ResumeReceiptView,
    call_id: Seq<char>,
    effect_key: Seq<char>,
    result: ToolResultView,
) -> Seq<char> {
    let unknown = unknown_result(h, receipt.previous_last_event_seq, call_id, effect_key)->Some_0;
    kept(h.messages, corrects_unknown(h, unknown, result))[0].message_id
}

/// The result that settled a wait.
pub open spec fn settling(h: ReplayedView, intervening: Seq<RunEventView>) -> ToolResultView {
    value_at::<ToolResult>(h.records, intervening[0].payload->ToolSettled_result_ref)
}

/// Why what settled a wait is refused.
pub open spec fn settlement_fault(
    h: ReplayedView,
    progress: ResumeProgressView,
    receipt: ResumeReceiptView,
    target: WaitTargetView,
    intervening: Seq<RunEventView>,
) -> Option<Fault> {
    if intervening.len() != 1 {
        broken()
    } else {
        match intervening[0].payload {
            RunEventPayloadView::ToolSettled { result_ref } => {
                let result = value_at::<ToolResult>(h.records, result_ref);
                if event_fault::<ToolResult>(h.records, result_ref) is Some {
                    event_fault::<ToolResult>(h.records, result_ref)
                } else if !some_in(h.snapshot.tool_ledger, settled_with(result)) {
                    broken()
                } else {
                    answer_fault(h, progress, receipt, target, result)
                }
            },
            _ => broken(),
        }
    }
}

/// Why a result does not carry out the answer that settled its wait.
pub open spec fn answer_fault(
    h: ReplayedView,
    progress: ResumeProgressView,
    receipt: ResumeReceiptView,
    target: WaitTargetView,
    result: ToolResultView,
) -> Option<Fault> {
    match (receipt.command.action, target) {
        (ResumeActionView::Input { answer, .. }, WaitTargetView::Input { request }) => {
            input_fault(h, request.call_id, answer, result)
        },
        (ResumeActionView::Deny { .. }, WaitTargetView::Approval { target }) => match target {
            ApprovalTargetView::Tool { call_id, binding_digest } => denial_fault(
                h,
                call_id,
                binding_digest,
                result,
            ),
            _ => broken(),
        },
        (
            ResumeActionView::External { receipt_ref, .. },
            WaitTargetView::External { call_id, effect_key },
        ) => external_fault(h, progress, receipt, receipt_ref, call_id, effect_key, result),
        _ => broken(),
    }
}

/// Why one accepted answer is refused.
#[verifier::opaque]
pub open spec fn answer_step_fault(
    h: ReplayedView,
    progress: ResumeProgressView,
    event: RunEventView,
    receipt: ResumeReceiptView,
) -> Option<Fault> {
    let intervening = kept(h.events, between(receipt.previous_last_event_seq, event.seq));
    if out_of_order(h, progress.previous_seq, event, receipt) {
        broken()
    } else if wait_fault(h, event, receipt) is Some {
        wait_fault(h, event, receipt)
    } else {
        let target = answered(h, receipt)->Some_0.target;
        if permits(receipt, target) {
            permission_fault(h, target, intervening)
        } else if receipt.expired && intervening.len() == 0 {
            None
        } else {
            settlement_fault(h, progress, receipt, target, intervening)
        }
    }
}

/// What the accepted answers have accounted for after one more.
#[verifier::opaque]
pub open spec fn answer_step_after(
    h: ReplayedView,
    progress: ResumeProgressView,
    event: RunEventView,
    receipt: ResumeReceiptView,
) -> ResumeProgressView {
    let intervening = kept(h.events, between(receipt.previous_last_event_seq, event.seq));
    let target = answered(h, receipt)->Some_0.target;
    let moved = ResumeProgressView { previous_seq: event.seq, ..progress };
    if permits(receipt, target) || (receipt.expired && intervening.len() == 0) {
        moved
    } else {
        match (receipt.command.action, target) {
            (
                ResumeActionView::External { .. },
                WaitTargetView::External { call_id, effect_key },
            ) => ResumeProgressView {
                previous_seq: event.seq,
                corrected: progress.corrected.push(call_id),
                authorized: progress.authorized.push(
                    external_correction(
                        h,
                        receipt,
                        call_id,
                        effect_key,
                        settling(h, intervening),
                    ),
                ),
            },
            _ => moved,
        }
    }
}

fn check_permission(h: &Replayed, target: &WaitTarget, intervening: &Vec<RunEvent>) -> (r: Result<
    (),
    ContractError,
>)
    ensures
        failure(r) == permission_fault(h@, target@, intervening.deep_view()),
{
    assert(intervening.deep_view().len() == intervening.len());
    if intervening.len() > 0 {
        return invalid();
    }
    match target {
        WaitTarget::Approval { target } => match target {
            ApprovalTarget::Tool { call_id, binding_digest } => validate_resume_binding(
                &h.records,
                h.snapshot,
                call_id,
                binding_digest,
            ),
            _ => Ok(()),
        },
        _ => Ok(()),
    }
}

fn is_only_json(content: &Vec<InputContent>, answer: &Json) -> (r: bool)
    ensures
        r == (content.deep_view() == seq![InputContentView::Json { value: answer@ }]),
{
    assert(content.deep_view().len() == content.len());
    if content.len() != 1 {
        return false;
    }
    assert(content.deep_view()[0] == content@[0]@);
    match &content[0] {
        InputContent::Json { value } => {
            let r = value.same(answer);
            assert(r ==> content.deep_view() =~= seq![InputContentView::Json { value: answer@ }]);
            r
        },
        _ => false,
    }
}

fn check_input(h: &Replayed, call_id: &Id, answer: &Json, result: &ToolResult) -> (r: Result<
    (),
    ContractError,
>)
    ensures
        failure(r) == input_fault(h@, call_id@, answer@, result@),
{
    if !result.call_id.same(call_id) || result.status != ToolResultStatus::Succeeded
        || result.effect != ToolEffect::NotApplied || !is_only_json(&result.content, answer)
        || result.error.is_some() || result.effect_receipt_ref.is_some() {
        return invalid();
    }
    validate_resume_result_message(h.snapshot, h.messages, result)
}

fn check_denial(h: &Replayed, call_id: &Id, binding_digest: &JsonDigest, result: &ToolResult) -> (r:
    Result<(), ContractError>)
    ensures
        failure(r) == denial_fault(h@, call_id@, binding_digest@, result@),
{
    validate_resume_binding(&h.records, h.snapshot, call_id, binding_digest)?;
    assert(result@.content.len() == result.content.len());
    if !result.call_id.same(call_id) || result.status != ToolResultStatus::Denied || result.effect
        != ToolEffect::NotApplied || result.content.len() > 0 || result.effect_receipt_ref.is_some() {
        return invalid();
    }
    validate_resume_result_message(h.snapshot, h.messages, result)
}

fn find_unknown<'a>(h: &Replayed<'a>, before: u64, call_id: &Id, effect_key: &Id) -> (r: Option<
    &'a ToolResult,
>)
    ensures
        r.deep_view() == unknown_result(h@, before, call_id@, effect_key@),
{
    let ghost p = left_unknown(h@.records, before, call_id@, effect_key@);
    let reported = |event: &RunEvent| -> (b: bool)
        ensures
            b == left_unknown(h@.records, before, call_id@, effect_key@)(event@),
    {
        match &event.payload {
            RunEventPayload::ToolUnresolved { result_ref, idempotency_key, .. } => event.seq
                < before && idempotency_key.same(effect_key) && match h.records.event_record::<
                ToolResult,
            >(result_ref) {
                Ok(unknown) => unknown.call_id.same(call_id),
                Err(_) => false,
            },
            _ => false,
        }
    };
    match find_last(h.events, reported, Ghost(p)) {
        Some(event) => {
            proof {
                lemma_last_in(h@.events, p);
            }
            match &event.payload {
                RunEventPayload::ToolUnresolved { result_ref, .. } => match h.records.event_record::<
                    ToolResult,
                >(result_ref) {
                    Ok(unknown) => Some(unknown),
                    Err(_) => None,
                },
                _ => None,
            }
        },
        None => None,
    }
}

proof fn lemma_last_in<V>(s: Seq<V>, p: spec_fn(V) -> bool)
    ensures
        last_in(s, p) matches Some(x) ==> p(x) && s.contains(x),
    decreases s.len(),
{
    if s.len() > 0 {
        let front = s.drop_last();
        lemma_last_in(front, p);
        if p(s.last()) {
            assert(s[s.len() - 1] == s.last());
        } else if last_in(front, p) is Some {
            let i = choose|i: int| 0 <= i < front.len() && Some(front[i]) == last_in(front, p);
            assert(s[i] == front[i]);
        }
    }
}

fn is_shown_unknown(h: &Replayed, message_id: &Id, unknown: &ToolResult) -> (r: bool)
    ensures
        r == some_in(h@.messages, shows_unknown(h@.snapshot.run_id, message_id@, unknown@)),
{
    let shows = |message: &Message| -> (b: bool)
        ensures
            b == shows_unknown(h@.snapshot.run_id, message_id@, unknown@)(message@),
    {
        assert(message@.content.len() == message.content.len());
        if !message.message_id.same(message_id) || !message.run_id.same(&h.snapshot.run_id)
            || message.content.len() != 1 {
            return false;
        }
        assert(message@.content[0] == message.content@[0]@);
        match &message.content[0] {
            ContentBlock::ToolResult { result } => result.same(unknown),
            _ => false,
        }
    };
    any(h.messages, shows, Ghost(shows_unknown(h@.snapshot.run_id, message_id@, unknown@)))
}

fn corrections_of(h: &Replayed, unknown: &ToolResult, result: &ToolResult) -> (r: Vec<Message>)
    ensures
        r.deep_view() == kept(h@.messages, corrects_unknown(h@, unknown@, result@)),
{
    let corrects = |message: &Message| -> (b: bool)
        ensures
            b == corrects_unknown(h@, unknown@, result@)(message@),
    {
        assert(message@.content.len() == message.content.len());
        if !message.run_id.same(&h.snapshot.run_id) || message.content.len() != 1 {
            return false;
        }
        assert(message@.content[0] == message.content@[0]@);
        match &message.content[0] {
            ContentBlock::ToolResultCorrection {
                previous_message_id,
                previous_result_digest,
                result: corrected,
            } => corrected.same(result) && previous_result_digest.same(&unknown.digest)
                && is_shown_unknown(h, previous_message_id, unknown),
            _ => false,
        }
    };
    keep(h.messages, corrects, Ghost(corrects_unknown(h@, unknown@, result@)))
}

fn check_external(
    h: &Replayed,
    progress: &ResumeProgress,
    receipt: &ResumeReceipt,
    receipt_ref: &RecordRef,
    call_id: &Id,
    effect_key: &Id,
    result: &ToolResult,
) -> (r: Result<Id, ContractError>)
    ensures
        failure(r) == external_fault(
            h@,
            progress@,
            receipt@,
            receipt_ref@,
            call_id@,
            effect_key@,
            result@,
        ),
        r matches Ok(message_id) ==> message_id@ == external_correction(
            h@,
            receipt@,
            call_id@,
            effect_key@,
            result@,
        ),
{
    h.records.check(receipt_ref)?;
    if !result.call_id.same(call_id) || result.effect == ToolEffect::Unknown || result.status
        == ToolResultStatus::Unknown {
        return invalid();
    }
    let unknown = match find_unknown(h, receipt.previous_last_event_seq, call_id, effect_key) {
        Some(unknown) => unknown,
        None => {
            return invalid();
        },
    };
    let matching = corrections_of(h, unknown, result);
    assert(matching.deep_view().len() == matching.len());
    if matching.len() != 1 {
        return invalid();
    }
    assert(matching.deep_view()[0] == matching@[0]@);
    if contains(&progress.authorized, &matching[0].message_id) || contains(
        &progress.corrected,
        call_id,
    ) {
        return invalid();
    }
    Ok(matching[0].message_id.copy())
}

fn settling_result<'a>(h: &Replayed<'a>, intervening: &Vec<RunEvent>) -> (r: Result<
    &'a ToolResult,
    ContractError,
>)
    ensures
        r matches Ok(result) ==> intervening.deep_view().len() == 1
            && intervening.deep_view()[0].payload is ToolSettled && result@ == settling(
            h@,
            intervening.deep_view(),
        ) && event_fault::<ToolResult>(
            h@.records,
            intervening.deep_view()[0].payload->ToolSettled_result_ref,
        ) is None && some_in(h@.snapshot.tool_ledger, settled_with(result@)),
        forall|progress: ResumeProgressView, receipt: ResumeReceiptView, target: WaitTargetView|
            r is Err ==> failure(r) == #[trigger] settlement_fault(
                h@,
                progress,
                receipt,
                target,
                intervening.deep_view(),
            ),
{
    assert(intervening.deep_view().len() == intervening.len());
    if intervening.len() != 1 {
        return invalid();
    }
    assert(intervening.deep_view()[0] == intervening@[0]@);
    let result_ref = match &intervening[0].payload {
        RunEventPayload::ToolSettled { result_ref } => result_ref,
        _ => {
            return invalid();
        },
    };
    let result = h.records.event_record::<ToolResult>(result_ref)?;
    let settled = |entry: &ToolLedgerEntry| -> (b: bool)
        ensures
            b == settled_with(result@)(entry@),
    {
        match &entry.state {
            ToolCallState::Settled { result: saved } => saved.same(result),
            _ => false,
        }
    };
    if !any(&h.snapshot.tool_ledger, settled, Ghost(settled_with(result@))) {
        return invalid();
    }
    Ok(result)
}

fn check_answer(
    h: &Replayed,
    progress: ResumeProgress,
    event: &RunEvent,
    receipt: &ResumeReceipt,
) -> (r: Result<ResumeProgress, ContractError>)
    ensures
        failure(r) == answer_step_fault(h@, progress@, event@, receipt@),
        r matches Ok(next) ==> next@ == answer_step_after(h@, progress@, event@, receipt@),
{
    reveal(answer_step_fault);
    reveal(answer_step_after);
    if is_out_of_order(h, progress.previous_seq, event, receipt) {
        return invalid();
    }
    let wait = find_wait(h, event, receipt)?;
    let target = &wait.target;
    let inside = |other: &RunEvent| -> (b: bool)
        ensures
            b == between(receipt@.previous_last_event_seq, event@.seq)(other@),
    { receipt.previous_last_event_seq < other.seq && other.seq < event.seq };
    let intervening = keep(
        h.events,
        inside,
        Ghost(between(receipt@.previous_last_event_seq, event@.seq)),
    );
    assert(intervening.deep_view().len() == intervening.len());
    let ghost before = progress@;
    let ResumeProgress { previous_seq: _, mut corrected, mut authorized } = progress;
    if is_permitting(receipt, target) {
        check_permission(h, target, &intervening)?;
        return Ok(ResumeProgress { previous_seq: event.seq, corrected, authorized });
    }
    if receipt.expired && intervening.len() == 0 {
        return Ok(ResumeProgress { previous_seq: event.seq, corrected, authorized });
    }
    let result = settling_result(h, &intervening)?;
    match (&receipt.command.action, target) {
        (ResumeAction::Input { answer, .. }, WaitTarget::Input { request }) => {
            check_input(h, &request.call_id, answer, result)?;
        },
        (ResumeAction::Deny { .. }, WaitTarget::Approval { target }) => match target {
            ApprovalTarget::Tool { call_id, binding_digest } => {
                check_denial(h, call_id, binding_digest, result)?;
            },
            _ => {
                return invalid();
            },
        },
        (
            ResumeAction::External { receipt_ref, .. },
            WaitTarget::External { call_id, effect_key },
        ) => {
            let so_far = ResumeProgress { previous_seq: 0, corrected, authorized };
            assert(external_fault(
                h@,
                so_far@,
                receipt@,
                receipt_ref@,
                call_id@,
                effect_key@,
                result@,
            ) == external_fault(
                h@,
                before,
                receipt@,
                receipt_ref@,
                call_id@,
                effect_key@,
                result@,
            ));
            let message_id = check_external(
                h,
                &so_far,
                receipt,
                receipt_ref,
                call_id,
                effect_key,
                result,
            )?;
            corrected = so_far.corrected;
            authorized = so_far.authorized;
            let ghost named = message_id@;
            corrected.push(call_id.copy());
            authorized.push(message_id);
            assert(corrected.deep_view() =~= before.corrected.push(call_id@));
            assert(authorized.deep_view() =~= before.authorized.push(named));
        },
        _ => {
            return invalid();
        },
    }
    Ok(ResumeProgress { previous_seq: event.seq, corrected, authorized })
}

/// The calls whose results reconciliation corrected.
pub open spec fn reconciled_calls(messages: Seq<MessageView>, reconciled: Seq<Seq<char>>) -> Seq<
    Seq<char>,
>
    decreases messages.len(),
{
    if messages.len() == 0 {
        Seq::empty()
    } else {
        let front = reconciled_calls(messages.drop_last(), reconciled);
        let message = messages.last();
        if reconciled.contains(message.message_id) && message.content.len() == 1 {
            match message.content[0] {
                ContentBlockView::ToolResultCorrection { result, .. } => front.push(
                    result.call_id,
                ),
                _ => front,
            }
        } else {
            front
        }
    }
}

fn list_reconciled(messages: &Vec<Message>, reconciled: &Vec<Id>) -> (r: Vec<Id>)
    ensures
        r.deep_view() == reconciled_calls(messages.deep_view(), reconciled.deep_view()),
{
    let ghost s = messages.deep_view();
    let mut out: Vec<Id> = Vec::new();
    let mut i: usize = 0;
    assert(s.take(0) =~= Seq::<MessageView>::empty());
    assert(out.deep_view() =~= Seq::<Seq<char>>::empty());
    while i < messages.len()
        invariant
            i <= messages.len(),
            s == messages.deep_view(),
            out.deep_view() == reconciled_calls(s.take(i as int), reconciled.deep_view()),
        decreases messages.len() - i,
    {
        let message = &messages[i];
        assert(s.take(i + 1).drop_last() =~= s.take(i as int));
        assert(s.take(i + 1).last() == message@);
        assert(message@.content.len() == message.content.len());
        if contains(reconciled, &message.message_id) && message.content.len() == 1 {
            assert(message@.content[0] == message.content@[0]@);
            if let ContentBlock::ToolResultCorrection { result, .. } = &message.content[0] {
                let ghost before = out.deep_view();
                out.push(result.call_id.copy());
                assert(out.deep_view() =~= before.push(result@.call_id));
            }
        }
        i = i + 1;
    }
    assert(s.take(i as int) =~= s);
    out
}

/// What is accounted for before the answer at a position.
pub open spec fn resume_progress_at(h: ReplayedView, reconciled: Seq<Seq<char>>, i: int)
    -> ResumeProgressView
    decreases i,
{
    if i <= 0 {
        ResumeProgressView {
            previous_seq: 0,
            corrected: reconciled_calls(h.messages, reconciled),
            authorized: reconciled,
        }
    } else {
        answer_step_after(
            h,
            resume_progress_at(h, reconciled, i - 1),
            kept(h.events, is_resumption())[i - 1],
            h.snapshot.resume_receipts[i - 1],
        )
    }
}

/// Why the answer at a position is refused.
pub open spec fn answer_fault_at(h: ReplayedView, reconciled: Seq<Seq<char>>) -> spec_fn(
    int,
) -> Option<Fault> {
    |i: int|
        answer_step_fault(
            h,
            resume_progress_at(h, reconciled, i),
            kept(h.events, is_resumption())[i],
            h.snapshot.resume_receipts[i],
        )
}

/// A message of a run corrects a result without authority.
pub open spec fn unauthorized(run_id: Seq<char>, authorized: Seq<Seq<char>>) -> spec_fn(
    MessageView,
) -> bool {
    |message: MessageView|
        message.run_id == run_id && some_in(
            message.content,
            |block: ContentBlockView| block is ToolResultCorrection,
        ) && !authorized.contains(message.message_id)
}

/// The settled ledger entries of a call.
pub open spec fn settled_call(call_id: Seq<char>) -> spec_fn(ToolLedgerEntryView) -> bool {
    |entry: ToolLedgerEntryView| entry.call.call_id == call_id && entry.state is Settled
}

/// Why a result that was left unknown was settled without a correction.
pub open spec fn uncorrected_fault(h: ReplayedView, corrected: Seq<Seq<char>>) -> spec_fn(
    RunEventView,
) -> Option<Fault> {
    |event: RunEventView|
        match event.payload {
            RunEventPayloadView::ToolUnresolved { result_ref, .. } => {
                let unknown = value_at::<ToolResult>(h.records, result_ref);
                if event_fault::<ToolResult>(h.records, result_ref) is Some {
                    event_fault::<ToolResult>(h.records, result_ref)
                } else if some_in(h.snapshot.tool_ledger, settled_call(unknown.call_id))
                    && !corrected.contains(unknown.call_id) {
                    broken()
                } else {
                    None
                }
            },
            _ => None,
        }
}

fn is_unauthorized(h: &Replayed, authorized: &Vec<Id>) -> (r: bool)
    ensures
        r == some_in(h@.messages, unauthorized(h@.snapshot.run_id, authorized.deep_view())),
{
    let rewrites = |message: &Message| -> (b: bool)
        ensures
            b == unauthorized(h@.snapshot.run_id, authorized.deep_view())(message@),
    {
        let corrects = |block: &ContentBlock| -> (b: bool)
            ensures
                b == (block@ is ToolResultCorrection),
        {
            match block {
                ContentBlock::ToolResultCorrection { .. } => true,
                _ => false,
            }
        };
        message.run_id.same(&h.snapshot.run_id) && any(
            &message.content,
            corrects,
            Ghost(|block: ContentBlockView| block is ToolResultCorrection),
        ) && !contains(authorized, &message.message_id)
    };
    any(
        h.messages,
        rewrites,
        Ghost(unauthorized(h@.snapshot.run_id, authorized.deep_view())),
    )
}

fn check_uncorrected(h: &Replayed, corrected: &Vec<Id>, event: &RunEvent) -> (r: Result<
    (),
    ContractError,
>)
    ensures
        failure(r) == uncorrected_fault(h@, corrected.deep_view())(event@),
{
    match &event.payload {
        RunEventPayload::ToolUnresolved { result_ref, .. } => {
            let unknown = h.records.event_record::<ToolResult>(result_ref)?;
            let settled = |entry: &ToolLedgerEntry| -> (b: bool)
                ensures
                    b == settled_call(unknown@.call_id)(entry@),
            {
                entry.call.call_id.same(&unknown.call_id) && match &entry.state {
                    ToolCallState::Settled { .. } => true,
                    _ => false,
                }
            };
            if any(&h.snapshot.tool_ledger, settled, Ghost(settled_call(unknown@.call_id)))
                && !contains(corrected, &unknown.call_id) {
                return invalid();
            }
            Ok(())
        },
        _ => Ok(()),
    }
}

/// Why the history of accepted answers is refused.
pub open spec fn resume_history_fault(
    h: ReplayedView,
    corrections: Option<Fault>,
    reconciled: Seq<Seq<char>>,
) -> Option<Fault> {
    let n = h.snapshot.resume_receipts.len() as int;
    let progress = resume_progress_at(h, reconciled, n);
    if kept(h.events, is_resumption()).len() != n {
        broken()
    } else if corrections is Some {
        corrections
    } else if first_index_fault(0, n, answer_fault_at(h, reconciled)) is Some {
        first_index_fault(0, n, answer_fault_at(h, reconciled))
    } else if some_in(h.messages, unauthorized(h.snapshot.run_id, progress.authorized)) {
        broken()
    } else {
        first_fault(h.events, uncorrected_fault(h, progress.corrected))
    }
}

fn check_answers(h: &Replayed, resumed: &Vec<RunEvent>, reconciled: &Vec<Id>) -> (r: Result<
    ResumeProgress,
    ContractError,
>)
    requires
        resumed.deep_view() == kept(h@.events, is_resumption()),
        resumed.len() == h@.snapshot.resume_receipts.len(),
    ensures
        failure(r) == first_index_fault(
            0,
            h@.snapshot.resume_receipts.len() as int,
            answer_fault_at(h@, reconciled.deep_view()),
        ),
        r matches Ok(progress) ==> progress@ == resume_progress_at(
            h@,
            reconciled.deep_view(),
            h@.snapshot.resume_receipts.len() as int,
        ),
{
    let receipts = &h.snapshot.resume_receipts;
    let ghost n = receipts.len() as int;
    let ghost f = answer_fault_at(h@, reconciled.deep_view());
    let mut progress = ResumeProgress {
        previous_seq: 0,
        corrected: list_reconciled(h.messages, reconciled),
        authorized: reconciled.copy(),
    };
    let mut i: usize = 0;
    while i < receipts.len()
        invariant
            i <= receipts.len(),
            n == receipts.len(),
            n == resumed.len(),
            n == h@.snapshot.resume_receipts.len(),
            receipts.deep_view() == h@.snapshot.resume_receipts,
            resumed.deep_view() == kept(h@.events, is_resumption()),
            f == answer_fault_at(h@, reconciled.deep_view()),
            progress@ == resume_progress_at(h@, reconciled.deep_view(), i as int),
            first_index_fault(0, n, f) == first_index_fault(i as int, n, f),
        decreases receipts.len() - i,
    {
        assert(resumed.deep_view()[i as int] == resumed@[i as int]@);
        assert(receipts.deep_view()[i as int] == receipts@[i as int]@);
        progress = check_answer(h, progress, &resumed[i], &receipts[i])?;
        i = i + 1;
    }
    Ok(progress)
}

/// Replay the causal facts of accepted answers. A receipt does not by itself permit rewriting a
/// result: its preceding wait, the settlement between them and what the transcript shows must all
/// be about the same call. `corrections` and `reconciled` say what reconciliation accounts for.
pub fn validate_resume_history(
    h: &Replayed,
    corrections: &Option<ContractError>,
    reconciled: &Vec<Id>,
) -> (r: Result<(), ContractError>)
    ensures
        failure(r) == resume_history_fault(h@, corrections.deep_view(), reconciled.deep_view()),
{
    let resumption = |event: &RunEvent| -> (b: bool)
        ensures
            b == is_resumption()(event@),
    {
        match &event.payload {
            RunEventPayload::RunResumed { .. } => true,
            _ => false,
        }
    };
    let resumed = keep(h.events, resumption, Ghost(is_resumption()));
    assert(resumed.deep_view().len() == resumed.len());
    assert(h@.snapshot.resume_receipts.len() == h.snapshot.resume_receipts.len());
    if resumed.len() != h.snapshot.resume_receipts.len() {
        return invalid();
    }
    verdict(corrections)?;
    let progress = check_answers(h, &resumed, reconciled)?;
    if is_unauthorized(h, &progress.authorized) {
        return invalid();
    }
    let corrected = &progress.corrected;
    let resolved = |event: &RunEvent| -> (r: Result<(), ContractError>)
        ensures
            failure(r) == uncorrected_fault(h@, corrected.deep_view())(event@),
    { check_uncorrected(h, corrected, event) };
    check_each(h.events, resolved, Ghost(uncorrected_fault(h@, corrected.deep_view())))
}

/// An answered question ends its call with just that answer: the call succeeded, had no effect, and
/// its result is shown once.
pub proof fn law_answers_become_results(
    h: ReplayedView,
    progress: ResumeProgressView,
    receipt: ResumeReceiptView,
    target: WaitTargetView,
    result: ToolResultView,
)
    requires
        receipt.command.action is Input,
        target is Input,
        answer_fault(h, progress, receipt, target, result) is None,
    ensures
        result.call_id == target->Input_request.call_id,
        result.status == ToolResultStatus::Succeeded,
        result.effect == ToolEffect::NotApplied,
        result.content.len() == 1,
        result.content[0] == (InputContentView::Json {
            value: receipt.command.action->Input_answer,
        }),
        result.error is None,
        result.effect_receipt_ref is None,
        exists|i: int|
            0 <= i < h.messages.len() && reports_result(h.snapshot, result)(#[trigger] h.messages[i]),
{
    crate::data::lemma_kept(h.messages, reports_result(h.snapshot, result));
    let shown = kept(h.messages, reports_result(h.snapshot, result));
    assert(shown.contains(shown[0]));
    let i = choose|i: int| 0 <= i < h.messages.len() && h.messages[i] == shown[0];
    assert(reports_result(h.snapshot, result)(h.messages[i]));
}

/// A denied call never took effect: its result says that it was denied, and holds nothing.
pub proof fn law_denied_calls_have_no_effect(
    h: ReplayedView,
    progress: ResumeProgressView,
    receipt: ResumeReceiptView,
    target: WaitTargetView,
    result: ToolResultView,
)
    requires
        receipt.command.action is Deny,
        answer_fault(h, progress, receipt, target, result) is None,
    ensures
        target is Approval,
        target->Approval_target is Tool,
        result.call_id == target->Approval_target->Tool_call_id,
        result.status == ToolResultStatus::Denied,
        result.effect == ToolEffect::NotApplied,
        result.content.len() == 0,
        result.effect_receipt_ref is None,
{
}

/// What is learned of an external effect settles it: the effect is known from there on, it had been
/// reported as unknown under the same key before the wait, and it is corrected only once.
pub proof fn law_external_answers_settle_what_was_unknown(
    h: ReplayedView,
    progress: ResumeProgressView,
    receipt: ResumeReceiptView,
    target: WaitTargetView,
    result: ToolResultView,
)
    requires
        receipt.command.action is External,
        answer_fault(h, progress, receipt, target, result) is None,
    ensures
        target is External,
        result.call_id == target->External_call_id,
        result.effect != ToolEffect::Unknown,
        result.status != ToolResultStatus::Unknown,
        !progress.corrected.contains(target->External_call_id),
        exists|i: int|
            0 <= i < h.events.len() && (#[trigger] h.events[i]).payload is ToolUnresolved
                && h.events[i].seq < receipt.previous_last_event_seq
                && h.events[i].payload->ToolUnresolved_idempotency_key
                == target->External_effect_key,
{
    let before = receipt.previous_last_event_seq;
    let call_id = target->External_call_id;
    let effect_key = target->External_effect_key;
    let p = left_unknown(h.records, before, call_id, effect_key);
    lemma_last_in(h.events, p);
    let event = last_in(h.events, p)->Some_0;
    assert(p(event));
    let i = choose|i: int| 0 <= i < h.events.len() && h.events[i] == event;
    assert(h.events[i].payload is ToolUnresolved);
}

/// An answer of one kind never settles a wait of another.
pub proof fn law_answers_settle_waits_of_their_kind(
    h: ReplayedView,
    progress: ResumeProgressView,
    receipt: ResumeReceiptView,
    target: WaitTargetView,
    result: ToolResultView,
)
    requires
        answer_fault(h, progress, receipt, target, result) is None,
    ensures
        receipt.command.action is Input <==> target is Input,
        receipt.command.action is Deny <==> target is Approval,
        receipt.command.action is External <==> target is External,
{
}

/// An accepted answer comes behind the wait that it answers and behind the answer before it, not later
/// than the run was last seen, and says whether it came at or after a deadline.
pub proof fn law_accepted_answers_follow_their_wait(
    h: ReplayedView,
    progress: ResumeProgressView,
    event: RunEventView,
    receipt: ResumeReceiptView,
)
    requires
        answer_step_fault(h, progress, event, receipt) is None,
    ensures
        progress.previous_seq < receipt.previous_last_event_seq < event.seq,
        event.timestamp_ms <= h.snapshot.timing.last_observed_at_ms,
        event.payload is RunResumed,
        event.payload->RunResumed_command_ref == receipt.command_ref,
        answered(h, receipt) matches Some(wait) && (receipt.expired <==> event.timestamp_ms
            >= h.snapshot.timing.deadline_at_ms || (wait.expires_at_ms is Some && event.timestamp_ms
            >= wait.expires_at_ms->Some_0)),
{
    reveal(answer_step_fault);
}

/// A call that was approved is bound as it was when it was approved: its bound input was recorded with
/// the very binding that the approval named.
pub proof fn law_approved_calls_stay_bound(
    records: Map<RecordKeyView, ProtectedRecordView>,
    snapshot: RunSnapshotView,
    call_id: Seq<char>,
    binding_digest: Seq<char>,
)
    requires
        resume_binding_fault(records, snapshot, call_id, binding_digest) is None,
    ensures
        exists|i: int|
            0 <= i < snapshot.tool_ledger.len() && (
            #[trigger] snapshot.tool_ledger[i]).call.call_id == call_id
                && snapshot.tool_ledger[i].call.bound_input_ref is Some && record_fault(
                records,
                snapshot.tool_ledger[i].call.bound_input_ref->Some_0,
            ) is None && get_of(
                records[key_of(snapshot.tool_ledger[i].call.bound_input_ref->Some_0)].value,
                "binding_digest"@,
            ) == Some(JsonView::Text(binding_digest)),
{
    let ledger = snapshot.tool_ledger;
    crate::data::lemma_first_in(ledger, entry_of_call(call_id));
    let entry = first_in(ledger, entry_of_call(call_id))->Some_0;
    let i = choose|i: int| 0 <= i < ledger.len() && ledger[i] == entry;
    assert(entry_of_call(call_id)(ledger[i]));
}

} // verus!
