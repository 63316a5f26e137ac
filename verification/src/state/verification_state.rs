//! Candidate answers, verification records and the events and messages they must agree with.
use vstd::prelude::*;

use crate::content::{
    ContentBlock, InputContent, Message, MessageOrigin, MessageRole, Visibility,
};
#[allow(unused_imports)]
use crate::content::{ContentBlockView, InputContentView, MessageView};
use crate::data::{any, contains, continues_by_one, count, find, is_same, keep, last, Data};
#[allow(unused_imports)]
use crate::data::{
    continues, count_in, final_of, first_fault, first_in, first_index_fault, kept, some_in,
};
use crate::error::{fail, verdict, ContractError, ErrorCode};
#[allow(unused_imports)]
use crate::error::{failure, fault, or_else, Fault};
use crate::json::{member, object, text, Json};
#[allow(unused_imports)]
use crate::json::{JsonView, MemberView};
use crate::model::{ModelAttemptState, ModelFinish, ModelInvocationRecord, ModelPurpose};
#[allow(unused_imports)]
use crate::model::ModelInvocationRecordView;
use crate::model_execution::{ModelExchangeOutcome, StoredModelResponse};
#[allow(unused_imports)]
use crate::model_execution::ModelExchangeOutcomeView;
use crate::refs::RecordRef;
#[allow(unused_imports)]
use crate::refs::{RecordKeyView, RecordRefView, VersionedRefView};
use crate::run::{
    ApprovalTarget, OutcomeResult, Reservation, ReservationKind, ResumeAction, ResumeReceipt,
    RunEvent, RunEventPayload, RunSnapshot, WaitTarget,
};
#[allow(unused_imports)]
use crate::run::{
    ApprovalTargetView, ReservationView, ResumeActionView, ResumeReceiptView, RunEventPayloadView,
    RunEventView, RunSnapshotView, WaitTargetView,
};
use crate::serialization::Id;
use crate::state::records::Records;
#[allow(unused_imports)]
use crate::state::records::{event_fault, read_fault, value_at, ProtectedRecordView};
use crate::state::scope::ScopeState;
#[allow(unused_imports)]
use crate::state::scope::ScopeStateView;
use crate::text::reads;
use crate::verification::{
    VerificationCandidate, VerificationDecision, VerificationPlan, VerificationRecord,
    VerificationSummary,
};
#[allow(unused_imports)]
use crate::verification::{
    VerificationCandidateView, VerificationDecisionView, VerificationPlanView,
    VerificationRecordView, VerificationSummaryView,
};

verus! {

/// The failure of verification data that does not fit its run.
pub open spec fn mismatch() -> Option<Fault> {
    fault(ErrorCode::InvalidSnapshot, "verification.records")
}

fn invalid<T>() -> (r: Result<T, ContractError>)
    ensures
        r is Err,
        failure(r) == mismatch(),
{
    fail(ErrorCode::InvalidSnapshot, "verification.records")
}

/// Why the verification plan of a run cannot be restored. `restored` is what restoring it against the
/// run reported.
pub open spec fn plan_fault(
    records: Map<RecordKeyView, ProtectedRecordView>,
    snapshot: RunSnapshotView,
    restored: Option<Fault>,
) -> Option<Fault> {
    match snapshot.verification_plan_ref {
        None => None,
        Some(reference) => or_else(
            read_fault::<VerificationPlan>(
                records,
                reference,
                ErrorCode::InvalidSnapshot,
                "verification.plan",
            ),
            restored,
        ),
    }
}

/// The verification plan of a run.
pub fn plan<'a>(
    records: &Records<'a>,
    snapshot: &RunSnapshot,
    restored: &Option<ContractError>,
) -> (r: Result<Option<&'a VerificationPlan>, ContractError>)
    ensures
        failure(r) == plan_fault(records@, snapshot@, restored.deep_view()),
        r matches Ok(plan) ==> plan.deep_view() == (match snapshot@.verification_plan_ref {
            None => None,
            Some(reference) => Some(value_at::<VerificationPlan>(records@, reference)),
        }),
{
    match &snapshot.verification_plan_ref {
        None => Ok(None),
        Some(reference) => {
            let plan = records.read::<VerificationPlan>(
                reference,
                ErrorCode::InvalidSnapshot,
                "verification.plan",
            )?;
            verdict(restored)?;
            Ok(Some(plan))
        },
    }
}

/// The messages up to a sequence number.
pub open spec fn through_message(sequence: u64) -> spec_fn(MessageView) -> bool {
    |message: MessageView| message.sequence <= sequence
}

/// The messages of a run that hold a tool result.
pub open spec fn tool_evidence(run_id: Seq<char>) -> spec_fn(MessageView) -> bool {
    |message: MessageView|
        message.run_id == run_id && some_in(
            message.content,
            |block: ContentBlockView| block is ToolResult,
        )
}

/// The identifiers of messages.
pub open spec fn message_ids(messages: Seq<MessageView>) -> Seq<Seq<char>> {
    Seq::new(messages.len(), |i: int| messages[i].message_id)
}

/// The agent attempt that a candidate repeats.
pub open spec fn attempt_of_candidate(candidate: VerificationCandidateView) -> spec_fn(
    ModelInvocationRecordView,
) -> bool {
    |entry: ModelInvocationRecordView|
        entry.purpose is Agent && entry.model_step_id == candidate.model_step_id
            && entry.response_ref == Some(candidate.response_ref)
}

/// Why a candidate does not fit its transcript.
pub open spec fn candidate_evidence_fault(
    state: ScopeStateView,
    snapshot: RunSnapshotView,
    plan: VerificationPlanView,
    candidate: VerificationCandidateView,
) -> Option<Fault> {
    if candidate.scope != snapshot.scope || candidate.run_id != snapshot.run_id
        || !state.sessions.dom().contains(snapshot.request.session_id) {
        mismatch()
    } else {
        let history = kept(
            state.sessions[snapshot.request.session_id].messages,
            through_message(candidate.through_sequence),
        );
        let evidence = if plan.verifier is Some {
            message_ids(kept(history, tool_evidence(snapshot.run_id)))
        } else {
            Seq::empty()
        };
        if history.len() == 0 || history.last().sequence != candidate.through_sequence
            || candidate.evidence_message_ids != evidence {
            mismatch()
        } else {
            None
        }
    }
}

/// Why a candidate does not repeat a completed response of its run.
pub open spec fn candidate_response_fault(
    records: Map<RecordKeyView, ProtectedRecordView>,
    snapshot: RunSnapshotView,
    candidate: VerificationCandidateView,
) -> Option<Fault> {
    match first_in(snapshot.model_ledger, attempt_of_candidate(candidate)) {
        None => mismatch(),
        Some(invocation) => if !(invocation.state is Completed) {
            mismatch()
        } else if event_fault::<StoredModelResponse>(records, candidate.response_ref) is Some {
            event_fault::<StoredModelResponse>(records, candidate.response_ref)
        } else {
            match value_at::<StoredModelResponse>(records, candidate.response_ref).outcome {
                ModelExchangeOutcomeView::Completed { response } => if !(response.finish is Stop)
                    || response.tool_calls.len() != 0 {
                    mismatch()
                } else if candidate.output != (if candidate.parsed_error is None {
                    candidate.parsed_output
                } else {
                    seq![InputContentView::Text { text: response.text }]
                }) || candidate.format_error != candidate.parsed_error {
                    mismatch()
                } else {
                    None
                },
                _ => mismatch(),
            }
        },
    }
}

/// Why a candidate of a run is unacceptable.
pub open spec fn candidate_fault(
    state: ScopeStateView,
    records: Map<RecordKeyView, ProtectedRecordView>,
    snapshot: RunSnapshotView,
    plan: VerificationPlanView,
    reference: RecordRefView,
) -> Option<Fault> {
    let candidate = value_at::<VerificationCandidate>(records, reference);
    if event_fault::<VerificationCandidate>(records, reference) is Some {
        event_fault::<VerificationCandidate>(records, reference)
    } else if candidate_evidence_fault(state, snapshot, plan, candidate) is Some {
        candidate_evidence_fault(state, snapshot, plan, candidate)
    } else {
        candidate_response_fault(records, snapshot, candidate)
    }
}

fn ids_of(messages: &Vec<Message>) -> (r: Vec<Id>)
    ensures
        r.deep_view() == message_ids(messages.deep_view()),
{
    let mut out: Vec<Id> = Vec::new();
    let mut i: usize = 0;
    while i < messages.len()
        invariant
            i <= messages.len(),
            out.len() == i,
            forall|j: int| 0 <= j < i ==> out.deep_view()[j] == messages.deep_view()[j].message_id,
        decreases messages.len() - i,
    {
        let ghost before = out.deep_view();
        out.push(messages[i].message_id.copy());
        assert(out.deep_view() =~= before.push(messages.deep_view()[i as int].message_id));
        i = i + 1;
    }
    assert(out.deep_view() =~= message_ids(messages.deep_view()));
    out
}

fn check_candidate_evidence(
    state: &ScopeState,
    snapshot: &RunSnapshot,
    plan: &VerificationPlan,
    candidate: &VerificationCandidate,
) -> (r: Result<(), ContractError>)
    ensures
        failure(r) == candidate_evidence_fault(state@, snapshot@, plan@, candidate@),
{
    if !candidate.scope.same(&snapshot.scope) || !candidate.run_id.same(&snapshot.run_id) {
        return invalid();
    }
    let session = match state.sessions.get(&snapshot.request.session_id) {
        Some(session) => session,
        None => {
            return invalid();
        },
    };
    let early = |message: &Message| -> (b: bool)
        ensures
            b == through_message(candidate@.through_sequence)(message@),
    { message.sequence <= candidate.through_sequence };
    let history = keep(
        &session.messages,
        early,
        Ghost(through_message(candidate@.through_sequence)),
    );
    if history.len() == 0 || history[history.len() - 1].sequence != candidate.through_sequence {
        return invalid();
    }
    let evidence = if plan.verifier.is_some() {
        let holds_result = |message: &Message| -> (b: bool)
            ensures
                b == tool_evidence(snapshot@.run_id)(message@),
        {
            let result = |block: &ContentBlock| -> (b: bool)
                ensures
                    b == (block@ is ToolResult),
            {
                match block {
                    ContentBlock::ToolResult { .. } => true,
                    _ => false,
                }
            };
            message.run_id.same(&snapshot.run_id) && any(
                &message.content,
                result,
                Ghost(|block: ContentBlockView| block is ToolResult),
            )
        };
        ids_of(&keep(&history, holds_result, Ghost(tool_evidence(snapshot@.run_id))))
    } else {
        let none: Vec<Id> = Vec::new();
        assert(none.deep_view() =~= Seq::<Seq<char>>::empty());
        none
    };
    if !candidate.evidence_message_ids.same(&evidence) {
        return invalid();
    }
    Ok(())
}

fn is_text_only(content: &Vec<InputContent>, expected: &String) -> (r: bool)
    ensures
        r == (content.deep_view() == seq![InputContentView::Text { text: expected@ }]),
{
    let ghost single = seq![InputContentView::Text { text: expected@ }];
    assert(single.len() == 1 && content.deep_view().len() == content@.len());
    if content.len() != 1 {
        return false;
    }
    assert(content.deep_view()[0] == content@[0]@);
    assert(single[0] == (InputContentView::Text { text: expected@ }));
    match &content[0] {
        InputContent::Text { text } => {
            let same = text.same(expected);
            assert(same ==> content.deep_view() =~= single);
            same
        },
        _ => false,
    }
}

fn check_candidate_response(
    records: &Records,
    snapshot: &RunSnapshot,
    candidate: &VerificationCandidate,
) -> (r: Result<(), ContractError>)
    ensures
        failure(r) == candidate_response_fault(records@, snapshot@, candidate@),
{
    let repeated = |entry: &ModelInvocationRecord| -> (b: bool)
        ensures
            b == attempt_of_candidate(candidate@)(entry@),
    {
        entry.purpose == ModelPurpose::Agent && entry.model_step_id.same(&candidate.model_step_id)
            && is_same(&entry.response_ref, &candidate.response_ref)
    };
    let invocation = match find(
        &snapshot.model_ledger,
        repeated,
        Ghost(attempt_of_candidate(candidate@)),
    ) {
        Some(invocation) => invocation,
        None => {
            return invalid();
        },
    };
    match &invocation.state {
        ModelAttemptState::Completed => {},
        _ => {
            return invalid();
        },
    }
    let stored = records.event_record::<StoredModelResponse>(&candidate.response_ref)?;
    match &stored.outcome {
        ModelExchangeOutcome::Completed { response } => {
            if response.finish != ModelFinish::Stop || response.tool_calls.len() != 0 {
                return invalid();
            }
            let output_fits = if candidate.parsed_error.is_none() {
                candidate.output.same(&candidate.parsed_output)
            } else {
                is_text_only(&candidate.output, &response.text)
            };
            if !output_fits || !candidate.format_error.same(&candidate.parsed_error) {
                return invalid();
            }
            Ok(())
        },
        _ => invalid(),
    }
}

/// Read a candidate and check it against its run.
pub fn candidate<'a>(
    state: &ScopeState,
    records: &Records<'a>,
    snapshot: &RunSnapshot,
    plan: &VerificationPlan,
    reference: &RecordRef,
) -> (r: Result<&'a VerificationCandidate, ContractError>)
    ensures
        failure(r) == candidate_fault(state@, records@, snapshot@, plan@, reference@),
        r matches Ok(candidate) ==> candidate@ == value_at::<VerificationCandidate>(
            records@,
            reference@,
        ),
{
    let candidate = records.event_record::<VerificationCandidate>(reference)?;
    check_candidate_evidence(state, snapshot, plan, candidate)?;
    check_candidate_response(records, snapshot, candidate)?;
    Ok(candidate)
}

/// Why the summary of a verification record is unacceptable.
pub open spec fn summary_fault(
    records: Map<RecordKeyView, ProtectedRecordView>,
    plan: VerificationPlanView,
    source: VerificationCandidateView,
    result: VerificationRecordView,
) -> Option<Fault> {
    match result.summary {
        Some(summary) => if plan.verifier is None || result.summary_ref is None {
            mismatch()
        } else if event_fault::<VerificationSummary>(
            records,
            result.summary_ref->Some_0,
        ) is Some {
            event_fault::<VerificationSummary>(records, result.summary_ref->Some_0)
        } else if value_at::<VerificationSummary>(records, result.summary_ref->Some_0) != summary
            || summary.verifier_ref != plan.verifier->Some_0.verifier_ref || summary.criteria_ref
            != plan.verifier->Some_0.criteria_ref || source.format_error is Some || (
        match result.decision {
            Some(decision) => Some(decision.verdict()),
            None => None,
        }) != Some(summary.verdict) || summary.evidence != seq![result.candidate_ref] {
            mismatch()
        } else {
            None
        },
        None => if result.summary_ref is Some || (result.error is None
            && source.format_error is None && plan.verifier is Some) {
            mismatch()
        } else {
            None
        },
    }
}

/// The unexpired receipt of a command.
pub open spec fn receipt_of(command_ref: RecordRefView) -> spec_fn(ResumeReceiptView) -> bool {
    |receipt: ResumeReceiptView| receipt.command_ref == command_ref && !receipt.expired
}

/// The review answers the verifier's question about this candidate, and the decision repeats the
/// answer.
pub open spec fn review_fits(
    plan: VerificationPlanView,
    result: VerificationRecordView,
    action: ResumeActionView,
) -> bool {
    let expected = ApprovalTargetView::Candidate {
        candidate_ref: result.candidate_ref,
        verifier_ref: plan.verifier->Some_0.verifier_ref,
    };
    match (action, result.decision) {
        (
            ResumeActionView::Approve { target, .. },
            Some(VerificationDecisionView::Pass),
        ) => target == expected,
        (
            ResumeActionView::Deny { target, reason, .. },
            Some(VerificationDecisionView::Fail { reason: actual }),
        ) => target == expected && actual == reason,
        _ => false,
    }
}

/// Why the review that a record claims did not happen.
pub open spec fn review_fault(
    snapshot: RunSnapshotView,
    plan: VerificationPlanView,
    latest: Option<VerificationRecordView>,
    result: VerificationRecordView,
) -> Option<Fault> {
    match result.review_command_ref {
        None => None,
        Some(command_ref) => match first_in(snapshot.resume_receipts, receipt_of(command_ref)) {
            None => mismatch(),
            Some(receipt) => if plan.verifier is None || !review_fits(
                plan,
                result,
                receipt.command.action,
            ) || !(latest matches Some(prior) && prior.candidate_ref == result.candidate_ref
                && prior.decision matches Some(VerificationDecisionView::Wait { .. })) {
                mismatch()
            } else {
                None
            },
        },
    }
}

/// A reserved repair of this identifier.
pub open spec fn repair_reserved(repair: Seq<char>) -> spec_fn(ReservationView) -> bool {
    |reservation: ReservationView| reservation.attempt_id == repair && reservation.kind is Repair
}

/// An earlier record uses the same repair.
pub open spec fn repair_used(
    records: Map<RecordKeyView, ProtectedRecordView>,
    repair: Seq<char>,
) -> spec_fn(RecordRefView) -> bool {
    |reference: RecordRefView|
        value_at::<VerificationRecord>(records, reference).repair_ref == Some(repair)
}

/// Why the repair that a record claims was not due.
pub open spec fn repair_fault(
    records: Map<RecordKeyView, ProtectedRecordView>,
    snapshot: RunSnapshotView,
    earlier: Seq<RecordRefView>,
    latest: Option<VerificationRecordView>,
    result: VerificationRecordView,
) -> Option<Fault> {
    match result.repair_ref {
        None => None,
        Some(repair) => if some_in(earlier, repair_used(records, repair)) || !some_in(
            snapshot.reservations,
            repair_reserved(repair),
        ) || !(result.decision matches Some(VerificationDecisionView::Revise { .. })) || !(
        latest matches Some(prior) && prior.candidate_ref == result.candidate_ref
            && prior.decision == result.decision && prior.repair_ref is None) {
            mismatch()
        } else {
            None
        },
    }
}

/// The record before a position.
pub open spec fn record_before(
    records: Map<RecordKeyView, ProtectedRecordView>,
    snapshot: RunSnapshotView,
    i: int,
) -> Option<VerificationRecordView> {
    if i <= 0 {
        None
    } else {
        Some(value_at::<VerificationRecord>(records, snapshot.verification_records[i - 1]))
    }
}

/// The references with the same digest.
pub open spec fn with_digest(digest: Seq<char>) -> spec_fn(RecordRefView) -> bool {
    |reference: RecordRefView| reference.digest == digest
}

/// Why the verification record at a position is unacceptable.
pub open spec fn record_at_fault(
    state: ScopeStateView,
    records: Map<RecordKeyView, ProtectedRecordView>,
    snapshot: RunSnapshotView,
    plan: VerificationPlanView,
) -> spec_fn(int) -> Option<Fault> {
    |i: int|
        {
            let reference = snapshot.verification_records[i];
            let earlier = snapshot.verification_records.take(i);
            let result = value_at::<VerificationRecord>(records, reference);
            let source = value_at::<VerificationCandidate>(records, result.candidate_ref);
            let latest = record_before(records, snapshot, i);
            if some_in(earlier, with_digest(reference.digest)) {
                mismatch()
            } else if event_fault::<VerificationRecord>(records, reference) is Some {
                event_fault::<VerificationRecord>(records, reference)
            } else if candidate_fault(
                state,
                records,
                snapshot,
                plan,
                result.candidate_ref,
            ) is Some {
                candidate_fault(state, records, snapshot, plan, result.candidate_ref)
            } else if result.schema_version != "wickle.verification-record.v1"@ || result.scope
                != snapshot.scope || result.run_id != snapshot.run_id || result.decision is Some
                == result.error is Some {
                mismatch()
            } else if summary_fault(records, plan, source, result) is Some {
                summary_fault(records, plan, source, result)
            } else if source.format_error is Some && !(result.decision matches Some(
                VerificationDecisionView::Revise { .. },
            )) {
                mismatch()
            } else {
                or_else(
                    review_fault(snapshot, plan, latest, result),
                    repair_fault(records, snapshot, earlier, latest, result),
                )
            }
        }
}

/// Why the wait for a candidate's approval is not the verifier's.
pub open spec fn candidate_wait_fault(
    snapshot: RunSnapshotView,
    plan: VerificationPlanView,
    latest: Option<VerificationRecordView>,
) -> Option<Fault> {
    match snapshot.wait {
        Some(wait) => match wait.target {
            WaitTargetView::Approval {
                target: ApprovalTargetView::Candidate { candidate_ref, verifier_ref },
            } => if snapshot.candidate_ref != Some(candidate_ref) || !(plan.verifier matches Some(
                verifier,
            ) && verifier.verifier_ref == verifier_ref) || !(latest matches Some(result)
                && result.candidate_ref == candidate_ref && result.decision matches Some(
                VerificationDecisionView::Wait { .. },
            )) {
                mismatch()
            } else {
                None
            },
            _ => None,
        },
        None => None,
    }
}

/// Why an outcome is not the verified one.
pub open spec fn verified_outcome_fault(
    records: Map<RecordKeyView, ProtectedRecordView>,
    snapshot: RunSnapshotView,
    latest: Option<VerificationRecordView>,
) -> Option<Fault> {
    match snapshot.outcome {
        None => None,
        Some(outcome) => {
            let active = value_at::<VerificationCandidate>(records, snapshot.candidate_ref->Some_0);
            if outcome.result is Succeeded && !(latest matches Some(result)
                && snapshot.candidate_ref is Some && snapshot.candidate_ref == Some(
                result.candidate_ref,
            ) && result.decision == Some(VerificationDecisionView::Pass) && active.format_error is None
                && outcome.output == active.output && outcome.verification == result.summary) {
                mismatch()
            } else if outcome.verification is Some && !(latest matches Some(result)
                && result.summary == outcome.verification) {
                mismatch()
            } else {
                None
            }
        },
    }
}

/// Why the verification state of a checkpoint is unacceptable.
pub open spec fn verification_state_fault(
    state: ScopeStateView,
    records: Map<RecordKeyView, ProtectedRecordView>,
    snapshot: RunSnapshotView,
    restored: Option<Fault>,
) -> Option<Fault> {
    if plan_fault(records, snapshot, restored) is Some {
        plan_fault(records, snapshot, restored)
    } else if snapshot.verification_plan_ref is None {
        if snapshot.candidate_ref is Some || snapshot.verification_records.len() != 0 {
            mismatch()
        } else {
            None
        }
    } else {
        let plan = value_at::<VerificationPlan>(records, snapshot.verification_plan_ref->Some_0);
        let n = snapshot.verification_records.len() as int;
        let latest = record_before(records, snapshot, n);
        if snapshot.candidate_ref is Some && candidate_fault(
            state,
            records,
            snapshot,
            plan,
            snapshot.candidate_ref->Some_0,
        ) is Some {
            candidate_fault(state, records, snapshot, plan, snapshot.candidate_ref->Some_0)
        } else if first_index_fault(
            0,
            n,
            record_at_fault(state, records, snapshot, plan),
        ) is Some {
            first_index_fault(0, n, record_at_fault(state, records, snapshot, plan))
        } else if candidate_wait_fault(snapshot, plan, latest) is Some {
            candidate_wait_fault(snapshot, plan, latest)
        } else {
            verified_outcome_fault(records, snapshot, latest)
        }
    }
}

fn check_summary(
    records: &Records,
    plan: &VerificationPlan,
    source: &VerificationCandidate,
    result: &VerificationRecord,
) -> (r: Result<(), ContractError>)
    ensures
        failure(r) == summary_fault(records@, plan@, source@, result@),
{
    match &result.summary {
        Some(summary) => {
            let definition = match &plan.verifier {
                Some(definition) => definition,
                None => {
                    return invalid();
                },
            };
            let summary_ref = match &result.summary_ref {
                Some(summary_ref) => summary_ref,
                None => {
                    return invalid();
                },
            };
            let stored = records.event_record::<VerificationSummary>(summary_ref)?;
            let verdict_fits = match &result.decision {
                Some(decision) => decision.verdict() == summary.verdict,
                None => false,
            };
            let ghost single = seq![result@.candidate_ref];
            assert(single.len() == 1 && single[0] == result@.candidate_ref);
            let evidence_fits = summary.evidence.len() == 1 && summary.evidence[0].same(
                &result.candidate_ref,
            );
            assert(evidence_fits == (summary@.evidence == single)) by {
                assert(summary@.evidence.len() == summary.evidence@.len());
                if summary.evidence.len() == 1 {
                    assert(summary@.evidence[0] == summary.evidence@[0]@);
                    if evidence_fits {
                        assert(summary@.evidence =~= single);
                    }
                }
            }
            if !stored.same(summary) || !summary.verifier_ref.same(&definition.verifier_ref)
                || !summary.criteria_ref.same(&definition.criteria_ref)
                || source.format_error.is_some() || !verdict_fits || !evidence_fits {
                return invalid();
            }
            Ok(())
        },
        None => {
            if result.summary_ref.is_some() || (result.error.is_none()
                && source.format_error.is_none() && plan.verifier.is_some()) {
                return invalid();
            }
            Ok(())
        },
    }
}

fn is_waiting_decision(record: &VerificationRecord) -> (r: bool)
    ensures
        r == (record@.decision matches Some(VerificationDecisionView::Wait { .. })),
{
    match &record.decision {
        Some(VerificationDecision::Wait { .. }) => true,
        _ => false,
    }
}

fn is_revise_decision(record: &VerificationRecord) -> (r: bool)
    ensures
        r == (record@.decision matches Some(VerificationDecisionView::Revise { .. })),
{
    match &record.decision {
        Some(VerificationDecision::Revise { .. }) => true,
        _ => false,
    }
}

fn check_review(
    snapshot: &RunSnapshot,
    plan: &VerificationPlan,
    latest: &Option<&VerificationRecord>,
    result: &VerificationRecord,
) -> (r: Result<(), ContractError>)
    ensures
        failure(r) == review_fault(snapshot@, plan@, latest.deep_view(), result@),
{
    let command_ref = match &result.review_command_ref {
        None => {
            return Ok(());
        },
        Some(command_ref) => command_ref,
    };
    let consumed = |receipt: &ResumeReceipt| -> (b: bool)
        ensures
            b == receipt_of(command_ref@)(receipt@),
    { receipt.command_ref.same(command_ref) && !receipt.expired };
    let receipt = match find(&snapshot.resume_receipts, consumed, Ghost(receipt_of(command_ref@))) {
        Some(receipt) => receipt,
        None => {
            return invalid();
        },
    };
    let verifier = match &plan.verifier {
        Some(verifier) => verifier,
        None => {
            return invalid();
        },
    };
    let expected = ApprovalTarget::Candidate {
        candidate_ref: result.candidate_ref.copy(),
        verifier_ref: verifier.verifier_ref.copy(),
    };
    let fits = match (&receipt.command.action, &result.decision) {
        (ResumeAction::Approve { target, .. }, Some(VerificationDecision::Pass)) => target.same(
            &expected,
        ),
        (
            ResumeAction::Deny { target, reason, .. },
            Some(VerificationDecision::Fail { reason: actual }),
        ) => target.same(&expected) && actual.same(reason),
        _ => false,
    };
    let asked = match latest {
        Some(prior) => prior.candidate_ref.same(&result.candidate_ref) && is_waiting_decision(prior),
        None => false,
    };
    if !fits || !asked {
        return invalid();
    }
    Ok(())
}

fn is_earlier_digest(references: &Vec<RecordRef>, i: usize) -> (r: bool)
    requires
        i < references.len(),
    ensures
        r == some_in(
            references.deep_view().take(i as int),
            with_digest(references.deep_view()[i as int].digest),
        ),
{
    let ghost s = references.deep_view();
    let ghost p = with_digest(s[i as int].digest);
    let mut k: usize = 0;
    while k < i
        invariant
            k <= i < references.len(),
            s == references.deep_view(),
            p == with_digest(s[i as int].digest),
            forall|j: int| 0 <= j < k ==> !p(#[trigger] s.take(i as int)[j]),
        decreases i - k,
    {
        if references[k].digest.same(&references[i].digest) {
            assert(p(s.take(i as int)[k as int]));
            return true;
        }
        k = k + 1;
    }
    false
}

fn is_repair_used(
    records: &Records,
    references: &Vec<RecordRef>,
    i: usize,
    repair: &Id,
) -> (r: bool)
    requires
        i <= references.len(),
        forall|k: int|
            0 <= k < i ==> event_fault::<VerificationRecord>(
                records@,
                #[trigger] references.deep_view()[k],
            ) is None,
    ensures
        r == some_in(references.deep_view().take(i as int), repair_used(records@, repair@)),
{
    let ghost s = references.deep_view();
    let ghost p = repair_used(records@, repair@);
    let mut k: usize = 0;
    while k < i
        invariant
            k <= i <= references.len(),
            s == references.deep_view(),
            p == repair_used(records@, repair@),
            forall|k: int|
                0 <= k < i ==> event_fault::<VerificationRecord>(records@, #[trigger] s[k]) is None,
            forall|j: int| 0 <= j < k ==> !p(#[trigger] s.take(i as int)[j]),
        decreases i - k,
    {
        assert(s[k as int] == references@[k as int]@);
        if let Ok(record) = records.event_record::<VerificationRecord>(&references[k]) {
            if is_same(&record.repair_ref, repair) {
                assert(p(s.take(i as int)[k as int]));
                return true;
            }
        }
        k = k + 1;
    }
    false
}

fn check_repair(
    records: &Records,
    snapshot: &RunSnapshot,
    i: usize,
    latest: &Option<&VerificationRecord>,
    result: &VerificationRecord,
) -> (r: Result<(), ContractError>)
    requires
        i <= snapshot.verification_records.len(),
        forall|k: int|
            0 <= k < i ==> event_fault::<VerificationRecord>(
                records@,
                #[trigger] snapshot@.verification_records[k],
            ) is None,
    ensures
        failure(r) == repair_fault(
            records@,
            snapshot@,
            snapshot@.verification_records.take(i as int),
            latest.deep_view(),
            result@,
        ),
{
    let repair = match &result.repair_ref {
        None => {
            return Ok(());
        },
        Some(repair) => repair,
    };
    let reserved = |reservation: &Reservation| -> (b: bool)
        ensures
            b == repair_reserved(repair@)(reservation@),
    { reservation.attempt_id.same(repair) && reservation.kind == ReservationKind::Repair };
    let due = match latest {
        Some(prior) => prior.candidate_ref.same(&result.candidate_ref) && prior.decision.same(
            &result.decision,
        ) && prior.repair_ref.is_none(),
        None => false,
    };
    if is_repair_used(records, &snapshot.verification_records, i, repair) || !any(
        &snapshot.reservations,
        reserved,
        Ghost(repair_reserved(repair@)),
    ) || !is_revise_decision(result) || !due {
        return invalid();
    }
    Ok(())
}

fn check_record(
    state: &ScopeState,
    records: &Records,
    snapshot: &RunSnapshot,
    plan: &VerificationPlan,
    i: usize,
) -> (r: Result<(), ContractError>)
    requires
        i < snapshot.verification_records.len(),
        forall|k: int|
            0 <= k < i ==> event_fault::<VerificationRecord>(
                records@,
                #[trigger] snapshot@.verification_records[k],
            ) is None,
    ensures
        failure(r) == record_at_fault(state@, records@, snapshot@, plan@)(i as int),
{
    if is_earlier_digest(&snapshot.verification_records, i) {
        return invalid();
    }
    let result = records.event_record::<VerificationRecord>(&snapshot.verification_records[i])?;
    let source = candidate(state, records, snapshot, plan, &result.candidate_ref)?;
    if !reads(&result.schema_version, "wickle.verification-record.v1") || !result.scope.same(
        &snapshot.scope,
    ) || !result.run_id.same(&snapshot.run_id) || result.decision.is_some()
        == result.error.is_some() {
        return invalid();
    }
    check_summary(records, plan, source, result)?;
    if source.format_error.is_some() && !is_revise_decision(result) {
        return invalid();
    }
    let latest = if i == 0 {
        None
    } else {
        assert(event_fault::<VerificationRecord>(
            records@,
            snapshot@.verification_records[i - 1],
        ) is None);
        assert(snapshot@.verification_records[i - 1] == snapshot.verification_records@[i - 1]@);
        match records.event_record::<VerificationRecord>(&snapshot.verification_records[i - 1]) {
            Ok(record) => Some(record),
            Err(_) => None,
        }
    };
    check_review(snapshot, plan, &latest, result)?;
    check_repair(records, snapshot, i, &latest, result)
}

fn check_candidate_wait(
    snapshot: &RunSnapshot,
    plan: &VerificationPlan,
    latest: &Option<&VerificationRecord>,
) -> (r: Result<(), ContractError>)
    ensures
        failure(r) == candidate_wait_fault(snapshot@, plan@, latest.deep_view()),
{
    if let Some(wait) = &snapshot.wait {
        if let WaitTarget::Approval { target } = &wait.target {
            if let ApprovalTarget::Candidate { candidate_ref, verifier_ref } = target {
                let asked = match latest {
                    Some(result) => result.candidate_ref.same(candidate_ref) && is_waiting_decision(
                        result,
                    ),
                    None => false,
                };
                let by_verifier = match &plan.verifier {
                    Some(verifier) => verifier.verifier_ref.same(verifier_ref),
                    None => false,
                };
                if !is_same(&snapshot.candidate_ref, candidate_ref) || !by_verifier || !asked {
                    return invalid();
                }
            }
        }
    }
    Ok(())
}

fn check_verified_outcome(
    records: &Records,
    snapshot: &RunSnapshot,
    active: &Option<&VerificationCandidate>,
    latest: &Option<&VerificationRecord>,
) -> (r: Result<(), ContractError>)
    requires
        active.deep_view() == (match snapshot@.candidate_ref {
            Some(reference) => Some(value_at::<VerificationCandidate>(records@, reference)),
            None => None,
        }),
    ensures
        failure(r) == verified_outcome_fault(records@, snapshot@, latest.deep_view()),
{
    if let Some(outcome) = &snapshot.outcome {
        let succeeded = match &outcome.result {
            OutcomeResult::Succeeded { .. } => true,
            _ => false,
        };
        if succeeded {
            let verified = match (active, latest) {
                (Some(active), Some(result)) => {
                    let passed = match &result.decision {
                        Some(VerificationDecision::Pass) => true,
                        _ => false,
                    };
                    is_same(&snapshot.candidate_ref, &result.candidate_ref) && passed
                        && active.format_error.is_none() && outcome.output.same(&active.output)
                        && outcome.verification.same(&result.summary)
                },
                _ => false,
            };
            if !verified {
                return invalid();
            }
        }
        if outcome.verification.is_some() {
            let reported = match latest {
                Some(result) => result.summary.same(&outcome.verification),
                None => false,
            };
            if !reported {
                return invalid();
            }
        }
    }
    Ok(())
}

/// Check the verification state of a checkpoint. `restored` is what restoring the plan against the
/// run reported.
pub fn validate(
    state: &ScopeState,
    records: &Records,
    snapshot: &RunSnapshot,
    restored: &Option<ContractError>,
) -> (r: Result<(), ContractError>)
    ensures
        failure(r) == verification_state_fault(state@, records@, snapshot@, restored.deep_view()),
{
    let plan = match plan(records, snapshot, restored)? {
        Some(plan) => plan,
        None => {
            if snapshot.candidate_ref.is_some() || snapshot.verification_records.len() != 0 {
                return invalid();
            }
            return Ok(());
        },
    };
    let active = match &snapshot.candidate_ref {
        Some(reference) => Some(candidate(state, records, snapshot, plan, reference)?),
        None => None,
    };
    let ghost p = record_at_fault(state@, records@, snapshot@, plan@);
    let ghost n = snapshot.verification_records.len() as int;
    let mut i: usize = 0;
    while i < snapshot.verification_records.len()
        invariant
            i <= snapshot.verification_records.len(),
            n == snapshot.verification_records.len(),
            p == record_at_fault(state@, records@, snapshot@, plan@),
            first_index_fault(0, n, p) == first_index_fault(i as int, n, p),
            forall|k: int|
                0 <= k < i ==> event_fault::<VerificationRecord>(
                    records@,
                    #[trigger] snapshot@.verification_records[k],
                ) is None,
            snapshot@.verification_plan_ref is Some,
            plan@ == value_at::<VerificationPlan>(
                records@,
                snapshot@.verification_plan_ref->Some_0,
            ),
            plan_fault(records@, snapshot@, restored.deep_view()) is None,
            snapshot@.candidate_ref is Some ==> candidate_fault(
                state@,
                records@,
                snapshot@,
                plan@,
                snapshot@.candidate_ref->Some_0,
            ) is None,
        decreases snapshot.verification_records.len() - i,
    {
        check_record(state, records, snapshot, plan, i)?;
        assert(p(i as int) is None);
        i = i + 1;
    }
    let latest = if snapshot.verification_records.len() == 0 {
        None
    } else {
        assert(snapshot@.verification_records[n - 1] == snapshot.verification_records@[n - 1]@);
        match records.event_record::<VerificationRecord>(
            &snapshot.verification_records[snapshot.verification_records.len() - 1],
        ) {
            Ok(record) => Some(record),
            Err(_) => None,
        }
    };
    check_candidate_wait(snapshot, plan, &latest)?;
    check_verified_outcome(records, snapshot, &active, &latest)
}

/// Why the verification ledger may not change this way.
pub open spec fn update_fault(previous: RunSnapshotView, next: RunSnapshotView) -> Option<Fault> {
    if previous.verification_plan_ref != next.verification_plan_ref || !continues(
        previous.verification_records,
        next.verification_records,
    ) {
        mismatch()
    } else if previous.candidate_ref is Some && next.candidate_ref is Some
        && previous.candidate_ref != next.candidate_ref {
        mismatch()
    } else if previous.candidate_ref is Some && next.candidate_ref is None
        && next.verification_records.len() == previous.verification_records.len() {
        mismatch()
    } else {
        None
    }
}

/// Check that the verification ledger only grows.
pub fn update(previous: &RunSnapshot, next: &RunSnapshot) -> (r: Result<(), ContractError>)
    ensures
        failure(r) == update_fault(previous@, next@),
{
    if !previous.verification_plan_ref.same(&next.verification_plan_ref) || !continues_by_one(
        &previous.verification_records,
        &next.verification_records,
    ) {
        return invalid();
    }
    if previous.candidate_ref.is_some() && next.candidate_ref.is_some()
        && !previous.candidate_ref.same(&next.candidate_ref) {
        return invalid();
    }
    if previous.candidate_ref.is_some() && next.candidate_ref.is_none()
        && next.verification_records.len() == previous.verification_records.len() {
        return invalid();
    }
    Ok(())
}

/// The verification records that report this summary.
pub open spec fn reports_summary(
    records: Map<RecordKeyView, ProtectedRecordView>,
    reference: RecordRefView,
    summary: VerificationSummaryView,
) -> spec_fn(RecordRefView) -> bool {
    |record: RecordRefView|
        {
            let value = value_at::<VerificationRecord>(records, record);
            &&& event_fault::<VerificationRecord>(records, record) is None
            &&& value.summary_ref == Some(reference)
            &&& value.summary == Some(summary)
        }
}

/// Why a verification event is unacceptable.
pub open spec fn verification_event_fault(
    records: Map<RecordKeyView, ProtectedRecordView>,
    snapshot: RunSnapshotView,
    reference: RecordRefView,
) -> Option<Fault> {
    let summary = value_at::<VerificationSummary>(records, reference);
    if event_fault::<VerificationSummary>(records, reference) is Some {
        event_fault::<VerificationSummary>(records, reference)
    } else if snapshot.verification_plan_ref is None {
        if snapshot.outcome matches Some(outcome) && outcome.verification == Some(summary) {
            None
        } else {
            mismatch()
        }
    } else if !some_in(
        snapshot.verification_records,
        reports_summary(records, reference, summary),
    ) {
        mismatch()
    } else {
        None
    }
}

/// Check the summary that a verification event names.
pub fn event(records: &Records, snapshot: &RunSnapshot, reference: &RecordRef) -> (r: Result<
    (),
    ContractError,
>)
    ensures
        failure(r) == verification_event_fault(records@, snapshot@, reference@),
{
    let summary = records.event_record::<VerificationSummary>(reference)?;
    if snapshot.verification_plan_ref.is_none() {
        let reported = match &snapshot.outcome {
            Some(outcome) => is_same(&outcome.verification, summary),
            None => false,
        };
        if !reported {
            return invalid();
        }
        return Ok(());
    }
    let reporting = |record: &RecordRef| -> (b: bool)
        ensures
            b == reports_summary(records@, reference@, summary@)(record@),
    {
        match records.event_record::<VerificationRecord>(record) {
            Ok(value) => is_same(&value.summary_ref, reference) && is_same(&value.summary, summary),
            Err(_) => false,
        }
    };
    if !any(
        &snapshot.verification_records,
        reporting,
        Ghost(reports_summary(records@, reference@, summary@)),
    ) {
        return invalid();
    }
    Ok(())
}

/// Why the verification records of a list cannot be read.
pub open spec fn summaries_fault(
    records: Map<RecordKeyView, ProtectedRecordView>,
    references: Seq<RecordRefView>,
) -> Option<Fault> {
    first_fault(
        references,
        |reference: RecordRefView| event_fault::<VerificationRecord>(records, reference),
    )
}

/// The distinct summaries that verification records refer to, in order.
pub open spec fn summaries_of(
    records: Map<RecordKeyView, ProtectedRecordView>,
    references: Seq<RecordRefView>,
) -> Seq<RecordRefView>
    decreases references.len(),
{
    if references.len() == 0 {
        Seq::empty()
    } else {
        let front = summaries_of(records, references.drop_last());
        match value_at::<VerificationRecord>(records, references.last()).summary_ref {
            Some(reference) => if front.contains(reference) {
                front
            } else {
                front.push(reference)
            },
            None => front,
        }
    }
}

/// The distinct summaries of a run, in order.
pub fn summaries(records: &Records, snapshot: &RunSnapshot) -> (r: Result<
    Vec<RecordRef>,
    ContractError,
>)
    ensures
        failure(r) == summaries_fault(records@, snapshot@.verification_records),
        r matches Ok(list) ==> list.deep_view() == summaries_of(
            records@,
            snapshot@.verification_records,
        ),
{
    let ghost s = snapshot@.verification_records;
    let ghost f = |reference: RecordRefView|
        event_fault::<VerificationRecord>(records@, reference);
    let mut out: Vec<RecordRef> = Vec::new();
    let mut i: usize = 0;
    assert(s.skip(0) =~= s);
    assert(s.take(0) =~= Seq::<RecordRefView>::empty());
    assert(out.deep_view() =~= Seq::<RecordRefView>::empty());
    while i < snapshot.verification_records.len()
        invariant
            i <= snapshot.verification_records.len(),
            s == snapshot@.verification_records,
            s.len() == snapshot.verification_records.len(),
            f == (|reference: RecordRefView|
                event_fault::<VerificationRecord>(records@, reference)),
            first_fault(s, f) == first_fault(s.skip(i as int), f),
            summaries_fault(records@, s) == first_fault(s, f),
            out.deep_view() == summaries_of(records@, s.take(i as int)),
        decreases snapshot.verification_records.len() - i,
    {
        assert(s.skip(i as int)[0] == snapshot.verification_records@[i as int]@);
        assert(s.skip(i as int).skip(1) =~= s.skip(i + 1));
        assert(s.take(i + 1).drop_last() =~= s.take(i as int));
        assert(s.take(i + 1).last() == s[i as int]);
        let record = records.event_record::<VerificationRecord>(
            &snapshot.verification_records[i],
        )?;
        if let Some(reference) = &record.summary_ref {
            if !contains(&out, reference) {
                let ghost before = out.deep_view();
                out.push(reference.copy());
                assert(out.deep_view() =~= before.push(reference@));
            }
        }
        i = i + 1;
    }
    assert(s.take(i as int) =~= s);
    Ok(out)
}

/// The summaries that events report, in order.
pub open spec fn completed_of(events: Seq<RunEventView>) -> Seq<RecordRefView>
    decreases events.len(),
{
    if events.len() == 0 {
        Seq::empty()
    } else {
        let front = completed_of(events.drop_last());
        match events.last().payload {
            RunEventPayloadView::VerificationCompleted { verification_ref } => front.push(
                verification_ref,
            ),
            _ => front,
        }
    }
}

fn completed(events: &Vec<RunEvent>) -> (r: Vec<RecordRef>)
    ensures
        r.deep_view() == completed_of(events.deep_view()),
{
    let ghost s = events.deep_view();
    let mut out: Vec<RecordRef> = Vec::new();
    let mut i: usize = 0;
    assert(s.take(0) =~= Seq::<RunEventView>::empty());
    assert(out.deep_view() =~= Seq::<RecordRefView>::empty());
    while i < events.len()
        invariant
            i <= events.len(),
            s == events.deep_view(),
            out.deep_view() == completed_of(s.take(i as int)),
        decreases events.len() - i,
    {
        assert(s.take(i + 1).drop_last() =~= s.take(i as int));
        assert(s.take(i + 1).last() == events@[i as int]@);
        if let RunEventPayload::VerificationCompleted { verification_ref } = &events[i].payload {
            let ghost before = out.deep_view();
            out.push(verification_ref.copy());
            assert(out.deep_view() =~= before.push(verification_ref@));
        }
        i = i + 1;
    }
    assert(s.take(i as int) =~= s);
    out
}

/// The content blocks of a message.
pub open spec fn plain_content(blocks: Seq<ContentBlockView>) -> Seq<InputContentView>
    decreases blocks.len(),
{
    if blocks.len() == 0 {
        Seq::empty()
    } else {
        let front = plain_content(blocks.drop_last());
        match blocks.last() {
            ContentBlockView::Content { content } => front.push(content),
            _ => front,
        }
    }
}

fn content_of(message: &Message) -> (r: Vec<InputContent>)
    ensures
        r.deep_view() == plain_content(message@.content),
{
    let ghost s = message@.content;
    let mut out: Vec<InputContent> = Vec::new();
    let mut i: usize = 0;
    assert(s.take(0) =~= Seq::<ContentBlockView>::empty());
    assert(out.deep_view() =~= Seq::<InputContentView>::empty());
    while i < message.content.len()
        invariant
            i <= message.content.len(),
            s == message@.content,
            s.len() == message.content.len(),
            out.deep_view() == plain_content(s.take(i as int)),
        decreases message.content.len() - i,
    {
        assert(s.take(i + 1).drop_last() =~= s.take(i as int));
        assert(s.take(i + 1).last() == message.content@[i as int]@);
        if let ContentBlock::Content { content } = &message.content[i] {
            let ghost before = out.deep_view();
            out.push(content.copy());
            assert(out.deep_view() =~= before.push(content@));
        }
        i = i + 1;
    }
    assert(s.take(i as int) =~= s);
    out
}

/// The document that tells the model why its answer was sent back.
pub open spec fn feedback_json(candidate_digest: Seq<char>, feedback: JsonView) -> JsonView {
    JsonView::Object(
        seq![
            MemberView { key: "candidate_digest"@, value: JsonView::Text(candidate_digest) },
            MemberView { key: "feedback"@, value: feedback },
            MemberView { key: "kind"@, value: JsonView::Text("verification_feedback"@) },
        ],
    )
}

fn is_feedback(message: &Message, candidate_ref: &RecordRef, feedback: &Json) -> (r: bool)
    ensures
        r == (message@.content == seq![
            ContentBlockView::Content {
                content: InputContentView::Json {
                    value: feedback_json(candidate_ref@.digest, feedback@),
                },
            },
        ]),
{
    let members = vec![
        member("candidate_digest", text(candidate_ref.digest.as_str())),
        member("feedback", feedback.copy()),
        member("kind", text("verification_feedback")),
    ];
    assert(members.deep_view() =~= feedback_json(candidate_ref@.digest, feedback@)->Object_0);
    let expected = object(members);
    let ghost single = seq![
        ContentBlockView::Content {
            content: InputContentView::Json {
                value: feedback_json(candidate_ref@.digest, feedback@),
            },
        },
    ];
    assert(single.len() == 1 && message@.content.len() == message.content@.len());
    if message.content.len() != 1 {
        return false;
    }
    assert(message@.content[0] == message.content@[0]@);
    assert(single[0] == (ContentBlockView::Content {
        content: InputContentView::Json {
            value: feedback_json(candidate_ref@.digest, feedback@),
        },
    }));
    match &message.content[0] {
        ContentBlock::Content { content } => match content {
            InputContent::Json { value } => {
                let same = value.same(&expected);
                assert(same ==> message@.content =~= single);
                same
            },
            _ => false,
        },
        _ => false,
    }
}

/// The attempt whose response is the candidate.
pub open spec fn attempt_with_response(attempt: Seq<char>, response_ref: RecordRefView) -> spec_fn(
    ModelInvocationRecordView,
) -> bool {
    |entry: ModelInvocationRecordView|
        entry.attempt_id == attempt && entry.response_ref == Some(response_ref)
}

/// The message repeats the candidate: its output, and the attempt that produced it.
pub open spec fn repeats_candidate(
    snapshot: RunSnapshotView,
    candidate: VerificationCandidateView,
    answer: MessageView,
) -> bool {
    &&& answer.origin is Model
    &&& plain_content(answer.content) == candidate.output
    &&& answer.source_model_request_id matches Some(attempt) ==> some_in(
        snapshot.model_ledger,
        attempt_with_response(attempt, candidate.response_ref),
    )
}

/// The message tells the model why the candidate was sent back.
pub open spec fn sends_back(
    record: VerificationRecordView,
    feedback: JsonView,
    revision: MessageView,
) -> bool {
    &&& revision.origin is Verification
    &&& revision.visibility is Model
    &&& revision.content == seq![
        ContentBlockView::Content {
            content: InputContentView::Json {
                value: feedback_json(record.candidate_ref.digest, feedback),
            },
        },
    ]
}

fn is_candidate_repeated(
    snapshot: &RunSnapshot,
    candidate: &VerificationCandidate,
    answer: &Message,
) -> (r: bool)
    ensures
        r == repeats_candidate(snapshot@, candidate@, answer@),
{
    let sourced = match &answer.source_model_request_id {
        Some(attempt) => {
            let source = |entry: &ModelInvocationRecord| -> (b: bool)
                ensures
                    b == attempt_with_response(attempt@, candidate@.response_ref)(entry@),
            {
                entry.attempt_id.same(attempt) && is_same(
                    &entry.response_ref,
                    &candidate.response_ref,
                )
            };
            any(
                &snapshot.model_ledger,
                source,
                Ghost(attempt_with_response(attempt@, candidate@.response_ref)),
            )
        },
        None => true,
    };
    answer.origin == MessageOrigin::Model && content_of(answer).same(&candidate.output) && sourced
}

fn is_sent_back(record: &VerificationRecord, feedback: &Json, revision: &Message) -> (r: bool)
    ensures
        r == sends_back(record@, feedback@, revision@),
{
    revision.origin == MessageOrigin::Verification && revision.visibility == Visibility::Model
        && is_feedback(revision, &record.candidate_ref, feedback)
}

/// Why the messages of a repair are not the ones that are due.
pub open spec fn repair_messages_fault(
    records: Map<RecordKeyView, ProtectedRecordView>,
    previous: RunSnapshotView,
    next: RunSnapshotView,
    messages: Seq<MessageView>,
) -> Option<Fault> {
    match final_of(next.verification_records) {
        None => mismatch(),
        Some(reference) => {
            let record = value_at::<VerificationRecord>(records, reference);
            let candidate = value_at::<VerificationCandidate>(records, record.candidate_ref);
            if event_fault::<VerificationRecord>(records, reference) is Some {
                event_fault::<VerificationRecord>(records, reference)
            } else if previous.candidate_ref != Some(record.candidate_ref)
                || record.repair_ref is None {
                mismatch()
            } else {
                match record.decision {
                    Some(VerificationDecisionView::Revise { feedback }) => if event_fault::<
                        VerificationCandidate,
                    >(records, record.candidate_ref) is Some {
                        event_fault::<VerificationCandidate>(records, record.candidate_ref)
                    } else if messages.len() != 2 || !(messages[0].role is Assistant) || !(
                    messages[0].visibility is Model) || !repeats_candidate(
                        next,
                        candidate,
                        messages[0],
                    ) || !(messages[1].role is User) || !sends_back(record, feedback, messages[1]) {
                        mismatch()
                    } else {
                        None
                    },
                    _ => mismatch(),
                }
            }
        },
    }
}

/// Why the verification data may not change this way.
pub open spec fn verification_transition_fault(
    records: Map<RecordKeyView, ProtectedRecordView>,
    previous: RunSnapshotView,
    next: RunSnapshotView,
    messages: Seq<MessageView>,
    events: Seq<RunEventView>,
) -> Option<Fault> {
    if update_fault(previous, next) is Some {
        update_fault(previous, next)
    } else if next.verification_plan_ref is None {
        None
    } else if summaries_fault(records, previous.verification_records) is Some {
        summaries_fault(records, previous.verification_records)
    } else if summaries_fault(records, next.verification_records) is Some {
        summaries_fault(records, next.verification_records)
    } else if completed_of(events) != kept(
        summaries_of(records, next.verification_records),
        absent_from(summaries_of(records, previous.verification_records)),
    ) {
        fault(ErrorCode::InvalidEvent, "verification.missing_event")
    } else if previous.candidate_ref is Some && next.candidate_ref is None {
        repair_messages_fault(records, previous, next, messages)
    } else if some_in(messages, |message: MessageView| message.origin is Verification) {
        mismatch()
    } else {
        None
    }
}

/// The references that a list does not hold.
pub open spec fn absent_from(list: Seq<RecordRefView>) -> spec_fn(RecordRefView) -> bool {
    |reference: RecordRefView| !list.contains(reference)
}

fn check_repair_messages(
    records: &Records,
    previous: &RunSnapshot,
    next: &RunSnapshot,
    messages: &Vec<Message>,
) -> (r: Result<(), ContractError>)
    ensures
        failure(r) == repair_messages_fault(records@, previous@, next@, messages.deep_view()),
{
    let reference = match last(&next.verification_records) {
        Some(reference) => reference,
        None => {
            return invalid();
        },
    };
    let record = records.event_record::<VerificationRecord>(reference)?;
    if !is_same(&previous.candidate_ref, &record.candidate_ref) || record.repair_ref.is_none() {
        return invalid();
    }
    let feedback = match &record.decision {
        Some(VerificationDecision::Revise { feedback }) => feedback,
        _ => {
            return invalid();
        },
    };
    let candidate = records.event_record::<VerificationCandidate>(&record.candidate_ref)?;
    if messages.len() != 2 {
        return invalid();
    }
    let answer = &messages[0];
    let revision = &messages[1];
    assert(messages.deep_view()[0] == answer@ && messages.deep_view()[1] == revision@);
    if answer.role != MessageRole::Assistant || answer.visibility != Visibility::Model
        || !is_candidate_repeated(next, candidate, answer) || revision.role != MessageRole::User
        || !is_sent_back(record, feedback, revision) {
        return invalid();
    }
    Ok(())
}

/// Check that verification data, messages and events change together.
pub fn transition(
    records: &Records,
    previous: &RunSnapshot,
    next: &RunSnapshot,
    messages: &Vec<Message>,
    events: &Vec<RunEvent>,
) -> (r: Result<(), ContractError>)
    ensures
        failure(r) == verification_transition_fault(
            records@,
            previous@,
            next@,
            messages.deep_view(),
            events.deep_view(),
        ),
{
    update(previous, next)?;
    if next.verification_plan_ref.is_none() {
        return Ok(());
    }
    let before = summaries(records, previous)?;
    let after = summaries(records, next)?;
    let new = |reference: &RecordRef| -> (b: bool)
        ensures
            b == absent_from(before.deep_view())(reference@),
    { !contains(&before, reference) };
    let expected = keep(&after, new, Ghost(absent_from(before.deep_view())));
    if !completed(events).same(&expected) {
        return fail(ErrorCode::InvalidEvent, "verification.missing_event");
    }
    if previous.candidate_ref.is_some() && next.candidate_ref.is_none() {
        return check_repair_messages(records, previous, next, messages);
    }
    let verification = |message: &Message| -> (b: bool)
        ensures
            b == (message@.origin is Verification),
    { message.origin == MessageOrigin::Verification };
    if any(messages, verification, Ghost(|message: MessageView| message.origin is Verification)) {
        return invalid();
    }
    Ok(())
}

/// The message at a sequence number.
pub open spec fn at_sequence(sequence: int) -> spec_fn(MessageView) -> bool {
    |message: MessageView| message.sequence == sequence
}

/// The verification messages of a run.
pub open spec fn feedback_of_run(run_id: Seq<char>) -> spec_fn(MessageView) -> bool {
    |message: MessageView| message.run_id == run_id && message.origin is Verification
}

/// The number `by` positions after a sequence number, or the greatest one.
pub open spec fn sequence_after(sequence: u64, by: int) -> int {
    if sequence + by > u64::MAX {
        u64::MAX as int
    } else {
        sequence + by
    }
}

/// Why the transcript does not hold the messages of a repair.
pub open spec fn repair_history_fault(
    records: Map<RecordKeyView, ProtectedRecordView>,
    snapshot: RunSnapshotView,
    transcript: Seq<MessageView>,
) -> spec_fn(RecordRefView) -> Option<Fault> {
    |reference: RecordRefView|
        {
            let record = value_at::<VerificationRecord>(records, reference);
            let candidate = value_at::<VerificationCandidate>(records, record.candidate_ref);
            if event_fault::<VerificationRecord>(records, reference) is Some {
                event_fault::<VerificationRecord>(records, reference)
            } else if record.repair_ref is None {
                None
            } else if event_fault::<VerificationCandidate>(records, record.candidate_ref) is Some {
                event_fault::<VerificationCandidate>(records, record.candidate_ref)
            } else {
                match record.decision {
                    Some(VerificationDecisionView::Revise { feedback }) => {
                        let answer = first_in(
                            transcript,
                            at_sequence(sequence_after(candidate.through_sequence, 1)),
                        );
                        let revision = first_in(
                            transcript,
                            at_sequence(sequence_after(candidate.through_sequence, 2)),
                        );
                        if answer is None || revision is None || answer->Some_0.run_id
                            != snapshot.run_id || !repeats_candidate(
                            snapshot,
                            candidate,
                            answer->Some_0,
                        ) || revision->Some_0.run_id != snapshot.run_id || !sends_back(
                            record,
                            feedback,
                            revision->Some_0,
                        ) {
                            mismatch()
                        } else {
                            None
                        }
                    },
                    _ => mismatch(),
                }
            }
        }
}

/// The records that report a repair.
pub open spec fn repaired(records: Map<RecordKeyView, ProtectedRecordView>) -> spec_fn(
    RecordRefView,
) -> bool {
    |reference: RecordRefView|
        value_at::<VerificationRecord>(records, reference).repair_ref is Some
}

/// Why a restored run's verification history is unacceptable.
pub open spec fn verification_history_fault(
    state: ScopeStateView,
    snapshot: RunSnapshotView,
    events: Seq<RunEventView>,
) -> Option<Fault> {
    let records = state.records;
    if snapshot.verification_plan_ref is None {
        None
    } else if summaries_fault(records, snapshot.verification_records) is Some {
        summaries_fault(records, snapshot.verification_records)
    } else if completed_of(events) != summaries_of(records, snapshot.verification_records) {
        fault(ErrorCode::InvalidSnapshot, "verification.event_history")
    } else if !state.sessions.dom().contains(snapshot.request.session_id) {
        mismatch()
    } else {
        let transcript = state.sessions[snapshot.request.session_id].messages;
        or_else(
            first_fault(
                snapshot.verification_records,
                repair_history_fault(records, snapshot, transcript),
            ),
            if count_in(transcript, feedback_of_run(snapshot.run_id)) != count_in(
                snapshot.verification_records,
                repaired(records),
            ) {
                mismatch()
            } else {
                None
            },
        )
    }
}

fn find_at<'a>(transcript: &'a Vec<Message>, sequence: u64, by: u64) -> (r: Option<&'a Message>)
    ensures
        r.deep_view() == first_in(
            transcript.deep_view(),
            at_sequence(sequence_after(sequence, by as int)),
        ),
{
    let wanted: u64 = if sequence <= u64::MAX - by {
        sequence + by
    } else {
        u64::MAX
    };
    let placed = |message: &Message| -> (b: bool)
        ensures
            b == at_sequence(sequence_after(sequence, by as int))(message@),
    { message.sequence == wanted };
    find(transcript, placed, Ghost(at_sequence(sequence_after(sequence, by as int))))
}

fn check_repair_history(
    records: &Records,
    snapshot: &RunSnapshot,
    transcript: &Vec<Message>,
    reference: &RecordRef,
) -> (r: Result<(), ContractError>)
    ensures
        failure(r) == repair_history_fault(records@, snapshot@, transcript.deep_view())(
            reference@,
        ),
{
    let record = records.event_record::<VerificationRecord>(reference)?;
    if record.repair_ref.is_none() {
        return Ok(());
    }
    let candidate = records.event_record::<VerificationCandidate>(&record.candidate_ref)?;
    let feedback = match &record.decision {
        Some(VerificationDecision::Revise { feedback }) => feedback,
        _ => {
            return invalid();
        },
    };
    let answer = match find_at(transcript, candidate.through_sequence, 1) {
        Some(answer) => answer,
        None => {
            return invalid();
        },
    };
    let revision = match find_at(transcript, candidate.through_sequence, 2) {
        Some(revision) => revision,
        None => {
            return invalid();
        },
    };
    if !answer.run_id.same(&snapshot.run_id) || !is_candidate_repeated(snapshot, candidate, answer)
        || !revision.run_id.same(&snapshot.run_id) || !is_sent_back(record, feedback, revision) {
        return invalid();
    }
    Ok(())
}

/// Check the verification history of a restored run.
pub fn history(state: &ScopeState, snapshot: &RunSnapshot, events: &Vec<RunEvent>) -> (r: Result<
    (),
    ContractError,
>)
    ensures
        failure(r) == verification_history_fault(state@, snapshot@, events.deep_view()),
{
    if snapshot.verification_plan_ref.is_none() {
        return Ok(());
    }
    let none = crate::table::Table::new();
    let records = Records { stored: &state.records, added: &none };
    assert(records@ =~= state@.records);
    let expected = summaries(&records, snapshot)?;
    if !completed(events).same(&expected) {
        return fail(ErrorCode::InvalidSnapshot, "verification.event_history");
    }
    let session = match state.sessions.get(&snapshot.request.session_id) {
        Some(session) => session,
        None => {
            return invalid();
        },
    };
    let transcript = &session.messages;
    let ghost s = snapshot@.verification_records;
    let ghost f = repair_history_fault(records@, snapshot@, transcript.deep_view());
    let ghost p = repaired(records@);
    let mut expected_feedback: usize = 0;
    let mut i: usize = 0;
    assert(s.skip(0) =~= s);
    while i < snapshot.verification_records.len()
        invariant
            i <= snapshot.verification_records.len(),
            expected_feedback <= i,
            s == snapshot@.verification_records,
            s.len() == snapshot.verification_records.len(),
            f == repair_history_fault(records@, snapshot@, transcript.deep_view()),
            p == repaired(records@),
            first_fault(s, f) == first_fault(s.skip(i as int), f),
            count_in(s, p) == expected_feedback + count_in(s.skip(i as int), p),
            snapshot@.verification_plan_ref is Some,
            records@ == state@.records,
            summaries_fault(records@, s) is None,
            completed_of(events.deep_view()) == summaries_of(records@, s),
            state@.sessions.dom().contains(snapshot@.request.session_id),
            transcript.deep_view() == state@.sessions[snapshot@.request.session_id].messages,
        decreases snapshot.verification_records.len() - i,
    {
        let reference = &snapshot.verification_records[i];
        assert(s.skip(i as int)[0] == reference@);
        assert(s.skip(i as int).skip(1) =~= s.skip(i + 1));
        check_repair_history(&records, snapshot, transcript, reference)?;
        let record = records.event_record::<VerificationRecord>(reference)?;
        if record.repair_ref.is_some() {
            expected_feedback = expected_feedback + 1;
        }
        i = i + 1;
    }
    let feedback = |message: &Message| -> (b: bool)
        ensures
            b == feedback_of_run(snapshot@.run_id)(message@),
    { message.run_id.same(&snapshot.run_id) && message.origin == MessageOrigin::Verification };
    if count(transcript, feedback, Ghost(feedback_of_run(snapshot@.run_id))) != expected_feedback {
        return invalid();
    }
    Ok(())
}

/// Under a verification plan, a run succeeds only with the output of its current candidate, after a
/// decision that passes exactly this candidate.
pub proof fn law_success_is_verified(
    state: ScopeStateView,
    records: Map<RecordKeyView, ProtectedRecordView>,
    snapshot: RunSnapshotView,
    restored: Option<Fault>,
)
    requires
        verification_state_fault(state, records, snapshot, restored) is None,
        snapshot.verification_plan_ref is Some,
        snapshot.outcome is Some,
        snapshot.outcome->Some_0.result is Succeeded,
    ensures
        snapshot.candidate_ref is Some,
        snapshot.verification_records.len() > 0,
        ({
            let result = value_at::<VerificationRecord>(
                records,
                snapshot.verification_records.last(),
            );
            let active = value_at::<VerificationCandidate>(records, snapshot.candidate_ref->Some_0);
            &&& result.decision == Some(VerificationDecisionView::Pass)
            &&& Some(result.candidate_ref) == snapshot.candidate_ref
            &&& snapshot.outcome->Some_0.output == active.output
        }),
{
}

/// A review is repeated by its decision: an approval of exactly this candidate, for exactly the pinned
/// verifier, as a pass, and its denial as a failure for the same reason. No other action reviews.
pub proof fn law_reviews_decide_what_they_say(
    plan: VerificationPlanView,
    result: VerificationRecordView,
    wait_id: Seq<char>,
    target: ApprovalTargetView,
    reason: Seq<char>,
    answer: JsonView,
)
    ensures
        ({
            let own = target == (ApprovalTargetView::Candidate {
                candidate_ref: result.candidate_ref,
                verifier_ref: plan.verifier->Some_0.verifier_ref,
            });
            &&& review_fits(plan, result, ResumeActionView::Approve { wait_id, target }) <==> own
                && result.decision == Some(VerificationDecisionView::Pass)
            &&& review_fits(plan, result, ResumeActionView::Deny { wait_id, target, reason })
                <==> own && result.decision == Some(VerificationDecisionView::Fail { reason })
            &&& !review_fits(plan, result, ResumeActionView::Input { wait_id, answer })
        }),
{
}

/// A reviewed record follows the verifier's own question about the same candidate, and rests on an
/// answer that was accepted in time.
pub proof fn law_reviews_answer_a_question(
    snapshot: RunSnapshotView,
    plan: VerificationPlanView,
    latest: Option<VerificationRecordView>,
    result: VerificationRecordView,
)
    requires
        review_fault(snapshot, plan, latest, result) is None,
        result.review_command_ref is Some,
    ensures
        latest is Some,
        latest->Some_0.candidate_ref == result.candidate_ref,
        latest->Some_0.decision is Some && latest->Some_0.decision->Some_0 is Wait,
        exists|i: int|
            0 <= i < snapshot.resume_receipts.len() && (
            #[trigger] snapshot.resume_receipts[i]).command_ref
                == result.review_command_ref->Some_0 && !snapshot.resume_receipts[i].expired
                && review_fits(plan, result, snapshot.resume_receipts[i].command.action),
{
    let p = receipt_of(result.review_command_ref->Some_0);
    crate::data::lemma_first_in(snapshot.resume_receipts, p);
    let receipt = first_in(snapshot.resume_receipts, p)->Some_0;
    let i = choose|i: int|
        0 <= i < snapshot.resume_receipts.len() && snapshot.resume_receipts[i] == receipt;
    assert(snapshot.resume_receipts[i].command_ref == result.review_command_ref->Some_0);
}

/// A repair is made once, for a candidate that was sent back, out of a reservation of its own.
pub proof fn law_repairs_are_reserved(
    records: Map<RecordKeyView, ProtectedRecordView>,
    snapshot: RunSnapshotView,
    earlier: Seq<RecordRefView>,
    latest: Option<VerificationRecordView>,
    result: VerificationRecordView,
)
    requires
        repair_fault(records, snapshot, earlier, latest, result) is None,
        result.repair_ref is Some,
    ensures
        result.decision is Some && result.decision->Some_0 is Revise,
        latest is Some && latest->Some_0.candidate_ref == result.candidate_ref
            && latest->Some_0.decision == result.decision && latest->Some_0.repair_ref is None,
        exists|i: int|
            0 <= i < snapshot.reservations.len() && (#[trigger] snapshot.reservations[i]).attempt_id
                == result.repair_ref->Some_0 && snapshot.reservations[i].kind is Repair,
        forall|i: int|
            0 <= i < earlier.len() ==> value_at::<VerificationRecord>(
                records,
                #[trigger] earlier[i],
            ).repair_ref != result.repair_ref,
{
    let repair = result.repair_ref->Some_0;
    let p = repair_reserved(repair);
    let i = choose|i: int|
        0 <= i < snapshot.reservations.len() && p(#[trigger] snapshot.reservations[i]);
    assert(snapshot.reservations[i].attempt_id == repair);
    let q = repair_used(records, repair);
    assert forall|k: int| 0 <= k < earlier.len() implies value_at::<VerificationRecord>(
        records,
        #[trigger] earlier[k],
    ).repair_ref != result.repair_ref by {
        assert(!q(earlier[k]));
    }
}

/// The verification ledger only grows, under one plan; a candidate is never exchanged for another,
/// and is given up only with a record.
pub proof fn law_candidates_are_settled_by_records(
    previous: RunSnapshotView,
    next: RunSnapshotView,
)
    requires
        update_fault(previous, next) is None,
    ensures
        next.verification_plan_ref == previous.verification_plan_ref,
        previous.verification_records.is_prefix_of(next.verification_records),
        previous.candidate_ref is Some && next.candidate_ref is Some ==> next.candidate_ref
            == previous.candidate_ref,
        previous.candidate_ref is Some && next.candidate_ref is None
            ==> next.verification_records.len() > previous.verification_records.len(),
{
}

/// A run that waits for the approval of a candidate waits for its own, and for the pinned verifier,
/// which has asked for it.
pub proof fn law_candidates_wait_for_their_verifier(
    snapshot: RunSnapshotView,
    plan: VerificationPlanView,
    latest: Option<VerificationRecordView>,
    candidate_ref: RecordRefView,
    verifier_ref: VersionedRefView,
)
    requires
        candidate_wait_fault(snapshot, plan, latest) is None,
        snapshot.wait is Some,
        snapshot.wait->Some_0.target == (WaitTargetView::Approval {
            target: ApprovalTargetView::Candidate { candidate_ref, verifier_ref },
        }),
    ensures
        snapshot.candidate_ref == Some(candidate_ref),
        plan.verifier is Some && plan.verifier->Some_0.verifier_ref == verifier_ref,
        latest is Some && latest->Some_0.candidate_ref == candidate_ref,
        latest->Some_0.decision is Some && latest->Some_0.decision->Some_0 is Wait,
{
}

/// Verification goes forward: its plan stays, at most one record is added behind the others, and a
/// candidate is replaced only after it was given up, which takes a record.
pub proof fn law_candidates_are_not_exchanged(previous: RunSnapshotView, next: RunSnapshotView)
    requires
        update_fault(previous, next) is None,
    ensures
        next.verification_plan_ref == previous.verification_plan_ref,
        previous.verification_records.len() <= next.verification_records.len()
            <= previous.verification_records.len() + 1,
        forall|k: int|
            0 <= k < previous.verification_records.len() ==> next.verification_records[k]
                == #[trigger] previous.verification_records[k],
        previous.candidate_ref is Some && next.candidate_ref != previous.candidate_ref
            ==> next.candidate_ref is None && next.verification_records.len()
            == previous.verification_records.len() + 1,
{
}

/// A candidate that is sent back is repeated for the model and followed by what is to be revised, both
/// for the model alone.
pub proof fn law_revisions_are_asked_of_the_model(
    records: Map<RecordKeyView, ProtectedRecordView>,
    previous: RunSnapshotView,
    next: RunSnapshotView,
    messages: Seq<MessageView>,
)
    requires
        repair_messages_fault(records, previous, next, messages) is None,
    ensures
        next.verification_records.len() > 0,
        ({
            let record = value_at::<VerificationRecord>(records, next.verification_records.last());
            let candidate = value_at::<VerificationCandidate>(records, record.candidate_ref);
            &&& previous.candidate_ref == Some(record.candidate_ref)
            &&& record.repair_ref is Some
            &&& record.decision matches Some(VerificationDecisionView::Revise { feedback })
                && messages.len() == 2 && messages[1].content == seq![
                ContentBlockView::Content {
                    content: InputContentView::Json {
                        value: feedback_json(record.candidate_ref.digest, feedback),
                    },
                },
            ]
            &&& messages[0].role is Assistant
            &&& messages[0].origin is Model
            &&& messages[0].visibility is Model
            &&& plain_content(messages[0].content) == candidate.output
            &&& messages[1].role is User
            &&& messages[1].origin is Verification
            &&& messages[1].visibility is Model
        }),
{
}

/// Every verdict that is new is reported, and none that is old is reported again.
pub proof fn law_new_verdicts_are_reported(
    records: Map<RecordKeyView, ProtectedRecordView>,
    previous: RunSnapshotView,
    next: RunSnapshotView,
    messages: Seq<MessageView>,
    events: Seq<RunEventView>,
    reference: RecordRefView,
)
    requires
        next.verification_plan_ref is Some,
        verification_transition_fault(records, previous, next, messages, events) is None,
    ensures
        completed_of(events).contains(reference) <==> summaries_of(
            records,
            next.verification_records,
        ).contains(reference) && !summaries_of(records, previous.verification_records).contains(
            reference,
        ),
{
    let old = summaries_of(records, previous.verification_records);
    crate::data::lemma_kept(summaries_of(records, next.verification_records), absent_from(old));
}

} // verus!
