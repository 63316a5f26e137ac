//! The execution history of a run: its segments, the commands they accepted and its controls.
use vstd::prelude::*;

use crate::content::{ToolCallState, ToolLedgerEntry};
#[allow(unused_imports)]
use crate::content::ToolLedgerEntryView;
use crate::data::{any, any_before, check_each, check_indices, find, last, Data};
#[allow(unused_imports)]
use crate::data::{final_of, first_fault, first_in, first_index_fault, position_in, some_in};
use crate::encoding::number;
use crate::error::{fail, ContractError, ErrorCode};
#[allow(unused_imports)]
use crate::error::{failure, fault, or_else, Fault};
use crate::execution_contracts::{
    AcceptedSegmentCommand, ControlAction, ControlCommand, ExecutionHistory, ExecutionRecordVersion,
    ExecutionSegment, InterruptionCause, InterruptionRecord, RequestSnapshot, SegmentOutcome,
    StoredControlCommand, SubmissionLimits, SubmittedRequest,
};
#[allow(unused_imports)]
use crate::execution_contracts::{
    control_digest, is_stop_cause, no_inputs, segment_fault, submission_fault, values_of,
    AcceptedSegmentCommandView, ControlActionView, ControlCommandView, ExecutionHistoryView,
    ExecutionSegmentView, InterruptionRecordView, RequestSnapshotView, SegmentOutcomeView,
    StoredControlCommandView, SubmissionLimitsView, SubmittedRequestView,
};
use crate::json::{array, object, text, Json};
#[allow(unused_imports)]
use crate::json::JsonView;
use crate::recovery::RecoveryReceipt;
#[allow(unused_imports)]
use crate::recovery::RecoveryReceiptView;
use crate::refs::RecordRef;
#[allow(unused_imports)]
use crate::refs::{RecordKeyView, RecordRefView};
use crate::run::{
    BudgetKind, OutcomeResult, ResumeCommand, ResumeReceipt, RunEvent, RunEventPayload, RunOutcome,
    RunSnapshot, RunStatus, WaitState,
};
#[allow(unused_imports)]
use crate::run::{
    OutcomeResultView, ResumeCommandView, ResumeReceiptView, RunEventPayloadView, RunEventView,
    RunOutcomeView, RunSnapshotView,
};
use crate::serialization::{canonical_digest, Id, JsonDigest};
#[allow(unused_imports)]
use crate::serialization::digest_of;
use crate::state::records::{ProtectedRecord, RecordContent, Records};
#[allow(unused_imports)]
use crate::state::records::{event_fault, value_at, ProtectedRecordView, RecordContentView};
#[allow(unused_imports)]
use crate::state::resume_history::at_seq;
#[allow(unused_imports)]
use crate::text::{decimal_text, white_space};

verus! {

/// The failure of an execution history.
pub open spec fn misrecorded(path: &str) -> Option<Fault> {
    fault(ErrorCode::InvalidSnapshot, path)
}

pub(crate) fn invalid<T>(path: &str) -> (r: Result<T, ContractError>)
    ensures
        r is Err,
        failure(r) == misrecorded(path),
{
    fail(ErrorCode::InvalidSnapshot, path)
}

/// The identifier of the segment that a revision of a run accepts.
pub open spec fn segment_id_of(run_id: Seq<char>, revision: u64) -> Seq<char> {
    "segment:"@ + digest_of(
        JsonView::Array(
            seq![JsonView::Text(run_id), JsonView::Number(decimal_text(revision as nat))],
        ),
    )
}

/// The identifier of the segment that a revision of a run accepts.
pub fn segment_id(run_id: &Id, revision: u64) -> (r: Id)
    ensures
        r@ == segment_id_of(run_id@, revision),
{
    let mut parts: Vec<Json> = Vec::new();
    parts.push(text(run_id.as_str()));
    parts.push(number(revision));
    assert(parts.deep_view() =~= seq![
        JsonView::Text(run_id@),
        JsonView::Number(decimal_text(revision as nat)),
    ]);
    let digest = canonical_digest(&array(parts));
    proof {
        reveal_strlit("segment:");
        assert(!white_space("segment:"@[0]));
    }
    Id::prefixed("segment:", digest.as_str())
}

/// The identifier of the segment that admission opens.
pub fn initial_segment_id(run_id: &Id) -> (r: Id)
    ensures
        r@ == segment_id_of(run_id@, 0),
{
    segment_id(run_id, 0)
}

/// The identity of the system inputs that a run was admitted with.
pub open spec fn admitted_inputs(snapshot: RunSnapshotView) -> Seq<char> {
    match snapshot.system_inputs {
        Some(inputs) => inputs.values_digest,
        None => digest_of(no_inputs()),
    }
}

/// Why a submission is not the one that a run was admitted with.
pub open spec fn admitted_fault(
    submitted: RequestSnapshotView,
    snapshot: RunSnapshotView,
    limits: SubmissionLimitsView,
) -> Option<Fault> {
    if submission_fault(submitted, limits) is Some {
        submission_fault(submitted, limits)
    } else {
        match submitted.decoded {
            SubmittedRequestView::Refused { error } => Some(error),
            SubmittedRequestView::Request { request } => if request != snapshot.request
                || submitted.profile_ref.id != snapshot.profile.profile.agent_id
                || submitted.profile_ref.version != snapshot.profile.profile.version || digest_of(
                values_of(submitted.system_inputs),
            ) != admitted_inputs(snapshot) {
                misrecorded("execution.submitted_snapshot")
            } else {
                None
            },
        }
    }
}

fn validate_submission(
    submitted: &RequestSnapshot,
    snapshot: &RunSnapshot,
    limits: &SubmissionLimits,
) -> (r: Result<(), ContractError>)
    ensures
        failure(r) == admitted_fault(submitted@, snapshot@, limits@),
{
    submitted.validate(limits)?;
    let request = match submitted.decoded() {
        SubmittedRequest::Request { request } => request,
        SubmittedRequest::Refused { error } => {
            return Err(error.copy());
        },
    };
    let none = object(crate::encoding::no_members());
    let expected = match &snapshot.system_inputs {
        Some(inputs) => inputs.values_digest.copy(),
        None => canonical_digest(&none),
    };
    if !request.same(&snapshot.request) || !submitted.profile_ref().id.same(
        &snapshot.profile.profile().agent_id,
    ) || !submitted.profile_ref().version.same(&snapshot.profile.profile().version)
        || !submitted.system_digest().same(&expected) {
        return invalid("execution.submitted_snapshot");
    }
    Ok(())
}

/// A segment that has not been settled.
pub open spec fn open_segment(
    principal: Seq<char>,
    run_id: Seq<char>,
    segment_id: Seq<char>,
    accepted_revision: u64,
) -> ExecutionSegmentView {
    ExecutionSegmentView {
        schema_version: ExecutionRecordVersion::V1,
        execution_principal_ref: principal,
        run_id,
        segment_id,
        accepted_revision,
        outcome: None,
        last_event_seq: None,
        source_snapshot_ref: None,
        app_state: None,
    }
}

/// The history that a run is admitted with.
pub open spec fn first_history(
    snapshot: RunSnapshotView,
    actor: Seq<char>,
    grant: Seq<char>,
    submitted: Option<RequestSnapshotView>,
) -> ExecutionHistoryView {
    ExecutionHistoryView {
        run_id: snapshot.run_id,
        execution_principal_ref: actor,
        execution_grant_ref: Some(grant),
        submitted,
        initial_claimed: false,
        segments: seq![
            open_segment(actor, snapshot.run_id, segment_id_of(snapshot.run_id, 0), 0),
        ],
        accepted_commands: Seq::empty(),
        controls: Seq::empty(),
    }
}

/// Why a run cannot be admitted with a submission.
pub open spec fn first_history_fault(
    snapshot: RunSnapshotView,
    submitted: Option<RequestSnapshotView>,
    limits: SubmissionLimitsView,
) -> Option<Fault> {
    match submitted {
        Some(submitted) => admitted_fault(submitted, snapshot, limits),
        None => None,
    }
}

/// Open the history of a newly admitted run.
pub fn initial_history(
    snapshot: &RunSnapshot,
    actor: &Id,
    grant: &Id,
    submitted: Option<&RequestSnapshot>,
    limits: &SubmissionLimits,
) -> (r: Result<ExecutionHistory, ContractError>)
    ensures
        failure(r) == first_history_fault(snapshot@, submitted.deep_view(), limits@),
        r matches Ok(history) ==> history@ == first_history(
            snapshot@,
            actor@,
            grant@,
            submitted.deep_view(),
        ),
{
    let kept = match submitted {
        Some(submitted) => {
            validate_submission(submitted, snapshot, limits)?;
            Some(submitted.copy())
        },
        None => None,
    };
    let mut segments: Vec<ExecutionSegment> = Vec::new();
    segments.push(
        ExecutionSegment {
            schema_version: ExecutionRecordVersion::V1,
            execution_principal_ref: actor.copy(),
            run_id: snapshot.run_id.copy(),
            segment_id: segment_id(&snapshot.run_id, 0),
            accepted_revision: 0,
            outcome: None,
            last_event_seq: None,
            source_snapshot_ref: None,
            app_state: None,
        },
    );
    let history = ExecutionHistory {
        run_id: snapshot.run_id.copy(),
        execution_principal_ref: actor.copy(),
        execution_grant_ref: Some(grant.copy()),
        submitted: kept,
        initial_claimed: false,
        segments,
        accepted_commands: Vec::new(),
        controls: Vec::new(),
    };
    assert(history@ =~= first_history(snapshot@, actor@, grant@, submitted.deep_view())) by {
        assert(history@.segments =~= seq![
            open_segment(actor@, snapshot@.run_id, segment_id_of(snapshot@.run_id, 0), 0),
        ]);
        assert(history@.accepted_commands =~= Seq::<AcceptedSegmentCommandView>::empty());
        assert(history@.controls =~= Seq::<StoredControlCommandView>::empty());
    }
    Ok(history)
}

/// The bound inputs of calls whose effects are uncertain.
pub open spec fn uncertain_effects(entries: Seq<ToolLedgerEntryView>) -> Seq<RecordRefView>
    decreases entries.len(),
{
    if entries.len() == 0 {
        Seq::empty()
    } else {
        let front = uncertain_effects(entries.drop_last());
        let entry = entries.last();
        match entry.call.bound_input_ref {
            Some(reference) => if entry.state is Dispatching || entry.state is Unknown {
                front.push(reference)
            } else {
                front
            },
            None => front,
        }
    }
}

fn list_uncertain(entries: &Vec<ToolLedgerEntry>) -> (r: Vec<RecordRef>)
    ensures
        r.deep_view() == uncertain_effects(entries.deep_view()),
{
    let ghost s = entries.deep_view();
    let mut out: Vec<RecordRef> = Vec::new();
    let mut i: usize = 0;
    assert(s.take(0) =~= Seq::<ToolLedgerEntryView>::empty());
    assert(out.deep_view() =~= Seq::<RecordRefView>::empty());
    while i < entries.len()
        invariant
            i <= entries.len(),
            s == entries.deep_view(),
            out.deep_view() == uncertain_effects(s.take(i as int)),
        decreases entries.len() - i,
    {
        let entry = &entries[i];
        assert(s.take(i + 1).drop_last() =~= s.take(i as int));
        assert(s.take(i + 1).last() == entry@);
        let is_uncertain = match &entry.state {
            ToolCallState::Dispatching { .. } => true,
            ToolCallState::Unknown { .. } => true,
            _ => false,
        };
        if is_uncertain {
            if let Some(reference) = &entry.call.bound_input_ref {
                let ghost before = out.deep_view();
                out.push(reference.copy());
                assert(out.deep_view() =~= before.push(reference@));
            }
        }
        i = i + 1;
    }
    assert(s.take(i as int) =~= s);
    out
}

/// How a segment that was left unsettled at a checkpoint is closed.
pub open spec fn interruption_of(previous: RunSnapshotView, segment_id: Seq<char>)
    -> SegmentOutcomeView {
    SegmentOutcomeView::Interrupted {
        interruption: InterruptionRecordView {
            segment_id,
            cause: InterruptionCause::SegmentStopped,
            checkpoint_revision: previous.revision,
            recoverable: true,
            unresolved_effects: uncertain_effects(previous.tool_ledger),
        },
    }
}

fn interrupted(previous: &RunSnapshot, segment_id: &Id) -> (r: SegmentOutcome)
    ensures
        r@ == interruption_of(previous@, segment_id@),
{
    SegmentOutcome::Interrupted {
        interruption: InterruptionRecord {
            segment_id: segment_id.copy(),
            cause: InterruptionCause::SegmentStopped,
            checkpoint_revision: previous.revision,
            recoverable: true,
            unresolved_effects: list_uncertain(&previous.tool_ledger),
        },
    }
}

/// The record that archives the checkpoint of an unsettled segment.
pub open spec fn archived(snapshot: RunSnapshotView, segment_id: Seq<char>) -> ProtectedRecordView {
    ProtectedRecordView {
        reference: RecordRefView {
            record_id: "segment-source:"@ + digest_of(
                JsonView::Array(
                    seq![
                        JsonView::Text(snapshot.run_id),
                        JsonView::Text(segment_id),
                        JsonView::Number(decimal_text(snapshot.revision as nat)),
                    ],
                ),
            ),
            revision: 1,
            digest: digest_of(snapshot.document),
        },
        value: snapshot.document,
        content: RecordContentView::Snapshot(snapshot),
    }
}

/// Archive the checkpoint of an unsettled segment.
pub fn archived_source(snapshot: &RunSnapshot, segment_id: &Id) -> (r: ProtectedRecord)
    ensures
        r@ == archived(snapshot@, segment_id@),
{
    let mut parts: Vec<Json> = Vec::new();
    parts.push(text(snapshot.run_id.as_str()));
    parts.push(text(segment_id.as_str()));
    parts.push(number(snapshot.revision));
    assert(parts.deep_view() =~= seq![
        JsonView::Text(snapshot@.run_id),
        JsonView::Text(segment_id@),
        JsonView::Number(decimal_text(snapshot@.revision as nat)),
    ]);
    let digest = canonical_digest(&array(parts));
    proof {
        reveal_strlit("segment-source:");
        assert(!white_space("segment-source:"@[0]));
    }
    ProtectedRecord::new(
        Id::prefixed("segment-source:", digest.as_str()),
        1,
        snapshot.document.copy(),
        RecordContent::Snapshot(Box::new(snapshot.copy())),
    )
}

/// A command that a history has to show as accepted.
#[derive(Debug)]
pub struct ExpectedCommand {
    pub command_id: Id,
    pub payload_digest: JsonDigest,
    pub revision: u64,
}

#[verifier::ext_equal]
pub struct ExpectedCommandView {
    pub command_id: Seq<char>,
    pub payload_digest: Seq<char>,
    pub revision: u64,
}

impl View for ExpectedCommand {
    type V = ExpectedCommandView;

    open spec fn view(&self) -> ExpectedCommandView {
        ExpectedCommandView {
            command_id: self.command_id.deep_view(),
            payload_digest: self.payload_digest.deep_view(),
            revision: self.revision.deep_view(),
        }
    }
}

impl DeepView for ExpectedCommand {
    type V = ExpectedCommandView;

    open spec fn deep_view(&self) -> ExpectedCommandView {
        self@
    }
}

impl Data for ExpectedCommand {
    fn same(&self, other: &Self) -> (r: bool) {
        self.command_id.same(&other.command_id)
            && self.payload_digest.same(&other.payload_digest)
            && self.revision.same(&other.revision)
    }

    fn copy(&self) -> (r: Self) {
        ExpectedCommand {
            command_id: self.command_id.copy(),
            payload_digest: self.payload_digest.copy(),
            revision: self.revision.copy(),
        }
    }
}

/// Where a segment that a receipt names must have ended.
#[derive(Debug)]
pub struct SegmentBoundary {
    pub revision: u64,
    pub sequence: u64,
}

#[verifier::ext_equal]
pub struct SegmentBoundaryView {
    pub revision: u64,
    pub sequence: u64,
}

impl View for SegmentBoundary {
    type V = SegmentBoundaryView;

    open spec fn view(&self) -> SegmentBoundaryView {
        SegmentBoundaryView {
            revision: self.revision.deep_view(),
            sequence: self.sequence.deep_view(),
        }
    }
}

impl DeepView for SegmentBoundary {
    type V = SegmentBoundaryView;

    open spec fn deep_view(&self) -> SegmentBoundaryView {
        self@
    }
}

impl Data for SegmentBoundary {
    fn same(&self, other: &Self) -> (r: bool) {
        self.revision.same(&other.revision)
            && self.sequence.same(&other.sequence)
    }

    fn copy(&self) -> (r: Self) {
        SegmentBoundary {
            revision: self.revision.copy(),
            sequence: self.sequence.copy(),
        }
    }
}


/// The segments under an identifier.
pub open spec fn segment_named(segment_id: Seq<char>) -> spec_fn(ExecutionSegmentView) -> bool {
    |segment: ExecutionSegmentView| segment.segment_id == segment_id
}

/// The segments that a revision accepted.
pub open spec fn accepted_at(revision: u64) -> spec_fn(ExecutionSegmentView) -> bool {
    |segment: ExecutionSegmentView| segment.accepted_revision == revision
}

/// The expected commands under an identifier.
pub open spec fn command_named(command_id: Seq<char>) -> spec_fn(ExpectedCommandView) -> bool {
    |command: ExpectedCommandView| command.command_id == command_id
}

/// The accepted commands under an identifier.
pub open spec fn accepted_named(command_id: Seq<char>) -> spec_fn(
    AcceptedSegmentCommandView,
) -> bool {
    |command: AcceptedSegmentCommandView| command.command_id == command_id
}

/// The controls under an identifier.
pub open spec fn control_named(command_id: Seq<char>) -> spec_fn(StoredControlCommandView) -> bool {
    |control: StoredControlCommandView| control.command.command_id == command_id
}

pub(crate) fn find_segment<'a>(segments: &'a Vec<ExecutionSegment>, id: &Id) -> (r: Option<
    &'a ExecutionSegment,
>)
    ensures
        r.deep_view() == first_in(segments.deep_view(), segment_named(id@)),
{
    let same = |segment: &ExecutionSegment| -> (b: bool)
        ensures
            b == segment_named(id@)(segment@),
    { segment.segment_id.same(id) };
    find(segments, same, Ghost(segment_named(id@)))
}

pub(crate) fn has_segment(segments: &Vec<ExecutionSegment>, id: &Id) -> (r: bool)
    ensures
        r == some_in(segments.deep_view(), segment_named(id@)),
{
    let same = |segment: &ExecutionSegment| -> (b: bool)
        ensures
            b == segment_named(id@)(segment@),
    { segment.segment_id.same(id) };
    any(segments, same, Ghost(segment_named(id@)))
}

pub(crate) fn find_accepted<'a>(commands: &'a Vec<AcceptedSegmentCommand>, id: &Id) -> (r: Option<
    &'a AcceptedSegmentCommand,
>)
    ensures
        r.deep_view() == first_in(commands.deep_view(), accepted_named(id@)),
{
    let same = |command: &AcceptedSegmentCommand| -> (b: bool)
        ensures
            b == accepted_named(id@)(command@),
    { command.command_id.same(id) };
    find(commands, same, Ghost(accepted_named(id@)))
}

pub(crate) fn has_accepted(commands: &Vec<AcceptedSegmentCommand>, id: &Id) -> (r: bool)
    ensures
        r == some_in(commands.deep_view(), accepted_named(id@)),
{
    let same = |command: &AcceptedSegmentCommand| -> (b: bool)
        ensures
            b == accepted_named(id@)(command@),
    { command.command_id.same(id) };
    any(commands, same, Ghost(accepted_named(id@)))
}

fn has_control(controls: &Vec<StoredControlCommand>, id: &Id) -> (r: bool)
    ensures
        r == some_in(controls.deep_view(), control_named(id@)),
{
    let same = |control: &StoredControlCommand| -> (b: bool)
        ensures
            b == control_named(id@)(control@),
    { control.command.command_id.same(id) };
    any(controls, same, Ghost(control_named(id@)))
}

/// The revision at which a settled segment ended.
pub open spec fn settled_at(outcome: SegmentOutcomeView) -> u64 {
    match outcome {
        SegmentOutcomeView::Settled { outcome } => outcome.checkpoint_revision,
        SegmentOutcomeView::Interrupted { interruption } => interruption.checkpoint_revision,
    }
}

/// Why the segment at a position and the one after it do not follow each other.
pub open spec fn succession_fault(
    segment: ExecutionSegmentView,
    next: ExecutionSegmentView,
) -> Option<Fault> {
    if segment.last_event_seq matches Some(a) && (next.last_event_seq matches Some(b) && a >= b) {
        misrecorded("execution.event_boundary")
    } else {
        match segment.outcome {
            None => misrecorded("execution.unsettled_history"),
            Some(outcome) => if settled_at(outcome) >= next.accepted_revision {
                misrecorded("execution.interval_overlap")
            } else {
                None
            },
        }
    }
}

/// Why the segment at a position of a history is refused.
pub open spec fn history_segment_fault(
    history: ExecutionHistoryView,
    snapshot: RunSnapshotView,
) -> spec_fn(int) -> Option<Fault> {
    |i: int|
        {
            let segments = history.segments;
            let segment = segments[i];
            if segment_fault(segment) is Some {
                segment_fault(segment)
            } else if segment.run_id != history.run_id || segment.execution_principal_ref
                != history.execution_principal_ref || some_in(
                segments.take(i),
                segment_named(segment.segment_id),
            ) || (i == 0 && segment.accepted_revision != 0) || (i > 0 && segment.accepted_revision
                <= segments[i - 1].accepted_revision) || segment.accepted_revision
                > snapshot.revision || (i + 1 < segments.len() && segment.outcome is None) {
                misrecorded("execution.history")
            } else if segment.last_event_seq matches Some(seq) && seq > snapshot.last_event_seq {
                misrecorded("execution.event_boundary")
            } else if i + 1 < segments.len() {
                succession_fault(segment, segments[i + 1])
            } else {
                None
            }
        }
}

fn check_succession(segment: &ExecutionSegment, next: &ExecutionSegment) -> (r: Result<
    (),
    ContractError,
>)
    ensures
        failure(r) == succession_fault(segment@, next@),
{
    if let Some(ended) = segment.last_event_seq {
        if let Some(later) = next.last_event_seq {
            if ended >= later {
                return invalid("execution.event_boundary");
            }
        }
    }
    let settled: u64 = match &segment.outcome {
        None => {
            return invalid("execution.unsettled_history");
        },
        Some(SegmentOutcome::Settled { outcome }) => outcome.checkpoint_revision,
        Some(SegmentOutcome::Interrupted { interruption }) => interruption.checkpoint_revision,
    };
    if settled >= next.accepted_revision {
        return invalid("execution.interval_overlap");
    }
    Ok(())
}

fn check_history_segment(history: &ExecutionHistory, snapshot: &RunSnapshot, i: usize) -> (r: Result<
    (),
    ContractError,
>)
    requires
        i < history.segments.len(),
    ensures
        failure(r) == history_segment_fault(history@, snapshot@)(i as int),
{
    let segments = &history.segments;
    let segment = &segments[i];
    assert(segment@ == history@.segments[i as int]);
    assert(history@.segments.len() == segments.len());
    segment.validate()?;
    let same = |other: &ExecutionSegment| -> (b: bool)
        ensures
            b == segment_named(segment@.segment_id)(other@),
    { other.segment_id.same(&segment.segment_id) };
    let is_late = if i == 0 {
        segment.accepted_revision == 0
    } else {
        assert(segments@[i - 1]@ == history@.segments[i - 1]);
        segment.accepted_revision > segments[i - 1].accepted_revision
    };
    let has_next = i < segments.len() - 1;
    if !segment.run_id.same(&history.run_id) || !segment.execution_principal_ref.same(
        &history.execution_principal_ref,
    ) || any_before(segments, i, same, Ghost(segment_named(segment@.segment_id))) || !is_late
        || segment.accepted_revision > snapshot.revision || (has_next
        && segment.outcome.is_none()) {
        return invalid("execution.history");
    }
    if let Some(seq) = segment.last_event_seq {
        if seq > snapshot.last_event_seq {
            return invalid("execution.event_boundary");
        }
    }
    if has_next {
        assert(segments@[i + 1]@ == history@.segments[i + 1]);
        return check_succession(segment, &segments[i + 1]);
    }
    Ok(())
}

/// Where the segments that receipts name must have ended.
pub open spec fn receipt_boundaries(snapshot: RunSnapshotView) -> Seq<SegmentBoundaryView> {
    snapshot.resume_receipts.map_values(
        |receipt: ResumeReceiptView|
            SegmentBoundaryView {
                revision: receipt.previous_segment_start_revision,
                sequence: receipt.previous_last_event_seq,
            },
    ) + snapshot.recovery_receipts.map_values(
        |receipt: RecoveryReceiptView|
            SegmentBoundaryView {
                revision: receipt.previous_segment_start_revision,
                sequence: receipt.previous_last_event_seq,
            },
    )
}

fn list_boundaries(snapshot: &RunSnapshot) -> (r: Vec<SegmentBoundary>)
    ensures
        r.deep_view() == receipt_boundaries(snapshot@),
{
    let resumed = |receipt: &ResumeReceipt| -> (r: SegmentBoundary)
        ensures
            r@ == (SegmentBoundaryView {
                revision: receipt@.previous_segment_start_revision,
                sequence: receipt@.previous_last_event_seq,
            }),
    {
        SegmentBoundary {
            revision: receipt.previous_segment_start_revision,
            sequence: receipt.previous_last_event_seq,
        }
    };
    let recovered = |receipt: &RecoveryReceipt| -> (r: SegmentBoundary)
        ensures
            r@ == (SegmentBoundaryView {
                revision: receipt@.previous_segment_start_revision,
                sequence: receipt@.previous_last_event_seq,
            }),
    {
        SegmentBoundary {
            revision: receipt.previous_segment_start_revision,
            sequence: receipt.previous_last_event_seq,
        }
    };
    let first = crate::data::map_each(
        &snapshot.resume_receipts,
        resumed,
        Ghost(
            |receipt: ResumeReceiptView|
                SegmentBoundaryView {
                    revision: receipt.previous_segment_start_revision,
                    sequence: receipt.previous_last_event_seq,
                },
        ),
    );
    let second = crate::data::map_each(
        &snapshot.recovery_receipts,
        recovered,
        Ghost(
            |receipt: RecoveryReceiptView|
                SegmentBoundaryView {
                    revision: receipt.previous_segment_start_revision,
                    sequence: receipt.previous_last_event_seq,
                },
        ),
    );
    crate::data::joined(&first, &second)
}

/// Why a segment did not end where a receipt says.
pub open spec fn boundary_fault(segments: Seq<ExecutionSegmentView>) -> spec_fn(
    SegmentBoundaryView,
) -> Option<Fault> {
    |boundary: SegmentBoundaryView|
        match first_in(segments, accepted_at(boundary.revision)) {
            Some(segment) => if segment.last_event_seq matches Some(seq) && seq
                != boundary.sequence {
                misrecorded("execution.event_boundary")
            } else {
                None
            },
            None => None,
        }
}

fn check_boundary(segments: &Vec<ExecutionSegment>, boundary: &SegmentBoundary) -> (r: Result<
    (),
    ContractError,
>)
    ensures
        failure(r) == boundary_fault(segments.deep_view())(boundary@),
{
    let here = |segment: &ExecutionSegment| -> (b: bool)
        ensures
            b == accepted_at(boundary@.revision)(segment@),
    { segment.accepted_revision == boundary.revision };
    if let Some(segment) = find(segments, here, Ghost(accepted_at(boundary@.revision))) {
        if let Some(seq) = segment.last_event_seq {
            if seq != boundary.sequence {
                return invalid("execution.event_boundary");
            }
        }
    }
    Ok(())
}

/// The latest segment agrees with the checkpoint's outcome.
pub open spec fn outcome_agrees(
    snapshot: RunSnapshotView,
    outcome: Option<SegmentOutcomeView>,
) -> bool {
    match (snapshot.outcome, outcome) {
        (Some(expected), Some(SegmentOutcomeView::Settled { outcome })) => expected == outcome,
        (None, None) => true,
        (None, Some(SegmentOutcomeView::Interrupted { .. })) => snapshot.status
            == RunStatus::Interrupted,
        _ => false,
    }
}

/// Why the latest segment of a history does not agree with the checkpoint.
pub open spec fn current_fault(
    history: ExecutionHistoryView,
    snapshot: RunSnapshotView,
) -> Option<Fault> {
    let current = history.segments.last();
    if current.outcome is Some && (current.last_event_seq matches Some(seq) && seq
        != snapshot.last_event_seq) {
        misrecorded("execution.event_boundary")
    } else if first_fault(receipt_boundaries(snapshot), boundary_fault(history.segments)) is Some {
        first_fault(receipt_boundaries(snapshot), boundary_fault(history.segments))
    } else if current.app_state != snapshot.app_state {
        misrecorded("execution.app_state")
    } else if !outcome_agrees(snapshot, current.outcome) {
        misrecorded("execution.current_outcome")
    } else if !history.initial_claimed && (snapshot.revision > 0 || history.segments.len() > 1) {
        misrecorded("execution.initial_claim")
    } else {
        None
    }
}

fn is_agreeing(snapshot: &RunSnapshot, outcome: &Option<SegmentOutcome>) -> (r: bool)
    ensures
        r == outcome_agrees(snapshot@, outcome.deep_view()),
{
    match (&snapshot.outcome, outcome) {
        (Some(expected), Some(SegmentOutcome::Settled { outcome })) => expected.same(outcome),
        (None, None) => true,
        (None, Some(SegmentOutcome::Interrupted { .. })) => snapshot.status
            == RunStatus::Interrupted,
        _ => false,
    }
}

fn check_current(history: &ExecutionHistory, snapshot: &RunSnapshot) -> (r: Result<
    (),
    ContractError,
>)
    requires
        history.segments.len() > 0,
    ensures
        failure(r) == current_fault(history@, snapshot@),
{
    let segments = &history.segments;
    let current = &segments[segments.len() - 1];
    assert(history@.segments.len() == segments.len());
    assert(current@ == history@.segments.last());
    if current.outcome.is_some() {
        if let Some(seq) = current.last_event_seq {
            if seq != snapshot.last_event_seq {
                return invalid("execution.event_boundary");
            }
        }
    }
    let ended = |boundary: &SegmentBoundary| -> (r: Result<(), ContractError>)
        ensures
            failure(r) == boundary_fault(segments.deep_view())(boundary@),
    { check_boundary(segments, boundary) };
    check_each(&list_boundaries(snapshot), ended, Ghost(boundary_fault(segments.deep_view())))?;
    if !current.app_state.same(&snapshot.app_state) {
        return invalid("execution.app_state");
    }
    if !is_agreeing(snapshot, &current.outcome) {
        return invalid("execution.current_outcome");
    }
    if !history.initial_claimed && (snapshot.revision > 0 || segments.len() > 1) {
        return invalid("execution.initial_claim");
    }
    Ok(())
}

/// Why an accepted command is recorded wrongly.
pub open spec fn accepted_fault(history: ExecutionHistoryView) -> spec_fn(int) -> Option<Fault> {
    |i: int|
        {
            let command = history.accepted_commands[i];
            if some_in(history.accepted_commands.take(i), accepted_named(command.command_id))
                || !some_in(history.segments, segment_named(command.segment_id)) {
                misrecorded("execution.accepted")
            } else {
                None
            }
        }
}

fn check_accepted(history: &ExecutionHistory, i: usize) -> (r: Result<(), ContractError>)
    requires
        i < history.accepted_commands.len(),
    ensures
        failure(r) == accepted_fault(history@)(i as int),
{
    let command = &history.accepted_commands[i];
    assert(command@ == history@.accepted_commands[i as int]);
    let same = |other: &AcceptedSegmentCommand| -> (b: bool)
        ensures
            b == accepted_named(command@.command_id)(other@),
    { other.command_id.same(&command.command_id) };
    if any_before(
        &history.accepted_commands,
        i,
        same,
        Ghost(accepted_named(command@.command_id)),
    ) || !has_segment(&history.segments, &command.segment_id) {
        return invalid("execution.accepted");
    }
    Ok(())
}

/// The commands that receipts show as accepted.
pub open spec fn receipt_commands(snapshot: RunSnapshotView) -> Seq<ExpectedCommandView> {
    snapshot.resume_receipts.map_values(
        |receipt: ResumeReceiptView|
            ExpectedCommandView {
                command_id: receipt.command.command_id,
                payload_digest: receipt.command.digest,
                revision: receipt.accepted_revision,
            },
    ) + snapshot.recovery_receipts.map_values(
        |receipt: RecoveryReceiptView|
            ExpectedCommandView {
                command_id: receipt.command.command_id,
                payload_digest: receipt.command.digest,
                revision: receipt.accepted_revision,
            },
    )
}

fn list_receipt_commands(snapshot: &RunSnapshot) -> (r: Vec<ExpectedCommand>)
    ensures
        r.deep_view() == receipt_commands(snapshot@),
{
    let resumed = |receipt: &ResumeReceipt| -> (r: ExpectedCommand)
        ensures
            r@ == (ExpectedCommandView {
                command_id: receipt@.command.command_id,
                payload_digest: receipt@.command.digest,
                revision: receipt@.accepted_revision,
            }),
    {
        ExpectedCommand {
            command_id: receipt.command.command_id.copy(),
            payload_digest: receipt.command.digest.copy(),
            revision: receipt.accepted_revision,
        }
    };
    let recovered = |receipt: &RecoveryReceipt| -> (r: ExpectedCommand)
        ensures
            r@ == (ExpectedCommandView {
                command_id: receipt@.command.command_id,
                payload_digest: receipt@.command.digest,
                revision: receipt@.accepted_revision,
            }),
    {
        ExpectedCommand {
            command_id: receipt.command.command_id.copy(),
            payload_digest: receipt.command.digest.copy(),
            revision: receipt.accepted_revision,
        }
    };
    let first = crate::data::map_each(
        &snapshot.resume_receipts,
        resumed,
        Ghost(
            |receipt: ResumeReceiptView|
                ExpectedCommandView {
                    command_id: receipt.command.command_id,
                    payload_digest: receipt.command.digest,
                    revision: receipt.accepted_revision,
                },
        ),
    );
    let second = crate::data::map_each(
        &snapshot.recovery_receipts,
        recovered,
        Ghost(
            |receipt: RecoveryReceiptView|
                ExpectedCommandView {
                    command_id: receipt.command.command_id,
                    payload_digest: receipt.command.digest,
                    revision: receipt.accepted_revision,
                },
        ),
    );
    crate::data::joined(&first, &second)
}

/// Why a receipt repeats a command.
pub open spec fn repeated_fault(commands: Seq<ExpectedCommandView>) -> spec_fn(int) -> Option<
    Fault,
> {
    |i: int|
        if some_in(commands.take(i), command_named(commands[i].command_id)) {
            misrecorded("execution.receipt_duplicate")
        } else {
            None
        }
}

/// The commands that a history has to show as accepted, counting the first controls.
pub open spec fn expected_commands(
    history: ExecutionHistoryView,
    snapshot: RunSnapshotView,
    n: int,
) -> Seq<ExpectedCommandView>
    decreases n,
{
    if n <= 0 {
        receipt_commands(snapshot)
    } else {
        let front = expected_commands(history, snapshot, n - 1);
        let control = history.controls[n - 1];
        match control.processed_segment_id {
            None => front,
            Some(id) => front.push(
                ExpectedCommandView {
                    command_id: control.command.command_id,
                    payload_digest: control_digest(control.command),
                    revision: match first_in(history.segments, segment_named(id)) {
                        Some(segment) => segment.accepted_revision,
                        None => 0,
                    },
                },
            ),
        }
    }
}

/// Why a processed control cannot be expected.
pub open spec fn processed_fault(
    history: ExecutionHistoryView,
    snapshot: RunSnapshotView,
) -> spec_fn(int) -> Option<Fault> {
    |i: int|
        {
            let control = history.controls[i];
            match control.processed_segment_id {
                None => None,
                Some(id) => if first_in(history.segments, segment_named(id)) is None {
                    misrecorded("execution.control_segment")
                } else if some_in(
                    expected_commands(history, snapshot, i),
                    command_named(control.command.command_id),
                ) {
                    misrecorded("execution.receipt_duplicate")
                } else {
                    None
                },
            }
        }
}

/// Why the commands that a history has to show cannot be told.
pub open spec fn expected_fault(
    history: ExecutionHistoryView,
    snapshot: RunSnapshotView,
) -> Option<Fault> {
    or_else(
        first_index_fault(
            0,
            receipt_commands(snapshot).len() as int,
            repeated_fault(receipt_commands(snapshot)),
        ),
        first_index_fault(0, history.controls.len() as int, processed_fault(history, snapshot)),
    )
}

fn has_command(commands: &Vec<ExpectedCommand>, id: &Id) -> (r: bool)
    ensures
        r == some_in(commands.deep_view(), command_named(id@)),
{
    let same = |command: &ExpectedCommand| -> (b: bool)
        ensures
            b == command_named(id@)(command@),
    { command.command_id.same(id) };
    any(commands, same, Ghost(command_named(id@)))
}

fn check_repeated(commands: &Vec<ExpectedCommand>, i: usize) -> (r: Result<(), ContractError>)
    requires
        i < commands.len(),
    ensures
        failure(r) == repeated_fault(commands.deep_view())(i as int),
{
    let command = &commands[i];
    assert(command@ == commands.deep_view()[i as int]);
    let same = |other: &ExpectedCommand| -> (b: bool)
        ensures
            b == command_named(command@.command_id)(other@),
    { other.command_id.same(&command.command_id) };
    if any_before(commands, i, same, Ghost(command_named(command@.command_id))) {
        return invalid("execution.receipt_duplicate");
    }
    Ok(())
}

fn expect_controls(history: &ExecutionHistory, snapshot: &RunSnapshot, receipts: Vec<ExpectedCommand>)
    -> (r: Result<Vec<ExpectedCommand>, ContractError>)
    requires
        receipts.deep_view() == receipt_commands(snapshot@),
    ensures
        failure(r) == first_index_fault(
            0,
            history@.controls.len() as int,
            processed_fault(history@, snapshot@),
        ),
        r matches Ok(expected) ==> expected.deep_view() == expected_commands(
            history@,
            snapshot@,
            history@.controls.len() as int,
        ),
{
    let controls = &history.controls;
    let ghost n = history@.controls.len() as int;
    let ghost f = processed_fault(history@, snapshot@);
    let mut expected = receipts;
    let mut i: usize = 0;
    while i < controls.len()
        invariant
            i <= controls.len(),
            n == controls.len(),
            controls.deep_view() == history@.controls,
            f == processed_fault(history@, snapshot@),
            expected.deep_view() == expected_commands(history@, snapshot@, i as int),
            first_index_fault(0, n, f) == first_index_fault(i as int, n, f),
        decreases controls.len() - i,
    {
        let control = &controls[i];
        assert(control@ == history@.controls[i as int]);
        if let Some(id) = &control.processed_segment_id {
            let segment = match find_segment(&history.segments, id) {
                Some(segment) => segment,
                None => {
                    return invalid("execution.control_segment");
                },
            };
            if has_command(&expected, &control.command.command_id) {
                return invalid("execution.receipt_duplicate");
            }
            let ghost before = expected.deep_view();
            let added = ExpectedCommand {
                command_id: control.command.command_id.copy(),
                payload_digest: control.command.digest(),
                revision: segment.accepted_revision,
            };
            let ghost item = added@;
            expected.push(added);
            assert(expected.deep_view() =~= before.push(item));
        }
        i = i + 1;
    }
    Ok(expected)
}

fn expect_commands(history: &ExecutionHistory, snapshot: &RunSnapshot) -> (r: Result<
    Vec<ExpectedCommand>,
    ContractError,
>)
    ensures
        failure(r) == expected_fault(history@, snapshot@),
        r matches Ok(expected) ==> expected.deep_view() == expected_commands(
            history@,
            snapshot@,
            history@.controls.len() as int,
        ),
{
    let receipts = list_receipt_commands(snapshot);
    let unique = |i: usize| -> (r: Result<(), ContractError>)
        requires
            i < receipts.len(),
        ensures
            failure(r) == repeated_fault(receipts.deep_view())(i as int),
    { check_repeated(&receipts, i) };
    assert(receipts.deep_view().len() == receipts.len());
    check_indices(receipts.len(), unique, Ghost(repeated_fault(receipts.deep_view())))?;
    expect_controls(history, snapshot, receipts)
}

/// Why an accepted command is not the one that is expected.
pub open spec fn coverage_fault(
    history: ExecutionHistoryView,
    expected: Seq<ExpectedCommandView>,
) -> spec_fn(AcceptedSegmentCommandView) -> Option<Fault> {
    |accepted: AcceptedSegmentCommandView|
        match first_in(history.segments, segment_named(accepted.segment_id)) {
            None => misrecorded("execution.receipt_segment"),
            Some(segment) => if first_in(expected, command_named(accepted.command_id)) != Some(
                ExpectedCommandView {
                    command_id: accepted.command_id,
                    payload_digest: accepted.payload_digest,
                    revision: segment.accepted_revision,
                },
            ) {
                misrecorded("execution.receipt_payload")
            } else {
                None
            },
        }
}

fn check_coverage(
    history: &ExecutionHistory,
    expected: &Vec<ExpectedCommand>,
    accepted: &AcceptedSegmentCommand,
) -> (r: Result<(), ContractError>)
    ensures
        failure(r) == coverage_fault(history@, expected.deep_view())(accepted@),
{
    let segment = match find_segment(&history.segments, &accepted.segment_id) {
        Some(segment) => segment,
        None => {
            return invalid("execution.receipt_segment");
        },
    };
    let same = |command: &ExpectedCommand| -> (b: bool)
        ensures
            b == command_named(accepted@.command_id)(command@),
    { command.command_id.same(&accepted.command_id) };
    proof {
        crate::data::lemma_first_in(expected.deep_view(), command_named(accepted@.command_id));
    }
    match find(expected, same, Ghost(command_named(accepted@.command_id))) {
        Some(command) => {
            if !command.payload_digest.same(&accepted.payload_digest) || command.revision
                != segment.accepted_revision {
                return invalid("execution.receipt_payload");
            }
            Ok(())
        },
        None => invalid("execution.receipt_payload"),
    }
}

/// Why a control command is refused.
pub open spec fn control_fault(command: ControlCommandView) -> Option<Fault> {
    match command.action {
        ControlActionView::Stop { cause } => if is_stop_cause(cause) {
            None
        } else {
            fault(ErrorCode::InvalidContract, "control.stop_cause")
        },
        _ => None,
    }
}

/// Check that a control command asks for something that controls can do.
pub fn validate_control(command: &ControlCommand) -> (r: Result<(), ContractError>)
    ensures
        failure(r) == control_fault(command@),
{
    match &command.action {
        ControlAction::Stop { cause } => {
            if !(*cause == InterruptionCause::HostShutdown || *cause
                == InterruptionCause::SegmentStopped) {
                return fail(ErrorCode::InvalidContract, "control.stop_cause");
            }
            Ok(())
        },
        _ => Ok(()),
    }
}

/// Why a stored control does not agree with what was accepted.
pub open spec fn stored_control_fault(history: ExecutionHistoryView) -> spec_fn(int) -> Option<
    Fault,
> {
    |i: int|
        {
            let control = history.controls[i];
            let id = control.command.command_id;
            let accepted = first_in(history.accepted_commands, accepted_named(id));
            if control_fault(control.command) is Some {
                control_fault(control.command)
            } else if !(match (control.processed_segment_id, accepted) {
                (Some(segment), Some(receipt)) => segment == receipt.segment_id
                    && receipt.payload_digest == control_digest(control.command),
                (None, None) => true,
                _ => false,
            }) {
                misrecorded("execution.control_receipt")
            } else if some_in(history.controls.take(i), control_named(id)) || (
            control.processed_segment_id matches Some(segment) && !some_in(
                history.segments,
                segment_named(segment),
            )) {
                misrecorded("execution.controls")
            } else {
                None
            }
        }
}

fn check_stored_control(history: &ExecutionHistory, i: usize) -> (r: Result<(), ContractError>)
    requires
        i < history.controls.len(),
    ensures
        failure(r) == stored_control_fault(history@)(i as int),
{
    let control = &history.controls[i];
    assert(control@ == history@.controls[i as int]);
    validate_control(&control.command)?;
    let id = &control.command.command_id;
    let accepted = find_accepted(&history.accepted_commands, id);
    let agrees = match (&control.processed_segment_id, accepted) {
        (Some(segment), Some(receipt)) => segment.same(&receipt.segment_id)
            && receipt.payload_digest.same(&control.command.digest()),
        (None, None) => true,
        _ => false,
    };
    if !agrees {
        return invalid("execution.control_receipt");
    }
    let same = |other: &StoredControlCommand| -> (b: bool)
        ensures
            b == control_named(id@)(other@),
    { other.command.command_id.same(id) };
    let is_unknown = match &control.processed_segment_id {
        Some(segment) => !has_segment(&history.segments, segment),
        None => false,
    };
    if any_before(&history.controls, i, same, Ghost(control_named(id@))) || is_unknown {
        return invalid("execution.controls");
    }
    Ok(())
}

/// Why the commands of a history are refused.
pub open spec fn commands_fault(
    history: ExecutionHistoryView,
    snapshot: RunSnapshotView,
) -> Option<Fault> {
    let expected = expected_commands(history, snapshot, history.controls.len() as int);
    let accepted = first_index_fault(
        0,
        history.accepted_commands.len() as int,
        accepted_fault(history),
    );
    if accepted is Some {
        accepted
    } else if expected_fault(history, snapshot) is Some {
        expected_fault(history, snapshot)
    } else if expected.len() != history.accepted_commands.len() {
        misrecorded("execution.receipt_coverage")
    } else {
        or_else(
            first_fault(history.accepted_commands, coverage_fault(history, expected)),
            first_index_fault(0, history.controls.len() as int, stored_control_fault(history)),
        )
    }
}

fn check_commands(history: &ExecutionHistory, snapshot: &RunSnapshot) -> (r: Result<
    (),
    ContractError,
>)
    ensures
        failure(r) == commands_fault(history@, snapshot@),
{
    assert(history@.accepted_commands.len() == history.accepted_commands.len());
    assert(history@.controls.len() == history.controls.len());
    let recorded = |i: usize| -> (r: Result<(), ContractError>)
        requires
            i < history.accepted_commands.len(),
        ensures
            failure(r) == accepted_fault(history@)(i as int),
    { check_accepted(history, i) };
    check_indices(history.accepted_commands.len(), recorded, Ghost(accepted_fault(history@)))?;
    let expected = expect_commands(history, snapshot)?;
    assert(expected.deep_view().len() == expected.len());
    if expected.len() != history.accepted_commands.len() {
        return invalid("execution.receipt_coverage");
    }
    let covered = |accepted: &AcceptedSegmentCommand| -> (r: Result<(), ContractError>)
        ensures
            failure(r) == coverage_fault(history@, expected.deep_view())(accepted@),
    { check_coverage(history, &expected, accepted) };
    check_each(
        &history.accepted_commands,
        covered,
        Ghost(coverage_fault(history@, expected.deep_view())),
    )?;
    let agreeing = |i: usize| -> (r: Result<(), ContractError>)
        requires
            i < history.controls.len(),
        ensures
            failure(r) == stored_control_fault(history@)(i as int),
    { check_stored_control(history, i) };
    check_indices(history.controls.len(), agreeing, Ghost(stored_control_fault(history@)))
}

/// Why an execution history is refused. `limits` is what holding the texts of its submission to the
/// limits reported.
#[verifier::opaque]
pub open spec fn history_fault(
    history: ExecutionHistoryView,
    snapshot: RunSnapshotView,
    limits: SubmissionLimitsView,
) -> Option<Fault> {
    if history.run_id != snapshot.run_id || history.segments.len() == 0 {
        misrecorded("execution.run")
    } else {
        or_else(
            match history.submitted {
                Some(submitted) => admitted_fault(submitted, snapshot, limits),
                None => None,
            },
            or_else(
                first_index_fault(
                    0,
                    history.segments.len() as int,
                    history_segment_fault(history, snapshot),
                ),
                or_else(current_fault(history, snapshot), commands_fault(history, snapshot)),
            ),
        )
    }
}

/// Hold an execution history against itself and against the checkpoint of its run. `limits` is what
/// holding the texts of its submission to the limits reported.
pub fn validate_history(
    history: &ExecutionHistory,
    snapshot: &RunSnapshot,
    limits: &SubmissionLimits,
) -> (r: Result<(), ContractError>)
    ensures
        failure(r) == history_fault(history@, snapshot@, limits@),
{
    reveal(history_fault);
    assert(history@.segments.len() == history.segments.len());
    if !history.run_id.same(&snapshot.run_id) || history.segments.len() == 0 {
        return invalid("execution.run");
    }
    if let Some(submitted) = &history.submitted {
        validate_submission(submitted, snapshot, limits)?;
    }
    let following = |i: usize| -> (r: Result<(), ContractError>)
        requires
            i < history.segments.len(),
        ensures
            failure(r) == history_segment_fault(history@, snapshot@)(i as int),
    { check_history_segment(history, snapshot, i) };
    check_indices(
        history.segments.len(),
        following,
        Ghost(history_segment_fault(history@, snapshot@)),
    )?;
    check_current(history, snapshot)?;
    check_commands(history, snapshot)
}

/// The command that a checkpoint accepts, if it accepts one.
pub open spec fn command_accepted(next: RunSnapshotView) -> Option<ResumeCommandView> {
    match final_of(next.resume_receipts) {
        Some(receipt) => if receipt.accepted_revision == next.revision {
            Some(receipt.command)
        } else {
            recovery_accepted(next)
        },
        None => recovery_accepted(next),
    }
}

/// The recovery that a checkpoint accepts, if it accepts one.
pub open spec fn recovery_accepted(next: RunSnapshotView) -> Option<ResumeCommandView> {
    match final_of(next.recovery_receipts) {
        Some(receipt) => if receipt.accepted_revision == next.revision {
            Some(receipt.command)
        } else {
            None
        },
        None => None,
    }
}

/// The command that a checkpoint accepts, if it accepts one.
pub fn accepted_command(next: &RunSnapshot) -> (r: Option<&ResumeCommand>)
    ensures
        r.deep_view() == command_accepted(next@),
{
    if let Some(receipt) = last(&next.resume_receipts) {
        if receipt.accepted_revision == next.revision {
            return Some(&receipt.command);
        }
    }
    match last(&next.recovery_receipts) {
        Some(receipt) => {
            if receipt.accepted_revision == next.revision {
                Some(&receipt.command)
            } else {
                None
            }
        },
        None => None,
    }
}

/// A checkpoint opens a new segment.
pub open spec fn opens_segment(
    history: ExecutionHistoryView,
    next: RunSnapshotView,
    override_id: Option<Seq<char>>,
) -> bool {
    let current = history.segments.last();
    ||| command_accepted(next) is Some
    ||| current.outcome is Some
    ||| override_id matches Some(id) && id != current.segment_id
}

/// A segment that is closed where it was left unsettled.
pub open spec fn closed(segment: ExecutionSegmentView, previous: RunSnapshotView)
    -> ExecutionSegmentView {
    if segment.outcome is None {
        ExecutionSegmentView {
            outcome: Some(interruption_of(previous, segment.segment_id)),
            last_event_seq: Some(previous.last_event_seq),
            source_snapshot_ref: Some(archived(previous, segment.segment_id).reference),
            ..segment
        }
    } else {
        segment
    }
}

/// The identifier of the segment that a checkpoint opens.
pub open spec fn opened_id(next: RunSnapshotView, override_id: Option<Seq<char>>) -> Seq<char> {
    match override_id {
        Some(id) => id,
        None => segment_id_of(next.run_id, next.revision),
    }
}

/// The segments after a checkpoint, before the checkpoint's own outcome is written down.
pub open spec fn segments_after(
    history: ExecutionHistoryView,
    previous: RunSnapshotView,
    next: RunSnapshotView,
    override_id: Option<Seq<char>>,
) -> Seq<ExecutionSegmentView> {
    if opens_segment(history, next, override_id) {
        let last = closed(history.segments.last(), previous);
        history.segments.drop_last().push(last).push(
            ExecutionSegmentView {
                app_state: last.app_state,
                ..open_segment(
                    history.execution_principal_ref,
                    next.run_id,
                    opened_id(next, override_id),
                    next.revision,
                )
            },
        )
    } else {
        history.segments
    }
}

/// A segment with the outcome and the app state of a checkpoint.
pub open spec fn settled_by(segment: ExecutionSegmentView, next: RunSnapshotView)
    -> ExecutionSegmentView {
    match next.outcome {
        Some(outcome) => ExecutionSegmentView {
            app_state: next.app_state,
            last_event_seq: Some(next.last_event_seq),
            outcome: Some(SegmentOutcomeView::Settled { outcome }),
            ..segment
        },
        None => ExecutionSegmentView { app_state: next.app_state, ..segment },
    }
}

/// The history after a checkpoint.
pub open spec fn history_after(
    history: ExecutionHistoryView,
    previous: RunSnapshotView,
    next: RunSnapshotView,
    override_id: Option<Seq<char>>,
) -> ExecutionHistoryView {
    let segments = segments_after(history, previous, next, override_id);
    let current = settled_by(segments.last(), next);
    ExecutionHistoryView {
        segments: segments.drop_last().push(current),
        accepted_commands: match command_accepted(next) {
            Some(command) => history.accepted_commands.push(
                AcceptedSegmentCommandView {
                    command_id: command.command_id,
                    payload_digest: command.digest,
                    segment_id: current.segment_id,
                },
            ),
            None => history.accepted_commands,
        },
        initial_claimed: true,
        ..history
    }
}

/// Why a history cannot be taken to a checkpoint.
pub open spec fn advance_fault(
    history: ExecutionHistoryView,
    previous: RunSnapshotView,
    next: RunSnapshotView,
    override_id: Option<Seq<char>>,
    limits: SubmissionLimitsView,
) -> Option<Fault> {
    if history.segments.len() == 0 {
        misrecorded("execution.segment")
    } else if opens_segment(history, next, override_id) && some_in(
        history.segments,
        segment_named(opened_id(next, override_id)),
    ) {
        fault(ErrorCode::RequestConflict, "execution.segment_id")
    } else if command_accepted(next) matches Some(command) && (some_in(
        history.accepted_commands,
        accepted_named(command.command_id),
    ) || some_in(history.controls, control_named(command.command_id))) {
        fault(ErrorCode::RequestConflict, "execution.command_id")
    } else {
        history_fault(history_after(history, previous, next, override_id), next, limits)
    }
}

fn close(segment: ExecutionSegment, previous: &RunSnapshot) -> (r: ExecutionSegment)
    ensures
        r@ == closed(segment@, previous@),
{
    if segment.outcome.is_none() {
        let outcome = interrupted(previous, &segment.segment_id);
        let source = archived_source(previous, &segment.segment_id);
        ExecutionSegment {
            outcome: Some(outcome),
            last_event_seq: Some(previous.last_event_seq),
            source_snapshot_ref: Some(source.reference().copy()),
            ..segment
        }
    } else {
        segment
    }
}

fn settle(segment: ExecutionSegment, next: &RunSnapshot) -> (r: ExecutionSegment)
    ensures
        r@ == settled_by(segment@, next@),
{
    match &next.outcome {
        Some(outcome) => ExecutionSegment {
            app_state: next.app_state.copy(),
            last_event_seq: Some(next.last_event_seq),
            outcome: Some(SegmentOutcome::Settled { outcome: Box::new(outcome.copy()) }),
            ..segment
        },
        None => ExecutionSegment { app_state: next.app_state.copy(), ..segment },
    }
}

fn is_opening(history: &ExecutionHistory, next: &RunSnapshot, override_id: Option<&Id>) -> (r: bool)
    requires
        history.segments.len() > 0,
    ensures
        r == opens_segment(history@, next@, override_id.deep_view()),
{
    let segments = &history.segments;
    let current = &segments[segments.len() - 1];
    assert(history@.segments.len() == segments.len());
    assert(current@ == history@.segments.last());
    let is_other = match override_id {
        Some(id) => !id.same(&current.segment_id),
        None => false,
    };
    accepted_command(next).is_some() || current.outcome.is_some() || is_other
}

fn follow_segments(
    history: &ExecutionHistory,
    previous: &RunSnapshot,
    next: &RunSnapshot,
    override_id: Option<&Id>,
) -> (r: Vec<ExecutionSegment>)
    requires
        history.segments.len() > 0,
    ensures
        r.deep_view() == segments_after(history@, previous@, next@, override_id.deep_view()),
        r.len() > 0,
{
    let mut segments = history.segments.copy();
    assert(segments.deep_view() == history@.segments);
    assert(segments.deep_view().len() == segments.len());
    assert(history@.segments.len() == history.segments.len());
    if is_opening(history, next, override_id) {
        let ghost all = segments.deep_view();
        if let Some(current) = segments.pop() {
            assert(current@ == all.last());
            assert(segments.deep_view() =~= all.drop_last());
            let last = close(current, previous);
            let ghost shut = last@;
            let app_state = last.app_state.copy();
            segments.push(last);
            assert(segments.deep_view() =~= all.drop_last().push(shut));
            let id = match override_id {
                Some(id) => id.copy(),
                None => segment_id(&next.run_id, next.revision),
            };
            let opened = ExecutionSegment {
                schema_version: ExecutionRecordVersion::V1,
                execution_principal_ref: history.execution_principal_ref.copy(),
                run_id: next.run_id.copy(),
                segment_id: id,
                accepted_revision: next.revision,
                outcome: None,
                last_event_seq: None,
                source_snapshot_ref: None,
                app_state,
            };
            let ghost fresh = opened@;
            segments.push(opened);
            assert(segments.deep_view() =~= all.drop_last().push(shut).push(fresh));
        }
    }
    segments
}

/// Take an execution history to the next checkpoint of its run.
pub fn advance_history(
    history: &ExecutionHistory,
    previous: &RunSnapshot,
    next: &RunSnapshot,
    override_id: Option<&Id>,
    limits: &SubmissionLimits,
) -> (r: Result<ExecutionHistory, ContractError>)
    ensures
        failure(r) == advance_fault(
            history@,
            previous@,
            next@,
            override_id.deep_view(),
            limits@,
        ),
        r matches Ok(advanced) ==> advanced@ == history_after(
            history@,
            previous@,
            next@,
            override_id.deep_view(),
        ),
{
    assert(history@.segments.len() == history.segments.len());
    if history.segments.len() == 0 {
        return invalid("execution.segment");
    }
    if is_opening(history, next, override_id) {
        let id = match override_id {
            Some(id) => id.copy(),
            None => segment_id(&next.run_id, next.revision),
        };
        if has_segment(&history.segments, &id) {
            return fail(ErrorCode::RequestConflict, "execution.segment_id");
        }
    }
    let command = accepted_command(next);
    if let Some(command) = command {
        if has_accepted(&history.accepted_commands, &command.command_id) || has_control(
            &history.controls,
            &command.command_id,
        ) {
            return fail(ErrorCode::RequestConflict, "execution.command_id");
        }
    }
    let mut segments = follow_segments(history, previous, next, override_id);
    let ghost all = segments.deep_view();
    let mut accepted_commands = history.accepted_commands.copy();
    if let Some(current) = segments.pop() {
        assert(current@ == all.last());
        assert(segments.deep_view() =~= all.drop_last());
        let current = settle(current, next);
        let ghost now = current@;
        if let Some(command) = command {
            let ghost before = accepted_commands.deep_view();
            let added = AcceptedSegmentCommand {
                command_id: command.command_id.copy(),
                payload_digest: command.digest.copy(),
                segment_id: current.segment_id.copy(),
            };
            let ghost item = added@;
            accepted_commands.push(added);
            assert(accepted_commands.deep_view() =~= before.push(item));
        }
        segments.push(current);
        assert(segments.deep_view() =~= all.drop_last().push(now));
    }
    let advanced = ExecutionHistory {
        run_id: history.run_id.copy(),
        execution_principal_ref: history.execution_principal_ref.copy(),
        execution_grant_ref: history.execution_grant_ref.copy(),
        submitted: history.submitted.copy(),
        initial_claimed: true,
        segments,
        accepted_commands,
        controls: history.controls.copy(),
    };
    assert(advanced@ =~= history_after(history@, previous@, next@, override_id.deep_view()));
    validate_history(&advanced, next, limits)?;
    Ok(advanced)
}

/// An outcome carries out a control.
pub open spec fn carries_out(
    action: ControlActionView,
    snapshot: RunSnapshotView,
    now_ms: i64,
) -> bool {
    match snapshot.outcome {
        None => false,
        Some(outcome) => match action {
            ControlActionView::Cancel { reason } => outcome.result == (
            OutcomeResultView::Cancelled { reason }),
            ControlActionView::Expire => now_ms >= snapshot.timing.deadline_at_ms && outcome.result
                == (OutcomeResultView::Exhausted { budget: BudgetKind::Elapsed }),
            ControlActionView::Stop { cause } => match outcome.result {
                OutcomeResultView::Interrupted { interruption } => interruption.cause == cause,
                OutcomeResultView::Cancelled { .. } => true,
                OutcomeResultView::Failed { .. } => true,
                OutcomeResultView::Exhausted { .. } => true,
                _ => false,
            },
        },
    }
}

fn is_carried_out(action: &ControlAction, snapshot: &RunSnapshot, now_ms: i64) -> (r: bool)
    ensures
        r == carries_out(action@, snapshot@, now_ms),
{
    let outcome = match &snapshot.outcome {
        Some(outcome) => outcome,
        None => {
            return false;
        },
    };
    match action {
        ControlAction::Cancel { reason } => match &outcome.result {
            OutcomeResult::Cancelled { reason: actual } => crate::text::reads(
                actual,
                reason.as_str(),
            ),
            _ => false,
        },
        ControlAction::Expire => now_ms >= snapshot.timing.deadline_at_ms && match &outcome.result {
            OutcomeResult::Exhausted { budget } => *budget == BudgetKind::Elapsed,
            _ => false,
        },
        ControlAction::Stop { cause } => match &outcome.result {
            OutcomeResult::Interrupted { interruption } => interruption.cause == *cause,
            OutcomeResult::Cancelled { .. } => true,
            OutcomeResult::Failed { .. } => true,
            OutcomeResult::Exhausted { .. } => true,
            _ => false,
        },
    }
}

/// A history in which the control at a position was processed by a segment.
pub open spec fn processed(history: ExecutionHistoryView, index: int, segment_id: Seq<char>)
    -> ExecutionHistoryView {
    let control = history.controls[index];
    ExecutionHistoryView {
        controls: history.controls.update(
            index,
            StoredControlCommandView {
                processed_segment_id: Some(segment_id),
                ..control
            },
        ),
        accepted_commands: history.accepted_commands.push(
            AcceptedSegmentCommandView {
                command_id: control.command.command_id,
                payload_digest: control_digest(control.command),
                segment_id,
            },
        ),
        ..history
    }
}

/// Mark the control at a position as processed by a segment.
pub fn process(history: ExecutionHistory, index: usize, segment_id: &Id) -> (r: ExecutionHistory)
    requires
        index < history.controls.len(),
    ensures
        r@ == processed(history@, index as int, segment_id@),
{
    let ghost before = history@;
    let mut history = history;
    let command = history.controls[index].command.copy();
    assert(command@ == before.controls[index as int].command);
    let added = AcceptedSegmentCommand {
        command_id: command.command_id.copy(),
        payload_digest: command.digest(),
        segment_id: segment_id.copy(),
    };
    let ghost item = added@;
    let done = StoredControlCommand { command, processed_segment_id: Some(segment_id.copy()) };
    let ghost control = done@;
    history.controls.set(index, done);
    assert(history.controls.deep_view() =~= before.controls.update(index as int, control));
    history.accepted_commands.push(added);
    assert(history.accepted_commands.deep_view() =~= before.accepted_commands.push(item));
    assert(history@ =~= processed(before, index as int, segment_id@));
    history
}

/// Where a control stands.
pub fn find_control(controls: &Vec<StoredControlCommand>, id: &Id) -> (r: Option<usize>)
    ensures
        match r {
            Some(i) => i < controls.len() && position_in(
                controls.deep_view(),
                control_named(id@),
            ) == Some(i as int),
            None => position_in(controls.deep_view(), control_named(id@)) is None,
        },
{
    let same = |control: &StoredControlCommand| -> (b: bool)
        ensures
            b == control_named(id@)(control@),
    { control.command.command_id.same(id) };
    crate::data::position(controls, same, Ghost(control_named(id@)))
}

/// Why one control cannot be completed.
pub open spec fn completion_fault(
    history: ExecutionHistoryView,
    snapshot: RunSnapshotView,
    commands: Seq<Seq<char>>,
    i: int,
    now_ms: i64,
) -> Option<Fault> {
    let id = commands[i];
    if commands.take(i).contains(id) {
        misrecorded("control.duplicate")
    } else {
        match position_in(history.controls, control_named(id)) {
            None => misrecorded("control.missing"),
            Some(index) => if history.controls[index].processed_segment_id is Some {
                fault(ErrorCode::RequestConflict, "control.processed")
            } else if !carries_out(history.controls[index].command.action, snapshot, now_ms) {
                fault(ErrorCode::InvalidTransition, "control.outcome")
            } else {
                None
            },
        }
    }
}

/// A history in which the first controls of a list are completed.
pub open spec fn completed_history(
    history: ExecutionHistoryView,
    commands: Seq<Seq<char>>,
    n: int,
) -> ExecutionHistoryView
    decreases n,
{
    if n <= 0 {
        history
    } else {
        let before = completed_history(history, commands, n - 1);
        processed(
            before,
            position_in(before.controls, control_named(commands[n - 1]))->Some_0,
            history.segments.last().segment_id,
        )
    }
}

/// Why the control at a position of a list cannot be completed.
pub open spec fn completion_fault_at(
    history: ExecutionHistoryView,
    snapshot: RunSnapshotView,
    commands: Seq<Seq<char>>,
    now_ms: i64,
) -> spec_fn(int) -> Option<Fault> {
    |i: int|
        completion_fault(completed_history(history, commands, i), snapshot, commands, i, now_ms)
}

/// Why controls cannot be completed.
pub open spec fn controls_fault(
    history: ExecutionHistoryView,
    snapshot: RunSnapshotView,
    commands: Seq<Seq<char>>,
    now_ms: i64,
    limits: SubmissionLimitsView,
) -> Option<Fault> {
    if history.segments.len() == 0 {
        misrecorded("execution.segment")
    } else {
        or_else(
            first_index_fault(
                0,
                commands.len() as int,
                completion_fault_at(history, snapshot, commands, now_ms),
            ),
            history_fault(
                completed_history(history, commands, commands.len() as int),
                snapshot,
                limits,
            ),
        )
    }
}

fn is_listed_before(commands: &Vec<Id>, i: usize) -> (r: bool)
    requires
        i < commands.len(),
    ensures
        r == commands.deep_view().take(i as int).contains(commands.deep_view()[i as int]),
{
    let ghost s = commands.deep_view();
    let mut j: usize = 0;
    while j < i
        invariant
            j <= i < commands.len(),
            s == commands.deep_view(),
            forall|k: int| 0 <= k < j ==> #[trigger] s.take(i as int)[k] != s[i as int],
        decreases i - j,
    {
        assert(s[j as int] == commands@[j as int]@ && s[i as int] == commands@[i as int]@);
        assert(s.take(i as int)[j as int] == s[j as int]);
        if commands[j].same(&commands[i]) {
            assert(s.take(i as int).contains(s[i as int]));
            return true;
        }
        j = j + 1;
    }
    false
}

/// Complete the controls that a settlement carries out.
pub fn complete_controls(
    history: ExecutionHistory,
    snapshot: &RunSnapshot,
    commands: &Vec<Id>,
    now_ms: i64,
    limits: &SubmissionLimits,
) -> (r: Result<ExecutionHistory, ContractError>)
    ensures
        failure(r) == controls_fault(history@, snapshot@, commands.deep_view(), now_ms, limits@),
        r matches Ok(completed) ==> completed@ == completed_history(
            history@,
            commands.deep_view(),
            commands.deep_view().len() as int,
        ),
{
    assert(history@.segments.len() == history.segments.len());
    if history.segments.len() == 0 {
        return invalid("execution.segment");
    }
    let ghost first = history@;
    let segment = history.segments[history.segments.len() - 1].segment_id.copy();
    assert(segment@ == first.segments.last().segment_id);
    let ghost ids = commands.deep_view();
    let ghost n = ids.len() as int;
    let ghost f = completion_fault_at(first, snapshot@, ids, now_ms);
    let mut working = history;
    let mut i: usize = 0;
    while i < commands.len()
        invariant
            i <= commands.len(),
            first == history@,
            first.segments.len() > 0,
            ids == commands.deep_view(),
            n == commands.len(),
            f == completion_fault_at(first, snapshot@, ids, now_ms),
            segment@ == first.segments.last().segment_id,
            working@ == completed_history(first, ids, i as int),
            controls_fault(first, snapshot@, ids, now_ms, limits@) == or_else(
                first_index_fault(i as int, n, f),
                history_fault(completed_history(first, ids, n), snapshot@, limits@),
            ),
        decreases commands.len() - i,
    {
        let id = &commands[i];
        assert(id@ == ids[i as int]);
        if is_listed_before(commands, i) {
            return invalid("control.duplicate");
        }
        let index: usize = match find_control(&working.controls, id) {
            Some(index) => index,
            None => {
                return invalid("control.missing");
            },
        };
        assert(working@.controls[index as int] == working.controls@[index as int]@);
        if working.controls[index].processed_segment_id.is_some() {
            return fail(ErrorCode::RequestConflict, "control.processed");
        }
        if !is_carried_out(&working.controls[index].command.action, snapshot, now_ms) {
            return fail(ErrorCode::InvalidTransition, "control.outcome");
        }
        working = process(working, index, &segment);
        i = i + 1;
    }
    validate_history(&working, snapshot, limits)?;
    Ok(working)
}

/// The outcome record that a settlement event names.
pub open spec fn settlement_ref(payload: RunEventPayloadView) -> Option<RecordRefView> {
    match payload {
        RunEventPayloadView::RunFinished { outcome_ref } => Some(outcome_ref),
        RunEventPayloadView::RunInterrupted { outcome_ref, .. } => Some(outcome_ref),
        RunEventPayloadView::RunWaiting { outcome_ref, .. } => outcome_ref,
        _ => None,
    }
}

/// Why the outcome of a settled segment is not the one that was recorded.
pub open spec fn settled_outcome_fault(
    records: Map<RecordKeyView, ProtectedRecordView>,
    history: ExecutionHistoryView,
    outcome: RunOutcomeView,
    event: RunEventView,
) -> Option<Fault> {
    let wait = match event.payload {
        RunEventPayloadView::RunWaiting { wait_ref, .. } => if event_fault::<WaitState>(
            records,
            wait_ref,
        ) is Some {
            event_fault::<WaitState>(records, wait_ref)
        } else if outcome.result != (OutcomeResultView::Waiting {
            wait: value_at::<WaitState>(records, wait_ref),
        }) {
            misrecorded("execution.wait_outcome")
        } else {
            None
        },
        RunEventPayloadView::RunFinished { .. } => None,
        RunEventPayloadView::RunInterrupted { .. } => None,
        _ => misrecorded("execution.settlement_event"),
    };
    if wait is Some {
        wait
    } else {
        match settlement_ref(event.payload) {
            None => if history.execution_grant_ref is None {
                None
            } else {
                misrecorded("execution.wait_outcome_missing")
            },
            Some(reference) => if event_fault::<RunOutcome>(records, reference) is Some {
                event_fault::<RunOutcome>(records, reference)
            } else if value_at::<RunOutcome>(records, reference) != outcome {
                misrecorded("execution.settlement_outcome")
            } else {
                None
            },
        }
    }
}

fn check_settled_outcome(
    records: &Records,
    history: &ExecutionHistory,
    outcome: &RunOutcome,
    event: &RunEvent,
) -> (r: Result<(), ContractError>)
    ensures
        failure(r) == settled_outcome_fault(records@, history@, outcome@, event@),
{
    let reference = match &event.payload {
        RunEventPayload::RunFinished { outcome_ref } => outcome_ref,
        RunEventPayload::RunInterrupted { outcome_ref, .. } => outcome_ref,
        RunEventPayload::RunWaiting { wait_ref, outcome_ref } => {
            let wait = records.event_record::<WaitState>(wait_ref)?;
            let is_waiting = match &outcome.result {
                OutcomeResult::Waiting { wait: actual } => actual.same(wait),
                _ => false,
            };
            if !is_waiting {
                return invalid("execution.wait_outcome");
            }
            match outcome_ref {
                Some(reference) => reference,
                None => {
                    if history.execution_grant_ref.is_none() {
                        return Ok(());
                    }
                    return invalid("execution.wait_outcome_missing");
                },
            }
        },
        _ => {
            return invalid("execution.settlement_event");
        },
    };
    let stored = records.event_record::<RunOutcome>(reference)?;
    if !stored.same(outcome) {
        return invalid("execution.settlement_outcome");
    }
    Ok(())
}

/// The recoveries that superseded the segment of a revision.
pub open spec fn supersedes(revision: u64) -> spec_fn(RecoveryReceiptView) -> bool {
    |receipt: RecoveryReceiptView| receipt.previous_segment_start_revision == revision
}

/// Why the checkpoint of an interrupted segment is not the one that was archived.
pub open spec fn interrupted_source_fault(
    records: Map<RecordKeyView, ProtectedRecordView>,
    snapshot: RunSnapshotView,
    segment: ExecutionSegmentView,
    sequence: u64,
) -> Option<Fault> {
    match segment.source_snapshot_ref {
        None => misrecorded("execution.interrupted_source"),
        Some(reference) => {
            let source = value_at::<RunSnapshot>(records, reference);
            let outcome = segment.outcome->Some_0;
            let recovered = first_in(
                snapshot.recovery_receipts,
                supersedes(segment.accepted_revision),
            );
            if event_fault::<RunSnapshot>(records, reference) is Some {
                event_fault::<RunSnapshot>(records, reference)
            } else if source.defect is Some {
                source.defect
            } else if source.request != snapshot.request || source.profile != snapshot.profile
                || source.limits != snapshot.limits || source.system_inputs
                != snapshot.system_inputs {
                misrecorded("execution.interrupted_identity")
            } else if recovered matches Some(receipt) && event_fault::<RunSnapshot>(
                records,
                receipt.source_snapshot_ref,
            ) is Some {
                event_fault::<RunSnapshot>(records, recovered->Some_0.source_snapshot_ref)
            } else if recovered matches Some(receipt) && value_at::<RunSnapshot>(
                records,
                receipt.source_snapshot_ref,
            ) != source {
                misrecorded("execution.interrupted_source")
            } else if source.run_id != snapshot.run_id || source.scope != snapshot.scope
                || source.revision != outcome->interruption.checkpoint_revision
                || source.last_event_seq != sequence || source.app_state != segment.app_state
                || interruption_of(source, segment.segment_id) != outcome {
                misrecorded("execution.interrupted_source")
            } else {
                None
            }
        },
    }
}

fn check_interrupted_source(
    records: &Records,
    snapshot: &RunSnapshot,
    segment: &ExecutionSegment,
    outcome: &SegmentOutcome,
    interruption: &InterruptionRecord,
    sequence: u64,
) -> (r: Result<(), ContractError>)
    requires
        segment@.outcome == Some(outcome@),
        outcome@ == (SegmentOutcomeView::Interrupted { interruption: interruption@ }),
    ensures
        failure(r) == interrupted_source_fault(records@, snapshot@, segment@, sequence),
{
    let reference = match &segment.source_snapshot_ref {
        Some(reference) => reference,
        None => {
            return invalid("execution.interrupted_source");
        },
    };
    let source = records.event_record::<RunSnapshot>(reference)?;
    source.validate()?;
    if !source.request.same(&snapshot.request) || !source.profile.same(&snapshot.profile)
        || !source.limits.same(&snapshot.limits) || !source.system_inputs.same(
        &snapshot.system_inputs,
    ) {
        return invalid("execution.interrupted_identity");
    }
    let superseding = |receipt: &RecoveryReceipt| -> (b: bool)
        ensures
            b == supersedes(segment@.accepted_revision)(receipt@),
    { receipt.previous_segment_start_revision == segment.accepted_revision };
    if let Some(receipt) = find(
        &snapshot.recovery_receipts,
        superseding,
        Ghost(supersedes(segment@.accepted_revision)),
    ) {
        let accepted = records.event_record::<RunSnapshot>(&receipt.source_snapshot_ref)?;
        if !accepted.same(source) {
            return invalid("execution.interrupted_source");
        }
    }
    if !source.run_id.same(&snapshot.run_id) || !source.scope.same(&snapshot.scope)
        || source.revision != interruption.checkpoint_revision || source.last_event_seq != sequence
        || !source.app_state.same(&segment.app_state) || !interrupted(
        source,
        &segment.segment_id,
    ).same(outcome) {
        return invalid("execution.interrupted_source");
    }
    Ok(())
}

/// Why the settlement of a segment does not agree with the immutable event of it.
pub open spec fn settlement_fault(
    records: Map<RecordKeyView, ProtectedRecordView>,
    snapshot: RunSnapshotView,
    history: ExecutionHistoryView,
    events: Seq<RunEventView>,
) -> spec_fn(ExecutionSegmentView) -> Option<Fault> {
    |segment: ExecutionSegmentView|
        match (segment.outcome, segment.last_event_seq) {
            (None, _) => None,
            (Some(_), None) => if history.execution_grant_ref is None {
                None
            } else {
                misrecorded("execution.event_boundary_missing")
            },
            (Some(settlement), Some(sequence)) => match first_in(events, at_seq(sequence)) {
                None => misrecorded("execution.settlement_event"),
                Some(event) => match settlement {
                    SegmentOutcomeView::Settled { outcome } => settled_outcome_fault(
                        records,
                        history,
                        outcome,
                        event,
                    ),
                    SegmentOutcomeView::Interrupted { .. } => interrupted_source_fault(
                        records,
                        snapshot,
                        segment,
                        sequence,
                    ),
                },
            },
        }
}

fn check_settlement(
    records: &Records,
    snapshot: &RunSnapshot,
    history: &ExecutionHistory,
    events: &Vec<RunEvent>,
    segment: &ExecutionSegment,
) -> (r: Result<(), ContractError>)
    ensures
        failure(r) == settlement_fault(records@, snapshot@, history@, events.deep_view())(segment@),
{
    let settlement = match &segment.outcome {
        Some(settlement) => settlement,
        None => {
            return Ok(());
        },
    };
    let sequence: u64 = match segment.last_event_seq {
        Some(sequence) => sequence,
        None => {
            if history.execution_grant_ref.is_none() {
                return Ok(());
            }
            return invalid("execution.event_boundary_missing");
        },
    };
    let here = |event: &RunEvent| -> (b: bool)
        ensures
            b == at_seq(sequence)(event@),
    { event.seq == sequence };
    let event = match find(events, here, Ghost(at_seq(sequence))) {
        Some(event) => event,
        None => {
            return invalid("execution.settlement_event");
        },
    };
    match settlement {
        SegmentOutcome::Settled { outcome } => check_settled_outcome(
            records,
            history,
            outcome,
            event,
        ),
        SegmentOutcome::Interrupted { interruption } => check_interrupted_source(
            records,
            snapshot,
            segment,
            settlement,
            interruption,
            sequence,
        ),
    }
}

/// Hold the settlements of a history against the immutable events of them, not merely against
/// another copy inside the history.
pub fn validate_settlements(
    records: &Records,
    snapshot: &RunSnapshot,
    history: &ExecutionHistory,
    events: &Vec<RunEvent>,
) -> (r: Result<(), ContractError>)
    ensures
        failure(r) == first_fault(
            history@.segments,
            settlement_fault(records@, snapshot@, history@, events.deep_view()),
        ),
{
    let agreeing = |segment: &ExecutionSegment| -> (r: Result<(), ContractError>)
        ensures
            failure(r) == settlement_fault(records@, snapshot@, history@, events.deep_view())(
                segment@,
            ),
    { check_settlement(records, snapshot, history, events, segment) };
    check_each(
        &history.segments,
        agreeing,
        Ghost(settlement_fault(records@, snapshot@, history@, events.deep_view())),
    )
}

/// Segments of an accepted history never share an identifier, and later ones were accepted later.
pub proof fn law_segments_follow_each_other(
    history: ExecutionHistoryView,
    snapshot: RunSnapshotView,
    limits: SubmissionLimitsView,
    i: int,
    j: int,
)
    requires
        history_fault(history, snapshot, limits) is None,
        0 <= i < j < history.segments.len(),
    ensures
        history.segments[i].segment_id != history.segments[j].segment_id,
        history.segments[i].accepted_revision < history.segments[j].accepted_revision,
        history.segments[i].outcome is Some,
    decreases j,
{
    reveal(history_fault);
    let f = history_segment_fault(history, snapshot);
    crate::data::lemma_first_index_fault(0, history.segments.len() as int, f);
    assert(f(j) is None && f(i) is None);
    assert(history.segments.take(j)[i] == history.segments[i]);
    assert(!segment_named(history.segments[j].segment_id)(history.segments.take(j)[i]));
    if i < j - 1 {
        law_segments_follow_each_other(history, snapshot, limits, i, j - 1);
    }
}

/// Taking a history to a checkpoint never changes a settled segment, an accepted command, a
/// control or who the run is executed for.
pub proof fn law_history_only_grows(
    history: ExecutionHistoryView,
    previous: RunSnapshotView,
    next: RunSnapshotView,
    override_id: Option<Seq<char>>,
    limits: SubmissionLimitsView,
)
    requires
        advance_fault(history, previous, next, override_id, limits) is None,
    ensures
        ({
            let after = history_after(history, previous, next, override_id);
            &&& after.run_id == history.run_id
            &&& after.execution_principal_ref == history.execution_principal_ref
            &&& after.execution_grant_ref == history.execution_grant_ref
            &&& after.submitted == history.submitted
            &&& after.controls == history.controls
            &&& history.accepted_commands.is_prefix_of(after.accepted_commands)
            &&& after.segments.len() >= history.segments.len()
            &&& forall|i: int|
                0 <= i < history.segments.len() && (#[trigger] history.segments[i]).outcome is Some
                    ==> after.segments[i] == history.segments[i]
        }),
{
    let after = history_after(history, previous, next, override_id);
    let segments = segments_after(history, previous, next, override_id);
    assert forall|i: int|
        0 <= i < history.segments.len() && (
        #[trigger] history.segments[i]).outcome is Some implies after.segments[i]
        == history.segments[i] by {
        if i == history.segments.len() - 1 {
            assert(opens_segment(history, next, override_id));
        }
    }
}

/// A cancellation is carried out by a cancelled outcome of the same reason, an expiry by an exhausted
/// time after the deadline, and a stop by an interruption of its cause or by any end but success and
/// waiting. Nothing is carried out without an outcome.
pub proof fn law_controls_are_carried_out_by_outcomes(
    snapshot: RunSnapshotView,
    reason: Seq<char>,
    cause: InterruptionCause,
    now_ms: i64,
)
    ensures
        carries_out(ControlActionView::Cancel { reason }, snapshot, now_ms) <==> (
        snapshot.outcome is Some && snapshot.outcome->Some_0.result is Cancelled
            && snapshot.outcome->Some_0.result->Cancelled_reason == reason),
        carries_out(ControlActionView::Expire, snapshot, now_ms) <==> (snapshot.outcome is Some
            && snapshot.outcome->Some_0.result is Exhausted && snapshot.outcome->Some_0.result->budget
            == BudgetKind::Elapsed && snapshot.timing.deadline_at_ms <= now_ms),
        carries_out(ControlActionView::Stop { cause }, snapshot, now_ms) <==> (
        snapshot.outcome is Some && (match snapshot.outcome->Some_0.result {
            OutcomeResultView::Interrupted { interruption } => interruption.cause == cause,
            OutcomeResultView::Succeeded { .. } => false,
            OutcomeResultView::Waiting { .. } => false,
            _ => true,
        })),
{
}

/// A stop is asked for only to hand a run over or to end its segment; a cancellation and an expiry
/// may always be asked for.
pub proof fn law_stops_have_a_stopping_cause(command: ControlCommandView)
    ensures
        control_fault(command) is None <==> (match command.action {
            ControlActionView::Stop { cause } => cause == InterruptionCause::HostShutdown || cause
                == InterruptionCause::SegmentStopped,
            _ => true,
        }),
{
}

/// The effects that an interruption leaves unresolved are those of the calls that were under way or
/// whose end is unknown: all of them, and no other.
pub proof fn law_unresolved_effects_are_those_under_way(
    entries: Seq<ToolLedgerEntryView>,
    reference: RecordRefView,
)
    ensures
        uncertain_effects(entries).contains(reference) <==> exists|i: int|
            0 <= i < entries.len() && (#[trigger] entries[i]).call.bound_input_ref == Some(reference)
                && (entries[i].state is Dispatching || entries[i].state is Unknown),
    decreases entries.len(),
{
    if entries.len() > 0 {
        let front = entries.drop_last();
        let earlier = uncertain_effects(front);
        let all = uncertain_effects(entries);
        law_unresolved_effects_are_those_under_way(front, reference);
        if all.contains(reference) {
            let k = choose|k: int| 0 <= k < all.len() && all[k] == reference;
            if k < earlier.len() {
                assert(earlier[k] == reference);
                let i = choose|i: int|
                    0 <= i < front.len() && (#[trigger] front[i]).call.bound_input_ref == Some(
                        reference,
                    ) && (front[i].state is Dispatching || front[i].state is Unknown);
                assert(entries[i] == front[i]);
            } else {
                assert(entries[entries.len() - 1].call.bound_input_ref == Some(reference));
            }
        }
        if exists|i: int|
            0 <= i < entries.len() && (#[trigger] entries[i]).call.bound_input_ref == Some(reference)
                && (entries[i].state is Dispatching || entries[i].state is Unknown) {
            let i = choose|i: int|
                0 <= i < entries.len() && (#[trigger] entries[i]).call.bound_input_ref == Some(
                    reference,
                ) && (entries[i].state is Dispatching || entries[i].state is Unknown);
            if i < front.len() {
                assert(front[i] == entries[i]);
                let k = choose|k: int| 0 <= k < earlier.len() && earlier[k] == reference;
                assert(all[k] == reference);
            } else {
                assert(all[earlier.len() as int] == reference);
            }
        }
    }
}

/// A segment that a run leaves without an outcome is closed as interrupted where the run was left: it
/// can be recovered, it says what is unresolved, and the checkpoint that was left is archived. One
/// that has its outcome stays as it is.
pub proof fn law_segments_left_open_are_interrupted(
    segment: ExecutionSegmentView,
    previous: RunSnapshotView,
)
    ensures
        segment.outcome is Some ==> closed(segment, previous) == segment,
        segment.outcome is None ==> {
            let after = closed(segment, previous);
            &&& after.segment_id == segment.segment_id
            &&& after.accepted_revision == segment.accepted_revision
            &&& after.last_event_seq == Some(previous.last_event_seq)
            &&& after.source_snapshot_ref is Some
            &&& after.source_snapshot_ref->Some_0.digest == digest_of(previous.document)
            &&& after.outcome matches Some(SegmentOutcomeView::Interrupted { interruption }) && {
                &&& interruption.segment_id == segment.segment_id
                &&& interruption.checkpoint_revision == previous.revision
                &&& interruption.recoverable
                &&& interruption.cause == InterruptionCause::SegmentStopped
                &&& interruption.unresolved_effects == uncertain_effects(previous.tool_ledger)
            }
        },
{
}

/// A checkpoint accepts the command of its own revision: of a resumption first, then of a recovery.
/// It opens a segment where it accepts one, or where the last segment is over.
pub proof fn law_commands_are_accepted_at_their_revision(
    history: ExecutionHistoryView,
    next: RunSnapshotView,
    i: int,
)
    ensures
        next.resume_receipts.len() > 0 && next.resume_receipts.last().accepted_revision
            == next.revision ==> command_accepted(next) == Some(
            next.resume_receipts.last().command,
        ),
        (next.resume_receipts.len() == 0 || next.resume_receipts.last().accepted_revision
            != next.revision) && next.recovery_receipts.len() > 0
            && next.recovery_receipts.last().accepted_revision == next.revision
            ==> command_accepted(next) == Some(next.recovery_receipts.last().command),
        (next.resume_receipts.len() == 0 || next.resume_receipts.last().accepted_revision
            != next.revision) && (next.recovery_receipts.len() == 0
            || next.recovery_receipts.last().accepted_revision != next.revision)
            ==> command_accepted(next) is None,
        opens_segment(history, next, None) <==> command_accepted(next) is Some
            || history.segments.last().outcome is Some,
{
}

/// The outcome of a checkpoint is that of the segment that is open there, which also carries the
/// business state; every segment before it keeps what it has.
pub proof fn law_outcomes_settle_the_open_segment(
    history: ExecutionHistoryView,
    previous: RunSnapshotView,
    next: RunSnapshotView,
    override_id: Option<Seq<char>>,
    i: int,
)
    requires
        history.segments.len() > 0,
    ensures
        ({
            let after = history_after(history, previous, next, override_id);
            let last = after.segments.last();
            &&& after.segments.len() == history.segments.len() + if opens_segment(
                history,
                next,
                override_id,
            ) {
                1int
            } else {
                0int
            }
            &&& last.app_state == next.app_state
            &&& next.outcome matches Some(outcome) ==> last.outcome == Some(
                SegmentOutcomeView::Settled { outcome },
            ) && last.last_event_seq == Some(next.last_event_seq)
            &&& next.outcome is None && opens_segment(history, next, override_id)
                ==> last.outcome is None && last.accepted_revision == next.revision
            &&& 0 <= i < history.segments.len() - 1 ==> after.segments[i] == history.segments[i]
            &&& command_accepted(next) matches Some(command) ==> after.accepted_commands.last() == (
            AcceptedSegmentCommandView {
                command_id: command.command_id,
                payload_digest: command.digest,
                segment_id: last.segment_id,
            })
            &&& command_accepted(next) is None ==> after.accepted_commands
                == history.accepted_commands
            &&& after.controls == history.controls
            &&& after.submitted == history.submitted
        }),
{
}

/// Carrying out a command marks that command with its segment and accepts it once, and leaves every
/// other command as it is.
pub proof fn law_carried_out_commands_are_marked(
    history: ExecutionHistoryView,
    index: int,
    segment_id: Seq<char>,
    k: int,
)
    requires
        0 <= index < history.controls.len(),
        0 <= k < history.controls.len(),
    ensures
        ({
            let after = processed(history, index, segment_id);
            &&& after.controls.len() == history.controls.len()
            &&& after.controls[index].processed_segment_id == Some(segment_id)
            &&& after.controls[k].command == history.controls[k].command
            &&& k != index ==> after.controls[k] == history.controls[k]
            &&& after.accepted_commands.len() == history.accepted_commands.len() + 1
            &&& after.accepted_commands.last().command_id
                == history.controls[index].command.command_id
            &&& after.accepted_commands.last().segment_id == segment_id
            &&& after.accepted_commands.drop_last() == history.accepted_commands
            &&& after.segments == history.segments
            &&& after.run_id == history.run_id
        }),
{
    let after = processed(history, index, segment_id);
    assert(after.accepted_commands.drop_last() =~= history.accepted_commands);
}

/// Only a command that was given and is not carried out yet can be completed, and none twice at once.
pub proof fn law_commands_are_completed_once(
    history: ExecutionHistoryView,
    snapshot: RunSnapshotView,
    commands: Seq<Seq<char>>,
    i: int,
    now_ms: i64,
)
    requires
        0 <= i < commands.len(),
        completion_fault(history, snapshot, commands, i, now_ms) is None,
    ensures
        forall|k: int| 0 <= k < i ==> #[trigger] commands[k] != commands[i],
        snapshot.outcome is Some,
        exists|k: int|
            0 <= k < history.controls.len() && (
            #[trigger] history.controls[k]).command.command_id == commands[i]
                && history.controls[k].processed_segment_id is None,
{
    assert forall|k: int| 0 <= k < i implies #[trigger] commands[k] != commands[i] by {
        assert(commands.take(i)[k] == commands[k]);
    }
    crate::data::lemma_position_in(history.controls, control_named(commands[i]));
    let k = position_in(history.controls, control_named(commands[i]))->Some_0;
    assert(history.controls[k].command.command_id == commands[i]);
}

/// A run begins with one open segment, its first, under the one who submitted it, with no command.
pub proof fn law_histories_begin_open(
    snapshot: RunSnapshotView,
    actor: Seq<char>,
    grant: Seq<char>,
    submitted: Option<RequestSnapshotView>,
)
    ensures
        ({
            let history = first_history(snapshot, actor, grant, submitted);
            &&& history.run_id == snapshot.run_id
            &&& history.segments.len() == 1
            &&& history.segments[0].segment_id == segment_id_of(snapshot.run_id, 0)
            &&& history.accepted_commands.len() == 0
            &&& history.controls.len() == 0
            &&& !history.initial_claimed
            &&& history.execution_principal_ref == actor
            &&& history.execution_grant_ref == Some(grant)
            &&& history.submitted == submitted
        }),
{
}

} // verus!
