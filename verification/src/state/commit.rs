//! Admission of runs and commits of checkpoints, each as one transaction on a scope.
use vstd::prelude::*;

use crate::content::Message;
#[allow(unused_imports)]
use crate::content::MessageView;
use crate::data::{any, is_same, joined, last, Data};
#[allow(unused_imports)]
use crate::data::{final_of, first_fault, first_index_fault, some_in};
use crate::error::{fail, verdict, ContractError, ErrorCode};
#[allow(unused_imports)]
use crate::error::{failure, fault, or_else, Fault};
use crate::execution_contracts::{ExecutionHistory, RequestSnapshot, SubmissionLimits};
#[allow(unused_imports)]
use crate::execution_contracts::{
    submission_digest, submission_fault, ExecutionHistoryView, RequestSnapshotView,
    SubmissionLimitsView,
};
use crate::refs::{check_scope, record_key, RecordKey, RecordRef, Scope};
#[allow(unused_imports)]
use crate::refs::{key_of, scope_fault, RecordKeyView, RecordRefView, ScopeView};
use crate::run::{
    RunEvent, RunEventPayload, RunPhase, RunSnapshot, RunStatus, SessionSchemaVersion,
    SessionSnapshot,
};
#[allow(unused_imports)]
use crate::run::{
    terminal, BudgetUsageView, ResumeReceiptView, RunEventView, RunSnapshotView,
    SessionSnapshotView,
};
use crate::serialization::{Id, JsonDigest};
use crate::state::events::{validate_events, EventChecks};
#[allow(unused_imports)]
use crate::state::events::{events_fault, EventChecksView};
use crate::state::execution::{
    advance_history, archived_source, complete_controls, initial_history, validate_settlements,
};
#[allow(unused_imports)]
use crate::state::execution::{
    advance_fault, archived, completed_history, controls_fault, first_history, first_history_fault,
    history_after, settlement_fault,
};
use crate::state::leases::validate_lease;
#[allow(unused_imports)]
use crate::state::leases::lease_fault;
use crate::state::messages::validate_messages;
#[allow(unused_imports)]
use crate::state::messages::messages_fault;
use crate::state::records::{ProtectedRecord, Records};
#[allow(unused_imports)]
use crate::state::records::{record_fault, ProtectedRecordView};
#[allow(unused_imports)]
use crate::state::resume_history::{passed, resume_history_fault, ReplayedView};
use crate::state::resume_history::{validate_resume_history, Replayed};
use crate::state::scope::{
    RequestKey, RunLease, RunState, ScopeState, SessionState, StoredRun,
};
#[allow(unused_imports)]
use crate::state::scope::{
    missing, run_as_stored, stored_run_fault, RequestKeyView, RunLeaseView, RunStateView,
    ScopeStateView, SessionStateView, StoredRunView,
};
use crate::state::snapshot_refs::{validate_snapshot_refs, SnapshotChecks};
#[allow(unused_imports)]
use crate::state::snapshot_refs::{snapshot_refs_fault, SnapshotChecksView};
use crate::state::transition::{validate_transition, TransitionChecks};
#[allow(unused_imports)]
use crate::state::transition::{transition_fault, TransitionChecksView};
use crate::state::verification_state;
#[allow(unused_imports)]
use crate::state::verification_state::verification_transition_fault;
use crate::table::{IdSet, Table};

verus! {

/// Initial records accepted atomically for a newly admitted run.
#[derive(Debug)]
pub struct AdmissionInput {
    /// Authenticated execution principal that the run is admitted for.
    pub execution_principal_ref: Id,
    /// Capability grant that the run is admitted under; never replaced by whoever resumes it.
    pub execution_grant_ref: Id,
    /// Submitted inputs when supplied by the versioned admission path.
    pub submitted: Option<RequestSnapshot>,
    /// Running checkpoint in admission at revision zero.
    pub snapshot: RunSnapshot,
    /// Session-pinned prompt record; reused unchanged by subsequent runs.
    pub prompt_snapshot: RecordRef,
    /// New messages, numbered consecutively across the session.
    pub messages: Vec<Message>,
    /// One start event at sequence one, referring to the accepted request.
    pub events: Vec<RunEvent>,
    /// New immutable records, available to references in this transaction.
    pub records: Vec<ProtectedRecord>,
    /// Reject stores that cannot preserve state across process termination.
    pub require_durable: bool,
}

#[verifier::ext_equal]
pub struct AdmissionInputView {
    pub execution_principal_ref: Seq<char>,
    pub execution_grant_ref: Seq<char>,
    pub submitted: Option<RequestSnapshotView>,
    pub snapshot: RunSnapshotView,
    pub prompt_snapshot: RecordRefView,
    pub messages: Seq<MessageView>,
    pub events: Seq<RunEventView>,
    pub records: Seq<ProtectedRecordView>,
    pub require_durable: bool,
}

impl View for AdmissionInput {
    type V = AdmissionInputView;

    open spec fn view(&self) -> AdmissionInputView {
        AdmissionInputView {
            execution_principal_ref: self.execution_principal_ref.deep_view(),
            execution_grant_ref: self.execution_grant_ref.deep_view(),
            submitted: self.submitted.deep_view(),
            snapshot: self.snapshot.deep_view(),
            prompt_snapshot: self.prompt_snapshot.deep_view(),
            messages: self.messages.deep_view(),
            events: self.events.deep_view(),
            records: self.records.deep_view(),
            require_durable: self.require_durable.deep_view(),
        }
    }
}

impl DeepView for AdmissionInput {
    type V = AdmissionInputView;

    open spec fn deep_view(&self) -> AdmissionInputView {
        self@
    }
}

impl Data for AdmissionInput {
    fn same(&self, other: &Self) -> (r: bool) {
        self.execution_principal_ref.same(&other.execution_principal_ref)
            && self.execution_grant_ref.same(&other.execution_grant_ref)
            && self.submitted.same(&other.submitted)
            && self.snapshot.same(&other.snapshot)
            && self.prompt_snapshot.same(&other.prompt_snapshot)
            && self.messages.same(&other.messages)
            && self.events.same(&other.events)
            && self.records.same(&other.records)
            && self.require_durable.same(&other.require_durable)
    }

    fn copy(&self) -> (r: Self) {
        AdmissionInput {
            execution_principal_ref: self.execution_principal_ref.copy(),
            execution_grant_ref: self.execution_grant_ref.copy(),
            submitted: self.submitted.copy(),
            snapshot: self.snapshot.copy(),
            prompt_snapshot: self.prompt_snapshot.copy(),
            messages: self.messages.copy(),
            events: self.events.copy(),
            records: self.records.copy(),
            require_durable: self.require_durable.copy(),
        }
    }
}

/// Admission reports whether it created a run or found the same request again.
#[derive(Debug)]
pub struct AdmissionResult {
    /// False for identical request replay; candidate records are not applied.
    pub created: bool,
    /// Existing or newly admitted run, with its pinned data.
    pub state: StoredRun,
}

#[verifier::ext_equal]
pub struct AdmissionResultView {
    pub created: bool,
    pub state: StoredRunView,
}

impl View for AdmissionResult {
    type V = AdmissionResultView;

    open spec fn view(&self) -> AdmissionResultView {
        AdmissionResultView {
            created: self.created.deep_view(),
            state: self.state.deep_view(),
        }
    }
}

impl DeepView for AdmissionResult {
    type V = AdmissionResultView;

    open spec fn deep_view(&self) -> AdmissionResultView {
        self@
    }
}

impl Data for AdmissionResult {
    fn same(&self, other: &Self) -> (r: bool) {
        self.created.same(&other.created)
            && self.state.same(&other.state)
    }

    fn copy(&self) -> (r: Self) {
        AdmissionResult {
            created: self.created.copy(),
            state: self.state.copy(),
        }
    }
}

/// What the keepers of other parts reported about an admission.
#[derive(Debug)]
pub struct AdmissionChecks {
    /// Identity of the request, the profile and the system inputs that are admitted.
    pub admission_digest: JsonDigest,
    /// The limits on the texts of the submission.
    pub submitted: SubmissionLimits,
    /// The limits on the texts of the stored submission that a repeated request is compared with.
    pub stored: SubmissionLimits,
    pub snapshot: SnapshotChecks,
    pub events: EventChecks,
    /// For each message, what the keeper of corrections reported.
    pub corrections: Vec<Option<ContractError>>,
}

#[verifier::ext_equal]
pub struct AdmissionChecksView {
    pub admission_digest: Seq<char>,
    pub submitted: SubmissionLimitsView,
    pub stored: SubmissionLimitsView,
    pub snapshot: SnapshotChecksView,
    pub events: EventChecksView,
    pub corrections: Seq<Option<Fault>>,
}

impl View for AdmissionChecks {
    type V = AdmissionChecksView;

    open spec fn view(&self) -> AdmissionChecksView {
        AdmissionChecksView {
            admission_digest: self.admission_digest.deep_view(),
            submitted: self.submitted.deep_view(),
            stored: self.stored.deep_view(),
            snapshot: self.snapshot.deep_view(),
            events: self.events.deep_view(),
            corrections: self.corrections.deep_view(),
        }
    }
}

impl DeepView for AdmissionChecks {
    type V = AdmissionChecksView;

    open spec fn deep_view(&self) -> AdmissionChecksView {
        self@
    }
}

impl Data for AdmissionChecks {
    fn same(&self, other: &Self) -> (r: bool) {
        self.admission_digest.same(&other.admission_digest)
            && self.submitted.same(&other.submitted)
            && self.stored.same(&other.stored)
            && self.snapshot.same(&other.snapshot)
            && self.events.same(&other.events)
            && self.corrections.same(&other.corrections)
    }

    fn copy(&self) -> (r: Self) {
        AdmissionChecks {
            admission_digest: self.admission_digest.copy(),
            submitted: self.submitted.copy(),
            stored: self.stored.copy(),
            snapshot: self.snapshot.copy(),
            events: self.events.copy(),
            corrections: self.corrections.copy(),
        }
    }
}

/// A complete candidate checkpoint and append-only data for one atomic commit.
#[derive(Debug)]
pub struct CommitInput {
    /// Pending control identifiers consumed atomically by this owned settlement.
    pub control_commands: Vec<Id>,
    /// Revision of the currently saved checkpoint.
    pub expected_revision: u64,
    /// Current unexpired execution lease.
    pub lease: RunLease,
    /// Trusted current UTC milliseconds, also used to reject expired leases.
    pub now_ms: i64,
    /// Next checkpoint, one revision later.
    pub snapshot: RunSnapshot,
    /// New messages, continuing the session sequence.
    pub messages: Vec<Message>,
    /// New events, continuing the run sequence.
    pub events: Vec<RunEvent>,
    /// Immutable records to insert in the same transaction.
    pub records: Vec<ProtectedRecord>,
}

#[verifier::ext_equal]
pub struct CommitInputView {
    pub control_commands: Seq<Seq<char>>,
    pub expected_revision: u64,
    pub lease: RunLeaseView,
    pub now_ms: i64,
    pub snapshot: RunSnapshotView,
    pub messages: Seq<MessageView>,
    pub events: Seq<RunEventView>,
    pub records: Seq<ProtectedRecordView>,
}

impl View for CommitInput {
    type V = CommitInputView;

    open spec fn view(&self) -> CommitInputView {
        CommitInputView {
            control_commands: self.control_commands.deep_view(),
            expected_revision: self.expected_revision.deep_view(),
            lease: self.lease.deep_view(),
            now_ms: self.now_ms.deep_view(),
            snapshot: self.snapshot.deep_view(),
            messages: self.messages.deep_view(),
            events: self.events.deep_view(),
            records: self.records.deep_view(),
        }
    }
}

impl DeepView for CommitInput {
    type V = CommitInputView;

    open spec fn deep_view(&self) -> CommitInputView {
        self@
    }
}

impl Data for CommitInput {
    fn same(&self, other: &Self) -> (r: bool) {
        self.control_commands.same(&other.control_commands)
            && self.expected_revision.same(&other.expected_revision)
            && self.lease.same(&other.lease)
            && self.now_ms.same(&other.now_ms)
            && self.snapshot.same(&other.snapshot)
            && self.messages.same(&other.messages)
            && self.events.same(&other.events)
            && self.records.same(&other.records)
    }

    fn copy(&self) -> (r: Self) {
        CommitInput {
            control_commands: self.control_commands.copy(),
            expected_revision: self.expected_revision.copy(),
            lease: self.lease.copy(),
            now_ms: self.now_ms.copy(),
            snapshot: self.snapshot.copy(),
            messages: self.messages.copy(),
            events: self.events.copy(),
            records: self.records.copy(),
        }
    }
}

/// What the keepers of other parts reported about a commit.
#[derive(Debug)]
pub struct CommitChecks {
    pub transition: TransitionChecks,
    /// The limits on the texts of the run's submission.
    pub submitted: SubmissionLimits,
    /// Accepted recoveries.
    pub recovery: Option<ContractError>,
    pub snapshot: SnapshotChecks,
    /// Context revisions.
    pub context: Option<ContractError>,
    pub events: EventChecks,
    /// For each message, what the keeper of corrections reported.
    pub corrections: Vec<Option<ContractError>>,
    /// Why corrections in the whole history cannot be told.
    pub history_corrections: Option<ContractError>,
    /// The messages of the whole history that reconciliation accounts for.
    pub history_reconciled: Vec<Id>,
}

#[verifier::ext_equal]
pub struct CommitChecksView {
    pub transition: TransitionChecksView,
    pub submitted: SubmissionLimitsView,
    pub recovery: Option<Fault>,
    pub snapshot: SnapshotChecksView,
    pub context: Option<Fault>,
    pub events: EventChecksView,
    pub corrections: Seq<Option<Fault>>,
    pub history_corrections: Option<Fault>,
    pub history_reconciled: Seq<Seq<char>>,
}

impl View for CommitChecks {
    type V = CommitChecksView;

    open spec fn view(&self) -> CommitChecksView {
        CommitChecksView {
            transition: self.transition.deep_view(),
            submitted: self.submitted.deep_view(),
            recovery: self.recovery.deep_view(),
            snapshot: self.snapshot.deep_view(),
            context: self.context.deep_view(),
            events: self.events.deep_view(),
            corrections: self.corrections.deep_view(),
            history_corrections: self.history_corrections.deep_view(),
            history_reconciled: self.history_reconciled.deep_view(),
        }
    }
}

impl DeepView for CommitChecks {
    type V = CommitChecksView;

    open spec fn deep_view(&self) -> CommitChecksView {
        self@
    }
}

impl Data for CommitChecks {
    fn same(&self, other: &Self) -> (r: bool) {
        self.transition.same(&other.transition)
            && self.submitted.same(&other.submitted)
            && self.recovery.same(&other.recovery)
            && self.snapshot.same(&other.snapshot)
            && self.context.same(&other.context)
            && self.events.same(&other.events)
            && self.corrections.same(&other.corrections)
            && self.history_corrections.same(&other.history_corrections)
            && self.history_reconciled.same(&other.history_reconciled)
    }

    fn copy(&self) -> (r: Self) {
        CommitChecks {
            transition: self.transition.copy(),
            submitted: self.submitted.copy(),
            recovery: self.recovery.copy(),
            snapshot: self.snapshot.copy(),
            context: self.context.copy(),
            events: self.events.copy(),
            corrections: self.corrections.copy(),
            history_corrections: self.history_corrections.copy(),
            history_reconciled: self.history_reconciled.copy(),
        }
    }
}


/// Records by their places, one after another on top of others.
pub open spec fn with_records(
    base: Map<RecordKeyView, ProtectedRecordView>,
    records: Seq<ProtectedRecordView>,
) -> Map<RecordKeyView, ProtectedRecordView>
    decreases records.len(),
{
    if records.len() == 0 {
        base
    } else {
        with_records(base, records.drop_last()).insert(
            key_of(records.last().reference),
            records.last(),
        )
    }
}

/// Why a new record conflicts with one at its place.
pub open spec fn conflict_fault(
    stored: Map<RecordKeyView, ProtectedRecordView>,
    records: Seq<ProtectedRecordView>,
) -> spec_fn(int) -> Option<Fault> {
    |i: int|
        {
            let record = records[i];
            let key = key_of(record.reference);
            let added = with_records(Map::empty(), records.take(i));
            if (stored.dom().contains(key) && stored[key] != record) || (!stored.dom().contains(key)
                && added.dom().contains(key) && added[key] != record) {
                fault(ErrorCode::RecordConflict, "records")
            } else {
                None
            }
        }
}

/// Why new records conflict with what is stored, or with each other.
pub open spec fn records_fault(
    stored: Map<RecordKeyView, ProtectedRecordView>,
    records: Seq<ProtectedRecordView>,
) -> Option<Fault> {
    first_index_fault(0, records.len() as int, conflict_fault(stored, records))
}

/// Gather new records, and reject one that would replace another.
pub fn validate_records(
    stored: &Table<RecordKey, ProtectedRecord>,
    records: &Vec<ProtectedRecord>,
) -> (r: Result<Table<RecordKey, ProtectedRecord>, ContractError>)
    ensures
        failure(r) == records_fault(stored@, records.deep_view()),
        r matches Ok(added) ==> added@ == with_records(Map::empty(), records.deep_view()),
{
    let ghost s = records.deep_view();
    let ghost n = s.len() as int;
    let ghost f = conflict_fault(stored@, s);
    let mut added: Table<RecordKey, ProtectedRecord> = Table::new();
    let mut i: usize = 0;
    assert(s.take(0) =~= Seq::<ProtectedRecordView>::empty());
    while i < records.len()
        invariant
            i <= records.len(),
            n == records.len(),
            s == records.deep_view(),
            f == conflict_fault(stored@, s),
            added@ == with_records(Map::empty(), s.take(i as int)),
            first_index_fault(0, n, f) == first_index_fault(i as int, n, f),
        decreases records.len() - i,
    {
        let record = &records[i];
        assert(record@ == s[i as int]);
        assert(s.take(i + 1).drop_last() =~= s.take(i as int));
        assert(s.take(i + 1).last() == record@);
        let key = record_key(record.reference());
        let differs = match stored.get(&key) {
            Some(existing) => !existing.same(record),
            None => match added.get(&key) {
                Some(existing) => !existing.same(record),
                None => false,
            },
        };
        if differs {
            return fail(ErrorCode::RecordConflict, "records");
        }
        added.insert(key, record.copy());
        i = i + 1;
    }
    assert(s.take(i as int) =~= s);
    Ok(added)
}

fn insert_records(table: &mut Table<RecordKey, ProtectedRecord>, records: &Vec<ProtectedRecord>)
    ensures
        final(table)@ == with_records(old(table)@, records.deep_view()),
{
    let ghost base = table@;
    let ghost s = records.deep_view();
    let mut i: usize = 0;
    assert(s.take(0) =~= Seq::<ProtectedRecordView>::empty());
    while i < records.len()
        invariant
            i <= records.len(),
            s == records.deep_view(),
            table@ == with_records(base, s.take(i as int)),
        decreases records.len() - i,
    {
        let record = &records[i];
        assert(s.take(i + 1).drop_last() =~= s.take(i as int));
        assert(s.take(i + 1).last() == record@);
        table.insert(record_key(record.reference()), record.copy());
        i = i + 1;
    }
    assert(s.take(i as int) =~= s);
}

/// Identifiers of messages on top of others.
pub open spec fn with_message_ids(base: Set<Seq<char>>, messages: Seq<MessageView>) -> Set<
    Seq<char>,
>
    decreases messages.len(),
{
    if messages.len() == 0 {
        base
    } else {
        with_message_ids(base, messages.drop_last()).insert(messages.last().message_id)
    }
}

/// Identifiers of events on top of others.
pub open spec fn with_event_ids(base: Set<Seq<char>>, events: Seq<RunEventView>) -> Set<Seq<char>>
    decreases events.len(),
{
    if events.len() == 0 {
        base
    } else {
        with_event_ids(base, events.drop_last()).insert(events.last().event_id)
    }
}

fn insert_message_ids(ids: &mut IdSet, messages: &Vec<Message>)
    ensures
        final(ids)@ == with_message_ids(old(ids)@, messages.deep_view()),
{
    let ghost base = ids@;
    let ghost s = messages.deep_view();
    let mut i: usize = 0;
    assert(s.take(0) =~= Seq::<MessageView>::empty());
    while i < messages.len()
        invariant
            i <= messages.len(),
            s == messages.deep_view(),
            ids@ == with_message_ids(base, s.take(i as int)),
        decreases messages.len() - i,
    {
        assert(s.take(i + 1).drop_last() =~= s.take(i as int));
        assert(s.take(i + 1).last() == messages@[i as int]@);
        ids.insert(&messages[i].message_id);
        i = i + 1;
    }
    assert(s.take(i as int) =~= s);
}

fn insert_event_ids(ids: &mut IdSet, events: &Vec<RunEvent>)
    ensures
        final(ids)@ == with_event_ids(old(ids)@, events.deep_view()),
{
    let ghost base = ids@;
    let ghost s = events.deep_view();
    let mut i: usize = 0;
    assert(s.take(0) =~= Seq::<RunEventView>::empty());
    while i < events.len()
        invariant
            i <= events.len(),
            s == events.deep_view(),
            ids@ == with_event_ids(base, s.take(i as int)),
        decreases events.len() - i,
    {
        assert(s.take(i + 1).drop_last() =~= s.take(i as int));
        assert(s.take(i + 1).last() == events@[i as int]@);
        ids.insert(&events[i].event_id);
        i = i + 1;
    }
    assert(s.take(i as int) =~= s);
}

/// The identity under which a request is found again.
pub open spec fn request_key_of(snapshot: RunSnapshotView) -> RequestKeyView {
    RequestKeyView {
        session_id: snapshot.request.session_id,
        request_id: snapshot.request.request_id,
    }
}

fn request_key(snapshot: &RunSnapshot) -> (r: RequestKey)
    ensures
        r@ == request_key_of(snapshot@),
{
    RequestKey {
        session_id: snapshot.request.session_id.copy(),
        request_id: snapshot.request.request_id.copy(),
    }
}

/// Why a repeated request cannot be compared, or is not the same.
pub open spec fn replay_fault(
    state: ScopeStateView,
    input: AdmissionInputView,
    checks: AdmissionChecksView,
) -> Option<Fault> {
    let run_id = state.requests[request_key_of(input.snapshot)];
    let conflict = fault(ErrorCode::RequestConflict, "request");
    let submitted = if state.executions.dom().contains(run_id) {
        state.executions[run_id].submitted
    } else {
        None
    };
    if stored_run_fault(state, run_id) is Some {
        stored_run_fault(state, run_id)
    } else {
        match (submitted, input.submitted) {
            (Some(stored), Some(candidate)) => if submission_fault(
                stored,
                checks.stored,
            ) is Some {
                submission_fault(stored, checks.stored)
            } else if submission_fault(candidate, checks.submitted) is Some {
                submission_fault(candidate, checks.submitted)
            } else if submission_digest(
                candidate.profile_ref,
                candidate.request,
                candidate.system_inputs,
            ) != stored.digest {
                conflict
            } else {
                None
            },
            (Some(_), None) => conflict,
            (None, _) => if state.runs[run_id].snapshot.request_digest
                != checks.admission_digest {
                conflict
            } else {
                None
            },
        }
    }
}

fn replay(
    state: &ScopeState,
    run_id: &Id,
    input: &AdmissionInput,
    checks: &AdmissionChecks,
) -> (r: Result<StoredRun, ContractError>)
    requires
        state@.requests.dom().contains(request_key_of(input@.snapshot)),
        state@.requests[request_key_of(input@.snapshot)] == run_id@,
    ensures
        failure(r) == replay_fault(state@, input@, checks@),
        r matches Ok(stored) ==> stored@ == run_as_stored(state@, run_id@),
{
    let previous = state.stored_run(run_id)?;
    let submitted = match state.executions.get(run_id) {
        Some(history) => match &history.submitted {
            Some(stored) => Some(stored),
            None => None,
        },
        None => None,
    };
    let same = match submitted {
        Some(stored) => match &input.submitted {
            Some(candidate) => stored.matches_submission(
                candidate,
                &checks.stored,
                &checks.submitted,
            )?,
            None => false,
        },
        None => previous.snapshot.request_digest.same(&checks.admission_digest),
    };
    if !same {
        return fail(ErrorCode::RequestConflict, "request");
    }
    Ok(previous)
}

/// Some unfinished run has no execution history.
pub open spec fn holds_legacy_run(state: ScopeStateView) -> bool {
    exists|id: Seq<char>| #[trigger]
        state.runs.dom().contains(id) && is_legacy(state)(id, state.runs[id])
}

/// An unfinished run without an execution history.
pub open spec fn is_legacy(state: ScopeStateView) -> spec_fn(Seq<char>, RunStateView) -> bool {
    |id: Seq<char>, run: RunStateView|
        !terminal(run.snapshot.status) && !state.executions.dom().contains(id)
}

fn has_legacy_run(state: &ScopeState) -> (r: bool)
    ensures
        r == holds_legacy_run(state@),
{
    let executions = &state.executions;
    let runs = &state.runs;
    assert(runs@ == state@.runs);
    let legacy = |id: &Id, run: &RunState| -> (b: bool)
        ensures
            b == is_legacy(state@)(id@, run@),
    { !run.snapshot.status.is_terminal() && !executions.contains_key(id) };
    runs.any(legacy, Ghost(is_legacy(state@)))
}

/// Nothing used.
pub open spec fn unused() -> BudgetUsageView {
    BudgetUsageView {
        model_calls: 0,
        tool_attempts: 0,
        repair_attempts: 0,
        recovery_attempts: 0,
        elapsed_ms: 0,
    }
}

/// A checkpoint is one that a run can be admitted with.
pub open spec fn is_first_checkpoint(snapshot: RunSnapshotView) -> bool {
    &&& snapshot.revision == 0
    &&& snapshot.status == RunStatus::Running
    &&& snapshot.phase == RunPhase::Admission
    &&& snapshot.model_ledger.len() == 0
    &&& snapshot.model_step_inputs.len() == 0
    &&& snapshot.prepared_steps.len() == 0
    &&& snapshot.active_prepared_step is None
    &&& snapshot.tool_ledger.len() == 0
    &&& snapshot.reservations.len() == 0
    &&& snapshot.resume_receipts.len() == 0
    &&& snapshot.recovery_receipts.len() == 0
    &&& snapshot.hook_applications.len() == 0
    &&& snapshot.context_batches.len() == 0
    &&& snapshot.source_states.len() == 0
    &&& snapshot.usage == unused()
}

fn is_admission(snapshot: &RunSnapshot) -> (r: bool)
    ensures
        r == is_first_checkpoint(snapshot@),
{
    let usage = &snapshot.usage;
    assert(snapshot@.model_ledger.len() == snapshot.model_ledger.len());
    assert(snapshot@.model_step_inputs.len() == snapshot.model_step_inputs.len());
    assert(snapshot@.prepared_steps.len() == snapshot.prepared_steps.len());
    assert(snapshot@.tool_ledger.len() == snapshot.tool_ledger.len());
    assert(snapshot@.reservations.len() == snapshot.reservations.len());
    assert(snapshot@.resume_receipts.len() == snapshot.resume_receipts.len());
    assert(snapshot@.recovery_receipts.len() == snapshot.recovery_receipts.len());
    assert(snapshot@.hook_applications.len() == snapshot.hook_applications.len());
    assert(snapshot@.context_batches.len() == snapshot.context_batches.len());
    assert(snapshot@.source_states.len() == snapshot.source_states.len());
    snapshot.revision == 0 && snapshot.status == RunStatus::Running && snapshot.phase
        == RunPhase::Admission && snapshot.model_ledger.len() == 0
        && snapshot.model_step_inputs.len() == 0 && snapshot.prepared_steps.len() == 0
        && snapshot.active_prepared_step.is_none() && snapshot.tool_ledger.len() == 0
        && snapshot.reservations.len() == 0 && snapshot.resume_receipts.len() == 0
        && snapshot.recovery_receipts.len() == 0 && snapshot.hook_applications.len() == 0
        && snapshot.context_batches.len() == 0 && snapshot.source_states.len() == 0
        && usage.model_calls == 0 && usage.tool_attempts == 0 && usage.repair_attempts == 0
        && usage.recovery_attempts == 0 && usage.elapsed_ms == 0
}

/// Why a session cannot take a new run.
pub open spec fn session_fault(
    state: ScopeStateView,
    input: AdmissionInputView,
) -> Option<Fault> {
    let session_id = input.snapshot.request.session_id;
    if !state.sessions.dom().contains(session_id) {
        None
    } else {
        let session = state.sessions[session_id].snapshot;
        if session.profile_digest != input.snapshot.profile.profile_digest
            || session.prompt_snapshot != input.prompt_snapshot {
            fault(ErrorCode::ProfileMismatch, "session.profile")
        } else if session.active_run_id is Some {
            fault(ErrorCode::SessionBusy, "session")
        } else {
            None
        }
    }
}

fn check_session(state: &ScopeState, input: &AdmissionInput) -> (r: Result<(), ContractError>)
    ensures
        failure(r) == session_fault(state@, input@),
{
    if let Some(session) = state.sessions.get(&input.snapshot.request.session_id) {
        if !session.snapshot.profile_digest.same(input.snapshot.profile.profile_digest())
            || !session.snapshot.prompt_snapshot.same(&input.prompt_snapshot) {
            return fail(ErrorCode::ProfileMismatch, "session.profile");
        }
        if session.snapshot.active_run_id.is_some() {
            return fail(ErrorCode::SessionBusy, "session");
        }
    }
    Ok(())
}

/// The transcript that a session has before a new run.
pub open spec fn earlier_messages(state: ScopeStateView, session_id: Seq<char>) -> Seq<
    MessageView,
> {
    if state.sessions.dom().contains(session_id) {
        state.sessions[session_id].messages
    } else {
        Seq::empty()
    }
}

/// The transcript revision that a session has before a new run.
pub open spec fn earlier_revision(state: ScopeStateView, session_id: Seq<char>) -> u64 {
    if state.sessions.dom().contains(session_id) {
        state.sessions[session_id].snapshot.transcript_revision
    } else {
        0
    }
}

/// The context that a session has before a new run.
pub open spec fn earlier_context(state: ScopeStateView, session_id: Seq<char>) -> Option<
    RecordRefView,
> {
    if state.sessions.dom().contains(session_id) {
        state.sessions[session_id].snapshot.context_revision_ref
    } else {
        None
    }
}

/// Why the content of an admission is refused.
#[verifier::opaque]
pub open spec fn admitted_content_fault(
    state: ScopeStateView,
    input: AdmissionInputView,
    checks: AdmissionChecksView,
) -> Option<Fault> {
    let snapshot = input.snapshot;
    let session_id = snapshot.request.session_id;
    let added = with_records(Map::empty(), input.records);
    let records = state.records.union_prefer_right(added);
    or_else(
        records_fault(state.records, input.records),
        or_else(
            record_fault(records, input.prompt_snapshot),
            or_else(
                snapshot_refs_fault(state, records, snapshot, checks.snapshot),
                or_else(
                    events_fault(
                        state,
                        records,
                        snapshot,
                        0,
                        input.events,
                        true,
                        input.messages,
                        checks.events,
                    ),
                    if snapshot.context_revision_ref != earlier_context(state, session_id)
                        || snapshot.context_decisions.len() > 0 {
                        fault(ErrorCode::InvalidSnapshot, "context.admission")
                    } else {
                        messages_fault(
                            state,
                            records,
                            snapshot.run_id,
                            earlier_revision(state, session_id),
                            input.messages,
                            checks.corrections,
                        )
                    },
                ),
            ),
        ),
    )
}

fn check_admitted_content(
    state: &ScopeState,
    input: &AdmissionInput,
    checks: &AdmissionChecks,
) -> (r: Result<u64, ContractError>)
    ensures
        failure(r) == admitted_content_fault(state@, input@, checks@),
        r matches Ok(revision) ==> revision == earlier_revision(
            state@,
            input@.snapshot.request.session_id,
        ) + input@.messages.len(),
{
    reveal(admitted_content_fault);
    let snapshot = &input.snapshot;
    let added = validate_records(&state.records, &input.records)?;
    let records = Records { stored: &state.records, added: &added };
    records.check(&input.prompt_snapshot)?;
    validate_snapshot_refs(state, &records, snapshot, &checks.snapshot)?;
    validate_events(
        state,
        &records,
        snapshot,
        0,
        &input.events,
        true,
        &input.messages,
        &checks.events,
    )?;
    let session = state.sessions.get(&snapshot.request.session_id);
    let mut revision: u64 = 0;
    let same_context = match session {
        Some(session) => {
            revision = session.snapshot.transcript_revision;
            snapshot.context_revision_ref.same(&session.snapshot.context_revision_ref)
        },
        None => snapshot.context_revision_ref.is_none(),
    };
    assert(snapshot@.context_decisions.len() == snapshot.context_decisions.len());
    if !same_context || snapshot.context_decisions.len() > 0 {
        return fail(ErrorCode::InvalidSnapshot, "context.admission");
    }
    assert(input@.messages.len() == input.messages.len());
    validate_messages(
        state,
        &records,
        &snapshot.run_id,
        revision,
        &input.messages,
        &checks.corrections,
    )
}

/// Why a new request is not admitted.
pub open spec fn fresh_fault(
    state: ScopeStateView,
    input: AdmissionInputView,
    checks: AdmissionChecksView,
) -> Option<Fault> {
    let snapshot = input.snapshot;
    if input.require_durable {
        fault(ErrorCode::CapabilityUnsupported, "store.durable")
    } else if snapshot.request_digest != checks.admission_digest {
        fault(ErrorCode::InvalidSnapshot, "request_digest")
    } else if holds_legacy_run(state) {
        fault(ErrorCode::CapabilityUnsupported, "execution.legacy_drain_required")
    } else if snapshot.defect is Some {
        snapshot.defect
    } else if !is_first_checkpoint(snapshot) {
        fault(ErrorCode::InvalidSnapshot, "admission")
    } else if state.runs.dom().contains(snapshot.run_id) {
        fault(ErrorCode::RunConflict, "run_id")
    } else if session_fault(state, input) is Some {
        session_fault(state, input)
    } else if admitted_content_fault(state, input, checks) is Some {
        admitted_content_fault(state, input, checks)
    } else {
        first_history_fault(snapshot, input.submitted, checks.submitted)
    }
}

/// The session that an admitted run belongs to.
pub open spec fn admitted_session(
    state: ScopeStateView,
    scope: ScopeView,
    input: AdmissionInputView,
) -> SessionStateView {
    let snapshot = input.snapshot;
    let session_id = snapshot.request.session_id;
    SessionStateView {
        snapshot: SessionSnapshotView {
            schema_version: SessionSchemaVersion::V1,
            session_id,
            scope,
            profile_digest: snapshot.profile.profile_digest,
            prompt_snapshot: input.prompt_snapshot,
            transcript_revision: (earlier_revision(state, session_id)
                + input.messages.len()) as u64,
            context_revision_ref: snapshot.context_revision_ref,
            active_run_id: Some(snapshot.run_id),
        },
        messages: earlier_messages(state, session_id) + input.messages,
    }
}

/// A scope after an admission.
pub open spec fn admitted_state(
    state: ScopeStateView,
    scope: ScopeView,
    input: AdmissionInputView,
) -> ScopeStateView {
    let snapshot = input.snapshot;
    let session = admitted_session(state, scope, input);
    ScopeStateView {
        sessions: state.sessions.insert(snapshot.request.session_id, session),
        runs: state.runs.insert(
            snapshot.run_id,
            RunStateView { snapshot, events: input.events, lease: None, last_fencing_token: 0 },
        ),
        requests: state.requests.insert(request_key_of(snapshot), snapshot.run_id),
        records: with_records(state.records, input.records),
        event_ids: with_event_ids(state.event_ids, input.events),
        message_ids: with_message_ids(state.message_ids, session.messages),
        hook_observations: state.hook_observations,
        executions: state.executions.insert(
            snapshot.run_id,
            first_history(
                snapshot,
                input.execution_principal_ref,
                input.execution_grant_ref,
                input.submitted,
            ),
        ),
    }
}

/// An admitted run as it is read.
pub open spec fn admitted_run(
    state: ScopeStateView,
    scope: ScopeView,
    input: AdmissionInputView,
) -> StoredRunView {
    let session = admitted_session(state, scope, input);
    StoredRunView {
        snapshot: input.snapshot,
        session: session.snapshot,
        messages: session.messages,
    }
}

/// Why an admission is refused.
pub open spec fn admission_fault(
    state: ScopeStateView,
    scope: ScopeView,
    input: AdmissionInputView,
    checks: AdmissionChecksView,
) -> Option<Fault> {
    if scope_fault(scope, input.snapshot.scope) is Some {
        scope_fault(scope, input.snapshot.scope)
    } else if scope != input.snapshot.profile.scope {
        fault(ErrorCode::InvalidSnapshot, "request_scope")
    } else if state.requests.dom().contains(request_key_of(input.snapshot)) {
        replay_fault(state, input, checks)
    } else {
        fresh_fault(state, input, checks)
    }
}

fn check_fresh(state: &ScopeState, input: &AdmissionInput, checks: &AdmissionChecks) -> (r: Result<
    (u64, ExecutionHistory),
    ContractError,
>)
    ensures
        failure(r) == fresh_fault(state@, input@, checks@),
        r matches Ok(parts) ==> parts.0 == earlier_revision(
            state@,
            input@.snapshot.request.session_id,
        ) + input@.messages.len() && parts.1@ == first_history(
            input@.snapshot,
            input@.execution_principal_ref,
            input@.execution_grant_ref,
            input@.submitted,
        ),
{
    let snapshot = &input.snapshot;
    if input.require_durable {
        return fail(ErrorCode::CapabilityUnsupported, "store.durable");
    }
    if !snapshot.request_digest.same(&checks.admission_digest) {
        return fail(ErrorCode::InvalidSnapshot, "request_digest");
    }
    if has_legacy_run(state) {
        return fail(ErrorCode::CapabilityUnsupported, "execution.legacy_drain_required");
    }
    snapshot.validate()?;
    if !is_admission(snapshot) {
        return fail(ErrorCode::InvalidSnapshot, "admission");
    }
    if state.runs.contains_key(&snapshot.run_id) {
        return fail(ErrorCode::RunConflict, "run_id");
    }
    check_session(state, input)?;
    let revision: u64 = check_admitted_content(state, input, checks)?;
    let submitted = match &input.submitted {
        Some(submitted) => Some(submitted),
        None => None,
    };
    let history = initial_history(
        snapshot,
        &input.execution_principal_ref,
        &input.execution_grant_ref,
        submitted,
        &checks.submitted,
    )?;
    Ok((revision, history))
}

/// Admit a run to a scope, or find the run that the same request was admitted as. Nothing changes
/// unless a run is created.
pub fn admit_run(state: &mut ScopeState, scope: &Scope, input: AdmissionInput, checks: &AdmissionChecks)
    -> (r: Result<AdmissionResult, ContractError>)
    ensures
        failure(r) == admission_fault(old(state)@, scope@, input@, checks@),
        r is Err ==> final(state)@ == old(state)@,
        r matches Ok(result) ==> result@.created == !old(state)@.requests.dom().contains(
            request_key_of(input@.snapshot),
        ),
        r matches Ok(result) ==> (if result@.created {
            &&& final(state)@ == admitted_state(old(state)@, scope@, input@)
            &&& result@.state == admitted_run(old(state)@, scope@, input@)
        } else {
            &&& final(state)@ == old(state)@
            &&& result@.state == run_as_stored(
                old(state)@,
                old(state)@.requests[request_key_of(input@.snapshot)],
            )
        }),
{
    let ghost before = state@;
    let ghost given = input@;
    check_scope(scope, &input.snapshot.scope)?;
    if !scope.same(input.snapshot.profile.scope()) {
        return fail(ErrorCode::InvalidSnapshot, "request_scope");
    }
    let key = request_key(&input.snapshot);
    let known = match state.requests.get(&key) {
        Some(run_id) => Some(run_id.copy()),
        None => None,
    };
    if let Some(run_id) = known {
        let previous = replay(state, &run_id, &input, checks)?;
        return Ok(AdmissionResult { created: false, state: previous });
    }
    let (transcript_revision, history) = check_fresh(state, &input, checks)?;
    let AdmissionInput {
        execution_principal_ref: _,
        execution_grant_ref: _,
        submitted: _,
        snapshot,
        prompt_snapshot,
        messages,
        events,
        records,
        require_durable: _,
    } = input;
    let session_id = snapshot.request.session_id.copy();
    let messages = match state.sessions.get(&session_id) {
        Some(session) => joined(&session.messages, &messages),
        None => messages,
    };
    assert(messages.deep_view() =~= earlier_messages(
        before,
        given.snapshot.request.session_id,
    ) + given.messages);
    let session = SessionState {
        snapshot: SessionSnapshot {
            schema_version: SessionSchemaVersion::V1,
            session_id: session_id.copy(),
            scope: scope.copy(),
            profile_digest: snapshot.profile.profile_digest().copy(),
            prompt_snapshot,
            transcript_revision,
            context_revision_ref: snapshot.context_revision_ref.copy(),
            active_run_id: Some(snapshot.run_id.copy()),
        },
        messages,
    };
    assert(session@ == admitted_session(before, scope@, given));
    let result = StoredRun {
        snapshot: snapshot.copy(),
        session: session.snapshot.copy(),
        messages: session.messages.copy(),
    };
    state.executions.insert(snapshot.run_id.copy(), history);
    insert_records(&mut state.records, &records);
    insert_message_ids(&mut state.message_ids, &session.messages);
    insert_event_ids(&mut state.event_ids, &events);
    state.requests.insert(key, snapshot.run_id.copy());
    state.sessions.insert(session_id, session);
    state.runs.insert(
        snapshot.run_id.copy(),
        RunState { snapshot, events, lease: None, last_fencing_token: 0 },
    );
    assert(state@ =~= admitted_state(before, scope@, given));
    Ok(AdmissionResult { created: true, state: result })
}

/// Events that report an acceptance later than a commit.
pub open spec fn accepted_later(now_ms: i64) -> spec_fn(RunEventView) -> bool {
    |event: RunEventView|
        (event.payload is RunResumed || event.payload is RunRecovered) && event.timestamp_ms
            > now_ms
}

/// Why the time of an acceptance does not fit the commit.
pub open spec fn acceptance_fault(run: RunStateView, input: CommitInputView) -> Option<Fault> {
    let snapshot = input.snapshot;
    let deadline = input.now_ms >= run.snapshot.timing.deadline_at_ms;
    let wait = match run.snapshot.wait {
        Some(wait) => wait.expires_at_ms,
        None => None,
    };
    if some_in(input.events, accepted_later(input.now_ms)) {
        fault(ErrorCode::InvalidEvent, "events.resume_time")
    } else if final_of(snapshot.resume_receipts) matches Some(receipt) && receipt.accepted_revision
        == snapshot.revision && receipt.expired != (deadline || passed(input.now_ms, wait)) {
        fault(ErrorCode::DeadlineExceeded, "resume.acceptance_expiry")
    } else if final_of(snapshot.recovery_receipts) matches Some(receipt)
        && receipt.accepted_revision == snapshot.revision && receipt.expired != deadline {
        fault(ErrorCode::DeadlineExceeded, "recovery.acceptance_expiry")
    } else {
        None
    }
}

fn check_acceptance(run: &RunState, input: &CommitInput) -> (r: Result<(), ContractError>)
    ensures
        failure(r) == acceptance_fault(run@, input@),
{
    let snapshot = &input.snapshot;
    let now_ms: i64 = input.now_ms;
    let later = |event: &RunEvent| -> (b: bool)
        ensures
            b == accepted_later(now_ms)(event@),
    {
        let is_acceptance = match &event.payload {
            RunEventPayload::RunResumed { .. } => true,
            RunEventPayload::RunRecovered { .. } => true,
            _ => false,
        };
        is_acceptance && event.timestamp_ms > now_ms
    };
    if any(&input.events, later, Ghost(accepted_later(now_ms))) {
        return fail(ErrorCode::InvalidEvent, "events.resume_time");
    }
    let is_past = now_ms >= run.snapshot.timing.deadline_at_ms;
    let is_expired = match &run.snapshot.wait {
        Some(wait) => match wait.expires_at_ms {
            Some(deadline) => now_ms >= deadline,
            None => false,
        },
        None => false,
    };
    if let Some(receipt) = last(&snapshot.resume_receipts) {
        if receipt.accepted_revision == snapshot.revision && receipt.expired != (is_past
            || is_expired) {
            return fail(ErrorCode::DeadlineExceeded, "resume.acceptance_expiry");
        }
    }
    if let Some(receipt) = last(&snapshot.recovery_receipts) {
        if receipt.accepted_revision == snapshot.revision && receipt.expired != is_past {
            return fail(ErrorCode::DeadlineExceeded, "recovery.acceptance_expiry");
        }
    }
    Ok(())
}

/// A commit leaves the current segment unsettled behind.
pub open spec fn leaves_segment(
    state: ScopeStateView,
    run_id: Seq<char>,
    input: CommitInputView,
    segment_override: Option<Seq<char>>,
) -> bool {
    let run = state.runs[run_id].snapshot;
    &&& state.executions.dom().contains(run_id)
    &&& final_of(state.executions[run_id].segments) matches Some(segment)
    &&& segment.outcome is None
    &&& (segment_override matches Some(id) && id != segment.segment_id)
        || input.snapshot.recovery_receipts.len() > run.recovery_receipts.len()
        || input.snapshot.resume_receipts.len() > run.resume_receipts.len()
}

/// The records of a commit, with the archive of a segment that it leaves behind.
pub open spec fn records_to_commit(
    state: ScopeStateView,
    run_id: Seq<char>,
    input: CommitInputView,
    segment_override: Option<Seq<char>>,
) -> Seq<ProtectedRecordView> {
    if leaves_segment(state, run_id, input, segment_override) {
        input.records.push(
            archived(
                state.runs[run_id].snapshot,
                state.executions[run_id].segments.last().segment_id,
            ),
        )
    } else {
        input.records
    }
}

fn gather_records(
    state: &ScopeState,
    run: &RunState,
    run_id: &Id,
    input: &CommitInput,
    segment_override: Option<&Id>,
) -> (r: Vec<ProtectedRecord>)
    requires
        state@.runs[run_id@] == run@,
    ensures
        r.deep_view() == records_to_commit(
            state@,
            run_id@,
            input@,
            segment_override.deep_view(),
        ),
{
    let mut records = input.records.copy();
    let ghost given = records.deep_view();
    assert(input@.snapshot.recovery_receipts.len() == input.snapshot.recovery_receipts.len());
    assert(input@.snapshot.resume_receipts.len() == input.snapshot.resume_receipts.len());
    assert(run@.snapshot.recovery_receipts.len() == run.snapshot.recovery_receipts.len());
    assert(run@.snapshot.resume_receipts.len() == run.snapshot.resume_receipts.len());
    if let Some(history) = state.executions.get(run_id) {
        if let Some(segment) = last(&history.segments) {
            let is_other = match segment_override {
                Some(id) => !id.same(&segment.segment_id),
                None => false,
            };
            if segment.outcome.is_none() && (is_other || input.snapshot.recovery_receipts.len()
                > run.snapshot.recovery_receipts.len() || input.snapshot.resume_receipts.len()
                > run.snapshot.resume_receipts.len()) {
                let source = archived_source(&run.snapshot, &segment.segment_id);
                let ghost item = source@;
                records.push(source);
                assert(records.deep_view() =~= given.push(item));
            }
        }
    }
    records
}

/// Why the content of a commit is refused.
#[verifier::opaque]
pub open spec fn committed_content_fault(
    state: ScopeStateView,
    run_id: Seq<char>,
    input: CommitInputView,
    new_records: Seq<ProtectedRecordView>,
    checks: CommitChecksView,
) -> Option<Fault> {
    let run = state.runs[run_id];
    let snapshot = input.snapshot;
    let session_id = run.snapshot.request.session_id;
    let session = state.sessions[session_id];
    let records = state.records.union_prefer_right(with_records(Map::empty(), new_records));
    let h = ReplayedView {
        records,
        snapshot,
        events: run.events + input.events,
        messages: session.messages + input.messages,
    };
    or_else(
        records_fault(state.records, new_records),
        or_else(
            snapshot_refs_fault(state, records, snapshot, checks.snapshot),
            or_else(
                checks.context,
                or_else(
                    verification_transition_fault(
                        records,
                        run.snapshot,
                        snapshot,
                        input.messages,
                        input.events,
                    ),
                    or_else(
                        events_fault(
                            state,
                            records,
                            snapshot,
                            run.snapshot.last_event_seq,
                            input.events,
                            false,
                            input.messages,
                            checks.events,
                        ),
                        if !state.sessions.dom().contains(session_id) {
                            missing()
                        } else if session.snapshot.active_run_id != Some(run_id) {
                            fault(ErrorCode::InvalidTransition, "session.active_run_id")
                        } else {
                            or_else(
                                messages_fault(
                                    state,
                                    records,
                                    run_id,
                                    session.snapshot.transcript_revision,
                                    input.messages,
                                    checks.corrections,
                                ),
                                resume_history_fault(
                                    h,
                                    checks.history_corrections,
                                    checks.history_reconciled,
                                ),
                            )
                        },
                    ),
                ),
            ),
        ),
    )
}

fn check_committed_content(
    state: &ScopeState,
    run: &RunState,
    run_id: &Id,
    input: &CommitInput,
    new_records: &Vec<ProtectedRecord>,
    checks: &CommitChecks,
) -> (r: Result<u64, ContractError>)
    requires
        state@.runs.dom().contains(run_id@),
        state@.runs[run_id@] == run@,
    ensures
        failure(r) == committed_content_fault(
            state@,
            run_id@,
            input@,
            new_records.deep_view(),
            checks@,
        ),
        r matches Ok(revision) ==> state@.sessions.dom().contains(
            run@.snapshot.request.session_id,
        ) && revision
            == state@.sessions[run@.snapshot.request.session_id].snapshot.transcript_revision
            + input@.messages.len(),
{
    reveal(committed_content_fault);
    let snapshot = &input.snapshot;
    let added = validate_records(&state.records, new_records)?;
    let records = Records { stored: &state.records, added: &added };
    validate_snapshot_refs(state, &records, snapshot, &checks.snapshot)?;
    verdict(&checks.context)?;
    verification_state::transition(
        &records,
        &run.snapshot,
        snapshot,
        &input.messages,
        &input.events,
    )?;
    validate_events(
        state,
        &records,
        snapshot,
        run.snapshot.last_event_seq,
        &input.events,
        false,
        &input.messages,
        &checks.events,
    )?;
    let session = state.session(&run.snapshot.request.session_id)?;
    if !is_same(&session.snapshot.active_run_id, run_id) {
        return fail(ErrorCode::InvalidTransition, "session.active_run_id");
    }
    assert(input@.messages.len() == input.messages.len());
    let revision: u64 = validate_messages(
        state,
        &records,
        run_id,
        session.snapshot.transcript_revision,
        &input.messages,
        &checks.corrections,
    )?;
    let history = joined(&run.events, &input.events);
    let transcript = joined(&session.messages, &input.messages);
    let replayed = Replayed { records, snapshot, events: &history, messages: &transcript };
    validate_resume_history(&replayed, &checks.history_corrections, &checks.history_reconciled)?;
    Ok(revision)
}

/// The execution history after a commit, before controls are completed.
pub open spec fn committed_history(
    state: ScopeStateView,
    run_id: Seq<char>,
    input: CommitInputView,
    segment_override: Option<Seq<char>>,
) -> ExecutionHistoryView {
    history_after(
        state.executions[run_id],
        state.runs[run_id].snapshot,
        input.snapshot,
        segment_override,
    )
}

/// The execution history after a commit.
pub open spec fn settled_history(
    state: ScopeStateView,
    run_id: Seq<char>,
    input: CommitInputView,
    segment_override: Option<Seq<char>>,
) -> ExecutionHistoryView {
    let history = committed_history(state, run_id, input, segment_override);
    completed_history(history, input.control_commands, input.control_commands.len() as int)
}

/// Why the execution history cannot take a commit.
#[verifier::opaque]
pub open spec fn committed_history_fault(
    state: ScopeStateView,
    run_id: Seq<char>,
    input: CommitInputView,
    new_records: Seq<ProtectedRecordView>,
    segment_override: Option<Seq<char>>,
    limits: SubmissionLimitsView,
) -> Option<Fault> {
    let run = state.runs[run_id];
    let records = state.records.union_prefer_right(with_records(Map::empty(), new_records));
    if !state.executions.dom().contains(run_id) {
        if input.control_commands.len() > 0 {
            fault(ErrorCode::CapabilityUnsupported, "execution.controls")
        } else {
            None
        }
    } else {
        let history = committed_history(state, run_id, input, segment_override);
        let settled = settled_history(state, run_id, input, segment_override);
        or_else(
            advance_fault(
                state.executions[run_id],
                run.snapshot,
                input.snapshot,
                segment_override,
                limits,
            ),
            or_else(
                if input.control_commands.len() > 0 {
                    controls_fault(
                        history,
                        input.snapshot,
                        input.control_commands,
                        input.now_ms,
                        limits,
                    )
                } else {
                    None
                },
                first_fault(
                    settled.segments,
                    settlement_fault(records, input.snapshot, settled, run.events + input.events),
                ),
            ),
        )
    }
}

fn check_committed_history(
    state: &ScopeState,
    run: &RunState,
    run_id: &Id,
    input: &CommitInput,
    new_records: &Vec<ProtectedRecord>,
    segment_override: Option<&Id>,
    limits: &SubmissionLimits,
) -> (r: Result<Option<ExecutionHistory>, ContractError>)
    requires
        state@.runs.dom().contains(run_id@),
        state@.runs[run_id@] == run@,
        records_fault(state@.records, new_records.deep_view()) is None,
    ensures
        failure(r) == committed_history_fault(
            state@,
            run_id@,
            input@,
            new_records.deep_view(),
            segment_override.deep_view(),
            limits@,
        ),
        r matches Ok(history) ==> history.deep_view() == (if state@.executions.dom().contains(
            run_id@,
        ) {
            Some(settled_history(state@, run_id@, input@, segment_override.deep_view()))
        } else {
            None
        }),
{
    reveal(committed_history_fault);
    assert(input@.control_commands.len() == input.control_commands.len());
    let history = match state.executions.get(run_id) {
        Some(history) => history,
        None => {
            if input.control_commands.len() > 0 {
                return fail(ErrorCode::CapabilityUnsupported, "execution.controls");
            }
            return Ok(None);
        },
    };
    let mut advanced = advance_history(
        history,
        &run.snapshot,
        &input.snapshot,
        segment_override,
        limits,
    )?;
    if input.control_commands.len() > 0 {
        advanced =
        complete_controls(
            advanced,
            &input.snapshot,
            &input.control_commands,
            input.now_ms,
            limits,
        )?;
    }
    let added = validate_records(&state.records, new_records)?;
    let records = Records { stored: &state.records, added: &added };
    let events = joined(&run.events, &input.events);
    validate_settlements(&records, &input.snapshot, &advanced, &events)?;
    Ok(Some(advanced))
}

/// Why a commit is refused.
pub open spec fn commit_fault(
    state: ScopeStateView,
    scope: ScopeView,
    run_id: Seq<char>,
    input: CommitInputView,
    segment_override: Option<Seq<char>>,
    checks: CommitChecksView,
) -> Option<Fault> {
    let run = state.runs[run_id];
    let new_records = records_to_commit(state, run_id, input, segment_override);
    if scope_fault(scope, input.snapshot.scope) is Some {
        scope_fault(scope, input.snapshot.scope)
    } else if !state.runs.dom().contains(run_id) {
        missing()
    } else if lease_fault(run, scope, run_id, input.lease, input.now_ms) is Some {
        lease_fault(run, scope, run_id, input.lease, input.now_ms)
    } else if run.snapshot.revision != input.expected_revision {
        fault(ErrorCode::RevisionConflict, "revision")
    } else if transition_fault(run.snapshot, input.snapshot, checks.transition) is Some {
        transition_fault(run.snapshot, input.snapshot, checks.transition)
    } else if checks.recovery is Some {
        checks.recovery
    } else if acceptance_fault(run, input) is Some {
        acceptance_fault(run, input)
    } else if committed_content_fault(state, run_id, input, new_records, checks) is Some {
        committed_content_fault(state, run_id, input, new_records, checks)
    } else {
        committed_history_fault(
            state,
            run_id,
            input,
            new_records,
            segment_override,
            checks.submitted,
        )
    }
}

/// The session after a commit.
pub open spec fn committed_session(
    state: ScopeStateView,
    run_id: Seq<char>,
    input: CommitInputView,
) -> SessionStateView {
    let session = state.sessions[state.runs[run_id].snapshot.request.session_id];
    SessionStateView {
        snapshot: SessionSnapshotView {
            transcript_revision: (session.snapshot.transcript_revision
                + input.messages.len()) as u64,
            context_revision_ref: input.snapshot.context_revision_ref,
            active_run_id: if terminal(input.snapshot.status) {
                None
            } else {
                session.snapshot.active_run_id
            },
            ..session.snapshot
        },
        messages: session.messages + input.messages,
    }
}

/// The run after a commit. A terminal commit also releases the lease.
pub open spec fn committed_run_state(run: RunStateView, input: CommitInputView) -> RunStateView {
    RunStateView {
        snapshot: input.snapshot,
        events: run.events + input.events,
        lease: if terminal(input.snapshot.status) {
            None
        } else {
            run.lease
        },
        last_fencing_token: run.last_fencing_token,
    }
}

/// A scope after a commit.
pub open spec fn committed_state(
    state: ScopeStateView,
    run_id: Seq<char>,
    input: CommitInputView,
    segment_override: Option<Seq<char>>,
) -> ScopeStateView {
    let run = state.runs[run_id];
    let session = committed_session(state, run_id, input);
    ScopeStateView {
        sessions: state.sessions.insert(session.snapshot.session_id, session),
        runs: state.runs.insert(run_id, committed_run_state(run, input)),
        requests: state.requests,
        records: with_records(
            state.records,
            records_to_commit(state, run_id, input, segment_override),
        ),
        event_ids: with_event_ids(state.event_ids, input.events),
        message_ids: with_message_ids(state.message_ids, session.messages),
        hook_observations: state.hook_observations,
        executions: if state.executions.dom().contains(run_id) {
            state.executions.insert(
                run_id,
                settled_history(state, run_id, input, segment_override),
            )
        } else {
            state.executions
        },
    }
}

/// A committed run as it is read.
pub open spec fn committed_run(
    state: ScopeStateView,
    run_id: Seq<char>,
    input: CommitInputView,
) -> StoredRunView {
    let session = committed_session(state, run_id, input);
    StoredRunView {
        snapshot: input.snapshot,
        session: session.snapshot,
        messages: session.messages,
    }
}

/// What a commit writes, once nothing speaks against it.
struct Approved {
    revision: u64,
    records: Vec<ProtectedRecord>,
    history: Option<ExecutionHistory>,
}

fn approve(
    state: &ScopeState,
    scope: &Scope,
    run_id: &Id,
    input: &CommitInput,
    segment_override: Option<&Id>,
    checks: &CommitChecks,
) -> (r: Result<Approved, ContractError>)
    ensures
        failure(r) == commit_fault(
            state@,
            scope@,
            run_id@,
            input@,
            segment_override.deep_view(),
            checks@,
        ),
        r matches Ok(approved) ==> state@.runs.dom().contains(run_id@)
            && state@.sessions.dom().contains(
            state@.runs[run_id@].snapshot.request.session_id,
        ) && approved.revision == state@.sessions[state@.runs[run_id@].snapshot.request.session_id].snapshot.transcript_revision
            + input@.messages.len() && approved.records.deep_view() == records_to_commit(
            state@,
            run_id@,
            input@,
            segment_override.deep_view(),
        ) && approved.history.deep_view() == (if state@.executions.dom().contains(run_id@) {
            Some(settled_history(state@, run_id@, input@, segment_override.deep_view()))
        } else {
            None
        }),
{
    check_scope(scope, &input.snapshot.scope)?;
    let run = state.run(run_id)?;
    validate_lease(run, scope, run_id, &input.lease, input.now_ms)?;
    if run.snapshot.revision != input.expected_revision {
        return fail(ErrorCode::RevisionConflict, "revision");
    }
    validate_transition(&run.snapshot, &input.snapshot, &checks.transition)?;
    verdict(&checks.recovery)?;
    check_acceptance(run, input)?;
    let records = gather_records(state, run, run_id, input, segment_override);
    let revision: u64 = check_committed_content(state, run, run_id, input, &records, checks)?;
    proof {
        reveal(committed_content_fault);
    }
    let history = check_committed_history(
        state,
        run,
        run_id,
        input,
        &records,
        segment_override,
        &checks.submitted,
    )?;
    Ok(Approved { revision, records, history })
}

/// Validate and commit a checkpoint, the transcript, records and events of a run in one step. A
/// refused commit changes nothing.
pub fn commit(
    state: &mut ScopeState,
    scope: &Scope,
    run_id: &Id,
    input: CommitInput,
    segment_override: Option<&Id>,
    checks: &CommitChecks,
) -> (r: Result<StoredRun, ContractError>)
    ensures
        failure(r) == commit_fault(
            old(state)@,
            scope@,
            run_id@,
            input@,
            segment_override.deep_view(),
            checks@,
        ),
        r is Err ==> final(state)@ == old(state)@,
        r matches Ok(stored) ==> stored@ == committed_run(old(state)@, run_id@, input@)
            && final(state)@ == committed_state(
            old(state)@,
            run_id@,
            input@,
            segment_override.deep_view(),
        ),
{
    let ghost before = state@;
    let ghost given = input@;
    let approved = approve(state, scope, run_id, &input, segment_override, checks)?;
    let CommitInput {
        control_commands: _,
        expected_revision: _,
        lease: _,
        now_ms: _,
        snapshot,
        messages,
        events,
        records: _,
    } = input;
    let (run_events, lease, last_fencing_token, session_id) = match state.runs.get(run_id) {
        Some(run) => (
            joined(&run.events, &events),
            run.lease.copy(),
            run.last_fencing_token,
            run.snapshot.request.session_id.copy(),
        ),
        None => {
            return crate::state::scope::not_found();
        },
    };
    let session = match state.sessions.get(&session_id) {
        Some(session) => SessionState {
            snapshot: SessionSnapshot {
                schema_version: session.snapshot.schema_version,
                session_id: session.snapshot.session_id.copy(),
                scope: session.snapshot.scope.copy(),
                profile_digest: session.snapshot.profile_digest.copy(),
                prompt_snapshot: session.snapshot.prompt_snapshot.copy(),
                transcript_revision: approved.revision,
                context_revision_ref: snapshot.context_revision_ref.copy(),
                active_run_id: if snapshot.status.is_terminal() {
                    None
                } else {
                    session.snapshot.active_run_id.copy()
                },
            },
            messages: joined(&session.messages, &messages),
        },
        None => {
            return crate::state::scope::not_found();
        },
    };
    assert(session@ == committed_session(before, run_id@, given));
    let result = StoredRun {
        snapshot: snapshot.copy(),
        session: session.snapshot.copy(),
        messages: session.messages.copy(),
    };
    let Approved { revision: _, records, history } = approved;
    if let Some(history) = history {
        state.executions.insert(run_id.copy(), history);
    }
    insert_records(&mut state.records, &records);
    insert_message_ids(&mut state.message_ids, &session.messages);
    insert_event_ids(&mut state.event_ids, &events);
    state.sessions.insert(session.snapshot.session_id.copy(), session);
    let lease = if snapshot.status.is_terminal() {
        None
    } else {
        lease
    };
    state.runs.insert(
        run_id.copy(),
        RunState { snapshot, events: run_events, lease, last_fencing_token },
    );
    assert(state@ =~= committed_state(before, run_id@, given, segment_override.deep_view()));
    Ok(result)
}

/// A resumption says whether it came too late: at the deadline of the run or at the end of its wait,
/// or after it. Neither a resumption nor a recovery is reported before it happens.
pub proof fn law_late_acceptances_are_marked(
    run: RunStateView,
    input: CommitInputView,
    receipt: ResumeReceiptView,
)
    requires
        input.snapshot.resume_receipts.len() > 0,
        input.snapshot.resume_receipts.last() == receipt,
        receipt.accepted_revision == input.snapshot.revision,
        acceptance_fault(run, input) is None,
    ensures
        receipt.expired <==> input.now_ms >= run.snapshot.timing.deadline_at_ms || (
        run.snapshot.wait is Some && run.snapshot.wait->Some_0.expires_at_ms is Some && input.now_ms
            >= run.snapshot.wait->Some_0.expires_at_ms->Some_0),
        forall|i: int|
            0 <= i < input.events.len() && ((#[trigger] input.events[i]).payload is RunResumed
                || input.events[i].payload is RunRecovered) ==> input.events[i].timestamp_ms
                <= input.now_ms,
{
    let p = accepted_later(input.now_ms);
    assert forall|i: int|
        0 <= i < input.events.len() && ((#[trigger] input.events[i]).payload is RunResumed
            || input.events[i].payload is RunRecovered) implies input.events[i].timestamp_ms
        <= input.now_ms by {
        assert(!p(input.events[i]));
    }
}

/// An accepted recovery says whether the deadline of its run had passed.
pub proof fn law_late_recoveries_are_marked(run: RunStateView, input: CommitInputView)
    requires
        input.snapshot.recovery_receipts.len() > 0,
        input.snapshot.recovery_receipts.last().accepted_revision == input.snapshot.revision,
        acceptance_fault(run, input) is None,
    ensures
        input.snapshot.recovery_receipts.last().expired <==> input.now_ms
            >= run.snapshot.timing.deadline_at_ms,
{
}

/// A session takes a new run exactly where it is new, or where it has the same profile and prompt and
/// no run that is still active.
pub proof fn law_free_sessions_take_runs(state: ScopeStateView, input: AdmissionInputView)
    ensures
        session_fault(state, input) is None <==> {
            let id = input.snapshot.request.session_id;
            state.sessions.dom().contains(id) ==> {
                &&& state.sessions[id].snapshot.profile_digest
                    == input.snapshot.profile.profile_digest
                &&& state.sessions[id].snapshot.prompt_snapshot == input.prompt_snapshot
                &&& state.sessions[id].snapshot.active_run_id is None
            }
        },
{
}

/// An admitted run starts from nothing: with its first checkpoint and events, without a lease, as the
/// active run of its session, whose transcript goes on with the messages of the run. Nothing of any
/// other run or session changes, and the request is found again.
pub proof fn law_admitted_runs_start_fresh(
    state: ScopeStateView,
    scope: ScopeView,
    input: AdmissionInputView,
    other_run: Seq<char>,
    other_session: Seq<char>,
)
    ensures
        ({
            let after = admitted_state(state, scope, input);
            let snapshot = input.snapshot;
            let id = snapshot.request.session_id;
            &&& after.runs[snapshot.run_id].snapshot == snapshot
            &&& after.runs[snapshot.run_id].events == input.events
            &&& after.runs[snapshot.run_id].lease is None
            &&& after.sessions[id].snapshot.active_run_id == Some(snapshot.run_id)
            &&& after.sessions[id].snapshot.session_id == id
            &&& after.sessions[id].snapshot.profile_digest == snapshot.profile.profile_digest
            &&& after.sessions[id].snapshot.prompt_snapshot == input.prompt_snapshot
            &&& state.sessions.dom().contains(id) ==> after.sessions[id].messages
                == state.sessions[id].messages + input.messages
            &&& !state.sessions.dom().contains(id) ==> after.sessions[id].messages == input.messages
            &&& after.requests[RequestKeyView {
                session_id: id,
                request_id: snapshot.request.request_id,
            }] == snapshot.run_id
            &&& other_run != snapshot.run_id ==> after.runs.dom().contains(other_run)
                == state.runs.dom().contains(other_run) && after.runs[other_run]
                == state.runs[other_run] && after.executions[other_run]
                == state.executions[other_run]
            &&& other_session != id ==> after.sessions[other_session]
                == state.sessions[other_session]
            &&& after.executions[snapshot.run_id].segments.len() == 1
            &&& after.executions[snapshot.run_id].controls.len() == 0
        }),
{
    let id = input.snapshot.request.session_id;
    assert(Seq::<MessageView>::empty() + input.messages =~= input.messages);
}

/// A run is admitted with a checkpoint on which nothing has happened yet.
pub proof fn law_first_checkpoints_are_unused(snapshot: RunSnapshotView)
    ensures
        is_first_checkpoint(snapshot) ==> {
            &&& snapshot.revision == 0
            &&& snapshot.status == RunStatus::Running
            &&& snapshot.usage.model_calls == 0
            &&& snapshot.usage.tool_attempts == 0
            &&& snapshot.usage.repair_attempts == 0
            &&& snapshot.usage.recovery_attempts == 0
            &&& snapshot.usage.elapsed_ms == 0
            &&& snapshot.model_ledger.len() == 0
            &&& snapshot.tool_ledger.len() == 0
            &&& snapshot.reservations.len() == 0
            &&& snapshot.resume_receipts.len() == 0
            &&& snapshot.recovery_receipts.len() == 0
        },
{
}

/// A commit writes its checkpoint, adds its events and messages behind what is there, and ends the
/// run for its session, and its lease, exactly where the checkpoint is terminal. Nothing of any other
/// run or session changes.
pub proof fn law_commits_write_one_run(
    state: ScopeStateView,
    run_id: Seq<char>,
    input: CommitInputView,
    segment_override: Option<Seq<char>>,
    other_run: Seq<char>,
)
    ensures
        ({
            let after = committed_state(state, run_id, input, segment_override);
            let before = state.runs[run_id];
            let session = state.sessions[before.snapshot.request.session_id];
            let id = session.snapshot.session_id;
            let over = input.snapshot.status == RunStatus::Succeeded || input.snapshot.status
                == RunStatus::Failed || input.snapshot.status == RunStatus::Cancelled
                || input.snapshot.status == RunStatus::Exhausted;
            &&& after.runs[run_id].snapshot == input.snapshot
            &&& after.runs[run_id].events == before.events + input.events
            &&& after.runs[run_id].last_fencing_token == before.last_fencing_token
            &&& over ==> after.runs[run_id].lease is None
                && after.sessions[id].snapshot.active_run_id is None
            &&& !over ==> after.runs[run_id].lease == before.lease
                && after.sessions[id].snapshot.active_run_id == session.snapshot.active_run_id
            &&& after.sessions[id].messages == session.messages + input.messages
            &&& after.requests == state.requests
            &&& after.hook_observations == state.hook_observations
            &&& other_run != run_id ==> after.runs[other_run] == state.runs[other_run]
                && after.executions[other_run] == state.executions[other_run]
        }),
{
}

/// New records are taken exactly where each place holds the same record already, or nothing: no
/// record is ever replaced, and a repeated one is no conflict.
pub proof fn law_records_are_never_replaced(
    stored: Map<RecordKeyView, ProtectedRecordView>,
    record: ProtectedRecordView,
)
    ensures
        records_fault(stored, seq![record]) is None <==> (!stored.dom().contains(
            key_of(record.reference),
        ) || stored[key_of(record.reference)] == record),
{
    reveal_with_fuel(first_index_fault, 2);
    let f = conflict_fault(stored, seq![record]);
    assert(seq![record].take(0) =~= Seq::<ProtectedRecordView>::empty());
    assert(with_records(Map::empty(), seq![record].take(0)) == Map::<
        RecordKeyView,
        ProtectedRecordView,
    >::empty());
    assert(f(0) == f(0));
}

} // verus!
