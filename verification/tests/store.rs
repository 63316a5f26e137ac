use wickle::content::InputContent;
use wickle::data::Data;
use wickle::encoding::encode_input;
use wickle::error::{ContractError, ErrorCode, PersistenceFailure};
use wickle::execution_contracts::{
    BeginSegmentRequest, ControlAction, ControlCommand, InterruptionCause, RequestSnapshot,
    SegmentStart, SubmissionLimits, SubmittedRequest,
};
use wickle::json::{Json, object, text};
use wickle::profile::{
    AgentProfile, CompletionPolicy, ContextPolicy, Instructions, OutputContract, ProfileLimits,
};
use wickle::prompt::{ResolvedAssembly, SystemInputsRecord};
use wickle::refs::{Scope, VersionedRef};
use wickle::resolution::{ComponentKind, ComponentMetadata, ComponentRef, ResolvedProfile};
use wickle::resolution::validator::{ProfileValidator, Resolution, ResolutionOutcome};
use wickle::run::{
    BudgetUsage, RunEvent, RunEventPayload, RunLimits, RunPhase, RunRequest, RunSnapshot, RunStatus,
    RunTiming, SystemInputs,
};
use wickle::serialization::{Id, JsonDigest, canonical_digest};
use wickle::state::commit::{AdmissionChecks, AdmissionInput, CommitChecks, CommitInput};
use wickle::state::events::EventChecks;
use wickle::state::execution::validate_history;
use wickle::state::leases::lease_expiry;
use wickle::state::memory_store::MemoryStateStore;
use wickle::state::records::{ProtectedRecord, RecordContent};
use wickle::state::scope::RunLease;
use wickle::state::snapshot_refs::SnapshotChecks;
use wickle::state::transition::TransitionChecks;
use wickle::verification::VerificationPlan;

fn id(value: &str) -> Id {
    Id::new(value.to_owned()).unwrap()
}

fn error<T>(result: Result<T, ContractError>) -> (ErrorCode, String) {
    match result {
        Ok(_) => panic!("the call succeeded"),
        Err(error) => (error.code, error.path),
    }
}

fn refused(code: ErrorCode, path: &str) -> (ErrorCode, String) {
    (code, path.to_owned())
}

fn digest(value: &str) -> JsonDigest {
    canonical_digest(&text(value))
}

fn scope() -> Scope {
    Scope { tenant_id: id("tenant"), workspace_id: id("workspace"), user_id: None }
}

fn elsewhere() -> Scope {
    Scope { tenant_id: id("other"), workspace_id: id("workspace"), user_id: None }
}

fn record(name: &str, content: RecordContent) -> ProtectedRecord {
    ProtectedRecord::new(id(name), 1, text(name), content)
}

fn profile() -> AgentProfile {
    AgentProfile {
        agent_id: id("agent"),
        version: id("1"),
        model_binding: id("model"),
        model_options: vec![],
        limits: ProfileLimits { max_output_tokens: None },
        connectors: vec![],
        adapters: None,
        tools: vec![],
        skills: vec![],
        context_sources: None,
        hooks: None,
        instructions: Instructions::Inline { text: "help".to_owned() },
        completion_policy: CompletionPolicy::Direct,
        output_contract: OutputContract::Text,
        context_policy: ContextPolicy { strategy: id("window"), version: None, config: None },
        extensions: None,
        digest: digest("profile"),
        defect: None,
    }
}

fn metadata(kind: ComponentKind, name: &str) -> ComponentMetadata {
    ComponentMetadata {
        reference: ComponentRef { kind, id: id(name), version: Some(id("1")) },
        contract_version: 1,
        manifest_digest: digest(name),
        config_schema: object(vec![]),
        dependencies: vec![],
        capabilities: vec![],
        required_capabilities: vec![],
        required_connections: vec![],
        model_name: None,
        hook_position: None,
        exports: vec![],
    }
}

fn model_resolution() -> Resolution {
    Resolution {
        requested: ComponentRef { kind: ComponentKind::ModelBinding, id: id("model"), version: None },
        outcome: ResolutionOutcome::Resolved {
            metadata: metadata(ComponentKind::ModelBinding, "model"),
        },
    }
}

fn resolved() -> ResolvedProfile {
    ProfileValidator::new(vec![model_resolution()]).validate(&profile(), &scope()).unwrap()
}

fn run_request(name: &str) -> RunRequest {
    let input = vec![InputContent::Text { text: "hello".to_owned() }];
    RunRequest {
        request_id: id(name),
        session_id: id("session"),
        input_digest: canonical_digest(&encode_input(&input)),
        input,
        model_options: vec![],
        max_output_tokens: None,
    }
}

fn snapshot(run: &str, request: &str) -> RunSnapshot {
    RunSnapshot {
        run_id: id(run),
        scope: scope(),
        request: run_request(request),
        request_digest: digest(request),
        profile: resolved(),
        system_inputs: None,
        limits: RunLimits {
            max_model_calls: 4,
            max_tool_attempts: 4,
            max_repair_attempts: 1,
            max_recovery_attempts: 2,
            max_elapsed_ms: 60_000,
        },
        revision: 0,
        status: RunStatus::Running,
        phase: RunPhase::Admission,
        usage: BudgetUsage {
            model_calls: 0,
            tool_attempts: 0,
            repair_attempts: 0,
            recovery_attempts: 0,
            elapsed_ms: 0,
        },
        timing: RunTiming { deadline_at_ms: 100_000, last_observed_at_ms: 1_000 },
        reservations: vec![],
        last_event_seq: 1,
        wait: None,
        outcome: None,
        model_ledger: vec![],
        model_step_id: None,
        model_step_inputs: vec![],
        prepared_steps: vec![],
        active_prepared_step: None,
        tool_ledger: vec![],
        resume_receipts: vec![],
        recovery_receipts: vec![],
        hook_plan_ref: None,
        hook_applications: vec![],
        source_plan_ref: None,
        context_batches: vec![],
        source_states: vec![],
        context_revision_ref: None,
        context_decisions: vec![],
        skill_plan_ref: None,
        assembly_ref: None,
        routing_snapshot_ref: None,
        verification_plan_ref: None,
        candidate_ref: None,
        verification_records: vec![],
        interruption_plan_ref: None,
        interruption_records: vec![],
        app_state: None,
        document: Json::Null,
        defect: None,
    }
}

fn limits() -> SubmissionLimits {
    SubmissionLimits { request: None, system_inputs: None, submission: None }
}

fn snapshot_checks() -> SnapshotChecks {
    SnapshotChecks {
        recovery: None,
        sources: None,
        skills: None,
        context: None,
        lineages: vec![],
        inputs_accepted: true,
        registry: None,
        assembly: None,
        hook_plan: None,
        verification_plan: None,
        prompt: None,
        bound: vec![],
    }
}

fn event_checks() -> EventChecks {
    EventChecks { corrections: None, reconciled: vec![], recovery: vec![], context: vec![] }
}

fn admission_checks(request: &str) -> AdmissionChecks {
    AdmissionChecks {
        admission_digest: digest(request),
        submitted: limits(),
        stored: limits(),
        snapshot: snapshot_checks(),
        events: event_checks(),
        corrections: vec![],
    }
}

fn commit_checks() -> CommitChecks {
    CommitChecks {
        submitted: limits(),
        transition: TransitionChecks { sources: None, budget: None },
        recovery: None,
        snapshot: snapshot_checks(),
        context: None,
        events: event_checks(),
        corrections: vec![],
        history_corrections: None,
        history_reconciled: vec![],
    }
}

fn prompt() -> ProtectedRecord {
    record("prompt", RecordContent::Opaque)
}

fn started(run: &RunSnapshot, request: &ProtectedRecord) -> RunEvent {
    RunEvent {
        event_id: id(&format!("{}-started", run.run_id.as_str())),
        scope: scope(),
        run_id: run.run_id.copy(),
        session_id: run.request.session_id.copy(),
        seq: 1,
        timestamp_ms: 1_000,
        payload: RunEventPayload::RunStarted {
            request_ref: request.reference().copy(),
            profile_digest: run.profile.profile_digest().copy(),
        },
    }
}

fn admission(run: &str, request: &str) -> AdmissionInput {
    let snapshot = snapshot(run, request);
    let asked = ProtectedRecord::new(
        id(&format!("{}-request", run)),
        1,
        text(request),
        RecordContent::Request(run_request(request)),
    );
    AdmissionInput {
        execution_principal_ref: id("principal"),
        execution_grant_ref: id("grant"),
        submitted: None,
        events: vec![started(&snapshot, &asked)],
        snapshot,
        prompt_snapshot: prompt().reference().copy(),
        messages: vec![],
        records: vec![prompt(), asked],
        require_durable: false,
    }
}

fn store() -> MemoryStateStore {
    let mut store = MemoryStateStore::new();
    let result = store.admit_run(&scope(), admission("run", "request"), &admission_checks("request"));
    assert!(result.unwrap().created);
    store
}

fn advanced(lease: &RunLease) -> CommitInput {
    let mut next = snapshot("run", "request");
    next.revision = 1;
    next.phase = RunPhase::Model;
    next.usage.elapsed_ms = 10;
    next.timing.last_observed_at_ms = 2_000;
    CommitInput {
        control_commands: vec![],
        expected_revision: 0,
        lease: lease.copy(),
        now_ms: 2_000,
        snapshot: next,
        messages: vec![],
        events: vec![],
        records: vec![record("note", RecordContent::Opaque)],
    }
}

fn begin(segment: &str, start: SegmentStart) -> BeginSegmentRequest {
    BeginSegmentRequest {
        transition: None,
        run_id: id("run"),
        expected_revision: 0,
        segment_id: id(segment),
        owner: id("worker"),
        now_ms: 1_000,
        lease_ttl_ms: 500,
        start,
    }
}

#[test]
fn an_admitted_run_is_read_back() {
    let store = store();
    let stored = store.load(&scope(), &id("run")).unwrap();
    assert!(stored.snapshot.same(&snapshot("run", "request")));
    assert_eq!(stored.session.active_run_id.as_ref().unwrap().as_str(), "run");
    assert!(store.find_request(&scope(), &id("session"), &id("request")).unwrap().is_some());
    assert!(store.find_request(&scope(), &id("session"), &id("other")).unwrap().is_none());
    assert_eq!(
        error(store.load(&elsewhere(), &id("run"))),
        error(store.load(&scope(), &id("nothing")))
    );
}

#[test]
fn the_same_request_is_admitted_once() {
    let mut store = store();
    let again = store
        .admit_run(&scope(), admission("run", "request"), &admission_checks("request"))
        .unwrap();
    assert!(!again.created);
    assert!(again.state.snapshot.same(&snapshot("run", "request")));
    assert_eq!(
        error(store.admit_run(&scope(), admission("run", "request"), &admission_checks("changed"))),
        refused(ErrorCode::RequestConflict, "request")
    );
}

#[test]
fn a_session_runs_one_run_at_a_time() {
    let mut store = store();
    assert_eq!(
        error(store.admit_run(&scope(), admission("second", "later"), &admission_checks("later"))),
        refused(ErrorCode::SessionBusy, "session")
    );
    assert!(store.load(&scope(), &id("second")).is_err());
}

#[test]
fn a_first_checkpoint_is_untouched() {
    let mut store = MemoryStateStore::new();
    let mut late = admission("run", "request");
    late.snapshot.revision = 1;
    assert_eq!(
        error(store.admit_run(&scope(), late, &admission_checks("request"))),
        refused(ErrorCode::InvalidSnapshot, "admission")
    );
    let mut durable = admission("run", "request");
    durable.require_durable = true;
    assert_eq!(
        error(store.admit_run(&scope(), durable, &admission_checks("request"))),
        refused(ErrorCode::CapabilityUnsupported, "store.durable")
    );
    assert_eq!(
        error(store.admit_run(&scope(), admission("run", "request"), &admission_checks("other"))),
        refused(ErrorCode::InvalidSnapshot, "request_digest")
    );
    let mut silent = admission("run", "request");
    silent.events = vec![];
    assert!(store.admit_run(&scope(), silent, &admission_checks("request")).is_err());
    assert!(store.load(&scope(), &id("run")).is_err());
}

#[test]
fn a_lease_is_held_by_one_worker() {
    let mut store = store();
    let first = store.acquire_lease(&scope(), &id("run"), &id("one"), 1_000, 500).unwrap();
    assert_eq!(first.fencing_token, 1);
    assert_eq!(first.expires_at_ms, 1_500);
    assert!(store.acquire_lease(&scope(), &id("run"), &id("two"), 1_499, 500).is_err());
    let second = store.acquire_lease(&scope(), &id("run"), &id("two"), 1_500, 500).unwrap();
    assert_eq!(second.fencing_token, 2);
    assert!(store.check_lease(&scope(), &id("run"), &first, 1_600).is_err());
    assert!(store.check_lease(&scope(), &id("run"), &second, 1_600).is_ok());
    let renewed = store.renew_lease(&scope(), &id("run"), &second, 1_600, 1_000).unwrap();
    assert_eq!(renewed.expires_at_ms, 2_600);
    assert_eq!(renewed.fencing_token, 2);
    store.release_lease(&scope(), &id("run"), &renewed, 1_700).unwrap();
    assert!(store.check_lease(&scope(), &id("run"), &renewed, 1_700).is_err());
    let third = store.acquire_lease(&scope(), &id("run"), &id("one"), 1_700, 1).unwrap();
    assert_eq!(third.fencing_token, 3);
}

#[test]
fn lease_times_stay_in_range() {
    assert_eq!(lease_expiry(1_000, 500).unwrap(), 1_500);
    assert!(lease_expiry(1_000, 0).is_err());
    assert!(lease_expiry(i64::MAX, 1).is_err());
    assert!(lease_expiry(0, u64::MAX).is_err());
}

#[test]
fn a_commit_moves_a_run_forward() {
    let mut store = store();
    let lease = store.acquire_lease(&scope(), &id("run"), &id("worker"), 1_000, 5_000).unwrap();
    let stored = store.commit(&scope(), &id("run"), advanced(&lease), &commit_checks()).unwrap();
    assert_eq!(stored.snapshot.revision, 1);
    assert_eq!(store.load(&scope(), &id("run")).unwrap().snapshot.usage.elapsed_ms, 10);
    let note = record("note", RecordContent::Opaque);
    assert!(store.read_record(&scope(), note.reference()).unwrap().same(&note));
    assert_eq!(
        error(store.commit(&scope(), &id("run"), advanced(&lease), &commit_checks())),
        refused(ErrorCode::RevisionConflict, "revision")
    );
}

#[test]
fn a_refused_commit_changes_nothing() {
    let mut store = store();
    let lease = store.acquire_lease(&scope(), &id("run"), &id("worker"), 1_000, 5_000).unwrap();
    let mut stale = lease.copy();
    stale.fencing_token = 7;
    assert!(store.commit(&scope(), &id("run"), advanced(&stale), &commit_checks()).is_err());
    let mut renamed = advanced(&lease);
    renamed.snapshot.request_digest = digest("other");
    assert!(store.commit(&scope(), &id("run"), renamed, &commit_checks()).is_err());
    let mut checks = commit_checks();
    checks.transition.budget = Some(ContractError::new(ErrorCode::BudgetExceeded, "budget"));
    assert_eq!(
        error(store.commit(&scope(), &id("run"), advanced(&lease), &checks)),
        refused(ErrorCode::BudgetExceeded, "budget")
    );
    assert_eq!(store.load(&scope(), &id("run")).unwrap().snapshot.revision, 0);
    let note = record("note", RecordContent::Opaque);
    assert!(store.read_record(&scope(), note.reference()).is_err());
}

#[test]
fn a_record_never_changes() {
    let mut store = store();
    let lease = store.acquire_lease(&scope(), &id("run"), &id("worker"), 1_000, 5_000).unwrap();
    let mut input = advanced(&lease);
    input.records =
        vec![ProtectedRecord::new(id("prompt"), 1, text("changed"), RecordContent::Opaque)];
    assert!(store.commit(&scope(), &id("run"), input, &commit_checks()).is_err());
    let mut same = advanced(&lease);
    same.records = vec![prompt()];
    assert!(store.commit(&scope(), &id("run"), same, &commit_checks()).is_ok());
    assert!(store.read_record(&scope(), prompt().reference()).unwrap().same(&prompt()));
    let mut forged = prompt().reference().copy();
    forged.digest = digest("changed");
    assert!(store.read_record(&scope(), &forged).is_err());
}

#[test]
fn events_are_paged_without_gaps() {
    let store = store();
    let page = store.read_events(&scope(), &id("run"), 0, 10).unwrap();
    assert_eq!(page.events.len(), 1);
    assert_eq!(page.next_after_seq, 1);
    assert!(!page.has_more);
    assert_eq!(page.last_available_seq, 1);
    let rest = store.read_events(&scope(), &id("run"), 1, 10).unwrap();
    assert!(rest.events.is_empty());
    assert_eq!(rest.next_after_seq, 1);
    assert!(store.read_events(&scope(), &id("run"), 0, 0).is_err());
}

#[test]
fn the_memory_store_is_not_durable() {
    let capabilities = MemoryStateStore::new().capabilities();
    assert!(!capabilities.durable);
    assert!(!capabilities.cross_process_leases);
}

#[test]
fn the_first_segment_is_claimed_once() {
    let mut store = store();
    let history = store.read_execution(&scope(), &id("run")).unwrap();
    assert_eq!(history.segments.len(), 1);
    assert!(!history.initial_claimed);
    let first = history.segments[0].segment_id.as_str().to_owned();
    let begun = store
        .begin_segment(&scope(), &begin(&first, SegmentStart::Initial), &commit_checks())
        .unwrap();
    assert_eq!(begun.segment.segment_id.as_str(), first);
    assert_eq!(begun.lease.unwrap().expires_at_ms, 1_500);
    let again = store
        .begin_segment(&scope(), &begin(&first, SegmentStart::Initial), &commit_checks())
        .unwrap();
    assert!(again.lease.is_none());
    assert_eq!(again.segment.segment_id.as_str(), first);
    assert!(store
        .begin_segment(&scope(), &begin("other", SegmentStart::Initial), &commit_checks())
        .is_err());
    assert!(store.read_execution(&scope(), &id("run")).unwrap().initial_claimed);
}

#[test]
fn control_commands_are_kept_and_found_again() {
    let mut store = store();
    let command = || ControlCommand {
        command_id: id("stop"),
        principal_ref: id("operator"),
        action: ControlAction::Stop { cause: InterruptionCause::HostShutdown },
    };
    let receipt = store.submit_control_command(&scope(), &id("run"), command(), &limits()).unwrap();
    assert_eq!(receipt.command_id.as_str(), "stop");
    assert!(receipt.processed_segment_id.is_none());
    let again = store.submit_control_command(&scope(), &id("run"), command(), &limits()).unwrap();
    assert!(again.same(&receipt));
    assert_eq!(store.read_execution(&scope(), &id("run")).unwrap().controls.len(), 1);
    let mut other = command();
    other.principal_ref = id("someone");
    assert!(store.submit_control_command(&scope(), &id("run"), other, &limits()).is_err());
    assert!(store.submit_control_command(&scope(), &id("nothing"), command(), &limits()).is_err());
}

#[test]
fn a_terminal_run_stays_as_it_is() {
    assert!(RunStatus::Succeeded.is_terminal());
    assert!(RunStatus::Exhausted.is_terminal());
    assert!(!RunStatus::Waiting.is_terminal());
    assert!(!RunStatus::Interrupted.is_terminal());
    let mut ended = snapshot("run", "request");
    ended.status = RunStatus::Failed;
    let mut next = snapshot("run", "request");
    next.revision = 1;
    assert_eq!(
        error(wickle::state::transition::validate_transition(
            &ended,
            &next,
            &TransitionChecks { sources: None, budget: None },
        )),
        refused(ErrorCode::InvalidTransition, "run.status")
    );
}

#[test]
fn protected_inputs_are_those_of_the_run() {
    let inputs = || {
        ProtectedRecord::new(
            id("inputs"),
            1,
            object(vec![]),
            RecordContent::SystemInputs(SystemInputsRecord { document: object(vec![]) }),
        )
    };
    let input = || {
        let mut input = admission("run", "request");
        input.snapshot.system_inputs = Some(SystemInputs {
            snapshot_ref: inputs().reference().copy(),
            values_digest: canonical_digest(&object(vec![])),
        });
        input.records.push(inputs());
        input
    };
    let mut checks = admission_checks("request");
    checks.snapshot.inputs_accepted = false;
    let mut store = MemoryStateStore::new();
    assert_eq!(
        error(store.admit_run(&scope(), input(), &checks)),
        refused(ErrorCode::InvalidSnapshot, "system_inputs")
    );
    checks.snapshot.inputs_accepted = true;
    assert!(store.admit_run(&scope(), input(), &checks).unwrap().created);
}

#[test]
fn an_assembly_is_restored_for_its_run() {
    let assembly = || {
        record("assembly", RecordContent::Assembly(ResolvedAssembly { session_id: id("session"), tools: vec![] }))
    };
    let input = || {
        let mut input = admission("run", "request");
        input.snapshot.assembly_ref = Some(assembly().reference().copy());
        input.records.push(assembly());
        input
    };
    let broken = || Some(ContractError::new(ErrorCode::InvalidSnapshot, "broken"));
    let admitted = |checks: &AdmissionChecks| MemoryStateStore::new().admit_run(&scope(), input(), checks);
    let mut checks = admission_checks("request");
    checks.snapshot.registry = broken();
    assert_eq!(error(admitted(&checks)).1, "broken");
    checks.snapshot.registry = None;
    checks.snapshot.assembly = broken();
    assert_eq!(error(admitted(&checks)).1, "broken");
    checks.snapshot.assembly = None;
    assert!(admitted(&checks).unwrap().created);
}

#[test]
fn a_verification_plan_is_restored_for_its_run() {
    let plan = || record("plan", RecordContent::VerificationPlan(VerificationPlan { verifier: None }));
    let input = || {
        let mut input = admission("run", "request");
        input.snapshot.verification_plan_ref = Some(plan().reference().copy());
        input.records.push(plan());
        input
    };
    let mut checks = admission_checks("request");
    checks.snapshot.verification_plan = Some(ContractError::new(ErrorCode::InvalidSnapshot, "broken"));
    let mut store = MemoryStateStore::new();
    assert_eq!(error(store.admit_run(&scope(), input(), &checks)).1, "broken");
    checks.snapshot.verification_plan = None;
    assert!(store.admit_run(&scope(), input(), &checks).unwrap().created);
}

#[test]
fn a_failure_keeps_its_diagnostics() {
    let failure = || ContractError {
        code: ErrorCode::PersistenceUnavailable,
        path: "store".to_owned(),
        persistence: Some(Box::new(PersistenceFailure { document: text("run") })),
    };
    let mut checks = admission_checks("request");
    checks.snapshot.recovery = Some(failure());
    let mut store = MemoryStateStore::new();
    match store.admit_run(&scope(), admission("run", "request"), &checks) {
        Err(error) => assert!(error.same(&failure())),
        Ok(_) => panic!("a failure was expected"),
    }
    assert!(ContractError::new(ErrorCode::PersistenceUnavailable, "store").persistence.is_none());
}

#[test]
fn a_submission_is_held_to_the_limits_at_every_change() {
    let mut long = limits();
    long.request = Some(ContractError::new(ErrorCode::InvalidJson, "limit"));
    let decoded = || SubmittedRequest::Request { request: run_request("request") };
    let profile = VersionedRef {
        id: snapshot("run", "request").profile.profile().agent_id.copy(),
        version: snapshot("run", "request").profile.profile().version.copy(),
    };
    let submitted = || {
        Some(RequestSnapshot::capture(profile.copy(), "{}", None, decoded(), &limits()).unwrap())
    };
    let input = || {
        let mut input = admission("run", "request");
        input.submitted = submitted();
        input
    };
    let mut checks = admission_checks("request");
    checks.submitted.request = long.request.copy();
    let mut store = MemoryStateStore::new();
    assert_eq!(error(store.admit_run(&scope(), input(), &checks)).1, "limit");
    checks.submitted.request = None;
    assert!(store.admit_run(&scope(), input(), &checks).unwrap().created);
    let command = || ControlCommand {
        command_id: id("stop"),
        principal_ref: id("operator"),
        action: ControlAction::Stop { cause: InterruptionCause::HostShutdown },
    };
    assert_eq!(error(store.submit_control_command(&scope(), &id("run"), command(), &long)).1, "limit");
    assert!(store.submit_control_command(&scope(), &id("run"), command(), &limits()).is_ok());
    let history = store.read_execution(&scope(), &id("run")).unwrap();
    let run = store.load(&scope(), &id("run")).unwrap().snapshot;
    assert_eq!(error(validate_history(&history, &run, &long)).1, "limit");
    assert!(validate_history(&history, &run, &limits()).is_ok());
}
