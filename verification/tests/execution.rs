use wickle::content::InputContent;
use wickle::data::Data;
use wickle::encoding::encode_input;
use wickle::error::{ContractError, ErrorCode};
use wickle::execution_contracts::{
    AppState, ControlAction, ControlCommand, InterruptionCause, RequestSnapshot, SubmissionLimits,
    SubmittedRequest,
};
use wickle::interruption::{AppStateSchema, InterruptionPlan};
use wickle::json::{Json, member, object, text};
use wickle::profile::{
    AgentProfile, CompletionPolicy, ContextPolicy, Instructions, OutputContract, ProfileLimits,
};
use wickle::refs::{RecordRef, Scope, VersionedRef};
use wickle::resolution::{ComponentKind, ComponentMetadata, ComponentRef, ResolvedProfile};
use wickle::resolution::validator::{ProfileValidator, Resolution, ResolutionOutcome};
use wickle::run::{BudgetUsage, RunLimits, RunPhase, RunRequest, RunSnapshot, RunStatus, RunTiming};
use wickle::serialization::{Id, JsonDigest, canonical_digest};
use wickle::state::execution::{
    advance_history, initial_history, initial_segment_id, segment_id, validate_history,
};
use wickle::state::transition::{TransitionChecks, validate_transition};

fn id(value: &str) -> Id {
    Id::new(value.to_owned()).unwrap()
}

fn error<T>(result: Result<T, ContractError>) -> (ErrorCode, String) {
    match result {
        Ok(_) => panic!("the call succeeded"),
        Err(error) => (error.code, error.path),
    }
}

fn refused(code: ErrorCode, path: &str) -> (ErrorCode, String) {
    (code, path.to_owned())
}

fn digest(value: &str) -> JsonDigest {
    canonical_digest(&text(value))
}

fn scope() -> Scope {
    Scope { tenant_id: id("tenant"), workspace_id: id("workspace"), user_id: None }
}

fn elsewhere() -> Scope {
    Scope { tenant_id: id("other"), workspace_id: id("workspace"), user_id: None }
}

fn versioned(name: &str) -> VersionedRef {
    VersionedRef { id: id(name), version: id("1") }
}

fn record_ref(name: &str) -> RecordRef {
    RecordRef { record_id: id(name), revision: 1, digest: digest(name) }
}

fn profile() -> AgentProfile {
    AgentProfile {
        agent_id: id("agent"),
        version: id("1"),
        model_binding: id("model"),
        model_options: vec![],
        limits: ProfileLimits { max_output_tokens: None },
        connectors: vec![],
        adapters: None,
        tools: vec![],
        skills: vec![],
        context_sources: None,
        hooks: None,
        instructions: Instructions::Inline { text: "help".to_owned() },
        completion_policy: CompletionPolicy::Direct,
        output_contract: OutputContract::Text,
        context_policy: ContextPolicy { strategy: id("window"), version: None, config: None },
        extensions: None,
        digest: digest("profile"),
        defect: None,
    }
}

fn metadata(kind: ComponentKind, name: &str) -> ComponentMetadata {
    ComponentMetadata {
        reference: ComponentRef { kind, id: id(name), version: Some(id("1")) },
        contract_version: 1,
        manifest_digest: digest(name),
        config_schema: object(vec![]),
        dependencies: vec![],
        capabilities: vec![],
        required_capabilities: vec![],
        required_connections: vec![],
        model_name: None,
        hook_position: None,
        exports: vec![],
    }
}

fn model_resolution() -> Resolution {
    Resolution {
        requested: ComponentRef { kind: ComponentKind::ModelBinding, id: id("model"), version: None },
        outcome: ResolutionOutcome::Resolved {
            metadata: metadata(ComponentKind::ModelBinding, "model"),
        },
    }
}

fn resolved() -> ResolvedProfile {
    ProfileValidator::new(vec![model_resolution()]).validate(&profile(), &scope()).unwrap()
}

fn run_request(name: &str) -> RunRequest {
    let input = vec![InputContent::Text { text: "hello".to_owned() }];
    RunRequest {
        request_id: id(name),
        session_id: id("session"),
        input_digest: canonical_digest(&encode_input(&input)),
        input,
        model_options: vec![],
        max_output_tokens: None,
    }
}

fn snapshot(run: &str, request: &str) -> RunSnapshot {
    RunSnapshot {
        run_id: id(run),
        scope: scope(),
        request: run_request(request),
        request_digest: digest(request),
        profile: resolved(),
        system_inputs: None,
        limits: RunLimits {
            max_model_calls: 4,
            max_tool_attempts: 4,
            max_repair_attempts: 1,
            max_recovery_attempts: 2,
            max_elapsed_ms: 60_000,
        },
        revision: 0,
        status: RunStatus::Running,
        phase: RunPhase::Admission,
        usage: BudgetUsage {
            model_calls: 0,
            tool_attempts: 0,
            repair_attempts: 0,
            recovery_attempts: 0,
            elapsed_ms: 0,
        },
        timing: RunTiming { deadline_at_ms: 100_000, last_observed_at_ms: 1_000 },
        reservations: vec![],
        last_event_seq: 1,
        wait: None,
        outcome: None,
        model_ledger: vec![],
        model_step_id: None,
        model_step_inputs: vec![],
        prepared_steps: vec![],
        active_prepared_step: None,
        tool_ledger: vec![],
        resume_receipts: vec![],
        recovery_receipts: vec![],
        hook_plan_ref: None,
        hook_applications: vec![],
        source_plan_ref: None,
        context_batches: vec![],
        source_states: vec![],
        context_revision_ref: None,
        context_decisions: vec![],
        skill_plan_ref: None,
        assembly_ref: None,
        routing_snapshot_ref: None,
        verification_plan_ref: None,
        candidate_ref: None,
        verification_records: vec![],
        interruption_plan_ref: None,
        interruption_records: vec![],
        app_state: None,
        document: Json::Null,
        defect: None,
    }
}

fn checks() -> TransitionChecks {
    TransitionChecks { sources: None, budget: None }
}

#[test]
fn segments_are_named_after_their_revision() {
    assert!(segment_id(&id("run"), 3).same(&segment_id(&id("run"), 3)));
    assert!(!segment_id(&id("run"), 3).same(&segment_id(&id("run"), 4)));
    assert!(!segment_id(&id("run"), 3).same(&segment_id(&id("ru"), 3)));
    assert!(!initial_segment_id(&id("run")).as_str().is_empty());
}

#[test]
fn a_history_starts_with_one_open_segment() {
    let run = snapshot("run", "request");
    let history = initial_history(&run, &id("principal"), &id("grant"), None, &within()).unwrap();
    assert_eq!(history.segments.len(), 1);
    assert!(history.segments[0].outcome.is_none());
    assert!(history.segments[0].segment_id.same(&initial_segment_id(&id("run"))));
    assert!(validate_history(&history, &run, &within()).is_ok());
    assert!(validate_history(&history, &snapshot("other", "request"), &within()).is_err());
    let mut next = run.copy();
    next.revision = 1;
    next.phase = RunPhase::Model;
    let advanced = advance_history(&history, &run, &next, None, &within()).unwrap();
    assert_eq!(advanced.segments.len(), 1);
}

#[test]
fn a_transition_keeps_the_identity_of_a_run() {
    let run = snapshot("run", "request");
    let mut next = run.copy();
    next.revision = 1;
    assert!(validate_transition(&run, &next, &checks()).is_ok());
    let mut renamed = next.copy();
    renamed.run_id = id("other");
    assert_eq!(error(validate_transition(&run, &renamed, &checks())).0, ErrorCode::InvalidTransition);
    let mut skipped = next.copy();
    skipped.revision = 2;
    assert!(validate_transition(&run, &skipped, &checks()).is_err());
    let mut cheaper = next.copy();
    let mut used = run.copy();
    used.usage.elapsed_ms = 5;
    cheaper.usage.elapsed_ms = 4;
    assert!(validate_transition(&used, &cheaper, &checks()).is_err());
    let mut moved = next.copy();
    moved.scope = elsewhere();
    assert!(validate_transition(&run, &moved, &checks()).is_err());
}

#[test]
fn histories_of_a_run_only_grow() {
    let mut run = snapshot("run", "request");
    run.prepared_steps = vec![record_ref("one")];
    let mut next = run.copy();
    next.revision = 1;
    next.prepared_steps = vec![record_ref("two")];
    assert_eq!(
        error(validate_transition(&run, &next, &checks())),
        refused(ErrorCode::InvalidTransition, "prepared.history")
    );
    next.prepared_steps = vec![record_ref("one"), record_ref("two")];
    assert!(validate_transition(&run, &next, &checks()).is_ok());
}

#[test]
fn a_control_command_has_a_digest_of_its_own() {
    let command = |principal: &str| ControlCommand {
        command_id: id("stop"),
        principal_ref: id(principal),
        action: ControlAction::Stop { cause: InterruptionCause::HostShutdown },
    };
    assert!(command("a").digest().same(&command("a").digest()));
    assert!(!command("a").digest().same(&command("b").digest()));
}

#[test]
fn an_interruption_plan_holds_application_state_to_its_schema() {
    let mut plan = InterruptionPlan::capture(None, 500).unwrap();
    assert!(plan.policy.same(&InterruptionPlan::default_identity()));
    assert!(plan.validate().is_ok());
    let state = |size: Json| AppState {
        namespace: id("app"),
        status: id("paused"),
        metadata: vec![member("size", size)],
    };
    assert!(plan.validate_app_state(&state(Json::Null)).is_err());
    plan.app_state_schema = Some(AppStateSchema {
        namespace: id("app"),
        schema: object(vec![member(
            "properties",
            object(vec![member(
                "metadata",
                object(vec![member(
                    "properties",
                    object(vec![member("size", object(vec![member("type", text("integer"))]))]),
                )]),
            )]),
        )]),
    });
    assert!(plan.validate_app_state(&state(Json::Number("3".to_owned()))).is_ok());
    assert_eq!(
        error(plan.validate_app_state(&state(text("three")))),
        refused(ErrorCode::InvalidConfiguration, "interruption.app_state")
    );
}

fn capture(request: &str, inputs: Option<&str>) -> Result<RequestSnapshot, ContractError> {
    let decoded = SubmittedRequest::Request { request: run_request("request") };
    RequestSnapshot::capture(versioned("profile"), request, inputs, decoded, &within())
}

fn within() -> SubmissionLimits {
    SubmissionLimits { request: None, system_inputs: None, submission: None }
}

#[test]
fn a_captured_submission_matches_itself() {
    let one = capture(" { \"b\" : 1.50, \"a\" : [] } ", None).unwrap();
    assert_eq!(one.request_json(), "{\"a\":[],\"b\":1.50}");
    assert_eq!(one.system_inputs_json(), "{}");
    assert!(!one.system_inputs_provided());
    assert!(one.validate(&within()).is_ok());
    assert!(one.matches_submission(&one, &within(), &within()).unwrap());
    let reordered = capture("{\"a\":[],\"b\":1.50}", Some("{}")).unwrap();
    assert!(reordered.system_inputs_provided());
    assert!(one.matches_submission(&reordered, &within(), &within()).unwrap());
    let rounded = capture("{\"a\":[],\"b\":1.5}", None).unwrap();
    assert!(!one.matches_submission(&rounded, &within(), &within()).unwrap());
    assert!(one.digest().as_str().starts_with("wickle-canonical-json-v1:sha256:"));
}

#[test]
fn empty_options_are_omitted_options() {
    let omitted = capture("{\"a\":1}", None).unwrap();
    let empty = capture("{\"a\":1,\"model_options\":{ }}", None).unwrap();
    let given = capture("{\"a\":1,\"model_options\":{\"k\":1}}", None).unwrap();
    assert!(omitted.digest().same(empty.digest()));
    assert!(!omitted.digest().same(given.digest()));
}

#[test]
fn other_submissions_are_refused() {
    assert_eq!(error(capture("{\"a\":1,\"a\":1}", None)), (ErrorCode::InvalidJson, "$".to_owned()));
    assert_eq!(error(capture("{", None)).0, ErrorCode::InvalidJson);
    assert_eq!(error(capture("{}", Some("{"))).0, ErrorCode::InvalidJson);
    assert_eq!(error(capture("[]", None)).1, "request_snapshot.object");
    assert_eq!(error(capture("{}", Some("1"))).1, "request_snapshot.object");
    assert_eq!(error(capture("{\"model_options\":1}", None)).1, "request_snapshot.model_options");
}

#[test]
fn a_submission_over_a_limit_is_refused() {
    let decoded = || SubmittedRequest::Request { request: run_request("request") };
    let long = || refused(ErrorCode::InvalidJson, "limit");
    let over = |limits: SubmissionLimits| {
        error(RequestSnapshot::capture(versioned("profile"), "{}", None, decoded(), &limits))
    };
    let limit = || Some(ContractError::new(ErrorCode::InvalidJson, "limit"));
    assert_eq!(over(SubmissionLimits { request: limit(), ..within() }), long());
    assert_eq!(over(SubmissionLimits { system_inputs: limit(), ..within() }), long());
    assert_eq!(over(SubmissionLimits { submission: limit(), ..within() }), long());
    let captured = capture("{}", None).unwrap();
    let limits = SubmissionLimits { submission: limit(), ..within() };
    assert_eq!(error(captured.validate(&limits)), long());
    assert_eq!(error(captured.matches_submission(&captured, &within(), &limits)), long());
    assert_eq!(error(captured.matches_submission(&captured, &limits, &within())), long());
}

#[test]
fn inputs_are_compared_by_the_numbers_that_they_hold() {
    let one = capture("{}", Some("{\"a\":1.50}")).unwrap();
    let same = capture("{}", Some("{\"a\":1.5}")).unwrap();
    assert!(!one.matches_submission(&same, &within(), &within()).unwrap());
    assert!(one.system_digest().same(&same.system_digest()));
    let stored = RequestSnapshot::stored(
        versioned("profile"),
        object(vec![]),
        object(vec![member("a", Json::Number("1.50".to_owned()))]),
        true,
        SubmittedRequest::Request { request: run_request("request") },
        one.digest().copy(),
    );
    assert!(stored.validate(&within()).is_ok());
    assert!(stored.system_digest().same(&one.system_digest()));
    let none = RequestSnapshot::stored(
        versioned("profile"),
        object(vec![]),
        object(vec![member("a", Json::Number("one".to_owned()))]),
        true,
        SubmittedRequest::Request { request: run_request("request") },
        one.digest().copy(),
    );
    assert_eq!(error(none.validate(&within())), refused(ErrorCode::InvalidJson, "$"));
}

#[test]
fn a_running_checkpoint_becomes_a_recovery_record() {
    let run = snapshot("run", "request");
    let record = run.recovery_record(id("recovery")).unwrap();
    assert_eq!(record.reference().record_id.as_str(), "recovery");
    assert_eq!(record.reference().revision, 1);
    assert!(record.reference().digest.same(&canonical_digest(&run.document)));
    let mut ended = snapshot("run", "request");
    ended.status = RunStatus::Cancelled;
    assert_eq!(error(ended.recovery_record(id("recovery"))).1, "recovery.source_status");
}
