use wickle::content::InputContent;
use wickle::data::Data;
use wickle::encoding::encode_input;
use wickle::error::{ContractError, ErrorCode};
use wickle::json::{Json, member, object, text};
use wickle::model::{
    ApiContract, ModelAttemptState, ModelFailureKind, ModelFinish, ModelInvocationRecord,
    ModelProtocolError, ModelPurpose, ModelRequest, ModelResponse, ModelResponseMetadata,
    ResolvedModelRoute, RouteRequest, RoutedModelInput, VersionPolicy, VersionSemantics,
};
use wickle::model_execution::{
    AttemptEnd, ExchangeStep, ModelExchange, ModelExchangeOutcome, ModelRetryPolicy, PortResolution,
    Settlement, attempt_reason, check_unrouted, physical_request, record_end, resolve_model,
    resolve_route, response_record, validate,
};
use wickle::model_execution::prepared::{ProjectedModelRequest, load_preparation, save_preparation};
use wickle::model_options::ModelConfiguration;
use wickle::model_routing::{RouteSelection, RouteSelectionReason};
use wickle::prepared_step::ProjectionProvenance;
use wickle::profile::{
    AgentProfile, CompletionPolicy, ContextPolicy, Instructions, OutputContract, ProfileLimits,
};
use wickle::refs::{RecordRef, Scope, VersionedRef};
use wickle::resolution::{ComponentKind, ComponentMetadata, ComponentRef, ResolvedProfile};
use wickle::resolution::validator::{ProfileValidator, Resolution, ResolutionOutcome};
use wickle::run::{BudgetUsage, RunLimits, RunPhase, RunRequest, RunSnapshot, RunStatus, RunTiming};
use wickle::serialization::{Id, JsonDigest, canonical_digest, canonical_json};
use wickle::state::records::{ProtectedRecord, RecordContent, SavedStep};
use wickle::state::scope::RunLease;

fn id(value: &str) -> Id {
    Id::new(value.to_owned()).unwrap()
}

fn error<T>(result: Result<T, ContractError>) -> (ErrorCode, String) {
    match result {
        Ok(_) => panic!("the call succeeded"),
        Err(error) => (error.code, error.path),
    }
}

fn refused(code: ErrorCode, path: &str) -> (ErrorCode, String) {
    (code, path.to_owned())
}

fn digest(value: &str) -> JsonDigest {
    canonical_digest(&text(value))
}

fn scope() -> Scope {
    Scope { tenant_id: id("tenant"), workspace_id: id("workspace"), user_id: None }
}

fn elsewhere() -> Scope {
    Scope { tenant_id: id("other"), workspace_id: id("workspace"), user_id: None }
}

fn record_ref(name: &str) -> RecordRef {
    RecordRef { record_id: id(name), revision: 1, digest: digest(name) }
}

fn record(name: &str, content: RecordContent) -> ProtectedRecord {
    ProtectedRecord::new(id(name), 1, text(name), content)
}

fn profile() -> AgentProfile {
    AgentProfile {
        agent_id: id("agent"),
        version: id("1"),
        model_binding: id("model"),
        model_options: vec![],
        limits: ProfileLimits { max_output_tokens: None },
        connectors: vec![],
        adapters: None,
        tools: vec![],
        skills: vec![],
        context_sources: None,
        hooks: None,
        instructions: Instructions::Inline { text: "help".to_owned() },
        completion_policy: CompletionPolicy::Direct,
        output_contract: OutputContract::Text,
        context_policy: ContextPolicy { strategy: id("window"), version: None, config: None },
        extensions: None,
        digest: digest("profile"),
        defect: None,
    }
}

fn metadata(kind: ComponentKind, name: &str) -> ComponentMetadata {
    ComponentMetadata {
        reference: ComponentRef { kind, id: id(name), version: Some(id("1")) },
        contract_version: 1,
        manifest_digest: digest(name),
        config_schema: object(vec![]),
        dependencies: vec![],
        capabilities: vec![],
        required_capabilities: vec![],
        required_connections: vec![],
        model_name: None,
        hook_position: None,
        exports: vec![],
    }
}

fn model_resolution() -> Resolution {
    Resolution {
        requested: ComponentRef { kind: ComponentKind::ModelBinding, id: id("model"), version: None },
        outcome: ResolutionOutcome::Resolved {
            metadata: metadata(ComponentKind::ModelBinding, "model"),
        },
    }
}

fn resolved() -> ResolvedProfile {
    ProfileValidator::new(vec![model_resolution()]).validate(&profile(), &scope()).unwrap()
}

fn run_request(name: &str) -> RunRequest {
    let input = vec![InputContent::Text { text: "hello".to_owned() }];
    RunRequest {
        request_id: id(name),
        session_id: id("session"),
        input_digest: canonical_digest(&encode_input(&input)),
        input,
        model_options: vec![],
        max_output_tokens: None,
    }
}

fn snapshot(run: &str, request: &str) -> RunSnapshot {
    RunSnapshot {
        run_id: id(run),
        scope: scope(),
        request: run_request(request),
        request_digest: digest(request),
        profile: resolved(),
        system_inputs: None,
        limits: RunLimits {
            max_model_calls: 4,
            max_tool_attempts: 4,
            max_repair_attempts: 1,
            max_recovery_attempts: 2,
            max_elapsed_ms: 60_000,
        },
        revision: 0,
        status: RunStatus::Running,
        phase: RunPhase::Admission,
        usage: BudgetUsage {
            model_calls: 0,
            tool_attempts: 0,
            repair_attempts: 0,
            recovery_attempts: 0,
            elapsed_ms: 0,
        },
        timing: RunTiming { deadline_at_ms: 100_000, last_observed_at_ms: 1_000 },
        reservations: vec![],
        last_event_seq: 1,
        wait: None,
        outcome: None,
        model_ledger: vec![],
        model_step_id: None,
        model_step_inputs: vec![],
        prepared_steps: vec![],
        active_prepared_step: None,
        tool_ledger: vec![],
        resume_receipts: vec![],
        recovery_receipts: vec![],
        hook_plan_ref: None,
        hook_applications: vec![],
        source_plan_ref: None,
        context_batches: vec![],
        source_states: vec![],
        context_revision_ref: None,
        context_decisions: vec![],
        skill_plan_ref: None,
        assembly_ref: None,
        routing_snapshot_ref: None,
        verification_plan_ref: None,
        candidate_ref: None,
        verification_records: vec![],
        interruption_plan_ref: None,
        interruption_records: vec![],
        app_state: None,
        document: Json::Null,
        defect: None,
    }
}

fn lease() -> RunLease {
    RunLease {
        scope: scope(),
        run_id: id("run"),
        owner: id("worker"),
        fencing_token: 1,
        expires_at_ms: 10_000,
    }
}

fn versioned(name: &str) -> VersionedRef {
    VersionedRef { id: id(name), version: id("1") }
}

fn route() -> ResolvedModelRoute {
    ResolvedModelRoute {
        binding: versioned("binding"),
        catalog_revision: id("c1"),
        routing_policy_revision: id("p1"),
        requested_model: id("model"),
        model_id: id("model-a"),
        model_version: id("7"),
        version_semantics: VersionSemantics::Pinned,
        provider: id("provider"),
        target: vec![],
        deployment_revision: None,
        api_contract: ApiContract { name: id("chat"), version: id("1") },
        adapter: versioned("adapter"),
        capability_revision: id("cap1"),
        connection_ref: versioned("connection"),
    }
}

fn model_request() -> ModelRequest {
    ModelRequest {
        request_id: id("step-1"),
        purpose: ModelPurpose::Agent,
        route: route(),
        messages: vec![],
        tools: vec![],
        options: vec![],
        max_output_tokens: 64,
        document: vec![],
        defect: None,
    }
}

fn nothing_reported() -> ModelResponseMetadata {
    ModelResponseMetadata {
        provider_request_id: None,
        reported_model_id: None,
        reported_model_version: None,
        usage: None,
    }
}

fn exchange(max_retries: u32) -> ModelExchange<u8, u8, u8, u8> {
    ModelExchange::new(1, 2).with_retry_policy(ModelRetryPolicy { max_retries, backoff_ms: 25 })
}

fn response() -> ModelResponse {
    ModelResponse {
        request_id: id("attempt-1"),
        route_digest: route().digest(),
        continuation: vec![],
        finish: ModelFinish::Stop,
        text: "done".to_owned(),
        tool_calls: vec![],
        metadata: nothing_reported(),
    }
}

fn failed(kind: ModelFailureKind) -> AttemptEnd {
    AttemptEnd::Failed { failure: ModelProtocolError { kind, metadata: nothing_reported() } }
}

fn invocation(attempt: &str) -> ModelInvocationRecord {
    ModelInvocationRecord {
        run_id: id("run"),
        model_step_id: id("step-1"),
        attempt_id: id(attempt),
        purpose: ModelPurpose::Agent,
        route: route(),
        selection_reason: id("requested_route"),
        configuration: None,
        prepared_step_ref: None,
        request_digest: digest("request"),
        inspection_ref: None,
        state: ModelAttemptState::Reserved,
        response_ref: None,
        provider_request_id: None,
        reported_model_id: None,
        reported_model_version: None,
        usage: None,
    }
}

fn known() -> Settlement {
    Settlement::Known { elapsed_ms: 70, now_ms: 2_000 }
}

fn configuration() -> ModelConfiguration {
    ModelConfiguration {
        requested: vec![],
        effective: vec![],
        sources: vec![],
        model_schema_revision: id("m1"),
        binding_schema_revision: id("b1"),
        requested_max_output_tokens: 64,
        max_output_tokens: 64,
    }
}

fn input() -> RoutedModelInput {
    RoutedModelInput {
        model_step_id: id("step-1"),
        routing: RouteRequest {
            scope: scope(),
            model_binding: id("model"),
            purpose: ModelPurpose::Agent,
            required_capabilities: vec![],
            options: vec![],
            input_tokens: 10,
            max_output_tokens: 64,
            version_policy: VersionPolicy::AllowMutable,
            previous_route: None,
            previous_failure: None,
            allowed_bindings: vec![],
        },
    }
}

fn prepared() -> ProjectedModelRequest {
    ProjectedModelRequest {
        request: model_request(),
        input_tokens: 10,
        provenance: ProjectionProvenance {
            context_revision_ref: None,
            through_sequence: 0,
            source_batches: vec![],
            source_lineage: vec![],
            artifacts: vec![],
            fragments: vec![],
            selected_message_ids: vec![],
            dropped_message_ids: vec![],
            selected_context_ids: vec![],
            dropped_context_ids: vec![],
        },
        tool_set: vec![],
        compiled_tools: vec![],
    }
}

fn selection() -> RouteSelection {
    RouteSelection {
        route: route(),
        reason: RouteSelectionReason::Initial,
        candidate_index: 0,
        routing_snapshot_digest: digest("routing"),
        request_digest: digest("request"),
    }
}

fn step_record(through_sequence: Option<u64>) -> ProtectedRecord {
    record(
        "step-input",
        RecordContent::Step(SavedStep {
            schema_version: "1".to_owned(),
            run_id: id("run"),
            through_sequence,
            input: input(),
        }),
    )
}

#[test]
fn an_exchange_starts_without_retries() {
    let single: ModelExchange<u8, u8, u8, u8> = ModelExchange::new(1, 2);
    assert_eq!(single.retry.max_retries, 0);
    assert!(single.inspector.is_none());
    let dispatched: ModelExchange<u8, u8, u8, u8> = ModelExchange::with_dispatcher(3, 2);
    assert!(matches!(
        dispatched.next_step(0, failed(ModelFailureKind::Timeout)).unwrap(),
        ExchangeStep::Finish { .. }
    ));
}

#[test]
fn an_inspector_has_time() {
    assert_eq!(
        error(exchange(0).with_route_inspector(9, 0)),
        refused(ErrorCode::InvalidConfiguration, "model.inspection_timeout")
    );
    let inspected = exchange(3).with_route_inspector(9, 1).unwrap();
    assert_eq!(inspected.inspector.unwrap().timeout_nanos, 1);
    assert_eq!(inspected.retry.max_retries, 3);
}

#[test]
fn recoverable_failures_are_retried_up_to_the_limit() {
    let exchange = exchange(2);
    for number in 0..2 {
        match exchange.next_step(number, failed(ModelFailureKind::RateLimited)).unwrap() {
            ExchangeStep::Retry { backoff_ms } => assert_eq!(backoff_ms, 25),
            ExchangeStep::Finish { .. } => panic!("retries are left"),
        }
    }
    assert!(matches!(
        exchange.next_step(2, failed(ModelFailureKind::RateLimited)).unwrap(),
        ExchangeStep::Finish { outcome: ModelExchangeOutcome::Failed { .. } }
    ));
    assert!(matches!(
        exchange.next_step(0, failed(ModelFailureKind::Rejected)).unwrap(),
        ExchangeStep::Finish { outcome: ModelExchangeOutcome::Failed { .. } }
    ));
    assert!(matches!(
        exchange.next_step(0, AttemptEnd::Completed { response: response() }).unwrap(),
        ExchangeStep::Finish { outcome: ModelExchangeOutcome::Completed { .. } }
    ));
}

#[test]
fn attempts_without_a_response_are_errors() {
    let exchange = exchange(2);
    assert_eq!(
        error(exchange.next_step(0, AttemptEnd::Cancelled)),
        refused(ErrorCode::Cancelled, "model")
    );
    assert_eq!(
        error(exchange.next_step(0, AttemptEnd::Stopped { error: None })),
        refused(ErrorCode::DeadlineExceeded, "model.deadline")
    );
    assert_eq!(
        error(exchange.next_step(0, AttemptEnd::Panicked)),
        refused(ErrorCode::InvalidContract, "model.adapter")
    );
    let stopped = ContractError::new(ErrorCode::BudgetExceeded, "budget");
    assert_eq!(
        error(exchange.next_step(0, AttemptEnd::Stopped { error: Some(stopped) })),
        refused(ErrorCode::BudgetExceeded, "budget")
    );
}

#[test]
fn requests_go_to_the_bound_adapter_of_their_scope() {
    let request = model_request();
    assert!(validate(&request, &scope(), &scope(), true).is_ok());
    assert_eq!(
        error(validate(&request, &elsewhere(), &scope(), true)),
        refused(ErrorCode::AccessDenied, "scope")
    );
    let unbound = PortResolution::Resolved { is_bound: false };
    assert_eq!(
        error(resolve_model(&request, &scope(), &scope(), &unbound)),
        refused(ErrorCode::InvalidReference, "model.binding")
    );
    assert_eq!(
        error(resolve_route(&unbound)),
        refused(ErrorCode::ModelBindingInvalid, "model.binding")
    );
    assert_eq!(
        error(resolve_model(&request, &scope(), &scope(), &PortResolution::Panicked)),
        refused(ErrorCode::ComponentUnavailable, "model.dispatcher")
    );
    let mut routed = snapshot("run", "request");
    assert!(check_unrouted(&routed).is_ok());
    routed.routing_snapshot_ref = Some(record_ref("routing"));
    assert_eq!(
        error(check_unrouted(&routed)),
        refused(ErrorCode::ModelRoutingMismatch, "model.routing_required")
    );
}

#[test]
fn a_retry_names_itself() {
    assert_eq!(attempt_reason(0, &None).as_str(), "requested_route");
    assert_eq!(attempt_reason(0, &Some(id("initial"))).as_str(), "initial");
    assert_eq!(attempt_reason(1, &Some(id("initial"))).as_str(), "same_route_retry");
}

#[test]
fn a_physical_request_carries_its_attempt() {
    let mut request = model_request();
    request.document = vec![member("purpose", text("agent")), member("request_id", text("step-1"))];
    let physical = physical_request(&request, &id("attempt-1"));
    assert_eq!(physical.request_id.as_str(), "attempt-1");
    assert_eq!(
        canonical_json(&object(physical.document)),
        "{\"purpose\":\"agent\",\"request_id\":\"attempt-1\"}"
    );
    assert!(physical.route.same(&request.route));
}

#[test]
fn the_end_of_an_attempt_is_recorded_once() {
    let mut run = snapshot("run", "request");
    run.model_ledger = vec![invocation("attempt-0"), invocation("attempt-1")];
    let end = AttemptEnd::Completed { response: response() };
    let outcome = ModelExchangeOutcome::Completed { response: response() };
    let stored = response_record(&id("attempt-1"), &route(), outcome, text("encoded"));
    assert_eq!(stored.reference().record_id.as_str(), "model-response-attempt-1");
    let reference = stored.reference().copy();
    let commit = record_end(run.copy(), &lease(), &id("attempt-1"), &end, Some(stored), &known()).unwrap();
    assert_eq!(commit.expected_revision, 0);
    assert_eq!(commit.snapshot.revision, 1);
    assert_eq!(commit.snapshot.usage.elapsed_ms, 70);
    assert_eq!(commit.now_ms, 2_000);
    assert_eq!(commit.records.len(), 1);
    assert!(commit.snapshot.model_ledger[0].same(&invocation("attempt-0")));
    let ended = &commit.snapshot.model_ledger[1];
    assert!(matches!(ended.state, ModelAttemptState::Completed));
    assert!(ended.response_ref.as_ref().unwrap().same(&reference));
    assert_eq!(
        error(record_end(run.copy(), &lease(), &id("none"), &end, None, &known())),
        refused(ErrorCode::InvalidSnapshot, "model.attempt")
    );
    let unknown = record_end(run, &lease(), &id("attempt-1"), &AttemptEnd::Panicked, None, &known());
    assert!(matches!(
        unknown.unwrap().snapshot.model_ledger[1].state,
        ModelAttemptState::Unknown
    ));
}

#[test]
fn revisions_and_clocks_can_refuse() {
    let mut run = snapshot("run", "request");
    run.model_ledger = vec![invocation("attempt-1")];
    run.revision = u64::MAX;
    assert_eq!(
        error(record_end(run.copy(), &lease(), &id("attempt-1"), &AttemptEnd::Panicked, None, &known())),
        refused(ErrorCode::RevisionConflict, "model.ledger")
    );
    let clock = Settlement::Refused { error: ContractError::new(ErrorCode::ClockUnavailable, "clock") };
    assert_eq!(
        error(record_end(run, &lease(), &id("attempt-1"), &AttemptEnd::Panicked, None, &clock)),
        refused(ErrorCode::ClockUnavailable, "clock")
    );
}

#[test]
fn a_saved_preparation_is_found_again() {
    let step = step_record(Some(3));
    let mut run = snapshot("run", "request");
    run.model_step_inputs = vec![step.reference().copy()];
    let mut records = vec![step];
    assert!(load_preparation(&input(), &route(), &configuration(), &run, &records).unwrap().is_none());
    let saved = save_preparation(
        run.copy(),
        &records,
        &prepared(),
        &configuration(),
        &selection(),
        &id("initial"),
        &lease(),
        &known(),
    )
    .unwrap();
    assert_eq!(saved.input.records.len(), 4);
    assert_eq!(saved.stored.projection.provenance.through_sequence, 3);
    let next = saved.input.snapshot.copy();
    assert_eq!(next.model_step_id.as_ref().unwrap().as_str(), "step-1");
    assert!(next.active_prepared_step.as_ref().unwrap().same(&saved.stored.reference));
    assert!(saved.stored.reference.record_id.as_str().ends_with("-step"));
    assert!(saved.stored.reference.record_id.as_str().starts_with(
        "prepared-sorted-json-v1:sha256:b33d747cdae962124c249fa389f7d8fd31a956a6dfc325bd0845cea9cb07007a"
    ));
    for record in &saved.input.records {
        records.push(record.copy());
    }
    let found = load_preparation(&input(), &route(), &configuration(), &next, &records).unwrap().unwrap();
    assert!(found.same(&saved.stored));
    let mut other = route();
    other.model_version = id("8");
    assert!(load_preparation(&input(), &other, &configuration(), &next, &records).unwrap().is_none());
    let mut changed = configuration();
    changed.max_output_tokens = 32;
    assert_eq!(
        error(load_preparation(&input(), &route(), &changed, &next, &records)),
        refused(ErrorCode::RequestConflict, "prepared.configuration")
    );
    let again = save_preparation(
        next,
        &records,
        &prepared(),
        &configuration(),
        &selection(),
        &id("reuse"),
        &lease(),
        &known(),
    )
    .unwrap();
    let root = again.input.records.last().unwrap();
    match root.content() {
        RecordContent::PreparedStep(root) => assert_eq!(root.projection_revision, 2),
        _ => panic!("the last record is the root"),
    }
}

#[test]
fn a_preparation_needs_its_step_input() {
    let save = |records: Vec<ProtectedRecord>, run: wickle::run::RunSnapshot| {
        save_preparation(
            run,
            &records,
            &prepared(),
            &configuration(),
            &selection(),
            &id("initial"),
            &lease(),
            &known(),
        )
    };
    assert_eq!(
        error(save(vec![], snapshot("run", "request"))),
        refused(ErrorCode::RevisionConflict, "model.ledger")
    );
    let open = step_record(None);
    let mut run = snapshot("run", "request");
    run.model_step_inputs = vec![open.reference().copy()];
    assert_eq!(error(save(vec![open], run)), refused(ErrorCode::RevisionConflict, "model.ledger"));
}

#[test]
fn a_missing_record_stops_the_search() {
    let mut run = snapshot("run", "request");
    run.prepared_steps = vec![record_ref("prepared")];
    assert_eq!(
        error(load_preparation(&input(), &route(), &configuration(), &run, &vec![])),
        refused(ErrorCode::RevisionConflict, "model.ledger")
    );
}
