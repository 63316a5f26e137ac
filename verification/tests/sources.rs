use wickle::content::{InputContent, Message, MessageOrigin, MessageRole, Visibility};
use wickle::context::{
    CatalogSource, ContextBinding, ContextItem, ContextLifetime, ContextOrigin, ContextPriority,
    ContextSourceDefinition, ContextSourceRef, ContextTrigger,
};
use wickle::context_source::records::{
    ContextBatch, ContextRequest, ContextResult, ContextSourcePlan, ContextSourceRegistration,
    ContextSourceRegistry, Estimate, encode_source_plan, validate_result,
};
use wickle::context_source::runtime::{
    ContextSourceRuntime, PolicyVerdict, ProvideRace, SourceStep, check_deletions, check_use_end,
    later_runs, next_source, required_available, save_batch, settle_policy, settle_provided,
    triggered, use_timeout_ms,
};
use wickle::data::Data;
use wickle::encoding::encode_input;
use wickle::error::{ContractError, ErrorCode};
use wickle::json::{Json, object, text};
use wickle::model::{ApiContract, ResolvedModelRoute, VersionSemantics};
use wickle::profile::{
    AgentProfile, CompletionPolicy, ContextPolicy, Instructions, OutputContract, ProfileLimits,
};
use wickle::refs::{RecordRef, Scope, VersionedRef};
use wickle::resolution::{ComponentKind, ComponentMetadata, ComponentRef, ResolvedProfile};
use wickle::resolution::validator::{ProfileValidator, Resolution, ResolutionOutcome};
use wickle::run::{BudgetUsage, RunLimits, RunPhase, RunRequest, RunSnapshot, RunStatus, RunTiming};
use wickle::serialization::{Id, JsonDigest, canonical_digest, canonical_json};

fn id(value: &str) -> Id {
    Id::new(value.to_owned()).unwrap()
}

fn error<T>(result: Result<T, ContractError>) -> (ErrorCode, String) {
    match result {
        Ok(_) => panic!("the call succeeded"),
        Err(error) => (error.code, error.path),
    }
}

fn refused(code: ErrorCode, path: &str) -> (ErrorCode, String) {
    (code, path.to_owned())
}

fn digest(value: &str) -> JsonDigest {
    canonical_digest(&text(value))
}

fn scope() -> Scope {
    Scope { tenant_id: id("tenant"), workspace_id: id("workspace"), user_id: None }
}

fn elsewhere() -> Scope {
    Scope { tenant_id: id("other"), workspace_id: id("workspace"), user_id: None }
}

fn versioned(name: &str) -> VersionedRef {
    VersionedRef { id: id(name), version: id("1") }
}

fn record_ref(name: &str) -> RecordRef {
    RecordRef { record_id: id(name), revision: 1, digest: digest(name) }
}

fn profile() -> AgentProfile {
    AgentProfile {
        agent_id: id("agent"),
        version: id("1"),
        model_binding: id("model"),
        model_options: vec![],
        limits: ProfileLimits { max_output_tokens: None },
        connectors: vec![],
        adapters: None,
        tools: vec![],
        skills: vec![],
        context_sources: None,
        hooks: None,
        instructions: Instructions::Inline { text: "help".to_owned() },
        completion_policy: CompletionPolicy::Direct,
        output_contract: OutputContract::Text,
        context_policy: ContextPolicy { strategy: id("window"), version: None, config: None },
        extensions: None,
        digest: digest("profile"),
        defect: None,
    }
}

fn metadata(kind: ComponentKind, name: &str) -> ComponentMetadata {
    ComponentMetadata {
        reference: ComponentRef { kind, id: id(name), version: Some(id("1")) },
        contract_version: 1,
        manifest_digest: digest(name),
        config_schema: object(vec![]),
        dependencies: vec![],
        capabilities: vec![],
        required_capabilities: vec![],
        required_connections: vec![],
        model_name: None,
        hook_position: None,
        exports: vec![],
    }
}

fn model_resolution() -> Resolution {
    Resolution {
        requested: ComponentRef { kind: ComponentKind::ModelBinding, id: id("model"), version: None },
        outcome: ResolutionOutcome::Resolved {
            metadata: metadata(ComponentKind::ModelBinding, "model"),
        },
    }
}

fn resolved() -> ResolvedProfile {
    ProfileValidator::new(vec![model_resolution()]).validate(&profile(), &scope()).unwrap()
}

fn run_request(name: &str) -> RunRequest {
    let input = vec![InputContent::Text { text: "hello".to_owned() }];
    RunRequest {
        request_id: id(name),
        session_id: id("session"),
        input_digest: canonical_digest(&encode_input(&input)),
        input,
        model_options: vec![],
        max_output_tokens: None,
    }
}

fn snapshot(run: &str, request: &str) -> RunSnapshot {
    RunSnapshot {
        run_id: id(run),
        scope: scope(),
        request: run_request(request),
        request_digest: digest(request),
        profile: resolved(),
        system_inputs: None,
        limits: RunLimits {
            max_model_calls: 4,
            max_tool_attempts: 4,
            max_repair_attempts: 1,
            max_recovery_attempts: 2,
            max_elapsed_ms: 60_000,
        },
        revision: 0,
        status: RunStatus::Running,
        phase: RunPhase::Admission,
        usage: BudgetUsage {
            model_calls: 0,
            tool_attempts: 0,
            repair_attempts: 0,
            recovery_attempts: 0,
            elapsed_ms: 0,
        },
        timing: RunTiming { deadline_at_ms: 100_000, last_observed_at_ms: 1_000 },
        reservations: vec![],
        last_event_seq: 1,
        wait: None,
        outcome: None,
        model_ledger: vec![],
        model_step_id: None,
        model_step_inputs: vec![],
        prepared_steps: vec![],
        active_prepared_step: None,
        tool_ledger: vec![],
        resume_receipts: vec![],
        recovery_receipts: vec![],
        hook_plan_ref: None,
        hook_applications: vec![],
        source_plan_ref: None,
        context_batches: vec![],
        source_states: vec![],
        context_revision_ref: None,
        context_decisions: vec![],
        skill_plan_ref: None,
        assembly_ref: None,
        routing_snapshot_ref: None,
        verification_plan_ref: None,
        candidate_ref: None,
        verification_records: vec![],
        interruption_plan_ref: None,
        interruption_records: vec![],
        app_state: None,
        document: Json::Null,
        defect: None,
    }
}

fn route() -> ResolvedModelRoute {
    ResolvedModelRoute {
        binding: versioned("binding"),
        catalog_revision: id("c1"),
        routing_policy_revision: id("p1"),
        requested_model: id("model"),
        model_id: id("model-a"),
        model_version: id("7"),
        version_semantics: VersionSemantics::Pinned,
        provider: id("provider"),
        target: vec![],
        deployment_revision: None,
        api_contract: ApiContract { name: id("chat"), version: id("1") },
        adapter: versioned("adapter"),
        capability_revision: id("cap1"),
        connection_ref: versioned("connection"),
    }
}

fn source() -> ContextSourceRef {
    ContextSourceRef::Catalog(CatalogSource { source_id: id("notes"), version: id("1") })
}

fn binding() -> ContextBinding {
    ContextBinding {
        source: source(),
        trigger: ContextTrigger::RunStart,
        required: true,
        timeout_ms: 250,
        max_items: 2,
        max_bytes: 2_000,
        max_tokens: 100,
    }
}

fn sourced() -> AgentProfile {
    let mut given = profile();
    given.context_sources = Some(vec![binding()]);
    given
}

fn runtime() -> ContextSourceRuntime {
    let registry = ContextSourceRegistry::new(
        scope(),
        vec![ContextSourceRegistration {
            selection: source(),
            definition: ContextSourceDefinition {
                source: versioned("notes"),
                origin: ContextOrigin::Retrieval,
                document: text("notes"),
                defect: None,
            },
        }],
    )
    .unwrap();
    ContextSourceRuntime::new(registry, Some(versioned("estimator"))).unwrap()
}

fn item(name: &str) -> ContextItem {
    ContextItem::new(
        id(name),
        ContextOrigin::Retrieval,
        versioned("notes"),
        scope(),
        vec![InputContent::Text { text: name.to_owned() }],
        ContextLifetime::Run { run_id: id("run") },
        ContextPriority::Preferred,
    )
}

fn empty() -> ContextResult {
    ContextResult::Empty { source_revision: None }
}

#[test]
fn sources_are_planned_for_a_profile() {
    let runtime = runtime();
    let plan = runtime.plan(&sourced()).unwrap();
    assert_eq!(triggered(&plan, ContextTrigger::RunStart).len(), 1);
    assert!(triggered(&plan, ContextTrigger::BeforeModel).is_empty());
    assert!(runtime.scope().same(&scope()));
    assert!(runtime.check_scope(&elsewhere()).is_err());
    assert!(runtime.check_provider(&source()).is_ok());
}

#[test]
fn a_saved_query_is_not_asked_again() {
    let plan = runtime().plan(&sourced()).unwrap();
    let entry = &plan.bindings()[0];
    let run = snapshot("run", "request");
    assert!(matches!(
        next_source(&run, entry, ContextTrigger::RunStart, &None),
        SourceStep::Query
    ));
    let request = ContextRequest::for_run(&run, entry, None).unwrap();
    let batch = ContextBatch::new(
        id("batch"),
        request,
        empty(),
        1_000,
        versioned("estimator"),
        Estimate::Tokens(0),
        &vec![],
    )
    .unwrap();
    let next =
        save_batch(run, &batch, entry, ContextTrigger::RunStart, &None, 5, 2_000).unwrap();
    assert_eq!(next.revision, 1);
    assert_eq!(next.context_batches.len(), 1);
    assert!(matches!(
        next_source(&next, entry, ContextTrigger::RunStart, &None),
        SourceStep::Reuse { .. }
    ));
    assert_eq!(
        error(save_batch(next, &batch, entry, ContextTrigger::RunStart, &None, 5, 2_000)),
        refused(ErrorCode::RevisionConflict, "context_source.query")
    );
}

#[test]
fn a_required_source_must_answer() {
    let plan = runtime().plan(&sourced()).unwrap();
    let entry = &plan.bindings()[0];
    let request = ContextRequest::for_run(&snapshot("run", "request"), entry, None).unwrap();
    let silent = ContextResult::Unavailable {
        code: id("offline"),
        source_revision: None,
        reported_usage: None,
    };
    let batch = ContextBatch::new(
        id("batch"),
        request,
        silent,
        1_000,
        versioned("estimator"),
        Estimate::Tokens(0),
        &vec![],
    )
    .unwrap();
    assert!(required_available(&batch).is_err());
}

#[test]
fn a_result_stays_within_its_slot() {
    let plan = runtime().plan(&sourced()).unwrap();
    let request =
        ContextRequest::for_run(&snapshot("run", "request"), &plan.bindings()[0], None).unwrap();
    let ready = |items: Vec<ContextItem>| ContextResult::Ready {
        items,
        source_revision: None,
        item_revisions: vec![],
    };
    assert!(validate_result(&request, &empty()).is_ok());
    assert!(validate_result(&request, &ready(vec![item("a"), item("b"), item("c")])).is_err());
    assert!(validate_result(&request, &ready(vec![item("a"), item("a")])).is_err());
}

#[test]
fn policies_and_races_are_settled() {
    assert!(settle_policy(PolicyVerdict::Allow).is_ok());
    assert_eq!(
        error(settle_policy(PolicyVerdict::Deny)),
        refused(ErrorCode::AccessDenied, "context_source.policy")
    );
    assert!(settle_provided(ProvideRace::Cancelled).is_err());
    assert!(matches!(
        settle_provided(ProvideRace::Returned { result: empty() }).unwrap(),
        ContextResult::Empty { .. }
    ));
    assert!(check_use_end(true, false).is_err());
    assert!(check_use_end(false, true).is_err());
    assert!(check_use_end(false, false).is_ok());
}

#[test]
fn a_use_has_the_time_of_its_binding() {
    let plan = runtime().plan(&sourced()).unwrap();
    let request =
        ContextRequest::for_run(&snapshot("run", "request"), &plan.bindings()[0], None).unwrap();
    let batch = ContextBatch::new(
        id("batch"),
        request,
        empty(),
        1_000,
        versioned("estimator"),
        Estimate::Tokens(0),
        &vec![],
    )
    .unwrap();
    assert!(batch.validate_fragment_history(&vec![]).is_ok());
    assert!(batch.validate_fragment_history(&vec![batch.copy()]).is_err());
    assert_eq!(use_timeout_ms(&batch, 1_000), 250);
    assert_eq!(use_timeout_ms(&batch, 100), 100);
}

#[test]
fn a_withdrawn_item_is_not_used_again() {
    let plan = runtime().plan(&sourced()).unwrap();
    let request =
        ContextRequest::for_run(&snapshot("run", "request"), &plan.bindings()[0], None).unwrap();
    let batch = |name: &str, result: ContextResult, history: &Vec<ContextBatch>| {
        ContextBatch::new(
            id(name),
            request.copy(),
            result,
            1_000,
            versioned("estimator"),
            Estimate::Tokens(5),
            history,
        )
        .unwrap()
    };
    let offered = batch(
        "first",
        ContextResult::Ready { items: vec![item("a")], source_revision: None, item_revisions: vec![] },
        &vec![],
    );
    assert!(offered.validate_fragment_history(&vec![]).is_ok());
    let kept = batch("second", empty(), &vec![offered.copy()]);
    let check = |later: &ContextBatch| {
        check_deletions(&offered, &vec![later.to_record()], &plan, &scope(), &id("run"))
    };
    assert!(check_deletions(&offered, &vec![], &plan, &scope(), &id("run")).is_ok());
    let deleted = batch(
        "second",
        ContextResult::Deleted { item_ids: vec![id("a")], source_revision: None },
        &vec![offered.copy()],
    );
    assert!(check(&deleted).is_err());
    let elsewhere = batch(
        "second",
        ContextResult::Deleted { item_ids: vec![id("b")], source_revision: None },
        &vec![offered.copy()],
    );
    assert!(check(&elsewhere).is_ok());
    assert!(kept.items().is_empty());
}

#[test]
fn kept_items_have_identifiers_of_their_own() {
    let plan = runtime().plan(&sourced()).unwrap();
    let request =
        ContextRequest::for_run(&snapshot("run", "request"), &plan.bindings()[0], None).unwrap();
    let kept = |name: &str| {
        ContextBatch::new(
            id(name),
            request.copy(),
            ContextResult::Ready {
                items: vec![item("a"), item("b")],
                source_revision: None,
                item_revisions: vec![],
            },
            1_000,
            versioned("estimator"),
            Estimate::Tokens(5),
            &vec![],
        )
        .unwrap()
    };
    let (one, other) = (kept("first"), kept("second"));
    let names: Vec<&str> = one
        .items()
        .iter()
        .chain(other.items().iter())
        .map(|item| item.item_id.as_str())
        .collect();
    assert_eq!(names.len(), 4);
    for (at, name) in names.iter().enumerate() {
        assert!(name.starts_with("source-item-sorted-json-v1:sha256:"));
        assert!(!names[..at].contains(name));
    }
}

#[test]
fn withdrawals_are_looked_for_in_every_later_run() {
    let said = |run: &str, sequence: u64| Message {
        message_id: id(&format!("m{sequence}")),
        sequence,
        run_id: id(run),
        role: MessageRole::User,
        origin: MessageOrigin::User,
        visibility: Visibility::UserAndModel,
        content: vec![],
        source_model_request_id: None,
        document: text(run),
    };
    let messages = vec![said("before", 1), said("origin", 2), said("later", 3), said("later", 4)];
    let runs: Vec<String> = later_runs(&messages, &id("origin"), &id("consumer"))
        .iter()
        .map(|run| run.as_str().to_owned())
        .collect();
    assert!(!runs.contains(&"before".to_owned()));
    for run in ["origin", "later", "consumer"] {
        assert_eq!(runs.iter().filter(|name| name.as_str() == run).count(), 1);
    }
}

#[test]
fn a_plan_is_restored_from_its_text() {
    let plan = runtime().plan(&sourced()).unwrap();
    let stored = canonical_json(&encode_source_plan(&plan));
    let restored = ContextSourcePlan::restore(&stored, Some(&plan), &scope(), &plan.digest()).unwrap();
    assert!(restored.same(&plan));
    let failed = |text: &str, decoded: Option<&ContextSourcePlan>| {
        error(ContextSourcePlan::restore(text, decoded, &scope(), &plan.digest()))
    };
    assert_eq!(failed("{", Some(&plan)), refused(ErrorCode::InvalidJson, "$"));
    assert_eq!(failed("{\"a\":1,\"a\":1}", None), refused(ErrorCode::InvalidJson, "$"));
    assert_eq!(failed("{}", None), refused(ErrorCode::InvalidSnapshot, "context_source.plan"));
    assert_eq!(
        error(ContextSourcePlan::restore(&stored, Some(&plan), &elsewhere(), &plan.digest())),
        refused(ErrorCode::InvalidSnapshot, "context_source.plan_identity")
    );
    assert!(ContextSourcePlan::restore_decoded(Some(&plan), &scope(), &plan.digest()).is_ok());
}
