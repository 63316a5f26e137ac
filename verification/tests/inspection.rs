use wickle::content::InputContent;
use wickle::context::{
    ContextFragment, ContextOrigin, FragmentIdentity, FragmentOwner, FragmentValue,
};
use wickle::data::Data;
use wickle::encoding::encode_input;
use wickle::execution_contracts::{ExecutionRecordVersion, PreparedStepRecord};
use wickle::inspection::{
    ContextDisclosure, InspectionEvidence, InspectionStatus, SavedToolInspection, StepRef,
    StoredAttempt, StoredInspection, StoredTool, UnresolvedInspectionField, compose, scrub,
    sensitive,
};
use wickle::json::{Json, array, member, object, text};
use wickle::model::{
    ApiContract, ModelAttemptState, ModelInvocationRecord, ModelPurpose, ModelRequest, ModelTool,
    ResolvedModelRoute, VersionSemantics,
};
use wickle::model_options::ModelConfiguration;
use wickle::prepared_step::{PreparedModelProjection, ProjectionProvenance};
use wickle::profile::{
    AgentProfile, CatalogTool, CompletionPolicy, ContextPolicy, Instructions, OutputContract,
    ProfileLimits, ToolBindingRef,
};
use wickle::prompt::PinnedPromptTool;
use wickle::provider_tool_schema::{ProviderToolTarget, ToolConstraintFragment};
use wickle::refs::{RecordRef, Scope, VersionedRef};
use wickle::resolution::{ComponentKind, ComponentMetadata, ComponentRef, ResolvedProfile};
use wickle::resolution::validator::{ProfileValidator, Resolution, ResolutionOutcome};
use wickle::run::{BudgetUsage, RunLimits, RunPhase, RunRequest, RunSnapshot, RunStatus, RunTiming};
use wickle::serialization::{Id, JsonDigest, canonical_digest};

fn id(value: &str) -> Id {
    Id::new(value.to_owned()).unwrap()
}

fn digest(value: &str) -> JsonDigest {
    canonical_digest(&text(value))
}

fn scope() -> Scope {
    Scope { tenant_id: id("tenant"), workspace_id: id("workspace"), user_id: None }
}

fn versioned(name: &str) -> VersionedRef {
    VersionedRef { id: id(name), version: id("1") }
}

fn record_ref(name: &str) -> RecordRef {
    RecordRef { record_id: id(name), revision: 1, digest: digest(name) }
}

fn profile() -> AgentProfile {
    AgentProfile {
        agent_id: id("agent"),
        version: id("1"),
        model_binding: id("model"),
        model_options: vec![],
        limits: ProfileLimits { max_output_tokens: None },
        connectors: vec![],
        adapters: None,
        tools: vec![],
        skills: vec![],
        context_sources: None,
        hooks: None,
        instructions: Instructions::Inline { text: "help".to_owned() },
        completion_policy: CompletionPolicy::Direct,
        output_contract: OutputContract::Text,
        context_policy: ContextPolicy { strategy: id("window"), version: None, config: None },
        extensions: None,
        digest: digest("profile"),
        defect: None,
    }
}

fn metadata(kind: ComponentKind, name: &str) -> ComponentMetadata {
    ComponentMetadata {
        reference: ComponentRef { kind, id: id(name), version: Some(id("1")) },
        contract_version: 1,
        manifest_digest: digest(name),
        config_schema: object(vec![]),
        dependencies: vec![],
        capabilities: vec![],
        required_capabilities: vec![],
        required_connections: vec![],
        model_name: None,
        hook_position: None,
        exports: vec![],
    }
}

fn model_resolution() -> Resolution {
    Resolution {
        requested: ComponentRef { kind: ComponentKind::ModelBinding, id: id("model"), version: None },
        outcome: ResolutionOutcome::Resolved {
            metadata: metadata(ComponentKind::ModelBinding, "model"),
        },
    }
}

fn resolved() -> ResolvedProfile {
    ProfileValidator::new(vec![model_resolution()]).validate(&profile(), &scope()).unwrap()
}

fn run_request(name: &str) -> RunRequest {
    let input = vec![InputContent::Text { text: "hello".to_owned() }];
    RunRequest {
        request_id: id(name),
        session_id: id("session"),
        input_digest: canonical_digest(&encode_input(&input)),
        input,
        model_options: vec![],
        max_output_tokens: None,
    }
}

fn snapshot(run: &str, request: &str) -> RunSnapshot {
    RunSnapshot {
        run_id: id(run),
        scope: scope(),
        request: run_request(request),
        request_digest: digest(request),
        profile: resolved(),
        system_inputs: None,
        limits: RunLimits {
            max_model_calls: 4,
            max_tool_attempts: 4,
            max_repair_attempts: 1,
            max_recovery_attempts: 2,
            max_elapsed_ms: 60_000,
        },
        revision: 0,
        status: RunStatus::Running,
        phase: RunPhase::Admission,
        usage: BudgetUsage {
            model_calls: 0,
            tool_attempts: 0,
            repair_attempts: 0,
            recovery_attempts: 0,
            elapsed_ms: 0,
        },
        timing: RunTiming { deadline_at_ms: 100_000, last_observed_at_ms: 1_000 },
        reservations: vec![],
        last_event_seq: 1,
        wait: None,
        outcome: None,
        model_ledger: vec![],
        model_step_id: None,
        model_step_inputs: vec![],
        prepared_steps: vec![],
        active_prepared_step: None,
        tool_ledger: vec![],
        resume_receipts: vec![],
        recovery_receipts: vec![],
        hook_plan_ref: None,
        hook_applications: vec![],
        source_plan_ref: None,
        context_batches: vec![],
        source_states: vec![],
        context_revision_ref: None,
        context_decisions: vec![],
        skill_plan_ref: None,
        assembly_ref: None,
        routing_snapshot_ref: None,
        verification_plan_ref: None,
        candidate_ref: None,
        verification_records: vec![],
        interruption_plan_ref: None,
        interruption_records: vec![],
        app_state: None,
        document: Json::Null,
        defect: None,
    }
}

fn route() -> ResolvedModelRoute {
    ResolvedModelRoute {
        binding: versioned("binding"),
        catalog_revision: id("c1"),
        routing_policy_revision: id("p1"),
        requested_model: id("model"),
        model_id: id("model-a"),
        model_version: id("7"),
        version_semantics: VersionSemantics::Pinned,
        provider: id("provider"),
        target: vec![],
        deployment_revision: None,
        api_contract: ApiContract { name: id("chat"), version: id("1") },
        adapter: versioned("adapter"),
        capability_revision: id("cap1"),
        connection_ref: versioned("connection"),
    }
}

fn model_request() -> ModelRequest {
    ModelRequest {
        request_id: id("step-1"),
        purpose: ModelPurpose::Agent,
        route: route(),
        messages: vec![],
        tools: vec![],
        options: vec![],
        max_output_tokens: 64,
        document: vec![],
        defect: None,
    }
}

#[test]
fn sensitive_keys_are_recognized_in_any_spelling() {
    assert!(sensitive("password"));
    assert!(sensitive("API-Key"));
    assert!(sensitive("user_SECRET_value"));
    assert!(sensitive("Access Token"));
    assert!(sensitive("system.inputs"));
    assert!(sensitive("OPAQUE"));
    assert!(!sensitive("pass-port"));
    assert!(!sensitive("token"));
    assert!(!sensitive(""));
}

#[test]
fn letters_of_every_script_count() {
    assert!(!sensitive("se\u{e9}cret"));
    assert!(sensitive("se\u{2014}cret"));
    assert!(sensitive("SECRET\u{130}"));
}

#[test]
fn hidden_values_become_null() {
    let document = object(vec![
        member("description", text("long")),
        member("nested", array(vec![object(vec![member("apiKey", text("k"))])])),
        member("title", text("shown")),
    ]);
    let scrubbed = scrub(&document, "$");
    let expected = object(vec![
        member("description", Json::Null),
        member("nested", array(vec![object(vec![member("apiKey", Json::Null)])])),
        member("title", text("shown")),
    ]);
    assert!(scrubbed.value.same(&expected));
    assert_eq!(scrubbed.hidden.len(), 2);
}

#[test]
fn scrubbing_again_changes_nothing() {
    let document = object(vec![member("secret", text("x")), member("b", text("y"))]);
    let once = scrub(&document, "$").value;
    assert!(scrub(&once, "$").value.same(&once));
    let clean = object(vec![member("b", text("y"))]);
    let shown = scrub(&clean, "$");
    assert!(shown.value.same(&clean));
    assert!(shown.hidden.is_empty());
}

fn configuration() -> ModelConfiguration {
    ModelConfiguration {
        requested: vec![member("apiKey", text("k")), member("seed", Json::Number("1".to_owned()))],
        effective: vec![member("nested", object(vec![member("secret", text("s"))]))],
        sources: vec![],
        model_schema_revision: id("m1"),
        binding_schema_revision: id("b1"),
        requested_max_output_tokens: 64,
        max_output_tokens: 64,
    }
}

fn root() -> PreparedStepRecord {
    PreparedStepRecord {
        step_input: record_ref("step"),
        scope: scope(),
        run_id: id("run"),
        profile_digest: digest("profile"),
        assembly_ref: None,
        projection_fingerprint: digest("fingerprint"),
        change_reason: id("initial"),
        schema_version: ExecutionRecordVersion::V1,
        purpose: ModelPurpose::Agent,
        compiled_tools: vec![],
        model_step_id: id("step-1"),
        projection_revision: 1,
        model_configuration: record_ref("configuration"),
        tool_set: record_ref("tools"),
        context_projection: record_ref("projection"),
        assembler: versioned("assembler"),
    }
}

fn tool(compiled: bool) -> StoredTool {
    let schema = || object(vec![member("credential", text("c"))]);
    StoredTool {
        manifest: PinnedPromptTool {
            selection: ToolBindingRef::Catalog(CatalogTool {
                tool_id: id("clock"),
                version: id("1"),
                config: None,
                bindings: None,
            }),
            tool: versioned("clock"),
            compiled_digest: digest("compiled"),
            descriptor_digest: digest("descriptor"),
            model_schema_digest: digest("schema"),
            compiler_version: id("1"),
            model_tool: ModelTool {
                name: id("clock"),
                description: "time".to_owned(),
                model_input_schema: schema(),
            },
        },
        compiled: if compiled {
            Some(SavedToolInspection {
                tool: versioned("clock"),
                canonical_name: id("clock"),
                canonical_schema_digest: digest("schema"),
                compiler: versioned("compiler"),
                target: ProviderToolTarget::for_route(&route()),
                wire_tool: ModelTool {
                    name: id("wire_clock"),
                    description: "time".to_owned(),
                    model_input_schema: schema(),
                },
                decode_plan_digest: digest("plan"),
                digest: digest("contract"),
                fragments: vec![ToolConstraintFragment {
                    id: id("note"),
                    text: "only in UTC".to_owned(),
                    digest: digest("note"),
                }],
                enforcement: vec![],
            })
        } else {
            None
        },
    }
}

fn fragment(name: &str, value: FragmentValue) -> ContextFragment {
    ContextFragment {
        identity: FragmentIdentity {
            scope: scope(),
            owner: FragmentOwner::Run { run_id: id("run") },
            producer_id: id("source"),
            fragment_id: id(name),
        },
        core_revision: 1,
        batch_id: id("batch"),
        origin: ContextOrigin::Retrieval,
        source_revision: None,
        value,
        content_digest: digest(name),
        defect: None,
    }
}

fn attempt(observed: bool) -> StoredAttempt {
    StoredAttempt {
        invocation: ModelInvocationRecord {
            run_id: id("run"),
            model_step_id: id("step-1"),
            attempt_id: id("attempt"),
            purpose: ModelPurpose::Agent,
            route: route(),
            selection_reason: id("requested_route"),
            configuration: None,
            prepared_step_ref: None,
            request_digest: digest("request"),
            inspection_ref: None,
            state: ModelAttemptState::Reserved,
            response_ref: None,
            provider_request_id: None,
            reported_model_id: None,
            reported_model_version: None,
            usage: None,
        },
        response_observed: observed,
    }
}

fn stored() -> StoredInspection {
    let run = snapshot("run", "request");
    StoredInspection {
        reference: record_ref("prepared"),
        root: root(),
        route: Some(route()),
        configuration: Some(configuration()),
        tools: vec![tool(false), tool(true)],
        projection: Some(PreparedModelProjection {
            schema_version: "1".to_owned(),
            scope: scope(),
            run_id: id("run"),
            request: model_request(),
            input_tokens: 10,
            provenance: ProjectionProvenance {
                context_revision_ref: None,
                through_sequence: 3,
                source_batches: vec![],
                source_lineage: vec![],
                artifacts: vec![],
                fragments: vec![
                    fragment("gone", FragmentValue::Tombstone { reason: id("withdrawn") }),
                    fragment(
                        "chosen",
                        FragmentValue::Selection { status: id("available"), item_ids: vec![] },
                    ),
                ],
                selected_message_ids: vec![id("m1")],
                dropped_message_ids: vec![],
                selected_context_ids: vec![],
                dropped_context_ids: vec![],
            },
        }),
        attempts: vec![attempt(false), attempt(true)],
        disclosure: vec![],
        limits: run.limits,
        status: run.status,
        revision: 4,
        outcome: None,
        unresolved: vec![],
    }
}

#[test]
fn a_report_shows_no_secret() {
    let report = compose(StepRef::Prepared { record_id: id("prepared") }, &stored());
    assert_eq!(report.schema_version, "wickle.composition-report.v1");
    assert!(report.status == InspectionStatus::Found);
    let step = report.composition.unwrap();
    let shown = step.model.unwrap().configuration.unwrap();
    assert!(shown.requested[0].value.same(&Json::Null));
    assert!(shown.requested[1].value.same(&Json::Number("1".to_owned())));
    assert!(shown.effective[0].value.same(&object(vec![member("secret", Json::Null)])));
    assert_eq!(
        step.redacted_paths,
        vec![
            "model.configuration.requested.apiKey",
            "model.configuration.effective.nested.secret",
            "tools.0.canonical_schema.credential",
            "tools.1.canonical_schema.credential",
            "tools.1.provider_schema.credential",
        ]
    );
}

#[test]
fn a_report_repeats_what_was_saved() {
    let step = compose(StepRef::Prepared { record_id: id("prepared") }, &stored()).composition.unwrap();
    assert!(step.tools[0].provider_name.is_none() && step.tools[0].compiler.is_none());
    assert_eq!(step.tools[1].provider_name.as_ref().unwrap().as_str(), "wire_clock");
    assert!(step.tools[1].constraints[0].source.same(&versioned("compiler")));
    assert_eq!(step.fragments[0].selection, "tombstone");
    assert_eq!(step.fragments[0].selection_reason, "withdrawn");
    assert_eq!(step.fragments[1].selection, "selection");
    assert_eq!(step.fragments[1].selection_reason, "available");
    assert_eq!(step.fragments[1].order, 1);
    assert!(matches!(
        &step.fragments[0].disclosure,
        ContextDisclosure::Redacted { reason } if reason == "not_requested"
    ));
    assert!(step.attempts[0].evidence[1] == InspectionEvidence::TransmissionUnknown);
    assert!(step.attempts[1].evidence[1] == InspectionEvidence::ResponseObserved);
    assert!(!step.attempts[0].result_recorded);
    assert_eq!(step.estimated_input_tokens, Some(10));
    assert_eq!(step.selection.unwrap().through_sequence, 3);
    assert_eq!(step.recorded_run_revision, 4);
}

#[test]
fn missing_records_make_a_report_partial() {
    let unresolved = |reason: &str| UnresolvedInspectionField {
        field: "tools".to_owned(),
        record_id: None,
        reason: reason.to_owned(),
    };
    let mut saved = stored();
    saved.unresolved = vec![unresolved("not_recorded")];
    let step = || StepRef::Prepared { record_id: id("prepared") };
    assert!(compose(step(), &saved).status == InspectionStatus::Found);
    saved.unresolved.push(unresolved("expired"));
    assert!(compose(step(), &saved).status == InspectionStatus::Partial);
}
