use wickle::content::InputContent;
use wickle::data::Data;
use wickle::encoding::encode_input;
use wickle::error::{ContractError, ErrorCode};
use wickle::json::{Json, Member, member, object, text};
use wickle::model::{ApiContract, ResolvedModelRoute, VersionPolicy, VersionSemantics};
use wickle::model_dispatch::{ModelRouteAvailability, ModelRouteObservation};
use wickle::model_options::{
    is_reserved, merge_model_options, output_cap, validate_inference_options,
};
use wickle::profile::{
    AgentProfile, CompletionPolicy, ContextPolicy, Instructions, OutputContract, ProfileLimits,
};
use wickle::refs::{RecordRef, Scope, VersionedRef};
use wickle::resolution::{ComponentKind, ComponentMetadata, ComponentRef, ResolvedProfile};
use wickle::resolution::validator::{ProfileValidator, Resolution, ResolutionOutcome};
use wickle::run::{BudgetUsage, RunLimits, RunPhase, RunRequest, RunSnapshot, RunStatus, RunTiming};
use wickle::serialization::{Id, JsonDigest, canonical_digest, canonical_json};

fn id(value: &str) -> Id {
    Id::new(value.to_owned()).unwrap()
}

fn error<T>(result: Result<T, ContractError>) -> (ErrorCode, String) {
    match result {
        Ok(_) => panic!("the call succeeded"),
        Err(error) => (error.code, error.path),
    }
}

fn refused(code: ErrorCode, path: &str) -> (ErrorCode, String) {
    (code, path.to_owned())
}

fn digest(value: &str) -> JsonDigest {
    canonical_digest(&text(value))
}

fn scope() -> Scope {
    Scope { tenant_id: id("tenant"), workspace_id: id("workspace"), user_id: None }
}

fn record_ref(name: &str) -> RecordRef {
    RecordRef { record_id: id(name), revision: 1, digest: digest(name) }
}

fn versioned(name: &str) -> VersionedRef {
    VersionedRef { id: id(name), version: id("1") }
}

fn route() -> ResolvedModelRoute {
    ResolvedModelRoute {
        binding: versioned("binding"),
        catalog_revision: id("c1"),
        routing_policy_revision: id("p1"),
        requested_model: id("model"),
        model_id: id("model-a"),
        model_version: id("7"),
        version_semantics: VersionSemantics::Pinned,
        provider: id("provider"),
        target: vec![],
        deployment_revision: None,
        api_contract: ApiContract { name: id("chat"), version: id("1") },
        adapter: versioned("adapter"),
        capability_revision: id("cap1"),
        connection_ref: versioned("connection"),
    }
}

fn profile() -> AgentProfile {
    AgentProfile {
        agent_id: id("agent"),
        version: id("1"),
        model_binding: id("model"),
        model_options: vec![],
        limits: ProfileLimits { max_output_tokens: None },
        connectors: vec![],
        adapters: None,
        tools: vec![],
        skills: vec![],
        context_sources: None,
        hooks: None,
        instructions: Instructions::Inline { text: "help".to_owned() },
        completion_policy: CompletionPolicy::Direct,
        output_contract: OutputContract::Text,
        context_policy: ContextPolicy { strategy: id("window"), version: None, config: None },
        extensions: None,
        digest: digest("profile"),
        defect: None,
    }
}

fn metadata(kind: ComponentKind, name: &str) -> ComponentMetadata {
    ComponentMetadata {
        reference: ComponentRef { kind, id: id(name), version: Some(id("1")) },
        contract_version: 1,
        manifest_digest: digest(name),
        config_schema: object(vec![]),
        dependencies: vec![],
        capabilities: vec![],
        required_capabilities: vec![],
        required_connections: vec![],
        model_name: None,
        hook_position: None,
        exports: vec![],
    }
}

fn model_resolution() -> Resolution {
    Resolution {
        requested: ComponentRef { kind: ComponentKind::ModelBinding, id: id("model"), version: None },
        outcome: ResolutionOutcome::Resolved {
            metadata: metadata(ComponentKind::ModelBinding, "model"),
        },
    }
}

fn resolved() -> ResolvedProfile {
    ProfileValidator::new(vec![model_resolution()]).validate(&profile(), &scope()).unwrap()
}

fn run_request(name: &str) -> RunRequest {
    let input = vec![InputContent::Text { text: "hello".to_owned() }];
    RunRequest {
        request_id: id(name),
        session_id: id("session"),
        input_digest: canonical_digest(&encode_input(&input)),
        input,
        model_options: vec![],
        max_output_tokens: None,
    }
}

fn snapshot(run: &str, request: &str) -> RunSnapshot {
    RunSnapshot {
        run_id: id(run),
        scope: scope(),
        request: run_request(request),
        request_digest: digest(request),
        profile: resolved(),
        system_inputs: None,
        limits: RunLimits {
            max_model_calls: 4,
            max_tool_attempts: 4,
            max_repair_attempts: 1,
            max_recovery_attempts: 2,
            max_elapsed_ms: 60_000,
        },
        revision: 0,
        status: RunStatus::Running,
        phase: RunPhase::Admission,
        usage: BudgetUsage {
            model_calls: 0,
            tool_attempts: 0,
            repair_attempts: 0,
            recovery_attempts: 0,
            elapsed_ms: 0,
        },
        timing: RunTiming { deadline_at_ms: 100_000, last_observed_at_ms: 1_000 },
        reservations: vec![],
        last_event_seq: 1,
        wait: None,
        outcome: None,
        model_ledger: vec![],
        model_step_id: None,
        model_step_inputs: vec![],
        prepared_steps: vec![],
        active_prepared_step: None,
        tool_ledger: vec![],
        resume_receipts: vec![],
        recovery_receipts: vec![],
        hook_plan_ref: None,
        hook_applications: vec![],
        source_plan_ref: None,
        context_batches: vec![],
        source_states: vec![],
        context_revision_ref: None,
        context_decisions: vec![],
        skill_plan_ref: None,
        assembly_ref: None,
        routing_snapshot_ref: None,
        verification_plan_ref: None,
        candidate_ref: None,
        verification_records: vec![],
        interruption_plan_ref: None,
        interruption_records: vec![],
        app_state: None,
        document: Json::Null,
        defect: None,
    }
}

fn options(pairs: &[(&str, &str)]) -> Vec<Member> {
    pairs.iter().map(|(key, value)| member(key, text(value))).collect()
}

#[test]
fn overrides_win_and_the_rest_stays() {
    let merged = merge_model_options(
        &options(&[("effort", "low"), ("seed", "1")]),
        &options(&[("effort", "high"), ("style", "plain")]),
    );
    assert_eq!(
        canonical_json(&object(merged)),
        "{\"effort\":\"high\",\"seed\":\"1\",\"style\":\"plain\"}"
    );
}

#[test]
fn merging_twice_changes_nothing() {
    let defaults = options(&[("a", "1"), ("c", "3")]);
    let overrides = options(&[("b", "2")]);
    let once = merge_model_options(&defaults, &overrides);
    assert!(merge_model_options(&once, &overrides).same(&once));
    assert!(merge_model_options(&defaults, &vec![]).same(&defaults));
}

#[test]
fn transport_controls_are_no_options() {
    assert!(validate_inference_options(&options(&[("temperature", "0")])).is_ok());
    assert!(validate_inference_options(&options(&[("Base_URL", "x")])).is_err());
    assert!(validate_inference_options(&options(&[("api-key", "x")])).is_err());
    assert!(validate_inference_options(&options(&[("\u{212a}ey", "x")])).is_ok());
    assert!(validate_inference_options(&options(&[("api\u{212a}ey", "x")])).is_err());
}

#[test]
fn the_smallest_output_cap_holds() {
    let mut run = snapshot("run", "request");
    assert_eq!(output_cap(&run, 100), 100);
    run.request.max_output_tokens = Some(40);
    assert_eq!(output_cap(&run, 100), 40);
    assert_eq!(output_cap(&run, 30), 30);
}

#[test]
fn a_pinned_route_is_observed_exactly() {
    let observed = |version: Option<&str>| ModelRouteObservation {
        route_digest: route().digest(),
        availability: ModelRouteAvailability::Available,
        model_id: Some(id("model-a")),
        model_version: version.map(id),
        deployment_revision: None,
        version_semantics: VersionSemantics::Pinned,
        evidence_ref: id("evidence"),
    };
    assert!(observed(Some("7")).validate(&route(), VersionPolicy::RequirePinned).is_ok());
    assert!(observed(Some("8")).validate(&route(), VersionPolicy::AllowMutable).is_err());
    assert!(observed(None).validate(&route(), VersionPolicy::RequirePinned).is_err());
    assert!(observed(None).validate(&route(), VersionPolicy::AllowMutable).is_ok());
    let mut gone = observed(Some("7"));
    gone.availability = ModelRouteAvailability::Unavailable;
    assert!(gone.validate(&route(), VersionPolicy::AllowMutable).is_err());
}

#[test]
fn a_route_digest_covers_the_route() {
    let mut other = route();
    other.model_version = id("8");
    assert!(route().digest().same(&route().digest()));
    assert!(!route().digest().same(&other.digest()));
}

#[test]
fn reserved_names_are_found_in_any_spelling() {
    for key in ["API-Key", "api_key", "ApiKey", "api\u{212a}ey", "TOOL_CHOICE"] {
        assert_eq!(
            error(validate_inference_options(&options(&[(key, "x")]))),
            refused(ErrorCode::ModelOptionUnsupported, "model.reserved_option")
        );
    }
    assert!(validate_inference_options(&options(&[("effort", "x"), ("\u{130}nput", "x")])).is_ok());
    assert!(is_reserved(&"apikey".to_owned()));
    assert!(!is_reserved(&"api-key".to_owned()));
}
