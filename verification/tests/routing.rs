use wickle::data::Data;
use wickle::error::{ContractError, ErrorCode};
use wickle::json::{Json, member, object, text};
use wickle::model::{
    ApiContract, ModelFailureKind, ModelPurpose, RouteRequest, VersionPolicy, VersionSemantics,
};
use wickle::model_catalog::{
    CatalogRequirements, ModelBinding, ModelCapabilities, ModelCatalogSnapshot, ModelDefinition,
    ModelDefinitionRef, ModelLifecycle, ModelSupportStatus, ModelValidationEvidence,
    ModelValidationKind,
};
use wickle::model_routing::{
    RouteSelection, RouteSelectionReason, RoutingData, RoutingPolicy, RoutingRule, RoutingSnapshot,
    encode_routing,
};
use wickle::refs::{Scope, VersionedRef};
use wickle::serialization::{Id, JsonDigest, canonical_digest, canonical_json};

fn id(value: &str) -> Id {
    Id::new(value.to_owned()).unwrap()
}

fn error<T>(result: Result<T, ContractError>) -> (ErrorCode, String) {
    match result {
        Ok(_) => panic!("the call succeeded"),
        Err(error) => (error.code, error.path),
    }
}

fn refused(code: ErrorCode, path: &str) -> (ErrorCode, String) {
    (code, path.to_owned())
}

fn digest(value: &str) -> JsonDigest {
    canonical_digest(&text(value))
}

fn scope() -> Scope {
    Scope { tenant_id: id("tenant"), workspace_id: id("workspace"), user_id: None }
}

fn elsewhere() -> Scope {
    Scope { tenant_id: id("other"), workspace_id: id("workspace"), user_id: None }
}

fn versioned(name: &str) -> VersionedRef {
    VersionedRef { id: id(name), version: id("1") }
}

fn closed() -> Json {
    object(vec![member("additionalProperties", Json::Bool(false)), member("type", text("object"))])
}

fn capabilities() -> ModelCapabilities {
    ModelCapabilities {
        revision: id("cap1"),
        features: vec![id("tools")],
        options_schema: closed(),
        context_window: 1_000,
        max_output_tokens: 100,
    }
}

fn model() -> ModelDefinition {
    ModelDefinition {
        model_key: id("key"),
        family: id("family"),
        provider: id("provider"),
        model_id: id("model-a"),
        model_version: id("7"),
        version_semantics: VersionSemantics::Pinned,
        lifecycle: ModelLifecycle::Active,
        capabilities: capabilities(),
        evidence: vec![],
    }
}

fn binding(name: &str) -> ModelBinding {
    let mut binding = ModelBinding {
        default_options: vec![],
        binding: versioned(name),
        model: ModelDefinitionRef {
            provider: id("provider"),
            model_key: id("key"),
            model_version: id("7"),
        },
        requested_model: id("model-a"),
        adapter: versioned("adapter"),
        connection_ref: versioned("connection"),
        target: vec![],
        target_schema: closed(),
        api_contract: ApiContract { name: id("chat"), version: id("1") },
        deployment_revision: Some(id("d1")),
        version_semantics: VersionSemantics::Pinned,
        capabilities: capabilities(),
        support: ModelSupportStatus::ContractTested,
        evidence: vec![],
    };
    binding.evidence = vec![ModelValidationEvidence {
        kind: ModelValidationKind::ContractTest,
        binding_digest: binding.contract_digest(&model()).unwrap(),
        checked_at_ms: 1_000,
        evidence_ref: id("check"),
        passed: true,
    }];
    binding
}

fn catalog() -> ModelCatalogSnapshot {
    ModelCatalogSnapshot {
        revision: id("c1"),
        scope: scope(),
        models: vec![model()],
        bindings: vec![binding("first"), binding("second")],
        aliases: vec![],
    }
}

fn policy() -> RoutingPolicy {
    RoutingPolicy {
        revision: id("p1"),
        scope: scope(),
        rules: vec![RoutingRule {
            model_binding: id("model"),
            purpose: ModelPurpose::Agent,
            primary: versioned("first"),
            fallbacks: vec![versioned("second")],
            fallback_on: vec![ModelFailureKind::Unavailable],
            version_policy: VersionPolicy::AllowMutable,
            min_support: ModelSupportStatus::ContractTested,
        }],
    }
}

fn request() -> RouteRequest {
    RouteRequest {
        scope: scope(),
        model_binding: id("model"),
        purpose: ModelPurpose::Agent,
        required_capabilities: vec![id("tools")],
        options: vec![],
        input_tokens: 900,
        max_output_tokens: 100,
        version_policy: VersionPolicy::AllowMutable,
        previous_route: None,
        previous_failure: None,
        allowed_bindings: vec![id("first"), id("second")],
    }
}

fn selection(snapshot: &RoutingSnapshot, request: &RouteRequest, name: &str, reason: RouteSelectionReason, candidate_index: usize) -> RouteSelection {
    RouteSelection {
        route: snapshot.route_for_binding(&versioned(name)).unwrap(),
        reason,
        candidate_index,
        routing_snapshot_digest: snapshot.digest(),
        request_digest: request.digest(),
    }
}

#[test]
fn the_primary_target_comes_first() {
    let snapshot = RoutingSnapshot::new(catalog(), policy()).unwrap();
    let first = selection(&snapshot, &request(), "first", RouteSelectionReason::Initial, 0);
    assert!(snapshot.validate_selection(&request(), &first).is_ok());
    let second = selection(&snapshot, &request(), "second", RouteSelectionReason::Initial, 1);
    assert_eq!(
        error(snapshot.validate_selection(&request(), &second)),
        refused(ErrorCode::ModelRoutingMismatch, "routing.selection_reason")
    );
}

#[test]
fn a_fallback_follows_a_permitted_failure() {
    let snapshot = RoutingSnapshot::new(catalog(), policy()).unwrap();
    let mut after = request();
    after.previous_route = Some(snapshot.route_for_binding(&versioned("first")).unwrap());
    after.previous_failure = Some(ModelFailureKind::Unavailable);
    let reason = || RouteSelectionReason::Fallback { failure: ModelFailureKind::Unavailable };
    let second = selection(&snapshot, &after, "second", reason(), 1);
    assert!(snapshot.validate_selection(&after, &second).is_ok());
    after.previous_failure = Some(ModelFailureKind::Rejected);
    let denied = selection(
        &snapshot,
        &after,
        "second",
        RouteSelectionReason::Fallback { failure: ModelFailureKind::Rejected },
        1,
    );
    assert_eq!(
        error(snapshot.validate_selection(&after, &denied)),
        refused(ErrorCode::ModelRouteDenied, "routing.fallback_reason")
    );
}

#[test]
fn a_selection_answers_one_request() {
    let snapshot = RoutingSnapshot::new(catalog(), policy()).unwrap();
    let first = selection(&snapshot, &request(), "first", RouteSelectionReason::Initial, 0);
    let mut other = request();
    other.input_tokens = 1;
    assert_eq!(
        error(snapshot.validate_selection(&other, &first)),
        refused(ErrorCode::ModelRoutingMismatch, "routing.selection_digest")
    );
    let mut foreign = request();
    foreign.scope = elsewhere();
    assert_eq!(
        error(snapshot.validate_selection(&foreign, &first)),
        refused(ErrorCode::AccessDenied, "routing.scope")
    );
}

#[test]
fn a_call_fits_the_window_of_its_model() {
    let snapshot = RoutingSnapshot::new(catalog(), policy()).unwrap();
    let resolved = snapshot.resolved_binding(&versioned("first")).unwrap();
    let needs = |input_tokens: u64| CatalogRequirements {
        features: vec![id("tools")],
        options: vec![],
        input_tokens,
        max_output_tokens: 100,
        version_policy: VersionPolicy::AllowMutable,
        min_support: ModelSupportStatus::Planned,
    };
    assert!(resolved.validate(&needs(900)).is_ok());
    assert!(resolved.validate(&needs(901)).is_err());
    let mut unsupported = needs(1);
    unsupported.features = vec![id("images")];
    assert!(resolved.validate(&unsupported).is_err());
    let mut verified = needs(1);
    verified.min_support = ModelSupportStatus::LiveVerified;
    assert!(resolved.validate(&verified).is_err());
}

#[test]
fn a_binding_offers_no_more_than_its_model() {
    let mut broad = catalog();
    broad.bindings[0].capabilities.max_output_tokens = 200;
    assert_eq!(
        error(broad.validate()),
        refused(ErrorCode::ModelBindingInvalid, "binding.capabilities")
    );
    let mut proven = catalog();
    proven.bindings[0].support = ModelSupportStatus::LiveVerified;
    assert_eq!(
        error(proven.validate()),
        refused(ErrorCode::ModelSupportInsufficient, "binding.evidence")
    );
    let mut wide = catalog();
    wide.models[0].capabilities.max_output_tokens = 2_000;
    assert_eq!(
        error(wide.validate()),
        refused(ErrorCode::ModelCapabilityUnsupported, "capabilities.token_limits")
    );
}

#[test]
fn a_snapshot_is_restored_only_unchanged() {
    let snapshot = RoutingSnapshot::new(catalog(), policy()).unwrap();
    assert!(snapshot.digest().same(&RoutingSnapshot::new(catalog(), policy()).unwrap().digest()));
    let data = || RoutingData {
        schema_version: "wickle.routing-snapshot.v1".to_owned(),
        catalog: catalog(),
        policy: policy(),
    };
    let stored = canonical_json(&encode_routing(&snapshot));
    let restored = RoutingSnapshot::restore(&stored, Some(&data()), &scope(), &snapshot.digest()).unwrap();
    assert!(restored.digest().same(&snapshot.digest()));
    let failed = |text: &str, decoded: Option<&RoutingData>, at: &Scope| {
        error(RoutingSnapshot::restore(text, decoded, at, &snapshot.digest()))
    };
    assert_eq!(failed("{", None, &scope()), refused(ErrorCode::InvalidJson, "$"));
    assert_eq!(failed("{\"a\":1,\"a\":1}", None, &scope()), refused(ErrorCode::InvalidJson, "$"));
    assert_eq!(
        failed("null", None, &scope()),
        refused(ErrorCode::UnsupportedSchemaVersion, "routing.schema_version")
    );
    assert_eq!(failed(&stored, None, &scope()), refused(ErrorCode::ModelRoutingInvalid, "routing.snapshot"));
    assert_eq!(
        failed(&stored, Some(&data()), &elsewhere()),
        refused(ErrorCode::AccessDenied, "routing.scope")
    );
    assert_eq!(
        error(RoutingSnapshot::restore_document(&Json::Null, None, &scope(), &snapshot.digest())).1,
        "routing.schema_version"
    );
    assert!(snapshot.scope().same(&scope()));
    assert_eq!(snapshot.policy().rules.len(), 1);
}

#[test]
fn options_are_held_to_the_schema_of_the_route() {
    let snapshot = RoutingSnapshot::new(catalog(), policy()).unwrap();
    let route = snapshot.route_for_binding(&versioned("first")).unwrap();
    let configured = snapshot.model_configuration(&route, &vec![], &vec![], 500).unwrap();
    assert_eq!(configured.max_output_tokens, 100);
    assert_eq!(configured.requested_max_output_tokens, 500);
    assert!(snapshot
        .model_configuration(&route, &vec![member("style", text("x"))], &vec![], 500)
        .is_err());
}
