use wickle::context::{CatalogSource, ContextBinding, ContextSourceRef, ContextTrigger, ExportRef};
use wickle::data::Data;
use wickle::error::{ContractError, ErrorCode};
use wickle::hook::{CatalogHook, HookPosition, HookRef};
use wickle::json::{Json, member, object, text};
use wickle::profile::{
    AdapterBinding, AgentProfile, CatalogTool, CompletionPolicy, ConnectionRef, ConnectorRef,
    ContextPolicy, ExtensionData, Instructions, OutputContract, ProfileLimits, ToolBindingRef,
};
use wickle::refs::Scope;
use wickle::resolution::{
    ComponentKind, ComponentMetadata, ComponentRef, ExportKind, ExportMetadata, ResolvedProfile,
};
use wickle::resolution::configuration::{is_self_contained, validate_configuration};
use wickle::resolution::validator::{
    ProfileValidator, Resolution, ResolutionOutcome, check_steps, step_request,
};
use wickle::serialization::{Id, JsonDigest, canonical_digest};

fn id(value: &str) -> Id {
    Id::new(value.to_owned()).unwrap()
}

fn error<T>(result: Result<T, ContractError>) -> (ErrorCode, String) {
    match result {
        Ok(_) => panic!("the call succeeded"),
        Err(error) => (error.code, error.path),
    }
}

fn refused(code: ErrorCode, path: &str) -> (ErrorCode, String) {
    (code, path.to_owned())
}

fn digest(value: &str) -> JsonDigest {
    canonical_digest(&text(value))
}

fn scope() -> Scope {
    Scope { tenant_id: id("tenant"), workspace_id: id("workspace"), user_id: None }
}

fn elsewhere() -> Scope {
    Scope { tenant_id: id("other"), workspace_id: id("workspace"), user_id: None }
}

fn profile() -> AgentProfile {
    AgentProfile {
        agent_id: id("agent"),
        version: id("1"),
        model_binding: id("model"),
        model_options: vec![],
        limits: ProfileLimits { max_output_tokens: None },
        connectors: vec![],
        adapters: None,
        tools: vec![],
        skills: vec![],
        context_sources: None,
        hooks: None,
        instructions: Instructions::Inline { text: "help".to_owned() },
        completion_policy: CompletionPolicy::Direct,
        output_contract: OutputContract::Text,
        context_policy: ContextPolicy { strategy: id("window"), version: None, config: None },
        extensions: None,
        digest: digest("profile"),
        defect: None,
    }
}

fn metadata(kind: ComponentKind, name: &str) -> ComponentMetadata {
    ComponentMetadata {
        reference: ComponentRef { kind, id: id(name), version: Some(id("1")) },
        contract_version: 1,
        manifest_digest: digest(name),
        config_schema: object(vec![]),
        dependencies: vec![],
        capabilities: vec![],
        required_capabilities: vec![],
        required_connections: vec![],
        model_name: None,
        hook_position: None,
        exports: vec![],
    }
}

fn resolution(metadata: ComponentMetadata) -> Resolution {
    let reference = &metadata.reference;
    Resolution {
        requested: ComponentRef {
            kind: reference.kind,
            id: id(reference.id.as_str()),
            version: reference.version.as_ref().map(|version| id(version.as_str())),
        },
        outcome: ResolutionOutcome::Resolved { metadata },
    }
}

fn model_resolution() -> Resolution {
    Resolution {
        requested: ComponentRef { kind: ComponentKind::ModelBinding, id: id("model"), version: None },
        outcome: ResolutionOutcome::Resolved {
            metadata: metadata(ComponentKind::ModelBinding, "model"),
        },
    }
}

fn resolved() -> ResolvedProfile {
    ProfileValidator::new(vec![model_resolution()]).validate(&profile(), &scope()).unwrap()
}

fn catalog_tool(name: &str) -> ToolBindingRef {
    ToolBindingRef::Catalog(CatalogTool {
        tool_id: id(name),
        version: id("1"),
        config: None,
        bindings: None,
    })
}

fn exported_tool(alias: Option<&str>) -> ToolBindingRef {
    ToolBindingRef::Export(ExportRef {
        adapter_binding: id("files"),
        export_id: id("read"),
        alias: alias.map(id),
    })
}

fn adapter() -> AdapterBinding {
    AdapterBinding {
        binding_id: id("files"),
        adapter_id: id("disk"),
        version: id("1"),
        config: None,
        connections: vec![ConnectionRef { name: id("root"), connection: id("mount") }],
    }
}

fn adapter_resolution(kind: ExportKind) -> Resolution {
    let mut adapter = metadata(ComponentKind::Adapter, "disk");
    adapter.required_connections = vec![id("root")];
    adapter.exports = vec![ExportMetadata {
        export_id: id("read"),
        kind,
        contract_version: 1,
        model_name: Some(id("read_file")),
        hook_position: None,
        capabilities: vec![id("reading")],
        required_capabilities: vec![],
    }];
    resolution(adapter)
}

#[test]
fn a_profile_is_pinned_to_exact_versions() {
    let pinned = resolved();
    assert_eq!(pinned.components().len(), 1);
    let component = &pinned.components()[0];
    assert_eq!(component.reference.version.as_ref().unwrap().as_str(), "1");
    assert!(component
        .definition_digest
        .same(&metadata(ComponentKind::ModelBinding, "model").digest()));
    assert!(pinned.ensure_matches(&profile(), &scope()).is_ok());
    assert_eq!(
        error(pinned.ensure_matches(&profile(), &elsewhere())),
        refused(ErrorCode::ProfileMismatch, "resolved_profile")
    );
    assert!(pinned.validate_snapshot().is_ok());
}

#[test]
fn components_stand_in_the_order_of_their_references() {
    let mut given = profile();
    given.connectors = vec![
        ConnectorRef { connector_id: id("z"), version: id("1") },
        ConnectorRef { connector_id: id("a"), version: id("1") },
    ];
    given.tools = vec![catalog_tool("clock")];
    let mut clock = metadata(ComponentKind::Tool, "clock");
    clock.model_name = Some(id("clock"));
    let validator = ProfileValidator::new(vec![
        model_resolution(),
        resolution(metadata(ComponentKind::Connector, "z")),
        resolution(metadata(ComponentKind::Connector, "a")),
        resolution(clock),
    ]);
    let pinned = validator.validate(&given, &scope()).unwrap();
    let names: Vec<&str> =
        pinned.components().iter().map(|component| component.reference.id.as_str()).collect();
    assert_eq!(names, vec!["model", "clock", "a", "z"]);
}

#[test]
fn the_references_to_look_up_are_listed() {
    let mut given = profile();
    given.tools = vec![catalog_tool("clock")];
    given.extensions = Some(vec![ExtensionData { namespace: id("x"), value: Json::Null }]);
    let steps = check_steps(&given);
    let requested: Vec<String> = steps
        .iter()
        .filter_map(step_request)
        .map(|reference| reference.id.as_str().to_owned())
        .collect();
    assert_eq!(requested, vec!["model", "clock", "x"]);
}

#[test]
fn an_unanswered_look_up_is_refused() {
    let validator = ProfileValidator::new(vec![]);
    assert_eq!(
        error(validator.validate(&profile(), &scope())),
        refused(ErrorCode::ComponentUnavailable, "component.reference")
    );
    let failing = ProfileValidator::new(vec![Resolution {
        requested: ComponentRef { kind: ComponentKind::ModelBinding, id: id("model"), version: None },
        outcome: ResolutionOutcome::Refused {
            error: ContractError::new(ErrorCode::AccessDenied, "resolver"),
        },
    }]);
    assert_eq!(
        error(failing.validate(&profile(), &scope())),
        refused(ErrorCode::AccessDenied, "resolver")
    );
}

#[test]
fn metadata_of_another_component_is_refused() {
    let mut wrong = model_resolution();
    wrong.outcome = ResolutionOutcome::Resolved {
        metadata: metadata(ComponentKind::ModelBinding, "other"),
    };
    assert_eq!(
        error(ProfileValidator::new(vec![wrong]).validate(&profile(), &scope())),
        refused(ErrorCode::ComponentUnavailable, "component.reference")
    );
    let mut newer = metadata(ComponentKind::ModelBinding, "model");
    newer.contract_version = 2;
    let mut answer = model_resolution();
    answer.outcome = ResolutionOutcome::Resolved { metadata: newer };
    assert_eq!(
        error(ProfileValidator::new(vec![answer]).validate(&profile(), &scope())),
        refused(ErrorCode::UnsupportedContractVersion, "component.contract_version")
    );
}

#[test]
fn tools_have_distinct_names() {
    let mut given = profile();
    given.tools = vec![catalog_tool("clock"), catalog_tool("watch")];
    let mut clock = metadata(ComponentKind::Tool, "clock");
    clock.model_name = Some(id("time"));
    let mut watch = metadata(ComponentKind::Tool, "watch");
    watch.model_name = Some(id("time"));
    let validator =
        ProfileValidator::new(vec![model_resolution(), resolution(clock), resolution(watch)]);
    assert_eq!(
        error(validator.validate(&given, &scope())),
        refused(ErrorCode::InvalidReference, "tools.model_name")
    );
    let nameless = ProfileValidator::new(vec![
        model_resolution(),
        resolution(metadata(ComponentKind::Tool, "clock")),
    ]);
    assert_eq!(
        error(nameless.validate(&given, &scope())),
        refused(ErrorCode::InvalidReference, "tools.model_name")
    );
}

#[test]
fn exports_belong_to_bound_adapters() {
    let mut given = profile();
    given.tools = vec![exported_tool(None)];
    let validator = ProfileValidator::new(vec![model_resolution()]);
    assert_eq!(
        error(validator.validate(&given, &scope())),
        refused(ErrorCode::InvalidReference, "adapter_binding")
    );
    given.adapters = Some(vec![adapter()]);
    let validator =
        ProfileValidator::new(vec![model_resolution(), adapter_resolution(ExportKind::Tool)]);
    assert!(validator.validate(&given, &scope()).is_ok());
    given.tools = vec![exported_tool(None), exported_tool(Some("again"))];
    assert_eq!(
        error(validator.validate(&given, &scope())),
        refused(ErrorCode::InvalidReference, "export.duplicate")
    );
    given.tools = vec![exported_tool(None)];
    let wrong =
        ProfileValidator::new(vec![model_resolution(), adapter_resolution(ExportKind::Hook)]);
    assert_eq!(
        error(wrong.validate(&given, &scope())),
        refused(ErrorCode::InvalidReference, "export.kind")
    );
}

#[test]
fn an_adapter_needs_its_connections() {
    let mut given = profile();
    let mut unconnected = adapter();
    unconnected.connections = vec![];
    given.adapters = Some(vec![unconnected]);
    let validator =
        ProfileValidator::new(vec![model_resolution(), adapter_resolution(ExportKind::Tool)]);
    assert_eq!(
        error(validator.validate(&given, &scope())),
        refused(ErrorCode::InvalidReference, "component.connections")
    );
}

#[test]
fn only_selected_exports_offer_capabilities() {
    let mut model = metadata(ComponentKind::ModelBinding, "model");
    model.required_capabilities = vec![id("reading")];
    let mut answer = model_resolution();
    answer.outcome = ResolutionOutcome::Resolved { metadata: model };
    let validator = ProfileValidator::new(vec![answer, adapter_resolution(ExportKind::Tool)]);
    let mut given = profile();
    given.adapters = Some(vec![adapter()]);
    assert_eq!(
        error(validator.validate(&given, &scope())),
        refused(ErrorCode::CapabilityUnsupported, "component.required_capabilities")
    );
    given.tools = vec![exported_tool(None)];
    assert!(validator.validate(&given, &scope()).is_ok());
}

#[test]
fn dependencies_are_selected() {
    let mut model = metadata(ComponentKind::ModelBinding, "model");
    model.dependencies =
        vec![ComponentRef { kind: ComponentKind::Skill, id: id("s"), version: Some(id("1")) }];
    let mut answer = model_resolution();
    answer.outcome = ResolutionOutcome::Resolved { metadata: model };
    assert_eq!(
        error(ProfileValidator::new(vec![answer]).validate(&profile(), &scope())),
        refused(ErrorCode::ComponentUnavailable, "component.dependencies")
    );
}

#[test]
fn a_source_fills_a_slot_once() {
    let binding = |trigger| ContextBinding {
        source: ContextSourceRef::Catalog(CatalogSource { source_id: id("notes"), version: id("1") }),
        trigger,
        required: false,
        timeout_ms: 100,
        max_items: 1,
        max_bytes: 100,
        max_tokens: 100,
    };
    let validator = ProfileValidator::new(vec![
        model_resolution(),
        resolution(metadata(ComponentKind::ContextSource, "notes")),
    ]);
    let mut given = profile();
    given.context_sources =
        Some(vec![binding(ContextTrigger::RunStart), binding(ContextTrigger::BeforeModel)]);
    assert!(validator.validate(&given, &scope()).is_ok());
    given.context_sources =
        Some(vec![binding(ContextTrigger::RunStart), binding(ContextTrigger::RunStart)]);
    assert_eq!(
        error(validator.validate(&given, &scope())),
        refused(ErrorCode::InvalidReference, "context_sources.duplicate")
    );
}

#[test]
fn a_hook_stands_at_its_position() {
    let mut given = profile();
    given.hooks = Some(vec![HookRef::Catalog(CatalogHook {
        hook_id: id("audit"),
        version: id("1"),
        position: HookPosition::AfterRun,
    })]);
    let mut audit = metadata(ComponentKind::Hook, "audit");
    audit.hook_position = Some(HookPosition::BeforeRun);
    let validator = ProfileValidator::new(vec![model_resolution(), resolution(audit)]);
    assert_eq!(
        error(validator.validate(&given, &scope())),
        refused(ErrorCode::InvalidReference, "hooks.position")
    );
}

#[test]
fn configuration_is_held_against_its_schema() {
    let schema = object(vec![
        member("type", text("object")),
        member(
            "properties",
            object(vec![member("size", object(vec![member("type", text("integer"))]))]),
        ),
    ]);
    let good = object(vec![member("size", Json::Number("3".to_owned()))]);
    let bad = object(vec![member("size", text("three"))]);
    assert!(validate_configuration(&schema, &good).is_ok());
    assert_eq!(
        error(validate_configuration(&schema, &bad)),
        refused(ErrorCode::InvalidConfiguration, "config")
    );
    let broken = object(vec![member("type", text("no such type"))]);
    assert_eq!(
        error(validate_configuration(&broken, &good)),
        refused(ErrorCode::InvalidSchema, "config_schema")
    );
}

#[test]
fn schemas_refer_to_nothing_outside() {
    let outside = object(vec![member("$ref", text("https://example.com/schema"))]);
    assert!(!is_self_contained(&outside));
    assert_eq!(
        error(validate_configuration(&outside, &Json::Null)),
        refused(ErrorCode::InvalidSchema, "config_schema")
    );
    assert!(is_self_contained(&Json::Bool(true)));
    assert!(!is_self_contained(&Json::Null));
}

#[test]
fn a_pinned_profile_is_restored_only_unchanged() {
    let pinned = resolved();
    let restored = ResolvedProfile::restore(
        profile(),
        scope(),
        pinned.profile_digest().copy(),
        pinned.components().copy(),
        pinned.resolution_digest().copy(),
    );
    assert!(restored.unwrap().same(&pinned));
    let changed = ResolvedProfile::restore(
        profile(),
        scope(),
        pinned.profile_digest().copy(),
        vec![],
        pinned.resolution_digest().copy(),
    );
    assert_eq!(error(changed), refused(ErrorCode::InvalidSnapshot, "resolved_profile"));
    assert_eq!(
        error(ResolvedProfile::restore(
            profile(),
            scope(),
            digest("other"),
            pinned.components().copy(),
            pinned.resolution_digest().copy(),
        )),
        refused(ErrorCode::InvalidSnapshot, "resolved_profile")
    );
}

#[test]
fn another_resolution_is_noticed() {
    let one = resolved();
    assert!(one.ensure_same_resolution(&resolved()).is_ok());
    let mut changed = metadata(ComponentKind::ModelBinding, "model");
    changed.capabilities = vec![id("text")];
    let mut found = model_resolution();
    found.outcome = ResolutionOutcome::Resolved { metadata: changed };
    let other = ProfileValidator::new(vec![found]).validate(&profile(), &scope()).unwrap();
    assert_eq!(
        error(one.ensure_same_resolution(&other)),
        refused(ErrorCode::ProfileMismatch, "resolution_digest")
    );
}
