use wickle::content::{
    InputContent, ToolCall, ToolCallState, ToolEffect, ToolLedgerEntry, ToolResult,
    ToolResultStatus,
};
use wickle::context::{ContextItem, ContextLifetime, ContextOrigin, ContextPriority};
use wickle::context_source::runtime::PolicyVerdict;
use wickle::data::Data;
use wickle::encoding::encode_input;
use wickle::error::{ContractError, ErrorCode};
use wickle::json::{Json, Member, member, object, text};
use wickle::profile::{
    AgentProfile, CatalogTool, CompletionPolicy, ContextPolicy, Instructions, OutputContract,
    ProfileLimits, SkillRef, ToolBindingRef,
};
use wickle::prompt::PromptToolBinding;
use wickle::refs::{RecordRef, Scope, VersionedRef};
use wickle::resolution::{ComponentKind, ComponentMetadata, ComponentRef, ResolvedProfile};
use wickle::resolution::validator::{ProfileValidator, Resolution, ResolutionOutcome};
use wickle::run::{BudgetUsage, RunLimits, RunPhase, RunRequest, RunSnapshot, RunStatus, RunTiming};
use wickle::serialization::{Id, JsonDigest, canonical_digest};
use wickle::skills::{
    LoadedSkill, PlannedSkill, SkillDefinition, SkillLimits, SkillPlan, ToolRetryPolicy,
    ToolSideEffect,
};
use wickle::skills::runtime::{
    FetchedSkill, LoadStep, LoaderCompilation, OperationEnd, SkillCall, SkillRuntime, attest,
    bodies_exceed, check_call, choose_skill, context_item, loaded_bodies, output_limit, prior_loads,
    settle_operation, settle_skill_policy,
};
use wickle::state::records::{ProtectedRecord, RecordContent};

fn id(value: &str) -> Id {
    Id::new(value.to_owned()).unwrap()
}

fn error<T>(result: Result<T, ContractError>) -> (ErrorCode, String) {
    match result {
        Ok(_) => panic!("the call succeeded"),
        Err(error) => (error.code, error.path),
    }
}

fn refused(code: ErrorCode, path: &str) -> (ErrorCode, String) {
    (code, path.to_owned())
}

fn digest(value: &str) -> JsonDigest {
    canonical_digest(&text(value))
}

fn scope() -> Scope {
    Scope { tenant_id: id("tenant"), workspace_id: id("workspace"), user_id: None }
}

fn elsewhere() -> Scope {
    Scope { tenant_id: id("other"), workspace_id: id("workspace"), user_id: None }
}

fn versioned(name: &str) -> VersionedRef {
    VersionedRef { id: id(name), version: id("1") }
}

fn record_ref(name: &str) -> RecordRef {
    RecordRef { record_id: id(name), revision: 1, digest: digest(name) }
}

fn record(name: &str, content: RecordContent) -> ProtectedRecord {
    ProtectedRecord::new(id(name), 1, text(name), content)
}

fn profile() -> AgentProfile {
    AgentProfile {
        agent_id: id("agent"),
        version: id("1"),
        model_binding: id("model"),
        model_options: vec![],
        limits: ProfileLimits { max_output_tokens: None },
        connectors: vec![],
        adapters: None,
        tools: vec![],
        skills: vec![],
        context_sources: None,
        hooks: None,
        instructions: Instructions::Inline { text: "help".to_owned() },
        completion_policy: CompletionPolicy::Direct,
        output_contract: OutputContract::Text,
        context_policy: ContextPolicy { strategy: id("window"), version: None, config: None },
        extensions: None,
        digest: digest("profile"),
        defect: None,
    }
}

fn metadata(kind: ComponentKind, name: &str) -> ComponentMetadata {
    ComponentMetadata {
        reference: ComponentRef { kind, id: id(name), version: Some(id("1")) },
        contract_version: 1,
        manifest_digest: digest(name),
        config_schema: object(vec![]),
        dependencies: vec![],
        capabilities: vec![],
        required_capabilities: vec![],
        required_connections: vec![],
        model_name: None,
        hook_position: None,
        exports: vec![],
    }
}

fn resolution(metadata: ComponentMetadata) -> Resolution {
    let reference = &metadata.reference;
    Resolution {
        requested: ComponentRef {
            kind: reference.kind,
            id: id(reference.id.as_str()),
            version: reference.version.as_ref().map(|version| id(version.as_str())),
        },
        outcome: ResolutionOutcome::Resolved { metadata },
    }
}

fn model_resolution() -> Resolution {
    Resolution {
        requested: ComponentRef { kind: ComponentKind::ModelBinding, id: id("model"), version: None },
        outcome: ResolutionOutcome::Resolved {
            metadata: metadata(ComponentKind::ModelBinding, "model"),
        },
    }
}

fn resolved() -> ResolvedProfile {
    ProfileValidator::new(vec![model_resolution()]).validate(&profile(), &scope()).unwrap()
}

fn run_request(name: &str) -> RunRequest {
    let input = vec![InputContent::Text { text: "hello".to_owned() }];
    RunRequest {
        request_id: id(name),
        session_id: id("session"),
        input_digest: canonical_digest(&encode_input(&input)),
        input,
        model_options: vec![],
        max_output_tokens: None,
    }
}

fn snapshot(run: &str, request: &str) -> RunSnapshot {
    RunSnapshot {
        run_id: id(run),
        scope: scope(),
        request: run_request(request),
        request_digest: digest(request),
        profile: resolved(),
        system_inputs: None,
        limits: RunLimits {
            max_model_calls: 4,
            max_tool_attempts: 4,
            max_repair_attempts: 1,
            max_recovery_attempts: 2,
            max_elapsed_ms: 60_000,
        },
        revision: 0,
        status: RunStatus::Running,
        phase: RunPhase::Admission,
        usage: BudgetUsage {
            model_calls: 0,
            tool_attempts: 0,
            repair_attempts: 0,
            recovery_attempts: 0,
            elapsed_ms: 0,
        },
        timing: RunTiming { deadline_at_ms: 100_000, last_observed_at_ms: 1_000 },
        reservations: vec![],
        last_event_seq: 1,
        wait: None,
        outcome: None,
        model_ledger: vec![],
        model_step_id: None,
        model_step_inputs: vec![],
        prepared_steps: vec![],
        active_prepared_step: None,
        tool_ledger: vec![],
        resume_receipts: vec![],
        recovery_receipts: vec![],
        hook_plan_ref: None,
        hook_applications: vec![],
        source_plan_ref: None,
        context_batches: vec![],
        source_states: vec![],
        context_revision_ref: None,
        context_decisions: vec![],
        skill_plan_ref: None,
        assembly_ref: None,
        routing_snapshot_ref: None,
        verification_plan_ref: None,
        candidate_ref: None,
        verification_records: vec![],
        interruption_plan_ref: None,
        interruption_records: vec![],
        app_state: None,
        document: Json::Null,
        defect: None,
    }
}

fn limits() -> SkillLimits {
    SkillLimits { max_body_bytes: 10, max_total_body_bytes: 12, timeout_ms: 50, defect: None }
}

fn selection(name: &str) -> SkillRef {
    SkillRef { skill_id: id(name), version: id("1"), config: None }
}

fn definition(name: &str) -> SkillDefinition {
    SkillDefinition {
        skill: versioned(name),
        body_bytes: 8,
        assets: vec![],
        required_tool_capabilities: vec![id("skill_loading")],
        digest: digest(name),
        metadata: metadata(ComponentKind::Skill, name),
        defect: None,
    }
}

fn compiled() -> LoaderCompilation {
    LoaderCompilation::Compiled { descriptor_digest: digest("descriptor"), digest: digest("compiled") }
}

fn runtime() -> SkillRuntime {
    SkillRuntime::new(
        scope(),
        false,
        vec![definition("write"), definition("read")],
        SkillRuntime::catalog_loader(),
        limits(),
        compiled(),
    )
    .unwrap()
}

fn resolutions(runtime: &SkillRuntime) -> Vec<Resolution> {
    let loader = runtime
        .component_metadata(&wickle::resolution::ComponentRef {
            kind: ComponentKind::Tool,
            id: id("wickle.skills.load"),
            version: Some(id("1")),
        })
        .unwrap();
    vec![
        model_resolution(),
        resolution(loader),
        resolution(metadata(ComponentKind::Skill, "write")),
        resolution(metadata(ComponentKind::Skill, "read")),
    ]
}

fn skilled(runtime: &SkillRuntime) -> ResolvedProfile {
    let mut given = profile();
    given.tools = vec![SkillRuntime::catalog_loader()];
    given.skills = vec![selection("read"), selection("write")];
    ProfileValidator::new(resolutions(runtime)).validate(&given, &scope()).unwrap()
}

fn bindings() -> Vec<PromptToolBinding> {
    vec![PromptToolBinding {
        selection: SkillRuntime::catalog_loader(),
        compiled_digest: digest("compiled"),
    }]
}

fn plan() -> SkillPlan {
    let runtime = runtime();
    runtime.plan(&skilled(&runtime), &bindings(), &resolutions(&runtime), &None).unwrap()
}

fn planned(plan: &SkillPlan, name: &str) -> PlannedSkill {
    plan.skills.iter().find(|entry| entry.selection.skill_id.as_str() == name).unwrap().copy()
}

fn call(name: &str) -> SkillCall {
    SkillCall {
        scope: scope(),
        run_id: id("run"),
        call_id: id(name),
        attempt_id: id("attempt"),
        idempotency_key: id("key"),
    }
}

fn fetched(body: &str) -> FetchedSkill {
    FetchedSkill {
        body: body.to_owned(),
        summary: text("summary"),
        context_item: ContextItem::new(
            id("item"),
            ContextOrigin::Skill,
            versioned("read"),
            scope(),
            vec![InputContent::Text { text: body.to_owned() }],
            ContextLifetime::Run { run_id: id("run") },
            ContextPriority::Required,
        ),
        item_defect: None,
        defect: None,
    }
}

fn entry(name: &str, state: ToolCallState) -> ToolLedgerEntry {
    ToolLedgerEntry {
        call: ToolCall {
            call_id: id(name),
            run_id: id("run"),
            provider_call_id: id("p"),
            model_request_id: id("m"),
            tool_name: id("skills_load"),
            model_inputs: vec![],
            descriptor_digest: Some(digest("descriptor")),
            bound_input_ref: Some(record_ref("bound")),
            provider_arguments: None,
        },
        state,
    }
}

fn settled(name: &str, load: &wickle::state::records::ProtectedRecord) -> ToolLedgerEntry {
    entry(
        name,
        ToolCallState::Settled {
            result: ToolResult {
                call_id: id(name),
                call_message_id: id("message"),
                status: ToolResultStatus::Succeeded,
                effect: ToolEffect::NotApplied,
                content: vec![InputContent::Json { value: text("summary") }],
                error: None,
                effect_receipt_ref: None,
                skill_ref: Some(load.reference().copy()),
                digest: digest(name),
            },
        },
    )
}

#[test]
fn the_loader_describes_itself() {
    let runtime = runtime();
    let descriptor = runtime.loader_descriptor();
    assert_eq!(descriptor.name.as_str(), "skills_load");
    assert_eq!(descriptor.tool.id.as_str(), "wickle.skills.load");
    assert_eq!(descriptor.agent_parameters, vec!["skill_id".to_owned(), "version".to_owned()]);
    assert_eq!(descriptor.max_output_bytes, 65_596);
    assert_eq!(descriptor.side_effect, ToolSideEffect::ReadOnly);
    assert_eq!(descriptor.retry, ToolRetryPolicy::Never);
    assert_eq!(
        wickle::serialization::canonical_json(&descriptor.input_schema),
        "{\"additionalProperties\":false,\"properties\":{\"skill_id\":{\"minLength\":1,\"type\":\"string\"},\
         \"version\":{\"minLength\":1,\"type\":\"string\"}},\"required\":[\"skill_id\",\"version\"],\
         \"type\":\"object\"}"
    );
    assert!(runtime.loader_tool().digest.same(&digest("compiled")));
    assert!(runtime.scope().same(&scope()));
}

#[test]
fn the_output_limit_grows_with_the_body() {
    assert_eq!(output_limit(&limits()).unwrap(), 65_596);
    let mut huge = limits();
    huge.max_body_bytes = u64::MAX / 6;
    assert_eq!(
        error(output_limit(&huge)),
        refused(ErrorCode::InvalidConfiguration, "skills.output_limit")
    );
}

#[test]
fn a_registry_holds_each_skill_once() {
    let build = |definitions: Vec<SkillDefinition>, loader: ToolBindingRef| {
        SkillRuntime::new(scope(), false, definitions, loader, limits(), compiled())
    };
    assert_eq!(
        error(build(vec![definition("a"), definition("a")], SkillRuntime::catalog_loader())),
        refused(ErrorCode::InvalidConfiguration, "skills.registry")
    );
    let many: Vec<SkillDefinition> = (0..65).map(|i| definition(&format!("s{}", i))).collect();
    assert_eq!(
        error(build(many, SkillRuntime::catalog_loader())),
        refused(ErrorCode::InvalidConfiguration, "skills.count")
    );
    let other = ToolBindingRef::Catalog(CatalogTool {
        tool_id: id("other"),
        version: id("1"),
        config: None,
        bindings: None,
    });
    assert_eq!(
        error(build(vec![], other)),
        refused(ErrorCode::InvalidConfiguration, "skills.loader")
    );
    let broken = SkillRuntime::new(
        scope(),
        false,
        vec![],
        SkillRuntime::catalog_loader(),
        limits(),
        LoaderCompilation::Refused { error: ContractError::new(ErrorCode::InvalidSchema, "schema") },
    );
    assert_eq!(error(broken), refused(ErrorCode::InvalidSchema, "schema"));
}

#[test]
fn a_plan_pins_the_selected_skills_in_order() {
    let plan = plan();
    let names: Vec<&str> = plan.skills.iter().map(|entry| entry.selection.skill_id.as_str()).collect();
    assert_eq!(names, vec!["read", "write"]);
    assert_eq!(plan.schema_version, "wickle.skill-plan.v1");
    assert_eq!(plan.tool_capabilities.len(), 1);
    assert_eq!(plan.tool_capabilities[0].as_str(), "skill_loading");
    assert!(runtime().validate_current(&plan).is_ok());
}

#[test]
fn a_plan_needs_its_loader() {
    let runtime = runtime();
    let profile = skilled(&runtime);
    assert_eq!(
        error(runtime.plan(&profile, &vec![], &resolutions(&runtime), &None)),
        refused(ErrorCode::ComponentUnavailable, "skills.loader_missing")
    );
    let mut other = bindings();
    other[0].compiled_digest = digest("other");
    assert_eq!(
        error(runtime.plan(&profile, &other, &resolutions(&runtime), &None)),
        refused(ErrorCode::ContextMismatch, "skills.loader_contract")
    );
    assert_eq!(
        error(runtime.plan(&profile, &bindings(), &vec![], &None)),
        refused(ErrorCode::ComponentUnavailable, "component.reference")
    );
    let mut changed = metadata(ComponentKind::Skill, "read");
    changed.capabilities = vec![id("more")];
    assert_eq!(
        error(attest(&profile, &changed)),
        refused(ErrorCode::ContextMismatch, "skills.metadata")
    );
}

#[test]
fn a_saved_plan_is_restored_for_its_reference() {
    let runtime = runtime();
    let saved = record("plan", RecordContent::SkillPlan(plan()));
    let mut run = snapshot("run", "request");
    assert_eq!(
        error(runtime.plan_reference(&run)),
        refused(ErrorCode::InvalidSnapshot, "skills.plan_missing")
    );
    run.skill_plan_ref = Some(saved.reference().copy());
    let reference = runtime.plan_reference(&run).unwrap();
    assert!(runtime.saved_plan(&reference, &saved).unwrap().same(&plan()));
    assert_eq!(
        error(runtime.saved_plan(&record_ref("other"), &saved)),
        refused(ErrorCode::InvalidSnapshot, "skills.plan_reference")
    );
    let mut foreign = plan();
    foreign.scope = elsewhere();
    let foreign = record("plan", RecordContent::SkillPlan(foreign));
    assert_eq!(
        error(runtime.saved_plan(foreign.reference(), &foreign)),
        refused(ErrorCode::ContextMismatch, "skills.pinned_definitions")
    );
}

#[test]
fn only_the_dispatched_call_loads() {
    let plan = plan();
    let mut run = snapshot("run", "request");
    assert_eq!(
        error(check_call(&plan, &run, &call("c1"))),
        refused(ErrorCode::InvalidSnapshot, "skills.call")
    );
    run.tool_ledger = vec![entry("c1", ToolCallState::Planned)];
    assert_eq!(
        error(check_call(&plan, &run, &call("c1"))),
        refused(ErrorCode::AccessDenied, "skills.loader_call")
    );
    run.tool_ledger = vec![entry(
        "c1",
        ToolCallState::Dispatching { attempt_id: id("attempt"), idempotency_key: id("key") },
    )];
    assert!(check_call(&plan, &run, &call("c1")).unwrap().same(&record_ref("bound")));
    run.tool_ledger[0].call.bound_input_ref = None;
    assert_eq!(
        error(check_call(&plan, &run, &call("c1"))),
        refused(ErrorCode::InvalidSnapshot, "skills.bound_input")
    );
}

#[test]
fn arguments_choose_an_exact_version() {
    let plan = plan();
    let asked = |name: &str, version: &str| -> Vec<Member> {
        vec![member("skill_id", text(name)), member("version", text(version))]
    };
    let chosen = choose_skill(&plan, &asked("write", "1"), &asked("write", "1")).unwrap();
    assert_eq!(chosen.selection.skill_id.as_str(), "write");
    assert_eq!(
        error(choose_skill(&plan, &asked("write", "2"), &asked("write", "2"))),
        refused(ErrorCode::InvalidSkill, "skills.requested_version")
    );
    assert_eq!(
        error(choose_skill(&plan, &asked("read", "1"), &asked("write", "1"))),
        refused(ErrorCode::AccessDenied, "skills.bound_arguments")
    );
}

#[test]
fn a_loaded_skill_is_handed_out_again() {
    let runtime = runtime();
    let plan = plan();
    let read = planned(&plan, "read");
    let write = planned(&plan, "write");
    assert!(matches!(runtime.next_load(&read, &vec![], &call("c1")).unwrap(), LoadStep::Fetch));
    let loaded = runtime.record_load(&read, &call("c1"), fetched("12345")).unwrap();
    assert_eq!(loaded.schema_version, "wickle.loaded-skill.v1");
    assert!(loaded.definition_digest.same(&digest("read")));
    match runtime.next_load(&read, &vec![loaded.copy()], &call("c2")).unwrap() {
        LoadStep::Reuse { loaded } => {
            assert_eq!(loaded.call_id.as_str(), "c2");
            assert_eq!(loaded.body, "12345");
        }
        LoadStep::Fetch => panic!("the skill was loaded before"),
    }
    assert_eq!(
        error(runtime.next_load(&write, &vec![loaded.copy(), loaded.copy()], &call("c3"))),
        refused(ErrorCode::ContextBudgetExceeded, "skills.total_body")
    );
    let small = runtime.record_load(&read, &call("c1"), fetched("1234")).unwrap();
    assert!(runtime.next_load(&write, &vec![small.copy(), small], &call("c3")).is_ok());
}

#[test]
fn bytes_are_counted_not_characters() {
    let runtime = runtime();
    let plan = plan();
    let body = runtime.record_load(&planned(&plan, "read"), &call("c"), fetched("\u{e9}\u{e9}")).unwrap();
    assert!(!bodies_exceed(&vec![body.copy()], 4));
    assert!(bodies_exceed(&vec![body.copy()], 3));
    assert!(bodies_exceed(&vec![body.copy(), body], 7));
}

#[test]
fn loads_are_read_from_their_records() {
    let runtime = runtime();
    let plan = plan();
    let body = runtime.record_load(&planned(&plan, "read"), &call("c1"), fetched("12345")).unwrap();
    let load = record("load", RecordContent::LoadedSkill(body));
    let mut run = snapshot("run", "request");
    run.tool_ledger = vec![settled("c1", &load)];
    let records = vec![load.copy()];
    assert_eq!(prior_loads(&plan, &run, &records).unwrap().len(), 1);
    let bodies = loaded_bodies(&plan, &run, &records).unwrap();
    assert_eq!(bodies.len(), 1);
    assert_eq!(context_item(&bodies[0]).unwrap().item_id.as_str(), "item");
    assert_eq!(
        error(loaded_bodies(&plan, &run, &vec![])),
        refused(ErrorCode::InvalidSnapshot, "skills.record")
    );
    let opaque = record("load", RecordContent::Opaque);
    assert_eq!(
        error(loaded_bodies(&plan, &run, &vec![opaque])),
        refused(ErrorCode::InvalidSkill, "skills.record")
    );
    run.tool_ledger[0].call.descriptor_digest = None;
    assert_eq!(
        error(loaded_bodies(&plan, &run, &records)),
        refused(ErrorCode::InvalidSkill, "skills.result")
    );
    assert_eq!(
        error(prior_loads(&plan, &run, &records)),
        refused(ErrorCode::InvalidSnapshot, "skills.result")
    );
}

#[test]
fn contexts_follow_the_plan_and_its_budget() {
    let runtime = runtime();
    let plan = plan();
    let write = runtime.record_load(&planned(&plan, "write"), &call("c1"), fetched("12345")).unwrap();
    let read = runtime.record_load(&planned(&plan, "read"), &call("c2"), fetched("123456")).unwrap();
    let first = record("first", RecordContent::LoadedSkill(write));
    let second = record("second", RecordContent::LoadedSkill(read));
    let mut run = snapshot("run", "request");
    run.tool_ledger = vec![settled("c1", &first), settled("c2", &second)];
    let records = vec![first, second];
    let bodies = loaded_bodies(&plan, &run, &records).unwrap();
    let names: Vec<&str> = bodies.iter().map(|body| body.selection.skill_id.as_str()).collect();
    assert_eq!(names, vec!["read", "write"]);
    let mut tight = plan.copy();
    tight.limits.max_total_body_bytes = 10;
    assert_eq!(
        error(loaded_bodies(&tight, &run, &records)),
        refused(ErrorCode::ContextBudgetExceeded, "skills.total_body")
    );
}

#[test]
fn refusals_hide_their_details() {
    let failed = OperationEnd::Failed { error: ContractError::new(ErrorCode::AccessDenied, "inner") };
    assert_eq!(
        error(settle_operation(&failed, false, false)),
        refused(ErrorCode::AccessDenied, "skills.operation")
    );
    assert_eq!(
        error(settle_operation(&OperationEnd::Done, true, true)),
        refused(ErrorCode::Cancelled, "skills.operation")
    );
    assert_eq!(
        error(settle_operation(&OperationEnd::Done, false, true)),
        refused(ErrorCode::DeadlineExceeded, "skills.operation")
    );
    assert_eq!(
        error(settle_operation(&OperationEnd::Panicked, false, false)),
        refused(ErrorCode::InvalidSkill, "skills.operation")
    );
    assert!(settle_operation(&OperationEnd::Done, false, false).is_ok());
    assert!(settle_skill_policy(PolicyVerdict::Allow).is_ok());
    assert_eq!(
        error(settle_skill_policy(PolicyVerdict::RequireApproval)),
        refused(ErrorCode::SkillApprovalRequired, "skills.policy")
    );
}
