use wickle::content::InputContent;
use wickle::context::ContextPriority;
use wickle::data::Data;
use wickle::encoding::encode_input;
use wickle::error::{ContractError, ErrorCode};
use wickle::hook::{
    HookContextAddition, HookDefinition, HookInput, HookOutput, HookPlan, HookPosition, HookTarget,
    OutputChecks,
};
use wickle::hook::records::{PlannedHook, apply, validate_output};
use wickle::hook::runtime::{
    CallbackOutcome, CallbackRace, CallbackResult, HookRegistry, HookRuntime, HookStep, Invocation,
    NormalizedInputs, PlanOutcome, RegisteredPlan, advance, begin_chain, code_id, finish_chain,
    is_reported, next_step, record_application, remaining_ms, save_application, settle_callback,
    settle_race,
};
use wickle::json::{Json, Member, member, object, text};
use wickle::model::ModelTool;
use wickle::profile::{
    AgentProfile, CompletionPolicy, ContextPolicy, Instructions, OutputContract, ProfileLimits,
};
use wickle::refs::{RecordRef, Scope, VersionedRef};
use wickle::resolution::{ComponentKind, ComponentMetadata, ComponentRef, ResolvedProfile};
use wickle::resolution::validator::{ProfileValidator, Resolution, ResolutionOutcome};
use wickle::run::{BudgetUsage, RunLimits, RunPhase, RunRequest, RunSnapshot, RunStatus, RunTiming};
use wickle::serialization::{Id, JsonDigest, canonical_digest};
use wickle::state::records::{ProtectedRecord, RecordContent};

fn id(value: &str) -> Id {
    Id::new(value.to_owned()).unwrap()
}

fn error<T>(result: Result<T, ContractError>) -> (ErrorCode, String) {
    match result {
        Ok(_) => panic!("the call succeeded"),
        Err(error) => (error.code, error.path),
    }
}

fn refused(code: ErrorCode, path: &str) -> (ErrorCode, String) {
    (code, path.to_owned())
}

fn digest(value: &str) -> JsonDigest {
    canonical_digest(&text(value))
}

fn scope() -> Scope {
    Scope { tenant_id: id("tenant"), workspace_id: id("workspace"), user_id: None }
}

fn elsewhere() -> Scope {
    Scope { tenant_id: id("other"), workspace_id: id("workspace"), user_id: None }
}

fn versioned(name: &str) -> VersionedRef {
    VersionedRef { id: id(name), version: id("1") }
}

fn record_ref(name: &str) -> RecordRef {
    RecordRef { record_id: id(name), revision: 1, digest: digest(name) }
}

fn record(name: &str, content: RecordContent) -> ProtectedRecord {
    ProtectedRecord::new(id(name), 1, text(name), content)
}

fn profile() -> AgentProfile {
    AgentProfile {
        agent_id: id("agent"),
        version: id("1"),
        model_binding: id("model"),
        model_options: vec![],
        limits: ProfileLimits { max_output_tokens: None },
        connectors: vec![],
        adapters: None,
        tools: vec![],
        skills: vec![],
        context_sources: None,
        hooks: None,
        instructions: Instructions::Inline { text: "help".to_owned() },
        completion_policy: CompletionPolicy::Direct,
        output_contract: OutputContract::Text,
        context_policy: ContextPolicy { strategy: id("window"), version: None, config: None },
        extensions: None,
        digest: digest("profile"),
        defect: None,
    }
}

fn metadata(kind: ComponentKind, name: &str) -> ComponentMetadata {
    ComponentMetadata {
        reference: ComponentRef { kind, id: id(name), version: Some(id("1")) },
        contract_version: 1,
        manifest_digest: digest(name),
        config_schema: object(vec![]),
        dependencies: vec![],
        capabilities: vec![],
        required_capabilities: vec![],
        required_connections: vec![],
        model_name: None,
        hook_position: None,
        exports: vec![],
    }
}

fn model_resolution() -> Resolution {
    Resolution {
        requested: ComponentRef { kind: ComponentKind::ModelBinding, id: id("model"), version: None },
        outcome: ResolutionOutcome::Resolved {
            metadata: metadata(ComponentKind::ModelBinding, "model"),
        },
    }
}

fn resolved() -> ResolvedProfile {
    ProfileValidator::new(vec![model_resolution()]).validate(&profile(), &scope()).unwrap()
}

fn run_request(name: &str) -> RunRequest {
    let input = vec![InputContent::Text { text: "hello".to_owned() }];
    RunRequest {
        request_id: id(name),
        session_id: id("session"),
        input_digest: canonical_digest(&encode_input(&input)),
        input,
        model_options: vec![],
        max_output_tokens: None,
    }
}

fn snapshot(run: &str, request: &str) -> RunSnapshot {
    RunSnapshot {
        run_id: id(run),
        scope: scope(),
        request: run_request(request),
        request_digest: digest(request),
        profile: resolved(),
        system_inputs: None,
        limits: RunLimits {
            max_model_calls: 4,
            max_tool_attempts: 4,
            max_repair_attempts: 1,
            max_recovery_attempts: 2,
            max_elapsed_ms: 60_000,
        },
        revision: 0,
        status: RunStatus::Running,
        phase: RunPhase::Admission,
        usage: BudgetUsage {
            model_calls: 0,
            tool_attempts: 0,
            repair_attempts: 0,
            recovery_attempts: 0,
            elapsed_ms: 0,
        },
        timing: RunTiming { deadline_at_ms: 100_000, last_observed_at_ms: 1_000 },
        reservations: vec![],
        last_event_seq: 1,
        wait: None,
        outcome: None,
        model_ledger: vec![],
        model_step_id: None,
        model_step_inputs: vec![],
        prepared_steps: vec![],
        active_prepared_step: None,
        tool_ledger: vec![],
        resume_receipts: vec![],
        recovery_receipts: vec![],
        hook_plan_ref: None,
        hook_applications: vec![],
        source_plan_ref: None,
        context_batches: vec![],
        source_states: vec![],
        context_revision_ref: None,
        context_decisions: vec![],
        skill_plan_ref: None,
        assembly_ref: None,
        routing_snapshot_ref: None,
        verification_plan_ref: None,
        candidate_ref: None,
        verification_records: vec![],
        interruption_plan_ref: None,
        interruption_records: vec![],
        app_state: None,
        document: Json::Null,
        defect: None,
    }
}

fn definition(position: HookPosition, required: bool) -> HookDefinition {
    HookDefinition {
        hook: versioned("hook"),
        position,
        required,
        timeout_ms: 100,
        max_output_bytes: 1_000,
    }
}

fn hook(position: HookPosition) -> PlannedHook {
    PlannedHook { definition: definition(position, true), selection: None }
}

fn checks() -> OutputChecks {
    OutputChecks { additions_safe: true, normalized_inputs: Some(inputs("b")) }
}

fn inputs(value: &str) -> Vec<Member> {
    vec![member("a", text(value))]
}

fn tool_input() -> HookInput {
    HookInput::BeforeTool {
        tool: ModelTool {
            name: id("clock"),
            description: "time".to_owned(),
            model_input_schema: Json::Bool(true),
        },
        descriptor_digest: digest("descriptor"),
        compiled_digest: digest("compiled"),
        original_model_inputs: inputs("a"),
        model_inputs: inputs("a"),
    }
}

fn tool_target() -> HookTarget {
    HookTarget::BeforeTool { call_id: id("call") }
}

fn tool_output(deny: Option<&str>) -> HookOutput {
    HookOutput::Tool { model_inputs: inputs("b"), deny: deny.map(id) }
}

fn invocation(deny: Option<&str>) -> Invocation {
    Invocation {
        scope: scope(),
        run_id: id("run"),
        hook: hook(HookPosition::BeforeTool),
        target: tool_target(),
        input: tool_input(),
        outcome: CallbackOutcome { output: Some(tool_output(deny)), failure: None },
        item_ids: vec![],
        record_id: id("application"),
        input_defect: None,
        checks: checks(),
        normalized_original: inputs("a"),
        original_defect: None,
    }
}

fn normalized() -> NormalizedInputs {
    NormalizedInputs::Inputs { members: inputs("a") }
}

fn runtime() -> HookRuntime {
    HookRuntime::new(HookRegistry {
        scope: scope(),
        handlers: vec![hook(HookPosition::BeforeTool)],
        plans: vec![RegisteredPlan {
            profile_digest: digest("profile"),
            outcome: PlanOutcome::Planned {
                plan: HookPlan {
                    scope: scope(),
                    definitions: vec![definition(HookPosition::BeforeTool, true)],
                    selections: vec![None],
                },
            },
        }],
    })
}

#[test]
fn a_runtime_plans_for_its_scope() {
    let runtime = runtime();
    assert!(runtime.scope().same(&scope()));
    assert_eq!(runtime.plan(&profile()).unwrap().definitions.len(), 1);
    assert!(runtime.check_scope(&scope(), &scope()).is_ok());
    assert_eq!(error(runtime.check_scope(&elsewhere(), &scope())).0, ErrorCode::AccessDenied);
    assert_eq!(
        runtime.with_binding_set_id(id("set")).binding_set_id.unwrap().as_str(),
        "set"
    );
}

#[test]
fn a_chain_calls_a_hook_and_keeps_its_result() {
    let hooks = vec![hook(HookPosition::BeforeTool)];
    let run = snapshot("run", "request");
    let progress = begin_chain(tool_input(), &normalized(), None).unwrap();
    assert!(matches!(
        next_step(&progress, &hooks, &run, &tool_target()),
        HookStep::Invoke { .. }
    ));
    let saved = record_application(&invocation(None)).unwrap();
    let next = save_application(
        run,
        &tool_target(),
        &hooks[0],
        saved.application.copy(),
        5,
        2_000,
    )
    .unwrap();
    assert_eq!(next.revision, 1);
    assert_eq!(next.hook_applications.len(), 1);
    assert!(matches!(
        next_step(&progress, &hooks, &next, &tool_target()),
        HookStep::Reuse { .. }
    ));
    let advanced = advance(progress, &saved.value, saved.application).unwrap();
    assert!(matches!(next_step(&advanced, &hooks, &next, &tool_target()), HookStep::Finish));
    let transform = finish_chain(advanced);
    assert!(transform.model_inputs.unwrap().same(&inputs("b")));
    assert!(transform.deny.is_none());
}

#[test]
fn a_denial_ends_the_chain() {
    let hooks = vec![hook(HookPosition::BeforeTool), hook(HookPosition::BeforeTool)];
    let run = snapshot("run", "request");
    let progress = begin_chain(tool_input(), &normalized(), None).unwrap();
    let saved = record_application(&invocation(Some("no"))).unwrap();
    let advanced = advance(progress, &saved.value, saved.application).unwrap();
    assert!(matches!(next_step(&advanced, &hooks, &run, &tool_target()), HookStep::Finish));
    assert_eq!(finish_chain(advanced).deny.unwrap().as_str(), "no");
}

#[test]
fn a_record_of_another_input_is_refused() {
    let saved = record_application(&invocation(None)).unwrap();
    let mut other = tool_input();
    if let HookInput::BeforeTool { model_inputs, .. } = &mut other {
        *model_inputs = inputs("z");
    }
    assert_eq!(
        error(apply(&other, &saved.value)),
        refused(ErrorCode::InvalidSnapshot, "hooks.chain_input")
    );
    assert!(apply(&tool_input(), &saved.value).is_ok());
}

#[test]
fn only_optional_start_hooks_may_fail() {
    let failed = || CallbackResult::Failed { code: id("timeout") };
    let start = HookInput::BeforeRun { user_input: vec![], context_items: vec![] };
    let optional = definition(HookPosition::BeforeRun, false);
    let kept = settle_callback(&optional, &HookTarget::BeforeRun, &start, failed()).unwrap();
    assert_eq!(kept.failure.unwrap().as_str(), "timeout");
    assert!(kept.output.is_none());
    let required = definition(HookPosition::BeforeRun, true);
    assert_eq!(
        error(settle_callback(&required, &HookTarget::BeforeRun, &start, failed())),
        refused(ErrorCode::InvalidContract, "hooks.callback")
    );
}

#[test]
fn an_output_fits_its_position_and_size() {
    let tool = definition(HookPosition::BeforeTool, true);
    assert!(validate_output(&tool, &tool_input(), &tool_output(None), &checks()).is_ok());
    let additions = HookOutput::Context {
        additions: vec![HookContextAddition {
            content: vec![InputContent::Text { text: "more".to_owned() }],
            priority: ContextPriority::Optional,
        }],
    };
    assert_eq!(
        error(validate_output(&tool, &tool_input(), &additions, &checks())),
        refused(ErrorCode::InvalidContract, "hooks.output")
    );
    let mut small = definition(HookPosition::BeforeTool, true);
    small.max_output_bytes = 10;
    assert_eq!(
        error(validate_output(&small, &tool_input(), &tool_output(None), &checks())),
        refused(ErrorCode::InvalidContract, "hooks.output")
    );
}

#[test]
fn a_race_is_settled_by_its_winner() {
    assert_eq!(
        error(settle_race(CallbackRace::Cancelled)),
        refused(ErrorCode::Cancelled, "hooks.callback")
    );
    match settle_race(CallbackRace::DeadlinePassed).unwrap() {
        CallbackResult::Failed { code } => assert_eq!(code.as_str(), "deadline_exceeded"),
        CallbackResult::Output { .. } => panic!("nothing was returned"),
    }
    match settle_race(CallbackRace::Panicked).unwrap() {
        CallbackResult::Failed { code } => assert_eq!(code.as_str(), "invalid_contract"),
        CallbackResult::Output { .. } => panic!("nothing was returned"),
    }
    assert_eq!(code_id(ErrorCode::Cancelled).as_str(), "cancelled");
    assert!(!is_reported(&vec![], &hook(HookPosition::AfterRun), &HookTarget::BeforeRun));
}

#[test]
fn time_runs_out_at_the_deadline() {
    assert_eq!(remaining_ms(1_500, 1_000), 500);
    assert_eq!(remaining_ms(1_000, 1_000), 0);
    assert_eq!(remaining_ms(0, 1), 0);
    assert_eq!(remaining_ms(i64::MAX, i64::MIN), i64::MAX as u64);
}
