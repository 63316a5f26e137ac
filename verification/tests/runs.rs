use wickle::content::{
    InputContent, ToolCall, ToolCallState, ToolEffect, ToolLedgerEntry, ToolResult,
    ToolResultStatus,
};
use wickle::data::Data;
use wickle::encoding::encode_input;
use wickle::error::{ContractError, ErrorCode};
use wickle::execution_contracts::{InterruptionAction, InterruptionCause, InterruptionRecord};
use wickle::interruption::InterruptionDecisionRecord;
use wickle::json::{Json, object, text};
use wickle::model::{
    ApiContract, ModelAttemptState, ModelInvocationRecord, ModelPurpose, ResolvedModelRoute,
    VersionSemantics,
};
use wickle::profile::{
    AgentProfile, CompletionPolicy, ContextPolicy, Instructions, OutputContract, ProfileLimits,
};
use wickle::refs::{RecordRef, Scope, VersionedRef, record_key};
use wickle::resolution::{ComponentKind, ComponentMetadata, ComponentRef, ResolvedProfile};
use wickle::resolution::validator::{ProfileValidator, Resolution, ResolutionOutcome};
use wickle::run::{
    BudgetKind, BudgetUsage, OutcomeResult, ResumeAction, ResumeCommand, ResumeReceipt, RunFailure,
    RunLimits, RunOutcome, RunPhase, RunRequest, RunSnapshot, RunStatus, RunTiming, WaitState,
    WaitTarget,
};
use wickle::serialization::{Id, JsonDigest, canonical_digest};
use wickle::state::interruption_state::validate_result;
use wickle::state::records::{ProtectedRecord, RecordContent, Records};
use wickle::state::scope::ScopeState;
use wickle::state::transition::{TransitionChecks, validate_transition};
use wickle::state::verification_state::validate;
use wickle::table::Table;
use wickle::verification::VerificationPlan;

fn id(value: &str) -> Id {
    Id::new(value.to_owned()).unwrap()
}

fn error<T>(result: Result<T, ContractError>) -> (ErrorCode, String) {
    match result {
        Ok(_) => panic!("the call succeeded"),
        Err(error) => (error.code, error.path),
    }
}

fn refused(code: ErrorCode, path: &str) -> (ErrorCode, String) {
    (code, path.to_owned())
}

fn digest(value: &str) -> JsonDigest {
    canonical_digest(&text(value))
}

fn scope() -> Scope {
    Scope { tenant_id: id("tenant"), workspace_id: id("workspace"), user_id: None }
}

fn versioned(name: &str) -> VersionedRef {
    VersionedRef { id: id(name), version: id("1") }
}

fn record_ref(name: &str) -> RecordRef {
    RecordRef { record_id: id(name), revision: 1, digest: digest(name) }
}

fn record(name: &str, content: RecordContent) -> ProtectedRecord {
    ProtectedRecord::new(id(name), 1, text(name), content)
}

fn profile() -> AgentProfile {
    AgentProfile {
        agent_id: id("agent"),
        version: id("1"),
        model_binding: id("model"),
        model_options: vec![],
        limits: ProfileLimits { max_output_tokens: None },
        connectors: vec![],
        adapters: None,
        tools: vec![],
        skills: vec![],
        context_sources: None,
        hooks: None,
        instructions: Instructions::Inline { text: "help".to_owned() },
        completion_policy: CompletionPolicy::Direct,
        output_contract: OutputContract::Text,
        context_policy: ContextPolicy { strategy: id("window"), version: None, config: None },
        extensions: None,
        digest: digest("profile"),
        defect: None,
    }
}

fn metadata(kind: ComponentKind, name: &str) -> ComponentMetadata {
    ComponentMetadata {
        reference: ComponentRef { kind, id: id(name), version: Some(id("1")) },
        contract_version: 1,
        manifest_digest: digest(name),
        config_schema: object(vec![]),
        dependencies: vec![],
        capabilities: vec![],
        required_capabilities: vec![],
        required_connections: vec![],
        model_name: None,
        hook_position: None,
        exports: vec![],
    }
}

fn model_resolution() -> Resolution {
    Resolution {
        requested: ComponentRef { kind: ComponentKind::ModelBinding, id: id("model"), version: None },
        outcome: ResolutionOutcome::Resolved {
            metadata: metadata(ComponentKind::ModelBinding, "model"),
        },
    }
}

fn resolved() -> ResolvedProfile {
    ProfileValidator::new(vec![model_resolution()]).validate(&profile(), &scope()).unwrap()
}

fn run_request(name: &str) -> RunRequest {
    let input = vec![InputContent::Text { text: "hello".to_owned() }];
    RunRequest {
        request_id: id(name),
        session_id: id("session"),
        input_digest: canonical_digest(&encode_input(&input)),
        input,
        model_options: vec![],
        max_output_tokens: None,
    }
}

fn snapshot(run: &str, request: &str) -> RunSnapshot {
    RunSnapshot {
        run_id: id(run),
        scope: scope(),
        request: run_request(request),
        request_digest: digest(request),
        profile: resolved(),
        system_inputs: None,
        limits: RunLimits {
            max_model_calls: 4,
            max_tool_attempts: 4,
            max_repair_attempts: 1,
            max_recovery_attempts: 2,
            max_elapsed_ms: 60_000,
        },
        revision: 0,
        status: RunStatus::Running,
        phase: RunPhase::Admission,
        usage: BudgetUsage {
            model_calls: 0,
            tool_attempts: 0,
            repair_attempts: 0,
            recovery_attempts: 0,
            elapsed_ms: 0,
        },
        timing: RunTiming { deadline_at_ms: 100_000, last_observed_at_ms: 1_000 },
        reservations: vec![],
        last_event_seq: 1,
        wait: None,
        outcome: None,
        model_ledger: vec![],
        model_step_id: None,
        model_step_inputs: vec![],
        prepared_steps: vec![],
        active_prepared_step: None,
        tool_ledger: vec![],
        resume_receipts: vec![],
        recovery_receipts: vec![],
        hook_plan_ref: None,
        hook_applications: vec![],
        source_plan_ref: None,
        context_batches: vec![],
        source_states: vec![],
        context_revision_ref: None,
        context_decisions: vec![],
        skill_plan_ref: None,
        assembly_ref: None,
        routing_snapshot_ref: None,
        verification_plan_ref: None,
        candidate_ref: None,
        verification_records: vec![],
        interruption_plan_ref: None,
        interruption_records: vec![],
        app_state: None,
        document: Json::Null,
        defect: None,
    }
}

fn route() -> ResolvedModelRoute {
    ResolvedModelRoute {
        binding: versioned("binding"),
        catalog_revision: id("c1"),
        routing_policy_revision: id("p1"),
        requested_model: id("model"),
        model_id: id("model-a"),
        model_version: id("7"),
        version_semantics: VersionSemantics::Pinned,
        provider: id("provider"),
        target: vec![],
        deployment_revision: None,
        api_contract: ApiContract { name: id("chat"), version: id("1") },
        adapter: versioned("adapter"),
        capability_revision: id("cap1"),
        connection_ref: versioned("connection"),
    }
}

fn checks() -> TransitionChecks {
    TransitionChecks { sources: None, budget: None }
}

fn next_of(run: &RunSnapshot) -> RunSnapshot {
    let mut next = run.copy();
    next.revision = run.revision + 1;
    next
}

fn outcome(result: OutcomeResult) -> RunOutcome {
    RunOutcome {
        result,
        checkpoint_revision: 1,
        usage: snapshot("run", "request").usage,
        unresolved_effects: vec![],
        verification: None,
        output: vec![],
        app_state: None,
        defect: None,
    }
}

#[test]
fn an_ended_attempt_never_changes() {
    let mut run = snapshot("run", "request");
    run.model_ledger.push(ModelInvocationRecord {
        run_id: id("run"),
        model_step_id: id("step"),
        attempt_id: id("attempt"),
        purpose: ModelPurpose::Agent,
        route: route(),
        selection_reason: id("requested_route"),
        configuration: None,
        prepared_step_ref: None,
        request_digest: digest("request"),
        inspection_ref: None,
        state: ModelAttemptState::Reserved,
        response_ref: None,
        provider_request_id: None,
        reported_model_id: None,
        reported_model_version: None,
        usage: None,
    });
    let mut unknown = next_of(&run);
    unknown.model_ledger[0].state = ModelAttemptState::Unknown;
    assert!(validate_transition(&run, &unknown, &checks()).is_ok());
    let mut again = next_of(&unknown);
    again.model_ledger[0].state = ModelAttemptState::Reserved;
    assert_eq!(error(validate_transition(&unknown, &again, &checks())).1, "model_ledger");
    let mut ended = next_of(&unknown);
    ended.model_ledger[0].state = ModelAttemptState::Interrupted;
    assert!(validate_transition(&unknown, &ended, &checks()).is_ok());
    let mut rewritten = next_of(&ended);
    assert!(validate_transition(&ended, &rewritten, &checks()).is_ok());
    rewritten.model_ledger[0].state = ModelAttemptState::Completed;
    assert_eq!(error(validate_transition(&ended, &rewritten, &checks())).1, "model_ledger");
    rewritten.model_ledger.clear();
    assert_eq!(error(validate_transition(&ended, &rewritten, &checks())).1, "model_ledger");
}

#[test]
fn a_settled_call_never_changes() {
    let mut run = snapshot("run", "request");
    run.tool_ledger.push(ToolLedgerEntry {
        call: ToolCall {
            call_id: id("call"),
            run_id: id("run"),
            provider_call_id: id("p"),
            model_request_id: id("m"),
            tool_name: id("clock"),
            model_inputs: vec![],
            descriptor_digest: None,
            bound_input_ref: None,
            provider_arguments: None,
        },
        state: ToolCallState::Settled {
            result: ToolResult {
                call_id: id("call"),
                call_message_id: id("message"),
                status: ToolResultStatus::Succeeded,
                effect: ToolEffect::Applied,
                content: vec![],
                error: None,
                effect_receipt_ref: None,
                skill_ref: None,
                digest: digest("result"),
            },
        },
    });
    let mut next = next_of(&run);
    assert!(validate_transition(&run, &next, &checks()).is_ok());
    next.tool_ledger[0].state = ToolCallState::Planned;
    assert!(validate_transition(&run, &next, &checks()).is_err());
    next.tool_ledger[0] = run.tool_ledger[0].copy();
    next.tool_ledger[0].call.tool_name = id("other");
    assert!(validate_transition(&run, &next, &checks()).is_err());
}

#[test]
fn a_wait_is_left_only_by_its_answer() {
    let mut waiting = snapshot("run", "request");
    waiting.status = RunStatus::Waiting;
    waiting.wait = Some(WaitState {
        wait_id: id("wait"),
        target: WaitTarget::External { call_id: id("call"), effect_key: id("effect") },
        expires_at_ms: None,
    });
    let mut running = next_of(&waiting);
    running.status = RunStatus::Running;
    running.wait = None;
    assert_eq!(error(validate_transition(&waiting, &running, &checks())).1, "resume_receipts.missing");
    running.resume_receipts.push(ResumeReceipt {
        command: ResumeCommand {
            command_id: id("command"),
            run_id: id("run"),
            expected_revision: waiting.revision,
            action: ResumeAction::External { wait_id: id("wait"), receipt_ref: record_ref("receipt") },
            digest: digest("command"),
        },
        command_ref: record_ref("command"),
        previous_outcome_ref: record_ref("outcome"),
        accepted_revision: running.revision,
        previous_segment_start_revision: 0,
        previous_last_event_seq: waiting.last_event_seq,
        expired: false,
    });
    assert!(validate_transition(&waiting, &running, &checks()).is_ok());
    running.resume_receipts[0].command.action =
        ResumeAction::External { wait_id: id("other"), receipt_ref: record_ref("receipt") };
    assert_eq!(
        error(validate_transition(&waiting, &running, &checks())).1,
        "resume_receipts.acceptance"
    );
    running.resume_receipts[0].command.action =
        ResumeAction::Input { wait_id: id("wait"), answer: Json::Null };
    assert!(validate_transition(&waiting, &running, &checks()).is_err());
}

#[test]
fn an_interruption_is_left_only_by_recovery() {
    let mut interrupted = snapshot("run", "request");
    interrupted.status = RunStatus::Interrupted;
    let mut running = next_of(&interrupted);
    running.status = RunStatus::Running;
    assert_eq!(
        error(validate_transition(&interrupted, &running, &checks())).1,
        "interruption.explicit_recovery"
    );
}

#[test]
fn protected_causes_keep_their_default() {
    let limits = snapshot("run", "request").limits;
    let decision = |cause: InterruptionCause, action: InterruptionAction| InterruptionDecisionRecord {
        schema_version: "1".to_owned(),
        scope: scope(),
        run_id: id("run"),
        plan_ref: record_ref("plan"),
        interruption: InterruptionRecord {
            segment_id: id("segment"),
            cause,
            checkpoint_revision: 0,
            recoverable: false,
            unresolved_effects: vec![],
        },
        action,
        app_state: None,
        callback_error: None,
    };
    let cancelled = || outcome(OutcomeResult::Cancelled { reason: "execution_stop_policy".to_owned() });
    let allowed = |cause, action, result: &RunOutcome| {
        validate_result(&decision(cause, action), result, &limits).is_ok()
    };
    assert!(allowed(InterruptionCause::UserCancel, InterruptionAction::UseDefault, &cancelled()));
    assert!(!allowed(InterruptionCause::UserCancel, InterruptionAction::Cancel, &cancelled()));
    assert!(!allowed(InterruptionCause::OwnershipLost, InterruptionAction::UseDefault, &cancelled()));
    assert!(allowed(InterruptionCause::HostShutdown, InterruptionAction::Cancel, &cancelled()));
    let exhausted = outcome(OutcomeResult::Exhausted { budget: BudgetKind::ModelCalls });
    assert!(!allowed(InterruptionCause::BudgetExhausted, InterruptionAction::UseDefault, &exhausted));
    let mut spent = exhausted.copy();
    spent.usage.model_calls = limits.max_model_calls;
    assert!(allowed(InterruptionCause::BudgetExhausted, InterruptionAction::UseDefault, &spent));
    assert!(!allowed(InterruptionCause::BudgetExhausted, InterruptionAction::Fail, &spent));
    let lost = outcome(OutcomeResult::Failed {
        failure: RunFailure { code: id("recovery_unavailable"), diagnostic_ref: None },
    });
    assert!(allowed(InterruptionCause::RecoveryUnavailable, InterruptionAction::UseDefault, &lost));
    assert_eq!(
        error(validate_result(
            &decision(InterruptionCause::OwnershipLost, InterruptionAction::UseDefault),
            &cancelled(),
            &limits
        )),
        refused(ErrorCode::InvalidSnapshot, "interruption.result_cause")
    );
}

#[test]
fn success_needs_a_passed_candidate() {
    let plan = record(
        "plan",
        RecordContent::VerificationPlan(VerificationPlan { verifier: None }),
    );
    let mut run = snapshot("run", "request");
    run.verification_plan_ref = Some(plan.reference().copy());
    let mut stored: Table<_, ProtectedRecord> = Table::new();
    let added: Table<_, ProtectedRecord> = Table::new();
    stored.insert(record_key(plan.reference()), plan);
    let records = Records { stored: &stored, added: &added };
    let state = ScopeState::new();
    assert!(validate(&state, &records, &run, &None).is_ok());
    run.status = RunStatus::Succeeded;
    run.outcome = Some(outcome(OutcomeResult::Succeeded { completion_basis: id("verified") }));
    assert_eq!(
        error(validate(&state, &records, &run, &None)),
        refused(ErrorCode::InvalidSnapshot, "verification.records")
    );
    run.verification_plan_ref = None;
    assert!(validate(&state, &records, &run, &None).is_ok());
}
