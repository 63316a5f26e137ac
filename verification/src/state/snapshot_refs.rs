//! Everything that a checkpoint refers to.
use vstd::prelude::*;

use crate::content::{tool_result_refs, ToolCallState, ToolLedgerEntry};
#[allow(unused_imports)]
use crate::content::{result_refs, ToolCallStateView, ToolLedgerEntryView};
use crate::context::SourceExecutionState;
#[allow(unused_imports)]
use crate::context::SourceExecutionStateView;
use crate::data::{any, check_each, check_indices, find, joined, map_each, Data};
#[allow(unused_imports)]
use crate::data::{distinct, first_fault, first_in, first_index_fault, some_in};
use crate::error::{fail, verdict, ContractError, ErrorCode};
#[allow(unused_imports)]
use crate::error::{failure, fault, or_else, Fault};
use crate::json::{array, text, Json};
#[allow(unused_imports)]
use crate::json::JsonView;
use crate::model::{
    ModelAttemptState, ModelContinuation, ModelFinish, ModelInvocationRecord, ModelPurpose,
    ModelResponse, ModelResponseMetadata, ProposedToolCall, VersionPolicy, VersionSemantics,
};
#[allow(unused_imports)]
use crate::model::{
    route_digest, ModelAttemptStateView, ModelContinuationView, ModelInvocationRecordView,
    ModelResponseMetadataView, ModelResponseView, ProposedToolCallView,
};
use crate::model_dispatch::ModelRouteObservation;
#[allow(unused_imports)]
use crate::model_dispatch::inspection_fault;
use crate::model_execution::{ModelExchangeOutcome, StoredModelResponse};
#[allow(unused_imports)]
use crate::model_execution::ModelExchangeOutcomeView;
use crate::model_options::{agent_options, requested_sources};
#[allow(unused_imports)]
use crate::model_options::{agent_options_of, origin_of};
use crate::model_routing::{RoutingData, RoutingRule, RoutingSnapshot};
#[allow(unused_imports)]
use crate::model_routing::{
    configuration_fault, configuration_for, route_fault, routing_text_fault, rule_for,
    snapshot_of, RoutingRuleView, RoutingSnapshotView,
};
use crate::prompt::{
    AssemblyTool, BoundInput, PinnedPromptTool, PromptSnapshot, ResolvedAssembly,
    SystemInputsRecord,
};
#[allow(unused_imports)]
use crate::prompt::{AssemblyToolView, PinnedPromptToolView, ResolvedAssemblyView};
use crate::refs::{RecordKey, RecordRef};
#[allow(unused_imports)]
use crate::refs::{key_of, RecordKeyView, RecordRefView};
use crate::run::{
    ApprovalTarget, OutcomeResult, ResumeCommand, ResumeReceipt, RunOutcome, RunSnapshot,
    WaitTarget,
};
#[allow(unused_imports)]
use crate::run::{
    ApprovalTargetView, OutcomeResultView, ResumeReceiptView, RunSnapshotView, WaitTargetView,
};
use crate::serialization::{canonical_digest, canonical_json, Id};
#[allow(unused_imports)]
use crate::serialization::{canonical_text, digest_of};
use crate::state::hook_state::validate_hook_snapshot;
#[allow(unused_imports)]
use crate::state::hook_state::hook_snapshot_fault;
use crate::state::interruption_state;
#[allow(unused_imports)]
use crate::state::interruption_state::interruption_state_fault;
use crate::state::messages::check_refs;
use crate::state::prepared_state;
use crate::state::prepared_state::LineageReading;
#[allow(unused_imports)]
use crate::state::prepared_state::{prepared_state_fault, LineageReadingView};
use crate::state::records::{Recorded, Records, SavedStep};
#[allow(unused_imports)]
use crate::state::records::{
    event_fault, read_fault, record_fault, value_at, ProtectedRecordView, SavedStepView,
};
use crate::state::scope::ScopeState;
#[allow(unused_imports)]
use crate::state::scope::ScopeStateView;
use crate::state::transition::action_matches_wait;
#[allow(unused_imports)]
use crate::state::transition::answers;
use crate::state::verification_state;
#[allow(unused_imports)]
use crate::state::verification_state::verification_state_fault;
use crate::text::reads;
#[allow(unused_imports)]
use crate::text::white_space;

verus! {

/// What the keepers of other parts of a checkpoint reported.
#[derive(Debug)]
pub struct SnapshotChecks {
    /// Accepted recoveries.
    pub recovery: Option<ContractError>,
    /// Context sources.
    pub sources: Option<ContractError>,
    /// Skills.
    pub skills: Option<ContractError>,
    /// Context revisions.
    pub context: Option<ContractError>,
    /// What the messages up to each projection's boundary depend on.
    pub lineages: Vec<LineageReading>,
    /// Whether the protected inputs are those that the run names, in its scope.
    pub inputs_accepted: bool,
    /// Registering the definitions of the protected inputs.
    pub registry: Option<ContractError>,
    /// Restoring the assembly against the profile of the run.
    pub assembly: Option<ContractError>,
    /// Restoring the hook plan in the scope of the run, and validating it against its profile.
    pub hook_plan: Option<ContractError>,
    /// Restoring the verification plan against the run.
    pub verification_plan: Option<ContractError>,
    /// Restoring the session's prompt against the profile and the scope of the run.
    pub prompt: Option<ContractError>,
    /// The bound inputs of the call at each position of the tool ledger.
    pub bound: Vec<BoundCheck>,
}

#[verifier::ext_equal]
pub struct SnapshotChecksView {
    pub recovery: Option<Fault>,
    pub sources: Option<Fault>,
    pub skills: Option<Fault>,
    pub context: Option<Fault>,
    pub lineages: Seq<LineageReadingView>,
    pub inputs_accepted: bool,
    pub registry: Option<Fault>,
    pub assembly: Option<Fault>,
    pub hook_plan: Option<Fault>,
    pub verification_plan: Option<Fault>,
    pub prompt: Option<Fault>,
    pub bound: Seq<BoundCheckView>,
}

impl View for SnapshotChecks {
    type V = SnapshotChecksView;

    open spec fn view(&self) -> SnapshotChecksView {
        SnapshotChecksView {
            recovery: self.recovery.deep_view(),
            sources: self.sources.deep_view(),
            skills: self.skills.deep_view(),
            context: self.context.deep_view(),
            lineages: self.lineages.deep_view(),
            inputs_accepted: self.inputs_accepted.deep_view(),
            registry: self.registry.deep_view(),
            assembly: self.assembly.deep_view(),
            hook_plan: self.hook_plan.deep_view(),
            verification_plan: self.verification_plan.deep_view(),
            prompt: self.prompt.deep_view(),
            bound: self.bound.deep_view(),
        }
    }
}

impl DeepView for SnapshotChecks {
    type V = SnapshotChecksView;

    open spec fn deep_view(&self) -> SnapshotChecksView {
        self@
    }
}

impl Data for SnapshotChecks {
    fn same(&self, other: &Self) -> (r: bool) {
        self.recovery.same(&other.recovery)
            && self.sources.same(&other.sources)
            && self.skills.same(&other.skills)
            && self.context.same(&other.context)
            && self.lineages.same(&other.lineages)
            && self.inputs_accepted.same(&other.inputs_accepted)
            && self.registry.same(&other.registry)
            && self.assembly.same(&other.assembly)
            && self.hook_plan.same(&other.hook_plan)
            && self.verification_plan.same(&other.verification_plan)
            && self.prompt.same(&other.prompt)
            && self.bound.same(&other.bound)
    }

    fn copy(&self) -> (r: Self) {
        SnapshotChecks {
            recovery: self.recovery.copy(),
            sources: self.sources.copy(),
            skills: self.skills.copy(),
            context: self.context.copy(),
            lineages: self.lineages.copy(),
            inputs_accepted: self.inputs_accepted.copy(),
            registry: self.registry.copy(),
            assembly: self.assembly.copy(),
            hook_plan: self.hook_plan.copy(),
            verification_plan: self.verification_plan.copy(),
            prompt: self.prompt.copy(),
            bound: self.bound.copy(),
        }
    }
}

/// What the keepers of bound inputs reported of one call.
#[derive(Debug)]
pub struct BoundCheck {
    /// Whether the record binds exactly this call of this run.
    pub accepted: bool,
    /// The transformation of the inputs.
    pub transformation: Option<ContractError>,
}

#[verifier::ext_equal]
pub struct BoundCheckView {
    pub accepted: bool,
    pub transformation: Option<Fault>,
}

impl View for BoundCheck {
    type V = BoundCheckView;

    open spec fn view(&self) -> BoundCheckView {
        BoundCheckView {
            accepted: self.accepted.deep_view(),
            transformation: self.transformation.deep_view(),
        }
    }
}

impl DeepView for BoundCheck {
    type V = BoundCheckView;

    open spec fn deep_view(&self) -> BoundCheckView {
        self@
    }
}

impl Data for BoundCheck {
    fn same(&self, other: &Self) -> (r: bool) {
        self.accepted.same(&other.accepted)
            && self.transformation.same(&other.transformation)
    }

    fn copy(&self) -> (r: Self) {
        BoundCheck {
            accepted: self.accepted.copy(),
            transformation: self.transformation.copy(),
        }
    }
}


/// The failure of a checkpoint.
pub open spec fn flawed(path: &str) -> Option<Fault> {
    fault(ErrorCode::InvalidSnapshot, path)
}

fn invalid<T>(path: &str) -> (r: Result<T, ContractError>)
    ensures
        r is Err,
        failure(r) == flawed(path),
{
    fail(ErrorCode::InvalidSnapshot, path)
}

/// Why an accepted answer to a wait does not agree with its records.
pub open spec fn receipt_fault(records: Map<RecordKeyView, ProtectedRecordView>) -> spec_fn(
    ResumeReceiptView,
) -> Option<Fault> {
    |receipt: ResumeReceiptView|
        {
            let command = value_at::<ResumeCommand>(records, receipt.command_ref);
            let outcome = value_at::<RunOutcome>(records, receipt.previous_outcome_ref);
            if event_fault::<ResumeCommand>(records, receipt.command_ref) is Some {
                event_fault::<ResumeCommand>(records, receipt.command_ref)
            } else if event_fault::<RunOutcome>(records, receipt.previous_outcome_ref) is Some {
                event_fault::<RunOutcome>(records, receipt.previous_outcome_ref)
            } else {
                match outcome.result {
                    OutcomeResultView::Waiting { wait } => if outcome.defect is Some {
                        outcome.defect
                    } else if command != receipt.command || outcome.checkpoint_revision
                        != command.expected_revision || !answers(wait, command.action) {
                        flawed("resume_receipts.records")
                    } else {
                        refs_fault(records, outcome.unresolved_effects)
                    },
                    _ => flawed("resume_receipts.outcome"),
                }
            }
        }
}

/// Why references cannot be followed.
pub open spec fn refs_fault(
    records: Map<RecordKeyView, ProtectedRecordView>,
    references: Seq<RecordRefView>,
) -> Option<Fault> {
    first_fault(references, |reference: RecordRefView| record_fault(records, reference))
}

fn check_receipt(records: &Records, receipt: &ResumeReceipt) -> (r: Result<(), ContractError>)
    ensures
        failure(r) == receipt_fault(records@)(receipt@),
{
    let command = records.event_record::<ResumeCommand>(&receipt.command_ref)?;
    let outcome = records.event_record::<RunOutcome>(&receipt.previous_outcome_ref)?;
    let wait = match &outcome.result {
        OutcomeResult::Waiting { wait } => wait,
        _ => {
            return invalid("resume_receipts.outcome");
        },
    };
    outcome.validate()?;
    if !command.same(&receipt.command) || outcome.checkpoint_revision != command.expected_revision
        || !action_matches_wait(wait, &command.action) {
        return invalid("resume_receipts.records");
    }
    check_refs(records, &outcome.unresolved_effects)
}

/// Where the input of a model step is kept.
pub open spec fn step_key(run_id: Seq<char>, model_step_id: Seq<char>) -> RecordKeyView {
    RecordKeyView {
        record_id: "model-step-"@ + digest_of(
            JsonView::Array(seq![JsonView::Text(run_id), JsonView::Text(model_step_id)]),
        ),
        revision: 1,
    }
}

fn key_of_step(run_id: &Id, model_step_id: &Id) -> (r: RecordKey)
    ensures
        r@ == step_key(run_id@, model_step_id@),
{
    let mut parts: Vec<Json> = Vec::new();
    parts.push(text(run_id.as_str()));
    parts.push(text(model_step_id.as_str()));
    assert(parts.deep_view() =~= seq![JsonView::Text(run_id@), JsonView::Text(model_step_id@)]);
    let digest = canonical_digest(&array(parts));
    proof {
        reveal_strlit("model-step-");
        assert(!white_space("model-step-"@[0]));
    }
    RecordKey { record_id: Id::prefixed("model-step-", digest.as_str()), revision: 1 }
}

/// The saved input of a model step.
pub open spec fn step_of(
    records: Map<RecordKeyView, ProtectedRecordView>,
    snapshot: RunSnapshotView,
    invocation: ModelInvocationRecordView,
) -> Option<SavedStepView> {
    let key = step_key(snapshot.run_id, invocation.model_step_id);
    if records.dom().contains(key) {
        <SavedStep as Recorded>::reading(records[key].content)
    } else {
        None
    }
}

/// More than a bound allows.
pub open spec fn over(value: u64, bound: Option<u64>) -> bool {
    bound matches Some(bound) && value > bound
}

fn is_over(value: u64, bound: Option<u64>) -> (r: bool)
    ensures
        r == over(value, bound),
{
    match bound {
        Some(bound) => value > bound,
        None => false,
    }
}

/// A saved step is not the one of an attempt.
pub open spec fn step_mismatch(
    snapshot: RunSnapshotView,
    invocation: ModelInvocationRecordView,
    step: SavedStepView,
) -> bool {
    ||| step.schema_version != "wickle.model-step.v1"@ && step.schema_version
        != "wickle.model-step.v2"@
    ||| step.schema_version == "wickle.model-step.v2"@ && step.through_sequence is None
    ||| step.run_id != snapshot.run_id
    ||| step.input.model_step_id != invocation.model_step_id
    ||| step.input.routing.scope != snapshot.scope
    ||| step.input.routing.purpose != invocation.purpose
    ||| invocation.purpose == ModelPurpose::Agent && step.input.routing.model_binding
        != snapshot.profile.profile.model_binding
}

/// Why the configuration of an attempt is not the one that its step calls for.
pub open spec fn attempt_configuration_fault(
    routing: RoutingSnapshotView,
    snapshot: RunSnapshotView,
    invocation: ModelInvocationRecordView,
    step: SavedStepView,
) -> Option<Fault> {
    let requested = step.input.routing.options;
    let sources = requested.map_values(origin_of(snapshot, invocation.purpose));
    let bound = step.input.routing.max_output_tokens;
    match invocation.configuration {
        None => None,
        Some(configuration) => if invocation.purpose == ModelPurpose::Agent && (requested
            != agent_options_of(snapshot) || over(
            bound,
            snapshot.profile.profile.limits.max_output_tokens,
        ) || over(bound, snapshot.request.max_output_tokens)) {
            flawed("routing.agent_options")
        } else if configuration_fault(routing, invocation.route, requested, sources) is Some {
            configuration_fault(routing, invocation.route, requested, sources)
        } else if configuration != configuration_for(
            routing,
            invocation.route,
            requested,
            sources,
            bound,
        ) {
            flawed("routing.configuration")
        } else {
            None
        },
    }
}

/// The version policy that an attempt's inspection is held to.
pub open spec fn policy_for(
    rule: RoutingRuleView,
    invocation: ModelInvocationRecordView,
) -> VersionPolicy {
    if invocation.route.version_semantics == VersionSemantics::Pinned || rule.version_policy
        == VersionPolicy::RequirePinned {
        VersionPolicy::RequirePinned
    } else {
        VersionPolicy::AllowMutable
    }
}

/// Why an attempt is not one that its rule allows.
pub open spec fn attempt_rule_fault(
    records: Map<RecordKeyView, ProtectedRecordView>,
    routing: RoutingSnapshotView,
    invocation: ModelInvocationRecordView,
    step: SavedStepView,
) -> Option<Fault> {
    match first_in(
        routing.policy.rules,
        rule_for(step.input.routing.model_binding, invocation.purpose),
    ) {
        None => flawed("routing.invocation"),
        Some(rule) => match invocation.inspection_ref {
            None => flawed("routing.invocation"),
            Some(reference) => if rule.primary != invocation.route.binding
                && !rule.fallbacks.contains(invocation.route.binding) {
                flawed("routing.invocation")
            } else if read_fault::<ModelRouteObservation>(
                records,
                reference,
                ErrorCode::InvalidSnapshot,
                "routing.inspection",
            ) is Some {
                read_fault::<ModelRouteObservation>(
                    records,
                    reference,
                    ErrorCode::InvalidSnapshot,
                    "routing.inspection",
                )
            } else {
                inspection_fault(
                    value_at::<ModelRouteObservation>(records, reference),
                    invocation.route,
                    policy_for(rule, invocation),
                )
            },
        },
    }
}

/// Why an attempt does not follow the routing of its run.
#[verifier::opaque]
pub open spec fn routed_attempt_fault(
    records: Map<RecordKeyView, ProtectedRecordView>,
    routing: RoutingSnapshotView,
    snapshot: RunSnapshotView,
    invocation: ModelInvocationRecordView,
) -> Option<Fault> {
    if route_fault(routing, invocation.route) is Some {
        route_fault(routing, invocation.route)
    } else {
        match step_of(records, snapshot, invocation) {
            None => flawed("routing.step_input"),
            Some(step) => if step_mismatch(snapshot, invocation, step) {
                flawed("routing.step_identity")
            } else if attempt_configuration_fault(routing, snapshot, invocation, step) is Some {
                attempt_configuration_fault(routing, snapshot, invocation, step)
            } else {
                attempt_rule_fault(records, routing, invocation, step)
            },
        }
    }
}

fn find_step<'a>(
    records: &Records<'a>,
    snapshot: &RunSnapshot,
    invocation: &ModelInvocationRecord,
) -> (r: Option<&'a SavedStep>)
    ensures
        r.deep_view() == step_of(records@, snapshot@, invocation@),
{
    let key = key_of_step(&snapshot.run_id, &invocation.model_step_id);
    match records.at(&key) {
        Some(record) => <SavedStep as Recorded>::read(record.content()),
        None => None,
    }
}

fn is_step_mismatch(
    snapshot: &RunSnapshot,
    invocation: &ModelInvocationRecord,
    step: &SavedStep,
) -> (r: bool)
    ensures
        r == step_mismatch(snapshot@, invocation@, step@),
{
    let is_second = reads(&step.schema_version, "wickle.model-step.v2");
    (!reads(&step.schema_version, "wickle.model-step.v1") && !is_second) || (is_second
        && step.through_sequence.is_none()) || !step.run_id.same(&snapshot.run_id)
        || !step.input.model_step_id.same(&invocation.model_step_id)
        || !step.input.routing.scope.same(&snapshot.scope) || step.input.routing.purpose
        != invocation.purpose || (invocation.purpose == ModelPurpose::Agent
        && !step.input.routing.model_binding.same(&snapshot.profile.profile().model_binding))
}

fn check_attempt_configuration(
    routing: &RoutingSnapshot,
    snapshot: &RunSnapshot,
    invocation: &ModelInvocationRecord,
    step: &SavedStep,
) -> (r: Result<(), ContractError>)
    ensures
        failure(r) == attempt_configuration_fault(routing@, snapshot@, invocation@, step@),
{
    let configuration = match &invocation.configuration {
        Some(configuration) => configuration,
        None => {
            return Ok(());
        },
    };
    let requested = &step.input.routing.options;
    let bound: u64 = step.input.routing.max_output_tokens;
    if invocation.purpose == ModelPurpose::Agent && (!requested.same(&agent_options(snapshot))
        || is_over(bound, snapshot.profile.profile().limits.max_output_tokens) || is_over(
        bound,
        snapshot.request.max_output_tokens,
    )) {
        return invalid("routing.agent_options");
    }
    let sources = requested_sources(snapshot, invocation.purpose, requested);
    let expected = routing.model_configuration(&invocation.route, requested, &sources, bound)?;
    if !configuration.same(&expected) {
        return invalid("routing.configuration");
    }
    Ok(())
}

fn check_attempt_rule(
    records: &Records,
    routing: &RoutingSnapshot,
    invocation: &ModelInvocationRecord,
    step: &SavedStep,
) -> (r: Result<(), ContractError>)
    ensures
        failure(r) == attempt_rule_fault(records@, routing@, invocation@, step@),
{
    let request = &step.input.routing;
    let applies = |rule: &RoutingRule| -> (b: bool)
        ensures
            b == rule_for(request@.model_binding, invocation@.purpose)(rule@),
    { rule.model_binding.same(&request.model_binding) && rule.purpose == invocation.purpose };
    let rule = match find(
        &routing.policy().rules,
        applies,
        Ghost(rule_for(request@.model_binding, invocation@.purpose)),
    ) {
        Some(rule) => rule,
        None => {
            return invalid("routing.invocation");
        },
    };
    let reference = match &invocation.inspection_ref {
        Some(reference) => reference,
        None => {
            return invalid("routing.invocation");
        },
    };
    if !rule.primary.same(&invocation.route.binding) && !crate::data::contains(
        &rule.fallbacks,
        &invocation.route.binding,
    ) {
        return invalid("routing.invocation");
    }
    let observation = records.read::<ModelRouteObservation>(
        reference,
        ErrorCode::InvalidSnapshot,
        "routing.inspection",
    )?;
    let policy = if invocation.route.version_semantics == VersionSemantics::Pinned
        || rule.version_policy == VersionPolicy::RequirePinned {
        VersionPolicy::RequirePinned
    } else {
        VersionPolicy::AllowMutable
    };
    observation.validate(&invocation.route, policy)
}

fn check_routed_attempt(
    records: &Records,
    routing: &RoutingSnapshot,
    snapshot: &RunSnapshot,
    invocation: &ModelInvocationRecord,
) -> (r: Result<(), ContractError>)
    ensures
        failure(r) == routed_attempt_fault(records@, routing@, snapshot@, invocation@),
{
    reveal(routed_attempt_fault);
    routing.validate_route(&invocation.route)?;
    let step = match find_step(records, snapshot, invocation) {
        Some(step) => step,
        None => {
            return invalid("routing.step_input");
        },
    };
    if is_step_mismatch(snapshot, invocation, step) {
        return invalid("routing.step_identity");
    }
    check_attempt_configuration(routing, snapshot, invocation, step)?;
    check_attempt_rule(records, routing, invocation, step)
}

/// Why the routing of a run, or an attempt under it, is refused.
pub open spec fn routing_refs_fault(
    records: Map<RecordKeyView, ProtectedRecordView>,
    snapshot: RunSnapshotView,
) -> Option<Fault> {
    match snapshot.routing_snapshot_ref {
        None => None,
        Some(reference) => {
            let record = records[key_of(reference)];
            let data = <RoutingData as Recorded>::reading(record.content);
            let restored = routing_text_fault(
                canonical_text(record.value),
                data,
                snapshot.scope,
                reference.digest,
            );
            if record_fault(records, reference) is Some {
                record_fault(records, reference)
            } else if restored is Some {
                restored
            } else {
                let routing = snapshot_of(data->Some_0.catalog, data->Some_0.policy);
                first_fault(
                    snapshot.model_ledger,
                    |invocation: ModelInvocationRecordView|
                        routed_attempt_fault(records, routing, snapshot, invocation),
                )
            }
        },
    }
}

fn check_routing(records: &Records, snapshot: &RunSnapshot) -> (r: Result<(), ContractError>)
    ensures
        failure(r) == routing_refs_fault(records@, snapshot@),
{
    let reference = match &snapshot.routing_snapshot_ref {
        Some(reference) => reference,
        None => {
            return Ok(());
        },
    };
    let record = records.record(reference)?;
    let json = canonical_json(record.value());
    let routing = RoutingSnapshot::restore(
        json.as_str(),
        <RoutingData as Recorded>::read(record.content()),
        &snapshot.scope,
        &reference.digest,
    )?;
    let routed = |invocation: &ModelInvocationRecord| -> (r: Result<(), ContractError>)
        ensures
            failure(r) == routed_attempt_fault(records@, routing@, snapshot@, invocation@),
    { check_routed_attempt(records, &routing, snapshot, invocation) };
    check_each(
        &snapshot.model_ledger,
        routed,
        Ghost(
            |invocation: ModelInvocationRecordView|
                routed_attempt_fault(records@, routing@, snapshot@, invocation),
        ),
    )
}

/// Why the protected inputs of a run are refused.
pub open spec fn system_inputs_fault(
    records: Map<RecordKeyView, ProtectedRecordView>,
    snapshot: RunSnapshotView,
    accepted: bool,
) -> Option<Fault> {
    match snapshot.system_inputs {
        None => None,
        Some(inputs) => if read_fault::<SystemInputsRecord>(
            records,
            inputs.snapshot_ref,
            ErrorCode::InvalidSnapshot,
            "system_inputs",
        ) is Some {
            read_fault::<SystemInputsRecord>(
                records,
                inputs.snapshot_ref,
                ErrorCode::InvalidSnapshot,
                "system_inputs",
            )
        } else if !accepted {
            flawed("system_inputs")
        } else {
            None
        },
    }
}

fn check_system_inputs(records: &Records, snapshot: &RunSnapshot, accepted: bool) -> (r: Result<
    (),
    ContractError,
>)
    ensures
        failure(r) == system_inputs_fault(records@, snapshot@, accepted),
{
    match &snapshot.system_inputs {
        None => Ok(()),
        Some(inputs) => {
            let _ = records.read::<SystemInputsRecord>(
                &inputs.snapshot_ref,
                ErrorCode::InvalidSnapshot,
                "system_inputs",
            )?;
            if !accepted {
                return invalid("system_inputs");
            }
            Ok(())
        },
    }
}

/// The failure of a model response that does not fit its attempt.
pub open spec fn misanswered() -> Option<Fault> {
    flawed("model_ledger.response_ref")
}

/// The continuations of another route.
pub open spec fn continues_elsewhere(digest: Seq<char>) -> spec_fn(ModelContinuationView) -> bool {
    |continuation: ModelContinuationView| continuation.route_digest != digest
}

/// The identifiers of proposed calls.
pub open spec fn proposed_ids(calls: Seq<ProposedToolCallView>) -> Seq<Seq<char>> {
    Seq::new(calls.len(), |i: int| calls[i].provider_call_id)
}

/// A response is not one to an attempt.
pub open spec fn response_mismatch(
    response: ModelResponseView,
    invocation: ModelInvocationRecordView,
) -> bool {
    let digest = route_digest(invocation.route);
    ||| response.request_id != invocation.attempt_id
    ||| response.route_digest != digest
    ||| some_in(response.continuation, continues_elsewhere(digest))
    ||| response.finish == ModelFinish::Length
    ||| (response.finish == ModelFinish::ToolCalls) != (response.tool_calls.len() > 0)
    ||| !distinct(proposed_ids(response.tool_calls))
}

/// What a response reported, where its kind fits the state of its attempt.
pub open spec fn reported_metadata(
    invocation: ModelInvocationRecordView,
    outcome: ModelExchangeOutcomeView,
) -> Option<ModelResponseMetadataView> {
    match (invocation.state, outcome) {
        (
            ModelAttemptStateView::Completed,
            ModelExchangeOutcomeView::Completed { response },
        ) => if response_mismatch(response, invocation) {
            None
        } else {
            Some(response.metadata)
        },
        (
            ModelAttemptStateView::Failed { kind },
            ModelExchangeOutcomeView::Failed { failure },
        ) => if kind == failure.kind {
            Some(failure.metadata)
        } else {
            None
        },
        _ => None,
    }
}

/// Why the stored response of an attempt is refused.
pub open spec fn model_response_fault(
    records: Map<RecordKeyView, ProtectedRecordView>,
    invocation: ModelInvocationRecordView,
    reference: RecordRefView,
) -> Option<Fault> {
    let saved = value_at::<StoredModelResponse>(records, reference);
    let read = read_fault::<StoredModelResponse>(
        records,
        reference,
        ErrorCode::InvalidSnapshot,
        "model_ledger.response_ref",
    );
    if read is Some {
        read
    } else if saved.request_id != invocation.attempt_id || saved.route_digest != route_digest(
        invocation.route,
    ) {
        misanswered()
    } else {
        match reported_metadata(invocation, saved.outcome) {
            None => misanswered(),
            Some(metadata) => if metadata.provider_request_id != invocation.provider_request_id
                || metadata.reported_model_id != invocation.reported_model_id
                || metadata.reported_model_version != invocation.reported_model_version
                || metadata.usage != invocation.usage {
                misanswered()
            } else {
                None
            },
        }
    }
}

fn has_repeated_call(calls: &Vec<ProposedToolCall>) -> (r: bool)
    ensures
        r == !distinct(proposed_ids(calls.deep_view())),
{
    let ghost s = calls.deep_view();
    let ghost ids = proposed_ids(s);
    let mut i: usize = 0;
    while i < calls.len()
        invariant
            i <= calls.len(),
            s == calls.deep_view(),
            ids == proposed_ids(s),
            forall|a: int, b: int| 0 <= a < b < i ==> #[trigger] ids[a] != #[trigger] ids[b],
        decreases calls.len() - i,
    {
        let call = &calls[i];
        let mut j: usize = 0;
        while j < i
            invariant
                j <= i < calls.len(),
                s == calls.deep_view(),
                ids == proposed_ids(s),
                call@ == s[i as int],
                forall|a: int| 0 <= a < j ==> #[trigger] ids[a] != ids[i as int],
            decreases i - j,
        {
            assert(calls@[j as int]@ == s[j as int]);
            if calls[j].provider_call_id.same(&call.provider_call_id) {
                assert(ids[j as int] == ids[i as int]);
                return true;
            }
            j = j + 1;
        }
        i = i + 1;
    }
    false
}

fn is_response_mismatch(response: &ModelResponse, invocation: &ModelInvocationRecord) -> (r: bool)
    ensures
        r == response_mismatch(response@, invocation@),
{
    let digest = invocation.route.digest();
    let elsewhere = |continuation: &ModelContinuation| -> (b: bool)
        ensures
            b == continues_elsewhere(digest@)(continuation@),
    { !continuation.route_digest.same(&digest) };
    assert(response@.tool_calls.len() == response.tool_calls.len());
    !response.request_id.same(&invocation.attempt_id) || !response.route_digest.same(&digest)
        || any(&response.continuation, elsewhere, Ghost(continues_elsewhere(digest@)))
        || response.finish == ModelFinish::Length || (response.finish == ModelFinish::ToolCalls)
        != (response.tool_calls.len() > 0) || has_repeated_call(&response.tool_calls)
}

fn reported<'a>(invocation: &ModelInvocationRecord, outcome: &'a ModelExchangeOutcome) -> (r: Option<
    &'a ModelResponseMetadata,
>)
    ensures
        r.deep_view() == reported_metadata(invocation@, outcome@),
{
    match (&invocation.state, outcome) {
        (ModelAttemptState::Completed, ModelExchangeOutcome::Completed { response }) => {
            if is_response_mismatch(response, invocation) {
                None
            } else {
                Some(&response.metadata)
            }
        },
        (ModelAttemptState::Failed { kind }, ModelExchangeOutcome::Failed { failure }) => {
            if *kind == failure.kind {
                Some(&failure.metadata)
            } else {
                None
            }
        },
        _ => None,
    }
}

/// Hold the stored response of an attempt against the attempt.
pub fn validate_model_response(
    records: &Records,
    invocation: &ModelInvocationRecord,
    reference: &RecordRef,
) -> (r: Result<(), ContractError>)
    ensures
        failure(r) == model_response_fault(records@, invocation@, reference@),
{
    let saved = records.read::<StoredModelResponse>(
        reference,
        ErrorCode::InvalidSnapshot,
        "model_ledger.response_ref",
    )?;
    if !saved.request_id.same(&invocation.attempt_id) || !saved.route_digest.same(
        &invocation.route.digest(),
    ) {
        return invalid("model_ledger.response_ref");
    }
    let metadata = match reported(invocation, &saved.outcome) {
        Some(metadata) => metadata,
        None => {
            return invalid("model_ledger.response_ref");
        },
    };
    if !metadata.provider_request_id.same(&invocation.provider_request_id)
        || !metadata.reported_model_id.same(&invocation.reported_model_id)
        || !metadata.reported_model_version.same(&invocation.reported_model_version)
        || !metadata.usage.same(&invocation.usage) {
        return invalid("model_ledger.response_ref");
    }
    Ok(())
}

/// Why the records of an attempt are refused.
pub open spec fn attempt_records_fault(
    records: Map<RecordKeyView, ProtectedRecordView>,
    snapshot: RunSnapshotView,
) -> spec_fn(ModelInvocationRecordView) -> Option<Fault> {
    |invocation: ModelInvocationRecordView|
        or_else(
            unrouted_inspection_fault(records, snapshot, invocation),
            match invocation.response_ref {
                None => None,
                Some(reference) => model_response_fault(records, invocation, reference),
            },
        )
}

/// Why the inspection of an attempt without routing is refused.
pub open spec fn unrouted_inspection_fault(
    records: Map<RecordKeyView, ProtectedRecordView>,
    snapshot: RunSnapshotView,
    invocation: ModelInvocationRecordView,
) -> Option<Fault> {
    match invocation.inspection_ref {
        None => None,
        Some(reference) => if snapshot.routing_snapshot_ref is Some {
            None
        } else {
            or_else(
                read_fault::<ModelRouteObservation>(
                    records,
                    reference,
                    ErrorCode::InvalidSnapshot,
                    "model.inspection",
                ),
                inspection_fault(
                    value_at::<ModelRouteObservation>(records, reference),
                    invocation.route,
                    VersionPolicy::AllowMutable,
                ),
            )
        },
    }
}

fn check_attempt_records(
    records: &Records,
    snapshot: &RunSnapshot,
    invocation: &ModelInvocationRecord,
) -> (r: Result<(), ContractError>)
    ensures
        failure(r) == attempt_records_fault(records@, snapshot@)(invocation@),
{
    if let Some(reference) = &invocation.inspection_ref {
        if snapshot.routing_snapshot_ref.is_none() {
            let observation = records.read::<ModelRouteObservation>(
                reference,
                ErrorCode::InvalidSnapshot,
                "model.inspection",
            )?;
            observation.validate(&invocation.route, VersionPolicy::AllowMutable)?;
        }
    }
    match &invocation.response_ref {
        Some(reference) => validate_model_response(records, invocation, reference),
        None => Ok(()),
    }
}

/// A pinned tool and a bound one that differ.
pub open spec fn bound_otherwise() -> spec_fn(PinnedPromptToolView, AssemblyToolView) -> bool {
    |pinned: PinnedPromptToolView, bound: AssemblyToolView|
        pinned.selection != bound.selection || pinned.compiled_digest != bound.compiled_digest
            || pinned.model_tool != bound.model_tool
}

/// Some pair at one position satisfies `p`.
pub open spec fn some_zip<A, B>(a: Seq<A>, b: Seq<B>, p: spec_fn(A, B) -> bool) -> bool {
    exists|i: int|
        #![trigger a[i]]
        #![trigger b[i]]
        0 <= i < a.len() && i < b.len() && p(a[i], b[i])
}

/// Why the tools of an assembly are not those of the session's prompt.
pub open spec fn assembly_prompt_fault(
    records: Map<RecordKeyView, ProtectedRecordView>,
    state: ScopeStateView,
    snapshot: RunSnapshotView,
    assembly: ResolvedAssemblyView,
    restored: Option<Fault>,
) -> Option<Fault> {
    let session_id = snapshot.request.session_id;
    if !state.sessions.dom().contains(session_id) {
        None
    } else {
        let reference = state.sessions[session_id].snapshot.prompt_snapshot;
        let prompt = value_at::<PromptSnapshot>(records, reference);
        let read = read_fault::<PromptSnapshot>(
            records,
            reference,
            ErrorCode::InvalidSnapshot,
            "assembly.prompt",
        );
        if read is Some {
            read
        } else if restored is Some {
            restored
        } else if prompt.tools.len() != assembly.tools.len() || some_zip(
            prompt.tools,
            assembly.tools,
            bound_otherwise(),
        ) {
            flawed("assembly.prompt_tools")
        } else {
            None
        }
    }
}

/// Why the assembly of a run is refused.
pub open spec fn assembly_fault(
    records: Map<RecordKeyView, ProtectedRecordView>,
    state: ScopeStateView,
    snapshot: RunSnapshotView,
    checks: SnapshotChecksView,
) -> Option<Fault> {
    match snapshot.assembly_ref {
        None => None,
        Some(reference) => {
            let assembly = value_at::<ResolvedAssembly>(records, reference);
            let read = read_fault::<ResolvedAssembly>(
                records,
                reference,
                ErrorCode::InvalidSnapshot,
                "assembly",
            );
            if checks.registry is Some {
                checks.registry
            } else if read is Some {
                read
            } else if checks.assembly is Some {
                checks.assembly
            } else if assembly.session_id != snapshot.request.session_id {
                flawed("assembly.session")
            } else {
                assembly_prompt_fault(records, state, snapshot, assembly, checks.prompt)
            }
        },
    }
}

fn is_bound_otherwise(pinned: &Vec<PinnedPromptTool>, bound: &Vec<AssemblyTool>) -> (r: bool)
    ensures
        r == some_zip(pinned.deep_view(), bound.deep_view(), bound_otherwise()),
{
    let ghost a = pinned.deep_view();
    let ghost b = bound.deep_view();
    let mut i: usize = 0;
    while i < pinned.len() && i < bound.len()
        invariant
            i <= pinned.len(),
            i <= bound.len(),
            a == pinned.deep_view(),
            b == bound.deep_view(),
            forall|j: int| 0 <= j < i ==> !bound_otherwise()(#[trigger] a[j], b[j]),
            forall|j: int| 0 <= j < i ==> !bound_otherwise()(a[j], #[trigger] b[j]),
        decreases pinned.len() - i,
    {
        let one = &pinned[i];
        let other = &bound[i];
        assert(a[i as int] == one@ && b[i as int] == other@);
        if !one.selection.same(&other.selection) || !one.compiled_digest.same(
            &other.compiled_digest,
        ) || !one.model_tool.same(&other.model_tool) {
            assert(bound_otherwise()(a[i as int], b[i as int]));
            return true;
        }
        i = i + 1;
    }
    false
}

fn check_assembly(
    records: &Records,
    state: &ScopeState,
    snapshot: &RunSnapshot,
    checks: &SnapshotChecks,
) -> (r: Result<(), ContractError>)
    ensures
        failure(r) == assembly_fault(records@, state@, snapshot@, checks@),
{
    let reference = match &snapshot.assembly_ref {
        Some(reference) => reference,
        None => {
            return Ok(());
        },
    };
    verdict(&checks.registry)?;
    let assembly = records.read::<ResolvedAssembly>(
        reference,
        ErrorCode::InvalidSnapshot,
        "assembly",
    )?;
    verdict(&checks.assembly)?;
    if !assembly.session_id.same(&snapshot.request.session_id) {
        return invalid("assembly.session");
    }
    let session = match state.sessions.get(&snapshot.request.session_id) {
        Some(session) => session,
        None => {
            return Ok(());
        },
    };
    let prompt = records.read::<PromptSnapshot>(
        &session.snapshot.prompt_snapshot,
        ErrorCode::InvalidSnapshot,
        "assembly.prompt",
    )?;
    verdict(&checks.prompt)?;
    assert(prompt@.tools.len() == prompt.tools.len());
    assert(assembly@.tools.len() == assembly.tools.len());
    if prompt.tools.len() != assembly.tools.len() || is_bound_otherwise(
        &prompt.tools,
        &assembly.tools,
    ) {
        return invalid("assembly.prompt_tools");
    }
    Ok(())
}

/// Why the bound inputs of the call at a position of the ledger are refused. Inputs that no keeper
/// reported of are refused.
pub open spec fn bound_fault(
    records: Map<RecordKeyView, ProtectedRecordView>,
    ledger: Seq<ToolLedgerEntryView>,
    checks: Seq<BoundCheckView>,
) -> spec_fn(int) -> Option<Fault> {
    |i: int|
        match ledger[i].call.bound_input_ref {
            None => None,
            Some(reference) => {
                let bound = value_at::<BoundInput>(records, reference);
                let read = read_fault::<BoundInput>(
                    records,
                    reference,
                    ErrorCode::InvalidSnapshot,
                    "bound_input",
                );
                if read is Some {
                    read
                } else if i >= checks.len() || !checks[i].accepted {
                    flawed("bound_input")
                } else if bound.transformation_malformed {
                    flawed("bound_input.transformation_ref")
                } else if bound.transformation_ref matches Some(transformed) && record_fault(
                    records,
                    transformed,
                ) is Some {
                    record_fault(records, bound.transformation_ref->Some_0)
                } else {
                    checks[i].transformation
                }
            },
        }
}

fn check_bound(
    records: &Records,
    ledger: &Vec<ToolLedgerEntry>,
    checks: &Vec<BoundCheck>,
    i: usize,
) -> (r: Result<(), ContractError>)
    requires
        i < ledger.len(),
    ensures
        failure(r) == bound_fault(records@, ledger.deep_view(), checks.deep_view())(i as int),
{
    assert(ledger.deep_view()[i as int] == ledger[i as int]@);
    let reference = match &ledger[i].call.bound_input_ref {
        Some(reference) => reference,
        None => {
            return Ok(());
        },
    };
    let bound = records.read::<BoundInput>(
        reference,
        ErrorCode::InvalidSnapshot,
        "bound_input",
    )?;
    if i >= checks.len() || !checks[i].accepted {
        return invalid("bound_input");
    }
    assert(checks.deep_view()[i as int] == checks[i as int]@);
    if bound.transformation_malformed {
        return invalid("bound_input.transformation_ref");
    }
    if let Some(transformed) = &bound.transformation_ref {
        records.check(transformed)?;
    }
    verdict(&checks[i].transformation)
}

/// An optional reference as a list.
pub open spec fn maybe(reference: Option<RecordRefView>) -> Seq<RecordRefView> {
    match reference {
        Some(reference) => seq![reference],
        None => Seq::empty(),
    }
}

fn listed(reference: &Option<RecordRef>) -> (r: Vec<RecordRef>)
    ensures
        r.deep_view() == maybe(reference.deep_view()),
{
    let mut out: Vec<RecordRef> = Vec::new();
    assert(out.deep_view() =~= Seq::<RecordRefView>::empty());
    if let Some(reference) = reference {
        out.push(reference.copy());
        assert(out.deep_view() =~= seq![reference@]);
    }
    out
}

/// The contracts that calls were made under.
pub open spec fn contract_refs(entries: Seq<ToolLedgerEntryView>) -> Seq<RecordRefView>
    decreases entries.len(),
{
    if entries.len() == 0 {
        Seq::empty()
    } else {
        contract_refs(entries.drop_last()) + (match entries.last().call.provider_arguments {
            Some(arguments) => maybe(arguments.compiled_contract_ref),
            None => Seq::empty(),
        })
    }
}

/// The references of settled results.
pub open spec fn settled_refs(entries: Seq<ToolLedgerEntryView>) -> Seq<RecordRefView>
    decreases entries.len(),
{
    if entries.len() == 0 {
        Seq::empty()
    } else {
        settled_refs(entries.drop_last()) + (match entries.last().state {
            ToolCallStateView::Settled { result } => result_refs(result),
            _ => Seq::empty(),
        })
    }
}

/// The candidate that a run waits for an answer on.
pub open spec fn waited_refs(snapshot: RunSnapshotView) -> Seq<RecordRefView> {
    match snapshot.wait {
        Some(wait) => match wait.target {
            WaitTargetView::Approval { target } => match target {
                ApprovalTargetView::Candidate { candidate_ref, .. } => seq![candidate_ref],
                _ => Seq::empty(),
            },
            _ => Seq::empty(),
        },
        None => Seq::empty(),
    }
}

/// The references of an outcome.
pub open spec fn outcome_refs(snapshot: RunSnapshotView) -> Seq<RecordRefView> {
    match snapshot.outcome {
        Some(outcome) => outcome.unresolved_effects + (match outcome.verification {
            Some(verification) => verification.evidence,
            None => Seq::empty(),
        }) + (match outcome.result {
            OutcomeResultView::Failed { failure } => maybe(failure.diagnostic_ref),
            _ => Seq::empty(),
        }),
        None => Seq::empty(),
    }
}

/// Every plain reference of a checkpoint.
pub open spec fn snapshot_refs(snapshot: RunSnapshotView) -> Seq<RecordRefView> {
    snapshot.context_batches + snapshot.source_states.map_values(
        |state: SourceExecutionStateView| state.batch_ref,
    ) + contract_refs(snapshot.tool_ledger) + settled_refs(snapshot.tool_ledger) + waited_refs(
        snapshot,
    ) + outcome_refs(snapshot)
}

fn list_contracts(entries: &Vec<ToolLedgerEntry>) -> (r: Vec<RecordRef>)
    ensures
        r.deep_view() == contract_refs(entries.deep_view()),
{
    let ghost s = entries.deep_view();
    let mut out: Vec<RecordRef> = Vec::new();
    let mut i: usize = 0;
    assert(s.take(0) =~= Seq::<ToolLedgerEntryView>::empty());
    assert(out.deep_view() =~= Seq::<RecordRefView>::empty());
    while i < entries.len()
        invariant
            i <= entries.len(),
            s == entries.deep_view(),
            out.deep_view() == contract_refs(s.take(i as int)),
        decreases entries.len() - i,
    {
        assert(s.take(i + 1).drop_last() =~= s.take(i as int));
        assert(s.take(i + 1).last() == entries@[i as int]@);
        if let Some(arguments) = &entries[i].call.provider_arguments {
            out = joined(&out, &listed(&arguments.compiled_contract_ref));
        }
        assert(out.deep_view() =~= contract_refs(s.take(i + 1)));
        i = i + 1;
    }
    assert(s.take(i as int) =~= s);
    out
}

fn list_settled(entries: &Vec<ToolLedgerEntry>) -> (r: Vec<RecordRef>)
    ensures
        r.deep_view() == settled_refs(entries.deep_view()),
{
    let ghost s = entries.deep_view();
    let mut out: Vec<RecordRef> = Vec::new();
    let mut i: usize = 0;
    assert(s.take(0) =~= Seq::<ToolLedgerEntryView>::empty());
    assert(out.deep_view() =~= Seq::<RecordRefView>::empty());
    while i < entries.len()
        invariant
            i <= entries.len(),
            s == entries.deep_view(),
            out.deep_view() == settled_refs(s.take(i as int)),
        decreases entries.len() - i,
    {
        assert(s.take(i + 1).drop_last() =~= s.take(i as int));
        assert(s.take(i + 1).last() == entries@[i as int]@);
        if let ToolCallState::Settled { result } = &entries[i].state {
            out = joined(&out, &tool_result_refs(result));
        }
        assert(out.deep_view() =~= settled_refs(s.take(i + 1)));
        i = i + 1;
    }
    assert(s.take(i as int) =~= s);
    out
}

fn list_waited(snapshot: &RunSnapshot) -> (r: Vec<RecordRef>)
    ensures
        r.deep_view() == waited_refs(snapshot@),
{
    let mut out: Vec<RecordRef> = Vec::new();
    assert(out.deep_view() =~= Seq::<RecordRefView>::empty());
    if let Some(wait) = &snapshot.wait {
        if let WaitTarget::Approval { target } = &wait.target {
            if let ApprovalTarget::Candidate { candidate_ref, .. } = target {
                out.push(candidate_ref.copy());
                assert(out.deep_view() =~= seq![candidate_ref@]);
            }
        }
    }
    out
}

fn list_outcome(snapshot: &RunSnapshot) -> (r: Vec<RecordRef>)
    ensures
        r.deep_view() == outcome_refs(snapshot@),
{
    let mut out: Vec<RecordRef> = Vec::new();
    assert(out.deep_view() =~= Seq::<RecordRefView>::empty());
    if let Some(outcome) = &snapshot.outcome {
        out = outcome.unresolved_effects.copy();
        if let Some(verification) = &outcome.verification {
            out = joined(&out, &verification.evidence);
        }
        if let OutcomeResult::Failed { failure } = &outcome.result {
            out = joined(&out, &listed(&failure.diagnostic_ref));
        }
        assert(out.deep_view() =~= outcome_refs(snapshot@));
    }
    out
}

fn list_refs(snapshot: &RunSnapshot) -> (r: Vec<RecordRef>)
    ensures
        r.deep_view() == snapshot_refs(snapshot@),
{
    let batch = |state: &SourceExecutionState| -> (r: RecordRef)
        ensures
            r@ == state@.batch_ref,
    { state.batch_ref.copy() };
    let states = map_each(
        &snapshot.source_states,
        batch,
        Ghost(|state: SourceExecutionStateView| state.batch_ref),
    );
    let out = joined(&snapshot.context_batches, &states);
    let out = joined(&out, &list_contracts(&snapshot.tool_ledger));
    let out = joined(&out, &list_settled(&snapshot.tool_ledger));
    let out = joined(&out, &list_waited(snapshot));
    joined(&out, &list_outcome(snapshot))
}

/// Why a checkpoint refers to something that it must not refer to.
pub open spec fn snapshot_refs_fault(
    state: ScopeStateView,
    records: Map<RecordKeyView, ProtectedRecordView>,
    snapshot: RunSnapshotView,
    checks: SnapshotChecksView,
) -> Option<Fault> {
    or_else(
        parts_fault(state, records, snapshot, checks),
        or_else(
            first_fault(snapshot.resume_receipts, receipt_fault(records)),
            or_else(
                routing_refs_fault(records, snapshot),
                or_else(
                    system_inputs_fault(records, snapshot, checks.inputs_accepted),
                    or_else(
                        first_fault(
                            snapshot.model_ledger,
                            attempt_records_fault(records, snapshot),
                        ),
                        or_else(
                            assembly_fault(records, state, snapshot, checks),
                            or_else(
                                first_index_fault(
                                    0,
                                    snapshot.tool_ledger.len() as int,
                                    bound_fault(records, snapshot.tool_ledger, checks.bound),
                                ),
                                refs_fault(records, snapshot_refs(snapshot)),
                            ),
                        ),
                    ),
                ),
            ),
        ),
    )
}

/// Why a part of a checkpoint is refused by its keeper.
pub open spec fn parts_fault(
    state: ScopeStateView,
    records: Map<RecordKeyView, ProtectedRecordView>,
    snapshot: RunSnapshotView,
    checks: SnapshotChecksView,
) -> Option<Fault> {
    or_else(
        checks.recovery,
        or_else(
            prepared_state_fault(records, state, snapshot, checks.lineages, checks.prompt),
            or_else(
                interruption_state_fault(state, records, snapshot),
                or_else(
                    checks.sources,
                    or_else(
                        checks.skills,
                        or_else(
                            checks.context,
                            or_else(
                                verification_state_fault(
                                    state,
                                    records,
                                    snapshot,
                                    checks.verification_plan,
                                ),
                                hook_snapshot_fault(
                                    state,
                                    records,
                                    snapshot,
                                    checks.hook_plan,
                                    checks.prompt,
                                ),
                            ),
                        ),
                    ),
                ),
            ),
        ),
    )
}

fn check_parts(
    state: &ScopeState,
    records: &Records,
    snapshot: &RunSnapshot,
    checks: &SnapshotChecks,
) -> (r: Result<(), ContractError>)
    ensures
        failure(r) == parts_fault(state@, records@, snapshot@, checks@),
{
    verdict(&checks.recovery)?;
    prepared_state::validate(state, records, snapshot, &checks.lineages, &checks.prompt)?;
    interruption_state::validate(state, records, snapshot)?;
    verdict(&checks.sources)?;
    verdict(&checks.skills)?;
    verdict(&checks.context)?;
    verification_state::validate(state, records, snapshot, &checks.verification_plan)?;
    validate_hook_snapshot(state, records, snapshot, &checks.hook_plan, &checks.prompt)
}

/// Hold everything that a checkpoint refers to against the records. `checks` carries what the
/// keepers of its other parts reported.
pub fn validate_snapshot_refs(
    state: &ScopeState,
    records: &Records,
    snapshot: &RunSnapshot,
    checks: &SnapshotChecks,
) -> (r: Result<(), ContractError>)
    ensures
        failure(r) == snapshot_refs_fault(state@, records@, snapshot@, checks@),
{
    check_parts(state, records, snapshot, checks)?;
    let accepted = |receipt: &ResumeReceipt| -> (r: Result<(), ContractError>)
        ensures
            failure(r) == receipt_fault(records@)(receipt@),
    { check_receipt(records, receipt) };
    check_each(&snapshot.resume_receipts, accepted, Ghost(receipt_fault(records@)))?;
    check_routing(records, snapshot)?;
    check_system_inputs(records, snapshot, checks.inputs_accepted)?;
    let recorded = |invocation: &ModelInvocationRecord| -> (r: Result<(), ContractError>)
        ensures
            failure(r) == attempt_records_fault(records@, snapshot@)(invocation@),
    { check_attempt_records(records, snapshot, invocation) };
    check_each(
        &snapshot.model_ledger,
        recorded,
        Ghost(attempt_records_fault(records@, snapshot@)),
    )?;
    check_assembly(records, state, snapshot, checks)?;
    let bound = |i: usize| -> (r: Result<(), ContractError>)
        requires
            i < snapshot.tool_ledger.len(),
        ensures
            failure(r) == bound_fault(
                records@,
                snapshot@.tool_ledger,
                checks.bound.deep_view(),
            )(i as int),
    { check_bound(records, &snapshot.tool_ledger, &checks.bound, i) };
    check_indices(
        snapshot.tool_ledger.len(),
        bound,
        Ghost(bound_fault(records@, snapshot@.tool_ledger, checks.bound.deep_view())),
    )?;
    check_refs(records, &list_refs(snapshot))
}

/// The response that completes an attempt is its own: it names the attempt and the route, continues
/// nothing of another route, was not cut off, and proposes calls, each under its own identifier,
/// just where it says so. Whatever is such a response completes the attempt.
pub proof fn law_responses_are_those_of_their_attempt(
    invocation: ModelInvocationRecordView,
    response: ModelResponseView,
)
    requires
        invocation.state is Completed,
    ensures
        reported_metadata(
            invocation,
            ModelExchangeOutcomeView::Completed { response },
        ) is Some <==> {
            &&& response.request_id == invocation.attempt_id
            &&& response.route_digest == route_digest(invocation.route)
            &&& forall|i: int|
                0 <= i < response.continuation.len() ==> (
                #[trigger] response.continuation[i]).route_digest == route_digest(invocation.route)
            &&& response.finish != ModelFinish::Length
            &&& response.finish == ModelFinish::ToolCalls <==> response.tool_calls.len() > 0
            &&& forall|i: int, j: int|
                0 <= i < j < response.tool_calls.len() ==> (
                #[trigger] response.tool_calls[i]).provider_call_id != (
                #[trigger] response.tool_calls[j]).provider_call_id
        },
        reported_metadata(
            invocation,
            ModelExchangeOutcomeView::Completed { response },
        ) is Some ==> reported_metadata(
            invocation,
            ModelExchangeOutcomeView::Completed { response },
        ) == Some(response.metadata),
{
    let digest = route_digest(invocation.route);
    let p = continues_elsewhere(digest);
    let parts = response.continuation;
    if some_in(parts, p) {
        let i = choose|i: int| 0 <= i < parts.len() && p(#[trigger] parts[i]);
        assert(parts[i].route_digest != digest);
    } else {
        assert forall|i: int| 0 <= i < parts.len() implies (#[trigger] parts[i]).route_digest
            == digest by {
            assert(!p(parts[i]));
        }
    }
    let calls = response.tool_calls;
    let ids = proposed_ids(calls);
    assert forall|i: int| 0 <= i < calls.len() implies #[trigger] ids[i]
        == calls[i].provider_call_id by {}
    if distinct(ids) {
        assert forall|i: int, j: int| 0 <= i < j < calls.len() implies (
        #[trigger] calls[i]).provider_call_id != (#[trigger] calls[j]).provider_call_id by {
            assert(ids[i] != ids[j]);
        }
    } else {
        let (i, j) = choose|i: int, j: int| 0 <= i < j < ids.len() && ids[i] == ids[j];
        assert(calls[i].provider_call_id == calls[j].provider_call_id);
    }
}

/// An attempt of the agent asks for the agent's options and for no more output than its profile and
/// its request allow.
pub proof fn law_agent_attempts_keep_their_limits(
    routing: RoutingSnapshotView,
    snapshot: RunSnapshotView,
    invocation: ModelInvocationRecordView,
    step: SavedStepView,
)
    requires
        invocation.configuration is Some,
        invocation.purpose == ModelPurpose::Agent,
        attempt_configuration_fault(routing, snapshot, invocation, step) is None,
    ensures
        step.input.routing.options == agent_options_of(snapshot),
        snapshot.profile.profile.limits.max_output_tokens matches Some(limit)
            ==> step.input.routing.max_output_tokens <= limit,
        snapshot.request.max_output_tokens matches Some(limit)
            ==> step.input.routing.max_output_tokens <= limit,
{
}

/// An attempt follows a rule of the policy for its binding and its purpose, goes to a target that the
/// rule names, and was inspected.
pub proof fn law_attempts_follow_a_rule(
    records: Map<RecordKeyView, ProtectedRecordView>,
    routing: RoutingSnapshotView,
    invocation: ModelInvocationRecordView,
    step: SavedStepView,
)
    requires
        attempt_rule_fault(records, routing, invocation, step) is None,
    ensures
        invocation.inspection_ref is Some,
        exists|i: int|
            0 <= i < routing.policy.rules.len() && (
            #[trigger] routing.policy.rules[i]).model_binding == step.input.routing.model_binding
                && routing.policy.rules[i].purpose == invocation.purpose && (
            routing.policy.rules[i].primary == invocation.route.binding
                || routing.policy.rules[i].fallbacks.contains(invocation.route.binding)),
{
    let rules = routing.policy.rules;
    let p = rule_for(step.input.routing.model_binding, invocation.purpose);
    crate::data::lemma_first_in(rules, p);
    let rule = first_in(rules, p)->Some_0;
    let i = choose|i: int| 0 <= i < rules.len() && rules[i] == rule;
    assert(p(rules[i]));
}

/// A pin is required where the rule requires one or the route has one, and nowhere else.
pub proof fn law_pins_are_required_where_they_are(
    rule: RoutingRuleView,
    invocation: ModelInvocationRecordView,
)
    ensures
        policy_for(rule, invocation) == VersionPolicy::AllowMutable
            <==> invocation.route.version_semantics != VersionSemantics::Pinned
            && rule.version_policy == VersionPolicy::AllowMutable,
{
}

/// An accepted answer was given to a wait: its command was expected at the checkpoint that waited, and
/// fits what was waited for.
pub proof fn law_receipts_answer_a_wait(
    records: Map<RecordKeyView, ProtectedRecordView>,
    receipt: ResumeReceiptView,
)
    requires
        receipt_fault(records)(receipt) is None,
    ensures
        ({
            let outcome = value_at::<RunOutcome>(records, receipt.previous_outcome_ref);
            &&& outcome.result is Waiting
            &&& answers(outcome.result->Waiting_wait, receipt.command.action)
            &&& outcome.checkpoint_revision == receipt.command.expected_revision
            &&& value_at::<ResumeCommand>(records, receipt.command_ref) == receipt.command
        }),
{
}

} // verus!
