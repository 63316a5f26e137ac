//! Hook plans, applications and observations against the state that they refer to.
use vstd::prelude::*;

use crate::content::{ToolLedgerEntry, ToolResult};
#[allow(unused_imports)]
use crate::content::ToolLedgerEntryView;
use crate::data::{any, check_each, check_pairs, count, find, is_same, joined, map_each, Data};
#[allow(unused_imports)]
use crate::data::{count_in, first_fault, first_in, first_pair_fault, some_in};
use crate::error::{fail, verdict, ContractError, ErrorCode};
#[allow(unused_imports)]
use crate::error::{failure, fault, or_else, Fault};
use crate::hook::records::validate_application_chain;
#[allow(unused_imports)]
use crate::hook::records::{application_in, at_target, chains_fault, of_call};
use crate::hook::{
    HookApplication, HookApplicationRecord, HookDefinition, HookInput, HookObservation, HookOutput,
    HookPlan, HookPosition, HookTarget,
};
#[allow(unused_imports)]
use crate::hook::{
    definition_digest, definition_from, hook_input_digest, HookApplicationView, HookDefinitionView,
    HookInputView, HookObservationView, HookOutputView, HookPlanView, HookTargetView,
};
use crate::model::{ModelInvocationRecord, ModelPurpose};
#[allow(unused_imports)]
use crate::model::ModelInvocationRecordView;
use crate::prompt::{PinnedPromptTool, PromptSnapshot};
#[allow(unused_imports)]
use crate::prompt::{PinnedPromptToolView, PromptSnapshotView};
use crate::refs::{check_scope, RecordRef, Scope};
#[allow(unused_imports)]
use crate::refs::{key_of, scope_fault, RecordKeyView, RecordRefView, ScopeView};
use crate::run::{RunEvent, RunEventPayload, RunOutcome, RunSnapshot};
#[allow(unused_imports)]
use crate::run::{terminal, RunEventPayloadView, RunEventView, RunSnapshotView};
use crate::serialization::Id;
#[allow(unused_imports)]
use crate::serialization::digest_of;
use crate::skills::records::references;
#[allow(unused_imports)]
use crate::skills::records::skill_references;
use crate::state::records::{ProtectedRecord, Recorded, Records};
#[allow(unused_imports)]
use crate::state::records::{
    event_fault, read_fault, record_fault, value_at, ProtectedRecordView,
};
use crate::state::scope::ScopeState;
#[allow(unused_imports)]
use crate::state::scope::{missing, ScopeStateView};
use crate::table::Table;

verus! {

/// The profile asks for no hook.
pub open spec fn selects_no_hook(snapshot: RunSnapshotView) -> bool {
    match snapshot.profile.profile.hooks {
        Some(hooks) => hooks.len() == 0,
        None => true,
    }
}

/// Why the hook plan of a run cannot be restored. `restored` is what restoring it in the scope of the
/// run and validating it against the run's profile reported.
pub open spec fn hook_plan_fault(
    records: Map<RecordKeyView, ProtectedRecordView>,
    snapshot: RunSnapshotView,
    restored: Option<Fault>,
) -> Option<Fault> {
    match snapshot.hook_plan_ref {
        None => if snapshot.hook_applications.len() != 0 || !selects_no_hook(snapshot) {
            fault(ErrorCode::InvalidSnapshot, "hooks.plan_missing")
        } else {
            None
        },
        Some(reference) => or_else(
            read_fault::<HookPlan>(records, reference, ErrorCode::InvalidSnapshot, "hooks.plan"),
            restored,
        ),
    }
}

/// The hook plan of a run.
pub fn load_plan<'a>(
    records: &Records<'a>,
    snapshot: &RunSnapshot,
    restored: &Option<ContractError>,
) -> (r: Result<Option<&'a HookPlan>, ContractError>)
    ensures
        failure(r) == hook_plan_fault(records@, snapshot@, restored.deep_view()),
        r matches Ok(plan) ==> plan.deep_view() == (match snapshot@.hook_plan_ref {
            None => None,
            Some(reference) => Some(value_at::<HookPlan>(records@, reference)),
        }),
{
    match &snapshot.hook_plan_ref {
        None => {
            let selected = match &snapshot.profile.profile().hooks {
                Some(hooks) => hooks.len() != 0,
                None => false,
            };
            if snapshot.hook_applications.len() != 0 || selected {
                return fail(ErrorCode::InvalidSnapshot, "hooks.plan_missing");
            }
            Ok(None)
        },
        Some(reference) => {
            let plan = records.read::<HookPlan>(
                reference,
                ErrorCode::InvalidSnapshot,
                "hooks.plan",
            )?;
            verdict(restored)?;
            Ok(Some(plan))
        },
    }
}

/// The records that the hooks of a run rest on, those of the applications first.
pub open spec fn hook_references(snapshot: RunSnapshotView) -> Seq<RecordRefView> {
    let plan = match snapshot.source_plan_ref {
        Some(reference) => seq![reference],
        None => Seq::empty(),
    };
    snapshot.hook_applications.map_values(
        |application: HookApplicationView| application.result_ref,
    ) + plan + snapshot.context_batches + skill_references(snapshot)
}

/// A record as a reader of its document rebuilds it.
pub open spec fn rebuilt(
    records: Map<RecordKeyView, ProtectedRecordView>,
) -> spec_fn(RecordRefView) -> ProtectedRecordView {
    |reference: RecordRefView|
        {
            let record = records[key_of(reference)];
            ProtectedRecordView {
                reference: RecordRefView { digest: digest_of(record.value), ..reference },
                value: record.value,
                content: record.content,
            }
        }
}

/// The records that the hooks of a run rest on.
pub open spec fn gathered(
    records: Map<RecordKeyView, ProtectedRecordView>,
    snapshot: RunSnapshotView,
) -> Seq<ProtectedRecordView> {
    hook_references(snapshot).map_values(rebuilt(records))
}

/// Why a record that the hooks of a run rest on cannot be read.
pub open spec fn gather_fault(
    records: Map<RecordKeyView, ProtectedRecordView>,
    snapshot: RunSnapshotView,
) -> Option<Fault> {
    first_fault(
        hook_references(snapshot),
        |reference: RecordRefView| record_fault(records, reference),
    )
}

fn all_references(snapshot: &RunSnapshot) -> (r: Vec<RecordRef>)
    ensures
        r.deep_view() == hook_references(snapshot@),
{
    let result = |application: &HookApplication| -> (r: RecordRef)
        ensures
            r@ == application@.result_ref,
    { application.result_ref.copy() };
    let mut out = map_each(
        &snapshot.hook_applications,
        result,
        Ghost(|application: HookApplicationView| application.result_ref),
    );
    let ghost start = out.deep_view();
    if let Some(reference) = &snapshot.source_plan_ref {
        out.push(reference.copy());
    }
    assert(out.deep_view() =~= start + (match snapshot@.source_plan_ref {
        Some(reference) => seq![reference],
        None => Seq::empty(),
    }));
    joined(&joined(&out, &snapshot.context_batches), &references(snapshot))
}

fn gather(records: &Records, snapshot: &RunSnapshot) -> (r: Result<
    Vec<ProtectedRecord>,
    ContractError,
>)
    ensures
        failure(r) == gather_fault(records@, snapshot@),
        r matches Ok(list) ==> list.deep_view() == gathered(records@, snapshot@),
{
    let all = all_references(snapshot);
    let ghost s = all.deep_view();
    let ghost f = |reference: RecordRefView| record_fault(records@, reference);
    let ghost g = rebuilt(records@);
    let mut out: Vec<ProtectedRecord> = Vec::new();
    let mut i: usize = 0;
    assert(s.skip(0) =~= s);
    while i < all.len()
        invariant
            i <= all.len(),
            s == all.deep_view(),
            s == hook_references(snapshot@),
            f == (|reference: RecordRefView| record_fault(records@, reference)),
            g == rebuilt(records@),
            gather_fault(records@, snapshot@) == first_fault(s, f),
            first_fault(s, f) == first_fault(s.skip(i as int), f),
            out.deep_view() =~= s.take(i as int).map_values(g),
        decreases all.len() - i,
    {
        let reference = &all[i];
        assert(s.skip(i as int)[0] == reference@);
        assert(s.skip(i as int).skip(1) =~= s.skip(i + 1));
        assert(s.take(i + 1) =~= s.take(i as int).push(reference@));
        let record = records.record(reference)?;
        let next = ProtectedRecord::new(
            reference.record_id.copy(),
            reference.revision,
            record.value().copy(),
            record.content().copy(),
        );
        let ghost added = next@;
        assert(added =~= g(reference@));
        let ghost before = out.deep_view();
        out.push(next);
        assert(out.deep_view() =~= before.push(added));
        i = i + 1;
    }
    assert(s.take(i as int) =~= s);
    Ok(out)
}

/// The hooks at a position.
pub open spec fn at_position(position: HookPosition) -> spec_fn(HookDefinitionView) -> bool {
    |definition: HookDefinitionView| definition.position == position
}

/// Every hook of the plan that the target asks for was applied to it.
pub open spec fn is_complete(
    plan: HookPlanView,
    snapshot: RunSnapshotView,
    target: HookTargetView,
) -> bool {
    count_in(snapshot.hook_applications, at_target(target)) == count_in(
        plan.definitions,
        at_position(target.position()),
    )
}

fn has_all_applications(plan: &HookPlan, snapshot: &RunSnapshot, target: &HookTarget) -> (r: bool)
    ensures
        r == is_complete(plan@, snapshot@, target@),
{
    let there = |application: &HookApplication| -> (b: bool)
        ensures
            b == at_target(target@)(application@),
    { application.target.same(target) };
    let position = target.position();
    let planned = |definition: &HookDefinition| -> (b: bool)
        ensures
            b == at_position(position)(definition@),
    { definition.position == position };
    count(&snapshot.hook_applications, there, Ghost(at_target(target@))) == count(
        &plan.definitions,
        planned,
        Ghost(at_position(position)),
    )
}

/// Why an agent attempt was made before its hooks had run.
pub open spec fn model_hooks_fault(
    plan: HookPlanView,
    snapshot: RunSnapshotView,
) -> spec_fn(ModelInvocationRecordView) -> Option<Fault> {
    |invocation: ModelInvocationRecordView|
        if invocation.purpose is Agent && !is_complete(
            plan,
            snapshot,
            HookTargetView::BeforeModel { model_step_id: invocation.model_step_id },
        ) {
            fault(ErrorCode::InvalidSnapshot, "hooks.before_model_incomplete")
        } else {
            None
        }
}

/// Why an application forbids the binding of its call.
pub open spec fn denied_fault(target: HookTargetView) -> spec_fn(
    HookApplicationView,
    ProtectedRecordView,
) -> Option<Fault> {
    |application: HookApplicationView, record: ProtectedRecordView|
        if application.target != target {
            None
        } else {
            match application_in(record) {
                None => fault(ErrorCode::InvalidSnapshot, "hooks.application"),
                Some(value) => match value.output {
                    Some(HookOutputView::Tool { deny, .. }) => if deny is Some {
                        fault(ErrorCode::InvalidSnapshot, "hooks.bound_denied")
                    } else {
                        None
                    },
                    _ => None,
                },
            }
        }
}

/// Why a call was bound before its hooks had run, or against them.
pub open spec fn tool_hooks_fault(
    plan: HookPlanView,
    snapshot: RunSnapshotView,
    records: Seq<ProtectedRecordView>,
) -> spec_fn(ToolLedgerEntryView) -> Option<Fault> {
    |entry: ToolLedgerEntryView|
        {
            let target = HookTargetView::BeforeTool { call_id: entry.call.call_id };
            if entry.call.bound_input_ref is None {
                None
            } else if !is_complete(plan, snapshot, target) {
                fault(ErrorCode::InvalidSnapshot, "hooks.before_tool_incomplete")
            } else {
                first_pair_fault(snapshot.hook_applications, records, denied_fault(target))
            }
        }
}

/// The pinned tool that a hook saw.
pub open spec fn pinned_as(
    tool: crate::model::ModelToolView,
    descriptor_digest: Seq<char>,
    compiled_digest: Seq<char>,
) -> spec_fn(PinnedPromptToolView) -> bool {
    |pinned: PinnedPromptToolView|
        pinned.model_tool == tool && pinned.descriptor_digest == descriptor_digest
            && pinned.compiled_digest == compiled_digest
}

/// Why a hook saw a tool that the session does not have.
pub open spec fn tool_contract_fault(prompt: PromptSnapshotView) -> spec_fn(
    HookApplicationView,
    ProtectedRecordView,
) -> Option<Fault> {
    |application: HookApplicationView, record: ProtectedRecordView|
        match application_in(record) {
            None => fault(ErrorCode::InvalidSnapshot, "hooks.application"),
            Some(value) => match value.input {
                HookInputView::BeforeTool { tool, descriptor_digest, compiled_digest, .. } => {
                    if !some_in(
                        prompt.tools,
                        pinned_as(tool, descriptor_digest, compiled_digest),
                    ) {
                        fault(ErrorCode::InvalidSnapshot, "hooks.tool_contract")
                    } else {
                        None
                    }
                },
                _ => None,
            },
        }
}

/// Why the tools that hooks saw are not those of the session. `restored` is what restoring the
/// session's prompt against the profile and the scope of the run reported.
pub open spec fn prompt_tools_fault(
    state: ScopeStateView,
    records: Map<RecordKeyView, ProtectedRecordView>,
    snapshot: RunSnapshotView,
    restored: Option<Fault>,
) -> Option<Fault> {
    if snapshot.hook_applications.len() == 0 {
        None
    } else if !state.sessions.dom().contains(snapshot.request.session_id) {
        missing()
    } else {
        let reference = state.sessions[snapshot.request.session_id].snapshot.prompt_snapshot;
        let prompt = value_at::<PromptSnapshot>(records, reference);
        if read_fault::<PromptSnapshot>(
            records,
            reference,
            ErrorCode::InvalidSnapshot,
            "hooks.prompt",
        ) is Some {
            read_fault::<PromptSnapshot>(
                records,
                reference,
                ErrorCode::InvalidSnapshot,
                "hooks.prompt",
            )
        } else if restored is Some {
            restored
        } else {
            first_pair_fault(
                snapshot.hook_applications,
                gathered(records, snapshot),
                tool_contract_fault(prompt),
            )
        }
    }
}

/// Why the hook state of a checkpoint is unacceptable.
pub open spec fn hook_snapshot_fault(
    state: ScopeStateView,
    records: Map<RecordKeyView, ProtectedRecordView>,
    snapshot: RunSnapshotView,
    planned: Option<Fault>,
    restored: Option<Fault>,
) -> Option<Fault> {
    if hook_plan_fault(records, snapshot, planned) is Some {
        hook_plan_fault(records, snapshot, planned)
    } else if snapshot.hook_plan_ref is None {
        None
    } else {
        let plan = value_at::<HookPlan>(records, snapshot.hook_plan_ref->Some_0);
        let list = gathered(records, snapshot);
        if gather_fault(records, snapshot) is Some {
            gather_fault(records, snapshot)
        } else if chains_fault(plan, snapshot, list, planned) is Some {
            chains_fault(plan, snapshot, list, planned)
        } else if some_in(
            snapshot.model_ledger,
            |invocation: ModelInvocationRecordView| invocation.purpose is Agent,
        ) && !is_complete(plan, snapshot, HookTargetView::BeforeRun) {
            fault(ErrorCode::InvalidSnapshot, "hooks.before_run_incomplete")
        } else if first_fault(
            snapshot.model_ledger,
            model_hooks_fault(plan, snapshot),
        ) is Some {
            first_fault(snapshot.model_ledger, model_hooks_fault(plan, snapshot))
        } else if first_fault(
            snapshot.tool_ledger,
            tool_hooks_fault(plan, snapshot, list),
        ) is Some {
            first_fault(snapshot.tool_ledger, tool_hooks_fault(plan, snapshot, list))
        } else {
            prompt_tools_fault(state, records, snapshot, restored)
        }
    }
}

fn check_tool_hooks(
    plan: &HookPlan,
    snapshot: &RunSnapshot,
    list: &Vec<ProtectedRecord>,
    entry: &ToolLedgerEntry,
) -> (r: Result<(), ContractError>)
    ensures
        failure(r) == tool_hooks_fault(plan@, snapshot@, list.deep_view())(entry@),
{
    if entry.call.bound_input_ref.is_none() {
        return Ok(());
    }
    let target = HookTarget::BeforeTool { call_id: entry.call.call_id.copy() };
    if !has_all_applications(plan, snapshot, &target) {
        return fail(ErrorCode::InvalidSnapshot, "hooks.before_tool_incomplete");
    }
    let undenied = |application: &HookApplication, record: &ProtectedRecord| -> (r: Result<
        (),
        ContractError,
    >)
        ensures
            failure(r) == denied_fault(target@)(application@, record@),
    {
        if !application.target.same(&target) {
            return Ok(());
        }
        match HookApplicationRecord::read(record.content()) {
            None => fail(ErrorCode::InvalidSnapshot, "hooks.application"),
            Some(value) => match &value.output {
                Some(HookOutput::Tool { deny, .. }) => if deny.is_some() {
                    fail(ErrorCode::InvalidSnapshot, "hooks.bound_denied")
                } else {
                    Ok(())
                },
                _ => Ok(()),
            },
        }
    };
    check_pairs(&snapshot.hook_applications, list, undenied, Ghost(denied_fault(target@)))
}

fn check_prompt_tools(
    state: &ScopeState,
    records: &Records,
    snapshot: &RunSnapshot,
    list: &Vec<ProtectedRecord>,
    restored: &Option<ContractError>,
) -> (r: Result<(), ContractError>)
    requires
        list.deep_view() == gathered(records@, snapshot@),
    ensures
        failure(r) == prompt_tools_fault(state@, records@, snapshot@, restored.deep_view()),
{
    if snapshot.hook_applications.len() == 0 {
        return Ok(());
    }
    let session = state.session(&snapshot.request.session_id)?;
    let prompt = records.read::<PromptSnapshot>(
        &session.snapshot.prompt_snapshot,
        ErrorCode::InvalidSnapshot,
        "hooks.prompt",
    )?;
    verdict(restored)?;
    let pinned = |application: &HookApplication, record: &ProtectedRecord| -> (r: Result<
        (),
        ContractError,
    >)
        ensures
            failure(r) == tool_contract_fault(prompt@)(application@, record@),
    {
        match HookApplicationRecord::read(record.content()) {
            None => fail(ErrorCode::InvalidSnapshot, "hooks.application"),
            Some(value) => match &value.input {
                HookInput::BeforeTool { tool, descriptor_digest, compiled_digest, .. } => {
                    let same = |pinned: &PinnedPromptTool| -> (b: bool)
                        ensures
                            b == pinned_as(tool@, descriptor_digest@, compiled_digest@)(pinned@),
                    {
                        pinned.model_tool.same(tool) && pinned.descriptor_digest.same(
                            descriptor_digest,
                        ) && pinned.compiled_digest.same(compiled_digest)
                    };
                    if !any(
                        &prompt.tools,
                        same,
                        Ghost(pinned_as(tool@, descriptor_digest@, compiled_digest@)),
                    ) {
                        return fail(ErrorCode::InvalidSnapshot, "hooks.tool_contract");
                    }
                    Ok(())
                },
                _ => Ok(()),
            },
        }
    };
    check_pairs(&snapshot.hook_applications, list, pinned, Ghost(tool_contract_fault(prompt@)))
}

/// Check the hook state of a checkpoint. `planned` is what restoring the plan in the scope of the run
/// and validating it against the run's profile reported, and `restored` what restoring the session's
/// prompt against the profile and the scope reported.
pub fn validate_hook_snapshot(
    state: &ScopeState,
    records: &Records,
    snapshot: &RunSnapshot,
    planned: &Option<ContractError>,
    restored: &Option<ContractError>,
) -> (r: Result<(), ContractError>)
    ensures
        failure(r) == hook_snapshot_fault(
            state@,
            records@,
            snapshot@,
            planned.deep_view(),
            restored.deep_view(),
        ),
{
    let plan = match load_plan(records, snapshot, planned)? {
        Some(plan) => plan,
        None => {
            return Ok(());
        },
    };
    let list = gather(records, snapshot)?;
    validate_application_chain(plan, snapshot, &list, planned)?;
    let agent = |invocation: &ModelInvocationRecord| -> (b: bool)
        ensures
            b == (invocation@.purpose is Agent),
    { invocation.purpose == ModelPurpose::Agent };
    if any(
        &snapshot.model_ledger,
        agent,
        Ghost(|invocation: ModelInvocationRecordView| invocation.purpose is Agent),
    ) && !has_all_applications(plan, snapshot, &HookTarget::BeforeRun) {
        return fail(ErrorCode::InvalidSnapshot, "hooks.before_run_incomplete");
    }
    let hooked = |invocation: &ModelInvocationRecord| -> (r: Result<(), ContractError>)
        ensures
            failure(r) == model_hooks_fault(plan@, snapshot@)(invocation@),
    {
        let target = HookTarget::BeforeModel { model_step_id: invocation.model_step_id.copy() };
        if invocation.purpose == ModelPurpose::Agent && !has_all_applications(
            plan,
            snapshot,
            &target,
        ) {
            return fail(ErrorCode::InvalidSnapshot, "hooks.before_model_incomplete");
        }
        Ok(())
    };
    check_each(&snapshot.model_ledger, hooked, Ghost(model_hooks_fault(plan@, snapshot@)))?;
    let bound = |entry: &ToolLedgerEntry| -> (r: Result<(), ContractError>)
        ensures
            failure(r) == tool_hooks_fault(plan@, snapshot@, list.deep_view())(entry@),
    { check_tool_hooks(plan, snapshot, &list, entry) };
    check_each(
        &snapshot.tool_ledger,
        bound,
        Ghost(tool_hooks_fault(plan@, snapshot@, list.deep_view())),
    )?;
    check_prompt_tools(state, records, snapshot, &list, restored)
}

/// The event that committed a tool result.
pub open spec fn commits_result(result_ref: RecordRefView) -> spec_fn(RunEventView) -> bool {
    |event: RunEventView|
        match event.payload {
            RunEventPayloadView::ToolSettled { result_ref: saved } => saved == result_ref,
            RunEventPayloadView::ToolUnresolved { result_ref: saved, .. } => saved == result_ref,
            _ => false,
        }
}

/// The event that committed an outcome.
pub open spec fn commits_outcome(outcome_ref: RecordRefView) -> spec_fn(RunEventView) -> bool {
    |event: RunEventView|
        event.payload matches RunEventPayloadView::RunFinished { outcome_ref: saved } && saved
            == outcome_ref
}

/// Why nothing was committed that an observation could be about.
pub open spec fn observed_fault(state: ScopeStateView, report: HookObservationView) -> Option<
    Fault,
> {
    let run = state.runs[report.run_id];
    match report.target {
        HookTargetView::AfterTool { call_id, result_ref } => if event_fault::<ToolResult>(
            state.records,
            result_ref,
        ) is Some {
            event_fault::<ToolResult>(state.records, result_ref)
        } else if first_in(run.events, commits_result(result_ref)) is None {
            fault(ErrorCode::InvalidReference, "hooks.observed_result")
        } else if call_id != value_at::<ToolResult>(state.records, result_ref).call_id || !some_in(
            run.snapshot.tool_ledger,
            of_call(call_id),
        ) {
            fault(ErrorCode::InvalidReference, "hooks.observed_call")
        } else {
            None
        },
        HookTargetView::AfterRun { outcome_ref, revision } => if event_fault::<RunOutcome>(
            state.records,
            outcome_ref,
        ) is Some {
            event_fault::<RunOutcome>(state.records, outcome_ref)
        } else if first_in(run.events, commits_outcome(outcome_ref)) is None || !terminal(
            run.snapshot.status,
        ) || run.snapshot.revision != revision || run.snapshot.outcome != Some(
            value_at::<RunOutcome>(state.records, outcome_ref),
        ) {
            fault(ErrorCode::InvalidReference, "hooks.observed_outcome")
        } else {
            None
        },
        _ => fault(ErrorCode::InvalidReference, "hooks.observer_target"),
    }
}

/// When what an observation is about was committed.
pub open spec fn committed_at(state: ScopeStateView, report: HookObservationView) -> i64 {
    let run = state.runs[report.run_id];
    match report.target {
        HookTargetView::AfterTool { result_ref, .. } => first_in(
            run.events,
            commits_result(result_ref),
        )->Some_0.timestamp_ms,
        HookTargetView::AfterRun { outcome_ref, .. } => first_in(
            run.events,
            commits_outcome(outcome_ref),
        )->Some_0.timestamp_ms,
        _ => 0,
    }
}

/// Why an observation is unacceptable. `observed` is what the hook saw of the committed result, and
/// `planned` what restoring the plan in the scope of the run and validating it against the run's
/// profile reported.
pub open spec fn observation_fault(
    state: ScopeStateView,
    scope: ScopeView,
    run_id: Seq<char>,
    report: HookObservationView,
    observed: HookInputView,
    planned: Option<Fault>,
) -> Option<Fault> {
    if scope_fault(scope, report.scope) is Some {
        scope_fault(scope, report.scope)
    } else if run_id != report.run_id {
        fault(ErrorCode::InvalidReference, "hooks.observation_run")
    } else if !state.runs.dom().contains(run_id) {
        missing()
    } else {
        let snapshot = state.runs[run_id].snapshot;
        let plan = value_at::<HookPlan>(state.records, snapshot.hook_plan_ref->Some_0);
        let definition = definition_from(plan, report.hook, report.selection, 0);
        if hook_plan_fault(state.records, snapshot, planned) is Some {
            hook_plan_fault(state.records, snapshot, planned)
        } else if snapshot.hook_plan_ref is None {
            fault(ErrorCode::InvalidSnapshot, "hooks.plan_missing")
        } else if !(definition matches Some(definition) && definition_digest(definition)
            == report.definition_digest && definition.position == report.target.position()) {
            fault(ErrorCode::InvalidReference, "hooks.observer_definition")
        } else if observed_fault(state, report) is Some {
            observed_fault(state, report)
        } else if report.timestamp_ms < committed_at(state, report) || report.input_digest
            != hook_input_digest(observed) {
            fault(ErrorCode::InvalidSnapshot, "hooks.observer_input")
        } else {
            None
        }
    }
}

fn observed_at(state: &ScopeState, records: &Records, report: &HookObservation) -> (r: Result<
    i64,
    ContractError,
>)
    requires
        records@ == state@.records,
        state@.runs.dom().contains(report@.run_id),
    ensures
        failure(r) == observed_fault(state@, report@),
        r matches Ok(time) ==> time == committed_at(state@, report@),
{
    let run = state.run(&report.run_id)?;
    match &report.target {
        HookTarget::AfterTool { call_id, result_ref } => {
            let result = records.event_record::<ToolResult>(result_ref)?;
            let committing = |event: &RunEvent| -> (b: bool)
                ensures
                    b == commits_result(result_ref@)(event@),
            {
                match &event.payload {
                    RunEventPayload::ToolSettled { result_ref: saved } => saved.same(result_ref),
                    RunEventPayload::ToolUnresolved { result_ref: saved, .. } => saved.same(
                        result_ref,
                    ),
                    _ => false,
                }
            };
            let event = match find(&run.events, committing, Ghost(commits_result(result_ref@))) {
                Some(event) => event,
                None => {
                    return fail(ErrorCode::InvalidReference, "hooks.observed_result");
                },
            };
            let named = |entry: &ToolLedgerEntry| -> (b: bool)
                ensures
                    b == of_call(call_id@)(entry@),
            { entry.call.call_id.same(call_id) };
            if !call_id.same(&result.call_id) || !any(
                &run.snapshot.tool_ledger,
                named,
                Ghost(of_call(call_id@)),
            ) {
                return fail(ErrorCode::InvalidReference, "hooks.observed_call");
            }
            Ok(event.timestamp_ms)
        },
        HookTarget::AfterRun { outcome_ref, revision } => {
            let outcome = records.event_record::<RunOutcome>(outcome_ref)?;
            let committing = |event: &RunEvent| -> (b: bool)
                ensures
                    b == commits_outcome(outcome_ref@)(event@),
            {
                match &event.payload {
                    RunEventPayload::RunFinished { outcome_ref: saved } => saved.same(outcome_ref),
                    _ => false,
                }
            };
            let event = match find(&run.events, committing, Ghost(commits_outcome(outcome_ref@))) {
                Some(event) => event,
                None => {
                    return fail(ErrorCode::InvalidReference, "hooks.observed_outcome");
                },
            };
            if !run.snapshot.status.is_terminal() || run.snapshot.revision != *revision || !is_same(
                &run.snapshot.outcome,
                outcome,
            ) {
                return fail(ErrorCode::InvalidReference, "hooks.observed_outcome");
            }
            Ok(event.timestamp_ms)
        },
        _ => fail(ErrorCode::InvalidReference, "hooks.observer_target"),
    }
}

/// Check an observation against what the run committed. `observed` is what the hook saw of the
/// committed result.
pub fn validate_hook_observation(
    state: &ScopeState,
    scope: &Scope,
    run_id: &Id,
    report: &HookObservation,
    observed: &HookInput,
    planned: &Option<ContractError>,
) -> (r: Result<(), ContractError>)
    ensures
        failure(r) == observation_fault(
            state@,
            scope@,
            run_id@,
            report@,
            observed@,
            planned.deep_view(),
        ),
{
    check_scope(scope, &report.scope)?;
    if !run_id.same(&report.run_id) {
        return fail(ErrorCode::InvalidReference, "hooks.observation_run");
    }
    let run = state.run(run_id)?;
    let none = Table::new();
    let records = Records { stored: &state.records, added: &none };
    assert(records@ =~= state@.records);
    let plan = match load_plan(&records, &run.snapshot, planned)? {
        Some(plan) => plan,
        None => {
            return fail(ErrorCode::InvalidSnapshot, "hooks.plan_missing");
        },
    };
    let defined = match plan.definition_for(&report.hook, &report.selection) {
        Some(definition) => definition.digest().same(&report.definition_digest)
            && definition.position == report.target.position(),
        None => false,
    };
    if !defined {
        return fail(ErrorCode::InvalidReference, "hooks.observer_definition");
    }
    let committed_at = observed_at(state, &records, report)?;
    if report.timestamp_ms < committed_at || !report.input_digest.same(&observed.digest()) {
        return fail(ErrorCode::InvalidSnapshot, "hooks.observer_input");
    }
    Ok(())
}

/// Without a hook plan a run has selected no hook and applied none.
pub proof fn law_hooks_are_planned(
    records: Map<RecordKeyView, ProtectedRecordView>,
    snapshot: RunSnapshotView,
)
    requires
        snapshot.hook_plan_ref is None,
    ensures
        hook_plan_fault(records, snapshot, None) is None <==> snapshot.hook_applications.len() == 0
            && (snapshot.profile.profile.hooks matches Some(hooks) ==> hooks.len() == 0),
{
}

/// A call that a hook denied is not bound.
pub proof fn law_denied_calls_stay_unbound(
    plan: HookPlanView,
    snapshot: RunSnapshotView,
    records: Seq<ProtectedRecordView>,
    entry: ToolLedgerEntryView,
    i: int,
)
    requires
        tool_hooks_fault(plan, snapshot, records)(entry) is None,
        0 <= i < snapshot.hook_applications.len(),
        i < records.len(),
        snapshot.hook_applications[i].target == (HookTargetView::BeforeTool {
            call_id: entry.call.call_id,
        }),
        application_in(records[i]) matches Some(value) && crate::hook::records::applied_denial(
            value,
        ) is Some,
    ensures
        entry.call.bound_input_ref is None,
{
    if entry.call.bound_input_ref is Some {
        let target = HookTargetView::BeforeTool { call_id: entry.call.call_id };
        let f = denied_fault(target);
        crate::data::lemma_first_pair_fault(snapshot.hook_applications, records, f);
        assert(f(snapshot.hook_applications[i], records[i]) is None);
    }
}

/// A call is bound only when every hook before it has been applied to it, and an agent step is sent
/// only when every hook before it has been.
pub proof fn law_hooks_go_before_what_they_guard(
    plan: HookPlanView,
    snapshot: RunSnapshotView,
    records: Seq<ProtectedRecordView>,
    entry: ToolLedgerEntryView,
    invocation: ModelInvocationRecordView,
)
    ensures
        tool_hooks_fault(plan, snapshot, records)(entry) is None && entry.call.bound_input_ref
            is Some ==> count_in(
            snapshot.hook_applications,
            |application: HookApplicationView|
                application.target == (HookTargetView::BeforeTool { call_id: entry.call.call_id }),
        ) == count_in(
            plan.definitions,
            |definition: HookDefinitionView| definition.position == HookPosition::BeforeTool,
        ),
        model_hooks_fault(plan, snapshot)(invocation) is None && invocation.purpose is Agent
            ==> count_in(
            snapshot.hook_applications,
            |application: HookApplicationView|
                application.target == (HookTargetView::BeforeModel {
                    model_step_id: invocation.model_step_id,
                }),
        ) == count_in(
            plan.definitions,
            |definition: HookDefinitionView| definition.position == HookPosition::BeforeModel,
        ),
{
    let tool = HookTargetView::BeforeTool { call_id: entry.call.call_id };
    let step = HookTargetView::BeforeModel { model_step_id: invocation.model_step_id };
    let at_tool = |application: HookApplicationView|
        application.target == (HookTargetView::BeforeTool { call_id: entry.call.call_id });
    let at_step = |application: HookApplicationView|
        application.target == (HookTargetView::BeforeModel {
            model_step_id: invocation.model_step_id,
        });
    let before_tool = |definition: HookDefinitionView|
        definition.position == HookPosition::BeforeTool;
    let before_model = |definition: HookDefinitionView|
        definition.position == HookPosition::BeforeModel;
    assert(at_target(tool) =~= at_tool);
    assert(at_target(step) =~= at_step);
    assert(at_position(tool.position()) =~= before_tool);
    assert(at_position(step.position()) =~= before_model);
}

/// An observation is about what was committed, and comes no earlier: the result of a call of the run
/// after a tool, and the outcome of an ended run, as it stands, after a run.
pub proof fn law_observations_follow_what_they_observe(
    state: ScopeStateView,
    scope: ScopeView,
    run_id: Seq<char>,
    report: HookObservationView,
    observed: HookInputView,
    planned: Option<Fault>,
)
    requires
        observation_fault(state, scope, run_id, report, observed, planned) is None,
    ensures
        report.run_id == run_id,
        state.runs.dom().contains(run_id),
        report.target is AfterTool || report.target is AfterRun,
        report.target is AfterRun ==> terminal(state.runs[run_id].snapshot.status)
            && state.runs[run_id].snapshot.revision == report.target->AfterRun_revision
            && state.runs[run_id].snapshot.outcome is Some,
        exists|i: int|
            0 <= i < state.runs[run_id].events.len() && (
            #[trigger] state.runs[run_id].events[i]).timestamp_ms <= report.timestamp_ms && (
            state.runs[run_id].events[i].payload is RunFinished <==> report.target is AfterRun) && (
            state.runs[run_id].events[i].payload is ToolSettled
                || state.runs[run_id].events[i].payload is ToolUnresolved <==> report.target
                is AfterTool),
{
    let events = state.runs[run_id].events;
    match report.target {
        HookTargetView::AfterTool { result_ref, .. } => {
            let p = commits_result(result_ref);
            crate::data::lemma_first_in(events, p);
            let event = first_in(events, p)->Some_0;
            let i = choose|i: int| 0 <= i < events.len() && events[i] == event;
            assert(events[i].timestamp_ms <= report.timestamp_ms);
        },
        HookTargetView::AfterRun { outcome_ref, .. } => {
            let p = commits_outcome(outcome_ref);
            crate::data::lemma_first_in(events, p);
            let event = first_in(events, p)->Some_0;
            let i = choose|i: int| 0 <= i < events.len() && events[i] == event;
            assert(events[i].timestamp_ms <= report.timestamp_ms);
        },
        _ => {},
    }
}

} // verus!
