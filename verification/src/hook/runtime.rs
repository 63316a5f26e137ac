//! Decisions of running hooks: which comes next, what its output is worth, and what is saved.
use vstd::prelude::*;

use crate::content::{ToolLedgerEntry, ToolResult};
use crate::context::ContextItem;
#[allow(unused_imports)]
use crate::context::ContextItemView;
use crate::context_strategy::records::own;
use crate::context_source::runtime::PolicyVerdict;
use crate::data::{any, find, joined, keep, Data};
#[allow(unused_imports)]
use crate::data::{first_fault, first_in, kept, lemma_first_in, some_in};
#[allow(unused_imports)]
use crate::error::lemma_codes_are_named;
use crate::error::{fail, verdict, ContractError, ErrorCode};
#[allow(unused_imports)]
use crate::error::{failure, fault, or_else, Fault};
use crate::hook::records::{
    apply, extension_context_for_step, normalize_output, stamped, transformed, validate_output,
    PlannedHook,
};
#[allow(unused_imports)]
use crate::hook::records::{
    application_fault, application_in, applied_denial, applied_input, apply_fault,
    extension_context, extension_context_fault, is_transformable, normalize_fault,
    normalized_output, of_call, output_fault, stamp_fault, stamped_item, transform_of,
    PlannedHookView,
};
use crate::hook::{
    encode_hook_record, HookApplication, HookApplicationRecord, HookContextAddition, HookDefinition,
    HookInput, HookObservation, HookObservationStatus, HookOutput, HookPlan, HookTarget,
    HookTransform, OutputChecks,
};
#[allow(unused_imports)]
use crate::hook::{
    definition_digest, hook_input_digest, hook_record_json, HookApplicationRecordView,
    HookApplicationView, HookContextAdditionView, HookDefinitionView, HookInputView,
    HookObservationStatusView, HookObservationView, HookOutputView, HookPlanView, HookTargetView,
    OutputChecksView,
};
use crate::json::Member;
#[allow(unused_imports)]
use crate::json::MemberView;
use crate::profile::AgentProfile;
#[allow(unused_imports)]
use crate::profile::AgentProfileView;
use crate::prompt::{PinnedPromptTool, PromptSnapshot};
#[allow(unused_imports)]
use crate::prompt::PinnedPromptToolView;
use crate::refs::{RecordRef, Scope};
#[allow(unused_imports)]
use crate::refs::{RecordRefView, ScopeView};
use crate::run::{RunEvent, RunEventPayload, RunOutcome, RunSnapshot};
#[allow(unused_imports)]
use crate::run::{terminal, RunEventPayloadView, RunEventView, RunSnapshotView, RunTimingView};
use crate::serialization::{Id, JsonDigest};
#[allow(unused_imports)]
use crate::serialization::digest_of;
use crate::skills::records::{find_record, references};
#[allow(unused_imports)]
use crate::skills::records::{record_named, skill_references};
use crate::state::memory_store::EventPage;
#[allow(unused_imports)]
use crate::state::memory_store::EventPageView;
use crate::state::records::{ProtectedRecord, RecordContent, Recorded};
#[allow(unused_imports)]
use crate::state::records::ProtectedRecordView;
use crate::state::scope::{not_found, StoredRun};
#[allow(unused_imports)]
use crate::state::scope::{missing, StoredRunView};

verus! {

/// What planning the hooks of a profile gave.
#[derive(Debug)]
pub enum PlanOutcome {
    Planned {
        plan: HookPlan,
    },
    Refused {
        error: ContractError,
    },
}

#[verifier::ext_equal]
pub enum PlanOutcomeView {
    Planned {
        plan: HookPlanView,
    },
    Refused {
        error: Fault,
    },
}

impl View for PlanOutcome {
    type V = PlanOutcomeView;

    open spec fn view(&self) -> PlanOutcomeView {
        match self {
            PlanOutcome::Planned { plan } => PlanOutcomeView::Planned { plan: plan.deep_view() },
            PlanOutcome::Refused { error } => PlanOutcomeView::Refused { error: error.deep_view() },
        }
    }
}

impl DeepView for PlanOutcome {
    type V = PlanOutcomeView;

    open spec fn deep_view(&self) -> PlanOutcomeView {
        self@
    }
}

impl Data for PlanOutcome {
    fn same(&self, other: &Self) -> (r: bool) {
        match (self, other) {
            (PlanOutcome::Planned { plan: plan1 }, PlanOutcome::Planned { plan: plan2 }) => plan1.same(plan2),
            (PlanOutcome::Refused { error: error1 }, PlanOutcome::Refused { error: error2 }) => error1.same(error2),
            _ => false,
        }
    }

    fn copy(&self) -> (r: Self) {
        match self {
            PlanOutcome::Planned { plan } => PlanOutcome::Planned { plan: plan.copy() },
            PlanOutcome::Refused { error } => PlanOutcome::Refused { error: error.copy() },
        }
    }
}

/// The plan of one profile.
#[derive(Debug)]
pub struct RegisteredPlan {
    pub profile_digest: JsonDigest,
    pub outcome: PlanOutcome,
}

#[verifier::ext_equal]
pub struct RegisteredPlanView {
    pub profile_digest: Seq<char>,
    pub outcome: PlanOutcomeView,
}

impl View for RegisteredPlan {
    type V = RegisteredPlanView;

    open spec fn view(&self) -> RegisteredPlanView {
        RegisteredPlanView {
            profile_digest: self.profile_digest.deep_view(),
            outcome: self.outcome.deep_view(),
        }
    }
}

impl DeepView for RegisteredPlan {
    type V = RegisteredPlanView;

    open spec fn deep_view(&self) -> RegisteredPlanView {
        self@
    }
}

impl Data for RegisteredPlan {
    fn same(&self, other: &Self) -> (r: bool) {
        self.profile_digest.same(&other.profile_digest)
            && self.outcome.same(&other.outcome)
    }

    fn copy(&self) -> (r: Self) {
        RegisteredPlan {
            profile_digest: self.profile_digest.copy(),
            outcome: self.outcome.copy(),
        }
    }
}

/// The callbacks that are registered under a scope, and the plans that they make possible.
#[derive(Debug)]
pub struct HookRegistry {
    pub scope: Scope,
    pub handlers: Vec<PlannedHook>,
    pub plans: Vec<RegisteredPlan>,
}

#[verifier::ext_equal]
pub struct HookRegistryView {
    pub scope: ScopeView,
    pub handlers: Seq<PlannedHookView>,
    pub plans: Seq<RegisteredPlanView>,
}

impl View for HookRegistry {
    type V = HookRegistryView;

    open spec fn view(&self) -> HookRegistryView {
        HookRegistryView {
            scope: self.scope.deep_view(),
            handlers: self.handlers.deep_view(),
            plans: self.plans.deep_view(),
        }
    }
}

impl DeepView for HookRegistry {
    type V = HookRegistryView;

    open spec fn deep_view(&self) -> HookRegistryView {
        self@
    }
}

impl Data for HookRegistry {
    fn same(&self, other: &Self) -> (r: bool) {
        self.scope.same(&other.scope)
            && self.handlers.same(&other.handlers)
            && self.plans.same(&other.plans)
    }

    fn copy(&self) -> (r: Self) {
        HookRegistry {
            scope: self.scope.copy(),
            handlers: self.handlers.copy(),
            plans: self.plans.copy(),
        }
    }
}

/// Runs hooks under one scope.
#[derive(Debug)]
pub struct HookRuntime {
    pub binding_set_id: Option<Id>,
    pub registry: HookRegistry,
}

#[verifier::ext_equal]
pub struct HookRuntimeView {
    pub binding_set_id: Option<Seq<char>>,
    pub registry: HookRegistryView,
}

impl View for HookRuntime {
    type V = HookRuntimeView;

    open spec fn view(&self) -> HookRuntimeView {
        HookRuntimeView {
            binding_set_id: self.binding_set_id.deep_view(),
            registry: self.registry.deep_view(),
        }
    }
}

impl DeepView for HookRuntime {
    type V = HookRuntimeView;

    open spec fn deep_view(&self) -> HookRuntimeView {
        self@
    }
}

impl Data for HookRuntime {
    fn same(&self, other: &Self) -> (r: bool) {
        self.binding_set_id.same(&other.binding_set_id)
            && self.registry.same(&other.registry)
    }

    fn copy(&self) -> (r: Self) {
        HookRuntime {
            binding_set_id: self.binding_set_id.copy(),
            registry: self.registry.copy(),
        }
    }
}

/// The model inputs of a call, completed by the defaults of its schema.
#[derive(Debug)]
pub enum NormalizedInputs {
    Inputs {
        members: Vec<Member>,
    },
    Refused {
        error: ContractError,
    },
}

#[verifier::ext_equal]
pub enum NormalizedInputsView {
    Inputs {
        members: Seq<MemberView>,
    },
    Refused {
        error: Fault,
    },
}

impl View for NormalizedInputs {
    type V = NormalizedInputsView;

    open spec fn view(&self) -> NormalizedInputsView {
        match self {
            NormalizedInputs::Inputs { members } => NormalizedInputsView::Inputs { members: members.deep_view() },
            NormalizedInputs::Refused { error } => NormalizedInputsView::Refused { error: error.deep_view() },
        }
    }
}

impl DeepView for NormalizedInputs {
    type V = NormalizedInputsView;

    open spec fn deep_view(&self) -> NormalizedInputsView {
        self@
    }
}

impl Data for NormalizedInputs {
    fn same(&self, other: &Self) -> (r: bool) {
        match (self, other) {
            (NormalizedInputs::Inputs { members: members1 }, NormalizedInputs::Inputs { members: members2 }) => members1.same(members2),
            (NormalizedInputs::Refused { error: error1 }, NormalizedInputs::Refused { error: error2 }) => error1.same(error2),
            _ => false,
        }
    }

    fn copy(&self) -> (r: Self) {
        match self {
            NormalizedInputs::Inputs { members } => NormalizedInputs::Inputs { members: members.copy() },
            NormalizedInputs::Refused { error } => NormalizedInputs::Refused { error: error.copy() },
        }
    }
}

/// The completed model inputs of a call: those that it was made with, and the current ones.
#[derive(Debug)]
pub struct ToolNormalization {
    pub original: NormalizedInputs,
    pub current: NormalizedInputs,
}

#[verifier::ext_equal]
pub struct ToolNormalizationView {
    pub original: NormalizedInputsView,
    pub current: NormalizedInputsView,
}

impl View for ToolNormalization {
    type V = ToolNormalizationView;

    open spec fn view(&self) -> ToolNormalizationView {
        ToolNormalizationView {
            original: self.original.deep_view(),
            current: self.current.deep_view(),
        }
    }
}

impl DeepView for ToolNormalization {
    type V = ToolNormalizationView;

    open spec fn deep_view(&self) -> ToolNormalizationView {
        self@
    }
}

impl Data for ToolNormalization {
    fn same(&self, other: &Self) -> (r: bool) {
        self.original.same(&other.original)
            && self.current.same(&other.current)
    }

    fn copy(&self) -> (r: Self) {
        ToolNormalization {
            original: self.original.copy(),
            current: self.current.copy(),
        }
    }
}

/// How far a chain of hooks has come.
#[derive(Debug)]
pub struct HookProgress {
    pub input: HookInput,
    pub deny: Option<Id>,
    pub applications: Vec<HookApplication>,
}

#[verifier::ext_equal]
pub struct HookProgressView {
    pub input: HookInputView,
    pub deny: Option<Seq<char>>,
    pub applications: Seq<HookApplicationView>,
}

impl View for HookProgress {
    type V = HookProgressView;

    open spec fn view(&self) -> HookProgressView {
        HookProgressView {
            input: self.input.deep_view(),
            deny: self.deny.deep_view(),
            applications: self.applications.deep_view(),
        }
    }
}

impl DeepView for HookProgress {
    type V = HookProgressView;

    open spec fn deep_view(&self) -> HookProgressView {
        self@
    }
}

impl Data for HookProgress {
    fn same(&self, other: &Self) -> (r: bool) {
        self.input.same(&other.input)
            && self.deny.same(&other.deny)
            && self.applications.same(&other.applications)
    }

    fn copy(&self) -> (r: Self) {
        HookProgress {
            input: self.input.copy(),
            deny: self.deny.copy(),
            applications: self.applications.copy(),
        }
    }
}

/// What a chain of hooks does next.
#[derive(Debug)]
pub enum HookStep {
    /// Nothing: the chain has ended, or a hook has denied.
    Finish,
    /// Take over an application that was saved before.
    Reuse {
        application: HookApplication,
    },
    /// Call the hook.
    Invoke {
        hook: PlannedHook,
    },
}

#[verifier::ext_equal]
pub enum HookStepView {
    Finish,
    Reuse {
        application: HookApplicationView,
    },
    Invoke {
        hook: PlannedHookView,
    },
}

impl View for HookStep {
    type V = HookStepView;

    open spec fn view(&self) -> HookStepView {
        match self {
            HookStep::Finish => HookStepView::Finish,
            HookStep::Reuse { application } => HookStepView::Reuse { application: application.deep_view() },
            HookStep::Invoke { hook } => HookStepView::Invoke { hook: hook.deep_view() },
        }
    }
}

impl DeepView for HookStep {
    type V = HookStepView;

    open spec fn deep_view(&self) -> HookStepView {
        self@
    }
}

impl Data for HookStep {
    fn same(&self, other: &Self) -> (r: bool) {
        match (self, other) {
            (HookStep::Finish, HookStep::Finish) => true,
            (HookStep::Reuse { application: application1 }, HookStep::Reuse { application: application2 }) => application1.same(application2),
            (HookStep::Invoke { hook: hook1 }, HookStep::Invoke { hook: hook2 }) => hook1.same(hook2),
            _ => false,
        }
    }

    fn copy(&self) -> (r: Self) {
        match self {
            HookStep::Finish => HookStep::Finish,
            HookStep::Reuse { application } => HookStep::Reuse { application: application.copy() },
            HookStep::Invoke { hook } => HookStep::Invoke { hook: hook.copy() },
        }
    }
}

/// What a callback gave back.
#[derive(Debug)]
pub enum CallbackResult {
    Output {
        output: HookOutput,
        checks: OutputChecks,
    },
    Failed {
        code: Id,
    },
}

#[verifier::ext_equal]
pub enum CallbackResultView {
    Output {
        output: HookOutputView,
        checks: OutputChecksView,
    },
    Failed {
        code: Seq<char>,
    },
}

impl View for CallbackResult {
    type V = CallbackResultView;

    open spec fn view(&self) -> CallbackResultView {
        match self {
            CallbackResult::Output { output, checks } => CallbackResultView::Output { output: output.deep_view(), checks: checks.deep_view() },
            CallbackResult::Failed { code } => CallbackResultView::Failed { code: code.deep_view() },
        }
    }
}

impl DeepView for CallbackResult {
    type V = CallbackResultView;

    open spec fn deep_view(&self) -> CallbackResultView {
        self@
    }
}

impl Data for CallbackResult {
    fn same(&self, other: &Self) -> (r: bool) {
        match (self, other) {
            (CallbackResult::Output { output: output1, checks: checks1 }, CallbackResult::Output { output: output2, checks: checks2 }) => output1.same(output2) && checks1.same(checks2),
            (CallbackResult::Failed { code: code1 }, CallbackResult::Failed { code: code2 }) => code1.same(code2),
            _ => false,
        }
    }

    fn copy(&self) -> (r: Self) {
        match self {
            CallbackResult::Output { output, checks } => CallbackResult::Output { output: output.copy(), checks: checks.copy() },
            CallbackResult::Failed { code } => CallbackResult::Failed { code: code.copy() },
        }
    }
}

/// How waiting for a callback ended.
#[derive(Debug)]
pub enum CallbackRace {
    Cancelled,
    Stopped {
        error: ContractError,
    },
    DeadlinePassed,
    Returned {
        output: HookOutput,
        checks: OutputChecks,
    },
    Reported {
        error: ContractError,
    },
    Panicked,
}

#[verifier::ext_equal]
pub enum CallbackRaceView {
    Cancelled,
    Stopped {
        error: Fault,
    },
    DeadlinePassed,
    Returned {
        output: HookOutputView,
        checks: OutputChecksView,
    },
    Reported {
        error: Fault,
    },
    Panicked,
}

impl View for CallbackRace {
    type V = CallbackRaceView;

    open spec fn view(&self) -> CallbackRaceView {
        match self {
            CallbackRace::Cancelled => CallbackRaceView::Cancelled,
            CallbackRace::Stopped { error } => CallbackRaceView::Stopped { error: error.deep_view() },
            CallbackRace::DeadlinePassed => CallbackRaceView::DeadlinePassed,
            CallbackRace::Returned { output, checks } => CallbackRaceView::Returned { output: output.deep_view(), checks: checks.deep_view() },
            CallbackRace::Reported { error } => CallbackRaceView::Reported { error: error.deep_view() },
            CallbackRace::Panicked => CallbackRaceView::Panicked,
        }
    }
}

impl DeepView for CallbackRace {
    type V = CallbackRaceView;

    open spec fn deep_view(&self) -> CallbackRaceView {
        self@
    }
}

impl Data for CallbackRace {
    fn same(&self, other: &Self) -> (r: bool) {
        match (self, other) {
            (CallbackRace::Cancelled, CallbackRace::Cancelled) => true,
            (CallbackRace::Stopped { error: error1 }, CallbackRace::Stopped { error: error2 }) => error1.same(error2),
            (CallbackRace::DeadlinePassed, CallbackRace::DeadlinePassed) => true,
            (CallbackRace::Returned { output: output1, checks: checks1 }, CallbackRace::Returned { output: output2, checks: checks2 }) => output1.same(output2) && checks1.same(checks2),
            (CallbackRace::Reported { error: error1 }, CallbackRace::Reported { error: error2 }) => error1.same(error2),
            (CallbackRace::Panicked, CallbackRace::Panicked) => true,
            _ => false,
        }
    }

    fn copy(&self) -> (r: Self) {
        match self {
            CallbackRace::Cancelled => CallbackRace::Cancelled,
            CallbackRace::Stopped { error } => CallbackRace::Stopped { error: error.copy() },
            CallbackRace::DeadlinePassed => CallbackRace::DeadlinePassed,
            CallbackRace::Returned { output, checks } => CallbackRace::Returned { output: output.copy(), checks: checks.copy() },
            CallbackRace::Reported { error } => CallbackRace::Reported { error: error.copy() },
            CallbackRace::Panicked => CallbackRace::Panicked,
        }
    }
}

/// What is kept of a callback.
#[derive(Debug)]
pub struct CallbackOutcome {
    pub output: Option<HookOutput>,
    pub failure: Option<Id>,
}

#[verifier::ext_equal]
pub struct CallbackOutcomeView {
    pub output: Option<HookOutputView>,
    pub failure: Option<Seq<char>>,
}

impl View for CallbackOutcome {
    type V = CallbackOutcomeView;

    open spec fn view(&self) -> CallbackOutcomeView {
        CallbackOutcomeView {
            output: self.output.deep_view(),
            failure: self.failure.deep_view(),
        }
    }
}

impl DeepView for CallbackOutcome {
    type V = CallbackOutcomeView;

    open spec fn deep_view(&self) -> CallbackOutcomeView {
        self@
    }
}

impl Data for CallbackOutcome {
    fn same(&self, other: &Self) -> (r: bool) {
        self.output.same(&other.output)
            && self.failure.same(&other.failure)
    }

    fn copy(&self) -> (r: Self) {
        CallbackOutcome {
            output: self.output.copy(),
            failure: self.failure.copy(),
        }
    }
}


/// Plans of a profile.
pub open spec fn plans_profile(digest: Seq<char>) -> spec_fn(RegisteredPlanView) -> bool {
    |registered: RegisteredPlanView| registered.profile_digest == digest
}

/// The outcome of planning a profile.
pub open spec fn planning(registry: HookRegistryView, profile: AgentProfileView) -> Option<
    RegisteredPlanView,
> {
    first_in(registry.plans, plans_profile(profile.digest))
}

/// Why the hooks of a profile cannot be planned.
pub open spec fn planning_fault(registry: HookRegistryView, profile: AgentProfileView) -> Option<
    Fault,
> {
    match planning(registry, profile) {
        None => fault(ErrorCode::ComponentUnavailable, "hooks.registry"),
        Some(registered) => match registered.outcome {
            PlanOutcomeView::Planned { .. } => None,
            PlanOutcomeView::Refused { error } => Some(error),
        },
    }
}

/// The hooks that a profile selects.
pub open spec fn planned(registry: HookRegistryView, profile: AgentProfileView) -> HookPlanView {
    planning(registry, profile)->0.outcome->plan
}

/// Why the plan of a run cannot be read yet.
pub open spec fn plan_reference_fault(
    registry: HookRegistryView,
    snapshot: RunSnapshotView,
) -> Option<Fault> {
    if snapshot.scope != registry.scope {
        fault(ErrorCode::AccessDenied, "hooks.scope")
    } else if planning_fault(registry, snapshot.profile.profile) is Some {
        planning_fault(registry, snapshot.profile.profile)
    } else if snapshot.hook_plan_ref is None {
        fault(ErrorCode::InvalidSnapshot, "hooks.plan_ref")
    } else {
        None
    }
}

/// Why a record does not hold the plan that a run was started with. `restored` is what restoring the
/// plan in the scope of the run reported.
pub open spec fn pinned_plan_fault(
    registry: HookRegistryView,
    snapshot: RunSnapshotView,
    record: ProtectedRecordView,
    restored: Option<Fault>,
) -> Option<Fault> {
    if plan_reference_fault(registry, snapshot) is Some {
        plan_reference_fault(registry, snapshot)
    } else if record.reference != snapshot.hook_plan_ref->0 {
        fault(ErrorCode::InvalidSnapshot, "hooks.plan_record")
    } else {
        match HookPlan::reading(record.content) {
            None => fault(ErrorCode::InvalidSnapshot, "hooks.plan"),
            Some(plan) => if restored is Some {
                restored
            } else if plan != planned(registry, snapshot.profile.profile) {
                fault(ErrorCode::ProfileMismatch, "hooks.plan")
            } else {
                None
            },
        }
    }
}

impl HookRuntime {
    /// Run the hooks of a registry.
    pub fn new(registry: HookRegistry) -> (r: Self)
        ensures
            r@ == (HookRuntimeView { binding_set_id: None, registry: registry@ }),
    {
        HookRuntime { binding_set_id: None, registry }
    }

    /// Forward the current Host segment identity to scoped export wrappers.
    pub fn with_binding_set_id(self, binding_set_id: Id) -> (r: Self)
        ensures
            r@ == (HookRuntimeView { binding_set_id: Some(binding_set_id@), ..self@ }),
    {
        HookRuntime { binding_set_id: Some(binding_set_id), registry: self.registry }
    }

    /// Scope under which callbacks are registered.
    pub fn scope(&self) -> (r: &Scope)
        ensures
            r@ == self@.registry.scope,
    {
        &self.registry.scope
    }

    /// Pure construction of the exact selected plan.
    pub fn plan(&self, profile: &AgentProfile) -> (r: Result<HookPlan, ContractError>)
        ensures
            failure(r) == planning_fault(self@.registry, profile@),
            r matches Ok(plan) ==> plan@ == planned(self@.registry, profile@),
    {
        let same = |registered: &RegisteredPlan| -> (b: bool)
            ensures
                b == plans_profile(profile@.digest)(registered@),
        { registered.profile_digest.same(&profile.digest) };
        match find(&self.registry.plans, same, Ghost(plans_profile(profile@.digest))) {
            None => fail(ErrorCode::ComponentUnavailable, "hooks.registry"),
            Some(registered) => match &registered.outcome {
                PlanOutcome::Planned { plan } => Ok(plan.copy()),
                PlanOutcome::Refused { error } => Err(error.copy()),
            },
        }
    }

    /// Which record holds the plan of a run.
    pub fn plan_reference(&self, snapshot: &RunSnapshot) -> (r: Result<RecordRef, ContractError>)
        ensures
            failure(r) == plan_reference_fault(self@.registry, snapshot@),
            r matches Ok(reference) ==> snapshot@.hook_plan_ref == Some(reference@),
    {
        if !snapshot.scope.same(self.scope()) {
            return fail(ErrorCode::AccessDenied, "hooks.scope");
        }
        self.plan(snapshot.profile.profile())?;
        match &snapshot.hook_plan_ref {
            Some(reference) => Ok(reference.copy()),
            None => fail(ErrorCode::InvalidSnapshot, "hooks.plan_ref"),
        }
    }

    /// Restore the plan that a run was started with; it is still the one that its profile selects.
    /// `restored` is what restoring the plan in the scope of the run reported.
    pub fn pinned_plan(
        &self,
        snapshot: &RunSnapshot,
        record: &ProtectedRecord,
        restored: &Option<ContractError>,
    ) -> (r: Result<HookPlan, ContractError>)
        ensures
            failure(r) == pinned_plan_fault(
                self@.registry,
                snapshot@,
                record@,
                restored.deep_view(),
            ),
            r matches Ok(plan) ==> plan@ == planned(self@.registry, snapshot@.profile.profile),
    {
        let reference = self.plan_reference(snapshot)?;
        let expected = self.plan(snapshot.profile.profile())?;
        if !record.reference().same(&reference) {
            return fail(ErrorCode::InvalidSnapshot, "hooks.plan_record");
        }
        match HookPlan::read(record.content()) {
            None => fail(ErrorCode::InvalidSnapshot, "hooks.plan"),
            Some(plan) => {
                verdict(restored)?;
                if !plan.same(&expected) {
                    return fail(ErrorCode::ProfileMismatch, "hooks.plan");
                }
                Ok(expected)
            },
        }
    }

    /// Check that a caller works in the scope of the registered callbacks.
    pub fn check_scope(&self, context_scope: &Scope, scope: &Scope) -> (r: Result<(), ContractError>)
        ensures
            failure(r) == runtime_scope_fault(self@.registry, context_scope@, scope@),
    {
        if !self.scope().same(scope) || !context_scope.same(scope) {
            return fail(ErrorCode::AccessDenied, "hooks.scope");
        }
        Ok(())
    }
}

/// Why a caller does not work in the scope of the registered callbacks.
pub open spec fn runtime_scope_fault(
    registry: HookRegistryView,
    context_scope: ScopeView,
    scope: ScopeView,
) -> Option<Fault> {
    if registry.scope != scope || context_scope != scope {
        fault(ErrorCode::AccessDenied, "hooks.scope")
    } else {
        None
    }
}

/// A target at which hooks only observe.
pub open spec fn observes(target: HookTargetView) -> bool {
    target is AfterTool || target is AfterRun
}

fn is_observed(target: &HookTarget) -> (r: bool)
    ensures
        r == observes(target@),
{
    match target {
        HookTarget::AfterTool { .. } => true,
        HookTarget::AfterRun { .. } => true,
        _ => false,
    }
}

/// Why an input is not transformed at a target. `input_defect` is what the keeper of hook inputs
/// reported.
pub open spec fn transform_entry_fault(
    registry: HookRegistryView,
    context_scope: ScopeView,
    scope: ScopeView,
    target: HookTargetView,
    input_defect: Option<Fault>,
) -> Option<Fault> {
    or_else(
        runtime_scope_fault(registry, context_scope, scope),
        or_else(
            input_defect,
            if observes(target) {
                fault(ErrorCode::InvalidContract, "hooks.transform_target")
            } else {
                None
            },
        ),
    )
}

/// Why an input is not observed at a target.
pub open spec fn observe_entry_fault(
    registry: HookRegistryView,
    context_scope: ScopeView,
    target: HookTargetView,
    input_defect: Option<Fault>,
) -> Option<Fault> {
    or_else(
        runtime_scope_fault(registry, context_scope, registry.scope),
        or_else(
            input_defect,
            if !observes(target) {
                fault(ErrorCode::InvalidContract, "hooks.observer_target")
            } else {
                None
            },
        ),
    )
}

impl HookRuntime {
    /// Check that a transformation may begin.
    pub fn check_transform(
        &self,
        context_scope: &Scope,
        scope: &Scope,
        target: &HookTarget,
        input_defect: &Option<ContractError>,
    ) -> (r: Result<(), ContractError>)
        ensures
            failure(r) == transform_entry_fault(
                self@.registry,
                context_scope@,
                scope@,
                target@,
                input_defect.deep_view(),
            ),
    {
        self.check_scope(context_scope, scope)?;
        verdict(input_defect)?;
        if is_observed(target) {
            return fail(ErrorCode::InvalidContract, "hooks.transform_target");
        }
        Ok(())
    }

    /// Check that an observation may begin.
    pub fn check_observe(
        &self,
        context_scope: &Scope,
        target: &HookTarget,
        input_defect: &Option<ContractError>,
    ) -> (r: Result<(), ContractError>)
        ensures
            failure(r) == observe_entry_fault(
                self@.registry,
                context_scope@,
                target@,
                input_defect.deep_view(),
            ),
    {
        self.check_scope(context_scope, self.scope())?;
        verdict(input_defect)?;
        if !is_observed(target) {
            return fail(ErrorCode::InvalidContract, "hooks.observer_target");
        }
        Ok(())
    }
}

/// Why an input does not fit what is saved.
pub open spec fn not_live() -> Option<Fault> {
    fault(ErrorCode::InvalidSnapshot, "hooks.target_input")
}

fn invalid<T>() -> (r: Result<T, ContractError>)
    ensures
        r is Err,
        failure(r) == not_live(),
{
    fail(ErrorCode::InvalidSnapshot, "hooks.target_input")
}

/// The records that the sources and skills of a run rest on.
pub open spec fn source_references(snapshot: RunSnapshotView) -> Seq<RecordRefView> {
    (match snapshot.source_plan_ref {
        Some(reference) => seq![reference],
        None => Seq::empty(),
    }) + snapshot.context_batches + skill_references(snapshot)
}

fn list_sources(snapshot: &RunSnapshot) -> (r: Vec<RecordRef>)
    ensures
        r.deep_view() == source_references(snapshot@),
{
    let mut first: Vec<RecordRef> = Vec::new();
    if let Some(reference) = &snapshot.source_plan_ref {
        first.push(reference.copy());
    }
    assert(first.deep_view() =~= (match snapshot@.source_plan_ref {
        Some(reference) => seq![reference],
        None => Seq::empty(),
    }));
    let with_batches = joined(&first, &snapshot.context_batches);
    joined(&with_batches, &references(snapshot))
}

/// Why a record cannot be found among those that were read.
pub open spec fn unread(records: Seq<ProtectedRecordView>) -> spec_fn(RecordRefView) -> Option<
    Fault,
> {
    |reference: RecordRefView|
        if record_named(records, reference) is None {
            missing()
        } else {
            None
        }
}

/// Records by their references.
pub open spec fn named_in(
    records: Seq<ProtectedRecordView>,
) -> spec_fn(RecordRefView) -> ProtectedRecordView {
    |reference: RecordRefView| record_named(records, reference)->0
}

fn read_one<'a>(records: &'a Vec<ProtectedRecord>, reference: &RecordRef) -> (r: Result<
    &'a ProtectedRecord,
    ContractError,
>)
    ensures
        failure(r) == unread(records.deep_view())(reference@),
        r matches Ok(record) ==> record@ == named_in(records.deep_view())(reference@),
{
    match find_record(records, reference) {
        Some(record) => Ok(record),
        None => not_found(),
    }
}

fn read_all(records: &Vec<ProtectedRecord>, wanted: &Vec<RecordRef>) -> (r: Result<
    Vec<ProtectedRecord>,
    ContractError,
>)
    ensures
        failure(r) == first_fault(wanted.deep_view(), unread(records.deep_view())),
        r matches Ok(list) ==> list.deep_view() == wanted.deep_view().map_values(
            named_in(records.deep_view()),
        ),
{
    let ghost s = wanted.deep_view();
    let ghost f = unread(records.deep_view());
    let ghost g = named_in(records.deep_view());
    let mut out: Vec<ProtectedRecord> = Vec::new();
    let mut i: usize = 0;
    assert(s.skip(0) =~= s);
    while i < wanted.len()
        invariant
            i <= wanted.len(),
            s == wanted.deep_view(),
            f == unread(records.deep_view()),
            g == named_in(records.deep_view()),
            out.deep_view() =~= s.take(i as int).map_values(g),
            first_fault(s, f) == first_fault(s.skip(i as int), f),
        decreases wanted.len() - i,
    {
        assert(s.skip(i as int)[0] == wanted@[i as int]@);
        assert(s.skip(i as int).skip(1) =~= s.skip(i + 1));
        let record = read_one(records, &wanted[i])?;
        let ghost before = out.deep_view();
        out.push(record.copy());
        assert(out.deep_view() =~= before.push(record@));
        assert(s.take(i + 1).map_values(g) =~= s.take(i as int).map_values(g).push(g(s[i as int])));
        i = i + 1;
    }
    assert(s.take(i as int) =~= s);
    Ok(out)
}

/// Applications of hooks before the run.
pub open spec fn is_before_run() -> spec_fn(HookApplicationView) -> bool {
    |application: HookApplicationView| application.target == HookTargetView::BeforeRun
}

/// Why the context that a hook added before the run cannot be read.
pub open spec fn addition_fault(
    records: Seq<ProtectedRecordView>,
) -> spec_fn(HookApplicationView) -> Option<Fault> {
    |application: HookApplicationView|
        if unread(records)(application.result_ref) is Some {
            unread(records)(application.result_ref)
        } else if application_in(named_in(records)(application.result_ref)) is None {
            not_live()
        } else {
            None
        }
}

/// The context that hooks added before the run.
pub open spec fn additions_of(
    applications: Seq<HookApplicationView>,
    records: Seq<ProtectedRecordView>,
) -> Seq<ContextItemView>
    decreases applications.len(),
{
    if applications.len() == 0 {
        Seq::empty()
    } else {
        additions_of(applications.drop_last(), records) + application_in(
            named_in(records)(applications.last().result_ref),
        )->0.context_items
    }
}

fn read_additions(applications: &Vec<HookApplication>, records: &Vec<ProtectedRecord>) -> (r: Result<
    Vec<ContextItem>,
    ContractError,
>)
    ensures
        failure(r) == first_fault(
            applications.deep_view(),
            addition_fault(records.deep_view()),
        ),
        r matches Ok(items) ==> items.deep_view() == additions_of(
            applications.deep_view(),
            records.deep_view(),
        ),
{
    let ghost s = applications.deep_view();
    let ghost f = addition_fault(records.deep_view());
    let mut out: Vec<ContextItem> = Vec::new();
    let mut i: usize = 0;
    assert(s.skip(0) =~= s);
    assert(s.take(0) =~= Seq::<HookApplicationView>::empty());
    assert(out.deep_view() =~= Seq::<ContextItemView>::empty());
    while i < applications.len()
        invariant
            i <= applications.len(),
            s == applications.deep_view(),
            f == addition_fault(records.deep_view()),
            out.deep_view() == additions_of(s.take(i as int), records.deep_view()),
            first_fault(s, f) == first_fault(s.skip(i as int), f),
        decreases applications.len() - i,
    {
        assert(s.skip(i as int)[0] == applications@[i as int]@);
        assert(s.skip(i as int).skip(1) =~= s.skip(i + 1));
        assert(s.take(i + 1).drop_last() =~= s.take(i as int));
        assert(s.take(i + 1).last() == applications@[i as int]@);
        let record = read_one(records, &applications[i].result_ref)?;
        match HookApplicationRecord::read(record.content()) {
            Some(value) => {
                out = joined(&out, &value.context_items);
            },
            None => {
                return invalid();
            },
        }
        i = i + 1;
    }
    assert(s.take(i as int) =~= s);
    Ok(out)
}

/// The context that is expected before a model step.
pub open spec fn expected_context(
    snapshot: RunSnapshotView,
    records: Seq<ProtectedRecordView>,
    step: Seq<char>,
) -> Seq<ContextItemView> {
    extension_context(
        snapshot,
        source_references(snapshot).map_values(named_in(records)),
        step,
    ) + additions_of(kept(snapshot.hook_applications, is_before_run()), records)
}

/// Why the input before a model step is not the one that the saved state calls for.
pub open spec fn model_live_fault(
    snapshot: RunSnapshotView,
    records: Seq<ProtectedRecordView>,
    step: Seq<char>,
    context_items: Seq<ContextItemView>,
) -> Option<Fault> {
    let sources = source_references(snapshot);
    or_else(
        first_fault(sources, unread(records)),
        or_else(
            extension_context_fault(snapshot, sources.map_values(named_in(records)), step),
            or_else(
                first_fault(
                    kept(snapshot.hook_applications, is_before_run()),
                    addition_fault(records),
                ),
                if context_items != expected_context(snapshot, records, step) {
                    not_live()
                } else {
                    None
                },
            ),
        ),
    )
}

fn check_model_input(
    snapshot: &RunSnapshot,
    records: &Vec<ProtectedRecord>,
    step: &Id,
    context_items: &Vec<ContextItem>,
) -> (r: Result<(), ContractError>)
    ensures
        failure(r) == model_live_fault(
            snapshot@,
            records.deep_view(),
            step@,
            context_items.deep_view(),
        ),
{
    let sources = read_all(records, &list_sources(snapshot))?;
    let found = extension_context_for_step(snapshot, &sources, step)?;
    let early = |application: &HookApplication| -> (b: bool)
        ensures
            b == is_before_run()(application@),
    {
        match &application.target {
            HookTarget::BeforeRun => true,
            _ => false,
        }
    };
    let before = keep(&snapshot.hook_applications, early, Ghost(is_before_run()));
    let added = read_additions(&before, records)?;
    if !context_items.same(&joined(&found, &added)) {
        return invalid();
    }
    Ok(())
}

/// Pinned tools that a call was made with.
pub open spec fn pins_tool(
    tool: crate::model::ModelToolView,
    descriptor_digest: Seq<char>,
    compiled_digest: Seq<char>,
) -> spec_fn(PinnedPromptToolView) -> bool {
    |entry: PinnedPromptToolView|
        entry.model_tool == tool && entry.descriptor_digest == descriptor_digest
            && entry.compiled_digest == compiled_digest
}

/// Why the input before a tool call is not the one that the saved state calls for. `restored` is
/// what restoring the session's prompt against the profile and the scope of the run reported.
pub open spec fn tool_live_fault(
    saved: StoredRunView,
    records: Seq<ProtectedRecordView>,
    call_id: Seq<char>,
    input: HookInputView,
    normalized: NormalizedInputsView,
    restored: Option<Fault>,
) -> Option<Fault> {
    match (first_in(saved.snapshot.tool_ledger, of_call(call_id)), input) {
        (
            Some(entry),
            HookInputView::BeforeTool {
                tool,
                descriptor_digest,
                compiled_digest,
                original_model_inputs,
                model_inputs,
            },
        ) => {
            let call = entry.call;
            let prompt_ref = saved.session.prompt_snapshot;
            if call.bound_input_ref is Some || original_model_inputs != call.model_inputs {
                not_live()
            } else if model_inputs != original_model_inputs && normalized is Refused {
                Some(normalized->error)
            } else if (model_inputs != original_model_inputs && model_inputs
                != normalized->members) || call.descriptor_digest != Some(descriptor_digest) {
                not_live()
            } else if unread(records)(prompt_ref) is Some {
                unread(records)(prompt_ref)
            } else {
                match PromptSnapshot::reading(named_in(records)(prompt_ref).content) {
                    None => not_live(),
                    Some(prompt) => if restored is Some {
                        restored
                    } else if !some_in(
                        prompt.tools,
                        pins_tool(tool, descriptor_digest, compiled_digest),
                    ) {
                        not_live()
                    } else {
                        None
                    },
                }
            }
        },
        _ => not_live(),
    }
}

fn check_tool_call_input(
    saved: &StoredRun,
    records: &Vec<ProtectedRecord>,
    call_id: &Id,
    input: &HookInput,
    normalized: &NormalizedInputs,
    restored: &Option<ContractError>,
) -> (r: Result<(), ContractError>)
    ensures
        failure(r) == tool_live_fault(
            saved@,
            records.deep_view(),
            call_id@,
            input@,
            normalized@,
            restored.deep_view(),
        ),
{
    let same = |entry: &ToolLedgerEntry| -> (b: bool)
        ensures
            b == of_call(call_id@)(entry@),
    { entry.call.call_id.same(call_id) };
    let call = match find(&saved.snapshot.tool_ledger, same, Ghost(of_call(call_id@))) {
        Some(entry) => &entry.call,
        None => {
            return invalid();
        },
    };
    match input {
        HookInput::BeforeTool {
            tool,
            descriptor_digest,
            compiled_digest,
            original_model_inputs,
            model_inputs,
        } => {
            if call.bound_input_ref.is_some() || !original_model_inputs.same(&call.model_inputs) {
                return invalid();
            }
            if !model_inputs.same(original_model_inputs) {
                match normalized {
                    NormalizedInputs::Refused { error } => {
                        return Err(error.copy());
                    },
                    NormalizedInputs::Inputs { members } => {
                        if !model_inputs.same(members) {
                            return invalid();
                        }
                    },
                }
            }
            let same_descriptor = match &call.descriptor_digest {
                Some(digest) => digest.same(descriptor_digest),
                None => false,
            };
            if !same_descriptor {
                return invalid();
            }
            let record = read_one(records, &saved.session.prompt_snapshot)?;
            let prompt = match PromptSnapshot::read(record.content()) {
                Some(prompt) => prompt,
                None => {
                    return invalid();
                },
            };
            verdict(restored)?;
            let pinned = |entry: &PinnedPromptTool| -> (b: bool)
                ensures
                    b == pins_tool(tool@, descriptor_digest@, compiled_digest@)(entry@),
            {
                entry.model_tool.same(tool) && entry.descriptor_digest.same(descriptor_digest)
                    && entry.compiled_digest.same(compiled_digest)
            };
            if !any(
                &prompt.tools,
                pinned,
                Ghost(pins_tool(tool@, descriptor_digest@, compiled_digest@)),
            ) {
                return invalid();
            }
            Ok(())
        },
        _ => invalid(),
    }
}

/// Why an observed tool result is not the committed one. `observed` is the result as a hook sees it.
pub open spec fn result_live_fault(
    records: Seq<ProtectedRecordView>,
    call_id: Seq<char>,
    result_ref: RecordRefView,
    input: HookInputView,
    observed: HookInputView,
) -> Option<Fault> {
    if unread(records)(result_ref) is Some {
        unread(records)(result_ref)
    } else {
        match ToolResult::reading(named_in(records)(result_ref).content) {
            None => not_live(),
            Some(result) => if result.call_id != call_id || observed != input {
                not_live()
            } else {
                None
            },
        }
    }
}

/// Why an observed outcome is not the committed one. `observed` is the outcome as a hook sees it.
pub open spec fn outcome_live_fault(
    snapshot: RunSnapshotView,
    records: Seq<ProtectedRecordView>,
    outcome_ref: RecordRefView,
    revision: u64,
    input: HookInputView,
    observed: HookInputView,
) -> Option<Fault> {
    if unread(records)(outcome_ref) is Some {
        unread(records)(outcome_ref)
    } else {
        match RunOutcome::reading(named_in(records)(outcome_ref).content) {
            None => not_live(),
            Some(outcome) => if !terminal(snapshot.status) || snapshot.revision != revision
                || snapshot.outcome != Some(outcome) || observed != input {
                not_live()
            } else {
                None
            },
        }
    }
}

/// Events that commit what a target observes.
pub open spec fn commits_target(target: HookTargetView) -> spec_fn(RunEventView) -> bool {
    |event: RunEventView|
        match (target, event.payload) {
            (
                HookTargetView::AfterTool { result_ref, .. },
                RunEventPayloadView::ToolSettled { result_ref: reference },
            ) => result_ref == reference,
            (
                HookTargetView::AfterTool { result_ref, .. },
                RunEventPayloadView::ToolUnresolved { result_ref: reference, .. },
            ) => result_ref == reference,
            (
                HookTargetView::AfterRun { outcome_ref, .. },
                RunEventPayloadView::RunFinished { outcome_ref: reference },
            ) => outcome_ref == reference,
            _ => false,
        }
}

fn is_committing(target: &HookTarget, event: &RunEvent) -> (r: bool)
    ensures
        r == commits_target(target@)(event@),
{
    match target {
        HookTarget::AfterTool { result_ref, .. } => match &event.payload {
            RunEventPayload::ToolSettled { result_ref: reference } => result_ref.same(reference),
            RunEventPayload::ToolUnresolved { result_ref: reference, .. } => result_ref.same(
                reference,
            ),
            _ => false,
        },
        HookTarget::AfterRun { outcome_ref, .. } => match &event.payload {
            RunEventPayload::RunFinished { outcome_ref: reference } => outcome_ref.same(reference),
            _ => false,
        },
        _ => false,
    }
}

fn has_commit(target: &HookTarget, events: &Vec<RunEvent>) -> (r: bool)
    ensures
        r == some_in(events.deep_view(), commits_target(target@)),
{
    let commits = |event: &RunEvent| -> (b: bool)
        ensures
            b == commits_target(target@)(event@),
    { is_committing(target, event) };
    any(events, commits, Ghost(commits_target(target@)))
}

/// Why an input is not the one that the saved records call for at a target. `observed` is what a hook
/// sees of the committed result or outcome.
pub open spec fn recorded_input_fault(
    saved: StoredRunView,
    target: HookTargetView,
    input: HookInputView,
    records: Seq<ProtectedRecordView>,
    normalized: NormalizedInputsView,
    restored: Option<Fault>,
    observed: HookInputView,
) -> Option<Fault> {
    let snapshot = saved.snapshot;
    match (target, input) {
        (
            HookTargetView::BeforeRun,
            HookInputView::BeforeRun { user_input, context_items },
        ) => if user_input == snapshot.request.input && context_items.len() == 0 {
            None
        } else {
            not_live()
        },
        (
            HookTargetView::BeforeModel { model_step_id },
            HookInputView::BeforeModel { user_input, context_items },
        ) => if user_input == snapshot.request.input && snapshot.model_step_id == Some(
            model_step_id,
        ) {
            model_live_fault(snapshot, records, model_step_id, context_items)
        } else {
            not_live()
        },
        (HookTargetView::BeforeTool { call_id }, HookInputView::BeforeTool { .. }) => {
            tool_live_fault(saved, records, call_id, input, normalized, restored)
        },
        (
            HookTargetView::AfterTool { call_id, result_ref },
            HookInputView::AfterTool { .. },
        ) => result_live_fault(records, call_id, result_ref, input, observed),
        (
            HookTargetView::AfterRun { outcome_ref, revision },
            HookInputView::AfterRun { .. },
        ) => outcome_live_fault(snapshot, records, outcome_ref, revision, input, observed),
        _ => not_live(),
    }
}

/// Why an input is not the one that the saved state calls for at a target. `events` are the committed
/// events of the run.
pub open spec fn live_input_fault(
    saved: StoredRunView,
    target: HookTargetView,
    input: HookInputView,
    records: Seq<ProtectedRecordView>,
    normalized: NormalizedInputsView,
    restored: Option<Fault>,
    observed: HookInputView,
    events: Seq<RunEventView>,
) -> Option<Fault> {
    or_else(
        recorded_input_fault(saved, target, input, records, normalized, restored, observed),
        if observes(target) && !some_in(events, commits_target(target)) {
            not_live()
        } else {
            None
        },
    )
}

fn check_recorded_input(
    saved: &StoredRun,
    target: &HookTarget,
    input: &HookInput,
    records: &Vec<ProtectedRecord>,
    normalized: &NormalizedInputs,
    restored: &Option<ContractError>,
    observed: &HookInput,
) -> (r: Result<(), ContractError>)
    ensures
        failure(r) == recorded_input_fault(
            saved@,
            target@,
            input@,
            records.deep_view(),
            normalized@,
            restored.deep_view(),
            observed@,
        ),
{
    let snapshot = &saved.snapshot;
    match target {
        HookTarget::BeforeRun => match input {
            HookInput::BeforeRun { user_input, context_items } => {
                assert(context_items.deep_view().len() == context_items.len());
                if user_input.same(&snapshot.request.input) && context_items.len() == 0 {
                    return Ok(());
                }
                invalid()
            },
            _ => invalid(),
        },
        HookTarget::BeforeModel { model_step_id } => match input {
            HookInput::BeforeModel { user_input, context_items } => {
                if user_input.same(&snapshot.request.input) && crate::data::is_same(
                    &snapshot.model_step_id,
                    model_step_id,
                ) {
                    return check_model_input(snapshot, records, model_step_id, context_items);
                }
                invalid()
            },
            _ => invalid(),
        },
        HookTarget::BeforeTool { call_id } => match input {
            HookInput::BeforeTool { .. } => check_tool_call_input(
                saved,
                records,
                call_id,
                input,
                normalized,
                restored,
            ),
            _ => invalid(),
        },
        HookTarget::AfterTool { call_id, result_ref } => match input {
            HookInput::AfterTool { .. } => {
                let record = read_one(records, result_ref)?;
                match ToolResult::read(record.content()) {
                    None => invalid(),
                    Some(result) => {
                        if !result.call_id.same(call_id) || !observed.same(input) {
                            return invalid();
                        }
                        Ok(())
                    },
                }
            },
            _ => invalid(),
        },
        HookTarget::AfterRun { outcome_ref, revision } => match input {
            HookInput::AfterRun { .. } => {
                let record = read_one(records, outcome_ref)?;
                match RunOutcome::read(record.content()) {
                    None => invalid(),
                    Some(outcome) => {
                        if !snapshot.status.is_terminal() || snapshot.revision != *revision
                            || !crate::data::is_same(&snapshot.outcome, outcome)
                            || !observed.same(input) {
                            return invalid();
                        }
                        Ok(())
                    },
                }
            },
            _ => invalid(),
        },
    }
}

/// Which records hold what an input is held against.
pub fn live_references(saved: &StoredRun, target: &HookTarget) -> (r: Vec<RecordRef>)
    ensures
        r.deep_view() == live_references_of(saved@, target@),
{
    let mut list: Vec<RecordRef> = Vec::new();
    match target {
        HookTarget::BeforeRun => {},
        HookTarget::BeforeModel { .. } => {
            let early = |application: &HookApplication| -> (b: bool)
                ensures
                    b == is_before_run()(application@),
            {
                match &application.target {
                    HookTarget::BeforeRun => true,
                    _ => false,
                }
            };
            let before = keep(
                &saved.snapshot.hook_applications,
                early,
                Ghost(is_before_run()),
            );
            let reference = |application: &HookApplication| -> (r: RecordRef)
                ensures
                    r@ == application@.result_ref,
            { application.result_ref.copy() };
            let results = crate::data::map_each(
                &before,
                reference,
                Ghost(|application: HookApplicationView| application.result_ref),
            );
            return joined(&list_sources(&saved.snapshot), &results);
        },
        HookTarget::BeforeTool { .. } => {
            list.push(saved.session.prompt_snapshot.copy());
        },
        HookTarget::AfterTool { result_ref, .. } => {
            list.push(result_ref.copy());
        },
        HookTarget::AfterRun { outcome_ref, .. } => {
            list.push(outcome_ref.copy());
        },
    }
    assert(list.deep_view() =~= live_references_of(saved@, target@));
    list
}

/// The records that an input is held against.
pub open spec fn live_references_of(saved: StoredRunView, target: HookTargetView) -> Seq<
    RecordRefView,
> {
    match target {
        HookTargetView::BeforeRun => Seq::empty(),
        HookTargetView::BeforeModel { .. } => source_references(saved.snapshot) + kept(
            saved.snapshot.hook_applications,
            is_before_run(),
        ).map_values(|application: HookApplicationView| application.result_ref),
        HookTargetView::BeforeTool { .. } => seq![saved.session.prompt_snapshot],
        HookTargetView::AfterTool { result_ref, .. } => seq![result_ref],
        HookTargetView::AfterRun { outcome_ref, .. } => seq![outcome_ref],
    }
}

/// Hold an input against the saved state: a hook never sees anything that is not committed.
/// `restored` is what restoring the session's prompt against the profile and the scope of the run
/// reported.
pub fn validate_live_input(
    saved: &StoredRun,
    target: &HookTarget,
    input: &HookInput,
    records: &Vec<ProtectedRecord>,
    normalized: &NormalizedInputs,
    restored: &Option<ContractError>,
    observed: &HookInput,
    events: &Vec<RunEvent>,
) -> (r: Result<(), ContractError>)
    ensures
        failure(r) == live_input_fault(
            saved@,
            target@,
            input@,
            records.deep_view(),
            normalized@,
            restored.deep_view(),
            observed@,
            events.deep_view(),
        ),
{
    check_recorded_input(saved, target, input, records, normalized, restored, observed)?;
    if is_observed(target) && !has_commit(target, events) {
        return invalid();
    }
    Ok(())
}

/// What one page of events says about a target.
#[derive(Debug)]
pub enum PageScan {
    /// The page holds the event that commits the target.
    Found,
    /// The next page is to be read after this sequence.
    Continue {
        after_seq: u64,
    },
}

#[verifier::ext_equal]
pub enum PageScanView {
    Found,
    Continue {
        after_seq: u64,
    },
}

impl View for PageScan {
    type V = PageScanView;

    open spec fn view(&self) -> PageScanView {
        match self {
            PageScan::Found => PageScanView::Found,
            PageScan::Continue { after_seq } => PageScanView::Continue { after_seq: after_seq.deep_view() },
        }
    }
}

impl DeepView for PageScan {
    type V = PageScanView;

    open spec fn deep_view(&self) -> PageScanView {
        self@
    }
}

impl Data for PageScan {
    fn same(&self, other: &Self) -> (r: bool) {
        match (self, other) {
            (PageScan::Found, PageScan::Found) => true,
            (PageScan::Continue { after_seq: after_seq1 }, PageScan::Continue { after_seq: after_seq2 }) => after_seq1.same(after_seq2),
            _ => false,
        }
    }

    fn copy(&self) -> (r: Self) {
        match self {
            PageScan::Found => PageScan::Found,
            PageScan::Continue { after_seq } => PageScan::Continue { after_seq: after_seq.copy() },
        }
    }
}


/// Why no further page can hold the event that commits a target.
pub open spec fn scan_fault(target: HookTargetView, page: EventPageView, after_seq: u64) -> Option<
    Fault,
> {
    if some_in(page.events, commits_target(target)) {
        None
    } else if !page.has_more || page.next_after_seq <= after_seq {
        not_live()
    } else {
        None
    }
}

/// Look for the event that commits a target in a page that was read after a cursor. The cursor
/// advances with every page, so the search ends.
pub fn scan_page(target: &HookTarget, page: &EventPage, after_seq: u64) -> (r: Result<
    PageScan,
    ContractError,
>)
    ensures
        failure(r) == scan_fault(target@, page@, after_seq),
        r matches Ok(scan) ==> scan@ == (if some_in(page@.events, commits_target(target@)) {
            PageScanView::Found
        } else {
            PageScanView::Continue { after_seq: page@.next_after_seq }
        }),
        r matches Ok(PageScan::Continue { after_seq: next }) ==> next > after_seq,
{
    if has_commit(target, &page.events) {
        return Ok(PageScan::Found);
    }
    if !page.has_more || page.next_after_seq <= after_seq {
        return invalid();
    }
    Ok(PageScan::Continue { after_seq: page.next_after_seq })
}

/// Applications of one hook at one target.
pub open spec fn applies(
    target: HookTargetView,
    hook: PlannedHookView,
) -> spec_fn(HookApplicationView) -> bool {
    |application: HookApplicationView|
        application.target == target && application.hook == hook.definition.hook
            && application.selection == hook.selection
}

fn find_application<'a>(
    applications: &'a Vec<HookApplication>,
    target: &HookTarget,
    hook: &PlannedHook,
) -> (r: Option<&'a HookApplication>)
    ensures
        r.deep_view() == first_in(applications.deep_view(), applies(target@, hook@)),
{
    let same = |application: &HookApplication| -> (b: bool)
        ensures
            b == applies(target@, hook@)(application@),
    {
        application.target.same(target) && application.hook.same(&hook.definition.hook)
            && application.selection.same(&hook.selection)
    };
    find(applications, same, Ghost(applies(target@, hook@)))
}

/// Why the input of a chain cannot be completed.
pub open spec fn completion_fault(
    input: HookInputView,
    normalized: NormalizedInputsView,
) -> Option<Fault> {
    if input is BeforeTool && normalized is Refused {
        Some(normalized->error)
    } else {
        None
    }
}

/// The input that a chain begins with: the completed inputs of a call, or exactly those that the
/// first saved application of the chain was handed.
pub open spec fn chain_input(
    input: HookInputView,
    normalized: NormalizedInputsView,
    first: Option<HookInputView>,
) -> HookInputView {
    match input {
        HookInputView::BeforeTool {
            tool,
            descriptor_digest,
            compiled_digest,
            original_model_inputs,
            ..
        } => HookInputView::BeforeTool {
            tool,
            descriptor_digest,
            compiled_digest,
            original_model_inputs,
            model_inputs: match first {
                Some(HookInputView::BeforeTool { model_inputs, .. }) => model_inputs,
                _ => normalized->members,
            },
        },
        _ => input,
    }
}

/// Complete the input of a chain. `first` is the input of the first saved application at the target.
pub fn begin_chain(input: HookInput, normalized: &NormalizedInputs, first: Option<&HookInput>) -> (r:
    Result<HookProgress, ContractError>)
    ensures
        failure(r) == completion_fault(input@, normalized@),
        r matches Ok(progress) ==> progress@ == (HookProgressView {
            input: chain_input(input@, normalized@, first.deep_view()),
            deny: None,
            applications: Seq::empty(),
        }),
{
    let applications: Vec<HookApplication> = Vec::new();
    assert(applications.deep_view() =~= Seq::<HookApplicationView>::empty());
    match input {
        HookInput::BeforeTool {
            tool,
            descriptor_digest,
            compiled_digest,
            original_model_inputs,
            model_inputs: _,
        } => {
            let completed = match normalized {
                NormalizedInputs::Refused { error } => {
                    return Err(error.copy());
                },
                NormalizedInputs::Inputs { members } => members.copy(),
            };
            let model_inputs = match first {
                Some(HookInput::BeforeTool { model_inputs, .. }) => model_inputs.copy(),
                _ => completed,
            };
            Ok(
                HookProgress {
                    input: HookInput::BeforeTool {
                        tool,
                        descriptor_digest,
                        compiled_digest,
                        original_model_inputs,
                        model_inputs,
                    },
                    deny: None,
                    applications,
                },
            )
        },
        _ => Ok(HookProgress { input, deny: None, applications }),
    }
}

/// What a chain does next. `hooks` are the hooks of the plan at the position of the target.
pub open spec fn step_of(
    progress: HookProgressView,
    hooks: Seq<PlannedHookView>,
    snapshot: RunSnapshotView,
    target: HookTargetView,
) -> HookStepView {
    let i = progress.applications.len() as int;
    if progress.deny is Some || i >= hooks.len() {
        HookStepView::Finish
    } else {
        match first_in(snapshot.hook_applications, applies(target, hooks[i])) {
            Some(application) => HookStepView::Reuse { application },
            None => HookStepView::Invoke { hook: hooks[i] },
        }
    }
}

/// Decide what a chain does next. Every saved application is reused before a hook is called.
pub fn next_step(
    progress: &HookProgress,
    hooks: &Vec<PlannedHook>,
    snapshot: &RunSnapshot,
    target: &HookTarget,
) -> (r: HookStep)
    ensures
        r@ == step_of(progress@, hooks.deep_view(), snapshot@, target@),
{
    let i: usize = progress.applications.len();
    assert(progress@.applications.len() == progress.applications.len());
    if progress.deny.is_some() || i >= hooks.len() {
        return HookStep::Finish;
    }
    assert(hooks.deep_view()[i as int] == hooks@[i as int]@);
    match find_application(&snapshot.hook_applications, target, &hooks[i]) {
        Some(application) => HookStep::Reuse { application: application.copy() },
        None => HookStep::Invoke { hook: hooks[i].copy() },
    }
}

/// A chain after one more application.
pub open spec fn advanced(
    progress: HookProgressView,
    record: HookApplicationRecordView,
    application: HookApplicationView,
) -> HookProgressView {
    HookProgressView {
        input: applied_input(progress.input, record),
        deny: applied_denial(record),
        applications: progress.applications.push(application),
    }
}

/// Take an application into a chain.
pub fn advance(
    progress: HookProgress,
    record: &HookApplicationRecord,
    application: HookApplication,
) -> (r: Result<HookProgress, ContractError>)
    ensures
        failure(r) == apply_fault(progress@.input, record@),
        r matches Ok(next) ==> next@ == advanced(progress@, record@, application@),
{
    let applied = apply(&progress.input, record)?;
    let ghost before = progress.applications.deep_view();
    let ghost added = application@;
    let mut applications = progress.applications;
    applications.push(application);
    assert(applications.deep_view() =~= before.push(added));
    Ok(HookProgress { input: applied.input, deny: applied.deny, applications })
}

/// Take over an application that was saved before.
pub fn reuse(
    progress: HookProgress,
    record: &ProtectedRecord,
    plan: &HookPlan,
    application: HookApplication,
    scope: &Scope,
    run_id: &Id,
) -> (r: Result<HookProgress, ContractError>)
    ensures
        failure(r) == or_else(
            application_fault(record@, plan@, application@, scope@, run_id@),
            apply_fault(progress@.input, application_in(record@)->0),
        ),
        r matches Ok(next) ==> next@ == advanced(
            progress@,
            application_in(record@)->0,
            application@,
        ),
{
    let value = HookApplicationRecord::restore(record, plan, &application, scope, run_id)?;
    advance(progress, value, application)
}

/// Why a hook has no handler that may be called.
pub open spec fn handler_fault(registry: HookRegistryView, hook: PlannedHookView) -> Option<Fault> {
    if !(first_in(registry.handlers, handles(hook)) matches Some(entry) && entry.definition
        == hook.definition) {
        fault(ErrorCode::ComponentUnavailable, "hooks.handler")
    } else {
        None
    }
}

/// Handlers of a hook.
pub open spec fn handles(hook: PlannedHookView) -> spec_fn(PlannedHookView) -> bool {
    |entry: PlannedHookView|
        entry.definition.hook == hook.definition.hook && entry.selection == hook.selection
}

impl HookRuntime {
    /// Check that the handler of a hook is still the planned one.
    pub fn check_handler(&self, hook: &PlannedHook) -> (r: Result<(), ContractError>)
        ensures
            failure(r) == handler_fault(self@.registry, hook@),
    {
        let same = |entry: &PlannedHook| -> (b: bool)
            ensures
                b == handles(hook@)(entry@),
        {
            entry.definition.hook.same(&hook.definition.hook) && entry.selection.same(
                &hook.selection,
            )
        };
        let is_planned = match find(&self.registry.handlers, same, Ghost(handles(hook@))) {
            Some(entry) => entry.definition.same(&hook.definition),
            None => false,
        };
        if !is_planned {
            return fail(ErrorCode::ComponentUnavailable, "hooks.handler");
        }
        Ok(())
    }
}

/// What the decision of a policy means for a hook: nothing but permission lets it be called.
pub fn settle_hook_policy(decision: PolicyVerdict) -> (r: Result<(), ContractError>)
    ensures
        failure(r) == (if decision is Allow {
            None
        } else {
            fault(ErrorCode::AccessDenied, "hooks.policy")
        }),
{
    match decision {
        PolicyVerdict::Allow => Ok(()),
        _ => fail(ErrorCode::AccessDenied, "hooks.policy"),
    }
}

/// The identifier of an error code.
pub fn code_id(code: ErrorCode) -> (r: Id)
    ensures
        r@ == code.name(),
{
    proof {
        lemma_codes_are_named(code);
    }
    Id::literal(code.as_str())
}

/// Why waiting for a callback ends the whole chain.
pub open spec fn race_fault(race: CallbackRaceView) -> Option<Fault> {
    match race {
        CallbackRaceView::Cancelled => fault(ErrorCode::Cancelled, "hooks.callback"),
        CallbackRaceView::Stopped { error } => Some(error),
        _ => None,
    }
}

/// What a callback gave back. A deadline, an error and a panic are failures of the hook alone.
pub open spec fn race_result(race: CallbackRaceView) -> CallbackResultView {
    match race {
        CallbackRaceView::Returned { output, checks } => CallbackResultView::Output {
            output,
            checks,
        },
        CallbackRaceView::Reported { error } => CallbackResultView::Failed {
            code: error.code.name(),
        },
        CallbackRaceView::DeadlinePassed => CallbackResultView::Failed {
            code: ErrorCode::DeadlineExceeded.name(),
        },
        _ => CallbackResultView::Failed { code: ErrorCode::InvalidContract.name() },
    }
}

/// Decide what waiting for a callback came to.
pub fn settle_race(race: CallbackRace) -> (r: Result<CallbackResult, ContractError>)
    ensures
        failure(r) == race_fault(race@),
        r matches Ok(result) ==> result@ == race_result(race@),
{
    match race {
        CallbackRace::Cancelled => fail(ErrorCode::Cancelled, "hooks.callback"),
        CallbackRace::Stopped { error } => Err(error),
        CallbackRace::DeadlinePassed => Ok(
            CallbackResult::Failed { code: code_id(ErrorCode::DeadlineExceeded) },
        ),
        CallbackRace::Returned { output, checks } => Ok(CallbackResult::Output { output, checks }),
        CallbackRace::Reported { error } => Ok(
            CallbackResult::Failed { code: code_id(error.code) },
        ),
        CallbackRace::Panicked => Ok(
            CallbackResult::Failed { code: code_id(ErrorCode::InvalidContract) },
        ),
    }
}

/// Why the result of a callback ends the chain.
pub open spec fn callback_fault(
    definition: HookDefinitionView,
    target: HookTargetView,
    input: HookInputView,
    callback: CallbackResultView,
) -> Option<Fault> {
    match callback {
        CallbackResultView::Output { output, checks } => or_else(
            normalize_fault(input, output, checks),
            output_fault(definition, input, normalized_output(input, output, checks), checks),
        ),
        CallbackResultView::Failed { .. } => if target == HookTargetView::BeforeRun
            && !definition.required {
            None
        } else {
            fault(ErrorCode::InvalidContract, "hooks.callback")
        },
    }
}

/// What is kept of a callback.
pub open spec fn kept_of(input: HookInputView, callback: CallbackResultView) -> CallbackOutcomeView {
    match callback {
        CallbackResultView::Output { output, checks } => CallbackOutcomeView {
            output: Some(normalized_output(input, output, checks)),
            failure: None,
        },
        CallbackResultView::Failed { code } => CallbackOutcomeView {
            output: None,
            failure: Some(code),
        },
    }
}

/// Judge the result of a callback. Invalid output always ends the chain; only the failure of an
/// optional hook before the run is kept as a warning.
pub fn settle_callback(
    definition: &HookDefinition,
    target: &HookTarget,
    input: &HookInput,
    callback: CallbackResult,
) -> (r: Result<CallbackOutcome, ContractError>)
    ensures
        failure(r) == callback_fault(definition@, target@, input@, callback@),
        r matches Ok(outcome) ==> outcome@ == kept_of(input@, callback@),
{
    match callback {
        CallbackResult::Output { output, checks } => {
            let output = normalize_output(input, output, &checks)?;
            validate_output(definition, input, &output, &checks)?;
            Ok(CallbackOutcome { output: Some(output), failure: None })
        },
        CallbackResult::Failed { code } => {
            let is_first = match target {
                HookTarget::BeforeRun => true,
                _ => false,
            };
            if !is_first || definition.required {
                return fail(ErrorCode::InvalidContract, "hooks.callback");
            }
            Ok(CallbackOutcome { output: None, failure: Some(code) })
        },
    }
}

/// The additions of an output.
pub open spec fn additions_in(output: Option<HookOutputView>) -> Seq<HookContextAdditionView> {
    match output {
        Some(HookOutputView::Context { additions }) => additions,
        _ => Seq::empty(),
    }
}

/// How many identifiers the additions of an output need.
pub fn addition_count(output: &Option<HookOutput>) -> (r: usize)
    ensures
        r == additions_in(output.deep_view()).len(),
{
    match output {
        Some(HookOutput::Context { additions }) => {
            assert(additions.deep_view().len() == additions.len());
            additions.len()
        },
        _ => 0,
    }
}

/// The context items of additions, each under its own identifier.
pub open spec fn stamped_items(
    ids: Seq<Seq<char>>,
    scope: ScopeView,
    run_id: Seq<char>,
    definition: HookDefinitionView,
    target: HookTargetView,
    additions: Seq<HookContextAdditionView>,
) -> Seq<ContextItemView> {
    Seq::new(
        additions.len(),
        |i: int| stamped_item(ids[i], scope, run_id, definition, target, additions[i]),
    )
}

fn stamp_all(
    ids: &Vec<Id>,
    scope: &Scope,
    run_id: &Id,
    definition: &HookDefinition,
    target: &HookTarget,
    additions: &Vec<HookContextAddition>,
) -> (r: Result<Vec<ContextItem>, ContractError>)
    requires
        ids.len() >= additions.len(),
    ensures
        failure(r) == (if additions.deep_view().len() > 0 {
            stamp_fault(target@)
        } else {
            None
        }),
        r matches Ok(items) ==> items.deep_view() == stamped_items(
            ids.deep_view(),
            scope@,
            run_id@,
            definition@,
            target@,
            additions.deep_view(),
        ),
{
    let ghost all = stamped_items(
        ids.deep_view(),
        scope@,
        run_id@,
        definition@,
        target@,
        additions.deep_view(),
    );
    let mut out: Vec<ContextItem> = Vec::new();
    let mut i: usize = 0;
    assert(additions.deep_view().len() == additions.len());
    while i < additions.len()
        invariant
            i <= additions.len(),
            ids.len() >= additions.len(),
            additions.deep_view().len() == additions.len(),
            all == stamped_items(
                ids.deep_view(),
                scope@,
                run_id@,
                definition@,
                target@,
                additions.deep_view(),
            ),
            i > 0 ==> stamp_fault(target@) is None,
            out.deep_view() =~= all.take(i as int),
        decreases additions.len() - i,
    {
        assert(additions.deep_view()[i as int] == additions@[i as int]@);
        assert(ids.deep_view()[i as int] == ids@[i as int]@);
        let item = stamped(ids[i].copy(), scope, run_id, definition, target, &additions[i])?;
        let ghost before = out.deep_view();
        let ghost added = item@;
        out.push(item);
        assert(out.deep_view() =~= before.push(added));
        assert(all.take(i + 1) =~= all.take(i as int).push(all[i as int]));
        i = i + 1;
    }
    assert(all.take(i as int) =~= all);
    Ok(out)
}

/// A hook that was called in a run: what it was called with, and what came of it.
#[derive(Debug)]
pub struct Invocation {
    pub scope: Scope,
    pub run_id: Id,
    pub hook: PlannedHook,
    pub target: HookTarget,
    pub input: HookInput,
    pub outcome: CallbackOutcome,
    /// Identifiers for the context items that the hook adds, one for each addition.
    pub item_ids: Vec<Id>,
    pub record_id: Id,
    /// What the keepers of inputs and outputs reported about the record.
    pub input_defect: Option<ContractError>,
    pub checks: OutputChecks,
    pub normalized_original: Vec<Member>,
    pub original_defect: Option<ContractError>,
}

#[verifier::ext_equal]
pub struct InvocationView {
    pub scope: ScopeView,
    pub run_id: Seq<char>,
    pub hook: PlannedHookView,
    pub target: HookTargetView,
    pub input: HookInputView,
    pub outcome: CallbackOutcomeView,
    pub item_ids: Seq<Seq<char>>,
    pub record_id: Seq<char>,
    pub input_defect: Option<Fault>,
    pub checks: OutputChecksView,
    pub normalized_original: Seq<MemberView>,
    pub original_defect: Option<Fault>,
}

impl View for Invocation {
    type V = InvocationView;

    open spec fn view(&self) -> InvocationView {
        InvocationView {
            scope: self.scope.deep_view(),
            run_id: self.run_id.deep_view(),
            hook: self.hook.deep_view(),
            target: self.target.deep_view(),
            input: self.input.deep_view(),
            outcome: self.outcome.deep_view(),
            item_ids: self.item_ids.deep_view(),
            record_id: self.record_id.deep_view(),
            input_defect: self.input_defect.deep_view(),
            checks: self.checks.deep_view(),
            normalized_original: self.normalized_original.deep_view(),
            original_defect: self.original_defect.deep_view(),
        }
    }
}

impl DeepView for Invocation {
    type V = InvocationView;

    open spec fn deep_view(&self) -> InvocationView {
        self@
    }
}

impl Data for Invocation {
    fn same(&self, other: &Self) -> (r: bool) {
        self.scope.same(&other.scope)
            && self.run_id.same(&other.run_id)
            && self.hook.same(&other.hook)
            && self.target.same(&other.target)
            && self.input.same(&other.input)
            && self.outcome.same(&other.outcome)
            && self.item_ids.same(&other.item_ids)
            && self.record_id.same(&other.record_id)
            && self.input_defect.same(&other.input_defect)
            && self.checks.same(&other.checks)
            && self.normalized_original.same(&other.normalized_original)
            && self.original_defect.same(&other.original_defect)
    }

    fn copy(&self) -> (r: Self) {
        Invocation {
            scope: self.scope.copy(),
            run_id: self.run_id.copy(),
            hook: self.hook.copy(),
            target: self.target.copy(),
            input: self.input.copy(),
            outcome: self.outcome.copy(),
            item_ids: self.item_ids.copy(),
            record_id: self.record_id.copy(),
            input_defect: self.input_defect.copy(),
            checks: self.checks.copy(),
            normalized_original: self.normalized_original.copy(),
            original_defect: self.original_defect.copy(),
        }
    }
}

/// An application with the record that holds it.
#[derive(Debug)]
pub struct SavedApplication {
    pub application: HookApplication,
    pub value: HookApplicationRecord,
    pub record: ProtectedRecord,
}

#[verifier::ext_equal]
pub struct SavedApplicationView {
    pub application: HookApplicationView,
    pub value: HookApplicationRecordView,
    pub record: ProtectedRecordView,
}

impl View for SavedApplication {
    type V = SavedApplicationView;

    open spec fn view(&self) -> SavedApplicationView {
        SavedApplicationView {
            application: self.application.deep_view(),
            value: self.value.deep_view(),
            record: self.record.deep_view(),
        }
    }
}

impl DeepView for SavedApplication {
    type V = SavedApplicationView;

    open spec fn deep_view(&self) -> SavedApplicationView {
        self@
    }
}

impl Data for SavedApplication {
    fn same(&self, other: &Self) -> (r: bool) {
        self.application.same(&other.application)
            && self.value.same(&other.value)
            && self.record.same(&other.record)
    }

    fn copy(&self) -> (r: Self) {
        SavedApplication {
            application: self.application.copy(),
            value: self.value.copy(),
            record: self.record.copy(),
        }
    }
}


/// Why an application cannot be recorded.
pub open spec fn recording_fault(invocation: InvocationView) -> Option<Fault> {
    if invocation.item_ids.len() < additions_in(invocation.outcome.output).len() {
        fault(ErrorCode::InvalidContract, "hooks.item_ids")
    } else if additions_in(invocation.outcome.output).len() > 0 {
        stamp_fault(invocation.target)
    } else {
        None
    }
}

/// The record of an application.
pub open spec fn recorded(invocation: InvocationView) -> HookApplicationRecordView {
    let definition = invocation.hook.definition;
    HookApplicationRecordView {
        scope: invocation.scope,
        run_id: invocation.run_id,
        hook: definition.hook,
        selection: invocation.hook.selection,
        definition_digest: definition_digest(definition),
        target: invocation.target,
        input: invocation.input,
        output: invocation.outcome.output,
        failure: invocation.outcome.failure,
        context_items: stamped_items(
            invocation.item_ids,
            invocation.scope,
            invocation.run_id,
            definition,
            invocation.target,
            additions_in(invocation.outcome.output),
        ),
        input_defect: invocation.input_defect,
        checks: invocation.checks,
        normalized_original: invocation.normalized_original,
        original_defect: invocation.original_defect,
    }
}

/// The application that a record of it stands for.
pub open spec fn application_of(invocation: InvocationView) -> HookApplicationView {
    HookApplicationView {
        hook: invocation.hook.definition.hook,
        selection: invocation.hook.selection,
        definition_digest: definition_digest(invocation.hook.definition),
        target: invocation.target,
        input_digest: hook_input_digest(invocation.input),
        result_ref: RecordRefView {
            record_id: invocation.record_id,
            revision: 1,
            digest: digest_of(hook_record_json(recorded(invocation))),
        },
    }
}

/// Record an application before it takes effect.
pub fn record_application(invocation: &Invocation) -> (r: Result<SavedApplication, ContractError>)
    ensures
        failure(r) == recording_fault(invocation@),
        r matches Ok(saved) ==> saved@.application == application_of(invocation@) && saved@.value
            == recorded(invocation@) && saved@.record.reference == application_of(
            invocation@,
        ).result_ref && application_in(saved@.record) == Some(recorded(invocation@)),
{
    let definition = &invocation.hook.definition;
    let none: Vec<HookContextAddition> = Vec::new();
    assert(none.deep_view() =~= Seq::<HookContextAdditionView>::empty());
    let additions = match &invocation.outcome.output {
        Some(HookOutput::Context { additions }) => additions,
        _ => &none,
    };
    assert(additions.deep_view() == additions_in(invocation@.outcome.output));
    assert(additions.deep_view().len() == additions.len());
    assert(invocation@.item_ids.len() == invocation.item_ids.len());
    if invocation.item_ids.len() < additions.len() {
        return fail(ErrorCode::InvalidContract, "hooks.item_ids");
    }
    let context_items = stamp_all(
        &invocation.item_ids,
        &invocation.scope,
        &invocation.run_id,
        definition,
        &invocation.target,
        additions,
    )?;
    let value = HookApplicationRecord {
        scope: invocation.scope.copy(),
        run_id: invocation.run_id.copy(),
        hook: definition.hook.copy(),
        selection: invocation.hook.selection.copy(),
        definition_digest: definition.digest(),
        target: invocation.target.copy(),
        input: invocation.input.copy(),
        output: invocation.outcome.output.copy(),
        failure: invocation.outcome.failure.copy(),
        context_items,
        input_defect: invocation.input_defect.copy(),
        checks: invocation.checks.copy(),
        normalized_original: invocation.normalized_original.copy(),
        original_defect: invocation.original_defect.copy(),
    };
    assert(value@ == recorded(invocation@));
    let record = ProtectedRecord::new(
        invocation.record_id.copy(),
        1,
        encode_hook_record(&value),
        RecordContent::HookApplication(Box::new(value.copy())),
    );
    let application = HookApplication {
        hook: definition.hook.copy(),
        selection: invocation.hook.selection.copy(),
        definition_digest: definition.digest(),
        target: invocation.target.copy(),
        input_digest: invocation.input.digest(),
        result_ref: record.reference().copy(),
    };
    Ok(SavedApplication { application, value, record })
}

/// Why a checkpoint cannot take an application.
pub open spec fn saving_fault(
    snapshot: RunSnapshotView,
    target: HookTargetView,
    hook: PlannedHookView,
) -> Option<Fault> {
    if some_in(snapshot.hook_applications, applies(target, hook)) {
        fault(ErrorCode::RevisionConflict, "hooks.application")
    } else if snapshot.revision == u64::MAX {
        fault(ErrorCode::RevisionConflict, "hooks.revision")
    } else {
        None
    }
}

/// A checkpoint that took an application.
pub open spec fn saved_with(
    snapshot: RunSnapshotView,
    application: HookApplicationView,
    elapsed_ms: u64,
    now_ms: i64,
) -> RunSnapshotView {
    RunSnapshotView {
        revision: (snapshot.revision + 1) as u64,
        usage: crate::run::BudgetUsageView { elapsed_ms, ..snapshot.usage },
        timing: RunTimingView { last_observed_at_ms: now_ms, ..snapshot.timing },
        hook_applications: snapshot.hook_applications.push(application),
        ..snapshot
    }
}

/// Put an application into the next checkpoint of a run. One that was saved meanwhile is a conflict.
pub fn save_application(
    snapshot: RunSnapshot,
    target: &HookTarget,
    hook: &PlannedHook,
    application: HookApplication,
    elapsed_ms: u64,
    now_ms: i64,
) -> (r: Result<RunSnapshot, ContractError>)
    ensures
        failure(r) == saving_fault(snapshot@, target@, hook@),
        r matches Ok(next) ==> next@ == saved_with(snapshot@, application@, elapsed_ms, now_ms),
{
    proof {
        lemma_first_in(snapshot@.hook_applications, applies(target@, hook@));
    }
    if find_application(&snapshot.hook_applications, target, hook).is_some() {
        return fail(ErrorCode::RevisionConflict, "hooks.application");
    }
    if snapshot.revision == u64::MAX {
        return fail(ErrorCode::RevisionConflict, "hooks.revision");
    }
    let ghost before = snapshot@;
    let ghost added = application@;
    let mut next = snapshot;
    next.revision = next.revision + 1;
    next.usage.elapsed_ms = elapsed_ms;
    next.timing.last_observed_at_ms = now_ms;
    next.hook_applications.push(application);
    assert(next.hook_applications.deep_view() =~= before.hook_applications.push(added));
    Ok(next)
}

/// Hand on what a finished chain has made of its input.
pub fn finish_chain(progress: HookProgress) -> (r: HookTransform)
    requires
        is_transformable(progress@.input),
    ensures
        r@ == transform_of(progress@.input, progress@.deny, progress@.applications),
{
    transformed(progress.input, progress.deny, progress.applications)
}

/// Applications at a target.
pub open spec fn is_at(target: HookTargetView) -> spec_fn(HookApplicationView) -> bool {
    |application: HookApplicationView| application.target == target
}

/// Why a saved prefix of a chain cannot be folded further with the application at a position.
pub open spec fn fold_fault(
    records: Seq<ProtectedRecordView>,
    plan: HookPlanView,
    snapshot: RunSnapshotView,
    at: HookProgressView,
    application: HookApplicationView,
) -> Option<Fault> {
    let record = named_in(records)(application.result_ref);
    let value = application_in(record)->0;
    let input = if at.applications.len() == 0 {
        value.input
    } else {
        at.input
    };
    if unread(records)(application.result_ref) is Some {
        unread(records)(application.result_ref)
    } else if application_fault(
        record,
        plan,
        application,
        snapshot.scope,
        snapshot.run_id,
    ) is Some {
        application_fault(record, plan, application, snapshot.scope, snapshot.run_id)
    } else if at.deny is Some {
        fault(ErrorCode::InvalidSnapshot, "hooks.denied_chain")
    } else {
        apply_fault(input, value)
    }
}

/// The first applications of a saved chain, folded.
pub open spec fn folded(
    records: Seq<ProtectedRecordView>,
    applications: Seq<HookApplicationView>,
    start: HookInputView,
    n: int,
) -> HookProgressView
    decreases n,
{
    if n <= 0 {
        HookProgressView { input: start, deny: None, applications: Seq::empty() }
    } else {
        let at = folded(records, applications, start, n - 1);
        advanced(at, application_in(
            named_in(records)(applications[n - 1].result_ref),
        )->0, applications[n - 1])
    }
}

/// The input that a saved chain began with.
pub open spec fn first_saved_input(
    records: Seq<ProtectedRecordView>,
    applications: Seq<HookApplicationView>,
) -> HookInputView {
    application_in(named_in(records)(applications[0].result_ref))->0.input
}

/// Why the application at a position ends the folding of a saved chain.
pub open spec fn fold_fault_at(
    records: Seq<ProtectedRecordView>,
    plan: HookPlanView,
    snapshot: RunSnapshotView,
    applications: Seq<HookApplicationView>,
) -> spec_fn(int) -> Option<Fault> {
    |i: int|
        fold_fault(
            records,
            plan,
            snapshot,
            folded(records, applications, first_saved_input(records, applications), i),
            applications[i],
        )
}

/// Fold an already saved prefix of a chain, without calling any hook. Nothing comes of a chain of
/// which nothing is saved.
pub fn saved_chain(
    snapshot: &RunSnapshot,
    target: &HookTarget,
    plan: &HookPlan,
    records: &Vec<ProtectedRecord>,
) -> (r: Result<Option<HookProgress>, ContractError>)
    ensures
        ({
            let applications = kept(snapshot@.hook_applications, is_at(target@));
            let n = applications.len() as int;
            &&& failure(r) == crate::data::first_index_fault(
                0,
                n,
                fold_fault_at(records.deep_view(), plan@, snapshot@, applications),
            )
            &&& r matches Ok(progress) ==> progress.deep_view() == (if n == 0 {
                None
            } else {
                Some(
                    folded(
                        records.deep_view(),
                        applications,
                        first_saved_input(records.deep_view(), applications),
                        n,
                    ),
                )
            })
        }),
{
    let at_target = |application: &HookApplication| -> (b: bool)
        ensures
            b == is_at(target@)(application@),
    { application.target.same(target) };
    let applications = keep(&snapshot.hook_applications, at_target, Ghost(is_at(target@)));
    fold_chain(snapshot, plan, records, &applications)
}

fn fold_chain(
    snapshot: &RunSnapshot,
    plan: &HookPlan,
    records: &Vec<ProtectedRecord>,
    applications: &Vec<HookApplication>,
) -> (r: Result<Option<HookProgress>, ContractError>)
    ensures
        ({
            let list = applications.deep_view();
            let n = list.len() as int;
            &&& failure(r) == crate::data::first_index_fault(
                0,
                n,
                fold_fault_at(records.deep_view(), plan@, snapshot@, list),
            )
            &&& r matches Ok(progress) ==> progress.deep_view() == (if n == 0 {
                None
            } else {
                Some(
                    folded(
                        records.deep_view(),
                        list,
                        first_saved_input(records.deep_view(), list),
                        n,
                    ),
                )
            })
        }),
{
    let ghost given = records.deep_view();
    let ghost s = applications.deep_view();
    let ghost n = s.len() as int;
    let ghost f = fold_fault_at(given, plan@, snapshot@, s);
    let ghost start = first_saved_input(given, s);
    let mut current: Option<HookProgress> = None;
    let mut i: usize = 0;
    while i < applications.len()
        invariant
            i <= applications.len(),
            given == records.deep_view(),
            s == applications.deep_view(),
            n == applications.len(),
            f == fold_fault_at(given, plan@, snapshot@, s),
            start == first_saved_input(given, s),
            current.deep_view() == (if i == 0 {
                None
            } else {
                Some(folded(given, s, start, i as int))
            }),
            folded(given, s, start, i as int).applications.len() == i,
            crate::data::first_index_fault(0, n, f) == crate::data::first_index_fault(
                i as int,
                n,
                f,
            ),
        decreases applications.len() - i,
    {
        let application = &applications[i];
        assert(s[i as int] == application@);
        let record = read_one(records, &application.result_ref)?;
        let value = HookApplicationRecord::restore(
            record,
            plan,
            application,
            &snapshot.scope,
            &snapshot.run_id,
        )?;
        let none: Vec<HookApplication> = Vec::new();
        assert(none.deep_view() =~= Seq::<HookApplicationView>::empty());
        let at = match current {
            Some(at) => at,
            None => HookProgress { input: value.input.copy(), deny: None, applications: none },
        };
        assert(at@ == folded(given, s, start, i as int));
        if at.deny.is_some() {
            return fail(ErrorCode::InvalidSnapshot, "hooks.denied_chain");
        }
        current = Some(advance(at, value, application.copy())?);
        i = i + 1;
    }
    Ok(current)
}

/// Reports of a hook about a target.
pub open spec fn reports(
    hook: PlannedHookView,
    target: HookTargetView,
) -> spec_fn(HookObservationView) -> bool {
    |report: HookObservationView|
        report.hook == hook.definition.hook && report.selection == hook.selection
            && report.definition_digest == definition_digest(hook.definition) && report.target
            == target
}

/// Whether a hook has reported about a target before; it is not called again then.
pub fn is_reported(prior: &Vec<HookObservation>, hook: &PlannedHook, target: &HookTarget) -> (r: bool)
    ensures
        r == some_in(prior.deep_view(), reports(hook@, target@)),
{
    let digest = hook.definition.digest();
    let same = |report: &HookObservation| -> (b: bool)
        ensures
            b == reports(hook@, target@)(report@),
    {
        report.hook.same(&hook.definition.hook) && report.selection.same(&hook.selection)
            && report.definition_digest.same(&digest) && report.target.same(target)
    };
    any(prior, same, Ghost(reports(hook@, target@)))
}

/// How calling an observer went.
#[derive(Debug)]
pub enum ObserverResult {
    Called {
        callback: CallbackResult,
    },
    NotCalled {
        error: ContractError,
    },
}

#[verifier::ext_equal]
pub enum ObserverResultView {
    Called {
        callback: CallbackResultView,
    },
    NotCalled {
        error: Fault,
    },
}

impl View for ObserverResult {
    type V = ObserverResultView;

    open spec fn view(&self) -> ObserverResultView {
        match self {
            ObserverResult::Called { callback } => ObserverResultView::Called { callback: callback.deep_view() },
            ObserverResult::NotCalled { error } => ObserverResultView::NotCalled { error: error.deep_view() },
        }
    }
}

impl DeepView for ObserverResult {
    type V = ObserverResultView;

    open spec fn deep_view(&self) -> ObserverResultView {
        self@
    }
}

impl Data for ObserverResult {
    fn same(&self, other: &Self) -> (r: bool) {
        match (self, other) {
            (ObserverResult::Called { callback: callback1 }, ObserverResult::Called { callback: callback2 }) => callback1.same(callback2),
            (ObserverResult::NotCalled { error: error1 }, ObserverResult::NotCalled { error: error2 }) => error1.same(error2),
            _ => false,
        }
    }

    fn copy(&self) -> (r: Self) {
        match self {
            ObserverResult::Called { callback } => ObserverResult::Called { callback: callback.copy() },
            ObserverResult::NotCalled { error } => ObserverResult::NotCalled { error: error.copy() },
        }
    }
}


/// How an observation is reported. Whatever goes wrong is a failure of the observation alone.
pub open spec fn observation_status_of(
    definition: HookDefinitionView,
    input: HookInputView,
    result: ObserverResultView,
) -> HookObservationStatusView {
    match result {
        ObserverResultView::NotCalled { error } => HookObservationStatusView::Failed {
            code: error.code.name(),
        },
        ObserverResultView::Called { callback } => match callback {
            CallbackResultView::Failed { code } => HookObservationStatusView::Failed { code },
            CallbackResultView::Output { output, checks } => match output_fault(
                definition,
                input,
                output,
                checks,
            ) {
                None => HookObservationStatusView::Completed,
                Some(error) => HookObservationStatusView::Failed { code: error.code.name() },
            },
        },
    }
}

/// Report about an observation.
pub fn observation(
    runtime: &HookRuntime,
    run_id: &Id,
    hook: &PlannedHook,
    target: &HookTarget,
    input: &HookInput,
    result: &ObserverResult,
    now_ms: i64,
) -> (r: HookObservation)
    ensures
        r@ == (HookObservationView {
            scope: runtime@.registry.scope,
            run_id: run_id@,
            hook: hook@.definition.hook,
            selection: hook@.selection,
            definition_digest: definition_digest(hook@.definition),
            target: target@,
            input_digest: hook_input_digest(input@),
            timestamp_ms: now_ms,
            status: observation_status_of(hook@.definition, input@, result@),
        }),
{
    let status = match result {
        ObserverResult::NotCalled { error } => HookObservationStatus::Failed {
            code: code_id(error.code),
        },
        ObserverResult::Called { callback } => match callback {
            CallbackResult::Failed { code } => HookObservationStatus::Failed { code: code.copy() },
            CallbackResult::Output { output, checks } => match validate_output(
                &hook.definition,
                input,
                output,
                checks,
            ) {
                Ok(()) => HookObservationStatus::Completed,
                Err(error) => HookObservationStatus::Failed { code: code_id(error.code) },
            },
        },
    };
    HookObservation {
        scope: runtime.scope().copy(),
        run_id: run_id.copy(),
        hook: hook.definition.hook.copy(),
        selection: hook.selection.copy(),
        definition_digest: hook.definition.digest(),
        target: target.copy(),
        input_digest: input.digest(),
        timestamp_ms: now_ms,
        status,
    }
}

/// How long an observer of a tool result may take: until the deadline of the run, and not at all
/// after it.
pub fn remaining_ms(deadline_at_ms: i64, now_ms: i64) -> (r: u64)
    ensures
        r == (if deadline_at_ms <= now_ms {
            0
        } else if deadline_at_ms - now_ms > i64::MAX {
            i64::MAX as int
        } else {
            deadline_at_ms - now_ms
        }),
{
    if deadline_at_ms <= now_ms {
        return 0;
    }
    match deadline_at_ms.checked_sub(now_ms) {
        Some(left) => left as u64,
        None => i64::MAX as u64,
    }
}

/// A hook is called at most once at a target: where an application is saved, the chain reuses it.
pub proof fn law_saved_applications_are_not_repeated(
    progress: HookProgressView,
    hooks: Seq<PlannedHookView>,
    snapshot: RunSnapshotView,
    target: HookTargetView,
)
    requires
        progress.applications.len() < hooks.len(),
        some_in(
            snapshot.hook_applications,
            applies(target, hooks[progress.applications.len() as int]),
        ),
    ensures
        !(step_of(progress, hooks, snapshot, target) is Invoke),
{
    lemma_first_in(
        snapshot.hook_applications,
        applies(target, hooks[progress.applications.len() as int]),
    );
}

/// A denial ends a chain: no hook is called after it.
pub proof fn law_denial_ends_the_chain(
    progress: HookProgressView,
    hooks: Seq<PlannedHookView>,
    snapshot: RunSnapshotView,
    target: HookTargetView,
)
    requires
        progress.deny is Some,
    ensures
        step_of(progress, hooks, snapshot, target) is Finish,
{
}

/// A saved application is found again by the chain that saved it.
pub proof fn law_saved_application_is_found(
    snapshot: RunSnapshotView,
    invocation: InvocationView,
    elapsed_ms: u64,
    now_ms: i64,
)
    ensures
        some_in(
            saved_with(
                snapshot,
                application_of(invocation),
                elapsed_ms,
                now_ms,
            ).hook_applications,
            applies(invocation.target, invocation.hook),
        ),
{
    let applications = saved_with(
        snapshot,
        application_of(invocation),
        elapsed_ms,
        now_ms,
    ).hook_applications;
    let last = applications.len() - 1;
    assert(applies(invocation.target, invocation.hook)(applications[last]));
}

/// A chain takes its hooks in their order: the next one is the one behind those that were applied,
/// and it is called exactly where no application of it at this target is saved. The chain is over
/// once all were applied.
pub proof fn law_hooks_are_called_in_their_order(
    progress: HookProgressView,
    hooks: Seq<PlannedHookView>,
    snapshot: RunSnapshotView,
    target: HookTargetView,
)
    ensures
        ({
            let i = progress.applications.len() as int;
            let step = step_of(progress, hooks, snapshot, target);
            &&& step is Finish <==> progress.deny is Some || i >= hooks.len()
            &&& step matches HookStepView::Invoke { hook } ==> hook == hooks[i]
            &&& step matches HookStepView::Reuse { application } ==> {
                &&& application.target == target
                &&& application.hook == hooks[i].definition.hook
                &&& application.selection == hooks[i].selection
                &&& snapshot.hook_applications.contains(application)
            }
            &&& progress.deny is None && i < hooks.len() ==> (step is Invoke <==> forall|k: int|
                0 <= k < snapshot.hook_applications.len() ==> (
                #[trigger] snapshot.hook_applications[k]).target != target
                    || snapshot.hook_applications[k].hook != hooks[i].definition.hook
                    || snapshot.hook_applications[k].selection != hooks[i].selection)
        }),
{
    let i = progress.applications.len() as int;
    let p = applies(target, hooks[i]);
    lemma_first_in(snapshot.hook_applications, p);
    if some_in(snapshot.hook_applications, p) {
        let k = choose|k: int|
            0 <= k < snapshot.hook_applications.len() && p(#[trigger] snapshot.hook_applications[k]);
        assert(snapshot.hook_applications[k].target == target);
    } else {
        assert forall|k: int| 0 <= k < snapshot.hook_applications.len() implies (
        #[trigger] snapshot.hook_applications[k]).target != target
            || snapshot.hook_applications[k].hook != hooks[i].definition.hook
            || snapshot.hook_applications[k].selection != hooks[i].selection by {
            assert(!p(snapshot.hook_applications[k]));
        }
    }
}

/// A hook that fails ends its chain, unless it is an optional one before the run: then the failure is
/// kept and nothing is added.
pub proof fn law_only_optional_hooks_may_fail(
    definition: HookDefinitionView,
    target: HookTargetView,
    input: HookInputView,
    code: Seq<char>,
)
    ensures
        ({
            let failed = CallbackResultView::Failed { code };
            &&& callback_fault(definition, target, input, failed) is None <==> target is BeforeRun
                && !definition.required
            &&& kept_of(input, failed).output is None
            &&& kept_of(input, failed).failure == Some(code)
        }),
{
}

/// A passed deadline, an error and a panic are failures of the hook alone; a cancellation and a stop
/// of the run end the whole chain.
pub proof fn law_callbacks_fail_for_themselves(race: CallbackRaceView)
    ensures
        race_fault(race) is Some <==> race is Cancelled || race is Stopped,
        race is DeadlinePassed || race is Panicked || race is Reported ==> race_result(race)
            is Failed,
        race matches CallbackRaceView::Returned { output, checks } ==> race_result(race) == (
        CallbackResultView::Output { output, checks }),
        race matches CallbackRaceView::Reported { error } ==> race_result(race)->Failed_code
            == error.code.name(),
        race is DeadlinePassed ==> race_result(race)->Failed_code
            == ErrorCode::DeadlineExceeded.name(),
        race is Cancelled ==> race_fault(race)->Some_0.code == ErrorCode::Cancelled,
        race matches CallbackRaceView::Stopped { error } ==> race_fault(race) == Some(error),
{
}

/// Hooks that transform run before something happens; what happened already is only observed.
pub proof fn law_what_happened_is_only_observed(target: HookTargetView)
    ensures
        observes(target) <==> !(target is BeforeRun) && !(target is BeforeModel) && !(
        target is BeforeTool),
{
}

/// A chain carries on with what its applications left: the input that the last one gave, its denial,
/// and one application more.
pub proof fn law_chains_advance_by_one(
    progress: HookProgressView,
    record: HookApplicationRecordView,
    application: HookApplicationView,
)
    ensures
        ({
            let next = advanced(progress, record, application);
            &&& next.applications == progress.applications.push(application)
            &&& record.output is None ==> next.input == progress.input && next.deny is None
            &&& record.output matches Some(HookOutputView::Tool { deny, model_inputs, .. }) ==> {
                &&& next.deny == deny
                &&& progress.input is BeforeTool ==> next.input is BeforeTool
                    && next.input->BeforeTool_model_inputs == model_inputs
                    && next.input->BeforeTool_original_model_inputs
                    == progress.input->BeforeTool_original_model_inputs
            }
            &&& record.output matches Some(HookOutputView::Context { .. }) ==> next.deny is None
            &&& record.output is Some && record.output->Some_0 is Context
                && progress.input is BeforeRun ==> next.input is BeforeRun
                && next.input->BeforeRun_context_items == progress.input->BeforeRun_context_items
                + record.context_items && next.input->BeforeRun_user_input
                == progress.input->BeforeRun_user_input
            &&& record.output is Some && record.output->Some_0 is Context
                && progress.input is BeforeModel ==> next.input is BeforeModel
                && next.input->BeforeModel_context_items
                == progress.input->BeforeModel_context_items + record.context_items
        }),
{
}

/// Hooks are called only in the scope that they are registered for. They transform before a run, a model
/// step or a tool call, and observe after a tool call or a run.
pub proof fn law_hooks_stay_in_their_scope(
    registry: HookRegistryView,
    context_scope: ScopeView,
    scope: ScopeView,
    target: HookTargetView,
)
    ensures
        transform_entry_fault(registry, context_scope, scope, target, None) is None
            <==> registry.scope == scope && context_scope == scope && (target is BeforeRun || target
            is BeforeModel || target is BeforeTool),
        observe_entry_fault(registry, context_scope, target, None) is None <==> context_scope
            == registry.scope && (target is AfterTool || target is AfterRun),
{
}

/// A planned hook is served just by a handler of the same hook, selected in the same way, with the very
/// definition that was planned.
pub proof fn law_handlers_serve_what_was_planned(registry: HookRegistryView, hook: PlannedHookView)
    requires
        handler_fault(registry, hook) is None,
    ensures
        exists|i: int|
            0 <= i < registry.handlers.len() && (#[trigger] registry.handlers[i]).definition
                == hook.definition && registry.handlers[i].selection == hook.selection,
{
    crate::data::lemma_first_in(registry.handlers, handles(hook));
    let entry = first_in(registry.handlers, handles(hook))->Some_0;
    let i = choose|i: int| 0 <= i < registry.handlers.len() && registry.handlers[i] == entry;
    assert(handles(hook)(registry.handlers[i]));
}

} // verus!
