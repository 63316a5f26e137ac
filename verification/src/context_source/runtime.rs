//! Decisions of collecting context from sources, and of using what was collected.
use vstd::prelude::*;

use crate::content::{Message, MessageOrigin};
#[allow(unused_imports)]
use crate::content::MessageView;
use crate::context::{
    ContextItem, ContextLineage, ContextSourceRef, ContextTrigger, PlannedContextSource,
    SourceExecutionState,
};
#[allow(unused_imports)]
use crate::context::{
    ContextItemView, ContextSourceRefView, PlannedContextSourceView, SourceExecutionStateView,
};
use crate::context_source::records::{
    estimated, ContextBatch, ContextRequest, ContextResult, ContextSourcePlan,
    ContextSourceRegistry, Estimate, ItemRevision,
};
#[allow(unused_imports)]
use crate::context_source::records::{
    batch_in, batch_reference, batch_restore_fault, estimate_fault, plan_restore_fault,
    planned_for, planning_fault, selected_by, ContextBatchView, ContextRequestView,
    ContextResultView, ContextSourcePlanView, ContextSourceRegistryView, ItemRevisionView,
};
#[allow(unused_imports)]
use crate::context_strategy::groups::visible;
use crate::context_strategy::groups::is_visible;
use crate::data::{any, check_each, contains, count, find, keep, map_each, position, Data};
#[allow(unused_imports)]
use crate::data::{
    count_in, first_fault, first_in, kept, lemma_first_fault, lemma_first_in, lemma_kept,
    position_in, some_in,
};
use crate::error::{fail, ContractError, ErrorCode};
#[allow(unused_imports)]
use crate::error::{failure, fault, or_else, Fault};
use crate::model::ResolvedModelRoute;
#[allow(unused_imports)]
use crate::model::ResolvedModelRouteView;
use crate::profile::AgentProfile;
use crate::refs::{RecordRef, Scope, VersionedRef};
#[allow(unused_imports)]
use crate::refs::{RecordRefView, ScopeView, VersionedRefView};
use crate::run::RunSnapshot;
#[allow(unused_imports)]
use crate::run::{BudgetUsageView, RunSnapshotView, RunTimingView};
use crate::serialization::{canonical_json, Id};
#[allow(unused_imports)]
use crate::serialization::canonical_text;
use crate::state::records::{ProtectedRecord, Recorded};
#[allow(unused_imports)]
use crate::state::records::ProtectedRecordView;
#[allow(unused_imports)]
use crate::text::white_space;

verus! {

/// Collects context under one scope.
#[derive(Debug)]
pub struct ContextSourceRuntime {
    pub registry: ContextSourceRegistry,
    /// The estimator version, captured once.
    pub estimator_version: VersionedRef,
    pub binding_set_id: Option<Id>,
}

#[verifier::ext_equal]
pub struct ContextSourceRuntimeView {
    pub registry: ContextSourceRegistryView,
    pub estimator_version: VersionedRefView,
    pub binding_set_id: Option<Seq<char>>,
}

impl View for ContextSourceRuntime {
    type V = ContextSourceRuntimeView;

    open spec fn view(&self) -> ContextSourceRuntimeView {
        ContextSourceRuntimeView {
            registry: self.registry.deep_view(),
            estimator_version: self.estimator_version.deep_view(),
            binding_set_id: self.binding_set_id.deep_view(),
        }
    }
}

impl DeepView for ContextSourceRuntime {
    type V = ContextSourceRuntimeView;

    open spec fn deep_view(&self) -> ContextSourceRuntimeView {
        self@
    }
}

impl Data for ContextSourceRuntime {
    fn same(&self, other: &Self) -> (r: bool) {
        self.registry.same(&other.registry)
            && self.estimator_version.same(&other.estimator_version)
            && self.binding_set_id.same(&other.binding_set_id)
    }

    fn copy(&self) -> (r: Self) {
        ContextSourceRuntime {
            registry: self.registry.copy(),
            estimator_version: self.estimator_version.copy(),
            binding_set_id: self.binding_set_id.copy(),
        }
    }
}

/// What is done about one planned source.
#[derive(Debug)]
pub enum SourceStep {
    /// Take over the batch of a slot that was filled before.
    Reuse {
        state: SourceExecutionState,
    },
    /// Ask the source.
    Query,
}

#[verifier::ext_equal]
pub enum SourceStepView {
    Reuse {
        state: SourceExecutionStateView,
    },
    Query,
}

impl View for SourceStep {
    type V = SourceStepView;

    open spec fn view(&self) -> SourceStepView {
        match self {
            SourceStep::Reuse { state } => SourceStepView::Reuse { state: state.deep_view() },
            SourceStep::Query => SourceStepView::Query,
        }
    }
}

impl DeepView for SourceStep {
    type V = SourceStepView;

    open spec fn deep_view(&self) -> SourceStepView {
        self@
    }
}

impl Data for SourceStep {
    fn same(&self, other: &Self) -> (r: bool) {
        match (self, other) {
            (SourceStep::Reuse { state: state1 }, SourceStep::Reuse { state: state2 }) => state1.same(state2),
            (SourceStep::Query, SourceStep::Query) => true,
            _ => false,
        }
    }

    fn copy(&self) -> (r: Self) {
        match self {
            SourceStep::Reuse { state } => SourceStep::Reuse { state: state.copy() },
            SourceStep::Query => SourceStep::Query,
        }
    }
}

/// How asking a source ended.
#[derive(Debug)]
pub enum ProvideRace {
    Cancelled,
    Stopped {
        error: ContractError,
    },
    DeadlinePassed,
    Returned {
        result: ContextResult,
    },
    Reported {
        code: ErrorCode,
    },
    Panicked,
}

#[verifier::ext_equal]
pub enum ProvideRaceView {
    Cancelled,
    Stopped {
        error: Fault,
    },
    DeadlinePassed,
    Returned {
        result: ContextResultView,
    },
    Reported {
        code: ErrorCode,
    },
    Panicked,
}

impl View for ProvideRace {
    type V = ProvideRaceView;

    open spec fn view(&self) -> ProvideRaceView {
        match self {
            ProvideRace::Cancelled => ProvideRaceView::Cancelled,
            ProvideRace::Stopped { error } => ProvideRaceView::Stopped { error: error.deep_view() },
            ProvideRace::DeadlinePassed => ProvideRaceView::DeadlinePassed,
            ProvideRace::Returned { result } => ProvideRaceView::Returned { result: result.deep_view() },
            ProvideRace::Reported { code } => ProvideRaceView::Reported { code: code.deep_view() },
            ProvideRace::Panicked => ProvideRaceView::Panicked,
        }
    }
}

impl DeepView for ProvideRace {
    type V = ProvideRaceView;

    open spec fn deep_view(&self) -> ProvideRaceView {
        self@
    }
}

impl Data for ProvideRace {
    fn same(&self, other: &Self) -> (r: bool) {
        match (self, other) {
            (ProvideRace::Cancelled, ProvideRace::Cancelled) => true,
            (ProvideRace::Stopped { error: error1 }, ProvideRace::Stopped { error: error2 }) => error1.same(error2),
            (ProvideRace::DeadlinePassed, ProvideRace::DeadlinePassed) => true,
            (ProvideRace::Returned { result: result1 }, ProvideRace::Returned { result: result2 }) => result1.same(result2),
            (ProvideRace::Reported { code: code1 }, ProvideRace::Reported { code: code2 }) => code1.same(code2),
            (ProvideRace::Panicked, ProvideRace::Panicked) => true,
            _ => false,
        }
    }

    fn copy(&self) -> (r: Self) {
        match self {
            ProvideRace::Cancelled => ProvideRace::Cancelled,
            ProvideRace::Stopped { error } => ProvideRace::Stopped { error: error.copy() },
            ProvideRace::DeadlinePassed => ProvideRace::DeadlinePassed,
            ProvideRace::Returned { result } => ProvideRace::Returned { result: result.copy() },
            ProvideRace::Reported { code } => ProvideRace::Reported { code: code.copy() },
            ProvideRace::Panicked => ProvideRace::Panicked,
        }
    }
}

/// What a policy decided.
#[derive(Debug, Clone, Copy, PartialEq, Eq, Structural)]
pub enum PolicyVerdict {
    Allow,
    Deny,
    RequireApproval,
}

impl View for PolicyVerdict {
    type V = PolicyVerdict;

    open spec fn view(&self) -> PolicyVerdict {
        *self
    }
}

impl DeepView for PolicyVerdict {
    type V = PolicyVerdict;

    open spec fn deep_view(&self) -> PolicyVerdict {
        *self
    }
}

impl Data for PolicyVerdict {
    fn same(&self, other: &Self) -> (r: bool) {
        *self == *other
    }

    fn copy(&self) -> (r: Self) {
        *self
    }
}

/// What selecting among the fragments of a batch gave.
#[derive(Debug)]
pub enum FragmentSelection {
    Selected {
        items: Vec<ContextItem>,
    },
    Refused {
        error: ContractError,
    },
}

#[verifier::ext_equal]
pub enum FragmentSelectionView {
    Selected {
        items: Seq<ContextItemView>,
    },
    Refused {
        error: Fault,
    },
}

impl View for FragmentSelection {
    type V = FragmentSelectionView;

    open spec fn view(&self) -> FragmentSelectionView {
        match self {
            FragmentSelection::Selected { items } => FragmentSelectionView::Selected { items: items.deep_view() },
            FragmentSelection::Refused { error } => FragmentSelectionView::Refused { error: error.deep_view() },
        }
    }
}

impl DeepView for FragmentSelection {
    type V = FragmentSelectionView;

    open spec fn deep_view(&self) -> FragmentSelectionView {
        self@
    }
}

impl Data for FragmentSelection {
    fn same(&self, other: &Self) -> (r: bool) {
        match (self, other) {
            (FragmentSelection::Selected { items: items1 }, FragmentSelection::Selected { items: items2 }) => items1.same(items2),
            (FragmentSelection::Refused { error: error1 }, FragmentSelection::Refused { error: error2 }) => error1.same(error2),
            _ => false,
        }
    }

    fn copy(&self) -> (r: Self) {
        match self {
            FragmentSelection::Selected { items } => FragmentSelection::Selected { items: items.copy() },
            FragmentSelection::Refused { error } => FragmentSelection::Refused { error: error.copy() },
        }
    }
}

/// What a provider is asked before its items are used.
#[derive(Debug)]
pub struct ContextUseRequest {
    pub consumer_run_id: Id,
    /// The items reach the consumer through an earlier conversation.
    pub derived: bool,
    pub item_revisions: Vec<ItemRevision>,
    pub batch_ref: RecordRef,
    pub request: ContextRequest,
    pub items: Vec<ContextItem>,
    pub source_revision: Option<Id>,
    pub route: Option<ResolvedModelRoute>,
}

#[verifier::ext_equal]
pub struct ContextUseRequestView {
    pub consumer_run_id: Seq<char>,
    pub derived: bool,
    pub item_revisions: Seq<ItemRevisionView>,
    pub batch_ref: RecordRefView,
    pub request: ContextRequestView,
    pub items: Seq<ContextItemView>,
    pub source_revision: Option<Seq<char>>,
    pub route: Option<ResolvedModelRouteView>,
}

impl View for ContextUseRequest {
    type V = ContextUseRequestView;

    open spec fn view(&self) -> ContextUseRequestView {
        ContextUseRequestView {
            consumer_run_id: self.consumer_run_id.deep_view(),
            derived: self.derived.deep_view(),
            item_revisions: self.item_revisions.deep_view(),
            batch_ref: self.batch_ref.deep_view(),
            request: self.request.deep_view(),
            items: self.items.deep_view(),
            source_revision: self.source_revision.deep_view(),
            route: self.route.deep_view(),
        }
    }
}

impl DeepView for ContextUseRequest {
    type V = ContextUseRequestView;

    open spec fn deep_view(&self) -> ContextUseRequestView {
        self@
    }
}

impl Data for ContextUseRequest {
    fn same(&self, other: &Self) -> (r: bool) {
        self.consumer_run_id.same(&other.consumer_run_id)
            && self.derived.same(&other.derived)
            && self.item_revisions.same(&other.item_revisions)
            && self.batch_ref.same(&other.batch_ref)
            && self.request.same(&other.request)
            && self.items.same(&other.items)
            && self.source_revision.same(&other.source_revision)
            && self.route.same(&other.route)
    }

    fn copy(&self) -> (r: Self) {
        ContextUseRequest {
            consumer_run_id: self.consumer_run_id.copy(),
            derived: self.derived.copy(),
            item_revisions: self.item_revisions.copy(),
            batch_ref: self.batch_ref.copy(),
            request: self.request.copy(),
            items: self.items.copy(),
            source_revision: self.source_revision.copy(),
            route: self.route.copy(),
        }
    }
}


impl ContextSourceRuntime {
    /// Capture the estimator version once; no provider callback is invoked. There is none if the
    /// estimator failed to tell it.
    pub fn new(registry: ContextSourceRegistry, estimator_version: Option<VersionedRef>) -> (r: Result<
        Self,
        ContractError,
    >)
        ensures
            failure(r) == (if estimator_version is None {
                fault(ErrorCode::InvalidContract, "context_source.estimator_version")
            } else {
                None
            }),
            r matches Ok(runtime) ==> runtime@ == (ContextSourceRuntimeView {
                registry: registry@,
                estimator_version: estimator_version->0@,
                binding_set_id: None,
            }),
    {
        match estimator_version {
            Some(estimator_version) => Ok(
                ContextSourceRuntime { registry, estimator_version, binding_set_id: None },
            ),
            None => fail(ErrorCode::InvalidContract, "context_source.estimator_version"),
        }
    }

    /// Pin the current scoped adapter segment for provider wrappers.
    pub fn with_binding_set_id(self, id: Id) -> (r: Self)
        ensures
            r@ == (ContextSourceRuntimeView { binding_set_id: Some(id@), ..self@ }),
    {
        ContextSourceRuntime {
            registry: self.registry,
            estimator_version: self.estimator_version,
            binding_set_id: Some(id),
        }
    }

    /// Exact registered namespace.
    pub fn scope(&self) -> (r: &Scope)
        ensures
            r@ == self@.registry.scope,
    {
        self.registry.scope()
    }

    /// Pure metadata plan using the previously cached estimator version.
    pub fn plan(&self, profile: &AgentProfile) -> (r: Result<ContextSourcePlan, ContractError>)
        ensures
            failure(r) == planning_fault(self@.registry, profile@, self@.estimator_version),
            r matches Ok(plan) ==> plan@ == planned_for(
                self@.registry,
                profile@,
                self@.estimator_version,
            ),
    {
        self.registry.plan(profile, &self.estimator_version)
    }

    /// Which record holds the plan of a run.
    pub fn plan_reference(&self, snapshot: &RunSnapshot) -> (r: Result<RecordRef, ContractError>)
        ensures
            failure(r) == plan_reference_fault(self@, snapshot@),
            r matches Ok(reference) ==> snapshot@.source_plan_ref == Some(reference@),
    {
        if !snapshot.scope.same(self.scope()) {
            return fail(ErrorCode::AccessDenied, "context_source.scope");
        }
        match &snapshot.source_plan_ref {
            Some(reference) => Ok(reference.copy()),
            None => fail(ErrorCode::InvalidSnapshot, "context_source.plan_missing"),
        }
    }

    /// Restore the plan that a run was started with; it is still the one that its profile selects.
    pub fn pinned_plan(&self, snapshot: &RunSnapshot, record: &ProtectedRecord) -> (r: Result<
        ContextSourcePlan,
        ContractError,
    >)
        ensures
            failure(r) == pinned_plan_fault(self@, snapshot@, record@),
            r matches Ok(plan) ==> plan@ == planned_for(
                self@.registry,
                snapshot@.profile.profile,
                self@.estimator_version,
            ),
    {
        let reference = self.plan_reference(snapshot)?;
        if !record.reference().same(&reference) {
            return fail(ErrorCode::InvalidSnapshot, "context_source.plan_record");
        }
        let decoded = ContextSourcePlan::read(record.content());
        let json = canonical_json(record.value());
        let plan = ContextSourcePlan::restore(
            json.as_str(),
            decoded,
            self.scope(),
            &reference.digest,
        )?;
        let expected = self.plan(snapshot.profile.profile())?;
        if !plan.same(&expected) {
            return fail(ErrorCode::ProfileMismatch, "context_source.plan");
        }
        Ok(expected)
    }

    /// Check that a caller works in the registered namespace.
    pub fn check_scope(&self, context_scope: &Scope) -> (r: Result<(), ContractError>)
        ensures
            failure(r) == context_scope_fault(self@, context_scope@),
    {
        if !context_scope.same(self.scope()) {
            return fail(ErrorCode::AccessDenied, "context_source.scope");
        }
        Ok(())
    }

    /// Check that a collection may begin.
    pub fn check_collect(
        &self,
        context_scope: &Scope,
        budget_scope: &Scope,
        trigger: ContextTrigger,
        step: &Option<Id>,
    ) -> (r: Result<(), ContractError>)
        ensures
            failure(r) == or_else(
                context_scope_fault(self@, context_scope@),
                if budget_scope@ != self@.registry.scope || (trigger == ContextTrigger::BeforeModel)
                    != (step is Some) {
                    fault(ErrorCode::InvalidContract, "context_source.trigger")
                } else {
                    None
                },
            ),
    {
        self.check_scope(context_scope)?;
        if !budget_scope.same(self.scope()) || (trigger == ContextTrigger::BeforeModel)
            != step.is_some() {
            return fail(ErrorCode::InvalidContract, "context_source.trigger");
        }
        Ok(())
    }

    /// Check that a source still has a provider.
    pub fn check_provider(&self, source: &ContextSourceRef) -> (r: Result<(), ContractError>)
        ensures
            failure(r) == (if first_in(self@.registry.entries, selected_by(source@)) is None {
                fault(ErrorCode::ComponentUnavailable, "context_source.provider")
            } else {
                None
            }),
    {
        match self.registry.get(source) {
            Some(_) => Ok(()),
            None => fail(ErrorCode::ComponentUnavailable, "context_source.provider"),
        }
    }

    /// Check that the source of a historical batch is still the one that provided it.
    pub fn check_lineage_provider(&self, batch: &ContextBatch) -> (r: Result<(), ContractError>)
        ensures
            failure(r) == (if first_in(
                self@.registry.entries,
                selected_by(batch@.request.binding.source),
            ) matches Some(entry) && entry.definition == batch@.request.definition {
                None
            } else {
                fault(ErrorCode::ComponentUnavailable, "context_source.lineage_provider")
            }),
    {
        match self.registry.get(&batch.request().binding.source) {
            Some(entry) => {
                if entry.definition.same(&batch.request().definition) {
                    return Ok(());
                }
                fail(ErrorCode::ComponentUnavailable, "context_source.lineage_provider")
            },
            None => fail(ErrorCode::ComponentUnavailable, "context_source.lineage_provider"),
        }
    }
}

/// Why the plan of a run cannot be read yet.
pub open spec fn plan_reference_fault(
    runtime: ContextSourceRuntimeView,
    snapshot: RunSnapshotView,
) -> Option<Fault> {
    if snapshot.scope != runtime.registry.scope {
        fault(ErrorCode::AccessDenied, "context_source.scope")
    } else if snapshot.source_plan_ref is None {
        fault(ErrorCode::InvalidSnapshot, "context_source.plan_missing")
    } else {
        None
    }
}

/// Why a record does not hold the plan that a run was started with.
pub open spec fn pinned_plan_fault(
    runtime: ContextSourceRuntimeView,
    snapshot: RunSnapshotView,
    record: ProtectedRecordView,
) -> Option<Fault> {
    let decoded = ContextSourcePlan::reading(record.content);
    let digest = snapshot.source_plan_ref->0.digest;
    let restored = plan_restore_fault(
        canonical_text(record.value),
        decoded,
        runtime.registry.scope,
        digest,
    );
    let profile = snapshot.profile.profile;
    if plan_reference_fault(runtime, snapshot) is Some {
        plan_reference_fault(runtime, snapshot)
    } else if record.reference != snapshot.source_plan_ref->0 {
        fault(ErrorCode::InvalidSnapshot, "context_source.plan_record")
    } else if restored is Some {
        restored
    } else if planning_fault(runtime.registry, profile, runtime.estimator_version) is Some {
        planning_fault(runtime.registry, profile, runtime.estimator_version)
    } else if decoded->0 != planned_for(runtime.registry, profile, runtime.estimator_version) {
        fault(ErrorCode::ProfileMismatch, "context_source.plan")
    } else {
        None
    }
}

/// Why a caller does not work in the registered namespace.
pub open spec fn context_scope_fault(
    runtime: ContextSourceRuntimeView,
    context_scope: ScopeView,
) -> Option<Fault> {
    if context_scope != runtime.registry.scope {
        fault(ErrorCode::AccessDenied, "context_source.scope")
    } else {
        None
    }
}

/// Check that a collection before a model step is for the current step of a run.
pub fn check_step(snapshot: &RunSnapshot, step: &Option<Id>) -> (r: Result<(), ContractError>)
    ensures
        failure(r) == (if step.deep_view() is Some && snapshot@.model_step_id != step.deep_view() {
            fault(ErrorCode::InvalidSnapshot, "context_source.step")
        } else {
            None
        }),
{
    if step.is_some() && !snapshot.model_step_id.same(step) {
        return fail(ErrorCode::InvalidSnapshot, "context_source.step");
    }
    Ok(())
}

/// Planned sources of a trigger.
pub open spec fn has_trigger(trigger: ContextTrigger) -> spec_fn(PlannedContextSourceView) -> bool {
    |entry: PlannedContextSourceView| entry.binding.trigger == trigger
}

/// The sources that a trigger asks, in profile order.
pub fn triggered(plan: &ContextSourcePlan, trigger: ContextTrigger) -> (r: Vec<PlannedContextSource>)
    ensures
        r.deep_view() == kept(plan@.bindings, has_trigger(trigger)),
{
    let fires = |entry: &PlannedContextSource| -> (b: bool)
        ensures
            b == has_trigger(trigger)(entry@),
    { entry.binding.trigger == trigger };
    keep(plan.bindings(), fires, Ghost(has_trigger(trigger)))
}

/// States of a slot.
pub open spec fn fills_slot(
    entry: PlannedContextSourceView,
    trigger: ContextTrigger,
    step: Option<Seq<char>>,
) -> spec_fn(SourceExecutionStateView) -> bool {
    |state: SourceExecutionStateView|
        state.source == entry.binding.source && state.trigger == trigger && state.model_step_id
            == step
}

/// What is done about a planned source.
pub open spec fn source_step(
    snapshot: RunSnapshotView,
    entry: PlannedContextSourceView,
    trigger: ContextTrigger,
    step: Option<Seq<char>>,
) -> SourceStepView {
    match first_in(snapshot.source_states, fills_slot(entry, trigger, step)) {
        Some(state) => SourceStepView::Reuse { state },
        None => SourceStepView::Query,
    }
}

/// Decide what is done about a planned source: a filled slot is reused, and never asked again.
pub fn next_source(
    snapshot: &RunSnapshot,
    entry: &PlannedContextSource,
    trigger: ContextTrigger,
    step: &Option<Id>,
) -> (r: SourceStep)
    ensures
        r@ == source_step(snapshot@, entry@, trigger, step.deep_view()),
{
    let fills = |state: &SourceExecutionState| -> (b: bool)
        ensures
            b == fills_slot(entry@, trigger, step.deep_view())(state@),
    {
        state.source.same(&entry.binding.source) && state.trigger == trigger
            && state.model_step_id.same(step)
    };
    match find(
        &snapshot.source_states,
        fills,
        Ghost(fills_slot(entry@, trigger, step.deep_view())),
    ) {
        Some(state) => SourceStep::Reuse { state: state.copy() },
        None => SourceStep::Query,
    }
}

/// Why a required source has nothing to offer.
pub open spec fn required_fault(batch: ContextBatchView) -> Option<Fault> {
    if batch.request.binding.required && batch.result is Unavailable {
        fault(ErrorCode::ContextSourceUnavailable, "context_source.required")
    } else {
        None
    }
}

/// Check that a required source has something to offer.
pub fn required_available(batch: &ContextBatch) -> (r: Result<(), ContractError>)
    ensures
        failure(r) == required_fault(batch@),
{
    let is_unavailable = match batch.result() {
        ContextResult::Unavailable { .. } => true,
        _ => false,
    };
    if batch.request().binding.required && is_unavailable {
        return fail(ErrorCode::ContextSourceUnavailable, "context_source.required");
    }
    Ok(())
}

/// Why the batch of a filled slot cannot be taken over.
pub open spec fn reuse_fault(
    record: ProtectedRecordView,
    plan: ContextSourcePlanView,
    scope: ScopeView,
    run_id: Seq<char>,
    request: ContextRequestView,
    state: SourceExecutionStateView,
) -> Option<Fault> {
    let batch = batch_in(record)->0;
    or_else(
        batch_restore_fault(record, plan, scope, run_id),
        if batch.request != request || state.context_request_id != request.context_request_id {
            fault(ErrorCode::InvalidSnapshot, "context_source.saved_query")
        } else {
            required_fault(batch)
        },
    )
}

/// Take over the batch of a filled slot; it answers exactly the query that would be asked.
pub fn reuse_batch(
    record: &ProtectedRecord,
    plan: &ContextSourcePlan,
    scope: &Scope,
    run_id: &Id,
    request: &ContextRequest,
    state: &SourceExecutionState,
) -> (r: Result<ContextBatch, ContractError>)
    ensures
        failure(r) == reuse_fault(record@, plan@, scope@, run_id@, request@, state@),
        r matches Ok(batch) ==> batch_in(record@) == Some(batch@),
{
    let batch = ContextBatch::restore(record, plan, scope, run_id)?;
    if !batch.request().same(request) || !state.context_request_id.same(
        &request.context_request_id,
    ) {
        return fail(ErrorCode::InvalidSnapshot, "context_source.saved_query");
    }
    required_available(batch)?;
    Ok(batch.copy())
}

/// Why a batch speaks against asking a query: it cannot be read, or it has answered the query.
pub open spec fn answered_fault(
    plan: ContextSourcePlanView,
    scope: ScopeView,
    run_id: Seq<char>,
    request_id: Seq<char>,
) -> spec_fn(ProtectedRecordView) -> Option<Fault> {
    |record: ProtectedRecordView|
        if batch_restore_fault(record, plan, scope, run_id) is Some {
            batch_restore_fault(record, plan, scope, run_id)
        } else if batch_in(record)->0.request.context_request_id == request_id {
            fault(ErrorCode::InvalidSnapshot, "context_source.missing_slot")
        } else {
            None
        }
}

/// Read the batches of a run before a query is asked. A query that was answered before cannot be asked
/// again merely because its slot is gone.
pub fn read_history(
    records: &Vec<ProtectedRecord>,
    plan: &ContextSourcePlan,
    scope: &Scope,
    run_id: &Id,
    request_id: &Id,
) -> (r: Result<Vec<ContextBatch>, ContractError>)
    ensures
        failure(r) == first_fault(
            records.deep_view(),
            answered_fault(plan@, scope@, run_id@, request_id@),
        ),
        r matches Ok(batches) ==> batches.deep_view() == records.deep_view().map_values(
            |record: ProtectedRecordView| batch_in(record)->0,
        ),
{
    let ghost s = records.deep_view();
    let ghost f = answered_fault(plan@, scope@, run_id@, request_id@);
    let ghost g = |record: ProtectedRecordView| batch_in(record)->0;
    let mut out: Vec<ContextBatch> = Vec::new();
    let mut i: usize = 0;
    assert(s.skip(0) =~= s);
    while i < records.len()
        invariant
            i <= records.len(),
            s == records.deep_view(),
            f == answered_fault(plan@, scope@, run_id@, request_id@),
            g == (|record: ProtectedRecordView| batch_in(record)->0),
            out.deep_view() =~= s.take(i as int).map_values(g),
            first_fault(s, f) == first_fault(s.skip(i as int), f),
        decreases records.len() - i,
    {
        assert(s.skip(i as int)[0] == records@[i as int]@);
        assert(s.skip(i as int).skip(1) =~= s.skip(i + 1));
        let prior = ContextBatch::restore(&records[i], plan, scope, run_id)?;
        if prior.request().context_request_id.same(request_id) {
            return fail(ErrorCode::InvalidSnapshot, "context_source.missing_slot");
        }
        let ghost before = out.deep_view();
        out.push(prior.copy());
        assert(out.deep_view() =~= before.push(prior@));
        assert(s.take(i + 1).map_values(g) =~= s.take(i as int).map_values(g).push(g(s[i as int])));
        i = i + 1;
    }
    assert(s.take(i as int) =~= s);
    Ok(out)
}

/// A source that has nothing to offer, for a reason.
pub open spec fn unavailable_for(code: Seq<char>) -> ContextResultView {
    ContextResultView::Unavailable { code, source_revision: None, reported_usage: None }
}

/// Why asking a source ends the collection.
pub open spec fn provide_fault(race: ProvideRaceView) -> Option<Fault> {
    match race {
        ProvideRaceView::Cancelled => fault(ErrorCode::Cancelled, "context_source.provide"),
        ProvideRaceView::Stopped { error } => Some(error),
        ProvideRaceView::Reported { code } => if code == ErrorCode::ContextSourceUnavailable {
            None
        } else {
            fault(code, "context_source.provide")
        },
        ProvideRaceView::Panicked => fault(ErrorCode::InvalidContract, "context_source.provide"),
        _ => None,
    }
}

/// What a source gave back. A passed deadline and an unavailable source are results of their own.
pub open spec fn provided(race: ProvideRaceView) -> ContextResultView {
    match race {
        ProvideRaceView::Returned { result } => result,
        ProvideRaceView::DeadlinePassed => unavailable_for("deadline_exceeded"@),
        _ => unavailable_for("context_source_unavailable"@),
    }
}

/// Decide what asking a source came to.
pub fn settle_provided(race: ProvideRace) -> (r: Result<ContextResult, ContractError>)
    ensures
        failure(r) == provide_fault(race@),
        r matches Ok(result) ==> result@ == provided(race@),
{
    proof {
        reveal_strlit("deadline_exceeded");
        assert(!white_space("deadline_exceeded"@[0]));
        reveal_strlit("context_source_unavailable");
        assert(!white_space("context_source_unavailable"@[0]));
    }
    match race {
        ProvideRace::Cancelled => fail(ErrorCode::Cancelled, "context_source.provide"),
        ProvideRace::Stopped { error } => Err(error),
        ProvideRace::DeadlinePassed => Ok(
            ContextResult::Unavailable {
                code: Id::literal("deadline_exceeded"),
                source_revision: None,
                reported_usage: None,
            },
        ),
        ProvideRace::Returned { result } => Ok(result),
        ProvideRace::Reported { code } => {
            if code == ErrorCode::ContextSourceUnavailable {
                return Ok(
                    ContextResult::Unavailable {
                        code: Id::literal("context_source_unavailable"),
                        source_revision: None,
                        reported_usage: None,
                    },
                );
            }
            fail(code, "context_source.provide")
        },
        ProvideRace::Panicked => fail(ErrorCode::InvalidContract, "context_source.provide"),
    }
}

/// States of a query.
pub open spec fn of_query(request_id: Seq<char>) -> spec_fn(SourceExecutionStateView) -> bool {
    |state: SourceExecutionStateView| state.context_request_id == request_id
}

/// States of other slots.
pub open spec fn of_other_slot(
    source: ContextSourceRefView,
    trigger: ContextTrigger,
) -> spec_fn(SourceExecutionStateView) -> bool {
    |state: SourceExecutionStateView| state.source != source || state.trigger != trigger
}

/// Why a checkpoint cannot take a batch.
pub open spec fn saving_fault(snapshot: RunSnapshotView, batch: ContextBatchView) -> Option<Fault> {
    if some_in(snapshot.source_states, of_query(batch.request.context_request_id)) {
        fault(ErrorCode::RevisionConflict, "context_source.query")
    } else if snapshot.revision == u64::MAX {
        fault(ErrorCode::RevisionConflict, "context_source.revision")
    } else {
        None
    }
}

/// The state of a slot that a batch fills.
pub open spec fn slot_state(
    batch: ContextBatchView,
    entry: PlannedContextSourceView,
    trigger: ContextTrigger,
    step: Option<Seq<char>>,
) -> SourceExecutionStateView {
    SourceExecutionStateView {
        source: entry.binding.source,
        context_request_id: batch.request.context_request_id,
        trigger,
        model_step_id: step,
        batch_ref: batch_reference(batch),
    }
}

/// A checkpoint that took a batch: the batch is recorded, and replaces what its slot held.
pub open spec fn saved_with(
    snapshot: RunSnapshotView,
    batch: ContextBatchView,
    entry: PlannedContextSourceView,
    trigger: ContextTrigger,
    step: Option<Seq<char>>,
    elapsed_ms: u64,
    now_ms: i64,
) -> RunSnapshotView {
    RunSnapshotView {
        revision: (snapshot.revision + 1) as u64,
        usage: BudgetUsageView { elapsed_ms, ..snapshot.usage },
        timing: RunTimingView { last_observed_at_ms: now_ms, ..snapshot.timing },
        context_batches: snapshot.context_batches.push(batch_reference(batch)),
        source_states: kept(
            snapshot.source_states,
            of_other_slot(entry.binding.source, trigger),
        ).push(slot_state(batch, entry, trigger, step)),
        ..snapshot
    }
}

/// Put a batch into the next checkpoint of a run. Every reply, also an empty one, replaces what its
/// slot held.
pub fn save_batch(
    snapshot: RunSnapshot,
    batch: &ContextBatch,
    entry: &PlannedContextSource,
    trigger: ContextTrigger,
    step: &Option<Id>,
    elapsed_ms: u64,
    now_ms: i64,
) -> (r: Result<RunSnapshot, ContractError>)
    ensures
        failure(r) == saving_fault(snapshot@, batch@),
        r matches Ok(next) ==> next@ == saved_with(
            snapshot@,
            batch@,
            entry@,
            trigger,
            step.deep_view(),
            elapsed_ms,
            now_ms,
        ),
{
    let ghost before = snapshot@;
    let request_id = &batch.request().context_request_id;
    let asked = |state: &SourceExecutionState| -> (b: bool)
        ensures
            b == of_query(request_id@)(state@),
    { state.context_request_id.same(request_id) };
    if any(&snapshot.source_states, asked, Ghost(of_query(request_id@))) {
        return fail(ErrorCode::RevisionConflict, "context_source.query");
    }
    if snapshot.revision == u64::MAX {
        return fail(ErrorCode::RevisionConflict, "context_source.revision");
    }
    let source = &entry.binding.source;
    let elsewhere = |state: &SourceExecutionState| -> (b: bool)
        ensures
            b == of_other_slot(source@, trigger)(state@),
    { !state.source.same(source) || state.trigger != trigger };
    let mut source_states = keep(
        &snapshot.source_states,
        elsewhere,
        Ghost(of_other_slot(source@, trigger)),
    );
    let ghost others = source_states.deep_view();
    let state = SourceExecutionState {
        source: source.copy(),
        context_request_id: request_id.copy(),
        trigger,
        model_step_id: step.copy(),
        batch_ref: batch.reference(),
    };
    let ghost added = state@;
    source_states.push(state);
    assert(source_states.deep_view() =~= others.push(added));
    let mut next = snapshot;
    next.revision = next.revision + 1;
    next.usage.elapsed_ms = elapsed_ms;
    next.timing.last_observed_at_ms = now_ms;
    next.context_batches.push(batch.reference());
    assert(next.context_batches.deep_view() =~= before.context_batches.push(
        batch_reference(batch@),
    ));
    next.source_states = source_states;
    Ok(next)
}

/// States of slots that are in use: those filled at the start of the run, and those of the current
/// step.
pub open spec fn is_active(snapshot: RunSnapshotView) -> spec_fn(SourceExecutionStateView) -> bool {
    |state: SourceExecutionStateView|
        state.trigger == ContextTrigger::RunStart || state.model_step_id == snapshot.model_step_id
}

/// The batches that are in use.
pub open spec fn active_batches(snapshot: RunSnapshotView) -> Seq<RecordRefView> {
    kept(snapshot.source_states, is_active(snapshot)).map_values(
        |state: SourceExecutionStateView| state.batch_ref,
    )
}

/// The same reference.
pub open spec fn refers_to(reference: RecordRefView) -> spec_fn(RecordRefView) -> bool {
    |other: RecordRefView| other == reference
}

/// References that a list does not name exactly once.
pub open spec fn not_once_in(refs: Seq<RecordRefView>) -> spec_fn(RecordRefView) -> bool {
    |reference: RecordRefView| count_in(refs, refers_to(reference)) != 1
}

/// Why a list does not name exactly the batches in use.
pub open spec fn active_fault(snapshot: RunSnapshotView, refs: Seq<RecordRefView>) -> Option<Fault> {
    let active = active_batches(snapshot);
    if active.len() != refs.len() || some_in(active, not_once_in(refs)) {
        fault(ErrorCode::InvalidSnapshot, "context_source.active_refs")
    } else {
        None
    }
}

/// Check that a list names exactly the batches in use.
pub fn check_active(snapshot: &RunSnapshot, refs: &Vec<RecordRef>) -> (r: Result<(), ContractError>)
    ensures
        failure(r) == active_fault(snapshot@, refs.deep_view()),
{
    let used = |state: &SourceExecutionState| -> (b: bool)
        ensures
            b == is_active(snapshot@)(state@),
    {
        state.trigger == ContextTrigger::RunStart || state.model_step_id.same(
            &snapshot.model_step_id,
        )
    };
    let states = keep(&snapshot.source_states, used, Ghost(is_active(snapshot@)));
    let reference = |state: &SourceExecutionState| -> (r: RecordRef)
        ensures
            r@ == state@.batch_ref,
    { state.batch_ref.copy() };
    let active = map_each(
        &states,
        reference,
        Ghost(|state: SourceExecutionStateView| state.batch_ref),
    );
    let amiss = |reference: &RecordRef| -> (b: bool)
        ensures
            b == not_once_in(refs.deep_view())(reference@),
    { count_references(refs, reference) != 1 };
    assert(active.deep_view().len() == active.len());
    assert(refs.deep_view().len() == refs.len());
    if active.len() != refs.len() || any(&active, amiss, Ghost(not_once_in(refs.deep_view()))) {
        return fail(ErrorCode::InvalidSnapshot, "context_source.active_refs");
    }
    Ok(())
}

fn count_references(refs: &Vec<RecordRef>, reference: &RecordRef) -> (r: usize)
    ensures
        r == count_in(refs.deep_view(), refers_to(reference@)),
{
    let same = |other: &RecordRef| -> (b: bool)
        ensures
            b == refers_to(reference@)(other@),
    { other.same(reference) };
    count(refs, same, Ghost(refers_to(reference@)))
}

/// Why a batch does not belong to the current request and step of a run.
pub open spec fn batch_use_fault(
    batch: ContextBatchView,
    snapshot: RunSnapshotView,
) -> Option<Fault> {
    if batch.request.session_id != snapshot.request.session_id || batch.request.user_input
        != snapshot.request.input || (batch.request.model_step_id is Some
        && batch.request.model_step_id != snapshot.model_step_id) {
        fault(ErrorCode::InvalidSnapshot, "context_source.batch_use")
    } else {
        required_fault(batch)
    }
}

/// Check that a batch belongs to the current request and step of a run.
pub fn check_batch_use(batch: &ContextBatch, snapshot: &RunSnapshot) -> (r: Result<
    (),
    ContractError,
>)
    ensures
        failure(r) == batch_use_fault(batch@, snapshot@),
{
    let request = batch.request();
    if !request.session_id.same(&snapshot.request.session_id) || !request.user_input.same(
        &snapshot.request.input,
    ) || (request.model_step_id.is_some() && !request.model_step_id.same(
        &snapshot.model_step_id,
    )) {
        return fail(ErrorCode::InvalidSnapshot, "context_source.batch_use");
    }
    required_available(batch)
}

/// Where the batches that come after a batch begin, in the order in which a run committed them.
pub open spec fn later_start(batch: ContextBatchView, observed: RunSnapshotView) -> Option<int> {
    if observed.run_id == batch.request.run_id {
        match position_in(observed.context_batches, refers_to(batch_reference(batch))) {
            Some(i) => Some(i + 1),
            None => None,
        }
    } else {
        Some(0)
    }
}

/// A batch withdraws items that another one offered.
pub open spec fn withdraws(later: ContextBatchView, batch: ContextBatchView) -> bool {
    &&& later.request.binding.source == batch.request.binding.source
    &&& later.request.definition == batch.request.definition
    &&& later.result matches ContextResultView::Deleted { item_ids, .. }
    &&& some_in(batch.result.items(), among(item_ids))
}

/// Items of identifiers.
pub open spec fn among(item_ids: Seq<Seq<char>>) -> spec_fn(ContextItemView) -> bool {
    |item: ContextItemView| item_ids.contains(item.item_id)
}

/// Why a later batch speaks against using a batch.
pub open spec fn withdrawal_fault(
    batch: ContextBatchView,
    plan: ContextSourcePlanView,
    scope: ScopeView,
    run_id: Seq<char>,
) -> spec_fn(ProtectedRecordView) -> Option<Fault> {
    |record: ProtectedRecordView|
        if batch_restore_fault(record, plan, scope, run_id) is Some {
            batch_restore_fault(record, plan, scope, run_id)
        } else if withdraws(batch_in(record)->0, batch) {
            fault(ErrorCode::InvalidContext, "context_source.withdrawn_lineage")
        } else {
            None
        }
}

/// Why it cannot be told which batches come later.
pub open spec fn later_fault(batch: ContextBatchView, observed: RunSnapshotView) -> Option<Fault> {
    if batch.result.items().len() > 0 && later_start(batch, observed) is None {
        fault(ErrorCode::InvalidSnapshot, "context_source.deletion_order")
    } else {
        None
    }
}

/// The batches that come after a batch in a run.
pub open spec fn later_batches(batch: ContextBatchView, observed: RunSnapshotView) -> Seq<
    RecordRefView,
> {
    if batch.result.items().len() == 0 {
        Seq::empty()
    } else {
        observed.context_batches.skip(later_start(batch, observed)->0)
    }
}

/// List the batches that come after a batch in a run. Deletion goes by the order in which batches were
/// committed.
pub fn list_later(batch: &ContextBatch, observed: &RunSnapshot) -> (r: Result<
    Vec<RecordRef>,
    ContractError,
>)
    ensures
        failure(r) == later_fault(batch@, observed@),
        r matches Ok(refs) ==> refs.deep_view() == later_batches(batch@, observed@),
{
    let items = batch.result().items();
    assert(items.deep_view().len() == items.len());
    let mut later: Vec<RecordRef> = Vec::new();
    assert(later.deep_view() =~= Seq::<RecordRefView>::empty());
    if items.len() == 0 {
        return Ok(later);
    }
    let mut i: usize = 0;
    if observed.run_id.same(&batch.request().run_id) {
        let own = batch.reference();
        let same = |other: &RecordRef| -> (b: bool)
            ensures
                b == refers_to(own@)(other@),
        { other.same(&own) };
        match position(&observed.context_batches, same, Ghost(refers_to(own@))) {
            Some(at) => {
                i = at + 1;
            },
            None => {
                return fail(ErrorCode::InvalidSnapshot, "context_source.deletion_order");
            },
        }
    }
    let ghost from = i as int;
    let ghost s = observed.context_batches.deep_view();
    while i < observed.context_batches.len()
        invariant
            0 <= from <= i <= observed.context_batches.len(),
            s == observed.context_batches.deep_view(),
            later.deep_view() =~= s.subrange(from, i as int),
        decreases observed.context_batches.len() - i,
    {
        let ghost before = later.deep_view();
        later.push(observed.context_batches[i].copy());
        assert(later.deep_view() =~= before.push(s[i as int]));
        i = i + 1;
    }
    assert(s.subrange(from, i as int) =~= s.skip(from));
    Ok(later)
}

/// Check that no later batch withdraws what a batch offered. `later` holds the records of the batches
/// that come after it.
pub fn check_deletions(
    batch: &ContextBatch,
    later: &Vec<ProtectedRecord>,
    plan: &ContextSourcePlan,
    scope: &Scope,
    run_id: &Id,
) -> (r: Result<(), ContractError>)
    ensures
        failure(r) == first_fault(
            later.deep_view(),
            withdrawal_fault(batch@, plan@, scope@, run_id@),
        ),
{
    let check = |record: &ProtectedRecord| -> (r: Result<(), ContractError>)
        ensures
            failure(r) == withdrawal_fault(batch@, plan@, scope@, run_id@)(record@),
    { check_withdrawal(batch, record, plan, scope, run_id) };
    check_each(later, check, Ghost(withdrawal_fault(batch@, plan@, scope@, run_id@)))
}

fn check_withdrawal(
    batch: &ContextBatch,
    record: &ProtectedRecord,
    plan: &ContextSourcePlan,
    scope: &Scope,
    run_id: &Id,
) -> (r: Result<(), ContractError>)
    ensures
        failure(r) == withdrawal_fault(batch@, plan@, scope@, run_id@)(record@),
{
    let items = batch.result().items();
    let found = ContextBatch::restore(record, plan, scope, run_id)?;
    if found.request().binding.source.same(&batch.request().binding.source)
        && found.request().definition.same(&batch.request().definition) {
        if let ContextResult::Deleted { item_ids, .. } = found.result() {
            let named = |item: &ContextItem| -> (b: bool)
                ensures
                    b == among(item_ids.deep_view())(item@),
            { contains(item_ids, &item.item_id) };
            if any(&items, named, Ghost(among(item_ids.deep_view()))) {
                return fail(ErrorCode::InvalidContext, "context_source.withdrawn_lineage");
            }
        }
    }
    Ok(())
}

/// Take the decision of a policy about a source.
pub fn settle_policy(decision: PolicyVerdict) -> (r: Result<(), ContractError>)
    ensures
        failure(r) == (match decision {
            PolicyVerdict::Allow => None,
            PolicyVerdict::Deny => fault(ErrorCode::AccessDenied, "context_source.policy"),
            PolicyVerdict::RequireApproval => fault(
                ErrorCode::ContextApprovalRequired,
                "context_source.policy",
            ),
        }),
{
    match decision {
        PolicyVerdict::Allow => Ok(()),
        PolicyVerdict::Deny => fail(ErrorCode::AccessDenied, "context_source.policy"),
        PolicyVerdict::RequireApproval => fail(
            ErrorCode::ContextApprovalRequired,
            "context_source.policy",
        ),
    }
}

/// The revisions of the items that a result offers.
pub open spec fn revisions_of(result: ContextResultView) -> Seq<ItemRevisionView> {
    match result {
        ContextResultView::Ready { item_revisions, .. } => item_revisions,
        _ => Seq::empty(),
    }
}

/// What a provider is asked before the items of a batch are used.
pub open spec fn use_request_of(
    batch: ContextBatchView,
    batch_ref: RecordRefView,
    consumer_run_id: Seq<char>,
    derived: bool,
    route: Option<ResolvedModelRouteView>,
) -> ContextUseRequestView {
    ContextUseRequestView {
        consumer_run_id,
        derived,
        item_revisions: revisions_of(batch.result),
        batch_ref,
        request: batch.request,
        items: batch.result.items(),
        source_revision: batch.result.source_revision(),
        route,
    }
}

/// Write what a provider is asked before the items of a batch are used. They keep the identity that
/// the provider gave them.
pub fn use_request(
    batch: &ContextBatch,
    batch_ref: &RecordRef,
    consumer_run_id: &Id,
    derived: bool,
    route: &Option<ResolvedModelRoute>,
) -> (r: ContextUseRequest)
    ensures
        r@ == use_request_of(batch@, batch_ref@, consumer_run_id@, derived, route.deep_view()),
{
    let item_revisions = match batch.result() {
        ContextResult::Ready { item_revisions, .. } => item_revisions.copy(),
        _ => {
            let none: Vec<ItemRevision> = Vec::new();
            assert(none.deep_view() =~= Seq::<ItemRevisionView>::empty());
            none
        },
    };
    let source_revision = match batch.result().source_revision() {
        Some(revision) => Some(revision.copy()),
        None => None,
    };
    ContextUseRequest {
        consumer_run_id: consumer_run_id.copy(),
        derived,
        item_revisions,
        batch_ref: batch_ref.copy(),
        request: batch.request().copy(),
        items: batch.result().items(),
        source_revision,
        route: route.copy(),
    }
}

/// Why the current estimate speaks against using a batch.
pub open spec fn estimate_use_fault(batch: ContextBatchView, estimate: Estimate) -> Option<Fault> {
    or_else(
        estimate_fault(estimate),
        if estimate != Estimate::Tokens(batch.estimated_tokens) || batch.estimated_tokens
            > batch.request.binding.max_tokens {
            fault(ErrorCode::ContextBudgetExceeded, "context_source.tokens")
        } else {
            None
        },
    )
}

/// Check that the estimate of a batch still holds, and fits its binding.
pub fn check_estimate(batch: &ContextBatch, estimate: &Estimate) -> (r: Result<(), ContractError>)
    ensures
        failure(r) == estimate_use_fault(batch@, *estimate),
{
    let tokens: u64 = estimated(estimate)?;
    if tokens != batch.estimated_tokens() || tokens > batch.request().binding.max_tokens {
        return fail(ErrorCode::ContextBudgetExceeded, "context_source.tokens");
    }
    Ok(())
}

/// Check that a use has neither been cancelled nor run out of time.
pub fn check_use_end(is_cancelled: bool, is_past_deadline: bool) -> (r: Result<(), ContractError>)
    ensures
        failure(r) == (if is_cancelled {
            fault(ErrorCode::Cancelled, "context_source.use")
        } else if is_past_deadline {
            fault(ErrorCode::DeadlineExceeded, "context_source.use")
        } else {
            None
        }),
{
    if is_cancelled {
        return fail(ErrorCode::Cancelled, "context_source.use");
    }
    if is_past_deadline {
        return fail(ErrorCode::DeadlineExceeded, "context_source.use");
    }
    Ok(())
}

/// How long the use of a batch may take: the timeout of its binding, and no longer than the run.
pub fn use_timeout_ms(batch: &ContextBatch, remaining_ms: u64) -> (r: u64)
    ensures
        r == (if batch@.request.binding.timeout_ms <= remaining_ms {
            batch@.request.binding.timeout_ms
        } else {
            remaining_ms
        }),
{
    let timeout_ms: u64 = batch.request().binding.timeout_ms;
    if timeout_ms <= remaining_ms {
        timeout_ms
    } else {
        remaining_ms
    }
}

/// The items that a batch contributes: those that its fragments select, or all of them where it has
/// no fragments.
pub fn used_items(batch: &ContextBatch, selection: &FragmentSelection) -> (r: Result<
    Vec<ContextItem>,
    ContractError,
>)
    ensures
        failure(r) == (match selection@ {
            FragmentSelectionView::Refused { error } => if batch@.fragments.len() > 0 {
                Some(error)
            } else {
                None
            },
            FragmentSelectionView::Selected { .. } => None,
        }),
        r matches Ok(items) ==> items.deep_view() == (if batch@.fragments.len() == 0 {
            batch@.items
        } else {
            selection@->items
        }),
{
    let fragments = batch.fragments();
    assert(batch@.fragments.len() == fragments.len());
    if fragments.len() == 0 {
        return Ok(batch.items().copy());
    }
    match selection {
        FragmentSelection::Selected { items } => Ok(items.copy()),
        FragmentSelection::Refused { error } => Err(error.copy()),
    }
}

/// Messages that may carry what a source offered: those that a model or a tool wrote, and that a
/// model sees.
pub open spec fn carries_context() -> spec_fn(MessageView) -> bool {
    |message: MessageView|
        visible(message) && (message.origin == MessageOrigin::Model || message.origin
            == MessageOrigin::Tool)
}

/// The runs of messages, each once, in the order of their first message.
pub open spec fn runs_of(messages: Seq<MessageView>) -> Seq<Seq<char>>
    decreases messages.len(),
{
    if messages.len() == 0 {
        Seq::empty()
    } else {
        let earlier = runs_of(messages.drop_last());
        if earlier.contains(messages.last().run_id) {
            earlier
        } else {
            earlier.push(messages.last().run_id)
        }
    }
}

fn list_runs(messages: &Vec<Message>) -> (r: Vec<Id>)
    ensures
        r.deep_view() == runs_of(messages.deep_view()),
{
    let ghost s = messages.deep_view();
    let mut out: Vec<Id> = Vec::new();
    let mut i: usize = 0;
    assert(s.take(0) =~= Seq::<MessageView>::empty());
    assert(out.deep_view() =~= Seq::<Seq<char>>::empty());
    while i < messages.len()
        invariant
            i <= messages.len(),
            s == messages.deep_view(),
            out.deep_view() == runs_of(s.take(i as int)),
        decreases messages.len() - i,
    {
        assert(s.take(i + 1).drop_last() =~= s.take(i as int));
        assert(s.take(i + 1).last() == messages@[i as int]@);
        if !contains(&out, &messages[i].run_id) {
            let ghost before = out.deep_view();
            out.push(messages[i].run_id.copy());
            assert(out.deep_view() =~= before.push(s[i as int].run_id));
        }
        i = i + 1;
    }
    assert(s.take(i as int) =~= s);
    out
}

/// The runs whose sources historical messages may depend on.
pub fn lineage_runs(messages: &Vec<Message>) -> (r: Vec<Id>)
    ensures
        r.deep_view() == runs_of(kept(messages.deep_view(), carries_context())),
{
    let carries = |message: &Message| -> (b: bool)
        ensures
            b == carries_context()(message@),
    {
        is_visible(message) && (message.origin == MessageOrigin::Model || message.origin
            == MessageOrigin::Tool)
    };
    list_runs(&keep(messages, carries, Ghost(carries_context())))
}

/// Check that a run belongs to the session whose context is used.
pub fn check_lineage_session(snapshot: &RunSnapshot, session_id: &Id) -> (r: Result<
    (),
    ContractError,
>)
    ensures
        failure(r) == (if snapshot@.request.session_id != session_id@ {
            fault(ErrorCode::AccessDenied, "context_source.lineage_session")
        } else {
            None
        }),
{
    if !snapshot.request.session_id.same(session_id) {
        return fail(ErrorCode::AccessDenied, "context_source.lineage_session");
    }
    Ok(())
}

/// Check that a dependency stems from a committed batch of a run of the same session.
pub fn check_lineage_owner(
    original: &RunSnapshot,
    consumer: &RunSnapshot,
    dependency: &ContextLineage,
) -> (r: Result<(), ContractError>)
    ensures
        failure(r) == (if original@.request.session_id != consumer@.request.session_id
            || !original@.context_batches.contains(dependency@.batch_ref) {
            fault(ErrorCode::AccessDenied, "context_source.lineage_owner")
        } else {
            None
        }),
{
    if !original.request.session_id.same(&consumer.request.session_id) || !contains(
        &original.context_batches,
        &dependency.batch_ref,
    ) {
        return fail(ErrorCode::AccessDenied, "context_source.lineage_owner");
    }
    Ok(())
}

/// Messages of a run.
pub open spec fn of_run(run_id: Seq<char>) -> spec_fn(MessageView) -> bool {
    |message: MessageView| message.run_id == run_id
}

/// The runs of a session from the first message of one on.
pub open spec fn runs_from(messages: Seq<MessageView>, run_id: Seq<char>) -> Seq<Seq<char>> {
    match position_in(messages, of_run(run_id)) {
        Some(i) => runs_of(messages.skip(i)),
        None => Seq::empty(),
    }
}

/// The runs in which a later batch may have withdrawn what a run was offered: the run itself, every
/// run of the session after it, and the consuming run.
pub open spec fn later_runs_of(
    messages: Seq<MessageView>,
    origin: Seq<char>,
    consumer: Seq<char>,
) -> Seq<Seq<char>> {
    let found = runs_from(messages, origin);
    let with_origin = if found.contains(origin) {
        found
    } else {
        seq![origin] + found
    };
    if with_origin.contains(consumer) {
        with_origin
    } else {
        with_origin.push(consumer)
    }
}

/// List the runs in which a later batch may have withdrawn what a run was offered.
pub fn later_runs(messages: &Vec<Message>, origin: &Id, consumer: &Id) -> (r: Vec<Id>)
    ensures
        r.deep_view() == later_runs_of(messages.deep_view(), origin@, consumer@),
{
    let ghost s = messages.deep_view();
    let of_origin = |message: &Message| -> (b: bool)
        ensures
            b == of_run(origin@)(message@),
    { message.run_id.same(origin) };
    let mut found: Vec<Id> = Vec::new();
    assert(found.deep_view() =~= Seq::<Seq<char>>::empty());
    if let Some(at) = position(messages, of_origin, Ghost(of_run(origin@))) {
        let mut rest: Vec<Message> = Vec::new();
        let mut i: usize = at;
        while i < messages.len()
            invariant
                at <= i <= messages.len(),
                s == messages.deep_view(),
                rest.deep_view() =~= s.subrange(at as int, i as int),
            decreases messages.len() - i,
        {
            let ghost before = rest.deep_view();
            rest.push(messages[i].copy());
            assert(rest.deep_view() =~= before.push(s[i as int]));
            i = i + 1;
        }
        assert(s.subrange(at as int, i as int) =~= s.skip(at as int));
        found = list_runs(&rest);
    }
    assert(found.deep_view() == runs_from(s, origin@));
    let mut runs: Vec<Id> = Vec::new();
    if !contains(&found, origin) {
        runs.push(origin.copy());
    }
    assert(runs.deep_view() =~= (if found.deep_view().contains(origin@) {
        Seq::<Seq<char>>::empty()
    } else {
        seq![origin@]
    }));
    let mut runs = crate::data::joined(&runs, &found);
    assert(runs.deep_view() =~= (if found.deep_view().contains(origin@) {
        found.deep_view()
    } else {
        seq![origin@] + found.deep_view()
    }));
    if !contains(&runs, consumer) {
        let ghost before = runs.deep_view();
        runs.push(consumer.copy());
        assert(runs.deep_view() =~= before.push(consumer@));
    }
    runs
}

/// The search for withdrawals always covers the run that was offered the items and the one that uses
/// them.
pub proof fn law_withdrawals_are_looked_for_everywhere(
    messages: Seq<MessageView>,
    origin: Seq<char>,
    consumer: Seq<char>,
)
    ensures
        later_runs_of(messages, origin, consumer).contains(origin),
        later_runs_of(messages, origin, consumer).contains(consumer),
{
    let found = runs_from(messages, origin);
    let with_origin = if found.contains(origin) {
        found
    } else {
        seq![origin] + found
    };
    assert(with_origin.contains(origin)) by {
        if !found.contains(origin) {
            assert(with_origin[0] == origin);
        }
    }
    let all = later_runs_of(messages, origin, consumer);
    if !with_origin.contains(consumer) {
        assert(all.last() == consumer);
        let i = choose|i: int| 0 <= i < with_origin.len() && with_origin[i] == origin;
        assert(all[i] == origin);
    }
}

proof fn lemma_runs_of(messages: Seq<MessageView>, i: int)
    requires
        0 <= i < messages.len(),
    ensures
        runs_of(messages).contains(messages[i].run_id),
    decreases messages.len(),
{
    let earlier = runs_of(messages.drop_last());
    if i < messages.len() - 1 {
        lemma_runs_of(messages.drop_last(), i);
        let k = choose|k: int| 0 <= k < earlier.len() && earlier[k] == messages[i].run_id;
        assert(runs_of(messages)[k] == messages[i].run_id);
    } else if !earlier.contains(messages.last().run_id) {
        assert(runs_of(messages).last() == messages[i].run_id);
    }
}

/// Every run of the session that wrote a message after the origin did is searched for withdrawals.
pub proof fn law_later_runs_are_searched(
    messages: Seq<MessageView>,
    origin: Seq<char>,
    consumer: Seq<char>,
    i: int,
    k: int,
)
    requires
        position_in(messages, of_run(origin)) == Some(i),
        0 <= i <= k < messages.len(),
    ensures
        later_runs_of(messages, origin, consumer).contains(messages[k].run_id),
{
    let rest = messages.skip(i);
    assert(rest[k - i] == messages[k]);
    lemma_runs_of(rest, k - i);
    let found = runs_from(messages, origin);
    let at = choose|at: int| 0 <= at < found.len() && found[at] == messages[k].run_id;
    let with_origin = if found.contains(origin) {
        found
    } else {
        seq![origin] + found
    };
    let place = if found.contains(origin) {
        at
    } else {
        at + 1
    };
    assert(with_origin[place] == messages[k].run_id);
    assert(later_runs_of(messages, origin, consumer)[place] == messages[k].run_id);
}

/// A withdrawn item is never used again: where a later batch withdraws what a batch offered, the check
/// of its use fails.
pub proof fn law_withdrawn_items_are_refused(
    batch: ContextBatchView,
    later: Seq<ProtectedRecordView>,
    plan: ContextSourcePlanView,
    scope: ScopeView,
    run_id: Seq<char>,
    i: int,
)
    requires
        0 <= i < later.len(),
        withdraws(batch_in(later[i])->0, batch),
    ensures
        first_fault(later, withdrawal_fault(batch, plan, scope, run_id)) is Some,
{
    lemma_first_fault(later, withdrawal_fault(batch, plan, scope, run_id));
    assert(withdrawal_fault(batch, plan, scope, run_id)(later[i]) is Some);
}

/// A query is asked at most once: after its batch was saved, the same slot is reused.
pub proof fn law_saved_queries_are_not_repeated(
    snapshot: RunSnapshotView,
    batch: ContextBatchView,
    entry: PlannedContextSourceView,
    trigger: ContextTrigger,
    step: Option<Seq<char>>,
    elapsed_ms: u64,
    now_ms: i64,
)
    ensures
        source_step(
            saved_with(snapshot, batch, entry, trigger, step, elapsed_ms, now_ms),
            entry,
            trigger,
            step,
        ) == (SourceStepView::Reuse { state: slot_state(batch, entry, trigger, step) }),
{
    let after = saved_with(snapshot, batch, entry, trigger, step, elapsed_ms, now_ms);
    let others = kept(snapshot.source_states, of_other_slot(entry.binding.source, trigger));
    let state = slot_state(batch, entry, trigger, step);
    let p = fills_slot(entry, trigger, step);
    crate::data::lemma_kept(snapshot.source_states, of_other_slot(entry.binding.source, trigger));
    assert forall|i: int| 0 <= i < others.len() implies !p(#[trigger] others[i]) by {
        assert(others.contains(others[i]));
    }
    lemma_first_of_push(others, state, p);
    assert(after.source_states == others.push(state));
}

proof fn lemma_first_of_push<V>(s: Seq<V>, x: V, p: spec_fn(V) -> bool)
    requires
        forall|i: int| 0 <= i < s.len() ==> !p(#[trigger] s[i]),
        p(x),
    ensures
        first_in(s.push(x), p) == Some(x),
    decreases s.len(),
{
    if s.len() > 0 {
        let rest = s.skip(1);
        assert forall|i: int| 0 <= i < rest.len() implies !p(#[trigger] rest[i]) by {
            assert(rest[i] == s[i + 1]);
        }
        lemma_first_of_push(rest, x, p);
        assert(s.push(x).skip(1) =~= rest.push(x));
        assert(!p(s.push(x)[0]));
    } else {
        assert(s.push(x)[0] == x);
    }
}

/// A slot that nothing has filled is asked for, and what is reused is a state of exactly this source,
/// trigger and step.
pub proof fn law_empty_slots_are_queried(
    snapshot: RunSnapshotView,
    entry: PlannedContextSourceView,
    trigger: ContextTrigger,
    step: Option<Seq<char>>,
)
    ensures
        source_step(snapshot, entry, trigger, step) is Query <==> forall|i: int|
            0 <= i < snapshot.source_states.len() ==> (#[trigger] snapshot.source_states[i]).source
                != entry.binding.source || snapshot.source_states[i].trigger != trigger
                || snapshot.source_states[i].model_step_id != step,
        source_step(snapshot, entry, trigger, step) matches SourceStepView::Reuse { state } ==> {
            &&& state.source == entry.binding.source
            &&& state.trigger == trigger
            &&& state.model_step_id == step
        },
{
    let p = fills_slot(entry, trigger, step);
    lemma_first_in(snapshot.source_states, p);
    if some_in(snapshot.source_states, p) {
        let i = choose|i: int|
            0 <= i < snapshot.source_states.len() && p(#[trigger] snapshot.source_states[i]);
        assert(snapshot.source_states[i].trigger == trigger);
    }
    if !some_in(snapshot.source_states, p) {
        assert forall|i: int| 0 <= i < snapshot.source_states.len() implies (
        #[trigger] snapshot.source_states[i]).source != entry.binding.source
            || snapshot.source_states[i].trigger != trigger
            || snapshot.source_states[i].model_step_id != step by {
            assert(!p(snapshot.source_states[i]));
        }
    }
}

/// A run goes on without a source that has nothing to offer, unless the source is required. An empty
/// answer is an answer.
pub proof fn law_only_required_sources_must_answer(batch: ContextBatchView)
    ensures
        required_fault(batch) is None <==> !batch.request.binding.required || !(
        batch.result is Unavailable),
{
}

/// What a source returns is kept as it is. One that answers too late, or reports that it is not there,
/// is unavailable; a cancellation, a stop of the run and every other error end the collection.
pub proof fn law_late_sources_are_unavailable(race: ProvideRaceView)
    ensures
        race matches ProvideRaceView::Returned { result } ==> provide_fault(race) is None
            && provided(race) == result,
        race is DeadlinePassed ==> provide_fault(race) is None && provided(race) is Unavailable,
        race == (ProvideRaceView::Reported { code: ErrorCode::ContextSourceUnavailable })
            ==> provide_fault(race) is None && provided(race) is Unavailable,
        race matches ProvideRaceView::Reported { code } ==> code
            != ErrorCode::ContextSourceUnavailable ==> provide_fault(race) is Some
            && provide_fault(race)->Some_0.code == code,
        race is Cancelled ==> provide_fault(race)->Some_0.code == ErrorCode::Cancelled,
        race is Cancelled || race is Panicked || race is Stopped ==> provide_fault(race) is Some,
        race matches ProvideRaceView::Stopped { error } ==> provide_fault(race) == Some(error),
{
}

/// A saved batch fills its slot: it is recorded behind the others, the slot holds it and nothing else,
/// and every other slot keeps what it held.
pub proof fn law_saved_batches_fill_their_slot(
    snapshot: RunSnapshotView,
    batch: ContextBatchView,
    entry: PlannedContextSourceView,
    trigger: ContextTrigger,
    step: Option<Seq<char>>,
    elapsed_ms: u64,
    now_ms: i64,
    state: SourceExecutionStateView,
)
    requires
        saving_fault(snapshot, batch) is None,
    ensures
        ({
            let next = saved_with(snapshot, batch, entry, trigger, step, elapsed_ms, now_ms);
            let own = state.source == entry.binding.source && state.trigger == trigger;
            &&& next.revision == snapshot.revision + 1
            &&& next.context_batches == snapshot.context_batches.push(batch_reference(batch))
            &&& next.usage.elapsed_ms == elapsed_ms
            &&& next.usage.model_calls == snapshot.usage.model_calls
            &&& next.status == snapshot.status
            &&& !own ==> (next.source_states.contains(state) <==> snapshot.source_states.contains(
                state,
            ))
            &&& own && next.source_states.contains(state) ==> {
                &&& state.batch_ref == batch_reference(batch)
                &&& state.context_request_id == batch.request.context_request_id
                &&& state.model_step_id == step
            }
            &&& source_step(next, entry, trigger, step) is Reuse
        }),
{
    let next = saved_with(snapshot, batch, entry, trigger, step, elapsed_ms, now_ms);
    let p = of_other_slot(entry.binding.source, trigger);
    let others = kept(snapshot.source_states, p);
    let added = slot_state(batch, entry, trigger, step);
    lemma_kept(snapshot.source_states, p);
    assert(next.source_states[others.len() as int] == added);
    assert(next.source_states.contains(state) <==> others.contains(state) || state == added) by {
        if next.source_states.contains(state) {
            let k = choose|k: int|
                0 <= k < next.source_states.len() && next.source_states[k] == state;
            if k < others.len() {
                assert(others[k] == state);
            }
        }
        if others.contains(state) {
            let k = choose|k: int| 0 <= k < others.len() && others[k] == state;
            assert(next.source_states[k] == state);
        }
    }
    let q = fills_slot(entry, trigger, step);
    assert(q(next.source_states[others.len() as int]));
    lemma_first_in(next.source_states, q);
}

/// A batch is used by the run that asked for it: with the same session, the same input and, where it
/// was collected for a step, in that step only.
pub proof fn law_batches_are_used_where_they_were_asked_for(
    batch: ContextBatchView,
    snapshot: RunSnapshotView,
)
    ensures
        batch_use_fault(batch, snapshot) is None <==> {
            &&& batch.request.session_id == snapshot.request.session_id
            &&& batch.request.user_input == snapshot.request.input
            &&& batch.request.model_step_id is None || batch.request.model_step_id
                == snapshot.model_step_id
            &&& !batch.request.binding.required || !(batch.result is Unavailable)
        },
{
}

/// A later answer of the same source withdraws a batch exactly where it deletes an item that the
/// batch offered.
pub proof fn law_deletions_withdraw_offered_items(later: ContextBatchView, batch: ContextBatchView)
    ensures
        withdraws(later, batch) <==> {
            &&& later.request.binding.source == batch.request.binding.source
            &&& later.request.definition == batch.request.definition
            &&& later.result is Deleted
            &&& exists|i: int|
                0 <= i < batch.result.items().len() && later.result->item_ids.contains(
                    (#[trigger] batch.result.items()[i]).item_id,
                )
        },
{
    if later.result is Deleted {
        let p = among(later.result->item_ids);
        if some_in(batch.result.items(), p) {
            let i = choose|i: int|
                0 <= i < batch.result.items().len() && p(#[trigger] batch.result.items()[i]);
            assert(later.result->item_ids.contains(batch.result.items()[i].item_id));
        }
        if exists|i: int|
            0 <= i < batch.result.items().len() && later.result->item_ids.contains(
                (#[trigger] batch.result.items()[i]).item_id,
            ) {
            let i = choose|i: int|
                0 <= i < batch.result.items().len() && later.result->item_ids.contains(
                    (#[trigger] batch.result.items()[i]).item_id,
                );
            assert(p(batch.result.items()[i]));
        }
    }
}

/// A batch may be used where the estimate still is what it was when it was collected, and within the
/// bound of its binding.
pub proof fn law_estimates_must_still_hold(batch: ContextBatchView, tokens: u64)
    ensures
        estimate_use_fault(batch, Estimate::Tokens(tokens)) is None ==> tokens
            == batch.estimated_tokens && tokens <= batch.request.binding.max_tokens,
        tokens != batch.estimated_tokens || tokens > batch.request.binding.max_tokens
            ==> estimate_use_fault(batch, Estimate::Tokens(tokens)) is Some,
{
}

} // verus!
