//! One logical model exchange: attempts, retries and what is recorded of them.
use vstd::prelude::*;

use crate::data::{position, Data};
#[allow(unused_imports)]
use crate::data::position_in;
use crate::encoding::{no_members, with_member};
use crate::error::{fail, ContractError, ErrorCode};
#[allow(unused_imports)]
use crate::error::{failure, fault, or_else, Fault};
use crate::json::{member, object, put_member, text, Json};
#[allow(unused_imports)]
use crate::json::{lemma_put_value, put, value_of, JsonView, MemberView};
use crate::model::{
    ModelAttemptState, ModelFailureKind, ModelInvocationRecord, ModelProtocolError, ModelPurpose,
    ModelRequest, ModelResponse, ModelResponseMetadata, ResolvedModelRoute,
};
#[allow(unused_imports)]
use crate::model::{
    route_digest, ModelAttemptStateView, ModelInvocationRecordView, ModelProtocolErrorView,
    ModelRequestView, ModelResponseMetadataView, ModelResponseView, ResolvedModelRouteView,
};
use crate::refs::Scope;
#[allow(unused_imports)]
use crate::refs::{RecordRefView, ScopeView};
use crate::run::RunSnapshot;
#[allow(unused_imports)]
use crate::run::{BudgetUsageView, RunSnapshotView, RunTimingView};
use crate::serialization::{Id, JsonDigest};
#[allow(unused_imports)]
use crate::serialization::digest_of;
#[allow(unused_imports)]
use crate::skills::records::of_attempt;
use crate::state::commit::CommitInput;
#[allow(unused_imports)]
use crate::state::commit::CommitInputView;
use crate::state::records::{ProtectedRecord, RecordContent};
#[allow(unused_imports)]
use crate::state::records::{ProtectedRecordView, RecordContentView};
use crate::state::scope::RunLease;
#[allow(unused_imports)]
use crate::state::scope::RunLeaseView;
#[allow(unused_imports)]
use crate::text::white_space;

pub mod prepared;

verus! {

/// Explicit, bounded retries within the same already selected route.
#[derive(Debug)]
pub struct ModelRetryPolicy {
    /// Additional physical requests after the first; zero disables retries.
    pub max_retries: u32,
    /// How long to wait before a retry.
    pub backoff_ms: u64,
}

#[verifier::ext_equal]
pub struct ModelRetryPolicyView {
    pub max_retries: u32,
    pub backoff_ms: u64,
}

impl View for ModelRetryPolicy {
    type V = ModelRetryPolicyView;

    open spec fn view(&self) -> ModelRetryPolicyView {
        ModelRetryPolicyView {
            max_retries: self.max_retries.deep_view(),
            backoff_ms: self.backoff_ms.deep_view(),
        }
    }
}

impl DeepView for ModelRetryPolicy {
    type V = ModelRetryPolicyView;

    open spec fn deep_view(&self) -> ModelRetryPolicyView {
        self@
    }
}

impl Data for ModelRetryPolicy {
    fn same(&self, other: &Self) -> (r: bool) {
        self.max_retries.same(&other.max_retries)
            && self.backoff_ms.same(&other.backoff_ms)
    }

    fn copy(&self) -> (r: Self) {
        ModelRetryPolicy {
            max_retries: self.max_retries.copy(),
            backoff_ms: self.backoff_ms.copy(),
        }
    }
}

/// How an exchange ended.
#[derive(Debug)]
pub enum ModelExchangeOutcome {
    /// The full stream ended with a valid completion.
    Completed {
        response: ModelResponse,
    },
    /// No complete response was accepted after the configured recovery allowance.
    Failed {
        failure: ModelProtocolError,
    },
}

#[verifier::ext_equal]
pub enum ModelExchangeOutcomeView {
    Completed {
        response: ModelResponseView,
    },
    Failed {
        failure: ModelProtocolErrorView,
    },
}

impl View for ModelExchangeOutcome {
    type V = ModelExchangeOutcomeView;

    open spec fn view(&self) -> ModelExchangeOutcomeView {
        match self {
            ModelExchangeOutcome::Completed { response } => ModelExchangeOutcomeView::Completed { response: response.deep_view() },
            ModelExchangeOutcome::Failed { failure } => ModelExchangeOutcomeView::Failed { failure: failure.deep_view() },
        }
    }
}

impl DeepView for ModelExchangeOutcome {
    type V = ModelExchangeOutcomeView;

    open spec fn deep_view(&self) -> ModelExchangeOutcomeView {
        self@
    }
}

impl Data for ModelExchangeOutcome {
    fn same(&self, other: &Self) -> (r: bool) {
        match (self, other) {
            (ModelExchangeOutcome::Completed { response: response1 }, ModelExchangeOutcome::Completed { response: response2 }) => response1.same(response2),
            (ModelExchangeOutcome::Failed { failure: failure1 }, ModelExchangeOutcome::Failed { failure: failure2 }) => failure1.same(failure2),
            _ => false,
        }
    }

    fn copy(&self) -> (r: Self) {
        match self {
            ModelExchangeOutcome::Completed { response } => ModelExchangeOutcome::Completed { response: response.copy() },
            ModelExchangeOutcome::Failed { failure } => ModelExchangeOutcome::Failed { failure: failure.copy() },
        }
    }
}

/// Protected response body tied to one physical attempt and exact route.
#[derive(Debug)]
pub struct StoredModelResponse {
    /// The physical attempt.
    pub request_id: Id,
    /// Route that produced the success or failure.
    pub route_digest: JsonDigest,
    /// Accepted response or bounded failed-response data.
    pub outcome: ModelExchangeOutcome,
}

#[verifier::ext_equal]
pub struct StoredModelResponseView {
    pub request_id: Seq<char>,
    pub route_digest: Seq<char>,
    pub outcome: ModelExchangeOutcomeView,
}

impl View for StoredModelResponse {
    type V = StoredModelResponseView;

    open spec fn view(&self) -> StoredModelResponseView {
        StoredModelResponseView {
            request_id: self.request_id.deep_view(),
            route_digest: self.route_digest.deep_view(),
            outcome: self.outcome.deep_view(),
        }
    }
}

impl DeepView for StoredModelResponse {
    type V = StoredModelResponseView;

    open spec fn deep_view(&self) -> StoredModelResponseView {
        self@
    }
}

impl Data for StoredModelResponse {
    fn same(&self, other: &Self) -> (r: bool) {
        self.request_id.same(&other.request_id)
            && self.route_digest.same(&other.route_digest)
            && self.outcome.same(&other.outcome)
    }

    fn copy(&self) -> (r: Self) {
        StoredModelResponse {
            request_id: self.request_id.copy(),
            route_digest: self.route_digest.copy(),
            outcome: self.outcome.copy(),
        }
    }
}

/// What looking for an adapter gave.
#[derive(Debug)]
pub enum PortResolution {
    /// An adapter, and whether it is bound to the route.
    Resolved {
        is_bound: bool,
    },
    Refused {
        error: ContractError,
    },
    Panicked,
}

#[verifier::ext_equal]
pub enum PortResolutionView {
    Resolved {
        is_bound: bool,
    },
    Refused {
        error: Fault,
    },
    Panicked,
}

impl View for PortResolution {
    type V = PortResolutionView;

    open spec fn view(&self) -> PortResolutionView {
        match self {
            PortResolution::Resolved { is_bound } => PortResolutionView::Resolved { is_bound: is_bound.deep_view() },
            PortResolution::Refused { error } => PortResolutionView::Refused { error: error.deep_view() },
            PortResolution::Panicked => PortResolutionView::Panicked,
        }
    }
}

impl DeepView for PortResolution {
    type V = PortResolutionView;

    open spec fn deep_view(&self) -> PortResolutionView {
        self@
    }
}

impl Data for PortResolution {
    fn same(&self, other: &Self) -> (r: bool) {
        match (self, other) {
            (PortResolution::Resolved { is_bound: is_bound1 }, PortResolution::Resolved { is_bound: is_bound2 }) => is_bound1.same(is_bound2),
            (PortResolution::Refused { error: error1 }, PortResolution::Refused { error: error2 }) => error1.same(error2),
            (PortResolution::Panicked, PortResolution::Panicked) => true,
            _ => false,
        }
    }

    fn copy(&self) -> (r: Self) {
        match self {
            PortResolution::Resolved { is_bound } => PortResolution::Resolved { is_bound: is_bound.copy() },
            PortResolution::Refused { error } => PortResolution::Refused { error: error.copy() },
            PortResolution::Panicked => PortResolution::Panicked,
        }
    }
}

/// What a policy is asked before a model is called.
#[derive(Debug)]
pub struct InvokeRequest {
    pub owner_scope: Scope,
    pub resource_id: Id,
    pub route: ResolvedModelRoute,
    pub purpose: ModelPurpose,
}

#[verifier::ext_equal]
pub struct InvokeRequestView {
    pub owner_scope: ScopeView,
    pub resource_id: Seq<char>,
    pub route: ResolvedModelRouteView,
    pub purpose: ModelPurpose,
}

impl View for InvokeRequest {
    type V = InvokeRequestView;

    open spec fn view(&self) -> InvokeRequestView {
        InvokeRequestView {
            owner_scope: self.owner_scope.deep_view(),
            resource_id: self.resource_id.deep_view(),
            route: self.route.deep_view(),
            purpose: self.purpose.deep_view(),
        }
    }
}

impl DeepView for InvokeRequest {
    type V = InvokeRequestView;

    open spec fn deep_view(&self) -> InvokeRequestView {
        self@
    }
}

impl Data for InvokeRequest {
    fn same(&self, other: &Self) -> (r: bool) {
        self.owner_scope.same(&other.owner_scope)
            && self.resource_id.same(&other.resource_id)
            && self.route.same(&other.route)
            && self.purpose.same(&other.purpose)
    }

    fn copy(&self) -> (r: Self) {
        InvokeRequest {
            owner_scope: self.owner_scope.copy(),
            resource_id: self.resource_id.copy(),
            route: self.route.copy(),
            purpose: self.purpose.copy(),
        }
    }
}

/// How one physical attempt ended.
#[derive(Debug)]
pub enum AttemptEnd {
    /// The caller cancelled.
    Cancelled,
    /// The run stopped waiting: with an error, or because its deadline passed.
    Stopped {
        error: Option<ContractError>,
    },
    /// The adapter broke off.
    Panicked,
    Completed {
        response: ModelResponse,
    },
    Failed {
        failure: ModelProtocolError,
    },
}

#[verifier::ext_equal]
pub enum AttemptEndView {
    Cancelled,
    Stopped {
        error: Option<Fault>,
    },
    Panicked,
    Completed {
        response: ModelResponseView,
    },
    Failed {
        failure: ModelProtocolErrorView,
    },
}

impl View for AttemptEnd {
    type V = AttemptEndView;

    open spec fn view(&self) -> AttemptEndView {
        match self {
            AttemptEnd::Cancelled => AttemptEndView::Cancelled,
            AttemptEnd::Stopped { error } => AttemptEndView::Stopped { error: error.deep_view() },
            AttemptEnd::Panicked => AttemptEndView::Panicked,
            AttemptEnd::Completed { response } => AttemptEndView::Completed { response: response.deep_view() },
            AttemptEnd::Failed { failure } => AttemptEndView::Failed { failure: failure.deep_view() },
        }
    }
}

impl DeepView for AttemptEnd {
    type V = AttemptEndView;

    open spec fn deep_view(&self) -> AttemptEndView {
        self@
    }
}

impl Data for AttemptEnd {
    fn same(&self, other: &Self) -> (r: bool) {
        match (self, other) {
            (AttemptEnd::Cancelled, AttemptEnd::Cancelled) => true,
            (AttemptEnd::Stopped { error: error1 }, AttemptEnd::Stopped { error: error2 }) => error1.same(error2),
            (AttemptEnd::Panicked, AttemptEnd::Panicked) => true,
            (AttemptEnd::Completed { response: response1 }, AttemptEnd::Completed { response: response2 }) => response1.same(response2),
            (AttemptEnd::Failed { failure: failure1 }, AttemptEnd::Failed { failure: failure2 }) => failure1.same(failure2),
            _ => false,
        }
    }

    fn copy(&self) -> (r: Self) {
        match self {
            AttemptEnd::Cancelled => AttemptEnd::Cancelled,
            AttemptEnd::Stopped { error } => AttemptEnd::Stopped { error: error.copy() },
            AttemptEnd::Panicked => AttemptEnd::Panicked,
            AttemptEnd::Completed { response } => AttemptEnd::Completed { response: response.copy() },
            AttemptEnd::Failed { failure } => AttemptEnd::Failed { failure: failure.copy() },
        }
    }
}

/// What the clock and the budget of a run say when an attempt is settled.
#[derive(Debug)]
pub enum Settlement {
    Known {
        elapsed_ms: u64,
        now_ms: i64,
    },
    Refused {
        error: ContractError,
    },
}

#[verifier::ext_equal]
pub enum SettlementView {
    Known {
        elapsed_ms: u64,
        now_ms: i64,
    },
    Refused {
        error: Fault,
    },
}

impl View for Settlement {
    type V = SettlementView;

    open spec fn view(&self) -> SettlementView {
        match self {
            Settlement::Known { elapsed_ms, now_ms } => SettlementView::Known { elapsed_ms: elapsed_ms.deep_view(), now_ms: now_ms.deep_view() },
            Settlement::Refused { error } => SettlementView::Refused { error: error.deep_view() },
        }
    }
}

impl DeepView for Settlement {
    type V = SettlementView;

    open spec fn deep_view(&self) -> SettlementView {
        self@
    }
}

impl Data for Settlement {
    fn same(&self, other: &Self) -> (r: bool) {
        match (self, other) {
            (Settlement::Known { elapsed_ms: elapsed_ms1, now_ms: now_ms1 }, Settlement::Known { elapsed_ms: elapsed_ms2, now_ms: now_ms2 }) => elapsed_ms1.same(elapsed_ms2) && now_ms1.same(now_ms2),
            (Settlement::Refused { error: error1 }, Settlement::Refused { error: error2 }) => error1.same(error2),
            _ => false,
        }
    }

    fn copy(&self) -> (r: Self) {
        match self {
            Settlement::Known { elapsed_ms, now_ms } => Settlement::Known { elapsed_ms: elapsed_ms.copy(), now_ms: now_ms.copy() },
            Settlement::Refused { error } => Settlement::Refused { error: error.copy() },
        }
    }
}

/// What follows a recorded attempt.
#[derive(Debug)]
pub enum ExchangeStep {
    /// The exchange is over.
    Finish {
        outcome: ModelExchangeOutcome,
    },
    /// Reserve a recovery, wait, and try the same route again.
    Retry {
        backoff_ms: u64,
    },
}

#[verifier::ext_equal]
pub enum ExchangeStepView {
    Finish {
        outcome: ModelExchangeOutcomeView,
    },
    Retry {
        backoff_ms: u64,
    },
}

impl View for ExchangeStep {
    type V = ExchangeStepView;

    open spec fn view(&self) -> ExchangeStepView {
        match self {
            ExchangeStep::Finish { outcome } => ExchangeStepView::Finish { outcome: outcome.deep_view() },
            ExchangeStep::Retry { backoff_ms } => ExchangeStepView::Retry { backoff_ms: backoff_ms.deep_view() },
        }
    }
}

impl DeepView for ExchangeStep {
    type V = ExchangeStepView;

    open spec fn deep_view(&self) -> ExchangeStepView {
        self@
    }
}

impl Data for ExchangeStep {
    fn same(&self, other: &Self) -> (r: bool) {
        match (self, other) {
            (ExchangeStep::Finish { outcome: outcome1 }, ExchangeStep::Finish { outcome: outcome2 }) => outcome1.same(outcome2),
            (ExchangeStep::Retry { backoff_ms: backoff_ms1 }, ExchangeStep::Retry { backoff_ms: backoff_ms2 }) => backoff_ms1.same(backoff_ms2),
            _ => false,
        }
    }

    fn copy(&self) -> (r: Self) {
        match self {
            ExchangeStep::Finish { outcome } => ExchangeStep::Finish { outcome: outcome.copy() },
            ExchangeStep::Retry { backoff_ms } => ExchangeStep::Retry { backoff_ms: backoff_ms.copy() },
        }
    }
}


/// Where adapters come from.
pub enum Models<M, D> {
    /// One adapter.
    Single(M),
    /// An exact scoped adapter registry.
    Dispatcher(D),
}

/// What inspects a route before it is called, and for how long.
pub struct Inspector<I> {
    pub inspector: I,
    pub timeout_nanos: u128,
}

/// Model execution boundary: adapters, the current policy gate, same-route retries and the route
/// inspector. It does not run tools, choose fallback routes, or advance an agent loop.
pub struct ModelExchange<M, D, P, I> {
    pub models: Models<M, D>,
    pub policy: P,
    pub retry: ModelRetryPolicy,
    pub inspector: Option<Inspector<I>>,
}

/// No retries.
pub open spec fn no_retries() -> ModelRetryPolicyView {
    ModelRetryPolicyView { max_retries: 0, backoff_ms: 0 }
}

impl<M, D, P, I> ModelExchange<M, D, P, I> {
    /// Bind one adapter and current policy gate, with physical retries disabled.
    pub fn new(model: M, policy: P) -> (r: Self)
        ensures
            r.models == Models::<M, D>::Single(model),
            r.policy == policy,
            r.retry@ == no_retries(),
            r.inspector is None,
    {
        ModelExchange {
            models: Models::Single(model),
            policy,
            retry: ModelRetryPolicy { max_retries: 0, backoff_ms: 0 },
            inspector: None,
        }
    }

    /// Use an exact scoped adapter registry without inventing a shared credential binding.
    pub fn with_dispatcher(dispatcher: D, policy: P) -> (r: Self)
        ensures
            r.models == Models::<M, D>::Dispatcher(dispatcher),
            r.policy == policy,
            r.retry@ == no_retries(),
            r.inspector is None,
    {
        ModelExchange {
            models: Models::Dispatcher(dispatcher),
            policy,
            retry: ModelRetryPolicy { max_retries: 0, backoff_ms: 0 },
            inspector: None,
        }
    }

    /// Require bounded current metadata inspection for routed calls and their retries.
    pub fn with_route_inspector(self, inspector: I, timeout_nanos: u128) -> (r: Result<
        Self,
        ContractError,
    >)
        ensures
            failure(r) == (if timeout_nanos == 0 {
                fault(ErrorCode::InvalidConfiguration, "model.inspection_timeout")
            } else {
                None
            }),
            r matches Ok(exchange) ==> exchange == (ModelExchange {
                inspector: Some(Inspector { inspector, timeout_nanos }),
                ..self
            }),
    {
        if timeout_nanos == 0 {
            return fail(ErrorCode::InvalidConfiguration, "model.inspection_timeout");
        }
        let mut exchange = self;
        exchange.inspector = Some(Inspector { inspector, timeout_nanos });
        Ok(exchange)
    }

    /// Configure finite same-route recovery. Limits of the run still apply.
    pub fn with_retry_policy(self, retry: ModelRetryPolicy) -> (r: Self)
        ensures
            r == (ModelExchange { retry, ..self }),
    {
        let mut exchange = self;
        exchange.retry = retry;
        exchange
    }

    /// Decide what follows a recorded attempt.
    pub fn next_step(&self, retry_number: u32, end: AttemptEnd) -> (r: Result<
        ExchangeStep,
        ContractError,
    >)
        ensures
            failure(r) == attempt_fault(end@),
            r matches Ok(step) ==> step@ == step_after(self.retry@, retry_number as int, end@),
    {
        check_attempt(&end)?;
        match end {
            AttemptEnd::Completed { response } => Ok(
                ExchangeStep::Finish { outcome: ModelExchangeOutcome::Completed { response } },
            ),
            AttemptEnd::Failed { failure } => {
                if retry_number >= self.retry.max_retries || !is_recoverable(failure.kind) {
                    Ok(ExchangeStep::Finish { outcome: ModelExchangeOutcome::Failed { failure } })
                } else {
                    Ok(ExchangeStep::Retry { backoff_ms: self.retry.backoff_ms })
                }
            },
            _ => fail(ErrorCode::Cancelled, "model"),
        }
    }
}

/// Failures that the same route may recover from.
pub open spec fn recoverable(kind: ModelFailureKind) -> bool {
    kind == ModelFailureKind::Timeout || kind == ModelFailureKind::RateLimited || kind
        == ModelFailureKind::Transport || kind == ModelFailureKind::Protocol
}

fn is_recoverable(kind: ModelFailureKind) -> (r: bool)
    ensures
        r == recoverable(kind),
{
    match kind {
        ModelFailureKind::Timeout
        | ModelFailureKind::RateLimited
        | ModelFailureKind::Transport
        | ModelFailureKind::Protocol => true,
        _ => false,
    }
}

/// Why an attempt ended without a response.
pub open spec fn attempt_fault(end: AttemptEndView) -> Option<Fault> {
    match end {
        AttemptEndView::Cancelled => fault(ErrorCode::Cancelled, "model"),
        AttemptEndView::Stopped { error } => match error {
            Some(error) => Some(error),
            None => fault(ErrorCode::DeadlineExceeded, "model.deadline"),
        },
        AttemptEndView::Panicked => fault(ErrorCode::InvalidContract, "model.adapter"),
        AttemptEndView::Completed { .. } => None,
        AttemptEndView::Failed { .. } => None,
    }
}

/// Report an attempt that ended without a response.
pub fn check_attempt(end: &AttemptEnd) -> (r: Result<(), ContractError>)
    ensures
        failure(r) == attempt_fault(end@),
{
    match end {
        AttemptEnd::Cancelled => fail(ErrorCode::Cancelled, "model"),
        AttemptEnd::Stopped { error } => match error {
            Some(error) => Err(error.copy()),
            None => fail(ErrorCode::DeadlineExceeded, "model.deadline"),
        },
        AttemptEnd::Panicked => fail(ErrorCode::InvalidContract, "model.adapter"),
        AttemptEnd::Completed { .. } => Ok(()),
        AttemptEnd::Failed { .. } => Ok(()),
    }
}

/// What follows a recorded attempt: a response or a failure that cannot be recovered from ends the
/// exchange, and so does the last allowed attempt.
pub open spec fn step_after(
    retry: ModelRetryPolicyView,
    retry_number: int,
    end: AttemptEndView,
) -> ExchangeStepView {
    match end {
        AttemptEndView::Failed { failure } => if retry_number < retry.max_retries && recoverable(
            failure.kind,
        ) {
            ExchangeStepView::Retry { backoff_ms: retry.backoff_ms }
        } else {
            ExchangeStepView::Finish { outcome: ModelExchangeOutcomeView::Failed { failure } }
        },
        _ => ExchangeStepView::Finish {
            outcome: ModelExchangeOutcomeView::Completed { response: end->response },
        },
    }
}

/// Why a run must take the routed way.
pub open spec fn routed_fault(snapshot: RunSnapshotView) -> Option<Fault> {
    if snapshot.routing_snapshot_ref is Some {
        fault(ErrorCode::ModelRoutingMismatch, "model.routing_required")
    } else {
        None
    }
}

/// Check that a run has no routing of its own.
pub fn check_unrouted(snapshot: &RunSnapshot) -> (r: Result<(), ContractError>)
    ensures
        failure(r) == routed_fault(snapshot@),
{
    if snapshot.routing_snapshot_ref.is_some() {
        return fail(ErrorCode::ModelRoutingMismatch, "model.routing_required");
    }
    Ok(())
}

/// Why a request may not be sent to an adapter.
pub open spec fn request_fault(
    request: ModelRequestView,
    scope: ScopeView,
    run_scope: ScopeView,
    is_bound: bool,
) -> Option<Fault> {
    if scope != run_scope {
        fault(ErrorCode::AccessDenied, "scope")
    } else if request.defect is Some {
        request.defect
    } else if !is_bound {
        fault(ErrorCode::InvalidReference, "model.binding")
    } else {
        None
    }
}

/// Check a request against the adapter that it is sent to.
pub fn validate(request: &ModelRequest, scope: &Scope, run_scope: &Scope, is_bound: bool) -> (r:
    Result<(), ContractError>)
    ensures
        failure(r) == request_fault(request@, scope@, run_scope@, is_bound),
{
    if !scope.same(run_scope) {
        return fail(ErrorCode::AccessDenied, "scope");
    }
    crate::error::verdict(&request.defect)?;
    if !is_bound {
        return fail(ErrorCode::InvalidReference, "model.binding");
    }
    Ok(())
}

/// Why no adapter was found.
pub open spec fn resolution_fault(resolution: PortResolutionView) -> Option<Fault> {
    match resolution {
        PortResolutionView::Resolved { .. } => None,
        PortResolutionView::Refused { error } => Some(error),
        PortResolutionView::Panicked => fault(ErrorCode::ComponentUnavailable, "model.dispatcher"),
    }
}

fn found_port(resolution: &PortResolution) -> (r: Result<bool, ContractError>)
    ensures
        failure(r) == resolution_fault(resolution@),
        r matches Ok(is_bound) ==> resolution@ == (PortResolutionView::Resolved { is_bound }),
{
    match resolution {
        PortResolution::Resolved { is_bound } => Ok(*is_bound),
        PortResolution::Refused { error } => Err(error.copy()),
        PortResolution::Panicked => fail(ErrorCode::ComponentUnavailable, "model.dispatcher"),
    }
}

/// Check the adapter of a route.
pub fn resolve_route(resolution: &PortResolution) -> (r: Result<(), ContractError>)
    ensures
        failure(r) == or_else(
            resolution_fault(resolution@),
            if resolution@->is_bound {
                None
            } else {
                fault(ErrorCode::ModelBindingInvalid, "model.binding")
            },
        ),
{
    let is_bound = found_port(resolution)?;
    if !is_bound {
        return fail(ErrorCode::ModelBindingInvalid, "model.binding");
    }
    Ok(())
}

/// Check the adapter of a request.
pub fn resolve_model(
    request: &ModelRequest,
    scope: &Scope,
    run_scope: &Scope,
    resolution: &PortResolution,
) -> (r: Result<(), ContractError>)
    ensures
        failure(r) == (if scope@ != run_scope@ {
            fault(ErrorCode::AccessDenied, "scope")
        } else {
            or_else(
                resolution_fault(resolution@),
                request_fault(request@, scope@, run_scope@, resolution@->is_bound),
            )
        }),
{
    if !scope.same(run_scope) {
        return fail(ErrorCode::AccessDenied, "scope");
    }
    let is_bound = found_port(resolution)?;
    validate(request, scope, run_scope, is_bound)
}

/// Why an attempt is made: a retry, the reason of the selected route, or the caller's request.
pub open spec fn reason_of(retry_number: u32, selected: Option<Seq<char>>) -> Seq<char> {
    if retry_number != 0 {
        "same_route_retry"@
    } else {
        match selected {
            Some(code) => code,
            None => "requested_route"@,
        }
    }
}

/// Name why an attempt is made.
pub fn attempt_reason(retry_number: u32, selected: &Option<Id>) -> (r: Id)
    ensures
        r@ == reason_of(retry_number, selected.deep_view()),
{
    proof {
        reveal_strlit("same_route_retry");
        assert(!white_space("same_route_retry"@[0]));
        reveal_strlit("requested_route");
        assert(!white_space("requested_route"@[0]));
    }
    if retry_number != 0 {
        return Id::literal("same_route_retry");
    }
    match selected {
        Some(code) => code.copy(),
        None => Id::literal("requested_route"),
    }
}

/// The request of one physical attempt.
pub open spec fn physical(request: ModelRequestView, attempt_id: Seq<char>) -> ModelRequestView {
    ModelRequestView {
        request_id: attempt_id,
        document: put(
            request.document,
            MemberView { key: "request_id"@, value: JsonView::Text(attempt_id) },
        ),
        ..request
    }
}

/// Put a request under the name of its physical attempt.
pub fn physical_request(request: &ModelRequest, attempt_id: &Id) -> (r: ModelRequest)
    ensures
        r@ == physical(request@, attempt_id@),
{
    let mut physical = request.copy();
    let document = put_member(
        request.document.copy(),
        member("request_id", text(attempt_id.as_str())),
    );
    physical.request_id = attempt_id.copy();
    physical.document = document;
    physical
}

/// What a policy is asked before a model is called.
pub fn invoke_request(run_scope: &Scope, run_id: &Id, request: &ModelRequest) -> (r: InvokeRequest)
    ensures
        r@ == (InvokeRequestView {
            owner_scope: run_scope@,
            resource_id: run_id@,
            route: request@.route,
            purpose: request@.purpose,
        }),
{
    InvokeRequest {
        owner_scope: run_scope.copy(),
        resource_id: run_id.copy(),
        route: request.route.copy(),
        purpose: request.purpose,
    }
}

/// Report that a run stopped while its policy was asked.
pub fn stopped_at_policy(error: &Option<ContractError>) -> (r: ContractError)
    ensures
        Some(r@) == (match error.deep_view() {
            Some(error) => Some(error),
            None => fault(ErrorCode::DeadlineExceeded, "model.policy"),
        }),
{
    match error {
        Some(error) => error.copy(),
        None => ContractError::new(ErrorCode::DeadlineExceeded, "model.policy"),
    }
}

/// How the ledger holds an attempt that ended.
pub open spec fn state_of(end: AttemptEndView) -> ModelAttemptStateView {
    match end {
        AttemptEndView::Completed { .. } => ModelAttemptStateView::Completed,
        AttemptEndView::Failed { failure } => ModelAttemptStateView::Failed { kind: failure.kind },
        _ => ModelAttemptStateView::Unknown,
    }
}

/// What a provider reported.
pub open spec fn metadata_of(end: AttemptEndView) -> ModelResponseMetadataView {
    match end {
        AttemptEndView::Completed { response } => response.metadata,
        AttemptEndView::Failed { failure } => failure.metadata,
        _ => ModelResponseMetadataView {
            provider_request_id: None,
            reported_model_id: None,
            reported_model_version: None,
            usage: None,
        },
    }
}

/// The outcome that an attempt leaves, if it ended with a response.
pub open spec fn outcome_of(end: AttemptEndView) -> Option<ModelExchangeOutcomeView> {
    match end {
        AttemptEndView::Completed { response } => Some(
            ModelExchangeOutcomeView::Completed { response },
        ),
        AttemptEndView::Failed { failure } => Some(ModelExchangeOutcomeView::Failed { failure }),
        _ => None,
    }
}

fn attempt_state(end: &AttemptEnd) -> (r: ModelAttemptState)
    ensures
        r@ == state_of(end@),
{
    match end {
        AttemptEnd::Completed { .. } => ModelAttemptState::Completed,
        AttemptEnd::Failed { failure } => ModelAttemptState::Failed { kind: failure.kind },
        _ => ModelAttemptState::Unknown,
    }
}

fn attempt_metadata(end: &AttemptEnd) -> (r: ModelResponseMetadata)
    ensures
        r@ == metadata_of(end@),
{
    match end {
        AttemptEnd::Completed { response } => response.metadata.copy(),
        AttemptEnd::Failed { failure } => failure.metadata.copy(),
        _ => ModelResponseMetadata {
            provider_request_id: None,
            reported_model_id: None,
            reported_model_version: None,
            usage: None,
        },
    }
}

/// The outcome that an attempt leaves, if it ended with a response.
pub fn attempt_outcome(end: &AttemptEnd) -> (r: Option<ModelExchangeOutcome>)
    ensures
        r.deep_view() == outcome_of(end@),
{
    match end {
        AttemptEnd::Completed { response } => Some(
            ModelExchangeOutcome::Completed { response: response.copy() },
        ),
        AttemptEnd::Failed { failure } => Some(
            ModelExchangeOutcome::Failed { failure: failure.copy() },
        ),
        _ => None,
    }
}

/// The document of a stored response, given the encoded outcome.
pub open spec fn response_document(
    attempt_id: Seq<char>,
    route: ResolvedModelRouteView,
    encoded: JsonView,
) -> JsonView {
    JsonView::Object(
        seq![
            MemberView { key: "outcome"@, value: encoded },
            MemberView { key: "request_id"@, value: JsonView::Text(attempt_id) },
            MemberView { key: "route_digest"@, value: JsonView::Text(route_digest(route)) },
        ],
    )
}

/// The protected record of a response.
pub open spec fn response_record_of(
    attempt_id: Seq<char>,
    route: ResolvedModelRouteView,
    outcome: ModelExchangeOutcomeView,
    encoded: JsonView,
) -> ProtectedRecordView {
    let value = response_document(attempt_id, route, encoded);
    ProtectedRecordView {
        reference: RecordRefView {
            record_id: "model-response-"@ + attempt_id,
            revision: 1,
            digest: digest_of(value),
        },
        value,
        content: RecordContentView::Response(
            StoredModelResponseView {
                request_id: attempt_id,
                route_digest: route_digest(route),
                outcome,
            },
        ),
    }
}

/// Keep a response under the name of its attempt, given the encoded outcome.
pub fn response_record(
    attempt_id: &Id,
    route: &ResolvedModelRoute,
    outcome: ModelExchangeOutcome,
    encoded: Json,
) -> (r: ProtectedRecord)
    ensures
        r@ == response_record_of(attempt_id@, route@, outcome@, encoded@),
{
    proof {
        reveal_strlit("model-response-");
        assert(!white_space("model-response-"@[0]));
    }
    let digest = route.digest();
    let members = with_member(no_members(), "outcome", encoded);
    let members = with_member(members, "request_id", text(attempt_id.as_str()));
    let members = with_member(members, "route_digest", text(digest.as_str()));
    assert(members.deep_view() =~= response_document(
        attempt_id@,
        route@,
        encoded@,
    )->Object_0);
    let stored = StoredModelResponse {
        request_id: attempt_id.copy(),
        route_digest: digest,
        outcome,
    };
    ProtectedRecord::new(
        Id::prefixed("model-response-", attempt_id.as_str()),
        1,
        object(members),
        RecordContent::Response(stored),
    )
}

/// A ledger entry whose attempt has ended.
pub open spec fn ended(
    invocation: ModelInvocationRecordView,
    end: AttemptEndView,
    response_ref: Option<RecordRefView>,
) -> ModelInvocationRecordView {
    ModelInvocationRecordView {
        state: state_of(end),
        response_ref,
        provider_request_id: metadata_of(end).provider_request_id,
        reported_model_id: metadata_of(end).reported_model_id,
        reported_model_version: metadata_of(end).reported_model_version,
        usage: metadata_of(end).usage,
        ..invocation
    }
}

/// What a settlement reported.
pub open spec fn settlement_fault(settlement: SettlementView) -> Option<Fault> {
    match settlement {
        SettlementView::Refused { error } => Some(error),
        SettlementView::Known { .. } => None,
    }
}

/// Why the end of an attempt cannot be recorded.
pub open spec fn end_fault(
    snapshot: RunSnapshotView,
    attempt_id: Seq<char>,
    settlement: SettlementView,
) -> Option<Fault> {
    or_else(
        settlement_fault(settlement),
        if position_in(snapshot.model_ledger, of_attempt(attempt_id)) is None {
            fault(ErrorCode::InvalidSnapshot, "model.attempt")
        } else if snapshot.revision == u64::MAX {
            fault(ErrorCode::RevisionConflict, "model.ledger")
        } else {
            None
        },
    )
}

/// The reference of a record that may be absent.
pub open spec fn reference_of(record: Option<ProtectedRecordView>) -> Option<RecordRefView> {
    match record {
        Some(record) => Some(record.reference),
        None => None,
    }
}

/// The record that may be absent, as a list.
pub open spec fn record_list(record: Option<ProtectedRecordView>) -> Seq<ProtectedRecordView> {
    match record {
        Some(record) => seq![record],
        None => Seq::empty(),
    }
}

/// A checkpoint after its budget was settled.
pub open spec fn settled(snapshot: RunSnapshotView, settlement: SettlementView) -> RunSnapshotView {
    RunSnapshotView {
        revision: (snapshot.revision + 1) as u64,
        usage: BudgetUsageView { elapsed_ms: settlement->elapsed_ms, ..snapshot.usage },
        timing: RunTimingView { last_observed_at_ms: settlement->now_ms, ..snapshot.timing },
        ..snapshot
    }
}

/// A checkpoint with the end of an attempt.
pub open spec fn with_end(
    snapshot: RunSnapshotView,
    attempt_id: Seq<char>,
    end: AttemptEndView,
    record: Option<ProtectedRecordView>,
    settlement: SettlementView,
) -> RunSnapshotView {
    let i = position_in(snapshot.model_ledger, of_attempt(attempt_id))->0;
    RunSnapshotView {
        model_ledger: snapshot.model_ledger.update(
            i,
            ended(snapshot.model_ledger[i], end, reference_of(record)),
        ),
        ..settled(snapshot, settlement)
    }
}

/// The commit of one checkpoint and its new records.
pub open spec fn commit_of(
    expected_revision: u64,
    lease: RunLeaseView,
    now_ms: i64,
    snapshot: RunSnapshotView,
    records: Seq<ProtectedRecordView>,
) -> CommitInputView {
    CommitInputView {
        control_commands: Seq::empty(),
        expected_revision,
        lease,
        now_ms,
        snapshot,
        messages: Seq::empty(),
        events: Seq::empty(),
        records,
    }
}

pub(crate) fn commit_checkpoint(
    expected_revision: u64,
    lease: &RunLease,
    now_ms: i64,
    snapshot: RunSnapshot,
    records: Vec<ProtectedRecord>,
) -> (r: CommitInput)
    ensures
        r@ == commit_of(expected_revision, lease@, now_ms, snapshot@, records.deep_view()),
{
    let input = CommitInput {
        control_commands: Vec::new(),
        expected_revision,
        lease: lease.copy(),
        now_ms,
        snapshot,
        messages: Vec::new(),
        events: Vec::new(),
        records,
    };
    assert(input@ =~= commit_of(expected_revision, lease@, now_ms, snapshot@, records.deep_view()));
    input
}

/// Record the end of an attempt, with its response where it had one.
pub fn record_end(
    snapshot: RunSnapshot,
    lease: &RunLease,
    attempt_id: &Id,
    end: &AttemptEnd,
    record: Option<ProtectedRecord>,
    settlement: &Settlement,
) -> (r: Result<CommitInput, ContractError>)
    ensures
        failure(r) == end_fault(snapshot@, attempt_id@, settlement@),
        r matches Ok(input) ==> input@ == commit_of(
            snapshot@.revision,
            lease@,
            settlement@->now_ms,
            with_end(snapshot@, attempt_id@, end@, record.deep_view(), settlement@),
            record_list(record.deep_view()),
        ),
{
    let ghost before = snapshot@;
    let (elapsed, now): (u64, i64) = match settlement {
        Settlement::Refused { error } => {
            return Err(error.copy());
        },
        Settlement::Known { elapsed_ms, now_ms } => (*elapsed_ms, *now_ms),
    };
    let same = |entry: &ModelInvocationRecord| -> (b: bool)
        ensures
            b == of_attempt(attempt_id@)(entry@),
    { entry.attempt_id.same(attempt_id) };
    let i: usize = match position(&snapshot.model_ledger, same, Ghost(of_attempt(attempt_id@))) {
        Some(i) => i,
        None => {
            return fail(ErrorCode::InvalidSnapshot, "model.attempt");
        },
    };
    if snapshot.revision == u64::MAX {
        return fail(ErrorCode::RevisionConflict, "model.ledger");
    }
    let expected_revision: u64 = snapshot.revision;
    let metadata = attempt_metadata(end);
    let mut invocation = snapshot.model_ledger[i].copy();
    invocation.state = attempt_state(end);
    invocation.response_ref = match &record {
        Some(record) => Some(record.reference().copy()),
        None => None,
    };
    invocation.provider_request_id = metadata.provider_request_id;
    invocation.reported_model_id = metadata.reported_model_id;
    invocation.reported_model_version = metadata.reported_model_version;
    invocation.usage = metadata.usage;
    let ghost item = invocation@;
    assert(item == ended(
        before.model_ledger[i as int],
        end@,
        reference_of(record.deep_view()),
    ));
    let mut next = snapshot;
    next.model_ledger.set(i, invocation);
    assert(next.model_ledger.deep_view() =~= before.model_ledger.update(i as int, item));
    next.revision = expected_revision + 1;
    next.usage.elapsed_ms = elapsed;
    next.timing.last_observed_at_ms = now;
    let mut records: Vec<ProtectedRecord> = Vec::new();
    if let Some(record) = record {
        records.push(record);
    }
    assert(records.deep_view() =~= record_list(record.deep_view()));
    Ok(commit_checkpoint(expected_revision, lease, now, next, records))
}

/// How many physical attempts an exchange makes, given how each would end.
pub open spec fn attempts_made(
    retry: ModelRetryPolicyView,
    ends: Seq<AttemptEndView>,
    retry_number: int,
) -> nat
    decreases ends.len(),
{
    if ends.len() == 0 {
        0
    } else if attempt_fault(ends[0]) is None && step_after(retry, retry_number, ends[0]) is Retry {
        1 + attempts_made(retry, ends.skip(1), retry_number + 1)
    } else {
        1
    }
}

/// An exchange makes at most one attempt more than its retry policy allows retries, however its
/// attempts end.
pub proof fn law_attempts_are_bounded(
    retry: ModelRetryPolicyView,
    ends: Seq<AttemptEndView>,
    retry_number: int,
)
    requires
        0 <= retry_number <= retry.max_retries,
    ensures
        attempts_made(retry, ends, retry_number) <= retry.max_retries - retry_number + 1,
    decreases ends.len(),
{
    if ends.len() > 0 && attempt_fault(ends[0]) is None && step_after(
        retry,
        retry_number,
        ends[0],
    ) is Retry {
        law_attempts_are_bounded(retry, ends.skip(1), retry_number + 1);
    }
}

/// A complete response is never asked for again, and no failure is retried but a recoverable one.
pub proof fn law_only_recoverable_failures_are_retried(
    retry: ModelRetryPolicyView,
    retry_number: int,
    end: AttemptEndView,
)
    requires
        attempt_fault(end) is None,
        step_after(retry, retry_number, end) is Retry,
    ensures
        end is Failed,
        recoverable(end->failure.kind),
        retry_number < retry.max_retries,
{
}

/// Recording the end of an attempt leaves every other attempt as it was.
pub proof fn law_other_attempts_stay(
    snapshot: RunSnapshotView,
    attempt_id: Seq<char>,
    end: AttemptEndView,
    record: Option<ProtectedRecordView>,
    settlement: SettlementView,
    i: int,
)
    requires
        end_fault(snapshot, attempt_id, settlement) is None,
        0 <= i < snapshot.model_ledger.len(),
        snapshot.model_ledger[i].attempt_id != attempt_id,
    ensures
        ({
            let next = with_end(snapshot, attempt_id, end, record, settlement);
            next.model_ledger.len() == snapshot.model_ledger.len() && next.model_ledger[i]
                == snapshot.model_ledger[i]
        }),
{
    lemma_position(snapshot.model_ledger, attempt_id);
}

proof fn lemma_position(entries: Seq<ModelInvocationRecordView>, attempt_id: Seq<char>)
    requires
        position_in(entries, of_attempt(attempt_id)) is Some,
    ensures
        ({
            let i = position_in(entries, of_attempt(attempt_id))->0;
            0 <= i < entries.len() && entries[i].attempt_id == attempt_id
        }),
    decreases entries.len(),
{
    if entries.len() > 0 && !of_attempt(attempt_id)(entries[0]) {
        lemma_position(entries.skip(1), attempt_id);
    }
}

/// While retries are left, an attempt is made again exactly where it failed by a timeout, by a rate
/// limit, in the transport or in the protocol; any other failure ends the exchange with itself.
pub proof fn law_failures_of_passing_kinds_are_retried(
    retry: ModelRetryPolicyView,
    retry_number: int,
    failure: ModelProtocolErrorView,
)
    ensures
        ({
            let step = step_after(retry, retry_number, AttemptEndView::Failed { failure });
            let passing = match failure.kind {
                ModelFailureKind::Timeout => true,
                ModelFailureKind::RateLimited => true,
                ModelFailureKind::Transport => true,
                ModelFailureKind::Protocol => true,
                _ => false,
            };
            &&& retry_number < retry.max_retries && passing <==> step is Retry
            &&& step is Retry ==> step->backoff_ms == retry.backoff_ms
            &&& !(step is Retry) ==> step == (ExchangeStepView::Finish {
                outcome: ModelExchangeOutcomeView::Failed { failure },
            })
        }),
{
}

/// A response ends the exchange with itself at once, however many retries are left; an attempt that
/// left neither a response nor a failure ends it with an error.
pub proof fn law_a_response_ends_the_exchange(
    retry: ModelRetryPolicyView,
    retry_number: int,
    end: AttemptEndView,
)
    ensures
        end matches AttemptEndView::Completed { response } ==> attempt_fault(end) is None
            && step_after(retry, retry_number, end) == (ExchangeStepView::Finish {
            outcome: ModelExchangeOutcomeView::Completed { response },
        }),
        attempt_fault(end) is None <==> end is Completed || end is Failed,
        end matches AttemptEndView::Stopped { error: Some(error) } ==> attempt_fault(end) == Some(
            error,
        ),
        end == (AttemptEndView::Stopped { error: None }) ==> attempt_fault(end)->Some_0.code
            == ErrorCode::DeadlineExceeded,
        end is Cancelled ==> attempt_fault(end)->Some_0.code == ErrorCode::Cancelled,
        end is Panicked ==> attempt_fault(end)->Some_0.code == ErrorCode::InvalidContract,
{
}

/// An exchange whose attempts all fail in a passing way makes every attempt that its policy allows:
/// the first and all retries.
pub proof fn law_every_allowed_retry_is_made(
    retry: ModelRetryPolicyView,
    ends: Seq<AttemptEndView>,
    retry_number: int,
)
    requires
        0 <= retry_number <= retry.max_retries,
        ends.len() > retry.max_retries - retry_number,
        forall|i: int|
            0 <= i < ends.len() ==> (#[trigger] ends[i]) is Failed && (match ends[i]->failure.kind {
                ModelFailureKind::Timeout => true,
                ModelFailureKind::RateLimited => true,
                ModelFailureKind::Transport => true,
                ModelFailureKind::Protocol => true,
                _ => false,
            }),
    ensures
        attempts_made(retry, ends, retry_number) == retry.max_retries - retry_number + 1,
    decreases ends.len(),
{
    assert(ends[0] is Failed);
    if retry_number < retry.max_retries {
        assert forall|i: int| 0 <= i < ends.skip(1).len() implies (#[trigger] ends.skip(1)[i])
            == ends[i + 1] by {}
        law_every_allowed_retry_is_made(retry, ends.skip(1), retry_number + 1);
    }
}

/// The recorded end of an attempt says how it ended and what the provider reported of it, and keeps
/// everything that the attempt was made with.
pub proof fn law_the_end_of_an_attempt_is_recorded(
    snapshot: RunSnapshotView,
    attempt_id: Seq<char>,
    end: AttemptEndView,
    record: Option<ProtectedRecordView>,
    settlement: SettlementView,
    i: int,
)
    requires
        end_fault(snapshot, attempt_id, settlement) is None,
        0 <= i < snapshot.model_ledger.len(),
        snapshot.model_ledger[i].attempt_id == attempt_id,
        forall|k: int|
            0 <= k < snapshot.model_ledger.len() && k != i ==> (
            #[trigger] snapshot.model_ledger[k]).attempt_id != attempt_id,
    ensures
        ({
            let next = with_end(snapshot, attempt_id, end, record, settlement);
            let before = snapshot.model_ledger[i];
            let after = next.model_ledger[i];
            &&& next.model_ledger.len() == snapshot.model_ledger.len()
            &&& after.state is Completed <==> end is Completed
            &&& end matches AttemptEndView::Failed { failure } ==> after.state == (
            ModelAttemptStateView::Failed { kind: failure.kind }) && after.usage
                == failure.metadata.usage && after.provider_request_id
                == failure.metadata.provider_request_id && after.reported_model_id
                == failure.metadata.reported_model_id && after.reported_model_version
                == failure.metadata.reported_model_version
            &&& end matches AttemptEndView::Completed { response } ==> after.usage
                == response.metadata.usage && after.provider_request_id
                == response.metadata.provider_request_id && after.reported_model_id
                == response.metadata.reported_model_id && after.reported_model_version
                == response.metadata.reported_model_version
            &&& !(end is Completed) && !(end is Failed) ==> after.state is Unknown
                && after.usage is None && after.provider_request_id is None
            &&& record matches Some(record) ==> after.response_ref == Some(record.reference)
            &&& record is None ==> after.response_ref is None
            &&& after.attempt_id == before.attempt_id
            &&& after.run_id == before.run_id
            &&& after.route == before.route
            &&& after.purpose == before.purpose
            &&& after.model_step_id == before.model_step_id
            &&& after.request_digest == before.request_digest
            &&& after.configuration == before.configuration
            &&& next.revision == snapshot.revision + 1
            &&& next.usage.elapsed_ms == settlement->elapsed_ms
            &&& next.usage.model_calls == snapshot.usage.model_calls
            &&& next.timing.last_observed_at_ms == settlement->now_ms
            &&& next.timing.deadline_at_ms == snapshot.timing.deadline_at_ms
            &&& next.status == snapshot.status
            &&& next.tool_ledger == snapshot.tool_ledger
        }),
{
    lemma_position(snapshot.model_ledger, attempt_id);
}

/// A retry says that it is one; a first attempt gives the reason of the route that was selected.
pub proof fn law_retries_are_told_from_first_attempts(
    retry_number: u32,
    selected: Option<Seq<char>>,
    other: Option<Seq<char>>,
)
    ensures
        retry_number > 0 ==> reason_of(retry_number, selected) == reason_of(retry_number, other),
        retry_number == 0 && selected is Some ==> reason_of(retry_number, selected)
            == selected->Some_0,
{
}

/// The request of an attempt differs from the request of the step in its name alone, which its
/// document carries too.
pub proof fn law_attempts_send_the_same_request(
    request: ModelRequestView,
    attempt_id: Seq<char>,
    key: Seq<char>,
)
    ensures
        ({
            let sent = physical(request, attempt_id);
            &&& sent.request_id == attempt_id
            &&& sent == (ModelRequestView {
                request_id: sent.request_id,
                document: sent.document,
                ..request
            })
            &&& value_of(sent.document, "request_id"@) == Some(JsonView::Text(attempt_id))
            &&& key != "request_id"@ ==> value_of(sent.document, key) == value_of(
                request.document,
                key,
            )
        }),
{
    let named = MemberView { key: "request_id"@, value: JsonView::Text(attempt_id) };
    lemma_put_value(request.document, named, key);
    lemma_put_value(request.document, named, "request_id"@);
}

/// Where no policy is given nothing is sent again: one attempt is made, however it ends.
pub proof fn law_nothing_is_retried_unasked(ends: Seq<AttemptEndView>)
    requires
        ends.len() > 0,
    ensures
        attempts_made(no_retries(), ends, 0) == 1,
{
}

/// What came back is kept as it came: a response as a response, a failure as a failure, and nothing
/// where neither came. It is kept under the attempt that it answers.
pub proof fn law_answers_are_kept_as_they_came(
    end: AttemptEndView,
    attempt_id: Seq<char>,
    route: ResolvedModelRouteView,
    outcome: ModelExchangeOutcomeView,
    encoded: JsonView,
)
    ensures
        end matches AttemptEndView::Completed { response } ==> outcome_of(end) == Some(
            ModelExchangeOutcomeView::Completed { response },
        ),
        end matches AttemptEndView::Failed { failure } ==> outcome_of(end) == Some(
            ModelExchangeOutcomeView::Failed { failure },
        ),
        !(end is Completed) && !(end is Failed) ==> outcome_of(end) is None,
        ({
            let record = response_record_of(attempt_id, route, outcome, encoded);
            &&& record.reference.digest == digest_of(record.value)
            &&& record.content matches RecordContentView::Response(saved) && saved.request_id
                == attempt_id && saved.route_digest == route_digest(route) && saved.outcome
                == outcome
        }),
{
}

} // verus!
