//! Model routes, requests, responses and the ledger of model attempts.
use vstd::prelude::*;

use crate::data::{map_each, Data};
use crate::encoding::{
    encode_scope, encode_versioned, no_members, number, with_member, with_some,
};
#[allow(unused_imports)]
use crate::encoding::{scope_json, some_member, versioned_json};
use crate::error::ContractError;
#[allow(unused_imports)]
use crate::error::Fault;
use crate::json::{object, put_member, text, Json, Member};
#[allow(unused_imports)]
use crate::json::{put, JsonView, MemberView};
use crate::model_options::ModelConfiguration;
#[allow(unused_imports)]
use crate::model_options::ModelConfigurationView;
use crate::refs::{RecordRef, Scope, VersionedRef};
#[allow(unused_imports)]
use crate::refs::{RecordRefView, ScopeView, VersionedRefView};
use crate::serialization::{canonical_digest, Id, JsonDigest};
#[allow(unused_imports)]
use crate::serialization::digest_of;
#[allow(unused_imports)]
use crate::text::decimal_text;

verus! {

/// What a route promises of its target's version.
#[derive(Debug, Clone, Copy, PartialEq, Eq, Structural)]
pub enum VersionSemantics {
    Pinned,
    Mutable,
    Unverified,
}

impl View for VersionSemantics {
    type V = VersionSemantics;

    open spec fn view(&self) -> VersionSemantics {
        *self
    }
}

impl DeepView for VersionSemantics {
    type V = VersionSemantics;

    open spec fn deep_view(&self) -> VersionSemantics {
        *self
    }
}

impl Data for VersionSemantics {
    fn same(&self, other: &Self) -> (r: bool) {
        *self == *other
    }

    fn copy(&self) -> (r: Self) {
        *self
    }
}

/// What a caller demands of a target's version.
#[derive(Debug, Clone, Copy, PartialEq, Eq, Structural)]
pub enum VersionPolicy {
    AllowMutable,
    RequirePinned,
}

impl View for VersionPolicy {
    type V = VersionPolicy;

    open spec fn view(&self) -> VersionPolicy {
        *self
    }
}

impl DeepView for VersionPolicy {
    type V = VersionPolicy;

    open spec fn deep_view(&self) -> VersionPolicy {
        *self
    }
}

impl Data for VersionPolicy {
    fn same(&self, other: &Self) -> (r: bool) {
        *self == *other
    }

    fn copy(&self) -> (r: Self) {
        *self
    }
}

/// Why a model is invoked.
#[derive(Debug, Clone, Copy, PartialEq, Eq, Structural)]
pub enum ModelPurpose {
    Agent,
    Verification,
    Compaction,
}

impl View for ModelPurpose {
    type V = ModelPurpose;

    open spec fn view(&self) -> ModelPurpose {
        *self
    }
}

impl DeepView for ModelPurpose {
    type V = ModelPurpose;

    open spec fn deep_view(&self) -> ModelPurpose {
        *self
    }
}

impl Data for ModelPurpose {
    fn same(&self, other: &Self) -> (r: bool) {
        *self == *other
    }

    fn copy(&self) -> (r: Self) {
        *self
    }
}

/// Classified failure of a model attempt.
#[derive(Debug, Clone, Copy, PartialEq, Eq, Structural)]
pub enum ModelFailureKind {
    Timeout,
    RateLimited,
    Transport,
    Protocol,
    Unavailable,
    Rejected,
    Authentication,
}

impl View for ModelFailureKind {
    type V = ModelFailureKind;

    open spec fn view(&self) -> ModelFailureKind {
        *self
    }
}

impl DeepView for ModelFailureKind {
    type V = ModelFailureKind;

    open spec fn deep_view(&self) -> ModelFailureKind {
        *self
    }
}

impl Data for ModelFailureKind {
    fn same(&self, other: &Self) -> (r: bool) {
        *self == *other
    }

    fn copy(&self) -> (r: Self) {
        *self
    }
}

/// Why a response ended.
#[derive(Debug, Clone, Copy, PartialEq, Eq, Structural)]
pub enum ModelFinish {
    Stop,
    ToolCalls,
    Length,
}

impl View for ModelFinish {
    type V = ModelFinish;

    open spec fn view(&self) -> ModelFinish {
        *self
    }
}

impl DeepView for ModelFinish {
    type V = ModelFinish;

    open spec fn deep_view(&self) -> ModelFinish {
        *self
    }
}

impl Data for ModelFinish {
    fn same(&self, other: &Self) -> (r: bool) {
        *self == *other
    }

    fn copy(&self) -> (r: Self) {
        *self
    }
}

/// Conversational role in a provider request.
#[derive(Debug, Clone, Copy, PartialEq, Eq, Structural)]
pub enum ModelRole {
    System,
    User,
    Assistant,
    Tool,
}

impl View for ModelRole {
    type V = ModelRole;

    open spec fn view(&self) -> ModelRole {
        *self
    }
}

impl DeepView for ModelRole {
    type V = ModelRole;

    open spec fn deep_view(&self) -> ModelRole {
        *self
    }
}

impl Data for ModelRole {
    fn same(&self, other: &Self) -> (r: bool) {
        *self == *other
    }

    fn copy(&self) -> (r: Self) {
        *self
    }
}

/// Provider interface that a target speaks.
#[derive(Debug)]
pub struct ApiContract {
    pub name: Id,
    pub version: Id,
}

#[verifier::ext_equal]
pub struct ApiContractView {
    pub name: Seq<char>,
    pub version: Seq<char>,
}

impl View for ApiContract {
    type V = ApiContractView;

    open spec fn view(&self) -> ApiContractView {
        ApiContractView {
            name: self.name.deep_view(),
            version: self.version.deep_view(),
        }
    }
}

impl DeepView for ApiContract {
    type V = ApiContractView;

    open spec fn deep_view(&self) -> ApiContractView {
        self@
    }
}

impl Data for ApiContract {
    fn same(&self, other: &Self) -> (r: bool) {
        self.name.same(&other.name)
            && self.version.same(&other.version)
    }

    fn copy(&self) -> (r: Self) {
        ApiContract {
            name: self.name.copy(),
            version: self.version.copy(),
        }
    }
}

/// Complete immutable provider, model, interface, target and connection selection.
#[derive(Debug)]
pub struct ResolvedModelRoute {
    pub binding: VersionedRef,
    pub catalog_revision: Id,
    pub routing_policy_revision: Id,
    pub requested_model: Id,
    pub model_id: Id,
    pub model_version: Id,
    pub version_semantics: VersionSemantics,
    pub provider: Id,
    pub target: Vec<Member>,
    pub deployment_revision: Option<Id>,
    pub api_contract: ApiContract,
    pub adapter: VersionedRef,
    pub capability_revision: Id,
    pub connection_ref: VersionedRef,
}

#[verifier::ext_equal]
pub struct ResolvedModelRouteView {
    pub binding: VersionedRefView,
    pub catalog_revision: Seq<char>,
    pub routing_policy_revision: Seq<char>,
    pub requested_model: Seq<char>,
    pub model_id: Seq<char>,
    pub model_version: Seq<char>,
    pub version_semantics: VersionSemantics,
    pub provider: Seq<char>,
    pub target: Seq<MemberView>,
    pub deployment_revision: Option<Seq<char>>,
    pub api_contract: ApiContractView,
    pub adapter: VersionedRefView,
    pub capability_revision: Seq<char>,
    pub connection_ref: VersionedRefView,
}

impl View for ResolvedModelRoute {
    type V = ResolvedModelRouteView;

    open spec fn view(&self) -> ResolvedModelRouteView {
        ResolvedModelRouteView {
            binding: self.binding.deep_view(),
            catalog_revision: self.catalog_revision.deep_view(),
            routing_policy_revision: self.routing_policy_revision.deep_view(),
            requested_model: self.requested_model.deep_view(),
            model_id: self.model_id.deep_view(),
            model_version: self.model_version.deep_view(),
            version_semantics: self.version_semantics.deep_view(),
            provider: self.provider.deep_view(),
            target: self.target.deep_view(),
            deployment_revision: self.deployment_revision.deep_view(),
            api_contract: self.api_contract.deep_view(),
            adapter: self.adapter.deep_view(),
            capability_revision: self.capability_revision.deep_view(),
            connection_ref: self.connection_ref.deep_view(),
        }
    }
}

impl DeepView for ResolvedModelRoute {
    type V = ResolvedModelRouteView;

    open spec fn deep_view(&self) -> ResolvedModelRouteView {
        self@
    }
}

impl Data for ResolvedModelRoute {
    fn same(&self, other: &Self) -> (r: bool) {
        self.binding.same(&other.binding)
            && self.catalog_revision.same(&other.catalog_revision)
            && self.routing_policy_revision.same(&other.routing_policy_revision)
            && self.requested_model.same(&other.requested_model)
            && self.model_id.same(&other.model_id)
            && self.model_version.same(&other.model_version)
            && self.version_semantics.same(&other.version_semantics)
            && self.provider.same(&other.provider)
            && self.target.same(&other.target)
            && self.deployment_revision.same(&other.deployment_revision)
            && self.api_contract.same(&other.api_contract)
            && self.adapter.same(&other.adapter)
            && self.capability_revision.same(&other.capability_revision)
            && self.connection_ref.same(&other.connection_ref)
    }

    fn copy(&self) -> (r: Self) {
        ResolvedModelRoute {
            binding: self.binding.copy(),
            catalog_revision: self.catalog_revision.copy(),
            routing_policy_revision: self.routing_policy_revision.copy(),
            requested_model: self.requested_model.copy(),
            model_id: self.model_id.copy(),
            model_version: self.model_version.copy(),
            version_semantics: self.version_semantics.copy(),
            provider: self.provider.copy(),
            target: self.target.copy(),
            deployment_revision: self.deployment_revision.copy(),
            api_contract: self.api_contract.copy(),
            adapter: self.adapter.copy(),
            capability_revision: self.capability_revision.copy(),
            connection_ref: self.connection_ref.copy(),
        }
    }
}

/// Tokens that a provider reports.
#[derive(Debug)]
pub struct ModelUsage {
    pub input_tokens: Option<u64>,
    pub output_tokens: Option<u64>,
}

#[verifier::ext_equal]
pub struct ModelUsageView {
    pub input_tokens: Option<u64>,
    pub output_tokens: Option<u64>,
}

impl View for ModelUsage {
    type V = ModelUsageView;

    open spec fn view(&self) -> ModelUsageView {
        ModelUsageView {
            input_tokens: self.input_tokens.deep_view(),
            output_tokens: self.output_tokens.deep_view(),
        }
    }
}

impl DeepView for ModelUsage {
    type V = ModelUsageView;

    open spec fn deep_view(&self) -> ModelUsageView {
        self@
    }
}

impl Data for ModelUsage {
    fn same(&self, other: &Self) -> (r: bool) {
        self.input_tokens.same(&other.input_tokens)
            && self.output_tokens.same(&other.output_tokens)
    }

    fn copy(&self) -> (r: Self) {
        ModelUsage {
            input_tokens: self.input_tokens.copy(),
            output_tokens: self.output_tokens.copy(),
        }
    }
}

/// What a provider reports of a response.
#[derive(Debug)]
pub struct ModelResponseMetadata {
    pub provider_request_id: Option<Id>,
    pub reported_model_id: Option<Id>,
    pub reported_model_version: Option<Id>,
    pub usage: Option<ModelUsage>,
}

#[verifier::ext_equal]
pub struct ModelResponseMetadataView {
    pub provider_request_id: Option<Seq<char>>,
    pub reported_model_id: Option<Seq<char>>,
    pub reported_model_version: Option<Seq<char>>,
    pub usage: Option<ModelUsageView>,
}

impl View for ModelResponseMetadata {
    type V = ModelResponseMetadataView;

    open spec fn view(&self) -> ModelResponseMetadataView {
        ModelResponseMetadataView {
            provider_request_id: self.provider_request_id.deep_view(),
            reported_model_id: self.reported_model_id.deep_view(),
            reported_model_version: self.reported_model_version.deep_view(),
            usage: self.usage.deep_view(),
        }
    }
}

impl DeepView for ModelResponseMetadata {
    type V = ModelResponseMetadataView;

    open spec fn deep_view(&self) -> ModelResponseMetadataView {
        self@
    }
}

impl Data for ModelResponseMetadata {
    fn same(&self, other: &Self) -> (r: bool) {
        self.provider_request_id.same(&other.provider_request_id)
            && self.reported_model_id.same(&other.reported_model_id)
            && self.reported_model_version.same(&other.reported_model_version)
            && self.usage.same(&other.usage)
    }

    fn copy(&self) -> (r: Self) {
        ModelResponseMetadata {
            provider_request_id: self.provider_request_id.copy(),
            reported_model_id: self.reported_model_id.copy(),
            reported_model_version: self.reported_model_version.copy(),
            usage: self.usage.copy(),
        }
    }
}

/// A tool call as a response proposes it.
#[derive(Debug)]
pub struct ProposedToolCall {
    pub provider_call_id: Id,
    pub name: Id,
    pub raw_arguments: Option<String>,
}

#[verifier::ext_equal]
pub struct ProposedToolCallView {
    pub provider_call_id: Seq<char>,
    pub name: Seq<char>,
    pub raw_arguments: Option<Seq<char>>,
}

impl View for ProposedToolCall {
    type V = ProposedToolCallView;

    open spec fn view(&self) -> ProposedToolCallView {
        ProposedToolCallView {
            provider_call_id: self.provider_call_id.deep_view(),
            name: self.name.deep_view(),
            raw_arguments: self.raw_arguments.deep_view(),
        }
    }
}

impl DeepView for ProposedToolCall {
    type V = ProposedToolCallView;

    open spec fn deep_view(&self) -> ProposedToolCallView {
        self@
    }
}

impl Data for ProposedToolCall {
    fn same(&self, other: &Self) -> (r: bool) {
        self.provider_call_id.same(&other.provider_call_id)
            && self.name.same(&other.name)
            && self.raw_arguments.same(&other.raw_arguments)
    }

    fn copy(&self) -> (r: Self) {
        ProposedToolCall {
            provider_call_id: self.provider_call_id.copy(),
            name: self.name.copy(),
            raw_arguments: self.raw_arguments.copy(),
        }
    }
}

/// Provider state that a later request may continue from.
#[derive(Debug)]
pub struct ModelContinuation {
    pub route_digest: JsonDigest,
}

#[verifier::ext_equal]
pub struct ModelContinuationView {
    pub route_digest: Seq<char>,
}

impl View for ModelContinuation {
    type V = ModelContinuationView;

    open spec fn view(&self) -> ModelContinuationView {
        ModelContinuationView {
            route_digest: self.route_digest.deep_view(),
        }
    }
}

impl DeepView for ModelContinuation {
    type V = ModelContinuationView;

    open spec fn deep_view(&self) -> ModelContinuationView {
        self@
    }
}

impl Data for ModelContinuation {
    fn same(&self, other: &Self) -> (r: bool) {
        self.route_digest.same(&other.route_digest)
    }

    fn copy(&self) -> (r: Self) {
        ModelContinuation {
            route_digest: self.route_digest.copy(),
        }
    }
}

/// A complete model response.
#[derive(Debug)]
pub struct ModelResponse {
    pub request_id: Id,
    pub route_digest: JsonDigest,
    pub continuation: Vec<ModelContinuation>,
    pub finish: ModelFinish,
    pub text: String,
    pub tool_calls: Vec<ProposedToolCall>,
    pub metadata: ModelResponseMetadata,
}

#[verifier::ext_equal]
pub struct ModelResponseView {
    pub request_id: Seq<char>,
    pub route_digest: Seq<char>,
    pub continuation: Seq<ModelContinuationView>,
    pub finish: ModelFinish,
    pub text: Seq<char>,
    pub tool_calls: Seq<ProposedToolCallView>,
    pub metadata: ModelResponseMetadataView,
}

impl View for ModelResponse {
    type V = ModelResponseView;

    open spec fn view(&self) -> ModelResponseView {
        ModelResponseView {
            request_id: self.request_id.deep_view(),
            route_digest: self.route_digest.deep_view(),
            continuation: self.continuation.deep_view(),
            finish: self.finish.deep_view(),
            text: self.text.deep_view(),
            tool_calls: self.tool_calls.deep_view(),
            metadata: self.metadata.deep_view(),
        }
    }
}

impl DeepView for ModelResponse {
    type V = ModelResponseView;

    open spec fn deep_view(&self) -> ModelResponseView {
        self@
    }
}

impl Data for ModelResponse {
    fn same(&self, other: &Self) -> (r: bool) {
        self.request_id.same(&other.request_id)
            && self.route_digest.same(&other.route_digest)
            && self.continuation.same(&other.continuation)
            && self.finish.same(&other.finish)
            && self.text.same(&other.text)
            && self.tool_calls.same(&other.tool_calls)
            && self.metadata.same(&other.metadata)
    }

    fn copy(&self) -> (r: Self) {
        ModelResponse {
            request_id: self.request_id.copy(),
            route_digest: self.route_digest.copy(),
            continuation: self.continuation.copy(),
            finish: self.finish.copy(),
            text: self.text.copy(),
            tool_calls: self.tool_calls.copy(),
            metadata: self.metadata.copy(),
        }
    }
}

/// A classified failure with what the provider reported.
#[derive(Debug)]
pub struct ModelProtocolError {
    pub kind: ModelFailureKind,
    pub metadata: ModelResponseMetadata,
}

#[verifier::ext_equal]
pub struct ModelProtocolErrorView {
    pub kind: ModelFailureKind,
    pub metadata: ModelResponseMetadataView,
}

impl View for ModelProtocolError {
    type V = ModelProtocolErrorView;

    open spec fn view(&self) -> ModelProtocolErrorView {
        ModelProtocolErrorView {
            kind: self.kind.deep_view(),
            metadata: self.metadata.deep_view(),
        }
    }
}

impl DeepView for ModelProtocolError {
    type V = ModelProtocolErrorView;

    open spec fn deep_view(&self) -> ModelProtocolErrorView {
        self@
    }
}

impl Data for ModelProtocolError {
    fn same(&self, other: &Self) -> (r: bool) {
        self.kind.same(&other.kind)
            && self.metadata.same(&other.metadata)
    }

    fn copy(&self) -> (r: Self) {
        ModelProtocolError {
            kind: self.kind.copy(),
            metadata: self.metadata.copy(),
        }
    }
}

/// Where a model attempt stands.
#[derive(Debug)]
pub enum ModelAttemptState {
    Reserved,
    Completed,
    Failed {
        kind: ModelFailureKind,
    },
    Interrupted,
    Unknown,
}

#[verifier::ext_equal]
pub enum ModelAttemptStateView {
    Reserved,
    Completed,
    Failed {
        kind: ModelFailureKind,
    },
    Interrupted,
    Unknown,
}

impl View for ModelAttemptState {
    type V = ModelAttemptStateView;

    open spec fn view(&self) -> ModelAttemptStateView {
        match self {
            ModelAttemptState::Reserved => ModelAttemptStateView::Reserved,
            ModelAttemptState::Completed => ModelAttemptStateView::Completed,
            ModelAttemptState::Failed { kind } => ModelAttemptStateView::Failed { kind: kind.deep_view() },
            ModelAttemptState::Interrupted => ModelAttemptStateView::Interrupted,
            ModelAttemptState::Unknown => ModelAttemptStateView::Unknown,
        }
    }
}

impl DeepView for ModelAttemptState {
    type V = ModelAttemptStateView;

    open spec fn deep_view(&self) -> ModelAttemptStateView {
        self@
    }
}

impl Data for ModelAttemptState {
    fn same(&self, other: &Self) -> (r: bool) {
        match (self, other) {
            (ModelAttemptState::Reserved, ModelAttemptState::Reserved) => true,
            (ModelAttemptState::Completed, ModelAttemptState::Completed) => true,
            (ModelAttemptState::Failed { kind: kind1 }, ModelAttemptState::Failed { kind: kind2 }) => kind1.same(kind2),
            (ModelAttemptState::Interrupted, ModelAttemptState::Interrupted) => true,
            (ModelAttemptState::Unknown, ModelAttemptState::Unknown) => true,
            _ => false,
        }
    }

    fn copy(&self) -> (r: Self) {
        match self {
            ModelAttemptState::Reserved => ModelAttemptState::Reserved,
            ModelAttemptState::Completed => ModelAttemptState::Completed,
            ModelAttemptState::Failed { kind } => ModelAttemptState::Failed { kind: kind.copy() },
            ModelAttemptState::Interrupted => ModelAttemptState::Interrupted,
            ModelAttemptState::Unknown => ModelAttemptState::Unknown,
        }
    }
}

/// One physical model attempt.
#[derive(Debug)]
pub struct ModelInvocationRecord {
    pub run_id: Id,
    pub model_step_id: Id,
    pub attempt_id: Id,
    pub purpose: ModelPurpose,
    pub route: ResolvedModelRoute,
    pub selection_reason: Id,
    pub configuration: Option<ModelConfiguration>,
    pub prepared_step_ref: Option<RecordRef>,
    pub request_digest: JsonDigest,
    pub inspection_ref: Option<RecordRef>,
    pub state: ModelAttemptState,
    pub response_ref: Option<RecordRef>,
    pub provider_request_id: Option<Id>,
    pub reported_model_id: Option<Id>,
    pub reported_model_version: Option<Id>,
    pub usage: Option<ModelUsage>,
}

#[verifier::ext_equal]
pub struct ModelInvocationRecordView {
    pub run_id: Seq<char>,
    pub model_step_id: Seq<char>,
    pub attempt_id: Seq<char>,
    pub purpose: ModelPurpose,
    pub route: ResolvedModelRouteView,
    pub selection_reason: Seq<char>,
    pub configuration: Option<ModelConfigurationView>,
    pub prepared_step_ref: Option<RecordRefView>,
    pub request_digest: Seq<char>,
    pub inspection_ref: Option<RecordRefView>,
    pub state: ModelAttemptStateView,
    pub response_ref: Option<RecordRefView>,
    pub provider_request_id: Option<Seq<char>>,
    pub reported_model_id: Option<Seq<char>>,
    pub reported_model_version: Option<Seq<char>>,
    pub usage: Option<ModelUsageView>,
}

impl View for ModelInvocationRecord {
    type V = ModelInvocationRecordView;

    open spec fn view(&self) -> ModelInvocationRecordView {
        ModelInvocationRecordView {
            run_id: self.run_id.deep_view(),
            model_step_id: self.model_step_id.deep_view(),
            attempt_id: self.attempt_id.deep_view(),
            purpose: self.purpose.deep_view(),
            route: self.route.deep_view(),
            selection_reason: self.selection_reason.deep_view(),
            configuration: self.configuration.deep_view(),
            prepared_step_ref: self.prepared_step_ref.deep_view(),
            request_digest: self.request_digest.deep_view(),
            inspection_ref: self.inspection_ref.deep_view(),
            state: self.state.deep_view(),
            response_ref: self.response_ref.deep_view(),
            provider_request_id: self.provider_request_id.deep_view(),
            reported_model_id: self.reported_model_id.deep_view(),
            reported_model_version: self.reported_model_version.deep_view(),
            usage: self.usage.deep_view(),
        }
    }
}

impl DeepView for ModelInvocationRecord {
    type V = ModelInvocationRecordView;

    open spec fn deep_view(&self) -> ModelInvocationRecordView {
        self@
    }
}

impl Data for ModelInvocationRecord {
    fn same(&self, other: &Self) -> (r: bool) {
        self.run_id.same(&other.run_id)
            && self.model_step_id.same(&other.model_step_id)
            && self.attempt_id.same(&other.attempt_id)
            && self.purpose.same(&other.purpose)
            && self.route.same(&other.route)
            && self.selection_reason.same(&other.selection_reason)
            && self.configuration.same(&other.configuration)
            && self.prepared_step_ref.same(&other.prepared_step_ref)
            && self.request_digest.same(&other.request_digest)
            && self.inspection_ref.same(&other.inspection_ref)
            && self.state.same(&other.state)
            && self.response_ref.same(&other.response_ref)
            && self.provider_request_id.same(&other.provider_request_id)
            && self.reported_model_id.same(&other.reported_model_id)
            && self.reported_model_version.same(&other.reported_model_version)
            && self.usage.same(&other.usage)
    }

    fn copy(&self) -> (r: Self) {
        ModelInvocationRecord {
            run_id: self.run_id.copy(),
            model_step_id: self.model_step_id.copy(),
            attempt_id: self.attempt_id.copy(),
            purpose: self.purpose.copy(),
            route: self.route.copy(),
            selection_reason: self.selection_reason.copy(),
            configuration: self.configuration.copy(),
            prepared_step_ref: self.prepared_step_ref.copy(),
            request_digest: self.request_digest.copy(),
            inspection_ref: self.inspection_ref.copy(),
            state: self.state.copy(),
            response_ref: self.response_ref.copy(),
            provider_request_id: self.provider_request_id.copy(),
            reported_model_id: self.reported_model_id.copy(),
            reported_model_version: self.reported_model_version.copy(),
            usage: self.usage.copy(),
        }
    }
}

/// A tool as a model sees it.
#[derive(Debug)]
pub struct ModelTool {
    pub name: Id,
    pub description: String,
    pub model_input_schema: Json,
}

#[verifier::ext_equal]
pub struct ModelToolView {
    pub name: Seq<char>,
    pub description: Seq<char>,
    pub model_input_schema: JsonView,
}

impl View for ModelTool {
    type V = ModelToolView;

    open spec fn view(&self) -> ModelToolView {
        ModelToolView {
            name: self.name.deep_view(),
            description: self.description.deep_view(),
            model_input_schema: self.model_input_schema.deep_view(),
        }
    }
}

impl DeepView for ModelTool {
    type V = ModelToolView;

    open spec fn deep_view(&self) -> ModelToolView {
        self@
    }
}

impl Data for ModelTool {
    fn same(&self, other: &Self) -> (r: bool) {
        self.name.same(&other.name)
            && self.description.same(&other.description)
            && self.model_input_schema.same(&other.model_input_schema)
    }

    fn copy(&self) -> (r: Self) {
        ModelTool {
            name: self.name.copy(),
            description: self.description.copy(),
            model_input_schema: self.model_input_schema.copy(),
        }
    }
}

/// One piece of a provider message.
#[derive(Debug)]
pub enum ModelContent {
    Text {
        text: String,
    },
    Json {
        value: Json,
    },
    ToolCall {
        call_id: Id,
        name: Id,
        arguments: Json,
    },
    ToolResult {
        call_id: Id,
        content: Json,
    },
}

#[verifier::ext_equal]
pub enum ModelContentView {
    Text {
        text: Seq<char>,
    },
    Json {
        value: JsonView,
    },
    ToolCall {
        call_id: Seq<char>,
        name: Seq<char>,
        arguments: JsonView,
    },
    ToolResult {
        call_id: Seq<char>,
        content: JsonView,
    },
}

impl View for ModelContent {
    type V = ModelContentView;

    open spec fn view(&self) -> ModelContentView {
        match self {
            ModelContent::Text { text } => ModelContentView::Text { text: text.deep_view() },
            ModelContent::Json { value } => ModelContentView::Json { value: value.deep_view() },
            ModelContent::ToolCall { call_id, name, arguments } => ModelContentView::ToolCall { call_id: call_id.deep_view(), name: name.deep_view(), arguments: arguments.deep_view() },
            ModelContent::ToolResult { call_id, content } => ModelContentView::ToolResult { call_id: call_id.deep_view(), content: content.deep_view() },
        }
    }
}

impl DeepView for ModelContent {
    type V = ModelContentView;

    open spec fn deep_view(&self) -> ModelContentView {
        self@
    }
}

impl Data for ModelContent {
    fn same(&self, other: &Self) -> (r: bool) {
        match (self, other) {
            (ModelContent::Text { text: text1 }, ModelContent::Text { text: text2 }) => text1.same(text2),
            (ModelContent::Json { value: value1 }, ModelContent::Json { value: value2 }) => value1.same(value2),
            (ModelContent::ToolCall { call_id: call_id1, name: name1, arguments: arguments1 }, ModelContent::ToolCall { call_id: call_id2, name: name2, arguments: arguments2 }) => call_id1.same(call_id2) && name1.same(name2) && arguments1.same(arguments2),
            (ModelContent::ToolResult { call_id: call_id1, content: content1 }, ModelContent::ToolResult { call_id: call_id2, content: content2 }) => call_id1.same(call_id2) && content1.same(content2),
            _ => false,
        }
    }

    fn copy(&self) -> (r: Self) {
        match self {
            ModelContent::Text { text } => ModelContent::Text { text: text.copy() },
            ModelContent::Json { value } => ModelContent::Json { value: value.copy() },
            ModelContent::ToolCall { call_id, name, arguments } => ModelContent::ToolCall { call_id: call_id.copy(), name: name.copy(), arguments: arguments.copy() },
            ModelContent::ToolResult { call_id, content } => ModelContent::ToolResult { call_id: call_id.copy(), content: content.copy() },
        }
    }
}

/// One provider message.
#[derive(Debug)]
pub struct ModelMessage {
    pub role: ModelRole,
    pub content: Vec<ModelContent>,
}

#[verifier::ext_equal]
pub struct ModelMessageView {
    pub role: ModelRole,
    pub content: Seq<ModelContentView>,
}

impl View for ModelMessage {
    type V = ModelMessageView;

    open spec fn view(&self) -> ModelMessageView {
        ModelMessageView {
            role: self.role.deep_view(),
            content: self.content.deep_view(),
        }
    }
}

impl DeepView for ModelMessage {
    type V = ModelMessageView;

    open spec fn deep_view(&self) -> ModelMessageView {
        self@
    }
}

impl Data for ModelMessage {
    fn same(&self, other: &Self) -> (r: bool) {
        self.role.same(&other.role)
            && self.content.same(&other.content)
    }

    fn copy(&self) -> (r: Self) {
        ModelMessage {
            role: self.role.copy(),
            content: self.content.copy(),
        }
    }
}

/// A provider-neutral model request.
#[derive(Debug)]
pub struct ModelRequest {
    pub request_id: Id,
    pub purpose: ModelPurpose,
    pub route: ResolvedModelRoute,
    pub messages: Vec<ModelMessage>,
    pub tools: Vec<ModelTool>,
    pub options: Vec<Member>,
    pub max_output_tokens: u64,
    /// The encoded request.
    pub document: Vec<Member>,
    /// What structural validation reported when the request was decoded.
    pub defect: Option<ContractError>,
}

#[verifier::ext_equal]
pub struct ModelRequestView {
    pub request_id: Seq<char>,
    pub purpose: ModelPurpose,
    pub route: ResolvedModelRouteView,
    pub messages: Seq<ModelMessageView>,
    pub tools: Seq<ModelToolView>,
    pub options: Seq<MemberView>,
    pub max_output_tokens: u64,
    pub document: Seq<MemberView>,
    pub defect: Option<Fault>,
}

impl View for ModelRequest {
    type V = ModelRequestView;

    open spec fn view(&self) -> ModelRequestView {
        ModelRequestView {
            request_id: self.request_id.deep_view(),
            purpose: self.purpose.deep_view(),
            route: self.route.deep_view(),
            messages: self.messages.deep_view(),
            tools: self.tools.deep_view(),
            options: self.options.deep_view(),
            max_output_tokens: self.max_output_tokens.deep_view(),
            document: self.document.deep_view(),
            defect: self.defect.deep_view(),
        }
    }
}

impl DeepView for ModelRequest {
    type V = ModelRequestView;

    open spec fn deep_view(&self) -> ModelRequestView {
        self@
    }
}

impl Data for ModelRequest {
    fn same(&self, other: &Self) -> (r: bool) {
        self.request_id.same(&other.request_id)
            && self.purpose.same(&other.purpose)
            && self.route.same(&other.route)
            && self.messages.same(&other.messages)
            && self.tools.same(&other.tools)
            && self.options.same(&other.options)
            && self.max_output_tokens.same(&other.max_output_tokens)
            && self.document.same(&other.document)
            && self.defect.same(&other.defect)
    }

    fn copy(&self) -> (r: Self) {
        ModelRequest {
            request_id: self.request_id.copy(),
            purpose: self.purpose.copy(),
            route: self.route.copy(),
            messages: self.messages.copy(),
            tools: self.tools.copy(),
            options: self.options.copy(),
            max_output_tokens: self.max_output_tokens.copy(),
            document: self.document.copy(),
            defect: self.defect.copy(),
        }
    }
}

/// Everything that a routing decision depends on.
#[derive(Debug)]
pub struct RouteRequest {
    pub scope: Scope,
    pub model_binding: Id,
    pub purpose: ModelPurpose,
    pub required_capabilities: Vec<Id>,
    pub options: Vec<Member>,
    pub input_tokens: u64,
    pub max_output_tokens: u64,
    pub version_policy: VersionPolicy,
    pub previous_route: Option<ResolvedModelRoute>,
    pub previous_failure: Option<ModelFailureKind>,
    pub allowed_bindings: Vec<Id>,
}

#[verifier::ext_equal]
pub struct RouteRequestView {
    pub scope: ScopeView,
    pub model_binding: Seq<char>,
    pub purpose: ModelPurpose,
    pub required_capabilities: Seq<Seq<char>>,
    pub options: Seq<MemberView>,
    pub input_tokens: u64,
    pub max_output_tokens: u64,
    pub version_policy: VersionPolicy,
    pub previous_route: Option<ResolvedModelRouteView>,
    pub previous_failure: Option<ModelFailureKind>,
    pub allowed_bindings: Seq<Seq<char>>,
}

impl View for RouteRequest {
    type V = RouteRequestView;

    open spec fn view(&self) -> RouteRequestView {
        RouteRequestView {
            scope: self.scope.deep_view(),
            model_binding: self.model_binding.deep_view(),
            purpose: self.purpose.deep_view(),
            required_capabilities: self.required_capabilities.deep_view(),
            options: self.options.deep_view(),
            input_tokens: self.input_tokens.deep_view(),
            max_output_tokens: self.max_output_tokens.deep_view(),
            version_policy: self.version_policy.deep_view(),
            previous_route: self.previous_route.deep_view(),
            previous_failure: self.previous_failure.deep_view(),
            allowed_bindings: self.allowed_bindings.deep_view(),
        }
    }
}

impl DeepView for RouteRequest {
    type V = RouteRequestView;

    open spec fn deep_view(&self) -> RouteRequestView {
        self@
    }
}

impl Data for RouteRequest {
    fn same(&self, other: &Self) -> (r: bool) {
        self.scope.same(&other.scope)
            && self.model_binding.same(&other.model_binding)
            && self.purpose.same(&other.purpose)
            && self.required_capabilities.same(&other.required_capabilities)
            && self.options.same(&other.options)
            && self.input_tokens.same(&other.input_tokens)
            && self.max_output_tokens.same(&other.max_output_tokens)
            && self.version_policy.same(&other.version_policy)
            && self.previous_route.same(&other.previous_route)
            && self.previous_failure.same(&other.previous_failure)
            && self.allowed_bindings.same(&other.allowed_bindings)
    }

    fn copy(&self) -> (r: Self) {
        RouteRequest {
            scope: self.scope.copy(),
            model_binding: self.model_binding.copy(),
            purpose: self.purpose.copy(),
            required_capabilities: self.required_capabilities.copy(),
            options: self.options.copy(),
            input_tokens: self.input_tokens.copy(),
            max_output_tokens: self.max_output_tokens.copy(),
            version_policy: self.version_policy.copy(),
            previous_route: self.previous_route.copy(),
            previous_failure: self.previous_failure.copy(),
            allowed_bindings: self.allowed_bindings.copy(),
        }
    }
}

/// Logical input of one model step.
#[derive(Debug)]
pub struct RoutedModelInput {
    pub model_step_id: Id,
    pub routing: RouteRequest,
}

#[verifier::ext_equal]
pub struct RoutedModelInputView {
    pub model_step_id: Seq<char>,
    pub routing: RouteRequestView,
}

impl View for RoutedModelInput {
    type V = RoutedModelInputView;

    open spec fn view(&self) -> RoutedModelInputView {
        RoutedModelInputView {
            model_step_id: self.model_step_id.deep_view(),
            routing: self.routing.deep_view(),
        }
    }
}

impl DeepView for RoutedModelInput {
    type V = RoutedModelInputView;

    open spec fn deep_view(&self) -> RoutedModelInputView {
        self@
    }
}

impl Data for RoutedModelInput {
    fn same(&self, other: &Self) -> (r: bool) {
        self.model_step_id.same(&other.model_step_id)
            && self.routing.same(&other.routing)
    }

    fn copy(&self) -> (r: Self) {
        RoutedModelInput {
            model_step_id: self.model_step_id.copy(),
            routing: self.routing.copy(),
        }
    }
}


/// The encoded version semantics.
pub open spec fn semantics_json(v: VersionSemantics) -> JsonView {
    match v {
        VersionSemantics::Pinned => JsonView::Text("pinned"@),
        VersionSemantics::Mutable => JsonView::Text("mutable"@),
        VersionSemantics::Unverified => JsonView::Text("unverified"@),
    }
}

/// Encode the version semantics.
pub fn encode_semantics(v: &VersionSemantics) -> (r: Json)
    ensures
        r@ == semantics_json(*v),
{
    match v {
        VersionSemantics::Pinned => crate::json::text("pinned"),
        VersionSemantics::Mutable => crate::json::text("mutable"),
        VersionSemantics::Unverified => crate::json::text("unverified"),
    }
}

/// The encoded version policy.
pub open spec fn version_policy_json(v: VersionPolicy) -> JsonView {
    match v {
        VersionPolicy::AllowMutable => JsonView::Text("allow_mutable"@),
        VersionPolicy::RequirePinned => JsonView::Text("require_pinned"@),
    }
}

/// Encode the version policy.
pub fn encode_version_policy(v: &VersionPolicy) -> (r: Json)
    ensures
        r@ == version_policy_json(*v),
{
    match v {
        VersionPolicy::AllowMutable => crate::json::text("allow_mutable"),
        VersionPolicy::RequirePinned => crate::json::text("require_pinned"),
    }
}

/// The encoded purpose.
pub open spec fn purpose_json(v: ModelPurpose) -> JsonView {
    match v {
        ModelPurpose::Agent => JsonView::Text("agent"@),
        ModelPurpose::Verification => JsonView::Text("verification"@),
        ModelPurpose::Compaction => JsonView::Text("compaction"@),
    }
}

/// Encode the purpose.
pub fn encode_purpose(v: &ModelPurpose) -> (r: Json)
    ensures
        r@ == purpose_json(*v),
{
    match v {
        ModelPurpose::Agent => crate::json::text("agent"),
        ModelPurpose::Verification => crate::json::text("verification"),
        ModelPurpose::Compaction => crate::json::text("compaction"),
    }
}

/// The encoded failure.
pub open spec fn failure_kind_json(v: ModelFailureKind) -> JsonView {
    match v {
        ModelFailureKind::Timeout => JsonView::Text("timeout"@),
        ModelFailureKind::RateLimited => JsonView::Text("rate_limited"@),
        ModelFailureKind::Transport => JsonView::Text("transport"@),
        ModelFailureKind::Protocol => JsonView::Text("protocol"@),
        ModelFailureKind::Unavailable => JsonView::Text("unavailable"@),
        ModelFailureKind::Rejected => JsonView::Text("rejected"@),
        ModelFailureKind::Authentication => JsonView::Text("authentication"@),
    }
}

/// Encode the failure.
pub fn encode_failure_kind(v: &ModelFailureKind) -> (r: Json)
    ensures
        r@ == failure_kind_json(*v),
{
    match v {
        ModelFailureKind::Timeout => crate::json::text("timeout"),
        ModelFailureKind::RateLimited => crate::json::text("rate_limited"),
        ModelFailureKind::Transport => crate::json::text("transport"),
        ModelFailureKind::Protocol => crate::json::text("protocol"),
        ModelFailureKind::Unavailable => crate::json::text("unavailable"),
        ModelFailureKind::Rejected => crate::json::text("rejected"),
        ModelFailureKind::Authentication => crate::json::text("authentication"),
    }
}

/// The encoded provider interface.
pub open spec fn api_contract_json(v: ApiContractView) -> JsonView {
    JsonView::Object(Seq::<MemberView>::empty()
.push(MemberView { key: "name"@, value: JsonView::Text(v.name) })
.push(MemberView { key: "version"@, value: JsonView::Text(v.version) }))
}

/// Encode the provider interface.
pub fn encode_api_contract(v: &ApiContract) -> (r: Json)
    ensures
        r@ == api_contract_json(v@),
{
    let members = no_members();
    let members = with_member(members, "name", crate::json::text(v.name.as_str()));
    let members = with_member(members, "version", crate::json::text(v.version.as_str()));
    crate::json::object(members)
}

/// The encoded route.
pub open spec fn route_json(v: ResolvedModelRouteView) -> JsonView {
    JsonView::Object((Seq::<MemberView>::empty()
.push(MemberView { key: "adapter"@, value: versioned_json(v.adapter) })
.push(MemberView { key: "api_contract"@, value: api_contract_json(v.api_contract) })
.push(MemberView { key: "binding"@, value: versioned_json(v.binding) })
.push(MemberView { key: "capability_revision"@, value: JsonView::Text(v.capability_revision) })
.push(MemberView { key: "catalog_revision"@, value: JsonView::Text(v.catalog_revision) })
.push(MemberView { key: "connection_ref"@, value: versioned_json(v.connection_ref) })
+ some_member("deployment_revision"@, match v.deployment_revision { Some(x) => Some(JsonView::Text(x)), None => None }))
.push(MemberView { key: "model_id"@, value: JsonView::Text(v.model_id) })
.push(MemberView { key: "model_version"@, value: JsonView::Text(v.model_version) })
.push(MemberView { key: "provider"@, value: JsonView::Text(v.provider) })
.push(MemberView { key: "requested_model"@, value: JsonView::Text(v.requested_model) })
.push(MemberView { key: "routing_policy_revision"@, value: JsonView::Text(v.routing_policy_revision) })
.push(MemberView { key: "target"@, value: JsonView::Object(v.target) })
.push(MemberView { key: "version_semantics"@, value: semantics_json(v.version_semantics) }))
}

/// Encode the route.
pub fn encode_route(v: &ResolvedModelRoute) -> (r: Json)
    ensures
        r@ == route_json(v@),
{
    let members = no_members();
    let members = with_member(members, "adapter", encode_versioned(&v.adapter));
    let members = with_member(members, "api_contract", encode_api_contract(&v.api_contract));
    let members = with_member(members, "binding", encode_versioned(&v.binding));
    let members = with_member(members, "capability_revision", crate::json::text(v.capability_revision.as_str()));
    let members = with_member(members, "catalog_revision", crate::json::text(v.catalog_revision.as_str()));
    let members = with_member(members, "connection_ref", encode_versioned(&v.connection_ref));
    let members = with_some(members, "deployment_revision", match &v.deployment_revision { Some(x) => Some(crate::json::text(x.as_str())), None => None });
    let members = with_member(members, "model_id", crate::json::text(v.model_id.as_str()));
    let members = with_member(members, "model_version", crate::json::text(v.model_version.as_str()));
    let members = with_member(members, "provider", crate::json::text(v.provider.as_str()));
    let members = with_member(members, "requested_model", crate::json::text(v.requested_model.as_str()));
    let members = with_member(members, "routing_policy_revision", crate::json::text(v.routing_policy_revision.as_str()));
    let members = with_member(members, "target", crate::json::object(v.target.copy()));
    let members = with_member(members, "version_semantics", encode_semantics(&v.version_semantics));
    crate::json::object(members)
}

/// The encoded routing request.
pub open spec fn route_request_json(v: RouteRequestView) -> JsonView {
    JsonView::Object(((Seq::<MemberView>::empty()
.push(MemberView { key: "allowed_bindings"@, value: JsonView::Array(v.allowed_bindings.map_values(|x: Seq<char>| JsonView::Text(x))) })
.push(MemberView { key: "input_tokens"@, value: JsonView::Number(decimal_text(v.input_tokens as nat)) })
.push(MemberView { key: "max_output_tokens"@, value: JsonView::Number(decimal_text(v.max_output_tokens as nat)) })
.push(MemberView { key: "model_binding"@, value: JsonView::Text(v.model_binding) })
.push(MemberView { key: "options"@, value: JsonView::Object(v.options) })
+ some_member("previous_failure"@, match v.previous_failure { Some(x) => Some(failure_kind_json(x)), None => None }))
+ some_member("previous_route"@, match v.previous_route { Some(x) => Some(route_json(x)), None => None }))
.push(MemberView { key: "purpose"@, value: purpose_json(v.purpose) })
.push(MemberView { key: "required_capabilities"@, value: JsonView::Array(v.required_capabilities.map_values(|x: Seq<char>| JsonView::Text(x))) })
.push(MemberView { key: "scope"@, value: scope_json(v.scope) })
.push(MemberView { key: "version_policy"@, value: version_policy_json(v.version_policy) }))
}

/// Encode the routing request.
pub fn encode_route_request(v: &RouteRequest) -> (r: Json)
    ensures
        r@ == route_request_json(v@),
{
    let f0 = |x: &Id| -> (r: Json)
        ensures
            r@ == JsonView::Text(x@),
    { crate::json::text(x.as_str()) };
    let f8 = |x: &Id| -> (r: Json)
        ensures
            r@ == JsonView::Text(x@),
    { crate::json::text(x.as_str()) };
    let members = no_members();
    let members = with_member(members, "allowed_bindings", crate::json::array(map_each(&v.allowed_bindings, f0, Ghost(|x: Seq<char>| JsonView::Text(x)))));
    let members = with_member(members, "input_tokens", number(v.input_tokens));
    let members = with_member(members, "max_output_tokens", number(v.max_output_tokens));
    let members = with_member(members, "model_binding", crate::json::text(v.model_binding.as_str()));
    let members = with_member(members, "options", crate::json::object(v.options.copy()));
    let members = with_some(members, "previous_failure", match &v.previous_failure { Some(x) => Some(encode_failure_kind(x)), None => None });
    let members = with_some(members, "previous_route", match &v.previous_route { Some(x) => Some(encode_route(x)), None => None });
    let members = with_member(members, "purpose", encode_purpose(&v.purpose));
    let members = with_member(members, "required_capabilities", crate::json::array(map_each(&v.required_capabilities, f8, Ghost(|x: Seq<char>| JsonView::Text(x)))));
    let members = with_member(members, "scope", encode_scope(&v.scope));
    let members = with_member(members, "version_policy", encode_version_policy(&v.version_policy));
    crate::json::object(members)
}

/// The digest that names a route.
pub open spec fn route_digest(route: ResolvedModelRouteView) -> Seq<char> {
    digest_of(route_json(route))
}

impl ResolvedModelRoute {
    /// The digest that names this route.
    pub fn digest(&self) -> (r: JsonDigest)
        ensures
            r@ == route_digest(self@),
    {
        canonical_digest(&encode_route(self))
    }
}

impl RouteRequest {
    /// Identity of every routing input, including scope, purpose, limits and options.
    pub fn digest(&self) -> (r: JsonDigest)
        ensures
            r@ == digest_of(route_request_json(self@)),
    {
        canonical_digest(&encode_route_request(self))
    }
}

/// The identity of a request as it is sent under an attempt's identifier.
pub open spec fn physical_digest_of(request: ModelRequestView, attempt_id: Seq<char>) -> Seq<char> {
    digest_of(
        JsonView::Object(
            put(
                request.document,
                MemberView { key: "request_id"@, value: JsonView::Text(attempt_id) },
            ),
        ),
    )
}

impl ModelRequest {
    /// The identity of this request as it is sent under an attempt's identifier.
    pub fn physical_digest(&self, attempt_id: &Id) -> (r: JsonDigest)
        ensures
            r@ == physical_digest_of(self@, attempt_id@),
    {
        let members = put_member(
            self.document.copy(),
            Member { key: "request_id".to_owned(), value: text(attempt_id.as_str()) },
        );
        canonical_digest(&object(members))
    }
}

} // verus!
