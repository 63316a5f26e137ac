//! Messages, tool calls and their results.
use vstd::prelude::*;

use crate::data::Data;
use crate::json::{Json, Member};
#[allow(unused_imports)]
use crate::json::{JsonView, MemberView};
use crate::refs::{RecordRef, Scope};
#[allow(unused_imports)]
use crate::refs::{RecordRefView, ScopeView};
use crate::serialization::{Id, JsonDigest};

verus! {

/// Conversational role of a message.
#[derive(Debug, Clone, Copy, PartialEq, Eq, Structural)]
pub enum MessageRole {
    System,
    User,
    Assistant,
    Tool,
}

impl View for MessageRole {
    type V = MessageRole;

    open spec fn view(&self) -> MessageRole {
        *self
    }
}

impl DeepView for MessageRole {
    type V = MessageRole;

    open spec fn deep_view(&self) -> MessageRole {
        *self
    }
}

impl Data for MessageRole {
    fn same(&self, other: &Self) -> (r: bool) {
        *self == *other
    }

    fn copy(&self) -> (r: Self) {
        *self
    }
}

/// Who produced a message.
#[derive(Debug, Clone, Copy, PartialEq, Eq, Structural)]
pub enum MessageOrigin {
    System,
    User,
    Model,
    Tool,
    Verification,
}

impl View for MessageOrigin {
    type V = MessageOrigin;

    open spec fn view(&self) -> MessageOrigin {
        *self
    }
}

impl DeepView for MessageOrigin {
    type V = MessageOrigin;

    open spec fn deep_view(&self) -> MessageOrigin {
        *self
    }
}

impl Data for MessageOrigin {
    fn same(&self, other: &Self) -> (r: bool) {
        *self == *other
    }

    fn copy(&self) -> (r: Self) {
        *self
    }
}

/// Who may see a message.
#[derive(Debug, Clone, Copy, PartialEq, Eq, Structural)]
pub enum Visibility {
    User,
    Model,
    UserAndModel,
}

impl View for Visibility {
    type V = Visibility;

    open spec fn view(&self) -> Visibility {
        *self
    }
}

impl DeepView for Visibility {
    type V = Visibility;

    open spec fn deep_view(&self) -> Visibility {
        *self
    }
}

impl Data for Visibility {
    fn same(&self, other: &Self) -> (r: bool) {
        *self == *other
    }

    fn copy(&self) -> (r: Self) {
        *self
    }
}

/// How a tool call ended.
#[derive(Debug, Clone, Copy, PartialEq, Eq, Structural)]
pub enum ToolResultStatus {
    Succeeded,
    Failed,
    Denied,
    Cancelled,
    Unknown,
}

impl View for ToolResultStatus {
    type V = ToolResultStatus;

    open spec fn view(&self) -> ToolResultStatus {
        *self
    }
}

impl DeepView for ToolResultStatus {
    type V = ToolResultStatus;

    open spec fn deep_view(&self) -> ToolResultStatus {
        *self
    }
}

impl Data for ToolResultStatus {
    fn same(&self, other: &Self) -> (r: bool) {
        *self == *other
    }

    fn copy(&self) -> (r: Self) {
        *self
    }
}

/// Whether a tool call changed anything outside.
#[derive(Debug, Clone, Copy, PartialEq, Eq, Structural)]
pub enum ToolEffect {
    NotApplied,
    Applied,
    Unknown,
}

impl View for ToolEffect {
    type V = ToolEffect;

    open spec fn view(&self) -> ToolEffect {
        *self
    }
}

impl DeepView for ToolEffect {
    type V = ToolEffect;

    open spec fn deep_view(&self) -> ToolEffect {
        *self
    }
}

impl Data for ToolEffect {
    fn same(&self, other: &Self) -> (r: bool) {
        *self == *other
    }

    fn copy(&self) -> (r: Self) {
        *self
    }
}

/// Metadata of stored bytes, never the bytes themselves.
#[derive(Debug)]
pub struct ArtifactRef {
    pub artifact_id: Id,
    pub media_type: String,
    pub size_bytes: u64,
    pub content_hash: String,
    pub scope: Scope,
}

#[verifier::ext_equal]
pub struct ArtifactRefView {
    pub artifact_id: Seq<char>,
    pub media_type: Seq<char>,
    pub size_bytes: u64,
    pub content_hash: Seq<char>,
    pub scope: ScopeView,
}

impl View for ArtifactRef {
    type V = ArtifactRefView;

    open spec fn view(&self) -> ArtifactRefView {
        ArtifactRefView {
            artifact_id: self.artifact_id.deep_view(),
            media_type: self.media_type.deep_view(),
            size_bytes: self.size_bytes.deep_view(),
            content_hash: self.content_hash.deep_view(),
            scope: self.scope.deep_view(),
        }
    }
}

impl DeepView for ArtifactRef {
    type V = ArtifactRefView;

    open spec fn deep_view(&self) -> ArtifactRefView {
        self@
    }
}

impl Data for ArtifactRef {
    fn same(&self, other: &Self) -> (r: bool) {
        self.artifact_id.same(&other.artifact_id)
            && self.media_type.same(&other.media_type)
            && self.size_bytes.same(&other.size_bytes)
            && self.content_hash.same(&other.content_hash)
            && self.scope.same(&other.scope)
    }

    fn copy(&self) -> (r: Self) {
        ArtifactRef {
            artifact_id: self.artifact_id.copy(),
            media_type: self.media_type.copy(),
            size_bytes: self.size_bytes.copy(),
            content_hash: self.content_hash.copy(),
            scope: self.scope.copy(),
        }
    }
}

/// One piece of submitted or produced content.
#[derive(Debug)]
pub enum InputContent {
    Text {
        text: String,
    },
    Json {
        value: Json,
    },
    Artifact {
        reference: ArtifactRef,
    },
    Evidence {
        evidence_ref: Id,
        text: String,
    },
}

#[verifier::ext_equal]
pub enum InputContentView {
    Text {
        text: Seq<char>,
    },
    Json {
        value: JsonView,
    },
    Artifact {
        reference: ArtifactRefView,
    },
    Evidence {
        evidence_ref: Seq<char>,
        text: Seq<char>,
    },
}

impl View for InputContent {
    type V = InputContentView;

    open spec fn view(&self) -> InputContentView {
        match self {
            InputContent::Text { text } => InputContentView::Text { text: text.deep_view() },
            InputContent::Json { value } => InputContentView::Json { value: value.deep_view() },
            InputContent::Artifact { reference } => InputContentView::Artifact { reference: reference.deep_view() },
            InputContent::Evidence { evidence_ref, text } => InputContentView::Evidence { evidence_ref: evidence_ref.deep_view(), text: text.deep_view() },
        }
    }
}

impl DeepView for InputContent {
    type V = InputContentView;

    open spec fn deep_view(&self) -> InputContentView {
        self@
    }
}

impl Data for InputContent {
    fn same(&self, other: &Self) -> (r: bool) {
        match (self, other) {
            (InputContent::Text { text: text1 }, InputContent::Text { text: text2 }) => text1.same(text2),
            (InputContent::Json { value: value1 }, InputContent::Json { value: value2 }) => value1.same(value2),
            (InputContent::Artifact { reference: reference1 }, InputContent::Artifact { reference: reference2 }) => reference1.same(reference2),
            (InputContent::Evidence { evidence_ref: evidence_ref1, text: text1 }, InputContent::Evidence { evidence_ref: evidence_ref2, text: text2 }) => evidence_ref1.same(evidence_ref2) && text1.same(text2),
            _ => false,
        }
    }

    fn copy(&self) -> (r: Self) {
        match self {
            InputContent::Text { text } => InputContent::Text { text: text.copy() },
            InputContent::Json { value } => InputContent::Json { value: value.copy() },
            InputContent::Artifact { reference } => InputContent::Artifact { reference: reference.copy() },
            InputContent::Evidence { evidence_ref, text } => InputContent::Evidence { evidence_ref: evidence_ref.copy(), text: text.copy() },
        }
    }
}

/// Why a tool call failed.
#[derive(Debug)]
pub struct ToolError {
    pub code: Id,
    pub diagnostic_ref: Option<RecordRef>,
}

#[verifier::ext_equal]
pub struct ToolErrorView {
    pub code: Seq<char>,
    pub diagnostic_ref: Option<RecordRefView>,
}

impl View for ToolError {
    type V = ToolErrorView;

    open spec fn view(&self) -> ToolErrorView {
        ToolErrorView {
            code: self.code.deep_view(),
            diagnostic_ref: self.diagnostic_ref.deep_view(),
        }
    }
}

impl DeepView for ToolError {
    type V = ToolErrorView;

    open spec fn deep_view(&self) -> ToolErrorView {
        self@
    }
}

impl Data for ToolError {
    fn same(&self, other: &Self) -> (r: bool) {
        self.code.same(&other.code)
            && self.diagnostic_ref.same(&other.diagnostic_ref)
    }

    fn copy(&self) -> (r: Self) {
        ToolError {
            code: self.code.copy(),
            diagnostic_ref: self.diagnostic_ref.copy(),
        }
    }
}

/// Arguments as the provider sent them.
#[derive(Debug)]
pub struct ProviderArguments {
    pub name: Id,
    /// Arguments exactly as the provider sent them.
    pub raw: String,
    pub compiled_contract_ref: Option<RecordRef>,
}

#[verifier::ext_equal]
pub struct ProviderArgumentsView {
    pub name: Seq<char>,
    pub raw: Seq<char>,
    pub compiled_contract_ref: Option<RecordRefView>,
}

impl View for ProviderArguments {
    type V = ProviderArgumentsView;

    open spec fn view(&self) -> ProviderArgumentsView {
        ProviderArgumentsView {
            name: self.name.deep_view(),
            raw: self.raw.deep_view(),
            compiled_contract_ref: self.compiled_contract_ref.deep_view(),
        }
    }
}

impl DeepView for ProviderArguments {
    type V = ProviderArgumentsView;

    open spec fn deep_view(&self) -> ProviderArgumentsView {
        self@
    }
}

impl Data for ProviderArguments {
    fn same(&self, other: &Self) -> (r: bool) {
        self.name.same(&other.name)
            && self.raw.same(&other.raw)
            && self.compiled_contract_ref.same(&other.compiled_contract_ref)
    }

    fn copy(&self) -> (r: Self) {
        ProviderArguments {
            name: self.name.copy(),
            raw: self.raw.copy(),
            compiled_contract_ref: self.compiled_contract_ref.copy(),
        }
    }
}

/// A tool call proposed by a model response.
#[derive(Debug)]
pub struct ToolCall {
    pub call_id: Id,
    pub run_id: Id,
    pub provider_call_id: Id,
    pub model_request_id: Id,
    pub tool_name: Id,
    pub model_inputs: Vec<Member>,
    pub descriptor_digest: Option<JsonDigest>,
    /// Protected bound inputs, absent until the call is bound.
    pub bound_input_ref: Option<RecordRef>,
    pub provider_arguments: Option<ProviderArguments>,
}

#[verifier::ext_equal]
pub struct ToolCallView {
    pub call_id: Seq<char>,
    pub run_id: Seq<char>,
    pub provider_call_id: Seq<char>,
    pub model_request_id: Seq<char>,
    pub tool_name: Seq<char>,
    pub model_inputs: Seq<MemberView>,
    pub descriptor_digest: Option<Seq<char>>,
    pub bound_input_ref: Option<RecordRefView>,
    pub provider_arguments: Option<ProviderArgumentsView>,
}

impl View for ToolCall {
    type V = ToolCallView;

    open spec fn view(&self) -> ToolCallView {
        ToolCallView {
            call_id: self.call_id.deep_view(),
            run_id: self.run_id.deep_view(),
            provider_call_id: self.provider_call_id.deep_view(),
            model_request_id: self.model_request_id.deep_view(),
            tool_name: self.tool_name.deep_view(),
            model_inputs: self.model_inputs.deep_view(),
            descriptor_digest: self.descriptor_digest.deep_view(),
            bound_input_ref: self.bound_input_ref.deep_view(),
            provider_arguments: self.provider_arguments.deep_view(),
        }
    }
}

impl DeepView for ToolCall {
    type V = ToolCallView;

    open spec fn deep_view(&self) -> ToolCallView {
        self@
    }
}

impl Data for ToolCall {
    fn same(&self, other: &Self) -> (r: bool) {
        self.call_id.same(&other.call_id)
            && self.run_id.same(&other.run_id)
            && self.provider_call_id.same(&other.provider_call_id)
            && self.model_request_id.same(&other.model_request_id)
            && self.tool_name.same(&other.tool_name)
            && self.model_inputs.same(&other.model_inputs)
            && self.descriptor_digest.same(&other.descriptor_digest)
            && self.bound_input_ref.same(&other.bound_input_ref)
            && self.provider_arguments.same(&other.provider_arguments)
    }

    fn copy(&self) -> (r: Self) {
        ToolCall {
            call_id: self.call_id.copy(),
            run_id: self.run_id.copy(),
            provider_call_id: self.provider_call_id.copy(),
            model_request_id: self.model_request_id.copy(),
            tool_name: self.tool_name.copy(),
            model_inputs: self.model_inputs.copy(),
            descriptor_digest: self.descriptor_digest.copy(),
            bound_input_ref: self.bound_input_ref.copy(),
            provider_arguments: self.provider_arguments.copy(),
        }
    }
}

/// The observed result of a tool call.
#[derive(Debug)]
pub struct ToolResult {
    pub call_id: Id,
    /// Message that holds the call.
    pub call_message_id: Id,
    pub status: ToolResultStatus,
    pub effect: ToolEffect,
    pub content: Vec<InputContent>,
    pub error: Option<ToolError>,
    pub effect_receipt_ref: Option<RecordRef>,
    pub skill_ref: Option<RecordRef>,
    /// Canonical digest of the encoded result.
    pub digest: JsonDigest,
}

#[verifier::ext_equal]
pub struct ToolResultView {
    pub call_id: Seq<char>,
    pub call_message_id: Seq<char>,
    pub status: ToolResultStatus,
    pub effect: ToolEffect,
    pub content: Seq<InputContentView>,
    pub error: Option<ToolErrorView>,
    pub effect_receipt_ref: Option<RecordRefView>,
    pub skill_ref: Option<RecordRefView>,
    pub digest: Seq<char>,
}

impl View for ToolResult {
    type V = ToolResultView;

    open spec fn view(&self) -> ToolResultView {
        ToolResultView {
            call_id: self.call_id.deep_view(),
            call_message_id: self.call_message_id.deep_view(),
            status: self.status.deep_view(),
            effect: self.effect.deep_view(),
            content: self.content.deep_view(),
            error: self.error.deep_view(),
            effect_receipt_ref: self.effect_receipt_ref.deep_view(),
            skill_ref: self.skill_ref.deep_view(),
            digest: self.digest.deep_view(),
        }
    }
}

impl DeepView for ToolResult {
    type V = ToolResultView;

    open spec fn deep_view(&self) -> ToolResultView {
        self@
    }
}

impl Data for ToolResult {
    fn same(&self, other: &Self) -> (r: bool) {
        self.call_id.same(&other.call_id)
            && self.call_message_id.same(&other.call_message_id)
            && self.status.same(&other.status)
            && self.effect.same(&other.effect)
            && self.content.same(&other.content)
            && self.error.same(&other.error)
            && self.effect_receipt_ref.same(&other.effect_receipt_ref)
            && self.skill_ref.same(&other.skill_ref)
            && self.digest.same(&other.digest)
    }

    fn copy(&self) -> (r: Self) {
        ToolResult {
            call_id: self.call_id.copy(),
            call_message_id: self.call_message_id.copy(),
            status: self.status.copy(),
            effect: self.effect.copy(),
            content: self.content.copy(),
            error: self.error.copy(),
            effect_receipt_ref: self.effect_receipt_ref.copy(),
            skill_ref: self.skill_ref.copy(),
            digest: self.digest.copy(),
        }
    }
}

/// A question that a tool asks its user.
#[derive(Debug)]
pub struct InputRequest {
    pub call_id: Id,
    pub question: Json,
}

#[verifier::ext_equal]
pub struct InputRequestView {
    pub call_id: Seq<char>,
    pub question: JsonView,
}

impl View for InputRequest {
    type V = InputRequestView;

    open spec fn view(&self) -> InputRequestView {
        InputRequestView {
            call_id: self.call_id.deep_view(),
            question: self.question.deep_view(),
        }
    }
}

impl DeepView for InputRequest {
    type V = InputRequestView;

    open spec fn deep_view(&self) -> InputRequestView {
        self@
    }
}

impl Data for InputRequest {
    fn same(&self, other: &Self) -> (r: bool) {
        self.call_id.same(&other.call_id)
            && self.question.same(&other.question)
    }

    fn copy(&self) -> (r: Self) {
        InputRequest {
            call_id: self.call_id.copy(),
            question: self.question.copy(),
        }
    }
}

/// Where a tool call stands.
#[derive(Debug)]
pub enum ToolCallState {
    Planned,
    Dispatching {
        attempt_id: Id,
        idempotency_key: Id,
    },
    ApprovalPending {
        attempt_id: Id,
        idempotency_key: Id,
    },
    InputPending {
        attempt_id: Id,
        idempotency_key: Id,
        request: InputRequest,
    },
    Unknown {
        attempt_id: Id,
        idempotency_key: Id,
    },
    Settled {
        result: ToolResult,
    },
}

#[verifier::ext_equal]
pub enum ToolCallStateView {
    Planned,
    Dispatching {
        attempt_id: Seq<char>,
        idempotency_key: Seq<char>,
    },
    ApprovalPending {
        attempt_id: Seq<char>,
        idempotency_key: Seq<char>,
    },
    InputPending {
        attempt_id: Seq<char>,
        idempotency_key: Seq<char>,
        request: InputRequestView,
    },
    Unknown {
        attempt_id: Seq<char>,
        idempotency_key: Seq<char>,
    },
    Settled {
        result: ToolResultView,
    },
}

impl View for ToolCallState {
    type V = ToolCallStateView;

    open spec fn view(&self) -> ToolCallStateView {
        match self {
            ToolCallState::Planned => ToolCallStateView::Planned,
            ToolCallState::Dispatching { attempt_id, idempotency_key } => ToolCallStateView::Dispatching { attempt_id: attempt_id.deep_view(), idempotency_key: idempotency_key.deep_view() },
            ToolCallState::ApprovalPending { attempt_id, idempotency_key } => ToolCallStateView::ApprovalPending { attempt_id: attempt_id.deep_view(), idempotency_key: idempotency_key.deep_view() },
            ToolCallState::InputPending { attempt_id, idempotency_key, request } => ToolCallStateView::InputPending { attempt_id: attempt_id.deep_view(), idempotency_key: idempotency_key.deep_view(), request: request.deep_view() },
            ToolCallState::Unknown { attempt_id, idempotency_key } => ToolCallStateView::Unknown { attempt_id: attempt_id.deep_view(), idempotency_key: idempotency_key.deep_view() },
            ToolCallState::Settled { result } => ToolCallStateView::Settled { result: result.deep_view() },
        }
    }
}

impl DeepView for ToolCallState {
    type V = ToolCallStateView;

    open spec fn deep_view(&self) -> ToolCallStateView {
        self@
    }
}

impl Data for ToolCallState {
    fn same(&self, other: &Self) -> (r: bool) {
        match (self, other) {
            (ToolCallState::Planned, ToolCallState::Planned) => true,
            (ToolCallState::Dispatching { attempt_id: attempt_id1, idempotency_key: idempotency_key1 }, ToolCallState::Dispatching { attempt_id: attempt_id2, idempotency_key: idempotency_key2 }) => attempt_id1.same(attempt_id2) && idempotency_key1.same(idempotency_key2),
            (ToolCallState::ApprovalPending { attempt_id: attempt_id1, idempotency_key: idempotency_key1 }, ToolCallState::ApprovalPending { attempt_id: attempt_id2, idempotency_key: idempotency_key2 }) => attempt_id1.same(attempt_id2) && idempotency_key1.same(idempotency_key2),
            (ToolCallState::InputPending { attempt_id: attempt_id1, idempotency_key: idempotency_key1, request: request1 }, ToolCallState::InputPending { attempt_id: attempt_id2, idempotency_key: idempotency_key2, request: request2 }) => attempt_id1.same(attempt_id2) && idempotency_key1.same(idempotency_key2) && request1.same(request2),
            (ToolCallState::Unknown { attempt_id: attempt_id1, idempotency_key: idempotency_key1 }, ToolCallState::Unknown { attempt_id: attempt_id2, idempotency_key: idempotency_key2 }) => attempt_id1.same(attempt_id2) && idempotency_key1.same(idempotency_key2),
            (ToolCallState::Settled { result: result1 }, ToolCallState::Settled { result: result2 }) => result1.same(result2),
            _ => false,
        }
    }

    fn copy(&self) -> (r: Self) {
        match self {
            ToolCallState::Planned => ToolCallState::Planned,
            ToolCallState::Dispatching { attempt_id, idempotency_key } => ToolCallState::Dispatching { attempt_id: attempt_id.copy(), idempotency_key: idempotency_key.copy() },
            ToolCallState::ApprovalPending { attempt_id, idempotency_key } => ToolCallState::ApprovalPending { attempt_id: attempt_id.copy(), idempotency_key: idempotency_key.copy() },
            ToolCallState::InputPending { attempt_id, idempotency_key, request } => ToolCallState::InputPending { attempt_id: attempt_id.copy(), idempotency_key: idempotency_key.copy(), request: request.copy() },
            ToolCallState::Unknown { attempt_id, idempotency_key } => ToolCallState::Unknown { attempt_id: attempt_id.copy(), idempotency_key: idempotency_key.copy() },
            ToolCallState::Settled { result } => ToolCallState::Settled { result: result.copy() },
        }
    }
}

/// A tool call with its state.
#[derive(Debug)]
pub struct ToolLedgerEntry {
    pub call: ToolCall,
    pub state: ToolCallState,
}

#[verifier::ext_equal]
pub struct ToolLedgerEntryView {
    pub call: ToolCallView,
    pub state: ToolCallStateView,
}

impl View for ToolLedgerEntry {
    type V = ToolLedgerEntryView;

    open spec fn view(&self) -> ToolLedgerEntryView {
        ToolLedgerEntryView {
            call: self.call.deep_view(),
            state: self.state.deep_view(),
        }
    }
}

impl DeepView for ToolLedgerEntry {
    type V = ToolLedgerEntryView;

    open spec fn deep_view(&self) -> ToolLedgerEntryView {
        self@
    }
}

impl Data for ToolLedgerEntry {
    fn same(&self, other: &Self) -> (r: bool) {
        self.call.same(&other.call)
            && self.state.same(&other.state)
    }

    fn copy(&self) -> (r: Self) {
        ToolLedgerEntry {
            call: self.call.copy(),
            state: self.state.copy(),
        }
    }
}

/// One block of a message.
#[derive(Debug)]
pub enum ContentBlock {
    Content {
        content: InputContent,
    },
    ToolCall {
        call: ToolCall,
    },
    ToolResult {
        result: ToolResult,
    },
    /// A later settlement of a result that was unknown.
    ToolResultCorrection {
        previous_message_id: Id,
        previous_result_digest: JsonDigest,
        result: ToolResult,
    },
    ProviderOpaque {
        data_ref: RecordRef,
    },
}

#[verifier::ext_equal]
pub enum ContentBlockView {
    Content {
        content: InputContentView,
    },
    ToolCall {
        call: ToolCallView,
    },
    ToolResult {
        result: ToolResultView,
    },
    ToolResultCorrection {
        previous_message_id: Seq<char>,
        previous_result_digest: Seq<char>,
        result: ToolResultView,
    },
    ProviderOpaque {
        data_ref: RecordRefView,
    },
}

impl View for ContentBlock {
    type V = ContentBlockView;

    open spec fn view(&self) -> ContentBlockView {
        match self {
            ContentBlock::Content { content } => ContentBlockView::Content { content: content.deep_view() },
            ContentBlock::ToolCall { call } => ContentBlockView::ToolCall { call: call.deep_view() },
            ContentBlock::ToolResult { result } => ContentBlockView::ToolResult { result: result.deep_view() },
            ContentBlock::ToolResultCorrection { previous_message_id, previous_result_digest, result } => ContentBlockView::ToolResultCorrection { previous_message_id: previous_message_id.deep_view(), previous_result_digest: previous_result_digest.deep_view(), result: result.deep_view() },
            ContentBlock::ProviderOpaque { data_ref } => ContentBlockView::ProviderOpaque { data_ref: data_ref.deep_view() },
        }
    }
}

impl DeepView for ContentBlock {
    type V = ContentBlockView;

    open spec fn deep_view(&self) -> ContentBlockView {
        self@
    }
}

impl Data for ContentBlock {
    fn same(&self, other: &Self) -> (r: bool) {
        match (self, other) {
            (ContentBlock::Content { content: content1 }, ContentBlock::Content { content: content2 }) => content1.same(content2),
            (ContentBlock::ToolCall { call: call1 }, ContentBlock::ToolCall { call: call2 }) => call1.same(call2),
            (ContentBlock::ToolResult { result: result1 }, ContentBlock::ToolResult { result: result2 }) => result1.same(result2),
            (ContentBlock::ToolResultCorrection { previous_message_id: previous_message_id1, previous_result_digest: previous_result_digest1, result: result1 }, ContentBlock::ToolResultCorrection { previous_message_id: previous_message_id2, previous_result_digest: previous_result_digest2, result: result2 }) => previous_message_id1.same(previous_message_id2) && previous_result_digest1.same(previous_result_digest2) && result1.same(result2),
            (ContentBlock::ProviderOpaque { data_ref: data_ref1 }, ContentBlock::ProviderOpaque { data_ref: data_ref2 }) => data_ref1.same(data_ref2),
            _ => false,
        }
    }

    fn copy(&self) -> (r: Self) {
        match self {
            ContentBlock::Content { content } => ContentBlock::Content { content: content.copy() },
            ContentBlock::ToolCall { call } => ContentBlock::ToolCall { call: call.copy() },
            ContentBlock::ToolResult { result } => ContentBlock::ToolResult { result: result.copy() },
            ContentBlock::ToolResultCorrection { previous_message_id, previous_result_digest, result } => ContentBlock::ToolResultCorrection { previous_message_id: previous_message_id.copy(), previous_result_digest: previous_result_digest.copy(), result: result.copy() },
            ContentBlock::ProviderOpaque { data_ref } => ContentBlock::ProviderOpaque { data_ref: data_ref.copy() },
        }
    }
}

/// One entry of a session transcript.
#[derive(Debug)]
pub struct Message {
    pub message_id: Id,
    /// Position in the session, counted from one.
    pub sequence: u64,
    pub run_id: Id,
    pub role: MessageRole,
    pub origin: MessageOrigin,
    pub visibility: Visibility,
    pub content: Vec<ContentBlock>,
    /// Model attempt whose response the message repeats.
    pub source_model_request_id: Option<Id>,
    /// The encoded message.
    pub document: Json,
}

#[verifier::ext_equal]
pub struct MessageView {
    pub message_id: Seq<char>,
    pub sequence: u64,
    pub run_id: Seq<char>,
    pub role: MessageRole,
    pub origin: MessageOrigin,
    pub visibility: Visibility,
    pub content: Seq<ContentBlockView>,
    pub source_model_request_id: Option<Seq<char>>,
    pub document: JsonView,
}

impl View for Message {
    type V = MessageView;

    open spec fn view(&self) -> MessageView {
        MessageView {
            message_id: self.message_id.deep_view(),
            sequence: self.sequence.deep_view(),
            run_id: self.run_id.deep_view(),
            role: self.role.deep_view(),
            origin: self.origin.deep_view(),
            visibility: self.visibility.deep_view(),
            content: self.content.deep_view(),
            source_model_request_id: self.source_model_request_id.deep_view(),
            document: self.document.deep_view(),
        }
    }
}

impl DeepView for Message {
    type V = MessageView;

    open spec fn deep_view(&self) -> MessageView {
        self@
    }
}

impl Data for Message {
    fn same(&self, other: &Self) -> (r: bool) {
        self.message_id.same(&other.message_id)
            && self.sequence.same(&other.sequence)
            && self.run_id.same(&other.run_id)
            && self.role.same(&other.role)
            && self.origin.same(&other.origin)
            && self.visibility.same(&other.visibility)
            && self.content.same(&other.content)
            && self.source_model_request_id.same(&other.source_model_request_id)
            && self.document.same(&other.document)
    }

    fn copy(&self) -> (r: Self) {
        Message {
            message_id: self.message_id.copy(),
            sequence: self.sequence.copy(),
            run_id: self.run_id.copy(),
            role: self.role.copy(),
            origin: self.origin.copy(),
            visibility: self.visibility.copy(),
            content: self.content.copy(),
            source_model_request_id: self.source_model_request_id.copy(),
            document: self.document.copy(),
        }
    }
}


/// The records that a result refers to.
pub open spec fn result_refs(result: ToolResultView) -> Seq<RecordRefView> {
    let receipt = match result.effect_receipt_ref {
        Some(reference) => seq![reference],
        None => Seq::empty(),
    };
    let diagnostic = match result.error {
        Some(error) => match error.diagnostic_ref {
            Some(reference) => seq![reference],
            None => Seq::empty(),
        },
        None => Seq::empty(),
    };
    receipt + diagnostic
}

/// The records that a result refers to.
pub fn tool_result_refs(result: &ToolResult) -> (r: Vec<RecordRef>)
    ensures
        r.deep_view() == result_refs(result@),
{
    let mut out: Vec<RecordRef> = Vec::new();
    if let Some(reference) = &result.effect_receipt_ref {
        out.push(reference.copy());
    }
    if let Some(error) = &result.error {
        if let Some(reference) = &error.diagnostic_ref {
            out.push(reference.copy());
        }
    }
    assert(out.deep_view() =~= result_refs(result@));
    out
}

/// The records of a result are the receipt of its effect and the diagnosis of its failure, and no other.
pub proof fn law_results_refer_to_receipt_and_diagnosis(
    result: ToolResultView,
    reference: RecordRefView,
)
    ensures
        result_refs(result).contains(reference) <==> result.effect_receipt_ref == Some(reference) || (
        result.error is Some && result.error->Some_0.diagnostic_ref == Some(reference)),
{
    let refs = result_refs(result);
    if result.effect_receipt_ref == Some(reference) {
        assert(refs[0] == reference);
    }
    if result.error is Some && result.error->Some_0.diagnostic_ref == Some(reference) {
        assert(refs[refs.len() - 1] == reference);
    }
}

} // verus!
