//! Immutable records and how the validators read them.
use vstd::prelude::*;

use crate::content::{ToolCall, ToolResult};
#[allow(unused_imports)]
use crate::content::{ToolCallView, ToolResultView};
use crate::context_source::records::{ContextBatch, ContextSourcePlan};
#[allow(unused_imports)]
use crate::context_source::records::{ContextBatchView, ContextSourcePlanView};
use crate::context_strategy::ContextRevision;
#[allow(unused_imports)]
use crate::context_strategy::ContextRevisionView;
use crate::data::Data;
use crate::error::{fail, ContractError, ErrorCode};
#[allow(unused_imports)]
use crate::error::{failure, fault, or_else, Fault};
use crate::execution_contracts::PreparedStepRecord;
#[allow(unused_imports)]
use crate::execution_contracts::PreparedStepRecordView;
use crate::hook::{HookApplicationRecord, HookPlan};
#[allow(unused_imports)]
use crate::hook::{HookApplicationRecordView, HookPlanView};
use crate::interruption::{InterruptionDecisionRecord, InterruptionPlan};
#[allow(unused_imports)]
use crate::interruption::{InterruptionDecisionRecordView, InterruptionPlanView};
use crate::json::Json;
#[allow(unused_imports)]
use crate::json::JsonView;
use crate::model::{ModelInvocationRecord, ResolvedModelRoute, RoutedModelInput};
#[allow(unused_imports)]
use crate::model::{ModelInvocationRecordView, ResolvedModelRouteView, RoutedModelInputView};
use crate::model_dispatch::ModelRouteObservation;
#[allow(unused_imports)]
use crate::model_dispatch::ModelRouteObservationView;
use crate::model_execution::StoredModelResponse;
#[allow(unused_imports)]
use crate::model_execution::StoredModelResponseView;
use crate::model_options::ModelConfiguration;
#[allow(unused_imports)]
use crate::model_options::ModelConfigurationView;
use crate::model_routing::RoutingData;
#[allow(unused_imports)]
use crate::model_routing::RoutingDataView;
use crate::prepared_step::{PreparedModelProjection, ResolvedToolSet};
#[allow(unused_imports)]
use crate::prepared_step::{PreparedModelProjectionView, ResolvedToolSetView};
use crate::prompt::{BoundInput, PromptSnapshot, ResolvedAssembly, SystemInputsRecord};
#[allow(unused_imports)]
use crate::prompt::{
    BoundInputView, PromptSnapshotView, ResolvedAssemblyView, SystemInputsRecordView,
};
use crate::provider_tool_schema::SavedContract;
#[allow(unused_imports)]
use crate::provider_tool_schema::SavedContractView;
use crate::refs::{record_key, RecordKey, RecordRef};
#[allow(unused_imports)]
use crate::refs::{key_of, RecordKeyView, RecordRefView};
use crate::run::{ResumeCommand, RunOutcome, RunRequest, RunSnapshot, WaitState};
#[allow(unused_imports)]
use crate::run::{
    ResumeCommandView, RunOutcomeView, RunRequestView, RunSnapshotView, WaitStateView,
};
use crate::serialization::{canonical_digest, Id};
#[allow(unused_imports)]
use crate::serialization::digest_of;
use crate::skills::{LoadedSkill, SkillPlan};
#[allow(unused_imports)]
use crate::skills::{LoadedSkillView, SkillPlanView};
use crate::table::Table;
use crate::verification::{
    VerificationCandidate, VerificationPlan, VerificationRecord, VerificationSummary,
};
#[allow(unused_imports)]
use crate::verification::{
    VerificationCandidateView, VerificationPlanView, VerificationRecordView,
    VerificationSummaryView,
};

verus! {

/// The saved logical input of one model step.
#[derive(Debug)]
pub struct SavedStep {
    pub schema_version: String,
    pub run_id: Id,
    pub through_sequence: Option<u64>,
    pub input: RoutedModelInput,
}

#[verifier::ext_equal]
pub struct SavedStepView {
    pub schema_version: Seq<char>,
    pub run_id: Seq<char>,
    pub through_sequence: Option<u64>,
    pub input: RoutedModelInputView,
}

impl View for SavedStep {
    type V = SavedStepView;

    open spec fn view(&self) -> SavedStepView {
        SavedStepView {
            schema_version: self.schema_version.deep_view(),
            run_id: self.run_id.deep_view(),
            through_sequence: self.through_sequence.deep_view(),
            input: self.input.deep_view(),
        }
    }
}

impl DeepView for SavedStep {
    type V = SavedStepView;

    open spec fn deep_view(&self) -> SavedStepView {
        self@
    }
}

impl Data for SavedStep {
    fn same(&self, other: &Self) -> (r: bool) {
        self.schema_version.same(&other.schema_version)
            && self.run_id.same(&other.run_id)
            && self.through_sequence.same(&other.through_sequence)
            && self.input.same(&other.input)
    }

    fn copy(&self) -> (r: Self) {
        SavedStep {
            schema_version: self.schema_version.copy(),
            run_id: self.run_id.copy(),
            through_sequence: self.through_sequence.copy(),
            input: self.input.copy(),
        }
    }
}

/// The saved route and settings of one prepared step.
#[derive(Debug)]
pub struct SavedConfiguration {
    /// The route, where it decodes.
    pub route: Option<ResolvedModelRoute>,
    /// The configuration, where it decodes.
    pub configuration: Option<ModelConfiguration>,
}

#[verifier::ext_equal]
pub struct SavedConfigurationView {
    pub route: Option<ResolvedModelRouteView>,
    pub configuration: Option<ModelConfigurationView>,
}

impl View for SavedConfiguration {
    type V = SavedConfigurationView;

    open spec fn view(&self) -> SavedConfigurationView {
        SavedConfigurationView {
            route: self.route.deep_view(),
            configuration: self.configuration.deep_view(),
        }
    }
}

impl DeepView for SavedConfiguration {
    type V = SavedConfigurationView;

    open spec fn deep_view(&self) -> SavedConfigurationView {
        self@
    }
}

impl Data for SavedConfiguration {
    fn same(&self, other: &Self) -> (r: bool) {
        self.route.same(&other.route)
            && self.configuration.same(&other.configuration)
    }

    fn copy(&self) -> (r: Self) {
        SavedConfiguration {
            route: self.route.copy(),
            configuration: self.configuration.copy(),
        }
    }
}

/// The typed reading of a record's document. A document that is none of these stays opaque.
#[derive(Debug)]
pub enum RecordContent {
    Opaque,
    Request(RunRequest),
    Snapshot(Box<RunSnapshot>),
    Outcome(RunOutcome),
    Wait(WaitState),
    Resume(ResumeCommand),
    ToolCall(ToolCall),
    ToolResult(ToolResult),
    Invocation(ModelInvocationRecord),
    Response(StoredModelResponse),
    Observation(ModelRouteObservation),
    Routing(Box<RoutingData>),
    Step(SavedStep),
    PreparedStep(PreparedStepRecord),
    Projection(Box<PreparedModelProjection>),
    ToolSet(ResolvedToolSet),
    Configuration(SavedConfiguration),
    Contract(SavedContract),
    InterruptionPlan(InterruptionPlan),
    Interruption(InterruptionDecisionRecord),
    VerificationPlan(VerificationPlan),
    Candidate(VerificationCandidate),
    Verification(VerificationRecord),
    Summary(VerificationSummary),
    HookPlan(HookPlan),
    HookApplication(Box<HookApplicationRecord>),
    SourcePlan(ContextSourcePlan),
    Batch(Box<ContextBatch>),
    Revision(ContextRevision),
    BoundInput(BoundInput),
    Prompt(PromptSnapshot),
    Assembly(ResolvedAssembly),
    SystemInputs(SystemInputsRecord),
    SkillPlan(SkillPlan),
    LoadedSkill(LoadedSkill),
}

#[verifier::ext_equal]
pub enum RecordContentView {
    Opaque,
    Request(RunRequestView),
    Snapshot(RunSnapshotView),
    Outcome(RunOutcomeView),
    Wait(WaitStateView),
    Resume(ResumeCommandView),
    ToolCall(ToolCallView),
    ToolResult(ToolResultView),
    Invocation(ModelInvocationRecordView),
    Response(StoredModelResponseView),
    Observation(ModelRouteObservationView),
    Routing(RoutingDataView),
    Step(SavedStepView),
    PreparedStep(PreparedStepRecordView),
    Projection(PreparedModelProjectionView),
    ToolSet(ResolvedToolSetView),
    Configuration(SavedConfigurationView),
    Contract(SavedContractView),
    InterruptionPlan(InterruptionPlanView),
    Interruption(InterruptionDecisionRecordView),
    VerificationPlan(VerificationPlanView),
    Candidate(VerificationCandidateView),
    Verification(VerificationRecordView),
    Summary(VerificationSummaryView),
    HookPlan(HookPlanView),
    HookApplication(HookApplicationRecordView),
    SourcePlan(ContextSourcePlanView),
    Batch(ContextBatchView),
    Revision(ContextRevisionView),
    BoundInput(BoundInputView),
    Prompt(PromptSnapshotView),
    Assembly(ResolvedAssemblyView),
    SystemInputs(SystemInputsRecordView),
    SkillPlan(SkillPlanView),
    LoadedSkill(LoadedSkillView),
}

impl View for RecordContent {
    type V = RecordContentView;

    open spec fn view(&self) -> RecordContentView {
        match self {
            RecordContent::Opaque => RecordContentView::Opaque,
            RecordContent::Request(a) => RecordContentView::Request(a.deep_view()),
            RecordContent::Snapshot(a) => RecordContentView::Snapshot(a.deep_view()),
            RecordContent::Outcome(a) => RecordContentView::Outcome(a.deep_view()),
            RecordContent::Wait(a) => RecordContentView::Wait(a.deep_view()),
            RecordContent::Resume(a) => RecordContentView::Resume(a.deep_view()),
            RecordContent::ToolCall(a) => RecordContentView::ToolCall(a.deep_view()),
            RecordContent::ToolResult(a) => RecordContentView::ToolResult(a.deep_view()),
            RecordContent::Invocation(a) => RecordContentView::Invocation(a.deep_view()),
            RecordContent::Response(a) => RecordContentView::Response(a.deep_view()),
            RecordContent::Observation(a) => RecordContentView::Observation(a.deep_view()),
            RecordContent::Routing(a) => RecordContentView::Routing(a.deep_view()),
            RecordContent::Step(a) => RecordContentView::Step(a.deep_view()),
            RecordContent::PreparedStep(a) => RecordContentView::PreparedStep(a.deep_view()),
            RecordContent::Projection(a) => RecordContentView::Projection(a.deep_view()),
            RecordContent::ToolSet(a) => RecordContentView::ToolSet(a.deep_view()),
            RecordContent::Configuration(a) => RecordContentView::Configuration(a.deep_view()),
            RecordContent::Contract(a) => RecordContentView::Contract(a.deep_view()),
            RecordContent::InterruptionPlan(a) => RecordContentView::InterruptionPlan(a.deep_view()),
            RecordContent::Interruption(a) => RecordContentView::Interruption(a.deep_view()),
            RecordContent::VerificationPlan(a) => RecordContentView::VerificationPlan(a.deep_view()),
            RecordContent::Candidate(a) => RecordContentView::Candidate(a.deep_view()),
            RecordContent::Verification(a) => RecordContentView::Verification(a.deep_view()),
            RecordContent::Summary(a) => RecordContentView::Summary(a.deep_view()),
            RecordContent::HookPlan(a) => RecordContentView::HookPlan(a.deep_view()),
            RecordContent::HookApplication(a) => RecordContentView::HookApplication(a.deep_view()),
            RecordContent::SourcePlan(a) => RecordContentView::SourcePlan(a.deep_view()),
            RecordContent::Batch(a) => RecordContentView::Batch(a.deep_view()),
            RecordContent::Revision(a) => RecordContentView::Revision(a.deep_view()),
            RecordContent::BoundInput(a) => RecordContentView::BoundInput(a.deep_view()),
            RecordContent::Prompt(a) => RecordContentView::Prompt(a.deep_view()),
            RecordContent::Assembly(a) => RecordContentView::Assembly(a.deep_view()),
            RecordContent::SystemInputs(a) => RecordContentView::SystemInputs(a.deep_view()),
            RecordContent::SkillPlan(a) => RecordContentView::SkillPlan(a.deep_view()),
            RecordContent::LoadedSkill(a) => RecordContentView::LoadedSkill(a.deep_view()),
        }
    }
}

impl DeepView for RecordContent {
    type V = RecordContentView;

    open spec fn deep_view(&self) -> RecordContentView {
        self@
    }
}

impl Data for RecordContent {
    fn same(&self, other: &Self) -> (r: bool) {
        match (self, other) {
            (RecordContent::Opaque, RecordContent::Opaque) => true,
            (RecordContent::Request(a1), RecordContent::Request(a2)) => a1.same(a2),
            (RecordContent::Snapshot(a1), RecordContent::Snapshot(a2)) => a1.same(a2),
            (RecordContent::Outcome(a1), RecordContent::Outcome(a2)) => a1.same(a2),
            (RecordContent::Wait(a1), RecordContent::Wait(a2)) => a1.same(a2),
            (RecordContent::Resume(a1), RecordContent::Resume(a2)) => a1.same(a2),
            (RecordContent::ToolCall(a1), RecordContent::ToolCall(a2)) => a1.same(a2),
            (RecordContent::ToolResult(a1), RecordContent::ToolResult(a2)) => a1.same(a2),
            (RecordContent::Invocation(a1), RecordContent::Invocation(a2)) => a1.same(a2),
            (RecordContent::Response(a1), RecordContent::Response(a2)) => a1.same(a2),
            (RecordContent::Observation(a1), RecordContent::Observation(a2)) => a1.same(a2),
            (RecordContent::Routing(a1), RecordContent::Routing(a2)) => a1.same(a2),
            (RecordContent::Step(a1), RecordContent::Step(a2)) => a1.same(a2),
            (RecordContent::PreparedStep(a1), RecordContent::PreparedStep(a2)) => a1.same(a2),
            (RecordContent::Projection(a1), RecordContent::Projection(a2)) => a1.same(a2),
            (RecordContent::ToolSet(a1), RecordContent::ToolSet(a2)) => a1.same(a2),
            (RecordContent::Configuration(a1), RecordContent::Configuration(a2)) => a1.same(a2),
            (RecordContent::Contract(a1), RecordContent::Contract(a2)) => a1.same(a2),
            (RecordContent::InterruptionPlan(a1), RecordContent::InterruptionPlan(a2)) => a1.same(a2),
            (RecordContent::Interruption(a1), RecordContent::Interruption(a2)) => a1.same(a2),
            (RecordContent::VerificationPlan(a1), RecordContent::VerificationPlan(a2)) => a1.same(a2),
            (RecordContent::Candidate(a1), RecordContent::Candidate(a2)) => a1.same(a2),
            (RecordContent::Verification(a1), RecordContent::Verification(a2)) => a1.same(a2),
            (RecordContent::Summary(a1), RecordContent::Summary(a2)) => a1.same(a2),
            (RecordContent::HookPlan(a1), RecordContent::HookPlan(a2)) => a1.same(a2),
            (RecordContent::HookApplication(a1), RecordContent::HookApplication(a2)) => a1.same(a2),
            (RecordContent::SourcePlan(a1), RecordContent::SourcePlan(a2)) => a1.same(a2),
            (RecordContent::Batch(a1), RecordContent::Batch(a2)) => a1.same(a2),
            (RecordContent::Revision(a1), RecordContent::Revision(a2)) => a1.same(a2),
            (RecordContent::BoundInput(a1), RecordContent::BoundInput(a2)) => a1.same(a2),
            (RecordContent::Prompt(a1), RecordContent::Prompt(a2)) => a1.same(a2),
            (RecordContent::Assembly(a1), RecordContent::Assembly(a2)) => a1.same(a2),
            (RecordContent::SystemInputs(a1), RecordContent::SystemInputs(a2)) => a1.same(a2),
            (RecordContent::SkillPlan(a1), RecordContent::SkillPlan(a2)) => a1.same(a2),
            (RecordContent::LoadedSkill(a1), RecordContent::LoadedSkill(a2)) => a1.same(a2),
            _ => false,
        }
    }

    fn copy(&self) -> (r: Self) {
        match self {
            RecordContent::Opaque => RecordContent::Opaque,
            RecordContent::Request(a) => RecordContent::Request(a.copy()),
            RecordContent::Snapshot(a) => RecordContent::Snapshot(a.copy()),
            RecordContent::Outcome(a) => RecordContent::Outcome(a.copy()),
            RecordContent::Wait(a) => RecordContent::Wait(a.copy()),
            RecordContent::Resume(a) => RecordContent::Resume(a.copy()),
            RecordContent::ToolCall(a) => RecordContent::ToolCall(a.copy()),
            RecordContent::ToolResult(a) => RecordContent::ToolResult(a.copy()),
            RecordContent::Invocation(a) => RecordContent::Invocation(a.copy()),
            RecordContent::Response(a) => RecordContent::Response(a.copy()),
            RecordContent::Observation(a) => RecordContent::Observation(a.copy()),
            RecordContent::Routing(a) => RecordContent::Routing(a.copy()),
            RecordContent::Step(a) => RecordContent::Step(a.copy()),
            RecordContent::PreparedStep(a) => RecordContent::PreparedStep(a.copy()),
            RecordContent::Projection(a) => RecordContent::Projection(a.copy()),
            RecordContent::ToolSet(a) => RecordContent::ToolSet(a.copy()),
            RecordContent::Configuration(a) => RecordContent::Configuration(a.copy()),
            RecordContent::Contract(a) => RecordContent::Contract(a.copy()),
            RecordContent::InterruptionPlan(a) => RecordContent::InterruptionPlan(a.copy()),
            RecordContent::Interruption(a) => RecordContent::Interruption(a.copy()),
            RecordContent::VerificationPlan(a) => RecordContent::VerificationPlan(a.copy()),
            RecordContent::Candidate(a) => RecordContent::Candidate(a.copy()),
            RecordContent::Verification(a) => RecordContent::Verification(a.copy()),
            RecordContent::Summary(a) => RecordContent::Summary(a.copy()),
            RecordContent::HookPlan(a) => RecordContent::HookPlan(a.copy()),
            RecordContent::HookApplication(a) => RecordContent::HookApplication(a.copy()),
            RecordContent::SourcePlan(a) => RecordContent::SourcePlan(a.copy()),
            RecordContent::Batch(a) => RecordContent::Batch(a.copy()),
            RecordContent::Revision(a) => RecordContent::Revision(a.copy()),
            RecordContent::BoundInput(a) => RecordContent::BoundInput(a.copy()),
            RecordContent::Prompt(a) => RecordContent::Prompt(a.copy()),
            RecordContent::Assembly(a) => RecordContent::Assembly(a.copy()),
            RecordContent::SystemInputs(a) => RecordContent::SystemInputs(a.copy()),
            RecordContent::SkillPlan(a) => RecordContent::SkillPlan(a.copy()),
            RecordContent::LoadedSkill(a) => RecordContent::LoadedSkill(a.copy()),
        }
    }
}

/// Immutable, scope-owned data stored with its referencing state and events.
#[derive(Debug)]
pub struct ProtectedRecord {
    reference: RecordRef,
    value: Json,
    content: RecordContent,
}

#[verifier::ext_equal]
pub struct ProtectedRecordView {
    pub reference: RecordRefView,
    pub value: JsonView,
    pub content: RecordContentView,
}

impl View for ProtectedRecord {
    type V = ProtectedRecordView;

    closed spec fn view(&self) -> ProtectedRecordView {
        ProtectedRecordView {
            reference: self.reference.deep_view(),
            value: self.value.deep_view(),
            content: self.content.deep_view(),
        }
    }
}

impl DeepView for ProtectedRecord {
    type V = ProtectedRecordView;

    open spec fn deep_view(&self) -> ProtectedRecordView {
        self@
    }
}

impl Data for ProtectedRecord {
    fn same(&self, other: &Self) -> (r: bool) {
        self.reference.same(&other.reference)
            && self.value.same(&other.value)
            && self.content.same(&other.content)
    }

    fn copy(&self) -> (r: Self) {
        ProtectedRecord {
            reference: self.reference.copy(),
            value: self.value.copy(),
            content: self.content.copy(),
        }
    }
}


impl ProtectedRecord {
    /// Compute the reference digest from owned data. A revision is immutable.
    pub fn new(record_id: Id, revision: u64, value: Json, content: RecordContent) -> (r: Self)
        ensures
            r@.reference.record_id == record_id@,
            r@.reference.revision == revision,
            r@.reference.digest == digest_of(value@),
            r@.value == value@,
            r@.content == content@,
    {
        ProtectedRecord {
            reference: RecordRef { record_id, revision, digest: canonical_digest(&value) },
            value,
            content,
        }
    }

    /// Exact immutable record identity, without its payload.
    pub fn reference(&self) -> (r: &RecordRef)
        ensures
            r@ == self@.reference,
    {
        &self.reference
    }

    /// Explicit privileged access, never an automatic public or model projection.
    pub fn value(&self) -> (r: &Json)
        ensures
            r@ == self@.value,
    {
        &self.value
    }

    /// The typed reading of the document.
    pub fn content(&self) -> (r: &RecordContent)
        ensures
            r@ == self@.content,
    {
        &self.content
    }
}

/// A type that records are read as.
pub trait Recorded: Data {
    /// What a content is when it is read as this type.
    spec fn reading(content: RecordContentView) -> Option<<Self as DeepView>::V>;

    /// Read a content as this type.
    fn read(content: &RecordContent) -> (r: Option<&Self>)
        ensures
            r.deep_view() == Self::reading(content@),
    ;
}

impl Recorded for RunRequest {
    open spec fn reading(content: RecordContentView) -> Option<RunRequestView> {
        match content {
            RecordContentView::Request(value) => Some(value),
            _ => None,
        }
    }

    fn read(content: &RecordContent) -> (r: Option<&Self>) {
        match content {
            RecordContent::Request(value) => Some(value),
            _ => None,
        }
    }
}

impl Recorded for RunSnapshot {
    open spec fn reading(content: RecordContentView) -> Option<RunSnapshotView> {
        match content {
            RecordContentView::Snapshot(value) => Some(value),
            _ => None,
        }
    }

    fn read(content: &RecordContent) -> (r: Option<&Self>) {
        match content {
            RecordContent::Snapshot(value) => Some(&**value),
            _ => None,
        }
    }
}

impl Recorded for RunOutcome {
    open spec fn reading(content: RecordContentView) -> Option<RunOutcomeView> {
        match content {
            RecordContentView::Outcome(value) => Some(value),
            _ => None,
        }
    }

    fn read(content: &RecordContent) -> (r: Option<&Self>) {
        match content {
            RecordContent::Outcome(value) => Some(value),
            _ => None,
        }
    }
}

impl Recorded for WaitState {
    open spec fn reading(content: RecordContentView) -> Option<WaitStateView> {
        match content {
            RecordContentView::Wait(value) => Some(value),
            _ => None,
        }
    }

    fn read(content: &RecordContent) -> (r: Option<&Self>) {
        match content {
            RecordContent::Wait(value) => Some(value),
            _ => None,
        }
    }
}

impl Recorded for ResumeCommand {
    open spec fn reading(content: RecordContentView) -> Option<ResumeCommandView> {
        match content {
            RecordContentView::Resume(value) => Some(value),
            _ => None,
        }
    }

    fn read(content: &RecordContent) -> (r: Option<&Self>) {
        match content {
            RecordContent::Resume(value) => Some(value),
            _ => None,
        }
    }
}

impl Recorded for ToolCall {
    open spec fn reading(content: RecordContentView) -> Option<ToolCallView> {
        match content {
            RecordContentView::ToolCall(value) => Some(value),
            _ => None,
        }
    }

    fn read(content: &RecordContent) -> (r: Option<&Self>) {
        match content {
            RecordContent::ToolCall(value) => Some(value),
            _ => None,
        }
    }
}

impl Recorded for ToolResult {
    open spec fn reading(content: RecordContentView) -> Option<ToolResultView> {
        match content {
            RecordContentView::ToolResult(value) => Some(value),
            _ => None,
        }
    }

    fn read(content: &RecordContent) -> (r: Option<&Self>) {
        match content {
            RecordContent::ToolResult(value) => Some(value),
            _ => None,
        }
    }
}

impl Recorded for ModelInvocationRecord {
    open spec fn reading(content: RecordContentView) -> Option<ModelInvocationRecordView> {
        match content {
            RecordContentView::Invocation(value) => Some(value),
            _ => None,
        }
    }

    fn read(content: &RecordContent) -> (r: Option<&Self>) {
        match content {
            RecordContent::Invocation(value) => Some(value),
            _ => None,
        }
    }
}

impl Recorded for StoredModelResponse {
    open spec fn reading(content: RecordContentView) -> Option<StoredModelResponseView> {
        match content {
            RecordContentView::Response(value) => Some(value),
            _ => None,
        }
    }

    fn read(content: &RecordContent) -> (r: Option<&Self>) {
        match content {
            RecordContent::Response(value) => Some(value),
            _ => None,
        }
    }
}

impl Recorded for ModelRouteObservation {
    open spec fn reading(content: RecordContentView) -> Option<ModelRouteObservationView> {
        match content {
            RecordContentView::Observation(value) => Some(value),
            _ => None,
        }
    }

    fn read(content: &RecordContent) -> (r: Option<&Self>) {
        match content {
            RecordContent::Observation(value) => Some(value),
            _ => None,
        }
    }
}

impl Recorded for RoutingData {
    open spec fn reading(content: RecordContentView) -> Option<RoutingDataView> {
        match content {
            RecordContentView::Routing(value) => Some(value),
            _ => None,
        }
    }

    fn read(content: &RecordContent) -> (r: Option<&Self>) {
        match content {
            RecordContent::Routing(value) => Some(&**value),
            _ => None,
        }
    }
}

impl Recorded for SavedStep {
    open spec fn reading(content: RecordContentView) -> Option<SavedStepView> {
        match content {
            RecordContentView::Step(value) => Some(value),
            _ => None,
        }
    }

    fn read(content: &RecordContent) -> (r: Option<&Self>) {
        match content {
            RecordContent::Step(value) => Some(value),
            _ => None,
        }
    }
}

impl Recorded for PreparedStepRecord {
    open spec fn reading(content: RecordContentView) -> Option<PreparedStepRecordView> {
        match content {
            RecordContentView::PreparedStep(value) => Some(value),
            _ => None,
        }
    }

    fn read(content: &RecordContent) -> (r: Option<&Self>) {
        match content {
            RecordContent::PreparedStep(value) => Some(value),
            _ => None,
        }
    }
}

impl Recorded for PreparedModelProjection {
    open spec fn reading(content: RecordContentView) -> Option<PreparedModelProjectionView> {
        match content {
            RecordContentView::Projection(value) => Some(value),
            _ => None,
        }
    }

    fn read(content: &RecordContent) -> (r: Option<&Self>) {
        match content {
            RecordContent::Projection(value) => Some(&**value),
            _ => None,
        }
    }
}

impl Recorded for ResolvedToolSet {
    open spec fn reading(content: RecordContentView) -> Option<ResolvedToolSetView> {
        match content {
            RecordContentView::ToolSet(value) => Some(value),
            _ => None,
        }
    }

    fn read(content: &RecordContent) -> (r: Option<&Self>) {
        match content {
            RecordContent::ToolSet(value) => Some(value),
            _ => None,
        }
    }
}

impl Recorded for SavedConfiguration {
    open spec fn reading(content: RecordContentView) -> Option<SavedConfigurationView> {
        match content {
            RecordContentView::Configuration(value) => Some(value),
            _ => None,
        }
    }

    fn read(content: &RecordContent) -> (r: Option<&Self>) {
        match content {
            RecordContent::Configuration(value) => Some(value),
            _ => None,
        }
    }
}

impl Recorded for SavedContract {
    open spec fn reading(content: RecordContentView) -> Option<SavedContractView> {
        match content {
            RecordContentView::Contract(value) => Some(value),
            _ => None,
        }
    }

    fn read(content: &RecordContent) -> (r: Option<&Self>) {
        match content {
            RecordContent::Contract(value) => Some(value),
            _ => None,
        }
    }
}

impl Recorded for InterruptionPlan {
    open spec fn reading(content: RecordContentView) -> Option<InterruptionPlanView> {
        match content {
            RecordContentView::InterruptionPlan(value) => Some(value),
            _ => None,
        }
    }

    fn read(content: &RecordContent) -> (r: Option<&Self>) {
        match content {
            RecordContent::InterruptionPlan(value) => Some(value),
            _ => None,
        }
    }
}

impl Recorded for InterruptionDecisionRecord {
    open spec fn reading(content: RecordContentView) -> Option<InterruptionDecisionRecordView> {
        match content {
            RecordContentView::Interruption(value) => Some(value),
            _ => None,
        }
    }

    fn read(content: &RecordContent) -> (r: Option<&Self>) {
        match content {
            RecordContent::Interruption(value) => Some(value),
            _ => None,
        }
    }
}

impl Recorded for VerificationPlan {
    open spec fn reading(content: RecordContentView) -> Option<VerificationPlanView> {
        match content {
            RecordContentView::VerificationPlan(value) => Some(value),
            _ => None,
        }
    }

    fn read(content: &RecordContent) -> (r: Option<&Self>) {
        match content {
            RecordContent::VerificationPlan(value) => Some(value),
            _ => None,
        }
    }
}

impl Recorded for VerificationCandidate {
    open spec fn reading(content: RecordContentView) -> Option<VerificationCandidateView> {
        match content {
            RecordContentView::Candidate(value) => Some(value),
            _ => None,
        }
    }

    fn read(content: &RecordContent) -> (r: Option<&Self>) {
        match content {
            RecordContent::Candidate(value) => Some(value),
            _ => None,
        }
    }
}

impl Recorded for VerificationRecord {
    open spec fn reading(content: RecordContentView) -> Option<VerificationRecordView> {
        match content {
            RecordContentView::Verification(value) => Some(value),
            _ => None,
        }
    }

    fn read(content: &RecordContent) -> (r: Option<&Self>) {
        match content {
            RecordContent::Verification(value) => Some(value),
            _ => None,
        }
    }
}

impl Recorded for VerificationSummary {
    open spec fn reading(content: RecordContentView) -> Option<VerificationSummaryView> {
        match content {
            RecordContentView::Summary(value) => Some(value),
            _ => None,
        }
    }

    fn read(content: &RecordContent) -> (r: Option<&Self>) {
        match content {
            RecordContent::Summary(value) => Some(value),
            _ => None,
        }
    }
}

impl Recorded for HookPlan {
    open spec fn reading(content: RecordContentView) -> Option<HookPlanView> {
        match content {
            RecordContentView::HookPlan(value) => Some(value),
            _ => None,
        }
    }

    fn read(content: &RecordContent) -> (r: Option<&Self>) {
        match content {
            RecordContent::HookPlan(value) => Some(value),
            _ => None,
        }
    }
}

impl Recorded for HookApplicationRecord {
    open spec fn reading(content: RecordContentView) -> Option<HookApplicationRecordView> {
        match content {
            RecordContentView::HookApplication(value) => Some(value),
            _ => None,
        }
    }

    fn read(content: &RecordContent) -> (r: Option<&Self>) {
        match content {
            RecordContent::HookApplication(value) => Some(&**value),
            _ => None,
        }
    }
}

impl Recorded for ContextSourcePlan {
    open spec fn reading(content: RecordContentView) -> Option<ContextSourcePlanView> {
        match content {
            RecordContentView::SourcePlan(value) => Some(value),
            _ => None,
        }
    }

    fn read(content: &RecordContent) -> (r: Option<&Self>) {
        match content {
            RecordContent::SourcePlan(value) => Some(value),
            _ => None,
        }
    }
}

impl Recorded for ContextBatch {
    open spec fn reading(content: RecordContentView) -> Option<ContextBatchView> {
        match content {
            RecordContentView::Batch(value) => Some(value),
            _ => None,
        }
    }

    fn read(content: &RecordContent) -> (r: Option<&Self>) {
        match content {
            RecordContent::Batch(value) => Some(&**value),
            _ => None,
        }
    }
}

impl Recorded for ContextRevision {
    open spec fn reading(content: RecordContentView) -> Option<ContextRevisionView> {
        match content {
            RecordContentView::Revision(value) => Some(value),
            _ => None,
        }
    }

    fn read(content: &RecordContent) -> (r: Option<&Self>) {
        match content {
            RecordContent::Revision(value) => Some(value),
            _ => None,
        }
    }
}

impl Recorded for BoundInput {
    open spec fn reading(content: RecordContentView) -> Option<BoundInputView> {
        match content {
            RecordContentView::BoundInput(value) => Some(value),
            _ => None,
        }
    }

    fn read(content: &RecordContent) -> (r: Option<&Self>) {
        match content {
            RecordContent::BoundInput(value) => Some(value),
            _ => None,
        }
    }
}

impl Recorded for PromptSnapshot {
    open spec fn reading(content: RecordContentView) -> Option<PromptSnapshotView> {
        match content {
            RecordContentView::Prompt(value) => Some(value),
            _ => None,
        }
    }

    fn read(content: &RecordContent) -> (r: Option<&Self>) {
        match content {
            RecordContent::Prompt(value) => Some(value),
            _ => None,
        }
    }
}

impl Recorded for ResolvedAssembly {
    open spec fn reading(content: RecordContentView) -> Option<ResolvedAssemblyView> {
        match content {
            RecordContentView::Assembly(value) => Some(value),
            _ => None,
        }
    }

    fn read(content: &RecordContent) -> (r: Option<&Self>) {
        match content {
            RecordContent::Assembly(value) => Some(value),
            _ => None,
        }
    }
}

impl Recorded for SystemInputsRecord {
    open spec fn reading(content: RecordContentView) -> Option<SystemInputsRecordView> {
        match content {
            RecordContentView::SystemInputs(value) => Some(value),
            _ => None,
        }
    }

    fn read(content: &RecordContent) -> (r: Option<&Self>) {
        match content {
            RecordContent::SystemInputs(value) => Some(value),
            _ => None,
        }
    }
}

impl Recorded for SkillPlan {
    open spec fn reading(content: RecordContentView) -> Option<SkillPlanView> {
        match content {
            RecordContentView::SkillPlan(value) => Some(value),
            _ => None,
        }
    }

    fn read(content: &RecordContent) -> (r: Option<&Self>) {
        match content {
            RecordContent::SkillPlan(value) => Some(value),
            _ => None,
        }
    }
}

impl Recorded for LoadedSkill {
    open spec fn reading(content: RecordContentView) -> Option<LoadedSkillView> {
        match content {
            RecordContentView::LoadedSkill(value) => Some(value),
            _ => None,
        }
    }

    fn read(content: &RecordContent) -> (r: Option<&Self>) {
        match content {
            RecordContent::LoadedSkill(value) => Some(value),
            _ => None,
        }
    }
}

/// The records that a transaction sees: those that it adds, and otherwise the stored ones.
pub struct Records<'a> {
    pub stored: &'a Table<RecordKey, ProtectedRecord>,
    pub added: &'a Table<RecordKey, ProtectedRecord>,
}

impl<'a> View for Records<'a> {
    type V = Map<RecordKeyView, ProtectedRecordView>;

    open spec fn view(&self) -> Map<RecordKeyView, ProtectedRecordView> {
        self.stored@.union_prefer_right(self.added@)
    }
}

/// Why a reference cannot be followed.
pub open spec fn record_fault(
    records: Map<RecordKeyView, ProtectedRecordView>,
    reference: RecordRefView,
) -> Option<Fault> {
    if !records.dom().contains(key_of(reference)) {
        fault(ErrorCode::StateNotFound, "state")
    } else if records[key_of(reference)].reference != reference {
        fault(ErrorCode::RecordConflict, "record.reference")
    } else {
        None
    }
}

/// Why a reference cannot be followed to a record that reads as `T`.
pub open spec fn read_fault<T: Recorded>(
    records: Map<RecordKeyView, ProtectedRecordView>,
    reference: RecordRefView,
    code: ErrorCode,
    path: &str,
) -> Option<Fault> {
    or_else(
        record_fault(records, reference),
        if T::reading(records[key_of(reference)].content) is None {
            fault(code, path)
        } else {
            None
        },
    )
}

/// Why a reference cannot be followed to an event's record that reads as `T`.
pub open spec fn event_fault<T: Recorded>(
    records: Map<RecordKeyView, ProtectedRecordView>,
    reference: RecordRefView,
) -> Option<Fault> {
    read_fault::<T>(records, reference, ErrorCode::InvalidEvent, "events.record")
}

/// What a reference reads as.
pub open spec fn value_at<T: Recorded>(
    records: Map<RecordKeyView, ProtectedRecordView>,
    reference: RecordRefView,
) -> T::V {
    T::reading(records[key_of(reference)].content)->Some_0
}

impl<'a> Records<'a> {
    /// Follow a reference.
    pub fn record(&self, reference: &RecordRef) -> (r: Result<&'a ProtectedRecord, ContractError>)
        ensures
            failure(r) == record_fault(self@, reference@),
            r matches Ok(record) ==> record@ == self@[key_of(reference@)],
    {
        let key = record_key(reference);
        let found = match self.added.get(&key) {
            Some(record) => Some(record),
            None => self.stored.get(&key),
        };
        match found {
            Some(record) => {
                if !record.reference().same(reference) {
                    return fail(ErrorCode::RecordConflict, "record.reference");
                }
                Ok(record)
            },
            None => fail(ErrorCode::StateNotFound, "state"),
        }
    }

    /// The record at a place, whatever its digest.
    pub fn at(&self, key: &RecordKey) -> (r: Option<&'a ProtectedRecord>)
        ensures
            r.deep_view() == (if self@.dom().contains(key@) {
                Some(self@[key@])
            } else {
                None
            }),
    {
        match self.added.get(key) {
            Some(record) => Some(record),
            None => self.stored.get(key),
        }
    }

    /// Check that a reference can be followed.
    pub fn check(&self, reference: &RecordRef) -> (r: Result<(), ContractError>)
        ensures
            failure(r) == record_fault(self@, reference@),
    {
        self.record(reference)?;
        Ok(())
    }

    /// Follow a reference to a record that reads as `T`.
    pub fn read<T: Recorded>(&self, reference: &RecordRef, code: ErrorCode, path: &str) -> (r: Result<
        &'a T,
        ContractError,
    >)
        ensures
            failure(r) == read_fault::<T>(self@, reference@, code, path),
            r matches Ok(value) ==> value.deep_view() == value_at::<T>(self@, reference@),
    {
        let record: &'a ProtectedRecord = self.record(reference)?;
        match T::read(&record.content) {
            Some(value) => Ok(value),
            None => fail(code, path),
        }
    }

    /// Follow an event's reference to a record that reads as `T`.
    pub fn event_record<T: Recorded>(&self, reference: &RecordRef) -> (r: Result<&'a T, ContractError>)
        ensures
            failure(r) == event_fault::<T>(self@, reference@),
            r matches Ok(value) ==> value.deep_view() == value_at::<T>(self@, reference@),
    {
        self.read::<T>(reference, ErrorCode::InvalidEvent, "events.record")
    }
}

} // verus!
