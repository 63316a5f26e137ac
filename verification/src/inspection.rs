//! Read-only composition reports derived from stored evidence.
use vstd::prelude::*;

use crate::content::InputContent;
#[allow(unused_imports)]
use crate::content::InputContentView;
use crate::context::{ContextFragment, ContextOrigin, FragmentIdentity, FragmentValue};
#[allow(unused_imports)]
use crate::context::{ContextFragmentView, ContextItemView, FragmentIdentityView, FragmentValueView};
use crate::context_strategy::records::own;
use crate::data::{any, contains, find, map_each, Data};
#[allow(unused_imports)]
use crate::data::{first_in, lemma_first_in, some_in};
use crate::error::{fail, ContractError, ErrorCode};
#[allow(unused_imports)]
use crate::error::{failure, Fault};
use crate::execution_contracts::PreparedStepRecord;
#[allow(unused_imports)]
use crate::execution_contracts::PreparedStepRecordView;
use crate::json::{Json, Member};
#[allow(unused_imports)]
use crate::json::{lemma_array_view, lemma_object_view, JsonView, MemberView};
use crate::model::{
    ApiContract, ModelAttemptState, ModelInvocationRecord, ModelPurpose, ModelTool, ModelUsage,
    ResolvedModelRoute, VersionSemantics,
};
#[allow(unused_imports)]
use crate::model::{
    route_digest, ApiContractView, ModelAttemptStateView, ModelInvocationRecordView, ModelToolView,
    ModelUsageView, ResolvedModelRouteView,
};
use crate::model_options::ModelConfiguration;
#[allow(unused_imports)]
use crate::model_options::ModelConfigurationView;
use crate::prepared_step::PreparedModelProjection;
#[allow(unused_imports)]
use crate::prepared_step::{PreparedModelProjectionView, ProjectionProvenanceView};
use crate::prompt::PinnedPromptTool;
#[allow(unused_imports)]
use crate::prompt::PinnedPromptToolView;
use crate::provider_tool_schema::{
    encode_contract_data, encode_decode_plan, CompiledToolContract, ProviderToolTarget, SavedContract,
    ToolConstraintEnforcement, ToolConstraintFragment,
};
#[allow(unused_imports)]
use crate::provider_tool_schema::{
    contract_data_json, decode_plan_json, first_version, refused, second_version, ProviderToolTargetView,
    SavedContractView, ToolConstraintEnforcementView, ToolConstraintFragmentView,
};
use crate::refs::{RecordRef, VersionedRef};
#[allow(unused_imports)]
use crate::refs::{RecordRefView, VersionedRefView};
use crate::run::{OutcomeResult, RunLimits, RunOutcome, RunStatus};
#[allow(unused_imports)]
use crate::run::{OutcomeResultView, RunLimitsView, RunOutcomeView};
use crate::serialization::{canonical_digest, Id, JsonDigest};
#[allow(unused_imports)]
use crate::serialization::digest_of;
use crate::text::{chars_of, concat, decimal, has_word, is_alphanumeric, reads, to_lowercase};
#[allow(unused_imports)]
use crate::text::{alphanumeric, decimal_text, holds, lowercase};

verus! {

/// Identify persisted preparation without supplying runtime objects.
#[derive(Debug)]
pub enum StepRef {
    /// Exact logical input revision and purpose.
    Logical {
        model_step_id: Id,
        purpose: ModelPurpose,
        projection_revision: u64,
    },
    /// A preparation record belonging to this run.
    Prepared {
        record_id: Id,
    },
}

#[verifier::ext_equal]
pub enum StepRefView {
    Logical {
        model_step_id: Seq<char>,
        purpose: ModelPurpose,
        projection_revision: u64,
    },
    Prepared {
        record_id: Seq<char>,
    },
}

impl View for StepRef {
    type V = StepRefView;

    open spec fn view(&self) -> StepRefView {
        match self {
            StepRef::Logical { model_step_id, purpose, projection_revision } => StepRefView::Logical { model_step_id: model_step_id.deep_view(), purpose: purpose.deep_view(), projection_revision: projection_revision.deep_view() },
            StepRef::Prepared { record_id } => StepRefView::Prepared { record_id: record_id.deep_view() },
        }
    }
}

impl DeepView for StepRef {
    type V = StepRefView;

    open spec fn deep_view(&self) -> StepRefView {
        self@
    }
}

impl Data for StepRef {
    fn same(&self, other: &Self) -> (r: bool) {
        match (self, other) {
            (StepRef::Logical { model_step_id: model_step_id1, purpose: purpose1, projection_revision: projection_revision1 }, StepRef::Logical { model_step_id: model_step_id2, purpose: purpose2, projection_revision: projection_revision2 }) => model_step_id1.same(model_step_id2) && purpose1.same(purpose2) && projection_revision1.same(projection_revision2),
            (StepRef::Prepared { record_id: record_id1 }, StepRef::Prepared { record_id: record_id2 }) => record_id1.same(record_id2),
            _ => false,
        }
    }

    fn copy(&self) -> (r: Self) {
        match self {
            StepRef::Logical { model_step_id, purpose, projection_revision } => StepRef::Logical { model_step_id: model_step_id.copy(), purpose: purpose.copy(), projection_revision: projection_revision.copy() },
            StepRef::Prepared { record_id } => StepRef::Prepared { record_id: record_id.copy() },
        }
    }
}

/// Display options, never execution or credential-disclosure permission.
#[derive(Debug)]
pub struct InspectionOptions {
    /// Request source fragment content; each item still needs current permission.
    pub include_context_content: bool,
}

#[verifier::ext_equal]
pub struct InspectionOptionsView {
    pub include_context_content: bool,
}

impl View for InspectionOptions {
    type V = InspectionOptionsView;

    open spec fn view(&self) -> InspectionOptionsView {
        InspectionOptionsView {
            include_context_content: self.include_context_content.deep_view(),
        }
    }
}

impl DeepView for InspectionOptions {
    type V = InspectionOptionsView;

    open spec fn deep_view(&self) -> InspectionOptionsView {
        self@
    }
}

impl Data for InspectionOptions {
    fn same(&self, other: &Self) -> (r: bool) {
        self.include_context_content.same(&other.include_context_content)
    }

    fn copy(&self) -> (r: Self) {
        InspectionOptions {
            include_context_content: self.include_context_content.copy(),
        }
    }
}

/// Exact saved content set covered by the final diagnostic authorization.
#[derive(Debug)]
pub struct InspectionFragmentRef {
    /// Scoped producer and native fragment identity.
    pub identity: FragmentIdentity,
    /// Exact core observation.
    pub core_revision: u64,
    /// Original content identity.
    pub content_digest: JsonDigest,
}

#[verifier::ext_equal]
pub struct InspectionFragmentRefView {
    pub identity: FragmentIdentityView,
    pub core_revision: u64,
    pub content_digest: Seq<char>,
}

impl View for InspectionFragmentRef {
    type V = InspectionFragmentRefView;

    open spec fn view(&self) -> InspectionFragmentRefView {
        InspectionFragmentRefView {
            identity: self.identity.deep_view(),
            core_revision: self.core_revision.deep_view(),
            content_digest: self.content_digest.deep_view(),
        }
    }
}

impl DeepView for InspectionFragmentRef {
    type V = InspectionFragmentRefView;

    open spec fn deep_view(&self) -> InspectionFragmentRefView {
        self@
    }
}

impl Data for InspectionFragmentRef {
    fn same(&self, other: &Self) -> (r: bool) {
        self.identity.same(&other.identity)
            && self.core_revision.same(&other.core_revision)
            && self.content_digest.same(&other.content_digest)
    }

    fn copy(&self) -> (r: Self) {
        InspectionFragmentRef {
            identity: self.identity.copy(),
            core_revision: self.core_revision.copy(),
            content_digest: self.content_digest.copy(),
        }
    }
}

/// Whether persisted evidence was available, without recreating it.
#[derive(Debug, Clone, Copy, PartialEq, Eq, Structural)]
pub enum InspectionStatus {
    /// Selected preparation and its required records were available.
    Found,
    /// Some referenced evidence is absent or explicitly expired.
    Partial,
    /// No matching preparation or record exists.
    NotFound,
    /// The store explicitly classified the selected record as expired.
    Expired,
}

impl View for InspectionStatus {
    type V = InspectionStatus;

    open spec fn view(&self) -> InspectionStatus {
        *self
    }
}

impl DeepView for InspectionStatus {
    type V = InspectionStatus;

    open spec fn deep_view(&self) -> InspectionStatus {
        *self
    }
}

impl Data for InspectionStatus {
    fn same(&self, other: &Self) -> (r: bool) {
        *self == *other
    }

    fn copy(&self) -> (r: Self) {
        *self
    }
}

/// Why one report field cannot be populated.
#[derive(Debug)]
pub struct UnresolvedInspectionField {
    /// Safe field or category name, not a storage error payload.
    pub field: String,
    /// Missing record identity when known.
    pub record_id: Option<Id>,
    /// `not_found`, `expired`, or `not_recorded`.
    pub reason: String,
}

#[verifier::ext_equal]
pub struct UnresolvedInspectionFieldView {
    pub field: Seq<char>,
    pub record_id: Option<Seq<char>>,
    pub reason: Seq<char>,
}

impl View for UnresolvedInspectionField {
    type V = UnresolvedInspectionFieldView;

    open spec fn view(&self) -> UnresolvedInspectionFieldView {
        UnresolvedInspectionFieldView {
            field: self.field.deep_view(),
            record_id: self.record_id.deep_view(),
            reason: self.reason.deep_view(),
        }
    }
}

impl DeepView for UnresolvedInspectionField {
    type V = UnresolvedInspectionFieldView;

    open spec fn deep_view(&self) -> UnresolvedInspectionFieldView {
        self@
    }
}

impl Data for UnresolvedInspectionField {
    fn same(&self, other: &Self) -> (r: bool) {
        self.field.same(&other.field)
            && self.record_id.same(&other.record_id)
            && self.reason.same(&other.reason)
    }

    fn copy(&self) -> (r: Self) {
        UnresolvedInspectionField {
            field: self.field.copy(),
            record_id: self.record_id.copy(),
            reason: self.reason.copy(),
        }
    }
}

/// Facts a stored record supports; none asserts business success.
#[derive(Debug, Clone, Copy, PartialEq, Eq, Structural)]
pub enum InspectionEvidence {
    /// A model input was prepared and saved.
    Prepared,
    /// A physical call budget was reserved, not proof of transmission.
    DispatchReserved,
    /// A response record was observed and saved.
    ResponseObserved,
    /// No saved response proves whether transmission occurred.
    TransmissionUnknown,
}

impl View for InspectionEvidence {
    type V = InspectionEvidence;

    open spec fn view(&self) -> InspectionEvidence {
        *self
    }
}

impl DeepView for InspectionEvidence {
    type V = InspectionEvidence;

    open spec fn deep_view(&self) -> InspectionEvidence {
        *self
    }
}

impl Data for InspectionEvidence {
    fn same(&self, other: &Self) -> (r: bool) {
        *self == *other
    }

    fn copy(&self) -> (r: Self) {
        *self
    }
}

/// Authoritative run outcome metadata associated with the inspected snapshot.
#[derive(Debug)]
pub struct OutcomeComposition {
    /// Saved status, not an inspector verdict.
    pub status: RunStatus,
    /// Exact settlement revision.
    pub checkpoint_revision: u64,
    /// Present only when the saved run succeeded; turn-ended is not verified business success.
    pub completion_basis: Option<Id>,
}

#[verifier::ext_equal]
pub struct OutcomeCompositionView {
    pub status: RunStatus,
    pub checkpoint_revision: u64,
    pub completion_basis: Option<Seq<char>>,
}

impl View for OutcomeComposition {
    type V = OutcomeCompositionView;

    open spec fn view(&self) -> OutcomeCompositionView {
        OutcomeCompositionView {
            status: self.status.deep_view(),
            checkpoint_revision: self.checkpoint_revision.deep_view(),
            completion_basis: self.completion_basis.deep_view(),
        }
    }
}

impl DeepView for OutcomeComposition {
    type V = OutcomeCompositionView;

    open spec fn deep_view(&self) -> OutcomeCompositionView {
        self@
    }
}

impl Data for OutcomeComposition {
    fn same(&self, other: &Self) -> (r: bool) {
        self.status.same(&other.status)
            && self.checkpoint_revision.same(&other.checkpoint_revision)
            && self.completion_basis.same(&other.completion_basis)
    }

    fn copy(&self) -> (r: Self) {
        OutcomeComposition {
            status: self.status.copy(),
            checkpoint_revision: self.checkpoint_revision.copy(),
            completion_basis: self.completion_basis.copy(),
        }
    }
}

/// Model metadata with connection references and target configuration omitted.
#[derive(Debug)]
pub struct ModelComposition {
    pub provider: Id,
    pub requested_model: Id,
    pub model_id: Id,
    pub model_version: Id,
    pub version_semantics: VersionSemantics,
    pub adapter: VersionedRef,
    pub api_contract: ApiContract,
    pub capability_revision: Id,
    /// Original route identity, without exposing its protected fields.
    pub route_digest: JsonDigest,
    /// Requested and effective inference options and origins, with sensitive fields redacted.
    pub configuration: Option<ModelConfiguration>,
}

#[verifier::ext_equal]
pub struct ModelCompositionView {
    pub provider: Seq<char>,
    pub requested_model: Seq<char>,
    pub model_id: Seq<char>,
    pub model_version: Seq<char>,
    pub version_semantics: VersionSemantics,
    pub adapter: VersionedRefView,
    pub api_contract: ApiContractView,
    pub capability_revision: Seq<char>,
    pub route_digest: Seq<char>,
    pub configuration: Option<ModelConfigurationView>,
}

impl View for ModelComposition {
    type V = ModelCompositionView;

    open spec fn view(&self) -> ModelCompositionView {
        ModelCompositionView {
            provider: self.provider.deep_view(),
            requested_model: self.requested_model.deep_view(),
            model_id: self.model_id.deep_view(),
            model_version: self.model_version.deep_view(),
            version_semantics: self.version_semantics.deep_view(),
            adapter: self.adapter.deep_view(),
            api_contract: self.api_contract.deep_view(),
            capability_revision: self.capability_revision.deep_view(),
            route_digest: self.route_digest.deep_view(),
            configuration: self.configuration.deep_view(),
        }
    }
}

impl DeepView for ModelComposition {
    type V = ModelCompositionView;

    open spec fn deep_view(&self) -> ModelCompositionView {
        self@
    }
}

impl Data for ModelComposition {
    fn same(&self, other: &Self) -> (r: bool) {
        self.provider.same(&other.provider)
            && self.requested_model.same(&other.requested_model)
            && self.model_id.same(&other.model_id)
            && self.model_version.same(&other.model_version)
            && self.version_semantics.same(&other.version_semantics)
            && self.adapter.same(&other.adapter)
            && self.api_contract.same(&other.api_contract)
            && self.capability_revision.same(&other.capability_revision)
            && self.route_digest.same(&other.route_digest)
            && self.configuration.same(&other.configuration)
    }

    fn copy(&self) -> (r: Self) {
        ModelComposition {
            provider: self.provider.copy(),
            requested_model: self.requested_model.copy(),
            model_id: self.model_id.copy(),
            model_version: self.model_version.copy(),
            version_semantics: self.version_semantics.copy(),
            adapter: self.adapter.copy(),
            api_contract: self.api_contract.copy(),
            capability_revision: self.capability_revision.copy(),
            route_digest: self.route_digest.copy(),
            configuration: self.configuration.copy(),
        }
    }
}

/// Source and identity of trusted compiler-generated constraint text.
#[derive(Debug)]
pub struct ConstraintComposition {
    pub fragment_id: Id,
    pub digest: JsonDigest,
    pub source: VersionedRef,
}

#[verifier::ext_equal]
pub struct ConstraintCompositionView {
    pub fragment_id: Seq<char>,
    pub digest: Seq<char>,
    pub source: VersionedRefView,
}

impl View for ConstraintComposition {
    type V = ConstraintCompositionView;

    open spec fn view(&self) -> ConstraintCompositionView {
        ConstraintCompositionView {
            fragment_id: self.fragment_id.deep_view(),
            digest: self.digest.deep_view(),
            source: self.source.deep_view(),
        }
    }
}

impl DeepView for ConstraintComposition {
    type V = ConstraintCompositionView;

    open spec fn deep_view(&self) -> ConstraintCompositionView {
        self@
    }
}

impl Data for ConstraintComposition {
    fn same(&self, other: &Self) -> (r: bool) {
        self.fragment_id.same(&other.fragment_id)
            && self.digest.same(&other.digest)
            && self.source.same(&other.source)
    }

    fn copy(&self) -> (r: Self) {
        ConstraintComposition {
            fragment_id: self.fragment_id.copy(),
            digest: self.digest.copy(),
            source: self.source.copy(),
        }
    }
}

/// Safe schema and compiler evidence for an advertised tool.
#[derive(Debug)]
pub struct ToolComposition {
    pub tool: VersionedRef,
    pub canonical_name: Id,
    /// Canonical model-only schema, with display redaction.
    pub canonical_schema: Json,
    pub canonical_schema_digest: JsonDigest,
    pub provider_name: Option<Id>,
    /// Provider model-only schema, with display redaction.
    pub provider_schema: Option<Json>,
    pub compiler: Option<VersionedRef>,
    pub compiled_digest: Option<JsonDigest>,
    /// Identity of the saved argument decoding plan; not execution arguments.
    pub decode_plan_digest: Option<JsonDigest>,
    /// Constraint explanation metadata; the text is omitted.
    pub constraints: Vec<ConstraintComposition>,
    pub enforcement: Vec<ToolConstraintEnforcement>,
}

#[verifier::ext_equal]
pub struct ToolCompositionView {
    pub tool: VersionedRefView,
    pub canonical_name: Seq<char>,
    pub canonical_schema: JsonView,
    pub canonical_schema_digest: Seq<char>,
    pub provider_name: Option<Seq<char>>,
    pub provider_schema: Option<JsonView>,
    pub compiler: Option<VersionedRefView>,
    pub compiled_digest: Option<Seq<char>>,
    pub decode_plan_digest: Option<Seq<char>>,
    pub constraints: Seq<ConstraintCompositionView>,
    pub enforcement: Seq<ToolConstraintEnforcementView>,
}

impl View for ToolComposition {
    type V = ToolCompositionView;

    open spec fn view(&self) -> ToolCompositionView {
        ToolCompositionView {
            tool: self.tool.deep_view(),
            canonical_name: self.canonical_name.deep_view(),
            canonical_schema: self.canonical_schema.deep_view(),
            canonical_schema_digest: self.canonical_schema_digest.deep_view(),
            provider_name: self.provider_name.deep_view(),
            provider_schema: self.provider_schema.deep_view(),
            compiler: self.compiler.deep_view(),
            compiled_digest: self.compiled_digest.deep_view(),
            decode_plan_digest: self.decode_plan_digest.deep_view(),
            constraints: self.constraints.deep_view(),
            enforcement: self.enforcement.deep_view(),
        }
    }
}

impl DeepView for ToolComposition {
    type V = ToolCompositionView;

    open spec fn deep_view(&self) -> ToolCompositionView {
        self@
    }
}

impl Data for ToolComposition {
    fn same(&self, other: &Self) -> (r: bool) {
        self.tool.same(&other.tool)
            && self.canonical_name.same(&other.canonical_name)
            && self.canonical_schema.same(&other.canonical_schema)
            && self.canonical_schema_digest.same(&other.canonical_schema_digest)
            && self.provider_name.same(&other.provider_name)
            && self.provider_schema.same(&other.provider_schema)
            && self.compiler.same(&other.compiler)
            && self.compiled_digest.same(&other.compiled_digest)
            && self.decode_plan_digest.same(&other.decode_plan_digest)
            && self.constraints.same(&other.constraints)
            && self.enforcement.same(&other.enforcement)
    }

    fn copy(&self) -> (r: Self) {
        ToolComposition {
            tool: self.tool.copy(),
            canonical_name: self.canonical_name.copy(),
            canonical_schema: self.canonical_schema.copy(),
            canonical_schema_digest: self.canonical_schema_digest.copy(),
            provider_name: self.provider_name.copy(),
            provider_schema: self.provider_schema.copy(),
            compiler: self.compiler.copy(),
            compiled_digest: self.compiled_digest.copy(),
            decode_plan_digest: self.decode_plan_digest.copy(),
            constraints: self.constraints.copy(),
            enforcement: self.enforcement.copy(),
        }
    }
}

/// Display disclosure, independent of inclusion in model input.
#[derive(Debug)]
pub enum ContextDisclosure {
    /// Explicitly authorized content, bounded to a finite report size.
    Included {
        content: Vec<InputContent>,
    },
    /// Content withheld from the display: `not_requested`, `access_denied`, `approval_required`, or
    /// `display_limit`.
    Redacted {
        reason: String,
    },
    /// Selection and tombstone metadata has no source text to disclose.
    NotApplicable,
}

#[verifier::ext_equal]
pub enum ContextDisclosureView {
    Included {
        content: Seq<InputContentView>,
    },
    Redacted {
        reason: Seq<char>,
    },
    NotApplicable,
}

impl View for ContextDisclosure {
    type V = ContextDisclosureView;

    open spec fn view(&self) -> ContextDisclosureView {
        match self {
            ContextDisclosure::Included { content } => ContextDisclosureView::Included { content: content.deep_view() },
            ContextDisclosure::Redacted { reason } => ContextDisclosureView::Redacted { reason: reason.deep_view() },
            ContextDisclosure::NotApplicable => ContextDisclosureView::NotApplicable,
        }
    }
}

impl DeepView for ContextDisclosure {
    type V = ContextDisclosureView;

    open spec fn deep_view(&self) -> ContextDisclosureView {
        self@
    }
}

impl Data for ContextDisclosure {
    fn same(&self, other: &Self) -> (r: bool) {
        match (self, other) {
            (ContextDisclosure::Included { content: content1 }, ContextDisclosure::Included { content: content2 }) => content1.same(content2),
            (ContextDisclosure::Redacted { reason: reason1 }, ContextDisclosure::Redacted { reason: reason2 }) => reason1.same(reason2),
            (ContextDisclosure::NotApplicable, ContextDisclosure::NotApplicable) => true,
            _ => false,
        }
    }

    fn copy(&self) -> (r: Self) {
        match self {
            ContextDisclosure::Included { content } => ContextDisclosure::Included { content: content.copy() },
            ContextDisclosure::Redacted { reason } => ContextDisclosure::Redacted { reason: reason.copy() },
            ContextDisclosure::NotApplicable => ContextDisclosure::NotApplicable,
        }
    }
}

/// Stable observation metadata; the source revision can legitimately be unknown.
#[derive(Debug)]
pub struct FragmentComposition {
    pub producer_id: Id,
    pub fragment_id: Id,
    pub core_revision: u64,
    pub content_digest: JsonDigest,
    pub source_revision: Option<Id>,
    pub origin: ContextOrigin,
    /// Zero-based order in the saved preparation.
    pub order: usize,
    /// `included`, `excluded`, `tombstone`, `selection`, or `unresolved`.
    pub selection: String,
    /// Saved reason, or `not_recorded` when the preparation lacks the detail.
    pub selection_reason: String,
    /// Separately authorized display data.
    pub disclosure: ContextDisclosure,
}

#[verifier::ext_equal]
pub struct FragmentCompositionView {
    pub producer_id: Seq<char>,
    pub fragment_id: Seq<char>,
    pub core_revision: u64,
    pub content_digest: Seq<char>,
    pub source_revision: Option<Seq<char>>,
    pub origin: ContextOrigin,
    pub order: usize,
    pub selection: Seq<char>,
    pub selection_reason: Seq<char>,
    pub disclosure: ContextDisclosureView,
}

impl View for FragmentComposition {
    type V = FragmentCompositionView;

    open spec fn view(&self) -> FragmentCompositionView {
        FragmentCompositionView {
            producer_id: self.producer_id.deep_view(),
            fragment_id: self.fragment_id.deep_view(),
            core_revision: self.core_revision.deep_view(),
            content_digest: self.content_digest.deep_view(),
            source_revision: self.source_revision.deep_view(),
            origin: self.origin.deep_view(),
            order: self.order.deep_view(),
            selection: self.selection.deep_view(),
            selection_reason: self.selection_reason.deep_view(),
            disclosure: self.disclosure.deep_view(),
        }
    }
}

impl DeepView for FragmentComposition {
    type V = FragmentCompositionView;

    open spec fn deep_view(&self) -> FragmentCompositionView {
        self@
    }
}

impl Data for FragmentComposition {
    fn same(&self, other: &Self) -> (r: bool) {
        self.producer_id.same(&other.producer_id)
            && self.fragment_id.same(&other.fragment_id)
            && self.core_revision.same(&other.core_revision)
            && self.content_digest.same(&other.content_digest)
            && self.source_revision.same(&other.source_revision)
            && self.origin.same(&other.origin)
            && self.order.same(&other.order)
            && self.selection.same(&other.selection)
            && self.selection_reason.same(&other.selection_reason)
            && self.disclosure.same(&other.disclosure)
    }

    fn copy(&self) -> (r: Self) {
        FragmentComposition {
            producer_id: self.producer_id.copy(),
            fragment_id: self.fragment_id.copy(),
            core_revision: self.core_revision.copy(),
            content_digest: self.content_digest.copy(),
            source_revision: self.source_revision.copy(),
            origin: self.origin.copy(),
            order: self.order.copy(),
            selection: self.selection.copy(),
            selection_reason: self.selection_reason.copy(),
            disclosure: self.disclosure.copy(),
        }
    }
}

/// Selection lists refer to saved inputs, not redaction decisions.
#[derive(Debug)]
pub struct SelectionComposition {
    pub through_sequence: u64,
    pub included_messages: Vec<Id>,
    pub excluded_messages: Vec<Id>,
    pub included_context: Vec<Id>,
    pub excluded_context: Vec<Id>,
}

#[verifier::ext_equal]
pub struct SelectionCompositionView {
    pub through_sequence: u64,
    pub included_messages: Seq<Seq<char>>,
    pub excluded_messages: Seq<Seq<char>>,
    pub included_context: Seq<Seq<char>>,
    pub excluded_context: Seq<Seq<char>>,
}

impl View for SelectionComposition {
    type V = SelectionCompositionView;

    open spec fn view(&self) -> SelectionCompositionView {
        SelectionCompositionView {
            through_sequence: self.through_sequence.deep_view(),
            included_messages: self.included_messages.deep_view(),
            excluded_messages: self.excluded_messages.deep_view(),
            included_context: self.included_context.deep_view(),
            excluded_context: self.excluded_context.deep_view(),
        }
    }
}

impl DeepView for SelectionComposition {
    type V = SelectionCompositionView;

    open spec fn deep_view(&self) -> SelectionCompositionView {
        self@
    }
}

impl Data for SelectionComposition {
    fn same(&self, other: &Self) -> (r: bool) {
        self.through_sequence.same(&other.through_sequence)
            && self.included_messages.same(&other.included_messages)
            && self.excluded_messages.same(&other.excluded_messages)
            && self.included_context.same(&other.included_context)
            && self.excluded_context.same(&other.excluded_context)
    }

    fn copy(&self) -> (r: Self) {
        SelectionComposition {
            through_sequence: self.through_sequence.copy(),
            included_messages: self.included_messages.copy(),
            excluded_messages: self.excluded_messages.copy(),
            included_context: self.included_context.copy(),
            excluded_context: self.excluded_context.copy(),
        }
    }
}

/// Reservation and response evidence for a physical model attempt.
#[derive(Debug)]
pub struct AttemptComposition {
    pub attempt_id: Id,
    pub state: ModelAttemptState,
    /// A response or local collector failure was saved; not proof of remote response.
    pub result_recorded: bool,
    /// Reservation alone always leaves transmission unconfirmed.
    pub evidence: Vec<InspectionEvidence>,
    pub reported_model_id: Option<Id>,
    pub reported_model_version: Option<Id>,
    pub usage: Option<ModelUsage>,
}

#[verifier::ext_equal]
pub struct AttemptCompositionView {
    pub attempt_id: Seq<char>,
    pub state: ModelAttemptStateView,
    pub result_recorded: bool,
    pub evidence: Seq<InspectionEvidence>,
    pub reported_model_id: Option<Seq<char>>,
    pub reported_model_version: Option<Seq<char>>,
    pub usage: Option<ModelUsageView>,
}

impl View for AttemptComposition {
    type V = AttemptCompositionView;

    open spec fn view(&self) -> AttemptCompositionView {
        AttemptCompositionView {
            attempt_id: self.attempt_id.deep_view(),
            state: self.state.deep_view(),
            result_recorded: self.result_recorded.deep_view(),
            evidence: self.evidence.deep_view(),
            reported_model_id: self.reported_model_id.deep_view(),
            reported_model_version: self.reported_model_version.deep_view(),
            usage: self.usage.deep_view(),
        }
    }
}

impl DeepView for AttemptComposition {
    type V = AttemptCompositionView;

    open spec fn deep_view(&self) -> AttemptCompositionView {
        self@
    }
}

impl Data for AttemptComposition {
    fn same(&self, other: &Self) -> (r: bool) {
        self.attempt_id.same(&other.attempt_id)
            && self.state.same(&other.state)
            && self.result_recorded.same(&other.result_recorded)
            && self.evidence.same(&other.evidence)
            && self.reported_model_id.same(&other.reported_model_id)
            && self.reported_model_version.same(&other.reported_model_version)
            && self.usage.same(&other.usage)
    }

    fn copy(&self) -> (r: Self) {
        AttemptComposition {
            attempt_id: self.attempt_id.copy(),
            state: self.state.copy(),
            result_recorded: self.result_recorded.copy(),
            evidence: self.evidence.copy(),
            reported_model_id: self.reported_model_id.copy(),
            reported_model_version: self.reported_model_version.copy(),
            usage: self.usage.copy(),
        }
    }
}

/// Composition of one exact prepared input.
#[derive(Debug)]
pub struct StepComposition {
    pub prepared_record_id: Id,
    pub model_step_id: Id,
    pub purpose: ModelPurpose,
    pub projection_revision: u64,
    /// Original unredacted execution fingerprint; never recomputed from this report.
    pub fingerprint: JsonDigest,
    pub assembler: VersionedRef,
    pub change_reason: Id,
    /// Preparation evidence, independent of physical transmission.
    pub evidence: Vec<InspectionEvidence>,
    pub model: Option<ModelComposition>,
    pub tools: Vec<ToolComposition>,
    /// Fragments in their original saved order.
    pub fragments: Vec<FragmentComposition>,
    pub selection: Option<SelectionComposition>,
    pub attempts: Vec<AttemptComposition>,
    /// Saved input estimate, not actual provider usage.
    pub estimated_input_tokens: Option<u64>,
    /// Estimator identity, if it was recorded.
    pub estimator: Option<VersionedRef>,
    pub run_limits: RunLimits,
    pub recorded_run_status: RunStatus,
    pub recorded_run_revision: u64,
    pub recorded_run_outcome: Option<OutcomeComposition>,
    /// Paths hidden only for display, not removed from the saved projection.
    pub redacted_paths: Vec<String>,
}

#[verifier::ext_equal]
pub struct StepCompositionView {
    pub prepared_record_id: Seq<char>,
    pub model_step_id: Seq<char>,
    pub purpose: ModelPurpose,
    pub projection_revision: u64,
    pub fingerprint: Seq<char>,
    pub assembler: VersionedRefView,
    pub change_reason: Seq<char>,
    pub evidence: Seq<InspectionEvidence>,
    pub model: Option<ModelCompositionView>,
    pub tools: Seq<ToolCompositionView>,
    pub fragments: Seq<FragmentCompositionView>,
    pub selection: Option<SelectionCompositionView>,
    pub attempts: Seq<AttemptCompositionView>,
    pub estimated_input_tokens: Option<u64>,
    pub estimator: Option<VersionedRefView>,
    pub run_limits: RunLimitsView,
    pub recorded_run_status: RunStatus,
    pub recorded_run_revision: u64,
    pub recorded_run_outcome: Option<OutcomeCompositionView>,
    pub redacted_paths: Seq<Seq<char>>,
}

impl View for StepComposition {
    type V = StepCompositionView;

    open spec fn view(&self) -> StepCompositionView {
        StepCompositionView {
            prepared_record_id: self.prepared_record_id.deep_view(),
            model_step_id: self.model_step_id.deep_view(),
            purpose: self.purpose.deep_view(),
            projection_revision: self.projection_revision.deep_view(),
            fingerprint: self.fingerprint.deep_view(),
            assembler: self.assembler.deep_view(),
            change_reason: self.change_reason.deep_view(),
            evidence: self.evidence.deep_view(),
            model: self.model.deep_view(),
            tools: self.tools.deep_view(),
            fragments: self.fragments.deep_view(),
            selection: self.selection.deep_view(),
            attempts: self.attempts.deep_view(),
            estimated_input_tokens: self.estimated_input_tokens.deep_view(),
            estimator: self.estimator.deep_view(),
            run_limits: self.run_limits.deep_view(),
            recorded_run_status: self.recorded_run_status.deep_view(),
            recorded_run_revision: self.recorded_run_revision.deep_view(),
            recorded_run_outcome: self.recorded_run_outcome.deep_view(),
            redacted_paths: self.redacted_paths.deep_view(),
        }
    }
}

impl DeepView for StepComposition {
    type V = StepCompositionView;

    open spec fn deep_view(&self) -> StepCompositionView {
        self@
    }
}

impl Data for StepComposition {
    fn same(&self, other: &Self) -> (r: bool) {
        self.prepared_record_id.same(&other.prepared_record_id)
            && self.model_step_id.same(&other.model_step_id)
            && self.purpose.same(&other.purpose)
            && self.projection_revision.same(&other.projection_revision)
            && self.fingerprint.same(&other.fingerprint)
            && self.assembler.same(&other.assembler)
            && self.change_reason.same(&other.change_reason)
            && self.evidence.same(&other.evidence)
            && self.model.same(&other.model)
            && self.tools.same(&other.tools)
            && self.fragments.same(&other.fragments)
            && self.selection.same(&other.selection)
            && self.attempts.same(&other.attempts)
            && self.estimated_input_tokens.same(&other.estimated_input_tokens)
            && self.estimator.same(&other.estimator)
            && self.run_limits.same(&other.run_limits)
            && self.recorded_run_status.same(&other.recorded_run_status)
            && self.recorded_run_revision.same(&other.recorded_run_revision)
            && self.recorded_run_outcome.same(&other.recorded_run_outcome)
            && self.redacted_paths.same(&other.redacted_paths)
    }

    fn copy(&self) -> (r: Self) {
        StepComposition {
            prepared_record_id: self.prepared_record_id.copy(),
            model_step_id: self.model_step_id.copy(),
            purpose: self.purpose.copy(),
            projection_revision: self.projection_revision.copy(),
            fingerprint: self.fingerprint.copy(),
            assembler: self.assembler.copy(),
            change_reason: self.change_reason.copy(),
            evidence: self.evidence.copy(),
            model: self.model.copy(),
            tools: self.tools.copy(),
            fragments: self.fragments.copy(),
            selection: self.selection.copy(),
            attempts: self.attempts.copy(),
            estimated_input_tokens: self.estimated_input_tokens.copy(),
            estimator: self.estimator.copy(),
            run_limits: self.run_limits.copy(),
            recorded_run_status: self.recorded_run_status.copy(),
            recorded_run_revision: self.recorded_run_revision.copy(),
            recorded_run_outcome: self.recorded_run_outcome.copy(),
            redacted_paths: self.redacted_paths.copy(),
        }
    }
}

/// Public report, with protected runtime inputs excluded by construction.
#[derive(Debug)]
pub struct CompositionReport {
    pub schema_version: String,
    pub run_id: Id,
    pub step: StepRef,
    pub status: InspectionStatus,
    /// Available saved preparation, never a newly generated projection.
    pub composition: Option<StepComposition>,
    /// Explicit gaps; unknown values are not guessed.
    pub unresolved: Vec<UnresolvedInspectionField>,
}

#[verifier::ext_equal]
pub struct CompositionReportView {
    pub schema_version: Seq<char>,
    pub run_id: Seq<char>,
    pub step: StepRefView,
    pub status: InspectionStatus,
    pub composition: Option<StepCompositionView>,
    pub unresolved: Seq<UnresolvedInspectionFieldView>,
}

impl View for CompositionReport {
    type V = CompositionReportView;

    open spec fn view(&self) -> CompositionReportView {
        CompositionReportView {
            schema_version: self.schema_version.deep_view(),
            run_id: self.run_id.deep_view(),
            step: self.step.deep_view(),
            status: self.status.deep_view(),
            composition: self.composition.deep_view(),
            unresolved: self.unresolved.deep_view(),
        }
    }
}

impl DeepView for CompositionReport {
    type V = CompositionReportView;

    open spec fn deep_view(&self) -> CompositionReportView {
        self@
    }
}

impl Data for CompositionReport {
    fn same(&self, other: &Self) -> (r: bool) {
        self.schema_version.same(&other.schema_version)
            && self.run_id.same(&other.run_id)
            && self.step.same(&other.step)
            && self.status.same(&other.status)
            && self.composition.same(&other.composition)
            && self.unresolved.same(&other.unresolved)
    }

    fn copy(&self) -> (r: Self) {
        CompositionReport {
            schema_version: self.schema_version.copy(),
            run_id: self.run_id.copy(),
            step: self.step.copy(),
            status: self.status.copy(),
            composition: self.composition.copy(),
            unresolved: self.unresolved.copy(),
        }
    }
}

/// What is saved of the compilation of a tool.
#[derive(Debug)]
pub struct SavedToolInspection {
    pub tool: VersionedRef,
    pub canonical_name: Id,
    pub canonical_schema_digest: JsonDigest,
    pub compiler: VersionedRef,
    pub target: ProviderToolTarget,
    pub wire_tool: ModelTool,
    pub decode_plan_digest: JsonDigest,
    pub digest: JsonDigest,
    pub fragments: Vec<ToolConstraintFragment>,
    pub enforcement: Vec<ToolConstraintEnforcement>,
}

#[verifier::ext_equal]
pub struct SavedToolInspectionView {
    pub tool: VersionedRefView,
    pub canonical_name: Seq<char>,
    pub canonical_schema_digest: Seq<char>,
    pub compiler: VersionedRefView,
    pub target: ProviderToolTargetView,
    pub wire_tool: ModelToolView,
    pub decode_plan_digest: Seq<char>,
    pub digest: Seq<char>,
    pub fragments: Seq<ToolConstraintFragmentView>,
    pub enforcement: Seq<ToolConstraintEnforcementView>,
}

impl View for SavedToolInspection {
    type V = SavedToolInspectionView;

    open spec fn view(&self) -> SavedToolInspectionView {
        SavedToolInspectionView {
            tool: self.tool.deep_view(),
            canonical_name: self.canonical_name.deep_view(),
            canonical_schema_digest: self.canonical_schema_digest.deep_view(),
            compiler: self.compiler.deep_view(),
            target: self.target.deep_view(),
            wire_tool: self.wire_tool.deep_view(),
            decode_plan_digest: self.decode_plan_digest.deep_view(),
            digest: self.digest.deep_view(),
            fragments: self.fragments.deep_view(),
            enforcement: self.enforcement.deep_view(),
        }
    }
}

impl DeepView for SavedToolInspection {
    type V = SavedToolInspectionView;

    open spec fn deep_view(&self) -> SavedToolInspectionView {
        self@
    }
}

impl Data for SavedToolInspection {
    fn same(&self, other: &Self) -> (r: bool) {
        self.tool.same(&other.tool)
            && self.canonical_name.same(&other.canonical_name)
            && self.canonical_schema_digest.same(&other.canonical_schema_digest)
            && self.compiler.same(&other.compiler)
            && self.target.same(&other.target)
            && self.wire_tool.same(&other.wire_tool)
            && self.decode_plan_digest.same(&other.decode_plan_digest)
            && self.digest.same(&other.digest)
            && self.fragments.same(&other.fragments)
            && self.enforcement.same(&other.enforcement)
    }

    fn copy(&self) -> (r: Self) {
        SavedToolInspection {
            tool: self.tool.copy(),
            canonical_name: self.canonical_name.copy(),
            canonical_schema_digest: self.canonical_schema_digest.copy(),
            compiler: self.compiler.copy(),
            target: self.target.copy(),
            wire_tool: self.wire_tool.copy(),
            decode_plan_digest: self.decode_plan_digest.copy(),
            digest: self.digest.copy(),
            fragments: self.fragments.copy(),
            enforcement: self.enforcement.copy(),
        }
    }
}

/// An advertised tool, with its compilation if that is available.
#[derive(Debug)]
pub struct StoredTool {
    pub manifest: PinnedPromptTool,
    pub compiled: Option<SavedToolInspection>,
}

#[verifier::ext_equal]
pub struct StoredToolView {
    pub manifest: PinnedPromptToolView,
    pub compiled: Option<SavedToolInspectionView>,
}

impl View for StoredTool {
    type V = StoredToolView;

    open spec fn view(&self) -> StoredToolView {
        StoredToolView {
            manifest: self.manifest.deep_view(),
            compiled: self.compiled.deep_view(),
        }
    }
}

impl DeepView for StoredTool {
    type V = StoredToolView;

    open spec fn deep_view(&self) -> StoredToolView {
        self@
    }
}

impl Data for StoredTool {
    fn same(&self, other: &Self) -> (r: bool) {
        self.manifest.same(&other.manifest)
            && self.compiled.same(&other.compiled)
    }

    fn copy(&self) -> (r: Self) {
        StoredTool {
            manifest: self.manifest.copy(),
            compiled: self.compiled.copy(),
        }
    }
}

/// A physical attempt, and whether its response was observed.
#[derive(Debug)]
pub struct StoredAttempt {
    pub invocation: ModelInvocationRecord,
    pub response_observed: bool,
}

#[verifier::ext_equal]
pub struct StoredAttemptView {
    pub invocation: ModelInvocationRecordView,
    pub response_observed: bool,
}

impl View for StoredAttempt {
    type V = StoredAttemptView;

    open spec fn view(&self) -> StoredAttemptView {
        StoredAttemptView {
            invocation: self.invocation.deep_view(),
            response_observed: self.response_observed.deep_view(),
        }
    }
}

impl DeepView for StoredAttempt {
    type V = StoredAttemptView;

    open spec fn deep_view(&self) -> StoredAttemptView {
        self@
    }
}

impl Data for StoredAttempt {
    fn same(&self, other: &Self) -> (r: bool) {
        self.invocation.same(&other.invocation)
            && self.response_observed.same(&other.response_observed)
    }

    fn copy(&self) -> (r: Self) {
        StoredAttempt {
            invocation: self.invocation.copy(),
            response_observed: self.response_observed.copy(),
        }
    }
}

/// What may be displayed of a fragment.
#[derive(Debug)]
pub struct StoredDisclosure {
    pub fragment: InspectionFragmentRef,
    pub disclosure: ContextDisclosure,
}

#[verifier::ext_equal]
pub struct StoredDisclosureView {
    pub fragment: InspectionFragmentRefView,
    pub disclosure: ContextDisclosureView,
}

impl View for StoredDisclosure {
    type V = StoredDisclosureView;

    open spec fn view(&self) -> StoredDisclosureView {
        StoredDisclosureView {
            fragment: self.fragment.deep_view(),
            disclosure: self.disclosure.deep_view(),
        }
    }
}

impl DeepView for StoredDisclosure {
    type V = StoredDisclosureView;

    open spec fn deep_view(&self) -> StoredDisclosureView {
        self@
    }
}

impl Data for StoredDisclosure {
    fn same(&self, other: &Self) -> (r: bool) {
        self.fragment.same(&other.fragment)
            && self.disclosure.same(&other.disclosure)
    }

    fn copy(&self) -> (r: Self) {
        StoredDisclosure {
            fragment: self.fragment.copy(),
            disclosure: self.disclosure.copy(),
        }
    }
}

/// Everything that is saved about a prepared step.
#[derive(Debug)]
pub struct StoredInspection {
    pub reference: RecordRef,
    pub root: PreparedStepRecord,
    pub route: Option<ResolvedModelRoute>,
    pub configuration: Option<ModelConfiguration>,
    pub tools: Vec<StoredTool>,
    pub projection: Option<PreparedModelProjection>,
    pub attempts: Vec<StoredAttempt>,
    pub disclosure: Vec<StoredDisclosure>,
    pub limits: RunLimits,
    pub status: RunStatus,
    pub revision: u64,
    pub outcome: Option<RunOutcome>,
    pub unresolved: Vec<UnresolvedInspectionField>,
}

#[verifier::ext_equal]
pub struct StoredInspectionView {
    pub reference: RecordRefView,
    pub root: PreparedStepRecordView,
    pub route: Option<ResolvedModelRouteView>,
    pub configuration: Option<ModelConfigurationView>,
    pub tools: Seq<StoredToolView>,
    pub projection: Option<PreparedModelProjectionView>,
    pub attempts: Seq<StoredAttemptView>,
    pub disclosure: Seq<StoredDisclosureView>,
    pub limits: RunLimitsView,
    pub status: RunStatus,
    pub revision: u64,
    pub outcome: Option<RunOutcomeView>,
    pub unresolved: Seq<UnresolvedInspectionFieldView>,
}

impl View for StoredInspection {
    type V = StoredInspectionView;

    open spec fn view(&self) -> StoredInspectionView {
        StoredInspectionView {
            reference: self.reference.deep_view(),
            root: self.root.deep_view(),
            route: self.route.deep_view(),
            configuration: self.configuration.deep_view(),
            tools: self.tools.deep_view(),
            projection: self.projection.deep_view(),
            attempts: self.attempts.deep_view(),
            disclosure: self.disclosure.deep_view(),
            limits: self.limits.deep_view(),
            status: self.status.deep_view(),
            revision: self.revision.deep_view(),
            outcome: self.outcome.deep_view(),
            unresolved: self.unresolved.deep_view(),
        }
    }
}

impl DeepView for StoredInspection {
    type V = StoredInspectionView;

    open spec fn deep_view(&self) -> StoredInspectionView {
        self@
    }
}

impl Data for StoredInspection {
    fn same(&self, other: &Self) -> (r: bool) {
        self.reference.same(&other.reference)
            && self.root.same(&other.root)
            && self.route.same(&other.route)
            && self.configuration.same(&other.configuration)
            && self.tools.same(&other.tools)
            && self.projection.same(&other.projection)
            && self.attempts.same(&other.attempts)
            && self.disclosure.same(&other.disclosure)
            && self.limits.same(&other.limits)
            && self.status.same(&other.status)
            && self.revision.same(&other.revision)
            && self.outcome.same(&other.outcome)
            && self.unresolved.same(&other.unresolved)
    }

    fn copy(&self) -> (r: Self) {
        StoredInspection {
            reference: self.reference.copy(),
            root: self.root.copy(),
            route: self.route.copy(),
            configuration: self.configuration.copy(),
            tools: self.tools.copy(),
            projection: self.projection.copy(),
            attempts: self.attempts.copy(),
            disclosure: self.disclosure.copy(),
            limits: self.limits.copy(),
            status: self.status.copy(),
            revision: self.revision.copy(),
            outcome: self.outcome.copy(),
            unresolved: self.unresolved.copy(),
        }
    }
}


/// A key without what is neither letter nor digit, in lower case.
pub open spec fn normalized(key: Seq<char>) -> Seq<char>
    decreases key.len(),
{
    if key.len() == 0 {
        Seq::empty()
    } else {
        normalized(key.drop_last()) + (if alphanumeric(key.last()) {
            lowercase(key.last())
        } else {
            Seq::empty()
        })
    }
}

/// A key names something that is never displayed.
pub open spec fn is_sensitive(key: Seq<char>) -> bool {
    let name = normalized(key);
    ||| holds(name, "password"@)
    ||| holds(name, "secret"@)
    ||| holds(name, "apikey"@)
    ||| holds(name, "credential"@)
    ||| holds(name, "authorization"@)
    ||| holds(name, "accesstoken"@)
    ||| holds(name, "refreshtoken"@)
    ||| holds(name, "connection"@)
    ||| holds(name, "endpoint"@)
    ||| holds(name, "executionargs"@)
    ||| holds(name, "systeminputs"@)
    ||| holds(name, "opaque"@)
}

/// A key of a schema names something that is not displayed.
pub open spec fn is_hidden(key: Seq<char>) -> bool {
    is_sensitive(key) || key == "description"@ || key == "examples"@ || key == "default"@ || key
        == "$comment"@
}

fn normalize(key: &str) -> (r: String)
    ensures
        r@ == normalized(key@),
{
    let chars = chars_of(key);
    let mut out = String::new();
    let mut i: usize = 0;
    assert(key@.take(0) =~= Seq::<char>::empty());
    while i < chars.len()
        invariant
            i <= chars.len(),
            chars@ == key@,
            out@ == normalized(key@.take(i as int)),
        decreases chars.len() - i,
    {
        assert(key@.take(i + 1).drop_last() =~= key@.take(i as int));
        assert(key@.take(i + 1).last() == chars@[i as int]);
        if is_alphanumeric(chars[i]) {
            let lower = to_lowercase(chars[i]);
            out = concat(out.as_str(), lower.as_str());
        } else {
            assert(out@ + Seq::<char>::empty() =~= out@);
        }
        i = i + 1;
    }
    assert(key@.take(i as int) =~= key@);
    out
}

/// Whether a key names something that is never displayed.
pub fn sensitive(key: &str) -> (r: bool)
    ensures
        r == is_sensitive(key@),
{
    let name = normalize(key);
    let name = name.as_str();
    has_word(name, "password") || has_word(name, "secret") || has_word(name, "apikey") || has_word(
        name,
        "credential",
    ) || has_word(name, "authorization") || has_word(name, "accesstoken") || has_word(
        name,
        "refreshtoken",
    ) || has_word(name, "connection") || has_word(name, "endpoint") || has_word(
        name,
        "executionargs",
    ) || has_word(name, "systeminputs") || has_word(name, "opaque")
}

fn hides(key: &String) -> (r: bool)
    ensures
        r == is_hidden(key@),
{
    sensitive(key.as_str()) || reads(key, "description") || reads(key, "examples") || reads(
        key,
        "default",
    ) || reads(key, "$comment")
}

/// A document as it is displayed: what a hidden key names is replaced by null.
pub open spec fn scrubbed(json: JsonView) -> JsonView
    decreases json,
{
    match json {
        JsonView::Object(members) => JsonView::Object(scrubbed_members(members)),
        JsonView::Array(items) => JsonView::Array(scrubbed_items(items)),
        _ => json,
    }
}

pub open spec fn scrubbed_items(items: Seq<JsonView>) -> Seq<JsonView>
    decreases items,
{
    if items.len() == 0 {
        Seq::empty()
    } else {
        scrubbed_items(items.drop_last()).push(scrubbed(items.last()))
    }
}

pub open spec fn scrubbed_members(members: Seq<MemberView>) -> Seq<MemberView>
    decreases members,
{
    if members.len() == 0 {
        Seq::empty()
    } else {
        let member = members.last();
        scrubbed_members(members.drop_last()).push(
            MemberView {
                key: member.key,
                value: if is_hidden(member.key) {
                    JsonView::Null
                } else {
                    scrubbed(member.value)
                },
            },
        )
    }
}

/// A path one step further.
pub open spec fn below(path: Seq<char>, step: Seq<char>) -> Seq<char> {
    path + "."@ + step
}

/// The paths that displaying a document hides, in order.
pub open spec fn hidden_paths(json: JsonView, path: Seq<char>) -> Seq<Seq<char>>
    decreases json,
{
    match json {
        JsonView::Object(members) => hidden_member_paths(members, path),
        JsonView::Array(items) => hidden_item_paths(items, path),
        _ => Seq::empty(),
    }
}

pub open spec fn hidden_item_paths(items: Seq<JsonView>, path: Seq<char>) -> Seq<Seq<char>>
    decreases items,
{
    if items.len() == 0 {
        Seq::empty()
    } else {
        hidden_item_paths(items.drop_last(), path) + hidden_paths(
            items.last(),
            below(path, decimal_text((items.len() - 1) as nat)),
        )
    }
}

pub open spec fn hidden_member_paths(members: Seq<MemberView>, path: Seq<char>) -> Seq<Seq<char>>
    decreases members,
{
    if members.len() == 0 {
        Seq::empty()
    } else {
        let member = members.last();
        let child = below(path, member.key);
        hidden_member_paths(members.drop_last(), path) + (if is_hidden(member.key) {
            seq![child]
        } else {
            hidden_paths(member.value, child)
        })
    }
}

fn go_below(path: &str, step: &str) -> (r: String)
    ensures
        r@ == below(path@, step@),
{
    let dotted = concat(path, ".");
    concat(dotted.as_str(), step)
}

/// What displaying a document leaves of it, and what it hides.
pub struct Scrubbed {
    pub value: Json,
    pub hidden: Vec<String>,
}

fn push_path(paths: Vec<String>, path: String) -> (r: Vec<String>)
    ensures
        r.deep_view() == paths.deep_view() + seq![path@],
{
    let ghost before = paths.deep_view();
    let ghost added = path@;
    let mut paths = paths;
    paths.push(path);
    assert(paths.deep_view() =~= before + seq![added]);
    paths
}

/// Take out of a document what is not displayed.
pub fn scrub(value: &Json, path: &str) -> (r: Scrubbed)
    ensures
        r.value@ == scrubbed(value@),
        r.hidden.deep_view() == hidden_paths(value@, path@),
    decreases *value,
{
    let mut hidden: Vec<String> = Vec::new();
    assert(hidden.deep_view() =~= Seq::<Seq<char>>::empty());
    match value {
        Json::Array(items) => {
            let ghost viewed = items.deep_view();
            let mut out: Vec<Json> = Vec::new();
            let mut i: usize = 0;
            proof {
                lemma_array_view(*items);
            }
            assert(viewed.take(0) =~= Seq::<JsonView>::empty());
            assert(out.deep_view() =~= Seq::<JsonView>::empty());
            while i < items.len()
                invariant
                    i <= items.len(),
                    *value == Json::Array(*items),
                    viewed == items.deep_view(),
                    out.deep_view() == scrubbed_items(viewed.take(i as int)),
                    hidden.deep_view() == hidden_item_paths(viewed.take(i as int), path@),
                decreases items.len() - i,
            {
                assert(decreases_to!(*value => value->Array_0));
                assert(decreases_to!(*items => items@));
                assert(decreases_to!(items@ => items@[i as int]));
                let index = decimal(i as u64);
                let child = go_below(path, index.as_str());
                let done = scrub(&items[i], child.as_str());
                assert(viewed.take(i + 1).drop_last() =~= viewed.take(i as int));
                assert(viewed.take(i + 1).last() == items@[i as int]@);
                let ghost before = out.deep_view();
                let ghost item = done.value@;
                let Scrubbed { value: shown, hidden: more } = done;
                out.push(shown);
                assert(out.deep_view() =~= before.push(item));
                hidden = crate::data::joined(&hidden, &more);
                i = i + 1;
            }
            assert(viewed.take(i as int) =~= viewed);
            Scrubbed { value: crate::json::array(out), hidden }
        },
        Json::Object(members) => {
            let ghost viewed = members.deep_view();
            let mut out: Vec<Member> = Vec::new();
            let mut i: usize = 0;
            proof {
                lemma_object_view(*members);
            }
            assert(viewed.take(0) =~= Seq::<MemberView>::empty());
            assert(out.deep_view() =~= Seq::<MemberView>::empty());
            while i < members.len()
                invariant
                    i <= members.len(),
                    *value == Json::Object(*members),
                    viewed == members.deep_view(),
                    out.deep_view() == scrubbed_members(viewed.take(i as int)),
                    hidden.deep_view() == hidden_member_paths(viewed.take(i as int), path@),
                decreases members.len() - i,
            {
                assert(decreases_to!(*value => value->Object_0));
                assert(decreases_to!(*members => members@));
                assert(decreases_to!(members@ => members@[i as int]));
                assert(decreases_to!(members@[i as int] => members@[i as int].value));
                assert(viewed.take(i + 1).drop_last() =~= viewed.take(i as int));
                assert(viewed.take(i + 1).last() == members@[i as int]@);
                let key = &members[i].key;
                let child = go_below(path, key.as_str());
                let shown = if hides(key) {
                    hidden = push_path(hidden, child);
                    Json::Null
                } else {
                    let done = scrub(&members[i].value, child.as_str());
                    let Scrubbed { value: shown, hidden: more } = done;
                    hidden = crate::data::joined(&hidden, &more);
                    shown
                };
                let member = Member { key: key.copy(), value: shown };
                let ghost before = out.deep_view();
                let ghost item = member@;
                out.push(member);
                assert(out.deep_view() =~= before.push(item));
                i = i + 1;
            }
            assert(viewed.take(i as int) =~= viewed);
            Scrubbed { value: crate::json::object(out), hidden }
        },
        _ => Scrubbed { value: value.copy(), hidden },
    }
}

/// Options as they are displayed.
pub open spec fn shown_options(options: Seq<MemberView>) -> Seq<MemberView>
    decreases options.len(),
{
    if options.len() == 0 {
        Seq::empty()
    } else {
        let option = options.last();
        shown_options(options.drop_last()).push(
            MemberView {
                key: option.key,
                value: if is_sensitive(option.key) {
                    JsonView::Null
                } else {
                    scrubbed(option.value)
                },
            },
        )
    }
}

/// The paths that displaying options hides.
pub open spec fn hidden_options(options: Seq<MemberView>, path: Seq<char>) -> Seq<Seq<char>>
    decreases options.len(),
{
    if options.len() == 0 {
        Seq::empty()
    } else {
        let option = options.last();
        let child = below(path, option.key);
        hidden_options(options.drop_last(), path) + (if is_sensitive(option.key) {
            seq![child]
        } else {
            hidden_paths(option.value, child)
        })
    }
}

struct ScrubbedOptions {
    options: Vec<Member>,
    hidden: Vec<String>,
}

fn scrub_options(options: &Vec<Member>, path: &str) -> (r: ScrubbedOptions)
    ensures
        r.options.deep_view() == shown_options(options.deep_view()),
        r.hidden.deep_view() == hidden_options(options.deep_view(), path@),
{
    let ghost viewed = options.deep_view();
    let mut out: Vec<Member> = Vec::new();
    let mut hidden: Vec<String> = Vec::new();
    let mut i: usize = 0;
    assert(viewed.take(0) =~= Seq::<MemberView>::empty());
    assert(out.deep_view() =~= Seq::<MemberView>::empty());
    assert(hidden.deep_view() =~= Seq::<Seq<char>>::empty());
    while i < options.len()
        invariant
            i <= options.len(),
            viewed == options.deep_view(),
            out.deep_view() == shown_options(viewed.take(i as int)),
            hidden.deep_view() == hidden_options(viewed.take(i as int), path@),
        decreases options.len() - i,
    {
        assert(viewed.take(i + 1).drop_last() =~= viewed.take(i as int));
        assert(viewed.take(i + 1).last() == options@[i as int]@);
        let key = &options[i].key;
        let child = go_below(path, key.as_str());
        let shown = if sensitive(key.as_str()) {
            hidden = push_path(hidden, child);
            Json::Null
        } else {
            let done = scrub(&options[i].value, child.as_str());
            let Scrubbed { value: shown, hidden: more } = done;
            hidden = crate::data::joined(&hidden, &more);
            shown
        };
        let member = Member { key: key.copy(), value: shown };
        let ghost before = out.deep_view();
        let ghost item = member@;
        out.push(member);
        assert(out.deep_view() =~= before.push(item));
        i = i + 1;
    }
    assert(viewed.take(i as int) =~= viewed);
    ScrubbedOptions { options: out, hidden }
}

/// A model as it is displayed.
pub open spec fn model_report(
    route: ResolvedModelRouteView,
    configuration: Option<ModelConfigurationView>,
) -> ModelCompositionView {
    ModelCompositionView {
        provider: route.provider,
        requested_model: route.requested_model,
        model_id: route.model_id,
        model_version: route.model_version,
        version_semantics: route.version_semantics,
        adapter: route.adapter,
        api_contract: route.api_contract,
        capability_revision: route.capability_revision,
        route_digest: route_digest(route),
        configuration: match configuration {
            Some(configuration) => Some(
                ModelConfigurationView {
                    requested: shown_options(configuration.requested),
                    effective: shown_options(configuration.effective),
                    ..configuration
                },
            ),
            None => None,
        },
    }
}

/// The paths that displaying a model hides.
pub open spec fn model_hidden(configuration: Option<ModelConfigurationView>) -> Seq<Seq<char>> {
    match configuration {
        Some(configuration) => hidden_options(
            configuration.requested,
            "model.configuration.requested"@,
        ) + hidden_options(configuration.effective, "model.configuration.effective"@),
        None => Seq::empty(),
    }
}

struct ShownModel {
    model: ModelComposition,
    hidden: Vec<String>,
}

fn show_model(route: &ResolvedModelRoute, configuration: &Option<ModelConfiguration>) -> (r:
    ShownModel)
    ensures
        r.model@ == model_report(route@, configuration.deep_view()),
        r.hidden.deep_view() == model_hidden(configuration.deep_view()),
{
    let mut hidden: Vec<String> = Vec::new();
    assert(hidden.deep_view() =~= Seq::<Seq<char>>::empty());
    let shown = match configuration {
        Some(configuration) => {
            let requested = scrub_options(
                &configuration.requested,
                "model.configuration.requested",
            );
            let effective = scrub_options(
                &configuration.effective,
                "model.configuration.effective",
            );
            hidden = crate::data::joined(&requested.hidden, &effective.hidden);
            let mut shown = configuration.copy();
            shown.requested = requested.options;
            shown.effective = effective.options;
            Some(shown)
        },
        None => None,
    };
    ShownModel {
        model: ModelComposition {
            provider: route.provider.copy(),
            requested_model: route.requested_model.copy(),
            model_id: route.model_id.copy(),
            model_version: route.model_version.copy(),
            version_semantics: route.version_semantics,
            adapter: route.adapter.copy(),
            api_contract: route.api_contract.copy(),
            capability_revision: route.capability_revision.copy(),
            route_digest: route.digest(),
            configuration: shown,
        },
        hidden,
    }
}

/// The origin of a piece of constraint text.
pub open spec fn constraint_of(compiler: VersionedRefView) -> spec_fn(
    ToolConstraintFragmentView,
) -> ConstraintCompositionView {
    |fragment: ToolConstraintFragmentView|
        ConstraintCompositionView {
            fragment_id: fragment.id,
            digest: fragment.digest,
            source: compiler,
        }
}

/// A tool as it is displayed.
pub open spec fn tool_report(stored: StoredToolView) -> ToolCompositionView {
    let manifest = stored.manifest;
    let schema = scrubbed(manifest.model_tool.model_input_schema);
    match stored.compiled {
        None => ToolCompositionView {
            tool: manifest.tool,
            canonical_name: manifest.model_tool.name,
            canonical_schema: schema,
            canonical_schema_digest: manifest.model_schema_digest,
            provider_name: None,
            provider_schema: None,
            compiler: None,
            compiled_digest: None,
            decode_plan_digest: None,
            constraints: Seq::empty(),
            enforcement: Seq::empty(),
        },
        Some(compiled) => ToolCompositionView {
            tool: manifest.tool,
            canonical_name: manifest.model_tool.name,
            canonical_schema: schema,
            canonical_schema_digest: manifest.model_schema_digest,
            provider_name: Some(compiled.wire_tool.name),
            provider_schema: Some(scrubbed(compiled.wire_tool.model_input_schema)),
            compiler: Some(compiled.compiler),
            compiled_digest: Some(compiled.digest),
            decode_plan_digest: Some(compiled.decode_plan_digest),
            constraints: compiled.fragments.map_values(constraint_of(compiled.compiler)),
            enforcement: compiled.enforcement,
        },
    }
}

/// The path of a tool in a report.
pub open spec fn tool_path(index: nat) -> Seq<char> {
    "tools."@ + decimal_text(index)
}

/// The paths that displaying a tool hides.
pub open spec fn tool_hidden(index: nat, stored: StoredToolView) -> Seq<Seq<char>> {
    let canonical = hidden_paths(
        stored.manifest.model_tool.model_input_schema,
        below(tool_path(index), "canonical_schema"@),
    );
    match stored.compiled {
        None => canonical,
        Some(compiled) => canonical + hidden_paths(
            compiled.wire_tool.model_input_schema,
            below(tool_path(index), "provider_schema"@),
        ),
    }
}

/// The paths that displaying the first tools hides.
pub open spec fn tools_hidden(tools: Seq<StoredToolView>) -> Seq<Seq<char>>
    decreases tools.len(),
{
    if tools.len() == 0 {
        Seq::empty()
    } else {
        tools_hidden(tools.drop_last()) + tool_hidden((tools.len() - 1) as nat, tools.last())
    }
}

struct ShownTool {
    tool: ToolComposition,
    hidden: Vec<String>,
}

fn show_tool(stored: &StoredTool, index: usize) -> (r: ShownTool)
    ensures
        r.tool@ == tool_report(stored@),
        r.hidden.deep_view() == tool_hidden(index as nat, stored@),
{
    let manifest = &stored.manifest;
    let number = decimal(index as u64);
    let path = concat("tools.", number.as_str());
    let canonical_path = go_below(path.as_str(), "canonical_schema");
    let canonical = scrub(&manifest.model_tool.model_input_schema, canonical_path.as_str());
    match &stored.compiled {
        None => {
            let tool = ToolComposition {
                tool: manifest.tool.copy(),
                canonical_name: manifest.model_tool.name.copy(),
                canonical_schema: canonical.value,
                canonical_schema_digest: manifest.model_schema_digest.copy(),
                provider_name: None,
                provider_schema: None,
                compiler: None,
                compiled_digest: None,
                decode_plan_digest: None,
                constraints: Vec::new(),
                enforcement: Vec::new(),
            };
            assert(tool@.constraints =~= Seq::<ConstraintCompositionView>::empty());
            assert(tool@.enforcement =~= Seq::<ToolConstraintEnforcementView>::empty());
            ShownTool { tool, hidden: canonical.hidden }
        },
        Some(compiled) => {
            let provider_path = go_below(path.as_str(), "provider_schema");
            let provider = scrub(
                &compiled.wire_tool.model_input_schema,
                provider_path.as_str(),
            );
            let compiler = &compiled.compiler;
            let origin = |fragment: &ToolConstraintFragment| -> (r: ConstraintComposition)
                ensures
                    r@ == constraint_of(compiler@)(fragment@),
            {
                ConstraintComposition {
                    fragment_id: fragment.id.copy(),
                    digest: fragment.digest.copy(),
                    source: compiler.copy(),
                }
            };
            let constraints = map_each(
                &compiled.fragments,
                origin,
                Ghost(constraint_of(compiler@)),
            );
            let tool = ToolComposition {
                tool: manifest.tool.copy(),
                canonical_name: manifest.model_tool.name.copy(),
                canonical_schema: canonical.value,
                canonical_schema_digest: manifest.model_schema_digest.copy(),
                provider_name: Some(compiled.wire_tool.name.copy()),
                provider_schema: Some(provider.value),
                compiler: Some(compiler.copy()),
                compiled_digest: Some(compiled.digest.copy()),
                decode_plan_digest: Some(compiled.decode_plan_digest.copy()),
                constraints,
                enforcement: compiled.enforcement.copy(),
            };
            ShownTool { tool, hidden: crate::data::joined(&canonical.hidden, &provider.hidden) }
        },
    }
}

struct ShownTools {
    tools: Vec<ToolComposition>,
    hidden: Vec<String>,
}

fn show_tools(stored: &Vec<StoredTool>) -> (r: ShownTools)
    ensures
        r.tools.deep_view() == stored.deep_view().map_values(
            |tool: StoredToolView| tool_report(tool),
        ),
        r.hidden.deep_view() == tools_hidden(stored.deep_view()),
{
    let ghost s = stored.deep_view();
    let ghost g = |tool: StoredToolView| tool_report(tool);
    let mut tools: Vec<ToolComposition> = Vec::new();
    let mut hidden: Vec<String> = Vec::new();
    let mut i: usize = 0;
    assert(s.take(0) =~= Seq::<StoredToolView>::empty());
    assert(hidden.deep_view() =~= Seq::<Seq<char>>::empty());
    while i < stored.len()
        invariant
            i <= stored.len(),
            s == stored.deep_view(),
            g == (|tool: StoredToolView| tool_report(tool)),
            tools.deep_view() =~= s.take(i as int).map_values(g),
            hidden.deep_view() == tools_hidden(s.take(i as int)),
        decreases stored.len() - i,
    {
        assert(s.take(i + 1).drop_last() =~= s.take(i as int));
        assert(s.take(i + 1).last() == stored@[i as int]@);
        let shown = show_tool(&stored[i], i);
        let ghost before = tools.deep_view();
        let ghost item = shown.tool@;
        let ShownTool { tool, hidden: more } = shown;
        tools.push(tool);
        assert(tools.deep_view() =~= before.push(item));
        assert(s.take(i + 1).map_values(g) =~= s.take(i as int).map_values(g).push(g(s[i as int])));
        hidden = crate::data::joined(&hidden, &more);
        i = i + 1;
    }
    assert(s.take(i as int) =~= s);
    ShownTools { tools, hidden }
}

/// The identity under which what may be displayed of a fragment is found.
pub open spec fn disclosure_key_of(fragment: ContextFragmentView) -> InspectionFragmentRefView {
    InspectionFragmentRefView {
        identity: fragment.identity,
        core_revision: fragment.core_revision,
        content_digest: fragment.content_digest,
    }
}

/// The identity under which what may be displayed of a fragment is found.
pub fn disclosure_key(fragment: &ContextFragment) -> (r: InspectionFragmentRef)
    ensures
        r@ == disclosure_key_of(fragment@),
{
    InspectionFragmentRef {
        identity: fragment.identity.copy(),
        core_revision: fragment.core_revision,
        content_digest: fragment.content_digest.copy(),
    }
}

/// What was disclosed of a fragment.
pub open spec fn discloses(key: InspectionFragmentRefView) -> spec_fn(StoredDisclosureView) -> bool {
    |stored: StoredDisclosureView| stored.fragment == key
}

/// What may be displayed of a fragment; nothing, unless it was asked for.
pub open spec fn disclosure_of(
    disclosure: Seq<StoredDisclosureView>,
    fragment: ContextFragmentView,
) -> ContextDisclosureView {
    match first_in(disclosure, discloses(disclosure_key_of(fragment))) {
        Some(stored) => stored.disclosure,
        None => ContextDisclosureView::Redacted { reason: "not_requested"@ },
    }
}

/// Whether a fragment went into the model input.
pub open spec fn selection_of(
    provenance: ProjectionProvenanceView,
    value: FragmentValueView,
) -> Seq<char> {
    match value {
        FragmentValueView::Item { item } => if provenance.selected_context_ids.contains(
            item.item_id,
        ) {
            "included"@
        } else if provenance.dropped_context_ids.contains(item.item_id) {
            "excluded"@
        } else {
            "unresolved"@
        },
        FragmentValueView::Tombstone { .. } => "tombstone"@,
        FragmentValueView::Selection { .. } => "selection"@,
    }
}

/// Why a fragment did or did not go into the model input.
pub open spec fn reason_of(
    provenance: ProjectionProvenanceView,
    value: FragmentValueView,
) -> Seq<char> {
    match value {
        FragmentValueView::Item { item } => if provenance.selected_context_ids.contains(
            item.item_id,
        ) {
            "selected"@
        } else {
            "not_recorded"@
        },
        FragmentValueView::Tombstone { reason } => reason,
        FragmentValueView::Selection { status, .. } => status,
    }
}

/// A fragment as it is displayed.
pub open spec fn fragment_report(
    provenance: ProjectionProvenanceView,
    disclosure: Seq<StoredDisclosureView>,
    order: int,
) -> FragmentCompositionView {
    let fragment = provenance.fragments[order];
    FragmentCompositionView {
        producer_id: fragment.identity.producer_id,
        fragment_id: fragment.identity.fragment_id,
        core_revision: fragment.core_revision,
        content_digest: fragment.content_digest,
        source_revision: fragment.source_revision,
        origin: fragment.origin,
        order: order as usize,
        selection: selection_of(provenance, fragment.value),
        selection_reason: reason_of(provenance, fragment.value),
        disclosure: disclosure_of(disclosure, fragment),
    }
}

/// The fragments of a projection as they are displayed.
pub open spec fn fragment_reports(
    projection: Option<PreparedModelProjectionView>,
    disclosure: Seq<StoredDisclosureView>,
) -> Seq<FragmentCompositionView> {
    match projection {
        Some(projection) => Seq::new(
            projection.provenance.fragments.len(),
            |i: int| fragment_report(projection.provenance, disclosure, i),
        ),
        None => Seq::empty(),
    }
}

fn show_fragment(
    projection: &PreparedModelProjection,
    disclosure: &Vec<StoredDisclosure>,
    order: usize,
) -> (r: FragmentComposition)
    requires
        order < projection.provenance.fragments.len(),
    ensures
        r@ == fragment_report(projection@.provenance, disclosure.deep_view(), order as int),
{
    let provenance = &projection.provenance;
    let fragment = &provenance.fragments[order];
    assert(projection@.provenance.fragments[order as int] == fragment@);
    let selection;
    let selection_reason;
    match &fragment.value {
        FragmentValue::Item { item } => {
            if contains(&provenance.selected_context_ids, &item.item_id) {
                selection = own("included");
                selection_reason = own("selected");
            } else if contains(&provenance.dropped_context_ids, &item.item_id) {
                selection = own("excluded");
                selection_reason = own("not_recorded");
            } else {
                selection = own("unresolved");
                selection_reason = own("not_recorded");
            }
        },
        FragmentValue::Tombstone { reason } => {
            selection = own("tombstone");
            selection_reason = own(reason.as_str());
        },
        FragmentValue::Selection { status, .. } => {
            selection = own("selection");
            selection_reason = own(status.as_str());
        },
    }
    let key = disclosure_key(fragment);
    let same = |stored: &StoredDisclosure| -> (b: bool)
        ensures
            b == discloses(key@)(stored@),
    { stored.fragment.same(&key) };
    let shown = match find(disclosure, same, Ghost(discloses(key@))) {
        Some(stored) => stored.disclosure.copy(),
        None => ContextDisclosure::Redacted { reason: own("not_requested") },
    };
    FragmentComposition {
        producer_id: fragment.identity.producer_id.copy(),
        fragment_id: fragment.identity.fragment_id.copy(),
        core_revision: fragment.core_revision,
        content_digest: fragment.content_digest.copy(),
        source_revision: fragment.source_revision.copy(),
        origin: fragment.origin,
        order,
        selection,
        selection_reason,
        disclosure: shown,
    }
}

fn show_fragments(
    projection: &Option<PreparedModelProjection>,
    disclosure: &Vec<StoredDisclosure>,
) -> (r: Vec<FragmentComposition>)
    ensures
        r.deep_view() == fragment_reports(projection.deep_view(), disclosure.deep_view()),
{
    let ghost all = fragment_reports(projection.deep_view(), disclosure.deep_view());
    let mut out: Vec<FragmentComposition> = Vec::new();
    if let Some(projection) = projection {
        let mut i: usize = 0;
        while i < projection.provenance.fragments.len()
            invariant
                i <= projection.provenance.fragments.len(),
                out.len() == i,
                out.deep_view() =~= Seq::new(
                    i as nat,
                    |k: int|
                        fragment_report(projection@.provenance, disclosure.deep_view(), k),
                ),
            decreases projection.provenance.fragments.len() - i,
        {
            let shown = show_fragment(projection, disclosure, i);
            let ghost before = out.deep_view();
            let ghost item = shown@;
            out.push(shown);
            assert(out.deep_view() =~= before.push(item));
            i = i + 1;
        }
        assert(projection@.provenance.fragments.len() == projection.provenance.fragments.len());
    }
    assert(out.deep_view() =~= all);
    out
}

/// A physical attempt as it is displayed.
pub open spec fn attempt_report(stored: StoredAttemptView) -> AttemptCompositionView {
    let attempt = stored.invocation;
    AttemptCompositionView {
        attempt_id: attempt.attempt_id,
        state: attempt.state,
        result_recorded: attempt.response_ref is Some,
        evidence: seq![
            InspectionEvidence::DispatchReserved,
            if stored.response_observed {
                InspectionEvidence::ResponseObserved
            } else {
                InspectionEvidence::TransmissionUnknown
            },
        ],
        reported_model_id: attempt.reported_model_id,
        reported_model_version: attempt.reported_model_version,
        usage: attempt.usage,
    }
}

fn show_attempt(stored: &StoredAttempt) -> (r: AttemptComposition)
    ensures
        r@ == attempt_report(stored@),
{
    let attempt = &stored.invocation;
    let mut evidence: Vec<InspectionEvidence> = Vec::new();
    evidence.push(InspectionEvidence::DispatchReserved);
    evidence.push(
        if stored.response_observed {
            InspectionEvidence::ResponseObserved
        } else {
            InspectionEvidence::TransmissionUnknown
        },
    );
    let shown = AttemptComposition {
        attempt_id: attempt.attempt_id.copy(),
        state: attempt.state.copy(),
        result_recorded: attempt.response_ref.is_some(),
        evidence,
        reported_model_id: attempt.reported_model_id.copy(),
        reported_model_version: attempt.reported_model_version.copy(),
        usage: attempt.usage.copy(),
    };
    assert(shown@.evidence =~= attempt_report(stored@).evidence);
    shown
}

/// The status that an outcome gives a run.
pub open spec fn status_of(result: OutcomeResultView) -> RunStatus {
    match result {
        OutcomeResultView::Succeeded { .. } => RunStatus::Succeeded,
        OutcomeResultView::Failed { .. } => RunStatus::Failed,
        OutcomeResultView::Cancelled { .. } => RunStatus::Cancelled,
        OutcomeResultView::Exhausted { .. } => RunStatus::Exhausted,
        OutcomeResultView::Waiting { .. } => RunStatus::Waiting,
        OutcomeResultView::Interrupted { .. } => RunStatus::Interrupted,
    }
}

/// An outcome as it is displayed.
pub open spec fn outcome_report(outcome: RunOutcomeView) -> OutcomeCompositionView {
    OutcomeCompositionView {
        status: status_of(outcome.result),
        checkpoint_revision: outcome.checkpoint_revision,
        completion_basis: match outcome.result {
            OutcomeResultView::Succeeded { completion_basis } => Some(completion_basis),
            _ => None,
        },
    }
}

fn show_outcome(outcome: &RunOutcome) -> (r: OutcomeComposition)
    ensures
        r@ == outcome_report(outcome@),
{
    let mut completion_basis: Option<Id> = None;
    let status = match &outcome.result {
        OutcomeResult::Succeeded { completion_basis: basis } => {
            completion_basis = Some(basis.copy());
            RunStatus::Succeeded
        },
        OutcomeResult::Failed { .. } => RunStatus::Failed,
        OutcomeResult::Cancelled { .. } => RunStatus::Cancelled,
        OutcomeResult::Exhausted { .. } => RunStatus::Exhausted,
        OutcomeResult::Waiting { .. } => RunStatus::Waiting,
        OutcomeResult::Interrupted { .. } => RunStatus::Interrupted,
    };
    OutcomeComposition { status, checkpoint_revision: outcome.checkpoint_revision, completion_basis }
}

/// A field that is missing, although it was recorded.
pub open spec fn is_missing() -> spec_fn(UnresolvedInspectionFieldView) -> bool {
    |field: UnresolvedInspectionFieldView| field.reason != "not_recorded"@
}

/// What was selected for a projection, as it is displayed.
pub open spec fn selection_report(provenance: ProjectionProvenanceView) -> SelectionCompositionView {
    SelectionCompositionView {
        through_sequence: provenance.through_sequence,
        included_messages: provenance.selected_message_ids,
        excluded_messages: provenance.dropped_message_ids,
        included_context: provenance.selected_context_ids,
        excluded_context: provenance.dropped_context_ids,
    }
}

/// The paths that a report hides, in order.
pub open spec fn report_hidden(saved: StoredInspectionView) -> Seq<Seq<char>> {
    (if saved.route is Some {
        model_hidden(saved.configuration)
    } else {
        Seq::empty()
    }) + tools_hidden(saved.tools)
}

/// A prepared step as it is displayed.
pub open spec fn step_report(saved: StoredInspectionView) -> StepCompositionView {
    StepCompositionView {
        prepared_record_id: saved.reference.record_id,
        model_step_id: saved.root.model_step_id,
        purpose: saved.root.purpose,
        projection_revision: saved.root.projection_revision,
        fingerprint: saved.root.projection_fingerprint,
        assembler: saved.root.assembler,
        change_reason: saved.root.change_reason,
        evidence: seq![InspectionEvidence::Prepared],
        model: match saved.route {
            Some(route) => Some(model_report(route, saved.configuration)),
            None => None,
        },
        tools: saved.tools.map_values(|tool: StoredToolView| tool_report(tool)),
        fragments: fragment_reports(saved.projection, saved.disclosure),
        selection: match saved.projection {
            Some(projection) => Some(selection_report(projection.provenance)),
            None => None,
        },
        attempts: saved.attempts.map_values(|stored: StoredAttemptView| attempt_report(stored)),
        estimated_input_tokens: match saved.projection {
            Some(projection) => Some(projection.input_tokens),
            None => None,
        },
        estimator: None,
        run_limits: saved.limits,
        recorded_run_status: saved.status,
        recorded_run_revision: saved.revision,
        recorded_run_outcome: match saved.outcome {
            Some(outcome) => Some(outcome_report(outcome)),
            None => None,
        },
        redacted_paths: report_hidden(saved),
    }
}

/// The report about a prepared step.
pub open spec fn report_of(step: StepRefView, saved: StoredInspectionView) -> CompositionReportView {
    CompositionReportView {
        schema_version: "wickle.composition-report.v1"@,
        run_id: saved.root.run_id,
        step,
        status: if some_in(saved.unresolved, is_missing()) {
            InspectionStatus::Partial
        } else {
            InspectionStatus::Found
        },
        composition: Some(step_report(saved)),
        unresolved: saved.unresolved,
    }
}

fn show_selection(projection: &PreparedModelProjection) -> (r: SelectionComposition)
    ensures
        r@ == selection_report(projection@.provenance),
{
    let provenance = &projection.provenance;
    SelectionComposition {
        through_sequence: provenance.through_sequence,
        included_messages: provenance.selected_message_ids.copy(),
        excluded_messages: provenance.dropped_message_ids.copy(),
        included_context: provenance.selected_context_ids.copy(),
        excluded_context: provenance.dropped_context_ids.copy(),
    }
}

fn show_step(saved: &StoredInspection) -> (r: StepComposition)
    ensures
        r@ == step_report(saved@),
{
    let mut redacted_paths: Vec<String> = Vec::new();
    assert(redacted_paths.deep_view() =~= Seq::<Seq<char>>::empty());
    let model = match &saved.route {
        Some(route) => {
            let shown = show_model(route, &saved.configuration);
            redacted_paths = shown.hidden;
            Some(shown.model)
        },
        None => None,
    };
    let shown = show_tools(&saved.tools);
    redacted_paths = crate::data::joined(&redacted_paths, &shown.hidden);
    let attempt = |stored: &StoredAttempt| -> (r: AttemptComposition)
        ensures
            r@ == attempt_report(stored@),
    { show_attempt(stored) };
    let attempts = map_each(
        &saved.attempts,
        attempt,
        Ghost(|stored: StoredAttemptView| attempt_report(stored)),
    );
    let selection = match &saved.projection {
        Some(projection) => Some(show_selection(projection)),
        None => None,
    };
    let estimated_input_tokens = match &saved.projection {
        Some(projection) => Some(projection.input_tokens),
        None => None,
    };
    let recorded_run_outcome = match &saved.outcome {
        Some(outcome) => Some(show_outcome(outcome)),
        None => None,
    };
    let mut evidence: Vec<InspectionEvidence> = Vec::new();
    evidence.push(InspectionEvidence::Prepared);
    assert(evidence.deep_view() =~= seq![InspectionEvidence::Prepared]);
    StepComposition {
        prepared_record_id: saved.reference.record_id.copy(),
        model_step_id: saved.root.model_step_id.copy(),
        purpose: saved.root.purpose,
        projection_revision: saved.root.projection_revision,
        fingerprint: saved.root.projection_fingerprint.copy(),
        assembler: saved.root.assembler.copy(),
        change_reason: saved.root.change_reason.copy(),
        evidence,
        model,
        tools: shown.tools,
        fragments: show_fragments(&saved.projection, &saved.disclosure),
        selection,
        attempts,
        estimated_input_tokens,
        estimator: None,
        run_limits: saved.limits.copy(),
        recorded_run_status: saved.status,
        recorded_run_revision: saved.revision,
        recorded_run_outcome,
        redacted_paths,
    }
}

/// Report about a prepared step. A pure conversion: no ports, clocks, policy callbacks or mutable
/// runtime objects.
pub fn compose(step: StepRef, saved: &StoredInspection) -> (r: CompositionReport)
    ensures
        r@ == report_of(step@, saved@),
{
    let missing = |field: &UnresolvedInspectionField| -> (b: bool)
        ensures
            b == is_missing()(field@),
    { !reads(&field.reason, "not_recorded") };
    let status = if any(&saved.unresolved, missing, Ghost(is_missing())) {
        InspectionStatus::Partial
    } else {
        InspectionStatus::Found
    };
    CompositionReport {
        schema_version: own("wickle.composition-report.v1"),
        run_id: saved.root.run_id.copy(),
        step,
        status,
        composition: Some(show_step(saved)),
        unresolved: saved.unresolved.copy(),
    }
}

/// Why a saved contract cannot be inspected.
pub open spec fn inspection_fault(decoded: Option<SavedContractView>) -> Option<Fault> {
    match decoded {
        None => refused("provider_tool.record"),
        Some(saved) => if !(saved.data.schema_version == first_version()
            || saved.data.schema_version == second_version()) || digest_of(
            contract_data_json(saved.data),
        ) != saved.digest {
            refused("provider_tool.identity")
        } else {
            None
        },
    }
}

/// What is displayed of a saved contract.
pub open spec fn inspected(saved: SavedContractView) -> SavedToolInspectionView {
    SavedToolInspectionView {
        tool: saved.data.tool,
        canonical_name: saved.data.canonical_name,
        canonical_schema_digest: saved.data.canonical_schema_digest,
        compiler: saved.data.compiler,
        target: saved.data.target,
        wire_tool: saved.data.wire_tool,
        decode_plan_digest: digest_of(decode_plan_json(saved.data.decode_plan)),
        digest: saved.digest,
        fragments: saved.data.fragments,
        enforcement: saved.data.enforcement,
    }
}

impl CompiledToolContract {
    /// Read what may be displayed of a saved contract, without restoring it.
    pub fn inspection(decoded: Option<&SavedContract>) -> (r: Result<
        SavedToolInspection,
        ContractError,
    >)
        ensures
            failure(r) == inspection_fault(decoded.deep_view()),
            r matches Ok(report) ==> report@ == inspected(decoded.deep_view()->0),
    {
        let saved = match decoded {
            Some(saved) => saved,
            None => {
                return fail(ErrorCode::UnsupportedInputProjection, "provider_tool.record");
            },
        };
        let version = &saved.data.schema_version;
        if !(reads(version, "wickle.provider-tool-contract.v1") || reads(
            version,
            "wickle.provider-tool-contract.v2",
        )) || !canonical_digest(&encode_contract_data(&saved.data)).same(&saved.digest) {
            return fail(ErrorCode::UnsupportedInputProjection, "provider_tool.identity");
        }
        Ok(
            SavedToolInspection {
                tool: saved.data.tool.copy(),
                canonical_name: saved.data.canonical_name.copy(),
                canonical_schema_digest: saved.data.canonical_schema_digest.copy(),
                compiler: saved.data.compiler.copy(),
                target: saved.data.target.copy(),
                wire_tool: saved.data.wire_tool.copy(),
                decode_plan_digest: canonical_digest(&encode_decode_plan(&saved.data.decode_plan)),
                digest: saved.digest.copy(),
                fragments: saved.data.fragments.copy(),
                enforcement: saved.data.enforcement.copy(),
            },
        )
    }
}

/// Nothing that a hidden key names is left in a document, at any depth.
pub open spec fn is_clean(json: JsonView) -> bool
    decreases json,
{
    match json {
        JsonView::Object(members) => clean_members(members),
        JsonView::Array(items) => clean_items(items),
        _ => true,
    }
}

pub open spec fn clean_items(items: Seq<JsonView>) -> bool
    decreases items,
{
    items.len() == 0 || (clean_items(items.drop_last()) && is_clean(items.last()))
}

pub open spec fn clean_members(members: Seq<MemberView>) -> bool
    decreases members,
{
    members.len() == 0 || (clean_members(members.drop_last()) && is_clean(members.last().value) && (
    is_hidden(members.last().key) ==> members.last().value == JsonView::Null))
}

/// A displayed document shows nothing that a hidden key names, at any depth.
pub proof fn law_scrubbed_is_clean(json: JsonView)
    ensures
        is_clean(scrubbed(json)),
    decreases json,
{
    match json {
        JsonView::Object(members) => {
            lemma_scrubbed_members(members);
        },
        JsonView::Array(items) => {
            lemma_scrubbed_items(items);
        },
        _ => {},
    }
}

proof fn lemma_scrubbed_items(items: Seq<JsonView>)
    ensures
        clean_items(scrubbed_items(items)),
    decreases items,
{
    if items.len() > 0 {
        lemma_scrubbed_items(items.drop_last());
        law_scrubbed_is_clean(items.last());
        assert(scrubbed_items(items).drop_last() =~= scrubbed_items(items.drop_last()));
    }
}

proof fn lemma_scrubbed_members(members: Seq<MemberView>)
    ensures
        clean_members(scrubbed_members(members)),
    decreases members,
{
    if members.len() > 0 {
        lemma_scrubbed_members(members.drop_last());
        law_scrubbed_is_clean(members.last().value);
        assert(is_clean(JsonView::Null));
        assert(scrubbed_members(members).drop_last() =~= scrubbed_members(members.drop_last()));
    }
}

/// A clean document is displayed as it is: nothing is taken out of it.
pub proof fn law_clean_documents_are_shown_whole(json: JsonView)
    requires
        is_clean(json),
    ensures
        scrubbed(json) == json,
    decreases json,
{
    match json {
        JsonView::Object(members) => {
            lemma_clean_members(members);
        },
        JsonView::Array(items) => {
            lemma_clean_items(items);
        },
        _ => {},
    }
}

proof fn lemma_clean_items(items: Seq<JsonView>)
    requires
        clean_items(items),
    ensures
        scrubbed_items(items) == items,
    decreases items,
{
    if items.len() > 0 {
        lemma_clean_items(items.drop_last());
        law_clean_documents_are_shown_whole(items.last());
        assert(items.drop_last().push(items.last()) =~= items);
    } else {
        assert(scrubbed_items(items) =~= items);
    }
}

proof fn lemma_clean_members(members: Seq<MemberView>)
    requires
        clean_members(members),
    ensures
        scrubbed_members(members) == members,
    decreases members,
{
    if members.len() > 0 {
        lemma_clean_members(members.drop_last());
        law_clean_documents_are_shown_whole(members.last().value);
        assert(members.drop_last().push(members.last()) =~= members);
    } else {
        assert(scrubbed_members(members) =~= members);
    }
}

/// A reservation alone never counts as a response: an attempt whose response was not observed is
/// reported as one whose transmission is unknown.
pub proof fn law_unobserved_transmission_stays_unknown(stored: StoredAttemptView)
    requires
        !stored.response_observed,
    ensures
        !attempt_report(stored).evidence.contains(InspectionEvidence::ResponseObserved),
        attempt_report(stored).evidence.contains(InspectionEvidence::TransmissionUnknown),
{
    let evidence = attempt_report(stored).evidence;
    assert(evidence[1] == InspectionEvidence::TransmissionUnknown);
}

/// Names are normalized character by character: what stands before a name changes nothing of how the
/// name itself is read.
pub proof fn law_names_are_normalized_piece_by_piece(before: Seq<char>, key: Seq<char>)
    ensures
        normalized(before + key) == normalized(before) + normalized(key),
    decreases key.len(),
{
    if key.len() == 0 {
        assert(before + key =~= before);
        assert(normalized(before) + normalized(key) =~= normalized(before));
    } else {
        law_names_are_normalized_piece_by_piece(before, key.drop_last());
        assert((before + key).drop_last() =~= before + key.drop_last());
        assert((before + key).last() == key.last());
        let end = if alphanumeric(key.last()) {
            lowercase(key.last())
        } else {
            Seq::empty()
        };
        assert((normalized(before) + normalized(key.drop_last())) + end =~= normalized(before) + (
        normalized(key.drop_last()) + end));
    }
}

/// Keys that name a password, a secret, a key, a token, a credential or where a connection leads are
/// hidden, and so are the keys of a schema that carry prose or examples.
pub proof fn law_secrets_are_hidden(key: Seq<char>, word: Seq<char>)
    requires
        holds(normalized(key), word),
        word == "password"@ || word == "secret"@ || word == "apikey"@ || word == "credential"@
            || word == "authorization"@ || word == "accesstoken"@ || word == "refreshtoken"@ || word
            == "connection"@ || word == "endpoint"@ || word == "executionargs"@ || word
            == "systeminputs"@ || word == "opaque"@,
    ensures
        is_sensitive(key),
        is_hidden(key),
{
}

/// The display of an object keeps its keys, in their order: a hidden one without its value, any other
/// with its value as that is displayed.
pub proof fn law_displays_keep_the_shape(members: Seq<MemberView>, i: int)
    requires
        0 <= i < members.len(),
    ensures
        scrubbed(JsonView::Object(members)) is Object,
        ({
            let shown = scrubbed(JsonView::Object(members))->Object_0;
            &&& shown.len() == members.len()
            &&& shown[i].key == members[i].key
            &&& is_hidden(members[i].key) ==> shown[i].value == JsonView::Null
            &&& !is_hidden(members[i].key) ==> shown[i].value == scrubbed(members[i].value)
        }),
        ({
            let shown = shown_options(members);
            &&& shown.len() == members.len()
            &&& shown[i].key == members[i].key
            &&& is_sensitive(members[i].key) ==> shown[i].value == JsonView::Null
            &&& !is_sensitive(members[i].key) ==> shown[i].value == scrubbed(members[i].value)
        }),
    decreases members.len(),
{
    lemma_shown_lengths(members);
    if i < members.len() - 1 {
        law_displays_keep_the_shape(members.drop_last(), i);
        lemma_shown_lengths(members.drop_last());
        assert(members.drop_last()[i] == members[i]);
    }
}

proof fn lemma_shown_lengths(members: Seq<MemberView>)
    ensures
        scrubbed_members(members).len() == members.len(),
        shown_options(members).len() == members.len(),
    decreases members.len(),
{
    if members.len() > 0 {
        lemma_shown_lengths(members.drop_last());
    }
}

/// What is displayed of an option is clean of everything that a hidden key names.
pub proof fn law_shown_options_are_clean(options: Seq<MemberView>, i: int)
    requires
        0 <= i < options.len(),
    ensures
        is_clean(shown_options(options)[i].value),
        is_sensitive(options[i].key) ==> shown_options(options)[i].value == JsonView::Null,
{
    law_displays_keep_the_shape(options, i);
    law_scrubbed_is_clean(options[i].value);
}

/// Every key that is hidden in an object is reported by its path.
pub proof fn law_hidden_keys_are_reported(members: Seq<MemberView>, path: Seq<char>, i: int)
    requires
        0 <= i < members.len(),
        is_hidden(members[i].key),
    ensures
        hidden_paths(JsonView::Object(members), path).contains(path + "."@ + members[i].key),
    decreases members.len(),
{
    let front = hidden_member_paths(members.drop_last(), path);
    let member = members.last();
    let child = below(path, member.key);
    let back = if is_hidden(member.key) {
        seq![child]
    } else {
        hidden_paths(member.value, child)
    };
    let all = front + back;
    assert(hidden_paths(JsonView::Object(members), path) == all);
    if i == members.len() - 1 {
        assert(all[front.len() as int] == child);
    } else {
        assert(members.drop_last()[i] == members[i]);
        law_hidden_keys_are_reported(members.drop_last(), path, i);
        let wanted = path + "."@ + members[i].key;
        let k = choose|k: int| 0 <= k < front.len() && front[k] == wanted;
        assert(all[k] == wanted);
    }
}

/// Nothing of a fragment is displayed unless just that revision of it was asked for.
pub proof fn law_fragments_are_redacted_unless_asked_for(
    disclosure: Seq<StoredDisclosureView>,
    fragment: ContextFragmentView,
)
    ensures
        (forall|i: int|
            0 <= i < disclosure.len() ==> (#[trigger] disclosure[i]).fragment.identity
                != fragment.identity || disclosure[i].fragment.core_revision
                != fragment.core_revision || disclosure[i].fragment.content_digest
                != fragment.content_digest) ==> disclosure_of(disclosure, fragment) is Redacted,
        disclosure_of(disclosure, fragment) is Included ==> exists|i: int|
            0 <= i < disclosure.len() && (#[trigger] disclosure[i]).fragment.identity
                == fragment.identity && disclosure[i].fragment.core_revision
                == fragment.core_revision && disclosure[i].fragment.content_digest
                == fragment.content_digest && disclosure[i].disclosure == disclosure_of(
                disclosure,
                fragment,
            ),
{
    let p = discloses(disclosure_key_of(fragment));
    lemma_first_in(disclosure, p);
    if some_in(disclosure, p) {
        let found = first_in(disclosure, p)->Some_0;
        let i = choose|i: int| 0 <= i < disclosure.len() && disclosure[i] == found;
        assert(p(disclosure[i]));
        assert(disclosure[i].fragment.identity == fragment.identity);
    }
}

/// An item is reported as included exactly where it was selected, whatever else is recorded of it.
pub proof fn law_selected_items_are_reported(
    provenance: ProjectionProvenanceView,
    item: ContextItemView,
)
    ensures
        selection_of(provenance, FragmentValueView::Item { item }) == "included"@
            <==> provenance.selected_context_ids.contains(item.item_id),
        !provenance.selected_context_ids.contains(item.item_id)
            && provenance.dropped_context_ids.contains(item.item_id) ==> selection_of(
            provenance,
            FragmentValueView::Item { item },
        ) == "excluded"@,
        reason_of(provenance, FragmentValueView::Item { item }) == "selected"@
            <==> provenance.selected_context_ids.contains(item.item_id),
{
    reveal_strlit("included");
    reveal_strlit("excluded");
    reveal_strlit("unresolved");
    reveal_strlit("selected");
    reveal_strlit("not_recorded");
    assert("included"@[0] == 'i');
    assert("excluded"@[0] == 'e');
    assert("unresolved"@[0] == 'u');
    assert("selected"@[0] == 's');
    assert("not_recorded"@[0] == 'n');
}

/// An outcome is displayed with the status of its own kind, and with what a success rests on.
pub proof fn law_outcomes_show_their_status(outcome: RunOutcomeView)
    ensures
        ({
            let shown = outcome_report(outcome);
            &&& shown.checkpoint_revision == outcome.checkpoint_revision
            &&& shown.status == RunStatus::Succeeded <==> outcome.result is Succeeded
            &&& shown.status == RunStatus::Failed <==> outcome.result is Failed
            &&& shown.status == RunStatus::Cancelled <==> outcome.result is Cancelled
            &&& shown.status == RunStatus::Exhausted <==> outcome.result is Exhausted
            &&& shown.status == RunStatus::Waiting <==> outcome.result is Waiting
            &&& shown.status == RunStatus::Interrupted <==> outcome.result is Interrupted
            &&& outcome.result matches OutcomeResultView::Succeeded { completion_basis }
                ==> shown.completion_basis == Some(completion_basis)
            &&& !(outcome.result is Succeeded) ==> shown.completion_basis is None
        }),
{
}

/// An observed response is reported as observed, and what was recorded of an attempt is shown as it
/// is.
pub proof fn law_observed_responses_are_reported(stored: StoredAttemptView)
    ensures
        ({
            let shown = attempt_report(stored);
            &&& stored.response_observed <==> shown.evidence.contains(
                InspectionEvidence::ResponseObserved,
            )
            &&& shown.result_recorded <==> stored.invocation.response_ref is Some
            &&& shown.state == stored.invocation.state
            &&& shown.usage == stored.invocation.usage
            &&& shown.attempt_id == stored.invocation.attempt_id
        }),
{
    let evidence = attempt_report(stored).evidence;
    assert(evidence.len() == 2);
    assert(evidence[0] == InspectionEvidence::DispatchReserved);
    if stored.response_observed {
        assert(evidence[1] == InspectionEvidence::ResponseObserved);
    } else {
        assert(evidence[1] == InspectionEvidence::TransmissionUnknown);
    }
}

} // verus!
