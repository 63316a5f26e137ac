//! Hook positions, inputs, outputs and the applications that are recorded of them.
use vstd::prelude::*;

use crate::content::InputContent;
#[allow(unused_imports)]
use crate::content::InputContentView;
use crate::context::{encode_export, encode_priority, ContextItem, ContextPriority, ExportRef};
#[allow(unused_imports)]
use crate::context::{export_json, priority_json, ContextItemView, ExportRefView};
use crate::context_source::records::encode_items;
#[allow(unused_imports)]
use crate::context_source::records::items_json;
use crate::data::{map_each, Data};
use crate::encoding::{
    encode_input, encode_record_ref, encode_scope, encode_versioned, no_members, number,
    with_member, with_some,
};
#[allow(unused_imports)]
use crate::encoding::{input_json, record_ref_json, scope_json, some_member, versioned_json};
use crate::error::ContractError;
#[allow(unused_imports)]
use crate::error::Fault;
use crate::json::{Json, Member};
#[allow(unused_imports)]
use crate::json::{JsonView, MemberView};
use crate::model::ModelTool;
#[allow(unused_imports)]
use crate::model::ModelToolView;
use crate::refs::{RecordRef, Scope, VersionedRef};
#[allow(unused_imports)]
use crate::refs::{RecordRefView, ScopeView, VersionedRefView};
use crate::serialization::{canonical_digest, Id, JsonDigest};
#[allow(unused_imports)]
use crate::serialization::digest_of;
#[allow(unused_imports)]
use crate::text::decimal_text;

pub mod records;
pub mod runtime;

verus! {

/// Where a hook runs.
#[derive(Debug, Clone, Copy, PartialEq, Eq, Structural)]
pub enum HookPosition {
    BeforeRun,
    BeforeModel,
    BeforeTool,
    AfterTool,
    AfterRun,
}

impl View for HookPosition {
    type V = HookPosition;

    open spec fn view(&self) -> HookPosition {
        *self
    }
}

impl DeepView for HookPosition {
    type V = HookPosition;

    open spec fn deep_view(&self) -> HookPosition {
        *self
    }
}

impl Data for HookPosition {
    fn same(&self, other: &Self) -> (r: bool) {
        *self == *other
    }

    fn copy(&self) -> (r: Self) {
        *self
    }
}

/// A hook of the component catalog.
#[derive(Debug)]
pub struct CatalogHook {
    pub hook_id: Id,
    pub version: Id,
    pub position: HookPosition,
}

#[verifier::ext_equal]
pub struct CatalogHookView {
    pub hook_id: Seq<char>,
    pub version: Seq<char>,
    pub position: HookPosition,
}

impl View for CatalogHook {
    type V = CatalogHookView;

    open spec fn view(&self) -> CatalogHookView {
        CatalogHookView {
            hook_id: self.hook_id.deep_view(),
            version: self.version.deep_view(),
            position: self.position.deep_view(),
        }
    }
}

impl DeepView for CatalogHook {
    type V = CatalogHookView;

    open spec fn deep_view(&self) -> CatalogHookView {
        self@
    }
}

impl Data for CatalogHook {
    fn same(&self, other: &Self) -> (r: bool) {
        self.hook_id.same(&other.hook_id)
            && self.version.same(&other.version)
            && self.position.same(&other.position)
    }

    fn copy(&self) -> (r: Self) {
        CatalogHook {
            hook_id: self.hook_id.copy(),
            version: self.version.copy(),
            position: self.position.copy(),
        }
    }
}

/// How a profile names a hook.
#[derive(Debug)]
pub enum HookRef {
    Catalog(CatalogHook),
    Export(ExportRef),
}

#[verifier::ext_equal]
pub enum HookRefView {
    Catalog(CatalogHookView),
    Export(ExportRefView),
}

impl View for HookRef {
    type V = HookRefView;

    open spec fn view(&self) -> HookRefView {
        match self {
            HookRef::Catalog(a) => HookRefView::Catalog(a.deep_view()),
            HookRef::Export(a) => HookRefView::Export(a.deep_view()),
        }
    }
}

impl DeepView for HookRef {
    type V = HookRefView;

    open spec fn deep_view(&self) -> HookRefView {
        self@
    }
}

impl Data for HookRef {
    fn same(&self, other: &Self) -> (r: bool) {
        match (self, other) {
            (HookRef::Catalog(a1), HookRef::Catalog(a2)) => a1.same(a2),
            (HookRef::Export(a1), HookRef::Export(a2)) => a1.same(a2),
            _ => false,
        }
    }

    fn copy(&self) -> (r: Self) {
        match self {
            HookRef::Catalog(a) => HookRef::Catalog(a.copy()),
            HookRef::Export(a) => HookRef::Export(a.copy()),
        }
    }
}

/// What a hook is applied to.
#[derive(Debug)]
pub enum HookTarget {
    BeforeRun,
    BeforeModel {
        model_step_id: Id,
    },
    BeforeTool {
        call_id: Id,
    },
    AfterTool {
        call_id: Id,
        result_ref: RecordRef,
    },
    AfterRun {
        outcome_ref: RecordRef,
        revision: u64,
    },
}

#[verifier::ext_equal]
pub enum HookTargetView {
    BeforeRun,
    BeforeModel {
        model_step_id: Seq<char>,
    },
    BeforeTool {
        call_id: Seq<char>,
    },
    AfterTool {
        call_id: Seq<char>,
        result_ref: RecordRefView,
    },
    AfterRun {
        outcome_ref: RecordRefView,
        revision: u64,
    },
}

impl View for HookTarget {
    type V = HookTargetView;

    open spec fn view(&self) -> HookTargetView {
        match self {
            HookTarget::BeforeRun => HookTargetView::BeforeRun,
            HookTarget::BeforeModel { model_step_id } => HookTargetView::BeforeModel { model_step_id: model_step_id.deep_view() },
            HookTarget::BeforeTool { call_id } => HookTargetView::BeforeTool { call_id: call_id.deep_view() },
            HookTarget::AfterTool { call_id, result_ref } => HookTargetView::AfterTool { call_id: call_id.deep_view(), result_ref: result_ref.deep_view() },
            HookTarget::AfterRun { outcome_ref, revision } => HookTargetView::AfterRun { outcome_ref: outcome_ref.deep_view(), revision: revision.deep_view() },
        }
    }
}

impl DeepView for HookTarget {
    type V = HookTargetView;

    open spec fn deep_view(&self) -> HookTargetView {
        self@
    }
}

impl Data for HookTarget {
    fn same(&self, other: &Self) -> (r: bool) {
        match (self, other) {
            (HookTarget::BeforeRun, HookTarget::BeforeRun) => true,
            (HookTarget::BeforeModel { model_step_id: model_step_id1 }, HookTarget::BeforeModel { model_step_id: model_step_id2 }) => model_step_id1.same(model_step_id2),
            (HookTarget::BeforeTool { call_id: call_id1 }, HookTarget::BeforeTool { call_id: call_id2 }) => call_id1.same(call_id2),
            (HookTarget::AfterTool { call_id: call_id1, result_ref: result_ref1 }, HookTarget::AfterTool { call_id: call_id2, result_ref: result_ref2 }) => call_id1.same(call_id2) && result_ref1.same(result_ref2),
            (HookTarget::AfterRun { outcome_ref: outcome_ref1, revision: revision1 }, HookTarget::AfterRun { outcome_ref: outcome_ref2, revision: revision2 }) => outcome_ref1.same(outcome_ref2) && revision1.same(revision2),
            _ => false,
        }
    }

    fn copy(&self) -> (r: Self) {
        match self {
            HookTarget::BeforeRun => HookTarget::BeforeRun,
            HookTarget::BeforeModel { model_step_id } => HookTarget::BeforeModel { model_step_id: model_step_id.copy() },
            HookTarget::BeforeTool { call_id } => HookTarget::BeforeTool { call_id: call_id.copy() },
            HookTarget::AfterTool { call_id, result_ref } => HookTarget::AfterTool { call_id: call_id.copy(), result_ref: result_ref.copy() },
            HookTarget::AfterRun { outcome_ref, revision } => HookTarget::AfterRun { outcome_ref: outcome_ref.copy(), revision: revision.copy() },
        }
    }
}

/// What a hook sees.
#[derive(Debug)]
pub enum HookInput {
    BeforeRun {
        user_input: Vec<InputContent>,
        context_items: Vec<ContextItem>,
    },
    BeforeModel {
        user_input: Vec<InputContent>,
        context_items: Vec<ContextItem>,
    },
    BeforeTool {
        tool: ModelTool,
        descriptor_digest: JsonDigest,
        compiled_digest: JsonDigest,
        original_model_inputs: Vec<Member>,
        model_inputs: Vec<Member>,
    },
    AfterTool {
        observed: Json,
    },
    AfterRun {
        observed: Json,
    },
}

#[verifier::ext_equal]
pub enum HookInputView {
    BeforeRun {
        user_input: Seq<InputContentView>,
        context_items: Seq<ContextItemView>,
    },
    BeforeModel {
        user_input: Seq<InputContentView>,
        context_items: Seq<ContextItemView>,
    },
    BeforeTool {
        tool: ModelToolView,
        descriptor_digest: Seq<char>,
        compiled_digest: Seq<char>,
        original_model_inputs: Seq<MemberView>,
        model_inputs: Seq<MemberView>,
    },
    AfterTool {
        observed: JsonView,
    },
    AfterRun {
        observed: JsonView,
    },
}

impl View for HookInput {
    type V = HookInputView;

    open spec fn view(&self) -> HookInputView {
        match self {
            HookInput::BeforeRun { user_input, context_items } => HookInputView::BeforeRun { user_input: user_input.deep_view(), context_items: context_items.deep_view() },
            HookInput::BeforeModel { user_input, context_items } => HookInputView::BeforeModel { user_input: user_input.deep_view(), context_items: context_items.deep_view() },
            HookInput::BeforeTool { tool, descriptor_digest, compiled_digest, original_model_inputs, model_inputs } => HookInputView::BeforeTool { tool: tool.deep_view(), descriptor_digest: descriptor_digest.deep_view(), compiled_digest: compiled_digest.deep_view(), original_model_inputs: original_model_inputs.deep_view(), model_inputs: model_inputs.deep_view() },
            HookInput::AfterTool { observed } => HookInputView::AfterTool { observed: observed.deep_view() },
            HookInput::AfterRun { observed } => HookInputView::AfterRun { observed: observed.deep_view() },
        }
    }
}

impl DeepView for HookInput {
    type V = HookInputView;

    open spec fn deep_view(&self) -> HookInputView {
        self@
    }
}

impl Data for HookInput {
    fn same(&self, other: &Self) -> (r: bool) {
        match (self, other) {
            (HookInput::BeforeRun { user_input: user_input1, context_items: context_items1 }, HookInput::BeforeRun { user_input: user_input2, context_items: context_items2 }) => user_input1.same(user_input2) && context_items1.same(context_items2),
            (HookInput::BeforeModel { user_input: user_input1, context_items: context_items1 }, HookInput::BeforeModel { user_input: user_input2, context_items: context_items2 }) => user_input1.same(user_input2) && context_items1.same(context_items2),
            (HookInput::BeforeTool { tool: tool1, descriptor_digest: descriptor_digest1, compiled_digest: compiled_digest1, original_model_inputs: original_model_inputs1, model_inputs: model_inputs1 }, HookInput::BeforeTool { tool: tool2, descriptor_digest: descriptor_digest2, compiled_digest: compiled_digest2, original_model_inputs: original_model_inputs2, model_inputs: model_inputs2 }) => tool1.same(tool2) && descriptor_digest1.same(descriptor_digest2) && compiled_digest1.same(compiled_digest2) && original_model_inputs1.same(original_model_inputs2) && model_inputs1.same(model_inputs2),
            (HookInput::AfterTool { observed: observed1 }, HookInput::AfterTool { observed: observed2 }) => observed1.same(observed2),
            (HookInput::AfterRun { observed: observed1 }, HookInput::AfterRun { observed: observed2 }) => observed1.same(observed2),
            _ => false,
        }
    }

    fn copy(&self) -> (r: Self) {
        match self {
            HookInput::BeforeRun { user_input, context_items } => HookInput::BeforeRun { user_input: user_input.copy(), context_items: context_items.copy() },
            HookInput::BeforeModel { user_input, context_items } => HookInput::BeforeModel { user_input: user_input.copy(), context_items: context_items.copy() },
            HookInput::BeforeTool { tool, descriptor_digest, compiled_digest, original_model_inputs, model_inputs } => HookInput::BeforeTool { tool: tool.copy(), descriptor_digest: descriptor_digest.copy(), compiled_digest: compiled_digest.copy(), original_model_inputs: original_model_inputs.copy(), model_inputs: model_inputs.copy() },
            HookInput::AfterTool { observed } => HookInput::AfterTool { observed: observed.copy() },
            HookInput::AfterRun { observed } => HookInput::AfterRun { observed: observed.copy() },
        }
    }
}

/// Context that a hook adds.
#[derive(Debug)]
pub struct HookContextAddition {
    pub content: Vec<InputContent>,
    pub priority: ContextPriority,
}

#[verifier::ext_equal]
pub struct HookContextAdditionView {
    pub content: Seq<InputContentView>,
    pub priority: ContextPriority,
}

impl View for HookContextAddition {
    type V = HookContextAdditionView;

    open spec fn view(&self) -> HookContextAdditionView {
        HookContextAdditionView {
            content: self.content.deep_view(),
            priority: self.priority.deep_view(),
        }
    }
}

impl DeepView for HookContextAddition {
    type V = HookContextAdditionView;

    open spec fn deep_view(&self) -> HookContextAdditionView {
        self@
    }
}

impl Data for HookContextAddition {
    fn same(&self, other: &Self) -> (r: bool) {
        self.content.same(&other.content)
            && self.priority.same(&other.priority)
    }

    fn copy(&self) -> (r: Self) {
        HookContextAddition {
            content: self.content.copy(),
            priority: self.priority.copy(),
        }
    }
}

/// What a hook returns.
#[derive(Debug)]
pub enum HookOutput {
    Context {
        additions: Vec<HookContextAddition>,
    },
    Tool {
        model_inputs: Vec<Member>,
        deny: Option<Id>,
    },
    Observed,
}

#[verifier::ext_equal]
pub enum HookOutputView {
    Context {
        additions: Seq<HookContextAdditionView>,
    },
    Tool {
        model_inputs: Seq<MemberView>,
        deny: Option<Seq<char>>,
    },
    Observed,
}

impl View for HookOutput {
    type V = HookOutputView;

    open spec fn view(&self) -> HookOutputView {
        match self {
            HookOutput::Context { additions } => HookOutputView::Context { additions: additions.deep_view() },
            HookOutput::Tool { model_inputs, deny } => HookOutputView::Tool { model_inputs: model_inputs.deep_view(), deny: deny.deep_view() },
            HookOutput::Observed => HookOutputView::Observed,
        }
    }
}

impl DeepView for HookOutput {
    type V = HookOutputView;

    open spec fn deep_view(&self) -> HookOutputView {
        self@
    }
}

impl Data for HookOutput {
    fn same(&self, other: &Self) -> (r: bool) {
        match (self, other) {
            (HookOutput::Context { additions: additions1 }, HookOutput::Context { additions: additions2 }) => additions1.same(additions2),
            (HookOutput::Tool { model_inputs: model_inputs1, deny: deny1 }, HookOutput::Tool { model_inputs: model_inputs2, deny: deny2 }) => model_inputs1.same(model_inputs2) && deny1.same(deny2),
            (HookOutput::Observed, HookOutput::Observed) => true,
            _ => false,
        }
    }

    fn copy(&self) -> (r: Self) {
        match self {
            HookOutput::Context { additions } => HookOutput::Context { additions: additions.copy() },
            HookOutput::Tool { model_inputs, deny } => HookOutput::Tool { model_inputs: model_inputs.copy(), deny: deny.copy() },
            HookOutput::Observed => HookOutput::Observed,
        }
    }
}

/// A registered hook.
#[derive(Debug)]
pub struct HookDefinition {
    pub hook: VersionedRef,
    pub position: HookPosition,
    pub required: bool,
    pub timeout_ms: u64,
    pub max_output_bytes: u64,
}

#[verifier::ext_equal]
pub struct HookDefinitionView {
    pub hook: VersionedRefView,
    pub position: HookPosition,
    pub required: bool,
    pub timeout_ms: u64,
    pub max_output_bytes: u64,
}

impl View for HookDefinition {
    type V = HookDefinitionView;

    open spec fn view(&self) -> HookDefinitionView {
        HookDefinitionView {
            hook: self.hook.deep_view(),
            position: self.position.deep_view(),
            required: self.required.deep_view(),
            timeout_ms: self.timeout_ms.deep_view(),
            max_output_bytes: self.max_output_bytes.deep_view(),
        }
    }
}

impl DeepView for HookDefinition {
    type V = HookDefinitionView;

    open spec fn deep_view(&self) -> HookDefinitionView {
        self@
    }
}

impl Data for HookDefinition {
    fn same(&self, other: &Self) -> (r: bool) {
        self.hook.same(&other.hook)
            && self.position.same(&other.position)
            && self.required.same(&other.required)
            && self.timeout_ms.same(&other.timeout_ms)
            && self.max_output_bytes.same(&other.max_output_bytes)
    }

    fn copy(&self) -> (r: Self) {
        HookDefinition {
            hook: self.hook.copy(),
            position: self.position.copy(),
            required: self.required.copy(),
            timeout_ms: self.timeout_ms.copy(),
            max_output_bytes: self.max_output_bytes.copy(),
        }
    }
}

/// The ledger entry of one hook application.
#[derive(Debug)]
pub struct HookApplication {
    pub hook: VersionedRef,
    pub selection: Option<HookRef>,
    pub definition_digest: JsonDigest,
    pub target: HookTarget,
    pub input_digest: JsonDigest,
    pub result_ref: RecordRef,
}

#[verifier::ext_equal]
pub struct HookApplicationView {
    pub hook: VersionedRefView,
    pub selection: Option<HookRefView>,
    pub definition_digest: Seq<char>,
    pub target: HookTargetView,
    pub input_digest: Seq<char>,
    pub result_ref: RecordRefView,
}

impl View for HookApplication {
    type V = HookApplicationView;

    open spec fn view(&self) -> HookApplicationView {
        HookApplicationView {
            hook: self.hook.deep_view(),
            selection: self.selection.deep_view(),
            definition_digest: self.definition_digest.deep_view(),
            target: self.target.deep_view(),
            input_digest: self.input_digest.deep_view(),
            result_ref: self.result_ref.deep_view(),
        }
    }
}

impl DeepView for HookApplication {
    type V = HookApplicationView;

    open spec fn deep_view(&self) -> HookApplicationView {
        self@
    }
}

impl Data for HookApplication {
    fn same(&self, other: &Self) -> (r: bool) {
        self.hook.same(&other.hook)
            && self.selection.same(&other.selection)
            && self.definition_digest.same(&other.definition_digest)
            && self.target.same(&other.target)
            && self.input_digest.same(&other.input_digest)
            && self.result_ref.same(&other.result_ref)
    }

    fn copy(&self) -> (r: Self) {
        HookApplication {
            hook: self.hook.copy(),
            selection: self.selection.copy(),
            definition_digest: self.definition_digest.copy(),
            target: self.target.copy(),
            input_digest: self.input_digest.copy(),
            result_ref: self.result_ref.copy(),
        }
    }
}

/// The protected record of one hook application.
#[derive(Debug)]
pub struct HookApplicationRecord {
    pub scope: Scope,
    pub run_id: Id,
    pub hook: VersionedRef,
    pub selection: Option<HookRef>,
    pub definition_digest: JsonDigest,
    pub target: HookTarget,
    pub input: HookInput,
    pub output: Option<HookOutput>,
    pub failure: Option<Id>,
    pub context_items: Vec<ContextItem>,
    /// What validating the input against its target reported.
    pub input_defect: Option<ContractError>,
    /// What the content and schema rules report of the output.
    pub checks: OutputChecks,
    /// The original tool inputs after normalization against the tool's schema.
    pub normalized_original: Vec<Member>,
    /// What normalizing the original tool inputs reported.
    pub original_defect: Option<ContractError>,
}

#[verifier::ext_equal]
pub struct HookApplicationRecordView {
    pub scope: ScopeView,
    pub run_id: Seq<char>,
    pub hook: VersionedRefView,
    pub selection: Option<HookRefView>,
    pub definition_digest: Seq<char>,
    pub target: HookTargetView,
    pub input: HookInputView,
    pub output: Option<HookOutputView>,
    pub failure: Option<Seq<char>>,
    pub context_items: Seq<ContextItemView>,
    pub input_defect: Option<Fault>,
    pub checks: OutputChecksView,
    pub normalized_original: Seq<MemberView>,
    pub original_defect: Option<Fault>,
}

impl View for HookApplicationRecord {
    type V = HookApplicationRecordView;

    open spec fn view(&self) -> HookApplicationRecordView {
        HookApplicationRecordView {
            scope: self.scope.deep_view(),
            run_id: self.run_id.deep_view(),
            hook: self.hook.deep_view(),
            selection: self.selection.deep_view(),
            definition_digest: self.definition_digest.deep_view(),
            target: self.target.deep_view(),
            input: self.input.deep_view(),
            output: self.output.deep_view(),
            failure: self.failure.deep_view(),
            context_items: self.context_items.deep_view(),
            input_defect: self.input_defect.deep_view(),
            checks: self.checks.deep_view(),
            normalized_original: self.normalized_original.deep_view(),
            original_defect: self.original_defect.deep_view(),
        }
    }
}

impl DeepView for HookApplicationRecord {
    type V = HookApplicationRecordView;

    open spec fn deep_view(&self) -> HookApplicationRecordView {
        self@
    }
}

impl Data for HookApplicationRecord {
    fn same(&self, other: &Self) -> (r: bool) {
        self.scope.same(&other.scope)
            && self.run_id.same(&other.run_id)
            && self.hook.same(&other.hook)
            && self.selection.same(&other.selection)
            && self.definition_digest.same(&other.definition_digest)
            && self.target.same(&other.target)
            && self.input.same(&other.input)
            && self.output.same(&other.output)
            && self.failure.same(&other.failure)
            && self.context_items.same(&other.context_items)
            && self.input_defect.same(&other.input_defect)
            && self.checks.same(&other.checks)
            && self.normalized_original.same(&other.normalized_original)
            && self.original_defect.same(&other.original_defect)
    }

    fn copy(&self) -> (r: Self) {
        HookApplicationRecord {
            scope: self.scope.copy(),
            run_id: self.run_id.copy(),
            hook: self.hook.copy(),
            selection: self.selection.copy(),
            definition_digest: self.definition_digest.copy(),
            target: self.target.copy(),
            input: self.input.copy(),
            output: self.output.copy(),
            failure: self.failure.copy(),
            context_items: self.context_items.copy(),
            input_defect: self.input_defect.copy(),
            checks: self.checks.copy(),
            normalized_original: self.normalized_original.copy(),
            original_defect: self.original_defect.copy(),
        }
    }
}

/// What the content and schema rules report of an output.
#[derive(Debug)]
pub struct OutputChecks {
    /// Whether every addition holds content that a model may see.
    pub additions_safe: bool,
    /// The returned tool inputs after normalization against the tool's schema, where they fit it.
    pub normalized_inputs: Option<Vec<Member>>,
}

#[verifier::ext_equal]
pub struct OutputChecksView {
    pub additions_safe: bool,
    pub normalized_inputs: Option<Seq<MemberView>>,
}

impl View for OutputChecks {
    type V = OutputChecksView;

    open spec fn view(&self) -> OutputChecksView {
        OutputChecksView {
            additions_safe: self.additions_safe.deep_view(),
            normalized_inputs: self.normalized_inputs.deep_view(),
        }
    }
}

impl DeepView for OutputChecks {
    type V = OutputChecksView;

    open spec fn deep_view(&self) -> OutputChecksView {
        self@
    }
}

impl Data for OutputChecks {
    fn same(&self, other: &Self) -> (r: bool) {
        self.additions_safe.same(&other.additions_safe)
            && self.normalized_inputs.same(&other.normalized_inputs)
    }

    fn copy(&self) -> (r: Self) {
        OutputChecks {
            additions_safe: self.additions_safe.copy(),
            normalized_inputs: self.normalized_inputs.copy(),
        }
    }
}

/// Pinned hooks of a run, in the order in which they apply.
#[derive(Debug)]
pub struct HookPlan {
    pub scope: Scope,
    pub definitions: Vec<HookDefinition>,
    pub selections: Vec<Option<HookRef>>,
}

#[verifier::ext_equal]
pub struct HookPlanView {
    pub scope: ScopeView,
    pub definitions: Seq<HookDefinitionView>,
    pub selections: Seq<Option<HookRefView>>,
}

impl View for HookPlan {
    type V = HookPlanView;

    open spec fn view(&self) -> HookPlanView {
        HookPlanView {
            scope: self.scope.deep_view(),
            definitions: self.definitions.deep_view(),
            selections: self.selections.deep_view(),
        }
    }
}

impl DeepView for HookPlan {
    type V = HookPlanView;

    open spec fn deep_view(&self) -> HookPlanView {
        self@
    }
}

impl Data for HookPlan {
    fn same(&self, other: &Self) -> (r: bool) {
        self.scope.same(&other.scope)
            && self.definitions.same(&other.definitions)
            && self.selections.same(&other.selections)
    }

    fn copy(&self) -> (r: Self) {
        HookPlan {
            scope: self.scope.copy(),
            definitions: self.definitions.copy(),
            selections: self.selections.copy(),
        }
    }
}

/// How an observation went.
#[derive(Debug)]
pub enum HookObservationStatus {
    Completed,
    Failed {
        code: Id,
    },
}

#[verifier::ext_equal]
pub enum HookObservationStatusView {
    Completed,
    Failed {
        code: Seq<char>,
    },
}

impl View for HookObservationStatus {
    type V = HookObservationStatusView;

    open spec fn view(&self) -> HookObservationStatusView {
        match self {
            HookObservationStatus::Completed => HookObservationStatusView::Completed,
            HookObservationStatus::Failed { code } => HookObservationStatusView::Failed { code: code.deep_view() },
        }
    }
}

impl DeepView for HookObservationStatus {
    type V = HookObservationStatusView;

    open spec fn deep_view(&self) -> HookObservationStatusView {
        self@
    }
}

impl Data for HookObservationStatus {
    fn same(&self, other: &Self) -> (r: bool) {
        match (self, other) {
            (HookObservationStatus::Completed, HookObservationStatus::Completed) => true,
            (HookObservationStatus::Failed { code: code1 }, HookObservationStatus::Failed { code: code2 }) => code1.same(code2),
            _ => false,
        }
    }

    fn copy(&self) -> (r: Self) {
        match self {
            HookObservationStatus::Completed => HookObservationStatus::Completed,
            HookObservationStatus::Failed { code } => HookObservationStatus::Failed { code: code.copy() },
        }
    }
}

/// A report about a committed result.
#[derive(Debug)]
pub struct HookObservation {
    pub scope: Scope,
    pub run_id: Id,
    pub hook: VersionedRef,
    pub selection: Option<HookRef>,
    pub definition_digest: JsonDigest,
    pub target: HookTarget,
    pub input_digest: JsonDigest,
    pub timestamp_ms: i64,
    pub status: HookObservationStatus,
}

#[verifier::ext_equal]
pub struct HookObservationView {
    pub scope: ScopeView,
    pub run_id: Seq<char>,
    pub hook: VersionedRefView,
    pub selection: Option<HookRefView>,
    pub definition_digest: Seq<char>,
    pub target: HookTargetView,
    pub input_digest: Seq<char>,
    pub timestamp_ms: i64,
    pub status: HookObservationStatusView,
}

impl View for HookObservation {
    type V = HookObservationView;

    open spec fn view(&self) -> HookObservationView {
        HookObservationView {
            scope: self.scope.deep_view(),
            run_id: self.run_id.deep_view(),
            hook: self.hook.deep_view(),
            selection: self.selection.deep_view(),
            definition_digest: self.definition_digest.deep_view(),
            target: self.target.deep_view(),
            input_digest: self.input_digest.deep_view(),
            timestamp_ms: self.timestamp_ms.deep_view(),
            status: self.status.deep_view(),
        }
    }
}

impl DeepView for HookObservation {
    type V = HookObservationView;

    open spec fn deep_view(&self) -> HookObservationView {
        self@
    }
}

impl Data for HookObservation {
    fn same(&self, other: &Self) -> (r: bool) {
        self.scope.same(&other.scope)
            && self.run_id.same(&other.run_id)
            && self.hook.same(&other.hook)
            && self.selection.same(&other.selection)
            && self.definition_digest.same(&other.definition_digest)
            && self.target.same(&other.target)
            && self.input_digest.same(&other.input_digest)
            && self.timestamp_ms.same(&other.timestamp_ms)
            && self.status.same(&other.status)
    }

    fn copy(&self) -> (r: Self) {
        HookObservation {
            scope: self.scope.copy(),
            run_id: self.run_id.copy(),
            hook: self.hook.copy(),
            selection: self.selection.copy(),
            definition_digest: self.definition_digest.copy(),
            target: self.target.copy(),
            input_digest: self.input_digest.copy(),
            timestamp_ms: self.timestamp_ms.copy(),
            status: self.status.copy(),
        }
    }
}

/// What applying hooks to an input made of it.
#[derive(Debug)]
pub struct HookTransform {
    pub context_items: Vec<ContextItem>,
    pub model_inputs: Option<Vec<Member>>,
    pub deny: Option<Id>,
    pub applications: Vec<HookApplication>,
}

#[verifier::ext_equal]
pub struct HookTransformView {
    pub context_items: Seq<ContextItemView>,
    pub model_inputs: Option<Seq<MemberView>>,
    pub deny: Option<Seq<char>>,
    pub applications: Seq<HookApplicationView>,
}

impl View for HookTransform {
    type V = HookTransformView;

    open spec fn view(&self) -> HookTransformView {
        HookTransformView {
            context_items: self.context_items.deep_view(),
            model_inputs: self.model_inputs.deep_view(),
            deny: self.deny.deep_view(),
            applications: self.applications.deep_view(),
        }
    }
}

impl DeepView for HookTransform {
    type V = HookTransformView;

    open spec fn deep_view(&self) -> HookTransformView {
        self@
    }
}

impl Data for HookTransform {
    fn same(&self, other: &Self) -> (r: bool) {
        self.context_items.same(&other.context_items)
            && self.model_inputs.same(&other.model_inputs)
            && self.deny.same(&other.deny)
            && self.applications.same(&other.applications)
    }

    fn copy(&self) -> (r: Self) {
        HookTransform {
            context_items: self.context_items.copy(),
            model_inputs: self.model_inputs.copy(),
            deny: self.deny.copy(),
            applications: self.applications.copy(),
        }
    }
}


/// The encoded position of a hook.
pub open spec fn position_json(v: HookPosition) -> JsonView {
    match v {
        HookPosition::BeforeRun => JsonView::Text("before_run"@),
        HookPosition::BeforeModel => JsonView::Text("before_model"@),
        HookPosition::BeforeTool => JsonView::Text("before_tool"@),
        HookPosition::AfterTool => JsonView::Text("after_tool"@),
        HookPosition::AfterRun => JsonView::Text("after_run"@),
    }
}

/// Encode the position of a hook.
pub fn encode_position(v: &HookPosition) -> (r: Json)
    ensures
        r@ == position_json(*v),
{
    match v {
        HookPosition::BeforeRun => crate::json::text("before_run"),
        HookPosition::BeforeModel => crate::json::text("before_model"),
        HookPosition::BeforeTool => crate::json::text("before_tool"),
        HookPosition::AfterTool => crate::json::text("after_tool"),
        HookPosition::AfterRun => crate::json::text("after_run"),
    }
}

/// The encoded name of a catalog hook.
pub open spec fn catalog_hook_json(v: CatalogHookView) -> JsonView {
    JsonView::Object(Seq::<MemberView>::empty()
.push(MemberView { key: "hook_id"@, value: JsonView::Text(v.hook_id) })
.push(MemberView { key: "position"@, value: position_json(v.position) })
.push(MemberView { key: "version"@, value: JsonView::Text(v.version) }))
}

/// Encode the name of a catalog hook.
pub fn encode_catalog_hook(v: &CatalogHook) -> (r: Json)
    ensures
        r@ == catalog_hook_json(v@),
{
    let members = no_members();
    let members = with_member(members, "hook_id", crate::json::text(v.hook_id.as_str()));
    let members = with_member(members, "position", encode_position(&v.position));
    let members = with_member(members, "version", crate::json::text(v.version.as_str()));
    crate::json::object(members)
}

/// The encoded name of a hook.
pub open spec fn hook_ref_json(v: HookRefView) -> JsonView {
    match v {
        HookRefView::Catalog(reference) => catalog_hook_json(reference),
        HookRefView::Export(reference) => export_json(reference),
    }
}

/// Encode the name of a hook.
pub fn encode_hook_ref(v: &HookRef) -> (r: Json)
    ensures
        r@ == hook_ref_json(v@),
{
    match v {
        HookRef::Catalog(reference) => encode_catalog_hook(reference),
        HookRef::Export(reference) => encode_export(reference),
    }
}

/// The encoded target of a hook.
pub open spec fn target_json(v: HookTargetView) -> JsonView {
    match v {
        HookTargetView::BeforeRun => JsonView::Object(Seq::<MemberView>::empty()
.push(MemberView { key: "kind"@, value: JsonView::Text("before_run"@) })),
        HookTargetView::BeforeModel { model_step_id } => JsonView::Object(Seq::<MemberView>::empty()
.push(MemberView { key: "kind"@, value: JsonView::Text("before_model"@) })
.push(MemberView { key: "model_step_id"@, value: JsonView::Text(model_step_id) })),
        HookTargetView::BeforeTool { call_id } => JsonView::Object(Seq::<MemberView>::empty()
.push(MemberView { key: "call_id"@, value: JsonView::Text(call_id) })
.push(MemberView { key: "kind"@, value: JsonView::Text("before_tool"@) })),
        HookTargetView::AfterTool { call_id, result_ref } => JsonView::Object(Seq::<MemberView>::empty()
.push(MemberView { key: "call_id"@, value: JsonView::Text(call_id) })
.push(MemberView { key: "kind"@, value: JsonView::Text("after_tool"@) })
.push(MemberView { key: "result_ref"@, value: record_ref_json(result_ref) })),
        HookTargetView::AfterRun { outcome_ref, revision } => JsonView::Object(Seq::<MemberView>::empty()
.push(MemberView { key: "kind"@, value: JsonView::Text("after_run"@) })
.push(MemberView { key: "outcome_ref"@, value: record_ref_json(outcome_ref) })
.push(MemberView { key: "revision"@, value: JsonView::Number(decimal_text(revision as nat)) })),
    }
}

/// Encode the target of a hook.
pub fn encode_target(v: &HookTarget) -> (r: Json)
    ensures
        r@ == target_json(v@),
{
    match v {
        HookTarget::BeforeRun => {
            let members = no_members();
            let members = with_member(members, "kind", crate::json::text("before_run"));
            crate::json::object(members)
        },
        HookTarget::BeforeModel { model_step_id } => {
            let members = no_members();
            let members = with_member(members, "kind", crate::json::text("before_model"));
            let members = with_member(members, "model_step_id", crate::json::text(model_step_id.as_str()));
            crate::json::object(members)
        },
        HookTarget::BeforeTool { call_id } => {
            let members = no_members();
            let members = with_member(members, "call_id", crate::json::text(call_id.as_str()));
            let members = with_member(members, "kind", crate::json::text("before_tool"));
            crate::json::object(members)
        },
        HookTarget::AfterTool { call_id, result_ref } => {
            let members = no_members();
            let members = with_member(members, "call_id", crate::json::text(call_id.as_str()));
            let members = with_member(members, "kind", crate::json::text("after_tool"));
            let members = with_member(members, "result_ref", encode_record_ref(result_ref));
            crate::json::object(members)
        },
        HookTarget::AfterRun { outcome_ref, revision } => {
            let members = no_members();
            let members = with_member(members, "kind", crate::json::text("after_run"));
            let members = with_member(members, "outcome_ref", encode_record_ref(outcome_ref));
            let members = with_member(members, "revision", number(*revision));
            crate::json::object(members)
        },
    }
}

/// The encoded tool as a model sees it.
pub open spec fn model_tool_json(v: ModelToolView) -> JsonView {
    JsonView::Object(Seq::<MemberView>::empty()
.push(MemberView { key: "description"@, value: JsonView::Text(v.description) })
.push(MemberView { key: "model_input_schema"@, value: v.model_input_schema })
.push(MemberView { key: "name"@, value: JsonView::Text(v.name) }))
}

/// Encode the tool as a model sees it.
pub fn encode_model_tool(v: &ModelTool) -> (r: Json)
    ensures
        r@ == model_tool_json(v@),
{
    let members = no_members();
    let members = with_member(members, "description", crate::json::text(v.description.as_str()));
    let members = with_member(members, "model_input_schema", v.model_input_schema.copy());
    let members = with_member(members, "name", crate::json::text(v.name.as_str()));
    crate::json::object(members)
}

/// The encoded input of a hook.
pub open spec fn hook_input_json(v: HookInputView) -> JsonView {
    match v {
        HookInputView::BeforeRun { user_input, context_items } => JsonView::Object(Seq::<MemberView>::empty()
.push(MemberView { key: "context_items"@, value: items_json(context_items) })
.push(MemberView { key: "kind"@, value: JsonView::Text("before_run"@) })
.push(MemberView { key: "user_input"@, value: input_json(user_input) })),
        HookInputView::BeforeModel { user_input, context_items } => JsonView::Object(Seq::<MemberView>::empty()
.push(MemberView { key: "context_items"@, value: items_json(context_items) })
.push(MemberView { key: "kind"@, value: JsonView::Text("before_model"@) })
.push(MemberView { key: "user_input"@, value: input_json(user_input) })),
        HookInputView::BeforeTool { tool, descriptor_digest, compiled_digest, original_model_inputs, model_inputs } => JsonView::Object(Seq::<MemberView>::empty()
.push(MemberView { key: "compiled_digest"@, value: JsonView::Text(compiled_digest) })
.push(MemberView { key: "descriptor_digest"@, value: JsonView::Text(descriptor_digest) })
.push(MemberView { key: "kind"@, value: JsonView::Text("before_tool"@) })
.push(MemberView { key: "model_inputs"@, value: JsonView::Object(model_inputs) })
.push(MemberView { key: "original_model_inputs"@, value: JsonView::Object(original_model_inputs) })
.push(MemberView { key: "tool"@, value: model_tool_json(tool) })),
        HookInputView::AfterTool { observed } => JsonView::Object(Seq::<MemberView>::empty()
.push(MemberView { key: "kind"@, value: JsonView::Text("after_tool"@) })
.push(MemberView { key: "observed"@, value: observed })),
        HookInputView::AfterRun { observed } => JsonView::Object(Seq::<MemberView>::empty()
.push(MemberView { key: "kind"@, value: JsonView::Text("after_run"@) })
.push(MemberView { key: "observed"@, value: observed })),
    }
}

/// Encode the input of a hook.
pub fn encode_hook_input(v: &HookInput) -> (r: Json)
    ensures
        r@ == hook_input_json(v@),
{
    match v {
        HookInput::BeforeRun { user_input, context_items } => {
            let members = no_members();
            let members = with_member(members, "context_items", encode_items(context_items));
            let members = with_member(members, "kind", crate::json::text("before_run"));
            let members = with_member(members, "user_input", encode_input(user_input));
            crate::json::object(members)
        },
        HookInput::BeforeModel { user_input, context_items } => {
            let members = no_members();
            let members = with_member(members, "context_items", encode_items(context_items));
            let members = with_member(members, "kind", crate::json::text("before_model"));
            let members = with_member(members, "user_input", encode_input(user_input));
            crate::json::object(members)
        },
        HookInput::BeforeTool { tool, descriptor_digest, compiled_digest, original_model_inputs, model_inputs } => {
            let members = no_members();
            let members = with_member(members, "compiled_digest", crate::json::text(compiled_digest.as_str()));
            let members = with_member(members, "descriptor_digest", crate::json::text(descriptor_digest.as_str()));
            let members = with_member(members, "kind", crate::json::text("before_tool"));
            let members = with_member(members, "model_inputs", crate::json::object(model_inputs.copy()));
            let members = with_member(members, "original_model_inputs", crate::json::object(original_model_inputs.copy()));
            let members = with_member(members, "tool", encode_model_tool(tool));
            crate::json::object(members)
        },
        HookInput::AfterTool { observed } => {
            let members = no_members();
            let members = with_member(members, "kind", crate::json::text("after_tool"));
            let members = with_member(members, "observed", observed.copy());
            crate::json::object(members)
        },
        HookInput::AfterRun { observed } => {
            let members = no_members();
            let members = with_member(members, "kind", crate::json::text("after_run"));
            let members = with_member(members, "observed", observed.copy());
            crate::json::object(members)
        },
    }
}

/// The encoded added context.
pub open spec fn addition_json(v: HookContextAdditionView) -> JsonView {
    JsonView::Object(Seq::<MemberView>::empty()
.push(MemberView { key: "content"@, value: input_json(v.content) })
.push(MemberView { key: "priority"@, value: priority_json(v.priority) }))
}

/// Encode the added context.
pub fn encode_addition(v: &HookContextAddition) -> (r: Json)
    ensures
        r@ == addition_json(v@),
{
    let members = no_members();
    let members = with_member(members, "content", encode_input(&v.content));
    let members = with_member(members, "priority", encode_priority(&v.priority));
    crate::json::object(members)
}

/// The encoded output of a hook.
pub open spec fn hook_output_json(v: HookOutputView) -> JsonView {
    match v {
        HookOutputView::Context { additions } => JsonView::Object(Seq::<MemberView>::empty()
.push(MemberView { key: "additions"@, value: JsonView::Array(additions.map_values(|x: HookContextAdditionView| addition_json(x))) })
.push(MemberView { key: "kind"@, value: JsonView::Text("context"@) })),
        HookOutputView::Tool { model_inputs, deny } => JsonView::Object((Seq::<MemberView>::empty()
+ some_member("deny"@, match deny { Some(x) => Some(JsonView::Text(x)), None => None }))
.push(MemberView { key: "kind"@, value: JsonView::Text("tool"@) })
.push(MemberView { key: "model_inputs"@, value: JsonView::Object(model_inputs) })),
        HookOutputView::Observed => JsonView::Object(Seq::<MemberView>::empty()
.push(MemberView { key: "kind"@, value: JsonView::Text("observed"@) })),
    }
}

/// Encode the output of a hook.
pub fn encode_hook_output(v: &HookOutput) -> (r: Json)
    ensures
        r@ == hook_output_json(v@),
{
    match v {
        HookOutput::Context { additions } => {
    let f0 = |x: &HookContextAddition| -> (r: Json)
        ensures
            r@ == addition_json(x@),
    { encode_addition(x) };
            let members = no_members();
            let members = with_member(members, "additions", crate::json::array(map_each(additions, f0, Ghost(|x: HookContextAdditionView| addition_json(x)))));
            let members = with_member(members, "kind", crate::json::text("context"));
            crate::json::object(members)
        },
        HookOutput::Tool { model_inputs, deny } => {
            let members = no_members();
            let members = with_some(members, "deny", match &deny { Some(x) => Some(crate::json::text(x.as_str())), None => None });
            let members = with_member(members, "kind", crate::json::text("tool"));
            let members = with_member(members, "model_inputs", crate::json::object(model_inputs.copy()));
            crate::json::object(members)
        },
        HookOutput::Observed => {
            let members = no_members();
            let members = with_member(members, "kind", crate::json::text("observed"));
            crate::json::object(members)
        },
    }
}

/// The encoded definition of a hook.
pub open spec fn hook_definition_json(v: HookDefinitionView) -> JsonView {
    JsonView::Object(Seq::<MemberView>::empty()
.push(MemberView { key: "hook"@, value: versioned_json(v.hook) })
.push(MemberView { key: "max_output_bytes"@, value: JsonView::Number(decimal_text(v.max_output_bytes as nat)) })
.push(MemberView { key: "position"@, value: position_json(v.position) })
.push(MemberView { key: "required"@, value: JsonView::Bool(v.required) })
.push(MemberView { key: "timeout_ms"@, value: JsonView::Number(decimal_text(v.timeout_ms as nat)) }))
}

/// Encode the definition of a hook.
pub fn encode_hook_definition(v: &HookDefinition) -> (r: Json)
    ensures
        r@ == hook_definition_json(v@),
{
    let members = no_members();
    let members = with_member(members, "hook", encode_versioned(&v.hook));
    let members = with_member(members, "max_output_bytes", number(v.max_output_bytes));
    let members = with_member(members, "position", encode_position(&v.position));
    let members = with_member(members, "required", Json::Bool(v.required));
    let members = with_member(members, "timeout_ms", number(v.timeout_ms));
    crate::json::object(members)
}

/// The encoded application of a hook.
pub open spec fn hook_record_json(v: HookApplicationRecordView) -> JsonView {
    JsonView::Object((((Seq::<MemberView>::empty()
.push(MemberView { key: "context_items"@, value: items_json(v.context_items) })
.push(MemberView { key: "definition_digest"@, value: JsonView::Text(v.definition_digest) })
+ some_member("failure"@, match v.failure { Some(x) => Some(JsonView::Text(x)), None => None }))
.push(MemberView { key: "hook"@, value: versioned_json(v.hook) })
.push(MemberView { key: "input"@, value: hook_input_json(v.input) })
+ some_member("output"@, match v.output { Some(x) => Some(hook_output_json(x)), None => None }))
.push(MemberView { key: "run_id"@, value: JsonView::Text(v.run_id) })
.push(MemberView { key: "scope"@, value: scope_json(v.scope) })
+ some_member("selection"@, match v.selection { Some(x) => Some(hook_ref_json(x)), None => None }))
.push(MemberView { key: "target"@, value: target_json(v.target) }))
}

/// Encode the application of a hook.
pub fn encode_hook_record(v: &HookApplicationRecord) -> (r: Json)
    ensures
        r@ == hook_record_json(v@),
{
    let members = no_members();
    let members = with_member(members, "context_items", encode_items(&v.context_items));
    let members = with_member(members, "definition_digest", crate::json::text(v.definition_digest.as_str()));
    let members = with_some(members, "failure", match &v.failure { Some(x) => Some(crate::json::text(x.as_str())), None => None });
    let members = with_member(members, "hook", encode_versioned(&v.hook));
    let members = with_member(members, "input", encode_hook_input(&v.input));
    let members = with_some(members, "output", match &v.output { Some(x) => Some(encode_hook_output(x)), None => None });
    let members = with_member(members, "run_id", crate::json::text(v.run_id.as_str()));
    let members = with_member(members, "scope", encode_scope(&v.scope));
    let members = with_some(members, "selection", match &v.selection { Some(x) => Some(encode_hook_ref(x)), None => None });
    let members = with_member(members, "target", encode_target(&v.target));
    crate::json::object(members)
}

/// The digest of a definition.
pub open spec fn definition_digest(definition: HookDefinitionView) -> Seq<char> {
    digest_of(hook_definition_json(definition))
}

/// The digest of an input.
pub open spec fn hook_input_digest(input: HookInputView) -> Seq<char> {
    digest_of(hook_input_json(input))
}

impl HookDefinition {
    /// The digest that names this definition.
    pub fn digest(&self) -> (r: JsonDigest)
        ensures
            r@ == definition_digest(self@),
    {
        canonical_digest(&encode_hook_definition(self))
    }
}

impl HookInput {
    /// The digest that names this input.
    pub fn digest(&self) -> (r: JsonDigest)
        ensures
            r@ == hook_input_digest(self@),
    {
        canonical_digest(&encode_hook_input(self))
    }
}

/// The selection of the hook at a position of a plan.
pub open spec fn selection_at(plan: HookPlanView, i: int) -> Option<HookRefView> {
    if 0 <= i < plan.selections.len() {
        plan.selections[i]
    } else {
        None
    }
}

/// The hook from a position of a plan on that has this identity and selection.
pub open spec fn definition_from(
    plan: HookPlanView,
    hook: VersionedRefView,
    selection: Option<HookRefView>,
    i: int,
) -> Option<HookDefinitionView>
    decreases plan.definitions.len() - i,
{
    if i < 0 || i >= plan.definitions.len() {
        None
    } else if plan.definitions[i].hook == hook && selection_at(plan, i) == selection {
        Some(plan.definitions[i])
    } else {
        definition_from(plan, hook, selection, i + 1)
    }
}

impl HookPlan {
    /// The selection of the hook at a position.
    pub fn selection(&self, i: usize) -> (r: Option<&HookRef>)
        ensures
            r.deep_view() == selection_at(self@, i as int),
    {
        if i < self.selections.len() {
            assert(self@.selections[i as int] == self.selections@[i as int].deep_view());
            match &self.selections[i] {
                Some(selection) => Some(selection),
                None => None,
            }
        } else {
            None
        }
    }

    /// The pinned definition of a hook under its selection.
    pub fn definition_for(&self, hook: &VersionedRef, selection: &Option<HookRef>) -> (r: Option<
        &HookDefinition,
    >)
        ensures
            r.deep_view() == definition_from(self@, hook@, selection.deep_view(), 0),
    {
        let mut i: usize = 0;
        while i < self.definitions.len()
            invariant
                i <= self.definitions.len(),
                definition_from(self@, hook@, selection.deep_view(), 0) == definition_from(
                    self@,
                    hook@,
                    selection.deep_view(),
                    i as int,
                ),
            decreases self.definitions.len() - i,
        {
            assert(self@.definitions[i as int] == self.definitions@[i as int]@);
            let same_selection = match (self.selection(i), selection) {
                (Some(a), Some(b)) => a.same(b),
                (None, None) => true,
                _ => false,
            };
            if self.definitions[i].hook.same(hook) && same_selection {
                return Some(&self.definitions[i]);
            }
            i = i + 1;
        }
        None
    }
}

impl HookTargetView {
    /// The position of a target.
    pub open spec fn position(self) -> HookPosition {
        match self {
            HookTargetView::BeforeRun => HookPosition::BeforeRun,
            HookTargetView::BeforeModel { .. } => HookPosition::BeforeModel,
            HookTargetView::BeforeTool { .. } => HookPosition::BeforeTool,
            HookTargetView::AfterTool { .. } => HookPosition::AfterTool,
            HookTargetView::AfterRun { .. } => HookPosition::AfterRun,
        }
    }
}

impl HookTarget {
    /// The position of this target.
    pub fn position(&self) -> (r: HookPosition)
        ensures
            r == self@.position(),
    {
        match self {
            HookTarget::BeforeRun => HookPosition::BeforeRun,
            HookTarget::BeforeModel { .. } => HookPosition::BeforeModel,
            HookTarget::BeforeTool { .. } => HookPosition::BeforeTool,
            HookTarget::AfterTool { .. } => HookPosition::AfterTool,
            HookTarget::AfterRun { .. } => HookPosition::AfterRun,
        }
    }
}

proof fn lemma_found_from(
    plan: HookPlanView,
    hook: VersionedRefView,
    selection: Option<HookRefView>,
    from: int,
)
    requires
        0 <= from,
    ensures
        definition_from(plan, hook, selection, from) matches Some(definition) ==> exists|i: int|
            from <= i < plan.definitions.len() && #[trigger] plan.definitions[i] == definition
                && definition.hook == hook && selection_at(plan, i) == selection,
        definition_from(plan, hook, selection, from) is None ==> forall|i: int|
            from <= i < plan.definitions.len() ==> !((#[trigger] plan.definitions[i]).hook == hook
                && selection_at(plan, i) == selection),
    decreases plan.definitions.len() - from,
{
    if from < plan.definitions.len() {
        if plan.definitions[from].hook == hook && selection_at(plan, from) == selection {
            assert(plan.definitions[from] == plan.definitions[from]);
        } else {
            lemma_found_from(plan, hook, selection, from + 1);
        }
    }
}

/// A plan finds every hook that it holds, by its identity and its selection, and no other.
pub proof fn law_planned_hooks_are_found(
    plan: HookPlanView,
    hook: VersionedRefView,
    selection: Option<HookRefView>,
)
    ensures
        definition_from(plan, hook, selection, 0) is Some <==> exists|i: int|
            0 <= i < plan.definitions.len() && (#[trigger] plan.definitions[i]).hook == hook
                && selection_at(plan, i) == selection,
        definition_from(plan, hook, selection, 0) matches Some(definition) ==> definition.hook
            == hook && plan.definitions.contains(definition),
{
    lemma_found_from(plan, hook, selection, 0);
}

/// A hook stands where its target says: before or after a run, a model step or a tool call.
pub proof fn law_targets_stand_at_their_position(target: HookTargetView)
    ensures
        target.position() == HookPosition::BeforeRun <==> target is BeforeRun,
        target.position() == HookPosition::BeforeModel <==> target is BeforeModel,
        target.position() == HookPosition::BeforeTool <==> target is BeforeTool,
        target.position() == HookPosition::AfterTool <==> target is AfterTool,
        target.position() == HookPosition::AfterRun <==> target is AfterRun,
{
}

} // verus!
