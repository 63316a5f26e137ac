//! Skills: what a run may load, and what a load leaves in its context.
use vstd::prelude::*;

use crate::content::ArtifactRef;
#[allow(unused_imports)]
use crate::content::ArtifactRefView;
use crate::context::ContextItem;
#[allow(unused_imports)]
use crate::context::ContextItemView;
use crate::data::Data;
use crate::error::ContractError;
#[allow(unused_imports)]
use crate::error::Fault;
use crate::json::Json;
#[allow(unused_imports)]
use crate::json::JsonView;
use crate::profile::{SkillRef, ToolBindingRef};
#[allow(unused_imports)]
use crate::profile::{SkillRefView, ToolBindingRefView};
use crate::refs::{Scope, VersionedRef};
#[allow(unused_imports)]
use crate::refs::{ScopeView, VersionedRefView};
use crate::resolution::ComponentMetadata;
#[allow(unused_imports)]
use crate::resolution::ComponentMetadataView;
use crate::serialization::{Id, JsonDigest};

pub mod records;
pub mod runtime;

verus! {

/// Sizes and times that loads are held to.
#[derive(Debug)]
pub struct SkillLimits {
    pub max_body_bytes: u64,
    pub max_total_body_bytes: u64,
    pub timeout_ms: u64,
    /// What structural validation of the limits reported.
    pub defect: Option<ContractError>,
}

#[verifier::ext_equal]
pub struct SkillLimitsView {
    pub max_body_bytes: u64,
    pub max_total_body_bytes: u64,
    pub timeout_ms: u64,
    pub defect: Option<Fault>,
}

impl View for SkillLimits {
    type V = SkillLimitsView;

    open spec fn view(&self) -> SkillLimitsView {
        SkillLimitsView {
            max_body_bytes: self.max_body_bytes.deep_view(),
            max_total_body_bytes: self.max_total_body_bytes.deep_view(),
            timeout_ms: self.timeout_ms.deep_view(),
            defect: self.defect.deep_view(),
        }
    }
}

impl DeepView for SkillLimits {
    type V = SkillLimitsView;

    open spec fn deep_view(&self) -> SkillLimitsView {
        self@
    }
}

impl Data for SkillLimits {
    fn same(&self, other: &Self) -> (r: bool) {
        self.max_body_bytes.same(&other.max_body_bytes)
            && self.max_total_body_bytes.same(&other.max_total_body_bytes)
            && self.timeout_ms.same(&other.timeout_ms)
            && self.defect.same(&other.defect)
    }

    fn copy(&self) -> (r: Self) {
        SkillLimits {
            max_body_bytes: self.max_body_bytes.copy(),
            max_total_body_bytes: self.max_total_body_bytes.copy(),
            timeout_ms: self.timeout_ms.copy(),
            defect: self.defect.copy(),
        }
    }
}

/// A registered skill.
#[derive(Debug)]
pub struct SkillDefinition {
    pub skill: VersionedRef,
    pub body_bytes: u64,
    pub assets: Vec<ArtifactRef>,
    pub required_tool_capabilities: Vec<Id>,
    /// Canonical digest of the encoded definition.
    pub digest: JsonDigest,
    /// The component metadata of the skill.
    pub metadata: ComponentMetadata,
    /// What validating the definition against its scope and limits reported.
    pub defect: Option<ContractError>,
}

#[verifier::ext_equal]
pub struct SkillDefinitionView {
    pub skill: VersionedRefView,
    pub body_bytes: u64,
    pub assets: Seq<ArtifactRefView>,
    pub required_tool_capabilities: Seq<Seq<char>>,
    pub digest: Seq<char>,
    pub metadata: ComponentMetadataView,
    pub defect: Option<Fault>,
}

impl View for SkillDefinition {
    type V = SkillDefinitionView;

    open spec fn view(&self) -> SkillDefinitionView {
        SkillDefinitionView {
            skill: self.skill.deep_view(),
            body_bytes: self.body_bytes.deep_view(),
            assets: self.assets.deep_view(),
            required_tool_capabilities: self.required_tool_capabilities.deep_view(),
            digest: self.digest.deep_view(),
            metadata: self.metadata.deep_view(),
            defect: self.defect.deep_view(),
        }
    }
}

impl DeepView for SkillDefinition {
    type V = SkillDefinitionView;

    open spec fn deep_view(&self) -> SkillDefinitionView {
        self@
    }
}

impl Data for SkillDefinition {
    fn same(&self, other: &Self) -> (r: bool) {
        self.skill.same(&other.skill)
            && self.body_bytes.same(&other.body_bytes)
            && self.assets.same(&other.assets)
            && self.required_tool_capabilities.same(&other.required_tool_capabilities)
            && self.digest.same(&other.digest)
            && self.metadata.same(&other.metadata)
            && self.defect.same(&other.defect)
    }

    fn copy(&self) -> (r: Self) {
        SkillDefinition {
            skill: self.skill.copy(),
            body_bytes: self.body_bytes.copy(),
            assets: self.assets.copy(),
            required_tool_capabilities: self.required_tool_capabilities.copy(),
            digest: self.digest.copy(),
            metadata: self.metadata.copy(),
            defect: self.defect.copy(),
        }
    }
}

/// A selected skill with its definition.
#[derive(Debug)]
pub struct PlannedSkill {
    pub selection: SkillRef,
    pub definition: SkillDefinition,
    pub metadata: ComponentMetadata,
}

#[verifier::ext_equal]
pub struct PlannedSkillView {
    pub selection: SkillRefView,
    pub definition: SkillDefinitionView,
    pub metadata: ComponentMetadataView,
}

impl View for PlannedSkill {
    type V = PlannedSkillView;

    open spec fn view(&self) -> PlannedSkillView {
        PlannedSkillView {
            selection: self.selection.deep_view(),
            definition: self.definition.deep_view(),
            metadata: self.metadata.deep_view(),
        }
    }
}

impl DeepView for PlannedSkill {
    type V = PlannedSkillView;

    open spec fn deep_view(&self) -> PlannedSkillView {
        self@
    }
}

impl Data for PlannedSkill {
    fn same(&self, other: &Self) -> (r: bool) {
        self.selection.same(&other.selection)
            && self.definition.same(&other.definition)
            && self.metadata.same(&other.metadata)
    }

    fn copy(&self) -> (r: Self) {
        PlannedSkill {
            selection: self.selection.copy(),
            definition: self.definition.copy(),
            metadata: self.metadata.copy(),
        }
    }
}

/// Pinned skills of a run.
#[derive(Debug)]
pub struct SkillPlan {
    pub schema_version: String,
    pub scope: Scope,
    pub skills: Vec<PlannedSkill>,
    pub loader: ToolBindingRef,
    pub loader_descriptor_digest: JsonDigest,
    /// Capabilities of the selected tools, each once.
    pub tool_capabilities: Vec<Id>,
    pub tool_metadata: Vec<ComponentMetadata>,
    pub limits: SkillLimits,
    /// What restoring the plan against its profile reported.
    pub defect: Option<ContractError>,
}

#[verifier::ext_equal]
pub struct SkillPlanView {
    pub schema_version: Seq<char>,
    pub scope: ScopeView,
    pub skills: Seq<PlannedSkillView>,
    pub loader: ToolBindingRefView,
    pub loader_descriptor_digest: Seq<char>,
    pub tool_capabilities: Seq<Seq<char>>,
    pub tool_metadata: Seq<ComponentMetadataView>,
    pub limits: SkillLimitsView,
    pub defect: Option<Fault>,
}

impl View for SkillPlan {
    type V = SkillPlanView;

    open spec fn view(&self) -> SkillPlanView {
        SkillPlanView {
            schema_version: self.schema_version.deep_view(),
            scope: self.scope.deep_view(),
            skills: self.skills.deep_view(),
            loader: self.loader.deep_view(),
            loader_descriptor_digest: self.loader_descriptor_digest.deep_view(),
            tool_capabilities: self.tool_capabilities.deep_view(),
            tool_metadata: self.tool_metadata.deep_view(),
            limits: self.limits.deep_view(),
            defect: self.defect.deep_view(),
        }
    }
}

impl DeepView for SkillPlan {
    type V = SkillPlanView;

    open spec fn deep_view(&self) -> SkillPlanView {
        self@
    }
}

impl Data for SkillPlan {
    fn same(&self, other: &Self) -> (r: bool) {
        self.schema_version.same(&other.schema_version)
            && self.scope.same(&other.scope)
            && self.skills.same(&other.skills)
            && self.loader.same(&other.loader)
            && self.loader_descriptor_digest.same(&other.loader_descriptor_digest)
            && self.tool_capabilities.same(&other.tool_capabilities)
            && self.tool_metadata.same(&other.tool_metadata)
            && self.limits.same(&other.limits)
            && self.defect.same(&other.defect)
    }

    fn copy(&self) -> (r: Self) {
        SkillPlan {
            schema_version: self.schema_version.copy(),
            scope: self.scope.copy(),
            skills: self.skills.copy(),
            loader: self.loader.copy(),
            loader_descriptor_digest: self.loader_descriptor_digest.copy(),
            tool_capabilities: self.tool_capabilities.copy(),
            tool_metadata: self.tool_metadata.copy(),
            limits: self.limits.copy(),
            defect: self.defect.copy(),
        }
    }
}

/// The protected record of one skill load.
#[derive(Debug)]
pub struct LoadedSkill {
    pub schema_version: String,
    pub scope: Scope,
    pub run_id: Id,
    pub call_id: Id,
    pub selection: SkillRef,
    pub definition_digest: JsonDigest,
    pub body: String,
    pub assets: Vec<ArtifactRef>,
    /// What the load reports to the model.
    pub summary: Json,
    /// The instructions as a context item.
    pub context_item: ContextItem,
    /// What building the context item reported.
    pub item_defect: Option<ContractError>,
    /// What validating the load against its plan and call reported.
    pub defect: Option<ContractError>,
}

#[verifier::ext_equal]
pub struct LoadedSkillView {
    pub schema_version: Seq<char>,
    pub scope: ScopeView,
    pub run_id: Seq<char>,
    pub call_id: Seq<char>,
    pub selection: SkillRefView,
    pub definition_digest: Seq<char>,
    pub body: Seq<char>,
    pub assets: Seq<ArtifactRefView>,
    pub summary: JsonView,
    pub context_item: ContextItemView,
    pub item_defect: Option<Fault>,
    pub defect: Option<Fault>,
}

impl View for LoadedSkill {
    type V = LoadedSkillView;

    open spec fn view(&self) -> LoadedSkillView {
        LoadedSkillView {
            schema_version: self.schema_version.deep_view(),
            scope: self.scope.deep_view(),
            run_id: self.run_id.deep_view(),
            call_id: self.call_id.deep_view(),
            selection: self.selection.deep_view(),
            definition_digest: self.definition_digest.deep_view(),
            body: self.body.deep_view(),
            assets: self.assets.deep_view(),
            summary: self.summary.deep_view(),
            context_item: self.context_item.deep_view(),
            item_defect: self.item_defect.deep_view(),
            defect: self.defect.deep_view(),
        }
    }
}

impl DeepView for LoadedSkill {
    type V = LoadedSkillView;

    open spec fn deep_view(&self) -> LoadedSkillView {
        self@
    }
}

impl Data for LoadedSkill {
    fn same(&self, other: &Self) -> (r: bool) {
        self.schema_version.same(&other.schema_version)
            && self.scope.same(&other.scope)
            && self.run_id.same(&other.run_id)
            && self.call_id.same(&other.call_id)
            && self.selection.same(&other.selection)
            && self.definition_digest.same(&other.definition_digest)
            && self.body.same(&other.body)
            && self.assets.same(&other.assets)
            && self.summary.same(&other.summary)
            && self.context_item.same(&other.context_item)
            && self.item_defect.same(&other.item_defect)
            && self.defect.same(&other.defect)
    }

    fn copy(&self) -> (r: Self) {
        LoadedSkill {
            schema_version: self.schema_version.copy(),
            scope: self.scope.copy(),
            run_id: self.run_id.copy(),
            call_id: self.call_id.copy(),
            selection: self.selection.copy(),
            definition_digest: self.definition_digest.copy(),
            body: self.body.copy(),
            assets: self.assets.copy(),
            summary: self.summary.copy(),
            context_item: self.context_item.copy(),
            item_defect: self.item_defect.copy(),
            defect: self.defect.copy(),
        }
    }
}

/// Whether a tool changes anything outside.
#[derive(Debug, Clone, Copy, PartialEq, Eq, Structural)]
pub enum ToolSideEffect {
    ReadOnly,
    Write,
}

impl View for ToolSideEffect {
    type V = ToolSideEffect;

    open spec fn view(&self) -> ToolSideEffect {
        *self
    }
}

impl DeepView for ToolSideEffect {
    type V = ToolSideEffect;

    open spec fn deep_view(&self) -> ToolSideEffect {
        *self
    }
}

impl Data for ToolSideEffect {
    fn same(&self, other: &Self) -> (r: bool) {
        *self == *other
    }

    fn copy(&self) -> (r: Self) {
        *self
    }
}

/// Whether calls of a tool may overlap.
#[derive(Debug, Clone, Copy, PartialEq, Eq, Structural)]
pub enum ToolConcurrency {
    Serial,
    Parallel,
}

impl View for ToolConcurrency {
    type V = ToolConcurrency;

    open spec fn view(&self) -> ToolConcurrency {
        *self
    }
}

impl DeepView for ToolConcurrency {
    type V = ToolConcurrency;

    open spec fn deep_view(&self) -> ToolConcurrency {
        *self
    }
}

impl Data for ToolConcurrency {
    fn same(&self, other: &Self) -> (r: bool) {
        *self == *other
    }

    fn copy(&self) -> (r: Self) {
        *self
    }
}

/// Whether a failed call may be tried again.
#[derive(Debug, Clone, Copy, PartialEq, Eq, Structural)]
pub enum ToolRetryPolicy {
    Never,
    Idempotent,
}

impl View for ToolRetryPolicy {
    type V = ToolRetryPolicy;

    open spec fn view(&self) -> ToolRetryPolicy {
        *self
    }
}

impl DeepView for ToolRetryPolicy {
    type V = ToolRetryPolicy;

    open spec fn deep_view(&self) -> ToolRetryPolicy {
        *self
    }
}

impl Data for ToolRetryPolicy {
    fn same(&self, other: &Self) -> (r: bool) {
        *self == *other
    }

    fn copy(&self) -> (r: Self) {
        *self
    }
}

/// What a tool is, as it is registered.
#[derive(Debug)]
pub struct ToolDescriptor {
    pub tool: VersionedRef,
    pub name: Id,
    pub description: String,
    pub input_schema: Json,
    pub agent_parameters: Vec<String>,
    pub output_schema: Json,
    pub side_effect: ToolSideEffect,
    pub concurrency: ToolConcurrency,
    pub retry: ToolRetryPolicy,
    pub reconcile: bool,
    pub max_output_bytes: u64,
}

#[verifier::ext_equal]
pub struct ToolDescriptorView {
    pub tool: VersionedRefView,
    pub name: Seq<char>,
    pub description: Seq<char>,
    pub input_schema: JsonView,
    pub agent_parameters: Seq<Seq<char>>,
    pub output_schema: JsonView,
    pub side_effect: ToolSideEffect,
    pub concurrency: ToolConcurrency,
    pub retry: ToolRetryPolicy,
    pub reconcile: bool,
    pub max_output_bytes: u64,
}

impl View for ToolDescriptor {
    type V = ToolDescriptorView;

    open spec fn view(&self) -> ToolDescriptorView {
        ToolDescriptorView {
            tool: self.tool.deep_view(),
            name: self.name.deep_view(),
            description: self.description.deep_view(),
            input_schema: self.input_schema.deep_view(),
            agent_parameters: self.agent_parameters.deep_view(),
            output_schema: self.output_schema.deep_view(),
            side_effect: self.side_effect.deep_view(),
            concurrency: self.concurrency.deep_view(),
            retry: self.retry.deep_view(),
            reconcile: self.reconcile.deep_view(),
            max_output_bytes: self.max_output_bytes.deep_view(),
        }
    }
}

impl DeepView for ToolDescriptor {
    type V = ToolDescriptorView;

    open spec fn deep_view(&self) -> ToolDescriptorView {
        self@
    }
}

impl Data for ToolDescriptor {
    fn same(&self, other: &Self) -> (r: bool) {
        self.tool.same(&other.tool)
            && self.name.same(&other.name)
            && self.description.same(&other.description)
            && self.input_schema.same(&other.input_schema)
            && self.agent_parameters.same(&other.agent_parameters)
            && self.output_schema.same(&other.output_schema)
            && self.side_effect.same(&other.side_effect)
            && self.concurrency.same(&other.concurrency)
            && self.retry.same(&other.retry)
            && self.reconcile.same(&other.reconcile)
            && self.max_output_bytes.same(&other.max_output_bytes)
    }

    fn copy(&self) -> (r: Self) {
        ToolDescriptor {
            tool: self.tool.copy(),
            name: self.name.copy(),
            description: self.description.copy(),
            input_schema: self.input_schema.copy(),
            agent_parameters: self.agent_parameters.copy(),
            output_schema: self.output_schema.copy(),
            side_effect: self.side_effect.copy(),
            concurrency: self.concurrency.copy(),
            retry: self.retry.copy(),
            reconcile: self.reconcile.copy(),
            max_output_bytes: self.max_output_bytes.copy(),
        }
    }
}


} // verus!
