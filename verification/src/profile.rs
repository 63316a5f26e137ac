//! Agent profiles and the component references they hold.
use vstd::prelude::*;

use crate::context::{ContextBinding, ExportRef};
#[allow(unused_imports)]
use crate::context::{ContextBindingView, ExportRefView};
use crate::data::Data;
use crate::error::ContractError;
#[allow(unused_imports)]
use crate::error::Fault;
use crate::hook::HookRef;
#[allow(unused_imports)]
use crate::hook::HookRefView;
use crate::json::{Json, Member};
#[allow(unused_imports)]
use crate::json::{JsonView, MemberView};
use crate::refs::VersionedRef;
#[allow(unused_imports)]
use crate::refs::VersionedRefView;
use crate::serialization::{Id, JsonDigest};

verus! {

/// A named connection of a component.
#[derive(Debug)]
pub struct ConnectionRef {
    pub name: Id,
    pub connection: Id,
}

#[verifier::ext_equal]
pub struct ConnectionRefView {
    pub name: Seq<char>,
    pub connection: Seq<char>,
}

impl View for ConnectionRef {
    type V = ConnectionRefView;

    open spec fn view(&self) -> ConnectionRefView {
        ConnectionRefView {
            name: self.name.deep_view(),
            connection: self.connection.deep_view(),
        }
    }
}

impl DeepView for ConnectionRef {
    type V = ConnectionRefView;

    open spec fn deep_view(&self) -> ConnectionRefView {
        self@
    }
}

impl Data for ConnectionRef {
    fn same(&self, other: &Self) -> (r: bool) {
        self.name.same(&other.name)
            && self.connection.same(&other.connection)
    }

    fn copy(&self) -> (r: Self) {
        ConnectionRef {
            name: self.name.copy(),
            connection: self.connection.copy(),
        }
    }
}

/// A connector of the component catalog.
#[derive(Debug)]
pub struct ConnectorRef {
    pub connector_id: Id,
    pub version: Id,
}

#[verifier::ext_equal]
pub struct ConnectorRefView {
    pub connector_id: Seq<char>,
    pub version: Seq<char>,
}

impl View for ConnectorRef {
    type V = ConnectorRefView;

    open spec fn view(&self) -> ConnectorRefView {
        ConnectorRefView {
            connector_id: self.connector_id.deep_view(),
            version: self.version.deep_view(),
        }
    }
}

impl DeepView for ConnectorRef {
    type V = ConnectorRefView;

    open spec fn deep_view(&self) -> ConnectorRefView {
        self@
    }
}

impl Data for ConnectorRef {
    fn same(&self, other: &Self) -> (r: bool) {
        self.connector_id.same(&other.connector_id)
            && self.version.same(&other.version)
    }

    fn copy(&self) -> (r: Self) {
        ConnectorRef {
            connector_id: self.connector_id.copy(),
            version: self.version.copy(),
        }
    }
}

/// An adapter instance of a profile.
#[derive(Debug)]
pub struct AdapterBinding {
    pub binding_id: Id,
    pub adapter_id: Id,
    pub version: Id,
    pub config: Option<Vec<Member>>,
    pub connections: Vec<ConnectionRef>,
}

#[verifier::ext_equal]
pub struct AdapterBindingView {
    pub binding_id: Seq<char>,
    pub adapter_id: Seq<char>,
    pub version: Seq<char>,
    pub config: Option<Seq<MemberView>>,
    pub connections: Seq<ConnectionRefView>,
}

impl View for AdapterBinding {
    type V = AdapterBindingView;

    open spec fn view(&self) -> AdapterBindingView {
        AdapterBindingView {
            binding_id: self.binding_id.deep_view(),
            adapter_id: self.adapter_id.deep_view(),
            version: self.version.deep_view(),
            config: self.config.deep_view(),
            connections: self.connections.deep_view(),
        }
    }
}

impl DeepView for AdapterBinding {
    type V = AdapterBindingView;

    open spec fn deep_view(&self) -> AdapterBindingView {
        self@
    }
}

impl Data for AdapterBinding {
    fn same(&self, other: &Self) -> (r: bool) {
        self.binding_id.same(&other.binding_id)
            && self.adapter_id.same(&other.adapter_id)
            && self.version.same(&other.version)
            && self.config.same(&other.config)
            && self.connections.same(&other.connections)
    }

    fn copy(&self) -> (r: Self) {
        AdapterBinding {
            binding_id: self.binding_id.copy(),
            adapter_id: self.adapter_id.copy(),
            version: self.version.copy(),
            config: self.config.copy(),
            connections: self.connections.copy(),
        }
    }
}

/// A tool of the component catalog.
#[derive(Debug)]
pub struct CatalogTool {
    pub tool_id: Id,
    pub version: Id,
    pub config: Option<Vec<Member>>,
    pub bindings: Option<Vec<ConnectionRef>>,
}

#[verifier::ext_equal]
pub struct CatalogToolView {
    pub tool_id: Seq<char>,
    pub version: Seq<char>,
    pub config: Option<Seq<MemberView>>,
    pub bindings: Option<Seq<ConnectionRefView>>,
}

impl View for CatalogTool {
    type V = CatalogToolView;

    open spec fn view(&self) -> CatalogToolView {
        CatalogToolView {
            tool_id: self.tool_id.deep_view(),
            version: self.version.deep_view(),
            config: self.config.deep_view(),
            bindings: self.bindings.deep_view(),
        }
    }
}

impl DeepView for CatalogTool {
    type V = CatalogToolView;

    open spec fn deep_view(&self) -> CatalogToolView {
        self@
    }
}

impl Data for CatalogTool {
    fn same(&self, other: &Self) -> (r: bool) {
        self.tool_id.same(&other.tool_id)
            && self.version.same(&other.version)
            && self.config.same(&other.config)
            && self.bindings.same(&other.bindings)
    }

    fn copy(&self) -> (r: Self) {
        CatalogTool {
            tool_id: self.tool_id.copy(),
            version: self.version.copy(),
            config: self.config.copy(),
            bindings: self.bindings.copy(),
        }
    }
}

/// How a profile names a tool.
#[derive(Debug)]
pub enum ToolBindingRef {
    Catalog(CatalogTool),
    Export(ExportRef),
}

#[verifier::ext_equal]
pub enum ToolBindingRefView {
    Catalog(CatalogToolView),
    Export(ExportRefView),
}

impl View for ToolBindingRef {
    type V = ToolBindingRefView;

    open spec fn view(&self) -> ToolBindingRefView {
        match self {
            ToolBindingRef::Catalog(a) => ToolBindingRefView::Catalog(a.deep_view()),
            ToolBindingRef::Export(a) => ToolBindingRefView::Export(a.deep_view()),
        }
    }
}

impl DeepView for ToolBindingRef {
    type V = ToolBindingRefView;

    open spec fn deep_view(&self) -> ToolBindingRefView {
        self@
    }
}

impl Data for ToolBindingRef {
    fn same(&self, other: &Self) -> (r: bool) {
        match (self, other) {
            (ToolBindingRef::Catalog(a1), ToolBindingRef::Catalog(a2)) => a1.same(a2),
            (ToolBindingRef::Export(a1), ToolBindingRef::Export(a2)) => a1.same(a2),
            _ => false,
        }
    }

    fn copy(&self) -> (r: Self) {
        match self {
            ToolBindingRef::Catalog(a) => ToolBindingRef::Catalog(a.copy()),
            ToolBindingRef::Export(a) => ToolBindingRef::Export(a.copy()),
        }
    }
}

/// A selected skill.
#[derive(Debug)]
pub struct SkillRef {
    pub skill_id: Id,
    pub version: Id,
    pub config: Option<Vec<Member>>,
}

#[verifier::ext_equal]
pub struct SkillRefView {
    pub skill_id: Seq<char>,
    pub version: Seq<char>,
    pub config: Option<Seq<MemberView>>,
}

impl View for SkillRef {
    type V = SkillRefView;

    open spec fn view(&self) -> SkillRefView {
        SkillRefView {
            skill_id: self.skill_id.deep_view(),
            version: self.version.deep_view(),
            config: self.config.deep_view(),
        }
    }
}

impl DeepView for SkillRef {
    type V = SkillRefView;

    open spec fn deep_view(&self) -> SkillRefView {
        self@
    }
}

impl Data for SkillRef {
    fn same(&self, other: &Self) -> (r: bool) {
        self.skill_id.same(&other.skill_id)
            && self.version.same(&other.version)
            && self.config.same(&other.config)
    }

    fn copy(&self) -> (r: Self) {
        SkillRef {
            skill_id: self.skill_id.copy(),
            version: self.version.copy(),
            config: self.config.copy(),
        }
    }
}

/// Where instructions come from.
#[derive(Debug)]
pub enum Instructions {
    Inline {
        text: String,
    },
    Asset {
        asset_ref: VersionedRef,
    },
}

#[verifier::ext_equal]
pub enum InstructionsView {
    Inline {
        text: Seq<char>,
    },
    Asset {
        asset_ref: VersionedRefView,
    },
}

impl View for Instructions {
    type V = InstructionsView;

    open spec fn view(&self) -> InstructionsView {
        match self {
            Instructions::Inline { text } => InstructionsView::Inline { text: text.deep_view() },
            Instructions::Asset { asset_ref } => InstructionsView::Asset { asset_ref: asset_ref.deep_view() },
        }
    }
}

impl DeepView for Instructions {
    type V = InstructionsView;

    open spec fn deep_view(&self) -> InstructionsView {
        self@
    }
}

impl Data for Instructions {
    fn same(&self, other: &Self) -> (r: bool) {
        match (self, other) {
            (Instructions::Inline { text: text1 }, Instructions::Inline { text: text2 }) => text1.same(text2),
            (Instructions::Asset { asset_ref: asset_ref1 }, Instructions::Asset { asset_ref: asset_ref2 }) => asset_ref1.same(asset_ref2),
            _ => false,
        }
    }

    fn copy(&self) -> (r: Self) {
        match self {
            Instructions::Inline { text } => Instructions::Inline { text: text.copy() },
            Instructions::Asset { asset_ref } => Instructions::Asset { asset_ref: asset_ref.copy() },
        }
    }
}

/// When an answer counts as complete.
#[derive(Debug)]
pub enum CompletionPolicy {
    Direct,
    Verified {
        verifier_ref: VersionedRef,
    },
}

#[verifier::ext_equal]
pub enum CompletionPolicyView {
    Direct,
    Verified {
        verifier_ref: VersionedRefView,
    },
}

impl View for CompletionPolicy {
    type V = CompletionPolicyView;

    open spec fn view(&self) -> CompletionPolicyView {
        match self {
            CompletionPolicy::Direct => CompletionPolicyView::Direct,
            CompletionPolicy::Verified { verifier_ref } => CompletionPolicyView::Verified { verifier_ref: verifier_ref.deep_view() },
        }
    }
}

impl DeepView for CompletionPolicy {
    type V = CompletionPolicyView;

    open spec fn deep_view(&self) -> CompletionPolicyView {
        self@
    }
}

impl Data for CompletionPolicy {
    fn same(&self, other: &Self) -> (r: bool) {
        match (self, other) {
            (CompletionPolicy::Direct, CompletionPolicy::Direct) => true,
            (CompletionPolicy::Verified { verifier_ref: verifier_ref1 }, CompletionPolicy::Verified { verifier_ref: verifier_ref2 }) => verifier_ref1.same(verifier_ref2),
            _ => false,
        }
    }

    fn copy(&self) -> (r: Self) {
        match self {
            CompletionPolicy::Direct => CompletionPolicy::Direct,
            CompletionPolicy::Verified { verifier_ref } => CompletionPolicy::Verified { verifier_ref: verifier_ref.copy() },
        }
    }
}

/// The form of an answer.
#[derive(Debug)]
pub enum OutputContract {
    Text,
    JsonSchema {
        schema_ref: VersionedRef,
    },
}

#[verifier::ext_equal]
pub enum OutputContractView {
    Text,
    JsonSchema {
        schema_ref: VersionedRefView,
    },
}

impl View for OutputContract {
    type V = OutputContractView;

    open spec fn view(&self) -> OutputContractView {
        match self {
            OutputContract::Text => OutputContractView::Text,
            OutputContract::JsonSchema { schema_ref } => OutputContractView::JsonSchema { schema_ref: schema_ref.deep_view() },
        }
    }
}

impl DeepView for OutputContract {
    type V = OutputContractView;

    open spec fn deep_view(&self) -> OutputContractView {
        self@
    }
}

impl Data for OutputContract {
    fn same(&self, other: &Self) -> (r: bool) {
        match (self, other) {
            (OutputContract::Text, OutputContract::Text) => true,
            (OutputContract::JsonSchema { schema_ref: schema_ref1 }, OutputContract::JsonSchema { schema_ref: schema_ref2 }) => schema_ref1.same(schema_ref2),
            _ => false,
        }
    }

    fn copy(&self) -> (r: Self) {
        match self {
            OutputContract::Text => OutputContract::Text,
            OutputContract::JsonSchema { schema_ref } => OutputContract::JsonSchema { schema_ref: schema_ref.copy() },
        }
    }
}

/// How context is kept within its budget.
#[derive(Debug)]
pub struct ContextPolicy {
    pub strategy: Id,
    pub version: Option<Id>,
    pub config: Option<Vec<Member>>,
}

#[verifier::ext_equal]
pub struct ContextPolicyView {
    pub strategy: Seq<char>,
    pub version: Option<Seq<char>>,
    pub config: Option<Seq<MemberView>>,
}

impl View for ContextPolicy {
    type V = ContextPolicyView;

    open spec fn view(&self) -> ContextPolicyView {
        ContextPolicyView {
            strategy: self.strategy.deep_view(),
            version: self.version.deep_view(),
            config: self.config.deep_view(),
        }
    }
}

impl DeepView for ContextPolicy {
    type V = ContextPolicyView;

    open spec fn deep_view(&self) -> ContextPolicyView {
        self@
    }
}

impl Data for ContextPolicy {
    fn same(&self, other: &Self) -> (r: bool) {
        self.strategy.same(&other.strategy)
            && self.version.same(&other.version)
            && self.config.same(&other.config)
    }

    fn copy(&self) -> (r: Self) {
        ContextPolicy {
            strategy: self.strategy.copy(),
            version: self.version.copy(),
            config: self.config.copy(),
        }
    }
}

/// Limits of a profile.
#[derive(Debug)]
pub struct ProfileLimits {
    pub max_output_tokens: Option<u64>,
}

#[verifier::ext_equal]
pub struct ProfileLimitsView {
    pub max_output_tokens: Option<u64>,
}

impl View for ProfileLimits {
    type V = ProfileLimitsView;

    open spec fn view(&self) -> ProfileLimitsView {
        ProfileLimitsView {
            max_output_tokens: self.max_output_tokens.deep_view(),
        }
    }
}

impl DeepView for ProfileLimits {
    type V = ProfileLimitsView;

    open spec fn deep_view(&self) -> ProfileLimitsView {
        self@
    }
}

impl Data for ProfileLimits {
    fn same(&self, other: &Self) -> (r: bool) {
        self.max_output_tokens.same(&other.max_output_tokens)
    }

    fn copy(&self) -> (r: Self) {
        ProfileLimits {
            max_output_tokens: self.max_output_tokens.copy(),
        }
    }
}

/// Extension data of one namespace.
#[derive(Debug)]
pub struct ExtensionData {
    pub namespace: Id,
    pub value: Json,
}

#[verifier::ext_equal]
pub struct ExtensionDataView {
    pub namespace: Seq<char>,
    pub value: JsonView,
}

impl View for ExtensionData {
    type V = ExtensionDataView;

    open spec fn view(&self) -> ExtensionDataView {
        ExtensionDataView {
            namespace: self.namespace.deep_view(),
            value: self.value.deep_view(),
        }
    }
}

impl DeepView for ExtensionData {
    type V = ExtensionDataView;

    open spec fn deep_view(&self) -> ExtensionDataView {
        self@
    }
}

impl Data for ExtensionData {
    fn same(&self, other: &Self) -> (r: bool) {
        self.namespace.same(&other.namespace)
            && self.value.same(&other.value)
    }

    fn copy(&self) -> (r: Self) {
        ExtensionData {
            namespace: self.namespace.copy(),
            value: self.value.copy(),
        }
    }
}

/// A versioned agent definition.
#[derive(Debug)]
pub struct AgentProfile {
    pub agent_id: Id,
    pub version: Id,
    pub model_binding: Id,
    pub model_options: Vec<Member>,
    pub limits: ProfileLimits,
    pub connectors: Vec<ConnectorRef>,
    pub adapters: Option<Vec<AdapterBinding>>,
    pub tools: Vec<ToolBindingRef>,
    pub skills: Vec<SkillRef>,
    pub context_sources: Option<Vec<ContextBinding>>,
    pub hooks: Option<Vec<HookRef>>,
    pub instructions: Instructions,
    pub completion_policy: CompletionPolicy,
    pub output_contract: OutputContract,
    pub context_policy: ContextPolicy,
    pub extensions: Option<Vec<ExtensionData>>,
    /// Canonical digest of the encoded profile.
    pub digest: JsonDigest,
    /// What structural validation reported when the profile was decoded.
    pub defect: Option<ContractError>,
}

#[verifier::ext_equal]
pub struct AgentProfileView {
    pub agent_id: Seq<char>,
    pub version: Seq<char>,
    pub model_binding: Seq<char>,
    pub model_options: Seq<MemberView>,
    pub limits: ProfileLimitsView,
    pub connectors: Seq<ConnectorRefView>,
    pub adapters: Option<Seq<AdapterBindingView>>,
    pub tools: Seq<ToolBindingRefView>,
    pub skills: Seq<SkillRefView>,
    pub context_sources: Option<Seq<ContextBindingView>>,
    pub hooks: Option<Seq<HookRefView>>,
    pub instructions: InstructionsView,
    pub completion_policy: CompletionPolicyView,
    pub output_contract: OutputContractView,
    pub context_policy: ContextPolicyView,
    pub extensions: Option<Seq<ExtensionDataView>>,
    pub digest: Seq<char>,
    pub defect: Option<Fault>,
}

impl View for AgentProfile {
    type V = AgentProfileView;

    open spec fn view(&self) -> AgentProfileView {
        AgentProfileView {
            agent_id: self.agent_id.deep_view(),
            version: self.version.deep_view(),
            model_binding: self.model_binding.deep_view(),
            model_options: self.model_options.deep_view(),
            limits: self.limits.deep_view(),
            connectors: self.connectors.deep_view(),
            adapters: self.adapters.deep_view(),
            tools: self.tools.deep_view(),
            skills: self.skills.deep_view(),
            context_sources: self.context_sources.deep_view(),
            hooks: self.hooks.deep_view(),
            instructions: self.instructions.deep_view(),
            completion_policy: self.completion_policy.deep_view(),
            output_contract: self.output_contract.deep_view(),
            context_policy: self.context_policy.deep_view(),
            extensions: self.extensions.deep_view(),
            digest: self.digest.deep_view(),
            defect: self.defect.deep_view(),
        }
    }
}

impl DeepView for AgentProfile {
    type V = AgentProfileView;

    open spec fn deep_view(&self) -> AgentProfileView {
        self@
    }
}

impl Data for AgentProfile {
    fn same(&self, other: &Self) -> (r: bool) {
        self.agent_id.same(&other.agent_id)
            && self.version.same(&other.version)
            && self.model_binding.same(&other.model_binding)
            && self.model_options.same(&other.model_options)
            && self.limits.same(&other.limits)
            && self.connectors.same(&other.connectors)
            && self.adapters.same(&other.adapters)
            && self.tools.same(&other.tools)
            && self.skills.same(&other.skills)
            && self.context_sources.same(&other.context_sources)
            && self.hooks.same(&other.hooks)
            && self.instructions.same(&other.instructions)
            && self.completion_policy.same(&other.completion_policy)
            && self.output_contract.same(&other.output_contract)
            && self.context_policy.same(&other.context_policy)
            && self.extensions.same(&other.extensions)
            && self.digest.same(&other.digest)
            && self.defect.same(&other.defect)
    }

    fn copy(&self) -> (r: Self) {
        AgentProfile {
            agent_id: self.agent_id.copy(),
            version: self.version.copy(),
            model_binding: self.model_binding.copy(),
            model_options: self.model_options.copy(),
            limits: self.limits.copy(),
            connectors: self.connectors.copy(),
            adapters: self.adapters.copy(),
            tools: self.tools.copy(),
            skills: self.skills.copy(),
            context_sources: self.context_sources.copy(),
            hooks: self.hooks.copy(),
            instructions: self.instructions.copy(),
            completion_policy: self.completion_policy.copy(),
            output_contract: self.output_contract.copy(),
            context_policy: self.context_policy.copy(),
            extensions: self.extensions.copy(),
            digest: self.digest.copy(),
            defect: self.defect.copy(),
        }
    }
}


} // verus!
