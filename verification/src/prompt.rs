//! Session-pinned prompts, assemblies and the tools that they advertise.
use vstd::prelude::*;

use crate::data::Data;
use crate::json::Json;
#[allow(unused_imports)]
use crate::json::JsonView;
use crate::model::ModelTool;
#[allow(unused_imports)]
use crate::model::ModelToolView;
use crate::profile::ToolBindingRef;
#[allow(unused_imports)]
use crate::profile::ToolBindingRefView;
use crate::refs::{RecordRef, VersionedRef};
#[allow(unused_imports)]
use crate::refs::{RecordRefView, VersionedRefView};
use crate::serialization::{Id, JsonDigest};

verus! {

/// A tool as a session pinned it.
#[derive(Debug)]
pub struct PinnedPromptTool {
    pub selection: ToolBindingRef,
    pub tool: VersionedRef,
    pub compiled_digest: JsonDigest,
    pub descriptor_digest: JsonDigest,
    pub model_schema_digest: JsonDigest,
    pub compiler_version: Id,
    pub model_tool: ModelTool,
}

#[verifier::ext_equal]
pub struct PinnedPromptToolView {
    pub selection: ToolBindingRefView,
    pub tool: VersionedRefView,
    pub compiled_digest: Seq<char>,
    pub descriptor_digest: Seq<char>,
    pub model_schema_digest: Seq<char>,
    pub compiler_version: Seq<char>,
    pub model_tool: ModelToolView,
}

impl View for PinnedPromptTool {
    type V = PinnedPromptToolView;

    open spec fn view(&self) -> PinnedPromptToolView {
        PinnedPromptToolView {
            selection: self.selection.deep_view(),
            tool: self.tool.deep_view(),
            compiled_digest: self.compiled_digest.deep_view(),
            descriptor_digest: self.descriptor_digest.deep_view(),
            model_schema_digest: self.model_schema_digest.deep_view(),
            compiler_version: self.compiler_version.deep_view(),
            model_tool: self.model_tool.deep_view(),
        }
    }
}

impl DeepView for PinnedPromptTool {
    type V = PinnedPromptToolView;

    open spec fn deep_view(&self) -> PinnedPromptToolView {
        self@
    }
}

impl Data for PinnedPromptTool {
    fn same(&self, other: &Self) -> (r: bool) {
        self.selection.same(&other.selection)
            && self.tool.same(&other.tool)
            && self.compiled_digest.same(&other.compiled_digest)
            && self.descriptor_digest.same(&other.descriptor_digest)
            && self.model_schema_digest.same(&other.model_schema_digest)
            && self.compiler_version.same(&other.compiler_version)
            && self.model_tool.same(&other.model_tool)
    }

    fn copy(&self) -> (r: Self) {
        PinnedPromptTool {
            selection: self.selection.copy(),
            tool: self.tool.copy(),
            compiled_digest: self.compiled_digest.copy(),
            descriptor_digest: self.descriptor_digest.copy(),
            model_schema_digest: self.model_schema_digest.copy(),
            compiler_version: self.compiler_version.copy(),
            model_tool: self.model_tool.copy(),
        }
    }
}

/// A selected tool with the contract that it was compiled to.
#[derive(Debug)]
pub struct PromptToolBinding {
    pub selection: ToolBindingRef,
    pub compiled_digest: JsonDigest,
}

#[verifier::ext_equal]
pub struct PromptToolBindingView {
    pub selection: ToolBindingRefView,
    pub compiled_digest: Seq<char>,
}

impl View for PromptToolBinding {
    type V = PromptToolBindingView;

    open spec fn view(&self) -> PromptToolBindingView {
        PromptToolBindingView {
            selection: self.selection.deep_view(),
            compiled_digest: self.compiled_digest.deep_view(),
        }
    }
}

impl DeepView for PromptToolBinding {
    type V = PromptToolBindingView;

    open spec fn deep_view(&self) -> PromptToolBindingView {
        self@
    }
}

impl Data for PromptToolBinding {
    fn same(&self, other: &Self) -> (r: bool) {
        self.selection.same(&other.selection)
            && self.compiled_digest.same(&other.compiled_digest)
    }

    fn copy(&self) -> (r: Self) {
        PromptToolBinding {
            selection: self.selection.copy(),
            compiled_digest: self.compiled_digest.copy(),
        }
    }
}

/// A session-pinned prompt.
#[derive(Debug)]
pub struct PromptSnapshot {
    pub tools: Vec<PinnedPromptTool>,
}

#[verifier::ext_equal]
pub struct PromptSnapshotView {
    pub tools: Seq<PinnedPromptToolView>,
}

impl View for PromptSnapshot {
    type V = PromptSnapshotView;

    open spec fn view(&self) -> PromptSnapshotView {
        PromptSnapshotView {
            tools: self.tools.deep_view(),
        }
    }
}

impl DeepView for PromptSnapshot {
    type V = PromptSnapshotView;

    open spec fn deep_view(&self) -> PromptSnapshotView {
        self@
    }
}

impl Data for PromptSnapshot {
    fn same(&self, other: &Self) -> (r: bool) {
        self.tools.same(&other.tools)
    }

    fn copy(&self) -> (r: Self) {
        PromptSnapshot {
            tools: self.tools.copy(),
        }
    }
}

/// A bound tool of an assembly.
#[derive(Debug)]
pub struct AssemblyTool {
    pub selection: ToolBindingRef,
    pub compiled_digest: JsonDigest,
    pub model_tool: ModelTool,
}

#[verifier::ext_equal]
pub struct AssemblyToolView {
    pub selection: ToolBindingRefView,
    pub compiled_digest: Seq<char>,
    pub model_tool: ModelToolView,
}

impl View for AssemblyTool {
    type V = AssemblyToolView;

    open spec fn view(&self) -> AssemblyToolView {
        AssemblyToolView {
            selection: self.selection.deep_view(),
            compiled_digest: self.compiled_digest.deep_view(),
            model_tool: self.model_tool.deep_view(),
        }
    }
}

impl DeepView for AssemblyTool {
    type V = AssemblyToolView;

    open spec fn deep_view(&self) -> AssemblyToolView {
        self@
    }
}

impl Data for AssemblyTool {
    fn same(&self, other: &Self) -> (r: bool) {
        self.selection.same(&other.selection)
            && self.compiled_digest.same(&other.compiled_digest)
            && self.model_tool.same(&other.model_tool)
    }

    fn copy(&self) -> (r: Self) {
        AssemblyTool {
            selection: self.selection.copy(),
            compiled_digest: self.compiled_digest.copy(),
            model_tool: self.model_tool.copy(),
        }
    }
}

/// The components that a run was assembled from.
#[derive(Debug)]
pub struct ResolvedAssembly {
    pub session_id: Id,
    pub tools: Vec<AssemblyTool>,
}

#[verifier::ext_equal]
pub struct ResolvedAssemblyView {
    pub session_id: Seq<char>,
    pub tools: Seq<AssemblyToolView>,
}

impl View for ResolvedAssembly {
    type V = ResolvedAssemblyView;

    open spec fn view(&self) -> ResolvedAssemblyView {
        ResolvedAssemblyView {
            session_id: self.session_id.deep_view(),
            tools: self.tools.deep_view(),
        }
    }
}

impl DeepView for ResolvedAssembly {
    type V = ResolvedAssemblyView;

    open spec fn deep_view(&self) -> ResolvedAssemblyView {
        self@
    }
}

impl Data for ResolvedAssembly {
    fn same(&self, other: &Self) -> (r: bool) {
        self.session_id.same(&other.session_id)
            && self.tools.same(&other.tools)
    }

    fn copy(&self) -> (r: Self) {
        ResolvedAssembly {
            session_id: self.session_id.copy(),
            tools: self.tools.copy(),
        }
    }
}

/// Protected system inputs of a run.
#[derive(Debug)]
pub struct SystemInputsRecord {
    /// The encoded inputs.
    pub document: Json,
}

#[verifier::ext_equal]
pub struct SystemInputsRecordView {
    pub document: JsonView,
}

impl View for SystemInputsRecord {
    type V = SystemInputsRecordView;

    open spec fn view(&self) -> SystemInputsRecordView {
        SystemInputsRecordView {
            document: self.document.deep_view(),
        }
    }
}

impl DeepView for SystemInputsRecord {
    type V = SystemInputsRecordView;

    open spec fn deep_view(&self) -> SystemInputsRecordView {
        self@
    }
}

impl Data for SystemInputsRecord {
    fn same(&self, other: &Self) -> (r: bool) {
        self.document.same(&other.document)
    }

    fn copy(&self) -> (r: Self) {
        SystemInputsRecord {
            document: self.document.copy(),
        }
    }
}

/// Protected inputs that a tool call was bound to.
#[derive(Debug)]
pub struct BoundInput {
    pub binding_digest: JsonDigest,
    /// Whether a transformation reference is present but undecodable.
    pub transformation_malformed: bool,
    pub transformation_ref: Option<RecordRef>,
}

#[verifier::ext_equal]
pub struct BoundInputView {
    pub binding_digest: Seq<char>,
    pub transformation_malformed: bool,
    pub transformation_ref: Option<RecordRefView>,
}

impl View for BoundInput {
    type V = BoundInputView;

    open spec fn view(&self) -> BoundInputView {
        BoundInputView {
            binding_digest: self.binding_digest.deep_view(),
            transformation_malformed: self.transformation_malformed.deep_view(),
            transformation_ref: self.transformation_ref.deep_view(),
        }
    }
}

impl DeepView for BoundInput {
    type V = BoundInputView;

    open spec fn deep_view(&self) -> BoundInputView {
        self@
    }
}

impl Data for BoundInput {
    fn same(&self, other: &Self) -> (r: bool) {
        self.binding_digest.same(&other.binding_digest)
            && self.transformation_malformed.same(&other.transformation_malformed)
            && self.transformation_ref.same(&other.transformation_ref)
    }

    fn copy(&self) -> (r: Self) {
        BoundInput {
            binding_digest: self.binding_digest.copy(),
            transformation_malformed: self.transformation_malformed.copy(),
            transformation_ref: self.transformation_ref.copy(),
        }
    }
}

/// A compiled tool.
#[derive(Debug)]
pub struct CompiledTool {
    pub tool: VersionedRef,
    pub name: Id,
    pub digest: JsonDigest,
    pub descriptor_digest: JsonDigest,
    pub model_schema_digest: JsonDigest,
    pub compiler_version: Id,
    pub model_tool: ModelTool,
    /// The system inputs that the tool is bound to.
    pub bindings: Vec<SystemInputDefinition>,
    /// The encoded tool.
    pub document: Json,
}

#[verifier::ext_equal]
pub struct CompiledToolView {
    pub tool: VersionedRefView,
    pub name: Seq<char>,
    pub digest: Seq<char>,
    pub descriptor_digest: Seq<char>,
    pub model_schema_digest: Seq<char>,
    pub compiler_version: Seq<char>,
    pub model_tool: ModelToolView,
    pub bindings: Seq<SystemInputDefinitionView>,
    pub document: JsonView,
}

impl View for CompiledTool {
    type V = CompiledToolView;

    open spec fn view(&self) -> CompiledToolView {
        CompiledToolView {
            tool: self.tool.deep_view(),
            name: self.name.deep_view(),
            digest: self.digest.deep_view(),
            descriptor_digest: self.descriptor_digest.deep_view(),
            model_schema_digest: self.model_schema_digest.deep_view(),
            compiler_version: self.compiler_version.deep_view(),
            model_tool: self.model_tool.deep_view(),
            bindings: self.bindings.deep_view(),
            document: self.document.deep_view(),
        }
    }
}

impl DeepView for CompiledTool {
    type V = CompiledToolView;

    open spec fn deep_view(&self) -> CompiledToolView {
        self@
    }
}

impl Data for CompiledTool {
    fn same(&self, other: &Self) -> (r: bool) {
        self.tool.same(&other.tool)
            && self.name.same(&other.name)
            && self.digest.same(&other.digest)
            && self.descriptor_digest.same(&other.descriptor_digest)
            && self.model_schema_digest.same(&other.model_schema_digest)
            && self.compiler_version.same(&other.compiler_version)
            && self.model_tool.same(&other.model_tool)
            && self.bindings.same(&other.bindings)
            && self.document.same(&other.document)
    }

    fn copy(&self) -> (r: Self) {
        CompiledTool {
            tool: self.tool.copy(),
            name: self.name.copy(),
            digest: self.digest.copy(),
            descriptor_digest: self.descriptor_digest.copy(),
            model_schema_digest: self.model_schema_digest.copy(),
            compiler_version: self.compiler_version.copy(),
            model_tool: self.model_tool.copy(),
            bindings: self.bindings.copy(),
            document: self.document.copy(),
        }
    }
}

/// A system input that a tool is bound to.
#[derive(Debug)]
pub struct SystemInputDefinition {
    pub key: Id,
    pub document: Json,
}

#[verifier::ext_equal]
pub struct SystemInputDefinitionView {
    pub key: Seq<char>,
    pub document: JsonView,
}

impl View for SystemInputDefinition {
    type V = SystemInputDefinitionView;

    open spec fn view(&self) -> SystemInputDefinitionView {
        SystemInputDefinitionView {
            key: self.key.deep_view(),
            document: self.document.deep_view(),
        }
    }
}

impl DeepView for SystemInputDefinition {
    type V = SystemInputDefinitionView;

    open spec fn deep_view(&self) -> SystemInputDefinitionView {
        self@
    }
}

impl Data for SystemInputDefinition {
    fn same(&self, other: &Self) -> (r: bool) {
        self.key.same(&other.key)
            && self.document.same(&other.document)
    }

    fn copy(&self) -> (r: Self) {
        SystemInputDefinition {
            key: self.key.copy(),
            document: self.document.copy(),
        }
    }
}


} // verus!
