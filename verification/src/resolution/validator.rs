//! Validation of a profile against the metadata of its components.
use vstd::prelude::*;

use crate::context::{ContextBinding, ContextSourceRef, ContextTrigger, ExportRef};
#[allow(unused_imports)]
use crate::context::{ContextBindingView, ContextSourceRefView, ExportRefView};
use crate::data::{all, any, any_before, check_each, contains, find, joined, map_each, Data};
#[allow(unused_imports)]
use crate::data::{
    every, first_fault, first_in, first_index_fault, lemma_first_in, lemma_first_index_fault,
    some_in,
};
use crate::error::{fail, verdict, ContractError, ErrorCode};
#[allow(unused_imports)]
use crate::error::{failure, fault, or_else, Fault};
use crate::hook::{HookPosition, HookRef};
#[allow(unused_imports)]
use crate::hook::HookRefView;
use crate::json::{object, Member};
#[allow(unused_imports)]
use crate::json::{JsonView, MemberView};
use crate::profile::{
    AdapterBinding, AgentProfile, CompletionPolicy, ConnectionRef, ConnectorRef, ExtensionData,
    Instructions, OutputContract, SkillRef, ToolBindingRef,
};
#[allow(unused_imports)]
use crate::profile::{
    AdapterBindingView, AgentProfileView, CompletionPolicyView, ConnectionRefView,
    ConnectorRefView, ExtensionDataView, InstructionsView, OutputContractView, SkillRefView,
    ToolBindingRefView,
};
use crate::refs::Scope;
#[allow(unused_imports)]
use crate::refs::{ScopeView, VersionedRefView};
use crate::resolution::configuration::validate_configuration;
#[allow(unused_imports)]
use crate::resolution::configuration::configuration_fault;
use crate::resolution::{
    ComponentKind, ComponentMetadata, ComponentRef, ExportKind, ExportMetadata, ResolvedComponent,
    ResolvedProfile,
};
#[allow(unused_imports)]
use crate::resolution::{
    component_fault, component_json, match_fault, refers_to_component, resolved_fault,
    ComponentMetadataView, ComponentRefView, ExportMetadataView,
    ResolvedComponentView,
};
use crate::serialization::Id;
#[allow(unused_imports)]
use crate::serialization::digest_of;
use crate::text::comes_before;
#[allow(unused_imports)]
use crate::text::precedes;

verus! {

/// What resolving a component gave.
#[derive(Debug)]
pub enum ResolutionOutcome {
    Resolved {
        metadata: ComponentMetadata,
    },
    Refused {
        error: ContractError,
    },
}

#[verifier::ext_equal]
pub enum ResolutionOutcomeView {
    Resolved {
        metadata: ComponentMetadataView,
    },
    Refused {
        error: Fault,
    },
}

impl View for ResolutionOutcome {
    type V = ResolutionOutcomeView;

    open spec fn view(&self) -> ResolutionOutcomeView {
        match self {
            ResolutionOutcome::Resolved { metadata } => ResolutionOutcomeView::Resolved { metadata: metadata.deep_view() },
            ResolutionOutcome::Refused { error } => ResolutionOutcomeView::Refused { error: error.deep_view() },
        }
    }
}

impl DeepView for ResolutionOutcome {
    type V = ResolutionOutcomeView;

    open spec fn deep_view(&self) -> ResolutionOutcomeView {
        self@
    }
}

impl Data for ResolutionOutcome {
    fn same(&self, other: &Self) -> (r: bool) {
        match (self, other) {
            (ResolutionOutcome::Resolved { metadata: metadata1 }, ResolutionOutcome::Resolved { metadata: metadata2 }) => metadata1.same(metadata2),
            (ResolutionOutcome::Refused { error: error1 }, ResolutionOutcome::Refused { error: error2 }) => error1.same(error2),
            _ => false,
        }
    }

    fn copy(&self) -> (r: Self) {
        match self {
            ResolutionOutcome::Resolved { metadata } => ResolutionOutcome::Resolved { metadata: metadata.copy() },
            ResolutionOutcome::Refused { error } => ResolutionOutcome::Refused { error: error.copy() },
        }
    }
}

/// A component that was looked up.
#[derive(Debug)]
pub struct Resolution {
    pub requested: ComponentRef,
    pub outcome: ResolutionOutcome,
}

#[verifier::ext_equal]
pub struct ResolutionView {
    pub requested: ComponentRefView,
    pub outcome: ResolutionOutcomeView,
}

impl View for Resolution {
    type V = ResolutionView;

    open spec fn view(&self) -> ResolutionView {
        ResolutionView {
            requested: self.requested.deep_view(),
            outcome: self.outcome.deep_view(),
        }
    }
}

impl DeepView for Resolution {
    type V = ResolutionView;

    open spec fn deep_view(&self) -> ResolutionView {
        self@
    }
}

impl Data for Resolution {
    fn same(&self, other: &Self) -> (r: bool) {
        self.requested.same(&other.requested)
            && self.outcome.same(&other.outcome)
    }

    fn copy(&self) -> (r: Self) {
        Resolution {
            requested: self.requested.copy(),
            outcome: self.outcome.copy(),
        }
    }
}

/// What a resolved component is checked for beyond its configuration.
#[derive(Debug)]
pub enum Afterwards {
    Nothing,
    /// It is the adapter of this binding.
    Adapter {
        binding_id: Id,
    },
    /// It is a tool, with a name of its own.
    ToolName,
    /// It is a hook of this position.
    Position {
        position: HookPosition,
    },
}

#[verifier::ext_equal]
pub enum AfterwardsView {
    Nothing,
    Adapter {
        binding_id: Seq<char>,
    },
    ToolName,
    Position {
        position: HookPosition,
    },
}

impl View for Afterwards {
    type V = AfterwardsView;

    open spec fn view(&self) -> AfterwardsView {
        match self {
            Afterwards::Nothing => AfterwardsView::Nothing,
            Afterwards::Adapter { binding_id } => AfterwardsView::Adapter { binding_id: binding_id.deep_view() },
            Afterwards::ToolName => AfterwardsView::ToolName,
            Afterwards::Position { position } => AfterwardsView::Position { position: position.deep_view() },
        }
    }
}

impl DeepView for Afterwards {
    type V = AfterwardsView;

    open spec fn deep_view(&self) -> AfterwardsView {
        self@
    }
}

impl Data for Afterwards {
    fn same(&self, other: &Self) -> (r: bool) {
        match (self, other) {
            (Afterwards::Nothing, Afterwards::Nothing) => true,
            (Afterwards::Adapter { binding_id: binding_id1 }, Afterwards::Adapter { binding_id: binding_id2 }) => binding_id1.same(binding_id2),
            (Afterwards::ToolName, Afterwards::ToolName) => true,
            (Afterwards::Position { position: position1 }, Afterwards::Position { position: position2 }) => position1.same(position2),
            _ => false,
        }
    }

    fn copy(&self) -> (r: Self) {
        match self {
            Afterwards::Nothing => Afterwards::Nothing,
            Afterwards::Adapter { binding_id } => Afterwards::Adapter { binding_id: binding_id.copy() },
            Afterwards::ToolName => Afterwards::ToolName,
            Afterwards::Position { position } => Afterwards::Position { position: position.copy() },
        }
    }
}

/// One step of validating a profile.
#[derive(Debug)]
pub enum CheckStep {
    /// Resolve a component, and check its configuration and connections.
    Component {
        requested: ComponentRef,
        config: Option<Vec<Member>>,
        connections: Option<Vec<ConnectionRef>>,
        afterwards: Afterwards,
    },
    /// Select an export of an adapter.
    Export {
        reference: ExportRef,
        kind: ExportKind,
    },
    /// Fill a slot of a context source.
    Slot {
        source: ContextSourceRef,
        trigger: ContextTrigger,
    },
    /// Resolve the schema of extension data.
    Extension {
        data: ExtensionData,
    },
}

#[verifier::ext_equal]
pub enum CheckStepView {
    Component {
        requested: ComponentRefView,
        config: Option<Seq<MemberView>>,
        connections: Option<Seq<ConnectionRefView>>,
        afterwards: AfterwardsView,
    },
    Export {
        reference: ExportRefView,
        kind: ExportKind,
    },
    Slot {
        source: ContextSourceRefView,
        trigger: ContextTrigger,
    },
    Extension {
        data: ExtensionDataView,
    },
}

impl View for CheckStep {
    type V = CheckStepView;

    open spec fn view(&self) -> CheckStepView {
        match self {
            CheckStep::Component { requested, config, connections, afterwards } => CheckStepView::Component { requested: requested.deep_view(), config: config.deep_view(), connections: connections.deep_view(), afterwards: afterwards.deep_view() },
            CheckStep::Export { reference, kind } => CheckStepView::Export { reference: reference.deep_view(), kind: kind.deep_view() },
            CheckStep::Slot { source, trigger } => CheckStepView::Slot { source: source.deep_view(), trigger: trigger.deep_view() },
            CheckStep::Extension { data } => CheckStepView::Extension { data: data.deep_view() },
        }
    }
}

impl DeepView for CheckStep {
    type V = CheckStepView;

    open spec fn deep_view(&self) -> CheckStepView {
        self@
    }
}

impl Data for CheckStep {
    fn same(&self, other: &Self) -> (r: bool) {
        match (self, other) {
            (CheckStep::Component { requested: requested1, config: config1, connections: connections1, afterwards: afterwards1 }, CheckStep::Component { requested: requested2, config: config2, connections: connections2, afterwards: afterwards2 }) => requested1.same(requested2) && config1.same(config2) && connections1.same(connections2) && afterwards1.same(afterwards2),
            (CheckStep::Export { reference: reference1, kind: kind1 }, CheckStep::Export { reference: reference2, kind: kind2 }) => reference1.same(reference2) && kind1.same(kind2),
            (CheckStep::Slot { source: source1, trigger: trigger1 }, CheckStep::Slot { source: source2, trigger: trigger2 }) => source1.same(source2) && trigger1.same(trigger2),
            (CheckStep::Extension { data: data1 }, CheckStep::Extension { data: data2 }) => data1.same(data2),
            _ => false,
        }
    }

    fn copy(&self) -> (r: Self) {
        match self {
            CheckStep::Component { requested, config, connections, afterwards } => CheckStep::Component { requested: requested.copy(), config: config.copy(), connections: connections.copy(), afterwards: afterwards.copy() },
            CheckStep::Export { reference, kind } => CheckStep::Export { reference: reference.copy(), kind: kind.copy() },
            CheckStep::Slot { source, trigger } => CheckStep::Slot { source: source.copy(), trigger: trigger.copy() },
            CheckStep::Extension { data } => CheckStep::Extension { data: data.copy() },
        }
    }
}

/// A component under the reference that it was asked for by.
#[derive(Debug)]
pub struct Definition {
    pub requested: ComponentRef,
    pub metadata: ComponentMetadata,
}

#[verifier::ext_equal]
pub struct DefinitionView {
    pub requested: ComponentRefView,
    pub metadata: ComponentMetadataView,
}

impl View for Definition {
    type V = DefinitionView;

    open spec fn view(&self) -> DefinitionView {
        DefinitionView {
            requested: self.requested.deep_view(),
            metadata: self.metadata.deep_view(),
        }
    }
}

impl DeepView for Definition {
    type V = DefinitionView;

    open spec fn deep_view(&self) -> DefinitionView {
        self@
    }
}

impl Data for Definition {
    fn same(&self, other: &Self) -> (r: bool) {
        self.requested.same(&other.requested)
            && self.metadata.same(&other.metadata)
    }

    fn copy(&self) -> (r: Self) {
        Definition {
            requested: self.requested.copy(),
            metadata: self.metadata.copy(),
        }
    }
}

/// An adapter under the name that a profile binds it to.
#[derive(Debug)]
pub struct BoundAdapter {
    pub binding_id: Id,
    pub metadata: ComponentMetadata,
}

#[verifier::ext_equal]
pub struct BoundAdapterView {
    pub binding_id: Seq<char>,
    pub metadata: ComponentMetadataView,
}

impl View for BoundAdapter {
    type V = BoundAdapterView;

    open spec fn view(&self) -> BoundAdapterView {
        BoundAdapterView {
            binding_id: self.binding_id.deep_view(),
            metadata: self.metadata.deep_view(),
        }
    }
}

impl DeepView for BoundAdapter {
    type V = BoundAdapterView;

    open spec fn deep_view(&self) -> BoundAdapterView {
        self@
    }
}

impl Data for BoundAdapter {
    fn same(&self, other: &Self) -> (r: bool) {
        self.binding_id.same(&other.binding_id)
            && self.metadata.same(&other.metadata)
    }

    fn copy(&self) -> (r: Self) {
        BoundAdapter {
            binding_id: self.binding_id.copy(),
            metadata: self.metadata.copy(),
        }
    }
}

/// An export that a profile has selected.
#[derive(Debug)]
pub struct SelectedExport {
    pub adapter_binding: Id,
    pub export_id: Id,
}

#[verifier::ext_equal]
pub struct SelectedExportView {
    pub adapter_binding: Seq<char>,
    pub export_id: Seq<char>,
}

impl View for SelectedExport {
    type V = SelectedExportView;

    open spec fn view(&self) -> SelectedExportView {
        SelectedExportView {
            adapter_binding: self.adapter_binding.deep_view(),
            export_id: self.export_id.deep_view(),
        }
    }
}

impl DeepView for SelectedExport {
    type V = SelectedExportView;

    open spec fn deep_view(&self) -> SelectedExportView {
        self@
    }
}

impl Data for SelectedExport {
    fn same(&self, other: &Self) -> (r: bool) {
        self.adapter_binding.same(&other.adapter_binding)
            && self.export_id.same(&other.export_id)
    }

    fn copy(&self) -> (r: Self) {
        SelectedExport {
            adapter_binding: self.adapter_binding.copy(),
            export_id: self.export_id.copy(),
        }
    }
}

/// A slot of a context source.
#[derive(Debug)]
pub struct SourceSlot {
    pub source: ContextSourceRef,
    pub trigger: ContextTrigger,
}

#[verifier::ext_equal]
pub struct SourceSlotView {
    pub source: ContextSourceRefView,
    pub trigger: ContextTrigger,
}

impl View for SourceSlot {
    type V = SourceSlotView;

    open spec fn view(&self) -> SourceSlotView {
        SourceSlotView {
            source: self.source.deep_view(),
            trigger: self.trigger.deep_view(),
        }
    }
}

impl DeepView for SourceSlot {
    type V = SourceSlotView;

    open spec fn deep_view(&self) -> SourceSlotView {
        self@
    }
}

impl Data for SourceSlot {
    fn same(&self, other: &Self) -> (r: bool) {
        self.source.same(&other.source)
            && self.trigger.same(&other.trigger)
    }

    fn copy(&self) -> (r: Self) {
        SourceSlot {
            source: self.source.copy(),
            trigger: self.trigger.copy(),
        }
    }
}

/// What validating a profile has found so far.
#[derive(Debug)]
pub struct Checks {
    /// Resolved components, in the order of their references.
    pub definitions: Vec<Definition>,
    pub adapters: Vec<BoundAdapter>,
    pub capabilities: Vec<Id>,
    pub required: Vec<Id>,
    pub names: Vec<Id>,
    pub selected_exports: Vec<SelectedExport>,
    pub slots: Vec<SourceSlot>,
}

#[verifier::ext_equal]
pub struct ChecksView {
    pub definitions: Seq<DefinitionView>,
    pub adapters: Seq<BoundAdapterView>,
    pub capabilities: Seq<Seq<char>>,
    pub required: Seq<Seq<char>>,
    pub names: Seq<Seq<char>>,
    pub selected_exports: Seq<SelectedExportView>,
    pub slots: Seq<SourceSlotView>,
}

impl View for Checks {
    type V = ChecksView;

    open spec fn view(&self) -> ChecksView {
        ChecksView {
            definitions: self.definitions.deep_view(),
            adapters: self.adapters.deep_view(),
            capabilities: self.capabilities.deep_view(),
            required: self.required.deep_view(),
            names: self.names.deep_view(),
            selected_exports: self.selected_exports.deep_view(),
            slots: self.slots.deep_view(),
        }
    }
}

impl DeepView for Checks {
    type V = ChecksView;

    open spec fn deep_view(&self) -> ChecksView {
        self@
    }
}

impl Data for Checks {
    fn same(&self, other: &Self) -> (r: bool) {
        self.definitions.same(&other.definitions)
            && self.adapters.same(&other.adapters)
            && self.capabilities.same(&other.capabilities)
            && self.required.same(&other.required)
            && self.names.same(&other.names)
            && self.selected_exports.same(&other.selected_exports)
            && self.slots.same(&other.slots)
    }

    fn copy(&self) -> (r: Self) {
        Checks {
            definitions: self.definitions.copy(),
            adapters: self.adapters.copy(),
            capabilities: self.capabilities.copy(),
            required: self.required.copy(),
            names: self.names.copy(),
            selected_exports: self.selected_exports.copy(),
            slots: self.slots.copy(),
        }
    }
}

/// Validates structure, scoped references, schemas and required capabilities, given what looking up
/// the components of a profile gave. It never constructs tool handlers.
#[derive(Debug)]
pub struct ProfileValidator {
    pub resolutions: Vec<Resolution>,
}

#[verifier::ext_equal]
pub struct ProfileValidatorView {
    pub resolutions: Seq<ResolutionView>,
}

impl View for ProfileValidator {
    type V = ProfileValidatorView;

    open spec fn view(&self) -> ProfileValidatorView {
        ProfileValidatorView {
            resolutions: self.resolutions.deep_view(),
        }
    }
}

impl DeepView for ProfileValidator {
    type V = ProfileValidatorView;

    open spec fn deep_view(&self) -> ProfileValidatorView {
        self@
    }
}

impl Data for ProfileValidator {
    fn same(&self, other: &Self) -> (r: bool) {
        self.resolutions.same(&other.resolutions)
    }

    fn copy(&self) -> (r: Self) {
        ProfileValidator {
            resolutions: self.resolutions.copy(),
        }
    }
}


/// Why a profile refers to something that is not there.
pub open spec fn misreferenced(path: &str) -> Option<Fault> {
    fault(ErrorCode::InvalidReference, path)
}

fn invalid<T>(path: &str) -> (r: Result<T, ContractError>)
    ensures
        r is Err,
        failure(r) == misreferenced(path),
{
    fail(ErrorCode::InvalidReference, path)
}

/// The reference of a component of an exact version.
pub open spec fn exact(kind: ComponentKind, id: Seq<char>, version: Seq<char>) -> ComponentRefView {
    ComponentRefView { kind, id, version: Some(version) }
}

fn exact_ref(kind: ComponentKind, id: &Id, version: &Id) -> (r: ComponentRef)
    ensures
        r@ == exact(kind, id@, version@),
{
    ComponentRef { kind, id: id.copy(), version: Some(version.copy()) }
}

/// Resolve a component that has neither configuration nor connections.
pub open spec fn plain_step(requested: ComponentRefView) -> CheckStepView {
    CheckStepView::Component {
        requested,
        config: None,
        connections: None,
        afterwards: AfterwardsView::Nothing,
    }
}

fn plain(requested: ComponentRef) -> (r: CheckStep)
    ensures
        r@ == plain_step(requested@),
{
    CheckStep::Component {
        requested,
        config: None,
        connections: None,
        afterwards: Afterwards::Nothing,
    }
}

/// The step of a connector.
pub open spec fn connector_step() -> spec_fn(ConnectorRefView) -> CheckStepView {
    |item: ConnectorRefView|
        plain_step(exact(ComponentKind::Connector, item.connector_id, item.version))
}

/// The step of an adapter.
pub open spec fn adapter_step() -> spec_fn(AdapterBindingView) -> CheckStepView {
    |item: AdapterBindingView|
        CheckStepView::Component {
            requested: exact(ComponentKind::Adapter, item.adapter_id, item.version),
            config: item.config,
            connections: Some(item.connections),
            afterwards: AfterwardsView::Adapter { binding_id: item.binding_id },
        }
}

/// The step of a tool.
pub open spec fn tool_step() -> spec_fn(ToolBindingRefView) -> CheckStepView {
    |item: ToolBindingRefView|
        match item {
            ToolBindingRefView::Catalog(item) => CheckStepView::Component {
                requested: exact(ComponentKind::Tool, item.tool_id, item.version),
                config: item.config,
                connections: item.bindings,
                afterwards: AfterwardsView::ToolName,
            },
            ToolBindingRefView::Export(item) => CheckStepView::Export {
                reference: item,
                kind: ExportKind::Tool,
            },
        }
}

/// The step of a skill.
pub open spec fn skill_step() -> spec_fn(SkillRefView) -> CheckStepView {
    |item: SkillRefView|
        CheckStepView::Component {
            requested: exact(ComponentKind::Skill, item.skill_id, item.version),
            config: item.config,
            connections: None,
            afterwards: AfterwardsView::Nothing,
        }
}

/// The step that fills the slot of a source.
pub open spec fn slot_step(item: ContextBindingView) -> CheckStepView {
    CheckStepView::Slot { source: item.source, trigger: item.trigger }
}

/// The step of a context source.
pub open spec fn source_step(item: ContextBindingView) -> CheckStepView {
    match item.source {
        ContextSourceRefView::Catalog(item) => plain_step(
            exact(ComponentKind::ContextSource, item.source_id, item.version),
        ),
        ContextSourceRefView::Export(item) => CheckStepView::Export {
            reference: item,
            kind: ExportKind::ContextSource,
        },
    }
}

/// The steps of context sources.
pub open spec fn source_steps(items: Seq<ContextBindingView>) -> Seq<CheckStepView>
    decreases items.len(),
{
    if items.len() == 0 {
        Seq::empty()
    } else {
        source_steps(items.drop_last()).push(slot_step(items.last())).push(
            source_step(items.last()),
        )
    }
}

/// The step of a hook.
pub open spec fn hook_step() -> spec_fn(HookRefView) -> CheckStepView {
    |item: HookRefView|
        match item {
            HookRefView::Catalog(item) => CheckStepView::Component {
                requested: exact(ComponentKind::Hook, item.hook_id, item.version),
                config: None,
                connections: None,
                afterwards: AfterwardsView::Position { position: item.position },
            },
            HookRefView::Export(item) => CheckStepView::Export {
                reference: item,
                kind: ExportKind::Hook,
            },
        }
}

/// The step of an asset.
pub open spec fn asset_step(kind: ComponentKind, reference: VersionedRefView) -> CheckStepView {
    plain_step(exact(kind, reference.id, reference.version))
}

/// The items of an optional list.
pub open spec fn listed<V>(items: Option<Seq<V>>) -> Seq<V> {
    match items {
        Some(items) => items,
        None => Seq::empty(),
    }
}

/// The steps of the assets that a profile names.
pub open spec fn asset_steps(profile: AgentProfileView) -> Seq<CheckStepView> {
    (match profile.instructions {
        InstructionsView::Asset { asset_ref } => seq![
            asset_step(ComponentKind::InstructionAsset, asset_ref),
        ],
        _ => Seq::empty(),
    }) + (match profile.completion_policy {
        CompletionPolicyView::Verified { verifier_ref } => seq![
            asset_step(ComponentKind::Verifier, verifier_ref),
        ],
        _ => Seq::empty(),
    }) + (match profile.output_contract {
        OutputContractView::JsonSchema { schema_ref } => seq![
            asset_step(ComponentKind::OutputSchema, schema_ref),
        ],
        _ => Seq::empty(),
    }) + (match profile.context_policy.version {
        Some(version) => seq![
            CheckStepView::Component {
                requested: exact(
                    ComponentKind::ContextStrategy,
                    profile.context_policy.strategy,
                    version,
                ),
                config: profile.context_policy.config,
                connections: None,
                afterwards: AfterwardsView::Nothing,
            },
        ],
        None => Seq::empty(),
    })
}

/// The steps of validating a profile, in order.
pub open spec fn steps_of(profile: AgentProfileView) -> Seq<CheckStepView> {
    seq![
        plain_step(
            ComponentRefView {
                kind: ComponentKind::ModelBinding,
                id: profile.model_binding,
                version: None,
            },
        ),
    ] + profile.connectors.map_values(connector_step()) + listed(profile.adapters).map_values(
        adapter_step(),
    ) + profile.tools.map_values(tool_step()) + profile.skills.map_values(skill_step())
        + source_steps(listed(profile.context_sources)) + listed(profile.hooks).map_values(
        hook_step(),
    ) + asset_steps(profile) + listed(profile.extensions).map_values(
        |data: ExtensionDataView| CheckStepView::Extension { data },
    )
}

fn list_source_steps(items: &Vec<ContextBinding>) -> (r: Vec<CheckStep>)
    ensures
        r.deep_view() == source_steps(items.deep_view()),
{
    let ghost s = items.deep_view();
    let mut out: Vec<CheckStep> = Vec::new();
    let mut i: usize = 0;
    assert(s.take(0) =~= Seq::<ContextBindingView>::empty());
    assert(out.deep_view() =~= Seq::<CheckStepView>::empty());
    while i < items.len()
        invariant
            i <= items.len(),
            s == items.deep_view(),
            out.deep_view() == source_steps(s.take(i as int)),
        decreases items.len() - i,
    {
        let item = &items[i];
        assert(s.take(i + 1).drop_last() =~= s.take(i as int));
        assert(s.take(i + 1).last() == item@);
        let ghost before = out.deep_view();
        let slot = CheckStep::Slot { source: item.source.copy(), trigger: item.trigger };
        let step = match &item.source {
            ContextSourceRef::Catalog(source) => plain(
                exact_ref(ComponentKind::ContextSource, &source.source_id, &source.version),
            ),
            ContextSourceRef::Export(reference) => CheckStep::Export {
                reference: reference.copy(),
                kind: ExportKind::ContextSource,
            },
        };
        let ghost slot_item = slot@;
        let ghost step_item = step@;
        out.push(slot);
        out.push(step);
        assert(out.deep_view() =~= before.push(slot_item).push(step_item));
        i = i + 1;
    }
    assert(s.take(i as int) =~= s);
    out
}

fn list_asset_steps(profile: &AgentProfile) -> (r: Vec<CheckStep>)
    ensures
        r.deep_view() == asset_steps(profile@),
{
    let mut out: Vec<CheckStep> = Vec::new();
    if let Instructions::Asset { asset_ref } = &profile.instructions {
        out.push(
            plain(
                exact_ref(ComponentKind::InstructionAsset, &asset_ref.id, &asset_ref.version),
            ),
        );
    }
    if let CompletionPolicy::Verified { verifier_ref } = &profile.completion_policy {
        out.push(
            plain(exact_ref(ComponentKind::Verifier, &verifier_ref.id, &verifier_ref.version)),
        );
    }
    if let OutputContract::JsonSchema { schema_ref } = &profile.output_contract {
        out.push(
            plain(exact_ref(ComponentKind::OutputSchema, &schema_ref.id, &schema_ref.version)),
        );
    }
    if let Some(version) = &profile.context_policy.version {
        out.push(
            CheckStep::Component {
                requested: exact_ref(
                    ComponentKind::ContextStrategy,
                    &profile.context_policy.strategy,
                    version,
                ),
                config: profile.context_policy.config.copy(),
                connections: None,
                afterwards: Afterwards::Nothing,
            },
        );
    }
    assert(out.deep_view() =~= asset_steps(profile@));
    out
}

fn own_list<T: Data>(items: &Option<Vec<T>>) -> (r: Vec<T>)
    ensures
        r.deep_view() == listed(items.deep_view()),
{
    match items {
        Some(items) => items.copy(),
        None => {
            let none: Vec<T> = Vec::new();
            assert(none.deep_view() =~= Seq::<T::V>::empty());
            none
        },
    }
}

fn list_tool_steps(items: &Vec<ToolBindingRef>) -> (r: Vec<CheckStep>)
    ensures
        r.deep_view() == items.deep_view().map_values(tool_step()),
{
    let step = |item: &ToolBindingRef| -> (r: CheckStep)
        ensures
            r@ == tool_step()(item@),
    {
        match item {
            ToolBindingRef::Catalog(item) => CheckStep::Component {
                requested: exact_ref(ComponentKind::Tool, &item.tool_id, &item.version),
                config: item.config.copy(),
                connections: item.bindings.copy(),
                afterwards: Afterwards::ToolName,
            },
            ToolBindingRef::Export(item) => CheckStep::Export {
                reference: item.copy(),
                kind: ExportKind::Tool,
            },
        }
    };
    map_each(items, step, Ghost(tool_step()))
}

fn list_hook_steps(items: &Vec<HookRef>) -> (r: Vec<CheckStep>)
    ensures
        r.deep_view() == items.deep_view().map_values(hook_step()),
{
    let step = |item: &HookRef| -> (r: CheckStep)
        ensures
            r@ == hook_step()(item@),
    {
        match item {
            HookRef::Catalog(item) => CheckStep::Component {
                requested: exact_ref(ComponentKind::Hook, &item.hook_id, &item.version),
                config: None,
                connections: None,
                afterwards: Afterwards::Position { position: item.position },
            },
            HookRef::Export(item) => CheckStep::Export {
                reference: item.copy(),
                kind: ExportKind::Hook,
            },
        }
    };
    map_each(items, step, Ghost(hook_step()))
}

/// List the steps of validating a profile, in order.
pub fn check_steps(profile: &AgentProfile) -> (r: Vec<CheckStep>)
    ensures
        r.deep_view() == steps_of(profile@),
{
    let mut first: Vec<CheckStep> = Vec::new();
    first.push(
        plain(
            ComponentRef {
                kind: ComponentKind::ModelBinding,
                id: profile.model_binding.copy(),
                version: None,
            },
        ),
    );
    assert(first.deep_view() =~= seq![steps_of(profile@)[0]]);
    let connector = |item: &ConnectorRef| -> (r: CheckStep)
        ensures
            r@ == connector_step()(item@),
    { plain(exact_ref(ComponentKind::Connector, &item.connector_id, &item.version)) };
    let connectors = map_each(&profile.connectors, connector, Ghost(connector_step()));
    let adapter = |item: &AdapterBinding| -> (r: CheckStep)
        ensures
            r@ == adapter_step()(item@),
    {
        CheckStep::Component {
            requested: exact_ref(ComponentKind::Adapter, &item.adapter_id, &item.version),
            config: item.config.copy(),
            connections: Some(item.connections.copy()),
            afterwards: Afterwards::Adapter { binding_id: item.binding_id.copy() },
        }
    };
    let adapters = map_each(&own_list(&profile.adapters), adapter, Ghost(adapter_step()));
    let tools = list_tool_steps(&profile.tools);
    let skill = |item: &SkillRef| -> (r: CheckStep)
        ensures
            r@ == skill_step()(item@),
    {
        CheckStep::Component {
            requested: exact_ref(ComponentKind::Skill, &item.skill_id, &item.version),
            config: item.config.copy(),
            connections: None,
            afterwards: Afterwards::Nothing,
        }
    };
    let skills = map_each(&profile.skills, skill, Ghost(skill_step()));
    let sources = list_source_steps(&own_list(&profile.context_sources));
    let hooks = list_hook_steps(&own_list(&profile.hooks));
    let assets = list_asset_steps(profile);
    let extension = |data: &ExtensionData| -> (r: CheckStep)
        ensures
            r@ == (CheckStepView::Extension { data: data@ }),
    { CheckStep::Extension { data: data.copy() } };
    let extensions = map_each(
        &own_list(&profile.extensions),
        extension,
        Ghost(|data: ExtensionDataView| CheckStepView::Extension { data }),
    );
    let steps = joined(&first, &connectors);
    let steps = joined(&steps, &adapters);
    let steps = joined(&steps, &tools);
    let steps = joined(&steps, &skills);
    let steps = joined(&steps, &sources);
    let steps = joined(&steps, &hooks);
    let steps = joined(&steps, &assets);
    joined(&steps, &extensions)
}

/// The component that a step asks for, if it asks for one.
pub open spec fn request_of(step: CheckStepView) -> Option<ComponentRefView> {
    match step {
        CheckStepView::Component { requested, .. } => Some(requested),
        CheckStepView::Extension { data } => Some(
            ComponentRefView { kind: ComponentKind::Extension, id: data.namespace, version: None },
        ),
        _ => None,
    }
}

/// The component that a step asks for, if it asks for one.
pub fn step_request(step: &CheckStep) -> (r: Option<ComponentRef>)
    ensures
        r.deep_view() == request_of(step@),
{
    match step {
        CheckStep::Component { requested, .. } => Some(requested.copy()),
        CheckStep::Extension { data } => Some(
            ComponentRef {
                kind: ComponentKind::Extension,
                id: data.namespace.copy(),
                version: None,
            },
        ),
        _ => None,
    }
}

/// Definitions of a reference.
pub open spec fn defines(requested: ComponentRefView) -> spec_fn(DefinitionView) -> bool {
    |definition: DefinitionView| definition.requested == requested
}

/// Definitions of an exact reference.
pub open spec fn defines_exactly(reference: ComponentRefView) -> spec_fn(DefinitionView) -> bool {
    |definition: DefinitionView| definition.metadata.reference == reference
}

/// Look-ups of a reference.
pub open spec fn looks_up(requested: ComponentRefView) -> spec_fn(ResolutionView) -> bool {
    |resolution: ResolutionView| resolution.requested == requested
}

/// Exports of an identifier.
pub open spec fn exports_id(export_id: Seq<char>) -> spec_fn(ExportMetadataView) -> bool {
    |export: ExportMetadataView| export.export_id == export_id
}

/// Why an export is not the only one of its identifier.
pub open spec fn export_fault(exports: Seq<ExportMetadataView>) -> spec_fn(int) -> Option<Fault> {
    |i: int|
        if some_in(exports.take(i), exports_id(exports[i].export_id)) {
            misreferenced("adapter.exports")
        } else {
            None
        }
}

/// Why metadata is not what was asked for.
pub open spec fn metadata_fault(
    requested: ComponentRefView,
    metadata: ComponentMetadataView,
) -> Option<Fault> {
    if metadata.reference.kind != requested.kind || metadata.reference.id != requested.id
        || metadata.reference.version is None || (requested.version is Some && requested.version
        != metadata.reference.version) {
        fault(ErrorCode::ComponentUnavailable, "component.reference")
    } else if metadata.contract_version != 1 {
        fault(ErrorCode::UnsupportedContractVersion, "component.contract_version")
    } else {
        first_index_fault(0, metadata.exports.len() as int, export_fault(metadata.exports))
    }
}

/// Why a component cannot be resolved.
pub open spec fn resolve_fault(
    checks: ChecksView,
    requested: ComponentRefView,
    resolutions: Seq<ResolutionView>,
) -> Option<Fault> {
    if some_in(checks.definitions, defines(requested)) {
        None
    } else {
        match first_in(resolutions, looks_up(requested)) {
            None => fault(ErrorCode::ComponentUnavailable, "component.reference"),
            Some(resolution) => match resolution.outcome {
                ResolutionOutcomeView::Refused { error } => Some(error),
                ResolutionOutcomeView::Resolved { metadata } => metadata_fault(
                    requested,
                    metadata,
                ),
            },
        }
    }
}

/// The metadata of a component.
pub open spec fn metadata_of(
    checks: ChecksView,
    requested: ComponentRefView,
    resolutions: Seq<ResolutionView>,
) -> ComponentMetadataView {
    match first_in(checks.definitions, defines(requested)) {
        Some(definition) => definition.metadata,
        None => first_in(resolutions, looks_up(requested))->0.outcome->metadata,
    }
}

/// The place of a kind among the kinds.
pub open spec fn rank(kind: ComponentKind) -> int {
    match kind {
        ComponentKind::ModelBinding => 0,
        ComponentKind::Tool => 1,
        ComponentKind::Skill => 2,
        ComponentKind::Connector => 3,
        ComponentKind::Adapter => 4,
        ComponentKind::ContextSource => 5,
        ComponentKind::Hook => 6,
        ComponentKind::ContextStrategy => 7,
        ComponentKind::Verifier => 8,
        ComponentKind::InstructionAsset => 9,
        ComponentKind::OutputSchema => 10,
        ComponentKind::Extension => 11,
    }
}

/// A reference stands before another one: by kind, then by identifier, then by version, where no
/// version comes first.
pub open spec fn before(a: ComponentRefView, b: ComponentRefView) -> bool {
    if a.kind != b.kind {
        rank(a.kind) < rank(b.kind)
    } else if a.id != b.id {
        precedes(a.id, b.id)
    } else {
        match (a.version, b.version) {
            (None, Some(_)) => true,
            (Some(x), Some(y)) => precedes(x, y),
            (_, None) => false,
        }
    }
}

fn rank_of(kind: ComponentKind) -> (r: u8)
    ensures
        r == rank(kind),
{
    match kind {
        ComponentKind::ModelBinding => 0,
        ComponentKind::Tool => 1,
        ComponentKind::Skill => 2,
        ComponentKind::Connector => 3,
        ComponentKind::Adapter => 4,
        ComponentKind::ContextSource => 5,
        ComponentKind::Hook => 6,
        ComponentKind::ContextStrategy => 7,
        ComponentKind::Verifier => 8,
        ComponentKind::InstructionAsset => 9,
        ComponentKind::OutputSchema => 10,
        ComponentKind::Extension => 11,
    }
}

fn is_before(a: &ComponentRef, b: &ComponentRef) -> (r: bool)
    ensures
        r == before(a@, b@),
{
    if a.kind != b.kind {
        return rank_of(a.kind) < rank_of(b.kind);
    }
    if !a.id.same(&b.id) {
        return comes_before(a.id.as_str(), b.id.as_str());
    }
    match (&a.version, &b.version) {
        (None, Some(_)) => true,
        (Some(x), Some(y)) => comes_before(x.as_str(), y.as_str()),
        (_, None) => false,
    }
}

/// Definitions with one more, in order.
pub open spec fn inserted(definitions: Seq<DefinitionView>, definition: DefinitionView) -> Seq<
    DefinitionView,
>
    decreases definitions.len(),
{
    if definitions.len() == 0 || before(definition.requested, definitions[0].requested) {
        seq![definition] + definitions
    } else {
        seq![definitions[0]] + inserted(definitions.skip(1), definition)
    }
}

fn insert_definition(definitions: Vec<Definition>, definition: Definition) -> (r: Vec<Definition>)
    ensures
        r.deep_view() == inserted(definitions.deep_view(), definition@),
{
    let mut definitions = definitions;
    let ghost s = definitions.deep_view();
    let ghost p = definition@;
    let mut i: usize = 0;
    assert(s.skip(0) =~= s);
    assert(s.take(0) =~= Seq::<DefinitionView>::empty());
    while i < definitions.len() && !is_before(&definition.requested, &definitions[i].requested)
        invariant
            i <= definitions.len(),
            s == definitions.deep_view(),
            p == definition@,
            inserted(s, p) =~= s.take(i as int) + inserted(s.skip(i as int), p),
        decreases definitions.len() - i,
    {
        assert(s.skip(i as int)[0] == s[i as int]);
        assert(s.skip(i as int).skip(1) =~= s.skip(i + 1));
        assert(s.take(i + 1) =~= s.take(i as int).push(s[i as int]));
        i = i + 1;
    }
    proof {
        if i < definitions.len() {
            assert(s.skip(i as int)[0] == s[i as int]);
        }
        assert(inserted(s, p) =~= s.take(i as int) + (seq![p] + s.skip(i as int)));
    }
    definitions.insert(i, definition);
    assert(definitions.deep_view() =~= s.take(i as int) + (seq![p] + s.skip(i as int)));
    definitions
}

/// What is known after a component was resolved. An adapter offers nothing by itself; its selected
/// exports do.
pub open spec fn resolved_checks(
    checks: ChecksView,
    requested: ComponentRefView,
    resolutions: Seq<ResolutionView>,
) -> ChecksView {
    if some_in(checks.definitions, defines(requested)) {
        checks
    } else {
        let metadata = metadata_of(checks, requested, resolutions);
        ChecksView {
            definitions: inserted(checks.definitions, DefinitionView { requested, metadata }),
            required: checks.required + metadata.required_capabilities,
            capabilities: if requested.kind == ComponentKind::Adapter {
                checks.capabilities
            } else {
                checks.capabilities + metadata.capabilities
            },
            ..checks
        }
    }
}

fn check_export_id(exports: &Vec<ExportMetadata>, i: usize) -> (r: Result<(), ContractError>)
    requires
        i < exports.len(),
    ensures
        failure(r) == export_fault(exports.deep_view())(i as int),
{
    assert(exports.deep_view()[i as int] == exports@[i as int]@);
    let id = &exports[i].export_id;
    let same = |export: &ExportMetadata| -> (b: bool)
        ensures
            b == exports_id(id@)(export@),
    { export.export_id.same(id) };
    if any_before(exports, i, same, Ghost(exports_id(id@))) {
        return invalid("adapter.exports");
    }
    Ok(())
}

fn check_metadata(requested: &ComponentRef, metadata: &ComponentMetadata) -> (r: Result<
    (),
    ContractError,
>)
    ensures
        failure(r) == metadata_fault(requested@, metadata@),
{
    if metadata.reference.kind != requested.kind || !metadata.reference.id.same(&requested.id)
        || metadata.reference.version.is_none() || (requested.version.is_some()
        && !requested.version.same(&metadata.reference.version)) {
        return fail(ErrorCode::ComponentUnavailable, "component.reference");
    }
    if metadata.contract_version != 1 {
        return fail(ErrorCode::UnsupportedContractVersion, "component.contract_version");
    }
    let exports = &metadata.exports;
    let n: usize = exports.len();
    let check = |i: usize| -> (r: Result<(), ContractError>)
        requires
            i < exports.len(),
        ensures
            failure(r) == export_fault(exports.deep_view())(i as int),
    { check_export_id(exports, i) };
    crate::data::check_indices(n, check, Ghost(export_fault(exports.deep_view())))
}

/// A component with what is known after it was resolved.
struct Resolved {
    checks: Checks,
    metadata: ComponentMetadata,
}

fn resolve(checks: Checks, requested: &ComponentRef, resolutions: &Vec<Resolution>) -> (r: Result<
    Resolved,
    ContractError,
>)
    ensures
        failure(r) == resolve_fault(checks@, requested@, resolutions.deep_view()),
        r matches Ok(resolved) ==> resolved.checks@ == resolved_checks(
            checks@,
            requested@,
            resolutions.deep_view(),
        ) && resolved.metadata@ == metadata_of(checks@, requested@, resolutions.deep_view()),
{
    let same = |definition: &Definition| -> (b: bool)
        ensures
            b == defines(requested@)(definition@),
    { definition.requested.same(requested) };
    proof {
        lemma_first_in(checks@.definitions, defines(requested@));
    }
    let known = match find(&checks.definitions, same, Ghost(defines(requested@))) {
        Some(definition) => Some(definition.metadata.copy()),
        None => None,
    };
    if let Some(metadata) = known {
        return Ok(Resolved { checks, metadata });
    }
    let asked = |resolution: &Resolution| -> (b: bool)
        ensures
            b == looks_up(requested@)(resolution@),
    { resolution.requested.same(requested) };
    let metadata = match find(resolutions, asked, Ghost(looks_up(requested@))) {
        None => {
            return fail(ErrorCode::ComponentUnavailable, "component.reference");
        },
        Some(resolution) => match &resolution.outcome {
            ResolutionOutcome::Refused { error } => {
                return Err(error.copy());
            },
            ResolutionOutcome::Resolved { metadata } => metadata,
        },
    };
    check_metadata(requested, metadata)?;
    let required = joined(&checks.required, &metadata.required_capabilities);
    let capabilities = if requested.kind == ComponentKind::Adapter {
        checks.capabilities
    } else {
        joined(&checks.capabilities, &metadata.capabilities)
    };
    let definition = Definition { requested: requested.copy(), metadata: metadata.copy() };
    let definitions = insert_definition(checks.definitions, definition);
    Ok(
        Resolved {
            checks: Checks {
                definitions,
                adapters: checks.adapters,
                capabilities,
                required,
                names: checks.names,
                selected_exports: checks.selected_exports,
                slots: checks.slots,
            },
            metadata: metadata.copy(),
        },
    )
}

/// The configuration that a schema judges; an absent one is empty.
pub open spec fn config_json(config: Option<Seq<MemberView>>) -> JsonView {
    JsonView::Object(listed(config))
}

/// Connections of a name.
pub open spec fn connects(name: Seq<char>) -> spec_fn(ConnectionRefView) -> bool {
    |connection: ConnectionRefView| connection.name == name
}

/// Names that connections lack.
pub open spec fn lacks(connections: Option<Seq<ConnectionRefView>>) -> spec_fn(Seq<char>) -> bool {
    |name: Seq<char>| !some_in(listed(connections), connects(name))
}

/// Why a component does not fit its configuration and its connections.
pub open spec fn fitting_fault(
    metadata: ComponentMetadataView,
    config: Option<Seq<MemberView>>,
    connections: Option<Seq<ConnectionRefView>>,
) -> Option<Fault> {
    if configuration_fault(metadata.config_schema, config_json(config)) is Some {
        configuration_fault(metadata.config_schema, config_json(config))
    } else if some_in(metadata.required_connections, lacks(connections)) {
        misreferenced("component.connections")
    } else {
        None
    }
}

fn has_connection(connections: &Vec<ConnectionRef>, name: &Id) -> (r: bool)
    ensures
        r == some_in(connections.deep_view(), connects(name@)),
{
    let same = |connection: &ConnectionRef| -> (b: bool)
        ensures
            b == connects(name@)(connection@),
    { connection.name.same(name) };
    any(connections, same, Ghost(connects(name@)))
}

fn check_fitting(
    metadata: &ComponentMetadata,
    config: &Option<Vec<Member>>,
    connections: &Option<Vec<ConnectionRef>>,
) -> (r: Result<(), ContractError>)
    ensures
        failure(r) == fitting_fault(metadata@, config.deep_view(), connections.deep_view()),
{
    let value = object(own_list(config));
    validate_configuration(&metadata.config_schema, &value)?;
    let given = own_list(connections);
    let absent = |name: &Id| -> (b: bool)
        ensures
            b == lacks(connections.deep_view())(name@),
    { !has_connection(&given, name) };
    if any(&metadata.required_connections, absent, Ghost(lacks(connections.deep_view()))) {
        return invalid("component.connections");
    }
    Ok(())
}

/// Why a tool cannot have a name.
pub open spec fn name_fault(checks: ChecksView, name: Seq<char>) -> Option<Fault> {
    if checks.names.contains(name) {
        misreferenced("tools.model_name")
    } else {
        None
    }
}

/// Why a component does not fit its place in the profile.
pub open spec fn afterwards_fault(
    checks: ChecksView,
    metadata: ComponentMetadataView,
    afterwards: AfterwardsView,
) -> Option<Fault> {
    match afterwards {
        AfterwardsView::ToolName => match metadata.model_name {
            None => misreferenced("tools.model_name"),
            Some(name) => name_fault(checks, name),
        },
        AfterwardsView::Position { position } => if metadata.hook_position != Some(position) {
            misreferenced("hooks.position")
        } else {
            None
        },
        _ => None,
    }
}

/// What is known after a component took its place in the profile. A later adapter of the same binding
/// replaces an earlier one.
pub open spec fn placed(
    checks: ChecksView,
    metadata: ComponentMetadataView,
    afterwards: AfterwardsView,
) -> ChecksView {
    match afterwards {
        AfterwardsView::Adapter { binding_id } => ChecksView {
            adapters: checks.adapters.push(BoundAdapterView { binding_id, metadata }),
            ..checks
        },
        AfterwardsView::ToolName => ChecksView {
            names: checks.names.push(metadata.model_name->0),
            ..checks
        },
        _ => checks,
    }
}

fn place(checks: Checks, metadata: ComponentMetadata, afterwards: &Afterwards) -> (r: Result<
    Checks,
    ContractError,
>)
    ensures
        failure(r) == afterwards_fault(checks@, metadata@, afterwards@),
        r matches Ok(next) ==> next@ == placed(checks@, metadata@, afterwards@),
{
    let mut checks = checks;
    let ghost given = checks@;
    match afterwards {
        Afterwards::Nothing => Ok(checks),
        Afterwards::Adapter { binding_id } => {
            let adapter = BoundAdapter { binding_id: binding_id.copy(), metadata };
            let ghost item = adapter@;
            checks.adapters.push(adapter);
            assert(checks.adapters.deep_view() =~= given.adapters.push(item));
            Ok(checks)
        },
        Afterwards::ToolName => match metadata.model_name {
            None => invalid("tools.model_name"),
            Some(name) => {
                if contains(&checks.names, &name) {
                    return invalid("tools.model_name");
                }
                let ghost item = name@;
                checks.names.push(name);
                assert(checks.names.deep_view() =~= given.names.push(item));
                Ok(checks)
            },
        },
        Afterwards::Position { position } => {
            let is_there = match metadata.hook_position {
                Some(actual) => actual == *position,
                None => false,
            };
            if !is_there {
                return invalid("hooks.position");
            }
            Ok(checks)
        },
    }
}

/// Adapters of a binding.
pub open spec fn binds(binding_id: Seq<char>) -> spec_fn(BoundAdapterView) -> bool {
    |adapter: BoundAdapterView| adapter.binding_id == binding_id
}

/// The adapter that a binding names.
pub open spec fn adapter_of(checks: ChecksView, binding_id: Seq<char>) -> Option<
    BoundAdapterView,
> {
    crate::data::last_in(checks.adapters, binds(binding_id))
}

/// The export that a reference names.
pub open spec fn export_of(adapter: BoundAdapterView, export_id: Seq<char>) -> Option<
    ExportMetadataView,
> {
    first_in(adapter.metadata.exports, exports_id(export_id))
}

/// The name that the model knows an exported tool by.
pub open spec fn exported_name(
    reference: ExportRefView,
    export: ExportMetadataView,
) -> Option<Seq<char>> {
    if reference.alias is Some {
        reference.alias
    } else {
        export.model_name
    }
}

/// The selection that a reference makes.
pub open spec fn selection_of(reference: ExportRefView) -> SelectedExportView {
    SelectedExportView {
        adapter_binding: reference.adapter_binding,
        export_id: reference.export_id,
    }
}

/// Why an export cannot be selected.
pub open spec fn selection_fault(
    checks: ChecksView,
    reference: ExportRefView,
    kind: ExportKind,
) -> Option<Fault> {
    match adapter_of(checks, reference.adapter_binding) {
        None => misreferenced("adapter_binding"),
        Some(adapter) => match export_of(adapter, reference.export_id) {
            None => misreferenced("export_id"),
            Some(export) => if export.kind != kind {
                misreferenced("export.kind")
            } else if export.contract_version != 1 {
                fault(ErrorCode::UnsupportedContractVersion, "export.contract_version")
            } else if checks.selected_exports.contains(selection_of(reference)) && kind
                != ExportKind::ContextSource {
                misreferenced("export.duplicate")
            } else if kind == ExportKind::Tool && exported_name(reference, export) is None {
                misreferenced("export.model_name")
            } else if kind == ExportKind::Tool && name_fault(
                checks,
                exported_name(reference, export)->0,
            ) is Some {
                name_fault(checks, exported_name(reference, export)->0)
            } else if kind != ExportKind::Tool && reference.alias is Some {
                misreferenced("export.alias")
            } else if kind == ExportKind::Hook && export.hook_position is None {
                misreferenced("export.hook_position")
            } else {
                None
            },
        },
    }
}

/// What is known after an export was selected.
pub open spec fn selected(
    checks: ChecksView,
    reference: ExportRefView,
    kind: ExportKind,
) -> ChecksView {
    let export = export_of(
        adapter_of(checks, reference.adapter_binding)->0,
        reference.export_id,
    )->0;
    ChecksView {
        selected_exports: checks.selected_exports.push(selection_of(reference)),
        names: if kind == ExportKind::Tool {
            checks.names.push(exported_name(reference, export)->0)
        } else {
            checks.names
        },
        capabilities: checks.capabilities + export.capabilities,
        required: checks.required + export.required_capabilities,
        ..checks
    }
}

fn find_export(checks: &Checks, reference: &ExportRef) -> (r: Result<ExportMetadata, ContractError>)
    ensures
        failure(r) == (match adapter_of(checks@, reference@.adapter_binding) {
            None => misreferenced("adapter_binding"),
            Some(adapter) => if export_of(adapter, reference@.export_id) is None {
                misreferenced("export_id")
            } else {
                None
            },
        }),
        r matches Ok(export) ==> adapter_of(checks@, reference@.adapter_binding) is Some
            && export_of(
            adapter_of(checks@, reference@.adapter_binding)->0,
            reference@.export_id,
        ) == Some(export@),
{
    let bound = |adapter: &BoundAdapter| -> (b: bool)
        ensures
            b == binds(reference@.adapter_binding)(adapter@),
    { adapter.binding_id.same(&reference.adapter_binding) };
    let adapter = match crate::data::find_last(
        &checks.adapters,
        bound,
        Ghost(binds(reference@.adapter_binding)),
    ) {
        Some(adapter) => adapter,
        None => {
            return invalid("adapter_binding");
        },
    };
    let named = |export: &ExportMetadata| -> (b: bool)
        ensures
            b == exports_id(reference@.export_id)(export@),
    { export.export_id.same(&reference.export_id) };
    match find(&adapter.metadata.exports, named, Ghost(exports_id(reference@.export_id))) {
        Some(export) => Ok(export.copy()),
        None => invalid("export_id"),
    }
}

fn select_export(checks: Checks, reference: &ExportRef, kind: ExportKind) -> (r: Result<
    Checks,
    ContractError,
>)
    ensures
        failure(r) == selection_fault(checks@, reference@, kind),
        r matches Ok(next) ==> next@ == selected(checks@, reference@, kind),
{
    let export = find_export(&checks, reference)?;
    if export.kind != kind {
        return invalid("export.kind");
    }
    if export.contract_version != 1 {
        return fail(ErrorCode::UnsupportedContractVersion, "export.contract_version");
    }
    let selection = SelectedExport {
        adapter_binding: reference.adapter_binding.copy(),
        export_id: reference.export_id.copy(),
    };
    if contains(&checks.selected_exports, &selection) && kind != ExportKind::ContextSource {
        return invalid("export.duplicate");
    }
    let ghost given = checks@;
    let mut checks = checks;
    if kind == ExportKind::Tool {
        let name = if reference.alias.is_some() {
            &reference.alias
        } else {
            &export.model_name
        };
        match name {
            None => {
                return invalid("export.model_name");
            },
            Some(name) => {
                if contains(&checks.names, name) {
                    return invalid("tools.model_name");
                }
                checks.names.push(name.copy());
                assert(checks.names.deep_view() =~= given.names.push(name@));
            },
        }
    } else if reference.alias.is_some() {
        return invalid("export.alias");
    }
    if kind == ExportKind::Hook && export.hook_position.is_none() {
        return invalid("export.hook_position");
    }
    let ghost item = selection@;
    checks.selected_exports.push(selection);
    assert(checks.selected_exports.deep_view() =~= given.selected_exports.push(item));
    checks.capabilities = joined(&checks.capabilities, &export.capabilities);
    checks.required = joined(&checks.required, &export.required_capabilities);
    Ok(checks)
}

/// The reference of the schema of extension data.
pub open spec fn extension_ref(data: ExtensionDataView) -> ComponentRefView {
    ComponentRefView { kind: ComponentKind::Extension, id: data.namespace, version: None }
}

/// Why a step of the validation fails.
pub open spec fn step_fault(
    checks: ChecksView,
    step: CheckStepView,
    resolutions: Seq<ResolutionView>,
) -> Option<Fault> {
    match step {
        CheckStepView::Component { requested, config, connections, afterwards } => {
            let metadata = metadata_of(checks, requested, resolutions);
            let after = resolved_checks(checks, requested, resolutions);
            or_else(
                resolve_fault(checks, requested, resolutions),
                or_else(
                    fitting_fault(metadata, config, connections),
                    afterwards_fault(after, metadata, afterwards),
                ),
            )
        },
        CheckStepView::Export { reference, kind } => selection_fault(checks, reference, kind),
        CheckStepView::Slot { source, trigger } => if checks.slots.contains(
            SourceSlotView { source, trigger },
        ) {
            misreferenced("context_sources.duplicate")
        } else {
            None
        },
        CheckStepView::Extension { data } => or_else(
            resolve_fault(checks, extension_ref(data), resolutions),
            configuration_fault(
                metadata_of(checks, extension_ref(data), resolutions).config_schema,
                data.value,
            ),
        ),
    }
}

/// What is known after a step of the validation.
pub open spec fn after_step(
    checks: ChecksView,
    step: CheckStepView,
    resolutions: Seq<ResolutionView>,
) -> ChecksView {
    match step {
        CheckStepView::Component { requested, afterwards, .. } => placed(
            resolved_checks(checks, requested, resolutions),
            metadata_of(checks, requested, resolutions),
            afterwards,
        ),
        CheckStepView::Export { reference, kind } => selected(checks, reference, kind),
        CheckStepView::Slot { source, trigger } => ChecksView {
            slots: checks.slots.push(SourceSlotView { source, trigger }),
            ..checks
        },
        CheckStepView::Extension { data } => resolved_checks(
            checks,
            extension_ref(data),
            resolutions,
        ),
    }
}

fn take_step(checks: Checks, step: &CheckStep, resolutions: &Vec<Resolution>) -> (r: Result<
    Checks,
    ContractError,
>)
    ensures
        failure(r) == step_fault(checks@, step@, resolutions.deep_view()),
        r matches Ok(next) ==> next@ == after_step(checks@, step@, resolutions.deep_view()),
{
    match step {
        CheckStep::Component { requested, config, connections, afterwards } => {
            let resolved = resolve(checks, requested, resolutions)?;
            check_fitting(&resolved.metadata, config, connections)?;
            let Resolved { checks, metadata } = resolved;
            place(checks, metadata, afterwards)
        },
        CheckStep::Export { reference, kind } => select_export(checks, reference, *kind),
        CheckStep::Slot { source, trigger } => {
            let slot = SourceSlot { source: source.copy(), trigger: *trigger };
            if contains(&checks.slots, &slot) {
                return invalid("context_sources.duplicate");
            }
            let ghost given = checks@;
            let ghost item = slot@;
            let mut checks = checks;
            checks.slots.push(slot);
            assert(checks.slots.deep_view() =~= given.slots.push(item));
            Ok(checks)
        },
        CheckStep::Extension { data } => {
            let requested = ComponentRef {
                kind: ComponentKind::Extension,
                id: data.namespace.copy(),
                version: None,
            };
            let resolved = resolve(checks, &requested, resolutions)?;
            validate_configuration(&resolved.metadata.config_schema, &data.value)?;
            Ok(resolved.checks)
        },
    }
}

/// Nothing is known yet.
pub open spec fn no_checks() -> ChecksView {
    ChecksView {
        definitions: Seq::empty(),
        adapters: Seq::empty(),
        capabilities: Seq::empty(),
        required: Seq::empty(),
        names: Seq::empty(),
        selected_exports: Seq::empty(),
        slots: Seq::empty(),
    }
}

/// What is known after the first steps.
pub open spec fn checks_at(
    steps: Seq<CheckStepView>,
    resolutions: Seq<ResolutionView>,
    n: int,
) -> ChecksView
    decreases n,
{
    if n <= 0 {
        no_checks()
    } else {
        after_step(checks_at(steps, resolutions, n - 1), steps[n - 1], resolutions)
    }
}

/// Why the step at a position fails.
pub open spec fn step_fault_at(
    steps: Seq<CheckStepView>,
    resolutions: Seq<ResolutionView>,
) -> spec_fn(int) -> Option<Fault> {
    |i: int| step_fault(checks_at(steps, resolutions, i), steps[i], resolutions)
}

fn take_steps(steps: &Vec<CheckStep>, resolutions: &Vec<Resolution>) -> (r: Result<
    Checks,
    ContractError,
>)
    ensures
        failure(r) == first_index_fault(
            0,
            steps.deep_view().len() as int,
            step_fault_at(steps.deep_view(), resolutions.deep_view()),
        ),
        r matches Ok(checks) ==> checks@ == checks_at(
            steps.deep_view(),
            resolutions.deep_view(),
            steps.deep_view().len() as int,
        ),
{
    let ghost s = steps.deep_view();
    let ghost given = resolutions.deep_view();
    let ghost n = s.len() as int;
    let ghost f = step_fault_at(s, given);
    let mut checks = Checks {
        definitions: Vec::new(),
        adapters: Vec::new(),
        capabilities: Vec::new(),
        required: Vec::new(),
        names: Vec::new(),
        selected_exports: Vec::new(),
        slots: Vec::new(),
    };
    assert(checks@ =~= no_checks());
    let mut i: usize = 0;
    while i < steps.len()
        invariant
            i <= steps.len(),
            s == steps.deep_view(),
            given == resolutions.deep_view(),
            n == steps.len(),
            f == step_fault_at(s, given),
            checks@ == checks_at(s, given, i as int),
            first_index_fault(0, n, f) == first_index_fault(i as int, n, f),
        decreases steps.len() - i,
    {
        assert(s[i as int] == steps@[i as int]@);
        checks = take_step(checks, &steps[i], resolutions)?;
        i = i + 1;
    }
    Ok(checks)
}

/// Why a dependency of a component is not selected.
pub open spec fn dependency_fault(definitions: Seq<DefinitionView>) -> spec_fn(
    ComponentRefView,
) -> Option<Fault> {
    |dependency: ComponentRefView|
        if some_in(definitions, defines_exactly(dependency)) {
            None
        } else {
            fault(ErrorCode::ComponentUnavailable, "component.dependencies")
        }
}

/// Why the dependencies of a component are not all selected.
pub open spec fn dependencies_fault(definitions: Seq<DefinitionView>) -> spec_fn(
    DefinitionView,
) -> Option<Fault> {
    |definition: DefinitionView|
        first_fault(definition.metadata.dependencies, dependency_fault(definitions))
}

/// Capabilities among others.
pub open spec fn is_among(capabilities: Seq<Seq<char>>) -> spec_fn(Seq<char>) -> bool {
    |capability: Seq<char>| capabilities.contains(capability)
}

/// Why the selected components do not work together.
pub open spec fn finish_fault(checks: ChecksView) -> Option<Fault> {
    or_else(
        first_fault(checks.definitions, dependencies_fault(checks.definitions)),
        if every(checks.required, is_among(checks.capabilities)) {
            None
        } else {
            fault(ErrorCode::CapabilityUnsupported, "component.required_capabilities")
        },
    )
}

fn check_dependency(definitions: &Vec<Definition>, dependency: &ComponentRef) -> (r: Result<
    (),
    ContractError,
>)
    ensures
        failure(r) == dependency_fault(definitions.deep_view())(dependency@),
{
    let same = |definition: &Definition| -> (b: bool)
        ensures
            b == defines_exactly(dependency@)(definition@),
    { definition.metadata.reference.same(dependency) };
    if !any(definitions, same, Ghost(defines_exactly(dependency@))) {
        return fail(ErrorCode::ComponentUnavailable, "component.dependencies");
    }
    Ok(())
}

fn check_dependencies(definitions: &Vec<Definition>, definition: &Definition) -> (r: Result<
    (),
    ContractError,
>)
    ensures
        failure(r) == dependencies_fault(definitions.deep_view())(definition@),
{
    let check = |dependency: &ComponentRef| -> (r: Result<(), ContractError>)
        ensures
            failure(r) == dependency_fault(definitions.deep_view())(dependency@),
    { check_dependency(definitions, dependency) };
    check_each(
        &definition.metadata.dependencies,
        check,
        Ghost(dependency_fault(definitions.deep_view())),
    )
}

fn finish(checks: &Checks) -> (r: Result<(), ContractError>)
    ensures
        failure(r) == finish_fault(checks@),
{
    let definitions = &checks.definitions;
    let check = |definition: &Definition| -> (r: Result<(), ContractError>)
        ensures
            failure(r) == dependencies_fault(definitions.deep_view())(definition@),
    { check_dependencies(definitions, definition) };
    check_each(definitions, check, Ghost(dependencies_fault(definitions.deep_view())))?;
    let offered = |capability: &Id| -> (b: bool)
        ensures
            b == is_among(checks@.capabilities)(capability@),
    { contains(&checks.capabilities, capability) };
    if !all(&checks.required, offered, Ghost(is_among(checks@.capabilities))) {
        return fail(ErrorCode::CapabilityUnsupported, "component.required_capabilities");
    }
    Ok(())
}

/// A resolved component, pinned.
pub open spec fn pinned_component() -> spec_fn(DefinitionView) -> ResolvedComponentView {
    |definition: DefinitionView|
        ResolvedComponentView {
            reference: definition.metadata.reference,
            definition_digest: digest_of(component_json(definition.metadata)),
        }
}

/// What validating a profile finds.
pub open spec fn found(profile: AgentProfileView, resolutions: Seq<ResolutionView>) -> ChecksView {
    checks_at(steps_of(profile), resolutions, steps_of(profile).len() as int)
}

/// Why a profile is refused.
pub open spec fn profile_fault(
    profile: AgentProfileView,
    resolutions: Seq<ResolutionView>,
) -> Option<Fault> {
    let steps = steps_of(profile);
    or_else(
        profile.defect,
        or_else(
            first_index_fault(0, steps.len() as int, step_fault_at(steps, resolutions)),
            finish_fault(found(profile, resolutions)),
        ),
    )
}

impl ProfileValidator {
    /// Validate with what looking up components gave.
    pub fn new(resolutions: Vec<Resolution>) -> (r: Self)
        ensures
            r@ == (ProfileValidatorView { resolutions: resolutions.deep_view() }),
    {
        ProfileValidator { resolutions }
    }

    /// Validate a profile before admission, and pin it to its components. No model or tool is run.
    pub fn validate(&self, profile: &AgentProfile, scope: &Scope) -> (r: Result<
        ResolvedProfile,
        ContractError,
    >)
        ensures
            failure(r) == profile_fault(profile@, self@.resolutions),
            r matches Ok(resolved) ==> resolved@ == ResolvedProfile::pinning(
                profile@,
                scope@,
                found(profile@, self@.resolutions).definitions.map_values(pinned_component()),
            ),
    {
        verdict(&profile.defect)?;
        let steps = check_steps(profile);
        let checks = take_steps(&steps, &self.resolutions)?;
        finish(&checks)?;
        let pin = |definition: &Definition| -> (r: ResolvedComponent)
            ensures
                r@ == pinned_component()(definition@),
        {
            ResolvedComponent {
                reference: definition.metadata.reference.copy(),
                definition_digest: definition.metadata.digest(),
            }
        };
        let components = map_each(&checks.definitions, pin, Ghost(pinned_component()));
        Ok(ResolvedProfile::pin(profile, scope, components))
    }
}

/// A definition holds what was asked for, at an exact version.
pub open spec fn is_exact(definition: DefinitionView) -> bool {
    &&& metadata_fault(definition.requested, definition.metadata) is None
    &&& definition.metadata.reference.version is Some
}

proof fn lemma_inserted(definitions: Seq<DefinitionView>, definition: DefinitionView)
    requires
        forall|i: int| 0 <= i < definitions.len() ==> is_exact(#[trigger] definitions[i]),
        is_exact(definition),
    ensures
        forall|i: int|
            0 <= i < inserted(definitions, definition).len() ==> is_exact(
                #[trigger] inserted(definitions, definition)[i],
            ),
    decreases definitions.len(),
{
    if definitions.len() > 0 && !before(definition.requested, definitions[0].requested) {
        let rest = definitions.skip(1);
        assert forall|i: int| 0 <= i < rest.len() implies is_exact(#[trigger] rest[i]) by {
            assert(rest[i] == definitions[i + 1]);
        }
        lemma_inserted(rest, definition);
        let all = inserted(definitions, definition);
        assert forall|i: int| 0 <= i < all.len() implies is_exact(#[trigger] all[i]) by {
            if i > 0 {
                assert(all[i] == inserted(rest, definition)[i - 1]);
            }
        }
    } else {
        let all = inserted(definitions, definition);
        assert forall|i: int| 0 <= i < all.len() implies is_exact(#[trigger] all[i]) by {
            if i > 0 {
                assert(all[i] == definitions[i - 1]);
            }
        }
    }
}

proof fn lemma_resolved_is_exact(
    checks: ChecksView,
    requested: ComponentRefView,
    resolutions: Seq<ResolutionView>,
)
    requires
        forall|i: int|
            0 <= i < checks.definitions.len() ==> is_exact(#[trigger] checks.definitions[i]),
        resolve_fault(checks, requested, resolutions) is None,
    ensures
        ({
            let after = resolved_checks(checks, requested, resolutions);
            forall|i: int|
                0 <= i < after.definitions.len() ==> is_exact(#[trigger] after.definitions[i])
        }),
{
    lemma_first_in(checks.definitions, defines(requested));
    if !some_in(checks.definitions, defines(requested)) {
        let metadata = metadata_of(checks, requested, resolutions);
        lemma_inserted(checks.definitions, DefinitionView { requested, metadata });
    }
}

proof fn lemma_steps_are_exact(
    steps: Seq<CheckStepView>,
    resolutions: Seq<ResolutionView>,
    n: int,
)
    requires
        0 <= n <= steps.len(),
        first_index_fault(0, steps.len() as int, step_fault_at(steps, resolutions)) is None,
    ensures
        ({
            let definitions = checks_at(steps, resolutions, n).definitions;
            forall|i: int| 0 <= i < definitions.len() ==> is_exact(#[trigger] definitions[i])
        }),
    decreases n,
{
    if n > 0 {
        lemma_steps_are_exact(steps, resolutions, n - 1);
        let f = step_fault_at(steps, resolutions);
        lemma_first_index_fault(0, steps.len() as int, f);
        assert(f(n - 1) is None);
        let checks = checks_at(steps, resolutions, n - 1);
        match steps[n - 1] {
            CheckStepView::Component { requested, .. } => {
                lemma_resolved_is_exact(checks, requested, resolutions);
            },
            CheckStepView::Extension { data } => {
                lemma_resolved_is_exact(checks, extension_ref(data), resolutions);
            },
            _ => {},
        }
    }
}

/// Every component that a validated profile is pinned to has an exact version.
pub proof fn law_resolved_components_have_versions(
    profile: AgentProfileView,
    resolutions: Seq<ResolutionView>,
    i: int,
)
    requires
        profile_fault(profile, resolutions) is None,
        0 <= i < found(profile, resolutions).definitions.len(),
    ensures
        found(profile, resolutions).definitions.map_values(
            pinned_component(),
        )[i].reference.version is Some,
{
    let steps = steps_of(profile);
    lemma_steps_are_exact(steps, resolutions, steps.len() as int);
    assert(is_exact(found(profile, resolutions).definitions[i]));
}

/// A validated profile lacks no capability that one of its components requires.
pub proof fn law_required_capabilities_are_offered(
    profile: AgentProfileView,
    resolutions: Seq<ResolutionView>,
    i: int,
)
    requires
        profile_fault(profile, resolutions) is None,
        0 <= i < found(profile, resolutions).required.len(),
    ensures
        found(profile, resolutions).capabilities.contains(found(profile, resolutions).required[i]),
{
    let checks = found(profile, resolutions);
    assert(is_among(checks.capabilities)(checks.required[i]));
}

/// A validated profile is usable for the profile and the scope that it was validated for.
pub proof fn law_validated_profile_matches_itself(
    profile: AgentProfileView,
    scope: ScopeView,
    resolutions: Seq<ResolutionView>,
)
    ensures
        match_fault(
            ResolvedProfile::pinning(
                profile,
                scope,
                found(profile, resolutions).definitions.map_values(pinned_component()),
            ),
            profile,
            scope,
        ) is None,
{
}

/// A version is left open exactly for a model binding or an extension.
pub open spec fn is_regular(requested: ComponentRefView) -> bool {
    requested.version is None <==> requested.kind == ComponentKind::ModelBinding || requested.kind
        == ComponentKind::Extension
}

/// A step asks for what a profile may ask for.
pub open spec fn is_regular_step() -> spec_fn(CheckStepView) -> bool {
    |step: CheckStepView| request_of(step) matches Some(requested) ==> is_regular(requested)
}

/// Definitions of different references, each of which a profile may ask for.
pub open spec fn are_apart(definitions: Seq<DefinitionView>) -> bool {
    &&& forall|i: int|
        0 <= i < definitions.len() ==> is_regular((#[trigger] definitions[i]).requested)
    &&& forall|i: int, j: int|
        0 <= i < j < definitions.len() ==> (#[trigger] definitions[i]).requested != (
        #[trigger] definitions[j]).requested
}

proof fn lemma_regular_sources(items: Seq<ContextBindingView>)
    ensures
        every(source_steps(items), is_regular_step()),
    decreases items.len(),
{
    if items.len() > 0 {
        lemma_regular_sources(items.drop_last());
    }
}

proof fn lemma_regular_sum(a: Seq<CheckStepView>, b: Seq<CheckStepView>)
    requires
        every(a, is_regular_step()),
        every(b, is_regular_step()),
    ensures
        every(a + b, is_regular_step()),
{
    assert forall|i: int| 0 <= i < (a + b).len() implies is_regular_step()(
        #[trigger] (a + b)[i],
    ) by {
        if i < a.len() {
            assert((a + b)[i] == a[i]);
        } else {
            assert((a + b)[i] == b[i - a.len()]);
        }
    }
}

proof fn lemma_regular_assets(profile: AgentProfileView)
    ensures
        every(asset_steps(profile), is_regular_step()),
{
    let steps = asset_steps(profile);
    assert forall|i: int| 0 <= i < steps.len() implies is_regular_step()(#[trigger] steps[i]) by {}
}

proof fn lemma_regular_steps(profile: AgentProfileView)
    ensures
        every(steps_of(profile), is_regular_step()),
{
    let first = seq![
        plain_step(
            ComponentRefView {
                kind: ComponentKind::ModelBinding,
                id: profile.model_binding,
                version: None,
            },
        ),
    ];
    let connectors = profile.connectors.map_values(connector_step());
    let adapters = listed(profile.adapters).map_values(adapter_step());
    let tools = profile.tools.map_values(tool_step());
    let skills = profile.skills.map_values(skill_step());
    let sources = source_steps(listed(profile.context_sources));
    let hooks = listed(profile.hooks).map_values(hook_step());
    let assets = asset_steps(profile);
    let extensions = listed(profile.extensions).map_values(
        |data: ExtensionDataView| CheckStepView::Extension { data },
    );
    lemma_regular_sources(listed(profile.context_sources));
    lemma_regular_assets(profile);
    lemma_regular_sum(first, connectors);
    lemma_regular_sum(first + connectors, adapters);
    lemma_regular_sum(first + connectors + adapters, tools);
    lemma_regular_sum(first + connectors + adapters + tools, skills);
    lemma_regular_sum(first + connectors + adapters + tools + skills, sources);
    lemma_regular_sum(first + connectors + adapters + tools + skills + sources, hooks);
    lemma_regular_sum(first + connectors + adapters + tools + skills + sources + hooks, assets);
    lemma_regular_sum(
        first + connectors + adapters + tools + skills + sources + hooks + assets,
        extensions,
    );
}

proof fn lemma_inserted_at(definitions: Seq<DefinitionView>, definition: DefinitionView) -> (k: int)
    ensures
        0 <= k <= definitions.len(),
        inserted(definitions, definition) == definitions.take(k) + seq![definition]
            + definitions.skip(k),
    decreases definitions.len(),
{
    let all = inserted(definitions, definition);
    if definitions.len() == 0 || before(definition.requested, definitions[0].requested) {
        assert(all =~= definitions.take(0) + seq![definition] + definitions.skip(0));
        0
    } else {
        let k = lemma_inserted_at(definitions.skip(1), definition);
        assert(all =~= definitions.take(k + 1) + seq![definition] + definitions.skip(k + 1));
        k + 1
    }
}

proof fn lemma_resolved_are_apart(
    checks: ChecksView,
    requested: ComponentRefView,
    resolutions: Seq<ResolutionView>,
)
    requires
        are_apart(checks.definitions),
        is_regular(requested),
    ensures
        are_apart(resolved_checks(checks, requested, resolutions).definitions),
{
    let definitions = checks.definitions;
    if !some_in(definitions, defines(requested)) {
        let metadata = metadata_of(checks, requested, resolutions);
        let definition = DefinitionView { requested, metadata };
        let k = lemma_inserted_at(definitions, definition);
        let all = inserted(definitions, definition);
        assert forall|i: int| 0 <= i < definitions.len() implies (
        #[trigger] definitions[i]).requested != requested by {
            assert(!defines(requested)(definitions[i]));
        }
        assert forall|i: int| 0 <= i < all.len() implies is_regular(
            (#[trigger] all[i]).requested,
        ) by {
            if i < k {
                assert(all[i] == definitions[i]);
            } else if i > k {
                assert(all[i] == definitions[i - 1]);
            }
        }
        assert forall|i: int, j: int| 0 <= i < j < all.len() implies (#[trigger] all[i]).requested
            != (#[trigger] all[j]).requested by {
            if i < k {
                assert(all[i] == definitions[i]);
            } else if i > k {
                assert(all[i] == definitions[i - 1]);
            }
            if j < k {
                assert(all[j] == definitions[j]);
            } else if j > k {
                assert(all[j] == definitions[j - 1]);
            }
        }
    }
}

proof fn lemma_steps_are_apart(
    steps: Seq<CheckStepView>,
    resolutions: Seq<ResolutionView>,
    n: int,
)
    requires
        0 <= n <= steps.len(),
        every(steps, is_regular_step()),
    ensures
        are_apart(checks_at(steps, resolutions, n).definitions),
    decreases n,
{
    if n > 0 {
        lemma_steps_are_apart(steps, resolutions, n - 1);
        let checks = checks_at(steps, resolutions, n - 1);
        assert(is_regular_step()(steps[n - 1]));
        match steps[n - 1] {
            CheckStepView::Component { requested, .. } => {
                lemma_resolved_are_apart(checks, requested, resolutions);
            },
            CheckStepView::Extension { data } => {
                lemma_resolved_are_apart(checks, extension_ref(data), resolutions);
            },
            _ => {},
        }
    }
}

/// No two components that a validated profile is pinned to have the same reference.
pub proof fn law_resolved_components_are_distinct(
    profile: AgentProfileView,
    resolutions: Seq<ResolutionView>,
    i: int,
    j: int,
)
    requires
        profile_fault(profile, resolutions) is None,
        0 <= i < found(profile, resolutions).definitions.len(),
        0 <= j < found(profile, resolutions).definitions.len(),
        i != j,
    ensures
        ({
            let components = found(profile, resolutions).definitions.map_values(pinned_component());
            components[i].reference != components[j].reference
        }),
{
    let steps = steps_of(profile);
    let n = steps.len() as int;
    lemma_regular_steps(profile);
    lemma_steps_are_exact(steps, resolutions, n);
    lemma_steps_are_apart(steps, resolutions, n);
    let definitions = found(profile, resolutions).definitions;
    assert(is_exact(definitions[i]) && is_exact(definitions[j]));
    assert(is_regular(definitions[i].requested) && is_regular(definitions[j].requested));
    if i < j {
        assert(definitions[i].requested != definitions[j].requested);
    } else {
        assert(definitions[j].requested != definitions[i].requested);
    }
}

/// What validating a profile gives passes for a valid resolution when it is read again.
pub proof fn law_validated_profiles_are_valid(
    profile: AgentProfileView,
    scope: ScopeView,
    resolutions: Seq<ResolutionView>,
)
    requires
        profile_fault(profile, resolutions) is None,
    ensures
        resolved_fault(
            ResolvedProfile::pinning(
                profile,
                scope,
                found(profile, resolutions).definitions.map_values(pinned_component()),
            ),
        ) is None,
{
    let components = found(profile, resolutions).definitions.map_values(pinned_component());
    let n = components.len() as int;
    assert forall|i: int| 0 <= i < n implies #[trigger] component_fault(components)(i) is None by {
        law_resolved_components_have_versions(profile, resolutions, i);
        let earlier = components.take(i);
        assert forall|j: int| 0 <= j < earlier.len() implies !refers_to_component(
            components[i].reference,
        )(#[trigger] earlier[j]) by {
            law_resolved_components_are_distinct(profile, resolutions, i, j);
            assert(earlier[j] == components[j]);
        }
    }
    lemma_no_component_fault(components, 0);
}

proof fn lemma_no_component_fault(components: Seq<ResolvedComponentView>, from: int)
    requires
        0 <= from <= components.len(),
        forall|i: int|
            0 <= i < components.len() ==> #[trigger] component_fault(components)(i) is None,
    ensures
        first_index_fault(from, components.len() as int, component_fault(components)) is None,
    decreases components.len() - from,
{
    if from < components.len() {
        lemma_no_component_fault(components, from + 1);
    }
}

/// What was found is accepted just where it is of the kind and the identifier that were asked for, at
/// an exact version, the asked one where one was asked for, under the contract that is understood,
/// and offers no two exports under one identifier.
pub proof fn law_accepted_definitions_are_what_was_asked_for(
    requested: ComponentRefView,
    metadata: ComponentMetadataView,
)
    ensures
        metadata_fault(requested, metadata) is None <==> {
            &&& metadata.reference.kind == requested.kind
            &&& metadata.reference.id == requested.id
            &&& metadata.reference.version is Some
            &&& requested.version is Some ==> metadata.reference.version == requested.version
            &&& metadata.contract_version == 1
            &&& forall|i: int, j: int|
                0 <= i < j < metadata.exports.len() ==> (#[trigger] metadata.exports[i]).export_id
                    != (#[trigger] metadata.exports[j]).export_id
        },
{
    let exports = metadata.exports;
    let n = exports.len() as int;
    let f = export_fault(exports);
    if first_index_fault(0, n, f) is None {
        lemma_first_index_fault(0, n, f);
        assert forall|i: int, j: int| 0 <= i < j < n implies (#[trigger] exports[i]).export_id != (
        #[trigger] exports[j]).export_id by {
            assert(f(j) is None);
            assert(exports.take(j)[i] == exports[i]);
            assert(!exports_id(exports[j].export_id)(exports.take(j)[i]));
        }
    } else if forall|i: int, j: int|
        0 <= i < j < n ==> (#[trigger] exports[i]).export_id != (#[trigger] exports[j]).export_id {
        assert forall|i: int| 0 <= i < n implies #[trigger] f(i) is None by {
            assert forall|k: int| 0 <= k < i implies !exports_id(exports[i].export_id)(
                #[trigger] exports.take(i)[k],
            ) by {
                assert(exports.take(i)[k] == exports[k]);
            }
        }
        crate::data::lemma_no_index_fault(0, n, f);
    }
}

/// Finding a component adds it and loses none that was found before. Its requirements count from
/// there on, and so does what it offers, except for an adapter, which offers nothing by itself. A
/// component that was found before is not added again.
pub proof fn law_found_components_are_added_once(
    checks: ChecksView,
    requested: ComponentRefView,
    resolutions: Seq<ResolutionView>,
    definition: DefinitionView,
)
    requires
        resolve_fault(checks, requested, resolutions) is None,
    ensures
        ({
            let after = resolved_checks(checks, requested, resolutions);
            let metadata = metadata_of(checks, requested, resolutions);
            let known = exists|i: int|
                0 <= i < checks.definitions.len() && (
                #[trigger] checks.definitions[i]).requested == requested;
            &&& checks.definitions.contains(definition) ==> after.definitions.contains(definition)
            &&& known ==> after == checks
            &&& !known ==> after.definitions.len() == checks.definitions.len() + 1
                && after.definitions.contains(DefinitionView { requested, metadata })
                && after.required == checks.required + metadata.required_capabilities
                && after.capabilities == (if requested.kind == ComponentKind::Adapter {
                checks.capabilities
            } else {
                checks.capabilities + metadata.capabilities
            }) && metadata_fault(requested, metadata) is None
        }),
{
    let definitions = checks.definitions;
    lemma_first_in(definitions, defines(requested));
    if some_in(definitions, defines(requested)) {
        let i = choose|i: int|
            0 <= i < definitions.len() && defines(requested)(#[trigger] definitions[i]);
        assert(definitions[i].requested == requested);
    } else {
        assert forall|i: int| 0 <= i < definitions.len() implies (
        #[trigger] definitions[i]).requested != requested by {
            assert(!defines(requested)(definitions[i]));
        }
        let metadata = metadata_of(checks, requested, resolutions);
        let added = DefinitionView { requested, metadata };
        let k = lemma_inserted_at(definitions, added);
        let all = inserted(definitions, added);
        assert(all[k] == added);
        if definitions.contains(definition) {
            let i = choose|i: int| 0 <= i < definitions.len() && definitions[i] == definition;
            let m = if i < k {
                i
            } else {
                i + 1
            };
            assert(all[m] == definition);
        }
    }
}

/// A connection of a name is given.
pub open spec fn is_given(connections: Seq<ConnectionRefView>, name: Seq<char>) -> bool {
    exists|k: int| 0 <= k < connections.len() && (#[trigger] connections[k]).name == name
}

/// A component fits where its configuration suits its schema and every connection that it requires is
/// given by name. A connection that it does not require does no harm.
pub proof fn law_required_connections_are_given(
    metadata: ComponentMetadataView,
    config: Option<Seq<MemberView>>,
    connections: Seq<ConnectionRefView>,
)
    ensures
        fitting_fault(metadata, config, Some(connections)) is None <==> configuration_fault(
            metadata.config_schema,
            config_json(config),
        ) is None && (forall|i: int|
            0 <= i < metadata.required_connections.len() ==> is_given(
                connections,
                #[trigger] metadata.required_connections[i],
            )),
        fitting_fault(metadata, config, None) is None ==> fitting_fault(
            metadata,
            config,
            Some(connections),
        ) is None,
{
    let names = metadata.required_connections;
    let p = lacks(Some(connections));
    if some_in(names, p) {
        let i = choose|i: int| 0 <= i < names.len() && p(#[trigger] names[i]);
        assert forall|k: int| 0 <= k < connections.len() implies (#[trigger] connections[k]).name
            != names[i] by {
            assert(!connects(names[i])(connections[k]));
        }
        assert(!is_given(connections, names[i]));
        let none = lacks(None::<Seq<ConnectionRefView>>);
        assert(none(names[i]));
    } else {
        assert forall|i: int| 0 <= i < names.len() implies is_given(
            connections,
            #[trigger] names[i],
        ) by {
            assert(!p(names[i]));
            let k = choose|k: int|
                0 <= k < connections.len() && connects(names[i])(#[trigger] connections[k]);
            assert(connections[k].name == names[i]);
        }
    }
}

/// A binding names the adapter that took it last, and no adapter takes the binding of another.
pub proof fn law_a_binding_names_its_latest_adapter(
    checks: ChecksView,
    metadata: ComponentMetadataView,
    binding_id: Seq<char>,
    other: Seq<char>,
)
    ensures
        ({
            let after = placed(checks, metadata, AfterwardsView::Adapter { binding_id });
            &&& adapter_of(after, binding_id) == Some(BoundAdapterView { binding_id, metadata })
            &&& other != binding_id ==> adapter_of(after, other) == adapter_of(checks, other)
        }),
{
    let after = placed(checks, metadata, AfterwardsView::Adapter { binding_id });
    assert(after.adapters.drop_last() =~= checks.adapters);
    assert(after.adapters.last() == (BoundAdapterView { binding_id, metadata }));
}

/// A selected export is one that the named adapter offers, under the contract that is understood, of
/// the kind that its place asks for. A tool goes by its alias where it has one and by its own name
/// otherwise; nothing but a tool has an alias; and only a context source is selected twice.
pub proof fn law_selected_exports_are_offered(
    checks: ChecksView,
    reference: ExportRefView,
    kind: ExportKind,
)
    requires
        selection_fault(checks, reference, kind) is None,
    ensures
        ({
            let adapter = adapter_of(checks, reference.adapter_binding);
            let export = export_of(adapter->Some_0, reference.export_id);
            let after = selected(checks, reference, kind);
            &&& adapter is Some
            &&& export is Some
            &&& adapter->Some_0.metadata.exports.contains(export->Some_0)
            &&& export->Some_0.export_id == reference.export_id
            &&& export->Some_0.kind == kind
            &&& export->Some_0.contract_version == 1
            &&& kind != ExportKind::ContextSource ==> !checks.selected_exports.contains(
                selection_of(reference),
            )
            &&& after.selected_exports.contains(selection_of(reference))
            &&& kind == ExportKind::Tool ==> after.names.len() == checks.names.len() + 1
                && !checks.names.contains(after.names.last()) && Some(after.names.last()) == (
            if reference.alias is Some {
                reference.alias
            } else {
                export->Some_0.model_name
            })
            &&& kind != ExportKind::Tool ==> reference.alias is None && after.names == checks.names
            &&& kind == ExportKind::Hook ==> export->Some_0.hook_position is Some
            &&& after.capabilities == checks.capabilities + export->Some_0.capabilities
            &&& after.required == checks.required + export->Some_0.required_capabilities
        }),
{
    let adapter = adapter_of(checks, reference.adapter_binding)->Some_0;
    lemma_first_in(adapter.metadata.exports, exports_id(reference.export_id));
    let after = selected(checks, reference, kind);
    assert(after.selected_exports.last() == selection_of(reference));
}

proof fn lemma_named_apart(steps: Seq<CheckStepView>, resolutions: Seq<ResolutionView>, n: int)
    requires
        0 <= n <= steps.len(),
        first_index_fault(0, steps.len() as int, step_fault_at(steps, resolutions)) is None,
    ensures
        crate::data::distinct(checks_at(steps, resolutions, n).names),
        crate::data::distinct(checks_at(steps, resolutions, n).slots),
    decreases n,
{
    if n > 0 {
        lemma_named_apart(steps, resolutions, n - 1);
        let f = step_fault_at(steps, resolutions);
        lemma_first_index_fault(0, steps.len() as int, f);
        assert(f(n - 1) is None);
        let checks = checks_at(steps, resolutions, n - 1);
        let after = checks_at(steps, resolutions, n);
        assert(after == after_step(checks, steps[n - 1], resolutions));
        if after.names != checks.names {
            assert(after.names.drop_last() =~= checks.names);
            assert(!checks.names.contains(after.names.last()));
            assert forall|i: int, j: int| 0 <= i < j < after.names.len() implies after.names[i]
                != after.names[j] by {
                assert(after.names[i] == checks.names[i]);
                if j < checks.names.len() {
                    assert(after.names[j] == checks.names[j]);
                }
            }
        }
        if after.slots != checks.slots {
            assert(after.slots.drop_last() =~= checks.slots);
            assert(!checks.slots.contains(after.slots.last()));
            assert forall|i: int, j: int| 0 <= i < j < after.slots.len() implies after.slots[i]
                != after.slots[j] by {
                assert(after.slots[i] == checks.slots[i]);
                if j < checks.slots.len() {
                    assert(after.slots[j] == checks.slots[j]);
                }
            }
        }
    }
}

/// In a validated profile no two tools have one name, and no source fills a slot twice.
pub proof fn law_validated_profiles_are_unambiguous(
    profile: AgentProfileView,
    resolutions: Seq<ResolutionView>,
)
    requires
        profile_fault(profile, resolutions) is None,
    ensures
        crate::data::distinct(found(profile, resolutions).names),
        crate::data::distinct(found(profile, resolutions).slots),
{
    let steps = steps_of(profile);
    lemma_named_apart(steps, resolutions, steps.len() as int);
}

/// In a validated profile every component that another one depends on is among those that were found.
pub proof fn law_dependencies_are_found(
    profile: AgentProfileView,
    resolutions: Seq<ResolutionView>,
    i: int,
    k: int,
)
    requires
        profile_fault(profile, resolutions) is None,
        0 <= i < found(profile, resolutions).definitions.len(),
        0 <= k < found(profile, resolutions).definitions[i].metadata.dependencies.len(),
    ensures
        exists|d: int|
            0 <= d < found(profile, resolutions).definitions.len() && (#[trigger] found(
                profile,
                resolutions,
            ).definitions[d]).metadata.reference == found(
                profile,
                resolutions,
            ).definitions[i].metadata.dependencies[k],
{
    let definitions = found(profile, resolutions).definitions;
    crate::data::lemma_first_fault(definitions, dependencies_fault(definitions));
    assert(dependencies_fault(definitions)(definitions[i]) is None);
    let dependencies = definitions[i].metadata.dependencies;
    crate::data::lemma_first_fault(dependencies, dependency_fault(definitions));
    assert(dependency_fault(definitions)(dependencies[k]) is None);
    let d = choose|d: int|
        0 <= d < definitions.len() && defines_exactly(dependencies[k])(#[trigger] definitions[d]);
    assert(definitions[d].metadata.reference == dependencies[k]);
}

/// The connectors, adapters, tools and skills that a profile names are asked for, at the versions that
/// it names; its model binding is asked for at none.
pub proof fn law_named_components_are_asked_for(profile: AgentProfileView, i: int)
    ensures
        ({
            let steps = steps_of(profile);
            let n = profile.connectors.len() as int;
            let a = listed(profile.adapters).len() as int;
            let t = profile.tools.len() as int;
            &&& steps.len() > 0 && request_of(steps[0]) == Some(
                ComponentRefView {
                    kind: ComponentKind::ModelBinding,
                    id: profile.model_binding,
                    version: None,
                },
            )
            &&& 0 <= i < n ==> request_of(steps[1 + i]) == Some(
                ComponentRefView {
                    kind: ComponentKind::Connector,
                    id: profile.connectors[i].connector_id,
                    version: Some(profile.connectors[i].version),
                },
            )
            &&& 0 <= i < a ==> request_of(steps[1 + n + i]) == Some(
                ComponentRefView {
                    kind: ComponentKind::Adapter,
                    id: listed(profile.adapters)[i].adapter_id,
                    version: Some(listed(profile.adapters)[i].version),
                },
            )
            &&& 0 <= i < t ==> match profile.tools[i] {
                ToolBindingRefView::Catalog(item) => request_of(steps[1 + n + a + i]) == Some(
                    ComponentRefView {
                        kind: ComponentKind::Tool,
                        id: item.tool_id,
                        version: Some(item.version),
                    },
                ),
                ToolBindingRefView::Export(item) => steps[1 + n + a + i] == (
                CheckStepView::Export { reference: item, kind: ExportKind::Tool }),
            }
            &&& 0 <= i < profile.skills.len() ==> request_of(steps[1 + n + a + t + i]) == Some(
                ComponentRefView {
                    kind: ComponentKind::Skill,
                    id: profile.skills[i].skill_id,
                    version: Some(profile.skills[i].version),
                },
            )
        }),
{
    let first = seq![
        plain_step(
            ComponentRefView {
                kind: ComponentKind::ModelBinding,
                id: profile.model_binding,
                version: None,
            },
        ),
    ];
    let connectors = profile.connectors.map_values(connector_step());
    let adapters = listed(profile.adapters).map_values(adapter_step());
    let tools = profile.tools.map_values(tool_step());
    let skills = profile.skills.map_values(skill_step());
    let front = first + connectors + adapters + tools + skills;
    let steps = steps_of(profile);
    assert(steps.take(front.len() as int) =~= front);
    assert forall|k: int| 0 <= k < front.len() implies steps[k] == #[trigger] front[k] by {
        assert(steps.take(front.len() as int)[k] == front[k]);
    }
    let n = profile.connectors.len() as int;
    let a = listed(profile.adapters).len() as int;
    let t = profile.tools.len() as int;
    assert(front[0] == first[0]);
    if 0 <= i < n {
        assert(front[1 + i] == connectors[i]);
    }
    if 0 <= i < a {
        assert(front[1 + n + i] == adapters[i]);
    }
    if 0 <= i < t {
        assert(front[1 + n + a + i] == tools[i]);
    }
    if 0 <= i < profile.skills.len() {
        assert(front[1 + n + a + t + i] == skills[i]);
    }
}

} // verus!
