//! Context items, the sources that provide them and the fragments they are tracked by.
use vstd::prelude::*;

use crate::content::InputContent;
#[allow(unused_imports)]
use crate::content::InputContentView;
use crate::data::{map_each, Data};
use crate::encoding::{
    encode_input, encode_scope, encode_versioned, no_members, number, with_member, with_some,
};
#[allow(unused_imports)]
use crate::encoding::{input_json, scope_json, some_member, versioned_json};
use crate::error::{fail, ContractError, ErrorCode};
#[allow(unused_imports)]
use crate::error::{failure, fault, Fault};
use crate::json::Json;
#[allow(unused_imports)]
use crate::json::{JsonView, MemberView};
use crate::refs::{RecordRef, Scope, VersionedRef};
#[allow(unused_imports)]
use crate::refs::{RecordRefView, ScopeView, VersionedRefView};
use crate::serialization::{canonical_digest, Id, JsonDigest};
#[allow(unused_imports)]
use crate::serialization::digest_of;
#[allow(unused_imports)]
use crate::text::decimal_text;

verus! {

/// When a source is asked.
#[derive(Debug, Clone, Copy, PartialEq, Eq, Structural)]
pub enum ContextTrigger {
    RunStart,
    BeforeModel,
}

impl View for ContextTrigger {
    type V = ContextTrigger;

    open spec fn view(&self) -> ContextTrigger {
        *self
    }
}

impl DeepView for ContextTrigger {
    type V = ContextTrigger;

    open spec fn deep_view(&self) -> ContextTrigger {
        *self
    }
}

impl Data for ContextTrigger {
    fn same(&self, other: &Self) -> (r: bool) {
        *self == *other
    }

    fn copy(&self) -> (r: Self) {
        *self
    }
}

/// Where context came from.
#[derive(Debug, Clone, Copy, PartialEq, Eq, Structural)]
pub enum ContextOrigin {
    Application,
    Retrieval,
    Memory,
    Hook,
    Skill,
    Compaction,
}

impl View for ContextOrigin {
    type V = ContextOrigin;

    open spec fn view(&self) -> ContextOrigin {
        *self
    }
}

impl DeepView for ContextOrigin {
    type V = ContextOrigin;

    open spec fn deep_view(&self) -> ContextOrigin {
        *self
    }
}

impl Data for ContextOrigin {
    fn same(&self, other: &Self) -> (r: bool) {
        *self == *other
    }

    fn copy(&self) -> (r: Self) {
        *self
    }
}

/// Whether context may be dropped to fit a budget.
#[derive(Debug, Clone, Copy, PartialEq, Eq, Structural)]
pub enum ContextPriority {
    Required,
    Preferred,
    Optional,
}

impl View for ContextPriority {
    type V = ContextPriority;

    open spec fn view(&self) -> ContextPriority {
        *self
    }
}

impl DeepView for ContextPriority {
    type V = ContextPriority;

    open spec fn deep_view(&self) -> ContextPriority {
        *self
    }
}

impl Data for ContextPriority {
    fn same(&self, other: &Self) -> (r: bool) {
        *self == *other
    }

    fn copy(&self) -> (r: Self) {
        *self
    }
}

/// How long context stays usable.
#[derive(Debug)]
pub enum ContextLifetime {
    Session {
        session_id: Id,
    },
    Run {
        run_id: Id,
    },
    Step {
        run_id: Id,
        model_step_id: Id,
    },
}

#[verifier::ext_equal]
pub enum ContextLifetimeView {
    Session {
        session_id: Seq<char>,
    },
    Run {
        run_id: Seq<char>,
    },
    Step {
        run_id: Seq<char>,
        model_step_id: Seq<char>,
    },
}

impl View for ContextLifetime {
    type V = ContextLifetimeView;

    open spec fn view(&self) -> ContextLifetimeView {
        match self {
            ContextLifetime::Session { session_id } => ContextLifetimeView::Session { session_id: session_id.deep_view() },
            ContextLifetime::Run { run_id } => ContextLifetimeView::Run { run_id: run_id.deep_view() },
            ContextLifetime::Step { run_id, model_step_id } => ContextLifetimeView::Step { run_id: run_id.deep_view(), model_step_id: model_step_id.deep_view() },
        }
    }
}

impl DeepView for ContextLifetime {
    type V = ContextLifetimeView;

    open spec fn deep_view(&self) -> ContextLifetimeView {
        self@
    }
}

impl Data for ContextLifetime {
    fn same(&self, other: &Self) -> (r: bool) {
        match (self, other) {
            (ContextLifetime::Session { session_id: session_id1 }, ContextLifetime::Session { session_id: session_id2 }) => session_id1.same(session_id2),
            (ContextLifetime::Run { run_id: run_id1 }, ContextLifetime::Run { run_id: run_id2 }) => run_id1.same(run_id2),
            (ContextLifetime::Step { run_id: run_id1, model_step_id: model_step_id1 }, ContextLifetime::Step { run_id: run_id2, model_step_id: model_step_id2 }) => run_id1.same(run_id2) && model_step_id1.same(model_step_id2),
            _ => false,
        }
    }

    fn copy(&self) -> (r: Self) {
        match self {
            ContextLifetime::Session { session_id } => ContextLifetime::Session { session_id: session_id.copy() },
            ContextLifetime::Run { run_id } => ContextLifetime::Run { run_id: run_id.copy() },
            ContextLifetime::Step { run_id, model_step_id } => ContextLifetime::Step { run_id: run_id.copy(), model_step_id: model_step_id.copy() },
        }
    }
}

/// One piece of context, with the version that names its content.
#[derive(Debug)]
pub struct ContextItem {
    pub item_id: Id,
    pub origin: ContextOrigin,
    pub source_ref: VersionedRef,
    pub scope: Scope,
    pub content: Vec<InputContent>,
    pub lifetime: ContextLifetime,
    pub priority_class: ContextPriority,
    pub version: JsonDigest,
}

#[verifier::ext_equal]
pub struct ContextItemView {
    pub item_id: Seq<char>,
    pub origin: ContextOrigin,
    pub source_ref: VersionedRefView,
    pub scope: ScopeView,
    pub content: Seq<InputContentView>,
    pub lifetime: ContextLifetimeView,
    pub priority_class: ContextPriority,
    pub version: Seq<char>,
}

impl View for ContextItem {
    type V = ContextItemView;

    open spec fn view(&self) -> ContextItemView {
        ContextItemView {
            item_id: self.item_id.deep_view(),
            origin: self.origin.deep_view(),
            source_ref: self.source_ref.deep_view(),
            scope: self.scope.deep_view(),
            content: self.content.deep_view(),
            lifetime: self.lifetime.deep_view(),
            priority_class: self.priority_class.deep_view(),
            version: self.version.deep_view(),
        }
    }
}

impl DeepView for ContextItem {
    type V = ContextItemView;

    open spec fn deep_view(&self) -> ContextItemView {
        self@
    }
}

impl Data for ContextItem {
    fn same(&self, other: &Self) -> (r: bool) {
        self.item_id.same(&other.item_id)
            && self.origin.same(&other.origin)
            && self.source_ref.same(&other.source_ref)
            && self.scope.same(&other.scope)
            && self.content.same(&other.content)
            && self.lifetime.same(&other.lifetime)
            && self.priority_class.same(&other.priority_class)
            && self.version.same(&other.version)
    }

    fn copy(&self) -> (r: Self) {
        ContextItem {
            item_id: self.item_id.copy(),
            origin: self.origin.copy(),
            source_ref: self.source_ref.copy(),
            scope: self.scope.copy(),
            content: self.content.copy(),
            lifetime: self.lifetime.copy(),
            priority_class: self.priority_class.copy(),
            version: self.version.copy(),
        }
    }
}

/// A source of the component catalog.
#[derive(Debug)]
pub struct CatalogSource {
    pub source_id: Id,
    pub version: Id,
}

#[verifier::ext_equal]
pub struct CatalogSourceView {
    pub source_id: Seq<char>,
    pub version: Seq<char>,
}

impl View for CatalogSource {
    type V = CatalogSourceView;

    open spec fn view(&self) -> CatalogSourceView {
        CatalogSourceView {
            source_id: self.source_id.deep_view(),
            version: self.version.deep_view(),
        }
    }
}

impl DeepView for CatalogSource {
    type V = CatalogSourceView;

    open spec fn deep_view(&self) -> CatalogSourceView {
        self@
    }
}

impl Data for CatalogSource {
    fn same(&self, other: &Self) -> (r: bool) {
        self.source_id.same(&other.source_id)
            && self.version.same(&other.version)
    }

    fn copy(&self) -> (r: Self) {
        CatalogSource {
            source_id: self.source_id.copy(),
            version: self.version.copy(),
        }
    }
}

/// A component that an adapter exports.
#[derive(Debug)]
pub struct ExportRef {
    pub adapter_binding: Id,
    pub export_id: Id,
    pub alias: Option<Id>,
}

#[verifier::ext_equal]
pub struct ExportRefView {
    pub adapter_binding: Seq<char>,
    pub export_id: Seq<char>,
    pub alias: Option<Seq<char>>,
}

impl View for ExportRef {
    type V = ExportRefView;

    open spec fn view(&self) -> ExportRefView {
        ExportRefView {
            adapter_binding: self.adapter_binding.deep_view(),
            export_id: self.export_id.deep_view(),
            alias: self.alias.deep_view(),
        }
    }
}

impl DeepView for ExportRef {
    type V = ExportRefView;

    open spec fn deep_view(&self) -> ExportRefView {
        self@
    }
}

impl Data for ExportRef {
    fn same(&self, other: &Self) -> (r: bool) {
        self.adapter_binding.same(&other.adapter_binding)
            && self.export_id.same(&other.export_id)
            && self.alias.same(&other.alias)
    }

    fn copy(&self) -> (r: Self) {
        ExportRef {
            adapter_binding: self.adapter_binding.copy(),
            export_id: self.export_id.copy(),
            alias: self.alias.copy(),
        }
    }
}

/// How a profile names a source.
#[derive(Debug)]
pub enum ContextSourceRef {
    Catalog(CatalogSource),
    Export(ExportRef),
}

#[verifier::ext_equal]
pub enum ContextSourceRefView {
    Catalog(CatalogSourceView),
    Export(ExportRefView),
}

impl View for ContextSourceRef {
    type V = ContextSourceRefView;

    open spec fn view(&self) -> ContextSourceRefView {
        match self {
            ContextSourceRef::Catalog(a) => ContextSourceRefView::Catalog(a.deep_view()),
            ContextSourceRef::Export(a) => ContextSourceRefView::Export(a.deep_view()),
        }
    }
}

impl DeepView for ContextSourceRef {
    type V = ContextSourceRefView;

    open spec fn deep_view(&self) -> ContextSourceRefView {
        self@
    }
}

impl Data for ContextSourceRef {
    fn same(&self, other: &Self) -> (r: bool) {
        match (self, other) {
            (ContextSourceRef::Catalog(a1), ContextSourceRef::Catalog(a2)) => a1.same(a2),
            (ContextSourceRef::Export(a1), ContextSourceRef::Export(a2)) => a1.same(a2),
            _ => false,
        }
    }

    fn copy(&self) -> (r: Self) {
        match self {
            ContextSourceRef::Catalog(a) => ContextSourceRef::Catalog(a.copy()),
            ContextSourceRef::Export(a) => ContextSourceRef::Export(a.copy()),
        }
    }
}

/// One source slot of a profile.
#[derive(Debug)]
pub struct ContextBinding {
    pub source: ContextSourceRef,
    pub trigger: ContextTrigger,
    pub required: bool,
    pub timeout_ms: u64,
    pub max_items: u64,
    pub max_bytes: u64,
    pub max_tokens: u64,
}

#[verifier::ext_equal]
pub struct ContextBindingView {
    pub source: ContextSourceRefView,
    pub trigger: ContextTrigger,
    pub required: bool,
    pub timeout_ms: u64,
    pub max_items: u64,
    pub max_bytes: u64,
    pub max_tokens: u64,
}

impl View for ContextBinding {
    type V = ContextBindingView;

    open spec fn view(&self) -> ContextBindingView {
        ContextBindingView {
            source: self.source.deep_view(),
            trigger: self.trigger.deep_view(),
            required: self.required.deep_view(),
            timeout_ms: self.timeout_ms.deep_view(),
            max_items: self.max_items.deep_view(),
            max_bytes: self.max_bytes.deep_view(),
            max_tokens: self.max_tokens.deep_view(),
        }
    }
}

impl DeepView for ContextBinding {
    type V = ContextBindingView;

    open spec fn deep_view(&self) -> ContextBindingView {
        self@
    }
}

impl Data for ContextBinding {
    fn same(&self, other: &Self) -> (r: bool) {
        self.source.same(&other.source)
            && self.trigger.same(&other.trigger)
            && self.required.same(&other.required)
            && self.timeout_ms.same(&other.timeout_ms)
            && self.max_items.same(&other.max_items)
            && self.max_bytes.same(&other.max_bytes)
            && self.max_tokens.same(&other.max_tokens)
    }

    fn copy(&self) -> (r: Self) {
        ContextBinding {
            source: self.source.copy(),
            trigger: self.trigger.copy(),
            required: self.required.copy(),
            timeout_ms: self.timeout_ms.copy(),
            max_items: self.max_items.copy(),
            max_bytes: self.max_bytes.copy(),
            max_tokens: self.max_tokens.copy(),
        }
    }
}

/// What a source registers itself as.
#[derive(Debug)]
pub struct ContextSourceDefinition {
    pub source: VersionedRef,
    pub origin: ContextOrigin,
    /// The encoded definition.
    pub document: Json,
    /// What structural validation of the definition reported.
    pub defect: Option<ContractError>,
}

#[verifier::ext_equal]
pub struct ContextSourceDefinitionView {
    pub source: VersionedRefView,
    pub origin: ContextOrigin,
    pub document: JsonView,
    pub defect: Option<Fault>,
}

impl View for ContextSourceDefinition {
    type V = ContextSourceDefinitionView;

    open spec fn view(&self) -> ContextSourceDefinitionView {
        ContextSourceDefinitionView {
            source: self.source.deep_view(),
            origin: self.origin.deep_view(),
            document: self.document.deep_view(),
            defect: self.defect.deep_view(),
        }
    }
}

impl DeepView for ContextSourceDefinition {
    type V = ContextSourceDefinitionView;

    open spec fn deep_view(&self) -> ContextSourceDefinitionView {
        self@
    }
}

impl Data for ContextSourceDefinition {
    fn same(&self, other: &Self) -> (r: bool) {
        self.source.same(&other.source)
            && self.origin.same(&other.origin)
            && self.document.same(&other.document)
            && self.defect.same(&other.defect)
    }

    fn copy(&self) -> (r: Self) {
        ContextSourceDefinition {
            source: self.source.copy(),
            origin: self.origin.copy(),
            document: self.document.copy(),
            defect: self.defect.copy(),
        }
    }
}

/// A source slot with the definition that serves it.
#[derive(Debug)]
pub struct PlannedContextSource {
    pub binding: ContextBinding,
    pub definition: ContextSourceDefinition,
}

#[verifier::ext_equal]
pub struct PlannedContextSourceView {
    pub binding: ContextBindingView,
    pub definition: ContextSourceDefinitionView,
}

impl View for PlannedContextSource {
    type V = PlannedContextSourceView;

    open spec fn view(&self) -> PlannedContextSourceView {
        PlannedContextSourceView {
            binding: self.binding.deep_view(),
            definition: self.definition.deep_view(),
        }
    }
}

impl DeepView for PlannedContextSource {
    type V = PlannedContextSourceView;

    open spec fn deep_view(&self) -> PlannedContextSourceView {
        self@
    }
}

impl Data for PlannedContextSource {
    fn same(&self, other: &Self) -> (r: bool) {
        self.binding.same(&other.binding)
            && self.definition.same(&other.definition)
    }

    fn copy(&self) -> (r: Self) {
        PlannedContextSource {
            binding: self.binding.copy(),
            definition: self.definition.copy(),
        }
    }
}

/// The active answer of one source slot.
#[derive(Debug)]
pub struct SourceExecutionState {
    pub source: ContextSourceRef,
    pub context_request_id: Id,
    pub trigger: ContextTrigger,
    pub model_step_id: Option<Id>,
    pub batch_ref: RecordRef,
}

#[verifier::ext_equal]
pub struct SourceExecutionStateView {
    pub source: ContextSourceRefView,
    pub context_request_id: Seq<char>,
    pub trigger: ContextTrigger,
    pub model_step_id: Option<Seq<char>>,
    pub batch_ref: RecordRefView,
}

impl View for SourceExecutionState {
    type V = SourceExecutionStateView;

    open spec fn view(&self) -> SourceExecutionStateView {
        SourceExecutionStateView {
            source: self.source.deep_view(),
            context_request_id: self.context_request_id.deep_view(),
            trigger: self.trigger.deep_view(),
            model_step_id: self.model_step_id.deep_view(),
            batch_ref: self.batch_ref.deep_view(),
        }
    }
}

impl DeepView for SourceExecutionState {
    type V = SourceExecutionStateView;

    open spec fn deep_view(&self) -> SourceExecutionStateView {
        self@
    }
}

impl Data for SourceExecutionState {
    fn same(&self, other: &Self) -> (r: bool) {
        self.source.same(&other.source)
            && self.context_request_id.same(&other.context_request_id)
            && self.trigger.same(&other.trigger)
            && self.model_step_id.same(&other.model_step_id)
            && self.batch_ref.same(&other.batch_ref)
    }

    fn copy(&self) -> (r: Self) {
        SourceExecutionState {
            source: self.source.copy(),
            context_request_id: self.context_request_id.copy(),
            trigger: self.trigger.copy(),
            model_step_id: self.model_step_id.copy(),
            batch_ref: self.batch_ref.copy(),
        }
    }
}

/// An immutable origin of model-visible content.
#[derive(Debug)]
pub struct ContextLineage {
    pub run_id: Id,
    pub batch_ref: RecordRef,
    pub item_id: Id,
    pub item_version: JsonDigest,
}

#[verifier::ext_equal]
pub struct ContextLineageView {
    pub run_id: Seq<char>,
    pub batch_ref: RecordRefView,
    pub item_id: Seq<char>,
    pub item_version: Seq<char>,
}

impl View for ContextLineage {
    type V = ContextLineageView;

    open spec fn view(&self) -> ContextLineageView {
        ContextLineageView {
            run_id: self.run_id.deep_view(),
            batch_ref: self.batch_ref.deep_view(),
            item_id: self.item_id.deep_view(),
            item_version: self.item_version.deep_view(),
        }
    }
}

impl DeepView for ContextLineage {
    type V = ContextLineageView;

    open spec fn deep_view(&self) -> ContextLineageView {
        self@
    }
}

impl Data for ContextLineage {
    fn same(&self, other: &Self) -> (r: bool) {
        self.run_id.same(&other.run_id)
            && self.batch_ref.same(&other.batch_ref)
            && self.item_id.same(&other.item_id)
            && self.item_version.same(&other.item_version)
    }

    fn copy(&self) -> (r: Self) {
        ContextLineage {
            run_id: self.run_id.copy(),
            batch_ref: self.batch_ref.copy(),
            item_id: self.item_id.copy(),
            item_version: self.item_version.copy(),
        }
    }
}

/// Who owns a fragment.
#[derive(Debug)]
pub enum FragmentOwner {
    Run {
        run_id: Id,
    },
    Session {
        session_id: Id,
    },
}

#[verifier::ext_equal]
pub enum FragmentOwnerView {
    Run {
        run_id: Seq<char>,
    },
    Session {
        session_id: Seq<char>,
    },
}

impl View for FragmentOwner {
    type V = FragmentOwnerView;

    open spec fn view(&self) -> FragmentOwnerView {
        match self {
            FragmentOwner::Run { run_id } => FragmentOwnerView::Run { run_id: run_id.deep_view() },
            FragmentOwner::Session { session_id } => FragmentOwnerView::Session { session_id: session_id.deep_view() },
        }
    }
}

impl DeepView for FragmentOwner {
    type V = FragmentOwnerView;

    open spec fn deep_view(&self) -> FragmentOwnerView {
        self@
    }
}

impl Data for FragmentOwner {
    fn same(&self, other: &Self) -> (r: bool) {
        match (self, other) {
            (FragmentOwner::Run { run_id: run_id1 }, FragmentOwner::Run { run_id: run_id2 }) => run_id1.same(run_id2),
            (FragmentOwner::Session { session_id: session_id1 }, FragmentOwner::Session { session_id: session_id2 }) => session_id1.same(session_id2),
            _ => false,
        }
    }

    fn copy(&self) -> (r: Self) {
        match self {
            FragmentOwner::Run { run_id } => FragmentOwner::Run { run_id: run_id.copy() },
            FragmentOwner::Session { session_id } => FragmentOwner::Session { session_id: session_id.copy() },
        }
    }
}

/// Stable identity of a fragment across revisions.
#[derive(Debug)]
pub struct FragmentIdentity {
    pub scope: Scope,
    pub owner: FragmentOwner,
    pub producer_id: Id,
    pub fragment_id: Id,
}

#[verifier::ext_equal]
pub struct FragmentIdentityView {
    pub scope: ScopeView,
    pub owner: FragmentOwnerView,
    pub producer_id: Seq<char>,
    pub fragment_id: Seq<char>,
}

impl View for FragmentIdentity {
    type V = FragmentIdentityView;

    open spec fn view(&self) -> FragmentIdentityView {
        FragmentIdentityView {
            scope: self.scope.deep_view(),
            owner: self.owner.deep_view(),
            producer_id: self.producer_id.deep_view(),
            fragment_id: self.fragment_id.deep_view(),
        }
    }
}

impl DeepView for FragmentIdentity {
    type V = FragmentIdentityView;

    open spec fn deep_view(&self) -> FragmentIdentityView {
        self@
    }
}

impl Data for FragmentIdentity {
    fn same(&self, other: &Self) -> (r: bool) {
        self.scope.same(&other.scope)
            && self.owner.same(&other.owner)
            && self.producer_id.same(&other.producer_id)
            && self.fragment_id.same(&other.fragment_id)
    }

    fn copy(&self) -> (r: Self) {
        FragmentIdentity {
            scope: self.scope.copy(),
            owner: self.owner.copy(),
            producer_id: self.producer_id.copy(),
            fragment_id: self.fragment_id.copy(),
        }
    }
}

/// What a fragment revision holds.
#[derive(Debug)]
pub enum FragmentValue {
    Selection {
        status: Id,
        item_ids: Vec<Id>,
    },
    Item {
        item: ContextItem,
    },
    Tombstone {
        reason: Id,
    },
}

#[verifier::ext_equal]
pub enum FragmentValueView {
    Selection {
        status: Seq<char>,
        item_ids: Seq<Seq<char>>,
    },
    Item {
        item: ContextItemView,
    },
    Tombstone {
        reason: Seq<char>,
    },
}

impl View for FragmentValue {
    type V = FragmentValueView;

    open spec fn view(&self) -> FragmentValueView {
        match self {
            FragmentValue::Selection { status, item_ids } => FragmentValueView::Selection { status: status.deep_view(), item_ids: item_ids.deep_view() },
            FragmentValue::Item { item } => FragmentValueView::Item { item: item.deep_view() },
            FragmentValue::Tombstone { reason } => FragmentValueView::Tombstone { reason: reason.deep_view() },
        }
    }
}

impl DeepView for FragmentValue {
    type V = FragmentValueView;

    open spec fn deep_view(&self) -> FragmentValueView {
        self@
    }
}

impl Data for FragmentValue {
    fn same(&self, other: &Self) -> (r: bool) {
        match (self, other) {
            (FragmentValue::Selection { status: status1, item_ids: item_ids1 }, FragmentValue::Selection { status: status2, item_ids: item_ids2 }) => status1.same(status2) && item_ids1.same(item_ids2),
            (FragmentValue::Item { item: item1 }, FragmentValue::Item { item: item2 }) => item1.same(item2),
            (FragmentValue::Tombstone { reason: reason1 }, FragmentValue::Tombstone { reason: reason2 }) => reason1.same(reason2),
            _ => false,
        }
    }

    fn copy(&self) -> (r: Self) {
        match self {
            FragmentValue::Selection { status, item_ids } => FragmentValue::Selection { status: status.copy(), item_ids: item_ids.copy() },
            FragmentValue::Item { item } => FragmentValue::Item { item: item.copy() },
            FragmentValue::Tombstone { reason } => FragmentValue::Tombstone { reason: reason.copy() },
        }
    }
}

/// One issued revision of a fragment.
#[derive(Debug)]
pub struct ContextFragment {
    pub identity: FragmentIdentity,
    pub core_revision: u64,
    pub batch_id: Id,
    pub origin: ContextOrigin,
    pub source_revision: Option<Id>,
    pub value: FragmentValue,
    pub content_digest: JsonDigest,
    /// What structural validation reported when the fragment was decoded.
    pub defect: Option<ContractError>,
}

#[verifier::ext_equal]
pub struct ContextFragmentView {
    pub identity: FragmentIdentityView,
    pub core_revision: u64,
    pub batch_id: Seq<char>,
    pub origin: ContextOrigin,
    pub source_revision: Option<Seq<char>>,
    pub value: FragmentValueView,
    pub content_digest: Seq<char>,
    pub defect: Option<Fault>,
}

impl View for ContextFragment {
    type V = ContextFragmentView;

    open spec fn view(&self) -> ContextFragmentView {
        ContextFragmentView {
            identity: self.identity.deep_view(),
            core_revision: self.core_revision.deep_view(),
            batch_id: self.batch_id.deep_view(),
            origin: self.origin.deep_view(),
            source_revision: self.source_revision.deep_view(),
            value: self.value.deep_view(),
            content_digest: self.content_digest.deep_view(),
            defect: self.defect.deep_view(),
        }
    }
}

impl DeepView for ContextFragment {
    type V = ContextFragmentView;

    open spec fn deep_view(&self) -> ContextFragmentView {
        self@
    }
}

impl Data for ContextFragment {
    fn same(&self, other: &Self) -> (r: bool) {
        self.identity.same(&other.identity)
            && self.core_revision.same(&other.core_revision)
            && self.batch_id.same(&other.batch_id)
            && self.origin.same(&other.origin)
            && self.source_revision.same(&other.source_revision)
            && self.value.same(&other.value)
            && self.content_digest.same(&other.content_digest)
            && self.defect.same(&other.defect)
    }

    fn copy(&self) -> (r: Self) {
        ContextFragment {
            identity: self.identity.copy(),
            core_revision: self.core_revision.copy(),
            batch_id: self.batch_id.copy(),
            origin: self.origin.copy(),
            source_revision: self.source_revision.copy(),
            value: self.value.copy(),
            content_digest: self.content_digest.copy(),
            defect: self.defect.copy(),
        }
    }
}

/// A fragment revision that is due.
#[derive(Debug)]
pub struct FragmentOrder {
    pub identity: FragmentIdentity,
    /// The latest issued revision of this fragment.
    pub previous: Option<u64>,
    pub batch_id: Id,
    pub origin: ContextOrigin,
    pub source_revision: Option<Id>,
    pub value: FragmentValue,
}

#[verifier::ext_equal]
pub struct FragmentOrderView {
    pub identity: FragmentIdentityView,
    pub previous: Option<u64>,
    pub batch_id: Seq<char>,
    pub origin: ContextOrigin,
    pub source_revision: Option<Seq<char>>,
    pub value: FragmentValueView,
}

impl View for FragmentOrder {
    type V = FragmentOrderView;

    open spec fn view(&self) -> FragmentOrderView {
        FragmentOrderView {
            identity: self.identity.deep_view(),
            previous: self.previous.deep_view(),
            batch_id: self.batch_id.deep_view(),
            origin: self.origin.deep_view(),
            source_revision: self.source_revision.deep_view(),
            value: self.value.deep_view(),
        }
    }
}

impl DeepView for FragmentOrder {
    type V = FragmentOrderView;

    open spec fn deep_view(&self) -> FragmentOrderView {
        self@
    }
}

impl Data for FragmentOrder {
    fn same(&self, other: &Self) -> (r: bool) {
        self.identity.same(&other.identity)
            && self.previous.same(&other.previous)
            && self.batch_id.same(&other.batch_id)
            && self.origin.same(&other.origin)
            && self.source_revision.same(&other.source_revision)
            && self.value.same(&other.value)
    }

    fn copy(&self) -> (r: Self) {
        FragmentOrder {
            identity: self.identity.copy(),
            previous: self.previous.copy(),
            batch_id: self.batch_id.copy(),
            origin: self.origin.copy(),
            source_revision: self.source_revision.copy(),
            value: self.value.copy(),
        }
    }
}


/// The encoded trigger.
pub open spec fn trigger_json(v: ContextTrigger) -> JsonView {
    match v {
        ContextTrigger::RunStart => JsonView::Text("run_start"@),
        ContextTrigger::BeforeModel => JsonView::Text("before_model"@),
    }
}

/// Encode the trigger.
pub fn encode_trigger(v: &ContextTrigger) -> (r: Json)
    ensures
        r@ == trigger_json(*v),
{
    match v {
        ContextTrigger::RunStart => crate::json::text("run_start"),
        ContextTrigger::BeforeModel => crate::json::text("before_model"),
    }
}

/// The encoded origin.
pub open spec fn origin_json(v: ContextOrigin) -> JsonView {
    match v {
        ContextOrigin::Application => JsonView::Text("application"@),
        ContextOrigin::Retrieval => JsonView::Text("retrieval"@),
        ContextOrigin::Memory => JsonView::Text("memory"@),
        ContextOrigin::Hook => JsonView::Text("hook"@),
        ContextOrigin::Skill => JsonView::Text("skill"@),
        ContextOrigin::Compaction => JsonView::Text("compaction"@),
    }
}

/// Encode the origin.
pub fn encode_origin(v: &ContextOrigin) -> (r: Json)
    ensures
        r@ == origin_json(*v),
{
    match v {
        ContextOrigin::Application => crate::json::text("application"),
        ContextOrigin::Retrieval => crate::json::text("retrieval"),
        ContextOrigin::Memory => crate::json::text("memory"),
        ContextOrigin::Hook => crate::json::text("hook"),
        ContextOrigin::Skill => crate::json::text("skill"),
        ContextOrigin::Compaction => crate::json::text("compaction"),
    }
}

/// The encoded priority.
pub open spec fn priority_json(v: ContextPriority) -> JsonView {
    match v {
        ContextPriority::Required => JsonView::Text("required"@),
        ContextPriority::Preferred => JsonView::Text("preferred"@),
        ContextPriority::Optional => JsonView::Text("optional"@),
    }
}

/// Encode the priority.
pub fn encode_priority(v: &ContextPriority) -> (r: Json)
    ensures
        r@ == priority_json(*v),
{
    match v {
        ContextPriority::Required => crate::json::text("required"),
        ContextPriority::Preferred => crate::json::text("preferred"),
        ContextPriority::Optional => crate::json::text("optional"),
    }
}

/// The encoded lifetime.
pub open spec fn lifetime_json(v: ContextLifetimeView) -> JsonView {
    match v {
        ContextLifetimeView::Session { session_id } => JsonView::Object(Seq::<MemberView>::empty()
.push(MemberView { key: "kind"@, value: JsonView::Text("session"@) })
.push(MemberView { key: "session_id"@, value: JsonView::Text(session_id) })),
        ContextLifetimeView::Run { run_id } => JsonView::Object(Seq::<MemberView>::empty()
.push(MemberView { key: "kind"@, value: JsonView::Text("run"@) })
.push(MemberView { key: "run_id"@, value: JsonView::Text(run_id) })),
        ContextLifetimeView::Step { run_id, model_step_id } => JsonView::Object(Seq::<MemberView>::empty()
.push(MemberView { key: "kind"@, value: JsonView::Text("step"@) })
.push(MemberView { key: "model_step_id"@, value: JsonView::Text(model_step_id) })
.push(MemberView { key: "run_id"@, value: JsonView::Text(run_id) })),
    }
}

/// Encode the lifetime.
pub fn encode_lifetime(v: &ContextLifetime) -> (r: Json)
    ensures
        r@ == lifetime_json(v@),
{
    match v {
        ContextLifetime::Session { session_id } => {
            let members = no_members();
            let members = with_member(members, "kind", crate::json::text("session"));
            let members = with_member(members, "session_id", crate::json::text(session_id.as_str()));
            crate::json::object(members)
        },
        ContextLifetime::Run { run_id } => {
            let members = no_members();
            let members = with_member(members, "kind", crate::json::text("run"));
            let members = with_member(members, "run_id", crate::json::text(run_id.as_str()));
            crate::json::object(members)
        },
        ContextLifetime::Step { run_id, model_step_id } => {
            let members = no_members();
            let members = with_member(members, "kind", crate::json::text("step"));
            let members = with_member(members, "model_step_id", crate::json::text(model_step_id.as_str()));
            let members = with_member(members, "run_id", crate::json::text(run_id.as_str()));
            crate::json::object(members)
        },
    }
}

/// The encoded name of a catalog source.
pub open spec fn catalog_source_json(v: CatalogSourceView) -> JsonView {
    JsonView::Object(Seq::<MemberView>::empty()
.push(MemberView { key: "source_id"@, value: JsonView::Text(v.source_id) })
.push(MemberView { key: "version"@, value: JsonView::Text(v.version) }))
}

/// Encode the name of a catalog source.
pub fn encode_catalog_source(v: &CatalogSource) -> (r: Json)
    ensures
        r@ == catalog_source_json(v@),
{
    let members = no_members();
    let members = with_member(members, "source_id", crate::json::text(v.source_id.as_str()));
    let members = with_member(members, "version", crate::json::text(v.version.as_str()));
    crate::json::object(members)
}

/// The encoded name of an exported component.
pub open spec fn export_json(v: ExportRefView) -> JsonView {
    JsonView::Object((Seq::<MemberView>::empty()
.push(MemberView { key: "adapter_binding"@, value: JsonView::Text(v.adapter_binding) })
+ some_member("alias"@, match v.alias { Some(x) => Some(JsonView::Text(x)), None => None }))
.push(MemberView { key: "export_id"@, value: JsonView::Text(v.export_id) }))
}

/// Encode the name of an exported component.
pub fn encode_export(v: &ExportRef) -> (r: Json)
    ensures
        r@ == export_json(v@),
{
    let members = no_members();
    let members = with_member(members, "adapter_binding", crate::json::text(v.adapter_binding.as_str()));
    let members = with_some(members, "alias", match &v.alias { Some(x) => Some(crate::json::text(x.as_str())), None => None });
    let members = with_member(members, "export_id", crate::json::text(v.export_id.as_str()));
    crate::json::object(members)
}

/// The encoded name of a source.
pub open spec fn source_ref_json(v: ContextSourceRefView) -> JsonView {
    match v {
        ContextSourceRefView::Catalog(reference) => catalog_source_json(reference),
        ContextSourceRefView::Export(reference) => export_json(reference),
    }
}

/// Encode the name of a source.
pub fn encode_source_ref(v: &ContextSourceRef) -> (r: Json)
    ensures
        r@ == source_ref_json(v@),
{
    match v {
        ContextSourceRef::Catalog(reference) => encode_catalog_source(reference),
        ContextSourceRef::Export(reference) => encode_export(reference),
    }
}

/// The encoded source slot.
pub open spec fn binding_json(v: ContextBindingView) -> JsonView {
    JsonView::Object(Seq::<MemberView>::empty()
.push(MemberView { key: "max_bytes"@, value: JsonView::Number(decimal_text(v.max_bytes as nat)) })
.push(MemberView { key: "max_items"@, value: JsonView::Number(decimal_text(v.max_items as nat)) })
.push(MemberView { key: "max_tokens"@, value: JsonView::Number(decimal_text(v.max_tokens as nat)) })
.push(MemberView { key: "required"@, value: JsonView::Bool(v.required) })
.push(MemberView { key: "source"@, value: source_ref_json(v.source) })
.push(MemberView { key: "timeout_ms"@, value: JsonView::Number(decimal_text(v.timeout_ms as nat)) })
.push(MemberView { key: "trigger"@, value: trigger_json(v.trigger) }))
}

/// Encode the source slot.
pub fn encode_binding(v: &ContextBinding) -> (r: Json)
    ensures
        r@ == binding_json(v@),
{
    let members = no_members();
    let members = with_member(members, "max_bytes", number(v.max_bytes));
    let members = with_member(members, "max_items", number(v.max_items));
    let members = with_member(members, "max_tokens", number(v.max_tokens));
    let members = with_member(members, "required", Json::Bool(v.required));
    let members = with_member(members, "source", encode_source_ref(&v.source));
    let members = with_member(members, "timeout_ms", number(v.timeout_ms));
    let members = with_member(members, "trigger", encode_trigger(&v.trigger));
    crate::json::object(members)
}

/// The encoded context item.
pub open spec fn item_json(v: ContextItemView) -> JsonView {
    JsonView::Object(Seq::<MemberView>::empty()
.push(MemberView { key: "content"@, value: input_json(v.content) })
.push(MemberView { key: "item_id"@, value: JsonView::Text(v.item_id) })
.push(MemberView { key: "lifetime"@, value: lifetime_json(v.lifetime) })
.push(MemberView { key: "origin"@, value: origin_json(v.origin) })
.push(MemberView { key: "priority_class"@, value: priority_json(v.priority_class) })
.push(MemberView { key: "scope"@, value: scope_json(v.scope) })
.push(MemberView { key: "source_ref"@, value: versioned_json(v.source_ref) })
.push(MemberView { key: "version"@, value: JsonView::Text(v.version) }))
}

/// Encode the context item.
pub fn encode_item(v: &ContextItem) -> (r: Json)
    ensures
        r@ == item_json(v@),
{
    let members = no_members();
    let members = with_member(members, "content", encode_input(&v.content));
    let members = with_member(members, "item_id", crate::json::text(v.item_id.as_str()));
    let members = with_member(members, "lifetime", encode_lifetime(&v.lifetime));
    let members = with_member(members, "origin", encode_origin(&v.origin));
    let members = with_member(members, "priority_class", encode_priority(&v.priority_class));
    let members = with_member(members, "scope", encode_scope(&v.scope));
    let members = with_member(members, "source_ref", encode_versioned(&v.source_ref));
    let members = with_member(members, "version", crate::json::text(v.version.as_str()));
    crate::json::object(members)
}

/// The encoded owner of a fragment.
pub open spec fn owner_json(v: FragmentOwnerView) -> JsonView {
    match v {
        FragmentOwnerView::Run { run_id } => JsonView::Object(Seq::<MemberView>::empty()
.push(MemberView { key: "kind"@, value: JsonView::Text("run"@) })
.push(MemberView { key: "run_id"@, value: JsonView::Text(run_id) })),
        FragmentOwnerView::Session { session_id } => JsonView::Object(Seq::<MemberView>::empty()
.push(MemberView { key: "kind"@, value: JsonView::Text("session"@) })
.push(MemberView { key: "session_id"@, value: JsonView::Text(session_id) })),
    }
}

/// Encode the owner of a fragment.
pub fn encode_owner(v: &FragmentOwner) -> (r: Json)
    ensures
        r@ == owner_json(v@),
{
    match v {
        FragmentOwner::Run { run_id } => {
            let members = no_members();
            let members = with_member(members, "kind", crate::json::text("run"));
            let members = with_member(members, "run_id", crate::json::text(run_id.as_str()));
            crate::json::object(members)
        },
        FragmentOwner::Session { session_id } => {
            let members = no_members();
            let members = with_member(members, "kind", crate::json::text("session"));
            let members = with_member(members, "session_id", crate::json::text(session_id.as_str()));
            crate::json::object(members)
        },
    }
}

/// The encoded identity of a fragment.
pub open spec fn fragment_identity_json(v: FragmentIdentityView) -> JsonView {
    JsonView::Object(Seq::<MemberView>::empty()
.push(MemberView { key: "fragment_id"@, value: JsonView::Text(v.fragment_id) })
.push(MemberView { key: "owner"@, value: owner_json(v.owner) })
.push(MemberView { key: "producer_id"@, value: JsonView::Text(v.producer_id) })
.push(MemberView { key: "scope"@, value: scope_json(v.scope) }))
}

/// Encode the identity of a fragment.
pub fn encode_fragment_identity(v: &FragmentIdentity) -> (r: Json)
    ensures
        r@ == fragment_identity_json(v@),
{
    let members = no_members();
    let members = with_member(members, "fragment_id", crate::json::text(v.fragment_id.as_str()));
    let members = with_member(members, "owner", encode_owner(&v.owner));
    let members = with_member(members, "producer_id", crate::json::text(v.producer_id.as_str()));
    let members = with_member(members, "scope", encode_scope(&v.scope));
    crate::json::object(members)
}

/// The encoded content of a fragment.
pub open spec fn fragment_value_json(v: FragmentValueView) -> JsonView {
    match v {
        FragmentValueView::Selection { status, item_ids } => JsonView::Object(Seq::<MemberView>::empty()
.push(MemberView { key: "item_ids"@, value: JsonView::Array(item_ids.map_values(|x: Seq<char>| JsonView::Text(x))) })
.push(MemberView { key: "kind"@, value: JsonView::Text("selection"@) })
.push(MemberView { key: "status"@, value: JsonView::Text(status) })),
        FragmentValueView::Item { item } => JsonView::Object(Seq::<MemberView>::empty()
.push(MemberView { key: "item"@, value: item_json(item) })
.push(MemberView { key: "kind"@, value: JsonView::Text("item"@) })),
        FragmentValueView::Tombstone { reason } => JsonView::Object(Seq::<MemberView>::empty()
.push(MemberView { key: "kind"@, value: JsonView::Text("tombstone"@) })
.push(MemberView { key: "reason"@, value: JsonView::Text(reason) })),
    }
}

/// Encode the content of a fragment.
pub fn encode_fragment_value(v: &FragmentValue) -> (r: Json)
    ensures
        r@ == fragment_value_json(v@),
{
    match v {
        FragmentValue::Selection { status, item_ids } => {
    let f0 = |x: &Id| -> (r: Json)
        ensures
            r@ == JsonView::Text(x@),
    { crate::json::text(x.as_str()) };
            let members = no_members();
            let members = with_member(members, "item_ids", crate::json::array(map_each(item_ids, f0, Ghost(|x: Seq<char>| JsonView::Text(x)))));
            let members = with_member(members, "kind", crate::json::text("selection"));
            let members = with_member(members, "status", crate::json::text(status.as_str()));
            crate::json::object(members)
        },
        FragmentValue::Item { item } => {
            let members = no_members();
            let members = with_member(members, "item", encode_item(item));
            let members = with_member(members, "kind", crate::json::text("item"));
            crate::json::object(members)
        },
        FragmentValue::Tombstone { reason } => {
            let members = no_members();
            let members = with_member(members, "kind", crate::json::text("tombstone"));
            let members = with_member(members, "reason", crate::json::text(reason.as_str()));
            crate::json::object(members)
        },
    }
}

/// The encoded fragment.
pub open spec fn fragment_json(v: ContextFragmentView) -> JsonView {
    JsonView::Object((Seq::<MemberView>::empty()
.push(MemberView { key: "batch_id"@, value: JsonView::Text(v.batch_id) })
.push(MemberView { key: "content_digest"@, value: JsonView::Text(v.content_digest) })
.push(MemberView { key: "core_revision"@, value: JsonView::Number(decimal_text(v.core_revision as nat)) })
.push(MemberView { key: "identity"@, value: fragment_identity_json(v.identity) })
.push(MemberView { key: "origin"@, value: origin_json(v.origin) })
+ some_member("source_revision"@, match v.source_revision { Some(x) => Some(JsonView::Text(x)), None => None }))
.push(MemberView { key: "value"@, value: fragment_value_json(v.value) }))
}

/// Encode the fragment.
pub fn encode_fragment(v: &ContextFragment) -> (r: Json)
    ensures
        r@ == fragment_json(v@),
{
    let members = no_members();
    let members = with_member(members, "batch_id", crate::json::text(v.batch_id.as_str()));
    let members = with_member(members, "content_digest", crate::json::text(v.content_digest.as_str()));
    let members = with_member(members, "core_revision", number(v.core_revision));
    let members = with_member(members, "identity", encode_fragment_identity(&v.identity));
    let members = with_member(members, "origin", encode_origin(&v.origin));
    let members = with_some(members, "source_revision", match &v.source_revision { Some(x) => Some(crate::json::text(x.as_str())), None => None });
    let members = with_member(members, "value", encode_fragment_value(&v.value));
    crate::json::object(members)
}

/// What the version of a context item names: all of it but its identifier.
pub open spec fn item_body_json(
    origin: ContextOrigin,
    source_ref: VersionedRefView,
    scope: ScopeView,
    content: Seq<InputContentView>,
    lifetime: ContextLifetimeView,
    priority: ContextPriority,
) -> JsonView {
    JsonView::Object(
        Seq::<MemberView>::empty().push(
            MemberView { key: "content"@, value: input_json(content) },
        ).push(MemberView { key: "lifetime"@, value: lifetime_json(lifetime) }).push(
            MemberView { key: "origin"@, value: origin_json(origin) },
        ).push(MemberView { key: "priority_class"@, value: priority_json(priority) }).push(
            MemberView { key: "scope"@, value: scope_json(scope) },
        ).push(MemberView { key: "source_ref"@, value: versioned_json(source_ref) }),
    )
}

/// The context item of some content.
pub open spec fn item_of(
    item_id: Seq<char>,
    origin: ContextOrigin,
    source_ref: VersionedRefView,
    scope: ScopeView,
    content: Seq<InputContentView>,
    lifetime: ContextLifetimeView,
    priority: ContextPriority,
) -> ContextItemView {
    ContextItemView {
        item_id,
        origin,
        source_ref,
        scope,
        content,
        lifetime,
        priority_class: priority,
        version: digest_of(
            item_body_json(origin, source_ref, scope, content, lifetime, priority),
        ),
    }
}

impl ContextItemView {
    /// The version names the content that the item holds.
    pub open spec fn is_genuine(self) -> bool {
        self.version == digest_of(
            item_body_json(
                self.origin,
                self.source_ref,
                self.scope,
                self.content,
                self.lifetime,
                self.priority_class,
            ),
        )
    }

    /// The same content under another identifier.
    pub open spec fn renamed(self, item_id: Seq<char>) -> ContextItemView {
        item_of(
            item_id,
            self.origin,
            self.source_ref,
            self.scope,
            self.content,
            self.lifetime,
            self.priority_class,
        )
    }
}

impl ContextItem {
    /// Build an item; its version names its content.
    pub fn new(
        item_id: Id,
        origin: ContextOrigin,
        source_ref: VersionedRef,
        scope: Scope,
        content: Vec<InputContent>,
        lifetime: ContextLifetime,
        priority: ContextPriority,
    ) -> (r: Self)
        ensures
            r@ == item_of(
                item_id@,
                origin,
                source_ref@,
                scope@,
                content.deep_view(),
                lifetime@,
                priority,
            ),
    {
        let members = with_member(no_members(), "content", encode_input(&content));
        let members = with_member(members, "lifetime", encode_lifetime(&lifetime));
        let members = with_member(members, "origin", encode_origin(&origin));
        let members = with_member(members, "priority_class", encode_priority(&priority));
        let members = with_member(members, "scope", encode_scope(&scope));
        let members = with_member(members, "source_ref", encode_versioned(&source_ref));
        let version = canonical_digest(&crate::json::object(members));
        ContextItem {
            item_id,
            origin,
            source_ref,
            scope,
            content,
            lifetime,
            priority_class: priority,
            version,
        }
    }

    /// The same content under another identifier.
    pub fn rename(&self, item_id: Id) -> (r: Self)
        ensures
            r@ == self@.renamed(item_id@),
    {
        ContextItem::new(
            item_id,
            self.origin,
            self.source_ref.copy(),
            self.scope.copy(),
            self.content.copy(),
            self.lifetime.copy(),
            self.priority_class,
        )
    }

    /// Whether the version names the content that the item holds.
    pub fn is_genuine(&self) -> (r: bool)
        ensures
            r == self@.is_genuine(),
    {
        self.rename(self.item_id.copy()).version.same(&self.version)
    }
}

/// Why a fragment revision cannot be issued.
pub open spec fn issue_fault(order: FragmentOrderView) -> Option<Fault> {
    if order.previous == Some(u64::MAX) {
        fault(ErrorCode::InvalidContract, "context_fragment.revision")
    } else {
        None
    }
}

/// The fragment revision that an order asks for. Revisions count from one.
pub open spec fn issued(order: FragmentOrderView) -> ContextFragmentView {
    ContextFragmentView {
        identity: order.identity,
        core_revision: match order.previous {
            Some(revision) => (revision + 1) as u64,
            None => 1,
        },
        batch_id: order.batch_id,
        origin: order.origin,
        source_revision: order.source_revision,
        value: order.value,
        content_digest: digest_of(fragment_value_json(order.value)),
        defect: None,
    }
}

impl ContextFragment {
    /// Issue the revision that an order asks for.
    pub fn issue(order: &FragmentOrder) -> (r: Result<Self, ContractError>)
        ensures
            failure(r) == issue_fault(order@),
            r matches Ok(fragment) ==> fragment@ == issued(order@),
    {
        let core_revision: u64 = match order.previous {
            Some(revision) => {
                if revision == u64::MAX {
                    return fail(ErrorCode::InvalidContract, "context_fragment.revision");
                }
                revision + 1
            },
            None => 1,
        };
        Ok(
            ContextFragment {
                identity: order.identity.copy(),
                core_revision,
                batch_id: order.batch_id.copy(),
                origin: order.origin,
                source_revision: order.source_revision.copy(),
                value: order.value.copy(),
                content_digest: canonical_digest(&encode_fragment_value(&order.value)),
                defect: None,
            },
        )
    }
}

/// A built item is genuine: its version names its content. An item under another identifier holds the
/// same content, of the same origin, for the same time, and a genuine one keeps its version.
pub proof fn law_renaming_keeps_the_content(item: ContextItemView, item_id: Seq<char>)
    ensures
        item.renamed(item_id).is_genuine(),
        item.renamed(item_id).item_id == item_id,
        item.renamed(item_id).content == item.content,
        item.renamed(item_id).origin == item.origin,
        item.renamed(item_id).source_ref == item.source_ref,
        item.renamed(item_id).scope == item.scope,
        item.renamed(item_id).lifetime == item.lifetime,
        item.renamed(item_id).priority_class == item.priority_class,
        item.is_genuine() <==> item.renamed(item_id).version == item.version,
        item.is_genuine() ==> item.renamed(item_id).renamed(item.item_id) == item,
{
}

/// The revisions of a fragment count by one, from one. A next revision can be issued unless there is
/// no next number, and it names the content that it holds.
pub proof fn law_fragment_revisions_count_by_one(
    first: FragmentOrderView,
    next: FragmentOrderView,
)
    requires
        first.previous is None,
        next.previous is Some,
    ensures
        issue_fault(first) is None,
        issued(first).core_revision == 1,
        issue_fault(next) is None <==> next.previous->Some_0 < u64::MAX,
        issue_fault(next) is None ==> issued(next).core_revision == next.previous->Some_0 + 1,
        first.value == next.value ==> issued(first).content_digest == issued(next).content_digest,
        issued(next).identity == next.identity,
        issued(next).value == next.value,
        issued(next).batch_id == next.batch_id,
{
}

} // verus!
