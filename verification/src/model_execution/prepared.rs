//! Immutable preparations of model steps: finding the one that a step already has, and saving a new
//! one before its model is called.
use vstd::prelude::*;

use crate::content::ArtifactRef;
use crate::context::{ContextFragment, ContextLineage};
#[allow(unused_imports)]
use crate::context::{
    encode_export, encode_fragment, export_json, fragment_json, ContextFragmentView,
    ContextLineageView,
};
#[allow(unused_imports)]
use crate::content::ArtifactRefView;
use crate::data::{find, map_each, Data};
#[allow(unused_imports)]
use crate::data::{first_in, first_index_fault};
use crate::encoding::{
    encode_artifact, encode_record_ref, encode_scope, encode_versioned, no_members, number,
    with_member, with_some,
};
#[allow(unused_imports)]
use crate::encoding::{
    artifact_json, record_ref_json, scope_json, some_member, versioned_json,
};
use crate::error::{fail, ContractError, ErrorCode};
#[allow(unused_imports)]
use crate::error::{failure, fault, or_else, Fault};
use crate::execution_contracts::{ExecutionRecordVersion, PreparedStepRecord};
#[allow(unused_imports)]
use crate::execution_contracts::PreparedStepRecordView;
use crate::hook::encode_model_tool;
#[allow(unused_imports)]
use crate::hook::model_tool_json;
use crate::json::{array, object, text, Json, Member};
#[allow(unused_imports)]
use crate::json::{JsonView, MemberView};
use crate::model::{
    encode_purpose, encode_route, ModelPurpose, ModelRequest, ResolvedModelRoute, RoutedModelInput,
};
#[allow(unused_imports)]
use crate::model::{
    purpose_json, route_json, ModelRequestView, ModelToolView, ResolvedModelRouteView,
    RoutedModelInputView,
};
use crate::model_execution::{commit_checkpoint, Settlement};
#[allow(unused_imports)]
use crate::model_execution::{commit_of, settled, settlement_fault, SettlementView};
use crate::model_options::{ModelConfiguration, ModelOptionSource, OptionOrigin};
#[allow(unused_imports)]
use crate::model_options::{ModelConfigurationView, OptionOriginView};
use crate::model_routing::RouteSelection;
#[allow(unused_imports)]
use crate::model_routing::RouteSelectionView;
use crate::prepared_step::{
    PreparedModelProjection, ProjectionProvenance, ResolvedToolSet, ResolvedToolSetEntry,
};
#[allow(unused_imports)]
use crate::prepared_step::{
    entry_fault, fingerprint_of, shape_fault, PreparedModelProjectionView, ProjectionProvenanceView,
    ResolvedToolSetEntryView, ResolvedToolSetView,
};
use crate::profile::{CatalogTool, ConnectionRef, ToolBindingRef};
#[allow(unused_imports)]
use crate::profile::{CatalogToolView, ConnectionRefView, ToolBindingRefView};
use crate::prompt::PinnedPromptTool;
#[allow(unused_imports)]
use crate::prompt::PinnedPromptToolView;
use crate::provider_tool_schema::{
    encode_contract, CompiledToolContract, ProviderToolSchemaLimits, ProviderToolTarget,
};
#[allow(unused_imports)]
use crate::provider_tool_schema::{
    contract_json, contract_restore_fault, target_of, usual_limits, CompiledToolContractView,
    ProviderToolTargetView, SavedContractView,
};
use crate::reader::JsonText;
#[allow(unused_imports)]
use crate::reader::text_of_value;
use crate::refs::{RecordRef, VersionedRef};
#[allow(unused_imports)]
use crate::refs::{RecordRefView, VersionedRefView};
use crate::run::RunSnapshot;
#[allow(unused_imports)]
use crate::run::RunSnapshotView;
use crate::serialization::{canonical_digest, Id, JsonDigest};
#[allow(unused_imports)]
use crate::serialization::digest_of;
use crate::skills::records::find_record;
#[allow(unused_imports)]
use crate::skills::records::record_named;
use crate::state::commit::CommitInput;
#[allow(unused_imports)]
use crate::state::commit::CommitInputView;
use crate::state::records::{
    ProtectedRecord, RecordContent, Recorded, SavedConfiguration, SavedStep,
};
#[allow(unused_imports)]
use crate::state::records::{ProtectedRecordView, RecordContentView, SavedConfigurationView};
use crate::state::scope::RunLease;
use crate::text::{concat, decimal};
#[allow(unused_imports)]
use crate::text::{decimal_text, white_space};

verus! {

/// A preparation that a run holds.
#[derive(Debug)]
pub struct StoredPreparation {
    pub reference: RecordRef,
    pub projection: PreparedModelProjection,
}

#[verifier::ext_equal]
pub struct StoredPreparationView {
    pub reference: RecordRefView,
    pub projection: PreparedModelProjectionView,
}

impl View for StoredPreparation {
    type V = StoredPreparationView;

    open spec fn view(&self) -> StoredPreparationView {
        StoredPreparationView {
            reference: self.reference.deep_view(),
            projection: self.projection.deep_view(),
        }
    }
}

impl DeepView for StoredPreparation {
    type V = StoredPreparationView;

    open spec fn deep_view(&self) -> StoredPreparationView {
        self@
    }
}

impl Data for StoredPreparation {
    fn same(&self, other: &Self) -> (r: bool) {
        self.reference.same(&other.reference)
            && self.projection.same(&other.projection)
    }

    fn copy(&self) -> (r: Self) {
        StoredPreparation {
            reference: self.reference.copy(),
            projection: self.projection.copy(),
        }
    }
}

/// A request as a projector prepared it, with the contracts of its tools.
#[derive(Debug)]
pub struct ProjectedModelRequest {
    pub request: ModelRequest,
    pub input_tokens: u64,
    pub provenance: ProjectionProvenance,
    pub tool_set: Vec<ResolvedToolSetEntry>,
    pub compiled_tools: Vec<CompiledToolContract>,
}

#[verifier::ext_equal]
pub struct ProjectedModelRequestView {
    pub request: ModelRequestView,
    pub input_tokens: u64,
    pub provenance: ProjectionProvenanceView,
    pub tool_set: Seq<ResolvedToolSetEntryView>,
    pub compiled_tools: Seq<CompiledToolContractView>,
}

impl View for ProjectedModelRequest {
    type V = ProjectedModelRequestView;

    open spec fn view(&self) -> ProjectedModelRequestView {
        ProjectedModelRequestView {
            request: self.request.deep_view(),
            input_tokens: self.input_tokens.deep_view(),
            provenance: self.provenance.deep_view(),
            tool_set: self.tool_set.deep_view(),
            compiled_tools: self.compiled_tools.deep_view(),
        }
    }
}

impl DeepView for ProjectedModelRequest {
    type V = ProjectedModelRequestView;

    open spec fn deep_view(&self) -> ProjectedModelRequestView {
        self@
    }
}

impl Data for ProjectedModelRequest {
    fn same(&self, other: &Self) -> (r: bool) {
        self.request.same(&other.request)
            && self.input_tokens.same(&other.input_tokens)
            && self.provenance.same(&other.provenance)
            && self.tool_set.same(&other.tool_set)
            && self.compiled_tools.same(&other.compiled_tools)
    }

    fn copy(&self) -> (r: Self) {
        ProjectedModelRequest {
            request: self.request.copy(),
            input_tokens: self.input_tokens.copy(),
            provenance: self.provenance.copy(),
            tool_set: self.tool_set.copy(),
            compiled_tools: self.compiled_tools.copy(),
        }
    }
}

/// What one saved preparation is to a step.
#[derive(Debug)]
pub enum Finding {
    /// It belongs to another step, purpose or route.
    Other,
    Refused {
        error: ContractError,
    },
    Found {
        projection: PreparedModelProjection,
    },
}

#[verifier::ext_equal]
pub enum FindingView {
    Other,
    Refused {
        error: Fault,
    },
    Found {
        projection: PreparedModelProjectionView,
    },
}

impl View for Finding {
    type V = FindingView;

    open spec fn view(&self) -> FindingView {
        match self {
            Finding::Other => FindingView::Other,
            Finding::Refused { error } => FindingView::Refused { error: error.deep_view() },
            Finding::Found { projection } => FindingView::Found { projection: projection.deep_view() },
        }
    }
}

impl DeepView for Finding {
    type V = FindingView;

    open spec fn deep_view(&self) -> FindingView {
        self@
    }
}

impl Data for Finding {
    fn same(&self, other: &Self) -> (r: bool) {
        match (self, other) {
            (Finding::Other, Finding::Other) => true,
            (Finding::Refused { error: error1 }, Finding::Refused { error: error2 }) => error1.same(error2),
            (Finding::Found { projection: projection1 }, Finding::Found { projection: projection2 }) => projection1.same(projection2),
            _ => false,
        }
    }

    fn copy(&self) -> (r: Self) {
        match self {
            Finding::Other => Finding::Other,
            Finding::Refused { error } => Finding::Refused { error: error.copy() },
            Finding::Found { projection } => Finding::Found { projection: projection.copy() },
        }
    }
}

/// The child records of a preparation and its root.
#[derive(Debug)]
pub struct PreparedRecords {
    pub records: Vec<ProtectedRecord>,
    pub root: PreparedStepRecord,
    pub stored: StoredPreparation,
}

#[verifier::ext_equal]
pub struct PreparedRecordsView {
    pub records: Seq<ProtectedRecordView>,
    pub root: PreparedStepRecordView,
    pub stored: StoredPreparationView,
}

impl View for PreparedRecords {
    type V = PreparedRecordsView;

    open spec fn view(&self) -> PreparedRecordsView {
        PreparedRecordsView {
            records: self.records.deep_view(),
            root: self.root.deep_view(),
            stored: self.stored.deep_view(),
        }
    }
}

impl DeepView for PreparedRecords {
    type V = PreparedRecordsView;

    open spec fn deep_view(&self) -> PreparedRecordsView {
        self@
    }
}

impl Data for PreparedRecords {
    fn same(&self, other: &Self) -> (r: bool) {
        self.records.same(&other.records)
            && self.root.same(&other.root)
            && self.stored.same(&other.stored)
    }

    fn copy(&self) -> (r: Self) {
        PreparedRecords {
            records: self.records.copy(),
            root: self.root.copy(),
            stored: self.stored.copy(),
        }
    }
}

/// A preparation with the commit that saves it.
#[derive(Debug)]
pub struct SavedPreparation {
    pub input: CommitInput,
    pub stored: StoredPreparation,
}

#[verifier::ext_equal]
pub struct SavedPreparationView {
    pub input: CommitInputView,
    pub stored: StoredPreparationView,
}

impl View for SavedPreparation {
    type V = SavedPreparationView;

    open spec fn view(&self) -> SavedPreparationView {
        SavedPreparationView {
            input: self.input.deep_view(),
            stored: self.stored.deep_view(),
        }
    }
}

impl DeepView for SavedPreparation {
    type V = SavedPreparationView;

    open spec fn deep_view(&self) -> SavedPreparationView {
        self@
    }
}

impl Data for SavedPreparation {
    fn same(&self, other: &Self) -> (r: bool) {
        self.input.same(&other.input)
            && self.stored.same(&other.stored)
    }

    fn copy(&self) -> (r: Self) {
        SavedPreparation {
            input: self.input.copy(),
            stored: self.stored.copy(),
        }
    }
}


/// The encoded layer of an option.
pub open spec fn option_source_json(v: ModelOptionSource) -> JsonView {
    match v {
        ModelOptionSource::Binding => JsonView::Text("binding"@),
        ModelOptionSource::Profile => JsonView::Text("profile"@),
        ModelOptionSource::Run => JsonView::Text("run"@),
        ModelOptionSource::Purpose => JsonView::Text("purpose"@),
    }
}

/// Encode the layer of an option.
pub fn encode_option_source(v: &ModelOptionSource) -> (r: Json)
    ensures
        r@ == option_source_json(*v),
{
    match v {
        ModelOptionSource::Binding => crate::json::text("binding"),
        ModelOptionSource::Profile => crate::json::text("profile"),
        ModelOptionSource::Run => crate::json::text("run"),
        ModelOptionSource::Purpose => crate::json::text("purpose"),
    }
}

/// The encoded origin of an option.
pub open spec fn origin_member() -> spec_fn(OptionOriginView) -> MemberView {
    |origin: OptionOriginView|
        MemberView { key: origin.key, value: option_source_json(origin.source) }
}

/// The encoded origins of options.
pub open spec fn sources_json(sources: Seq<OptionOriginView>) -> JsonView {
    JsonView::Object(sources.map_values(origin_member()))
}

fn encode_sources(sources: &Vec<OptionOrigin>) -> (r: Json)
    ensures
        r@ == sources_json(sources.deep_view()),
{
    let encode = |origin: &OptionOrigin| -> (r: Member)
        ensures
            r@ == origin_member()(origin@),
    { crate::json::member(origin.key.as_str(), encode_option_source(&origin.source)) };
    object(map_each(sources, encode, Ghost(origin_member())))
}

/// The encoded configuration.
pub open spec fn configuration_json(v: ModelConfigurationView) -> JsonView {
    JsonView::Object(Seq::<MemberView>::empty()
.push(MemberView { key: "binding_schema_revision"@, value: JsonView::Text(v.binding_schema_revision) })
.push(MemberView { key: "effective"@, value: JsonView::Object(v.effective) })
.push(MemberView { key: "max_output_tokens"@, value: JsonView::Number(decimal_text(v.max_output_tokens as nat)) })
.push(MemberView { key: "model_schema_revision"@, value: JsonView::Text(v.model_schema_revision) })
.push(MemberView { key: "requested"@, value: JsonView::Object(v.requested) })
.push(MemberView { key: "requested_max_output_tokens"@, value: JsonView::Number(decimal_text(v.requested_max_output_tokens as nat)) })
.push(MemberView { key: "sources"@, value: sources_json(v.sources) }))
}

/// Encode the configuration.
pub fn encode_configuration(v: &ModelConfiguration) -> (r: Json)
    ensures
        r@ == configuration_json(v@),
{
    let members = no_members();
    let members = with_member(members, "binding_schema_revision", crate::json::text(v.binding_schema_revision.as_str()));
    let members = with_member(members, "effective", crate::json::object(v.effective.copy()));
    let members = with_member(members, "max_output_tokens", number(v.max_output_tokens));
    let members = with_member(members, "model_schema_revision", crate::json::text(v.model_schema_revision.as_str()));
    let members = with_member(members, "requested", crate::json::object(v.requested.copy()));
    let members = with_member(members, "requested_max_output_tokens", number(v.requested_max_output_tokens));
    let members = with_member(members, "sources", encode_sources(&v.sources));
    crate::json::object(members)
}

/// The encoded version of a record.
pub open spec fn record_version_json(version: ExecutionRecordVersion) -> JsonView {
    match version {
        ExecutionRecordVersion::V1 => JsonView::Text("wickle.execution-record.v1"@),
    }
}

fn encode_record_version(version: &ExecutionRecordVersion) -> (r: Json)
    ensures
        r@ == record_version_json(*version),
{
    match version {
        ExecutionRecordVersion::V1 => text("wickle.execution-record.v1"),
    }
}

/// The encoded root of a preparation.
pub open spec fn prepared_step_json(v: PreparedStepRecordView) -> JsonView {
    JsonView::Object(Seq::<MemberView>::empty()
.push(MemberView { key: "assembler"@, value: versioned_json(v.assembler) })
.push(MemberView { key: "assembly_ref"@, value: match v.assembly_ref { Some(x) => record_ref_json(x), None => JsonView::Null } })
.push(MemberView { key: "change_reason"@, value: JsonView::Text(v.change_reason) })
.push(MemberView { key: "compiled_tools"@, value: JsonView::Array(v.compiled_tools.map_values(|x: RecordRefView| record_ref_json(x))) })
.push(MemberView { key: "context_projection"@, value: record_ref_json(v.context_projection) })
.push(MemberView { key: "model_configuration"@, value: record_ref_json(v.model_configuration) })
.push(MemberView { key: "model_step_id"@, value: JsonView::Text(v.model_step_id) })
.push(MemberView { key: "profile_digest"@, value: JsonView::Text(v.profile_digest) })
.push(MemberView { key: "projection_fingerprint"@, value: JsonView::Text(v.projection_fingerprint) })
.push(MemberView { key: "projection_revision"@, value: JsonView::Number(decimal_text(v.projection_revision as nat)) })
.push(MemberView { key: "purpose"@, value: purpose_json(v.purpose) })
.push(MemberView { key: "run_id"@, value: JsonView::Text(v.run_id) })
.push(MemberView { key: "schema_version"@, value: record_version_json(v.schema_version) })
.push(MemberView { key: "scope"@, value: scope_json(v.scope) })
.push(MemberView { key: "step_input"@, value: record_ref_json(v.step_input) })
.push(MemberView { key: "tool_set"@, value: record_ref_json(v.tool_set) }))
}

/// Encode the root of a preparation.
pub fn encode_prepared_step(v: &PreparedStepRecord) -> (r: Json)
    ensures
        r@ == prepared_step_json(v@),
{
    let f3 = |x: &RecordRef| -> (r: Json)
        ensures
            r@ == record_ref_json(x@),
    { encode_record_ref(x) };
    let members = no_members();
    let members = with_member(members, "assembler", encode_versioned(&v.assembler));
    let members = with_member(members, "assembly_ref", match &v.assembly_ref { Some(x) => encode_record_ref(x), None => Json::Null });
    let members = with_member(members, "change_reason", crate::json::text(v.change_reason.as_str()));
    let members = with_member(members, "compiled_tools", crate::json::array(map_each(&v.compiled_tools, f3, Ghost(|x: RecordRefView| record_ref_json(x)))));
    let members = with_member(members, "context_projection", encode_record_ref(&v.context_projection));
    let members = with_member(members, "model_configuration", encode_record_ref(&v.model_configuration));
    let members = with_member(members, "model_step_id", crate::json::text(v.model_step_id.as_str()));
    let members = with_member(members, "profile_digest", crate::json::text(v.profile_digest.as_str()));
    let members = with_member(members, "projection_fingerprint", crate::json::text(v.projection_fingerprint.as_str()));
    let members = with_member(members, "projection_revision", number(v.projection_revision));
    let members = with_member(members, "purpose", encode_purpose(&v.purpose));
    let members = with_member(members, "run_id", crate::json::text(v.run_id.as_str()));
    let members = with_member(members, "schema_version", encode_record_version(&v.schema_version));
    let members = with_member(members, "scope", encode_scope(&v.scope));
    let members = with_member(members, "step_input", encode_record_ref(&v.step_input));
    let members = with_member(members, "tool_set", encode_record_ref(&v.tool_set));
    crate::json::object(members)
}

/// The encoded connection.
pub open spec fn connection_json(v: ConnectionRefView) -> JsonView {
    JsonView::Object(Seq::<MemberView>::empty()
.push(MemberView { key: "connection"@, value: JsonView::Text(v.connection) })
.push(MemberView { key: "name"@, value: JsonView::Text(v.name) }))
}

/// Encode the connection.
pub fn encode_connection(v: &ConnectionRef) -> (r: Json)
    ensures
        r@ == connection_json(v@),
{
    let members = no_members();
    let members = with_member(members, "connection", crate::json::text(v.connection.as_str()));
    let members = with_member(members, "name", crate::json::text(v.name.as_str()));
    crate::json::object(members)
}

/// The encoded name of a catalog tool.
pub open spec fn catalog_tool_json(v: CatalogToolView) -> JsonView {
    JsonView::Object(((Seq::<MemberView>::empty()
+ some_member("bindings"@, match v.bindings { Some(x) => Some(JsonView::Array(x.map_values(|x: ConnectionRefView| connection_json(x)))), None => None }))
+ some_member("config"@, match v.config { Some(x) => Some(JsonView::Object(x)), None => None }))
.push(MemberView { key: "tool_id"@, value: JsonView::Text(v.tool_id) })
.push(MemberView { key: "version"@, value: JsonView::Text(v.version) }))
}

/// Encode the name of a catalog tool.
pub fn encode_catalog_tool(v: &CatalogTool) -> (r: Json)
    ensures
        r@ == catalog_tool_json(v@),
{
    let f0 = |x: &ConnectionRef| -> (r: Json)
        ensures
            r@ == connection_json(x@),
    { encode_connection(x) };
    let members = no_members();
    let members = with_some(members, "bindings", match &v.bindings { Some(x) => Some(crate::json::array(map_each(x, f0, Ghost(|x: ConnectionRefView| connection_json(x))))), None => None });
    let members = with_some(members, "config", match &v.config { Some(x) => Some(crate::json::object(x.copy())), None => None });
    let members = with_member(members, "tool_id", crate::json::text(v.tool_id.as_str()));
    let members = with_member(members, "version", crate::json::text(v.version.as_str()));
    crate::json::object(members)
}

/// The encoded selection of a tool.
pub open spec fn tool_binding_json(v: ToolBindingRefView) -> JsonView {
    match v {
        ToolBindingRefView::Catalog(item) => catalog_tool_json(item),
        ToolBindingRefView::Export(reference) => export_json(reference),
    }
}

/// Encode the selection of a tool.
pub fn encode_tool_binding(v: &ToolBindingRef) -> (r: Json)
    ensures
        r@ == tool_binding_json(v@),
{
    match v {
        ToolBindingRef::Catalog(item) => encode_catalog_tool(item),
        ToolBindingRef::Export(reference) => encode_export(reference),
    }
}

/// The encoded pinned tool.
pub open spec fn pinned_tool_json(v: PinnedPromptToolView) -> JsonView {
    JsonView::Object(Seq::<MemberView>::empty()
.push(MemberView { key: "compiled_digest"@, value: JsonView::Text(v.compiled_digest) })
.push(MemberView { key: "compiler_version"@, value: JsonView::Text(v.compiler_version) })
.push(MemberView { key: "descriptor_digest"@, value: JsonView::Text(v.descriptor_digest) })
.push(MemberView { key: "model_schema_digest"@, value: JsonView::Text(v.model_schema_digest) })
.push(MemberView { key: "model_tool"@, value: model_tool_json(v.model_tool) })
.push(MemberView { key: "selection"@, value: tool_binding_json(v.selection) })
.push(MemberView { key: "tool"@, value: versioned_json(v.tool) }))
}

/// Encode the pinned tool.
pub fn encode_pinned_tool(v: &PinnedPromptTool) -> (r: Json)
    ensures
        r@ == pinned_tool_json(v@),
{
    let members = no_members();
    let members = with_member(members, "compiled_digest", crate::json::text(v.compiled_digest.as_str()));
    let members = with_member(members, "compiler_version", crate::json::text(v.compiler_version.as_str()));
    let members = with_member(members, "descriptor_digest", crate::json::text(v.descriptor_digest.as_str()));
    let members = with_member(members, "model_schema_digest", crate::json::text(v.model_schema_digest.as_str()));
    let members = with_member(members, "model_tool", encode_model_tool(&v.model_tool));
    let members = with_member(members, "selection", encode_tool_binding(&v.selection));
    let members = with_member(members, "tool", encode_versioned(&v.tool));
    crate::json::object(members)
}

/// The encoded entry of a tool set.
pub open spec fn tool_entry_json(v: ResolvedToolSetEntryView) -> JsonView {
    JsonView::Object(Seq::<MemberView>::empty()
.push(MemberView { key: "compiled"@, value: v.compiled })
.push(MemberView { key: "manifest"@, value: pinned_tool_json(v.manifest) }))
}

/// Encode the entry of a tool set.
pub fn encode_tool_entry(v: &ResolvedToolSetEntry) -> (r: Json)
    ensures
        r@ == tool_entry_json(v@),
{
    let members = no_members();
    let members = with_member(members, "compiled", v.compiled.copy());
    let members = with_member(members, "manifest", encode_pinned_tool(&v.manifest));
    crate::json::object(members)
}

/// The encoded tool set.
pub open spec fn tool_set_json(v: ResolvedToolSetView) -> JsonView {
    JsonView::Object(Seq::<MemberView>::empty()
.push(MemberView { key: "entries"@, value: JsonView::Array(v.entries.map_values(|x: ResolvedToolSetEntryView| tool_entry_json(x))) })
.push(MemberView { key: "run_id"@, value: JsonView::Text(v.run_id) })
.push(MemberView { key: "schema_version"@, value: JsonView::Text(v.schema_version) })
.push(MemberView { key: "scope"@, value: scope_json(v.scope) }))
}

/// Encode the tool set.
pub fn encode_tool_set(v: &ResolvedToolSet) -> (r: Json)
    ensures
        r@ == tool_set_json(v@),
{
    let f0 = |x: &ResolvedToolSetEntry| -> (r: Json)
        ensures
            r@ == tool_entry_json(x@),
    { encode_tool_entry(x) };
    let members = no_members();
    let members = with_member(members, "entries", crate::json::array(map_each(&v.entries, f0, Ghost(|x: ResolvedToolSetEntryView| tool_entry_json(x)))));
    let members = with_member(members, "run_id", crate::json::text(v.run_id.as_str()));
    let members = with_member(members, "schema_version", crate::json::text(v.schema_version.as_str()));
    let members = with_member(members, "scope", encode_scope(&v.scope));
    crate::json::object(members)
}

/// The encoded lineage of an item.
pub open spec fn lineage_json(v: ContextLineageView) -> JsonView {
    JsonView::Object(Seq::<MemberView>::empty()
.push(MemberView { key: "batch_ref"@, value: record_ref_json(v.batch_ref) })
.push(MemberView { key: "item_id"@, value: JsonView::Text(v.item_id) })
.push(MemberView { key: "item_version"@, value: JsonView::Text(v.item_version) })
.push(MemberView { key: "run_id"@, value: JsonView::Text(v.run_id) }))
}

/// Encode the lineage of an item.
pub fn encode_lineage(v: &ContextLineage) -> (r: Json)
    ensures
        r@ == lineage_json(v@),
{
    let members = no_members();
    let members = with_member(members, "batch_ref", encode_record_ref(&v.batch_ref));
    let members = with_member(members, "item_id", crate::json::text(v.item_id.as_str()));
    let members = with_member(members, "item_version", crate::json::text(v.item_version.as_str()));
    let members = with_member(members, "run_id", crate::json::text(v.run_id.as_str()));
    crate::json::object(members)
}

/// The encoded provenance of a projection.
pub open spec fn provenance_json(v: ProjectionProvenanceView) -> JsonView {
    JsonView::Object(Seq::<MemberView>::empty()
.push(MemberView { key: "artifacts"@, value: JsonView::Array(v.artifacts.map_values(|x: ArtifactRefView| artifact_json(x))) })
.push(MemberView { key: "context_revision_ref"@, value: match v.context_revision_ref { Some(x) => record_ref_json(x), None => JsonView::Null } })
.push(MemberView { key: "dropped_context_ids"@, value: JsonView::Array(v.dropped_context_ids.map_values(|x: Seq<char>| JsonView::Text(x))) })
.push(MemberView { key: "dropped_message_ids"@, value: JsonView::Array(v.dropped_message_ids.map_values(|x: Seq<char>| JsonView::Text(x))) })
.push(MemberView { key: "fragments"@, value: JsonView::Array(v.fragments.map_values(|x: ContextFragmentView| fragment_json(x))) })
.push(MemberView { key: "selected_context_ids"@, value: JsonView::Array(v.selected_context_ids.map_values(|x: Seq<char>| JsonView::Text(x))) })
.push(MemberView { key: "selected_message_ids"@, value: JsonView::Array(v.selected_message_ids.map_values(|x: Seq<char>| JsonView::Text(x))) })
.push(MemberView { key: "source_batches"@, value: JsonView::Array(v.source_batches.map_values(|x: RecordRefView| record_ref_json(x))) })
.push(MemberView { key: "source_lineage"@, value: JsonView::Array(v.source_lineage.map_values(|x: ContextLineageView| lineage_json(x))) })
.push(MemberView { key: "through_sequence"@, value: JsonView::Number(decimal_text(v.through_sequence as nat)) }))
}

/// Encode the provenance of a projection.
pub fn encode_provenance(v: &ProjectionProvenance) -> (r: Json)
    ensures
        r@ == provenance_json(v@),
{
    let f0 = |x: &ArtifactRef| -> (r: Json)
        ensures
            r@ == artifact_json(x@),
    { encode_artifact(x) };
    let f2 = |x: &Id| -> (r: Json)
        ensures
            r@ == JsonView::Text(x@),
    { crate::json::text(x.as_str()) };
    let f3 = |x: &Id| -> (r: Json)
        ensures
            r@ == JsonView::Text(x@),
    { crate::json::text(x.as_str()) };
    let f4 = |x: &ContextFragment| -> (r: Json)
        ensures
            r@ == fragment_json(x@),
    { encode_fragment(x) };
    let f5 = |x: &Id| -> (r: Json)
        ensures
            r@ == JsonView::Text(x@),
    { crate::json::text(x.as_str()) };
    let f6 = |x: &Id| -> (r: Json)
        ensures
            r@ == JsonView::Text(x@),
    { crate::json::text(x.as_str()) };
    let f7 = |x: &RecordRef| -> (r: Json)
        ensures
            r@ == record_ref_json(x@),
    { encode_record_ref(x) };
    let f8 = |x: &ContextLineage| -> (r: Json)
        ensures
            r@ == lineage_json(x@),
    { encode_lineage(x) };
    let members = no_members();
    let members = with_member(members, "artifacts", crate::json::array(map_each(&v.artifacts, f0, Ghost(|x: ArtifactRefView| artifact_json(x)))));
    let members = with_member(members, "context_revision_ref", match &v.context_revision_ref { Some(x) => encode_record_ref(x), None => Json::Null });
    let members = with_member(members, "dropped_context_ids", crate::json::array(map_each(&v.dropped_context_ids, f2, Ghost(|x: Seq<char>| JsonView::Text(x)))));
    let members = with_member(members, "dropped_message_ids", crate::json::array(map_each(&v.dropped_message_ids, f3, Ghost(|x: Seq<char>| JsonView::Text(x)))));
    let members = with_member(members, "fragments", crate::json::array(map_each(&v.fragments, f4, Ghost(|x: ContextFragmentView| fragment_json(x)))));
    let members = with_member(members, "selected_context_ids", crate::json::array(map_each(&v.selected_context_ids, f5, Ghost(|x: Seq<char>| JsonView::Text(x)))));
    let members = with_member(members, "selected_message_ids", crate::json::array(map_each(&v.selected_message_ids, f6, Ghost(|x: Seq<char>| JsonView::Text(x)))));
    let members = with_member(members, "source_batches", crate::json::array(map_each(&v.source_batches, f7, Ghost(|x: RecordRefView| record_ref_json(x)))));
    let members = with_member(members, "source_lineage", crate::json::array(map_each(&v.source_lineage, f8, Ghost(|x: ContextLineageView| lineage_json(x)))));
    let members = with_member(members, "through_sequence", number(v.through_sequence));
    crate::json::object(members)
}

/// The encoded projection.
pub open spec fn projection_json(v: PreparedModelProjectionView) -> JsonView {
    JsonView::Object(Seq::<MemberView>::empty()
.push(MemberView { key: "input_tokens"@, value: JsonView::Number(decimal_text(v.input_tokens as nat)) })
.push(MemberView { key: "provenance"@, value: provenance_json(v.provenance) })
.push(MemberView { key: "request"@, value: JsonView::Object(v.request.document) })
.push(MemberView { key: "run_id"@, value: JsonView::Text(v.run_id) })
.push(MemberView { key: "schema_version"@, value: JsonView::Text(v.schema_version) })
.push(MemberView { key: "scope"@, value: scope_json(v.scope) }))
}

/// Encode the projection.
pub fn encode_projection(v: &PreparedModelProjection) -> (r: Json)
    ensures
        r@ == projection_json(v@),
{
    let members = no_members();
    let members = with_member(members, "input_tokens", number(v.input_tokens));
    let members = with_member(members, "provenance", encode_provenance(&v.provenance));
    let members = with_member(members, "request", crate::json::object(v.request.document.copy()));
    let members = with_member(members, "run_id", crate::json::text(v.run_id.as_str()));
    let members = with_member(members, "schema_version", crate::json::text(v.schema_version.as_str()));
    let members = with_member(members, "scope", encode_scope(&v.scope));
    crate::json::object(members)
}

/// Why the ledger of a run cannot be used.
pub open spec fn ledger_fault() -> Option<Fault> {
    fault(ErrorCode::RevisionConflict, "model.ledger")
}

fn conflict<T>() -> (r: Result<T, ContractError>)
    ensures
        r is Err,
        failure(r) == ledger_fault(),
{
    fail(ErrorCode::RevisionConflict, "model.ledger")
}

/// What a record reads as, where it was read at all.
pub open spec fn read_as<T: Recorded>(
    records: Seq<ProtectedRecordView>,
    reference: RecordRefView,
) -> Option<<T as DeepView>::V> {
    match record_named(records, reference) {
        Some(record) => T::reading(record.content),
        None => None,
    }
}

fn read_record<'a, T: Recorded>(records: &'a Vec<ProtectedRecord>, reference: &RecordRef) -> (r:
    Option<&'a T>)
    ensures
        r.deep_view() == read_as::<T>(records.deep_view(), reference@),
{
    match find_record(records, reference) {
        Some(record) => T::read(record.content()),
        None => None,
    }
}

/// A saved projection is the one that its root names, and belongs to this run.
pub open spec fn is_identical(
    root: PreparedStepRecordView,
    projection: PreparedModelProjectionView,
    route: ResolvedModelRouteView,
    snapshot: RunSnapshotView,
) -> bool {
    &&& root.scope == snapshot.scope
    &&& root.run_id == snapshot.run_id
    &&& root.profile_digest == snapshot.profile.profile_digest
    &&& root.assembly_ref == snapshot.assembly_ref
    &&& projection.scope == root.scope
    &&& projection.run_id == root.run_id
    &&& projection.request.request_id == root.model_step_id
    &&& projection.request.route == route
    &&& projection.request.purpose == root.purpose
    &&& fingerprint_of(projection) == root.projection_fingerprint
}

fn is_same_projection(
    root: &PreparedStepRecord,
    projection: &PreparedModelProjection,
    route: &ResolvedModelRoute,
    snapshot: &RunSnapshot,
) -> (r: bool)
    ensures
        r == is_identical(root@, projection@, route@, snapshot@),
{
    root.scope.same(&snapshot.scope) && root.run_id.same(&snapshot.run_id)
        && root.profile_digest.same(snapshot.profile.profile_digest()) && root.assembly_ref.same(
        &snapshot.assembly_ref,
    ) && projection.scope.same(&root.scope) && projection.run_id.same(&root.run_id)
        && projection.request.request_id.same(&root.model_step_id)
        && projection.request.route.same(route) && projection.request.purpose == root.purpose
        && projection.fingerprint().same(&root.projection_fingerprint)
}

/// A refusal.
pub open spec fn refuse(refusal: Option<Fault>) -> FindingView {
    FindingView::Refused { error: refusal->0 }
}

/// What one saved preparation is to a step, on its selected route with its configuration.
pub open spec fn finding_of(
    input: RoutedModelInputView,
    route: ResolvedModelRouteView,
    configuration: ModelConfigurationView,
    snapshot: RunSnapshotView,
    records: Seq<ProtectedRecordView>,
    reference: RecordRefView,
) -> FindingView {
    match read_as::<PreparedStepRecord>(records, reference) {
        None => refuse(ledger_fault()),
        Some(root) => if root.model_step_id != input.model_step_id || root.purpose
            != input.routing.purpose {
            FindingView::Other
        } else {
            match read_as::<SavedConfiguration>(records, root.model_configuration) {
                None => refuse(ledger_fault()),
                Some(saved) => if saved.route is None {
                    refuse(ledger_fault())
                } else if saved.route != Some(route) {
                    FindingView::Other
                } else if saved.configuration is None {
                    refuse(ledger_fault())
                } else if saved.configuration != Some(configuration) {
                    refuse(fault(ErrorCode::RequestConflict, "prepared.configuration"))
                } else {
                    match read_as::<PreparedModelProjection>(records, root.context_projection) {
                        None => refuse(ledger_fault()),
                        Some(projection) => if !is_identical(root, projection, route, snapshot) {
                            refuse(fault(ErrorCode::InvalidSnapshot, "prepared.identity"))
                        } else if projection.request.defect is Some {
                            refuse(projection.request.defect)
                        } else {
                            FindingView::Found { projection }
                        },
                    }
                },
            }
        },
    }
}

fn refused(code: ErrorCode, path: &str) -> (r: Finding)
    ensures
        r@ == refuse(fault(code, path)),
{
    Finding::Refused { error: ContractError::new(code, path) }
}

fn examine(
    input: &RoutedModelInput,
    route: &ResolvedModelRoute,
    configuration: &ModelConfiguration,
    snapshot: &RunSnapshot,
    records: &Vec<ProtectedRecord>,
    reference: &RecordRef,
) -> (r: Finding)
    ensures
        r@ == finding_of(
            input@,
            route@,
            configuration@,
            snapshot@,
            records.deep_view(),
            reference@,
        ),
{
    let root: &PreparedStepRecord = match read_record::<PreparedStepRecord>(records, reference) {
        Some(root) => root,
        None => {
            return refused(ErrorCode::RevisionConflict, "model.ledger");
        },
    };
    if !root.model_step_id.same(&input.model_step_id) || root.purpose != input.routing.purpose {
        return Finding::Other;
    }
    let saved: &SavedConfiguration = match read_record::<SavedConfiguration>(
        records,
        &root.model_configuration,
    ) {
        Some(saved) => saved,
        None => {
            return refused(ErrorCode::RevisionConflict, "model.ledger");
        },
    };
    match &saved.route {
        None => {
            return refused(ErrorCode::RevisionConflict, "model.ledger");
        },
        Some(pinned) => {
            if !pinned.same(route) {
                return Finding::Other;
            }
        },
    }
    match &saved.configuration {
        None => {
            return refused(ErrorCode::RevisionConflict, "model.ledger");
        },
        Some(pinned) => {
            if !pinned.same(configuration) {
                return refused(ErrorCode::RequestConflict, "prepared.configuration");
            }
        },
    }
    let projection: &PreparedModelProjection = match read_record::<PreparedModelProjection>(
        records,
        &root.context_projection,
    ) {
        Some(projection) => projection,
        None => {
            return refused(ErrorCode::RevisionConflict, "model.ledger");
        },
    };
    if !is_same_projection(root, projection, route, snapshot) {
        return refused(ErrorCode::InvalidSnapshot, "prepared.identity");
    }
    match &projection.request.defect {
        Some(error) => Finding::Refused { error: error.copy() },
        None => Finding::Found { projection: projection.copy() },
    }
}

/// The latest preparation that decides about a step, with what it is.
pub open spec fn latest_finding(
    input: RoutedModelInputView,
    route: ResolvedModelRouteView,
    configuration: ModelConfigurationView,
    snapshot: RunSnapshotView,
    records: Seq<ProtectedRecordView>,
    references: Seq<RecordRefView>,
) -> Option<(RecordRefView, FindingView)>
    decreases references.len(),
{
    if references.len() == 0 {
        None
    } else {
        let finding = finding_of(
            input,
            route,
            configuration,
            snapshot,
            records,
            references.last(),
        );
        if finding is Other {
            latest_finding(
                input,
                route,
                configuration,
                snapshot,
                records,
                references.drop_last(),
            )
        } else {
            Some((references.last(), finding))
        }
    }
}

/// Find the preparation that a step already has on its route, latest first, among records that were
/// read. The same route with another configuration is a conflict.
pub fn load_preparation(
    input: &RoutedModelInput,
    route: &ResolvedModelRoute,
    configuration: &ModelConfiguration,
    snapshot: &RunSnapshot,
    records: &Vec<ProtectedRecord>,
) -> (r: Result<Option<StoredPreparation>, ContractError>)
    ensures
        ({
            let latest = latest_finding(
                input@,
                route@,
                configuration@,
                snapshot@,
                records.deep_view(),
                snapshot@.prepared_steps,
            );
            &&& failure(r) == (match latest {
                Some((_, FindingView::Refused { error })) => Some(error),
                _ => None,
            })
            &&& r matches Ok(stored) ==> stored.deep_view() == (match latest {
                Some((reference, FindingView::Found { projection })) => Some(
                    StoredPreparationView { reference, projection },
                ),
                _ => None,
            })
        }),
{
    let ghost s = snapshot@.prepared_steps;
    let mut i: usize = snapshot.prepared_steps.len();
    assert(s.len() == snapshot.prepared_steps.len());
    assert(s.take(i as int) =~= s);
    while i > 0
        invariant
            i <= snapshot.prepared_steps.len(),
            s == snapshot@.prepared_steps,
            s.len() == snapshot.prepared_steps.len(),
            latest_finding(input@, route@, configuration@, snapshot@, records.deep_view(), s)
                == latest_finding(
                input@,
                route@,
                configuration@,
                snapshot@,
                records.deep_view(),
                s.take(i as int),
            ),
        decreases i,
    {
        let reference = &snapshot.prepared_steps[i - 1];
        assert(s.take(i as int).last() == reference@);
        assert(s.take(i as int).drop_last() =~= s.take(i - 1));
        match examine(input, route, configuration, snapshot, records, reference) {
            Finding::Other => {},
            Finding::Refused { error } => {
                return Err(error);
            },
            Finding::Found { projection } => {
                return Ok(Some(StoredPreparation { reference: reference.copy(), projection }));
            },
        }
        i = i - 1;
    }
    Ok(None)
}

/// Inputs of a step.
pub open spec fn is_input_of(records: Seq<ProtectedRecordView>, step: Seq<char>) -> spec_fn(
    RecordRefView,
) -> bool {
    |reference: RecordRefView|
        match read_as::<SavedStep>(records, reference) {
            Some(saved) => saved.input.model_step_id == step,
            None => false,
        }
}

/// The saved input of a step.
pub open spec fn step_input_of(
    snapshot: RunSnapshotView,
    records: Seq<ProtectedRecordView>,
    step: Seq<char>,
) -> Option<RecordRefView> {
    first_in(snapshot.model_step_inputs, is_input_of(records, step))
}

/// The conversation boundary of a step.
pub open spec fn boundary_of(records: Seq<ProtectedRecordView>, reference: RecordRefView) -> Option<
    u64,
> {
    match read_as::<SavedStep>(records, reference) {
        Some(saved) => saved.through_sequence,
        None => None,
    }
}

/// Why the input of a step is not known.
pub open spec fn step_input_fault(
    snapshot: RunSnapshotView,
    records: Seq<ProtectedRecordView>,
    step: Seq<char>,
) -> Option<Fault> {
    match step_input_of(snapshot, records, step) {
        None => ledger_fault(),
        Some(reference) => if boundary_of(records, reference) is None {
            ledger_fault()
        } else {
            None
        },
    }
}

/// The input of a step, with its conversation boundary.
struct StepInput {
    reference: RecordRef,
    through_sequence: u64,
}

fn find_step_input(snapshot: &RunSnapshot, records: &Vec<ProtectedRecord>, step: &Id) -> (r: Result<
    StepInput,
    ContractError,
>)
    ensures
        failure(r) == step_input_fault(snapshot@, records.deep_view(), step@),
        r matches Ok(input) ==> step_input_of(snapshot@, records.deep_view(), step@) == Some(
            input.reference@,
        ) && boundary_of(records.deep_view(), input.reference@) == Some(input.through_sequence),
{
    let wanted = |reference: &RecordRef| -> (b: bool)
        ensures
            b == is_input_of(records.deep_view(), step@)(reference@),
    {
        match read_record::<SavedStep>(records, reference) {
            Some(saved) => saved.input.model_step_id.same(step),
            None => false,
        }
    };
    match find(
        &snapshot.model_step_inputs,
        wanted,
        Ghost(is_input_of(records.deep_view(), step@)),
    ) {
        None => conflict(),
        Some(reference) => match read_record::<SavedStep>(records, reference) {
            None => conflict(),
            Some(saved) => match saved.through_sequence {
                Some(through_sequence) => Ok(
                    StepInput { reference: reference.copy(), through_sequence },
                ),
                None => conflict(),
            },
        },
    }
}

/// Why the revisions of a step cannot be counted past a preparation.
pub open spec fn revision_fault(
    references: Seq<RecordRefView>,
    records: Seq<ProtectedRecordView>,
    step: Seq<char>,
) -> spec_fn(int) -> Option<Fault> {
    |i: int|
        match read_as::<PreparedStepRecord>(records, references[i]) {
            None => ledger_fault(),
            Some(prior) => if prior.model_step_id == step && prior.projection_revision == u64::MAX {
                ledger_fault()
            } else {
                None
            },
        }
}

/// The revision after the latest preparation of a step; the first one is one.
pub open spec fn next_revision(
    references: Seq<RecordRefView>,
    records: Seq<ProtectedRecordView>,
    step: Seq<char>,
) -> int
    decreases references.len(),
{
    if references.len() == 0 {
        1
    } else {
        match read_as::<PreparedStepRecord>(records, references.last()) {
            Some(prior) => if prior.model_step_id == step {
                prior.projection_revision + 1
            } else {
                next_revision(references.drop_last(), records, step)
            },
            None => next_revision(references.drop_last(), records, step),
        }
    }
}

fn count_revisions(
    references: &Vec<RecordRef>,
    records: &Vec<ProtectedRecord>,
    step: &Id,
) -> (r: Result<u64, ContractError>)
    ensures
        failure(r) == first_index_fault(
            0,
            references.deep_view().len() as int,
            revision_fault(references.deep_view(), records.deep_view(), step@),
        ),
        r matches Ok(revision) ==> revision == next_revision(
            references.deep_view(),
            records.deep_view(),
            step@,
        ),
{
    let ghost s = references.deep_view();
    let ghost given = records.deep_view();
    let ghost f = revision_fault(s, given, step@);
    let ghost n = s.len() as int;
    let mut revision: u64 = 1;
    let mut i: usize = 0;
    assert(s.take(0) =~= Seq::<RecordRefView>::empty());
    while i < references.len()
        invariant
            i <= references.len(),
            s == references.deep_view(),
            given == records.deep_view(),
            f == revision_fault(s, given, step@),
            n == references.len(),
            revision == next_revision(s.take(i as int), given, step@),
            first_index_fault(0, n, f) == first_index_fault(i as int, n, f),
        decreases references.len() - i,
    {
        assert(s[i as int] == references@[i as int]@);
        assert(s.take(i + 1).drop_last() =~= s.take(i as int));
        assert(s.take(i + 1).last() == s[i as int]);
        match read_record::<PreparedStepRecord>(records, &references[i]) {
            None => {
                return conflict();
            },
            Some(prior) => {
                if prior.model_step_id.same(step) {
                    if prior.projection_revision == u64::MAX {
                        return conflict();
                    }
                    revision = prior.projection_revision + 1;
                }
            },
        }
        i = i + 1;
    }
    assert(s.take(i as int) =~= s);
    Ok(revision)
}

/// The digest that names the records of one preparation.
pub open spec fn preparation_key(run_id: Seq<char>, step: Seq<char>, revision: int) -> Seq<char> {
    digest_of(
        JsonView::Array(
            seq![
                JsonView::Text(run_id),
                JsonView::Text(step),
                JsonView::Number(decimal_text(revision as nat)),
            ],
        ),
    )
}

fn key_of(run_id: &Id, step: &Id, revision: u64) -> (r: JsonDigest)
    ensures
        r@ == preparation_key(run_id@, step@, revision as int),
{
    let mut items: Vec<Json> = Vec::new();
    items.push(text(run_id.as_str()));
    items.push(text(step.as_str()));
    items.push(number(revision));
    assert(items.deep_view() =~= seq![
        JsonView::Text(run_id@),
        JsonView::Text(step@),
        JsonView::Number(decimal_text(revision as nat)),
    ]);
    canonical_digest(&array(items))
}

/// A record of a preparation.
pub open spec fn child_record(
    key: Seq<char>,
    name: Seq<char>,
    value: JsonView,
    content: RecordContentView,
) -> ProtectedRecordView {
    ProtectedRecordView {
        reference: RecordRefView {
            record_id: "prepared-"@ + (key + ("-"@ + name)),
            revision: 1,
            digest: digest_of(value),
        },
        value,
        content,
    }
}

fn child(key: &JsonDigest, name: &str, value: Json, content: RecordContent) -> (r: ProtectedRecord)
    ensures
        r@ == child_record(key@, name@, value@, content@),
{
    proof {
        reveal_strlit("prepared-");
        assert(!white_space("prepared-"@[0]));
    }
    let rest = concat("-", name);
    let rest = concat(key.as_str(), rest.as_str());
    ProtectedRecord::new(Id::prefixed("prepared-", rest.as_str()), 1, value, content)
}

/// Why an advertised tool does not rest on its contract.
pub open spec fn tool_fault(
    entries: Seq<ResolvedToolSetEntryView>,
    contracts: Seq<CompiledToolContractView>,
    wires: Seq<ModelToolView>,
    target: ProviderToolTargetView,
) -> spec_fn(int) -> Option<Fault> {
    |i: int|
        {
            let contract = contracts[i];
            let restored = contract_restore_fault(
                text_of_value(contract_json(contract)),
                Some(SavedContractView { data: contract.data, digest: contract.digest }),
                entries[i].restored->tool,
                target,
                contract.digest,
                usual_limits(),
            );
            if entry_fault(entries[i]) is Some {
                entry_fault(entries[i])
            } else if restored is Some {
                restored
            } else if contract.data.wire_tool != wires[i] {
                fault(ErrorCode::InvalidContract, "prepared.wire_tool")
            } else {
                None
            }
        }
}

/// The record of the contract at a position.
pub open spec fn contract_record(
    key: Seq<char>,
    contracts: Seq<CompiledToolContractView>,
) -> spec_fn(int) -> ProtectedRecordView {
    |i: int|
        child_record(
            key,
            "tool-"@ + decimal_text(i as nat),
            contract_json(contracts[i]),
            RecordContentView::Contract(
                SavedContractView { data: contracts[i].data, digest: contracts[i].digest },
            ),
        )
}

fn check_tool(
    entry: &ResolvedToolSetEntry,
    contract: &CompiledToolContract,
    wire: &crate::model::ModelTool,
    target: &ProviderToolTarget,
    value: &Json,
) -> (r: Result<(), ContractError>)
    requires
        value@ == contract_json(contract@),
    ensures
        failure(r) == tool_fault(
            seq![entry@],
            seq![contract@],
            seq![wire@],
            target@,
        )(0),
{
    let tool = entry.restore_tool()?;
    let restored = CompiledToolContract::restore_text(
        &JsonText::of_value(value),
        Some(&contract.saved()),
        &tool,
        target,
        contract.digest(),
        &ProviderToolSchemaLimits::default(),
    )?;
    if !restored.wire_tool().same(wire) {
        return fail(ErrorCode::InvalidContract, "prepared.wire_tool");
    }
    Ok(())
}

fn contract_records(
    key: &JsonDigest,
    entries: &Vec<ResolvedToolSetEntry>,
    contracts: &Vec<CompiledToolContract>,
    wires: &Vec<crate::model::ModelTool>,
    target: &ProviderToolTarget,
) -> (r: Result<Vec<ProtectedRecord>, ContractError>)
    requires
        entries.len() == contracts.len(),
        wires.len() == contracts.len(),
    ensures
        failure(r) == first_index_fault(
            0,
            contracts.deep_view().len() as int,
            tool_fault(
                entries.deep_view(),
                contracts.deep_view(),
                wires.deep_view(),
                target@,
            ),
        ),
        r matches Ok(records) ==> records.deep_view() == Seq::new(
            contracts.deep_view().len(),
            contract_record(key@, contracts.deep_view()),
        ),
{
    let ghost n = contracts.deep_view().len() as int;
    let ghost f = tool_fault(
        entries.deep_view(),
        contracts.deep_view(),
        wires.deep_view(),
        target@,
    );
    let ghost g = contract_record(key@, contracts.deep_view());
    let mut out: Vec<ProtectedRecord> = Vec::new();
    let mut i: usize = 0;
    assert(out.deep_view() =~= Seq::new(0, g));
    while i < contracts.len()
        invariant
            i <= contracts.len(),
            entries.len() == contracts.len(),
            wires.len() == contracts.len(),
            n == contracts.len(),
            f == tool_fault(
                entries.deep_view(),
                contracts.deep_view(),
                wires.deep_view(),
                target@,
            ),
            g == contract_record(key@, contracts.deep_view()),
            out.deep_view() == Seq::new(i as nat, g),
            first_index_fault(0, n, f) == first_index_fault(i as int, n, f),
        decreases contracts.len() - i,
    {
        let contract = &contracts[i];
        assert(entries.deep_view()[i as int] == entries@[i as int]@);
        assert(contracts.deep_view()[i as int] == contract@);
        assert(wires.deep_view()[i as int] == wires@[i as int]@);
        let value = encode_contract(contract);
        assert(tool_fault(
            seq![entries@[i as int]@],
            seq![contract@],
            seq![wires@[i as int]@],
            target@,
        )(0) == f(i as int));
        check_tool(&entries[i], contract, &wires[i], target, &value)?;
        let name = concat("tool-", decimal(i as u64).as_str());
        let record = child(key, name.as_str(), value, RecordContent::Contract(contract.saved()));
        let ghost item = record@;
        let ghost before = out.deep_view();
        assert(item == g(i as int));
        out.push(record);
        assert(out.deep_view() =~= before.push(item));
        assert(Seq::new((i + 1) as nat, g) =~= Seq::new(i as nat, g).push(g(i as int)));
        i = i + 1;
    }
    Ok(out)
}

/// References of records.
pub open spec fn reference_of() -> spec_fn(ProtectedRecordView) -> RecordRefView {
    |record: ProtectedRecordView| record.reference
}

/// The tools of a preparation.
pub open spec fn tool_set_of(
    snapshot: RunSnapshotView,
    prepared: ProjectedModelRequestView,
) -> ResolvedToolSetView {
    ResolvedToolSetView {
        schema_version: "wickle.resolved-tool-set.v1"@,
        scope: snapshot.scope,
        run_id: snapshot.run_id,
        entries: prepared.tool_set,
    }
}

/// The projection of a preparation: its provenance names the context revision of the run and the
/// conversation boundary of the step.
pub open spec fn projection_of(
    snapshot: RunSnapshotView,
    prepared: ProjectedModelRequestView,
    through_sequence: u64,
) -> PreparedModelProjectionView {
    PreparedModelProjectionView {
        schema_version: "wickle.prepared-projection.v1"@,
        scope: snapshot.scope,
        run_id: snapshot.run_id,
        request: prepared.request,
        input_tokens: prepared.input_tokens,
        provenance: ProjectionProvenanceView {
            context_revision_ref: snapshot.context_revision_ref,
            through_sequence,
            ..prepared.provenance
        },
    }
}

/// The encoded route and configuration of a preparation.
pub open spec fn settings_json(
    route: ResolvedModelRouteView,
    configuration: ModelConfigurationView,
) -> JsonView {
    JsonView::Object(
        seq![
            MemberView { key: "configuration"@, value: configuration_json(configuration) },
            MemberView { key: "route"@, value: route_json(route) },
        ],
    )
}

/// The record of a tool set.
#[verifier::opaque]
pub open spec fn tool_set_record(key: Seq<char>, tool_set: ResolvedToolSetView) -> ProtectedRecordView {
    child_record(key, "tool-set"@, tool_set_json(tool_set), RecordContentView::ToolSet(tool_set))
}

/// The record of a route and its configuration.
#[verifier::opaque]
pub open spec fn settings_record(
    key: Seq<char>,
    route: ResolvedModelRouteView,
    configuration: ModelConfigurationView,
) -> ProtectedRecordView {
    child_record(
        key,
        "configuration"@,
        settings_json(route, configuration),
        RecordContentView::Configuration(
            SavedConfigurationView { route: Some(route), configuration: Some(configuration) },
        ),
    )
}

/// The record of a projection.
#[verifier::opaque]
pub open spec fn projection_record(
    key: Seq<char>,
    projection: PreparedModelProjectionView,
) -> ProtectedRecordView {
    child_record(
        key,
        "projection"@,
        projection_json(projection),
        RecordContentView::Projection(projection),
    )
}

/// The record of the root of a preparation.
#[verifier::opaque]
pub open spec fn root_record(key: Seq<char>, root: PreparedStepRecordView) -> ProtectedRecordView {
    child_record(
        key,
        "step"@,
        prepared_step_json(root),
        RecordContentView::PreparedStep(root),
    )
}

fn record_tool_set(key: &JsonDigest, tool_set: ResolvedToolSet) -> (r: ProtectedRecord)
    ensures
        r@ == tool_set_record(key@, tool_set@),
{
    proof {
        reveal(tool_set_record);
    }
    let value = encode_tool_set(&tool_set);
    child(key, "tool-set", value, RecordContent::ToolSet(tool_set))
}

fn record_settings(
    key: &JsonDigest,
    route: &ResolvedModelRoute,
    configuration: &ModelConfiguration,
) -> (r: ProtectedRecord)
    ensures
        r@ == settings_record(key@, route@, configuration@),
{
    proof {
        reveal(settings_record);
    }
    let members = with_member(
        no_members(),
        "configuration",
        encode_configuration(configuration),
    );
    let members = with_member(members, "route", encode_route(route));
    assert(members.deep_view() =~= settings_json(route@, configuration@)->Object_0);
    child(
        key,
        "configuration",
        object(members),
        RecordContent::Configuration(
            SavedConfiguration {
                route: Some(route.copy()),
                configuration: Some(configuration.copy()),
            },
        ),
    )
}

fn record_projection(key: &JsonDigest, projection: &PreparedModelProjection) -> (r: ProtectedRecord)
    ensures
        r@ == projection_record(key@, projection@),
{
    proof {
        reveal(projection_record);
    }
    let value = encode_projection(projection);
    child(key, "projection", value, RecordContent::Projection(Box::new(projection.copy())))
}

fn record_root(key: &JsonDigest, root: &PreparedStepRecord) -> (r: ProtectedRecord)
    ensures
        r@ == root_record(key@, root@),
{
    proof {
        reveal(root_record);
    }
    let value = encode_prepared_step(root);
    child(key, "step", value, RecordContent::PreparedStep(root.copy()))
}

/// The root of a preparation.
pub open spec fn root_of(
    snapshot: RunSnapshotView,
    projection: PreparedModelProjectionView,
    reason: Seq<char>,
    step_input: RecordRefView,
    revision: u64,
    compiled_tools: Seq<RecordRefView>,
    settings: RecordRefView,
    tools: RecordRefView,
    projected: RecordRefView,
) -> PreparedStepRecordView {
    PreparedStepRecordView {
        step_input,
        scope: snapshot.scope,
        run_id: snapshot.run_id,
        profile_digest: snapshot.profile.profile_digest,
        assembly_ref: snapshot.assembly_ref,
        projection_fingerprint: fingerprint_of(projection),
        change_reason: reason,
        schema_version: ExecutionRecordVersion::V1,
        purpose: projection.request.purpose,
        compiled_tools,
        model_step_id: projection.request.request_id,
        projection_revision: revision,
        model_configuration: settings,
        tool_set: tools,
        context_projection: projected,
        assembler: VersionedRefView { id: "wickle-prepared-model"@, version: "1"@ },
    }
}

/// The records of a preparation and its root: the contracts of its tools, the tool set, the route with
/// its configuration, the projection, and the root that names them all.
pub open spec fn prepared_records(
    snapshot: RunSnapshotView,
    prepared: ProjectedModelRequestView,
    configuration: ModelConfigurationView,
    route: ResolvedModelRouteView,
    reason: Seq<char>,
    step_input: RecordRefView,
    through_sequence: u64,
    revision: u64,
) -> PreparedRecordsView {
    let key = preparation_key(snapshot.run_id, prepared.request.request_id, revision as int);
    let contracts = Seq::new(
        prepared.compiled_tools.len(),
        contract_record(key, prepared.compiled_tools),
    );
    let tools = tool_set_record(key, tool_set_of(snapshot, prepared));
    let settings = settings_record(key, route, configuration);
    let projection = projection_of(snapshot, prepared, through_sequence);
    let projected = projection_record(key, projection);
    let root = root_of(
        snapshot,
        projection,
        reason,
        step_input,
        revision,
        contracts.map_values(reference_of()),
        settings.reference,
        tools.reference,
        projected.reference,
    );
    let rooted = root_record(key, root);
    PreparedRecordsView {
        records: contracts.push(tools).push(settings).push(projected).push(rooted),
        root,
        stored: StoredPreparationView { reference: rooted.reference, projection },
    }
}

/// Why the tools of a preparation do not fit together.
pub open spec fn tools_fault(
    snapshot: RunSnapshotView,
    prepared: ProjectedModelRequestView,
    route: ResolvedModelRouteView,
) -> Option<Fault> {
    or_else(
        shape_fault(tool_set_of(snapshot, prepared)),
        if prepared.compiled_tools.len() != prepared.tool_set.len() || prepared.compiled_tools.len()
            != prepared.request.tools.len() {
            fault(ErrorCode::InvalidContract, "prepared.tool_count")
        } else {
            first_index_fault(
                0,
                prepared.compiled_tools.len() as int,
                tool_fault(
                    prepared.tool_set,
                    prepared.compiled_tools,
                    prepared.request.tools,
                    target_of(route),
                ),
            )
        },
    )
}

fn assembler() -> (r: VersionedRef)
    ensures
        r@ == (VersionedRefView { id: "wickle-prepared-model"@, version: "1"@ }),
{
    proof {
        reveal_strlit("wickle-prepared-model");
        assert(!white_space("wickle-prepared-model"@[0]));
        reveal_strlit("1");
        assert(!white_space("1"@[0]));
    }
    VersionedRef { id: Id::literal("wickle-prepared-model"), version: Id::literal("1") }
}

fn assemble(
    snapshot: &RunSnapshot,
    prepared: &ProjectedModelRequest,
    configuration: &ModelConfiguration,
    route: &ResolvedModelRoute,
    reason: &Id,
    input: &StepInput,
    revision: u64,
) -> (r: Result<PreparedRecords, ContractError>)
    ensures
        failure(r) == tools_fault(snapshot@, prepared@, route@),
        r matches Ok(records) ==> records@ == prepared_records(
            snapshot@,
            prepared@,
            configuration@,
            route@,
            reason@,
            input.reference@,
            input.through_sequence,
            revision,
        ),
{
    let step = &prepared.request.request_id;
    let key = key_of(&snapshot.run_id, step, revision);
    let tool_set = ResolvedToolSet {
        schema_version: "wickle.resolved-tool-set.v1".to_owned(),
        scope: snapshot.scope.copy(),
        run_id: snapshot.run_id.copy(),
        entries: prepared.tool_set.copy(),
    };
    assert(tool_set@ == tool_set_of(snapshot@, prepared@));
    tool_set.validate_shape()?;
    assert(prepared@.compiled_tools.len() == prepared.compiled_tools.len());
    assert(prepared@.tool_set.len() == prepared.tool_set.len());
    assert(prepared@.request.tools.len() == prepared.request.tools.len());
    if prepared.compiled_tools.len() != prepared.tool_set.len() || prepared.compiled_tools.len()
        != prepared.request.tools.len() {
        return fail(ErrorCode::InvalidContract, "prepared.tool_count");
    }
    let target = ProviderToolTarget::for_route(route);
    let mut records = contract_records(
        &key,
        &prepared.tool_set,
        &prepared.compiled_tools,
        &prepared.request.tools,
        &target,
    )?;
    let ghost contracts = records.deep_view();
    let refer = |record: &ProtectedRecord| -> (r: RecordRef)
        ensures
            r@ == reference_of()(record@),
    { record.reference().copy() };
    let compiled_tools = map_each(&records, refer, Ghost(reference_of()));
    let tools = record_tool_set(&key, tool_set);
    let settings = record_settings(&key, route, configuration);
    let mut provenance = prepared.provenance.copy();
    provenance.context_revision_ref = snapshot.context_revision_ref.copy();
    provenance.through_sequence = input.through_sequence;
    let projection = PreparedModelProjection {
        schema_version: "wickle.prepared-projection.v1".to_owned(),
        scope: snapshot.scope.copy(),
        run_id: snapshot.run_id.copy(),
        request: prepared.request.copy(),
        input_tokens: prepared.input_tokens,
        provenance,
    };
    assert(projection@ == projection_of(snapshot@, prepared@, input.through_sequence));
    let projected = record_projection(&key, &projection);
    let root = PreparedStepRecord {
        step_input: input.reference.copy(),
        scope: snapshot.scope.copy(),
        run_id: snapshot.run_id.copy(),
        profile_digest: snapshot.profile.profile_digest().copy(),
        assembly_ref: snapshot.assembly_ref.copy(),
        projection_fingerprint: projection.fingerprint(),
        change_reason: reason.copy(),
        schema_version: ExecutionRecordVersion::V1,
        purpose: prepared.request.purpose,
        compiled_tools,
        model_step_id: step.copy(),
        projection_revision: revision,
        model_configuration: settings.reference().copy(),
        tool_set: tools.reference().copy(),
        context_projection: projected.reference().copy(),
        assembler: assembler(),
    };
    let rooted = record_root(&key, &root);
    let reference = rooted.reference().copy();
    let ghost added = seq![tools@, settings@, projected@, rooted@];
    records.push(tools);
    records.push(settings);
    records.push(projected);
    records.push(rooted);
    assert(records.deep_view() =~= contracts.push(added[0]).push(added[1]).push(added[2]).push(
        added[3],
    ));
    Ok(PreparedRecords { records, root, stored: StoredPreparation { reference, projection } })
}

/// Why a preparation cannot be saved.
pub open spec fn saving_fault(
    snapshot: RunSnapshotView,
    records: Seq<ProtectedRecordView>,
    prepared: ProjectedModelRequestView,
    route: ResolvedModelRouteView,
    settlement: SettlementView,
) -> Option<Fault> {
    let step = prepared.request.request_id;
    or_else(
        step_input_fault(snapshot, records, step),
        or_else(
            first_index_fault(
                0,
                snapshot.prepared_steps.len() as int,
                revision_fault(snapshot.prepared_steps, records, step),
            ),
            or_else(
                tools_fault(snapshot, prepared, route),
                or_else(
                    settlement_fault(settlement),
                    if snapshot.revision == u64::MAX {
                        ledger_fault()
                    } else {
                        None
                    },
                ),
            ),
        ),
    )
}

/// A checkpoint with one more preparation. That of an agent step becomes the active one.
pub open spec fn with_preparation(
    snapshot: RunSnapshotView,
    root: PreparedStepRecordView,
    reference: RecordRefView,
    settlement: SettlementView,
) -> RunSnapshotView {
    let next = settled(snapshot, settlement);
    let is_agent = root.purpose == ModelPurpose::Agent;
    RunSnapshotView {
        prepared_steps: snapshot.prepared_steps.push(reference),
        model_step_id: if is_agent {
            Some(root.model_step_id)
        } else {
            snapshot.model_step_id
        },
        active_prepared_step: if is_agent {
            Some(reference)
        } else {
            snapshot.active_prepared_step
        },
        ..next
    }
}

/// The records of the preparation that is saved.
pub open spec fn new_records(
    snapshot: RunSnapshotView,
    records: Seq<ProtectedRecordView>,
    prepared: ProjectedModelRequestView,
    configuration: ModelConfigurationView,
    route: ResolvedModelRouteView,
    reason: Seq<char>,
) -> PreparedRecordsView {
    let step = prepared.request.request_id;
    let step_input = step_input_of(snapshot, records, step)->0;
    prepared_records(
        snapshot,
        prepared,
        configuration,
        route,
        reason,
        step_input,
        boundary_of(records, step_input)->0,
        next_revision(snapshot.prepared_steps, records, step) as u64,
    )
}

/// Freeze a prepared request before its model is called: every record of the preparation, and the
/// checkpoint that names it. `records` are those of the run's step inputs and earlier preparations;
/// `reason` names why the route was selected.
pub fn save_preparation(
    snapshot: RunSnapshot,
    records: &Vec<ProtectedRecord>,
    prepared: &ProjectedModelRequest,
    configuration: &ModelConfiguration,
    selection: &RouteSelection,
    reason: &Id,
    lease: &RunLease,
    settlement: &Settlement,
) -> (r: Result<SavedPreparation, ContractError>)
    ensures
        failure(r) == saving_fault(
            snapshot@,
            records.deep_view(),
            prepared@,
            selection@.route,
            settlement@,
        ),
        r matches Ok(saved) ==> ({
            let new = new_records(
                snapshot@,
                records.deep_view(),
                prepared@,
                configuration@,
                selection@.route,
                reason@,
            );
            saved@ == (SavedPreparationView {
                input: commit_of(
                    snapshot@.revision,
                    lease@,
                    settlement@->now_ms,
                    with_preparation(snapshot@, new.root, new.stored.reference, settlement@),
                    new.records,
                ),
                stored: new.stored,
            })
        }),
{
    let ghost before = snapshot@;
    let step = &prepared.request.request_id;
    let input = find_step_input(&snapshot, records, step)?;
    let revision: u64 = count_revisions(&snapshot.prepared_steps, records, step)?;
    let new = assemble(
        &snapshot,
        prepared,
        configuration,
        &selection.route,
        reason,
        &input,
        revision,
    )?;
    let (elapsed, now): (u64, i64) = match settlement {
        Settlement::Refused { error } => {
            return Err(error.copy());
        },
        Settlement::Known { elapsed_ms, now_ms } => (*elapsed_ms, *now_ms),
    };
    if snapshot.revision == u64::MAX {
        return conflict();
    }
    let expected_revision: u64 = snapshot.revision;
    let PreparedRecords { records: added, root, stored } = new;
    let mut next = snapshot;
    next.revision = expected_revision + 1;
    next.usage.elapsed_ms = elapsed;
    next.timing.last_observed_at_ms = now;
    next.prepared_steps.push(stored.reference.copy());
    assert(next.prepared_steps.deep_view() =~= before.prepared_steps.push(stored@.reference));
    if root.purpose == ModelPurpose::Agent {
        next.model_step_id = Some(root.model_step_id.copy());
        next.active_prepared_step = Some(stored.reference.copy());
    }
    assert(next@ == with_preparation(before, root@, stored@.reference, settlement@));
    let input = commit_checkpoint(expected_revision, lease, now, next, added);
    Ok(SavedPreparation { input, stored })
}

/// A preparation that was saved is the one that is found again, on the same route with the same
/// configuration, as long as its records can be read and nothing else was prepared since.
pub proof fn law_saved_preparation_is_found(
    snapshot: RunSnapshotView,
    records: Seq<ProtectedRecordView>,
    prepared: ProjectedModelRequestView,
    configuration: ModelConfigurationView,
    selection: RouteSelectionView,
    reason: Seq<char>,
    settlement: SettlementView,
    input: RoutedModelInputView,
    read: Seq<ProtectedRecordView>,
)
    requires
        saving_fault(snapshot, records, prepared, selection.route, settlement) is None,
        prepared.request.route == selection.route,
        prepared.request.defect is None,
        input.model_step_id == prepared.request.request_id,
        input.routing.purpose == prepared.request.purpose,
        ({
            let new = new_records(
                snapshot,
                records,
                prepared,
                configuration,
                selection.route,
                reason,
            );
            forall|i: int|
                0 <= i < new.records.len() ==> record_named(
                    read,
                    (#[trigger] new.records[i]).reference,
                ) == Some(new.records[i])
        }),
    ensures
        ({
            let new = new_records(
                snapshot,
                records,
                prepared,
                configuration,
                selection.route,
                reason,
            );
            let next = with_preparation(snapshot, new.root, new.stored.reference, settlement);
            latest_finding(
                input,
                selection.route,
                configuration,
                next,
                read,
                next.prepared_steps,
            ) == Some(
                (
                    new.stored.reference,
                    FindingView::Found { projection: new.stored.projection },
                ),
            )
        }),
{
    let new = new_records(snapshot, records, prepared, configuration, selection.route, reason);
    let next = with_preparation(snapshot, new.root, new.stored.reference, settlement);
    reveal(settings_record);
    reveal(projection_record);
    reveal(root_record);
    let n = new.records.len();
    assert(n >= 4);
    let settings = new.records[n - 3];
    let projected = new.records[n - 2];
    let rooted = new.records[n - 1];
    assert(record_named(read, rooted.reference) == Some(rooted));
    assert(record_named(read, settings.reference) == Some(settings));
    assert(record_named(read, projected.reference) == Some(projected));
    assert(next.prepared_steps.last() == new.stored.reference);
    assert(read_as::<PreparedStepRecord>(read, new.stored.reference) == Some(new.root));
    assert(read_as::<SavedConfiguration>(read, new.root.model_configuration) == Some(
        SavedConfigurationView {
            route: Some(selection.route),
            configuration: Some(configuration),
        },
    ));
    assert(read_as::<PreparedModelProjection>(read, new.root.context_projection) == Some(
        new.stored.projection,
    ));
}

/// Every preparation of a step has a later revision than the one before it.
pub proof fn law_revisions_advance(
    references: Seq<RecordRefView>,
    records: Seq<ProtectedRecordView>,
    step: Seq<char>,
)
    requires
        references.len() > 0,
        first_index_fault(
            0,
            references.len() as int,
            revision_fault(references, records, step),
        ) is None,
        read_as::<PreparedStepRecord>(records, references.last()) is Some,
        read_as::<PreparedStepRecord>(records, references.last())->0.model_step_id == step,
    ensures
        next_revision(references, records, step) == read_as::<PreparedStepRecord>(
            records,
            references.last(),
        )->0.projection_revision + 1,
{
}

/// A saved preparation is used again only for the step, the purpose, the route and the configuration
/// that it was made for, in the run that it was made in, and only as it was saved.
pub proof fn law_preparations_are_used_where_they_were_made(
    input: RoutedModelInputView,
    route: ResolvedModelRouteView,
    configuration: ModelConfigurationView,
    snapshot: RunSnapshotView,
    records: Seq<ProtectedRecordView>,
    reference: RecordRefView,
)
    requires
        finding_of(input, route, configuration, snapshot, records, reference) is Found,
    ensures
        ({
            let projection = finding_of(
                input,
                route,
                configuration,
                snapshot,
                records,
                reference,
            )->projection;
            &&& read_as::<PreparedStepRecord>(records, reference) matches Some(root)
                && root.model_step_id == input.model_step_id && root.purpose
                == input.routing.purpose && root.scope == snapshot.scope && root.run_id
                == snapshot.run_id && root.profile_digest == snapshot.profile.profile_digest
                && root.projection_fingerprint == fingerprint_of(projection) && (read_as::<
                SavedConfiguration,
            >(records, root.model_configuration) matches Some(saved) && saved.configuration == Some(
                configuration,
            ) && saved.route == Some(route))
            &&& projection.scope == snapshot.scope
            &&& projection.run_id == snapshot.run_id
            &&& projection.request.route == route
            &&& projection.request.request_id == input.model_step_id
            &&& projection.request.purpose == input.routing.purpose
            &&& projection.request.defect is None
        }),
{
}

/// Saving a preparation adds it behind the earlier ones and changes none of them. That of an agent step
/// becomes the active one; another leaves the active one as it is.
pub proof fn law_preparations_are_kept(
    snapshot: RunSnapshotView,
    root: PreparedStepRecordView,
    reference: RecordRefView,
    settlement: SettlementView,
)
    ensures
        ({
            let next = with_preparation(snapshot, root, reference, settlement);
            &&& next.prepared_steps.len() == snapshot.prepared_steps.len() + 1
            &&& next.prepared_steps.last() == reference
            &&& next.prepared_steps.drop_last() == snapshot.prepared_steps
            &&& root.purpose == ModelPurpose::Agent ==> next.active_prepared_step == Some(reference)
                && next.model_step_id == Some(root.model_step_id)
            &&& root.purpose != ModelPurpose::Agent ==> next.active_prepared_step
                == snapshot.active_prepared_step && next.model_step_id == snapshot.model_step_id
        }),
{
    assert(snapshot.prepared_steps.push(reference).drop_last() =~= snapshot.prepared_steps);
}

} // verus!
