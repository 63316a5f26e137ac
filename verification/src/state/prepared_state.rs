//! Prepared model steps, and the attempts and calls that have to agree with them.
use vstd::prelude::*;

use crate::content::{ArtifactRef, Message, ProviderArguments, ToolLedgerEntry};
#[allow(unused_imports)]
use crate::content::{ArtifactRefView, MessageView, ProviderArgumentsView, ToolLedgerEntryView};
use crate::context::{ContextBinding, ContextFragment, ContextLineage, ContextTrigger};
#[allow(unused_imports)]
use crate::context::{ContextBindingView, ContextFragmentView, ContextLineageView};
use crate::context_source::records::ContextBatch;
use crate::context_strategy::ContextRevision;
use crate::data::{
    any, any_before, check_each, check_indices, contains, count, find, find_last, is_same, keep,
    position, Data,
};
#[allow(unused_imports)]
use crate::data::{
    count_in, every, first_fault, first_in, first_index_fault, kept, last_in, position_in, some_in,
};
use crate::error::{verdict, ContractError, ErrorCode};
#[allow(unused_imports)]
use crate::error::{failure, or_else, Fault};
use crate::execution_contracts::PreparedStepRecord;
#[allow(unused_imports)]
use crate::execution_contracts::PreparedStepRecordView;
use crate::json::{Json, Member};
#[allow(unused_imports)]
use crate::json::{get_of, JsonView, MemberView};
use crate::model::{ModelInvocationRecord, ModelPurpose, ModelTool, ProposedToolCall};
#[allow(unused_imports)]
use crate::model::{
    physical_digest_of, ModelInvocationRecordView, ModelToolView, ProposedToolCallView,
};
use crate::model_execution::{ModelExchangeOutcome, StoredModelResponse};
#[allow(unused_imports)]
use crate::model_execution::ModelExchangeOutcomeView;
use crate::model_options::{requested_sources, ModelConfiguration};
#[allow(unused_imports)]
use crate::model_options::{origin_of, ModelConfigurationView};
use crate::model_routing::{RoutingData, RoutingSnapshot};
#[allow(unused_imports)]
use crate::model_routing::{
    configuration_fault, configuration_for, route_fault, routing_text_fault, snapshot_of,
    RoutingSnapshotView,
};
use crate::prepared_step::{
    invalid, projected_artifacts, revision_artifacts, PreparedModelProjection, ResolvedToolSet,
    ResolvedToolSetEntry,
};
#[allow(unused_imports)]
use crate::prepared_step::{
    cache_after, cached_entry_fault, cached_tool, fingerprint_of, projected_artifacts_fault,
    projected_artifacts_of, revision_artifacts_of, shape_fault, unprepared,
    PreparedModelProjectionView, ResolvedToolSetEntryView, ResolvedToolSetView,
};
use crate::prompt::{CompiledTool, PinnedPromptTool, PromptSnapshot};
#[allow(unused_imports)]
use crate::prompt::{CompiledToolView, PinnedPromptToolView};
#[allow(unused_imports)]
use crate::provider_tool_schema::codec::{text_arguments, text_decode_fault};
use crate::provider_tool_schema::{
    CompiledToolContract, ProviderToolSchemaLimits, ProviderToolTarget, SavedContract,
};
#[allow(unused_imports)]
use crate::provider_tool_schema::{
    contract_restore_fault, target_of, usual_limits, CompiledToolContractView,
    ProviderToolTargetView,
};
use crate::reader::JsonText;
#[allow(unused_imports)]
use crate::reader::text_of_value;
use crate::refs::{record_key, RecordRef};
#[allow(unused_imports)]
use crate::refs::{key_of, RecordKeyView, RecordRefView, ScopeView, VersionedRefView};
use crate::run::RunSnapshot;
#[allow(unused_imports)]
use crate::run::RunSnapshotView;
use crate::serialization::{canonical_json, JsonDigest};
#[allow(unused_imports)]
use crate::serialization::{canonical_text, digest_form};
use crate::state::records::{Recorded, Records, SavedConfiguration, SavedStep};
#[allow(unused_imports)]
use crate::state::records::{
    read_fault, record_fault, value_at, ProtectedRecordView, SavedConfigurationView,
};
use crate::state::scope::{ScopeState, SessionState};
#[allow(unused_imports)]
use crate::state::scope::{missing, ScopeStateView, SessionStateView};
#[allow(unused_imports)]
use crate::state::verification_state::through_message;
use crate::text::reads;

verus! {

/// A contract that was restored before.
#[derive(Debug)]
pub struct CachedContract {
    pub digest: JsonDigest,
    pub compiled_digest: JsonDigest,
    pub contract: CompiledToolContract,
    pub value: Json,
}

#[verifier::ext_equal]
pub struct CachedContractView {
    pub digest: Seq<char>,
    pub compiled_digest: Seq<char>,
    pub contract: CompiledToolContractView,
    pub value: JsonView,
}

impl View for CachedContract {
    type V = CachedContractView;

    open spec fn view(&self) -> CachedContractView {
        CachedContractView {
            digest: self.digest.deep_view(),
            compiled_digest: self.compiled_digest.deep_view(),
            contract: self.contract.deep_view(),
            value: self.value.deep_view(),
        }
    }
}

impl DeepView for CachedContract {
    type V = CachedContractView;

    open spec fn deep_view(&self) -> CachedContractView {
        self@
    }
}

impl Data for CachedContract {
    fn same(&self, other: &Self) -> (r: bool) {
        self.digest.same(&other.digest)
            && self.compiled_digest.same(&other.compiled_digest)
            && self.contract.same(&other.contract)
            && self.value.same(&other.value)
    }

    fn copy(&self) -> (r: Self) {
        CachedContract {
            digest: self.digest.copy(),
            compiled_digest: self.compiled_digest.copy(),
            contract: self.contract.copy(),
            value: self.value.copy(),
        }
    }
}

/// A prepared step that agrees with its run.
#[derive(Debug)]
pub struct PreparedRoot {
    pub reference: RecordRef,
    pub root: PreparedStepRecord,
    pub projection: PreparedModelProjection,
    pub configuration: ModelConfiguration,
    pub tools: ResolvedToolSet,
    pub contracts: Vec<CompiledToolContract>,
}

#[verifier::ext_equal]
pub struct PreparedRootView {
    pub reference: RecordRefView,
    pub root: PreparedStepRecordView,
    pub projection: PreparedModelProjectionView,
    pub configuration: ModelConfigurationView,
    pub tools: ResolvedToolSetView,
    pub contracts: Seq<CompiledToolContractView>,
}

impl View for PreparedRoot {
    type V = PreparedRootView;

    open spec fn view(&self) -> PreparedRootView {
        PreparedRootView {
            reference: self.reference.deep_view(),
            root: self.root.deep_view(),
            projection: self.projection.deep_view(),
            configuration: self.configuration.deep_view(),
            tools: self.tools.deep_view(),
            contracts: self.contracts.deep_view(),
        }
    }
}

impl DeepView for PreparedRoot {
    type V = PreparedRootView;

    open spec fn deep_view(&self) -> PreparedRootView {
        self@
    }
}

impl Data for PreparedRoot {
    fn same(&self, other: &Self) -> (r: bool) {
        self.reference.same(&other.reference)
            && self.root.same(&other.root)
            && self.projection.same(&other.projection)
            && self.configuration.same(&other.configuration)
            && self.tools.same(&other.tools)
            && self.contracts.same(&other.contracts)
    }

    fn copy(&self) -> (r: Self) {
        PreparedRoot {
            reference: self.reference.copy(),
            root: self.root.copy(),
            projection: self.projection.copy(),
            configuration: self.configuration.copy(),
            tools: self.tools.copy(),
            contracts: self.contracts.copy(),
        }
    }
}

/// What the prepared steps of a run have shown so far.
#[derive(Debug)]
pub struct Preparation {
    pub tools: Vec<CompiledTool>,
    pub contracts: Vec<CachedContract>,
    pub roots: Vec<PreparedRoot>,
}

#[verifier::ext_equal]
pub struct PreparationView {
    pub tools: Seq<CompiledToolView>,
    pub contracts: Seq<CachedContractView>,
    pub roots: Seq<PreparedRootView>,
}

impl View for Preparation {
    type V = PreparationView;

    open spec fn view(&self) -> PreparationView {
        PreparationView {
            tools: self.tools.deep_view(),
            contracts: self.contracts.deep_view(),
            roots: self.roots.deep_view(),
        }
    }
}

impl DeepView for Preparation {
    type V = PreparationView;

    open spec fn deep_view(&self) -> PreparationView {
        self@
    }
}

impl Data for Preparation {
    fn same(&self, other: &Self) -> (r: bool) {
        self.tools.same(&other.tools)
            && self.contracts.same(&other.contracts)
            && self.roots.same(&other.roots)
    }

    fn copy(&self) -> (r: Self) {
        Preparation {
            tools: self.tools.copy(),
            contracts: self.contracts.copy(),
            roots: self.roots.copy(),
        }
    }
}

/// What the messages up to a boundary depend on.
#[derive(Debug)]
pub struct LineageReading {
    pub through_sequence: u64,
    pub dependencies: Vec<ContextLineage>,
    /// Why the dependencies cannot be told.
    pub defect: Option<ContractError>,
}

#[verifier::ext_equal]
pub struct LineageReadingView {
    pub through_sequence: u64,
    pub dependencies: Seq<ContextLineageView>,
    pub defect: Option<Fault>,
}

impl View for LineageReading {
    type V = LineageReadingView;

    open spec fn view(&self) -> LineageReadingView {
        LineageReadingView {
            through_sequence: self.through_sequence.deep_view(),
            dependencies: self.dependencies.deep_view(),
            defect: self.defect.deep_view(),
        }
    }
}

impl DeepView for LineageReading {
    type V = LineageReadingView;

    open spec fn deep_view(&self) -> LineageReadingView {
        self@
    }
}

impl Data for LineageReading {
    fn same(&self, other: &Self) -> (r: bool) {
        self.through_sequence.same(&other.through_sequence)
            && self.dependencies.same(&other.dependencies)
            && self.defect.same(&other.defect)
    }

    fn copy(&self) -> (r: Self) {
        LineageReading {
            through_sequence: self.through_sequence.copy(),
            dependencies: self.dependencies.copy(),
            defect: self.defect.copy(),
        }
    }
}

/// The tools of a step while they are restored, one after another.
#[derive(Debug)]
pub struct ToolProgress {
    pub position: usize,
    pub tools: Vec<CompiledTool>,
    pub cached: Vec<CachedContract>,
    pub contracts: Vec<CompiledToolContract>,
}

#[verifier::ext_equal]
pub struct ToolProgressView {
    pub position: usize,
    pub tools: Seq<CompiledToolView>,
    pub cached: Seq<CachedContractView>,
    pub contracts: Seq<CompiledToolContractView>,
}

impl View for ToolProgress {
    type V = ToolProgressView;

    open spec fn view(&self) -> ToolProgressView {
        ToolProgressView {
            position: self.position.deep_view(),
            tools: self.tools.deep_view(),
            cached: self.cached.deep_view(),
            contracts: self.contracts.deep_view(),
        }
    }
}

impl DeepView for ToolProgress {
    type V = ToolProgressView;

    open spec fn deep_view(&self) -> ToolProgressView {
        self@
    }
}

impl Data for ToolProgress {
    fn same(&self, other: &Self) -> (r: bool) {
        self.position.same(&other.position)
            && self.tools.same(&other.tools)
            && self.cached.same(&other.cached)
            && self.contracts.same(&other.contracts)
    }

    fn copy(&self) -> (r: Self) {
        ToolProgress {
            position: self.position.copy(),
            tools: self.tools.copy(),
            cached: self.cached.copy(),
            contracts: self.contracts.copy(),
        }
    }
}


/// What a prepared step is held against.
pub struct Setting<'a> {
    pub records: Records<'a>,
    pub state: &'a ScopeState,
    pub snapshot: &'a RunSnapshot,
    pub routing: &'a RoutingSnapshot,
    pub lineages: &'a Vec<LineageReading>,
    pub restored: &'a Option<ContractError>,
}

/// What a prepared step is held against.
pub struct SettingView {
    pub records: Map<RecordKeyView, ProtectedRecordView>,
    pub state: ScopeStateView,
    pub snapshot: RunSnapshotView,
    pub routing: RoutingSnapshotView,
    pub lineages: Seq<LineageReadingView>,
    pub restored: Option<Fault>,
}

impl<'a> View for Setting<'a> {
    type V = SettingView;

    open spec fn view(&self) -> SettingView {
        SettingView {
            records: self.records@,
            state: self.state@,
            snapshot: self.snapshot@,
            routing: self.routing@,
            lineages: self.lineages.deep_view(),
            restored: self.restored.deep_view(),
        }
    }
}

/// The failure of a record that does not read as what it should be.
pub open spec fn saved_fault<T: Recorded>(
    records: Map<RecordKeyView, ProtectedRecordView>,
    reference: RecordRefView,
    path: &str,
) -> Option<Fault> {
    read_fault::<T>(records, reference, ErrorCode::InvalidSnapshot, path)
}

/// Why the input of a model step is refused.
pub open spec fn step_input_fault(
    records: Map<RecordKeyView, ProtectedRecordView>,
    state: ScopeStateView,
    snapshot: RunSnapshotView,
) -> spec_fn(int) -> Option<Fault> {
    |i: int|
        {
            let reference = snapshot.model_step_inputs[i];
            let saved = value_at::<SavedStep>(records, reference);
            if saved_fault::<SavedStep>(records, reference, "prepared.step_input") is Some {
                saved_fault::<SavedStep>(records, reference, "prepared.step_input")
            } else if !state.sessions.dom().contains(snapshot.request.session_id) {
                missing()
            } else if saved.schema_version != "wickle.model-step.v2"@ || saved.run_id
                != snapshot.run_id || !(saved.through_sequence matches Some(sequence) && sequence
                <= state.sessions[snapshot.request.session_id].snapshot.transcript_revision)
                || saved.input.routing.scope != snapshot.scope || some_in(
                snapshot.model_step_inputs.take(i),
                inputs_of_step(records, saved.input.model_step_id),
            ) {
                unprepared("prepared.step_input")
            } else {
                None
            }
        }
}

/// The step inputs of a model step.
pub open spec fn inputs_of_step(
    records: Map<RecordKeyView, ProtectedRecordView>,
    model_step_id: Seq<char>,
) -> spec_fn(RecordRefView) -> bool {
    |reference: RecordRefView|
        <SavedStep as Recorded>::reading(records[key_of(reference)].content) matches Some(saved)
            && record_fault(records, reference) is None && saved.input.model_step_id
            == model_step_id
}

fn check_step_input(records: &Records, state: &ScopeState, snapshot: &RunSnapshot, i: usize) -> (r:
    Result<(), ContractError>)
    requires
        i < snapshot.model_step_inputs.len(),
    ensures
        failure(r) == step_input_fault(records@, state@, snapshot@)(i as int),
{
    let reference = &snapshot.model_step_inputs[i];
    assert(reference@ == snapshot@.model_step_inputs[i as int]);
    let saved = records.read::<SavedStep>(
        reference,
        ErrorCode::InvalidSnapshot,
        "prepared.step_input",
    )?;
    let session = state.session(&snapshot.request.session_id)?;
    let in_transcript = match saved.through_sequence {
        Some(sequence) => sequence <= session.snapshot.transcript_revision,
        None => false,
    };
    let repeated = |other: &RecordRef| -> (b: bool)
        ensures
            b == inputs_of_step(records@, saved@.input.model_step_id)(other@),
    {
        match records.record(other) {
            Ok(record) => match <SavedStep as Recorded>::read(record.content()) {
                Some(earlier) => earlier.input.model_step_id.same(&saved.input.model_step_id),
                None => false,
            },
            Err(_) => false,
        }
    };
    if !reads(&saved.schema_version, "wickle.model-step.v2") || !saved.run_id.same(&snapshot.run_id)
        || !in_transcript || !saved.input.routing.scope.same(&snapshot.scope) || any_before(
        &snapshot.model_step_inputs,
        i,
        repeated,
        Ghost(inputs_of_step(records@, saved@.input.model_step_id)),
    ) {
        return invalid("prepared.step_input");
    }
    Ok(())
}

/// Why the routing of a run with prepared steps cannot be restored.
pub open spec fn prepared_routing_fault(
    records: Map<RecordKeyView, ProtectedRecordView>,
    snapshot: RunSnapshotView,
) -> Option<Fault> {
    match snapshot.routing_snapshot_ref {
        None => unprepared("prepared.routing"),
        Some(reference) => if record_fault(records, reference) is Some {
            record_fault(records, reference)
        } else {
            let record = records[key_of(reference)];
            routing_text_fault(
                canonical_text(record.value),
                <RoutingData as Recorded>::reading(record.content),
                snapshot.scope,
                reference.digest,
            )
        },
    }
}

/// The routing of a run with prepared steps.
pub open spec fn prepared_routing(
    records: Map<RecordKeyView, ProtectedRecordView>,
    snapshot: RunSnapshotView,
) -> RoutingSnapshotView {
    let record = records[key_of(snapshot.routing_snapshot_ref->Some_0)];
    let data = <RoutingData as Recorded>::reading(record.content)->Some_0;
    snapshot_of(data.catalog, data.policy)
}

fn restore_routing(records: &Records, snapshot: &RunSnapshot) -> (r: Result<
    RoutingSnapshot,
    ContractError,
>)
    ensures
        failure(r) == prepared_routing_fault(records@, snapshot@),
        r matches Ok(routing) ==> routing@ == prepared_routing(records@, snapshot@),
{
    match &snapshot.routing_snapshot_ref {
        None => invalid("prepared.routing"),
        Some(reference) => {
            let record = records.record(reference)?;
            let json = canonical_json(record.value());
            RoutingSnapshot::restore(
                json.as_str(),
                <RoutingData as Recorded>::read(record.content()),
                &snapshot.scope,
                &reference.digest,
            )
        },
    }
}

/// The prepared steps of a record.
pub open spec fn root_at(reference: RecordRefView) -> spec_fn(PreparedRootView) -> bool {
    |root: PreparedRootView| key_of(root.reference) == key_of(reference)
}

/// The prepared steps of a model step.
pub open spec fn root_of_step(model_step_id: Seq<char>) -> spec_fn(PreparedRootView) -> bool {
    |root: PreparedRootView| root.root.model_step_id == model_step_id
}

/// The assembler of prepared model input.
pub open spec fn assembler() -> VersionedRefView {
    VersionedRefView { id: "wickle-prepared-model"@, version: "1"@ }
}

/// Why a prepared step is not one of its run.
pub open spec fn identity_fault(
    c: SettingView,
    prior: PreparationView,
    reference: RecordRefView,
) -> Option<Fault> {
    let root = value_at::<PreparedStepRecord>(c.records, reference);
    if some_in(prior.roots, root_at(reference)) {
        unprepared("prepared.duplicate")
    } else if saved_fault::<PreparedStepRecord>(c.records, reference, "prepared.record") is Some {
        saved_fault::<PreparedStepRecord>(c.records, reference, "prepared.record")
    } else if root.scope != c.snapshot.scope || root.run_id != c.snapshot.run_id
        || root.profile_digest != c.snapshot.profile.profile_digest || root.assembly_ref
        != c.snapshot.assembly_ref || root.projection_revision != count_in(
        prior.roots,
        root_of_step(root.model_step_id),
    ) + 1 || root.assembler != assembler() {
        unprepared("prepared.identity")
    } else {
        None
    }
}

fn find_root<'a>(roots: &'a Vec<PreparedRoot>, reference: &RecordRef) -> (r: Option<
    &'a PreparedRoot,
>)
    ensures
        r.deep_view() == first_in(roots.deep_view(), root_at(reference@)),
{
    let key = record_key(reference);
    let same = |root: &PreparedRoot| -> (b: bool)
        ensures
            b == root_at(reference@)(root@),
    { record_key(&root.reference).same(&key) };
    find(roots, same, Ghost(root_at(reference@)))
}

fn check_identity<'a>(c: &Setting<'a>, prior: &Preparation, reference: &RecordRef) -> (r: Result<
    &'a PreparedStepRecord,
    ContractError,
>)
    requires
        prior.roots.len() < usize::MAX,
    ensures
        failure(r) == identity_fault(c@, prior@, reference@),
        r matches Ok(root) ==> root@ == value_at::<PreparedStepRecord>(c@.records, reference@),
{
    let key = record_key(reference);
    let same = |root: &PreparedRoot| -> (b: bool)
        ensures
            b == root_at(reference@)(root@),
    { record_key(&root.reference).same(&key) };
    if any(&prior.roots, same, Ghost(root_at(reference@))) {
        return invalid("prepared.duplicate");
    }
    let root = c.records.read::<PreparedStepRecord>(
        reference,
        ErrorCode::InvalidSnapshot,
        "prepared.record",
    )?;
    let of_step = |earlier: &PreparedRoot| -> (b: bool)
        ensures
            b == root_of_step(root@.model_step_id)(earlier@),
    { earlier.root.model_step_id.same(&root.model_step_id) };
    let earlier: usize = count(&prior.roots, of_step, Ghost(root_of_step(root@.model_step_id)));
    let expected: u64 = earlier as u64 + 1;
    if !root.scope.same(&c.snapshot.scope) || !root.run_id.same(&c.snapshot.run_id)
        || !root.profile_digest.same(c.snapshot.profile.profile_digest())
        || !root.assembly_ref.same(&c.snapshot.assembly_ref) || root.projection_revision != expected
        || !root.assembler.id.reads("wickle-prepared-model") || !root.assembler.version.reads("1") {
        return invalid("prepared.identity");
    }
    Ok(root)
}

/// The projection of a prepared step.
pub open spec fn projection_of(c: SettingView, root: PreparedStepRecordView)
    -> PreparedModelProjectionView {
    value_at::<PreparedModelProjection>(c.records, root.context_projection)
}

/// The tools of a prepared step.
pub open spec fn tools_of(c: SettingView, root: PreparedStepRecordView) -> ResolvedToolSetView {
    value_at::<ResolvedToolSet>(c.records, root.tool_set)
}

/// The saved configuration of a prepared step, as far as it decodes.
pub open spec fn configuration_saved(c: SettingView, root: PreparedStepRecordView)
    -> SavedConfigurationView {
    match <SavedConfiguration as Recorded>::reading(
        c.records[key_of(root.model_configuration)].content,
    ) {
        Some(saved) => saved,
        None => SavedConfigurationView { route: None, configuration: None },
    }
}

/// Why the projection of a prepared step is refused.
pub open spec fn projection_fault(c: SettingView, root: PreparedStepRecordView) -> Option<Fault> {
    let projection = projection_of(c, root);
    let tools = tools_of(c, root);
    let saved = configuration_saved(c, root);
    if saved_fault::<PreparedModelProjection>(
        c.records,
        root.context_projection,
        "prepared.record",
    ) is Some {
        saved_fault::<PreparedModelProjection>(
            c.records,
            root.context_projection,
            "prepared.record",
        )
    } else if saved_fault::<ResolvedToolSet>(c.records, root.tool_set, "prepared.record") is Some {
        saved_fault::<ResolvedToolSet>(c.records, root.tool_set, "prepared.record")
    } else if shape_fault(tools) is Some {
        shape_fault(tools)
    } else if record_fault(c.records, root.model_configuration) is Some {
        record_fault(c.records, root.model_configuration)
    } else {
        match (saved.route, saved.configuration) {
            (None, _) => unprepared("prepared.route"),
            (Some(_), None) => unprepared("prepared.configuration"),
            (Some(route), Some(configuration)) => if projection.schema_version
                != "wickle.prepared-projection.v1"@ || projection.scope != c.snapshot.scope
                || projection.run_id != c.snapshot.run_id || projection.request.request_id
                != root.model_step_id || projection.request.purpose != root.purpose
                || projection.request.route != route || projection.request.options
                != configuration.effective || projection.request.max_output_tokens
                != configuration.max_output_tokens || fingerprint_of(projection)
                != root.projection_fingerprint || tools.scope != c.snapshot.scope || tools.run_id
                != c.snapshot.run_id || tools.entries.len() != projection.request.tools.len()
                || tools.entries.len() != root.compiled_tools.len() {
                unprepared("prepared.projection")
            } else if projection.request.defect is Some {
                projection.request.defect
            } else {
                route_fault(c.routing, route)
            },
        }
    }
}

fn check_projection<'a>(c: &Setting<'a>, root: &PreparedStepRecord) -> (r: Result<
    (&'a PreparedModelProjection, &'a ResolvedToolSet, &'a ModelConfiguration),
    ContractError,
>)
    ensures
        failure(r) == projection_fault(c@, root@),
        r matches Ok(parts) ==> parts.0@ == projection_of(c@, root@) && parts.1@ == tools_of(
            c@,
            root@,
        ) && configuration_saved(c@, root@).configuration == Some(parts.2@) && configuration_saved(
            c@,
            root@,
        ).route == Some(parts.0@.request.route) && parts.1@.entries.len()
            == parts.0@.request.tools.len() && parts.1@.entries.len() == root@.compiled_tools.len(),
{
    let projection = c.records.read::<PreparedModelProjection>(
        &root.context_projection,
        ErrorCode::InvalidSnapshot,
        "prepared.record",
    )?;
    let tools = c.records.read::<ResolvedToolSet>(
        &root.tool_set,
        ErrorCode::InvalidSnapshot,
        "prepared.record",
    )?;
    tools.validate_shape()?;
    let record = c.records.record(&root.model_configuration)?;
    let saved = match <SavedConfiguration as Recorded>::read(record.content()) {
        Some(saved) => saved,
        None => {
            return invalid("prepared.route");
        },
    };
    let route = match &saved.route {
        Some(route) => route,
        None => {
            return invalid("prepared.route");
        },
    };
    let configuration = match &saved.configuration {
        Some(configuration) => configuration,
        None => {
            return invalid("prepared.configuration");
        },
    };
    let request = &projection.request;
    assert(tools@.entries.len() == tools.entries.len());
    assert(projection@.request.tools.len() == request.tools.len());
    assert(root@.compiled_tools.len() == root.compiled_tools.len());
    if !reads(&projection.schema_version, "wickle.prepared-projection.v1")
        || !projection.scope.same(&c.snapshot.scope) || !projection.run_id.same(
        &c.snapshot.run_id,
    ) || !request.request_id.same(&root.model_step_id) || request.purpose != root.purpose
        || !request.route.same(route) || !request.options.same(&configuration.effective)
        || request.max_output_tokens != configuration.max_output_tokens
        || !projection.fingerprint().same(&root.projection_fingerprint) || !tools.scope.same(
        &c.snapshot.scope,
    ) || !tools.run_id.same(&c.snapshot.run_id) || tools.entries.len() != request.tools.len()
        || tools.entries.len() != root.compiled_tools.len() {
        return invalid("prepared.projection");
    }
    verdict(&request.defect)?;
    c.routing.validate_route(route)?;
    Ok((projection, tools, configuration))
}

/// Why the step of a prepared step, or its configuration, is refused.
pub open spec fn step_fault(c: SettingView, root: PreparedStepRecordView) -> Option<Fault> {
    let projection = projection_of(c, root);
    let step = value_at::<SavedStep>(c.records, root.step_input);
    let route = projection.request.route;
    let requested = step.input.routing.options;
    let sources = requested.map_values(origin_of(c.snapshot, root.purpose));
    if !c.snapshot.model_step_inputs.contains(root.step_input) {
        unprepared("prepared.step_reference")
    } else if saved_fault::<SavedStep>(c.records, root.step_input, "prepared.step") is Some {
        saved_fault::<SavedStep>(c.records, root.step_input, "prepared.step")
    } else if step.schema_version != "wickle.model-step.v2"@ || step.through_sequence != Some(
        projection.provenance.through_sequence,
    ) || step.run_id != c.snapshot.run_id || step.input.model_step_id != root.model_step_id
        || step.input.routing.scope != c.snapshot.scope || step.input.routing.purpose
        != root.purpose {
        unprepared("prepared.step")
    } else if configuration_fault(c.routing, route, requested, sources) is Some {
        configuration_fault(c.routing, route, requested, sources)
    } else if configuration_saved(c, root).configuration != Some(
        configuration_for(
            c.routing,
            route,
            requested,
            sources,
            step.input.routing.max_output_tokens,
        ),
    ) {
        unprepared("prepared.configuration")
    } else {
        None
    }
}

fn check_step(
    c: &Setting,
    root: &PreparedStepRecord,
    projection: &PreparedModelProjection,
    configuration: &ModelConfiguration,
) -> (r: Result<(), ContractError>)
    requires
        projection@ == projection_of(c@, root@),
        configuration_saved(c@, root@).configuration == Some(configuration@),
    ensures
        failure(r) == step_fault(c@, root@),
{
    if !contains(&c.snapshot.model_step_inputs, &root.step_input) {
        return invalid("prepared.step_reference");
    }
    let step = c.records.read::<SavedStep>(
        &root.step_input,
        ErrorCode::InvalidSnapshot,
        "prepared.step",
    )?;
    let routing = &step.input.routing;
    let at_boundary = match step.through_sequence {
        Some(sequence) => sequence == projection.provenance.through_sequence,
        None => false,
    };
    if !reads(&step.schema_version, "wickle.model-step.v2") || !at_boundary || !step.run_id.same(
        &c.snapshot.run_id,
    ) || !step.input.model_step_id.same(&root.model_step_id) || !routing.scope.same(
        &c.snapshot.scope,
    ) || routing.purpose != root.purpose {
        return invalid("prepared.step");
    }
    let sources = requested_sources(c.snapshot, root.purpose, &routing.options);
    let expected = c.routing.model_configuration(
        &projection.request.route,
        &routing.options,
        &sources,
        routing.max_output_tokens,
    )?;
    if !configuration.same(&expected) {
        return invalid("prepared.configuration");
    }
    Ok(())
}

/// The session of a run.
pub open spec fn session_of(c: SettingView) -> SessionStateView {
    c.state.sessions[c.snapshot.request.session_id]
}

/// Why a prepared step does not fit the session of its run.
pub open spec fn session_fault(c: SettingView, root: PreparedStepRecordView) -> Option<Fault> {
    let tools = tools_of(c, root);
    let prompt = session_of(c).snapshot.prompt_snapshot;
    if !c.state.sessions.dom().contains(c.snapshot.request.session_id) {
        missing()
    } else if tools.entries.len() > 0 && saved_fault::<PromptSnapshot>(
        c.records,
        prompt,
        "prepared.prompt",
    ) is Some {
        saved_fault::<PromptSnapshot>(c.records, prompt, "prepared.prompt")
    } else if tools.entries.len() > 0 && c.restored is Some {
        c.restored
    } else if root.purpose != ModelPurpose::Agent && tools.entries.len() > 0 {
        unprepared("prepared.auxiliary_tools")
    } else if projection_of(c, root).provenance.through_sequence
        > session_of(c).snapshot.transcript_revision {
        unprepared("prepared.transcript_boundary")
    } else {
        None
    }
}

/// The tools that the session advertises, where a step needs them.
pub open spec fn manifests_of(c: SettingView, root: PreparedStepRecordView) -> Seq<
    PinnedPromptToolView,
> {
    if tools_of(c, root).entries.len() > 0 {
        value_at::<PromptSnapshot>(c.records, session_of(c).snapshot.prompt_snapshot).tools
    } else {
        Seq::empty()
    }
}

fn check_session<'a>(
    c: &Setting<'a>,
    root: &PreparedStepRecord,
    projection: &PreparedModelProjection,
    tools: &ResolvedToolSet,
) -> (r: Result<(&'a SessionState, Vec<PinnedPromptTool>), ContractError>)
    requires
        projection@ == projection_of(c@, root@),
        tools@ == tools_of(c@, root@),
    ensures
        failure(r) == session_fault(c@, root@),
        r matches Ok(parts) ==> parts.0@ == session_of(c@) && parts.1.deep_view() == manifests_of(
            c@,
            root@,
        ),
{
    let session = c.state.session(&c.snapshot.request.session_id)?;
    let mut manifests: Vec<PinnedPromptTool> = Vec::new();
    assert(manifests.deep_view() =~= Seq::<PinnedPromptToolView>::empty());
    assert(tools@.entries.len() == tools.entries.len());
    if tools.entries.len() > 0 {
        let prompt = c.records.read::<PromptSnapshot>(
            &session.snapshot.prompt_snapshot,
            ErrorCode::InvalidSnapshot,
            "prepared.prompt",
        )?;
        verdict(c.restored)?;
        manifests = prompt.tools.copy();
        if root.purpose != ModelPurpose::Agent {
            return invalid("prepared.auxiliary_tools");
        }
    }
    if projection.provenance.through_sequence > session.snapshot.transcript_revision {
        return invalid("prepared.transcript_boundary");
    }
    Ok((session, manifests))
}

/// The readings of a boundary.
pub open spec fn at_boundary(sequence: u64) -> spec_fn(LineageReadingView) -> bool {
    |reading: LineageReadingView| reading.through_sequence == sequence
}

/// The dependencies that are not listed.
pub open spec fn unlisted(listed: Seq<ContextLineageView>) -> spec_fn(ContextLineageView) -> bool {
    |dependency: ContextLineageView| !listed.contains(dependency)
}

/// Why a projection leaves out what its messages depend on.
pub open spec fn lineage_fault(c: SettingView, root: PreparedStepRecordView) -> Option<Fault> {
    let provenance = projection_of(c, root).provenance;
    match first_in(c.lineages, at_boundary(provenance.through_sequence)) {
        None => unprepared("prepared.lineage_missing"),
        Some(reading) => if reading.defect is Some {
            reading.defect
        } else if (root.purpose == ModelPurpose::Agent && reading.dependencies
            != provenance.source_lineage) || some_in(
            reading.dependencies,
            unlisted(provenance.source_lineage),
        ) {
            unprepared("prepared.lineage_missing")
        } else {
            None
        },
    }
}

fn check_lineage(c: &Setting, root: &PreparedStepRecord, projection: &PreparedModelProjection) -> (r:
    Result<(), ContractError>)
    requires
        projection@ == projection_of(c@, root@),
    ensures
        failure(r) == lineage_fault(c@, root@),
{
    let provenance = &projection.provenance;
    let here = |reading: &LineageReading| -> (b: bool)
        ensures
            b == at_boundary(provenance@.through_sequence)(reading@),
    { reading.through_sequence == provenance.through_sequence };
    let reading = match find(
        c.lineages,
        here,
        Ghost(at_boundary(provenance@.through_sequence)),
    ) {
        Some(reading) => reading,
        None => {
            return invalid("prepared.lineage_missing");
        },
    };
    verdict(&reading.defect)?;
    let absent = |dependency: &ContextLineage| -> (b: bool)
        ensures
            b == unlisted(provenance@.source_lineage)(dependency@),
    { !contains(&provenance.source_lineage, dependency) };
    if (root.purpose == ModelPurpose::Agent && !reading.dependencies.same(
        &provenance.source_lineage,
    )) || any(&reading.dependencies, absent, Ghost(unlisted(provenance@.source_lineage))) {
        return invalid("prepared.lineage_missing");
    }
    Ok(())
}

/// Why the context revisions from one on cannot be followed. No more revisions are followed than
/// a list can hold.
pub open spec fn chain_fault(
    c: SettingView,
    current: Option<RecordRefView>,
    seen: Seq<RecordRefView>,
    fuel: nat,
) -> Option<Fault>
    decreases fuel,
{
    match current {
        None => None,
        Some(reference) => {
            let revision = value_at::<ContextRevision>(c.records, reference);
            if seen.contains(reference) || fuel == 0 {
                unprepared("prepared.context_cycle")
            } else if saved_fault::<ContextRevision>(
                c.records,
                reference,
                "prepared.record",
            ) is Some {
                saved_fault::<ContextRevision>(c.records, reference, "prepared.record")
            } else if revision.scope != c.snapshot.scope || revision.session_id
                != c.snapshot.request.session_id {
                unprepared("prepared.context_scope")
            } else {
                chain_fault(c, revision.parent, seen.push(reference), (fuel - 1) as nat)
            }
        },
    }
}

/// The context revisions from one on, after those seen before.
pub open spec fn chain_refs(
    c: SettingView,
    current: Option<RecordRefView>,
    seen: Seq<RecordRefView>,
    fuel: nat,
) -> Seq<RecordRefView>
    decreases fuel,
{
    match current {
        None => seen,
        Some(reference) => if fuel == 0 {
            seen
        } else {
            chain_refs(
                c,
                value_at::<ContextRevision>(c.records, reference).parent,
                seen.push(reference),
                (fuel - 1) as nat,
            )
        },
    }
}

/// The artifacts of the context revisions from one on, after those found before.
pub open spec fn chain_artifacts(
    c: SettingView,
    current: Option<RecordRefView>,
    found: Seq<ArtifactRefView>,
    fuel: nat,
) -> Seq<ArtifactRefView>
    decreases fuel,
{
    match current {
        None => found,
        Some(reference) => if fuel == 0 {
            found
        } else {
            let revision = value_at::<ContextRevision>(c.records, reference);
            chain_artifacts(
                c,
                revision.parent,
                found + revision_artifacts_of(revision),
                (fuel - 1) as nat,
            )
        },
    }
}

/// The most revisions that are followed.
pub open spec fn longest_chain() -> nat {
    usize::MAX as nat
}

fn follow_context<'a>(c: &Setting<'a>) -> (r: Result<
    (Vec<RecordRef>, Vec<ArtifactRef>),
    ContractError,
>)
    ensures
        failure(r) == chain_fault(
            c@,
            c@.snapshot.context_revision_ref,
            Seq::empty(),
            longest_chain(),
        ),
        r matches Ok(parts) ==> parts.0.deep_view() == chain_refs(
            c@,
            c@.snapshot.context_revision_ref,
            Seq::empty(),
            longest_chain(),
        ) && parts.1.deep_view() == chain_artifacts(
            c@,
            c@.snapshot.context_revision_ref,
            Seq::empty(),
            longest_chain(),
        ),
{
    let mut seen: Vec<RecordRef> = Vec::new();
    let mut found: Vec<ArtifactRef> = Vec::new();
    let mut current = c.snapshot.context_revision_ref.copy();
    let mut fuel: usize = usize::MAX;
    assert(seen.deep_view() =~= Seq::<RecordRefView>::empty());
    assert(found.deep_view() =~= Seq::<ArtifactRefView>::empty());
    let ghost first = c@.snapshot.context_revision_ref;
    while current.is_some()
        invariant
            first == c@.snapshot.context_revision_ref,
            chain_fault(c@, first, Seq::empty(), longest_chain()) == chain_fault(
                c@,
                current.deep_view(),
                seen.deep_view(),
                fuel as nat,
            ),
            chain_refs(c@, first, Seq::empty(), longest_chain()) == chain_refs(
                c@,
                current.deep_view(),
                seen.deep_view(),
                fuel as nat,
            ),
            chain_artifacts(c@, first, Seq::empty(), longest_chain()) == chain_artifacts(
                c@,
                current.deep_view(),
                found.deep_view(),
                fuel as nat,
            ),
        decreases fuel,
    {
        let reference = match current {
            Some(reference) => reference,
            None => {
                return Ok((seen, found));
            },
        };
        if contains(&seen, &reference) || fuel == 0 {
            return invalid("prepared.context_cycle");
        }
        let revision = c.records.read::<ContextRevision>(
            &reference,
            ErrorCode::InvalidSnapshot,
            "prepared.record",
        )?;
        if !revision.scope.same(&c.snapshot.scope) || !revision.session_id.same(
            &c.snapshot.request.session_id,
        ) {
            return invalid("prepared.context_scope");
        }
        let shown = revision_artifacts(revision);
        found = crate::data::joined(&found, &shown);
        let ghost before = seen.deep_view();
        let ghost at = reference@;
        seen.push(reference);
        assert(seen.deep_view() =~= before.push(at));
        current = revision.parent.copy();
        fuel = fuel - 1;
    }
    Ok((seen, found))
}

/// The references that are not listed.
pub open spec fn unlisted_artifact(listed: Seq<ArtifactRefView>) -> spec_fn(
    ArtifactRefView,
) -> bool {
    |reference: ArtifactRefView| !listed.contains(reference)
}

/// The references to another scope.
pub open spec fn foreign_artifact(scope: ScopeView) -> spec_fn(ArtifactRefView) -> bool {
    |reference: ArtifactRefView| reference.scope != scope
}

/// The messages that a projection was made from.
pub open spec fn projected_messages(c: SettingView, root: PreparedStepRecordView) -> Seq<
    MessageView,
> {
    kept(
        session_of(c).messages,
        through_message(projection_of(c, root).provenance.through_sequence),
    )
}

/// Why the context and artifacts of a projection are refused.
pub open spec fn artifacts_fault(c: SettingView, root: PreparedStepRecordView) -> Option<Fault> {
    let projection = projection_of(c, root);
    let first = c.snapshot.context_revision_ref;
    let refs = chain_refs(c, first, Seq::empty(), longest_chain());
    let extra = chain_artifacts(c, first, Seq::empty(), longest_chain());
    let messages = projected_messages(c, root);
    let listed = projection.provenance.artifacts;
    if chain_fault(c, first, Seq::empty(), longest_chain()) is Some {
        chain_fault(c, first, Seq::empty(), longest_chain())
    } else if projection.provenance.context_revision_ref matches Some(reference) && !refs.contains(
        reference,
    ) {
        unprepared("prepared.context_reference")
    } else if projected_artifacts_fault(
        projection.request,
        messages,
        extra,
        c.snapshot.scope,
    ) is Some {
        projected_artifacts_fault(projection.request, messages, extra, c.snapshot.scope)
    } else if some_in(
        projected_artifacts_of(projection.request, messages, extra),
        unlisted_artifact(listed),
    ) || some_in(listed, foreign_artifact(c.snapshot.scope)) {
        unprepared("prepared.artifacts_missing")
    } else {
        None
    }
}

fn check_artifacts(
    c: &Setting,
    root: &PreparedStepRecord,
    projection: &PreparedModelProjection,
    session: &SessionState,
) -> (r: Result<(), ContractError>)
    requires
        projection@ == projection_of(c@, root@),
        session@ == session_of(c@),
    ensures
        failure(r) == artifacts_fault(c@, root@),
{
    let (refs, extra) = follow_context(c)?;
    let provenance = &projection.provenance;
    if let Some(reference) = &provenance.context_revision_ref {
        if !contains(&refs, reference) {
            return invalid("prepared.context_reference");
        }
    }
    let included = |message: &Message| -> (b: bool)
        ensures
            b == through_message(provenance@.through_sequence)(message@),
    { message.sequence <= provenance.through_sequence };
    let messages = keep(
        &session.messages,
        included,
        Ghost(through_message(provenance@.through_sequence)),
    );
    let expected = projected_artifacts(&projection.request, &messages, &extra, &c.snapshot.scope)?;
    let absent = |reference: &ArtifactRef| -> (b: bool)
        ensures
            b == unlisted_artifact(provenance@.artifacts)(reference@),
    { !contains(&provenance.artifacts, reference) };
    let foreign = |reference: &ArtifactRef| -> (b: bool)
        ensures
            b == foreign_artifact(c@.snapshot.scope)(reference@),
    { !reference.scope.same(&c.snapshot.scope) };
    if any(&expected, absent, Ghost(unlisted_artifact(provenance@.artifacts))) || any(
        &provenance.artifacts,
        foreign,
        Ghost(foreign_artifact(c@.snapshot.scope)),
    ) {
        return invalid("prepared.artifacts_missing");
    }
    Ok(())
}

/// Where a manifest stands from a position on.
pub open spec fn manifest_at(
    manifests: Seq<PinnedPromptToolView>,
    from: int,
    manifest: PinnedPromptToolView,
) -> Option<int>
    decreases manifests.len() - from,
{
    if from < 0 || from >= manifests.len() {
        None
    } else if manifests[from] == manifest {
        Some(from)
    } else {
        manifest_at(manifests, from + 1, manifest)
    }
}

fn find_manifest(manifests: &Vec<PinnedPromptTool>, from: usize, manifest: &PinnedPromptTool) -> (r:
    Option<usize>)
    ensures
        match r {
            Some(i) => i < manifests.len() && manifest_at(
                manifests.deep_view(),
                from as int,
                manifest@,
            ) == Some(i as int),
            None => manifest_at(manifests.deep_view(), from as int, manifest@) is None,
        },
{
    let mut i: usize = from;
    while i < manifests.len()
        invariant
            manifest_at(manifests.deep_view(), from as int, manifest@) == manifest_at(
                manifests.deep_view(),
                i as int,
                manifest@,
            ),
        decreases manifests.len() - i,
    {
        assert(manifests.deep_view()[i as int] == manifests@[i as int]@);
        if manifests[i].same(manifest) {
            return Some(i);
        }
        i = i + 1;
    }
    None
}

/// The digest inside a stored contract.
pub open spec fn digest_within(value: JsonView) -> Option<Seq<char>> {
    match get_of(value, "digest"@) {
        Some(JsonView::Text(text)) => if digest_form(text) {
            Some(text)
        } else {
            None
        },
        _ => None,
    }
}

fn saved_digest(value: &Json) -> (r: Option<JsonDigest>)
    ensures
        r.deep_view() == digest_within(value@),
{
    match value.get("digest") {
        Some(Json::Text(text)) => match JsonDigest::try_from(text.copy()) {
            Ok(digest) => Some(digest),
            Err(_) => None,
        },
        _ => None,
    }
}

/// The contracts that were restored under a digest for a tool.
pub open spec fn restored_under(digest: Seq<char>, compiled_digest: Seq<char>) -> spec_fn(
    CachedContractView,
) -> bool {
    |cached: CachedContractView|
        cached.digest == digest && cached.compiled_digest == compiled_digest
}

/// Why one advertised tool is refused.
pub open spec fn tool_fault(
    c: SettingView,
    target: ProviderToolTargetView,
    manifests: Seq<PinnedPromptToolView>,
    progress: ToolProgressView,
    entry: ResolvedToolSetEntryView,
    reference: RecordRefView,
    wire: ModelToolView,
) -> Option<Fault> {
    let record = c.records[key_of(reference)];
    let tool = cached_tool(entry, progress.tools);
    if manifest_at(manifests, progress.position as int, entry.manifest) is None {
        unprepared("prepared.tool_manifest")
    } else if cached_entry_fault(entry, progress.tools) is Some {
        cached_entry_fault(entry, progress.tools)
    } else if record_fault(c.records, reference) is Some {
        record_fault(c.records, reference)
    } else {
        match digest_within(record.value) {
            None => unprepared("prepared.contract_digest"),
            Some(digest) => {
                let restored = contract_restore_fault(
                    text_of_value(record.value),
                    <SavedContract as Recorded>::reading(record.content),
                    tool,
                    target,
                    digest,
                    usual_limits(),
                );
                match first_in(
                    progress.cached,
                    restored_under(digest, entry.manifest.compiled_digest),
                ) {
                    Some(cached) => if cached.value != record.value || cached.contract.data.target
                        != target {
                        unprepared("prepared.contract_cache_identity")
                    } else if cached.contract.data.wire_tool != wire {
                        unprepared("prepared.wire_tool")
                    } else {
                        None
                    },
                    None => if restored is Some {
                        restored
                    } else if contract_in(record).data.wire_tool != wire {
                        unprepared("prepared.wire_tool")
                    } else {
                        None
                    },
                }
            },
        }
    }
}

/// The contract that a record holds.
pub open spec fn contract_in(record: ProtectedRecordView) -> CompiledToolContractView {
    let saved = <SavedContract as Recorded>::reading(record.content)->Some_0;
    CompiledToolContractView { data: saved.data, digest: saved.digest }
}

/// The progress after one advertised tool.
pub open spec fn progress_after(
    c: SettingView,
    manifests: Seq<PinnedPromptToolView>,
    progress: ToolProgressView,
    entry: ResolvedToolSetEntryView,
    reference: RecordRefView,
) -> ToolProgressView {
    let record = c.records[key_of(reference)];
    let digest = digest_within(record.value)->Some_0;
    let cached = first_in(
        progress.cached,
        restored_under(digest, entry.manifest.compiled_digest),
    );
    ToolProgressView {
        position: (manifest_at(manifests, progress.position as int, entry.manifest)->Some_0
            + 1) as usize,
        tools: cache_after(entry, progress.tools),
        cached: match cached {
            Some(_) => progress.cached,
            None => progress.cached.push(
                CachedContractView {
                    digest,
                    compiled_digest: entry.manifest.compiled_digest,
                    contract: contract_in(record),
                    value: record.value,
                },
            ),
        },
        contracts: progress.contracts.push(
            match cached {
                Some(cached) => cached.contract,
                None => contract_in(record),
            },
        ),
    }
}

/// The progress before the tool at a position.
pub open spec fn progress_at(
    c: SettingView,
    root: PreparedStepRecordView,
    prior: PreparationView,
    i: int,
) -> ToolProgressView
    decreases i,
{
    if i <= 0 {
        ToolProgressView {
            position: 0,
            tools: prior.tools,
            cached: prior.contracts,
            contracts: Seq::empty(),
        }
    } else {
        progress_after(
            c,
            manifests_of(c, root),
            progress_at(c, root, prior, i - 1),
            tools_of(c, root).entries[i - 1],
            root.compiled_tools[i - 1],
        )
    }
}

/// Why the advertised tool at a position is refused.
pub open spec fn tool_fault_at(
    c: SettingView,
    root: PreparedStepRecordView,
    prior: PreparationView,
) -> spec_fn(int) -> Option<Fault> {
    |i: int|
        tool_fault(
            c,
            target_of(projection_of(c, root).request.route),
            manifests_of(c, root),
            progress_at(c, root, prior, i),
            tools_of(c, root).entries[i],
            root.compiled_tools[i],
            projection_of(c, root).request.tools[i],
        )
}

/// Why the advertised tools of a step are refused.
pub open spec fn tools_fault(
    c: SettingView,
    root: PreparedStepRecordView,
    prior: PreparationView,
) -> Option<Fault> {
    first_index_fault(
        0,
        tools_of(c, root).entries.len() as int,
        tool_fault_at(c, root, prior),
    )
}

fn check_tool(
    c: &Setting,
    target: &ProviderToolTarget,
    manifests: &Vec<PinnedPromptTool>,
    progress: ToolProgress,
    entry: &ResolvedToolSetEntry,
    reference: &RecordRef,
    wire: &ModelTool,
) -> (r: Result<ToolProgress, ContractError>)
    ensures
        failure(r) == tool_fault(
            c@,
            target@,
            manifests.deep_view(),
            progress@,
            entry@,
            reference@,
            wire@,
        ),
        r matches Ok(next) ==> next@ == progress_after(
            c@,
            manifests.deep_view(),
            progress@,
            entry@,
            reference@,
        ),
{
    let ToolProgress { position, mut tools, mut cached, mut contracts } = progress;
    let ghost before = progress@;
    let at: usize = match find_manifest(manifests, position, &entry.manifest) {
        Some(at) => at,
        None => {
            return invalid("prepared.tool_manifest");
        },
    };
    let tool = entry.restore_cached(&mut tools)?;
    let record = c.records.record(reference)?;
    let value = record.value();
    let digest = match saved_digest(value) {
        Some(digest) => digest,
        None => {
            return invalid("prepared.contract_digest");
        },
    };
    let same = |earlier: &CachedContract| -> (b: bool)
        ensures
            b == restored_under(digest@, entry@.manifest.compiled_digest)(earlier@),
    {
        earlier.digest.same(&digest) && earlier.compiled_digest.same(
            &entry.manifest.compiled_digest,
        )
    };
    let known = match find(
        &cached,
        same,
        Ghost(restored_under(digest@, entry@.manifest.compiled_digest)),
    ) {
        Some(earlier) => {
            if !earlier.value.same(value) || !earlier.contract.target().same(target) {
                return invalid("prepared.contract_cache_identity");
            }
            Some(earlier.contract.copy())
        },
        None => None,
    };
    let contract = match known {
        Some(contract) => contract,
        None => {
            let contract = CompiledToolContract::restore_text(
                &JsonText::of_value(value),
                <SavedContract as Recorded>::read(record.content()),
                &tool,
                target,
                &digest,
                &ProviderToolSchemaLimits::default(),
            )?;
            assert(contract@ == contract_in(c@.records[key_of(reference@)]));
            cached.push(
                CachedContract {
                    digest: digest.copy(),
                    compiled_digest: entry.manifest.compiled_digest.copy(),
                    contract: contract.copy(),
                    value: value.copy(),
                },
            );
            assert(cached.deep_view() =~= before.cached.push(
                CachedContractView {
                    digest: digest@,
                    compiled_digest: entry@.manifest.compiled_digest,
                    contract: contract@,
                    value: value@,
                },
            ));
            contract
        },
    };
    if !contract.wire_tool().same(wire) {
        return invalid("prepared.wire_tool");
    }
    let ghost listed = contracts.deep_view();
    let ghost added = contract@;
    contracts.push(contract);
    assert(contracts.deep_view() =~= listed.push(added));
    let next = ToolProgress { position: at + 1, tools, cached, contracts };
    assert(next@ =~= progress_after(
        c@,
        manifests.deep_view(),
        before,
        entry@,
        reference@,
    ));
    Ok(next)
}

fn check_tools(
    c: &Setting,
    root: &PreparedStepRecord,
    projection: &PreparedModelProjection,
    tools: &ResolvedToolSet,
    manifests: &Vec<PinnedPromptTool>,
    prior: &Preparation,
) -> (r: Result<ToolProgress, ContractError>)
    requires
        projection@ == projection_of(c@, root@),
        tools@ == tools_of(c@, root@),
        manifests.deep_view() == manifests_of(c@, root@),
        tools@.entries.len() == projection@.request.tools.len(),
        tools@.entries.len() == root@.compiled_tools.len(),
    ensures
        failure(r) == tools_fault(c@, root@, prior@),
        r matches Ok(progress) ==> progress@ == progress_at(
            c@,
            root@,
            prior@,
            tools@.entries.len() as int,
        ),
{
    let target = ProviderToolTarget::for_route(&projection.request.route);
    let contracts: Vec<CompiledToolContract> = Vec::new();
    assert(contracts.deep_view() =~= Seq::<CompiledToolContractView>::empty());
    let mut progress = ToolProgress {
        position: 0,
        tools: prior.tools.copy(),
        cached: prior.contracts.copy(),
        contracts,
    };
    let ghost f = tool_fault_at(c@, root@, prior@);
    let ghost n = tools@.entries.len() as int;
    let mut i: usize = 0;
    assert(tools@.entries.len() == tools.entries.len());
    while i < tools.entries.len()
        invariant
            i <= tools.entries.len(),
            n == tools.entries.len(),
            f == tool_fault_at(c@, root@, prior@),
            projection@ == projection_of(c@, root@),
            tools@ == tools_of(c@, root@),
            target@ == target_of(projection@.request.route),
            manifests.deep_view() == manifests_of(c@, root@),
            tools@.entries.len() == n,
            projection@.request.tools.len() == n,
            root@.compiled_tools.len() == n,
            progress@ == progress_at(c@, root@, prior@, i as int),
            first_index_fault(0, n, f) == first_index_fault(i as int, n, f),
        decreases tools.entries.len() - i,
    {
        assert(root.compiled_tools.len() == n && projection.request.tools.len() == n);
        let ghost before = progress@;
        assert(tools.entries@[i as int]@ == tools_of(c@, root@).entries[i as int]);
        assert(root.compiled_tools@[i as int]@ == root@.compiled_tools[i as int]);
        assert(projection.request.tools@[i as int]@ == projection_of(
            c@,
            root@,
        ).request.tools[i as int]);
        progress =
        check_tool(
            c,
            &target,
            manifests,
            progress,
            &tools.entries[i],
            &root.compiled_tools[i],
            &projection.request.tools[i],
        )?;
        i = i + 1;
    }
    Ok(progress)
}

/// The batches that fill the slot of a binding.
pub open spec fn fills_slot(
    c: SettingView,
    root: PreparedStepRecordView,
    binding: ContextBindingView,
) -> spec_fn(RecordRefView) -> bool {
    |reference: RecordRefView|
        {
            let request = value_at::<ContextBatch>(c.records, reference).request;
            saved_fault::<ContextBatch>(c.records, reference, "prepared.source_request") is None
                && request.binding == binding && (binding.trigger == ContextTrigger::RunStart
                || request.model_step_id == Some(root.model_step_id))
        }
}

/// Why a batch cannot be read.
pub open spec fn batch_fault(c: SettingView, path: &str) -> spec_fn(RecordRefView) -> Option<
    Fault,
> {
    |reference: RecordRefView| saved_fault::<ContextBatch>(c.records, reference, path)
}

/// Why the slot of a binding is not filled exactly once.
pub open spec fn slot_fault(c: SettingView, root: PreparedStepRecordView) -> spec_fn(
    ContextBindingView,
) -> Option<Fault> {
    |binding: ContextBindingView|
        if first_fault(c.snapshot.context_batches, batch_fault(c, "prepared.source_request"))
            is Some {
            first_fault(c.snapshot.context_batches, batch_fault(c, "prepared.source_request"))
        } else if kept(c.snapshot.context_batches, fills_slot(c, root, binding)).len() != 1 {
            unprepared("prepared.source_slot")
        } else {
            None
        }
}

/// The batch in the slot of each binding.
pub open spec fn slot_batch(c: SettingView, root: PreparedStepRecordView) -> spec_fn(
    ContextBindingView,
) -> RecordRefView {
    |binding: ContextBindingView|
        kept(c.snapshot.context_batches, fills_slot(c, root, binding))[0]
}

/// The context bindings of a run.
pub open spec fn bindings_of(snapshot: RunSnapshotView) -> Seq<ContextBindingView> {
    match snapshot.profile.profile.context_sources {
        Some(bindings) => bindings,
        None => Seq::empty(),
    }
}

/// Why the source batches of an agent step are refused.
pub open spec fn sources_fault(c: SettingView, root: PreparedStepRecordView) -> Option<Fault> {
    let bindings = bindings_of(c.snapshot);
    if root.purpose != ModelPurpose::Agent {
        None
    } else if first_fault(bindings, slot_fault(c, root)) is Some {
        first_fault(bindings, slot_fault(c, root))
    } else if bindings.map_values(slot_batch(c, root)) != projection_of(
        c,
        root,
    ).provenance.source_batches {
        unprepared("prepared.source_selection")
    } else {
        None
    }
}

fn find_slot(c: &Setting, root: &PreparedStepRecord, binding: &ContextBinding) -> (r: Result<
    RecordRef,
    ContractError,
>)
    ensures
        failure(r) == slot_fault(c@, root@)(binding@),
        r matches Ok(reference) ==> reference@ == slot_batch(c@, root@)(binding@),
{
    let batches = &c.snapshot.context_batches;
    let readable = |reference: &RecordRef| -> (r: Result<(), ContractError>)
        ensures
            failure(r) == batch_fault(c@, "prepared.source_request")(reference@),
    {
        c.records.read::<ContextBatch>(
            reference,
            ErrorCode::InvalidSnapshot,
            "prepared.source_request",
        )?;
        Ok(())
    };
    check_each(batches, readable, Ghost(batch_fault(c@, "prepared.source_request")))?;
    let fills = |reference: &RecordRef| -> (b: bool)
        ensures
            b == fills_slot(c@, root@, binding@)(reference@),
    {
        match c.records.read::<ContextBatch>(
            reference,
            ErrorCode::InvalidSnapshot,
            "prepared.source_request",
        ) {
            Ok(batch) => {
                let request = batch.request();
                request.binding.same(binding) && (binding.trigger == ContextTrigger::RunStart
                    || is_same(&request.model_step_id, &root.model_step_id))
            },
            Err(_) => false,
        }
    };
    let matching = keep(batches, fills, Ghost(fills_slot(c@, root@, binding@)));
    assert(matching.deep_view().len() == matching.len());
    if matching.len() != 1 {
        return invalid("prepared.source_slot");
    }
    Ok(matching[0].copy())
}

fn check_sources(c: &Setting, root: &PreparedStepRecord, projection: &PreparedModelProjection) -> (r:
    Result<(), ContractError>)
    requires
        projection@ == projection_of(c@, root@),
    ensures
        failure(r) == sources_fault(c@, root@),
{
    if root.purpose != ModelPurpose::Agent {
        return Ok(());
    }
    let none: Vec<ContextBinding> = Vec::new();
    assert(none.deep_view() =~= Seq::<ContextBindingView>::empty());
    let bindings = match &c.snapshot.profile.profile().context_sources {
        Some(bindings) => bindings,
        None => &none,
    };
    assert(bindings.deep_view() == bindings_of(c@.snapshot));
    let ghost s = bindings.deep_view();
    let ghost f = slot_fault(c@, root@);
    let ghost g = slot_batch(c@, root@);
    let mut expected: Vec<RecordRef> = Vec::new();
    let mut i: usize = 0;
    assert(s.skip(0) =~= s);
    assert(expected.deep_view() =~= s.take(0).map_values(g));
    while i < bindings.len()
        invariant
            i <= bindings.len(),
            s == bindings.deep_view(),
            f == slot_fault(c@, root@),
            g == slot_batch(c@, root@),
            s == bindings_of(c@.snapshot),
            root@.purpose == ModelPurpose::Agent,
            first_fault(s, f) == first_fault(s.skip(i as int), f),
            expected.deep_view() == s.take(i as int).map_values(g),
        decreases bindings.len() - i,
    {
        assert(s.skip(i as int)[0] == bindings@[i as int]@);
        assert(s.skip(i as int).skip(1) =~= s.skip(i + 1));
        let reference = find_slot(c, root, &bindings[i])?;
        let ghost before = expected.deep_view();
        let ghost at = reference@;
        expected.push(reference);
        assert(expected.deep_view() =~= before.push(at));
        assert(expected.deep_view() =~= s.take(i + 1).map_values(g));
        i = i + 1;
    }
    assert(s.take(i as int) =~= s);
    assert(s.skip(i as int) =~= Seq::<ContextBindingView>::empty());
    if !expected.same(&projection.provenance.source_batches) {
        return invalid("prepared.source_selection");
    }
    Ok(())
}

/// Why a source batch of a projection is refused.
pub open spec fn source_batch_fault(c: SettingView) -> spec_fn(RecordRefView) -> Option<Fault> {
    |reference: RecordRefView|
        if !c.snapshot.context_batches.contains(reference) {
            unprepared("prepared.source_batch")
        } else {
            saved_fault::<ContextBatch>(c.records, reference, "prepared.fragments")
        }
}

/// The observations of batches, in order.
pub open spec fn fragments_of(c: SettingView, batches: Seq<RecordRefView>) -> Seq<
    ContextFragmentView,
>
    decreases batches.len(),
{
    if batches.len() == 0 {
        Seq::empty()
    } else {
        fragments_of(c, batches.drop_last()) + value_at::<ContextBatch>(
            c.records,
            batches.last(),
        ).fragments
    }
}

/// Why the observations of a projection are refused.
pub open spec fn fragments_fault(c: SettingView, root: PreparedStepRecordView) -> Option<Fault> {
    let provenance = projection_of(c, root).provenance;
    if first_fault(provenance.source_batches, source_batch_fault(c)) is Some {
        first_fault(provenance.source_batches, source_batch_fault(c))
    } else if fragments_of(c, provenance.source_batches) != provenance.fragments {
        unprepared("prepared.fragments")
    } else {
        first_fault(provenance.fragments, |fragment: ContextFragmentView| fragment.defect)
    }
}

fn check_fragments(c: &Setting, root: &PreparedStepRecord, projection: &PreparedModelProjection)
    -> (r: Result<(), ContractError>)
    requires
        projection@ == projection_of(c@, root@),
    ensures
        failure(r) == fragments_fault(c@, root@),
{
    let batches = &projection.provenance.source_batches;
    let ghost s = batches.deep_view();
    let ghost f = source_batch_fault(c@);
    let mut fragments: Vec<ContextFragment> = Vec::new();
    let mut i: usize = 0;
    assert(s.skip(0) =~= s);
    assert(s.take(0) =~= Seq::<RecordRefView>::empty());
    assert(fragments.deep_view() =~= Seq::<ContextFragmentView>::empty());
    while i < batches.len()
        invariant
            i <= batches.len(),
            s == batches.deep_view(),
            s == projection_of(c@, root@).provenance.source_batches,
            f == source_batch_fault(c@),
            first_fault(s, f) == first_fault(s.skip(i as int), f),
            fragments.deep_view() == fragments_of(c@, s.take(i as int)),
        decreases batches.len() - i,
    {
        let reference = &batches[i];
        assert(s.skip(i as int)[0] == reference@);
        assert(s.skip(i as int).skip(1) =~= s.skip(i + 1));
        assert(s.take(i + 1).drop_last() =~= s.take(i as int));
        assert(s.take(i + 1).last() == reference@);
        if !contains(&c.snapshot.context_batches, reference) {
            return invalid("prepared.source_batch");
        }
        let batch = c.records.read::<ContextBatch>(
            reference,
            ErrorCode::InvalidSnapshot,
            "prepared.fragments",
        )?;
        fragments = crate::data::joined(&fragments, batch.fragments());
        i = i + 1;
    }
    assert(s.take(i as int) =~= s);
    assert(s.skip(i as int) =~= Seq::<RecordRefView>::empty());
    if !fragments.same(&projection.provenance.fragments) {
        return invalid("prepared.fragments");
    }
    let sound = |fragment: &ContextFragment| -> (r: Result<(), ContractError>)
        ensures
            failure(r) == fragment@.defect,
    { verdict(&fragment.defect) };
    check_each(
        &projection.provenance.fragments,
        sound,
        Ghost(|fragment: ContextFragmentView| fragment.defect),
    )
}

/// Why a dependency of a projection is refused.
pub open spec fn dependency_fault(c: SettingView) -> spec_fn(ContextLineageView) -> Option<Fault> {
    |dependency: ContextLineageView|
        {
            let own = dependency.run_id == c.snapshot.run_id;
            let run = if own {
                c.snapshot
            } else {
                c.state.runs[dependency.run_id].snapshot
            };
            if !own && !c.state.runs.dom().contains(dependency.run_id) {
                missing()
            } else if run.request.session_id != c.snapshot.request.session_id
                || !run.context_batches.contains(dependency.batch_ref) {
                unprepared("prepared.lineage")
            } else {
                record_fault(c.records, dependency.batch_ref)
            }
        }
}

fn check_dependencies(c: &Setting, projection: &PreparedModelProjection) -> (r: Result<
    (),
    ContractError,
>)
    ensures
        failure(r) == first_fault(projection@.provenance.source_lineage, dependency_fault(c@)),
{
    let kept_up = |dependency: &ContextLineage| -> (r: Result<(), ContractError>)
        ensures
            failure(r) == dependency_fault(c@)(dependency@),
    {
        let run = if dependency.run_id.same(&c.snapshot.run_id) {
            c.snapshot
        } else {
            match c.state.run(&dependency.run_id) {
                Ok(run) => &run.snapshot,
                Err(error) => {
                    return Err(error);
                },
            }
        };
        if !run.request.session_id.same(&c.snapshot.request.session_id) || !contains(
            &run.context_batches,
            &dependency.batch_ref,
        ) {
            return invalid("prepared.lineage");
        }
        c.records.check(&dependency.batch_ref)
    };
    check_each(&projection.provenance.source_lineage, kept_up, Ghost(dependency_fault(c@)))
}

/// Why a prepared step is refused.
pub open spec fn root_fault(
    c: SettingView,
    prior: PreparationView,
    reference: RecordRefView,
) -> Option<Fault> {
    let root = value_at::<PreparedStepRecord>(c.records, reference);
    or_else(
        identity_fault(c, prior, reference),
        or_else(
            projection_fault(c, root),
            or_else(
                step_fault(c, root),
                or_else(
                    session_fault(c, root),
                    or_else(
                        lineage_fault(c, root),
                        or_else(
                            artifacts_fault(c, root),
                            or_else(
                                tools_fault(c, root, prior),
                                or_else(
                                    sources_fault(c, root),
                                    or_else(
                                        fragments_fault(c, root),
                                        first_fault(
                                            projection_of(c, root).provenance.source_lineage,
                                            dependency_fault(c),
                                        ),
                                    ),
                                ),
                            ),
                        ),
                    ),
                ),
            ),
        ),
    )
}

/// What the prepared steps have shown after one more.
pub open spec fn preparation_after(
    c: SettingView,
    prior: PreparationView,
    reference: RecordRefView,
) -> PreparationView {
    let root = value_at::<PreparedStepRecord>(c.records, reference);
    let progress = progress_at(c, root, prior, tools_of(c, root).entries.len() as int);
    PreparationView {
        tools: progress.tools,
        contracts: progress.cached,
        roots: prior.roots.push(
            PreparedRootView {
                reference,
                root,
                projection: projection_of(c, root),
                configuration: configuration_saved(c, root).configuration->Some_0,
                tools: tools_of(c, root),
                contracts: progress.contracts,
            },
        ),
    }
}

/// Nothing prepared.
pub open spec fn unprepared_yet() -> PreparationView {
    PreparationView { tools: Seq::empty(), contracts: Seq::empty(), roots: Seq::empty() }
}

/// What the prepared steps before a position have shown.
pub open spec fn preparation_at(c: SettingView, i: int) -> PreparationView
    decreases i,
{
    if i <= 0 {
        unprepared_yet()
    } else {
        preparation_after(c, preparation_at(c, i - 1), c.snapshot.prepared_steps[i - 1])
    }
}

/// Why the prepared step at a position is refused.
pub open spec fn root_fault_at(c: SettingView) -> spec_fn(int) -> Option<Fault> {
    |i: int| root_fault(c, preparation_at(c, i), c.snapshot.prepared_steps[i])
}

fn check_root(c: &Setting, prior: Preparation, reference: &RecordRef) -> (r: Result<
    Preparation,
    ContractError,
>)
    requires
        prior.roots.len() < usize::MAX,
    ensures
        failure(r) == root_fault(c@, prior@, reference@),
        r matches Ok(next) ==> next@ == preparation_after(c@, prior@, reference@)
            && next.roots.len() == prior.roots.len() + 1,
{
    let root = check_identity(c, &prior, reference)?;
    let (projection, tools, configuration) = check_projection(c, root)?;
    check_step(c, root, projection, configuration)?;
    let (session, manifests) = check_session(c, root, projection, tools)?;
    check_lineage(c, root, projection)?;
    check_artifacts(c, root, projection, session)?;
    let progress = check_tools(c, root, projection, tools, &manifests, &prior)?;
    check_sources(c, root, projection)?;
    check_fragments(c, root, projection)?;
    check_dependencies(c, projection)?;
    let ghost before = prior@;
    let mut roots = prior.roots;
    let added = PreparedRoot {
        reference: reference.copy(),
        root: root.copy(),
        projection: projection.copy(),
        configuration: configuration.copy(),
        tools: tools.copy(),
        contracts: progress.contracts,
    };
    let ghost item = added@;
    roots.push(added);
    assert(roots.deep_view() =~= before.roots.push(item));
    Ok(Preparation { tools: progress.tools, contracts: progress.cached, roots })
}

fn prepare_roots(c: &Setting) -> (r: Result<Preparation, ContractError>)
    ensures
        failure(r) == first_index_fault(
            0,
            c@.snapshot.prepared_steps.len() as int,
            root_fault_at(c@),
        ),
        r matches Ok(prepared) ==> prepared@ == preparation_at(
            c@,
            c@.snapshot.prepared_steps.len() as int,
        ),
{
    let steps = &c.snapshot.prepared_steps;
    let ghost n = c@.snapshot.prepared_steps.len() as int;
    let ghost f = root_fault_at(c@);
    let mut prepared = Preparation { tools: Vec::new(), contracts: Vec::new(), roots: Vec::new() };
    assert(prepared@ =~= unprepared_yet()) by {
        assert(prepared@.tools =~= Seq::<CompiledToolView>::empty());
        assert(prepared@.contracts =~= Seq::<CachedContractView>::empty());
        assert(prepared@.roots =~= Seq::<PreparedRootView>::empty());
    }
    let mut i: usize = 0;
    while i < steps.len()
        invariant
            i <= steps.len(),
            n == steps.len(),
            f == root_fault_at(c@),
            steps.deep_view() == c@.snapshot.prepared_steps,
            prepared@ == preparation_at(c@, i as int),
            prepared.roots.len() == i,
            first_index_fault(0, n, f) == first_index_fault(i as int, n, f),
        decreases steps.len() - i,
    {
        assert(steps@[i as int]@ == c@.snapshot.prepared_steps[i as int]);
        prepared = check_root(c, prepared, &steps[i])?;
        i = i + 1;
    }
    Ok(prepared)
}

/// The prepared steps of the agent.
pub open spec fn agent_steps(roots: Seq<PreparedRootView>) -> spec_fn(RecordRefView) -> bool {
    |reference: RecordRefView|
        first_in(roots, root_at(reference)) matches Some(root) && root.root.purpose
            == ModelPurpose::Agent
}

/// Why the active prepared step of a run is refused.
pub open spec fn active_fault(snapshot: RunSnapshotView, roots: Seq<PreparedRootView>) -> Option<
    Fault,
> {
    match snapshot.active_prepared_step {
        None => None,
        Some(reference) => match first_in(roots, root_at(reference)) {
            None => unprepared("prepared.active"),
            Some(root) => if root.root.purpose != ModelPurpose::Agent || snapshot.model_step_id
                != Some(root.root.model_step_id) || last_in(
                snapshot.prepared_steps,
                agent_steps(roots),
            ) != Some(reference) {
                unprepared("prepared.active")
            } else {
                None
            },
        },
    }
}

fn check_active(snapshot: &RunSnapshot, roots: &Vec<PreparedRoot>) -> (r: Result<
    (),
    ContractError,
>)
    ensures
        failure(r) == active_fault(snapshot@, roots.deep_view()),
{
    let reference = match &snapshot.active_prepared_step {
        Some(reference) => reference,
        None => {
            return Ok(());
        },
    };
    let root = match find_root(roots, reference) {
        Some(root) => root,
        None => {
            return invalid("prepared.active");
        },
    };
    let of_agent = |other: &RecordRef| -> (b: bool)
        ensures
            b == agent_steps(roots.deep_view())(other@),
    {
        match find_root(roots, other) {
            Some(root) => root.root.purpose == ModelPurpose::Agent,
            None => false,
        }
    };
    let is_latest = match find_last(
        &snapshot.prepared_steps,
        of_agent,
        Ghost(agent_steps(roots.deep_view())),
    ) {
        Some(latest) => latest.same(reference),
        None => false,
    };
    if root.root.purpose != ModelPurpose::Agent || !is_same(
        &snapshot.model_step_id,
        &root.root.model_step_id,
    ) || !is_latest {
        return invalid("prepared.active");
    }
    Ok(())
}

/// Why a model attempt does not repeat the step that it was prepared from.
pub open spec fn invocation_fault(
    snapshot: RunSnapshotView,
    roots: Seq<PreparedRootView>,
) -> spec_fn(ModelInvocationRecordView) -> Option<Fault> {
    |invocation: ModelInvocationRecordView|
        match invocation.prepared_step_ref {
            None => None,
            Some(reference) => if !snapshot.prepared_steps.contains(reference) {
                unprepared("prepared.invocation_reference")
            } else {
                match first_in(roots, root_at(reference)) {
                    None => unprepared("prepared.invocation"),
                    Some(root) => if invocation.model_step_id != root.root.model_step_id
                        || invocation.purpose != root.root.purpose || invocation.route
                        != root.projection.request.route || invocation.configuration != Some(
                        root.configuration,
                    ) || invocation.request_digest != physical_digest_of(
                        root.projection.request,
                        invocation.attempt_id,
                    ) {
                        unprepared("prepared.invocation")
                    } else {
                        None
                    },
                }
            },
        }
}

fn check_invocation(
    snapshot: &RunSnapshot,
    roots: &Vec<PreparedRoot>,
    invocation: &ModelInvocationRecord,
) -> (r: Result<(), ContractError>)
    ensures
        failure(r) == invocation_fault(snapshot@, roots.deep_view())(invocation@),
{
    let reference = match &invocation.prepared_step_ref {
        Some(reference) => reference,
        None => {
            return Ok(());
        },
    };
    if !contains(&snapshot.prepared_steps, reference) {
        return invalid("prepared.invocation_reference");
    }
    let root = match find_root(roots, reference) {
        Some(root) => root,
        None => {
            return invalid("prepared.invocation");
        },
    };
    if !invocation.model_step_id.same(&root.root.model_step_id) || invocation.purpose
        != root.root.purpose || !invocation.route.same(&root.projection.request.route) || !is_same(
        &invocation.configuration,
        &root.configuration,
    ) || !invocation.request_digest.same(
        &root.projection.request.physical_digest(&invocation.attempt_id),
    ) {
        return invalid("prepared.invocation");
    }
    Ok(())
}

/// The attempts under an identifier.
pub open spec fn attempt_named(attempt_id: Seq<char>) -> spec_fn(ModelInvocationRecordView) -> bool {
    |invocation: ModelInvocationRecordView| invocation.attempt_id == attempt_id
}

/// The proposals that a recorded call repeats.
pub open spec fn proposed_as(provider_call_id: Seq<char>, name: Seq<char>, raw: Seq<char>) -> spec_fn(
    ProposedToolCallView,
) -> bool {
    |proposed: ProposedToolCallView|
        proposed.provider_call_id == provider_call_id && proposed.name == name
            && proposed.raw_arguments == Some(raw)
}

/// The contracts that a provider knows by a name.
pub open spec fn known_as(name: Seq<char>) -> spec_fn(CompiledToolContractView) -> bool {
    |contract: CompiledToolContractView| contract.data.wire_tool.name == name
}

/// Why a call does not follow the contract that it was made under.
pub open spec fn contract_call_fault(
    root: PreparedRootView,
    entry: ToolLedgerEntryView,
    arguments: ProviderArgumentsView,
) -> Option<Fault> {
    let call = entry.call;
    match position_in(root.contracts, known_as(arguments.name)) {
        Some(index) => {
            let contract = root.contracts[index];
            let decoding = text_decode_fault(
                contract.data.decode_plan,
                arguments.raw,
                usual_limits(),
            );
            let decoded = if decoding is Some {
                Seq::empty()
            } else {
                text_arguments(contract.data.decode_plan, arguments.raw)
            };
            if decoding is Some && decoding->Some_0.code != ErrorCode::InvalidArguments {
                decoding
            } else if call.tool_name != contract.data.canonical_name || call.model_inputs != decoded
                || call.descriptor_digest != Some(
                root.tools.entries[index].manifest.descriptor_digest,
            ) || arguments.compiled_contract_ref != Some(root.root.compiled_tools[index]) {
                unprepared("prepared.call_contract")
            } else {
                None
            }
        },
        None => if call.descriptor_digest is Some || arguments.compiled_contract_ref is Some
            || call.tool_name != arguments.name {
            unprepared("prepared.unadvertised_tool")
        } else {
            None
        },
    }
}

/// Why a recorded call does not repeat what the model proposed.
#[verifier::opaque]
pub open spec fn proposal_fault(
    records: Map<RecordKeyView, ProtectedRecordView>,
    root: PreparedRootView,
    response_ref: RecordRefView,
    entry: ToolLedgerEntryView,
    arguments: ProviderArgumentsView,
) -> Option<Fault> {
    let call = entry.call;
    if saved_fault::<StoredModelResponse>(records, response_ref, "prepared.record") is Some {
        saved_fault::<StoredModelResponse>(records, response_ref, "prepared.record")
    } else {
        match value_at::<StoredModelResponse>(records, response_ref).outcome {
            ModelExchangeOutcomeView::Completed { response } => if !some_in(
                response.tool_calls,
                proposed_as(call.provider_call_id, arguments.name, arguments.raw),
            ) {
                unprepared("prepared.call_response")
            } else {
                contract_call_fault(root, entry, arguments)
            },
            _ => unprepared("prepared.call_response"),
        }
    }
}

/// Why a recorded call does not fit the step that it came from.
#[verifier::opaque]
pub open spec fn recorded_call_fault(
    records: Map<RecordKeyView, ProtectedRecordView>,
    snapshot: RunSnapshotView,
    roots: Seq<PreparedRootView>,
    entry: ToolLedgerEntryView,
) -> Option<Fault> {
    let call = entry.call;
    match first_in(snapshot.model_ledger, attempt_named(call.model_request_id)) {
        None => None,
        Some(invocation) => match invocation.prepared_step_ref {
            None => None,
            Some(reference) => match (
                first_in(roots, root_at(reference)),
                call.provider_arguments,
                invocation.response_ref,
            ) {
                (None, _, _) => unprepared("prepared.call"),
                (Some(_), None, _) => unprepared("prepared.call_provenance"),
                (Some(_), Some(_), None) => unprepared("prepared.call_response"),
                (Some(root), Some(arguments), Some(response_ref)) => proposal_fault(
                    records,
                    root,
                    response_ref,
                    entry,
                    arguments,
                ),
            },
        },
    }
}

/// Why a recorded call does not fit the step that it came from.
pub open spec fn call_fault(
    records: Map<RecordKeyView, ProtectedRecordView>,
    snapshot: RunSnapshotView,
    roots: Seq<PreparedRootView>,
) -> spec_fn(ToolLedgerEntryView) -> Option<Fault> {
    |entry: ToolLedgerEntryView| recorded_call_fault(records, snapshot, roots, entry)
}

/// Every prepared step has as many contracts as tools and references to them.
pub open spec fn aligned(roots: Seq<PreparedRootView>) -> bool {
    every(
        roots,
        |root: PreparedRootView|
            root.contracts.len() <= root.tools.entries.len() && root.contracts.len()
                <= root.root.compiled_tools.len(),
    )
}

fn check_contract_call(
    root: &PreparedRoot,
    entry: &ToolLedgerEntry,
    arguments: &ProviderArguments,
) -> (r: Result<(), ContractError>)
    requires
        root@.contracts.len() <= root@.tools.entries.len(),
        root@.contracts.len() <= root@.root.compiled_tools.len(),
    ensures
        failure(r) == contract_call_fault(root@, entry@, arguments@),
{
    let call = &entry.call;
    let known = |contract: &CompiledToolContract| -> (b: bool)
        ensures
            b == known_as(arguments@.name)(contract@),
    { contract.wire_tool().name.same(&arguments.name) };
    match position(&root.contracts, known, Ghost(known_as(arguments@.name))) {
        Some(index) => {
            let contract = &root.contracts[index];
            assert(contract@ == root@.contracts[index as int]);
            assert(root.tools.entries.len() == root@.tools.entries.len());
            assert(root.root.compiled_tools.len() == root@.root.compiled_tools.len());
            assert(root.tools.entries@[index as int]@ == root@.tools.entries[index as int]);
            let decoded = match contract.decode_arguments(
                arguments.raw.as_str(),
                &ProviderToolSchemaLimits::default(),
            ) {
                Ok(decoded) => decoded,
                Err(error) => {
                    if error.code != ErrorCode::InvalidArguments {
                        return Err(error);
                    }
                    let none: Vec<Member> = Vec::new();
                    assert(none.deep_view() =~= Seq::<MemberView>::empty());
                    none
                },
            };
            if !call.tool_name.same(contract.canonical_name()) || !call.model_inputs.same(&decoded)
                || !is_same(
                &call.descriptor_digest,
                &root.tools.entries[index].manifest.descriptor_digest,
            ) || !is_same(&arguments.compiled_contract_ref, &root.root.compiled_tools[index]) {
                return invalid("prepared.call_contract");
            }
            Ok(())
        },
        None => {
            if call.descriptor_digest.is_some() || arguments.compiled_contract_ref.is_some()
                || !call.tool_name.same(&arguments.name) {
                return invalid("prepared.unadvertised_tool");
            }
            Ok(())
        },
    }
}

fn check_call(
    records: &Records,
    snapshot: &RunSnapshot,
    roots: &Vec<PreparedRoot>,
    entry: &ToolLedgerEntry,
) -> (r: Result<(), ContractError>)
    requires
        aligned(roots.deep_view()),
    ensures
        failure(r) == recorded_call_fault(records@, snapshot@, roots.deep_view(), entry@),
{
    reveal(recorded_call_fault);
    let call = &entry.call;
    let named = |invocation: &ModelInvocationRecord| -> (b: bool)
        ensures
            b == attempt_named(call@.model_request_id)(invocation@),
    { invocation.attempt_id.same(&call.model_request_id) };
    let invocation = match find(
        &snapshot.model_ledger,
        named,
        Ghost(attempt_named(call@.model_request_id)),
    ) {
        Some(invocation) => invocation,
        None => {
            return Ok(());
        },
    };
    let reference = match &invocation.prepared_step_ref {
        Some(reference) => reference,
        None => {
            return Ok(());
        },
    };
    let root = match find_root(roots, reference) {
        Some(root) => root,
        None => {
            return invalid("prepared.call");
        },
    };
    let arguments = match &call.provider_arguments {
        Some(arguments) => arguments,
        None => {
            return invalid("prepared.call_provenance");
        },
    };
    let response_ref = match &invocation.response_ref {
        Some(response_ref) => response_ref,
        None => {
            return invalid("prepared.call_response");
        },
    };
    proof {
        crate::data::lemma_first_in(roots.deep_view(), root_at(reference@));
        let i = choose|i: int| 0 <= i < roots.deep_view().len() && roots.deep_view()[i] == root@;
        assert(roots.deep_view()[i] == root@);
    }
    check_proposal(records, root, response_ref, entry, arguments)
}

fn check_proposal(
    records: &Records,
    root: &PreparedRoot,
    response_ref: &RecordRef,
    entry: &ToolLedgerEntry,
    arguments: &ProviderArguments,
) -> (r: Result<(), ContractError>)
    requires
        root@.contracts.len() <= root@.tools.entries.len(),
        root@.contracts.len() <= root@.root.compiled_tools.len(),
    ensures
        failure(r) == proposal_fault(records@, root@, response_ref@, entry@, arguments@),
{
    reveal(proposal_fault);
    let call = &entry.call;
    let stored = records.read::<StoredModelResponse>(
        response_ref,
        ErrorCode::InvalidSnapshot,
        "prepared.record",
    )?;
    let response = match &stored.outcome {
        ModelExchangeOutcome::Completed { response } => response,
        _ => {
            return invalid("prepared.call_response");
        },
    };
    let proposed = |proposal: &ProposedToolCall| -> (b: bool)
        ensures
            b == proposed_as(call@.provider_call_id, arguments@.name, arguments@.raw)(
                proposal@,
            ),
    {
        proposal.provider_call_id.same(&call.provider_call_id) && proposal.name.same(
            &arguments.name,
        ) && is_same(&proposal.raw_arguments, &arguments.raw)
    };
    if !any(
        &response.tool_calls,
        proposed,
        Ghost(proposed_as(call@.provider_call_id, arguments@.name, arguments@.raw)),
    ) {
        return invalid("prepared.call_response");
    }
    check_contract_call(root, entry, arguments)
}

fn check_calls(records: &Records, snapshot: &RunSnapshot, roots: &Vec<PreparedRoot>) -> (r: Result<
    (),
    ContractError,
>)
    requires
        aligned(roots.deep_view()),
    ensures
        failure(r) == first_fault(
            snapshot@.tool_ledger,
            call_fault(records@, snapshot@, roots.deep_view()),
        ),
{
    let ghost everything = roots.deep_view();
    let ghost f = call_fault(records@, snapshot@, everything);
    let ghost s = snapshot@.tool_ledger;
    let mut i: usize = 0;
    assert(s.skip(0) =~= s);
    while i < snapshot.tool_ledger.len()
        invariant
            i <= snapshot.tool_ledger.len(),
            s == snapshot@.tool_ledger,
            s == snapshot.tool_ledger.deep_view(),
            everything == roots.deep_view(),
            aligned(everything),
            f == call_fault(records@, snapshot@, everything),
            first_fault(s, f) == first_fault(s.skip(i as int), f),
        decreases snapshot.tool_ledger.len() - i,
    {
        assert(s.skip(i as int)[0] == snapshot.tool_ledger@[i as int]@);
        assert(s.skip(i as int).skip(1) =~= s.skip(i + 1));
        if let Err(error) = check_call(records, snapshot, roots, &snapshot.tool_ledger[i]) {
            assert(first_fault(s, f) == Some(error@));
            return Err(error);
        }
        i = i + 1;
    }
    assert(s.skip(i as int) =~= Seq::<ToolLedgerEntryView>::empty());
    Ok(())
}

proof fn lemma_aligned(c: SettingView, i: int)
    requires
        0 <= i <= c.snapshot.prepared_steps.len(),
        first_index_fault(0, c.snapshot.prepared_steps.len() as int, root_fault_at(c)) is None,
    ensures
        aligned(preparation_at(c, i).roots),
    decreases i,
{
    if i > 0 {
        lemma_aligned(c, i - 1);
        crate::data::lemma_first_index_fault(
            0,
            c.snapshot.prepared_steps.len() as int,
            root_fault_at(c),
        );
        assert(root_fault_at(c)(i - 1) is None);
        let prior = preparation_at(c, i - 1);
        let root = value_at::<PreparedStepRecord>(c.records, c.snapshot.prepared_steps[i - 1]);
        let n = tools_of(c, root).entries.len() as int;
        lemma_progress(c, root, prior, n);
        assert(preparation_at(c, i).roots.drop_last() =~= prior.roots);
        assert forall|j: int| 0 <= j < preparation_at(c, i).roots.len() implies {
            let r = #[trigger] preparation_at(c, i).roots[j];
            r.contracts.len() <= r.tools.entries.len() && r.contracts.len()
                <= r.root.compiled_tools.len()
        } by {
            if j < prior.roots.len() {
                assert(preparation_at(c, i).roots[j] == prior.roots[j]);
            }
        }
    }
}

proof fn lemma_progress(
    c: SettingView,
    root: PreparedStepRecordView,
    prior: PreparationView,
    i: int,
)
    requires
        0 <= i,
    ensures
        progress_at(c, root, prior, i).contracts.len() == i,
    decreases i,
{
    if i > 0 {
        lemma_progress(c, root, prior, i - 1);
    }
}

/// Why the prepared steps of a run are refused.
pub open spec fn prepared_state_fault(
    records: Map<RecordKeyView, ProtectedRecordView>,
    state: ScopeStateView,
    snapshot: RunSnapshotView,
    lineages: Seq<LineageReadingView>,
    restored: Option<Fault>,
) -> Option<Fault> {
    let c = SettingView {
        records,
        state,
        snapshot,
        routing: prepared_routing(records, snapshot),
        lineages,
        restored,
    };
    let n = snapshot.prepared_steps.len() as int;
    let roots = if n == 0 {
        Seq::empty()
    } else {
        preparation_at(c, n).roots
    };
    or_else(
        first_index_fault(
            0,
            snapshot.model_step_inputs.len() as int,
            step_input_fault(records, state, snapshot),
        ),
        or_else(
            if n == 0 {
                None
            } else {
                or_else(
                    prepared_routing_fault(records, snapshot),
                    first_index_fault(0, n, root_fault_at(c)),
                )
            },
            or_else(
                active_fault(snapshot, roots),
                or_else(
                    first_fault(snapshot.model_ledger, invocation_fault(snapshot, roots)),
                    first_fault(snapshot.tool_ledger, call_fault(records, snapshot, roots)),
                ),
            ),
        ),
    )
}

/// Hold the prepared steps of a run against everything that they were prepared from, and the
/// run's model attempts and tool calls against the steps. `lineages` says what the messages up to
/// each projection's boundary depend on, and `restored` what restoring the session's prompt against
/// the profile and the scope of the run reported.
pub fn validate(
    state: &ScopeState,
    records: &Records,
    snapshot: &RunSnapshot,
    lineages: &Vec<LineageReading>,
    restored: &Option<ContractError>,
) -> (r: Result<(), ContractError>)
    ensures
        failure(r) == prepared_state_fault(
            records@,
            state@,
            snapshot@,
            lineages.deep_view(),
            restored.deep_view(),
        ),
{
    let usable = |i: usize| -> (r: Result<(), ContractError>)
        requires
            i < snapshot.model_step_inputs.len(),
        ensures
            failure(r) == step_input_fault(records@, state@, snapshot@)(i as int),
    { check_step_input(records, state, snapshot, i) };
    check_indices(
        snapshot.model_step_inputs.len(),
        usable,
        Ghost(step_input_fault(records@, state@, snapshot@)),
    )?;
    let mut roots: Vec<PreparedRoot> = Vec::new();
    assert(roots.deep_view() =~= Seq::<PreparedRootView>::empty());
    if snapshot.prepared_steps.len() > 0 {
        let routing = restore_routing(records, snapshot)?;
        let c = Setting {
            records: Records { stored: records.stored, added: records.added },
            state,
            snapshot,
            routing: &routing,
            lineages,
            restored,
        };
        let prepared = prepare_roots(&c)?;
        roots = prepared.roots;
        proof {
            lemma_aligned(c@, snapshot@.prepared_steps.len() as int);
        }
    }
    check_active(snapshot, &roots)?;
    let repeated = |invocation: &ModelInvocationRecord| -> (r: Result<(), ContractError>)
        ensures
            failure(r) == invocation_fault(snapshot@, roots.deep_view())(invocation@),
    { check_invocation(snapshot, &roots, invocation) };
    check_each(
        &snapshot.model_ledger,
        repeated,
        Ghost(invocation_fault(snapshot@, roots.deep_view())),
    )?;
    check_calls(records, snapshot, &roots)
}

proof fn lemma_chain_is_acyclic(
    c: SettingView,
    current: Option<RecordRefView>,
    seen: Seq<RecordRefView>,
    fuel: nat,
)
    requires
        chain_fault(c, current, seen, fuel) is None,
        crate::data::distinct(seen),
    ensures
        crate::data::distinct(chain_refs(c, current, seen, fuel)),
    decreases fuel,
{
    if let Some(reference) = current {
        let longer = seen.push(reference);
        assert forall|i: int, j: int| 0 <= i < j < longer.len() implies longer[i] != longer[j] by {
            assert(longer[i] == seen[i]);
            if j < seen.len() {
                assert(longer[j] == seen[j]);
            }
        }
        lemma_chain_is_acyclic(
            c,
            value_at::<ContextRevision>(c.records, reference).parent,
            longer,
            (fuel - 1) as nat,
        );
    }
}

/// The context revisions of a run lead back without meeting one twice.
pub proof fn law_context_revisions_lead_back(c: SettingView)
    requires
        chain_fault(
            c,
            c.snapshot.context_revision_ref,
            Seq::empty(),
            longest_chain(),
        ) is None,
    ensures
        crate::data::distinct(
            chain_refs(c, c.snapshot.context_revision_ref, Seq::empty(), longest_chain()),
        ),
{
    lemma_chain_is_acyclic(c, c.snapshot.context_revision_ref, Seq::empty(), longest_chain());
}

/// Only the agent is shown tools, and no step is shown messages that the session does not hold yet.
pub proof fn law_only_the_agent_has_tools(c: SettingView, root: PreparedStepRecordView)
    requires
        session_fault(c, root) is None,
    ensures
        root.purpose != ModelPurpose::Agent ==> tools_of(c, root).entries.len() == 0,
        c.state.sessions.dom().contains(c.snapshot.request.session_id),
        projection_of(c, root).provenance.through_sequence
            <= c.state.sessions[c.snapshot.request.session_id].snapshot.transcript_revision,
{
}

/// A step names all that its messages depend on, and an agent step nothing else.
pub proof fn law_dependencies_are_named(
    c: SettingView,
    root: PreparedStepRecordView,
    dependency: ContextLineageView,
)
    requires
        lineage_fault(c, root) is None,
    ensures
        exists|i: int|
            0 <= i < c.lineages.len() && (#[trigger] c.lineages[i]).through_sequence
                == projection_of(c, root).provenance.through_sequence && c.lineages[i].defect is None
                && (c.lineages[i].dependencies.contains(dependency) ==> projection_of(
                c,
                root,
            ).provenance.source_lineage.contains(dependency)) && (root.purpose
                == ModelPurpose::Agent ==> (projection_of(
                c,
                root,
            ).provenance.source_lineage.contains(dependency)
                ==> c.lineages[i].dependencies.contains(dependency))),
{
    let listed = projection_of(c, root).provenance.source_lineage;
    let p = at_boundary(projection_of(c, root).provenance.through_sequence);
    crate::data::lemma_first_in(c.lineages, p);
    let reading = first_in(c.lineages, p)->Some_0;
    let i = choose|i: int| 0 <= i < c.lineages.len() && c.lineages[i] == reading;
    if reading.dependencies.contains(dependency) {
        let k = choose|k: int|
            0 <= k < reading.dependencies.len() && reading.dependencies[k] == dependency;
        assert(!unlisted(listed)(reading.dependencies[k]));
    }
    assert(c.lineages[i].through_sequence == projection_of(
        c,
        root,
    ).provenance.through_sequence);
}

/// A manifest is found where it stands, not before the place from which it is looked for.
pub proof fn law_manifests_are_found_in_order(
    manifests: Seq<PinnedPromptToolView>,
    from: int,
    manifest: PinnedPromptToolView,
)
    requires
        0 <= from,
    ensures
        manifest_at(manifests, from, manifest) matches Some(i) ==> from <= i < manifests.len()
            && manifests[i] == manifest && forall|k: int|
            from <= k < i ==> #[trigger] manifests[k] != manifest,
        manifest_at(manifests, from, manifest) is None ==> forall|k: int|
            from <= k < manifests.len() ==> #[trigger] manifests[k] != manifest,
    decreases manifests.len() - from,
{
    if from < manifests.len() && manifests[from] != manifest {
        law_manifests_are_found_in_order(manifests, from + 1, manifest);
    }
}

/// The active preparation is that of an agent step, the latest one, of the step that the run is at.
pub proof fn law_the_active_preparation_is_the_latest(
    snapshot: RunSnapshotView,
    roots: Seq<PreparedRootView>,
    reference: RecordRefView,
)
    requires
        snapshot.active_prepared_step == Some(reference),
        active_fault(snapshot, roots) is None,
    ensures
        exists|i: int|
            0 <= i < roots.len() && key_of((#[trigger] roots[i]).reference) == key_of(reference)
                && roots[i].root.purpose == ModelPurpose::Agent && snapshot.model_step_id == Some(
                roots[i].root.model_step_id,
            ),
        last_in(snapshot.prepared_steps, agent_steps(roots)) == Some(reference),
{
    crate::data::lemma_first_in(roots, root_at(reference));
    let root = first_in(roots, root_at(reference))->Some_0;
    let i = choose|i: int| 0 <= i < roots.len() && roots[i] == root;
    assert(root_at(reference)(roots[i]));
}

/// An attempt that was prepared sends what was prepared: for its step and its purpose, on the prepared
/// route, with the prepared configuration.
pub proof fn law_attempts_send_what_was_prepared(
    snapshot: RunSnapshotView,
    roots: Seq<PreparedRootView>,
    invocation: ModelInvocationRecordView,
    reference: RecordRefView,
)
    requires
        invocation.prepared_step_ref == Some(reference),
        invocation_fault(snapshot, roots)(invocation) is None,
    ensures
        snapshot.prepared_steps.contains(reference),
        exists|i: int|
            0 <= i < roots.len() && key_of((#[trigger] roots[i]).reference) == key_of(reference)
                && invocation.model_step_id == roots[i].root.model_step_id && invocation.purpose
                == roots[i].root.purpose && invocation.route == roots[i].projection.request.route
                && invocation.configuration == Some(roots[i].configuration)
                && invocation.request_digest == physical_digest_of(
                roots[i].projection.request,
                invocation.attempt_id,
            ),
{
    crate::data::lemma_first_in(roots, root_at(reference));
    let root = first_in(roots, root_at(reference))->Some_0;
    let i = choose|i: int| 0 <= i < roots.len() && roots[i] == root;
    assert(root_at(reference)(roots[i]));
}

/// A recorded call was proposed by the response of its attempt, under the name and with the arguments
/// that the provider wrote.
pub proof fn law_recorded_calls_were_proposed(
    records: Map<RecordKeyView, ProtectedRecordView>,
    root: PreparedRootView,
    response_ref: RecordRefView,
    entry: ToolLedgerEntryView,
    arguments: ProviderArgumentsView,
)
    requires
        proposal_fault(records, root, response_ref, entry, arguments) is None,
    ensures
        value_at::<StoredModelResponse>(
            records,
            response_ref,
        ).outcome matches ModelExchangeOutcomeView::Completed { response } && exists|i: int|
            0 <= i < response.tool_calls.len() && (
            #[trigger] response.tool_calls[i]).provider_call_id == entry.call.provider_call_id
                && response.tool_calls[i].name == arguments.name
                && response.tool_calls[i].raw_arguments == Some(arguments.raw),
        (forall|i: int|
            0 <= i < root.contracts.len() ==> (#[trigger] root.contracts[i]).data.wire_tool.name
                != arguments.name) ==> entry.call.descriptor_digest is None && entry.call.tool_name
            == arguments.name && arguments.compiled_contract_ref is None,
{
    reveal(proposal_fault);
    reveal(contract_call_fault);
    let p = proposed_as(entry.call.provider_call_id, arguments.name, arguments.raw);
    match value_at::<StoredModelResponse>(records, response_ref).outcome {
        ModelExchangeOutcomeView::Completed { response } => {
            let calls = response.tool_calls;
            let i = choose|i: int| 0 <= i < calls.len() && p(#[trigger] calls[i]);
            assert(p(calls[i]));
        },
        _ => {},
    }
    crate::data::lemma_position_in(root.contracts, known_as(arguments.name));
    if forall|i: int|
        0 <= i < root.contracts.len() ==> (#[trigger] root.contracts[i]).data.wire_tool.name
            != arguments.name {
        assert forall|i: int| 0 <= i < root.contracts.len() implies !known_as(arguments.name)(
            #[trigger] root.contracts[i],
        ) by {}
        assert(!some_in(root.contracts, known_as(arguments.name)));
    }
}

} // verus!
