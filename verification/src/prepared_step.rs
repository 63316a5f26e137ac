//! Immutable model preparation and the execution contracts advertised with it.
use vstd::prelude::*;

use crate::content::{ArtifactRef, ContentBlock, InputContent, Message, ToolResult};
#[allow(unused_imports)]
use crate::content::{ArtifactRefView, ContentBlockView, InputContentView, MessageView};
use crate::context::{ContextFragment, ContextLineage};
#[allow(unused_imports)]
use crate::context::{ContextFragmentView, ContextLineageView};
use crate::context_strategy::ContextRevision;
#[allow(unused_imports)]
use crate::context_strategy::ContextRevisionView;
use crate::data::{any_pair, check_each, check_indices, contains, find, keep, Data};
#[allow(unused_imports)]
use crate::data::{first_fault, first_in, first_index_fault, kept, some_in, some_pair};
use crate::encoding::{no_members, number, with_member};
use crate::error::{fail, ContractError, ErrorCode};
#[allow(unused_imports)]
use crate::error::{failure, fault, or_else, Fault};
use crate::json::{object, text, Json, Member};
#[allow(unused_imports)]
use crate::json::{get_of, lemma_array_view, JsonView, MemberView};
use crate::model::{ModelContent, ModelMessage, ModelRequest};
#[allow(unused_imports)]
use crate::model::{ModelContentView, ModelMessageView, ModelRequestView};
use crate::prompt::{CompiledTool, PinnedPromptTool, SystemInputDefinition};
#[allow(unused_imports)]
use crate::prompt::{CompiledToolView, PinnedPromptToolView, SystemInputDefinitionView};
use crate::refs::{RecordRef, Scope};
#[allow(unused_imports)]
use crate::refs::{RecordRefView, ScopeView};
use crate::serialization::{canonical_digest, Id, JsonDigest};
#[allow(unused_imports)]
use crate::serialization::digest_of;
#[allow(unused_imports)]
use crate::text::decimal_text;
use crate::text::reads;

verus! {

/// What the schema compiler makes of an encoded tool.
#[derive(Debug)]
pub enum RestoredTool {
    Compiled {
        tool: CompiledTool,
    },
    Refused {
        error: ContractError,
    },
}

#[verifier::ext_equal]
pub enum RestoredToolView {
    Compiled {
        tool: CompiledToolView,
    },
    Refused {
        error: Fault,
    },
}

impl View for RestoredTool {
    type V = RestoredToolView;

    open spec fn view(&self) -> RestoredToolView {
        match self {
            RestoredTool::Compiled { tool } => RestoredToolView::Compiled { tool: tool.deep_view() },
            RestoredTool::Refused { error } => RestoredToolView::Refused { error: error.deep_view() },
        }
    }
}

impl DeepView for RestoredTool {
    type V = RestoredToolView;

    open spec fn deep_view(&self) -> RestoredToolView {
        self@
    }
}

impl Data for RestoredTool {
    fn same(&self, other: &Self) -> (r: bool) {
        match (self, other) {
            (RestoredTool::Compiled { tool: tool1 }, RestoredTool::Compiled { tool: tool2 }) => tool1.same(tool2),
            (RestoredTool::Refused { error: error1 }, RestoredTool::Refused { error: error2 }) => error1.same(error2),
            _ => false,
        }
    }

    fn copy(&self) -> (r: Self) {
        match self {
            RestoredTool::Compiled { tool } => RestoredTool::Compiled { tool: tool.copy() },
            RestoredTool::Refused { error } => RestoredTool::Refused { error: error.copy() },
        }
    }
}

/// A pinned tool with its complete compiled value.
#[derive(Debug)]
pub struct ResolvedToolSetEntry {
    pub manifest: PinnedPromptTool,
    /// The encoded compiled tool.
    pub compiled: Json,
    /// The system bindings that the encoded tool names, where they decode.
    pub bindings: Option<Vec<SystemInputDefinition>>,
    /// What the schema compiler made of the encoded tool.
    pub restored: RestoredTool,
}

#[verifier::ext_equal]
pub struct ResolvedToolSetEntryView {
    pub manifest: PinnedPromptToolView,
    pub compiled: JsonView,
    pub bindings: Option<Seq<SystemInputDefinitionView>>,
    pub restored: RestoredToolView,
}

impl View for ResolvedToolSetEntry {
    type V = ResolvedToolSetEntryView;

    open spec fn view(&self) -> ResolvedToolSetEntryView {
        ResolvedToolSetEntryView {
            manifest: self.manifest.deep_view(),
            compiled: self.compiled.deep_view(),
            bindings: self.bindings.deep_view(),
            restored: self.restored.deep_view(),
        }
    }
}

impl DeepView for ResolvedToolSetEntry {
    type V = ResolvedToolSetEntryView;

    open spec fn deep_view(&self) -> ResolvedToolSetEntryView {
        self@
    }
}

impl Data for ResolvedToolSetEntry {
    fn same(&self, other: &Self) -> (r: bool) {
        self.manifest.same(&other.manifest)
            && self.compiled.same(&other.compiled)
            && self.bindings.same(&other.bindings)
            && self.restored.same(&other.restored)
    }

    fn copy(&self) -> (r: Self) {
        ResolvedToolSetEntry {
            manifest: self.manifest.copy(),
            compiled: self.compiled.copy(),
            bindings: self.bindings.copy(),
            restored: self.restored.copy(),
        }
    }
}

/// The tools of one prepared step.
#[derive(Debug)]
pub struct ResolvedToolSet {
    pub schema_version: String,
    pub scope: Scope,
    pub run_id: Id,
    pub entries: Vec<ResolvedToolSetEntry>,
}

#[verifier::ext_equal]
pub struct ResolvedToolSetView {
    pub schema_version: Seq<char>,
    pub scope: ScopeView,
    pub run_id: Seq<char>,
    pub entries: Seq<ResolvedToolSetEntryView>,
}

impl View for ResolvedToolSet {
    type V = ResolvedToolSetView;

    open spec fn view(&self) -> ResolvedToolSetView {
        ResolvedToolSetView {
            schema_version: self.schema_version.deep_view(),
            scope: self.scope.deep_view(),
            run_id: self.run_id.deep_view(),
            entries: self.entries.deep_view(),
        }
    }
}

impl DeepView for ResolvedToolSet {
    type V = ResolvedToolSetView;

    open spec fn deep_view(&self) -> ResolvedToolSetView {
        self@
    }
}

impl Data for ResolvedToolSet {
    fn same(&self, other: &Self) -> (r: bool) {
        self.schema_version.same(&other.schema_version)
            && self.scope.same(&other.scope)
            && self.run_id.same(&other.run_id)
            && self.entries.same(&other.entries)
    }

    fn copy(&self) -> (r: Self) {
        ResolvedToolSet {
            schema_version: self.schema_version.copy(),
            scope: self.scope.copy(),
            run_id: self.run_id.copy(),
            entries: self.entries.copy(),
        }
    }
}

/// Where a projection came from.
#[derive(Debug)]
pub struct ProjectionProvenance {
    pub context_revision_ref: Option<RecordRef>,
    pub through_sequence: u64,
    pub source_batches: Vec<RecordRef>,
    pub source_lineage: Vec<ContextLineage>,
    pub artifacts: Vec<ArtifactRef>,
    pub fragments: Vec<ContextFragment>,
    pub selected_message_ids: Vec<Id>,
    pub dropped_message_ids: Vec<Id>,
    pub selected_context_ids: Vec<Id>,
    pub dropped_context_ids: Vec<Id>,
}

#[verifier::ext_equal]
pub struct ProjectionProvenanceView {
    pub context_revision_ref: Option<RecordRefView>,
    pub through_sequence: u64,
    pub source_batches: Seq<RecordRefView>,
    pub source_lineage: Seq<ContextLineageView>,
    pub artifacts: Seq<ArtifactRefView>,
    pub fragments: Seq<ContextFragmentView>,
    pub selected_message_ids: Seq<Seq<char>>,
    pub dropped_message_ids: Seq<Seq<char>>,
    pub selected_context_ids: Seq<Seq<char>>,
    pub dropped_context_ids: Seq<Seq<char>>,
}

impl View for ProjectionProvenance {
    type V = ProjectionProvenanceView;

    open spec fn view(&self) -> ProjectionProvenanceView {
        ProjectionProvenanceView {
            context_revision_ref: self.context_revision_ref.deep_view(),
            through_sequence: self.through_sequence.deep_view(),
            source_batches: self.source_batches.deep_view(),
            source_lineage: self.source_lineage.deep_view(),
            artifacts: self.artifacts.deep_view(),
            fragments: self.fragments.deep_view(),
            selected_message_ids: self.selected_message_ids.deep_view(),
            dropped_message_ids: self.dropped_message_ids.deep_view(),
            selected_context_ids: self.selected_context_ids.deep_view(),
            dropped_context_ids: self.dropped_context_ids.deep_view(),
        }
    }
}

impl DeepView for ProjectionProvenance {
    type V = ProjectionProvenanceView;

    open spec fn deep_view(&self) -> ProjectionProvenanceView {
        self@
    }
}

impl Data for ProjectionProvenance {
    fn same(&self, other: &Self) -> (r: bool) {
        self.context_revision_ref.same(&other.context_revision_ref)
            && self.through_sequence.same(&other.through_sequence)
            && self.source_batches.same(&other.source_batches)
            && self.source_lineage.same(&other.source_lineage)
            && self.artifacts.same(&other.artifacts)
            && self.fragments.same(&other.fragments)
            && self.selected_message_ids.same(&other.selected_message_ids)
            && self.dropped_message_ids.same(&other.dropped_message_ids)
            && self.selected_context_ids.same(&other.selected_context_ids)
            && self.dropped_context_ids.same(&other.dropped_context_ids)
    }

    fn copy(&self) -> (r: Self) {
        ProjectionProvenance {
            context_revision_ref: self.context_revision_ref.copy(),
            through_sequence: self.through_sequence.copy(),
            source_batches: self.source_batches.copy(),
            source_lineage: self.source_lineage.copy(),
            artifacts: self.artifacts.copy(),
            fragments: self.fragments.copy(),
            selected_message_ids: self.selected_message_ids.copy(),
            dropped_message_ids: self.dropped_message_ids.copy(),
            selected_context_ids: self.selected_context_ids.copy(),
            dropped_context_ids: self.dropped_context_ids.copy(),
        }
    }
}

/// The complete provider input of one prepared step.
#[derive(Debug)]
pub struct PreparedModelProjection {
    pub schema_version: String,
    pub scope: Scope,
    pub run_id: Id,
    pub request: ModelRequest,
    pub input_tokens: u64,
    pub provenance: ProjectionProvenance,
}

#[verifier::ext_equal]
pub struct PreparedModelProjectionView {
    pub schema_version: Seq<char>,
    pub scope: ScopeView,
    pub run_id: Seq<char>,
    pub request: ModelRequestView,
    pub input_tokens: u64,
    pub provenance: ProjectionProvenanceView,
}

impl View for PreparedModelProjection {
    type V = PreparedModelProjectionView;

    open spec fn view(&self) -> PreparedModelProjectionView {
        PreparedModelProjectionView {
            schema_version: self.schema_version.deep_view(),
            scope: self.scope.deep_view(),
            run_id: self.run_id.deep_view(),
            request: self.request.deep_view(),
            input_tokens: self.input_tokens.deep_view(),
            provenance: self.provenance.deep_view(),
        }
    }
}

impl DeepView for PreparedModelProjection {
    type V = PreparedModelProjectionView;

    open spec fn deep_view(&self) -> PreparedModelProjectionView {
        self@
    }
}

impl Data for PreparedModelProjection {
    fn same(&self, other: &Self) -> (r: bool) {
        self.schema_version.same(&other.schema_version)
            && self.scope.same(&other.scope)
            && self.run_id.same(&other.run_id)
            && self.request.same(&other.request)
            && self.input_tokens.same(&other.input_tokens)
            && self.provenance.same(&other.provenance)
    }

    fn copy(&self) -> (r: Self) {
        PreparedModelProjection {
            schema_version: self.schema_version.copy(),
            scope: self.scope.copy(),
            run_id: self.run_id.copy(),
            request: self.request.copy(),
            input_tokens: self.input_tokens.copy(),
            provenance: self.provenance.copy(),
        }
    }
}


/// The failure of a preparation.
pub open spec fn unprepared(path: &str) -> Option<Fault> {
    fault(ErrorCode::InvalidSnapshot, path)
}

pub(crate) fn invalid<T>(path: &str) -> (r: Result<T, ContractError>)
    ensures
        r is Err,
        failure(r) == unprepared(path),
{
    fail(ErrorCode::InvalidSnapshot, path)
}

/// Why a tool is not the one that a manifest pins.
pub open spec fn manifest_fault(
    manifest: PinnedPromptToolView,
    tool: CompiledToolView,
) -> Option<Fault> {
    if manifest.tool != tool.tool || manifest.compiled_digest != tool.digest
        || manifest.descriptor_digest != tool.descriptor_digest || manifest.model_schema_digest
        != tool.model_schema_digest || manifest.compiler_version != tool.compiler_version
        || manifest.model_tool != tool.model_tool {
        unprepared("prepared.tool_manifest")
    } else {
        None
    }
}

/// The entry of a pinned tool.
pub open spec fn entry_of(
    manifest: PinnedPromptToolView,
    tool: CompiledToolView,
) -> ResolvedToolSetEntryView {
    ResolvedToolSetEntryView {
        manifest,
        compiled: tool.document,
        bindings: Some(tool.bindings),
        restored: RestoredToolView::Compiled { tool },
    }
}

/// Two definitions of one system input that differ.
pub open spec fn conflicting() -> spec_fn(
    SystemInputDefinitionView,
    SystemInputDefinitionView,
) -> bool {
    |a: SystemInputDefinitionView, b: SystemInputDefinitionView| a.key == b.key && a != b
}

/// Why the contract of an entry cannot be restored.
pub open spec fn entry_fault(entry: ResolvedToolSetEntryView) -> Option<Fault> {
    match entry.bindings {
        None => unprepared("prepared.tool_bindings"),
        Some(bindings) => if some_pair(bindings, bindings, conflicting()) {
            unprepared("prepared.tool_bindings")
        } else {
            match entry.restored {
                RestoredToolView::Refused { error } => Some(error),
                RestoredToolView::Compiled { tool } => manifest_fault(entry.manifest, tool),
            }
        },
    }
}

/// The tools of a digest.
pub open spec fn of_digest(digest: Seq<char>) -> spec_fn(CompiledToolView) -> bool {
    |tool: CompiledToolView| tool.digest == digest
}

/// Why an entry cannot be restored beside the tools that were restored before it. A digest that
/// was seen never stands in for the complete saved value.
pub open spec fn cached_entry_fault(
    entry: ResolvedToolSetEntryView,
    cache: Seq<CompiledToolView>,
) -> Option<Fault> {
    match first_in(cache, of_digest(entry.manifest.compiled_digest)) {
        Some(tool) => if manifest_fault(entry.manifest, tool) is Some {
            manifest_fault(entry.manifest, tool)
        } else if entry.compiled != tool.document {
            unprepared("prepared.tool_cache_identity")
        } else {
            None
        },
        None => entry_fault(entry),
    }
}

/// The tool of an entry.
pub open spec fn cached_tool(
    entry: ResolvedToolSetEntryView,
    cache: Seq<CompiledToolView>,
) -> CompiledToolView {
    match first_in(cache, of_digest(entry.manifest.compiled_digest)) {
        Some(tool) => tool,
        None => entry.restored->tool,
    }
}

/// The restored tools after an entry.
pub open spec fn cache_after(
    entry: ResolvedToolSetEntryView,
    cache: Seq<CompiledToolView>,
) -> Seq<CompiledToolView> {
    match first_in(cache, of_digest(entry.manifest.compiled_digest)) {
        Some(tool) => cache,
        None => cache.push(entry.restored->tool),
    }
}

impl ResolvedToolSetEntry {
    /// Pin a trusted binding against the exact session manifest.
    pub fn new(manifest: PinnedPromptTool, tool: &CompiledTool) -> (r: Result<Self, ContractError>)
        ensures
            failure(r) == manifest_fault(manifest@, tool@),
            r matches Ok(entry) ==> entry@ == entry_of(manifest@, tool@),
    {
        check_manifest(&manifest, tool)?;
        Ok(
            ResolvedToolSetEntry {
                manifest,
                compiled: tool.document.copy(),
                bindings: Some(tool.bindings.copy()),
                restored: RestoredTool::Compiled { tool: tool.copy() },
            },
        )
    }

    /// Restore the saved contract, not a current registry replacement.
    pub fn restore_tool(&self) -> (r: Result<CompiledTool, ContractError>)
        ensures
            failure(r) == entry_fault(self@),
            r matches Ok(tool) ==> self@.restored == (RestoredToolView::Compiled { tool: tool@ }),
    {
        let bindings = match &self.bindings {
            Some(bindings) => bindings,
            None => {
                return invalid("prepared.tool_bindings");
            },
        };
        let differ = |a: &SystemInputDefinition, b: &SystemInputDefinition| -> (c: bool)
            ensures
                c == conflicting()(a@, b@),
        { a.key.same(&b.key) && !a.same(b) };
        if any_pair(bindings, bindings, differ, Ghost(conflicting())) {
            return invalid("prepared.tool_bindings");
        }
        match &self.restored {
            RestoredTool::Refused { error } => Err(error.copy()),
            RestoredTool::Compiled { tool } => {
                check_manifest(&self.manifest, tool)?;
                Ok(tool.copy())
            },
        }
    }

    /// Restore the saved contract once for each digest. The tools restored so far grow by the new
    /// one.
    pub fn restore_cached(&self, cache: &mut Vec<CompiledTool>) -> (r: Result<
        CompiledTool,
        ContractError,
    >)
        ensures
            failure(r) == cached_entry_fault(self@, old(cache).deep_view()),
            r matches Ok(tool) ==> tool@ == cached_tool(self@, old(cache).deep_view())
                && final(cache).deep_view() == cache_after(self@, old(cache).deep_view()),
            r is Err ==> final(cache).deep_view() == old(cache).deep_view(),
    {
        let matching = |tool: &CompiledTool| -> (b: bool)
            ensures
                b == of_digest(self@.manifest.compiled_digest)(tool@),
        { tool.digest.same(&self.manifest.compiled_digest) };
        if let Some(tool) = find(
            cache,
            matching,
            Ghost(of_digest(self@.manifest.compiled_digest)),
        ) {
            check_manifest(&self.manifest, tool)?;
            if !self.compiled.same(&tool.document) {
                return invalid("prepared.tool_cache_identity");
            }
            return Ok(tool.copy());
        }
        let tool = self.restore_tool()?;
        let ghost before = cache.deep_view();
        cache.push(tool.copy());
        assert(cache.deep_view() =~= before.push(tool@));
        Ok(tool)
    }
}

fn check_manifest(manifest: &PinnedPromptTool, tool: &CompiledTool) -> (r: Result<
    (),
    ContractError,
>)
    ensures
        failure(r) == manifest_fault(manifest@, tool@),
{
    if !manifest.tool.same(&tool.tool) || !manifest.compiled_digest.same(&tool.digest)
        || !manifest.descriptor_digest.same(&tool.descriptor_digest)
        || !manifest.model_schema_digest.same(&tool.model_schema_digest)
        || !manifest.compiler_version.same(&tool.compiler_version) || !manifest.model_tool.same(
        &tool.model_tool,
    ) {
        return invalid("prepared.tool_manifest");
    }
    Ok(())
}

/// The entries that advertise a name.
pub open spec fn advertises(name: Seq<char>) -> spec_fn(ResolvedToolSetEntryView) -> bool {
    |entry: ResolvedToolSetEntryView| entry.manifest.model_tool.name == name
}

/// Why the name of an entry is ambiguous.
pub open spec fn name_fault(entries: Seq<ResolvedToolSetEntryView>) -> spec_fn(int) -> Option<
    Fault,
> {
    |i: int|
        if some_in(entries.take(i), advertises(entries[i].manifest.model_tool.name)) {
            unprepared("prepared.tool_set_names")
        } else {
            None
        }
}

/// Why a tool set has no usable shape.
pub open spec fn shape_fault(set: ResolvedToolSetView) -> Option<Fault> {
    if set.schema_version != "wickle.resolved-tool-set.v1"@ {
        unprepared("prepared.tool_set_version")
    } else {
        first_index_fault(0, set.entries.len() as int, name_fault(set.entries))
    }
}

impl ResolvedToolSet {
    /// Validate every cached contract and reject ambiguous model names.
    pub fn validate(&self) -> (r: Result<(), ContractError>)
        ensures
            failure(r) == or_else(
                shape_fault(self@),
                first_fault(
                    self@.entries,
                    |entry: ResolvedToolSetEntryView| entry_fault(entry),
                ),
            ),
    {
        self.validate_shape()?;
        let restored = |entry: &ResolvedToolSetEntry| -> (r: Result<(), ContractError>)
            ensures
                failure(r) == entry_fault(entry@),
        {
            entry.restore_tool()?;
            Ok(())
        };
        check_each(
            &self.entries,
            restored,
            Ghost(|entry: ResolvedToolSetEntryView| entry_fault(entry)),
        )
    }

    /// Reject an unknown version and ambiguous model names.
    pub fn validate_shape(&self) -> (r: Result<(), ContractError>)
        ensures
            failure(r) == shape_fault(self@),
    {
        if !reads(&self.schema_version, "wickle.resolved-tool-set.v1") {
            return invalid("prepared.tool_set_version");
        }
        let entries = &self.entries;
        let named = |i: usize| -> (r: Result<(), ContractError>)
            requires
                i < entries.len(),
            ensures
                failure(r) == name_fault(entries.deep_view())(i as int),
        { check_name(entries, i) };
        check_indices(entries.len(), named, Ghost(name_fault(entries.deep_view())))
    }
}

fn check_name(entries: &Vec<ResolvedToolSetEntry>, i: usize) -> (r: Result<(), ContractError>)
    requires
        i < entries.len(),
    ensures
        failure(r) == name_fault(entries.deep_view())(i as int),
{
    let name = &entries[i].manifest.model_tool.name;
    assert(entries.deep_view()[i as int].manifest.model_tool.name == name@);
    let same = |entry: &ResolvedToolSetEntry| -> (b: bool)
        ensures
            b == advertises(name@)(entry@),
    { entry.manifest.model_tool.name.same(name) };
    if crate::data::any_before(entries, i, same, Ghost(advertises(name@))) {
        return invalid("prepared.tool_set_names");
    }
    Ok(())
}

/// The members of a request that do not identify it.
pub open spec fn unidentified() -> spec_fn(MemberView) -> bool {
    |member: MemberView| member.key != "request_id"@
}

/// Input identity without physical or logical request identifiers.
pub open spec fn fingerprint_of(projection: PreparedModelProjectionView) -> Seq<char> {
    digest_of(JsonView::Object(kept(projection.request.document, unidentified())))
}

impl PreparedModelProjection {
    /// Input identity independent of physical or logical request identifiers.
    pub fn fingerprint(&self) -> (r: JsonDigest)
        ensures
            r@ == fingerprint_of(self@),
    {
        let content = |member: &Member| -> (b: bool)
            ensures
                b == unidentified()(member@),
        { !reads(&member.key, "request_id") };
        let members = keep(&self.request.document, content, Ghost(unidentified()));
        canonical_digest(&object(members))
    }
}

/// The artifacts among contents.
pub open spec fn artifacts_in(content: Seq<InputContentView>) -> Seq<ArtifactRefView>
    decreases content.len(),
{
    if content.len() == 0 {
        Seq::empty()
    } else {
        let front = artifacts_in(content.drop_last());
        match content.last() {
            InputContentView::Artifact { reference } => front.push(reference),
            _ => front,
        }
    }
}

fn add_artifacts(out: &mut Vec<ArtifactRef>, content: &Vec<InputContent>)
    ensures
        final(out).deep_view() == old(out).deep_view() + artifacts_in(content.deep_view()),
{
    let ghost start = out.deep_view();
    let ghost s = content.deep_view();
    let mut i: usize = 0;
    assert(s.take(0) =~= Seq::<InputContentView>::empty());
    assert(start =~= start + Seq::<ArtifactRefView>::empty());
    while i < content.len()
        invariant
            i <= content.len(),
            s == content.deep_view(),
            out.deep_view() == start + artifacts_in(s.take(i as int)),
        decreases content.len() - i,
    {
        assert(s.take(i + 1).drop_last() =~= s.take(i as int));
        assert(s.take(i + 1).last() == content@[i as int]@);
        if let InputContent::Artifact { reference } = &content[i] {
            let ghost before = out.deep_view();
            out.push(reference.copy());
            assert(out.deep_view() =~= before.push(reference@));
            assert(out.deep_view() =~= start + artifacts_in(s.take(i + 1)));
        }
        i = i + 1;
    }
    assert(s.take(i as int) =~= s);
}

/// The artifacts that a context revision still shows.
pub open spec fn revision_artifacts_of(revision: ContextRevisionView) -> Seq<ArtifactRefView> {
    Seq::new(
        revision.previews.len(),
        |i: int| revision.previews[i].preview.reference,
    ) + artifacts_in(revision.anchors)
}

/// The artifacts that a context revision still shows.
pub fn revision_artifacts(revision: &ContextRevision) -> (r: Vec<ArtifactRef>)
    ensures
        r.deep_view() == revision_artifacts_of(revision@),
{
    let mut out: Vec<ArtifactRef> = Vec::new();
    let mut i: usize = 0;
    let ghost previews = revision@.previews;
    while i < revision.previews.len()
        invariant
            i <= revision.previews.len(),
            previews == revision@.previews,
            out.deep_view() == Seq::new(i as nat, |j: int| previews[j].preview.reference),
        decreases revision.previews.len() - i,
    {
        let ghost before = out.deep_view();
        out.push(revision.previews[i].preview.reference.copy());
        assert(out.deep_view() =~= before.push(previews[i as int].preview.reference));
        i = i + 1;
    }
    add_artifacts(&mut out, &revision.anchors);
    out
}

/// The artifacts that tool results in blocks refer to.
pub open spec fn block_artifacts(blocks: Seq<ContentBlockView>) -> Seq<ArtifactRefView>
    decreases blocks.len(),
{
    if blocks.len() == 0 {
        Seq::empty()
    } else {
        let front = block_artifacts(blocks.drop_last());
        match blocks.last() {
            ContentBlockView::ToolResult { result } => front + artifacts_in(result.content),
            ContentBlockView::ToolResultCorrection { result, .. } => front + artifacts_in(
                result.content,
            ),
            _ => front,
        }
    }
}

/// The artifacts that tool results in messages refer to.
pub open spec fn message_artifacts(messages: Seq<MessageView>) -> Seq<ArtifactRefView>
    decreases messages.len(),
{
    if messages.len() == 0 {
        Seq::empty()
    } else {
        message_artifacts(messages.drop_last()) + block_artifacts(messages.last().content)
    }
}

fn add_block_artifacts(out: &mut Vec<ArtifactRef>, blocks: &Vec<ContentBlock>)
    ensures
        final(out).deep_view() == old(out).deep_view() + block_artifacts(blocks.deep_view()),
{
    let ghost start = out.deep_view();
    let ghost s = blocks.deep_view();
    let mut i: usize = 0;
    assert(s.take(0) =~= Seq::<ContentBlockView>::empty());
    assert(start =~= start + Seq::<ArtifactRefView>::empty());
    while i < blocks.len()
        invariant
            i <= blocks.len(),
            s == blocks.deep_view(),
            out.deep_view() == start + block_artifacts(s.take(i as int)),
        decreases blocks.len() - i,
    {
        assert(s.take(i + 1).drop_last() =~= s.take(i as int));
        assert(s.take(i + 1).last() == blocks@[i as int]@);
        match &blocks[i] {
            ContentBlock::ToolResult { result } => {
                add_artifacts(out, &result.content);
                assert(out.deep_view() =~= start + block_artifacts(s.take(i + 1)));
            },
            ContentBlock::ToolResultCorrection { result, .. } => {
                add_artifacts(out, &result.content);
                assert(out.deep_view() =~= start + block_artifacts(s.take(i + 1)));
            },
            _ => {},
        }
        i = i + 1;
    }
    assert(s.take(i as int) =~= s);
}

fn known_artifacts(messages: &Vec<Message>) -> (r: Vec<ArtifactRef>)
    ensures
        r.deep_view() == message_artifacts(messages.deep_view()),
{
    let ghost s = messages.deep_view();
    let mut out: Vec<ArtifactRef> = Vec::new();
    let mut i: usize = 0;
    assert(s.take(0) =~= Seq::<MessageView>::empty());
    assert(out.deep_view() =~= Seq::<ArtifactRefView>::empty());
    while i < messages.len()
        invariant
            i <= messages.len(),
            s == messages.deep_view(),
            out.deep_view() == message_artifacts(s.take(i as int)),
        decreases messages.len() - i,
    {
        assert(s.take(i + 1).drop_last() =~= s.take(i as int));
        assert(s.take(i + 1).last() == messages@[i as int]@);
        add_block_artifacts(&mut out, &messages[i].content);
        i = i + 1;
    }
    assert(s.take(i as int) =~= s);
    out
}

/// An item of a projection that may stand for an artifact.
#[derive(Debug)]
pub struct ProjectedItem {
    pub value: Json,
    /// Whether the item has to stand for a known artifact.
    pub strict: bool,
}

#[verifier::ext_equal]
pub struct ProjectedItemView {
    pub value: JsonView,
    pub strict: bool,
}

impl View for ProjectedItem {
    type V = ProjectedItemView;

    open spec fn view(&self) -> ProjectedItemView {
        ProjectedItemView {
            value: self.value.deep_view(),
            strict: self.strict.deep_view(),
        }
    }
}

impl DeepView for ProjectedItem {
    type V = ProjectedItemView;

    open spec fn deep_view(&self) -> ProjectedItemView {
        self@
    }
}

impl Data for ProjectedItem {
    fn same(&self, other: &Self) -> (r: bool) {
        self.value.same(&other.value)
            && self.strict.same(&other.strict)
    }

    fn copy(&self) -> (r: Self) {
        ProjectedItem {
            value: self.value.copy(),
            strict: self.strict.copy(),
        }
    }
}


/// An artifact as a model reads it.
pub open spec fn projected_artifact_json(reference: ArtifactRefView) -> JsonView {
    JsonView::Object(
        seq![
            MemberView { key: "artifact_id"@, value: JsonView::Text(reference.artifact_id) },
            MemberView { key: "content_hash"@, value: JsonView::Text(reference.content_hash) },
            MemberView { key: "media_type"@, value: JsonView::Text(reference.media_type) },
            MemberView {
                key: "size_bytes"@,
                value: JsonView::Number(decimal_text(reference.size_bytes as nat)),
            },
            MemberView { key: "type"@, value: JsonView::Text("artifact"@) },
        ],
    )
}

fn encode_projected_artifact(reference: &ArtifactRef) -> (r: Json)
    ensures
        r@ == projected_artifact_json(reference@),
{
    let members = no_members();
    let members = with_member(members, "artifact_id", text(reference.artifact_id.as_str()));
    let members = with_member(members, "content_hash", text(reference.content_hash.as_str()));
    let members = with_member(members, "media_type", text(reference.media_type.as_str()));
    let members = with_member(members, "size_bytes", number(reference.size_bytes));
    let members = with_member(members, "type", text("artifact"));
    let json = object(members);
    assert(json@->Object_0 =~= projected_artifact_json(reference@)->Object_0);
    json
}

/// The items of a list.
pub open spec fn listed_items(value: JsonView, strict: bool) -> Seq<ProjectedItemView> {
    match get_of(value, "content"@) {
        Some(JsonView::Array(items)) => Seq::new(
            items.len(),
            |i: int| ProjectedItemView { value: items[i], strict },
        ),
        _ => Seq::empty(),
    }
}

/// The items that one content of a message shows.
pub open spec fn content_items(content: ModelContentView) -> Seq<ProjectedItemView> {
    match content {
        ModelContentView::ToolResult { content, .. } => listed_items(content, true),
        ModelContentView::Json { value } => if get_of(value, "kind"@) == Some(
            JsonView::Text("context_data"@),
        ) && get_of(value, "origin"@) == Some(JsonView::Text("compaction"@)) {
            listed_items(value, false)
        } else {
            Seq::empty()
        },
        _ => Seq::empty(),
    }
}

/// The items that the contents of a message show.
pub open spec fn contents_items(contents: Seq<ModelContentView>) -> Seq<ProjectedItemView>
    decreases contents.len(),
{
    if contents.len() == 0 {
        Seq::empty()
    } else {
        contents_items(contents.drop_last()) + content_items(contents.last())
    }
}

/// The items that messages show.
pub open spec fn projected_items(messages: Seq<ModelMessageView>) -> Seq<ProjectedItemView>
    decreases messages.len(),
{
    if messages.len() == 0 {
        Seq::empty()
    } else {
        projected_items(messages.drop_last()) + contents_items(messages.last().content)
    }
}

/// The references that an item stands for.
pub open spec fn shown_as(value: JsonView) -> spec_fn(ArtifactRefView) -> bool {
    |reference: ArtifactRefView| value == projected_artifact_json(reference)
}

/// An item stands for an artifact.
pub open spec fn is_artifact(value: JsonView) -> bool {
    get_of(value, "type"@) == Some(JsonView::Text("artifact"@))
}

/// Why an item of a projection is refused.
pub open spec fn item_fault(known: Seq<ArtifactRefView>, scope: ScopeView) -> spec_fn(
    ProjectedItemView,
) -> Option<Fault> {
    |item: ProjectedItemView|
        if !is_artifact(item.value) {
            None
        } else {
            match first_in(known, shown_as(item.value)) {
                None => if item.strict {
                    fault(ErrorCode::InvalidArtifact, "prepared.artifact_projection")
                } else {
                    None
                },
                Some(reference) => if reference.scope != scope {
                    fault(ErrorCode::AccessDenied, "prepared.artifact_scope")
                } else {
                    None
                },
            }
        }
}

/// The artifacts that items stand for, each once, in the order in which they are first shown.
pub open spec fn shown_artifacts(
    items: Seq<ProjectedItemView>,
    known: Seq<ArtifactRefView>,
) -> Seq<ArtifactRefView>
    decreases items.len(),
{
    if items.len() == 0 {
        Seq::empty()
    } else {
        let front = shown_artifacts(items.drop_last(), known);
        let value = items.last().value;
        match first_in(known, shown_as(value)) {
            Some(reference) => if is_artifact(value) && !front.contains(reference) {
                front.push(reference)
            } else {
                front
            },
            None => front,
        }
    }
}

fn add_listed(out: &mut Vec<ProjectedItem>, value: &Json, strict: bool)
    ensures
        final(out).deep_view() == old(out).deep_view() + listed_items(value@, strict),
{
    let ghost start = out.deep_view();
    assert(start =~= start + Seq::<ProjectedItemView>::empty());
    if let Some(Json::Array(items)) = value.get("content") {
        proof {
            lemma_array_view(*items);
        }
        let ghost s = items.deep_view();
        assert(listed_items(value@, strict).take(0) =~= Seq::<ProjectedItemView>::empty());
        let mut i: usize = 0;
        while i < items.len()
            invariant
                i <= items.len(),
                s == items.deep_view(),
                listed_items(value@, strict) == Seq::new(
                    s.len(),
                    |j: int| ProjectedItemView { value: s[j], strict },
                ),
                out.deep_view() == start + listed_items(value@, strict).take(i as int),
            decreases items.len() - i,
        {
            let ghost before = out.deep_view();
            out.push(ProjectedItem { value: items[i].copy(), strict });
            assert(out.deep_view() =~= before.push(
                ProjectedItemView { value: s[i as int], strict },
            ));
            assert(out.deep_view() =~= start + listed_items(value@, strict).take(i + 1));
            i = i + 1;
        }
        assert(listed_items(value@, strict).take(i as int) =~= listed_items(value@, strict));
    }
}

fn add_contents(out: &mut Vec<ProjectedItem>, contents: &Vec<ModelContent>)
    ensures
        final(out).deep_view() == old(out).deep_view() + contents_items(contents.deep_view()),
{
    let ghost start = out.deep_view();
    let ghost s = contents.deep_view();
    let mut i: usize = 0;
    assert(s.take(0) =~= Seq::<ModelContentView>::empty());
    assert(start =~= start + Seq::<ProjectedItemView>::empty());
    while i < contents.len()
        invariant
            i <= contents.len(),
            s == contents.deep_view(),
            out.deep_view() == start + contents_items(s.take(i as int)),
        decreases contents.len() - i,
    {
        assert(s.take(i + 1).drop_last() =~= s.take(i as int));
        assert(s.take(i + 1).last() == contents@[i as int]@);
        match &contents[i] {
            ModelContent::ToolResult { content, .. } => {
                add_listed(out, content, true);
            },
            ModelContent::Json { value } => {
                let is_data = match value.get("kind") {
                    Some(kind) => kind.is_text("context_data"),
                    None => false,
                };
                let is_compacted = match value.get("origin") {
                    Some(origin) => origin.is_text("compaction"),
                    None => false,
                };
                if is_data && is_compacted {
                    add_listed(out, value, false);
                }
            },
            _ => {},
        }
        assert(out.deep_view() =~= start + contents_items(s.take(i + 1)));
        i = i + 1;
    }
    assert(s.take(i as int) =~= s);
}

fn items_shown(messages: &Vec<ModelMessage>) -> (r: Vec<ProjectedItem>)
    ensures
        r.deep_view() == projected_items(messages.deep_view()),
{
    let ghost s = messages.deep_view();
    let mut out: Vec<ProjectedItem> = Vec::new();
    let mut i: usize = 0;
    assert(s.take(0) =~= Seq::<ModelMessageView>::empty());
    assert(out.deep_view() =~= Seq::<ProjectedItemView>::empty());
    while i < messages.len()
        invariant
            i <= messages.len(),
            s == messages.deep_view(),
            out.deep_view() == projected_items(s.take(i as int)),
        decreases messages.len() - i,
    {
        assert(s.take(i + 1).drop_last() =~= s.take(i as int));
        assert(s.take(i + 1).last() == messages@[i as int]@);
        add_contents(&mut out, &messages[i].content);
        i = i + 1;
    }
    assert(s.take(i as int) =~= s);
    out
}

fn find_shown<'a>(known: &'a Vec<ArtifactRef>, value: &Json) -> (r: Option<&'a ArtifactRef>)
    ensures
        r.deep_view() == first_in(known.deep_view(), shown_as(value@)),
{
    let shown = |reference: &ArtifactRef| -> (b: bool)
        ensures
            b == shown_as(value@)(reference@),
    { value.same(&encode_projected_artifact(reference)) };
    find(known, shown, Ghost(shown_as(value@)))
}

fn stands_for_artifact(value: &Json) -> (r: bool)
    ensures
        r == is_artifact(value@),
{
    match value.get("type") {
        Some(kind) => kind.is_text("artifact"),
        None => false,
    }
}

/// Why a projection shows artifacts that it must not show.
pub open spec fn projected_artifacts_fault(
    request: ModelRequestView,
    messages: Seq<MessageView>,
    extra: Seq<ArtifactRefView>,
    scope: ScopeView,
) -> Option<Fault> {
    first_fault(
        projected_items(request.messages),
        item_fault(message_artifacts(messages) + extra, scope),
    )
}

/// The artifacts that a projection shows.
pub open spec fn projected_artifacts_of(
    request: ModelRequestView,
    messages: Seq<MessageView>,
    extra: Seq<ArtifactRefView>,
) -> Seq<ArtifactRefView> {
    shown_artifacts(projected_items(request.messages), message_artifacts(messages) + extra)
}

/// Rebuild typed artifact dependencies from the actual wire projection and independently stored
/// tool and context history, rather than trusting a cached list.
pub fn projected_artifacts(
    request: &ModelRequest,
    messages: &Vec<Message>,
    extra: &Vec<ArtifactRef>,
    scope: &Scope,
) -> (r: Result<Vec<ArtifactRef>, ContractError>)
    ensures
        failure(r) == projected_artifacts_fault(
            request@,
            messages.deep_view(),
            extra.deep_view(),
            scope@,
        ),
        r matches Ok(artifacts) ==> artifacts.deep_view() == projected_artifacts_of(
            request@,
            messages.deep_view(),
            extra.deep_view(),
        ),
{
    let own = known_artifacts(messages);
    let known = crate::data::joined(&own, extra);
    let items = items_shown(&request.messages);
    let allowed = |item: &ProjectedItem| -> (r: Result<(), ContractError>)
        ensures
            failure(r) == item_fault(known.deep_view(), scope@)(item@),
    {
        if !stands_for_artifact(&item.value) {
            return Ok(());
        }
        match find_shown(&known, &item.value) {
            None => {
                if item.strict {
                    return fail(ErrorCode::InvalidArtifact, "prepared.artifact_projection");
                }
                Ok(())
            },
            Some(reference) => {
                if !reference.scope.same(scope) {
                    return fail(ErrorCode::AccessDenied, "prepared.artifact_scope");
                }
                Ok(())
            },
        }
    };
    check_each(&items, allowed, Ghost(item_fault(known.deep_view(), scope@)))?;
    let ghost s = items.deep_view();
    let mut out: Vec<ArtifactRef> = Vec::new();
    let mut i: usize = 0;
    assert(s.take(0) =~= Seq::<ProjectedItemView>::empty());
    assert(out.deep_view() =~= Seq::<ArtifactRefView>::empty());
    while i < items.len()
        invariant
            i <= items.len(),
            s == items.deep_view(),
            out.deep_view() == shown_artifacts(s.take(i as int), known.deep_view()),
        decreases items.len() - i,
    {
        assert(s.take(i + 1).drop_last() =~= s.take(i as int));
        assert(s.take(i + 1).last() == items@[i as int]@);
        if stands_for_artifact(&items[i].value) {
            if let Some(reference) = find_shown(&known, &items[i].value) {
                if !contains(&out, reference) {
                    let ghost before = out.deep_view();
                    out.push(reference.copy());
                    assert(out.deep_view() =~= before.push(reference@));
                }
            }
        }
        i = i + 1;
    }
    assert(s.take(i as int) =~= s);
    Ok(out)
}

/// In a usable tool set no two tools have one name.
pub proof fn law_tool_sets_are_unambiguous(set: ResolvedToolSetView)
    ensures
        shape_fault(set) is None ==> forall|i: int, j: int|
            0 <= i < j < set.entries.len() ==> (
            #[trigger] set.entries[i]).manifest.model_tool.name != (
            #[trigger] set.entries[j]).manifest.model_tool.name,
{
    let entries = set.entries;
    let f = name_fault(entries);
    if shape_fault(set) is None {
        crate::data::lemma_first_index_fault(0, entries.len() as int, f);
        assert forall|i: int, j: int| 0 <= i < j < entries.len() implies (
        #[trigger] entries[i]).manifest.model_tool.name != (
        #[trigger] entries[j]).manifest.model_tool.name by {
            assert(f(j) is None);
            assert(entries.take(j)[i] == entries[i]);
            assert(!advertises(entries[j].manifest.model_tool.name)(entries.take(j)[i]));
        }
    }
}

/// A tool that was restored is the one that its manifest pins, whether it was restored just now or
/// before.
pub proof fn law_restored_tools_are_the_pinned_ones(
    entry: ResolvedToolSetEntryView,
    cache: Seq<CompiledToolView>,
)
    requires
        cached_entry_fault(entry, cache) is None,
    ensures
        ({
            let tool = cached_tool(entry, cache);
            &&& tool.tool == entry.manifest.tool
            &&& tool.digest == entry.manifest.compiled_digest
            &&& tool.descriptor_digest == entry.manifest.descriptor_digest
            &&& tool.model_schema_digest == entry.manifest.model_schema_digest
            &&& tool.compiler_version == entry.manifest.compiler_version
            &&& tool.model_tool == entry.manifest.model_tool
            &&& cache_after(entry, cache).contains(tool)
            &&& (exists|k: int|
                0 <= k < cache.len() && (#[trigger] cache[k]).digest
                    == entry.manifest.compiled_digest) ==> cache_after(entry, cache) == cache
        }),
{
    let p = of_digest(entry.manifest.compiled_digest);
    crate::data::lemma_first_in(cache, p);
    if first_in(cache, p) is None {
        let after = cache_after(entry, cache);
        assert(after.last() == cached_tool(entry, cache));
        assert(after[after.len() - 1] == after.last());
        assert forall|k: int| 0 <= k < cache.len() implies (#[trigger] cache[k]).digest
            != entry.manifest.compiled_digest by {
            assert(!p(cache[k]));
        }
    }
}

proof fn lemma_kept_update<V>(s: Seq<V>, p: spec_fn(V) -> bool, i: int, x: V)
    requires
        0 <= i < s.len(),
        !p(s[i]),
        !p(x),
    ensures
        kept(s.update(i, x), p) == kept(s, p),
    decreases s.len(),
{
    let changed = s.update(i, x);
    if i == 0 {
        assert(changed.skip(1) =~= s.skip(1));
    } else {
        assert(changed.skip(1) =~= s.skip(1).update(i - 1, x));
        assert(changed[0] == s[0]);
        lemma_kept_update(s.skip(1), p, i - 1, x);
    }
}

/// What is asked of the model is the same whatever the request is called: the fingerprint does not
/// depend on the request's identifier.
pub proof fn law_fingerprints_ignore_the_identifier(
    projection: PreparedModelProjectionView,
    other: PreparedModelProjectionView,
    i: int,
    value: JsonView,
)
    requires
        0 <= i < projection.request.document.len(),
        projection.request.document[i].key == "request_id"@,
        other.request.document == projection.request.document.update(
            i,
            MemberView { key: "request_id"@, value },
        ),
    ensures
        fingerprint_of(other) == fingerprint_of(projection),
{
    lemma_kept_update(
        projection.request.document,
        unidentified(),
        i,
        MemberView { key: "request_id"@, value },
    );
}

/// The artifacts that a projection shows are known, belong to the scope, and are listed once each; and
/// whatever stands strictly for an artifact stands for a listed one.
pub proof fn law_shown_artifacts_belong_to_the_scope(
    items: Seq<ProjectedItemView>,
    known: Seq<ArtifactRefView>,
    scope: ScopeView,
)
    requires
        first_fault(items, item_fault(known, scope)) is None,
    ensures
        forall|k: int|
            0 <= k < shown_artifacts(items, known).len() ==> (#[trigger] shown_artifacts(
                items,
                known,
            )[k]).scope == scope && known.contains(shown_artifacts(items, known)[k]),
        forall|i: int, j: int|
            0 <= i < j < shown_artifacts(items, known).len() ==> shown_artifacts(items, known)[i]
                != shown_artifacts(items, known)[j],
        forall|i: int|
            0 <= i < items.len() && (#[trigger] items[i]).strict && is_artifact(items[i].value)
                ==> exists|k: int|
                0 <= k < shown_artifacts(items, known).len() && items[i].value
                    == projected_artifact_json(#[trigger] shown_artifacts(items, known)[k]),
    decreases items.len(),
{
    let shown = shown_artifacts(items, known);
    if items.len() > 0 {
        let rest = items.drop_last();
        crate::data::lemma_first_fault(items, item_fault(known, scope));
        assert forall|i: int| 0 <= i < rest.len() implies item_fault(known, scope)(
            #[trigger] rest[i],
        ) is None by {
            assert(rest[i] == items[i]);
        }
        crate::data::lemma_first_fault(rest, item_fault(known, scope));
        law_shown_artifacts_belong_to_the_scope(rest, known, scope);
        let front = shown_artifacts(rest, known);
        let value = items.last().value;
        let n = items.len() - 1;
        assert(item_fault(known, scope)(items[n]) is None);
        crate::data::lemma_first_in(known, shown_as(value));
        let found = first_in(known, shown_as(value));
        assert forall|k: int| 0 <= k < shown.len() implies (#[trigger] shown[k]).scope == scope
            && known.contains(shown[k]) by {
            if k < front.len() {
                assert(shown[k] == front[k]);
            }
        }
        assert forall|i: int, j: int| 0 <= i < j < shown.len() implies shown[i] != shown[j] by {
            assert(shown[i] == front[i]);
            if j < front.len() {
                assert(shown[j] == front[j]);
            } else {
                assert(!front.contains(shown[j]));
            }
        }
        assert forall|i: int|
            0 <= i < items.len() && (#[trigger] items[i]).strict && is_artifact(
                items[i].value,
            ) implies exists|k: int|
            0 <= k < shown.len() && items[i].value == projected_artifact_json(
                #[trigger] shown[k],
            ) by {
            if i < n {
                assert(rest[i] == items[i]);
                let k = choose|k: int|
                    0 <= k < front.len() && items[i].value == projected_artifact_json(
                        #[trigger] front[k],
                    );
                assert(shown[k] == front[k]);
            } else {
                let reference = found->Some_0;
                assert(shown_as(value)(reference));
                if front.contains(reference) {
                    let k = choose|k: int| 0 <= k < front.len() && front[k] == reference;
                    assert(shown[k] == reference);
                } else {
                    assert(shown[front.len() as int] == reference);
                }
            }
        }
    }
}

/// The artifacts among contents are just those that the contents refer to.
pub proof fn law_artifacts_are_found_in_contents(
    content: Seq<InputContentView>,
    reference: ArtifactRefView,
)
    ensures
        artifacts_in(content).contains(reference) <==> content.contains(
            InputContentView::Artifact { reference },
        ),
    decreases content.len(),
{
    if content.len() > 0 {
        let rest = content.drop_last();
        law_artifacts_are_found_in_contents(rest, reference);
        let all = artifacts_in(content);
        let front = artifacts_in(rest);
        let wanted = InputContentView::Artifact { reference };
        assert(content[content.len() - 1] == content.last());
        if content.contains(wanted) {
            let k = choose|k: int| 0 <= k < content.len() && content[k] == wanted;
            if k < rest.len() {
                assert(rest[k] == wanted);
                let m = choose|m: int| 0 <= m < front.len() && front[m] == reference;
                assert(all[m] == reference);
            } else {
                assert(all[front.len() as int] == reference);
            }
        }
        if all.contains(reference) {
            let m = choose|m: int| 0 <= m < all.len() && all[m] == reference;
            if m < front.len() {
                assert(front[m] == reference);
                let k = choose|k: int| 0 <= k < rest.len() && rest[k] == wanted;
                assert(content[k] == wanted);
            } else {
                assert(content.last() == wanted);
            }
        }
    }
}

} // verus!
