//! The skills of one scope: what is registered, what a plan pins, and what a load must satisfy.
use vstd::prelude::*;

use crate::content::{ArtifactRef, ToolCallState, ToolLedgerEntry, ToolResultStatus};
#[allow(unused_imports)]
use crate::content::{ToolCallStateView, ToolLedgerEntryView};
use crate::context::ContextItem;
#[allow(unused_imports)]
use crate::context::ContextItemView;
use crate::context_source::runtime::PolicyVerdict;
use crate::data::{
    any, any_before, all, check_each, contains, find, find_last, is_same, Data,
};
#[allow(unused_imports)]
use crate::data::{
    every, first_fault, first_in, first_index_fault, last_in, lemma_first_fault, lemma_first_in,
    some_in,
};
use crate::encoding::{no_members, number, with_member};
use crate::error::{fail, verdict, ContractError, ErrorCode};
#[allow(unused_imports)]
use crate::error::{failure, fault, or_else, Fault};
use crate::json::{array, member_value, object, text, Json, Member};
#[allow(unused_imports)]
use crate::json::{value_of, JsonView, MemberView};
use crate::model::ResolvedModelRoute;
#[allow(unused_imports)]
use crate::model::ResolvedModelRouteView;
use crate::profile::{AdapterBinding, AgentProfile, CatalogTool, SkillRef, ToolBindingRef};
#[allow(unused_imports)]
use crate::profile::{
    AdapterBindingView, AgentProfileView, CatalogToolView, SkillRefView, ToolBindingRefView,
};
use crate::prompt::PromptToolBinding;
#[allow(unused_imports)]
use crate::prompt::PromptToolBindingView;
use crate::refs::{RecordRef, Scope, VersionedRef};
#[allow(unused_imports)]
use crate::refs::{RecordRefView, ScopeView, VersionedRefView};
use crate::resolution::validator::{Resolution, ResolutionOutcome};
#[allow(unused_imports)]
use crate::resolution::validator::{
    exact, listed, looks_up, ResolutionOutcomeView, ResolutionView,
};
use crate::resolution::{
    ComponentKind, ComponentMetadata, ComponentRef, ExportKind, ExportMetadata, ResolvedComponent,
    ResolvedProfile,
};
#[allow(unused_imports)]
use crate::resolution::{
    component_json, ComponentMetadataView, ComponentRefView, ExportMetadataView,
    ResolvedComponentView, ResolvedProfileView,
};
use crate::run::RunSnapshot;
#[allow(unused_imports)]
use crate::run::RunSnapshotView;
use crate::serialization::{Id, JsonDigest};
#[allow(unused_imports)]
use crate::serialization::digest_of;
use crate::skills::records::{find_record, loaded, ordered_by_plan, restore_plan, skill_ref};
#[allow(unused_imports)]
use crate::skills::records::{
    in_plan_order, load_in, loaded_fault, of_selection, record_named, skill_plan_fault,
    skill_plan_in, skill_ref_of,
};
use crate::skills::{
    LoadedSkill, PlannedSkill, SkillDefinition, SkillLimits, SkillPlan, ToolConcurrency,
    ToolDescriptor, ToolRetryPolicy, ToolSideEffect,
};
#[allow(unused_imports)]
use crate::skills::{
    LoadedSkillView, PlannedSkillView, SkillDefinitionView, SkillLimitsView, SkillPlanView,
    ToolDescriptorView,
};
use crate::state::records::{ProtectedRecord, Recorded};
#[allow(unused_imports)]
use crate::state::records::ProtectedRecordView;
use crate::text::comes_before;
#[allow(unused_imports)]
use crate::text::{decimal_text, precedes, white_space};
#[allow(unused_imports)]
use vstd::utf8::encode_utf8;

verus! {

/// What compiling the loader's descriptor gave.
#[derive(Debug)]
pub enum LoaderCompilation {
    Compiled {
        descriptor_digest: JsonDigest,
        digest: JsonDigest,
    },
    Refused {
        error: ContractError,
    },
}

#[verifier::ext_equal]
pub enum LoaderCompilationView {
    Compiled {
        descriptor_digest: Seq<char>,
        digest: Seq<char>,
    },
    Refused {
        error: Fault,
    },
}

impl View for LoaderCompilation {
    type V = LoaderCompilationView;

    open spec fn view(&self) -> LoaderCompilationView {
        match self {
            LoaderCompilation::Compiled { descriptor_digest, digest } => LoaderCompilationView::Compiled { descriptor_digest: descriptor_digest.deep_view(), digest: digest.deep_view() },
            LoaderCompilation::Refused { error } => LoaderCompilationView::Refused { error: error.deep_view() },
        }
    }
}

impl DeepView for LoaderCompilation {
    type V = LoaderCompilationView;

    open spec fn deep_view(&self) -> LoaderCompilationView {
        self@
    }
}

impl Data for LoaderCompilation {
    fn same(&self, other: &Self) -> (r: bool) {
        match (self, other) {
            (LoaderCompilation::Compiled { descriptor_digest: descriptor_digest1, digest: digest1 }, LoaderCompilation::Compiled { descriptor_digest: descriptor_digest2, digest: digest2 }) => descriptor_digest1.same(descriptor_digest2) && digest1.same(digest2),
            (LoaderCompilation::Refused { error: error1 }, LoaderCompilation::Refused { error: error2 }) => error1.same(error2),
            _ => false,
        }
    }

    fn copy(&self) -> (r: Self) {
        match self {
            LoaderCompilation::Compiled { descriptor_digest, digest } => LoaderCompilation::Compiled { descriptor_digest: descriptor_digest.copy(), digest: digest.copy() },
            LoaderCompilation::Refused { error } => LoaderCompilation::Refused { error: error.copy() },
        }
    }
}

/// The immutable skills of one scope, with the tool that loads them.
#[derive(Debug)]
pub struct SkillRuntime {
    scope: Scope,
    has_artifacts: bool,
    definitions: Vec<SkillDefinition>,
    loader: ToolBindingRef,
    limits: SkillLimits,
    descriptor: ToolDescriptor,
    descriptor_digest: JsonDigest,
    digest: JsonDigest,
}

#[verifier::ext_equal]
pub struct SkillRuntimeView {
    pub scope: ScopeView,
    pub has_artifacts: bool,
    pub definitions: Seq<SkillDefinitionView>,
    pub loader: ToolBindingRefView,
    pub limits: SkillLimitsView,
    pub descriptor: ToolDescriptorView,
    pub descriptor_digest: Seq<char>,
    pub digest: Seq<char>,
}

impl View for SkillRuntime {
    type V = SkillRuntimeView;

    closed spec fn view(&self) -> SkillRuntimeView {
        SkillRuntimeView {
            scope: self.scope.deep_view(),
            has_artifacts: self.has_artifacts.deep_view(),
            definitions: self.definitions.deep_view(),
            loader: self.loader.deep_view(),
            limits: self.limits.deep_view(),
            descriptor: self.descriptor.deep_view(),
            descriptor_digest: self.descriptor_digest.deep_view(),
            digest: self.digest.deep_view(),
        }
    }
}

impl DeepView for SkillRuntime {
    type V = SkillRuntimeView;

    open spec fn deep_view(&self) -> SkillRuntimeView {
        self@
    }
}

impl Data for SkillRuntime {
    fn same(&self, other: &Self) -> (r: bool) {
        self.scope.same(&other.scope)
            && self.has_artifacts.same(&other.has_artifacts)
            && self.definitions.same(&other.definitions)
            && self.loader.same(&other.loader)
            && self.limits.same(&other.limits)
            && self.descriptor.same(&other.descriptor)
            && self.descriptor_digest.same(&other.descriptor_digest)
            && self.digest.same(&other.digest)
    }

    fn copy(&self) -> (r: Self) {
        SkillRuntime {
            scope: self.scope.copy(),
            has_artifacts: self.has_artifacts.copy(),
            definitions: self.definitions.copy(),
            loader: self.loader.copy(),
            limits: self.limits.copy(),
            descriptor: self.descriptor.copy(),
            descriptor_digest: self.descriptor_digest.copy(),
            digest: self.digest.copy(),
        }
    }
}

/// The loader as a host registers it.
#[derive(Debug)]
pub struct ToolRegistration {
    pub scope: Scope,
    pub descriptor: ToolDescriptor,
    pub descriptor_digest: JsonDigest,
    pub digest: JsonDigest,
}

#[verifier::ext_equal]
pub struct ToolRegistrationView {
    pub scope: ScopeView,
    pub descriptor: ToolDescriptorView,
    pub descriptor_digest: Seq<char>,
    pub digest: Seq<char>,
}

impl View for ToolRegistration {
    type V = ToolRegistrationView;

    open spec fn view(&self) -> ToolRegistrationView {
        ToolRegistrationView {
            scope: self.scope.deep_view(),
            descriptor: self.descriptor.deep_view(),
            descriptor_digest: self.descriptor_digest.deep_view(),
            digest: self.digest.deep_view(),
        }
    }
}

impl DeepView for ToolRegistration {
    type V = ToolRegistrationView;

    open spec fn deep_view(&self) -> ToolRegistrationView {
        self@
    }
}

impl Data for ToolRegistration {
    fn same(&self, other: &Self) -> (r: bool) {
        self.scope.same(&other.scope)
            && self.descriptor.same(&other.descriptor)
            && self.descriptor_digest.same(&other.descriptor_digest)
            && self.digest.same(&other.digest)
    }

    fn copy(&self) -> (r: Self) {
        ToolRegistration {
            scope: self.scope.copy(),
            descriptor: self.descriptor.copy(),
            descriptor_digest: self.descriptor_digest.copy(),
            digest: self.digest.copy(),
        }
    }
}

/// One execution of the loader.
#[derive(Debug)]
pub struct SkillCall {
    pub scope: Scope,
    pub run_id: Id,
    pub call_id: Id,
    pub attempt_id: Id,
    pub idempotency_key: Id,
}

#[verifier::ext_equal]
pub struct SkillCallView {
    pub scope: ScopeView,
    pub run_id: Seq<char>,
    pub call_id: Seq<char>,
    pub attempt_id: Seq<char>,
    pub idempotency_key: Seq<char>,
}

impl View for SkillCall {
    type V = SkillCallView;

    open spec fn view(&self) -> SkillCallView {
        SkillCallView {
            scope: self.scope.deep_view(),
            run_id: self.run_id.deep_view(),
            call_id: self.call_id.deep_view(),
            attempt_id: self.attempt_id.deep_view(),
            idempotency_key: self.idempotency_key.deep_view(),
        }
    }
}

impl DeepView for SkillCall {
    type V = SkillCallView;

    open spec fn deep_view(&self) -> SkillCallView {
        self@
    }
}

impl Data for SkillCall {
    fn same(&self, other: &Self) -> (r: bool) {
        self.scope.same(&other.scope)
            && self.run_id.same(&other.run_id)
            && self.call_id.same(&other.call_id)
            && self.attempt_id.same(&other.attempt_id)
            && self.idempotency_key.same(&other.idempotency_key)
    }

    fn copy(&self) -> (r: Self) {
        SkillCall {
            scope: self.scope.copy(),
            run_id: self.run_id.copy(),
            call_id: self.call_id.copy(),
            attempt_id: self.attempt_id.copy(),
            idempotency_key: self.idempotency_key.copy(),
        }
    }
}

/// What a policy is asked before a skill is read.
#[derive(Debug)]
pub struct SkillReadRequest {
    pub owner_scope: Scope,
    pub resource_id: Id,
    pub skill: VersionedRef,
    pub manifest_digest: JsonDigest,
    pub route: Option<ResolvedModelRoute>,
}

#[verifier::ext_equal]
pub struct SkillReadRequestView {
    pub owner_scope: ScopeView,
    pub resource_id: Seq<char>,
    pub skill: VersionedRefView,
    pub manifest_digest: Seq<char>,
    pub route: Option<ResolvedModelRouteView>,
}

impl View for SkillReadRequest {
    type V = SkillReadRequestView;

    open spec fn view(&self) -> SkillReadRequestView {
        SkillReadRequestView {
            owner_scope: self.owner_scope.deep_view(),
            resource_id: self.resource_id.deep_view(),
            skill: self.skill.deep_view(),
            manifest_digest: self.manifest_digest.deep_view(),
            route: self.route.deep_view(),
        }
    }
}

impl DeepView for SkillReadRequest {
    type V = SkillReadRequestView;

    open spec fn deep_view(&self) -> SkillReadRequestView {
        self@
    }
}

impl Data for SkillReadRequest {
    fn same(&self, other: &Self) -> (r: bool) {
        self.owner_scope.same(&other.owner_scope)
            && self.resource_id.same(&other.resource_id)
            && self.skill.same(&other.skill)
            && self.manifest_digest.same(&other.manifest_digest)
            && self.route.same(&other.route)
    }

    fn copy(&self) -> (r: Self) {
        SkillReadRequest {
            owner_scope: self.owner_scope.copy(),
            resource_id: self.resource_id.copy(),
            skill: self.skill.copy(),
            manifest_digest: self.manifest_digest.copy(),
            route: self.route.copy(),
        }
    }
}

/// What a resolver handed over for a skill.
#[derive(Debug)]
pub struct FetchedSkill {
    pub body: String,
    pub summary: Json,
    pub context_item: ContextItem,
    /// Why the body cannot stand in a context.
    pub item_defect: Option<ContractError>,
    /// What validating the load against its plan reported.
    pub defect: Option<ContractError>,
}

#[verifier::ext_equal]
pub struct FetchedSkillView {
    pub body: Seq<char>,
    pub summary: JsonView,
    pub context_item: ContextItemView,
    pub item_defect: Option<Fault>,
    pub defect: Option<Fault>,
}

impl View for FetchedSkill {
    type V = FetchedSkillView;

    open spec fn view(&self) -> FetchedSkillView {
        FetchedSkillView {
            body: self.body.deep_view(),
            summary: self.summary.deep_view(),
            context_item: self.context_item.deep_view(),
            item_defect: self.item_defect.deep_view(),
            defect: self.defect.deep_view(),
        }
    }
}

impl DeepView for FetchedSkill {
    type V = FetchedSkillView;

    open spec fn deep_view(&self) -> FetchedSkillView {
        self@
    }
}

impl Data for FetchedSkill {
    fn same(&self, other: &Self) -> (r: bool) {
        self.body.same(&other.body)
            && self.summary.same(&other.summary)
            && self.context_item.same(&other.context_item)
            && self.item_defect.same(&other.item_defect)
            && self.defect.same(&other.defect)
    }

    fn copy(&self) -> (r: Self) {
        FetchedSkill {
            body: self.body.copy(),
            summary: self.summary.copy(),
            context_item: self.context_item.copy(),
            item_defect: self.item_defect.copy(),
            defect: self.defect.copy(),
        }
    }
}

/// What a load does after its skill was chosen.
#[derive(Debug)]
pub enum LoadStep {
    /// The run has loaded the skill before.
    Reuse {
        loaded: LoadedSkill,
    },
    /// The resolver must hand over the body.
    Fetch,
}

#[verifier::ext_equal]
pub enum LoadStepView {
    Reuse {
        loaded: LoadedSkillView,
    },
    Fetch,
}

impl View for LoadStep {
    type V = LoadStepView;

    open spec fn view(&self) -> LoadStepView {
        match self {
            LoadStep::Reuse { loaded } => LoadStepView::Reuse { loaded: loaded.deep_view() },
            LoadStep::Fetch => LoadStepView::Fetch,
        }
    }
}

impl DeepView for LoadStep {
    type V = LoadStepView;

    open spec fn deep_view(&self) -> LoadStepView {
        self@
    }
}

impl Data for LoadStep {
    fn same(&self, other: &Self) -> (r: bool) {
        match (self, other) {
            (LoadStep::Reuse { loaded: loaded1 }, LoadStep::Reuse { loaded: loaded2 }) => loaded1.same(loaded2),
            (LoadStep::Fetch, LoadStep::Fetch) => true,
            _ => false,
        }
    }

    fn copy(&self) -> (r: Self) {
        match self {
            LoadStep::Reuse { loaded } => LoadStep::Reuse { loaded: loaded.copy() },
            LoadStep::Fetch => LoadStep::Fetch,
        }
    }
}

/// How an operation of a resolver or a store ended.
#[derive(Debug)]
pub enum OperationEnd {
    Cancelled,
    DeadlinePassed,
    Panicked,
    Failed {
        error: ContractError,
    },
    Done,
}

#[verifier::ext_equal]
pub enum OperationEndView {
    Cancelled,
    DeadlinePassed,
    Panicked,
    Failed {
        error: Fault,
    },
    Done,
}

impl View for OperationEnd {
    type V = OperationEndView;

    open spec fn view(&self) -> OperationEndView {
        match self {
            OperationEnd::Cancelled => OperationEndView::Cancelled,
            OperationEnd::DeadlinePassed => OperationEndView::DeadlinePassed,
            OperationEnd::Panicked => OperationEndView::Panicked,
            OperationEnd::Failed { error } => OperationEndView::Failed { error: error.deep_view() },
            OperationEnd::Done => OperationEndView::Done,
        }
    }
}

impl DeepView for OperationEnd {
    type V = OperationEndView;

    open spec fn deep_view(&self) -> OperationEndView {
        self@
    }
}

impl Data for OperationEnd {
    fn same(&self, other: &Self) -> (r: bool) {
        match (self, other) {
            (OperationEnd::Cancelled, OperationEnd::Cancelled) => true,
            (OperationEnd::DeadlinePassed, OperationEnd::DeadlinePassed) => true,
            (OperationEnd::Panicked, OperationEnd::Panicked) => true,
            (OperationEnd::Failed { error: error1 }, OperationEnd::Failed { error: error2 }) => error1.same(error2),
            (OperationEnd::Done, OperationEnd::Done) => true,
            _ => false,
        }
    }

    fn copy(&self) -> (r: Self) {
        match self {
            OperationEnd::Cancelled => OperationEnd::Cancelled,
            OperationEnd::DeadlinePassed => OperationEnd::DeadlinePassed,
            OperationEnd::Panicked => OperationEnd::Panicked,
            OperationEnd::Failed { error } => OperationEnd::Failed { error: error.copy() },
            OperationEnd::Done => OperationEnd::Done,
        }
    }
}


/// How large the record of one load may be.
pub open spec fn output_bytes(limits: SkillLimitsView) -> int {
    limits.max_body_bytes * 6 + 65536
}

/// Why limits leave no size for the record of a load.
pub open spec fn output_limit_fault(limits: SkillLimitsView) -> Option<Fault> {
    if output_bytes(limits) > u64::MAX {
        fault(ErrorCode::InvalidConfiguration, "skills.output_limit")
    } else {
        None
    }
}

/// How large the record of one load may be.
pub fn output_limit(limits: &SkillLimits) -> (r: Result<u64, ContractError>)
    ensures
        failure(r) == output_limit_fault(limits@),
        r matches Ok(bytes) ==> bytes == output_bytes(limits@),
{
    if limits.max_body_bytes > (u64::MAX - 65536) / 6 {
        return fail(ErrorCode::InvalidConfiguration, "skills.output_limit");
    }
    Ok(limits.max_body_bytes * 6 + 65536)
}

/// A text that is not empty.
pub open spec fn name_schema() -> JsonView {
    JsonView::Object(
        seq![
            MemberView { key: "minLength"@, value: JsonView::Number(decimal_text(1)) },
            MemberView { key: "type"@, value: JsonView::Text("string"@) },
        ],
    )
}

/// The arguments of the loader: a skill and its version.
pub open spec fn arguments_schema() -> JsonView {
    JsonView::Object(
        seq![
            MemberView { key: "additionalProperties"@, value: JsonView::Bool(false) },
            MemberView {
                key: "properties"@,
                value: JsonView::Object(
                    seq![
                        MemberView { key: "skill_id"@, value: name_schema() },
                        MemberView { key: "version"@, value: name_schema() },
                    ],
                ),
            },
            MemberView {
                key: "required"@,
                value: JsonView::Array(
                    seq![JsonView::Text("skill_id"@), JsonView::Text("version"@)],
                ),
            },
            MemberView { key: "type"@, value: JsonView::Text("object"@) },
        ],
    )
}

/// Any object.
pub open spec fn result_schema() -> JsonView {
    JsonView::Object(seq![MemberView { key: "type"@, value: JsonView::Text("object"@) }])
}

/// An object without members.
pub open spec fn no_config_schema() -> JsonView {
    JsonView::Object(
        seq![
            MemberView { key: "additionalProperties"@, value: JsonView::Bool(false) },
            MemberView { key: "type"@, value: JsonView::Text("object"@) },
        ],
    )
}

fn name_document() -> (r: Json)
    ensures
        r@ == name_schema(),
{
    let members = with_member(no_members(), "minLength", number(1));
    let members = with_member(members, "type", text("string"));
    assert(members.deep_view() =~= name_schema()->Object_0);
    object(members)
}

fn arguments_document() -> (r: Json)
    ensures
        r@ == arguments_schema(),
{
    let properties = with_member(no_members(), "skill_id", name_document());
    let properties = with_member(properties, "version", name_document());
    assert(properties.deep_view() =~= seq![
        MemberView { key: "skill_id"@, value: name_schema() },
        MemberView { key: "version"@, value: name_schema() },
    ]);
    let mut required: Vec<Json> = Vec::new();
    required.push(text("skill_id"));
    required.push(text("version"));
    assert(required.deep_view() =~= seq![
        JsonView::Text("skill_id"@),
        JsonView::Text("version"@),
    ]);
    let members = with_member(no_members(), "additionalProperties", Json::Bool(false));
    let members = with_member(members, "properties", object(properties));
    let members = with_member(members, "required", array(required));
    let members = with_member(members, "type", text("object"));
    assert(members.deep_view() =~= arguments_schema()->Object_0);
    object(members)
}

fn result_document() -> (r: Json)
    ensures
        r@ == result_schema(),
{
    let members = with_member(no_members(), "type", text("object"));
    assert(members.deep_view() =~= result_schema()->Object_0);
    object(members)
}

fn no_config_document() -> (r: Json)
    ensures
        r@ == no_config_schema(),
{
    let members = with_member(no_members(), "additionalProperties", Json::Bool(false));
    let members = with_member(members, "type", text("object"));
    assert(members.deep_view() =~= no_config_schema()->Object_0);
    object(members)
}

/// The identity of the loader.
pub open spec fn loader_identity() -> VersionedRefView {
    VersionedRefView { id: "wickle.skills.load"@, version: "1"@ }
}

fn loader_ref() -> (r: VersionedRef)
    ensures
        r@ == loader_identity(),
{
    proof {
        reveal_strlit("wickle.skills.load");
        assert(!white_space("wickle.skills.load"@[0]));
        reveal_strlit("1");
        assert(!white_space("1"@[0]));
    }
    VersionedRef { id: Id::literal("wickle.skills.load"), version: Id::literal("1") }
}

/// How the loader presents itself to a model.
pub open spec fn descriptor_of(limits: SkillLimitsView) -> ToolDescriptorView {
    ToolDescriptorView {
        tool: loader_identity(),
        name: "skills_load"@,
        description:
            "Load the complete instructions of an available Skill at its exact listed version. Supporting assets are references; loading never executes code."@,
        input_schema: arguments_schema(),
        agent_parameters: seq!["skill_id"@, "version"@],
        output_schema: result_schema(),
        side_effect: ToolSideEffect::ReadOnly,
        concurrency: ToolConcurrency::Serial,
        retry: ToolRetryPolicy::Never,
        reconcile: false,
        max_output_bytes: output_bytes(limits) as u64,
    }
}

/// How the loader presents itself to a model.
pub fn loader_descriptor(limits: &SkillLimits) -> (r: Result<ToolDescriptor, ContractError>)
    ensures
        failure(r) == output_limit_fault(limits@),
        r matches Ok(descriptor) ==> descriptor@ == descriptor_of(limits@),
{
    let max_output_bytes: u64 = output_limit(limits)?;
    proof {
        reveal_strlit("skills_load");
        assert(!white_space("skills_load"@[0]));
    }
    let mut agent_parameters: Vec<String> = Vec::new();
    agent_parameters.push("skill_id".to_owned());
    agent_parameters.push("version".to_owned());
    assert(agent_parameters.deep_view() =~= seq!["skill_id"@, "version"@]);
    Ok(
        ToolDescriptor {
            tool: loader_ref(),
            name: Id::literal("skills_load"),
            description:
                "Load the complete instructions of an available Skill at its exact listed version. Supporting assets are references; loading never executes code.".to_owned(),
            input_schema: arguments_document(),
            agent_parameters,
            output_schema: result_document(),
            side_effect: ToolSideEffect::ReadOnly,
            concurrency: ToolConcurrency::Serial,
            retry: ToolRetryPolicy::Never,
            reconcile: false,
            max_output_bytes,
        },
    )
}

/// Definitions of a skill.
pub open spec fn defines_skill(skill: VersionedRefView) -> spec_fn(SkillDefinitionView) -> bool {
    |definition: SkillDefinitionView| definition.skill == skill
}

/// Why a definition cannot be registered.
pub open spec fn definition_fault(
    definitions: Seq<SkillDefinitionView>,
    has_artifacts: bool,
) -> spec_fn(int) -> Option<Fault> {
    |i: int|
        if definitions[i].defect is Some {
            definitions[i].defect
        } else if some_in(definitions.take(i), defines_skill(definitions[i].skill)) || (
        definitions[i].assets.len() > 0 && !has_artifacts) {
            fault(ErrorCode::InvalidConfiguration, "skills.registry")
        } else {
            None
        }
}

/// A catalog selection is the loader, without connections or configuration.
pub open spec fn selects_loader(loader: ToolBindingRefView) -> bool {
    match loader {
        ToolBindingRefView::Catalog(item) => item.tool_id == loader_identity().id && item.version
            == loader_identity().version && listed(item.bindings).len() == 0 && listed(
            item.config,
        ).len() == 0,
        ToolBindingRefView::Export(_) => true,
    }
}

/// What compiling reported.
pub open spec fn compilation_fault(compiled: LoaderCompilationView) -> Option<Fault> {
    match compiled {
        LoaderCompilationView::Refused { error } => Some(error),
        LoaderCompilationView::Compiled { .. } => None,
    }
}

/// Why skills cannot be registered.
pub open spec fn registry_fault(
    has_artifacts: bool,
    definitions: Seq<SkillDefinitionView>,
    loader: ToolBindingRefView,
    limits: SkillLimitsView,
    compiled: LoaderCompilationView,
) -> Option<Fault> {
    if limits.defect is Some {
        limits.defect
    } else if definitions.len() > 64 {
        fault(ErrorCode::InvalidConfiguration, "skills.count")
    } else {
        or_else(
            first_index_fault(
                0,
                definitions.len() as int,
                definition_fault(definitions, has_artifacts),
            ),
            or_else(
                output_limit_fault(limits),
                or_else(
                    compilation_fault(compiled),
                    if !selects_loader(loader) {
                        fault(ErrorCode::InvalidConfiguration, "skills.loader")
                    } else {
                        None
                    },
                ),
            ),
        )
    }
}

fn check_definition(definitions: &Vec<SkillDefinition>, has_artifacts: bool, i: usize) -> (r: Result<
    (),
    ContractError,
>)
    requires
        i < definitions.len(),
    ensures
        failure(r) == definition_fault(definitions.deep_view(), has_artifacts)(i as int),
{
    assert(definitions.deep_view()[i as int] == definitions@[i as int]@);
    let definition = &definitions[i];
    verdict(&definition.defect)?;
    let same = |other: &SkillDefinition| -> (b: bool)
        ensures
            b == defines_skill(definition@.skill)(other@),
    { other.skill.same(&definition.skill) };
    assert(definition@.assets.len() == definition.assets.len());
    if any_before(definitions, i, same, Ghost(defines_skill(definition@.skill))) || (
    definition.assets.len() > 0 && !has_artifacts) {
        return fail(ErrorCode::InvalidConfiguration, "skills.registry");
    }
    Ok(())
}

fn is_none_or_empty<T: Data>(items: &Option<Vec<T>>) -> (r: bool)
    ensures
        r == (listed(items.deep_view()).len() == 0),
{
    match items {
        Some(items) => {
            assert(items.deep_view().len() == items.len());
            items.len() == 0
        },
        None => true,
    }
}

fn is_loader(loader: &ToolBindingRef) -> (r: bool)
    ensures
        r == selects_loader(loader@),
{
    match loader {
        ToolBindingRef::Catalog(item) => {
            let identity = loader_ref();
            item.tool_id.same(&identity.id) && item.version.same(&identity.version)
                && is_none_or_empty(&item.bindings) && is_none_or_empty(&item.config)
        },
        ToolBindingRef::Export(_) => true,
    }
}

/// The metadata of the loader.
pub open spec fn loader_metadata(
    runtime: SkillRuntimeView,
    reference: ComponentRefView,
) -> ComponentMetadataView {
    ComponentMetadataView {
        reference,
        contract_version: 1,
        manifest_digest: runtime.descriptor_digest,
        config_schema: no_config_schema(),
        dependencies: Seq::empty(),
        capabilities: seq!["skill_loading"@],
        required_capabilities: Seq::empty(),
        required_connections: Seq::empty(),
        model_name: Some(runtime.descriptor.name),
        hook_position: None,
        exports: Seq::empty(),
    }
}

/// Definitions that a reference asks for.
pub open spec fn answers(reference: ComponentRefView) -> spec_fn(SkillDefinitionView) -> bool {
    |definition: SkillDefinitionView|
        reference.kind == ComponentKind::Skill && reference.id == definition.skill.id
            && reference.version == Some(definition.skill.version)
}

/// The metadata that a runtime has of a component.
pub open spec fn metadata_in(
    runtime: SkillRuntimeView,
    reference: ComponentRefView,
) -> Option<ComponentMetadataView> {
    if reference.kind == ComponentKind::Tool && reference.id == runtime.descriptor.tool.id
        && reference.version == Some(runtime.descriptor.tool.version) {
        Some(loader_metadata(runtime, reference))
    } else {
        match first_in(runtime.definitions, answers(reference)) {
            Some(definition) => Some(definition.metadata),
            None => None,
        }
    }
}

/// Adapters of a binding.
pub open spec fn binds_as(binding_id: Seq<char>) -> spec_fn(AdapterBindingView) -> bool {
    |adapter: AdapterBindingView| adapter.binding_id == binding_id
}

/// The component that a selected tool comes from.
pub open spec fn component_of(
    profile: AgentProfileView,
    selection: ToolBindingRefView,
) -> Option<ComponentRefView> {
    match selection {
        ToolBindingRefView::Catalog(item) => Some(
            exact(ComponentKind::Tool, item.tool_id, item.version),
        ),
        ToolBindingRefView::Export(reference) => match first_in(
            listed(profile.adapters),
            binds_as(reference.adapter_binding),
        ) {
            Some(adapter) => Some(
                exact(ComponentKind::Adapter, adapter.adapter_id, adapter.version),
            ),
            None => None,
        },
    }
}

/// Why a selected tool comes from no component.
pub open spec fn component_fault(
    profile: AgentProfileView,
    selection: ToolBindingRefView,
) -> Option<Fault> {
    if component_of(profile, selection) is None {
        fault(ErrorCode::InvalidReference, "skills.adapter")
    } else {
        None
    }
}

/// Find the component that a selected tool comes from.
pub fn tool_component(profile: &AgentProfile, selection: &ToolBindingRef) -> (r: Result<
    ComponentRef,
    ContractError,
>)
    ensures
        failure(r) == component_fault(profile@, selection@),
        r matches Ok(reference) ==> component_of(profile@, selection@) == Some(reference@),
{
    match selection {
        ToolBindingRef::Catalog(item) => Ok(
            ComponentRef {
                kind: ComponentKind::Tool,
                id: item.tool_id.copy(),
                version: Some(item.version.copy()),
            },
        ),
        ToolBindingRef::Export(reference) => {
            let bound = |adapter: &AdapterBinding| -> (b: bool)
                ensures
                    b == binds_as(reference@.adapter_binding)(adapter@),
            { adapter.binding_id.same(&reference.adapter_binding) };
            match &profile.adapters {
                Some(adapters) => match find(
                    adapters,
                    bound,
                    Ghost(binds_as(reference@.adapter_binding)),
                ) {
                    Some(adapter) => Ok(
                        ComponentRef {
                            kind: ComponentKind::Adapter,
                            id: adapter.adapter_id.copy(),
                            version: Some(adapter.version.copy()),
                        },
                    ),
                    None => fail(ErrorCode::InvalidReference, "skills.adapter"),
                },
                None => fail(ErrorCode::InvalidReference, "skills.adapter"),
            }
        },
    }
}

/// Why a look-up gave no metadata.
pub open spec fn look_up_fault(
    resolutions: Seq<ResolutionView>,
    requested: ComponentRefView,
) -> Option<Fault> {
    match first_in(resolutions, looks_up(requested)) {
        None => fault(ErrorCode::ComponentUnavailable, "component.reference"),
        Some(resolution) => match resolution.outcome {
            ResolutionOutcomeView::Refused { error } => Some(error),
            ResolutionOutcomeView::Resolved { .. } => None,
        },
    }
}

/// The metadata that a look-up gave.
pub open spec fn looked_up(
    resolutions: Seq<ResolutionView>,
    requested: ComponentRefView,
) -> ComponentMetadataView {
    first_in(resolutions, looks_up(requested))->0.outcome->metadata
}

fn look_up<'a>(resolutions: &'a Vec<Resolution>, requested: &ComponentRef) -> (r: Result<
    &'a ComponentMetadata,
    ContractError,
>)
    ensures
        failure(r) == look_up_fault(resolutions.deep_view(), requested@),
        r matches Ok(metadata) ==> metadata@ == looked_up(resolutions.deep_view(), requested@),
{
    let asked = |resolution: &Resolution| -> (b: bool)
        ensures
            b == looks_up(requested@)(resolution@),
    { resolution.requested.same(requested) };
    match find(resolutions, asked, Ghost(looks_up(requested@))) {
        None => fail(ErrorCode::ComponentUnavailable, "component.reference"),
        Some(resolution) => match &resolution.outcome {
            ResolutionOutcome::Refused { error } => Err(error.copy()),
            ResolutionOutcome::Resolved { metadata } => Ok(metadata),
        },
    }
}

/// Pinned components with this metadata.
pub open spec fn pins(metadata: ComponentMetadataView) -> spec_fn(ResolvedComponentView) -> bool {
    |component: ResolvedComponentView|
        component.reference == metadata.reference && component.definition_digest == digest_of(
            component_json(metadata),
        )
}

/// Why metadata is not what a profile was resolved with.
pub open spec fn attest_fault(
    profile: ResolvedProfileView,
    metadata: ComponentMetadataView,
) -> Option<Fault> {
    if some_in(profile.components, pins(metadata)) {
        None
    } else {
        fault(ErrorCode::ContextMismatch, "skills.metadata")
    }
}

/// Check that metadata is what a profile was resolved with.
pub fn attest(profile: &ResolvedProfile, metadata: &ComponentMetadata) -> (r: Result<
    (),
    ContractError,
>)
    ensures
        failure(r) == attest_fault(profile@, metadata@),
{
    let digest = metadata.digest();
    let pinned = |component: &ResolvedComponent| -> (b: bool)
        ensures
            b == pins(metadata@)(component@),
    {
        component.reference.same(&metadata.reference) && component.definition_digest.same(&digest)
    };
    if !any(profile.components(), pinned, Ghost(pins(metadata@))) {
        return fail(ErrorCode::ContextMismatch, "skills.metadata");
    }
    Ok(())
}

/// Metadata of a component.
pub open spec fn describes(reference: ComponentRefView) -> spec_fn(ComponentMetadataView) -> bool {
    |metadata: ComponentMetadataView| metadata.reference == reference
}

/// The metadata of the components that tools come from, each once, in the order of the tools.
pub open spec fn gathered(
    profile: AgentProfileView,
    tools: Seq<ToolBindingRefView>,
    resolutions: Seq<ResolutionView>,
) -> Seq<ComponentMetadataView>
    decreases tools.len(),
{
    if tools.len() == 0 {
        Seq::empty()
    } else {
        let front = gathered(profile, tools.drop_last(), resolutions);
        let reference = component_of(profile, tools.last())->0;
        if some_in(front, describes(reference)) {
            front
        } else {
            front.push(looked_up(resolutions, reference))
        }
    }
}

/// Why the component of the tool at a position cannot be taken.
pub open spec fn gather_fault(
    profile: ResolvedProfileView,
    resolutions: Seq<ResolutionView>,
) -> spec_fn(int) -> Option<Fault> {
    |i: int|
        {
            let tools = profile.profile.tools;
            let reference = component_of(profile.profile, tools[i])->0;
            if component_fault(profile.profile, tools[i]) is Some {
                component_fault(profile.profile, tools[i])
            } else if some_in(
                gathered(profile.profile, tools.take(i), resolutions),
                describes(reference),
            ) {
                None
            } else {
                or_else(
                    look_up_fault(resolutions, reference),
                    attest_fault(profile, looked_up(resolutions, reference)),
                )
            }
        }
}

fn gather(profile: &ResolvedProfile, resolutions: &Vec<Resolution>) -> (r: Result<
    Vec<ComponentMetadata>,
    ContractError,
>)
    ensures
        failure(r) == first_index_fault(
            0,
            profile@.profile.tools.len() as int,
            gather_fault(profile@, resolutions.deep_view()),
        ),
        r matches Ok(metadata) ==> metadata.deep_view() == gathered(
            profile@.profile,
            profile@.profile.tools,
            resolutions.deep_view(),
        ),
{
    let tools = &profile.profile().tools;
    let ghost s = tools.deep_view();
    let ghost p = profile@;
    let ghost given = resolutions.deep_view();
    let ghost n = s.len() as int;
    let ghost f = gather_fault(p, given);
    let mut out: Vec<ComponentMetadata> = Vec::new();
    let mut i: usize = 0;
    assert(s.take(0) =~= Seq::<ToolBindingRefView>::empty());
    assert(out.deep_view() =~= Seq::<ComponentMetadataView>::empty());
    while i < tools.len()
        invariant
            i <= tools.len(),
            s == tools.deep_view(),
            p == profile@,
            s == p.profile.tools,
            given == resolutions.deep_view(),
            n == tools.len(),
            f == gather_fault(p, given),
            out.deep_view() == gathered(p.profile, s.take(i as int), given),
            first_index_fault(0, n, f) == first_index_fault(i as int, n, f),
        decreases tools.len() - i,
    {
        assert(s[i as int] == tools@[i as int]@);
        assert(s.take(i + 1).drop_last() =~= s.take(i as int));
        assert(s.take(i + 1).last() == s[i as int]);
        let reference = tool_component(profile.profile(), &tools[i])?;
        let same = |metadata: &ComponentMetadata| -> (b: bool)
            ensures
                b == describes(reference@)(metadata@),
        { metadata.reference.same(&reference) };
        if !any(&out, same, Ghost(describes(reference@))) {
            let metadata = look_up(resolutions, &reference)?;
            attest(profile, metadata)?;
            let ghost before = out.deep_view();
            out.push(metadata.copy());
            assert(out.deep_view() =~= before.push(metadata@));
        }
        i = i + 1;
    }
    assert(s.take(i as int) =~= s);
    Ok(out)
}

/// An ordered set of identifiers with one more.
pub open spec fn including(ids: Seq<Seq<char>>, id: Seq<char>) -> Seq<Seq<char>>
    decreases ids.len(),
{
    if ids.len() == 0 || precedes(id, ids[0]) {
        seq![id] + ids
    } else if ids[0] == id {
        ids
    } else {
        seq![ids[0]] + including(ids.skip(1), id)
    }
}

/// An ordered set of identifiers with more of them.
pub open spec fn including_all(ids: Seq<Seq<char>>, more: Seq<Seq<char>>) -> Seq<Seq<char>>
    decreases more.len(),
{
    if more.len() == 0 {
        ids
    } else {
        including(including_all(ids, more.drop_last()), more.last())
    }
}

fn with_id(ids: Vec<Id>, id: &Id) -> (r: Vec<Id>)
    ensures
        r.deep_view() == including(ids.deep_view(), id@),
{
    let ghost s = ids.deep_view();
    let mut out = ids;
    let ghost p = id@;
    let mut i: usize = 0;
    assert(s.skip(0) =~= s);
    assert(s.take(0) =~= Seq::<Seq<char>>::empty());
    while i < out.len() && !comes_before(id.as_str(), out[i].as_str())
        invariant
            i <= out.len(),
            s == out.deep_view(),
            s == ids.deep_view(),
            p == id@,
            including(s, p) =~= s.take(i as int) + including(s.skip(i as int), p),
        decreases out.len() - i,
    {
        assert(s[i as int] == out@[i as int]@);
        assert(s.skip(i as int)[0] == s[i as int]);
        if out[i].same(id) {
            assert(s.take(i as int) + s.skip(i as int) =~= s);
            return out;
        }
        assert(s.skip(i as int).skip(1) =~= s.skip(i + 1));
        assert(s.take(i + 1) =~= s.take(i as int).push(s[i as int]));
        i = i + 1;
    }
    proof {
        if i < out.len() {
            assert(s[i as int] == out@[i as int]@);
            assert(s.skip(i as int)[0] == s[i as int]);
        }
        assert(including(s, p) =~= s.take(i as int) + (seq![p] + s.skip(i as int)));
    }
    out.insert(i, id.copy());
    assert(out.deep_view() =~= s.take(i as int) + (seq![p] + s.skip(i as int)));
    out
}

fn with_ids(ids: Vec<Id>, more: &Vec<Id>) -> (r: Vec<Id>)
    ensures
        r.deep_view() == including_all(ids.deep_view(), more.deep_view()),
{
    let ghost start = ids.deep_view();
    let ghost s = more.deep_view();
    let mut ids = ids;
    let mut i: usize = 0;
    assert(s.take(0) =~= Seq::<Seq<char>>::empty());
    while i < more.len()
        invariant
            i <= more.len(),
            s == more.deep_view(),
            ids.deep_view() == including_all(start, s.take(i as int)),
        decreases more.len() - i,
    {
        assert(s.take(i + 1).drop_last() =~= s.take(i as int));
        assert(s.take(i + 1).last() == more@[i as int]@);
        ids = with_id(ids, &more[i]);
        i = i + 1;
    }
    assert(s.take(i as int) =~= s);
    ids
}

/// Tools that an adapter exports under an identifier.
pub open spec fn exports_tool(export_id: Seq<char>) -> spec_fn(ExportMetadataView) -> bool {
    |export: ExportMetadataView|
        export.export_id == export_id && export.kind == ExportKind::Tool
}

/// Why the capabilities of a selected tool are not known.
pub open spec fn capability_fault(
    profile: ResolvedProfileView,
    metadata: Seq<ComponentMetadataView>,
) -> spec_fn(ToolBindingRefView) -> Option<Fault> {
    |selection: ToolBindingRefView|
        {
            let reference = component_of(profile.profile, selection)->0;
            if component_fault(profile.profile, selection) is Some {
                component_fault(profile.profile, selection)
            } else {
                match first_in(metadata, describes(reference)) {
                    None => fault(ErrorCode::ComponentUnavailable, "skills.tool_metadata"),
                    Some(found) => if attest_fault(profile, found) is Some {
                        attest_fault(profile, found)
                    } else {
                        match selection {
                            ToolBindingRefView::Catalog(_) => None,
                            ToolBindingRefView::Export(reference) => if some_in(
                                found.exports,
                                exports_tool(reference.export_id),
                            ) {
                                None
                            } else {
                                fault(ErrorCode::InvalidReference, "skills.tool_export")
                            },
                        }
                    },
                }
            }
        }
}

/// The capabilities of a selected tool.
pub open spec fn capabilities_of(
    profile: AgentProfileView,
    metadata: Seq<ComponentMetadataView>,
    selection: ToolBindingRefView,
) -> Seq<Seq<char>> {
    let found = first_in(metadata, describes(component_of(profile, selection)->0))->0;
    match selection {
        ToolBindingRefView::Catalog(_) => found.capabilities,
        ToolBindingRefView::Export(reference) => first_in(
            found.exports,
            exports_tool(reference.export_id),
        )->0.capabilities,
    }
}

/// The capabilities of selected tools, as an ordered set.
pub open spec fn all_capabilities(
    profile: AgentProfileView,
    metadata: Seq<ComponentMetadataView>,
    tools: Seq<ToolBindingRefView>,
) -> Seq<Seq<char>>
    decreases tools.len(),
{
    if tools.len() == 0 {
        Seq::empty()
    } else {
        including_all(
            all_capabilities(profile, metadata, tools.drop_last()),
            capabilities_of(profile, metadata, tools.last()),
        )
    }
}

fn find_capabilities<'a>(
    profile: &ResolvedProfile,
    metadata: &'a Vec<ComponentMetadata>,
    selection: &ToolBindingRef,
) -> (r: Result<&'a Vec<Id>, ContractError>)
    ensures
        failure(r) == capability_fault(profile@, metadata.deep_view())(selection@),
        r matches Ok(capabilities) ==> capabilities.deep_view() == capabilities_of(
            profile@.profile,
            metadata.deep_view(),
            selection@,
        ),
{
    let reference = tool_component(profile.profile(), selection)?;
    let same = |metadata: &ComponentMetadata| -> (b: bool)
        ensures
            b == describes(reference@)(metadata@),
    { metadata.reference.same(&reference) };
    let found = match find(metadata, same, Ghost(describes(reference@))) {
        Some(found) => found,
        None => {
            return fail(ErrorCode::ComponentUnavailable, "skills.tool_metadata");
        },
    };
    attest(profile, found)?;
    match selection {
        ToolBindingRef::Catalog(_) => Ok(&found.capabilities),
        ToolBindingRef::Export(reference) => {
            let exported = |export: &ExportMetadata| -> (b: bool)
                ensures
                    b == exports_tool(reference@.export_id)(export@),
            {
                export.export_id.same(&reference.export_id) && export.kind == ExportKind::Tool
            };
            proof {
                lemma_first_in(found@.exports, exports_tool(reference@.export_id));
            }
            match find(&found.exports, exported, Ghost(exports_tool(reference@.export_id))) {
                Some(export) => Ok(&export.capabilities),
                None => fail(ErrorCode::InvalidReference, "skills.tool_export"),
            }
        },
    }
}

/// Collect the capabilities of the tools of a profile from the metadata of their components.
pub fn tool_capabilities(profile: &ResolvedProfile, metadata: &Vec<ComponentMetadata>) -> (r: Result<
    Vec<Id>,
    ContractError,
>)
    ensures
        failure(r) == first_fault(
            profile@.profile.tools,
            capability_fault(profile@, metadata.deep_view()),
        ),
        r matches Ok(capabilities) ==> capabilities.deep_view() == all_capabilities(
            profile@.profile,
            metadata.deep_view(),
            profile@.profile.tools,
        ),
{
    let tools = &profile.profile().tools;
    let ghost s = tools.deep_view();
    let ghost p = profile@;
    let ghost given = metadata.deep_view();
    let ghost f = capability_fault(p, given);
    let mut out: Vec<Id> = Vec::new();
    let mut i: usize = 0;
    assert(s.take(0) =~= Seq::<ToolBindingRefView>::empty());
    assert(s.skip(0) =~= s);
    assert(out.deep_view() =~= Seq::<Seq<char>>::empty());
    while i < tools.len()
        invariant
            i <= tools.len(),
            s == tools.deep_view(),
            s == p.profile.tools,
            p == profile@,
            given == metadata.deep_view(),
            f == capability_fault(p, given),
            out.deep_view() == all_capabilities(p.profile, given, s.take(i as int)),
            first_fault(s, f) == first_fault(s.skip(i as int), f),
        decreases tools.len() - i,
    {
        assert(s[i as int] == tools@[i as int]@);
        assert(s.skip(i as int)[0] == s[i as int]);
        assert(s.skip(i as int).skip(1) =~= s.skip(i + 1));
        assert(s.take(i + 1).drop_last() =~= s.take(i as int));
        assert(s.take(i + 1).last() == s[i as int]);
        let more = find_capabilities(profile, metadata, &tools[i])?;
        out = with_ids(out, more);
        i = i + 1;
    }
    assert(s.take(i as int) =~= s);
    assert(s.skip(i as int).len() == 0);
    Ok(out)
}

/// The definition that a selection asks for.
pub open spec fn selected_skill(selection: SkillRefView) -> VersionedRefView {
    VersionedRefView { id: selection.skill_id, version: selection.version }
}

/// The component of a selected skill.
pub open spec fn skill_component(selection: SkillRefView) -> ComponentRefView {
    exact(ComponentKind::Skill, selection.skill_id, selection.version)
}

/// Identifiers among others.
pub open spec fn is_among(ids: Seq<Seq<char>>) -> spec_fn(Seq<char>) -> bool {
    |id: Seq<char>| ids.contains(id)
}

/// Why a selected skill cannot be pinned.
pub open spec fn skill_fault(
    runtime: SkillRuntimeView,
    profile: ResolvedProfileView,
    resolutions: Seq<ResolutionView>,
    capabilities: Seq<Seq<char>>,
) -> spec_fn(SkillRefView) -> Option<Fault> {
    |selection: SkillRefView|
        match first_in(runtime.definitions, defines_skill(selected_skill(selection))) {
            None => fault(ErrorCode::ComponentUnavailable, "skills.definition"),
            Some(definition) => {
                let metadata = looked_up(resolutions, skill_component(selection));
                or_else(
                    look_up_fault(resolutions, skill_component(selection)),
                    or_else(
                        attest_fault(profile, metadata),
                        if metadata.manifest_digest != definition.digest || !every(
                            definition.required_tool_capabilities,
                            is_among(capabilities),
                        ) {
                            fault(ErrorCode::CapabilityUnsupported, "skills.required_tools")
                        } else {
                            None
                        },
                    ),
                )
            },
        }
}

/// A selected skill, pinned.
pub open spec fn planned_skill(
    runtime: SkillRuntimeView,
    resolutions: Seq<ResolutionView>,
) -> spec_fn(SkillRefView) -> PlannedSkillView {
    |selection: SkillRefView|
        PlannedSkillView {
            selection,
            definition: first_in(
                runtime.definitions,
                defines_skill(selected_skill(selection)),
            )->0,
            metadata: looked_up(resolutions, skill_component(selection)),
        }
}

/// Tools of a selection.
pub open spec fn binds_tool(selection: ToolBindingRefView) -> spec_fn(PromptToolBindingView) -> bool {
    |tool: PromptToolBindingView| tool.selection == selection
}

/// Why the skills of a profile cannot be pinned.
pub open spec fn plan_fault(
    runtime: SkillRuntimeView,
    profile: ResolvedProfileView,
    tools: Seq<PromptToolBindingView>,
    resolutions: Seq<ResolutionView>,
    restored: Option<Fault>,
) -> Option<Fault> {
    if profile.scope != runtime.scope {
        fault(ErrorCode::AccessDenied, "skills.scope")
    } else {
        match first_in(tools, binds_tool(runtime.loader)) {
            None => fault(ErrorCode::ComponentUnavailable, "skills.loader_missing"),
            Some(tool) => if tool.compiled_digest != runtime.digest {
                fault(ErrorCode::ContextMismatch, "skills.loader_contract")
            } else {
                let metadata = gathered(profile.profile, profile.profile.tools, resolutions);
                let capabilities = all_capabilities(
                    profile.profile,
                    metadata,
                    profile.profile.tools,
                );
                or_else(
                    first_index_fault(
                        0,
                        profile.profile.tools.len() as int,
                        gather_fault(profile, resolutions),
                    ),
                    or_else(
                        first_fault(profile.profile.tools, capability_fault(profile, metadata)),
                        or_else(
                            first_fault(
                                profile.profile.skills,
                                skill_fault(runtime, profile, resolutions, capabilities),
                            ),
                            restored,
                        ),
                    ),
                )
            },
        }
    }
}

/// The plan of the skills of a profile.
pub open spec fn plan_of(
    runtime: SkillRuntimeView,
    profile: ResolvedProfileView,
    resolutions: Seq<ResolutionView>,
) -> SkillPlanView {
    let metadata = gathered(profile.profile, profile.profile.tools, resolutions);
    SkillPlanView {
        schema_version: "wickle.skill-plan.v1"@,
        scope: runtime.scope,
        skills: profile.profile.skills.map_values(planned_skill(runtime, resolutions)),
        loader: runtime.loader,
        loader_descriptor_digest: runtime.descriptor_digest,
        tool_capabilities: all_capabilities(profile.profile, metadata, profile.profile.tools),
        tool_metadata: metadata,
        limits: runtime.limits,
        defect: None,
    }
}

/// Planned skills whose definition is not registered.
pub open spec fn unregistered(definitions: Seq<SkillDefinitionView>) -> spec_fn(
    PlannedSkillView,
) -> bool {
    |entry: PlannedSkillView| !definitions.contains(entry.definition)
}

/// Why a plan is not one of these skills.
pub open spec fn current_fault(runtime: SkillRuntimeView, plan: SkillPlanView) -> Option<Fault> {
    if plan.scope != runtime.scope || plan.loader != runtime.loader
        || plan.loader_descriptor_digest != runtime.descriptor_digest || plan.limits
        != runtime.limits || some_in(plan.skills, unregistered(runtime.definitions)) {
        fault(ErrorCode::ContextMismatch, "skills.pinned_definitions")
    } else {
        None
    }
}

/// Why a run has no plan to read.
pub open spec fn plan_reference_fault(
    runtime: SkillRuntimeView,
    snapshot: RunSnapshotView,
) -> Option<Fault> {
    if snapshot.scope != runtime.scope {
        fault(ErrorCode::AccessDenied, "skills.scope")
    } else if snapshot.skill_plan_ref is None {
        fault(ErrorCode::InvalidSnapshot, "skills.plan_missing")
    } else {
        None
    }
}

/// Why the record that was read is not the plan of a run.
pub open spec fn saved_plan_fault(
    runtime: SkillRuntimeView,
    reference: RecordRefView,
    record: ProtectedRecordView,
) -> Option<Fault> {
    if record.reference != reference {
        fault(ErrorCode::InvalidSnapshot, "skills.plan_reference")
    } else {
        or_else(
            skill_plan_fault(record),
            current_fault(runtime, skill_plan_in(record)->Some_0),
        )
    }
}

/// Calls of an identifier.
pub open spec fn of_call(call_id: Seq<char>) -> spec_fn(ToolLedgerEntryView) -> bool {
    |entry: ToolLedgerEntryView| entry.call.call_id == call_id
}

/// A call is being dispatched by this execution.
pub open spec fn is_dispatched_by(state: ToolCallStateView, call: SkillCallView) -> bool {
    state == (ToolCallStateView::Dispatching {
        attempt_id: call.attempt_id,
        idempotency_key: call.idempotency_key,
    })
}

/// Why an execution may not load a skill.
pub open spec fn call_fault(
    plan: SkillPlanView,
    snapshot: RunSnapshotView,
    call: SkillCallView,
) -> Option<Fault> {
    match first_in(snapshot.tool_ledger, of_call(call.call_id)) {
        None => fault(ErrorCode::InvalidSnapshot, "skills.call"),
        Some(entry) => if entry.call.descriptor_digest != Some(plan.loader_descriptor_digest)
            || !is_dispatched_by(entry.state, call) {
            fault(ErrorCode::AccessDenied, "skills.loader_call")
        } else if entry.call.bound_input_ref is None {
            fault(ErrorCode::InvalidSnapshot, "skills.bound_input")
        } else {
            None
        },
    }
}

/// The bound arguments of the call that an execution performs.
pub open spec fn bound_ref(snapshot: RunSnapshotView, call: SkillCallView) -> RecordRefView {
    first_in(snapshot.tool_ledger, of_call(call.call_id))->0.call.bound_input_ref->0
}

fn is_dispatching(state: &ToolCallState, call: &SkillCall) -> (r: bool)
    ensures
        r == is_dispatched_by(state@, call@),
{
    match state {
        ToolCallState::Dispatching { attempt_id, idempotency_key } => attempt_id.same(
            &call.attempt_id,
        ) && idempotency_key.same(&call.idempotency_key),
        _ => false,
    }
}

/// Find the bound arguments of the call that an execution performs.
pub fn check_call(plan: &SkillPlan, snapshot: &RunSnapshot, call: &SkillCall) -> (r: Result<
    RecordRef,
    ContractError,
>)
    ensures
        failure(r) == call_fault(plan@, snapshot@, call@),
        r matches Ok(reference) ==> reference@ == bound_ref(snapshot@, call@),
{
    let same = |entry: &ToolLedgerEntry| -> (b: bool)
        ensures
            b == of_call(call@.call_id)(entry@),
    { entry.call.call_id.same(&call.call_id) };
    match find(&snapshot.tool_ledger, same, Ghost(of_call(call@.call_id))) {
        None => fail(ErrorCode::InvalidSnapshot, "skills.call"),
        Some(entry) => {
            if !is_same(&entry.call.descriptor_digest, &plan.loader_descriptor_digest)
                || !is_dispatching(&entry.state, call) {
                return fail(ErrorCode::AccessDenied, "skills.loader_call");
            }
            match &entry.call.bound_input_ref {
                Some(reference) => Ok(reference.copy()),
                None => fail(ErrorCode::InvalidSnapshot, "skills.bound_input"),
            }
        },
    }
}

/// Planned skills that arguments ask for.
pub open spec fn asked_for(arguments: Seq<MemberView>) -> spec_fn(PlannedSkillView) -> bool {
    |entry: PlannedSkillView|
        value_of(arguments, "skill_id"@) == Some(JsonView::Text(entry.selection.skill_id))
            && value_of(arguments, "version"@) == Some(JsonView::Text(entry.selection.version))
}

/// Why arguments choose no skill.
pub open spec fn choice_fault(
    plan: SkillPlanView,
    bound: Seq<MemberView>,
    arguments: Seq<MemberView>,
) -> Option<Fault> {
    if bound != arguments {
        fault(ErrorCode::AccessDenied, "skills.bound_arguments")
    } else if !some_in(plan.skills, asked_for(arguments)) {
        fault(ErrorCode::InvalidSkill, "skills.requested_version")
    } else {
        None
    }
}

fn names(arguments: &Vec<Member>, key: &str, id: &Id) -> (r: bool)
    ensures
        r == (value_of(arguments.deep_view(), key@) == Some(JsonView::Text(id@))),
{
    match member_value(arguments, key) {
        Some(value) => value.is_text(id.as_str()),
        None => false,
    }
}

/// Choose the skill of a plan that arguments ask for, given the arguments that the call was bound to.
pub fn choose_skill<'a>(plan: &'a SkillPlan, bound: &Vec<Member>, arguments: &Vec<Member>) -> (r:
    Result<&'a PlannedSkill, ContractError>)
    ensures
        failure(r) == choice_fault(plan@, bound.deep_view(), arguments.deep_view()),
        r matches Ok(entry) ==> first_in(plan@.skills, asked_for(arguments.deep_view())) == Some(
            entry@,
        ),
{
    if !bound.same(arguments) {
        return fail(ErrorCode::AccessDenied, "skills.bound_arguments");
    }
    let wanted = |entry: &PlannedSkill| -> (b: bool)
        ensures
            b == asked_for(arguments.deep_view())(entry@),
    {
        names(arguments, "skill_id", &entry.selection.skill_id) && names(
            arguments,
            "version",
            &entry.selection.version,
        )
    };
    proof {
        lemma_first_in(plan@.skills, asked_for(arguments.deep_view()));
    }
    match find(&plan.skills, wanted, Ghost(asked_for(arguments.deep_view()))) {
        Some(entry) => Ok(entry),
        None => fail(ErrorCode::InvalidSkill, "skills.requested_version"),
    }
}

/// The loads that the settled calls of a ledger refer to, in order.
pub open spec fn held_loads(
    entries: Seq<ToolLedgerEntryView>,
    records: Seq<ProtectedRecordView>,
) -> Seq<LoadedSkillView>
    decreases entries.len(),
{
    if entries.len() == 0 {
        Seq::empty()
    } else {
        let front = held_loads(entries.drop_last(), records);
        match skill_ref_of(entries.last()) {
            None => front,
            Some(reference) => match record_named(records, reference) {
                None => front,
                Some(record) => match load_in(record) {
                    None => front,
                    Some(body) => front.push(body),
                },
            },
        }
    }
}

/// The first load of each skill.
pub open spec fn first_loads(bodies: Seq<LoadedSkillView>) -> Seq<LoadedSkillView>
    decreases bodies.len(),
{
    if bodies.len() == 0 {
        Seq::empty()
    } else {
        let front = first_loads(bodies.drop_last());
        if some_in(front, of_selection(bodies.last().selection)) {
            front
        } else {
            front.push(bodies.last())
        }
    }
}

/// How many bytes bodies take together.
pub open spec fn total_bytes(bodies: Seq<LoadedSkillView>) -> nat
    decreases bodies.len(),
{
    if bodies.len() == 0 {
        0
    } else {
        total_bytes(bodies.drop_last()) + encode_utf8(bodies.last().body).len()
    }
}

fn load_of<'a>(entry: &ToolLedgerEntry, records: &'a Vec<ProtectedRecord>) -> (r: Option<
    &'a LoadedSkill,
>)
    ensures
        r.deep_view() == (match skill_ref_of(entry@) {
            None => None,
            Some(reference) => match record_named(records.deep_view(), reference) {
                None => None,
                Some(record) => load_in(record),
            },
        }),
{
    match skill_ref(entry) {
        None => None,
        Some(reference) => match find_record(records, reference) {
            None => None,
            Some(record) => LoadedSkill::read(record.content()),
        },
    }
}

fn read_loads(entries: &Vec<ToolLedgerEntry>, records: &Vec<ProtectedRecord>) -> (r: Vec<
    LoadedSkill,
>)
    ensures
        r.deep_view() == held_loads(entries.deep_view(), records.deep_view()),
{
    let ghost s = entries.deep_view();
    let mut out: Vec<LoadedSkill> = Vec::new();
    let mut i: usize = 0;
    assert(s.take(0) =~= Seq::<ToolLedgerEntryView>::empty());
    assert(out.deep_view() =~= Seq::<LoadedSkillView>::empty());
    while i < entries.len()
        invariant
            i <= entries.len(),
            s == entries.deep_view(),
            out.deep_view() == held_loads(s.take(i as int), records.deep_view()),
        decreases entries.len() - i,
    {
        assert(s.take(i + 1).drop_last() =~= s.take(i as int));
        assert(s.take(i + 1).last() == entries@[i as int]@);
        if let Some(body) = load_of(&entries[i], records) {
            let ghost before = out.deep_view();
            out.push(body.copy());
            assert(out.deep_view() =~= before.push(body@));
        }
        i = i + 1;
    }
    assert(s.take(i as int) =~= s);
    out
}

fn keep_first(bodies: &Vec<LoadedSkill>) -> (r: Vec<LoadedSkill>)
    ensures
        r.deep_view() == first_loads(bodies.deep_view()),
{
    let ghost s = bodies.deep_view();
    let mut out: Vec<LoadedSkill> = Vec::new();
    let mut i: usize = 0;
    assert(s.take(0) =~= Seq::<LoadedSkillView>::empty());
    assert(out.deep_view() =~= Seq::<LoadedSkillView>::empty());
    while i < bodies.len()
        invariant
            i <= bodies.len(),
            s == bodies.deep_view(),
            out.deep_view() == first_loads(s.take(i as int)),
        decreases bodies.len() - i,
    {
        let body = &bodies[i];
        assert(s.take(i + 1).drop_last() =~= s.take(i as int));
        assert(s.take(i + 1).last() == body@);
        let same = |prior: &LoadedSkill| -> (b: bool)
            ensures
                b == of_selection(body@.selection)(prior@),
        { prior.selection.same(&body.selection) };
        if !any(&out, same, Ghost(of_selection(body@.selection))) {
            let ghost before = out.deep_view();
            out.push(body.copy());
            assert(out.deep_view() =~= before.push(body@));
        }
        i = i + 1;
    }
    assert(s.take(i as int) =~= s);
    out
}

proof fn lemma_total_grows(bodies: Seq<LoadedSkillView>, n: int)
    requires
        0 <= n <= bodies.len(),
    ensures
        total_bytes(bodies.take(n)) <= total_bytes(bodies),
    decreases bodies.len(),
{
    if n == bodies.len() {
        assert(bodies.take(n) =~= bodies);
    } else {
        lemma_total_grows(bodies.drop_last(), n);
        assert(bodies.drop_last().take(n) =~= bodies.take(n));
    }
}

/// Whether bodies take more than `limit` bytes together.
pub fn bodies_exceed(bodies: &Vec<LoadedSkill>, limit: u64) -> (r: bool)
    ensures
        r == (total_bytes(bodies.deep_view()) > limit),
{
    let ghost s = bodies.deep_view();
    let mut total: u64 = 0;
    let mut i: usize = 0;
    assert(s.take(0) =~= Seq::<LoadedSkillView>::empty());
    while i < bodies.len()
        invariant
            i <= bodies.len(),
            s == bodies.deep_view(),
            total == total_bytes(s.take(i as int)),
            total <= limit,
        decreases bodies.len() - i,
    {
        assert(s.take(i + 1).drop_last() =~= s.take(i as int));
        assert(s.take(i + 1).last() == bodies@[i as int]@);
        let bytes = bodies[i].body.as_str().as_bytes();
        let size: u64 = bytes.len() as u64;
        if size > limit - total {
            proof {
                lemma_total_grows(s, i + 1);
            }
            return true;
        }
        total = total + size;
        i = i + 1;
    }
    assert(s.take(i as int) =~= s);
    false
}

/// Why the record of an earlier load cannot be used by a later one.
pub open spec fn prior_fault(plan: SkillPlanView, records: Seq<ProtectedRecordView>) -> spec_fn(
    ToolLedgerEntryView,
) -> Option<Fault> {
    |entry: ToolLedgerEntryView|
        match skill_ref_of(entry) {
            None => None,
            Some(reference) => match record_named(records, reference) {
                None => fault(ErrorCode::InvalidSnapshot, "skills.record"),
                Some(record) => loaded_fault(plan, entry, record),
            },
        }
}

fn check_prior(plan: &SkillPlan, records: &Vec<ProtectedRecord>, entry: &ToolLedgerEntry) -> (r:
    Result<(), ContractError>)
    ensures
        failure(r) == prior_fault(plan@, records.deep_view())(entry@),
{
    match skill_ref(entry) {
        None => Ok(()),
        Some(reference) => match find_record(records, reference) {
            None => fail(ErrorCode::InvalidSnapshot, "skills.record"),
            Some(record) => {
                loaded(plan, entry, record)?;
                Ok(())
            },
        },
    }
}

/// Read the earlier loads of a run from their records.
pub fn prior_loads(plan: &SkillPlan, snapshot: &RunSnapshot, records: &Vec<ProtectedRecord>) -> (r:
    Result<Vec<LoadedSkill>, ContractError>)
    ensures
        failure(r) == first_fault(
            snapshot@.tool_ledger,
            prior_fault(plan@, records.deep_view()),
        ),
        r matches Ok(bodies) ==> bodies.deep_view() == held_loads(
            snapshot@.tool_ledger,
            records.deep_view(),
        ),
{
    let check = |entry: &ToolLedgerEntry| -> (r: Result<(), ContractError>)
        ensures
            failure(r) == prior_fault(plan@, records.deep_view())(entry@),
    { check_prior(plan, records, entry) };
    check_each(&snapshot.tool_ledger, check, Ghost(prior_fault(plan@, records.deep_view())))?;
    Ok(read_loads(&snapshot.tool_ledger, records))
}

/// The load of a skill that a run has made before.
pub open spec fn cached_load(
    priors: Seq<LoadedSkillView>,
    selected: PlannedSkillView,
) -> Option<LoadedSkillView> {
    last_in(priors, of_selection(selected.selection))
}

/// A body of this size would exceed the budget. The largest budget is never exceeded.
pub open spec fn over_budget(held: nat, size: int, budget: u64) -> bool {
    budget < u64::MAX && held + size > budget
}

/// Why a skill cannot be loaded.
pub open spec fn load_step_fault(
    limits: SkillLimitsView,
    selected: PlannedSkillView,
    priors: Seq<LoadedSkillView>,
) -> Option<Fault> {
    if cached_load(priors, selected) is None && over_budget(
        total_bytes(first_loads(priors)),
        selected.definition.body_bytes as int,
        limits.max_total_body_bytes,
    ) {
        fault(ErrorCode::ContextBudgetExceeded, "skills.total_body")
    } else {
        None
    }
}

/// What a load does: a skill that the run has loaded before is handed out again under the new call.
pub open spec fn load_step(
    selected: PlannedSkillView,
    priors: Seq<LoadedSkillView>,
    call: SkillCallView,
) -> LoadStepView {
    match cached_load(priors, selected) {
        Some(prior) => LoadStepView::Reuse {
            loaded: LoadedSkillView { call_id: call.call_id, ..prior },
        },
        None => LoadStepView::Fetch,
    }
}

/// The load of a skill that a resolver handed over.
pub open spec fn load_record(
    scope: ScopeView,
    selected: PlannedSkillView,
    call: SkillCallView,
    fetched: FetchedSkillView,
) -> LoadedSkillView {
    LoadedSkillView {
        schema_version: "wickle.loaded-skill.v1"@,
        scope,
        run_id: call.run_id,
        call_id: call.call_id,
        selection: selected.selection,
        definition_digest: selected.definition.digest,
        body: fetched.body,
        assets: selected.definition.assets,
        summary: fetched.summary,
        context_item: fetched.context_item,
        item_defect: fetched.item_defect,
        defect: fetched.defect,
    }
}

/// Why a settled load cannot stand in a context.
pub open spec fn body_fault(plan: SkillPlanView, records: Seq<ProtectedRecordView>) -> spec_fn(
    ToolLedgerEntryView,
) -> Option<Fault> {
    |entry: ToolLedgerEntryView|
        match entry.state {
            ToolCallStateView::Settled { result } => match result.skill_ref {
                None => None,
                Some(reference) => match record_named(records, reference) {
                    None => fault(ErrorCode::InvalidSnapshot, "skills.record"),
                    Some(record) => match load_in(record) {
                        None => fault(ErrorCode::InvalidSkill, "skills.record"),
                        Some(body) => if body.defect is Some {
                            body.defect
                        } else if !(result.status is Succeeded) || entry.call.descriptor_digest
                            != Some(plan.loader_descriptor_digest) {
                            fault(ErrorCode::InvalidSkill, "skills.result")
                        } else {
                            None
                        },
                    },
                },
            },
            _ => None,
        }
}

fn check_body(plan: &SkillPlan, records: &Vec<ProtectedRecord>, entry: &ToolLedgerEntry) -> (r:
    Result<(), ContractError>)
    ensures
        failure(r) == body_fault(plan@, records.deep_view())(entry@),
{
    let result = match &entry.state {
        ToolCallState::Settled { result } => result,
        _ => {
            return Ok(());
        },
    };
    let reference = match &result.skill_ref {
        Some(reference) => reference,
        None => {
            return Ok(());
        },
    };
    let record = match find_record(records, reference) {
        Some(record) => record,
        None => {
            return fail(ErrorCode::InvalidSnapshot, "skills.record");
        },
    };
    match LoadedSkill::read(record.content()) {
        None => fail(ErrorCode::InvalidSkill, "skills.record"),
        Some(body) => {
            verdict(&body.defect)?;
            if result.status != ToolResultStatus::Succeeded || !is_same(
                &entry.call.descriptor_digest,
                &plan.loader_descriptor_digest,
            ) {
                return fail(ErrorCode::InvalidSkill, "skills.result");
            }
            Ok(())
        },
    }
}

/// Why the loads of a run cannot stand in a context.
pub open spec fn context_fault(
    plan: SkillPlanView,
    snapshot: RunSnapshotView,
    records: Seq<ProtectedRecordView>,
) -> Option<Fault> {
    or_else(
        first_fault(snapshot.tool_ledger, body_fault(plan, records)),
        if total_bytes(first_loads(held_loads(snapshot.tool_ledger, records)))
            > plan.limits.max_total_body_bytes {
            fault(ErrorCode::ContextBudgetExceeded, "skills.total_body")
        } else {
            None
        },
    )
}

/// The loads of a run that stand in a context, in plan order.
pub open spec fn context_bodies(
    plan: SkillPlanView,
    snapshot: RunSnapshotView,
    records: Seq<ProtectedRecordView>,
) -> Seq<LoadedSkillView> {
    in_plan_order(plan.skills, first_loads(held_loads(snapshot.tool_ledger, records)))
}

/// Restore the committed bodies of a run, in plan order. Permission is to be checked for each before
/// it is used.
pub fn loaded_bodies(plan: &SkillPlan, snapshot: &RunSnapshot, records: &Vec<ProtectedRecord>) -> (r:
    Result<Vec<LoadedSkill>, ContractError>)
    ensures
        failure(r) == context_fault(plan@, snapshot@, records.deep_view()),
        r matches Ok(bodies) ==> bodies.deep_view() == context_bodies(
            plan@,
            snapshot@,
            records.deep_view(),
        ),
{
    let check = |entry: &ToolLedgerEntry| -> (r: Result<(), ContractError>)
        ensures
            failure(r) == body_fault(plan@, records.deep_view())(entry@),
    { check_body(plan, records, entry) };
    check_each(&snapshot.tool_ledger, check, Ghost(body_fault(plan@, records.deep_view())))?;
    let bodies = keep_first(&read_loads(&snapshot.tool_ledger, records));
    if bodies_exceed(&bodies, plan.limits.max_total_body_bytes) {
        return fail(ErrorCode::ContextBudgetExceeded, "skills.total_body");
    }
    Ok(ordered_by_plan(plan, &bodies))
}

/// The context that a permitted body gives.
pub fn context_item(body: &LoadedSkill) -> (r: Result<ContextItem, ContractError>)
    ensures
        failure(r) == body@.item_defect,
        r matches Ok(item) ==> item@ == body@.context_item,
{
    verdict(&body.item_defect)?;
    Ok(body.context_item.copy())
}

/// What the end of an operation reports.
pub open spec fn operation_code(end: OperationEndView, cancelled: bool, expired: bool) -> Option<
    ErrorCode,
> {
    if cancelled {
        Some(ErrorCode::Cancelled)
    } else if expired {
        Some(ErrorCode::DeadlineExceeded)
    } else {
        match end {
            OperationEndView::Cancelled => Some(ErrorCode::Cancelled),
            OperationEndView::DeadlinePassed => Some(ErrorCode::DeadlineExceeded),
            OperationEndView::Panicked => Some(ErrorCode::InvalidSkill),
            OperationEndView::Failed { error } => Some(error.code),
            OperationEndView::Done => None,
        }
    }
}

/// Report the end of an operation. Whatever failed, only its code is shown.
pub fn settle_operation(end: &OperationEnd, cancelled: bool, expired: bool) -> (r: Result<
    (),
    ContractError,
>)
    ensures
        failure(r) == (match operation_code(end@, cancelled, expired) {
            Some(code) => fault(code, "skills.operation"),
            None => None,
        }),
{
    if cancelled {
        return fail(ErrorCode::Cancelled, "skills.operation");
    }
    if expired {
        return fail(ErrorCode::DeadlineExceeded, "skills.operation");
    }
    match end {
        OperationEnd::Cancelled => fail(ErrorCode::Cancelled, "skills.operation"),
        OperationEnd::DeadlinePassed => fail(ErrorCode::DeadlineExceeded, "skills.operation"),
        OperationEnd::Panicked => fail(ErrorCode::InvalidSkill, "skills.operation"),
        OperationEnd::Failed { error } => fail(error.code, "skills.operation"),
        OperationEnd::Done => Ok(()),
    }
}

/// Take the decision of a policy about a skill.
pub fn settle_skill_policy(decision: PolicyVerdict) -> (r: Result<(), ContractError>)
    ensures
        failure(r) == (match decision {
            PolicyVerdict::Allow => None,
            PolicyVerdict::Deny => fault(ErrorCode::AccessDenied, "skills.policy"),
            PolicyVerdict::RequireApproval => fault(
                ErrorCode::SkillApprovalRequired,
                "skills.policy",
            ),
        }),
{
    match decision {
        PolicyVerdict::Allow => Ok(()),
        PolicyVerdict::Deny => fail(ErrorCode::AccessDenied, "skills.policy"),
        PolicyVerdict::RequireApproval => fail(ErrorCode::SkillApprovalRequired, "skills.policy"),
    }
}

impl SkillRuntime {
    /// Build an immutable scoped registry without invoking a resolver or store, given what compiling
    /// the loader's descriptor gave.
    pub fn new(
        scope: Scope,
        has_artifacts: bool,
        definitions: Vec<SkillDefinition>,
        loader: ToolBindingRef,
        limits: SkillLimits,
        compiled: LoaderCompilation,
    ) -> (r: Result<Self, ContractError>)
        ensures
            failure(r) == registry_fault(
                has_artifacts,
                definitions.deep_view(),
                loader@,
                limits@,
                compiled@,
            ),
            r matches Ok(runtime) ==> runtime@ == (SkillRuntimeView {
                scope: scope@,
                has_artifacts,
                definitions: definitions.deep_view(),
                loader: loader@,
                limits: limits@,
                descriptor: descriptor_of(limits@),
                descriptor_digest: compiled@->descriptor_digest,
                digest: compiled@->digest,
            }),
    {
        verdict(&limits.defect)?;
        assert(definitions.deep_view().len() == definitions.len());
        let n: usize = definitions.len();
        if n > 64 {
            return fail(ErrorCode::InvalidConfiguration, "skills.count");
        }
        let listed_definitions = &definitions;
        let check = |i: usize| -> (r: Result<(), ContractError>)
            requires
                i < listed_definitions.len(),
            ensures
                failure(r) == definition_fault(listed_definitions.deep_view(), has_artifacts)(
                    i as int,
                ),
        { check_definition(listed_definitions, has_artifacts, i) };
        crate::data::check_indices(
            n,
            check,
            Ghost(definition_fault(listed_definitions.deep_view(), has_artifacts)),
        )?;
        let descriptor = loader_descriptor(&limits)?;
        match compiled {
            LoaderCompilation::Refused { error } => Err(error),
            LoaderCompilation::Compiled { descriptor_digest, digest } => {
                if !is_loader(&loader) {
                    return fail(ErrorCode::InvalidConfiguration, "skills.loader");
                }
                Ok(
                    SkillRuntime {
                        scope,
                        has_artifacts,
                        definitions,
                        loader,
                        limits,
                        descriptor,
                        descriptor_digest,
                        digest,
                    },
                )
            },
        }
    }

    /// Standard catalog selection. The profile must select this tool explicitly.
    pub fn catalog_loader() -> (r: ToolBindingRef)
        ensures
            r@ == ToolBindingRefView::Catalog(
                CatalogToolView {
                    tool_id: loader_identity().id,
                    version: loader_identity().version,
                    config: None,
                    bindings: None,
                },
            ),
    {
        let identity = loader_ref();
        ToolBindingRef::Catalog(
            CatalogTool {
                tool_id: identity.id,
                version: identity.version,
                config: None,
                bindings: None,
            },
        )
    }

    /// Owning namespace.
    pub fn scope(&self) -> (r: &Scope)
        ensures
            r@ == self@.scope,
    {
        &self.scope
    }

    /// The limits of loads.
    pub fn limits(&self) -> (r: &SkillLimits)
        ensures
            r@ == self@.limits,
    {
        &self.limits
    }

    /// Descriptor for a catalog registration or an adapter export.
    pub fn loader_descriptor(&self) -> (r: &ToolDescriptor)
        ensures
            r@ == self@.descriptor,
    {
        &self.descriptor
    }

    /// The loader, ready for a host's tool registry.
    pub fn loader_tool(&self) -> (r: ToolRegistration)
        ensures
            r@ == (ToolRegistrationView {
                scope: self@.scope,
                descriptor: self@.descriptor,
                descriptor_digest: self@.descriptor_digest,
                digest: self@.digest,
            }),
    {
        ToolRegistration {
            scope: self.scope.copy(),
            descriptor: self.descriptor.copy(),
            descriptor_digest: self.descriptor_digest.copy(),
            digest: self.digest.copy(),
        }
    }

    /// Metadata for the loader and the registered skills.
    pub fn component_metadata(&self, reference: &ComponentRef) -> (r: Option<ComponentMetadata>)
        ensures
            r.deep_view() == metadata_in(self@, reference@),
    {
        if reference.kind == ComponentKind::Tool && reference.id.same(&self.descriptor.tool.id)
            && is_same(&reference.version, &self.descriptor.tool.version) {
            proof {
                reveal_strlit("skill_loading");
                assert(!white_space("skill_loading"@[0]));
            }
            let mut capabilities: Vec<Id> = Vec::new();
            capabilities.push(Id::literal("skill_loading"));
            assert(capabilities.deep_view() =~= seq!["skill_loading"@]);
            let metadata = ComponentMetadata {
                reference: reference.copy(),
                contract_version: 1,
                manifest_digest: self.descriptor_digest.copy(),
                config_schema: no_config_document(),
                dependencies: Vec::new(),
                capabilities,
                required_capabilities: Vec::new(),
                required_connections: Vec::new(),
                model_name: Some(self.descriptor.name.copy()),
                hook_position: None,
                exports: Vec::new(),
            };
            assert(metadata@ =~= loader_metadata(self@, reference@));
            return Some(metadata);
        }
        let asked = |definition: &SkillDefinition| -> (b: bool)
            ensures
                b == answers(reference@)(definition@),
        {
            reference.kind == ComponentKind::Skill && reference.id.same(&definition.skill.id)
                && is_same(&reference.version, &definition.skill.version)
        };
        match find(&self.definitions, asked, Ghost(answers(reference@))) {
            Some(definition) => Some(definition.metadata.copy()),
            None => None,
        }
    }

    fn pin_skill(
        &self,
        profile: &ResolvedProfile,
        resolutions: &Vec<Resolution>,
        capabilities: &Vec<Id>,
        selection: &SkillRef,
    ) -> (r: Result<PlannedSkill, ContractError>)
        ensures
            failure(r) == skill_fault(
                self@,
                profile@,
                resolutions.deep_view(),
                capabilities.deep_view(),
            )(selection@),
            r matches Ok(entry) ==> entry@ == planned_skill(self@, resolutions.deep_view())(
                selection@,
            ),
    {
        let skill = VersionedRef {
            id: selection.skill_id.copy(),
            version: selection.version.copy(),
        };
        let same = |definition: &SkillDefinition| -> (b: bool)
            ensures
                b == defines_skill(skill@)(definition@),
        { definition.skill.same(&skill) };
        let definition = match find(&self.definitions, same, Ghost(defines_skill(skill@))) {
            Some(definition) => definition,
            None => {
                return fail(ErrorCode::ComponentUnavailable, "skills.definition");
            },
        };
        let reference = ComponentRef {
            kind: ComponentKind::Skill,
            id: selection.skill_id.copy(),
            version: Some(selection.version.copy()),
        };
        let metadata = look_up(resolutions, &reference)?;
        attest(profile, metadata)?;
        let offered = |id: &Id| -> (b: bool)
            ensures
                b == is_among(capabilities.deep_view())(id@),
        { contains(capabilities, id) };
        if !metadata.manifest_digest.same(&definition.digest) || !all(
            &definition.required_tool_capabilities,
            offered,
            Ghost(is_among(capabilities.deep_view())),
        ) {
            return fail(ErrorCode::CapabilityUnsupported, "skills.required_tools");
        }
        Ok(
            PlannedSkill {
                selection: selection.copy(),
                definition: definition.copy(),
                metadata: metadata.copy(),
            },
        )
    }

    fn pin_skills(
        &self,
        profile: &ResolvedProfile,
        resolutions: &Vec<Resolution>,
        capabilities: &Vec<Id>,
    ) -> (r: Result<Vec<PlannedSkill>, ContractError>)
        ensures
            failure(r) == first_fault(
                profile@.profile.skills,
                skill_fault(self@, profile@, resolutions.deep_view(), capabilities.deep_view()),
            ),
            r matches Ok(skills) ==> skills.deep_view() == profile@.profile.skills.map_values(
                planned_skill(self@, resolutions.deep_view()),
            ),
    {
        let selections = &profile.profile().skills;
        let ghost s = selections.deep_view();
        let ghost f = skill_fault(
            self@,
            profile@,
            resolutions.deep_view(),
            capabilities.deep_view(),
        );
        let ghost g = planned_skill(self@, resolutions.deep_view());
        let mut out: Vec<PlannedSkill> = Vec::new();
        let mut i: usize = 0;
        assert(s.skip(0) =~= s);
        assert(out.deep_view() =~= s.take(0).map_values(g));
        while i < selections.len()
            invariant
                i <= selections.len(),
                s == selections.deep_view(),
                s == profile@.profile.skills,
                f == skill_fault(
                    self@,
                    profile@,
                    resolutions.deep_view(),
                    capabilities.deep_view(),
                ),
                g == planned_skill(self@, resolutions.deep_view()),
                out.deep_view() == s.take(i as int).map_values(g),
                first_fault(s, f) == first_fault(s.skip(i as int), f),
            decreases selections.len() - i,
        {
            assert(s[i as int] == selections@[i as int]@);
            assert(s.skip(i as int)[0] == s[i as int]);
            assert(s.skip(i as int).skip(1) =~= s.skip(i + 1));
            let entry = self.pin_skill(profile, resolutions, capabilities, &selections[i])?;
            let ghost before = out.deep_view();
            let ghost item = entry@;
            out.push(entry);
            assert(out.deep_view() =~= before.push(item));
            assert(s.take(i + 1).map_values(g) =~= s.take(i as int).map_values(g).push(
                g(s[i as int]),
            ));
            i = i + 1;
        }
        assert(s.take(i as int) =~= s);
        assert(s.skip(i as int).len() == 0);
        Ok(out)
    }

    /// Pin manifests and attest required capabilities against the metadata of selected tools, given
    /// what looking up the components gave and what restoring the plan reported. Instruction bodies
    /// and supporting bytes are not loaded.
    pub fn plan(
        &self,
        profile: &ResolvedProfile,
        tools: &Vec<PromptToolBinding>,
        resolutions: &Vec<Resolution>,
        restored: &Option<ContractError>,
    ) -> (r: Result<SkillPlan, ContractError>)
        ensures
            failure(r) == plan_fault(
                self@,
                profile@,
                tools.deep_view(),
                resolutions.deep_view(),
                restored.deep_view(),
            ),
            r matches Ok(plan) ==> plan@ == plan_of(self@, profile@, resolutions.deep_view()),
    {
        if !profile.scope().same(&self.scope) {
            return fail(ErrorCode::AccessDenied, "skills.scope");
        }
        let same = |tool: &PromptToolBinding| -> (b: bool)
            ensures
                b == binds_tool(self@.loader)(tool@),
        { tool.selection.same(&self.loader) };
        match find(tools, same, Ghost(binds_tool(self@.loader))) {
            None => {
                return fail(ErrorCode::ComponentUnavailable, "skills.loader_missing");
            },
            Some(tool) => {
                if !tool.compiled_digest.same(&self.digest) {
                    return fail(ErrorCode::ContextMismatch, "skills.loader_contract");
                }
            },
        }
        let metadata = gather(profile, resolutions)?;
        let capabilities = tool_capabilities(profile, &metadata)?;
        let skills = self.pin_skills(profile, resolutions, &capabilities)?;
        verdict(restored)?;
        Ok(
            SkillPlan {
                schema_version: "wickle.skill-plan.v1".to_owned(),
                scope: self.scope.copy(),
                skills,
                loader: self.loader.copy(),
                loader_descriptor_digest: self.descriptor_digest.copy(),
                tool_capabilities: capabilities,
                tool_metadata: metadata,
                limits: self.limits.copy(),
                defect: None,
            },
        )
    }

    /// Check that a plan pins skills of this runtime.
    pub fn validate_current(&self, plan: &SkillPlan) -> (r: Result<(), ContractError>)
        ensures
            failure(r) == current_fault(self@, plan@),
    {
        let absent = |entry: &PlannedSkill| -> (b: bool)
            ensures
                b == unregistered(self@.definitions)(entry@),
        { !contains(&self.definitions, &entry.definition) };
        if !plan.scope.same(&self.scope) || !plan.loader.same(&self.loader)
            || !plan.loader_descriptor_digest.same(&self.descriptor_digest) || !plan.limits.same(
            &self.limits,
        ) || any(&plan.skills, absent, Ghost(unregistered(self@.definitions))) {
            return fail(ErrorCode::ContextMismatch, "skills.pinned_definitions");
        }
        Ok(())
    }

    /// The record of a run's plan, to be read from its store.
    pub fn plan_reference(&self, snapshot: &RunSnapshot) -> (r: Result<RecordRef, ContractError>)
        ensures
            failure(r) == plan_reference_fault(self@, snapshot@),
            r matches Ok(reference) ==> snapshot@.skill_plan_ref == Some(reference@),
    {
        if !snapshot.scope.same(&self.scope) {
            return fail(ErrorCode::AccessDenied, "skills.scope");
        }
        match &snapshot.skill_plan_ref {
            Some(reference) => Ok(reference.copy()),
            None => fail(ErrorCode::InvalidSnapshot, "skills.plan_missing"),
        }
    }

    /// Restore a run's plan from the record that was read for its reference.
    pub fn saved_plan(&self, reference: &RecordRef, record: &ProtectedRecord) -> (r: Result<
        SkillPlan,
        ContractError,
    >)
        ensures
            failure(r) == saved_plan_fault(self@, reference@, record@),
            r matches Ok(plan) ==> skill_plan_in(record@) == Some(plan@),
    {
        if !record.reference().same(reference) {
            return fail(ErrorCode::InvalidSnapshot, "skills.plan_reference");
        }
        let plan = restore_plan(record)?;
        self.validate_current(plan)?;
        Ok(plan.copy())
    }

    /// Check that an execution belongs to the scope of the skills.
    pub fn check_scope(&self, scope: &Scope) -> (r: Result<(), ContractError>)
        ensures
            failure(r) == (if scope@ != self@.scope {
                fault(ErrorCode::AccessDenied, "skills.scope")
            } else {
                None
            }),
    {
        if !scope.same(&self.scope) {
            return fail(ErrorCode::AccessDenied, "skills.scope");
        }
        Ok(())
    }

    /// What a policy is asked before a skill is read.
    pub fn read_request(&self, definition: &SkillDefinition, route: Option<ResolvedModelRoute>) -> (r:
        SkillReadRequest)
        ensures
            r@ == (SkillReadRequestView {
                owner_scope: self@.scope,
                resource_id: definition@.skill.id,
                skill: definition@.skill,
                manifest_digest: definition@.digest,
                route: route.deep_view(),
            }),
    {
        SkillReadRequest {
            owner_scope: self.scope.copy(),
            resource_id: definition.skill.id.copy(),
            skill: definition.skill.copy(),
            manifest_digest: definition.digest.copy(),
            route,
        }
    }

    /// Check that supporting assets can be looked at.
    pub fn check_assets(&self, assets: &Vec<ArtifactRef>) -> (r: Result<(), ContractError>)
        ensures
            failure(r) == (if assets@.len() > 0 && !self@.has_artifacts {
                fault(ErrorCode::ComponentUnavailable, "skills.artifacts")
            } else {
                None
            }),
    {
        if assets.len() > 0 && !self.has_artifacts {
            return fail(ErrorCode::ComponentUnavailable, "skills.artifacts");
        }
        Ok(())
    }

    /// Decide whether a chosen skill is handed out again or fetched, given the earlier loads of the
    /// run.
    pub fn next_load(
        &self,
        selected: &PlannedSkill,
        priors: &Vec<LoadedSkill>,
        call: &SkillCall,
    ) -> (r: Result<LoadStep, ContractError>)
        ensures
            failure(r) == load_step_fault(self@.limits, selected@, priors.deep_view()),
            r matches Ok(step) ==> step@ == load_step(selected@, priors.deep_view(), call@),
    {
        let same = |prior: &LoadedSkill| -> (b: bool)
            ensures
                b == of_selection(selected@.selection)(prior@),
        { prior.selection.same(&selected.selection) };
        if let Some(prior) = find_last(priors, same, Ghost(of_selection(selected@.selection))) {
            let mut loaded = prior.copy();
            loaded.call_id = call.call_id.copy();
            return Ok(LoadStep::Reuse { loaded });
        }
        let budget: u64 = self.limits.max_total_body_bytes;
        if budget < u64::MAX {
            let size: u64 = selected.definition.body_bytes;
            if size > budget || bodies_exceed(&keep_first(priors), budget - size) {
                return fail(ErrorCode::ContextBudgetExceeded, "skills.total_body");
            }
        }
        Ok(LoadStep::Fetch)
    }

    /// Record a skill that a resolver handed over.
    pub fn record_load(&self, selected: &PlannedSkill, call: &SkillCall, fetched: FetchedSkill) -> (r:
        Result<LoadedSkill, ContractError>)
        ensures
            failure(r) == fetched@.defect,
            r matches Ok(loaded) ==> loaded@ == load_record(
                self@.scope,
                selected@,
                call@,
                fetched@,
            ),
    {
        verdict(&fetched.defect)?;
        Ok(
            LoadedSkill {
                schema_version: "wickle.loaded-skill.v1".to_owned(),
                scope: self.scope.copy(),
                run_id: call.run_id.copy(),
                call_id: call.call_id.copy(),
                selection: selected.selection.copy(),
                definition_digest: selected.definition.digest.copy(),
                body: fetched.body,
                assets: selected.definition.assets.copy(),
                summary: fetched.summary,
                context_item: fetched.context_item,
                item_defect: fetched.item_defect,
                defect: fetched.defect,
            },
        )
    }
}

/// A plan pins exactly the skills that its profile selects, in their order.
pub proof fn law_plan_covers_the_profile(
    runtime: SkillRuntimeView,
    profile: ResolvedProfileView,
    resolutions: Seq<ResolutionView>,
    i: int,
)
    requires
        0 <= i < profile.profile.skills.len(),
    ensures
        plan_of(runtime, profile, resolutions).skills.len() == profile.profile.skills.len(),
        plan_of(runtime, profile, resolutions).skills[i].selection == profile.profile.skills[i],
{
}

/// A plan that was just made is one of the current skills.
pub proof fn law_new_plans_are_current(
    runtime: SkillRuntimeView,
    profile: ResolvedProfileView,
    tools: Seq<PromptToolBindingView>,
    resolutions: Seq<ResolutionView>,
)
    requires
        plan_fault(runtime, profile, tools, resolutions, None) is None,
    ensures
        current_fault(runtime, plan_of(runtime, profile, resolutions)) is None,
{
    let plan = plan_of(runtime, profile, resolutions);
    let metadata = gathered(profile.profile, profile.profile.tools, resolutions);
    let capabilities = all_capabilities(profile.profile, metadata, profile.profile.tools);
    let f = skill_fault(runtime, profile, resolutions, capabilities);
    let s = profile.profile.skills;
    assert(first_fault(s, f) is None);
    lemma_first_fault(s, f);
    let p = unregistered(runtime.definitions);
    assert forall|i: int| 0 <= i < plan.skills.len() implies !p(#[trigger] plan.skills[i]) by {
        assert(f(s[i]) is None);
        let q = defines_skill(selected_skill(s[i]));
        lemma_first_in(runtime.definitions, q);
    }
}

/// A skill that a run has loaded is never fetched again: no budget refuses it, and the same body is
/// handed out under the new call.
pub proof fn law_loaded_skills_are_not_fetched_again(
    limits: SkillLimitsView,
    selected: PlannedSkillView,
    priors: Seq<LoadedSkillView>,
    call: SkillCallView,
    i: int,
)
    requires
        0 <= i < priors.len(),
        priors[i].selection == selected.selection,
    ensures
        load_step_fault(limits, selected, priors) is None,
        load_step(selected, priors, call) is Reuse,
        load_step(selected, priors, call)->loaded.call_id == call.call_id,
        load_step(selected, priors, call)->loaded.selection == selected.selection,
    decreases priors.len(),
{
    if priors.last().selection != selected.selection {
        law_loaded_skills_are_not_fetched_again(limits, selected, priors.drop_last(), call, i);
    }
}

/// Where the loads of a run may stand in a context, the first bodies of its skills take no more bytes
/// together than the plan allows.
pub proof fn law_distinct_bodies_stay_in_budget(
    plan: SkillPlanView,
    snapshot: RunSnapshotView,
    records: Seq<ProtectedRecordView>,
)
    requires
        context_fault(plan, snapshot, records) is None,
    ensures
        total_bytes(first_loads(held_loads(snapshot.tool_ledger, records)))
            <= plan.limits.max_total_body_bytes,
{
}

/// A skill is loaded only by the execution that is making just this call of the pinned loader, with
/// the arguments that the call was bound to.
pub proof fn law_only_the_loader_call_loads(
    plan: SkillPlanView,
    snapshot: RunSnapshotView,
    call: SkillCallView,
)
    requires
        call_fault(plan, snapshot, call) is None,
    ensures
        exists|i: int|
            0 <= i < snapshot.tool_ledger.len() && (
            #[trigger] snapshot.tool_ledger[i]).call.call_id == call.call_id
                && snapshot.tool_ledger[i].call.descriptor_digest == Some(
                plan.loader_descriptor_digest,
            ) && snapshot.tool_ledger[i].call.bound_input_ref is Some
                && snapshot.tool_ledger[i].state == (ToolCallStateView::Dispatching {
                attempt_id: call.attempt_id,
                idempotency_key: call.idempotency_key,
            }),
{
    let p = of_call(call.call_id);
    lemma_first_in(snapshot.tool_ledger, p);
    let entry = first_in(snapshot.tool_ledger, p)->Some_0;
    let i = choose|i: int| 0 <= i < snapshot.tool_ledger.len() && snapshot.tool_ledger[i] == entry;
    assert(snapshot.tool_ledger[i].call.call_id == call.call_id);
}

/// What may be chosen is a skill of the plan, by its identifier and its version, and nothing else.
pub proof fn law_only_planned_skills_are_chosen(
    plan: SkillPlanView,
    bound: Seq<MemberView>,
    arguments: Seq<MemberView>,
)
    ensures
        choice_fault(plan, bound, arguments) is None <==> bound == arguments && exists|i: int|
            0 <= i < plan.skills.len() && value_of(arguments, "skill_id"@) == Some(
                JsonView::Text((#[trigger] plan.skills[i]).selection.skill_id),
            ) && value_of(arguments, "version"@) == Some(
                JsonView::Text(plan.skills[i].selection.version),
            ),
        bound != arguments ==> choice_fault(plan, bound, arguments)->Some_0.code
            == ErrorCode::AccessDenied,
{
    let p = asked_for(arguments);
    if some_in(plan.skills, p) {
        let i = choose|i: int| 0 <= i < plan.skills.len() && p(#[trigger] plan.skills[i]);
        assert(value_of(arguments, "skill_id"@) == Some(
            JsonView::Text(plan.skills[i].selection.skill_id),
        ));
    }
    if exists|i: int|
        0 <= i < plan.skills.len() && value_of(arguments, "skill_id"@) == Some(
            JsonView::Text((#[trigger] plan.skills[i]).selection.skill_id),
        ) && value_of(arguments, "version"@) == Some(
            JsonView::Text(plan.skills[i].selection.version),
        ) {
        let i = choose|i: int|
            0 <= i < plan.skills.len() && value_of(arguments, "skill_id"@) == Some(
                JsonView::Text((#[trigger] plan.skills[i]).selection.skill_id),
            ) && value_of(arguments, "version"@) == Some(
                JsonView::Text(plan.skills[i].selection.version),
            );
        assert(p(plan.skills[i]));
    }
}

/// A skill that a run has not loaded is fetched exactly where it fits beside the bodies that the run
/// holds, each counted once; the largest budget admits every body.
pub proof fn law_new_skills_fit_the_budget(
    limits: SkillLimitsView,
    selected: PlannedSkillView,
    priors: Seq<LoadedSkillView>,
    call: SkillCallView,
)
    requires
        forall|i: int|
            0 <= i < priors.len() ==> (#[trigger] priors[i]).selection != selected.selection,
    ensures
        load_step(selected, priors, call) is Fetch,
        load_step_fault(limits, selected, priors) is None <==> limits.max_total_body_bytes
            == u64::MAX || total_bytes(first_loads(priors)) + selected.definition.body_bytes
            <= limits.max_total_body_bytes,
{
    lemma_never_loaded(priors, selected);
}

proof fn lemma_never_loaded(priors: Seq<LoadedSkillView>, selected: PlannedSkillView)
    requires
        forall|i: int|
            0 <= i < priors.len() ==> (#[trigger] priors[i]).selection != selected.selection,
    ensures
        cached_load(priors, selected) is None,
    decreases priors.len(),
{
    if priors.len() > 0 {
        assert(priors[priors.len() - 1].selection != selected.selection);
        assert forall|i: int| 0 <= i < priors.drop_last().len() implies (
        #[trigger] priors.drop_last()[i]).selection != selected.selection by {
            assert(priors.drop_last()[i] == priors[i]);
        }
        lemma_never_loaded(priors.drop_last(), selected);
    }
}

/// Each skill is counted once: the first loads hold one body of every skill that was loaded, and no
/// two of the same.
pub proof fn law_loads_are_counted_once(bodies: Seq<LoadedSkillView>)
    ensures
        forall|a: int, b: int|
            0 <= a < b < first_loads(bodies).len() ==> (
            #[trigger] first_loads(bodies)[a]).selection != (
            #[trigger] first_loads(bodies)[b]).selection,
        forall|i: int|
            0 <= i < bodies.len() ==> some_in(
                first_loads(bodies),
                of_selection((#[trigger] bodies[i]).selection),
            ),
        total_bytes(first_loads(bodies)) <= total_bytes(bodies),
    decreases bodies.len(),
{
    if bodies.len() > 0 {
        let front = bodies.drop_last();
        let last = bodies.last();
        let earlier = first_loads(front);
        let all = first_loads(bodies);
        let p = of_selection(last.selection);
        law_loads_are_counted_once(front);
        if some_in(earlier, p) {
            assert forall|i: int| 0 <= i < bodies.len() implies some_in(
                all,
                of_selection((#[trigger] bodies[i]).selection),
            ) by {
                if i < front.len() {
                    assert(front[i] == bodies[i]);
                }
            }
        } else {
            assert(all.drop_last() =~= earlier);
            assert forall|a: int, b: int| 0 <= a < b < all.len() implies (
            #[trigger] all[a]).selection != (#[trigger] all[b]).selection by {
                if b == earlier.len() {
                    assert(!p(earlier[a]));
                } else {
                    assert(earlier[a].selection != earlier[b].selection);
                }
            }
            assert forall|i: int| 0 <= i < bodies.len() implies some_in(
                all,
                of_selection((#[trigger] bodies[i]).selection),
            ) by {
                let q = of_selection(bodies[i].selection);
                if i < front.len() {
                    assert(front[i] == bodies[i]);
                    assert(some_in(earlier, q));
                    let k = choose|k: int| 0 <= k < earlier.len() && q(#[trigger] earlier[k]);
                    assert(q(all[k]));
                } else {
                    assert(q(all[earlier.len() as int]));
                }
            }
        }
    }
}

/// A load says what it was made of: the selection and definition that the plan pins and the body that
/// was fetched, under the run and the call that asked for it.
pub proof fn law_loads_record_their_call(
    scope: ScopeView,
    selected: PlannedSkillView,
    call: SkillCallView,
    fetched: FetchedSkillView,
)
    ensures
        ({
            let load = load_record(scope, selected, call, fetched);
            &&& load.scope == scope
            &&& load.run_id == call.run_id
            &&& load.call_id == call.call_id
            &&& load.selection == selected.selection
            &&& load.definition_digest == selected.definition.digest
            &&& load.assets == selected.definition.assets
            &&& load.body == fetched.body
        }),
{
}

/// A cancellation goes before a passed deadline, and both before whatever the operation reported; an
/// operation that was neither and is done reports nothing.
pub proof fn law_cancellations_go_first(end: OperationEndView, cancelled: bool, expired: bool)
    ensures
        cancelled ==> operation_code(end, cancelled, expired) == Some(ErrorCode::Cancelled),
        !cancelled && expired ==> operation_code(end, cancelled, expired) == Some(
            ErrorCode::DeadlineExceeded,
        ),
        operation_code(end, cancelled, expired) is None <==> !cancelled && !expired && end is Done,
        end matches OperationEndView::Failed { error } ==> operation_code(end, false, false) == Some(
            error.code,
        ),
{
}

/// Loading a skill only reads: the loader has no effect, is never called again by itself, runs alone, and
/// takes the skill and its version and nothing else.
pub proof fn law_the_loader_only_reads(limits: SkillLimitsView)
    ensures
        descriptor_of(limits).side_effect == ToolSideEffect::ReadOnly,
        descriptor_of(limits).retry == ToolRetryPolicy::Never,
        descriptor_of(limits).concurrency == ToolConcurrency::Serial,
        !descriptor_of(limits).reconcile,
        descriptor_of(limits).agent_parameters.len() == 2,
        descriptor_of(limits).tool == loader_identity(),
        output_limit_fault(limits) is None ==> descriptor_of(limits).max_output_bytes
            == output_bytes(limits),
{
}

/// What is said of a skill is attested by the profile: one of its components is that very definition.
pub proof fn law_attested_skills_are_pinned(
    profile: ResolvedProfileView,
    metadata: ComponentMetadataView,
)
    ensures
        attest_fault(profile, metadata) is None <==> exists|i: int|
            0 <= i < profile.components.len() && (#[trigger] profile.components[i]).reference
                == metadata.reference && profile.components[i].definition_digest == digest_of(
                component_json(metadata),
            ),
{
    let p = pins(metadata);
    if some_in(profile.components, p) {
        let i = choose|i: int|
            0 <= i < profile.components.len() && p(#[trigger] profile.components[i]);
        assert(profile.components[i].reference == metadata.reference);
    } else {
        assert forall|i: int| 0 <= i < profile.components.len() implies !((
        #[trigger] profile.components[i]).reference == metadata.reference
            && profile.components[i].definition_digest == digest_of(component_json(metadata))) by {
            assert(!p(profile.components[i]));
        }
    }
}

/// Registered skills are sound, defined once each, few enough, and have assets only where there is a
/// store for them.
pub proof fn law_registered_skills_are_distinct(
    has_artifacts: bool,
    definitions: Seq<SkillDefinitionView>,
    loader: ToolBindingRefView,
    limits: SkillLimitsView,
    compiled: LoaderCompilationView,
)
    requires
        registry_fault(has_artifacts, definitions, loader, limits, compiled) is None,
    ensures
        definitions.len() <= 64,
        limits.defect is None,
        forall|i: int|
            0 <= i < definitions.len() ==> (#[trigger] definitions[i]).defect is None && (
            definitions[i].assets.len() > 0 ==> has_artifacts),
        forall|i: int, j: int|
            0 <= i < j < definitions.len() ==> (#[trigger] definitions[i]).skill != (
            #[trigger] definitions[j]).skill,
{
    let f = definition_fault(definitions, has_artifacts);
    crate::data::lemma_first_index_fault(0, definitions.len() as int, f);
    assert forall|i: int| 0 <= i < definitions.len() implies (
    #[trigger] definitions[i]).defect is None && (definitions[i].assets.len() > 0
        ==> has_artifacts) by {
        assert(f(i) is None);
    }
    assert forall|i: int, j: int| 0 <= i < j < definitions.len() implies (
    #[trigger] definitions[i]).skill != (#[trigger] definitions[j]).skill by {
        assert(f(j) is None);
        assert(definitions.take(j)[i] == definitions[i]);
        assert(!defines_skill(definitions[j].skill)(definitions.take(j)[i]));
    }
}

} // verus!
