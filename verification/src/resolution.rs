//! Resolution of a profile's components against exact registered metadata.
use vstd::prelude::*;

use crate::data::{any_before, check_indices, map_each, Data};
#[allow(unused_imports)]
use crate::data::{first_index_fault, some_in};
use crate::encoding::{encode_scope, no_members, number, with_member, with_some};
#[allow(unused_imports)]
use crate::encoding::{scope_json, some_member};
use crate::error::{fail, verdict, ContractError, ErrorCode};
#[allow(unused_imports)]
use crate::error::{failure, fault, Fault};
use crate::hook::{encode_position, HookPosition};
#[allow(unused_imports)]
use crate::hook::position_json;
use crate::json::{array, text, Json};
#[allow(unused_imports)]
use crate::json::{JsonView, MemberView};
use crate::profile::AgentProfile;
#[allow(unused_imports)]
use crate::profile::AgentProfileView;
use crate::refs::Scope;
#[allow(unused_imports)]
use crate::refs::ScopeView;
use crate::serialization::{canonical_digest, Id, JsonDigest};
#[allow(unused_imports)]
use crate::serialization::digest_of;
#[allow(unused_imports)]
use crate::text::decimal_text;

pub mod configuration;
pub mod validator;

verus! {

/// The kind of a component.
#[derive(Debug, Clone, Copy, PartialEq, Eq, Structural)]
pub enum ComponentKind {
    ModelBinding,
    Tool,
    Skill,
    Connector,
    Adapter,
    ContextSource,
    Hook,
    ContextStrategy,
    Verifier,
    InstructionAsset,
    OutputSchema,
    Extension,
}

impl View for ComponentKind {
    type V = ComponentKind;

    open spec fn view(&self) -> ComponentKind {
        *self
    }
}

impl DeepView for ComponentKind {
    type V = ComponentKind;

    open spec fn deep_view(&self) -> ComponentKind {
        *self
    }
}

impl Data for ComponentKind {
    fn same(&self, other: &Self) -> (r: bool) {
        *self == *other
    }

    fn copy(&self) -> (r: Self) {
        *self
    }
}

/// Identity of a component; a request without a version asks for the registered one.
#[derive(Debug)]
pub struct ComponentRef {
    pub kind: ComponentKind,
    pub id: Id,
    pub version: Option<Id>,
}

#[verifier::ext_equal]
pub struct ComponentRefView {
    pub kind: ComponentKind,
    pub id: Seq<char>,
    pub version: Option<Seq<char>>,
}

impl View for ComponentRef {
    type V = ComponentRefView;

    open spec fn view(&self) -> ComponentRefView {
        ComponentRefView {
            kind: self.kind.deep_view(),
            id: self.id.deep_view(),
            version: self.version.deep_view(),
        }
    }
}

impl DeepView for ComponentRef {
    type V = ComponentRefView;

    open spec fn deep_view(&self) -> ComponentRefView {
        self@
    }
}

impl Data for ComponentRef {
    fn same(&self, other: &Self) -> (r: bool) {
        self.kind.same(&other.kind)
            && self.id.same(&other.id)
            && self.version.same(&other.version)
    }

    fn copy(&self) -> (r: Self) {
        ComponentRef {
            kind: self.kind.copy(),
            id: self.id.copy(),
            version: self.version.copy(),
        }
    }
}

/// The kind of an export.
#[derive(Debug, Clone, Copy, PartialEq, Eq, Structural)]
pub enum ExportKind {
    Tool,
    ContextSource,
    Hook,
    EventConsumer,
}

impl View for ExportKind {
    type V = ExportKind;

    open spec fn view(&self) -> ExportKind {
        *self
    }
}

impl DeepView for ExportKind {
    type V = ExportKind;

    open spec fn deep_view(&self) -> ExportKind {
        *self
    }
}

impl Data for ExportKind {
    fn same(&self, other: &Self) -> (r: bool) {
        *self == *other
    }

    fn copy(&self) -> (r: Self) {
        *self
    }
}

/// One export of an adapter.
#[derive(Debug)]
pub struct ExportMetadata {
    pub export_id: Id,
    pub kind: ExportKind,
    pub contract_version: u32,
    pub model_name: Option<Id>,
    pub hook_position: Option<HookPosition>,
    pub capabilities: Vec<Id>,
    pub required_capabilities: Vec<Id>,
}

#[verifier::ext_equal]
pub struct ExportMetadataView {
    pub export_id: Seq<char>,
    pub kind: ExportKind,
    pub contract_version: u32,
    pub model_name: Option<Seq<char>>,
    pub hook_position: Option<HookPosition>,
    pub capabilities: Seq<Seq<char>>,
    pub required_capabilities: Seq<Seq<char>>,
}

impl View for ExportMetadata {
    type V = ExportMetadataView;

    open spec fn view(&self) -> ExportMetadataView {
        ExportMetadataView {
            export_id: self.export_id.deep_view(),
            kind: self.kind.deep_view(),
            contract_version: self.contract_version.deep_view(),
            model_name: self.model_name.deep_view(),
            hook_position: self.hook_position.deep_view(),
            capabilities: self.capabilities.deep_view(),
            required_capabilities: self.required_capabilities.deep_view(),
        }
    }
}

impl DeepView for ExportMetadata {
    type V = ExportMetadataView;

    open spec fn deep_view(&self) -> ExportMetadataView {
        self@
    }
}

impl Data for ExportMetadata {
    fn same(&self, other: &Self) -> (r: bool) {
        self.export_id.same(&other.export_id)
            && self.kind.same(&other.kind)
            && self.contract_version.same(&other.contract_version)
            && self.model_name.same(&other.model_name)
            && self.hook_position.same(&other.hook_position)
            && self.capabilities.same(&other.capabilities)
            && self.required_capabilities.same(&other.required_capabilities)
    }

    fn copy(&self) -> (r: Self) {
        ExportMetadata {
            export_id: self.export_id.copy(),
            kind: self.kind.copy(),
            contract_version: self.contract_version.copy(),
            model_name: self.model_name.copy(),
            hook_position: self.hook_position.copy(),
            capabilities: self.capabilities.copy(),
            required_capabilities: self.required_capabilities.copy(),
        }
    }
}

/// Registered metadata of a component.
#[derive(Debug)]
pub struct ComponentMetadata {
    pub reference: ComponentRef,
    pub contract_version: u32,
    pub manifest_digest: JsonDigest,
    pub config_schema: Json,
    pub dependencies: Vec<ComponentRef>,
    pub capabilities: Vec<Id>,
    pub required_capabilities: Vec<Id>,
    pub required_connections: Vec<Id>,
    pub model_name: Option<Id>,
    pub hook_position: Option<HookPosition>,
    pub exports: Vec<ExportMetadata>,
}

#[verifier::ext_equal]
pub struct ComponentMetadataView {
    pub reference: ComponentRefView,
    pub contract_version: u32,
    pub manifest_digest: Seq<char>,
    pub config_schema: JsonView,
    pub dependencies: Seq<ComponentRefView>,
    pub capabilities: Seq<Seq<char>>,
    pub required_capabilities: Seq<Seq<char>>,
    pub required_connections: Seq<Seq<char>>,
    pub model_name: Option<Seq<char>>,
    pub hook_position: Option<HookPosition>,
    pub exports: Seq<ExportMetadataView>,
}

impl View for ComponentMetadata {
    type V = ComponentMetadataView;

    open spec fn view(&self) -> ComponentMetadataView {
        ComponentMetadataView {
            reference: self.reference.deep_view(),
            contract_version: self.contract_version.deep_view(),
            manifest_digest: self.manifest_digest.deep_view(),
            config_schema: self.config_schema.deep_view(),
            dependencies: self.dependencies.deep_view(),
            capabilities: self.capabilities.deep_view(),
            required_capabilities: self.required_capabilities.deep_view(),
            required_connections: self.required_connections.deep_view(),
            model_name: self.model_name.deep_view(),
            hook_position: self.hook_position.deep_view(),
            exports: self.exports.deep_view(),
        }
    }
}

impl DeepView for ComponentMetadata {
    type V = ComponentMetadataView;

    open spec fn deep_view(&self) -> ComponentMetadataView {
        self@
    }
}

impl Data for ComponentMetadata {
    fn same(&self, other: &Self) -> (r: bool) {
        self.reference.same(&other.reference)
            && self.contract_version.same(&other.contract_version)
            && self.manifest_digest.same(&other.manifest_digest)
            && self.config_schema.same(&other.config_schema)
            && self.dependencies.same(&other.dependencies)
            && self.capabilities.same(&other.capabilities)
            && self.required_capabilities.same(&other.required_capabilities)
            && self.required_connections.same(&other.required_connections)
            && self.model_name.same(&other.model_name)
            && self.hook_position.same(&other.hook_position)
            && self.exports.same(&other.exports)
    }

    fn copy(&self) -> (r: Self) {
        ComponentMetadata {
            reference: self.reference.copy(),
            contract_version: self.contract_version.copy(),
            manifest_digest: self.manifest_digest.copy(),
            config_schema: self.config_schema.copy(),
            dependencies: self.dependencies.copy(),
            capabilities: self.capabilities.copy(),
            required_capabilities: self.required_capabilities.copy(),
            required_connections: self.required_connections.copy(),
            model_name: self.model_name.copy(),
            hook_position: self.hook_position.copy(),
            exports: self.exports.copy(),
        }
    }
}

/// A component pinned to its definition.
#[derive(Debug)]
pub struct ResolvedComponent {
    pub reference: ComponentRef,
    pub definition_digest: JsonDigest,
}

#[verifier::ext_equal]
pub struct ResolvedComponentView {
    pub reference: ComponentRefView,
    pub definition_digest: Seq<char>,
}

impl View for ResolvedComponent {
    type V = ResolvedComponentView;

    open spec fn view(&self) -> ResolvedComponentView {
        ResolvedComponentView {
            reference: self.reference.deep_view(),
            definition_digest: self.definition_digest.deep_view(),
        }
    }
}

impl DeepView for ResolvedComponent {
    type V = ResolvedComponentView;

    open spec fn deep_view(&self) -> ResolvedComponentView {
        self@
    }
}

impl Data for ResolvedComponent {
    fn same(&self, other: &Self) -> (r: bool) {
        self.reference.same(&other.reference)
            && self.definition_digest.same(&other.definition_digest)
    }

    fn copy(&self) -> (r: Self) {
        ResolvedComponent {
            reference: self.reference.copy(),
            definition_digest: self.definition_digest.copy(),
        }
    }
}

/// A profile whose components are pinned.
#[derive(Debug)]
pub struct ResolvedProfile {
    profile: AgentProfile,
    scope: Scope,
    profile_digest: JsonDigest,
    components: Vec<ResolvedComponent>,
    resolution_digest: JsonDigest,
}

#[verifier::ext_equal]
pub struct ResolvedProfileView {
    pub profile: AgentProfileView,
    pub scope: ScopeView,
    pub profile_digest: Seq<char>,
    pub components: Seq<ResolvedComponentView>,
    pub resolution_digest: Seq<char>,
}

impl View for ResolvedProfile {
    type V = ResolvedProfileView;

    closed spec fn view(&self) -> ResolvedProfileView {
        ResolvedProfileView {
            profile: self.profile.deep_view(),
            scope: self.scope.deep_view(),
            profile_digest: self.profile_digest.deep_view(),
            components: self.components.deep_view(),
            resolution_digest: self.resolution_digest.deep_view(),
        }
    }
}

impl DeepView for ResolvedProfile {
    type V = ResolvedProfileView;

    open spec fn deep_view(&self) -> ResolvedProfileView {
        self@
    }
}

impl Data for ResolvedProfile {
    fn same(&self, other: &Self) -> (r: bool) {
        self.profile.same(&other.profile)
            && self.scope.same(&other.scope)
            && self.profile_digest.same(&other.profile_digest)
            && self.components.same(&other.components)
            && self.resolution_digest.same(&other.resolution_digest)
    }

    fn copy(&self) -> (r: Self) {
        ResolvedProfile {
            profile: self.profile.copy(),
            scope: self.scope.copy(),
            profile_digest: self.profile_digest.copy(),
            components: self.components.copy(),
            resolution_digest: self.resolution_digest.copy(),
        }
    }
}


/// The encoded kind of a component.
pub open spec fn component_kind_json(v: ComponentKind) -> JsonView {
    match v {
        ComponentKind::ModelBinding => JsonView::Text("model_binding"@),
        ComponentKind::Tool => JsonView::Text("tool"@),
        ComponentKind::Skill => JsonView::Text("skill"@),
        ComponentKind::Connector => JsonView::Text("connector"@),
        ComponentKind::Adapter => JsonView::Text("adapter"@),
        ComponentKind::ContextSource => JsonView::Text("context_source"@),
        ComponentKind::Hook => JsonView::Text("hook"@),
        ComponentKind::ContextStrategy => JsonView::Text("context_strategy"@),
        ComponentKind::Verifier => JsonView::Text("verifier"@),
        ComponentKind::InstructionAsset => JsonView::Text("instruction_asset"@),
        ComponentKind::OutputSchema => JsonView::Text("output_schema"@),
        ComponentKind::Extension => JsonView::Text("extension"@),
    }
}

/// Encode the kind of a component.
pub fn encode_component_kind(v: &ComponentKind) -> (r: Json)
    ensures
        r@ == component_kind_json(*v),
{
    match v {
        ComponentKind::ModelBinding => crate::json::text("model_binding"),
        ComponentKind::Tool => crate::json::text("tool"),
        ComponentKind::Skill => crate::json::text("skill"),
        ComponentKind::Connector => crate::json::text("connector"),
        ComponentKind::Adapter => crate::json::text("adapter"),
        ComponentKind::ContextSource => crate::json::text("context_source"),
        ComponentKind::Hook => crate::json::text("hook"),
        ComponentKind::ContextStrategy => crate::json::text("context_strategy"),
        ComponentKind::Verifier => crate::json::text("verifier"),
        ComponentKind::InstructionAsset => crate::json::text("instruction_asset"),
        ComponentKind::OutputSchema => crate::json::text("output_schema"),
        ComponentKind::Extension => crate::json::text("extension"),
    }
}

/// The encoded kind of an export.
pub open spec fn export_kind_json(v: ExportKind) -> JsonView {
    match v {
        ExportKind::Tool => JsonView::Text("tool"@),
        ExportKind::ContextSource => JsonView::Text("context_source"@),
        ExportKind::Hook => JsonView::Text("hook"@),
        ExportKind::EventConsumer => JsonView::Text("event_consumer"@),
    }
}

/// Encode the kind of an export.
pub fn encode_export_kind(v: &ExportKind) -> (r: Json)
    ensures
        r@ == export_kind_json(*v),
{
    match v {
        ExportKind::Tool => crate::json::text("tool"),
        ExportKind::ContextSource => crate::json::text("context_source"),
        ExportKind::Hook => crate::json::text("hook"),
        ExportKind::EventConsumer => crate::json::text("event_consumer"),
    }
}

/// The encoded reference of a component.
pub open spec fn component_ref_json(v: ComponentRefView) -> JsonView {
    JsonView::Object((Seq::<MemberView>::empty()
.push(MemberView { key: "id"@, value: JsonView::Text(v.id) })
.push(MemberView { key: "kind"@, value: component_kind_json(v.kind) })
+ some_member("version"@, match v.version { Some(x) => Some(JsonView::Text(x)), None => None })))
}

/// Encode the reference of a component.
pub fn encode_component_ref(v: &ComponentRef) -> (r: Json)
    ensures
        r@ == component_ref_json(v@),
{
    let members = no_members();
    let members = with_member(members, "id", crate::json::text(v.id.as_str()));
    let members = with_member(members, "kind", encode_component_kind(&v.kind));
    let members = with_some(members, "version", match &v.version { Some(x) => Some(crate::json::text(x.as_str())), None => None });
    crate::json::object(members)
}

/// The encoded export.
pub open spec fn export_json(v: ExportMetadataView) -> JsonView {
    JsonView::Object(((Seq::<MemberView>::empty()
.push(MemberView { key: "capabilities"@, value: JsonView::Array(v.capabilities.map_values(|x: Seq<char>| JsonView::Text(x))) })
.push(MemberView { key: "contract_version"@, value: JsonView::Number(decimal_text(v.contract_version as nat)) })
.push(MemberView { key: "export_id"@, value: JsonView::Text(v.export_id) })
+ some_member("hook_position"@, match v.hook_position { Some(x) => Some(position_json(x)), None => None }))
.push(MemberView { key: "kind"@, value: export_kind_json(v.kind) })
+ some_member("model_name"@, match v.model_name { Some(x) => Some(JsonView::Text(x)), None => None }))
.push(MemberView { key: "required_capabilities"@, value: JsonView::Array(v.required_capabilities.map_values(|x: Seq<char>| JsonView::Text(x))) }))
}

/// Encode the export.
pub fn encode_export(v: &ExportMetadata) -> (r: Json)
    ensures
        r@ == export_json(v@),
{
    let f0 = |x: &Id| -> (r: Json)
        ensures
            r@ == JsonView::Text(x@),
    { crate::json::text(x.as_str()) };
    let f6 = |x: &Id| -> (r: Json)
        ensures
            r@ == JsonView::Text(x@),
    { crate::json::text(x.as_str()) };
    let members = no_members();
    let members = with_member(members, "capabilities", crate::json::array(map_each(&v.capabilities, f0, Ghost(|x: Seq<char>| JsonView::Text(x)))));
    let members = with_member(members, "contract_version", number(v.contract_version as u64));
    let members = with_member(members, "export_id", crate::json::text(v.export_id.as_str()));
    let members = with_some(members, "hook_position", match &v.hook_position { Some(x) => Some(encode_position(x)), None => None });
    let members = with_member(members, "kind", encode_export_kind(&v.kind));
    let members = with_some(members, "model_name", match &v.model_name { Some(x) => Some(crate::json::text(x.as_str())), None => None });
    let members = with_member(members, "required_capabilities", crate::json::array(map_each(&v.required_capabilities, f6, Ghost(|x: Seq<char>| JsonView::Text(x)))));
    crate::json::object(members)
}

/// The encoded metadata of a component.
pub open spec fn component_json(v: ComponentMetadataView) -> JsonView {
    JsonView::Object(((Seq::<MemberView>::empty()
.push(MemberView { key: "capabilities"@, value: JsonView::Array(v.capabilities.map_values(|x: Seq<char>| JsonView::Text(x))) })
.push(MemberView { key: "config_schema"@, value: v.config_schema })
.push(MemberView { key: "contract_version"@, value: JsonView::Number(decimal_text(v.contract_version as nat)) })
.push(MemberView { key: "dependencies"@, value: JsonView::Array(v.dependencies.map_values(|x: ComponentRefView| component_ref_json(x))) })
.push(MemberView { key: "exports"@, value: JsonView::Array(v.exports.map_values(|x: ExportMetadataView| export_json(x))) })
+ some_member("hook_position"@, match v.hook_position { Some(x) => Some(position_json(x)), None => None }))
.push(MemberView { key: "manifest_digest"@, value: JsonView::Text(v.manifest_digest) })
+ some_member("model_name"@, match v.model_name { Some(x) => Some(JsonView::Text(x)), None => None }))
.push(MemberView { key: "reference"@, value: component_ref_json(v.reference) })
.push(MemberView { key: "required_capabilities"@, value: JsonView::Array(v.required_capabilities.map_values(|x: Seq<char>| JsonView::Text(x))) })
.push(MemberView { key: "required_connections"@, value: JsonView::Array(v.required_connections.map_values(|x: Seq<char>| JsonView::Text(x))) }))
}

/// Encode the metadata of a component.
pub fn encode_component(v: &ComponentMetadata) -> (r: Json)
    ensures
        r@ == component_json(v@),
{
    let f0 = |x: &Id| -> (r: Json)
        ensures
            r@ == JsonView::Text(x@),
    { crate::json::text(x.as_str()) };
    let f3 = |x: &ComponentRef| -> (r: Json)
        ensures
            r@ == component_ref_json(x@),
    { encode_component_ref(x) };
    let f4 = |x: &ExportMetadata| -> (r: Json)
        ensures
            r@ == export_json(x@),
    { encode_export(x) };
    let f9 = |x: &Id| -> (r: Json)
        ensures
            r@ == JsonView::Text(x@),
    { crate::json::text(x.as_str()) };
    let f10 = |x: &Id| -> (r: Json)
        ensures
            r@ == JsonView::Text(x@),
    { crate::json::text(x.as_str()) };
    let members = no_members();
    let members = with_member(members, "capabilities", crate::json::array(map_each(&v.capabilities, f0, Ghost(|x: Seq<char>| JsonView::Text(x)))));
    let members = with_member(members, "config_schema", v.config_schema.copy());
    let members = with_member(members, "contract_version", number(v.contract_version as u64));
    let members = with_member(members, "dependencies", crate::json::array(map_each(&v.dependencies, f3, Ghost(|x: ComponentRefView| component_ref_json(x)))));
    let members = with_member(members, "exports", crate::json::array(map_each(&v.exports, f4, Ghost(|x: ExportMetadataView| export_json(x)))));
    let members = with_some(members, "hook_position", match &v.hook_position { Some(x) => Some(encode_position(x)), None => None });
    let members = with_member(members, "manifest_digest", crate::json::text(v.manifest_digest.as_str()));
    let members = with_some(members, "model_name", match &v.model_name { Some(x) => Some(crate::json::text(x.as_str())), None => None });
    let members = with_member(members, "reference", encode_component_ref(&v.reference));
    let members = with_member(members, "required_capabilities", crate::json::array(map_each(&v.required_capabilities, f9, Ghost(|x: Seq<char>| JsonView::Text(x)))));
    let members = with_member(members, "required_connections", crate::json::array(map_each(&v.required_connections, f10, Ghost(|x: Seq<char>| JsonView::Text(x)))));
    crate::json::object(members)
}

/// The encoded pinned component.
pub open spec fn resolved_component_json(v: ResolvedComponentView) -> JsonView {
    JsonView::Object(Seq::<MemberView>::empty()
.push(MemberView { key: "definition_digest"@, value: JsonView::Text(v.definition_digest) })
.push(MemberView { key: "reference"@, value: component_ref_json(v.reference) }))
}

/// Encode the pinned component.
pub fn encode_resolved_component(v: &ResolvedComponent) -> (r: Json)
    ensures
        r@ == resolved_component_json(v@),
{
    let members = no_members();
    let members = with_member(members, "definition_digest", crate::json::text(v.definition_digest.as_str()));
    let members = with_member(members, "reference", encode_component_ref(&v.reference));
    crate::json::object(members)
}

impl ComponentMetadata {
    /// The identity of the full metadata, with its configuration schema and its capabilities.
    pub fn digest(&self) -> (r: JsonDigest)
        ensures
            r@ == digest_of(component_json(self@)),
    {
        canonical_digest(&encode_component(self))
    }
}

/// The identity of both a profile and the metadata that it was resolved to in a scope.
pub open spec fn resolution_digest_of(
    profile_digest: Seq<char>,
    scope: ScopeView,
    components: Seq<ResolvedComponentView>,
) -> Seq<char> {
    digest_of(
        JsonView::Array(
            seq![
                JsonView::Text(profile_digest),
                scope_json(scope),
                JsonView::Array(
                    components.map_values(
                        |component: ResolvedComponentView| resolved_component_json(component),
                    ),
                ),
            ],
        ),
    )
}

fn digest_resolution(profile_digest: &JsonDigest, scope: &Scope, components: &Vec<ResolvedComponent>)
    -> (r: JsonDigest)
    ensures
        r@ == resolution_digest_of(profile_digest@, scope@, components.deep_view()),
{
    let encode = |component: &ResolvedComponent| -> (json: Json)
        ensures
            json@ == resolved_component_json(component@),
    { encode_resolved_component(component) };
    let list = map_each(
        components,
        encode,
        Ghost(|component: ResolvedComponentView| resolved_component_json(component)),
    );
    let mut parts: Vec<Json> = Vec::new();
    parts.push(text(profile_digest.as_str()));
    parts.push(encode_scope(scope));
    parts.push(array(list));
    assert(parts.deep_view() =~= seq![
        JsonView::Text(profile_digest@),
        scope_json(scope@),
        JsonView::Array(
            components.deep_view().map_values(
                |component: ResolvedComponentView| resolved_component_json(component),
            ),
        ),
    ]);
    canonical_digest(&array(parts))
}

/// Components of a reference.
pub open spec fn refers_to_component(reference: ComponentRefView) -> spec_fn(
    ResolvedComponentView,
) -> bool {
    |component: ResolvedComponentView| component.reference == reference
}

/// Why a component is not pinned: another one has its reference, or it has no version.
pub open spec fn component_fault(components: Seq<ResolvedComponentView>) -> spec_fn(int) -> Option<
    Fault,
> {
    |i: int|
        if some_in(components.take(i), refers_to_component(components[i].reference))
            || components[i].reference.version is None {
            fault(ErrorCode::InvalidSnapshot, "resolved_profile")
        } else {
            None
        }
}

/// Why a saved resolution is not consistent.
pub open spec fn resolved_fault(resolved: ResolvedProfileView) -> Option<Fault> {
    if resolved.profile.defect is Some {
        resolved.profile.defect
    } else if resolved.profile.digest != resolved.profile_digest || first_index_fault(
        0,
        resolved.components.len() as int,
        component_fault(resolved.components),
    ) is Some || resolution_digest_of(
        resolved.profile_digest,
        resolved.scope,
        resolved.components,
    ) != resolved.resolution_digest {
        fault(ErrorCode::InvalidSnapshot, "resolved_profile")
    } else {
        None
    }
}

fn check_component(components: &Vec<ResolvedComponent>, i: usize) -> (r: Result<(), ContractError>)
    requires
        i < components.len(),
    ensures
        failure(r) == component_fault(components.deep_view())(i as int),
{
    assert(components.deep_view()[i as int] == components@[i as int]@);
    let reference = &components[i].reference;
    let same = |component: &ResolvedComponent| -> (b: bool)
        ensures
            b == refers_to_component(reference@)(component@),
    { component.reference.same(reference) };
    if any_before(components, i, same, Ghost(refers_to_component(reference@)))
        || reference.version.is_none() {
        return fail(ErrorCode::InvalidSnapshot, "resolved_profile");
    }
    Ok(())
}

/// Why a pinned profile is not the one of a profile and a scope.
pub open spec fn match_fault(
    resolved: ResolvedProfileView,
    profile: AgentProfileView,
    scope: ScopeView,
) -> Option<Fault> {
    if profile.digest != resolved.profile_digest || scope != resolved.scope {
        fault(ErrorCode::ProfileMismatch, "resolved_profile")
    } else {
        None
    }
}

impl ResolvedProfile {
    /// A profile with the components that it was resolved to in a scope.
    pub open spec fn pinning(
        profile: AgentProfileView,
        scope: ScopeView,
        components: Seq<ResolvedComponentView>,
    ) -> ResolvedProfileView {
        ResolvedProfileView {
            profile,
            scope,
            profile_digest: profile.digest,
            components,
            resolution_digest: resolution_digest_of(profile.digest, scope, components),
        }
    }

    /// Pin a profile to the components that it was resolved to in a scope.
    pub(crate) fn pin(profile: &AgentProfile, scope: &Scope, components: Vec<ResolvedComponent>) -> (r:
        Self)
        ensures
            r@ == ResolvedProfile::pinning(profile@, scope@, components.deep_view()),
    {
        let resolution_digest = digest_resolution(&profile.digest, scope, &components);
        ResolvedProfile {
            profile: profile.copy(),
            scope: scope.copy(),
            profile_digest: profile.digest.copy(),
            components,
            resolution_digest,
        }
    }

    /// Restore a saved resolution; only a consistent one comes back.
    pub fn restore(
        profile: AgentProfile,
        scope: Scope,
        profile_digest: JsonDigest,
        components: Vec<ResolvedComponent>,
        resolution_digest: JsonDigest,
    ) -> (r: Result<Self, ContractError>)
        ensures
            ({
                let given = ResolvedProfileView {
                    profile: profile@,
                    scope: scope@,
                    profile_digest: profile_digest@,
                    components: components.deep_view(),
                    resolution_digest: resolution_digest@,
                };
                &&& failure(r) == resolved_fault(given)
                &&& r matches Ok(resolved) ==> resolved@ == given
            }),
    {
        let resolved = ResolvedProfile {
            profile,
            scope,
            profile_digest,
            components,
            resolution_digest,
        };
        resolved.validate_snapshot()?;
        Ok(resolved)
    }

    /// Check that a saved resolution is consistent.
    pub fn validate_snapshot(&self) -> (r: Result<(), ContractError>)
        ensures
            failure(r) == resolved_fault(self@),
    {
        verdict(&self.profile.defect)?;
        let components = &self.components;
        let n: usize = components.len();
        let check = |i: usize| -> (r: Result<(), ContractError>)
            requires
                i < components.len(),
            ensures
                failure(r) == component_fault(components.deep_view())(i as int),
        { check_component(components, i) };
        let pinned = check_indices(n, check, Ghost(component_fault(components.deep_view())));
        assert(self@.components.len() == n);
        if !self.profile.digest.same(&self.profile_digest) || pinned.is_err() || !digest_resolution(
            &self.profile_digest,
            &self.scope,
            components,
        ).same(&self.resolution_digest) {
            return fail(ErrorCode::InvalidSnapshot, "resolved_profile");
        }
        Ok(())
    }

    /// Reject a different profile or scope before using an existing run.
    pub fn ensure_matches(&self, profile: &AgentProfile, scope: &Scope) -> (r: Result<
        (),
        ContractError,
    >)
        ensures
            failure(r) == match_fault(self@, profile@, scope@),
    {
        if !profile.digest.same(&self.profile_digest) || !scope.same(&self.scope) {
            return fail(ErrorCode::ProfileMismatch, "resolved_profile");
        }
        Ok(())
    }

    /// Reject a newly resolved version or metadata snapshot replacing the saved one.
    pub fn ensure_same_resolution(&self, other: &Self) -> (r: Result<(), ContractError>)
        ensures
            failure(r) == (if self@.resolution_digest != other@.resolution_digest {
                fault(ErrorCode::ProfileMismatch, "resolution_digest")
            } else {
                None
            }),
    {
        if !self.resolution_digest.same(&other.resolution_digest) {
            return fail(ErrorCode::ProfileMismatch, "resolution_digest");
        }
        Ok(())
    }

    /// The unchanged profile.
    pub fn profile(&self) -> (r: &AgentProfile)
        ensures
            r@ == self@.profile,
    {
        &self.profile
    }

    /// Resolution scope.
    pub fn scope(&self) -> (r: &Scope)
        ensures
            r@ == self@.scope,
    {
        &self.scope
    }

    /// Exact profile digest.
    pub fn profile_digest(&self) -> (r: &JsonDigest)
        ensures
            r@ == self@.profile_digest,
    {
        &self.profile_digest
    }

    /// Digest of the complete pinned resolution.
    pub fn resolution_digest(&self) -> (r: &JsonDigest)
        ensures
            r@ == self@.resolution_digest,
    {
        &self.resolution_digest
    }

    /// Pinned components in deterministic order.
    pub fn components(&self) -> (r: &Vec<ResolvedComponent>)
        ensures
            r.deep_view() == self@.components,
    {
        &self.components
    }
}

proof fn lemma_no_index_fault(from: int, to: int, f: spec_fn(int) -> Option<Fault>, i: int)
    requires
        first_index_fault(from, to, f) is None,
        from <= i < to,
    ensures
        f(i) is None,
    decreases to - from,
{
    if from < i {
        lemma_no_index_fault(from + 1, to, f, i);
    }
}

/// The components of a valid resolution are pinned, and no two of them have the same reference.
pub proof fn law_valid_components_are_distinct(resolved: ResolvedProfileView, i: int, j: int)
    requires
        resolved_fault(resolved) is None,
        0 <= i < j < resolved.components.len(),
    ensures
        resolved.components[i].reference != resolved.components[j].reference,
        resolved.components[i].reference.version is Some,
        resolved.components[j].reference.version is Some,
{
    let components = resolved.components;
    let n = components.len() as int;
    lemma_no_index_fault(0, n, component_fault(components), i);
    lemma_no_index_fault(0, n, component_fault(components), j);
    assert(components.take(j)[i] == components[i]);
    assert(!some_in(components.take(j), refers_to_component(components[j].reference)));
}

} // verus!
