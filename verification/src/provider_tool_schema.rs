//! Pure, bounded provider projection of an already separated tool input contract.
use vstd::prelude::*;

use crate::data::{any, any_before, check_indices, map_each, Data};
#[allow(unused_imports)]
use crate::data::{first_index_fault, some_in};
use crate::encoding::{
    encode_versioned, encoded_bytes_exceed, no_members, with_member, with_some,
};
#[allow(unused_imports)]
use crate::encoding::{encoded_bytes, some_member, versioned_json};
use crate::error::{fail, ContractError, ErrorCode};
#[allow(unused_imports)]
use crate::error::{failure, fault, Fault};
use crate::hook::encode_model_tool;
#[allow(unused_imports)]
use crate::hook::model_tool_json;
use crate::json::{array, member_value, object, text, Json, Member};
#[allow(unused_imports)]
use crate::json::{get_of, lemma_object_view, value_of, JsonView, MemberView};
use crate::json_schema::compile_validator;
#[allow(unused_imports)]
use crate::json_schema::compile_fault;
use crate::model::{encode_api_contract, ApiContract, ModelTool, ResolvedModelRoute};
#[allow(unused_imports)]
use crate::model::{api_contract_json, ApiContractView, ModelToolView, ResolvedModelRouteView};
use crate::prompt::CompiledTool;
#[allow(unused_imports)]
use crate::prompt::CompiledToolView;
use crate::provider_tool_schema::arguments::arguments;
use crate::provider_tool_schema::enforcement::{collect_enforcement, is_within_depth, Mechanism};
#[allow(unused_imports)]
use crate::provider_tool_schema::enforcement::{
    law_entries_are_well_marked, law_unchanged_schemas_are_native, schema_entries, within_depth,
};
use crate::reader::{JsonText, Reading};
#[allow(unused_imports)]
use crate::reader::{read_text, JsonTextView, ReadingView};
use crate::refs::VersionedRef;
#[allow(unused_imports)]
use crate::refs::VersionedRefView;
use crate::serialization::{
    canonical_digest, canonical_json, is_unambiguous, json_string, Id, JsonDigest,
};
#[allow(unused_imports)]
use crate::serialization::{canonical_text, digest_of, json_literal, listed, unambiguous};
use crate::text::{chars_of, concat, reads};
#[allow(unused_imports)]
use crate::text::white_space;
use vstd::utf8::encode_utf8;

pub mod arguments;
pub mod codec;
pub mod enforcement;

verus! {

/// The provider interface that a tool is projected for.
#[derive(Debug)]
pub struct ProviderToolTarget {
    pub model: Option<VersionedRef>,
    pub provider: Id,
    pub api_contract: ApiContract,
    pub capability_revision: Id,
}

#[verifier::ext_equal]
pub struct ProviderToolTargetView {
    pub model: Option<VersionedRefView>,
    pub provider: Seq<char>,
    pub api_contract: ApiContractView,
    pub capability_revision: Seq<char>,
}

impl View for ProviderToolTarget {
    type V = ProviderToolTargetView;

    open spec fn view(&self) -> ProviderToolTargetView {
        ProviderToolTargetView {
            model: self.model.deep_view(),
            provider: self.provider.deep_view(),
            api_contract: self.api_contract.deep_view(),
            capability_revision: self.capability_revision.deep_view(),
        }
    }
}

impl DeepView for ProviderToolTarget {
    type V = ProviderToolTargetView;

    open spec fn deep_view(&self) -> ProviderToolTargetView {
        self@
    }
}

impl Data for ProviderToolTarget {
    fn same(&self, other: &Self) -> (r: bool) {
        self.model.same(&other.model)
            && self.provider.same(&other.provider)
            && self.api_contract.same(&other.api_contract)
            && self.capability_revision.same(&other.capability_revision)
    }

    fn copy(&self) -> (r: Self) {
        ProviderToolTarget {
            model: self.model.copy(),
            provider: self.provider.copy(),
            api_contract: self.api_contract.copy(),
            capability_revision: self.capability_revision.copy(),
        }
    }
}

/// Bounds of a projection.
#[derive(Debug)]
pub struct ProviderToolSchemaLimits {
    pub max_schema_bytes: usize,
    pub max_schema_depth: usize,
    pub max_contract_bytes: usize,
    pub max_argument_bytes: usize,
}

#[verifier::ext_equal]
pub struct ProviderToolSchemaLimitsView {
    pub max_schema_bytes: usize,
    pub max_schema_depth: usize,
    pub max_contract_bytes: usize,
    pub max_argument_bytes: usize,
}

impl View for ProviderToolSchemaLimits {
    type V = ProviderToolSchemaLimitsView;

    open spec fn view(&self) -> ProviderToolSchemaLimitsView {
        ProviderToolSchemaLimitsView {
            max_schema_bytes: self.max_schema_bytes.deep_view(),
            max_schema_depth: self.max_schema_depth.deep_view(),
            max_contract_bytes: self.max_contract_bytes.deep_view(),
            max_argument_bytes: self.max_argument_bytes.deep_view(),
        }
    }
}

impl DeepView for ProviderToolSchemaLimits {
    type V = ProviderToolSchemaLimitsView;

    open spec fn deep_view(&self) -> ProviderToolSchemaLimitsView {
        self@
    }
}

impl Data for ProviderToolSchemaLimits {
    fn same(&self, other: &Self) -> (r: bool) {
        self.max_schema_bytes.same(&other.max_schema_bytes)
            && self.max_schema_depth.same(&other.max_schema_depth)
            && self.max_contract_bytes.same(&other.max_contract_bytes)
            && self.max_argument_bytes.same(&other.max_argument_bytes)
    }

    fn copy(&self) -> (r: Self) {
        ProviderToolSchemaLimits {
            max_schema_bytes: self.max_schema_bytes.copy(),
            max_schema_depth: self.max_schema_depth.copy(),
            max_contract_bytes: self.max_contract_bytes.copy(),
            max_argument_bytes: self.max_argument_bytes.copy(),
        }
    }
}

/// How one argument is written on the wire.
#[derive(Debug)]
pub enum ArgumentValueEncoding {
    Identity,
    JsonText {
        optional: bool,
    },
    Presence {
        present_key: String,
        value_key: String,
    },
}

#[verifier::ext_equal]
pub enum ArgumentValueEncodingView {
    Identity,
    JsonText {
        optional: bool,
    },
    Presence {
        present_key: Seq<char>,
        value_key: Seq<char>,
    },
}

impl View for ArgumentValueEncoding {
    type V = ArgumentValueEncodingView;

    open spec fn view(&self) -> ArgumentValueEncodingView {
        match self {
            ArgumentValueEncoding::Identity => ArgumentValueEncodingView::Identity,
            ArgumentValueEncoding::JsonText { optional } => ArgumentValueEncodingView::JsonText { optional: optional.deep_view() },
            ArgumentValueEncoding::Presence { present_key, value_key } => ArgumentValueEncodingView::Presence { present_key: present_key.deep_view(), value_key: value_key.deep_view() },
        }
    }
}

impl DeepView for ArgumentValueEncoding {
    type V = ArgumentValueEncodingView;

    open spec fn deep_view(&self) -> ArgumentValueEncodingView {
        self@
    }
}

impl Data for ArgumentValueEncoding {
    fn same(&self, other: &Self) -> (r: bool) {
        match (self, other) {
            (ArgumentValueEncoding::Identity, ArgumentValueEncoding::Identity) => true,
            (ArgumentValueEncoding::JsonText { optional: optional1 }, ArgumentValueEncoding::JsonText { optional: optional2 }) => optional1.same(optional2),
            (ArgumentValueEncoding::Presence { present_key: present_key1, value_key: value_key1 }, ArgumentValueEncoding::Presence { present_key: present_key2, value_key: value_key2 }) => present_key1.same(present_key2) && value_key1.same(value_key2),
            _ => false,
        }
    }

    fn copy(&self) -> (r: Self) {
        match self {
            ArgumentValueEncoding::Identity => ArgumentValueEncoding::Identity,
            ArgumentValueEncoding::JsonText { optional } => ArgumentValueEncoding::JsonText { optional: optional.copy() },
            ArgumentValueEncoding::Presence { present_key, value_key } => ArgumentValueEncoding::Presence { present_key: present_key.copy(), value_key: value_key.copy() },
        }
    }
}

/// One argument's wire name, canonical name and encoding.
#[derive(Debug)]
pub struct ArgumentFieldMapping {
    pub wire_name: String,
    pub canonical_name: String,
    pub encoding: ArgumentValueEncoding,
}

#[verifier::ext_equal]
pub struct ArgumentFieldMappingView {
    pub wire_name: Seq<char>,
    pub canonical_name: Seq<char>,
    pub encoding: ArgumentValueEncodingView,
}

impl View for ArgumentFieldMapping {
    type V = ArgumentFieldMappingView;

    open spec fn view(&self) -> ArgumentFieldMappingView {
        ArgumentFieldMappingView {
            wire_name: self.wire_name.deep_view(),
            canonical_name: self.canonical_name.deep_view(),
            encoding: self.encoding.deep_view(),
        }
    }
}

impl DeepView for ArgumentFieldMapping {
    type V = ArgumentFieldMappingView;

    open spec fn deep_view(&self) -> ArgumentFieldMappingView {
        self@
    }
}

impl Data for ArgumentFieldMapping {
    fn same(&self, other: &Self) -> (r: bool) {
        self.wire_name.same(&other.wire_name)
            && self.canonical_name.same(&other.canonical_name)
            && self.encoding.same(&other.encoding)
    }

    fn copy(&self) -> (r: Self) {
        ArgumentFieldMapping {
            wire_name: self.wire_name.copy(),
            canonical_name: self.canonical_name.copy(),
            encoding: self.encoding.copy(),
        }
    }
}

/// How wire arguments become canonical arguments.
#[derive(Debug)]
pub enum ArgumentDecodePlan {
    Identity,
    JsonObjectText {
        wire_name: String,
    },
    Fields {
        fields: Vec<ArgumentFieldMapping>,
    },
}

#[verifier::ext_equal]
pub enum ArgumentDecodePlanView {
    Identity,
    JsonObjectText {
        wire_name: Seq<char>,
    },
    Fields {
        fields: Seq<ArgumentFieldMappingView>,
    },
}

impl View for ArgumentDecodePlan {
    type V = ArgumentDecodePlanView;

    open spec fn view(&self) -> ArgumentDecodePlanView {
        match self {
            ArgumentDecodePlan::Identity => ArgumentDecodePlanView::Identity,
            ArgumentDecodePlan::JsonObjectText { wire_name } => ArgumentDecodePlanView::JsonObjectText { wire_name: wire_name.deep_view() },
            ArgumentDecodePlan::Fields { fields } => ArgumentDecodePlanView::Fields { fields: fields.deep_view() },
        }
    }
}

impl DeepView for ArgumentDecodePlan {
    type V = ArgumentDecodePlanView;

    open spec fn deep_view(&self) -> ArgumentDecodePlanView {
        self@
    }
}

impl Data for ArgumentDecodePlan {
    fn same(&self, other: &Self) -> (r: bool) {
        match (self, other) {
            (ArgumentDecodePlan::Identity, ArgumentDecodePlan::Identity) => true,
            (ArgumentDecodePlan::JsonObjectText { wire_name: wire_name1 }, ArgumentDecodePlan::JsonObjectText { wire_name: wire_name2 }) => wire_name1.same(wire_name2),
            (ArgumentDecodePlan::Fields { fields: fields1 }, ArgumentDecodePlan::Fields { fields: fields2 }) => fields1.same(fields2),
            _ => false,
        }
    }

    fn copy(&self) -> (r: Self) {
        match self {
            ArgumentDecodePlan::Identity => ArgumentDecodePlan::Identity,
            ArgumentDecodePlan::JsonObjectText { wire_name } => ArgumentDecodePlan::JsonObjectText { wire_name: wire_name.copy() },
            ArgumentDecodePlan::Fields { fields } => ArgumentDecodePlan::Fields { fields: fields.copy() },
        }
    }
}

/// A tool as a provider sees it, with the way back.
#[derive(Debug)]
pub struct ProviderToolProjection {
    pub wire_tool: ModelTool,
    pub decode_plan: ArgumentDecodePlan,
}

#[verifier::ext_equal]
pub struct ProviderToolProjectionView {
    pub wire_tool: ModelToolView,
    pub decode_plan: ArgumentDecodePlanView,
}

impl View for ProviderToolProjection {
    type V = ProviderToolProjectionView;

    open spec fn view(&self) -> ProviderToolProjectionView {
        ProviderToolProjectionView {
            wire_tool: self.wire_tool.deep_view(),
            decode_plan: self.decode_plan.deep_view(),
        }
    }
}

impl DeepView for ProviderToolProjection {
    type V = ProviderToolProjectionView;

    open spec fn deep_view(&self) -> ProviderToolProjectionView {
        self@
    }
}

impl Data for ProviderToolProjection {
    fn same(&self, other: &Self) -> (r: bool) {
        self.wire_tool.same(&other.wire_tool)
            && self.decode_plan.same(&other.decode_plan)
    }

    fn copy(&self) -> (r: Self) {
        ProviderToolProjection {
            wire_tool: self.wire_tool.copy(),
            decode_plan: self.decode_plan.copy(),
        }
    }
}

/// Text that explains constraints that a wire schema does not hold.
#[derive(Debug)]
pub struct ToolConstraintFragment {
    pub id: Id,
    pub text: String,
    pub digest: JsonDigest,
}

#[verifier::ext_equal]
pub struct ToolConstraintFragmentView {
    pub id: Seq<char>,
    pub text: Seq<char>,
    pub digest: Seq<char>,
}

impl View for ToolConstraintFragment {
    type V = ToolConstraintFragmentView;

    open spec fn view(&self) -> ToolConstraintFragmentView {
        ToolConstraintFragmentView {
            id: self.id.deep_view(),
            text: self.text.deep_view(),
            digest: self.digest.deep_view(),
        }
    }
}

impl DeepView for ToolConstraintFragment {
    type V = ToolConstraintFragmentView;

    open spec fn deep_view(&self) -> ToolConstraintFragmentView {
        self@
    }
}

impl Data for ToolConstraintFragment {
    fn same(&self, other: &Self) -> (r: bool) {
        self.id.same(&other.id)
            && self.text.same(&other.text)
            && self.digest.same(&other.digest)
    }

    fn copy(&self) -> (r: Self) {
        ToolConstraintFragment {
            id: self.id.copy(),
            text: self.text.copy(),
            digest: self.digest.copy(),
        }
    }
}

/// Who enforces one constraint of the canonical schema.
#[derive(Debug)]
pub struct ToolConstraintEnforcement {
    pub canonical_pointer: String,
    pub provider_native: bool,
    pub context_text: bool,
    pub core: bool,
}

#[verifier::ext_equal]
pub struct ToolConstraintEnforcementView {
    pub canonical_pointer: Seq<char>,
    pub provider_native: bool,
    pub context_text: bool,
    pub core: bool,
}

impl View for ToolConstraintEnforcement {
    type V = ToolConstraintEnforcementView;

    open spec fn view(&self) -> ToolConstraintEnforcementView {
        ToolConstraintEnforcementView {
            canonical_pointer: self.canonical_pointer.deep_view(),
            provider_native: self.provider_native.deep_view(),
            context_text: self.context_text.deep_view(),
            core: self.core.deep_view(),
        }
    }
}

impl DeepView for ToolConstraintEnforcement {
    type V = ToolConstraintEnforcementView;

    open spec fn deep_view(&self) -> ToolConstraintEnforcementView {
        self@
    }
}

impl Data for ToolConstraintEnforcement {
    fn same(&self, other: &Self) -> (r: bool) {
        self.canonical_pointer.same(&other.canonical_pointer)
            && self.provider_native.same(&other.provider_native)
            && self.context_text.same(&other.context_text)
            && self.core.same(&other.core)
    }

    fn copy(&self) -> (r: Self) {
        ToolConstraintEnforcement {
            canonical_pointer: self.canonical_pointer.copy(),
            provider_native: self.provider_native.copy(),
            context_text: self.context_text.copy(),
            core: self.core.copy(),
        }
    }
}

/// What a compiled contract pins.
#[derive(Debug)]
pub struct ContractData {
    pub schema_version: String,
    pub tool: VersionedRef,
    pub canonical_name: Id,
    pub descriptor_digest: JsonDigest,
    pub canonical_schema_digest: JsonDigest,
    pub compiler: VersionedRef,
    pub target: ProviderToolTarget,
    pub wire_tool: ModelTool,
    pub decode_plan: ArgumentDecodePlan,
    pub fragments: Vec<ToolConstraintFragment>,
    pub enforcement: Vec<ToolConstraintEnforcement>,
}

#[verifier::ext_equal]
pub struct ContractDataView {
    pub schema_version: Seq<char>,
    pub tool: VersionedRefView,
    pub canonical_name: Seq<char>,
    pub descriptor_digest: Seq<char>,
    pub canonical_schema_digest: Seq<char>,
    pub compiler: VersionedRefView,
    pub target: ProviderToolTargetView,
    pub wire_tool: ModelToolView,
    pub decode_plan: ArgumentDecodePlanView,
    pub fragments: Seq<ToolConstraintFragmentView>,
    pub enforcement: Seq<ToolConstraintEnforcementView>,
}

impl View for ContractData {
    type V = ContractDataView;

    open spec fn view(&self) -> ContractDataView {
        ContractDataView {
            schema_version: self.schema_version.deep_view(),
            tool: self.tool.deep_view(),
            canonical_name: self.canonical_name.deep_view(),
            descriptor_digest: self.descriptor_digest.deep_view(),
            canonical_schema_digest: self.canonical_schema_digest.deep_view(),
            compiler: self.compiler.deep_view(),
            target: self.target.deep_view(),
            wire_tool: self.wire_tool.deep_view(),
            decode_plan: self.decode_plan.deep_view(),
            fragments: self.fragments.deep_view(),
            enforcement: self.enforcement.deep_view(),
        }
    }
}

impl DeepView for ContractData {
    type V = ContractDataView;

    open spec fn deep_view(&self) -> ContractDataView {
        self@
    }
}

impl Data for ContractData {
    fn same(&self, other: &Self) -> (r: bool) {
        self.schema_version.same(&other.schema_version)
            && self.tool.same(&other.tool)
            && self.canonical_name.same(&other.canonical_name)
            && self.descriptor_digest.same(&other.descriptor_digest)
            && self.canonical_schema_digest.same(&other.canonical_schema_digest)
            && self.compiler.same(&other.compiler)
            && self.target.same(&other.target)
            && self.wire_tool.same(&other.wire_tool)
            && self.decode_plan.same(&other.decode_plan)
            && self.fragments.same(&other.fragments)
            && self.enforcement.same(&other.enforcement)
    }

    fn copy(&self) -> (r: Self) {
        ContractData {
            schema_version: self.schema_version.copy(),
            tool: self.tool.copy(),
            canonical_name: self.canonical_name.copy(),
            descriptor_digest: self.descriptor_digest.copy(),
            canonical_schema_digest: self.canonical_schema_digest.copy(),
            compiler: self.compiler.copy(),
            target: self.target.copy(),
            wire_tool: self.wire_tool.copy(),
            decode_plan: self.decode_plan.copy(),
            fragments: self.fragments.copy(),
            enforcement: self.enforcement.copy(),
        }
    }
}

/// A decoded contract, before validation.
#[derive(Debug)]
pub struct SavedContract {
    pub data: ContractData,
    pub digest: JsonDigest,
}

#[verifier::ext_equal]
pub struct SavedContractView {
    pub data: ContractDataView,
    pub digest: Seq<char>,
}

impl View for SavedContract {
    type V = SavedContractView;

    open spec fn view(&self) -> SavedContractView {
        SavedContractView {
            data: self.data.deep_view(),
            digest: self.digest.deep_view(),
        }
    }
}

impl DeepView for SavedContract {
    type V = SavedContractView;

    open spec fn deep_view(&self) -> SavedContractView {
        self@
    }
}

impl Data for SavedContract {
    fn same(&self, other: &Self) -> (r: bool) {
        self.data.same(&other.data)
            && self.digest.same(&other.digest)
    }

    fn copy(&self) -> (r: Self) {
        SavedContract {
            data: self.data.copy(),
            digest: self.digest.copy(),
        }
    }
}

/// Immutable route-specific contract of one tool.
#[derive(Debug)]
pub struct CompiledToolContract {
    data: ContractData,
    digest: JsonDigest,
}

#[verifier::ext_equal]
pub struct CompiledToolContractView {
    pub data: ContractDataView,
    pub digest: Seq<char>,
}

impl View for CompiledToolContract {
    type V = CompiledToolContractView;

    closed spec fn view(&self) -> CompiledToolContractView {
        CompiledToolContractView {
            data: self.data.deep_view(),
            digest: self.digest.deep_view(),
        }
    }
}

impl DeepView for CompiledToolContract {
    type V = CompiledToolContractView;

    open spec fn deep_view(&self) -> CompiledToolContractView {
        self@
    }
}

impl Data for CompiledToolContract {
    fn same(&self, other: &Self) -> (r: bool) {
        self.data.same(&other.data)
            && self.digest.same(&other.digest)
    }

    fn copy(&self) -> (r: Self) {
        CompiledToolContract {
            data: self.data.copy(),
            digest: self.digest.copy(),
        }
    }
}


/// The encoded target.
pub open spec fn tool_target_json(v: ProviderToolTargetView) -> JsonView {
    JsonView::Object((Seq::<MemberView>::empty()
.push(MemberView { key: "api_contract"@, value: api_contract_json(v.api_contract) })
.push(MemberView { key: "capability_revision"@, value: JsonView::Text(v.capability_revision) })
+ some_member("model"@, match v.model { Some(x) => Some(versioned_json(x)), None => None }))
.push(MemberView { key: "provider"@, value: JsonView::Text(v.provider) }))
}

/// Encode the target.
pub fn encode_tool_target(v: &ProviderToolTarget) -> (r: Json)
    ensures
        r@ == tool_target_json(v@),
{
    let members = no_members();
    let members = with_member(members, "api_contract", encode_api_contract(&v.api_contract));
    let members = with_member(members, "capability_revision", crate::json::text(v.capability_revision.as_str()));
    let members = with_some(members, "model", match &v.model { Some(x) => Some(encode_versioned(x)), None => None });
    let members = with_member(members, "provider", crate::json::text(v.provider.as_str()));
    crate::json::object(members)
}

/// The encoded encoding of a value.
pub open spec fn value_encoding_json(v: ArgumentValueEncodingView) -> JsonView {
    match v {
        ArgumentValueEncodingView::Identity => JsonView::Object(Seq::<MemberView>::empty()
.push(MemberView { key: "type"@, value: JsonView::Text("identity"@) })),
        ArgumentValueEncodingView::JsonText { optional } => JsonView::Object(Seq::<MemberView>::empty()
.push(MemberView { key: "optional"@, value: JsonView::Bool(optional) })
.push(MemberView { key: "type"@, value: JsonView::Text("json_text"@) })),
        ArgumentValueEncodingView::Presence { present_key, value_key } => JsonView::Object(Seq::<MemberView>::empty()
.push(MemberView { key: "present_key"@, value: JsonView::Text(present_key) })
.push(MemberView { key: "type"@, value: JsonView::Text("presence"@) })
.push(MemberView { key: "value_key"@, value: JsonView::Text(value_key) })),
    }
}

/// Encode the encoding of a value.
pub fn encode_value_encoding(v: &ArgumentValueEncoding) -> (r: Json)
    ensures
        r@ == value_encoding_json(v@),
{
    match v {
        ArgumentValueEncoding::Identity => {
            let members = no_members();
            let members = with_member(members, "type", crate::json::text("identity"));
            crate::json::object(members)
        },
        ArgumentValueEncoding::JsonText { optional } => {
            let members = no_members();
            let members = with_member(members, "optional", Json::Bool(*optional));
            let members = with_member(members, "type", crate::json::text("json_text"));
            crate::json::object(members)
        },
        ArgumentValueEncoding::Presence { present_key, value_key } => {
            let members = no_members();
            let members = with_member(members, "present_key", crate::json::text(present_key.as_str()));
            let members = with_member(members, "type", crate::json::text("presence"));
            let members = with_member(members, "value_key", crate::json::text(value_key.as_str()));
            crate::json::object(members)
        },
    }
}

/// The encoded mapping of a field.
pub open spec fn field_json(v: ArgumentFieldMappingView) -> JsonView {
    JsonView::Object(Seq::<MemberView>::empty()
.push(MemberView { key: "canonical_name"@, value: JsonView::Text(v.canonical_name) })
.push(MemberView { key: "encoding"@, value: value_encoding_json(v.encoding) })
.push(MemberView { key: "wire_name"@, value: JsonView::Text(v.wire_name) }))
}

/// Encode the mapping of a field.
pub fn encode_field(v: &ArgumentFieldMapping) -> (r: Json)
    ensures
        r@ == field_json(v@),
{
    let members = no_members();
    let members = with_member(members, "canonical_name", crate::json::text(v.canonical_name.as_str()));
    let members = with_member(members, "encoding", encode_value_encoding(&v.encoding));
    let members = with_member(members, "wire_name", crate::json::text(v.wire_name.as_str()));
    crate::json::object(members)
}

/// The encoded decode plan.
pub open spec fn decode_plan_json(v: ArgumentDecodePlanView) -> JsonView {
    match v {
        ArgumentDecodePlanView::Identity => JsonView::Object(Seq::<MemberView>::empty()
.push(MemberView { key: "type"@, value: JsonView::Text("identity"@) })),
        ArgumentDecodePlanView::JsonObjectText { wire_name } => JsonView::Object(Seq::<MemberView>::empty()
.push(MemberView { key: "type"@, value: JsonView::Text("json_object_text"@) })
.push(MemberView { key: "wire_name"@, value: JsonView::Text(wire_name) })),
        ArgumentDecodePlanView::Fields { fields } => JsonView::Object(Seq::<MemberView>::empty()
.push(MemberView { key: "fields"@, value: JsonView::Array(fields.map_values(|x: ArgumentFieldMappingView| field_json(x))) })
.push(MemberView { key: "type"@, value: JsonView::Text("fields"@) })),
    }
}

/// Encode the decode plan.
pub fn encode_decode_plan(v: &ArgumentDecodePlan) -> (r: Json)
    ensures
        r@ == decode_plan_json(v@),
{
    match v {
        ArgumentDecodePlan::Identity => {
            let members = no_members();
            let members = with_member(members, "type", crate::json::text("identity"));
            crate::json::object(members)
        },
        ArgumentDecodePlan::JsonObjectText { wire_name } => {
            let members = no_members();
            let members = with_member(members, "type", crate::json::text("json_object_text"));
            let members = with_member(members, "wire_name", crate::json::text(wire_name.as_str()));
            crate::json::object(members)
        },
        ArgumentDecodePlan::Fields { fields } => {
    let f0 = |x: &ArgumentFieldMapping| -> (r: Json)
        ensures
            r@ == field_json(x@),
    { encode_field(x) };
            let members = no_members();
            let members = with_member(members, "fields", crate::json::array(map_each(fields, f0, Ghost(|x: ArgumentFieldMappingView| field_json(x)))));
            let members = with_member(members, "type", crate::json::text("fields"));
            crate::json::object(members)
        },
    }
}

/// The encoded explanation.
pub open spec fn constraint_json(v: ToolConstraintFragmentView) -> JsonView {
    JsonView::Object(Seq::<MemberView>::empty()
.push(MemberView { key: "digest"@, value: JsonView::Text(v.digest) })
.push(MemberView { key: "id"@, value: JsonView::Text(v.id) })
.push(MemberView { key: "text"@, value: JsonView::Text(v.text) }))
}

/// Encode the explanation.
pub fn encode_constraint(v: &ToolConstraintFragment) -> (r: Json)
    ensures
        r@ == constraint_json(v@),
{
    let members = no_members();
    let members = with_member(members, "digest", crate::json::text(v.digest.as_str()));
    let members = with_member(members, "id", crate::json::text(v.id.as_str()));
    let members = with_member(members, "text", crate::json::text(v.text.as_str()));
    crate::json::object(members)
}

/// The encoded place of enforcement.
pub open spec fn enforcement_json(v: ToolConstraintEnforcementView) -> JsonView {
    JsonView::Object(Seq::<MemberView>::empty()
.push(MemberView { key: "canonical_pointer"@, value: JsonView::Text(v.canonical_pointer) })
.push(MemberView { key: "context_text"@, value: JsonView::Bool(v.context_text) })
.push(MemberView { key: "core"@, value: JsonView::Bool(v.core) })
.push(MemberView { key: "provider_native"@, value: JsonView::Bool(v.provider_native) }))
}

/// Encode the place of enforcement.
pub fn encode_enforcement(v: &ToolConstraintEnforcement) -> (r: Json)
    ensures
        r@ == enforcement_json(v@),
{
    let members = no_members();
    let members = with_member(members, "canonical_pointer", crate::json::text(v.canonical_pointer.as_str()));
    let members = with_member(members, "context_text", Json::Bool(v.context_text));
    let members = with_member(members, "core", Json::Bool(v.core));
    let members = with_member(members, "provider_native", Json::Bool(v.provider_native));
    crate::json::object(members)
}

/// The encoded contract.
pub open spec fn contract_data_json(v: ContractDataView) -> JsonView {
    JsonView::Object(Seq::<MemberView>::empty()
.push(MemberView { key: "canonical_name"@, value: JsonView::Text(v.canonical_name) })
.push(MemberView { key: "canonical_schema_digest"@, value: JsonView::Text(v.canonical_schema_digest) })
.push(MemberView { key: "compiler"@, value: versioned_json(v.compiler) })
.push(MemberView { key: "decode_plan"@, value: decode_plan_json(v.decode_plan) })
.push(MemberView { key: "descriptor_digest"@, value: JsonView::Text(v.descriptor_digest) })
.push(MemberView { key: "enforcement"@, value: JsonView::Array(v.enforcement.map_values(|x: ToolConstraintEnforcementView| enforcement_json(x))) })
.push(MemberView { key: "fragments"@, value: JsonView::Array(v.fragments.map_values(|x: ToolConstraintFragmentView| constraint_json(x))) })
.push(MemberView { key: "schema_version"@, value: JsonView::Text(v.schema_version) })
.push(MemberView { key: "target"@, value: tool_target_json(v.target) })
.push(MemberView { key: "tool"@, value: versioned_json(v.tool) })
.push(MemberView { key: "wire_tool"@, value: model_tool_json(v.wire_tool) }))
}

/// Encode the contract.
pub fn encode_contract_data(v: &ContractData) -> (r: Json)
    ensures
        r@ == contract_data_json(v@),
{
    let f5 = |x: &ToolConstraintEnforcement| -> (r: Json)
        ensures
            r@ == enforcement_json(x@),
    { encode_enforcement(x) };
    let f6 = |x: &ToolConstraintFragment| -> (r: Json)
        ensures
            r@ == constraint_json(x@),
    { encode_constraint(x) };
    let members = no_members();
    let members = with_member(members, "canonical_name", crate::json::text(v.canonical_name.as_str()));
    let members = with_member(members, "canonical_schema_digest", crate::json::text(v.canonical_schema_digest.as_str()));
    let members = with_member(members, "compiler", encode_versioned(&v.compiler));
    let members = with_member(members, "decode_plan", encode_decode_plan(&v.decode_plan));
    let members = with_member(members, "descriptor_digest", crate::json::text(v.descriptor_digest.as_str()));
    let members = with_member(members, "enforcement", crate::json::array(map_each(&v.enforcement, f5, Ghost(|x: ToolConstraintEnforcementView| enforcement_json(x)))));
    let members = with_member(members, "fragments", crate::json::array(map_each(&v.fragments, f6, Ghost(|x: ToolConstraintFragmentView| constraint_json(x)))));
    let members = with_member(members, "schema_version", crate::json::text(v.schema_version.as_str()));
    let members = with_member(members, "target", encode_tool_target(&v.target));
    let members = with_member(members, "tool", encode_versioned(&v.tool));
    let members = with_member(members, "wire_tool", encode_model_tool(&v.wire_tool));
    crate::json::object(members)
}

/// The encoded stored contract.
pub open spec fn contract_json(v: CompiledToolContractView) -> JsonView {
    JsonView::Object(Seq::<MemberView>::empty()
.push(MemberView { key: "data"@, value: contract_data_json(v.data) })
.push(MemberView { key: "digest"@, value: JsonView::Text(v.digest) }))
}

/// Encode the stored contract.
pub fn encode_contract(v: &CompiledToolContract) -> (r: Json)
    ensures
        r@ == contract_json(v@),
{
    let members = no_members();
    let members = with_member(members, "data", encode_contract_data(&v.data));
    let members = with_member(members, "digest", crate::json::text(v.digest.as_str()));
    crate::json::object(members)
}

impl ProviderToolTarget {
    /// Capture the selected route without connection metadata or credentials.
    pub fn for_route(route: &ResolvedModelRoute) -> (r: Self)
        ensures
            r@ == target_of(route@),
    {
        ProviderToolTarget {
            model: Some(
                VersionedRef { id: route.model_id.copy(), version: route.model_version.copy() },
            ),
            provider: route.provider.copy(),
            api_contract: route.api_contract.copy(),
            capability_revision: route.capability_revision.copy(),
        }
    }

    fn matches_saved(&self, saved: &ProviderToolTarget) -> (r: bool)
        ensures
            r == serves(self@, saved@),
    {
        let model = match &saved.model {
            Some(model) => crate::data::is_same(&self.model, model),
            None => true,
        };
        self.provider.same(&saved.provider) && self.api_contract.same(&saved.api_contract)
            && self.capability_revision.same(&saved.capability_revision) && model
    }
}

/// The target that a route leads to.
pub open spec fn target_of(route: ResolvedModelRouteView) -> ProviderToolTargetView {
    ProviderToolTargetView {
        model: Some(VersionedRefView { id: route.model_id, version: route.model_version }),
        provider: route.provider,
        api_contract: route.api_contract,
        capability_revision: route.capability_revision,
    }
}

/// A target is the one that a contract was saved for. Older contracts name no model.
pub open spec fn serves(target: ProviderToolTargetView, saved: ProviderToolTargetView) -> bool {
    &&& target.provider == saved.provider
    &&& target.api_contract == saved.api_contract
    &&& target.capability_revision == saved.capability_revision
    &&& saved.model is Some ==> target.model == saved.model
}

/// Bounds that suit common providers.
pub open spec fn usual_limits() -> ProviderToolSchemaLimitsView {
    ProviderToolSchemaLimitsView {
        max_schema_bytes: 65_536,
        max_schema_depth: 64,
        max_contract_bytes: 262_144,
        max_argument_bytes: 65_536,
    }
}

impl ProviderToolSchemaLimits {
    /// Bounds that suit common providers.
    pub fn default() -> (r: Self)
        ensures
            r@ == usual_limits(),
    {
        ProviderToolSchemaLimits {
            max_schema_bytes: 65_536,
            max_schema_depth: 64,
            max_contract_bytes: 262_144,
            max_argument_bytes: 65_536,
        }
    }
}

/// Trusted adapter extension. A compiler sees only the model-visible tool; hidden definitions,
/// system values, credentials and runtime handles are absent.
pub trait ProviderToolSchemaCompiler {
    /// Immutable implementation identity; its version changes when the output changes.
    fn reference(&self) -> VersionedRef;

    /// Preserve native constraints where supported. An unsupported representation uses a relaxed
    /// schema and a reversible codec; it never deletes the tool.
    fn compile(&self, tool: &ModelTool, target: &ProviderToolTarget) -> Result<
        ProviderToolProjection,
        ContractError,
    >;
}

/// Compiler for protocols that accept the model-visible JSON Schema as it is.
#[derive(Debug, Clone, Copy)]
pub struct NativeToolSchemaCompiler;

impl Default for NativeToolSchemaCompiler {
    fn default() -> (r: Self)
        ensures
            r == NativeToolSchemaCompiler,
    {
        NativeToolSchemaCompiler
    }
}

impl ProviderToolSchemaCompiler for NativeToolSchemaCompiler {
    fn reference(&self) -> (r: VersionedRef)
        ensures
            r@ == (VersionedRefView { id: "wickle-native-tool-schema"@, version: "1"@ }),
    {
        proof {
            reveal_strlit("wickle-native-tool-schema");
            reveal_strlit("1");
            assert(!white_space("wickle-native-tool-schema"@[0]) && !white_space("1"@[0]));
        }
        VersionedRef { id: Id::literal("wickle-native-tool-schema"), version: Id::literal("1") }
    }

    fn compile(&self, tool: &ModelTool, target: &ProviderToolTarget) -> (r: Result<
        ProviderToolProjection,
        ContractError,
    >)
        ensures
            r matches Ok(projection) && projection@ == (ProviderToolProjectionView {
                wire_tool: tool@,
                decode_plan: ArgumentDecodePlanView::Identity,
            }),
    {
        Ok(
            ProviderToolProjection {
                wire_tool: tool.copy(),
                decode_plan: ArgumentDecodePlan::Identity,
            },
        )
    }
}

/// The failure of a projection.
pub open spec fn refused(path: &str) -> Option<Fault> {
    fault(ErrorCode::UnsupportedInputProjection, path)
}

fn invalid<T>(path: &str) -> (r: Result<T, ContractError>)
    ensures
        r is Err,
        failure(r) == refused(path),
{
    fail(ErrorCode::UnsupportedInputProjection, path)
}

/// Why limits are unusable.
pub open spec fn limits_fault(limits: ProviderToolSchemaLimitsView) -> Option<Fault> {
    if limits.max_schema_depth == 0 || limits.max_schema_depth > 128 || limits.max_schema_bytes == 0
        || limits.max_contract_bytes == 0 || limits.max_argument_bytes == 0 {
        refused("provider_tool.limits")
    } else {
        None
    }
}

pub(crate) fn check_limits(limits: &ProviderToolSchemaLimits) -> (r: Result<(), ContractError>)
    ensures
        failure(r) == limits_fault(limits@),
{
    if limits.max_schema_depth == 0 || limits.max_schema_depth > 128 || limits.max_schema_bytes == 0
        || limits.max_contract_bytes == 0 || limits.max_argument_bytes == 0 {
        return invalid("provider_tool.limits");
    }
    Ok(())
}

/// Why a schema nests too deep.
pub open spec fn depth_fault(schema: JsonView, max: usize) -> Option<Fault> {
    if within_depth(schema, max as int) {
        None
    } else {
        refused("provider_tool.depth")
    }
}

fn depth_bound(schema: &Json, max: usize) -> (r: Result<(), ContractError>)
    ensures
        failure(r) == depth_fault(schema@, max),
{
    if !is_within_depth(schema, max) {
        return invalid("provider_tool.depth");
    }
    Ok(())
}

/// Why an encoded value is too large.
pub open spec fn size_fault(value: JsonView, max: usize) -> Option<Fault> {
    if encoded_bytes(value) > max {
        refused("provider_tool.size")
    } else {
        None
    }
}

fn bounded(value: &Json, max: usize) -> (r: Result<(), ContractError>)
    ensures
        failure(r) == size_fault(value@, max),
{
    if encoded_bytes_exceed(value, max) {
        return invalid("provider_tool.size");
    }
    Ok(())
}

/// A character that a tool name may hold.
pub open spec fn is_name_char(c: char) -> bool {
    ||| 'a' <= c <= 'z'
    ||| 'A' <= c <= 'Z'
    ||| '0' <= c <= '9'
    ||| c == '_'
    ||| c == '-'
}

/// A name that every provider takes.
pub open spec fn is_valid_name(name: Seq<char>) -> bool {
    &&& 0 < name.len() <= 64
    &&& forall|i: int| 0 <= i < name.len() ==> is_name_char(#[trigger] name[i])
}

fn valid_name(name: &str) -> (r: bool)
    ensures
        r == is_valid_name(name@),
{
    let chars = chars_of(name);
    if chars.len() == 0 || chars.len() > 64 {
        return false;
    }
    let mut i: usize = 0;
    while i < chars.len()
        invariant
            i <= chars.len(),
            0 < chars.len() <= 64,
            chars@ == name@,
            forall|j: int| 0 <= j < i ==> is_name_char(#[trigger] name@[j]),
        decreases chars.len() - i,
    {
        let c = chars[i];
        if !(('a' <= c && c <= 'z') || ('A' <= c && c <= 'Z') || ('0' <= c && c <= '9') || c == '_'
            || c == '-') {
            assert(!is_name_char(name@[i as int]));
            return false;
        }
        i = i + 1;
    }
    true
}

/// The properties of an object schema.
pub open spec fn properties_of(schema: JsonView) -> Option<Seq<MemberView>> {
    match get_of(schema, "properties"@) {
        Some(JsonView::Object(members)) => Some(members),
        _ => None,
    }
}

fn properties(schema: &Json) -> (r: Option<&Vec<Member>>)
    ensures
        match r {
            Some(members) => properties_of(schema@) == Some(members.deep_view()),
            None => properties_of(schema@) is None,
        },
{
    match schema.get("properties") {
        Some(value) => match value {
            Json::Object(members) => {
                proof {
                    lemma_object_view(*members);
                }
                Some(members)
            },
            _ => None,
        },
        None => None,
    }
}

/// The keys of members, in order.
pub open spec fn keys_of(members: Seq<MemberView>) -> Seq<Seq<char>> {
    members.map_values(|member: MemberView| member.key)
}

fn has_same_keys(a: &Vec<Member>, b: &Vec<Member>) -> (r: bool)
    ensures
        r == (keys_of(a.deep_view()) == keys_of(b.deep_view())),
{
    let key = |member: &Member| -> (r: String)
        ensures
            r@ == member@.key,
    { member.key.copy() };
    let first = map_each(a, key, Ghost(|member: MemberView| member.key));
    let second = map_each(b, key, Ghost(|member: MemberView| member.key));
    first.same(&second)
}

/// The mappings from a wire property.
pub open spec fn from_wire(name: Seq<char>) -> spec_fn(ArgumentFieldMappingView) -> bool {
    |field: ArgumentFieldMappingView| field.wire_name == name
}

/// The mappings to a canonical property.
pub open spec fn to_canonical(name: Seq<char>) -> spec_fn(ArgumentFieldMappingView) -> bool {
    |field: ArgumentFieldMappingView| field.canonical_name == name
}

/// Why the mapping at a position is refused.
pub open spec fn mapping_fault(
    fields: Seq<ArgumentFieldMappingView>,
    wire: Seq<MemberView>,
    canonical: Seq<MemberView>,
) -> spec_fn(int) -> Option<Fault> {
    |i: int|
        {
            let field = fields[i];
            if value_of(wire, field.wire_name) is None || value_of(
                canonical,
                field.canonical_name,
            ) is None || some_in(fields.take(i), from_wire(field.wire_name)) || some_in(
                fields.take(i),
                to_canonical(field.canonical_name),
            ) {
                refused("provider_tool.codec_mapping")
            } else {
                match field.encoding {
                    ArgumentValueEncodingView::Presence { present_key, value_key } => {
                        if present_key.len() == 0 || value_key.len() == 0 || present_key
                            == value_key {
                            refused("provider_tool.presence_keys")
                        } else {
                            None
                        }
                    },
                    _ => None,
                }
            }
        }
}

/// Why a decode plan does not lead from a wire schema back to the canonical one.
pub open spec fn codec_fault(
    canonical_schema: JsonView,
    wire_schema: JsonView,
    plan: ArgumentDecodePlanView,
) -> Option<Fault> {
    match (properties_of(canonical_schema), properties_of(wire_schema)) {
        (None, _) => refused("provider_tool.canonical_properties"),
        (Some(_), None) => refused("provider_tool.wire_properties"),
        (Some(canonical), Some(wire)) => match plan {
            ArgumentDecodePlanView::Identity => if keys_of(canonical) == keys_of(wire) {
                None
            } else {
                refused("provider_tool.codec_mapping")
            },
            ArgumentDecodePlanView::JsonObjectText { wire_name } => if wire.len() == 1 && (value_of(
                wire,
                wire_name,
            ) matches Some(property) && get_of(property, "type"@) == Some(
                JsonView::Text("string"@),
            )) {
                None
            } else {
                refused("provider_tool.codec_mapping")
            },
            ArgumentDecodePlanView::Fields { fields } => {
                let mapping = first_index_fault(
                    0,
                    fields.len() as int,
                    mapping_fault(fields, wire, canonical),
                );
                if mapping is Some {
                    mapping
                } else if fields.len() != wire.len() || fields.len() != canonical.len() {
                    refused("provider_tool.codec_coverage")
                } else {
                    None
                }
            },
        },
    }
}

fn check_mapping(
    fields: &Vec<ArgumentFieldMapping>,
    wire: &Vec<Member>,
    canonical: &Vec<Member>,
    i: usize,
) -> (r: Result<(), ContractError>)
    requires
        i < fields.len(),
    ensures
        failure(r) == mapping_fault(fields.deep_view(), wire.deep_view(), canonical.deep_view())(
            i as int,
        ),
{
    let field = &fields[i];
    assert(field@ == fields.deep_view()[i as int]);
    let same_wire = |other: &ArgumentFieldMapping| -> (b: bool)
        ensures
            b == from_wire(field@.wire_name)(other@),
    { other.wire_name.same(&field.wire_name) };
    let same_canonical = |other: &ArgumentFieldMapping| -> (b: bool)
        ensures
            b == to_canonical(field@.canonical_name)(other@),
    { other.canonical_name.same(&field.canonical_name) };
    if member_value(wire, field.wire_name.as_str()).is_none() || member_value(
        canonical,
        field.canonical_name.as_str(),
    ).is_none() || any_before(fields, i, same_wire, Ghost(from_wire(field@.wire_name)))
        || any_before(fields, i, same_canonical, Ghost(to_canonical(field@.canonical_name))) {
        return invalid("provider_tool.codec_mapping");
    }
    if let ArgumentValueEncoding::Presence { present_key, value_key } = &field.encoding {
        if chars_of(present_key.as_str()).len() == 0 || chars_of(value_key.as_str()).len() == 0
            || present_key.same(value_key) {
            return invalid("provider_tool.presence_keys");
        }
    }
    Ok(())
}

fn validate_codec(canonical_schema: &Json, wire_schema: &Json, plan: &ArgumentDecodePlan) -> (r:
    Result<(), ContractError>)
    ensures
        failure(r) == codec_fault(canonical_schema@, wire_schema@, plan@),
{
    let canonical = match properties(canonical_schema) {
        Some(canonical) => canonical,
        None => {
            return invalid("provider_tool.canonical_properties");
        },
    };
    let wire = match properties(wire_schema) {
        Some(wire) => wire,
        None => {
            return invalid("provider_tool.wire_properties");
        },
    };
    assert(wire.deep_view().len() == wire.len());
    assert(canonical.deep_view().len() == canonical.len());
    match plan {
        ArgumentDecodePlan::Identity => {
            if has_same_keys(canonical, wire) {
                return Ok(());
            }
            invalid("provider_tool.codec_mapping")
        },
        ArgumentDecodePlan::JsonObjectText { wire_name } => {
            let is_string = match member_value(wire, wire_name.as_str()) {
                Some(property) => match property.get("type") {
                    Some(kind) => kind.is_text("string"),
                    None => false,
                },
                None => false,
            };
            if wire.len() == 1 && is_string {
                return Ok(());
            }
            invalid("provider_tool.codec_mapping")
        },
        ArgumentDecodePlan::Fields { fields } => {
            let mapped = |i: usize| -> (r: Result<(), ContractError>)
                requires
                    i < fields.len(),
                ensures
                    failure(r) == mapping_fault(
                        fields.deep_view(),
                        wire.deep_view(),
                        canonical.deep_view(),
                    )(i as int),
            { check_mapping(fields, wire, canonical, i) };
            check_indices(
                fields.len(),
                mapped,
                Ghost(
                    mapping_fault(fields.deep_view(), wire.deep_view(), canonical.deep_view()),
                ),
            )?;
            if fields.len() != wire.len() || fields.len() != canonical.len() {
                return invalid("provider_tool.codec_coverage");
            }
            Ok(())
        },
    }
}

/// An encoding as the model reads it.
pub open spec fn encoding_text(encoding: ArgumentValueEncodingView) -> Seq<char> {
    match encoding {
        ArgumentValueEncodingView::Identity => "{\"type\":\"identity\"}"@,
        ArgumentValueEncodingView::JsonText { optional } => if optional {
            "{\"type\":\"json_text\",\"optional\":true}"@
        } else {
            "{\"type\":\"json_text\",\"optional\":false}"@
        },
        ArgumentValueEncodingView::Presence { present_key, value_key } => {
            "{\"type\":\"presence\",\"present_key\":"@ + json_literal(present_key)
                + ",\"value_key\":"@ + json_literal(value_key) + "}"@
        },
    }
}

/// A mapping as the model reads it.
pub open spec fn field_text(field: ArgumentFieldMappingView) -> Seq<char> {
    "{\"wire_name\":"@ + json_literal(field.wire_name) + ",\"canonical_name\":"@ + json_literal(
        field.canonical_name,
    ) + ",\"encoding\":"@ + encoding_text(field.encoding) + "}"@
}

/// A decode plan as the model reads it.
pub open spec fn plan_text(plan: ArgumentDecodePlanView) -> Seq<char> {
    match plan {
        ArgumentDecodePlanView::Identity => "{\"type\":\"identity\"}"@,
        ArgumentDecodePlanView::JsonObjectText { wire_name } => {
            "{\"type\":\"json_object_text\",\"wire_name\":"@ + json_literal(wire_name) + "}"@
        },
        ArgumentDecodePlanView::Fields { fields } => "{\"type\":\"fields\",\"fields\":["@
            + listed(fields.map_values(|field: ArgumentFieldMappingView| field_text(field)))
            + "]}"@,
    }
}

fn joined_text(parts: &Vec<String>) -> (r: String)
    ensures
        r@ == listed(parts.deep_view()),
{
    let ghost s = parts.deep_view();
    let mut out = String::new();
    let mut i: usize = 0;
    assert(s.take(0) =~= Seq::<Seq<char>>::empty());
    while i < parts.len()
        invariant
            i <= parts.len(),
            s == parts.deep_view(),
            out@ == listed(s.take(i as int)),
        decreases parts.len() - i,
    {
        assert(s.take(i + 1).drop_last() =~= s.take(i as int));
        assert(s.take(i + 1).last() == parts@[i as int]@);
        if i == 0 {
            out = parts[0].copy();
        } else {
            let comma = concat(out.as_str(), ",");
            out = concat(comma.as_str(), parts[i].as_str());
        }
        i = i + 1;
    }
    assert(s.take(i as int) =~= s);
    out
}

fn write_encoding(encoding: &ArgumentValueEncoding) -> (r: String)
    ensures
        r@ == encoding_text(encoding@),
{
    match encoding {
        ArgumentValueEncoding::Identity => "{\"type\":\"identity\"}".to_owned(),
        ArgumentValueEncoding::JsonText { optional } => if *optional {
            "{\"type\":\"json_text\",\"optional\":true}".to_owned()
        } else {
            "{\"type\":\"json_text\",\"optional\":false}".to_owned()
        },
        ArgumentValueEncoding::Presence { present_key, value_key } => {
            let out = concat(
                "{\"type\":\"presence\",\"present_key\":",
                json_string(present_key.as_str()).as_str(),
            );
            let out = concat(out.as_str(), ",\"value_key\":");
            let out = concat(out.as_str(), json_string(value_key.as_str()).as_str());
            concat(out.as_str(), "}")
        },
    }
}

fn write_field(field: &ArgumentFieldMapping) -> (r: String)
    ensures
        r@ == field_text(field@),
{
    let out = concat("{\"wire_name\":", json_string(field.wire_name.as_str()).as_str());
    let out = concat(out.as_str(), ",\"canonical_name\":");
    let out = concat(out.as_str(), json_string(field.canonical_name.as_str()).as_str());
    let out = concat(out.as_str(), ",\"encoding\":");
    let out = concat(out.as_str(), write_encoding(&field.encoding).as_str());
    concat(out.as_str(), "}")
}

fn write_plan(plan: &ArgumentDecodePlan) -> (r: String)
    ensures
        r@ == plan_text(plan@),
{
    match plan {
        ArgumentDecodePlan::Identity => "{\"type\":\"identity\"}".to_owned(),
        ArgumentDecodePlan::JsonObjectText { wire_name } => {
            let out = concat(
                "{\"type\":\"json_object_text\",\"wire_name\":",
                json_string(wire_name.as_str()).as_str(),
            );
            concat(out.as_str(), "}")
        },
        ArgumentDecodePlan::Fields { fields } => {
            let written = |field: &ArgumentFieldMapping| -> (r: String)
                ensures
                    r@ == field_text(field@),
            { write_field(field) };
            let parts = map_each(
                fields,
                written,
                Ghost(|field: ArgumentFieldMappingView| field_text(field)),
            );
            let out = concat("{\"type\":\"fields\",\"fields\":[", joined_text(&parts).as_str());
            concat(out.as_str(), "]}")
        },
    }
}

/// A text, or nothing.
pub open spec fn only_if(condition: bool, text: Seq<char>) -> Seq<char> {
    if condition {
        text
    } else {
        Seq::empty()
    }
}

fn append_if(out: String, condition: bool, text: &str) -> (r: String)
    ensures
        r@ == out@ + only_if(condition, text@),
{
    if condition {
        concat(out.as_str(), text)
    } else {
        assert(out@ =~= out@ + Seq::<char>::empty());
        out
    }
}

/// Some mapping has an encoding of this kind.
pub open spec fn uses_identity(fields: Seq<ArgumentFieldMappingView>) -> bool {
    some_in(fields, |field: ArgumentFieldMappingView| field.encoding is Identity)
}

/// Some mapping has an encoding of this kind.
pub open spec fn uses_presence(fields: Seq<ArgumentFieldMappingView>) -> bool {
    some_in(fields, |field: ArgumentFieldMappingView| field.encoding is Presence)
}

/// The mappings that are written as JSON text, optional or not.
pub open spec fn is_json_text(optional: bool) -> spec_fn(ArgumentFieldMappingView) -> bool {
    |field: ArgumentFieldMappingView|
        field.encoding == (ArgumentValueEncodingView::JsonText { optional })
}

fn has_identity(fields: &Vec<ArgumentFieldMapping>) -> (r: bool)
    ensures
        r == uses_identity(fields.deep_view()),
{
    let kind = |field: &ArgumentFieldMapping| -> (b: bool)
        ensures
            b == (field@.encoding is Identity),
    {
        match &field.encoding {
            ArgumentValueEncoding::Identity => true,
            _ => false,
        }
    };
    any(fields, kind, Ghost(|field: ArgumentFieldMappingView| field.encoding is Identity))
}

fn has_presence(fields: &Vec<ArgumentFieldMapping>) -> (r: bool)
    ensures
        r == uses_presence(fields.deep_view()),
{
    let kind = |field: &ArgumentFieldMapping| -> (b: bool)
        ensures
            b == (field@.encoding is Presence),
    {
        match &field.encoding {
            ArgumentValueEncoding::Presence { .. } => true,
            _ => false,
        }
    };
    any(fields, kind, Ghost(|field: ArgumentFieldMappingView| field.encoding is Presence))
}

fn has_json_text(fields: &Vec<ArgumentFieldMapping>, optional: bool) -> (r: bool)
    ensures
        r == some_in(fields.deep_view(), is_json_text(optional)),
{
    let kind = |field: &ArgumentFieldMapping| -> (b: bool)
        ensures
            b == is_json_text(optional)(field@),
    {
        match &field.encoding {
            ArgumentValueEncoding::JsonText { optional: given } => *given == optional,
            _ => false,
        }
    };
    any(fields, kind, Ghost(is_json_text(optional)))
}

/// What the first format adds about a decode plan.
pub open spec fn first_instructions(plan: ArgumentDecodePlanView) -> Seq<char> {
    match plan {
        ArgumentDecodePlanView::Identity => Seq::empty(),
        ArgumentDecodePlanView::JsonObjectText { .. } => {
            " For json_object_text, send exactly the named wire property as a JSON string containing the entire canonical argument object. Preserve absent properties and explicit null values inside it; do not include system-owned fields."@
        },
        ArgumentDecodePlanView::Fields { fields } => only_if(
            some_in(fields, is_json_text(false)) || some_in(fields, is_json_text(true)),
            " For json_text, the wire value is a JSON string parsed by the core. With optional=false it encodes the canonical value itself. With optional=true it must encode [] for omission or [value] for a supplied value, including [null] for explicit null. Nested optional properties remain absent inside that JSON document; do not replace absence with null."@,
        ),
    }
}

/// What the second format adds about a decode plan.
pub open spec fn second_instructions(plan: ArgumentDecodePlanView) -> Seq<char> {
    match plan {
        ArgumentDecodePlanView::Identity => {
            " Identity values are sent directly as canonical values; do not stringify them or add an envelope."@
        },
        ArgumentDecodePlanView::JsonObjectText { .. } => {
            " Send exactly the named wire property as a JSON string containing the entire canonical argument object. Preserve absent properties and explicit null; do not include system-owned fields."@
        },
        ArgumentDecodePlanView::Fields { fields } => only_if(
            uses_identity(fields),
            " Fields marked identity use the canonical value directly. Do not stringify it or add an envelope. Omit absent optional fields; send JSON null for an explicit null."@,
        ) + only_if(
            uses_presence(fields),
            " Only fields marked presence use the specified present_key and value_key envelope. Both members are required: true marks a supplied value (including null); false with a null placeholder means omission."@,
        ) + only_if(
            some_in(fields, is_json_text(false)),
            " Only fields marked json_text with optional=false use a JSON string encoding the canonical value itself. Nested absent properties stay absent."@,
        ) + only_if(
            some_in(fields, is_json_text(true)),
            " Only fields marked json_text with optional=true use a JSON string encoding [] for omission or [value] for a supplied value, including [null] for explicit null. Nested absent properties stay absent."@,
        ),
    }
}

/// What tells the model about the constraints of a canonical schema.
pub open spec fn explanation(
    first_format: bool,
    name: Seq<char>,
    schema: JsonView,
    plan: ArgumentDecodePlanView,
) -> Seq<char> {
    let start = "Tool "@ + name
        + ": arguments must satisfy this canonical JSON Schema after decoding: "@ + canonical_text(
        schema,
    ) + "\nDecode representation: "@ + plan_text(plan);
    if first_format {
        start
            + ". Field mappings restore wire_name to canonical_name. For a presence envelope, both members are required: true marks a supplied value (including explicit null); false with a null value placeholder means omission. Preserve omission and explicit null as distinct values."@
            + first_instructions(plan)
    } else {
        start
            + ". Follow the declared wire schema and each field's encoding. Preserve omission and explicit null as distinct values."@
            + second_instructions(plan)
    }
}

fn add_first_instructions(out: String, plan: &ArgumentDecodePlan) -> (r: String)
    ensures
        r@ == out@ + first_instructions(plan@),
{
    match plan {
        ArgumentDecodePlan::Identity => {
            assert(out@ =~= out@ + Seq::<char>::empty());
            out
        },
        ArgumentDecodePlan::JsonObjectText { .. } => concat(
            out.as_str(),
            " For json_object_text, send exactly the named wire property as a JSON string containing the entire canonical argument object. Preserve absent properties and explicit null values inside it; do not include system-owned fields.",
        ),
        ArgumentDecodePlan::Fields { fields } => append_if(
            out,
            has_json_text(fields, false) || has_json_text(fields, true),
            " For json_text, the wire value is a JSON string parsed by the core. With optional=false it encodes the canonical value itself. With optional=true it must encode [] for omission or [value] for a supplied value, including [null] for explicit null. Nested optional properties remain absent inside that JSON document; do not replace absence with null.",
        ),
    }
}

fn add_second_instructions(out: String, plan: &ArgumentDecodePlan) -> (r: String)
    ensures
        r@ == out@ + second_instructions(plan@),
{
    match plan {
        ArgumentDecodePlan::Identity => concat(
            out.as_str(),
            " Identity values are sent directly as canonical values; do not stringify them or add an envelope.",
        ),
        ArgumentDecodePlan::JsonObjectText { .. } => concat(
            out.as_str(),
            " Send exactly the named wire property as a JSON string containing the entire canonical argument object. Preserve absent properties and explicit null; do not include system-owned fields.",
        ),
        ArgumentDecodePlan::Fields { fields } => {
            let ghost start = out@;
            let out = append_if(
                out,
                has_identity(fields),
                " Fields marked identity use the canonical value directly. Do not stringify it or add an envelope. Omit absent optional fields; send JSON null for an explicit null.",
            );
            let out = append_if(
                out,
                has_presence(fields),
                " Only fields marked presence use the specified present_key and value_key envelope. Both members are required: true marks a supplied value (including null); false with a null placeholder means omission.",
            );
            let out = append_if(
                out,
                has_json_text(fields, false),
                " Only fields marked json_text with optional=false use a JSON string encoding the canonical value itself. Nested absent properties stay absent.",
            );
            let out = append_if(
                out,
                has_json_text(fields, true),
                " Only fields marked json_text with optional=true use a JSON string encoding [] for omission or [value] for a supplied value, including [null] for explicit null. Nested absent properties stay absent.",
            );
            assert(out@ =~= start + second_instructions(plan@));
            out
        },
    }
}

fn explain(first_format: bool, name: &Id, schema: &Json, plan: &ArgumentDecodePlan) -> (r: String)
    ensures
        r@ == explanation(first_format, name@, schema@, plan@),
{
    let out = concat("Tool ", name.as_str());
    let out = concat(
        out.as_str(),
        ": arguments must satisfy this canonical JSON Schema after decoding: ",
    );
    let out = concat(out.as_str(), canonical_json(schema).as_str());
    let out = concat(out.as_str(), "\nDecode representation: ");
    let out = concat(out.as_str(), write_plan(plan).as_str());
    if first_format {
        let out = concat(
            out.as_str(),
            ". Field mappings restore wire_name to canonical_name. For a presence envelope, both members are required: true marks a supplied value (including explicit null); false with a null value placeholder means omission. Preserve omission and explicit null as distinct values.",
        );
        add_first_instructions(out, plan)
    } else {
        let out = concat(
            out.as_str(),
            ". Follow the declared wire schema and each field's encoding. Preserve omission and explicit null as distinct values.",
        );
        add_second_instructions(out, plan)
    }
}

/// The fragment of an explanation, named by its content.
pub open spec fn fragment_of(text: Seq<char>) -> ToolConstraintFragmentView {
    ToolConstraintFragmentView {
        id: "tool-constraints-"@ + digest_of(JsonView::Text(text)),
        text,
        digest: digest_of(JsonView::Text(text)),
    }
}

/// The formats of a stored contract.
pub open spec fn first_version() -> Seq<char> {
    "wickle.provider-tool-contract.v1"@
}

/// The formats of a stored contract.
pub open spec fn second_version() -> Seq<char> {
    "wickle.provider-tool-contract.v2"@
}

/// The wire schema is the canonical one and arguments are sent unchanged.
pub open spec fn is_unchanged(
    tool: CompiledToolView,
    projection: ProviderToolProjectionView,
) -> bool {
    &&& projection.decode_plan is Identity
    &&& projection.wire_tool.model_input_schema == tool.model_tool.model_input_schema
}

/// What a contract pins.
pub open spec fn contract_data(
    tool: CompiledToolView,
    target: ProviderToolTargetView,
    compiler: VersionedRefView,
    projection: ProviderToolProjectionView,
    schema_version: Seq<char>,
) -> ContractDataView {
    let schema = tool.model_tool.model_input_schema;
    let unchanged = is_unchanged(tool, projection);
    ContractDataView {
        schema_version,
        tool: tool.tool,
        canonical_name: tool.name,
        descriptor_digest: tool.descriptor_digest,
        canonical_schema_digest: tool.model_schema_digest,
        compiler,
        target,
        wire_tool: projection.wire_tool,
        decode_plan: projection.decode_plan,
        fragments: if unchanged {
            Seq::empty()
        } else {
            seq![
                fragment_of(
                    explanation(
                        schema_version == first_version(),
                        projection.wire_tool.name,
                        schema,
                        projection.decode_plan,
                    ),
                ),
            ]
        },
        enforcement: schema_entries(
            schema,
            Some(projection.wire_tool.model_input_schema),
            ""@,
            Mechanism { identity: unchanged, text: !unchanged },
        ),
    }
}

/// A contract with its digest.
pub open spec fn sealed(data: ContractDataView) -> CompiledToolContractView {
    CompiledToolContractView { data, digest: digest_of(contract_data_json(data)) }
}

/// Why a projection is refused.
pub open spec fn build_fault(
    tool: CompiledToolView,
    target: ProviderToolTargetView,
    compiler: VersionedRefView,
    projection: ProviderToolProjectionView,
    limits: ProviderToolSchemaLimitsView,
    schema_version: Seq<char>,
) -> Option<Fault> {
    let canonical = tool.model_tool.model_input_schema;
    let schema = projection.wire_tool.model_input_schema;
    if limits_fault(limits) is Some {
        limits_fault(limits)
    } else if schema_version != first_version() && schema_version != second_version() {
        refused("provider_tool.schema_version")
    } else if depth_fault(canonical, limits.max_schema_depth) is Some {
        depth_fault(canonical, limits.max_schema_depth)
    } else if depth_fault(schema, limits.max_schema_depth) is Some {
        depth_fault(schema, limits.max_schema_depth)
    } else if size_fault(model_tool_json(projection.wire_tool), limits.max_schema_bytes) is Some {
        size_fault(model_tool_json(projection.wire_tool), limits.max_schema_bytes)
    } else if !is_valid_name(projection.wire_tool.name) || get_of(schema, "type"@) != Some(
        JsonView::Text("object"@),
    ) || get_of(schema, "additionalProperties"@) != Some(JsonView::Bool(false)) {
        refused("provider_tool.wire_boundary")
    } else if compile_fault(schema) is Some {
        compile_fault(schema)
    } else if codec_fault(canonical, schema, projection.decode_plan) is Some {
        codec_fault(canonical, schema, projection.decode_plan)
    } else {
        size_fault(
            contract_json(
                sealed(contract_data(tool, target, compiler, projection, schema_version)),
            ),
            limits.max_contract_bytes,
        )
    }
}

/// Why a tool is refused before it is compiled.
pub open spec fn visible_fault(
    tool: CompiledToolView,
    limits: ProviderToolSchemaLimitsView,
) -> Option<Fault> {
    if limits_fault(limits) is Some {
        limits_fault(limits)
    } else if depth_fault(tool.model_tool.model_input_schema, limits.max_schema_depth) is Some {
        depth_fault(tool.model_tool.model_input_schema, limits.max_schema_depth)
    } else {
        size_fault(model_tool_json(tool.model_tool), limits.max_schema_bytes)
    }
}

/// Why a stored contract cannot be restored.
pub open spec fn contract_restore_fault(
    text: JsonTextView,
    decoded: Option<SavedContractView>,
    tool: CompiledToolView,
    target: ProviderToolTargetView,
    expected: Seq<char>,
    limits: ProviderToolSchemaLimitsView,
) -> Option<Fault> {
    if limits_fault(limits) is Some {
        limits_fault(limits)
    } else if encode_utf8(text.text).len() > limits.max_contract_bytes {
        refused("provider_tool.size")
    } else if !(text.reading matches ReadingView::Document { written, .. } && unambiguous(
        written,
    )) {
        fault(ErrorCode::InvalidJson, "$")
    } else {
        match decoded {
            None => refused("provider_tool.record"),
            Some(saved) => {
                let projection = ProviderToolProjectionView {
                    wire_tool: saved.data.wire_tool,
                    decode_plan: saved.data.decode_plan,
                };
                let build = build_fault(
                    tool,
                    saved.data.target,
                    saved.data.compiler,
                    projection,
                    limits,
                    saved.data.schema_version,
                );
                if saved.digest != expected || digest_of(contract_data_json(saved.data)) != expected
                    || !serves(target, saved.data.target) {
                    refused("provider_tool.identity")
                } else if build is Some {
                    build
                } else if contract_data(
                    tool,
                    saved.data.target,
                    saved.data.compiler,
                    projection,
                    saved.data.schema_version,
                ) != saved.data {
                    refused("provider_tool.identity")
                } else {
                    None
                }
            },
        }
    }
}

/// Why the answer of a compiler makes no contract.
pub open spec fn settle_fault(
    tool: CompiledToolView,
    target: ProviderToolTargetView,
    limits: ProviderToolSchemaLimitsView,
    before: VersionedRefView,
    answer: Result<ProviderToolProjection, ContractError>,
    after: VersionedRefView,
) -> Option<Fault> {
    if answer is Err {
        failure(answer)
    } else if after != before {
        refused("provider_tool.compiler_revision")
    } else {
        build_fault(tool, target, before, answer->Ok_0@, limits, second_version())
    }
}

impl CompiledToolContract {
    /// Compile only after canonical ownership separation, and validate the finite output. The
    /// compiler is handed the model-visible tool and the target, and nothing else; what it answers is
    /// its own, and `settle` says what becomes of it.
    pub fn compile<C: ProviderToolSchemaCompiler>(
        tool: &CompiledTool,
        target: ProviderToolTarget,
        compiler: &C,
        limits: &ProviderToolSchemaLimits,
    ) -> (r: Result<Self, ContractError>)
        ensures
            visible_fault(tool@, limits@) is Some ==> failure(r) == visible_fault(tool@, limits@),
            visible_fault(tool@, limits@) is None ==> exists|
                before: VersionedRef,
                answer: Result<ProviderToolProjection, ContractError>,
                after: VersionedRef,
            |
                #![trigger settle_fault(tool@, target@, limits@, before@, answer, after@)]
                {
                    &&& call_ensures(C::reference, (compiler,), before)
                    &&& call_ensures(C::compile, (compiler, &tool.model_tool, &target), answer)
                    &&& answer is Ok ==> call_ensures(C::reference, (compiler,), after)
                    &&& failure(r) == settle_fault(
                        tool@,
                        target@,
                        limits@,
                        before@,
                        answer,
                        after@,
                    )
                    &&& r matches Ok(contract) ==> contract@ == sealed(
                        contract_data(
                            tool@,
                            target@,
                            before@,
                            answer->Ok_0@,
                            second_version(),
                        ),
                    )
                },
    {
        check_limits(limits)?;
        depth_bound(&tool.model_tool.model_input_schema, limits.max_schema_depth)?;
        bounded(&encode_model_tool(&tool.model_tool), limits.max_schema_bytes)?;
        let before = compiler.reference();
        let answer = compiler.compile(&tool.model_tool, &target);
        let after = match &answer {
            Ok(_) => compiler.reference(),
            Err(_) => before.copy(),
        };
        let ghost named = before;
        let ghost given = answer;
        let ghost renamed = after;
        let settled = Self::settle(tool, target, limits, before, answer, after);
        assert(failure(settled) == settle_fault(
            tool@,
            target@,
            limits@,
            named@,
            given,
            renamed@,
        ));
        settled
    }

    /// Make a contract of what a compiler answered: its error is passed on, a compiler whose identity
    /// changed meanwhile is refused, and a projection is built under the identity that it was asked
    /// for by.
    pub fn settle(
        tool: &CompiledTool,
        target: ProviderToolTarget,
        limits: &ProviderToolSchemaLimits,
        before: VersionedRef,
        answer: Result<ProviderToolProjection, ContractError>,
        after: VersionedRef,
    ) -> (r: Result<Self, ContractError>)
        ensures
            failure(r) == settle_fault(tool@, target@, limits@, before@, answer, after@),
            r matches Ok(contract) ==> answer is Ok && contract@ == sealed(
                contract_data(tool@, target@, before@, answer->Ok_0@, second_version()),
            ),
    {
        let projection = match answer {
            Ok(projection) => projection,
            Err(error) => {
                return Err(error);
            },
        };
        if !after.same(&before) {
            return invalid("provider_tool.compiler_revision");
        }
        Self::build(
            tool,
            target,
            before,
            projection,
            limits,
            "wickle.provider-tool-contract.v2",
        )
    }

    /// Build the contract of a projection.
    pub fn build(
        tool: &CompiledTool,
        target: ProviderToolTarget,
        compiler: VersionedRef,
        projection: ProviderToolProjection,
        limits: &ProviderToolSchemaLimits,
        schema_version: &str,
    ) -> (r: Result<Self, ContractError>)
        ensures
            failure(r) == build_fault(
                tool@,
                target@,
                compiler@,
                projection@,
                limits@,
                schema_version@,
            ),
            r matches Ok(contract) ==> contract@ == sealed(
                contract_data(tool@, target@, compiler@, projection@, schema_version@),
            ),
    {
        check_limits(limits)?;
        let version = schema_version.to_owned();
        let first_format = reads(&version, "wickle.provider-tool-contract.v1");
        if !first_format && !reads(&version, "wickle.provider-tool-contract.v2") {
            return invalid("provider_tool.schema_version");
        }
        let canonical = &tool.model_tool.model_input_schema;
        depth_bound(canonical, limits.max_schema_depth)?;
        depth_bound(&projection.wire_tool.model_input_schema, limits.max_schema_depth)?;
        bounded(&encode_model_tool(&projection.wire_tool), limits.max_schema_bytes)?;
        let schema = &projection.wire_tool.model_input_schema;
        let is_object = match schema.get("type") {
            Some(kind) => kind.is_text("object"),
            None => false,
        };
        let is_closed = match schema.get("additionalProperties") {
            Some(additional) => additional.is_bool(false),
            None => false,
        };
        if !valid_name(projection.wire_tool.name.as_str()) || !is_object || !is_closed {
            return invalid("provider_tool.wire_boundary");
        }
        compile_validator(schema)?;
        validate_codec(canonical, schema, &projection.decode_plan)?;
        let identity = match &projection.decode_plan {
            ArgumentDecodePlan::Identity => true,
            _ => false,
        };
        let unchanged = identity && schema.same(canonical);
        assert(unchanged == is_unchanged(tool@, projection@));
        let mut fragments: Vec<ToolConstraintFragment> = Vec::new();
        if !unchanged {
            let text = explain(
                first_format,
                &projection.wire_tool.name,
                canonical,
                &projection.decode_plan,
            );
            let digest = canonical_digest(&Json::Text(text.copy()));
            proof {
                reveal_strlit("tool-constraints-");
                assert(!white_space("tool-constraints-"@[0]));
            }
            let id = Id::prefixed("tool-constraints-", digest.as_str());
            fragments.push(ToolConstraintFragment { id, text, digest });
        }
        let none: Vec<ToolConstraintEnforcement> = Vec::new();
        let enforcement = collect_enforcement(
            canonical,
            Some(schema),
            "",
            Mechanism { identity: unchanged, text: !unchanged },
            none,
        );
        let ghost expected = contract_data(
            tool@,
            target@,
            compiler@,
            projection@,
            schema_version@,
        );
        assert(fragments.deep_view() =~= expected.fragments);
        assert(enforcement.deep_view() =~= expected.enforcement) by {
            assert(none.deep_view() =~= Seq::<ToolConstraintEnforcementView>::empty());
        }
        let data = ContractData {
            schema_version: version,
            tool: tool.tool.copy(),
            canonical_name: tool.name.copy(),
            descriptor_digest: tool.descriptor_digest.copy(),
            canonical_schema_digest: tool.model_schema_digest.copy(),
            compiler,
            target,
            wire_tool: projection.wire_tool,
            decode_plan: projection.decode_plan,
            fragments,
            enforcement,
        };
        assert(data@ =~= expected);
        let digest = canonical_digest(&encode_contract_data(&data));
        let result = CompiledToolContract { data, digest };
        assert(result@ == sealed(expected));
        bounded(&encode_contract(&result), limits.max_contract_bytes)?;
        Ok(result)
    }

    /// Restore against the trusted tool, destination and expected digest. This uses the saved
    /// codec and never invokes a newer compiler. `decoded` is what the stored document reads as.
    pub fn restore(
        text: &str,
        decoded: Option<&SavedContract>,
        tool: &CompiledTool,
        target: &ProviderToolTarget,
        expected: &JsonDigest,
        limits: &ProviderToolSchemaLimits,
    ) -> (r: Result<Self, ContractError>)
        ensures
            failure(r) == contract_restore_fault(
                read_text(text@),
                decoded.deep_view(),
                tool@,
                target@,
                expected@,
                limits@,
            ),
            r matches Ok(contract) ==> decoded is Some && contract@.data
                == decoded->Some_0@.data && contract@.digest == expected@,
    {
        Self::restore_text(&JsonText::read(text), decoded, tool, target, expected, limits)
    }

    /// Restore a contract from a text that was read.
    pub fn restore_text(
        text: &JsonText,
        decoded: Option<&SavedContract>,
        tool: &CompiledTool,
        target: &ProviderToolTarget,
        expected: &JsonDigest,
        limits: &ProviderToolSchemaLimits,
    ) -> (r: Result<Self, ContractError>)
        ensures
            failure(r) == contract_restore_fault(
                text@,
                decoded.deep_view(),
                tool@,
                target@,
                expected@,
                limits@,
            ),
            r matches Ok(contract) ==> decoded is Some && contract@.data
                == decoded->Some_0@.data && contract@.digest == expected@,
    {
        check_limits(limits)?;
        if text.is_longer_than(limits.max_contract_bytes) {
            return invalid("provider_tool.size");
        }
        let is_document = match &text.reading {
            Reading::Document { written, .. } => is_unambiguous(written),
            Reading::Malformed => false,
        };
        if !is_document {
            return fail(ErrorCode::InvalidJson, "$");
        }
        let saved = match decoded {
            Some(saved) => saved,
            None => {
                return invalid("provider_tool.record");
            },
        };
        if !saved.digest.same(expected) || !canonical_digest(
            &encode_contract_data(&saved.data),
        ).same(expected) || !target.matches_saved(&saved.data.target) {
            return invalid("provider_tool.identity");
        }
        let rebuilt = CompiledToolContract::build(
            tool,
            saved.data.target.copy(),
            saved.data.compiler.copy(),
            ProviderToolProjection {
                wire_tool: saved.data.wire_tool.copy(),
                decode_plan: saved.data.decode_plan.copy(),
            },
            limits,
            saved.data.schema_version.as_str(),
        )?;
        if !rebuilt.data.same(&saved.data) || !rebuilt.digest.same(expected) {
            return invalid("provider_tool.identity");
        }
        Ok(rebuilt)
    }

    /// The contract as it is saved.
    pub fn saved(&self) -> (r: SavedContract)
        ensures
            r@ == (SavedContractView { data: self@.data, digest: self@.digest }),
    {
        SavedContract { data: self.data.copy(), digest: self.digest.copy() }
    }

    /// Model-facing tool name to restore after provider name mapping.
    pub fn canonical_name(&self) -> (r: &Id)
        ensures
            r@ == self@.data.canonical_name,
    {
        &self.data.canonical_name
    }

    /// Registered tool identity.
    pub fn tool(&self) -> (r: &VersionedRef)
        ensures
            r@ == self@.data.tool,
    {
        &self.data.tool
    }

    /// Frozen provider-facing tool, without hidden input metadata.
    pub fn wire_tool(&self) -> (r: &ModelTool)
        ensures
            r@ == self@.data.wire_tool,
    {
        &self.data.wire_tool
    }

    /// Ordered trusted fragments that must accompany the tool definition.
    pub fn constraint_fragments(&self) -> (r: &Vec<ToolConstraintFragment>)
        ensures
            r.deep_view() == self@.data.fragments,
    {
        &self.data.fragments
    }

    /// Exact constraint locations and enforcement mechanisms.
    pub fn enforcement(&self) -> (r: &Vec<ToolConstraintEnforcement>)
        ensures
            r.deep_view() == self@.data.enforcement,
    {
        &self.data.enforcement
    }

    /// Pinned compiler identity and version.
    pub fn compiler(&self) -> (r: &VersionedRef)
        ensures
            r@ == self@.data.compiler,
    {
        &self.data.compiler
    }

    /// Exact destination protocol and capability revision.
    pub fn target(&self) -> (r: &ProviderToolTarget)
        ensures
            r@ == self@.data.target,
    {
        &self.data.target
    }

    pub(crate) fn decode_plan(&self) -> (r: &ArgumentDecodePlan)
        ensures
            r@ == self@.data.decode_plan,
    {
        &self.data.decode_plan
    }

    /// Protected compilation identity.
    pub fn digest(&self) -> (r: &JsonDigest)
        ensures
            r@ == self@.digest,
    {
        &self.digest
    }
}

/// A contract's entries start with the root of the canonical schema and name the core throughout.
/// Text explains every constraint unless the schema and the arguments are sent unchanged, and exactly
/// then every constraint is left to the provider as well, of a schema in which no object repeats a
/// key. Text is there exactly where the contract has constraint fragments.
pub proof fn law_contracts_enforce_every_constraint(
    tool: CompiledToolView,
    target: ProviderToolTargetView,
    compiler: VersionedRefView,
    projection: ProviderToolProjectionView,
    schema_version: Seq<char>,
)
    ensures
        ({
            let data = contract_data(tool, target, compiler, projection, schema_version);
            let entries = data.enforcement;
            let unchanged = is_unchanged(tool, projection);
            &&& unchanged == (data.fragments.len() == 0)
            &&& entries.len() > 0
            &&& entries[0].canonical_pointer == ""@
            &&& entries[0].provider_native == unchanged
            &&& forall|i: int|
                0 <= i < entries.len() ==> (#[trigger] entries[i]).core && entries[i].context_text
                    == !unchanged && (entries[i].provider_native ==> unchanged)
            &&& unambiguous(tool.model_tool.model_input_schema) ==> forall|i: int|
                0 <= i < entries.len() ==> (#[trigger] entries[i]).provider_native == unchanged
        }),
{
    let unchanged = is_unchanged(tool, projection);
    law_entries_are_well_marked(
        tool.model_tool.model_input_schema,
        Some(projection.wire_tool.model_input_schema),
        ""@,
        Mechanism { identity: unchanged, text: !unchanged },
    );
    if unchanged && unambiguous(tool.model_tool.model_input_schema) {
        law_unchanged_schemas_are_native(
            tool.model_tool.model_input_schema,
            ""@,
            Mechanism { identity: unchanged, text: !unchanged },
        );
    }
}

/// Limits are accepted just where each leaves room for something and schemas nest no deeper than can
/// be checked; the usual limits are accepted.
pub proof fn law_limits_leave_room(limits: ProviderToolSchemaLimitsView)
    ensures
        limits_fault(limits) is None <==> 1 <= limits.max_schema_depth <= 128 && 1
            <= limits.max_schema_bytes && 1 <= limits.max_contract_bytes && 1
            <= limits.max_argument_bytes,
        limits_fault(usual_limits()) is None,
{
}

/// Names are judged by their length and character by character: two texts make a name together just
/// where both are names and they are not too long together.
pub proof fn law_names_are_judged_by_their_characters(a: Seq<char>, b: Seq<char>)
    requires
        a.len() > 0,
        b.len() > 0,
    ensures
        is_valid_name(a + b) <==> is_valid_name(a) && is_valid_name(b) && a.len() + b.len() <= 64,
        is_valid_name(a) ==> forall|i: int|
            0 <= i < a.len() ==> (#[trigger] a[i] == '_' || a[i] == '-' || '0' <= a[i] <= '9' || 'a'
                <= a[i] <= 'z' || 'A' <= a[i] <= 'Z'),
        forall|c: char|
            (c == '_' || c == '-' || '0' <= c <= '9' || 'a' <= c <= 'z' || 'A' <= c <= 'Z')
                ==> is_valid_name(#[trigger] seq![c]),
{
    let both = a + b;
    assert forall|i: int| 0 <= i < a.len() implies #[trigger] a[i] == both[i] by {}
    assert forall|i: int| 0 <= i < b.len() implies #[trigger] b[i] == both[a.len() + i] by {}
    if is_valid_name(both) {
        assert forall|i: int| 0 <= i < a.len() implies is_name_char(#[trigger] a[i]) by {
            assert(is_name_char(both[i]));
        }
        assert forall|i: int| 0 <= i < b.len() implies is_name_char(#[trigger] b[i]) by {
            assert(is_name_char(both[a.len() + i]));
        }
    }
    if is_valid_name(a) && is_valid_name(b) && a.len() + b.len() <= 64 {
        assert forall|i: int| 0 <= i < both.len() implies is_name_char(#[trigger] both[i]) by {
            if i < a.len() {
                assert(is_name_char(a[i]));
            } else {
                assert(is_name_char(b[i - a.len()]));
            }
        }
    }
    if is_valid_name(a) {
        assert forall|i: int| 0 <= i < a.len() implies (#[trigger] a[i] == '_' || a[i] == '-' || '0'
            <= a[i] <= '9' || 'a' <= a[i] <= 'z' || 'A' <= a[i] <= 'Z') by {
            assert(is_name_char(a[i]));
        }
    }
}

/// A plan that maps fields maps them one to one: every field of either schema is mapped, and none of
/// them twice.
pub proof fn law_fields_are_mapped_one_to_one(
    canonical_schema: JsonView,
    wire_schema: JsonView,
    fields: Seq<ArgumentFieldMappingView>,
    i: int,
    j: int,
)
    requires
        codec_fault(
            canonical_schema,
            wire_schema,
            ArgumentDecodePlanView::Fields { fields },
        ) is None,
        0 <= i < fields.len(),
        0 <= j < fields.len(),
    ensures
        i != j ==> fields[i].wire_name != fields[j].wire_name,
        i != j ==> fields[i].canonical_name != fields[j].canonical_name,
        properties_of(wire_schema) matches Some(wire) && wire.len() == fields.len() && value_of(
            wire,
            fields[i].wire_name,
        ) is Some,
        properties_of(canonical_schema) matches Some(canonical) && canonical.len() == fields.len()
            && value_of(canonical, fields[i].canonical_name) is Some,
        fields[i].encoding matches ArgumentValueEncodingView::Presence { present_key, value_key }
            ==> present_key != value_key && present_key.len() > 0 && value_key.len() > 0,
{
    let wire = properties_of(wire_schema)->Some_0;
    let canonical = properties_of(canonical_schema)->Some_0;
    let f = mapping_fault(fields, wire, canonical);
    crate::data::lemma_first_index_fault(0, fields.len() as int, f);
    assert(f(i) is None);
    assert(f(j) is None);
    if i < j {
        assert(fields.take(j)[i] == fields[i]);
        assert(!from_wire(fields[j].wire_name)(fields.take(j)[i]));
        assert(!to_canonical(fields[j].canonical_name)(fields.take(j)[i]));
    } else if j < i {
        assert(fields.take(i)[j] == fields[j]);
        assert(!from_wire(fields[i].wire_name)(fields.take(i)[j]));
        assert(!to_canonical(fields[i].canonical_name)(fields.take(i)[j]));
    }
}

/// A contract serves the target that it was saved for and no other; one that names no model serves
/// every model there.
pub proof fn law_contracts_serve_their_target(
    target: ProviderToolTargetView,
    saved: ProviderToolTargetView,
    model: Option<VersionedRefView>,
)
    ensures
        serves(saved, saved),
        saved.model is Some ==> (serves(target, saved) <==> target == saved),
        saved.model is None ==> (serves(target, saved) <==> serves(
            (ProviderToolTargetView { model, ..target }),
            saved,
        )),
        serves(target, saved) ==> target.provider == saved.provider && target.api_contract
            == saved.api_contract && target.capability_revision == saved.capability_revision,
{
}

/// A tool whose schema reaches the provider changed is explained to the model by one fragment, and one
/// that reaches it unchanged by none. The fragment's digest names its text.
pub proof fn law_changed_schemas_are_explained(
    tool: CompiledToolView,
    target: ProviderToolTargetView,
    compiler: VersionedRefView,
    projection: ProviderToolProjectionView,
    schema_version: Seq<char>,
)
    ensures
        ({
            let data = contract_data(tool, target, compiler, projection, schema_version);
            let unchanged = projection.decode_plan is Identity
                && projection.wire_tool.model_input_schema == tool.model_tool.model_input_schema;
            &&& unchanged ==> data.fragments.len() == 0
            &&& !unchanged ==> data.fragments.len() == 1 && data.fragments[0].digest == digest_of(
                JsonView::Text(data.fragments[0].text),
            )
            &&& data.target == target
            &&& data.compiler == compiler
            &&& data.wire_tool == projection.wire_tool
            &&& data.decode_plan == projection.decode_plan
            &&& data.canonical_name == tool.name
            &&& data.canonical_schema_digest == tool.model_schema_digest
            &&& data.descriptor_digest == tool.descriptor_digest
        }),
{
}

} // verus!
