//! Registered models, the bindings that reach them and what a call may require of both.
use vstd::prelude::*;

use crate::data::{all, any, any_before, contains, find, map_each, Data};
#[allow(unused_imports)]
use crate::data::{
    every, first_in, first_index_fault, lemma_first_in, lemma_first_index_fault, lemma_found_at,
    some_in,
};
use crate::encoding::{
    encode_scope, encode_versioned, no_members, number, signed_number, with_member, with_some,
};
#[allow(unused_imports)]
use crate::encoding::{scope_json, signed_text, some_member, versioned_json};
use crate::error::{fail, ContractError, ErrorCode};
#[allow(unused_imports)]
use crate::error::{failure, fault, Fault};
use crate::json::{array, object, text, Json, Member};
#[allow(unused_imports)]
use crate::json::{get_of, JsonView, MemberView};
use crate::json_schema::{compile_validator, is_accepted};
#[allow(unused_imports)]
use crate::json_schema::{accepts_document, compile_fault};
use crate::model::{
    encode_api_contract, encode_semantics, ApiContract, VersionPolicy, VersionSemantics,
};
#[allow(unused_imports)]
use crate::model::{api_contract_json, semantics_json, ApiContractView};
use crate::model_options::{merge_model_options, validate_inference_options};
#[allow(unused_imports)]
use crate::model_options::{merged, options_fault};
use crate::refs::{Scope, VersionedRef};
#[allow(unused_imports)]
use crate::refs::{ScopeView, VersionedRefView};
use crate::serialization::{canonical_digest, Id, JsonDigest};
#[allow(unused_imports)]
use crate::serialization::digest_of;
#[allow(unused_imports)]
use crate::text::decimal_text;

verus! {

/// Exact identity of a registered model.
#[derive(Debug)]
pub struct ModelDefinitionRef {
    pub provider: Id,
    pub model_key: Id,
    pub model_version: Id,
}

#[verifier::ext_equal]
pub struct ModelDefinitionRefView {
    pub provider: Seq<char>,
    pub model_key: Seq<char>,
    pub model_version: Seq<char>,
}

impl View for ModelDefinitionRef {
    type V = ModelDefinitionRefView;

    open spec fn view(&self) -> ModelDefinitionRefView {
        ModelDefinitionRefView {
            provider: self.provider.deep_view(),
            model_key: self.model_key.deep_view(),
            model_version: self.model_version.deep_view(),
        }
    }
}

impl DeepView for ModelDefinitionRef {
    type V = ModelDefinitionRefView;

    open spec fn deep_view(&self) -> ModelDefinitionRefView {
        self@
    }
}

impl Data for ModelDefinitionRef {
    fn same(&self, other: &Self) -> (r: bool) {
        self.provider.same(&other.provider)
            && self.model_key.same(&other.model_key)
            && self.model_version.same(&other.model_version)
    }

    fn copy(&self) -> (r: Self) {
        ModelDefinitionRef {
            provider: self.provider.copy(),
            model_key: self.model_key.copy(),
            model_version: self.model_version.copy(),
        }
    }
}

/// Where a model stands in its life.
#[derive(Debug, Clone, Copy, PartialEq, Eq, Structural)]
pub enum ModelLifecycle {
    Active,
    Deprecated,
    Retired,
    Unavailable,
}

impl View for ModelLifecycle {
    type V = ModelLifecycle;

    open spec fn view(&self) -> ModelLifecycle {
        *self
    }
}

impl DeepView for ModelLifecycle {
    type V = ModelLifecycle;

    open spec fn deep_view(&self) -> ModelLifecycle {
        *self
    }
}

impl Data for ModelLifecycle {
    fn same(&self, other: &Self) -> (r: bool) {
        *self == *other
    }

    fn copy(&self) -> (r: Self) {
        *self
    }
}

/// Where a claim about a model was observed.
#[derive(Debug)]
pub struct ModelEvidence {
    pub source_ref: Id,
    pub observed_at_ms: i64,
}

#[verifier::ext_equal]
pub struct ModelEvidenceView {
    pub source_ref: Seq<char>,
    pub observed_at_ms: i64,
}

impl View for ModelEvidence {
    type V = ModelEvidenceView;

    open spec fn view(&self) -> ModelEvidenceView {
        ModelEvidenceView {
            source_ref: self.source_ref.deep_view(),
            observed_at_ms: self.observed_at_ms.deep_view(),
        }
    }
}

impl DeepView for ModelEvidence {
    type V = ModelEvidenceView;

    open spec fn deep_view(&self) -> ModelEvidenceView {
        self@
    }
}

impl Data for ModelEvidence {
    fn same(&self, other: &Self) -> (r: bool) {
        self.source_ref.same(&other.source_ref)
            && self.observed_at_ms.same(&other.observed_at_ms)
    }

    fn copy(&self) -> (r: Self) {
        ModelEvidence {
            source_ref: self.source_ref.copy(),
            observed_at_ms: self.observed_at_ms.copy(),
        }
    }
}

/// What a model or a binding can do.
#[derive(Debug)]
pub struct ModelCapabilities {
    pub revision: Id,
    pub features: Vec<Id>,
    pub options_schema: Json,
    pub context_window: u64,
    pub max_output_tokens: u64,
}

#[verifier::ext_equal]
pub struct ModelCapabilitiesView {
    pub revision: Seq<char>,
    pub features: Seq<Seq<char>>,
    pub options_schema: JsonView,
    pub context_window: u64,
    pub max_output_tokens: u64,
}

impl View for ModelCapabilities {
    type V = ModelCapabilitiesView;

    open spec fn view(&self) -> ModelCapabilitiesView {
        ModelCapabilitiesView {
            revision: self.revision.deep_view(),
            features: self.features.deep_view(),
            options_schema: self.options_schema.deep_view(),
            context_window: self.context_window.deep_view(),
            max_output_tokens: self.max_output_tokens.deep_view(),
        }
    }
}

impl DeepView for ModelCapabilities {
    type V = ModelCapabilitiesView;

    open spec fn deep_view(&self) -> ModelCapabilitiesView {
        self@
    }
}

impl Data for ModelCapabilities {
    fn same(&self, other: &Self) -> (r: bool) {
        self.revision.same(&other.revision)
            && self.features.same(&other.features)
            && self.options_schema.same(&other.options_schema)
            && self.context_window.same(&other.context_window)
            && self.max_output_tokens.same(&other.max_output_tokens)
    }

    fn copy(&self) -> (r: Self) {
        ModelCapabilities {
            revision: self.revision.copy(),
            features: self.features.copy(),
            options_schema: self.options_schema.copy(),
            context_window: self.context_window.copy(),
            max_output_tokens: self.max_output_tokens.copy(),
        }
    }
}

/// A registered model.
#[derive(Debug)]
pub struct ModelDefinition {
    pub model_key: Id,
    pub family: Id,
    pub provider: Id,
    pub model_id: Id,
    pub model_version: Id,
    pub version_semantics: VersionSemantics,
    pub lifecycle: ModelLifecycle,
    pub capabilities: ModelCapabilities,
    pub evidence: Vec<ModelEvidence>,
}

#[verifier::ext_equal]
pub struct ModelDefinitionView {
    pub model_key: Seq<char>,
    pub family: Seq<char>,
    pub provider: Seq<char>,
    pub model_id: Seq<char>,
    pub model_version: Seq<char>,
    pub version_semantics: VersionSemantics,
    pub lifecycle: ModelLifecycle,
    pub capabilities: ModelCapabilitiesView,
    pub evidence: Seq<ModelEvidenceView>,
}

impl View for ModelDefinition {
    type V = ModelDefinitionView;

    open spec fn view(&self) -> ModelDefinitionView {
        ModelDefinitionView {
            model_key: self.model_key.deep_view(),
            family: self.family.deep_view(),
            provider: self.provider.deep_view(),
            model_id: self.model_id.deep_view(),
            model_version: self.model_version.deep_view(),
            version_semantics: self.version_semantics.deep_view(),
            lifecycle: self.lifecycle.deep_view(),
            capabilities: self.capabilities.deep_view(),
            evidence: self.evidence.deep_view(),
        }
    }
}

impl DeepView for ModelDefinition {
    type V = ModelDefinitionView;

    open spec fn deep_view(&self) -> ModelDefinitionView {
        self@
    }
}

impl Data for ModelDefinition {
    fn same(&self, other: &Self) -> (r: bool) {
        self.model_key.same(&other.model_key)
            && self.family.same(&other.family)
            && self.provider.same(&other.provider)
            && self.model_id.same(&other.model_id)
            && self.model_version.same(&other.model_version)
            && self.version_semantics.same(&other.version_semantics)
            && self.lifecycle.same(&other.lifecycle)
            && self.capabilities.same(&other.capabilities)
            && self.evidence.same(&other.evidence)
    }

    fn copy(&self) -> (r: Self) {
        ModelDefinition {
            model_key: self.model_key.copy(),
            family: self.family.copy(),
            provider: self.provider.copy(),
            model_id: self.model_id.copy(),
            model_version: self.model_version.copy(),
            version_semantics: self.version_semantics.copy(),
            lifecycle: self.lifecycle.copy(),
            capabilities: self.capabilities.copy(),
            evidence: self.evidence.copy(),
        }
    }
}

/// How well a binding has been tried.
#[derive(Debug, Clone, Copy, PartialEq, Eq, Structural)]
pub enum ModelSupportStatus {
    Planned,
    ContractTested,
    LiveVerified,
}

impl View for ModelSupportStatus {
    type V = ModelSupportStatus;

    open spec fn view(&self) -> ModelSupportStatus {
        *self
    }
}

impl DeepView for ModelSupportStatus {
    type V = ModelSupportStatus;

    open spec fn deep_view(&self) -> ModelSupportStatus {
        *self
    }
}

impl Data for ModelSupportStatus {
    fn same(&self, other: &Self) -> (r: bool) {
        *self == *other
    }

    fn copy(&self) -> (r: Self) {
        *self
    }
}

/// How a binding was tried.
#[derive(Debug, Clone, Copy, PartialEq, Eq, Structural)]
pub enum ModelValidationKind {
    ContractTest,
    LiveCheck,
}

impl View for ModelValidationKind {
    type V = ModelValidationKind;

    open spec fn view(&self) -> ModelValidationKind {
        *self
    }
}

impl DeepView for ModelValidationKind {
    type V = ModelValidationKind;

    open spec fn deep_view(&self) -> ModelValidationKind {
        *self
    }
}

impl Data for ModelValidationKind {
    fn same(&self, other: &Self) -> (r: bool) {
        *self == *other
    }

    fn copy(&self) -> (r: Self) {
        *self
    }
}

/// The outcome of one trial of a binding.
#[derive(Debug)]
pub struct ModelValidationEvidence {
    pub kind: ModelValidationKind,
    pub binding_digest: JsonDigest,
    pub checked_at_ms: i64,
    pub evidence_ref: Id,
    pub passed: bool,
}

#[verifier::ext_equal]
pub struct ModelValidationEvidenceView {
    pub kind: ModelValidationKind,
    pub binding_digest: Seq<char>,
    pub checked_at_ms: i64,
    pub evidence_ref: Seq<char>,
    pub passed: bool,
}

impl View for ModelValidationEvidence {
    type V = ModelValidationEvidenceView;

    open spec fn view(&self) -> ModelValidationEvidenceView {
        ModelValidationEvidenceView {
            kind: self.kind.deep_view(),
            binding_digest: self.binding_digest.deep_view(),
            checked_at_ms: self.checked_at_ms.deep_view(),
            evidence_ref: self.evidence_ref.deep_view(),
            passed: self.passed.deep_view(),
        }
    }
}

impl DeepView for ModelValidationEvidence {
    type V = ModelValidationEvidenceView;

    open spec fn deep_view(&self) -> ModelValidationEvidenceView {
        self@
    }
}

impl Data for ModelValidationEvidence {
    fn same(&self, other: &Self) -> (r: bool) {
        self.kind.same(&other.kind)
            && self.binding_digest.same(&other.binding_digest)
            && self.checked_at_ms.same(&other.checked_at_ms)
            && self.evidence_ref.same(&other.evidence_ref)
            && self.passed.same(&other.passed)
    }

    fn copy(&self) -> (r: Self) {
        ModelValidationEvidence {
            kind: self.kind.copy(),
            binding_digest: self.binding_digest.copy(),
            checked_at_ms: self.checked_at_ms.copy(),
            evidence_ref: self.evidence_ref.copy(),
            passed: self.passed.copy(),
        }
    }
}

/// A reachable target of a model.
#[derive(Debug)]
pub struct ModelBinding {
    pub default_options: Vec<Member>,
    pub binding: VersionedRef,
    pub model: ModelDefinitionRef,
    pub requested_model: Id,
    pub adapter: VersionedRef,
    pub connection_ref: VersionedRef,
    pub target: Vec<Member>,
    pub target_schema: Json,
    pub api_contract: ApiContract,
    pub deployment_revision: Option<Id>,
    pub version_semantics: VersionSemantics,
    pub capabilities: ModelCapabilities,
    pub support: ModelSupportStatus,
    pub evidence: Vec<ModelValidationEvidence>,
}

#[verifier::ext_equal]
pub struct ModelBindingView {
    pub default_options: Seq<MemberView>,
    pub binding: VersionedRefView,
    pub model: ModelDefinitionRefView,
    pub requested_model: Seq<char>,
    pub adapter: VersionedRefView,
    pub connection_ref: VersionedRefView,
    pub target: Seq<MemberView>,
    pub target_schema: JsonView,
    pub api_contract: ApiContractView,
    pub deployment_revision: Option<Seq<char>>,
    pub version_semantics: VersionSemantics,
    pub capabilities: ModelCapabilitiesView,
    pub support: ModelSupportStatus,
    pub evidence: Seq<ModelValidationEvidenceView>,
}

impl View for ModelBinding {
    type V = ModelBindingView;

    open spec fn view(&self) -> ModelBindingView {
        ModelBindingView {
            default_options: self.default_options.deep_view(),
            binding: self.binding.deep_view(),
            model: self.model.deep_view(),
            requested_model: self.requested_model.deep_view(),
            adapter: self.adapter.deep_view(),
            connection_ref: self.connection_ref.deep_view(),
            target: self.target.deep_view(),
            target_schema: self.target_schema.deep_view(),
            api_contract: self.api_contract.deep_view(),
            deployment_revision: self.deployment_revision.deep_view(),
            version_semantics: self.version_semantics.deep_view(),
            capabilities: self.capabilities.deep_view(),
            support: self.support.deep_view(),
            evidence: self.evidence.deep_view(),
        }
    }
}

impl DeepView for ModelBinding {
    type V = ModelBindingView;

    open spec fn deep_view(&self) -> ModelBindingView {
        self@
    }
}

impl Data for ModelBinding {
    fn same(&self, other: &Self) -> (r: bool) {
        self.default_options.same(&other.default_options)
            && self.binding.same(&other.binding)
            && self.model.same(&other.model)
            && self.requested_model.same(&other.requested_model)
            && self.adapter.same(&other.adapter)
            && self.connection_ref.same(&other.connection_ref)
            && self.target.same(&other.target)
            && self.target_schema.same(&other.target_schema)
            && self.api_contract.same(&other.api_contract)
            && self.deployment_revision.same(&other.deployment_revision)
            && self.version_semantics.same(&other.version_semantics)
            && self.capabilities.same(&other.capabilities)
            && self.support.same(&other.support)
            && self.evidence.same(&other.evidence)
    }

    fn copy(&self) -> (r: Self) {
        ModelBinding {
            default_options: self.default_options.copy(),
            binding: self.binding.copy(),
            model: self.model.copy(),
            requested_model: self.requested_model.copy(),
            adapter: self.adapter.copy(),
            connection_ref: self.connection_ref.copy(),
            target: self.target.copy(),
            target_schema: self.target_schema.copy(),
            api_contract: self.api_contract.copy(),
            deployment_revision: self.deployment_revision.copy(),
            version_semantics: self.version_semantics.copy(),
            capabilities: self.capabilities.copy(),
            support: self.support.copy(),
            evidence: self.evidence.copy(),
        }
    }
}

/// Another name of a model.
#[derive(Debug)]
pub struct ModelAlias {
    pub provider: Id,
    pub alias: Id,
    pub target: ModelDefinitionRef,
}

#[verifier::ext_equal]
pub struct ModelAliasView {
    pub provider: Seq<char>,
    pub alias: Seq<char>,
    pub target: ModelDefinitionRefView,
}

impl View for ModelAlias {
    type V = ModelAliasView;

    open spec fn view(&self) -> ModelAliasView {
        ModelAliasView {
            provider: self.provider.deep_view(),
            alias: self.alias.deep_view(),
            target: self.target.deep_view(),
        }
    }
}

impl DeepView for ModelAlias {
    type V = ModelAliasView;

    open spec fn deep_view(&self) -> ModelAliasView {
        self@
    }
}

impl Data for ModelAlias {
    fn same(&self, other: &Self) -> (r: bool) {
        self.provider.same(&other.provider)
            && self.alias.same(&other.alias)
            && self.target.same(&other.target)
    }

    fn copy(&self) -> (r: Self) {
        ModelAlias {
            provider: self.provider.copy(),
            alias: self.alias.copy(),
            target: self.target.copy(),
        }
    }
}

/// An immutable catalog.
#[derive(Debug)]
pub struct ModelCatalogSnapshot {
    pub revision: Id,
    pub scope: Scope,
    pub models: Vec<ModelDefinition>,
    pub bindings: Vec<ModelBinding>,
    pub aliases: Vec<ModelAlias>,
}

#[verifier::ext_equal]
pub struct ModelCatalogSnapshotView {
    pub revision: Seq<char>,
    pub scope: ScopeView,
    pub models: Seq<ModelDefinitionView>,
    pub bindings: Seq<ModelBindingView>,
    pub aliases: Seq<ModelAliasView>,
}

impl View for ModelCatalogSnapshot {
    type V = ModelCatalogSnapshotView;

    open spec fn view(&self) -> ModelCatalogSnapshotView {
        ModelCatalogSnapshotView {
            revision: self.revision.deep_view(),
            scope: self.scope.deep_view(),
            models: self.models.deep_view(),
            bindings: self.bindings.deep_view(),
            aliases: self.aliases.deep_view(),
        }
    }
}

impl DeepView for ModelCatalogSnapshot {
    type V = ModelCatalogSnapshotView;

    open spec fn deep_view(&self) -> ModelCatalogSnapshotView {
        self@
    }
}

impl Data for ModelCatalogSnapshot {
    fn same(&self, other: &Self) -> (r: bool) {
        self.revision.same(&other.revision)
            && self.scope.same(&other.scope)
            && self.models.same(&other.models)
            && self.bindings.same(&other.bindings)
            && self.aliases.same(&other.aliases)
    }

    fn copy(&self) -> (r: Self) {
        ModelCatalogSnapshot {
            revision: self.revision.copy(),
            scope: self.scope.copy(),
            models: self.models.copy(),
            bindings: self.bindings.copy(),
            aliases: self.aliases.copy(),
        }
    }
}

/// What a call requires of its target.
#[derive(Debug)]
pub struct CatalogRequirements {
    pub features: Vec<Id>,
    pub options: Vec<Member>,
    pub input_tokens: u64,
    pub max_output_tokens: u64,
    pub version_policy: VersionPolicy,
    pub min_support: ModelSupportStatus,
}

#[verifier::ext_equal]
pub struct CatalogRequirementsView {
    pub features: Seq<Seq<char>>,
    pub options: Seq<MemberView>,
    pub input_tokens: u64,
    pub max_output_tokens: u64,
    pub version_policy: VersionPolicy,
    pub min_support: ModelSupportStatus,
}

impl View for CatalogRequirements {
    type V = CatalogRequirementsView;

    open spec fn view(&self) -> CatalogRequirementsView {
        CatalogRequirementsView {
            features: self.features.deep_view(),
            options: self.options.deep_view(),
            input_tokens: self.input_tokens.deep_view(),
            max_output_tokens: self.max_output_tokens.deep_view(),
            version_policy: self.version_policy.deep_view(),
            min_support: self.min_support.deep_view(),
        }
    }
}

impl DeepView for CatalogRequirements {
    type V = CatalogRequirementsView;

    open spec fn deep_view(&self) -> CatalogRequirementsView {
        self@
    }
}

impl Data for CatalogRequirements {
    fn same(&self, other: &Self) -> (r: bool) {
        self.features.same(&other.features)
            && self.options.same(&other.options)
            && self.input_tokens.same(&other.input_tokens)
            && self.max_output_tokens.same(&other.max_output_tokens)
            && self.version_policy.same(&other.version_policy)
            && self.min_support.same(&other.min_support)
    }

    fn copy(&self) -> (r: Self) {
        CatalogRequirements {
            features: self.features.copy(),
            options: self.options.copy(),
            input_tokens: self.input_tokens.copy(),
            max_output_tokens: self.max_output_tokens.copy(),
            version_policy: self.version_policy.copy(),
            min_support: self.min_support.copy(),
        }
    }
}

/// A binding with its model.
#[derive(Debug)]
pub struct ResolvedCatalogBinding {
    pub catalog_revision: Id,
    pub model: ModelDefinition,
    pub binding: ModelBinding,
}

#[verifier::ext_equal]
pub struct ResolvedCatalogBindingView {
    pub catalog_revision: Seq<char>,
    pub model: ModelDefinitionView,
    pub binding: ModelBindingView,
}

impl View for ResolvedCatalogBinding {
    type V = ResolvedCatalogBindingView;

    open spec fn view(&self) -> ResolvedCatalogBindingView {
        ResolvedCatalogBindingView {
            catalog_revision: self.catalog_revision.deep_view(),
            model: self.model.deep_view(),
            binding: self.binding.deep_view(),
        }
    }
}

impl DeepView for ResolvedCatalogBinding {
    type V = ResolvedCatalogBindingView;

    open spec fn deep_view(&self) -> ResolvedCatalogBindingView {
        self@
    }
}

impl Data for ResolvedCatalogBinding {
    fn same(&self, other: &Self) -> (r: bool) {
        self.catalog_revision.same(&other.catalog_revision)
            && self.model.same(&other.model)
            && self.binding.same(&other.binding)
    }

    fn copy(&self) -> (r: Self) {
        ResolvedCatalogBinding {
            catalog_revision: self.catalog_revision.copy(),
            model: self.model.copy(),
            binding: self.binding.copy(),
        }
    }
}


/// The encoded name of a model.
pub open spec fn model_ref_json(v: ModelDefinitionRefView) -> JsonView {
    JsonView::Object(Seq::<MemberView>::empty()
.push(MemberView { key: "model_key"@, value: JsonView::Text(v.model_key) })
.push(MemberView { key: "model_version"@, value: JsonView::Text(v.model_version) })
.push(MemberView { key: "provider"@, value: JsonView::Text(v.provider) }))
}

/// Encode the name of a model.
pub fn encode_model_ref(v: &ModelDefinitionRef) -> (r: Json)
    ensures
        r@ == model_ref_json(v@),
{
    let members = no_members();
    let members = with_member(members, "model_key", crate::json::text(v.model_key.as_str()));
    let members = with_member(members, "model_version", crate::json::text(v.model_version.as_str()));
    let members = with_member(members, "provider", crate::json::text(v.provider.as_str()));
    crate::json::object(members)
}

/// The encoded lifecycle.
pub open spec fn lifecycle_json(v: ModelLifecycle) -> JsonView {
    match v {
        ModelLifecycle::Active => JsonView::Text("active"@),
        ModelLifecycle::Deprecated => JsonView::Text("deprecated"@),
        ModelLifecycle::Retired => JsonView::Text("retired"@),
        ModelLifecycle::Unavailable => JsonView::Text("unavailable"@),
    }
}

/// Encode the lifecycle.
pub fn encode_lifecycle(v: &ModelLifecycle) -> (r: Json)
    ensures
        r@ == lifecycle_json(*v),
{
    match v {
        ModelLifecycle::Active => crate::json::text("active"),
        ModelLifecycle::Deprecated => crate::json::text("deprecated"),
        ModelLifecycle::Retired => crate::json::text("retired"),
        ModelLifecycle::Unavailable => crate::json::text("unavailable"),
    }
}

/// The encoded evidence of a model.
pub open spec fn evidence_json(v: ModelEvidenceView) -> JsonView {
    JsonView::Object(Seq::<MemberView>::empty()
.push(MemberView { key: "observed_at_ms"@, value: JsonView::Number(signed_text(v.observed_at_ms as int)) })
.push(MemberView { key: "source_ref"@, value: JsonView::Text(v.source_ref) }))
}

/// Encode the evidence of a model.
pub fn encode_evidence(v: &ModelEvidence) -> (r: Json)
    ensures
        r@ == evidence_json(v@),
{
    let members = no_members();
    let members = with_member(members, "observed_at_ms", signed_number(v.observed_at_ms));
    let members = with_member(members, "source_ref", crate::json::text(v.source_ref.as_str()));
    crate::json::object(members)
}

/// The encoded capabilities.
pub open spec fn capabilities_json(v: ModelCapabilitiesView) -> JsonView {
    JsonView::Object(Seq::<MemberView>::empty()
.push(MemberView { key: "context_window"@, value: JsonView::Number(decimal_text(v.context_window as nat)) })
.push(MemberView { key: "features"@, value: JsonView::Array(v.features.map_values(|x: Seq<char>| JsonView::Text(x))) })
.push(MemberView { key: "max_output_tokens"@, value: JsonView::Number(decimal_text(v.max_output_tokens as nat)) })
.push(MemberView { key: "options_schema"@, value: v.options_schema })
.push(MemberView { key: "revision"@, value: JsonView::Text(v.revision) }))
}

/// Encode the capabilities.
pub fn encode_capabilities(v: &ModelCapabilities) -> (r: Json)
    ensures
        r@ == capabilities_json(v@),
{
    let f1 = |x: &Id| -> (r: Json)
        ensures
            r@ == JsonView::Text(x@),
    { crate::json::text(x.as_str()) };
    let members = no_members();
    let members = with_member(members, "context_window", number(v.context_window));
    let members = with_member(members, "features", crate::json::array(map_each(&v.features, f1, Ghost(|x: Seq<char>| JsonView::Text(x)))));
    let members = with_member(members, "max_output_tokens", number(v.max_output_tokens));
    let members = with_member(members, "options_schema", v.options_schema.copy());
    let members = with_member(members, "revision", crate::json::text(v.revision.as_str()));
    crate::json::object(members)
}

/// The encoded model.
pub open spec fn model_json(v: ModelDefinitionView) -> JsonView {
    JsonView::Object(Seq::<MemberView>::empty()
.push(MemberView { key: "capabilities"@, value: capabilities_json(v.capabilities) })
.push(MemberView { key: "evidence"@, value: JsonView::Array(v.evidence.map_values(|x: ModelEvidenceView| evidence_json(x))) })
.push(MemberView { key: "family"@, value: JsonView::Text(v.family) })
.push(MemberView { key: "lifecycle"@, value: lifecycle_json(v.lifecycle) })
.push(MemberView { key: "model_id"@, value: JsonView::Text(v.model_id) })
.push(MemberView { key: "model_key"@, value: JsonView::Text(v.model_key) })
.push(MemberView { key: "model_version"@, value: JsonView::Text(v.model_version) })
.push(MemberView { key: "provider"@, value: JsonView::Text(v.provider) })
.push(MemberView { key: "version_semantics"@, value: semantics_json(v.version_semantics) }))
}

/// Encode the model.
pub fn encode_model(v: &ModelDefinition) -> (r: Json)
    ensures
        r@ == model_json(v@),
{
    let f1 = |x: &ModelEvidence| -> (r: Json)
        ensures
            r@ == evidence_json(x@),
    { encode_evidence(x) };
    let members = no_members();
    let members = with_member(members, "capabilities", encode_capabilities(&v.capabilities));
    let members = with_member(members, "evidence", crate::json::array(map_each(&v.evidence, f1, Ghost(|x: ModelEvidenceView| evidence_json(x)))));
    let members = with_member(members, "family", crate::json::text(v.family.as_str()));
    let members = with_member(members, "lifecycle", encode_lifecycle(&v.lifecycle));
    let members = with_member(members, "model_id", crate::json::text(v.model_id.as_str()));
    let members = with_member(members, "model_key", crate::json::text(v.model_key.as_str()));
    let members = with_member(members, "model_version", crate::json::text(v.model_version.as_str()));
    let members = with_member(members, "provider", crate::json::text(v.provider.as_str()));
    let members = with_member(members, "version_semantics", encode_semantics(&v.version_semantics));
    crate::json::object(members)
}

/// The encoded support stage.
pub open spec fn support_json(v: ModelSupportStatus) -> JsonView {
    match v {
        ModelSupportStatus::Planned => JsonView::Text("planned"@),
        ModelSupportStatus::ContractTested => JsonView::Text("contract_tested"@),
        ModelSupportStatus::LiveVerified => JsonView::Text("live_verified"@),
    }
}

/// Encode the support stage.
pub fn encode_support(v: &ModelSupportStatus) -> (r: Json)
    ensures
        r@ == support_json(*v),
{
    match v {
        ModelSupportStatus::Planned => crate::json::text("planned"),
        ModelSupportStatus::ContractTested => crate::json::text("contract_tested"),
        ModelSupportStatus::LiveVerified => crate::json::text("live_verified"),
    }
}

/// The encoded kind of validation.
pub open spec fn validation_kind_json(v: ModelValidationKind) -> JsonView {
    match v {
        ModelValidationKind::ContractTest => JsonView::Text("contract_test"@),
        ModelValidationKind::LiveCheck => JsonView::Text("live_check"@),
    }
}

/// Encode the kind of validation.
pub fn encode_validation_kind(v: &ModelValidationKind) -> (r: Json)
    ensures
        r@ == validation_kind_json(*v),
{
    match v {
        ModelValidationKind::ContractTest => crate::json::text("contract_test"),
        ModelValidationKind::LiveCheck => crate::json::text("live_check"),
    }
}

/// The encoded validation receipt.
pub open spec fn validation_json(v: ModelValidationEvidenceView) -> JsonView {
    JsonView::Object(Seq::<MemberView>::empty()
.push(MemberView { key: "binding_digest"@, value: JsonView::Text(v.binding_digest) })
.push(MemberView { key: "checked_at_ms"@, value: JsonView::Number(signed_text(v.checked_at_ms as int)) })
.push(MemberView { key: "evidence_ref"@, value: JsonView::Text(v.evidence_ref) })
.push(MemberView { key: "kind"@, value: validation_kind_json(v.kind) })
.push(MemberView { key: "passed"@, value: JsonView::Bool(v.passed) }))
}

/// Encode the validation receipt.
pub fn encode_validation(v: &ModelValidationEvidence) -> (r: Json)
    ensures
        r@ == validation_json(v@),
{
    let members = no_members();
    let members = with_member(members, "binding_digest", crate::json::text(v.binding_digest.as_str()));
    let members = with_member(members, "checked_at_ms", signed_number(v.checked_at_ms));
    let members = with_member(members, "evidence_ref", crate::json::text(v.evidence_ref.as_str()));
    let members = with_member(members, "kind", encode_validation_kind(&v.kind));
    let members = with_member(members, "passed", Json::Bool(v.passed));
    crate::json::object(members)
}

/// The encoded binding.
pub open spec fn model_binding_json(v: ModelBindingView) -> JsonView {
    JsonView::Object((Seq::<MemberView>::empty()
.push(MemberView { key: "adapter"@, value: versioned_json(v.adapter) })
.push(MemberView { key: "api_contract"@, value: api_contract_json(v.api_contract) })
.push(MemberView { key: "binding"@, value: versioned_json(v.binding) })
.push(MemberView { key: "capabilities"@, value: capabilities_json(v.capabilities) })
.push(MemberView { key: "connection_ref"@, value: versioned_json(v.connection_ref) })
+ some_member("default_options"@, if v.default_options.len() == 0 { None } else { Some(JsonView::Object(v.default_options)) }))
.push(MemberView { key: "deployment_revision"@, value: match v.deployment_revision { Some(x) => JsonView::Text(x), None => JsonView::Null } })
.push(MemberView { key: "evidence"@, value: JsonView::Array(v.evidence.map_values(|x: ModelValidationEvidenceView| validation_json(x))) })
.push(MemberView { key: "model"@, value: model_ref_json(v.model) })
.push(MemberView { key: "requested_model"@, value: JsonView::Text(v.requested_model) })
.push(MemberView { key: "support"@, value: support_json(v.support) })
.push(MemberView { key: "target"@, value: JsonView::Object(v.target) })
.push(MemberView { key: "target_schema"@, value: v.target_schema })
.push(MemberView { key: "version_semantics"@, value: semantics_json(v.version_semantics) }))
}

/// Encode the binding.
pub fn encode_model_binding(v: &ModelBinding) -> (r: Json)
    ensures
        r@ == model_binding_json(v@),
{
    let f7 = |x: &ModelValidationEvidence| -> (r: Json)
        ensures
            r@ == validation_json(x@),
    { encode_validation(x) };
    let members = no_members();
    let members = with_member(members, "adapter", encode_versioned(&v.adapter));
    let members = with_member(members, "api_contract", encode_api_contract(&v.api_contract));
    let members = with_member(members, "binding", encode_versioned(&v.binding));
    let members = with_member(members, "capabilities", encode_capabilities(&v.capabilities));
    let members = with_member(members, "connection_ref", encode_versioned(&v.connection_ref));
    let members = with_some(members, "default_options", if v.default_options.len() == 0 { None } else { Some(crate::json::object(v.default_options.copy())) });
    let members = with_member(members, "deployment_revision", match &v.deployment_revision { Some(x) => crate::json::text(x.as_str()), None => Json::Null });
    let members = with_member(members, "evidence", crate::json::array(map_each(&v.evidence, f7, Ghost(|x: ModelValidationEvidenceView| validation_json(x)))));
    let members = with_member(members, "model", encode_model_ref(&v.model));
    let members = with_member(members, "requested_model", crate::json::text(v.requested_model.as_str()));
    let members = with_member(members, "support", encode_support(&v.support));
    let members = with_member(members, "target", crate::json::object(v.target.copy()));
    let members = with_member(members, "target_schema", v.target_schema.copy());
    let members = with_member(members, "version_semantics", encode_semantics(&v.version_semantics));
    crate::json::object(members)
}

/// The encoded alias.
pub open spec fn alias_json(v: ModelAliasView) -> JsonView {
    JsonView::Object(Seq::<MemberView>::empty()
.push(MemberView { key: "alias"@, value: JsonView::Text(v.alias) })
.push(MemberView { key: "provider"@, value: JsonView::Text(v.provider) })
.push(MemberView { key: "target"@, value: model_ref_json(v.target) }))
}

/// Encode the alias.
pub fn encode_alias(v: &ModelAlias) -> (r: Json)
    ensures
        r@ == alias_json(v@),
{
    let members = no_members();
    let members = with_member(members, "alias", crate::json::text(v.alias.as_str()));
    let members = with_member(members, "provider", crate::json::text(v.provider.as_str()));
    let members = with_member(members, "target", encode_model_ref(&v.target));
    crate::json::object(members)
}

/// The encoded catalog.
pub open spec fn catalog_json(v: ModelCatalogSnapshotView) -> JsonView {
    JsonView::Object(Seq::<MemberView>::empty()
.push(MemberView { key: "aliases"@, value: JsonView::Array(v.aliases.map_values(|x: ModelAliasView| alias_json(x))) })
.push(MemberView { key: "bindings"@, value: JsonView::Array(v.bindings.map_values(|x: ModelBindingView| model_binding_json(x))) })
.push(MemberView { key: "models"@, value: JsonView::Array(v.models.map_values(|x: ModelDefinitionView| model_json(x))) })
.push(MemberView { key: "revision"@, value: JsonView::Text(v.revision) })
.push(MemberView { key: "scope"@, value: scope_json(v.scope) }))
}

/// Encode the catalog.
pub fn encode_catalog(v: &ModelCatalogSnapshot) -> (r: Json)
    ensures
        r@ == catalog_json(v@),
{
    let f0 = |x: &ModelAlias| -> (r: Json)
        ensures
            r@ == alias_json(x@),
    { encode_alias(x) };
    let f1 = |x: &ModelBinding| -> (r: Json)
        ensures
            r@ == model_binding_json(x@),
    { encode_model_binding(x) };
    let f2 = |x: &ModelDefinition| -> (r: Json)
        ensures
            r@ == model_json(x@),
    { encode_model(x) };
    let members = no_members();
    let members = with_member(members, "aliases", crate::json::array(map_each(&v.aliases, f0, Ghost(|x: ModelAliasView| alias_json(x)))));
    let members = with_member(members, "bindings", crate::json::array(map_each(&v.bindings, f1, Ghost(|x: ModelBindingView| model_binding_json(x)))));
    let members = with_member(members, "models", crate::json::array(map_each(&v.models, f2, Ghost(|x: ModelDefinitionView| model_json(x)))));
    let members = with_member(members, "revision", crate::json::text(v.revision.as_str()));
    let members = with_member(members, "scope", encode_scope(&v.scope));
    crate::json::object(members)
}

/// Why a schema is not a usable closed object schema.
pub open spec fn closed_schema_fault(schema: JsonView, code: ErrorCode, path: &str) -> Option<Fault> {
    if get_of(schema, "type"@) != Some(JsonView::Text("object"@)) || get_of(
        schema,
        "additionalProperties"@,
    ) != Some(JsonView::Bool(false)) || compile_fault(schema) is Some {
        fault(code, path)
    } else {
        None
    }
}

fn closed_schema(schema: &Json, code: ErrorCode, path: &str) -> (r: Result<(), ContractError>)
    ensures
        failure(r) == closed_schema_fault(schema@, code, path),
{
    let is_object = match schema.get("type") {
        Some(kind) => kind.is_text("object"),
        None => false,
    };
    let is_closed = match schema.get("additionalProperties") {
        Some(additional) => additional.is_bool(false),
        None => false,
    };
    if !is_object || !is_closed || compile_validator(schema).is_err() {
        return fail(code, path);
    }
    Ok(())
}

/// Why capabilities are inconsistent.
pub open spec fn capabilities_fault(capabilities: ModelCapabilitiesView) -> Option<Fault> {
    if capabilities.max_output_tokens > capabilities.context_window {
        fault(ErrorCode::ModelCapabilityUnsupported, "capabilities.token_limits")
    } else {
        closed_schema_fault(
            capabilities.options_schema,
            ErrorCode::ModelOptionUnsupported,
            "capabilities.options_schema",
        )
    }
}

/// Why capabilities do not cover options.
pub open spec fn unsupported_options_fault(
    capabilities: ModelCapabilitiesView,
    options: Seq<MemberView>,
) -> Option<Fault> {
    let schema = closed_schema_fault(
        capabilities.options_schema,
        ErrorCode::ModelOptionUnsupported,
        "capabilities.options_schema",
    );
    if options_fault(options) is Some {
        options_fault(options)
    } else if schema is Some {
        schema
    } else if !accepts_document(capabilities.options_schema, JsonView::Object(options)) {
        fault(ErrorCode::ModelOptionUnsupported, "model.options")
    } else {
        None
    }
}

impl ModelCapabilities {
    /// Validate finite limits and the closed option contract.
    pub fn validate(&self) -> (r: Result<(), ContractError>)
        ensures
            failure(r) == capabilities_fault(self@),
    {
        if self.max_output_tokens > self.context_window {
            return fail(ErrorCode::ModelCapabilityUnsupported, "capabilities.token_limits");
        }
        closed_schema(
            &self.options_schema,
            ErrorCode::ModelOptionUnsupported,
            "capabilities.options_schema",
        )
    }

    /// Validate supplied options without dropping unsupported keys or inserting defaults.
    pub fn validate_options(&self, options: &Vec<Member>) -> (r: Result<(), ContractError>)
        ensures
            failure(r) == unsupported_options_fault(self@, options.deep_view()),
    {
        validate_inference_options(options)?;
        closed_schema(
            &self.options_schema,
            ErrorCode::ModelOptionUnsupported,
            "capabilities.options_schema",
        )?;
        if !is_accepted(&self.options_schema, &object(options.copy())) {
            return fail(ErrorCode::ModelOptionUnsupported, "model.options");
        }
        Ok(())
    }
}

impl ModelDefinitionView {
    /// Exact lookup key of a release and provider.
    pub open spec fn reference(self) -> ModelDefinitionRefView {
        ModelDefinitionRefView {
            provider: self.provider,
            model_key: self.model_key,
            model_version: self.model_version,
        }
    }
}

impl ModelDefinition {
    /// Exact lookup key for this release and provider.
    pub fn reference(&self) -> (r: ModelDefinitionRef)
        ensures
            r@ == self@.reference(),
    {
        ModelDefinitionRef {
            provider: self.provider.copy(),
            model_key: self.model_key.copy(),
            model_version: self.model_version.copy(),
        }
    }

    /// Check model metadata without contacting a provider.
    pub fn validate(&self) -> (r: Result<(), ContractError>)
        ensures
            failure(r) == capabilities_fault(self@.capabilities),
    {
        self.capabilities.validate()
    }
}

/// The stages of support, in order.
pub open spec fn support_rank(support: ModelSupportStatus) -> int {
    match support {
        ModelSupportStatus::Planned => 0,
        ModelSupportStatus::ContractTested => 1,
        ModelSupportStatus::LiveVerified => 2,
    }
}

impl ModelSupportStatus {
    /// Whether this stage comes before another.
    pub fn is_below(&self, other: &ModelSupportStatus) -> (r: bool)
        ensures
            r == (support_rank(*self) < support_rank(*other)),
    {
        match (self, other) {
            (ModelSupportStatus::Planned, ModelSupportStatus::ContractTested) => true,
            (ModelSupportStatus::Planned, ModelSupportStatus::LiveVerified) => true,
            (ModelSupportStatus::ContractTested, ModelSupportStatus::LiveVerified) => true,
            _ => false,
        }
    }
}

/// Every feature of one list is in the other.
pub open spec fn is_subset(features: Seq<Seq<char>>, of: Seq<Seq<char>>) -> bool {
    every(features, |feature: Seq<char>| of.contains(feature))
}

/// Whether every identifier of one list is in the other.
pub fn all_in(features: &Vec<Id>, of: &Vec<Id>) -> (r: bool)
    ensures
        r == is_subset(features.deep_view(), of.deep_view()),
{
    let held = |feature: &Id| -> (b: bool)
        ensures
            b == of.deep_view().contains(feature@),
    { contains(of, feature) };
    all(features, held, Ghost(|feature: Seq<char>| of.deep_view().contains(feature)))
}

/// What evidence of a binding covers: its model and itself, without support labels, receipts and
/// lifecycle annotations.
pub open spec fn contract_json(binding: ModelBindingView, model: ModelDefinitionView) -> JsonView {
    JsonView::Array(
        seq![
            JsonView::Array(
                seq![
                    JsonView::Text(model.model_key),
                    JsonView::Text(model.family),
                    JsonView::Text(model.provider),
                    JsonView::Text(model.model_id),
                    JsonView::Text(model.model_version),
                    semantics_json(model.version_semantics),
                    capabilities_json(model.capabilities),
                ],
            ),
            JsonView::Array(
                seq![
                    versioned_json(binding.binding),
                    model_ref_json(binding.model),
                    JsonView::Text(binding.requested_model),
                    versioned_json(binding.adapter),
                    versioned_json(binding.connection_ref),
                    JsonView::Object(binding.target),
                    binding.target_schema,
                    api_contract_json(binding.api_contract),
                    match binding.deployment_revision {
                        Some(revision) => JsonView::Text(revision),
                        None => JsonView::Null,
                    },
                    semantics_json(binding.version_semantics),
                    capabilities_json(binding.capabilities),
                ],
            ),
        ],
    )
}

/// The digest that evidence of a binding must name.
pub open spec fn contract_digest_of(
    binding: ModelBindingView,
    model: ModelDefinitionView,
) -> Seq<char> {
    if binding.default_options.len() == 0 {
        digest_of(contract_json(binding, model))
    } else {
        digest_of(
            JsonView::Array(
                seq![
                    JsonView::Text("binding-default-options-v1"@),
                    JsonView::Text(digest_of(contract_json(binding, model))),
                    JsonView::Object(binding.default_options),
                ],
            ),
        )
    }
}

/// Why a target is refused.
pub open spec fn target_fault(binding: ModelBindingView) -> Option<Fault> {
    let schema = closed_schema_fault(
        binding.target_schema,
        ErrorCode::ModelBindingInvalid,
        "binding.target_schema",
    );
    if schema is Some {
        schema
    } else if !accepts_document(binding.target_schema, JsonView::Object(binding.target)) {
        fault(ErrorCode::ModelBindingInvalid, "binding.target")
    } else {
        None
    }
}

/// Evidence of another contract.
pub open spec fn of_other_contract(digest: Seq<char>) -> spec_fn(ModelValidationEvidenceView) -> bool {
    |evidence: ModelValidationEvidenceView| evidence.binding_digest != digest
}

/// Why a binding is refused for a model.
pub open spec fn binding_fault(binding: ModelBindingView, model: ModelDefinitionView) -> Option<
    Fault,
> {
    if capabilities_fault(model.capabilities) is Some {
        capabilities_fault(model.capabilities)
    } else if capabilities_fault(binding.capabilities) is Some {
        capabilities_fault(binding.capabilities)
    } else if binding.model != model.reference() || !is_subset(
        binding.capabilities.features,
        model.capabilities.features,
    ) || binding.capabilities.context_window > model.capabilities.context_window
        || binding.capabilities.max_output_tokens > model.capabilities.max_output_tokens {
        fault(ErrorCode::ModelBindingInvalid, "binding.capabilities")
    } else if target_fault(binding) is Some {
        target_fault(binding)
    } else if options_fault(binding.default_options) is Some {
        options_fault(binding.default_options)
    } else if some_in(binding.evidence, of_other_contract(contract_digest_of(binding, model))) {
        fault(ErrorCode::ModelBindingInvalid, "binding.evidence_target")
    } else if (support_rank(binding.support) >= 1 && !some_in(
        binding.evidence,
        |evidence: ModelValidationEvidenceView| evidence.passed,
    )) || (binding.support is LiveVerified && !some_in(
        binding.evidence,
        |evidence: ModelValidationEvidenceView| evidence.passed && evidence.kind is LiveCheck,
    )) {
        fault(ErrorCode::ModelSupportInsufficient, "binding.evidence")
    } else {
        None
    }
}

impl ModelBinding {
    /// Identity covered by evidence. Support labels, receipts and lifecycle annotations are left
    /// out to avoid circular evidence and to preserve historical check records.
    pub fn contract_digest(&self, model: &ModelDefinition) -> (r: Result<
        JsonDigest,
        ContractError,
    >)
        ensures
            failure(r) == (if self@.model != model@.reference() {
                fault(ErrorCode::ModelBindingInvalid, "binding.model")
            } else {
                None
            }),
            r matches Ok(digest) ==> digest@ == contract_digest_of(self@, model@),
    {
        if !self.model.same(&model.reference()) {
            return fail(ErrorCode::ModelBindingInvalid, "binding.model");
        }
        let of_model = vec![
            text(model.model_key.as_str()),
            text(model.family.as_str()),
            text(model.provider.as_str()),
            text(model.model_id.as_str()),
            text(model.model_version.as_str()),
            encode_semantics(&model.version_semantics),
            encode_capabilities(&model.capabilities),
        ];
        assert(of_model.deep_view() =~= contract_json(self@, model@)->Array_0[0]->Array_0);
        let revision = match &self.deployment_revision {
            Some(revision) => text(revision.as_str()),
            None => Json::Null,
        };
        let of_binding = vec![
            encode_versioned(&self.binding),
            encode_model_ref(&self.model),
            text(self.requested_model.as_str()),
            encode_versioned(&self.adapter),
            encode_versioned(&self.connection_ref),
            object(self.target.copy()),
            self.target_schema.copy(),
            encode_api_contract(&self.api_contract),
            revision,
            encode_semantics(&self.version_semantics),
            encode_capabilities(&self.capabilities),
        ];
        assert(of_binding.deep_view() =~= contract_json(self@, model@)->Array_0[1]->Array_0);
        let both = vec![array(of_model), array(of_binding)];
        assert(both.deep_view() =~= contract_json(self@, model@)->Array_0);
        let legacy = canonical_digest(&array(both));
        if self.default_options.len() == 0 {
            return Ok(legacy);
        }
        let extended = vec![
            text("binding-default-options-v1"),
            text(legacy.as_str()),
            object(self.default_options.copy()),
        ];
        assert(extended.deep_view() =~= seq![
            JsonView::Text("binding-default-options-v1"@),
            JsonView::Text(digest_of(contract_json(self@, model@))),
            JsonView::Object(self@.default_options),
        ]);
        Ok(canonical_digest(&array(extended)))
    }

    /// Validate the exact target, capability ceilings and recorded support evidence.
    pub fn validate(&self, model: &ModelDefinition) -> (r: Result<(), ContractError>)
        ensures
            failure(r) == binding_fault(self@, model@),
    {
        model.validate()?;
        self.capabilities.validate()?;
        if !self.model.same(&model.reference()) || !all_in(
            &self.capabilities.features,
            &model.capabilities.features,
        ) || self.capabilities.context_window > model.capabilities.context_window
            || self.capabilities.max_output_tokens > model.capabilities.max_output_tokens {
            return fail(ErrorCode::ModelBindingInvalid, "binding.capabilities");
        }
        self.validate_target()?;
        validate_inference_options(&self.default_options)?;
        let digest = self.contract_digest(model)?;
        let other = |evidence: &ModelValidationEvidence| -> (b: bool)
            ensures
                b == of_other_contract(digest@)(evidence@),
        { !evidence.binding_digest.same(&digest) };
        if any(&self.evidence, other, Ghost(of_other_contract(digest@))) {
            return fail(ErrorCode::ModelBindingInvalid, "binding.evidence_target");
        }
        let passing = |evidence: &ModelValidationEvidence| -> (b: bool)
            ensures
                b == evidence@.passed,
        { evidence.passed };
        let has_contract = any(
            &self.evidence,
            passing,
            Ghost(|evidence: ModelValidationEvidenceView| evidence.passed),
        );
        let passing_live = |evidence: &ModelValidationEvidence| -> (b: bool)
            ensures
                b == (evidence@.passed && evidence@.kind is LiveCheck),
        { evidence.passed && evidence.kind == ModelValidationKind::LiveCheck };
        let has_live = any(
            &self.evidence,
            passing_live,
            Ghost(
                |evidence: ModelValidationEvidenceView|
                    evidence.passed && evidence.kind is LiveCheck,
            ),
        );
        if (self.support != ModelSupportStatus::Planned && !has_contract) || (self.support
            == ModelSupportStatus::LiveVerified && !has_live) {
            return fail(ErrorCode::ModelSupportInsufficient, "binding.evidence");
        }
        Ok(())
    }

    /// Validate target fields against this binding's own schema.
    pub fn validate_target(&self) -> (r: Result<(), ContractError>)
        ensures
            failure(r) == target_fault(self@),
    {
        closed_schema(
            &self.target_schema,
            ErrorCode::ModelBindingInvalid,
            "binding.target_schema",
        )?;
        if !is_accepted(&self.target_schema, &object(self.target.copy())) {
            return fail(ErrorCode::ModelBindingInvalid, "binding.target");
        }
        Ok(())
    }
}

/// The models of a name.
pub open spec fn model_named(reference: ModelDefinitionRefView) -> spec_fn(
    ModelDefinitionView,
) -> bool {
    |model: ModelDefinitionView| model.reference() == reference
}

/// The model of a name.
pub fn find_model<'a>(models: &'a Vec<ModelDefinition>, reference: &ModelDefinitionRef) -> (r:
    Option<&'a ModelDefinition>)
    ensures
        r.deep_view() == first_in(models.deep_view(), model_named(reference@)),
{
    let named = |model: &ModelDefinition| -> (b: bool)
        ensures
            b == model_named(reference@)(model@),
    { model.reference().same(reference) };
    find(models, named, Ghost(model_named(reference@)))
}

/// Why the model at a position of a catalog is refused.
pub open spec fn model_at_fault(models: Seq<ModelDefinitionView>) -> spec_fn(int) -> Option<Fault> {
    |i: int|
        if capabilities_fault(models[i].capabilities) is Some {
            capabilities_fault(models[i].capabilities)
        } else if some_in(models.take(i), model_named(models[i].reference())) {
            fault(ErrorCode::ModelCatalogMismatch, "catalog.models")
        } else {
            None
        }
}

/// Models that already have a name of this provider.
pub open spec fn spelled(provider: Seq<char>, name: Seq<char>) -> spec_fn(
    ModelDefinitionView,
) -> bool {
    |model: ModelDefinitionView|
        model.provider == provider && (model.model_key == name || model.model_id == name)
}

/// The aliases of this spelling.
pub open spec fn alias_named(provider: Seq<char>, name: Seq<char>) -> spec_fn(ModelAliasView) -> bool {
    |alias: ModelAliasView| alias.provider == provider && alias.alias == name
}

/// Why the alias at a position of a catalog is refused.
pub open spec fn alias_at_fault(
    models: Seq<ModelDefinitionView>,
    aliases: Seq<ModelAliasView>,
) -> spec_fn(int) -> Option<Fault> {
    |i: int|
        {
            let alias = aliases[i];
            if alias.provider != alias.target.provider || !some_in(
                models,
                model_named(alias.target),
            ) || some_in(models, spelled(alias.provider, alias.alias)) || some_in(
                aliases.take(i),
                alias_named(alias.provider, alias.alias),
            ) {
                fault(ErrorCode::ModelCatalogMismatch, "catalog.aliases")
            } else {
                None
            }
        }
}

/// The bindings of an identity.
pub open spec fn binding_named(reference: VersionedRefView) -> spec_fn(ModelBindingView) -> bool {
    |binding: ModelBindingView| binding.binding == reference
}

/// Why the binding at a position of a catalog is refused.
pub open spec fn binding_at_fault(catalog: ModelCatalogSnapshotView) -> spec_fn(int) -> Option<
    Fault,
> {
    |i: int|
        {
            let binding = catalog.bindings[i];
            if some_in(catalog.bindings.take(i), binding_named(binding.binding)) {
                fault(ErrorCode::ModelCatalogMismatch, "catalog.bindings")
            } else {
                match first_in(catalog.models, model_named(binding.model)) {
                    None => fault(ErrorCode::ModelNotRegistered, "binding.model"),
                    Some(model) => if binding.requested_model != model.model_id
                        && binding.requested_model != model.model_key && !(first_in(
                        catalog.aliases,
                        alias_named(binding.model.provider, binding.requested_model),
                    ) matches Some(alias) && alias.target == binding.model) {
                        fault(ErrorCode::ModelBindingInvalid, "binding.requested_model")
                    } else {
                        binding_fault(binding, model)
                    },
                }
            }
        }
}

/// Why a catalog is refused.
pub open spec fn catalog_fault(catalog: ModelCatalogSnapshotView) -> Option<Fault> {
    let models = first_index_fault(
        0,
        catalog.models.len() as int,
        model_at_fault(catalog.models),
    );
    let aliases = first_index_fault(
        0,
        catalog.aliases.len() as int,
        alias_at_fault(catalog.models, catalog.aliases),
    );
    if models is Some {
        models
    } else if aliases is Some {
        aliases
    } else {
        first_index_fault(0, catalog.bindings.len() as int, binding_at_fault(catalog))
    }
}

impl ModelCatalogSnapshot {
    /// Hash the complete snapshot, including scope, lifecycle and evidence.
    pub fn digest(&self) -> (r: JsonDigest)
        ensures
            r@ == digest_of(catalog_json(self@)),
    {
        canonical_digest(&encode_catalog(self))
    }

    fn check_model(&self, i: usize) -> (r: Result<(), ContractError>)
        requires
            i < self.models.len(),
        ensures
            failure(r) == model_at_fault(self@.models)(i as int),
    {
        let model = &self.models[i];
        assert(model@ == self@.models[i as int]);
        model.validate()?;
        let reference = model.reference();
        let named = |other: &ModelDefinition| -> (b: bool)
            ensures
                b == model_named(reference@)(other@),
        { other.reference().same(&reference) };
        if any_before(&self.models, i, named, Ghost(model_named(reference@))) {
            return fail(ErrorCode::ModelCatalogMismatch, "catalog.models");
        }
        Ok(())
    }

    fn check_alias(&self, i: usize) -> (r: Result<(), ContractError>)
        requires
            i < self.aliases.len(),
        ensures
            failure(r) == alias_at_fault(self@.models, self@.aliases)(i as int),
    {
        let alias = &self.aliases[i];
        assert(alias@ == self@.aliases[i as int]);
        let target = |model: &ModelDefinition| -> (b: bool)
            ensures
                b == model_named(alias@.target)(model@),
        { model.reference().same(&alias.target) };
        let taken = |model: &ModelDefinition| -> (b: bool)
            ensures
                b == spelled(alias@.provider, alias@.alias)(model@),
        {
            model.provider.same(&alias.provider) && (model.model_key.same(&alias.alias)
                || model.model_id.same(&alias.alias))
        };
        let repeated = |other: &ModelAlias| -> (b: bool)
            ensures
                b == alias_named(alias@.provider, alias@.alias)(other@),
        { other.provider.same(&alias.provider) && other.alias.same(&alias.alias) };
        if !alias.provider.same(&alias.target.provider) || !any(
            &self.models,
            target,
            Ghost(model_named(alias@.target)),
        ) || any(&self.models, taken, Ghost(spelled(alias@.provider, alias@.alias))) || any_before(
            &self.aliases,
            i,
            repeated,
            Ghost(alias_named(alias@.provider, alias@.alias)),
        ) {
            return fail(ErrorCode::ModelCatalogMismatch, "catalog.aliases");
        }
        Ok(())
    }

    fn check_binding(&self, i: usize) -> (r: Result<(), ContractError>)
        requires
            i < self.bindings.len(),
        ensures
            failure(r) == binding_at_fault(self@)(i as int),
    {
        let binding = &self.bindings[i];
        assert(binding@ == self@.bindings[i as int]);
        let repeated = |other: &ModelBinding| -> (b: bool)
            ensures
                b == binding_named(binding@.binding)(other@),
        { other.binding.same(&binding.binding) };
        if any_before(&self.bindings, i, repeated, Ghost(binding_named(binding@.binding))) {
            return fail(ErrorCode::ModelCatalogMismatch, "catalog.bindings");
        }
        let model = match find_model(&self.models, &binding.model) {
            Some(model) => model,
            None => {
                return fail(ErrorCode::ModelNotRegistered, "binding.model");
            },
        };
        let named = |alias: &ModelAlias| -> (b: bool)
            ensures
                b == alias_named(binding@.model.provider, binding@.requested_model)(alias@),
        {
            alias.provider.same(&binding.model.provider) && alias.alias.same(
                &binding.requested_model,
            )
        };
        let aliased = match find(
            &self.aliases,
            named,
            Ghost(alias_named(binding@.model.provider, binding@.requested_model)),
        ) {
            Some(alias) => alias.target.same(&binding.model),
            None => false,
        };
        if !binding.requested_model.same(&model.model_id) && !binding.requested_model.same(
            &model.model_key,
        ) && !aliased {
            return fail(ErrorCode::ModelBindingInvalid, "binding.requested_model");
        }
        binding.validate(model)
    }

    /// Validate duplicate identities, references, alias consistency and binding contracts.
    pub fn validate(&self) -> (r: Result<(), ContractError>)
        ensures
            failure(r) == catalog_fault(self@),
    {
        let model = |i: usize| -> (r: Result<(), ContractError>)
            requires
                i < self.models.len(),
            ensures
                failure(r) == model_at_fault(self@.models)(i as int),
        { self.check_model(i) };
        crate::data::check_indices(
            self.models.len(),
            model,
            Ghost(model_at_fault(self@.models)),
        )?;
        let alias = |i: usize| -> (r: Result<(), ContractError>)
            requires
                i < self.aliases.len(),
            ensures
                failure(r) == alias_at_fault(self@.models, self@.aliases)(i as int),
        { self.check_alias(i) };
        crate::data::check_indices(
            self.aliases.len(),
            alias,
            Ghost(alias_at_fault(self@.models, self@.aliases)),
        )?;
        let binding = |i: usize| -> (r: Result<(), ContractError>)
            requires
                i < self.bindings.len(),
            ensures
                failure(r) == binding_at_fault(self@)(i as int),
        { self.check_binding(i) };
        crate::data::check_indices(self.bindings.len(), binding, Ghost(binding_at_fault(self@)))
    }
}

/// The version guarantee of a model and its target together.
pub open spec fn effective_semantics(resolved: ResolvedCatalogBindingView) -> VersionSemantics {
    let model = resolved.model.version_semantics;
    let target = resolved.binding.version_semantics;
    if model is Unverified || target is Unverified {
        VersionSemantics::Unverified
    } else if model is Mutable || target is Mutable {
        VersionSemantics::Mutable
    } else {
        VersionSemantics::Pinned
    }
}

/// The least of three bounds.
pub open spec fn least(a: u64, b: u64, c: u64) -> u64 {
    if a <= b && a <= c {
        a
    } else if b <= c {
        b
    } else {
        c
    }
}

/// The least of three bounds.
pub fn least_of(a: u64, b: u64, c: u64) -> (r: u64)
    ensures
        r == least(a, b, c),
{
    if a <= b && a <= c {
        a
    } else if b <= c {
        b
    } else {
        c
    }
}

/// Why a binding does not meet requirements.
pub open spec fn requirements_fault(
    resolved: ResolvedCatalogBindingView,
    requirements: CatalogRequirementsView,
) -> Option<Fault> {
    let effective = merged(resolved.binding.default_options, requirements.options);
    let tokens = requirements.input_tokens + least(
        requirements.max_output_tokens,
        resolved.model.capabilities.max_output_tokens,
        resolved.binding.capabilities.max_output_tokens,
    );
    if binding_fault(resolved.binding, resolved.model) is Some {
        binding_fault(resolved.binding, resolved.model)
    } else if resolved.model.lifecycle is Retired || resolved.model.lifecycle is Unavailable {
        fault(ErrorCode::ModelUnavailable, "model.lifecycle")
    } else if support_rank(resolved.binding.support) < support_rank(requirements.min_support) {
        fault(ErrorCode::ModelSupportInsufficient, "binding.support")
    } else if requirements.version_policy is RequirePinned && !(effective_semantics(
        resolved,
    ) is Pinned) {
        fault(ErrorCode::ModelVersionUnpinned, "binding.version_semantics")
    } else if !is_subset(requirements.features, resolved.model.capabilities.features) || !is_subset(
        requirements.features,
        resolved.binding.capabilities.features,
    ) {
        fault(ErrorCode::ModelCapabilityUnsupported, "model.features")
    } else if unsupported_options_fault(resolved.model.capabilities, effective) is Some {
        unsupported_options_fault(resolved.model.capabilities, effective)
    } else if unsupported_options_fault(resolved.binding.capabilities, effective) is Some {
        unsupported_options_fault(resolved.binding.capabilities, effective)
    } else if tokens > u64::MAX || tokens > resolved.model.capabilities.context_window || tokens
        > resolved.binding.capabilities.context_window {
        fault(ErrorCode::ModelContextIncompatible, "model.token_limits")
    } else {
        None
    }
}

impl ResolvedCatalogBinding {
    /// Preserve mutable and unverified semantics of either the model or the target.
    pub fn effective_version_semantics(&self) -> (r: VersionSemantics)
        ensures
            r == effective_semantics(self@),
    {
        match (self.model.version_semantics, self.binding.version_semantics) {
            (VersionSemantics::Pinned, VersionSemantics::Pinned) => VersionSemantics::Pinned,
            (VersionSemantics::Unverified, _) => VersionSemantics::Unverified,
            (_, VersionSemantics::Unverified) => VersionSemantics::Unverified,
            _ => VersionSemantics::Mutable,
        }
    }

    /// Reject unsupported, retired and unpinned choices without changing their model, target,
    /// features or options.
    pub fn validate(&self, requirements: &CatalogRequirements) -> (r: Result<(), ContractError>)
        ensures
            failure(r) == requirements_fault(self@, requirements@),
    {
        self.binding.validate(&self.model)?;
        if self.model.lifecycle == ModelLifecycle::Retired || self.model.lifecycle
            == ModelLifecycle::Unavailable {
            return fail(ErrorCode::ModelUnavailable, "model.lifecycle");
        }
        if self.binding.support.is_below(&requirements.min_support) {
            return fail(ErrorCode::ModelSupportInsufficient, "binding.support");
        }
        if requirements.version_policy == VersionPolicy::RequirePinned
            && self.effective_version_semantics() != VersionSemantics::Pinned {
            return fail(ErrorCode::ModelVersionUnpinned, "binding.version_semantics");
        }
        if !all_in(&requirements.features, &self.model.capabilities.features) || !all_in(
            &requirements.features,
            &self.binding.capabilities.features,
        ) {
            return fail(ErrorCode::ModelCapabilityUnsupported, "model.features");
        }
        let effective = merge_model_options(&self.binding.default_options, &requirements.options);
        self.model.capabilities.validate_options(&effective)?;
        self.binding.capabilities.validate_options(&effective)?;
        let output_cap: u64 = least_of(
            requirements.max_output_tokens,
            self.model.capabilities.max_output_tokens,
            self.binding.capabilities.max_output_tokens,
        );
        if requirements.input_tokens > u64::MAX - output_cap {
            return fail(ErrorCode::ModelContextIncompatible, "model.token_limits");
        }
        let tokens: u64 = requirements.input_tokens + output_cap;
        if tokens > self.model.capabilities.context_window || tokens
            > self.binding.capabilities.context_window {
            return fail(ErrorCode::ModelContextIncompatible, "model.token_limits");
        }
        Ok(())
    }
}

/// A model and its target together are pinned only where both are.
pub proof fn law_pinned_needs_both(resolved: ResolvedCatalogBindingView)
    ensures
        effective_semantics(resolved) is Pinned <==> resolved.model.version_semantics is Pinned
            && resolved.binding.version_semantics is Pinned,
{
}

/// Accepted requirements never exceed the context window of the model or of its binding.
pub proof fn law_accepted_calls_fit_the_window(
    resolved: ResolvedCatalogBindingView,
    requirements: CatalogRequirementsView,
)
    requires
        requirements_fault(resolved, requirements) is None,
    ensures
        ({
            let output = least(
                requirements.max_output_tokens,
                resolved.model.capabilities.max_output_tokens,
                resolved.binding.capabilities.max_output_tokens,
            );
            &&& requirements.input_tokens + output <= resolved.model.capabilities.context_window
            &&& requirements.input_tokens + output <= resolved.binding.capabilities.context_window
        }),
{
}

/// A target meets requirements exactly where its contract is sound, its model is still offered, it
/// has been tried as far as is asked, both model and target are pinned where that is asked, both have
/// every feature, both take the options, and what goes in and may come out fits both windows.
pub proof fn law_requirements_are_met_by_model_and_target(
    resolved: ResolvedCatalogBindingView,
    requirements: CatalogRequirementsView,
)
    ensures
        requirements_fault(resolved, requirements) is None <==> {
            let model = resolved.model.capabilities;
            let target = resolved.binding.capabilities;
            let options = merged(resolved.binding.default_options, requirements.options);
            &&& binding_fault(resolved.binding, resolved.model) is None
            &&& resolved.model.lifecycle == ModelLifecycle::Active || resolved.model.lifecycle
                == ModelLifecycle::Deprecated
            &&& match requirements.min_support {
                ModelSupportStatus::Planned => true,
                ModelSupportStatus::ContractTested => resolved.binding.support
                    != ModelSupportStatus::Planned,
                ModelSupportStatus::LiveVerified => resolved.binding.support
                    == ModelSupportStatus::LiveVerified,
            }
            &&& requirements.version_policy == VersionPolicy::RequirePinned
                ==> resolved.model.version_semantics == VersionSemantics::Pinned
                && resolved.binding.version_semantics == VersionSemantics::Pinned
            &&& forall|feature: Seq<char>|
                requirements.features.contains(feature) ==> #[trigger] model.features.contains(
                    feature,
                )
            &&& forall|feature: Seq<char>|
                requirements.features.contains(feature) ==> #[trigger] target.features.contains(
                    feature,
                )
            &&& unsupported_options_fault(model, options) is None
            &&& unsupported_options_fault(target, options) is None
            &&& exists|output: int|
                (output == requirements.max_output_tokens || output == model.max_output_tokens
                    || output == target.max_output_tokens) && output
                    <= requirements.max_output_tokens && output <= model.max_output_tokens && output
                    <= target.max_output_tokens && #[trigger] fits(
                    requirements.input_tokens + output,
                    model.context_window,
                    target.context_window,
                )
        },
{
    let model = resolved.model.capabilities;
    let target = resolved.binding.capabilities;
    let output = least(
        requirements.max_output_tokens,
        model.max_output_tokens,
        target.max_output_tokens,
    ) as int;
    assert(fits(requirements.input_tokens + output, model.context_window, target.context_window)
        == (requirements.input_tokens + output <= model.context_window && requirements.input_tokens
        + output <= target.context_window));
    lemma_subset(requirements.features, model.features);
    lemma_subset(requirements.features, target.features);
}

/// A number of tokens fits two windows.
pub open spec fn fits(tokens: int, model_window: u64, target_window: u64) -> bool {
    tokens <= model_window && tokens <= target_window
}

proof fn lemma_subset(features: Seq<Seq<char>>, of: Seq<Seq<char>>)
    ensures
        is_subset(features, of) <==> forall|feature: Seq<char>|
            features.contains(feature) ==> #[trigger] of.contains(feature),
{
    if is_subset(features, of) {
        assert forall|feature: Seq<char>| features.contains(feature) implies #[trigger] of.contains(
            feature,
        ) by {
            let i = choose|i: int| 0 <= i < features.len() && features[i] == feature;
            assert((|feature: Seq<char>| of.contains(feature))(features[i]));
        }
    }
    if forall|feature: Seq<char>|
        features.contains(feature) ==> #[trigger] of.contains(feature) {
        assert forall|i: int| 0 <= i < features.len() implies (|feature: Seq<char>|
            of.contains(feature))(#[trigger] features[i]) by {
            assert(features.contains(features[i]));
        }
    }
}

/// A sound binding is one of its own model and promises no more than the model: no other feature, no
/// larger window, no longer output. Its support rests on evidence of exactly this contract that
/// passed, and a live one on a live check.
pub proof fn law_bindings_stay_within_their_model(
    binding: ModelBindingView,
    model: ModelDefinitionView,
)
    requires
        binding_fault(binding, model) is None,
    ensures
        binding.model.provider == model.provider,
        binding.model.model_key == model.model_key,
        binding.model.model_version == model.model_version,
        forall|feature: Seq<char>|
            binding.capabilities.features.contains(feature)
                ==> #[trigger] model.capabilities.features.contains(feature),
        binding.capabilities.context_window <= model.capabilities.context_window,
        binding.capabilities.max_output_tokens <= model.capabilities.max_output_tokens,
        binding.capabilities.max_output_tokens <= binding.capabilities.context_window,
        model.capabilities.max_output_tokens <= model.capabilities.context_window,
        forall|i: int|
            0 <= i < binding.evidence.len() ==> (#[trigger] binding.evidence[i]).binding_digest
                == contract_digest_of(binding, model),
        binding.support != ModelSupportStatus::Planned ==> exists|i: int|
            0 <= i < binding.evidence.len() && (#[trigger] binding.evidence[i]).passed,
        binding.support == ModelSupportStatus::LiveVerified ==> exists|i: int|
            0 <= i < binding.evidence.len() && (#[trigger] binding.evidence[i]).passed
                && binding.evidence[i].kind == ModelValidationKind::LiveCheck,
{
    lemma_subset(binding.capabilities.features, model.capabilities.features);
    let other = of_other_contract(contract_digest_of(binding, model));
    assert forall|i: int| 0 <= i < binding.evidence.len() implies (
    #[trigger] binding.evidence[i]).binding_digest == contract_digest_of(binding, model) by {
        assert(!other(binding.evidence[i]));
    }
    let passed = |evidence: ModelValidationEvidenceView| evidence.passed;
    let live = |evidence: ModelValidationEvidenceView|
        evidence.passed && evidence.kind is LiveCheck;
    if some_in(binding.evidence, passed) {
        let i = choose|i: int| 0 <= i < binding.evidence.len() && passed(#[trigger] binding.evidence[i]);
        assert(binding.evidence[i].passed);
    }
    if some_in(binding.evidence, live) {
        let i = choose|i: int| 0 <= i < binding.evidence.len() && live(#[trigger] binding.evidence[i]);
        assert(binding.evidence[i].passed);
    }
}

/// In a sound catalog no two models and no two bindings share an identity, and every binding has the
/// model that it names and is sound for it.
pub proof fn law_catalog_entries_are_found(catalog: ModelCatalogSnapshotView, i: int, j: int)
    requires
        catalog_fault(catalog) is None,
    ensures
        0 <= i < j < catalog.models.len() ==> catalog.models[i].reference()
            != catalog.models[j].reference(),
        0 <= i < j < catalog.bindings.len() ==> catalog.bindings[i].binding
            != catalog.bindings[j].binding,
        0 <= i < catalog.bindings.len() ==> exists|m: int|
            0 <= m < catalog.models.len() && (#[trigger] catalog.models[m]).reference()
                == catalog.bindings[i].model && binding_fault(
                catalog.bindings[i],
                catalog.models[m],
            ) is None,
        0 <= i < catalog.bindings.len() ==> first_in(
            catalog.bindings,
            binding_named(catalog.bindings[i].binding),
        ) == Some(catalog.bindings[i]),
        0 <= i < catalog.models.len() ==> first_in(
            catalog.models,
            model_named(catalog.models[i].reference()),
        ) == Some(catalog.models[i]),
{
    let model_at = model_at_fault(catalog.models);
    let binding_at = binding_at_fault(catalog);
    lemma_first_index_fault(0, catalog.models.len() as int, model_at);
    lemma_first_index_fault(0, catalog.bindings.len() as int, binding_at);
    assert forall|a: int, b: int| 0 <= a < b < catalog.models.len() implies #[trigger] model_named(
        catalog.models[b].reference(),
    )(catalog.models[a]) == false by {
        assert(model_at(b) is None);
        assert(catalog.models.take(b)[a] == catalog.models[a]);
    }
    assert forall|a: int, b: int| 0 <= a < b < catalog.bindings.len() implies
        #[trigger] binding_named(catalog.bindings[b].binding)(catalog.bindings[a]) == false by {
        assert(binding_at(b) is None);
        assert(catalog.bindings.take(b)[a] == catalog.bindings[a]);
    }
    if 0 <= i < j < catalog.models.len() {
        assert(!model_named(catalog.models[j].reference())(catalog.models[i]));
    }
    if 0 <= i < j < catalog.bindings.len() {
        assert(!binding_named(catalog.bindings[j].binding)(catalog.bindings[i]));
    }
    if 0 <= i < catalog.bindings.len() {
        assert(binding_at(i) is None);
        let p = model_named(catalog.bindings[i].model);
        lemma_first_in(catalog.models, p);
        let model = first_in(catalog.models, p)->Some_0;
        let m = choose|m: int| 0 <= m < catalog.models.len() && catalog.models[m] == model;
        assert(catalog.models[m].reference() == catalog.bindings[i].model);
        let q = binding_named(catalog.bindings[i].binding);
        assert(q(catalog.bindings[i]));
        lemma_found_at(catalog.bindings, q, i);
    }
    if 0 <= i < catalog.models.len() {
        let q = model_named(catalog.models[i].reference());
        assert(q(catalog.models[i]));
        lemma_found_at(catalog.models, q, i);
    }
}

/// The least of three bounds is one of them and within each.
pub proof fn law_the_least_bound_holds_all(a: u64, b: u64, c: u64)
    ensures
        least(a, b, c) <= a && least(a, b, c) <= b && least(a, b, c) <= c,
        least(a, b, c) == a || least(a, b, c) == b || least(a, b, c) == c,
{
}

/// Options are taken exactly where none is reserved and the closed schema of options accepts them.
pub proof fn law_unknown_options_are_refused(
    capabilities: ModelCapabilitiesView,
    options: Seq<MemberView>,
)
    ensures
        unsupported_options_fault(capabilities, options) is None <==> {
            &&& options_fault(options) is None
            &&& get_of(capabilities.options_schema, "type"@) == Some(JsonView::Text("object"@))
            &&& get_of(capabilities.options_schema, "additionalProperties"@) == Some(
                JsonView::Bool(false),
            )
            &&& compile_fault(capabilities.options_schema) is None
            &&& accepts_document(capabilities.options_schema, JsonView::Object(options))
        },
{
}

/// A model and its target together promise no more than the weaker of the two: what one leaves
/// unverified stays unverified, and what one may change may change.
pub proof fn law_the_weaker_promise_holds(resolved: ResolvedCatalogBindingView)
    ensures
        effective_semantics(resolved) is Unverified <==> resolved.model.version_semantics
            is Unverified || resolved.binding.version_semantics is Unverified,
        effective_semantics(resolved) == resolved.model.version_semantics || effective_semantics(
            resolved,
        ) == resolved.binding.version_semantics,
        resolved.model.version_semantics == resolved.binding.version_semantics
            ==> effective_semantics(resolved) == resolved.model.version_semantics,
        effective_semantics(resolved) is Pinned ==> resolved.model.version_semantics is Pinned
            && resolved.binding.version_semantics is Pinned,
{
}

/// Support grows from planned over tested to verified: nothing is below what is only planned, nothing
/// is above what was verified, and every other stage lies between.
pub proof fn law_support_grows(a: ModelSupportStatus, b: ModelSupportStatus)
    ensures
        support_rank(ModelSupportStatus::Planned) <= support_rank(a) <= support_rank(
            ModelSupportStatus::LiveVerified,
        ),
        a != b <==> support_rank(a) != support_rank(b),
        a == ModelSupportStatus::ContractTested ==> support_rank(ModelSupportStatus::Planned)
            < support_rank(a) < support_rank(ModelSupportStatus::LiveVerified),
{
}

/// In a sound catalog every model and every binding is named once, no alias repeats another or hides
/// a model, and every alias leads to a model of its own provider.
pub proof fn law_catalogs_are_unambiguous(catalog: ModelCatalogSnapshotView)
    requires
        catalog_fault(catalog) is None,
    ensures
        forall|i: int, j: int|
            0 <= i < j < catalog.models.len() ==> (#[trigger] catalog.models[i]).reference() != (
            #[trigger] catalog.models[j]).reference(),
        forall|i: int, j: int|
            0 <= i < j < catalog.bindings.len() ==> (#[trigger] catalog.bindings[i]).binding != (
            #[trigger] catalog.bindings[j]).binding,
        forall|i: int, j: int|
            0 <= i < j < catalog.aliases.len() ==> (#[trigger] catalog.aliases[i]).provider != (
            #[trigger] catalog.aliases[j]).provider || catalog.aliases[i].alias
                != catalog.aliases[j].alias,
        forall|i: int|
            0 <= i < catalog.aliases.len() ==> (#[trigger] catalog.aliases[i]).provider
                == catalog.aliases[i].target.provider && exists|k: int|
                0 <= k < catalog.models.len() && (#[trigger] catalog.models[k]).reference()
                    == catalog.aliases[i].target,
        forall|i: int, k: int|
            0 <= i < catalog.aliases.len() && 0 <= k < catalog.models.len() ==> (
            #[trigger] catalog.models[k]).provider != (#[trigger] catalog.aliases[i]).provider || (
            catalog.models[k].model_key != catalog.aliases[i].alias && catalog.models[k].model_id
                != catalog.aliases[i].alias),
{
    let models = catalog.models;
    let aliases = catalog.aliases;
    let bindings = catalog.bindings;
    let f = model_at_fault(models);
    let g = alias_at_fault(models, aliases);
    let h = binding_at_fault(catalog);
    crate::data::lemma_first_index_fault(0, models.len() as int, f);
    crate::data::lemma_first_index_fault(0, aliases.len() as int, g);
    crate::data::lemma_first_index_fault(0, bindings.len() as int, h);
    assert forall|i: int, j: int| 0 <= i < j < models.len() implies (
    #[trigger] models[i]).reference() != (#[trigger] models[j]).reference() by {
        assert(f(j) is None);
        assert(models.take(j)[i] == models[i]);
        assert(!model_named(models[j].reference())(models.take(j)[i]));
    }
    assert forall|i: int, j: int| 0 <= i < j < bindings.len() implies (
    #[trigger] bindings[i]).binding != (#[trigger] bindings[j]).binding by {
        assert(h(j) is None);
        assert(bindings.take(j)[i] == bindings[i]);
        assert(!binding_named(bindings[j].binding)(bindings.take(j)[i]));
    }
    assert forall|i: int, j: int| 0 <= i < j < aliases.len() implies (
    #[trigger] aliases[i]).provider != (#[trigger] aliases[j]).provider || aliases[i].alias
        != aliases[j].alias by {
        assert(g(j) is None);
        assert(aliases.take(j)[i] == aliases[i]);
        assert(!alias_named(aliases[j].provider, aliases[j].alias)(aliases.take(j)[i]));
    }
    assert forall|i: int| 0 <= i < aliases.len() implies (#[trigger] aliases[i]).provider
        == aliases[i].target.provider && exists|k: int|
        0 <= k < models.len() && (#[trigger] models[k]).reference() == aliases[i].target by {
        assert(g(i) is None);
        let p = model_named(aliases[i].target);
        let k = choose|k: int| 0 <= k < models.len() && p(#[trigger] models[k]);
        assert(p(models[k]));
    }
    assert forall|i: int, k: int| 0 <= i < aliases.len() && 0 <= k < models.len() implies (
    #[trigger] models[k]).provider != (#[trigger] aliases[i]).provider || (models[k].model_key
        != aliases[i].alias && models[k].model_id != aliases[i].alias) by {
        assert(g(i) is None);
        assert(!spelled(aliases[i].provider, aliases[i].alias)(models[k]));
    }
}

/// Sound capabilities answer with no more than fits their window, and take closed options only; a sound
/// target suits its own closed schema.
pub proof fn law_capabilities_are_closed(
    capabilities: ModelCapabilitiesView,
    binding: ModelBindingView,
)
    ensures
        capabilities_fault(capabilities) is None ==> capabilities.max_output_tokens
            <= capabilities.context_window && get_of(capabilities.options_schema, "type"@) == Some(
            JsonView::Text("object"@),
        ) && get_of(capabilities.options_schema, "additionalProperties"@) == Some(
            JsonView::Bool(false),
        ) && compile_fault(capabilities.options_schema) is None,
        target_fault(binding) is None ==> get_of(binding.target_schema, "type"@) == Some(
            JsonView::Text("object"@),
        ) && get_of(binding.target_schema, "additionalProperties"@) == Some(
            JsonView::Bool(false),
        ) && accepts_document(binding.target_schema, JsonView::Object(binding.target)),
{
}

} // verus!
