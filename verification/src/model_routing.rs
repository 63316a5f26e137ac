//! Static routing: which exact target a purpose may use, and in which order.
use vstd::prelude::*;

use crate::data::{any, any_before, check_indices, contains, find, map_each, position, Data};
#[allow(unused_imports)]
use crate::data::{
    first_in, first_index_fault, lemma_first_in, lemma_first_index_fault, lemma_found_at,
    lemma_no_index_fault, lemma_position_in, position_in, some_in,
};
use crate::encoding::{encode_scope, encode_versioned, no_members, with_member};
#[allow(unused_imports)]
use crate::encoding::{scope_json, versioned_json};
use crate::error::{fail, ContractError, ErrorCode};
#[allow(unused_imports)]
use crate::error::{failure, fault, Fault};
use crate::json::{Json, Member};
#[allow(unused_imports)]
use crate::json::{get_of, keys_distinct, value_of, JsonView, MemberView};
use crate::model::{
    encode_failure_kind, encode_purpose, encode_version_policy, ModelFailureKind, ModelPurpose,
    ResolvedModelRoute, RouteRequest, VersionPolicy,
};
#[allow(unused_imports)]
use crate::model::VersionSemantics;
#[allow(unused_imports)]
use crate::model::{
    failure_kind_json, purpose_json, route_request_json, version_policy_json,
    ResolvedModelRouteView, RouteRequestView,
};
use crate::model_catalog::{
    encode_catalog, encode_support, find_model, least_of, CatalogRequirements, ModelBinding,
    ModelCatalogSnapshot, ModelSupportStatus, ResolvedCatalogBinding,
};
#[allow(unused_imports)]
use crate::model_catalog::{
    binding_named, catalog_fault, catalog_json, effective_semantics, law_catalog_entries_are_found,
    least, model_named,
    requirements_fault, support_json, support_rank, unsupported_options_fault,
    CatalogRequirementsView, ModelCatalogSnapshotView, ResolvedCatalogBindingView,
};
use crate::model_options::{
    merge_model_options, ModelConfiguration, ModelOptionSource, OptionOrigin,
};
#[allow(unused_imports)]
use crate::model_options::{law_override_wins, merged, ModelConfigurationView, OptionOriginView};
use crate::refs::{Scope, VersionedRef};
#[allow(unused_imports)]
use crate::refs::{ScopeView, VersionedRefView};
#[allow(unused_imports)]
use crate::reader::document_in;
use crate::serialization::{canonical_digest, is_unambiguous, parse_json, Id, JsonDigest};
#[allow(unused_imports)]
use crate::serialization::{digest_of, parse_fault, unambiguous};
use crate::text::{comes_before, reads};
#[allow(unused_imports)]
use crate::text::precedes;

verus! {

/// Static selection constraints, distinct from current authorization.
#[derive(Debug)]
pub struct RoutingRule {
    /// Profile's logical Host binding name.
    pub model_binding: Id,
    /// Invocation purpose.
    pub purpose: ModelPurpose,
    /// Exact default target, without implicit latest lookup.
    pub primary: VersionedRef,
    /// Exact permitted fallback targets, visited only in this order.
    pub fallbacks: Vec<VersionedRef>,
    /// Explicit classified failures permitting progression to later targets.
    pub fallback_on: Vec<ModelFailureKind>,
    /// Immutable target requirement; a request can tighten but never relax it.
    pub version_policy: VersionPolicy,
    /// Required evidence stage.
    pub min_support: ModelSupportStatus,
}

#[verifier::ext_equal]
pub struct RoutingRuleView {
    pub model_binding: Seq<char>,
    pub purpose: ModelPurpose,
    pub primary: VersionedRefView,
    pub fallbacks: Seq<VersionedRefView>,
    pub fallback_on: Seq<ModelFailureKind>,
    pub version_policy: VersionPolicy,
    pub min_support: ModelSupportStatus,
}

impl View for RoutingRule {
    type V = RoutingRuleView;

    open spec fn view(&self) -> RoutingRuleView {
        RoutingRuleView {
            model_binding: self.model_binding.deep_view(),
            purpose: self.purpose.deep_view(),
            primary: self.primary.deep_view(),
            fallbacks: self.fallbacks.deep_view(),
            fallback_on: self.fallback_on.deep_view(),
            version_policy: self.version_policy.deep_view(),
            min_support: self.min_support.deep_view(),
        }
    }
}

impl DeepView for RoutingRule {
    type V = RoutingRuleView;

    open spec fn deep_view(&self) -> RoutingRuleView {
        self@
    }
}

impl Data for RoutingRule {
    fn same(&self, other: &Self) -> (r: bool) {
        self.model_binding.same(&other.model_binding)
            && self.purpose.same(&other.purpose)
            && self.primary.same(&other.primary)
            && self.fallbacks.same(&other.fallbacks)
            && self.fallback_on.same(&other.fallback_on)
            && self.version_policy.same(&other.version_policy)
            && self.min_support.same(&other.min_support)
    }

    fn copy(&self) -> (r: Self) {
        RoutingRule {
            model_binding: self.model_binding.copy(),
            purpose: self.purpose.copy(),
            primary: self.primary.copy(),
            fallbacks: self.fallbacks.copy(),
            fallback_on: self.fallback_on.copy(),
            version_policy: self.version_policy.copy(),
            min_support: self.min_support.copy(),
        }
    }
}

/// Exact-scope policy owned by the Host.
#[derive(Debug)]
pub struct RoutingPolicy {
    /// Immutable policy revision.
    pub revision: Id,
    /// Exact namespace.
    pub scope: Scope,
    /// Unique logical binding and purpose rules, with no implicit purpose fallback.
    pub rules: Vec<RoutingRule>,
}

#[verifier::ext_equal]
pub struct RoutingPolicyView {
    pub revision: Seq<char>,
    pub scope: ScopeView,
    pub rules: Seq<RoutingRuleView>,
}

impl View for RoutingPolicy {
    type V = RoutingPolicyView;

    open spec fn view(&self) -> RoutingPolicyView {
        RoutingPolicyView {
            revision: self.revision.deep_view(),
            scope: self.scope.deep_view(),
            rules: self.rules.deep_view(),
        }
    }
}

impl DeepView for RoutingPolicy {
    type V = RoutingPolicyView;

    open spec fn deep_view(&self) -> RoutingPolicyView {
        self@
    }
}

impl Data for RoutingPolicy {
    fn same(&self, other: &Self) -> (r: bool) {
        self.revision.same(&other.revision)
            && self.scope.same(&other.scope)
            && self.rules.same(&other.rules)
    }

    fn copy(&self) -> (r: Self) {
        RoutingPolicy {
            revision: self.revision.copy(),
            scope: self.scope.copy(),
            rules: self.rules.copy(),
        }
    }
}

/// A decoded catalog and policy, before validation.
#[derive(Debug)]
pub struct RoutingData {
    pub schema_version: String,
    pub catalog: ModelCatalogSnapshot,
    pub policy: RoutingPolicy,
}

#[verifier::ext_equal]
pub struct RoutingDataView {
    pub schema_version: Seq<char>,
    pub catalog: ModelCatalogSnapshotView,
    pub policy: RoutingPolicyView,
}

impl View for RoutingData {
    type V = RoutingDataView;

    open spec fn view(&self) -> RoutingDataView {
        RoutingDataView {
            schema_version: self.schema_version.deep_view(),
            catalog: self.catalog.deep_view(),
            policy: self.policy.deep_view(),
        }
    }
}

impl DeepView for RoutingData {
    type V = RoutingDataView;

    open spec fn deep_view(&self) -> RoutingDataView {
        self@
    }
}

impl Data for RoutingData {
    fn same(&self, other: &Self) -> (r: bool) {
        self.schema_version.same(&other.schema_version)
            && self.catalog.same(&other.catalog)
            && self.policy.same(&other.policy)
    }

    fn copy(&self) -> (r: Self) {
        RoutingData {
            schema_version: self.schema_version.copy(),
            catalog: self.catalog.copy(),
            policy: self.policy.copy(),
        }
    }
}

/// Privately owned catalog and policy for admission and resume.
#[derive(Debug)]
pub struct RoutingSnapshot {
    schema_version: String,
    catalog: ModelCatalogSnapshot,
    policy: RoutingPolicy,
}

#[verifier::ext_equal]
pub struct RoutingSnapshotView {
    pub schema_version: Seq<char>,
    pub catalog: ModelCatalogSnapshotView,
    pub policy: RoutingPolicyView,
}

impl View for RoutingSnapshot {
    type V = RoutingSnapshotView;

    closed spec fn view(&self) -> RoutingSnapshotView {
        RoutingSnapshotView {
            schema_version: self.schema_version.deep_view(),
            catalog: self.catalog.deep_view(),
            policy: self.policy.deep_view(),
        }
    }
}

impl DeepView for RoutingSnapshot {
    type V = RoutingSnapshotView;

    open spec fn deep_view(&self) -> RoutingSnapshotView {
        self@
    }
}

impl Data for RoutingSnapshot {
    fn same(&self, other: &Self) -> (r: bool) {
        self.schema_version.same(&other.schema_version)
            && self.catalog.same(&other.catalog)
            && self.policy.same(&other.policy)
    }

    fn copy(&self) -> (r: Self) {
        RoutingSnapshot {
            schema_version: self.schema_version.copy(),
            catalog: self.catalog.copy(),
            policy: self.policy.copy(),
        }
    }
}

/// Why a route was selected, separate from provider-reported metadata.
#[derive(Debug)]
pub enum RouteSelectionReason {
    /// First choice of the exact default target.
    Initial,
    /// Revalidation of a saved exact route, without progression.
    Reuse,
    /// Explicit progression after a policy-permitted failure.
    Fallback {
        failure: ModelFailureKind,
    },
}

#[verifier::ext_equal]
pub enum RouteSelectionReasonView {
    Initial,
    Reuse,
    Fallback {
        failure: ModelFailureKind,
    },
}

impl View for RouteSelectionReason {
    type V = RouteSelectionReasonView;

    open spec fn view(&self) -> RouteSelectionReasonView {
        match self {
            RouteSelectionReason::Initial => RouteSelectionReasonView::Initial,
            RouteSelectionReason::Reuse => RouteSelectionReasonView::Reuse,
            RouteSelectionReason::Fallback { failure } => RouteSelectionReasonView::Fallback { failure: failure.deep_view() },
        }
    }
}

impl DeepView for RouteSelectionReason {
    type V = RouteSelectionReasonView;

    open spec fn deep_view(&self) -> RouteSelectionReasonView {
        self@
    }
}

impl Data for RouteSelectionReason {
    fn same(&self, other: &Self) -> (r: bool) {
        match (self, other) {
            (RouteSelectionReason::Initial, RouteSelectionReason::Initial) => true,
            (RouteSelectionReason::Reuse, RouteSelectionReason::Reuse) => true,
            (RouteSelectionReason::Fallback { failure: failure1 }, RouteSelectionReason::Fallback { failure: failure2 }) => failure1.same(failure2),
            _ => false,
        }
    }

    fn copy(&self) -> (r: Self) {
        match self {
            RouteSelectionReason::Initial => RouteSelectionReason::Initial,
            RouteSelectionReason::Reuse => RouteSelectionReason::Reuse,
            RouteSelectionReason::Fallback { failure } => RouteSelectionReason::Fallback { failure: failure.copy() },
        }
    }
}

/// One static selection.
#[derive(Debug)]
pub struct RouteSelection {
    /// Complete immutable target selection.
    pub route: ResolvedModelRoute,
    /// Initial choice, exact reuse, or explicit fallback reason.
    pub reason: RouteSelectionReason,
    /// Zero denotes primary; larger indices follow the finite policy list.
    pub candidate_index: usize,
    /// Identity of the saved catalog and policy used for this decision.
    pub routing_snapshot_digest: JsonDigest,
    /// Identity of the full request, including options and allowed targets.
    pub request_digest: JsonDigest,
}

#[verifier::ext_equal]
pub struct RouteSelectionView {
    pub route: ResolvedModelRouteView,
    pub reason: RouteSelectionReasonView,
    pub candidate_index: usize,
    pub routing_snapshot_digest: Seq<char>,
    pub request_digest: Seq<char>,
}

impl View for RouteSelection {
    type V = RouteSelectionView;

    open spec fn view(&self) -> RouteSelectionView {
        RouteSelectionView {
            route: self.route.deep_view(),
            reason: self.reason.deep_view(),
            candidate_index: self.candidate_index.deep_view(),
            routing_snapshot_digest: self.routing_snapshot_digest.deep_view(),
            request_digest: self.request_digest.deep_view(),
        }
    }
}

impl DeepView for RouteSelection {
    type V = RouteSelectionView;

    open spec fn deep_view(&self) -> RouteSelectionView {
        self@
    }
}

impl Data for RouteSelection {
    fn same(&self, other: &Self) -> (r: bool) {
        self.route.same(&other.route)
            && self.reason.same(&other.reason)
            && self.candidate_index.same(&other.candidate_index)
            && self.routing_snapshot_digest.same(&other.routing_snapshot_digest)
            && self.request_digest.same(&other.request_digest)
    }

    fn copy(&self) -> (r: Self) {
        RouteSelection {
            route: self.route.copy(),
            reason: self.reason.copy(),
            candidate_index: self.candidate_index.copy(),
            routing_snapshot_digest: self.routing_snapshot_digest.copy(),
            request_digest: self.request_digest.copy(),
        }
    }
}


/// Maximum explicitly ordered fallback targets in one purpose rule.
pub const MAX_ROUTE_FALLBACKS: usize = 16;

/// Maximum rules in one immutable policy.
pub const MAX_ROUTING_RULES: usize = 128;

/// The encoded rule.
pub open spec fn rule_json(v: RoutingRuleView) -> JsonView {
    JsonView::Object(Seq::<MemberView>::empty()
.push(MemberView { key: "fallback_on"@, value: JsonView::Array(v.fallback_on.map_values(|x: ModelFailureKind| failure_kind_json(x))) })
.push(MemberView { key: "fallbacks"@, value: JsonView::Array(v.fallbacks.map_values(|x: VersionedRefView| versioned_json(x))) })
.push(MemberView { key: "min_support"@, value: support_json(v.min_support) })
.push(MemberView { key: "model_binding"@, value: JsonView::Text(v.model_binding) })
.push(MemberView { key: "primary"@, value: versioned_json(v.primary) })
.push(MemberView { key: "purpose"@, value: purpose_json(v.purpose) })
.push(MemberView { key: "version_policy"@, value: version_policy_json(v.version_policy) }))
}

/// Encode the rule.
pub fn encode_rule(v: &RoutingRule) -> (r: Json)
    ensures
        r@ == rule_json(v@),
{
    let f0 = |x: &ModelFailureKind| -> (r: Json)
        ensures
            r@ == failure_kind_json(x@),
    { encode_failure_kind(x) };
    let f1 = |x: &VersionedRef| -> (r: Json)
        ensures
            r@ == versioned_json(x@),
    { encode_versioned(x) };
    let members = no_members();
    let members = with_member(members, "fallback_on", crate::json::array(map_each(&v.fallback_on, f0, Ghost(|x: ModelFailureKind| failure_kind_json(x)))));
    let members = with_member(members, "fallbacks", crate::json::array(map_each(&v.fallbacks, f1, Ghost(|x: VersionedRefView| versioned_json(x)))));
    let members = with_member(members, "min_support", encode_support(&v.min_support));
    let members = with_member(members, "model_binding", crate::json::text(v.model_binding.as_str()));
    let members = with_member(members, "primary", encode_versioned(&v.primary));
    let members = with_member(members, "purpose", encode_purpose(&v.purpose));
    let members = with_member(members, "version_policy", encode_version_policy(&v.version_policy));
    crate::json::object(members)
}

/// The encoded policy.
pub open spec fn policy_json(v: RoutingPolicyView) -> JsonView {
    JsonView::Object(Seq::<MemberView>::empty()
.push(MemberView { key: "revision"@, value: JsonView::Text(v.revision) })
.push(MemberView { key: "rules"@, value: JsonView::Array(v.rules.map_values(|x: RoutingRuleView| rule_json(x))) })
.push(MemberView { key: "scope"@, value: scope_json(v.scope) }))
}

/// Encode the policy.
pub fn encode_policy(v: &RoutingPolicy) -> (r: Json)
    ensures
        r@ == policy_json(v@),
{
    let f1 = |x: &RoutingRule| -> (r: Json)
        ensures
            r@ == rule_json(x@),
    { encode_rule(x) };
    let members = no_members();
    let members = with_member(members, "revision", crate::json::text(v.revision.as_str()));
    let members = with_member(members, "rules", crate::json::array(map_each(&v.rules, f1, Ghost(|x: RoutingRuleView| rule_json(x)))));
    let members = with_member(members, "scope", encode_scope(&v.scope));
    crate::json::object(members)
}

/// The encoded routing snapshot.
pub open spec fn routing_json(v: RoutingSnapshotView) -> JsonView {
    JsonView::Object(Seq::<MemberView>::empty()
.push(MemberView { key: "catalog"@, value: catalog_json(v.catalog) })
.push(MemberView { key: "policy"@, value: policy_json(v.policy) })
.push(MemberView { key: "schema_version"@, value: JsonView::Text(v.schema_version) }))
}

/// Encode the routing snapshot.
pub fn encode_routing(v: &RoutingSnapshot) -> (r: Json)
    ensures
        r@ == routing_json(v@),
{
    let members = no_members();
    let members = with_member(members, "catalog", encode_catalog(&v.catalog));
    let members = with_member(members, "policy", encode_policy(&v.policy));
    let members = with_member(members, "schema_version", crate::json::text(v.schema_version.as_str()));
    crate::json::object(members)
}

/// The digest of a routing snapshot.
pub open spec fn routing_digest(snapshot: RoutingSnapshotView) -> Seq<char> {
    digest_of(routing_json(snapshot))
}

/// The exact targets of a rule, the default first.
pub open spec fn candidates_of(rule: RoutingRuleView) -> Seq<VersionedRefView> {
    seq![rule.primary] + rule.fallbacks
}

fn candidates(rule: &RoutingRule) -> (r: Vec<VersionedRef>)
    ensures
        r.deep_view() == candidates_of(rule@),
        r.len() > 0,
{
    let first = vec![rule.primary.copy()];
    assert(first.deep_view() =~= seq![rule@.primary]);
    let all = crate::data::joined(&first, &rule.fallbacks);
    assert(all.deep_view().len() == all.len());
    all
}

/// The rules of a binding name and purpose.
pub open spec fn rule_for(model_binding: Seq<char>, purpose: ModelPurpose) -> spec_fn(
    RoutingRuleView,
) -> bool {
    |rule: RoutingRuleView| rule.model_binding == model_binding && rule.purpose == purpose
}

/// The failures of a kind.
pub open spec fn of_kind(kind: ModelFailureKind) -> spec_fn(ModelFailureKind) -> bool {
    |other: ModelFailureKind| other == kind
}

/// The references to a target.
pub open spec fn to_target(reference: VersionedRefView) -> spec_fn(VersionedRefView) -> bool {
    |other: VersionedRefView| other == reference
}

/// Some failure kind is listed twice.
pub open spec fn repeats_kind(kinds: Seq<ModelFailureKind>) -> bool {
    exists|i: int|
        0 <= i < kinds.len() && #[trigger] some_in(kinds.take(i), of_kind(kinds[i]))
}

/// Why the candidate at a position of a rule is refused.
pub open spec fn candidate_fault(
    catalog: ModelCatalogSnapshotView,
    candidates: Seq<VersionedRefView>,
) -> spec_fn(int) -> Option<Fault> {
    |i: int|
        if some_in(candidates.take(i), to_target(candidates[i])) {
            fault(ErrorCode::ModelRoutingInvalid, "routing.duplicate_candidate")
        } else if !some_in(catalog.bindings, binding_named(candidates[i])) {
            fault(ErrorCode::ModelNotRegistered, "routing.binding")
        } else {
            None
        }
}

/// Why the rule at a position of a policy is refused.
pub open spec fn rule_fault(
    catalog: ModelCatalogSnapshotView,
    rules: Seq<RoutingRuleView>,
) -> spec_fn(int) -> Option<Fault> {
    |i: int|
        {
            let rule = rules[i];
            if some_in(rules.take(i), rule_for(rule.model_binding, rule.purpose))
                || rule.fallbacks.len() > MAX_ROUTE_FALLBACKS || repeats_kind(rule.fallback_on) {
                fault(ErrorCode::ModelRoutingInvalid, "routing.rule")
            } else {
                first_index_fault(
                    0,
                    candidates_of(rule).len() as int,
                    candidate_fault(catalog, candidates_of(rule)),
                )
            }
        }
}

/// Why a catalog and a policy do not go together.
pub open spec fn routing_fault(
    catalog: ModelCatalogSnapshotView,
    policy: RoutingPolicyView,
) -> Option<Fault> {
    if catalog_fault(catalog) is Some {
        catalog_fault(catalog)
    } else if policy.scope != catalog.scope {
        fault(ErrorCode::AccessDenied, "routing.scope")
    } else if policy.rules.len() == 0 || policy.rules.len() > MAX_ROUTING_RULES {
        fault(ErrorCode::ModelRoutingInvalid, "routing.rules")
    } else {
        first_index_fault(0, policy.rules.len() as int, rule_fault(catalog, policy.rules))
    }
}

fn has_repeated_kind(kinds: &Vec<ModelFailureKind>) -> (r: bool)
    ensures
        r == repeats_kind(kinds.deep_view()),
{
    let ghost s = kinds.deep_view();
    let mut i: usize = 0;
    while i < kinds.len()
        invariant
            i <= kinds.len(),
            s == kinds.deep_view(),
            forall|k: int|
                0 <= k < i ==> !(#[trigger] some_in(s.take(k), of_kind(s[k]))),
        decreases kinds.len() - i,
    {
        let current = kinds[i];
        let same = |kind: &ModelFailureKind| -> (b: bool)
            ensures
                b == of_kind(current)(*kind),
        { *kind == current };
        if any_before(kinds, i, same, Ghost(of_kind(current))) {
            assert(some_in(s.take(i as int), of_kind(s[i as int])));
            return true;
        }
        i = i + 1;
    }
    false
}

fn check_candidate(catalog: &ModelCatalogSnapshot, list: &Vec<VersionedRef>, i: usize) -> (r: Result<
    (),
    ContractError,
>)
    requires
        i < list.len(),
    ensures
        failure(r) == candidate_fault(catalog@, list.deep_view())(i as int),
{
    let reference = &list[i];
    assert(reference@ == list.deep_view()[i as int]);
    let same = |other: &VersionedRef| -> (b: bool)
        ensures
            b == to_target(reference@)(other@),
    { other.same(reference) };
    if any_before(list, i, same, Ghost(to_target(reference@))) {
        return fail(ErrorCode::ModelRoutingInvalid, "routing.duplicate_candidate");
    }
    let named = |binding: &ModelBinding| -> (b: bool)
        ensures
            b == binding_named(reference@)(binding@),
    { binding.binding.same(reference) };
    if !any(&catalog.bindings, named, Ghost(binding_named(reference@))) {
        return fail(ErrorCode::ModelNotRegistered, "routing.binding");
    }
    Ok(())
}

fn check_rule(catalog: &ModelCatalogSnapshot, rules: &Vec<RoutingRule>, i: usize) -> (r: Result<
    (),
    ContractError,
>)
    requires
        i < rules.len(),
    ensures
        failure(r) == rule_fault(catalog@, rules.deep_view())(i as int),
{
    let rule = &rules[i];
    assert(rule@ == rules.deep_view()[i as int]);
    let same = |other: &RoutingRule| -> (b: bool)
        ensures
            b == rule_for(rule@.model_binding, rule@.purpose)(other@),
    { other.model_binding.same(&rule.model_binding) && other.purpose == rule.purpose };
    if any_before(rules, i, same, Ghost(rule_for(rule@.model_binding, rule@.purpose)))
        || rule.fallbacks.len() > MAX_ROUTE_FALLBACKS || has_repeated_kind(&rule.fallback_on) {
        return fail(ErrorCode::ModelRoutingInvalid, "routing.rule");
    }
    let list = candidates(rule);
    let usable = |k: usize| -> (r: Result<(), ContractError>)
        requires
            k < list.len(),
        ensures
            failure(r) == candidate_fault(catalog@, list.deep_view())(k as int),
    { check_candidate(catalog, &list, k) };
    check_indices(list.len(), usable, Ghost(candidate_fault(catalog@, list.deep_view())))
}

/// The snapshot of a catalog and a policy.
pub open spec fn snapshot_of(
    catalog: ModelCatalogSnapshotView,
    policy: RoutingPolicyView,
) -> RoutingSnapshotView {
    RoutingSnapshotView { schema_version: "wickle.routing-snapshot.v1"@, catalog, policy }
}

/// The rules that list a target.
pub open spec fn lists(reference: VersionedRefView) -> spec_fn(RoutingRuleView) -> bool {
    |rule: RoutingRuleView| rule.primary == reference || rule.fallbacks.contains(reference)
}

/// Why a target is not in the catalog.
pub open spec fn unresolved_fault(
    snapshot: RoutingSnapshotView,
    reference: VersionedRefView,
) -> Option<Fault> {
    match first_in(snapshot.catalog.bindings, binding_named(reference)) {
        None => fault(ErrorCode::ModelNotRegistered, "routing.binding"),
        Some(binding) => if first_in(snapshot.catalog.models, model_named(binding.model)) is None {
            fault(ErrorCode::ModelNotRegistered, "routing.model")
        } else {
            None
        },
    }
}

/// A target with its model.
pub open spec fn resolved_of(
    snapshot: RoutingSnapshotView,
    reference: VersionedRefView,
) -> ResolvedCatalogBindingView {
    let binding = first_in(snapshot.catalog.bindings, binding_named(reference))->Some_0;
    ResolvedCatalogBindingView {
        catalog_revision: snapshot.catalog.revision,
        model: first_in(snapshot.catalog.models, model_named(binding.model))->Some_0,
        binding,
    }
}

/// The route to a target.
pub open spec fn route_to(
    snapshot: RoutingSnapshotView,
    reference: VersionedRefView,
) -> ResolvedModelRouteView {
    let resolved = resolved_of(snapshot, reference);
    ResolvedModelRouteView {
        binding: resolved.binding.binding,
        catalog_revision: snapshot.catalog.revision,
        routing_policy_revision: snapshot.policy.revision,
        requested_model: resolved.binding.requested_model,
        model_id: resolved.model.model_id,
        model_version: resolved.model.model_version,
        version_semantics: effective_semantics(resolved),
        provider: resolved.model.provider,
        target: resolved.binding.target,
        deployment_revision: resolved.binding.deployment_revision,
        api_contract: resolved.binding.api_contract,
        adapter: resolved.binding.adapter,
        capability_revision: resolved.binding.capabilities.revision,
        connection_ref: resolved.binding.connection_ref,
    }
}

/// Why no route leads to a target.
pub open spec fn unrouted_fault(
    snapshot: RoutingSnapshotView,
    reference: VersionedRefView,
) -> Option<Fault> {
    if !some_in(snapshot.policy.rules, lists(reference)) {
        fault(ErrorCode::ModelRouteDenied, "routing.binding")
    } else {
        unresolved_fault(snapshot, reference)
    }
}

/// Why a route is not one of the snapshot.
pub open spec fn route_fault(
    snapshot: RoutingSnapshotView,
    route: ResolvedModelRouteView,
) -> Option<Fault> {
    if unrouted_fault(snapshot, route.binding) is Some {
        unrouted_fault(snapshot, route.binding)
    } else if route_to(snapshot, route.binding) != route {
        fault(ErrorCode::ModelRoutingMismatch, "routing.route")
    } else {
        None
    }
}

/// What a request requires of every target under a rule.
pub open spec fn requirements_of(
    rule: RoutingRuleView,
    request: RouteRequestView,
) -> CatalogRequirementsView {
    CatalogRequirementsView {
        features: request.required_capabilities,
        options: request.options,
        input_tokens: request.input_tokens,
        max_output_tokens: request.max_output_tokens,
        version_policy: if rule.version_policy is RequirePinned
            || request.version_policy is RequirePinned {
            VersionPolicy::RequirePinned
        } else {
            VersionPolicy::AllowMutable
        },
        min_support: rule.min_support,
    }
}

/// Where the previous route stands in a rule.
pub open spec fn previous_index(rule: RoutingRuleView, request: RouteRequestView) -> Option<int> {
    match request.previous_route {
        Some(route) => position_in(candidates_of(rule), to_target(route.binding)),
        None => None,
    }
}

/// Why the previous route of a request is not one of the rule.
pub open spec fn previous_fault(
    snapshot: RoutingSnapshotView,
    rule: RoutingRuleView,
    request: RouteRequestView,
) -> Option<Fault> {
    match request.previous_route {
        Some(route) => if route_fault(snapshot, route) is Some {
            route_fault(snapshot, route)
        } else if previous_index(rule, request) is None {
            fault(ErrorCode::ModelRoutingMismatch, "routing.previous_route")
        } else {
            None
        },
        None => None,
    }
}

/// Why the stated reason does not explain the selected candidate.
pub open spec fn reason_fault(
    rule: RoutingRuleView,
    request: RouteRequestView,
    selection: RouteSelectionView,
) -> Option<Fault> {
    let wrong = fault(ErrorCode::ModelRoutingMismatch, "routing.selection_reason");
    match (previous_index(rule, request), request.previous_failure, selection.reason) {
        (None, None, RouteSelectionReasonView::Initial) => if selection.candidate_index == 0 {
            None
        } else {
            wrong
        },
        (Some(index), None, RouteSelectionReasonView::Reuse) => if selection.candidate_index
            == index {
            None
        } else {
            wrong
        },
        (Some(index), Some(failure), RouteSelectionReasonView::Fallback { failure: reason }) => {
            if failure != reason || selection.candidate_index <= index {
                wrong
            } else if !rule.fallback_on.contains(failure) {
                fault(ErrorCode::ModelRouteDenied, "routing.fallback_reason")
            } else {
                None
            }
        },
        _ => wrong,
    }
}

/// Why an earlier candidate should have been selected: it was allowed and it meets the
/// requirements.
pub open spec fn skipped_fault(
    snapshot: RoutingSnapshotView,
    rule: RoutingRuleView,
    request: RouteRequestView,
) -> spec_fn(int) -> Option<Fault> {
    |i: int|
        {
            let candidate = candidates_of(rule)[i];
            if !request.allowed_bindings.contains(candidate.id) {
                None
            } else if unresolved_fault(snapshot, candidate) is Some {
                unresolved_fault(snapshot, candidate)
            } else if requirements_fault(
                resolved_of(snapshot, candidate),
                requirements_of(rule, request),
            ) is None {
                fault(ErrorCode::ModelRoutingMismatch, "routing.candidate_order")
            } else {
                None
            }
        }
}

/// Why a selection is refused under a rule.
pub open spec fn selection_in_rule_fault(
    snapshot: RoutingSnapshotView,
    rule: RoutingRuleView,
    request: RouteRequestView,
    selection: RouteSelectionView,
) -> Option<Fault> {
    let candidates = candidates_of(rule);
    let selected = candidates[selection.candidate_index as int];
    if support_rank(rule.min_support) < support_rank(ModelSupportStatus::ContractTested) {
        fault(ErrorCode::ModelSupportInsufficient, "routing.min_support")
    } else if selection.candidate_index >= candidates.len() || selection.route.binding != selected {
        fault(ErrorCode::ModelRoutingMismatch, "routing.candidate_index")
    } else if route_fault(snapshot, selection.route) is Some {
        route_fault(snapshot, selection.route)
    } else if previous_fault(snapshot, rule, request) is Some {
        previous_fault(snapshot, rule, request)
    } else if reason_fault(rule, request, selection) is Some {
        reason_fault(rule, request, selection)
    } else if !request.allowed_bindings.contains(selected.id) {
        fault(ErrorCode::ModelRouteDenied, "routing.allowed_bindings")
    } else if unresolved_fault(snapshot, selected) is Some {
        unresolved_fault(snapshot, selected)
    } else if requirements_fault(
        resolved_of(snapshot, selected),
        requirements_of(rule, request),
    ) is Some {
        requirements_fault(resolved_of(snapshot, selected), requirements_of(rule, request))
    } else if selection.reason is Fallback {
        first_index_fault(
            previous_index(rule, request)->Some_0 + 1,
            selection.candidate_index as int,
            skipped_fault(snapshot, rule, request),
        )
    } else {
        None
    }
}

/// Why a selection is refused.
pub open spec fn selection_fault(
    snapshot: RoutingSnapshotView,
    request: RouteRequestView,
    selection: RouteSelectionView,
) -> Option<Fault> {
    if request.scope != snapshot.catalog.scope {
        fault(ErrorCode::AccessDenied, "routing.scope")
    } else if selection.routing_snapshot_digest != routing_digest(snapshot)
        || selection.request_digest != digest_of(route_request_json(request)) {
        fault(ErrorCode::ModelRoutingMismatch, "routing.selection_digest")
    } else {
        match first_in(snapshot.policy.rules, rule_for(request.model_binding, request.purpose)) {
            None => fault(ErrorCode::ModelRouteDenied, "routing.rule"),
            Some(rule) => selection_in_rule_fault(snapshot, rule, request, selection),
        }
    }
}

/// The keys of origins.
pub open spec fn origin_keys(origins: Seq<OptionOriginView>) -> Seq<Seq<char>> {
    origins.map_values(|origin: OptionOriginView| origin.key)
}

/// The keys of members.
pub open spec fn member_keys(members: Seq<MemberView>) -> Seq<Seq<char>> {
    members.map_values(|member: MemberView| member.key)
}

/// Origins in key order, with the origin of one key set.
pub open spec fn put_origin(origins: Seq<OptionOriginView>, origin: OptionOriginView) -> Seq<
    OptionOriginView,
>
    decreases origins.len(),
{
    if origins.len() == 0 {
        seq![origin]
    } else if origins[0].key == origin.key {
        seq![origin] + origins.skip(1)
    } else if precedes(origin.key, origins[0].key) {
        seq![origin] + origins
    } else {
        seq![origins[0]] + put_origin(origins.skip(1), origin)
    }
}

/// The origins of merged options: the defaults are the binding's, what is requested keeps its own.
pub open spec fn merged_origins(
    defaults: Seq<MemberView>,
    sources: Seq<OptionOriginView>,
) -> Seq<OptionOriginView>
    decreases sources.len(),
{
    if sources.len() == 0 {
        defaults.map_values(
            |member: MemberView|
                OptionOriginView { key: member.key, source: ModelOptionSource::Binding },
        )
    } else {
        put_origin(merged_origins(defaults, sources.drop_last()), sources.last())
    }
}

/// Why inference settings cannot be resolved for a route.
pub open spec fn configuration_fault(
    snapshot: RoutingSnapshotView,
    route: ResolvedModelRouteView,
    requested: Seq<MemberView>,
    sources: Seq<OptionOriginView>,
) -> Option<Fault> {
    let resolved = resolved_of(snapshot, route.binding);
    let effective = merged(resolved.binding.default_options, requested);
    if route_fault(snapshot, route) is Some {
        route_fault(snapshot, route)
    } else if unsupported_options_fault(resolved.model.capabilities, effective) is Some {
        unsupported_options_fault(resolved.model.capabilities, effective)
    } else if unsupported_options_fault(resolved.binding.capabilities, effective) is Some {
        unsupported_options_fault(resolved.binding.capabilities, effective)
    } else if origin_keys(sources) != member_keys(requested) {
        fault(ErrorCode::InvalidConfiguration, "model.option_sources")
    } else {
        None
    }
}

/// The inference settings of a route.
pub open spec fn configuration_for(
    snapshot: RoutingSnapshotView,
    route: ResolvedModelRouteView,
    requested: Seq<MemberView>,
    sources: Seq<OptionOriginView>,
    upper_bound: u64,
) -> ModelConfigurationView {
    let resolved = resolved_of(snapshot, route.binding);
    ModelConfigurationView {
        requested,
        effective: merged(resolved.binding.default_options, requested),
        sources: merged_origins(resolved.binding.default_options, sources),
        model_schema_revision: resolved.model.capabilities.revision,
        binding_schema_revision: resolved.binding.capabilities.revision,
        requested_max_output_tokens: upper_bound,
        max_output_tokens: least(
            upper_bound,
            resolved.model.capabilities.max_output_tokens,
            resolved.binding.capabilities.max_output_tokens,
        ),
    }
}

/// Why a stored routing snapshot cannot be restored.
pub open spec fn routing_restore_fault(
    value: JsonView,
    decoded: Option<RoutingDataView>,
    scope: ScopeView,
    expected_digest: Seq<char>,
) -> Option<Fault> {
    if !unambiguous(value) {
        fault(ErrorCode::InvalidJson, "$")
    } else if get_of(value, "schema_version"@) != Some(
        JsonView::Text("wickle.routing-snapshot.v1"@),
    ) {
        fault(ErrorCode::UnsupportedSchemaVersion, "routing.schema_version")
    } else if digest_of(value) != expected_digest {
        fault(ErrorCode::ModelRoutingMismatch, "routing.digest")
    } else {
        match decoded {
            None => fault(ErrorCode::ModelRoutingInvalid, "routing.snapshot"),
            Some(data) => if data.catalog.scope != scope || data.policy.scope != scope {
                fault(ErrorCode::AccessDenied, "routing.scope")
            } else if routing_fault(data.catalog, data.policy) is Some {
                routing_fault(data.catalog, data.policy)
            } else if data.schema_version != "wickle.routing-snapshot.v1"@ || routing_digest(
                snapshot_of(data.catalog, data.policy),
            ) != expected_digest {
                fault(ErrorCode::ModelRoutingMismatch, "routing.digest")
            } else {
                None
            },
        }
    }
}

/// Why a stored text does not hold a routing snapshot that can be restored.
pub open spec fn routing_text_fault(
    input: Seq<char>,
    decoded: Option<RoutingDataView>,
    scope: ScopeView,
    expected_digest: Seq<char>,
) -> Option<Fault> {
    match document_in(input, false) {
        Some(value) => routing_restore_fault(value, decoded, scope, expected_digest),
        None => parse_fault(input),
    }
}

fn set_origin(origins: Vec<OptionOrigin>, origin: OptionOrigin) -> (r: Vec<OptionOrigin>)
    ensures
        r.deep_view() == put_origin(origins.deep_view(), origin@),
{
    let mut list = origins;
    let ghost s = list.deep_view();
    let ghost m = origin@;
    let mut i: usize = 0;
    assert(s.skip(0) =~= s);
    assert(s.take(0) =~= Seq::<OptionOriginView>::empty());
    while i < list.len()
        invariant
            i <= list.len(),
            s == list.deep_view(),
            s == origins.deep_view(),
            m == origin@,
            put_origin(s, m) =~= s.take(i as int) + put_origin(s.skip(i as int), m),
        decreases list.len() - i,
    {
        assert(s.skip(i as int)[0] == list@[i as int]@);
        assert(s.skip(i as int).skip(1) =~= s.skip(i + 1));
        assert(s.take(i + 1) =~= s.take(i as int).push(s[i as int]));
        if list[i].key.same(&origin.key) {
            list.set(i, origin);
            assert(list.deep_view() =~= s.take(i as int) + (seq![m] + s.skip(i + 1)));
            return list;
        }
        if comes_before(origin.key.as_str(), list[i].key.as_str()) {
            list.insert(i, origin);
            assert(list.deep_view() =~= s.take(i as int) + (seq![m] + s.skip(i as int)));
            return list;
        }
        i = i + 1;
    }
    assert(s.skip(i as int) =~= Seq::<OptionOriginView>::empty());
    list.push(origin);
    assert(list.deep_view() =~= s.take(i as int) + seq![m]);
    list
}

fn merge_origins(defaults: &Vec<Member>, sources: &Vec<OptionOrigin>) -> (r: Vec<OptionOrigin>)
    ensures
        r.deep_view() == merged_origins(defaults.deep_view(), sources.deep_view()),
{
    let ghost s = sources.deep_view();
    let of_binding = |member: &Member| -> (r: OptionOrigin)
        ensures
            r@ == (OptionOriginView { key: member@.key, source: ModelOptionSource::Binding }),
    { OptionOrigin { key: member.key.copy(), source: ModelOptionSource::Binding } };
    let mut out = map_each(
        defaults,
        of_binding,
        Ghost(
            |member: MemberView|
                OptionOriginView { key: member.key, source: ModelOptionSource::Binding },
        ),
    );
    let mut i: usize = 0;
    assert(s.take(0) =~= Seq::<OptionOriginView>::empty());
    while i < sources.len()
        invariant
            i <= sources.len(),
            s == sources.deep_view(),
            out.deep_view() == merged_origins(defaults.deep_view(), s.take(i as int)),
        decreases sources.len() - i,
    {
        assert(s.take(i + 1).drop_last() =~= s.take(i as int));
        assert(s.take(i + 1).last() == sources@[i as int]@);
        out = set_origin(out, sources[i].copy());
        i = i + 1;
    }
    assert(s.take(i as int) =~= s);
    out
}

impl RoutingSnapshot {
    /// Validate and own exact metadata, without retrieving a newer catalog.
    pub fn new(catalog: ModelCatalogSnapshot, policy: RoutingPolicy) -> (r: Result<
        Self,
        ContractError,
    >)
        ensures
            failure(r) == routing_fault(catalog@, policy@),
            r matches Ok(snapshot) ==> snapshot@ == snapshot_of(catalog@, policy@),
    {
        catalog.validate()?;
        if !policy.scope.same(&catalog.scope) {
            return fail(ErrorCode::AccessDenied, "routing.scope");
        }
        if policy.rules.len() == 0 || policy.rules.len() > MAX_ROUTING_RULES {
            return fail(ErrorCode::ModelRoutingInvalid, "routing.rules");
        }
        let sound = |i: usize| -> (r: Result<(), ContractError>)
            requires
                i < policy.rules.len(),
            ensures
                failure(r) == rule_fault(catalog@, policy@.rules)(i as int),
        { check_rule(&catalog, &policy.rules, i) };
        check_indices(policy.rules.len(), sound, Ghost(rule_fault(catalog@, policy@.rules)))?;
        Ok(
            RoutingSnapshot {
                schema_version: "wickle.routing-snapshot.v1".to_owned(),
                catalog,
                policy,
            },
        )
    }

    /// Exact immutable catalog, including all model and binding revisions.
    pub fn catalog(&self) -> (r: &ModelCatalogSnapshot)
        ensures
            r@ == self@.catalog,
    {
        &self.catalog
    }

    /// Exact immutable policy; this does not grant current access permission.
    pub fn policy(&self) -> (r: &RoutingPolicy)
        ensures
            r@ == self@.policy,
    {
        &self.policy
    }

    /// Exact data namespace shared by catalog and policy.
    pub fn scope(&self) -> (r: &Scope)
        ensures
            r@ == self@.catalog.scope,
    {
        &self.catalog.scope
    }

    /// Digest of the complete protected snapshot.
    pub fn digest(&self) -> (r: JsonDigest)
        ensures
            r@ == routing_digest(self@),
    {
        canonical_digest(&encode_routing(self))
    }

    /// Reconstruct one exact policy-listed route from saved metadata. This checks membership, not
    /// current access, lifecycle or invocation requirements.
    pub fn route_for_binding(&self, reference: &VersionedRef) -> (r: Result<
        ResolvedModelRoute,
        ContractError,
    >)
        ensures
            failure(r) == unrouted_fault(self@, reference@),
            r matches Ok(route) ==> route@ == route_to(self@, reference@),
    {
        let listing = |rule: &RoutingRule| -> (b: bool)
            ensures
                b == lists(reference@)(rule@),
        { rule.primary.same(reference) || contains(&rule.fallbacks, reference) };
        if !any(&self.policy.rules, listing, Ghost(lists(reference@))) {
            return fail(ErrorCode::ModelRouteDenied, "routing.binding");
        }
        let resolved = self.resolved_binding(reference)?;
        Ok(
            ResolvedModelRoute {
                version_semantics: resolved.effective_version_semantics(),
                binding: resolved.binding.binding,
                catalog_revision: self.catalog.revision.copy(),
                routing_policy_revision: self.policy.revision.copy(),
                requested_model: resolved.binding.requested_model,
                model_id: resolved.model.model_id,
                model_version: resolved.model.model_version,
                provider: resolved.model.provider,
                target: resolved.binding.target,
                deployment_revision: resolved.binding.deployment_revision,
                api_contract: resolved.binding.api_contract,
                adapter: resolved.binding.adapter,
                capability_revision: resolved.binding.capabilities.revision,
                connection_ref: resolved.binding.connection_ref,
            },
        )
    }

    /// Check a saved route's entire identity against a policy-listed catalog binding. Historical
    /// membership does not establish current availability or permission.
    pub fn validate_route(&self, route: &ResolvedModelRoute) -> (r: Result<(), ContractError>)
        ensures
            failure(r) == route_fault(self@, route@),
    {
        let expected = self.route_for_binding(&route.binding)?;
        if !expected.same(route) {
            return fail(ErrorCode::ModelRoutingMismatch, "routing.route");
        }
        Ok(())
    }

    fn previous(&self, rule: &RoutingRule, list: &Vec<VersionedRef>, request: &RouteRequest) -> (r:
        Result<Option<usize>, ContractError>)
        requires
            list.deep_view() == candidates_of(rule@),
        ensures
            failure(r) == previous_fault(self@, rule@, request@),
            r matches Ok(index) ==> match index {
                Some(i) => previous_index(rule@, request@) == Some(i as int) && i < list.len(),
                None => previous_index(rule@, request@) is None,
            },
    {
        match &request.previous_route {
            Some(route) => {
                self.validate_route(route)?;
                let same = |candidate: &VersionedRef| -> (b: bool)
                    ensures
                        b == to_target(route@.binding)(candidate@),
                { candidate.same(&route.binding) };
                match position(list, same, Ghost(to_target(route@.binding))) {
                    Some(index) => Ok(Some(index)),
                    None => fail(ErrorCode::ModelRoutingMismatch, "routing.previous_route"),
                }
            },
            None => Ok(None),
        }
    }

    fn check_skipped(
        &self,
        rule: &RoutingRule,
        list: &Vec<VersionedRef>,
        request: &RouteRequest,
        requirements: &CatalogRequirements,
        i: usize,
    ) -> (r: Result<(), ContractError>)
        requires
            i < list.len(),
            list.deep_view() == candidates_of(rule@),
            requirements@ == requirements_of(rule@, request@),
        ensures
            failure(r) == skipped_fault(self@, rule@, request@)(i as int),
    {
        let candidate = &list[i];
        assert(candidate@ == list.deep_view()[i as int]);
        if contains(&request.allowed_bindings, &candidate.id) {
            let resolved = self.resolved_binding(candidate)?;
            if resolved.validate(requirements).is_ok() {
                return fail(ErrorCode::ModelRoutingMismatch, "routing.candidate_order");
            }
        }
        Ok(())
    }

    fn validate_in_rule(
        &self,
        rule: &RoutingRule,
        request: &RouteRequest,
        selection: &RouteSelection,
    ) -> (r: Result<(), ContractError>)
        ensures
            failure(r) == selection_in_rule_fault(self@, rule@, request@, selection@),
    {
        if rule.min_support.is_below(&ModelSupportStatus::ContractTested) {
            return fail(ErrorCode::ModelSupportInsufficient, "routing.min_support");
        }
        let list = candidates(rule);
        assert(list.deep_view().len() == list.len());
        let index: usize = selection.candidate_index;
        if index >= list.len() {
            return fail(ErrorCode::ModelRoutingMismatch, "routing.candidate_index");
        }
        let selected = &list[index];
        assert(selected@ == candidates_of(rule@)[index as int]);
        if !selection.route.binding.same(selected) {
            return fail(ErrorCode::ModelRoutingMismatch, "routing.candidate_index");
        }
        self.validate_route(&selection.route)?;
        let previous = self.previous(rule, &list, request)?;
        let earlier: Option<usize> = match (
            previous,
            request.previous_failure,
            &selection.reason,
        ) {
            (None, None, RouteSelectionReason::Initial) => {
                if index != 0 {
                    return fail(ErrorCode::ModelRoutingMismatch, "routing.selection_reason");
                }
                None
            },
            (Some(prior), None, RouteSelectionReason::Reuse) => {
                if index != prior {
                    return fail(ErrorCode::ModelRoutingMismatch, "routing.selection_reason");
                }
                None
            },
            (Some(prior), Some(failure), RouteSelectionReason::Fallback { failure: reason }) => {
                if failure != *reason || index <= prior {
                    return fail(ErrorCode::ModelRoutingMismatch, "routing.selection_reason");
                }
                if !contains(&rule.fallback_on, &failure) {
                    return fail(ErrorCode::ModelRouteDenied, "routing.fallback_reason");
                }
                Some(prior + 1)
            },
            _ => {
                return fail(ErrorCode::ModelRoutingMismatch, "routing.selection_reason");
            },
        };
        if !contains(&request.allowed_bindings, &selected.id) {
            return fail(ErrorCode::ModelRouteDenied, "routing.allowed_bindings");
        }
        let version_policy = if rule.version_policy == VersionPolicy::RequirePinned
            || request.version_policy == VersionPolicy::RequirePinned {
            VersionPolicy::RequirePinned
        } else {
            VersionPolicy::AllowMutable
        };
        let requirements = CatalogRequirements {
            features: request.required_capabilities.copy(),
            options: request.options.copy(),
            input_tokens: request.input_tokens,
            max_output_tokens: request.max_output_tokens,
            version_policy,
            min_support: rule.min_support,
        };
        let resolved = self.resolved_binding(selected)?;
        resolved.validate(&requirements)?;
        if let Some(start) = earlier {
            let ghost p = skipped_fault(self@, rule@, request@);
            let ghost whole = first_index_fault(start as int, index as int, p);
            let mut i: usize = start;
            while i < index
                invariant
                    start <= i <= index < list.len(),
                    list.deep_view() == candidates_of(rule@),
                    requirements@ == requirements_of(rule@, request@),
                    p == skipped_fault(self@, rule@, request@),
                    whole == first_index_fault(i as int, index as int, p),
                    whole == selection_in_rule_fault(self@, rule@, request@, selection@),
                decreases index - i,
            {
                self.check_skipped(rule, &list, request, &requirements, i)?;
                i = i + 1;
            }
        }
        Ok(())
    }

    /// Validate a router result before trusting its target or provenance. Enforces the same static
    /// constraints and ordered progression as the policy.
    pub fn validate_selection(&self, request: &RouteRequest, selection: &RouteSelection) -> (r:
        Result<(), ContractError>)
        ensures
            failure(r) == selection_fault(self@, request@, selection@),
    {
        if !request.scope.same(self.scope()) {
            return fail(ErrorCode::AccessDenied, "routing.scope");
        }
        if !selection.routing_snapshot_digest.same(&self.digest())
            || !selection.request_digest.same(&request.digest()) {
            return fail(ErrorCode::ModelRoutingMismatch, "routing.selection_digest");
        }
        let matching = |rule: &RoutingRule| -> (b: bool)
            ensures
                b == rule_for(request@.model_binding, request@.purpose)(rule@),
        { rule.model_binding.same(&request.model_binding) && rule.purpose == request.purpose };
        match find(
            &self.policy.rules,
            matching,
            Ghost(rule_for(request@.model_binding, request@.purpose)),
        ) {
            Some(rule) => self.validate_in_rule(rule, request, selection),
            None => fail(ErrorCode::ModelRouteDenied, "routing.rule"),
        }
    }

    /// Resolve and validate inference settings against the pinned destination.
    pub fn model_configuration(
        &self,
        route: &ResolvedModelRoute,
        requested: &Vec<Member>,
        sources: &Vec<OptionOrigin>,
        upper_bound: u64,
    ) -> (r: Result<ModelConfiguration, ContractError>)
        ensures
            failure(r) == configuration_fault(
                self@,
                route@,
                requested.deep_view(),
                sources.deep_view(),
            ),
            r matches Ok(configuration) ==> configuration@ == configuration_for(
                self@,
                route@,
                requested.deep_view(),
                sources.deep_view(),
                upper_bound,
            ),
    {
        self.validate_route(route)?;
        let resolved = self.resolved_binding(&route.binding)?;
        let effective = merge_model_options(&resolved.binding.default_options, requested);
        resolved.model.capabilities.validate_options(&effective)?;
        resolved.binding.capabilities.validate_options(&effective)?;
        let origin_key = |origin: &OptionOrigin| -> (r: String)
            ensures
                r@ == origin@.key,
        { origin.key.copy() };
        let member_key = |member: &Member| -> (r: String)
            ensures
                r@ == member@.key,
        { member.key.copy() };
        let traced = map_each(
            sources,
            origin_key,
            Ghost(|origin: OptionOriginView| origin.key),
        );
        let wanted = map_each(requested, member_key, Ghost(|member: MemberView| member.key));
        if !traced.same(&wanted) {
            return fail(ErrorCode::InvalidConfiguration, "model.option_sources");
        }
        Ok(
            ModelConfiguration {
                requested: requested.copy(),
                effective,
                sources: merge_origins(&resolved.binding.default_options, sources),
                model_schema_revision: resolved.model.capabilities.revision.copy(),
                binding_schema_revision: resolved.binding.capabilities.revision.copy(),
                requested_max_output_tokens: upper_bound,
                max_output_tokens: least_of(
                    upper_bound,
                    resolved.model.capabilities.max_output_tokens,
                    resolved.binding.capabilities.max_output_tokens,
                ),
            },
        )
    }

    /// A target with its model.
    pub fn resolved_binding(&self, reference: &VersionedRef) -> (r: Result<
        ResolvedCatalogBinding,
        ContractError,
    >)
        ensures
            failure(r) == unresolved_fault(self@, reference@),
            r matches Ok(resolved) ==> resolved@ == resolved_of(self@, reference@),
    {
        let named = |binding: &ModelBinding| -> (b: bool)
            ensures
                b == binding_named(reference@)(binding@),
        { binding.binding.same(reference) };
        let binding = match find(
            &self.catalog.bindings,
            named,
            Ghost(binding_named(reference@)),
        ) {
            Some(binding) => binding,
            None => {
                return fail(ErrorCode::ModelNotRegistered, "routing.binding");
            },
        };
        let model = match find_model(&self.catalog.models, &binding.model) {
            Some(model) => model,
            None => {
                return fail(ErrorCode::ModelNotRegistered, "routing.model");
            },
        };
        Ok(
            ResolvedCatalogBinding {
                catalog_revision: self.catalog.revision.copy(),
                model: model.copy(),
                binding: binding.copy(),
            },
        )
    }

    /// Restore a stored text against a trusted scope and digest, then revalidate the saved data.
    /// `decoded` is what its document reads as.
    pub fn restore(
        input: &str,
        decoded: Option<&RoutingData>,
        scope: &Scope,
        expected_digest: &JsonDigest,
    ) -> (r: Result<Self, ContractError>)
        ensures
            failure(r) == routing_text_fault(
                input@,
                decoded.deep_view(),
                scope@,
                expected_digest@,
            ),
            r matches Ok(snapshot) ==> decoded is Some && snapshot@ == snapshot_of(
                decoded->Some_0@.catalog,
                decoded->Some_0@.policy,
            ),
    {
        let value = parse_json(input)?;
        Self::restore_document(&value, decoded, scope, expected_digest)
    }

    /// Restore a stored document against a trusted scope and digest, then revalidate the saved data.
    /// `decoded` is what it reads as.
    pub fn restore_document(
        value: &Json,
        decoded: Option<&RoutingData>,
        scope: &Scope,
        expected_digest: &JsonDigest,
    ) -> (r: Result<Self, ContractError>)
        ensures
            failure(r) == routing_restore_fault(
                value@,
                decoded.deep_view(),
                scope@,
                expected_digest@,
            ),
            r matches Ok(snapshot) ==> decoded is Some && snapshot@ == snapshot_of(
                decoded->Some_0@.catalog,
                decoded->Some_0@.policy,
            ),
    {
        if !is_unambiguous(value) {
            return fail(ErrorCode::InvalidJson, "$");
        }
        let known = match value.get("schema_version") {
            Some(version) => version.is_text("wickle.routing-snapshot.v1"),
            None => false,
        };
        if !known {
            return fail(ErrorCode::UnsupportedSchemaVersion, "routing.schema_version");
        }
        if !canonical_digest(value).same(expected_digest) {
            return fail(ErrorCode::ModelRoutingMismatch, "routing.digest");
        }
        let data = match decoded {
            Some(data) => data,
            None => {
                return fail(ErrorCode::ModelRoutingInvalid, "routing.snapshot");
            },
        };
        if !data.catalog.scope.same(scope) || !data.policy.scope.same(scope) {
            return fail(ErrorCode::AccessDenied, "routing.scope");
        }
        let snapshot = RoutingSnapshot::new(data.catalog.copy(), data.policy.copy())?;
        if !reads(&data.schema_version, "wickle.routing-snapshot.v1") || !snapshot.digest().same(
            expected_digest,
        ) {
            return fail(ErrorCode::ModelRoutingMismatch, "routing.digest");
        }
        Ok(snapshot)
    }
}

/// An accepted selection stays within its rule: the target is one of the rule's candidates, it was
/// allowed, and it meets the request.
pub proof fn law_accepted_selection_meets_the_request(
    snapshot: RoutingSnapshotView,
    request: RouteRequestView,
    selection: RouteSelectionView,
)
    requires
        selection_fault(snapshot, request, selection) is None,
    ensures
        first_in(
            snapshot.policy.rules,
            rule_for(request.model_binding, request.purpose),
        ) matches Some(rule) && candidates_of(rule).contains(selection.route.binding)
            && request.allowed_bindings.contains(selection.route.binding.id) && selection.route
            == route_to(snapshot, selection.route.binding) && requirements_fault(
            resolved_of(snapshot, selection.route.binding),
            requirements_of(rule, request),
        ) is None,
{
    let rule = first_in(
        snapshot.policy.rules,
        rule_for(request.model_binding, request.purpose),
    )->Some_0;
    assert(candidates_of(rule)[selection.candidate_index as int] == selection.route.binding);
}

/// A fallback moves past the previous route, and past no allowed candidate that would do.
pub proof fn law_fallback_takes_the_first_usable_candidate(
    snapshot: RoutingSnapshotView,
    request: RouteRequestView,
    selection: RouteSelectionView,
    i: int,
)
    requires
        selection_fault(snapshot, request, selection) is None,
        selection.reason is Fallback,
    ensures
        ({
            let rule = first_in(
                snapshot.policy.rules,
                rule_for(request.model_binding, request.purpose),
            )->Some_0;
            &&& previous_index(rule, request) is Some
            &&& previous_index(rule, request)->Some_0 < selection.candidate_index
            &&& previous_index(rule, request)->Some_0 < i < selection.candidate_index ==> {
                ||| !request.allowed_bindings.contains(candidates_of(rule)[i].id)
                ||| requirements_fault(
                    resolved_of(snapshot, candidates_of(rule)[i]),
                    requirements_of(rule, request),
                ) is Some
            }
        }),
{
    let rule = first_in(
        snapshot.policy.rules,
        rule_for(request.model_binding, request.purpose),
    )->Some_0;
    let start = previous_index(rule, request)->Some_0 + 1;
    let p = skipped_fault(snapshot, rule, request);
    lemma_first_index_fault(start, selection.candidate_index as int, p);
    if start <= i < selection.candidate_index {
        assert(p(i) is None);
    }
}

/// In a sound policy one rule at most is for a binding name and purpose, no rule lists a target twice,
/// and every listed target has its route.
proof fn lemma_sound_rule(snapshot: RoutingSnapshotView, r: int)
    requires
        routing_fault(snapshot.catalog, snapshot.policy) is None,
        0 <= r < snapshot.policy.rules.len(),
    ensures
        ({
            let rule = snapshot.policy.rules[r];
            let candidates = candidates_of(rule);
            &&& first_in(snapshot.policy.rules, rule_for(rule.model_binding, rule.purpose)) == Some(
                rule,
            )
            &&& forall|i: int|
                0 <= i < candidates.len() ==> position_in(
                    candidates,
                    to_target(#[trigger] candidates[i]),
                ) == Some(i)
            &&& forall|i: int|
                0 <= i < candidates.len() ==> route_fault(
                    snapshot,
                    route_to(snapshot, #[trigger] candidates[i]),
                ) is None && route_to(snapshot, candidates[i]).binding == candidates[i]
        }),
{
    let rules = snapshot.policy.rules;
    let rule = rules[r];
    let candidates = candidates_of(rule);
    let rule_at = rule_fault(snapshot.catalog, rules);
    lemma_first_index_fault(0, rules.len() as int, rule_at);
    assert(rule_at(r) is None);
    let p = rule_for(rule.model_binding, rule.purpose);
    assert(p(rule));
    assert forall|k: int| 0 <= k < r implies !p(#[trigger] rules[k]) by {
        assert(rules.take(r)[k] == rules[k]);
    }
    lemma_found_at(rules, p, r);
    let candidate_at = candidate_fault(snapshot.catalog, candidates);
    lemma_first_index_fault(0, candidates.len() as int, candidate_at);
    assert forall|i: int| 0 <= i < candidates.len() implies position_in(
        candidates,
        to_target(#[trigger] candidates[i]),
    ) == Some(i) && route_fault(snapshot, route_to(snapshot, candidates[i])) is None && route_to(
        snapshot,
        candidates[i],
    ).binding == candidates[i] by {
        let reference = candidates[i];
        let q = to_target(reference);
        assert(candidate_at(i) is None);
        assert(q(candidates[i]));
        assert forall|k: int| 0 <= k < i implies !q(#[trigger] candidates[k]) by {
            assert(candidates.take(i)[k] == candidates[k]);
        }
        lemma_found_at(candidates, q, i);
        if i > 0 {
            assert(rule.fallbacks[i - 1] == reference);
        }
        assert(lists(reference)(rules[r]));
        let named = binding_named(reference);
        lemma_first_in(snapshot.catalog.bindings, named);
        let binding = first_in(snapshot.catalog.bindings, named)->Some_0;
        let b = choose|b: int|
            0 <= b < snapshot.catalog.bindings.len() && snapshot.catalog.bindings[b] == binding;
        law_catalog_entries_are_found(snapshot.catalog, b, b);
        let m = choose|m: int|
            0 <= m < snapshot.catalog.models.len() && (
            #[trigger] snapshot.catalog.models[m]).reference() == binding.model;
        let modelled = model_named(binding.model);
        assert(modelled(snapshot.catalog.models[m]));
        lemma_first_in(snapshot.catalog.models, modelled);
    }
}

/// A reuse keeps the route of the call before, all of it, and reports no failure.
pub proof fn law_reuse_keeps_the_previous_route(
    snapshot: RoutingSnapshotView,
    request: RouteRequestView,
    selection: RouteSelectionView,
)
    requires
        selection_fault(snapshot, request, selection) is None,
        selection.reason is Reuse,
    ensures
        request.previous_route == Some(selection.route),
        request.previous_failure is None,
{
    let rule = first_in(
        snapshot.policy.rules,
        rule_for(request.model_binding, request.purpose),
    )->Some_0;
    lemma_position_in(candidates_of(rule), to_target(request.previous_route->Some_0.binding));
}

/// A route that was accepted once may be reused: where nothing but the previous route of a request
/// changes, and no failure is reported, naming it again with the reason of a reuse is accepted.
pub proof fn law_accepted_routes_can_be_reused(
    snapshot: RoutingSnapshotView,
    request: RouteRequestView,
    selection: RouteSelectionView,
)
    requires
        routing_fault(snapshot.catalog, snapshot.policy) is None,
        selection_fault(snapshot, request, selection) is None,
    ensures
        ({
            let again = RouteRequestView {
                previous_route: Some(selection.route),
                previous_failure: None,
                ..request
            };
            selection_fault(
                snapshot,
                again,
                RouteSelectionView {
                    reason: RouteSelectionReasonView::Reuse,
                    request_digest: digest_of(route_request_json(again)),
                    ..selection
                },
            ) is None
        }),
{
    let again = RouteRequestView {
        previous_route: Some(selection.route),
        previous_failure: None,
        ..request
    };
    let p = rule_for(request.model_binding, request.purpose);
    lemma_first_in(snapshot.policy.rules, p);
    let rule = first_in(snapshot.policy.rules, p)->Some_0;
    let r = choose|r: int| 0 <= r < snapshot.policy.rules.len() && snapshot.policy.rules[r] == rule;
    lemma_sound_rule(snapshot, r);
    let i = selection.candidate_index as int;
    assert(candidates_of(rule)[i] == selection.route.binding);
    assert(requirements_of(rule, again) == requirements_of(rule, request));
}

/// The reason of an accepted selection follows from the request: a first choice where there is no
/// previous route, a reuse where there is one that did not fail, and a fallback where it failed, for
/// the very failure that is reported and that the rule lists.
pub proof fn law_the_reason_follows_from_the_request(
    snapshot: RoutingSnapshotView,
    request: RouteRequestView,
    selection: RouteSelectionView,
    r: int,
)
    requires
        routing_fault(snapshot.catalog, snapshot.policy) is None,
        selection_fault(snapshot, request, selection) is None,
        0 <= r < snapshot.policy.rules.len(),
        snapshot.policy.rules[r].model_binding == request.model_binding,
        snapshot.policy.rules[r].purpose == request.purpose,
    ensures
        selection.reason is Initial <==> request.previous_route is None,
        selection.reason is Reuse <==> request.previous_route is Some
            && request.previous_failure is None,
        selection.reason is Fallback <==> request.previous_failure is Some,
        selection.reason matches RouteSelectionReasonView::Fallback { failure }
            ==> request.previous_failure == Some(failure)
            && snapshot.policy.rules[r].fallback_on.contains(failure)
            && request.previous_route is Some,
        selection.reason is Initial ==> selection.route.binding == snapshot.policy.rules[r].primary,
        selection.reason is Fallback ==> selection.candidate_index > 0 && selection.route.binding
            == snapshot.policy.rules[r].fallbacks[selection.candidate_index - 1],
        selection.reason is Fallback ==> selection.route.binding
            != request.previous_route->Some_0.binding,
{
    lemma_sound_rule(snapshot, r);
    let rule = snapshot.policy.rules[r];
    if request.previous_route is Some {
        lemma_position_in(candidates_of(rule), to_target(request.previous_route->Some_0.binding));
    }
    let i = selection.candidate_index as int;
    assert(candidates_of(rule)[i] == selection.route.binding);
}

/// A target of a rule that the request allows and whose requirements it meets.
pub open spec fn usable(
    snapshot: RoutingSnapshotView,
    rule: RoutingRuleView,
    request: RouteRequestView,
    reference: VersionedRefView,
) -> bool {
    &&& request.allowed_bindings.contains(reference.id)
    &&& requirements_fault(resolved_of(snapshot, reference), requirements_of(rule, request)) is None
}

/// The default target of a rule may be the first choice exactly where it is usable.
pub proof fn law_a_usable_primary_is_the_first_choice(
    snapshot: RoutingSnapshotView,
    request: RouteRequestView,
    r: int,
)
    requires
        routing_fault(snapshot.catalog, snapshot.policy) is None,
        0 <= r < snapshot.policy.rules.len(),
        snapshot.policy.rules[r].model_binding == request.model_binding,
        snapshot.policy.rules[r].purpose == request.purpose,
        snapshot.policy.rules[r].min_support != ModelSupportStatus::Planned,
        request.scope == snapshot.catalog.scope,
        request.previous_route is None,
        request.previous_failure is None,
    ensures
        ({
            let primary = snapshot.policy.rules[r].primary;
            selection_fault(
                snapshot,
                request,
                RouteSelectionView {
                    route: route_to(snapshot, primary),
                    reason: RouteSelectionReasonView::Initial,
                    candidate_index: 0,
                    routing_snapshot_digest: routing_digest(snapshot),
                    request_digest: digest_of(route_request_json(request)),
                },
            ) is None <==> usable(snapshot, snapshot.policy.rules[r], request, primary)
        }),
{
    lemma_sound_rule(snapshot, r);
    let rule = snapshot.policy.rules[r];
    assert(candidates_of(rule)[0] == rule.primary);
}

/// After a failure that a rule lists, the first usable target behind the one that failed is accepted
/// as a fallback.
pub proof fn law_the_next_usable_target_is_accepted(
    snapshot: RoutingSnapshotView,
    request: RouteRequestView,
    r: int,
    failed: int,
    c: int,
)
    requires
        routing_fault(snapshot.catalog, snapshot.policy) is None,
        0 <= r < snapshot.policy.rules.len(),
        snapshot.policy.rules[r].model_binding == request.model_binding,
        snapshot.policy.rules[r].purpose == request.purpose,
        snapshot.policy.rules[r].min_support != ModelSupportStatus::Planned,
        request.scope == snapshot.catalog.scope,
        0 <= failed < c < candidates_of(snapshot.policy.rules[r]).len(),
        c <= usize::MAX,
        request.previous_route == Some(
            route_to(snapshot, candidates_of(snapshot.policy.rules[r])[failed]),
        ),
        request.previous_failure matches Some(failure)
            && snapshot.policy.rules[r].fallback_on.contains(failure),
        usable(
            snapshot,
            snapshot.policy.rules[r],
            request,
            candidates_of(snapshot.policy.rules[r])[c],
        ),
        forall|k: int|
            failed < k < c ==> !#[trigger] usable(
                snapshot,
                snapshot.policy.rules[r],
                request,
                candidates_of(snapshot.policy.rules[r])[k],
            ),
    ensures
        selection_fault(
            snapshot,
            request,
            RouteSelectionView {
                route: route_to(snapshot, candidates_of(snapshot.policy.rules[r])[c]),
                reason: RouteSelectionReasonView::Fallback {
                    failure: request.previous_failure->Some_0,
                },
                candidate_index: c as usize,
                routing_snapshot_digest: routing_digest(snapshot),
                request_digest: digest_of(route_request_json(request)),
            },
        ) is None,
{
    lemma_sound_rule(snapshot, r);
    let rule = snapshot.policy.rules[r];
    let candidates = candidates_of(rule);
    assert(position_in(candidates, to_target(candidates[failed])) == Some(failed));
    let p = skipped_fault(snapshot, rule, request);
    assert forall|k: int| failed + 1 <= k < c implies #[trigger] p(k) is None by {
        assert(!usable(snapshot, rule, request, candidates[k]));
        assert(route_fault(snapshot, route_to(snapshot, candidates[k])) is None);
    }
    lemma_no_index_fault(failed + 1, c, p);
    assert(route_fault(snapshot, route_to(snapshot, candidates[c])) is None);
}

/// A rule's targets are its default and then its fallbacks, in their order.
pub proof fn law_the_primary_comes_first(rule: RoutingRuleView, i: int)
    ensures
        candidates_of(rule).len() == rule.fallbacks.len() + 1,
        candidates_of(rule)[0] == rule.primary,
        0 <= i < rule.fallbacks.len() ==> candidates_of(rule)[i + 1] == rule.fallbacks[i],
{
}

/// What a target must meet is what the request asks for; a version is pinned where the request or
/// the rule asks for that, so that neither relaxes the other.
pub proof fn law_requests_tighten_their_rule(rule: RoutingRuleView, request: RouteRequestView)
    ensures
        ({
            let asked = requirements_of(rule, request);
            &&& asked.features == request.required_capabilities
            &&& asked.options == request.options
            &&& asked.input_tokens == request.input_tokens
            &&& asked.max_output_tokens == request.max_output_tokens
            &&& asked.min_support == rule.min_support
            &&& rule.version_policy == VersionPolicy::RequirePinned ==> asked.version_policy
                == VersionPolicy::RequirePinned
            &&& request.version_policy == VersionPolicy::RequirePinned ==> asked.version_policy
                == VersionPolicy::RequirePinned
            &&& rule.version_policy == VersionPolicy::AllowMutable && request.version_policy
                == VersionPolicy::AllowMutable ==> asked.version_policy
                == VersionPolicy::AllowMutable
        }),
{
}

/// The route to a listed target of a sound snapshot describes exactly that target and its model.
pub proof fn law_routes_describe_their_target(snapshot: RoutingSnapshotView, b: int, m: int)
    requires
        catalog_fault(snapshot.catalog) is None,
        0 <= b < snapshot.catalog.bindings.len(),
        0 <= m < snapshot.catalog.models.len(),
        snapshot.catalog.bindings[b].model.provider == snapshot.catalog.models[m].provider,
        snapshot.catalog.bindings[b].model.model_key == snapshot.catalog.models[m].model_key,
        snapshot.catalog.bindings[b].model.model_version == snapshot.catalog.models[m].model_version,
    ensures
        ({
            let binding = snapshot.catalog.bindings[b];
            let model = snapshot.catalog.models[m];
            let route = route_to(snapshot, binding.binding);
            &&& route.binding == binding.binding
            &&& route.catalog_revision == snapshot.catalog.revision
            &&& route.routing_policy_revision == snapshot.policy.revision
            &&& route.requested_model == binding.requested_model
            &&& route.model_id == model.model_id
            &&& route.model_version == model.model_version
            &&& route.provider == model.provider
            &&& route.target == binding.target
            &&& route.deployment_revision == binding.deployment_revision
            &&& route.api_contract == binding.api_contract
            &&& route.adapter == binding.adapter
            &&& route.capability_revision == binding.capabilities.revision
            &&& route.connection_ref == binding.connection_ref
            &&& route.version_semantics == VersionSemantics::Pinned <==> model.version_semantics
                == VersionSemantics::Pinned && binding.version_semantics == VersionSemantics::Pinned
        }),
{
    law_catalog_entries_are_found(snapshot.catalog, b, b);
    law_catalog_entries_are_found(snapshot.catalog, m, m);
    assert(snapshot.catalog.models[m].reference() == snapshot.catalog.bindings[b].model);
}

/// The settings of a call: what is requested goes before the defaults of the binding, and the output
/// is bounded by what is asked, by the model and by the binding, and by nothing less.
pub proof fn law_requested_settings_go_before_defaults(
    snapshot: RoutingSnapshotView,
    route: ResolvedModelRouteView,
    requested: Seq<MemberView>,
    sources: Seq<OptionOriginView>,
    upper_bound: u64,
    key: Seq<char>,
)
    requires
        keys_distinct(requested),
    ensures
        ({
            let resolved = resolved_of(snapshot, route.binding);
            let settings = configuration_for(snapshot, route, requested, sources, upper_bound);
            &&& settings.requested == requested
            &&& value_of(requested, key) is Some ==> value_of(settings.effective, key) == value_of(
                requested,
                key,
            )
            &&& value_of(requested, key) is None ==> value_of(settings.effective, key) == value_of(
                resolved.binding.default_options,
                key,
            )
            &&& settings.max_output_tokens <= upper_bound
            &&& settings.max_output_tokens <= resolved.model.capabilities.max_output_tokens
            &&& settings.max_output_tokens <= resolved.binding.capabilities.max_output_tokens
            &&& settings.max_output_tokens == upper_bound || settings.max_output_tokens
                == resolved.model.capabilities.max_output_tokens || settings.max_output_tokens
                == resolved.binding.capabilities.max_output_tokens
            &&& settings.requested_max_output_tokens == upper_bound
            &&& settings.model_schema_revision == resolved.model.capabilities.revision
            &&& settings.binding_schema_revision == resolved.binding.capabilities.revision
        }),
{
    law_override_wins(
        resolved_of(snapshot, route.binding).binding.default_options,
        requested,
        key,
    );
}

/// The origins of a key.
pub open spec fn of_key(key: Seq<char>) -> spec_fn(OptionOriginView) -> bool {
    |origin: OptionOriginView| origin.key == key
}

/// A setting that was requested keeps its origin; one that was not comes from the binding.
pub proof fn law_origins_follow_the_settings(
    defaults: Seq<MemberView>,
    sources: Seq<OptionOriginView>,
    key: Seq<char>,
)
    requires
        forall|i: int, j: int|
            0 <= i < j < sources.len() ==> (#[trigger] sources[i]).key != (
            #[trigger] sources[j]).key,
    ensures
        first_in(merged_origins(defaults, sources), of_key(key)) == (match first_in(
            sources,
            of_key(key),
        ) {
            Some(origin) => Some(origin),
            None => if value_of(defaults, key) is Some {
                Some(OptionOriginView { key, source: ModelOptionSource::Binding })
            } else {
                None
            },
        }),
    decreases sources.len(),
{
    if sources.len() == 0 {
        lemma_default_origins(defaults, key);
    } else {
        let front = sources.drop_last();
        assert forall|i: int, j: int| 0 <= i < j < front.len() implies (#[trigger] front[i]).key
            != (#[trigger] front[j]).key by {
            assert(front[i] == sources[i] && front[j] == sources[j]);
        }
        law_origins_follow_the_settings(defaults, front, key);
        lemma_put_origin(merged_origins(defaults, front), sources.last(), key);
        assert(sources =~= front.push(sources.last()));
        lemma_origin_push(front, sources.last(), key);
        if sources.last().key == key {
            lemma_first_in(front, of_key(key));
            if first_in(front, of_key(key)) is Some {
                let i = choose|i: int| 0 <= i < front.len() && of_key(key)(#[trigger] front[i]);
                assert(front[i] == sources[i]);
            }
        }
    }
}

proof fn lemma_default_origins(defaults: Seq<MemberView>, key: Seq<char>)
    ensures
        first_in(merged_origins(defaults, Seq::empty()), of_key(key)) == (if value_of(
            defaults,
            key,
        ) is Some {
            Some(OptionOriginView { key, source: ModelOptionSource::Binding })
        } else {
            None
        }),
    decreases defaults.len(),
{
    let origins = merged_origins(defaults, Seq::empty());
    if defaults.len() > 0 {
        lemma_default_origins(defaults.skip(1), key);
        assert(origins.skip(1) =~= merged_origins(defaults.skip(1), Seq::empty()));
        assert(origins[0].key == defaults[0].key);
    }
}

proof fn lemma_put_origin(
    origins: Seq<OptionOriginView>,
    origin: OptionOriginView,
    key: Seq<char>,
)
    ensures
        first_in(put_origin(origins, origin), of_key(key)) == (if origin.key == key {
            Some(origin)
        } else {
            first_in(origins, of_key(key))
        }),
    decreases origins.len(),
{
    reveal_with_fuel(first_in, 2);
    let all = put_origin(origins, origin);
    if origins.len() == 0 {
        assert(all.skip(1) =~= origins);
    } else if origins[0].key == origin.key {
        assert(all.skip(1) =~= origins.skip(1));
    } else if precedes(origin.key, origins[0].key) {
        assert(all.skip(1) =~= origins);
    } else {
        lemma_put_origin(origins.skip(1), origin, key);
        assert(all.skip(1) =~= put_origin(origins.skip(1), origin));
    }
}

proof fn lemma_origin_push(
    origins: Seq<OptionOriginView>,
    origin: OptionOriginView,
    key: Seq<char>,
)
    ensures
        first_in(origins.push(origin), of_key(key)) == (match first_in(origins, of_key(key)) {
            Some(found) => Some(found),
            None => if origin.key == key {
                Some(origin)
            } else {
                None
            },
        }),
    decreases origins.len(),
{
    reveal_with_fuel(first_in, 2);
    let all = origins.push(origin);
    if origins.len() == 0 {
        assert(all.skip(1) =~= origins);
    } else {
        lemma_origin_push(origins.skip(1), origin, key);
        assert(all.skip(1) =~= origins.skip(1).push(origin));
        assert(all[0] == origins[0]);
    }
}

/// A restored routing is the one that was saved: its catalog and its policy belong to the scope, are
/// sound, and have the digest that is expected of them.
pub proof fn law_restored_routing_is_the_saved_one(
    input: Seq<char>,
    decoded: Option<RoutingDataView>,
    scope: ScopeView,
    expected_digest: Seq<char>,
)
    requires
        document_in(input, false) is Some,
        routing_text_fault(input, decoded, scope, expected_digest) is None,
    ensures
        decoded matches Some(data) && data.catalog.scope == scope && data.policy.scope == scope
            && routing_fault(data.catalog, data.policy) is None && routing_digest(
            snapshot_of(data.catalog, data.policy),
        ) == expected_digest,
        digest_of(document_in(input, false)->Some_0) == expected_digest,
        unambiguous(document_in(input, false)->Some_0),
{
}

} // verus!
