//! What a metadata inspection of a selected route may report.
use vstd::prelude::*;

use crate::data::{is_same, Data};
use crate::error::{fail, ContractError, ErrorCode};
#[allow(unused_imports)]
use crate::error::{failure, fault, Fault};
use crate::model::{ResolvedModelRoute, VersionPolicy, VersionSemantics};
#[allow(unused_imports)]
use crate::model::{route_digest, ResolvedModelRouteView};
use crate::refs::Scope;
use crate::serialization::{Id, JsonDigest};

verus! {

/// Availability reported by a trusted metadata inspection, not a model response.
#[derive(Debug, Clone, Copy, PartialEq, Eq, Structural)]
pub enum ModelRouteAvailability {
    /// The target was reported available when inspected.
    Available,
    /// The target was reported unavailable; no substitute is selected here.
    Unavailable,
    /// Availability could not be established and must not be treated as available.
    Unknown,
}

impl View for ModelRouteAvailability {
    type V = ModelRouteAvailability;

    open spec fn view(&self) -> ModelRouteAvailability {
        *self
    }
}

impl DeepView for ModelRouteAvailability {
    type V = ModelRouteAvailability;

    open spec fn deep_view(&self) -> ModelRouteAvailability {
        *self
    }
}

impl Data for ModelRouteAvailability {
    fn same(&self, other: &Self) -> (r: bool) {
        *self == *other
    }

    fn copy(&self) -> (r: Self) {
        *self
    }
}

/// Facts observed by the Host's read-only metadata inspector.
#[derive(Debug)]
pub struct ModelRouteObservation {
    /// Exact selected route that the inspector checked.
    pub route_digest: JsonDigest,
    /// Availability at inspection time.
    pub availability: ModelRouteAvailability,
    /// Model identifier actually established by inspection, when known.
    pub model_id: Option<Id>,
    /// Release actually established by inspection, when known.
    pub model_version: Option<Id>,
    /// Deployment revision actually established by inspection, when known.
    pub deployment_revision: Option<Id>,
    /// Observed version guarantee; never inferred from identifier spelling.
    pub version_semantics: VersionSemantics,
    /// Host-owned evidence reference.
    pub evidence_ref: Id,
}

#[verifier::ext_equal]
pub struct ModelRouteObservationView {
    pub route_digest: Seq<char>,
    pub availability: ModelRouteAvailability,
    pub model_id: Option<Seq<char>>,
    pub model_version: Option<Seq<char>>,
    pub deployment_revision: Option<Seq<char>>,
    pub version_semantics: VersionSemantics,
    pub evidence_ref: Seq<char>,
}

impl View for ModelRouteObservation {
    type V = ModelRouteObservationView;

    open spec fn view(&self) -> ModelRouteObservationView {
        ModelRouteObservationView {
            route_digest: self.route_digest.deep_view(),
            availability: self.availability.deep_view(),
            model_id: self.model_id.deep_view(),
            model_version: self.model_version.deep_view(),
            deployment_revision: self.deployment_revision.deep_view(),
            version_semantics: self.version_semantics.deep_view(),
            evidence_ref: self.evidence_ref.deep_view(),
        }
    }
}

impl DeepView for ModelRouteObservation {
    type V = ModelRouteObservationView;

    open spec fn deep_view(&self) -> ModelRouteObservationView {
        self@
    }
}

impl Data for ModelRouteObservation {
    fn same(&self, other: &Self) -> (r: bool) {
        self.route_digest.same(&other.route_digest)
            && self.availability.same(&other.availability)
            && self.model_id.same(&other.model_id)
            && self.model_version.same(&other.model_version)
            && self.deployment_revision.same(&other.deployment_revision)
            && self.version_semantics.same(&other.version_semantics)
            && self.evidence_ref.same(&other.evidence_ref)
    }

    fn copy(&self) -> (r: Self) {
        ModelRouteObservation {
            route_digest: self.route_digest.copy(),
            availability: self.availability.copy(),
            model_id: self.model_id.copy(),
            model_version: self.model_version.copy(),
            deployment_revision: self.deployment_revision.copy(),
            version_semantics: self.version_semantics.copy(),
            evidence_ref: self.evidence_ref.copy(),
        }
    }
}


/// Resolve an already selected route to an existing, scope-bound model adapter. This is a lookup: it
/// performs no I/O, chooses no other target and invokes no model.
pub trait ModelDispatcher {
    /// What a call goes through.
    type Port;

    /// The adapter for this exact provider, implementation and connection.
    fn resolve(&self, scope: &Scope, route: &ResolvedModelRoute) -> Result<
        Self::Port,
        ContractError,
    >;
}

/// A fact was established, and it differs.
pub open spec fn contradicts(observed: Option<Seq<char>>, expected: Seq<char>) -> bool {
    observed is Some && observed != Some(expected)
}

/// Why an observation does not let a route be used.
pub open spec fn inspection_fault(
    observation: ModelRouteObservationView,
    route: ResolvedModelRouteView,
    version_policy: VersionPolicy,
) -> Option<Fault> {
    if observation.route_digest != route_digest(route) || contradicts(
        observation.model_id,
        route.model_id,
    ) || contradicts(observation.model_version, route.model_version) || (
    observation.deployment_revision is Some && route.deployment_revision is Some
        && observation.deployment_revision != route.deployment_revision) {
        fault(ErrorCode::ModelVersionDrift, "model.inspection.target")
    } else if observation.availability is Unavailable {
        fault(ErrorCode::ModelUnavailable, "model.inspection.availability")
    } else if observation.availability is Unknown {
        fault(ErrorCode::ModelInspectionUnavailable, "model.inspection.availability")
    } else if version_policy is RequirePinned && (!(route.version_semantics is Pinned) || !(
    observation.version_semantics is Pinned) || observation.model_id is None
        || observation.model_version is None || (route.deployment_revision is Some
        && observation.deployment_revision != route.deployment_revision)) {
        fault(ErrorCode::ModelVersionUnpinned, "model.inspection.version")
    } else {
        None
    }
}

fn differs(observed: &Option<Id>, expected: &Id) -> (r: bool)
    ensures
        r == contradicts(observed.deep_view(), expected@),
{
    observed.is_some() && !is_same(observed, expected)
}

impl ModelRouteObservation {
    /// Check availability, exact target identity and the requested version guarantee. Unknown
    /// facts remain unknown. An observation cannot replace the selected route, upgrade its
    /// declared semantics, or guarantee that nothing drifts later.
    pub fn validate(&self, route: &ResolvedModelRoute, version_policy: VersionPolicy) -> (r: Result<
        (),
        ContractError,
    >)
        ensures
            failure(r) == inspection_fault(self@, route@, version_policy),
    {
        if !self.route_digest.same(&route.digest()) || differs(&self.model_id, &route.model_id)
            || differs(&self.model_version, &route.model_version) || (
        self.deployment_revision.is_some() && route.deployment_revision.is_some()
            && !self.deployment_revision.same(&route.deployment_revision)) {
            return fail(ErrorCode::ModelVersionDrift, "model.inspection.target");
        }
        match self.availability {
            ModelRouteAvailability::Unavailable => {
                return fail(ErrorCode::ModelUnavailable, "model.inspection.availability");
            },
            ModelRouteAvailability::Unknown => {
                return fail(
                    ErrorCode::ModelInspectionUnavailable,
                    "model.inspection.availability",
                );
            },
            ModelRouteAvailability::Available => {},
        }
        if version_policy == VersionPolicy::RequirePinned && (route.version_semantics
            != VersionSemantics::Pinned || self.version_semantics != VersionSemantics::Pinned
            || self.model_id.is_none() || self.model_version.is_none() || (
        route.deployment_revision.is_some() && !self.deployment_revision.same(
            &route.deployment_revision,
        ))) {
            return fail(ErrorCode::ModelVersionUnpinned, "model.inspection.version");
        }
        Ok(())
    }
}

/// Under a policy that requires pinned targets, an accepted observation establishes the exact model
/// and release of the route.
pub proof fn law_pinned_inspection_is_exact(
    observation: ModelRouteObservationView,
    route: ResolvedModelRouteView,
)
    requires
        inspection_fault(observation, route, VersionPolicy::RequirePinned) is None,
    ensures
        observation.model_id == Some(route.model_id),
        observation.model_version == Some(route.model_version),
        route.deployment_revision is Some ==> observation.deployment_revision
            == route.deployment_revision,
        route.version_semantics is Pinned,
        observation.availability is Available,
{
}

/// An observation of exactly this route that contradicts nothing lets an available target be used;
/// what it leaves unknown stands in the way only where a pinned target is required.
pub proof fn law_unknown_facts_are_no_contradiction(
    observation: ModelRouteObservationView,
    route: ResolvedModelRouteView,
)
    ensures
        inspection_fault(observation, route, VersionPolicy::AllowMutable) is None <==> {
            &&& observation.route_digest == route_digest(route)
            &&& observation.availability == ModelRouteAvailability::Available
            &&& observation.model_id is None || observation.model_id == Some(route.model_id)
            &&& observation.model_version is None || observation.model_version == Some(
                route.model_version,
            )
            &&& observation.deployment_revision is None || route.deployment_revision is None
                || observation.deployment_revision == route.deployment_revision
        },
        inspection_fault(observation, route, VersionPolicy::RequirePinned) is None <==> {
            &&& inspection_fault(observation, route, VersionPolicy::AllowMutable) is None
            &&& route.version_semantics == VersionSemantics::Pinned
            &&& observation.version_semantics == VersionSemantics::Pinned
            &&& observation.model_id is Some
            &&& observation.model_version is Some
            &&& route.deployment_revision is Some ==> observation.deployment_revision
                == route.deployment_revision
        },
{
}

/// A target that was observed to be another one drifted; one that is the same and cannot be reached
/// is unavailable, and one of which that is not known is never taken for available.
pub proof fn law_drift_is_told_from_absence(
    observation: ModelRouteObservationView,
    route: ResolvedModelRouteView,
    version_policy: VersionPolicy,
)
    ensures
        observation.route_digest != route_digest(route) ==> inspection_fault(
            observation,
            route,
            version_policy,
        )->Some_0.code == ErrorCode::ModelVersionDrift,
        observation.route_digest == route_digest(route) && observation.model_id is None
            && observation.model_version is None && observation.deployment_revision is None
            && observation.availability == ModelRouteAvailability::Unavailable ==> inspection_fault(
            observation,
            route,
            version_policy,
        )->Some_0.code == ErrorCode::ModelUnavailable,
        observation.route_digest == route_digest(route) && observation.model_id is None
            && observation.model_version is None && observation.deployment_revision is None
            && observation.availability == ModelRouteAvailability::Unknown ==> inspection_fault(
            observation,
            route,
            version_policy,
        )->Some_0.code == ErrorCode::ModelInspectionUnavailable,
{
}

} // verus!
