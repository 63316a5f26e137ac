//! Failures reported by every contract of the crate.
use vstd::prelude::*;

use crate::data::Data;
use crate::json::Json;
#[allow(unused_imports)]
use crate::json::JsonView;
use crate::text::concat;
#[allow(unused_imports)]
use crate::text::{blank, white_space};

verus! {

#[derive(Debug, Clone, Copy, PartialEq, Eq, Structural)]
pub enum ErrorCode {
    /// The verifier could not complete its check; this is not a quality rejection.
    VerificationUnavailable,
    /// Current policy or exact owner scope denies access.
    AccessDenied,
    /// Artifact identity, content, metadata, or size violates its immutable contract.
    InvalidArtifact,
    /// Artifact policy requires an explicit Host approval before storage access.
    ArtifactApprovalRequired,
    /// A Skill manifest, body, dependency or loader result violates its pinned contract.
    InvalidSkill,
    /// Context selection would split a complete group or remove protected data.
    InvalidContextSelection,
    /// A compressor did not produce a smaller usable context projection.
    ContextCompactionNoReduction,
    /// A model compressor failed or returned an unsupported completion.
    ContextCompactionFailed,
    /// Current Skill policy requires explicit Host approval before loading or use.
    SkillApprovalRequired,
    /// The trusted policy failed or panicked; no permission was granted.
    PolicyUnavailable,
    /// The call's finite deadline elapsed.
    DeadlineExceeded,
    /// The current operation was cancelled.
    Cancelled,
    /// The Host has not supplied the required asynchronous runtime.
    RuntimeUnavailable,
    /// A configured call, repair, or recovery budget has no remaining capacity.
    BudgetExceeded,
    /// A required time reading or timer could not be obtained.
    ClockUnavailable,
    /// A monotonic reading regressed or a resumed UTC clock predates saved progress.
    ClockRegression,
    /// The Host identifier source could not generate an internal execution identifier.
    IdGenerationFailed,
    /// Input is not unambiguous, finite JSON.
    InvalidJson,
    /// Input does not match a data contract.
    InvalidContract,
    /// The requested model, version, binding or alias is not registered.
    ModelNotRegistered,
    /// An exact model/API/adapter/target binding or its evidence is inconsistent.
    ModelBindingInvalid,
    /// The required feature or declared capability limit is unsupported.
    ModelCapabilityUnsupported,
    /// Provider options do not satisfy the model and exact-binding contracts.
    ModelOptionUnsupported,
    /// The model or deployment is not verified immutable under the requested policy.
    ModelVersionUnpinned,
    /// Current observed model or deployment metadata differs from the pinned route.
    ModelVersionDrift,
    /// A bounded target inspection failed or could not establish availability.
    ModelInspectionUnavailable,
    /// A prior physical attempt has no known result and needs explicit recovery.
    ModelAttemptUnresolved,
    /// The selected release is retired or otherwise unavailable.
    ModelUnavailable,
    /// Catalog scope-independent revision, identity or serialized integrity differs.
    ModelCatalogMismatch,
    /// Static routing configuration has duplicate, missing or unsupported constraints.
    ModelRoutingInvalid,
    /// Saved routing metadata, request identity or selected route differs.
    ModelRoutingMismatch,
    /// Static routing constraints forbid this target or fallback reason.
    ModelRouteDenied,
    /// No eligible candidate remains in the finite permitted fallback list.
    ModelRoutesExhausted,
    /// Required support evidence is absent, failed, or of an insufficient kind.
    ModelSupportInsufficient,
    /// Estimated input plus reserved output exceeds this model/binding context budget.
    ModelContextIncompatible,
    /// Tool exposure, binding metadata, or a registered input schema is inconsistent.
    InvalidToolInputContract,
    /// The compiler cannot safely project this input schema or reference form.
    UnsupportedInputProjection,
    /// Model-owned or assembled tool arguments do not satisfy their input contract.
    InvalidArguments,
    /// An external receipt did not establish the tool effect; its saved wait remains.
    ToolEffectUnresolved,
    /// A supplied system value does not satisfy its registered input contract.
    SystemInputInvalid,
    /// A required registered system value is absent; the model must not invent it.
    SystemInputMissing,
    /// A read-only system-value resolver is unavailable or failed safely.
    SystemInputUnavailable,
    /// Supplied/resumed values or pinned input metadata differ from the saved snapshot.
    SystemInputsMismatch,
    /// Lookup permission requires separate Host approval before a target is known.
    SystemInputApprovalRequired,
    /// Resolver-count or serialized input-size bounds were exceeded.
    InputBindingLimitExceeded,
    /// Context identity, provenance structure, or call/result protocol is invalid.
    InvalidContext,
    /// Context scope, pinned assets, or protected-record identity does not match.
    ContextMismatch,
    /// Required context cannot fit the explicit byte or item bounds without truncation.
    ContextBudgetExceeded,
    /// A required context source is explicitly unavailable.
    ContextSourceUnavailable,
    /// Context access requires approval through a separate interactive operation.
    ContextApprovalRequired,
    /// The document format is not supported.
    UnsupportedSchemaVersion,
    /// A reference or binding is missing or inconsistent.
    InvalidReference,
    /// A required component or exact version is unavailable.
    ComponentUnavailable,
    /// A component uses an unsupported metadata contract.
    UnsupportedContractVersion,
    /// Selected components do not supply a required capability.
    CapabilityUnsupported,
    /// A configuration does not satisfy its registered schema.
    InvalidConfiguration,
    /// A registered schema is invalid or requires unsupported resolution.
    InvalidSchema,
    /// A profile differs from the profile pinned to an existing execution.
    ProfileMismatch,
    /// Stored data violates checkpoint invariants.
    InvalidSnapshot,
    /// The requested run, session, or protected record is absent in this exact scope.
    StateNotFound,
    /// A protected record was deliberately expired by the storage retention policy.
    RecordExpired,
    /// An existing request identity was reused with different logical input.
    RequestConflict,
    /// The session already has a running or waiting run.
    SessionBusy,
    /// A proposed run identifier already belongs to another request in this scope.
    RunConflict,
    /// The compare-and-swap revision no longer matches saved state.
    RevisionConflict,
    /// Another unexpired execution lease already owns the run.
    LeaseBusy,
    /// The execution lease expired or no longer matches its owner and generation.
    LeaseLost,
    /// A candidate change violates immutable data or state-transition rules.
    InvalidTransition,
    /// An event has a duplicate identity, invalid sequence, or inconsistent references.
    InvalidEvent,
    /// A message has a duplicate identity, invalid sequence, or wrong owning run.
    InvalidMessage,
    /// Immutable record content or a requested reference digest conflicts.
    RecordConflict,
    /// Authoritative storage is unavailable; no successful commit is implied.
    PersistenceUnavailable,
}

impl DeepView for ErrorCode {
    type V = ErrorCode;

    open spec fn deep_view(&self) -> ErrorCode {
        *self
    }
}

impl Data for ErrorCode {
    fn same(&self, other: &Self) -> (r: bool) {
        *self == *other
    }

    fn copy(&self) -> (r: Self) {
        *self
    }
}

/// A failure category in words.
pub open spec fn code_title(code: ErrorCode) -> Seq<char> {
    match code {
        ErrorCode::VerificationUnavailable => "VerificationUnavailable"@,
        ErrorCode::AccessDenied => "AccessDenied"@,
        ErrorCode::InvalidArtifact => "InvalidArtifact"@,
        ErrorCode::ArtifactApprovalRequired => "ArtifactApprovalRequired"@,
        ErrorCode::InvalidSkill => "InvalidSkill"@,
        ErrorCode::InvalidContextSelection => "InvalidContextSelection"@,
        ErrorCode::ContextCompactionNoReduction => "ContextCompactionNoReduction"@,
        ErrorCode::ContextCompactionFailed => "ContextCompactionFailed"@,
        ErrorCode::SkillApprovalRequired => "SkillApprovalRequired"@,
        ErrorCode::PolicyUnavailable => "PolicyUnavailable"@,
        ErrorCode::DeadlineExceeded => "DeadlineExceeded"@,
        ErrorCode::Cancelled => "Cancelled"@,
        ErrorCode::RuntimeUnavailable => "RuntimeUnavailable"@,
        ErrorCode::BudgetExceeded => "BudgetExceeded"@,
        ErrorCode::ClockUnavailable => "ClockUnavailable"@,
        ErrorCode::ClockRegression => "ClockRegression"@,
        ErrorCode::IdGenerationFailed => "IdGenerationFailed"@,
        ErrorCode::InvalidJson => "InvalidJson"@,
        ErrorCode::InvalidContract => "InvalidContract"@,
        ErrorCode::ModelNotRegistered => "ModelNotRegistered"@,
        ErrorCode::ModelBindingInvalid => "ModelBindingInvalid"@,
        ErrorCode::ModelCapabilityUnsupported => "ModelCapabilityUnsupported"@,
        ErrorCode::ModelOptionUnsupported => "ModelOptionUnsupported"@,
        ErrorCode::ModelVersionUnpinned => "ModelVersionUnpinned"@,
        ErrorCode::ModelVersionDrift => "ModelVersionDrift"@,
        ErrorCode::ModelInspectionUnavailable => "ModelInspectionUnavailable"@,
        ErrorCode::ModelAttemptUnresolved => "ModelAttemptUnresolved"@,
        ErrorCode::ModelUnavailable => "ModelUnavailable"@,
        ErrorCode::ModelCatalogMismatch => "ModelCatalogMismatch"@,
        ErrorCode::ModelRoutingInvalid => "ModelRoutingInvalid"@,
        ErrorCode::ModelRoutingMismatch => "ModelRoutingMismatch"@,
        ErrorCode::ModelRouteDenied => "ModelRouteDenied"@,
        ErrorCode::ModelRoutesExhausted => "ModelRoutesExhausted"@,
        ErrorCode::ModelSupportInsufficient => "ModelSupportInsufficient"@,
        ErrorCode::ModelContextIncompatible => "ModelContextIncompatible"@,
        ErrorCode::InvalidToolInputContract => "InvalidToolInputContract"@,
        ErrorCode::UnsupportedInputProjection => "UnsupportedInputProjection"@,
        ErrorCode::InvalidArguments => "InvalidArguments"@,
        ErrorCode::ToolEffectUnresolved => "ToolEffectUnresolved"@,
        ErrorCode::SystemInputInvalid => "SystemInputInvalid"@,
        ErrorCode::SystemInputMissing => "SystemInputMissing"@,
        ErrorCode::SystemInputUnavailable => "SystemInputUnavailable"@,
        ErrorCode::SystemInputsMismatch => "SystemInputsMismatch"@,
        ErrorCode::SystemInputApprovalRequired => "SystemInputApprovalRequired"@,
        ErrorCode::InputBindingLimitExceeded => "InputBindingLimitExceeded"@,
        ErrorCode::InvalidContext => "InvalidContext"@,
        ErrorCode::ContextMismatch => "ContextMismatch"@,
        ErrorCode::ContextBudgetExceeded => "ContextBudgetExceeded"@,
        ErrorCode::ContextSourceUnavailable => "ContextSourceUnavailable"@,
        ErrorCode::ContextApprovalRequired => "ContextApprovalRequired"@,
        ErrorCode::UnsupportedSchemaVersion => "UnsupportedSchemaVersion"@,
        ErrorCode::InvalidReference => "InvalidReference"@,
        ErrorCode::ComponentUnavailable => "ComponentUnavailable"@,
        ErrorCode::UnsupportedContractVersion => "UnsupportedContractVersion"@,
        ErrorCode::CapabilityUnsupported => "CapabilityUnsupported"@,
        ErrorCode::InvalidConfiguration => "InvalidConfiguration"@,
        ErrorCode::InvalidSchema => "InvalidSchema"@,
        ErrorCode::ProfileMismatch => "ProfileMismatch"@,
        ErrorCode::InvalidSnapshot => "InvalidSnapshot"@,
        ErrorCode::StateNotFound => "StateNotFound"@,
        ErrorCode::RecordExpired => "RecordExpired"@,
        ErrorCode::RequestConflict => "RequestConflict"@,
        ErrorCode::SessionBusy => "SessionBusy"@,
        ErrorCode::RunConflict => "RunConflict"@,
        ErrorCode::RevisionConflict => "RevisionConflict"@,
        ErrorCode::LeaseBusy => "LeaseBusy"@,
        ErrorCode::LeaseLost => "LeaseLost"@,
        ErrorCode::InvalidTransition => "InvalidTransition"@,
        ErrorCode::InvalidEvent => "InvalidEvent"@,
        ErrorCode::InvalidMessage => "InvalidMessage"@,
        ErrorCode::RecordConflict => "RecordConflict"@,
        ErrorCode::PersistenceUnavailable => "PersistenceUnavailable"@,
    }
}

impl ErrorCode {
    /// The category in words.
    pub fn title(self) -> (r: &'static str)
        ensures
            r@ == code_title(self),
    {
        match self {
            ErrorCode::VerificationUnavailable => "VerificationUnavailable",
            ErrorCode::AccessDenied => "AccessDenied",
            ErrorCode::InvalidArtifact => "InvalidArtifact",
            ErrorCode::ArtifactApprovalRequired => "ArtifactApprovalRequired",
            ErrorCode::InvalidSkill => "InvalidSkill",
            ErrorCode::InvalidContextSelection => "InvalidContextSelection",
            ErrorCode::ContextCompactionNoReduction => "ContextCompactionNoReduction",
            ErrorCode::ContextCompactionFailed => "ContextCompactionFailed",
            ErrorCode::SkillApprovalRequired => "SkillApprovalRequired",
            ErrorCode::PolicyUnavailable => "PolicyUnavailable",
            ErrorCode::DeadlineExceeded => "DeadlineExceeded",
            ErrorCode::Cancelled => "Cancelled",
            ErrorCode::RuntimeUnavailable => "RuntimeUnavailable",
            ErrorCode::BudgetExceeded => "BudgetExceeded",
            ErrorCode::ClockUnavailable => "ClockUnavailable",
            ErrorCode::ClockRegression => "ClockRegression",
            ErrorCode::IdGenerationFailed => "IdGenerationFailed",
            ErrorCode::InvalidJson => "InvalidJson",
            ErrorCode::InvalidContract => "InvalidContract",
            ErrorCode::ModelNotRegistered => "ModelNotRegistered",
            ErrorCode::ModelBindingInvalid => "ModelBindingInvalid",
            ErrorCode::ModelCapabilityUnsupported => "ModelCapabilityUnsupported",
            ErrorCode::ModelOptionUnsupported => "ModelOptionUnsupported",
            ErrorCode::ModelVersionUnpinned => "ModelVersionUnpinned",
            ErrorCode::ModelVersionDrift => "ModelVersionDrift",
            ErrorCode::ModelInspectionUnavailable => "ModelInspectionUnavailable",
            ErrorCode::ModelAttemptUnresolved => "ModelAttemptUnresolved",
            ErrorCode::ModelUnavailable => "ModelUnavailable",
            ErrorCode::ModelCatalogMismatch => "ModelCatalogMismatch",
            ErrorCode::ModelRoutingInvalid => "ModelRoutingInvalid",
            ErrorCode::ModelRoutingMismatch => "ModelRoutingMismatch",
            ErrorCode::ModelRouteDenied => "ModelRouteDenied",
            ErrorCode::ModelRoutesExhausted => "ModelRoutesExhausted",
            ErrorCode::ModelSupportInsufficient => "ModelSupportInsufficient",
            ErrorCode::ModelContextIncompatible => "ModelContextIncompatible",
            ErrorCode::InvalidToolInputContract => "InvalidToolInputContract",
            ErrorCode::UnsupportedInputProjection => "UnsupportedInputProjection",
            ErrorCode::InvalidArguments => "InvalidArguments",
            ErrorCode::ToolEffectUnresolved => "ToolEffectUnresolved",
            ErrorCode::SystemInputInvalid => "SystemInputInvalid",
            ErrorCode::SystemInputMissing => "SystemInputMissing",
            ErrorCode::SystemInputUnavailable => "SystemInputUnavailable",
            ErrorCode::SystemInputsMismatch => "SystemInputsMismatch",
            ErrorCode::SystemInputApprovalRequired => "SystemInputApprovalRequired",
            ErrorCode::InputBindingLimitExceeded => "InputBindingLimitExceeded",
            ErrorCode::InvalidContext => "InvalidContext",
            ErrorCode::ContextMismatch => "ContextMismatch",
            ErrorCode::ContextBudgetExceeded => "ContextBudgetExceeded",
            ErrorCode::ContextSourceUnavailable => "ContextSourceUnavailable",
            ErrorCode::ContextApprovalRequired => "ContextApprovalRequired",
            ErrorCode::UnsupportedSchemaVersion => "UnsupportedSchemaVersion",
            ErrorCode::InvalidReference => "InvalidReference",
            ErrorCode::ComponentUnavailable => "ComponentUnavailable",
            ErrorCode::UnsupportedContractVersion => "UnsupportedContractVersion",
            ErrorCode::CapabilityUnsupported => "CapabilityUnsupported",
            ErrorCode::InvalidConfiguration => "InvalidConfiguration",
            ErrorCode::InvalidSchema => "InvalidSchema",
            ErrorCode::ProfileMismatch => "ProfileMismatch",
            ErrorCode::InvalidSnapshot => "InvalidSnapshot",
            ErrorCode::StateNotFound => "StateNotFound",
            ErrorCode::RecordExpired => "RecordExpired",
            ErrorCode::RequestConflict => "RequestConflict",
            ErrorCode::SessionBusy => "SessionBusy",
            ErrorCode::RunConflict => "RunConflict",
            ErrorCode::RevisionConflict => "RevisionConflict",
            ErrorCode::LeaseBusy => "LeaseBusy",
            ErrorCode::LeaseLost => "LeaseLost",
            ErrorCode::InvalidTransition => "InvalidTransition",
            ErrorCode::InvalidEvent => "InvalidEvent",
            ErrorCode::InvalidMessage => "InvalidMessage",
            ErrorCode::RecordConflict => "RecordConflict",
            ErrorCode::PersistenceUnavailable => "PersistenceUnavailable",
        }
    }
}

/// Diagnostics of a run whose durable storage is unavailable, for those who may see them.
#[derive(Debug)]
pub struct PersistenceFailure {
    /// The encoded diagnostics.
    pub document: Json,
}

#[verifier::ext_equal]
pub struct PersistenceFailureView {
    pub document: JsonView,
}

impl View for PersistenceFailure {
    type V = PersistenceFailureView;

    open spec fn view(&self) -> PersistenceFailureView {
        PersistenceFailureView {
            document: self.document.deep_view(),
        }
    }
}

impl DeepView for PersistenceFailure {
    type V = PersistenceFailureView;

    open spec fn deep_view(&self) -> PersistenceFailureView {
        self@
    }
}

impl Data for PersistenceFailure {
    fn same(&self, other: &Self) -> (r: bool) {
        self.document.same(&other.document)
    }

    fn copy(&self) -> (r: Self) {
        PersistenceFailure {
            document: self.document.copy(),
        }
    }
}


/// A validation error that does not retain submitted values or credentials.
#[derive(Debug)]
pub struct ContractError {
    /// Machine-readable failure category.
    pub code: ErrorCode,
    /// Contract field or reference location, without submitted values.
    pub path: String,
    /// Authorized run diagnostics when durable storage is unavailable.
    pub persistence: Option<Box<PersistenceFailure>>,
}

/// What a failure says: its category, its location and what it brings along.
#[verifier::ext_equal]
pub struct Fault {
    pub code: ErrorCode,
    pub path: Seq<char>,
    pub persistence: Option<PersistenceFailureView>,
}

impl View for ContractError {
    type V = Fault;

    open spec fn view(&self) -> Fault {
        Fault {
            code: self.code,
            path: self.path@,
            persistence: self.persistence.deep_view(),
        }
    }
}

impl DeepView for ContractError {
    type V = Fault;

    open spec fn deep_view(&self) -> Fault {
        self@
    }
}

impl Data for ContractError {
    fn same(&self, other: &Self) -> (r: bool) {
        self.code == other.code && self.path.same(&other.path) && self.persistence.same(
            &other.persistence,
        )
    }

    fn copy(&self) -> (r: Self) {
        ContractError {
            code: self.code,
            path: self.path.copy(),
            persistence: self.persistence.copy(),
        }
    }
}

impl ContractError {
    /// Construct an error using a safe contract location.
    pub fn new(code: ErrorCode, path: &str) -> (r: Self)
        ensures
            r@ == (Fault { code, path: path@, persistence: None }),
    {
        ContractError { code, path: path.to_owned(), persistence: None }
    }

    /// The category and the location in words.
    pub fn message(&self) -> (r: String)
        ensures
            r@ == code_title(self@.code) + " at "@ + self@.path,
    {
        let category = concat(self.code.title(), " at ");
        concat(category.as_str(), self.path.as_str())
    }
}

/// The failure `code` at `path`.
pub open spec fn fault(code: ErrorCode, path: &str) -> Option<Fault> {
    Some(Fault { code, path: path@, persistence: None })
}

/// The failure that a result carries, if it carries one.
pub open spec fn failure<T>(result: Result<T, ContractError>) -> Option<Fault> {
    match result {
        Ok(_) => None,
        Err(error) => Some(error@),
    }
}

/// The first of two checks that fails.
pub open spec fn or_else(first: Option<Fault>, second: Option<Fault>) -> Option<Fault> {
    if first is Some {
        first
    } else {
        second
    }
}

/// Fail with `code` at `path`.
pub fn fail<T>(code: ErrorCode, path: &str) -> (r: Result<T, ContractError>)
    ensures
        r is Err,
        failure(r) == fault(code, path),
{
    Err(ContractError::new(code, path))
}

/// Turn a recorded verdict into a result.
pub fn verdict(recorded: &Option<ContractError>) -> (r: Result<(), ContractError>)
    ensures
        failure(r) == recorded.deep_view(),
{
    match recorded {
        Some(error) => Err(error.copy()),
        None => Ok(()),
    }
}

impl ErrorCode {
    /// The stable name of a code.
    pub open spec fn name(self) -> Seq<char> {
        match self {
            ErrorCode::VerificationUnavailable => "verification_unavailable"@,
            ErrorCode::AccessDenied => "access_denied"@,
            ErrorCode::InvalidArtifact => "invalid_artifact"@,
            ErrorCode::ArtifactApprovalRequired => "artifact_approval_required"@,
            ErrorCode::InvalidSkill => "invalid_skill"@,
            ErrorCode::InvalidContextSelection => "invalid_context_selection"@,
            ErrorCode::ContextCompactionNoReduction => "context_compaction_no_reduction"@,
            ErrorCode::ContextCompactionFailed => "context_compaction_failed"@,
            ErrorCode::SkillApprovalRequired => "skill_approval_required"@,
            ErrorCode::PolicyUnavailable => "policy_unavailable"@,
            ErrorCode::DeadlineExceeded => "deadline_exceeded"@,
            ErrorCode::Cancelled => "cancelled"@,
            ErrorCode::RuntimeUnavailable => "runtime_unavailable"@,
            ErrorCode::BudgetExceeded => "budget_exceeded"@,
            ErrorCode::ClockUnavailable => "clock_unavailable"@,
            ErrorCode::ClockRegression => "clock_regression"@,
            ErrorCode::IdGenerationFailed => "id_generation_failed"@,
            ErrorCode::InvalidJson => "invalid_json"@,
            ErrorCode::InvalidContract => "invalid_contract"@,
            ErrorCode::ModelNotRegistered => "model_not_registered"@,
            ErrorCode::ModelBindingInvalid => "model_binding_invalid"@,
            ErrorCode::ModelCapabilityUnsupported => "model_capability_unsupported"@,
            ErrorCode::ModelOptionUnsupported => "model_option_unsupported"@,
            ErrorCode::ModelVersionUnpinned => "model_version_unpinned"@,
            ErrorCode::ModelVersionDrift => "model_version_drift"@,
            ErrorCode::ModelInspectionUnavailable => "model_inspection_unavailable"@,
            ErrorCode::ModelAttemptUnresolved => "model_attempt_unresolved"@,
            ErrorCode::ModelUnavailable => "model_unavailable"@,
            ErrorCode::ModelCatalogMismatch => "model_catalog_mismatch"@,
            ErrorCode::ModelRoutingInvalid => "model_routing_invalid"@,
            ErrorCode::ModelRoutingMismatch => "model_routing_mismatch"@,
            ErrorCode::ModelRouteDenied => "model_route_denied"@,
            ErrorCode::ModelRoutesExhausted => "model_routes_exhausted"@,
            ErrorCode::ModelSupportInsufficient => "model_support_insufficient"@,
            ErrorCode::ModelContextIncompatible => "model_context_incompatible"@,
            ErrorCode::InvalidToolInputContract => "invalid_tool_input_contract"@,
            ErrorCode::UnsupportedInputProjection => "unsupported_input_projection"@,
            ErrorCode::InvalidArguments => "invalid_arguments"@,
            ErrorCode::ToolEffectUnresolved => "tool_effect_unresolved"@,
            ErrorCode::SystemInputInvalid => "system_input_invalid"@,
            ErrorCode::SystemInputMissing => "system_input_missing"@,
            ErrorCode::SystemInputUnavailable => "system_input_unavailable"@,
            ErrorCode::SystemInputsMismatch => "system_inputs_mismatch"@,
            ErrorCode::SystemInputApprovalRequired => "system_input_approval_required"@,
            ErrorCode::InputBindingLimitExceeded => "input_binding_limit_exceeded"@,
            ErrorCode::InvalidContext => "invalid_context"@,
            ErrorCode::ContextMismatch => "context_mismatch"@,
            ErrorCode::ContextBudgetExceeded => "context_budget_exceeded"@,
            ErrorCode::ContextSourceUnavailable => "context_source_unavailable"@,
            ErrorCode::ContextApprovalRequired => "context_approval_required"@,
            ErrorCode::UnsupportedSchemaVersion => "unsupported_schema_version"@,
            ErrorCode::InvalidReference => "invalid_reference"@,
            ErrorCode::ComponentUnavailable => "component_unavailable"@,
            ErrorCode::UnsupportedContractVersion => "unsupported_contract_version"@,
            ErrorCode::CapabilityUnsupported => "capability_unsupported"@,
            ErrorCode::InvalidConfiguration => "invalid_configuration"@,
            ErrorCode::InvalidSchema => "invalid_schema"@,
            ErrorCode::ProfileMismatch => "profile_mismatch"@,
            ErrorCode::InvalidSnapshot => "invalid_snapshot"@,
            ErrorCode::StateNotFound => "state_not_found"@,
            ErrorCode::RecordExpired => "record_expired"@,
            ErrorCode::RequestConflict => "request_conflict"@,
            ErrorCode::SessionBusy => "session_busy"@,
            ErrorCode::RunConflict => "run_conflict"@,
            ErrorCode::RevisionConflict => "revision_conflict"@,
            ErrorCode::LeaseBusy => "lease_busy"@,
            ErrorCode::LeaseLost => "lease_lost"@,
            ErrorCode::InvalidTransition => "invalid_transition"@,
            ErrorCode::InvalidEvent => "invalid_event"@,
            ErrorCode::InvalidMessage => "invalid_message"@,
            ErrorCode::RecordConflict => "record_conflict"@,
            ErrorCode::PersistenceUnavailable => "persistence_unavailable"@,
        }
    }

    /// The stable name of a code.
    pub fn as_str(self) -> (r: &'static str)
        ensures
            r@ == self.name(),
    {
        match self {
            ErrorCode::VerificationUnavailable => "verification_unavailable",
            ErrorCode::AccessDenied => "access_denied",
            ErrorCode::InvalidArtifact => "invalid_artifact",
            ErrorCode::ArtifactApprovalRequired => "artifact_approval_required",
            ErrorCode::InvalidSkill => "invalid_skill",
            ErrorCode::InvalidContextSelection => "invalid_context_selection",
            ErrorCode::ContextCompactionNoReduction => "context_compaction_no_reduction",
            ErrorCode::ContextCompactionFailed => "context_compaction_failed",
            ErrorCode::SkillApprovalRequired => "skill_approval_required",
            ErrorCode::PolicyUnavailable => "policy_unavailable",
            ErrorCode::DeadlineExceeded => "deadline_exceeded",
            ErrorCode::Cancelled => "cancelled",
            ErrorCode::RuntimeUnavailable => "runtime_unavailable",
            ErrorCode::BudgetExceeded => "budget_exceeded",
            ErrorCode::ClockUnavailable => "clock_unavailable",
            ErrorCode::ClockRegression => "clock_regression",
            ErrorCode::IdGenerationFailed => "id_generation_failed",
            ErrorCode::InvalidJson => "invalid_json",
            ErrorCode::InvalidContract => "invalid_contract",
            ErrorCode::ModelNotRegistered => "model_not_registered",
            ErrorCode::ModelBindingInvalid => "model_binding_invalid",
            ErrorCode::ModelCapabilityUnsupported => "model_capability_unsupported",
            ErrorCode::ModelOptionUnsupported => "model_option_unsupported",
            ErrorCode::ModelVersionUnpinned => "model_version_unpinned",
            ErrorCode::ModelVersionDrift => "model_version_drift",
            ErrorCode::ModelInspectionUnavailable => "model_inspection_unavailable",
            ErrorCode::ModelAttemptUnresolved => "model_attempt_unresolved",
            ErrorCode::ModelUnavailable => "model_unavailable",
            ErrorCode::ModelCatalogMismatch => "model_catalog_mismatch",
            ErrorCode::ModelRoutingInvalid => "model_routing_invalid",
            ErrorCode::ModelRoutingMismatch => "model_routing_mismatch",
            ErrorCode::ModelRouteDenied => "model_route_denied",
            ErrorCode::ModelRoutesExhausted => "model_routes_exhausted",
            ErrorCode::ModelSupportInsufficient => "model_support_insufficient",
            ErrorCode::ModelContextIncompatible => "model_context_incompatible",
            ErrorCode::InvalidToolInputContract => "invalid_tool_input_contract",
            ErrorCode::UnsupportedInputProjection => "unsupported_input_projection",
            ErrorCode::InvalidArguments => "invalid_arguments",
            ErrorCode::ToolEffectUnresolved => "tool_effect_unresolved",
            ErrorCode::SystemInputInvalid => "system_input_invalid",
            ErrorCode::SystemInputMissing => "system_input_missing",
            ErrorCode::SystemInputUnavailable => "system_input_unavailable",
            ErrorCode::SystemInputsMismatch => "system_inputs_mismatch",
            ErrorCode::SystemInputApprovalRequired => "system_input_approval_required",
            ErrorCode::InputBindingLimitExceeded => "input_binding_limit_exceeded",
            ErrorCode::InvalidContext => "invalid_context",
            ErrorCode::ContextMismatch => "context_mismatch",
            ErrorCode::ContextBudgetExceeded => "context_budget_exceeded",
            ErrorCode::ContextSourceUnavailable => "context_source_unavailable",
            ErrorCode::ContextApprovalRequired => "context_approval_required",
            ErrorCode::UnsupportedSchemaVersion => "unsupported_schema_version",
            ErrorCode::InvalidReference => "invalid_reference",
            ErrorCode::ComponentUnavailable => "component_unavailable",
            ErrorCode::UnsupportedContractVersion => "unsupported_contract_version",
            ErrorCode::CapabilityUnsupported => "capability_unsupported",
            ErrorCode::InvalidConfiguration => "invalid_configuration",
            ErrorCode::InvalidSchema => "invalid_schema",
            ErrorCode::ProfileMismatch => "profile_mismatch",
            ErrorCode::InvalidSnapshot => "invalid_snapshot",
            ErrorCode::StateNotFound => "state_not_found",
            ErrorCode::RecordExpired => "record_expired",
            ErrorCode::RequestConflict => "request_conflict",
            ErrorCode::SessionBusy => "session_busy",
            ErrorCode::RunConflict => "run_conflict",
            ErrorCode::RevisionConflict => "revision_conflict",
            ErrorCode::LeaseBusy => "lease_busy",
            ErrorCode::LeaseLost => "lease_lost",
            ErrorCode::InvalidTransition => "invalid_transition",
            ErrorCode::InvalidEvent => "invalid_event",
            ErrorCode::InvalidMessage => "invalid_message",
            ErrorCode::RecordConflict => "record_conflict",
            ErrorCode::PersistenceUnavailable => "persistence_unavailable",
        }
    }
}

/// No code has a blank name.
pub proof fn lemma_codes_are_named(code: ErrorCode)
    ensures
        !blank(code.name()),
{
    match code {
        ErrorCode::VerificationUnavailable => {
            reveal_strlit("verification_unavailable");
            assert(!white_space("verification_unavailable"@[0]));
        },
        ErrorCode::AccessDenied => {
            reveal_strlit("access_denied");
            assert(!white_space("access_denied"@[0]));
        },
        ErrorCode::InvalidArtifact => {
            reveal_strlit("invalid_artifact");
            assert(!white_space("invalid_artifact"@[0]));
        },
        ErrorCode::ArtifactApprovalRequired => {
            reveal_strlit("artifact_approval_required");
            assert(!white_space("artifact_approval_required"@[0]));
        },
        ErrorCode::InvalidSkill => {
            reveal_strlit("invalid_skill");
            assert(!white_space("invalid_skill"@[0]));
        },
        ErrorCode::InvalidContextSelection => {
            reveal_strlit("invalid_context_selection");
            assert(!white_space("invalid_context_selection"@[0]));
        },
        ErrorCode::ContextCompactionNoReduction => {
            reveal_strlit("context_compaction_no_reduction");
            assert(!white_space("context_compaction_no_reduction"@[0]));
        },
        ErrorCode::ContextCompactionFailed => {
            reveal_strlit("context_compaction_failed");
            assert(!white_space("context_compaction_failed"@[0]));
        },
        ErrorCode::SkillApprovalRequired => {
            reveal_strlit("skill_approval_required");
            assert(!white_space("skill_approval_required"@[0]));
        },
        ErrorCode::PolicyUnavailable => {
            reveal_strlit("policy_unavailable");
            assert(!white_space("policy_unavailable"@[0]));
        },
        ErrorCode::DeadlineExceeded => {
            reveal_strlit("deadline_exceeded");
            assert(!white_space("deadline_exceeded"@[0]));
        },
        ErrorCode::Cancelled => {
            reveal_strlit("cancelled");
            assert(!white_space("cancelled"@[0]));
        },
        ErrorCode::RuntimeUnavailable => {
            reveal_strlit("runtime_unavailable");
            assert(!white_space("runtime_unavailable"@[0]));
        },
        ErrorCode::BudgetExceeded => {
            reveal_strlit("budget_exceeded");
            assert(!white_space("budget_exceeded"@[0]));
        },
        ErrorCode::ClockUnavailable => {
            reveal_strlit("clock_unavailable");
            assert(!white_space("clock_unavailable"@[0]));
        },
        ErrorCode::ClockRegression => {
            reveal_strlit("clock_regression");
            assert(!white_space("clock_regression"@[0]));
        },
        ErrorCode::IdGenerationFailed => {
            reveal_strlit("id_generation_failed");
            assert(!white_space("id_generation_failed"@[0]));
        },
        ErrorCode::InvalidJson => {
            reveal_strlit("invalid_json");
            assert(!white_space("invalid_json"@[0]));
        },
        ErrorCode::InvalidContract => {
            reveal_strlit("invalid_contract");
            assert(!white_space("invalid_contract"@[0]));
        },
        ErrorCode::ModelNotRegistered => {
            reveal_strlit("model_not_registered");
            assert(!white_space("model_not_registered"@[0]));
        },
        ErrorCode::ModelBindingInvalid => {
            reveal_strlit("model_binding_invalid");
            assert(!white_space("model_binding_invalid"@[0]));
        },
        ErrorCode::ModelCapabilityUnsupported => {
            reveal_strlit("model_capability_unsupported");
            assert(!white_space("model_capability_unsupported"@[0]));
        },
        ErrorCode::ModelOptionUnsupported => {
            reveal_strlit("model_option_unsupported");
            assert(!white_space("model_option_unsupported"@[0]));
        },
        ErrorCode::ModelVersionUnpinned => {
            reveal_strlit("model_version_unpinned");
            assert(!white_space("model_version_unpinned"@[0]));
        },
        ErrorCode::ModelVersionDrift => {
            reveal_strlit("model_version_drift");
            assert(!white_space("model_version_drift"@[0]));
        },
        ErrorCode::ModelInspectionUnavailable => {
            reveal_strlit("model_inspection_unavailable");
            assert(!white_space("model_inspection_unavailable"@[0]));
        },
        ErrorCode::ModelAttemptUnresolved => {
            reveal_strlit("model_attempt_unresolved");
            assert(!white_space("model_attempt_unresolved"@[0]));
        },
        ErrorCode::ModelUnavailable => {
            reveal_strlit("model_unavailable");
            assert(!white_space("model_unavailable"@[0]));
        },
        ErrorCode::ModelCatalogMismatch => {
            reveal_strlit("model_catalog_mismatch");
            assert(!white_space("model_catalog_mismatch"@[0]));
        },
        ErrorCode::ModelRoutingInvalid => {
            reveal_strlit("model_routing_invalid");
            assert(!white_space("model_routing_invalid"@[0]));
        },
        ErrorCode::ModelRoutingMismatch => {
            reveal_strlit("model_routing_mismatch");
            assert(!white_space("model_routing_mismatch"@[0]));
        },
        ErrorCode::ModelRouteDenied => {
            reveal_strlit("model_route_denied");
            assert(!white_space("model_route_denied"@[0]));
        },
        ErrorCode::ModelRoutesExhausted => {
            reveal_strlit("model_routes_exhausted");
            assert(!white_space("model_routes_exhausted"@[0]));
        },
        ErrorCode::ModelSupportInsufficient => {
            reveal_strlit("model_support_insufficient");
            assert(!white_space("model_support_insufficient"@[0]));
        },
        ErrorCode::ModelContextIncompatible => {
            reveal_strlit("model_context_incompatible");
            assert(!white_space("model_context_incompatible"@[0]));
        },
        ErrorCode::InvalidToolInputContract => {
            reveal_strlit("invalid_tool_input_contract");
            assert(!white_space("invalid_tool_input_contract"@[0]));
        },
        ErrorCode::UnsupportedInputProjection => {
            reveal_strlit("unsupported_input_projection");
            assert(!white_space("unsupported_input_projection"@[0]));
        },
        ErrorCode::InvalidArguments => {
            reveal_strlit("invalid_arguments");
            assert(!white_space("invalid_arguments"@[0]));
        },
        ErrorCode::ToolEffectUnresolved => {
            reveal_strlit("tool_effect_unresolved");
            assert(!white_space("tool_effect_unresolved"@[0]));
        },
        ErrorCode::SystemInputInvalid => {
            reveal_strlit("system_input_invalid");
            assert(!white_space("system_input_invalid"@[0]));
        },
        ErrorCode::SystemInputMissing => {
            reveal_strlit("system_input_missing");
            assert(!white_space("system_input_missing"@[0]));
        },
        ErrorCode::SystemInputUnavailable => {
            reveal_strlit("system_input_unavailable");
            assert(!white_space("system_input_unavailable"@[0]));
        },
        ErrorCode::SystemInputsMismatch => {
            reveal_strlit("system_inputs_mismatch");
            assert(!white_space("system_inputs_mismatch"@[0]));
        },
        ErrorCode::SystemInputApprovalRequired => {
            reveal_strlit("system_input_approval_required");
            assert(!white_space("system_input_approval_required"@[0]));
        },
        ErrorCode::InputBindingLimitExceeded => {
            reveal_strlit("input_binding_limit_exceeded");
            assert(!white_space("input_binding_limit_exceeded"@[0]));
        },
        ErrorCode::InvalidContext => {
            reveal_strlit("invalid_context");
            assert(!white_space("invalid_context"@[0]));
        },
        ErrorCode::ContextMismatch => {
            reveal_strlit("context_mismatch");
            assert(!white_space("context_mismatch"@[0]));
        },
        ErrorCode::ContextBudgetExceeded => {
            reveal_strlit("context_budget_exceeded");
            assert(!white_space("context_budget_exceeded"@[0]));
        },
        ErrorCode::ContextSourceUnavailable => {
            reveal_strlit("context_source_unavailable");
            assert(!white_space("context_source_unavailable"@[0]));
        },
        ErrorCode::ContextApprovalRequired => {
            reveal_strlit("context_approval_required");
            assert(!white_space("context_approval_required"@[0]));
        },
        ErrorCode::UnsupportedSchemaVersion => {
            reveal_strlit("unsupported_schema_version");
            assert(!white_space("unsupported_schema_version"@[0]));
        },
        ErrorCode::InvalidReference => {
            reveal_strlit("invalid_reference");
            assert(!white_space("invalid_reference"@[0]));
        },
        ErrorCode::ComponentUnavailable => {
            reveal_strlit("component_unavailable");
            assert(!white_space("component_unavailable"@[0]));
        },
        ErrorCode::UnsupportedContractVersion => {
            reveal_strlit("unsupported_contract_version");
            assert(!white_space("unsupported_contract_version"@[0]));
        },
        ErrorCode::CapabilityUnsupported => {
            reveal_strlit("capability_unsupported");
            assert(!white_space("capability_unsupported"@[0]));
        },
        ErrorCode::InvalidConfiguration => {
            reveal_strlit("invalid_configuration");
            assert(!white_space("invalid_configuration"@[0]));
        },
        ErrorCode::InvalidSchema => {
            reveal_strlit("invalid_schema");
            assert(!white_space("invalid_schema"@[0]));
        },
        ErrorCode::ProfileMismatch => {
            reveal_strlit("profile_mismatch");
            assert(!white_space("profile_mismatch"@[0]));
        },
        ErrorCode::InvalidSnapshot => {
            reveal_strlit("invalid_snapshot");
            assert(!white_space("invalid_snapshot"@[0]));
        },
        ErrorCode::StateNotFound => {
            reveal_strlit("state_not_found");
            assert(!white_space("state_not_found"@[0]));
        },
        ErrorCode::RecordExpired => {
            reveal_strlit("record_expired");
            assert(!white_space("record_expired"@[0]));
        },
        ErrorCode::RequestConflict => {
            reveal_strlit("request_conflict");
            assert(!white_space("request_conflict"@[0]));
        },
        ErrorCode::SessionBusy => {
            reveal_strlit("session_busy");
            assert(!white_space("session_busy"@[0]));
        },
        ErrorCode::RunConflict => {
            reveal_strlit("run_conflict");
            assert(!white_space("run_conflict"@[0]));
        },
        ErrorCode::RevisionConflict => {
            reveal_strlit("revision_conflict");
            assert(!white_space("revision_conflict"@[0]));
        },
        ErrorCode::LeaseBusy => {
            reveal_strlit("lease_busy");
            assert(!white_space("lease_busy"@[0]));
        },
        ErrorCode::LeaseLost => {
            reveal_strlit("lease_lost");
            assert(!white_space("lease_lost"@[0]));
        },
        ErrorCode::InvalidTransition => {
            reveal_strlit("invalid_transition");
            assert(!white_space("invalid_transition"@[0]));
        },
        ErrorCode::InvalidEvent => {
            reveal_strlit("invalid_event");
            assert(!white_space("invalid_event"@[0]));
        },
        ErrorCode::InvalidMessage => {
            reveal_strlit("invalid_message");
            assert(!white_space("invalid_message"@[0]));
        },
        ErrorCode::RecordConflict => {
            reveal_strlit("record_conflict");
            assert(!white_space("record_conflict"@[0]));
        },
        ErrorCode::PersistenceUnavailable => {
            reveal_strlit("persistence_unavailable");
            assert(!white_space("persistence_unavailable"@[0]));
        },
    }
}

} // verus!
