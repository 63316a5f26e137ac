//! Persistable execution contracts: submitted requests, segments, controls and their history.
use vstd::prelude::*;
#[allow(unused_imports)]
use vstd::utf8::encode_utf8;

use crate::content::Message;
#[allow(unused_imports)]
use crate::content::MessageView;
use crate::data::{keep, Data};
#[allow(unused_imports)]
use crate::data::kept;
use crate::encoding::{encode_versioned, no_members, with_member};
#[allow(unused_imports)]
use crate::encoding::versioned_json;
use crate::error::{fail, verdict, ContractError, ErrorCode};
#[allow(unused_imports)]
use crate::error::{failure, fault, or_else, Fault};
use crate::json::{member_value, object, text, Json, Member};
#[allow(unused_imports)]
use crate::json::{
    get_of, lemma_absent_key, lemma_object_view, lemma_put_value, put, value_of, JsonView,
    MemberView,
};
use crate::model::ModelPurpose;
use crate::reader::{hold_values, JsonText, Reading};
#[allow(unused_imports)]
use crate::reader::{
    law_values_follow_what_is_written, raw_text, reading_of, valued, ReadingView, MAX_DEPTH,
};
use crate::refs::{RecordRef, Scope, VersionedRef};
#[allow(unused_imports)]
use crate::refs::{RecordRefView, ScopeView, VersionedRefView};
use crate::run::{ResumeCommand, RunEvent, RunOutcome, RunPhase, RunRequest, RunSnapshot};
#[allow(unused_imports)]
use crate::run::{
    ResumeCommandView, RunEventView, RunOutcomeView, RunRequestView, RunSnapshotView,
};
use crate::serialization::{
    canonical_digest, canonical_json, is_unambiguous, submitted_digest, Id, JsonDigest,
};
#[allow(unused_imports)]
use crate::serialization::{
    canonical_text, digest_of, lemma_member_parts, member_parts, sha256_hex, submitted_digest_of,
    unambiguous,
};
use crate::state::memory_store::StateStoreCapabilities;
#[allow(unused_imports)]
use crate::state::memory_store::StateStoreCapabilitiesView;
use crate::state::records::ProtectedRecord;
#[allow(unused_imports)]
use crate::state::records::ProtectedRecordView;
use crate::state::scope::{RunLease, StoredRun};
#[allow(unused_imports)]
use crate::state::scope::{RunLeaseView, StoredRunView};
#[allow(unused_imports)]
use crate::text::precedes;
use crate::text::reads;

verus! {

/// Version of protected segment and prepared-step records.
#[derive(Debug, Clone, Copy, PartialEq, Eq, Structural)]
pub enum ExecutionRecordVersion {
    /// First execution-record contract.
    V1,
}

impl View for ExecutionRecordVersion {
    type V = ExecutionRecordVersion;

    open spec fn view(&self) -> ExecutionRecordVersion {
        *self
    }
}

impl DeepView for ExecutionRecordVersion {
    type V = ExecutionRecordVersion;

    open spec fn deep_view(&self) -> ExecutionRecordVersion {
        *self
    }
}

impl Data for ExecutionRecordVersion {
    fn same(&self, other: &Self) -> (r: bool) {
        *self == *other
    }

    fn copy(&self) -> (r: Self) {
        *self
    }
}

/// Application-defined state, distinct from core execution status.
#[derive(Debug)]
pub struct AppState {
    /// Registered Host schema namespace.
    pub namespace: Id,
    /// Host-defined business status.
    pub status: Id,
    /// Validated against the registered Host schema before persistence.
    pub metadata: Vec<Member>,
}

#[verifier::ext_equal]
pub struct AppStateView {
    pub namespace: Seq<char>,
    pub status: Seq<char>,
    pub metadata: Seq<MemberView>,
}

impl View for AppState {
    type V = AppStateView;

    open spec fn view(&self) -> AppStateView {
        AppStateView {
            namespace: self.namespace.deep_view(),
            status: self.status.deep_view(),
            metadata: self.metadata.deep_view(),
        }
    }
}

impl DeepView for AppState {
    type V = AppStateView;

    open spec fn deep_view(&self) -> AppStateView {
        self@
    }
}

impl Data for AppState {
    fn same(&self, other: &Self) -> (r: bool) {
        self.namespace.same(&other.namespace)
            && self.status.same(&other.status)
            && self.metadata.same(&other.metadata)
    }

    fn copy(&self) -> (r: Self) {
        AppState {
            namespace: self.namespace.copy(),
            status: self.status.copy(),
            metadata: self.metadata.copy(),
        }
    }
}

/// Why a segment stopped; protected causes cannot be overridden by app policy.
#[derive(Debug, Clone, Copy, PartialEq, Eq, Structural)]
pub enum InterruptionCause {
    /// Host is shutting down or handing ownership off.
    HostShutdown,
    /// Segment stop without a durable user cancellation.
    SegmentStopped,
    /// Explicit user cancellation.
    UserCancel,
    /// Run budget or deadline exhausted.
    BudgetExhausted,
    /// Ownership is no longer valid.
    OwnershipLost,
    /// Snapshot cannot safely be recovered.
    RecoveryUnavailable,
}

impl View for InterruptionCause {
    type V = InterruptionCause;

    open spec fn view(&self) -> InterruptionCause {
        *self
    }
}

impl DeepView for InterruptionCause {
    type V = InterruptionCause;

    open spec fn deep_view(&self) -> InterruptionCause {
        *self
    }
}

impl Data for InterruptionCause {
    fn same(&self, other: &Self) -> (r: bool) {
        *self == *other
    }

    fn copy(&self) -> (r: Self) {
        *self
    }
}

/// Persisted evidence of a stopped execution segment.
#[derive(Debug)]
pub struct InterruptionRecord {
    /// Segment whose execution stopped.
    pub segment_id: Id,
    /// Classified cause, not inferred from observer disconnection.
    pub cause: InterruptionCause,
    /// Last confirmed checkpoint revision.
    pub checkpoint_revision: u64,
    /// Whether a valid saved recovery path exists.
    pub recoverable: bool,
    /// Existing uncertain effects; policy must not remove these.
    pub unresolved_effects: Vec<RecordRef>,
}

#[verifier::ext_equal]
pub struct InterruptionRecordView {
    pub segment_id: Seq<char>,
    pub cause: InterruptionCause,
    pub checkpoint_revision: u64,
    pub recoverable: bool,
    pub unresolved_effects: Seq<RecordRefView>,
}

impl View for InterruptionRecord {
    type V = InterruptionRecordView;

    open spec fn view(&self) -> InterruptionRecordView {
        InterruptionRecordView {
            segment_id: self.segment_id.deep_view(),
            cause: self.cause.deep_view(),
            checkpoint_revision: self.checkpoint_revision.deep_view(),
            recoverable: self.recoverable.deep_view(),
            unresolved_effects: self.unresolved_effects.deep_view(),
        }
    }
}

impl DeepView for InterruptionRecord {
    type V = InterruptionRecordView;

    open spec fn deep_view(&self) -> InterruptionRecordView {
        self@
    }
}

impl Data for InterruptionRecord {
    fn same(&self, other: &Self) -> (r: bool) {
        self.segment_id.same(&other.segment_id)
            && self.cause.same(&other.cause)
            && self.checkpoint_revision.same(&other.checkpoint_revision)
            && self.recoverable.same(&other.recoverable)
            && self.unresolved_effects.same(&other.unresolved_effects)
    }

    fn copy(&self) -> (r: Self) {
        InterruptionRecord {
            segment_id: self.segment_id.copy(),
            cause: self.cause.copy(),
            checkpoint_revision: self.checkpoint_revision.copy(),
            recoverable: self.recoverable.copy(),
            unresolved_effects: self.unresolved_effects.copy(),
        }
    }
}

/// Outcome for a particular segment. Resuming creates a different record.
#[derive(Debug)]
pub enum SegmentOutcome {
    /// Confirmed interval outcome: waiting, interrupted, or terminal.
    Settled {
        outcome: Box<RunOutcome>,
    },
    /// Recoverable stop, not a terminal Run outcome.
    Interrupted {
        interruption: InterruptionRecord,
    },
}

#[verifier::ext_equal]
pub enum SegmentOutcomeView {
    Settled {
        outcome: RunOutcomeView,
    },
    Interrupted {
        interruption: InterruptionRecordView,
    },
}

impl View for SegmentOutcome {
    type V = SegmentOutcomeView;

    open spec fn view(&self) -> SegmentOutcomeView {
        match self {
            SegmentOutcome::Settled { outcome } => SegmentOutcomeView::Settled { outcome: outcome.deep_view() },
            SegmentOutcome::Interrupted { interruption } => SegmentOutcomeView::Interrupted { interruption: interruption.deep_view() },
        }
    }
}

impl DeepView for SegmentOutcome {
    type V = SegmentOutcomeView;

    open spec fn deep_view(&self) -> SegmentOutcomeView {
        self@
    }
}

impl Data for SegmentOutcome {
    fn same(&self, other: &Self) -> (r: bool) {
        match (self, other) {
            (SegmentOutcome::Settled { outcome: outcome1 }, SegmentOutcome::Settled { outcome: outcome2 }) => outcome1.same(outcome2),
            (SegmentOutcome::Interrupted { interruption: interruption1 }, SegmentOutcome::Interrupted { interruption: interruption2 }) => interruption1.same(interruption2),
            _ => false,
        }
    }

    fn copy(&self) -> (r: Self) {
        match self {
            SegmentOutcome::Settled { outcome } => SegmentOutcome::Settled { outcome: outcome.copy() },
            SegmentOutcome::Interrupted { interruption } => SegmentOutcome::Interrupted { interruption: interruption.copy() },
        }
    }
}

/// Immutable identity and result of one accepted execution interval.
#[derive(Debug)]
pub struct ExecutionSegment {
    /// Explicit protected-record schema version.
    pub schema_version: ExecutionRecordVersion,
    /// Original execution principal; nobody who answers for it can replace it.
    pub execution_principal_ref: Id,
    /// Run that owns this segment.
    pub run_id: Id,
    /// Never reused when the Run is resumed.
    pub segment_id: Id,
    /// Revision at acceptance.
    pub accepted_revision: u64,
    /// Present after waiting, interruption or terminal settlement.
    pub outcome: Option<SegmentOutcome>,
    /// Last event belonging to this settled interval.
    pub last_event_seq: Option<u64>,
    /// Original checkpoint when recovery or control archives an unsettled interval.
    pub source_snapshot_ref: Option<RecordRef>,
    /// App state snapshot at settlement; never defines core status.
    pub app_state: Option<AppState>,
}

#[verifier::ext_equal]
pub struct ExecutionSegmentView {
    pub schema_version: ExecutionRecordVersion,
    pub execution_principal_ref: Seq<char>,
    pub run_id: Seq<char>,
    pub segment_id: Seq<char>,
    pub accepted_revision: u64,
    pub outcome: Option<SegmentOutcomeView>,
    pub last_event_seq: Option<u64>,
    pub source_snapshot_ref: Option<RecordRefView>,
    pub app_state: Option<AppStateView>,
}

impl View for ExecutionSegment {
    type V = ExecutionSegmentView;

    open spec fn view(&self) -> ExecutionSegmentView {
        ExecutionSegmentView {
            schema_version: self.schema_version.deep_view(),
            execution_principal_ref: self.execution_principal_ref.deep_view(),
            run_id: self.run_id.deep_view(),
            segment_id: self.segment_id.deep_view(),
            accepted_revision: self.accepted_revision.deep_view(),
            outcome: self.outcome.deep_view(),
            last_event_seq: self.last_event_seq.deep_view(),
            source_snapshot_ref: self.source_snapshot_ref.deep_view(),
            app_state: self.app_state.deep_view(),
        }
    }
}

impl DeepView for ExecutionSegment {
    type V = ExecutionSegmentView;

    open spec fn deep_view(&self) -> ExecutionSegmentView {
        self@
    }
}

impl Data for ExecutionSegment {
    fn same(&self, other: &Self) -> (r: bool) {
        self.schema_version.same(&other.schema_version)
            && self.execution_principal_ref.same(&other.execution_principal_ref)
            && self.run_id.same(&other.run_id)
            && self.segment_id.same(&other.segment_id)
            && self.accepted_revision.same(&other.accepted_revision)
            && self.outcome.same(&other.outcome)
            && self.last_event_seq.same(&other.last_event_seq)
            && self.source_snapshot_ref.same(&other.source_snapshot_ref)
            && self.app_state.same(&other.app_state)
    }

    fn copy(&self) -> (r: Self) {
        ExecutionSegment {
            schema_version: self.schema_version.copy(),
            execution_principal_ref: self.execution_principal_ref.copy(),
            run_id: self.run_id.copy(),
            segment_id: self.segment_id.copy(),
            accepted_revision: self.accepted_revision.copy(),
            outcome: self.outcome.copy(),
            last_event_seq: self.last_event_seq.copy(),
            source_snapshot_ref: self.source_snapshot_ref.copy(),
            app_state: self.app_state.copy(),
        }
    }
}

/// Frozen prepared-model inputs. References belong to the same authorized scope.
#[derive(Debug)]
pub struct PreparedStepRecord {
    /// Independently pinned logical input and original conversation boundary.
    pub step_input: RecordRef,
    /// Exact namespace owning all protected references.
    pub scope: Scope,
    /// Owning execution.
    pub run_id: Id,
    /// Pinned resolved profile identity.
    pub profile_digest: JsonDigest,
    /// Optional pinned component assembly.
    pub assembly_ref: Option<RecordRef>,
    /// Final provider input identity independent of physical attempt IDs.
    pub projection_fingerprint: JsonDigest,
    /// Initial preparation or the explicit reason for changing the projection.
    pub change_reason: Id,
    /// Explicit protected-record schema version.
    pub schema_version: ExecutionRecordVersion,
    /// Invocation purpose.
    pub purpose: ModelPurpose,
    /// Protected compiled-provider contract records for this exact projection.
    pub compiled_tools: Vec<RecordRef>,
    /// Logical model step identity.
    pub model_step_id: Id,
    /// Changes when the model input changes, not on identical transport retries.
    pub projection_revision: u64,
    /// Pinned route, effective options and their provenance.
    pub model_configuration: RecordRef,
    /// Pinned canonical tool set and compiled provider contracts.
    pub tool_set: RecordRef,
    /// Persisted assembled prompt and input projection.
    pub context_projection: RecordRef,
    /// Compiler and assembler contract identity.
    pub assembler: VersionedRef,
}

#[verifier::ext_equal]
pub struct PreparedStepRecordView {
    pub step_input: RecordRefView,
    pub scope: ScopeView,
    pub run_id: Seq<char>,
    pub profile_digest: Seq<char>,
    pub assembly_ref: Option<RecordRefView>,
    pub projection_fingerprint: Seq<char>,
    pub change_reason: Seq<char>,
    pub schema_version: ExecutionRecordVersion,
    pub purpose: ModelPurpose,
    pub compiled_tools: Seq<RecordRefView>,
    pub model_step_id: Seq<char>,
    pub projection_revision: u64,
    pub model_configuration: RecordRefView,
    pub tool_set: RecordRefView,
    pub context_projection: RecordRefView,
    pub assembler: VersionedRefView,
}

impl View for PreparedStepRecord {
    type V = PreparedStepRecordView;

    open spec fn view(&self) -> PreparedStepRecordView {
        PreparedStepRecordView {
            step_input: self.step_input.deep_view(),
            scope: self.scope.deep_view(),
            run_id: self.run_id.deep_view(),
            profile_digest: self.profile_digest.deep_view(),
            assembly_ref: self.assembly_ref.deep_view(),
            projection_fingerprint: self.projection_fingerprint.deep_view(),
            change_reason: self.change_reason.deep_view(),
            schema_version: self.schema_version.deep_view(),
            purpose: self.purpose.deep_view(),
            compiled_tools: self.compiled_tools.deep_view(),
            model_step_id: self.model_step_id.deep_view(),
            projection_revision: self.projection_revision.deep_view(),
            model_configuration: self.model_configuration.deep_view(),
            tool_set: self.tool_set.deep_view(),
            context_projection: self.context_projection.deep_view(),
            assembler: self.assembler.deep_view(),
        }
    }
}

impl DeepView for PreparedStepRecord {
    type V = PreparedStepRecordView;

    open spec fn deep_view(&self) -> PreparedStepRecordView {
        self@
    }
}

impl Data for PreparedStepRecord {
    fn same(&self, other: &Self) -> (r: bool) {
        self.step_input.same(&other.step_input)
            && self.scope.same(&other.scope)
            && self.run_id.same(&other.run_id)
            && self.profile_digest.same(&other.profile_digest)
            && self.assembly_ref.same(&other.assembly_ref)
            && self.projection_fingerprint.same(&other.projection_fingerprint)
            && self.change_reason.same(&other.change_reason)
            && self.schema_version.same(&other.schema_version)
            && self.purpose.same(&other.purpose)
            && self.compiled_tools.same(&other.compiled_tools)
            && self.model_step_id.same(&other.model_step_id)
            && self.projection_revision.same(&other.projection_revision)
            && self.model_configuration.same(&other.model_configuration)
            && self.tool_set.same(&other.tool_set)
            && self.context_projection.same(&other.context_projection)
            && self.assembler.same(&other.assembler)
    }

    fn copy(&self) -> (r: Self) {
        PreparedStepRecord {
            step_input: self.step_input.copy(),
            scope: self.scope.copy(),
            run_id: self.run_id.copy(),
            profile_digest: self.profile_digest.copy(),
            assembly_ref: self.assembly_ref.copy(),
            projection_fingerprint: self.projection_fingerprint.copy(),
            change_reason: self.change_reason.copy(),
            schema_version: self.schema_version.copy(),
            purpose: self.purpose.copy(),
            compiled_tools: self.compiled_tools.copy(),
            model_step_id: self.model_step_id.copy(),
            projection_revision: self.projection_revision.copy(),
            model_configuration: self.model_configuration.copy(),
            tool_set: self.tool_set.copy(),
            context_projection: self.context_projection.copy(),
            assembler: self.assembler.copy(),
        }
    }
}

/// A durable control request. Submission is not a completed state transition.
#[derive(Debug)]
pub enum ControlAction {
    /// Permanently cancel a Run, preserving known and unknown effects.
    Cancel {
        reason: Id,
    },
    /// Stop the active segment without declaring Run success.
    Stop {
        cause: InterruptionCause,
    },
    /// Explicitly process a Run deadline that has elapsed.
    Expire,
}

#[verifier::ext_equal]
pub enum ControlActionView {
    Cancel {
        reason: Seq<char>,
    },
    Stop {
        cause: InterruptionCause,
    },
    Expire,
}

impl View for ControlAction {
    type V = ControlActionView;

    open spec fn view(&self) -> ControlActionView {
        match self {
            ControlAction::Cancel { reason } => ControlActionView::Cancel { reason: reason.deep_view() },
            ControlAction::Stop { cause } => ControlActionView::Stop { cause: cause.deep_view() },
            ControlAction::Expire => ControlActionView::Expire,
        }
    }
}

impl DeepView for ControlAction {
    type V = ControlActionView;

    open spec fn deep_view(&self) -> ControlActionView {
        self@
    }
}

impl Data for ControlAction {
    fn same(&self, other: &Self) -> (r: bool) {
        match (self, other) {
            (ControlAction::Cancel { reason: reason1 }, ControlAction::Cancel { reason: reason2 }) => reason1.same(reason2),
            (ControlAction::Stop { cause: cause1 }, ControlAction::Stop { cause: cause2 }) => cause1.same(cause2),
            (ControlAction::Expire, ControlAction::Expire) => true,
            _ => false,
        }
    }

    fn copy(&self) -> (r: Self) {
        match self {
            ControlAction::Cancel { reason } => ControlAction::Cancel { reason: reason.copy() },
            ControlAction::Stop { cause } => ControlAction::Stop { cause: cause.copy() },
            ControlAction::Expire => ControlAction::Expire,
        }
    }
}

/// Deduplicated control command, authenticated by the Host before submission.
#[derive(Debug)]
pub struct ControlCommand {
    /// Stable command identity within a Run.
    pub command_id: Id,
    /// Requesting principal, distinct from the original execution principal.
    pub principal_ref: Id,
    /// Authorized action.
    pub action: ControlAction,
}

#[verifier::ext_equal]
pub struct ControlCommandView {
    pub command_id: Seq<char>,
    pub principal_ref: Seq<char>,
    pub action: ControlActionView,
}

impl View for ControlCommand {
    type V = ControlCommandView;

    open spec fn view(&self) -> ControlCommandView {
        ControlCommandView {
            command_id: self.command_id.deep_view(),
            principal_ref: self.principal_ref.deep_view(),
            action: self.action.deep_view(),
        }
    }
}

impl DeepView for ControlCommand {
    type V = ControlCommandView;

    open spec fn deep_view(&self) -> ControlCommandView {
        self@
    }
}

impl Data for ControlCommand {
    fn same(&self, other: &Self) -> (r: bool) {
        self.command_id.same(&other.command_id)
            && self.principal_ref.same(&other.principal_ref)
            && self.action.same(&other.action)
    }

    fn copy(&self) -> (r: Self) {
        ControlCommand {
            command_id: self.command_id.copy(),
            principal_ref: self.principal_ref.copy(),
            action: self.action.copy(),
        }
    }
}

/// Why a transaction creates or claims a segment.
#[derive(Debug)]
pub enum SegmentStart {
    /// Claim the segment already identified by admission.
    Initial,
    /// Consume a matching approval, input or recovery command.
    Resume(ResumeCommand),
    /// Consume an already persisted control command, without model or tool execution.
    Control(Id),
}

#[verifier::ext_equal]
pub enum SegmentStartView {
    Initial,
    Resume(ResumeCommandView),
    Control(Seq<char>),
}

impl View for SegmentStart {
    type V = SegmentStartView;

    open spec fn view(&self) -> SegmentStartView {
        match self {
            SegmentStart::Initial => SegmentStartView::Initial,
            SegmentStart::Resume(a) => SegmentStartView::Resume(a.deep_view()),
            SegmentStart::Control(a) => SegmentStartView::Control(a.deep_view()),
        }
    }
}

impl DeepView for SegmentStart {
    type V = SegmentStartView;

    open spec fn deep_view(&self) -> SegmentStartView {
        self@
    }
}

impl Data for SegmentStart {
    fn same(&self, other: &Self) -> (r: bool) {
        match (self, other) {
            (SegmentStart::Initial, SegmentStart::Initial) => true,
            (SegmentStart::Resume(a1), SegmentStart::Resume(a2)) => a1.same(a2),
            (SegmentStart::Control(a1), SegmentStart::Control(a2)) => a1.same(a2),
            _ => false,
        }
    }

    fn copy(&self) -> (r: Self) {
        match self {
            SegmentStart::Initial => SegmentStart::Initial,
            SegmentStart::Resume(a) => SegmentStart::Resume(a.copy()),
            SegmentStart::Control(a) => SegmentStart::Control(a.copy()),
        }
    }
}

/// Acknowledgment of durable command acceptance, not execution completion.
#[derive(Debug)]
pub struct ControlReceipt {
    /// Owning Run.
    pub run_id: Id,
    /// Deduplicated command.
    pub command_id: Id,
    /// Segment that processed it, if already consumed.
    pub processed_segment_id: Option<Id>,
}

#[verifier::ext_equal]
pub struct ControlReceiptView {
    pub run_id: Seq<char>,
    pub command_id: Seq<char>,
    pub processed_segment_id: Option<Seq<char>>,
}

impl View for ControlReceipt {
    type V = ControlReceiptView;

    open spec fn view(&self) -> ControlReceiptView {
        ControlReceiptView {
            run_id: self.run_id.deep_view(),
            command_id: self.command_id.deep_view(),
            processed_segment_id: self.processed_segment_id.deep_view(),
        }
    }
}

impl DeepView for ControlReceipt {
    type V = ControlReceiptView;

    open spec fn deep_view(&self) -> ControlReceiptView {
        self@
    }
}

impl Data for ControlReceipt {
    fn same(&self, other: &Self) -> (r: bool) {
        self.run_id.same(&other.run_id)
            && self.command_id.same(&other.command_id)
            && self.processed_segment_id.same(&other.processed_segment_id)
    }

    fn copy(&self) -> (r: Self) {
        ControlReceipt {
            run_id: self.run_id.copy(),
            command_id: self.command_id.copy(),
            processed_segment_id: self.processed_segment_id.copy(),
        }
    }
}

/// Allowed callback proposals. None may declare success or overwrite effect evidence.
#[derive(Debug, Clone, Copy, PartialEq, Eq, Structural)]
pub enum InterruptionAction {
    /// Use the core's cause-specific default.
    UseDefault,
    /// Save a recoverable interrupted segment when the core permits it.
    Pause,
    /// Cancel when the cause permits this transition.
    Cancel,
    /// Fail when the cause permits this transition.
    Fail,
}

impl View for InterruptionAction {
    type V = InterruptionAction;

    open spec fn view(&self) -> InterruptionAction {
        *self
    }
}

impl DeepView for InterruptionAction {
    type V = InterruptionAction;

    open spec fn deep_view(&self) -> InterruptionAction {
        *self
    }
}

impl Data for InterruptionAction {
    fn same(&self, other: &Self) -> (r: bool) {
        *self == *other
    }

    fn copy(&self) -> (r: Self) {
        *self
    }
}

/// Limited immutable data exposed to the application interruption policy.
#[derive(Debug)]
pub struct InterruptionInfo {
    /// Last confirmed core cursor, not an application-defined phase.
    pub phase: RunPhase,
    /// Actual persistence and recovery capabilities of the bound store.
    pub store_capabilities: StateStoreCapabilities,
    /// Fixed nonsecret callback configuration.
    pub configuration: Vec<Member>,
    /// Resource scope; this does not grant authorization.
    pub scope: Scope,
    /// Stopped Run identity.
    pub run_id: Id,
    /// Fixed interruption evidence.
    pub interruption: InterruptionRecord,
    /// Current application state without mutable access to the Run.
    pub app_state: Option<AppState>,
}

#[verifier::ext_equal]
pub struct InterruptionInfoView {
    pub phase: RunPhase,
    pub store_capabilities: StateStoreCapabilitiesView,
    pub configuration: Seq<MemberView>,
    pub scope: ScopeView,
    pub run_id: Seq<char>,
    pub interruption: InterruptionRecordView,
    pub app_state: Option<AppStateView>,
}

impl View for InterruptionInfo {
    type V = InterruptionInfoView;

    open spec fn view(&self) -> InterruptionInfoView {
        InterruptionInfoView {
            phase: self.phase.deep_view(),
            store_capabilities: self.store_capabilities.deep_view(),
            configuration: self.configuration.deep_view(),
            scope: self.scope.deep_view(),
            run_id: self.run_id.deep_view(),
            interruption: self.interruption.deep_view(),
            app_state: self.app_state.deep_view(),
        }
    }
}

impl DeepView for InterruptionInfo {
    type V = InterruptionInfoView;

    open spec fn deep_view(&self) -> InterruptionInfoView {
        self@
    }
}

impl Data for InterruptionInfo {
    fn same(&self, other: &Self) -> (r: bool) {
        self.phase.same(&other.phase)
            && self.store_capabilities.same(&other.store_capabilities)
            && self.configuration.same(&other.configuration)
            && self.scope.same(&other.scope)
            && self.run_id.same(&other.run_id)
            && self.interruption.same(&other.interruption)
            && self.app_state.same(&other.app_state)
    }

    fn copy(&self) -> (r: Self) {
        InterruptionInfo {
            phase: self.phase.copy(),
            store_capabilities: self.store_capabilities.copy(),
            configuration: self.configuration.copy(),
            scope: self.scope.copy(),
            run_id: self.run_id.copy(),
            interruption: self.interruption.copy(),
            app_state: self.app_state.copy(),
        }
    }
}

/// Policy result; core validation and persistence remain mandatory.
#[derive(Debug)]
pub struct InterruptionDecision {
    /// Suggested transition.
    pub action: InterruptionAction,
    /// Optional Host-schema-validated business state.
    pub app_state: Option<AppState>,
}

#[verifier::ext_equal]
pub struct InterruptionDecisionView {
    pub action: InterruptionAction,
    pub app_state: Option<AppStateView>,
}

impl View for InterruptionDecision {
    type V = InterruptionDecisionView;

    open spec fn view(&self) -> InterruptionDecisionView {
        InterruptionDecisionView {
            action: self.action.deep_view(),
            app_state: self.app_state.deep_view(),
        }
    }
}

impl DeepView for InterruptionDecision {
    type V = InterruptionDecisionView;

    open spec fn deep_view(&self) -> InterruptionDecisionView {
        self@
    }
}

impl Data for InterruptionDecision {
    fn same(&self, other: &Self) -> (r: bool) {
        self.action.same(&other.action)
            && self.app_state.same(&other.app_state)
    }

    fn copy(&self) -> (r: Self) {
        InterruptionDecision {
            action: self.action.copy(),
            app_state: self.app_state.copy(),
        }
    }
}

/// A proposed checkpoint delta; the transaction supplies its own validated lease.
#[derive(Debug)]
pub struct SegmentTransition {
    /// Next checkpoint at expected_revision + 1.
    pub snapshot: RunSnapshot,
    /// New transcript messages.
    pub messages: Vec<Message>,
    /// Matching durable events.
    pub events: Vec<RunEvent>,
    /// Immutable records referenced by the new checkpoint and events.
    pub records: Vec<ProtectedRecord>,
}

#[verifier::ext_equal]
pub struct SegmentTransitionView {
    pub snapshot: RunSnapshotView,
    pub messages: Seq<MessageView>,
    pub events: Seq<RunEventView>,
    pub records: Seq<ProtectedRecordView>,
}

impl View for SegmentTransition {
    type V = SegmentTransitionView;

    open spec fn view(&self) -> SegmentTransitionView {
        SegmentTransitionView {
            snapshot: self.snapshot.deep_view(),
            messages: self.messages.deep_view(),
            events: self.events.deep_view(),
            records: self.records.deep_view(),
        }
    }
}

impl DeepView for SegmentTransition {
    type V = SegmentTransitionView;

    open spec fn deep_view(&self) -> SegmentTransitionView {
        self@
    }
}

impl Data for SegmentTransition {
    fn same(&self, other: &Self) -> (r: bool) {
        self.snapshot.same(&other.snapshot)
            && self.messages.same(&other.messages)
            && self.events.same(&other.events)
            && self.records.same(&other.records)
    }

    fn copy(&self) -> (r: Self) {
        SegmentTransition {
            snapshot: self.snapshot.copy(),
            messages: self.messages.copy(),
            events: self.events.copy(),
            records: self.records.copy(),
        }
    }
}

/// Inputs for atomic command consumption, lease acquisition and segment creation.
#[derive(Debug)]
pub struct BeginSegmentRequest {
    /// Proposed validated checkpoint and events for resume or control. Initial claim has none.
    pub transition: Option<SegmentTransition>,
    /// Owning Run.
    pub run_id: Id,
    /// Revision before this transaction.
    pub expected_revision: u64,
    /// Proposed new segment ID (initial claims use admission's ID).
    pub segment_id: Id,
    /// New execution owner.
    pub owner: Id,
    /// Trusted clock value.
    pub now_ms: i64,
    /// Bounded positive ownership time.
    pub lease_ttl_ms: u64,
    /// Command or initial admission claim.
    pub start: SegmentStart,
}

#[verifier::ext_equal]
pub struct BeginSegmentRequestView {
    pub transition: Option<SegmentTransitionView>,
    pub run_id: Seq<char>,
    pub expected_revision: u64,
    pub segment_id: Seq<char>,
    pub owner: Seq<char>,
    pub now_ms: i64,
    pub lease_ttl_ms: u64,
    pub start: SegmentStartView,
}

impl View for BeginSegmentRequest {
    type V = BeginSegmentRequestView;

    open spec fn view(&self) -> BeginSegmentRequestView {
        BeginSegmentRequestView {
            transition: self.transition.deep_view(),
            run_id: self.run_id.deep_view(),
            expected_revision: self.expected_revision.deep_view(),
            segment_id: self.segment_id.deep_view(),
            owner: self.owner.deep_view(),
            now_ms: self.now_ms.deep_view(),
            lease_ttl_ms: self.lease_ttl_ms.deep_view(),
            start: self.start.deep_view(),
        }
    }
}

impl DeepView for BeginSegmentRequest {
    type V = BeginSegmentRequestView;

    open spec fn deep_view(&self) -> BeginSegmentRequestView {
        self@
    }
}

impl Data for BeginSegmentRequest {
    fn same(&self, other: &Self) -> (r: bool) {
        self.transition.same(&other.transition)
            && self.run_id.same(&other.run_id)
            && self.expected_revision.same(&other.expected_revision)
            && self.segment_id.same(&other.segment_id)
            && self.owner.same(&other.owner)
            && self.now_ms.same(&other.now_ms)
            && self.lease_ttl_ms.same(&other.lease_ttl_ms)
            && self.start.same(&other.start)
    }

    fn copy(&self) -> (r: Self) {
        BeginSegmentRequest {
            transition: self.transition.copy(),
            run_id: self.run_id.copy(),
            expected_revision: self.expected_revision.copy(),
            segment_id: self.segment_id.copy(),
            owner: self.owner.copy(),
            now_ms: self.now_ms.copy(),
            lease_ttl_ms: self.lease_ttl_ms.copy(),
            start: self.start.copy(),
        }
    }
}

/// Persisted control command and its optional processing result.
#[derive(Debug)]
pub struct StoredControlCommand {
    /// Original authenticated command payload.
    pub command: ControlCommand,
    /// Segment that consumed it; absent means pending, not failed.
    pub processed_segment_id: Option<Id>,
}

#[verifier::ext_equal]
pub struct StoredControlCommandView {
    pub command: ControlCommandView,
    pub processed_segment_id: Option<Seq<char>>,
}

impl View for StoredControlCommand {
    type V = StoredControlCommandView;

    open spec fn view(&self) -> StoredControlCommandView {
        StoredControlCommandView {
            command: self.command.deep_view(),
            processed_segment_id: self.processed_segment_id.deep_view(),
        }
    }
}

impl DeepView for StoredControlCommand {
    type V = StoredControlCommandView;

    open spec fn deep_view(&self) -> StoredControlCommandView {
        self@
    }
}

impl Data for StoredControlCommand {
    fn same(&self, other: &Self) -> (r: bool) {
        self.command.same(&other.command)
            && self.processed_segment_id.same(&other.processed_segment_id)
    }

    fn copy(&self) -> (r: Self) {
        StoredControlCommand {
            command: self.command.copy(),
            processed_segment_id: self.processed_segment_id.copy(),
        }
    }
}

/// Command deduplication evidence bound to an accepted segment.
#[derive(Debug)]
pub struct AcceptedSegmentCommand {
    /// Stable command identity.
    pub command_id: Id,
    /// Original normalized command payload digest.
    pub payload_digest: JsonDigest,
    /// Segment created by this command.
    pub segment_id: Id,
}

#[verifier::ext_equal]
pub struct AcceptedSegmentCommandView {
    pub command_id: Seq<char>,
    pub payload_digest: Seq<char>,
    pub segment_id: Seq<char>,
}

impl View for AcceptedSegmentCommand {
    type V = AcceptedSegmentCommandView;

    open spec fn view(&self) -> AcceptedSegmentCommandView {
        AcceptedSegmentCommandView {
            command_id: self.command_id.deep_view(),
            payload_digest: self.payload_digest.deep_view(),
            segment_id: self.segment_id.deep_view(),
        }
    }
}

impl DeepView for AcceptedSegmentCommand {
    type V = AcceptedSegmentCommandView;

    open spec fn deep_view(&self) -> AcceptedSegmentCommandView {
        self@
    }
}

impl Data for AcceptedSegmentCommand {
    fn same(&self, other: &Self) -> (r: bool) {
        self.command_id.same(&other.command_id)
            && self.payload_digest.same(&other.payload_digest)
            && self.segment_id.same(&other.segment_id)
    }

    fn copy(&self) -> (r: Self) {
        AcceptedSegmentCommand {
            command_id: self.command_id.copy(),
            payload_digest: self.payload_digest.copy(),
            segment_id: self.segment_id.copy(),
        }
    }
}

/// Protected execution history stored atomically with a Run's checkpoint and events.
#[derive(Debug)]
pub struct ExecutionHistory {
    /// Owning Run.
    pub run_id: Id,
    /// Authenticated original execution actor.
    pub execution_principal_ref: Id,
    /// Admission-pinned grant. Legacy histories without this field require draining.
    pub execution_grant_ref: Option<Id>,
    /// Submitted request evidence, separate from effective configuration.
    pub submitted: Option<RequestSnapshot>,
    /// Initial segment has been claimed at least once. Retrying a claim is not recovery.
    pub initial_claimed: bool,
    /// Ordered immutable past segments and the current segment.
    pub segments: Vec<ExecutionSegment>,
    /// Accepted resume and control command identities.
    pub accepted_commands: Vec<AcceptedSegmentCommand>,
    /// Pending and processed durable controls.
    pub controls: Vec<StoredControlCommand>,
}

#[verifier::ext_equal]
pub struct ExecutionHistoryView {
    pub run_id: Seq<char>,
    pub execution_principal_ref: Seq<char>,
    pub execution_grant_ref: Option<Seq<char>>,
    pub submitted: Option<RequestSnapshotView>,
    pub initial_claimed: bool,
    pub segments: Seq<ExecutionSegmentView>,
    pub accepted_commands: Seq<AcceptedSegmentCommandView>,
    pub controls: Seq<StoredControlCommandView>,
}

impl View for ExecutionHistory {
    type V = ExecutionHistoryView;

    open spec fn view(&self) -> ExecutionHistoryView {
        ExecutionHistoryView {
            run_id: self.run_id.deep_view(),
            execution_principal_ref: self.execution_principal_ref.deep_view(),
            execution_grant_ref: self.execution_grant_ref.deep_view(),
            submitted: self.submitted.deep_view(),
            initial_claimed: self.initial_claimed.deep_view(),
            segments: self.segments.deep_view(),
            accepted_commands: self.accepted_commands.deep_view(),
            controls: self.controls.deep_view(),
        }
    }
}

impl DeepView for ExecutionHistory {
    type V = ExecutionHistoryView;

    open spec fn deep_view(&self) -> ExecutionHistoryView {
        self@
    }
}

impl Data for ExecutionHistory {
    fn same(&self, other: &Self) -> (r: bool) {
        self.run_id.same(&other.run_id)
            && self.execution_principal_ref.same(&other.execution_principal_ref)
            && self.execution_grant_ref.same(&other.execution_grant_ref)
            && self.submitted.same(&other.submitted)
            && self.initial_claimed.same(&other.initial_claimed)
            && self.segments.same(&other.segments)
            && self.accepted_commands.same(&other.accepted_commands)
            && self.controls.same(&other.controls)
    }

    fn copy(&self) -> (r: Self) {
        ExecutionHistory {
            run_id: self.run_id.copy(),
            execution_principal_ref: self.execution_principal_ref.copy(),
            execution_grant_ref: self.execution_grant_ref.copy(),
            submitted: self.submitted.copy(),
            initial_claimed: self.initial_claimed.copy(),
            segments: self.segments.copy(),
            accepted_commands: self.accepted_commands.copy(),
            controls: self.controls.copy(),
        }
    }
}

/// Canonicalization rules of a submitted request.
#[derive(Debug, Clone, Copy, PartialEq, Eq, Structural)]
pub enum CanonicalizationVersion {
    WickleCanonicalJsonV1,
}

impl View for CanonicalizationVersion {
    type V = CanonicalizationVersion;

    open spec fn view(&self) -> CanonicalizationVersion {
        *self
    }
}

impl DeepView for CanonicalizationVersion {
    type V = CanonicalizationVersion;

    open spec fn deep_view(&self) -> CanonicalizationVersion {
        *self
    }
}

impl Data for CanonicalizationVersion {
    fn same(&self, other: &Self) -> (r: bool) {
        *self == *other
    }

    fn copy(&self) -> (r: Self) {
        *self
    }
}

/// What a submitted request reads as.
#[derive(Debug)]
pub enum SubmittedRequest {
    Request {
        request: RunRequest,
    },
    Refused {
        error: ContractError,
    },
}

#[verifier::ext_equal]
pub enum SubmittedRequestView {
    Request {
        request: RunRequestView,
    },
    Refused {
        error: Fault,
    },
}

impl View for SubmittedRequest {
    type V = SubmittedRequestView;

    open spec fn view(&self) -> SubmittedRequestView {
        match self {
            SubmittedRequest::Request { request } => SubmittedRequestView::Request { request: request.deep_view() },
            SubmittedRequest::Refused { error } => SubmittedRequestView::Refused { error: error.deep_view() },
        }
    }
}

impl DeepView for SubmittedRequest {
    type V = SubmittedRequestView;

    open spec fn deep_view(&self) -> SubmittedRequestView {
        self@
    }
}

impl Data for SubmittedRequest {
    fn same(&self, other: &Self) -> (r: bool) {
        match (self, other) {
            (SubmittedRequest::Request { request: request1 }, SubmittedRequest::Request { request: request2 }) => request1.same(request2),
            (SubmittedRequest::Refused { error: error1 }, SubmittedRequest::Refused { error: error2 }) => error1.same(error2),
            _ => false,
        }
    }

    fn copy(&self) -> (r: Self) {
        match self {
            SubmittedRequest::Request { request } => SubmittedRequest::Request { request: request.copy() },
            SubmittedRequest::Refused { error } => SubmittedRequest::Refused { error: error.copy() },
        }
    }
}

/// What holding the canonical texts of a submission to the limits on texts reported.
#[derive(Debug)]
pub struct SubmissionLimits {
    pub request: Option<ContractError>,
    pub system_inputs: Option<ContractError>,
    /// The profile, the request and the system inputs together.
    pub submission: Option<ContractError>,
}

#[verifier::ext_equal]
pub struct SubmissionLimitsView {
    pub request: Option<Fault>,
    pub system_inputs: Option<Fault>,
    pub submission: Option<Fault>,
}

impl View for SubmissionLimits {
    type V = SubmissionLimitsView;

    open spec fn view(&self) -> SubmissionLimitsView {
        SubmissionLimitsView {
            request: self.request.deep_view(),
            system_inputs: self.system_inputs.deep_view(),
            submission: self.submission.deep_view(),
        }
    }
}

impl DeepView for SubmissionLimits {
    type V = SubmissionLimitsView;

    open spec fn deep_view(&self) -> SubmissionLimitsView {
        self@
    }
}

impl Data for SubmissionLimits {
    fn same(&self, other: &Self) -> (r: bool) {
        self.request.same(&other.request)
            && self.system_inputs.same(&other.system_inputs)
            && self.submission.same(&other.submission)
    }

    fn copy(&self) -> (r: Self) {
        SubmissionLimits {
            request: self.request.copy(),
            system_inputs: self.system_inputs.copy(),
            submission: self.submission.copy(),
        }
    }
}

/// Original submitted data, kept separate from resolved defaults and runtime handles.
#[derive(Debug)]
pub struct RequestSnapshot {
    canonicalization: CanonicalizationVersion,
    /// Original submitted profile identity, not a newly resolved definition.
    profile_ref: VersionedRef,
    request: Json,
    system_inputs: Json,
    system_inputs_provided: bool,
    decoded: SubmittedRequest,
    digest: JsonDigest,
}

#[verifier::ext_equal]
pub struct RequestSnapshotView {
    pub canonicalization: CanonicalizationVersion,
    pub profile_ref: VersionedRefView,
    pub request: JsonView,
    pub system_inputs: JsonView,
    pub system_inputs_provided: bool,
    pub decoded: SubmittedRequestView,
    pub digest: Seq<char>,
}

impl View for RequestSnapshot {
    type V = RequestSnapshotView;

    closed spec fn view(&self) -> RequestSnapshotView {
        RequestSnapshotView {
            canonicalization: self.canonicalization.deep_view(),
            profile_ref: self.profile_ref.deep_view(),
            request: self.request.deep_view(),
            system_inputs: self.system_inputs.deep_view(),
            system_inputs_provided: self.system_inputs_provided.deep_view(),
            decoded: self.decoded.deep_view(),
            digest: self.digest.deep_view(),
        }
    }
}

impl DeepView for RequestSnapshot {
    type V = RequestSnapshotView;

    open spec fn deep_view(&self) -> RequestSnapshotView {
        self@
    }
}

impl Data for RequestSnapshot {
    fn same(&self, other: &Self) -> (r: bool) {
        self.canonicalization.same(&other.canonicalization)
            && self.profile_ref.same(&other.profile_ref)
            && self.request.same(&other.request)
            && self.system_inputs.same(&other.system_inputs)
            && self.system_inputs_provided.same(&other.system_inputs_provided)
            && self.decoded.same(&other.decoded)
            && self.digest.same(&other.digest)
    }

    fn copy(&self) -> (r: Self) {
        RequestSnapshot {
            canonicalization: self.canonicalization.copy(),
            profile_ref: self.profile_ref.copy(),
            request: self.request.copy(),
            system_inputs: self.system_inputs.copy(),
            system_inputs_provided: self.system_inputs_provided.copy(),
            decoded: self.decoded.copy(),
            digest: self.digest.copy(),
        }
    }
}

/// Result of atomic segment acceptance; replay must not launch another driver.
#[derive(Debug)]
pub struct BeginSegmentResult {
    /// Saved execution state.
    pub state: StoredRun,
    /// Accepted or previously accepted segment.
    pub segment: ExecutionSegment,
    /// Only a new owner receives a lease.
    pub lease: Option<RunLease>,
}

#[verifier::ext_equal]
pub struct BeginSegmentResultView {
    pub state: StoredRunView,
    pub segment: ExecutionSegmentView,
    pub lease: Option<RunLeaseView>,
}

impl View for BeginSegmentResult {
    type V = BeginSegmentResultView;

    open spec fn view(&self) -> BeginSegmentResultView {
        BeginSegmentResultView {
            state: self.state.deep_view(),
            segment: self.segment.deep_view(),
            lease: self.lease.deep_view(),
        }
    }
}

impl DeepView for BeginSegmentResult {
    type V = BeginSegmentResultView;

    open spec fn deep_view(&self) -> BeginSegmentResultView {
        self@
    }
}

impl Data for BeginSegmentResult {
    fn same(&self, other: &Self) -> (r: bool) {
        self.state.same(&other.state)
            && self.segment.same(&other.segment)
            && self.lease.same(&other.lease)
    }

    fn copy(&self) -> (r: Self) {
        BeginSegmentResult {
            state: self.state.copy(),
            segment: self.segment.copy(),
            lease: self.lease.copy(),
        }
    }
}


/// The encoded cause of an interruption.
pub open spec fn cause_json(v: InterruptionCause) -> JsonView {
    match v {
        InterruptionCause::HostShutdown => JsonView::Text("host_shutdown"@),
        InterruptionCause::SegmentStopped => JsonView::Text("segment_stopped"@),
        InterruptionCause::UserCancel => JsonView::Text("user_cancel"@),
        InterruptionCause::BudgetExhausted => JsonView::Text("budget_exhausted"@),
        InterruptionCause::OwnershipLost => JsonView::Text("ownership_lost"@),
        InterruptionCause::RecoveryUnavailable => JsonView::Text("recovery_unavailable"@),
    }
}

/// Encode the cause of an interruption.
pub fn encode_cause(v: &InterruptionCause) -> (r: Json)
    ensures
        r@ == cause_json(*v),
{
    match v {
        InterruptionCause::HostShutdown => crate::json::text("host_shutdown"),
        InterruptionCause::SegmentStopped => crate::json::text("segment_stopped"),
        InterruptionCause::UserCancel => crate::json::text("user_cancel"),
        InterruptionCause::BudgetExhausted => crate::json::text("budget_exhausted"),
        InterruptionCause::OwnershipLost => crate::json::text("ownership_lost"),
        InterruptionCause::RecoveryUnavailable => crate::json::text("recovery_unavailable"),
    }
}

/// The encoded control action.
pub open spec fn control_action_json(v: ControlActionView) -> JsonView {
    match v {
        ControlActionView::Cancel { reason } => JsonView::Object(Seq::<MemberView>::empty()
.push(MemberView { key: "kind"@, value: JsonView::Text("cancel"@) })
.push(MemberView { key: "reason"@, value: JsonView::Text(reason) })),
        ControlActionView::Stop { cause } => JsonView::Object(Seq::<MemberView>::empty()
.push(MemberView { key: "cause"@, value: cause_json(cause) })
.push(MemberView { key: "kind"@, value: JsonView::Text("stop"@) })),
        ControlActionView::Expire => JsonView::Object(Seq::<MemberView>::empty()
.push(MemberView { key: "kind"@, value: JsonView::Text("expire"@) })),
    }
}

/// Encode the control action.
pub fn encode_control_action(v: &ControlAction) -> (r: Json)
    ensures
        r@ == control_action_json(v@),
{
    match v {
        ControlAction::Cancel { reason } => {
            let members = no_members();
            let members = with_member(members, "kind", crate::json::text("cancel"));
            let members = with_member(members, "reason", crate::json::text(reason.as_str()));
            crate::json::object(members)
        },
        ControlAction::Stop { cause } => {
            let members = no_members();
            let members = with_member(members, "cause", encode_cause(cause));
            let members = with_member(members, "kind", crate::json::text("stop"));
            crate::json::object(members)
        },
        ControlAction::Expire => {
            let members = no_members();
            let members = with_member(members, "kind", crate::json::text("expire"));
            crate::json::object(members)
        },
    }
}

/// The encoded control command.
pub open spec fn control_json(v: ControlCommandView) -> JsonView {
    JsonView::Object(Seq::<MemberView>::empty()
.push(MemberView { key: "action"@, value: control_action_json(v.action) })
.push(MemberView { key: "command_id"@, value: JsonView::Text(v.command_id) })
.push(MemberView { key: "principal_ref"@, value: JsonView::Text(v.principal_ref) }))
}

/// Encode the control command.
pub fn encode_control(v: &ControlCommand) -> (r: Json)
    ensures
        r@ == control_json(v@),
{
    let members = no_members();
    let members = with_member(members, "action", encode_control_action(&v.action));
    let members = with_member(members, "command_id", crate::json::text(v.command_id.as_str()));
    let members = with_member(members, "principal_ref", crate::json::text(v.principal_ref.as_str()));
    crate::json::object(members)
}

/// The identity of a control command's payload.
pub open spec fn control_digest(command: ControlCommandView) -> Seq<char> {
    digest_of(control_json(command))
}

impl ControlCommand {
    /// The identity of this command's payload.
    pub fn digest(&self) -> (r: JsonDigest)
        ensures
            r@ == control_digest(self@),
    {
        canonical_digest(&encode_control(self))
    }
}

/// Causes under which a stopped segment can be taken up again.
pub open spec fn is_stop_cause(cause: InterruptionCause) -> bool {
    cause == InterruptionCause::HostShutdown || cause == InterruptionCause::SegmentStopped
}

/// The failure of a segment that was not settled as it may be.
pub open spec fn unsettled() -> Option<Fault> {
    fault(ErrorCode::InvalidSnapshot, "execution_segment")
}

/// Why a segment is refused.
pub open spec fn segment_fault(segment: ExecutionSegmentView) -> Option<Fault> {
    let interrupted = segment.outcome matches Some(outcome) && outcome is Interrupted;
    if (segment.source_snapshot_ref is Some && !interrupted) || segment.last_event_seq == Some(
        0u64,
    ) || (segment.outcome is None && segment.last_event_seq is Some) {
        unsettled()
    } else {
        match segment.outcome {
            Some(SegmentOutcomeView::Settled { outcome }) => if outcome.defect is Some {
                outcome.defect
            } else if outcome.checkpoint_revision < segment.accepted_revision || outcome.app_state
                != segment.app_state {
                unsettled()
            } else {
                None
            },
            Some(SegmentOutcomeView::Interrupted { interruption }) => if interruption.segment_id
                != segment.segment_id || interruption.checkpoint_revision
                < segment.accepted_revision || !interruption.recoverable || !is_stop_cause(
                interruption.cause,
            ) {
                unsettled()
            } else {
                None
            },
            None => None,
        }
    }
}

impl ExecutionSegment {
    /// Check structural settlement invariants before persistence. Authorization, the Host's app
    /// state schema and atomic ledger transitions are checked elsewhere.
    pub fn validate(&self) -> (r: Result<(), ContractError>)
        ensures
            failure(r) == segment_fault(self@),
    {
        let is_interrupted = match &self.outcome {
            Some(SegmentOutcome::Interrupted { .. }) => true,
            _ => false,
        };
        let is_zero = match self.last_event_seq {
            Some(seq) => seq == 0,
            None => false,
        };
        if (self.source_snapshot_ref.is_some() && !is_interrupted) || is_zero || (
        self.outcome.is_none() && self.last_event_seq.is_some()) {
            return fail(ErrorCode::InvalidSnapshot, "execution_segment");
        }
        match &self.outcome {
            Some(SegmentOutcome::Settled { outcome }) => {
                outcome.validate()?;
                if outcome.checkpoint_revision < self.accepted_revision || !outcome.app_state.same(
                    &self.app_state,
                ) {
                    return fail(ErrorCode::InvalidSnapshot, "execution_segment");
                }
                Ok(())
            },
            Some(SegmentOutcome::Interrupted { interruption }) => {
                if !interruption.segment_id.same(&self.segment_id)
                    || interruption.checkpoint_revision < self.accepted_revision
                    || !interruption.recoverable || !(interruption.cause
                    == InterruptionCause::HostShutdown || interruption.cause
                    == InterruptionCause::SegmentStopped) {
                    return fail(ErrorCode::InvalidSnapshot, "execution_segment");
                }
                Ok(())
            },
            None => Ok(()),
        }
    }
}

/// Why a submitted text cannot be taken.
pub open spec fn submitted_text_fault(reading: ReadingView) -> Option<Fault> {
    match reading {
        ReadingView::Document { written, .. } => document_fault(written),
        ReadingView::Malformed => fault(ErrorCode::InvalidJson, "$"),
    }
}

/// Why a submitted document cannot be taken: an object repeats a key, or a number is none.
pub open spec fn document_fault(written: JsonView) -> Option<Fault> {
    if unambiguous(written) && valued(written) is Some {
        None
    } else {
        fault(ErrorCode::InvalidJson, "$")
    }
}

/// A document with its numbers as they are computed with.
pub open spec fn values_of(written: JsonView) -> JsonView {
    match valued(written) {
        Some(value) => value,
        None => written,
    }
}

/// Why submitted options cannot be compared.
pub open spec fn submitted_options_fault(request: JsonView) -> Option<Fault> {
    match get_of(request, "model_options"@) {
        Some(options) => if options is Object {
            None
        } else {
            fault(ErrorCode::InvalidContract, "request_snapshot.model_options")
        },
        None => None,
    }
}

/// The members that are not the model options.
pub open spec fn beside_options() -> spec_fn(MemberView) -> bool {
    |member: MemberView| member.key != "model_options"@
}

/// A request in which empty model options are left out.
pub open spec fn without_empty_options(request: JsonView) -> JsonView {
    match request {
        JsonView::Object(members) => if value_of(members, "model_options"@) == Some(
            JsonView::Object(Seq::empty()),
        ) {
            JsonView::Object(kept(members, beside_options()))
        } else {
            request
        },
        _ => request,
    }
}

/// Everything that a submission is compared by.
pub open spec fn submission_json(
    profile_ref: VersionedRefView,
    request: JsonView,
    system_inputs: JsonView,
) -> JsonView {
    JsonView::Object(
        seq![
            MemberView { key: "profile_ref"@, value: versioned_json(profile_ref) },
            MemberView { key: "request"@, value: without_empty_options(request) },
            MemberView { key: "system_inputs"@, value: system_inputs },
        ],
    )
}

/// The identity of a submission.
pub open spec fn submission_digest(
    profile_ref: VersionedRefView,
    request: JsonView,
    system_inputs: JsonView,
) -> Seq<char> {
    submitted_digest_of(submission_json(profile_ref, request, system_inputs))
}

/// The system inputs of a submission that brings none.
pub open spec fn no_inputs() -> JsonView {
    JsonView::Object(Seq::empty())
}

/// What a text reads as, with numbers as they are written.
pub open spec fn as_written(reading: ReadingView) -> JsonView {
    match reading {
        ReadingView::Document { written, .. } => written,
        ReadingView::Malformed => JsonView::Null,
    }
}

/// Why a submission cannot be captured.
pub open spec fn capture_fault(
    request: ReadingView,
    system_inputs: Option<ReadingView>,
    limits: SubmissionLimitsView,
) -> Option<Fault> {
    let system = match system_inputs {
        Some(reading) => as_written(reading),
        None => no_inputs(),
    };
    if limits.request is Some {
        limits.request
    } else if submitted_text_fault(request) is Some {
        submitted_text_fault(request)
    } else if limits.system_inputs is Some {
        limits.system_inputs
    } else if system_inputs matches Some(reading) && submitted_text_fault(reading) is Some {
        submitted_text_fault(system_inputs->Some_0)
    } else if !(as_written(request) is Object) || !(system is Object) {
        fault(ErrorCode::InvalidContract, "request_snapshot.object")
    } else {
        or_else(submitted_options_fault(as_written(request)), limits.submission)
    }
}

/// A captured submission.
pub open spec fn captured(
    profile_ref: VersionedRefView,
    request: ReadingView,
    system_inputs: Option<ReadingView>,
    decoded: SubmittedRequestView,
) -> RequestSnapshotView {
    let system = match system_inputs {
        Some(reading) => as_written(reading),
        None => no_inputs(),
    };
    RequestSnapshotView {
        canonicalization: CanonicalizationVersion::WickleCanonicalJsonV1,
        profile_ref,
        request: as_written(request),
        system_inputs: system,
        system_inputs_provided: system_inputs is Some,
        decoded,
        digest: submission_digest(profile_ref, as_written(request), system),
    }
}

/// Why a stored submission is refused.
pub open spec fn submission_fault(
    submitted: RequestSnapshotView,
    limits: SubmissionLimitsView,
) -> Option<Fault> {
    if limits.request is Some {
        limits.request
    } else if document_fault(submitted.request) is Some {
        document_fault(submitted.request)
    } else if limits.system_inputs is Some {
        limits.system_inputs
    } else if document_fault(submitted.system_inputs) is Some {
        document_fault(submitted.system_inputs)
    } else if !(submitted.request is Object) || !(submitted.system_inputs is Object) || (
    !submitted.system_inputs_provided && submitted.system_inputs != no_inputs()) {
        fault(ErrorCode::InvalidSnapshot, "request_snapshot")
    } else if submitted_options_fault(submitted.request) is Some {
        submitted_options_fault(submitted.request)
    } else if limits.submission is Some {
        limits.submission
    } else if submission_digest(
        submitted.profile_ref,
        submitted.request,
        submitted.system_inputs,
    ) != submitted.digest {
        fault(ErrorCode::InvalidSnapshot, "request_snapshot")
    } else {
        None
    }
}

fn is_object(json: &Json) -> (r: bool)
    ensures
        r == (json@ is Object),
{
    match json {
        Json::Object(_) => true,
        _ => false,
    }
}

fn empty_object() -> (r: Json)
    ensures
        r@ == no_inputs(),
{
    object(no_members())
}

fn drop_empty_options(request: &Json) -> (r: Json)
    ensures
        r@ == without_empty_options(request@),
{
    if let Json::Object(members) = request {
        proof {
            lemma_object_view(*members);
        }
        let is_empty = match member_value(members, "model_options") {
            Some(options) => options.same(&empty_object()),
            None => false,
        };
        if is_empty {
            let content = |member: &Member| -> (b: bool)
                ensures
                    b == beside_options()(member@),
            { !reads(&member.key, "model_options") };
            return object(keep(members, content, Ghost(beside_options())));
        }
    }
    request.copy()
}

fn check_options(request: &Json) -> (r: Result<(), ContractError>)
    ensures
        failure(r) == submitted_options_fault(request@),
{
    match request.get("model_options") {
        Some(options) => {
            if !is_object(options) {
                return fail(ErrorCode::InvalidContract, "request_snapshot.model_options");
            }
            Ok(())
        },
        None => Ok(()),
    }
}

fn compute(profile_ref: &VersionedRef, request: &Json, system_inputs: &Json) -> (r: JsonDigest)
    ensures
        r@ == submission_digest(profile_ref@, request@, system_inputs@),
{
    let members = no_members();
    let members = with_member(members, "profile_ref", encode_versioned(profile_ref));
    let members = with_member(members, "request", drop_empty_options(request));
    let members = with_member(members, "system_inputs", system_inputs.copy());
    let json = object(members);
    assert(json@->Object_0 =~= submission_json(
        profile_ref@,
        request@,
        system_inputs@,
    )->Object_0);
    submitted_digest(&json)
}

fn check_document(written: &Json) -> (r: Result<(), ContractError>)
    ensures
        failure(r) == document_fault(written@),
{
    if !is_unambiguous(written) || hold_values(written).is_none() {
        return fail(ErrorCode::InvalidJson, "$");
    }
    Ok(())
}

fn take_text(reading: &Reading) -> (r: Result<Json, ContractError>)
    ensures
        failure(r) == submitted_text_fault(reading@),
        r matches Ok(document) ==> document@ == as_written(reading@),
{
    match reading {
        Reading::Document { written, .. } => {
            check_document(written)?;
            Ok(written.copy())
        },
        Reading::Malformed => fail(ErrorCode::InvalidJson, "$"),
    }
}

/// What submitted system inputs read as.
pub open spec fn read_inputs(text: Option<Seq<char>>) -> Option<ReadingView> {
    match text {
        Some(text) => Some(reading_of(text)),
        None => None,
    }
}

impl RequestSnapshot {
    /// Capture validated caller JSON without resolving a catalog or binding. Absent system inputs
    /// become an empty object. Empty and omitted model options are compared alike; other submitted
    /// fields retain their explicit presence. Request schema and authorization belong to
    /// admission; capture alone starts no run. `decoded` is the request that the text holds, and
    /// `limits` what holding the texts to the limits reported.
    pub fn capture(
        profile_ref: VersionedRef,
        request_json: &str,
        system_inputs_json: Option<&str>,
        decoded: SubmittedRequest,
        limits: &SubmissionLimits,
    ) -> (r: Result<Self, ContractError>)
        ensures
            failure(r) == capture_fault(
                reading_of(request_json@),
                read_inputs(system_inputs_json.deep_view()),
                limits@,
            ),
            r matches Ok(snapshot) ==> snapshot@ == captured(
                profile_ref@,
                reading_of(request_json@),
                read_inputs(system_inputs_json.deep_view()),
                decoded@,
            ),
    {
        let request = JsonText::read(request_json);
        match system_inputs_json {
            Some(text) => {
                let inputs = JsonText::read(text);
                Self::capture_readings(
                    profile_ref,
                    &request.reading,
                    Some(&inputs.reading),
                    decoded,
                    limits,
                )
            },
            None => Self::capture_readings(
                profile_ref,
                &request.reading,
                None,
                decoded,
                limits,
            ),
        }
    }

    /// Capture a submission from what its texts read as.
    pub fn capture_readings(
        profile_ref: VersionedRef,
        request: &Reading,
        system_inputs: Option<&Reading>,
        decoded: SubmittedRequest,
        limits: &SubmissionLimits,
    ) -> (r: Result<Self, ContractError>)
        ensures
            failure(r) == capture_fault(request@, system_inputs.deep_view(), limits@),
            r matches Ok(snapshot) ==> snapshot@ == captured(
                profile_ref@,
                request@,
                system_inputs.deep_view(),
                decoded@,
            ),
    {
        verdict(&limits.request)?;
        let request = take_text(request)?;
        verdict(&limits.system_inputs)?;
        let system = match system_inputs {
            Some(reading) => take_text(reading)?,
            None => empty_object(),
        };
        if !is_object(&request) || !is_object(&system) {
            return fail(ErrorCode::InvalidContract, "request_snapshot.object");
        }
        check_options(&request)?;
        verdict(&limits.submission)?;
        let digest = compute(&profile_ref, &request, &system);
        Ok(
            RequestSnapshot {
                canonicalization: CanonicalizationVersion::WickleCanonicalJsonV1,
                profile_ref,
                request,
                system_inputs: system,
                system_inputs_provided: system_inputs.is_some(),
                decoded,
                digest,
            },
        )
    }

    /// Take over a stored submission as it was read. It is not trusted before `validate`.
    pub fn stored(
        profile_ref: VersionedRef,
        request: Json,
        system_inputs: Json,
        system_inputs_provided: bool,
        decoded: SubmittedRequest,
        digest: JsonDigest,
    ) -> (r: Self)
        ensures
            r@ == (RequestSnapshotView {
                canonicalization: CanonicalizationVersion::WickleCanonicalJsonV1,
                profile_ref: profile_ref@,
                request: request@,
                system_inputs: system_inputs@,
                system_inputs_provided,
                decoded: decoded@,
                digest: digest@,
            }),
    {
        RequestSnapshot {
            canonicalization: CanonicalizationVersion::WickleCanonicalJsonV1,
            profile_ref,
            request,
            system_inputs,
            system_inputs_provided,
            decoded,
            digest,
        }
    }

    /// Validate a stored record before comparison. Never trust a supplied digest. `limits` is what
    /// holding its texts to the limits reported.
    pub fn validate(&self, limits: &SubmissionLimits) -> (r: Result<(), ContractError>)
        ensures
            failure(r) == submission_fault(self@, limits@),
    {
        verdict(&limits.request)?;
        check_document(&self.request)?;
        verdict(&limits.system_inputs)?;
        check_document(&self.system_inputs)?;
        if !is_object(&self.request) || !is_object(&self.system_inputs) || (
        !self.system_inputs_provided && !self.system_inputs.same(&empty_object())) {
            return fail(ErrorCode::InvalidSnapshot, "request_snapshot");
        }
        check_options(&self.request)?;
        verdict(&limits.submission)?;
        if !compute(&self.profile_ref, &self.request, &self.system_inputs).same(&self.digest) {
            return fail(ErrorCode::InvalidSnapshot, "request_snapshot");
        }
        Ok(())
    }

    /// Compare another submission by this stored record's normalization and canonicalization
    /// rules, not by the newer candidate's computed digest. `limits` and `candidate_limits` are what
    /// holding the texts of the two to the limits reported.
    pub fn matches_submission(
        &self,
        candidate: &Self,
        limits: &SubmissionLimits,
        candidate_limits: &SubmissionLimits,
    ) -> (r: Result<bool, ContractError>)
        ensures
            failure(r) == or_else(
                submission_fault(self@, limits@),
                submission_fault(candidate@, candidate_limits@),
            ),
            r matches Ok(same) ==> same == (submission_digest(
                candidate@.profile_ref,
                candidate@.request,
                candidate@.system_inputs,
            ) == self@.digest),
    {
        self.validate(limits)?;
        candidate.validate(candidate_limits)?;
        Ok(
            compute(&candidate.profile_ref, &candidate.request, &candidate.system_inputs).same(
                &self.digest,
            ),
        )
    }

    /// Version that must be used when comparing a resubmission.
    pub fn canonicalization(&self) -> (r: CanonicalizationVersion)
        ensures
            r == self@.canonicalization,
    {
        self.canonicalization
    }

    /// Original submitted profile identity, not a newly resolved definition.
    pub fn profile_ref(&self) -> (r: &VersionedRef)
        ensures
            r@ == self@.profile_ref,
    {
        &self.profile_ref
    }

    /// Digest of the submitted profile, request and system inputs.
    pub fn digest(&self) -> (r: &JsonDigest)
        ensures
            r@ == self@.digest,
    {
        &self.digest
    }

    /// Privileged access to the submitted request JSON, in which numbers stand as written.
    pub fn request_json(&self) -> (r: String)
        ensures
            r@ == canonical_text(self@.request),
    {
        canonical_json(&self.request)
    }

    /// Whether system inputs were supplied explicitly. Omission still hashes as an empty object.
    pub fn system_inputs_provided(&self) -> (r: bool)
        ensures
            r == self@.system_inputs_provided,
    {
        self.system_inputs_provided
    }

    /// Privileged access to protected system inputs. They never belong in model context.
    pub fn system_inputs_json(&self) -> (r: String)
        ensures
            r@ == canonical_text(self@.system_inputs),
    {
        canonical_json(&self.system_inputs)
    }

    /// What the submitted request reads as.
    pub fn decoded(&self) -> (r: &SubmittedRequest)
        ensures
            r@ == self@.decoded,
    {
        &self.decoded
    }

    /// Identity of the submitted system inputs' values.
    pub fn system_digest(&self) -> (r: JsonDigest)
        ensures
            r@ == digest_of(values_of(self@.system_inputs)),
    {
        match hold_values(&self.system_inputs) {
            Some(values) => canonical_digest(&values),
            None => canonical_digest(&self.system_inputs),
        }
    }
}

/// A captured submission is valid and matches itself.
pub proof fn law_captured_submission_is_valid(
    profile_ref: VersionedRefView,
    request: ReadingView,
    system_inputs: Option<ReadingView>,
    decoded: SubmittedRequestView,
    limits: SubmissionLimitsView,
)
    requires
        capture_fault(request, system_inputs, limits) is None,
    ensures
        submission_fault(captured(profile_ref, request, system_inputs, decoded), limits) is None,
        submission_digest(
            captured(profile_ref, request, system_inputs, decoded).profile_ref,
            captured(profile_ref, request, system_inputs, decoded).request,
            captured(profile_ref, request, system_inputs, decoded).system_inputs,
        ) == captured(profile_ref, request, system_inputs, decoded).digest,
{
    assert(unambiguous(no_inputs()));
    assert(valued(no_inputs()) is Some);
}

/// The system inputs of a submission are computed with as their text reads, and every text that
/// can be read passes for its numbers.
pub proof fn law_captured_inputs_are_held_as_they_read(text: Seq<char>)
    requires
        reading_of(text) is Document,
    ensures
        valued(reading_of(text)->written) == Some(reading_of(text)->value),
        values_of(reading_of(text)->written) == reading_of(text)->value,
{
    law_values_follow_what_is_written(raw_text(text)->Some_0, MAX_DEPTH as nat);
}

/// Keeping what lies beside the options undoes setting the options.
proof fn lemma_options_put(members: Seq<MemberView>, options: JsonView)
    requires
        forall|i: int|
            0 <= i < members.len() ==> (#[trigger] members[i]).key != "model_options"@,
    ensures
        kept(
            put(members, MemberView { key: "model_options"@, value: options }),
            beside_options(),
        ) == members,
        value_of(
            put(members, MemberView { key: "model_options"@, value: options }),
            "model_options"@,
        ) == Some(options),
{
    let member = MemberView { key: "model_options"@, value: options };
    lemma_put_value(members, member, "model_options"@);
    lemma_kept_put(members, member);
}

proof fn lemma_kept_all(members: Seq<MemberView>)
    requires
        forall|i: int|
            0 <= i < members.len() ==> (#[trigger] members[i]).key != "model_options"@,
    ensures
        kept(members, beside_options()) == members,
    decreases members.len(),
{
    if members.len() > 0 {
        let rest = members.skip(1);
        assert forall|i: int| 0 <= i < rest.len() implies (#[trigger] rest[i]).key
            != "model_options"@ by {
            assert(rest[i] == members[i + 1]);
        }
        lemma_kept_all(rest);
        lemma_kept_first(members);
        assert(members =~= seq![members[0]] + rest);
    }
}

proof fn lemma_kept_put(members: Seq<MemberView>, member: MemberView)
    requires
        member.key == "model_options"@,
        forall|i: int|
            0 <= i < members.len() ==> (#[trigger] members[i]).key != "model_options"@,
    ensures
        kept(put(members, member), beside_options()) == members,
    decreases members.len(),
{
    let result = put(members, member);
    if members.len() == 0 {
        assert(result =~= seq![member]);
        lemma_kept_first(result);
        assert(result.skip(1) =~= members);
    } else if precedes(member.key, members[0].key) {
        assert(result =~= seq![member] + members);
        lemma_kept_first(result);
        assert(result.skip(1) =~= members);
        lemma_kept_all(members);
    } else {
        let rest = members.skip(1);
        assert forall|i: int| 0 <= i < rest.len() implies (#[trigger] rest[i]).key
            != "model_options"@ by {
            assert(rest[i] == members[i + 1]);
        }
        lemma_kept_put(rest, member);
        lemma_kept_first(result);
        assert(result.skip(1) =~= put(rest, member));
        assert(members =~= seq![members[0]] + rest);
    }
}

proof fn lemma_kept_first(members: Seq<MemberView>)
    requires
        members.len() > 0,
    ensures
        kept(members, beside_options()) == (if beside_options()(members[0]) {
            seq![members[0]] + kept(members.skip(1), beside_options())
        } else {
            kept(members.skip(1), beside_options())
        }),
{
}

/// Omitted and empty model options are the same submission.
pub proof fn law_empty_options_are_omitted_options(
    profile_ref: VersionedRefView,
    members: Seq<MemberView>,
    system_inputs: JsonView,
)
    requires
        forall|i: int|
            0 <= i < members.len() ==> (#[trigger] members[i]).key != "model_options"@,
    ensures
        submission_digest(
            profile_ref,
            JsonView::Object(
                put(
                    members,
                    MemberView {
                        key: "model_options"@,
                        value: JsonView::Object(Seq::empty()),
                    },
                ),
            ),
            system_inputs,
        ) == submission_digest(profile_ref, JsonView::Object(members), system_inputs),
{
    lemma_options_put(members, JsonView::Object(Seq::empty()));
    lemma_absent_key(members, "model_options"@);
}

/// Two captures of one profile have the same digest where their requests, without empty options, and
/// their system inputs are written alike: the spelling of a text, the order of its members and the
/// request that was decoded from it count for nothing.
pub proof fn law_captures_of_one_submission_have_one_digest(
    profile_ref: VersionedRefView,
    request: ReadingView,
    system_inputs: Option<ReadingView>,
    decoded: SubmittedRequestView,
    other_request: ReadingView,
    other_inputs: Option<ReadingView>,
    other_decoded: SubmittedRequestView,
)
    requires
        canonical_text(without_empty_options(as_written(request))) == canonical_text(
            without_empty_options(as_written(other_request)),
        ),
        canonical_text(
            captured(profile_ref, request, system_inputs, decoded).system_inputs,
        ) == canonical_text(
            captured(profile_ref, other_request, other_inputs, other_decoded).system_inputs,
        ),
    ensures
        captured(profile_ref, request, system_inputs, decoded).digest == captured(
            profile_ref,
            other_request,
            other_inputs,
            other_decoded,
        ).digest,
{
    let one = submission_json(
        profile_ref,
        as_written(request),
        captured(profile_ref, request, system_inputs, decoded).system_inputs,
    )->Object_0;
    let other = submission_json(
        profile_ref,
        as_written(other_request),
        captured(profile_ref, other_request, other_inputs, other_decoded).system_inputs,
    )->Object_0;
    lemma_member_parts(one);
    lemma_member_parts(other);
    assert(member_parts(one) =~= member_parts(other));
}

/// Two captures have the same digest exactly where the hash of all that a submission is compared by,
/// the profile, the request without empty options and the system inputs in canonical form, is the
/// same.
pub proof fn law_equal_digests_are_equal_hashes(
    profile_ref: VersionedRefView,
    request: ReadingView,
    system_inputs: Option<ReadingView>,
    decoded: SubmittedRequestView,
    other_profile: VersionedRefView,
    other_request: ReadingView,
    other_inputs: Option<ReadingView>,
    other_decoded: SubmittedRequestView,
)
    ensures
        ({
            let one = captured(profile_ref, request, system_inputs, decoded);
            let other = captured(other_profile, other_request, other_inputs, other_decoded);
            one.digest == other.digest <==> submission_hash(one) == submission_hash(other)
        }),
{
    let one = captured(profile_ref, request, system_inputs, decoded);
    let other = captured(other_profile, other_request, other_inputs, other_decoded);
    let prefix = "wickle-canonical-json-v1:sha256:"@;
    assert(one.digest.skip(prefix.len() as int) =~= submission_hash(one));
    assert(other.digest.skip(prefix.len() as int) =~= submission_hash(other));
}

/// The hash of all that a submission is compared by.
pub open spec fn submission_hash(submitted: RequestSnapshotView) -> Seq<char> {
    sha256_hex(
        encode_utf8(
            canonical_text(
                submission_json(
                    submitted.profile_ref,
                    submitted.request,
                    submitted.system_inputs,
                ),
            ),
        ),
    )
}

/// A segment that was interrupted can be taken up again: it names itself, it can be recovered, it was
/// stopped and not cancelled or exhausted, and it did not end before it began.
pub proof fn law_interrupted_segments_can_be_taken_up(segment: ExecutionSegmentView)
    requires
        segment_fault(segment) is None,
    ensures
        segment.outcome matches Some(SegmentOutcomeView::Interrupted { interruption }) ==> {
            &&& interruption.segment_id == segment.segment_id
            &&& interruption.recoverable
            &&& interruption.cause == InterruptionCause::HostShutdown || interruption.cause
                == InterruptionCause::SegmentStopped
            &&& segment.accepted_revision <= interruption.checkpoint_revision
        },
        segment.outcome matches Some(SegmentOutcomeView::Settled { outcome }) ==> {
            &&& outcome.defect is None
            &&& segment.accepted_revision <= outcome.checkpoint_revision
            &&& outcome.app_state == segment.app_state
            &&& segment.source_snapshot_ref is None
        },
        segment.outcome is None ==> segment.last_event_seq is None
            && segment.source_snapshot_ref is None,
{
}

} // verus!
