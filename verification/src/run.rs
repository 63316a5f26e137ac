//! Runs: their requests, checkpoints, outcomes and durable events.
use vstd::prelude::*;

use crate::content::{InputContent, InputRequest, ToolLedgerEntry};
#[allow(unused_imports)]
use crate::content::{InputContentView, InputRequestView, ToolLedgerEntryView};
use crate::context::SourceExecutionState;
#[allow(unused_imports)]
use crate::context::SourceExecutionStateView;
use crate::data::Data;
use crate::error::{verdict, ContractError};
#[allow(unused_imports)]
use crate::error::{failure, Fault};
use crate::execution_contracts::{AppState, InterruptionRecord};
#[allow(unused_imports)]
use crate::execution_contracts::{AppStateView, InterruptionRecordView};
use crate::hook::HookApplication;
#[allow(unused_imports)]
use crate::hook::HookApplicationView;
use crate::json::{Json, Member};
#[allow(unused_imports)]
use crate::json::{JsonView, MemberView};
use crate::model::ModelInvocationRecord;
#[allow(unused_imports)]
use crate::model::ModelInvocationRecordView;
use crate::recovery::RecoveryReceipt;
#[allow(unused_imports)]
use crate::recovery::RecoveryReceiptView;
use crate::refs::{RecordRef, Scope, VersionedRef};
#[allow(unused_imports)]
use crate::refs::{RecordRefView, ScopeView, VersionedRefView};
use crate::resolution::ResolvedProfile;
#[allow(unused_imports)]
use crate::resolution::ResolvedProfileView;
use crate::serialization::{Id, JsonDigest};
use crate::verification::VerificationSummary;
#[allow(unused_imports)]
use crate::verification::VerificationSummaryView;

verus! {

/// Core execution status.
#[derive(Debug, Clone, Copy, PartialEq, Eq, Structural)]
pub enum RunStatus {
    Running,
    Waiting,
    Interrupted,
    Succeeded,
    Failed,
    Cancelled,
    Exhausted,
}

impl View for RunStatus {
    type V = RunStatus;

    open spec fn view(&self) -> RunStatus {
        *self
    }
}

impl DeepView for RunStatus {
    type V = RunStatus;

    open spec fn deep_view(&self) -> RunStatus {
        *self
    }
}

impl Data for RunStatus {
    fn same(&self, other: &Self) -> (r: bool) {
        *self == *other
    }

    fn copy(&self) -> (r: Self) {
        *self
    }
}

/// Last confirmed core cursor.
#[derive(Debug, Clone, Copy, PartialEq, Eq, Structural)]
pub enum RunPhase {
    Admission,
    Model,
    Tool,
    Verification,
    Settled,
}

impl View for RunPhase {
    type V = RunPhase;

    open spec fn view(&self) -> RunPhase {
        *self
    }
}

impl DeepView for RunPhase {
    type V = RunPhase;

    open spec fn deep_view(&self) -> RunPhase {
        *self
    }
}

impl Data for RunPhase {
    fn same(&self, other: &Self) -> (r: bool) {
        *self == *other
    }

    fn copy(&self) -> (r: Self) {
        *self
    }
}

/// A budget that can run out.
#[derive(Debug, Clone, Copy, PartialEq, Eq, Structural)]
pub enum BudgetKind {
    ModelCalls,
    ToolAttempts,
    RepairAttempts,
    RecoveryAttempts,
    Elapsed,
}

impl View for BudgetKind {
    type V = BudgetKind;

    open spec fn view(&self) -> BudgetKind {
        *self
    }
}

impl DeepView for BudgetKind {
    type V = BudgetKind;

    open spec fn deep_view(&self) -> BudgetKind {
        *self
    }
}

impl Data for BudgetKind {
    fn same(&self, other: &Self) -> (r: bool) {
        *self == *other
    }

    fn copy(&self) -> (r: Self) {
        *self
    }
}

/// What a reservation is for.
#[derive(Debug, Clone, Copy, PartialEq, Eq, Structural)]
pub enum ReservationKind {
    Model,
    Tool,
    Repair,
    Recovery,
}

impl View for ReservationKind {
    type V = ReservationKind;

    open spec fn view(&self) -> ReservationKind {
        *self
    }
}

impl DeepView for ReservationKind {
    type V = ReservationKind;

    open spec fn deep_view(&self) -> ReservationKind {
        *self
    }
}

impl Data for ReservationKind {
    fn same(&self, other: &Self) -> (r: bool) {
        *self == *other
    }

    fn copy(&self) -> (r: Self) {
        *self
    }
}

/// A submitted run request.
#[derive(Debug)]
pub struct RunRequest {
    pub request_id: Id,
    pub session_id: Id,
    pub input: Vec<InputContent>,
    /// Canonical digest of the encoded input.
    pub input_digest: JsonDigest,
    pub model_options: Vec<Member>,
    pub max_output_tokens: Option<u64>,
}

#[verifier::ext_equal]
pub struct RunRequestView {
    pub request_id: Seq<char>,
    pub session_id: Seq<char>,
    pub input: Seq<InputContentView>,
    pub input_digest: Seq<char>,
    pub model_options: Seq<MemberView>,
    pub max_output_tokens: Option<u64>,
}

impl View for RunRequest {
    type V = RunRequestView;

    open spec fn view(&self) -> RunRequestView {
        RunRequestView {
            request_id: self.request_id.deep_view(),
            session_id: self.session_id.deep_view(),
            input: self.input.deep_view(),
            input_digest: self.input_digest.deep_view(),
            model_options: self.model_options.deep_view(),
            max_output_tokens: self.max_output_tokens.deep_view(),
        }
    }
}

impl DeepView for RunRequest {
    type V = RunRequestView;

    open spec fn deep_view(&self) -> RunRequestView {
        self@
    }
}

impl Data for RunRequest {
    fn same(&self, other: &Self) -> (r: bool) {
        self.request_id.same(&other.request_id)
            && self.session_id.same(&other.session_id)
            && self.input.same(&other.input)
            && self.input_digest.same(&other.input_digest)
            && self.model_options.same(&other.model_options)
            && self.max_output_tokens.same(&other.max_output_tokens)
    }

    fn copy(&self) -> (r: Self) {
        RunRequest {
            request_id: self.request_id.copy(),
            session_id: self.session_id.copy(),
            input: self.input.copy(),
            input_digest: self.input_digest.copy(),
            model_options: self.model_options.copy(),
            max_output_tokens: self.max_output_tokens.copy(),
        }
    }
}

/// What a run has used.
#[derive(Debug)]
pub struct BudgetUsage {
    pub model_calls: u64,
    pub tool_attempts: u64,
    pub repair_attempts: u64,
    pub recovery_attempts: u64,
    pub elapsed_ms: u64,
}

#[verifier::ext_equal]
pub struct BudgetUsageView {
    pub model_calls: u64,
    pub tool_attempts: u64,
    pub repair_attempts: u64,
    pub recovery_attempts: u64,
    pub elapsed_ms: u64,
}

impl View for BudgetUsage {
    type V = BudgetUsageView;

    open spec fn view(&self) -> BudgetUsageView {
        BudgetUsageView {
            model_calls: self.model_calls.deep_view(),
            tool_attempts: self.tool_attempts.deep_view(),
            repair_attempts: self.repair_attempts.deep_view(),
            recovery_attempts: self.recovery_attempts.deep_view(),
            elapsed_ms: self.elapsed_ms.deep_view(),
        }
    }
}

impl DeepView for BudgetUsage {
    type V = BudgetUsageView;

    open spec fn deep_view(&self) -> BudgetUsageView {
        self@
    }
}

impl Data for BudgetUsage {
    fn same(&self, other: &Self) -> (r: bool) {
        self.model_calls.same(&other.model_calls)
            && self.tool_attempts.same(&other.tool_attempts)
            && self.repair_attempts.same(&other.repair_attempts)
            && self.recovery_attempts.same(&other.recovery_attempts)
            && self.elapsed_ms.same(&other.elapsed_ms)
    }

    fn copy(&self) -> (r: Self) {
        BudgetUsage {
            model_calls: self.model_calls.copy(),
            tool_attempts: self.tool_attempts.copy(),
            repair_attempts: self.repair_attempts.copy(),
            recovery_attempts: self.recovery_attempts.copy(),
            elapsed_ms: self.elapsed_ms.copy(),
        }
    }
}

/// What a run may use.
#[derive(Debug)]
pub struct RunLimits {
    pub max_model_calls: u64,
    pub max_tool_attempts: u64,
    pub max_repair_attempts: u64,
    pub max_recovery_attempts: u64,
    pub max_elapsed_ms: u64,
}

#[verifier::ext_equal]
pub struct RunLimitsView {
    pub max_model_calls: u64,
    pub max_tool_attempts: u64,
    pub max_repair_attempts: u64,
    pub max_recovery_attempts: u64,
    pub max_elapsed_ms: u64,
}

impl View for RunLimits {
    type V = RunLimitsView;

    open spec fn view(&self) -> RunLimitsView {
        RunLimitsView {
            max_model_calls: self.max_model_calls.deep_view(),
            max_tool_attempts: self.max_tool_attempts.deep_view(),
            max_repair_attempts: self.max_repair_attempts.deep_view(),
            max_recovery_attempts: self.max_recovery_attempts.deep_view(),
            max_elapsed_ms: self.max_elapsed_ms.deep_view(),
        }
    }
}

impl DeepView for RunLimits {
    type V = RunLimitsView;

    open spec fn deep_view(&self) -> RunLimitsView {
        self@
    }
}

impl Data for RunLimits {
    fn same(&self, other: &Self) -> (r: bool) {
        self.max_model_calls.same(&other.max_model_calls)
            && self.max_tool_attempts.same(&other.max_tool_attempts)
            && self.max_repair_attempts.same(&other.max_repair_attempts)
            && self.max_recovery_attempts.same(&other.max_recovery_attempts)
            && self.max_elapsed_ms.same(&other.max_elapsed_ms)
    }

    fn copy(&self) -> (r: Self) {
        RunLimits {
            max_model_calls: self.max_model_calls.copy(),
            max_tool_attempts: self.max_tool_attempts.copy(),
            max_repair_attempts: self.max_repair_attempts.copy(),
            max_recovery_attempts: self.max_recovery_attempts.copy(),
            max_elapsed_ms: self.max_elapsed_ms.copy(),
        }
    }
}

/// Trusted clock observations of a run.
#[derive(Debug)]
pub struct RunTiming {
    pub deadline_at_ms: i64,
    pub last_observed_at_ms: i64,
}

#[verifier::ext_equal]
pub struct RunTimingView {
    pub deadline_at_ms: i64,
    pub last_observed_at_ms: i64,
}

impl View for RunTiming {
    type V = RunTimingView;

    open spec fn view(&self) -> RunTimingView {
        RunTimingView {
            deadline_at_ms: self.deadline_at_ms.deep_view(),
            last_observed_at_ms: self.last_observed_at_ms.deep_view(),
        }
    }
}

impl DeepView for RunTiming {
    type V = RunTimingView;

    open spec fn deep_view(&self) -> RunTimingView {
        self@
    }
}

impl Data for RunTiming {
    fn same(&self, other: &Self) -> (r: bool) {
        self.deadline_at_ms.same(&other.deadline_at_ms)
            && self.last_observed_at_ms.same(&other.last_observed_at_ms)
    }

    fn copy(&self) -> (r: Self) {
        RunTiming {
            deadline_at_ms: self.deadline_at_ms.copy(),
            last_observed_at_ms: self.last_observed_at_ms.copy(),
        }
    }
}

/// A reserved attempt.
#[derive(Debug)]
pub struct Reservation {
    pub attempt_id: Id,
    pub kind: ReservationKind,
}

#[verifier::ext_equal]
pub struct ReservationView {
    pub attempt_id: Seq<char>,
    pub kind: ReservationKind,
}

impl View for Reservation {
    type V = ReservationView;

    open spec fn view(&self) -> ReservationView {
        ReservationView {
            attempt_id: self.attempt_id.deep_view(),
            kind: self.kind.deep_view(),
        }
    }
}

impl DeepView for Reservation {
    type V = ReservationView;

    open spec fn deep_view(&self) -> ReservationView {
        self@
    }
}

impl Data for Reservation {
    fn same(&self, other: &Self) -> (r: bool) {
        self.attempt_id.same(&other.attempt_id)
            && self.kind.same(&other.kind)
    }

    fn copy(&self) -> (r: Self) {
        Reservation {
            attempt_id: self.attempt_id.copy(),
            kind: self.kind.copy(),
        }
    }
}

/// What an approval is asked for.
#[derive(Debug)]
pub enum ApprovalTarget {
    Tool {
        call_id: Id,
        binding_digest: JsonDigest,
    },
    Candidate {
        candidate_ref: RecordRef,
        verifier_ref: VersionedRef,
    },
}

#[verifier::ext_equal]
pub enum ApprovalTargetView {
    Tool {
        call_id: Seq<char>,
        binding_digest: Seq<char>,
    },
    Candidate {
        candidate_ref: RecordRefView,
        verifier_ref: VersionedRefView,
    },
}

impl View for ApprovalTarget {
    type V = ApprovalTargetView;

    open spec fn view(&self) -> ApprovalTargetView {
        match self {
            ApprovalTarget::Tool { call_id, binding_digest } => ApprovalTargetView::Tool { call_id: call_id.deep_view(), binding_digest: binding_digest.deep_view() },
            ApprovalTarget::Candidate { candidate_ref, verifier_ref } => ApprovalTargetView::Candidate { candidate_ref: candidate_ref.deep_view(), verifier_ref: verifier_ref.deep_view() },
        }
    }
}

impl DeepView for ApprovalTarget {
    type V = ApprovalTargetView;

    open spec fn deep_view(&self) -> ApprovalTargetView {
        self@
    }
}

impl Data for ApprovalTarget {
    fn same(&self, other: &Self) -> (r: bool) {
        match (self, other) {
            (ApprovalTarget::Tool { call_id: call_id1, binding_digest: binding_digest1 }, ApprovalTarget::Tool { call_id: call_id2, binding_digest: binding_digest2 }) => call_id1.same(call_id2) && binding_digest1.same(binding_digest2),
            (ApprovalTarget::Candidate { candidate_ref: candidate_ref1, verifier_ref: verifier_ref1 }, ApprovalTarget::Candidate { candidate_ref: candidate_ref2, verifier_ref: verifier_ref2 }) => candidate_ref1.same(candidate_ref2) && verifier_ref1.same(verifier_ref2),
            _ => false,
        }
    }

    fn copy(&self) -> (r: Self) {
        match self {
            ApprovalTarget::Tool { call_id, binding_digest } => ApprovalTarget::Tool { call_id: call_id.copy(), binding_digest: binding_digest.copy() },
            ApprovalTarget::Candidate { candidate_ref, verifier_ref } => ApprovalTarget::Candidate { candidate_ref: candidate_ref.copy(), verifier_ref: verifier_ref.copy() },
        }
    }
}

/// What a run waits for.
#[derive(Debug)]
pub enum WaitTarget {
    Approval {
        target: ApprovalTarget,
    },
    Input {
        request: InputRequest,
    },
    External {
        call_id: Id,
        effect_key: Id,
    },
}

#[verifier::ext_equal]
pub enum WaitTargetView {
    Approval {
        target: ApprovalTargetView,
    },
    Input {
        request: InputRequestView,
    },
    External {
        call_id: Seq<char>,
        effect_key: Seq<char>,
    },
}

impl View for WaitTarget {
    type V = WaitTargetView;

    open spec fn view(&self) -> WaitTargetView {
        match self {
            WaitTarget::Approval { target } => WaitTargetView::Approval { target: target.deep_view() },
            WaitTarget::Input { request } => WaitTargetView::Input { request: request.deep_view() },
            WaitTarget::External { call_id, effect_key } => WaitTargetView::External { call_id: call_id.deep_view(), effect_key: effect_key.deep_view() },
        }
    }
}

impl DeepView for WaitTarget {
    type V = WaitTargetView;

    open spec fn deep_view(&self) -> WaitTargetView {
        self@
    }
}

impl Data for WaitTarget {
    fn same(&self, other: &Self) -> (r: bool) {
        match (self, other) {
            (WaitTarget::Approval { target: target1 }, WaitTarget::Approval { target: target2 }) => target1.same(target2),
            (WaitTarget::Input { request: request1 }, WaitTarget::Input { request: request2 }) => request1.same(request2),
            (WaitTarget::External { call_id: call_id1, effect_key: effect_key1 }, WaitTarget::External { call_id: call_id2, effect_key: effect_key2 }) => call_id1.same(call_id2) && effect_key1.same(effect_key2),
            _ => false,
        }
    }

    fn copy(&self) -> (r: Self) {
        match self {
            WaitTarget::Approval { target } => WaitTarget::Approval { target: target.copy() },
            WaitTarget::Input { request } => WaitTarget::Input { request: request.copy() },
            WaitTarget::External { call_id, effect_key } => WaitTarget::External { call_id: call_id.copy(), effect_key: effect_key.copy() },
        }
    }
}

/// A durable wait.
#[derive(Debug)]
pub struct WaitState {
    pub wait_id: Id,
    pub target: WaitTarget,
    pub expires_at_ms: Option<i64>,
}

#[verifier::ext_equal]
pub struct WaitStateView {
    pub wait_id: Seq<char>,
    pub target: WaitTargetView,
    pub expires_at_ms: Option<i64>,
}

impl View for WaitState {
    type V = WaitStateView;

    open spec fn view(&self) -> WaitStateView {
        WaitStateView {
            wait_id: self.wait_id.deep_view(),
            target: self.target.deep_view(),
            expires_at_ms: self.expires_at_ms.deep_view(),
        }
    }
}

impl DeepView for WaitState {
    type V = WaitStateView;

    open spec fn deep_view(&self) -> WaitStateView {
        self@
    }
}

impl Data for WaitState {
    fn same(&self, other: &Self) -> (r: bool) {
        self.wait_id.same(&other.wait_id)
            && self.target.same(&other.target)
            && self.expires_at_ms.same(&other.expires_at_ms)
    }

    fn copy(&self) -> (r: Self) {
        WaitState {
            wait_id: self.wait_id.copy(),
            target: self.target.copy(),
            expires_at_ms: self.expires_at_ms.copy(),
        }
    }
}

/// How a run is resumed.
#[derive(Debug)]
pub enum ResumeAction {
    Approve {
        wait_id: Id,
        target: ApprovalTarget,
    },
    Deny {
        wait_id: Id,
        target: ApprovalTarget,
        reason: String,
    },
    Input {
        wait_id: Id,
        answer: Json,
    },
    External {
        wait_id: Id,
        receipt_ref: RecordRef,
    },
    Recover {
        recovery_ref: RecordRef,
    },
}

#[verifier::ext_equal]
pub enum ResumeActionView {
    Approve {
        wait_id: Seq<char>,
        target: ApprovalTargetView,
    },
    Deny {
        wait_id: Seq<char>,
        target: ApprovalTargetView,
        reason: Seq<char>,
    },
    Input {
        wait_id: Seq<char>,
        answer: JsonView,
    },
    External {
        wait_id: Seq<char>,
        receipt_ref: RecordRefView,
    },
    Recover {
        recovery_ref: RecordRefView,
    },
}

impl View for ResumeAction {
    type V = ResumeActionView;

    open spec fn view(&self) -> ResumeActionView {
        match self {
            ResumeAction::Approve { wait_id, target } => ResumeActionView::Approve { wait_id: wait_id.deep_view(), target: target.deep_view() },
            ResumeAction::Deny { wait_id, target, reason } => ResumeActionView::Deny { wait_id: wait_id.deep_view(), target: target.deep_view(), reason: reason.deep_view() },
            ResumeAction::Input { wait_id, answer } => ResumeActionView::Input { wait_id: wait_id.deep_view(), answer: answer.deep_view() },
            ResumeAction::External { wait_id, receipt_ref } => ResumeActionView::External { wait_id: wait_id.deep_view(), receipt_ref: receipt_ref.deep_view() },
            ResumeAction::Recover { recovery_ref } => ResumeActionView::Recover { recovery_ref: recovery_ref.deep_view() },
        }
    }
}

impl DeepView for ResumeAction {
    type V = ResumeActionView;

    open spec fn deep_view(&self) -> ResumeActionView {
        self@
    }
}

impl Data for ResumeAction {
    fn same(&self, other: &Self) -> (r: bool) {
        match (self, other) {
            (ResumeAction::Approve { wait_id: wait_id1, target: target1 }, ResumeAction::Approve { wait_id: wait_id2, target: target2 }) => wait_id1.same(wait_id2) && target1.same(target2),
            (ResumeAction::Deny { wait_id: wait_id1, target: target1, reason: reason1 }, ResumeAction::Deny { wait_id: wait_id2, target: target2, reason: reason2 }) => wait_id1.same(wait_id2) && target1.same(target2) && reason1.same(reason2),
            (ResumeAction::Input { wait_id: wait_id1, answer: answer1 }, ResumeAction::Input { wait_id: wait_id2, answer: answer2 }) => wait_id1.same(wait_id2) && answer1.same(answer2),
            (ResumeAction::External { wait_id: wait_id1, receipt_ref: receipt_ref1 }, ResumeAction::External { wait_id: wait_id2, receipt_ref: receipt_ref2 }) => wait_id1.same(wait_id2) && receipt_ref1.same(receipt_ref2),
            (ResumeAction::Recover { recovery_ref: recovery_ref1 }, ResumeAction::Recover { recovery_ref: recovery_ref2 }) => recovery_ref1.same(recovery_ref2),
            _ => false,
        }
    }

    fn copy(&self) -> (r: Self) {
        match self {
            ResumeAction::Approve { wait_id, target } => ResumeAction::Approve { wait_id: wait_id.copy(), target: target.copy() },
            ResumeAction::Deny { wait_id, target, reason } => ResumeAction::Deny { wait_id: wait_id.copy(), target: target.copy(), reason: reason.copy() },
            ResumeAction::Input { wait_id, answer } => ResumeAction::Input { wait_id: wait_id.copy(), answer: answer.copy() },
            ResumeAction::External { wait_id, receipt_ref } => ResumeAction::External { wait_id: wait_id.copy(), receipt_ref: receipt_ref.copy() },
            ResumeAction::Recover { recovery_ref } => ResumeAction::Recover { recovery_ref: recovery_ref.copy() },
        }
    }
}

/// A command that resumes a run.
#[derive(Debug)]
pub struct ResumeCommand {
    pub command_id: Id,
    pub run_id: Id,
    pub expected_revision: u64,
    pub action: ResumeAction,
    /// Canonical digest of the encoded command.
    pub digest: JsonDigest,
}

#[verifier::ext_equal]
pub struct ResumeCommandView {
    pub command_id: Seq<char>,
    pub run_id: Seq<char>,
    pub expected_revision: u64,
    pub action: ResumeActionView,
    pub digest: Seq<char>,
}

impl View for ResumeCommand {
    type V = ResumeCommandView;

    open spec fn view(&self) -> ResumeCommandView {
        ResumeCommandView {
            command_id: self.command_id.deep_view(),
            run_id: self.run_id.deep_view(),
            expected_revision: self.expected_revision.deep_view(),
            action: self.action.deep_view(),
            digest: self.digest.deep_view(),
        }
    }
}

impl DeepView for ResumeCommand {
    type V = ResumeCommandView;

    open spec fn deep_view(&self) -> ResumeCommandView {
        self@
    }
}

impl Data for ResumeCommand {
    fn same(&self, other: &Self) -> (r: bool) {
        self.command_id.same(&other.command_id)
            && self.run_id.same(&other.run_id)
            && self.expected_revision.same(&other.expected_revision)
            && self.action.same(&other.action)
            && self.digest.same(&other.digest)
    }

    fn copy(&self) -> (r: Self) {
        ResumeCommand {
            command_id: self.command_id.copy(),
            run_id: self.run_id.copy(),
            expected_revision: self.expected_revision.copy(),
            action: self.action.copy(),
            digest: self.digest.copy(),
        }
    }
}

/// A consumed resume command.
#[derive(Debug)]
pub struct ResumeReceipt {
    pub command: ResumeCommand,
    pub command_ref: RecordRef,
    pub previous_outcome_ref: RecordRef,
    pub accepted_revision: u64,
    pub previous_segment_start_revision: u64,
    pub previous_last_event_seq: u64,
    pub expired: bool,
}

#[verifier::ext_equal]
pub struct ResumeReceiptView {
    pub command: ResumeCommandView,
    pub command_ref: RecordRefView,
    pub previous_outcome_ref: RecordRefView,
    pub accepted_revision: u64,
    pub previous_segment_start_revision: u64,
    pub previous_last_event_seq: u64,
    pub expired: bool,
}

impl View for ResumeReceipt {
    type V = ResumeReceiptView;

    open spec fn view(&self) -> ResumeReceiptView {
        ResumeReceiptView {
            command: self.command.deep_view(),
            command_ref: self.command_ref.deep_view(),
            previous_outcome_ref: self.previous_outcome_ref.deep_view(),
            accepted_revision: self.accepted_revision.deep_view(),
            previous_segment_start_revision: self.previous_segment_start_revision.deep_view(),
            previous_last_event_seq: self.previous_last_event_seq.deep_view(),
            expired: self.expired.deep_view(),
        }
    }
}

impl DeepView for ResumeReceipt {
    type V = ResumeReceiptView;

    open spec fn deep_view(&self) -> ResumeReceiptView {
        self@
    }
}

impl Data for ResumeReceipt {
    fn same(&self, other: &Self) -> (r: bool) {
        self.command.same(&other.command)
            && self.command_ref.same(&other.command_ref)
            && self.previous_outcome_ref.same(&other.previous_outcome_ref)
            && self.accepted_revision.same(&other.accepted_revision)
            && self.previous_segment_start_revision.same(&other.previous_segment_start_revision)
            && self.previous_last_event_seq.same(&other.previous_last_event_seq)
            && self.expired.same(&other.expired)
    }

    fn copy(&self) -> (r: Self) {
        ResumeReceipt {
            command: self.command.copy(),
            command_ref: self.command_ref.copy(),
            previous_outcome_ref: self.previous_outcome_ref.copy(),
            accepted_revision: self.accepted_revision.copy(),
            previous_segment_start_revision: self.previous_segment_start_revision.copy(),
            previous_last_event_seq: self.previous_last_event_seq.copy(),
            expired: self.expired.copy(),
        }
    }
}

/// A classified run failure.
#[derive(Debug)]
pub struct RunFailure {
    pub code: Id,
    pub diagnostic_ref: Option<RecordRef>,
}

#[verifier::ext_equal]
pub struct RunFailureView {
    pub code: Seq<char>,
    pub diagnostic_ref: Option<RecordRefView>,
}

impl View for RunFailure {
    type V = RunFailureView;

    open spec fn view(&self) -> RunFailureView {
        RunFailureView {
            code: self.code.deep_view(),
            diagnostic_ref: self.diagnostic_ref.deep_view(),
        }
    }
}

impl DeepView for RunFailure {
    type V = RunFailureView;

    open spec fn deep_view(&self) -> RunFailureView {
        self@
    }
}

impl Data for RunFailure {
    fn same(&self, other: &Self) -> (r: bool) {
        self.code.same(&other.code)
            && self.diagnostic_ref.same(&other.diagnostic_ref)
    }

    fn copy(&self) -> (r: Self) {
        RunFailure {
            code: self.code.copy(),
            diagnostic_ref: self.diagnostic_ref.copy(),
        }
    }
}

/// How an execution interval ended.
#[derive(Debug)]
pub enum OutcomeResult {
    /// The turn ended; on what basis, is saved under its name.
    Succeeded {
        completion_basis: Id,
    },
    Failed {
        failure: RunFailure,
    },
    Cancelled {
        reason: String,
    },
    Exhausted {
        budget: BudgetKind,
    },
    Waiting {
        wait: WaitState,
    },
    Interrupted {
        interruption: InterruptionRecord,
    },
}

#[verifier::ext_equal]
pub enum OutcomeResultView {
    Succeeded {
        completion_basis: Seq<char>,
    },
    Failed {
        failure: RunFailureView,
    },
    Cancelled {
        reason: Seq<char>,
    },
    Exhausted {
        budget: BudgetKind,
    },
    Waiting {
        wait: WaitStateView,
    },
    Interrupted {
        interruption: InterruptionRecordView,
    },
}

impl View for OutcomeResult {
    type V = OutcomeResultView;

    open spec fn view(&self) -> OutcomeResultView {
        match self {
            OutcomeResult::Succeeded { completion_basis } => OutcomeResultView::Succeeded { completion_basis: completion_basis.deep_view() },
            OutcomeResult::Failed { failure } => OutcomeResultView::Failed { failure: failure.deep_view() },
            OutcomeResult::Cancelled { reason } => OutcomeResultView::Cancelled { reason: reason.deep_view() },
            OutcomeResult::Exhausted { budget } => OutcomeResultView::Exhausted { budget: budget.deep_view() },
            OutcomeResult::Waiting { wait } => OutcomeResultView::Waiting { wait: wait.deep_view() },
            OutcomeResult::Interrupted { interruption } => OutcomeResultView::Interrupted { interruption: interruption.deep_view() },
        }
    }
}

impl DeepView for OutcomeResult {
    type V = OutcomeResultView;

    open spec fn deep_view(&self) -> OutcomeResultView {
        self@
    }
}

impl Data for OutcomeResult {
    fn same(&self, other: &Self) -> (r: bool) {
        match (self, other) {
            (OutcomeResult::Succeeded { completion_basis: completion_basis1 }, OutcomeResult::Succeeded { completion_basis: completion_basis2 }) => completion_basis1.same(completion_basis2),
            (OutcomeResult::Failed { failure: failure1 }, OutcomeResult::Failed { failure: failure2 }) => failure1.same(failure2),
            (OutcomeResult::Cancelled { reason: reason1 }, OutcomeResult::Cancelled { reason: reason2 }) => reason1.same(reason2),
            (OutcomeResult::Exhausted { budget: budget1 }, OutcomeResult::Exhausted { budget: budget2 }) => budget1.same(budget2),
            (OutcomeResult::Waiting { wait: wait1 }, OutcomeResult::Waiting { wait: wait2 }) => wait1.same(wait2),
            (OutcomeResult::Interrupted { interruption: interruption1 }, OutcomeResult::Interrupted { interruption: interruption2 }) => interruption1.same(interruption2),
            _ => false,
        }
    }

    fn copy(&self) -> (r: Self) {
        match self {
            OutcomeResult::Succeeded { completion_basis } => OutcomeResult::Succeeded { completion_basis: completion_basis.copy() },
            OutcomeResult::Failed { failure } => OutcomeResult::Failed { failure: failure.copy() },
            OutcomeResult::Cancelled { reason } => OutcomeResult::Cancelled { reason: reason.copy() },
            OutcomeResult::Exhausted { budget } => OutcomeResult::Exhausted { budget: budget.copy() },
            OutcomeResult::Waiting { wait } => OutcomeResult::Waiting { wait: wait.copy() },
            OutcomeResult::Interrupted { interruption } => OutcomeResult::Interrupted { interruption: interruption.copy() },
        }
    }
}

/// The outcome of an execution interval.
#[derive(Debug)]
pub struct RunOutcome {
    pub result: OutcomeResult,
    pub checkpoint_revision: u64,
    pub usage: BudgetUsage,
    pub unresolved_effects: Vec<RecordRef>,
    pub verification: Option<VerificationSummary>,
    pub output: Vec<InputContent>,
    pub app_state: Option<AppState>,
    /// What structural validation reported when the outcome was decoded.
    pub defect: Option<ContractError>,
}

#[verifier::ext_equal]
pub struct RunOutcomeView {
    pub result: OutcomeResultView,
    pub checkpoint_revision: u64,
    pub usage: BudgetUsageView,
    pub unresolved_effects: Seq<RecordRefView>,
    pub verification: Option<VerificationSummaryView>,
    pub output: Seq<InputContentView>,
    pub app_state: Option<AppStateView>,
    pub defect: Option<Fault>,
}

impl View for RunOutcome {
    type V = RunOutcomeView;

    open spec fn view(&self) -> RunOutcomeView {
        RunOutcomeView {
            result: self.result.deep_view(),
            checkpoint_revision: self.checkpoint_revision.deep_view(),
            usage: self.usage.deep_view(),
            unresolved_effects: self.unresolved_effects.deep_view(),
            verification: self.verification.deep_view(),
            output: self.output.deep_view(),
            app_state: self.app_state.deep_view(),
            defect: self.defect.deep_view(),
        }
    }
}

impl DeepView for RunOutcome {
    type V = RunOutcomeView;

    open spec fn deep_view(&self) -> RunOutcomeView {
        self@
    }
}

impl Data for RunOutcome {
    fn same(&self, other: &Self) -> (r: bool) {
        self.result.same(&other.result)
            && self.checkpoint_revision.same(&other.checkpoint_revision)
            && self.usage.same(&other.usage)
            && self.unresolved_effects.same(&other.unresolved_effects)
            && self.verification.same(&other.verification)
            && self.output.same(&other.output)
            && self.app_state.same(&other.app_state)
            && self.defect.same(&other.defect)
    }

    fn copy(&self) -> (r: Self) {
        RunOutcome {
            result: self.result.copy(),
            checkpoint_revision: self.checkpoint_revision.copy(),
            usage: self.usage.copy(),
            unresolved_effects: self.unresolved_effects.copy(),
            verification: self.verification.copy(),
            output: self.output.copy(),
            app_state: self.app_state.copy(),
            defect: self.defect.copy(),
        }
    }
}

/// Protected system inputs of a run.
#[derive(Debug)]
pub struct SystemInputs {
    pub snapshot_ref: RecordRef,
    pub values_digest: JsonDigest,
}

#[verifier::ext_equal]
pub struct SystemInputsView {
    pub snapshot_ref: RecordRefView,
    pub values_digest: Seq<char>,
}

impl View for SystemInputs {
    type V = SystemInputsView;

    open spec fn view(&self) -> SystemInputsView {
        SystemInputsView {
            snapshot_ref: self.snapshot_ref.deep_view(),
            values_digest: self.values_digest.deep_view(),
        }
    }
}

impl DeepView for SystemInputs {
    type V = SystemInputsView;

    open spec fn deep_view(&self) -> SystemInputsView {
        self@
    }
}

impl Data for SystemInputs {
    fn same(&self, other: &Self) -> (r: bool) {
        self.snapshot_ref.same(&other.snapshot_ref)
            && self.values_digest.same(&other.values_digest)
    }

    fn copy(&self) -> (r: Self) {
        SystemInputs {
            snapshot_ref: self.snapshot_ref.copy(),
            values_digest: self.values_digest.copy(),
        }
    }
}

/// A complete run checkpoint.
#[derive(Debug)]
pub struct RunSnapshot {
    pub run_id: Id,
    pub scope: Scope,
    pub request: RunRequest,
    pub request_digest: JsonDigest,
    pub profile: ResolvedProfile,
    pub system_inputs: Option<SystemInputs>,
    pub limits: RunLimits,
    pub revision: u64,
    pub status: RunStatus,
    pub phase: RunPhase,
    pub usage: BudgetUsage,
    pub timing: RunTiming,
    pub reservations: Vec<Reservation>,
    pub last_event_seq: u64,
    pub wait: Option<WaitState>,
    pub outcome: Option<RunOutcome>,
    pub model_ledger: Vec<ModelInvocationRecord>,
    pub model_step_id: Option<Id>,
    pub model_step_inputs: Vec<RecordRef>,
    pub prepared_steps: Vec<RecordRef>,
    pub active_prepared_step: Option<RecordRef>,
    pub tool_ledger: Vec<ToolLedgerEntry>,
    pub resume_receipts: Vec<ResumeReceipt>,
    pub recovery_receipts: Vec<RecoveryReceipt>,
    pub hook_plan_ref: Option<RecordRef>,
    pub hook_applications: Vec<HookApplication>,
    pub source_plan_ref: Option<RecordRef>,
    pub context_batches: Vec<RecordRef>,
    pub source_states: Vec<SourceExecutionState>,
    pub context_revision_ref: Option<RecordRef>,
    pub context_decisions: Vec<RecordRef>,
    pub skill_plan_ref: Option<RecordRef>,
    pub assembly_ref: Option<RecordRef>,
    pub routing_snapshot_ref: Option<RecordRef>,
    pub verification_plan_ref: Option<RecordRef>,
    pub candidate_ref: Option<RecordRef>,
    pub verification_records: Vec<RecordRef>,
    pub interruption_plan_ref: Option<RecordRef>,
    pub interruption_records: Vec<RecordRef>,
    pub app_state: Option<AppState>,
    /// The encoded checkpoint.
    pub document: Json,
    /// What structural validation reported when the checkpoint was decoded.
    pub defect: Option<ContractError>,
}

#[verifier::ext_equal]
pub struct RunSnapshotView {
    pub run_id: Seq<char>,
    pub scope: ScopeView,
    pub request: RunRequestView,
    pub request_digest: Seq<char>,
    pub profile: ResolvedProfileView,
    pub system_inputs: Option<SystemInputsView>,
    pub limits: RunLimitsView,
    pub revision: u64,
    pub status: RunStatus,
    pub phase: RunPhase,
    pub usage: BudgetUsageView,
    pub timing: RunTimingView,
    pub reservations: Seq<ReservationView>,
    pub last_event_seq: u64,
    pub wait: Option<WaitStateView>,
    pub outcome: Option<RunOutcomeView>,
    pub model_ledger: Seq<ModelInvocationRecordView>,
    pub model_step_id: Option<Seq<char>>,
    pub model_step_inputs: Seq<RecordRefView>,
    pub prepared_steps: Seq<RecordRefView>,
    pub active_prepared_step: Option<RecordRefView>,
    pub tool_ledger: Seq<ToolLedgerEntryView>,
    pub resume_receipts: Seq<ResumeReceiptView>,
    pub recovery_receipts: Seq<RecoveryReceiptView>,
    pub hook_plan_ref: Option<RecordRefView>,
    pub hook_applications: Seq<HookApplicationView>,
    pub source_plan_ref: Option<RecordRefView>,
    pub context_batches: Seq<RecordRefView>,
    pub source_states: Seq<SourceExecutionStateView>,
    pub context_revision_ref: Option<RecordRefView>,
    pub context_decisions: Seq<RecordRefView>,
    pub skill_plan_ref: Option<RecordRefView>,
    pub assembly_ref: Option<RecordRefView>,
    pub routing_snapshot_ref: Option<RecordRefView>,
    pub verification_plan_ref: Option<RecordRefView>,
    pub candidate_ref: Option<RecordRefView>,
    pub verification_records: Seq<RecordRefView>,
    pub interruption_plan_ref: Option<RecordRefView>,
    pub interruption_records: Seq<RecordRefView>,
    pub app_state: Option<AppStateView>,
    pub document: JsonView,
    pub defect: Option<Fault>,
}

impl View for RunSnapshot {
    type V = RunSnapshotView;

    open spec fn view(&self) -> RunSnapshotView {
        RunSnapshotView {
            run_id: self.run_id.deep_view(),
            scope: self.scope.deep_view(),
            request: self.request.deep_view(),
            request_digest: self.request_digest.deep_view(),
            profile: self.profile.deep_view(),
            system_inputs: self.system_inputs.deep_view(),
            limits: self.limits.deep_view(),
            revision: self.revision.deep_view(),
            status: self.status.deep_view(),
            phase: self.phase.deep_view(),
            usage: self.usage.deep_view(),
            timing: self.timing.deep_view(),
            reservations: self.reservations.deep_view(),
            last_event_seq: self.last_event_seq.deep_view(),
            wait: self.wait.deep_view(),
            outcome: self.outcome.deep_view(),
            model_ledger: self.model_ledger.deep_view(),
            model_step_id: self.model_step_id.deep_view(),
            model_step_inputs: self.model_step_inputs.deep_view(),
            prepared_steps: self.prepared_steps.deep_view(),
            active_prepared_step: self.active_prepared_step.deep_view(),
            tool_ledger: self.tool_ledger.deep_view(),
            resume_receipts: self.resume_receipts.deep_view(),
            recovery_receipts: self.recovery_receipts.deep_view(),
            hook_plan_ref: self.hook_plan_ref.deep_view(),
            hook_applications: self.hook_applications.deep_view(),
            source_plan_ref: self.source_plan_ref.deep_view(),
            context_batches: self.context_batches.deep_view(),
            source_states: self.source_states.deep_view(),
            context_revision_ref: self.context_revision_ref.deep_view(),
            context_decisions: self.context_decisions.deep_view(),
            skill_plan_ref: self.skill_plan_ref.deep_view(),
            assembly_ref: self.assembly_ref.deep_view(),
            routing_snapshot_ref: self.routing_snapshot_ref.deep_view(),
            verification_plan_ref: self.verification_plan_ref.deep_view(),
            candidate_ref: self.candidate_ref.deep_view(),
            verification_records: self.verification_records.deep_view(),
            interruption_plan_ref: self.interruption_plan_ref.deep_view(),
            interruption_records: self.interruption_records.deep_view(),
            app_state: self.app_state.deep_view(),
            document: self.document.deep_view(),
            defect: self.defect.deep_view(),
        }
    }
}

impl DeepView for RunSnapshot {
    type V = RunSnapshotView;

    open spec fn deep_view(&self) -> RunSnapshotView {
        self@
    }
}

impl Data for RunSnapshot {
    fn same(&self, other: &Self) -> (r: bool) {
        self.run_id.same(&other.run_id)
            && self.scope.same(&other.scope)
            && self.request.same(&other.request)
            && self.request_digest.same(&other.request_digest)
            && self.profile.same(&other.profile)
            && self.system_inputs.same(&other.system_inputs)
            && self.limits.same(&other.limits)
            && self.revision.same(&other.revision)
            && self.status.same(&other.status)
            && self.phase.same(&other.phase)
            && self.usage.same(&other.usage)
            && self.timing.same(&other.timing)
            && self.reservations.same(&other.reservations)
            && self.last_event_seq.same(&other.last_event_seq)
            && self.wait.same(&other.wait)
            && self.outcome.same(&other.outcome)
            && self.model_ledger.same(&other.model_ledger)
            && self.model_step_id.same(&other.model_step_id)
            && self.model_step_inputs.same(&other.model_step_inputs)
            && self.prepared_steps.same(&other.prepared_steps)
            && self.active_prepared_step.same(&other.active_prepared_step)
            && self.tool_ledger.same(&other.tool_ledger)
            && self.resume_receipts.same(&other.resume_receipts)
            && self.recovery_receipts.same(&other.recovery_receipts)
            && self.hook_plan_ref.same(&other.hook_plan_ref)
            && self.hook_applications.same(&other.hook_applications)
            && self.source_plan_ref.same(&other.source_plan_ref)
            && self.context_batches.same(&other.context_batches)
            && self.source_states.same(&other.source_states)
            && self.context_revision_ref.same(&other.context_revision_ref)
            && self.context_decisions.same(&other.context_decisions)
            && self.skill_plan_ref.same(&other.skill_plan_ref)
            && self.assembly_ref.same(&other.assembly_ref)
            && self.routing_snapshot_ref.same(&other.routing_snapshot_ref)
            && self.verification_plan_ref.same(&other.verification_plan_ref)
            && self.candidate_ref.same(&other.candidate_ref)
            && self.verification_records.same(&other.verification_records)
            && self.interruption_plan_ref.same(&other.interruption_plan_ref)
            && self.interruption_records.same(&other.interruption_records)
            && self.app_state.same(&other.app_state)
            && self.document.same(&other.document)
            && self.defect.same(&other.defect)
    }

    fn copy(&self) -> (r: Self) {
        RunSnapshot {
            run_id: self.run_id.copy(),
            scope: self.scope.copy(),
            request: self.request.copy(),
            request_digest: self.request_digest.copy(),
            profile: self.profile.copy(),
            system_inputs: self.system_inputs.copy(),
            limits: self.limits.copy(),
            revision: self.revision.copy(),
            status: self.status.copy(),
            phase: self.phase.copy(),
            usage: self.usage.copy(),
            timing: self.timing.copy(),
            reservations: self.reservations.copy(),
            last_event_seq: self.last_event_seq.copy(),
            wait: self.wait.copy(),
            outcome: self.outcome.copy(),
            model_ledger: self.model_ledger.copy(),
            model_step_id: self.model_step_id.copy(),
            model_step_inputs: self.model_step_inputs.copy(),
            prepared_steps: self.prepared_steps.copy(),
            active_prepared_step: self.active_prepared_step.copy(),
            tool_ledger: self.tool_ledger.copy(),
            resume_receipts: self.resume_receipts.copy(),
            recovery_receipts: self.recovery_receipts.copy(),
            hook_plan_ref: self.hook_plan_ref.copy(),
            hook_applications: self.hook_applications.copy(),
            source_plan_ref: self.source_plan_ref.copy(),
            context_batches: self.context_batches.copy(),
            source_states: self.source_states.copy(),
            context_revision_ref: self.context_revision_ref.copy(),
            context_decisions: self.context_decisions.copy(),
            skill_plan_ref: self.skill_plan_ref.copy(),
            assembly_ref: self.assembly_ref.copy(),
            routing_snapshot_ref: self.routing_snapshot_ref.copy(),
            verification_plan_ref: self.verification_plan_ref.copy(),
            candidate_ref: self.candidate_ref.copy(),
            verification_records: self.verification_records.copy(),
            interruption_plan_ref: self.interruption_plan_ref.copy(),
            interruption_records: self.interruption_records.copy(),
            app_state: self.app_state.copy(),
            document: self.document.copy(),
            defect: self.defect.copy(),
        }
    }
}

/// Format of session metadata.
#[derive(Debug, Clone, Copy, PartialEq, Eq, Structural)]
pub enum SessionSchemaVersion {
    V1,
}

impl View for SessionSchemaVersion {
    type V = SessionSchemaVersion;

    open spec fn view(&self) -> SessionSchemaVersion {
        *self
    }
}

impl DeepView for SessionSchemaVersion {
    type V = SessionSchemaVersion;

    open spec fn deep_view(&self) -> SessionSchemaVersion {
        *self
    }
}

impl Data for SessionSchemaVersion {
    fn same(&self, other: &Self) -> (r: bool) {
        *self == *other
    }

    fn copy(&self) -> (r: Self) {
        *self
    }
}

/// Session metadata.
#[derive(Debug)]
pub struct SessionSnapshot {
    pub schema_version: SessionSchemaVersion,
    pub session_id: Id,
    pub scope: Scope,
    pub profile_digest: JsonDigest,
    pub prompt_snapshot: RecordRef,
    pub transcript_revision: u64,
    pub context_revision_ref: Option<RecordRef>,
    pub active_run_id: Option<Id>,
}

#[verifier::ext_equal]
pub struct SessionSnapshotView {
    pub schema_version: SessionSchemaVersion,
    pub session_id: Seq<char>,
    pub scope: ScopeView,
    pub profile_digest: Seq<char>,
    pub prompt_snapshot: RecordRefView,
    pub transcript_revision: u64,
    pub context_revision_ref: Option<RecordRefView>,
    pub active_run_id: Option<Seq<char>>,
}

impl View for SessionSnapshot {
    type V = SessionSnapshotView;

    open spec fn view(&self) -> SessionSnapshotView {
        SessionSnapshotView {
            schema_version: self.schema_version.deep_view(),
            session_id: self.session_id.deep_view(),
            scope: self.scope.deep_view(),
            profile_digest: self.profile_digest.deep_view(),
            prompt_snapshot: self.prompt_snapshot.deep_view(),
            transcript_revision: self.transcript_revision.deep_view(),
            context_revision_ref: self.context_revision_ref.deep_view(),
            active_run_id: self.active_run_id.deep_view(),
        }
    }
}

impl DeepView for SessionSnapshot {
    type V = SessionSnapshotView;

    open spec fn deep_view(&self) -> SessionSnapshotView {
        self@
    }
}

impl Data for SessionSnapshot {
    fn same(&self, other: &Self) -> (r: bool) {
        self.schema_version.same(&other.schema_version)
            && self.session_id.same(&other.session_id)
            && self.scope.same(&other.scope)
            && self.profile_digest.same(&other.profile_digest)
            && self.prompt_snapshot.same(&other.prompt_snapshot)
            && self.transcript_revision.same(&other.transcript_revision)
            && self.context_revision_ref.same(&other.context_revision_ref)
            && self.active_run_id.same(&other.active_run_id)
    }

    fn copy(&self) -> (r: Self) {
        SessionSnapshot {
            schema_version: self.schema_version.copy(),
            session_id: self.session_id.copy(),
            scope: self.scope.copy(),
            profile_digest: self.profile_digest.copy(),
            prompt_snapshot: self.prompt_snapshot.copy(),
            transcript_revision: self.transcript_revision.copy(),
            context_revision_ref: self.context_revision_ref.copy(),
            active_run_id: self.active_run_id.copy(),
        }
    }
}

/// What happened.
#[derive(Debug)]
pub enum RunEventPayload {
    RunStarted {
        request_ref: RecordRef,
        profile_digest: JsonDigest,
    },
    RunRecovered {
        recovery_receipt_ref: RecordRef,
    },
    RunResumed {
        command_ref: RecordRef,
    },
    RunWaiting {
        wait_ref: RecordRef,
        outcome_ref: Option<RecordRef>,
    },
    RunInterrupted {
        outcome_ref: RecordRef,
        decision_ref: RecordRef,
    },
    RunFinished {
        outcome_ref: RecordRef,
    },
    ToolPlanned {
        call_ref: RecordRef,
    },
    ToolSettled {
        result_ref: RecordRef,
    },
    ToolUnresolved {
        result_ref: RecordRef,
        attempt_id: Id,
        idempotency_key: Id,
    },
    ToolReconciled {
        reconciliation_ref: RecordRef,
    },
    ContextRewritten {
        revision_ref: RecordRef,
    },
    VerificationCompleted {
        verification_ref: RecordRef,
    },
    ModelRouteSelected {
        invocation_ref: RecordRef,
        route_digest: JsonDigest,
    },
}

#[verifier::ext_equal]
pub enum RunEventPayloadView {
    RunStarted {
        request_ref: RecordRefView,
        profile_digest: Seq<char>,
    },
    RunRecovered {
        recovery_receipt_ref: RecordRefView,
    },
    RunResumed {
        command_ref: RecordRefView,
    },
    RunWaiting {
        wait_ref: RecordRefView,
        outcome_ref: Option<RecordRefView>,
    },
    RunInterrupted {
        outcome_ref: RecordRefView,
        decision_ref: RecordRefView,
    },
    RunFinished {
        outcome_ref: RecordRefView,
    },
    ToolPlanned {
        call_ref: RecordRefView,
    },
    ToolSettled {
        result_ref: RecordRefView,
    },
    ToolUnresolved {
        result_ref: RecordRefView,
        attempt_id: Seq<char>,
        idempotency_key: Seq<char>,
    },
    ToolReconciled {
        reconciliation_ref: RecordRefView,
    },
    ContextRewritten {
        revision_ref: RecordRefView,
    },
    VerificationCompleted {
        verification_ref: RecordRefView,
    },
    ModelRouteSelected {
        invocation_ref: RecordRefView,
        route_digest: Seq<char>,
    },
}

impl View for RunEventPayload {
    type V = RunEventPayloadView;

    open spec fn view(&self) -> RunEventPayloadView {
        match self {
            RunEventPayload::RunStarted { request_ref, profile_digest } => RunEventPayloadView::RunStarted { request_ref: request_ref.deep_view(), profile_digest: profile_digest.deep_view() },
            RunEventPayload::RunRecovered { recovery_receipt_ref } => RunEventPayloadView::RunRecovered { recovery_receipt_ref: recovery_receipt_ref.deep_view() },
            RunEventPayload::RunResumed { command_ref } => RunEventPayloadView::RunResumed { command_ref: command_ref.deep_view() },
            RunEventPayload::RunWaiting { wait_ref, outcome_ref } => RunEventPayloadView::RunWaiting { wait_ref: wait_ref.deep_view(), outcome_ref: outcome_ref.deep_view() },
            RunEventPayload::RunInterrupted { outcome_ref, decision_ref } => RunEventPayloadView::RunInterrupted { outcome_ref: outcome_ref.deep_view(), decision_ref: decision_ref.deep_view() },
            RunEventPayload::RunFinished { outcome_ref } => RunEventPayloadView::RunFinished { outcome_ref: outcome_ref.deep_view() },
            RunEventPayload::ToolPlanned { call_ref } => RunEventPayloadView::ToolPlanned { call_ref: call_ref.deep_view() },
            RunEventPayload::ToolSettled { result_ref } => RunEventPayloadView::ToolSettled { result_ref: result_ref.deep_view() },
            RunEventPayload::ToolUnresolved { result_ref, attempt_id, idempotency_key } => RunEventPayloadView::ToolUnresolved { result_ref: result_ref.deep_view(), attempt_id: attempt_id.deep_view(), idempotency_key: idempotency_key.deep_view() },
            RunEventPayload::ToolReconciled { reconciliation_ref } => RunEventPayloadView::ToolReconciled { reconciliation_ref: reconciliation_ref.deep_view() },
            RunEventPayload::ContextRewritten { revision_ref } => RunEventPayloadView::ContextRewritten { revision_ref: revision_ref.deep_view() },
            RunEventPayload::VerificationCompleted { verification_ref } => RunEventPayloadView::VerificationCompleted { verification_ref: verification_ref.deep_view() },
            RunEventPayload::ModelRouteSelected { invocation_ref, route_digest } => RunEventPayloadView::ModelRouteSelected { invocation_ref: invocation_ref.deep_view(), route_digest: route_digest.deep_view() },
        }
    }
}

impl DeepView for RunEventPayload {
    type V = RunEventPayloadView;

    open spec fn deep_view(&self) -> RunEventPayloadView {
        self@
    }
}

impl Data for RunEventPayload {
    fn same(&self, other: &Self) -> (r: bool) {
        match (self, other) {
            (RunEventPayload::RunStarted { request_ref: request_ref1, profile_digest: profile_digest1 }, RunEventPayload::RunStarted { request_ref: request_ref2, profile_digest: profile_digest2 }) => request_ref1.same(request_ref2) && profile_digest1.same(profile_digest2),
            (RunEventPayload::RunRecovered { recovery_receipt_ref: recovery_receipt_ref1 }, RunEventPayload::RunRecovered { recovery_receipt_ref: recovery_receipt_ref2 }) => recovery_receipt_ref1.same(recovery_receipt_ref2),
            (RunEventPayload::RunResumed { command_ref: command_ref1 }, RunEventPayload::RunResumed { command_ref: command_ref2 }) => command_ref1.same(command_ref2),
            (RunEventPayload::RunWaiting { wait_ref: wait_ref1, outcome_ref: outcome_ref1 }, RunEventPayload::RunWaiting { wait_ref: wait_ref2, outcome_ref: outcome_ref2 }) => wait_ref1.same(wait_ref2) && outcome_ref1.same(outcome_ref2),
            (RunEventPayload::RunInterrupted { outcome_ref: outcome_ref1, decision_ref: decision_ref1 }, RunEventPayload::RunInterrupted { outcome_ref: outcome_ref2, decision_ref: decision_ref2 }) => outcome_ref1.same(outcome_ref2) && decision_ref1.same(decision_ref2),
            (RunEventPayload::RunFinished { outcome_ref: outcome_ref1 }, RunEventPayload::RunFinished { outcome_ref: outcome_ref2 }) => outcome_ref1.same(outcome_ref2),
            (RunEventPayload::ToolPlanned { call_ref: call_ref1 }, RunEventPayload::ToolPlanned { call_ref: call_ref2 }) => call_ref1.same(call_ref2),
            (RunEventPayload::ToolSettled { result_ref: result_ref1 }, RunEventPayload::ToolSettled { result_ref: result_ref2 }) => result_ref1.same(result_ref2),
            (RunEventPayload::ToolUnresolved { result_ref: result_ref1, attempt_id: attempt_id1, idempotency_key: idempotency_key1 }, RunEventPayload::ToolUnresolved { result_ref: result_ref2, attempt_id: attempt_id2, idempotency_key: idempotency_key2 }) => result_ref1.same(result_ref2) && attempt_id1.same(attempt_id2) && idempotency_key1.same(idempotency_key2),
            (RunEventPayload::ToolReconciled { reconciliation_ref: reconciliation_ref1 }, RunEventPayload::ToolReconciled { reconciliation_ref: reconciliation_ref2 }) => reconciliation_ref1.same(reconciliation_ref2),
            (RunEventPayload::ContextRewritten { revision_ref: revision_ref1 }, RunEventPayload::ContextRewritten { revision_ref: revision_ref2 }) => revision_ref1.same(revision_ref2),
            (RunEventPayload::VerificationCompleted { verification_ref: verification_ref1 }, RunEventPayload::VerificationCompleted { verification_ref: verification_ref2 }) => verification_ref1.same(verification_ref2),
            (RunEventPayload::ModelRouteSelected { invocation_ref: invocation_ref1, route_digest: route_digest1 }, RunEventPayload::ModelRouteSelected { invocation_ref: invocation_ref2, route_digest: route_digest2 }) => invocation_ref1.same(invocation_ref2) && route_digest1.same(route_digest2),
            _ => false,
        }
    }

    fn copy(&self) -> (r: Self) {
        match self {
            RunEventPayload::RunStarted { request_ref, profile_digest } => RunEventPayload::RunStarted { request_ref: request_ref.copy(), profile_digest: profile_digest.copy() },
            RunEventPayload::RunRecovered { recovery_receipt_ref } => RunEventPayload::RunRecovered { recovery_receipt_ref: recovery_receipt_ref.copy() },
            RunEventPayload::RunResumed { command_ref } => RunEventPayload::RunResumed { command_ref: command_ref.copy() },
            RunEventPayload::RunWaiting { wait_ref, outcome_ref } => RunEventPayload::RunWaiting { wait_ref: wait_ref.copy(), outcome_ref: outcome_ref.copy() },
            RunEventPayload::RunInterrupted { outcome_ref, decision_ref } => RunEventPayload::RunInterrupted { outcome_ref: outcome_ref.copy(), decision_ref: decision_ref.copy() },
            RunEventPayload::RunFinished { outcome_ref } => RunEventPayload::RunFinished { outcome_ref: outcome_ref.copy() },
            RunEventPayload::ToolPlanned { call_ref } => RunEventPayload::ToolPlanned { call_ref: call_ref.copy() },
            RunEventPayload::ToolSettled { result_ref } => RunEventPayload::ToolSettled { result_ref: result_ref.copy() },
            RunEventPayload::ToolUnresolved { result_ref, attempt_id, idempotency_key } => RunEventPayload::ToolUnresolved { result_ref: result_ref.copy(), attempt_id: attempt_id.copy(), idempotency_key: idempotency_key.copy() },
            RunEventPayload::ToolReconciled { reconciliation_ref } => RunEventPayload::ToolReconciled { reconciliation_ref: reconciliation_ref.copy() },
            RunEventPayload::ContextRewritten { revision_ref } => RunEventPayload::ContextRewritten { revision_ref: revision_ref.copy() },
            RunEventPayload::VerificationCompleted { verification_ref } => RunEventPayload::VerificationCompleted { verification_ref: verification_ref.copy() },
            RunEventPayload::ModelRouteSelected { invocation_ref, route_digest } => RunEventPayload::ModelRouteSelected { invocation_ref: invocation_ref.copy(), route_digest: route_digest.copy() },
        }
    }
}

/// A durable event of a run.
#[derive(Debug)]
pub struct RunEvent {
    pub event_id: Id,
    pub scope: Scope,
    pub run_id: Id,
    pub session_id: Id,
    /// Position in the run, counted from one.
    pub seq: u64,
    pub timestamp_ms: i64,
    pub payload: RunEventPayload,
}

#[verifier::ext_equal]
pub struct RunEventView {
    pub event_id: Seq<char>,
    pub scope: ScopeView,
    pub run_id: Seq<char>,
    pub session_id: Seq<char>,
    pub seq: u64,
    pub timestamp_ms: i64,
    pub payload: RunEventPayloadView,
}

impl View for RunEvent {
    type V = RunEventView;

    open spec fn view(&self) -> RunEventView {
        RunEventView {
            event_id: self.event_id.deep_view(),
            scope: self.scope.deep_view(),
            run_id: self.run_id.deep_view(),
            session_id: self.session_id.deep_view(),
            seq: self.seq.deep_view(),
            timestamp_ms: self.timestamp_ms.deep_view(),
            payload: self.payload.deep_view(),
        }
    }
}

impl DeepView for RunEvent {
    type V = RunEventView;

    open spec fn deep_view(&self) -> RunEventView {
        self@
    }
}

impl Data for RunEvent {
    fn same(&self, other: &Self) -> (r: bool) {
        self.event_id.same(&other.event_id)
            && self.scope.same(&other.scope)
            && self.run_id.same(&other.run_id)
            && self.session_id.same(&other.session_id)
            && self.seq.same(&other.seq)
            && self.timestamp_ms.same(&other.timestamp_ms)
            && self.payload.same(&other.payload)
    }

    fn copy(&self) -> (r: Self) {
        RunEvent {
            event_id: self.event_id.copy(),
            scope: self.scope.copy(),
            run_id: self.run_id.copy(),
            session_id: self.session_id.copy(),
            seq: self.seq.copy(),
            timestamp_ms: self.timestamp_ms.copy(),
            payload: self.payload.copy(),
        }
    }
}


/// A status after which a run never changes.
pub open spec fn terminal(status: RunStatus) -> bool {
    status is Succeeded || status is Failed || status is Cancelled || status is Exhausted
}

impl RunStatus {
    /// Whether a run in this status never changes again.
    pub fn is_terminal(&self) -> (r: bool)
        ensures
            r == terminal(*self),
    {
        match self {
            RunStatus::Succeeded | RunStatus::Failed | RunStatus::Cancelled | RunStatus::Exhausted => true,
            _ => false,
        }
    }
}

impl BudgetUsageView {
    /// Nothing used yet.
    pub open spec fn unused() -> BudgetUsageView {
        BudgetUsageView {
            model_calls: 0,
            tool_attempts: 0,
            repair_attempts: 0,
            recovery_attempts: 0,
            elapsed_ms: 0,
        }
    }
}


impl RunOutcome {
    /// Report what structural validation found.
    pub fn validate(&self) -> (r: Result<(), ContractError>)
        ensures
            failure(r) == self@.defect,
    {
        verdict(&self.defect)
    }
}

impl RunSnapshot {
    /// Report what structural validation found.
    pub fn validate(&self) -> (r: Result<(), ContractError>)
        ensures
            failure(r) == self@.defect,
    {
        verdict(&self.defect)
    }
}

/// A run has ended unless it is running, waiting or interrupted.
pub proof fn law_runs_go_on_until_they_end(status: RunStatus)
    ensures
        !terminal(status) <==> status == RunStatus::Running || status == RunStatus::Waiting || status
            == RunStatus::Interrupted,
{
}

} // verus!
