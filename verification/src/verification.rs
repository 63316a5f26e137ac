//! Candidate answers and the decisions that verification makes on them.
use vstd::prelude::*;

use crate::content::InputContent;
#[allow(unused_imports)]
use crate::content::InputContentView;
use crate::data::Data;
use crate::error::ContractError;
#[allow(unused_imports)]
use crate::error::Fault;
use crate::json::Json;
#[allow(unused_imports)]
use crate::json::JsonView;
use crate::refs::{RecordRef, Scope, VersionedRef};
#[allow(unused_imports)]
use crate::refs::{RecordRefView, ScopeView, VersionedRefView};
use crate::serialization::Id;

verus! {

/// The verdict that a summary reports.
#[derive(Debug, Clone, Copy, PartialEq, Eq, Structural)]
pub enum VerificationVerdict {
    Pass,
    Revise,
    Fail,
    Wait,
}

impl View for VerificationVerdict {
    type V = VerificationVerdict;

    open spec fn view(&self) -> VerificationVerdict {
        *self
    }
}

impl DeepView for VerificationVerdict {
    type V = VerificationVerdict;

    open spec fn deep_view(&self) -> VerificationVerdict {
        *self
    }
}

impl Data for VerificationVerdict {
    fn same(&self, other: &Self) -> (r: bool) {
        *self == *other
    }

    fn copy(&self) -> (r: Self) {
        *self
    }
}

/// What a verifier decided.
#[derive(Debug)]
pub enum VerificationDecision {
    Pass,
    Revise {
        feedback: Json,
    },
    Fail {
        reason: String,
    },
    Wait {
        reason: String,
    },
}

#[verifier::ext_equal]
pub enum VerificationDecisionView {
    Pass,
    Revise {
        feedback: JsonView,
    },
    Fail {
        reason: Seq<char>,
    },
    Wait {
        reason: Seq<char>,
    },
}

impl View for VerificationDecision {
    type V = VerificationDecisionView;

    open spec fn view(&self) -> VerificationDecisionView {
        match self {
            VerificationDecision::Pass => VerificationDecisionView::Pass,
            VerificationDecision::Revise { feedback } => VerificationDecisionView::Revise { feedback: feedback.deep_view() },
            VerificationDecision::Fail { reason } => VerificationDecisionView::Fail { reason: reason.deep_view() },
            VerificationDecision::Wait { reason } => VerificationDecisionView::Wait { reason: reason.deep_view() },
        }
    }
}

impl DeepView for VerificationDecision {
    type V = VerificationDecisionView;

    open spec fn deep_view(&self) -> VerificationDecisionView {
        self@
    }
}

impl Data for VerificationDecision {
    fn same(&self, other: &Self) -> (r: bool) {
        match (self, other) {
            (VerificationDecision::Pass, VerificationDecision::Pass) => true,
            (VerificationDecision::Revise { feedback: feedback1 }, VerificationDecision::Revise { feedback: feedback2 }) => feedback1.same(feedback2),
            (VerificationDecision::Fail { reason: reason1 }, VerificationDecision::Fail { reason: reason2 }) => reason1.same(reason2),
            (VerificationDecision::Wait { reason: reason1 }, VerificationDecision::Wait { reason: reason2 }) => reason1.same(reason2),
            _ => false,
        }
    }

    fn copy(&self) -> (r: Self) {
        match self {
            VerificationDecision::Pass => VerificationDecision::Pass,
            VerificationDecision::Revise { feedback } => VerificationDecision::Revise { feedback: feedback.copy() },
            VerificationDecision::Fail { reason } => VerificationDecision::Fail { reason: reason.copy() },
            VerificationDecision::Wait { reason } => VerificationDecision::Wait { reason: reason.copy() },
        }
    }
}

/// Public summary of a verifier's decision.
#[derive(Debug)]
pub struct VerificationSummary {
    pub verifier_ref: VersionedRef,
    pub criteria_ref: VersionedRef,
    pub verdict: VerificationVerdict,
    pub evidence: Vec<RecordRef>,
}

#[verifier::ext_equal]
pub struct VerificationSummaryView {
    pub verifier_ref: VersionedRefView,
    pub criteria_ref: VersionedRefView,
    pub verdict: VerificationVerdict,
    pub evidence: Seq<RecordRefView>,
}

impl View for VerificationSummary {
    type V = VerificationSummaryView;

    open spec fn view(&self) -> VerificationSummaryView {
        VerificationSummaryView {
            verifier_ref: self.verifier_ref.deep_view(),
            criteria_ref: self.criteria_ref.deep_view(),
            verdict: self.verdict.deep_view(),
            evidence: self.evidence.deep_view(),
        }
    }
}

impl DeepView for VerificationSummary {
    type V = VerificationSummaryView;

    open spec fn deep_view(&self) -> VerificationSummaryView {
        self@
    }
}

impl Data for VerificationSummary {
    fn same(&self, other: &Self) -> (r: bool) {
        self.verifier_ref.same(&other.verifier_ref)
            && self.criteria_ref.same(&other.criteria_ref)
            && self.verdict.same(&other.verdict)
            && self.evidence.same(&other.evidence)
    }

    fn copy(&self) -> (r: Self) {
        VerificationSummary {
            verifier_ref: self.verifier_ref.copy(),
            criteria_ref: self.criteria_ref.copy(),
            verdict: self.verdict.copy(),
            evidence: self.evidence.copy(),
        }
    }
}

/// The verifier that a plan pins.
#[derive(Debug)]
pub struct VerifierDefinition {
    pub verifier_ref: VersionedRef,
    pub criteria_ref: VersionedRef,
}

#[verifier::ext_equal]
pub struct VerifierDefinitionView {
    pub verifier_ref: VersionedRefView,
    pub criteria_ref: VersionedRefView,
}

impl View for VerifierDefinition {
    type V = VerifierDefinitionView;

    open spec fn view(&self) -> VerifierDefinitionView {
        VerifierDefinitionView {
            verifier_ref: self.verifier_ref.deep_view(),
            criteria_ref: self.criteria_ref.deep_view(),
        }
    }
}

impl DeepView for VerifierDefinition {
    type V = VerifierDefinitionView;

    open spec fn deep_view(&self) -> VerifierDefinitionView {
        self@
    }
}

impl Data for VerifierDefinition {
    fn same(&self, other: &Self) -> (r: bool) {
        self.verifier_ref.same(&other.verifier_ref)
            && self.criteria_ref.same(&other.criteria_ref)
    }

    fn copy(&self) -> (r: Self) {
        VerifierDefinition {
            verifier_ref: self.verifier_ref.copy(),
            criteria_ref: self.criteria_ref.copy(),
        }
    }
}

/// What an output format makes of one response text.
#[derive(Debug)]
pub struct ParsedAnswer {
    pub text: String,
    pub output: Vec<InputContent>,
}

#[verifier::ext_equal]
pub struct ParsedAnswerView {
    pub text: Seq<char>,
    pub output: Seq<InputContentView>,
}

impl View for ParsedAnswer {
    type V = ParsedAnswerView;

    open spec fn view(&self) -> ParsedAnswerView {
        ParsedAnswerView {
            text: self.text.deep_view(),
            output: self.output.deep_view(),
        }
    }
}

impl DeepView for ParsedAnswer {
    type V = ParsedAnswerView;

    open spec fn deep_view(&self) -> ParsedAnswerView {
        self@
    }
}

impl Data for ParsedAnswer {
    fn same(&self, other: &Self) -> (r: bool) {
        self.text.same(&other.text)
            && self.output.same(&other.output)
    }

    fn copy(&self) -> (r: Self) {
        ParsedAnswer {
            text: self.text.copy(),
            output: self.output.copy(),
        }
    }
}

/// Pinned verification configuration of a run.
#[derive(Debug)]
pub struct VerificationPlan {
    pub verifier: Option<VerifierDefinition>,
}

#[verifier::ext_equal]
pub struct VerificationPlanView {
    pub verifier: Option<VerifierDefinitionView>,
}

impl View for VerificationPlan {
    type V = VerificationPlanView;

    open spec fn view(&self) -> VerificationPlanView {
        VerificationPlanView {
            verifier: self.verifier.deep_view(),
        }
    }
}

impl DeepView for VerificationPlan {
    type V = VerificationPlanView;

    open spec fn deep_view(&self) -> VerificationPlanView {
        self@
    }
}

impl Data for VerificationPlan {
    fn same(&self, other: &Self) -> (r: bool) {
        self.verifier.same(&other.verifier)
    }

    fn copy(&self) -> (r: Self) {
        VerificationPlan {
            verifier: self.verifier.copy(),
        }
    }
}

/// A candidate answer.
#[derive(Debug)]
pub struct VerificationCandidate {
    pub scope: Scope,
    pub run_id: Id,
    pub model_step_id: Id,
    pub response_ref: RecordRef,
    pub through_sequence: u64,
    pub evidence_message_ids: Vec<Id>,
    pub output: Vec<InputContent>,
    /// Why the response does not have the demanded format.
    pub format_error: Option<String>,
    /// What the plan's format makes of the response: its output, or why it has none.
    pub parsed_output: Vec<InputContent>,
    pub parsed_error: Option<String>,
}

#[verifier::ext_equal]
pub struct VerificationCandidateView {
    pub scope: ScopeView,
    pub run_id: Seq<char>,
    pub model_step_id: Seq<char>,
    pub response_ref: RecordRefView,
    pub through_sequence: u64,
    pub evidence_message_ids: Seq<Seq<char>>,
    pub output: Seq<InputContentView>,
    pub format_error: Option<Seq<char>>,
    pub parsed_output: Seq<InputContentView>,
    pub parsed_error: Option<Seq<char>>,
}

impl View for VerificationCandidate {
    type V = VerificationCandidateView;

    open spec fn view(&self) -> VerificationCandidateView {
        VerificationCandidateView {
            scope: self.scope.deep_view(),
            run_id: self.run_id.deep_view(),
            model_step_id: self.model_step_id.deep_view(),
            response_ref: self.response_ref.deep_view(),
            through_sequence: self.through_sequence.deep_view(),
            evidence_message_ids: self.evidence_message_ids.deep_view(),
            output: self.output.deep_view(),
            format_error: self.format_error.deep_view(),
            parsed_output: self.parsed_output.deep_view(),
            parsed_error: self.parsed_error.deep_view(),
        }
    }
}

impl DeepView for VerificationCandidate {
    type V = VerificationCandidateView;

    open spec fn deep_view(&self) -> VerificationCandidateView {
        self@
    }
}

impl Data for VerificationCandidate {
    fn same(&self, other: &Self) -> (r: bool) {
        self.scope.same(&other.scope)
            && self.run_id.same(&other.run_id)
            && self.model_step_id.same(&other.model_step_id)
            && self.response_ref.same(&other.response_ref)
            && self.through_sequence.same(&other.through_sequence)
            && self.evidence_message_ids.same(&other.evidence_message_ids)
            && self.output.same(&other.output)
            && self.format_error.same(&other.format_error)
            && self.parsed_output.same(&other.parsed_output)
            && self.parsed_error.same(&other.parsed_error)
    }

    fn copy(&self) -> (r: Self) {
        VerificationCandidate {
            scope: self.scope.copy(),
            run_id: self.run_id.copy(),
            model_step_id: self.model_step_id.copy(),
            response_ref: self.response_ref.copy(),
            through_sequence: self.through_sequence.copy(),
            evidence_message_ids: self.evidence_message_ids.copy(),
            output: self.output.copy(),
            format_error: self.format_error.copy(),
            parsed_output: self.parsed_output.copy(),
            parsed_error: self.parsed_error.copy(),
        }
    }
}

/// One verification step.
#[derive(Debug)]
pub struct VerificationRecord {
    pub schema_version: String,
    pub scope: Scope,
    pub run_id: Id,
    pub candidate_ref: RecordRef,
    pub decision: Option<VerificationDecision>,
    pub error: Option<Id>,
    pub summary: Option<VerificationSummary>,
    pub summary_ref: Option<RecordRef>,
    pub review_command_ref: Option<RecordRef>,
    pub repair_ref: Option<Id>,
}

#[verifier::ext_equal]
pub struct VerificationRecordView {
    pub schema_version: Seq<char>,
    pub scope: ScopeView,
    pub run_id: Seq<char>,
    pub candidate_ref: RecordRefView,
    pub decision: Option<VerificationDecisionView>,
    pub error: Option<Seq<char>>,
    pub summary: Option<VerificationSummaryView>,
    pub summary_ref: Option<RecordRefView>,
    pub review_command_ref: Option<RecordRefView>,
    pub repair_ref: Option<Seq<char>>,
}

impl View for VerificationRecord {
    type V = VerificationRecordView;

    open spec fn view(&self) -> VerificationRecordView {
        VerificationRecordView {
            schema_version: self.schema_version.deep_view(),
            scope: self.scope.deep_view(),
            run_id: self.run_id.deep_view(),
            candidate_ref: self.candidate_ref.deep_view(),
            decision: self.decision.deep_view(),
            error: self.error.deep_view(),
            summary: self.summary.deep_view(),
            summary_ref: self.summary_ref.deep_view(),
            review_command_ref: self.review_command_ref.deep_view(),
            repair_ref: self.repair_ref.deep_view(),
        }
    }
}

impl DeepView for VerificationRecord {
    type V = VerificationRecordView;

    open spec fn deep_view(&self) -> VerificationRecordView {
        self@
    }
}

impl Data for VerificationRecord {
    fn same(&self, other: &Self) -> (r: bool) {
        self.schema_version.same(&other.schema_version)
            && self.scope.same(&other.scope)
            && self.run_id.same(&other.run_id)
            && self.candidate_ref.same(&other.candidate_ref)
            && self.decision.same(&other.decision)
            && self.error.same(&other.error)
            && self.summary.same(&other.summary)
            && self.summary_ref.same(&other.summary_ref)
            && self.review_command_ref.same(&other.review_command_ref)
            && self.repair_ref.same(&other.repair_ref)
    }

    fn copy(&self) -> (r: Self) {
        VerificationRecord {
            schema_version: self.schema_version.copy(),
            scope: self.scope.copy(),
            run_id: self.run_id.copy(),
            candidate_ref: self.candidate_ref.copy(),
            decision: self.decision.copy(),
            error: self.error.copy(),
            summary: self.summary.copy(),
            summary_ref: self.summary_ref.copy(),
            review_command_ref: self.review_command_ref.copy(),
            repair_ref: self.repair_ref.copy(),
        }
    }
}


impl VerificationDecisionView {
    /// The verdict of a decision.
    pub open spec fn verdict(self) -> VerificationVerdict {
        match self {
            VerificationDecisionView::Pass => VerificationVerdict::Pass,
            VerificationDecisionView::Revise { .. } => VerificationVerdict::Revise,
            VerificationDecisionView::Fail { .. } => VerificationVerdict::Fail,
            VerificationDecisionView::Wait { .. } => VerificationVerdict::Wait,
        }
    }
}

impl VerificationDecision {
    /// The verdict of this decision.
    pub fn verdict(&self) -> (r: VerificationVerdict)
        ensures
            r == self@.verdict(),
    {
        match self {
            VerificationDecision::Pass => VerificationVerdict::Pass,
            VerificationDecision::Revise { .. } => VerificationVerdict::Revise,
            VerificationDecision::Fail { .. } => VerificationVerdict::Fail,
            VerificationDecision::Wait { .. } => VerificationVerdict::Wait,
        }
    }
}

/// The verdict that is reported is that of the decision.
pub proof fn law_verdicts_report_the_decision(decision: VerificationDecisionView)
    ensures
        decision.verdict() == VerificationVerdict::Pass <==> decision is Pass,
        decision.verdict() == VerificationVerdict::Revise <==> decision is Revise,
        decision.verdict() == VerificationVerdict::Fail <==> decision is Fail,
        decision.verdict() == VerificationVerdict::Wait <==> decision is Wait,
{
}

} // verus!
