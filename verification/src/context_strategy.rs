//! Compaction of a transcript: which messages may be covered, and what replaces them.
use vstd::prelude::*;

use crate::content::{ArtifactRef, InputContent};
#[allow(unused_imports)]
use crate::content::{ArtifactRefView, InputContentView};
use crate::context::ContextLineage;
#[allow(unused_imports)]
use crate::context::ContextLineageView;
use crate::data::Data;
use crate::refs::{RecordRef, Scope, VersionedRef};
#[allow(unused_imports)]
use crate::refs::{RecordRefView, ScopeView, VersionedRefView};
use crate::serialization::{Id, JsonDigest};

pub mod groups;
pub mod model_compactor;
pub mod records;

verus! {

/// A bounded view of stored content.
#[derive(Debug)]
pub struct ArtifactPreview {
    pub reference: ArtifactRef,
    pub text: Option<String>,
    pub truncated: bool,
}

#[verifier::ext_equal]
pub struct ArtifactPreviewView {
    pub reference: ArtifactRefView,
    pub text: Option<Seq<char>>,
    pub truncated: bool,
}

impl View for ArtifactPreview {
    type V = ArtifactPreviewView;

    open spec fn view(&self) -> ArtifactPreviewView {
        ArtifactPreviewView {
            reference: self.reference.deep_view(),
            text: self.text.deep_view(),
            truncated: self.truncated.deep_view(),
        }
    }
}

impl DeepView for ArtifactPreview {
    type V = ArtifactPreviewView;

    open spec fn deep_view(&self) -> ArtifactPreviewView {
        self@
    }
}

impl Data for ArtifactPreview {
    fn same(&self, other: &Self) -> (r: bool) {
        self.reference.same(&other.reference)
            && self.text.same(&other.text)
            && self.truncated.same(&other.truncated)
    }

    fn copy(&self) -> (r: Self) {
        ArtifactPreview {
            reference: self.reference.copy(),
            text: self.text.copy(),
            truncated: self.truncated.copy(),
        }
    }
}

/// One piece of a tool result that the model sees as a preview.
#[derive(Debug)]
pub struct ContextPreview {
    pub message_id: Id,
    pub tool_call_id: Id,
    pub content_index: usize,
    pub original_digest: JsonDigest,
    pub preview: ArtifactPreview,
}

#[verifier::ext_equal]
pub struct ContextPreviewView {
    pub message_id: Seq<char>,
    pub tool_call_id: Seq<char>,
    pub content_index: usize,
    pub original_digest: Seq<char>,
    pub preview: ArtifactPreviewView,
}

impl View for ContextPreview {
    type V = ContextPreviewView;

    open spec fn view(&self) -> ContextPreviewView {
        ContextPreviewView {
            message_id: self.message_id.deep_view(),
            tool_call_id: self.tool_call_id.deep_view(),
            content_index: self.content_index.deep_view(),
            original_digest: self.original_digest.deep_view(),
            preview: self.preview.deep_view(),
        }
    }
}

impl DeepView for ContextPreview {
    type V = ContextPreviewView;

    open spec fn deep_view(&self) -> ContextPreviewView {
        self@
    }
}

impl Data for ContextPreview {
    fn same(&self, other: &Self) -> (r: bool) {
        self.message_id.same(&other.message_id)
            && self.tool_call_id.same(&other.tool_call_id)
            && self.content_index.same(&other.content_index)
            && self.original_digest.same(&other.original_digest)
            && self.preview.same(&other.preview)
    }

    fn copy(&self) -> (r: Self) {
        ContextPreview {
            message_id: self.message_id.copy(),
            tool_call_id: self.tool_call_id.copy(),
            content_index: self.content_index.copy(),
            original_digest: self.original_digest.copy(),
            preview: self.preview.copy(),
        }
    }
}

/// Bounds of a compaction.
#[derive(Debug)]
pub struct ContextLimits {
    pub max_prepared_bytes: u64,
    pub max_summary_bytes: u64,
}

#[verifier::ext_equal]
pub struct ContextLimitsView {
    pub max_prepared_bytes: u64,
    pub max_summary_bytes: u64,
}

impl View for ContextLimits {
    type V = ContextLimitsView;

    open spec fn view(&self) -> ContextLimitsView {
        ContextLimitsView {
            max_prepared_bytes: self.max_prepared_bytes.deep_view(),
            max_summary_bytes: self.max_summary_bytes.deep_view(),
        }
    }
}

impl DeepView for ContextLimits {
    type V = ContextLimitsView;

    open spec fn deep_view(&self) -> ContextLimitsView {
        self@
    }
}

impl Data for ContextLimits {
    fn same(&self, other: &Self) -> (r: bool) {
        self.max_prepared_bytes.same(&other.max_prepared_bytes)
            && self.max_summary_bytes.same(&other.max_summary_bytes)
    }

    fn copy(&self) -> (r: Self) {
        ContextLimits {
            max_prepared_bytes: self.max_prepared_bytes.copy(),
            max_summary_bytes: self.max_summary_bytes.copy(),
        }
    }
}

/// Pinned compaction strategy of a session.
#[derive(Debug)]
pub struct ContextPlan {
    pub scope: Scope,
    pub strategy: VersionedRef,
    pub limits: ContextLimits,
    /// Canonical digest of the encoded plan.
    pub digest: JsonDigest,
}

#[verifier::ext_equal]
pub struct ContextPlanView {
    pub scope: ScopeView,
    pub strategy: VersionedRefView,
    pub limits: ContextLimitsView,
    pub digest: Seq<char>,
}

impl View for ContextPlan {
    type V = ContextPlanView;

    open spec fn view(&self) -> ContextPlanView {
        ContextPlanView {
            scope: self.scope.deep_view(),
            strategy: self.strategy.deep_view(),
            limits: self.limits.deep_view(),
            digest: self.digest.deep_view(),
        }
    }
}

impl DeepView for ContextPlan {
    type V = ContextPlanView;

    open spec fn deep_view(&self) -> ContextPlanView {
        self@
    }
}

impl Data for ContextPlan {
    fn same(&self, other: &Self) -> (r: bool) {
        self.scope.same(&other.scope)
            && self.strategy.same(&other.strategy)
            && self.limits.same(&other.limits)
            && self.digest.same(&other.digest)
    }

    fn copy(&self) -> (r: Self) {
        ContextPlan {
            scope: self.scope.copy(),
            strategy: self.strategy.copy(),
            limits: self.limits.copy(),
            digest: self.digest.copy(),
        }
    }
}

/// One committed compaction.
#[derive(Debug)]
pub struct ContextRevision {
    pub schema_version: String,
    pub scope: Scope,
    pub session_id: Id,
    pub run_id: Id,
    pub model_step_id: Id,
    pub plan_ref: RecordRef,
    pub parent: Option<RecordRef>,
    pub through_sequence: u64,
    pub covered_message_ids: Vec<Id>,
    pub covered_digest: JsonDigest,
    pub source_lineage: Vec<ContextLineage>,
    pub summary: Option<String>,
    pub previews: Vec<ContextPreview>,
    pub anchors: Vec<InputContent>,
    pub before_bytes: u64,
    pub after_bytes: u64,
    pub before_tokens: u64,
    pub after_tokens: u64,
    /// Canonical digest of the encoded revision.
    pub digest: JsonDigest,
}

#[verifier::ext_equal]
pub struct ContextRevisionView {
    pub schema_version: Seq<char>,
    pub scope: ScopeView,
    pub session_id: Seq<char>,
    pub run_id: Seq<char>,
    pub model_step_id: Seq<char>,
    pub plan_ref: RecordRefView,
    pub parent: Option<RecordRefView>,
    pub through_sequence: u64,
    pub covered_message_ids: Seq<Seq<char>>,
    pub covered_digest: Seq<char>,
    pub source_lineage: Seq<ContextLineageView>,
    pub summary: Option<Seq<char>>,
    pub previews: Seq<ContextPreviewView>,
    pub anchors: Seq<InputContentView>,
    pub before_bytes: u64,
    pub after_bytes: u64,
    pub before_tokens: u64,
    pub after_tokens: u64,
    pub digest: Seq<char>,
}

impl View for ContextRevision {
    type V = ContextRevisionView;

    open spec fn view(&self) -> ContextRevisionView {
        ContextRevisionView {
            schema_version: self.schema_version.deep_view(),
            scope: self.scope.deep_view(),
            session_id: self.session_id.deep_view(),
            run_id: self.run_id.deep_view(),
            model_step_id: self.model_step_id.deep_view(),
            plan_ref: self.plan_ref.deep_view(),
            parent: self.parent.deep_view(),
            through_sequence: self.through_sequence.deep_view(),
            covered_message_ids: self.covered_message_ids.deep_view(),
            covered_digest: self.covered_digest.deep_view(),
            source_lineage: self.source_lineage.deep_view(),
            summary: self.summary.deep_view(),
            previews: self.previews.deep_view(),
            anchors: self.anchors.deep_view(),
            before_bytes: self.before_bytes.deep_view(),
            after_bytes: self.after_bytes.deep_view(),
            before_tokens: self.before_tokens.deep_view(),
            after_tokens: self.after_tokens.deep_view(),
            digest: self.digest.deep_view(),
        }
    }
}

impl DeepView for ContextRevision {
    type V = ContextRevisionView;

    open spec fn deep_view(&self) -> ContextRevisionView {
        self@
    }
}

impl Data for ContextRevision {
    fn same(&self, other: &Self) -> (r: bool) {
        self.schema_version.same(&other.schema_version)
            && self.scope.same(&other.scope)
            && self.session_id.same(&other.session_id)
            && self.run_id.same(&other.run_id)
            && self.model_step_id.same(&other.model_step_id)
            && self.plan_ref.same(&other.plan_ref)
            && self.parent.same(&other.parent)
            && self.through_sequence.same(&other.through_sequence)
            && self.covered_message_ids.same(&other.covered_message_ids)
            && self.covered_digest.same(&other.covered_digest)
            && self.source_lineage.same(&other.source_lineage)
            && self.summary.same(&other.summary)
            && self.previews.same(&other.previews)
            && self.anchors.same(&other.anchors)
            && self.before_bytes.same(&other.before_bytes)
            && self.after_bytes.same(&other.after_bytes)
            && self.before_tokens.same(&other.before_tokens)
            && self.after_tokens.same(&other.after_tokens)
            && self.digest.same(&other.digest)
    }

    fn copy(&self) -> (r: Self) {
        ContextRevision {
            schema_version: self.schema_version.copy(),
            scope: self.scope.copy(),
            session_id: self.session_id.copy(),
            run_id: self.run_id.copy(),
            model_step_id: self.model_step_id.copy(),
            plan_ref: self.plan_ref.copy(),
            parent: self.parent.copy(),
            through_sequence: self.through_sequence.copy(),
            covered_message_ids: self.covered_message_ids.copy(),
            covered_digest: self.covered_digest.copy(),
            source_lineage: self.source_lineage.copy(),
            summary: self.summary.copy(),
            previews: self.previews.copy(),
            anchors: self.anchors.copy(),
            before_bytes: self.before_bytes.copy(),
            after_bytes: self.after_bytes.copy(),
            before_tokens: self.before_tokens.copy(),
            after_tokens: self.after_tokens.copy(),
            digest: self.digest.copy(),
        }
    }
}


} // verus!
