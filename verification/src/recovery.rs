//! Evidence and command identity for resuming interrupted executions.
use vstd::prelude::*;

use crate::data::Data;
use crate::error::{fail, ContractError, ErrorCode};
#[allow(unused_imports)]
use crate::error::{failure, fault, or_else, Fault};
use crate::refs::RecordRef;
#[allow(unused_imports)]
use crate::refs::RecordRefView;
use crate::run::{ResumeCommand, RunSnapshot, RunStatus};
#[allow(unused_imports)]
use crate::run::{ResumeCommandView, RunSnapshotView};
use crate::serialization::Id;
#[allow(unused_imports)]
use crate::serialization::digest_of;
use crate::state::records::{ProtectedRecord, RecordContent};
#[allow(unused_imports)]
use crate::state::records::RecordContentView;

verus! {

/// A consumed recovery command. Its source checkpoint has no fabricated outcome.
#[derive(Debug)]
pub struct RecoveryReceipt {
    /// Exact idempotent command accepted by the core.
    pub command: ResumeCommand,
    /// Stored original command.
    pub command_ref: RecordRef,
    /// Exact checkpoint observed by the caller before recovery.
    pub source_snapshot_ref: RecordRef,
    /// Revision that atomically accepted this recovery.
    pub accepted_revision: u64,
    /// Execution segment superseded by this recovery.
    pub previous_segment_start_revision: u64,
    /// Last event belonging to the interrupted segment.
    pub previous_last_event_seq: u64,
    /// Current authorized recovery actor.
    pub actor_ref: Id,
    /// Current Host grant, never a replacement for policy checks.
    pub capability_grant_ref: Id,
    /// Whether the original Run deadline had already elapsed at acceptance.
    pub expired: bool,
    /// Recovery budget reservation accepted atomically; absent only for expired Runs.
    pub recovery_attempt_id: Option<Id>,
}

#[verifier::ext_equal]
pub struct RecoveryReceiptView {
    pub command: ResumeCommandView,
    pub command_ref: RecordRefView,
    pub source_snapshot_ref: RecordRefView,
    pub accepted_revision: u64,
    pub previous_segment_start_revision: u64,
    pub previous_last_event_seq: u64,
    pub actor_ref: Seq<char>,
    pub capability_grant_ref: Seq<char>,
    pub expired: bool,
    pub recovery_attempt_id: Option<Seq<char>>,
}

impl View for RecoveryReceipt {
    type V = RecoveryReceiptView;

    open spec fn view(&self) -> RecoveryReceiptView {
        RecoveryReceiptView {
            command: self.command.deep_view(),
            command_ref: self.command_ref.deep_view(),
            source_snapshot_ref: self.source_snapshot_ref.deep_view(),
            accepted_revision: self.accepted_revision.deep_view(),
            previous_segment_start_revision: self.previous_segment_start_revision.deep_view(),
            previous_last_event_seq: self.previous_last_event_seq.deep_view(),
            actor_ref: self.actor_ref.deep_view(),
            capability_grant_ref: self.capability_grant_ref.deep_view(),
            expired: self.expired.deep_view(),
            recovery_attempt_id: self.recovery_attempt_id.deep_view(),
        }
    }
}

impl DeepView for RecoveryReceipt {
    type V = RecoveryReceiptView;

    open spec fn deep_view(&self) -> RecoveryReceiptView {
        self@
    }
}

impl Data for RecoveryReceipt {
    fn same(&self, other: &Self) -> (r: bool) {
        self.command.same(&other.command)
            && self.command_ref.same(&other.command_ref)
            && self.source_snapshot_ref.same(&other.source_snapshot_ref)
            && self.accepted_revision.same(&other.accepted_revision)
            && self.previous_segment_start_revision.same(&other.previous_segment_start_revision)
            && self.previous_last_event_seq.same(&other.previous_last_event_seq)
            && self.actor_ref.same(&other.actor_ref)
            && self.capability_grant_ref.same(&other.capability_grant_ref)
            && self.expired.same(&other.expired)
            && self.recovery_attempt_id.same(&other.recovery_attempt_id)
    }

    fn copy(&self) -> (r: Self) {
        RecoveryReceipt {
            command: self.command.copy(),
            command_ref: self.command_ref.copy(),
            source_snapshot_ref: self.source_snapshot_ref.copy(),
            accepted_revision: self.accepted_revision.copy(),
            previous_segment_start_revision: self.previous_segment_start_revision.copy(),
            previous_last_event_seq: self.previous_last_event_seq.copy(),
            actor_ref: self.actor_ref.copy(),
            capability_grant_ref: self.capability_grant_ref.copy(),
            expired: self.expired.copy(),
            recovery_attempt_id: self.recovery_attempt_id.copy(),
        }
    }
}


/// Whether a checkpoint may be recovered from, and why not.
pub open spec fn recovery_fault(snapshot: RunSnapshotView) -> Option<Fault> {
    or_else(
        snapshot.defect,
        if snapshot.status is Running || snapshot.status is Interrupted {
            None
        } else {
            fault(ErrorCode::InvalidTransition, "recovery.source_status")
        },
    )
}

impl RunSnapshot {
    /// Construct a referenceable recovery checkpoint without reading or writing storage.
    pub fn recovery_record(&self, record_id: Id) -> (r: Result<ProtectedRecord, ContractError>)
        ensures
            failure(r) == recovery_fault(self@),
            r matches Ok(record) ==> record@.reference.record_id == record_id@
                && record@.reference.revision == 1 && record@.reference.digest == digest_of(
                self@.document,
            ) && record@.value == self@.document && record@.content == RecordContentView::Snapshot(
                self@,
            ),
    {
        self.validate()?;
        if !(self.status == RunStatus::Running || self.status == RunStatus::Interrupted) {
            return fail(ErrorCode::InvalidTransition, "recovery.source_status");
        }
        Ok(
            ProtectedRecord::new(
                record_id,
                1,
                self.document.copy(),
                RecordContent::Snapshot(Box::new(self.copy())),
            ),
        )
    }
}

/// A sound checkpoint can be recovered from exactly where its run is running or was interrupted: one
/// that waits is answered, and one that has ended stays ended.
pub proof fn law_only_unsettled_runs_are_recovered(snapshot: RunSnapshotView)
    ensures
        recovery_fault(snapshot) is None <==> snapshot.defect is None && (snapshot.status
            == RunStatus::Running || snapshot.status == RunStatus::Interrupted),
{
}

} // verus!
