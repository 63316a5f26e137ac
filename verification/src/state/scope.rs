//! Everything that is stored for one scope.
use vstd::prelude::*;

use crate::content::Message;
#[allow(unused_imports)]
use crate::content::MessageView;
use crate::data::Data;
use crate::error::{fail, ContractError, ErrorCode};
#[allow(unused_imports)]
use crate::error::{failure, fault, Fault};
use crate::execution_contracts::ExecutionHistory;
#[allow(unused_imports)]
use crate::execution_contracts::ExecutionHistoryView;
use crate::hook::HookObservation;
#[allow(unused_imports)]
use crate::hook::HookObservationView;
use crate::refs::{RecordKey, Scope};
#[allow(unused_imports)]
use crate::refs::{RecordKeyView, ScopeView};
use crate::run::{RunEvent, RunSnapshot, SessionSnapshot};
#[allow(unused_imports)]
use crate::run::{RunEventView, RunSnapshotView, SessionSnapshotView};
use crate::serialization::Id;
use crate::state::records::ProtectedRecord;
#[allow(unused_imports)]
use crate::state::records::ProtectedRecordView;
use crate::table::{IdSet, Table};

verus! {

/// A session with its transcript.
#[derive(Debug)]
pub struct SessionState {
    pub snapshot: SessionSnapshot,
    pub messages: Vec<Message>,
}

#[verifier::ext_equal]
pub struct SessionStateView {
    pub snapshot: SessionSnapshotView,
    pub messages: Seq<MessageView>,
}

impl View for SessionState {
    type V = SessionStateView;

    open spec fn view(&self) -> SessionStateView {
        SessionStateView {
            snapshot: self.snapshot.deep_view(),
            messages: self.messages.deep_view(),
        }
    }
}

impl DeepView for SessionState {
    type V = SessionStateView;

    open spec fn deep_view(&self) -> SessionStateView {
        self@
    }
}

impl Data for SessionState {
    fn same(&self, other: &Self) -> (r: bool) {
        self.snapshot.same(&other.snapshot)
            && self.messages.same(&other.messages)
    }

    fn copy(&self) -> (r: Self) {
        SessionState {
            snapshot: self.snapshot.copy(),
            messages: self.messages.copy(),
        }
    }
}

/// Store-issued lease identity. Possession is not Host authorization.
#[derive(Debug)]
pub struct RunLease {
    /// Exact resource namespace.
    pub scope: Scope,
    /// Run owned by this lease.
    pub run_id: Id,
    /// Worker identity supplied by trusted runtime code.
    pub owner: Id,
    /// Increasing generation retained across expiration and release.
    pub fencing_token: u64,
    /// Expiration reported when issued.
    pub expires_at_ms: i64,
}

#[verifier::ext_equal]
pub struct RunLeaseView {
    pub scope: ScopeView,
    pub run_id: Seq<char>,
    pub owner: Seq<char>,
    pub fencing_token: u64,
    pub expires_at_ms: i64,
}

impl View for RunLease {
    type V = RunLeaseView;

    open spec fn view(&self) -> RunLeaseView {
        RunLeaseView {
            scope: self.scope.deep_view(),
            run_id: self.run_id.deep_view(),
            owner: self.owner.deep_view(),
            fencing_token: self.fencing_token.deep_view(),
            expires_at_ms: self.expires_at_ms.deep_view(),
        }
    }
}

impl DeepView for RunLease {
    type V = RunLeaseView;

    open spec fn deep_view(&self) -> RunLeaseView {
        self@
    }
}

impl Data for RunLease {
    fn same(&self, other: &Self) -> (r: bool) {
        self.scope.same(&other.scope)
            && self.run_id.same(&other.run_id)
            && self.owner.same(&other.owner)
            && self.fencing_token.same(&other.fencing_token)
            && self.expires_at_ms.same(&other.expires_at_ms)
    }

    fn copy(&self) -> (r: Self) {
        RunLease {
            scope: self.scope.copy(),
            run_id: self.run_id.copy(),
            owner: self.owner.copy(),
            fencing_token: self.fencing_token.copy(),
            expires_at_ms: self.expires_at_ms.copy(),
        }
    }
}

/// A run with its events and its lease.
#[derive(Debug)]
pub struct RunState {
    pub snapshot: RunSnapshot,
    pub events: Vec<RunEvent>,
    pub lease: Option<RunLease>,
    pub last_fencing_token: u64,
}

#[verifier::ext_equal]
pub struct RunStateView {
    pub snapshot: RunSnapshotView,
    pub events: Seq<RunEventView>,
    pub lease: Option<RunLeaseView>,
    pub last_fencing_token: u64,
}

impl View for RunState {
    type V = RunStateView;

    open spec fn view(&self) -> RunStateView {
        RunStateView {
            snapshot: self.snapshot.deep_view(),
            events: self.events.deep_view(),
            lease: self.lease.deep_view(),
            last_fencing_token: self.last_fencing_token.deep_view(),
        }
    }
}

impl DeepView for RunState {
    type V = RunStateView;

    open spec fn deep_view(&self) -> RunStateView {
        self@
    }
}

impl Data for RunState {
    fn same(&self, other: &Self) -> (r: bool) {
        self.snapshot.same(&other.snapshot)
            && self.events.same(&other.events)
            && self.lease.same(&other.lease)
            && self.last_fencing_token.same(&other.last_fencing_token)
    }

    fn copy(&self) -> (r: Self) {
        RunState {
            snapshot: self.snapshot.copy(),
            events: self.events.copy(),
            lease: self.lease.copy(),
            last_fencing_token: self.last_fencing_token.copy(),
        }
    }
}

/// Identity of a submitted request.
#[derive(Debug)]
pub struct RequestKey {
    pub session_id: Id,
    pub request_id: Id,
}

#[verifier::ext_equal]
pub struct RequestKeyView {
    pub session_id: Seq<char>,
    pub request_id: Seq<char>,
}

impl View for RequestKey {
    type V = RequestKeyView;

    open spec fn view(&self) -> RequestKeyView {
        RequestKeyView {
            session_id: self.session_id.deep_view(),
            request_id: self.request_id.deep_view(),
        }
    }
}

impl DeepView for RequestKey {
    type V = RequestKeyView;

    open spec fn deep_view(&self) -> RequestKeyView {
        self@
    }
}

impl Data for RequestKey {
    fn same(&self, other: &Self) -> (r: bool) {
        self.session_id.same(&other.session_id)
            && self.request_id.same(&other.request_id)
    }

    fn copy(&self) -> (r: Self) {
        RequestKey {
            session_id: self.session_id.copy(),
            request_id: self.request_id.copy(),
        }
    }
}

/// An owned protected checkpoint and its complete session transcript.
#[derive(Debug)]
pub struct StoredRun {
    /// Current run checkpoint and protected record references.
    pub snapshot: RunSnapshot,
    /// Current session metadata, including its active run.
    pub session: SessionSnapshot,
    /// Append-only session transcript, including messages from earlier runs.
    pub messages: Vec<Message>,
}

#[verifier::ext_equal]
pub struct StoredRunView {
    pub snapshot: RunSnapshotView,
    pub session: SessionSnapshotView,
    pub messages: Seq<MessageView>,
}

impl View for StoredRun {
    type V = StoredRunView;

    open spec fn view(&self) -> StoredRunView {
        StoredRunView {
            snapshot: self.snapshot.deep_view(),
            session: self.session.deep_view(),
            messages: self.messages.deep_view(),
        }
    }
}

impl DeepView for StoredRun {
    type V = StoredRunView;

    open spec fn deep_view(&self) -> StoredRunView {
        self@
    }
}

impl Data for StoredRun {
    fn same(&self, other: &Self) -> (r: bool) {
        self.snapshot.same(&other.snapshot)
            && self.session.same(&other.session)
            && self.messages.same(&other.messages)
    }

    fn copy(&self) -> (r: Self) {
        StoredRun {
            snapshot: self.snapshot.copy(),
            session: self.session.copy(),
            messages: self.messages.copy(),
        }
    }
}


/// Everything that is stored for one scope.
#[derive(Debug)]
pub struct ScopeState {
    pub sessions: Table<Id, SessionState>,
    pub runs: Table<Id, RunState>,
    pub requests: Table<RequestKey, Id>,
    pub records: Table<RecordKey, ProtectedRecord>,
    pub event_ids: IdSet,
    pub message_ids: IdSet,
    pub hook_observations: Table<Id, Vec<HookObservation>>,
    pub executions: Table<Id, ExecutionHistory>,
}

#[verifier::ext_equal]
pub struct ScopeStateView {
    pub sessions: Map<Seq<char>, SessionStateView>,
    pub runs: Map<Seq<char>, RunStateView>,
    pub requests: Map<RequestKeyView, Seq<char>>,
    pub records: Map<RecordKeyView, ProtectedRecordView>,
    pub event_ids: Set<Seq<char>>,
    pub message_ids: Set<Seq<char>>,
    pub hook_observations: Map<Seq<char>, Seq<HookObservationView>>,
    pub executions: Map<Seq<char>, ExecutionHistoryView>,
}

impl View for ScopeState {
    type V = ScopeStateView;

    open spec fn view(&self) -> ScopeStateView {
        ScopeStateView {
            sessions: self.sessions@,
            runs: self.runs@,
            requests: self.requests@,
            records: self.records@,
            event_ids: self.event_ids@,
            message_ids: self.message_ids@,
            hook_observations: self.hook_observations@,
            executions: self.executions@,
        }
    }
}

impl DeepView for ScopeState {
    type V = ScopeStateView;

    open spec fn deep_view(&self) -> ScopeStateView {
        self@
    }
}

impl ScopeStateView {
    /// Nothing stored.
    pub open spec fn empty() -> ScopeStateView {
        ScopeStateView {
            sessions: Map::empty(),
            runs: Map::empty(),
            requests: Map::empty(),
            records: Map::empty(),
            event_ids: Set::empty(),
            message_ids: Set::empty(),
            hook_observations: Map::empty(),
            executions: Map::empty(),
        }
    }
}

/// The failure of a lookup that finds nothing.
pub open spec fn missing() -> Option<Fault> {
    fault(ErrorCode::StateNotFound, "state")
}

/// Report that nothing was found.
pub fn not_found<T>() -> (r: Result<T, ContractError>)
    ensures
        r is Err,
        failure(r) == missing(),
{
    fail(ErrorCode::StateNotFound, "state")
}

/// Why a run cannot be read.
pub open spec fn stored_run_fault(state: ScopeStateView, run_id: Seq<char>) -> Option<Fault> {
    if !state.runs.dom().contains(run_id) || !state.sessions.dom().contains(
        state.runs[run_id].snapshot.request.session_id,
    ) {
        missing()
    } else {
        None
    }
}

/// A run as it is read: its checkpoint, its session and the session's transcript.
pub open spec fn run_as_stored(state: ScopeStateView, run_id: Seq<char>) -> StoredRunView {
    let run = state.runs[run_id];
    let session = state.sessions[run.snapshot.request.session_id];
    StoredRunView { snapshot: run.snapshot, session: session.snapshot, messages: session.messages }
}

impl ScopeState {
    /// Nothing stored.
    pub fn new() -> (r: Self)
        ensures
            r@ == ScopeStateView::empty(),
    {
        ScopeState {
            sessions: Table::new(),
            runs: Table::new(),
            requests: Table::new(),
            records: Table::new(),
            event_ids: IdSet::new(),
            message_ids: IdSet::new(),
            hook_observations: Table::new(),
            executions: Table::new(),
        }
    }

    /// A separate state that holds the same data.
    pub fn copy(&self) -> (r: Self)
        ensures
            r@ == self@,
    {
        ScopeState {
            sessions: self.sessions.copy(),
            runs: self.runs.copy(),
            requests: self.requests.copy(),
            records: self.records.copy(),
            event_ids: self.event_ids.copy(),
            message_ids: self.message_ids.copy(),
            hook_observations: self.hook_observations.copy(),
            executions: self.executions.copy(),
        }
    }

    /// The run of an identifier.
    pub fn run(&self, run_id: &Id) -> (r: Result<&RunState, ContractError>)
        ensures
            failure(r) == (if self@.runs.dom().contains(run_id@) {
                None
            } else {
                missing()
            }),
            r matches Ok(run) ==> run@ == self@.runs[run_id@],
    {
        match self.runs.get(run_id) {
            Some(run) => Ok(run),
            None => not_found(),
        }
    }

    /// The session of an identifier.
    pub fn session(&self, session_id: &Id) -> (r: Result<&SessionState, ContractError>)
        ensures
            failure(r) == (if self@.sessions.dom().contains(session_id@) {
                None
            } else {
                missing()
            }),
            r matches Ok(session) ==> session@ == self@.sessions[session_id@],
    {
        match self.sessions.get(session_id) {
            Some(session) => Ok(session),
            None => not_found(),
        }
    }

    /// Read a run with its session.
    pub fn stored_run(&self, run_id: &Id) -> (r: Result<StoredRun, ContractError>)
        ensures
            failure(r) == stored_run_fault(self@, run_id@),
            r matches Ok(stored) ==> stored@ == run_as_stored(self@, run_id@),
    {
        let run = self.run(run_id)?;
        let session = self.session(&run.snapshot.request.session_id)?;
        Ok(
            StoredRun {
                snapshot: run.snapshot.copy(),
                session: session.snapshot.copy(),
                messages: session.messages.copy(),
            },
        )
    }
}

} // verus!
