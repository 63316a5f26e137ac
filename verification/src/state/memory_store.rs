//! A process-local store of sessions, runs, records and events.
use vstd::prelude::*;

use crate::data::{find, keep, Data};
#[allow(unused_imports)]
use crate::data::{final_of, first_in, kept};
use crate::error::{fail, ContractError, ErrorCode};
#[allow(unused_imports)]
use crate::error::{failure, fault, Fault};
use crate::execution_contracts::{
    BeginSegmentRequest, BeginSegmentResult, ControlCommand, ControlReceipt, ExecutionHistory,
    SubmissionLimits,
};
use crate::hook::{HookInput, HookObservation};
#[allow(unused_imports)]
use crate::hook::{HookInputView, HookObservationView};
use crate::refs::{record_key, RecordRef, Scope};
#[allow(unused_imports)]
use crate::refs::{key_of, ScopeView};
use crate::run::{RunEvent, SessionSnapshot};
#[allow(unused_imports)]
use crate::run::RunEventView;
use crate::serialization::Id;
use crate::state::commit::{
    admit_run, commit, AdmissionChecks, AdmissionInput, AdmissionResult, CommitChecks, CommitInput,
};
#[allow(unused_imports)]
use crate::state::commit::{
    admission_fault, admitted_run, admitted_state, commit_fault, committed_run, committed_state,
    request_key_of,
};
use crate::state::hook_state::validate_hook_observation;
#[allow(unused_imports)]
use crate::state::hook_state::observation_fault;
use crate::state::leases::{acquire, lease_expiry, validate_lease};
#[allow(unused_imports)]
use crate::state::leases::{acquire_fault, expiry_fault, lease_fault, leased, next_lease};
use crate::state::records::ProtectedRecord;
use crate::state::scope::{
    not_found, RequestKey, RunLease, RunState, ScopeState, StoredRun,
};
#[allow(unused_imports)]
use crate::state::scope::{
    missing, run_as_stored, stored_run_fault, RequestKeyView, RunLeaseView, RunStateView,
    ScopeStateView,
};
use crate::state::segments::{begin, submit_control};
#[allow(unused_imports)]
use crate::state::segments::{
    begin_fault, begun, begun_state, control_receipt, controlled_state, legacy, request_fault,
    submission_refused,
};
#[allow(unused_imports)]
use crate::state::steps::{
    lemma_acquisition_step, lemma_admission_step, lemma_commit_step, lemma_control_step,
    lemma_release_step, lemma_renewal_step, lemma_report_step, lemma_start_step, step_state, StepView,
};
use crate::table::Table;

verus! {

/// Largest event page accepted by the reference store.
pub const MAX_EVENT_PAGE_SIZE: usize = 1_000;

/// Storage and coordination guarantees.
#[derive(Debug)]
pub struct StateStoreCapabilities {
    /// Committed state survives process termination.
    pub durable: bool,
    /// Leases coordinate different processes.
    pub cross_process_leases: bool,
    /// Committed events can be read again.
    pub event_replay: bool,
}

#[verifier::ext_equal]
pub struct StateStoreCapabilitiesView {
    pub durable: bool,
    pub cross_process_leases: bool,
    pub event_replay: bool,
}

impl View for StateStoreCapabilities {
    type V = StateStoreCapabilitiesView;

    open spec fn view(&self) -> StateStoreCapabilitiesView {
        StateStoreCapabilitiesView {
            durable: self.durable.deep_view(),
            cross_process_leases: self.cross_process_leases.deep_view(),
            event_replay: self.event_replay.deep_view(),
        }
    }
}

impl DeepView for StateStoreCapabilities {
    type V = StateStoreCapabilitiesView;

    open spec fn deep_view(&self) -> StateStoreCapabilitiesView {
        self@
    }
}

impl Data for StateStoreCapabilities {
    fn same(&self, other: &Self) -> (r: bool) {
        self.durable.same(&other.durable)
            && self.cross_process_leases.same(&other.cross_process_leases)
            && self.event_replay.same(&other.event_replay)
    }

    fn copy(&self) -> (r: Self) {
        StateStoreCapabilities {
            durable: self.durable.copy(),
            cross_process_leases: self.cross_process_leases.copy(),
            event_replay: self.event_replay.copy(),
        }
    }
}

/// A bounded, ordered page of protected durable events.
#[derive(Debug)]
pub struct EventPage {
    /// Events strictly after the supplied cursor.
    pub events: Vec<RunEvent>,
    /// Cursor for the next page, unchanged for an empty page.
    pub next_after_seq: u64,
    /// More events were available when this page was read.
    pub has_more: bool,
    /// Oldest retained sequence; None when no events are stored.
    pub first_available_seq: Option<u64>,
    /// Latest committed sequence when this page was read.
    pub last_available_seq: u64,
}

#[verifier::ext_equal]
pub struct EventPageView {
    pub events: Seq<RunEventView>,
    pub next_after_seq: u64,
    pub has_more: bool,
    pub first_available_seq: Option<u64>,
    pub last_available_seq: u64,
}

impl View for EventPage {
    type V = EventPageView;

    open spec fn view(&self) -> EventPageView {
        EventPageView {
            events: self.events.deep_view(),
            next_after_seq: self.next_after_seq.deep_view(),
            has_more: self.has_more.deep_view(),
            first_available_seq: self.first_available_seq.deep_view(),
            last_available_seq: self.last_available_seq.deep_view(),
        }
    }
}

impl DeepView for EventPage {
    type V = EventPageView;

    open spec fn deep_view(&self) -> EventPageView {
        self@
    }
}

impl Data for EventPage {
    fn same(&self, other: &Self) -> (r: bool) {
        self.events.same(&other.events)
            && self.next_after_seq.same(&other.next_after_seq)
            && self.has_more.same(&other.has_more)
            && self.first_available_seq.same(&other.first_available_seq)
            && self.last_available_seq.same(&other.last_available_seq)
    }

    fn copy(&self) -> (r: Self) {
        EventPage {
            events: self.events.copy(),
            next_after_seq: self.next_after_seq.copy(),
            has_more: self.has_more.copy(),
            first_available_seq: self.first_available_seq.copy(),
            last_available_seq: self.last_available_seq.copy(),
        }
    }
}


/// Process-local reference store. It retains all committed data for its lifetime. It provides
/// neither process-restart durability nor coordination between separate processes.
pub struct MemoryStateStore {
    scopes: Table<Scope, ScopeState>,
}

impl View for MemoryStateStore {
    type V = Map<ScopeView, ScopeStateView>;

    closed spec fn view(&self) -> Map<ScopeView, ScopeStateView> {
        self.scopes@
    }
}

/// What is stored for a scope; nothing for one that was never written.
pub open spec fn state_of(store: Map<ScopeView, ScopeStateView>, scope: ScopeView) -> ScopeStateView {
    if store.dom().contains(scope) {
        store[scope]
    } else {
        ScopeStateView::empty()
    }
}

/// Why a run cannot be found.
pub open spec fn run_fault(
    store: Map<ScopeView, ScopeStateView>,
    scope: ScopeView,
    run_id: Seq<char>,
) -> Option<Fault> {
    if store.dom().contains(scope) && store[scope].runs.dom().contains(run_id) {
        None
    } else {
        missing()
    }
}

/// A store in which one run was replaced.
pub open spec fn with_run(
    store: Map<ScopeView, ScopeStateView>,
    scope: ScopeView,
    run_id: Seq<char>,
    run: RunStateView,
) -> Map<ScopeView, ScopeStateView> {
    store.insert(
        scope,
        ScopeStateView { runs: store[scope].runs.insert(run_id, run), ..store[scope] },
    )
}

/// The events after a cursor.
pub open spec fn after_cursor(after_seq: u64) -> spec_fn(RunEventView) -> bool {
    |event: RunEventView| event.seq > after_seq
}

/// A page of the events of a run.
pub open spec fn page_of(run: RunStateView, after_seq: u64, limit: usize) -> EventPageView {
    let available = kept(run.events, after_cursor(after_seq));
    let events = if available.len() > limit {
        available.take(limit as int)
    } else {
        available
    };
    EventPageView {
        events,
        next_after_seq: match final_of(events) {
            Some(event) => event.seq,
            None => after_seq,
        },
        has_more: available.len() > limit,
        first_available_seq: if run.events.len() > 0 {
            Some(run.events[0].seq)
        } else {
            None
        },
        last_available_seq: run.snapshot.last_event_seq,
    }
}

fn page(run: &RunState, after_seq: u64, limit: usize) -> (r: EventPage)
    ensures
        r@ == page_of(run@, after_seq, limit),
{
    let after = |event: &RunEvent| -> (b: bool)
        ensures
            b == after_cursor(after_seq)(event@),
    { event.seq > after_seq };
    let mut events = keep(&run.events, after, Ghost(after_cursor(after_seq)));
    let ghost available = events.deep_view();
    let has_more = events.len() > limit;
    events.truncate(limit);
    assert(events.deep_view() =~= (if available.len() > limit {
        available.take(limit as int)
    } else {
        available
    }));
    let next_after_seq: u64 = match crate::data::last(&events) {
        Some(event) => event.seq,
        None => after_seq,
    };
    let first_available_seq = if run.events.len() > 0 {
        assert(run@.events[0] == run.events@[0]@);
        Some(run.events[0].seq)
    } else {
        None
    };
    EventPage {
        events,
        next_after_seq,
        has_more,
        first_available_seq,
        last_available_seq: run.snapshot.last_event_seq,
    }
}

/// Reports of a hook about one result.
pub open spec fn reports_same(report: HookObservationView) -> spec_fn(HookObservationView) -> bool {
    |existing: HookObservationView|
        existing.hook == report.hook && existing.selection == report.selection && existing.target
            == report.target
}

/// The reports about a run.
pub open spec fn reports_of(state: ScopeStateView, run_id: Seq<char>) -> Seq<HookObservationView> {
    if state.hook_observations.dom().contains(run_id) {
        state.hook_observations[run_id]
    } else {
        Seq::empty()
    }
}

/// Why a report of a hook is refused.
pub open spec fn report_fault(
    state: ScopeStateView,
    scope: ScopeView,
    run_id: Seq<char>,
    report: HookObservationView,
    observed: HookInputView,
    planned: Option<Fault>,
) -> Option<Fault> {
    if observation_fault(state, scope, run_id, report, observed, planned) is Some {
        observation_fault(state, scope, run_id, report, observed, planned)
    } else if first_in(reports_of(state, run_id), reports_same(report)) matches Some(existing)
        && existing != report {
        fault(ErrorCode::RecordConflict, "hooks.observation")
    } else {
        None
    }
}

/// A scope after a report of a hook; one that was reported before changes nothing.
pub open spec fn reported_state(
    state: ScopeStateView,
    run_id: Seq<char>,
    report: HookObservationView,
) -> ScopeStateView {
    if first_in(reports_of(state, run_id), reports_same(report)) is Some {
        state
    } else {
        ScopeStateView {
            hook_observations: state.hook_observations.insert(
                run_id,
                reports_of(state, run_id).push(report),
            ),
            ..state
        }
    }
}

impl MemoryStateStore {
    /// Construct an empty store without creating a runtime or doing I/O.
    pub fn new() -> (r: Self)
        ensures
            r@ == Map::<ScopeView, ScopeStateView>::empty(),
    {
        MemoryStateStore { scopes: Table::new() }
    }

    /// Describe storage and coordination guarantees.
    pub fn capabilities(&self) -> (r: StateStoreCapabilities)
        ensures
            r@ == (StateStoreCapabilitiesView {
                durable: false,
                cross_process_leases: false,
                event_replay: true,
            }),
    {
        StateStoreCapabilities { durable: false, cross_process_leases: false, event_replay: true }
    }

    fn namespace(&self, scope: &Scope) -> (r: Result<&ScopeState, ContractError>)
        ensures
            failure(r) == (if self@.dom().contains(scope@) {
                None
            } else {
                missing()
            }),
            r matches Ok(state) ==> state@ == self@[scope@],
    {
        match self.scopes.get(scope) {
            Some(state) => Ok(state),
            None => not_found(),
        }
    }

    fn run(&self, scope: &Scope, run_id: &Id) -> (r: Result<&RunState, ContractError>)
        ensures
            failure(r) == run_fault(self@, scope@, run_id@),
            r matches Ok(run) ==> run@ == self@[scope@].runs[run_id@],
    {
        self.namespace(scope)?.run(run_id)
    }

    fn replace_run(&mut self, scope: &Scope, run_id: &Id, run: RunState)
        requires
            old(self)@.dom().contains(scope@),
        ensures
            final(self)@ == with_run(old(self)@, scope@, run_id@, run@),
    {
        let ghost before = self@;
        let ghost given = run@;
        if let Some(state) = self.scopes.get(scope) {
            let mut state = state.copy();
            state.runs.insert(run_id.copy(), run);
            assert(state@ =~= (ScopeStateView {
                runs: before[scope@].runs.insert(run_id@, given),
                ..before[scope@]
            }));
            self.scopes.insert(scope.copy(), state);
        }
    }

    /// Find the original request before re-resolving current profile or routing metadata. A scope
    /// or request that is not stored gives nothing.
    pub fn find_request(&self, scope: &Scope, session_id: &Id, request_id: &Id) -> (r: Result<
        Option<StoredRun>,
        ContractError,
    >)
        ensures
            ({
                let key = RequestKeyView { session_id: session_id@, request_id: request_id@ };
                let state = state_of(self@, scope@);
                if state.requests.dom().contains(key) {
                    &&& failure(r) == stored_run_fault(state, state.requests[key])
                    &&& r matches Ok(found) ==> found.deep_view() == Some(
                        run_as_stored(state, state.requests[key]),
                    )
                } else {
                    r matches Ok(found) && found is None
                }
            }),
    {
        let state = match self.scopes.get(scope) {
            Some(state) => state,
            None => {
                return Ok(None);
            },
        };
        let key = RequestKey { session_id: session_id.copy(), request_id: request_id.copy() };
        match state.requests.get(&key) {
            Some(run_id) => Ok(Some(state.stored_run(run_id)?)),
            None => Ok(None),
        }
    }

    /// Deduplicate a request and reserve its session's active-run slot, in one step. A refused or
    /// repeated request changes nothing.
    pub fn admit_run(&mut self, scope: &Scope, input: AdmissionInput, checks: &AdmissionChecks)
        -> (r: Result<AdmissionResult, ContractError>)
        ensures
            failure(r) == admission_fault(state_of(old(self)@, scope@), scope@, input@, checks@),
            r is Err ==> final(self)@ == old(self)@,
            state_of(final(self)@, scope@) == step_state(
                state_of(old(self)@, scope@),
                scope@,
                (StepView::Admission { input: input@, checks: checks@ }),
            ),
            r matches Ok(result) ==> result@.created == !state_of(
                old(self)@,
                scope@,
            ).requests.dom().contains(request_key_of(input@.snapshot)),
            r matches Ok(result) ==> (if result@.created {
                &&& final(self)@ == old(self)@.insert(
                    scope@,
                    admitted_state(state_of(old(self)@, scope@), scope@, input@),
                )
                &&& result@.state == admitted_run(state_of(old(self)@, scope@), scope@, input@)
            } else {
                &&& final(self)@ == old(self)@
                &&& result@.state == run_as_stored(
                    state_of(old(self)@, scope@),
                    state_of(old(self)@, scope@).requests[request_key_of(input@.snapshot)],
                )
            }),
    {
        proof {
            lemma_admission_step(state_of(self@, scope@), scope@, input@, checks@);
        }
        let mut state = match self.scopes.get(scope) {
            Some(state) => state.copy(),
            None => ScopeState::new(),
        };
        let result = admit_run(&mut state, scope, input, checks)?;
        if result.created {
            self.scopes.insert(scope.copy(), state);
        }
        Ok(result)
    }

    /// Load owned state and the complete session transcript.
    pub fn load(&self, scope: &Scope, run_id: &Id) -> (r: Result<StoredRun, ContractError>)
        ensures
            failure(r) == stored_run_fault(state_of(self@, scope@), run_id@),
            r matches Ok(stored) ==> stored@ == run_as_stored(self@[scope@], run_id@),
    {
        self.namespace(scope)?.stored_run(run_id)
    }

    /// Read session-pinned metadata without changing its active run.
    pub fn load_session(&self, scope: &Scope, session_id: &Id) -> (r: Result<
        SessionSnapshot,
        ContractError,
    >)
        ensures
            failure(r) == (if state_of(self@, scope@).sessions.dom().contains(session_id@) {
                None
            } else {
                missing()
            }),
            r matches Ok(session) ==> session@ == self@[scope@].sessions[session_id@].snapshot,
    {
        let session = self.namespace(scope)?.session(session_id)?;
        Ok(session.snapshot.copy())
    }

    /// Validate owner and generation against the current stored expiry without renewing, and give
    /// the latest lease.
    pub fn check_lease(&self, scope: &Scope, run_id: &Id, lease: &RunLease, now_ms: i64) -> (r:
        Result<RunLease, ContractError>)
        ensures
            failure(r) == (if run_fault(self@, scope@, run_id@) is Some {
                run_fault(self@, scope@, run_id@)
            } else {
                lease_fault(self@[scope@].runs[run_id@], scope@, run_id@, lease@, now_ms)
            }),
            r matches Ok(current) ==> self@[scope@].runs[run_id@].lease == Some(current@),
    {
        let run = self.run(scope, run_id)?;
        validate_lease(run, scope, run_id, lease, now_ms)?;
        match &run.lease {
            Some(current) => Ok(current.copy()),
            None => fail(ErrorCode::LeaseLost, "lease"),
        }
    }

    /// Acquire a new generation after any previous lease has expired or been released.
    pub fn acquire_lease(
        &mut self,
        scope: &Scope,
        run_id: &Id,
        owner: &Id,
        now_ms: i64,
        ttl_ms: u64,
    ) -> (r: Result<RunLease, ContractError>)
        ensures
            failure(r) == (if expiry_fault(now_ms, ttl_ms) is Some {
                expiry_fault(now_ms, ttl_ms)
            } else if run_fault(old(self)@, scope@, run_id@) is Some {
                run_fault(old(self)@, scope@, run_id@)
            } else {
                acquire_fault(old(self)@[scope@].runs[run_id@], now_ms)
            }),
            r is Err ==> final(self)@ == old(self)@,
            state_of(final(self)@, scope@) == step_state(
                state_of(old(self)@, scope@),
                scope@,
                (StepView::Acquisition { run_id: run_id@, owner: owner@, now_ms, ttl_ms }),
            ),
            r matches Ok(lease) ==> lease@ == next_lease(
                old(self)@[scope@].runs[run_id@],
                scope@,
                run_id@,
                owner@,
                (now_ms + ttl_ms) as i64,
            ) && final(self)@ == with_run(
                old(self)@,
                scope@,
                run_id@,
                leased(old(self)@[scope@].runs[run_id@], lease@),
            ),
    {
        proof {
            lemma_acquisition_step(state_of(self@, scope@), scope@, run_id@, owner@, now_ms, ttl_ms);
        }
        let expires_at_ms: i64 = lease_expiry(now_ms, ttl_ms)?;
        let run = self.run(scope, run_id)?;
        let lease = acquire(run, scope, run_id, owner, now_ms, expires_at_ms)?;
        let next = RunState {
            snapshot: run.snapshot.copy(),
            events: run.events.copy(),
            lease: Some(lease.copy()),
            last_fencing_token: lease.fencing_token,
        };
        self.replace_run(scope, run_id, next);
        Ok(lease)
    }

    /// Renew an unexpired generation; an expired lease cannot be revived.
    pub fn renew_lease(
        &mut self,
        scope: &Scope,
        run_id: &Id,
        lease: &RunLease,
        now_ms: i64,
        ttl_ms: u64,
    ) -> (r: Result<RunLease, ContractError>)
        ensures
            failure(r) == (if expiry_fault(now_ms, ttl_ms) is Some {
                expiry_fault(now_ms, ttl_ms)
            } else if run_fault(old(self)@, scope@, run_id@) is Some {
                run_fault(old(self)@, scope@, run_id@)
            } else {
                lease_fault(old(self)@[scope@].runs[run_id@], scope@, run_id@, lease@, now_ms)
            }),
            r is Err ==> final(self)@ == old(self)@,
            state_of(final(self)@, scope@) == step_state(
                state_of(old(self)@, scope@),
                scope@,
                (StepView::Renewal { run_id: run_id@, lease: lease@, now_ms, ttl_ms }),
            ),
            r matches Ok(renewed) ==> renewed@ == (RunLeaseView {
                expires_at_ms: (now_ms + ttl_ms) as i64,
                ..lease@
            }) && final(self)@ == with_run(
                old(self)@,
                scope@,
                run_id@,
                (RunStateView { lease: Some(renewed@), ..old(self)@[scope@].runs[run_id@] }),
            ),
    {
        proof {
            lemma_renewal_step(state_of(self@, scope@), scope@, run_id@, lease@, now_ms, ttl_ms);
        }
        let expires_at_ms: i64 = lease_expiry(now_ms, ttl_ms)?;
        let run = self.run(scope, run_id)?;
        validate_lease(run, scope, run_id, lease, now_ms)?;
        let renewed = RunLease {
            scope: lease.scope.copy(),
            run_id: lease.run_id.copy(),
            owner: lease.owner.copy(),
            fencing_token: lease.fencing_token,
            expires_at_ms,
        };
        let next = RunState {
            snapshot: run.snapshot.copy(),
            events: run.events.copy(),
            lease: Some(renewed.copy()),
            last_fencing_token: run.last_fencing_token,
        };
        self.replace_run(scope, run_id, next);
        Ok(renewed)
    }

    /// Release only the currently owned unexpired generation.
    pub fn release_lease(&mut self, scope: &Scope, run_id: &Id, lease: &RunLease, now_ms: i64) -> (r:
        Result<(), ContractError>)
        ensures
            failure(r) == (if run_fault(old(self)@, scope@, run_id@) is Some {
                run_fault(old(self)@, scope@, run_id@)
            } else {
                lease_fault(old(self)@[scope@].runs[run_id@], scope@, run_id@, lease@, now_ms)
            }),
            r is Err ==> final(self)@ == old(self)@,
            state_of(final(self)@, scope@) == step_state(
                state_of(old(self)@, scope@),
                scope@,
                (StepView::Release { run_id: run_id@, lease: lease@, now_ms }),
            ),
            r is Ok ==> final(self)@ == with_run(
                old(self)@,
                scope@,
                run_id@,
                (RunStateView { lease: None, ..old(self)@[scope@].runs[run_id@] }),
            ),
    {
        proof {
            lemma_release_step(state_of(self@, scope@), scope@, run_id@, lease@, now_ms);
        }
        let run = self.run(scope, run_id)?;
        validate_lease(run, scope, run_id, lease, now_ms)?;
        let next = RunState {
            snapshot: run.snapshot.copy(),
            events: run.events.copy(),
            lease: None,
            last_fencing_token: run.last_fencing_token,
        };
        self.replace_run(scope, run_id, next);
        Ok(())
    }

    /// Validate and commit state, transcript, records and events in one step. A terminal commit
    /// also releases the current lease; a refused one changes nothing.
    pub fn commit(
        &mut self,
        scope: &Scope,
        run_id: &Id,
        input: CommitInput,
        checks: &CommitChecks,
    ) -> (r: Result<StoredRun, ContractError>)
        ensures
            failure(r) == commit_fault(
                state_of(old(self)@, scope@),
                scope@,
                run_id@,
                input@,
                None,
                checks@,
            ),
            r is Err ==> final(self)@ == old(self)@,
            state_of(final(self)@, scope@) == step_state(
                state_of(old(self)@, scope@),
                scope@,
                (StepView::Commit { run_id: run_id@, input: input@, checks: checks@ }),
            ),
            r matches Ok(stored) ==> stored@ == committed_run(old(self)@[scope@], run_id@, input@)
                && final(self)@ == old(self)@.insert(
                scope@,
                committed_state(old(self)@[scope@], run_id@, input@, None),
            ),
    {
        proof {
            lemma_commit_step(state_of(self@, scope@), scope@, run_id@, input@, checks@);
        }
        let mut state = match self.scopes.get(scope) {
            Some(state) => state.copy(),
            None => ScopeState::new(),
        };
        let no_override: Option<&Id> = None;
        assert(no_override.deep_view() == None::<Seq<char>>);
        let stored = commit(&mut state, scope, run_id, input, no_override, checks)?;
        self.scopes.insert(scope.copy(), state);
        Ok(stored)
    }

    /// Replay a bounded page of events.
    pub fn read_events(&self, scope: &Scope, run_id: &Id, after_seq: u64, limit: usize) -> (r: Result<
        EventPage,
        ContractError,
    >)
        ensures
            failure(r) == (if limit == 0 || limit > MAX_EVENT_PAGE_SIZE {
                fault(ErrorCode::InvalidContract, "events.limit")
            } else {
                run_fault(self@, scope@, run_id@)
            }),
            r matches Ok(page) ==> page@ == page_of(
                self@[scope@].runs[run_id@],
                after_seq,
                limit,
            ),
    {
        if limit == 0 || limit > MAX_EVENT_PAGE_SIZE {
            return fail(ErrorCode::InvalidContract, "events.limit");
        }
        let run = self.run(scope, run_id)?;
        Ok(page(run, after_seq, limit))
    }

    /// Read an exact scope-owned immutable record.
    pub fn read_record(&self, scope: &Scope, reference: &RecordRef) -> (r: Result<
        ProtectedRecord,
        ContractError,
    >)
        ensures
            ({
                let records = state_of(self@, scope@).records;
                let key = key_of(reference@);
                &&& failure(r) == (if !records.dom().contains(key) {
                    missing()
                } else if records[key].reference != reference@ {
                    fault(ErrorCode::RecordConflict, "record.reference")
                } else {
                    None
                })
                &&& r matches Ok(record) ==> record@ == records[key]
            }),
    {
        let state = self.namespace(scope)?;
        match state.records.get(&record_key(reference)) {
            Some(record) => {
                if !record.reference().same(reference) {
                    return fail(ErrorCode::RecordConflict, "record.reference");
                }
                Ok(record.copy())
            },
            None => not_found(),
        }
    }

    /// Append a report about an already committed result without changing its outcome, checkpoint
    /// revision, session ownership or event sequence. `planned` is what restoring the run's hook plan
    /// and validating it against its profile reported.
    pub fn record_hook_observation(
        &mut self,
        scope: &Scope,
        run_id: &Id,
        report: HookObservation,
        observed: &HookInput,
        planned: &Option<ContractError>,
    ) -> (r: Result<(), ContractError>)
        ensures
            failure(r) == (if !old(self)@.dom().contains(scope@) {
                missing()
            } else {
                report_fault(
                    old(self)@[scope@],
                    scope@,
                    run_id@,
                    report@,
                    observed@,
                    planned.deep_view(),
                )
            }),
            r is Err ==> final(self)@ == old(self)@,
            state_of(final(self)@, scope@) == step_state(
                state_of(old(self)@, scope@),
                scope@,
                (StepView::Report {
                    run_id: run_id@,
                    report: report@,
                    observed: observed@,
                    planned: planned.deep_view(),
                }),
            ),
            r is Ok ==> final(self)@ == old(self)@.insert(
                scope@,
                reported_state(old(self)@[scope@], run_id@, report@),
            ),
    {
        proof {
            lemma_report_step(
                state_of(self@, scope@),
                scope@,
                run_id@,
                report@,
                observed@,
                planned.deep_view(),
            );
        }
        let ghost before = self@;
        let ghost given = report@;
        let state = self.namespace(scope)?;
        validate_hook_observation(state, scope, run_id, &report, observed, planned)?;
        let mut reports = match state.hook_observations.get(run_id) {
            Some(reports) => reports.copy(),
            None => Vec::new(),
        };
        assert(reports.deep_view() =~= reports_of(before[scope@], run_id@));
        let same = |existing: &HookObservation| -> (b: bool)
            ensures
                b == reports_same(report@)(existing@),
        {
            existing.hook.same(&report.hook) && existing.selection.same(&report.selection)
                && existing.target.same(&report.target)
        };
        if let Some(existing) = find(&reports, same, Ghost(reports_same(report@))) {
            if !existing.same(&report) {
                return fail(ErrorCode::RecordConflict, "hooks.observation");
            }
            assert(before.insert(scope@, before[scope@]) =~= before);
            return Ok(());
        }
        let mut state = state.copy();
        reports.push(report);
        assert(reports.deep_view() =~= reports_of(before[scope@], run_id@).push(given));
        state.hook_observations.insert(run_id.copy(), reports);
        assert(state@ =~= reported_state(before[scope@], run_id@, given));
        self.scopes.insert(scope.copy(), state);
        Ok(())
    }

    /// Read protected lifecycle observation reports.
    pub fn read_hook_observations(&self, scope: &Scope, run_id: &Id) -> (r: Result<
        Vec<HookObservation>,
        ContractError,
    >)
        ensures
            failure(r) == run_fault(self@, scope@, run_id@),
            r matches Ok(reports) ==> reports.deep_view() == reports_of(self@[scope@], run_id@),
    {
        let state = self.namespace(scope)?;
        if !state.runs.contains_key(run_id) {
            return not_found();
        }
        let reports = match state.hook_observations.get(run_id) {
            Some(reports) => reports.copy(),
            None => Vec::new(),
        };
        assert(reports.deep_view() =~= reports_of(self@[scope@], run_id@));
        Ok(reports)
    }

    /// Read protected segment and command history without mutation.
    pub fn read_execution(&self, scope: &Scope, run_id: &Id) -> (r: Result<
        ExecutionHistory,
        ContractError,
    >)
        ensures
            failure(r) == (if run_fault(self@, scope@, run_id@) is Some {
                run_fault(self@, scope@, run_id@)
            } else if !self@[scope@].executions.dom().contains(run_id@) {
                legacy()
            } else {
                None
            }),
            r matches Ok(history) ==> history@ == self@[scope@].executions[run_id@],
    {
        let state = self.namespace(scope)?;
        if !state.runs.contains_key(run_id) {
            return not_found();
        }
        match state.executions.get(run_id) {
            Some(history) => Ok(history.copy()),
            None => fail(ErrorCode::CapabilityUnsupported, "execution.legacy_checkpoint"),
        }
    }

    /// Persist a command identifier and payload in one step; conflicting reuse is rejected, and a
    /// refusal changes nothing. `limits` is what holding the texts of the run's submission to the
    /// limits reported.
    pub fn submit_control_command(
        &mut self,
        scope: &Scope,
        run_id: &Id,
        command: ControlCommand,
        limits: &SubmissionLimits,
    ) -> (r: Result<ControlReceipt, ContractError>)
        ensures
            failure(r) == submission_refused(
                state_of(old(self)@, scope@),
                run_id@,
                command@,
                limits@,
            ),
            r is Err ==> final(self)@ == old(self)@,
            state_of(final(self)@, scope@) == step_state(
                state_of(old(self)@, scope@),
                scope@,
                (StepView::Control { run_id: run_id@, command: command@, limits: limits@ }),
            ),
            r matches Ok(receipt) ==> final(self)@ == old(self)@.insert(
                scope@,
                controlled_state(old(self)@[scope@], run_id@, command@),
            ) && receipt@ == control_receipt(
                old(self)@[scope@].executions[run_id@],
                old(self)@[scope@].runs[run_id@].snapshot,
                run_id@,
                command@,
            ),
    {
        proof {
            lemma_control_step(state_of(self@, scope@), scope@, run_id@, command@, limits@);
        }
        let mut state = match self.scopes.get(scope) {
            Some(state) => state.copy(),
            None => ScopeState::new(),
        };
        let receipt = submit_control(&mut state, run_id, command, limits)?;
        self.scopes.insert(scope.copy(), state);
        Ok(receipt)
    }

    /// Deduplicate or consume a command, check the expected revision and allocate ownership, in one
    /// step. The transaction works on a copy, which is published only once nothing speaks against
    /// it.
    pub fn begin_segment(
        &mut self,
        scope: &Scope,
        request: &BeginSegmentRequest,
        checks: &CommitChecks,
    ) -> (r: Result<BeginSegmentResult, ContractError>)
        ensures
            failure(r) == (if !old(self)@.dom().contains(scope@) {
                missing()
            } else {
                begin_fault(old(self)@[scope@], scope@, request@, checks@)
            }),
            r is Err ==> final(self)@ == old(self)@,
            state_of(final(self)@, scope@) == step_state(
                state_of(old(self)@, scope@),
                scope@,
                (StepView::Start { request: request@, checks: checks@ }),
            ),
            r matches Ok(result) ==> final(self)@ == old(self)@.insert(
                scope@,
                begun_state(old(self)@[scope@], scope@, request@),
            ) && result@ == begun(old(self)@[scope@], scope@, request@),
    {
        proof {
            lemma_start_step(state_of(self@, scope@), scope@, request@, checks@);
            assert(begin_fault(ScopeStateView::empty(), scope@, request@, checks@) is Some) by {
                reveal(request_fault);
            }
        }
        let mut state = self.namespace(scope)?.copy();
        let result = begin(&mut state, scope, request, checks)?;
        self.scopes.insert(scope.copy(), state);
        Ok(result)
    }
}

impl Default for MemoryStateStore {
    fn default() -> (r: Self)
        ensures
            r@ == Map::<ScopeView, ScopeStateView>::empty(),
    {
        MemoryStateStore::new()
    }
}

/// A page holds the events behind its cursor, in their order and at most as many as asked for, and
/// says whether more are left. Its own cursor is the last event that it holds.
pub proof fn law_pages_hold_what_follows(run: RunStateView, after_seq: u64, limit: usize, i: int)
    ensures
        ({
            let page = page_of(run, after_seq, limit);
            let following = kept(run.events, after_cursor(after_seq));
            &&& page.events.len() <= limit
            &&& page.events.is_prefix_of(following)
            &&& page.has_more <==> page.events.len() < following.len()
            &&& 0 <= i < page.events.len() ==> page.events[i].seq > after_seq
                && run.events.contains(page.events[i])
            &&& page.events.len() > 0 ==> page.next_after_seq == page.events.last().seq
            &&& page.events.len() == 0 ==> page.next_after_seq == after_seq
            &&& page.last_available_seq == run.snapshot.last_event_seq
            &&& 0 <= i < run.events.len() && run.events[i].seq > after_seq && !page.has_more
                ==> page.events.contains(run.events[i])
        }),
{
    let p = after_cursor(after_seq);
    let following = kept(run.events, p);
    crate::data::lemma_kept(run.events, p);
    let page = page_of(run, after_seq, limit);
    if 0 <= i < page.events.len() {
        assert(following.contains(following[i]));
        assert(p(following[i]));
    }
    if 0 <= i < run.events.len() && run.events[i].seq > after_seq {
        assert(p(run.events[i]));
        assert(following.contains(run.events[i]));
    }
}

/// A report of a hook is kept once: behind those before it where it is new, and one of the same hook
/// about the same result that says something else is refused.
pub proof fn law_reports_are_kept_once(
    state: ScopeStateView,
    scope: ScopeView,
    run_id: Seq<char>,
    report: HookObservationView,
    observed: HookInputView,
    planned: Option<Fault>,
)
    requires
        report_fault(state, scope, run_id, report, observed, planned) is None,
    ensures
        reports_of(reported_state(state, run_id, report), run_id).contains(report),
        reported_state(reported_state(state, run_id, report), run_id, report) == reported_state(
            state,
            run_id,
            report,
        ),
        reported_state(state, run_id, report).runs == state.runs,
        reported_state(state, run_id, report).records == state.records,
{
    let reports = reports_of(state, run_id);
    let p = reports_same(report);
    crate::data::lemma_first_in(reports, p);
    let after = reported_state(state, run_id, report);
    if first_in(reports, p) is None {
        let more = reports.push(report);
        assert(more[reports.len() as int] == report);
        assert(p(more[reports.len() as int]));
        crate::data::lemma_first_in(more, p);
    }
}

} // verus!
