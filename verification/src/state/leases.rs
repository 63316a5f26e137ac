//! Execution leases: who may change a run, and for how long.
use vstd::prelude::*;

use crate::data::Data;
use crate::error::{fail, ContractError, ErrorCode};
#[allow(unused_imports)]
use crate::error::{failure, fault, Fault};
use crate::refs::Scope;
#[allow(unused_imports)]
use crate::refs::ScopeView;
#[allow(unused_imports)]
use crate::run::{terminal, RunStatus};
use crate::serialization::Id;
use crate::state::scope::{RunLease, RunState};
#[allow(unused_imports)]
use crate::state::scope::{RunLeaseView, RunStateView};

verus! {

/// Why a lease cannot last from a time for a duration.
pub open spec fn expiry_fault(now_ms: i64, ttl_ms: u64) -> Option<Fault> {
    if ttl_ms == 0 || ttl_ms > i64::MAX {
        fault(ErrorCode::InvalidContract, "lease.ttl_ms")
    } else if now_ms + ttl_ms > i64::MAX {
        fault(ErrorCode::InvalidContract, "lease.expires_at_ms")
    } else {
        None
    }
}

/// When a lease that lasts from a time for a duration ends.
pub fn lease_expiry(now_ms: i64, ttl_ms: u64) -> (r: Result<i64, ContractError>)
    ensures
        failure(r) == expiry_fault(now_ms, ttl_ms),
        r matches Ok(expires_at_ms) ==> expires_at_ms == now_ms + ttl_ms,
{
    if ttl_ms == 0 || ttl_ms > i64::MAX as u64 {
        return fail(ErrorCode::InvalidContract, "lease.ttl_ms");
    }
    match now_ms.checked_add(ttl_ms as i64) {
        Some(expires_at_ms) => Ok(expires_at_ms),
        None => fail(ErrorCode::InvalidContract, "lease.expires_at_ms"),
    }
}

/// A lease is the one that a run is held under, and has not ended.
pub open spec fn holds(
    run: RunStateView,
    scope: ScopeView,
    run_id: Seq<char>,
    provided: RunLeaseView,
    now_ms: i64,
) -> bool {
    &&& provided.scope == scope
    &&& provided.run_id == run_id
    &&& run.lease matches Some(stored)
    &&& stored.owner == provided.owner
    &&& stored.fencing_token == provided.fencing_token
    &&& now_ms < stored.expires_at_ms
}

/// Why a lease does not permit changing a run.
pub open spec fn lease_fault(
    run: RunStateView,
    scope: ScopeView,
    run_id: Seq<char>,
    provided: RunLeaseView,
    now_ms: i64,
) -> Option<Fault> {
    if holds(run, scope, run_id, provided, now_ms) {
        None
    } else {
        fault(ErrorCode::LeaseLost, "lease")
    }
}

/// Validate owner and generation against the stored expiry, so that a renewal does not invalidate
/// copies of the same generation.
pub fn validate_lease(
    run: &RunState,
    scope: &Scope,
    run_id: &Id,
    provided: &RunLease,
    now_ms: i64,
) -> (r: Result<(), ContractError>)
    ensures
        failure(r) == lease_fault(run@, scope@, run_id@, provided@, now_ms),
{
    let is_current = match &run.lease {
        Some(stored) => stored.owner.same(&provided.owner) && stored.fencing_token
            == provided.fencing_token && now_ms < stored.expires_at_ms,
        None => false,
    };
    if !provided.scope.same(scope) || !provided.run_id.same(run_id) || !is_current {
        return fail(ErrorCode::LeaseLost, "lease");
    }
    Ok(())
}

/// Why no new lease on a run can be had.
pub open spec fn acquire_fault(run: RunStateView, now_ms: i64) -> Option<Fault> {
    if terminal(run.snapshot.status) {
        fault(ErrorCode::InvalidTransition, "run.status")
    } else if run.lease matches Some(lease) && lease.expires_at_ms > now_ms {
        fault(ErrorCode::LeaseBusy, "lease")
    } else if run.last_fencing_token == u64::MAX {
        fault(ErrorCode::InvalidContract, "lease.fencing_token")
    } else {
        None
    }
}

/// A new lease on a run.
pub open spec fn next_lease(
    run: RunStateView,
    scope: ScopeView,
    run_id: Seq<char>,
    owner: Seq<char>,
    expires_at_ms: i64,
) -> RunLeaseView {
    RunLeaseView {
        scope,
        run_id,
        owner,
        fencing_token: (run.last_fencing_token + 1) as u64,
        expires_at_ms,
    }
}

/// A run under a new lease.
pub open spec fn leased(run: RunStateView, lease: RunLeaseView) -> RunStateView {
    RunStateView { lease: Some(lease), last_fencing_token: lease.fencing_token, ..run }
}

/// Make a new lease on a run.
pub fn acquire(run: &RunState, scope: &Scope, run_id: &Id, owner: &Id, now_ms: i64, expires_at_ms: i64)
    -> (r: Result<RunLease, ContractError>)
    ensures
        failure(r) == acquire_fault(run@, now_ms),
        r matches Ok(lease) ==> lease@ == next_lease(
            run@,
            scope@,
            run_id@,
            owner@,
            expires_at_ms,
        ),
{
    if run.snapshot.status.is_terminal() {
        return fail(ErrorCode::InvalidTransition, "run.status");
    }
    if let Some(lease) = &run.lease {
        if lease.expires_at_ms > now_ms {
            return fail(ErrorCode::LeaseBusy, "lease");
        }
    }
    if run.last_fencing_token == u64::MAX {
        return fail(ErrorCode::InvalidContract, "lease.fencing_token");
    }
    Ok(
        RunLease {
            scope: scope.copy(),
            run_id: run_id.copy(),
            owner: owner.copy(),
            fencing_token: run.last_fencing_token + 1,
            expires_at_ms,
        },
    )
}

/// The generations of leases on a run strictly increase, so a lease of an earlier generation never
/// permits anything again.
pub proof fn law_old_leases_stay_lost(
    run: RunStateView,
    scope: ScopeView,
    run_id: Seq<char>,
    owner: Seq<char>,
    expires_at_ms: i64,
    old_lease: RunLeaseView,
    acquired_at_ms: i64,
    now_ms: i64,
)
    requires
        acquire_fault(run, acquired_at_ms) is None,
        old_lease.fencing_token <= run.last_fencing_token,
    ensures
        ({
            let lease = next_lease(run, scope, run_id, owner, expires_at_ms);
            &&& lease.fencing_token > run.last_fencing_token
            &&& leased(run, lease).last_fencing_token == lease.fencing_token
            &&& lease_fault(leased(run, lease), scope, run_id, old_lease, now_ms) == fault(
                ErrorCode::LeaseLost,
                "lease",
            )
        }),
{
}

/// A lease that has ended permits nothing, not even its own renewal.
pub proof fn law_ended_leases_are_lost(
    run: RunStateView,
    scope: ScopeView,
    run_id: Seq<char>,
    provided: RunLeaseView,
    now_ms: i64,
)
    requires
        run.lease matches Some(stored) && stored.expires_at_ms <= now_ms,
    ensures
        lease_fault(run, scope, run_id, provided, now_ms) == fault(ErrorCode::LeaseLost, "lease"),
{
}

/// While a lease lasts nobody can get another one.
pub proof fn law_a_lease_is_exclusive(
    run: RunStateView,
    scope: ScopeView,
    run_id: Seq<char>,
    provided: RunLeaseView,
    now_ms: i64,
)
    requires
        lease_fault(run, scope, run_id, provided, now_ms) is None,
    ensures
        acquire_fault(run, now_ms) is Some,
{
}

/// Whoever gets a lease on a run holds it until it ends, and a renewed copy of the same generation
/// holds as long as the stored one does.
pub proof fn law_a_new_lease_holds_until_it_ends(
    run: RunStateView,
    scope: ScopeView,
    run_id: Seq<char>,
    owner: Seq<char>,
    expires_at_ms: i64,
    copied_expiry_ms: i64,
    now_ms: i64,
)
    requires
        run.last_fencing_token < u64::MAX,
    ensures
        ({
            let lease = next_lease(run, scope, run_id, owner, expires_at_ms);
            let copied = RunLeaseView { expires_at_ms: copied_expiry_ms, ..lease };
            &&& lease.owner == owner
            &&& lease.scope == scope
            &&& lease.run_id == run_id
            &&& lease.expires_at_ms == expires_at_ms
            &&& lease.fencing_token == run.last_fencing_token + 1
            &&& lease_fault(leased(run, lease), scope, run_id, lease, now_ms) is None <==> now_ms
                < expires_at_ms
            &&& lease_fault(leased(run, lease), scope, run_id, copied, now_ms) is None <==> now_ms
                < expires_at_ms
            &&& leased(run, lease).snapshot == run.snapshot
        }),
{
}

/// A run that may still change is free for a new lease where it has none, or none that still lasts.
pub proof fn law_an_unheld_run_can_be_leased(run: RunStateView, now_ms: i64)
    requires
        run.last_fencing_token < u64::MAX,
    ensures
        acquire_fault(run, now_ms) is None <==> {
            &&& run.snapshot.status != RunStatus::Succeeded && run.snapshot.status
                != RunStatus::Failed && run.snapshot.status != RunStatus::Cancelled
                && run.snapshot.status != RunStatus::Exhausted
            &&& run.lease is None || run.lease->Some_0.expires_at_ms <= now_ms
        },
{
}

/// A lease on another run, of another scope, by another owner or of another generation permits
/// nothing.
pub proof fn law_only_the_exact_lease_permits(
    run: RunStateView,
    scope: ScopeView,
    run_id: Seq<char>,
    provided: RunLeaseView,
    now_ms: i64,
)
    requires
        lease_fault(run, scope, run_id, provided, now_ms) is None,
    ensures
        provided.scope == scope,
        provided.run_id == run_id,
        run.lease is Some,
        run.lease->Some_0.owner == provided.owner,
        run.lease->Some_0.fencing_token == provided.fencing_token,
        now_ms < run.lease->Some_0.expires_at_ms,
{
}

/// A lease may last for any time but none, up to the end of the clock.
pub proof fn law_leases_last_for_some_time(now_ms: i64, ttl_ms: u64)
    ensures
        expiry_fault(now_ms, ttl_ms) is None <==> 0 < ttl_ms <= i64::MAX && now_ms + ttl_ms
            <= i64::MAX,
{
}

} // verus!
