//! Sequences of operations on a scope, and what none of them takes back.
use vstd::prelude::*;

#[allow(unused_imports)]
use crate::data::{first_in, kept, lemma_first_in, some_in};
#[allow(unused_imports)]
use crate::error::{fault, ErrorCode, Fault};
#[allow(unused_imports)]
use crate::execution_contracts::{
    submission_digest, submission_fault, AcceptedSegmentCommandView, BeginSegmentRequestView,
    ControlCommandView, ExecutionHistoryView, RequestSnapshotView, SegmentStartView,
    SubmissionLimitsView,
};
#[allow(unused_imports)]
use crate::hook::{HookInputView, HookObservationView};
#[allow(unused_imports)]
use crate::refs::ScopeView;
#[allow(unused_imports)]
use crate::run::{terminal, RunEventView};
#[allow(unused_imports)]
use crate::state::commit::{
    admission_fault, admitted_state, commit_fault, committed_history, committed_history_fault,
    committed_state, request_key_of, settled_history, AdmissionChecksView, AdmissionInputView,
    CommitChecksView, CommitInputView,
};
#[allow(unused_imports)]
use crate::state::execution::{
    accepted_named, completed_history, control_named, history_after, law_history_only_grows,
    processed, segment_named, segments_after,
};
#[allow(unused_imports)]
use crate::state::leases::{acquire_fault, expiry_fault, lease_fault, leased, next_lease};
#[allow(unused_imports)]
use crate::state::memory_store::{
    after_cursor, page_of, report_fault, reported_state, EventPageView,
};
#[allow(unused_imports)]
use crate::state::order::{
    in_order, law_admission_keeps_order, law_commit_keeps_order, law_empty_scope_is_in_order,
    law_pages_leave_no_gap, law_starting_keeps_order, lemma_kept_suffix, holds_slot, run_in_order,
    session_in_order,
};
#[allow(unused_imports)]
use crate::state::scope::{
    missing, run_as_stored, stored_run_fault, RequestKeyView, RunLeaseView, RunStateView, ScopeStateView,
};
#[allow(unused_imports)]
use crate::state::segments::{
    begin_fault, begun, begun_state, controlled, controlled_state, is_answered, leased_state,
    request_fault, start_fault, start_payload, start_transition_fault, started_history,
    started_segment, starting_commit, starting_lease, submission_refused, was_started,
};
#[allow(unused_imports)]
use crate::state::transition::law_transition_keeps_identity;

verus! {

/// One operation on a scope that may change what is stored.
#[verifier::ext_equal]
pub enum StepView {
    Admission { input: AdmissionInputView, checks: AdmissionChecksView },
    Acquisition { run_id: Seq<char>, owner: Seq<char>, now_ms: i64, ttl_ms: u64 },
    Renewal { run_id: Seq<char>, lease: RunLeaseView, now_ms: i64, ttl_ms: u64 },
    Release { run_id: Seq<char>, lease: RunLeaseView, now_ms: i64 },
    Commit { run_id: Seq<char>, input: CommitInputView, checks: CommitChecksView },
    Start { request: BeginSegmentRequestView, checks: CommitChecksView },
    Control {
        run_id: Seq<char>,
        command: ControlCommandView,
        limits: SubmissionLimitsView,
    },
    Report {
        run_id: Seq<char>,
        report: HookObservationView,
        observed: HookInputView,
        planned: Option<Fault>,
    },
}

/// Why an operation is refused.
#[verifier::opaque]
pub open spec fn step_fault(state: ScopeStateView, scope: ScopeView, step: StepView) -> Option<
    Fault,
> {
    match step {
        StepView::Admission { input, checks } => admission_fault(state, scope, input, checks),
        StepView::Acquisition { run_id, owner, now_ms, ttl_ms } => if expiry_fault(
            now_ms,
            ttl_ms,
        ) is Some {
            expiry_fault(now_ms, ttl_ms)
        } else if !state.runs.dom().contains(run_id) {
            missing()
        } else {
            acquire_fault(state.runs[run_id], now_ms)
        },
        StepView::Renewal { run_id, lease, now_ms, ttl_ms } => if expiry_fault(
            now_ms,
            ttl_ms,
        ) is Some {
            expiry_fault(now_ms, ttl_ms)
        } else if !state.runs.dom().contains(run_id) {
            missing()
        } else {
            lease_fault(state.runs[run_id], scope, run_id, lease, now_ms)
        },
        StepView::Release { run_id, lease, now_ms } => if !state.runs.dom().contains(run_id) {
            missing()
        } else {
            lease_fault(state.runs[run_id], scope, run_id, lease, now_ms)
        },
        StepView::Commit { run_id, input, checks } => commit_fault(
            state,
            scope,
            run_id,
            input,
            None,
            checks,
        ),
        StepView::Start { request, checks } => begin_fault(state, scope, request, checks),
        StepView::Control { run_id, command, limits } => submission_refused(
            state,
            run_id,
            command,
            limits,
        ),
        StepView::Report { run_id, report, observed, planned } => report_fault(
            state,
            scope,
            run_id,
            report,
            observed,
            planned,
        ),
    }
}

/// The lease that an acquisition gives.
pub open spec fn acquired(
    state: ScopeStateView,
    scope: ScopeView,
    run_id: Seq<char>,
    owner: Seq<char>,
    now_ms: i64,
    ttl_ms: u64,
) -> RunLeaseView {
    next_lease(state.runs[run_id], scope, run_id, owner, (now_ms + ttl_ms) as i64)
}

/// A scope in which one run was replaced.
pub open spec fn with_run_state(
    state: ScopeStateView,
    run_id: Seq<char>,
    run: RunStateView,
) -> ScopeStateView {
    ScopeStateView { runs: state.runs.insert(run_id, run), ..state }
}

/// What is stored after an operation; a refused one changes nothing.
#[verifier::opaque]
pub open spec fn step_state(state: ScopeStateView, scope: ScopeView, step: StepView)
    -> ScopeStateView {
    if step_fault(state, scope, step) is Some {
        state
    } else {
        match step {
            StepView::Admission { input, checks } => if state.requests.dom().contains(
                request_key_of(input.snapshot),
            ) {
                state
            } else {
                admitted_state(state, scope, input)
            },
            StepView::Acquisition { run_id, owner, now_ms, ttl_ms } => with_run_state(
                state,
                run_id,
                leased(
                    state.runs[run_id],
                    acquired(state, scope, run_id, owner, now_ms, ttl_ms),
                ),
            ),
            StepView::Renewal { run_id, lease, now_ms, ttl_ms } => with_run_state(
                state,
                run_id,
                RunStateView {
                    lease: Some(
                        RunLeaseView { expires_at_ms: (now_ms + ttl_ms) as i64, ..lease },
                    ),
                    ..state.runs[run_id]
                },
            ),
            StepView::Release { run_id, lease, now_ms } => with_run_state(
                state,
                run_id,
                RunStateView { lease: None, ..state.runs[run_id] },
            ),
            StepView::Commit { run_id, input, checks } => committed_state(
                state,
                run_id,
                input,
                None,
            ),
            StepView::Start { request, checks } => begun_state(state, scope, request),
            StepView::Control { run_id, command, .. } => controlled_state(state, run_id, command),
            StepView::Report { run_id, report, .. } => reported_state(state, run_id, report),
        }
    }
}

/// What is stored after a sequence of operations.
pub open spec fn after_steps(state: ScopeStateView, scope: ScopeView, steps: Seq<StepView>)
    -> ScopeStateView
    decreases steps.len(),
{
    if steps.len() == 0 {
        state
    } else {
        step_state(after_steps(state, scope, steps.drop_last()), scope, steps.last())
    }
}

/// What is stored once operations were made on a scope that held nothing.
pub open spec fn reached(scope: ScopeView, steps: Seq<StepView>) -> ScopeStateView {
    after_steps(ScopeStateView::empty(), scope, steps)
}

/// The lease of a run is of its latest generation.
pub open spec fn tokens_agree(state: ScopeStateView) -> bool {
    forall|id: Seq<char>| #[trigger]
        state.runs.dom().contains(id) ==> (state.runs[id].lease matches Some(lease)
            ==> lease.fencing_token == state.runs[id].last_fencing_token)
}

/// A history holds everything that an earlier one held: the same submission, every accepted command
/// in its place, and every segment in its place.
pub open spec fn holds_all_of(later: ExecutionHistoryView, earlier: ExecutionHistoryView) -> bool {
    &&& later.submitted == earlier.submitted
    &&& earlier.accepted_commands.is_prefix_of(later.accepted_commands)
    &&& earlier.segments.len() <= later.segments.len()
    &&& forall|i: int|
        0 <= i < earlier.segments.len() ==> (#[trigger] later.segments[i]).segment_id
            == earlier.segments[i].segment_id
}

/// A run goes on under its identity, with its history and with no earlier lease generation.
pub open spec fn goes_on(earlier: ScopeStateView, later: ScopeStateView, run_id: Seq<char>) -> bool {
    earlier.runs.dom().contains(run_id) ==> {
        let before = earlier.runs[run_id];
        let after = later.runs[run_id];
        &&& later.runs.dom().contains(run_id)
        &&& before.last_fencing_token <= after.last_fencing_token
        &&& after.snapshot.request == before.snapshot.request
        &&& after.snapshot.request_digest == before.snapshot.request_digest
        &&& after.snapshot.profile == before.snapshot.profile
        &&& after.snapshot.system_inputs == before.snapshot.system_inputs
        &&& later.executions.dom().contains(run_id) == earlier.executions.dom().contains(run_id)
        &&& earlier.executions.dom().contains(run_id) ==> holds_all_of(
            later.executions[run_id],
            earlier.executions[run_id],
        )
    }
}

/// No request that was admitted is forgotten.
pub open spec fn requests_stay(earlier: ScopeStateView, later: ScopeStateView) -> bool {
    forall|key: RequestKeyView| #[trigger]
        earlier.requests.dom().contains(key) ==> later.requests.dom().contains(key)
            && later.requests[key] == earlier.requests[key]
}

/// What an admission does.
pub proof fn lemma_admission_step(state: ScopeStateView, scope: ScopeView, input: AdmissionInputView, checks: AdmissionChecksView)
    ensures
        ({
            let step = StepView::Admission { input, checks };
            let refused = admission_fault(state, scope, input, checks);
            &&& step_fault(state, scope, step) == refused
            &&& step_state(state, scope, step) == (if refused is Some {
                state
            } else {
                if state.requests.dom().contains(request_key_of(input.snapshot)) { state } else { admitted_state(state, scope, input) }
            })
        }),
{
    reveal(step_fault);
    reveal(step_state);
}

/// What a renewal does.
pub proof fn lemma_renewal_step(state: ScopeStateView, scope: ScopeView, run_id: Seq<char>, lease: RunLeaseView, now_ms: i64, ttl_ms: u64)
    ensures
        ({
            let step = StepView::Renewal { run_id, lease, now_ms, ttl_ms };
            let refused = if expiry_fault(now_ms, ttl_ms) is Some { expiry_fault(now_ms, ttl_ms) } else if !state.runs.dom().contains(run_id) { missing() } else { lease_fault(state.runs[run_id], scope, run_id, lease, now_ms) };
            &&& step_fault(state, scope, step) == refused
            &&& step_state(state, scope, step) == (if refused is Some {
                state
            } else {
                with_run_state(state, run_id, RunStateView { lease: Some(RunLeaseView { expires_at_ms: (now_ms + ttl_ms) as i64, ..lease }), ..state.runs[run_id] })
            })
        }),
{
    reveal(step_fault);
    reveal(step_state);
}

/// What an acquisition does.
pub proof fn lemma_acquisition_step(state: ScopeStateView, scope: ScopeView, run_id: Seq<char>, owner: Seq<char>, now_ms: i64, ttl_ms: u64)
    ensures
        ({
            let step = StepView::Acquisition { run_id, owner, now_ms, ttl_ms };
            let refused = if expiry_fault(now_ms, ttl_ms) is Some { expiry_fault(now_ms, ttl_ms) } else if !state.runs.dom().contains(run_id) { missing() } else { acquire_fault(state.runs[run_id], now_ms) };
            &&& step_fault(state, scope, step) == refused
            &&& step_state(state, scope, step) == (if refused is Some {
                state
            } else {
                with_run_state(state, run_id, leased(state.runs[run_id], acquired(state, scope, run_id, owner, now_ms, ttl_ms)))
            })
        }),
{
    reveal(step_fault);
    reveal(step_state);
}

/// What a release does.
pub proof fn lemma_release_step(state: ScopeStateView, scope: ScopeView, run_id: Seq<char>, lease: RunLeaseView, now_ms: i64)
    ensures
        ({
            let step = StepView::Release { run_id, lease, now_ms };
            let refused = if !state.runs.dom().contains(run_id) { missing() } else { lease_fault(state.runs[run_id], scope, run_id, lease, now_ms) };
            &&& step_fault(state, scope, step) == refused
            &&& step_state(state, scope, step) == (if refused is Some {
                state
            } else {
                with_run_state(state, run_id, RunStateView { lease: None, ..state.runs[run_id] })
            })
        }),
{
    reveal(step_fault);
    reveal(step_state);
}

/// What a commit does.
pub proof fn lemma_commit_step(state: ScopeStateView, scope: ScopeView, run_id: Seq<char>, input: CommitInputView, checks: CommitChecksView)
    ensures
        ({
            let step = StepView::Commit { run_id, input, checks };
            let refused = commit_fault(state, scope, run_id, input, None, checks);
            &&& step_fault(state, scope, step) == refused
            &&& step_state(state, scope, step) == (if refused is Some {
                state
            } else {
                committed_state(state, run_id, input, None)
            })
        }),
{
    reveal(step_fault);
    reveal(step_state);
}

/// What the start of a segment does.
pub proof fn lemma_start_step(state: ScopeStateView, scope: ScopeView, request: BeginSegmentRequestView, checks: CommitChecksView)
    ensures
        ({
            let step = StepView::Start { request, checks };
            let refused = begin_fault(state, scope, request, checks);
            &&& step_fault(state, scope, step) == refused
            &&& step_state(state, scope, step) == (if refused is Some {
                state
            } else {
                begun_state(state, scope, request)
            })
        }),
{
    reveal(step_fault);
    reveal(step_state);
}

/// What a control command does.
pub proof fn lemma_control_step(
    state: ScopeStateView,
    scope: ScopeView,
    run_id: Seq<char>,
    command: ControlCommandView,
    limits: SubmissionLimitsView,
)
    ensures
        ({
            let step = StepView::Control { run_id, command, limits };
            let refused = submission_refused(state, run_id, command, limits);
            &&& step_fault(state, scope, step) == refused
            &&& step_state(state, scope, step) == (if refused is Some {
                state
            } else {
                controlled_state(state, run_id, command)
            })
        }),
{
    reveal(step_fault);
    reveal(step_state);
}

/// What a report does.
pub proof fn lemma_report_step(
    state: ScopeStateView,
    scope: ScopeView,
    run_id: Seq<char>,
    report: HookObservationView,
    observed: HookInputView,
    planned: Option<Fault>,
)
    ensures
        ({
            let step = StepView::Report { run_id, report, observed, planned };
            let refused = report_fault(state, scope, run_id, report, observed, planned);
            &&& step_fault(state, scope, step) == refused
            &&& step_state(state, scope, step) == (if refused is Some {
                state
            } else {
                reported_state(state, run_id, report)
            })
        }),
{
    reveal(step_fault);
    reveal(step_state);
}

proof fn lemma_completed_holds_all(history: ExecutionHistoryView, commands: Seq<Seq<char>>, n: int)
    ensures
        holds_all_of(completed_history(history, commands, n), history),
        completed_history(history, commands, n).segments == history.segments,
    decreases n,
{
    if n > 0 {
        lemma_completed_holds_all(history, commands, n - 1);
    }
}

proof fn lemma_commit_goes_on(
    state: ScopeStateView,
    scope: ScopeView,
    run_id: Seq<char>,
    input: CommitInputView,
    segment_override: Option<Seq<char>>,
    checks: CommitChecksView,
    id: Seq<char>,
)
    requires
        commit_fault(state, scope, run_id, input, segment_override, checks) is None,
        tokens_agree(state),
    ensures
        goes_on(state, committed_state(state, run_id, input, segment_override), id),
        requests_stay(state, committed_state(state, run_id, input, segment_override)),
        tokens_agree(committed_state(state, run_id, input, segment_override)),
{
    reveal(committed_history_fault);
    let after = committed_state(state, run_id, input, segment_override);
    law_transition_keeps_identity(
        state.runs[run_id].snapshot,
        input.snapshot,
        checks.transition,
    );
    if state.executions.dom().contains(run_id) {
        let history = state.executions[run_id];
        let previous = state.runs[run_id].snapshot;
        law_history_only_grows(
            history,
            previous,
            input.snapshot,
            segment_override,
            checks.submitted,
        );
        let advanced = committed_history(state, run_id, input, segment_override);
        lemma_completed_holds_all(
            advanced,
            input.control_commands,
            input.control_commands.len() as int,
        );
        assert(holds_all_of(advanced, history));
    }
    assert forall|other: Seq<char>| #[trigger] after.runs.dom().contains(other) implies (
    after.runs[other].lease matches Some(lease) ==> lease.fencing_token
        == after.runs[other].last_fencing_token) by {
        if other != run_id {
            assert(state.runs.dom().contains(other));
        }
        assert(state.runs.dom().contains(run_id));
    }
}

proof fn lemma_start_goes_on(
    state: ScopeStateView,
    scope: ScopeView,
    request: BeginSegmentRequestView,
    checks: CommitChecksView,
    id: Seq<char>,
)
    requires
        begin_fault(state, scope, request, checks) is None,
        tokens_agree(state),
    ensures
        goes_on(state, begun_state(state, scope, request), id),
        requests_stay(state, begun_state(state, scope, request)),
        tokens_agree(begun_state(state, scope, request)),
{
    reveal(request_fault);
    reveal(start_fault);
    let run_id = request.run_id;
    let working = leased_state(state, scope, request);
    let after = begun_state(state, scope, request);
    if !is_answered(state.executions[run_id], state.runs[run_id].snapshot, request) {
        assert(tokens_agree(working)) by {
            assert forall|other: Seq<char>| #[trigger] working.runs.dom().contains(other) implies (
            working.runs[other].lease matches Some(lease) ==> lease.fencing_token
                == working.runs[other].last_fencing_token) by {
                if other != run_id {
                    assert(state.runs.dom().contains(other));
                }
            }
        }
        if !(request.start is Initial) {
            let input = starting_commit(
                request,
                request.transition->0,
                starting_lease(state, scope, request),
            );
            lemma_commit_goes_on(
                working,
                scope,
                run_id,
                input,
                Some(request.segment_id),
                checks,
                id,
            );
            let committed = committed_state(working, run_id, input, Some(request.segment_id));
            lemma_commit_goes_on(
                working,
                scope,
                run_id,
                input,
                Some(request.segment_id),
                checks,
                run_id,
            );
            assert(after.runs == committed.runs);
            assert(holds_all_of(
                started_history(committed.executions[run_id], request),
                committed.executions[run_id],
            ));
            assert(tokens_agree(after)) by {
                assert forall|other: Seq<char>| #[trigger] after.runs.dom().contains(other) implies (
                after.runs[other].lease matches Some(lease) ==> lease.fencing_token
                    == after.runs[other].last_fencing_token) by {
                    assert(committed.runs.dom().contains(other));
                }
            }
        } else {
            assert(after.runs == working.runs);
            assert(tokens_agree(after)) by {
                assert forall|other: Seq<char>| #[trigger] after.runs.dom().contains(other) implies (
                after.runs[other].lease matches Some(lease) ==> lease.fencing_token
                    == after.runs[other].last_fencing_token) by {
                    assert(working.runs.dom().contains(other));
                }
            }
        }
    }
}

proof fn lemma_step(state: ScopeStateView, scope: ScopeView, step: StepView, id: Seq<char>)
    requires
        in_order(state),
        tokens_agree(state),
    ensures
        in_order(step_state(state, scope, step)),
        tokens_agree(step_state(state, scope, step)),
        goes_on(state, step_state(state, scope, step), id),
        requests_stay(state, step_state(state, scope, step)),
{
    reveal(step_fault);
    reveal(step_state);
    let after = step_state(state, scope, step);
    if step_fault(state, scope, step) is None {
        match step {
            StepView::Admission { input, checks } => {
                if !state.requests.dom().contains(request_key_of(input.snapshot)) {
                    law_admission_keeps_order(state, scope, input, checks);
                    assert forall|other: Seq<char>| #[trigger]
                        after.runs.dom().contains(other) implies (
                    after.runs[other].lease matches Some(lease) ==> lease.fencing_token
                        == after.runs[other].last_fencing_token) by {
                        if other != input.snapshot.run_id {
                            assert(state.runs.dom().contains(other));
                        }
                    }
                }
            },
            StepView::Commit { run_id, input, checks } => {
                law_commit_keeps_order(state, scope, run_id, input, None, checks);
                lemma_commit_goes_on(state, scope, run_id, input, None, checks, id);
            },
            StepView::Start { request, checks } => {
                law_starting_keeps_order(state, scope, request, checks);
                lemma_start_goes_on(state, scope, request, checks, id);
            },
            StepView::Acquisition { run_id, .. } => {
                lemma_run_replaced(state, run_id, after.runs[run_id]);
            },
            StepView::Renewal { run_id, .. } => {
                lemma_run_replaced(state, run_id, after.runs[run_id]);
            },
            StepView::Release { run_id, .. } => {
                lemma_run_replaced(state, run_id, after.runs[run_id]);
            },
            StepView::Control { run_id, command, limits } => {
                lemma_same_runs(state, after);
            },
            StepView::Report { run_id, report, .. } => {
                lemma_same_runs(state, after);
            },
        }
    }
}

/// A new lease, or none, changes nothing but the lease.
proof fn lemma_run_replaced(state: ScopeStateView, run_id: Seq<char>, run: RunStateView)
    requires
        in_order(state),
        tokens_agree(state),
        state.runs.dom().contains(run_id),
        run.snapshot == state.runs[run_id].snapshot,
        run.events == state.runs[run_id].events,
        run.lease matches Some(lease) ==> lease.fencing_token == run.last_fencing_token,
    ensures
        in_order(with_run_state(state, run_id, run)),
        tokens_agree(with_run_state(state, run_id, run)),
{
    let after = with_run_state(state, run_id, run);
    assert forall|id: Seq<char>| #[trigger] after.runs.dom().contains(id) implies run_in_order(
        id,
        after.runs[id],
    ) && holds_slot(after, id) && (after.runs[id].lease matches Some(lease) ==> lease.fencing_token
        == after.runs[id].last_fencing_token) by {
        assert(state.runs.dom().contains(id));
        assert(holds_slot(state, id));
    }
    assert forall|id: Seq<char>| #[trigger]
        after.sessions.dom().contains(id) implies session_in_order(id, after.sessions[id]) by {
        assert(state.sessions.dom().contains(id));
    }
}

proof fn lemma_same_runs(state: ScopeStateView, after: ScopeStateView)
    requires
        in_order(state),
        tokens_agree(state),
        after.runs == state.runs,
        after.sessions == state.sessions,
    ensures
        in_order(after),
        tokens_agree(after),
{
    assert forall|id: Seq<char>| #[trigger] after.runs.dom().contains(id) implies run_in_order(
        id,
        after.runs[id],
    ) && holds_slot(after, id) by {
        assert(state.runs.dom().contains(id));
        assert(holds_slot(state, id));
    }
    assert forall|id: Seq<char>| #[trigger]
        after.sessions.dom().contains(id) implies session_in_order(id, after.sessions[id]) by {
        assert(state.sessions.dom().contains(id));
    }
}

/// Whatever operations are made, a scope that was in order stays in order.
pub proof fn law_operations_keep_order(
    state: ScopeStateView,
    scope: ScopeView,
    steps: Seq<StepView>,
)
    requires
        in_order(state),
        tokens_agree(state),
    ensures
        in_order(after_steps(state, scope, steps)),
        tokens_agree(after_steps(state, scope, steps)),
    decreases steps.len(),
{
    if steps.len() > 0 {
        law_operations_keep_order(state, scope, steps.drop_last());
        lemma_step(
            after_steps(state, scope, steps.drop_last()),
            scope,
            steps.last(),
            Seq::empty(),
        );
    }
}

/// Everything that can be stored is in order.
pub proof fn law_reached_scopes_are_in_order(scope: ScopeView, steps: Seq<StepView>)
    ensures
        in_order(reached(scope, steps)),
        tokens_agree(reached(scope, steps)),
{
    law_empty_scope_is_in_order();
    law_operations_keep_order(ScopeStateView::empty(), scope, steps);
}

/// Whatever operations are made, every run goes on under its identity with its history, and every
/// admitted request stays known.
pub proof fn law_runs_go_on(
    state: ScopeStateView,
    scope: ScopeView,
    steps: Seq<StepView>,
    run_id: Seq<char>,
)
    requires
        in_order(state),
        tokens_agree(state),
    ensures
        goes_on(state, after_steps(state, scope, steps), run_id),
        requests_stay(state, after_steps(state, scope, steps)),
    decreases steps.len(),
{
    if steps.len() > 0 {
        let middle = after_steps(state, scope, steps.drop_last());
        law_operations_keep_order(state, scope, steps.drop_last());
        law_runs_go_on(state, scope, steps.drop_last(), run_id);
        lemma_step(middle, scope, steps.last(), run_id);
        let end = after_steps(state, scope, steps);
        if state.runs.dom().contains(run_id) && state.executions.dom().contains(run_id) {
            let a = state.executions[run_id];
            let b = middle.executions[run_id];
            let c = end.executions[run_id];
            assert forall|i: int| 0 <= i < a.segments.len() implies (
            #[trigger] c.segments[i]).segment_id == a.segments[i].segment_id by {
                assert(b.segments[i].segment_id == a.segments[i].segment_id);
            }
            assert(holds_all_of(c, a));
        }
    }
}

/// Lease generations never come back: a lease that is acquired later, after whatever operations, has
/// a greater token than an earlier one, is of its owner and lasts as long as asked; at that moment no
/// other lease lasted; and from then on, whatever happens, the earlier one is lost.
pub proof fn law_generations_never_come_back(
    scope: ScopeView,
    history: Seq<StepView>,
    run_id: Seq<char>,
    first_owner: Seq<char>,
    first_ms: i64,
    first_ttl_ms: u64,
    between: Seq<StepView>,
    owner: Seq<char>,
    acquired_ms: i64,
    ttl_ms: u64,
    later: Seq<StepView>,
    now_ms: i64,
)
    requires
        ({
            let first = StepView::Acquisition {
                run_id,
                owner: first_owner,
                now_ms: first_ms,
                ttl_ms: first_ttl_ms,
            };
            let second = StepView::Acquisition { run_id, owner, now_ms: acquired_ms, ttl_ms };
            let middle = after_steps(
                step_state(reached(scope, history), scope, first),
                scope,
                between,
            );
            &&& step_fault(reached(scope, history), scope, first) is None
            &&& step_fault(middle, scope, second) is None
        }),
    ensures
        ({
            let first = StepView::Acquisition {
                run_id,
                owner: first_owner,
                now_ms: first_ms,
                ttl_ms: first_ttl_ms,
            };
            let second = StepView::Acquisition { run_id, owner, now_ms: acquired_ms, ttl_ms };
            let earlier = acquired(
                reached(scope, history),
                scope,
                run_id,
                first_owner,
                first_ms,
                first_ttl_ms,
            );
            let middle = after_steps(
                step_state(reached(scope, history), scope, first),
                scope,
                between,
            );
            let lease = acquired(middle, scope, run_id, owner, acquired_ms, ttl_ms);
            let end = after_steps(step_state(middle, scope, second), scope, later);
            &&& lease.fencing_token > earlier.fencing_token
            &&& lease.owner == owner
            &&& lease.expires_at_ms == acquired_ms + ttl_ms
            &&& !terminal(middle.runs[run_id].snapshot.status)
            &&& !(middle.runs[run_id].lease matches Some(stored) && stored.expires_at_ms
                > acquired_ms)
            &&& end.runs.dom().contains(run_id)
            &&& lease_fault(end.runs[run_id], scope, run_id, earlier, now_ms) == fault(
                ErrorCode::LeaseLost,
                "lease",
            )
        }),
{
    let start = reached(scope, history);
    let first = StepView::Acquisition {
        run_id,
        owner: first_owner,
        now_ms: first_ms,
        ttl_ms: first_ttl_ms,
    };
    let second = StepView::Acquisition { run_id, owner, now_ms: acquired_ms, ttl_ms };
    law_reached_scopes_are_in_order(scope, history);
    lemma_step(start, scope, first, run_id);
    lemma_acquisition_step(start, scope, run_id, first_owner, first_ms, first_ttl_ms);
    let leased_first = step_state(start, scope, first);
    law_operations_keep_order(leased_first, scope, between);
    law_runs_go_on(leased_first, scope, between, run_id);
    let middle = after_steps(leased_first, scope, between);
    lemma_step(middle, scope, second, run_id);
    lemma_acquisition_step(middle, scope, run_id, owner, acquired_ms, ttl_ms);
    let leased_again = step_state(middle, scope, second);
    law_operations_keep_order(leased_again, scope, later);
    law_runs_go_on(leased_again, scope, later, run_id);
    let end = after_steps(leased_again, scope, later);
    assert(end.runs.dom().contains(run_id));
}

/// While a lease lasts, an acquisition is refused as busy and changes nothing.
pub proof fn law_busy_leases_stay(
    state: ScopeStateView,
    scope: ScopeView,
    run_id: Seq<char>,
    owner: Seq<char>,
    now_ms: i64,
    ttl_ms: u64,
)
    requires
        state.runs.dom().contains(run_id),
        !terminal(state.runs[run_id].snapshot.status),
        state.runs[run_id].lease matches Some(stored) && stored.expires_at_ms > now_ms,
        expiry_fault(now_ms, ttl_ms) is None,
    ensures
        ({
            let step = StepView::Acquisition { run_id, owner, now_ms, ttl_ms };
            &&& step_fault(state, scope, step) == fault(ErrorCode::LeaseBusy, "lease")
            &&& step_state(state, scope, step) == state
        }),
{
    reveal(step_fault);
    reveal(step_state);
}

/// The events that consecutive pages give, from a cursor on and for at most `pages` pages.
pub open spec fn read_on(run: RunStateView, after_seq: u64, limit: usize, pages: nat) -> Seq<
    RunEventView,
>
    decreases pages,
{
    if pages == 0 {
        Seq::empty()
    } else {
        let page = page_of(run, after_seq, limit);
        if page.has_more {
            page.events + read_on(run, page.next_after_seq, limit, (pages - 1) as nat)
        } else {
            page.events
        }
    }
}

proof fn lemma_read_on(
    run_id: Seq<char>,
    run: RunStateView,
    after_seq: u64,
    limit: usize,
    pages: nat,
)
    requires
        run_in_order(run_id, run),
        limit > 0,
        after_seq <= run.events.len(),
        pages > run.events.len() - after_seq,
    ensures
        read_on(run, after_seq, limit, pages) == run.events.skip(after_seq as int),
    decreases pages,
{
    law_pages_leave_no_gap(run_id, run, after_seq, limit);
    let page = page_of(run, after_seq, limit);
    let n = page.events.len() as int;
    if page.has_more {
        lemma_read_on(run_id, run, page.next_after_seq, limit, (pages - 1) as nat);
        assert(page.events + run.events.skip(after_seq + n) =~= run.events.skip(after_seq as int));
    } else {
        assert(page.events =~= run.events.skip(after_seq as int));
    }
}

/// Replay is complete for every run that can be stored: reading on from the cursor of each page,
/// while there is more, gives every event after the first cursor exactly once and in its order.
pub proof fn law_pages_give_every_event_once(
    scope: ScopeView,
    history: Seq<StepView>,
    run_id: Seq<char>,
    after_seq: u64,
    limit: usize,
)
    requires
        reached(scope, history).runs.dom().contains(run_id),
        after_seq <= reached(scope, history).runs[run_id].events.len(),
        limit > 0,
    ensures
        ({
            let run = reached(scope, history).runs[run_id];
            &&& forall|i: int| 0 <= i < run.events.len() ==> (#[trigger] run.events[i]).seq == i + 1
            &&& kept(run.events, after_cursor(after_seq)) == run.events.skip(after_seq as int)
            &&& read_on(run, after_seq, limit, (run.events.len() + 1) as nat) == kept(
                run.events,
                after_cursor(after_seq),
            )
        }),
{
    law_reached_scopes_are_in_order(scope, history);
    let run = reached(scope, history).runs[run_id];
    lemma_kept_suffix(run.events, 1, after_seq);
    lemma_read_on(run_id, run, after_seq, limit, (run.events.len() + 1) as nat);
}

/// A request is admitted once: after an admission and whatever operations, submitting the same again
/// gives the run that was created, as it is now stored, and changes nothing; and submitting something
/// else under its identity is refused as a conflict and changes nothing. The limits on texts report
/// the same of the same texts.
pub proof fn law_admission_is_repeatable(
    scope: ScopeView,
    history: Seq<StepView>,
    input: AdmissionInputView,
    checks: AdmissionChecksView,
    between: Seq<StepView>,
    again: AdmissionInputView,
    again_checks: AdmissionChecksView,
)
    requires
        admission_fault(reached(scope, history), scope, input, checks) is None,
        !reached(scope, history).requests.dom().contains(request_key_of(input.snapshot)),
        request_key_of(again.snapshot) == request_key_of(input.snapshot),
        again.snapshot.scope == scope,
        again.snapshot.profile.scope == scope,
        input.submitted is Some ==> again_checks.stored == checks.submitted,
    ensures
        ({
            let admission = StepView::Admission { input, checks };
            let repeated = StepView::Admission { input: again, checks: again_checks };
            let state = after_steps(
                step_state(reached(scope, history), scope, admission),
                scope,
                between,
            );
            &&& state.requests.dom().contains(request_key_of(again.snapshot))
            &&& state.requests[request_key_of(again.snapshot)] == input.snapshot.run_id
            &&& step_state(state, scope, repeated) == state
            &&& (match (input.submitted, again.submitted) {
                (Some(submitted), Some(candidate)) => {
                    &&& candidate == submitted && again_checks.submitted == checks.submitted
                        ==> step_fault(state, scope, repeated) is None
                    &&& submission_fault(candidate, again_checks.submitted) is None && submission_digest(
                        candidate.profile_ref,
                        candidate.request,
                        candidate.system_inputs,
                    ) != submitted.digest ==> step_fault(state, scope, repeated) == fault(
                        ErrorCode::RequestConflict,
                        "request",
                    )
                },
                (Some(_), None) => step_fault(state, scope, repeated) == fault(
                    ErrorCode::RequestConflict,
                    "request",
                ),
                (None, _) => step_fault(state, scope, repeated) == (
                if again_checks.admission_digest == checks.admission_digest {
                    None
                } else {
                    fault(ErrorCode::RequestConflict, "request")
                }),
            })
        }),
{
    reveal(step_fault);
    reveal(step_state);
    let start = reached(scope, history);
    let admission = StepView::Admission { input, checks };
    law_reached_scopes_are_in_order(scope, history);
    let run_id = input.snapshot.run_id;
    lemma_step(start, scope, admission, run_id);
    let admitted = step_state(start, scope, admission);
    law_operations_keep_order(admitted, scope, between);
    law_runs_go_on(admitted, scope, between, run_id);
    let state = after_steps(admitted, scope, between);
    let key = request_key_of(input.snapshot);
    assert(admitted.requests.dom().contains(key) && admitted.requests[key] == run_id);
    assert(state.requests.dom().contains(key) && state.requests[key] == run_id);
    assert(state.runs.dom().contains(run_id));
    assert(holds_slot(state, run_id));
}

/// A started segment stays started: once a command was accepted, submitting the same request again,
/// after whatever operations and though its expected revision is stale, gives the segment that it
/// started and the run as it is now stored, hands out no lease and changes nothing.
pub proof fn law_started_segments_stay_started(
    scope: ScopeView,
    history: Seq<StepView>,
    request: BeginSegmentRequestView,
    checks: CommitChecksView,
    between: Seq<StepView>,
    again_checks: CommitChecksView,
)
    requires
        request.start is Resume,
        begin_fault(reached(scope, history), scope, request, checks) is None,
        !was_started(reached(scope, history).executions[request.run_id], request),
    ensures
        ({
            let start = StepView::Start { request, checks };
            let again = StepView::Start { request, checks: again_checks };
            let first = begun(reached(scope, history), scope, request);
            let state = after_steps(
                step_state(reached(scope, history), scope, start),
                scope,
                between,
            );
            let answer = begun(state, scope, request);
            &&& first.segment.segment_id == request.segment_id
            &&& step_fault(state, scope, again) is None
            &&& step_state(state, scope, again) == state
            &&& answer.lease is None
            &&& answer.segment.segment_id == request.segment_id
            &&& answer.state == run_as_stored(state, request.run_id)
        }),
{
    let run_id = request.run_id;
    let before = reached(scope, history);
    let start = StepView::Start { request, checks };
    let again = StepView::Start { request, checks: again_checks };
    law_reached_scopes_are_in_order(scope, history);
    lemma_step(before, scope, start, run_id);
    lemma_start_step(before, scope, request, checks);
    lemma_resumed(before, scope, request, checks);
    let started = step_state(before, scope, start);
    law_operations_keep_order(started, scope, between);
    law_runs_go_on(started, scope, between, run_id);
    let state = after_steps(started, scope, between);
    assert(state.runs.dom().contains(run_id) && holds_slot(state, run_id));
    let earlier = started.executions[run_id];
    let later = state.executions[run_id];
    assert(holds_all_of(later, earlier));
    let n = choose|n: int| #[trigger] is_first_acceptance(earlier, request, n);
    assert(later.accepted_commands[n] == earlier.accepted_commands[n]);
    let named = accepted_named(request.start->Resume_0.command_id);
    assert forall|i: int| 0 <= i < n implies !named(#[trigger] later.accepted_commands[i]) by {
        assert(later.accepted_commands[i] == earlier.accepted_commands[i]);
    }
    assert(is_first_acceptance(later, request, n));
    let last = earlier.segments.len() - 1;
    assert(later.segments[last].segment_id == request.segment_id);
    lemma_restarted(state, scope, request, again_checks, n, last);
    lemma_start_step(state, scope, request, again_checks);
}

/// The command of a request was first accepted at a position, for the segment of the request.
pub open spec fn is_first_acceptance(
    history: ExecutionHistoryView,
    request: BeginSegmentRequestView,
    n: int,
) -> bool {
    let command = request.start->Resume_0;
    let named = accepted_named(command.command_id);
    &&& 0 <= n < history.accepted_commands.len()
    &&& history.accepted_commands[n] == (AcceptedSegmentCommandView {
        command_id: command.command_id,
        payload_digest: command.digest,
        segment_id: request.segment_id,
    })
    &&& forall|i: int| 0 <= i < n ==> !named(#[trigger] history.accepted_commands[i])
}

/// What starting a segment for a command leaves in the history.
proof fn lemma_resumed(
    state: ScopeStateView,
    scope: ScopeView,
    request: BeginSegmentRequestView,
    checks: CommitChecksView,
)
    requires
        request.start is Resume,
        begin_fault(state, scope, request, checks) is None,
        !was_started(state.executions[request.run_id], request),
    ensures
        ({
            let after = begun_state(state, scope, request).executions[request.run_id];
            &&& state.runs.dom().contains(request.run_id)
            &&& state.executions.dom().contains(request.run_id)
            &&& request.start->Resume_0.run_id == request.run_id
            &&& request.start->Resume_0.expected_revision == request.expected_revision
            &&& exists|n: int| #[trigger] is_first_acceptance(after, request, n)
            &&& after.segments.len() > 0
            &&& after.segments.last().segment_id == request.segment_id
            &&& begun(state, scope, request).segment == after.segments.last()
        }),
{
    reveal(request_fault);
    reveal(start_fault);
    let run_id = request.run_id;
    let command = request.start->Resume_0;
    let lease = starting_lease(state, scope, request);
    let input = starting_commit(request, request.transition->0, lease);
    let before = state.executions[run_id];
    let after = begun_state(state, scope, request).executions[run_id];
    let advanced = history_after(
        before,
        state.runs[run_id].snapshot,
        input.snapshot,
        Some(request.segment_id),
    );
    reveal_with_fuel(completed_history, 1);
    assert(after == advanced);
    let n = before.accepted_commands.len() as int;
    let named = accepted_named(command.command_id);
    assert forall|i: int| 0 <= i < n implies !named(#[trigger] after.accepted_commands[i]) by {
        assert(after.accepted_commands[i] == before.accepted_commands[i]);
        assert(!some_in(before.accepted_commands, named));
    }
    assert(is_first_acceptance(after, request, n));
}

/// A request whose command was accepted is answered with its segment.
proof fn lemma_restarted(
    state: ScopeStateView,
    scope: ScopeView,
    request: BeginSegmentRequestView,
    checks: CommitChecksView,
    n: int,
    last: int,
)
    requires
        request.start is Resume,
        request.start->Resume_0.run_id == request.run_id,
        request.start->Resume_0.expected_revision == request.expected_revision,
        stored_run_fault(state, request.run_id) is None,
        state.executions.dom().contains(request.run_id),
        is_first_acceptance(state.executions[request.run_id], request, n),
        0 <= last < state.executions[request.run_id].segments.len(),
        state.executions[request.run_id].segments[last].segment_id == request.segment_id,
    ensures
        begin_fault(state, scope, request, checks) is None,
        begun_state(state, scope, request) == state,
        begun(state, scope, request).lease is None,
        begun(state, scope, request).segment.segment_id == request.segment_id,
        begun(state, scope, request).state == run_as_stored(state, request.run_id),
{
    reveal(request_fault);
    let history = state.executions[request.run_id];
    let command = request.start->Resume_0;
    lemma_first_at(history.accepted_commands, accepted_named(command.command_id), n);
    lemma_first_in(history.segments, segment_named(request.segment_id));
    assert(segment_named(request.segment_id)(history.segments[last]));
}

proof fn lemma_first_at<V>(s: Seq<V>, p: spec_fn(V) -> bool, n: int)
    requires
        0 <= n < s.len(),
        p(s[n]),
        forall|i: int| 0 <= i < n ==> !p(#[trigger] s[i]),
    ensures
        first_in(s, p) == Some(s[n]),
        some_in(s, p),
    decreases n,
{
    if n > 0 {
        assert(!p(s[0]));
        assert forall|i: int| 0 <= i < n - 1 implies !p(#[trigger] s.skip(1)[i]) by {
            assert(s.skip(1)[i] == s[i + 1]);
        }
        assert(s.skip(1)[n - 1] == s[n]);
        lemma_first_at(s.skip(1), p, n - 1);
    }
}

} // verus!
