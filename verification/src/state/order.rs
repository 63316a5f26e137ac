//! What every transaction on a scope keeps.
use vstd::prelude::*;

#[allow(unused_imports)]
use crate::content::MessageView;
#[allow(unused_imports)]
use crate::data::{kept, lemma_first_index_fault};
#[allow(unused_imports)]
use crate::error::Fault;
#[allow(unused_imports)]
use crate::refs::{RecordKeyView, ScopeView};
#[allow(unused_imports)]
use crate::run::{terminal, RunEventView};
#[allow(unused_imports)]
use crate::state::commit::{
    admission_fault, admitted_content_fault, admitted_state, commit_fault, committed_content_fault,
    committed_state, conflict_fault, records_fault, records_to_commit, request_key_of, with_records,
    AdmissionChecksView, AdmissionInputView, CommitChecksView, CommitInputView,
};
#[allow(unused_imports)]
use crate::state::events::{event_fault_at, events_fault, EventChecksView};
#[allow(unused_imports)]
use crate::state::memory_store::{after_cursor, page_of};
#[allow(unused_imports)]
use crate::state::messages::{message_at_fault, messages_fault};
#[allow(unused_imports)]
use crate::state::records::ProtectedRecordView;
#[allow(unused_imports)]
use crate::state::scope::{RunStateView, ScopeStateView, SessionStateView};
#[allow(unused_imports)]
use crate::execution_contracts::BeginSegmentRequestView;
#[allow(unused_imports)]
use crate::state::segments::{
    begin_fault, begun_state, is_answered, leased_state, request_fault, start_fault,
    starting_commit, starting_lease,
};
#[allow(unused_imports)]
use crate::state::transition::law_transition_keeps_identity;

verus! {

/// Events are numbered from one without a gap.
pub open spec fn numbered(events: Seq<RunEventView>) -> bool {
    forall|i: int| 0 <= i < events.len() ==> (#[trigger] events[i]).seq == i + 1
}

/// Messages are numbered from one without a gap.
pub open spec fn transcribed(messages: Seq<MessageView>) -> bool {
    forall|i: int| 0 <= i < messages.len() ==> (#[trigger] messages[i]).sequence == i + 1
}

/// A run is stored under its identifier, with all its events.
pub open spec fn run_in_order(run_id: Seq<char>, run: RunStateView) -> bool {
    &&& run.snapshot.run_id == run_id
    &&& numbered(run.events)
    &&& run.events.len() == run.snapshot.last_event_seq
}

/// A session is stored under its identifier, with its whole transcript.
pub open spec fn session_in_order(session_id: Seq<char>, session: SessionStateView) -> bool {
    &&& session.snapshot.session_id == session_id
    &&& transcribed(session.messages)
    &&& session.messages.len() == session.snapshot.transcript_revision
}

/// An unfinished run is the active run of its session.
pub open spec fn holds_slot(state: ScopeStateView, run_id: Seq<char>) -> bool {
    let session_id = state.runs[run_id].snapshot.request.session_id;
    &&& state.sessions.dom().contains(session_id)
    &&& !terminal(state.runs[run_id].snapshot.status)
        ==> state.sessions[session_id].snapshot.active_run_id == Some(run_id)
}

/// What is stored for a scope is in order.
pub open spec fn in_order(state: ScopeStateView) -> bool {
    &&& forall|id: Seq<char>| #[trigger]
        state.runs.dom().contains(id) ==> run_in_order(id, state.runs[id])
    &&& forall|id: Seq<char>| #[trigger]
        state.sessions.dom().contains(id) ==> session_in_order(id, state.sessions[id])
    &&& forall|id: Seq<char>| #[trigger] state.runs.dom().contains(id) ==> holds_slot(state, id)
}

/// An empty scope is in order.
pub proof fn law_empty_scope_is_in_order()
    ensures
        in_order(ScopeStateView::empty()),
{
}

proof fn lemma_new_events(
    state: ScopeStateView,
    records: Map<RecordKeyView, ProtectedRecordView>,
    snapshot: crate::run::RunSnapshotView,
    previous: Seq<RunEventView>,
    previous_seq: u64,
    events: Seq<RunEventView>,
    admission: bool,
    messages: Seq<MessageView>,
    checks: EventChecksView,
)
    requires
        numbered(previous),
        previous.len() == previous_seq,
        events_fault(
            state,
            records,
            snapshot,
            previous_seq,
            events,
            admission,
            messages,
            checks,
        ) is None,
    ensures
        numbered(previous + events),
        (previous + events).len() == snapshot.last_event_seq,
{
    let f = event_fault_at(
        state,
        records,
        snapshot,
        previous_seq,
        events,
        admission,
        messages,
        checks,
    );
    lemma_first_index_fault(0, events.len() as int, f);
    assert forall|i: int| 0 <= i < (previous + events).len() implies (#[trigger] (previous
        + events)[i]).seq == i + 1 by {
        if i >= previous.len() {
            assert(f(i - previous.len()) is None);
        }
    }
}

proof fn lemma_new_messages(
    state: ScopeStateView,
    records: Map<RecordKeyView, ProtectedRecordView>,
    run_id: Seq<char>,
    previous: Seq<MessageView>,
    last_sequence: u64,
    messages: Seq<MessageView>,
    corrections: Seq<Option<Fault>>,
)
    requires
        transcribed(previous),
        previous.len() == last_sequence,
        messages_fault(state, records, run_id, last_sequence, messages, corrections) is None,
    ensures
        transcribed(previous + messages),
        last_sequence + messages.len() <= u64::MAX,
{
    let f = message_at_fault(state, records, run_id, last_sequence, messages, corrections);
    lemma_first_index_fault(0, messages.len() as int, f);
    assert forall|i: int| 0 <= i < (previous + messages).len() implies (#[trigger] (previous
        + messages)[i]).sequence == i + 1 by {
        if i >= previous.len() {
            assert(f(i - previous.len()) is None);
        }
    }
    if messages.len() > 0 {
        assert(f(messages.len() - 1) is None);
    }
}

/// An admission keeps a scope in order: the events of every run and the transcript of every session
/// stay complete and numbered from one, and no session has two unfinished runs.
pub proof fn law_admission_keeps_order(
    state: ScopeStateView,
    scope: ScopeView,
    input: AdmissionInputView,
    checks: AdmissionChecksView,
)
    requires
        in_order(state),
        admission_fault(state, scope, input, checks) is None,
        !state.requests.dom().contains(request_key_of(input.snapshot)),
    ensures
        in_order(admitted_state(state, scope, input)),
{
    reveal(admitted_content_fault);
    let after = admitted_state(state, scope, input);
    let session_id = input.snapshot.request.session_id;
    let run_id = input.snapshot.run_id;
    let records = state.records.union_prefer_right(with_records(Map::empty(), input.records));
    lemma_new_events(
        state,
        records,
        input.snapshot,
        Seq::empty(),
        0,
        input.events,
        true,
        input.messages,
        checks.events,
    );
    assert(Seq::<RunEventView>::empty() + input.events =~= input.events);
    lemma_new_messages(
        state,
        records,
        run_id,
        crate::state::commit::earlier_messages(state, session_id),
        crate::state::commit::earlier_revision(state, session_id),
        input.messages,
        checks.corrections,
    );
    assert forall|id: Seq<char>| #[trigger] after.runs.dom().contains(id) implies holds_slot(
        after,
        id,
    ) by {
        if id != run_id {
            assert(state.runs.dom().contains(id));
            assert(holds_slot(state, id));
        }
    }
    assert forall|id: Seq<char>| #[trigger] after.runs.dom().contains(id) implies run_in_order(
        id,
        after.runs[id],
    ) by {
        if id != run_id {
            assert(state.runs.dom().contains(id));
        }
    }
    assert forall|id: Seq<char>| #[trigger]
        after.sessions.dom().contains(id) implies session_in_order(id, after.sessions[id]) by {
        if id != session_id {
            assert(state.sessions.dom().contains(id));
        }
    }
}

/// A commit keeps a scope in order.
pub proof fn law_commit_keeps_order(
    state: ScopeStateView,
    scope: ScopeView,
    run_id: Seq<char>,
    input: CommitInputView,
    segment_override: Option<Seq<char>>,
    checks: CommitChecksView,
)
    requires
        in_order(state),
        commit_fault(state, scope, run_id, input, segment_override, checks) is None,
    ensures
        in_order(committed_state(state, run_id, input, segment_override)),
{
    reveal(committed_content_fault);
    let after = committed_state(state, run_id, input, segment_override);
    let run = state.runs[run_id];
    let session_id = run.snapshot.request.session_id;
    let session = state.sessions[session_id];
    let new_records = records_to_commit(state, run_id, input, segment_override);
    let records = state.records.union_prefer_right(with_records(Map::empty(), new_records));
    assert(state.runs.dom().contains(run_id));
    assert(holds_slot(state, run_id));
    assert(state.sessions.dom().contains(session_id));
    law_transition_keeps_identity(run.snapshot, input.snapshot, checks.transition);
    lemma_new_events(
        state,
        records,
        input.snapshot,
        run.events,
        run.snapshot.last_event_seq,
        input.events,
        false,
        input.messages,
        checks.events,
    );
    lemma_new_messages(
        state,
        records,
        run_id,
        session.messages,
        session.snapshot.transcript_revision,
        input.messages,
        checks.corrections,
    );
    assert forall|id: Seq<char>| #[trigger] after.runs.dom().contains(id) implies holds_slot(
        after,
        id,
    ) by {
        if id != run_id {
            assert(state.runs.dom().contains(id));
            assert(holds_slot(state, id));
        }
    }
    assert forall|id: Seq<char>| #[trigger] after.runs.dom().contains(id) implies run_in_order(
        id,
        after.runs[id],
    ) by {
        if id != run_id {
            assert(state.runs.dom().contains(id));
        }
    }
    assert forall|id: Seq<char>| #[trigger]
        after.sessions.dom().contains(id) implies session_in_order(id, after.sessions[id]) by {
        if id != session_id {
            assert(state.sessions.dom().contains(id));
        }
    }
}

/// Starting a segment keeps a scope in order, whether it claims the first segment of a run, commits a
/// checkpoint or starts nothing.
pub proof fn law_starting_keeps_order(
    state: ScopeStateView,
    scope: ScopeView,
    request: BeginSegmentRequestView,
    checks: CommitChecksView,
)
    requires
        in_order(state),
        begin_fault(state, scope, request, checks) is None,
    ensures
        in_order(begun_state(state, scope, request)),
{
    reveal(request_fault);
    reveal(start_fault);
    let run_id = request.run_id;
    let working = leased_state(state, scope, request);
    assert(!is_answered(state.executions[run_id], state.runs[run_id].snapshot, request)
        ==> in_order(working)) by {
        assert forall|id: Seq<char>| #[trigger] working.runs.dom().contains(id) implies run_in_order(
            id,
            working.runs[id],
        ) && holds_slot(working, id) by {
            assert(state.runs.dom().contains(id));
            assert(holds_slot(state, id));
        }
        assert forall|id: Seq<char>| #[trigger]
            working.sessions.dom().contains(id) implies session_in_order(
            id,
            working.sessions[id],
        ) by {
            assert(state.sessions.dom().contains(id));
        }
    }
    let after = begun_state(state, scope, request);
    if !is_answered(state.executions[run_id], state.runs[run_id].snapshot, request) {
        let committed = if request.start is Initial {
            working
        } else {
            let input = starting_commit(
                request,
                request.transition->0,
                starting_lease(state, scope, request),
            );
            law_commit_keeps_order(
                working,
                scope,
                run_id,
                input,
                Some(request.segment_id),
                checks,
            );
            committed_state(working, run_id, input, Some(request.segment_id))
        };
        assert forall|id: Seq<char>| #[trigger] after.runs.dom().contains(id) implies run_in_order(
            id,
            after.runs[id],
        ) && holds_slot(after, id) by {
            assert(committed.runs.dom().contains(id));
            assert(holds_slot(committed, id));
        }
        assert forall|id: Seq<char>| #[trigger]
            after.sessions.dom().contains(id) implies session_in_order(id, after.sessions[id]) by {
            assert(committed.sessions.dom().contains(id));
        }
    }
}

/// A session has at most one unfinished run.
pub proof fn law_one_active_run(state: ScopeStateView, a: Seq<char>, b: Seq<char>)
    requires
        in_order(state),
        state.runs.dom().contains(a),
        state.runs.dom().contains(b),
        !terminal(state.runs[a].snapshot.status),
        !terminal(state.runs[b].snapshot.status),
        state.runs[a].snapshot.request.session_id == state.runs[b].snapshot.request.session_id,
    ensures
        a == b,
{
    assert(holds_slot(state, a));
    assert(holds_slot(state, b));
}

/// A request that was admitted is found again: a second admission under its identity never creates
/// another run.
pub proof fn law_requests_are_deduplicated(
    state: ScopeStateView,
    scope: ScopeView,
    input: AdmissionInputView,
)
    ensures
        admitted_state(state, scope, input).requests.dom().contains(request_key_of(input.snapshot)),
        admitted_state(state, scope, input).requests[request_key_of(input.snapshot)]
            == input.snapshot.run_id,
{
}

proof fn lemma_records_kept(
    stored: Map<RecordKeyView, ProtectedRecordView>,
    records: Seq<ProtectedRecordView>,
    key: RecordKeyView,
    n: int,
)
    requires
        records_fault(stored, records) is None,
        stored.dom().contains(key),
        0 <= n <= records.len(),
    ensures
        with_records(stored, records.take(n)).dom().contains(key),
        with_records(stored, records.take(n))[key] == stored[key],
    decreases n,
{
    if n > 0 {
        lemma_records_kept(stored, records, key, n - 1);
        let f = conflict_fault(stored, records);
        lemma_first_index_fault(0, records.len() as int, f);
        assert(f(n - 1) is None);
        assert(records.take(n).drop_last() =~= records.take(n - 1));
        assert(records.take(n).last() == records[n - 1]);
    }
}

/// Records are immutable: a commit never replaces one.
pub proof fn law_records_never_change(
    state: ScopeStateView,
    scope: ScopeView,
    run_id: Seq<char>,
    input: CommitInputView,
    segment_override: Option<Seq<char>>,
    checks: CommitChecksView,
    key: RecordKeyView,
)
    requires
        commit_fault(state, scope, run_id, input, segment_override, checks) is None,
        state.records.dom().contains(key),
    ensures
        committed_state(state, run_id, input, segment_override).records.dom().contains(key),
        committed_state(state, run_id, input, segment_override).records[key] == state.records[key],
{
    reveal(committed_content_fault);
    let records = records_to_commit(state, run_id, input, segment_override);
    lemma_records_kept(state.records, records, key, records.len() as int);
    assert(records.take(records.len() as int) =~= records);
}

pub proof fn lemma_kept_suffix(events: Seq<RunEventView>, first: int, after_seq: u64)
    requires
        forall|i: int| 0 <= i < events.len() ==> (#[trigger] events[i]).seq == first + i,
        first - 1 <= after_seq <= first - 1 + events.len(),
    ensures
        kept(events, after_cursor(after_seq)) == events.skip(after_seq - (first - 1)),
    decreases events.len(),
{
    let rest = events.skip(1);
    if events.len() > 0 {
        assert(forall|i: int| 0 <= i < rest.len() ==> (#[trigger] rest[i]).seq == first + 1 + i);
        assert(events[0].seq == first);
        if first <= after_seq {
            lemma_kept_suffix(rest, first + 1, after_seq);
            assert(rest.skip(after_seq - first) =~= events.skip(after_seq - (first - 1)));
        } else {
            lemma_kept_all(rest, after_seq);
            assert(seq![events[0]] + rest =~= events);
            assert(events.skip(0) =~= events);
            assert(kept(events, after_cursor(after_seq)) =~= events);
        }
    } else {
        assert(events.skip(0) =~= events);
        assert(kept(events, after_cursor(after_seq)) =~= events);
    }
}

proof fn lemma_kept_all(events: Seq<RunEventView>, after_seq: u64)
    requires
        forall|i: int| 0 <= i < events.len() ==> (#[trigger] events[i]).seq > after_seq,
    ensures
        kept(events, after_cursor(after_seq)) == events,
    decreases events.len(),
{
    if events.len() > 0 {
        let rest = events.skip(1);
        assert(forall|i: int| 0 <= i < rest.len() ==> (#[trigger] rest[i]).seq > after_seq);
        lemma_kept_all(rest, after_seq);
        assert(events[0].seq > after_seq);
        assert(kept(events, after_cursor(after_seq)) =~= events);
    } else {
        assert(kept(events, after_cursor(after_seq)) =~= events);
    }
}

/// Pages leave no gap: a page of a run in order holds the events right after the cursor, as many as
/// fit, and the cursor of the next page is where this one ends.
pub proof fn law_pages_leave_no_gap(run_id: Seq<char>, run: RunStateView, after_seq: u64, limit: usize)
    requires
        run_in_order(run_id, run),
        after_seq <= run.events.len(),
        limit > 0,
    ensures
        ({
            let page = page_of(run, after_seq, limit);
            let n = page.events.len();
            &&& n == (if run.events.len() - after_seq > limit {
                limit as int
            } else {
                run.events.len() - after_seq
            })
            &&& page.events == run.events.subrange(after_seq as int, after_seq + n)
            &&& page.next_after_seq == after_seq + n
            &&& page.has_more == (after_seq + n < run.events.len())
        }),
{
    lemma_kept_suffix(run.events, 1, after_seq);
    let page = page_of(run, after_seq, limit);
    let n = page.events.len() as int;
    assert(page.events =~= run.events.subrange(after_seq as int, after_seq + n));
    if n > 0 {
        assert(page.events.last() == run.events[after_seq + n - 1]);
    }
}

} // verus!
