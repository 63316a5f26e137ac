//! Which messages may be appended to a transcript.
use vstd::prelude::*;

use crate::content::{
    tool_result_refs, ContentBlock, Message, MessageOrigin, MessageRole, ToolLedgerEntry,
    ToolResult, Visibility,
};
#[allow(unused_imports)]
use crate::content::{
    result_refs, ContentBlockView, MessageView, ToolLedgerEntryView, ToolResultView,
};
use crate::data::{any, check_each, count, find, find_last, Data};
#[allow(unused_imports)]
use crate::data::{
    count_in, every, first_fault, first_in, first_index_fault, last_in, some_in,
};
use crate::error::{fail, verdict, ContractError, ErrorCode};
#[allow(unused_imports)]
use crate::error::{failure, fault, Fault};
use crate::model::{ModelAttemptState, ModelInvocationRecord, ModelPurpose};
#[allow(unused_imports)]
use crate::model::ModelInvocationRecordView;
use crate::refs::RecordRef;
#[allow(unused_imports)]
use crate::refs::{RecordKeyView, RecordRefView};
use crate::run::RunSnapshot;
#[allow(unused_imports)]
use crate::run::RunSnapshotView;
use crate::serialization::Id;
use crate::state::records::Records;
#[allow(unused_imports)]
use crate::state::records::{record_fault, ProtectedRecordView};
use crate::state::scope::ScopeState;
#[allow(unused_imports)]
use crate::state::scope::ScopeStateView;
use crate::state::transition::same_bound_like;
#[allow(unused_imports)]
use crate::state::transition::bound_like;

verus! {

/// A completed agent attempt.
pub open spec fn completed_agent(invocation: ModelInvocationRecordView) -> bool {
    invocation.purpose is Agent && invocation.state is Completed
}

/// Whether an attempt is a completed agent attempt.
pub fn is_completed_agent(invocation: &ModelInvocationRecord) -> (r: bool)
    ensures
        r == completed_agent(invocation@),
{
    invocation.purpose == ModelPurpose::Agent && match &invocation.state {
        ModelAttemptState::Completed => true,
        _ => false,
    }
}

/// The block is a tool call of another model attempt.
pub open spec fn foreign_call(attempt: Seq<char>) -> spec_fn(ContentBlockView) -> bool {
    |block: ContentBlockView|
        block is ToolCall && block->ToolCall_call.model_request_id != attempt
}

pub open spec fn is_tool_call(block: ContentBlockView) -> bool {
    block is ToolCall
}

/// The message repeats a completed agent attempt of its run.
pub open spec fn provenance_holds(
    state: ScopeStateView,
    run_id: Seq<char>,
    message: MessageView,
    attempt: Seq<char>,
) -> bool {
    &&& message.origin is Model
    &&& state.runs.dom().contains(run_id)
    &&& some_in(
        state.runs[run_id].snapshot.model_ledger,
        |invocation: ModelInvocationRecordView|
            invocation.attempt_id == attempt && completed_agent(invocation),
    )
    &&& !some_in(message.content, foreign_call(attempt))
}

/// A final answer repeats an attempt that is not the last completed agent attempt of its run.
pub open spec fn stale_answer(
    state: ScopeStateView,
    run_id: Seq<char>,
    message: MessageView,
    attempt: Seq<char>,
) -> bool {
    &&& message.visibility is UserAndModel
    &&& !some_in(message.content, |block: ContentBlockView| is_tool_call(block))
    &&& {
        let last = if state.runs.dom().contains(run_id) {
            last_in(
                state.runs[run_id].snapshot.model_ledger,
                |invocation: ModelInvocationRecordView| completed_agent(invocation),
            )
        } else {
            None
        };
        last is None || last->Some_0.attempt_id != attempt
    }
}

/// Why the claimed model source of a message does not hold.
pub open spec fn provenance_fault(
    state: ScopeStateView,
    run_id: Seq<char>,
    message: MessageView,
) -> Option<Fault> {
    match message.source_model_request_id {
        None => None,
        Some(attempt) => if !provenance_holds(state, run_id, message, attempt) {
            fault(ErrorCode::InvalidMessage, "messages.model_provenance")
        } else if stale_answer(state, run_id, message, attempt) {
            fault(ErrorCode::InvalidMessage, "messages.final_model_provenance")
        } else {
            None
        },
    }
}

/// The records that a block refers to.
pub open spec fn block_refs(block: ContentBlockView) -> Seq<RecordRefView> {
    match block {
        ContentBlockView::Content { .. } => Seq::empty(),
        ContentBlockView::ToolCall { call } => match call.bound_input_ref {
            Some(reference) => seq![reference],
            None => Seq::empty(),
        },
        ContentBlockView::ToolResult { result } => result_refs(result),
        ContentBlockView::ToolResultCorrection { result, .. } => result_refs(result),
        ContentBlockView::ProviderOpaque { data_ref } => seq![data_ref],
    }
}

/// Why a block may not be appended; `correction` is what checking the corrections of the
/// transcript up to its message reported.
pub open spec fn block_fault(
    records: Map<RecordKeyView, ProtectedRecordView>,
    correction: Option<Fault>,
    block: ContentBlockView,
) -> Option<Fault> {
    if block is ToolResultCorrection && correction is Some {
        correction
    } else {
        first_fault(block_refs(block), |reference: RecordRefView| record_fault(records, reference))
    }
}

/// Why a message may not be appended as the next one, after `earlier` of the same transaction.
pub open spec fn message_fault(
    state: ScopeStateView,
    records: Map<RecordKeyView, ProtectedRecordView>,
    run_id: Seq<char>,
    sequence: int,
    earlier: Seq<MessageView>,
    message: MessageView,
    correction: Option<Fault>,
) -> Option<Fault> {
    if sequence > u64::MAX {
        fault(ErrorCode::InvalidMessage, "messages.sequence")
    } else if message.run_id != run_id || message.sequence != sequence
        || state.message_ids.contains(message.message_id) || some_in(
        earlier,
        with_message_id(message.message_id),
    ) {
        fault(ErrorCode::InvalidMessage, "messages")
    } else if provenance_fault(state, run_id, message) is Some {
        provenance_fault(state, run_id, message)
    } else {
        first_fault(
            message.content,
            |block: ContentBlockView| block_fault(records, correction, block),
        )
    }
}

/// The messages of an identifier.
pub open spec fn with_message_id(message_id: Seq<char>) -> spec_fn(MessageView) -> bool {
    |message: MessageView| message.message_id == message_id
}

/// Why messages may not be appended after `last_sequence`.
pub open spec fn messages_fault(
    state: ScopeStateView,
    records: Map<RecordKeyView, ProtectedRecordView>,
    run_id: Seq<char>,
    last_sequence: u64,
    messages: Seq<MessageView>,
    corrections: Seq<Option<Fault>>,
) -> Option<Fault> {
    first_index_fault(
        0,
        messages.len() as int,
        message_at_fault(state, records, run_id, last_sequence, messages, corrections),
    )
}

pub open spec fn message_at_fault(
    state: ScopeStateView,
    records: Map<RecordKeyView, ProtectedRecordView>,
    run_id: Seq<char>,
    last_sequence: u64,
    messages: Seq<MessageView>,
    corrections: Seq<Option<Fault>>,
) -> spec_fn(int) -> Option<Fault> {
    |i: int|
        message_fault(
            state,
            records,
            run_id,
            last_sequence + i + 1,
            messages.take(i),
            messages[i],
            if i < corrections.len() {
                corrections[i]
            } else {
                None
            },
        )
}

fn check_provenance(state: &ScopeState, run_id: &Id, message: &Message) -> (r: Result<
    (),
    ContractError,
>)
    ensures
        failure(r) == provenance_fault(state@, run_id@, message@),
{
    let attempt = match &message.source_model_request_id {
        None => {
            return Ok(());
        },
        Some(attempt) => attempt,
    };
    let repeated = match state.runs.get(run_id) {
        Some(run) => {
            let source = |invocation: &ModelInvocationRecord| -> (b: bool)
                ensures
                    b == (invocation@.attempt_id == attempt@ && completed_agent(invocation@)),
            { invocation.attempt_id.same(attempt) && is_completed_agent(invocation) };
            any(
                &run.snapshot.model_ledger,
                source,
                Ghost(
                    |invocation: ModelInvocationRecordView|
                        invocation.attempt_id == attempt@ && completed_agent(invocation),
                ),
            )
        },
        None => false,
    };
    let foreign = |block: &ContentBlock| -> (b: bool)
        ensures
            b == foreign_call(attempt@)(block@),
    {
        match block {
            ContentBlock::ToolCall { call } => !call.model_request_id.same(attempt),
            _ => false,
        }
    };
    if !(message.origin == MessageOrigin::Model && repeated && !any(
        &message.content,
        foreign,
        Ghost(foreign_call(attempt@)),
    )) {
        return fail(ErrorCode::InvalidMessage, "messages.model_provenance");
    }
    let calls = |block: &ContentBlock| -> (b: bool)
        ensures
            b == is_tool_call(block@),
    {
        match block {
            ContentBlock::ToolCall { .. } => true,
            _ => false,
        }
    };
    if message.visibility == Visibility::UserAndModel && !any(
        &message.content,
        calls,
        Ghost(|block: ContentBlockView| is_tool_call(block)),
    ) {
        let completed = |invocation: &ModelInvocationRecord| -> (b: bool)
            ensures
                b == completed_agent(invocation@),
        { is_completed_agent(invocation) };
        let current = match state.runs.get(run_id) {
            Some(run) => match find_last(
                &run.snapshot.model_ledger,
                completed,
                Ghost(|invocation: ModelInvocationRecordView| completed_agent(invocation)),
            ) {
                Some(invocation) => invocation.attempt_id.same(attempt),
                None => false,
            },
            None => false,
        };
        if !current {
            return fail(ErrorCode::InvalidMessage, "messages.final_model_provenance");
        }
    }
    Ok(())
}

/// The records that a block refers to.
fn refs_of_block(block: &ContentBlock) -> (r: Vec<RecordRef>)
    ensures
        r.deep_view() == block_refs(block@),
{
    let mut out: Vec<RecordRef> = Vec::new();
    match block {
        ContentBlock::Content { .. } => {
            assert(out.deep_view() =~= block_refs(block@));
            out
        },
        ContentBlock::ToolCall { call } => {
            if let Some(reference) = &call.bound_input_ref {
                out.push(reference.copy());
            }
            assert(out.deep_view() =~= block_refs(block@));
            out
        },
        ContentBlock::ToolResult { result } => tool_result_refs(result),
        ContentBlock::ToolResultCorrection { result, .. } => tool_result_refs(result),
        ContentBlock::ProviderOpaque { data_ref } => {
            out.push(data_ref.copy());
            assert(out.deep_view() =~= block_refs(block@));
            out
        },
    }
}

/// Check that every reference can be followed.
pub fn check_refs(records: &Records, references: &Vec<RecordRef>) -> (r: Result<(), ContractError>)
    ensures
        failure(r) == first_fault(
            references.deep_view(),
            |reference: RecordRefView| record_fault(records@, reference),
        ),
{
    let followed = |reference: &RecordRef| -> (c: Result<(), ContractError>)
        ensures
            failure(c) == record_fault(records@, reference@),
    { records.check(reference) };
    check_each(
        references,
        followed,
        Ghost(|reference: RecordRefView| record_fault(records@, reference)),
    )
}

fn check_block(records: &Records, correction: &Option<ContractError>, block: &ContentBlock) -> (r:
    Result<(), ContractError>)
    ensures
        failure(r) == block_fault(records@, correction.deep_view(), block@),
{
    if let ContentBlock::ToolResultCorrection { .. } = block {
        verdict(correction)?;
    }
    check_refs(records, &refs_of_block(block))
}

fn is_earlier_id(messages: &Vec<Message>, i: usize) -> (r: bool)
    requires
        i < messages.len(),
    ensures
        r == some_in(
            messages.deep_view().take(i as int),
            with_message_id(messages.deep_view()[i as int].message_id),
        ),
{
    let ghost s = messages.deep_view();
    let ghost p = with_message_id(s[i as int].message_id);
    let mut k: usize = 0;
    while k < i
        invariant
            k <= i < messages.len(),
            s == messages.deep_view(),
            p == with_message_id(s[i as int].message_id),
            forall|j: int| 0 <= j < k ==> !p(#[trigger] s.take(i as int)[j]),
        decreases i - k,
    {
        if messages[k].message_id.same(&messages[i].message_id) {
            assert(p(s.take(i as int)[k as int]));
            return true;
        }
        k = k + 1;
    }
    false
}

fn check_message(
    state: &ScopeState,
    records: &Records,
    run_id: &Id,
    last_sequence: u64,
    messages: &Vec<Message>,
    corrections: &Vec<Option<ContractError>>,
    i: usize,
) -> (r: Result<(), ContractError>)
    requires
        i < messages.len(),
    ensures
        failure(r) == message_at_fault(
            state@,
            records@,
            run_id@,
            last_sequence,
            messages.deep_view(),
            corrections.deep_view(),
        )(i as int),
{
    let message = &messages[i];
    let position: u64 = i as u64;
    if position >= u64::MAX - last_sequence {
        return fail(ErrorCode::InvalidMessage, "messages.sequence");
    }
    if !message.run_id.same(run_id) || message.sequence != last_sequence + position + 1
        || state.message_ids.contains(&message.message_id) || is_earlier_id(messages, i) {
        return fail(ErrorCode::InvalidMessage, "messages");
    }
    check_provenance(state, run_id, message)?;
    let none: Option<ContractError> = None;
    let correction = if i < corrections.len() {
        &corrections[i]
    } else {
        &none
    };
    let block = |block: &ContentBlock| -> (c: Result<(), ContractError>)
        ensures
            failure(c) == block_fault(records@, correction.deep_view(), block@),
    { check_block(records, correction, block) };
    check_each(
        &message.content,
        block,
        Ghost(
            |block: ContentBlockView| block_fault(records@, correction.deep_view(), block),
        ),
    )
}

/// Check messages that continue the transcript after `last_sequence`. `corrections` holds, for
/// each message, what checking the corrections of the transcript up to it reported.
pub fn validate_messages(
    state: &ScopeState,
    records: &Records,
    run_id: &Id,
    last_sequence: u64,
    messages: &Vec<Message>,
    corrections: &Vec<Option<ContractError>>,
) -> (r: Result<u64, ContractError>)
    ensures
        failure(r) == messages_fault(
            state@,
            records@,
            run_id@,
            last_sequence,
            messages.deep_view(),
            corrections.deep_view(),
        ),
        r matches Ok(sequence) ==> sequence == last_sequence + messages.len(),
{
    let ghost p = message_at_fault(
        state@,
        records@,
        run_id@,
        last_sequence,
        messages.deep_view(),
        corrections.deep_view(),
    );
    let mut i: usize = 0;
    while i < messages.len()
        invariant
            i <= messages.len(),
            p == message_at_fault(
                state@,
                records@,
                run_id@,
                last_sequence,
                messages.deep_view(),
                corrections.deep_view(),
            ),
            messages_fault(
                state@,
                records@,
                run_id@,
                last_sequence,
                messages.deep_view(),
                corrections.deep_view(),
            ) == first_index_fault(i as int, messages.len() as int, p),
            last_sequence + i <= u64::MAX,
        decreases messages.len() - i,
    {
        check_message(state, records, run_id, last_sequence, messages, corrections, i)?;
        i = i + 1;
    }
    Ok(last_sequence + i as u64)
}

/// The message is the model message of the run that proposes the call of the entry.
pub open spec fn proposes_call(
    snapshot: RunSnapshotView,
    entry: ToolLedgerEntryView,
    message_id: Seq<char>,
) -> spec_fn(MessageView) -> bool {
    |message: MessageView|
        {
            &&& message.message_id == message_id
            &&& message.run_id == snapshot.run_id
            &&& message.role is Assistant
            &&& message.origin is Model
            &&& some_in(message.content, proposes_block(entry))
        }
}

pub open spec fn proposes_block(entry: ToolLedgerEntryView) -> spec_fn(ContentBlockView) -> bool {
    |block: ContentBlockView|
        block is ToolCall && bound_like(block->ToolCall_call, entry.call) == entry.call
}

/// The ledger entry of a call.
pub open spec fn entry_of(call_id: Seq<char>) -> spec_fn(ToolLedgerEntryView) -> bool {
    |entry: ToolLedgerEntryView| entry.call.call_id == call_id
}

/// The ledger entry of a call.
pub fn find_entry<'a>(snapshot: &'a RunSnapshot, call_id: &Id) -> (r: Option<&'a ToolLedgerEntry>)
    ensures
        r.deep_view() == first_in(snapshot@.tool_ledger, entry_of(call_id@)),
{
    let wanted = |entry: &ToolLedgerEntry| -> (b: bool)
        ensures
            b == entry_of(call_id@)(entry@),
    { entry.call.call_id.same(call_id) };
    find(&snapshot.tool_ledger, wanted, Ghost(entry_of(call_id@)))
}

/// Why a result does not belong to a call that the transcript proposes.
pub open spec fn tool_pair_fault(
    state: ScopeStateView,
    snapshot: RunSnapshotView,
    additions: Seq<MessageView>,
    result: ToolResultView,
) -> Option<Fault> {
    let existing = if state.sessions.dom().contains(snapshot.request.session_id) {
        state.sessions[snapshot.request.session_id].messages
    } else {
        Seq::empty()
    };
    match first_in(snapshot.tool_ledger, entry_of(result.call_id)) {
        None => fault(ErrorCode::InvalidSnapshot, "tool.result_call"),
        Some(entry) => {
            let proposed = proposes_call(snapshot, entry, result.call_message_id);
            if some_in(existing, proposed) || some_in(additions, proposed) {
                None
            } else {
                fault(ErrorCode::InvalidSnapshot, "tool.result_message")
            }
        },
    }
}

fn any_proposes(
    snapshot: &RunSnapshot,
    entry: &ToolLedgerEntry,
    message_id: &Id,
    messages: &Vec<Message>,
) -> (r: bool)
    ensures
        r == some_in(messages.deep_view(), proposes_call(snapshot@, entry@, message_id@)),
{
    let proposed = |message: &Message| -> (b: bool)
        ensures
            b == proposes_call(snapshot@, entry@, message_id@)(message@),
    {
        let block = |block: &ContentBlock| -> (b: bool)
            ensures
                b == proposes_block(entry@)(block@),
        {
            match block {
                ContentBlock::ToolCall { call } => same_bound_like(call, &entry.call),
                _ => false,
            }
        };
        message.message_id.same(message_id) && message.run_id.same(&snapshot.run_id) && message.role
            == MessageRole::Assistant && message.origin == MessageOrigin::Model && any(
            &message.content,
            block,
            Ghost(proposes_block(entry@)),
        )
    };
    any(messages, proposed, Ghost(proposes_call(snapshot@, entry@, message_id@)))
}

/// Check that a result belongs to a call that the transcript proposes.
pub fn validate_tool_pair(
    state: &ScopeState,
    snapshot: &RunSnapshot,
    additions: &Vec<Message>,
    result: &ToolResult,
) -> (r: Result<(), ContractError>)
    ensures
        failure(r) == tool_pair_fault(state@, snapshot@, additions.deep_view(), result@),
{
    let entry = match find_entry(snapshot, &result.call_id) {
        Some(entry) => entry,
        None => {
            return fail(ErrorCode::InvalidSnapshot, "tool.result_call");
        },
    };
    let stored = match state.sessions.get(&snapshot.request.session_id) {
        Some(session) => any_proposes(snapshot, entry, &result.call_message_id, &session.messages),
        None => false,
    };
    if !stored && !any_proposes(snapshot, entry, &result.call_message_id, additions) {
        return fail(ErrorCode::InvalidSnapshot, "tool.result_message");
    }
    Ok(())
}

/// The message is a tool message of the run that holds exactly this result.
pub open spec fn reports_result(
    snapshot: RunSnapshotView,
    result: ToolResultView,
) -> spec_fn(MessageView) -> bool {
    |message: MessageView|
        {
            &&& message.run_id == snapshot.run_id
            &&& message.role is Tool
            &&& message.origin is Tool
            &&& message.content == seq![ContentBlockView::ToolResult { result }]
        }
}

/// Whether a message holds exactly one block, a tool result equal to `result`.
pub fn is_only_result(message: &Message, result: &ToolResult) -> (r: bool)
    ensures
        r == (message@.content == seq![ContentBlockView::ToolResult { result: result@ }]),
{
    let ghost expected = seq![ContentBlockView::ToolResult { result: result@ }];
    assert(expected.len() == 1 && message@.content.len() == message.content@.len());
    if message.content.len() != 1 {
        return false;
    }
    assert(message@.content[0] == message.content@[0]@);
    assert(expected[0] == (ContentBlockView::ToolResult { result: result@ }));
    match &message.content[0] {
        ContentBlock::ToolResult { result: held } => {
            let same = held.same(result);
            assert(same ==> message@.content =~= seq![ContentBlockView::ToolResult { result: result@ }]);
            same
        },
        _ => false,
    }
}

/// Check that the transcript reports a result exactly once.
pub fn validate_resume_result_message(
    snapshot: &RunSnapshot,
    messages: &Vec<Message>,
    result: &ToolResult,
) -> (r: Result<(), ContractError>)
    ensures
        failure(r) == (if count_in(messages.deep_view(), reports_result(snapshot@, result@)) == 1 {
            None
        } else {
            fault(ErrorCode::InvalidSnapshot, "resume.result_message")
        }),
{
    let reports = |message: &Message| -> (b: bool)
        ensures
            b == reports_result(snapshot@, result@)(message@),
    {
        message.run_id.same(&snapshot.run_id) && message.role == MessageRole::Tool && message.origin
            == MessageOrigin::Tool && is_only_result(message, result)
    };
    if count(messages, reports, Ghost(reports_result(snapshot@, result@))) != 1 {
        return fail(ErrorCode::InvalidSnapshot, "resume.result_message");
    }
    Ok(())
}

/// A message that claims a model attempt comes from the model, repeats a completed agent attempt of
/// its run, and holds no tool call of another attempt.
pub proof fn law_model_messages_repeat_an_attempt(
    state: ScopeStateView,
    run_id: Seq<char>,
    message: MessageView,
    attempt: Seq<char>,
)
    requires
        message.source_model_request_id == Some(attempt),
        provenance_fault(state, run_id, message) is None,
    ensures
        message.origin is Model,
        state.runs.dom().contains(run_id),
        exists|i: int|
            0 <= i < state.runs[run_id].snapshot.model_ledger.len() && (
            #[trigger] state.runs[run_id].snapshot.model_ledger[i]).attempt_id == attempt
                && state.runs[run_id].snapshot.model_ledger[i].purpose is Agent
                && state.runs[run_id].snapshot.model_ledger[i].state is Completed,
        forall|i: int|
            0 <= i < message.content.len() && (#[trigger] message.content[i]) is ToolCall
                ==> message.content[i]->ToolCall_call.model_request_id == attempt,
{
    let ledger = state.runs[run_id].snapshot.model_ledger;
    let p = |invocation: ModelInvocationRecordView|
        invocation.attempt_id == attempt && completed_agent(invocation);
    assert(some_in(ledger, p));
    let k = choose|i: int| 0 <= i < ledger.len() && p(#[trigger] ledger[i]);
    assert(ledger[k].attempt_id == attempt);
    assert forall|i: int|
        0 <= i < message.content.len() && (#[trigger] message.content[i])
            is ToolCall implies message.content[i]->ToolCall_call.model_request_id == attempt by {
        assert(!foreign_call(attempt)(message.content[i]));
    }
}

proof fn lemma_no_later(s: Seq<ModelInvocationRecordView>, i: int)
    requires
        0 <= i < s.len(),
        last_in(s, |invocation: ModelInvocationRecordView| completed_agent(invocation)) is None || (
        last_in(
            s,
            |invocation: ModelInvocationRecordView| completed_agent(invocation),
        )->Some_0).attempt_id != s[i].attempt_id,
        completed_agent(s[i]),
    ensures
        exists|k: int|
            i < k < s.len() && completed_agent(#[trigger] s[k]) && s[k].attempt_id
                != s[i].attempt_id,
    decreases s.len(),
{
    let p = |invocation: ModelInvocationRecordView| completed_agent(invocation);
    let n = s.len() - 1;
    assert(s.last() == s[n]);
    if p(s.last()) {
        assert(s[n].attempt_id != s[i].attempt_id);
    } else {
        let front = s.drop_last();
        assert(front[i] == s[i]);
        lemma_no_later(front, i);
        let k = choose|k: int|
            i < k < front.len() && completed_agent(#[trigger] front[k]) && front[k].attempt_id
                != front[i].attempt_id;
        assert(s[k] == front[k]);
    }
}

/// A final answer is refused where the model was completed again, after the attempt that the answer
/// claims, by another one that the claimed attempt does not follow. An answer of the latest attempt
/// is accepted, and so is one that is not for the user.
pub proof fn law_final_answers_repeat_the_latest_attempt(
    state: ScopeStateView,
    run_id: Seq<char>,
    message: MessageView,
    i: int,
)
    requires
        state.runs.dom().contains(run_id),
        0 <= i < state.runs[run_id].snapshot.model_ledger.len(),
        message.source_model_request_id == Some(
            state.runs[run_id].snapshot.model_ledger[i].attempt_id,
        ),
        state.runs[run_id].snapshot.model_ledger[i].purpose is Agent,
        state.runs[run_id].snapshot.model_ledger[i].state is Completed,
        message.origin is Model,
        forall|k: int|
            0 <= k < message.content.len() ==> !((#[trigger] message.content[k]) is ToolCall),
    ensures
        (forall|k: int|
            i < k < state.runs[run_id].snapshot.model_ledger.len() ==> !((
            #[trigger] state.runs[run_id].snapshot.model_ledger[k]).purpose is Agent
                && state.runs[run_id].snapshot.model_ledger[k].state is Completed))
            ==> provenance_fault(state, run_id, message) is None,
        !(message.visibility is UserAndModel) ==> provenance_fault(state, run_id, message) is None,
        message.visibility is UserAndModel && provenance_fault(state, run_id, message) is None ==> (
        forall|k: int|
            i < k < state.runs[run_id].snapshot.model_ledger.len() && (
            #[trigger] state.runs[run_id].snapshot.model_ledger[k]).purpose is Agent
                && state.runs[run_id].snapshot.model_ledger[k].state is Completed ==> exists|m: int|
                k <= m < state.runs[run_id].snapshot.model_ledger.len() && (
                #[trigger] state.runs[run_id].snapshot.model_ledger[m]).attempt_id
                    == state.runs[run_id].snapshot.model_ledger[i].attempt_id),
{
    let ledger = state.runs[run_id].snapshot.model_ledger;
    let attempt = ledger[i].attempt_id;
    let named = |invocation: ModelInvocationRecordView|
        invocation.attempt_id == attempt && completed_agent(invocation);
    assert(named(ledger[i]));
    assert(some_in(ledger, named));
    let done = |invocation: ModelInvocationRecordView| completed_agent(invocation);
    assert forall|k: int| 0 <= k < message.content.len() implies !foreign_call(attempt)(
        #[trigger] message.content[k],
    ) by {}
    let is_call = |block: ContentBlockView| is_tool_call(block);
    assert forall|k: int| 0 <= k < message.content.len() implies !is_call(
        #[trigger] message.content[k],
    ) by {}
    assert(!some_in(message.content, foreign_call(attempt)));
    assert(!some_in(message.content, is_call));
    assert(provenance_holds(state, run_id, message, attempt));
    if provenance_fault(state, run_id, message) is Some {
        assert(stale_answer(state, run_id, message, attempt));
        lemma_no_later(ledger, i);
        let k = choose|k: int|
            i < k < ledger.len() && completed_agent(#[trigger] ledger[k]) && ledger[k].attempt_id
                != ledger[i].attempt_id;
        assert(ledger[k].purpose is Agent);
    } else if message.visibility is UserAndModel {
        assert(last_in(ledger, done) is Some && last_in(ledger, done)->Some_0.attempt_id
            == attempt);
        assert forall|k: int|
            i < k < ledger.len() && (#[trigger] ledger[k]).purpose is Agent && ledger[k].state
                is Completed implies exists|m: int|
            k <= m < ledger.len() && (#[trigger] ledger[m]).attempt_id == attempt by {
            lemma_last_after(ledger, k);
            let m = choose|m: int|
                k <= m < ledger.len() && Some(#[trigger] ledger[m]) == last_in(ledger, done);
            assert(ledger[m].attempt_id == attempt);
        }
    }
}

proof fn lemma_last_after(s: Seq<ModelInvocationRecordView>, k: int)
    requires
        0 <= k < s.len(),
        completed_agent(s[k]),
    ensures
        exists|m: int|
            k <= m < s.len() && Some(#[trigger] s[m]) == last_in(
                s,
                |invocation: ModelInvocationRecordView| completed_agent(invocation),
            ),
    decreases s.len(),
{
    let p = |invocation: ModelInvocationRecordView| completed_agent(invocation);
    let n = s.len() - 1;
    assert(s.last() == s[n]);
    if p(s.last()) {
        assert(Some(s[n]) == last_in(s, p));
    } else {
        let front = s.drop_last();
        assert(front[k] == s[k]);
        lemma_last_after(front, k);
        let m = choose|m: int|
            k <= m < front.len() && Some(#[trigger] front[m]) == last_in(front, p);
        assert(s[m] == front[m]);
    }
}

/// Appended messages belong to the run, are numbered one after the other behind the last one, and
/// have identifiers that no earlier message has.
pub proof fn law_messages_follow_each_other(
    state: ScopeStateView,
    records: Map<RecordKeyView, ProtectedRecordView>,
    run_id: Seq<char>,
    last_sequence: u64,
    messages: Seq<MessageView>,
    corrections: Seq<Option<Fault>>,
)
    requires
        messages_fault(state, records, run_id, last_sequence, messages, corrections) is None,
    ensures
        forall|i: int|
            0 <= i < messages.len() ==> (#[trigger] messages[i]).sequence == last_sequence + i + 1
                && messages[i].run_id == run_id && !state.message_ids.contains(
                messages[i].message_id,
            ),
        forall|i: int, j: int|
            0 <= i < j < messages.len() ==> (#[trigger] messages[i]).message_id != (
            #[trigger] messages[j]).message_id,
{
    let f = message_at_fault(state, records, run_id, last_sequence, messages, corrections);
    crate::data::lemma_first_index_fault(0, messages.len() as int, f);
    assert forall|i: int| 0 <= i < messages.len() implies (#[trigger] messages[i]).sequence
        == last_sequence + i + 1 && messages[i].run_id == run_id && !state.message_ids.contains(
        messages[i].message_id,
    ) by {
        assert(f(i) is None);
    }
    assert forall|i: int, j: int| 0 <= i < j < messages.len() implies (
    #[trigger] messages[i]).message_id != (#[trigger] messages[j]).message_id by {
        assert(f(j) is None);
        assert(messages.take(j)[i] == messages[i]);
        assert(!with_message_id(messages[j].message_id)(messages.take(j)[i]));
    }
}

/// A result belongs to a planned call that an assistant message of the same run, made by the model,
/// proposes under the identifier that the result names.
pub proof fn law_results_answer_proposed_calls(
    state: ScopeStateView,
    snapshot: RunSnapshotView,
    additions: Seq<MessageView>,
    result: ToolResultView,
)
    requires
        tool_pair_fault(state, snapshot, additions, result) is None,
    ensures
        exists|i: int|
            0 <= i < snapshot.tool_ledger.len() && (
            #[trigger] snapshot.tool_ledger[i]).call.call_id == result.call_id,
        exists|message: MessageView|
            (additions.contains(message) || (state.sessions.dom().contains(
                snapshot.request.session_id,
            ) && state.sessions[snapshot.request.session_id].messages.contains(message)))
                && #[trigger] message.message_id == result.call_message_id && message.run_id
                == snapshot.run_id && message.role is Assistant && message.origin is Model
                && exists|k: int|
                0 <= k < message.content.len() && (#[trigger] message.content[k]) is ToolCall,
{
    let ledger = snapshot.tool_ledger;
    crate::data::lemma_first_in(ledger, entry_of(result.call_id));
    let k = choose|i: int| 0 <= i < ledger.len() && entry_of(result.call_id)(#[trigger] ledger[i]);
    assert(ledger[k].call.call_id == result.call_id);
    let entry = first_in(ledger, entry_of(result.call_id))->Some_0;
    let p = proposes_call(snapshot, entry, result.call_message_id);
    let existing = if state.sessions.dom().contains(snapshot.request.session_id) {
        state.sessions[snapshot.request.session_id].messages
    } else {
        Seq::empty()
    };
    let message = if some_in(existing, p) {
        existing[choose|i: int| 0 <= i < existing.len() && p(#[trigger] existing[i])]
    } else {
        additions[choose|i: int| 0 <= i < additions.len() && p(#[trigger] additions[i])]
    };
    assert(p(message));
    assert(existing.contains(message) || additions.contains(message));
    let b = choose|b: int|
        0 <= b < message.content.len() && proposes_block(entry)(#[trigger] message.content[b]);
    assert(message.content[b] is ToolCall);
    assert(message.message_id == result.call_message_id);
}

} // verus!
