//! Groups of messages that are only ever covered as a whole.
use vstd::prelude::*;

use crate::content::{
    ContentBlock, Message, MessageRole, ToolEffect, ToolResult, ToolResultStatus, Visibility,
};
#[allow(unused_imports)]
use crate::content::{ContentBlockView, MessageView, ToolResultView};
use crate::data::{any, check_each, contains, count, keep, Data};
#[allow(unused_imports)]
use crate::data::{
    count_in, distinct, first_fault, first_index_fault, kept, lemma_first_fault,
    lemma_first_index_fault, lemma_kept, some_in,
};
use crate::error::{fail, ContractError, ErrorCode};
#[allow(unused_imports)]
use crate::error::{failure, fault, Fault};
use crate::serialization::Id;

verus! {

/// Messages that belong together: a complete tool round, or one assistant message.
#[derive(Debug)]
pub struct Group {
    pub ids: Vec<Id>,
    pub tool_round: bool,
    pub protected: bool,
}

#[verifier::ext_equal]
pub struct GroupView {
    pub ids: Seq<Seq<char>>,
    pub tool_round: bool,
    pub protected: bool,
}

impl View for Group {
    type V = GroupView;

    open spec fn view(&self) -> GroupView {
        GroupView {
            ids: self.ids.deep_view(),
            tool_round: self.tool_round.deep_view(),
            protected: self.protected.deep_view(),
        }
    }
}

impl DeepView for Group {
    type V = GroupView;

    open spec fn deep_view(&self) -> GroupView {
        self@
    }
}

impl Data for Group {
    fn same(&self, other: &Self) -> (r: bool) {
        self.ids.same(&other.ids)
            && self.tool_round.same(&other.tool_round)
            && self.protected.same(&other.protected)
    }

    fn copy(&self) -> (r: Self) {
        Group {
            ids: self.ids.copy(),
            tool_round: self.tool_round.copy(),
            protected: self.protected.copy(),
        }
    }
}

/// What reading a transcript has found so far.
#[derive(Debug)]
pub struct Grouping {
    pub groups: Vec<Group>,
    /// Calls of the open round that have no result yet.
    pub pending: Vec<Id>,
    /// Messages of the open round.
    pub current: Vec<Id>,
    pub uncertain: bool,
}

#[verifier::ext_equal]
pub struct GroupingView {
    pub groups: Seq<GroupView>,
    pub pending: Seq<Seq<char>>,
    pub current: Seq<Seq<char>>,
    pub uncertain: bool,
}

impl View for Grouping {
    type V = GroupingView;

    open spec fn view(&self) -> GroupingView {
        GroupingView {
            groups: self.groups.deep_view(),
            pending: self.pending.deep_view(),
            current: self.current.deep_view(),
            uncertain: self.uncertain.deep_view(),
        }
    }
}

impl DeepView for Grouping {
    type V = GroupingView;

    open spec fn deep_view(&self) -> GroupingView {
        self@
    }
}

impl Data for Grouping {
    fn same(&self, other: &Self) -> (r: bool) {
        self.groups.same(&other.groups)
            && self.pending.same(&other.pending)
            && self.current.same(&other.current)
            && self.uncertain.same(&other.uncertain)
    }

    fn copy(&self) -> (r: Self) {
        Grouping {
            groups: self.groups.copy(),
            pending: self.pending.copy(),
            current: self.current.copy(),
            uncertain: self.uncertain.copy(),
        }
    }
}


/// Why a transcript does not fall into groups.
pub open spec fn ungrouped(path: &str) -> Option<Fault> {
    fault(ErrorCode::InvalidContext, path)
}

/// The model sees a message.
pub open spec fn visible(message: MessageView) -> bool {
    message.visibility == Visibility::Model || message.visibility == Visibility::UserAndModel
}

pub(crate) fn is_visible(message: &Message) -> (r: bool)
    ensures
        r == visible(message@),
{
    message.visibility == Visibility::Model || message.visibility == Visibility::UserAndModel
}

/// The identifiers of the calls among blocks.
pub open spec fn call_ids(blocks: Seq<ContentBlockView>) -> Seq<Seq<char>>
    decreases blocks.len(),
{
    if blocks.len() == 0 {
        Seq::empty()
    } else {
        let earlier = call_ids(blocks.drop_last());
        match blocks.last() {
            ContentBlockView::ToolCall { call } => earlier.push(call.call_id),
            _ => earlier,
        }
    }
}

/// The results among blocks.
pub open spec fn results_in(blocks: Seq<ContentBlockView>) -> Seq<ToolResultView>
    decreases blocks.len(),
{
    if blocks.len() == 0 {
        Seq::empty()
    } else {
        let earlier = results_in(blocks.drop_last());
        match blocks.last() {
            ContentBlockView::ToolResult { result } => earlier.push(result),
            _ => earlier,
        }
    }
}

fn list_calls(blocks: &Vec<ContentBlock>) -> (r: Vec<Id>)
    ensures
        r.deep_view() == call_ids(blocks.deep_view()),
{
    let ghost s = blocks.deep_view();
    let mut out: Vec<Id> = Vec::new();
    let mut i: usize = 0;
    assert(s.take(0) =~= Seq::<ContentBlockView>::empty());
    assert(out.deep_view() =~= Seq::<Seq<char>>::empty());
    while i < blocks.len()
        invariant
            i <= blocks.len(),
            s == blocks.deep_view(),
            out.deep_view() == call_ids(s.take(i as int)),
        decreases blocks.len() - i,
    {
        assert(s.take(i + 1).drop_last() =~= s.take(i as int));
        assert(s.take(i + 1).last() == blocks@[i as int]@);
        if let ContentBlock::ToolCall { call } = &blocks[i] {
            let ghost before = out.deep_view();
            out.push(call.call_id.copy());
            assert(out.deep_view() =~= before.push(call@.call_id));
        }
        i = i + 1;
    }
    assert(s.take(i as int) =~= s);
    out
}

fn list_results(blocks: &Vec<ContentBlock>) -> (r: Vec<ToolResult>)
    ensures
        r.deep_view() == results_in(blocks.deep_view()),
{
    let ghost s = blocks.deep_view();
    let mut out: Vec<ToolResult> = Vec::new();
    let mut i: usize = 0;
    assert(s.take(0) =~= Seq::<ContentBlockView>::empty());
    assert(out.deep_view() =~= Seq::<ToolResultView>::empty());
    while i < blocks.len()
        invariant
            i <= blocks.len(),
            s == blocks.deep_view(),
            out.deep_view() == results_in(s.take(i as int)),
        decreases blocks.len() - i,
    {
        assert(s.take(i + 1).drop_last() =~= s.take(i as int));
        assert(s.take(i + 1).last() == blocks@[i as int]@);
        if let ContentBlock::ToolResult { result } = &blocks[i] {
            let ghost before = out.deep_view();
            out.push(result.copy());
            assert(out.deep_view() =~= before.push(result@));
        }
        i = i + 1;
    }
    assert(s.take(i as int) =~= s);
    out
}

/// Blocks that correct the result of a message.
pub open spec fn corrects(message_id: Seq<char>) -> spec_fn(ContentBlockView) -> bool {
    |block: ContentBlockView|
        block matches ContentBlockView::ToolResultCorrection { previous_message_id, .. }
            && previous_message_id == message_id
}

/// Messages that correct the result of a message.
pub open spec fn corrects_message(message_id: Seq<char>) -> spec_fn(MessageView) -> bool {
    |message: MessageView| some_in(message.content, corrects(message_id))
}

fn is_corrected(messages: &Vec<Message>, message_id: &Id) -> (r: bool)
    ensures
        r == some_in(messages.deep_view(), corrects_message(message_id@)),
{
    let by_block = |block: &ContentBlock| -> (b: bool)
        ensures
            b == corrects(message_id@)(block@),
    {
        match block {
            ContentBlock::ToolResultCorrection { previous_message_id, .. } => {
                previous_message_id.same(message_id)
            },
            _ => false,
        }
    };
    let by_message = |message: &Message| -> (b: bool)
        ensures
            b == corrects_message(message_id@)(message@),
    { any(&message.content, by_block, Ghost(corrects(message_id@))) };
    any(messages, by_message, Ghost(corrects_message(message_id@)))
}

/// Everything but one identifier.
pub open spec fn other_than(id: Seq<char>) -> spec_fn(Seq<char>) -> bool {
    |other: Seq<char>| other != id
}

/// The calls that are still open after the first of some results.
pub open spec fn open_after(pending: Seq<Seq<char>>, results: Seq<ToolResultView>, n: int) -> Seq<
    Seq<char>,
>
    decreases n,
{
    if n <= 0 {
        pending
    } else {
        kept(open_after(pending, results, n - 1), other_than(results[n - 1].call_id))
    }
}

/// Why a result at a position does not answer an open call.
pub open spec fn answer_fault(
    pending: Seq<Seq<char>>,
    results: Seq<ToolResultView>,
) -> spec_fn(int) -> Option<Fault> {
    |i: int|
        if open_after(pending, results, i).contains(results[i].call_id) {
            None
        } else {
            ungrouped("context.unpaired_result")
        }
}

fn close_calls(pending: Vec<Id>, results: &Vec<ToolResult>) -> (r: Result<Vec<Id>, ContractError>)
    ensures
        failure(r) == first_index_fault(
            0,
            results.deep_view().len() as int,
            answer_fault(pending.deep_view(), results.deep_view()),
        ),
        r matches Ok(left) ==> left.deep_view() == open_after(
            pending.deep_view(),
            results.deep_view(),
            results.deep_view().len() as int,
        ),
{
    let ghost before = pending.deep_view();
    let ghost s = results.deep_view();
    let ghost n = s.len() as int;
    let ghost f = answer_fault(before, s);
    let mut left = pending;
    let mut i: usize = 0;
    while i < results.len()
        invariant
            i <= results.len(),
            before == pending.deep_view(),
            s == results.deep_view(),
            n == results.len(),
            f == answer_fault(before, s),
            left.deep_view() == open_after(before, s, i as int),
            first_index_fault(0, n, f) == first_index_fault(i as int, n, f),
        decreases results.len() - i,
    {
        let id = &results[i].call_id;
        assert(s[i as int] == results@[i as int]@);
        if !contains(&left, id) {
            return fail(ErrorCode::InvalidContext, "context.unpaired_result");
        }
        let differs = |other: &Id| -> (b: bool)
            ensures
                b == other_than(id@)(other@),
        { !other.same(id) };
        left = keep(&left, differs, Ghost(other_than(id@)));
        i = i + 1;
    }
    Ok(left)
}

/// A result that leaves open what happened.
pub open spec fn is_uncertain() -> spec_fn(ToolResultView) -> bool {
    |result: ToolResultView|
        result.status == ToolResultStatus::Unknown || result.effect == ToolEffect::Unknown
}

/// Why a message does not continue a grouping.
pub open spec fn grouping_fault(at: GroupingView, message: MessageView) -> Option<Fault> {
    let calls = call_ids(message.content);
    let results = results_in(message.content);
    if !visible(message) {
        None
    } else if calls.len() > 0 {
        if at.pending.len() > 0 || message.role != MessageRole::Assistant {
            ungrouped("context.incomplete_group")
        } else if !distinct(calls) {
            ungrouped("context.duplicate_call")
        } else {
            None
        }
    } else if results.len() > 0 {
        if message.role != MessageRole::Tool || at.pending.len() == 0 {
            ungrouped("context.unpaired_result")
        } else {
            first_index_fault(0, results.len() as int, answer_fault(at.pending, results))
        }
    } else if message.role == MessageRole::Assistant {
        if at.pending.len() > 0 {
            ungrouped("context.incomplete_group")
        } else {
            None
        }
    } else if at.pending.len() > 0 && message.role == MessageRole::User {
        ungrouped("context.interrupted_group")
    } else {
        None
    }
}

/// A grouping after one more message.
pub open spec fn grouped_with(
    at: GroupingView,
    message: MessageView,
    corrected: bool,
) -> GroupingView {
    let calls = call_ids(message.content);
    let results = results_in(message.content);
    if !visible(message) {
        at
    } else if calls.len() > 0 {
        GroupingView {
            groups: at.groups,
            pending: calls,
            current: seq![message.message_id],
            uncertain: false,
        }
    } else if results.len() > 0 {
        let left = open_after(at.pending, results, results.len() as int);
        let current = at.current.push(message.message_id);
        let uncertain = at.uncertain || some_in(results, is_uncertain()) || corrected;
        if left.len() == 0 {
            GroupingView {
                groups: at.groups.push(
                    GroupView { ids: current, tool_round: true, protected: uncertain },
                ),
                pending: left,
                current: Seq::empty(),
                uncertain,
            }
        } else {
            GroupingView { groups: at.groups, pending: left, current, uncertain }
        }
    } else if message.role == MessageRole::Assistant {
        GroupingView {
            groups: at.groups.push(
                GroupView {
                    ids: seq![message.message_id],
                    tool_round: false,
                    protected: false,
                },
            ),
            ..at
        }
    } else {
        at
    }
}

fn push_group(groups: Vec<Group>, group: Group) -> (r: Vec<Group>)
    ensures
        r.deep_view() == groups.deep_view().push(group@),
{
    let ghost before = groups.deep_view();
    let mut groups = groups;
    let ghost item = group@;
    groups.push(group);
    assert(groups.deep_view() =~= before.push(item));
    groups
}

fn just(id: &Id) -> (r: Vec<Id>)
    ensures
        r.deep_view() == seq![id@],
{
    let mut ids: Vec<Id> = Vec::new();
    ids.push(id.copy());
    assert(ids.deep_view() =~= seq![id@]);
    ids
}

fn all_distinct(ids: &Vec<Id>) -> (r: bool)
    ensures
        r == distinct(ids.deep_view()),
{
    let ghost s = ids.deep_view();
    let mut i: usize = 0;
    while i < ids.len()
        invariant
            i <= ids.len(),
            s == ids.deep_view(),
            forall|a: int, b: int| 0 <= a < b < i ==> s[a] != s[b],
        decreases ids.len() - i,
    {
        let mut k: usize = 0;
        while k < i
            invariant
                k <= i < ids.len(),
                s == ids.deep_view(),
                forall|a: int| 0 <= a < k ==> s[a] != s[i as int],
            decreases i - k,
        {
            assert(s[k as int] == ids@[k as int]@);
            assert(s[i as int] == ids@[i as int]@);
            if ids[k].same(&ids[i]) {
                return false;
            }
            k = k + 1;
        }
        i = i + 1;
    }
    true
}

fn group_with(at: Grouping, message: &Message, messages: &Vec<Message>) -> (r: Result<
    Grouping,
    ContractError,
>)
    ensures
        failure(r) == grouping_fault(at@, message@),
        r matches Ok(next) ==> next@ == grouped_with(
            at@,
            message@,
            some_in(messages.deep_view(), corrects_message(message@.message_id)),
        ),
{
    let ghost before = at@;
    if !is_visible(message) {
        return Ok(at);
    }
    let calls = list_calls(&message.content);
    let results = list_results(&message.content);
    assert(calls.deep_view().len() == calls.len());
    assert(results.deep_view().len() == results.len());
    assert(at@.pending.len() == at.pending.len());
    let Grouping { groups, pending, current, uncertain } = at;
    if calls.len() > 0 {
        if pending.len() > 0 || message.role != MessageRole::Assistant {
            return fail(ErrorCode::InvalidContext, "context.incomplete_group");
        }
        if !all_distinct(&calls) {
            return fail(ErrorCode::InvalidContext, "context.duplicate_call");
        }
        return Ok(
            Grouping { groups, pending: calls, current: just(&message.message_id), uncertain: false },
        );
    }
    if results.len() > 0 {
        if message.role != MessageRole::Tool || pending.len() == 0 {
            return fail(ErrorCode::InvalidContext, "context.unpaired_result");
        }
        let left = close_calls(pending, &results)?;
        let unknown = |result: &ToolResult| -> (b: bool)
            ensures
                b == is_uncertain()(result@),
        { result.status == ToolResultStatus::Unknown || result.effect == ToolEffect::Unknown };
        let uncertain = uncertain || any(&results, unknown, Ghost(is_uncertain())) || is_corrected(
            messages,
            &message.message_id,
        );
        let ghost earlier = current.deep_view();
        let mut current = current;
        current.push(message.message_id.copy());
        assert(current.deep_view() =~= earlier.push(message@.message_id));
        assert(left.deep_view().len() == left.len());
        if left.len() == 0 {
            let groups = push_group(
                groups,
                Group { ids: current, tool_round: true, protected: uncertain },
            );
            let none: Vec<Id> = Vec::new();
            assert(none.deep_view() =~= Seq::<Seq<char>>::empty());
            return Ok(Grouping { groups, pending: left, current: none, uncertain });
        }
        return Ok(Grouping { groups, pending: left, current, uncertain });
    }
    if message.role == MessageRole::Assistant {
        if pending.len() > 0 {
            return fail(ErrorCode::InvalidContext, "context.incomplete_group");
        }
        let groups = push_group(
            groups,
            Group { ids: just(&message.message_id), tool_round: false, protected: false },
        );
        return Ok(Grouping { groups, pending, current, uncertain });
    }
    if pending.len() > 0 && message.role == MessageRole::User {
        return fail(ErrorCode::InvalidContext, "context.interrupted_group");
    }
    Ok(Grouping { groups, pending, current, uncertain })
}

/// The grouping of the first messages of a transcript.
pub open spec fn grouping_at(messages: Seq<MessageView>, n: int) -> GroupingView
    decreases n,
{
    if n <= 0 {
        GroupingView {
            groups: Seq::empty(),
            pending: Seq::empty(),
            current: Seq::empty(),
            uncertain: false,
        }
    } else {
        let message = messages[n - 1];
        grouped_with(
            grouping_at(messages, n - 1),
            message,
            some_in(messages, corrects_message(message.message_id)),
        )
    }
}

/// Why the message at a position does not continue the grouping.
pub open spec fn message_grouping_fault(messages: Seq<MessageView>) -> spec_fn(int) -> Option<Fault> {
    |i: int| grouping_fault(grouping_at(messages, i), messages[i])
}

/// Why a transcript does not fall into groups.
pub open spec fn groups_fault(messages: Seq<MessageView>) -> Option<Fault> {
    first_index_fault(0, messages.len() as int, message_grouping_fault(messages))
}

/// Groups with the open round at the end.
pub open spec fn closed_groups(at: GroupingView) -> Seq<GroupView> {
    if at.pending.len() > 0 {
        at.groups.push(GroupView { ids: at.current, tool_round: true, protected: true })
    } else {
        at.groups
    }
}

/// Groups of which the last tool round is protected.
pub open spec fn with_last_round_protected(groups: Seq<GroupView>) -> Seq<GroupView>
    decreases groups.len(),
{
    if groups.len() == 0 {
        groups
    } else if groups.last().tool_round {
        groups.drop_last().push(GroupView { protected: true, ..groups.last() })
    } else {
        with_last_round_protected(groups.drop_last()).push(groups.last())
    }
}

/// The groups of a transcript.
pub open spec fn groups_of(messages: Seq<MessageView>) -> Seq<GroupView> {
    with_last_round_protected(closed_groups(grouping_at(messages, messages.len() as int)))
}

fn protect_last_round(groups: Vec<Group>) -> (r: Vec<Group>)
    ensures
        r.deep_view() == with_last_round_protected(groups.deep_view()),
    decreases groups.len(),
{
    let ghost given = groups.deep_view();
    let mut groups = groups;
    match groups.pop() {
        None => {
            assert(groups.deep_view() =~= given);
            groups
        },
        Some(group) => {
            assert(given.last() == group@);
            assert(groups.deep_view() =~= given.drop_last());
            if group.tool_round {
                push_group(
                    groups,
                    Group { ids: group.ids, tool_round: group.tool_round, protected: true },
                )
            } else {
                push_group(protect_last_round(groups), group)
            }
        },
    }
}

/// Find the groups of a transcript. Complete rounds are identified from core call identifiers, not
/// from the aliases of a provider.
pub fn groups(messages: &Vec<Message>) -> (r: Result<Vec<Group>, ContractError>)
    ensures
        failure(r) == groups_fault(messages.deep_view()),
        r matches Ok(found) ==> found.deep_view() == groups_of(messages.deep_view()),
{
    let ghost s = messages.deep_view();
    let ghost n = s.len() as int;
    let ghost f = message_grouping_fault(s);
    let mut at = Grouping {
        groups: Vec::new(),
        pending: Vec::new(),
        current: Vec::new(),
        uncertain: false,
    };
    assert(at.groups.deep_view() =~= Seq::<GroupView>::empty());
    assert(at.pending.deep_view() =~= Seq::<Seq<char>>::empty());
    assert(at.current.deep_view() =~= Seq::<Seq<char>>::empty());
    let mut i: usize = 0;
    while i < messages.len()
        invariant
            i <= messages.len(),
            s == messages.deep_view(),
            n == messages.len(),
            f == message_grouping_fault(s),
            at@ == grouping_at(s, i as int),
            first_index_fault(0, n, f) == first_index_fault(i as int, n, f),
        decreases messages.len() - i,
    {
        assert(s[i as int] == messages@[i as int]@);
        at = group_with(at, &messages[i], messages)?;
        i = i + 1;
    }
    assert(at@.pending.len() == at.pending.len());
    let Grouping { groups, pending, current, uncertain: _ } = at;
    let closed = if pending.len() > 0 {
        push_group(groups, Group { ids: current, tool_round: true, protected: true })
    } else {
        groups
    };
    Ok(protect_last_round(closed))
}

/// The identifiers that a selection names.
pub open spec fn selected_in(ids: Seq<Seq<char>>) -> spec_fn(Seq<char>) -> bool {
    |id: Seq<char>| ids.contains(id)
}

/// Why a selection may not cover what it covers of a group.
pub open spec fn group_selection_fault(ids: Seq<Seq<char>>) -> spec_fn(GroupView) -> Option<Fault> {
    |group: GroupView|
        {
            let n = count_in(group.ids, selected_in(ids));
            if n > 0 && (group.protected || n != group.ids.len()) {
                fault(ErrorCode::InvalidContextSelection, "context.protected_or_partial")
            } else {
                None
            }
        }
}

/// How many messages of groups a selection names.
pub open spec fn selected_total(groups: Seq<GroupView>, ids: Seq<Seq<char>>) -> nat
    decreases groups.len(),
{
    if groups.len() == 0 {
        0
    } else {
        selected_total(groups.drop_last(), ids) + count_in(groups.last().ids, selected_in(ids))
    }
}

/// Why a selection of messages may not be covered.
pub open spec fn selection_fault(messages: Seq<MessageView>, ids: Seq<Seq<char>>) -> Option<Fault> {
    let found = groups_of(messages);
    if !distinct(ids) {
        fault(ErrorCode::InvalidContextSelection, "context.duplicates")
    } else if groups_fault(messages) is Some {
        groups_fault(messages)
    } else if first_fault(found, group_selection_fault(ids)) is Some {
        first_fault(found, group_selection_fault(ids))
    } else if selected_total(found, ids) != ids.len() {
        fault(ErrorCode::InvalidContextSelection, "context.unknown_message")
    } else {
        None
    }
}

fn count_selected(group: &Group, ids: &Vec<Id>) -> (r: usize)
    ensures
        r == count_in(group@.ids, selected_in(ids.deep_view())),
        r <= group.ids.len(),
{
    let selected = |id: &Id| -> (b: bool)
        ensures
            b == selected_in(ids.deep_view())(id@),
    { contains(ids, id) };
    count(&group.ids, selected, Ghost(selected_in(ids.deep_view())))
}

fn total_selected(groups: &Vec<Group>, ids: &Vec<Id>) -> (r: u128)
    ensures
        r == selected_total(groups.deep_view(), ids.deep_view()),
{
    let ghost s = groups.deep_view();
    let mut total: u128 = 0;
    let mut i: usize = 0;
    assert(s.take(0) =~= Seq::<GroupView>::empty());
    while i < groups.len()
        invariant
            i <= groups.len(),
            s == groups.deep_view(),
            total == selected_total(s.take(i as int), ids.deep_view()),
            total <= i * usize::MAX,
        decreases groups.len() - i,
    {
        assert(s.take(i + 1).drop_last() =~= s.take(i as int));
        assert(s.take(i + 1).last() == groups@[i as int]@);
        let n: usize = count_selected(&groups[i], ids);
        assert((i + 1) * usize::MAX == i * usize::MAX + usize::MAX) by (nonlinear_arith);
        assert((i + 1) * usize::MAX <= u64::MAX * u64::MAX) by (nonlinear_arith)
            requires
                i + 1 <= usize::MAX,
                usize::MAX <= u64::MAX,
        ;
        total = total + n as u128;
        i = i + 1;
    }
    assert(s.take(i as int) =~= s);
    total
}

/// Accept a selection that covers whole unprotected groups, and nothing else.
pub fn validate_selection(messages: &Vec<Message>, ids: &Vec<Id>) -> (r: Result<(), ContractError>)
    ensures
        failure(r) == selection_fault(messages.deep_view(), ids.deep_view()),
{
    if !all_distinct(ids) {
        return fail(ErrorCode::InvalidContextSelection, "context.duplicates");
    }
    let found = groups(messages)?;
    let check = |group: &Group| -> (r: Result<(), ContractError>)
        ensures
            failure(r) == group_selection_fault(ids.deep_view())(group@),
    {
        let n: usize = count_selected(group, ids);
        assert(group@.ids.len() == group.ids.len());
        if n > 0 && (group.protected || n != group.ids.len()) {
            return fail(ErrorCode::InvalidContextSelection, "context.protected_or_partial");
        }
        Ok(())
    };
    check_each(&found, check, Ghost(group_selection_fault(ids.deep_view())))?;
    if total_selected(&found, ids) != ids.len() as u128 {
        return fail(ErrorCode::InvalidContextSelection, "context.unknown_message");
    }
    Ok(())
}

proof fn lemma_count_full<V>(s: Seq<V>, p: spec_fn(V) -> bool)
    ensures
        count_in(s, p) <= s.len(),
        count_in(s, p) == s.len() ==> forall|i: int| 0 <= i < s.len() ==> p(#[trigger] s[i]),
        count_in(s, p) == 0 ==> forall|i: int| 0 <= i < s.len() ==> !p(#[trigger] s[i]),
    decreases s.len(),
{
    if s.len() > 0 {
        lemma_count_full(s.skip(1), p);
        assert forall|i: int| 0 < i < s.len() implies s[i] == s.skip(1)[i - 1] by {}
        if count_in(s, p) == s.len() {
            assert forall|i: int| 0 <= i < s.len() implies p(#[trigger] s[i]) by {
                if i > 0 {
                    assert(p(s.skip(1)[i - 1]));
                }
            }
        }
        if count_in(s, p) == 0 {
            assert forall|i: int| 0 <= i < s.len() implies !p(#[trigger] s[i]) by {
                if i > 0 {
                    assert(!p(s.skip(1)[i - 1]));
                }
            }
        }
    }
}

/// A tool round is never split: what may be covered holds all messages of a group, or none, and none
/// of a protected one.
pub proof fn law_groups_are_covered_whole(
    messages: Seq<MessageView>,
    ids: Seq<Seq<char>>,
    g: int,
    a: int,
    b: int,
)
    requires
        selection_fault(messages, ids) is None,
        0 <= g < groups_of(messages).len(),
        0 <= a < groups_of(messages)[g].ids.len(),
        0 <= b < groups_of(messages)[g].ids.len(),
    ensures
        ids.contains(groups_of(messages)[g].ids[a]) <==> ids.contains(
            groups_of(messages)[g].ids[b],
        ),
        groups_of(messages)[g].protected ==> !ids.contains(groups_of(messages)[g].ids[a]),
{
    let found = groups_of(messages);
    let p = selected_in(ids);
    lemma_first_fault(found, group_selection_fault(ids));
    assert(group_selection_fault(ids)(found[g]) is None);
    lemma_count_full(found[g].ids, p);
    assert(p(found[g].ids[a]) == ids.contains(found[g].ids[a]));
    assert(p(found[g].ids[b]) == ids.contains(found[g].ids[b]));
}

proof fn lemma_last_round(groups: Seq<GroupView>, i: int)
    requires
        0 <= i < groups.len(),
        groups[i].tool_round,
        forall|k: int| i < k < groups.len() ==> !(#[trigger] groups[k]).tool_round,
    ensures
        with_last_round_protected(groups).len() == groups.len(),
        with_last_round_protected(groups)[i].protected,
    decreases groups.len(),
{
    if !groups.last().tool_round {
        lemma_last_round(groups.drop_last(), i);
    }
}

/// The last tool round of a transcript is protected.
pub proof fn law_last_round_is_protected(messages: Seq<MessageView>, i: int)
    requires
        0 <= i < closed_groups(grouping_at(messages, messages.len() as int)).len(),
        closed_groups(grouping_at(messages, messages.len() as int))[i].tool_round,
        forall|k: int|
            i < k < closed_groups(grouping_at(messages, messages.len() as int)).len()
                ==> !(#[trigger] closed_groups(
                grouping_at(messages, messages.len() as int),
            )[k]).tool_round,
    ensures
        groups_of(messages)[i].protected,
{
    lemma_last_round(closed_groups(grouping_at(messages, messages.len() as int)), i);
}

/// A message that reports a result of which it is not known what happened, or a result that some
/// message of the transcript corrects.
pub open spec fn leaves_open(messages: Seq<MessageView>, i: int) -> bool {
    let message = messages[i];
    &&& message.visibility == Visibility::Model || message.visibility == Visibility::UserAndModel
    &&& message.role == MessageRole::Tool
    &&& {
        ||| exists|b: int|
            0 <= b < message.content.len() && (
            #[trigger] message.content[b] matches ContentBlockView::ToolResult { result } && (
            result.status == ToolResultStatus::Unknown || result.effect == ToolEffect::Unknown))
        ||| (exists|b: int|
            0 <= b < message.content.len() && (#[trigger] message.content[b]) is ToolResult) && (
        exists|m: int, c: int|
            0 <= m < messages.len() && 0 <= c < messages[m].content.len() && (
            #[trigger] messages[m].content[c] matches ContentBlockView::ToolResultCorrection {
                previous_message_id,
                ..
            } && previous_message_id == message.message_id))
    }
}

/// Every message has a name of its own.
pub open spec fn named_apart(messages: Seq<MessageView>) -> bool {
    forall|i: int, j: int|
        0 <= i < j < messages.len() ==> (#[trigger] messages[i]).message_id != (
        #[trigger] messages[j]).message_id
}

proof fn lemma_results(blocks: Seq<ContentBlockView>, b: int)
    requires
        0 <= b < blocks.len(),
        blocks[b] is ToolResult,
    ensures
        results_in(blocks).contains(blocks[b]->ToolResult_result),
    decreases blocks.len(),
{
    let front = results_in(blocks.drop_last());
    let all = results_in(blocks);
    if b == blocks.len() - 1 {
        assert(all == front.push(blocks[b]->ToolResult_result));
        assert(all[front.len() as int] == blocks[b]->ToolResult_result);
    } else {
        assert(blocks.drop_last()[b] == blocks[b]);
        lemma_results(blocks.drop_last(), b);
        let i = choose|i: int|
            0 <= i < front.len() && front[i] == blocks[b]->ToolResult_result;
        assert(all[i] == front[i]);
    }
}

proof fn lemma_result_blocks(blocks: Seq<ContentBlockView>, i: int)
    requires
        0 <= i < results_in(blocks).len(),
    ensures
        exists|b: int|
            0 <= b < blocks.len() && #[trigger] blocks[b] == (ContentBlockView::ToolResult {
                result: results_in(blocks)[i],
            }),
    decreases blocks.len(),
{
    let front = results_in(blocks.drop_last());
    if i < front.len() {
        lemma_result_blocks(blocks.drop_last(), i);
        let b = choose|b: int|
            0 <= b < blocks.drop_last().len() && #[trigger] blocks.drop_last()[b] == (
            ContentBlockView::ToolResult { result: front[i] });
        assert(blocks[b] == blocks.drop_last()[b]);
    } else {
        assert(blocks.last() is ToolResult);
        assert(blocks[blocks.len() - 1] == blocks.last());
    }
}

proof fn lemma_calls(blocks: Seq<ContentBlockView>, b: int)
    requires
        0 <= b < blocks.len(),
        blocks[b] is ToolCall,
    ensures
        call_ids(blocks).contains(blocks[b]->ToolCall_call.call_id),
    decreases blocks.len(),
{
    let front = call_ids(blocks.drop_last());
    let all = call_ids(blocks);
    let id = blocks[b]->ToolCall_call.call_id;
    if b == blocks.len() - 1 {
        assert(all == front.push(id));
        assert(all[front.len() as int] == id);
    } else {
        assert(blocks.drop_last()[b] == blocks[b]);
        lemma_calls(blocks.drop_last(), b);
        let i = choose|i: int| 0 <= i < front.len() && front[i] == id;
        assert(all[i] == front[i]);
    }
}

/// The round of a message is marked by it exactly where the message leaves something open.
proof fn lemma_marks(messages: Seq<MessageView>, i: int)
    requires
        0 <= i < messages.len(),
        visible(messages[i]),
        messages[i].role == MessageRole::Tool,
        results_in(messages[i].content).len() > 0,
    ensures
        leaves_open(messages, i) <==> some_in(results_in(messages[i].content), is_uncertain())
            || some_in(messages, corrects_message(messages[i].message_id)),
{
    let message = messages[i];
    let results = results_in(message.content);
    let correcting = corrects(message.message_id);
    let fixed = corrects_message(message.message_id);
    if some_in(results, is_uncertain()) {
        let k = choose|k: int| 0 <= k < results.len() && is_uncertain()(#[trigger] results[k]);
        lemma_result_blocks(message.content, k);
        let b = choose|b: int|
            0 <= b < message.content.len() && #[trigger] message.content[b] == (
            ContentBlockView::ToolResult { result: results[k] });
        assert(message.content[b] is ToolResult);
        assert(leaves_open(messages, i));
    }
    if some_in(messages, fixed) {
        lemma_result_blocks(message.content, 0);
        let m = choose|m: int| 0 <= m < messages.len() && fixed(#[trigger] messages[m]);
        let c = choose|c: int|
            0 <= c < messages[m].content.len() && correcting(#[trigger] messages[m].content[c]);
        assert(messages[m].content[c] is ToolResultCorrection);
        assert(leaves_open(messages, i));
    }
    if leaves_open(messages, i) {
        if exists|b: int|
            0 <= b < message.content.len() && (
            #[trigger] message.content[b] matches ContentBlockView::ToolResult { result } && (
            result.status == ToolResultStatus::Unknown || result.effect == ToolEffect::Unknown)) {
            let b = choose|b: int|
                0 <= b < message.content.len() && (
                #[trigger] message.content[b] matches ContentBlockView::ToolResult { result } && (
                result.status == ToolResultStatus::Unknown || result.effect
                    == ToolEffect::Unknown));
            lemma_results(message.content, b);
            let k = choose|k: int|
                0 <= k < results.len() && results[k] == message.content[b]->ToolResult_result;
            assert(is_uncertain()(results[k]));
        } else {
            let (m, c) = choose|m: int, c: int|
                0 <= m < messages.len() && 0 <= c < messages[m].content.len() && (
                #[trigger] messages[m].content[c] matches ContentBlockView::ToolResultCorrection {
                    previous_message_id,
                    ..
                } && previous_message_id == message.message_id);
            assert(correcting(messages[m].content[c]));
            assert(fixed(messages[m]));
        }
    }
}

/// A message that leaves something open is in a protected round, or in the round that is still open.
proof fn lemma_open_ends_are_kept(messages: Seq<MessageView>, i: int, n: int)
    requires
        groups_fault(messages) is None,
        0 <= i < n <= messages.len(),
        leaves_open(messages, i),
    ensures
        ({
            let at = grouping_at(messages, n);
            ||| exists|g: int|
                0 <= g < at.groups.len() && (#[trigger] at.groups[g]).tool_round
                    && at.groups[g].protected && at.groups[g].ids.contains(messages[i].message_id)
            ||| at.pending.len() > 0 && at.uncertain && at.current.contains(messages[i].message_id)
        }),
    decreases n,
{
    let f = message_grouping_fault(messages);
    lemma_first_index_fault(0, messages.len() as int, f);
    assert(f(n - 1) is None);
    let message = messages[n - 1];
    let id = messages[i].message_id;
    let before = grouping_at(messages, n - 1);
    let at = grouping_at(messages, n);
    let results = results_in(message.content);
    if n == i + 1 {
        let b = choose|b: int|
            0 <= b < message.content.len() && (#[trigger] message.content[b]) is ToolResult;
        lemma_results(message.content, b);
        lemma_marks(messages, i);
        let current = before.current.push(id);
        assert(current[before.current.len() as int] == id);
        if open_after(before.pending, results, results.len() as int).len() == 0 {
            assert(at.groups[before.groups.len() as int].ids == current);
        }
    } else {
        lemma_open_ends_are_kept(messages, i, n - 1);
        if exists|g: int|
            0 <= g < before.groups.len() && (#[trigger] before.groups[g]).tool_round
                && before.groups[g].protected && before.groups[g].ids.contains(id) {
            let g = choose|g: int|
                0 <= g < before.groups.len() && (#[trigger] before.groups[g]).tool_round
                    && before.groups[g].protected && before.groups[g].ids.contains(id);
            assert(at.groups[g] == before.groups[g]);
        } else if visible(message) && results.len() > 0 {
            let k = choose|k: int| 0 <= k < before.current.len() && before.current[k] == id;
            let current = before.current.push(message.message_id);
            assert(current[k] == id);
            if open_after(before.pending, results, results.len() as int).len() == 0 {
                assert(at.groups[before.groups.len() as int].ids == current);
            }
        }
    }
}

/// Protecting the last round changes nothing else: the groups and their messages stay, and no other
/// group is protected by it.
proof fn lemma_only_the_last_round(groups: Seq<GroupView>)
    ensures
        with_last_round_protected(groups).len() == groups.len(),
        forall|g: int|
            0 <= g < groups.len() ==> (#[trigger] with_last_round_protected(groups)[g]).ids
                == groups[g].ids && with_last_round_protected(groups)[g].tool_round
                == groups[g].tool_round && (with_last_round_protected(groups)[g].protected <==> (
            groups[g].protected || (groups[g].tool_round && forall|k: int|
                g < k < groups.len() ==> !(#[trigger] groups[k]).tool_round))),
    decreases groups.len(),
{
    let all = with_last_round_protected(groups);
    if groups.len() > 0 {
        let front = groups.drop_last();
        lemma_only_the_last_round(front);
        let last = groups.len() - 1;
        assert forall|g: int| 0 <= g < groups.len() implies (#[trigger] all[g]).ids == groups[g].ids
            && all[g].tool_round == groups[g].tool_round && (all[g].protected <==> (
        groups[g].protected || (groups[g].tool_round && forall|k: int|
            g < k < groups.len() ==> !(#[trigger] groups[k]).tool_round))) by {
            if groups.last().tool_round {
                if g < last {
                    assert(groups[last].tool_round);
                    assert(all[g] == front[g]);
                }
            } else if g < last {
                assert(all[g] == with_last_round_protected(front)[g]);
                assert(front[g] == groups[g]);
                if forall|k: int| g < k < front.len() ==> !(#[trigger] front[k]).tool_round {
                    assert forall|k: int| g < k < groups.len() implies !(
                    #[trigger] groups[k]).tool_round by {
                        if k < last {
                            assert(front[k] == groups[k]);
                        }
                    }
                }
                if forall|k: int| g < k < groups.len() ==> !(#[trigger] groups[k]).tool_round {
                    assert forall|k: int| g < k < front.len() implies !(
                    #[trigger] front[k]).tool_round by {
                        assert(front[k] == groups[k]);
                    }
                }
            }
        }
    }
}

/// A tool round that reports a result of unknown status or effect, or one that was corrected, is
/// protected, wherever it stands in its transcript: no selection may cover a message of it.
pub proof fn law_open_ends_are_never_covered(
    messages: Seq<MessageView>,
    i: int,
    ids: Seq<Seq<char>>,
)
    requires
        groups_fault(messages) is None,
        0 <= i < messages.len(),
        leaves_open(messages, i),
    ensures
        exists|g: int|
            0 <= g < groups_of(messages).len() && (#[trigger] groups_of(messages)[g]).tool_round
                && groups_of(messages)[g].protected && groups_of(messages)[g].ids.contains(
                messages[i].message_id,
            ),
        ids.contains(messages[i].message_id) ==> selection_fault(messages, ids) is Some,
{
    let n = messages.len() as int;
    let at = grouping_at(messages, n);
    let id = messages[i].message_id;
    let closed = closed_groups(at);
    let found = groups_of(messages);
    lemma_open_ends_are_kept(messages, i, n);
    lemma_only_the_last_round(closed);
    let g = if exists|g: int|
        0 <= g < at.groups.len() && (#[trigger] at.groups[g]).tool_round && at.groups[g].protected
            && at.groups[g].ids.contains(id) {
        choose|g: int|
            0 <= g < at.groups.len() && (#[trigger] at.groups[g]).tool_round
                && at.groups[g].protected && at.groups[g].ids.contains(id)
    } else {
        at.groups.len() as int
    };
    assert(closed[g].tool_round && closed[g].protected && closed[g].ids.contains(id));
    assert(found[g].tool_round && found[g].protected && found[g].ids.contains(id));
    if ids.contains(id) && selection_fault(messages, ids) is None {
        let a = choose|a: int| 0 <= a < found[g].ids.len() && found[g].ids[a] == id;
        law_groups_are_covered_whole(messages, ids, g, a, a);
    }
}

/// The names of all messages that groups hold.
pub open spec fn names_in(groups: Seq<GroupView>) -> Seq<Seq<char>>
    decreases groups.len(),
{
    if groups.len() == 0 {
        Seq::empty()
    } else {
        names_in(groups.drop_last()) + groups.last().ids
    }
}

proof fn lemma_names(groups: Seq<GroupView>, id: Seq<char>)
    ensures
        names_in(groups).contains(id) <==> exists|g: int|
            0 <= g < groups.len() && (#[trigger] groups[g]).ids.contains(id),
    decreases groups.len(),
{
    if groups.len() > 0 {
        let front = groups.drop_last();
        let names = names_in(front);
        let last = groups.last().ids;
        let all = names + last;
        lemma_names(front, id);
        if all.contains(id) {
            let k = choose|k: int| 0 <= k < all.len() && all[k] == id;
            if k < names.len() {
                assert(names[k] == id);
                let g = choose|g: int| 0 <= g < front.len() && (#[trigger] front[g]).ids.contains(id);
                assert(groups[g].ids.contains(id));
            } else {
                assert(last[k - names.len()] == id);
                assert(groups[groups.len() - 1].ids.contains(id));
            }
        }
        if exists|g: int| 0 <= g < groups.len() && (#[trigger] groups[g]).ids.contains(id) {
            let g = choose|g: int| 0 <= g < groups.len() && (#[trigger] groups[g]).ids.contains(id);
            if g < front.len() {
                assert(front[g].ids.contains(id));
                let k = choose|k: int| 0 <= k < names.len() && names[k] == id;
                assert(all[k] == id);
            } else {
                let k = choose|k: int| 0 <= k < last.len() && last[k] == id;
                assert(all[names.len() + k] == id);
            }
        }
    }
}

/// Some message before a position has a name.
spec fn is_name_before(messages: Seq<MessageView>, name: Seq<char>, n: int) -> bool {
    exists|i: int| 0 <= i < n && (#[trigger] messages[i]).message_id == name
}

/// Only messages before a position are named.
spec fn named_before(messages: Seq<MessageView>, names: Seq<Seq<char>>, n: int) -> bool {
    forall|k: int| 0 <= k < names.len() ==> is_name_before(messages, #[trigger] names[k], n)
}

/// Some message of a list of names leaves something open.
pub open spec fn holds_open_end(messages: Seq<MessageView>, ids: Seq<Seq<char>>, n: int) -> bool {
    exists|i: int|
        0 <= i < n && ids.contains((#[trigger] messages[i]).message_id) && leaves_open(messages, i)
}

/// A message that comes next is not named yet, and adds no open end to what is named.
proof fn lemma_next_is_new(messages: Seq<MessageView>, names: Seq<Seq<char>>, n: int)
    requires
        named_apart(messages),
        0 < n <= messages.len(),
        named_before(messages, names, n - 1),
    ensures
        !names.contains(messages[n - 1].message_id),
        holds_open_end(messages, names, n) == holds_open_end(messages, names, n - 1),
        named_before(messages, names, n),
{
    let id = messages[n - 1].message_id;
    if names.contains(id) {
        let k = choose|k: int| 0 <= k < names.len() && names[k] == id;
        assert(is_name_before(messages, names[k], n - 1));
        let i = choose|i: int| 0 <= i < n - 1 && (#[trigger] messages[i]).message_id == names[k];
        assert(messages[i].message_id != messages[n - 1].message_id);
    }
    assert forall|k: int| 0 <= k < names.len() implies is_name_before(
        messages,
        #[trigger] names[k],
        n,
    ) by {
        assert(is_name_before(messages, names[k], n - 1));
        let i = choose|i: int| 0 <= i < n - 1 && (#[trigger] messages[i]).message_id == names[k];
        assert(messages[i].message_id == names[k]);
    }
    if holds_open_end(messages, names, n) {
        let i = choose|i: int|
            0 <= i < n && names.contains((#[trigger] messages[i]).message_id) && leaves_open(
                messages,
                i,
            );
        assert(i < n - 1);
    }
}

/// What holds of a grouping of the first messages: no message is held twice, and a round is protected
/// exactly where it holds an open end.
spec fn grouped_soundly(messages: Seq<MessageView>, at: GroupingView, n: int) -> bool {
    &&& distinct(names_in(at.groups) + at.current)
    &&& named_before(messages, names_in(at.groups) + at.current, n)
    &&& at.pending.len() == 0 ==> at.current.len() == 0
    &&& forall|g: int|
        0 <= g < at.groups.len() ==> {
            let group = #[trigger] at.groups[g];
            &&& group.protected <==> group.tool_round && holds_open_end(messages, group.ids, n)
            &&& named_before(messages, group.ids, n)
        }
    &&& at.pending.len() > 0 ==> (at.uncertain <==> holds_open_end(messages, at.current, n))
}

proof fn lemma_push_name(names: Seq<Seq<char>>, id: Seq<char>, messages: Seq<MessageView>, n: int)
    requires
        distinct(names),
        !names.contains(id),
        0 < n <= messages.len(),
        messages[n - 1].message_id == id,
        named_before(messages, names, n),
    ensures
        distinct(names.push(id)),
        named_before(messages, names.push(id), n),
{
    let all = names.push(id);
    assert forall|i: int, j: int| 0 <= i < j < all.len() implies all[i] != all[j] by {
        if j == names.len() {
            assert(names.contains(names[i]));
        } else {
            assert(names[i] != names[j]);
        }
    }
    assert forall|k: int| 0 <= k < all.len() implies is_name_before(
        messages,
        #[trigger] all[k],
        n,
    ) by {
        if k == names.len() {
            assert(messages[n - 1].message_id == all[k]);
        } else {
            assert(is_name_before(messages, names[k], n));
        }
    }
}

proof fn lemma_named_parts(
    messages: Seq<MessageView>,
    a: Seq<Seq<char>>,
    b: Seq<Seq<char>>,
    n: int,
)
    requires
        named_before(messages, a + b, n),
    ensures
        named_before(messages, a, n),
        named_before(messages, b, n),
{
    assert forall|k: int| 0 <= k < a.len() implies is_name_before(
        messages,
        #[trigger] a[k],
        n,
    ) by {
        assert((a + b)[k] == a[k]);
    }
    assert forall|k: int| 0 <= k < b.len() implies is_name_before(
        messages,
        #[trigger] b[k],
        n,
    ) by {
        assert((a + b)[a.len() + k] == b[k]);
    }
}

proof fn lemma_open_end_pushed(
    messages: Seq<MessageView>,
    ids: Seq<Seq<char>>,
    n: int,
)
    requires
        named_apart(messages),
        0 < n <= messages.len(),
        named_before(messages, ids, n - 1),
    ensures
        holds_open_end(messages, ids.push(messages[n - 1].message_id), n) <==> holds_open_end(
            messages,
            ids,
            n - 1,
        ) || leaves_open(messages, n - 1),
{
    let id = messages[n - 1].message_id;
    let all = ids.push(id);
    lemma_next_is_new(messages, ids, n);
    assert(all[ids.len() as int] == id);
    if leaves_open(messages, n - 1) {
        assert(all.contains(messages[n - 1].message_id));
    }
    if holds_open_end(messages, ids, n - 1) {
        let i = choose|i: int|
            0 <= i < n - 1 && ids.contains((#[trigger] messages[i]).message_id) && leaves_open(
                messages,
                i,
            );
        let k = choose|k: int| 0 <= k < ids.len() && ids[k] == messages[i].message_id;
        assert(all[k] == messages[i].message_id);
        assert(all.contains(messages[i].message_id));
    }
    if holds_open_end(messages, all, n) {
        let i = choose|i: int|
            0 <= i < n && all.contains((#[trigger] messages[i]).message_id) && leaves_open(
                messages,
                i,
            );
        if i < n - 1 {
            let k = choose|k: int| 0 <= k < all.len() && all[k] == messages[i].message_id;
            assert(messages[i].message_id != messages[n - 1].message_id);
            assert(ids[k] == messages[i].message_id);
            assert(ids.contains(messages[i].message_id));
        }
    }
}

/// Every grouping of a transcript is sound.
#[verifier::rlimit(40)]
proof fn lemma_grouped_soundly(messages: Seq<MessageView>, n: int)
    requires
        groups_fault(messages) is None,
        named_apart(messages),
        0 <= n <= messages.len(),
    ensures
        grouped_soundly(messages, grouping_at(messages, n), n),
    decreases n,
{
    let none = Seq::<Seq<char>>::empty();
    if n == 0 {
        assert(names_in(Seq::<GroupView>::empty()) + none =~= none);
    } else {
        lemma_grouped_soundly(messages, n - 1);
        let f = message_grouping_fault(messages);
        lemma_first_index_fault(0, messages.len() as int, f);
        assert(f(n - 1) is None);
        let message = messages[n - 1];
        let id = message.message_id;
        let before = grouping_at(messages, n - 1);
        let at = grouping_at(messages, n);
        let names = names_in(before.groups);
        let calls = call_ids(message.content);
        let results = results_in(message.content);
        lemma_next_is_new(messages, names + before.current, n);
        lemma_named_parts(messages, names, before.current, n - 1);
        lemma_next_is_new(messages, names, n);
        lemma_next_is_new(messages, before.current, n);
        assert forall|g: int| 0 <= g < before.groups.len() implies {
            let group = #[trigger] before.groups[g];
            &&& group.protected <==> group.tool_round && holds_open_end(messages, group.ids, n)
            &&& named_before(messages, group.ids, n)
        } by {
            lemma_next_is_new(messages, before.groups[g].ids, n);
        }
        assert(distinct(names)) by {
            assert forall|i: int, j: int| 0 <= i < j < names.len() implies names[i] != names[j] by {
                assert((names + before.current)[i] == names[i]);
                assert((names + before.current)[j] == names[j]);
            }
        }
        if !visible(message) {
        } else if calls.len() > 0 {
            assert(before.current.len() == 0);
            assert(names + before.current =~= names);
            lemma_push_name(names, id, messages, n);
            assert(names + at.current =~= names.push(id));
            assert(none.push(id) =~= at.current);
            lemma_open_end_pushed(messages, none, n);
            assert(!holds_open_end(messages, none, n - 1));
        } else if results.len() > 0 {
            lemma_marks(messages, n - 1);
            lemma_push_name(names + before.current, id, messages, n);
            lemma_open_end_pushed(messages, before.current, n);
            let current = before.current.push(id);
            assert((names + before.current).push(id) =~= names + current);
            lemma_named_parts(messages, names, current, n);
            if open_after(before.pending, results, results.len() as int).len() == 0 {
                assert(at.groups.drop_last() =~= before.groups);
                assert(names_in(at.groups) + none =~= names + current);
                assert forall|g: int| 0 <= g < at.groups.len() implies {
                    let group = #[trigger] at.groups[g];
                    &&& group.protected <==> group.tool_round && holds_open_end(
                        messages,
                        group.ids,
                        n,
                    )
                    &&& named_before(messages, group.ids, n)
                } by {
                    if g < before.groups.len() {
                        assert(at.groups[g] == before.groups[g]);
                    }
                }
            }
        } else if message.role == MessageRole::Assistant {
            assert(before.current.len() == 0);
            assert(names + before.current =~= names);
            lemma_push_name(names, id, messages, n);
            let alone = seq![id];
            assert(names + alone =~= names.push(id));
            assert(at.groups.drop_last() =~= before.groups);
            assert(names_in(at.groups) + none =~= names.push(id));
            assert(at.current =~= none);
            lemma_named_parts(messages, names, alone, n);
            assert forall|g: int| 0 <= g < at.groups.len() implies {
                let group = #[trigger] at.groups[g];
                &&& group.protected <==> group.tool_round && holds_open_end(messages, group.ids, n)
                &&& named_before(messages, group.ids, n)
            } by {
                if g < before.groups.len() {
                    assert(at.groups[g] == before.groups[g]);
                }
            }
        }
    }
}

proof fn lemma_names_after_protecting(groups: Seq<GroupView>, n: int)
    requires
        0 <= n <= groups.len(),
    ensures
        names_in(with_last_round_protected(groups).take(n)) == names_in(groups.take(n)),
    decreases n,
{
    let all = with_last_round_protected(groups);
    lemma_only_the_last_round(groups);
    if n > 0 {
        lemma_names_after_protecting(groups, n - 1);
        assert(all.take(n).drop_last() =~= all.take(n - 1));
        assert(groups.take(n).drop_last() =~= groups.take(n - 1));
        assert(all[n - 1].ids == groups[n - 1].ids);
    }
}

/// A group is protected for no other reason: exactly the last tool round of a transcript is, and
/// every tool round that leaves something open.
pub proof fn law_other_groups_are_not_protected(messages: Seq<MessageView>, g: int)
    requires
        groups_fault(messages) is None,
        named_apart(messages),
        0 <= g < groups_of(messages).len(),
    ensures
        groups_of(messages)[g].protected <==> groups_of(messages)[g].tool_round && ((forall|k: int|
            g < k < groups_of(messages).len() ==> !(#[trigger] groups_of(messages)[k]).tool_round)
            || exists|i: int|
            0 <= i < messages.len() && groups_of(messages)[g].ids.contains(
                (#[trigger] messages[i]).message_id,
            ) && leaves_open(messages, i)),
{
    let n = messages.len() as int;
    let at = grouping_at(messages, n);
    let closed = closed_groups(at);
    let found = groups_of(messages);
    lemma_grouped_soundly(messages, n);
    lemma_only_the_last_round(closed);
    assert forall|k: int| 0 <= k < closed.len() implies (#[trigger] found[k]).tool_round
        == closed[k].tool_round by {}
    if forall|k: int| g < k < found.len() ==> !(#[trigger] found[k]).tool_round {
        assert forall|k: int| g < k < closed.len() implies !(#[trigger] closed[k]).tool_round by {
            assert(!found[k].tool_round);
        }
    }
    if forall|k: int| g < k < closed.len() ==> !(#[trigger] closed[k]).tool_round {
        assert forall|k: int| g < k < found.len() implies !(#[trigger] found[k]).tool_round by {
            assert(!closed[k].tool_round);
        }
    }
    if g < at.groups.len() {
        assert(closed[g] == at.groups[g]);
    }
    assert(found[g].ids == closed[g].ids);
    assert(holds_open_end(messages, found[g].ids, n) <==> exists|i: int|
        0 <= i < messages.len() && found[g].ids.contains((#[trigger] messages[i]).message_id)
            && leaves_open(messages, i));
}

proof fn lemma_names_of_groups(messages: Seq<MessageView>)
    requires
        groups_fault(messages) is None,
        named_apart(messages),
    ensures
        distinct(names_in(groups_of(messages))),
{
    let n = messages.len() as int;
    let at = grouping_at(messages, n);
    let closed = closed_groups(at);
    let found = groups_of(messages);
    lemma_grouped_soundly(messages, n);
    lemma_only_the_last_round(closed);
    lemma_names_after_protecting(closed, closed.len() as int);
    assert(found.take(found.len() as int) =~= found);
    assert(closed.take(closed.len() as int) =~= closed);
    if at.pending.len() > 0 {
        assert(closed.drop_last() =~= at.groups);
    } else {
        assert(names_in(at.groups) + at.current =~= names_in(at.groups));
    }
}

proof fn lemma_count_joined(a: Seq<Seq<char>>, b: Seq<Seq<char>>, p: spec_fn(Seq<char>) -> bool)
    ensures
        count_in(a + b, p) == count_in(a, p) + count_in(b, p),
    decreases a.len(),
{
    if a.len() == 0 {
        assert(a + b =~= b);
    } else {
        lemma_count_joined(a.skip(1), b, p);
        assert((a + b).skip(1) =~= a.skip(1) + b);
    }
}

proof fn lemma_total(groups: Seq<GroupView>, ids: Seq<Seq<char>>)
    ensures
        selected_total(groups, ids) == count_in(names_in(groups), selected_in(ids)),
    decreases groups.len(),
{
    if groups.len() > 0 {
        lemma_total(groups.drop_last(), ids);
        lemma_count_joined(names_in(groups.drop_last()), groups.last().ids, selected_in(ids));
    }
}

/// Of distinct names, as many are selected as a selection has exactly where it selects nothing else.
proof fn lemma_all_selected(names: Seq<Seq<char>>, ids: Seq<Seq<char>>)
    requires
        distinct(names),
        distinct(ids),
    ensures
        count_in(names, selected_in(ids)) <= ids.len(),
        count_in(names, selected_in(ids)) == ids.len() <==> forall|id: Seq<char>|
            ids.contains(id) ==> #[trigger] names.contains(id),
    decreases names.len(),
{
    let p = selected_in(ids);
    if names.len() == 0 {
        if ids.len() > 0 {
            assert(ids.contains(ids[0]));
            assert(!names.contains(ids[0]));
        }
    } else {
        let first = names[0];
        let rest = names.skip(1);
        assert forall|i: int, j: int| 0 <= i < j < rest.len() implies rest[i] != rest[j] by {
            assert(names[i + 1] != names[j + 1]);
        }
        assert forall|k: int| 0 <= k < rest.len() implies #[trigger] rest[k] != first by {
            assert(names[0] != names[k + 1]);
        }
        assert forall|id: Seq<char>| names.contains(id) <==> id == first || rest.contains(id) by {
            if names.contains(id) {
                let k = choose|k: int| 0 <= k < names.len() && names[k] == id;
                if k > 0 {
                    assert(rest[k - 1] == id);
                }
            }
            if rest.contains(id) {
                let k = choose|k: int| 0 <= k < rest.len() && rest[k] == id;
                assert(names[k + 1] == id);
            }
            assert(names[0] == first);
        }
        if ids.contains(first) {
            let at = choose|at: int| 0 <= at < ids.len() && ids[at] == first;
            let others = ids.remove(at);
            assert forall|i: int, j: int| 0 <= i < j < others.len() implies others[i]
                != others[j] by {
                let a = if i < at {
                    i
                } else {
                    i + 1
                };
                let b = if j < at {
                    j
                } else {
                    j + 1
                };
                assert(others[i] == ids[a] && others[j] == ids[b]);
            }
            assert forall|id: Seq<char>| others.contains(id) <==> ids.contains(id) && id != first by {
                if others.contains(id) {
                    let k = choose|k: int| 0 <= k < others.len() && others[k] == id;
                    if k < at {
                        assert(ids[k] == id);
                    } else {
                        assert(ids[k + 1] == id);
                    }
                }
                if ids.contains(id) && id != first {
                    let k = choose|k: int| 0 <= k < ids.len() && ids[k] == id;
                    if k < at {
                        assert(others[k] == id);
                    } else {
                        assert(others[k - 1] == id);
                    }
                }
            }
            lemma_all_selected(rest, others);
            lemma_same_count(rest, p, selected_in(others));
            if forall|id: Seq<char>| ids.contains(id) ==> #[trigger] names.contains(id) {
                assert forall|id: Seq<char>| others.contains(id) implies #[trigger] rest.contains(
                    id,
                ) by {
                    assert(names.contains(id));
                }
            }
            if forall|id: Seq<char>| others.contains(id) ==> #[trigger] rest.contains(id) {
                assert forall|id: Seq<char>| ids.contains(id) implies #[trigger] names.contains(
                    id,
                ) by {
                    if id != first {
                        assert(others.contains(id));
                        assert(rest.contains(id));
                    }
                }
            }
        } else {
            lemma_all_selected(rest, ids);
            if forall|id: Seq<char>| ids.contains(id) ==> #[trigger] names.contains(id) {
                assert forall|id: Seq<char>| ids.contains(id) implies #[trigger] rest.contains(
                    id,
                ) by {
                    assert(names.contains(id));
                }
            }
            if forall|id: Seq<char>| ids.contains(id) ==> #[trigger] rest.contains(id) {
                assert forall|id: Seq<char>| ids.contains(id) implies #[trigger] names.contains(
                    id,
                ) by {
                    assert(rest.contains(id));
                }
            }
        }
    }
}

proof fn lemma_same_count(
    s: Seq<Seq<char>>,
    p: spec_fn(Seq<char>) -> bool,
    q: spec_fn(Seq<char>) -> bool,
)
    requires
        forall|k: int| 0 <= k < s.len() ==> p(#[trigger] s[k]) == q(s[k]),
    ensures
        count_in(s, p) == count_in(s, q),
    decreases s.len(),
{
    if s.len() > 0 {
        assert forall|k: int| 0 <= k < s.skip(1).len() implies p(#[trigger] s.skip(1)[k]) == q(
            s.skip(1)[k],
        ) by {
            assert(s.skip(1)[k] == s[k + 1]);
        }
        lemma_same_count(s.skip(1), p, q);
        assert(p(s[0]) == q(s[0]));
    }
}

proof fn lemma_count_all(s: Seq<Seq<char>>, p: spec_fn(Seq<char>) -> bool)
    ensures
        (forall|i: int| 0 <= i < s.len() ==> p(#[trigger] s[i])) ==> count_in(s, p) == s.len(),
        (forall|i: int| 0 <= i < s.len() ==> !p(#[trigger] s[i])) ==> count_in(s, p) == 0,
    decreases s.len(),
{
    if s.len() > 0 {
        let rest = s.skip(1);
        lemma_count_all(rest, p);
        if forall|i: int| 0 <= i < s.len() ==> p(#[trigger] s[i]) {
            assert forall|i: int| 0 <= i < rest.len() implies p(#[trigger] rest[i]) by {
                assert(p(s[i + 1]));
            }
            assert(p(s[0]));
        }
        if forall|i: int| 0 <= i < s.len() ==> !p(#[trigger] s[i]) {
            assert forall|i: int| 0 <= i < rest.len() implies !p(#[trigger] rest[i]) by {
                assert(!p(s[i + 1]));
            }
            assert(!p(s[0]));
        }
    }
}

/// A selection may be covered exactly where it names messages of groups and nothing else, none twice,
/// and of each group all messages or none, and none of a protected group.
pub proof fn law_whole_unprotected_groups_may_be_covered(
    messages: Seq<MessageView>,
    ids: Seq<Seq<char>>,
)
    requires
        groups_fault(messages) is None,
        named_apart(messages),
    ensures
        selection_fault(messages, ids) is None <==> {
            &&& distinct(ids)
            &&& forall|id: Seq<char>| #[trigger]
                ids.contains(id) ==> exists|g: int|
                    0 <= g < groups_of(messages).len() && (
                    #[trigger] groups_of(messages)[g]).ids.contains(id)
            &&& forall|g: int|
                0 <= g < groups_of(messages).len() ==> {
                    let group = #[trigger] groups_of(messages)[g];
                    ||| forall|k: int| 0 <= k < group.ids.len() ==> !ids.contains(group.ids[k])
                    ||| !group.protected && forall|k: int|
                        0 <= k < group.ids.len() ==> ids.contains(group.ids[k])
                }
        },
{
    let found = groups_of(messages);
    let names = names_in(found);
    let p = selected_in(ids);
    let f = group_selection_fault(ids);
    lemma_names_of_groups(messages);
    lemma_total(found, ids);
    lemma_first_fault(found, f);
    if distinct(ids) {
        lemma_all_selected(names, ids);
        assert forall|g: int| 0 <= g < found.len() implies (f(#[trigger] found[g]) is None <==> {
            let group = found[g];
            ||| forall|k: int| 0 <= k < group.ids.len() ==> !ids.contains(group.ids[k])
            ||| !group.protected && forall|k: int|
                0 <= k < group.ids.len() ==> ids.contains(group.ids[k])
        }) by {
            let group = found[g];
            lemma_count_full(group.ids, p);
            lemma_count_all(group.ids, p);
            assert forall|k: int| 0 <= k < group.ids.len() implies p(#[trigger] group.ids[k])
                == ids.contains(group.ids[k]) by {}
        }
        assert forall|id: Seq<char>| #[trigger] names.contains(id) == exists|g: int|
            0 <= g < found.len() && (#[trigger] found[g]).ids.contains(id) by {
            lemma_names(found, id);
        }
        if forall|id: Seq<char>| ids.contains(id) ==> #[trigger] names.contains(id) {
            assert forall|id: Seq<char>| #[trigger] ids.contains(id) implies exists|g: int|
                0 <= g < found.len() && (#[trigger] found[g]).ids.contains(id) by {
                assert(names.contains(id));
            }
        }
    }
}

/// A call and the message that answers it are held by one tool round: neither is covered without the
/// other.
pub proof fn law_answers_stay_with_their_calls(
    messages: Seq<MessageView>,
    i: int,
    b: int,
    j: int,
    c: int,
)
    requires
        groups_fault(messages) is None,
        0 <= i < j < messages.len(),
        visible(messages[i]),
        visible(messages[j]),
        0 <= b < messages[i].content.len(),
        0 <= c < messages[j].content.len(),
        messages[i].content[b] is ToolCall,
        messages[j].content[c] is ToolResult,
        messages[j].role == MessageRole::Tool,
        messages[j].content[c]->ToolResult_result.call_id
            == messages[i].content[b]->ToolCall_call.call_id,
        forall|k: int, x: int|
            i < k < j && 0 <= x < messages[k].content.len() ==> !(
            #[trigger] messages[k].content[x] is ToolCall),
    ensures
        exists|g: int|
            0 <= g < groups_of(messages).len() && (#[trigger] groups_of(messages)[g]).tool_round
                && groups_of(messages)[g].ids.contains(messages[i].message_id) && groups_of(
                messages,
            )[g].ids.contains(messages[j].message_id),
{
    let n = messages.len() as int;
    let call_id = messages[i].content[b]->ToolCall_call.call_id;
    lemma_calls(messages[i].content, b);
    lemma_results(messages[j].content, c);
    lemma_answered_in_round(messages, i, j, call_id, n);
    let at = grouping_at(messages, n);
    let closed = closed_groups(at);
    lemma_only_the_last_round(closed);
    let g = if exists|g: int|
        0 <= g < at.groups.len() && (#[trigger] at.groups[g]).tool_round
            && at.groups[g].ids.contains(messages[i].message_id) && at.groups[g].ids.contains(
            messages[j].message_id,
        ) {
        choose|g: int|
            0 <= g < at.groups.len() && (#[trigger] at.groups[g]).tool_round
                && at.groups[g].ids.contains(messages[i].message_id) && at.groups[g].ids.contains(
                messages[j].message_id,
            )
    } else {
        at.groups.len() as int
    };
    assert(closed[g].tool_round && closed[g].ids.contains(messages[i].message_id)
        && closed[g].ids.contains(messages[j].message_id));
    assert(groups_of(messages)[g].ids == closed[g].ids);
}

proof fn lemma_still_open(
    pending: Seq<Seq<char>>,
    results: Seq<ToolResultView>,
    n: int,
    id: Seq<char>,
)
    requires
        0 <= n <= results.len(),
        open_after(pending, results, n).contains(id),
    ensures
        pending.contains(id),
    decreases n,
{
    if n > 0 {
        lemma_kept(open_after(pending, results, n - 1), other_than(results[n - 1].call_id));
        lemma_still_open(pending, results, n - 1, id);
    }
}

proof fn lemma_no_calls(blocks: Seq<ContentBlockView>)
    requires
        forall|x: int| 0 <= x < blocks.len() ==> !(#[trigger] blocks[x] is ToolCall),
    ensures
        call_ids(blocks).len() == 0,
    decreases blocks.len(),
{
    if blocks.len() > 0 {
        assert forall|x: int| 0 <= x < blocks.drop_last().len() implies !(
        #[trigger] blocks.drop_last()[x] is ToolCall) by {
            assert(blocks.drop_last()[x] == blocks[x]);
        }
        lemma_no_calls(blocks.drop_last());
        assert(!(blocks[blocks.len() - 1] is ToolCall));
    }
}

/// While a call is open, the message that made it is in the open round; once it is answered, both
/// messages are in one round.
proof fn lemma_answered_in_round(
    messages: Seq<MessageView>,
    i: int,
    j: int,
    call_id: Seq<char>,
    n: int,
)
    requires
        groups_fault(messages) is None,
        0 <= i < j < messages.len(),
        i < n <= messages.len(),
        visible(messages[i]),
        visible(messages[j]),
        call_ids(messages[i].content).contains(call_id),
        messages[j].role == MessageRole::Tool,
        exists|r: int|
            0 <= r < results_in(messages[j].content).len() && (#[trigger] results_in(
                messages[j].content,
            )[r]).call_id == call_id,
        forall|k: int, x: int|
            i < k < j && 0 <= x < messages[k].content.len() ==> !(
            #[trigger] messages[k].content[x] is ToolCall),
    ensures
        ({
            let at = grouping_at(messages, n);
            let one = messages[i].message_id;
            let other = messages[j].message_id;
            if n <= j {
                at.pending.contains(call_id) ==> at.current.contains(one)
            } else {
                ||| exists|g: int|
                    0 <= g < at.groups.len() && (#[trigger] at.groups[g]).tool_round
                        && at.groups[g].ids.contains(one) && at.groups[g].ids.contains(other)
                ||| at.pending.len() > 0 && at.current.contains(one) && at.current.contains(other)
            }
        }),
    decreases n,
{
    let f = message_grouping_fault(messages);
    lemma_first_index_fault(0, messages.len() as int, f);
    assert(f(n - 1) is None);
    let message = messages[n - 1];
    let before = grouping_at(messages, n - 1);
    let at = grouping_at(messages, n);
    let results = results_in(message.content);
    let one = messages[i].message_id;
    let other = messages[j].message_id;
    let left = open_after(before.pending, results, results.len() as int);
    let current = before.current.push(message.message_id);
    if n == i + 1 {
        assert(at.current[0] == one);
    } else {
        lemma_answered_in_round(messages, i, j, call_id, n - 1);
        if n <= j {
            lemma_no_calls(message.content);
            if visible(message) && results.len() > 0 && at.pending.contains(call_id) {
                lemma_still_open(before.pending, results, results.len() as int, call_id);
                let k = choose|k: int| 0 <= k < before.current.len() && before.current[k] == one;
                assert(current[k] == one);
            }
        } else if n == j + 1 {
            let r = choose|r: int|
                0 <= r < results.len() && (#[trigger] results[r]).call_id == call_id;
            let answered = answer_fault(before.pending, results);
            assert(call_ids(message.content).len() == 0);
            lemma_first_index_fault(0, results.len() as int, answered);
            assert(answered(r) is None);
            lemma_still_open(before.pending, results, r, call_id);
            let k = choose|k: int| 0 <= k < before.current.len() && before.current[k] == one;
            assert(current[k] == one);
            assert(current[before.current.len() as int] == other);
            if left.len() == 0 {
                assert(at.groups[before.groups.len() as int].ids == current);
            }
        } else {
            if exists|g: int|
                0 <= g < before.groups.len() && (#[trigger] before.groups[g]).tool_round
                    && before.groups[g].ids.contains(one) && before.groups[g].ids.contains(other) {
                let g = choose|g: int|
                    0 <= g < before.groups.len() && (#[trigger] before.groups[g]).tool_round
                        && before.groups[g].ids.contains(one) && before.groups[g].ids.contains(
                        other,
                    );
                assert(at.groups[g] == before.groups[g]);
            } else if visible(message) && results.len() > 0 {
                let k = choose|k: int| 0 <= k < before.current.len() && before.current[k] == one;
                let l = choose|l: int| 0 <= l < before.current.len() && before.current[l] == other;
                assert(current[k] == one && current[l] == other);
                if left.len() == 0 {
                    assert(at.groups[before.groups.len() as int].ids == current);
                }
            }
        }
    }
}

/// An assistant message without calls is a group of its own, unprotected.
pub proof fn law_plain_answers_stand_alone(messages: Seq<MessageView>, i: int)
    requires
        groups_fault(messages) is None,
        0 <= i < messages.len(),
        visible(messages[i]),
        messages[i].role == MessageRole::Assistant,
        forall|x: int|
            0 <= x < messages[i].content.len() ==> !(#[trigger] messages[i].content[x] is ToolCall)
                && !(messages[i].content[x] is ToolResult),
    ensures
        exists|g: int|
            0 <= g < groups_of(messages).len() && #[trigger] groups_of(messages)[g] == (GroupView {
                ids: seq![messages[i].message_id],
                tool_round: false,
                protected: false,
            }),
{
    let n = messages.len() as int;
    let closed = closed_groups(grouping_at(messages, n));
    lemma_no_calls(messages[i].content);
    if results_in(messages[i].content).len() > 0 {
        lemma_result_blocks(messages[i].content, 0);
    }
    lemma_alone(messages, i, n);
    let g = choose|g: int|
        0 <= g < grouping_at(messages, n).groups.len() && #[trigger] grouping_at(
            messages,
            n,
        ).groups[g] == (GroupView {
            ids: seq![messages[i].message_id],
            tool_round: false,
            protected: false,
        });
    assert(closed[g] == grouping_at(messages, n).groups[g]);
    lemma_only_the_last_round(closed);
    assert(groups_of(messages)[g].ids == closed[g].ids);
}

proof fn lemma_alone(messages: Seq<MessageView>, i: int, n: int)
    requires
        groups_fault(messages) is None,
        0 <= i < n <= messages.len(),
        visible(messages[i]),
        messages[i].role == MessageRole::Assistant,
        call_ids(messages[i].content).len() == 0,
        results_in(messages[i].content).len() == 0,
    ensures
        exists|g: int|
            0 <= g < grouping_at(messages, n).groups.len() && #[trigger] grouping_at(
                messages,
                n,
            ).groups[g] == (GroupView {
                ids: seq![messages[i].message_id],
                tool_round: false,
                protected: false,
            }),
    decreases n,
{
    let before = grouping_at(messages, n - 1);
    let at = grouping_at(messages, n);
    let alone = GroupView {
        ids: seq![messages[i].message_id],
        tool_round: false,
        protected: false,
    };
    if n == i + 1 {
        assert(at.groups[before.groups.len() as int] == alone);
    } else {
        lemma_alone(messages, i, n - 1);
        let g = choose|g: int| 0 <= g < before.groups.len() && #[trigger] before.groups[g] == alone;
        assert(at.groups[g] == alone);
    }
}

/// A call stays open until a result answers it, and no result closes another call.
pub proof fn law_calls_stay_open_until_answered(
    pending: Seq<Seq<char>>,
    results: Seq<ToolResultView>,
    n: int,
    call_id: Seq<char>,
)
    requires
        0 <= n <= results.len(),
    ensures
        open_after(pending, results, n).contains(call_id) <==> pending.contains(call_id) && forall|
            k: int,
        |
            0 <= k < n ==> (#[trigger] results[k]).call_id != call_id,
    decreases n,
{
    if n > 0 {
        law_calls_stay_open_until_answered(pending, results, n - 1, call_id);
        crate::data::lemma_kept(
            open_after(pending, results, n - 1),
            other_than(results[n - 1].call_id),
        );
        assert(results[n - 1].call_id == results[n - 1].call_id);
    }
}

/// The model sees every message but those for the user alone.
pub proof fn law_only_user_messages_are_hidden(message: MessageView)
    ensures
        !visible(message) <==> message.visibility == Visibility::User,
{
}

} // verus!
