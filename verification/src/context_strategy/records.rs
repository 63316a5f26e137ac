//! What a compaction keeps, replaces and records.
use vstd::prelude::*;
use vstd::utf8::encode_utf8;

use crate::content::{
    ContentBlock, InputContent, Message, MessageRole, ToolCall, ToolEffect, ToolResult,
    ToolResultStatus,
};
#[allow(unused_imports)]
use crate::content::{
    ContentBlockView, InputContentView, MessageView, ToolCallView, ToolResultView,
};
use crate::context::{
    ContextItem, ContextLifetime, ContextLineage, ContextOrigin, ContextPriority,
};
#[allow(unused_imports)]
use crate::context::{item_of, ContextItemView, ContextLifetimeView};
use crate::context_strategy::groups::{groups, validate_selection, Group};
#[allow(unused_imports)]
use crate::context_strategy::groups::{
    groups_fault, groups_of, selection_fault, ungrouped, GroupView,
};
use crate::context_strategy::{ContextPlan, ContextPreview, ContextRevision};
#[allow(unused_imports)]
use crate::context_strategy::{ContextPlanView, ContextPreviewView, ContextRevisionView};
use crate::data::{any_before, check_each, check_indices, contains, find, joined, keep, last, map_each, Data};
#[allow(unused_imports)]
use crate::data::{
    distinct, final_of, first_fault, first_in, first_index_fault, kept, lemma_first_in,
    lemma_found_at, lemma_kept, some_in,
};
use crate::encoding::{encode_content, no_members, number, with_member};
#[allow(unused_imports)]
use crate::encoding::content_json;
use crate::error::{fail, ContractError, ErrorCode};
#[allow(unused_imports)]
use crate::error::{failure, fault, or_else, Fault};
use crate::json::{array, object, text, Json};
#[allow(unused_imports)]
use crate::json::{get_of, value_of, with_key, JsonView, MemberView};
use crate::refs::Scope;
#[allow(unused_imports)]
use crate::refs::ScopeView;
use crate::serialization::{canonical_digest, canonical_json, Id, JsonDigest};
#[allow(unused_imports)]
use crate::serialization::{canonical_text, digest_of};
use crate::state::records::{ProtectedRecord, Recorded};
#[allow(unused_imports)]
use crate::state::records::ProtectedRecordView;
use crate::text::{begins_with, is_blank, reads};
#[allow(unused_imports)]
use crate::text::{blank, decimal_text, white_space};

verus! {

/// What the projection of one piece of content gave.
#[derive(Debug)]
pub enum SafeValue {
    Shown {
        value: Json,
    },
    Refused {
        error: ContractError,
    },
}

#[verifier::ext_equal]
pub enum SafeValueView {
    Shown {
        value: JsonView,
    },
    Refused {
        error: Fault,
    },
}

impl View for SafeValue {
    type V = SafeValueView;

    open spec fn view(&self) -> SafeValueView {
        match self {
            SafeValue::Shown { value } => SafeValueView::Shown { value: value.deep_view() },
            SafeValue::Refused { error } => SafeValueView::Refused { error: error.deep_view() },
        }
    }
}

impl DeepView for SafeValue {
    type V = SafeValueView;

    open spec fn deep_view(&self) -> SafeValueView {
        self@
    }
}

impl Data for SafeValue {
    fn same(&self, other: &Self) -> (r: bool) {
        match (self, other) {
            (SafeValue::Shown { value: value1 }, SafeValue::Shown { value: value2 }) => value1.same(value2),
            (SafeValue::Refused { error: error1 }, SafeValue::Refused { error: error2 }) => error1.same(error2),
            _ => false,
        }
    }

    fn copy(&self) -> (r: Self) {
        match self {
            SafeValue::Shown { value } => SafeValue::Shown { value: value.copy() },
            SafeValue::Refused { error } => SafeValue::Refused { error: error.copy() },
        }
    }
}

/// What the projection made of the pieces of content of each block of a message.
#[derive(Debug)]
pub struct SafeContents {
    pub blocks: Vec<Vec<SafeValue>>,
}

#[verifier::ext_equal]
pub struct SafeContentsView {
    pub blocks: Seq<Seq<SafeValueView>>,
}

impl View for SafeContents {
    type V = SafeContentsView;

    open spec fn view(&self) -> SafeContentsView {
        SafeContentsView {
            blocks: self.blocks.deep_view(),
        }
    }
}

impl DeepView for SafeContents {
    type V = SafeContentsView;

    open spec fn deep_view(&self) -> SafeContentsView {
        self@
    }
}

impl Data for SafeContents {
    fn same(&self, other: &Self) -> (r: bool) {
        self.blocks.same(&other.blocks)
    }

    fn copy(&self) -> (r: Self) {
        SafeContents {
            blocks: self.blocks.copy(),
        }
    }
}

/// A group of messages that a compactor may summarize.
#[derive(Debug)]
pub struct ContextSegment {
    pub message_ids: Vec<Id>,
    pub content: Json,
}

#[verifier::ext_equal]
pub struct ContextSegmentView {
    pub message_ids: Seq<Seq<char>>,
    pub content: JsonView,
}

impl View for ContextSegment {
    type V = ContextSegmentView;

    open spec fn view(&self) -> ContextSegmentView {
        ContextSegmentView {
            message_ids: self.message_ids.deep_view(),
            content: self.content.deep_view(),
        }
    }
}

impl DeepView for ContextSegment {
    type V = ContextSegmentView;

    open spec fn deep_view(&self) -> ContextSegmentView {
        self@
    }
}

impl Data for ContextSegment {
    fn same(&self, other: &Self) -> (r: bool) {
        self.message_ids.same(&other.message_ids)
            && self.content.same(&other.content)
    }

    fn copy(&self) -> (r: Self) {
        ContextSegment {
            message_ids: self.message_ids.copy(),
            content: self.content.copy(),
        }
    }
}

/// The identity of stored content, as its keeper computes it.
#[derive(Debug)]
pub enum ContentHash {
    Known {
        value: String,
    },
    Refused {
        error: ContractError,
    },
}

#[verifier::ext_equal]
pub enum ContentHashView {
    Known {
        value: Seq<char>,
    },
    Refused {
        error: Fault,
    },
}

impl View for ContentHash {
    type V = ContentHashView;

    open spec fn view(&self) -> ContentHashView {
        match self {
            ContentHash::Known { value } => ContentHashView::Known { value: value.deep_view() },
            ContentHash::Refused { error } => ContentHashView::Refused { error: error.deep_view() },
        }
    }
}

impl DeepView for ContentHash {
    type V = ContentHashView;

    open spec fn deep_view(&self) -> ContentHashView {
        self@
    }
}

impl Data for ContentHash {
    fn same(&self, other: &Self) -> (r: bool) {
        match (self, other) {
            (ContentHash::Known { value: value1 }, ContentHash::Known { value: value2 }) => value1.same(value2),
            (ContentHash::Refused { error: error1 }, ContentHash::Refused { error: error2 }) => error1.same(error2),
            _ => false,
        }
    }

    fn copy(&self) -> (r: Self) {
        match self {
            ContentHash::Known { value } => ContentHash::Known { value: value.copy() },
            ContentHash::Refused { error } => ContentHash::Refused { error: error.copy() },
        }
    }
}


/// The encoded role.
pub open spec fn role_json(v: MessageRole) -> JsonView {
    match v {
        MessageRole::System => JsonView::Text("system"@),
        MessageRole::User => JsonView::Text("user"@),
        MessageRole::Assistant => JsonView::Text("assistant"@),
        MessageRole::Tool => JsonView::Text("tool"@),
    }
}

/// Encode the role.
pub fn encode_role(v: &MessageRole) -> (r: Json)
    ensures
        r@ == role_json(*v),
{
    match v {
        MessageRole::System => crate::json::text("system"),
        MessageRole::User => crate::json::text("user"),
        MessageRole::Assistant => crate::json::text("assistant"),
        MessageRole::Tool => crate::json::text("tool"),
    }
}

/// The encoded status of a result.
pub open spec fn result_status_json(v: ToolResultStatus) -> JsonView {
    match v {
        ToolResultStatus::Succeeded => JsonView::Text("succeeded"@),
        ToolResultStatus::Failed => JsonView::Text("failed"@),
        ToolResultStatus::Denied => JsonView::Text("denied"@),
        ToolResultStatus::Cancelled => JsonView::Text("cancelled"@),
        ToolResultStatus::Unknown => JsonView::Text("unknown"@),
    }
}

/// Encode the status of a result.
pub fn encode_result_status(v: &ToolResultStatus) -> (r: Json)
    ensures
        r@ == result_status_json(*v),
{
    match v {
        ToolResultStatus::Succeeded => crate::json::text("succeeded"),
        ToolResultStatus::Failed => crate::json::text("failed"),
        ToolResultStatus::Denied => crate::json::text("denied"),
        ToolResultStatus::Cancelled => crate::json::text("cancelled"),
        ToolResultStatus::Unknown => crate::json::text("unknown"),
    }
}

/// The encoded effect of a result.
pub open spec fn effect_json(v: ToolEffect) -> JsonView {
    match v {
        ToolEffect::NotApplied => JsonView::Text("not_applied"@),
        ToolEffect::Applied => JsonView::Text("applied"@),
        ToolEffect::Unknown => JsonView::Text("unknown"@),
    }
}

/// Encode the effect of a result.
pub fn encode_effect(v: &ToolEffect) -> (r: Json)
    ensures
        r@ == effect_json(*v),
{
    match v {
        ToolEffect::NotApplied => crate::json::text("not_applied"),
        ToolEffect::Applied => crate::json::text("applied"),
        ToolEffect::Unknown => crate::json::text("unknown"),
    }
}

/// Why a piece of content cannot be shown.
pub open spec fn refusal() -> spec_fn(SafeValueView) -> Option<Fault> {
    |value: SafeValueView|
        match value {
            SafeValueView::Shown { .. } => None,
            SafeValueView::Refused { error } => Some(error),
        }
}

/// Pieces of content as they are shown.
pub open spec fn shown(values: Seq<SafeValueView>) -> Seq<JsonView>
    decreases values.len(),
{
    if values.len() == 0 {
        Seq::empty()
    } else {
        let earlier = shown(values.drop_last());
        match values.last() {
            SafeValueView::Shown { value } => earlier.push(value),
            SafeValueView::Refused { .. } => earlier,
        }
    }
}

fn show(values: &Vec<SafeValue>) -> (r: Result<Vec<Json>, ContractError>)
    ensures
        failure(r) == first_fault(values.deep_view(), refusal()),
        r matches Ok(list) ==> list.deep_view() == shown(values.deep_view()),
{
    let refused = |value: &SafeValue| -> (r: Result<(), ContractError>)
        ensures
            failure(r) == refusal()(value@),
    {
        match value {
            SafeValue::Shown { .. } => Ok(()),
            SafeValue::Refused { error } => Err(error.copy()),
        }
    };
    check_each(values, refused, Ghost(refusal()))?;
    let ghost s = values.deep_view();
    let mut out: Vec<Json> = Vec::new();
    let mut i: usize = 0;
    assert(s.take(0) =~= Seq::<SafeValueView>::empty());
    assert(out.deep_view() =~= Seq::<JsonView>::empty());
    while i < values.len()
        invariant
            i <= values.len(),
            s == values.deep_view(),
            out.deep_view() == shown(s.take(i as int)),
        decreases values.len() - i,
    {
        assert(s.take(i + 1).drop_last() =~= s.take(i as int));
        assert(s.take(i + 1).last() == values@[i as int]@);
        if let SafeValue::Shown { value } = &values[i] {
            let ghost before = out.deep_view();
            out.push(value.copy());
            assert(out.deep_view() =~= before.push(value@));
        }
        i = i + 1;
    }
    assert(s.take(i as int) =~= s);
    Ok(out)
}

/// A call as it is shown.
pub open spec fn safe_call(call: ToolCallView) -> JsonView {
    JsonView::Object(
        seq![
            MemberView { key: "arguments"@, value: JsonView::Object(call.model_inputs) },
            MemberView { key: "name"@, value: JsonView::Text(call.tool_name) },
            MemberView { key: "type"@, value: JsonView::Text("tool_call"@) },
        ],
    )
}

fn show_call(call: &ToolCall) -> (r: Json)
    ensures
        r@ == safe_call(call@),
{
    let members = no_members();
    let members = with_member(members, "arguments", object(call.model_inputs.copy()));
    let members = with_member(members, "name", text(call.tool_name.as_str()));
    let members = with_member(members, "type", text("tool_call"));
    assert(members.deep_view() =~= safe_call(call@)->Object_0);
    object(members)
}

/// A result as it is shown.
pub open spec fn safe_result(result: ToolResultView, content: Seq<JsonView>) -> JsonView {
    JsonView::Object(
        seq![
            MemberView { key: "content"@, value: JsonView::Array(content) },
            MemberView { key: "effect"@, value: effect_json(result.effect) },
            MemberView {
                key: "error"@,
                value: match result.error {
                    Some(error) => JsonView::Text(error.code),
                    None => JsonView::Null,
                },
            },
            MemberView { key: "status"@, value: result_status_json(result.status) },
            MemberView { key: "type"@, value: JsonView::Text("tool_result"@) },
        ],
    )
}

fn show_result(result: &ToolResult, content: Vec<Json>) -> (r: Json)
    ensures
        r@ == safe_result(result@, content.deep_view()),
{
    let ghost items = content.deep_view();
    let error = match &result.error {
        Some(error) => text(error.code.as_str()),
        None => Json::Null,
    };
    let members = no_members();
    let members = with_member(members, "content", array(content));
    let members = with_member(members, "effect", encode_effect(&result.effect));
    let members = with_member(members, "error", error);
    let members = with_member(members, "status", encode_result_status(&result.status));
    let members = with_member(members, "type", text("tool_result"));
    assert(members.deep_view() =~= safe_result(result@, items)->Object_0);
    object(members)
}

/// What the projection made of the block at a position.
pub open spec fn values_at(safe: SafeContentsView, i: int) -> Seq<SafeValueView> {
    if 0 <= i < safe.blocks.len() {
        safe.blocks[i]
    } else {
        Seq::empty()
    }
}

/// Why a block cannot be shown.
pub open spec fn safe_block_fault(
    content: Seq<ContentBlockView>,
    safe: SafeContentsView,
) -> spec_fn(int) -> Option<Fault> {
    |i: int|
        if content[i] is Content || content[i] is ToolResult {
            first_fault(values_at(safe, i), refusal())
        } else {
            None
        }
}

/// A block as it is shown.
pub open spec fn safe_block(block: ContentBlockView, values: Seq<SafeValueView>) -> Seq<JsonView> {
    match block {
        ContentBlockView::Content { .. } => shown(values),
        ContentBlockView::ToolCall { call } => seq![safe_call(call)],
        ContentBlockView::ToolResult { result } => seq![safe_result(result, shown(values))],
        _ => Seq::empty(),
    }
}

/// The first blocks of a message as they are shown.
pub open spec fn safe_blocks(
    content: Seq<ContentBlockView>,
    safe: SafeContentsView,
    n: int,
) -> Seq<JsonView>
    decreases n,
{
    if n <= 0 {
        Seq::empty()
    } else {
        safe_blocks(content, safe, n - 1) + safe_block(content[n - 1], values_at(safe, n - 1))
    }
}

/// Why a message cannot be shown.
pub open spec fn safe_fault(message: MessageView, safe: SafeContentsView) -> Option<Fault> {
    first_index_fault(0, message.content.len() as int, safe_block_fault(message.content, safe))
}

/// A message as a compactor sees it.
pub open spec fn safe_json(message: MessageView, safe: SafeContentsView) -> JsonView {
    JsonView::Object(
        seq![
            MemberView {
                key: "content"@,
                value: JsonView::Array(
                    safe_blocks(message.content, safe, message.content.len() as int),
                ),
            },
            MemberView { key: "message_id"@, value: JsonView::Text(message.message_id) },
            MemberView { key: "role"@, value: role_json(message.role) },
        ],
    )
}

fn show_block(block: &ContentBlock, values: &Vec<SafeValue>) -> (r: Result<Vec<Json>, ContractError>)
    ensures
        failure(r) == (if block@ is Content || block@ is ToolResult {
            first_fault(values.deep_view(), refusal())
        } else {
            None
        }),
        r matches Ok(list) ==> list.deep_view() == safe_block(block@, values.deep_view()),
{
    let mut out: Vec<Json> = Vec::new();
    assert(out.deep_view() =~= Seq::<JsonView>::empty());
    match block {
        ContentBlock::Content { .. } => show(values),
        ContentBlock::ToolCall { call } => {
            out.push(show_call(call));
            assert(out.deep_view() =~= seq![safe_call(call@)]);
            Ok(out)
        },
        ContentBlock::ToolResult { result } => {
            let content = show(values)?;
            let ghost items = content.deep_view();
            out.push(show_result(result, content));
            assert(out.deep_view() =~= seq![safe_result(result@, items)]);
            Ok(out)
        },
        _ => Ok(out),
    }
}

/// Show a message to a compactor.
pub fn safe_message(message: &Message, safe: &SafeContents) -> (r: Result<Json, ContractError>)
    ensures
        failure(r) == safe_fault(message@, safe@),
        r matches Ok(json) ==> json@ == safe_json(message@, safe@),
{
    let ghost s = message.content.deep_view();
    let ghost n = s.len() as int;
    let ghost f = safe_block_fault(s, safe@);
    let none: Vec<SafeValue> = Vec::new();
    assert(none.deep_view() =~= Seq::<SafeValueView>::empty());
    let mut content: Vec<Json> = Vec::new();
    let mut i: usize = 0;
    assert(content.deep_view() =~= Seq::<JsonView>::empty());
    while i < message.content.len()
        invariant
            i <= message.content.len(),
            s == message.content.deep_view(),
            s == message@.content,
            n == message.content.len(),
            f == safe_block_fault(s, safe@),
            none.deep_view() == Seq::<SafeValueView>::empty(),
            content.deep_view() == safe_blocks(s, safe@, i as int),
            first_index_fault(0, n, f) == first_index_fault(i as int, n, f),
        decreases message.content.len() - i,
    {
        assert(s[i as int] == message.content@[i as int]@);
        let values = if i < safe.blocks.len() {
            assert(safe@.blocks[i as int] == safe.blocks@[i as int].deep_view());
            &safe.blocks[i]
        } else {
            &none
        };
        assert(safe@.blocks.len() == safe.blocks.len());
        assert(values.deep_view() == values_at(safe@, i as int));
        let items = show_block(&message.content[i], values)?;
        content = joined(&content, &items);
        i = i + 1;
    }
    let members = no_members();
    let members = with_member(members, "content", array(content));
    let members = with_member(members, "message_id", text(message.message_id.as_str()));
    let members = with_member(members, "role", encode_role(&message.role));
    assert(members.deep_view() =~= safe_json(message@, safe@)->Object_0);
    Ok(object(members))
}

/// What the projection made of the message at a position.
pub open spec fn safe_at(safe: Seq<SafeContentsView>, i: int) -> SafeContentsView {
    if 0 <= i < safe.len() {
        safe[i]
    } else {
        SafeContentsView { blocks: Seq::empty() }
    }
}

/// Why the message at a position cannot be shown with its group.
pub open spec fn member_fault(
    messages: Seq<MessageView>,
    safe: Seq<SafeContentsView>,
    ids: Seq<Seq<char>>,
) -> spec_fn(int) -> Option<Fault> {
    |i: int|
        if ids.contains(messages[i].message_id) {
            safe_fault(messages[i], safe_at(safe, i))
        } else {
            None
        }
}

/// The messages of a group among the first ones, as they are shown.
pub open spec fn shown_members(
    messages: Seq<MessageView>,
    safe: Seq<SafeContentsView>,
    ids: Seq<Seq<char>>,
    n: int,
) -> Seq<JsonView>
    decreases n,
{
    if n <= 0 {
        Seq::empty()
    } else {
        let earlier = shown_members(messages, safe, ids, n - 1);
        if ids.contains(messages[n - 1].message_id) {
            earlier.push(safe_json(messages[n - 1], safe_at(safe, n - 1)))
        } else {
            earlier
        }
    }
}

/// Why a group cannot be shown.
pub open spec fn group_fault(
    messages: Seq<MessageView>,
    safe: Seq<SafeContentsView>,
) -> spec_fn(GroupView) -> Option<Fault> {
    |group: GroupView|
        first_index_fault(0, messages.len() as int, member_fault(messages, safe, group.ids))
}

/// A group as it is shown.
pub open spec fn segment_of(
    messages: Seq<MessageView>,
    safe: Seq<SafeContentsView>,
) -> spec_fn(GroupView) -> ContextSegmentView {
    |group: GroupView|
        ContextSegmentView {
            message_ids: group.ids,
            content: JsonView::Array(
                shown_members(messages, safe, group.ids, messages.len() as int),
            ),
        }
}

/// Groups that may be covered.
pub open spec fn unprotected() -> spec_fn(GroupView) -> bool {
    |group: GroupView| !group.protected
}

/// Why the groups of a transcript cannot be shown to a compactor.
pub open spec fn segments_fault(
    messages: Seq<MessageView>,
    safe: Seq<SafeContentsView>,
) -> Option<Fault> {
    or_else(
        groups_fault(messages),
        first_fault(kept(groups_of(messages), unprotected()), group_fault(messages, safe)),
    )
}

/// What a compactor may summarize.
pub open spec fn segments_of(
    messages: Seq<MessageView>,
    safe: Seq<SafeContentsView>,
) -> Seq<ContextSegmentView> {
    kept(groups_of(messages), unprotected()).map_values(segment_of(messages, safe))
}

fn show_group(messages: &Vec<Message>, safe: &Vec<SafeContents>, group: &Group) -> (r: Result<
    ContextSegment,
    ContractError,
>)
    ensures
        failure(r) == group_fault(messages.deep_view(), safe.deep_view())(group@),
        r matches Ok(segment) ==> segment@ == segment_of(messages.deep_view(), safe.deep_view())(
            group@,
        ),
{
    let ghost s = messages.deep_view();
    let ghost given = safe.deep_view();
    let ghost n = s.len() as int;
    let ghost f = member_fault(s, given, group@.ids);
    let none = SafeContents { blocks: Vec::new() };
    assert(none.blocks.deep_view() =~= Seq::<Seq<SafeValueView>>::empty());
    let mut content: Vec<Json> = Vec::new();
    let mut i: usize = 0;
    assert(content.deep_view() =~= Seq::<JsonView>::empty());
    while i < messages.len()
        invariant
            i <= messages.len(),
            s == messages.deep_view(),
            given == safe.deep_view(),
            n == messages.len(),
            f == member_fault(s, given, group@.ids),
            none@ == (SafeContentsView { blocks: Seq::empty() }),
            content.deep_view() == shown_members(s, given, group@.ids, i as int),
            first_index_fault(0, n, f) == first_index_fault(i as int, n, f),
        decreases messages.len() - i,
    {
        assert(s[i as int] == messages@[i as int]@);
        if contains(&group.ids, &messages[i].message_id) {
            assert(given.len() == safe.len());
            let values = if i < safe.len() {
                assert(given[i as int] == safe@[i as int]@);
                &safe[i]
            } else {
                &none
            };
            let json = safe_message(&messages[i], values)?;
            let ghost before = content.deep_view();
            let ghost item = json@;
            content.push(json);
            assert(content.deep_view() =~= before.push(item));
        }
        i = i + 1;
    }
    Ok(ContextSegment { message_ids: group.ids.copy(), content: array(content) })
}

/// List what a compactor may summarize: the unprotected groups of a transcript.
pub fn segments(messages: &Vec<Message>, safe: &Vec<SafeContents>) -> (r: Result<
    Vec<ContextSegment>,
    ContractError,
>)
    ensures
        failure(r) == segments_fault(messages.deep_view(), safe.deep_view()),
        r matches Ok(list) ==> list.deep_view() == segments_of(
            messages.deep_view(),
            safe.deep_view(),
        ),
{
    let found = groups(messages)?;
    let open = |group: &Group| -> (b: bool)
        ensures
            b == unprotected()(group@),
    { !group.protected };
    let free = keep(&found, open, Ghost(unprotected()));
    show_groups(messages, safe, &free)
}

fn show_groups(messages: &Vec<Message>, safe: &Vec<SafeContents>, free: &Vec<Group>) -> (r: Result<
    Vec<ContextSegment>,
    ContractError,
>)
    ensures
        failure(r) == first_fault(
            free.deep_view(),
            group_fault(messages.deep_view(), safe.deep_view()),
        ),
        r matches Ok(list) ==> list.deep_view() == free.deep_view().map_values(
            segment_of(messages.deep_view(), safe.deep_view()),
        ),
{
    let ghost s = free.deep_view();
    let ghost f = group_fault(messages.deep_view(), safe.deep_view());
    let ghost g = segment_of(messages.deep_view(), safe.deep_view());
    let mut out: Vec<ContextSegment> = Vec::new();
    let mut i: usize = 0;
    assert(s.skip(0) =~= s);
    while i < free.len()
        invariant
            i <= free.len(),
            s == free.deep_view(),
            f == group_fault(messages.deep_view(), safe.deep_view()),
            g == segment_of(messages.deep_view(), safe.deep_view()),
            out.deep_view() =~= s.take(i as int).map_values(g),
            first_fault(s, f) == first_fault(s.skip(i as int), f),
        decreases free.len() - i,
    {
        assert(s.skip(i as int)[0] == free@[i as int]@);
        assert(s.skip(i as int).skip(1) =~= s.skip(i + 1));
        let segment = show_group(messages, safe, &free[i])?;
        let ghost before = out.deep_view();
        let ghost item = segment@;
        out.push(segment);
        assert(out.deep_view() =~= before.push(item));
        assert(s.take(i + 1).map_values(g) =~= s.take(i as int).map_values(g).push(g(s[i as int])));
        i = i + 1;
    }
    assert(s.take(i as int) =~= s);
    Ok(out)
}

/// Messages of an identifier.
pub open spec fn identified_by(message_id: Seq<char>) -> spec_fn(MessageView) -> bool {
    |message: MessageView| message.message_id == message_id
}

/// The piece of a result that a preview stands for, among blocks.
pub open spec fn piece_in(
    blocks: Seq<ContentBlockView>,
    call_id: Seq<char>,
    index: usize,
) -> Option<InputContentView>
    decreases blocks.len(),
{
    if blocks.len() == 0 {
        None
    } else if blocks[0] matches ContentBlockView::ToolResult { result } && result.call_id == call_id
        && index < result.content.len() {
        Some(blocks[0]->ToolResult_result.content[index as int])
    } else {
        piece_in(blocks.skip(1), call_id, index)
    }
}

/// The piece of content that a preview stands for.
pub open spec fn original_of(messages: Seq<MessageView>, preview: ContextPreviewView) -> Option<
    InputContentView,
> {
    match first_in(messages, identified_by(preview.message_id)) {
        Some(message) => piece_in(message.content, preview.tool_call_id, preview.content_index),
        None => None,
    }
}

fn find_piece<'a>(blocks: &'a Vec<ContentBlock>, call_id: &Id, index: usize) -> (r: Option<
    &'a InputContent,
>)
    ensures
        r.deep_view() == piece_in(blocks.deep_view(), call_id@, index),
{
    let ghost s = blocks.deep_view();
    let mut i: usize = 0;
    assert(s.skip(0) =~= s);
    while i < blocks.len()
        invariant
            i <= blocks.len(),
            s == blocks.deep_view(),
            piece_in(s, call_id@, index) == piece_in(s.skip(i as int), call_id@, index),
        decreases blocks.len() - i,
    {
        assert(s.skip(i as int)[0] == blocks@[i as int]@);
        assert(s.skip(i as int).skip(1) =~= s.skip(i + 1));
        if let ContentBlock::ToolResult { result } = &blocks[i] {
            assert(result@.content.len() == result.content.len());
            if result.call_id.same(call_id) && index < result.content.len() {
                assert(result@.content[index as int] == result.content@[index as int]@);
                return Some(&result.content[index]);
            }
        }
        i = i + 1;
    }
    None
}

/// Find the piece of content that a preview stands for.
pub fn original_content<'a>(messages: &'a Vec<Message>, preview: &ContextPreview) -> (r: Result<
    &'a InputContent,
    ContractError,
>)
    ensures
        failure(r) == (if original_of(messages.deep_view(), preview@) is None {
            ungrouped("context.preview_source")
        } else {
            None
        }),
        r matches Ok(content) ==> original_of(messages.deep_view(), preview@) == Some(content@),
{
    let same = |message: &Message| -> (b: bool)
        ensures
            b == identified_by(preview@.message_id)(message@),
    { message.message_id.same(&preview.message_id) };
    let piece = match find(messages, same, Ghost(identified_by(preview@.message_id))) {
        Some(message) => find_piece(
            &message.content,
            &preview.tool_call_id,
            preview.content_index,
        ),
        None => None,
    };
    match piece {
        Some(content) => Ok(content),
        None => fail(ErrorCode::InvalidContext, "context.preview_source"),
    }
}

/// Content as it is stored: its text and the type of the stored document.
#[derive(Debug)]
pub struct Payload {
    pub text: String,
    pub media_type: String,
}

#[verifier::ext_equal]
pub struct PayloadView {
    pub text: Seq<char>,
    pub media_type: Seq<char>,
}

impl View for Payload {
    type V = PayloadView;

    open spec fn view(&self) -> PayloadView {
        PayloadView {
            text: self.text.deep_view(),
            media_type: self.media_type.deep_view(),
        }
    }
}

impl DeepView for Payload {
    type V = PayloadView;

    open spec fn deep_view(&self) -> PayloadView {
        self@
    }
}

impl Data for Payload {
    fn same(&self, other: &Self) -> (r: bool) {
        self.text.same(&other.text)
            && self.media_type.same(&other.media_type)
    }

    fn copy(&self) -> (r: Self) {
        Payload {
            text: self.text.copy(),
            media_type: self.media_type.copy(),
        }
    }
}


/// Content as it is stored, if it is stored as a document of its own.
pub open spec fn payload_of(content: InputContentView) -> Option<PayloadView> {
    match content {
        InputContentView::Text { text } => Some(
            PayloadView { text, media_type: "text/plain"@ },
        ),
        InputContentView::Json { value } => Some(
            PayloadView { text: canonical_text(value), media_type: "application/json"@ },
        ),
        _ => None,
    }
}

pub(crate) fn own(text: &str) -> (r: String)
    ensures
        r@ == text@,
{
    let copied = crate::text::concat(text, "");
    proof {
        reveal_strlit("");
    }
    assert(copied@ =~= text@);
    copied
}

/// Content as it is stored, if it is stored as a document of its own.
pub fn payload(content: &InputContent) -> (r: Option<Payload>)
    ensures
        r.deep_view() == payload_of(content@),
{
    match content {
        InputContent::Text { text } => Some(
            Payload { text: text.copy(), media_type: own("text/plain") },
        ),
        InputContent::Json { value } => Some(
            Payload { text: canonical_json(value), media_type: own("application/json") },
        ),
        _ => None,
    }
}

/// Previews of the same piece of content.
pub open spec fn previews_same(preview: ContextPreviewView) -> spec_fn(ContextPreviewView) -> bool {
    |other: ContextPreviewView|
        other.message_id == preview.message_id && other.tool_call_id == preview.tool_call_id
            && other.content_index == preview.content_index
}

/// Why a preview is refused.
pub open spec fn misviewed(path: &str) -> Option<Fault> {
    fault(ErrorCode::InvalidSnapshot, path)
}

/// Why a preview does not stand for what it names.
pub open spec fn preview_fault(
    history: Seq<MessageView>,
    earlier: Seq<ContextPreviewView>,
    preview: ContextPreviewView,
    scope: ScopeView,
    hash: Option<ContentHashView>,
) -> Option<Fault> {
    let original = original_of(history, preview);
    let payload = payload_of(original->0);
    let reference = preview.preview.reference;
    let refused = misviewed("context.preview");
    if original is None {
        ungrouped("context.preview_source")
    } else if payload is None {
        misviewed("context.preview_kind")
    } else if preview.preview.text is None {
        misviewed("context.preview_text")
    } else {
        let whole = payload->0.text;
        let start = preview.preview.text->0;
        let size = encode_utf8(whole).len();
        if some_in(earlier, previews_same(preview)) || preview.original_digest != digest_of(
            content_json(original->0),
        ) || reference.scope != scope || reference.media_type != payload->0.media_type
            || reference.size_bytes != size {
            refused
        } else {
            match hash {
                Some(ContentHashView::Refused { error }) => Some(error),
                Some(ContentHashView::Known { value }) => if reference.content_hash != value
                    || !start.is_prefix_of(whole) || preview.preview.truncated != (encode_utf8(
                    start,
                ).len() < size) {
                    refused
                } else {
                    None
                },
                None => refused,
            }
        }
    }
}

/// The identity of the content at a position, if it was computed.
pub open spec fn hash_at(hashes: Seq<ContentHashView>, i: int) -> Option<ContentHashView> {
    if 0 <= i < hashes.len() {
        Some(hashes[i])
    } else {
        None
    }
}

/// Why the preview at a position is refused.
pub open spec fn preview_fault_at(
    history: Seq<MessageView>,
    previews: Seq<ContextPreviewView>,
    scope: ScopeView,
    hashes: Seq<ContentHashView>,
) -> spec_fn(int) -> Option<Fault> {
    |i: int|
        preview_fault(history, previews.take(i), previews[i], scope, hash_at(hashes, i))
}

/// Why previews are refused.
pub open spec fn previews_fault(
    history: Seq<MessageView>,
    previews: Seq<ContextPreviewView>,
    scope: ScopeView,
    hashes: Seq<ContentHashView>,
) -> Option<Fault> {
    first_index_fault(
        0,
        previews.len() as int,
        preview_fault_at(history, previews, scope, hashes),
    )
}

fn check_preview(
    history: &Vec<Message>,
    previews: &Vec<ContextPreview>,
    scope: &Scope,
    hashes: &Vec<ContentHash>,
    i: usize,
) -> (r: Result<(), ContractError>)
    requires
        i < previews.len(),
    ensures
        failure(r) == preview_fault_at(
            history.deep_view(),
            previews.deep_view(),
            scope@,
            hashes.deep_view(),
        )(i as int),
{
    let preview = &previews[i];
    assert(previews.deep_view()[i as int] == preview@);
    assert(hashes.deep_view().len() == hashes.len());
    let original = original_content(history, preview)?;
    let payload = match payload(original) {
        Some(payload) => payload,
        None => {
            return fail(ErrorCode::InvalidSnapshot, "context.preview_kind");
        },
    };
    let start = match &preview.preview.text {
        Some(start) => start,
        None => {
            return fail(ErrorCode::InvalidSnapshot, "context.preview_text");
        },
    };
    let reference = &preview.preview.reference;
    let size: usize = payload.text.as_str().as_bytes().len();
    let same = |other: &ContextPreview| -> (b: bool)
        ensures
            b == previews_same(preview@)(other@),
    {
        other.message_id.same(&preview.message_id) && other.tool_call_id.same(
            &preview.tool_call_id,
        ) && other.content_index == preview.content_index
    };
    if any_before(previews, i, same, Ghost(previews_same(preview@)))
        || !preview.original_digest.same(&canonical_digest(&encode_content(original)))
        || !reference.scope.same(scope) || !reference.media_type.same(&payload.media_type)
        || reference.size_bytes != size as u64 {
        return fail(ErrorCode::InvalidSnapshot, "context.preview");
    }
    if i >= hashes.len() {
        return fail(ErrorCode::InvalidSnapshot, "context.preview");
    }
    assert(hashes.deep_view()[i as int] == hashes@[i as int]@);
    let hash = match &hashes[i] {
        ContentHash::Known { value } => value,
        ContentHash::Refused { error } => {
            return Err(error.copy());
        },
    };
    let shown: usize = start.as_str().as_bytes().len();
    if !reference.content_hash.same(hash) || !begins_with(payload.text.as_str(), start.as_str())
        || preview.preview.truncated != (shown < size) {
        return fail(ErrorCode::InvalidSnapshot, "context.preview");
    }
    Ok(())
}

/// Hold previews against the transcript. `hashes` holds, for each preview, the identity of the
/// content that it names.
pub fn validate_previews(
    history: &Vec<Message>,
    previews: &Vec<ContextPreview>,
    scope: &Scope,
    hashes: &Vec<ContentHash>,
) -> (r: Result<(), ContractError>)
    ensures
        failure(r) == previews_fault(
            history.deep_view(),
            previews.deep_view(),
            scope@,
            hashes.deep_view(),
        ),
{
    let n: usize = previews.len();
    let check = |i: usize| -> (r: Result<(), ContractError>)
        requires
            i < previews.len(),
        ensures
            failure(r) == preview_fault_at(
                history.deep_view(),
                previews.deep_view(),
                scope@,
                hashes.deep_view(),
            )(i as int),
    { check_preview(history, previews, scope, hashes, i) };
    check_indices(
        n,
        check,
        Ghost(
            preview_fault_at(
                history.deep_view(),
                previews.deep_view(),
                scope@,
                hashes.deep_view(),
            ),
        ),
    )
}

/// Messages among identifiers.
pub open spec fn covered_by(ids: Seq<Seq<char>>) -> spec_fn(MessageView) -> bool {
    |message: MessageView| ids.contains(message.message_id)
}

/// Messages outside identifiers.
pub open spec fn outside(ids: Seq<Seq<char>>) -> spec_fn(MessageView) -> bool {
    |message: MessageView| !ids.contains(message.message_id)
}

/// The identity of the covered messages of a transcript.
pub open spec fn covered_digest_of(messages: Seq<MessageView>, ids: Seq<Seq<char>>) -> Seq<char> {
    digest_of(
        JsonView::Array(
            kept(messages, covered_by(ids)).map_values(|message: MessageView| message.document),
        ),
    )
}

fn keep_covered(messages: &Vec<Message>, ids: &Vec<Id>) -> (r: Vec<Message>)
    ensures
        r.deep_view() == kept(messages.deep_view(), covered_by(ids.deep_view())),
{
    let among = |message: &Message| -> (b: bool)
        ensures
            b == covered_by(ids.deep_view())(message@),
    { contains(ids, &message.message_id) };
    keep(messages, among, Ghost(covered_by(ids.deep_view())))
}

/// Identify the covered messages of a transcript.
pub fn covered_digest(messages: &Vec<Message>, ids: &Vec<Id>) -> (r: JsonDigest)
    ensures
        r@ == covered_digest_of(messages.deep_view(), ids.deep_view()),
{
    let covered = keep_covered(messages, ids);
    let document = |message: &Message| -> (json: Json)
        ensures
            json@ == message@.document,
    { message.document.copy() };
    let documents = map_each(
        &covered,
        document,
        Ghost(|message: MessageView| message.document),
    );
    canonical_digest(&array(documents))
}

/// Content that refers to something outside the conversation.
pub open spec fn is_reference() -> spec_fn(InputContentView) -> bool {
    |content: InputContentView| content is Artifact || content is Evidence
}

/// The content of a block.
pub open spec fn block_items(block: ContentBlockView) -> Seq<InputContentView> {
    match block {
        ContentBlockView::Content { content } => seq![content],
        ContentBlockView::ToolResult { result } => result.content,
        _ => Seq::empty(),
    }
}

/// The references among blocks.
pub open spec fn references_in(blocks: Seq<ContentBlockView>) -> Seq<InputContentView>
    decreases blocks.len(),
{
    if blocks.len() == 0 {
        Seq::empty()
    } else {
        references_in(blocks.drop_last()) + kept(block_items(blocks.last()), is_reference())
    }
}

/// The references among messages.
pub open spec fn references_of(messages: Seq<MessageView>) -> Seq<InputContentView>
    decreases messages.len(),
{
    if messages.len() == 0 {
        Seq::empty()
    } else {
        references_of(messages.drop_last()) + references_in(messages.last().content)
    }
}

/// A list that every item was added to which it did not hold.
pub open spec fn uniques(items: Seq<InputContentView>) -> Seq<InputContentView>
    decreases items.len(),
{
    if items.len() == 0 {
        items
    } else {
        let earlier = uniques(items.drop_last());
        if earlier.contains(items.last()) {
            earlier
        } else {
            earlier.push(items.last())
        }
    }
}

/// Previews of covered messages.
pub open spec fn previews_among(ids: Seq<Seq<char>>) -> spec_fn(ContextPreviewView) -> bool {
    |preview: ContextPreviewView| ids.contains(preview.message_id)
}

/// The reference of a preview.
pub open spec fn preview_item() -> spec_fn(ContextPreviewView) -> InputContentView {
    |preview: ContextPreviewView|
        InputContentView::Artifact { reference: preview.preview.reference }
}

/// The typed references that survive covering: each once, in the order in which they were made.
pub open spec fn anchors_of(
    messages: Seq<MessageView>,
    ids: Seq<Seq<char>>,
    previews: Seq<ContextPreviewView>,
) -> Seq<InputContentView> {
    uniques(
        references_of(kept(messages, covered_by(ids))) + kept(
            previews,
            previews_among(ids),
        ).map_values(preview_item()),
    )
}

fn list_block_items(block: &ContentBlock) -> (r: Vec<InputContent>)
    ensures
        r.deep_view() == block_items(block@),
{
    match block {
        ContentBlock::Content { content } => {
            let mut items: Vec<InputContent> = Vec::new();
            items.push(content.copy());
            assert(items.deep_view() =~= seq![content@]);
            items
        },
        ContentBlock::ToolResult { result } => result.content.copy(),
        _ => {
            let items: Vec<InputContent> = Vec::new();
            assert(items.deep_view() =~= Seq::<InputContentView>::empty());
            items
        },
    }
}

fn list_references_in(blocks: &Vec<ContentBlock>) -> (r: Vec<InputContent>)
    ensures
        r.deep_view() == references_in(blocks.deep_view()),
{
    let ghost s = blocks.deep_view();
    let mut out: Vec<InputContent> = Vec::new();
    let mut i: usize = 0;
    assert(s.take(0) =~= Seq::<ContentBlockView>::empty());
    assert(out.deep_view() =~= Seq::<InputContentView>::empty());
    while i < blocks.len()
        invariant
            i <= blocks.len(),
            s == blocks.deep_view(),
            out.deep_view() == references_in(s.take(i as int)),
        decreases blocks.len() - i,
    {
        assert(s.take(i + 1).drop_last() =~= s.take(i as int));
        assert(s.take(i + 1).last() == blocks@[i as int]@);
        let refers = |content: &InputContent| -> (b: bool)
            ensures
                b == is_reference()(content@),
        {
            match content {
                InputContent::Artifact { .. } => true,
                InputContent::Evidence { .. } => true,
                _ => false,
            }
        };
        let items = keep(&list_block_items(&blocks[i]), refers, Ghost(is_reference()));
        out = joined(&out, &items);
        i = i + 1;
    }
    assert(s.take(i as int) =~= s);
    out
}

fn list_references(messages: &Vec<Message>) -> (r: Vec<InputContent>)
    ensures
        r.deep_view() == references_of(messages.deep_view()),
{
    let ghost s = messages.deep_view();
    let mut out: Vec<InputContent> = Vec::new();
    let mut i: usize = 0;
    assert(s.take(0) =~= Seq::<MessageView>::empty());
    assert(out.deep_view() =~= Seq::<InputContentView>::empty());
    while i < messages.len()
        invariant
            i <= messages.len(),
            s == messages.deep_view(),
            out.deep_view() == references_of(s.take(i as int)),
        decreases messages.len() - i,
    {
        assert(s.take(i + 1).drop_last() =~= s.take(i as int));
        assert(s.take(i + 1).last() == messages@[i as int]@);
        out = joined(&out, &list_references_in(&messages[i].content));
        i = i + 1;
    }
    assert(s.take(i as int) =~= s);
    out
}

fn keep_uniques(items: &Vec<InputContent>) -> (r: Vec<InputContent>)
    ensures
        r.deep_view() == uniques(items.deep_view()),
{
    let ghost s = items.deep_view();
    let mut out: Vec<InputContent> = Vec::new();
    let mut i: usize = 0;
    assert(s.take(0) =~= Seq::<InputContentView>::empty());
    assert(out.deep_view() =~= Seq::<InputContentView>::empty());
    while i < items.len()
        invariant
            i <= items.len(),
            s == items.deep_view(),
            out.deep_view() == uniques(s.take(i as int)),
        decreases items.len() - i,
    {
        assert(s.take(i + 1).drop_last() =~= s.take(i as int));
        assert(s.take(i + 1).last() == items@[i as int]@);
        if !contains(&out, &items[i]) {
            let ghost before = out.deep_view();
            out.push(items[i].copy());
            assert(out.deep_view() =~= before.push(s[i as int]));
        }
        i = i + 1;
    }
    assert(s.take(i as int) =~= s);
    out
}

/// Collect the typed references that survive covering.
pub fn anchors(messages: &Vec<Message>, ids: &Vec<Id>, previews: &Vec<ContextPreview>) -> (r: Vec<
    InputContent,
>)
    ensures
        r.deep_view() == anchors_of(messages.deep_view(), ids.deep_view(), previews.deep_view()),
{
    let found = list_references(&keep_covered(messages, ids));
    let among = |preview: &ContextPreview| -> (b: bool)
        ensures
            b == previews_among(ids.deep_view())(preview@),
    { contains(ids, &preview.message_id) };
    let covered = keep(previews, among, Ghost(previews_among(ids.deep_view())));
    let item = |preview: &ContextPreview| -> (content: InputContent)
        ensures
            content@ == preview_item()(preview@),
    { InputContent::Artifact { reference: preview.preview.reference.copy() } };
    let shown = map_each(&covered, item, Ghost(preview_item()));
    keep_uniques(&joined(&found, &shown))
}

/// Previews of a piece of a result.
pub open spec fn previews_piece(message_id: Seq<char>, call_id: Seq<char>, index: int) -> spec_fn(
    ContextPreviewView,
) -> bool {
    |preview: ContextPreviewView|
        preview.message_id == message_id && preview.tool_call_id == call_id
            && preview.content_index == index
}

/// What the model sees of previewed text.
pub open spec fn preview_json(text: Seq<char>, truncated: bool) -> JsonView {
    JsonView::Object(
        seq![
            MemberView { key: "kind"@, value: JsonView::Text("artifact_preview"@) },
            MemberView { key: "text"@, value: JsonView::Text(text) },
            MemberView { key: "truncated"@, value: JsonView::Bool(truncated) },
        ],
    )
}

/// What the model sees of a piece of a result.
pub open spec fn piece_shown(
    message_id: Seq<char>,
    result: ToolResultView,
    index: int,
    previews: Seq<ContextPreviewView>,
) -> Seq<InputContentView> {
    match first_in(previews, previews_piece(message_id, result.call_id, index)) {
        None => seq![result.content[index]],
        Some(preview) => {
            let reference = InputContentView::Artifact { reference: preview.preview.reference };
            match preview.preview.text {
                None => seq![reference],
                Some(text) => seq![
                    reference,
                    InputContentView::Json {
                        value: preview_json(text, preview.preview.truncated),
                    },
                ],
            }
        },
    }
}

/// What the model sees of the first pieces of a result.
pub open spec fn pieces_shown(
    message_id: Seq<char>,
    result: ToolResultView,
    n: int,
    previews: Seq<ContextPreviewView>,
) -> Seq<InputContentView>
    decreases n,
{
    if n <= 0 {
        Seq::empty()
    } else {
        pieces_shown(message_id, result, n - 1, previews) + piece_shown(
            message_id,
            result,
            n - 1,
            previews,
        )
    }
}

/// A block as the model sees it.
pub open spec fn shown_block(
    message_id: Seq<char>,
    previews: Seq<ContextPreviewView>,
) -> spec_fn(ContentBlockView) -> ContentBlockView {
    |block: ContentBlockView|
        match block {
            ContentBlockView::ToolResult { result } => ContentBlockView::ToolResult {
                result: ToolResultView {
                    content: pieces_shown(
                        message_id,
                        result,
                        result.content.len() as int,
                        previews,
                    ),
                    ..result
                },
            },
            _ => block,
        }
}

/// A message as the model sees it.
pub open spec fn shown_message(previews: Seq<ContextPreviewView>) -> spec_fn(
    MessageView,
) -> MessageView {
    |message: MessageView|
        MessageView {
            content: message.content.map_values(shown_block(message.message_id, previews)),
            ..message
        }
}

/// A transcript as the model sees it: without what is covered, and with previews in place of what
/// they stand for.
pub open spec fn transformed(
    messages: Seq<MessageView>,
    covered: Seq<Seq<char>>,
    previews: Seq<ContextPreviewView>,
) -> Seq<MessageView> {
    kept(messages, outside(covered)).map_values(shown_message(previews))
}

fn encode_preview(shown: &str, truncated: bool) -> (r: Json)
    ensures
        r@ == preview_json(shown@, truncated),
{
    let members = no_members();
    let members = with_member(members, "kind", text("artifact_preview"));
    let members = with_member(members, "text", text(shown));
    let members = with_member(members, "truncated", Json::Bool(truncated));
    assert(members.deep_view() =~= preview_json(shown@, truncated)->Object_0);
    object(members)
}

fn show_piece(message_id: &Id, result: &ToolResult, index: usize, previews: &Vec<ContextPreview>)
    -> (r: Vec<InputContent>)
    requires
        index < result.content.len(),
    ensures
        r.deep_view() == piece_shown(message_id@, result@, index as int, previews.deep_view()),
{
    let mut out: Vec<InputContent> = Vec::new();
    let same = |preview: &ContextPreview| -> (b: bool)
        ensures
            b == previews_piece(message_id@, result@.call_id, index as int)(preview@),
    {
        preview.message_id.same(message_id) && preview.tool_call_id.same(&result.call_id)
            && preview.content_index == index
    };
    match find(
        previews,
        same,
        Ghost(previews_piece(message_id@, result@.call_id, index as int)),
    ) {
        None => {
            assert(result@.content[index as int] == result.content@[index as int]@);
            out.push(result.content[index].copy());
            assert(out.deep_view() =~= seq![result@.content[index as int]]);
        },
        Some(preview) => {
            out.push(InputContent::Artifact { reference: preview.preview.reference.copy() });
            assert(out.deep_view() =~= seq![
                InputContentView::Artifact { reference: preview@.preview.reference },
            ]);
            if let Some(shown) = &preview.preview.text {
                let value = encode_preview(shown.as_str(), preview.preview.truncated);
                let ghost item = InputContentView::Json { value: value@ };
                out.push(InputContent::Json { value });
                assert(out.deep_view() =~= seq![
                    InputContentView::Artifact { reference: preview@.preview.reference },
                    item,
                ]);
            }
        },
    }
    out
}

fn show_tool_result(message_id: &Id, result: &ToolResult, previews: &Vec<ContextPreview>) -> (r:
    ToolResult)
    ensures
        r@ == (ToolResultView {
            content: pieces_shown(
                message_id@,
                result@,
                result@.content.len() as int,
                previews.deep_view(),
            ),
            ..result@
        }),
{
    let mut content: Vec<InputContent> = Vec::new();
    let mut i: usize = 0;
    assert(content.deep_view() =~= Seq::<InputContentView>::empty());
    while i < result.content.len()
        invariant
            i <= result.content.len(),
            content.deep_view() == pieces_shown(
                message_id@,
                result@,
                i as int,
                previews.deep_view(),
            ),
        decreases result.content.len() - i,
    {
        content = joined(&content, &show_piece(message_id, result, i, previews));
        i = i + 1;
    }
    let mut shown = result.copy();
    shown.content = content;
    assert(result@.content.len() == result.content.len());
    shown
}

/// Give a transcript as the model sees it.
pub fn transform(messages: &Vec<Message>, covered: &Vec<Id>, previews: &Vec<ContextPreview>) -> (r:
    Vec<Message>)
    ensures
        r.deep_view() == transformed(
            messages.deep_view(),
            covered.deep_view(),
            previews.deep_view(),
        ),
{
    let outside_of = |message: &Message| -> (b: bool)
        ensures
            b == outside(covered.deep_view())(message@),
    { !contains(covered, &message.message_id) };
    let visible = keep(messages, outside_of, Ghost(outside(covered.deep_view())));
    let show = |message: &Message| -> (shown: Message)
        ensures
            shown@ == shown_message(previews.deep_view())(message@),
    { show_whole(message, previews) };
    map_each(&visible, show, Ghost(shown_message(previews.deep_view())))
}

fn show_whole(message: &Message, previews: &Vec<ContextPreview>) -> (r: Message)
    ensures
        r@ == shown_message(previews.deep_view())(message@),
{
    let id = &message.message_id;
    let show_one = |block: &ContentBlock| -> (shown: ContentBlock)
        ensures
            shown@ == shown_block(id@, previews.deep_view())(block@),
    {
        match block {
            ContentBlock::ToolResult { result } => ContentBlock::ToolResult {
                result: show_tool_result(id, result, previews),
            },
            _ => block.copy(),
        }
    };
    let content = map_each(
        &message.content,
        show_one,
        Ghost(shown_block(id@, previews.deep_view())),
    );
    let mut shown = message.copy();
    shown.content = content;
    shown
}

/// Give a transcript as the model sees it under the current revision, if there is one.
pub fn apply(messages: &Vec<Message>, revision: Option<&ContextRevision>) -> (r: Vec<Message>)
    ensures
        r.deep_view() == (match revision.deep_view() {
            None => messages.deep_view(),
            Some(revision) => transformed(
                messages.deep_view(),
                revision.covered_message_ids,
                revision.previews,
            ),
        }),
{
    match revision {
        None => messages.copy(),
        Some(revision) => transform(messages, &revision.covered_message_ids, &revision.previews),
    }
}

/// What the model reads of a summary.
pub open spec fn summary_json(through_sequence: u64, summary: Seq<char>) -> JsonView {
    JsonView::Object(
        seq![
            MemberView { key: "kind"@, value: JsonView::Text("conversation_summary"@) },
            MemberView {
                key: "source_snapshot_sequence"@,
                value: JsonView::Number(decimal_text(through_sequence as nat)),
            },
            MemberView { key: "summary"@, value: JsonView::Text(summary) },
        ],
    )
}

/// The identifier of the context item of a summary.
pub open spec fn summary_id(revision: ContextRevisionView, summary: Seq<char>) -> Seq<char> {
    "summary-"@ + digest_of(
        JsonView::Array(
            seq![
                JsonView::Text(revision.session_id),
                JsonView::Text(revision.covered_digest),
                JsonView::Text(summary),
            ],
        ),
    )
}

/// The context item of a revision.
pub open spec fn revision_item(revision: ContextRevisionView, plan: ContextPlanView) -> Option<
    ContextItemView,
> {
    match revision.summary {
        None => None,
        Some(summary) => Some(
            item_of(
                summary_id(revision, summary),
                ContextOrigin::Compaction,
                plan.strategy,
                revision.scope,
                seq![
                    InputContentView::Json {
                        value: summary_json(revision.through_sequence, summary),
                    },
                ] + revision.anchors,
                ContextLifetimeView::Session { session_id: revision.session_id },
                ContextPriority::Required,
            ),
        ),
    }
}

/// Messages up to a sequence number.
pub open spec fn up_to(sequence: u64) -> spec_fn(MessageView) -> bool {
    |message: MessageView| message.sequence <= sequence
}

/// Why a revision is not the one that its record, plan and session call for.
pub open spec fn revision_identity_fault(
    record: ProtectedRecordView,
    revision: ContextRevisionView,
    plan: ContextPlanView,
    scope: ScopeView,
    session_id: Seq<char>,
) -> Option<Fault> {
    if record.reference.digest != revision.digest || !(revision.schema_version
        == "wickle.context-revision.v1"@ || revision.schema_version
        == "wickle.context-revision.v2"@) || revision.scope != scope || revision.session_id
        != session_id || revision.plan_ref.digest != plan.digest || plan.scope != revision.scope
        || revision.after_bytes >= revision.before_bytes || revision.after_tokens
        > revision.before_tokens || revision.before_bytes > plan.limits.max_prepared_bytes {
        misviewed("context.revision_identity")
    } else {
        None
    }
}

/// Why a summary is refused.
pub open spec fn summary_fault(revision: ContextRevisionView, plan: ContextPlanView) -> Option<
    Fault,
> {
    if (revision.summary matches Some(summary) && (blank(summary) || encode_utf8(summary).len()
        > plan.limits.max_summary_bytes)) || (revision.covered_message_ids.len() > 0
        && revision.summary is None) {
        misviewed("context.summary")
    } else {
        None
    }
}

/// Why a revision cannot be restored.
pub open spec fn revision_fault(
    record: ProtectedRecordView,
    plan: ContextPlanView,
    scope: ScopeView,
    session_id: Seq<char>,
    messages: Seq<MessageView>,
    hashes: Seq<ContentHashView>,
) -> Option<Fault> {
    match ContextRevision::reading(record.content) {
        None => misviewed("context.revision"),
        Some(revision) => {
            let history = kept(messages, up_to(revision.through_sequence));
            let ends = final_of(history) matches Some(message) && message.sequence
                == revision.through_sequence;
            if revision_identity_fault(record, revision, plan, scope, session_id) is Some {
                revision_identity_fault(record, revision, plan, scope, session_id)
            } else if !ends {
                misviewed("context.through_sequence")
            } else if selection_fault(history, revision.covered_message_ids) is Some {
                selection_fault(history, revision.covered_message_ids)
            } else if covered_digest_of(history, revision.covered_message_ids)
                != revision.covered_digest || anchors_of(
                history,
                revision.covered_message_ids,
                revision.previews,
            ) != revision.anchors {
                misviewed("context.covered_data")
            } else if summary_fault(revision, plan) is Some {
                summary_fault(revision, plan)
            } else {
                previews_fault(history, revision.previews, scope, hashes)
            }
        },
    }
}

impl ContextRevision {
    /// Original message identities represented by the cumulative summary.
    pub fn covered_message_ids(&self) -> (r: &Vec<Id>)
        ensures
            r.deep_view() == self@.covered_message_ids,
    {
        &self.covered_message_ids
    }

    /// Exact source batches represented by the covered conversation.
    pub fn source_lineage(&self) -> (r: &Vec<ContextLineage>)
        ensures
            r.deep_view() == self@.source_lineage,
    {
        &self.source_lineage
    }

    /// Stored complete summary, never substituted for system instructions.
    pub fn summary(&self) -> (r: Option<&str>)
        ensures
            match r {
                Some(text) => self@.summary == Some(text@),
                None => self@.summary is None,
            },
    {
        match &self.summary {
            Some(text) => Some(text.as_str()),
            None => None,
        }
    }

    /// Immutable artifact previews selected for the model view.
    pub fn previews(&self) -> (r: &Vec<ContextPreview>)
        ensures
            r.deep_view() == self@.previews,
    {
        &self.previews
    }

    /// Context item for the summary and its mechanically preserved typed references.
    pub fn item(&self, plan: &ContextPlan) -> (r: Option<ContextItem>)
        ensures
            r.deep_view() == revision_item(self@, plan@),
    {
        let summary = match &self.summary {
            Some(summary) => summary,
            None => {
                return None;
            },
        };
        let members = no_members();
        let members = with_member(members, "kind", text("conversation_summary"));
        let members = with_member(
            members,
            "source_snapshot_sequence",
            number(self.through_sequence),
        );
        let members = with_member(members, "summary", text(summary.as_str()));
        assert(members.deep_view() =~= summary_json(
            self@.through_sequence,
            summary@,
        )->Object_0);
        let mut first: Vec<InputContent> = Vec::new();
        first.push(InputContent::Json { value: object(members) });
        assert(first.deep_view() =~= seq![
            InputContentView::Json { value: summary_json(self@.through_sequence, summary@) },
        ]);
        let mut parts: Vec<Json> = Vec::new();
        parts.push(text(self.session_id.as_str()));
        parts.push(text(self.covered_digest.as_str()));
        parts.push(text(summary.as_str()));
        assert(parts.deep_view() =~= seq![
            JsonView::Text(self@.session_id),
            JsonView::Text(self@.covered_digest),
            JsonView::Text(summary@),
        ]);
        let digest = canonical_digest(&array(parts));
        proof {
            reveal_strlit("summary-");
            assert(!white_space("summary-"@[0]));
        }
        Some(
            ContextItem::new(
                Id::prefixed("summary-", digest.as_str()),
                ContextOrigin::Compaction,
                plan.strategy.copy(),
                self.scope.copy(),
                joined(&first, &self.anchors),
                ContextLifetime::Session { session_id: self.session_id.copy() },
                ContextPriority::Required,
            ),
        )
    }

    /// Restore a protected revision against its exact plan and original session transcript.
    pub fn restore(
        record: &ProtectedRecord,
        plan: &ContextPlan,
        scope: &Scope,
        session_id: &Id,
        messages: &Vec<Message>,
        hashes: &Vec<ContentHash>,
    ) -> (r: Result<Self, ContractError>)
        ensures
            failure(r) == revision_fault(
                record@,
                plan@,
                scope@,
                session_id@,
                messages.deep_view(),
                hashes.deep_view(),
            ),
            r matches Ok(revision) ==> ContextRevision::reading(record@.content) == Some(revision@),
    {
        let revision = match ContextRevision::read(record.content()) {
            Some(revision) => revision,
            None => {
                return fail(ErrorCode::InvalidSnapshot, "context.revision");
            },
        };
        if !record.reference().digest.same(&revision.digest) || !(reads(
            &revision.schema_version,
            "wickle.context-revision.v1",
        ) || reads(&revision.schema_version, "wickle.context-revision.v2"))
            || !revision.scope.same(scope) || !revision.session_id.same(session_id)
            || !revision.plan_ref.digest.same(&plan.digest) || !plan.scope.same(&revision.scope)
            || revision.after_bytes >= revision.before_bytes || revision.after_tokens
            > revision.before_tokens || revision.before_bytes > plan.limits.max_prepared_bytes {
            return fail(ErrorCode::InvalidSnapshot, "context.revision_identity");
        }
        let through: u64 = revision.through_sequence;
        let early = |message: &Message| -> (b: bool)
            ensures
                b == up_to(through)(message@),
        { message.sequence <= through };
        let history = keep(messages, early, Ghost(up_to(through)));
        let ends = match last(&history) {
            Some(message) => message.sequence == through,
            None => false,
        };
        if !ends {
            return fail(ErrorCode::InvalidSnapshot, "context.through_sequence");
        }
        validate_selection(&history, &revision.covered_message_ids)?;
        if !covered_digest(&history, &revision.covered_message_ids).same(&revision.covered_digest)
            || !anchors(&history, &revision.covered_message_ids, &revision.previews).same(
            &revision.anchors,
        ) {
            return fail(ErrorCode::InvalidSnapshot, "context.covered_data");
        }
        let is_unfit = match &revision.summary {
            Some(summary) => is_blank(summary.as_str()) || summary.as_str().as_bytes().len() as u64
                > plan.limits.max_summary_bytes,
            None => revision.covered_message_ids.len() > 0,
        };
        assert(revision@.covered_message_ids.len() == revision.covered_message_ids.len());
        if is_unfit {
            return fail(ErrorCode::InvalidSnapshot, "context.summary");
        }
        validate_previews(&history, &revision.previews, scope, hashes)?;
        Ok(revision.copy())
    }
}

/// The view of the model leaves out exactly the covered messages: what is left keeps its order, its
/// identity and its role, and every covered message is gone.
pub proof fn law_only_covered_messages_disappear(
    messages: Seq<MessageView>,
    covered: Seq<Seq<char>>,
    previews: Seq<ContextPreviewView>,
)
    ensures
        ({
            let left = kept(messages, outside(covered));
            let shown = transformed(messages, covered, previews);
            &&& shown.len() == left.len()
            &&& forall|i: int|
                0 <= i < shown.len() ==> (#[trigger] shown[i]).message_id == left[i].message_id
                    && shown[i].sequence == left[i].sequence && shown[i].role == left[i].role
                    && !covered.contains(shown[i].message_id)
            &&& forall|i: int|
                0 <= i < messages.len() && !covered.contains((#[trigger] messages[i]).message_id)
                    ==> left.contains(messages[i])
        }),
{
    let left = kept(messages, outside(covered));
    lemma_kept(messages, outside(covered));
    assert forall|i: int| 0 <= i < left.len() implies outside(covered)(#[trigger] left[i]) by {
        assert(left.contains(left[i]));
    }
}

/// Without a revision, the model sees the whole transcript; a revision that covers nothing and
/// previews nothing changes no message identity.
pub proof fn law_nothing_covered_nothing_lost(messages: Seq<MessageView>)
    ensures
        kept(messages, outside(Seq::empty())) == messages,
    decreases messages.len(),
{
    if messages.len() > 0 {
        law_nothing_covered_nothing_lost(messages.skip(1));
        assert(seq![messages[0]] + messages.skip(1) =~= messages);
        assert(kept(messages, outside(Seq::empty())) =~= messages);
    } else {
        assert(kept(messages, outside(Seq::empty())) =~= messages);
    }
}

/// A compactor is shown exactly the unprotected groups: none that is protected, and every other.
pub proof fn law_protected_groups_are_not_shown(
    messages: Seq<MessageView>,
    safe: Seq<SafeContentsView>,
    ids: Seq<Seq<char>>,
)
    ensures
        (exists|s: int|
            0 <= s < segments_of(messages, safe).len() && (
            #[trigger] segments_of(messages, safe)[s]).message_ids == ids) <==> exists|g: int|
            0 <= g < groups_of(messages).len() && (#[trigger] groups_of(messages)[g]).ids == ids
                && !groups_of(messages)[g].protected,
{
    let all = groups_of(messages);
    let free = kept(all, unprotected());
    let shown = segments_of(messages, safe);
    lemma_kept(all, unprotected());
    if exists|s: int| 0 <= s < shown.len() && (#[trigger] shown[s]).message_ids == ids {
        let s = choose|s: int| 0 <= s < shown.len() && (#[trigger] shown[s]).message_ids == ids;
        assert(free.contains(free[s]));
        let g = choose|g: int| 0 <= g < all.len() && all[g] == free[s];
        assert(unprotected()(free[s]));
        assert(all[g].ids == ids);
    }
    if exists|g: int| 0 <= g < all.len() && (#[trigger] all[g]).ids == ids && !all[g].protected {
        let g = choose|g: int|
            0 <= g < all.len() && (#[trigger] all[g]).ids == ids && !all[g].protected;
        assert(unprotected()(all[g]));
        assert(free.contains(all[g]));
        let s = choose|s: int| 0 <= s < free.len() && free[s] == all[g];
        assert(shown[s].message_ids == ids);
    }
}

proof fn lemma_uniques(items: Seq<InputContentView>)
    ensures
        distinct(uniques(items)),
        forall|x: InputContentView| #[trigger] uniques(items).contains(x) <==> items.contains(x),
    decreases items.len(),
{
    if items.len() > 0 {
        let front = items.drop_last();
        let last = items.last();
        let earlier = uniques(front);
        let all = uniques(items);
        lemma_uniques(front);
        assert forall|x: InputContentView| #[trigger] all.contains(x) <==> items.contains(x) by {
            if items.contains(x) {
                let k = choose|k: int| 0 <= k < items.len() && items[k] == x;
                if k < front.len() {
                    assert(front[k] == x);
                    assert(earlier.contains(x));
                    let e = choose|e: int| 0 <= e < earlier.len() && earlier[e] == x;
                    assert(all[e] == x);
                } else if !earlier.contains(last) {
                    assert(all[earlier.len() as int] == x);
                }
            }
            if all.contains(x) {
                let k = choose|k: int| 0 <= k < all.len() && all[k] == x;
                if k < earlier.len() {
                    assert(earlier[k] == x);
                    assert(earlier.contains(x));
                    let e = choose|e: int| 0 <= e < front.len() && front[e] == x;
                    assert(items[e] == x);
                } else {
                    assert(items[items.len() - 1] == x);
                }
            }
        }
        if !earlier.contains(last) {
            assert forall|i: int, j: int| 0 <= i < j < all.len() implies all[i] != all[j] by {
                if j == earlier.len() {
                    assert(earlier.contains(earlier[i]));
                } else {
                    assert(earlier[i] != earlier[j]);
                }
            }
        }
    }
}

proof fn lemma_block_reference(blocks: Seq<ContentBlockView>, b: int, x: InputContentView)
    requires
        0 <= b < blocks.len(),
        block_items(blocks[b]).contains(x),
        x is Artifact || x is Evidence,
    ensures
        references_in(blocks).contains(x),
    decreases blocks.len(),
{
    let front = references_in(blocks.drop_last());
    let back = kept(block_items(blocks.last()), is_reference());
    if b == blocks.len() - 1 {
        lemma_kept(block_items(blocks.last()), is_reference());
        assert(back.contains(x));
        let k = choose|k: int| 0 <= k < back.len() && back[k] == x;
        assert((front + back)[front.len() + k] == x);
    } else {
        assert(blocks.drop_last()[b] == blocks[b]);
        lemma_block_reference(blocks.drop_last(), b, x);
        let k = choose|k: int| 0 <= k < front.len() && front[k] == x;
        assert((front + back)[k] == x);
    }
}

proof fn lemma_reference(messages: Seq<MessageView>, m: int, b: int, x: InputContentView)
    requires
        0 <= m < messages.len(),
        0 <= b < messages[m].content.len(),
        block_items(messages[m].content[b]).contains(x),
        x is Artifact || x is Evidence,
    ensures
        references_of(messages).contains(x),
    decreases messages.len(),
{
    let front = references_of(messages.drop_last());
    let back = references_in(messages.last().content);
    if m == messages.len() - 1 {
        lemma_block_reference(messages.last().content, b, x);
        let k = choose|k: int| 0 <= k < back.len() && back[k] == x;
        assert((front + back)[front.len() + k] == x);
    } else {
        assert(messages.drop_last()[m] == messages[m]);
        lemma_reference(messages.drop_last(), m, b, x);
        let k = choose|k: int| 0 <= k < front.len() && front[k] == x;
        assert((front + back)[k] == x);
    }
}

/// Covering loses no reference: every artifact and every piece of evidence that a covered message
/// shows, said or reported by a tool, and every artifact that a covered preview stands in for, is
/// among the anchors, and none is there twice.
pub proof fn law_references_survive_covering(
    messages: Seq<MessageView>,
    ids: Seq<Seq<char>>,
    previews: Seq<ContextPreviewView>,
    m: int,
    b: int,
    x: InputContentView,
    p: int,
)
    ensures
        distinct(anchors_of(messages, ids, previews)),
        0 <= m < messages.len() && 0 <= b < messages[m].content.len() && ids.contains(
            messages[m].message_id,
        ) && (x is Artifact || x is Evidence) && (match messages[m].content[b] {
            ContentBlockView::Content { content } => content == x,
            ContentBlockView::ToolResult { result } => result.content.contains(x),
            _ => false,
        }) ==> anchors_of(messages, ids, previews).contains(x),
        0 <= p < previews.len() && ids.contains(previews[p].message_id) ==> anchors_of(
            messages,
            ids,
            previews,
        ).contains(InputContentView::Artifact { reference: previews[p].preview.reference }),
{
    let covered = kept(messages, covered_by(ids));
    let found = references_of(covered);
    let among = kept(previews, previews_among(ids));
    let stood = among.map_values(preview_item());
    let all = found + stood;
    lemma_kept(messages, covered_by(ids));
    lemma_kept(previews, previews_among(ids));
    lemma_uniques(all);
    if 0 <= m < messages.len() && 0 <= b < messages[m].content.len() && ids.contains(
        messages[m].message_id,
    ) && (x is Artifact || x is Evidence) && (match messages[m].content[b] {
        ContentBlockView::Content { content } => content == x,
        ContentBlockView::ToolResult { result } => result.content.contains(x),
        _ => false,
    }) {
        assert(covered_by(ids)(messages[m]));
        assert(covered.contains(messages[m]));
        let c = choose|c: int| 0 <= c < covered.len() && covered[c] == messages[m];
        assert(block_items(messages[m].content[b]).contains(x)) by {
            if messages[m].content[b] is Content {
                assert(block_items(messages[m].content[b])[0] == x);
            }
        }
        lemma_reference(covered, c, b, x);
        let k = choose|k: int| 0 <= k < found.len() && found[k] == x;
        assert(all[k] == x);
    }
    if 0 <= p < previews.len() && ids.contains(previews[p].message_id) {
        let item = InputContentView::Artifact { reference: previews[p].preview.reference };
        assert(previews_among(ids)(previews[p]));
        assert(among.contains(previews[p]));
        let k = choose|k: int| 0 <= k < among.len() && among[k] == previews[p];
        assert(stood[k] == item);
        assert(all[found.len() + k] == item);
    }
}

/// What is not previewed is shown as it is; a previewed piece is shown as its artifact, with its text
/// where there is one. Nothing else of a message changes.
pub proof fn law_only_previewed_pieces_change(
    message: MessageView,
    previews: Seq<ContextPreviewView>,
    b: int,
    index: int,
)
    requires
        0 <= b < message.content.len(),
    ensures
        ({
            let seen = shown_message(previews)(message);
            &&& seen.content.len() == message.content.len()
            &&& seen == (MessageView { content: seen.content, ..message })
            &&& !(message.content[b] is ToolResult) ==> seen.content[b] == message.content[b]
            &&& message.content[b] matches ContentBlockView::ToolResult { result } ==> {
                &&& seen.content[b] is ToolResult
                &&& seen.content[b]->ToolResult_result == (ToolResultView {
                    content: seen.content[b]->ToolResult_result.content,
                    ..result
                })
                &&& (forall|p: int|
                    0 <= p < previews.len() ==> (#[trigger] previews[p]).message_id
                        != message.message_id || previews[p].tool_call_id != result.call_id)
                    ==> seen.content[b] == message.content[b]
            }
        }),
{
    if message.content[b] is ToolResult {
        let result = message.content[b]->ToolResult_result;
        if forall|p: int|
            0 <= p < previews.len() ==> (#[trigger] previews[p]).message_id != message.message_id
                || previews[p].tool_call_id != result.call_id {
            lemma_pieces_stay(
                message.message_id,
                result,
                result.content.len() as int,
                previews,
            );
            assert(result.content.take(result.content.len() as int) =~= result.content);
        }
    }
}

proof fn lemma_pieces_stay(
    message_id: Seq<char>,
    result: ToolResultView,
    n: int,
    previews: Seq<ContextPreviewView>,
)
    requires
        0 <= n <= result.content.len(),
        forall|p: int|
            0 <= p < previews.len() ==> (#[trigger] previews[p]).message_id != message_id
                || previews[p].tool_call_id != result.call_id,
    ensures
        pieces_shown(message_id, result, n, previews) == result.content.take(n),
    decreases n,
{
    if n > 0 {
        lemma_pieces_stay(message_id, result, n - 1, previews);
        let q = previews_piece(message_id, result.call_id, n - 1);
        lemma_first_in(previews, q);
        if some_in(previews, q) {
            let p = choose|p: int| 0 <= p < previews.len() && q(#[trigger] previews[p]);
            assert(previews[p].message_id == message_id);
        }
        assert(result.content.take(n) =~= result.content.take(n - 1) + seq![result.content[n - 1]]);
    } else {
        assert(result.content.take(0) =~= Seq::<InputContentView>::empty());
    }
}

/// A revision that is restored makes its context smaller, covers only what may be covered, and says
/// what it covers: with a summary of its own that is not blank and within its bound.
pub proof fn law_restored_revisions_are_sound(
    record: ProtectedRecordView,
    plan: ContextPlanView,
    scope: ScopeView,
    session_id: Seq<char>,
    messages: Seq<MessageView>,
    hashes: Seq<ContentHashView>,
)
    requires
        revision_fault(record, plan, scope, session_id, messages, hashes) is None,
    ensures
        ContextRevision::reading(record.content) matches Some(revision) && {
            let history = kept(messages, up_to(revision.through_sequence));
            &&& revision.after_bytes < revision.before_bytes
            &&& revision.after_tokens <= revision.before_tokens
            &&& revision.before_bytes <= plan.limits.max_prepared_bytes
            &&& revision.scope == scope
            &&& revision.session_id == session_id
            &&& revision.plan_ref.digest == plan.digest
            &&& record.reference.digest == revision.digest
            &&& history.len() > 0 && history.last().sequence == revision.through_sequence
            &&& forall|i: int|
                0 <= i < messages.len() ==> (history.contains(#[trigger] messages[i])
                    <==> messages[i].sequence <= revision.through_sequence)
            &&& selection_fault(history, revision.covered_message_ids) is None
            &&& revision.covered_message_ids.len() > 0 ==> revision.summary is Some
            &&& revision.summary matches Some(summary) ==> !blank(summary) && encode_utf8(
                summary,
            ).len() <= plan.limits.max_summary_bytes
            &&& revision.anchors == anchors_of(
                history,
                revision.covered_message_ids,
                revision.previews,
            )
            &&& revision.covered_digest == covered_digest_of(history, revision.covered_message_ids)
        },
{
    let revision = ContextRevision::reading(record.content)->Some_0;
    lemma_kept(messages, up_to(revision.through_sequence));
    assert forall|i: int| 0 <= i < messages.len() implies (kept(
        messages,
        up_to(revision.through_sequence),
    ).contains(#[trigger] messages[i]) <==> messages[i].sequence <= revision.through_sequence) by {
        assert(up_to(revision.through_sequence)(messages[i]) == (messages[i].sequence
            <= revision.through_sequence));
    }
}

/// A preview that is accepted stands for a piece of a result: it is stored whole, with its size, type
/// and hash, and what is shown of it is how it begins, cut short exactly where it says so.
pub proof fn law_previews_begin_like_their_original(
    history: Seq<MessageView>,
    earlier: Seq<ContextPreviewView>,
    preview: ContextPreviewView,
    scope: ScopeView,
    hash: Option<ContentHashView>,
)
    requires
        preview_fault(history, earlier, preview, scope, hash) is None,
    ensures
        original_of(history, preview) is Some,
        payload_of(original_of(history, preview)->Some_0) matches Some(payload) && {
            &&& preview.preview.text matches Some(start) && start.is_prefix_of(payload.text) && (
            preview.preview.truncated <==> encode_utf8(start).len() < encode_utf8(
                payload.text,
            ).len())
            &&& preview.preview.reference.size_bytes == encode_utf8(payload.text).len()
            &&& preview.preview.reference.media_type == payload.media_type
            &&& preview.preview.reference.scope == scope
            &&& hash == Some(
                ContentHashView::Known { value: preview.preview.reference.content_hash },
            )
        },
        forall|i: int|
            0 <= i < earlier.len() ==> (#[trigger] earlier[i]).message_id != preview.message_id
                || earlier[i].tool_call_id != preview.tool_call_id || earlier[i].content_index
                != preview.content_index,
{
    let p = previews_same(preview);
    assert forall|i: int| 0 <= i < earlier.len() implies (#[trigger] earlier[i]).message_id
        != preview.message_id || earlier[i].tool_call_id != preview.tool_call_id
        || earlier[i].content_index != preview.content_index by {
        assert(!p(earlier[i]));
    }
}

/// The context item of a summary is required, lasts as long as its session, comes from compaction and
/// carries every anchor behind the summary.
pub proof fn law_summaries_are_required_context(
    revision: ContextRevisionView,
    plan: ContextPlanView,
    k: int,
)
    ensures
        revision_item(revision, plan) is Some <==> revision.summary is Some,
        revision_item(revision, plan) matches Some(item) ==> {
            &&& item.origin == ContextOrigin::Compaction
            &&& item.priority_class == ContextPriority::Required
            &&& item.lifetime == (ContextLifetimeView::Session { session_id: revision.session_id })
            &&& item.scope == revision.scope
            &&& item.source_ref == plan.strategy
            &&& item.content.len() == revision.anchors.len() + 1
            &&& 0 <= k < revision.anchors.len() ==> item.content[k + 1] == revision.anchors[k]
            &&& item.content[0] matches InputContentView::Json { value } && get_of(
                value,
                "summary"@,
            ) == Some(JsonView::Text(revision.summary->Some_0))
        },
{
    if revision.summary is Some {
        let value = summary_json(revision.through_sequence, revision.summary->Some_0);
        lemma_summary_member(value->Object_0);
    }
}

proof fn lemma_summary_member(members: Seq<MemberView>)
    requires
        members.len() == 3,
        members[0].key == "kind"@,
        members[1].key == "source_snapshot_sequence"@,
        members[2].key == "summary"@,
    ensures
        value_of(members, "summary"@) == Some(members[2].value),
{
    reveal_strlit("kind");
    reveal_strlit("source_snapshot_sequence");
    reveal_strlit("summary");
    let p = with_key("summary"@);
    assert("kind"@.len() != "summary"@.len());
    assert("source_snapshot_sequence"@.len() != "summary"@.len());
    lemma_found_at(members, p, 2);
}

/// A call is shown by its name and its arguments: whatever else it holds makes no difference. A result
/// is shown by its status, its effect, the code of its failure and its shown content.
pub proof fn law_only_what_is_shown_makes_a_difference(
    a: ToolCallView,
    b: ToolCallView,
    r: ToolResultView,
    s: ToolResultView,
    content: Seq<JsonView>,
)
    ensures
        a.tool_name == b.tool_name && a.model_inputs == b.model_inputs ==> safe_call(a) == safe_call(
            b,
        ),
        r.status == s.status && r.effect == s.effect && (r.error is Some <==> s.error is Some) && (
        r.error is Some ==> r.error->Some_0.code == s.error->Some_0.code) ==> safe_result(r, content)
            == safe_result(s, content),
        get_of(safe_call(a), "name"@) == Some(JsonView::Text(a.tool_name)),
        get_of(safe_call(a), "arguments"@) == Some(JsonView::Object(a.model_inputs)),
{
    if r.status == s.status && r.effect == s.effect && (r.error is Some <==> s.error is Some) && (
    r.error is Some ==> r.error->Some_0.code == s.error->Some_0.code) {
        assert(safe_result(r, content)->Object_0 =~= safe_result(s, content)->Object_0);
    }
    reveal_strlit("name");
    reveal_strlit("arguments");
    assert("name"@.len() != "arguments"@.len());
    let members = safe_call(a)->Object_0;
    crate::data::lemma_found_at(members, crate::json::with_key("name"@), 1);
    crate::data::lemma_found_at(members, crate::json::with_key("arguments"@), 0);
}

} // verus!
