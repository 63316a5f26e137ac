//! Registered sources, pinned plans, requests and the batches that are kept of their answers.
use vstd::prelude::*;
#[allow(unused_imports)]
use vstd::utf8::encode_utf8;

use crate::content::InputContent;
#[allow(unused_imports)]
use crate::content::InputContentView;
use crate::context::{
    encode_binding, encode_fragment, encode_item, encode_source_ref, encode_trigger, ContextBinding,
    ContextFragment, ContextItem, ContextLifetime, ContextSourceDefinition, ContextSourceRef,
    ContextTrigger, FragmentIdentity, FragmentOrder, FragmentOwner, FragmentValue,
    PlannedContextSource,
};
#[allow(unused_imports)]
use crate::context::{
    binding_json, fragment_json, issue_fault, issued, item_json, source_ref_json, trigger_json,
    ContextBindingView, ContextFragmentView, ContextItemView, ContextLifetimeView,
    ContextSourceDefinitionView, ContextSourceRefView, FragmentIdentityView, FragmentOrderView,
    FragmentOwnerView, FragmentValueView, PlannedContextSourceView,
};
use crate::data::{any, check_each, contains, find, find_last, joined, map_each, Data};
#[allow(unused_imports)]
use crate::data::{
    distinct, first_fault, first_in, first_index_fault, last_in, lemma_first_index_fault, some_in,
};
use crate::encoding::{
    encode_input, encode_scope, encode_versioned, exceeds_bytes, no_members, number, signed_number,
    with_member, with_some,
};
#[allow(unused_imports)]
use crate::encoding::{
    encoded_bytes, input_json, scope_json, signed_text, some_member, versioned_json,
};
use crate::error::{fail, verdict, ContractError, ErrorCode};
#[allow(unused_imports)]
use crate::error::{failure, fault, or_else, Fault};
use crate::json::{array, object, text, Json, Member};
#[allow(unused_imports)]
use crate::json::{JsonView, MemberView};
use crate::profile::AgentProfile;
#[allow(unused_imports)]
use crate::profile::AgentProfileView;
use crate::refs::{RecordRef, Scope, VersionedRef};
#[allow(unused_imports)]
use crate::refs::{RecordRefView, ScopeView, VersionedRefView};
use crate::run::RunSnapshot;
#[allow(unused_imports)]
use crate::run::RunSnapshotView;
use crate::serialization::{canonical_digest, parse_json, Id, JsonDigest};
#[allow(unused_imports)]
use crate::serialization::{canonical_text, digest_of, parse_fault, sha256_hex};
use crate::state::records::{ProtectedRecord, RecordContent, Recorded};
#[allow(unused_imports)]
use crate::state::records::{ProtectedRecordView, RecordContentView};
use crate::text::reads;
#[allow(unused_imports)]
use crate::text::{blank, decimal_text, white_space};

verus! {

/// The source's own revision of one item.
#[derive(Debug)]
pub struct ItemRevision {
    pub item_id: Id,
    pub revision: Id,
}

#[verifier::ext_equal]
pub struct ItemRevisionView {
    pub item_id: Seq<char>,
    pub revision: Seq<char>,
}

impl View for ItemRevision {
    type V = ItemRevisionView;

    open spec fn view(&self) -> ItemRevisionView {
        ItemRevisionView {
            item_id: self.item_id.deep_view(),
            revision: self.revision.deep_view(),
        }
    }
}

impl DeepView for ItemRevision {
    type V = ItemRevisionView;

    open spec fn deep_view(&self) -> ItemRevisionView {
        self@
    }
}

impl Data for ItemRevision {
    fn same(&self, other: &Self) -> (r: bool) {
        self.item_id.same(&other.item_id)
            && self.revision.same(&other.revision)
    }

    fn copy(&self) -> (r: Self) {
        ItemRevision {
            item_id: self.item_id.copy(),
            revision: self.revision.copy(),
        }
    }
}

/// What a source answers.
#[derive(Debug)]
pub enum ContextResult {
    Ready {
        items: Vec<ContextItem>,
        source_revision: Option<Id>,
        item_revisions: Vec<ItemRevision>,
    },
    Empty {
        source_revision: Option<Id>,
    },
    Unavailable {
        code: Id,
        source_revision: Option<Id>,
        reported_usage: Option<Json>,
    },
    Deleted {
        item_ids: Vec<Id>,
        source_revision: Option<Id>,
    },
}

#[verifier::ext_equal]
pub enum ContextResultView {
    Ready {
        items: Seq<ContextItemView>,
        source_revision: Option<Seq<char>>,
        item_revisions: Seq<ItemRevisionView>,
    },
    Empty {
        source_revision: Option<Seq<char>>,
    },
    Unavailable {
        code: Seq<char>,
        source_revision: Option<Seq<char>>,
        reported_usage: Option<JsonView>,
    },
    Deleted {
        item_ids: Seq<Seq<char>>,
        source_revision: Option<Seq<char>>,
    },
}

impl View for ContextResult {
    type V = ContextResultView;

    open spec fn view(&self) -> ContextResultView {
        match self {
            ContextResult::Ready { items, source_revision, item_revisions } => ContextResultView::Ready { items: items.deep_view(), source_revision: source_revision.deep_view(), item_revisions: item_revisions.deep_view() },
            ContextResult::Empty { source_revision } => ContextResultView::Empty { source_revision: source_revision.deep_view() },
            ContextResult::Unavailable { code, source_revision, reported_usage } => ContextResultView::Unavailable { code: code.deep_view(), source_revision: source_revision.deep_view(), reported_usage: reported_usage.deep_view() },
            ContextResult::Deleted { item_ids, source_revision } => ContextResultView::Deleted { item_ids: item_ids.deep_view(), source_revision: source_revision.deep_view() },
        }
    }
}

impl DeepView for ContextResult {
    type V = ContextResultView;

    open spec fn deep_view(&self) -> ContextResultView {
        self@
    }
}

impl Data for ContextResult {
    fn same(&self, other: &Self) -> (r: bool) {
        match (self, other) {
            (ContextResult::Ready { items: items1, source_revision: source_revision1, item_revisions: item_revisions1 }, ContextResult::Ready { items: items2, source_revision: source_revision2, item_revisions: item_revisions2 }) => items1.same(items2) && source_revision1.same(source_revision2) && item_revisions1.same(item_revisions2),
            (ContextResult::Empty { source_revision: source_revision1 }, ContextResult::Empty { source_revision: source_revision2 }) => source_revision1.same(source_revision2),
            (ContextResult::Unavailable { code: code1, source_revision: source_revision1, reported_usage: reported_usage1 }, ContextResult::Unavailable { code: code2, source_revision: source_revision2, reported_usage: reported_usage2 }) => code1.same(code2) && source_revision1.same(source_revision2) && reported_usage1.same(reported_usage2),
            (ContextResult::Deleted { item_ids: item_ids1, source_revision: source_revision1 }, ContextResult::Deleted { item_ids: item_ids2, source_revision: source_revision2 }) => item_ids1.same(item_ids2) && source_revision1.same(source_revision2),
            _ => false,
        }
    }

    fn copy(&self) -> (r: Self) {
        match self {
            ContextResult::Ready { items, source_revision, item_revisions } => ContextResult::Ready { items: items.copy(), source_revision: source_revision.copy(), item_revisions: item_revisions.copy() },
            ContextResult::Empty { source_revision } => ContextResult::Empty { source_revision: source_revision.copy() },
            ContextResult::Unavailable { code, source_revision, reported_usage } => ContextResult::Unavailable { code: code.copy(), source_revision: source_revision.copy(), reported_usage: reported_usage.copy() },
            ContextResult::Deleted { item_ids, source_revision } => ContextResult::Deleted { item_ids: item_ids.copy(), source_revision: source_revision.copy() },
        }
    }
}

/// What a source is asked.
#[derive(Debug)]
pub struct ContextRequest {
    pub context_request_id: Id,
    pub scope: Scope,
    pub run_id: Id,
    pub session_id: Id,
    pub binding: ContextBinding,
    pub definition: ContextSourceDefinition,
    pub model_step_id: Option<Id>,
    pub user_input: Vec<InputContent>,
}

#[verifier::ext_equal]
pub struct ContextRequestView {
    pub context_request_id: Seq<char>,
    pub scope: ScopeView,
    pub run_id: Seq<char>,
    pub session_id: Seq<char>,
    pub binding: ContextBindingView,
    pub definition: ContextSourceDefinitionView,
    pub model_step_id: Option<Seq<char>>,
    pub user_input: Seq<InputContentView>,
}

impl View for ContextRequest {
    type V = ContextRequestView;

    open spec fn view(&self) -> ContextRequestView {
        ContextRequestView {
            context_request_id: self.context_request_id.deep_view(),
            scope: self.scope.deep_view(),
            run_id: self.run_id.deep_view(),
            session_id: self.session_id.deep_view(),
            binding: self.binding.deep_view(),
            definition: self.definition.deep_view(),
            model_step_id: self.model_step_id.deep_view(),
            user_input: self.user_input.deep_view(),
        }
    }
}

impl DeepView for ContextRequest {
    type V = ContextRequestView;

    open spec fn deep_view(&self) -> ContextRequestView {
        self@
    }
}

impl Data for ContextRequest {
    fn same(&self, other: &Self) -> (r: bool) {
        self.context_request_id.same(&other.context_request_id)
            && self.scope.same(&other.scope)
            && self.run_id.same(&other.run_id)
            && self.session_id.same(&other.session_id)
            && self.binding.same(&other.binding)
            && self.definition.same(&other.definition)
            && self.model_step_id.same(&other.model_step_id)
            && self.user_input.same(&other.user_input)
    }

    fn copy(&self) -> (r: Self) {
        ContextRequest {
            context_request_id: self.context_request_id.copy(),
            scope: self.scope.copy(),
            run_id: self.run_id.copy(),
            session_id: self.session_id.copy(),
            binding: self.binding.copy(),
            definition: self.definition.copy(),
            model_step_id: self.model_step_id.copy(),
            user_input: self.user_input.copy(),
        }
    }
}

/// The answer of one source, as it is kept.
#[derive(Debug)]
pub struct ContextBatch {
    schema_version: String,
    batch_id: Id,
    request: ContextRequest,
    result: ContextResult,
    items: Vec<ContextItem>,
    fragments: Vec<ContextFragment>,
    collected_at_ms: i64,
    estimated_tokens: u64,
    estimator_version: VersionedRef,
}

#[verifier::ext_equal]
pub struct ContextBatchView {
    pub schema_version: Seq<char>,
    pub batch_id: Seq<char>,
    pub request: ContextRequestView,
    pub result: ContextResultView,
    pub items: Seq<ContextItemView>,
    pub fragments: Seq<ContextFragmentView>,
    pub collected_at_ms: i64,
    pub estimated_tokens: u64,
    pub estimator_version: VersionedRefView,
}

impl View for ContextBatch {
    type V = ContextBatchView;

    closed spec fn view(&self) -> ContextBatchView {
        ContextBatchView {
            schema_version: self.schema_version.deep_view(),
            batch_id: self.batch_id.deep_view(),
            request: self.request.deep_view(),
            result: self.result.deep_view(),
            items: self.items.deep_view(),
            fragments: self.fragments.deep_view(),
            collected_at_ms: self.collected_at_ms.deep_view(),
            estimated_tokens: self.estimated_tokens.deep_view(),
            estimator_version: self.estimator_version.deep_view(),
        }
    }
}

impl DeepView for ContextBatch {
    type V = ContextBatchView;

    open spec fn deep_view(&self) -> ContextBatchView {
        self@
    }
}

impl Data for ContextBatch {
    fn same(&self, other: &Self) -> (r: bool) {
        self.schema_version.same(&other.schema_version)
            && self.batch_id.same(&other.batch_id)
            && self.request.same(&other.request)
            && self.result.same(&other.result)
            && self.items.same(&other.items)
            && self.fragments.same(&other.fragments)
            && self.collected_at_ms.same(&other.collected_at_ms)
            && self.estimated_tokens.same(&other.estimated_tokens)
            && self.estimator_version.same(&other.estimator_version)
    }

    fn copy(&self) -> (r: Self) {
        ContextBatch {
            schema_version: self.schema_version.copy(),
            batch_id: self.batch_id.copy(),
            request: self.request.copy(),
            result: self.result.copy(),
            items: self.items.copy(),
            fragments: self.fragments.copy(),
            collected_at_ms: self.collected_at_ms.copy(),
            estimated_tokens: self.estimated_tokens.copy(),
            estimator_version: self.estimator_version.copy(),
        }
    }
}

/// Pinned source slots of a run.
#[derive(Debug)]
pub struct ContextSourcePlan {
    scope: Scope,
    bindings: Vec<PlannedContextSource>,
    estimator_version: VersionedRef,
}

#[verifier::ext_equal]
pub struct ContextSourcePlanView {
    pub scope: ScopeView,
    pub bindings: Seq<PlannedContextSourceView>,
    pub estimator_version: VersionedRefView,
}

impl View for ContextSourcePlan {
    type V = ContextSourcePlanView;

    closed spec fn view(&self) -> ContextSourcePlanView {
        ContextSourcePlanView {
            scope: self.scope.deep_view(),
            bindings: self.bindings.deep_view(),
            estimator_version: self.estimator_version.deep_view(),
        }
    }
}

impl DeepView for ContextSourcePlan {
    type V = ContextSourcePlanView;

    open spec fn deep_view(&self) -> ContextSourcePlanView {
        self@
    }
}

impl Data for ContextSourcePlan {
    fn same(&self, other: &Self) -> (r: bool) {
        self.scope.same(&other.scope)
            && self.bindings.same(&other.bindings)
            && self.estimator_version.same(&other.estimator_version)
    }

    fn copy(&self) -> (r: Self) {
        ContextSourcePlan {
            scope: self.scope.copy(),
            bindings: self.bindings.copy(),
            estimator_version: self.estimator_version.copy(),
        }
    }
}

/// A source under the name that profiles select it by.
#[derive(Debug)]
pub struct ContextSourceRegistration {
    pub selection: ContextSourceRef,
    pub definition: ContextSourceDefinition,
}

#[verifier::ext_equal]
pub struct ContextSourceRegistrationView {
    pub selection: ContextSourceRefView,
    pub definition: ContextSourceDefinitionView,
}

impl View for ContextSourceRegistration {
    type V = ContextSourceRegistrationView;

    open spec fn view(&self) -> ContextSourceRegistrationView {
        ContextSourceRegistrationView {
            selection: self.selection.deep_view(),
            definition: self.definition.deep_view(),
        }
    }
}

impl DeepView for ContextSourceRegistration {
    type V = ContextSourceRegistrationView;

    open spec fn deep_view(&self) -> ContextSourceRegistrationView {
        self@
    }
}

impl Data for ContextSourceRegistration {
    fn same(&self, other: &Self) -> (r: bool) {
        self.selection.same(&other.selection)
            && self.definition.same(&other.definition)
    }

    fn copy(&self) -> (r: Self) {
        ContextSourceRegistration {
            selection: self.selection.copy(),
            definition: self.definition.copy(),
        }
    }
}

/// The sources of one scope.
#[derive(Debug)]
pub struct ContextSourceRegistry {
    scope: Scope,
    entries: Vec<ContextSourceRegistration>,
}

#[verifier::ext_equal]
pub struct ContextSourceRegistryView {
    pub scope: ScopeView,
    pub entries: Seq<ContextSourceRegistrationView>,
}

impl View for ContextSourceRegistry {
    type V = ContextSourceRegistryView;

    closed spec fn view(&self) -> ContextSourceRegistryView {
        ContextSourceRegistryView {
            scope: self.scope.deep_view(),
            entries: self.entries.deep_view(),
        }
    }
}

impl DeepView for ContextSourceRegistry {
    type V = ContextSourceRegistryView;

    open spec fn deep_view(&self) -> ContextSourceRegistryView {
        self@
    }
}

impl Data for ContextSourceRegistry {
    fn same(&self, other: &Self) -> (r: bool) {
        self.scope.same(&other.scope)
            && self.entries.same(&other.entries)
    }

    fn copy(&self) -> (r: Self) {
        ContextSourceRegistry {
            scope: self.scope.copy(),
            entries: self.entries.copy(),
        }
    }
}


/// The identity of the batch format that tracks fragments.
pub open spec fn batch_version() -> Seq<char> {
    "wickle.context-batch.v2"@
}

/// The identity of the batch format without fragments.
pub open spec fn legacy_version() -> Seq<char> {
    "wickle.context-batch.v1"@
}

/// The encoded revisions of items.
pub open spec fn revisions_json(revisions: Seq<ItemRevisionView>) -> JsonView {
    JsonView::Object(
        revisions.map_values(
            |x: ItemRevisionView| MemberView { key: x.item_id, value: JsonView::Text(x.revision) },
        ),
    )
}

fn encode_revisions(revisions: &Vec<ItemRevision>) -> (r: Json)
    ensures
        r@ == revisions_json(revisions.deep_view()),
{
    let f = |x: &ItemRevision| -> (r: Member)
        ensures
            r@ == (MemberView { key: x@.item_id, value: JsonView::Text(x@.revision) }),
    { crate::json::member(x.item_id.as_str(), text(x.revision.as_str())) };
    object(
        map_each(
            revisions,
            f,
            Ghost(
                |x: ItemRevisionView|
                    MemberView { key: x.item_id, value: JsonView::Text(x.revision) },
            ),
        ),
    )
}

/// The encoded items.
pub open spec fn items_json(items: Seq<ContextItemView>) -> JsonView {
    JsonView::Array(items.map_values(|x: ContextItemView| item_json(x)))
}

/// Encode items.
pub fn encode_items(items: &Vec<ContextItem>) -> (r: Json)
    ensures
        r@ == items_json(items.deep_view()),
{
    let f = |x: &ContextItem| -> (r: Json)
        ensures
            r@ == item_json(x@),
    { encode_item(x) };
    array(map_each(items, f, Ghost(|x: ContextItemView| item_json(x))))
}

/// The encoded answer of a source.
pub open spec fn result_json(v: ContextResultView) -> JsonView {
    match v {
        ContextResultView::Ready { items, source_revision, item_revisions } => JsonView::Object((Seq::<MemberView>::empty()
.push(MemberView { key: "item_revisions"@, value: revisions_json(item_revisions) })
.push(MemberView { key: "items"@, value: items_json(items) })
+ some_member("source_revision"@, match source_revision { Some(x) => Some(JsonView::Text(x)), None => None }))
.push(MemberView { key: "status"@, value: JsonView::Text("ready"@) })),
        ContextResultView::Empty { source_revision } => JsonView::Object((Seq::<MemberView>::empty()
+ some_member("source_revision"@, match source_revision { Some(x) => Some(JsonView::Text(x)), None => None }))
.push(MemberView { key: "status"@, value: JsonView::Text("empty"@) })),
        ContextResultView::Unavailable { code, source_revision, reported_usage } => JsonView::Object(((Seq::<MemberView>::empty()
.push(MemberView { key: "code"@, value: JsonView::Text(code) })
+ some_member("reported_usage"@, match reported_usage { Some(x) => Some(x), None => None }))
+ some_member("source_revision"@, match source_revision { Some(x) => Some(JsonView::Text(x)), None => None }))
.push(MemberView { key: "status"@, value: JsonView::Text("unavailable"@) })),
        ContextResultView::Deleted { item_ids, source_revision } => JsonView::Object((Seq::<MemberView>::empty()
.push(MemberView { key: "item_ids"@, value: JsonView::Array(item_ids.map_values(|x: Seq<char>| JsonView::Text(x))) })
+ some_member("source_revision"@, match source_revision { Some(x) => Some(JsonView::Text(x)), None => None }))
.push(MemberView { key: "status"@, value: JsonView::Text("deleted"@) })),
    }
}

/// Encode the answer of a source.
pub fn encode_result(v: &ContextResult) -> (r: Json)
    ensures
        r@ == result_json(v@),
{
    match v {
        ContextResult::Ready { items, source_revision, item_revisions } => {
            let members = no_members();
            let members = with_member(members, "item_revisions", encode_revisions(item_revisions));
            let members = with_member(members, "items", encode_items(items));
            let members = with_some(members, "source_revision", match &source_revision { Some(x) => Some(crate::json::text(x.as_str())), None => None });
            let members = with_member(members, "status", crate::json::text("ready"));
            crate::json::object(members)
        },
        ContextResult::Empty { source_revision } => {
            let members = no_members();
            let members = with_some(members, "source_revision", match &source_revision { Some(x) => Some(crate::json::text(x.as_str())), None => None });
            let members = with_member(members, "status", crate::json::text("empty"));
            crate::json::object(members)
        },
        ContextResult::Unavailable { code, source_revision, reported_usage } => {
            let members = no_members();
            let members = with_member(members, "code", crate::json::text(code.as_str()));
            let members = with_some(members, "reported_usage", match &reported_usage { Some(x) => Some(x.copy()), None => None });
            let members = with_some(members, "source_revision", match &source_revision { Some(x) => Some(crate::json::text(x.as_str())), None => None });
            let members = with_member(members, "status", crate::json::text("unavailable"));
            crate::json::object(members)
        },
        ContextResult::Deleted { item_ids, source_revision } => {
    let f0 = |x: &Id| -> (r: Json)
        ensures
            r@ == JsonView::Text(x@),
    { crate::json::text(x.as_str()) };
            let members = no_members();
            let members = with_member(members, "item_ids", crate::json::array(map_each(item_ids, f0, Ghost(|x: Seq<char>| JsonView::Text(x)))));
            let members = with_some(members, "source_revision", match &source_revision { Some(x) => Some(crate::json::text(x.as_str())), None => None });
            let members = with_member(members, "status", crate::json::text("deleted"));
            crate::json::object(members)
        },
    }
}

/// The encoded definition.
pub open spec fn definition_json(definition: ContextSourceDefinitionView) -> JsonView {
    definition.document
}

fn encode_definition(definition: &ContextSourceDefinition) -> (r: Json)
    ensures
        r@ == definition_json(definition@),
{
    definition.document.copy()
}

/// The encoded request.
pub open spec fn request_json(v: ContextRequestView) -> JsonView {
    JsonView::Object((Seq::<MemberView>::empty()
.push(MemberView { key: "binding"@, value: binding_json(v.binding) })
.push(MemberView { key: "context_request_id"@, value: JsonView::Text(v.context_request_id) })
.push(MemberView { key: "definition"@, value: definition_json(v.definition) })
+ some_member("model_step_id"@, match v.model_step_id { Some(x) => Some(JsonView::Text(x)), None => None }))
.push(MemberView { key: "run_id"@, value: JsonView::Text(v.run_id) })
.push(MemberView { key: "scope"@, value: scope_json(v.scope) })
.push(MemberView { key: "session_id"@, value: JsonView::Text(v.session_id) })
.push(MemberView { key: "user_input"@, value: input_json(v.user_input) }))
}

/// Encode the request.
pub fn encode_request(v: &ContextRequest) -> (r: Json)
    ensures
        r@ == request_json(v@),
{
    let members = no_members();
    let members = with_member(members, "binding", encode_binding(&v.binding));
    let members = with_member(members, "context_request_id", crate::json::text(v.context_request_id.as_str()));
    let members = with_member(members, "definition", encode_definition(&v.definition));
    let members = with_some(members, "model_step_id", match &v.model_step_id { Some(x) => Some(crate::json::text(x.as_str())), None => None });
    let members = with_member(members, "run_id", crate::json::text(v.run_id.as_str()));
    let members = with_member(members, "scope", encode_scope(&v.scope));
    let members = with_member(members, "session_id", crate::json::text(v.session_id.as_str()));
    let members = with_member(members, "user_input", encode_input(&v.user_input));
    crate::json::object(members)
}

/// The encoded batch.
pub open spec fn batch_json(v: ContextBatchView) -> JsonView {
    JsonView::Object(Seq::<MemberView>::empty()
.push(MemberView { key: "batch_id"@, value: JsonView::Text(v.batch_id) })
.push(MemberView { key: "collected_at_ms"@, value: JsonView::Number(signed_text(v.collected_at_ms as int)) })
.push(MemberView { key: "estimated_tokens"@, value: JsonView::Number(decimal_text(v.estimated_tokens as nat)) })
.push(MemberView { key: "estimator_version"@, value: versioned_json(v.estimator_version) })
.push(MemberView { key: "fragments"@, value: JsonView::Array(v.fragments.map_values(|x: ContextFragmentView| fragment_json(x))) })
.push(MemberView { key: "items"@, value: items_json(v.items) })
.push(MemberView { key: "request"@, value: request_json(v.request) })
.push(MemberView { key: "result"@, value: result_json(v.result) })
.push(MemberView { key: "schema_version"@, value: JsonView::Text(v.schema_version) }))
}

/// Encode the batch.
pub fn encode_batch(v: &ContextBatch) -> (r: Json)
    ensures
        r@ == batch_json(v@),
{
    let f4 = |x: &ContextFragment| -> (r: Json)
        ensures
            r@ == fragment_json(x@),
    { encode_fragment(x) };
    let members = no_members();
    let members = with_member(members, "batch_id", crate::json::text(v.batch_id.as_str()));
    let members = with_member(members, "collected_at_ms", signed_number(v.collected_at_ms));
    let members = with_member(members, "estimated_tokens", number(v.estimated_tokens));
    let members = with_member(members, "estimator_version", encode_versioned(&v.estimator_version));
    let members = with_member(members, "fragments", crate::json::array(map_each(&v.fragments, f4, Ghost(|x: ContextFragmentView| fragment_json(x)))));
    let members = with_member(members, "items", encode_items(&v.items));
    let members = with_member(members, "request", encode_request(&v.request));
    let members = with_member(members, "result", encode_result(&v.result));
    let members = with_member(members, "schema_version", crate::json::text(v.schema_version.as_str()));
    crate::json::object(members)
}

/// The encoded planned source.
pub open spec fn planned_json(v: PlannedContextSourceView) -> JsonView {
    JsonView::Object(Seq::<MemberView>::empty()
.push(MemberView { key: "binding"@, value: binding_json(v.binding) })
.push(MemberView { key: "definition"@, value: definition_json(v.definition) }))
}

/// Encode the planned source.
pub fn encode_planned(v: &PlannedContextSource) -> (r: Json)
    ensures
        r@ == planned_json(v@),
{
    let members = no_members();
    let members = with_member(members, "binding", encode_binding(&v.binding));
    let members = with_member(members, "definition", encode_definition(&v.definition));
    crate::json::object(members)
}

/// The encoded plan.
pub open spec fn source_plan_json(v: ContextSourcePlanView) -> JsonView {
    JsonView::Object(Seq::<MemberView>::empty()
.push(MemberView { key: "bindings"@, value: JsonView::Array(v.bindings.map_values(|x: PlannedContextSourceView| planned_json(x))) })
.push(MemberView { key: "estimator_version"@, value: versioned_json(v.estimator_version) })
.push(MemberView { key: "scope"@, value: scope_json(v.scope) }))
}

/// Encode the plan.
pub fn encode_source_plan(v: &ContextSourcePlan) -> (r: Json)
    ensures
        r@ == source_plan_json(v@),
{
    let f0 = |x: &PlannedContextSource| -> (r: Json)
        ensures
            r@ == planned_json(x@),
    { encode_planned(x) };
    let members = no_members();
    let members = with_member(members, "bindings", crate::json::array(map_each(&v.bindings, f0, Ghost(|x: PlannedContextSourceView| planned_json(x)))));
    let members = with_member(members, "estimator_version", encode_versioned(&v.estimator_version));
    let members = with_member(members, "scope", encode_scope(&v.scope));
    crate::json::object(members)
}

/// Why a definition may not serve a selection.
pub open spec fn selection_fault(
    selection: ContextSourceRefView,
    definition: ContextSourceDefinitionView,
) -> Option<Fault> {
    let valid = match selection {
        ContextSourceRefView::Catalog(reference) => reference.source_id == definition.source.id
            && reference.version == definition.source.version,
        ContextSourceRefView::Export(reference) => reference.alias is None,
    };
    if valid {
        None
    } else {
        fault(ErrorCode::InvalidReference, "context_source.selection")
    }
}

fn validate_selection(selection: &ContextSourceRef, definition: &ContextSourceDefinition) -> (r:
    Result<(), ContractError>)
    ensures
        failure(r) == selection_fault(selection@, definition@),
{
    let valid = match selection {
        ContextSourceRef::Catalog(reference) => reference.source_id.same(&definition.source.id)
            && reference.version.same(&definition.source.version),
        ContextSourceRef::Export(reference) => reference.alias.is_none(),
    };
    if !valid {
        return fail(ErrorCode::InvalidReference, "context_source.selection");
    }
    Ok(())
}

/// The registrations under a name.
pub open spec fn selected_by(selection: ContextSourceRefView) -> spec_fn(
    ContextSourceRegistrationView,
) -> bool {
    |entry: ContextSourceRegistrationView| entry.selection == selection
}

/// Why the registration at a position is refused.
pub open spec fn registration_fault(entries: Seq<ContextSourceRegistrationView>) -> spec_fn(
    int,
) -> Option<Fault> {
    |i: int|
        {
            let entry = entries[i];
            if entry.definition.defect is Some {
                entry.definition.defect
            } else if selection_fault(entry.selection, entry.definition) is Some {
                selection_fault(entry.selection, entry.definition)
            } else if some_in(entries.take(i), selected_by(entry.selection)) {
                fault(ErrorCode::InvalidReference, "context_source.duplicate")
            } else {
                None
            }
        }
}

/// Why sources cannot be registered together.
pub open spec fn registry_fault(entries: Seq<ContextSourceRegistrationView>) -> Option<Fault> {
    if entries.len() > 64 {
        fault(ErrorCode::InvalidConfiguration, "context_source.count")
    } else {
        first_index_fault(0, entries.len() as int, registration_fault(entries))
    }
}

fn is_selected_before(entries: &Vec<ContextSourceRegistration>, i: usize) -> (r: bool)
    requires
        i < entries.len(),
    ensures
        r == some_in(
            entries.deep_view().take(i as int),
            selected_by(entries.deep_view()[i as int].selection),
        ),
{
    let ghost s = entries.deep_view();
    let ghost p = selected_by(s[i as int].selection);
    let mut k: usize = 0;
    while k < i
        invariant
            k <= i < entries.len(),
            s == entries.deep_view(),
            p == selected_by(s[i as int].selection),
            forall|j: int| 0 <= j < k ==> !p(#[trigger] s.take(i as int)[j]),
        decreases i - k,
    {
        if entries[k].selection.same(&entries[i].selection) {
            assert(p(s.take(i as int)[k as int]));
            return true;
        }
        k = k + 1;
    }
    false
}

fn check_registration(entries: &Vec<ContextSourceRegistration>, i: usize) -> (r: Result<
    (),
    ContractError,
>)
    requires
        i < entries.len(),
    ensures
        failure(r) == registration_fault(entries.deep_view())(i as int),
{
    let entry = &entries[i];
    assert(entry@ == entries.deep_view()[i as int]);
    verdict(&entry.definition.defect)?;
    validate_selection(&entry.selection, &entry.definition)?;
    if is_selected_before(entries, i) {
        return fail(ErrorCode::InvalidReference, "context_source.duplicate");
    }
    Ok(())
}

/// Why a binding cannot join registrations that were made from earlier bindings: it names a
/// registered source but another definition.
pub open spec fn metadata_fault(
    entries: Seq<ContextSourceRegistrationView>,
    bindings: Seq<PlannedContextSourceView>,
) -> Option<Fault>
    decreases bindings.len(),
{
    if bindings.len() == 0 {
        None
    } else {
        let binding = bindings[0];
        match first_in(entries, selected_by(binding.binding.source)) {
            Some(entry) => if entry.definition != binding.definition {
                fault(ErrorCode::InvalidContract, "context_source.definition")
            } else {
                metadata_fault(entries, bindings.skip(1))
            },
            None => metadata_fault(
                entries.push(
                    ContextSourceRegistrationView {
                        selection: binding.binding.source,
                        definition: binding.definition,
                    },
                ),
                bindings.skip(1),
            ),
        }
    }
}

/// The registrations that bindings ask for, each source once, in the order of first use.
pub open spec fn metadata_entries(
    entries: Seq<ContextSourceRegistrationView>,
    bindings: Seq<PlannedContextSourceView>,
) -> Seq<ContextSourceRegistrationView>
    decreases bindings.len(),
{
    if bindings.len() == 0 {
        entries
    } else {
        let binding = bindings[0];
        if first_in(entries, selected_by(binding.binding.source)) is Some {
            metadata_entries(entries, bindings.skip(1))
        } else {
            metadata_entries(
                entries.push(
                    ContextSourceRegistrationView {
                        selection: binding.binding.source,
                        definition: binding.definition,
                    },
                ),
                bindings.skip(1),
            )
        }
    }
}

/// The source slots of a profile.
pub open spec fn source_bindings(profile: AgentProfileView) -> Seq<ContextBindingView> {
    match profile.context_sources {
        Some(bindings) => bindings,
        None => Seq::empty(),
    }
}

/// A slot with the definition of the source that serves it.
pub open spec fn planned(
    entries: Seq<ContextSourceRegistrationView>,
    binding: ContextBindingView,
) -> PlannedContextSourceView {
    PlannedContextSourceView {
        binding,
        definition: first_in(entries, selected_by(binding.source))->Some_0.definition,
    }
}

/// Why a slot cannot be served.
pub open spec fn unserved_fault(entries: Seq<ContextSourceRegistrationView>) -> spec_fn(
    ContextBindingView,
) -> Option<Fault> {
    |binding: ContextBindingView|
        if first_in(entries, selected_by(binding.source)) is None {
            fault(ErrorCode::ComponentUnavailable, "context_source.selection")
        } else {
            None
        }
}

/// The plan for the slots of a profile.
pub open spec fn planned_for(
    registry: ContextSourceRegistryView,
    profile: AgentProfileView,
    estimator_version: VersionedRefView,
) -> ContextSourcePlanView {
    ContextSourcePlanView {
        scope: registry.scope,
        bindings: source_bindings(profile).map_values(
            |binding: ContextBindingView| planned(registry.entries, binding),
        ),
        estimator_version,
    }
}

/// Why the slots of a profile cannot be planned.
pub open spec fn planning_fault(
    registry: ContextSourceRegistryView,
    profile: AgentProfileView,
    estimator_version: VersionedRefView,
) -> Option<Fault> {
    or_else(
        first_fault(source_bindings(profile), unserved_fault(registry.entries)),
        plan_fault(planned_for(registry, profile, estimator_version), profile),
    )
}

impl ContextSourceRegistry {
    /// Register exact native or adapter-export sources.
    pub fn new(scope: Scope, entries: Vec<ContextSourceRegistration>) -> (r: Result<
        Self,
        ContractError,
    >)
        ensures
            failure(r) == registry_fault(entries.deep_view()),
            r matches Ok(registry) ==> registry@.scope == scope@ && registry@.entries
                == entries.deep_view(),
    {
        if entries.len() > 64 {
            return fail(ErrorCode::InvalidConfiguration, "context_source.count");
        }
        let ghost p = registration_fault(entries.deep_view());
        let ghost n = entries.len() as int;
        let mut i: usize = 0;
        while i < entries.len()
            invariant
                i <= entries.len(),
                n == entries.len(),
                n <= 64,
                p == registration_fault(entries.deep_view()),
                first_index_fault(0, n, p) == first_index_fault(i as int, n, p),
            decreases entries.len() - i,
        {
            check_registration(&entries, i)?;
            i = i + 1;
        }
        Ok(ContextSourceRegistry { scope, entries })
    }

    /// Build a registry that only pins metadata.
    pub fn metadata(scope: Scope, bindings: Vec<PlannedContextSource>) -> (r: Result<
        Self,
        ContractError,
    >)
        ensures
            failure(r) == or_else(
                metadata_fault(Seq::empty(), bindings.deep_view()),
                registry_fault(metadata_entries(Seq::empty(), bindings.deep_view())),
            ),
            r matches Ok(registry) ==> registry@.scope == scope@ && registry@.entries
                == metadata_entries(Seq::empty(), bindings.deep_view()),
    {
        let ghost s = bindings.deep_view();
        let ghost none = Seq::<ContextSourceRegistrationView>::empty();
        let mut entries: Vec<ContextSourceRegistration> = Vec::new();
        let mut i: usize = 0;
        assert(s.skip(0) =~= s);
        assert(entries.deep_view() =~= none);
        while i < bindings.len()
            invariant
                i <= bindings.len(),
                s == bindings.deep_view(),
                none == Seq::<ContextSourceRegistrationView>::empty(),
                metadata_fault(none, s) == metadata_fault(entries.deep_view(), s.skip(i as int)),
                metadata_entries(none, s) == metadata_entries(
                    entries.deep_view(),
                    s.skip(i as int),
                ),
            decreases bindings.len() - i,
        {
            let binding = &bindings[i];
            assert(s.skip(i as int)[0] == binding@);
            assert(s.skip(i as int).skip(1) =~= s.skip(i + 1));
            let named = |entry: &ContextSourceRegistration| -> (b: bool)
                ensures
                    b == selected_by(binding@.binding.source)(entry@),
            { entry.selection.same(&binding.binding.source) };
            match find(&entries, named, Ghost(selected_by(binding@.binding.source))) {
                Some(entry) => {
                    if !entry.definition.same(&binding.definition) {
                        return fail(ErrorCode::InvalidContract, "context_source.definition");
                    }
                },
                None => {
                    let ghost before = entries.deep_view();
                    let entry = ContextSourceRegistration {
                        selection: binding.binding.source.copy(),
                        definition: binding.definition.copy(),
                    };
                    let ghost added = entry@;
                    entries.push(entry);
                    assert(entries.deep_view() =~= before.push(added));
                },
            }
            i = i + 1;
        }
        ContextSourceRegistry::new(scope, entries)
    }

    /// Exact registry namespace.
    pub fn scope(&self) -> (r: &Scope)
        ensures
            r@ == self@.scope,
    {
        &self.scope
    }

    /// Pin profile order, limits and the estimator version.
    pub fn plan(&self, profile: &AgentProfile, estimator_version: &VersionedRef) -> (r: Result<
        ContextSourcePlan,
        ContractError,
    >)
        ensures
            failure(r) == planning_fault(self@, profile@, estimator_version@),
            r matches Ok(plan) ==> plan@ == planned_for(self@, profile@, estimator_version@),
    {
        let ghost s = source_bindings(profile@);
        let ghost f = unserved_fault(self@.entries);
        let ghost g = |binding: ContextBindingView| planned(self@.entries, binding);
        let mut bindings: Vec<PlannedContextSource> = Vec::new();
        if let Some(selected) = &profile.context_sources {
            let mut i: usize = 0;
            assert(s.skip(0) =~= s);
            while i < selected.len()
                invariant
                    i <= selected.len(),
                    s == selected.deep_view(),
                    s == source_bindings(profile@),
                    f == unserved_fault(self@.entries),
                    g == (|binding: ContextBindingView| planned(self@.entries, binding)),
                    first_fault(s, f) == first_fault(s.skip(i as int), f),
                    bindings.deep_view() =~= s.take(i as int).map_values(g),
                decreases selected.len() - i,
            {
                let binding = &selected[i];
                assert(s.skip(i as int)[0] == binding@);
                assert(s.skip(i as int).skip(1) =~= s.skip(i + 1));
                assert(s.take(i + 1) =~= s.take(i as int).push(binding@));
                match self.get(&binding.source) {
                    Some(entry) => {
                        let ghost before = bindings.deep_view();
                        let next = PlannedContextSource {
                            binding: binding.copy(),
                            definition: entry.definition.copy(),
                        };
                        assert(next@ == g(binding@));
                        bindings.push(next);
                        assert(bindings.deep_view() =~= before.push(g(binding@)));
                    },
                    None => {
                        return fail(ErrorCode::ComponentUnavailable, "context_source.selection");
                    },
                }
                i = i + 1;
            }
            assert(s.take(i as int) =~= s);
        }
        assert(bindings.deep_view() =~= s.map_values(g));
        let plan = ContextSourcePlan {
            scope: self.scope.copy(),
            bindings,
            estimator_version: estimator_version.copy(),
        };
        assert(plan@ =~= planned_for(self@, profile@, estimator_version@));
        plan.validate(profile)?;
        Ok(plan)
    }

    /// The source under a name.
    pub fn get(&self, selection: &ContextSourceRef) -> (r: Option<&ContextSourceRegistration>)
        ensures
            r.deep_view() == first_in(self@.entries, selected_by(selection@)),
    {
        let named = |entry: &ContextSourceRegistration| -> (b: bool)
            ensures
                b == selected_by(selection@)(entry@),
        { entry.selection.same(selection) };
        find(&self.entries, named, Ghost(selected_by(selection@)))
    }
}

/// The planned slots of a source and trigger.
pub open spec fn in_slot(binding: ContextBindingView) -> spec_fn(PlannedContextSourceView) -> bool {
    |entry: PlannedContextSourceView|
        entry.binding.source == binding.source && entry.binding.trigger == binding.trigger
}

/// Why the planned slot at a position is refused.
pub open spec fn planned_fault(bindings: Seq<PlannedContextSourceView>) -> spec_fn(int) -> Option<
    Fault,
> {
    |i: int|
        {
            let entry = bindings[i];
            if entry.definition.defect is Some {
                entry.definition.defect
            } else if selection_fault(entry.binding.source, entry.definition) is Some {
                selection_fault(entry.binding.source, entry.definition)
            } else if entry.binding.timeout_ms > 86_400_000 || entry.binding.max_items > 4096
                || entry.binding.max_bytes > 16_777_216 || entry.binding.max_tokens > 4_000_000 {
                fault(ErrorCode::InvalidConfiguration, "context_source.limits")
            } else if some_in(bindings.take(i), in_slot(entry.binding)) {
                fault(ErrorCode::InvalidReference, "context_source.duplicate_slot")
            } else {
                None
            }
        }
}

/// Why the slots of a plan are refused.
pub open spec fn bindings_fault(bindings: Seq<PlannedContextSourceView>) -> Option<Fault> {
    if bindings.len() > 64 {
        fault(ErrorCode::InvalidConfiguration, "context_source.count")
    } else {
        first_index_fault(0, bindings.len() as int, planned_fault(bindings))
    }
}

/// Why a plan does not fit a profile.
pub open spec fn plan_fault(plan: ContextSourcePlanView, profile: AgentProfileView) -> Option<
    Fault,
> {
    if bindings_fault(plan.bindings) is Some {
        bindings_fault(plan.bindings)
    } else if plan.bindings.map_values(|entry: PlannedContextSourceView| entry.binding)
        != source_bindings(profile) {
        fault(ErrorCode::InvalidSnapshot, "context_source.plan_selection")
    } else {
        None
    }
}

/// Why a decoded plan is not the expected one.
pub open spec fn plan_identity_fault(
    plan: Option<ContextSourcePlanView>,
    scope: ScopeView,
    expected_digest: Seq<char>,
) -> Option<Fault> {
    match plan {
        None => fault(ErrorCode::InvalidSnapshot, "context_source.plan"),
        Some(plan) => if plan.scope != scope || digest_of(source_plan_json(plan))
            != expected_digest {
            fault(ErrorCode::InvalidSnapshot, "context_source.plan_identity")
        } else {
            bindings_fault(plan.bindings)
        },
    }
}

/// Why a stored text does not hold the expected plan.
pub open spec fn plan_restore_fault(
    json: Seq<char>,
    decoded: Option<ContextSourcePlanView>,
    scope: ScopeView,
    expected_digest: Seq<char>,
) -> Option<Fault> {
    or_else(parse_fault(json), plan_identity_fault(decoded, scope, expected_digest))
}

fn is_slot_before(bindings: &Vec<PlannedContextSource>, i: usize) -> (r: bool)
    requires
        i < bindings.len(),
    ensures
        r == some_in(
            bindings.deep_view().take(i as int),
            in_slot(bindings.deep_view()[i as int].binding),
        ),
{
    let ghost s = bindings.deep_view();
    let ghost p = in_slot(s[i as int].binding);
    let mut k: usize = 0;
    while k < i
        invariant
            k <= i < bindings.len(),
            s == bindings.deep_view(),
            p == in_slot(s[i as int].binding),
            forall|j: int| 0 <= j < k ==> !p(#[trigger] s.take(i as int)[j]),
        decreases i - k,
    {
        if bindings[k].binding.source.same(&bindings[i].binding.source)
            && bindings[k].binding.trigger == bindings[i].binding.trigger {
            assert(p(s.take(i as int)[k as int]));
            return true;
        }
        k = k + 1;
    }
    false
}

fn check_planned(bindings: &Vec<PlannedContextSource>, i: usize) -> (r: Result<(), ContractError>)
    requires
        i < bindings.len(),
    ensures
        failure(r) == planned_fault(bindings.deep_view())(i as int),
{
    let entry = &bindings[i];
    assert(entry@ == bindings.deep_view()[i as int]);
    verdict(&entry.definition.defect)?;
    validate_selection(&entry.binding.source, &entry.definition)?;
    if entry.binding.timeout_ms > 86_400_000 || entry.binding.max_items > 4096
        || entry.binding.max_bytes > 16_777_216 || entry.binding.max_tokens > 4_000_000 {
        return fail(ErrorCode::InvalidConfiguration, "context_source.limits");
    }
    if is_slot_before(bindings, i) {
        return fail(ErrorCode::InvalidReference, "context_source.duplicate_slot");
    }
    Ok(())
}

fn validate_bindings(bindings: &Vec<PlannedContextSource>) -> (r: Result<(), ContractError>)
    ensures
        failure(r) == bindings_fault(bindings.deep_view()),
{
    if bindings.len() > 64 {
        return fail(ErrorCode::InvalidConfiguration, "context_source.count");
    }
    let ghost p = planned_fault(bindings.deep_view());
    let ghost n = bindings.len() as int;
    let mut i: usize = 0;
    while i < bindings.len()
        invariant
            i <= bindings.len(),
            n == bindings.len(),
            n <= 64,
            p == planned_fault(bindings.deep_view()),
            first_index_fault(0, n, p) == first_index_fault(i as int, n, p),
        decreases bindings.len() - i,
    {
        check_planned(bindings, i)?;
        i = i + 1;
    }
    Ok(())
}

impl ContextSourcePlan {
    /// Exact plan namespace.
    pub fn scope(&self) -> (r: &Scope)
        ensures
            r@ == self@.scope,
    {
        &self.scope
    }

    /// Selected bindings in profile order.
    pub fn bindings(&self) -> (r: &Vec<PlannedContextSource>)
        ensures
            r.deep_view() == self@.bindings,
    {
        &self.bindings
    }

    /// Pinned trusted estimator identity.
    pub fn estimator_version(&self) -> (r: &VersionedRef)
        ensures
            r@ == self@.estimator_version,
    {
        &self.estimator_version
    }

    /// Complete plan digest.
    pub fn digest(&self) -> (r: JsonDigest)
        ensures
            r@ == digest_of(source_plan_json(self@)),
    {
        canonical_digest(&encode_source_plan(self))
    }

    /// Restore only the exact protected plan version and identity from the stored text. `decoded` is
    /// what its document reads as.
    pub fn restore<'a>(
        json: &str,
        decoded: Option<&'a ContextSourcePlan>,
        scope: &Scope,
        expected_digest: &JsonDigest,
    ) -> (r: Result<&'a Self, ContractError>)
        ensures
            failure(r) == plan_restore_fault(
                json@,
                decoded.deep_view(),
                scope@,
                expected_digest@,
            ),
            r matches Ok(plan) ==> decoded.deep_view() == Some(plan@),
    {
        let _ = parse_json(json)?;
        Self::restore_decoded(decoded, scope, expected_digest)
    }

    /// Restore a plan from what a stored document reads as.
    pub fn restore_decoded<'a>(
        decoded: Option<&'a ContextSourcePlan>,
        scope: &Scope,
        expected_digest: &JsonDigest,
    ) -> (r: Result<&'a Self, ContractError>)
        ensures
            failure(r) == plan_identity_fault(decoded.deep_view(), scope@, expected_digest@),
            r matches Ok(plan) ==> decoded.deep_view() == Some(plan@),
    {
        match decoded {
            None => fail(ErrorCode::InvalidSnapshot, "context_source.plan"),
            Some(plan) => {
                if !plan.scope.same(scope) || !plan.digest().same(expected_digest) {
                    return fail(ErrorCode::InvalidSnapshot, "context_source.plan_identity");
                }
                validate_bindings(&plan.bindings)?;
                Ok(plan)
            },
        }
    }

    /// Reject missing, reordered or changed profile bindings and invalid definitions.
    pub fn validate(&self, profile: &AgentProfile) -> (r: Result<(), ContractError>)
        ensures
            failure(r) == plan_fault(self@, profile@),
    {
        validate_bindings(&self.bindings)?;
        let f = |entry: &PlannedContextSource| -> (r: ContextBinding)
            ensures
                r@ == entry@.binding,
        { entry.binding.copy() };
        let planned = map_each(
            &self.bindings,
            f,
            Ghost(|entry: PlannedContextSourceView| entry.binding),
        );
        let fits = match &profile.context_sources {
            Some(bindings) => planned.same(bindings),
            None => {
                assert(planned.deep_view().len() == planned.len());
                assert(planned.len() == 0 ==> planned.deep_view() =~= Seq::<
                    ContextBindingView,
                >::empty());
                planned.len() == 0
            },
        };
        if !fits {
            return fail(ErrorCode::InvalidSnapshot, "context_source.plan_selection");
        }
        Ok(())
    }
}

/// What the identifier of a request is derived from.
pub open spec fn request_key_json(request: ContextRequestView) -> JsonView {
    JsonView::Array(
        seq![
            scope_json(request.scope),
            JsonView::Text(request.run_id),
            JsonView::Text(request.session_id),
            binding_json(request.binding),
            definition_json(request.definition),
            match request.model_step_id {
                Some(step) => JsonView::Text(step),
                None => JsonView::Null,
            },
            JsonView::Text(input_digest_of(request)),
        ],
    )
}

/// The digest of a request's input.
pub open spec fn input_digest_of(request: ContextRequestView) -> Seq<char> {
    digest_of(input_json(request.user_input))
}

/// The identifier that a request must have.
pub open spec fn request_identity(request: ContextRequestView) -> Seq<char> {
    "context-"@ + digest_of(request_key_json(request))
}

/// Why a request is invalid.
pub open spec fn request_fault(request: ContextRequestView) -> Option<Fault> {
    if request.context_request_id != request_identity(request) || (
    request.binding.trigger is BeforeModel) != request.model_step_id is Some {
        fault(ErrorCode::InvalidSnapshot, "context_source.request")
    } else {
        None
    }
}

/// The request of a run for one slot.
pub open spec fn request_for(
    snapshot: RunSnapshotView,
    entry: PlannedContextSourceView,
    step: Option<Seq<char>>,
) -> ContextRequestView {
    let draft = ContextRequestView {
        context_request_id: Seq::empty(),
        scope: snapshot.scope,
        run_id: snapshot.run_id,
        session_id: snapshot.request.session_id,
        binding: entry.binding,
        definition: entry.definition,
        model_step_id: step,
        user_input: snapshot.request.input,
    };
    ContextRequestView { context_request_id: request_identity(draft), ..draft }
}

impl ContextRequest {
    /// Build the request of a run for one slot.
    pub fn for_run(snapshot: &RunSnapshot, entry: &PlannedContextSource, step: Option<Id>) -> (r:
        Result<Self, ContractError>)
        ensures
            failure(r) == request_fault(
                request_for(snapshot@, entry@, step.deep_view()),
            ),
            r matches Ok(request) ==> request@ == request_for(
                snapshot@,
                entry@,
                step.deep_view(),
            ),
    {
        proof {
            reveal_strlit("pending");
            assert(!white_space("pending"@[0]));
        }
        let mut request = ContextRequest {
            context_request_id: Id::literal("pending"),
            scope: snapshot.scope.copy(),
            run_id: snapshot.run_id.copy(),
            session_id: snapshot.request.session_id.copy(),
            binding: entry.binding.copy(),
            definition: entry.definition.copy(),
            model_step_id: step,
            user_input: snapshot.request.input.copy(),
        };
        let identity = request.identity();
        request.context_request_id = identity;
        assert(request@ =~= request_for(snapshot@, entry@, step.deep_view()));
        request.validate()?;
        Ok(request)
    }

    /// The digest of the input.
    pub fn input_digest(&self) -> (r: JsonDigest)
        ensures
            r@ == input_digest_of(self@),
    {
        canonical_digest(&encode_input(&self.user_input))
    }

    fn identity(&self) -> (r: Id)
        ensures
            r@ == request_identity(self@),
    {
        let step = match &self.model_step_id {
            Some(step) => text(step.as_str()),
            None => Json::Null,
        };
        let items = vec![
            encode_scope(&self.scope),
            text(self.run_id.as_str()),
            text(self.session_id.as_str()),
            encode_binding(&self.binding),
            encode_definition(&self.definition),
            step,
            text(self.input_digest().as_str()),
        ];
        assert(items.deep_view() =~= request_key_json(self@)->Array_0);
        let digest = canonical_digest(&array(items));
        proof {
            reveal_strlit("context-");
            assert(!white_space("context-"@[0]));
        }
        Id::prefixed("context-", digest.as_str())
    }

    /// Check that the identifier names the request, and that a step is named exactly where the
    /// trigger needs one.
    pub fn validate(&self) -> (r: Result<(), ContractError>)
        ensures
            failure(r) == request_fault(self@),
    {
        if !self.context_request_id.same(&self.identity()) || (self.binding.trigger
            == ContextTrigger::BeforeModel) != self.model_step_id.is_some() {
            return fail(ErrorCode::InvalidSnapshot, "context_source.request");
        }
        Ok(())
    }
}

impl ContextResultView {
    /// The items of an answer, which only a ready one has.
    pub open spec fn items(self) -> Seq<ContextItemView> {
        match self {
            ContextResultView::Ready { items, .. } => items,
            _ => Seq::empty(),
        }
    }

    /// The source's own revision of the whole answer.
    pub open spec fn source_revision(self) -> Option<Seq<char>> {
        match self {
            ContextResultView::Ready { source_revision, .. } => source_revision,
            ContextResultView::Empty { source_revision } => source_revision,
            ContextResultView::Unavailable { source_revision, .. } => source_revision,
            ContextResultView::Deleted { source_revision, .. } => source_revision,
        }
    }

    /// The name of the kind of answer.
    pub open spec fn status(self) -> Seq<char> {
        match self {
            ContextResultView::Ready { .. } => "ready"@,
            ContextResultView::Empty { .. } => "empty"@,
            ContextResultView::Unavailable { .. } => "unavailable"@,
            ContextResultView::Deleted { .. } => "deleted"@,
        }
    }
}

impl ContextResult {
    /// The items of an answer, which only a ready one has.
    pub fn items(&self) -> (r: Vec<ContextItem>)
        ensures
            r.deep_view() == self@.items(),
    {
        match self {
            ContextResult::Ready { items, .. } => items.copy(),
            _ => {
                let none: Vec<ContextItem> = Vec::new();
                assert(none.deep_view() =~= Seq::<ContextItemView>::empty());
                none
            },
        }
    }

    /// The source's own revision of the whole answer.
    pub fn source_revision(&self) -> (r: Option<&Id>)
        ensures
            r.deep_view() == self@.source_revision(),
    {
        let revision = match self {
            ContextResult::Ready { source_revision, .. } => source_revision,
            ContextResult::Empty { source_revision } => source_revision,
            ContextResult::Unavailable { source_revision, .. } => source_revision,
            ContextResult::Deleted { source_revision, .. } => source_revision,
        };
        match revision {
            Some(revision) => Some(revision),
            None => None,
        }
    }

    fn status(&self) -> (r: Id)
        ensures
            r@ == self@.status(),
    {
        proof {
            reveal_strlit("ready");
            reveal_strlit("empty");
            reveal_strlit("unavailable");
            reveal_strlit("deleted");
            assert(!white_space("ready"@[0]) && !white_space("empty"@[0]) && !white_space(
                "unavailable"@[0],
            ) && !white_space("deleted"@[0]));
        }
        match self {
            ContextResult::Ready { .. } => Id::literal("ready"),
            ContextResult::Empty { .. } => Id::literal("empty"),
            ContextResult::Unavailable { .. } => Id::literal("unavailable"),
            ContextResult::Deleted { .. } => Id::literal("deleted"),
        }
    }
}

/// Why an encoded value is too large.
pub open spec fn bytes_fault(json: JsonView, limit: u64) -> Option<Fault> {
    if encoded_bytes(json) > limit {
        fault(ErrorCode::ContextBudgetExceeded, "context_source.bytes")
    } else {
        None
    }
}

/// Reject an encoded value that is too large.
pub fn check_bytes(json: &Json, limit: u64) -> (r: Result<(), ContractError>)
    ensures
        failure(r) == bytes_fault(json@, limit),
{
    if exceeds_bytes(json, limit) {
        return fail(ErrorCode::ContextBudgetExceeded, "context_source.bytes");
    }
    Ok(())
}

/// The lifetime of what a request collects.
pub open spec fn lifetime_for(request: ContextRequestView) -> ContextLifetimeView {
    match request.model_step_id {
        Some(step) => ContextLifetimeView::Step { run_id: request.run_id, model_step_id: step },
        None => ContextLifetimeView::Run { run_id: request.run_id },
    }
}

/// The items of an identifier.
pub open spec fn with_item_id(item_id: Seq<char>) -> spec_fn(ContextItemView) -> bool {
    |item: ContextItemView| item.item_id == item_id
}

/// Content that refers to an artifact of another scope.
pub open spec fn foreign_artifact(scope: ScopeView) -> spec_fn(InputContentView) -> bool {
    |content: InputContentView|
        content matches InputContentView::Artifact { reference } && reference.scope != scope
}

/// Why the item at a position of an answer is refused.
pub open spec fn item_fault(
    request: ContextRequestView,
    items: Seq<ContextItemView>,
) -> spec_fn(int) -> Option<Fault> {
    |i: int|
        {
            let item = items[i];
            if item.scope != request.scope {
                fault(ErrorCode::AccessDenied, "context_source.item_scope")
            } else if item.origin != request.definition.origin || item.source_ref
                != request.definition.source || item.lifetime != lifetime_for(request)
                || !item.is_genuine() || some_in(items.take(i), with_item_id(item.item_id)) {
                fault(ErrorCode::InvalidContract, "context_source.item")
            } else if some_in(item.content, foreign_artifact(request.scope)) {
                fault(ErrorCode::AccessDenied, "context_source.artifact_scope")
            } else {
                None
            }
        }
}

/// A revision of an item that the answer does not hold.
pub open spec fn revises_no_item(items: Seq<ContextItemView>) -> spec_fn(ItemRevisionView) -> bool {
    |revision: ItemRevisionView| !some_in(items, with_item_id(revision.item_id))
}

/// Why an answer does not fit its request.
pub open spec fn result_fault(request: ContextRequestView, result: ContextResultView) -> Option<
    Fault,
> {
    let items = result.items();
    if request.definition.defect is Some {
        request.definition.defect
    } else if bytes_fault(result_json(result), request.binding.max_bytes) is Some {
        bytes_fault(result_json(result), request.binding.max_bytes)
    } else if (result matches ContextResultView::Deleted { item_ids, .. } && (item_ids.len() == 0
        || !distinct(item_ids) || item_ids.len() > request.binding.max_items)) {
        fault(ErrorCode::InvalidContract, "context_source.deleted_ids")
    } else if (result matches ContextResultView::Ready { item_revisions, .. } && some_in(
        item_revisions,
        revises_no_item(items),
    )) {
        fault(ErrorCode::InvalidContract, "context_source.item_revisions")
    } else if result is Ready && items.len() == 0 {
        fault(ErrorCode::InvalidContract, "context_source.ready_empty")
    } else if items.len() > request.binding.max_items {
        fault(ErrorCode::ContextBudgetExceeded, "context_source.items")
    } else {
        first_index_fault(0, items.len() as int, item_fault(request, items))
    }
}

/// Whether no identifier is repeated.
pub fn are_distinct(ids: &Vec<Id>) -> (r: bool)
    ensures
        r == distinct(ids.deep_view()),
{
    let ghost s = ids.deep_view();
    let mut i: usize = 0;
    while i < ids.len()
        invariant
            i <= ids.len(),
            s == ids.deep_view(),
            forall|a: int, b: int| 0 <= a < b < i ==> s[a] != s[b],
        decreases ids.len() - i,
    {
        let mut k: usize = 0;
        while k < i
            invariant
                k <= i < ids.len(),
                s == ids.deep_view(),
                forall|a: int| 0 <= a < k ==> s[a] != s[i as int],
            decreases i - k,
        {
            if ids[k].same(&ids[i]) {
                assert(s[k as int] == s[i as int]);
                return false;
            }
            k = k + 1;
        }
        i = i + 1;
    }
    true
}

fn is_item_id_before(items: &Vec<ContextItem>, i: usize) -> (r: bool)
    requires
        i < items.len(),
    ensures
        r == some_in(
            items.deep_view().take(i as int),
            with_item_id(items.deep_view()[i as int].item_id),
        ),
{
    let ghost s = items.deep_view();
    let ghost p = with_item_id(s[i as int].item_id);
    let mut k: usize = 0;
    while k < i
        invariant
            k <= i < items.len(),
            s == items.deep_view(),
            p == with_item_id(s[i as int].item_id),
            forall|j: int| 0 <= j < k ==> !p(#[trigger] s.take(i as int)[j]),
        decreases i - k,
    {
        if items[k].item_id.same(&items[i].item_id) {
            assert(p(s.take(i as int)[k as int]));
            return true;
        }
        k = k + 1;
    }
    false
}

fn lifetime_of(request: &ContextRequest) -> (r: ContextLifetime)
    ensures
        r@ == lifetime_for(request@),
{
    match &request.model_step_id {
        Some(step) => ContextLifetime::Step {
            run_id: request.run_id.copy(),
            model_step_id: step.copy(),
        },
        None => ContextLifetime::Run { run_id: request.run_id.copy() },
    }
}

fn check_item(request: &ContextRequest, items: &Vec<ContextItem>, i: usize) -> (r: Result<
    (),
    ContractError,
>)
    requires
        i < items.len(),
    ensures
        failure(r) == item_fault(request@, items.deep_view())(i as int),
{
    let item = &items[i];
    assert(item@ == items.deep_view()[i as int]);
    if !item.scope.same(&request.scope) {
        return fail(ErrorCode::AccessDenied, "context_source.item_scope");
    }
    if item.origin != request.definition.origin || !item.source_ref.same(
        &request.definition.source,
    ) || !item.lifetime.same(&lifetime_of(request)) || !item.is_genuine() || is_item_id_before(
        items,
        i,
    ) {
        return fail(ErrorCode::InvalidContract, "context_source.item");
    }
    let foreign = |content: &InputContent| -> (b: bool)
        ensures
            b == foreign_artifact(request@.scope)(content@),
    {
        match content {
            InputContent::Artifact { reference } => !reference.scope.same(&request.scope),
            _ => false,
        }
    };
    if any(&item.content, foreign, Ghost(foreign_artifact(request@.scope))) {
        return fail(ErrorCode::AccessDenied, "context_source.artifact_scope");
    }
    Ok(())
}

/// Check an answer against its request.
pub fn validate_result(request: &ContextRequest, result: &ContextResult) -> (r: Result<
    (),
    ContractError,
>)
    ensures
        failure(r) == result_fault(request@, result@),
{
    verdict(&request.definition.defect)?;
    check_bytes(&encode_result(result), request.binding.max_bytes)?;
    let items = result.items();
    if let ContextResult::Deleted { item_ids, .. } = result {
        if item_ids.len() == 0 || !are_distinct(item_ids) || item_ids.len() as u64
            > request.binding.max_items {
            return fail(ErrorCode::InvalidContract, "context_source.deleted_ids");
        }
    }
    if let ContextResult::Ready { item_revisions, .. } = result {
        let dangling = |revision: &ItemRevision| -> (b: bool)
            ensures
                b == revises_no_item(items.deep_view())(revision@),
        {
            let named = |item: &ContextItem| -> (b: bool)
                ensures
                    b == with_item_id(revision@.item_id)(item@),
            { item.item_id.same(&revision.item_id) };
            !any(&items, named, Ghost(with_item_id(revision@.item_id)))
        };
        if any(item_revisions, dangling, Ghost(revises_no_item(items.deep_view()))) {
            return fail(ErrorCode::InvalidContract, "context_source.item_revisions");
        }
        if items.len() == 0 {
            return fail(ErrorCode::InvalidContract, "context_source.ready_empty");
        }
    }
    if items.len() as u64 > request.binding.max_items {
        return fail(ErrorCode::ContextBudgetExceeded, "context_source.items");
    }
    let ghost p = item_fault(request@, items.deep_view());
    let ghost n = items.len() as int;
    let ghost whole = result_fault(request@, result@);
    let mut i: usize = 0;
    while i < items.len()
        invariant
            i <= items.len(),
            n == items.len(),
            p == item_fault(request@, items.deep_view()),
            whole == first_index_fault(i as int, n, p),
            whole == result_fault(request@, result@),
        decreases items.len() - i,
    {
        check_item(request, &items, i)?;
        i = i + 1;
    }
    Ok(())
}

/// What the identifier of a kept item is derived from.
pub open spec fn item_key_json(
    batch_id: Seq<char>,
    request: ContextRequestView,
    item_id: Seq<char>,
) -> JsonView {
    JsonView::Array(
        seq![
            source_ref_json(request.binding.source),
            definition_json(request.definition),
            scope_json(request.scope),
            JsonView::Text(request.run_id),
            JsonView::Text(batch_id),
            JsonView::Text(item_id),
        ],
    )
}

/// An item under the identifier that it is kept by.
pub open spec fn namespaced_item(batch_id: Seq<char>, request: ContextRequestView) -> spec_fn(
    ContextItemView,
) -> ContextItemView {
    |item: ContextItemView|
        item.renamed(
            "source-item-"@ + digest_of(item_key_json(batch_id, request, item.item_id)),
        )
}

/// Items under the identifiers that they are kept by.
pub open spec fn namespaced_items(
    batch_id: Seq<char>,
    request: ContextRequestView,
    items: Seq<ContextItemView>,
) -> Seq<ContextItemView> {
    items.map_values(namespaced_item(batch_id, request))
}

fn namespaced(batch_id: &Id, request: &ContextRequest, items: &Vec<ContextItem>) -> (r: Vec<
    ContextItem,
>)
    ensures
        r.deep_view() == namespaced_items(batch_id@, request@, items.deep_view()),
{
    let rename = |item: &ContextItem| -> (r: ContextItem)
        ensures
            r@ == namespaced_item(batch_id@, request@)(item@),
    {
        let key = vec![
            encode_source_ref(&request.binding.source),
            encode_definition(&request.definition),
            encode_scope(&request.scope),
            text(request.run_id.as_str()),
            text(batch_id.as_str()),
            text(item.item_id.as_str()),
        ];
        assert(key.deep_view() =~= item_key_json(batch_id@, request@, item@.item_id)->Array_0);
        let digest = canonical_digest(&array(key));
        proof {
            reveal_strlit("source-item-");
            assert(!white_space("source-item-"@[0]));
        }
        item.rename(Id::prefixed("source-item-", digest.as_str()))
    };
    map_each(items, rename, Ghost(namespaced_item(batch_id@, request@)))
}

/// The hash of what the identifier of a kept item is derived from.
pub open spec fn item_hash(
    batch_id: Seq<char>,
    request: ContextRequestView,
    item_id: Seq<char>,
) -> Seq<char> {
    sha256_hex(encode_utf8(canonical_text(item_key_json(batch_id, request, item_id))))
}

/// The items of an answer that fits its request have identifiers of their own, and two of them are
/// kept under one identifier only where the hashes of what it is derived from are the same.
pub proof fn law_kept_items_are_told_apart_by_their_hashes(
    batch_id: Seq<char>,
    request: ContextRequestView,
    result: ContextResultView,
    i: int,
    j: int,
)
    requires
        result_fault(request, result) is None,
        0 <= i < j < result.items().len(),
    ensures
        result.items()[i].item_id != result.items()[j].item_id,
        ({
            let kept = namespaced_items(batch_id, request, result.items());
            kept[i].item_id == kept[j].item_id <==> item_hash(
                batch_id,
                request,
                result.items()[i].item_id,
            ) == item_hash(batch_id, request, result.items()[j].item_id)
        }),
{
    let items = result.items();
    lemma_first_index_fault(0, items.len() as int, item_fault(request, items));
    assert(item_fault(request, items)(j) is None);
    assert(items.take(j)[i] == items[i]);
    let one = digest_of(item_key_json(batch_id, request, items[i].item_id));
    let other = digest_of(item_key_json(batch_id, request, items[j].item_id));
    let prefix = "source-item-"@;
    assert((prefix + one).skip(prefix.len() as int) =~= one);
    assert((prefix + other).skip(prefix.len() as int) =~= other);
    let label = "sorted-json-v1:sha256:"@;
    assert(one.skip(label.len() as int) =~= item_hash(batch_id, request, items[i].item_id));
    assert(other.skip(label.len() as int) =~= item_hash(batch_id, request, items[j].item_id));
}

/// The encoded slot of a binding.
pub open spec fn slot_json(binding: ContextBindingView) -> JsonView {
    JsonView::Array(seq![source_ref_json(binding.source), trigger_json(binding.trigger)])
}

fn slot_digest(binding: &ContextBinding) -> (r: JsonDigest)
    ensures
        r@ == digest_of(slot_json(binding@)),
{
    let items = vec![encode_source_ref(&binding.source), encode_trigger(&binding.trigger)];
    assert(items.deep_view() =~= slot_json(binding@)->Array_0);
    canonical_digest(&array(items))
}

/// The identity of a fragment that a request's run owns.
pub open spec fn run_identity(
    request: ContextRequestView,
    producer_id: Seq<char>,
    fragment_id: Seq<char>,
) -> FragmentIdentityView {
    FragmentIdentityView {
        scope: request.scope,
        owner: FragmentOwnerView::Run { run_id: request.run_id },
        producer_id,
        fragment_id,
    }
}

fn identity_in_run(request: &ContextRequest, producer_id: &Id, fragment_id: Id) -> (r:
    FragmentIdentity)
    ensures
        r@ == run_identity(request@, producer_id@, fragment_id@),
{
    FragmentIdentity {
        scope: request.scope.copy(),
        owner: FragmentOwner::Run { run_id: request.run_id.copy() },
        producer_id: producer_id.copy(),
        fragment_id,
    }
}

/// Every fragment revision of a history, in committed order.
pub open spec fn revisions_in(history: Seq<ContextBatchView>) -> Seq<ContextFragmentView>
    decreases history.len(),
{
    if history.len() == 0 {
        Seq::empty()
    } else {
        revisions_in(history.drop_last()) + history.last().fragments
    }
}

/// The revisions of a fragment.
pub open spec fn of_identity(identity: FragmentIdentityView) -> spec_fn(ContextFragmentView) -> bool {
    |fragment: ContextFragmentView| fragment.identity == identity
}

/// The latest revision of a fragment.
pub open spec fn head_of(
    revisions: Seq<ContextFragmentView>,
    identity: FragmentIdentityView,
) -> Option<ContextFragmentView> {
    last_in(revisions, of_identity(identity))
}

/// The number of the latest revision of a fragment.
pub open spec fn head_revision(
    revisions: Seq<ContextFragmentView>,
    identity: FragmentIdentityView,
) -> Option<u64> {
    match head_of(revisions, identity) {
        Some(fragment) => Some(fragment.core_revision),
        None => None,
    }
}

fn all_revisions(history: &Vec<ContextBatch>) -> (r: Vec<ContextFragment>)
    ensures
        r.deep_view() == revisions_in(history.deep_view()),
{
    let ghost s = history.deep_view();
    let mut out: Vec<ContextFragment> = Vec::new();
    let mut i: usize = 0;
    assert(s.take(0) =~= Seq::<ContextBatchView>::empty());
    assert(out.deep_view() =~= Seq::<ContextFragmentView>::empty());
    while i < history.len()
        invariant
            i <= history.len(),
            s == history.deep_view(),
            out.deep_view() == revisions_in(s.take(i as int)),
        decreases history.len() - i,
    {
        assert(s.take(i + 1).drop_last() =~= s.take(i as int));
        assert(s.take(i + 1).last() == history@[i as int]@);
        out = joined(&out, &history[i].fragments);
        i = i + 1;
    }
    assert(s.take(i as int) =~= s);
    out
}

fn head<'a>(revisions: &'a Vec<ContextFragment>, identity: &FragmentIdentity) -> (r: Option<
    &'a ContextFragment,
>)
    ensures
        r.deep_view() == head_of(revisions.deep_view(), identity@),
{
    let same = |fragment: &ContextFragment| -> (b: bool)
        ensures
            b == of_identity(identity@)(fragment@),
    { fragment.identity.same(identity) };
    find_last(revisions, same, Ghost(of_identity(identity@)))
}

fn order(
    request: &ContextRequest,
    batch_id: &Id,
    revisions: &Vec<ContextFragment>,
    identity: FragmentIdentity,
    source_revision: Option<Id>,
    value: FragmentValue,
) -> (r: FragmentOrder)
    ensures
        r@ == ordered(
            request@,
            batch_id@,
            revisions.deep_view(),
            identity@,
            source_revision.deep_view(),
            value@,
        ),
{
    let previous = match head(revisions, &identity) {
        Some(fragment) => Some(fragment.core_revision),
        None => None,
    };
    FragmentOrder {
        identity,
        previous,
        batch_id: batch_id.copy(),
        origin: request.definition.origin,
        source_revision,
        value,
    }
}

/// The order of the next revision of a fragment.
pub open spec fn ordered(
    request: ContextRequestView,
    batch_id: Seq<char>,
    revisions: Seq<ContextFragmentView>,
    identity: FragmentIdentityView,
    source_revision: Option<Seq<char>>,
    value: FragmentValueView,
) -> FragmentOrderView {
    FragmentOrderView {
        identity,
        previous: head_revision(revisions, identity),
        batch_id,
        origin: request.definition.origin,
        source_revision,
        value,
    }
}

/// The producer of a slot's items.
pub open spec fn producer_of(binding: ContextBindingView) -> Seq<char> {
    "source-"@ + digest_of(slot_json(binding))
}

/// The producer of a slot's selections.
pub open spec fn selector_of(binding: ContextBindingView) -> Seq<char> {
    "selection-"@ + digest_of(slot_json(binding))
}

/// The order for what a batch selects.
pub open spec fn selection_order(
    batch: ContextBatchView,
    revisions: Seq<ContextFragmentView>,
) -> FragmentOrderView {
    ordered(
        batch.request,
        batch.batch_id,
        revisions,
        run_identity(batch.request, selector_of(batch.request.binding), "selection"@),
        batch.result.source_revision(),
        FragmentValueView::Selection {
            status: batch.result.status(),
            item_ids: batch.result.items().map_values(|item: ContextItemView| item.item_id),
        },
    )
}

/// The source's own revision of an item.
pub open spec fn item_revision(result: ContextResultView, item_id: Seq<char>) -> Option<Seq<char>> {
    match result {
        ContextResultView::Ready { item_revisions, .. } => match first_in(
            item_revisions,
            |revision: ItemRevisionView| revision.item_id == item_id,
        ) {
            Some(revision) => Some(revision.revision),
            None => None,
        },
        _ => None,
    }
}

/// The order for one item of a batch.
pub open spec fn item_order(
    batch: ContextBatchView,
    revisions: Seq<ContextFragmentView>,
    i: int,
) -> FragmentOrderView {
    let original = batch.result.items()[i];
    ordered(
        batch.request,
        batch.batch_id,
        revisions,
        run_identity(batch.request, producer_of(batch.request.binding), original.item_id),
        item_revision(batch.result, original.item_id),
        FragmentValueView::Item { item: batch.items[i] },
    )
}

/// How many items of an answer are kept.
pub open spec fn kept_items(batch: ContextBatchView) -> int {
    if batch.result.items().len() <= batch.items.len() {
        batch.result.items().len() as int
    } else {
        batch.items.len() as int
    }
}

/// The orders for the items of a batch.
pub open spec fn item_orders(
    batch: ContextBatchView,
    revisions: Seq<ContextFragmentView>,
) -> Seq<FragmentOrderView> {
    Seq::new(kept_items(batch) as nat, |i: int| item_order(batch, revisions, i))
}

/// The fragments that orders name.
pub open spec fn identities(orders: Seq<FragmentOrderView>) -> Seq<FragmentIdentityView> {
    orders.map_values(|order: FragmentOrderView| order.identity)
}

/// The revisions that earlier batches of the same slot issued, latest batch first.
pub open spec fn slot_revisions(
    history: Seq<ContextBatchView>,
    binding: ContextBindingView,
) -> Seq<ContextFragmentView>
    decreases history.len(),
{
    if history.len() == 0 {
        Seq::empty()
    } else {
        let latest = history.last();
        let earlier = slot_revisions(history.drop_last(), binding);
        if latest.request.binding.source != binding.source || latest.request.binding.trigger
            != binding.trigger {
            earlier
        } else {
            latest.fragments + earlier
        }
    }
}

/// Why an item is withdrawn.
pub open spec fn withdrawal_reason(result: ContextResultView, fragment_id: Seq<char>) -> Seq<char> {
    match result {
        ContextResultView::Deleted { item_ids, .. } => if item_ids.contains(fragment_id) {
            "deleted"@
        } else {
            "empty"@
        },
        ContextResultView::Ready { .. } => "replaced"@,
        _ => result.status(),
    }
}

/// A revision is an item that the slot still shows and the batch no longer holds.
pub open spec fn is_withdrawn(
    batch: ContextBatchView,
    revisions: Seq<ContextFragmentView>,
    present: Seq<FragmentIdentityView>,
    prior: ContextFragmentView,
) -> bool {
    &&& prior.identity.producer_id == producer_of(batch.request.binding)
    &&& !present.contains(prior.identity)
    &&& head_of(revisions, prior.identity) == Some(prior)
    &&& prior.value is Item
}

/// The order that withdraws an item.
pub open spec fn withdrawal_order(
    batch: ContextBatchView,
    prior: ContextFragmentView,
) -> FragmentOrderView {
    FragmentOrderView {
        identity: prior.identity,
        previous: Some(prior.core_revision),
        batch_id: batch.batch_id,
        origin: batch.request.definition.origin,
        source_revision: None,
        value: FragmentValueView::Tombstone {
            reason: withdrawal_reason(batch.result, prior.identity.fragment_id),
        },
    }
}

/// The orders that withdraw items, in their previous committed order.
pub open spec fn withdrawal_orders(
    batch: ContextBatchView,
    revisions: Seq<ContextFragmentView>,
    candidates: Seq<ContextFragmentView>,
    present: Seq<FragmentIdentityView>,
) -> Seq<FragmentOrderView>
    decreases candidates.len(),
{
    if candidates.len() == 0 {
        Seq::empty()
    } else {
        let prior = candidates[0];
        if is_withdrawn(batch, revisions, present, prior) {
            seq![withdrawal_order(batch, prior)] + withdrawal_orders(
                batch,
                revisions,
                candidates.skip(1),
                present.push(prior.identity),
            )
        } else {
            withdrawal_orders(batch, revisions, candidates.skip(1), present)
        }
    }
}

/// The orders for deleted items that were not withdrawn as active ones.
pub open spec fn deletion_orders(
    batch: ContextBatchView,
    revisions: Seq<ContextFragmentView>,
    item_ids: Seq<Seq<char>>,
    present: Seq<FragmentIdentityView>,
) -> Seq<FragmentOrderView>
    decreases item_ids.len(),
{
    if item_ids.len() == 0 {
        Seq::empty()
    } else {
        let identity = run_identity(
            batch.request,
            producer_of(batch.request.binding),
            item_ids[0],
        );
        if present.contains(identity) {
            deletion_orders(batch, revisions, item_ids.skip(1), present)
        } else {
            seq![
                ordered(
                    batch.request,
                    batch.batch_id,
                    revisions,
                    identity,
                    None,
                    FragmentValueView::Tombstone { reason: "deleted"@ },
                ),
            ] + deletion_orders(batch, revisions, item_ids.skip(1), present.push(identity))
        }
    }
}

/// Every fragment revision that a batch issues after a history, in order: what it selects, its
/// items, the items that it withdraws, and the items that its source deleted.
pub open spec fn fragment_orders(
    batch: ContextBatchView,
    history: Seq<ContextBatchView>,
) -> Seq<FragmentOrderView> {
    let revisions = revisions_in(history);
    let items = item_orders(batch, revisions);
    let withdrawals = withdrawal_orders(
        batch,
        revisions,
        slot_revisions(history, batch.request.binding),
        identities(items),
    );
    let deletions = match batch.result {
        ContextResultView::Deleted { item_ids, .. } => deletion_orders(
            batch,
            revisions,
            item_ids,
            identities(items) + identities(withdrawals),
        ),
        _ => Seq::empty(),
    };
    seq![selection_order(batch, revisions)] + items + withdrawals + deletions
}

/// Why the fragments of a batch cannot be issued.
pub open spec fn fragments_fault(
    batch: ContextBatchView,
    history: Seq<ContextBatchView>,
) -> Option<Fault> {
    first_fault(fragment_orders(batch, history), |order: FragmentOrderView| issue_fault(order))
}

/// The fragments that a batch issues.
pub open spec fn fragments_of(
    batch: ContextBatchView,
    history: Seq<ContextBatchView>,
) -> Seq<ContextFragmentView> {
    fragment_orders(batch, history).map_values(|order: FragmentOrderView| issued(order))
}

/// What the token estimator made of the items of a batch.
#[derive(Debug)]
pub enum Estimate {
    /// The estimator panicked.
    Panicked,
    /// The estimator failed with this code.
    Failed(ErrorCode),
    /// The estimated number of tokens.
    Tokens(u64),
}

/// Why an estimate is missing.
pub open spec fn estimate_fault(estimate: Estimate) -> Option<Fault> {
    match estimate {
        Estimate::Panicked => fault(ErrorCode::InvalidContract, "context_source.estimator"),
        Estimate::Failed(code) => fault(code, "context_source.estimator"),
        Estimate::Tokens(_) => None,
    }
}

/// Read an estimate.
pub fn estimated(estimate: &Estimate) -> (r: Result<u64, ContractError>)
    ensures
        failure(r) == estimate_fault(*estimate),
        r matches Ok(tokens) ==> *estimate == Estimate::Tokens(tokens),
{
    match estimate {
        Estimate::Panicked => fail(ErrorCode::InvalidContract, "context_source.estimator"),
        Estimate::Failed(code) => fail(*code, "context_source.estimator"),
        Estimate::Tokens(tokens) => Ok(*tokens),
    }
}

/// The batch of an answer before its fragments are issued.
pub open spec fn draft_batch(
    batch_id: Seq<char>,
    request: ContextRequestView,
    result: ContextResultView,
    collected_at_ms: i64,
    estimator_version: VersionedRefView,
    estimate: Estimate,
) -> ContextBatchView {
    ContextBatchView {
        schema_version: batch_version(),
        batch_id,
        request,
        result,
        items: namespaced_items(batch_id, request, result.items()),
        fragments: Seq::empty(),
        collected_at_ms,
        estimated_tokens: if result.items().len() == 0 {
            0
        } else {
            estimate->Tokens_0
        },
        estimator_version,
    }
}

/// The batch of an answer.
pub open spec fn collected_batch(
    draft: ContextBatchView,
    history: Seq<ContextBatchView>,
) -> ContextBatchView {
    ContextBatchView { fragments: fragments_of(draft, history), ..draft }
}

/// Why an answer cannot be kept.
pub open spec fn collection_fault(
    draft: ContextBatchView,
    estimate: Estimate,
    history: Seq<ContextBatchView>,
) -> Option<Fault> {
    if result_fault(draft.request, draft.result) is Some {
        result_fault(draft.request, draft.result)
    } else if bytes_fault(items_json(draft.items), draft.request.binding.max_bytes) is Some {
        bytes_fault(items_json(draft.items), draft.request.binding.max_bytes)
    } else if draft.items.len() != 0 && estimate_fault(estimate) is Some {
        estimate_fault(estimate)
    } else if fragments_fault(draft, history) is Some {
        fragments_fault(draft, history)
    } else {
        batch_fault(collected_batch(draft, history))
    }
}

/// Why a fragment does not belong to a batch.
pub open spec fn fragment_fault(batch: ContextBatchView) -> spec_fn(ContextFragmentView) -> Option<
    Fault,
> {
    |fragment: ContextFragmentView|
        if fragment.defect is Some {
            fragment.defect
        } else if fragment.batch_id != batch.batch_id || fragment.identity.scope
            != batch.request.scope || fragment.identity.owner != (FragmentOwnerView::Run {
            run_id: batch.request.run_id,
        }) || fragment.origin != batch.request.definition.origin {
            fault(ErrorCode::InvalidSnapshot, "context_source.fragment_identity")
        } else {
            None
        }
}

/// Why a batch is invalid.
pub open spec fn batch_fault(batch: ContextBatchView) -> Option<Fault> {
    if batch.schema_version != batch_version() && batch.schema_version != legacy_version() {
        fault(ErrorCode::UnsupportedSchemaVersion, "context_source.batch_version")
    } else if request_fault(batch.request) is Some {
        request_fault(batch.request)
    } else if result_fault(batch.request, batch.result) is Some {
        result_fault(batch.request, batch.result)
    } else if batch.schema_version == legacy_version() && batch.fragments.len() != 0 {
        fault(ErrorCode::InvalidSnapshot, "context_source.legacy_fragments")
    } else if batch.schema_version == batch_version() && batch.fragments.len() == 0 {
        fault(ErrorCode::InvalidSnapshot, "context_source.fragments_missing")
    } else if batch.schema_version == batch_version() && first_fault(
        batch.fragments,
        fragment_fault(batch),
    ) is Some {
        first_fault(batch.fragments, fragment_fault(batch))
    } else if batch.items != namespaced_items(
        batch.batch_id,
        batch.request,
        batch.result.items(),
    ) {
        fault(ErrorCode::InvalidSnapshot, "context_source.namespace")
    } else if bytes_fault(items_json(batch.items), batch.request.binding.max_bytes) is Some {
        bytes_fault(items_json(batch.items), batch.request.binding.max_bytes)
    } else if batch.estimated_tokens > batch.request.binding.max_tokens || (batch.items.len() == 0
        && batch.estimated_tokens != 0) {
        fault(ErrorCode::ContextBudgetExceeded, "context_source.tokens")
    } else {
        None
    }
}

/// The reference of a batch.
pub open spec fn batch_reference(batch: ContextBatchView) -> RecordRefView {
    RecordRefView {
        record_id: batch.batch_id,
        revision: 1,
        digest: digest_of(batch_json(batch)),
    }
}

/// The planned slot that a batch answers for.
pub open spec fn answers_slot(batch: ContextBatchView) -> spec_fn(PlannedContextSourceView) -> bool {
    |entry: PlannedContextSourceView|
        entry.binding == batch.request.binding && entry.definition == batch.request.definition
}

/// What a record holds, read as a batch.
pub open spec fn batch_in(record: ProtectedRecordView) -> Option<ContextBatchView> {
    match record.content {
        RecordContentView::Batch(batch) => Some(batch),
        _ => None,
    }
}

/// Why a record is not a batch of a run under a plan.
pub open spec fn batch_restore_fault(
    record: ProtectedRecordView,
    plan: ContextSourcePlanView,
    scope: ScopeView,
    run_id: Seq<char>,
) -> Option<Fault> {
    match batch_in(record) {
        None => fault(ErrorCode::InvalidSnapshot, "context_source.batch"),
        Some(batch) => if batch_reference(batch) != record.reference || batch.request.scope != scope
            || plan.scope != scope || batch.request.run_id != run_id || batch.estimator_version
            != plan.estimator_version {
            fault(ErrorCode::InvalidSnapshot, "context_source.batch_identity")
        } else if !some_in(plan.bindings, answers_slot(batch)) {
            fault(ErrorCode::InvalidSnapshot, "context_source.batch_plan")
        } else {
            batch_fault(batch)
        },
    }
}

impl ContextBatch {
    /// Exact protected identity of this immutable batch.
    pub fn reference(&self) -> (r: RecordRef)
        ensures
            r@ == batch_reference(self@),
    {
        RecordRef {
            record_id: self.batch_id.copy(),
            revision: 1,
            digest: canonical_digest(&encode_batch(self)),
        }
    }

    /// Build the protected record committed alongside its active source slot.
    pub fn to_record(&self) -> (r: ProtectedRecord)
        ensures
            r@.reference == batch_reference(self@),
            r@.value == batch_json(self@),
            batch_in(r@) == Some(self@),
    {
        ProtectedRecord::new(
            self.batch_id.copy(),
            1,
            encode_batch(self),
            RecordContent::Batch(Box::new(self.copy())),
        )
    }

    /// Original query and source limits.
    pub fn request(&self) -> (r: &ContextRequest)
        ensures
            r@ == self@.request,
    {
        &self.request
    }

    /// Original reply, with the source's own item identifiers.
    pub fn result(&self) -> (r: &ContextResult)
        ensures
            r@ == self@.result,
    {
        &self.result
    }

    /// Validated namespaced items, empty unless the reply was ready.
    pub fn items(&self) -> (r: &Vec<ContextItem>)
        ensures
            r.deep_view() == self@.items,
    {
        &self.items
    }

    /// Issued observations and withdrawals in committed order.
    pub fn fragments(&self) -> (r: &Vec<ContextFragment>)
        ensures
            r.deep_view() == self@.fragments,
    {
        &self.fragments
    }

    /// Estimated tokens of the kept items.
    pub fn estimated_tokens(&self) -> (r: u64)
        ensures
            r == self@.estimated_tokens,
    {
        self.estimated_tokens
    }

    /// Observed collection completion time.
    pub fn collected_at_ms(&self) -> (r: i64)
        ensures
            r == self@.collected_at_ms,
    {
        self.collected_at_ms
    }

    /// Trusted algorithm used for the stored estimate.
    pub fn estimator_version(&self) -> (r: &VersionedRef)
        ensures
            r@ == self@.estimator_version,
    {
        &self.estimator_version
    }

    /// Validate issuance against all earlier committed batches of the run.
    pub fn validate_fragment_history(&self, history: &Vec<ContextBatch>) -> (r: Result<
        (),
        ContractError,
    >)
        ensures
            failure(r) == (if self@.schema_version != batch_version() {
                None
            } else if fragments_fault(self@, history.deep_view()) is Some {
                fragments_fault(self@, history.deep_view())
            } else if self@.fragments != fragments_of(self@, history.deep_view()) {
                fault(ErrorCode::InvalidSnapshot, "context_source.fragment_history")
            } else {
                None
            }),
    {
        if reads(&self.schema_version, "wickle.context-batch.v2") {
            let expected = self.issue_fragments(history)?;
            if !self.fragments.same(&expected) {
                return fail(ErrorCode::InvalidSnapshot, "context_source.fragment_history");
            }
        }
        Ok(())
    }

    /// Restore and validate identity, source claims, sizes and namespace.
    pub fn restore<'a>(
        record: &'a ProtectedRecord,
        plan: &ContextSourcePlan,
        scope: &Scope,
        run_id: &Id,
    ) -> (r: Result<&'a Self, ContractError>)
        ensures
            failure(r) == batch_restore_fault(record@, plan@, scope@, run_id@),
            r matches Ok(batch) ==> batch_in(record@) == Some(batch@),
    {
        let batch: &'a ContextBatch = match ContextBatch::read(record.content()) {
            Some(batch) => batch,
            None => {
                return fail(ErrorCode::InvalidSnapshot, "context_source.batch");
            },
        };
        if !batch.reference().same(record.reference()) || !batch.request.scope.same(scope)
            || !plan.scope.same(scope) || !batch.request.run_id.same(run_id)
            || !batch.estimator_version.same(&plan.estimator_version) {
            return fail(ErrorCode::InvalidSnapshot, "context_source.batch_identity");
        }
        let slot = |entry: &PlannedContextSource| -> (b: bool)
            ensures
                b == answers_slot(batch@)(entry@),
        {
            entry.binding.same(&batch.request.binding) && entry.definition.same(
                &batch.request.definition,
            )
        };
        if !any(&plan.bindings, slot, Ghost(answers_slot(batch@))) {
            return fail(ErrorCode::InvalidSnapshot, "context_source.batch_plan");
        }
        batch.validate()?;
        Ok(batch)
    }

    /// Check an answer and derive the items that its batch keeps.
    pub fn draft_items(batch_id: &Id, request: &ContextRequest, result: &ContextResult) -> (r:
        Result<Vec<ContextItem>, ContractError>)
        ensures
            failure(r) == or_else(
                result_fault(request@, result@),
                bytes_fault(
                    items_json(namespaced_items(batch_id@, request@, result@.items())),
                    request@.binding.max_bytes,
                ),
            ),
            r matches Ok(items) ==> items.deep_view() == namespaced_items(
                batch_id@,
                request@,
                result@.items(),
            ),
    {
        validate_result(request, result)?;
        let items = namespaced(batch_id, request, &result.items());
        check_bytes(&encode_items(&items), request.binding.max_bytes)?;
        Ok(items)
    }

    /// Keep an answer. `estimate` is what the estimator made of the derived items; it is not
    /// looked at where there are none.
    pub fn new(
        batch_id: Id,
        request: ContextRequest,
        result: ContextResult,
        collected_at_ms: i64,
        estimator_version: VersionedRef,
        estimate: Estimate,
        history: &Vec<ContextBatch>,
    ) -> (r: Result<Self, ContractError>)
        ensures
            ({
                let draft = draft_batch(
                    batch_id@,
                    request@,
                    result@,
                    collected_at_ms,
                    estimator_version@,
                    estimate,
                );
                &&& failure(r) == collection_fault(draft, estimate, history.deep_view())
                &&& r matches Ok(batch) ==> batch@ == collected_batch(draft, history.deep_view())
            }),
    {
        let ghost draft = draft_batch(
            batch_id@,
            request@,
            result@,
            collected_at_ms,
            estimator_version@,
            estimate,
        );
        let items = ContextBatch::draft_items(&batch_id, &request, &result)?;
        assert(items.deep_view().len() == items.len());
        let estimated_tokens: u64 = if items.len() == 0 {
            0
        } else {
            estimated(&estimate)?
        };
        let mut batch = ContextBatch {
            schema_version: "wickle.context-batch.v2".to_owned(),
            batch_id,
            request,
            result,
            items,
            fragments: Vec::new(),
            collected_at_ms,
            estimated_tokens,
            estimator_version,
        };
        assert(batch@ =~= draft);
        let fragments = batch.issue_fragments(history)?;
        batch.fragments = fragments;
        assert(batch@ =~= collected_batch(draft, history.deep_view()));
        batch.validate()?;
        Ok(batch)
    }

    /// Check the batch against its own request and format.
    pub fn validate(&self) -> (r: Result<(), ContractError>)
        ensures
            failure(r) == batch_fault(self@),
    {
        let current = reads(&self.schema_version, "wickle.context-batch.v2");
        let legacy = reads(&self.schema_version, "wickle.context-batch.v1");
        if !current && !legacy {
            return fail(ErrorCode::UnsupportedSchemaVersion, "context_source.batch_version");
        }
        self.request.validate()?;
        validate_result(&self.request, &self.result)?;
        if legacy && self.fragments.len() != 0 {
            return fail(ErrorCode::InvalidSnapshot, "context_source.legacy_fragments");
        }
        if current {
            if self.fragments.len() == 0 {
                return fail(ErrorCode::InvalidSnapshot, "context_source.fragments_missing");
            }
            let belongs = |fragment: &ContextFragment| -> (r: Result<(), ContractError>)
                ensures
                    failure(r) == fragment_fault(self@)(fragment@),
            {
                verdict(&fragment.defect)?;
                let owner = FragmentOwner::Run { run_id: self.request.run_id.copy() };
                if !fragment.batch_id.same(&self.batch_id) || !fragment.identity.scope.same(
                    &self.request.scope,
                ) || !fragment.identity.owner.same(&owner) || fragment.origin
                    != self.request.definition.origin {
                    return fail(ErrorCode::InvalidSnapshot, "context_source.fragment_identity");
                }
                Ok(())
            };
            check_each(&self.fragments, belongs, Ghost(fragment_fault(self@)))?;
        }
        if !self.items.same(&namespaced(&self.batch_id, &self.request, &self.result.items())) {
            return fail(ErrorCode::InvalidSnapshot, "context_source.namespace");
        }
        check_bytes(&encode_items(&self.items), self.request.binding.max_bytes)?;
        if self.estimated_tokens > self.request.binding.max_tokens || (self.items.len() == 0
            && self.estimated_tokens != 0) {
            return fail(ErrorCode::ContextBudgetExceeded, "context_source.tokens");
        }
        Ok(())
    }
}

fn slot_history(history: &Vec<ContextBatch>, binding: &ContextBinding) -> (r: Vec<ContextFragment>)
    ensures
        r.deep_view() == slot_revisions(history.deep_view(), binding@),
{
    let ghost s = history.deep_view();
    let mut out: Vec<ContextFragment> = Vec::new();
    let mut i: usize = 0;
    assert(s.take(0) =~= Seq::<ContextBatchView>::empty());
    assert(out.deep_view() =~= Seq::<ContextFragmentView>::empty());
    while i < history.len()
        invariant
            i <= history.len(),
            s == history.deep_view(),
            out.deep_view() == slot_revisions(s.take(i as int), binding@),
        decreases history.len() - i,
    {
        assert(s.take(i + 1).drop_last() =~= s.take(i as int));
        assert(s.take(i + 1).last() == history@[i as int]@);
        let batch = &history[i];
        if batch.request.binding.source.same(&binding.source) && batch.request.binding.trigger
            == binding.trigger {
            out = joined(&batch.fragments, &out);
        }
        i = i + 1;
    }
    assert(s.take(i as int) =~= s);
    out
}

fn reason_of(result: &ContextResult, fragment_id: &Id) -> (r: Id)
    ensures
        r@ == withdrawal_reason(result@, fragment_id@),
{
    proof {
        reveal_strlit("deleted");
        reveal_strlit("empty");
        reveal_strlit("replaced");
        assert(!white_space("deleted"@[0]) && !white_space("empty"@[0]) && !white_space(
            "replaced"@[0],
        ));
    }
    match result {
        ContextResult::Deleted { item_ids, .. } => if contains(item_ids, fragment_id) {
            Id::literal("deleted")
        } else {
            Id::literal("empty")
        },
        ContextResult::Ready { .. } => Id::literal("replaced"),
        _ => result.status(),
    }
}

fn identities_of(orders: &Vec<FragmentOrder>) -> (r: Vec<FragmentIdentity>)
    ensures
        r.deep_view() == identities(orders.deep_view()),
{
    let f = |order: &FragmentOrder| -> (r: FragmentIdentity)
        ensures
            r@ == order@.identity,
    { order.identity.copy() };
    map_each(orders, f, Ghost(|order: FragmentOrderView| order.identity))
}

impl ContextBatch {
    fn producer(&self) -> (r: Id)
        ensures
            r@ == producer_of(self@.request.binding),
    {
        proof {
            reveal_strlit("source-");
            assert(!white_space("source-"@[0]));
        }
        Id::prefixed("source-", slot_digest(&self.request.binding).as_str())
    }

    fn order_selection(&self, revisions: &Vec<ContextFragment>) -> (r: FragmentOrder)
        ensures
            r@ == selection_order(self@, revisions.deep_view()),
    {
        proof {
            reveal_strlit("selection-");
            reveal_strlit("selection");
            assert(!white_space("selection-"@[0]) && !white_space("selection"@[0]));
        }
        let selector = Id::prefixed("selection-", slot_digest(&self.request.binding).as_str());
        let named = |item: &ContextItem| -> (r: Id)
            ensures
                r@ == item@.item_id,
        { item.item_id.copy() };
        let item_ids = map_each(
            &self.result.items(),
            named,
            Ghost(|item: ContextItemView| item.item_id),
        );
        let source_revision = match self.result.source_revision() {
            Some(revision) => Some(revision.copy()),
            None => None,
        };
        order(
            &self.request,
            &self.batch_id,
            revisions,
            identity_in_run(&self.request, &selector, Id::literal("selection")),
            source_revision,
            FragmentValue::Selection { status: self.result.status(), item_ids },
        )
    }

    fn revision_of(&self, item_id: &Id) -> (r: Option<Id>)
        ensures
            r.deep_view() == item_revision(self@.result, item_id@),
    {
        match &self.result {
            ContextResult::Ready { item_revisions, .. } => {
                let named = |revision: &ItemRevision| -> (b: bool)
                    ensures
                        b == (revision@.item_id == item_id@),
                { revision.item_id.same(item_id) };
                match find(
                    item_revisions,
                    named,
                    Ghost(|revision: ItemRevisionView| revision.item_id == item_id@),
                ) {
                    Some(revision) => Some(revision.revision.copy()),
                    None => None,
                }
            },
            _ => None,
        }
    }

    fn order_items(&self, revisions: &Vec<ContextFragment>) -> (r: Vec<FragmentOrder>)
        ensures
            r.deep_view() == item_orders(self@, revisions.deep_view()),
    {
        let originals = self.result.items();
        let producer = self.producer();
        let mut out: Vec<FragmentOrder> = Vec::new();
        let mut i: usize = 0;
        while i < originals.len() && i < self.items.len()
            invariant
                i <= originals.len(),
                i <= self.items.len(),
                originals.deep_view() == self@.result.items(),
                producer@ == producer_of(self@.request.binding),
                out.len() == i,
                forall|j: int|
                    0 <= j < i ==> #[trigger] out.deep_view()[j] == item_order(
                        self@,
                        revisions.deep_view(),
                        j,
                    ),
            decreases originals.len() - i,
        {
            let original = &originals[i];
            assert(original@ == self@.result.items()[i as int]);
            assert(self@.items[i as int] == self.items@[i as int]@);
            let next = order(
                &self.request,
                &self.batch_id,
                revisions,
                identity_in_run(&self.request, &producer, original.item_id.copy()),
                self.revision_of(&original.item_id),
                FragmentValue::Item { item: self.items[i].copy() },
            );
            let ghost added = next@;
            assert(added == item_order(self@, revisions.deep_view(), i as int));
            let ghost before = out.deep_view();
            out.push(next);
            assert(out.deep_view() =~= before.push(added));
            i = i + 1;
        }
        assert(out.deep_view() =~= item_orders(self@, revisions.deep_view()));
        out
    }

    fn is_due_for_withdrawal(
        &self,
        producer: &Id,
        revisions: &Vec<ContextFragment>,
        present: &Vec<FragmentIdentity>,
        prior: &ContextFragment,
    ) -> (r: bool)
        requires
            producer@ == producer_of(self@.request.binding),
        ensures
            r == is_withdrawn(self@, revisions.deep_view(), present.deep_view(), prior@),
    {
        let is_item = match &prior.value {
            FragmentValue::Item { .. } => true,
            _ => false,
        };
        let is_head = match head(revisions, &prior.identity) {
            Some(latest) => latest.same(prior),
            None => false,
        };
        prior.identity.producer_id.same(producer) && !contains(present, &prior.identity) && is_head
            && is_item
    }

    fn order_withdrawals(
        &self,
        revisions: &Vec<ContextFragment>,
        candidates: &Vec<ContextFragment>,
        items: &Vec<FragmentOrder>,
    ) -> (r: Vec<FragmentOrder>)
        ensures
            r.deep_view() == withdrawal_orders(
                self@,
                revisions.deep_view(),
                candidates.deep_view(),
                identities(items.deep_view()),
            ),
    {
        let ghost s = candidates.deep_view();
        let ghost known = revisions.deep_view();
        let ghost start = identities(items.deep_view());
        let producer = self.producer();
        let mut present = identities_of(items);
        let mut out: Vec<FragmentOrder> = Vec::new();
        let mut i: usize = 0;
        assert(s.skip(0) =~= s);
        assert(out.deep_view() =~= Seq::<FragmentOrderView>::empty());
        while i < candidates.len()
            invariant
                i <= candidates.len(),
                s == candidates.deep_view(),
                known == revisions.deep_view(),
                start == identities(items.deep_view()),
                producer@ == producer_of(self@.request.binding),
                withdrawal_orders(self@, known, s, start) =~= out.deep_view() + withdrawal_orders(
                    self@,
                    known,
                    s.skip(i as int),
                    present.deep_view(),
                ),
            decreases candidates.len() - i,
        {
            let prior = &candidates[i];
            assert(s.skip(i as int)[0] == prior@);
            assert(s.skip(i as int).skip(1) =~= s.skip(i + 1));
            if self.is_due_for_withdrawal(&producer, revisions, &present, prior) {
                let next = FragmentOrder {
                    identity: prior.identity.copy(),
                    previous: Some(prior.core_revision),
                    batch_id: self.batch_id.copy(),
                    origin: self.request.definition.origin,
                    source_revision: None,
                    value: FragmentValue::Tombstone {
                        reason: reason_of(&self.result, &prior.identity.fragment_id),
                    },
                };
                let ghost added = next@;
                assert(added == withdrawal_order(self@, prior@));
                let ghost before = out.deep_view();
                let ghost held = present.deep_view();
                out.push(next);
                present.push(prior.identity.copy());
                assert(out.deep_view() =~= before.push(added));
                assert(present.deep_view() =~= held.push(prior@.identity));
            }
            i = i + 1;
        }
        assert(withdrawal_orders(self@, known, s.skip(i as int), present.deep_view()) =~= Seq::<
            FragmentOrderView,
        >::empty());
        out
    }

    fn order_deletions(
        &self,
        revisions: &Vec<ContextFragment>,
        item_ids: &Vec<Id>,
        present: Vec<FragmentIdentity>,
    ) -> (r: Vec<FragmentOrder>)
        ensures
            r.deep_view() == deletion_orders(
                self@,
                revisions.deep_view(),
                item_ids.deep_view(),
                present.deep_view(),
            ),
    {
        let ghost s = item_ids.deep_view();
        let ghost known = revisions.deep_view();
        let ghost start = present.deep_view();
        let producer = self.producer();
        let mut present = present;
        let mut out: Vec<FragmentOrder> = Vec::new();
        let mut i: usize = 0;
        assert(s.skip(0) =~= s);
        assert(out.deep_view() =~= Seq::<FragmentOrderView>::empty());
        proof {
            reveal_strlit("deleted");
            assert(!white_space("deleted"@[0]));
        }
        while i < item_ids.len()
            invariant
                i <= item_ids.len(),
                s == item_ids.deep_view(),
                known == revisions.deep_view(),
                producer@ == producer_of(self@.request.binding),
                !blank("deleted"@),
                deletion_orders(self@, known, s, start) =~= out.deep_view() + deletion_orders(
                    self@,
                    known,
                    s.skip(i as int),
                    present.deep_view(),
                ),
            decreases item_ids.len() - i,
        {
            let item_id = &item_ids[i];
            assert(s.skip(i as int)[0] == item_id@);
            assert(s.skip(i as int).skip(1) =~= s.skip(i + 1));
            let identity = identity_in_run(&self.request, &producer, item_id.copy());
            if !contains(&present, &identity) {
                let ghost held = present.deep_view();
                let ghost before = out.deep_view();
                let ghost named = identity@;
                present.push(identity.copy());
                let next = order(
                    &self.request,
                    &self.batch_id,
                    revisions,
                    identity,
                    None,
                    FragmentValue::Tombstone { reason: Id::literal("deleted") },
                );
                let ghost added = next@;
                out.push(next);
                assert(out.deep_view() =~= before.push(added));
                assert(present.deep_view() =~= held.push(named));
            }
            i = i + 1;
        }
        assert(deletion_orders(self@, known, s.skip(i as int), present.deep_view()) =~= Seq::<
            FragmentOrderView,
        >::empty());
        out
    }

    fn orders(&self, history: &Vec<ContextBatch>) -> (r: Vec<FragmentOrder>)
        ensures
            r.deep_view() == fragment_orders(self@, history.deep_view()),
    {
        let revisions = all_revisions(history);
        let selection = self.order_selection(&revisions);
        let ghost first = selection@;
        let mut out: Vec<FragmentOrder> = Vec::new();
        out.push(selection);
        assert(out.deep_view() =~= seq![first]);
        let items = self.order_items(&revisions);
        let candidates = slot_history(history, &self.request.binding);
        let withdrawals = self.order_withdrawals(&revisions, &candidates, &items);
        let out = joined(&joined(&out, &items), &withdrawals);
        let out = match &self.result {
            ContextResult::Deleted { item_ids, .. } => {
                let present = joined(&identities_of(&items), &identities_of(&withdrawals));
                joined(&out, &self.order_deletions(&revisions, item_ids, present))
            },
            _ => out,
        };
        assert(out.deep_view() =~= fragment_orders(self@, history.deep_view()));
        out
    }

    /// Issue the fragment revisions of this batch after a history.
    pub fn issue_fragments(&self, history: &Vec<ContextBatch>) -> (r: Result<
        Vec<ContextFragment>,
        ContractError,
    >)
        ensures
            failure(r) == fragments_fault(self@, history.deep_view()),
            r matches Ok(fragments) ==> fragments.deep_view() == fragments_of(
                self@,
                history.deep_view(),
            ),
    {
        let orders = self.orders(history);
        let ghost s = orders.deep_view();
        let ghost f = |order: FragmentOrderView| issue_fault(order);
        let ghost g = |order: FragmentOrderView| issued(order);
        let mut out: Vec<ContextFragment> = Vec::new();
        let mut i: usize = 0;
        assert(s.skip(0) =~= s);
        while i < orders.len()
            invariant
                i <= orders.len(),
                s == orders.deep_view(),
                s == fragment_orders(self@, history.deep_view()),
                f == (|order: FragmentOrderView| issue_fault(order)),
                g == (|order: FragmentOrderView| issued(order)),
                fragments_fault(self@, history.deep_view()) == first_fault(s, f),
                first_fault(s, f) == first_fault(s.skip(i as int), f),
                out.deep_view() =~= s.take(i as int).map_values(g),
            decreases orders.len() - i,
        {
            assert(s.skip(i as int)[0] == orders@[i as int]@);
            assert(s.skip(i as int).skip(1) =~= s.skip(i + 1));
            assert(s.take(i + 1) =~= s.take(i as int).push(s[i as int]));
            let fragment = ContextFragment::issue(&orders[i])?;
            let ghost before = out.deep_view();
            let ghost added = fragment@;
            out.push(fragment);
            assert(out.deep_view() =~= before.push(added));
            i = i + 1;
        }
        assert(s.take(i as int) =~= s);
        Ok(out)
    }
}

/// Every revision that a batch issues is new: it follows the latest revision of its fragment by
/// one, and the first revision is one.
pub proof fn law_fragment_revisions_advance(
    batch: ContextBatchView,
    history: Seq<ContextBatchView>,
    i: int,
)
    requires
        fragments_fault(batch, history) is None,
        0 <= i < fragments_of(batch, history).len(),
    ensures
        ({
            let fragment = fragments_of(batch, history)[i];
            fragment.core_revision == (match head_revision(
                revisions_in(history),
                fragment.identity,
            ) {
                Some(latest) => latest + 1,
                None => 1,
            })
        }),
{
    let revisions = revisions_in(history);
    let orders = fragment_orders(batch, history);
    crate::data::lemma_first_fault(orders, |order: FragmentOrderView| issue_fault(order));
    let f = |order: FragmentOrderView| issue_fault(order);
    assert(f(orders[i]) is None);
    let items = item_orders(batch, revisions);
    let candidates = slot_revisions(history, batch.request.binding);
    let withdrawals = withdrawal_orders(batch, revisions, candidates, identities(items));
    lemma_withdrawals_follow(batch, revisions, candidates, identities(items));
    if let ContextResultView::Deleted { item_ids, .. } = batch.result {
        lemma_deletions_follow(
            batch,
            revisions,
            item_ids,
            identities(items) + identities(withdrawals),
        );
    }
    assert(orders[i].previous == head_revision(revisions, orders[i].identity)) by {
        let n1 = 1 + items.len();
        let n2 = n1 + withdrawals.len();
        if i >= n2 {
            let deletions = orders.skip(n2 as int);
            assert(deletions[i - n2] == orders[i]);
            assert(deletions =~= (match batch.result {
                ContextResultView::Deleted { item_ids, .. } => deletion_orders(
                    batch,
                    revisions,
                    item_ids,
                    identities(items) + identities(withdrawals),
                ),
                _ => Seq::empty(),
            }));
        } else if i >= n1 {
            assert(orders[i] == withdrawals[i - n1]);
        } else if i >= 1 {
            assert(orders[i] == items[i - 1]);
        }
    }
}

proof fn lemma_withdrawals_follow(
    batch: ContextBatchView,
    revisions: Seq<ContextFragmentView>,
    candidates: Seq<ContextFragmentView>,
    present: Seq<FragmentIdentityView>,
)
    ensures
        forall|i: int|
            0 <= i < withdrawal_orders(batch, revisions, candidates, present).len() ==> (
            #[trigger] withdrawal_orders(batch, revisions, candidates, present)[i]).previous
                == head_revision(
                revisions,
                withdrawal_orders(batch, revisions, candidates, present)[i].identity,
            ),
    decreases candidates.len(),
{
    if candidates.len() > 0 {
        let prior = candidates[0];
        lemma_withdrawals_follow(
            batch,
            revisions,
            candidates.skip(1),
            present.push(prior.identity),
        );
        lemma_withdrawals_follow(batch, revisions, candidates.skip(1), present);
    }
}

proof fn lemma_deletions_follow(
    batch: ContextBatchView,
    revisions: Seq<ContextFragmentView>,
    item_ids: Seq<Seq<char>>,
    present: Seq<FragmentIdentityView>,
)
    ensures
        forall|i: int|
            0 <= i < deletion_orders(batch, revisions, item_ids, present).len() ==> (
            #[trigger] deletion_orders(batch, revisions, item_ids, present)[i]).previous
                == head_revision(
                revisions,
                deletion_orders(batch, revisions, item_ids, present)[i].identity,
            ),
    decreases item_ids.len(),
{
    if item_ids.len() > 0 {
        let identity = run_identity(
            batch.request,
            producer_of(batch.request.binding),
            item_ids[0],
        );
        lemma_deletions_follow(batch, revisions, item_ids.skip(1), present.push(identity));
        lemma_deletions_follow(batch, revisions, item_ids.skip(1), present);
    }
}

/// The items of a batch are those of its answer, which only a ready one has: in their order, with
/// all that they hold, each under an identifier of its own kind. Two are named alike exactly where
/// the digests of what they are named after agree.
pub proof fn law_batches_keep_the_items_of_their_answer(
    batch_id: Seq<char>,
    request: ContextRequestView,
    result: ContextResultView,
)
    ensures
        ({
            let given = result.items();
            let items = namespaced_items(batch_id, request, given);
            let named = |i: int| digest_of(item_key_json(batch_id, request, given[i].item_id));
            &&& items.len() == given.len()
            &&& !(result is Ready) ==> items.len() == 0
            &&& forall|i: int|
                0 <= i < items.len() ==> {
                    &&& (#[trigger] items[i]).item_id == "source-item-"@ + named(i)
                    &&& items[i].origin == given[i].origin
                    &&& items[i].source_ref == given[i].source_ref
                    &&& items[i].scope == given[i].scope
                    &&& items[i].content == given[i].content
                    &&& items[i].lifetime == given[i].lifetime
                    &&& items[i].priority_class == given[i].priority_class
                }
            &&& forall|i: int, j: int|
                0 <= i < items.len() && 0 <= j < items.len() ==> ((#[trigger] items[i]).item_id == (
                #[trigger] items[j]).item_id <==> named(i) == named(j))
        }),
{
    let given = result.items();
    let items = namespaced_items(batch_id, request, given);
    let named = |i: int| digest_of(item_key_json(batch_id, request, given[i].item_id));
    let prefix = "source-item-"@;
    assert forall|i: int, j: int|
        0 <= i < items.len() && 0 <= j < items.len() && (#[trigger] items[i]).item_id == (
        #[trigger] items[j]).item_id implies named(i) == named(j) by {
        assert(items[i].item_id.skip(prefix.len() as int) =~= named(i));
        assert(items[j].item_id.skip(prefix.len() as int) =~= named(j));
    }
}

/// An item is one that a source may give for a request: the source's own, of the request's scope,
/// genuine, and lasting for the model step that asked, or for the run where no step asked.
pub open spec fn fits_request(request: ContextRequestView, item: ContextItemView) -> bool {
    &&& item.scope == request.scope
    &&& item.origin == request.definition.origin
    &&& item.source_ref == request.definition.source
    &&& item.is_genuine()
    &&& request.model_step_id matches Some(step) ==> item.lifetime is Step
        && item.lifetime->Step_run_id == request.run_id && item.lifetime->Step_model_step_id == step
    &&& request.model_step_id is None ==> item.lifetime is Run && item.lifetime->Run_run_id
        == request.run_id
    &&& forall|k: int|
        0 <= k < item.content.len() && (#[trigger] item.content[k]) is Artifact
            ==> item.content[k]->Artifact_reference.scope == request.scope
}

proof fn lemma_fits_request(
    request: ContextRequestView,
    items: Seq<ContextItemView>,
    i: int,
)
    requires
        0 <= i < items.len(),
    ensures
        item_fault(request, items)(i) is None <==> fits_request(request, items[i]) && (forall|k: int|
            0 <= k < i ==> (#[trigger] items[k]).item_id != items[i].item_id),
{
    let item = items[i];
    let same = with_item_id(item.item_id);
    let foreign = foreign_artifact(request.scope);
    if some_in(items.take(i), same) {
        let k = choose|k: int| 0 <= k < items.take(i).len() && same(#[trigger] items.take(i)[k]);
        assert(items[k].item_id == item.item_id);
    } else {
        assert forall|k: int| 0 <= k < i implies (#[trigger] items[k]).item_id != item.item_id by {
            assert(items.take(i)[k] == items[k]);
            assert(!same(items.take(i)[k]));
        }
    }
    if some_in(item.content, foreign) {
        let k = choose|k: int| 0 <= k < item.content.len() && foreign(#[trigger] item.content[k]);
        assert(item.content[k] is Artifact);
    } else {
        assert forall|k: int|
            0 <= k < item.content.len() && (#[trigger] item.content[k])
                is Artifact implies item.content[k]->Artifact_reference.scope == request.scope by {
            assert(!foreign(item.content[k]));
        }
    }
}

/// A source's answer is accepted just where it is short enough, gives no more items than were asked
/// for, gives only items that the source may give for the request, none of them twice, and revises
/// only items that it gives.
pub proof fn law_fitting_answers_are_accepted(
    request: ContextRequestView,
    result: ContextResultView,
)
    requires
        request.definition.defect is None,
        result is Ready,
    ensures
        result_fault(request, result) is None <==> {
            &&& encoded_bytes(result_json(result)) <= request.binding.max_bytes
            &&& 0 < result.items().len() <= request.binding.max_items
            &&& forall|i: int|
                0 <= i < result.items().len() ==> fits_request(
                    request,
                    #[trigger] result.items()[i],
                )
            &&& forall|i: int, j: int|
                0 <= i < j < result.items().len() ==> (#[trigger] result.items()[i]).item_id != (
                #[trigger] result.items()[j]).item_id
            &&& forall|r: int|
                0 <= r < result->item_revisions.len() ==> exists|i: int|
                    0 <= i < result.items().len() && (#[trigger] result.items()[i]).item_id == (
                    #[trigger] result->item_revisions[r]).item_id
        },
{
    let items = result.items();
    let n = items.len() as int;
    let f = item_fault(request, items);
    let revisions = result->item_revisions;
    let loose = revises_no_item(items);
    assert(some_in(revisions, loose) <==> !(forall|r: int|
        0 <= r < revisions.len() ==> exists|i: int|
            0 <= i < items.len() && (#[trigger] items[i]).item_id == (
            #[trigger] revisions[r]).item_id)) by {
        if some_in(revisions, loose) {
            let r = choose|r: int| 0 <= r < revisions.len() && loose(#[trigger] revisions[r]);
            let same = with_item_id(revisions[r].item_id);
            assert(!some_in(items, same));
            assert forall|i: int| 0 <= i < items.len() implies (#[trigger] items[i]).item_id
                != revisions[r].item_id by {
                assert(!same(items[i]));
            }
        } else {
            assert forall|r: int| 0 <= r < revisions.len() implies exists|i: int|
                0 <= i < items.len() && (#[trigger] items[i]).item_id == (
                #[trigger] revisions[r]).item_id by {
                assert(!loose(revisions[r]));
                let same = with_item_id(revisions[r].item_id);
                assert(some_in(items, same));
                let i = choose|i: int| 0 <= i < items.len() && same(#[trigger] items[i]);
                assert(items[i].item_id == revisions[r].item_id);
            }
        }
    }
    if first_index_fault(0, n, f) is None {
        crate::data::lemma_first_index_fault(0, n, f);
        assert forall|i: int| 0 <= i < n implies fits_request(request, #[trigger] items[i]) by {
            assert(f(i) is None);
            lemma_fits_request(request, items, i);
        }
        assert forall|i: int, j: int| 0 <= i < j < n implies (#[trigger] items[i]).item_id != (
        #[trigger] items[j]).item_id by {
            assert(f(j) is None);
            lemma_fits_request(request, items, j);
        }
    } else if (forall|i: int| 0 <= i < n ==> fits_request(request, #[trigger] items[i])) && (forall|
        i: int,
        j: int,
    |
        0 <= i < j < n ==> (#[trigger] items[i]).item_id != (#[trigger] items[j]).item_id) {
        assert forall|i: int| 0 <= i < n implies #[trigger] f(i) is None by {
            lemma_fits_request(request, items, i);
        }
        crate::data::lemma_no_index_fault(0, n, f);
    }
}

/// Every item that a slot still shows and a batch no longer holds is withdrawn by a tombstone.
pub proof fn law_absent_items_are_withdrawn(
    batch: ContextBatchView,
    revisions: Seq<ContextFragmentView>,
    candidates: Seq<ContextFragmentView>,
    present: Seq<FragmentIdentityView>,
    i: int,
)
    requires
        0 <= i < candidates.len(),
        candidates[i].identity.producer_id == producer_of(batch.request.binding),
        !present.contains(candidates[i].identity),
        head_of(revisions, candidates[i].identity) == Some(candidates[i]),
        candidates[i].value is Item,
    ensures
        exists|k: int|
            0 <= k < withdrawal_orders(batch, revisions, candidates, present).len() && (
            #[trigger] withdrawal_orders(batch, revisions, candidates, present)[k]).identity
                == candidates[i].identity && withdrawal_orders(
                batch,
                revisions,
                candidates,
                present,
            )[k].value is Tombstone,
    decreases candidates.len(),
{
    let orders = withdrawal_orders(batch, revisions, candidates, present);
    let prior = candidates[0];
    let rest = candidates.skip(1);
    let withdrawn = is_withdrawn(batch, revisions, present, prior);
    if withdrawn && prior.identity == candidates[i].identity {
        assert(orders[0] == withdrawal_order(batch, prior));
    } else {
        assert(i > 0) by {
            if i == 0 {
                assert(withdrawn);
            }
        }
        assert(rest[i - 1] == candidates[i]);
        let after = if withdrawn {
            present.push(prior.identity)
        } else {
            present
        };
        assert(!after.contains(candidates[i].identity));
        law_absent_items_are_withdrawn(batch, revisions, rest, after, i - 1);
        let tail = withdrawal_orders(batch, revisions, rest, after);
        let k = choose|k: int|
            0 <= k < tail.len() && (#[trigger] tail[k]).identity == candidates[i].identity
                && tail[k].value is Tombstone;
        let m = if withdrawn {
            k + 1
        } else {
            k
        };
        assert(orders[m] == tail[k]);
    }
}

/// Withdrawing touches only items that the slot showed last and that the batch no longer holds.
pub proof fn law_only_absent_items_are_withdrawn(
    batch: ContextBatchView,
    revisions: Seq<ContextFragmentView>,
    candidates: Seq<ContextFragmentView>,
    present: Seq<FragmentIdentityView>,
    k: int,
)
    requires
        0 <= k < withdrawal_orders(batch, revisions, candidates, present).len(),
    ensures
        ({
            let order = withdrawal_orders(batch, revisions, candidates, present)[k];
            &&& order.value is Tombstone
            &&& !present.contains(order.identity)
            &&& order.identity.producer_id == producer_of(batch.request.binding)
            &&& head_of(revisions, order.identity) is Some
            &&& head_of(revisions, order.identity)->Some_0.value is Item
            &&& order.previous == Some(head_of(revisions, order.identity)->Some_0.core_revision)
        }),
    decreases candidates.len(),
{
    let prior = candidates[0];
    let rest = candidates.skip(1);
    let orders = withdrawal_orders(batch, revisions, candidates, present);
    if is_withdrawn(batch, revisions, present, prior) {
        let after = present.push(prior.identity);
        if k == 0 {
            assert(orders[0] == withdrawal_order(batch, prior));
        } else {
            let tail = withdrawal_orders(batch, revisions, rest, after);
            assert(orders[k] == tail[k - 1]);
            law_only_absent_items_are_withdrawn(batch, revisions, rest, after, k - 1);
            if present.contains(orders[k].identity) {
                let p = choose|p: int| 0 <= p < present.len() && present[p] == orders[k].identity;
                assert(after[p] == orders[k].identity);
            }
        }
    } else {
        law_only_absent_items_are_withdrawn(batch, revisions, rest, present, k);
    }
}

/// The latest revision of a fragment is the one that was issued last, and a revision of one fragment
/// hides none of another.
pub proof fn law_the_latest_revision_is_the_head(
    revisions: Seq<ContextFragmentView>,
    fragment: ContextFragmentView,
    other: FragmentIdentityView,
)
    ensures
        head_of(revisions.push(fragment), fragment.identity) == Some(fragment),
        head_revision(revisions.push(fragment), fragment.identity) == Some(fragment.core_revision),
        other != fragment.identity ==> head_of(revisions.push(fragment), other) == head_of(
            revisions,
            other,
        ),
{
    assert(revisions.push(fragment).last() == fragment);
    assert(revisions.push(fragment).drop_last() =~= revisions);
}

/// The slots of a plan are accepted just where there are not too many, each is served by a sound source
/// that its selection names, asks for no more than a source may give, and no two are one slot.
pub proof fn law_slots_ask_within_limits(bindings: Seq<PlannedContextSourceView>)
    ensures
        bindings_fault(bindings) is None <==> {
            &&& bindings.len() <= 64
            &&& forall|i: int|
                0 <= i < bindings.len() ==> (#[trigger] bindings[i]).definition.defect is None
                    && selection_fault(bindings[i].binding.source, bindings[i].definition) is None
                    && bindings[i].binding.timeout_ms <= 86_400_000 && bindings[i].binding.max_items
                    <= 4096 && bindings[i].binding.max_bytes <= 16_777_216
                    && bindings[i].binding.max_tokens <= 4_000_000
            &&& forall|i: int, j: int|
                0 <= i < j < bindings.len() ==> (#[trigger] bindings[i]).binding.source != (
                #[trigger] bindings[j]).binding.source || bindings[i].binding.trigger
                    != bindings[j].binding.trigger
        },
{
    let n = bindings.len() as int;
    let f = planned_fault(bindings);
    if first_index_fault(0, n, f) is None {
        crate::data::lemma_first_index_fault(0, n, f);
        assert forall|i: int| 0 <= i < n implies (#[trigger] bindings[i]).definition.defect is None
            && selection_fault(bindings[i].binding.source, bindings[i].definition) is None
            && bindings[i].binding.timeout_ms <= 86_400_000 && bindings[i].binding.max_items <= 4096
            && bindings[i].binding.max_bytes <= 16_777_216 && bindings[i].binding.max_tokens
            <= 4_000_000 by {
            assert(f(i) is None);
        }
        assert forall|i: int, j: int| 0 <= i < j < n implies (
        #[trigger] bindings[i]).binding.source != (#[trigger] bindings[j]).binding.source
            || bindings[i].binding.trigger != bindings[j].binding.trigger by {
            assert(f(j) is None);
            assert(bindings.take(j)[i] == bindings[i]);
            assert(!in_slot(bindings[j].binding)(bindings.take(j)[i]));
        }
    } else if (forall|i: int|
        0 <= i < n ==> (#[trigger] bindings[i]).definition.defect is None && selection_fault(
            bindings[i].binding.source,
            bindings[i].definition,
        ) is None && bindings[i].binding.timeout_ms <= 86_400_000 && bindings[i].binding.max_items
            <= 4096 && bindings[i].binding.max_bytes <= 16_777_216 && bindings[i].binding.max_tokens
            <= 4_000_000) && (forall|i: int, j: int|
        0 <= i < j < n ==> (#[trigger] bindings[i]).binding.source != (
        #[trigger] bindings[j]).binding.source || bindings[i].binding.trigger
            != bindings[j].binding.trigger) {
        assert forall|j: int| 0 <= j < n implies #[trigger] f(j) is None by {
            assert(bindings[j] == bindings[j]);
            assert forall|i: int| 0 <= i < j implies !in_slot(bindings[j].binding)(
                #[trigger] bindings.take(j)[i],
            ) by {
                assert(bindings.take(j)[i] == bindings[i]);
            }
        }
        crate::data::lemma_no_index_fault(0, n, f);
    }
}

/// A plan serves every slot of its profile, in order, each by the source that the slot selects.
pub proof fn law_every_slot_is_served(
    registry: ContextSourceRegistryView,
    profile: AgentProfileView,
    estimator_version: VersionedRefView,
    i: int,
)
    requires
        planning_fault(registry, profile, estimator_version) is None,
        0 <= i < source_bindings(profile).len(),
    ensures
        ({
            let plan = planned_for(registry, profile, estimator_version);
            &&& plan.scope == registry.scope
            &&& plan.estimator_version == estimator_version
            &&& plan.bindings.len() == source_bindings(profile).len()
            &&& plan.bindings[i].binding == source_bindings(profile)[i]
        }),
        exists|k: int|
            0 <= k < registry.entries.len() && (#[trigger] registry.entries[k]).selection
                == source_bindings(profile)[i].source && registry.entries[k].definition
                == planned_for(registry, profile, estimator_version).bindings[i].definition,
{
    let bindings = source_bindings(profile);
    let f = unserved_fault(registry.entries);
    crate::data::lemma_first_fault(bindings, f);
    assert(f(bindings[i]) is None);
    let p = selected_by(bindings[i].source);
    crate::data::lemma_first_in(registry.entries, p);
    let entry = first_in(registry.entries, p)->Some_0;
    let k = choose|k: int| 0 <= k < registry.entries.len() && registry.entries[k] == entry;
    assert(registry.entries[k].selection == bindings[i].source);
}

/// A run's request for a slot is valid just where a model step asks before a model call and none does
/// at the start of a run. Its identifier depends on what is asked alone: it is the same for the same
/// question.
pub proof fn law_requests_are_named_by_what_they_ask(
    snapshot: RunSnapshotView,
    entry: PlannedContextSourceView,
    step: Option<Seq<char>>,
    request: ContextRequestView,
    renamed: ContextRequestView,
)
    requires
        renamed == (ContextRequestView { context_request_id: renamed.context_request_id, ..request }),
    ensures
        request_fault(request_for(snapshot, entry, step)) is None <==> (
        entry.binding.trigger is BeforeModel <==> step is Some),
        request_for(snapshot, entry, step).run_id == snapshot.run_id,
        request_for(snapshot, entry, step).scope == snapshot.scope,
        request_for(snapshot, entry, step).session_id == snapshot.request.session_id,
        request_for(snapshot, entry, step).user_input == snapshot.request.input,
        request_for(snapshot, entry, step).model_step_id == step,
        request_for(snapshot, entry, step).binding == entry.binding,
        request_for(snapshot, entry, step).definition == entry.definition,
        request_identity(request) == request_identity(renamed),
        request_fault(request) is None && request_fault(renamed) is None ==> request == renamed,
{
}

/// A restored plan is the one that was saved: of the scope, under the digest that is expected of it,
/// with acceptable slots.
pub proof fn law_restored_plans_are_the_saved_ones(
    json: Seq<char>,
    decoded: Option<ContextSourcePlanView>,
    scope: ScopeView,
    expected_digest: Seq<char>,
)
    requires
        plan_restore_fault(json, decoded, scope, expected_digest) is None,
    ensures
        decoded matches Some(plan) && plan.scope == scope && digest_of(source_plan_json(plan))
            == expected_digest && bindings_fault(plan.bindings) is None,
{
}

/// Sources that are registered together are sound, fit their selections, and are selected apart; a
/// source of the catalog is selected at its exact version, and one of an adapter under no other name.
pub proof fn law_registered_sources_are_selected_apart(
    entries: Seq<ContextSourceRegistrationView>,
)
    requires
        registry_fault(entries) is None,
    ensures
        entries.len() <= 64,
        forall|i: int|
            0 <= i < entries.len() ==> (#[trigger] entries[i]).definition.defect is None && (
            entries[i].selection matches ContextSourceRefView::Catalog(reference)
                ==> reference.source_id == entries[i].definition.source.id && reference.version
                == entries[i].definition.source.version) && (entries[i].selection matches
                ContextSourceRefView::Export(reference) ==> reference.alias is None),
        forall|i: int, j: int|
            0 <= i < j < entries.len() ==> (#[trigger] entries[i]).selection != (
            #[trigger] entries[j]).selection,
{
    let f = registration_fault(entries);
    crate::data::lemma_first_index_fault(0, entries.len() as int, f);
    assert forall|i: int| 0 <= i < entries.len() implies (
    #[trigger] entries[i]).definition.defect is None && (entries[i].selection matches
        ContextSourceRefView::Catalog(reference) ==> reference.source_id
        == entries[i].definition.source.id && reference.version
        == entries[i].definition.source.version) && (entries[i].selection matches
        ContextSourceRefView::Export(reference) ==> reference.alias is None) by {
        assert(f(i) is None);
    }
    assert forall|i: int, j: int| 0 <= i < j < entries.len() implies (
    #[trigger] entries[i]).selection != (#[trigger] entries[j]).selection by {
        assert(f(j) is None);
        assert(entries.take(j)[i] == entries[i]);
        assert(!selected_by(entries[j].selection)(entries.take(j)[i]));
    }
}

/// A sound batch answers a sound request with a fitting answer, holds the items of that answer, stays
/// within the tokens of its slot, and counts none where it holds nothing. Its fragments belong to
/// it, to its run and to its scope.
pub proof fn law_sound_batches_stay_within_their_slot(batch: ContextBatchView, i: int)
    requires
        batch_fault(batch) is None,
        batch.schema_version != legacy_version() ==> 0 <= i < batch.fragments.len(),
    ensures
        request_fault(batch.request) is None,
        result_fault(batch.request, batch.result) is None,
        batch.items.len() == batch.result.items().len(),
        batch.estimated_tokens <= batch.request.binding.max_tokens,
        batch.items.len() == 0 ==> batch.estimated_tokens == 0,
        encoded_bytes(items_json(batch.items)) <= batch.request.binding.max_bytes,
        batch.schema_version == legacy_version() && batch_version() != legacy_version()
            ==> batch.fragments.len() == 0,
        batch.schema_version != legacy_version() ==> batch.fragments[i].batch_id == batch.batch_id
            && batch.fragments[i].identity.scope == batch.request.scope
            && batch.fragments[i].identity.owner == (FragmentOwnerView::Run {
            run_id: batch.request.run_id,
        }) && batch.fragments[i].origin == batch.request.definition.origin
            && batch.fragments[i].defect is None,
{
    if batch.schema_version != legacy_version() {
        crate::data::lemma_first_fault(batch.fragments, fragment_fault(batch));
        assert(fragment_fault(batch)(batch.fragments[i]) is None);
    }
}

} // verus!
