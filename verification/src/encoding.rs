//! Documents that stored values are encoded as. The members of an encoded value stand in the order
//! of their keys, and an absent value has no member.
use vstd::prelude::*;

use crate::content::{ArtifactRef, InputContent};
#[allow(unused_imports)]
use crate::content::{ArtifactRefView, InputContentView};
use crate::data::{map_each, Data};
use crate::json::{Json, Member};
#[allow(unused_imports)]
use crate::json::{JsonView, MemberView};
use crate::refs::{RecordRef, Scope, VersionedRef};
#[allow(unused_imports)]
use crate::refs::{RecordRefView, ScopeView, VersionedRefView};
use crate::serialization::canonical_json;
#[allow(unused_imports)]
use crate::serialization::canonical_text;
use crate::text::{concat, decimal};
#[allow(unused_imports)]
use crate::text::decimal_text;
#[allow(unused_imports)]
use vstd::utf8::encode_utf8;

verus! {

/// No member yet.
pub fn no_members() -> (r: Vec<Member>)
    ensures
        r.deep_view() == Seq::<MemberView>::empty(),
{
    let r: Vec<Member> = Vec::new();
    assert(r.deep_view() =~= Seq::<MemberView>::empty());
    r
}

/// Members with one more.
pub fn with_member(members: Vec<Member>, key: &str, value: Json) -> (r: Vec<Member>)
    ensures
        r.deep_view() == members.deep_view().push(MemberView { key: key@, value: value@ }),
{
    let mut members = members;
    let ghost before = members.deep_view();
    members.push(Member { key: key.to_owned(), value });
    assert(members.deep_view() =~= before.push(MemberView { key: key@, value: value@ }));
    members
}

/// The member of a value that may be absent.
pub open spec fn some_member(key: Seq<char>, value: Option<JsonView>) -> Seq<MemberView> {
    match value {
        Some(value) => seq![MemberView { key, value }],
        None => Seq::empty(),
    }
}

/// Members with one more, unless its value is absent.
pub fn with_some(members: Vec<Member>, key: &str, value: Option<Json>) -> (r: Vec<Member>)
    ensures
        r.deep_view() == members.deep_view() + some_member(key@, value.deep_view()),
{
    match value {
        Some(value) => {
            let r = with_member(members, key, value);
            assert(r.deep_view() =~= members.deep_view() + some_member(key@, Some(value@)));
            r
        },
        None => {
            assert(members.deep_view() =~= members.deep_view() + some_member(key@, None));
            members
        },
    }
}

/// A natural number.
pub fn number(value: u64) -> (r: Json)
    ensures
        r@ == JsonView::Number(decimal_text(value as nat)),
{
    Json::Number(decimal(value))
}

/// The decimal text of an integer.
pub open spec fn signed_text(value: int) -> Seq<char> {
    if value < 0 {
        "-"@ + decimal_text((-value) as nat)
    } else {
        decimal_text(value as nat)
    }
}

/// An integer.
pub fn signed_number(value: i64) -> (r: Json)
    ensures
        r@ == JsonView::Number(signed_text(value as int)),
{
    if value < 0 {
        let positive: u64 = (-(value + 1)) as u64 + 1;
        Json::Number(concat("-", decimal(positive).as_str()))
    } else {
        Json::Number(decimal(value as u64))
    }
}

/// How many bytes the encoded document takes.
pub open spec fn encoded_bytes(json: JsonView) -> nat {
    encode_utf8(canonical_text(json)).len()
}

/// Whether the encoded document takes more than `limit` bytes.
pub fn exceeds_bytes(json: &Json, limit: u64) -> (r: bool)
    ensures
        r == (encoded_bytes(json@) > limit),
{
    let encoded = canonical_json(json);
    let bytes = encoded.as_str().as_bytes();
    bytes.len() as u64 > limit
}

/// Whether the encoded document takes more than `limit` bytes.
pub fn encoded_bytes_exceed(json: &Json, limit: usize) -> (r: bool)
    ensures
        r == (encoded_bytes(json@) > limit),
{
    let encoded = canonical_json(json);
    let bytes = encoded.as_str().as_bytes();
    bytes.len() > limit
}

/// The encoded identity of a component.
pub open spec fn versioned_json(v: VersionedRefView) -> JsonView {
    JsonView::Object(Seq::<MemberView>::empty()
.push(MemberView { key: "id"@, value: JsonView::Text(v.id) })
.push(MemberView { key: "version"@, value: JsonView::Text(v.version) }))
}

/// Encode the identity of a component.
pub fn encode_versioned(v: &VersionedRef) -> (r: Json)
    ensures
        r@ == versioned_json(v@),
{
    let members = no_members();
    let members = with_member(members, "id", crate::json::text(v.id.as_str()));
    let members = with_member(members, "version", crate::json::text(v.version.as_str()));
    crate::json::object(members)
}

/// The encoded scope.
pub open spec fn scope_json(v: ScopeView) -> JsonView {
    JsonView::Object((Seq::<MemberView>::empty()
.push(MemberView { key: "tenant_id"@, value: JsonView::Text(v.tenant_id) })
+ some_member("user_id"@, match v.user_id { Some(x) => Some(JsonView::Text(x)), None => None }))
.push(MemberView { key: "workspace_id"@, value: JsonView::Text(v.workspace_id) }))
}

/// Encode the scope.
pub fn encode_scope(v: &Scope) -> (r: Json)
    ensures
        r@ == scope_json(v@),
{
    let members = no_members();
    let members = with_member(members, "tenant_id", crate::json::text(v.tenant_id.as_str()));
    let members = with_some(members, "user_id", match &v.user_id { Some(x) => Some(crate::json::text(x.as_str())), None => None });
    let members = with_member(members, "workspace_id", crate::json::text(v.workspace_id.as_str()));
    crate::json::object(members)
}

/// The encoded reference of a record.
pub open spec fn record_ref_json(v: RecordRefView) -> JsonView {
    JsonView::Object(Seq::<MemberView>::empty()
.push(MemberView { key: "digest"@, value: JsonView::Text(v.digest) })
.push(MemberView { key: "record_id"@, value: JsonView::Text(v.record_id) })
.push(MemberView { key: "revision"@, value: JsonView::Number(decimal_text(v.revision as nat)) }))
}

/// Encode the reference of a record.
pub fn encode_record_ref(v: &RecordRef) -> (r: Json)
    ensures
        r@ == record_ref_json(v@),
{
    let members = no_members();
    let members = with_member(members, "digest", crate::json::text(v.digest.as_str()));
    let members = with_member(members, "record_id", crate::json::text(v.record_id.as_str()));
    let members = with_member(members, "revision", number(v.revision));
    crate::json::object(members)
}

/// The encoded metadata of an artifact.
pub open spec fn artifact_json(v: ArtifactRefView) -> JsonView {
    JsonView::Object(Seq::<MemberView>::empty()
.push(MemberView { key: "artifact_id"@, value: JsonView::Text(v.artifact_id) })
.push(MemberView { key: "content_hash"@, value: JsonView::Text(v.content_hash) })
.push(MemberView { key: "media_type"@, value: JsonView::Text(v.media_type) })
.push(MemberView { key: "scope"@, value: scope_json(v.scope) })
.push(MemberView { key: "size_bytes"@, value: JsonView::Number(decimal_text(v.size_bytes as nat)) }))
}

/// Encode the metadata of an artifact.
pub fn encode_artifact(v: &ArtifactRef) -> (r: Json)
    ensures
        r@ == artifact_json(v@),
{
    let members = no_members();
    let members = with_member(members, "artifact_id", crate::json::text(v.artifact_id.as_str()));
    let members = with_member(members, "content_hash", crate::json::text(v.content_hash.as_str()));
    let members = with_member(members, "media_type", crate::json::text(v.media_type.as_str()));
    let members = with_member(members, "scope", encode_scope(&v.scope));
    let members = with_member(members, "size_bytes", number(v.size_bytes));
    crate::json::object(members)
}

/// The encoded piece of content.
pub open spec fn content_json(v: InputContentView) -> JsonView {
    match v {
        InputContentView::Text { text } => JsonView::Object(Seq::<MemberView>::empty()
.push(MemberView { key: "kind"@, value: JsonView::Text("text"@) })
.push(MemberView { key: "text"@, value: JsonView::Text(text) })),
        InputContentView::Json { value } => JsonView::Object(Seq::<MemberView>::empty()
.push(MemberView { key: "kind"@, value: JsonView::Text("json"@) })
.push(MemberView { key: "value"@, value: value })),
        InputContentView::Artifact { reference } => JsonView::Object(Seq::<MemberView>::empty()
.push(MemberView { key: "kind"@, value: JsonView::Text("artifact"@) })
.push(MemberView { key: "reference"@, value: artifact_json(reference) })),
        InputContentView::Evidence { evidence_ref, text } => JsonView::Object(Seq::<MemberView>::empty()
.push(MemberView { key: "evidence_ref"@, value: JsonView::Text(evidence_ref) })
.push(MemberView { key: "kind"@, value: JsonView::Text("evidence"@) })
.push(MemberView { key: "text"@, value: JsonView::Text(text) })),
    }
}

/// Encode the piece of content.
pub fn encode_content(v: &InputContent) -> (r: Json)
    ensures
        r@ == content_json(v@),
{
    match v {
        InputContent::Text { text } => {
            let members = no_members();
            let members = with_member(members, "kind", crate::json::text("text"));
            let members = with_member(members, "text", crate::json::text(text.as_str()));
            crate::json::object(members)
        },
        InputContent::Json { value } => {
            let members = no_members();
            let members = with_member(members, "kind", crate::json::text("json"));
            let members = with_member(members, "value", value.copy());
            crate::json::object(members)
        },
        InputContent::Artifact { reference } => {
            let members = no_members();
            let members = with_member(members, "kind", crate::json::text("artifact"));
            let members = with_member(members, "reference", encode_artifact(reference));
            crate::json::object(members)
        },
        InputContent::Evidence { evidence_ref, text } => {
            let members = no_members();
            let members = with_member(members, "evidence_ref", crate::json::text(evidence_ref.as_str()));
            let members = with_member(members, "kind", crate::json::text("evidence"));
            let members = with_member(members, "text", crate::json::text(text.as_str()));
            crate::json::object(members)
        },
    }
}

/// The encoded input.
pub open spec fn input_json(input: Seq<InputContentView>) -> JsonView {
    JsonView::Array(input.map_values(|x: InputContentView| content_json(x)))
}

/// Encode an input.
pub fn encode_input(input: &Vec<InputContent>) -> (r: Json)
    ensures
        r@ == input_json(input.deep_view()),
{
    let f = |x: &InputContent| -> (r: Json)
        ensures
            r@ == content_json(x@),
    { encode_content(x) };
    crate::json::array(map_each(input, f, Ghost(|x: InputContentView| content_json(x))))
}

} // verus!
