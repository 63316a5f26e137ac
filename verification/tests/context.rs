use wickle::content::{
    ContentBlock, InputContent, Message, MessageOrigin, MessageRole, ToolCall, ToolEffect,
    ToolResult, ToolResultStatus, Visibility,
};
use wickle::context::{
    ContextFragment, ContextItem, ContextLifetime, ContextOrigin, ContextPriority, FragmentIdentity,
    FragmentOrder, FragmentOwner, FragmentValue,
};
use wickle::context_strategy::groups::{groups, validate_selection};
use wickle::context_strategy::model_compactor::{SummaryReply, summary_input_bytes, summary_text};
use wickle::context_strategy::records::{
    SafeContents, SafeValue, covered_digest, safe_message, transform,
};
use wickle::data::Data;
use wickle::encoding::encode_input;
use wickle::error::{ContractError, ErrorCode};
use wickle::json::text;
use wickle::refs::{RecordRef, Scope, VersionedRef};
use wickle::run::RunRequest;
use wickle::serialization::{Id, JsonDigest, canonical_digest, canonical_json};

fn id(value: &str) -> Id {
    Id::new(value.to_owned()).unwrap()
}

fn error<T>(result: Result<T, ContractError>) -> (ErrorCode, String) {
    match result {
        Ok(_) => panic!("the call succeeded"),
        Err(error) => (error.code, error.path),
    }
}

fn refused(code: ErrorCode, path: &str) -> (ErrorCode, String) {
    (code, path.to_owned())
}

fn digest(value: &str) -> JsonDigest {
    canonical_digest(&text(value))
}

fn scope() -> Scope {
    Scope { tenant_id: id("tenant"), workspace_id: id("workspace"), user_id: None }
}

fn elsewhere() -> Scope {
    Scope { tenant_id: id("other"), workspace_id: id("workspace"), user_id: None }
}

fn versioned(name: &str) -> VersionedRef {
    VersionedRef { id: id(name), version: id("1") }
}

fn record_ref(name: &str) -> RecordRef {
    RecordRef { record_id: id(name), revision: 1, digest: digest(name) }
}

fn run_request(name: &str) -> RunRequest {
    let input = vec![InputContent::Text { text: "hello".to_owned() }];
    RunRequest {
        request_id: id(name),
        session_id: id("session"),
        input_digest: canonical_digest(&encode_input(&input)),
        input,
        model_options: vec![],
        max_output_tokens: None,
    }
}

fn message(name: &str, sequence: u64, origin: MessageOrigin, content: Vec<ContentBlock>) -> Message {
    let role = match origin {
        MessageOrigin::System => MessageRole::System,
        MessageOrigin::User | MessageOrigin::Verification => MessageRole::User,
        MessageOrigin::Model => MessageRole::Assistant,
        MessageOrigin::Tool => MessageRole::Tool,
    };
    Message {
        message_id: id(name),
        sequence,
        run_id: id("run"),
        role,
        origin,
        visibility: Visibility::UserAndModel,
        content,
        source_model_request_id: None,
        document: text(name),
    }
}

fn said(name: &str, sequence: u64, origin: MessageOrigin) -> Message {
    message(
        name,
        sequence,
        origin,
        vec![ContentBlock::Content { content: InputContent::Text { text: name.to_owned() } }],
    )
}

fn called(name: &str, sequence: u64, call: &str) -> Message {
    message(
        name,
        sequence,
        MessageOrigin::Model,
        vec![ContentBlock::ToolCall {
            call: ToolCall {
                call_id: id(call),
                run_id: id("run"),
                provider_call_id: id("p"),
                model_request_id: id("m"),
                tool_name: id("clock"),
                model_inputs: vec![],
                descriptor_digest: None,
                bound_input_ref: None,
                provider_arguments: None,
            },
        }],
    )
}

fn answered(name: &str, sequence: u64, call: &str) -> Message {
    message(
        name,
        sequence,
        MessageOrigin::Tool,
        vec![ContentBlock::ToolResult {
            result: ToolResult {
                call_id: id(call),
                call_message_id: id("message"),
                status: ToolResultStatus::Succeeded,
                effect: ToolEffect::NotApplied,
                content: vec![InputContent::Text { text: "noon".to_owned() }],
                error: None,
                effect_receipt_ref: None,
                skill_ref: None,
                digest: digest(name),
            },
        }],
    )
}

fn conversation() -> Vec<Message> {
    vec![
        said("u1", 1, MessageOrigin::User),
        called("a1", 2, "c1"),
        answered("t1", 3, "c1"),
        said("a2", 4, MessageOrigin::Model),
        said("u2", 5, MessageOrigin::User),
        called("a3", 6, "c2"),
        answered("t3", 7, "c2"),
    ]
}

#[test]
fn a_call_and_its_result_form_one_group() {
    let groups = groups(&conversation()).unwrap();
    let with_call = groups.iter().find(|group| group.ids[0].as_str() == "a1").unwrap();
    assert!(with_call.tool_round);
    assert_eq!(with_call.ids.len(), 2);
    assert!(!with_call.protected);
    let last = groups.iter().find(|group| group.ids[0].as_str() == "a3").unwrap();
    assert!(last.tool_round);
    assert!(last.protected);
    let total: usize = groups.iter().map(|group| group.ids.len()).sum();
    assert_eq!(total, 5);
    assert!(groups.iter().all(|group| group.ids.iter().all(|name| !name.as_str().starts_with('u'))));
}

#[test]
fn a_selection_takes_groups_whole() {
    let messages = conversation();
    assert!(validate_selection(&messages, &vec![id("a1"), id("t1")]).is_ok());
    assert_eq!(
        error(validate_selection(&messages, &vec![id("a1")])).0,
        ErrorCode::InvalidContextSelection
    );
    assert_eq!(
        error(validate_selection(&messages, &vec![id("a3"), id("t3")])).0,
        ErrorCode::InvalidContextSelection
    );
    assert!(validate_selection(&messages, &vec![id("nowhere")]).is_err());
}

#[test]
fn only_covered_messages_leave_the_transcript() {
    let messages = conversation();
    let shown = transform(&messages, &vec![id("a1"), id("t1")], &vec![]);
    let names: Vec<&str> = shown.iter().map(|message| message.message_id.as_str()).collect();
    assert_eq!(names, vec!["u1", "a2", "u2", "a3", "t3"]);
    assert!(transform(&messages, &vec![], &vec![]).same(&messages));
    assert!(!covered_digest(&messages, &vec![id("a1")]).same(&covered_digest(&messages, &vec![id("t1")])));
}

#[test]
fn a_message_is_shown_as_its_safe_values() {
    let shown = SafeContents { blocks: vec![vec![SafeValue::Shown { value: text("safe") }]] };
    let encoded = safe_message(&said("u1", 1, MessageOrigin::User), &shown).unwrap();
    assert!(canonical_json(&encoded).contains("\"safe\""));
    let unsafe_value = SafeContents {
        blocks: vec![vec![SafeValue::Refused {
            error: ContractError::new(ErrorCode::InvalidArtifact, "artifact"),
        }]],
    };
    assert_eq!(
        error(safe_message(&said("u1", 1, MessageOrigin::User), &unsafe_value)),
        refused(ErrorCode::InvalidArtifact, "artifact")
    );
}

#[test]
fn a_summary_needs_a_complete_answer() {
    assert!(summary_text(SummaryReply::ApprovalRequired).is_err());
    assert_eq!(summary_input_bytes(100, 40), 100);
    assert_eq!(summary_input_bytes(40, 100), 100);
}

fn item(content: &str) -> ContextItem {
    ContextItem::new(
        id("item"),
        ContextOrigin::Retrieval,
        versioned("notes"),
        scope(),
        vec![InputContent::Text { text: content.to_owned() }],
        ContextLifetime::Run { run_id: id("run") },
        ContextPriority::Preferred,
    )
}

#[test]
fn an_item_proves_its_content() {
    let genuine = item("one");
    assert!(genuine.is_genuine());
    let mut forged = item("one");
    forged.content = vec![InputContent::Text { text: "two".to_owned() }];
    assert!(!forged.is_genuine());
    let renamed = genuine.rename(id("other"));
    assert!(renamed.is_genuine());
    assert_eq!(renamed.item_id.as_str(), "other");
    assert!(!item("one").version.same(&item("two").version));
}

#[test]
fn fragment_revisions_grow_by_one() {
    let order = |previous: Option<u64>| FragmentOrder {
        identity: FragmentIdentity {
            scope: scope(),
            owner: FragmentOwner::Run { run_id: id("run") },
            producer_id: id("notes"),
            fragment_id: id("item"),
        },
        previous,
        batch_id: id("batch"),
        origin: ContextOrigin::Retrieval,
        source_revision: None,
        value: FragmentValue::Item { item: item("one") },
    };
    assert_eq!(ContextFragment::issue(&order(None)).unwrap().core_revision, 1);
    assert_eq!(ContextFragment::issue(&order(Some(4))).unwrap().core_revision, 5);
    assert!(ContextFragment::issue(&order(Some(u64::MAX))).is_err());
}
