use wickle::data::Data;
use wickle::error::{ContractError, ErrorCode};
use wickle::json::{array, member, object, text, Json};
use wickle::serialization::{
    canonical_digest, canonical_digest_json, canonical_json, is_unambiguous, parse_json,
    submitted_digest, Id, JsonDigest,
};
use wickle::text::{comes_before, decimal, is_blank};

fn number(lexeme: &str) -> Json {
    Json::Number(lexeme.to_owned())
}

fn code<T>(result: Result<T, ContractError>) -> ErrorCode {
    match result {
        Ok(_) => panic!("the call succeeded"),
        Err(error) => error.code,
    }
}

#[test]
fn blank_identifiers_are_refused() {
    assert_eq!(code(Id::new("".to_owned())), ErrorCode::InvalidContract);
    assert_eq!(code(Id::new(" \t\u{3000}".to_owned())), ErrorCode::InvalidContract);
    assert_eq!(Id::new("run-1".to_owned()).unwrap().as_str(), "run-1");
    assert_eq!(Id::new(" x ".to_owned()).unwrap().as_str(), " x ");
}

#[test]
fn members_are_written_in_key_order() {
    let document = object(vec![member("b", number("1")), member("a", text("x"))]);
    assert_eq!(canonical_json(&document), "{\"a\":\"x\",\"b\":1}");
}

#[test]
fn nested_documents_are_written_without_spaces() {
    let document = object(vec![
        member("list", array(vec![Json::Null, Json::Bool(true), number("-2.50")])),
        member("", object(vec![])),
    ]);
    assert_eq!(canonical_json(&document), "{\"\":{},\"list\":[null,true,-2.50]}");
}

#[test]
fn texts_are_escaped() {
    assert_eq!(canonical_json(&text("a\n\"\u{e9}\u{1}")), "\"a\\n\\\"\u{e9}\\u0001\"");
    let document = object(vec![member("k\"", text("\\"))]);
    assert_eq!(canonical_json(&document), "{\"k\\\"\":\"\\\\\"}");
}

#[test]
fn digests_name_their_algorithm() {
    let document = object(vec![member("b", number("1")), member("a", text("x"))]);
    assert_eq!(
        canonical_digest(&document).as_str(),
        "sorted-json-v1:sha256:cdab067e9f3beb32d1252cfd63e492592fecbf591b0d08cadb24bb17f3864246"
    );
    assert_eq!(
        submitted_digest(&Json::Null).as_str(),
        "wickle-canonical-json-v1:sha256:74234e98afe7498fb5daf1f36ac2d78acc339464f950703b8c019892f982b90b"
    );
    assert_eq!(
        canonical_digest(&text("a\n\"\u{e9}")).as_str(),
        "sorted-json-v1:sha256:d726c05eb7d2f66f69b74a19f53df9e99befd8541ead827c36af01932adff181"
    );
}

#[test]
fn member_order_does_not_change_a_digest() {
    let one = object(vec![member("b", number("1")), member("a", text("x"))]);
    let other = object(vec![member("a", text("x")), member("b", number("1"))]);
    assert!(canonical_digest(&one).same(&canonical_digest(&other)));
    let different = object(vec![member("a", text("x")), member("b", number("2"))]);
    assert!(!canonical_digest(&one).same(&canonical_digest(&different)));
}

#[test]
fn digests_are_read_back() {
    let digest = canonical_digest(&Json::Null);
    assert!(JsonDigest::try_from(digest.as_str().to_owned()).unwrap().same(&digest));
    assert_eq!(code(JsonDigest::try_from("sha256:00".to_owned())), ErrorCode::InvalidContract);
    let long = format!("{}0", digest.as_str());
    assert_eq!(code(JsonDigest::try_from(long)), ErrorCode::InvalidContract);
    let upper = digest.as_str().replace('7', "G");
    assert_eq!(code(JsonDigest::try_from(upper)), ErrorCode::InvalidContract);
}

#[test]
fn repeated_keys_are_refused() {
    let twice = object(vec![member("a", Json::Null), member("a", Json::Null)]);
    assert!(!is_unambiguous(&twice));
    assert!(!is_unambiguous(&array(vec![twice.copy()])));
    assert_eq!(code(parse_json("{\"a\":null,\"a\":null}")), ErrorCode::InvalidJson);
    assert_eq!(code(parse_json("[{\"b\":{\"a\":1,\"\\u0061\":2}}]")), ErrorCode::InvalidJson);
    assert_eq!(code(canonical_digest_json("{\"a\":1,\"a\":1}")), ErrorCode::InvalidJson);
    let once = object(vec![member("a", Json::Null), member("b", Json::Null)]);
    assert!(parse_json(" {\"b\" : null,\n\"a\":null}\t").unwrap().same(&once));
    assert!(canonical_digest_json("{\"b\":null,\"a\":null}")
        .unwrap()
        .same(&canonical_digest(&once)));
}

#[test]
fn texts_compare_by_their_characters() {
    assert!(comes_before("a", "b"));
    assert!(comes_before("a", "aa"));
    assert!(!comes_before("b", "aa"));
    assert!(!comes_before("a", "a"));
    assert!(comes_before("", "a"));
    assert!(comes_before("z", "\u{e9}"));
}

#[test]
fn numbers_are_written_in_decimal() {
    assert_eq!(decimal(0), "0");
    assert_eq!(decimal(907), "907");
    assert_eq!(decimal(u64::MAX), "18446744073709551615");
    assert!(is_blank(" \u{2003}"));
    assert!(!is_blank(" . "));
}

#[test]
fn codes_have_names() {
    assert_eq!(ErrorCode::AccessDenied.as_str(), "access_denied");
    assert_eq!(ErrorCode::InvalidJson.as_str(), "invalid_json");
    assert_eq!(ErrorCode::ModelRoutingMismatch.as_str(), "model_routing_mismatch");
}

#[test]
fn a_failure_is_told_in_words() {
    let failure = wickle::error::ContractError::new(ErrorCode::ModelRoutingMismatch, "routing.rule");
    assert_eq!(failure.message(), "ModelRoutingMismatch at routing.rule");
}
