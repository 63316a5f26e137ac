use wickle::data::Data;
use wickle::json::{array, member, object, text, Json};
use wickle::reader::{hold_values, member_count, read_document, JsonText, Reading};
use wickle::serialization::canonical_json;

fn number(lexeme: &str) -> Json {
    Json::Number(lexeme.to_owned())
}

#[test]
fn every_value_is_read() {
    let read = read_document(
        " { \"z\" : [ true , false , null , \"a\\n\\u00e9\" ] , \"b\" : { } , \"c\" : -1.50 } ",
        false,
    )
    .unwrap();
    let expected = object(vec![
        member("b", object(vec![])),
        member("c", number("-1.5")),
        member("z", array(vec![Json::Bool(true), Json::Bool(false), Json::Null, text("a\n\u{e9}")])),
    ]);
    assert!(read.same(&expected));
}

#[test]
fn numbers_keep_their_lexeme_or_their_value() {
    assert!(read_document(" 1.50 ", true).unwrap().same(&number("1.50")));
    assert!(read_document(" 1.50 ", false).unwrap().same(&number("1.5")));
    assert!(read_document("[1E2,0.0]", true)
        .unwrap()
        .same(&array(vec![number("1E2"), number("0.0")])));
    assert!(read_document("[1E2,0.0]", false)
        .unwrap()
        .same(&array(vec![number("100.0"), number("0.0")])));
}

#[test]
fn other_texts_are_no_documents() {
    for text in [
        "", " ", "{", "[1,]", "{\"a\"}", "{a:1}", "tru", "truely", "1 2", "01", "NaN", "1e999", "\"\\ud800\"",
        "'a'", "nul", "[1", "{\"a\":1,}",
    ] {
        assert!(read_document(text, true).is_none());
        assert!(read_document(text, false).is_none());
        assert!(matches!(JsonText::read(text).reading, Reading::Malformed));
    }
}

#[test]
fn members_are_counted_outside_of_literals() {
    assert_eq!(member_count("{}"), 0);
    assert_eq!(member_count("{\"a:b\":1}"), 1);
    assert_eq!(member_count("{\"a\\\":{\":{\"b\":1,\"c\":[{\"d\":2}]},\"e\":\":\"}"), 2);
    assert_eq!(member_count("{\"a\":1,\"a\":2}"), 2);
    assert!(read_document("{\"a:b\":1,\"\\\":\":2}", true).is_some());
}

#[test]
fn repeated_keys_make_a_text_unreadable() {
    assert!(read_document("{\"a\":1,\"b\":2,\"a\":1}", true).is_none());
    assert!(read_document("[[{\"a\":{\"b\":1,\"b\":1}}]]", false).is_none());
    assert!(read_document("[{\"a\":1},{\"a\":1}]", false).is_some());
}

#[test]
fn documents_nest_only_so_deep() {
    let nested = |depth: usize| format!("{}{}", "[".repeat(depth), "]".repeat(depth));
    assert!(read_document(&nested(127), true).is_some());
    assert!(read_document(&nested(128), true).is_none());
}

#[test]
fn a_written_document_reads_back() {
    let document = object(vec![
        member("list", array(vec![Json::Null, Json::Bool(true), text("\"\\\u{7}")])),
        member("none", object(vec![])),
        member("number", number("12")),
    ]);
    let written = JsonText::of_value(&document);
    assert!(JsonText::read(&written.text).same(&written));
    assert_eq!(written.text, canonical_json(&document));
    assert!(written.is_longer_than(10));
    assert!(!written.is_longer_than(written.text.len()));
}

#[test]
fn no_key_is_special() {
    let key = "$serde_json::private::RawValue";
    let raw = format!("{{\"{key}\":\"1\"}}");
    let expected = object(vec![member(key, text("1"))]);
    assert!(read_document(&raw, true).unwrap().same(&expected));
    assert!(read_document(&format!("[{raw}]"), false).unwrap().same(&array(vec![expected])));
}

#[test]
fn a_document_reads_back_from_its_text() {
    let document = object(vec![
        member("", Json::Null),
        member("\"quoted\" : {", array(vec![Json::Bool(true), text("[1, 2]\n\u{e9}"), array(vec![])])),
        member("number", Json::Number("-12".to_owned())),
        member("object", object(vec![member("a", Json::Bool(false)), member("b", object(vec![]))])),
    ]);
    let written = canonical_json(&document);
    let read = JsonText::read(&written);
    assert_eq!(read.text, written);
    match read.reading {
        Reading::Document { value, written } => {
            assert!(value.same(&document));
            assert!(written.same(&document));
        }
        Reading::Malformed => panic!("a document was expected"),
    }
}

#[test]
fn members_come_in_the_order_of_their_keys() {
    let read = read_document("{\"b\":1.50,\"a\":{\"d\":2,\"c\":3}}", true).unwrap();
    assert!(read.same(&object(vec![
        member("a", object(vec![
            member("c", Json::Number("3".to_owned())),
            member("d", Json::Number("2".to_owned())),
        ])),
        member("b", Json::Number("1.50".to_owned())),
    ])));
    let held = hold_values(&read).unwrap();
    assert!(held.same(&read_document("{\"b\":1.50,\"a\":{\"d\":2,\"c\":3}}", false).unwrap()));
    assert!(!held.same(&read));
    assert!(hold_values(&Json::Number("one".to_owned())).is_none());
}
