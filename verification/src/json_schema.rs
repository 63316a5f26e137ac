//! JSON Schema validation of documents.
use vstd::prelude::*;

use crate::data::Data;
use crate::error::{fail, ContractError, ErrorCode};
#[allow(unused_imports)]
use crate::error::{failure, fault, Fault};
use crate::json::Json;
#[allow(unused_imports)]
use crate::json::{lemma_array_view, lemma_object_view, JsonView, MemberView};

verus! {

/// A document as `serde_json` holds it.
#[verifier::external_type_specification]
#[verifier::external_body]
pub struct ExValue(serde_json::Value);

/// The `serde_json` value of a truth value, or of null.
pub uninterp spec fn truth_value(truth: Option<bool>) -> serde_json::Value;

/// Convert with `serde_json`'s `From<Option<bool>>`. The contract names the value and claims that it
/// depends on the argument alone.
#[verifier::external_body]
fn from_truth(truth: Option<bool>) -> (r: serde_json::Value)
    ensures
        r == truth_value(truth),
{
    serde_json::Value::from(truth)
}

/// The `serde_json` value of a text.
pub uninterp spec fn text_value(text: Seq<char>) -> serde_json::Value;

/// Convert with `serde_json`'s `From<&str>`. The contract names the value and claims that it depends
/// on the text alone.
#[verifier::external_body]
fn from_text(text: &str) -> (r: serde_json::Value)
    ensures
        r == text_value(text@),
{
    serde_json::Value::from(text)
}

/// The `serde_json` value of a number that is written like this, where it is one.
pub uninterp spec fn number_value(number: Seq<char>) -> Option<serde_json::Value>;

/// Ask `serde_json::from_str` for a `serde_json::Number` and take it as a value. The contract names
/// the value and claims that it depends on the text alone.
#[verifier::external_body]
fn from_number(number: &str) -> (r: Option<serde_json::Value>)
    ensures
        r == number_value(number@),
{
    serde_json::from_str::<serde_json::Number>(number).ok().map(serde_json::Value::Number)
}

/// The `serde_json` value of a list of values.
pub uninterp spec fn list_value(items: Seq<serde_json::Value>) -> serde_json::Value;

/// Convert with `serde_json`'s `From<Vec<Value>>`. The contract names the value and claims that it
/// depends on the items alone.
#[verifier::external_body]
fn from_list(items: Vec<serde_json::Value>) -> (r: serde_json::Value)
    ensures
        r == list_value(items@),
{
    serde_json::Value::from(items)
}

/// The `serde_json` value of an object with these keys and their values.
pub uninterp spec fn object_value(
    keys: Seq<Seq<char>>,
    values: Seq<serde_json::Value>,
) -> serde_json::Value;

/// Convert with `serde_json`'s `FromIterator` for pairs. The contract names the value and claims that
/// it depends on the keys and the values alone.
#[verifier::external_body]
fn from_members(keys: Vec<String>, values: Vec<serde_json::Value>) -> (r: serde_json::Value)
    ensures
        r == object_value(keys.deep_view(), values@),
{
    keys.into_iter().zip(values).collect::<serde_json::Value>()
}

/// The document as `serde_json` holds it, where every number is one.
pub open spec fn value_of(json: JsonView) -> Option<serde_json::Value>
    decreases json,
{
    match json {
        JsonView::Null => Some(truth_value(None)),
        JsonView::Bool(b) => Some(truth_value(Some(b))),
        JsonView::Number(number) => number_value(number),
        JsonView::Text(text) => Some(text_value(text)),
        JsonView::Array(items) => match item_values(items) {
            Some(values) => Some(list_value(values)),
            None => None,
        },
        JsonView::Object(members) => match member_values(members) {
            Some(values) => Some(object_value(member_keys(members), values)),
            None => None,
        },
    }
}

/// Documents as `serde_json` holds them.
pub open spec fn item_values(items: Seq<JsonView>) -> Option<Seq<serde_json::Value>>
    decreases items,
{
    if items.len() == 0 {
        Some(Seq::empty())
    } else {
        match (item_values(items.drop_last()), value_of(items.last())) {
            (Some(front), Some(value)) => Some(front.push(value)),
            _ => None,
        }
    }
}

/// The values of members as `serde_json` holds them.
pub open spec fn member_values(members: Seq<MemberView>) -> Option<Seq<serde_json::Value>>
    decreases members,
{
    if members.len() == 0 {
        Some(Seq::empty())
    } else {
        match (member_values(members.drop_last()), value_of(members.last().value)) {
            (Some(front), Some(value)) => Some(front.push(value)),
            _ => None,
        }
    }
}

/// The keys of members.
pub open spec fn member_keys(members: Seq<MemberView>) -> Seq<Seq<char>> {
    Seq::new(members.len(), |i: int| members[i].key)
}

proof fn lemma_items_prefix(items: Seq<JsonView>, i: int)
    requires
        0 <= i <= items.len(),
        item_values(items.take(i)) is None,
    ensures
        item_values(items) is None,
    decreases items.len() - i,
{
    if i < items.len() {
        assert(items.take(i + 1).drop_last() =~= items.take(i));
        lemma_items_prefix(items, i + 1);
    } else {
        assert(items.take(i) =~= items);
    }
}

proof fn lemma_members_prefix(members: Seq<MemberView>, i: int)
    requires
        0 <= i <= members.len(),
        member_values(members.take(i)) is None,
    ensures
        member_values(members) is None,
    decreases members.len() - i,
{
    if i < members.len() {
        assert(members.take(i + 1).drop_last() =~= members.take(i));
        lemma_members_prefix(members, i + 1);
    } else {
        assert(members.take(i) =~= members);
    }
}

fn to_value(json: &Json) -> (r: Option<serde_json::Value>)
    ensures
        r == value_of(json@),
    decreases *json,
{
    match json {
        Json::Null => Some(from_truth(None)),
        Json::Bool(b) => Some(from_truth(Some(*b))),
        Json::Number(number) => from_number(number.as_str()),
        Json::Text(text) => Some(from_text(text.as_str())),
        Json::Array(items) => {
            let ghost s = items.deep_view();
            proof {
                lemma_array_view(*items);
            }
            let mut values: Vec<serde_json::Value> = Vec::new();
            let mut i: usize = 0;
            assert(s.take(0) =~= Seq::<JsonView>::empty());
            assert(values@ =~= Seq::<serde_json::Value>::empty());
            while i < items.len()
                invariant
                    i <= items.len(),
                    *json == Json::Array(*items),
                    json@ == JsonView::Array(s),
                    s == items.deep_view(),
                    item_values(s.take(i as int)) == Some(values@),
                decreases items.len() - i,
            {
                assert(decreases_to!(*json => json->Array_0));
                assert(decreases_to!(*items => items@));
                assert(decreases_to!(items@ => items@[i as int]));
                assert(s.take(i + 1).drop_last() =~= s.take(i as int));
                assert(s.take(i + 1).last() == items@[i as int]@);
                match to_value(&items[i]) {
                    Some(value) => {
                        values.push(value);
                    },
                    None => {
                        proof {
                            lemma_items_prefix(s, i + 1);
                        }
                        return None;
                    },
                }
                i = i + 1;
            }
            assert(s.take(i as int) =~= s);
            Some(from_list(values))
        },
        Json::Object(members) => {
            let ghost s = members.deep_view();
            proof {
                lemma_object_view(*members);
            }
            let mut keys: Vec<String> = Vec::new();
            let mut values: Vec<serde_json::Value> = Vec::new();
            let mut i: usize = 0;
            assert(s.take(0) =~= Seq::<MemberView>::empty());
            assert(values@ =~= Seq::<serde_json::Value>::empty());
            assert(keys.deep_view() =~= member_keys(s.take(0)));
            while i < members.len()
                invariant
                    i <= members.len(),
                    *json == Json::Object(*members),
                    json@ == JsonView::Object(s),
                    s == members.deep_view(),
                    keys.deep_view() == member_keys(s.take(i as int)),
                    member_values(s.take(i as int)) == Some(values@),
                decreases members.len() - i,
            {
                assert(decreases_to!(*json => json->Object_0));
                assert(decreases_to!(*members => members@));
                assert(decreases_to!(members@ => members@[i as int]));
                assert(decreases_to!(members@[i as int] => members@[i as int].value));
                assert(s.take(i + 1).drop_last() =~= s.take(i as int));
                assert(s.take(i + 1).last() == members@[i as int]@);
                match to_value(&members[i].value) {
                    Some(value) => {
                        values.push(value);
                    },
                    None => {
                        proof {
                            lemma_members_prefix(s, i + 1);
                        }
                        return None;
                    },
                }
                let ghost before = keys.deep_view();
                keys.push(members[i].key.copy());
                assert(keys.deep_view() =~= before.push(members@[i as int]@.key));
                assert(member_keys(s.take(i + 1)) =~= member_keys(s.take(i as int)).push(
                    members@[i as int]@.key,
                ));
                i = i + 1;
            }
            assert(s.take(i as int) =~= s);
            Some(from_members(keys, values))
        },
    }
}

/// `jsonschema` builds a validator from a schema.
pub uninterp spec fn schema_builds(schema: serde_json::Value) -> bool;

/// Build a validator with `jsonschema::draft202012::options().build`, formats included. The
/// contract names whether that succeeds and claims that it depends on the schema alone.
#[verifier::external_body]
fn builds(schema: &serde_json::Value) -> (r: bool)
    ensures
        r == schema_builds(*schema),
{
    jsonschema::draft202012::options().should_validate_formats(true).build(schema).is_ok()
}

/// The validator that `jsonschema` builds from a schema accepts a document.
pub uninterp spec fn schema_accepts(
    schema: serde_json::Value,
    document: serde_json::Value,
) -> bool;

/// Validate with `jsonschema::Validator::is_valid`, formats included. The contract names the
/// answer and claims that it depends on the schema and the document alone; a schema from which no
/// validator is built accepts nothing.
#[verifier::external_body]
fn accepts(schema: &serde_json::Value, document: &serde_json::Value) -> (r: bool)
    ensures
        r == schema_accepts(*schema, *document),
{
    jsonschema::draft202012::options()
        .should_validate_formats(true)
        .build(schema)
        .is_ok_and(|validator| validator.is_valid(document))
}

/// Why a schema cannot be used.
pub open spec fn compile_fault(schema: JsonView) -> Option<Fault> {
    if value_of(schema) matches Some(value) && schema_builds(value) {
        None
    } else {
        fault(ErrorCode::InvalidSchema, "schema")
    }
}

/// A schema accepts a document.
pub open spec fn accepts_document(schema: JsonView, document: JsonView) -> bool {
    match (value_of(schema), value_of(document)) {
        (Some(schema), Some(document)) => schema_accepts(schema, document),
        _ => false,
    }
}

/// Check that a schema can be used: that every number of it is one and that `jsonschema` builds a
/// validator from it. Nothing else is asked of a schema here. Whatever is wrong with it is reported
/// as `InvalidSchema` at `schema`, by the convention of this function.
pub fn compile_validator(schema: &Json) -> (r: Result<(), ContractError>)
    ensures
        failure(r) == compile_fault(schema@),
{
    match to_value(schema) {
        Some(value) => {
            if !builds(&value) {
                return fail(ErrorCode::InvalidSchema, "schema");
            }
            Ok(())
        },
        None => fail(ErrorCode::InvalidSchema, "schema"),
    }
}

/// Whether a schema accepts a document.
pub fn is_accepted(schema: &Json, document: &Json) -> (r: bool)
    ensures
        r == accepts_document(schema@, document@),
{
    match (to_value(schema), to_value(document)) {
        (Some(schema), Some(document)) => accepts(&schema, &document),
        _ => false,
    }
}

} // verus!
