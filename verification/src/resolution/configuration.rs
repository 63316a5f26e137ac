//! Configuration schemas, and configurations that they accept.
use vstd::prelude::*;

use crate::error::{fail, ContractError, ErrorCode};
#[allow(unused_imports)]
use crate::error::{failure, fault, Fault};
use crate::json::Json;
#[allow(unused_imports)]
use crate::json::{lemma_array_view, lemma_object_view, JsonView, MemberView};
use crate::json_schema::{compile_validator, is_accepted};
#[allow(unused_imports)]
use crate::json_schema::{accepts_document, compile_fault};
use crate::text::{begins_with, reads};

verus! {

/// Keys under which a schema holds named schemas.
pub open spec fn names_schemas(key: Seq<char>) -> bool {
    key == "$defs"@ || key == "definitions"@ || key == "properties"@ || key
        == "patternProperties"@ || key == "dependentSchemas"@
}

/// Keys under which a schema holds one schema.
pub open spec fn holds_schema(key: Seq<char>) -> bool {
    ||| key == "items"@
    ||| key == "additionalProperties"@
    ||| key == "unevaluatedProperties"@
    ||| key == "unevaluatedItems"@
    ||| key == "contains"@
    ||| key == "not"@
    ||| key == "if"@
    ||| key == "then"@
    ||| key == "else"@
    ||| key == "propertyNames"@
    ||| key == "contentSchema"@
}

/// Keys under which a schema holds a list of schemas.
pub open spec fn lists_schemas(key: Seq<char>) -> bool {
    key == "allOf"@ || key == "anyOf"@ || key == "oneOf"@ || key == "prefixItems"@
}

fn is_naming(key: &String) -> (r: bool)
    ensures
        r == names_schemas(key@),
{
    reads(key, "$defs") || reads(key, "definitions") || reads(key, "properties") || reads(
        key,
        "patternProperties",
    ) || reads(key, "dependentSchemas")
}

fn is_holding(key: &String) -> (r: bool)
    ensures
        r == holds_schema(key@),
{
    reads(key, "items") || reads(key, "additionalProperties") || reads(
        key,
        "unevaluatedProperties",
    ) || reads(key, "unevaluatedItems") || reads(key, "contains") || reads(key, "not") || reads(
        key,
        "if",
    ) || reads(key, "then") || reads(key, "else") || reads(key, "propertyNames") || reads(
        key,
        "contentSchema",
    )
}

fn is_listing(key: &String) -> (r: bool)
    ensures
        r == lists_schemas(key@),
{
    reads(key, "allOf") || reads(key, "anyOf") || reads(key, "oneOf") || reads(key, "prefixItems")
}

/// A member of a schema refers to nothing outside the schema, and to no other dialect.
pub open spec fn is_local(member: MemberView) -> bool {
    &&& member.key != "$dynamicRef"@
    &&& member.key != "$recursiveRef"@
    &&& member.key == "$ref"@ ==> (member.value matches JsonView::Text(target)
        && "#"@.is_prefix_of(target))
    &&& member.key == "$schema"@ ==> member.value == JsonView::Text(
        "https://json-schema.org/draft/2020-12/schema"@,
    )
}

/// A schema, at every depth, refers to nothing outside itself.
pub open spec fn self_contained(schema: JsonView) -> bool
    decreases schema,
{
    match schema {
        JsonView::Object(members) => members_contained(members),
        JsonView::Bool(_) => true,
        _ => false,
    }
}

pub open spec fn members_contained(members: Seq<MemberView>) -> bool
    decreases members,
{
    members.len() == 0 || (members_contained(members.drop_last()) && is_local(members.last()) && (
    names_schemas(members.last().key) ==> named_contained(members.last().value)) && (holds_schema(
        members.last().key,
    ) ==> self_contained(members.last().value)) && (lists_schemas(members.last().key)
        ==> listed_contained(members.last().value)))
}

pub open spec fn named_contained(json: JsonView) -> bool
    decreases json,
{
    match json {
        JsonView::Object(members) => values_contained(members),
        _ => true,
    }
}

pub open spec fn values_contained(members: Seq<MemberView>) -> bool
    decreases members,
{
    members.len() == 0 || (values_contained(members.drop_last()) && self_contained(
        members.last().value,
    ))
}

pub open spec fn listed_contained(json: JsonView) -> bool
    decreases json,
{
    match json {
        JsonView::Array(items) => items_contained(items),
        _ => true,
    }
}

pub open spec fn items_contained(items: Seq<JsonView>) -> bool
    decreases items,
{
    items.len() == 0 || (items_contained(items.drop_last()) && self_contained(items.last()))
}

fn has_only_local(key: &String, value: &Json) -> (r: bool)
    ensures
        r == is_local(MemberView { key: key@, value: value@ }),
{
    if reads(key, "$dynamicRef") || reads(key, "$recursiveRef") {
        return false;
    }
    if reads(key, "$ref") {
        let is_inside = match value {
            Json::Text(target) => begins_with(target.as_str(), "#"),
            _ => false,
        };
        if !is_inside {
            return false;
        }
    }
    !reads(key, "$schema") || value.is_text("https://json-schema.org/draft/2020-12/schema")
}

fn is_named_contained(json: &Json) -> (r: bool)
    ensures
        r == named_contained(json@),
    decreases *json, 0int,
{
    match json {
        Json::Object(members) => {
            let ghost viewed = members.deep_view();
            let mut is_fine = true;
            let mut i: usize = 0;
            proof {
                lemma_object_view(*members);
            }
            assert(viewed.take(0) =~= Seq::<MemberView>::empty());
            while i < members.len()
                invariant
                    i <= members.len(),
                    *json == Json::Object(*members),
                    viewed == members.deep_view(),
                    is_fine == values_contained(viewed.take(i as int)),
                decreases members.len() - i,
            {
                assert(decreases_to!(*json => json->Object_0));
                assert(decreases_to!(*members => members@));
                assert(decreases_to!(members@ => members@[i as int]));
                assert(decreases_to!(members@[i as int] => members@[i as int].value));
                assert(viewed.take(i + 1).drop_last() =~= viewed.take(i as int));
                assert(viewed.take(i + 1).last() == members@[i as int]@);
                let is_next_fine = is_self_contained(&members[i].value);
                is_fine = is_fine && is_next_fine;
                i = i + 1;
            }
            assert(viewed.take(i as int) =~= viewed);
            is_fine
        },
        _ => true,
    }
}

fn is_listed_contained(json: &Json) -> (r: bool)
    ensures
        r == listed_contained(json@),
    decreases *json, 0int,
{
    match json {
        Json::Array(items) => {
            let ghost viewed = items.deep_view();
            let mut is_fine = true;
            let mut i: usize = 0;
            proof {
                lemma_array_view(*items);
            }
            assert(viewed.take(0) =~= Seq::<JsonView>::empty());
            while i < items.len()
                invariant
                    i <= items.len(),
                    *json == Json::Array(*items),
                    viewed == items.deep_view(),
                    is_fine == items_contained(viewed.take(i as int)),
                decreases items.len() - i,
            {
                assert(decreases_to!(*json => json->Array_0));
                assert(decreases_to!(*items => items@));
                assert(decreases_to!(items@ => items@[i as int]));
                assert(viewed.take(i + 1).drop_last() =~= viewed.take(i as int));
                assert(viewed.take(i + 1).last() == items@[i as int]@);
                let is_next_fine = is_self_contained(&items[i]);
                is_fine = is_fine && is_next_fine;
                i = i + 1;
            }
            assert(viewed.take(i as int) =~= viewed);
            is_fine
        },
        _ => true,
    }
}

/// Whether a schema, at every depth, refers to nothing outside itself.
pub fn is_self_contained(schema: &Json) -> (r: bool)
    ensures
        r == self_contained(schema@),
    decreases *schema, 0int,
{
    match schema {
        Json::Object(members) => {
            let ghost viewed = members.deep_view();
            let mut is_fine = true;
            let mut i: usize = 0;
            proof {
                lemma_object_view(*members);
            }
            assert(viewed.take(0) =~= Seq::<MemberView>::empty());
            while i < members.len()
                invariant
                    i <= members.len(),
                    *schema == Json::Object(*members),
                    viewed == members.deep_view(),
                    is_fine == members_contained(viewed.take(i as int)),
                decreases members.len() - i,
            {
                assert(decreases_to!(*schema => schema->Object_0));
                assert(decreases_to!(*members => members@));
                assert(decreases_to!(members@ => members@[i as int]));
                assert(decreases_to!(members@[i as int] => members@[i as int].value));
                assert(viewed.take(i + 1).drop_last() =~= viewed.take(i as int));
                assert(viewed.take(i + 1).last() == members@[i as int]@);
                let key = &members[i].key;
                let value = &members[i].value;
                let is_next_fine = has_only_local(key, value) && (!is_naming(key)
                    || is_named_contained(value)) && (!is_holding(key) || is_self_contained(value))
                    && (!is_listing(key) || is_listed_contained(value));
                is_fine = is_fine && is_next_fine;
                i = i + 1;
            }
            assert(viewed.take(i as int) =~= viewed);
            is_fine
        },
        Json::Bool(_) => true,
        _ => false,
    }
}

/// Why a configuration is refused.
pub open spec fn configuration_fault(schema: JsonView, value: JsonView) -> Option<Fault> {
    if !self_contained(schema) || compile_fault(schema) is Some {
        fault(ErrorCode::InvalidSchema, "config_schema")
    } else if !accepts_document(schema, value) {
        fault(ErrorCode::InvalidConfiguration, "config")
    } else {
        None
    }
}

/// Check a configuration against its schema. The schema refers to nothing outside itself, so nothing
/// is fetched to judge it.
pub fn validate_configuration(schema: &Json, value: &Json) -> (r: Result<(), ContractError>)
    ensures
        failure(r) == configuration_fault(schema@, value@),
{
    if !is_self_contained(schema) || compile_validator(schema).is_err() {
        return fail(ErrorCode::InvalidSchema, "config_schema");
    }
    if !is_accepted(schema, value) {
        return fail(ErrorCode::InvalidConfiguration, "config");
    }
    Ok(())
}

proof fn lemma_contained_at(members: Seq<MemberView>, i: int)
    requires
        members_contained(members),
        0 <= i < members.len(),
    ensures
        is_local(members[i]),
        holds_schema(members[i].key) ==> self_contained(members[i].value),
        names_schemas(members[i].key) ==> named_contained(members[i].value),
        lists_schemas(members[i].key) ==> listed_contained(members[i].value),
    decreases members.len(),
{
    if i < members.len() - 1 {
        assert(members.drop_last()[i] == members[i]);
        lemma_contained_at(members.drop_last(), i);
    }
}

/// A schema that is taken refers to nothing but itself, in one dialect, and so do the schemas that it
/// holds: it has no moving reference, and a reference starts at its own root.
pub proof fn law_schemas_refer_to_themselves(members: Seq<MemberView>, i: int)
    requires
        self_contained(JsonView::Object(members)),
        0 <= i < members.len(),
    ensures
        members[i].key != "$dynamicRef"@,
        members[i].key != "$recursiveRef"@,
        members[i].key == "$ref"@ ==> (members[i].value matches JsonView::Text(target)
            && "#"@.is_prefix_of(target)),
        members[i].key == "$schema"@ ==> members[i].value == JsonView::Text(
            "https://json-schema.org/draft/2020-12/schema"@,
        ),
        members[i].key == "items"@ || members[i].key == "additionalProperties"@ || members[i].key
            == "unevaluatedProperties"@ || members[i].key == "unevaluatedItems"@ || members[i].key
            == "contains"@ || members[i].key == "not"@ || members[i].key == "if"@ || members[i].key
            == "then"@ || members[i].key == "else"@ || members[i].key == "propertyNames"@
            || members[i].key == "contentSchema"@ ==> self_contained(members[i].value),
        members[i].key == "$defs"@ || members[i].key == "definitions"@ || members[i].key
            == "properties"@ || members[i].key == "patternProperties"@ || members[i].key
            == "dependentSchemas"@ ==> named_contained(members[i].value),
        members[i].key == "allOf"@ || members[i].key == "anyOf"@ || members[i].key == "oneOf"@
            || members[i].key == "prefixItems"@ ==> listed_contained(members[i].value),
{
    lemma_contained_at(members, i);
}

} // verus!
