//! Where each constraint of a canonical schema is enforced, and how deep a schema may nest.
use vstd::prelude::*;

use crate::data::Data;
use crate::json::{Json, Member};
#[allow(unused_imports)]
use crate::json::{get_of, lemma_array_view, lemma_object_view, JsonView, MemberView};
#[allow(unused_imports)]
use crate::serialization::{lemma_own_value, unambiguous};
use crate::provider_tool_schema::ToolConstraintEnforcement;
#[allow(unused_imports)]
use crate::provider_tool_schema::ToolConstraintEnforcementView;
use crate::text::{chars_of, concat, decimal, reads, string_of};
#[allow(unused_imports)]
use crate::text::decimal_text;

verus! {

/// No value of the document stands deeper than `max` levels below it.
pub open spec fn within_depth(json: JsonView, max: int) -> bool
    decreases json,
{
    match json {
        JsonView::Array(items) => items_within(items, max - 1),
        JsonView::Object(members) => members_within(members, max - 1),
        _ => true,
    }
}

/// Every item may stand here, with `max` levels left below it.
pub open spec fn items_within(items: Seq<JsonView>, max: int) -> bool
    decreases items,
{
    if items.len() == 0 {
        true
    } else {
        items_within(items.drop_last(), max) && max >= 0 && within_depth(items.last(), max)
    }
}

/// Every member's value may stand here, with `max` levels left below it.
pub open spec fn members_within(members: Seq<MemberView>, max: int) -> bool
    decreases members,
{
    if members.len() == 0 {
        true
    } else {
        members_within(members.drop_last(), max) && max >= 0 && within_depth(
            members.last().value,
            max,
        )
    }
}

proof fn lemma_items_within_prefix(items: Seq<JsonView>, max: int, i: int)
    requires
        0 <= i <= items.len(),
        !items_within(items.take(i), max),
    ensures
        !items_within(items, max),
    decreases items.len() - i,
{
    if i < items.len() {
        assert(items.take(i + 1).drop_last() =~= items.take(i));
        lemma_items_within_prefix(items, max, i + 1);
    } else {
        assert(items.take(i) =~= items);
    }
}

proof fn lemma_members_within_prefix(members: Seq<MemberView>, max: int, i: int)
    requires
        0 <= i <= members.len(),
        !members_within(members.take(i), max),
    ensures
        !members_within(members, max),
    decreases members.len() - i,
{
    if i < members.len() {
        assert(members.take(i + 1).drop_last() =~= members.take(i));
        lemma_members_within_prefix(members, max, i + 1);
    } else {
        assert(members.take(i) =~= members);
    }
}

/// Whether no value of the document stands deeper than `max` levels below it.
pub fn is_within_depth(value: &Json, max: usize) -> (r: bool)
    ensures
        r == within_depth(value@, max as int),
    decreases *value,
{
    match value {
        Json::Array(items) => {
            proof {
                lemma_array_view(*items);
            }
            let ghost viewed = items.deep_view();
            let mut i: usize = 0;
            assert(viewed.take(0) =~= Seq::<JsonView>::empty());
            while i < items.len()
                invariant
                    i <= items.len(),
                    *value == Json::Array(*items),
                    value@ == JsonView::Array(viewed),
                    viewed == items.deep_view(),
                    items_within(viewed.take(i as int), max - 1),
                decreases items.len() - i,
            {
                assert(decreases_to!(*value => value->Array_0));
                assert(decreases_to!(*items => items@));
                assert(decreases_to!(items@ => items@[i as int]));
                assert(viewed.take(i + 1).drop_last() =~= viewed.take(i as int));
                assert(viewed.take(i + 1).last() == items@[i as int]@);
                if max == 0 || !is_within_depth(&items[i], max - 1) {
                    proof {
                        lemma_items_within_prefix(viewed, max - 1, i + 1);
                    }
                    return false;
                }
                i = i + 1;
            }
            assert(viewed.take(i as int) =~= viewed);
            true
        },
        Json::Object(members) => {
            proof {
                lemma_object_view(*members);
            }
            let ghost viewed = members.deep_view();
            let mut i: usize = 0;
            assert(viewed.take(0) =~= Seq::<MemberView>::empty());
            while i < members.len()
                invariant
                    i <= members.len(),
                    *value == Json::Object(*members),
                    value@ == JsonView::Object(viewed),
                    viewed == members.deep_view(),
                    members_within(viewed.take(i as int), max - 1),
                decreases members.len() - i,
            {
                assert(decreases_to!(*value => value->Object_0));
                assert(decreases_to!(*members => members@));
                assert(decreases_to!(members@ => members@[i as int]));
                assert(decreases_to!(members@[i as int] => members@[i as int].value));
                assert(viewed.take(i + 1).drop_last() =~= viewed.take(i as int));
                assert(viewed.take(i + 1).last() == members@[i as int]@);
                if max == 0 || !is_within_depth(&members[i].value, max - 1) {
                    proof {
                        lemma_members_within_prefix(viewed, max - 1, i + 1);
                    }
                    return false;
                }
                i = i + 1;
            }
            assert(viewed.take(i as int) =~= viewed);
            true
        },
        _ => true,
    }
}

/// A key as a token of a JSON pointer.
pub open spec fn escaped(key: Seq<char>) -> Seq<char>
    decreases key.len(),
{
    if key.len() == 0 {
        Seq::empty()
    } else {
        let front = escaped(key.drop_last());
        if key.last() == '~' {
            front.push('~').push('0')
        } else if key.last() == '/' {
            front.push('~').push('1')
        } else {
            front.push(key.last())
        }
    }
}

fn escape(key: &str) -> (r: String)
    ensures
        r@ == escaped(key@),
{
    let chars = chars_of(key);
    let mut out: Vec<char> = Vec::new();
    let mut i: usize = 0;
    assert(key@.take(0) =~= Seq::<char>::empty());
    while i < chars.len()
        invariant
            i <= chars.len(),
            chars@ == key@,
            out@ == escaped(key@.take(i as int)),
        decreases chars.len() - i,
    {
        assert(key@.take(i + 1).drop_last() =~= key@.take(i as int));
        assert(key@.take(i + 1).last() == chars@[i as int]);
        let c = chars[i];
        if c == '~' {
            out.push('~');
            out.push('0');
        } else if c == '/' {
            out.push('~');
            out.push('1');
        } else {
            out.push(c);
        }
        i = i + 1;
    }
    assert(key@.take(i as int) =~= key@);
    string_of(&out)
}

/// The pointer of a child.
pub open spec fn child_pointer(pointer: Seq<char>, token: Seq<char>) -> Seq<char> {
    pointer + "/"@ + token
}

fn child(pointer: &str, token: &str) -> (r: String)
    ensures
        r@ == child_pointer(pointer@, token@),
{
    let opened = concat(pointer, "/");
    concat(opened.as_str(), token)
}

/// Keywords that constrain nothing.
pub open spec fn is_annotation(key: Seq<char>) -> bool {
    ||| key == "title"@
    ||| key == "description"@
    ||| key == "default"@
    ||| key == "examples"@
    ||| key == "$comment"@
    ||| key == "$schema"@
    ||| key == "$id"@
    ||| key == "deprecated"@
    ||| key == "readOnly"@
    ||| key == "writeOnly"@
}

/// Keywords whose value holds schemas under names.
pub open spec fn holds_named_schemas(key: Seq<char>) -> bool {
    ||| key == "properties"@
    ||| key == "$defs"@
    ||| key == "definitions"@
    ||| key == "dependentSchemas"@
    ||| key == "patternProperties"@
}

/// Keywords whose value holds schemas in order.
pub open spec fn holds_listed_schemas(key: Seq<char>) -> bool {
    ||| key == "allOf"@
    ||| key == "anyOf"@
    ||| key == "oneOf"@
    ||| key == "prefixItems"@
}

/// Keywords whose value is a schema.
pub open spec fn holds_schema(key: Seq<char>) -> bool {
    ||| key == "items"@
    ||| key == "additionalProperties"@
    ||| key == "unevaluatedProperties"@
    ||| key == "unevaluatedItems"@
    ||| key == "contains"@
    ||| key == "not"@
    ||| key == "if"@
    ||| key == "then"@
    ||| key == "else"@
    ||| key == "propertyNames"@
}

fn annotates(key: &String) -> (r: bool)
    ensures
        r == is_annotation(key@),
{
    reads(key, "title") || reads(key, "description") || reads(key, "default") || reads(
        key,
        "examples",
    ) || reads(key, "$comment") || reads(key, "$schema") || reads(key, "$id") || reads(
        key,
        "deprecated",
    ) || reads(key, "readOnly") || reads(key, "writeOnly")
}

fn names_schemas(key: &String) -> (r: bool)
    ensures
        r == holds_named_schemas(key@),
{
    reads(key, "properties") || reads(key, "$defs") || reads(key, "definitions") || reads(
        key,
        "dependentSchemas",
    ) || reads(key, "patternProperties")
}

fn lists_schemas(key: &String) -> (r: bool)
    ensures
        r == holds_listed_schemas(key@),
{
    reads(key, "allOf") || reads(key, "anyOf") || reads(key, "oneOf") || reads(key, "prefixItems")
}

fn is_schema_keyword(key: &String) -> (r: bool)
    ensures
        r == holds_schema(key@),
{
    reads(key, "items") || reads(key, "additionalProperties") || reads(
        key,
        "unevaluatedProperties",
    ) || reads(key, "unevaluatedItems") || reads(key, "contains") || reads(key, "not") || reads(
        key,
        "if",
    ) || reads(key, "then") || reads(key, "else") || reads(key, "propertyNames")
}

/// What is common to every entry of one contract.
#[derive(Clone, Copy)]
pub struct Mechanism {
    /// The wire schema is the canonical schema and arguments are sent unchanged.
    pub identity: bool,
    /// The constraints are explained in text.
    pub text: bool,
}

/// The entry of one schema node. `wire` is the node of the wire schema at the same place.
pub open spec fn node_entry(
    canonical: JsonView,
    wire: Option<JsonView>,
    pointer: Seq<char>,
    mechanism: Mechanism,
) -> ToolConstraintEnforcementView {
    ToolConstraintEnforcementView {
        canonical_pointer: pointer,
        provider_native: mechanism.identity && wire == Some(canonical),
        context_text: mechanism.text,
        core: true,
    }
}

/// The value of a key at a place that may not exist.
pub open spec fn step_key(wire: Option<JsonView>, key: Seq<char>) -> Option<JsonView> {
    match wire {
        Some(json) => get_of(json, key),
        None => None,
    }
}

/// The item of an index at a place that may not exist.
pub open spec fn step_index(wire: Option<JsonView>, i: int) -> Option<JsonView> {
    match wire {
        Some(json) => crate::provider_tool_schema::arguments::item_at(json, i),
        None => None,
    }
}

/// The entries of a schema: its own, then those of its keywords.
pub open spec fn schema_entries(
    canonical: JsonView,
    wire: Option<JsonView>,
    pointer: Seq<char>,
    mechanism: Mechanism,
) -> Seq<ToolConstraintEnforcementView>
    decreases canonical,
{
    seq![node_entry(canonical, wire, pointer, mechanism)] + (match canonical {
        JsonView::Object(members) => keyword_entries(members, wire, pointer, mechanism),
        _ => Seq::empty(),
    })
}

/// The entries of keywords, in order.
pub open spec fn keyword_entries(
    members: Seq<MemberView>,
    wire: Option<JsonView>,
    pointer: Seq<char>,
    mechanism: Mechanism,
) -> Seq<ToolConstraintEnforcementView>
    decreases members,
{
    if members.len() == 0 {
        Seq::empty()
    } else {
        let front = keyword_entries(members.drop_last(), wire, pointer, mechanism);
        let key = members.last().key;
        let value = members.last().value;
        let path = child_pointer(pointer, escaped(key));
        let at = step_key(wire, key);
        if is_annotation(key) {
            front
        } else if holds_named_schemas(key) {
            front + (match value {
                JsonView::Object(children) => named_entries(children, at, path, mechanism),
                _ => Seq::empty(),
            })
        } else if holds_listed_schemas(key) {
            front + (match value {
                JsonView::Array(children) => listed_entries(children, at, path, mechanism),
                _ => Seq::empty(),
            }) + seq![node_entry(value, at, path, mechanism)]
        } else if holds_schema(key) {
            front + schema_entries(value, at, path, mechanism)
        } else {
            front + seq![node_entry(value, at, path, mechanism)]
        }
    }
}

/// The entries of schemas under names, in order.
pub open spec fn named_entries(
    children: Seq<MemberView>,
    wire: Option<JsonView>,
    pointer: Seq<char>,
    mechanism: Mechanism,
) -> Seq<ToolConstraintEnforcementView>
    decreases children,
{
    if children.len() == 0 {
        Seq::empty()
    } else {
        named_entries(children.drop_last(), wire, pointer, mechanism) + schema_entries(
            children.last().value,
            step_key(wire, children.last().key),
            child_pointer(pointer, escaped(children.last().key)),
            mechanism,
        )
    }
}

/// The entries of schemas in order.
pub open spec fn listed_entries(
    children: Seq<JsonView>,
    wire: Option<JsonView>,
    pointer: Seq<char>,
    mechanism: Mechanism,
) -> Seq<ToolConstraintEnforcementView>
    decreases children,
{
    if children.len() == 0 {
        Seq::empty()
    } else {
        listed_entries(children.drop_last(), wire, pointer, mechanism) + schema_entries(
            children.last(),
            step_index(wire, children.len() - 1),
            child_pointer(pointer, decimal_text((children.len() - 1) as nat)),
            mechanism,
        )
    }
}

fn entry(canonical: &Json, wire: Option<&Json>, pointer: String, mechanism: Mechanism) -> (r:
    ToolConstraintEnforcement)
    ensures
        r@ == node_entry(canonical@, wire.deep_view(), pointer@, mechanism),
{
    let native = match wire {
        Some(node) => node.same(canonical),
        None => false,
    };
    ToolConstraintEnforcement {
        canonical_pointer: pointer,
        provider_native: mechanism.identity && native,
        context_text: mechanism.text,
        core: true,
    }
}

fn value_at_key<'a>(wire: Option<&'a Json>, key: &str) -> (r: Option<&'a Json>)
    ensures
        r.deep_view() == step_key(wire.deep_view(), key@),
{
    match wire {
        Some(json) => json.get(key),
        None => None,
    }
}

fn value_at_index<'a>(wire: Option<&'a Json>, i: usize) -> (r: Option<&'a Json>)
    ensures
        r.deep_view() == step_index(wire.deep_view(), i as int),
{
    match wire {
        Some(json) => match json {
            Json::Array(items) => {
                proof {
                    lemma_array_view(*items);
                }
                assert(items.deep_view().len() == items.len());
                if i < items.len() {
                    assert(items.deep_view()[i as int] == items@[i as int]@);
                    Some(&items[i])
                } else {
                    None
                }
            },
            _ => None,
        },
        None => None,
    }
}

fn push_entry(list: Vec<ToolConstraintEnforcement>, entry: ToolConstraintEnforcement) -> (r: Vec<
    ToolConstraintEnforcement,
>)
    ensures
        r.deep_view() == list.deep_view() + seq![entry@],
{
    let mut out = list;
    let ghost added = entry@;
    out.push(entry);
    assert(out.deep_view() =~= list.deep_view() + seq![added]);
    out
}

/// Append the entries of a schema.
pub fn collect_enforcement(
    canonical: &Json,
    wire: Option<&Json>,
    pointer: &str,
    mechanism: Mechanism,
    output: Vec<ToolConstraintEnforcement>,
) -> (r: Vec<ToolConstraintEnforcement>)
    ensures
        r.deep_view() == output.deep_view() + schema_entries(
            canonical@,
            wire.deep_view(),
            pointer@,
            mechanism,
        ),
    decreases *canonical, 1nat,
{
    let ghost own = seq![node_entry(canonical@, wire.deep_view(), pointer@, mechanism)];
    let ghost start = output.deep_view();
    let out = push_entry(output, entry(canonical, wire, pointer.to_owned(), mechanism));
    match canonical {
        Json::Object(members) => {
            proof {
                lemma_object_view(*members);
            }
            let ghost viewed = members.deep_view();
            let mut out = out;
            let mut i: usize = 0;
            assert(viewed.take(0) =~= Seq::<MemberView>::empty());
            while i < members.len()
                invariant
                    i <= members.len(),
                    *canonical == Json::Object(*members),
                    viewed == members.deep_view(),
                    out.deep_view() =~= start + own + keyword_entries(
                        viewed.take(i as int),
                        wire.deep_view(),
                        pointer@,
                        mechanism,
                    ),
                decreases members.len() - i,
            {
                assert(decreases_to!(*canonical => canonical->Object_0));
                assert(decreases_to!(*members => members@));
                assert(decreases_to!(members@ => members@[i as int]));
                assert(decreases_to!(members@[i as int] => members@[i as int].value));
                assert(viewed.take(i + 1).drop_last() =~= viewed.take(i as int));
                assert(viewed.take(i + 1).last() == members@[i as int]@);
                let ghost before = out.deep_view();
                out = collect_keyword(&members[i], wire, pointer, mechanism, out);
                i = i + 1;
            }
            assert(viewed.take(i as int) =~= viewed);
            out
        },
        _ => {
            assert(out.deep_view() =~= start + schema_entries(
                canonical@,
                wire.deep_view(),
                pointer@,
                mechanism,
            ));
            out
        },
    }
}

/// The entries of one keyword.
pub open spec fn one_keyword(
    member: MemberView,
    wire: Option<JsonView>,
    pointer: Seq<char>,
    mechanism: Mechanism,
) -> Seq<ToolConstraintEnforcementView> {
    let path = child_pointer(pointer, escaped(member.key));
    let at = step_key(wire, member.key);
    if is_annotation(member.key) {
        Seq::empty()
    } else if holds_named_schemas(member.key) {
        match member.value {
            JsonView::Object(children) => named_entries(children, at, path, mechanism),
            _ => Seq::empty(),
        }
    } else if holds_listed_schemas(member.key) {
        (match member.value {
            JsonView::Array(children) => listed_entries(children, at, path, mechanism),
            _ => Seq::empty(),
        }) + seq![node_entry(member.value, at, path, mechanism)]
    } else if holds_schema(member.key) {
        schema_entries(member.value, at, path, mechanism)
    } else {
        seq![node_entry(member.value, at, path, mechanism)]
    }
}

fn collect_keyword(
    member: &Member,
    wire: Option<&Json>,
    pointer: &str,
    mechanism: Mechanism,
    output: Vec<ToolConstraintEnforcement>,
) -> (r: Vec<ToolConstraintEnforcement>)
    ensures
        r.deep_view() == output.deep_view() + one_keyword(
            member@,
            wire.deep_view(),
            pointer@,
            mechanism,
        ),
    decreases member.value, 2nat,
{
    let ghost start = output.deep_view();
    if annotates(&member.key) {
        assert(output.deep_view() =~= start + Seq::<ToolConstraintEnforcementView>::empty());
        return output;
    }
    let path = child(pointer, escape(member.key.as_str()).as_str());
    let at = value_at_key(wire, member.key.as_str());
    if names_schemas(&member.key) {
        match &member.value {
            Json::Object(children) => {
                proof {
                    lemma_object_view(*children);
                }
                let ghost viewed = children.deep_view();
                let mut out = output;
                let mut i: usize = 0;
                assert(viewed.take(0) =~= Seq::<MemberView>::empty());
                assert(out.deep_view() =~= start + Seq::<ToolConstraintEnforcementView>::empty());
                while i < children.len()
                    invariant
                        i <= children.len(),
                        member.value == Json::Object(*children),
                        viewed == children.deep_view(),
                        out.deep_view() =~= start + named_entries(
                            viewed.take(i as int),
                            at.deep_view(),
                            path@,
                            mechanism,
                        ),
                    decreases children.len() - i,
                {
                    assert(decreases_to!(member.value => member.value->Object_0));
                    assert(decreases_to!(*children => children@));
                    assert(decreases_to!(children@ => children@[i as int]));
                    assert(decreases_to!(children@[i as int] => children@[i as int].value));
                    assert(viewed.take(i + 1).drop_last() =~= viewed.take(i as int));
                    assert(viewed.take(i + 1).last() == children@[i as int]@);
                    let name = children[i].key.as_str();
                    let node = child(path.as_str(), escape(name).as_str());
                    out = collect_enforcement(
                        &children[i].value,
                        value_at_key(at, name),
                        node.as_str(),
                        mechanism,
                        out,
                    );
                    i = i + 1;
                }
                assert(viewed.take(i as int) =~= viewed);
                return out;
            },
            _ => {
                assert(output.deep_view() =~= start + Seq::<ToolConstraintEnforcementView>::empty());
                return output;
            },
        }
    }
    if lists_schemas(&member.key) {
        let mut out = output;
        assert(out.deep_view() =~= start + Seq::<ToolConstraintEnforcementView>::empty());
        if let Json::Array(children) = &member.value {
            proof {
                lemma_array_view(*children);
            }
            let ghost viewed = children.deep_view();
            let mut i: usize = 0;
            assert(viewed.take(0) =~= Seq::<JsonView>::empty());
            while i < children.len()
                invariant
                    i <= children.len(),
                    member.value == Json::Array(*children),
                    viewed == children.deep_view(),
                    out.deep_view() =~= start + listed_entries(
                        viewed.take(i as int),
                        at.deep_view(),
                        path@,
                        mechanism,
                    ),
                decreases children.len() - i,
            {
                assert(decreases_to!(member.value => member.value->Array_0));
                assert(decreases_to!(*children => children@));
                assert(decreases_to!(children@ => children@[i as int]));
                assert(viewed.take(i + 1).drop_last() =~= viewed.take(i as int));
                assert(viewed.take(i + 1).last() == children@[i as int]@);
                let node = child(path.as_str(), decimal(i as u64).as_str());
                out = collect_enforcement(
                    &children[i],
                    value_at_index(at, i),
                    node.as_str(),
                    mechanism,
                    out,
                );
                i = i + 1;
            }
            assert(viewed.take(i as int) =~= viewed);
        }
        let own = entry(&member.value, at, path, mechanism);
        let out = push_entry(out, own);
        assert(out.deep_view() =~= start + one_keyword(
            member@,
            wire.deep_view(),
            pointer@,
            mechanism,
        ));
        return out;
    }
    if is_schema_keyword(&member.key) {
        return collect_enforcement(&member.value, at, path.as_str(), mechanism, output);
    }
    push_entry(output, entry(&member.value, at, path, mechanism))
}

/// Every entry names the core, names text exactly where constraints are explained in text, and names
/// the provider only where arguments are sent unchanged.
pub open spec fn well_marked(
    entries: Seq<ToolConstraintEnforcementView>,
    mechanism: Mechanism,
) -> bool {
    forall|i: int|
        0 <= i < entries.len() ==> (#[trigger] entries[i]).core && entries[i].context_text
            == mechanism.text && (entries[i].provider_native ==> mechanism.identity)
}

/// The entries of a schema start with the one of its root. Every one of them is enforced by the
/// core; text explains them all or none, and the provider enforces none where arguments are changed
/// on the way.
pub proof fn law_entries_are_well_marked(
    canonical: JsonView,
    wire: Option<JsonView>,
    pointer: Seq<char>,
    mechanism: Mechanism,
)
    ensures
        schema_entries(canonical, wire, pointer, mechanism).len() > 0,
        schema_entries(canonical, wire, pointer, mechanism)[0] == node_entry(
            canonical,
            wire,
            pointer,
            mechanism,
        ),
        well_marked(schema_entries(canonical, wire, pointer, mechanism), mechanism),
    decreases canonical,
{
    if let JsonView::Object(members) = canonical {
        lemma_keywords_marked(members, wire, pointer, mechanism);
    }
}

proof fn lemma_keywords_marked(
    members: Seq<MemberView>,
    wire: Option<JsonView>,
    pointer: Seq<char>,
    mechanism: Mechanism,
)
    ensures
        well_marked(keyword_entries(members, wire, pointer, mechanism), mechanism),
    decreases members,
{
    if members.len() > 0 {
        lemma_keywords_marked(members.drop_last(), wire, pointer, mechanism);
        let key = members.last().key;
        let value = members.last().value;
        let path = child_pointer(pointer, escaped(key));
        let at = step_key(wire, key);
        if holds_named_schemas(key) {
            if let JsonView::Object(children) = value {
                lemma_named_marked(children, at, path, mechanism);
            }
        } else if holds_listed_schemas(key) {
            if let JsonView::Array(children) = value {
                lemma_listed_marked(children, at, path, mechanism);
            }
        } else if holds_schema(key) {
            law_entries_are_well_marked(value, at, path, mechanism);
        }
    }
}

proof fn lemma_named_marked(
    children: Seq<MemberView>,
    wire: Option<JsonView>,
    pointer: Seq<char>,
    mechanism: Mechanism,
)
    ensures
        well_marked(named_entries(children, wire, pointer, mechanism), mechanism),
    decreases children,
{
    if children.len() > 0 {
        lemma_named_marked(children.drop_last(), wire, pointer, mechanism);
        law_entries_are_well_marked(
            children.last().value,
            step_key(wire, children.last().key),
            child_pointer(pointer, escaped(children.last().key)),
            mechanism,
        );
    }
}

proof fn lemma_listed_marked(
    children: Seq<JsonView>,
    wire: Option<JsonView>,
    pointer: Seq<char>,
    mechanism: Mechanism,
)
    ensures
        well_marked(listed_entries(children, wire, pointer, mechanism), mechanism),
    decreases children,
{
    if children.len() > 0 {
        lemma_listed_marked(children.drop_last(), wire, pointer, mechanism);
        law_entries_are_well_marked(
            children.last(),
            step_index(wire, children.len() - 1),
            child_pointer(pointer, decimal_text((children.len() - 1) as nat)),
            mechanism,
        );
    }
}

/// The provider enforces every entry.
pub open spec fn all_native(entries: Seq<ToolConstraintEnforcementView>) -> bool {
    forall|i: int| 0 <= i < entries.len() ==> (#[trigger] entries[i]).provider_native
}

/// Where the wire schema is the canonical one and arguments are sent unchanged, the provider
/// enforces every constraint, provided that no object of the schema repeats a key.
pub proof fn law_unchanged_schemas_are_native(
    canonical: JsonView,
    pointer: Seq<char>,
    mechanism: Mechanism,
)
    requires
        mechanism.identity,
        unambiguous(canonical),
    ensures
        all_native(schema_entries(canonical, Some(canonical), pointer, mechanism)),
    decreases canonical, 0nat,
{
    if let JsonView::Object(members) = canonical {
        lemma_keywords_native(members, members.len(), pointer, mechanism);
        assert(members.take(members.len() as int) =~= members);
    }
}

proof fn lemma_keywords_native(
    all: Seq<MemberView>,
    n: nat,
    pointer: Seq<char>,
    mechanism: Mechanism,
)
    requires
        mechanism.identity,
        unambiguous(JsonView::Object(all)),
        n <= all.len(),
    ensures
        all_native(
            keyword_entries(
                all.take(n as int),
                Some(JsonView::Object(all)),
                pointer,
                mechanism,
            ),
        ),
    decreases all, n,
{
    if n > 0 {
        let front = (n - 1) as nat;
        lemma_keywords_native(all, front, pointer, mechanism);
        assert(all.take(n as int).drop_last() =~= all.take(front as int));
        let key = all[n - 1].key;
        let value = all[n - 1].value;
        let path = child_pointer(pointer, escaped(key));
        lemma_own_value(all, n - 1);
        assert(decreases_to!(all => all[n - 1]));
        assert(decreases_to!(all[n - 1] => all[n - 1].value));
        if holds_named_schemas(key) {
            if let JsonView::Object(children) = value {
                lemma_named_native(children, children.len(), path, mechanism);
                assert(children.take(children.len() as int) =~= children);
            }
        } else if holds_listed_schemas(key) {
            if let JsonView::Array(children) = value {
                lemma_listed_native(children, children.len(), path, mechanism);
                assert(children.take(children.len() as int) =~= children);
            }
        } else if holds_schema(key) {
            law_unchanged_schemas_are_native(value, path, mechanism);
        }
    }
}

proof fn lemma_named_native(
    all: Seq<MemberView>,
    n: nat,
    pointer: Seq<char>,
    mechanism: Mechanism,
)
    requires
        mechanism.identity,
        unambiguous(JsonView::Object(all)),
        n <= all.len(),
    ensures
        all_native(
            named_entries(
                all.take(n as int),
                Some(JsonView::Object(all)),
                pointer,
                mechanism,
            ),
        ),
    decreases all, n,
{
    if n > 0 {
        let front = (n - 1) as nat;
        lemma_named_native(all, front, pointer, mechanism);
        assert(all.take(n as int).drop_last() =~= all.take(front as int));
        lemma_own_value(all, n - 1);
        assert(decreases_to!(all => all[n - 1]));
        assert(decreases_to!(all[n - 1] => all[n - 1].value));
        law_unchanged_schemas_are_native(
            all[n - 1].value,
            child_pointer(pointer, escaped(all[n - 1].key)),
            mechanism,
        );
    }
}

proof fn lemma_listed_native(
    all: Seq<JsonView>,
    n: nat,
    pointer: Seq<char>,
    mechanism: Mechanism,
)
    requires
        mechanism.identity,
        unambiguous(JsonView::Array(all)),
        n <= all.len(),
    ensures
        all_native(
            listed_entries(all.take(n as int), Some(JsonView::Array(all)), pointer, mechanism),
        ),
    decreases all, n,
{
    if n > 0 {
        let front = (n - 1) as nat;
        lemma_listed_native(all, front, pointer, mechanism);
        assert(all.take(n as int).drop_last() =~= all.take(front as int));
        assert(decreases_to!(all => all[n - 1]));
        assert(unambiguous(all[n - 1]));
        law_unchanged_schemas_are_native(
            all[n - 1],
            child_pointer(pointer, decimal_text(front)),
            mechanism,
        );
    }
}

proof fn lemma_escaped_end(key: Seq<char>)
    ensures
        key.len() > 0 <==> escaped(key).len() > 0,
        escaped(key).len() > 0 ==> escaped(key).last() != '~',
{
}

/// Keys are escaped without loss: different keys stay different, and none holds the sign that parts
/// the steps of a pointer.
pub proof fn law_escaped_keys_stay_apart(a: Seq<char>, b: Seq<char>)
    ensures
        escaped(a) == escaped(b) ==> a == b,
        forall|i: int| 0 <= i < escaped(a).len() ==> #[trigger] escaped(a)[i] != '/',
    decreases a.len(),
{
    lemma_escaped_end(a);
    lemma_escaped_end(b);
    if a.len() > 0 {
        let front = escaped(a.drop_last());
        law_escaped_keys_stay_apart(a.drop_last(), b);
        assert forall|i: int| 0 <= i < escaped(a).len() implies #[trigger] escaped(a)[i] != '/' by {
            if i < front.len() {
                assert(escaped(a)[i] == front[i]);
            }
        }
        if b.len() > 0 && escaped(a) == escaped(b) {
            let other = escaped(b.drop_last());
            lemma_escaped_end(a.drop_last());
            lemma_escaped_end(b.drop_last());
            let all = escaped(a);
            let n = all.len() as int;
            let pa = a.last() == '~' || a.last() == '/';
            let pb = b.last() == '~' || b.last() == '/';
            if pa && pb {
                assert(all.last() == escaped(b).last());
                assert(a.last() == b.last());
                assert(front =~= all.take(n - 2));
                assert(other =~= all.take(n - 2));
            } else if !pa && !pb {
                assert(all.last() == a.last());
                assert(all.last() == b.last());
                assert(front =~= all.drop_last());
                assert(other =~= all.drop_last());
            } else if pa {
                assert(all[n - 2] == '~');
                assert(other =~= all.drop_last());
                assert(other.last() == '~');
            } else {
                assert(escaped(b)[n - 2] == '~');
                assert(front =~= all.drop_last());
                assert(front.last() == '~');
            }
            law_escaped_keys_stay_apart(a.drop_last(), b.drop_last());
            assert(a =~= a.drop_last().push(a.last()));
            assert(b =~= b.drop_last().push(b.last()));
        }
    } else if escaped(a) == escaped(b) {
        assert(a =~= b);
    }
}

/// Depth counts levels: a list or an object is one deeper than what it holds, and whatever fits a bound
/// fits a wider one.
pub proof fn law_depth_counts_levels(value: JsonView, key: Seq<char>, max: int)
    requires
        0 <= max,
    ensures
        within_depth(JsonView::Array(seq![value]), max) <==> max >= 1 && within_depth(
            value,
            max - 1,
        ),
        within_depth(
            JsonView::Object(seq![MemberView { key, value }]),
            max,
        ) <==> max >= 1 && within_depth(value, max - 1),
        !(value is Array) && !(value is Object) ==> within_depth(value, max),
        within_depth(value, max) ==> within_depth(value, max + 1),
{
    let items = seq![value];
    assert(items.drop_last() =~= Seq::empty());
    assert(items.last() == value);
    assert(items_within(items.drop_last(), max - 1));
    let members = seq![MemberView { key, value }];
    assert(members.drop_last() =~= Seq::empty());
    assert(members.last().value == value);
    assert(members_within(members.drop_last(), max - 1));
    if within_depth(value, max) {
        lemma_deeper(value, max);
    }
}

proof fn lemma_deeper(value: JsonView, max: int)
    requires
        within_depth(value, max),
    ensures
        within_depth(value, max + 1),
    decreases value,
{
    match value {
        JsonView::Array(items) => lemma_items_deeper(items, max - 1),
        JsonView::Object(members) => lemma_members_deeper(members, max - 1),
        _ => {},
    }
}

proof fn lemma_items_deeper(items: Seq<JsonView>, max: int)
    requires
        items_within(items, max),
    ensures
        items_within(items, max + 1),
    decreases items,
{
    if items.len() > 0 {
        lemma_items_deeper(items.drop_last(), max);
        lemma_deeper(items.last(), max);
    }
}

proof fn lemma_members_deeper(members: Seq<MemberView>, max: int)
    requires
        members_within(members, max),
    ensures
        members_within(members, max + 1),
    decreases members,
{
    if members.len() > 0 {
        lemma_members_deeper(members.drop_last(), max);
        lemma_deeper(members.last().value, max);
    }
}

/// Notes constrain nothing: an annotation adds no constraint to those of a schema.
pub proof fn law_annotations_constrain_nothing(
    members: Seq<MemberView>,
    note: MemberView,
    wire: Option<JsonView>,
    pointer: Seq<char>,
    mechanism: Mechanism,
)
    requires
        note.key == "title"@ || note.key == "description"@ || note.key == "default"@ || note.key == "examples"@ || note.key == "$comment"@ || note.key == "$schema"@ || note.key == "$id"@ || note.key == "deprecated"@ || note.key == "readOnly"@ || note.key == "writeOnly"@,
    ensures
        keyword_entries(members.push(note), wire, pointer, mechanism) == keyword_entries(
            members,
            wire,
            pointer,
            mechanism,
        ),
{
    assert(members.push(note).drop_last() =~= members);
    assert(members.push(note).last() == note);
}

/// All the constraints of a schema that a keyword holds are among those of the schema that the keyword
/// stands in.
pub proof fn law_nested_schemas_are_enforced(
    members: Seq<MemberView>,
    wire: Option<JsonView>,
    pointer: Seq<char>,
    mechanism: Mechanism,
    i: int,
    key: Seq<char>,
    k: int,
)
    requires
        0 <= i < members.len(),
        members[i].key == key,
        key == "items"@ || key == "additionalProperties"@ || key == "unevaluatedProperties"@ || key == "unevaluatedItems"@ || key == "contains"@ || key == "not"@ || key == "if"@ || key == "then"@ || key == "else"@ || key == "propertyNames"@,
        0 <= k < schema_entries(
            members[i].value,
            step_key(wire, key),
            child_pointer(pointer, escaped(key)),
            mechanism,
        ).len(),
    ensures
        schema_entries(JsonView::Object(members), wire, pointer, mechanism).contains(
            schema_entries(
                members[i].value,
                step_key(wire, key),
                child_pointer(pointer, escaped(key)),
                mechanism,
            )[k],
        ),
{
    let inner = schema_entries(
        members[i].value,
        step_key(wire, key),
        child_pointer(pointer, escaped(key)),
        mechanism,
    );
    lemma_keywords_apart();
    let one = seq![members[i]];
    assert(one.drop_last() =~= Seq::empty());
    assert(one.last() == members[i]);
    assert(keyword_entries(one.drop_last(), wire, pointer, mechanism) =~= Seq::empty());
    assert(holds_schema(key));
    assert(entries_at(members[i], wire, pointer, mechanism) =~= inner);
    assert(inner.contains(inner[k]));
    lemma_keyword_kept(members, wire, pointer, mechanism, i, inner[k]);
    let outer = schema_entries(JsonView::Object(members), wire, pointer, mechanism);
    let below = keyword_entries(members, wire, pointer, mechanism);
    let m = choose|m: int| 0 <= m < below.len() && below[m] == inner[k];
    assert(outer[m + 1] == inner[k]);
}

/// All the constraints of a schema under a name are among those of the schema that names it.
pub proof fn law_named_schemas_are_enforced(
    members: Seq<MemberView>,
    wire: Option<JsonView>,
    pointer: Seq<char>,
    mechanism: Mechanism,
    i: int,
    key: Seq<char>,
    children: Seq<MemberView>,
    k: int,
)
    requires
        0 <= i < members.len(),
        members[i].key == key,
        members[i].value == JsonView::Object(children),
        key == "properties"@ || key == "$defs"@ || key == "definitions"@ || key == "dependentSchemas"@ || key == "patternProperties"@,
        0 <= k < children.len(),
    ensures
        schema_entries(JsonView::Object(members), wire, pointer, mechanism).contains(
            node_entry(
                children[k].value,
                step_key(step_key(wire, key), children[k].key),
                child_pointer(child_pointer(pointer, escaped(key)), escaped(children[k].key)),
                mechanism,
            ),
        ),
{
    let wanted = node_entry(
        children[k].value,
        step_key(step_key(wire, key), children[k].key),
        child_pointer(child_pointer(pointer, escaped(key)), escaped(children[k].key)),
        mechanism,
    );
    lemma_keywords_apart();
    lemma_named_kept(
        children,
        step_key(wire, key),
        child_pointer(pointer, escaped(key)),
        mechanism,
        k,
    );
    let one = seq![members[i]];
    assert(one.drop_last() =~= Seq::empty());
    assert(one.last() == members[i]);
    assert(keyword_entries(one.drop_last(), wire, pointer, mechanism) =~= Seq::empty());
    assert(holds_named_schemas(key));
    assert(entries_at(members[i], wire, pointer, mechanism) =~= named_entries(
        children,
        step_key(wire, key),
        child_pointer(pointer, escaped(key)),
        mechanism,
    ));
    lemma_keyword_kept(members, wire, pointer, mechanism, i, wanted);
    let outer = schema_entries(JsonView::Object(members), wire, pointer, mechanism);
    let below = keyword_entries(members, wire, pointer, mechanism);
    let m = choose|m: int| 0 <= m < below.len() && below[m] == wanted;
    assert(outer[m + 1] == wanted);
}

/// The entries that one keyword adds.
pub open spec fn entries_at(
    member: MemberView,
    wire: Option<JsonView>,
    pointer: Seq<char>,
    mechanism: Mechanism,
) -> Seq<ToolConstraintEnforcementView> {
    keyword_entries(seq![member], wire, pointer, mechanism)
}

proof fn lemma_keyword_kept(
    members: Seq<MemberView>,
    wire: Option<JsonView>,
    pointer: Seq<char>,
    mechanism: Mechanism,
    i: int,
    wanted: ToolConstraintEnforcementView,
)
    requires
        0 <= i < members.len(),
        entries_at(members[i], wire, pointer, mechanism).contains(wanted),
    ensures
        keyword_entries(members, wire, pointer, mechanism).contains(wanted),
    decreases members.len(),
{
    let all = keyword_entries(members, wire, pointer, mechanism);
    let front = keyword_entries(members.drop_last(), wire, pointer, mechanism);
    if i < members.len() - 1 {
        assert(members.drop_last()[i] == members[i]);
        lemma_keyword_kept(members.drop_last(), wire, pointer, mechanism, i, wanted);
        let m = choose|m: int| 0 <= m < front.len() && front[m] == wanted;
        assert(all[m] == wanted);
    } else {
        let one = seq![members[i]];
        let own = entries_at(members[i], wire, pointer, mechanism);
        assert(one.drop_last() =~= Seq::empty());
        assert(one.last() == members[i]);
        assert(keyword_entries(one.drop_last(), wire, pointer, mechanism) =~= Seq::empty());
        let m = choose|m: int| 0 <= m < own.len() && own[m] == wanted;
        assert(all =~= front + own);
        assert(all[front.len() + m] == wanted);
    }
}

proof fn lemma_named_kept(
    children: Seq<MemberView>,
    wire: Option<JsonView>,
    pointer: Seq<char>,
    mechanism: Mechanism,
    k: int,
)
    requires
        0 <= k < children.len(),
    ensures
        named_entries(children, wire, pointer, mechanism).contains(
            node_entry(
                children[k].value,
                step_key(wire, children[k].key),
                child_pointer(pointer, escaped(children[k].key)),
                mechanism,
            ),
        ),
    decreases children.len(),
{
    let wanted = node_entry(
        children[k].value,
        step_key(wire, children[k].key),
        child_pointer(pointer, escaped(children[k].key)),
        mechanism,
    );
    let all = named_entries(children, wire, pointer, mechanism);
    let front = named_entries(children.drop_last(), wire, pointer, mechanism);
    if k < children.len() - 1 {
        assert(children.drop_last()[k] == children[k]);
        lemma_named_kept(children.drop_last(), wire, pointer, mechanism, k);
        let m = choose|m: int| 0 <= m < front.len() && front[m] == wanted;
        assert(all[m] == wanted);
    } else {
        let own = schema_entries(
            children[k].value,
            step_key(wire, children[k].key),
            child_pointer(pointer, escaped(children[k].key)),
            mechanism,
        );
        law_entries_are_well_marked(
            children[k].value,
            step_key(wire, children[k].key),
            child_pointer(pointer, escaped(children[k].key)),
            mechanism,
        );
        assert(all =~= front + own);
        assert(all[front.len() as int] == own[0]);
    }
}

proof fn lemma_keywords_apart()
    ensures
        forall|key: Seq<char>| #[trigger] holds_schema(key) ==> !is_annotation(key)
            && !holds_named_schemas(key) && !holds_listed_schemas(key),
        forall|key: Seq<char>| #[trigger] holds_named_schemas(key) ==> !is_annotation(key),
{
    reveal_strlit("title");
    reveal_strlit("description");
    reveal_strlit("default");
    reveal_strlit("examples");
    reveal_strlit("$comment");
    reveal_strlit("$schema");
    reveal_strlit("$id");
    reveal_strlit("deprecated");
    reveal_strlit("readOnly");
    reveal_strlit("writeOnly");
    reveal_strlit("properties");
    reveal_strlit("$defs");
    reveal_strlit("definitions");
    reveal_strlit("dependentSchemas");
    reveal_strlit("patternProperties");
    reveal_strlit("allOf");
    reveal_strlit("anyOf");
    reveal_strlit("oneOf");
    reveal_strlit("prefixItems");
    reveal_strlit("items");
    reveal_strlit("additionalProperties");
    reveal_strlit("unevaluatedProperties");
    reveal_strlit("unevaluatedItems");
    reveal_strlit("contains");
    reveal_strlit("not");
    reveal_strlit("if");
    reveal_strlit("then");
    reveal_strlit("else");
    reveal_strlit("propertyNames");
    assert("title"@.len() == 5 && "title"@[0] == 't' && "title"@[1] == 'i');
    assert("description"@.len() == 11 && "description"@[0] == 'd' && "description"@[1] == 'e');
    assert("default"@.len() == 7 && "default"@[0] == 'd' && "default"@[1] == 'e');
    assert("examples"@.len() == 8 && "examples"@[0] == 'e' && "examples"@[1] == 'x');
    assert("$comment"@.len() == 8 && "$comment"@[0] == '$' && "$comment"@[1] == 'c');
    assert("$schema"@.len() == 7 && "$schema"@[0] == '$' && "$schema"@[1] == 's');
    assert("$id"@.len() == 3 && "$id"@[0] == '$' && "$id"@[1] == 'i');
    assert("deprecated"@.len() == 10 && "deprecated"@[0] == 'd' && "deprecated"@[1] == 'e');
    assert("readOnly"@.len() == 8 && "readOnly"@[0] == 'r' && "readOnly"@[1] == 'e');
    assert("writeOnly"@.len() == 9 && "writeOnly"@[0] == 'w' && "writeOnly"@[1] == 'r');
    assert("properties"@.len() == 10 && "properties"@[0] == 'p' && "properties"@[1] == 'r');
    assert("$defs"@.len() == 5 && "$defs"@[0] == '$' && "$defs"@[1] == 'd');
    assert("definitions"@.len() == 11 && "definitions"@[0] == 'd' && "definitions"@[1] == 'e');
    assert("dependentSchemas"@.len() == 16 && "dependentSchemas"@[0] == 'd' && "dependentSchemas"@[1] == 'e');
    assert("patternProperties"@.len() == 17 && "patternProperties"@[0] == 'p' && "patternProperties"@[1] == 'a');
    assert("allOf"@.len() == 5 && "allOf"@[0] == 'a' && "allOf"@[1] == 'l');
    assert("anyOf"@.len() == 5 && "anyOf"@[0] == 'a' && "anyOf"@[1] == 'n');
    assert("oneOf"@.len() == 5 && "oneOf"@[0] == 'o' && "oneOf"@[1] == 'n');
    assert("prefixItems"@.len() == 11 && "prefixItems"@[0] == 'p' && "prefixItems"@[1] == 'r');
    assert("items"@.len() == 5 && "items"@[0] == 'i' && "items"@[1] == 't');
    assert("additionalProperties"@.len() == 20 && "additionalProperties"@[0] == 'a' && "additionalProperties"@[1] == 'd');
    assert("unevaluatedProperties"@.len() == 21 && "unevaluatedProperties"@[0] == 'u' && "unevaluatedProperties"@[1] == 'n');
    assert("unevaluatedItems"@.len() == 16 && "unevaluatedItems"@[0] == 'u' && "unevaluatedItems"@[1] == 'n');
    assert("contains"@.len() == 8 && "contains"@[0] == 'c' && "contains"@[1] == 'o');
    assert("not"@.len() == 3 && "not"@[0] == 'n' && "not"@[1] == 'o');
    assert("if"@.len() == 2 && "if"@[0] == 'i' && "if"@[1] == 'f');
    assert("then"@.len() == 4 && "then"@[0] == 't' && "then"@[1] == 'h');
    assert("else"@.len() == 4 && "else"@[0] == 'e' && "else"@[1] == 'l');
    assert("propertyNames"@.len() == 13 && "propertyNames"@[0] == 'p' && "propertyNames"@[1] == 'r');
    assert("description"@[2] == 's' && "definitions"@[2] == 'f');
    assert forall|key: Seq<char>| #[trigger] holds_schema(key) implies !is_annotation(key)
        && !holds_named_schemas(key) && !holds_listed_schemas(key) by {}
    assert forall|key: Seq<char>| #[trigger] holds_named_schemas(key) implies !is_annotation(
        key,
    ) by {}
}

} // verus!
