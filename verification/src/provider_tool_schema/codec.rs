//! The reversible codec between canonical arguments and their provider representation.
use crate::data::{any, find, Data};
#[allow(unused_imports)]
use crate::data::{
    first_fault, first_in, lemma_first_fault, lemma_first_in, lemma_first_index_fault, some_in,
};
use crate::error::ContractError;
#[allow(unused_imports)]
use crate::error::{failure, Fault};
use crate::json::{array, member_value, object, put_member, Json, Member};
#[allow(unused_imports)]
use crate::json::{
    in_order, keys_ascend, lemma_absent_key, lemma_array_view, lemma_object_view, lemma_put_ascends,
    lemma_put_value, lemma_value_of_push, put, value_of, with_key, JsonView, MemberView,
};
#[allow(unused_imports)]
use crate::prompt::CompiledToolView;
use crate::provider_tool_schema::arguments::{arguments, checked_arguments, checked_value};
#[allow(unused_imports)]
use crate::provider_tool_schema::arguments::{
    comparable, law_integers_can_be_compared, lemma_numbers_kept, provider_arguments_fault,
    provider_text_fault, unreadable,
};
use crate::provider_tool_schema::{
    check_limits, ArgumentDecodePlan, ArgumentFieldMapping, ArgumentValueEncoding,
    CompiledToolContract, ProviderToolSchemaLimits,
};
#[allow(unused_imports)]
use crate::provider_tool_schema::{
    build_fault, codec_fault, from_wire, limits_fault, mapping_fault, properties_of, to_canonical,
    ArgumentDecodePlanView, ArgumentFieldMappingView, ArgumentValueEncodingView,
    ProviderToolProjectionView, ProviderToolSchemaLimitsView, ProviderToolTargetView,
};
use crate::reader::{JsonText, Reading};
#[allow(unused_imports)]
use crate::reader::{
    lemma_texts_fit, read_text, readable, reading_of, text_of_value, texts_fit, JsonTextView,
    ReadingView, MAX_DEPTH,
};
#[allow(unused_imports)]
use crate::refs::VersionedRefView;
use crate::serialization::canonical_json;
#[allow(unused_imports)]
use crate::serialization::{canonical_text, lemma_in_order_is_unambiguous};
#[allow(unused_imports)]
use crate::text::{is_whole, lemma_precedes_total, lemma_precedes_transitive, precedes};
use vstd::prelude::*;
#[allow(unused_imports)]
use vstd::utf8::encode_utf8;

verus! {

/// An optional value as a list of at most one item.
pub open spec fn boxed(value: Option<JsonView>) -> JsonView {
    match value {
        Some(value) => JsonView::Array(seq![value]),
        None => JsonView::Array(Seq::empty()),
    }
}

/// The envelope that tells a supplied value from an omitted one.
pub open spec fn envelope(
    present_key: Seq<char>,
    value_key: Seq<char>,
    value: Option<JsonView>,
) -> Seq<MemberView> {
    put(
        put(
            Seq::empty(),
            MemberView { key: present_key, value: JsonView::Bool(value is Some) },
        ),
        MemberView {
            key: value_key,
            value: match value {
                Some(value) => value,
                None => JsonView::Null,
            },
        },
    )
}

/// What stands on the wire for a canonical value.
pub open spec fn encoded_value(
    encoding: ArgumentValueEncodingView,
    value: Option<JsonView>,
) -> Option<JsonView> {
    match encoding {
        ArgumentValueEncodingView::Identity => value,
        ArgumentValueEncodingView::JsonText { optional } => if optional {
            Some(JsonView::Text(canonical_text(boxed(value))))
        } else {
            match value {
                Some(value) => Some(JsonView::Text(canonical_text(value))),
                None => None,
            }
        },
        ArgumentValueEncodingView::Presence { present_key, value_key } => Some(
            JsonView::Object(envelope(present_key, value_key, value)),
        ),
    }
}

/// The wire members of canonical arguments, mapping by mapping.
pub open spec fn wire_members(
    fields: Seq<ArgumentFieldMappingView>,
    input: Seq<MemberView>,
) -> Seq<MemberView>
    decreases fields.len(),
{
    if fields.len() == 0 {
        Seq::empty()
    } else {
        let front = wire_members(fields.drop_last(), input);
        let field = fields.last();
        match encoded_value(field.encoding, value_of(input, field.canonical_name)) {
            Some(value) => put(front, MemberView { key: field.wire_name, value }),
            None => front,
        }
    }
}

/// The members that no mapping takes.
pub open spec fn unmapped(fields: Seq<ArgumentFieldMappingView>) -> spec_fn(MemberView) -> bool {
    |member: MemberView| !some_in(fields, to_canonical(member.key))
}

/// Why arguments cannot be encoded.
pub open spec fn encode_fault(
    plan: ArgumentDecodePlanView,
    input: Seq<MemberView>,
) -> Option<Fault> {
    match plan {
        ArgumentDecodePlanView::Fields { fields } => if some_in(input, unmapped(fields)) {
            unreadable()
        } else {
            None
        },
        _ => None,
    }
}

/// The provider representation of canonical arguments.
pub open spec fn encoded_arguments(
    plan: ArgumentDecodePlanView,
    input: Seq<MemberView>,
) -> Seq<MemberView> {
    match plan {
        ArgumentDecodePlanView::Identity => input,
        ArgumentDecodePlanView::JsonObjectText { wire_name } => seq![
            MemberView {
                key: wire_name,
                value: JsonView::Text(canonical_text(JsonView::Object(input))),
            },
        ],
        ArgumentDecodePlanView::Fields { fields } => wire_members(fields, input),
    }
}

/// The readings of a text.
pub open spec fn with_text(text: Seq<char>) -> spec_fn(JsonTextView) -> bool {
    |reading: JsonTextView| reading.text == text
}

/// Why the readings at hand do not give a value for a text.
pub open spec fn nested_fault(
    nested: Seq<JsonTextView>,
    text: Seq<char>,
    max: usize,
) -> Option<Fault> {
    match first_in(nested, with_text(text)) {
        Some(reading) => provider_text_fault(reading, max),
        None => unreadable(),
    }
}

/// The value that a text reads as.
pub open spec fn nested_value(nested: Seq<JsonTextView>, text: Seq<char>) -> JsonView {
    match first_in(nested, with_text(text)) {
        Some(JsonTextView { text: _, reading: ReadingView::Document { value, written: _ } }) => {
            value
        },
        _ => JsonView::Null,
    }
}

/// Why a wire value cannot be restored.
pub open spec fn value_fault(
    encoding: ArgumentValueEncodingView,
    value: JsonView,
    nested: Seq<JsonTextView>,
    max: usize,
) -> Option<Fault> {
    match encoding {
        ArgumentValueEncodingView::Identity => None,
        ArgumentValueEncodingView::JsonText { optional } => match value {
            JsonView::Text(text) => if nested_fault(nested, text, max) is Some {
                nested_fault(nested, text, max)
            } else if optional && !(nested_value(nested, text) matches JsonView::Array(items)
                && items.len() <= 1) {
                unreadable()
            } else {
                None
            },
            _ => unreadable(),
        },
        ArgumentValueEncodingView::Presence { present_key, value_key } => match value {
            JsonView::Object(envelope) => {
                let present = value_of(envelope, present_key);
                let held = value_of(envelope, value_key);
                if envelope.len() == 2 && ((present == Some(JsonView::Bool(false)) && held == Some(
                    JsonView::Null,
                )) || (present == Some(JsonView::Bool(true)) && held is Some)) {
                    None
                } else {
                    unreadable()
                }
            },
            _ => unreadable(),
        },
    }
}

/// The canonical value of a wire value.
pub open spec fn restored_value(
    encoding: ArgumentValueEncodingView,
    value: JsonView,
    nested: Seq<JsonTextView>,
) -> Option<JsonView> {
    match encoding {
        ArgumentValueEncodingView::Identity => Some(value),
        ArgumentValueEncodingView::JsonText { optional } => match value {
            JsonView::Text(text) => if optional {
                match nested_value(nested, text) {
                    JsonView::Array(items) => if items.len() == 1 {
                        Some(items[0])
                    } else {
                        None
                    },
                    _ => None,
                }
            } else {
                Some(nested_value(nested, text))
            },
            _ => None,
        },
        ArgumentValueEncodingView::Presence { present_key, value_key } => match value {
            JsonView::Object(envelope) => if value_of(envelope, present_key) == Some(
                JsonView::Bool(true),
            ) {
                value_of(envelope, value_key)
            } else {
                None
            },
            _ => None,
        },
    }
}

/// Why a wire member cannot be restored.
pub open spec fn wire_member_fault(
    fields: Seq<ArgumentFieldMappingView>,
    nested: Seq<JsonTextView>,
    max: usize,
) -> spec_fn(MemberView) -> Option<Fault> {
    |member: MemberView|
        match first_in(fields, from_wire(member.key)) {
            Some(field) => value_fault(field.encoding, member.value, nested, max),
            None => unreadable(),
        }
}

/// The canonical members of wire members, one after another.
pub open spec fn canonical_members(
    fields: Seq<ArgumentFieldMappingView>,
    wire: Seq<MemberView>,
    nested: Seq<JsonTextView>,
) -> Seq<MemberView>
    decreases wire.len(),
{
    if wire.len() == 0 {
        Seq::empty()
    } else {
        let front = canonical_members(fields, wire.drop_last(), nested);
        let member = wire.last();
        match first_in(fields, from_wire(member.key)) {
            Some(field) => match restored_value(field.encoding, member.value, nested) {
                Some(value) => put(front, MemberView { key: field.canonical_name, value }),
                None => front,
            },
            None => front,
        }
    }
}

/// Why provider arguments cannot be decoded.
pub open spec fn decode_fault(
    plan: ArgumentDecodePlanView,
    raw: JsonTextView,
    nested: Seq<JsonTextView>,
    limits: ProviderToolSchemaLimitsView,
) -> Option<Fault> {
    let max = limits.max_argument_bytes;
    if limits_fault(limits) is Some {
        limits_fault(limits)
    } else if provider_arguments_fault(raw, max) is Some {
        provider_arguments_fault(raw, max)
    } else {
        let members = raw.reading->value->Object_0;
        match plan {
            ArgumentDecodePlanView::Identity => None,
            ArgumentDecodePlanView::JsonObjectText { wire_name } => match value_of(
                members,
                wire_name,
            ) {
                Some(JsonView::Text(text)) => if members.len() != 1 {
                    unreadable()
                } else {
                    match first_in(nested, with_text(text)) {
                        Some(reading) => provider_arguments_fault(reading, max),
                        None => unreadable(),
                    }
                },
                _ => unreadable(),
            },
            ArgumentDecodePlanView::Fields { fields } => first_fault(
                members,
                wire_member_fault(fields, nested, max),
            ),
        }
    }
}

/// The canonical arguments of provider arguments.
pub open spec fn decoded_arguments(
    plan: ArgumentDecodePlanView,
    members: Seq<MemberView>,
    nested: Seq<JsonTextView>,
) -> Seq<MemberView> {
    match plan {
        ArgumentDecodePlanView::Identity => members,
        ArgumentDecodePlanView::JsonObjectText { wire_name } => match value_of(members, wire_name) {
            Some(JsonView::Text(text)) => nested_value(nested, text)->Object_0,
            _ => Seq::empty(),
        },
        ArgumentDecodePlanView::Fields { fields } => canonical_members(fields, members, nested),
    }
}

/// The texts inside wire members that have to be read before the members can be decoded.
pub open spec fn texts_within(
    plan: ArgumentDecodePlanView,
    members: Seq<MemberView>,
) -> Seq<Seq<char>>
    decreases members.len(),
{
    if members.len() == 0 {
        Seq::empty()
    } else {
        let front = texts_within(plan, members.drop_last());
        match members.last().value {
            JsonView::Text(text) => if holds_text(plan, members.last().key) {
                front.push(text)
            } else {
                front
            },
            _ => front,
        }
    }
}

/// A wire property carries JSON text.
pub open spec fn holds_text(plan: ArgumentDecodePlanView, key: Seq<char>) -> bool {
    match plan {
        ArgumentDecodePlanView::Identity => false,
        ArgumentDecodePlanView::JsonObjectText { wire_name } => key == wire_name,
        ArgumentDecodePlanView::Fields { fields } => first_in(fields, from_wire(key)) matches Some(
            field,
        ) && field.encoding is JsonText,
    }
}

fn find_wire<'a>(fields: &'a Vec<ArgumentFieldMapping>, name: &String) -> (r: Option<
    &'a ArgumentFieldMapping,
>)
    ensures
        r.deep_view() == first_in(fields.deep_view(), from_wire(name@)),
{
    let named = |field: &ArgumentFieldMapping| -> (b: bool)
        ensures
            b == from_wire(name@)(field@),
    { field.wire_name.same(name) };
    find(fields, named, Ghost(from_wire(name@)))
}

fn find_text<'a>(nested: &'a Vec<JsonText>, text: &String) -> (r: Option<&'a JsonText>)
    ensures
        r.deep_view() == first_in(nested.deep_view(), with_text(text@)),
{
    let same = |reading: &JsonText| -> (b: bool)
        ensures
            b == with_text(text@)(reading@),
    { reading.text.same(text) };
    find(nested, same, Ghost(with_text(text@)))
}

fn encode_value(encoding: &ArgumentValueEncoding, value: Option<&Json>) -> (r: Option<Json>)
    ensures
        r.deep_view() == encoded_value(encoding@, value.deep_view()),
{
    match encoding {
        ArgumentValueEncoding::Identity => match value {
            Some(value) => Some(value.copy()),
            None => None,
        },
        ArgumentValueEncoding::JsonText { optional } => {
            if *optional {
                let mut items: Vec<Json> = Vec::new();
                let ghost none = items.deep_view();
                assert(none =~= Seq::<JsonView>::empty());
                if let Some(value) = value {
                    items.push(value.copy());
                    assert(items.deep_view() =~= seq![value@]);
                }
                let list = array(items);
                Some(Json::Text(canonical_json(&list)))
            } else {
                match value {
                    Some(value) => Some(Json::Text(canonical_json(value))),
                    None => None,
                }
            }
        },
        ArgumentValueEncoding::Presence { present_key, value_key } => {
            let none: Vec<Member> = Vec::new();
            assert(none.deep_view() =~= Seq::<MemberView>::empty());
            let marked = put_member(
                none,
                Member { key: present_key.copy(), value: Json::Bool(value.is_some()) },
            );
            let held = match value {
                Some(value) => value.copy(),
                None => Json::Null,
            };
            Some(object(put_member(marked, Member { key: value_key.copy(), value: held })))
        },
    }
}

fn encode_fields(fields: &Vec<ArgumentFieldMapping>, input: &Vec<Member>) -> (r: Vec<Member>)
    ensures
        r.deep_view() == wire_members(fields.deep_view(), input.deep_view()),
{
    let ghost s = fields.deep_view();
    let mut out: Vec<Member> = Vec::new();
    assert(out.deep_view() =~= Seq::<MemberView>::empty());
    assert(s.take(0) =~= Seq::<ArgumentFieldMappingView>::empty());
    let mut i: usize = 0;
    while i < fields.len()
        invariant
            i <= fields.len(),
            s == fields.deep_view(),
            out.deep_view() == wire_members(s.take(i as int), input.deep_view()),
        decreases fields.len() - i,
    {
        let field = &fields[i];
        assert(s.take(i + 1).drop_last() =~= s.take(i as int));
        assert(s.take(i + 1).last() == field@);
        if let Some(value) = encode_value(
            &field.encoding,
            member_value(input, field.canonical_name.as_str()),
        ) {
            out = put_member(out, Member { key: field.wire_name.copy(), value });
        }
        i = i + 1;
    }
    assert(s.take(i as int) =~= s);
    out
}

fn restore_value(
    encoding: &ArgumentValueEncoding,
    value: &Json,
    nested: &Vec<JsonText>,
    max: usize,
) -> (r: Result<Option<Json>, ContractError>)
    ensures
        failure(r) == value_fault(encoding@, value@, nested.deep_view(), max),
        r matches Ok(restored) ==> restored.deep_view() == restored_value(
            encoding@,
            value@,
            nested.deep_view(),
        ),
{
    match encoding {
        ArgumentValueEncoding::Identity => Ok(Some(value.copy())),
        ArgumentValueEncoding::JsonText { optional } => {
            let text = match value {
                Json::Text(text) => text,
                _ => {
                    return arguments();
                },
            };
            let reading = match find_text(nested, text) {
                Some(reading) => reading,
                None => {
                    return arguments();
                },
            };
            let parsed = checked_value(reading, max)?;
            if !*optional {
                return Ok(Some(parsed.copy()));
            }
            match parsed {
                Json::Array(items) => {
                    proof {
                        lemma_array_view(*items);
                    }
                    assert(items.deep_view().len() == items.len());
                    if items.len() == 0 {
                        Ok(None)
                    } else if items.len() == 1 {
                        Ok(Some(items[0].copy()))
                    } else {
                        arguments()
                    }
                },
                _ => arguments(),
            }
        },
        ArgumentValueEncoding::Presence { present_key, value_key } => {
            let members = match value {
                Json::Object(members) => members,
                _ => {
                    return arguments();
                },
            };
            proof {
                lemma_object_view(*members);
            }
            assert(members.deep_view().len() == members.len());
            let held = member_value(members, value_key.as_str());
            match member_value(members, present_key.as_str()) {
                Some(Json::Bool(present)) => {
                    if members.len() != 2 {
                        return arguments();
                    }
                    match held {
                        Some(held) => {
                            if *present {
                                Ok(Some(held.copy()))
                            } else if held.same(&Json::Null) {
                                Ok(None)
                            } else {
                                arguments()
                            }
                        },
                        None => arguments(),
                    }
                },
                _ => arguments(),
            }
        },
    }
}

/// A fault in a prefix is the fault of the whole.
proof fn lemma_prefix_fault(
    s: Seq<MemberView>,
    i: int,
    f: spec_fn(MemberView) -> Option<Fault>,
)
    requires
        0 <= i < s.len(),
        first_fault(s.take(i), f) is None,
        f(s[i]) is Some,
    ensures
        first_fault(s, f) == f(s[i]),
    decreases i,
{
    if i > 0 {
        assert(s.take(i)[0] == s[0]);
        assert(s.take(i).skip(1) =~= s.skip(1).take(i - 1));
        assert(s.skip(1)[i - 1] == s[i]);
        lemma_prefix_fault(s.skip(1), i - 1, f);
    }
}

fn decode_fields(
    fields: &Vec<ArgumentFieldMapping>,
    wire: &Vec<Member>,
    nested: &Vec<JsonText>,
    max: usize,
) -> (r: Result<Vec<Member>, ContractError>)
    ensures
        failure(r) == first_fault(
            wire.deep_view(),
            wire_member_fault(fields.deep_view(), nested.deep_view(), max),
        ),
        r matches Ok(out) ==> out.deep_view() == canonical_members(
            fields.deep_view(),
            wire.deep_view(),
            nested.deep_view(),
        ),
{
    let ghost s = wire.deep_view();
    let ghost f = wire_member_fault(fields.deep_view(), nested.deep_view(), max);
    let mut out: Vec<Member> = Vec::new();
    assert(out.deep_view() =~= Seq::<MemberView>::empty());
    assert(s.take(0) =~= Seq::<MemberView>::empty());
    let mut i: usize = 0;
    while i < wire.len()
        invariant
            i <= wire.len(),
            s == wire.deep_view(),
            f == wire_member_fault(fields.deep_view(), nested.deep_view(), max),
            first_fault(s.take(i as int), f) is None,
            out.deep_view() == canonical_members(
                fields.deep_view(),
                s.take(i as int),
                nested.deep_view(),
            ),
        decreases wire.len() - i,
    {
        let member = &wire[i];
        assert(s.take(i + 1).drop_last() =~= s.take(i as int));
        assert(s.take(i + 1).last() == member@);
        assert(s[i as int] == member@);
        let field = match find_wire(fields, &member.key) {
            Some(field) => field,
            None => {
                proof {
                    lemma_prefix_fault(s, i as int, f);
                }
                return arguments();
            },
        };
        let restored = match restore_value(&field.encoding, &member.value, nested, max) {
            Ok(restored) => restored,
            Err(error) => {
                proof {
                    assert(f(member@) == Some(error@));
                    lemma_prefix_fault(s, i as int, f);
                }
                return Err(error);
            },
        };
        proof {
            assert(f(member@) is None);
            lemma_first_fault(s.take(i as int), f);
            assert forall|j: int| 0 <= j < s.take(i + 1).len() implies f(
                #[trigger] s.take(i + 1)[j],
            ) is None by {
                if j < i {
                    assert(s.take(i as int)[j] == s.take(i + 1)[j]);
                }
            }
            lemma_first_fault(s.take(i + 1), f);
        }
        if let Some(value) = restored {
            out = put_member(out, Member { key: field.canonical_name.copy(), value });
        }
        i = i + 1;
    }
    assert(s.take(i as int) =~= s);
    Ok(out)
}

impl CompiledToolContract {
    /// Encode canonical historical model arguments for this exact provider representation. System
    /// inputs never belong in these members, which stand in the order of their keys.
    pub fn encode_arguments(&self, input: &Vec<Member>) -> (r: Result<Vec<Member>, ContractError>)
        ensures
            failure(r) == encode_fault(self@.data.decode_plan, input.deep_view()),
            r matches Ok(wire) ==> wire.deep_view() == encoded_arguments(
                self@.data.decode_plan,
                input.deep_view(),
            ),
    {
        match self.decode_plan() {
            ArgumentDecodePlan::Identity => Ok(input.copy()),
            ArgumentDecodePlan::JsonObjectText { wire_name } => {
                let whole = object(input.copy());
                let mut out: Vec<Member> = Vec::new();
                out.push(
                    Member { key: wire_name.copy(), value: Json::Text(canonical_json(&whole)) },
                );
                assert(out.deep_view() =~= encoded_arguments(
                    self@.data.decode_plan,
                    input.deep_view(),
                ));
                Ok(out)
            },
            ArgumentDecodePlan::Fields { fields } => {
                let unknown = |member: &Member| -> (b: bool)
                    ensures
                        b == unmapped(fields.deep_view())(member@),
                {
                    let named = |field: &ArgumentFieldMapping| -> (c: bool)
                        ensures
                            c == to_canonical(member@.key)(field@),
                    { field.canonical_name.same(&member.key) };
                    !any(fields, named, Ghost(to_canonical(member@.key)))
                };
                if any(input, unknown, Ghost(unmapped(fields.deep_view()))) {
                    return arguments();
                }
                Ok(encode_fields(fields, input))
            },
        }
    }

    /// The texts inside provider arguments that hold JSON of their own.
    pub fn nested_texts(&self, wire: &Vec<Member>) -> (r: Vec<String>)
        ensures
            r.deep_view() == texts_within(self@.data.decode_plan, wire.deep_view()),
    {
        let ghost s = wire.deep_view();
        let ghost plan = self@.data.decode_plan;
        let mut out: Vec<String> = Vec::new();
        assert(out.deep_view() =~= Seq::<Seq<char>>::empty());
        assert(s.take(0) =~= Seq::<MemberView>::empty());
        let mut i: usize = 0;
        while i < wire.len()
            invariant
                i <= wire.len(),
                s == wire.deep_view(),
                plan == self@.data.decode_plan,
                out.deep_view() == texts_within(plan, s.take(i as int)),
            decreases wire.len() - i,
        {
            let member = &wire[i];
            assert(s.take(i + 1).drop_last() =~= s.take(i as int));
            assert(s.take(i + 1).last() == member@);
            let carries = match self.decode_plan() {
                ArgumentDecodePlan::Identity => false,
                ArgumentDecodePlan::JsonObjectText { wire_name } => wire_name.same(&member.key),
                ArgumentDecodePlan::Fields { fields } => match find_wire(fields, &member.key) {
                    Some(field) => match &field.encoding {
                        ArgumentValueEncoding::JsonText { .. } => true,
                        _ => false,
                    },
                    None => false,
                },
            };
            if carries {
                if let Json::Text(text) = &member.value {
                    let ghost before = out.deep_view();
                    out.push(text.copy());
                    assert(out.deep_view() =~= before.push(text@));
                }
            }
            i = i + 1;
        }
        assert(s.take(i as int) =~= s);
        out
    }

    /// Restore model-owned names and values from what the arguments read as. `nested` holds what
    /// each of the texts inside the arguments reads as.
    pub fn decode_readings(
        &self,
        raw: &JsonText,
        nested: &Vec<JsonText>,
        limits: &ProviderToolSchemaLimits,
    ) -> (r: Result<Vec<Member>, ContractError>)
        ensures
            failure(r) == decode_fault(
                self@.data.decode_plan,
                raw@,
                nested.deep_view(),
                limits@,
            ),
            r matches Ok(members) ==> raw@.reading is Document && raw@.reading->value is Object
                && members.deep_view() == decoded_arguments(
                self@.data.decode_plan,
                raw@.reading->value->Object_0,
                nested.deep_view(),
            ),
    {
        check_limits(limits)?;
        let wire = checked_arguments(raw, limits.max_argument_bytes)?;
        assert(wire.deep_view().len() == wire.len());
        match self.decode_plan() {
            ArgumentDecodePlan::Identity => Ok(wire),
            ArgumentDecodePlan::JsonObjectText { wire_name } => {
                if wire.len() != 1 {
                    return arguments();
                }
                match member_value(&wire, wire_name.as_str()) {
                    Some(Json::Text(text)) => match find_text(nested, text) {
                        Some(reading) => checked_arguments(
                            reading,
                            limits.max_argument_bytes,
                        ),
                        None => arguments(),
                    },
                    _ => arguments(),
                }
            },
            ArgumentDecodePlan::Fields { fields } => decode_fields(
                fields,
                &wire,
                nested,
                limits.max_argument_bytes,
            ),
        }
    }
}

/// What the texts inside provider arguments read as.
pub open spec fn nested_readings(plan: ArgumentDecodePlanView, raw: JsonTextView) -> Seq<
    JsonTextView,
> {
    match raw.reading {
        ReadingView::Document { value: JsonView::Object(members), .. } => texts_within(
            plan,
            members,
        ).map_values(|text: Seq<char>| read_text(text)),
        _ => Seq::empty(),
    }
}

/// Why an argument text cannot be decoded.
pub open spec fn text_decode_fault(
    plan: ArgumentDecodePlanView,
    raw: Seq<char>,
    limits: ProviderToolSchemaLimitsView,
) -> Option<Fault> {
    decode_fault(plan, read_text(raw), nested_readings(plan, read_text(raw)), limits)
}

/// The canonical arguments of an argument text.
pub open spec fn text_arguments(plan: ArgumentDecodePlanView, raw: Seq<char>) -> Seq<MemberView> {
    decoded_arguments(
        plan,
        read_text(raw).reading->value->Object_0,
        nested_readings(plan, read_text(raw)),
    )
}

fn read_texts(texts: &Vec<String>) -> (r: Vec<JsonText>)
    ensures
        r.deep_view() == texts.deep_view().map_values(|text: Seq<char>| read_text(text)),
        forall|i: int| 0 <= i < texts.len() ==> gives_back(#[trigger] texts.deep_view()[i]),
{
    let ghost s = texts.deep_view().map_values(|text: Seq<char>| read_text(text));
    let mut out: Vec<JsonText> = Vec::new();
    assert(out.deep_view() =~= s.take(0));
    let mut i: usize = 0;
    while i < texts.len()
        invariant
            i <= texts.len(),
            s == texts.deep_view().map_values(|text: Seq<char>| read_text(text)),
            out.deep_view() == s.take(i as int),
            forall|j: int| 0 <= j < i ==> gives_back(#[trigger] texts.deep_view()[j]),
        decreases texts.len() - i,
    {
        let reading = JsonText::read(texts[i].as_str());
        assert(gives_back(texts.deep_view()[i as int]));
        assert(s[i as int] == reading@);
        out.push(reading);
        assert(out.deep_view() =~= s.take(i as int).push(reading@));
        assert(s.take(i + 1) =~= s.take(i as int).push(s[i as int]));
        i = i + 1;
    }
    assert(s.take(i as int) =~= s);
    out
}

impl CompiledToolContract {
    /// Restore model-owned names and values. Validation, defaults and system binding are separate
    /// boundaries; this neither authorizes nor executes the tool. Decoding the text of encoded
    /// arguments gives back exactly what was encoded.
    pub fn decode_arguments(&self, raw: &str, limits: &ProviderToolSchemaLimits) -> (r: Result<
        Vec<Member>,
        ContractError,
    >)
        ensures
            failure(r) == text_decode_fault(self@.data.decode_plan, raw@, limits@),
            r matches Ok(members) ==> members.deep_view() == text_arguments(
                self@.data.decode_plan,
                raw@,
            ),
            forall|canonical_schema: JsonView, wire_schema: JsonView, input: Seq<MemberView>|
                #[trigger] is_encoding(
                    canonical_schema,
                    wire_schema,
                    self@.data.decode_plan,
                    input,
                    raw@,
                    limits@,
                ) ==> r is Ok && r->Ok_0.deep_view() == input,
    {
        let ghost plan = self@.data.decode_plan;
        let ghost given = raw@;
        let raw = JsonText::read(raw);
        assert(gives_back(given));
        let nested = match &raw.reading {
            Reading::Document { value: Json::Object(members), .. } => {
                proof {
                    lemma_object_view(*members);
                }
                let texts = self.nested_texts(members);
                let readings = read_texts(&texts);
                assert forall|
                    canonical_schema: JsonView,
                    wire_schema: JsonView,
                    input: Seq<MemberView>,
                |
                    #[trigger] is_encoding(
                        canonical_schema,
                        wire_schema,
                        plan,
                        input,
                        given,
                        limits@,
                    ) implies text_decode_fault(plan, given, limits@) is None && text_arguments(
                    plan,
                    given,
                ) == input by {
                    lemma_encoding_is_undone(
                        canonical_schema,
                        wire_schema,
                        plan,
                        input,
                        given,
                        limits@,
                    );
                }
                readings
            },
            _ => {
                let none: Vec<JsonText> = Vec::new();
                assert(none.deep_view() =~= Seq::<JsonTextView>::empty());
                assert forall|
                    canonical_schema: JsonView,
                    wire_schema: JsonView,
                    input: Seq<MemberView>,
                |
                    !#[trigger] is_encoding(
                        canonical_schema,
                        wire_schema,
                        plan,
                        input,
                        given,
                        limits@,
                    ) by {
                    if is_encoding(canonical_schema, wire_schema, plan, input, given, limits@) {
                        lemma_encoding_reads(
                            canonical_schema,
                            wire_schema,
                            plan,
                            input,
                            given,
                            limits@,
                        );
                    }
                }
                none
            },
        };
        assert(nested.deep_view() == nested_readings(self@.data.decode_plan, raw@));
        self.decode_readings(&raw, &nested, limits)
    }
}

/// A text that was written for a value reads as that value.
pub open spec fn reads_back(nested: Seq<JsonTextView>, value: JsonView, max: usize) -> bool {
    &&& nested_fault(nested, canonical_text(value), max) is None
    &&& nested_value(nested, canonical_text(value)) == value
}

/// Every text that encoding writes reads as what it was written for.
pub open spec fn texts_read_back(
    plan: ArgumentDecodePlanView,
    input: Seq<MemberView>,
    nested: Seq<JsonTextView>,
    max: usize,
) -> bool {
    match plan {
        ArgumentDecodePlanView::Identity => true,
        ArgumentDecodePlanView::JsonObjectText { .. } => reads_back(
            nested,
            JsonView::Object(input),
            max,
        ),
        ArgumentDecodePlanView::Fields { fields } => forall|k: int|
            #![trigger fields[k]]
            0 <= k < fields.len() ==> {
                let value = value_of(input, fields[k].canonical_name);
                &&& fields[k].encoding == (ArgumentValueEncodingView::JsonText { optional: true })
                    ==> reads_back(nested, boxed(value), max)
                &&& fields[k].encoding == (ArgumentValueEncodingView::JsonText { optional: false })
                    && value is Some ==> reads_back(nested, value->Some_0, max)
            },
    }
}

/// No two mappings share a name, and presence keys differ.
spec fn one_to_one(fields: Seq<ArgumentFieldMappingView>) -> bool {
    &&& forall|i: int, j: int|
        #![trigger fields[i], fields[j]]
        0 <= i < j < fields.len() ==> fields[i].wire_name != fields[j].wire_name
            && fields[i].canonical_name != fields[j].canonical_name
    &&& forall|i: int|
        #![trigger fields[i]]
        0 <= i < fields.len() ==> (fields[i].encoding matches ArgumentValueEncodingView::Presence {
            present_key,
            value_key,
        } ==> present_key != value_key)
}

proof fn lemma_one_to_one(
    canonical: JsonView,
    wire: JsonView,
    fields: Seq<ArgumentFieldMappingView>,
)
    requires
        codec_fault(canonical, wire, ArgumentDecodePlanView::Fields { fields }) is None,
    ensures
        one_to_one(fields),
{
    let wire_members = properties_of(wire)->Some_0;
    let canonical_members = properties_of(canonical)->Some_0;
    let f = mapping_fault(fields, wire_members, canonical_members);
    lemma_first_index_fault(0, fields.len() as int, f);
    assert forall|i: int, j: int|
        #![trigger fields[i], fields[j]]
        0 <= i < j < fields.len() implies fields[i].wire_name != fields[j].wire_name
        && fields[i].canonical_name != fields[j].canonical_name by {
        assert(f(j) is None);
        assert(fields.take(j)[i] == fields[i]);
        assert(!from_wire(fields[j].wire_name)(fields.take(j)[i]));
        assert(!to_canonical(fields[j].canonical_name)(fields.take(j)[i]));
    }
    assert forall|i: int| #![trigger fields[i]] 0 <= i < fields.len() implies (
    fields[i].encoding matches ArgumentValueEncodingView::Presence { present_key, value_key }
        ==> present_key != value_key) by {
        assert(f(i) is None);
    }
}

proof fn lemma_found(fields: Seq<ArgumentFieldMappingView>, k: int)
    requires
        one_to_one(fields),
        0 <= k < fields.len(),
    ensures
        first_in(fields, from_wire(fields[k].wire_name)) == Some(fields[k]),
{
    let p = from_wire(fields[k].wire_name);
    lemma_first_in(fields, p);
    assert(p(fields[k]));
    let x = first_in(fields, p)->Some_0;
    let j = choose|j: int| 0 <= j < fields.len() && fields[j] == x;
    assert(fields[j].wire_name == fields[k].wire_name);
}

/// What encoding puts under each wire name, and under no other name.
proof fn lemma_wire_members(fields: Seq<ArgumentFieldMappingView>, input: Seq<MemberView>)
    requires
        one_to_one(fields),
    ensures
        keys_ascend(wire_members(fields, input)),
        forall|k: int|
            #![trigger fields[k]]
            0 <= k < fields.len() ==> value_of(wire_members(fields, input), fields[k].wire_name)
                == encoded_value(
                fields[k].encoding,
                value_of(input, fields[k].canonical_name),
            ),
        forall|j: int|
            #![trigger wire_members(fields, input)[j]]
            0 <= j < wire_members(fields, input).len() ==> exists|k: int|
                #![trigger fields[k]]
                0 <= k < fields.len() && fields[k].wire_name == wire_members(fields, input)[j].key,
        forall|w: Seq<char>|
            #![trigger value_of(wire_members(fields, input), w)]
            value_of(wire_members(fields, input), w) is Some ==> exists|k: int|
                #![trigger fields[k]]
                0 <= k < fields.len() && fields[k].wire_name == w,
    decreases fields.len(),
{
    if fields.len() > 0 {
        let rest = fields.drop_last();
        let front = wire_members(rest, input);
        let field = fields.last();
        let n = fields.len() - 1;
        assert forall|i: int, j: int|
            #![trigger rest[i], rest[j]]
            0 <= i < j < rest.len() implies rest[i].wire_name != rest[j].wire_name
            && rest[i].canonical_name != rest[j].canonical_name by {
            assert(rest[i] == fields[i] && rest[j] == fields[j]);
        }
        assert(one_to_one(rest)) by {
            assert forall|i: int| #![trigger rest[i]] 0 <= i < rest.len() implies (
            rest[i].encoding matches ArgumentValueEncodingView::Presence { present_key, value_key }
                ==> present_key != value_key) by {
                assert(rest[i] == fields[i]);
            }
        }
        lemma_wire_members(rest, input);
        let encoded = encoded_value(field.encoding, value_of(input, field.canonical_name));
        assert(value_of(front, field.wire_name) is None) by {
            if value_of(front, field.wire_name) is Some {
                let k = choose|k: int|
                    #![trigger rest[k]]
                    0 <= k < rest.len() && rest[k].wire_name == field.wire_name;
                assert(rest[k] == fields[k] && fields[n] == field);
            }
        }
        let all = wire_members(fields, input);
        if encoded is Some {
            let member = MemberView { key: field.wire_name, value: encoded->Some_0 };
            assert(all == put(front, member));
            lemma_put_ascends(front, member);
            assert forall|k: int|
                #![trigger fields[k]]
                0 <= k < fields.len() implies value_of(all, fields[k].wire_name) == encoded_value(
                fields[k].encoding,
                value_of(input, fields[k].canonical_name),
            ) by {
                lemma_put_value(front, member, fields[k].wire_name);
                if k < n {
                    assert(rest[k] == fields[k]);
                    assert(fields[n] == field);
                }
            }
            assert forall|j: int| #![trigger all[j]] 0 <= j < all.len() implies exists|k: int|
                #![trigger fields[k]]
                0 <= k < fields.len() && fields[k].wire_name == all[j].key by {
                assert(put(front, member)[j] == all[j]);
                if all[j].key == member.key {
                    assert(fields[n].wire_name == all[j].key);
                } else {
                    let q = choose|q: int|
                        0 <= q < front.len() && (#[trigger] front[q]).key == all[j].key;
                    let k = choose|k: int|
                        #![trigger rest[k]]
                        0 <= k < rest.len() && rest[k].wire_name == front[q].key;
                    assert(fields[k] == rest[k]);
                }
            }
            assert forall|w: Seq<char>| #![trigger value_of(all, w)] value_of(
                all,
                w,
            ) is Some implies exists|k: int|
                #![trigger fields[k]]
                0 <= k < fields.len() && fields[k].wire_name == w by {
                lemma_put_value(front, member, w);
                if w == field.wire_name {
                    assert(fields[n].wire_name == w);
                } else {
                    assert(value_of(front, w) is Some);
                    let k = choose|k: int|
                        #![trigger rest[k]]
                        0 <= k < rest.len() && rest[k].wire_name == w;
                    assert(fields[k] == rest[k]);
                }
            }
        } else {
            assert(all == front);
            assert forall|k: int|
                #![trigger fields[k]]
                0 <= k < fields.len() implies value_of(all, fields[k].wire_name) == encoded_value(
                fields[k].encoding,
                value_of(input, fields[k].canonical_name),
            ) by {
                if k < n {
                    assert(rest[k] == fields[k]);
                }
            }
            assert forall|j: int| #![trigger all[j]] 0 <= j < all.len() implies exists|k: int|
                #![trigger fields[k]]
                0 <= k < fields.len() && fields[k].wire_name == all[j].key by {
                let k = choose|k: int|
                    #![trigger rest[k]]
                    0 <= k < rest.len() && rest[k].wire_name == front[j].key;
                assert(fields[k] == rest[k]);
            }
            assert forall|w: Seq<char>| #![trigger value_of(all, w)] value_of(
                all,
                w,
            ) is Some implies exists|k: int|
                #![trigger fields[k]]
                0 <= k < fields.len() && fields[k].wire_name == w by {
                assert(value_of(front, w) is Some);
                let k = choose|k: int|
                    #![trigger rest[k]]
                    0 <= k < rest.len() && rest[k].wire_name == w;
                assert(fields[k] == rest[k]);
            }
        }
    }
}

/// A value restored from a wire member, if there is one.
spec fn restored_from(
    encoding: ArgumentValueEncodingView,
    value: Option<JsonView>,
    nested: Seq<JsonTextView>,
) -> Option<JsonView> {
    match value {
        Some(value) => restored_value(encoding, value, nested),
        None => None,
    }
}

/// What decoding puts under each canonical name, and under no other name.
proof fn lemma_canonical_members(
    fields: Seq<ArgumentFieldMappingView>,
    wire: Seq<MemberView>,
    nested: Seq<JsonTextView>,
)
    requires
        one_to_one(fields),
        keys_ascend(wire),
        forall|j: int|
            #![trigger wire[j]]
            0 <= j < wire.len() ==> exists|k: int|
                #![trigger fields[k]]
                0 <= k < fields.len() && fields[k].wire_name == wire[j].key,
    ensures
        keys_ascend(canonical_members(fields, wire, nested)),
        forall|k: int|
            #![trigger fields[k]]
            0 <= k < fields.len() ==> value_of(
                canonical_members(fields, wire, nested),
                fields[k].canonical_name,
            ) == restored_from(fields[k].encoding, value_of(wire, fields[k].wire_name), nested),
        forall|c: Seq<char>|
            #![trigger value_of(canonical_members(fields, wire, nested), c)]
            value_of(canonical_members(fields, wire, nested), c) is Some ==> exists|k: int|
                #![trigger fields[k]]
                0 <= k < fields.len() && fields[k].canonical_name == c,
    decreases wire.len(),
{
    let all = canonical_members(fields, wire, nested);
    if wire.len() > 0 {
        let rest = wire.drop_last();
        let member = wire.last();
        let n = wire.len() - 1;
        assert forall|i: int, j: int| 0 <= i < j < rest.len() implies precedes(
            (#[trigger] rest[i]).key,
            (#[trigger] rest[j]).key,
        ) by {
            assert(rest[i] == wire[i] && rest[j] == wire[j]);
        }
        assert forall|j: int| #![trigger rest[j]] 0 <= j < rest.len() implies exists|k: int|
            #![trigger fields[k]]
            0 <= k < fields.len() && fields[k].wire_name == rest[j].key by {
            assert(rest[j] == wire[j]);
        }
        lemma_canonical_members(fields, rest, nested);
        let front = canonical_members(fields, rest, nested);
        assert(wire[n] == member);
        let at = choose|k: int|
            #![trigger fields[k]]
            0 <= k < fields.len() && fields[k].wire_name == member.key;
        lemma_found(fields, at);
        assert(wire =~= rest.push(member));
        assert forall|i: int| 0 <= i < rest.len() implies (#[trigger] rest[i]).key
            != member.key by {
            assert(rest[i] == wire[i] && wire[n] == member);
            assert(precedes(wire[i].key, wire[n].key));
            lemma_precedes_total(wire[i].key, wire[n].key);
        }
        lemma_absent_key(rest, member.key);
        let value = restored_value(fields[at].encoding, member.value, nested);
        assert forall|k: int|
            #![trigger fields[k]]
            0 <= k < fields.len() implies value_of(all, fields[k].canonical_name) == restored_from(
            fields[k].encoding,
            value_of(wire, fields[k].wire_name),
            nested,
        ) by {
            lemma_value_of_push(rest, member, fields[k].wire_name);
            if value is Some {
                lemma_put_value(
                    front,
                    MemberView { key: fields[at].canonical_name, value: value->Some_0 },
                    fields[k].canonical_name,
                );
            }
            if k != at {
                assert(fields[k].wire_name != member.key) by {
                    if k < at {
                        assert(fields[k].wire_name != fields[at].wire_name);
                    } else {
                        assert(fields[at].wire_name != fields[k].wire_name);
                    }
                }
            }
        }
        if value is Some {
            let added = MemberView { key: fields[at].canonical_name, value: value->Some_0 };
            assert(all == put(front, added));
            lemma_put_ascends(front, added);
            assert forall|c: Seq<char>| #![trigger value_of(all, c)] value_of(
                all,
                c,
            ) is Some implies exists|k: int|
                #![trigger fields[k]]
                0 <= k < fields.len() && fields[k].canonical_name == c by {
                lemma_put_value(front, added, c);
                if c == added.key {
                    assert(fields[at].canonical_name == c);
                } else {
                    assert(value_of(front, c) is Some);
                }
            }
        } else {
            assert(all == front);
        }
    } else {
        assert forall|k: int|
            #![trigger fields[k]]
            0 <= k < fields.len() implies value_of(all, fields[k].canonical_name) == restored_from(
            fields[k].encoding,
            value_of(wire, fields[k].wire_name),
            nested,
        ) by {
            lemma_absent_key(wire, fields[k].wire_name);
            lemma_absent_key(all, fields[k].canonical_name);
        }
        assert forall|c: Seq<char>| #![trigger value_of(all, c)] value_of(
            all,
            c,
        ) is Some implies exists|k: int|
            #![trigger fields[k]]
            0 <= k < fields.len() && fields[k].canonical_name == c by {
            lemma_absent_key(all, c);
        }
    }
}

/// Members in key order are told apart by their values.
proof fn lemma_ascending_members(a: Seq<MemberView>, b: Seq<MemberView>)
    requires
        keys_ascend(a),
        keys_ascend(b),
        forall|key: Seq<char>| #[trigger] value_of(a, key) == value_of(b, key),
    ensures
        a == b,
    decreases a.len(),
{
    reveal_with_fuel(first_in, 2);
    if a.len() == 0 {
        if b.len() > 0 {
            assert(value_of(a, b[0].key) == value_of(b, b[0].key));
            lemma_absent_key(a, b[0].key);
        }
        assert(a =~= b);
    } else if b.len() == 0 {
        assert(value_of(a, a[0].key) == value_of(b, a[0].key));
        lemma_absent_key(b, a[0].key);
    } else {
        assert(value_of(a, a[0].key) == Some(a[0].value));
        assert(value_of(b, b[0].key) == Some(b[0].value));
        lemma_precedes_total(a[0].key, b[0].key);
        if precedes(a[0].key, b[0].key) {
            assert forall|i: int| 0 <= i < b.len() implies (#[trigger] b[i]).key != a[0].key by {
                if i > 0 {
                    assert(precedes(b[0].key, b[i].key));
                    lemma_precedes_transitive(a[0].key, b[0].key, b[i].key);
                }
                lemma_precedes_total(a[0].key, b[i].key);
            }
            lemma_absent_key(b, a[0].key);
            assert(value_of(a, a[0].key) == value_of(b, a[0].key));
        } else if precedes(b[0].key, a[0].key) {
            assert forall|i: int| 0 <= i < a.len() implies (#[trigger] a[i]).key != b[0].key by {
                if i > 0 {
                    assert(precedes(a[0].key, a[i].key));
                    lemma_precedes_transitive(b[0].key, a[0].key, a[i].key);
                }
                lemma_precedes_total(b[0].key, a[i].key);
            }
            lemma_absent_key(a, b[0].key);
            assert(value_of(a, b[0].key) == value_of(b, b[0].key));
        }
        assert(a[0] == b[0]);
        let x = a.skip(1);
        let y = b.skip(1);
        assert forall|key: Seq<char>| #[trigger] value_of(x, key) == value_of(y, key) by {
            assert(value_of(a, key) == value_of(b, key));
            if key == a[0].key {
                assert forall|i: int| 0 <= i < x.len() implies (#[trigger] x[i]).key != key by {
                    assert(x[i] == a[i + 1] && precedes(a[0].key, a[i + 1].key));
                    lemma_precedes_total(a[0].key, a[i + 1].key);
                }
                assert forall|i: int| 0 <= i < y.len() implies (#[trigger] y[i]).key != key by {
                    assert(y[i] == b[i + 1] && precedes(b[0].key, b[i + 1].key));
                    lemma_precedes_total(b[0].key, b[i + 1].key);
                }
                lemma_absent_key(x, key);
                lemma_absent_key(y, key);
            }
        }
        assert(keys_ascend(x)) by {
            assert forall|i: int, j: int| 0 <= i < j < x.len() implies precedes(
                (#[trigger] x[i]).key,
                (#[trigger] x[j]).key,
            ) by {
                assert(x[i] == a[i + 1] && x[j] == a[j + 1]);
            }
        }
        assert(keys_ascend(y)) by {
            assert forall|i: int, j: int| 0 <= i < j < y.len() implies precedes(
                (#[trigger] y[i]).key,
                (#[trigger] y[j]).key,
            ) by {
                assert(y[i] == b[i + 1] && y[j] == b[j + 1]);
            }
        }
        lemma_ascending_members(x, y);
        assert(a =~= seq![a[0]] + x);
        assert(b =~= seq![b[0]] + y);
    }
}

/// Restoring what was encoded gives the value back.
proof fn lemma_value_round_trip(
    encoding: ArgumentValueEncodingView,
    value: Option<JsonView>,
    nested: Seq<JsonTextView>,
    max: usize,
)
    requires
        encoding matches ArgumentValueEncodingView::Presence { present_key, value_key }
            ==> present_key != value_key,
        encoding == (ArgumentValueEncodingView::JsonText { optional: true }) ==> reads_back(
            nested,
            boxed(value),
            max,
        ),
        encoding == (ArgumentValueEncodingView::JsonText { optional: false }) && value is Some
            ==> reads_back(nested, value->Some_0, max),
    ensures
        restored_from(encoding, encoded_value(encoding, value), nested) == value,
        encoded_value(encoding, value) matches Some(wire) ==> value_fault(
            encoding,
            wire,
            nested,
            max,
        ) is None,
{
    match encoding {
        ArgumentValueEncodingView::Presence { present_key, value_key } => {
            let held = match value {
                Some(value) => value,
                None => JsonView::Null,
            };
            let none = Seq::<MemberView>::empty();
            let mark = MemberView { key: present_key, value: JsonView::Bool(value is Some) };
            let one = put(none, mark);
            let two = put(one, MemberView { key: value_key, value: held });
            assert(two == envelope(present_key, value_key, value));
            reveal_with_fuel(put, 3);
            assert(one =~= seq![mark]);
            assert(one.skip(1) =~= none);
            assert(two.len() == 2);
            lemma_put_value(none, mark, present_key);
            lemma_put_value(one, MemberView { key: value_key, value: held }, present_key);
            lemma_put_value(one, MemberView { key: value_key, value: held }, value_key);
        },
        _ => {},
    }
}

/// Decoding undoes encoding: for a codec that passed its checks, the arguments that were encoded
/// come back exactly, with absent properties absent and explicit nulls null, wherever the texts
/// written inside read as what they were written for.
pub proof fn law_decoding_undoes_encoding(
    canonical_schema: JsonView,
    wire_schema: JsonView,
    plan: ArgumentDecodePlanView,
    input: Seq<MemberView>,
    raw: JsonTextView,
    nested: Seq<JsonTextView>,
    limits: ProviderToolSchemaLimitsView,
)
    requires
        limits_fault(limits) is None,
        codec_fault(canonical_schema, wire_schema, plan) is None,
        keys_ascend(input),
        encode_fault(plan, input) is None,
        provider_arguments_fault(raw, limits.max_argument_bytes) is None,
        raw.reading->value == JsonView::Object(encoded_arguments(plan, input)),
        texts_read_back(plan, input, nested, limits.max_argument_bytes),
    ensures
        decode_fault(plan, raw, nested, limits) is None,
        decoded_arguments(plan, encoded_arguments(plan, input), nested) == input,
{
    let max = limits.max_argument_bytes;
    match plan {
        ArgumentDecodePlanView::Identity => {},
        ArgumentDecodePlanView::JsonObjectText { wire_name } => {
            let members = encoded_arguments(plan, input);
            reveal_with_fuel(first_in, 2);
            assert(members[0].key == wire_name);
            assert(value_of(members, wire_name) == Some(members[0].value));
        },
        ArgumentDecodePlanView::Fields { fields } => {
            lemma_one_to_one(canonical_schema, wire_schema, fields);
            lemma_wire_members(fields, input);
            let wire = wire_members(fields, input);
            lemma_canonical_members(fields, wire, nested);
            let back = canonical_members(fields, wire, nested);
            let f = wire_member_fault(fields, nested, max);
            assert forall|j: int| 0 <= j < wire.len() implies f(#[trigger] wire[j]) is None by {
                let k = choose|k: int|
                    #![trigger fields[k]]
                    0 <= k < fields.len() && fields[k].wire_name == wire[j].key;
                lemma_found(fields, k);
                lemma_value_round_trip(
                    fields[k].encoding,
                    value_of(input, fields[k].canonical_name),
                    nested,
                    max,
                );
                lemma_value_at(wire, j);
            }
            lemma_first_fault(wire, f);
            assert forall|key: Seq<char>| #[trigger] value_of(back, key) == value_of(input, key) by {
                if exists|k: int|
                    #![trigger fields[k]]
                    0 <= k < fields.len() && fields[k].canonical_name == key {
                    let k = choose|k: int|
                        #![trigger fields[k]]
                        0 <= k < fields.len() && fields[k].canonical_name == key;
                    lemma_value_round_trip(
                        fields[k].encoding,
                        value_of(input, fields[k].canonical_name),
                        nested,
                        max,
                    );
                } else {
                    assert(value_of(back, key) is None);
                    assert forall|i: int| 0 <= i < input.len() implies (#[trigger] input[i]).key
                        != key by {
                        assert(!unmapped(fields)(input[i]));
                        let k = choose|k: int|
                            0 <= k < fields.len() && to_canonical(input[i].key)(#[trigger] fields[k]);
                        assert(fields[k].canonical_name == input[i].key);
                    }
                    lemma_absent_key(input, key);
                }
            }
            lemma_ascending_members(back, input);
        },
    }
}

/// A key that stands once has the value beside it.
proof fn lemma_value_at(members: Seq<MemberView>, j: int)
    requires
        keys_ascend(members),
        0 <= j < members.len(),
    ensures
        value_of(members, members[j].key) == Some(members[j].value),
{
    let p = with_key(members[j].key);
    lemma_first_in(members, p);
    assert(p(members[j]));
    let x = first_in(members, p)->Some_0;
    let i = choose|i: int| 0 <= i < members.len() && members[i] == x;
    if i < j {
        assert(precedes(members[i].key, members[j].key));
        lemma_precedes_total(members[i].key, members[j].key);
    } else if j < i {
        assert(precedes(members[j].key, members[i].key));
        lemma_precedes_total(members[j].key, members[i].key);
    }
}

/// The text that was written for a value reads as that value, within a bound.
pub open spec fn text_reads_back(value: JsonView, max: usize) -> bool {
    &&& provider_text_fault(read_text(canonical_text(value)), max) is None
    &&& reading_of(canonical_text(value))->value == value
}

/// Every text that encoding writes reads as what it was written for, within a bound.
pub open spec fn written_texts_read_back(
    plan: ArgumentDecodePlanView,
    input: Seq<MemberView>,
    max: usize,
) -> bool {
    match plan {
        ArgumentDecodePlanView::Identity => true,
        ArgumentDecodePlanView::JsonObjectText { .. } => text_reads_back(
            JsonView::Object(input),
            max,
        ),
        ArgumentDecodePlanView::Fields { fields } => forall|k: int|
            #![trigger fields[k]]
            0 <= k < fields.len() ==> {
                let value = value_of(input, fields[k].canonical_name);
                &&& fields[k].encoding == (ArgumentValueEncodingView::JsonText { optional: true })
                    ==> text_reads_back(boxed(value), max)
                &&& fields[k].encoding == (ArgumentValueEncodingView::JsonText { optional: false })
                    && value is Some ==> text_reads_back(value->Some_0, max)
            },
    }
}

/// A text under a wire name that carries JSON text is among the texts to be read.
proof fn lemma_text_within(
    plan: ArgumentDecodePlanView,
    members: Seq<MemberView>,
    j: int,
    text: Seq<char>,
)
    requires
        0 <= j < members.len(),
        members[j].value == JsonView::Text(text),
        holds_text(plan, members[j].key),
    ensures
        texts_within(plan, members).contains(text),
    decreases members.len(),
{
    let front = texts_within(plan, members.drop_last());
    let all = texts_within(plan, members);
    if j == members.len() - 1 {
        assert(all == front.push(text));
        assert(all[front.len() as int] == text);
    } else {
        assert(members.drop_last()[j] == members[j]);
        lemma_text_within(plan, members.drop_last(), j, text);
        let i = choose|i: int| 0 <= i < front.len() && front[i] == text;
        assert(all[i] == text);
    }
}

/// A text that was read is found with what it reads as.
proof fn lemma_text_found(texts: Seq<Seq<char>>, text: Seq<char>)
    requires
        texts.contains(text),
    ensures
        first_in(texts.map_values(|t: Seq<char>| read_text(t)), with_text(text)) == Some(
            read_text(text),
        ),
{
    let nested = texts.map_values(|t: Seq<char>| read_text(t));
    let i = choose|i: int| 0 <= i < texts.len() && texts[i] == text;
    assert(with_text(text)(nested[i]));
    lemma_first_in(nested, with_text(text));
    let found = first_in(nested, with_text(text))->Some_0;
    let k = choose|k: int| 0 <= k < nested.len() && nested[k] == found;
    assert(nested[k] == read_text(texts[k]));
}

/// A text that stands in wire members and reads back, reads back among the texts to be read.
proof fn lemma_nested_reads_back(
    plan: ArgumentDecodePlanView,
    wire: Seq<MemberView>,
    key: Seq<char>,
    value: JsonView,
    max: usize,
)
    requires
        value_of(wire, key) == Some(JsonView::Text(canonical_text(value))),
        holds_text(plan, key),
        text_reads_back(value, max),
    ensures
        reads_back(
            texts_within(plan, wire).map_values(|t: Seq<char>| read_text(t)),
            value,
            max,
        ),
{
    lemma_first_in(wire, with_key(key));
    let found = first_in(wire, with_key(key))->Some_0;
    let j = choose|j: int| 0 <= j < wire.len() && wire[j] == found;
    lemma_text_within(plan, wire, j, canonical_text(value));
    lemma_text_found(texts_within(plan, wire), canonical_text(value));
}

/// Decoding a text undoes encoding: an argument text that reads as the encoded arguments decodes to
/// exactly what was encoded, wherever the texts written inside read as what they were written for.
pub proof fn law_decoding_a_text_undoes_encoding(
    canonical_schema: JsonView,
    wire_schema: JsonView,
    plan: ArgumentDecodePlanView,
    input: Seq<MemberView>,
    raw: Seq<char>,
    limits: ProviderToolSchemaLimitsView,
)
    requires
        limits_fault(limits) is None,
        codec_fault(canonical_schema, wire_schema, plan) is None,
        keys_ascend(input),
        encode_fault(plan, input) is None,
        provider_arguments_fault(read_text(raw), limits.max_argument_bytes) is None,
        reading_of(raw)->value == JsonView::Object(encoded_arguments(plan, input)),
        written_texts_read_back(plan, input, limits.max_argument_bytes),
    ensures
        text_decode_fault(plan, raw, limits) is None,
        text_arguments(plan, raw) == input,
{
    let max = limits.max_argument_bytes;
    let wire = encoded_arguments(plan, input);
    let nested = nested_readings(plan, read_text(raw));
    assert(nested == texts_within(plan, wire).map_values(|t: Seq<char>| read_text(t)));
    match plan {
        ArgumentDecodePlanView::Identity => {},
        ArgumentDecodePlanView::JsonObjectText { wire_name } => {
            reveal_with_fuel(first_in, 2);
            assert(wire[0].key == wire_name);
            assert(value_of(wire, wire_name) == Some(wire[0].value));
            lemma_nested_reads_back(plan, wire, wire_name, JsonView::Object(input), max);
        },
        ArgumentDecodePlanView::Fields { fields } => {
            lemma_one_to_one(canonical_schema, wire_schema, fields);
            lemma_wire_members(fields, input);
            assert forall|k: int| #![trigger fields[k]] 0 <= k < fields.len() implies {
                let value = value_of(input, fields[k].canonical_name);
                &&& fields[k].encoding == (ArgumentValueEncodingView::JsonText { optional: true })
                    ==> reads_back(nested, boxed(value), max)
                &&& fields[k].encoding == (ArgumentValueEncodingView::JsonText { optional: false })
                    && value is Some ==> reads_back(nested, value->Some_0, max)
            } by {
                let value = value_of(input, fields[k].canonical_name);
                let name = fields[k].wire_name;
                lemma_found(fields, k);
                if fields[k].encoding == (ArgumentValueEncodingView::JsonText { optional: true }) {
                    lemma_nested_reads_back(plan, wire, name, boxed(value), max);
                } else if fields[k].encoding == (ArgumentValueEncodingView::JsonText {
                    optional: false,
                }) && value is Some {
                    lemma_nested_reads_back(plan, wire, name, value->Some_0, max);
                }
            }
        },
    }
    law_decoding_undoes_encoding(
        canonical_schema,
        wire_schema,
        plan,
        input,
        read_text(raw),
        nested,
        limits,
    );
}

/// The text of a readable document gives the document back.
pub open spec fn gives_back(text: Seq<char>) -> bool {
    forall|json: JsonView|
        #[trigger] readable(json, MAX_DEPTH as nat) && canonical_text(json) == text ==> read_text(
            text,
        ) == text_of_value(json)
}

/// A text is that of arguments that a codec which passed its checks has encoded: arguments whose
/// numbers are integers, or read back as they are written and can be compared, and whose text is
/// within the bound.
pub open spec fn is_encoding(
    canonical_schema: JsonView,
    wire_schema: JsonView,
    plan: ArgumentDecodePlanView,
    input: Seq<MemberView>,
    raw: Seq<char>,
    limits: ProviderToolSchemaLimitsView,
) -> bool {
    &&& limits_fault(limits) is None
    &&& codec_fault(canonical_schema, wire_schema, plan) is None
    &&& encode_fault(plan, input) is None
    &&& raw == canonical_text(JsonView::Object(encoded_arguments(plan, input)))
    &&& encode_utf8(raw).len() <= limits.max_argument_bytes
    &&& readable(JsonView::Object(input), (MAX_DEPTH - 2) as nat)
    &&& comparable(JsonView::Object(input))
}

/// A document of no more than `depth` levels in which the keys of every object are in order and
/// every number is an integer of at most 64 bits.
pub open spec fn holds_integers(json: JsonView, depth: nat) -> bool
    decreases json,
{
    match json {
        JsonView::Number(number) => depth > 0 && is_whole(number),
        JsonView::Array(items) => depth > 1 && forall|i: int|
            0 <= i < items.len() ==> holds_integers(#[trigger] items[i], (depth - 1) as nat),
        JsonView::Object(members) => depth > 1 && keys_ascend(members) && forall|i: int|
            0 <= i < members.len() ==> holds_integers(
                (#[trigger] members[i]).value,
                (depth - 1) as nat,
            ),
        _ => depth > 0,
    }
}

/// Documents whose numbers are integers read back as they are written, and can be compared.
pub proof fn law_integers_read_back(json: JsonView, depth: nat)
    requires
        holds_integers(json, depth),
    ensures
        readable(json, depth),
        comparable(json),
    decreases json,
{
    match json {
        JsonView::Number(number) => {
            law_integers_can_be_compared(number);
        },
        JsonView::Array(items) => {
            assert forall|i: int| 0 <= i < items.len() implies readable(
                #[trigger] items[i],
                (depth - 1) as nat,
            ) && comparable(items[i]) by {
                law_integers_read_back(items[i], (depth - 1) as nat);
            }
        },
        JsonView::Object(members) => {
            assert forall|i: int| 0 <= i < members.len() implies readable(
                (#[trigger] members[i]).value,
                (depth - 1) as nat,
            ) && comparable(members[i].value) by {
                law_integers_read_back(members[i].value, (depth - 1) as nat);
            }
        },
        _ => {},
    }
}

/// Arguments that a built contract can encode, whose numbers are integers and whose text is within
/// the bound, have a text that is an encoding: one that `decode_arguments` promises to undo.
pub proof fn law_integer_arguments_have_encodings(
    tool: CompiledToolView,
    target: ProviderToolTargetView,
    compiler: VersionedRefView,
    projection: ProviderToolProjectionView,
    built_within: ProviderToolSchemaLimitsView,
    schema_version: Seq<char>,
    input: Seq<MemberView>,
    limits: ProviderToolSchemaLimitsView,
)
    requires
        build_fault(tool, target, compiler, projection, built_within, schema_version) is None,
        encode_fault(projection.decode_plan, input) is None,
        holds_integers(JsonView::Object(input), (MAX_DEPTH - 2) as nat),
        limits_fault(limits) is None,
        encode_utf8(
            canonical_text(JsonView::Object(encoded_arguments(projection.decode_plan, input))),
        ).len() <= limits.max_argument_bytes,
    ensures
        is_encoding(
            tool.model_tool.model_input_schema,
            projection.wire_tool.model_input_schema,
            projection.decode_plan,
            input,
            canonical_text(JsonView::Object(encoded_arguments(projection.decode_plan, input))),
            limits,
        ),
{
    law_integers_read_back(JsonView::Object(input), (MAX_DEPTH - 2) as nat);
}

/// A readable document whose numbers can be compared.
spec fn is_plain(json: JsonView, depth: nat) -> bool {
    readable(json, depth) && comparable(json)
}

/// What is readable is readable with more levels left.
proof fn lemma_readable_deeper(json: JsonView, depth: nat, deeper: nat)
    requires
        readable(json, depth),
        depth <= deeper,
    ensures
        readable(json, deeper),
    decreases json,
{
    match json {
        JsonView::Array(items) => {
            assert forall|i: int| 0 <= i < items.len() implies readable(
                #[trigger] items[i],
                (deeper - 1) as nat,
            ) by {
                lemma_readable_deeper(items[i], (depth - 1) as nat, (deeper - 1) as nat);
            }
        },
        JsonView::Object(members) => {
            assert forall|i: int| 0 <= i < members.len() implies readable(
                (#[trigger] members[i]).value,
                (deeper - 1) as nat,
            ) by {
                lemma_readable_deeper(members[i].value, (depth - 1) as nat, (deeper - 1) as nat);
            }
        },
        _ => {},
    }
}

/// What is readable is in order.
proof fn lemma_readable_in_order(json: JsonView, depth: nat)
    requires
        readable(json, depth),
    ensures
        in_order(json),
    decreases json,
{
    match json {
        JsonView::Array(items) => {
            assert forall|i: int| 0 <= i < items.len() implies in_order(#[trigger] items[i]) by {
                lemma_readable_in_order(items[i], (depth - 1) as nat);
            }
        },
        JsonView::Object(members) => {
            assert forall|i: int| 0 <= i < members.len() implies in_order(
                (#[trigger] members[i]).value,
            ) by {
                lemma_readable_in_order(members[i].value, (depth - 1) as nat);
            }
        },
        _ => {},
    }
}

/// The text of a plain document is a provider's text, if it is within the bound.
proof fn lemma_plain_text(json: JsonView, depth: nat, max: usize)
    requires
        is_plain(json, depth),
        encode_utf8(canonical_text(json)).len() <= max,
    ensures
        provider_text_fault(text_of_value(json), max) is None,
{
    lemma_readable_in_order(json, depth);
    lemma_in_order_is_unambiguous(json);
    lemma_numbers_kept(json);
}

/// The value of an argument is plain.
proof fn lemma_plain_value(input: Seq<MemberView>, key: Seq<char>, depth: nat)
    requires
        is_plain(JsonView::Object(input), depth),
    ensures
        depth > 1,
        value_of(input, key) matches Some(value) ==> is_plain(value, (depth - 1) as nat),
{
    if value_of(input, key) is Some {
        lemma_first_in(input, with_key(key));
        let found = first_in(input, with_key(key))->Some_0;
        let j = choose|j: int| 0 <= j < input.len() && input[j] == found;
        assert(readable(input[j].value, (depth - 1) as nat));
        assert(comparable(input[j].value));
    }
}

/// A boxed value is plain.
proof fn lemma_plain_box(value: Option<JsonView>, depth: nat)
    requires
        depth > 0,
        value matches Some(value) ==> is_plain(value, depth),
    ensures
        is_plain(boxed(value), depth + 1),
{
    let items = boxed(value)->Array_0;
    assert forall|i: int| 0 <= i < items.len() implies is_plain(#[trigger] items[i], depth) by {
        assert(items[i] == value->Some_0);
    }
    assert forall|i: int| 0 <= i < items.len() implies readable(#[trigger] items[i], depth) by {
        assert(is_plain(items[i], depth));
    }
    assert forall|i: int| 0 <= i < items.len() implies comparable(#[trigger] items[i]) by {
        assert(is_plain(items[i], depth));
    }
}

/// Members that are put among plain ones, in the order of their keys, are plain.
proof fn lemma_plain_put(members: Seq<MemberView>, member: MemberView, depth: nat)
    requires
        is_plain(JsonView::Object(members), depth + 1),
        is_plain(member.value, depth),
        depth > 0,
    ensures
        is_plain(JsonView::Object(put(members, member)), depth + 1),
{
    let all = put(members, member);
    lemma_put_ascends(members, member);
    lemma_put_holds(members, member);
    assert forall|i: int| 0 <= i < all.len() implies readable((#[trigger] all[i]).value, depth)
        && comparable(all[i].value) by {
        if all[i] != member {
            let k = choose|k: int| 0 <= k < members.len() && members[k] == all[i];
            assert(readable(members[k].value, depth) && comparable(members[k].value));
        }
    }
}

/// Putting a member brings in no other.
proof fn lemma_put_holds(members: Seq<MemberView>, member: MemberView)
    ensures
        forall|i: int|
            0 <= i < put(members, member).len() ==> #[trigger] put(members, member)[i] == member
                || members.contains(put(members, member)[i]),
    decreases members.len(),
{
    let all = put(members, member);
    if members.len() > 0 {
        let rest = members.skip(1);
        lemma_put_holds(rest, member);
        assert forall|i: int| 0 <= i < all.len() implies #[trigger] all[i] == member
            || members.contains(all[i]) by {
            if members[0].key == member.key || precedes(member.key, members[0].key) {
                if i > 0 {
                    assert(members.contains(all[i])) by {
                        if members[0].key == member.key {
                            assert(all[i] == members[i]);
                        } else {
                            assert(all[i] == members[i - 1]);
                        }
                    }
                }
            } else if i == 0 {
                assert(all[0] == members[0]);
            } else {
                assert(all[i] == put(rest, member)[i - 1]);
                if all[i] != member {
                    let k = choose|k: int| 0 <= k < rest.len() && rest[k] == all[i];
                    assert(members[k + 1] == all[i]);
                }
            }
        }
    }
}

/// What stands on the wire for a plain value is plain.
proof fn lemma_plain_encoded(
    encoding: ArgumentValueEncodingView,
    value: Option<JsonView>,
    depth: nat,
)
    requires
        depth > 0,
        value matches Some(value) ==> is_plain(value, depth),
    ensures
        encoded_value(encoding, value) matches Some(wire) ==> is_plain(wire, depth + 1),
{
    match encoding {
        ArgumentValueEncodingView::Identity => {
            if value is Some {
                lemma_readable_deeper(value->Some_0, depth, depth + 1);
            }
        },
        ArgumentValueEncodingView::Presence { present_key, value_key } => {
            let none = Seq::<MemberView>::empty();
            let mark = MemberView { key: present_key, value: JsonView::Bool(value is Some) };
            let held = MemberView {
                key: value_key,
                value: match value {
                    Some(value) => value,
                    None => JsonView::Null,
                },
            };
            assert(is_plain(JsonView::Object(none), depth + 1));
            assert(is_plain(mark.value, depth));
            assert(is_plain(held.value, depth));
            lemma_plain_put(none, mark, depth);
            lemma_plain_put(put(none, mark), held, depth);
        },
        _ => {},
    }
}

/// What stands on the wire for plain arguments is plain.
proof fn lemma_plain_wire(
    fields: Seq<ArgumentFieldMappingView>,
    input: Seq<MemberView>,
    depth: nat,
)
    requires
        is_plain(JsonView::Object(input), depth),
    ensures
        is_plain(JsonView::Object(wire_members(fields, input)), depth + 1),
    decreases fields.len(),
{
    lemma_plain_value(input, Seq::empty(), depth);
    if fields.len() > 0 {
        let front = wire_members(fields.drop_last(), input);
        let field = fields.last();
        let value = value_of(input, field.canonical_name);
        lemma_plain_wire(fields.drop_last(), input, depth);
        lemma_plain_value(input, field.canonical_name, depth);
        lemma_plain_encoded(field.encoding, value, (depth - 1) as nat);
        if encoded_value(field.encoding, value) is Some {
            let wire = encoded_value(field.encoding, value)->Some_0;
            lemma_plain_put(front, MemberView { key: field.wire_name, value: wire }, depth);
        }
    } else {
        assert(is_plain(JsonView::Object(Seq::<MemberView>::empty()), depth + 1));
    }
}

/// Encoded arguments are plain where the arguments are.
proof fn lemma_plain_arguments(
    plan: ArgumentDecodePlanView,
    input: Seq<MemberView>,
    depth: nat,
)
    requires
        is_plain(JsonView::Object(input), depth),
    ensures
        is_plain(JsonView::Object(encoded_arguments(plan, input)), depth + 1),
{
    lemma_plain_value(input, Seq::empty(), depth);
    match plan {
        ArgumentDecodePlanView::Identity => {
            lemma_readable_deeper(JsonView::Object(input), depth, depth + 1);
        },
        ArgumentDecodePlanView::JsonObjectText { .. } => {
            assert(is_plain(JsonView::Text(canonical_text(JsonView::Object(input))), depth));
        },
        ArgumentDecodePlanView::Fields { fields } => {
            lemma_plain_wire(fields, input, depth);
        },
    }
}

/// A text that was written for a value stands among the texts to be read.
proof fn lemma_written_within(
    plan: ArgumentDecodePlanView,
    wire: Seq<MemberView>,
    key: Seq<char>,
    value: JsonView,
    max: usize,
)
    requires
        value_of(wire, key) == Some(JsonView::Text(canonical_text(value))),
        holds_text(plan, key),
        is_plain(value, MAX_DEPTH as nat),
        texts_fit(JsonView::Object(wire), max as nat),
        forall|i: int|
            0 <= i < texts_within(plan, wire).len() ==> gives_back(
                #[trigger] texts_within(plan, wire)[i],
            ),
    ensures
        text_reads_back(value, max),
{
    lemma_first_in(wire, with_key(key));
    let found = first_in(wire, with_key(key))->Some_0;
    let j = choose|j: int| 0 <= j < wire.len() && wire[j] == found;
    let text = canonical_text(value);
    assert(texts_fit(wire[j].value, max as nat));
    lemma_plain_text(value, MAX_DEPTH as nat, max);
    lemma_text_within(plan, wire, j, text);
    let i = choose|i: int|
        0 <= i < texts_within(plan, wire).len() && texts_within(plan, wire)[i] == text;
    assert(gives_back(texts_within(plan, wire)[i]));
    assert(read_text(text) == text_of_value(value));
}

/// The text of encoded arguments reads as the encoded arguments.
proof fn lemma_encoding_reads(
    canonical_schema: JsonView,
    wire_schema: JsonView,
    plan: ArgumentDecodePlanView,
    input: Seq<MemberView>,
    raw: Seq<char>,
    limits: ProviderToolSchemaLimitsView,
)
    requires
        is_encoding(canonical_schema, wire_schema, plan, input, raw, limits),
        gives_back(raw),
    ensures
        read_text(raw) == text_of_value(JsonView::Object(encoded_arguments(plan, input))),
        provider_text_fault(read_text(raw), limits.max_argument_bytes) is None,
{
    let encoded = JsonView::Object(encoded_arguments(plan, input));
    let depth = (MAX_DEPTH - 2) as nat;
    lemma_plain_arguments(plan, input, depth);
    lemma_readable_deeper(encoded, depth + 1, MAX_DEPTH as nat);
    lemma_plain_text(encoded, depth + 1, limits.max_argument_bytes);
}

/// Where the texts that were read give back what was written, decoding undoes encoding.
proof fn lemma_encoding_is_undone(
    canonical_schema: JsonView,
    wire_schema: JsonView,
    plan: ArgumentDecodePlanView,
    input: Seq<MemberView>,
    raw: Seq<char>,
    limits: ProviderToolSchemaLimitsView,
)
    requires
        is_encoding(canonical_schema, wire_schema, plan, input, raw, limits),
        gives_back(raw),
        reading_of(raw) is Document ==> texts_fit(
            reading_of(raw)->value,
            encode_utf8(raw).len(),
        ),
        forall|i: int|
            0 <= i < texts_within(plan, reading_of(raw)->value->Object_0).len() ==> gives_back(
                #[trigger] texts_within(plan, reading_of(raw)->value->Object_0)[i],
            ),
    ensures
        text_decode_fault(plan, raw, limits) is None,
        text_arguments(plan, raw) == input,
{
    let max = limits.max_argument_bytes;
    let wire = encoded_arguments(plan, input);
    let encoded = JsonView::Object(wire);
    let depth = (MAX_DEPTH - 2) as nat;
    lemma_encoding_reads(canonical_schema, wire_schema, plan, input, raw, limits);
    lemma_readable_deeper(JsonView::Object(input), depth, MAX_DEPTH as nat);
    lemma_texts_fit(encoded, encode_utf8(raw).len(), max as nat);
    match plan {
        ArgumentDecodePlanView::Identity => {},
        ArgumentDecodePlanView::JsonObjectText { wire_name } => {
            reveal_with_fuel(first_in, 2);
            assert(wire[0].key == wire_name);
            assert(value_of(wire, wire_name) == Some(wire[0].value));
            lemma_written_within(plan, wire, wire_name, JsonView::Object(input), max);
        },
        ArgumentDecodePlanView::Fields { fields } => {
            lemma_one_to_one(canonical_schema, wire_schema, fields);
            lemma_wire_members(fields, input);
            assert forall|k: int| #![trigger fields[k]] 0 <= k < fields.len() implies {
                let value = value_of(input, fields[k].canonical_name);
                &&& fields[k].encoding == (ArgumentValueEncodingView::JsonText { optional: true })
                    ==> text_reads_back(boxed(value), max)
                &&& fields[k].encoding == (ArgumentValueEncodingView::JsonText { optional: false })
                    && value is Some ==> text_reads_back(value->Some_0, max)
            } by {
                let value = value_of(input, fields[k].canonical_name);
                let name = fields[k].wire_name;
                lemma_found(fields, k);
                lemma_plain_value(input, fields[k].canonical_name, depth);
                lemma_plain_box(value, (depth - 1) as nat);
                lemma_readable_deeper(boxed(value), depth, MAX_DEPTH as nat);
                if value is Some {
                    lemma_readable_deeper(value->Some_0, (depth - 1) as nat, MAX_DEPTH as nat);
                }
                if fields[k].encoding == (ArgumentValueEncodingView::JsonText { optional: true }) {
                    lemma_written_within(plan, wire, name, boxed(value), max);
                } else if fields[k].encoding == (ArgumentValueEncodingView::JsonText {
                    optional: false,
                }) && value is Some {
                    lemma_written_within(plan, wire, name, value->Some_0, max);
                }
            }
        },
    }
    law_decoding_a_text_undoes_encoding(canonical_schema, wire_schema, plan, input, raw, limits);
}

} // verus!
