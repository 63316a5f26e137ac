//! Reading JSON texts: which texts are documents, what they hold, and how they are written.
use vstd::prelude::*;
use vstd::utf8::encode_utf8;

use crate::data::Data;
use crate::json::{array, object, Json, Member};
#[allow(unused_imports)]
use crate::json::{
    in_order, keys_ascend, lemma_array_view, lemma_object_view, JsonView, MemberView,
};
#[allow(unused_imports)]
use crate::text::{is_whole, precedes};
use crate::serialization::canonical_json;
#[allow(unused_imports)]
use crate::serialization::{
    canonical_text, json_literal, lemma_in_order_is_unambiguous, unambiguous,
};
use crate::text::{chars_of, reads};

verus! {

/// What a JSON reader made of a text.
#[derive(Debug)]
pub enum Reading {
    /// The text is no JSON document, or an object in it repeats a key.
    Malformed,
    /// The document: its values as the reader holds them, and the same document as it is written,
    /// with every number as its lexeme.
    Document {
        value: Json,
        written: Json,
    },
}

#[verifier::ext_equal]
pub enum ReadingView {
    Malformed,
    Document {
        value: JsonView,
        written: JsonView,
    },
}

impl View for Reading {
    type V = ReadingView;

    open spec fn view(&self) -> ReadingView {
        match self {
            Reading::Malformed => ReadingView::Malformed,
            Reading::Document { value, written } => ReadingView::Document { value: value.deep_view(), written: written.deep_view() },
        }
    }
}

impl DeepView for Reading {
    type V = ReadingView;

    open spec fn deep_view(&self) -> ReadingView {
        self@
    }
}

impl Data for Reading {
    fn same(&self, other: &Self) -> (r: bool) {
        match (self, other) {
            (Reading::Malformed, Reading::Malformed) => true,
            (Reading::Document { value: value1, written: written1 }, Reading::Document { value: value2, written: written2 }) => value1.same(value2) && written1.same(written2),
            _ => false,
        }
    }

    fn copy(&self) -> (r: Self) {
        match self {
            Reading::Malformed => Reading::Malformed,
            Reading::Document { value, written } => Reading::Document { value: value.copy(), written: written.copy() },
        }
    }
}

/// A text with what a JSON reader made of it.
#[derive(Debug)]
pub struct JsonText {
    pub text: String,
    pub reading: Reading,
}

#[verifier::ext_equal]
pub struct JsonTextView {
    pub text: Seq<char>,
    pub reading: ReadingView,
}

impl View for JsonText {
    type V = JsonTextView;

    open spec fn view(&self) -> JsonTextView {
        JsonTextView {
            text: self.text.deep_view(),
            reading: self.reading.deep_view(),
        }
    }
}

impl DeepView for JsonText {
    type V = JsonTextView;

    open spec fn deep_view(&self) -> JsonTextView {
        self@
    }
}

impl Data for JsonText {
    fn same(&self, other: &Self) -> (r: bool) {
        self.text.same(&other.text)
            && self.reading.same(&other.reading)
    }

    fn copy(&self) -> (r: Self) {
        JsonText {
            text: self.text.copy(),
            reading: self.reading.copy(),
        }
    }
}


/// A document that its own text gives back: the keys of every object are in order, every number is
/// an integer or is written as the reader holds it, and it has no more than `depth` levels.
pub open spec fn readable(json: JsonView, depth: nat) -> bool
    decreases json,
{
    match json {
        JsonView::Number(number) => depth > 0 && (is_whole(number) || number_text(number) == Some(
            number,
        )),
        JsonView::Array(items) => depth > 1 && forall|i: int|
            0 <= i < items.len() ==> readable(#[trigger] items[i], (depth - 1) as nat),
        JsonView::Object(members) => depth > 1 && keys_ascend(members) && forall|i: int|
            0 <= i < members.len() ==> readable((#[trigger] members[i]).value, (depth - 1) as nat),
        _ => depth > 0,
    }
}

/// A literal is written with a quotation mark first, and a number with a digit or a sign.
pub open spec fn opens(json: JsonView, text: Seq<char>) -> bool {
    match json {
        JsonView::Text(_) => text.len() > 0 && text[0] == '"',
        JsonView::Number(_) => text.len() > 0 && (text[0] == '-' || '0' <= text[0] <= '9'),
        _ => true,
    }
}

/// No text of the document takes more than `size` bytes.
pub open spec fn texts_fit(json: JsonView, size: nat) -> bool
    decreases json,
{
    match json {
        JsonView::Text(text) => encode_utf8(text).len() <= size,
        JsonView::Array(items) => forall|i: int|
            0 <= i < items.len() ==> texts_fit(#[trigger] items[i], size),
        JsonView::Object(members) => forall|i: int|
            0 <= i < members.len() ==> texts_fit((#[trigger] members[i]).value, size),
        _ => true,
    }
}

/// Texts that fit a size fit a larger one.
pub proof fn lemma_texts_fit(json: JsonView, size: nat, larger: nat)
    requires
        texts_fit(json, size),
        size <= larger,
    ensures
        texts_fit(json, larger),
    decreases json,
{
    match json {
        JsonView::Array(items) => {
            assert forall|i: int| 0 <= i < items.len() implies texts_fit(
                #[trigger] items[i],
                larger,
            ) by {
                lemma_texts_fit(items[i], size, larger);
            }
        },
        JsonView::Object(members) => {
            assert forall|i: int| 0 <= i < members.len() implies texts_fit(
                (#[trigger] members[i]).value,
                larger,
            ) by {
                lemma_texts_fit(members[i].value, size, larger);
            }
        },
        _ => {},
    }
}

/// Items as they are written.
pub open spec fn texts_of(items: Seq<JsonView>) -> Seq<Seq<char>> {
    Seq::new(items.len(), |i: int| canonical_text(items[i]))
}

/// Members with their values as they are written.
pub open spec fn pairs_of(members: Seq<MemberView>) -> Seq<(Seq<char>, Seq<char>)> {
    Seq::new(members.len(), |i: int| (members[i].key, canonical_text(members[i].value)))
}

/// The value of a text as it is written, without the white space around it, where `serde_json`
/// finds one.
pub uninterp spec fn raw_text(text: Seq<char>) -> Option<Seq<char>>;

/// Ask `serde_json::from_str` for a `serde_json::value::RawValue`. The contract names the raw text
/// and claims that it depends on the text alone and takes no more bytes, and that the text of a
/// readable document is found whole.
#[verifier::external_body]
fn raw_value(text: &str) -> (r: Option<String>)
    ensures
        r.deep_view() == raw_text(text@),
        r matches Some(raw) ==> encode_utf8(raw@).len() <= encode_utf8(text@).len(),
        forall|json: JsonView|
            #[trigger] readable(json, MAX_DEPTH as nat) && canonical_text(json) == text@
                ==> r.deep_view() == Some(text@) && opens(json, r->Some_0@),
{
    let raw: Option<Box<serde_json::value::RawValue>> = serde_json::from_str(text).ok();
    raw.map(|raw| raw.get().to_owned())
}

/// The members of an object text with their values as they are written, where `serde_json` reads an
/// object. Of members that share a key it keeps one.
pub uninterp spec fn raw_members(text: Seq<char>) -> Option<Seq<(Seq<char>, Seq<char>)>>;

/// Ask `serde_json::from_str` for a `BTreeMap` of `serde_json::value::RawValue`. The contract names
/// the members, claims that they depend on the text alone, and that a map gives them in the order of
/// their keys, no two of which are equal.
/// It claims that the text of a readable object gives its members back in the order of their keys,
/// one for each colon of the object itself, and that no value takes more bytes than the object.
#[verifier::external_body]
fn read_raw_members(text: &str) -> (r: Option<Vec<(String, String)>>)
    ensures
        r.deep_view() == raw_members(text@),
        r matches Some(members) ==> forall|i: int, j: int|
            #![trigger members@[i], members@[j]]
            0 <= i < j < members@.len() ==> precedes(members@[i].0@, members@[j].0@),
        r matches Some(members) ==> forall|i: int|
            0 <= i < members@.len() ==> encode_utf8((#[trigger] members@[i]).1@).len()
                <= encode_utf8(text@).len(),
        forall|json: JsonView, depth: nat|
            #[trigger] readable(json, depth) && depth <= MAX_DEPTH && json is Object
                && canonical_text(json) == text@ ==> {
                &&& r.deep_view() == Some(pairs_of(json->Object_0))
                &&& r->Some_0@.len() == scan_of(text@).members
                &&& forall|i: int|
                    0 <= i < r->Some_0@.len() ==> opens(
                        json->Object_0[i].value,
                        (#[trigger] r->Some_0@[i]).1@,
                    )
            },
{
    let members: Option<std::collections::BTreeMap<String, Box<serde_json::value::RawValue>>> =
        serde_json::from_str(text).ok();
    members.map(
        |members|
            members.into_iter().map(|(key, value)| (key, value.get().to_owned())).collect(),
    )
}

/// The items of an array text as they are written, where `serde_json` reads an array.
pub uninterp spec fn raw_items(text: Seq<char>) -> Option<Seq<Seq<char>>>;

/// Ask `serde_json::from_str` for a `Vec` of `serde_json::value::RawValue`. The contract names the
/// items, claims that they depend on the text alone, that none takes more bytes than the text, and
/// that the text of a readable array gives its items back.
#[verifier::external_body]
fn read_raw_items(text: &str) -> (r: Option<Vec<String>>)
    ensures
        r.deep_view() == raw_items(text@),
        r matches Some(items) ==> forall|i: int|
            0 <= i < items@.len() ==> encode_utf8((#[trigger] items@[i])@).len() <= encode_utf8(
                text@,
            ).len(),
        forall|json: JsonView, depth: nat|
            #[trigger] readable(json, depth) && depth <= MAX_DEPTH && json is Array
                && canonical_text(json) == text@ ==> {
                &&& r.deep_view() == Some(texts_of(json->Array_0))
                &&& forall|i: int|
                    0 <= i < r->Some_0@.len() ==> opens(
                        json->Array_0[i],
                        (#[trigger] r->Some_0@[i])@,
                    )
            },
{
    let items: Option<Vec<Box<serde_json::value::RawValue>>> = serde_json::from_str(text).ok();
    items.map(|items| items.into_iter().map(|item| item.get().to_owned()).collect())
}

/// The text that a string literal stands for, where `serde_json` reads one.
pub uninterp spec fn string_value(text: Seq<char>) -> Option<Seq<char>>;

/// Ask `serde_json::from_str` for a `String`. The contract names the text that the literal stands
/// for, claims that it depends on the literal alone and takes no more bytes, no escape being shorter
/// than what it stands for, and that a literal that `serde_json` wrote stands for the text that it
/// was written for.
#[verifier::external_body]
fn read_string(text: &str) -> (r: Option<String>)
    ensures
        r.deep_view() == string_value(text@),
        r matches Some(held) ==> encode_utf8(held@).len() <= encode_utf8(text@).len(),
        forall|s: Seq<char>| #[trigger] json_literal(s) == text@ ==> r.deep_view() == Some(s),
{
    serde_json::from_str::<String>(text).ok()
}

/// The number that `serde_json` holds for a lexeme, as it writes it, where it reads one.
pub uninterp spec fn number_text(text: Seq<char>) -> Option<Seq<char>>;

/// Ask `serde_json::from_str` for a `serde_json::Number` and write it. The contract names the
/// written number, claims that it depends on the lexeme alone, and that an integer of at most 64 bits
/// is written as it was read.
#[verifier::external_body]
fn read_number(text: &str) -> (r: Option<String>)
    ensures
        r.deep_view() == number_text(text@),
        is_whole(text@) ==> r.deep_view() == Some(text@),
{
    serde_json::from_str::<serde_json::Number>(text).ok().map(|number| number.to_string())
}

/// Where a scan of an object text stands.
#[verifier::ext_equal]
pub struct ScanView {
    /// Inside a string literal.
    pub in_text: bool,
    /// Behind a backslash.
    pub escaped: bool,
    /// How many objects and arrays are open.
    pub depth: nat,
    /// How many members of the outermost object were passed.
    pub members: nat,
}

/// Where a scan stands after one more character.
pub open spec fn scan_step(at: ScanView, c: char) -> ScanView {
    if at.escaped {
        ScanView { escaped: false, ..at }
    } else if at.in_text {
        ScanView { escaped: c == '\\', in_text: c != '"', ..at }
    } else if c == '"' {
        ScanView { in_text: true, ..at }
    } else if c == '{' || c == '[' {
        ScanView { depth: at.depth + 1, ..at }
    } else if c == '}' || c == ']' {
        ScanView {
            depth: if at.depth == 0 {
                0
            } else {
                (at.depth - 1) as nat
            },
            ..at
        }
    } else if c == ':' && at.depth == 1 {
        ScanView { members: at.members + 1, ..at }
    } else {
        at
    }
}

/// Where a scan stands at the end of a text.
pub open spec fn scan_of(text: Seq<char>) -> ScanView
    decreases text.len(),
{
    if text.len() == 0 {
        ScanView { in_text: false, escaped: false, depth: 0, members: 0 }
    } else {
        scan_step(scan_of(text.drop_last()), text.last())
    }
}

/// How many members an object text writes, repeated keys included: each has a colon of its own
/// outside of every literal and of every inner object.
pub fn member_count(text: &str) -> (r: usize)
    ensures
        r == scan_of(text@).members,
{
    let chars = chars_of(text);
    let mut in_text: bool = false;
    let mut escaped: bool = false;
    let mut depth: usize = 0;
    let mut members: usize = 0;
    let mut i: usize = 0;
    assert(text@.take(0) =~= Seq::<char>::empty());
    while i < chars.len()
        invariant
            i <= chars.len(),
            chars@ == text@,
            depth <= i,
            members <= i,
            scan_of(text@.take(i as int)) == (ScanView {
                in_text,
                escaped,
                depth: depth as nat,
                members: members as nat,
            }),
        decreases chars.len() - i,
    {
        let c = chars[i];
        assert(text@.take(i + 1).drop_last() =~= text@.take(i as int));
        assert(text@.take(i + 1).last() == c);
        if escaped {
            escaped = false;
        } else if in_text {
            escaped = c == '\\';
            in_text = c != '"';
        } else if c == '"' {
            in_text = true;
        } else if c == '{' || c == '[' {
            depth = depth + 1;
        } else if c == '}' || c == ']' {
            if depth > 0 {
                depth = depth - 1;
            }
        } else if c == ':' && depth == 1 {
            members = members + 1;
        }
        i = i + 1;
    }
    assert(text@.take(i as int) =~= text@);
    members
}

/// How many levels a document may have, the values that hold no others included. `serde_json` refuses
/// a document of more levels.
pub const MAX_DEPTH: usize = 128;

/// The document that a raw text writes, where no object repeats a key: with its numbers as they are
/// written, or as the reader holds them.
pub open spec fn document_of(raw: Seq<char>, written: bool, depth: nat) -> Option<JsonView>
    decreases depth, 0nat,
{
    if depth == 0 || raw.len() == 0 {
        None
    } else if depth == 1 && (raw[0] == '{' || raw[0] == '[') {
        None
    } else if raw[0] == '{' {
        match raw_members(raw) {
            Some(members) => if scan_of(raw).members != members.len() {
                None
            } else {
                match members_of(members, written, (depth - 1) as nat) {
                    Some(members) => Some(JsonView::Object(members)),
                    None => None,
                }
            },
            None => None,
        }
    } else if raw[0] == '[' {
        match raw_items(raw) {
            Some(items) => match items_of(items, written, (depth - 1) as nat) {
                Some(items) => Some(JsonView::Array(items)),
                None => None,
            },
            None => None,
        }
    } else if raw[0] == '"' {
        match string_value(raw) {
            Some(text) => Some(JsonView::Text(text)),
            None => None,
        }
    } else if raw == "true"@ {
        Some(JsonView::Bool(true))
    } else if raw == "false"@ {
        Some(JsonView::Bool(false))
    } else if raw == "null"@ {
        Some(JsonView::Null)
    } else {
        match number_text(raw) {
            Some(number) => Some(
                JsonView::Number(
                    if written {
                        raw
                    } else {
                        number
                    },
                ),
            ),
            None => None,
        }
    }
}

/// The members that raw members write.
pub open spec fn members_of(
    members: Seq<(Seq<char>, Seq<char>)>,
    written: bool,
    depth: nat,
) -> Option<Seq<MemberView>>
    decreases depth, members.len(),
{
    if members.len() == 0 {
        Some(Seq::empty())
    } else {
        match (
            members_of(members.drop_last(), written, depth),
            document_of(members.last().1, written, depth),
        ) {
            (Some(front), Some(value)) => Some(
                front.push(MemberView { key: members.last().0, value }),
            ),
            _ => None,
        }
    }
}

/// The items that raw items write.
pub open spec fn items_of(items: Seq<Seq<char>>, written: bool, depth: nat) -> Option<Seq<JsonView>>
    decreases depth, items.len(),
{
    if items.len() == 0 {
        Some(Seq::empty())
    } else {
        match (
            items_of(items.drop_last(), written, depth),
            document_of(items.last(), written, depth),
        ) {
            (Some(front), Some(value)) => Some(front.push(value)),
            _ => None,
        }
    }
}

proof fn lemma_members_prefix(
    members: Seq<(Seq<char>, Seq<char>)>,
    written: bool,
    depth: nat,
    i: int,
)
    requires
        0 <= i <= members.len(),
        members_of(members.take(i), written, depth) is None,
    ensures
        members_of(members, written, depth) is None,
    decreases members.len() - i,
{
    if i < members.len() {
        assert(members.take(i + 1).drop_last() =~= members.take(i));
        lemma_members_prefix(members, written, depth, i + 1);
    } else {
        assert(members.take(i) =~= members);
    }
}

proof fn lemma_items_prefix(items: Seq<Seq<char>>, written: bool, depth: nat, i: int)
    requires
        0 <= i <= items.len(),
        items_of(items.take(i), written, depth) is None,
    ensures
        items_of(items, written, depth) is None,
    decreases items.len() - i,
{
    if i < items.len() {
        assert(items.take(i + 1).drop_last() =~= items.take(i));
        lemma_items_prefix(items, written, depth, i + 1);
    } else {
        assert(items.take(i) =~= items);
    }
}

fn read_members(members: &Vec<(String, String)>, written: bool, depth: usize) -> (r: Option<
    Vec<Member>,
>)
    ensures
        r.deep_view() == members_of(members.deep_view(), written, depth as nat),
        r matches Some(out) ==> {
            &&& out@.len() == members@.len()
            &&& forall|i: int|
                0 <= i < out@.len() ==> (#[trigger] out@[i])@.key == members@[i].0@ && in_order(
                    out@[i]@.value,
                ) && texts_fit(out@[i]@.value, encode_utf8(members@[i].1@).len())
        },
        forall|held: Seq<MemberView>|
            #[trigger] pairs_of(held) == members.deep_view() && depth < MAX_DEPTH
                && members_open(held, depth as nat) ==> r.deep_view() == Some(held),
    decreases depth, 1nat,
{
    let ghost s = members.deep_view();
    let mut out: Vec<Member> = Vec::new();
    let mut i: usize = 0;
    assert(s.take(0) =~= Seq::<(Seq<char>, Seq<char>)>::empty());
    assert(out.deep_view() =~= Seq::<MemberView>::empty());
    while i < members.len()
        invariant
            i <= members.len(),
            s == members.deep_view(),
            out.len() == i,
            members_of(s.take(i as int), written, depth as nat) == Some(out.deep_view()),
            forall|j: int|
                0 <= j < out@.len() ==> (#[trigger] out@[j])@.key == members@[j].0@ && in_order(
                    out@[j]@.value,
                ) && texts_fit(out@[j]@.value, encode_utf8(members@[j].1@).len()),
            forall|held: Seq<MemberView>|
                #[trigger] pairs_of(held) == s && depth < MAX_DEPTH && members_open(
                    held,
                    depth as nat,
                ) ==> out.deep_view() == held.take(i as int),
        decreases members.len() - i,
    {
        assert(s.take(i + 1).drop_last() =~= s.take(i as int));
        assert(s.take(i + 1).last() == s[i as int]);
        assert(s[i as int] == (members@[i as int].0@, members@[i as int].1@));
        match read_value(&members[i].1, written, depth) {
            Some(value) => {
                let ghost before = out.deep_view();
                let member = Member { key: members[i].0.copy(), value };
                out.push(member);
                assert(out.deep_view() =~= before.push(member@));
                assert forall|held: Seq<MemberView>|
                    #[trigger] pairs_of(held) == s && depth < MAX_DEPTH && members_open(
                        held,
                        depth as nat,
                    ) implies out.deep_view() == held.take(i + 1) by {
                    assert(pairs_of(held)[i as int] == s[i as int]);
                    assert(readable(held[i as int].value, depth as nat));
                    assert(value@ == held[i as int].value);
                    assert(member@ == held[i as int]);
                    assert(held.take(i + 1) =~= held.take(i as int).push(held[i as int]));
                }
            },
            None => {
                assert forall|held: Seq<MemberView>|
                    #[trigger] pairs_of(held) == s && depth < MAX_DEPTH && members_open(
                        held,
                        depth as nat,
                    ) implies false by {
                    assert(pairs_of(held)[i as int] == s[i as int]);
                    assert(readable(held[i as int].value, depth as nat));
                }
                proof {
                    lemma_members_prefix(s, written, depth as nat, i + 1);
                }
                return None;
            },
        }
        i = i + 1;
    }
    assert(s.take(i as int) =~= s);
    assert forall|held: Seq<MemberView>|
        #[trigger] pairs_of(held) == s && depth < MAX_DEPTH && members_open(
            held,
            depth as nat,
        ) implies out.deep_view() == held by {
        assert(held.take(i as int) =~= held);
    }
    Some(out)
}

fn read_items(items: &Vec<String>, written: bool, depth: usize) -> (r: Option<Vec<Json>>)
    ensures
        r.deep_view() == items_of(items.deep_view(), written, depth as nat),
        r matches Some(out) ==> out@.len() == items@.len() && forall|i: int|
            0 <= i < out@.len() ==> in_order((#[trigger] out@[i])@) && texts_fit(
                out@[i]@,
                encode_utf8(items@[i]@).len(),
            ),
        forall|held: Seq<JsonView>|
            #[trigger] texts_of(held) == items.deep_view() && depth < MAX_DEPTH && items_open(
                held,
                depth as nat,
            ) ==> r.deep_view() == Some(held),
    decreases depth, 1nat,
{
    let ghost s = items.deep_view();
    let mut out: Vec<Json> = Vec::new();
    let mut i: usize = 0;
    assert(s.take(0) =~= Seq::<Seq<char>>::empty());
    assert(out.deep_view() =~= Seq::<JsonView>::empty());
    while i < items.len()
        invariant
            i <= items.len(),
            s == items.deep_view(),
            items_of(s.take(i as int), written, depth as nat) == Some(out.deep_view()),
            out@.len() == i,
            forall|j: int|
                0 <= j < out@.len() ==> in_order((#[trigger] out@[j])@) && texts_fit(
                    out@[j]@,
                    encode_utf8(items@[j]@).len(),
                ),
            forall|held: Seq<JsonView>|
                #[trigger] texts_of(held) == s && depth < MAX_DEPTH && items_open(
                    held,
                    depth as nat,
                ) ==> out.deep_view() == held.take(i as int),
        decreases items.len() - i,
    {
        assert(s.take(i + 1).drop_last() =~= s.take(i as int));
        assert(s.take(i + 1).last() == items@[i as int]@);
        match read_value(&items[i], written, depth) {
            Some(value) => {
                let ghost before = out.deep_view();
                out.push(value);
                assert(out.deep_view() =~= before.push(value@));
                assert forall|held: Seq<JsonView>|
                    #[trigger] texts_of(held) == s && depth < MAX_DEPTH && items_open(
                        held,
                        depth as nat,
                    ) implies out.deep_view() == held.take(i + 1) by {
                    assert(texts_of(held)[i as int] == s[i as int]);
                    assert(readable(held[i as int], depth as nat));
                    assert(value@ == held[i as int]);
                    assert(held.take(i + 1) =~= held.take(i as int).push(held[i as int]));
                }
            },
            None => {
                assert forall|held: Seq<JsonView>|
                    #[trigger] texts_of(held) == s && depth < MAX_DEPTH && items_open(
                        held,
                        depth as nat,
                    ) implies false by {
                    assert(texts_of(held)[i as int] == s[i as int]);
                    assert(readable(held[i as int], depth as nat));
                }
                proof {
                    lemma_items_prefix(s, written, depth as nat, i + 1);
                }
                return None;
            },
        }
        i = i + 1;
    }
    assert(s.take(i as int) =~= s);
    assert forall|held: Seq<JsonView>|
        #[trigger] texts_of(held) == s && depth < MAX_DEPTH && items_open(
            held,
            depth as nat,
        ) implies out.deep_view() == held by {
        assert(held.take(i as int) =~= held);
    }
    Some(out)
}

/// Readable members whose texts open as their values do.
spec fn members_open(held: Seq<MemberView>, depth: nat) -> bool {
    forall|i: int|
        0 <= i < held.len() ==> readable((#[trigger] held[i]).value, depth) && opens(
            held[i].value,
            canonical_text(held[i].value),
        )
}

/// Readable items whose texts open as they do.
spec fn items_open(held: Seq<JsonView>, depth: nat) -> bool {
    forall|i: int| 0 <= i < held.len() ==> readable(#[trigger] held[i], depth) && opens(
            held[i],
            canonical_text(held[i]),
        )
}

/// What the first character of a text says of the document.
spec fn opened_as(json: JsonView, raw: Seq<char>) -> bool {
    &&& raw.len() > 0
    &&& (raw[0] == '{') == (json is Object)
    &&& (raw[0] == '[') == (json is Array)
    &&& (raw[0] == '"') == (json is Text)
    &&& json is Number ==> json == JsonView::Number(raw) && raw != "true"@ && raw != "false"@ && raw
        != "null"@
    &&& json is Bool ==> raw == (if json->Bool_0 {
        "true"@
    } else {
        "false"@
    }) && "true"@ != "false"@
    &&& json is Null ==> raw == "null"@ && "true"@ != "null"@ && "false"@ != "null"@
}

proof fn lemma_opened_as(json: JsonView)
    requires
        opens(json, canonical_text(json)),
    ensures
        opened_as(json, canonical_text(json)),
{
    reveal_strlit("{");
    reveal_strlit("[");
    reveal_strlit("true");
    reveal_strlit("false");
    reveal_strlit("null");
    assert("true"@[0] == 't' && "false"@[0] == 'f' && "null"@[0] == 'n');
}

fn read_value(raw: &String, written: bool, depth: usize) -> (r: Option<Json>)
    ensures
        r.deep_view() == document_of(raw@, written, depth as nat),
        r matches Some(document) ==> in_order(document@) && texts_fit(
            document@,
            encode_utf8(raw@).len(),
        ),
        forall|json: JsonView|
            #[trigger] readable(json, depth as nat) && depth <= MAX_DEPTH && canonical_text(json)
                == raw@ && opens(json, raw@) ==> r.deep_view() == Some(json),
    decreases depth, 0nat,
{
    assert forall|json: JsonView|
        #[trigger] readable(json, depth as nat) && canonical_text(json) == raw@ && opens(
            json,
            raw@,
        ) implies opened_as(json, raw@) by {
        lemma_opened_as(json);
    }
    let chars = chars_of(raw.as_str());
    if depth == 0 || chars.len() == 0 {
        return None;
    }
    if depth == 1 && (chars[0] == '{' || chars[0] == '[') {
        return None;
    }
    if chars[0] == '{' {
        let members = match read_raw_members(raw.as_str()) {
            Some(members) => members,
            None => {
                return None;
            },
        };
        assert(members.deep_view().len() == members.len());
        assert forall|json: JsonView|
            #[trigger] readable(json, depth as nat) && depth <= MAX_DEPTH && canonical_text(json)
                == raw@ && opens(json, raw@) implies pairs_of(json->Object_0) == members.deep_view()
            && members_open(json->Object_0, (depth - 1) as nat) && json == JsonView::Object(
            json->Object_0,
        ) by {
            let held = json->Object_0;
            assert forall|i: int| 0 <= i < held.len() implies readable(
                (#[trigger] held[i]).value,
                (depth - 1) as nat,
            ) && opens(held[i].value, canonical_text(held[i].value)) by {
                assert(pairs_of(held)[i] == members.deep_view()[i]);
                assert(members.deep_view()[i] == (members@[i].0@, members@[i].1@));
            }
        }
        if member_count(raw.as_str()) != members.len() {
            return None;
        }
        match read_members(&members, written, depth - 1) {
            Some(out) => {
                let document = object(out);
                assert(in_order(document@));
                proof {
                    let held = document@->Object_0;
                    let size = encode_utf8(raw@).len();
                    assert forall|i: int| 0 <= i < held.len() implies texts_fit(
                        (#[trigger] held[i]).value,
                        size,
                    ) by {
                        assert(held[i] == out@[i]@);
                        lemma_texts_fit(held[i].value, encode_utf8(members@[i].1@).len(), size);
                    }
                }
                Some(document)
            },
            None => None,
        }
    } else if chars[0] == '[' {
        match read_raw_items(raw.as_str()) {
            Some(items) => {
                assert forall|json: JsonView|
                    #[trigger] readable(json, depth as nat) && depth <= MAX_DEPTH
                        && canonical_text(json) == raw@ && opens(json, raw@) implies texts_of(
                    json->Array_0,
                ) == items.deep_view() && items_open(json->Array_0, (depth - 1) as nat) && json
                    == JsonView::Array(json->Array_0) by {
                    let held = json->Array_0;
                    assert forall|i: int| 0 <= i < held.len() implies readable(
                        #[trigger] held[i],
                        (depth - 1) as nat,
                    ) && opens(held[i], canonical_text(held[i])) by {
                        assert(texts_of(held)[i] == items.deep_view()[i]);
                        assert(items.deep_view()[i] == items@[i]@);
                    }
                }
                match read_items(&items, written, depth - 1) {
                    Some(out) => {
                        let document = array(out);
                        assert(in_order(document@));
                        proof {
                            let held = document@->Array_0;
                            let size = encode_utf8(raw@).len();
                            assert forall|i: int| 0 <= i < held.len() implies texts_fit(
                                #[trigger] held[i],
                                size,
                            ) by {
                                assert(held[i] == out@[i]@);
                                lemma_texts_fit(held[i], encode_utf8(items@[i]@).len(), size);
                            }
                        }
                        Some(document)
                    },
                    None => None,
                }
            },
            None => None,
        }
    } else if chars[0] == '"' {
        match read_string(raw.as_str()) {
            Some(text) => Some(Json::Text(text)),
            None => None,
        }
    } else if reads(raw, "true") {
        Some(Json::Bool(true))
    } else if reads(raw, "false") {
        Some(Json::Bool(false))
    } else if reads(raw, "null") {
        Some(Json::Null)
    } else {
        match read_number(raw.as_str()) {
            Some(number) => if written {
                Some(Json::Number(raw.copy()))
            } else {
                Some(Json::Number(number))
            },
            None => None,
        }
    }
}

/// A document with its numbers as the reader holds them, where each of them is one.
pub open spec fn valued(json: JsonView) -> Option<JsonView>
    decreases json,
{
    match json {
        JsonView::Number(lexeme) => match number_text(lexeme) {
            Some(number) => Some(JsonView::Number(number)),
            None => None,
        },
        JsonView::Array(items) => match valued_items(items) {
            Some(items) => Some(JsonView::Array(items)),
            None => None,
        },
        JsonView::Object(members) => match valued_members(members) {
            Some(members) => Some(JsonView::Object(members)),
            None => None,
        },
        _ => Some(json),
    }
}

/// Documents with their numbers as the reader holds them.
pub open spec fn valued_items(items: Seq<JsonView>) -> Option<Seq<JsonView>>
    decreases items,
{
    if items.len() == 0 {
        Some(Seq::empty())
    } else {
        match (valued_items(items.drop_last()), valued(items.last())) {
            (Some(front), Some(value)) => Some(front.push(value)),
            _ => None,
        }
    }
}

/// Members with the numbers of their values as the reader holds them.
pub open spec fn valued_members(members: Seq<MemberView>) -> Option<Seq<MemberView>>
    decreases members,
{
    if members.len() == 0 {
        Some(Seq::empty())
    } else {
        match (valued_members(members.drop_last()), valued(members.last().value)) {
            (Some(front), Some(value)) => Some(
                front.push(MemberView { key: members.last().key, value }),
            ),
            _ => None,
        }
    }
}

proof fn lemma_valued_items_prefix(items: Seq<JsonView>, i: int)
    requires
        0 <= i <= items.len(),
        valued_items(items.take(i)) is None,
    ensures
        valued_items(items) is None,
    decreases items.len() - i,
{
    if i < items.len() {
        assert(items.take(i + 1).drop_last() =~= items.take(i));
        lemma_valued_items_prefix(items, i + 1);
    } else {
        assert(items.take(i) =~= items);
    }
}

proof fn lemma_valued_members_prefix(members: Seq<MemberView>, i: int)
    requires
        0 <= i <= members.len(),
        valued_members(members.take(i)) is None,
    ensures
        valued_members(members) is None,
    decreases members.len() - i,
{
    if i < members.len() {
        assert(members.take(i + 1).drop_last() =~= members.take(i));
        lemma_valued_members_prefix(members, i + 1);
    } else {
        assert(members.take(i) =~= members);
    }
}

/// Put the number that the reader holds in the place of every lexeme.
pub fn hold_values(json: &Json) -> (r: Option<Json>)
    ensures
        r.deep_view() == valued(json@),
    decreases *json,
{
    match json {
        Json::Number(lexeme) => match read_number(lexeme.as_str()) {
            Some(number) => Some(Json::Number(number)),
            None => None,
        },
        Json::Array(items) => {
            let ghost s = items.deep_view();
            proof {
                lemma_array_view(*items);
            }
            let mut out: Vec<Json> = Vec::new();
            let mut i: usize = 0;
            assert(s.take(0) =~= Seq::<JsonView>::empty());
            assert(out.deep_view() =~= Seq::<JsonView>::empty());
            while i < items.len()
                invariant
                    i <= items.len(),
                    *json == Json::Array(*items),
                    json@ == JsonView::Array(s),
                    s == items.deep_view(),
                    valued_items(s.take(i as int)) == Some(out.deep_view()),
                decreases items.len() - i,
            {
                assert(decreases_to!(*json => json->Array_0));
                assert(decreases_to!(*items => items@));
                assert(decreases_to!(items@ => items@[i as int]));
                assert(s.take(i + 1).drop_last() =~= s.take(i as int));
                assert(s.take(i + 1).last() == items@[i as int]@);
                match hold_values(&items[i]) {
                    Some(value) => {
                        let ghost before = out.deep_view();
                        out.push(value);
                        assert(out.deep_view() =~= before.push(value@));
                    },
                    None => {
                        proof {
                            lemma_valued_items_prefix(s, i + 1);
                        }
                        return None;
                    },
                }
                i = i + 1;
            }
            assert(s.take(i as int) =~= s);
            Some(array(out))
        },
        Json::Object(members) => {
            let ghost s = members.deep_view();
            proof {
                lemma_object_view(*members);
            }
            let mut out: Vec<Member> = Vec::new();
            let mut i: usize = 0;
            assert(s.take(0) =~= Seq::<MemberView>::empty());
            assert(out.deep_view() =~= Seq::<MemberView>::empty());
            while i < members.len()
                invariant
                    i <= members.len(),
                    *json == Json::Object(*members),
                    json@ == JsonView::Object(s),
                    s == members.deep_view(),
                    valued_members(s.take(i as int)) == Some(out.deep_view()),
                decreases members.len() - i,
            {
                assert(decreases_to!(*json => json->Object_0));
                assert(decreases_to!(*members => members@));
                assert(decreases_to!(members@ => members@[i as int]));
                assert(decreases_to!(members@[i as int] => members@[i as int].value));
                assert(s.take(i + 1).drop_last() =~= s.take(i as int));
                assert(s.take(i + 1).last() == members@[i as int]@);
                match hold_values(&members[i].value) {
                    Some(value) => {
                        let ghost before = out.deep_view();
                        let member = Member { key: members[i].key.copy(), value };
                        out.push(member);
                        assert(out.deep_view() =~= before.push(member@));
                    },
                    None => {
                        proof {
                            lemma_valued_members_prefix(s, i + 1);
                        }
                        return None;
                    },
                }
                i = i + 1;
            }
            assert(s.take(i as int) =~= s);
            Some(object(out))
        },
        _ => Some(json.copy()),
    }
}

/// What a document is read as follows from what is written of it: each number by itself.
pub proof fn law_values_follow_what_is_written(raw: Seq<char>, depth: nat)
    ensures
        document_of(raw, false, depth) == (match document_of(raw, true, depth) {
            Some(written) => valued(written),
            None => None,
        }),
    decreases depth, 0nat,
{
    if depth > 0 && raw.len() > 0 {
        if raw[0] == '{' {
            if raw_members(raw) is Some && depth > 1 {
                lemma_valued_members(raw_members(raw)->Some_0, (depth - 1) as nat);
            }
        } else if raw[0] == '[' {
            if raw_items(raw) is Some && depth > 1 {
                lemma_valued_items(raw_items(raw)->Some_0, (depth - 1) as nat);
            }
        }
    }
}

proof fn lemma_valued_members(members: Seq<(Seq<char>, Seq<char>)>, depth: nat)
    ensures
        members_of(members, false, depth) == (match members_of(members, true, depth) {
            Some(written) => valued_members(written),
            None => None,
        }),
    decreases depth, members.len() + 1,
{
    if members.len() > 0 {
        lemma_valued_members(members.drop_last(), depth);
        law_values_follow_what_is_written(members.last().1, depth);
        if members_of(members.drop_last(), true, depth) is Some && document_of(
            members.last().1,
            true,
            depth,
        ) is Some {
            let written = members_of(members, true, depth)->Some_0;
            assert(written.drop_last() =~= members_of(
                members.drop_last(),
                true,
                depth,
            )->Some_0);
        }
    }
}

proof fn lemma_valued_items(items: Seq<Seq<char>>, depth: nat)
    ensures
        items_of(items, false, depth) == (match items_of(items, true, depth) {
            Some(written) => valued_items(written),
            None => None,
        }),
    decreases depth, items.len() + 1,
{
    if items.len() > 0 {
        lemma_valued_items(items.drop_last(), depth);
        law_values_follow_what_is_written(items.last(), depth);
        if items_of(items.drop_last(), true, depth) is Some && document_of(
            items.last(),
            true,
            depth,
        ) is Some {
            let written = items_of(items, true, depth)->Some_0;
            assert(written.drop_last() =~= items_of(items.drop_last(), true, depth)->Some_0);
        }
    }
}

/// The document that a text holds, where no object repeats a key: with its numbers as they are
/// written, or as the reader holds them.
pub open spec fn document_in(text: Seq<char>, written: bool) -> Option<JsonView> {
    match raw_text(text) {
        Some(raw) => document_of(raw, written, MAX_DEPTH as nat),
        None => None,
    }
}

/// Read the document of a text, rejecting repeated keys: with its numbers as they are written, or
/// as the reader holds them. The keys of every object come in order.
pub fn read_document(text: &str, written: bool) -> (r: Option<Json>)
    ensures
        r.deep_view() == document_in(text@, written),
        r matches Some(document) ==> in_order(document@) && unambiguous(document@) && texts_fit(
            document@,
            encode_utf8(text@).len(),
        ),
        forall|json: JsonView|
            #[trigger] readable(json, MAX_DEPTH as nat) && canonical_text(json) == text@
                ==> r.deep_view() == Some(json),
{
    match raw_value(text) {
        Some(raw) => {
            assert(raw_text(text@) == Some(raw@));
            let document = read_value(&raw, written, MAX_DEPTH);
            proof {
                if document is Some {
                    lemma_in_order_is_unambiguous(document->Some_0@);
                    lemma_texts_fit(
                        document->Some_0@,
                        encode_utf8(raw@).len(),
                        encode_utf8(text@).len(),
                    );
                }
            }
            document
        },
        None => None,
    }
}

/// What a text reads as.
pub open spec fn reading_of(text: Seq<char>) -> ReadingView {
    match (document_in(text, false), document_in(text, true)) {
        (Some(value), Some(written)) => ReadingView::Document { value, written },
        _ => ReadingView::Malformed,
    }
}

/// A text with what it reads as.
pub open spec fn read_text(text: Seq<char>) -> JsonTextView {
    JsonTextView { text, reading: reading_of(text) }
}

/// The text of a document, read back.
pub open spec fn text_of_value(value: JsonView) -> JsonTextView {
    JsonTextView {
        text: canonical_text(value),
        reading: ReadingView::Document { value, written: value },
    }
}

impl JsonText {
    /// Read a text. The text of a readable document gives the document back.
    pub fn read(text: &str) -> (r: Self)
        ensures
            r@ == read_text(text@),
            forall|json: JsonView|
                #[trigger] readable(json, MAX_DEPTH as nat) && canonical_text(json) == text@
                    ==> r@ == text_of_value(json),
            r@.reading is Document ==> texts_fit(
                r@.reading->value,
                encode_utf8(text@).len(),
            ),
    {
        let reading = match (read_document(text, false), read_document(text, true)) {
            (Some(value), Some(written)) => Reading::Document { value, written },
            _ => Reading::Malformed,
        };
        JsonText { text: text.to_owned(), reading }
    }

    /// The text of a document that is already held.
    pub fn of_value(value: &Json) -> (r: Self)
        ensures
            r@ == text_of_value(value@),
    {
        JsonText {
            text: canonical_json(value),
            reading: Reading::Document { value: value.copy(), written: value.copy() },
        }
    }

    /// Whether the text takes more than `limit` bytes.
    pub fn is_longer_than(&self, limit: usize) -> (r: bool)
        ensures
            r == (encode_utf8(self@.text).len() > limit),
    {
        let bytes = self.text.as_str().as_bytes();
        bytes.len() > limit
    }
}

} // verus!
