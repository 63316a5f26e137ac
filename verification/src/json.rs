//! JSON documents as plain data.
use vstd::prelude::*;

use crate::data::{find, Data};
#[allow(unused_imports)]
use crate::data::first_in;
use crate::text::comes_before;
#[allow(unused_imports)]
use crate::text::precedes;

verus! {

/// A JSON document. Numbers keep their lexeme; object members keep their order.
#[derive(Debug)]
pub enum Json {
    Null,
    Bool(bool),
    Number(String),
    Text(String),
    Array(Vec<Json>),
    Object(Vec<Member>),
}

/// One member of a JSON object.
#[derive(Debug)]
pub struct Member {
    pub key: String,
    pub value: Json,
}

/// Mathematical JSON document.
#[verifier::ext_equal]
pub enum JsonView {
    Null,
    Bool(bool),
    Number(Seq<char>),
    Text(Seq<char>),
    Array(Seq<JsonView>),
    Object(Seq<MemberView>),
}

#[verifier::ext_equal]
pub struct MemberView {
    pub key: Seq<char>,
    pub value: JsonView,
}

pub open spec fn json_view(json: Json) -> JsonView
    decreases json,
{
    match json {
        Json::Null => JsonView::Null,
        Json::Bool(b) => JsonView::Bool(b),
        Json::Number(text) => JsonView::Number(text@),
        Json::Text(text) => JsonView::Text(text@),
        Json::Array(items) => JsonView::Array(
            Seq::new(
                items@.len(),
                |i: int|
                    if 0 <= i < items@.len() {
                        json_view(items@[i])
                    } else {
                        JsonView::Null
                    },
            ),
        ),
        Json::Object(members) => JsonView::Object(
            Seq::new(
                members@.len(),
                |i: int|
                    if 0 <= i < members@.len() {
                        MemberView { key: members@[i].key@, value: json_view(members@[i].value) }
                    } else {
                        MemberView { key: Seq::empty(), value: JsonView::Null }
                    },
            ),
        ),
    }
}

impl View for Json {
    type V = JsonView;

    open spec fn view(&self) -> JsonView {
        json_view(*self)
    }
}

impl DeepView for Json {
    type V = JsonView;

    open spec fn deep_view(&self) -> JsonView {
        json_view(*self)
    }
}

impl View for Member {
    type V = MemberView;

    open spec fn view(&self) -> MemberView {
        MemberView { key: self.key@, value: self.value@ }
    }
}

impl DeepView for Member {
    type V = MemberView;

    open spec fn deep_view(&self) -> MemberView {
        self@
    }
}

/// The items of an array document are the views of its elements.
pub broadcast proof fn lemma_array_view(items: Vec<Json>)
    ensures
        #[trigger] json_view(Json::Array(items)) == JsonView::Array(items.deep_view()),
{
    assert(json_view(Json::Array(items))->Array_0 =~= items.deep_view());
}

/// The members of an object document are the views of its members.
pub broadcast proof fn lemma_object_view(members: Vec<Member>)
    ensures
        #[trigger] json_view(Json::Object(members)) == JsonView::Object(members.deep_view()),
{
    assert(json_view(Json::Object(members))->Object_0 =~= members.deep_view());
}

fn same_json(a: &Json, b: &Json) -> (r: bool)
    ensures
        r == (a@ == b@),
    decreases *a,
{
    match (a, b) {
        (Json::Null, Json::Null) => true,
        (Json::Bool(x), Json::Bool(y)) => *x == *y,
        (Json::Number(x), Json::Number(y)) => x.same(y),
        (Json::Text(x), Json::Text(y)) => x.same(y),
        (Json::Array(x), Json::Array(y)) => {
            if x.len() != y.len() {
                assert(a@->Array_0.len() != b@->Array_0.len());
                return false;
            }
            let mut i: usize = 0;
            while i < x.len()
                invariant
                    i <= x.len(),
                    x.len() == y.len(),
                    *a == Json::Array(*x),
                    *b == Json::Array(*y),
                    forall|j: int| 0 <= j < i ==> a@->Array_0[j] == b@->Array_0[j],
                decreases x.len() - i,
            {
                if !same_json(&x[i], &y[i]) {
                    assert(a@->Array_0[i as int] != b@->Array_0[i as int]);
                    return false;
                }
                i = i + 1;
            }
            assert(a@->Array_0 =~= b@->Array_0);
            true
        },
        (Json::Object(x), Json::Object(y)) => {
            if x.len() != y.len() {
                assert(a@->Object_0.len() != b@->Object_0.len());
                return false;
            }
            let mut i: usize = 0;
            while i < x.len()
                invariant
                    i <= x.len(),
                    x.len() == y.len(),
                    *a == Json::Object(*x),
                    *b == Json::Object(*y),
                    forall|j: int| 0 <= j < i ==> a@->Object_0[j] == b@->Object_0[j],
                decreases x.len() - i,
            {
                if !x[i].key.same(&y[i].key) || !same_json(&x[i].value, &y[i].value) {
                    assert(a@->Object_0[i as int] != b@->Object_0[i as int]);
                    return false;
                }
                i = i + 1;
            }
            assert(a@->Object_0 =~= b@->Object_0);
            true
        },
        _ => false,
    }
}

fn copy_json(a: &Json) -> (r: Json)
    ensures
        r@ == a@,
    decreases *a,
{
    match a {
        Json::Null => Json::Null,
        Json::Bool(x) => Json::Bool(*x),
        Json::Number(x) => Json::Number(x.copy()),
        Json::Text(x) => Json::Text(x.copy()),
        Json::Array(x) => {
            let mut out: Vec<Json> = Vec::new();
            let mut i: usize = 0;
            while i < x.len()
                invariant
                    i <= x.len(),
                    out.len() == i,
                    *a == Json::Array(*x),
                    forall|j: int| 0 <= j < i ==> out@[j]@ == x@[j]@,
                decreases x.len() - i,
            {
                assert(decreases_to!(*a => a->Array_0));
                assert(decreases_to!(*x => x@));
                assert(decreases_to!(x@ => x@[i as int]));
                out.push(copy_json(&x[i]));
                i = i + 1;
            }
            let r = Json::Array(out);
            assert(r@->Array_0 =~= a@->Array_0);
            r
        },
        Json::Object(x) => {
            let mut out: Vec<Member> = Vec::new();
            let mut i: usize = 0;
            while i < x.len()
                invariant
                    i <= x.len(),
                    out.len() == i,
                    *a == Json::Object(*x),
                    forall|j: int| 0 <= j < i ==> out@[j]@ == x@[j]@,
                decreases x.len() - i,
            {
                assert(decreases_to!(*a => a->Object_0));
                assert(decreases_to!(*x => x@));
                assert(decreases_to!(x@ => x@[i as int]));
                assert(decreases_to!(x@[i as int] => x@[i as int].value));
                out.push(Member { key: x[i].key.copy(), value: copy_json(&x[i].value) });
                i = i + 1;
            }
            let r = Json::Object(out);
            assert forall|j: int| 0 <= j < x.len() implies r@->Object_0[j] == a@->Object_0[j] by {
                assert(out@[j]@ == x@[j]@);
            }
            assert(r@->Object_0 =~= a@->Object_0);
            r
        },
    }
}

impl Data for Json {
    fn same(&self, other: &Self) -> (r: bool) {
        same_json(self, other)
    }

    fn copy(&self) -> (r: Self) {
        copy_json(self)
    }
}

impl Data for Member {
    fn same(&self, other: &Self) -> (r: bool) {
        self.key.same(&other.key) && self.value.same(&other.value)
    }

    fn copy(&self) -> (r: Self) {
        Member { key: self.key.copy(), value: self.value.copy() }
    }
}

/// The members of a key.
pub open spec fn with_key(key: Seq<char>) -> spec_fn(MemberView) -> bool {
    |member: MemberView| member.key == key
}

/// The value of a key among members.
pub open spec fn value_of(members: Seq<MemberView>, key: Seq<char>) -> Option<JsonView> {
    match first_in(members, with_key(key)) {
        Some(member) => Some(member.value),
        None => None,
    }
}

/// The value of a key of a document, which only an object has.
pub open spec fn get_of(json: JsonView, key: Seq<char>) -> Option<JsonView> {
    match json {
        JsonView::Object(members) => value_of(members, key),
        _ => None,
    }
}

/// The value of a key among members.
pub fn member_value<'a>(members: &'a Vec<Member>, key: &str) -> (r: Option<&'a Json>)
    ensures
        r.deep_view() == value_of(members.deep_view(), key@),
{
    let wanted_key = key.to_owned();
    let wanted = |member: &Member| -> (b: bool)
        ensures
            b == with_key(key@)(member@),
    { member.key.same(&wanted_key) };
    match find(members, wanted, Ghost(with_key(key@))) {
        Some(member) => Some(&member.value),
        None => None,
    }
}

/// A member of an object.
pub fn member(key: &str, value: Json) -> (r: Member)
    ensures
        r@ == (MemberView { key: key@, value: value@ }),
{
    Member { key: key.to_owned(), value }
}

/// An object of members.
pub fn object(members: Vec<Member>) -> (r: Json)
    ensures
        r@ == JsonView::Object(members.deep_view()),
{
    let r = Json::Object(members);
    proof {
        lemma_object_view(members);
    }
    r
}

/// An array of items.
pub fn array(items: Vec<Json>) -> (r: Json)
    ensures
        r@ == JsonView::Array(items.deep_view()),
{
    let r = Json::Array(items);
    proof {
        lemma_array_view(items);
    }
    r
}

/// A text.
pub fn text(value: &str) -> (r: Json)
    ensures
        r@ == JsonView::Text(value@),
{
    Json::Text(value.to_owned())
}

/// Members in key order, with the value of one key set.
pub open spec fn put(members: Seq<MemberView>, member: MemberView) -> Seq<MemberView>
    decreases members.len(),
{
    if members.len() == 0 {
        seq![member]
    } else if members[0].key == member.key {
        seq![member] + members.skip(1)
    } else if precedes(member.key, members[0].key) {
        seq![member] + members
    } else {
        seq![members[0]] + put(members.skip(1), member)
    }
}

/// Set the value of one key among members in key order.
pub fn put_member(members: Vec<Member>, member: Member) -> (r: Vec<Member>)
    ensures
        r.deep_view() == put(members.deep_view(), member@),
{
    let mut list = members;
    let ghost s = list.deep_view();
    let ghost m = member@;
    let mut i: usize = 0;
    assert(s.skip(0) =~= s);
    assert(s.take(0) =~= Seq::<MemberView>::empty());
    while i < list.len()
        invariant
            i <= list.len(),
            s == list.deep_view(),
            s == members.deep_view(),
            m == member@,
            put(s, m) =~= s.take(i as int) + put(s.skip(i as int), m),
        decreases list.len() - i,
    {
        assert(s.skip(i as int)[0] == list@[i as int]@);
        assert(s.skip(i as int).skip(1) =~= s.skip(i + 1));
        assert(s.take(i + 1) =~= s.take(i as int).push(s[i as int]));
        if list[i].key.same(&member.key) {
            list.set(i, member);
            assert(list.deep_view() =~= s.take(i as int) + (seq![m] + s.skip(i + 1)));
            return list;
        }
        if comes_before(member.key.as_str(), list[i].key.as_str()) {
            list.insert(i, member);
            assert(list.deep_view() =~= s.take(i as int) + (seq![m] + s.skip(i as int)));
            return list;
        }
        i = i + 1;
    }
    assert(s.skip(i as int) =~= Seq::<MemberView>::empty());
    list.push(member);
    assert(list.deep_view() =~= s.take(i as int) + seq![m]);
    list
}

/// No key is repeated.
pub open spec fn keys_distinct(members: Seq<MemberView>) -> bool {
    forall|i: int, j: int|
        0 <= i < j < members.len() ==> (#[trigger] members[i]).key != (#[trigger] members[j]).key
}

/// Keys strictly ascend.
pub open spec fn keys_ascend(members: Seq<MemberView>) -> bool {
    forall|i: int, j: int|
        0 <= i < j < members.len() ==> precedes(
            (#[trigger] members[i]).key,
            (#[trigger] members[j]).key,
        )
}

/// The keys of every object of the document ascend.
pub open spec fn in_order(json: JsonView) -> bool
    decreases json,
{
    match json {
        JsonView::Array(items) => forall|i: int|
            0 <= i < items.len() ==> in_order(#[trigger] items[i]),
        JsonView::Object(members) => keys_ascend(members) && forall|i: int|
            0 <= i < members.len() ==> in_order((#[trigger] members[i]).value),
        _ => true,
    }
}

/// Setting a key changes the value of this key and of no other.
pub proof fn lemma_put_value(members: Seq<MemberView>, member: MemberView, key: Seq<char>)
    ensures
        value_of(put(members, member), key) == (if key == member.key {
            Some(member.value)
        } else {
            value_of(members, key)
        }),
    decreases members.len(),
{
    reveal_with_fuel(first_in, 2);
    let result = put(members, member);
    if members.len() == 0 {
        assert(result.skip(1) =~= Seq::<MemberView>::empty());
    } else if members[0].key == member.key {
        assert(result.skip(1) =~= members.skip(1));
    } else if precedes(member.key, members[0].key) {
        assert(result.skip(1) =~= members);
    } else {
        lemma_put_value(members.skip(1), member, key);
        assert(result.skip(1) =~= put(members.skip(1), member));
    }
}

/// The value of a key among members with one more at the end.
pub proof fn lemma_value_of_push(members: Seq<MemberView>, member: MemberView, key: Seq<char>)
    ensures
        value_of(members.push(member), key) == (match value_of(members, key) {
            Some(value) => Some(value),
            None => if member.key == key {
                Some(member.value)
            } else {
                None
            },
        }),
    decreases members.len(),
{
    reveal_with_fuel(first_in, 2);
    let longer = members.push(member);
    if members.len() == 0 {
        assert(longer.skip(1) =~= Seq::<MemberView>::empty());
    } else {
        lemma_value_of_push(members.skip(1), member, key);
        assert(longer.skip(1) =~= members.skip(1).push(member));
    }
}

/// A key that no member has is absent.
pub proof fn lemma_absent_key(members: Seq<MemberView>, key: Seq<char>)
    requires
        forall|i: int| 0 <= i < members.len() ==> (#[trigger] members[i]).key != key,
    ensures
        value_of(members, key) is None,
    decreases members.len(),
{
    if members.len() > 0 {
        assert forall|i: int| 0 <= i < members.skip(1).len() implies (
        #[trigger] members.skip(1)[i]).key != key by {
            assert(members.skip(1)[i] == members[i + 1]);
        }
        lemma_absent_key(members.skip(1), key);
    }
}

/// Setting a key keeps the order.
pub proof fn lemma_put_ascends(members: Seq<MemberView>, member: MemberView)
    requires
        keys_ascend(members),
    ensures
        keys_ascend(put(members, member)),
        forall|i: int|
            0 <= i < put(members, member).len() ==> (#[trigger] put(members, member)[i]).key
                == member.key || exists|k: int|
                0 <= k < members.len() && (#[trigger] members[k]).key == put(
                    members,
                    member,
                )[i].key,
    decreases members.len(),
{
    let result = put(members, member);
    if members.len() == 0 {
    } else if members[0].key == member.key {
        assert forall|i: int, j: int| 0 <= i < j < result.len() implies precedes(
            (#[trigger] result[i]).key,
            (#[trigger] result[j]).key,
        ) by {
            assert(members[j] == result[j]);
            assert(members[i].key == result[i].key);
        }
        assert forall|i: int| 0 <= i < result.len() implies (#[trigger] result[i]).key
            == member.key || exists|k: int|
            0 <= k < members.len() && (#[trigger] members[k]).key == result[i].key by {
            assert(members[i].key == result[i].key);
        }
    } else if precedes(member.key, members[0].key) {
        assert forall|i: int, j: int| 0 <= i < j < result.len() implies precedes(
            (#[trigger] result[i]).key,
            (#[trigger] result[j]).key,
        ) by {
            assert(members[j - 1] == result[j]);
            if i == 0 {
                if j > 1 {
                    crate::text::lemma_precedes_transitive(
                        member.key,
                        members[0].key,
                        members[j - 1].key,
                    );
                }
            } else {
                assert(members[i - 1] == result[i]);
            }
        }
        assert forall|i: int| 0 <= i < result.len() implies (#[trigger] result[i]).key
            == member.key || exists|k: int|
            0 <= k < members.len() && (#[trigger] members[k]).key == result[i].key by {
            if i > 0 {
                assert(members[i - 1] == result[i]);
            }
        }
    } else {
        let rest = members.skip(1);
        assert forall|i: int, j: int| 0 <= i < j < rest.len() implies precedes(
            (#[trigger] rest[i]).key,
            (#[trigger] rest[j]).key,
        ) by {
            assert(rest[i] == members[i + 1] && rest[j] == members[j + 1]);
        }
        lemma_put_ascends(rest, member);
        let tail = put(rest, member);
        crate::text::lemma_precedes_total(member.key, members[0].key);
        assert forall|i: int| 0 <= i < tail.len() implies precedes(
            members[0].key,
            (#[trigger] tail[i]).key,
        ) by {
            if tail[i].key != member.key {
                let k = choose|k: int| 0 <= k < rest.len() && (#[trigger] rest[k]).key
                    == tail[i].key;
                assert(rest[k] == members[k + 1]);
            }
        }
        assert forall|i: int, j: int| 0 <= i < j < result.len() implies precedes(
            (#[trigger] result[i]).key,
            (#[trigger] result[j]).key,
        ) by {
            assert(result[j] == tail[j - 1]);
            if i > 0 {
                assert(result[i] == tail[i - 1]);
            }
        }
        assert forall|i: int| 0 <= i < result.len() implies (#[trigger] result[i]).key
            == member.key || exists|k: int|
            0 <= k < members.len() && (#[trigger] members[k]).key == result[i].key by {
            if i == 0 {
                assert(members[0].key == result[0].key);
            } else {
                assert(result[i] == tail[i - 1]);
                if tail[i - 1].key != member.key {
                    let k = choose|k: int| 0 <= k < rest.len() && (#[trigger] rest[k]).key
                        == tail[i - 1].key;
                    assert(members[k + 1] == rest[k]);
                }
            }
        }
    }
}

impl Json {
    /// The value of a key, which only an object has.
    pub fn get(&self, key: &str) -> (r: Option<&Json>)
        ensures
            r.deep_view() == get_of(self@, key@),
    {
        match self {
            Json::Object(members) => {
                proof {
                    lemma_object_view(*members);
                }
                member_value(members, key)
            },
            _ => None,
        }
    }

    /// Whether the document is exactly this text.
    pub fn is_text(&self, literal: &str) -> (r: bool)
        ensures
            r == (self@ == JsonView::Text(literal@)),
    {
        match self {
            Json::Text(held) => held.same(&literal.to_owned()),
            _ => false,
        }
    }

    /// Whether the document is exactly this truth value.
    pub fn is_bool(&self, value: bool) -> (r: bool)
        ensures
            r == (self@ == JsonView::Bool(value)),
    {
        match self {
            Json::Bool(held) => *held == value,
            _ => false,
        }
    }
}

} // verus!
