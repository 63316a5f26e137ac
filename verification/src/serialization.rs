//! Identifiers, canonical JSON and the digests that name documents.
use vstd::prelude::*;
use vstd::utf8::encode_utf8;

use crate::data::Data;
use crate::error::{fail, ContractError, ErrorCode};
#[allow(unused_imports)]
use crate::error::{failure, fault, Fault};
use crate::json::Json;
#[allow(unused_imports)]
use crate::data::{first_in, lemma_first_in};
#[allow(unused_imports)]
use crate::json::{
    get_of, in_order, lemma_array_view, lemma_object_view, with_key, JsonView, MemberView,
};
#[allow(unused_imports)]
use crate::reader::document_in;
use crate::reader::read_document;
use crate::text::{begins_with, chars_of, comes_before, concat, is_blank};
#[allow(unused_imports)]
use crate::text::{
    blank, hex_digit, lemma_precedes_total, lemma_precedes_transitive, precedes, white_space,
};

verus! {

/// An opaque, nonblank identifier. No naming convention is assumed.
#[derive(Debug)]
pub struct Id {
    text: String,
}

impl View for Id {
    type V = Seq<char>;

    closed spec fn view(&self) -> Seq<char> {
        self.text@
    }
}

impl DeepView for Id {
    type V = Seq<char>;

    open spec fn deep_view(&self) -> Seq<char> {
        self@
    }
}

impl Data for Id {
    fn same(&self, other: &Self) -> (r: bool) {
        self.text.same(&other.text)
    }

    fn copy(&self) -> (r: Self) {
        proof {
            use_type_invariant(self);
        }
        let text = self.text.copy();
        assert(text@ == self.text@);
        Id { text }
    }
}

impl Id {
    #[verifier::type_invariant]
    spec fn nonblank(&self) -> bool {
        !blank(self.text@)
    }

    /// Validate an identifier without normalizing its spelling.
    pub fn new(value: String) -> (r: Result<Self, ContractError>)
        ensures
            failure(r) == (if blank(value@) {
                fault(ErrorCode::InvalidContract, "identifier")
            } else {
                None
            }),
            r matches Ok(id) ==> id@ == value@,
    {
        if is_blank(value.as_str()) {
            return fail(ErrorCode::InvalidContract, "identifier");
        }
        Ok(Id { text: value })
    }

    /// Return the original identifier.
    pub fn as_str(&self) -> (r: &str)
        ensures
            r@ == self@,
            !blank(r@),
    {
        proof {
            use_type_invariant(self);
        }
        self.text.as_str()
    }

    /// An identifier that is known not to be blank.
    pub fn literal(value: &str) -> (r: Self)
        requires
            !blank(value@),
        ensures
            r@ == value@,
    {
        Id { text: value.to_owned() }
    }

    /// An identifier that starts with a text that is known not to be blank.
    pub fn prefixed(prefix: &str, rest: &str) -> (r: Self)
        requires
            !blank(prefix@),
        ensures
            r@ == prefix@ + rest@,
    {
        let text = concat(prefix, rest);
        proof {
            let i = choose|i: int| 0 <= i < prefix@.len() && !white_space(#[trigger] prefix@[i]);
            assert(text@[i] == prefix@[i]);
        }
        Id { text }
    }

    /// Whether the identifier reads `literal`.
    pub fn reads(&self, literal: &str) -> (r: bool)
        ensures
            r == (self@ == literal@),
    {
        self.text.same(&literal.to_owned())
    }
}

/// A SHA-256 digest carrying its canonicalization version.
#[derive(Debug)]
pub struct JsonDigest {
    text: String,
}

impl View for JsonDigest {
    type V = Seq<char>;

    closed spec fn view(&self) -> Seq<char> {
        self.text@
    }
}

impl DeepView for JsonDigest {
    type V = Seq<char>;

    open spec fn deep_view(&self) -> Seq<char> {
        self@
    }
}

impl Data for JsonDigest {
    fn same(&self, other: &Self) -> (r: bool) {
        self.text.same(&other.text)
    }

    fn copy(&self) -> (r: Self) {
        proof {
            use_type_invariant(self);
        }
        let text = self.text.copy();
        assert(text@ == self.text@);
        JsonDigest { text }
    }
}

/// Sixty-four lower-case hexadecimal digits after `prefix`.
pub open spec fn hex_after(text: Seq<char>, prefix: Seq<char>) -> bool {
    &&& prefix.is_prefix_of(text)
    &&& text.len() == prefix.len() + 64
    &&& forall|i: int| prefix.len() <= i < text.len() ==> hex_digit(#[trigger] text[i])
}

/// A digest text names its canonicalization version and holds a SHA-256 value.
pub open spec fn digest_form(text: Seq<char>) -> bool {
    ||| hex_after(text, "sorted-json-v1:sha256:"@)
    ||| hex_after(text, "wickle-canonical-json-v1:sha256:"@)
}

fn has_hex_after(text: &str, prefix: &str) -> (r: bool)
    ensures
        r == hex_after(text@, prefix@),
{
    if !begins_with(text, prefix) {
        return false;
    }
    let chars = chars_of(text);
    let start: usize = chars_of(prefix).len();
    if chars.len() < start || chars.len() - start != 64 {
        return false;
    }
    let mut i: usize = start;
    while i < chars.len()
        invariant
            start <= i <= chars.len(),
            start == prefix@.len(),
            chars@ == text@,
            forall|j: int| start <= j < i ==> hex_digit(#[trigger] text@[j]),
        decreases chars.len() - i,
    {
        let c = chars[i];
        if !(('0' <= c && c <= '9') || ('a' <= c && c <= 'f')) {
            assert(!hex_digit(text@[i as int]));
            return false;
        }
        i = i + 1;
    }
    true
}

impl JsonDigest {
    #[verifier::type_invariant]
    spec fn well_formed(&self) -> bool {
        digest_form(self.text@)
    }

    /// Return the encoding version, algorithm, and hexadecimal digest.
    pub fn as_str(&self) -> (r: &str)
        ensures
            r@ == self@,
            digest_form(r@),
    {
        proof {
            use_type_invariant(self);
        }
        self.text.as_str()
    }

    /// Accept a digest that names a known canonicalization version.
    pub fn try_from(value: String) -> (r: Result<Self, ContractError>)
        ensures
            failure(r) == (if digest_form(value@) {
                None
            } else {
                fault(ErrorCode::InvalidContract, "digest")
            }),
            r matches Ok(digest) ==> digest@ == value@,
    {
        if !has_hex_after(value.as_str(), "sorted-json-v1:sha256:") && !has_hex_after(
            value.as_str(),
            "wickle-canonical-json-v1:sha256:",
        ) {
            return fail(ErrorCode::InvalidContract, "digest");
        }
        Ok(JsonDigest { text: value })
    }
}

/// The JSON string literal that `serde_json` writes for a text.
pub uninterp spec fn json_literal(text: Seq<char>) -> Seq<char>;

/// Write a text as a JSON string literal with `serde_json::to_string`. The contract names the
/// literal and claims that it depends on the text alone.
#[verifier::external_body]
pub(crate) fn json_string(text: &str) -> (r: String)
    ensures
        r@ == json_literal(text@),
{
    serde_json::to_string(text).expect("a text serializes into a string")
}

/// The lower-case hexadecimal SHA-256 value of some bytes.
pub uninterp spec fn sha256_hex(bytes: Seq<u8>) -> Seq<char>;

/// Hash bytes with `sha2::Sha256::digest` and write the value in lower-case hexadecimal. The
/// contract names the text and claims its form: two digits for each of the 32 bytes.
#[verifier::external_body]
fn hash_hex(bytes: &[u8]) -> (r: String)
    ensures
        r@ == sha256_hex(bytes@),
        r@.len() == 64,
        forall|i: int| 0 <= i < 64 ==> hex_digit(#[trigger] r@[i]),
{
    format!("{:x}", <sha2::Sha256 as sha2::Digest>::digest(bytes))
}

/// One encoded member of an object.
pub struct Part {
    pub key: String,
    pub text: String,
}

#[verifier::ext_equal]
pub struct PartView {
    pub key: Seq<char>,
    pub text: Seq<char>,
}

impl DeepView for Part {
    type V = PartView;

    open spec fn deep_view(&self) -> PartView {
        PartView { key: self.key@, text: self.text@ }
    }
}

/// `parts`, ordered by key, with `part` put before the first greater key.
pub open spec fn insert_part(parts: Seq<PartView>, part: PartView) -> Seq<PartView>
    decreases parts.len(),
{
    if parts.len() == 0 {
        seq![part]
    } else if precedes(part.key, parts[0].key) {
        seq![part] + parts
    } else {
        seq![parts[0]] + insert_part(parts.skip(1), part)
    }
}

/// `parts` ordered by key.
pub open spec fn order_parts(parts: Seq<PartView>) -> Seq<PartView>
    decreases parts.len(),
{
    if parts.len() == 0 {
        Seq::empty()
    } else {
        insert_part(order_parts(parts.drop_last()), parts.last())
    }
}

/// Texts separated by commas.
pub open spec fn listed(texts: Seq<Seq<char>>) -> Seq<char>
    decreases texts.len(),
{
    if texts.len() == 0 {
        Seq::empty()
    } else if texts.len() == 1 {
        texts[0]
    } else {
        listed(texts.drop_last()) + ","@ + texts.last()
    }
}

/// An object member as it is written.
pub open spec fn member_text(part: PartView) -> Seq<char> {
    json_literal(part.key) + ":"@ + part.text
}

/// The compact JSON text of a document, with the members of every object ordered by key.
pub open spec fn canonical_text(json: JsonView) -> Seq<char>
    decreases json,
{
    match json {
        JsonView::Null => "null"@,
        JsonView::Bool(b) => if b {
            "true"@
        } else {
            "false"@
        },
        JsonView::Number(lexeme) => lexeme,
        JsonView::Text(text) => json_literal(text),
        JsonView::Array(items) => "["@ + listed(item_texts(items)) + "]"@,
        JsonView::Object(members) => "{"@ + listed(
            member_texts(order_parts(member_parts(members))),
        ) + "}"@,
    }
}

/// The canonical texts of documents.
pub open spec fn item_texts(items: Seq<JsonView>) -> Seq<Seq<char>>
    decreases items,
{
    if items.len() == 0 {
        Seq::empty()
    } else {
        item_texts(items.drop_last()).push(canonical_text(items.last()))
    }
}

/// The keys of members with the canonical texts of their values.
pub open spec fn member_parts(members: Seq<MemberView>) -> Seq<PartView>
    decreases members,
{
    if members.len() == 0 {
        Seq::empty()
    } else {
        member_parts(members.drop_last()).push(
            PartView { key: members.last().key, text: canonical_text(members.last().value) },
        )
    }
}

/// Members as they are written.
pub open spec fn member_texts(parts: Seq<PartView>) -> Seq<Seq<char>> {
    Seq::new(parts.len(), |i: int| member_text(parts[i]))
}

/// The digest that names a document.
pub open spec fn digest_of(json: JsonView) -> Seq<char> {
    "sorted-json-v1:sha256:"@ + sha256_hex(encode_utf8(canonical_text(json)))
}

fn append_listed(out: String, text: &str, first: bool) -> (r: String)
    ensures
        r@ == (if first {
            out@ + text@
        } else {
            out@ + ","@ + text@
        }),
{
    if first {
        concat(out.as_str(), text)
    } else {
        let with_comma = concat(out.as_str(), ",");
        concat(with_comma.as_str(), text)
    }
}

fn insert_ordered(parts: Vec<Part>, part: Part) -> (r: Vec<Part>)
    ensures
        r.deep_view() == insert_part(parts.deep_view(), part.deep_view()),
{
    let mut parts = parts;
    let ghost s = parts.deep_view();
    let ghost p = part.deep_view();
    let mut i: usize = 0;
    assert(s.skip(0) =~= s);
    assert(s.take(0) =~= Seq::<PartView>::empty());
    while i < parts.len() && !comes_before(part.key.as_str(), parts[i].key.as_str())
        invariant
            i <= parts.len(),
            s == parts.deep_view(),
            p == part.deep_view(),
            insert_part(s, p) =~= s.take(i as int) + insert_part(s.skip(i as int), p),
        decreases parts.len() - i,
    {
        assert(s.skip(i as int)[0] == s[i as int]);
        assert(s.skip(i as int).skip(1) =~= s.skip(i + 1));
        assert(s.take(i + 1) =~= s.take(i as int).push(s[i as int]));
        i = i + 1;
    }
    proof {
        if i < parts.len() {
            assert(s.skip(i as int)[0] == s[i as int]);
        }
        assert(insert_part(s, p) =~= s.take(i as int) + (seq![p] + s.skip(i as int)));
    }
    parts.insert(i, part);
    assert(parts.deep_view() =~= s.take(i as int) + (seq![p] + s.skip(i as int)));
    parts
}

/// The compact JSON text of a document, with object keys in order.
pub fn canonical_json(value: &Json) -> (r: String)
    ensures
        r@ == canonical_text(value@),
    decreases *value,
{
    match value {
        Json::Null => "null".to_owned(),
        Json::Bool(b) => if *b {
            "true".to_owned()
        } else {
            "false".to_owned()
        },
        Json::Number(lexeme) => lexeme.copy(),
        Json::Text(text) => json_string(text.as_str()),
        Json::Array(items) => {
            let ghost viewed = items.deep_view();
            let mut out = String::new();
            let mut i: usize = 0;
            proof {
                lemma_array_view(*items);
            }
            assert(viewed.take(0) =~= Seq::<JsonView>::empty());
            while i < items.len()
                invariant
                    i <= items.len(),
                    *value == Json::Array(*items),
                    viewed == items.deep_view(),
                    out@ == listed(item_texts(viewed.take(i as int))),
                    item_texts(viewed.take(i as int)).len() == i,
                decreases items.len() - i,
            {
                assert(decreases_to!(*value => value->Array_0));
                assert(decreases_to!(*items => items@));
                assert(decreases_to!(items@ => items@[i as int]));
                let text = canonical_json(&items[i]);
                let ghost texts = item_texts(viewed.take(i + 1));
                assert(viewed.take(i + 1).drop_last() =~= viewed.take(i as int));
                assert(viewed.take(i + 1).last() == items@[i as int]@);
                assert(texts.drop_last() =~= item_texts(viewed.take(i as int)));
                out = append_listed(out, text.as_str(), i == 0);
                assert(out@ =~= listed(texts));
                i = i + 1;
            }
            assert(viewed.take(i as int) =~= viewed);
            let opened = concat("[", out.as_str());
            concat(opened.as_str(), "]")
        },
        Json::Object(members) => {
            let ghost viewed = members.deep_view();
            let mut parts: Vec<Part> = Vec::new();
            let mut i: usize = 0;
            proof {
                lemma_object_view(*members);
            }
            assert(viewed.take(0) =~= Seq::<MemberView>::empty());
            assert(parts.deep_view() =~= Seq::<PartView>::empty());
            while i < members.len()
                invariant
                    i <= members.len(),
                    *value == Json::Object(*members),
                    viewed == members.deep_view(),
                    parts.deep_view() == order_parts(member_parts(viewed.take(i as int))),
                decreases members.len() - i,
            {
                assert(decreases_to!(*value => value->Object_0));
                assert(decreases_to!(*members => members@));
                assert(decreases_to!(members@ => members@[i as int]));
                assert(decreases_to!(members@[i as int] => members@[i as int].value));
                let text = canonical_json(&members[i].value);
                let part = Part { key: members[i].key.copy(), text };
                let ghost next = member_parts(viewed.take(i + 1));
                assert(viewed.take(i + 1).drop_last() =~= viewed.take(i as int));
                assert(viewed.take(i + 1).last() == members@[i as int]@);
                assert(next.drop_last() =~= member_parts(viewed.take(i as int)));
                assert(next.last() == part.deep_view());
                parts = insert_ordered(parts, part);
                i = i + 1;
            }
            assert(viewed.take(i as int) =~= viewed);
            let ghost ordered = parts.deep_view();
            let ghost texts = member_texts(ordered);
            let mut out = String::new();
            let mut k: usize = 0;
            assert(texts.take(0) =~= Seq::<Seq<char>>::empty());
            while k < parts.len()
                invariant
                    k <= parts.len(),
                    ordered == parts.deep_view(),
                    texts == member_texts(ordered),
                    out@ == listed(texts.take(k as int)),
                decreases parts.len() - k,
            {
                let literal = json_string(parts[k].key.as_str());
                let named = concat(literal.as_str(), ":");
                let text = concat(named.as_str(), parts[k].text.as_str());
                assert(text@ == member_text(ordered[k as int]));
                assert(texts.take(k + 1).drop_last() =~= texts.take(k as int));
                assert(texts.take(k + 1).last() == text@);
                out = append_listed(out, text.as_str(), k == 0);
                assert(out@ =~= listed(texts.take(k + 1)));
                k = k + 1;
            }
            assert(texts.take(k as int) =~= texts);
            let opened = concat("{", out.as_str());
            concat(opened.as_str(), "}")
        },
    }
}

/// Hash a document after sorting object keys recursively; array order and values are retained.
///
/// Numbers keep their lexeme: `1` and `1.0`, and `0` and `-0.0`, remain distinct.
pub fn canonical_digest(value: &Json) -> (r: JsonDigest)
    ensures
        r@ == digest_of(value@),
        digest_form(r@),
{
    let text = canonical_json(value);
    let hex = hash_hex(text.as_str().as_bytes());
    let full = concat("sorted-json-v1:sha256:", hex.as_str());
    assert(hex_after(full@, "sorted-json-v1:sha256:"@)) by {
        let prefix = "sorted-json-v1:sha256:"@;
        assert(full@.take(prefix.len() as int) =~= prefix);
        assert forall|i: int| prefix.len() <= i < full@.len() implies hex_digit(
            #[trigger] full@[i],
        ) by {
            assert(full@[i] == hex@[i - prefix.len()]);
        }
    }
    JsonDigest { text: full }
}

/// The digest of a submitted document, in which numbers stand as they were written.
pub open spec fn submitted_digest_of(json: JsonView) -> Seq<char> {
    "wickle-canonical-json-v1:sha256:"@ + sha256_hex(encode_utf8(canonical_text(json)))
}

/// Compute the digest of a submitted document, in which numbers stand as they were written.
pub fn submitted_digest(value: &Json) -> (r: JsonDigest)
    ensures
        r@ == submitted_digest_of(value@),
{
    let text = canonical_json(value);
    let hex = hash_hex(text.as_str().as_bytes());
    let full = concat("wickle-canonical-json-v1:sha256:", hex.as_str());
    assert(hex_after(full@, "wickle-canonical-json-v1:sha256:"@)) by {
        let prefix = "wickle-canonical-json-v1:sha256:"@;
        assert(full@.take(prefix.len() as int) =~= prefix);
        assert forall|i: int| prefix.len() <= i < full@.len() implies hex_digit(
            #[trigger] full@[i],
        ) by {
            assert(full@[i] == hex@[i - prefix.len()]);
        }
    }
    JsonDigest { text: full }
}

/// No object of the document repeats a key.
pub open spec fn unambiguous(json: JsonView) -> bool
    decreases json,
{
    match json {
        JsonView::Array(items) => forall|i: int|
            0 <= i < items.len() ==> unambiguous(#[trigger] items[i]),
        JsonView::Object(members) => {
            &&& forall|i: int, j: int|
                0 <= i < j < members.len() ==> (#[trigger] members[i]).key != (
                #[trigger] members[j]).key
            &&& forall|i: int| 0 <= i < members.len() ==> unambiguous((#[trigger] members[i]).value)
        },
        _ => true,
    }
}

/// Where the keys of every object ascend, none repeats a key.
pub proof fn lemma_in_order_is_unambiguous(json: JsonView)
    requires
        in_order(json),
    ensures
        unambiguous(json),
    decreases json,
{
    match json {
        JsonView::Array(items) => {
            assert forall|i: int| 0 <= i < items.len() implies unambiguous(#[trigger] items[i]) by {
                lemma_in_order_is_unambiguous(items[i]);
            }
        },
        JsonView::Object(members) => {
            assert forall|i: int, j: int| 0 <= i < j < members.len() implies (
            #[trigger] members[i]).key != (#[trigger] members[j]).key by {
                lemma_precedes_total(members[i].key, members[j].key);
            }
            assert forall|i: int| 0 <= i < members.len() implies unambiguous(
                (#[trigger] members[i]).value,
            ) by {
                lemma_in_order_is_unambiguous(members[i].value);
            }
        },
        _ => {},
    }
}

/// No object in an item repeats a key where none in the list does.
pub proof fn lemma_own_item(items: Seq<JsonView>, i: int)
    requires
        unambiguous(JsonView::Array(items)),
        0 <= i < items.len(),
    ensures
        unambiguous(items[i]),
{
    let json = JsonView::Array(items);
    assert(json is Array);
    assert(json->Array_0 == items);
    assert(forall|k: int| 0 <= k < items.len() ==> unambiguous(#[trigger] items[k]));
}

/// A key that no other member has gives the value beside it.
pub proof fn lemma_own_value(members: Seq<MemberView>, i: int)
    requires
        unambiguous(JsonView::Object(members)),
        0 <= i < members.len(),
    ensures
        get_of(JsonView::Object(members), members[i].key) == Some(members[i].value),
        unambiguous(members[i].value),
{
    let p = with_key(members[i].key);
    assert(p(members[i]));
    lemma_first_in(members, p);
    let found = first_in(members, p)->Some_0;
    let j = choose|j: int| 0 <= j < members.len() && members[j] == found;
    if i < j {
        assert(members[i].key != members[j].key);
    } else if j < i {
        assert(members[j].key != members[i].key);
    }
}

/// Whether no object of the document repeats a key.
pub fn is_unambiguous(value: &Json) -> (r: bool)
    ensures
        r == unambiguous(value@),
    decreases *value,
{
    match value {
        Json::Array(items) => {
            let ghost viewed = value@->Array_0;
            let mut i: usize = 0;
            while i < items.len()
                invariant
                    i <= items.len(),
                    *value == Json::Array(*items),
                    viewed == value@->Array_0,
                    viewed == items.deep_view(),
                    forall|j: int| 0 <= j < i ==> unambiguous(#[trigger] viewed[j]),
                decreases items.len() - i,
            {
                assert(decreases_to!(*value => value->Array_0));
                assert(decreases_to!(*items => items@));
                assert(decreases_to!(items@ => items@[i as int]));
                if !is_unambiguous(&items[i]) {
                    assert(!unambiguous(viewed[i as int]));
                    return false;
                }
                i = i + 1;
            }
            true
        },
        Json::Object(members) => {
            proof {
                lemma_object_view(*members);
            }
            let ghost viewed = value@->Object_0;
            let mut i: usize = 0;
            while i < members.len()
                invariant
                    i <= members.len(),
                    *value == Json::Object(*members),
                    viewed == value@->Object_0,
                    viewed == members.deep_view(),
                    forall|j: int| 0 <= j < i ==> unambiguous((#[trigger] viewed[j]).value),
                    forall|j: int, k: int|
                        0 <= j < k < i ==> (#[trigger] viewed[j]).key != (
                        #[trigger] viewed[k]).key,
                decreases members.len() - i,
            {
                assert(decreases_to!(*value => value->Object_0));
                assert(decreases_to!(*members => members@));
                assert(decreases_to!(members@ => members@[i as int]));
                assert(decreases_to!(members@[i as int] => members@[i as int].value));
                let mut k: usize = 0;
                while k < i
                    invariant
                        k <= i < members.len(),
                        *value == Json::Object(*members),
                        viewed == members.deep_view(),
                        viewed == value@->Object_0,
                        forall|j: int| 0 <= j < k ==> (#[trigger] viewed[j]).key != viewed[i as int].key,
                    decreases i - k,
                {
                    if members[k].key.same(&members[i].key) {
                        assert(viewed[k as int].key == viewed[i as int].key);
                        return false;
                    }
                    k = k + 1;
                }
                if !is_unambiguous(&members[i].value) {
                    assert(!unambiguous(viewed[i as int].value));
                    return false;
                }
                i = i + 1;
            }
            true
        },
        _ => true,
    }
}

/// Why a text cannot be parsed.
pub open spec fn parse_fault(input: Seq<char>) -> Option<Fault> {
    if document_in(input, false) is Some {
        None
    } else {
        fault(ErrorCode::InvalidJson, "$")
    }
}

/// Parse JSON, rejecting duplicate object keys and numbers that are not finite.
pub fn parse_json(input: &str) -> (r: Result<Json, ContractError>)
    ensures
        failure(r) == parse_fault(input@),
        r matches Ok(json) ==> document_in(input@, false) == Some(json@) && unambiguous(json@),
{
    match read_document(input, false) {
        Some(json) => Ok(json),
        None => fail(ErrorCode::InvalidJson, "$"),
    }
}

/// Parse strict JSON and compute its versioned digest.
pub fn canonical_digest_json(input: &str) -> (r: Result<JsonDigest, ContractError>)
    ensures
        failure(r) == parse_fault(input@),
        r matches Ok(digest) ==> document_in(input@, false) is Some && digest@ == digest_of(
            document_in(input@, false)->Some_0,
        ),
{
    let json = parse_json(input)?;
    Ok(canonical_digest(&json))
}

/// Parts whose keys strictly increase.
pub open spec fn ascending(parts: Seq<PartView>) -> bool {
    forall|i: int, j: int|
        0 <= i < j < parts.len() ==> precedes((#[trigger] parts[i]).key, (#[trigger] parts[j]).key)
}

pub open spec fn distinct_keys(parts: Seq<PartView>) -> bool {
    forall|i: int, j: int|
        0 <= i < j < parts.len() ==> (#[trigger] parts[i]).key != (#[trigger] parts[j]).key
}

proof fn lemma_insert_part(parts: Seq<PartView>, part: PartView)
    requires
        ascending(parts),
        forall|i: int| 0 <= i < parts.len() ==> (#[trigger] parts[i]).key != part.key,
    ensures
        ascending(insert_part(parts, part)),
        insert_part(parts, part).to_multiset() == parts.to_multiset().insert(part),
    decreases parts.len(),
{
    let result = insert_part(parts, part);
    broadcast use vstd::seq_lib::group_to_multiset_ensures;
    if parts.len() == 0 {
        assert(result =~= parts.push(part));
    } else if precedes(part.key, parts[0].key) {
        assert(result =~= seq![part] + parts);
        assert(seq![part] + parts =~= parts.insert(0, part));
        vstd::seq_lib::to_multiset_insert(parts, 0, part);
        assert forall|i: int, j: int| 0 <= i < j < result.len() implies precedes(
            (#[trigger] result[i]).key,
            (#[trigger] result[j]).key,
        ) by {
            if i == 0 && j > 1 {
                lemma_precedes_transitive(part.key, parts[0].key, parts[j - 1].key);
            }
        }
    } else {
        let rest = parts.skip(1);
        assert forall|i: int| 0 <= i < rest.len() implies (#[trigger] rest[i]).key != part.key by {
            assert(rest[i] == parts[i + 1]);
        }
        assert forall|i: int, j: int| 0 <= i < j < rest.len() implies precedes(
            (#[trigger] rest[i]).key,
            (#[trigger] rest[j]).key,
        ) by {
            assert(rest[i] == parts[i + 1] && rest[j] == parts[j + 1]);
        }
        lemma_insert_part(rest, part);
        let tail = insert_part(rest, part);
        assert(result =~= seq![parts[0]] + tail);
        assert(parts =~= seq![parts[0]] + rest);
        assert(seq![parts[0]] + tail =~= tail.insert(0, parts[0]));
        assert(seq![parts[0]] + rest =~= rest.insert(0, parts[0]));
        vstd::seq_lib::to_multiset_insert(tail, 0, parts[0]);
        vstd::seq_lib::to_multiset_insert(rest, 0, parts[0]);
        assert(result.to_multiset() =~= parts.to_multiset().insert(part));
        assert forall|i: int, j: int| 0 <= i < j < result.len() implies precedes(
            (#[trigger] result[i]).key,
            (#[trigger] result[j]).key,
        ) by {
            if i == 0 {
                assert(result[j] == tail[j - 1]);
                assert(tail.to_multiset().count(tail[j - 1]) > 0);
                assert(rest.to_multiset().insert(part).count(tail[j - 1]) > 0);
                if tail[j - 1] == part {
                    lemma_precedes_total(part.key, parts[0].key);
                } else {
                    assert(rest.to_multiset().count(tail[j - 1]) > 0);
                    assert(rest.contains(tail[j - 1]));
                    let k = choose|k: int| 0 <= k < rest.len() && rest[k] == tail[j - 1];
                    assert(parts[k + 1] == tail[j - 1]);
                }
            }
        }
    }
}

proof fn lemma_order_parts(parts: Seq<PartView>)
    requires
        distinct_keys(parts),
    ensures
        ascending(order_parts(parts)),
        order_parts(parts).to_multiset() == parts.to_multiset(),
    decreases parts.len(),
{
    broadcast use vstd::seq_lib::group_to_multiset_ensures;
    if parts.len() > 0 {
        let front = parts.drop_last();
        assert forall|i: int, j: int| 0 <= i < j < front.len() implies (#[trigger] front[i]).key != (
        #[trigger] front[j]).key by {
            assert(front[i] == parts[i] && front[j] == parts[j]);
        }
        lemma_order_parts(front);
        let ordered = order_parts(front);
        assert forall|i: int| 0 <= i < ordered.len() implies (#[trigger] ordered[i]).key
            != parts.last().key by {
            assert(ordered.to_multiset().count(ordered[i]) > 0);
            assert(front.to_multiset().count(ordered[i]) > 0);
            assert(front.contains(ordered[i]));
            let k = choose|k: int| 0 <= k < front.len() && front[k] == ordered[i];
            assert(parts[k] == ordered[i]);
        }
        lemma_insert_part(ordered, parts.last());
        assert(parts =~= front.push(parts.last()));
    }
}

proof fn lemma_ascending_unique(a: Seq<PartView>, b: Seq<PartView>)
    requires
        ascending(a),
        ascending(b),
        a.to_multiset() == b.to_multiset(),
    ensures
        a == b,
    decreases a.len(),
{
    broadcast use vstd::seq_lib::group_to_multiset_ensures;
    vstd::seq_lib::to_multiset_len(a);
    vstd::seq_lib::to_multiset_len(b);
    if a.len() == 0 {
        assert(a =~= b);
    } else {
        let x = a.last();
        let y = b.last();
        if x != y {
            assert(a.to_multiset().count(x) > 0);
            assert(b.contains(x));
            let i = choose|i: int| 0 <= i < b.len() && b[i] == x;
            assert(b.to_multiset().count(y) > 0);
            assert(a.contains(y));
            let j = choose|j: int| 0 <= j < a.len() && a[j] == y;
            assert(precedes(b[i].key, b[b.len() - 1].key));
            assert(precedes(a[j].key, a[a.len() - 1].key));
            lemma_precedes_total(x.key, y.key);
        }
        let a0 = a.drop_last();
        let b0 = b.drop_last();
        assert(a =~= a0.push(x));
        assert(b =~= b0.push(y));
        assert(a0.to_multiset() =~= a.to_multiset().remove(x));
        assert(b0.to_multiset() =~= b.to_multiset().remove(y));
        assert forall|i: int, j: int| 0 <= i < j < a0.len() implies precedes(
            (#[trigger] a0[i]).key,
            (#[trigger] a0[j]).key,
        ) by {
            assert(a0[i] == a[i] && a0[j] == a[j]);
        }
        assert forall|i: int, j: int| 0 <= i < j < b0.len() implies precedes(
            (#[trigger] b0[i]).key,
            (#[trigger] b0[j]).key,
        ) by {
            assert(b0[i] == b[i] && b0[j] == b[j]);
        }
        lemma_ascending_unique(a0, b0);
    }
}

/// The canonical text, and so the digest, of an object does not depend on the order in which its
/// members are written.
pub proof fn law_member_order_is_irrelevant(a: Seq<MemberView>, b: Seq<MemberView>)
    requires
        unambiguous(JsonView::Object(a)),
        a.to_multiset() == b.to_multiset(),
    ensures
        canonical_text(JsonView::Object(a)) == canonical_text(JsonView::Object(b)),
        digest_of(JsonView::Object(a)) == digest_of(JsonView::Object(b)),
{
    let f = |m: MemberView| PartView { key: m.key, text: canonical_text(m.value) };
    let pa = a.map_values(f);
    let pb = b.map_values(f);
    broadcast use vstd::seq_lib::group_to_multiset_ensures;
    lemma_map_multiset(a, b, f);
    assert(pb.to_multiset() == pa.to_multiset());
    assert forall|i: int, j: int| 0 <= i < j < pa.len() implies (#[trigger] pa[i]).key != (
    #[trigger] pa[j]).key by {
        assert(a[i].key != a[j].key);
    }
    lemma_distinct_transfer(pa, pb);
    lemma_order_parts(pa);
    lemma_order_parts(pb);
    lemma_ascending_unique(order_parts(pa), order_parts(pb));
    lemma_member_parts(a);
    lemma_member_parts(b);
    assert(member_parts(a) =~= pa);
    assert(member_parts(b) =~= pb);
}

/// The parts of members, one for each.
pub proof fn lemma_member_parts(members: Seq<MemberView>)
    ensures
        member_parts(members).len() == members.len(),
        forall|i: int|
            0 <= i < members.len() ==> #[trigger] member_parts(members)[i] == (PartView {
                key: members[i].key,
                text: canonical_text(members[i].value),
            }),
    decreases members.len(),
{
    if members.len() > 0 {
        lemma_member_parts(members.drop_last());
    }
}

proof fn lemma_map_multiset(
    a: Seq<MemberView>,
    b: Seq<MemberView>,
    f: spec_fn(MemberView) -> PartView,
)
    requires
        a.to_multiset() == b.to_multiset(),
    ensures
        a.map_values(f).to_multiset() == b.map_values(f).to_multiset(),
    decreases a.len(),
{
    broadcast use vstd::seq_lib::group_to_multiset_ensures;
    vstd::seq_lib::to_multiset_len(a);
    vstd::seq_lib::to_multiset_len(b);
    if a.len() == 0 {
        assert(a.map_values(f) =~= b.map_values(f));
    } else {
        let x = a.last();
        assert(a.to_multiset().count(x) > 0);
        assert(b.contains(x));
        let k = choose|k: int| 0 <= k < b.len() && b[k] == x;
        let b0 = b.remove(k);
        let a0 = a.drop_last();
        assert(a =~= a0.push(x));
        vstd::seq_lib::to_multiset_remove(b, k);
        assert(a0.to_multiset() =~= b0.to_multiset());
        lemma_map_multiset(a0, b0, f);
        assert(a.map_values(f) =~= a0.map_values(f).push(f(x)));
        assert(b.map_values(f).remove(k) =~= b0.map_values(f));
        vstd::seq_lib::to_multiset_remove(b.map_values(f), k);
        assert(b.map_values(f).to_multiset().count(f(x)) > 0) by {
            assert(b.map_values(f)[k] == f(x));
            assert(b.map_values(f).contains(f(x)));
        }
        assert(b.map_values(f).to_multiset() =~= b0.map_values(f).to_multiset().insert(f(x)));
    }
}

proof fn lemma_distinct_transfer(a: Seq<PartView>, b: Seq<PartView>)
    requires
        distinct_keys(a),
        a.to_multiset() == b.to_multiset(),
    ensures
        distinct_keys(b),
{
    broadcast use vstd::seq_lib::group_to_multiset_ensures;
    assert forall|i: int, j: int| 0 <= i < j < b.len() implies (#[trigger] b[i]).key != (
    #[trigger] b[j]).key by {
        if b[i].key == b[j].key {
            let x = b[i];
            let y = b[j];
            assert(b.contains(x) && b.contains(y));
            assert(a.to_multiset().count(x) > 0 && a.to_multiset().count(y) > 0);
            assert(a.contains(x) && a.contains(y));
            let p = choose|p: int| 0 <= p < a.len() && a[p] == x;
            let q = choose|q: int| 0 <= q < a.len() && a[q] == y;
            if p == q {
                assert(x == y);
                let b1 = b.remove(j);
                vstd::seq_lib::to_multiset_remove(b, j);
                assert(b1[i] == x);
                assert(b1.contains(x));
                assert(b1.to_multiset().count(x) > 0);
                let a1 = a.remove(p);
                vstd::seq_lib::to_multiset_remove(a, p);
                assert(a1.to_multiset() =~= b1.to_multiset());
                assert(a1.contains(x));
                let t = choose|t: int| 0 <= t < a1.len() && a1[t] == x;
                if t < p {
                    assert(a[t] == x);
                } else {
                    assert(a[t + 1] == x);
                }
            } else if p < q {
                assert(a[p].key != a[q].key);
            } else {
                assert(a[q].key != a[p].key);
            }
        }
    }
}

/// A digest ends in its hash, written in hexadecimal digits, and nothing follows it; every other hash of
/// the same form makes a digest too.
pub proof fn law_digests_end_in_their_hash(text: Seq<char>, i: int, c: char)
    requires
        digest_form(text),
        0 <= i < 64,
    ensures
        text.len() > 64,
        hex_digit(text[text.len() - 64 + i]),
        !digest_form(text.push(c)),
        hex_digit(c) <==> digest_form(text.update(text.len() - 64 + i, c)),
{
    reveal_strlit("sorted-json-v1:sha256:");
    reveal_strlit("wickle-canonical-json-v1:sha256:");
    let a = "sorted-json-v1:sha256:"@;
    let b = "wickle-canonical-json-v1:sha256:"@;
    let p = text.len() - 64 + i;
    let changed = text.update(p, c);
    assert(a.len() != b.len() && a.len() + 1 != b.len() && b.len() + 1 != a.len());
    let prefix = if hex_after(text, a) {
        a
    } else {
        b
    };
    assert(hex_after(text, prefix));
    assert(hex_digit(text[p]));
    assert(changed[p] == c);
    if hex_digit(c) {
        assert(prefix.is_prefix_of(changed)) by {
            assert(changed.subrange(0, prefix.len() as int) =~= text.subrange(
                0,
                prefix.len() as int,
            ));
        }
        assert forall|k: int| prefix.len() <= k < changed.len() implies hex_digit(
            #[trigger] changed[k],
        ) by {
            if k != p {
                assert(changed[k] == text[k]);
                assert(hex_digit(text[k]));
            }
        }
        assert(hex_after(changed, prefix));
    } else if digest_form(changed) {
        let other = if hex_after(changed, a) {
            a
        } else {
            b
        };
        assert(hex_after(changed, other));
        assert(other.len() == prefix.len());
        assert(hex_digit(changed[p]));
    }
}

} // verus!
