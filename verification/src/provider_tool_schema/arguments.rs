//! Argument texts of a provider: how they are read without silently rounding their numbers.
use vstd::prelude::*;
use vstd::utf8::encode_utf8;

use crate::data::Data;
use crate::error::{fail, ContractError, ErrorCode};
#[allow(unused_imports)]
use crate::error::{failure, fault, Fault};
use crate::json::{Json, Member};
#[allow(unused_imports)]
use crate::json::{get_of, lemma_array_view, lemma_object_view, JsonView, MemberView};
use crate::reader::{JsonText, Reading};
#[allow(unused_imports)]
use crate::reader::{read_text, JsonTextView, ReadingView};
use crate::serialization::is_unambiguous;
#[allow(unused_imports)]
use crate::serialization::{lemma_own_item, lemma_own_value, unambiguous};
use crate::text::chars_of;
#[allow(unused_imports)]
use crate::text::{all_digits, digits_value, is_whole};

verus! {

/// The position of the first of two characters.
pub open spec fn split_at(text: Seq<char>, a: char, b: char) -> Option<int>
    decreases text.len(),
{
    if text.len() == 0 {
        None
    } else if text[0] == a || text[0] == b {
        Some(0)
    } else {
        match split_at(text.skip(1), a, b) {
            Some(i) => Some(i + 1),
            None => None,
        }
    }
}

/// A text without its decimal points.
pub open spec fn without_points(text: Seq<char>) -> Seq<char>
    decreases text.len(),
{
    if text.len() == 0 {
        Seq::empty()
    } else {
        let front = without_points(text.drop_last());
        if text.last() == '.' {
            front
        } else {
            front.push(text.last())
        }
    }
}

/// A text without leading zeros.
pub open spec fn without_leading_zeros(text: Seq<char>) -> Seq<char>
    decreases text.len(),
{
    if text.len() > 0 && text[0] == '0' {
        without_leading_zeros(text.skip(1))
    } else {
        text
    }
}

/// A text without trailing zeros.
pub open spec fn without_trailing_zeros(text: Seq<char>) -> Seq<char>
    decreases text.len(),
{
    if text.len() > 0 && text.last() == '0' {
        without_trailing_zeros(text.drop_last())
    } else {
        text
    }
}

/// The integer that a text writes with an optional sign.
pub open spec fn integer_value(text: Seq<char>) -> Option<int> {
    let signed = text.len() > 0 && (text[0] == '-' || text[0] == '+');
    let digits = if signed {
        text.skip(1)
    } else {
        text
    };
    if !all_digits(digits) {
        None
    } else if signed && text[0] == '-' {
        Some(-digits_value(digits))
    } else {
        Some(digits_value(digits))
    }
}

/// An integer that the exponent arithmetic holds.
pub open spec fn held(value: int) -> Option<int> {
    if i128::MIN <= value <= i128::MAX {
        Some(value)
    } else {
        None
    }
}

/// A decimal number as a sign, digits without outer zeros, and a power of ten.
#[verifier::ext_equal]
pub struct DecimalView {
    pub negative: bool,
    pub digits: Seq<char>,
    pub exponent: int,
}

/// The parts of a number text.
pub open spec fn unsigned_part(text: Seq<char>) -> Seq<char> {
    if text.len() > 0 && text[0] == '-' {
        text.skip(1)
    } else {
        text
    }
}

/// What stands before the exponent.
pub open spec fn mantissa_part(text: Seq<char>) -> Seq<char> {
    match split_at(unsigned_part(text), 'e', 'E') {
        Some(i) => unsigned_part(text).take(i),
        None => unsigned_part(text),
    }
}

/// What stands behind the exponent mark.
pub open spec fn exponent_part(text: Seq<char>) -> Seq<char> {
    match split_at(unsigned_part(text), 'e', 'E') {
        Some(i) => unsigned_part(text).skip(i + 1),
        None => seq!['0'],
    }
}

/// How many digits stand behind the decimal point.
pub open spec fn fraction_length(mantissa: Seq<char>) -> int {
    match split_at(mantissa, '.', '.') {
        Some(i) => mantissa.len() - i - 1,
        None => 0,
    }
}

/// The normal form of a number text. Every zero has the same form.
pub open spec fn decimal_form(text: Seq<char>) -> Option<DecimalView> {
    let mantissa = mantissa_part(text);
    let digits = without_leading_zeros(without_points(mantissa));
    let trimmed = without_trailing_zeros(digits);
    if digits.len() == 0 {
        Some(DecimalView { negative: false, digits: seq!['0'], exponent: 0 })
    } else {
        match integer_value(exponent_part(text)) {
            None => None,
            Some(written) => {
                let shifted = written - fraction_length(mantissa);
                let exponent = shifted + (digits.len() - trimmed.len());
                if held(written) is None || held(shifted) is None || held(exponent) is None {
                    None
                } else {
                    Some(
                        DecimalView {
                            negative: text.len() > 0 && text[0] == '-',
                            digits: trimmed,
                            exponent,
                        },
                    )
                }
            },
        }
    }
}

/// A decimal number as a sign, digits without outer zeros, and a power of ten.
pub struct Decimal {
    pub negative: bool,
    pub digits: Vec<char>,
    pub exponent: i128,
}

impl View for Decimal {
    type V = DecimalView;

    open spec fn view(&self) -> DecimalView {
        DecimalView {
            negative: self.negative,
            digits: self.digits@,
            exponent: self.exponent as int,
        }
    }
}

impl DeepView for Decimal {
    type V = DecimalView;

    open spec fn deep_view(&self) -> DecimalView {
        self@
    }
}

fn find_either(text: &Vec<char>, a: char, b: char) -> (r: Option<usize>)
    ensures
        match r {
            Some(i) => split_at(text@, a, b) == Some(i as int) && i < text.len(),
            None => split_at(text@, a, b) is None,
        },
{
    let mut i: usize = 0;
    assert(text@.skip(0) =~= text@);
    while i < text.len()
        invariant
            i <= text.len(),
            match split_at(text@.skip(i as int), a, b) {
                Some(k) => split_at(text@, a, b) == Some(k + i),
                None => split_at(text@, a, b) is None,
            },
        decreases text.len() - i,
    {
        assert(text@.skip(i as int)[0] == text@[i as int]);
        assert(text@.skip(i as int).skip(1) =~= text@.skip(i + 1));
        if text[i] == a || text[i] == b {
            return Some(i);
        }
        i = i + 1;
    }
    None
}

fn part(text: &Vec<char>, from: usize, to: usize) -> (r: Vec<char>)
    requires
        from <= to <= text.len(),
    ensures
        r@ == text@.subrange(from as int, to as int),
{
    let mut out: Vec<char> = Vec::new();
    let mut i: usize = from;
    while i < to
        invariant
            from <= i <= to <= text.len(),
            out@ =~= text@.subrange(from as int, i as int),
        decreases to - i,
    {
        out.push(text[i]);
        i = i + 1;
    }
    out
}

fn drop_points(text: &Vec<char>) -> (r: Vec<char>)
    ensures
        r@ == without_points(text@),
        r.len() <= text.len(),
{
    let mut out: Vec<char> = Vec::new();
    let mut i: usize = 0;
    assert(text@.take(0) =~= Seq::<char>::empty());
    while i < text.len()
        invariant
            i <= text.len(),
            out.len() <= i,
            out@ == without_points(text@.take(i as int)),
        decreases text.len() - i,
    {
        assert(text@.take(i + 1).drop_last() =~= text@.take(i as int));
        if text[i] != '.' {
            out.push(text[i]);
        }
        i = i + 1;
    }
    assert(text@.take(i as int) =~= text@);
    out
}

fn drop_leading_zeros(text: &Vec<char>) -> (r: Vec<char>)
    ensures
        r@ == without_leading_zeros(text@),
        r.len() <= text.len(),
{
    let mut i: usize = 0;
    assert(text@.skip(0) =~= text@);
    while i < text.len() && text[i] == '0'
        invariant
            i <= text.len(),
            without_leading_zeros(text@) == without_leading_zeros(text@.skip(i as int)),
        decreases text.len() - i,
    {
        assert(text@.skip(i as int).skip(1) =~= text@.skip(i + 1));
        i = i + 1;
    }
    let r = part(text, i, text.len());
    assert(r@ =~= text@.skip(i as int));
    r
}

fn drop_trailing_zeros(text: &Vec<char>) -> (r: Vec<char>)
    ensures
        r@ == without_trailing_zeros(text@),
        r.len() <= text.len(),
{
    let mut n: usize = text.len();
    assert(text@.take(n as int) =~= text@);
    while n > 0 && text[n - 1] == '0'
        invariant
            n <= text.len(),
            without_trailing_zeros(text@) == without_trailing_zeros(text@.take(n as int)),
        decreases n,
    {
        assert(text@.take(n as int).drop_last() =~= text@.take(n - 1));
        n = n - 1;
    }
    let r = part(text, 0, n);
    assert(r@ =~= text@.take(n as int));
    r
}

proof fn lemma_digits_grow(text: Seq<char>, i: int)
    requires
        all_digits(text),
        0 <= i <= text.len(),
    ensures
        0 <= digits_value(text.take(i)) <= digits_value(text),
    decreases text.len() - i,
{
    if i == text.len() {
        assert(text.take(i) =~= text);
        lemma_digits_nonnegative(text);
    } else {
        lemma_digits_grow(text, i + 1);
        assert(text.take(i + 1).drop_last() =~= text.take(i));
        assert('0' <= text[i] <= '9');
        lemma_digits_nonnegative(text.take(i));
    }
}

proof fn lemma_digits_nonnegative(text: Seq<char>)
    requires
        forall|i: int| 0 <= i < text.len() ==> '0' <= #[trigger] text[i] <= '9',
    ensures
        digits_value(text) >= 0,
    decreases text.len(),
{
    if text.len() > 0 {
        assert forall|i: int| 0 <= i < text.drop_last().len() implies '0'
            <= #[trigger] text.drop_last()[i] <= '9' by {
            assert(text.drop_last()[i] == text[i]);
        }
        lemma_digits_nonnegative(text.drop_last());
        assert('0' <= text[text.len() - 1] <= '9');
    }
}

fn has_only_digits(text: &Vec<char>) -> (r: bool)
    ensures
        r == all_digits(text@),
{
    let mut i: usize = 0;
    while i < text.len()
        invariant
            i <= text.len(),
            forall|j: int| 0 <= j < i ==> '0' <= #[trigger] text@[j] <= '9',
        decreases text.len() - i,
    {
        if !('0' <= text[i] && text[i] <= '9') {
            return false;
        }
        i = i + 1;
    }
    text.len() > 0
}

fn signed_digits(digits: &Vec<char>, negative: bool) -> (r: Option<i128>)
    requires
        all_digits(digits@),
    ensures
        ({
            let value = if negative {
                -digits_value(digits@)
            } else {
                digits_value(digits@)
            };
            match r {
                Some(v) => v == value && held(value) is Some,
                None => held(value) is None,
            }
        }),
{
    let mut value: i128 = 0;
    let mut i: usize = 0;
    assert(digits@.take(0) =~= Seq::<char>::empty());
    while i < digits.len()
        invariant
            i <= digits.len(),
            all_digits(digits@),
            value == (if negative {
                -digits_value(digits@.take(i as int))
            } else {
                digits_value(digits@.take(i as int))
            }),
        decreases digits.len() - i,
    {
        assert(digits@.take(i + 1).drop_last() =~= digits@.take(i as int));
        assert('0' <= digits@[i as int] <= '9');
        proof {
            lemma_digits_grow(digits@, i as int);
            lemma_digits_grow(digits@, i + 1);
        }
        let digit: i128 = (digits[i] as u32 - '0' as u32) as i128;
        let ghost next = digits_value(digits@.take(i + 1));
        assert(next == digits_value(digits@.take(i as int)) * 10 + digit);
        if negative {
            if value < (i128::MIN + digit) / 10 {
                assert(value * 10 - digit < i128::MIN);
                assert(-digits_value(digits@) <= -next);
                return None;
            }
            if value * 10 < i128::MIN + digit {
                assert(-digits_value(digits@) <= -next);
                return None;
            }
            value = value * 10 - digit;
        } else {
            if value > (i128::MAX - digit) / 10 {
                assert(value * 10 + digit > i128::MAX);
                return None;
            }
            value = value * 10 + digit;
        }
        i = i + 1;
    }
    assert(digits@.take(i as int) =~= digits@);
    Some(value)
}

fn read_integer(text: &Vec<char>) -> (r: Option<i128>)
    ensures
        match r {
            Some(v) => integer_value(text@) == Some(v as int) && held(v as int) is Some,
            None => integer_value(text@) is None || held(integer_value(text@)->Some_0) is None,
        },
{
    let signed = text.len() > 0 && (text[0] == '-' || text[0] == '+');
    let negative = signed && text[0] == '-';
    let digits = if signed {
        part(text, 1, text.len())
    } else {
        part(text, 0, text.len())
    };
    assert(digits@ =~= (if signed {
        text@.skip(1)
    } else {
        text@
    }));
    if !has_only_digits(&digits) {
        return None;
    }
    signed_digits(&digits, negative)
}

/// The normal form of a number text.
pub fn normalized_decimal(text: &str) -> (r: Option<Decimal>)
    ensures
        r.deep_view() == decimal_form(text@),
{
    let chars = chars_of(text);
    let negative = chars.len() > 0 && chars[0] == '-';
    let unsigned = if negative {
        part(&chars, 1, chars.len())
    } else {
        part(&chars, 0, chars.len())
    };
    assert(unsigned@ =~= unsigned_part(text@));
    let (mantissa, exponent_text) = match find_either(&unsigned, 'e', 'E') {
        Some(i) => (part(&unsigned, 0, i), part(&unsigned, i + 1, unsigned.len())),
        None => {
            let zero = vec!['0'];
            (part(&unsigned, 0, unsigned.len()), zero)
        },
    };
    assert(mantissa@ =~= mantissa_part(text@));
    assert(exponent_text@ =~= exponent_part(text@));
    let fraction: usize = match find_either(&mantissa, '.', '.') {
        Some(i) => mantissa.len() - i - 1,
        None => 0,
    };
    let digits = drop_leading_zeros(&drop_points(&mantissa));
    if digits.len() == 0 {
        let zero = vec!['0'];
        assert(zero@ =~= seq!['0']);
        return Some(Decimal { negative: false, digits: zero, exponent: 0 });
    }
    let trimmed = drop_trailing_zeros(&digits);
    let written: i128 = match read_integer(&exponent_text) {
        Some(written) => written,
        None => {
            return None;
        },
    };
    if written < i128::MIN + (fraction as i128) {
        return None;
    }
    let shifted: i128 = written - (fraction as i128);
    let trailing: i128 = (digits.len() - trimmed.len()) as i128;
    if shifted > i128::MAX - trailing {
        return None;
    }
    Some(Decimal { negative, digits: trimmed, exponent: shifted + trailing })
}

/// Two number texts write the same number.
pub open spec fn same_number(written: Seq<char>, rendered: Seq<char>) -> bool {
    decimal_form(written) is Some && decimal_form(written) == decimal_form(rendered)
}

fn same_chars(a: &Vec<char>, b: &Vec<char>) -> (r: bool)
    ensures
        r == (a@ == b@),
{
    if a.len() != b.len() {
        return false;
    }
    let mut i: usize = 0;
    while i < a.len()
        invariant
            i <= a.len(),
            a.len() == b.len(),
            forall|j: int| 0 <= j < i ==> a@[j] == b@[j],
        decreases a.len() - i,
    {
        if a[i] != b[i] {
            return false;
        }
        i = i + 1;
    }
    assert(a@ =~= b@);
    true
}

fn is_same_number(written: &String, rendered: &String) -> (r: bool)
    ensures
        r == same_number(written@, rendered@),
{
    match (normalized_decimal(written.as_str()), normalized_decimal(rendered.as_str())) {
        (Some(a), Some(b)) => {
            let same = a.negative == b.negative && a.exponent == b.exponent && same_chars(
                &a.digits,
                &b.digits,
            );
            assert(same == (a@ == b@)) by {
                if same {
                    assert(a@ =~= b@);
                }
            }
            same
        },
        _ => false,
    }
}

/// Every number of the written document is the number that the reader holds.
pub open spec fn numbers_kept(written: JsonView, value: JsonView) -> bool
    decreases written,
{
    match written {
        JsonView::Object(members) => members_kept(members, value),
        JsonView::Array(items) => items_kept(items, value),
        JsonView::Number(lexeme) => value matches JsonView::Number(rendered) && same_number(
            lexeme,
            rendered,
        ),
        _ => true,
    }
}

/// Every member's numbers are kept.
pub open spec fn members_kept(members: Seq<MemberView>, value: JsonView) -> bool
    decreases members,
{
    if members.len() == 0 {
        true
    } else {
        &&& members_kept(members.drop_last(), value)
        &&& match get_of(value, members.last().key) {
            Some(part) => numbers_kept(members.last().value, part),
            None => false,
        }
    }
}

/// The item at an index, which only an array has.
pub open spec fn item_at(value: JsonView, i: int) -> Option<JsonView> {
    match value {
        JsonView::Array(items) => if 0 <= i < items.len() {
            Some(items[i])
        } else {
            None
        },
        _ => None,
    }
}

/// Every item's numbers are kept.
pub open spec fn items_kept(items: Seq<JsonView>, value: JsonView) -> bool
    decreases items,
{
    if items.len() == 0 {
        true
    } else {
        &&& items_kept(items.drop_last(), value)
        &&& match item_at(value, items.len() - 1) {
            Some(part) => numbers_kept(items.last(), part),
            None => false,
        }
    }
}

proof fn lemma_members_kept_prefix(members: Seq<MemberView>, value: JsonView, i: int)
    requires
        0 <= i <= members.len(),
        !members_kept(members.take(i), value),
    ensures
        !members_kept(members, value),
    decreases members.len() - i,
{
    if i < members.len() {
        assert(members.take(i + 1).drop_last() =~= members.take(i));
        lemma_members_kept_prefix(members, value, i + 1);
    } else {
        assert(members.take(i) =~= members);
    }
}

proof fn lemma_items_kept_prefix(items: Seq<JsonView>, value: JsonView, i: int)
    requires
        0 <= i <= items.len(),
        !items_kept(items.take(i), value),
    ensures
        !items_kept(items, value),
    decreases items.len() - i,
{
    if i < items.len() {
        assert(items.take(i + 1).drop_last() =~= items.take(i));
        lemma_items_kept_prefix(items, value, i + 1);
    } else {
        assert(items.take(i) =~= items);
    }
}

/// Whether every number of the written document is the number that the reader holds.
pub fn numbers_preserved(written: &Json, value: &Json) -> (r: bool)
    ensures
        r == numbers_kept(written@, value@),
    decreases *written,
{
    match written {
        Json::Object(members) => {
            let ghost viewed = members.deep_view();
            proof {
                lemma_object_view(*members);
            }
            let mut i: usize = 0;
            assert(viewed.take(0) =~= Seq::<MemberView>::empty());
            while i < members.len()
                invariant
                    i <= members.len(),
                    *written == Json::Object(*members),
                    written@ == JsonView::Object(viewed),
                    viewed == members.deep_view(),
                    members_kept(viewed.take(i as int), value@),
                decreases members.len() - i,
            {
                assert(decreases_to!(*written => written->Object_0));
                assert(decreases_to!(*members => members@));
                assert(decreases_to!(members@ => members@[i as int]));
                assert(decreases_to!(members@[i as int] => members@[i as int].value));
                assert(viewed.take(i + 1).drop_last() =~= viewed.take(i as int));
                assert(viewed.take(i + 1).last() == members@[i as int]@);
                let kept = match value.get(members[i].key.as_str()) {
                    Some(part) => numbers_preserved(&members[i].value, part),
                    None => false,
                };
                if !kept {
                    proof {
                        lemma_members_kept_prefix(viewed, value@, i + 1);
                    }
                    return false;
                }
                i = i + 1;
            }
            assert(viewed.take(i as int) =~= viewed);
            true
        },
        Json::Array(items) => {
            let ghost viewed = items.deep_view();
            proof {
                lemma_array_view(*items);
            }
            let mut i: usize = 0;
            assert(viewed.take(0) =~= Seq::<JsonView>::empty());
            while i < items.len()
                invariant
                    i <= items.len(),
                    *written == Json::Array(*items),
                    written@ == JsonView::Array(viewed),
                    viewed == items.deep_view(),
                    items_kept(viewed.take(i as int), value@),
                decreases items.len() - i,
            {
                assert(decreases_to!(*written => written->Array_0));
                assert(decreases_to!(*items => items@));
                assert(decreases_to!(items@ => items@[i as int]));
                assert(viewed.take(i + 1).drop_last() =~= viewed.take(i as int));
                assert(viewed.take(i + 1).last() == items@[i as int]@);
                let kept = match value {
                    Json::Array(parts) => {
                        proof {
                            lemma_array_view(*parts);
                        }
                        assert(parts.deep_view().len() == parts.len());
                        if i < parts.len() {
                            assert(parts.deep_view()[i as int] == parts@[i as int]@);
                            numbers_preserved(&items[i], &parts[i])
                        } else {
                            false
                        }
                    },
                    _ => false,
                };
                if !kept {
                    proof {
                        lemma_items_kept_prefix(viewed, value@, i + 1);
                    }
                    return false;
                }
                i = i + 1;
            }
            assert(viewed.take(i as int) =~= viewed);
            true
        },
        Json::Number(lexeme) => match value {
            Json::Number(rendered) => is_same_number(lexeme, rendered),
            _ => false,
        },
        _ => true,
    }
}

/// The failure of arguments that cannot be read.
pub open spec fn unreadable() -> Option<Fault> {
    fault(ErrorCode::InvalidArguments, "provider_tool.arguments")
}

/// Report arguments that cannot be read.
pub fn arguments<T>() -> (r: Result<T, ContractError>)
    ensures
        r is Err,
        failure(r) == unreadable(),
{
    fail(ErrorCode::InvalidArguments, "provider_tool.arguments")
}

/// Why a provider's text is no usable document.
pub open spec fn provider_text_fault(raw: JsonTextView, max_bytes: usize) -> Option<Fault> {
    if encode_utf8(raw.text).len() > max_bytes {
        unreadable()
    } else {
        match raw.reading {
            ReadingView::Malformed => unreadable(),
            ReadingView::Document { value, written } => if !unambiguous(written) {
                unreadable()
            } else if !numbers_kept(written, value) {
                fault(ErrorCode::InvalidArguments, "provider_tool.numeric_precision")
            } else {
                None
            },
        }
    }
}

/// The document of a provider's text that was read.
pub fn checked_value(raw: &JsonText, max_bytes: usize) -> (r: Result<&Json, ContractError>)
    ensures
        failure(r) == provider_text_fault(raw@, max_bytes),
        r matches Ok(value) ==> raw@.reading is Document && value@ == raw@.reading->value,
{
    if raw.is_longer_than(max_bytes) {
        return arguments();
    }
    match &raw.reading {
        Reading::Malformed => arguments(),
        Reading::Document { value, written } => {
            if !is_unambiguous(written) {
                return arguments();
            }
            if !numbers_preserved(written, value) {
                return fail(ErrorCode::InvalidArguments, "provider_tool.numeric_precision");
            }
            Ok(value)
        },
    }
}

/// Why a provider's text holds no argument object.
pub open spec fn provider_arguments_fault(raw: JsonTextView, max_bytes: usize) -> Option<Fault> {
    if provider_text_fault(raw, max_bytes) is Some {
        provider_text_fault(raw, max_bytes)
    } else if !(raw.reading->value is Object) {
        unreadable()
    } else {
        None
    }
}

/// The argument object of a provider's text that was read.
pub fn checked_arguments(raw: &JsonText, max_bytes: usize) -> (r: Result<
    Vec<Member>,
    ContractError,
>)
    ensures
        failure(r) == provider_arguments_fault(raw@, max_bytes),
        r matches Ok(members) ==> raw@.reading is Document && raw@.reading->value
            == JsonView::Object(members.deep_view()),
{
    let value = checked_value(raw, max_bytes)?;
    match value {
        Json::Object(members) => {
            proof {
                lemma_object_view(*members);
            }
            Ok(members.copy())
        },
        _ => arguments(),
    }
}

/// Read a provider's document without silently rounding its numbers.
pub fn parse_provider_value(raw: &str, max_bytes: usize) -> (r: Result<Json, ContractError>)
    ensures
        failure(r) == provider_text_fault(read_text(raw@), max_bytes),
        r matches Ok(value) ==> read_text(raw@).reading is Document && value@ == read_text(
            raw@,
        ).reading->value,
{
    let text = JsonText::read(raw);
    let value = checked_value(&text, max_bytes)?;
    Ok(value.copy())
}

/// Read a provider's argument object without silently rounding its numbers.
pub fn parse_provider_arguments(raw: &str, max_bytes: usize) -> (r: Result<
    Vec<Member>,
    ContractError,
>)
    ensures
        failure(r) == provider_arguments_fault(read_text(raw@), max_bytes),
        r matches Ok(members) ==> read_text(raw@).reading is Document && read_text(
            raw@,
        ).reading->value == JsonView::Object(members.deep_view()),
{
    checked_arguments(&JsonText::read(raw), max_bytes)
}

/// Every number of the document has a normal form, so that it can be compared.
pub open spec fn comparable(json: JsonView) -> bool
    decreases json,
{
    match json {
        JsonView::Number(lexeme) => decimal_form(lexeme) is Some,
        JsonView::Array(items) => forall|i: int|
            0 <= i < items.len() ==> comparable(#[trigger] items[i]),
        JsonView::Object(members) => forall|i: int|
            0 <= i < members.len() ==> comparable((#[trigger] members[i]).value),
        _ => true,
    }
}

/// Numbers that can be compared are those that the document itself holds.
pub proof fn lemma_numbers_kept(json: JsonView)
    requires
        unambiguous(json),
        comparable(json),
    ensures
        numbers_kept(json, json),
    decreases json, 0nat,
{
    match json {
        JsonView::Array(items) => {
            lemma_items_kept(items, items.len());
            assert(items.take(items.len() as int) =~= items);
        },
        JsonView::Object(members) => {
            lemma_members_kept(members, members.len());
            assert(members.take(members.len() as int) =~= members);
        },
        _ => {},
    }
}

proof fn lemma_items_kept(all: Seq<JsonView>, n: nat)
    requires
        unambiguous(JsonView::Array(all)),
        comparable(JsonView::Array(all)),
        n <= all.len(),
    ensures
        items_kept(all.take(n as int), JsonView::Array(all)),
    decreases all, n,
{
    if n > 0 {
        lemma_items_kept(all, (n - 1) as nat);
        assert(all.take(n as int).drop_last() =~= all.take(n - 1));
        assert(decreases_to!(all => all[n - 1]));
        lemma_own_item(all, n - 1);
        lemma_numbers_kept(all[n - 1]);
    }
}

proof fn lemma_members_kept(all: Seq<MemberView>, n: nat)
    requires
        unambiguous(JsonView::Object(all)),
        comparable(JsonView::Object(all)),
        n <= all.len(),
    ensures
        members_kept(all.take(n as int), JsonView::Object(all)),
    decreases all, n,
{
    if n > 0 {
        lemma_members_kept(all, (n - 1) as nat);
        assert(all.take(n as int).drop_last() =~= all.take(n - 1));
        lemma_own_value(all, n - 1);
        assert(decreases_to!(all => all[n - 1]));
        assert(decreases_to!(all[n - 1] => all[n - 1].value));
        lemma_numbers_kept(all[n - 1].value);
    }
}

proof fn lemma_no_split(text: Seq<char>, a: char, b: char)
    requires
        forall|i: int| 0 <= i < text.len() ==> (#[trigger] text[i]) != a && text[i] != b,
    ensures
        split_at(text, a, b) is None,
    decreases text.len(),
{
    if text.len() > 0 {
        let rest = text.skip(1);
        assert forall|i: int| 0 <= i < rest.len() implies (#[trigger] rest[i]) != a && rest[i]
            != b by {
            assert(rest[i] == text[i + 1]);
        }
        lemma_no_split(rest, a, b);
    }
}

proof fn lemma_no_points(text: Seq<char>)
    requires
        all_digits(text) || text.len() == 0,
    ensures
        without_points(text) == text,
    decreases text.len(),
{
    if text.len() > 0 {
        let front = text.drop_last();
        assert(front.len() > 0 ==> all_digits(front));
        lemma_no_points(front);
        assert(text.last() == text[text.len() - 1]);
        assert(front.push(text.last()) =~= text);
    } else {
        assert(without_points(text) =~= text);
    }
}

proof fn lemma_trimmed(text: Seq<char>)
    ensures
        without_trailing_zeros(text).len() <= text.len(),
    decreases text.len(),
{
    if text.len() > 0 && text.last() == '0' {
        lemma_trimmed(text.drop_last());
    }
}

/// An integer can be compared.
pub proof fn law_integers_can_be_compared(lexeme: Seq<char>)
    requires
        is_whole(lexeme),
    ensures
        comparable(JsonView::Number(lexeme)),
{
    let digits = unsigned_part(lexeme);
    assert(all_digits(digits));
    lemma_no_split(digits, 'e', 'E');
    lemma_no_split(digits, '.', '.');
    lemma_no_points(digits);
    lemma_trimmed(digits);
    let exponent = seq!['0'];
    assert(all_digits(exponent));
    reveal_with_fuel(digits_value, 2);
    assert(exponent.drop_last().len() == 0);
    assert(digits_value(exponent) == 0);
    assert(integer_value(exponent) == Some(0int));
    if digits[0] == '0' {
        assert(digits.skip(1).len() == 0);
        reveal_with_fuel(without_leading_zeros, 2);
        assert(without_leading_zeros(digits).len() == 0);
    } else {
        assert(without_leading_zeros(digits) == digits);
    }
}

proof fn lemma_split_before(text: Seq<char>, a: char, b: char, c: char)
    ensures
        split_at(text, a, b) matches Some(i) ==> 0 <= i < text.len() && split_at(
            text.push(c),
            a,
            b,
        ) == Some(i),
        split_at(text, a, b) is None && c != a && c != b ==> split_at(text.push(c), a, b) is None,
    decreases text.len(),
{
    let longer = text.push(c);
    if text.len() == 0 {
        assert(longer.skip(1) =~= text);
        assert(longer[0] == c);
    } else {
        assert(longer.skip(1) =~= text.skip(1).push(c));
        lemma_split_before(text.skip(1), a, b, c);
    }
}

proof fn lemma_leading_zeros(text: Seq<char>)
    ensures
        without_leading_zeros(text).len() > 0 ==> without_leading_zeros(text.push('0'))
            == without_leading_zeros(text).push('0'),
        without_leading_zeros(text).len() == 0 ==> without_leading_zeros(text.push('0')).len() == 0,
    decreases text.len(),
{
    let longer = text.push('0');
    if text.len() == 0 {
        assert(longer.skip(1) =~= text);
        assert(longer[0] == '0');
        assert(without_leading_zeros(longer.skip(1)).len() == 0);
    } else if text[0] == '0' {
        assert(longer.skip(1) =~= text.skip(1).push('0'));
        lemma_leading_zeros(text.skip(1));
    }
}

/// A zero at the end of a fraction does not change a number.
pub proof fn law_trailing_zeros_change_nothing(text: Seq<char>)
    requires
        split_at(unsigned_part(text), 'e', 'E') is None,
        split_at(unsigned_part(text), '.', '.') is Some,
        decimal_form(text) is Some,
        decimal_form(text.push('0')) is Some,
    ensures
        same_number(text, text.push('0')),
        same_number(text.push('0'), text),
{
    let longer = text.push('0');
    let u = unsigned_part(text);
    lemma_split_before(u, 'e', 'E', '0');
    lemma_split_before(u, '.', '.', '0');
    assert(text.len() > 0);
    assert(unsigned_part(longer) =~= u.push('0'));
    let points = without_points(u);
    assert(u.push('0').drop_last() =~= u);
    assert(without_points(u.push('0')) == points.push('0'));
    lemma_leading_zeros(points);
    let digits = without_leading_zeros(points);
    if digits.len() > 0 {
        assert(digits.push('0').drop_last() =~= digits);
        assert(without_trailing_zeros(digits.push('0')) == without_trailing_zeros(digits));
    }
}

/// Being one number is an equivalence, and numbers of different sign are one only where both are zero.
pub proof fn law_one_number_has_one_form(a: Seq<char>, b: Seq<char>, c: Seq<char>)
    ensures
        decimal_form(a) is Some ==> same_number(a, a),
        same_number(a, b) ==> same_number(b, a),
        same_number(a, b) && same_number(b, c) ==> same_number(a, c),
        same_number(a, b) && a.len() > 0 && a[0] == '-' && !(b.len() > 0 && b[0] == '-') ==> (
        decimal_form(a)->Some_0).digits == seq!['0'] && (decimal_form(a)->Some_0).exponent == 0,
{
}

/// Numbers are kept throughout: every member of an object that was written is there, with its numbers
/// kept, and every item of a list at its place.
pub proof fn law_numbers_are_kept_throughout(
    members: Seq<MemberView>,
    items: Seq<JsonView>,
    value: JsonView,
    i: int,
)
    ensures
        numbers_kept(JsonView::Object(members), value) && 0 <= i < members.len() ==> get_of(
            value,
            members[i].key,
        ) is Some && numbers_kept(members[i].value, get_of(value, members[i].key)->Some_0),
        numbers_kept(JsonView::Array(items), value) && 0 <= i < items.len() ==> (value matches
            JsonView::Array(parts) && i < parts.len() && numbers_kept(items[i], parts[i])),
{
    if numbers_kept(JsonView::Object(members), value) && 0 <= i < members.len() {
        lemma_member_kept_at(members, value, i);
    }
    if numbers_kept(JsonView::Array(items), value) && 0 <= i < items.len() {
        lemma_item_kept_at(items, value, i);
    }
}

proof fn lemma_member_kept_at(members: Seq<MemberView>, value: JsonView, i: int)
    requires
        members_kept(members, value),
        0 <= i < members.len(),
    ensures
        get_of(value, members[i].key) is Some,
        numbers_kept(members[i].value, get_of(value, members[i].key)->Some_0),
    decreases members.len(),
{
    if i < members.len() - 1 {
        assert(members.drop_last()[i] == members[i]);
        lemma_member_kept_at(members.drop_last(), value, i);
    }
}

proof fn lemma_item_kept_at(items: Seq<JsonView>, value: JsonView, i: int)
    requires
        items_kept(items, value),
        0 <= i < items.len(),
    ensures
        value matches JsonView::Array(parts) && i < parts.len() && numbers_kept(items[i], parts[i]),
    decreases items.len(),
{
    if i < items.len() - 1 {
        assert(items.drop_last()[i] == items[i]);
        lemma_item_kept_at(items.drop_last(), value, i);
    }
}

} // verus!
