//! Character sequences: the tests and constructions that identifiers and documents need.
use vstd::prelude::*;
use vstd::string::*;

verus! {

/// A character with the Unicode White_Space property.
pub open spec fn white_space(c: char) -> bool {
    let n = c as u32;
    ||| 0x9 <= n <= 0xd
    ||| n == 0x20
    ||| n == 0x85
    ||| n == 0xa0
    ||| n == 0x1680
    ||| 0x2000 <= n <= 0x200a
    ||| n == 0x2028
    ||| n == 0x2029
    ||| n == 0x202f
    ||| n == 0x205f
    ||| n == 0x3000
}

/// Nothing but white space.
pub open spec fn blank(text: Seq<char>) -> bool {
    forall|i: int| 0 <= i < text.len() ==> white_space(#[trigger] text[i])
}

/// A lower-case hexadecimal digit.
pub open spec fn hex_digit(c: char) -> bool {
    ('0' <= c && c <= '9') || ('a' <= c && c <= 'f')
}

/// The decimal digit `d`.
pub open spec fn digit(d: int) -> char {
    (48 + d) as char
}

/// The decimal notation of `n`.
pub open spec fn decimal_text(n: nat) -> Seq<char>
    decreases n,
{
    if n < 10 {
        seq![digit(n as int)]
    } else {
        decimal_text(n / 10).push(digit((n % 10) as int))
    }
}

/// The number that decimal digits write.
pub open spec fn digits_value(text: Seq<char>) -> int
    decreases text.len(),
{
    if text.len() == 0 {
        0
    } else {
        digits_value(text.drop_last()) * 10 + (text.last() as int - '0' as int)
    }
}

/// Nothing but decimal digits, and at least one.
pub open spec fn all_digits(text: Seq<char>) -> bool {
    &&& text.len() > 0
    &&& forall|i: int| 0 <= i < text.len() ==> '0' <= #[trigger] text[i] <= '9'
}

/// An integer of at most 64 bits, written without needless zeros or a needless sign.
pub open spec fn is_whole(text: Seq<char>) -> bool {
    let negative = text.len() > 0 && text[0] == '-';
    let digits = if negative {
        text.skip(1)
    } else {
        text
    };
    &&& all_digits(digits)
    &&& digits.len() <= 20
    &&& digits[0] != '0' || (digits.len() == 1 && !negative)
    &&& digits_value(digits) <= (if negative {
        0x8000_0000_0000_0000int
    } else {
        0xffff_ffff_ffff_ffffint
    })
}

/// `a` comes before `b` in the order of their characters.
pub open spec fn precedes(a: Seq<char>, b: Seq<char>) -> bool
    decreases a.len(),
{
    if b.len() == 0 {
        false
    } else if a.len() == 0 {
        true
    } else if a[0] == b[0] {
        precedes(a.skip(1), b.skip(1))
    } else {
        a[0] < b[0]
    }
}

pub fn is_white_space(c: char) -> (r: bool)
    ensures
        r == white_space(c),
{
    let n: u32 = c as u32;
    (0x9 <= n && n <= 0xd) || n == 0x20 || n == 0x85 || n == 0xa0 || n == 0x1680 || (0x2000 <= n && n
        <= 0x200a) || n == 0x2028 || n == 0x2029 || n == 0x202f || n == 0x205f || n == 0x3000
}

/// The characters of `text`.
pub fn chars_of(text: &str) -> (r: Vec<char>)
    ensures
        r@ == text@,
{
    let mut out: Vec<char> = Vec::new();
    for c in it: text.chars()
        invariant
            it.seq() == text@,
            out@ == text@.take(it.index()),
    {
        assert(text@.take(it.index() + 1) =~= text@.take(it.index()).push(c));
        out.push(c);
    }
    assert(text@.take(text@.len() as int) =~= text@);
    out
}

/// Collect characters into a string, by `String`'s `FromIterator`: the string holds exactly these
/// characters in this order.
#[verifier::external_body]
pub(crate) fn string_of(chars: &Vec<char>) -> (r: String)
    ensures
        r@ == chars@,
{
    chars.iter().collect::<String>()
}

/// Whether `text` is nothing but white space.
pub fn is_blank(text: &str) -> (r: bool)
    ensures
        r == blank(text@),
{
    let chars = chars_of(text);
    let mut i: usize = 0;
    while i < chars.len()
        invariant
            i <= chars.len(),
            chars@ == text@,
            forall|j: int| 0 <= j < i ==> white_space(#[trigger] text@[j]),
        decreases chars.len() - i,
    {
        if !is_white_space(chars[i]) {
            assert(!white_space(text@[i as int]));
            return false;
        }
        i = i + 1;
    }
    true
}

/// Whether `text` reads `literal`.
pub fn reads(text: &String, literal: &str) -> (r: bool)
    ensures
        r == (text@ == literal@),
{
    *text == literal.to_owned()
}

/// `first` followed by `second`.
pub fn concat(first: &str, second: &str) -> (r: String)
    ensures
        r@ == first@ + second@,
{
    let mut out = first.to_owned();
    out.append(second);
    out
}

/// Whether `text` begins with `prefix`.
pub fn begins_with(text: &str, prefix: &str) -> (r: bool)
    ensures
        r == prefix@.is_prefix_of(text@),
{
    let a = chars_of(text);
    let b = chars_of(prefix);
    if b.len() > a.len() {
        return false;
    }
    let mut i: usize = 0;
    while i < b.len()
        invariant
            i <= b.len() <= a.len(),
            a@ == text@,
            b@ == prefix@,
            forall|j: int| 0 <= j < i ==> a@[j] == b@[j],
        decreases b.len() - i,
    {
        if a[i] != b[i] {
            assert(text@.take(prefix@.len() as int)[i as int] != prefix@[i as int]);
            return false;
        }
        i = i + 1;
    }
    assert(text@.take(prefix@.len() as int) =~= prefix@);
    true
}

fn digit_char(d: u8) -> (r: char)
    requires
        d < 10,
    ensures
        r == digit(d as int),
{
    (48 + d) as char
}

/// The decimal notation of `n`.
pub fn decimal(n: u64) -> (r: String)
    ensures
        r@ == decimal_text(n as nat),
{
    let mut digits: Vec<char> = Vec::new();
    let mut rest: u64 = n;
    let ghost mut low: Seq<char> = Seq::empty();
    while rest >= 10
        invariant
            decimal_text(n as nat) == decimal_text(rest as nat) + low,
            digits@ == low.reverse(),
        decreases rest,
    {
        let d: u8 = (rest % 10) as u8;
        digits.push(digit_char(d));
        proof {
            assert(decimal_text(rest as nat) + low =~= decimal_text((rest / 10) as nat) + (seq![
                digit(d as int),
            ] + low));
            low = seq![digit(d as int)] + low;
            assert(digits@ =~= low.reverse());
        }
        rest = rest / 10;
    }
    digits.push(digit_char(rest as u8));
    proof {
        low = seq![digit(rest as int)] + low;
        assert(digits@ =~= low.reverse());
        assert(decimal_text(n as nat) =~= low);
    }
    let mut out: Vec<char> = Vec::new();
    let mut i: usize = digits.len();
    while i > 0
        invariant
            i <= digits.len(),
            digits@ == low.reverse(),
            out@ =~= low.take(digits.len() - i),
        decreases i,
    {
        i = i - 1;
        assert(digits@[i as int] == low[digits.len() - 1 - i]);
        assert(low.take(digits.len() - i) =~= low.take(digits.len() - 1 - i).push(
            low[digits.len() - 1 - i],
        ));
        out.push(digits[i]);
    }
    assert(out@ =~= low);
    string_of(&out)
}

/// Whether `a` comes before `b` in the order of their characters.
pub fn comes_before(a: &str, b: &str) -> (r: bool)
    ensures
        r == precedes(a@, b@),
{
    let x = chars_of(a);
    let y = chars_of(b);
    let mut i: usize = 0;
    assert(a@.skip(0) =~= a@);
    assert(b@.skip(0) =~= b@);
    while i < x.len() && i < y.len()
        invariant
            i <= x.len(),
            i <= y.len(),
            x@ == a@,
            y@ == b@,
            precedes(a@, b@) == precedes(a@.skip(i as int), b@.skip(i as int)),
        decreases x.len() - i,
    {
        assert(a@.skip(i as int)[0] == x@[i as int]);
        assert(b@.skip(i as int)[0] == y@[i as int]);
        assert(a@.skip(i as int).skip(1) =~= a@.skip(i + 1));
        assert(b@.skip(i as int).skip(1) =~= b@.skip(i + 1));
        if x[i] != y[i] {
            return x[i] < y[i];
        }
        i = i + 1;
    }
    i == x.len() && i < y.len()
}

pub proof fn lemma_precedes_total(a: Seq<char>, b: Seq<char>)
    ensures
        a == b || precedes(a, b) || precedes(b, a),
        !(precedes(a, b) && precedes(b, a)),
        a == b ==> !precedes(a, b),
    decreases a.len(),
{
    if a.len() == 0 && b.len() == 0 {
        assert(a =~= b);
    } else if a.len() > 0 && b.len() > 0 && a[0] == b[0] {
        lemma_precedes_total(a.skip(1), b.skip(1));
        if a.skip(1) == b.skip(1) {
            assert(a =~= seq![a[0]] + a.skip(1));
            assert(b =~= seq![b[0]] + b.skip(1));
        }
    }
}

pub proof fn lemma_precedes_transitive(a: Seq<char>, b: Seq<char>, c: Seq<char>)
    requires
        precedes(a, b),
        precedes(b, c),
    ensures
        precedes(a, c),
    decreases a.len(),
{
    if a.len() > 0 && b.len() > 0 && c.len() > 0 && a[0] == b[0] && b[0] == c[0] {
        lemma_precedes_transitive(a.skip(1), b.skip(1), c.skip(1));
    }
}

/// Whether a character is a letter or a digit in the sense of std's `char::is_alphanumeric`.
pub uninterp spec fn alphanumeric(c: char) -> bool;

/// Call std's `char::is_alphanumeric`. Of the ASCII characters it accepts exactly the letters and the
/// digits; what it says of others depends on the Unicode tables of std and is only named.
#[verifier::external_body]
pub(crate) fn is_alphanumeric(c: char) -> (r: bool)
    ensures
        r == alphanumeric(c),
        (c as u32) < 128 ==> r == ('a' <= c <= 'z' || 'A' <= c <= 'Z' || '0' <= c <= '9'),
{
    c.is_alphanumeric()
}

/// The lower case of a character in the sense of std's `char::to_lowercase`.
pub uninterp spec fn lowercase(c: char) -> Seq<char>;

/// Call std's `char::to_lowercase`. An ASCII character becomes one character, which differs from it
/// only if it is an upper case letter; what others become is only named.
#[verifier::external_body]
pub(crate) fn to_lowercase(c: char) -> (r: String)
    ensures
        r@ == lowercase(c),
        (c as u32) < 128 && !('A' <= c <= 'Z') ==> r@ == seq![c],
        'A' <= c <= 'Z' ==> r@ == seq![((c as u32) + 32) as char],
{
    c.to_lowercase().collect::<String>()
}

/// One text stands within another.
pub open spec fn holds(text: Seq<char>, word: Seq<char>) -> bool {
    exists|i: int|
        0 <= i <= text.len() - word.len() && #[trigger] text.subrange(i, i + word.len()) == word
}

/// Whether one text stands within another.
pub fn has_word(text: &str, word: &str) -> (r: bool)
    ensures
        r == holds(text@, word@),
{
    let all = chars_of(text);
    let part = chars_of(word);
    if part.len() > all.len() {
        return false;
    }
    let mut i: usize = 0;
    while i <= all.len() - part.len()
        invariant
            all@ == text@,
            part@ == word@,
            part.len() <= all.len(),
            i <= all.len() - part.len() + 1,
            forall|j: int|
                0 <= j < i ==> #[trigger] text@.subrange(j, j + word@.len()) != word@,
        decreases all.len() - part.len() + 1 - i,
    {
        let mut k: usize = 0;
        while k < part.len() && all[i + k] == part[k]
            invariant
                all@ == text@,
                part@ == word@,
                k <= part.len() <= all.len(),
                i <= all.len() - part.len(),
                forall|m: int| 0 <= m < k ==> all@[i + m] == #[trigger] part@[m],
            decreases part.len() - k,
        {
            k = k + 1;
        }
        if k == part.len() {
            assert(text@.subrange(i as int, i + word@.len()) =~= word@);
            return true;
        }
        assert(text@.subrange(i as int, i + word@.len())[k as int] != word@[k as int]);
        i = i + 1;
    }
    false
}

/// Texts are in a strict order: of two different texts just one comes first, none comes before
/// itself, and what comes before an earlier text comes before a later one. A text comes before
/// whatever goes on from it.
pub proof fn law_texts_are_in_order(a: Seq<char>, b: Seq<char>, c: Seq<char>)
    ensures
        !precedes(a, a),
        a != b ==> (precedes(a, b) <==> !precedes(b, a)),
        precedes(a, b) && precedes(b, c) ==> precedes(a, c),
        b.len() > 0 ==> precedes(a, a + b),
{
    lemma_precedes_total(a, a);
    lemma_precedes_total(a, b);
    if precedes(a, b) && precedes(b, c) {
        lemma_precedes_transitive(a, b, c);
    }
    if b.len() > 0 {
        lemma_precedes_longer(a, b);
    }
}

proof fn lemma_precedes_longer(a: Seq<char>, b: Seq<char>)
    requires
        b.len() > 0,
    ensures
        precedes(a, a + b),
    decreases a.len(),
{
    if a.len() > 0 {
        assert((a + b).skip(1) =~= a.skip(1) + b);
        lemma_precedes_longer(a.skip(1), b);
    }
}

/// A text is blank where all of its parts are. Spaces, tabs and line ends are blank; letters, digits
/// and the signs that can be printed beside them are not.
pub proof fn law_blank_texts_show_nothing(a: Seq<char>, b: Seq<char>, c: char)
    ensures
        blank(a + b) <==> blank(a) && blank(b),
        c == ' ' || c == '\t' || c == '\n' || c == '\r' ==> blank(seq![c]),
        '!' <= c <= '~' ==> !blank(seq![c]),
{
    let both = a + b;
    if blank(both) {
        assert forall|i: int| 0 <= i < a.len() implies white_space(#[trigger] a[i]) by {
            assert(white_space(both[i]));
        }
        assert forall|i: int| 0 <= i < b.len() implies white_space(#[trigger] b[i]) by {
            assert(white_space(both[a.len() + i]));
        }
    }
    if blank(a) && blank(b) {
        assert forall|i: int| 0 <= i < both.len() implies white_space(#[trigger] both[i]) by {
            if i < a.len() {
                assert(white_space(a[i]));
            } else {
                assert(white_space(b[i - a.len()]));
            }
        }
    }
    let one = seq![c];
    assert(one[0] == c);
    if blank(one) {
        assert(white_space(one[0]));
    }
}

/// A number that is written down reads back as itself.
pub proof fn law_numbers_read_back(n: nat)
    ensures
        digits_value(decimal_text(n)) == n,
        all_digits(decimal_text(n)),
    decreases n,
{
    let text = decimal_text(n);
    if n < 10 {
        assert(text.drop_last() =~= Seq::<char>::empty());
        assert(digits_value(text.drop_last()) == 0);
    } else {
        law_numbers_read_back(n / 10);
        let front = decimal_text(n / 10);
        assert(text.drop_last() =~= front);
        assert forall|i: int| 0 <= i < text.len() implies '0' <= #[trigger] text[i] <= '9' by {
            if i < front.len() {
                assert(text[i] == front[i]);
            }
        }
    }
}

/// A word stands in every text around it.
pub proof fn law_words_stand_in_what_is_around_them(
    before: Seq<char>,
    word: Seq<char>,
    after: Seq<char>,
)
    ensures
        holds(before + word + after, word),
        word.len() > 0 ==> !holds(Seq::empty(), word),
{
    let text = before + word + after;
    let i = before.len() as int;
    assert(text.subrange(i, i + word.len()) =~= word);
}

} // verus!
