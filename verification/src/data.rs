//! Values that can be compared and copied by what they hold, and the searches over
//! lists of them that the contracts of the crate are stated with.
use vstd::prelude::*;

use crate::error::ContractError;
#[allow(unused_imports)]
use crate::error::{failure, Fault};

verus! {

/// A value that is fully described by its mathematical view.
pub trait Data: DeepView + Sized {
    /// Whether two values hold the same data.
    fn same(&self, other: &Self) -> (r: bool)
        ensures
            r == (self.deep_view() == other.deep_view()),
    ;

    /// A separate value that holds the same data.
    fn copy(&self) -> (r: Self)
        ensures
            r.deep_view() == self.deep_view(),
    ;
}

impl Data for String {
    fn same(&self, other: &Self) -> (r: bool) {
        *self == *other
    }

    fn copy(&self) -> (r: Self) {
        self.clone()
    }
}

impl Data for bool {
    fn same(&self, other: &Self) -> (r: bool) {
        *self == *other
    }

    fn copy(&self) -> (r: Self) {
        *self
    }
}

impl Data for u32 {
    fn same(&self, other: &Self) -> (r: bool) {
        *self == *other
    }

    fn copy(&self) -> (r: Self) {
        *self
    }
}

impl Data for u64 {
    fn same(&self, other: &Self) -> (r: bool) {
        *self == *other
    }

    fn copy(&self) -> (r: Self) {
        *self
    }
}

impl Data for i64 {
    fn same(&self, other: &Self) -> (r: bool) {
        *self == *other
    }

    fn copy(&self) -> (r: Self) {
        *self
    }
}

impl Data for usize {
    fn same(&self, other: &Self) -> (r: bool) {
        *self == *other
    }

    fn copy(&self) -> (r: Self) {
        *self
    }
}

impl<T: Data> Data for Option<T> {
    fn same(&self, other: &Self) -> (r: bool) {
        match (self, other) {
            (Some(a), Some(b)) => a.same(b),
            (None, None) => true,
            _ => false,
        }
    }

    fn copy(&self) -> (r: Self) {
        match self {
            Some(a) => Some(a.copy()),
            None => None,
        }
    }
}

impl<T: Data> Data for Box<T> {
    fn same(&self, other: &Self) -> (r: bool) {
        (**self).same(&**other)
    }

    fn copy(&self) -> (r: Self) {
        Box::new((**self).copy())
    }
}

impl<T: Data> Data for Vec<T> {
    fn same(&self, other: &Self) -> (r: bool) {
        if self.len() != other.len() {
            assert(self.deep_view().len() != other.deep_view().len());
            return false;
        }
        let mut i: usize = 0;
        while i < self.len()
            invariant
                self.len() == other.len(),
                i <= self.len(),
                forall|j: int| 0 <= j < i ==> self.deep_view()[j] == other.deep_view()[j],
            decreases self.len() - i,
        {
            if !self[i].same(&other[i]) {
                assert(self.deep_view()[i as int] != other.deep_view()[i as int]);
                return false;
            }
            i = i + 1;
        }
        assert(self.deep_view() =~= other.deep_view());
        true
    }

    fn copy(&self) -> (r: Self) {
        let mut out: Vec<T> = Vec::new();
        let mut i: usize = 0;
        while i < self.len()
            invariant
                i <= self.len(),
                out.len() == i,
                forall|j: int| 0 <= j < i ==> out.deep_view()[j] == self.deep_view()[j],
            decreases self.len() - i,
        {
            out.push(self[i].copy());
            i = i + 1;
        }
        assert(out.deep_view() =~= self.deep_view());
        out
    }
}

/// Some item of `s` satisfies `p`.
pub open spec fn some_in<V>(s: Seq<V>, p: spec_fn(V) -> bool) -> bool {
    exists|i: int| 0 <= i < s.len() && p(#[trigger] s[i])
}

/// Every item of `s` satisfies `p`.
pub open spec fn every<V>(s: Seq<V>, p: spec_fn(V) -> bool) -> bool {
    forall|i: int| 0 <= i < s.len() ==> p(#[trigger] s[i])
}

/// The first item of `s` that satisfies `p`.
pub open spec fn first_in<V>(s: Seq<V>, p: spec_fn(V) -> bool) -> Option<V>
    decreases s.len(),
{
    if s.len() == 0 {
        None
    } else if p(s[0]) {
        Some(s[0])
    } else {
        first_in(s.skip(1), p)
    }
}

/// The position of the first item of `s` that satisfies `p`, counted from `from`.
pub open spec fn position_in<V>(s: Seq<V>, p: spec_fn(V) -> bool) -> Option<int>
    decreases s.len(),
{
    if s.len() == 0 {
        None
    } else if p(s[0]) {
        Some(0)
    } else {
        match position_in(s.skip(1), p) {
            Some(i) => Some(i + 1),
            None => None,
        }
    }
}

/// The last item of `s` that satisfies `p`.
pub open spec fn last_in<V>(s: Seq<V>, p: spec_fn(V) -> bool) -> Option<V>
    decreases s.len(),
{
    if s.len() == 0 {
        None
    } else if p(s.last()) {
        Some(s.last())
    } else {
        last_in(s.drop_last(), p)
    }
}

/// How many items of `s` satisfy `p`.
pub open spec fn count_in<V>(s: Seq<V>, p: spec_fn(V) -> bool) -> nat
    decreases s.len(),
{
    if s.len() == 0 {
        0
    } else {
        (if p(s[0]) {
            1nat
        } else {
            0nat
        }) + count_in(s.skip(1), p)
    }
}

/// The items of `s` that satisfy `p`, in their order.
pub open spec fn kept<V>(s: Seq<V>, p: spec_fn(V) -> bool) -> Seq<V>
    decreases s.len(),
{
    if s.len() == 0 {
        Seq::empty()
    } else if p(s[0]) {
        seq![s[0]] + kept(s.skip(1), p)
    } else {
        kept(s.skip(1), p)
    }
}

/// What the first item of `s` that `f` rejects is rejected with.
pub open spec fn first_fault<V>(s: Seq<V>, f: spec_fn(V) -> Option<Fault>) -> Option<Fault>
    decreases s.len(),
{
    if s.len() == 0 {
        None
    } else if f(s[0]) is Some {
        f(s[0])
    } else {
        first_fault(s.skip(1), f)
    }
}

/// What the first pair of items at the same position that `f` rejects is rejected with. Items
/// without a partner are not looked at.
pub open spec fn first_pair_fault<A, B>(
    a: Seq<A>,
    b: Seq<B>,
    f: spec_fn(A, B) -> Option<Fault>,
) -> Option<Fault>
    decreases a.len(),
{
    if a.len() == 0 || b.len() == 0 {
        None
    } else if f(a[0], b[0]) is Some {
        f(a[0], b[0])
    } else {
        first_pair_fault(a.skip(1), b.skip(1), f)
    }
}

/// Some pair of items at the same position satisfies `p`.
pub open spec fn some_pair<A, B>(a: Seq<A>, b: Seq<B>, p: spec_fn(A, B) -> bool) -> bool {
    exists|i: int| 0 <= i < a.len() && i < b.len() && p(#[trigger] a[i], #[trigger] b[i])
}

/// What the first position from `from` to `to` that `f` rejects is rejected with.
pub open spec fn first_index_fault(from: int, to: int, f: spec_fn(int) -> Option<Fault>) -> Option<
    Fault,
>
    decreases to - from,
{
    if from >= to {
        None
    } else if f(from) is Some {
        f(from)
    } else {
        first_index_fault(from + 1, to, f)
    }
}

/// The last item of `s`.
pub open spec fn final_of<V>(s: Seq<V>) -> Option<V> {
    if s.len() == 0 {
        None
    } else {
        Some(s.last())
    }
}

/// No two items of `s` are equal.
pub open spec fn distinct<V>(s: Seq<V>) -> bool {
    forall|i: int, j: int| 0 <= i < j < s.len() ==> s[i] != s[j]
}

pub proof fn lemma_first_in<V>(s: Seq<V>, p: spec_fn(V) -> bool)
    ensures
        first_in(s, p) is Some <==> some_in(s, p),
        first_in(s, p) matches Some(x) ==> p(x) && s.contains(x),
    decreases s.len(),
{
    if s.len() > 0 {
        lemma_first_in(s.skip(1), p);
        if p(s[0]) {
            assert(s.contains(s[0]));
        } else {
            if some_in(s, p) {
                let i = choose|i: int| 0 <= i < s.len() && p(#[trigger] s[i]);
                assert(s.skip(1)[i - 1] == s[i]);
            }
            if some_in(s.skip(1), p) {
                let i = choose|i: int| 0 <= i < s.skip(1).len() && p(#[trigger] s.skip(1)[i]);
                assert(s[i + 1] == s.skip(1)[i]);
            }
            if let Some(x) = first_in(s.skip(1), p) {
                let i = choose|i: int| 0 <= i < s.skip(1).len() && s.skip(1)[i] == x;
                assert(s[i + 1] == x);
            }
        }
    }
}

pub proof fn lemma_first_fault<V>(s: Seq<V>, f: spec_fn(V) -> Option<Fault>)
    ensures
        first_fault(s, f) is None <==> (forall|i: int|
            0 <= i < s.len() ==> f(#[trigger] s[i]) is None),
    decreases s.len(),
{
    if s.len() > 0 {
        lemma_first_fault(s.skip(1), f);
        if forall|i: int| 0 <= i < s.len() ==> f(#[trigger] s[i]) is None {
            assert forall|i: int| 0 <= i < s.skip(1).len() implies f(
                #[trigger] s.skip(1)[i],
            ) is None by {
                assert(s.skip(1)[i] == s[i + 1]);
            }
        }
        if first_fault(s, f) is None {
            assert forall|i: int| 0 <= i < s.len() implies f(#[trigger] s[i]) is None by {
                if i > 0 {
                    assert(s.skip(1)[i - 1] == s[i]);
                }
            }
        }
    }
}

pub proof fn lemma_first_pair_fault<A, B>(
    a: Seq<A>,
    b: Seq<B>,
    f: spec_fn(A, B) -> Option<Fault>,
)
    requires
        first_pair_fault(a, b, f) is None,
    ensures
        forall|i: int|
            0 <= i < a.len() && i < b.len() ==> f(#[trigger] a[i], #[trigger] b[i]) is None,
    decreases a.len(),
{
    if a.len() > 0 && b.len() > 0 {
        lemma_first_pair_fault(a.skip(1), b.skip(1), f);
        assert forall|i: int| 0 <= i < a.len() && i < b.len() implies f(
            #[trigger] a[i],
            #[trigger] b[i],
        ) is None by {
            if i > 0 {
                assert(a.skip(1)[i - 1] == a[i]);
                assert(b.skip(1)[i - 1] == b[i]);
            }
        }
    }
}

pub proof fn lemma_first_index_fault(from: int, to: int, f: spec_fn(int) -> Option<Fault>)
    requires
        first_index_fault(from, to, f) is None,
    ensures
        forall|i: int| from <= i < to ==> #[trigger] f(i) is None,
    decreases to - from,
{
    if from < to {
        lemma_first_index_fault(from + 1, to, f);
    }
}

pub proof fn lemma_no_index_fault(from: int, to: int, f: spec_fn(int) -> Option<Fault>)
    requires
        forall|i: int| from <= i < to ==> #[trigger] f(i) is None,
    ensures
        first_index_fault(from, to, f) is None,
    decreases to - from,
{
    if from < to {
        lemma_no_index_fault(from + 1, to, f);
    }
}

pub proof fn lemma_position_in<V>(s: Seq<V>, p: spec_fn(V) -> bool)
    ensures
        position_in(s, p) is Some <==> some_in(s, p),
        position_in(s, p) matches Some(i) ==> 0 <= i < s.len() && p(s[i]) && forall|k: int|
            0 <= k < i ==> !p(#[trigger] s[k]),
    decreases s.len(),
{
    if s.len() > 0 {
        let rest = s.skip(1);
        lemma_position_in(rest, p);
        if p(s[0]) {
            assert(some_in(s, p));
        } else {
            if some_in(s, p) {
                let i = choose|i: int| 0 <= i < s.len() && p(#[trigger] s[i]);
                assert(rest[i - 1] == s[i]);
            }
            if let Some(i) = position_in(rest, p) {
                assert(p(s[i + 1]));
                assert forall|k: int| 0 <= k < i + 1 implies !p(#[trigger] s[k]) by {
                    if k > 0 {
                        assert(!p(rest[k - 1]));
                    }
                }
            }
        }
    }
}

/// An item that alone satisfies `p` is the first that does, and stands where it is found.
pub proof fn lemma_found_at<V>(s: Seq<V>, p: spec_fn(V) -> bool, i: int)
    requires
        0 <= i < s.len(),
        p(s[i]),
        forall|k: int| 0 <= k < i ==> !p(#[trigger] s[k]),
    ensures
        first_in(s, p) == Some(s[i]),
        position_in(s, p) == Some(i),
    decreases s.len(),
{
    if i > 0 {
        assert(!p(s[0]));
        let rest = s.skip(1);
        assert forall|k: int| 0 <= k < i - 1 implies !p(#[trigger] rest[k]) by {
            assert(!p(s[k + 1]));
        }
        lemma_found_at(rest, p, i - 1);
    }
}

pub proof fn lemma_kept<V>(s: Seq<V>, p: spec_fn(V) -> bool)
    ensures
        every(kept(s, p), p),
        kept(s, p).len() <= s.len(),
        forall|x: V| #[trigger] kept(s, p).contains(x) <==> s.contains(x) && p(x),
        count_in(s, p) == kept(s, p).len(),
    decreases s.len(),
{
    if s.len() > 0 {
        lemma_kept(s.skip(1), p);
        let rest = kept(s.skip(1), p);
        assert forall|x: V| #[trigger] kept(s, p).contains(x) <==> s.contains(x) && p(x) by {
            if s.contains(x) && p(x) {
                let i = choose|i: int| 0 <= i < s.len() && s[i] == x;
                if i > 0 {
                    assert(s.skip(1)[i - 1] == x);
                    assert(rest.contains(x));
                    let j = choose|j: int| 0 <= j < rest.len() && rest[j] == x;
                    if p(s[0]) {
                        assert(kept(s, p)[j + 1] == x);
                    }
                } else {
                    assert(kept(s, p)[0] == x);
                }
            }
            if kept(s, p).contains(x) {
                let j = choose|j: int| 0 <= j < kept(s, p).len() && kept(s, p)[j] == x;
                if p(s[0]) && j == 0 {
                    assert(s[0] == x);
                } else {
                    if p(s[0]) {
                        assert(rest[j - 1] == x);
                    }
                    assert(rest.contains(x));
                    assert(s.skip(1).contains(x));
                    let i = choose|i: int| 0 <= i < s.skip(1).len() && s.skip(1)[i] == x;
                    assert(s[i + 1] == x);
                }
            }
        }
    }
}

/// Whether some item satisfies `f`.
pub fn any<T: DeepView, F: Fn(&T) -> bool>(v: &Vec<T>, f: F, p: Ghost<spec_fn(T::V) -> bool>) -> (r:
    bool)
    requires
        forall|x: &T| call_requires(f, (x,)),
        forall|x: &T, b: bool| call_ensures(f, (x,), b) ==> b == p@(x.deep_view()),
    ensures
        r == some_in(v.deep_view(), p@),
{
    let mut i: usize = 0;
    while i < v.len()
        invariant
            i <= v.len(),
            forall|x: &T| call_requires(f, (x,)),
            forall|x: &T, b: bool| call_ensures(f, (x,), b) ==> b == p@(x.deep_view()),
            forall|j: int| 0 <= j < i ==> !p@(#[trigger] v.deep_view()[j]),
        decreases v.len() - i,
    {
        if f(&v[i]) {
            assert(p@(v.deep_view()[i as int]));
            return true;
        }
        i = i + 1;
    }
    false
}

/// Whether some item before position `n` satisfies `f`.
pub fn any_before<T: DeepView, F: Fn(&T) -> bool>(
    v: &Vec<T>,
    n: usize,
    f: F,
    p: Ghost<spec_fn(T::V) -> bool>,
) -> (r: bool)
    requires
        n <= v.len(),
        forall|x: &T| call_requires(f, (x,)),
        forall|x: &T, b: bool| call_ensures(f, (x,), b) ==> b == p@(x.deep_view()),
    ensures
        r == some_in(v.deep_view().take(n as int), p@),
{
    let ghost s = v.deep_view().take(n as int);
    let mut i: usize = 0;
    while i < n
        invariant
            i <= n <= v.len(),
            s == v.deep_view().take(n as int),
            forall|x: &T| call_requires(f, (x,)),
            forall|x: &T, b: bool| call_ensures(f, (x,), b) ==> b == p@(x.deep_view()),
            forall|j: int| 0 <= j < i ==> !p@(#[trigger] s[j]),
        decreases n - i,
    {
        if f(&v[i]) {
            assert(p@(s[i as int]));
            return true;
        }
        i = i + 1;
    }
    false
}

/// Whether every item satisfies `f`.
pub fn all<T: DeepView, F: Fn(&T) -> bool>(v: &Vec<T>, f: F, p: Ghost<spec_fn(T::V) -> bool>) -> (r:
    bool)
    requires
        forall|x: &T| call_requires(f, (x,)),
        forall|x: &T, b: bool| call_ensures(f, (x,), b) ==> b == p@(x.deep_view()),
    ensures
        r == every(v.deep_view(), p@),
{
    let mut i: usize = 0;
    while i < v.len()
        invariant
            i <= v.len(),
            forall|x: &T| call_requires(f, (x,)),
            forall|x: &T, b: bool| call_ensures(f, (x,), b) ==> b == p@(x.deep_view()),
            forall|j: int| 0 <= j < i ==> p@(#[trigger] v.deep_view()[j]),
        decreases v.len() - i,
    {
        if !f(&v[i]) {
            assert(!p@(v.deep_view()[i as int]));
            return false;
        }
        i = i + 1;
    }
    true
}

/// The first item that satisfies `f`.
pub fn find<'a, T: DeepView, F: Fn(&T) -> bool>(
    v: &'a Vec<T>,
    f: F,
    p: Ghost<spec_fn(T::V) -> bool>,
) -> (r: Option<&'a T>)
    requires
        forall|x: &T| call_requires(f, (x,)),
        forall|x: &T, b: bool| call_ensures(f, (x,), b) ==> b == p@(x.deep_view()),
    ensures
        r.deep_view() == first_in(v.deep_view(), p@),
{
    let ghost s = v.deep_view();
    let mut i: usize = 0;
    assert(s.skip(0) =~= s);
    while i < v.len()
        invariant
            i <= v.len(),
            s == v.deep_view(),
            forall|x: &T| call_requires(f, (x,)),
            forall|x: &T, b: bool| call_ensures(f, (x,), b) ==> b == p@(x.deep_view()),
            first_in(s, p@) == first_in(s.skip(i as int), p@),
        decreases v.len() - i,
    {
        assert(s.skip(i as int)[0] == v@[i as int].deep_view());
        assert(s.skip(i as int).skip(1) =~= s.skip(i + 1));
        if f(&v[i]) {
            return Some(&v[i]);
        }
        i = i + 1;
    }
    None
}

/// The position of the first item that satisfies `f`.
pub fn position<T: DeepView, F: Fn(&T) -> bool>(
    v: &Vec<T>,
    f: F,
    p: Ghost<spec_fn(T::V) -> bool>,
) -> (r: Option<usize>)
    requires
        forall|x: &T| call_requires(f, (x,)),
        forall|x: &T, b: bool| call_ensures(f, (x,), b) ==> b == p@(x.deep_view()),
    ensures
        match r {
            Some(i) => position_in(v.deep_view(), p@) == Some(i as int) && i < v.len() && p@(
                v.deep_view()[i as int],
            ),
            None => position_in(v.deep_view(), p@) is None,
        },
{
    let ghost s = v.deep_view();
    let mut i: usize = 0;
    assert(s.skip(0) =~= s);
    while i < v.len()
        invariant
            i <= v.len(),
            s == v.deep_view(),
            forall|x: &T| call_requires(f, (x,)),
            forall|x: &T, b: bool| call_ensures(f, (x,), b) ==> b == p@(x.deep_view()),
            match position_in(s.skip(i as int), p@) {
                Some(k) => position_in(s, p@) == Some(k + i),
                None => position_in(s, p@) is None,
            },
        decreases v.len() - i,
    {
        assert(s.skip(i as int)[0] == v@[i as int].deep_view());
        assert(s.skip(i as int).skip(1) =~= s.skip(i + 1));
        if f(&v[i]) {
            return Some(i);
        }
        i = i + 1;
    }
    None
}

/// The last item that satisfies `f`.
pub fn find_last<'a, T: DeepView, F: Fn(&T) -> bool>(
    v: &'a Vec<T>,
    f: F,
    p: Ghost<spec_fn(T::V) -> bool>,
) -> (r: Option<&'a T>)
    requires
        forall|x: &T| call_requires(f, (x,)),
        forall|x: &T, b: bool| call_ensures(f, (x,), b) ==> b == p@(x.deep_view()),
    ensures
        r.deep_view() == last_in(v.deep_view(), p@),
{
    let ghost s = v.deep_view();
    let mut i: usize = v.len();
    assert(s.take(s.len() as int) =~= s);
    while i > 0
        invariant
            i <= v.len(),
            s == v.deep_view(),
            forall|x: &T| call_requires(f, (x,)),
            forall|x: &T, b: bool| call_ensures(f, (x,), b) ==> b == p@(x.deep_view()),
            last_in(s, p@) == last_in(s.take(i as int), p@),
        decreases i,
    {
        assert(s.take(i as int).last() == v@[i - 1].deep_view());
        assert(s.take(i as int).drop_last() =~= s.take(i - 1));
        if f(&v[i - 1]) {
            return Some(&v[i - 1]);
        }
        i = i - 1;
    }
    None
}

/// How many items satisfy `f`.
pub fn count<T: DeepView, F: Fn(&T) -> bool>(v: &Vec<T>, f: F, p: Ghost<spec_fn(T::V) -> bool>) -> (r:
    usize)
    requires
        forall|x: &T| call_requires(f, (x,)),
        forall|x: &T, b: bool| call_ensures(f, (x,), b) ==> b == p@(x.deep_view()),
    ensures
        r == count_in(v.deep_view(), p@),
        r <= v.len(),
{
    let ghost s = v.deep_view();
    let mut n: usize = 0;
    let mut i: usize = 0;
    assert(s.skip(0) =~= s);
    while i < v.len()
        invariant
            i <= v.len(),
            n <= i,
            s == v.deep_view(),
            forall|x: &T| call_requires(f, (x,)),
            forall|x: &T, b: bool| call_ensures(f, (x,), b) ==> b == p@(x.deep_view()),
            count_in(s, p@) == n + count_in(s.skip(i as int), p@),
        decreases v.len() - i,
    {
        assert(s.skip(i as int)[0] == v@[i as int].deep_view());
        assert(s.skip(i as int).skip(1) =~= s.skip(i + 1));
        if f(&v[i]) {
            n = n + 1;
        }
        i = i + 1;
    }
    n
}

/// Copies of the items that satisfy `f`, in their order.
pub fn keep<T: Data, F: Fn(&T) -> bool>(v: &Vec<T>, f: F, p: Ghost<spec_fn(T::V) -> bool>) -> (r:
    Vec<T>)
    requires
        forall|x: &T| call_requires(f, (x,)),
        forall|x: &T, b: bool| call_ensures(f, (x,), b) ==> b == p@(x.deep_view()),
    ensures
        r.deep_view() == kept(v.deep_view(), p@),
{
    let ghost s = v.deep_view();
    let mut out: Vec<T> = Vec::new();
    let mut i: usize = 0;
    assert(s.skip(0) =~= s);
    assert(out.deep_view() =~= Seq::<T::V>::empty());
    while i < v.len()
        invariant
            i <= v.len(),
            s == v.deep_view(),
            forall|x: &T| call_requires(f, (x,)),
            forall|x: &T, b: bool| call_ensures(f, (x,), b) ==> b == p@(x.deep_view()),
            kept(s, p@) =~= out.deep_view() + kept(s.skip(i as int), p@),
        decreases v.len() - i,
    {
        assert(s.skip(i as int)[0] == v@[i as int].deep_view());
        assert(s.skip(i as int).skip(1) =~= s.skip(i + 1));
        if f(&v[i]) {
            let ghost before = out.deep_view();
            out.push(v[i].copy());
            assert(out.deep_view() =~= before.push(v@[i as int].deep_view()));
        }
        i = i + 1;
    }
    assert(kept(s.skip(i as int), p@) =~= Seq::<T::V>::empty());
    out
}

/// What `f` makes of each item, in order.
pub fn map_each<T: DeepView, U: DeepView, F: Fn(&T) -> U>(
    v: &Vec<T>,
    f: F,
    g: Ghost<spec_fn(T::V) -> U::V>,
) -> (r: Vec<U>)
    requires
        forall|x: &T| call_requires(f, (x,)),
        forall|x: &T, y: U| call_ensures(f, (x,), y) ==> y.deep_view() == g@(x.deep_view()),
    ensures
        r.deep_view() == v.deep_view().map_values(g@),
{
    let mut out: Vec<U> = Vec::new();
    let mut i: usize = 0;
    while i < v.len()
        invariant
            i <= v.len(),
            out.len() == i,
            forall|x: &T| call_requires(f, (x,)),
            forall|x: &T, y: U| call_ensures(f, (x,), y) ==> y.deep_view() == g@(x.deep_view()),
            forall|j: int| 0 <= j < i ==> out.deep_view()[j] == g@(#[trigger] v.deep_view()[j]),
        decreases v.len() - i,
    {
        let ghost before = out.deep_view();
        out.push(f(&v[i]));
        assert(out.deep_view() =~= before.push(g@(v.deep_view()[i as int])));
        i = i + 1;
    }
    assert(out.deep_view() =~= v.deep_view().map_values(g@));
    out
}

/// The first failure that `f` reports for an item.
pub fn check_each<T: DeepView, F: Fn(&T) -> Result<(), ContractError>>(
    v: &Vec<T>,
    f: F,
    p: Ghost<spec_fn(T::V) -> Option<Fault>>,
) -> (r: Result<(), ContractError>)
    requires
        forall|x: &T| call_requires(f, (x,)),
        forall|x: &T, b: Result<(), ContractError>|
            call_ensures(f, (x,), b) ==> failure(b) == p@(x.deep_view()),
    ensures
        failure(r) == first_fault(v.deep_view(), p@),
{
    let ghost s = v.deep_view();
    let mut i: usize = 0;
    assert(s.skip(0) =~= s);
    while i < v.len()
        invariant
            i <= v.len(),
            s == v.deep_view(),
            forall|x: &T| call_requires(f, (x,)),
            forall|x: &T, b: Result<(), ContractError>|
                call_ensures(f, (x,), b) ==> failure(b) == p@(x.deep_view()),
            first_fault(s, p@) == first_fault(s.skip(i as int), p@),
        decreases v.len() - i,
    {
        assert(s.skip(i as int)[0] == v@[i as int].deep_view());
        assert(s.skip(i as int).skip(1) =~= s.skip(i + 1));
        let checked = f(&v[i]);
        if checked.is_err() {
            return checked;
        }
        i = i + 1;
    }
    Ok(())
}

/// The first failure that `f` reports for an item from position `start` on.
pub fn check_from<T: DeepView, F: Fn(&T) -> Result<(), ContractError>>(
    v: &Vec<T>,
    start: usize,
    f: F,
    p: Ghost<spec_fn(T::V) -> Option<Fault>>,
) -> (r: Result<(), ContractError>)
    requires
        start <= v.len(),
        forall|x: &T| call_requires(f, (x,)),
        forall|x: &T, b: Result<(), ContractError>|
            call_ensures(f, (x,), b) ==> failure(b) == p@(x.deep_view()),
    ensures
        failure(r) == first_fault(v.deep_view().skip(start as int), p@),
{
    let ghost s = v.deep_view();
    let mut i: usize = start;
    while i < v.len()
        invariant
            start <= i <= v.len(),
            s == v.deep_view(),
            forall|x: &T| call_requires(f, (x,)),
            forall|x: &T, b: Result<(), ContractError>|
                call_ensures(f, (x,), b) ==> failure(b) == p@(x.deep_view()),
            first_fault(s.skip(start as int), p@) == first_fault(s.skip(i as int), p@),
        decreases v.len() - i,
    {
        assert(s.skip(i as int)[0] == v@[i as int].deep_view());
        assert(s.skip(i as int).skip(1) =~= s.skip(i + 1));
        let checked = f(&v[i]);
        if checked.is_err() {
            return checked;
        }
        i = i + 1;
    }
    Ok(())
}

/// The first failure that `f` reports for a position below `n`.
pub fn check_indices<F: Fn(usize) -> Result<(), ContractError>>(
    n: usize,
    f: F,
    p: Ghost<spec_fn(int) -> Option<Fault>>,
) -> (r: Result<(), ContractError>)
    requires
        forall|i: usize| i < n ==> call_requires(f, (i,)),
        forall|i: usize, b: Result<(), ContractError>|
            call_ensures(f, (i,), b) ==> failure(b) == p@(i as int),
    ensures
        failure(r) == first_index_fault(0, n as int, p@),
{
    let mut i: usize = 0;
    while i < n
        invariant
            i <= n,
            forall|i: usize| i < n ==> call_requires(f, (i,)),
            forall|i: usize, b: Result<(), ContractError>|
                call_ensures(f, (i,), b) ==> failure(b) == p@(i as int),
            first_index_fault(0, n as int, p@) == first_index_fault(i as int, n as int, p@),
        decreases n - i,
    {
        let checked = f(i);
        if checked.is_err() {
            return checked;
        }
        i = i + 1;
    }
    Ok(())
}

/// The first failure that `f` reports for items at the same position.
pub fn check_pairs<A: DeepView, B: DeepView, F: Fn(&A, &B) -> Result<(), ContractError>>(
    a: &Vec<A>,
    b: &Vec<B>,
    f: F,
    p: Ghost<spec_fn(A::V, B::V) -> Option<Fault>>,
) -> (r: Result<(), ContractError>)
    requires
        forall|x: &A, y: &B| call_requires(f, (x, y)),
        forall|x: &A, y: &B, c: Result<(), ContractError>|
            call_ensures(f, (x, y), c) ==> failure(c) == p@(x.deep_view(), y.deep_view()),
    ensures
        failure(r) == first_pair_fault(a.deep_view(), b.deep_view(), p@),
{
    let ghost s = a.deep_view();
    let ghost t = b.deep_view();
    let mut i: usize = 0;
    assert(s.skip(0) =~= s);
    assert(t.skip(0) =~= t);
    while i < a.len() && i < b.len()
        invariant
            i <= a.len(),
            i <= b.len(),
            s == a.deep_view(),
            t == b.deep_view(),
            forall|x: &A, y: &B| call_requires(f, (x, y)),
            forall|x: &A, y: &B, c: Result<(), ContractError>|
                call_ensures(f, (x, y), c) ==> failure(c) == p@(x.deep_view(), y.deep_view()),
            first_pair_fault(s, t, p@) == first_pair_fault(s.skip(i as int), t.skip(i as int), p@),
        decreases a.len() - i,
    {
        assert(s.skip(i as int)[0] == a@[i as int].deep_view());
        assert(t.skip(i as int)[0] == b@[i as int].deep_view());
        assert(s.skip(i as int).skip(1) =~= s.skip(i + 1));
        assert(t.skip(i as int).skip(1) =~= t.skip(i + 1));
        let checked = f(&a[i], &b[i]);
        if checked.is_err() {
            return checked;
        }
        i = i + 1;
    }
    Ok(())
}

/// Whether some items at the same position satisfy `f`.
pub fn any_pair<A: DeepView, B: DeepView, F: Fn(&A, &B) -> bool>(
    a: &Vec<A>,
    b: &Vec<B>,
    f: F,
    p: Ghost<spec_fn(A::V, B::V) -> bool>,
) -> (r: bool)
    requires
        forall|x: &A, y: &B| call_requires(f, (x, y)),
        forall|x: &A, y: &B, c: bool|
            call_ensures(f, (x, y), c) ==> c == p@(x.deep_view(), y.deep_view()),
    ensures
        r == some_pair(a.deep_view(), b.deep_view(), p@),
{
    let mut i: usize = 0;
    while i < a.len() && i < b.len()
        invariant
            i <= a.len(),
            i <= b.len(),
            forall|x: &A, y: &B| call_requires(f, (x, y)),
            forall|x: &A, y: &B, c: bool|
                call_ensures(f, (x, y), c) ==> c == p@(x.deep_view(), y.deep_view()),
            forall|j: int|
                0 <= j < i ==> !p@(#[trigger] a.deep_view()[j], #[trigger] b.deep_view()[j]),
        decreases a.len() - i,
    {
        if f(&a[i], &b[i]) {
            assert(p@(a.deep_view()[i as int], b.deep_view()[i as int]));
            return true;
        }
        i = i + 1;
    }
    false
}

/// Whether `v` holds an item equal to `x`.
pub fn contains<T: Data>(v: &Vec<T>, x: &T) -> (r: bool)
    ensures
        r == v.deep_view().contains(x.deep_view()),
{
    let mut i: usize = 0;
    while i < v.len()
        invariant
            i <= v.len(),
            forall|j: int| 0 <= j < i ==> v.deep_view()[j] != x.deep_view(),
        decreases v.len() - i,
    {
        if v[i].same(x) {
            assert(v.deep_view()[i as int] == x.deep_view());
            return true;
        }
        i = i + 1;
    }
    false
}

/// Whether `v` begins with the items of `prefix`.
pub fn starts_with<T: Data>(v: &Vec<T>, prefix: &Vec<T>) -> (r: bool)
    ensures
        r == prefix.deep_view().is_prefix_of(v.deep_view()),
{
    if prefix.len() > v.len() {
        return false;
    }
    let mut i: usize = 0;
    while i < prefix.len()
        invariant
            i <= prefix.len() <= v.len(),
            forall|j: int| 0 <= j < i ==> v.deep_view()[j] == prefix.deep_view()[j],
        decreases prefix.len() - i,
    {
        if !v[i].same(&prefix[i]) {
            assert(v.deep_view().take(prefix.len() as int)[i as int] != prefix.deep_view()[i as int]);
            return false;
        }
        i = i + 1;
    }
    assert(v.deep_view().take(prefix.len() as int) =~= prefix.deep_view());
    true
}

/// `next` continues `previous` by at most one item.
pub open spec fn continues<V>(previous: Seq<V>, next: Seq<V>) -> bool {
    previous.is_prefix_of(next) && next.len() <= previous.len() + 1
}

/// Whether `next` continues `previous` by at most one item.
pub fn continues_by_one<T: Data>(previous: &Vec<T>, next: &Vec<T>) -> (r: bool)
    ensures
        r == continues(previous.deep_view(), next.deep_view()),
{
    starts_with(next, previous) && next.len() - previous.len() <= 1
}

/// The items of `a` followed by those of `b`.
pub fn joined<T: Data>(a: &Vec<T>, b: &Vec<T>) -> (r: Vec<T>)
    ensures
        r.deep_view() == a.deep_view() + b.deep_view(),
{
    let mut out = a.copy();
    let mut i: usize = 0;
    while i < b.len()
        invariant
            i <= b.len(),
            out.deep_view() =~= a.deep_view() + b.deep_view().take(i as int),
        decreases b.len() - i,
    {
        let ghost before = out.deep_view();
        out.push(b[i].copy());
        assert(out.deep_view() =~= before.push(b@[i as int].deep_view()));
        i = i + 1;
    }
    assert(b.deep_view().take(i as int) =~= b.deep_view());
    out
}

/// The last item of `v`.
pub fn last<T: DeepView>(v: &Vec<T>) -> (r: Option<&T>)
    ensures
        r.deep_view() == final_of(v.deep_view()),
{
    if v.len() == 0 {
        None
    } else {
        Some(&v[v.len() - 1])
    }
}

/// Whether an optional value is present and equal to `x`.
pub fn is_same<T: Data>(value: &Option<T>, x: &T) -> (r: bool)
    ensures
        r == (value.deep_view() == Some(x.deep_view())),
{
    match value {
        Some(held) => held.same(x),
        None => false,
    }
}

pub proof fn lemma_counted_none<V>(s: Seq<V>, p: spec_fn(V) -> bool)
    requires
        count_in(s, p) == 0,
    ensures
        forall|k: int| 0 <= k < s.len() ==> !p(#[trigger] s[k]),
    decreases s.len(),
{
    if s.len() > 0 {
        let rest = s.skip(1);
        lemma_counted_none(rest, p);
        assert forall|k: int| 0 <= k < s.len() implies !p(#[trigger] s[k]) by {
            if k > 0 {
                assert(rest[k - 1] == s[k]);
            }
        }
    }
}

pub proof fn lemma_counted_once<V>(s: Seq<V>, p: spec_fn(V) -> bool) -> (i: int)
    requires
        count_in(s, p) == 1,
    ensures
        0 <= i < s.len(),
        p(s[i]),
        forall|k: int| 0 <= k < s.len() && k != i ==> !p(#[trigger] s[k]),
    decreases s.len(),
{
    let rest = s.skip(1);
    if p(s[0]) {
        lemma_counted_none(rest, p);
        assert forall|k: int| 0 <= k < s.len() && k != 0 implies !p(#[trigger] s[k]) by {
            assert(rest[k - 1] == s[k]);
        }
        0
    } else {
        let i = lemma_counted_once(rest, p);
        assert forall|k: int| 0 <= k < s.len() && k != i + 1 implies !p(#[trigger] s[k]) by {
            if k > 0 {
                assert(rest[k - 1] == s[k]);
            }
        }
        i + 1
    }
}

} // verus!
