//! Tables: maps whose keys are compared by what they hold.
use vstd::prelude::*;

use crate::data::{contains, Data};
use crate::serialization::Id;

verus! {

/// One row of a table.
#[derive(Debug)]
struct Row<K, V> {
    key: K,
    value: V,
}

/// A finite map from keys to values.
#[derive(Debug)]
pub struct Table<K: Data, V: DeepView> {
    rows: Vec<Row<K, V>>,
}

/// The map that rows describe.
spec fn rows_map<K: DeepView, V: DeepView>(rows: Seq<Row<K, V>>) -> Map<K::V, V::V>
    decreases rows.len(),
{
    if rows.len() == 0 {
        Map::empty()
    } else {
        rows_map(rows.drop_last()).insert(
            rows.last().key.deep_view(),
            rows.last().value.deep_view(),
        )
    }
}

spec fn unique_keys<K: DeepView, V: DeepView>(rows: Seq<Row<K, V>>) -> bool {
    forall|i: int, j: int|
        0 <= i < j < rows.len() ==> (#[trigger] rows[i]).key.deep_view() != (
        #[trigger] rows[j]).key.deep_view()
}

impl<K: Data, V: DeepView> View for Table<K, V> {
    type V = Map<K::V, V::V>;

    closed spec fn view(&self) -> Map<K::V, V::V> {
        rows_map(self.rows@)
    }
}

impl<K: Data, V: DeepView> DeepView for Table<K, V> {
    type V = Map<K::V, V::V>;

    open spec fn deep_view(&self) -> Map<K::V, V::V> {
        self@
    }
}

proof fn lemma_rows_map<K: DeepView, V: DeepView>(rows: Seq<Row<K, V>>)
    requires
        unique_keys(rows),
    ensures
        forall|k: K::V| #[trigger]
            rows_map(rows).dom().contains(k) <==> exists|i: int|
                0 <= i < rows.len() && (#[trigger] rows[i]).key.deep_view() == k,
        forall|i: int|
            0 <= i < rows.len() ==> rows_map(rows).dom().contains(
                (#[trigger] rows[i]).key.deep_view(),
            ) && rows_map(rows)[rows[i].key.deep_view()] == rows[i].value.deep_view(),
    decreases rows.len(),
{
    if rows.len() > 0 {
        let front = rows.drop_last();
        assert forall|i: int, j: int| 0 <= i < j < front.len() implies (
        #[trigger] front[i]).key.deep_view() != (#[trigger] front[j]).key.deep_view() by {
            assert(front[i] == rows[i] && front[j] == rows[j]);
        }
        lemma_rows_map(front);
        assert forall|k: K::V| #[trigger] rows_map(rows).dom().contains(k) <==> exists|i: int|
            0 <= i < rows.len() && (#[trigger] rows[i]).key.deep_view() == k by {
            if rows_map(rows).dom().contains(k) {
                if k == rows.last().key.deep_view() {
                    assert(rows[rows.len() - 1].key.deep_view() == k);
                } else {
                    assert(rows_map(front).dom().contains(k));
                    let i = choose|i: int|
                        0 <= i < front.len() && (#[trigger] front[i]).key.deep_view() == k;
                    assert(rows[i].key.deep_view() == k);
                }
            }
            if exists|i: int| 0 <= i < rows.len() && (#[trigger] rows[i]).key.deep_view() == k {
                let i = choose|i: int|
                    0 <= i < rows.len() && (#[trigger] rows[i]).key.deep_view() == k;
                if i < front.len() {
                    assert(front[i].key.deep_view() == k);
                    assert(rows_map(front).dom().contains(k));
                }
            }
        }
        assert forall|i: int| 0 <= i < rows.len() implies rows_map(rows).dom().contains(
            (#[trigger] rows[i]).key.deep_view(),
        ) && rows_map(rows)[rows[i].key.deep_view()] == rows[i].value.deep_view() by {
            if i < front.len() {
                assert(front[i] == rows[i]);
                assert(rows[i].key.deep_view() != rows[rows.len() - 1].key.deep_view());
            }
        }
    }
}

impl<K: Data, V: DeepView> Table<K, V> {
    #[verifier::type_invariant]
    spec fn well_formed(self) -> bool {
        unique_keys(self.rows@)
    }

    /// A table without rows.
    pub fn new() -> (r: Self)
        ensures
            r@ == Map::<K::V, V::V>::empty(),
    {
        Table { rows: Vec::new() }
    }

    fn index_of(&self, key: &K) -> (r: Option<usize>)
        ensures
            match r {
                Some(i) => i < self.rows@.len() && self.rows@[i as int].key.deep_view()
                    == key.deep_view() && self@.dom().contains(key.deep_view())
                    && self@[key.deep_view()] == self.rows@[i as int].value.deep_view(),
                None => !self@.dom().contains(key.deep_view()) && forall|i: int|
                    0 <= i < self.rows@.len() ==> (#[trigger] self.rows@[i]).key.deep_view()
                        != key.deep_view(),
            },
    {
        proof {
            use_type_invariant(self);
            lemma_rows_map(self.rows@);
        }
        let mut i: usize = 0;
        while i < self.rows.len()
            invariant
                i <= self.rows.len(),
                forall|j: int|
                    0 <= j < i ==> (#[trigger] self.rows@[j]).key.deep_view() != key.deep_view(),
            decreases self.rows.len() - i,
        {
            if self.rows[i].key.same(key) {
                proof {
                    use_type_invariant(self);
                    lemma_rows_map(self.rows@);
                }
                return Some(i);
            }
            i = i + 1;
        }
        None
    }

    /// The value of `key`.
    pub fn get(&self, key: &K) -> (r: Option<&V>)
        ensures
            match r {
                Some(value) => self@.dom().contains(key.deep_view()) && value.deep_view()
                    == self@[key.deep_view()],
                None => !self@.dom().contains(key.deep_view()),
            },
    {
        match self.index_of(key) {
            Some(i) => Some(&self.rows[i].value),
            None => None,
        }
    }

    /// Whether `key` has a value.
    pub fn contains_key(&self, key: &K) -> (r: bool)
        ensures
            r == self@.dom().contains(key.deep_view()),
    {
        self.index_of(key).is_some()
    }

    /// Give `key` a value, in place of the one that it has.
    pub fn insert(&mut self, key: K, value: V)
        ensures
            final(self)@ == old(self)@.insert(key.deep_view(), value.deep_view()),
    {
        let found = self.index_of(&key);
        let ghost before = self.rows@;
        proof {
            use_type_invariant(&*self);
            lemma_rows_map(before);
        }
        let mut rows: Vec<Row<K, V>> = Vec::new();
        core::mem::swap(&mut rows, &mut self.rows);
        let ghost k = key.deep_view();
        let ghost v = value.deep_view();
        let row = Row { key, value };
        match found {
            Some(i) => {
                rows.set(i, row);
                assert forall|a: int, b: int| 0 <= a < b < rows@.len() implies (
                #[trigger] rows@[a]).key.deep_view() != (#[trigger] rows@[b]).key.deep_view() by {
                    assert(before[a].key.deep_view() != before[b].key.deep_view());
                }
                proof {
                    lemma_rows_map(rows@);
                    assert forall|x: K::V| #[trigger]
                        rows_map(rows@).dom().contains(x) <==> rows_map(before).insert(k, v).dom().contains(
                        x,
                    ) by {
                        if rows_map(rows@).dom().contains(x) {
                            let j = choose|j: int|
                                0 <= j < rows@.len() && (#[trigger] rows@[j]).key.deep_view() == x;
                            if j != i {
                                assert(before[j].key.deep_view() == x);
                            }
                        }
                        if rows_map(before).dom().contains(x) && x != k {
                            let j = choose|j: int|
                                0 <= j < before.len() && (#[trigger] before[j]).key.deep_view() == x;
                            assert(rows@[j].key.deep_view() == x);
                        }
                        if x == k {
                            assert(rows@[i as int].key.deep_view() == x);
                        }
                    }
                    assert forall|x: K::V| #[trigger]
                        rows_map(rows@).dom().contains(x) implies rows_map(rows@)[x] == rows_map(
                        before,
                    ).insert(k, v)[x] by {
                        let j = choose|j: int|
                            0 <= j < rows@.len() && (#[trigger] rows@[j]).key.deep_view() == x;
                        assert(rows_map(rows@)[x] == rows@[j].value.deep_view());
                        if j != i {
                            assert(before[j] == rows@[j]);
                            assert(rows@[j].key.deep_view() != k) by {
                                if j < i {
                                    assert(rows@[j].key.deep_view() != rows@[i as int].key.deep_view());
                                } else {
                                    assert(rows@[i as int].key.deep_view() != rows@[j].key.deep_view());
                                }
                            }
                        }
                    }
                    assert(rows_map(rows@) =~= rows_map(before).insert(k, v));
                }
            },
            None => {
                rows.push(row);
                assert(rows@.drop_last() =~= before);
                assert forall|a: int, b: int| 0 <= a < b < rows@.len() implies (
                #[trigger] rows@[a]).key.deep_view() != (#[trigger] rows@[b]).key.deep_view() by {
                    assert(rows@[a] == before[a]);
                    if b < before.len() {
                        assert(rows@[b] == before[b]);
                    }
                }
            },
        }
        self.rows = rows;
    }

    /// Whether some row satisfies `f`.
    pub fn any<F: Fn(&K, &V) -> bool>(&self, f: F, p: Ghost<spec_fn(K::V, V::V) -> bool>) -> (r: bool)
        requires
            forall|k: &K, v: &V| call_requires(f, (k, v)),
            forall|k: &K, v: &V, b: bool|
                call_ensures(f, (k, v), b) ==> b == p@(k.deep_view(), v.deep_view()),
        ensures
            r == exists|k: K::V| #[trigger] self@.dom().contains(k) && p@(k, self@[k]),
    {
        proof {
            use_type_invariant(self);
            lemma_rows_map(self.rows@);
        }
        let mut i: usize = 0;
        while i < self.rows.len()
            invariant
                i <= self.rows.len(),
                forall|k: &K, v: &V| call_requires(f, (k, v)),
                forall|k: &K, v: &V, b: bool|
                    call_ensures(f, (k, v), b) ==> b == p@(k.deep_view(), v.deep_view()),
                forall|j: int|
                    0 <= j < i ==> !p@(
                        (#[trigger] self.rows@[j]).key.deep_view(),
                        self.rows@[j].value.deep_view(),
                    ),
            decreases self.rows.len() - i,
        {
            if f(&self.rows[i].key, &self.rows[i].value) {
                proof {
                    use_type_invariant(self);
                    lemma_rows_map(self.rows@);
                    let k = self.rows@[i as int].key.deep_view();
                    assert(self@.dom().contains(k) && p@(k, self@[k]));
                }
                return true;
            }
            i = i + 1;
        }
        proof {
            if exists|k: K::V| #[trigger] self@.dom().contains(k) && p@(k, self@[k]) {
                let k = choose|k: K::V| #[trigger] self@.dom().contains(k) && p@(k, self@[k]);
                let j = choose|j: int|
                    0 <= j < self.rows@.len() && (#[trigger] self.rows@[j]).key.deep_view() == k;
                assert(self@[k] == self.rows@[j].value.deep_view());
            }
        }
        false
    }
}

impl<K: Data, V: Data> Table<K, V> {
    /// A separate table with the same rows.
    pub fn copy(&self) -> (r: Self)
        ensures
            r@ == self@,
    {
        let mut out: Table<K, V> = Table::new();
        let mut i: usize = 0;
        assert(self.rows@.take(0) =~= Seq::<Row<K, V>>::empty());
        while i < self.rows.len()
            invariant
                i <= self.rows.len(),
                out@ == rows_map(self.rows@.take(i as int)),
            decreases self.rows.len() - i,
        {
            assert(self.rows@.take(i + 1).drop_last() =~= self.rows@.take(i as int));
            out.insert(self.rows[i].key.copy(), self.rows[i].value.copy());
            i = i + 1;
        }
        assert(self.rows@.take(i as int) =~= self.rows@);
        out
    }
}

/// A finite set of identifiers.
#[derive(Debug)]
pub struct IdSet {
    ids: Vec<Id>,
}

impl View for IdSet {
    type V = Set<Seq<char>>;

    closed spec fn view(&self) -> Set<Seq<char>> {
        self.ids.deep_view().to_set()
    }
}

impl IdSet {
    /// The empty set.
    pub fn new() -> (r: Self)
        ensures
            r@ == Set::<Seq<char>>::empty(),
    {
        let r = IdSet { ids: Vec::new() };
        assert(r@ =~= Set::<Seq<char>>::empty());
        r
    }

    /// Whether `id` is in the set.
    pub fn contains(&self, id: &Id) -> (r: bool)
        ensures
            r == self@.contains(id@),
    {
        contains(&self.ids, id)
    }

    /// Add `id`; whether it was absent.
    pub fn insert(&mut self, id: &Id) -> (r: bool)
        ensures
            final(self)@ == old(self)@.insert(id@),
            r == !old(self)@.contains(id@),
    {
        let ghost before = self.ids.deep_view();
        if contains(&self.ids, id) {
            assert(before.to_set().insert(id@) =~= before.to_set());
            return false;
        }
        self.ids.push(id.copy());
        proof {
            let after = self.ids.deep_view();
            assert(after =~= before.push(id@));
            assert forall|x: Seq<char>| after.to_set().contains(x) <==> before.to_set().insert(
                id@,
            ).contains(x) by {
                if before.contains(x) {
                    let i = choose|i: int| 0 <= i < before.len() && before[i] == x;
                    assert(after[i] == x);
                }
                if x == id@ {
                    assert(after[before.len() as int] == x);
                }
                if after.contains(x) {
                    let i = choose|i: int| 0 <= i < after.len() && after[i] == x;
                    if i < before.len() {
                        assert(before[i] == x);
                    }
                }
            }
            assert(after.to_set() =~= before.to_set().insert(id@));
        }
        true
    }

    /// A separate set with the same identifiers.
    pub fn copy(&self) -> (r: Self)
        ensures
            r@ == self@,
    {
        IdSet { ids: self.ids.copy() }
    }
}

} // verus!
