//! A map from strings to values that is walked in ascending order of its keys.
use vstd::prelude::*;
use crate::order::{ascending, lemma_lex_irreflexive, lemma_lex_total, lemma_lex_transitive, lemma_listing, lemma_sorted_keys, lex_lt, sorted_keys, str_lt};
use crate::search::{count, counted, find_first, find_from, kept, select};
use crate::text::{views, lemma_views_insert};

verus! {

/// The keys of a map, ascending.
pub open spec fn keys<T>(m: Map<Seq<char>, T>) -> Seq<Seq<char>> {
    sorted_keys(m.dom())
}

/// The values of a map in ascending order of their keys.
pub open spec fn values<T>(m: Map<Seq<char>, T>) -> Seq<T> {
    keys(m).map_values(|k: Seq<char>| m[k])
}

/// A finite map is listed in full: every key has its place, and every place a key and its value.
pub proof fn lemma_listed<T>(m: Map<Seq<char>, T>)
    requires
        m.dom().finite(),
    ensures
        keys(m).len() == values(m).len(),
        forall|i: int|
            0 <= i < keys(m).len() ==> m.contains_key(#[trigger] keys(m)[i]) && values(m)[i]
                == m[keys(m)[i]],
        forall|k: Seq<char>| #[trigger]
            m.contains_key(k) ==> keys(m).contains(k) && values(m).contains(m[k]),
        ascending(keys(m)),
{
    lemma_listing(m.dom());
    assert forall|i: int| 0 <= i < keys(m).len() implies m.contains_key(#[trigger] keys(m)[i])
        && values(m)[i] == m[keys(m)[i]] by {
        assert(keys(m).contains(keys(m)[i]));
    }
    assert forall|k: Seq<char>| #[trigger] m.contains_key(k) implies keys(m).contains(k)
        && values(m).contains(m[k]) by {
        let i = keys(m).index_of(k);
        assert(keys(m).contains(k));
        assert(values(m)[i] == m[k]);
    }
}

/// A map from strings to values, kept as two parallel vectors.
#[derive(Clone, Debug, PartialEq, Eq)]
pub struct StrMap<V> {
    key_list: Vec<String>,
    value_list: Vec<V>,
}

impl<V: View> View for StrMap<V> {
    type V = Map<Seq<char>, V::V>;

    closed spec fn view(&self) -> Map<Seq<char>, V::V> {
        Map::new(
            |k: Seq<char>| self.key_seq().contains(k),
            |k: Seq<char>| self.value_list@[self.key_seq().index_of(k)]@,
        )
    }
}

impl<V: View> StrMap<V> {
    pub closed spec fn key_seq(&self) -> Seq<Seq<char>> {
        views(self.key_list@)
    }

    /// The keys ascend and each has its value.
    pub closed spec fn wf(&self) -> bool {
        &&& self.key_list@.len() == self.value_list@.len()
        &&& ascending(self.key_seq())
    }

    proof fn lemma_index(&self, i: int)
        requires
            self.wf(),
            0 <= i < self.key_list@.len(),
        ensures
            self@.contains_key(self.key_list@[i]@),
            self@[self.key_list@[i]@] == self.value_list@[i]@,
            self.key_seq().index_of(self.key_list@[i]@) == i,
    {
        let ks = self.key_seq();
        let k = ks[i];
        assert(ks.contains(k));
        let j = ks.index_of(k);
        assert(0 <= j < ks.len() && ks[j] == k);
        if j < i {
            assert(lex_lt(ks[j], ks[i]));
            lemma_lex_irreflexive(k);
        } else if i < j {
            assert(lex_lt(ks[i], ks[j]));
            lemma_lex_irreflexive(k);
        }
    }

    /// The order in which the map is walked.
    pub proof fn lemma_order(&self)
        requires
            self.wf(),
        ensures
            keys(self@) == self.key_seq(),
            values(self@).len() == keys(self@).len(),
            keys(self@).to_set() == self@.dom(),
            self@.dom().finite(),
            keys(self@).no_duplicates(),
            self@.len() == keys(self@).len(),
            ascending(keys(self@)),
    {
        let ks = self.key_seq();
        assert(ks.to_set() =~= self@.dom());
        lemma_sorted_keys(ks, self@.dom());
        assert forall|i: int, j: int| 0 <= i < ks.len() && 0 <= j < ks.len() && i != j implies ks[i]
            != ks[j] by {
            lemma_lex_irreflexive(ks[i]);
            if i < j {
                assert(lex_lt(ks[i], ks[j]));
            } else {
                assert(lex_lt(ks[j], ks[i]));
            }
        }
        assert(ks.no_duplicates());
        ks.unique_seq_to_set();
    }

    pub fn new() -> (r: Self)
        ensures
            r.wf(),
            r@ == Map::<Seq<char>, V::V>::empty(),
    {
        let r = StrMap { key_list: Vec::new(), value_list: Vec::new() };
        assert(r@ =~= Map::<Seq<char>, V::V>::empty());
        r
    }

    pub fn len(&self) -> (r: usize)
        requires
            self.wf(),
        ensures
            r == self@.len(),
            r == keys(self@).len(),
    {
        proof {
            self.lemma_order();
        }
        self.key_list.len()
    }

    pub fn is_empty(&self) -> (r: bool)
        requires
            self.wf(),
        ensures
            r == (self@.dom() =~= Set::empty()),
    {
        proof {
            self.lemma_order();
            if self.key_seq().len() > 0 {
                assert(self@.contains_key(self.key_seq()[0])) by {
                    assert(self.key_seq().contains(self.key_seq()[0]));
                }
            }
        }
        self.key_list.is_empty()
    }

    /// The key at a place in the ascending order.
    pub fn key_at(&self, i: usize) -> (r: &String)
        requires
            self.wf(),
            i < keys(self@).len(),
        ensures
            r@ == keys(self@)[i as int],
            self@.contains_key(r@),
    {
        proof {
            self.lemma_order();
            self.lemma_index(i as int);
        }
        &self.key_list[i]
    }

    /// The value at a place in the ascending order of the keys.
    pub fn value_at(&self, i: usize) -> (r: &V)
        requires
            self.wf(),
            i < keys(self@).len(),
        ensures
            r@ == values(self@)[i as int],
            r@ == self@[keys(self@)[i as int]],
            self@.contains_key(keys(self@)[i as int]),
    {
        proof {
            self.lemma_order();
            self.lemma_index(i as int);
        }
        &self.value_list[i]
    }

    /// The first place whose key does not come before `key`.
    fn lower_bound(&self, key: &str) -> (r: usize)
        requires
            self.wf(),
        ensures
            r <= self.key_list@.len(),
            forall|i: int| 0 <= i < r ==> lex_lt(#[trigger] self.key_seq()[i], key@),
            forall|i: int|
                r <= i < self.key_list@.len() ==> !lex_lt(#[trigger] self.key_seq()[i], key@),
    {
        let mut lo: usize = 0;
        let mut hi: usize = self.key_list.len();
        while lo < hi
            invariant
                self.wf(),
                lo <= hi <= self.key_list@.len(),
                forall|i: int| 0 <= i < lo ==> lex_lt(#[trigger] self.key_seq()[i], key@),
                forall|i: int|
                    hi <= i < self.key_list@.len() ==> !lex_lt(
                        #[trigger] self.key_seq()[i],
                        key@,
                    ),
            decreases hi - lo,
        {
            let mid: usize = lo + (hi - lo) / 2;
            assert(self.key_seq()[mid as int] == self.key_list@[mid as int]@);
            if str_lt(self.key_list[mid].as_str(), key) {
                proof {
                    assert forall|i: int| 0 <= i < mid + 1 implies lex_lt(
                        #[trigger] self.key_seq()[i],
                        key@,
                    ) by {
                        if i < mid {
                            assert(lex_lt(self.key_seq()[i], self.key_seq()[mid as int]));
                            lemma_lex_transitive(
                                self.key_seq()[i],
                                self.key_seq()[mid as int],
                                key@,
                            );
                        }
                    }
                }
                lo = mid + 1;
            } else {
                proof {
                    assert forall|i: int| mid <= i < self.key_list@.len() implies !lex_lt(
                        #[trigger] self.key_seq()[i],
                        key@,
                    ) by {
                        if mid < i && lex_lt(self.key_seq()[i], key@) {
                            assert(lex_lt(self.key_seq()[mid as int], self.key_seq()[i]));
                            lemma_lex_transitive(
                                self.key_seq()[mid as int],
                                self.key_seq()[i],
                                key@,
                            );
                        }
                    }
                }
                hi = mid;
            }
        }
        lo
    }

    /// The place of a key, if the map holds it.
    fn position(&self, key: &str) -> (r: Option<usize>)
        requires
            self.wf(),
        ensures
            match r {
                Some(i) => i < self.key_list@.len() && self.key_seq()[i as int] == key@
                    && self@.contains_key(key@) && self@[key@] == self.value_list@[i as int]@,
                None => !self@.contains_key(key@),
            },
    {
        let at: usize = self.lower_bound(key);
        if at < self.key_list.len() && !str_lt(key, self.key_list[at].as_str()) {
            proof {
                lemma_lex_total(self.key_list@[at as int]@, key@);
                assert(self.key_seq()[at as int] == self.key_list@[at as int]@);
                self.lemma_index(at as int);
            }
            Some(at)
        } else {
            proof {
                if self@.contains_key(key@) {
                    let i = self.key_seq().index_of(key@);
                    assert(self.key_seq()[i] == key@);
                    lemma_lex_irreflexive(key@);
                    if i < at {
                        assert(lex_lt(self.key_seq()[i], key@));
                    } else if i > at {
                        assert(lex_lt(self.key_seq()[at as int], self.key_seq()[i]));
                        assert(!lex_lt(self.key_seq()[at as int], key@));
                    } else {
                        assert(self.key_seq()[at as int] == self.key_list@[at as int]@);
                    }
                }
            }
            None
        }
    }

    /// What stands at a place is held.
    pub proof fn lemma_held(&self, i: int)
        requires
            self.wf(),
            0 <= i < keys(self@).len(),
        ensures
            self@.contains_key(keys(self@)[i]),
    {
        self.lemma_order();
        self.lemma_index(i);
    }

    /// No key stands at two places.
    pub proof fn lemma_distinct(&self, i: int, j: int)
        requires
            self.wf(),
            0 <= i < keys(self@).len(),
            0 <= j < keys(self@).len(),
            keys(self@)[i] == keys(self@)[j],
        ensures
            i == j,
    {
        self.lemma_order();
        lemma_lex_irreflexive(keys(self@)[i]);
    }

    /// Every key that is held has a place.
    pub proof fn lemma_placed(&self, key: Seq<char>)
        requires
            self.wf(),
            self@.contains_key(key),
        ensures
            0 <= keys(self@).index_of(key) < keys(self@).len(),
            keys(self@)[keys(self@).index_of(key)] == key,
    {
        self.lemma_order();
        let i = self.key_seq().index_of(key);
        assert(self.key_seq().contains(key));
    }

    /// The place of a key in the ascending order, if the map holds it.
    pub fn place_of(&self, key: &str) -> (r: Option<usize>)
        requires
            self.wf(),
        ensures
            match r {
                Some(i) => i < keys(self@).len() && keys(self@)[i as int] == key@,
                None => !self@.contains_key(key@),
            },
    {
        proof {
            self.lemma_order();
        }
        self.position(key)
    }

    pub fn contains_key(&self, key: &str) -> (r: bool)
        requires
            self.wf(),
        ensures
            r == self@.contains_key(key@),
    {
        self.position(key).is_some()
    }

    pub fn get(&self, key: &str) -> (r: Option<&V>)
        requires
            self.wf(),
        ensures
            match r {
                Some(v) => self@.contains_key(key@) && v@ == self@[key@],
                None => !self@.contains_key(key@),
            },
    {
        match self.position(key) {
            Some(i) => Some(&self.value_list[i]),
            None => None,
        }
    }

    pub fn get_mut(&mut self, key: &str) -> (r: Option<&mut V>)
        requires
            old(self).wf(),
        ensures
            final(self).wf(),
            match r {
                Some(v) => old(self)@.contains_key(key@) && v@ == old(self)@[key@] && final(self)@
                    == old(self)@.insert(key@, final(v)@),
                None => !old(self)@.contains_key(key@) && final(self)@ == old(self)@,
            },
    {
        match self.position(key) {
            Some(i) => {
                proof {
                    let before = *self;
                    assert forall|x: V, after: StrMap<V>|
                        after.key_list == before.key_list && after.value_list@
                            == before.value_list@.update(i as int, x) implies #[trigger] after@
                        == before@.insert(key@, #[trigger] x@) && after.wf() by {
                        assert(after.key_seq() == before.key_seq());
                        before.lemma_index(i as int);
                        assert forall|k: Seq<char>| #[trigger] before.key_seq().contains(k) && k != key@ implies
                            before.key_seq().index_of(k) != i by {
                        }
                        assert(after@ =~= before@.insert(key@, x@));
                    }
                }
                Some(&mut self.value_list[i])
            },
            None => None,
        }
    }

    pub fn insert(&mut self, key: String, value: V)
        requires
            old(self).wf(),
        ensures
            final(self).wf(),
            final(self)@ == old(self)@.insert(key@, value@),
    {
        let ghost before = *self;
        match self.position(key.as_str()) {
            Some(i) => {
                self.value_list.set(i, value);
                proof {
                    assert(self.key_seq() == before.key_seq());
                    before.lemma_index(i as int);
                    assert(self@ =~= before@.insert(key@, value@));
                }
            },
            None => {
                let at: usize = self.lower_bound(key.as_str());
                proof {
                    assert forall|i: int| at <= i < before.key_list@.len() implies lex_lt(key@, #[trigger] before.key_seq()[i]) by {
                        lemma_lex_total(before.key_seq()[i], key@);
                        before.lemma_index(i);
                    }
                }
                self.key_list.insert(at, key);
                self.value_list.insert(at, value);
                proof {
                    lemma_views_insert(before.key_list@, at as int, key);
                    let old_ks = before.key_seq();
                    let ks = self.key_seq();
                    assert(ks == old_ks.insert(at as int, key@));
                    assert forall|i: int, j: int| 0 <= i < j < ks.len() implies #[trigger] lex_lt(ks[i], ks[j]) by {
                        let a = if i < at { i } else { i - 1 };
                        let b = if j < at { j } else { j - 1 };
                        if i != at && j != at {
                            assert(lex_lt(old_ks[a], old_ks[b]));
                        } else if i == at {
                            assert(ks[j] == old_ks[b]);
                        } else {
                            assert(ks[i] == old_ks[a]);
                        }
                    }
                    assert(self.wf());
                    assert forall|k: Seq<char>| #[trigger] self@.contains_key(k) <==> before@.insert(key@, value@).contains_key(k) by {
                        if ks.contains(k) && k != key@ {
                            let i = choose|i: int| 0 <= i < ks.len() && ks[i] == k;
                            let a = if i < at { i } else { i - 1 };
                            assert(old_ks[a] == k);
                        }
                        if old_ks.contains(k) {
                            let a = choose|a: int| 0 <= a < old_ks.len() && old_ks[a] == k;
                            let i = if a < at { a } else { a + 1 };
                            assert(ks[i] == k);
                        }
                        if k == key@ {
                            assert(ks[at as int] == k);
                        }
                    }
                    assert forall|k: Seq<char>| #[trigger] self@.contains_key(k) implies self@[k] == before@.insert(key@, value@)[k] by {
                        let i = choose|i: int| 0 <= i < ks.len() && ks[i] == k;
                        self.lemma_index(i);
                        if i != at {
                            let a = if i < at { i } else { i - 1 };
                            assert(old_ks[a] == k);
                            before.lemma_index(a);
                            if k == key@ {
                                assert(before@.contains_key(key@));
                            }
                        }
                    }
                    assert(self@ =~= before@.insert(key@, value@));
                }
            },
        }
    }

    /// The first value, in ascending order of the keys, that satisfies `f`, which decides `p`.
    pub(crate) fn find<F: Fn(&V) -> bool>(
        &self,
        f: F,
        Ghost(p): Ghost<spec_fn(V::V) -> bool>,
    ) -> (r: Option<&V>)
        requires
            self.wf(),
            forall|x: &V| #[trigger] call_requires(f, (x,)),
            forall|x: &V, b: bool| #[trigger] call_ensures(f, (x,), b) ==> b == p(x@),
        ensures
            match r {
                Some(v) => find_first(values(self@), p) == Some(v@),
                None => find_first(values(self@), p) is None,
            },
    {
        let mut i: usize = 0;
        let n: usize = self.len();
        while i < n
            invariant
                self.wf(),
                n == keys(self@).len(),
                n == values(self@).len(),
                i <= n,
                forall|x: &V| #[trigger] call_requires(f, (x,)),
                forall|x: &V, b: bool| #[trigger] call_ensures(f, (x,), b) ==> b == p(x@),
                find_from(values(self@), p, 0) == find_from(values(self@), p, i as int),
            decreases n - i,
        {
            let v = self.value_at(i);
            if f(v) {
                return Some(v);
            }
            i = i + 1;
        }
        None
    }

    /// The values that satisfy `f`, which decides `p`, in ascending order of the keys.
    pub(crate) fn filter<F: Fn(&V) -> bool>(
        &self,
        f: F,
        Ghost(p): Ghost<spec_fn(V::V) -> bool>,
    ) -> (r: Vec<&V>)
        requires
            self.wf(),
            forall|x: &V| #[trigger] call_requires(f, (x,)),
            forall|x: &V, b: bool| #[trigger] call_ensures(f, (x,), b) ==> b == p(x@),
        ensures
            views(r@) == select(values(self@), p),
    {
        broadcast use crate::text::group_views;

        let mut i: usize = 0;
        let n: usize = self.len();
        let mut out: Vec<&V> = Vec::new();
        while i < n
            invariant
                self.wf(),
                n == keys(self@).len(),
                n == values(self@).len(),
                i <= n,
                forall|x: &V| #[trigger] call_requires(f, (x,)),
                forall|x: &V, b: bool| #[trigger] call_ensures(f, (x,), b) ==> b == p(x@),
                views(out@) == kept(values(self@), p, i as int),
            decreases n - i,
        {
            let v = self.value_at(i);
            if f(v) {
                out.push(v);
            }
            i = i + 1;
        }
        out
    }

    /// How many values satisfy `f`, which decides `p`.
    pub(crate) fn count<F: Fn(&V) -> bool>(
        &self,
        f: F,
        Ghost(p): Ghost<spec_fn(V::V) -> bool>,
    ) -> (r: usize)
        requires
            self.wf(),
            forall|x: &V| #[trigger] call_requires(f, (x,)),
            forall|x: &V, b: bool| #[trigger] call_ensures(f, (x,), b) ==> b == p(x@),
        ensures
            r == count(values(self@), p),
    {
        let mut i: usize = 0;
        let n: usize = self.len();
        let mut total: usize = 0;
        while i < n
            invariant
                self.wf(),
                n == keys(self@).len(),
                n == values(self@).len(),
                total <= i <= n,
                forall|x: &V| #[trigger] call_requires(f, (x,)),
                forall|x: &V, b: bool| #[trigger] call_ensures(f, (x,), b) ==> b == p(x@),
                total == counted(values(self@), p, i as int),
            decreases n - i,
        {
            if f(self.value_at(i)) {
                total = total + 1;
            }
            i = i + 1;
        }
        total
    }
}

} // verus!
