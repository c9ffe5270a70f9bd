//! Maps and sets keyed by strings that keep the order in which the keys came.
//!
//! The model of a map is the sequence of its `(key, value)` pairs; no key
//! occurs twice in it.

use crate::text::str_eq;
use vstd::prelude::*;

verus! {

/// No key occurs twice in `p`.
pub open spec fn distinct_keys<V>(p: Seq<(Seq<char>, V)>) -> bool {
    forall|i: int, j: int| 0 <= i < j < p.len() ==> (#[trigger] p[i]).0 != (#[trigger] p[j]).0
}

/// Where `k` stands in `p`: the least such position.
pub open spec fn key_index<V>(p: Seq<(Seq<char>, V)>, k: Seq<char>) -> Option<int>
    decreases p.len(),
{
    if p.len() == 0 {
        None
    } else {
        match key_index(p.drop_last(), k) {
            Some(i) => Some(i),
            None => if p.last().0 == k {
                Some(p.len() - 1)
            } else {
                None
            },
        }
    }
}

/// `k` is a key of `p`.
pub open spec fn has_key<V>(p: Seq<(Seq<char>, V)>, k: Seq<char>) -> bool {
    key_index(p, k) is Some
}

/// The value that `p` holds for `k`, if any.
pub open spec fn lookup<V>(p: Seq<(Seq<char>, V)>, k: Seq<char>) -> Option<V> {
    match key_index(p, k) {
        Some(i) => Some(p[i].1),
        None => None,
    }
}

/// `p` with `k` set to `v`: in place where `k` is a key, else at the end.
pub open spec fn put<V>(p: Seq<(Seq<char>, V)>, k: Seq<char>, v: V) -> Seq<(Seq<char>, V)> {
    match key_index(p, k) {
        Some(i) => p.update(i, (k, v)),
        None => p.push((k, v)),
    }
}

/// `p` without the key `k`; the others keep their order.
pub open spec fn without<V>(p: Seq<(Seq<char>, V)>, k: Seq<char>) -> Seq<(Seq<char>, V)> {
    match key_index(p, k) {
        Some(i) => p.remove(i),
        None => p,
    }
}

/// `key_index` gives the least position of the key, and `None` only where the
/// key is absent.
pub proof fn lemma_key_index<V>(p: Seq<(Seq<char>, V)>, k: Seq<char>)
    ensures
        match key_index(p, k) {
            Some(i) => 0 <= i < p.len() && p[i].0 == k && forall|j: int|
                0 <= j < i ==> (#[trigger] p[j]).0 != k,
            None => forall|j: int| 0 <= j < p.len() ==> (#[trigger] p[j]).0 != k,
        },
    decreases p.len(),
{
    if p.len() > 0 {
        lemma_key_index(p.drop_last(), k);
        match key_index(p.drop_last(), k) {
            Some(i) => {
                assert(p.drop_last()[i] == p[i]);
                assert forall|j: int| 0 <= j < i implies (#[trigger] p[j]).0 != k by {
                    assert(p.drop_last()[j] == p[j]);
                }
            },
            None => {
                assert forall|j: int| 0 <= j < p.len() - 1 implies (#[trigger] p[j]).0 != k by {
                    assert(p.drop_last()[j] == p[j]);
                }
            },
        }
    }
}

/// Setting a key keeps the keys distinct, and is seen by `lookup`.
pub proof fn lemma_put<V>(p: Seq<(Seq<char>, V)>, k: Seq<char>, v: V)
    requires
        distinct_keys(p),
    ensures
        distinct_keys(put(p, k, v)),
        lookup(put(p, k, v), k) == Some(v),
        forall|other: Seq<char>| other != k ==> lookup(put(p, k, v), other) == lookup(p, other),
        forall|other: Seq<char>| has_key(put(p, k, v), other) <==> (other == k || has_key(p, other)),
{
    let q = put(p, k, v);
    lemma_key_index(p, k);
    match key_index(p, k) {
        Some(i) => {
            assert forall|a: int, b: int| 0 <= a < b < q.len() implies (#[trigger] q[a]).0 != (
            #[trigger] q[b]).0 by {
                assert(q[a].0 == p[a].0);
                assert(q[b].0 == p[b].0);
            }
        },
        None => {
            assert forall|a: int, b: int| 0 <= a < b < q.len() implies (#[trigger] q[a]).0 != (
            #[trigger] q[b]).0 by {
                if b < p.len() {
                    assert(q[a] == p[a]);
                    assert(q[b] == p[b]);
                } else {
                    assert(q[a] == p[a]);
                }
            }
        },
    }
    assert forall|other: Seq<char>| true implies (other != k ==> lookup(q, other) == lookup(
        p,
        other,
    )) && (lookup(q, k) == Some(v)) && (has_key(q, other) <==> (other == k || has_key(p, other))) by {
        lemma_key_index(p, other);
        lemma_key_index(q, other);
        lemma_key_index(q, k);
        match key_index(p, k) {
            Some(i) => {
                assert(q[i] == (k, v));
                if let Some(a) = key_index(q, other) {
                    assert(q[a].0 == p[a].0);
                }
                if let Some(b) = key_index(p, other) {
                    assert(q[b].0 == p[b].0);
                }
                if let Some(c) = key_index(q, k) {
                    assert(q[c].0 == p[c].0);
                }
            },
            None => {
                assert(q[p.len() as int] == (k, v));
                if let Some(a) = key_index(q, other) {
                    if a < p.len() {
                        assert(q[a] == p[a]);
                    }
                }
                if let Some(b) = key_index(p, other) {
                    assert(q[b] == p[b]);
                }
                if let Some(c) = key_index(q, k) {
                    if c < p.len() {
                        assert(q[c] == p[c]);
                    }
                }
            },
        }
    }
}

/// Removing a key keeps the keys distinct, and is seen by `lookup`.
pub proof fn lemma_without<V>(p: Seq<(Seq<char>, V)>, k: Seq<char>)
    requires
        distinct_keys(p),
    ensures
        distinct_keys(without(p, k)),
        lookup(without(p, k), k) is None,
        forall|other: Seq<char>| other != k ==> lookup(without(p, k), other) == lookup(p, other),
{
    let q = without(p, k);
    lemma_key_index(p, k);
    match key_index(p, k) {
        Some(i) => {
            assert forall|a: int| 0 <= a < q.len() implies #[trigger] q[a] == p[if a < i {
                a
            } else {
                a + 1
            }] by {}
            assert forall|a: int, b: int| 0 <= a < b < q.len() implies (#[trigger] q[a]).0 != (
            #[trigger] q[b]).0 by {
                let pa = if a < i { a } else { a + 1 };
                let pb = if b < i { b } else { b + 1 };
                assert(q[a] == p[pa]);
                assert(q[b] == p[pb]);
            }
            assert forall|other: Seq<char>| true implies (other != k ==> lookup(q, other) == lookup(
                p,
                other,
            )) && lookup(q, k) is None by {
                lemma_key_index(p, other);
                lemma_key_index(q, other);
                lemma_key_index(q, k);
                if let Some(c) = key_index(q, k) {
                    let pc = if c < i { c } else { c + 1 };
                    assert(q[c] == p[pc]);
                    assert(p[pc].0 == p[i].0);
                }
                if other != k {
                    if let Some(a) = key_index(q, other) {
                        let pa = if a < i { a } else { a + 1 };
                        assert(q[a] == p[pa]);
                        if let Some(b) = key_index(p, other) {
                            let qb = if b < i { b } else { b - 1 };
                            assert(q[qb] == p[b]);
                        }
                    } else {
                        if let Some(b) = key_index(p, other) {
                            let qb = if b < i { b } else { b - 1 };
                            assert(q[qb] == p[b]);
                        }
                    }
                }
            }
        },
        None => {},
    }
}

/// The model of a list of entries.
pub open spec fn pairs_of<V: DeepView>(entries: Seq<(String, V)>) -> Seq<(Seq<char>, V::V)> {
    Seq::new(entries.len(), |i: int| (entries[i].0@, entries[i].1.deep_view()))
}

/// The model of a list of members.
pub open spec fn members_of(items: Seq<String>) -> Seq<Seq<char>> {
    Seq::new(items.len(), |i: int| items[i]@)
}

/// A map from strings to `V` that remembers the order of its keys.
#[derive(Debug)]
pub struct StrMap<V: DeepView> {
    entries: Vec<(String, V)>,
}

impl<V: DeepView> StrMap<V> {
    /// The keys with the models of their values, in the order in which the
    /// keys came.
    pub closed spec fn pairs(&self) -> Seq<(Seq<char>, V::V)> {
        pairs_of(self.entries@)
    }

    #[verifier::type_invariant]
    spec fn inv(&self) -> bool {
        distinct_keys(self.pairs())
    }

    /// A map without keys.
    pub fn new() -> (m: StrMap<V>)
        ensures
            m.pairs() == Seq::<(Seq<char>, V::V)>::empty(),
    {
        let m = StrMap { entries: Vec::new() };
        assert(m.pairs() =~= Seq::<(Seq<char>, V::V)>::empty());
        m
    }

    /// The number of keys.
    pub fn len(&self) -> (n: usize)
        ensures
            n == self.pairs().len(),
            distinct_keys(self.pairs()),
    {
        proof {
            use_type_invariant(self);
        }
        self.entries.len()
    }

    /// Whether the map has no key.
    pub fn is_empty(&self) -> (r: bool)
        ensures
            r == (self.pairs().len() == 0),
    {
        self.entries.len() == 0
    }

    /// The position of `k`, if it is a key.
    #[verifier::loop_isolation(false)]
    pub fn index_of(&self, k: &str) -> (r: Option<usize>)
        ensures
            distinct_keys(self.pairs()),
            match r {
                Some(i) => key_index(self.pairs(), k@) == Some(i as int) && i < self.pairs().len(),
                None => key_index(self.pairs(), k@) is None,
            },
    {
        proof {
            use_type_invariant(self);
            lemma_key_index(self.pairs(), k@);
        }
        let mut i: usize = 0;
        while i < self.entries.len()
            invariant
                i <= self.entries.len(),
                forall|j: int| 0 <= j < i ==> (#[trigger] self.pairs()[j]).0 != k@,
            decreases self.entries.len() - i,
        {
            if str_eq(self.entries[i].0.as_str(), k) {
                assert(self.pairs()[i as int].0 == k@);
                proof {
                    lemma_key_index(self.pairs(), k@);
                }
                return Some(i);
            }
            assert(self.pairs()[i as int].0 != k@);
            i = i + 1;
        }
        proof {
            lemma_key_index(self.pairs(), k@);
        }
        None
    }

    /// Whether `k` is a key.
    pub fn contains_key(&self, k: &str) -> (r: bool)
        ensures
            r == has_key(self.pairs(), k@),
    {
        self.index_of(k).is_some()
    }

    /// The value held for `k`, if any.
    pub fn get(&self, k: &str) -> (r: Option<&V>)
        ensures
            distinct_keys(self.pairs()),
            r.deep_view() == lookup(self.pairs(), k@),
    {
        match self.index_of(k) {
            Some(i) => Some(&self.entries[i].1),
            None => None,
        }
    }

    /// The key at position `i`.
    pub fn key_at(&self, i: usize) -> (k: &String)
        requires
            i < self.pairs().len(),
        ensures
            k@ == self.pairs()[i as int].0,
            distinct_keys(self.pairs()),
    {
        proof {
            use_type_invariant(self);
        }
        &self.entries[i].0
    }

    /// The value at position `i`.
    pub fn value_at(&self, i: usize) -> (v: &V)
        requires
            i < self.pairs().len(),
        ensures
            v.deep_view() == self.pairs()[i as int].1,
            distinct_keys(self.pairs()),
    {
        proof {
            use_type_invariant(self);
        }
        &self.entries[i].1
    }

    /// Sets `k` to `v`: in place where `k` is a key already, else at the end.
    pub fn insert(&mut self, k: String, v: V)
        ensures
            final(self).pairs() == put(old(self).pairs(), k@, v.deep_view()),
            distinct_keys(old(self).pairs()),
            distinct_keys(final(self).pairs()),
    {
        proof {
            use_type_invariant(&*self);
            lemma_put(self.pairs(), k@, v.deep_view());
        }
        let ghost before = self.pairs();
        let ghost value = v.deep_view();
        let found = self.index_of(k.as_str());
        let mut entries: Vec<(String, V)> = Vec::new();
        std::mem::swap(&mut self.entries, &mut entries);
        match found {
            Some(i) => {
                entries.set(i, (k, v));
            },
            None => {
                entries.push((k, v));
            },
        }
        assert(pairs_of(entries@) =~= put(before, k@, v.deep_view()));
        self.entries = entries;
    }

    /// Takes the key `k` out, with its value.
    pub fn remove(&mut self, k: &str) -> (r: Option<V>)
        ensures
            final(self).pairs() == without(old(self).pairs(), k@),
            r.deep_view() == lookup(old(self).pairs(), k@),
            distinct_keys(old(self).pairs()),
            distinct_keys(final(self).pairs()),
    {
        proof {
            use_type_invariant(&*self);
            lemma_without(self.pairs(), k@);
        }
        let ghost before = self.pairs();
        match self.index_of(k) {
            Some(i) => {
                let mut entries: Vec<(String, V)> = Vec::new();
                std::mem::swap(&mut self.entries, &mut entries);
                let e = entries.remove(i);
                assert(pairs_of(entries@) =~= before.remove(i as int));
                self.entries = entries;
                Some(e.1)
            },
            None => None,
        }
    }
}

/// No string occurs twice in `s`.
pub open spec fn distinct(s: Seq<Seq<char>>) -> bool {
    forall|i: int, j: int| 0 <= i < j < s.len() ==> #[trigger] s[i] != #[trigger] s[j]
}

/// `s` with `k` at the end, unless it holds `k` already.
pub open spec fn with_member(s: Seq<Seq<char>>, k: Seq<char>) -> Seq<Seq<char>> {
    if s.contains(k) {
        s
    } else {
        s.push(k)
    }
}

/// `s` without `k`; the others keep their order.
pub open spec fn without_member(s: Seq<Seq<char>>, k: Seq<char>) -> Seq<Seq<char>> {
    if s.contains(k) {
        s.remove(s.index_of(k))
    } else {
        s
    }
}

/// A set of strings that remembers the order in which they came.
#[derive(Debug)]
pub struct StrSet {
    items: Vec<String>,
}

impl StrSet {
    /// The members, in the order in which they came.
    pub closed spec fn members(&self) -> Seq<Seq<char>> {
        members_of(self.items@)
    }

    #[verifier::type_invariant]
    spec fn inv(&self) -> bool {
        distinct(self.members())
    }

    /// The empty set.
    pub fn new() -> (s: StrSet)
        ensures
            s.members() == Seq::<Seq<char>>::empty(),
    {
        let s = StrSet { items: Vec::new() };
        assert(s.members() =~= Seq::<Seq<char>>::empty());
        s
    }

    /// The number of members.
    pub fn len(&self) -> (n: usize)
        ensures
            n == self.members().len(),
            distinct(self.members()),
    {
        proof {
            use_type_invariant(self);
        }
        self.items.len()
    }

    /// The position of `k`, if it is a member.
    #[verifier::loop_isolation(false)]
    pub fn index_of(&self, k: &str) -> (r: Option<usize>)
        ensures
            distinct(self.members()),
            match r {
                Some(i) => i < self.members().len() && self.members()[i as int] == k@,
                None => !self.members().contains(k@),
            },
    {
        proof {
            use_type_invariant(self);
        }
        let mut i: usize = 0;
        while i < self.items.len()
            invariant
                i <= self.items.len(),
                forall|j: int| 0 <= j < i ==> #[trigger] self.members()[j] != k@,
            decreases self.items.len() - i,
        {
            if str_eq(self.items[i].as_str(), k) {
                assert(self.members()[i as int] == k@);
                return Some(i);
            }
            assert(self.members()[i as int] != k@);
            i = i + 1;
        }
        None
    }

    /// Whether `k` is a member.
    pub fn contains(&self, k: &str) -> (r: bool)
        ensures
            r == self.members().contains(k@),
    {
        match self.index_of(k) {
            Some(i) => {
                assert(self.members()[i as int] == k@);
                true
            },
            None => false,
        }
    }

    /// The member at position `i`.
    pub fn member_at(&self, i: usize) -> (k: &String)
        requires
            i < self.members().len(),
        ensures
            k@ == self.members()[i as int],
            distinct(self.members()),
    {
        proof {
            use_type_invariant(self);
        }
        &self.items[i]
    }

    /// Adds `k`; says whether it was new.
    pub fn insert(&mut self, k: String) -> (r: bool)
        ensures
            final(self).members() == with_member(old(self).members(), k@),
            r == !old(self).members().contains(k@),
            distinct(final(self).members()),
    {
        proof {
            use_type_invariant(&*self);
        }
        let ghost before = self.members();
        match self.index_of(k.as_str()) {
            Some(i) => {
                assert(before[i as int] == k@);
                false
            },
            None => {
                let mut items: Vec<String> = Vec::new();
                std::mem::swap(&mut self.items, &mut items);
                items.push(k);
                assert(members_of(items@) =~= before.push(k@));
                self.items = items;
                true
            },
        }
    }

    /// Takes `k` out; says whether it was a member.
    pub fn remove(&mut self, k: &str) -> (r: bool)
        ensures
            final(self).members() == without_member(old(self).members(), k@),
            r == old(self).members().contains(k@),
            distinct(final(self).members()),
    {
        proof {
            use_type_invariant(&*self);
        }
        let ghost before = self.members();
        match self.index_of(k) {
            Some(i) => {
                assert(before[i as int] == k@);
                proof {
                    before.index_of_first_ensures(k@);
                    let w = before.index_of(k@);
                    if w != i as int {
                        if w < i {
                            assert(before[w] != before[i as int]);
                        } else {
                            assert(before[i as int] != before[w]);
                        }
                    }
                }
                let mut items: Vec<String> = Vec::new();
                std::mem::swap(&mut self.items, &mut items);
                let _ = items.remove(i);
                assert(members_of(items@) =~= before.remove(i as int));
                assert(distinct(before.remove(i as int))) by {
                    let q = before.remove(i as int);
                    assert forall|a: int, b: int| 0 <= a < b < q.len() implies #[trigger] q[a]
                        != #[trigger] q[b] by {
                        let pa = if a < i { a } else { a + 1 };
                        let pb = if b < i { b } else { b + 1 };
                        assert(q[a] == before[pa]);
                        assert(q[b] == before[pb]);
                    }
                }
                self.items = items;
                true
            },
            None => false,
        }
    }
}

} // verus!
