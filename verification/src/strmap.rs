//! An insertion-ordered map from package names to values.
//!
//! Keys are compared by their characters; no key occurs twice.
use vstd::prelude::*;

use crate::text::str_eq;

verus! {

/// A map keyed by strings that remembers the order in which keys arrived.
#[derive(Debug)]
pub struct StrMap<V> {
    entries: Vec<(String, V)>,
}

/// The keys of an entry sequence.
pub open spec fn keys_of<V>(entries: Seq<(String, V)>) -> Seq<Seq<char>> {
    entries.map_values(|e: (String, V)| e.0@)
}

/// The values of an entry sequence.
pub open spec fn vals_of<V>(entries: Seq<(String, V)>) -> Seq<V> {
    entries.map_values(|e: (String, V)| e.1)
}

impl<V> StrMap<V> {
    /// The keys, in insertion order.
    pub closed spec fn keys(&self) -> Seq<Seq<char>> {
        keys_of(self.entries@)
    }

    /// The values, position for position with `keys`.
    pub closed spec fn vals(&self) -> Seq<V> {
        vals_of(self.entries@)
    }

    /// No key occurs twice, and there is one value per key.
    #[verifier::type_invariant]
    pub closed spec fn unique_keys(&self) -> bool {
        self.keys().no_duplicates()
    }

    /// Number of entries.
    pub open spec fn size(&self) -> nat {
        self.keys().len()
    }

    /// Whether `k` is a key.
    pub open spec fn has(&self, k: Seq<char>) -> bool {
        self.keys().contains(k)
    }

    /// The position of key `k` (meaningful when `has(k)`).
    pub open spec fn pos(&self, k: Seq<char>) -> int {
        self.keys().index_of(k)
    }

    /// The value stored under `k`, if any.
    pub open spec fn lookup(&self, k: Seq<char>) -> Option<V> {
        if self.has(k) {
            Some(self.vals()[self.pos(k)])
        } else {
            None
        }
    }

    /// The map holds exactly these keys and values, in this order.
    pub open spec fn holds(&self, ks: Seq<Seq<char>>, vs: Seq<V>) -> bool {
        self.keys() == ks && self.vals() == vs
    }

    /// Facts every map satisfies, for an exec map.
    pub fn well_formed(&self)
        ensures
            self.keys().len() == self.vals().len(),
            self.keys().no_duplicates(),
    {
        proof {
            use_type_invariant(self);
        }
    }

    /// An empty map.
    pub fn new() -> (m: Self)
        ensures
            m.keys() == Seq::<Seq<char>>::empty(),
            m.vals() == Seq::<V>::empty(),
    {
        let m = StrMap { entries: Vec::new() };
        assert(m.keys() =~= Seq::<Seq<char>>::empty());
        assert(m.vals() =~= Seq::<V>::empty());
        m
    }

    /// Number of entries.
    pub fn len(&self) -> (n: usize)
        ensures
            n == self.keys().len(),
            n == self.vals().len(),
            self.keys().no_duplicates(),
    {
        proof {
            use_type_invariant(self);
        }
        self.entries.len()
    }

    /// Whether the map is empty.
    pub fn is_empty(&self) -> (b: bool)
        ensures
            b == (self.keys().len() == 0),
    {
        self.entries.len() == 0
    }

    /// The key at position `i`.
    pub fn key_at(&self, i: usize) -> (k: &String)
        requires
            i < self.keys().len(),
        ensures
            k@ == self.keys()[i as int],
    {
        &self.entries[i].0
    }

    /// The value at position `i`.
    pub fn value_at(&self, i: usize) -> (v: &V)
        requires
            i < self.keys().len(),
        ensures
            *v == self.vals()[i as int],
    {
        &self.entries[i].1
    }

    /// Position of key `k`, if present.
    pub fn find(&self, k: &str) -> (r: Option<usize>)
        ensures
            match r {
                Some(i) => i < self.keys().len() && self.keys()[i as int] == k@ && self.pos(k@)
                    == i && self.has(k@),
                None => !self.has(k@),
            },
    {
        proof {
            use_type_invariant(self);
        }
        let mut i: usize = 0;
        while i < self.entries.len()
            invariant
                i <= self.entries@.len(),
                self.keys().len() == self.entries@.len(),
                self.keys().no_duplicates(),
                forall|j: int| 0 <= j < i ==> self.keys()[j] != k@,
            decreases self.entries@.len() - i,
        {
            if str_eq(self.entries[i].0.as_str(), k) {
                proof {
                    let ks = self.keys();
                    assert(ks[i as int] == k@);
                    assert(ks.contains(k@));
                    let j = ks.index_of(k@);
                    assert(0 <= j < ks.len() && ks[j] == k@);
                    assert(ks.no_duplicates());
                }
                return Some(i);
            }
            i = i + 1;
        }
        None
    }

    /// Whether `k` is a key.
    pub fn contains_key(&self, k: &str) -> (b: bool)
        ensures
            b == self.has(k@),
    {
        self.find(k).is_some()
    }

    /// The value stored under `k`.
    pub fn get(&self, k: &str) -> (r: Option<&V>)
        ensures
            match r {
                Some(v) => self.lookup(k@) == Some(*v),
                None => self.lookup(k@) is None,
            },
    {
        match self.find(k) {
            Some(i) => Some(&self.entries[i].1),
            None => None,
        }
    }

    /// Stores `v` under `k`, replacing any earlier value in place
    /// (`HashMap::insert`).
    pub fn insert(&mut self, k: String, v: V)
        ensures
            old(self).has(k@) ==> final(self).keys() == old(self).keys() && final(self).vals()
                == old(self).vals().update(old(self).pos(k@), v),
            !old(self).has(k@) ==> final(self).keys() == old(self).keys().push(k@) && final(self).vals() == old(self).vals().push(v),
    {
        proof {
            use_type_invariant(&*self);
        }
        match self.find(k.as_str()) {
            Some(i) => {
                let mut entries: Vec<(String, V)> = Vec::new();
                std::mem::swap(&mut entries, &mut self.entries);
                let ghost before = entries@;
                let (key, _old) = entries.remove(i);
                entries.insert(i, (key, v));
                proof {
                    assert(keys_of(entries@) =~= keys_of(before));
                    assert(vals_of(entries@) =~= vals_of(before).update(i as int, v));
                }
                self.entries = entries;
            },
            None => {
                let mut entries: Vec<(String, V)> = Vec::new();
                std::mem::swap(&mut entries, &mut self.entries);
                let ghost before = entries@;
                entries.push((k, v));
                proof {
                    assert(keys_of(entries@) =~= keys_of(before).push(k@));
                    assert(vals_of(entries@) =~= vals_of(before).push(v));
                    let ks = keys_of(before);
                    assert forall|a: int, b: int|
                        0 <= a < keys_of(entries@).len() && 0 <= b < keys_of(entries@).len() && a
                            != b implies keys_of(entries@)[a] != keys_of(entries@)[b] by {
                        if a == ks.len() {
                            assert(ks[b] != k@);
                        } else if b == ks.len() {
                            assert(ks[a] != k@);
                        }
                    }
                }
                self.entries = entries;
            },
        }
    }

    /// Stores `v` under `k` unless `k` is already a key
    /// (`entry(k).or_insert(v)`).
    pub fn insert_if_absent(&mut self, k: String, v: V)
        ensures
            old(self).has(k@) ==> final(self).keys() == old(self).keys() && final(self).vals()
                == old(self).vals(),
            !old(self).has(k@) ==> final(self).keys() == old(self).keys().push(k@) && final(self).vals() == old(self).vals().push(v),
    {
        if !self.contains_key(k.as_str()) {
            self.insert(k, v);
        }
    }

    /// Replaces the value at position `i`.
    pub fn set_value_at(&mut self, i: usize, v: V)
        requires
            i < old(self).keys().len(),
        ensures
            final(self).keys() == old(self).keys(),
            final(self).vals() == old(self).vals().update(i as int, v),
    {
        proof {
            use_type_invariant(&*self);
        }
        let mut entries: Vec<(String, V)> = Vec::new();
        std::mem::swap(&mut entries, &mut self.entries);
        let ghost before = entries@;
        let (key, _old) = entries.remove(i);
        entries.insert(i, (key, v));
        proof {
            assert(keys_of(entries@) =~= keys_of(before));
            assert(vals_of(entries@) =~= vals_of(before).update(i as int, v));
        }
        self.entries = entries;
    }

    /// Removes and returns the value at position `i`, leaving `fill` there.
    pub fn replace_value_at(&mut self, i: usize, fill: V) -> (v: V)
        requires
            i < old(self).keys().len(),
        ensures
            v == old(self).vals()[i as int],
            final(self).keys() == old(self).keys(),
            final(self).vals() == old(self).vals().update(i as int, fill),
    {
        proof {
            use_type_invariant(&*self);
        }
        let mut entries: Vec<(String, V)> = Vec::new();
        std::mem::swap(&mut entries, &mut self.entries);
        let ghost before = entries@;
        let (key, old_v) = entries.remove(i);
        entries.insert(i, (key, fill));
        proof {
            assert(keys_of(entries@) =~= keys_of(before));
            assert(vals_of(entries@) =~= vals_of(before).update(i as int, fill));
        }
        self.entries = entries;
        old_v
    }
}

impl StrMap<Vec<String>> {
    /// Appends `item` to the list stored under `k`, starting an empty list
    /// when `k` is new (`entry(k).or_default().push(item)`).
    pub fn push_to(&mut self, k: String, item: String)
        ensures
            old(self).has(k@) ==> final(self).keys() == old(self).keys() && final(self).vals().len()
                == old(self).vals().len() && (forall|j: int|
                0 <= j < old(self).vals().len() && j != old(self).pos(k@) ==> #[trigger] final(self).vals()[j] == old(self).vals()[j]) && final(self).vals()[old(self).pos(
                k@,
            )]@ == old(self).vals()[old(self).pos(k@)]@.push(item),
            !old(self).has(k@) ==> final(self).keys() == old(self).keys().push(k@) && final(self).vals().len() == old(self).vals().len() + 1 && (forall|j: int|
                0 <= j < old(self).vals().len() ==> #[trigger] final(self).vals()[j] == old(self).vals()[j]) && final(self).vals().last()@ == seq![item],
    {
        proof {
            use_type_invariant(&*self);
        }
        match self.find(k.as_str()) {
            Some(i) => {
                let mut list = self.replace_value_at(i, Vec::new());
                list.push(item);
                self.set_value_at(i, list);
            },
            None => {
                let mut list: Vec<String> = Vec::new();
                list.push(item);
                self.insert(k, list);
            },
        }
    }
}

/// In a sequence without duplicates, `index_of` finds the one position of an element.
pub proof fn lemma_index_of_unique<A>(s: Seq<A>, x: A, i: int)
    requires
        s.no_duplicates(),
        0 <= i < s.len(),
        s[i] == x,
    ensures
        s.index_of(x) == i,
{
    assert(s.contains(x));
    let j = s.index_of(x);
    assert(s[j] == x);
}

impl<V: DeepView> StrMap<V> {
    /// The map has exactly the keys of `target`, and under each key a value
    /// whose deep view is `target`'s value.
    pub open spec fn deep_is(&self, target: Map<Seq<char>, V::V>) -> bool {
        &&& forall|k: Seq<char>|
            #![trigger self.has(k)]
            #![trigger target.dom().contains(k)]
            self.has(k) <==> target.dom().contains(k)
        &&& forall|k: Seq<char>| #[trigger] self.has(k) ==> self.vals()[self.pos(k)].deep_view() == target[k]
    }

    /// Adding a new key at the end adds it to the described map.
    pub proof fn lemma_deep_is_push(
        before: Self,
        after: Self,
        k: Seq<char>,
        v: V,
        target: Map<Seq<char>, V::V>,
    )
        requires
            before.deep_is(target),
            before.keys().no_duplicates(),
            before.keys().len() == before.vals().len(),
            after.keys().no_duplicates(),
            !before.has(k),
            after.keys() == before.keys().push(k),
            after.vals() == before.vals().push(v),
        ensures
            after.deep_is(target.insert(k, v.deep_view())),
    {
        let t2 = target.insert(k, v.deep_view());
        assert forall|q: Seq<char>| after.has(q) <==> t2.dom().contains(q) by {
            if before.has(q) {
                let i = before.pos(q);
                assert(after.keys()[i] == q);
            }
            if q == k {
                assert(after.keys()[before.keys().len() as int] == q);
            }
            if after.has(q) && q != k {
                let i = after.pos(q);
                if i < before.keys().len() {
                    assert(before.keys()[i] == q);
                }
            }
        }
        assert forall|q: Seq<char>| #[trigger] after.has(q) implies after.vals()[after.pos(q)].deep_view()
            == t2[q] by {
            if q == k {
                lemma_index_of_unique(after.keys(), q, before.keys().len() as int);
            } else {
                let i = after.pos(q);
                if i == before.keys().len() {
                    assert(after.keys()[i] == k);
                }
                assert(before.keys()[i] == q);
                lemma_index_of_unique(before.keys(), q, i);
            }
        }
    }

    /// Two maps with the same keys and values describe the same map.
    pub proof fn lemma_deep_is_same(before: Self, after: Self, target: Map<Seq<char>, V::V>)
        requires
            before.deep_is(target),
            after.keys() == before.keys(),
            after.vals() == before.vals(),
        ensures
            after.deep_is(target),
    {
        assert forall|q: Seq<char>| after.has(q) <==> target.dom().contains(q) by {
            assert(after.has(q) == before.has(q));
        }
        assert forall|q: Seq<char>| #[trigger] after.has(q) implies after.vals()[after.pos(q)].deep_view()
            == target[q] by {
            assert(before.has(q));
        }
    }

    /// Replacing the value of an existing key replaces it in the described map.
    pub proof fn lemma_deep_is_update(
        before: Self,
        after: Self,
        k: Seq<char>,
        v: V,
        target: Map<Seq<char>, V::V>,
    )
        requires
            before.deep_is(target),
            before.keys().no_duplicates(),
            before.keys().len() == before.vals().len(),
            before.has(k),
            after.keys() == before.keys(),
            after.vals() == before.vals().update(before.pos(k), v),
        ensures
            after.deep_is(target.insert(k, v.deep_view())),
    {
        let t2 = target.insert(k, v.deep_view());
        assert forall|q: Seq<char>| after.has(q) <==> t2.dom().contains(q) by {
            assert(after.has(q) == before.has(q));
        }
        assert forall|q: Seq<char>| #[trigger] after.has(q) implies after.vals()[after.pos(q)].deep_view()
            == t2[q] by {
            assert(before.has(q));
            let i = before.pos(q);
            if q != k {
                assert(before.keys()[i] == q);
                assert(before.keys()[before.pos(k)] == k);
            }
        }
    }
}

} // verus!
