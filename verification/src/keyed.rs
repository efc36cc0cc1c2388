//! A map from text keys to values that keeps its entries in key order, as
//! an ordered map of strings does.

use vstd::prelude::*;
use crate::text::{
    compare_text, lemma_text_lt_irreflexive, lemma_text_lt_transitive, lemma_text_lt_trichotomy, text_lt,
    TextOrder,
};

verus! {

/// Entries sorted strictly by key; each key occurs once.
#[derive(Debug)]
pub struct KeyedMap<V> {
    entries: Vec<(String, V)>,
}

/// Keys strictly increasing along the sequence.
pub open spec fn keys_sorted(keys: Seq<Seq<char>>) -> bool {
    forall|i: int, j: int| 0 <= i < j < keys.len() ==> text_lt(#[trigger] keys[i], #[trigger] keys[j])
}

impl<V> KeyedMap<V> {
    /// The keys, in order.
    pub closed spec fn key_seq(&self) -> Seq<Seq<char>> {
        Seq::new(self.entries@.len(), |i: int| self.entries@[i].0@)
    }

    /// The values, in key order.
    pub closed spec fn value_seq(&self) -> Seq<V> {
        Seq::new(self.entries@.len(), |i: int| self.entries@[i].1)
    }

    /// Number of entries.
    pub open spec fn spec_len(&self) -> nat {
        self.key_seq().len()
    }

    /// The map's invariant: keys strictly sorted.
    #[verifier::type_invariant]
    pub closed spec fn sorted_keys(&self) -> bool {
        keys_sorted(self.key_seq())
    }

    pub open spec fn has(&self, k: Seq<char>) -> bool {
        self.key_seq().contains(k)
    }

    /// The value stored under `k`, meaningful when `has(k)`.
    pub open spec fn at(&self, k: Seq<char>) -> V {
        self.value_seq()[self.key_seq().index_of(k)]
    }

    /// The content as a mathematical map.
    pub open spec fn map(&self) -> Map<Seq<char>, V> {
        Map::new(|k: Seq<char>| self.has(k), |k: Seq<char>| self.at(k))
    }

    proof fn lemma_lengths(&self)
        ensures
            self.key_seq().len() == self.entries@.len(),
            self.value_seq().len() == self.entries@.len(),
            forall|i: int| 0 <= i < self.entries@.len() ==> #[trigger] self.key_seq()[i] == self.entries@[i].0@,
            forall|i: int| 0 <= i < self.entries@.len() ==> #[trigger] self.value_seq()[i] == self.entries@[i].1,
    {
    }

    /// In a well-formed map, the position of a present key is the one whose key it is.
    pub proof fn lemma_index_of(&self, i: int)
        requires
            self.sorted_keys(),
            0 <= i < self.spec_len(),
        ensures
            self.has(self.key_seq()[i]),
            self.key_seq().index_of(self.key_seq()[i]) == i,
            self.at(self.key_seq()[i]) == self.value_seq()[i],
    {
        let ks = self.key_seq();
        let k = ks[i];
        assert(ks.contains(k));
        let j = ks.index_of(k);
        assert(ks[j] == k);
        if j < i {
            lemma_text_lt_irreflexive(k);
        } else if j > i {
            lemma_text_lt_irreflexive(k);
        }
    }

    pub fn new() -> (m: Self)
        ensures
            m.spec_len() == 0,
            m.map() == Map::<Seq<char>, V>::empty(),
    {
        let m = KeyedMap { entries: Vec::new() };
        assert(m.map() =~= Map::<Seq<char>, V>::empty());
        m
    }

    pub fn len(&self) -> (n: usize)
        ensures
            n == self.spec_len(),
    {
        self.entries.len()
    }

    pub fn is_empty(&self) -> (b: bool)
        ensures
            b == (self.spec_len() == 0),
    {
        self.entries.len() == 0
    }

    /// The position of `key`, or where it would be inserted to keep the order.
    fn locate(&self, key: &str) -> (r: (usize, bool))
        ensures
            r.0 <= self.spec_len(),
            forall|j: int| 0 <= j < r.0 ==> text_lt(#[trigger] self.key_seq()[j], key@),
            r.1 ==> r.0 < self.spec_len() && self.key_seq()[r.0 as int] == key@,
            !r.1 ==> (r.0 < self.spec_len() ==> text_lt(key@, self.key_seq()[r.0 as int])),
            r.1 == self.has(key@),
    {
        proof {
            self.lemma_lengths();
            use_type_invariant(self);
        }
        let n = self.entries.len();
        let mut i: usize = 0;
        while i < n
            invariant
                n == self.entries@.len(),
                keys_sorted(self.key_seq()),
                i <= n,
                forall|j: int| 0 <= j < i ==> text_lt(#[trigger] self.key_seq()[j], key@),
            decreases n - i,
        {
            proof { self.lemma_lengths(); }
            let o = compare_text(self.entries[i].0.as_str(), key);
            match o {
                TextOrder::Less => {
                    i = i + 1;
                },
                TextOrder::Equal => {
                    assert(self.key_seq()[i as int] == key@);
                    return (i, true);
                },
                TextOrder::Greater => {
                    proof {
                        assert forall|j: int| 0 <= j < n implies self.key_seq()[j] != key@ by {
                            if j < i {
                                lemma_text_lt_irreflexive(key@);
                            } else if j > i {
                                lemma_text_lt_transitive(key@, self.key_seq()[i as int], self.key_seq()[j]);
                                lemma_text_lt_irreflexive(key@);
                            } else {
                                lemma_text_lt_irreflexive(key@);
                            }
                        }
                    }
                    return (i, false);
                },
            }
        }
        proof {
            assert forall|j: int| 0 <= j < n implies self.key_seq()[j] != key@ by {
                lemma_text_lt_irreflexive(key@);
            }
        }
        (i, false)
    }

    /// Whether `key` is present.
    pub fn contains_key(&self, key: &str) -> (b: bool)
        ensures
            b == self.map().contains_key(key@),
    {
        self.locate(key).1
    }

    /// The value under `key`, if present.
    pub fn get(&self, key: &str) -> (r: Option<&V>)
        ensures
            r is Some <==> self.map().contains_key(key@),
            r matches Some(v) ==> *v == self.map()[key@],
    {
        let (i, found) = self.locate(key);
        if found {
            proof {
                use_type_invariant(self);
                self.lemma_lengths();
                self.lemma_index_of(i as int);
            }
            Some(&self.entries[i].1)
        } else {
            None
        }
    }

    /// Relates a position-wise description of the entries to the map view.
    proof fn lemma_map_from_positions(&self, other: &Self, m: Map<Seq<char>, V>)
        requires
            keys_sorted(other.key_seq()),
            forall|i: int| 0 <= i < other.spec_len() ==> #[trigger] m.contains_key(other.key_seq()[i])
                && m[other.key_seq()[i]] == other.value_seq()[i],
            forall|k: Seq<char>| #[trigger] m.contains_key(k) ==> other.key_seq().contains(k),
        ensures
            other.map() == m,
    {
        assert forall|k: Seq<char>| other.map().contains_key(k) <==> m.contains_key(k) by {
            if other.key_seq().contains(k) {
                let i = other.key_seq().index_of(k);
                other.lemma_index_of(i);
            }
        }
        assert forall|k: Seq<char>| #[trigger] other.map().contains_key(k) implies other.map()[k] == m[k] by {
            let i = other.key_seq().index_of(k);
            other.lemma_index_of(i);
            assert(m.contains_key(other.key_seq()[i]));
        }
        assert(other.map() =~= m);
    }

    /// Stores `value` under `key`, replacing what was there.
    pub fn insert(&mut self, key: String, value: V)
        ensures
            final(self).map() == old(self).map().insert(key@, value),
            final(self).spec_len() == old(self).spec_len() + (if old(self).map().contains_key(key@) { 0int } else { 1int }),
            old(self).map().contains_key(key@) ==> {
                &&& final(self).key_seq() == old(self).key_seq()
                &&& final(self).value_seq() == old(self).value_seq().update(old(self).key_seq().index_of(key@), value)
                &&& old(self).value_seq()[old(self).key_seq().index_of(key@)] == old(self).map()[key@]
            },
            !old(self).map().contains_key(key@) ==> {
                &&& final(self).key_seq() == old(self).key_seq().insert(final(self).key_seq().index_of(key@), key@)
                &&& final(self).value_seq() == old(self).value_seq().insert(final(self).key_seq().index_of(key@), value)
                &&& 0 <= final(self).key_seq().index_of(key@) <= old(self).spec_len()
            },
    {
        proof { use_type_invariant(&*self); }
        let ghost old_self = *self;
        let ghost m = old_self.map().insert(key@, value);
        let (i, found) = self.locate(key.as_str());
        proof { old_self.lemma_lengths(); }
        let mut entries: Vec<(String, V)> = Vec::new();
        std::mem::swap(&mut entries, &mut self.entries);
        if found {
            let _ = entries.remove(i);
            entries.insert(i, (key, value));
            let ghost nm = KeyedMap::<V> { entries: entries };
            proof {
                nm.lemma_lengths();
                assert(nm.key_seq() =~= old_self.key_seq());
                assert forall|j: int| 0 <= j < nm.spec_len() implies #[trigger] m.contains_key(nm.key_seq()[j])
                    && m[nm.key_seq()[j]] == nm.value_seq()[j] by {
                    old_self.lemma_index_of(j);
                    if j != i {
                        lemma_text_lt_irreflexive(key@);
                        assert(nm.key_seq()[j] != key@) by {
                            if j < i {
                                assert(text_lt(old_self.key_seq()[j], old_self.key_seq()[i as int]));
                            } else {
                                assert(text_lt(old_self.key_seq()[i as int], old_self.key_seq()[j]));
                            }
                            lemma_text_lt_irreflexive(key@);
                        }
                    }
                }
                nm.lemma_map_from_positions(&nm, m);
                old_self.lemma_index_of(i as int);
                assert(nm.value_seq() =~= old_self.value_seq().update(i as int, value));
            }
            self.entries = entries;
        } else {
            entries.insert(i, (key, value));
            let ghost nm = KeyedMap::<V> { entries: entries };
            proof {
                nm.lemma_lengths();
                assert(nm.key_seq() =~= old_self.key_seq().insert(i as int, key@));
                assert forall|a: int, b: int| 0 <= a < b < nm.key_seq().len() implies text_lt(#[trigger] nm.key_seq()[a], #[trigger] nm.key_seq()[b]) by {
                    if a < i && b == i {
                    } else if a < i && b > i {
                    } else if a == i && b > i {
                        if b - 1 > i {
                            lemma_text_lt_transitive(key@, old_self.key_seq()[i as int], old_self.key_seq()[b - 1]);
                        }
                    } else if a > i {
                        assert(text_lt(old_self.key_seq()[a - 1], old_self.key_seq()[b - 1]));
                    } else {
                        assert(text_lt(old_self.key_seq()[a], old_self.key_seq()[b]));
                    }
                }
                assert forall|j: int| 0 <= j < nm.spec_len() implies #[trigger] m.contains_key(nm.key_seq()[j])
                    && m[nm.key_seq()[j]] == nm.value_seq()[j] by {
                    if j < i {
                        old_self.lemma_index_of(j);
                        lemma_text_lt_irreflexive(key@);
                    } else if j > i {
                        old_self.lemma_index_of(j - 1);
                        lemma_text_lt_irreflexive(key@);
                        if j - 1 > i {
                            lemma_text_lt_transitive(key@, old_self.key_seq()[i as int], old_self.key_seq()[j - 1]);
                        }
                    }
                }
                assert forall|k: Seq<char>| #[trigger] m.contains_key(k) implies nm.key_seq().contains(k) by {
                    if k == key@ {
                        assert(nm.key_seq()[i as int] == k);
                    } else {
                        let j = old_self.key_seq().index_of(k);
                        if j < i {
                            assert(nm.key_seq()[j] == k);
                        } else {
                            assert(nm.key_seq()[j + 1] == k);
                        }
                    }
                }
                nm.lemma_map_from_positions(&nm, m);
                nm.lemma_index_of(i as int);
                assert(nm.value_seq() =~= old_self.value_seq().insert(i as int, value));
            }
            self.entries = entries;
        }
    }

    /// Removes `key`, handing back its value if it was present.
    pub fn remove(&mut self, key: &str) -> (r: Option<V>)
        ensures
            r is Some <==> old(self).map().contains_key(key@),
            r matches Some(v) ==> v == old(self).map()[key@],
            final(self).map() == old(self).map().remove(key@),
            final(self).spec_len() == old(self).spec_len() - (if old(self).map().contains_key(key@) { 1int } else { 0int }),
            old(self).map().contains_key(key@) ==> {
                &&& final(self).key_seq() == old(self).key_seq().remove(old(self).key_seq().index_of(key@))
                &&& final(self).value_seq() == old(self).value_seq().remove(old(self).key_seq().index_of(key@))
                &&& old(self).value_seq()[old(self).key_seq().index_of(key@)] == old(self).map()[key@]
                &&& 0 <= old(self).key_seq().index_of(key@) < old(self).spec_len()
            },
            !old(self).map().contains_key(key@) ==> final(self).key_seq() == old(self).key_seq()
                && final(self).value_seq() == old(self).value_seq(),
    {
        proof { use_type_invariant(&*self); }
        let ghost old_self = *self;
        let ghost m = old_self.map().remove(key@);
        let (i, found) = self.locate(key);
        proof { old_self.lemma_lengths(); }
        if found {
            let mut entries: Vec<(String, V)> = Vec::new();
            std::mem::swap(&mut entries, &mut self.entries);
            let (_, v) = entries.remove(i);
            let ghost nm = KeyedMap::<V> { entries: entries };
            proof {
                old_self.lemma_index_of(i as int);
                nm.lemma_lengths();
                assert(nm.key_seq() =~= old_self.key_seq().remove(i as int));
                assert forall|a: int, b: int| 0 <= a < b < nm.key_seq().len() implies text_lt(#[trigger] nm.key_seq()[a], #[trigger] nm.key_seq()[b]) by {
                    if a < i && b < i {
                    } else if a < i {
                        assert(text_lt(old_self.key_seq()[a], old_self.key_seq()[b + 1]));
                    } else {
                        assert(text_lt(old_self.key_seq()[a + 1], old_self.key_seq()[b + 1]));
                    }
                }
                assert forall|j: int| 0 <= j < nm.spec_len() implies #[trigger] m.contains_key(nm.key_seq()[j])
                    && m[nm.key_seq()[j]] == nm.value_seq()[j] by {
                    lemma_text_lt_irreflexive(key@);
                    if j < i {
                        old_self.lemma_index_of(j);
                    } else {
                        old_self.lemma_index_of(j + 1);
                    }
                }
                assert forall|k: Seq<char>| #[trigger] m.contains_key(k) implies nm.key_seq().contains(k) by {
                    let j = old_self.key_seq().index_of(k);
                    if j < i {
                        assert(nm.key_seq()[j] == k);
                    } else {
                        assert(nm.key_seq()[j - 1] == k);
                    }
                }
                nm.lemma_map_from_positions(&nm, m);
                assert(nm.value_seq() =~= old_self.value_seq().remove(i as int));
            }
            self.entries = entries;
            Some(v)
        } else {
            proof {
                assert(old_self.map() =~= m);
            }
            None
        }
    }

    /// The position of `key`, if present.
    pub fn find(&self, key: &str) -> (r: Option<usize>)
        ensures
            r is Some <==> self.map().contains_key(key@),
            r matches Some(i) ==> i < self.spec_len() && self.key_seq()[i as int] == key@
                && self.key_seq().index_of(key@) == i && self.map()[key@] == self.value_seq()[i as int],
    {
        let (i, found) = self.locate(key);
        if found {
            proof {
                use_type_invariant(self);
                self.lemma_lengths();
                self.lemma_index_of(i as int);
            }
            Some(i)
        } else {
            None
        }
    }

    /// Puts `value` at position `i`, keeping the key there, and hands back
    /// the value it replaces.
    pub fn replace_at(&mut self, i: usize, value: V) -> (r: V)
        requires
            i < old(self).spec_len(),
        ensures
            r == old(self).value_seq()[i as int],
            final(self).key_seq() == old(self).key_seq(),
            final(self).value_seq() == old(self).value_seq().update(i as int, value),
            final(self).map() == old(self).map().insert(old(self).key_seq()[i as int], value),
    {
        proof { use_type_invariant(&*self); }
        let ghost old_self = *self;
        proof { old_self.lemma_lengths(); }
        let mut entries: Vec<(String, V)> = Vec::new();
        std::mem::swap(&mut entries, &mut self.entries);
        let (k, old_value) = entries.remove(i);
        entries.insert(i, (k, value));
        let ghost nm = KeyedMap::<V> { entries: entries };
        proof {
            nm.lemma_lengths();
            assert(nm.key_seq() =~= old_self.key_seq());
            assert(nm.value_seq() =~= old_self.value_seq().update(i as int, value));
            let m = old_self.map().insert(old_self.key_seq()[i as int], value);
            old_self.lemma_index_of(i as int);
            assert forall|j: int| 0 <= j < nm.spec_len() implies #[trigger] m.contains_key(nm.key_seq()[j])
                && m[nm.key_seq()[j]] == nm.value_seq()[j] by {
                old_self.lemma_index_of(j);
                if j != i {
                    assert(nm.key_seq()[j] != nm.key_seq()[i as int]) by {
                        if j < i {
                            assert(text_lt(old_self.key_seq()[j], old_self.key_seq()[i as int]));
                        } else {
                            assert(text_lt(old_self.key_seq()[i as int], old_self.key_seq()[j]));
                        }
                        lemma_text_lt_irreflexive(nm.key_seq()[i as int]);
                    }
                }
            }
            nm.lemma_map_from_positions(&nm, m);
        }
        self.entries = entries;
        old_value
    }

    /// The key at position `i`, in key order.
    pub fn key_at(&self, i: usize) -> (k: &String)
        requires
            i < self.spec_len(),
        ensures
            k@ == self.key_seq()[i as int],
    {
        proof { self.lemma_lengths(); }
        &self.entries[i].0
    }

    /// The value at position `i`, in key order.
    pub fn value_at(&self, i: usize) -> (v: &V)
        requires
            i < self.spec_len(),
        ensures
            *v == self.value_seq()[i as int],
    {
        proof { self.lemma_lengths(); }
        &self.entries[i].1
    }

    /// The keys, in order.
    pub fn keys(&self) -> (r: Vec<String>)
        ensures
            r@.len() == self.spec_len(),
            forall|i: int| 0 <= i < r@.len() ==> #[trigger] r@[i]@ == self.key_seq()[i],
    {
        proof { self.lemma_lengths(); }
        let mut r: Vec<String> = Vec::new();
        let n = self.entries.len();
        let mut i: usize = 0;
        while i < n
            invariant
                n == self.entries@.len(),
                i <= n,
                r@.len() == i,
                forall|j: int| 0 <= j < i ==> #[trigger] r@[j]@ == self.key_seq()[j],
            decreases n - i,
        {
            proof { self.lemma_lengths(); }
            r.push(self.entries[i].0.clone());
            i = i + 1;
        }
        r
    }
}

impl<V> KeyedMap<V> {
    /// The keys and values line up, and the map holds exactly the listed keys.
    pub proof fn lemma_wf_facts(&self)
        ensures
            self.value_seq().len() == self.key_seq().len(),
            forall|k: Seq<char>| self.map().contains_key(k) <==> #[trigger] self.key_seq().contains(k),
    {
        self.lemma_lengths();
    }
}

impl<V: View> View for KeyedMap<V> {
    type V = Map<Seq<char>, V::V>;

    open spec fn view(&self) -> Map<Seq<char>, V::V> {
        self.map().map_values(|v: V| v@)
    }
}

/// Two maps with the same keys, in the same order, whose values agree by
/// view, have the same view.
pub proof fn lemma_same_view<V: View>(a: &KeyedMap<V>, b: &KeyedMap<V>)
    requires
        a.key_seq() == b.key_seq(),
        forall|i: int| 0 <= i < a.spec_len() ==> (#[trigger] a.value_seq()[i])@ == b.value_seq()[i]@,
    ensures
        a@ == b@,
{
    a.lemma_wf_facts();
    b.lemma_wf_facts();
    assert forall|k: Seq<char>| #[trigger] a@.contains_key(k) implies a@[k] == b@[k] by {
        let i = a.key_seq().index_of(k);
        assert(a.key_seq()[i] == k);
    }
    assert(a@ =~= b@);
}

impl<V: Clone> Clone for KeyedMap<V> {
    fn clone(&self) -> (r: Self)
        ensures
            r.key_seq() == self.key_seq(),
            forall|i: int| 0 <= i < self.spec_len() ==> cloned::<V>(self.value_seq()[i], #[trigger] r.value_seq()[i]),
    {
        proof {
            use_type_invariant(self);
            self.lemma_lengths();
        }
        let mut entries: Vec<(String, V)> = Vec::new();
        let n = self.entries.len();
        let mut i: usize = 0;
        while i < n
            invariant
                n == self.entries@.len(),
                i <= n,
                entries@.len() == i,
                forall|j: int| 0 <= j < i ==> (#[trigger] entries@[j]).0@ == self.entries@[j].0@,
                forall|j: int| 0 <= j < i ==> cloned::<V>(self.entries@[j].1, (#[trigger] entries@[j]).1),
            decreases n - i,
        {
            let k = self.entries[i].0.clone();
            let v = self.entries[i].1.clone();
            entries.push((k, v));
            i = i + 1;
        }
        let ghost nm = KeyedMap::<V> { entries: entries };
        proof {
            nm.lemma_lengths();
            assert(nm.key_seq() =~= self.key_seq());
        }
        KeyedMap { entries }
    }
}

/// Two strictly sorted sequences holding the same keys are the same sequence.
pub proof fn lemma_sorted_same_keys(a: Seq<Seq<char>>, b: Seq<Seq<char>>)
    requires
        keys_sorted(a),
        keys_sorted(b),
        forall|k: Seq<char>| a.contains(k) <==> b.contains(k),
    ensures
        a == b,
{
    assert forall|i: int| 0 <= i < a.len() && 0 <= i < b.len() implies a[i] == b[i] by {
        lemma_sorted_prefix_agrees(a, b, i);
    }
    if a.len() > b.len() {
        lemma_sorted_longer(a, b);
    } else if b.len() > a.len() {
        assert forall|i: int| 0 <= i < b.len() && 0 <= i < a.len() implies b[i] == a[i] by {
            lemma_sorted_prefix_agrees(a, b, i);
        }
        lemma_sorted_longer(b, a);
    }
    assert(a =~= b);
}

proof fn lemma_sorted_longer(a: Seq<Seq<char>>, b: Seq<Seq<char>>)
    requires
        keys_sorted(a),
        keys_sorted(b),
        forall|k: Seq<char>| a.contains(k) <==> b.contains(k),
        forall|i: int| 0 <= i < a.len() && 0 <= i < b.len() ==> a[i] == b[i],
    ensures
        a.len() <= b.len(),
{
    if a.len() <= b.len() {
        return;
    }
    let x = a[b.len() as int];
    assert(a.contains(x));
    assert(b.contains(x));
    let p = b.index_of(x);
    assert(a[p] == b[p]);
    assert(text_lt(a[p], a[b.len() as int]));
    lemma_text_lt_irreflexive(x);
}

proof fn lemma_sorted_prefix_agrees(a: Seq<Seq<char>>, b: Seq<Seq<char>>, i: int)
    requires
        keys_sorted(a),
        keys_sorted(b),
        forall|k: Seq<char>| a.contains(k) <==> b.contains(k),
        0 <= i < a.len(),
        0 <= i < b.len(),
    ensures
        a[i] == b[i],
    decreases i,
{
    if i > 0 {
        lemma_sorted_prefix_agrees(a, b, i - 1);
    }
    assert forall|j: int| 0 <= j < i implies a[j] == b[j] by {
        lemma_sorted_prefix_agrees(a, b, j);
    }
    if a[i] != b[i] {
        lemma_text_lt_trichotomy(a[i], b[i]);
        if text_lt(a[i], b[i]) {
            assert(a.contains(a[i]));
            let p = b.index_of(a[i]);
            if p < i {
                assert(a[p] == b[p]);
                assert(text_lt(a[p], a[i]));
                lemma_text_lt_irreflexive(a[i]);
            } else if p > i {
                assert(text_lt(b[i], b[p]));
                lemma_text_lt_transitive(a[i], b[i], b[p]);
                lemma_text_lt_irreflexive(a[i]);
            }
        } else {
            assert(b.contains(b[i]));
            let p = a.index_of(b[i]);
            if p < i {
                assert(a[p] == b[p]);
                assert(text_lt(b[p], b[i]));
                lemma_text_lt_irreflexive(b[i]);
            } else if p > i {
                assert(text_lt(a[i], a[p]));
                lemma_text_lt_transitive(b[i], a[i], a[p]);
                lemma_text_lt_irreflexive(b[i]);
            }
        }
    }
}

impl<V> KeyedMap<V> {
    /// The keys are strictly sorted.
    pub proof fn lemma_sorted(&self)
        requires
            self.sorted_keys(),
        ensures
            keys_sorted(self.key_seq()),
    {
    }

    /// A map holds as many keys as it has entries.
    pub proof fn lemma_dom_len(&self)
        requires
            self.sorted_keys(),
        ensures
            self.map().dom().len() == self.spec_len(),
            self.map().dom().finite(),
    {
        let ks = self.key_seq();
        assert forall|i: int, j: int| 0 <= i < ks.len() && 0 <= j < ks.len() && i != j implies ks[i] != ks[j] by {
            if i < j {
                assert(text_lt(ks[i], ks[j]));
            } else {
                assert(text_lt(ks[j], ks[i]));
            }
            lemma_text_lt_irreflexive(ks[i]);
        }
        assert(ks.no_duplicates());
        ks.unique_seq_to_set();
        assert(self.map().dom() =~= ks.to_set());
        vstd::seq_lib::seq_to_set_is_finite(ks);
    }

    /// Maps holding the same keys list them in the same order.
    pub proof fn lemma_same_domain_same_keys(&self, other: &Self)
        requires
            self.sorted_keys(),
            other.sorted_keys(),
            self.map().dom() == other.map().dom(),
        ensures
            self.key_seq() == other.key_seq(),
    {
        assert forall|k: Seq<char>| self.key_seq().contains(k) <==> other.key_seq().contains(k) by {
            assert(self.map().dom().contains(k) == other.map().dom().contains(k));
            assert(self.map().contains_key(k) == self.has(k));
            assert(other.map().contains_key(k) == other.has(k));
        }
        lemma_sorted_same_keys(self.key_seq(), other.key_seq());
    }
}

} // verus!
