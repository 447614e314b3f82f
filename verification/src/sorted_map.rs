//! A map from string keys to values that keeps its entries in the
//! lexicographic order of the keys, so that walking it is deterministic.

use crate::text::{
    clone_texts, compare_text, lemma_text_lt_asymmetric, lemma_text_lt_transitive, strictly_increasing,
    text_lt, texts, TextOrder,
};
use vstd::prelude::*;

verus! {

/// Entries are held as two lists of equal length: the keys, strictly
/// increasing, and the value of each key at the same position.
#[derive(Debug, PartialEq)]
pub struct SortedMap<V> {
    keys: Vec<String>,
    vals: Vec<V>,
}

impl<V> View for SortedMap<V> {
    type V = Map<Seq<char>, V>;

    closed spec fn view(&self) -> Map<Seq<char>, V> {
        Map::new(
            |k: Seq<char>| self.keys().contains(k),
            |k: Seq<char>| self.vals@[self.keys().index_of(k)],
        )
    }
}

impl<V> SortedMap<V> {
    /// The keys in the order in which the map is walked.
    pub closed spec fn keys(&self) -> Seq<Seq<char>> {
        texts(self.keys@)
    }

    /// The keys are strictly increasing and every key has its value.
    pub closed spec fn wf(&self) -> bool {
        &&& self.keys@.len() == self.vals@.len()
        &&& strictly_increasing(self.keys())
    }

    /// What well-formedness means for the keys and the view.
    pub proof fn lemma_keys(&self)
        requires
            self.wf(),
        ensures
            strictly_increasing(self.keys()),
            self.keys().no_duplicates(),
            forall|k: Seq<char>| self@.dom().contains(k) <==> self.keys().contains(k),
            forall|i: int| 0 <= i < self.keys().len() ==> self@.dom().contains(#[trigger] self.keys()[i]),
            self@.dom().finite(),
            self@.dom().len() == self.keys().len(),
    {
        let keys = self.keys();
        assert forall|i: int, j: int| 0 <= i < keys.len() && 0 <= j < keys.len() && i != j implies keys[i]
            != keys[j] by {
            if i < j {
                lemma_text_lt_asymmetric(keys[i], keys[j]);
            } else {
                lemma_text_lt_asymmetric(keys[j], keys[i]);
            }
        }
        assert(self@.dom() =~= keys.to_set());
        keys.unique_seq_to_set();
    }

    /// The value of the key at position `i` is the value kept at position `i`.
    proof fn lemma_slot(&self, i: int)
        requires
            self.wf(),
            0 <= i < self.keys().len(),
        ensures
            self@.dom().contains(self.keys()[i]),
            self@[self.keys()[i]] == self.vals@[i],
    {
        self.lemma_keys();
        let k = self.keys()[i];
        assert(self.keys().contains(k));
        let j = self.keys().index_of(k);
        assert(self.keys()[j] == k);
    }

    /// Putting another value at position `i` rebinds the key at that position
    /// and leaves the rest as it was.
    proof fn lemma_replaced(&self, after: Self, i: int, x: V)
        requires
            self.wf(),
            0 <= i < self.keys().len(),
            after.keys == self.keys,
            after.vals@ == self.vals@.update(i, x),
        ensures
            after.wf(),
            after.keys() == self.keys(),
            after@ == self@.insert(self.keys()[i], x),
    {
        self.lemma_keys();
        after.lemma_keys();
        assert forall|k: Seq<char>| after@.dom().contains(k) implies #[trigger] after@[k] == self@.insert(
            self.keys()[i],
            x,
        )[k] by {
            let j = after.keys().index_of(k);
            after.lemma_slot(j);
            self.lemma_slot(j);
        }
        assert(after@ =~= self@.insert(self.keys()[i], x));
    }

    /// A key that sorts between two neighbours, or outside both ends, is not
    /// in the map.
    proof fn lemma_absent(&self, key: Seq<char>, at: int)
        requires
            self.wf(),
            0 <= at <= self.keys().len(),
            forall|j: int| 0 <= j < at ==> text_lt(self.keys()[j], key),
            at == self.keys().len() || text_lt(key, self.keys()[at]),
        ensures
            !self.keys().contains(key),
            !self@.dom().contains(key),
    {
        let keys = self.keys();
        assert forall|j: int| 0 <= j < keys.len() implies keys[j] != key by {
            if j < at {
                lemma_text_lt_asymmetric(keys[j], key);
            } else {
                if at < j {
                    lemma_text_lt_transitive(key, keys[at], keys[j]);
                }
                lemma_text_lt_asymmetric(key, keys[j]);
            }
        }
    }

    /// An empty map.
    pub fn new() -> (r: Self)
        ensures
            r.wf(),
            r@ == Map::<Seq<char>, V>::empty(),
            r.keys() == Seq::<Seq<char>>::empty(),
    {
        let r = SortedMap { keys: Vec::new(), vals: Vec::new() };
        assert(r.keys() =~= Seq::<Seq<char>>::empty());
        assert(r@ =~= Map::<Seq<char>, V>::empty());
        r
    }

    /// The number of entries.
    pub fn len(&self) -> (n: usize)
        requires
            self.wf(),
        ensures
            n == self.keys().len(),
            n == self@.dom().len(),
    {
        proof {
            self.lemma_keys();
        }
        self.keys.len()
    }

    /// Whether the map has no entry.
    pub fn is_empty(&self) -> (b: bool)
        requires
            self.wf(),
        ensures
            b == (self.keys().len() == 0),
            b == (self@ == Map::<Seq<char>, V>::empty()),
    {
        proof {
            self.lemma_keys();
            if self.keys().len() == 0 {
                assert(self@ =~= Map::<Seq<char>, V>::empty());
            } else {
                assert(self@.dom().contains(self.keys()[0]));
            }
        }
        self.keys.len() == 0
    }

    /// The position at which `key` stands or would have to stand, and whether
    /// it stands there.
    fn locate(&self, key: &str) -> (r: (usize, bool))
        requires
            self.wf(),
        ensures
            r.0 <= self.keys().len(),
            forall|j: int| 0 <= j < r.0 ==> text_lt(self.keys()[j], key@),
            r.1 ==> r.0 < self.keys().len() && self.keys()[r.0 as int] == key@,
            !r.1 ==> r.0 == self.keys().len() || text_lt(key@, self.keys()[r.0 as int]),
            r.1 == self@.dom().contains(key@),
    {
        let mut i: usize = 0;
        while i < self.keys.len()
            invariant
                self.wf(),
                i <= self.keys.len(),
                forall|j: int| 0 <= j < i ==> text_lt(self.keys()[j], key@),
            decreases self.keys.len() - i,
        {
            match compare_text(self.keys[i].as_str(), key) {
                TextOrder::Before => {},
                TextOrder::Same => {
                    proof {
                        self.lemma_slot(i as int);
                    }
                    return (i, true);
                },
                TextOrder::After => {
                    proof {
                        self.lemma_absent(key@, i as int);
                    }
                    return (i, false);
                },
            }
            i += 1;
        }
        proof {
            self.lemma_absent(key@, i as int);
        }
        (i, false)
    }

    /// Whether `key` has an entry.
    pub fn contains_key(&self, key: &str) -> (b: bool)
        requires
            self.wf(),
        ensures
            b == self@.dom().contains(key@),
    {
        self.locate(key).1
    }

    /// The position of `key` in the order of the keys, if it has an entry.
    pub fn position(&self, key: &str) -> (r: Option<usize>)
        requires
            self.wf(),
        ensures
            match r {
                Some(i) => i < self.keys().len() && self.keys()[i as int] == key@,
                None => !self@.dom().contains(key@),
            },
    {
        let (i, found) = self.locate(key);
        if found {
            Some(i)
        } else {
            None
        }
    }

    /// The value of `key`, if it has an entry.
    pub fn get(&self, key: &str) -> (r: Option<&V>)
        requires
            self.wf(),
        ensures
            match r {
                Some(v) => self@.dom().contains(key@) && *v == self@[key@],
                None => !self@.dom().contains(key@),
            },
    {
        let (i, found) = self.locate(key);
        if found {
            proof {
                self.lemma_slot(i as int);
            }
            Some(&self.vals[i])
        } else {
            None
        }
    }

    /// The key at position `i`.
    pub fn key_at(&self, i: usize) -> (k: &String)
        requires
            self.wf(),
            i < self.keys().len(),
        ensures
            k@ == self.keys()[i as int],
    {
        &self.keys[i]
    }

    /// The value of the key at position `i`.
    pub fn value_at(&self, i: usize) -> (v: &V)
        requires
            self.wf(),
            i < self.keys().len(),
        ensures
            *v == self@[self.keys()[i as int]],
    {
        proof {
            self.lemma_slot(i as int);
        }
        &self.vals[i]
    }

    /// The value of the key at position `i`, to be changed in place.
    pub fn value_at_mut(&mut self, i: usize) -> (v: &mut V)
        requires
            old(self).wf(),
            i < old(self).keys().len(),
        ensures
            *v == old(self)@[old(self).keys()[i as int]],
            final(self).wf(),
            final(self).keys() == old(self).keys(),
            final(self)@ == old(self)@.insert(old(self).keys()[i as int], *final(v)),
    {
        proof {
            self.lemma_slot(i as int);
        }
        proof {
            let before = *self;
            assert forall|after: Self|
                after.keys == before.keys && after.vals@ == before.vals@.update(
                    i as int,
                    after.vals@[i as int],
                ) implies #[trigger] after.wf() && after.keys() == before.keys() && after@
                == before@.insert(before.keys()[i as int], after.vals@[i as int]) by {
                before.lemma_replaced(after, i as int, after.vals@[i as int]);
            }
        }
        &mut self.vals[i]
    }

    /// Binds `key` to `value`, in place of what it was bound to.
    pub fn insert(&mut self, key: String, value: V)
        requires
            old(self).wf(),
        ensures
            final(self).wf(),
            final(self)@ == old(self)@.insert(key@, value),
    {
        let (i, found) = self.locate(key.as_str());
        let ghost before = *self;
        if found {
            self.vals.set(i, value);
            proof {
                assert(self.keys() == before.keys());
                before.lemma_keys();
                self.lemma_keys();
                assert forall|k: Seq<char>| self@.dom().contains(k) implies #[trigger] self@[k]
                    == before@.insert(key@, value)[k] by {
                    let j = self.keys().index_of(k);
                    self.lemma_slot(j);
                    before.lemma_slot(j);
                }
                assert(self@ =~= before@.insert(key@, value));
            }
        } else {
            self.keys.insert(i, key);
            self.vals.insert(i, value);
            proof {
                let old_keys = before.keys();
                let new_keys = self.keys();
                assert(new_keys =~= old_keys.insert(i as int, key@));
                assert forall|a: int, b: int| 0 <= a < b < new_keys.len() implies text_lt(
                    #[trigger] new_keys[a],
                    #[trigger] new_keys[b],
                ) by {
                    if b < i {
                        assert(new_keys[a] == old_keys[a] && new_keys[b] == old_keys[b]);
                    } else if b == i {
                        assert(new_keys[a] == old_keys[a]);
                    } else if a < i {
                        assert(new_keys[a] == old_keys[a] && new_keys[b] == old_keys[b - 1]);
                    } else if a == i {
                        assert(new_keys[b] == old_keys[b - 1]);
                        if i < b - 1 {
                            lemma_text_lt_transitive(key@, old_keys[i as int], old_keys[b - 1]);
                        }
                    } else {
                        assert(new_keys[a] == old_keys[a - 1] && new_keys[b] == old_keys[b - 1]);
                    }
                }
                before.lemma_keys();
                self.lemma_keys();
                assert forall|k: Seq<char>| self@.dom().contains(k) <==> before@.insert(
                    key@,
                    value,
                ).dom().contains(k) by {
                    if self.keys().contains(k) {
                        let j = self.keys().index_of(k);
                        if j < i {
                            assert(old_keys[j] == k);
                        } else if j > i {
                            assert(old_keys[j - 1] == k);
                        }
                    }
                    if before.keys().contains(k) {
                        let j = before.keys().index_of(k);
                        if j < i {
                            assert(new_keys[j] == k);
                        } else {
                            assert(new_keys[j + 1] == k);
                        }
                    }
                    if k == key@ {
                        assert(new_keys[i as int] == k);
                    }
                }
                assert forall|k: Seq<char>| self@.dom().contains(k) implies #[trigger] self@[k]
                    == before@.insert(key@, value)[k] by {
                    let j = self.keys().index_of(k);
                    self.lemma_slot(j);
                    if j < i {
                        before.lemma_slot(j);
                    } else if j > i {
                        before.lemma_slot(j - 1);
                    }
                }
                assert(self@ =~= before@.insert(key@, value));
            }
        }
    }

    /// Takes the entry of `key` out of the map and hands back its value.
    pub fn remove(&mut self, key: &str) -> (r: Option<V>)
        requires
            old(self).wf(),
        ensures
            final(self).wf(),
            final(self)@ == old(self)@.remove(key@),
            r == (if old(self)@.dom().contains(key@) {
                Some(old(self)@[key@])
            } else {
                None
            }),
    {
        let (i, found) = self.locate(key);
        let ghost before = *self;
        if !found {
            assert(self@ =~= before@.remove(key@));
            return None;
        }
        proof {
            before.lemma_slot(i as int);
        }
        self.keys.remove(i);
        let value = self.vals.remove(i);
        proof {
            let old_keys = before.keys();
            let new_keys = self.keys();
            assert(new_keys =~= old_keys.remove(i as int));
            assert forall|a: int, b: int| 0 <= a < b < new_keys.len() implies text_lt(
                #[trigger] new_keys[a],
                #[trigger] new_keys[b],
            ) by {
                let a0 = if a < i { a } else { a + 1 };
                let b0 = if b < i { b } else { b + 1 };
                assert(new_keys[a] == old_keys[a0] && new_keys[b] == old_keys[b0]);
            }
            before.lemma_keys();
            self.lemma_keys();
            assert forall|k: Seq<char>| self@.dom().contains(k) <==> before@.remove(key@).dom().contains(
                k,
            ) by {
                if self.keys().contains(k) {
                    let j = self.keys().index_of(k);
                    let j0 = if j < i { j } else { j + 1 };
                    assert(old_keys[j0] == k);
                }
                if before.keys().contains(k) && k != key@ {
                    let j = before.keys().index_of(k);
                    if j < i {
                        assert(new_keys[j] == k);
                    } else {
                        assert(new_keys[j - 1] == k);
                    }
                }
            }
            assert forall|k: Seq<char>| self@.dom().contains(k) implies #[trigger] self@[k]
                == before@.remove(key@)[k] by {
                let j = self.keys().index_of(k);
                self.lemma_slot(j);
                if j < i {
                    before.lemma_slot(j);
                } else {
                    before.lemma_slot(j + 1);
                }
            }
            assert(self@ =~= before@.remove(key@));
        }
        Some(value)
    }
}

impl<V: Clone> Clone for SortedMap<V> {
    /// A copy with the same keys, each bound to a clone of its value.
    fn clone(&self) -> (r: Self)
        ensures
            self.wf() ==> r.wf(),
            r.keys() == self.keys(),
            self.wf() ==> r@.dom() == self@.dom(),
            self.wf() ==> forall|k: Seq<char>| #[trigger]
                r@.dom().contains(k) ==> cloned::<V>(self@[k], r@[k]),
    {
        let r = SortedMap { keys: clone_texts(&self.keys), vals: self.vals.clone() };
        proof {
            if self.wf() {
                self.lemma_keys();
                r.lemma_keys();
                assert(r@.dom() =~= self@.dom());
                assert forall|k: Seq<char>| #[trigger] r@.dom().contains(k) implies cloned::<V>(
                    self@[k],
                    r@[k],
                ) by {
                    let j = r.keys().index_of(k);
                    r.lemma_slot(j);
                    self.lemma_slot(j);
                }
            }
        }
        r
    }
}

/// `key` holds a value that meets `pred`, and every other such key comes
/// after it in the order of the keys.
pub open spec fn is_first_key<T>(m: Map<Seq<char>, T>, pred: spec_fn(T) -> bool, key: Seq<char>) -> bool {
    &&& m.dom().contains(key)
    &&& pred(m[key])
    &&& forall|k: Seq<char>| #[trigger] m.dom().contains(k) && pred(m[k]) && k != key ==> text_lt(key, k)
}

/// The first key, in the order of the keys, whose value meets `pred`.
pub open spec fn first_key<T>(m: Map<Seq<char>, T>, pred: spec_fn(T) -> bool) -> Option<Seq<char>> {
    if exists|k: Seq<char>| is_first_key(m, pred, k) {
        Some(choose|k: Seq<char>| is_first_key(m, pred, k))
    } else {
        None
    }
}

/// There is one first key at most.
pub proof fn lemma_first_key_is<T>(m: Map<Seq<char>, T>, pred: spec_fn(T) -> bool, key: Seq<char>)
    requires
        is_first_key(m, pred, key),
    ensures
        first_key(m, pred) == Some(key),
{
    let other = choose|k: Seq<char>| is_first_key(m, pred, k);
    if other != key {
        assert(m.dom().contains(other) && pred(m[other]));
        assert(m.dom().contains(key) && pred(m[key]));
        lemma_text_lt_asymmetric(key, other);
    }
}

/// Walking increasing keys, the first one found to meet `pred` is the first
/// key.
pub proof fn lemma_first_key_at<T>(keys: Seq<Seq<char>>, m: Map<Seq<char>, T>, pred: spec_fn(T) -> bool, at: int)
    requires
        strictly_increasing(keys),
        forall|k: Seq<char>| m.dom().contains(k) <==> keys.contains(k),
        0 <= at < keys.len(),
        pred(m[keys[at]]),
        forall|j: int| 0 <= j < at ==> !pred(m[#[trigger] keys[j]]),
    ensures
        first_key(m, pred) == Some(keys[at]),
{
    let key = keys[at];
    assert(keys.contains(key));
    assert forall|k: Seq<char>| #[trigger] m.dom().contains(k) && pred(m[k]) && k != key implies text_lt(
        key,
        k,
    ) by {
        assert(keys.contains(k));
        let j = keys.index_of(k);
        assert(keys[j] == k);
    }
    lemma_first_key_is(m, pred, key);
}

/// Where no key meets `pred`, there is no first key.
pub proof fn lemma_first_key_none<T>(keys: Seq<Seq<char>>, m: Map<Seq<char>, T>, pred: spec_fn(T) -> bool)
    requires
        forall|k: Seq<char>| m.dom().contains(k) <==> keys.contains(k),
        forall|j: int| 0 <= j < keys.len() ==> !pred(m[#[trigger] keys[j]]),
    ensures
        first_key(m, pred) is None,
        forall|k: Seq<char>| m.dom().contains(k) ==> !pred(#[trigger] m[k]),
{
    assert forall|k: Seq<char>| m.dom().contains(k) implies !pred(#[trigger] m[k]) by {
        assert(keys.contains(k));
        let j = keys.index_of(k);
        assert(keys[j] == k);
    }
}

} // verus!
