//! A small map that keeps its entries in insertion order.

use vstd::prelude::*;
use crate::key::Key;

verus! {

/// A map from keys to values, held as a list of entries with distinct keys.
///
/// Lookups walk the list, so the cost of one is linear in the number of
/// entries. The order of the entries is the order in which their keys were
/// first inserted.
#[derive(Debug)]
pub struct VecMap<K: Key, V> {
    keys: Vec<K>,
    values: Vec<V>,
}

impl<K: Key, V> View for VecMap<K, V> {
    type V = Map<K::V, V>;

    /// The mapping from each key's view to its value.
    open spec fn view(&self) -> Map<K::V, V> {
        Map::new(
            |k: K::V| self.spec_keys().contains(k),
            |k: K::V| self.spec_values()[self.spec_keys().index_of(k)],
        )
    }
}

impl<K: Key, V> VecMap<K, V> {
    #[verifier::type_invariant]
    spec fn well_formed(self) -> bool {
        &&& self.keys@.len() == self.values@.len()
        &&& forall|i: int, j: int|
            0 <= i < j < self.keys@.len() ==> self.keys@[i]@ != self.keys@[j]@
    }

    /// The views of the keys, in insertion order.
    pub closed spec fn spec_keys(&self) -> Seq<K::V> {
        self.keys@.map_values(|k: K| k@)
    }

    /// The values, each at the position of its key in [`Self::spec_keys`].
    pub closed spec fn spec_values(&self) -> Seq<V> {
        self.values@
    }

    /// The position of `k` among the keys, if it is one of them.
    pub open spec fn spec_position(&self, k: K::V) -> Option<int> {
        if self.spec_keys().contains(k) {
            Some(self.spec_keys().index_of(k))
        } else {
            None
        }
    }

    /// An empty map.
    pub fn new() -> (m: Self)
        ensures
            m@ == Map::<K::V, V>::empty(),
            m.spec_keys() == Seq::<K::V>::empty(),
            m.spec_values() == Seq::<V>::empty(),
    {
        let m = VecMap { keys: Vec::new(), values: Vec::new() };
        assert(m.spec_keys() =~= Seq::<K::V>::empty());
        assert(m.spec_values() =~= Seq::<V>::empty());
        assert(m@ =~= Map::<K::V, V>::empty());
        m
    }

    /// The number of entries.
    pub fn len(&self) -> (n: usize)
        ensures
            n == self.spec_keys().len(),
            n == self.spec_values().len(),
            n == self@.dom().len(),
            self.spec_keys().no_duplicates(),
            self@.dom().finite(),
    {
        proof {
            use_type_invariant(self);
            self.lemma_dom();
        }
        self.keys.len()
    }

    /// The position of `key` among the entries, if it has one.
    pub fn position(&self, key: &K) -> (at: Option<usize>)
        ensures
            match at {
                Some(i) => self.spec_position(key@) == Some(i as int),
                None => self.spec_position(key@) is None,
            },
            at matches Some(i) ==> i < self.spec_keys().len() && self.spec_keys()[i as int]
                == key@,
            at is Some <==> self@.dom().contains(key@),
            self.spec_keys().no_duplicates(),
    {
        proof {
            use_type_invariant(self);
            self.lemma_dom();
        }
        let n = self.keys.len();
        let mut i: usize = 0;
        while i < n
            invariant
                i <= n,
                n == self.keys@.len(),
                self.well_formed(),
                forall|j: int| 0 <= j < i ==> self.keys@[j]@ != key@,
            decreases n - i,
        {
            if self.keys[i].same_key(key) {
                proof {
                    let keys = self.spec_keys();
                    assert(keys[i as int] == key@);
                    assert(keys.contains(key@));
                    let j = keys.index_of(key@);
                    assert(0 <= j < keys.len() && keys[j] == key@);
                    assert(keys[j] == self.keys@[j]@);
                    assert(j == i as int);
                }
                return Some(i);
            }
            i = i + 1;
        }
        proof {
            let keys = self.spec_keys();
            assert forall|j: int| 0 <= j < keys.len() implies keys[j] != key@ by {
                assert(keys[j] == self.keys@[j]@);
            }
            assert(!keys.contains(key@));
        }
        None
    }

    /// The key and the value at position `i`.
    pub fn entry_at(&self, i: usize) -> (kv: (&K, &V))
        requires
            i < self.spec_keys().len(),
        ensures
            kv.0@ == self.spec_keys()[i as int],
            *kv.1 == self.spec_values()[i as int],
            self@.dom().contains(kv.0@),
            self@[kv.0@] == *kv.1,
    {
        proof {
            use_type_invariant(self);
            self.lemma_entry(i as int);
        }
        (&self.keys[i], &self.values[i])
    }

    /// The value at position `i`, to be changed in place.
    pub fn value_at_mut(&mut self, i: usize) -> (value: &mut V)
        requires
            i < old(self).spec_keys().len(),
        ensures
            *value == old(self).spec_values()[i as int],
            final(self).spec_keys() == old(self).spec_keys(),
            final(self).spec_values() == old(self).spec_values().update(i as int, *final(value)),
            final(self)@ == old(self)@.insert(old(self).spec_keys()[i as int], *final(value)),
    {
        proof {
            use_type_invariant(&*self);
            self.lemma_update(i as int);
        }
        &mut self.values[i]
    }

    /// Whether `key` has a value.
    pub fn contains_key(&self, key: &K) -> (found: bool)
        ensures
            found == self@.dom().contains(key@),
    {
        self.position(key).is_some()
    }

    /// The value of `key`, if it has one.
    pub fn get(&self, key: &K) -> (value: Option<&V>)
        ensures
            value == (if self@.dom().contains(key@) {
                Some(&self@[key@])
            } else {
                None
            }),
    {
        match self.position(key) {
            Some(i) => {
                let kv = self.entry_at(i);
                Some(kv.1)
            },
            None => None,
        }
    }

    /// Gives `key` the value `value`, in place of the one it had, if any.
    ///
    /// A key that is already present keeps its position; a new key goes last.
    pub fn insert(&mut self, key: K, value: V)
        ensures
            final(self)@ == old(self)@.insert(key@, value),
            old(self)@.dom().contains(key@) ==> {
                &&& final(self).spec_keys() == old(self).spec_keys()
                &&& final(self).spec_values() == old(self).spec_values().update(
                    old(self).spec_keys().index_of(key@),
                    value,
                )
            },
            !old(self)@.dom().contains(key@) ==> {
                &&& final(self).spec_keys() == old(self).spec_keys().push(key@)
                &&& final(self).spec_values() == old(self).spec_values().push(value)
            },
    {
        proof {
            use_type_invariant(&*self);
        }
        let ghost before = *self;
        match self.position(&key) {
            Some(i) => {
                proof {
                    self.lemma_update(i as int);
                }
                self.values[i] = value;
            },
            None => {
                let mut taken = VecMap { keys: Vec::new(), values: Vec::new() };
                std::mem::swap(self, &mut taken);
                let VecMap { mut keys, mut values } = taken;
                proof {
                    assert forall|j: int| 0 <= j < keys@.len() implies keys@[j]@ != key@ by {
                        if keys@[j]@ == key@ {
                            assert(before.spec_keys()[j] == key@);
                            assert(before.spec_keys().contains(key@));
                        }
                    }
                }
                keys.push(key);
                values.push(value);
                *self = VecMap { keys, values };
                proof {
                    before.lemma_push(*self, key@, value);
                }
            },
        }
    }

    /// The value at a position is the value of the key at that position.
    pub proof fn lemma_value_at(&self, i: int)
        requires
            0 <= i < self.spec_keys().len(),
            self.spec_keys().no_duplicates(),
        ensures
            self@.dom().contains(self.spec_keys()[i]),
            self@[self.spec_keys()[i]] == self.spec_values()[i],
    {
        let keys = self.spec_keys();
        assert(keys.contains(keys[i]));
        let j = keys.index_of(keys[i]);
        assert(j == i);
    }

    /// The keys are distinct, and the domain of the view is what they hold.
    proof fn lemma_dom(&self)
        requires
            self.well_formed(),
        ensures
            self.spec_keys().no_duplicates(),
            self.spec_keys().len() == self.spec_values().len(),
            self@.dom().finite(),
            self@.dom().len() == self.spec_keys().len(),
    {
        let keys = self.spec_keys();
        assert(keys.no_duplicates()) by {
            assert forall|i: int, j: int|
                0 <= i < keys.len() && 0 <= j < keys.len() && i != j implies keys[i]
                != keys[j] by {
                if i < j {
                    assert(self.keys@[i]@ != self.keys@[j]@);
                } else {
                    assert(self.keys@[j]@ != self.keys@[i]@);
                }
            }
        }
        keys.unique_seq_to_set();
        assert(self@.dom() =~= keys.to_set());
    }

    /// The entry at position `i` is part of the view.
    proof fn lemma_entry(&self, i: int)
        requires
            self.well_formed(),
            0 <= i < self.spec_keys().len(),
        ensures
            self@.dom().contains(self.spec_keys()[i]),
            self@[self.spec_keys()[i]] == self.spec_values()[i],
    {
        self.lemma_dom();
        let keys = self.spec_keys();
        assert(keys.contains(keys[i]));
        let j = keys.index_of(keys[i]);
        assert(j == i);
    }

    /// A new value at position `i` is an insertion under the key at `i`.
    proof fn lemma_update(&self, i: int)
        requires
            self.well_formed(),
            0 <= i < self.spec_keys().len(),
        ensures
            forall|after: Self|
                after.keys == self.keys && after.values@.len() == self.values@.len() && (forall|
                    j: int,
                |
                    0 <= j < self.values@.len() && j != i ==> after.values@[j] == self.values@[j])
                    ==> {
                    &&& #[trigger] after.spec_keys() == self.spec_keys()
                    &&& after.spec_values() == self.spec_values().update(i, after.values@[i])
                    &&& after@ == self@.insert(self.spec_keys()[i], after.values@[i])
                    &&& self.spec_keys().index_of(self.spec_keys()[i]) == i
                },
    {
        self.lemma_dom();
        let keys = self.spec_keys();
        assert(keys.contains(keys[i]));
        assert(keys.index_of(keys[i]) == i);
        assert forall|after: Self|
            after.keys == self.keys && after.values@.len() == self.values@.len() && (forall|
                j: int,
            |
                0 <= j < self.values@.len() && j != i ==> after.values@[j] == self.values@[j])
            implies {
            &&& #[trigger] after.spec_keys() == self.spec_keys()
            &&& after.spec_values() == self.spec_values().update(i, after.values@[i])
            &&& after@ == self@.insert(self.spec_keys()[i], after.values@[i])
        } by {
            assert(after.spec_values() =~= self.spec_values().update(i, after.values@[i]));
            assert(after@ =~= self@.insert(keys[i], after.values@[i])) by {
                assert forall|k: K::V| after@.dom().contains(k) implies #[trigger] after@[k]
                    == self@.insert(keys[i], after.values@[i])[k] by {
                    let j = keys.index_of(k);
                    if k == keys[i] {
                        assert(j == i);
                    } else {
                        assert(j != i);
                    }
                }
            }
        }
    }

    /// One more entry under a new key is an insertion.
    proof fn lemma_push(&self, after: Self, key: K::V, value: V)
        requires
            self.well_formed(),
            !self.spec_keys().contains(key),
            after.spec_keys() =~= self.spec_keys().push(key),
            after.spec_values() =~= self.spec_values().push(value),
        ensures
            after@ == self@.insert(key, value),
            after.spec_keys() == self.spec_keys().push(key),
            after.spec_values() == self.spec_values().push(value),
    {
        self.lemma_dom();
        let n = self.spec_keys().len() as int;
        let old_keys = self.spec_keys();
        let new_keys = after.spec_keys();
        assert forall|k: K::V| after@.dom().contains(k) <==> self@.insert(
            key,
            value,
        ).dom().contains(k) by {
            if new_keys.contains(k) {
                let j = new_keys.index_of(k);
                if j < n {
                    assert(old_keys[j] == k);
                }
            }
            if old_keys.contains(k) {
                let j = old_keys.index_of(k);
                assert(new_keys[j] == k);
            }
            if k == key {
                assert(new_keys[n] == k);
            }
        }
        assert forall|k: K::V| after@.dom().contains(k) implies #[trigger] after@[k]
            == self@.insert(key, value)[k] by {
            let j = new_keys.index_of(k);
            if k == key {
                assert(new_keys[n] == k);
                if j < n {
                    assert(old_keys[j] == k);
                }
                assert(j == n);
            } else {
                assert(j < n);
                assert(old_keys[j] == k);
                let j2 = old_keys.index_of(k);
                assert(j2 == j);
            }
        }
        assert(after@ =~= self@.insert(key, value));
    }
}

} // verus!
