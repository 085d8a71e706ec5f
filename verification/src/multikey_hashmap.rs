//! A map whose keys are pairs, looked up by the two parts.

use vstd::prelude::*;
use crate::key::Key;
use crate::vec_map::VecMap;

verus! {

/// A map from pairs of keys to values.
///
/// A lookup takes the two parts of the key by reference, so that no pair has
/// to be built for it.
#[derive(Debug)]
pub struct MultiKeyHashMap<A: Key, B: Key, C> {
    map: VecMap<A, VecMap<B, C>>,
}

impl<A: Key, B: Key, C> View for MultiKeyHashMap<A, B, C> {
    type V = Map<(A::V, B::V), C>;

    /// The mapping from each pair of key views to its value.
    closed spec fn view(&self) -> Map<(A::V, B::V), C> {
        Map::new(
            |k: (A::V, B::V)| self.map@.dom().contains(k.0) && self.map@[k.0]@.dom().contains(k.1),
            |k: (A::V, B::V)| self.map@[k.0]@[k.1],
        )
    }
}

impl<A: Key, B: Key, C> Default for MultiKeyHashMap<A, B, C> {
    /// An empty map.
    fn default() -> (m: Self)
        ensures
            m@ == Map::<(A::V, B::V), C>::empty(),
    {
        MultiKeyHashMap::new()
    }
}

impl<A: Key, B: Key, C> MultiKeyHashMap<A, B, C> {
    /// An empty map.
    pub fn new() -> (m: Self)
        ensures
            m@ == Map::<(A::V, B::V), C>::empty(),
    {
        let m = MultiKeyHashMap { map: VecMap::new() };
        assert(m@ =~= Map::<(A::V, B::V), C>::empty());
        m
    }

    /// The value under the pair `(a, b)`, if there is one.
    pub fn get(&self, a: &A, b: &B) -> (value: Option<&C>)
        ensures
            value == (if self@.dom().contains((a@, b@)) {
                Some(&self@[(a@, b@)])
            } else {
                None
            }),
    {
        match self.map.get(a) {
            Some(inner) => inner.get(b),
            None => None,
        }
    }

    /// Puts `v` under the pair `(a, b)`, in place of what was there, if anything.
    pub fn insert(&mut self, a: A, b: B, v: C)
        ensures
            final(self)@ == old(self)@.insert((a@, b@), v),
    {
        let ghost before = *self;
        match self.map.position(&a) {
            Some(i) => {
                let ghost inner_before = self.map.spec_values()[i as int];
                proof {
                    assert(self.map.spec_position(a@) == Some(i as int));
                    self.map.lemma_value_at(i as int);
                }
                let inner = self.map.value_at_mut(i);
                inner.insert(b, v);
                proof {
                    let inner_after = inner_before@.insert(b@, v);
                    assert(self.map@[a@]@ == inner_after);
                    assert(self@ =~= before@.insert((a@, b@), v));
                }
            },
            None => {
                let mut inner = VecMap::new();
                inner.insert(b, v);
                self.map.insert(a, inner);
                proof {
                    assert(self@ =~= before@.insert((a@, b@), v));
                }
            },
        }
    }
}

} // verus!
