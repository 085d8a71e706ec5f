//! The chosen values of a leaderboard's variables, in a canonical order.

use vstd::prelude::*;
use crate::boards::srcom::variable::{VariableId, VariableValueId};
use crate::key::Key;
use crate::text::{
    lemma_text_lt_transitive, lemma_text_lt_trichotomy, str_lt, text_lt,
};

verus! {

/// Whether the texts of `keys` stand in strictly rising order.
pub open spec fn rising(keys: Seq<Seq<char>>) -> bool {
    forall|i: int, j: int| 0 <= i < j < keys.len() ==> text_lt(keys[i], keys[j])
}

/// The mapping that gives each of `keys` the value at its position.
pub open spec fn map_of(keys: Seq<Seq<char>>, values: Seq<Seq<char>>) -> Map<
    Seq<char>,
    Seq<char>,
> {
    Map::new(|k: Seq<char>| keys.contains(k), |k: Seq<char>| values[keys.index_of(k)])
}

/// A choice of values for variables: at most one value for each variable.
///
/// The entries are kept in the order of the variables' identifiers, so that
/// one choice has one form only, however it was put together.
#[derive(Debug)]
pub struct VariableMap {
    keys: Vec<VariableId>,
    values: Vec<VariableValueId>,
}

impl View for VariableMap {
    type V = Map<Seq<char>, Seq<char>>;

    /// The mapping from each variable to its chosen value.
    open spec fn view(&self) -> Map<Seq<char>, Seq<char>> {
        map_of(self.spec_keys(), self.spec_values())
    }
}

/// Rising keys hold no key twice.
pub proof fn lemma_rising_distinct(keys: Seq<Seq<char>>)
    requires
        rising(keys),
    ensures
        keys.no_duplicates(),
{
    assert forall|i: int, j: int| 0 <= i < keys.len() && 0 <= j < keys.len() && i != j implies keys[i]
        != keys[j] by {
        if i < j {
            lemma_text_lt_trichotomy(keys[i], keys[j]);
        } else {
            lemma_text_lt_trichotomy(keys[j], keys[i]);
        }
    }
}

/// The position of a key among distinct keys is the one at which it stands.
proof fn lemma_index_of(keys: Seq<Seq<char>>, i: int)
    requires
        keys.no_duplicates(),
        0 <= i < keys.len(),
    ensures
        keys.contains(keys[i]),
        keys.index_of(keys[i]) == i,
{
    assert(keys.contains(keys[i]));
    let j = keys.index_of(keys[i]);
    assert(0 <= j < keys.len() && keys[j] == keys[i]);
}

/// Without its last entry, a list of entries maps what it mapped before, but
/// for the last key.
proof fn lemma_map_of_drop_last(keys: Seq<Seq<char>>, values: Seq<Seq<char>>)
    requires
        keys.no_duplicates(),
        keys.len() == values.len(),
        keys.len() > 0,
    ensures
        map_of(keys.drop_last(), values.drop_last()) == map_of(keys, values).remove(keys.last()),
{
    let short_keys = keys.drop_last();
    let short_values = values.drop_last();
    let n = keys.len() as int;
    let left = map_of(short_keys, short_values);
    let right = map_of(keys, values).remove(keys.last());
    assert forall|k: Seq<char>| left.dom().contains(k) <==> right.dom().contains(k) by {
        if short_keys.contains(k) {
            let j = short_keys.index_of(k);
            assert(keys[j] == k);
            assert(keys.contains(k));
        }
        if keys.contains(k) && k != keys.last() {
            let j = keys.index_of(k);
            assert(short_keys[j] == k);
            assert(short_keys.contains(k));
        }
    }
    assert forall|k: Seq<char>| left.dom().contains(k) implies #[trigger] left[k] == right[k] by {
        let j = short_keys.index_of(k);
        assert(keys[j] == k);
        lemma_index_of(keys, j);
    }
    assert(left =~= right);
}

/// A new value at position `i` is an insertion under the key at `i`.
proof fn lemma_map_of_update(keys: Seq<Seq<char>>, values: Seq<Seq<char>>, i: int, v: Seq<char>)
    requires
        keys.no_duplicates(),
        keys.len() == values.len(),
        0 <= i < keys.len(),
    ensures
        map_of(keys, values.update(i, v)) == map_of(keys, values).insert(keys[i], v),
{
    let left = map_of(keys, values.update(i, v));
    let right = map_of(keys, values).insert(keys[i], v);
    lemma_index_of(keys, i);
    assert forall|k: Seq<char>| left.dom().contains(k) implies #[trigger] left[k] == right[k] by {
        let j = keys.index_of(k);
        if j == i {
        } else {
        }
    }
    assert(left =~= right);
}

/// One more entry at position `i`, under a key that is not there yet, is an
/// insertion.
proof fn lemma_map_of_insert(
    keys: Seq<Seq<char>>,
    values: Seq<Seq<char>>,
    i: int,
    k: Seq<char>,
    v: Seq<char>,
)
    requires
        keys.no_duplicates(),
        keys.len() == values.len(),
        0 <= i <= keys.len(),
        !keys.contains(k),
        keys.insert(i, k).no_duplicates(),
    ensures
        map_of(keys.insert(i, k), values.insert(i, v)) == map_of(keys, values).insert(k, v),
{
    let new_keys = keys.insert(i, k);
    let new_values = values.insert(i, v);
    let left = map_of(new_keys, new_values);
    let right = map_of(keys, values).insert(k, v);
    assert(new_keys[i] == k);
    assert forall|x: Seq<char>| left.dom().contains(x) <==> right.dom().contains(x) by {
        if new_keys.contains(x) {
            let j = new_keys.index_of(x);
            if j < i {
                assert(keys[j] == x);
            } else if j > i {
                assert(keys[j - 1] == x);
            }
        }
        if keys.contains(x) {
            let j = keys.index_of(x);
            if j < i {
                assert(new_keys[j] == x);
            } else {
                assert(new_keys[j + 1] == x);
            }
        }
        if x == k {
            assert(new_keys[i] == x);
        }
    }
    assert forall|x: Seq<char>| left.dom().contains(x) implies #[trigger] left[x] == right[x] by {
        let j = new_keys.index_of(x);
        lemma_index_of(new_keys, j);
        if j == i {
        } else if j < i {
            assert(keys[j] == x);
            lemma_index_of(keys, j);
        } else {
            assert(keys[j - 1] == x);
            lemma_index_of(keys, j - 1);
        }
    }
    assert(left =~= right);
}

/// A choice has one form only: two lists of entries with rising keys that
/// map the same variables to the same values are the same list.
pub proof fn lemma_canonical(
    keys1: Seq<Seq<char>>,
    values1: Seq<Seq<char>>,
    keys2: Seq<Seq<char>>,
    values2: Seq<Seq<char>>,
)
    requires
        rising(keys1),
        rising(keys2),
        keys1.len() == values1.len(),
        keys2.len() == values2.len(),
        map_of(keys1, values1) == map_of(keys2, values2),
    ensures
        keys1 == keys2,
        values1 == values2,
    decreases keys1.len(),
{
    lemma_rising_distinct(keys1);
    lemma_rising_distinct(keys2);
    let m1 = map_of(keys1, values1);
    let m2 = map_of(keys2, values2);
    if keys1.len() == 0 {
        if keys2.len() > 0 {
            assert(keys2.contains(keys2[0]));
            assert(m2.dom().contains(keys2[0]));
            assert(m1.dom().contains(keys2[0]));
        }
        assert(keys1 =~= keys2);
        assert(values1 =~= values2);
    } else {
        let n1 = keys1.len() as int;
        let a = keys1.last();
        lemma_index_of(keys1, n1 - 1);
        assert(m1.dom().contains(a));
        assert(m2.dom().contains(a));
        assert(keys2.contains(a));
        let n2 = keys2.len() as int;
        let b = keys2.last();
        lemma_index_of(keys2, n2 - 1);
        assert(m2.dom().contains(b));
        assert(m1.dom().contains(b));
        let ia = keys2.index_of(a);
        let ib = keys1.index_of(b);
        lemma_text_lt_trichotomy(a, b);
        if ia < n2 - 1 {
            assert(text_lt(keys2[ia], keys2[n2 - 1]));
        }
        if ib < n1 - 1 {
            assert(text_lt(keys1[ib], keys1[n1 - 1]));
        }
        assert(a == b);
        assert(m1[a] == values1[n1 - 1]);
        assert(m2[a] == values2[n2 - 1]);
        lemma_map_of_drop_last(keys1, values1);
        lemma_map_of_drop_last(keys2, values2);
        lemma_canonical(
            keys1.drop_last(),
            values1.drop_last(),
            keys2.drop_last(),
            values2.drop_last(),
        );
        assert(keys1 =~= keys1.drop_last().push(a));
        assert(keys2 =~= keys2.drop_last().push(b));
        assert(values1 =~= values1.drop_last().push(values1.last()));
        assert(values2 =~= values2.drop_last().push(values2.last()));
    }
}

impl VariableMap {
    #[verifier::type_invariant]
    spec fn well_formed(self) -> bool {
        &&& self.keys@.len() == self.values@.len()
        &&& rising(self.keys@.map_values(|k: VariableId| k@))
    }

    /// The variables, in rising order.
    pub closed spec fn spec_keys(&self) -> Seq<Seq<char>> {
        self.keys@.map_values(|k: VariableId| k@)
    }

    /// The chosen values, each at the position of its variable.
    pub closed spec fn spec_values(&self) -> Seq<Seq<char>> {
        self.values@.map_values(|v: VariableValueId| v@)
    }

    /// Whether the entries are in canonical form: as many values as
    /// variables, and the variables in rising order. This holds of every
    /// choice that the program holds.
    pub open spec fn canonical(&self) -> bool {
        &&& self.spec_keys().len() == self.spec_values().len()
        &&& rising(self.spec_keys())
    }

    /// The empty choice.
    pub fn new() -> (m: Self)
        ensures
            m@ == Map::<Seq<char>, Seq<char>>::empty(),
            m.spec_keys() == Seq::<Seq<char>>::empty(),
            m.spec_values() == Seq::<Seq<char>>::empty(),
            m.canonical(),
    {
        let m = VariableMap { keys: Vec::new(), values: Vec::new() };
        assert(m.spec_keys() =~= Seq::<Seq<char>>::empty());
        assert(m.spec_values() =~= Seq::<Seq<char>>::empty());
        assert(m@ =~= Map::<Seq<char>, Seq<char>>::empty());
        m
    }

    /// The number of variables that have a value.
    pub fn len(&self) -> (n: usize)
        ensures
            n == self.spec_keys().len(),
            self.canonical(),
    {
        proof {
            use_type_invariant(self);
        }
        self.keys.len()
    }

    /// The variable and its value at position `i` of the canonical order.
    pub fn entry_at(&self, i: usize) -> (kv: (&VariableId, &VariableValueId))
        requires
            i < self.spec_keys().len(),
        ensures
            kv.0@ == self.spec_keys()[i as int],
            kv.1@ == self.spec_values()[i as int],
            self@.dom().contains(kv.0@),
            self@[kv.0@] == kv.1@,
            self.canonical(),
    {
        proof {
            use_type_invariant(self);
            lemma_rising_distinct(self.spec_keys());
            lemma_index_of(self.spec_keys(), i as int);
        }
        (&self.keys[i], &self.values[i])
    }

    /// The position at which `key` stands, or at which it would have to go.
    fn slot(&self, key: &VariableId) -> (at: (usize, bool))
        ensures
            self.canonical(),
            at.0 <= self.spec_keys().len(),
            forall|j: int| 0 <= j < at.0 ==> text_lt(self.spec_keys()[j], key@),
            at.1 ==> at.0 < self.spec_keys().len() && self.spec_keys()[at.0 as int] == key@,
            !at.1 ==> !self.spec_keys().contains(key@),
            !at.1 ==> forall|j: int|
                at.0 <= j < self.spec_keys().len() ==> text_lt(key@, self.spec_keys()[j]),
    {
        proof {
            use_type_invariant(self);
        }
        let ghost keys = self.spec_keys();
        let n = self.keys.len();
        let mut i: usize = 0;
        while i < n
            invariant
                i <= n,
                n == self.keys@.len(),
                keys == self.spec_keys(),
                self.canonical(),
                rising(keys),
                forall|j: int| 0 <= j < i ==> text_lt(keys[j], key@),
            decreases n - i,
        {
            assert(keys[i as int] == self.keys@[i as int]@);
            if !str_lt(self.keys[i].0.as_str(), key.0.as_str()) {
                let here = !str_lt(key.0.as_str(), self.keys[i].0.as_str());
                proof {
                    lemma_text_lt_trichotomy(keys[i as int], key@);
                    assert forall|j: int| 0 <= j < n && keys[j] == key@ implies j == i by {
                        lemma_text_lt_trichotomy(keys[j], key@);
                        if j < i {
                        } else if j > i {
                            assert(text_lt(keys[i as int], keys[j]));
                            if !here {
                            } else {
                                lemma_text_lt_trichotomy(keys[i as int], keys[j]);
                            }
                        }
                    }
                    if !here {
                        assert forall|j: int| i <= j < n implies text_lt(key@, keys[j]) by {
                            if j > i {
                                lemma_text_lt_transitive(key@, keys[i as int], keys[j]);
                            }
                        }
                    }
                }
                return (i, here);
            }
            i = i + 1;
        }
        proof {
            assert forall|j: int| 0 <= j < n implies keys[j] != key@ by {
                lemma_text_lt_trichotomy(keys[j], key@);
            }
        }
        (n, false)
    }

    /// The value chosen for `key`, if there is one.
    pub fn get(&self, key: &VariableId) -> (value: Option<&VariableValueId>)
        ensures
            match value {
                Some(v) => self@.dom().contains(key@) && self@[key@] == v@,
                None => !self@.dom().contains(key@),
            },
    {
        let (i, here) = self.slot(key);
        if here {
            let kv = self.entry_at(i);
            Some(kv.1)
        } else {
            None
        }
    }

    /// Chooses `value` for `key`, in place of the value chosen before, if any.
    pub fn insert(&mut self, key: VariableId, value: VariableValueId)
        ensures
            final(self)@ == old(self)@.insert(key@, value@),
            final(self).canonical(),
    {
        proof {
            use_type_invariant(&*self);
        }
        let ghost before = *self;
        let ghost keys = self.spec_keys();
        let ghost values = self.spec_values();
        let (i, here) = self.slot(&key);
        proof {
            lemma_rising_distinct(keys);
        }
        if here {
            self.values[i] = value;
            proof {
                assert(self.spec_keys() =~= keys);
                assert(self.spec_values() =~= values.update(i as int, value@));
                lemma_map_of_update(keys, values, i as int, value@);
            }
        } else {
            let mut taken = VariableMap { keys: Vec::new(), values: Vec::new() };
            proof {
                assert(taken.keys@.map_values(|k: VariableId| k@) =~= Seq::<Seq<char>>::empty());
            }
            std::mem::swap(self, &mut taken);
            let VariableMap { keys: mut held_keys, values: mut held_values } = taken;
            held_keys.insert(i, key);
            held_values.insert(i, value);
            proof {
                let new_keys = held_keys@.map_values(|k: VariableId| k@);
                let new_values = held_values@.map_values(|v: VariableValueId| v@);
                assert(new_keys =~= keys.insert(i as int, key@));
                assert(new_values =~= values.insert(i as int, value@));
                assert forall|a: int, b: int| 0 <= a < b < new_keys.len() implies text_lt(
                    new_keys[a],
                    new_keys[b],
                ) by {
                    if a < i && b < i {
                        assert(new_keys[a] == keys[a] && new_keys[b] == keys[b]);
                    } else if a < i && b == i {
                        assert(new_keys[a] == keys[a]);
                    } else if a < i && b > i {
                        assert(new_keys[a] == keys[a] && new_keys[b] == keys[b - 1]);
                    } else if a == i {
                        assert(new_keys[b] == keys[b - 1]);
                    } else {
                        assert(new_keys[a] == keys[a - 1] && new_keys[b] == keys[b - 1]);
                    }
                }
                lemma_rising_distinct(new_keys);
                lemma_map_of_insert(keys, values, i as int, key@, value@);
            }
            *self = VariableMap { keys: held_keys, values: held_values };
        }
    }

    /// Whether `self` and `other` choose the same values for the same
    /// variables.
    pub fn same_choice(&self, other: &Self) -> (same: bool)
        ensures
            same == (self@ == other@),
    {
        proof {
            use_type_invariant(self);
            use_type_invariant(other);
        }
        let ghost k1 = self.spec_keys();
        let ghost v1 = self.spec_values();
        let ghost k2 = other.spec_keys();
        let ghost v2 = other.spec_values();
        let n = self.keys.len();
        if n != other.keys.len() {
            proof {
                if self@ == other@ {
                    lemma_canonical(k1, v1, k2, v2);
                }
            }
            return false;
        }
        let mut i: usize = 0;
        while i < n
            invariant
                i <= n,
                n == self.keys@.len(),
                n == other.keys@.len(),
                n == self.values@.len(),
                n == other.values@.len(),
                k1 == self.spec_keys(),
                v1 == self.spec_values(),
                k2 == other.spec_keys(),
                v2 == other.spec_values(),
                rising(k1),
                rising(k2),
                forall|j: int| 0 <= j < i ==> k1[j] == k2[j] && v1[j] == v2[j],
            decreases n - i,
        {
            if !self.keys[i].same_key(&other.keys[i]) || !self.values[i].same_key(
                &other.values[i],
            ) {
                proof {
                    assert(k1[i as int] != k2[i as int] || v1[i as int] != v2[i as int]);
                    if self@ == other@ {
                        lemma_canonical(k1, v1, k2, v2);
                    }
                }
                return false;
            }
            i = i + 1;
        }
        proof {
            assert(k1 =~= k2);
            assert(v1 =~= v2);
        }
        true
    }
}

impl Key for VariableMap {
    fn same_key(&self, other: &Self) -> (same: bool) {
        self.same_choice(other)
    }
}

/// However a choice was put together, it has one form: two choices that give
/// the same variables the same values list the same entries in the same
/// order.
pub proof fn lemma_one_form(a: VariableMap, b: VariableMap)
    requires
        a.canonical(),
        b.canonical(),
        a@ == b@,
    ensures
        a.spec_keys() == b.spec_keys(),
        a.spec_values() == b.spec_values(),
{
    lemma_canonical(a.spec_keys(), a.spec_values(), b.spec_keys(), b.spec_values());
}

/// The order in which two different variables are given their values does
/// not matter.
pub proof fn lemma_insert_order(
    m: Map<Seq<char>, Seq<char>>,
    k1: Seq<char>,
    v1: Seq<char>,
    k2: Seq<char>,
    v2: Seq<char>,
)
    requires
        k1 != k2,
    ensures
        m.insert(k1, v1).insert(k2, v2) == m.insert(k2, v2).insert(k1, v1),
{
    assert(m.insert(k1, v1).insert(k2, v2) =~= m.insert(k2, v2).insert(k1, v1));
}

} // verus!
