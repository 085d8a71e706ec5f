//! A cache whose entries go stale after a fixed time.

use vstd::prelude::*;
use crate::key::Key;
use crate::vec_map::VecMap;

verus! {

/// A value with the instant at which it was fetched.
#[derive(Debug)]
pub struct CachedEntry<T> {
    pub value: T,
    pub fetched_at: i64,
}

/// Whether what was fetched at `fetched_at` is still fresh at `now`, where
/// entries live for `ttl`: the instant `fetched_at + ttl` has not come yet.
pub open spec fn fresh_at(fetched_at: i64, ttl: i64, now: i64) -> bool {
    now < fetched_at + ttl
}

/// The value that a read of `key` at `now` finds in `entries`: the value of
/// the entry, where there is one and it is fresh.
pub open spec fn fresh_value<K, V>(
    entries: Map<K, CachedEntry<V>>,
    ttl: i64,
    key: K,
    now: i64,
) -> Option<V> {
    if entries.dom().contains(key) && fresh_at(entries[key].fetched_at, ttl, now) {
        Some(entries[key].value)
    } else {
        None
    }
}

impl<T> CachedEntry<T> {
    /// Whether the entry is fresh at `now`, where entries live for `ttl`.
    pub fn is_fresh(&self, ttl: i64, now: i64) -> (fresh: bool)
        ensures
            fresh == fresh_at(self.fetched_at, ttl, now),
    {
        (now as i128) < (self.fetched_at as i128) + (ttl as i128)
    }
}

/// A cache from keys to values. An entry is fresh for the cache's time to
/// live, counted from the instant at which it was stored; after that a read
/// does not find it. Stale entries stay where they are until they are
/// overwritten.
#[derive(Debug)]
pub struct TtlCache<K: Key, V> {
    ttl: i64,
    entries: VecMap<K, CachedEntry<V>>,
}

impl<K: Key, V> View for TtlCache<K, V> {
    type V = Map<K::V, CachedEntry<V>>;

    /// The entries, fresh and stale.
    closed spec fn view(&self) -> Map<K::V, CachedEntry<V>> {
        self.entries@
    }
}

impl<K: Key, V> TtlCache<K, V> {
    /// The time for which an entry is fresh.
    pub closed spec fn spec_ttl(&self) -> i64 {
        self.ttl
    }

    /// The keys in the order in which they were first stored.
    pub closed spec fn spec_keys(&self) -> Seq<K::V> {
        self.entries.spec_keys()
    }

    /// The value that a read of `key` at `now` finds.
    pub open spec fn spec_get(&self, key: K::V, now: i64) -> Option<V> {
        fresh_value(self@, self.spec_ttl(), key, now)
    }

    /// An empty cache whose entries are fresh for `ttl`.
    pub fn new(ttl: i64) -> (cache: Self)
        ensures
            cache@ == Map::<K::V, CachedEntry<V>>::empty(),
            cache.spec_ttl() == ttl,
    {
        TtlCache { ttl, entries: VecMap::new() }
    }

    /// The time for which an entry is fresh.
    pub fn ttl(&self) -> (ttl: i64)
        ensures
            ttl == self.spec_ttl(),
    {
        self.ttl
    }

    /// The position of the entry of `key`, if it is there and fresh at `now`.
    pub fn fresh_position(&self, key: &K, now: i64) -> (at: Option<usize>)
        ensures
            at is Some <==> self.spec_get(key@, now) is Some,
            at matches Some(i) ==> i < self.spec_keys().len() && self.spec_keys()[i as int]
                == key@,
            self.spec_keys().no_duplicates(),
    {
        match self.entries.position(key) {
            Some(i) => {
                let kv = self.entries.entry_at(i);
                if kv.1.is_fresh(self.ttl, now) {
                    Some(i)
                } else {
                    None
                }
            },
            None => None,
        }
    }

    /// The value at position `i`.
    pub fn value_at(&self, i: usize) -> (value: &V)
        requires
            i < self.spec_keys().len(),
        ensures
            self@.dom().contains(self.spec_keys()[i as int]),
            *value == self@[self.spec_keys()[i as int]].value,
    {
        let kv = self.entries.entry_at(i);
        &kv.1.value
    }

    /// The value at position `i`, to be changed in place. The entry keeps its
    /// key and the instant at which it was fetched.
    pub fn value_at_mut(&mut self, i: usize) -> (value: &mut V)
        requires
            i < old(self).spec_keys().len(),
        ensures
            old(self)@.dom().contains(old(self).spec_keys()[i as int]),
            *value == old(self)@[old(self).spec_keys()[i as int]].value,
            final(self).spec_ttl() == old(self).spec_ttl(),
            final(self).spec_keys() == old(self).spec_keys(),
            final(self)@ == old(self)@.insert(
                old(self).spec_keys()[i as int],
                CachedEntry {
                    value: *final(value),
                    fetched_at: old(self)@[old(self).spec_keys()[i as int]].fetched_at,
                },
            ),
    {
        let _ = self.entries.len();
        proof {
            self.entries.lemma_value_at(i as int);
        }
        let entry = self.entries.value_at_mut(i);
        &mut entry.value
    }

    /// The value of `key`, if it is there and fresh at `now`.
    pub fn get(&self, key: &K, now: i64) -> (value: Option<&V>)
        ensures
            value == match self.spec_get(key@, now) {
                Some(v) => Some(&v),
                None => None,
            },
    {
        match self.fresh_position(key, now) {
            Some(i) => Some(self.value_at(i)),
            None => None,
        }
    }

    /// Stores `value` under `key` as fetched at `now`, in place of the entry
    /// that was there, if any.
    pub fn put(&mut self, key: K, value: V, now: i64)
        ensures
            final(self)@ == old(self)@.insert(key@, CachedEntry { value, fetched_at: now }),
            final(self).spec_ttl() == old(self).spec_ttl(),
    {
        self.entries.insert(key, CachedEntry { value, fetched_at: now });
    }

    /// The value of `key` at `now`: the cached one where it is fresh, else
    /// the one that `fetch` gives, which is stored as fetched at `now`.
    ///
    /// `fetch` is called only where no fresh entry is there. Where it fails,
    /// its error is handed on and the cache stays as it was.
    pub fn get_or_fetch<E, F: FnOnce(&K) -> Result<V, E>>(
        &mut self,
        key: K,
        now: i64,
        fetch: F,
    ) -> (value: Result<&V, E>)
        requires
            fetch.requires((&key,)),
        ensures
            final(self).spec_ttl() == old(self).spec_ttl(),
            match old(self).spec_get(key@, now) {
                Some(v) => value == Ok::<&V, E>(&v) && final(self)@ == old(self)@,
                None => match value {
                    Ok(v) => fetch.ensures((&key,), Ok(*v)) && final(self)@ == old(self)@.insert(
                        key@,
                        CachedEntry { value: *v, fetched_at: now },
                    ),
                    Err(e) => fetch.ensures((&key,), Err(e)) && final(self)@ == old(self)@,
                },
            },
    {
        let known = self.entries.position(&key);
        match known {
            Some(i) => {
                let kv = self.entries.entry_at(i);
                if kv.1.is_fresh(self.ttl, now) {
                    return Ok(self.value_at(i));
                }
            },
            None => {},
        }
        match fetch(&key) {
            Ok(fetched) => {
                let at = match known {
                    Some(i) => i,
                    None => self.entries.len(),
                };
                self.entries.insert(key, CachedEntry { value: fetched, fetched_at: now });
                proof {
                    self.entries.lemma_value_at(at as int);
                }
                Ok(self.value_at(at))
            },
            Err(e) => Err(e),
        }
    }
}

/// A read strictly within the time to live of the last write finds what was
/// written.
pub proof fn lemma_read_within_ttl<K, V>(
    entries: Map<K, CachedEntry<V>>,
    ttl: i64,
    key: K,
    value: V,
    written: i64,
    now: i64,
)
    requires
        now < written + ttl,
    ensures
        fresh_value(
            entries.insert(key, CachedEntry { value, fetched_at: written }),
            ttl,
            key,
            now,
        ) == Some(value),
{
}

/// A read at or after the end of the time to live of the last write finds
/// nothing, so that the value is fetched anew.
pub proof fn lemma_read_after_ttl<K, V>(
    entries: Map<K, CachedEntry<V>>,
    ttl: i64,
    key: K,
    value: V,
    written: i64,
    now: i64,
)
    requires
        now >= written + ttl,
    ensures
        fresh_value(
            entries.insert(key, CachedEntry { value, fetched_at: written }),
            ttl,
            key,
            now,
        ) is None,
{
}

/// A write under one key leaves what a read of another key finds.
pub proof fn lemma_read_other_key<K, V>(
    entries: Map<K, CachedEntry<V>>,
    ttl: i64,
    key: K,
    other: K,
    value: V,
    written: i64,
    now: i64,
)
    requires
        key != other,
    ensures
        fresh_value(
            entries.insert(key, CachedEntry { value, fetched_at: written }),
            ttl,
            other,
            now,
        ) == fresh_value(entries, ttl, other, now),
{
}

} // verus!
