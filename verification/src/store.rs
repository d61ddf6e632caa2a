//! The key-value store the registry is built on: a thin, fully specified
//! mapping abstraction over `std::collections::HashMap`. Operations never
//! fail at this layer; capacity and uniqueness checks belong to the
//! registry.

use vstd::prelude::*;
use std::collections::HashMap;
use core::hash::Hash;
use vstd::std_specs::hash::obeys_key_model;
use vstd::std_specs::iter::IteratorSpec;

verus! {

broadcast use vstd::std_specs::hash::group_hash_axioms;

/// A persistent mapping from keys to values, viewed as a `Map<K, V>`.
pub struct KeyValueStore<K, V> {
    map: HashMap<K, V>,
}

impl<K, V> View for KeyValueStore<K, V> {
    type V = Map<K, V>;

    closed spec fn view(&self) -> Map<K, V> {
        self.map@
    }
}

impl<K: Eq + Hash, V> KeyValueStore<K, V> {
    /// An empty store.
    pub fn new() -> (s: Self)
        ensures
            s@ == Map::<K, V>::empty(),
    {
        KeyValueStore { map: HashMap::new() }
    }

    /// Whether the store holds a value under this key.
    pub fn contains(&self, key: &K) -> (r: bool)
        requires
            obeys_key_model::<K>(),
        ensures
            r == self@.contains_key(*key),
    {
        self.map.contains_key(key)
    }

    /// The value stored under this key, if any.
    pub fn get(&self, key: &K) -> (r: Option<&V>)
        requires
            obeys_key_model::<K>(),
        ensures
            match r {
                Some(v) => self@.contains_key(*key) && *v == self@[*key],
                None => !self@.contains_key(*key),
            },
    {
        self.map.get(key)
    }

    /// Stores a value under a key, replacing any previous value.
    pub fn set(&mut self, key: K, value: V)
        requires
            obeys_key_model::<K>(),
        ensures
            final(self)@ == old(self)@.insert(key, value),
    {
        self.map.insert(key, value);
    }

    /// Removes and returns the value under this key, if any.
    pub fn remove(&mut self, key: &K) -> (r: Option<V>)
        requires
            obeys_key_model::<K>(),
        ensures
            final(self)@ == old(self)@.remove(*key),
            match r {
                Some(v) => old(self)@.contains_key(*key) && v == old(self)@[*key],
                None => !old(self)@.contains_key(*key),
            },
    {
        self.map.remove(key)
    }

    /// A store always holds finitely many entries.
    pub proof fn lemma_dom_finite(&self)
        ensures
            self@.dom().finite(),
    {
        broadcast use vstd::std_specs::hash::axiom_hashmap_view_finite_dom;

    }

    /// How many entries the store holds.
    pub fn len(&self) -> (n: usize)
        requires
            obeys_key_model::<K>(),
        ensures
            n == self@.len(),
    {
        self.map.len()
    }
}

impl<K: Eq + Hash + Copy, V> KeyValueStore<K, V> {
    /// A snapshot of the stored keys, each exactly once, in no promised
    /// order. Together with `get`, this is how a caller walks the store's
    /// entries; the snapshot stays valid however the store changes
    /// afterwards.
    pub fn keys(&self) -> (ks: Vec<K>)
        requires
            obeys_key_model::<K>(),
        ensures
            ks@.no_duplicates(),
            ks@.len() == self@.len(),
            forall|k: K| #[trigger] ks@.contains(k) <==> self@.contains_key(k),
    {
        let mut ks: Vec<K> = Vec::new();
        for k in it: self.map.keys()
            invariant
                ks@.len() == it.index(),
                forall|i: int| 0 <= i < ks@.len() ==> ks@[i] == *it.seq()[i],
                it.seq() == vstd::std_specs::hash::spec_keys_iter(&self.map).remaining(),
        {
            ks.push(*k);
        }
        proof {
            let s = vstd::std_specs::hash::spec_keys_iter(&self.map).remaining();
            assert(ks@ =~= s.unref());
            assert(s.unref().to_set() == self.map@.dom());
            assert forall|k: K| #[trigger] ks@.contains(k) <==> self@.contains_key(k) by {
                assert(ks@.to_set() == s.unref().to_set());
                assert(ks@.to_set().contains(k) <==> ks@.contains(k));
            }
            assert(ks@.no_duplicates()) by {
                assert forall|i: int, j: int|
                    0 <= i < j < ks@.len() implies ks@[i] != ks@[j] by {
                    assert(s[i] != s[j]);
                }
            }
        }
        ks
    }
}

} // verus!
