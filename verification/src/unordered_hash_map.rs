use std::borrow::Borrow;
use std::collections::HashMap;
use std::hash::Hash;
use vstd::prelude::*;
use vstd::std_specs::hash::*;

verus! {

/// A hash map that does not care about the order of insertion.
///
/// Like the set beside it, it offers no way to walk its entries.
#[derive(Debug, PartialEq, Eq)]
pub struct UnorderedHashMap<Key: Hash + Eq, Value>(HashMap<Key, Value>);

impl<Key: Hash + Eq, Value> View for UnorderedHashMap<Key, Value> {
    type V = Map<Key, Value>;

    closed spec fn view(&self) -> Map<Key, Value> {
        self.0@
    }
}

impl<Key: Hash + Eq, Value> UnorderedHashMap<Key, Value> {
    /// Returns a reference to the value stored under the key, if there is one.
    pub fn get<Q: ?Sized + Hash + Eq>(&self, key: &Q) -> (found: Option<&Value>) where
        Key: Borrow<Q>,

        ensures
            obeys_key_model::<Key>() ==> match found {
                Some(value) => maps_borrowed_key_to_value(self@, key, *value),
                None => !contains_borrowed_key(self@, key),
            },
    {
        broadcast use group_hash_axioms;
        self.0.get(key)
    }

    /// Stores the value under the key and returns the value that was there before.
    pub fn insert(&mut self, key: Key, value: Value) -> (previous: Option<Value>)
        ensures
            obeys_key_model::<Key>() ==> final(self)@ == old(self)@.insert(key, value),
            obeys_key_model::<Key>() ==> match previous {
                Some(value) => old(self)@.contains_key(key) && value == old(self)@[key],
                None => !old(self)@.contains_key(key),
            },
    {
        broadcast use group_hash_axioms;
        self.0.insert(key, value)
    }

    /// Returns true if the map holds a value for the key.
    pub fn contains_key<Q: ?Sized + Hash + Eq>(&self, key: &Q) -> (present: bool) where
        Key: Borrow<Q>,

        ensures
            obeys_key_model::<Key>() ==> present == contains_borrowed_key(self@, key),
    {
        broadcast use group_hash_axioms;
        self.0.contains_key(key)
    }

    /// Returns the number of entries in the map.
    pub fn len(&self) -> (n: usize)
        ensures
            obeys_key_model::<Key>() ==> n == self@.len(),
    {
        broadcast use group_hash_axioms;
        self.0.len()
    }

    /// Returns true if the map holds no entry.
    pub fn is_empty(&self) -> (empty: bool)
        ensures
            empty == self@.is_empty(),
    {
        self.0.is_empty()
    }
}

impl<Key: Hash + Eq, Value> Default for UnorderedHashMap<Key, Value> {
    fn default() -> (empty: Self)
        ensures
            empty@ == Map::<Key, Value>::empty(),
    {
        UnorderedHashMap(HashMap::new())
    }
}

} // verus!
