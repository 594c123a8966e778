//! A store of string keys and string values, held in memory.

use vstd::prelude::*;
use vstd::hash_map::StringHashMap;

verus! {

/// The `KvStore` stores string key/value pairs.
///
/// Key/value pairs are stored in a hash map in memory and not persisted to
/// disk. Its view is the map from each key that is set to its value.
pub struct KvStore {
    map: StringHashMap<String>,
}

impl View for KvStore {
    type V = Map<Seq<char>, Seq<char>>;

    closed spec fn view(&self) -> Map<Seq<char>, Seq<char>> {
        self.map@.map_values(|v: String| v@)
    }
}

impl KvStore {
    /// Creates an empty store.
    pub fn new() -> (store: KvStore)
        ensures
            store@ == Map::<Seq<char>, Seq<char>>::empty(),
    {
        let map = StringHashMap::new();
        let store = KvStore { map };
        assert(store@ =~= Map::<Seq<char>, Seq<char>>::empty());
        store
    }

    /// Sets the value of a key.
    ///
    /// If the key already exists, the previous value is overwritten.
    pub fn set(&mut self, key: String, value: String)
        ensures
            final(self)@ == old(self)@.insert(key@, value@),
    {
        let ghost k = key@;
        let ghost v = value@;
        self.map.insert(key, value);
        assert(self@ =~= old(self)@.insert(k, v));
    }

    /// Gets the value of a key.
    ///
    /// Returns `None` if the given key does not exist.
    pub fn get(&mut self, key: String) -> (r: Option<String>)
        ensures
            final(self)@ == old(self)@,
            match r {
                Some(value) => old(self)@.contains_key(key@) && value@ == old(self)@[key@],
                None => !old(self)@.contains_key(key@),
            },
    {
        match self.map.get(key.as_str()) {
            Some(value) => Some(value.clone()),
            None => None,
        }
    }

    /// Removes a key and its value. A key that does not exist is left
    /// missing.
    pub fn remove(&mut self, key: String)
        ensures
            final(self)@ == old(self)@.remove(key@),
    {
        self.map.remove(key.as_str());
        assert(self@ =~= old(self)@.remove(key@));
    }
}

impl Default for KvStore {
    fn default() -> (store: KvStore)
        ensures
            store@ == Map::<Seq<char>, Seq<char>>::empty(),
    {
        KvStore::new()
    }
}

} // verus!
