//! The in-memory store: a map from string keys to string values.

use vstd::hash_map::StringHashMap;
use vstd::prelude::*;

verus! {

/// A map from keys to values, held in memory. Its view is the map it holds.
pub struct Store {
    entries: StringHashMap<String>,
}

impl View for Store {
    type V = Map<Seq<char>, Seq<char>>;

    closed spec fn view(&self) -> Map<Seq<char>, Seq<char>> {
        Map::new(
            |key: Seq<char>| self.entries@.contains_key(key),
            |key: Seq<char>| self.entries@[key]@,
        )
    }
}

impl Store {
    /// A store that holds nothing.
    pub fn new() -> (store: Store)
        ensures
            store@ == Map::<Seq<char>, Seq<char>>::empty(),
    {
        let store = Store { entries: StringHashMap::new() };
        store
    }

    /// The value under `key`, if there is one.
    pub fn get(&self, key: &str) -> (value: Option<String>)
        ensures
            match value {
                Some(v) => self@.contains_key(key@) && self@[key@] == v@,
                None => !self@.contains_key(key@),
            },
    {
        match self.entries.get(key) {
            Some(value) => Some(value.clone()),
            None => None,
        }
    }

    /// Puts `value` under `key`, in place of what was there.
    pub fn set(&mut self, key: String, value: String)
        ensures
            final(self)@ == old(self)@.insert(key@, value@),
    {
        self.entries.insert(key, value);
    }

    /// Removes `key` and its value. A key that is not there is left alone.
    pub fn delete(&mut self, key: &str)
        ensures
            final(self)@ == old(self)@.remove(key@),
    {
        self.entries.remove(key);
    }
}

} // verus!
