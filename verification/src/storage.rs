//! The storage engine: a mapping from key to hash.

use vstd::prelude::*;
use vstd::hash_map::StringHashMap;

verus! {

/// The store's model: each key with the hash last stored under it.
pub type StoreMap = Map<Seq<char>, Seq<char>>;

/// A store of hashes under keys. One instance lives as long as the server and
/// is handed, under a lock, to every connection handler.
pub struct Storage {
    entries: StringHashMap<String>,
}

impl View for Storage {
    type V = StoreMap;

    /// What the store holds: finitely many keys, each with its hash. The map
    /// underneath is finite in every store that exists; the model is empty
    /// where it is not, so that finiteness holds of the model as such.
    closed spec fn view(&self) -> StoreMap {
        if self.entries@.dom().finite() {
            Map::new(
                |k: Seq<char>| self.entries@.contains_key(k),
                |k: Seq<char>| self.entries@[k]@,
            )
        } else {
            StoreMap::empty()
        }
    }
}

impl Storage {
    /// The map underneath holds finitely many keys.
    #[verifier::type_invariant]
    spec fn finite_entries(self) -> bool {
        self.entries@.dom().finite()
    }

    /// Every store holds finitely many keys, so that its size counts them.
    pub proof fn lemma_finite(self)
        ensures
            self@.dom().finite(),
    {
        if self.entries@.dom().finite() {
            assert(self@.dom() =~= self.entries@.dom());
        }
    }

    /// An empty store.
    pub fn new() -> (s: Self)
        ensures
            s@ == StoreMap::empty(),
            s@.dom().finite(),
    {
        let s = Storage { entries: StringHashMap::new() };
        assert(s@ =~= StoreMap::empty());
        s
    }

    /// Stores `hash` under `key`, replacing what was there. Every other key
    /// keeps its hash.
    pub fn put(&mut self, key: String, hash: String)
        ensures
            final(self)@ == old(self)@.insert(key@, hash@),
            final(self)@.dom().finite(),
    {
        proof {
            use_type_invariant(&*self);
        }
        // The map is taken out, changed and put back: the store is whole at
        // every call that could fail halfway.
        let mut entries = StringHashMap::new();
        core::mem::swap(&mut self.entries, &mut entries);
        entries.insert(key, hash);
        core::mem::swap(&mut self.entries, &mut entries);
        assert(self@ =~= old(self)@.insert(key@, hash@));
        assert(self@.dom() =~= self.entries@.dom());
    }

    /// The hash stored under `key`, if there is one.
    pub fn get(&self, key: &str) -> (r: Option<String>)
        ensures
            match r {
                Some(hash) => self@.contains_key(key@) && hash@ == self@[key@],
                None => !self@.contains_key(key@),
            },
    {
        proof {
            use_type_invariant(self);
        }
        match self.entries.get(key) {
            Some(hash) => Some(hash.clone()),
            None => None,
        }
    }

    /// The number of keys in the store.
    pub fn size(&self) -> (n: usize)
        ensures
            n == self@.len(),
            self@.dom().finite(),
    {
        proof {
            use_type_invariant(self);
        }
        assert(self@.dom() =~= self.entries@.dom());
        self.entries.len()
    }
}

} // verus!
