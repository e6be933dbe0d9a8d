//! The in-memory engine: a map from key strings to value strings.

use vstd::prelude::*;
use vstd::hash_map::StringHashMap;
use crate::backend::{Backend, BackendView};

verus! {

/// The keys and values that the in-memory engine holds.
pub struct MemStore {
    m: StringHashMap<String>,
}

impl View for MemStore {
    type V = Map<Seq<char>, Seq<char>>;

    closed spec fn view(&self) -> Map<Seq<char>, Seq<char>> {
        self.m@.map_values(|v: String| v@)
    }
}

/// What a lookup of `key` answers on `m`: the value stored under it, or the
/// empty string where there is none.
pub open spec fn lookup(m: Map<Seq<char>, Seq<char>>, key: Seq<char>) -> Seq<char> {
    if m.contains_key(key) {
        m[key]
    } else {
        Seq::empty()
    }
}

/// Read your write on the store itself: after storing `val` under `key`,
/// a lookup of `key` answers `val`, and a lookup of any other key answers
/// what it did before.
pub proof fn lemma_lookup_insert(m: Map<Seq<char>, Seq<char>>, key: Seq<char>, val: Seq<char>, other: Seq<char>)
    ensures
        lookup(m.insert(key, val), key) == val,
        other != key ==> lookup(m.insert(key, val), other) == lookup(m, other),
{
}

impl MemStore {
    /// A new, empty store.
    pub fn new() -> (s: MemStore)
        ensures
            s@ == Map::<Seq<char>, Seq<char>>::empty(),
    {
        let s = MemStore { m: StringHashMap::new() };
        proof {
            assert(s@ =~= Map::<Seq<char>, Seq<char>>::empty());
        }
        s
    }

    /// Stores `val` under `key`, replacing what was there.
    pub fn insert(&mut self, key: String, val: String)
        ensures
            final(self)@ == old(self)@.insert(key@, val@),
    {
        self.m.insert(key, val);
        proof {
            assert(self@ =~= old(self)@.insert(key@, val@));
        }
    }

    /// The value stored under `key`, or the empty string.
    pub fn get(&self, key: &str) -> (v: String)
        ensures
            v@ == lookup(self@, key@),
    {
        match self.m.get(key) {
            Some(v) => v.clone(),
            None => String::new(),
        }
    }
}

/// Opening the in-memory engine needs nothing: its data lives in the
/// service itself, whatever path it is given.
pub fn create(_path: &str) {
}

/// The in-memory store of `service`: the one map that the service's
/// in-memory engine reads and writes. Every call on the same service gives
/// that same map, and what is written through it is what the service's
/// lookups then see.
pub fn store(service: &mut Backend) -> (s: &mut MemStore)
    ensures
        s@ == old(service)@.mem,
        final(service)@ == (BackendView { mem: final(s)@, ..old(service)@ }),
{
    service.mem_store()
}

} // verus!
