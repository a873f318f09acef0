//! The tracking count map: how many tracked files stand under each key.

use vstd::prelude::*;
use vstd::hash_map::StringHashMap;

verus! {

/// Counts of tracked files, keyed by top-level entry name.
///
/// A directory key ends with the separator; a plain file key does not.
pub struct TrackedCounts {
    counts: StringHashMap<u64>,
}

impl View for TrackedCounts {
    type V = Map<Seq<char>, nat>;

    closed spec fn view(&self) -> Map<Seq<char>, nat> {
        Map::new(
            |key: Seq<char>| self.counts@.contains_key(key),
            |key: Seq<char>| self.counts@[key] as nat,
        )
    }
}

impl TrackedCounts {
    /// Only finitely many keys have a count.
    #[verifier::type_invariant]
    spec fn finitely_many_keys(self) -> bool {
        self.counts@.dom().finite()
    }

    /// A map under which nothing is tracked.
    pub fn new() -> (counts: Self)
        ensures
            counts@ == Map::<Seq<char>, nat>::empty(),
    {
        let counts = TrackedCounts { counts: StringHashMap::new() };
        assert(counts@ =~= Map::<Seq<char>, nat>::empty());
        counts
    }

    /// The count recorded for `key`, if any.
    pub fn get(&self, key: &str) -> (count: Option<u64>)
        ensures
            count is Some <==> self@.contains_key(key@),
            count is Some ==> count->0 == self@[key@],
    {
        match self.counts.get(key) {
            Some(n) => Some(*n),
            None => None,
        }
    }

    /// Records `count` tracked files under `key`, replacing any earlier count.
    pub fn insert(&mut self, key: String, count: u64)
        ensures
            final(self)@ == old(self)@.insert(key@, count as nat),
    {
        proof {
            use_type_invariant(&*self);
        }
        // The map is moved out, changed and moved back in: the invariant
        // is then asked of the new value as a whole.
        let mut taken = TrackedCounts::new();
        std::mem::swap(self, &mut taken);
        let TrackedCounts { counts: mut map } = taken;
        map.insert(key, count);
        *self = TrackedCounts { counts: map };
        assert(self@ =~= old(self)@.insert(key@, count as nat));
    }

    /// The number of keys that have a count.
    pub fn len(&self) -> (n: usize)
        ensures
            self@.dom().finite(),
            n == self@.dom().len(),
    {
        broadcast use vstd::hash_map::group_hash_map_axioms;
        proof {
            use_type_invariant(self);
            assert(self@.dom() =~= self.counts@.dom());
        }
        self.counts.len()
    }
}

} // verus!
