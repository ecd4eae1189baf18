use vstd::prelude::*;

verus! {

/// Keyed state that a processing layer owns: what it holds is `entries`,
/// and `remove` and `insert` act on it as on a map.
pub trait Store<K, V>: Sized {
    /// What the store holds.
    spec fn entries(&self) -> Map<K, V>;

    /// Takes the value under `key` out of the store.
    fn remove(&mut self, key: &K) -> (r: Option<V>)
        ensures
            r == old(self).entries().get(*key),
            final(self).entries() == old(self).entries().remove(*key),
    ;

    /// Puts `val` under `key`, replacing what was there.
    fn insert(&mut self, key: K, val: V)
        ensures
            final(self).entries() == old(self).entries().insert(key, val),
    ;
}

} // verus!
