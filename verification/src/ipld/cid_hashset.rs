//! A set of content identifiers that keeps only a hash of each.

use std::collections::HashSet;
use vstd::prelude::*;

use super::cid::Cid;

verus! {

#[verifier::external_type_specification]
#[verifier::external_body]
pub struct ExRandomState(ahash::RandomState);

/// Trusted: `ahash::RandomState::hash_one`, with the state of the set. The
/// state is seeded anew in every process, so nothing is claimed of the hash.
#[verifier::external_body]
fn hash_of(set: &HashSet<u64, ahash::RandomState>, cid: &Cid) -> (hash: u64) {
    set.hasher().hash_one(cid)
}

/// Trusted: `HashSet::insert` on `ahash::HashSet<u64>`. The contract claims
/// that the key is in the set afterwards, that nothing else changed, and that
/// the result tells whether the key was new.
#[verifier::external_body]
fn insert_key(set: &mut HashSet<u64, ahash::RandomState>, key: u64) -> (fresh: bool)
    ensures
        final(set)@ == old(set)@.insert(key),
        fresh == !old(set)@.contains(key),
{
    set.insert(key)
}

/// Trusted: `HashSet::len` on `ahash::HashSet<u64>`. The contract claims that
/// the result is the number of keys in the set.
#[verifier::external_body]
fn count_keys(set: &HashSet<u64, ahash::RandomState>) -> (n: usize)
    ensures
        n == set@.len(),
{
    set.len()
}

/// A set of content identifiers, held as 64-bit hashes of them. Identifiers
/// with the same hash count as one.
pub struct CidHashSet(HashSet<u64, ahash::RandomState>);

impl Default for CidHashSet {
    fn default() -> (r: Self)
        ensures
            r.hashes() == Set::<u64>::empty(),
    {
        CidHashSet(HashSet::default())
    }
}

impl CidHashSet {
    /// The hashes that the set holds.
    pub closed spec fn hashes(&self) -> Set<u64> {
        self.0@
    }

    /// The set holds finitely many hashes.
    #[verifier::type_invariant]
    pub closed spec fn well_formed(&self) -> bool {
        self.0@.finite()
    }

    /// Adds the hash of an identifier. See `insert`.
    pub fn insert_hash<F: Fn(usize)>(&mut self, hash: u64, on_inserted: &F) -> (r: bool)
        requires
            forall|n: usize| call_requires(*on_inserted, (n,)),
        ensures
            final(self).hashes() == old(self).hashes().insert(hash),
            r == !old(self).hashes().contains(hash),
    {
        proof {
            use_type_invariant(&*self);
        }
        let mut taken = CidHashSet(HashSet::default());
        core::mem::swap(self, &mut taken);
        let mut set = taken.0;
        let fresh = insert_key(&mut set, hash);
        if fresh {
            on_inserted(count_keys(&set));
        }
        *self = CidHashSet(set);
        fresh
    }

    /// Adds an identifier to the set. Where its hash was not in the set,
    /// calls `on_inserted` with the number of hashes that the set then holds
    /// and returns `true`; else leaves the set as it was and returns `false`.
    /// Which hash an identifier has differs from process to process.
    pub fn insert<F: Fn(usize)>(&mut self, cid: &Cid, on_inserted: &F) -> (r: bool)
        requires
            forall|n: usize| call_requires(*on_inserted, (n,)),
        ensures
            exists|hash: u64|
                {
                    &&& final(self).hashes() == old(self).hashes().insert(hash)
                    &&& r == !old(self).hashes().contains(hash)
                },
    {
        let hash = hash_of(&self.0, cid);
        self.insert_hash(hash, on_inserted)
    }

    /// The number of hashes in the set.
    pub fn len(&self) -> (r: usize)
        ensures
            self.hashes().finite(),
            r == self.hashes().len(),
    {
        proof {
            use_type_invariant(self);
        }
        count_keys(&self.0)
    }

    /// Whether the set holds no hash.
    pub fn is_empty(&self) -> (r: bool)
        ensures
            r == self.hashes().is_empty(),
    {
        proof {
            use_type_invariant(self);
        }
        count_keys(&self.0) == 0
    }
}

} // verus!
