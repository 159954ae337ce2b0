//! What the sync strategy asks of a block hash type.
use core::hash::Hash;
use vstd::prelude::*;

verus! {

broadcast use vstd::std_specs::hash::group_hash_axioms;

/// A block hash: a plain value that can be compared and kept in a hash table.
pub trait BlockHash: Copy + Eq + Hash {
    /// `==` on hashes is equality of values, and `Eq` and `Hash` agree in the way that
    /// a hash table relies on.
    proof fn lawful()
        ensures
            vstd::std_specs::hash::obeys_key_model::<Self>(),
            vstd::laws_eq::obeys_concrete_eq::<Self>(),
    ;
}

impl BlockHash for u64 {
    proof fn lawful() {
        reveal(vstd::laws_eq::obeys_concrete_eq);
    }
}

impl BlockHash for u128 {
    proof fn lawful() {
        reveal(vstd::laws_eq::obeys_concrete_eq);
    }
}

/// Whether two hashes are the same.
pub fn same_hash<H: BlockHash>(a: &H, b: &H) -> (same: bool)
    ensures
        same == (*a == *b),
{
    proof {
        H::lawful();
        reveal(vstd::laws_eq::obeys_concrete_eq);
    }
    *a == *b
}

} // verus!
