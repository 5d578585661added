//! The fixed-depth Merkle accumulator that backs the history log.

use vstd::prelude::*;
use vstd::arithmetic::power2::{lemma_pow2_pos, pow2};
use vstd::bits::{lemma_u64_pow2_no_overflow, lemma_u64_shl_is_mul};
use crate::crh::FixedLengthCrh;
use crate::error::Fault;

verus! {

/// Number of leaves that an accumulator of the given depth can be indexed by:
/// two to the power of the depth, as far as a 64-bit index reaches.
pub open spec fn capacity(depth: nat) -> nat {
    if depth < 64 {
        pow2(depth)
    } else {
        u64::MAX as nat
    }
}

/// Every index below the capacity is a 64-bit number.
pub proof fn lemma_capacity_bound(depth: nat)
    ensures
        0 < capacity(depth) <= u64::MAX,
{
    if depth < 64 {
        lemma_u64_pow2_no_overflow(depth);
        lemma_pow2_pos(depth);
    }
}

/// Number of leaves that a tree of the given depth can be indexed by.
pub fn capacity_of(depth: u8) -> (c: u64)
    ensures
        c == capacity(depth as nat),
{
    if depth >= 64 {
        u64::MAX
    } else {
        proof {
            lemma_u64_pow2_no_overflow(depth as nat);
            lemma_u64_shl_is_mul(1, depth as u64);
        }
        1u64 << (depth as u64)
    }
}

/// A Merkle tree of fixed depth over byte-string leaves, with inclusion paths
/// that bind a leaf to its index under a root.
///
/// The spec functions are the model that the contracts of the history log are
/// stated over. An implementation that is verified defines them. One that is
/// written outside the verifier cannot: it keeps the bodies given here, of
/// which nothing is known but that they are functions of their arguments, and
/// owes by its own means what the `ensures` clauses below say.
pub trait MerkleAccumulator: Sized {
    /// The hash that the tree is built with.
    type Hash: FixedLengthCrh;

    /// An inclusion path.
    type Path;

    /// Depth of the tree.
    closed spec fn spec_depth(&self) -> nat {
        arbitrary::<spec_fn(Self) -> nat>()(*self)
    }

    /// Parameters of the hash that the tree was built with.
    closed spec fn spec_hash(&self) -> Self::Hash {
        arbitrary::<spec_fn(Self) -> Self::Hash>()(*self)
    }

    /// The leaves, by index.
    closed spec fn spec_leaves(&self) -> Seq<Seq<u8>> {
        arbitrary::<spec_fn(Self) -> Seq<Seq<u8>>>()(*self)
    }

    /// The root that summarises the leaves.
    closed spec fn spec_root(&self) -> Seq<u8> {
        arbitrary::<spec_fn(Self) -> Seq<u8>>()(*self)
    }

    /// Whether `path` shows `leaf` at `index` under `root`, `None` where the
    /// check itself fails.
    closed spec fn spec_verify(
        path: Self::Path,
        root: Seq<u8>,
        leaf: Seq<u8>,
        index: u64,
        hash: Self::Hash,
    ) -> Option<bool> {
        arbitrary::<spec_fn(Self::Path, Seq<u8>, Seq<u8>, u64, Self::Hash) -> Option<bool>>()(
            path,
            root,
            leaf,
            index,
            hash,
        )
    }

    /// A tree in which every leaf is `default_leaf`.
    fn new(default_leaf: &[u8], hash_parameters: &Self::Hash) -> (r: Result<Self, Fault>)
        ensures
            r matches Ok(tree) ==> {
                &&& tree.spec_hash() == *hash_parameters
                &&& tree.spec_leaves().len() == capacity(tree.spec_depth())
                &&& forall|i: int|
                    0 <= i < tree.spec_leaves().len() ==> #[trigger] tree.spec_leaves()[i]
                        == default_leaf@
            },
    ;

    /// Depth of the tree.
    fn depth(&self) -> (d: u8)
        ensures
            d == self.spec_depth(),
    ;

    /// The current root.
    fn root(&self) -> (root: Vec<u8>)
        ensures
            root@ == self.spec_root(),
    ;

    /// Parameters of the hash that the tree was built with.
    fn hash_parameters(&self) -> (hash: &Self::Hash)
        ensures
            *hash == self.spec_hash(),
    ;

    /// Replace the leaf at `index`. A failure leaves the tree as it was.
    fn update(&mut self, index: u64, leaf: &[u8]) -> (r: Result<(), Fault>)
        requires
            index < capacity(old(self).spec_depth()),
            old(self).spec_leaves().len() == capacity(old(self).spec_depth()),
        ensures
            final(self).spec_depth() == old(self).spec_depth(),
            final(self).spec_hash() == old(self).spec_hash(),
            match r {
                Ok(_) => final(self).spec_leaves() == old(self).spec_leaves().update(
                    index as int,
                    leaf@,
                ),
                Err(_) => final(self).spec_leaves() == old(self).spec_leaves()
                    && final(self).spec_root() == old(self).spec_root(),
            },
    ;

    /// The inclusion path of the leaf at `index` under the current root. A path
    /// that is returned passes `verify_path`.
    fn lookup(&self, index: u64) -> (r: Result<Self::Path, Fault>)
        requires
            index < capacity(self.spec_depth()),
            self.spec_leaves().len() == capacity(self.spec_depth()),
        ensures
            r matches Ok(path) ==> Self::spec_verify(
                path,
                self.spec_root(),
                self.spec_leaves()[index as int],
                index,
                self.spec_hash(),
            ) == Some(true),
    ;

    /// Check that `path` shows `leaf` at `index` under `root`. The result, a
    /// failure included, depends on the five arguments alone.
    fn verify_path(
        path: &Self::Path,
        root: &[u8],
        leaf: &[u8],
        index: u64,
        hash_parameters: &Self::Hash,
    ) -> (r: Result<bool, Fault>)
        ensures
            match r {
                Ok(accepted) => Self::spec_verify(*path, root@, leaf@, index, *hash_parameters)
                    == Some(accepted),
                Err(_) => Self::spec_verify(*path, root@, leaf@, index, *hash_parameters)
                    is None,
            },
    ;
}

} // verus!
