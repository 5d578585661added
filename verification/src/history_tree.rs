//! The history log, the dictionary that publishes into it, and the proofs that
//! the dictionary hands out.

use vstd::prelude::*;
use vstd::slice::slice_to_vec;
use crate::crh::FixedLengthCrh;
use crate::digest_chain::{final_digest, hash_to_final_digest, Chained};
use crate::digest_index::{epochs_by_digest, lemma_indexed_iff_occurs, DigestIndex};
use crate::encoding::{bytes_eq, digest_to_bytes, leaf_of, LEAF_SIZE};
use crate::error::{Error, Fault};
use crate::merkle::{capacity, capacity_of, lemma_capacity_bound, MerkleAccumulator};
use crate::ssavd::{found, written, written_batch, Contents, LookupResult, SingleStepAvd};

verus! {

/// An append-only log of the digests that a dictionary has published, one per
/// epoch, kept in a Merkle accumulator and indexed by digest.
pub struct HistoryTree<M: MerkleAccumulator> {
    tree: M,
    digest_d: DigestIndex,
    epoch: u64,
}

impl<M: MerkleAccumulator> HistoryTree<M> {
    /// The digests appended so far, by epoch.
    pub closed spec fn entries(&self) -> Seq<Seq<u8>> {
        self.digest_d.entries()
    }

    /// The reverse index is in order.
    pub closed spec fn indexed(&self) -> bool {
        self.digest_d.wf()
    }

    /// Number of digests appended so far: the index of the next free leaf.
    pub closed spec fn spec_epoch(&self) -> u64 {
        self.epoch
    }

    /// Depth of the accumulator.
    pub closed spec fn depth(&self) -> nat {
        self.tree.spec_depth()
    }

    /// Leaves of the accumulator.
    pub closed spec fn leaves(&self) -> Seq<Seq<u8>> {
        self.tree.spec_leaves()
    }

    /// Root of the accumulator.
    pub closed spec fn spec_root(&self) -> Seq<u8> {
        self.tree.spec_root()
    }

    /// Parameters of the hash that the accumulator was built with.
    pub closed spec fn hash(&self) -> M::Hash {
        self.tree.spec_hash()
    }

    /// The log is well formed: one entry per epoch, each short enough to be
    /// encoded, and the leaf at each past epoch is the encoding of the digest
    /// appended then.
    pub open spec fn wf(&self) -> bool {
        &&& self.indexed()
        &&& self.leaves().len() == capacity(self.depth())
        &&& self.entries().len() == self.spec_epoch()
        &&& self.spec_epoch() <= capacity(self.depth())
        &&& forall|i: int|
            0 <= i < self.spec_epoch() ==> (#[trigger] self.entries()[i]).len() <= LEAF_SIZE
        &&& forall|i: int|
            0 <= i < self.spec_epoch() ==> #[trigger] self.leaves()[i] == leaf_of(
                self.entries()[i],
            )
    }

    /// Whether every leaf is written.
    pub open spec fn is_full(&self) -> bool {
        self.spec_epoch() == capacity(self.depth())
    }

    /// An empty log: epoch 0, no digest indexed, every leaf the 32 zero bytes.
    pub fn new(hash_parameters: &M::Hash) -> (r: Result<Self, Error>)
        ensures
            match r {
                Ok(log) => {
                    &&& log.wf()
                    &&& log.spec_epoch() == 0
                    &&& log.entries() == Seq::<Seq<u8>>::empty()
                    &&& log.hash() == *hash_parameters
                    &&& forall|i: int|
                        0 <= i < log.leaves().len() ==> #[trigger] log.leaves()[i] == Seq::new(
                            32,
                            |k: int| 0u8,
                        )
                },
                Err(e) => e is HashEvaluation,
            },
    {
        let default_leaf = [0u8; 32];
        let tree = match M::new(default_leaf.as_slice(), hash_parameters) {
            Ok(tree) => tree,
            Err(fault) => {
                return Err(Error::HashEvaluation(fault));
            },
        };
        let log = HistoryTree { tree, digest_d: DigestIndex::new(), epoch: 0 };
        proof {
            assert(default_leaf@ =~= Seq::new(32, |k: int| 0u8));
        }
        Ok(log)
    }

    /// Number of digests appended so far.
    pub fn epoch(&self) -> (epoch: u64)
        ensures
            epoch == self.spec_epoch(),
    {
        self.epoch
    }

    /// The current root of the accumulator.
    pub fn root(&self) -> (root: Vec<u8>)
        ensures
            root@ == self.spec_root(),
    {
        self.tree.root()
    }

    /// Number of digests that the log can hold.
    pub fn capacity(&self) -> (c: u64)
        ensures
            c == capacity(self.depth()),
    {
        capacity_of(self.tree.depth())
    }

    /// Append `digest` at the current epoch: its encoding becomes the leaf at
    /// that index, the digest is indexed at that epoch, and the epoch advances
    /// by one. A failure leaves the log as it was.
    pub fn append_digest(&mut self, digest: &[u8]) -> (r: Result<(), Error>)
        requires
            old(self).wf(),
        ensures
            final(self).wf(),
            final(self).depth() == old(self).depth(),
            final(self).hash() == old(self).hash(),
            match r {
                Ok(_) => {
                    &&& final(self).spec_epoch() == old(self).spec_epoch() + 1
                    &&& final(self).entries() == old(self).entries().push(digest@)
                    &&& final(self).leaves() == old(self).leaves().update(
                        old(self).spec_epoch() as int,
                        leaf_of(digest@),
                    )
                },
                Err(e) => {
                    &&& final(self).spec_epoch() == old(self).spec_epoch()
                    &&& final(self).entries() == old(self).entries()
                    &&& final(self).leaves() == old(self).leaves()
                    &&& final(self).spec_root() == old(self).spec_root()
                    &&& e is CapacityExhausted || e is EncodingOverflow || e is HashEvaluation
                },
            },
            r matches Err(e) ==> (e is CapacityExhausted <==> old(self).is_full()),
            r matches Err(e) ==> (e is EncodingOverflow <==> !old(self).is_full() && digest@.len()
                > LEAF_SIZE),
    {
        if self.epoch >= capacity_of(self.tree.depth()) {
            return Err(Error::CapacityExhausted);
        }
        let leaf = digest_to_bytes(digest)?;
        match self.tree.update(self.epoch, leaf.as_slice()) {
            Ok(_) => {},
            Err(fault) => {
                return Err(Error::HashEvaluation(fault));
            },
        }
        self.digest_d.push(digest);
        self.epoch = self.epoch + 1;
        proof {
            assert forall|i: int| 0 <= i < self.spec_epoch() implies #[trigger] self.leaves()[i]
                == leaf_of(self.entries()[i]) by {
                if i < old(self).spec_epoch() {
                    assert(old(self).leaves()[i] == leaf_of(old(self).entries()[i]));
                }
            }
            assert forall|i: int| 0 <= i < self.spec_epoch() implies (#[trigger] self.entries()[
                i
            ]).len() <= LEAF_SIZE by {
                if i < old(self).spec_epoch() {
                    assert(old(self).entries()[i].len() <= LEAF_SIZE);
                }
            }
        }
        Ok(())
    }

    /// The inclusion path of the leaf at `epoch` under the current root. Fails
    /// with `IndexOutOfRange` exactly when `epoch` is not below the capacity.
    pub fn lookup_path(&self, epoch: u64) -> (r: Result<M::Path, Error>)
        requires
            self.wf(),
        ensures
            match r {
                Ok(path) => epoch < capacity(self.depth()) && M::spec_verify(
                    path,
                    self.spec_root(),
                    self.leaves()[epoch as int],
                    epoch,
                    self.hash(),
                ) == Some(true),
                Err(e) => if epoch >= capacity(self.depth()) {
                    e is IndexOutOfRange
                } else {
                    e is HashEvaluation
                },
            },
    {
        if epoch >= capacity_of(self.tree.depth()) {
            return Err(Error::IndexOutOfRange);
        }
        match self.tree.lookup(epoch) {
            Ok(path) => Ok(path),
            Err(fault) => Err(Error::HashEvaluation(fault)),
        }
    }

    /// The epoch at which `digest` was last appended, `None` if it never was.
    pub fn lookup_digest(&self, digest: &[u8]) -> (r: Option<u64>)
        requires
            self.wf(),
        ensures
            r == if epochs_by_digest(self.entries()).contains_key(digest@) {
                Some(epochs_by_digest(self.entries())[digest@])
            } else {
                None
            },
    {
        self.digest_d.get(digest)
    }
}

/// A published digest: the final digest and the epoch it was current at.
#[derive(Clone, Debug, PartialEq, Eq, Hash)]
pub struct Digest {
    pub epoch: u64,
    pub digest: Vec<u8>,
}

/// Proof of one transition of the dictionary.
pub struct SingleStepUpdateProof<S: SingleStepAvd, M: MerkleAccumulator> {
    pub ssavd_proof: S::UpdateProof,
    pub history_tree_proof: M::Path,
    pub prev_ssavd_digest: Vec<u8>,
    pub new_ssavd_digest: Vec<u8>,
    pub prev_digest: Vec<u8>,
    pub new_digest: Vec<u8>,
    pub prev_epoch: u64,
}

impl<S: SingleStepAvd, M: MerkleAccumulator> Default for SingleStepUpdateProof<S, M> where
    S::UpdateProof: Default,
    M::Path: Default,
 {
    /// A placeholder: default sub-proofs, empty digests, epoch 0.
    fn default() -> (proof: Self)
        ensures
            proof.prev_ssavd_digest@ == Seq::<u8>::empty(),
            proof.new_ssavd_digest@ == Seq::<u8>::empty(),
            proof.prev_digest@ == Seq::<u8>::empty(),
            proof.new_digest@ == Seq::<u8>::empty(),
            proof.prev_epoch == 0,
    {
        SingleStepUpdateProof {
            ssavd_proof: Default::default(),
            history_tree_proof: Default::default(),
            prev_ssavd_digest: Vec::new(),
            new_ssavd_digest: Vec::new(),
            prev_digest: Vec::new(),
            new_digest: Vec::new(),
            prev_epoch: 0,
        }
    }
}

/// Proof of a lookup under a published digest.
pub struct LookupProof<S: SingleStepAvd> {
    pub ssavd_proof: S::LookupProof,
    pub ssavd_digest: Vec<u8>,
    pub history_tree_digest: Vec<u8>,
}

/// Proof that an earlier digest is an ancestor of the current one.
pub struct HistoryProof<M: MerkleAccumulator> {
    pub history_tree_proof: M::Path,
    pub ssavd_digest: Vec<u8>,
    pub history_tree_digest: Vec<u8>,
}

/// What a verifier finds.
pub enum Verdict {
    /// Both checks pass.
    Accepted,
    /// One of the checks does not pass.
    Rejected,
    /// The inner dictionary could not check its proof.
    InnerFailed,
    /// A digest does not fit the buffer it has to be written into.
    Overflow,
    /// The hash primitive failed, called directly or by the Merkle accumulator.
    HashFailed,
}

/// Whether `r` reports the verdict `verdict`.
pub open spec fn tells(r: Result<bool, Error>, verdict: Verdict) -> bool {
    match r {
        Ok(true) => verdict == Verdict::Accepted,
        Ok(false) => verdict == Verdict::Rejected,
        Err(Error::InnerDictionary(_)) => verdict == Verdict::InnerFailed,
        Err(Error::EncodingOverflow) => verdict == Verdict::Overflow,
        Err(Error::HashEvaluation(_)) => verdict == Verdict::HashFailed,
        Err(_) => false,
    }
}

/// Whether `value` is the final digest of `(inner, root, epoch)`.
pub open spec fn digest_verdict<H: FixedLengthCrh>(
    hash: &H,
    inner: Seq<u8>,
    root: Seq<u8>,
    epoch: u64,
    value: Seq<u8>,
) -> Verdict {
    match final_digest(hash, inner, root, epoch) {
        Chained::Digest(expected) => if expected == value {
            Verdict::Accepted
        } else {
            Verdict::Rejected
        },
        Chained::Overflow => Verdict::Overflow,
        Chained::HashFailed => Verdict::HashFailed,
    }
}

/// Compare a published digest with the final digest of `(inner, root, epoch)`.
fn check_digest<H: FixedLengthCrh>(
    hash: &H,
    inner: &[u8],
    root: &[u8],
    digest: &Digest,
) -> (r: Result<bool, Error>)
    ensures
        tells(r, digest_verdict(hash, inner@, root@, digest.epoch, digest.digest@)),
{
    let expected = hash_to_final_digest(hash, inner, root, &digest.epoch)?;
    Ok(bytes_eq(digest.digest.as_slice(), expected.as_slice()))
}

/// An authenticated dictionary with full history: an inner dictionary, the
/// log of every digest published so far, and the current final digest.
pub struct SingleStepAVDWithHistory<S: SingleStepAvd, M: MerkleAccumulator> {
    ssavd: S,
    history_tree: HistoryTree<M>,
    digest: Vec<u8>,
}

impl<S: SingleStepAvd, M: MerkleAccumulator> SingleStepAVDWithHistory<S, M> {
    /// Number of writes completed: the epoch of the current digest.
    pub closed spec fn spec_epoch(&self) -> u64 {
        self.history_tree.spec_epoch()
    }

    /// The current final digest.
    pub closed spec fn digest_value(&self) -> Seq<u8> {
        self.digest@
    }

    /// The final digests that were current before each write, by epoch.
    pub closed spec fn history(&self) -> Seq<Seq<u8>> {
        self.history_tree.entries()
    }

    /// What the dictionary holds.
    pub closed spec fn contents(&self) -> Contents {
        self.ssavd.spec_contents()
    }

    /// The current digest of the inner dictionary.
    pub closed spec fn inner_digest(&self) -> Seq<u8> {
        self.ssavd.spec_digest()
    }

    /// The parameters that the inner dictionary was made with.
    pub closed spec fn public_parameters(&self) -> S::PublicParameters {
        self.ssavd.spec_public_parameters()
    }

    /// The current root of the history log.
    pub closed spec fn history_root(&self) -> Seq<u8> {
        self.history_tree.spec_root()
    }

    /// The leaves of the history log.
    pub closed spec fn history_leaves(&self) -> Seq<Seq<u8>> {
        self.history_tree.leaves()
    }

    /// Parameters of the hash that folds the digests.
    pub closed spec fn hash(&self) -> M::Hash {
        self.history_tree.hash()
    }

    /// Depth of the history log.
    pub closed spec fn depth(&self) -> nat {
        self.history_tree.depth()
    }

    /// The history log is well formed.
    pub closed spec fn wf(&self) -> bool {
        self.history_tree.wf()
    }

    /// The current final digest is the fold of the current inner digest, the
    /// current history root and the epoch. It holds once `new` or a write has
    /// succeeded, and until a write fails after the inner dictionary took it.
    pub open spec fn consistent(&self) -> bool {
        final_digest(&self.hash(), self.inner_digest(), self.history_root(), self.spec_epoch())
            == Chained::Digest(self.digest_value())
    }

    /// No further write is possible.
    pub open spec fn exhausted(&self) -> bool {
        self.spec_epoch() == capacity(self.depth())
    }

    /// What a well-formed dictionary holds of its history.
    pub proof fn lemma_wf(&self)
        requires
            self.wf(),
        ensures
            self.history().len() == self.spec_epoch(),
            self.spec_epoch() <= capacity(self.depth()),
            self.history_leaves().len() == capacity(self.depth()),
            forall|i: int|
                0 <= i < self.spec_epoch() ==> (#[trigger] self.history()[i]).len() <= LEAF_SIZE,
            forall|i: int|
                0 <= i < self.spec_epoch() ==> #[trigger] self.history_leaves()[i] == leaf_of(
                    self.history()[i],
                ),
    {
    }

    /// `next` is what a successful write with the proof `proof` makes of `self`.
    pub open spec fn advances_to(&self, next: &Self, proof: &SingleStepUpdateProof<S, M>) -> bool {
        &&& next.wf()
        &&& next.consistent()
        &&& !self.exhausted()
        &&& next.spec_epoch() == self.spec_epoch() + 1
        &&& next.history() == self.history().push(self.digest_value())
        &&& next.public_parameters() == self.public_parameters()
        &&& next.hash() == self.hash()
        &&& next.depth() == self.depth()
        &&& proof.prev_epoch == self.spec_epoch()
        &&& proof.prev_digest@ == self.digest_value()
        &&& proof.new_digest@ == next.digest_value()
        &&& proof.prev_ssavd_digest@ == self.inner_digest()
        &&& proof.new_ssavd_digest@ == next.inner_digest()
        &&& M::spec_verify(
            proof.history_tree_proof,
            next.history_root(),
            leaf_of(self.digest_value()),
            self.spec_epoch(),
            next.hash(),
        ) == Some(true)
    }

    /// `next` is what a write that failed with `e` leaves of `self`: the
    /// published digest and the history are as they were. Where the write was
    /// refused before the inner dictionary took it, nothing has changed.
    pub open spec fn fails_to(&self, next: &Self, e: Error) -> bool {
        &&& next.wf()
        &&& next.spec_epoch() == self.spec_epoch()
        &&& next.digest_value() == self.digest_value()
        &&& next.history() == self.history()
        &&& next.public_parameters() == self.public_parameters()
        &&& next.hash() == self.hash()
        &&& next.depth() == self.depth()
        &&& !(e is IndexOutOfRange)
        &&& e is CapacityExhausted <==> self.exhausted()
        &&& !self.exhausted() && self.digest_value().len() > LEAF_SIZE ==> e is EncodingOverflow
        &&& e is CapacityExhausted || e is InnerDictionary || self.digest_value().len()
            > LEAF_SIZE ==> {
            &&& next.contents() == self.contents()
            &&& next.inner_digest() == self.inner_digest()
            &&& next.history_root() == self.history_root()
            &&& next.history_leaves() == self.history_leaves()
        }
    }

    /// Draw the parameters of the inner dictionary and of the hash.
    pub fn setup<R: rand::Rng>(rng: &mut R) -> (r: Result<(S::PublicParameters, M::Hash), Error>)
        ensures
            r matches Err(e) ==> e is InnerDictionary || e is HashEvaluation,
    {
        let ssavd_pp = drawn_inner_parameters(S::setup(rng))?;
        drawn_parameters(ssavd_pp, M::Hash::setup(rng))
    }

    /// An empty dictionary at epoch 0, with an empty history, every leaf of
    /// the log the 32 zero bytes, and the final digest of its empty inner
    /// dictionary and empty log.
    pub fn new<R: rand::Rng>(
        rng: &mut R,
        ssavd_pp: &S::PublicParameters,
        history_tree_parameters: &M::Hash,
    ) -> (r: Result<Self, Error>)
        ensures
            match r {
                Ok(avd) => {
                    &&& avd.wf()
                    &&& avd.consistent()
                    &&& avd.spec_epoch() == 0
                    &&& avd.history() == Seq::<Seq<u8>>::empty()
                    &&& avd.contents() == Contents::empty()
                    &&& forall|i: int|
                        0 <= i < avd.history_leaves().len() ==> #[trigger] avd.history_leaves()[i]
                            == Seq::new(32, |k: int| 0u8)
                    &&& avd.public_parameters() == *ssavd_pp
                    &&& avd.hash() == *history_tree_parameters
                },
                Err(e) => e is InnerDictionary || e is HashEvaluation || e is EncodingOverflow,
            },
    {
        let ssavd = match S::new(rng, ssavd_pp) {
            Ok(ssavd) => ssavd,
            Err(fault) => {
                return Err(Error::InnerDictionary(fault));
            },
        };
        let history_tree = HistoryTree::<M>::new(history_tree_parameters)?;
        let ssavd_digest = match ssavd.digest() {
            Ok(digest) => digest,
            Err(fault) => {
                return Err(Error::InnerDictionary(fault));
            },
        };
        let root = history_tree.root();
        let epoch = history_tree.epoch();
        let digest = hash_to_final_digest(
            history_tree_parameters,
            ssavd_digest.as_slice(),
            root.as_slice(),
            &epoch,
        )?;
        Ok(SingleStepAVDWithHistory { ssavd, history_tree, digest })
    }

    /// The current digest and its epoch.
    pub fn digest(&self) -> (d: Digest)
        ensures
            d.epoch == self.spec_epoch(),
            d.digest@ == self.digest_value(),
    {
        Digest { epoch: self.history_tree.epoch(), digest: slice_to_vec(self.digest.as_slice()) }
    }
}

impl<S: SingleStepAvd, M: MerkleAccumulator> SingleStepAVDWithHistory<S, M> {
    /// What a write needs before the inner dictionary is touched: a free leaf,
    /// the leaf that the current digest becomes, and the inner digest.
    fn prepare(&self) -> (r: Result<([u8; 128], Vec<u8>), Error>)
        requires
            self.wf(),
        ensures
            match r {
                Ok((leaf, ssavd_digest)) => {
                    &&& !self.exhausted()
                    &&& self.digest_value().len() <= LEAF_SIZE
                    &&& leaf@ == leaf_of(self.digest_value())
                    &&& ssavd_digest@ == self.inner_digest()
                },
                Err(e) => {
                    &&& e is CapacityExhausted || e is EncodingOverflow || e is InnerDictionary
                    &&& e is CapacityExhausted <==> self.exhausted()
                    &&& !self.exhausted() && self.digest_value().len() > LEAF_SIZE
                        ==> e is EncodingOverflow
                },
            },
    {
        if self.history_tree.epoch() >= self.history_tree.capacity() {
            return Err(Error::CapacityExhausted);
        }
        let leaf = digest_to_bytes(self.digest.as_slice())?;
        match self.ssavd.digest() {
            Ok(ssavd_digest) => Ok((leaf, ssavd_digest)),
            Err(fault) => Err(Error::InnerDictionary(fault)),
        }
    }

    /// Publish the transition that the inner dictionary has made: append the
    /// digest that was current to the log, fold the new digest, and advance.
    fn publish(
        &mut self,
        leaf: &[u8; 128],
        prev_ssavd_digest: Vec<u8>,
        new_ssavd_digest: Vec<u8>,
        ssavd_proof: S::UpdateProof,
    ) -> (r: Result<SingleStepUpdateProof<S, M>, Error>)
        requires
            old(self).wf(),
            !old(self).exhausted(),
            old(self).digest_value().len() <= LEAF_SIZE,
            leaf@ == leaf_of(old(self).digest_value()),
            new_ssavd_digest@ == old(self).inner_digest(),
        ensures
            final(self).wf(),
            final(self).public_parameters() == old(self).public_parameters(),
            final(self).contents() == old(self).contents(),
            final(self).inner_digest() == old(self).inner_digest(),
            final(self).hash() == old(self).hash(),
            final(self).depth() == old(self).depth(),
            match r {
                Ok(proof) => {
                    &&& final(self).consistent()
                    &&& final(self).spec_epoch() == old(self).spec_epoch() + 1
                    &&& final(self).history() == old(self).history().push(old(self).digest_value())
                    &&& proof.prev_epoch == old(self).spec_epoch()
                    &&& proof.prev_digest@ == old(self).digest_value()
                    &&& proof.new_digest@ == final(self).digest_value()
                    &&& proof.prev_ssavd_digest == prev_ssavd_digest
                    &&& proof.new_ssavd_digest == new_ssavd_digest
                    &&& M::spec_verify(
                        proof.history_tree_proof,
                        final(self).history_root(),
                        leaf_of(old(self).digest_value()),
                        old(self).spec_epoch(),
                        final(self).hash(),
                    ) == Some(true)
                },
                Err(e) => {
                    &&& final(self).spec_epoch() == old(self).spec_epoch()
                    &&& final(self).digest_value() == old(self).digest_value()
                    &&& final(self).history() == old(self).history()
                    &&& e is EncodingOverflow || e is HashEvaluation
                },
            },
    {
        let prev_epoch = self.history_tree.epoch;
        match self.history_tree.tree.update(prev_epoch, leaf.as_slice()) {
            Ok(_) => {},
            Err(fault) => {
                return Err(Error::HashEvaluation(fault));
            },
        }
        proof {
            let log = self.history_tree;
            assert forall|i: int| 0 <= i < log.spec_epoch() implies #[trigger] log.leaves()[i]
                == leaf_of(log.entries()[i]) by {
                assert(old(self).history_tree.leaves()[i] == leaf_of(
                    old(self).history_tree.entries()[i],
                ));
            }
        }
        let history_tree_proof = match self.history_tree.tree.lookup(prev_epoch) {
            Ok(path) => path,
            Err(fault) => {
                return Err(Error::HashEvaluation(fault));
            },
        };
        let root = self.history_tree.tree.root();
        proof {
            lemma_capacity_bound(self.history_tree.depth());
        }
        let new_epoch = prev_epoch + 1;
        let new_digest = hash_to_final_digest(
            self.history_tree.tree.hash_parameters(),
            new_ssavd_digest.as_slice(),
            root.as_slice(),
            &new_epoch,
        )?;
        let prev_digest = slice_to_vec(self.digest.as_slice());
        self.history_tree.digest_d.push(self.digest.as_slice());
        self.history_tree.epoch = new_epoch;
        self.digest = slice_to_vec(new_digest.as_slice());
        proof {
            let log = self.history_tree;
            assert forall|i: int| 0 <= i < log.spec_epoch() implies #[trigger] log.leaves()[i]
                == leaf_of(log.entries()[i]) by {
                if i < prev_epoch {
                    assert(old(self).history_tree.leaves()[i] == leaf_of(
                        old(self).history_tree.entries()[i],
                    ));
                }
            }
            assert forall|i: int| 0 <= i < log.spec_epoch() implies (#[trigger] log.entries()[
                i
            ]).len() <= LEAF_SIZE by {
                if i < prev_epoch {
                    assert(old(self).history_tree.entries()[i].len() <= LEAF_SIZE);
                }
            }
        }
        Ok(
            SingleStepUpdateProof {
                ssavd_proof,
                history_tree_proof,
                prev_ssavd_digest,
                new_ssavd_digest,
                prev_digest,
                new_digest,
                prev_epoch,
            },
        )
    }

    /// Write `value` under `key` and publish the transition: the digest that
    /// was current is appended to the history at the epoch that was current,
    /// and the new final digest is that of the new inner digest and the new
    /// history root at the next epoch.
    ///
    /// A dictionary whose log is full refuses every write with
    /// `CapacityExhausted`, and refuses no write with it before.
    pub fn update(&mut self, key: &[u8; 32], value: &[u8; 32]) -> (r: Result<
        SingleStepUpdateProof<S, M>,
        Error,
    >)
        requires
            old(self).wf(),
        ensures
            match r {
                Ok(proof) => old(self).advances_to(final(self), &proof) && written(
                    old(self).contents(),
                    final(self).contents(),
                    *key,
                    *value,
                ),
                Err(e) => old(self).fails_to(final(self), e),
            },
    {
        let (leaf, prev_ssavd_digest) = self.prepare()?;
        let (new_ssavd_digest, ssavd_proof) = match self.ssavd.update(key, value) {
            Ok(taken) => taken,
            Err(fault) => {
                return Err(Error::InnerDictionary(fault));
            },
        };
        self.publish(&leaf, prev_ssavd_digest, new_ssavd_digest, ssavd_proof)
    }

    /// Write every pair of `kvs` as one transition and publish it as `update`
    /// does: one epoch is consumed, whatever the number of pairs.
    pub fn batch_update(&mut self, kvs: &Vec<([u8; 32], [u8; 32])>) -> (r: Result<
        SingleStepUpdateProof<S, M>,
        Error,
    >)
        requires
            old(self).wf(),
        ensures
            match r {
                Ok(proof) => old(self).advances_to(final(self), &proof) && written_batch(
                    old(self).contents(),
                    final(self).contents(),
                    kvs@,
                ),
                Err(e) => old(self).fails_to(final(self), e),
            },
    {
        let (leaf, prev_ssavd_digest) = self.prepare()?;
        let (new_ssavd_digest, ssavd_proof) = match self.ssavd.batch_update(kvs) {
            Ok(taken) => taken,
            Err(fault) => {
                return Err(Error::InnerDictionary(fault));
            },
        };
        self.publish(&leaf, prev_ssavd_digest, new_ssavd_digest, ssavd_proof)
    }
}

/// What a verifier of a lookup finds: the inner dictionary must accept its
/// proof, and the published digest must be the final digest of the inner digest
/// and the history root that the proof names, at the published epoch. Where
/// the inner dictionary rejects, the digest is not looked at.
pub open spec fn lookup_verdict<S: SingleStepAvd, H: FixedLengthCrh>(
    ssavd_pp: S::PublicParameters,
    hash: &H,
    key: [u8; 32],
    value: LookupResult,
    digest: &Digest,
    proof: &LookupProof<S>,
) -> Verdict {
    match S::spec_verify_lookup(ssavd_pp, key, value, proof.ssavd_digest@, proof.ssavd_proof) {
        None => Verdict::InnerFailed,
        Some(false) => Verdict::Rejected,
        Some(true) => digest_verdict(
            hash,
            proof.ssavd_digest@,
            proof.history_tree_digest@,
            digest.epoch,
            digest.digest@,
        ),
    }
}

/// What a verifier of a history proof finds: the path must show the encoding of
/// the earlier digest at the earlier epoch under the history root that the
/// proof names, and the current digest must be the final digest of the inner
/// digest and that root, at the current epoch. Where the path is rejected, the
/// current digest is not looked at.
pub open spec fn history_verdict<M: MerkleAccumulator>(
    hash: &M::Hash,
    prev_digest: &Digest,
    current_digest: &Digest,
    proof: &HistoryProof<M>,
) -> Verdict {
    if prev_digest.digest@.len() > LEAF_SIZE {
        Verdict::Overflow
    } else {
        match M::spec_verify(
            proof.history_tree_proof,
            proof.history_tree_digest@,
            leaf_of(prev_digest.digest@),
            prev_digest.epoch,
            *hash,
        ) {
            None => Verdict::HashFailed,
            Some(false) => Verdict::Rejected,
            Some(true) => digest_verdict(
                hash,
                proof.ssavd_digest@,
                proof.history_tree_digest@,
                current_digest.epoch,
                current_digest.digest@,
            ),
        }
    }
}

impl<S: SingleStepAvd, M: MerkleAccumulator> SingleStepAVDWithHistory<S, M> {
    /// `value` is what the dictionary holds under `key`, and `proof` is what a
    /// lookup that found it hands out: the inner dictionary's proof, checked
    /// by the inner dictionary, with the inner digest and the history root of
    /// the moment.
    pub open spec fn looked_up(
        &self,
        key: [u8; 32],
        value: LookupResult,
        proof: &LookupProof<S>,
    ) -> bool {
        &&& value == found(self.contents(), key)
        &&& proof.ssavd_digest@ == self.inner_digest()
        &&& proof.history_tree_digest@ == self.history_root()
        &&& S::spec_verify_lookup(
            self.public_parameters(),
            key,
            value,
            proof.ssavd_digest@,
            proof.ssavd_proof,
        ) == Some(true)
    }

    /// The digest `(epoch, value)` was published: the history holds `value`,
    /// last at `epoch`.
    pub open spec fn published(&self, epoch: u64, value: Seq<u8>) -> bool {
        epochs_by_digest(self.history()).contains_key(value) && epochs_by_digest(
            self.history(),
        )[value] == epoch
    }

    /// `proof` is what a history lookup of the digest `(epoch, value)` hands
    /// out: a path that shows its encoding at `epoch` under the current history
    /// root, with the inner digest and the history root of the moment.
    pub open spec fn traced(&self, epoch: u64, value: Seq<u8>, proof: &HistoryProof<M>) -> bool {
        &&& proof.ssavd_digest@ == self.inner_digest()
        &&& proof.history_tree_digest@ == self.history_root()
        &&& M::spec_verify(
            proof.history_tree_proof,
            self.history_root(),
            leaf_of(value),
            epoch,
            self.hash(),
        ) == Some(true)
    }

    /// Look `key` up in the inner dictionary, and hand out its answer with a
    /// proof against the current digest. Nothing changes.
    pub fn lookup(&self, key: &[u8; 32]) -> (r: Result<(LookupResult, LookupProof<S>), Error>)
        ensures
            match r {
                Ok((value, proof)) => self.looked_up(*key, value, &proof),
                Err(e) => e is InnerDictionary,
            },
    {
        match self.ssavd.lookup(key) {
            Ok((value, ssavd_digest, ssavd_proof)) => Ok(
                (
                    value,
                    LookupProof {
                        ssavd_proof,
                        ssavd_digest,
                        history_tree_digest: self.history_tree.root(),
                    },
                ),
            ),
            Err(fault) => Err(Error::InnerDictionary(fault)),
        }
    }

    /// Check a lookup against a published digest.
    pub fn verify_lookup(
        ssavd_pp: &S::PublicParameters,
        history_tree_pp: &M::Hash,
        key: &[u8; 32],
        value: &LookupResult,
        digest: &Digest,
        proof: &LookupProof<S>,
    ) -> (r: Result<bool, Error>)
        ensures
            tells(r, lookup_verdict(*ssavd_pp, history_tree_pp, *key, *value, digest, proof)),
    {
        let accepted = match S::verify_lookup(
            ssavd_pp,
            key,
            value,
            proof.ssavd_digest.as_slice(),
            &proof.ssavd_proof,
        ) {
            Ok(accepted) => accepted,
            Err(fault) => {
                return Err(Error::InnerDictionary(fault));
            },
        };
        if !accepted {
            return Ok(false);
        }
        check_digest(
            history_tree_pp,
            proof.ssavd_digest.as_slice(),
            proof.history_tree_digest.as_slice(),
            digest,
        )
    }

    /// A proof that `prev_digest` is an ancestor of the current digest, or
    /// `None` where it was never published: where the history does not hold its
    /// value, or holds it last at another epoch.
    pub fn lookup_history(&self, prev_digest: &Digest) -> (r: Result<
        Option<HistoryProof<M>>,
        Error,
    >)
        requires
            self.wf(),
        ensures
            match r {
                Ok(Some(proof)) => self.published(prev_digest.epoch, prev_digest.digest@)
                    && self.traced(prev_digest.epoch, prev_digest.digest@, &proof),
                Ok(None) => !self.published(prev_digest.epoch, prev_digest.digest@),
                Err(e) => self.published(prev_digest.epoch, prev_digest.digest@) && (e
                    is HashEvaluation || e is InnerDictionary),
            },
    {
        let found = match self.history_tree.lookup_digest(prev_digest.digest.as_slice()) {
            Some(epoch) => epoch == prev_digest.epoch,
            None => false,
        };
        if !found {
            return Ok(None);
        }
        proof {
            lemma_indexed_iff_occurs(self.history_tree.entries(), prev_digest.digest@);
        }
        let history_tree_proof = match self.history_tree.lookup_path(prev_digest.epoch) {
            Ok(path) => path,
            Err(Error::IndexOutOfRange) => {
                return Ok(None);
            },
            Err(e) => {
                return Err(e);
            },
        };
        match self.ssavd.digest() {
            Ok(ssavd_digest) => Ok(
                Some(
                    HistoryProof {
                        history_tree_proof,
                        ssavd_digest,
                        history_tree_digest: self.history_tree.root(),
                    },
                ),
            ),
            Err(fault) => Err(Error::InnerDictionary(fault)),
        }
    }

    /// Check a history proof: that `prev_digest` is an ancestor of
    /// `current_digest`.
    pub fn verify_history(
        history_tree_pp: &M::Hash,
        prev_digest: &Digest,
        current_digest: &Digest,
        proof: &HistoryProof<M>,
    ) -> (r: Result<bool, Error>)
        ensures
            tells(r, history_verdict(history_tree_pp, prev_digest, current_digest, proof)),
    {
        let leaf = digest_to_bytes(prev_digest.digest.as_slice())?;
        let included = match M::verify_path(
            &proof.history_tree_proof,
            proof.history_tree_digest.as_slice(),
            leaf.as_slice(),
            prev_digest.epoch,
            history_tree_pp,
        ) {
            Ok(included) => included,
            Err(fault) => {
                return Err(Error::HashEvaluation(fault));
            },
        };
        if !included {
            return Ok(false);
        }
        check_digest(
            history_tree_pp,
            proof.ssavd_digest.as_slice(),
            proof.history_tree_digest.as_slice(),
            current_digest,
        )
    }
}

/// What `setup` makes of the draw of the inner dictionary: the parameters
/// that were drawn, or the failure of the draw as `InnerDictionary`.
pub fn drawn_inner_parameters<P>(drawn: Result<P, Fault>) -> (r: Result<P, Error>)
    ensures
        r == match drawn {
            Ok(ssavd_pp) => Ok::<P, Error>(ssavd_pp),
            Err(fault) => Err(Error::InnerDictionary(fault)),
        },
{
    match drawn {
        Ok(ssavd_pp) => Ok(ssavd_pp),
        Err(fault) => Err(Error::InnerDictionary(fault)),
    }
}

/// What `setup` returns once the inner dictionary has drawn `ssavd_pp`, for the
/// draw of the hash: the two sets of parameters, the inner dictionary's first,
/// or the failure of the draw as `HashEvaluation`.
pub fn drawn_parameters<P, H>(ssavd_pp: P, drawn: Result<H, Fault>) -> (r: Result<(P, H), Error>)
    ensures
        r == match drawn {
            Ok(hash_parameters) => Ok::<(P, H), Error>((ssavd_pp, hash_parameters)),
            Err(fault) => Err(Error::HashEvaluation(fault)),
        },
{
    match drawn {
        Ok(hash_parameters) => Ok((ssavd_pp, hash_parameters)),
        Err(fault) => Err(Error::HashEvaluation(fault)),
    }
}

} // verus!
