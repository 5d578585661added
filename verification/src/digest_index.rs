//! The reverse index of the history log: from a digest to the epoch at which
//! it was appended.

use vstd::prelude::*;
use vstd::bytes::{spec_u64_from_le_bytes, u64_from_le_bytes};
use vstd::slice::{slice_subrange, slice_to_vec};
use std::collections::HashMap;
use crate::encoding::bytes_eq;

verus! {

broadcast use vstd::std_specs::hash::group_hash_axioms;

/// The epoch at which each digest was last appended: the reverse index of a
/// log. A digest that recurs is found at its latest epoch.
pub open spec fn epochs_by_digest(entries: Seq<Seq<u8>>) -> Map<Seq<u8>, u64>
    decreases entries.len(),
{
    if entries.len() == 0 {
        Map::empty()
    } else {
        epochs_by_digest(entries.drop_last()).insert(
            entries.last(),
            (entries.len() - 1) as u64,
        )
    }
}

/// A digest that occurs at `at` and nowhere after it is indexed at `at`.
pub proof fn lemma_indexed_at_last_occurrence(entries: Seq<Seq<u8>>, digest: Seq<u8>, at: int)
    requires
        0 <= at < entries.len() <= u64::MAX,
        entries[at] == digest,
        forall|k: int| at < k < entries.len() ==> entries[k] != digest,
    ensures
        epochs_by_digest(entries).contains_key(digest),
        epochs_by_digest(entries)[digest] == at,
    decreases entries.len(),
{
    if at < entries.len() - 1 {
        assert(entries.last() != digest);
        lemma_indexed_at_last_occurrence(entries.drop_last(), digest, at);
    }
}

/// A digest is indexed exactly when it occurs in the log, and then at an epoch
/// at which it occurs.
pub proof fn lemma_indexed_iff_occurs(entries: Seq<Seq<u8>>, digest: Seq<u8>)
    requires
        entries.len() <= u64::MAX,
    ensures
        epochs_by_digest(entries).contains_key(digest) <==> exists|k: int|
            0 <= k < entries.len() && entries[k] == digest,
        epochs_by_digest(entries).contains_key(digest) ==> {
            &&& epochs_by_digest(entries)[digest] < entries.len()
            &&& entries[epochs_by_digest(entries)[digest] as int] == digest
        },
    decreases entries.len(),
{
    if entries.len() > 0 {
        let front = entries.drop_last();
        lemma_indexed_iff_occurs(front, digest);
        if entries.last() == digest {
            assert(entries[entries.len() - 1] == digest);
        } else if epochs_by_digest(front).contains_key(digest) {
            let k = choose|k: int| 0 <= k < front.len() && front[k] == digest;
            assert(entries[k] == digest);
        } else {
            assert forall|k: int| 0 <= k < entries.len() implies entries[k] != digest by {
                if k < front.len() {
                    assert(front[k] == entries[k]);
                }
            }
        }
    }
}

/// The bucket that a digest is filed under: its first eight bytes as a number,
/// or zero where it has fewer.
pub open spec fn fingerprint(digest: Seq<u8>) -> u64 {
    if digest.len() >= 8 {
        spec_u64_from_le_bytes(digest.subrange(0, 8))
    } else {
        0
    }
}

/// The bucket that `digest` is filed under.
pub fn fingerprint_of(digest: &[u8]) -> (f: u64)
    ensures
        f == fingerprint(digest@),
{
    if digest.len() >= 8 {
        u64_from_le_bytes(slice_subrange(digest, 0, 8))
    } else {
        0
    }
}

/// The digests appended to a log, in order, with a hash map from the
/// fingerprint of a digest to the epochs at which a digest of that fingerprint
/// was appended.
pub struct DigestIndex {
    digests: Vec<Vec<u8>>,
    buckets: HashMap<u64, Vec<u64>>,
}

impl DigestIndex {
    /// The digests appended so far, by epoch.
    pub closed spec fn entries(&self) -> Seq<Seq<u8>> {
        Seq::new(self.digests@.len(), |i: int| self.digests@[i]@)
    }

    /// The epochs filed under a fingerprint.
    spec fn bucket(&self, f: u64) -> Seq<u64> {
        if self.buckets@.contains_key(f) {
            self.buckets@[f]@
        } else {
            Seq::empty()
        }
    }

    /// Each bucket holds, in increasing order, exactly the epochs of the
    /// digests of its fingerprint.
    pub closed spec fn wf(&self) -> bool {
        &&& self.entries().len() <= u64::MAX
        &&& forall|f: u64, j: int|
            0 <= j < self.bucket(f).len() ==> {
                &&& (#[trigger] self.bucket(f)[j]) < self.entries().len()
                &&& fingerprint(self.entries()[self.bucket(f)[j] as int]) == f
            }
        &&& forall|f: u64, i: int, j: int|
            0 <= i < j < self.bucket(f).len() ==> (#[trigger] self.bucket(f)[i]) < (
            #[trigger] self.bucket(f)[j])
        &&& forall|e: int|
            0 <= e < self.entries().len() ==> self.bucket(
                fingerprint(#[trigger] self.entries()[e]),
            ).contains(e as u64)
    }

    /// An index of no digest.
    pub fn new() -> (index: Self)
        ensures
            index.wf(),
            index.entries() == Seq::<Seq<u8>>::empty(),
    {
        let index = DigestIndex { digests: Vec::new(), buckets: HashMap::new() };
        proof {
            assert(index.entries() =~= Seq::<Seq<u8>>::empty());
        }
        index
    }

    /// Number of digests appended so far.
    pub fn len(&self) -> (n: usize)
        ensures
            n == self.entries().len(),
    {
        self.digests.len()
    }

    /// Append `digest`: it is indexed at the next epoch.
    pub fn push(&mut self, digest: &[u8])
        requires
            old(self).wf(),
            old(self).entries().len() < u64::MAX,
        ensures
            final(self).wf(),
            final(self).entries() == old(self).entries().push(digest@),
    {
        let f = fingerprint_of(digest);
        let epoch = self.digests.len() as u64;
        let mut bucket = match self.buckets.remove(&f) {
            Some(bucket) => bucket,
            None => Vec::new(),
        };
        assert(bucket@ == old(self).bucket(f));
        bucket.push(epoch);
        self.buckets.insert(f, bucket);
        self.digests.push(slice_to_vec(digest));
        proof {
            let before = old(self).entries();
            let after = self.entries();
            assert(after =~= before.push(digest@));
            assert(self.bucket(f) == old(self).bucket(f).push(epoch));
            assert forall|g: u64| g != f implies self.bucket(g) == old(self).bucket(g) by {}
            assert forall|g: u64, j: int| 0 <= j < self.bucket(g).len() implies {
                &&& (#[trigger] self.bucket(g)[j]) < after.len()
                &&& fingerprint(after[self.bucket(g)[j] as int]) == g
            } by {
                if g != f || j < old(self).bucket(f).len() {
                    assert(self.bucket(g)[j] == old(self).bucket(g)[j]);
                    assert(old(self).bucket(g)[j] < before.len());
                }
            }
            assert forall|g: u64, i: int, j: int| 0 <= i < j < self.bucket(g).len() implies (
            #[trigger] self.bucket(g)[i]) < (#[trigger] self.bucket(g)[j]) by {
                if g != f || j < old(self).bucket(f).len() {
                    assert(self.bucket(g)[i] == old(self).bucket(g)[i]);
                    assert(self.bucket(g)[j] == old(self).bucket(g)[j]);
                } else {
                    assert(self.bucket(g)[i] == old(self).bucket(g)[i]);
                    assert(old(self).bucket(g)[i] < before.len());
                }
            }
            assert forall|e: int| 0 <= e < after.len() implies self.bucket(
                fingerprint(#[trigger] after[e]),
            ).contains(e as u64) by {
                let g = fingerprint(after[e]);
                if e < before.len() {
                    assert(after[e] == before[e]);
                    assert(old(self).bucket(g).contains(e as u64));
                    let j = choose|j: int|
                        0 <= j < old(self).bucket(g).len() && old(self).bucket(g)[j] == e as u64;
                    assert(self.bucket(g)[j] == e as u64);
                } else {
                    assert(self.bucket(f)[old(self).bucket(f).len() as int] == epoch);
                }
            }
        }
    }

    /// The epoch at which `digest` was last appended, `None` if it never was.
    pub fn get(&self, digest: &[u8]) -> (r: Option<u64>)
        requires
            self.wf(),
        ensures
            r == if epochs_by_digest(self.entries()).contains_key(digest@) {
                Some(epochs_by_digest(self.entries())[digest@])
            } else {
                None
            },
    {
        let f = fingerprint_of(digest);
        let bucket = match self.buckets.get(&f) {
            Some(bucket) => bucket,
            None => {
                proof {
                    assert(self.bucket(f).len() == 0);
                    assert forall|k: int| 0 <= k < self.entries().len() implies self.entries()[k]
                        != digest@ by {
                        assert(self.bucket(fingerprint(self.entries()[k])).contains(k as u64));
                    }
                    lemma_indexed_iff_occurs(self.entries(), digest@);
                }
                return None;
            },
        };
        assert(bucket@ == self.bucket(f));
        let n: usize = self.digests.len();
        let mut j: usize = bucket.len();
        while j > 0
            invariant
                self.wf(),
                self.entries().len() == self.digests@.len() == n,
                f == fingerprint(digest@),
                bucket@ == self.bucket(f),
                j <= bucket@.len(),
                forall|i: int| j <= i < bucket@.len() ==> self.entries()[bucket@[i] as int] != digest@,
            decreases j,
        {
            j = j - 1;
            let epoch = bucket[j];
            assert(self.bucket(f)[j as int] < self.entries().len());
            assert(epoch < n);
            let at: usize = epoch as usize;
            assert(self.entries()[at as int] == self.digests@[at as int]@);
            if bytes_eq(self.digests[at].as_slice(), digest) {
                proof {
                    assert(self.entries()[epoch as int] == digest@);
                    assert forall|k: int| epoch < k < self.entries().len() implies self.entries()[k]
                        != digest@ by {
                        if self.entries()[k] == digest@ {
                            assert(self.bucket(fingerprint(self.entries()[k])).contains(k as u64));
                            let i = choose|i: int|
                                0 <= i < self.bucket(f).len() && self.bucket(f)[i] == k as u64;
                            if i <= j {
                                if i < j {
                                    assert(self.bucket(f)[i] < self.bucket(f)[j as int]);
                                }
                            }
                        }
                    }
                    lemma_indexed_at_last_occurrence(self.entries(), digest@, epoch as int);
                }
                return Some(epoch);
            }
        }
        proof {
            assert forall|k: int| 0 <= k < self.entries().len() implies self.entries()[k]
                != digest@ by {
                if self.entries()[k] == digest@ {
                    assert(self.bucket(fingerprint(self.entries()[k])).contains(k as u64));
                    let i = choose|i: int|
                        0 <= i < self.bucket(f).len() && self.bucket(f)[i] == k as u64;
                    assert(self.entries()[bucket@[i] as int] != digest@);
                }
            }
            lemma_indexed_iff_occurs(self.entries(), digest@);
        }
        None
    }
}

} // verus!
