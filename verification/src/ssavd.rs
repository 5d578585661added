//! The inner dictionary: an authenticated dictionary without history.

use vstd::prelude::*;
use crate::error::Fault;

verus! {

/// What a lookup finds under a key: the version of the entry and its value, or
/// nothing.
pub type LookupResult = Option<(u64, [u8; 32])>;

/// What a dictionary holds: under each key that was written, the version of
/// the entry and its value.
pub type Contents = Map<[u8; 32], (u64, [u8; 32])>;

/// What a lookup of `key` finds in `contents`.
pub open spec fn found(contents: Contents, key: [u8; 32]) -> LookupResult {
    if contents.contains_key(key) {
        Some(contents[key])
    } else {
        None
    }
}

/// `after` is `before` with `value` written under `key`: the key holds the
/// value, and every other key holds what it held.
pub open spec fn written(before: Contents, after: Contents, key: [u8; 32], value: [u8; 32]) -> bool {
    &&& after.contains_key(key)
    &&& after[key].1 == value
    &&& forall|k: [u8; 32]| k != key ==> #[trigger] found(after, k) == found(before, k)
}

/// Whether a pair of `kvs` has the key `key`.
pub open spec fn mentions(kvs: Seq<([u8; 32], [u8; 32])>, key: [u8; 32]) -> bool {
    exists|i: int| 0 <= i < kvs.len() && (#[trigger] kvs[i]).0 == key
}

/// `after` is `before` with the pairs of `kvs` written: a key that a pair
/// names holds the value of a pair that names it, and every other key holds
/// what it held.
pub open spec fn written_batch(
    before: Contents,
    after: Contents,
    kvs: Seq<([u8; 32], [u8; 32])>,
) -> bool {
    &&& forall|k: [u8; 32]| !mentions(kvs, k) ==> #[trigger] found(after, k) == found(before, k)
    &&& forall|k: [u8; 32]| #[trigger]
        mentions(kvs, k) ==> after.contains_key(k) && kvs.contains((k, after[k].1))
}

/// An authenticated dictionary over 32-byte keys and values that publishes a
/// digest of its contents and proves its lookups against that digest.
///
/// The spec functions are the model that the contracts of the full-history
/// dictionary are stated over. An implementation that is verified defines them.
/// One that is written outside the verifier cannot: it keeps the bodies given
/// here, of which nothing is known but that they are functions of their
/// arguments, and owes by its own means what the `ensures` clauses below say.
pub trait SingleStepAvd: Sized {
    type PublicParameters;

    type UpdateProof;

    type LookupProof;

    /// The parameters that the dictionary was made with.
    closed spec fn spec_public_parameters(&self) -> Self::PublicParameters {
        arbitrary::<spec_fn(Self) -> Self::PublicParameters>()(*self)
    }

    /// The current contents.
    closed spec fn spec_contents(&self) -> Contents {
        arbitrary::<spec_fn(Self) -> Contents>()(*self)
    }

    /// The digest of the current contents.
    closed spec fn spec_digest(&self) -> Seq<u8> {
        arbitrary::<spec_fn(Self) -> Seq<u8>>()(*self)
    }

    /// Whether `proof` shows that a lookup of `key` under `digest` finds
    /// `value`, `None` where the check itself fails.
    closed spec fn spec_verify_lookup(
        pp: Self::PublicParameters,
        key: [u8; 32],
        value: LookupResult,
        digest: Seq<u8>,
        proof: Self::LookupProof,
    ) -> Option<bool> {
        arbitrary::<
            spec_fn(Self::PublicParameters, [u8; 32], LookupResult, Seq<u8>, Self::LookupProof)
                -> Option<bool>,
        >()(pp, key, value, digest, proof)
    }

    /// Draw public parameters.
    fn setup<R: rand::Rng>(rng: &mut R) -> Result<Self::PublicParameters, Fault>;

    /// An empty dictionary.
    fn new<R: rand::Rng>(rng: &mut R, pp: &Self::PublicParameters) -> (r: Result<Self, Fault>)
        ensures
            r matches Ok(avd) ==> avd.spec_public_parameters() == *pp && avd.spec_contents()
                == Contents::empty(),
    ;

    /// The digest of the current contents.
    fn digest(&self) -> (r: Result<Vec<u8>, Fault>)
        ensures
            r matches Ok(digest) ==> digest@ == self.spec_digest(),
    ;

    /// Write `value` under `key`; returns the new digest and a proof of the
    /// transition. A failure leaves the dictionary as it was.
    fn update(&mut self, key: &[u8; 32], value: &[u8; 32]) -> (r: Result<
        (Vec<u8>, Self::UpdateProof),
        Fault,
    >)
        ensures
            final(self).spec_public_parameters() == old(self).spec_public_parameters(),
            match r {
                Ok((digest, _)) => {
                    &&& digest@ == final(self).spec_digest()
                    &&& written(
                        old(self).spec_contents(),
                        final(self).spec_contents(),
                        *key,
                        *value,
                    )
                },
                Err(_) => {
                    &&& final(self).spec_digest() == old(self).spec_digest()
                    &&& final(self).spec_contents() == old(self).spec_contents()
                },
            },
    ;

    /// Write every pair of `kvs` as one transition; returns the new digest and
    /// a proof of the transition. A failure leaves the dictionary as it was.
    fn batch_update(&mut self, kvs: &Vec<([u8; 32], [u8; 32])>) -> (r: Result<
        (Vec<u8>, Self::UpdateProof),
        Fault,
    >)
        ensures
            final(self).spec_public_parameters() == old(self).spec_public_parameters(),
            match r {
                Ok((digest, _)) => {
                    &&& digest@ == final(self).spec_digest()
                    &&& written_batch(
                        old(self).spec_contents(),
                        final(self).spec_contents(),
                        kvs@,
                    )
                },
                Err(_) => {
                    &&& final(self).spec_digest() == old(self).spec_digest()
                    &&& final(self).spec_contents() == old(self).spec_contents()
                },
            },
    ;

    /// Look `key` up; returns what was found, the digest it was found under and
    /// a proof. What is returned passes `verify_lookup`.
    fn lookup(&self, key: &[u8; 32]) -> (r: Result<
        (LookupResult, Vec<u8>, Self::LookupProof),
        Fault,
    >)
        ensures
            r matches Ok((value, digest, proof)) ==> {
                &&& value == found(self.spec_contents(), *key)
                &&& digest@ == self.spec_digest()
                &&& Self::spec_verify_lookup(
                    self.spec_public_parameters(),
                    *key,
                    value,
                    digest@,
                    proof,
                ) == Some(true)
            },
    ;

    /// Check a lookup. The result, a failure included, depends on the five
    /// arguments alone.
    fn verify_lookup(
        pp: &Self::PublicParameters,
        key: &[u8; 32],
        value: &LookupResult,
        digest: &[u8],
        proof: &Self::LookupProof,
    ) -> (r: Result<bool, Fault>)
        ensures
            match r {
                Ok(accepted) => Self::spec_verify_lookup(*pp, *key, *value, digest@, *proof)
                    == Some(accepted),
                Err(_) => Self::spec_verify_lookup(*pp, *key, *value, digest@, *proof) is None,
            },
    ;
}

} // verus!
