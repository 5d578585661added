//! The published digest: inner digest, history root and epoch folded into one
//! hash output by two evaluations of the hash primitive.

use vstd::prelude::*;
use vstd::bytes::{spec_u64_to_le_bytes, u64_to_le_bytes};
use crate::crh::FixedLengthCrh;
use crate::encoding::{pack_pair, packed_pair};
use crate::error::Error;

verus! {

/// What folding an inner digest, a history root and an epoch comes to.
pub enum Chained {
    /// The final digest.
    Digest(Seq<u8>),
    /// One of the two hash inputs does not fit the input size of the hash.
    Overflow,
    /// One of the two evaluations failed.
    HashFailed,
}

/// The final digest of `(inner, root, epoch)` under the parameters `hash`.
///
/// First the inner digest and the root are hashed together, each hash input
/// being zero-padded to the input size; then the epoch, as eight bytes with the
/// least significant first, is hashed together with that intermediate output.
pub open spec fn final_digest<H: FixedLengthCrh>(
    hash: &H,
    inner: Seq<u8>,
    root: Seq<u8>,
    epoch: u64,
) -> Chained {
    match packed_pair(inner, root, hash.spec_input_size()) {
        None => Chained::Overflow,
        Some(first_input) => match hash.spec_evaluate(first_input) {
            None => Chained::HashFailed,
            Some(digests_hash) => match packed_pair(
                spec_u64_to_le_bytes(epoch),
                digests_hash,
                hash.spec_input_size(),
            ) {
                None => Chained::Overflow,
                Some(second_input) => match hash.spec_evaluate(second_input) {
                    None => Chained::HashFailed,
                    Some(digest) => Chained::Digest(digest),
                },
            },
        },
    }
}

/// Whether `r` reports the outcome `chained`: the digest itself, or the error
/// that stands for the way it failed.
pub open spec fn reports(r: Result<Vec<u8>, Error>, chained: Chained) -> bool {
    match r {
        Ok(digest) => chained == Chained::Digest(digest@),
        Err(Error::EncodingOverflow) => chained == Chained::Overflow,
        Err(Error::HashEvaluation(_)) => chained == Chained::HashFailed,
        Err(_) => false,
    }
}

/// Compute the final digest of an inner digest, a history root and an epoch.
///
/// The result is a function of the four arguments: equal parameters, digests
/// and epoch give the equal digest, or fail in the same way.
pub fn hash_to_final_digest<H: FixedLengthCrh>(
    parameters: &H,
    ssavd_digest: &[u8],
    history_tree_digest: &[u8],
    epoch: &u64,
) -> (r: Result<Vec<u8>, Error>)
    ensures
        reports(r, final_digest(parameters, ssavd_digest@, history_tree_digest@, *epoch)),
{
    let size = parameters.input_size();
    let first_input = pack_pair(ssavd_digest, history_tree_digest, size)?;
    let digests_hash = match parameters.evaluate(first_input.as_slice()) {
        Ok(output) => output,
        Err(fault) => {
            return Err(Error::HashEvaluation(fault));
        },
    };
    let epoch_bytes = u64_to_le_bytes(*epoch);
    let second_input = pack_pair(epoch_bytes.as_slice(), digests_hash.as_slice(), size)?;
    match parameters.evaluate(second_input.as_slice()) {
        Ok(digest) => Ok(digest),
        Err(fault) => Err(Error::HashEvaluation(fault)),
    }
}

} // verus!
