//! What holds of the dictionary across calls.

use vstd::prelude::*;
use crate::digest_chain::{final_digest, reports};
use crate::encoding::LEAF_SIZE;
use crate::error::Error;
use crate::digest_index::{lemma_indexed_at_last_occurrence, lemma_indexed_iff_occurs};
use crate::history_tree::{
    history_verdict, lookup_verdict, Digest, HistoryProof, LookupProof,
    SingleStepAVDWithHistory, SingleStepUpdateProof, Verdict,
};
use crate::crh::FixedLengthCrh;
use crate::merkle::{capacity, MerkleAccumulator};
use crate::ssavd::{found, mentions, written, written_batch, Contents, LookupResult, SingleStepAvd};

verus! {

/// `states` is a run of successful writes: it starts at epoch 0, and each
/// state but the first is what a write with the proof of the same position
/// made of the state before it.
pub open spec fn is_run<S: SingleStepAvd, M: MerkleAccumulator>(
    states: Seq<SingleStepAVDWithHistory<S, M>>,
    proofs: Seq<SingleStepUpdateProof<S, M>>,
) -> bool {
    &&& states.len() == proofs.len() + 1
    &&& states[0].wf()
    &&& states[0].spec_epoch() == 0
    &&& states[0].history().len() == 0
    &&& forall|i: int|
        0 <= i < proofs.len() ==> (#[trigger] states[i]).advances_to(&states[i + 1], &proofs[i])
}

/// The epoch counts the writes: after `i` successful writes the epoch is `i`,
/// and the history holds, at each earlier epoch, the digest that was current
/// at that epoch.
pub proof fn law_epoch_counts_writes<S: SingleStepAvd, M: MerkleAccumulator>(
    states: Seq<SingleStepAVDWithHistory<S, M>>,
    proofs: Seq<SingleStepUpdateProof<S, M>>,
    i: int,
)
    requires
        is_run(states, proofs),
        0 <= i < states.len(),
    ensures
        states[i].wf(),
        states[i].spec_epoch() == i,
        states[i].depth() == states[0].depth(),
        states[i].history().len() == i,
        forall|t: int| 0 <= t < i ==> #[trigger] states[i].history()[t] == states[t].digest_value(),
    decreases i,
{
    if i > 0 {
        law_epoch_counts_writes(states, proofs, i - 1);
        assert(states[i - 1].advances_to(&states[i], &proofs[i - 1]));
        assert forall|t: int| 0 <= t < i implies #[trigger] states[i].history()[t]
            == states[t].digest_value() by {
            if t < i - 1 {
                assert(states[i - 1].history()[t] == states[t].digest_value());
            }
        }
    }
}

/// A log of depth `d` takes no more writes than its capacity, and once it has
/// taken that many, it is exhausted: every further write is refused with
/// `CapacityExhausted`.
pub proof fn law_capacity_bounds_writes<S: SingleStepAvd, M: MerkleAccumulator>(
    states: Seq<SingleStepAVDWithHistory<S, M>>,
    proofs: Seq<SingleStepUpdateProof<S, M>>,
)
    requires
        is_run(states, proofs),
    ensures
        proofs.len() <= capacity(states[0].depth()),
        proofs.len() == capacity(states[0].depth()) ==> states.last().exhausted(),
        proofs.len() < capacity(states[0].depth()) ==> !states.last().exhausted(),
{
    let n = proofs.len() as int;
    law_epoch_counts_writes(states, proofs, n);
    states[n].lemma_wf();
}

/// Two evaluations of the digest chain on the same parameters, digests and
/// epoch agree: both give the same digest, or both fail in the same way.
pub proof fn law_digest_chain_deterministic<H: FixedLengthCrh>(
    hash: &H,
    inner: Seq<u8>,
    root: Seq<u8>,
    epoch: u64,
    first: Result<Vec<u8>, Error>,
    second: Result<Vec<u8>, Error>,
)
    requires
        reports(first, final_digest(hash, inner, root, epoch)),
        reports(second, final_digest(hash, inner, root, epoch)),
    ensures
        match (first, second) {
            (Ok(a), Ok(b)) => a@ == b@,
            (Err(Error::EncodingOverflow), Err(Error::EncodingOverflow)) => true,
            (Err(Error::HashEvaluation(_)), Err(Error::HashEvaluation(_))) => true,
            _ => false,
        },
{
}

/// After a write, a lookup of the written key finds the written value, and a
/// lookup of any other key finds what it found before.
pub proof fn law_write_is_found(
    before: Contents,
    after: Contents,
    key: [u8; 32],
    value: [u8; 32],
    other: [u8; 32],
)
    requires
        written(before, after, key, value),
        other != key,
    ensures
        found(after, key) matches Some(entry) && entry.1 == value,
        found(after, other) == found(before, other),
{
}

/// After a batch of writes, a lookup of a key that the batch names finds a
/// value that the batch gives for it, and a lookup of any other key finds what
/// it found before.
pub proof fn law_batch_is_found(
    before: Contents,
    after: Contents,
    kvs: Seq<([u8; 32], [u8; 32])>,
    key: [u8; 32],
)
    requires
        written_batch(before, after, kvs),
    ensures
        mentions(kvs, key) ==> (found(after, key) matches Some(entry) && kvs.contains(
            (key, entry.1),
        )),
        !mentions(kvs, key) ==> found(after, key) == found(before, key),
{
}

/// What a lookup hands out is accepted under the current digest, as long as
/// the dictionary is consistent.
pub proof fn law_lookup_is_accepted<S: SingleStepAvd, M: MerkleAccumulator>(
    avd: &SingleStepAVDWithHistory<S, M>,
    key: [u8; 32],
    value: LookupResult,
    proof: &LookupProof<S>,
    digest: &Digest,
)
    requires
        avd.wf(),
        avd.consistent(),
        avd.looked_up(key, value, proof),
        digest.epoch == avd.spec_epoch(),
        digest.digest@ == avd.digest_value(),
    ensures
        lookup_verdict(avd.public_parameters(), &avd.hash(), key, value, digest, proof)
            == Verdict::Accepted,
{
}

/// A digest that was current at an earlier epoch, and has not recurred since,
/// counts as published, so that a history lookup does not answer `None`; and
/// the proof that the lookup hands out is accepted under the current digest,
/// as long as the dictionary is consistent.
pub proof fn law_history_is_accepted<S: SingleStepAvd, M: MerkleAccumulator>(
    avd: &SingleStepAVDWithHistory<S, M>,
    past: &Digest,
    current: &Digest,
    proof: &HistoryProof<M>,
)
    requires
        avd.wf(),
        avd.consistent(),
        past.epoch < avd.spec_epoch(),
        past.digest@ == avd.history()[past.epoch as int],
        forall|k: int|
            past.epoch < k < avd.spec_epoch() ==> avd.history()[k] != past.digest@,
        current.epoch == avd.spec_epoch(),
        current.digest@ == avd.digest_value(),
    ensures
        avd.published(past.epoch, past.digest@),
        avd.traced(past.epoch, past.digest@, proof) ==> history_verdict(
            &avd.hash(),
            past,
            current,
            proof,
        ) == Verdict::Accepted,
{
    avd.lemma_wf();
    lemma_indexed_at_last_occurrence(avd.history(), past.digest@, past.epoch as int);
    assert(avd.history()[past.epoch as int].len() <= LEAF_SIZE);
}

/// A digest that the history does not hold at the epoch it claims was never
/// published: a history lookup answers `None`.
pub proof fn law_forged_past_is_refused<S: SingleStepAvd, M: MerkleAccumulator>(
    avd: &SingleStepAVDWithHistory<S, M>,
    forged: &Digest,
)
    requires
        avd.wf(),
        forged.epoch >= avd.spec_epoch() || avd.history()[forged.epoch as int] != forged.digest@,
    ensures
        !avd.published(forged.epoch, forged.digest@),
{
    avd.lemma_wf();
    lemma_indexed_iff_occurs(avd.history(), forged.digest@);
}

} // verus!
