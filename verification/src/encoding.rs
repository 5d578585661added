//! Fixed-size buffers: a value's bytes on the left, zeros after them.

use vstd::prelude::*;
use crate::error::Error;

verus! {

/// Length of the buffer that a digest is written into before it becomes a leaf
/// of the history log.
pub const LEAF_SIZE: usize = 128;

/// `bytes` followed by as many zeros as it takes to reach length `size`.
/// Meant for `bytes.len() <= size`.
pub open spec fn zero_padded(bytes: Seq<u8>, size: nat) -> Seq<u8> {
    Seq::new(size, |i: int| if i < bytes.len() { bytes[i] } else { 0u8 })
}

/// The leaf that stands for a digest in the history log.
pub open spec fn leaf_of(digest: Seq<u8>) -> Seq<u8> {
    zero_padded(digest, LEAF_SIZE as nat)
}

/// Write `digest` into a buffer of `LEAF_SIZE` bytes, left-aligned and
/// zero-padded. Fails exactly when the digest is longer than the buffer.
pub fn digest_to_bytes(digest: &[u8]) -> (r: Result<[u8; 128], Error>)
    ensures
        r is Ok <==> digest@.len() <= LEAF_SIZE,
        r matches Ok(buffer) ==> buffer@ == leaf_of(digest@),
        r matches Err(e) ==> e == Error::EncodingOverflow,
{
    if digest.len() > LEAF_SIZE {
        return Err(Error::EncodingOverflow);
    }
    let mut buffer = [0u8; 128];
    let mut i: usize = 0;
    while i < digest.len()
        invariant
            i <= digest@.len() <= LEAF_SIZE,
            buffer@.len() == LEAF_SIZE,
            forall|j: int| 0 <= j < i ==> buffer@[j] == digest@[j],
            forall|j: int| i <= j < LEAF_SIZE ==> buffer@[j] == 0u8,
        decreases digest@.len() - i,
    {
        buffer[i] = digest[i];
        i = i + 1;
    }
    assert(buffer@ =~= leaf_of(digest@));
    Ok(buffer)
}

} // verus!

verus! {

/// `first` then `second` in a buffer of `size` bytes, zero-padded; `None`
/// where the two together are longer than the buffer.
pub open spec fn packed_pair(first: Seq<u8>, second: Seq<u8>, size: nat) -> Option<Seq<u8>> {
    if first.len() + second.len() <= size {
        Some(zero_padded(first + second, size))
    } else {
        None
    }
}

/// Write `first` and then `second` into a fresh buffer of `size` bytes,
/// left-aligned and zero-padded. Fails exactly when they do not fit.
pub fn pack_pair(first: &[u8], second: &[u8], size: usize) -> (r: Result<Vec<u8>, Error>)
    ensures
        match r {
            Ok(buffer) => packed_pair(first@, second@, size as nat) == Some(buffer@),
            Err(e) => e == Error::EncodingOverflow && packed_pair(first@, second@, size as nat)
                is None,
        },
{
    if first.len() > size || second.len() > size - first.len() {
        return Err(Error::EncodingOverflow);
    }
    let ghost content = first@ + second@;
    let mut buffer: Vec<u8> = Vec::new();
    let mut i: usize = 0;
    while i < first.len()
        invariant
            i <= first@.len(),
            buffer@ == first@.subrange(0, i as int),
        decreases first@.len() - i,
    {
        buffer.push(first[i]);
        proof {
            assert(buffer@ =~= first@.subrange(0, i + 1));
        }
        i = i + 1;
    }
    assert(buffer@ =~= first@);
    let mut j: usize = 0;
    while j < second.len()
        invariant
            j <= second@.len(),
            buffer@ == first@ + second@.subrange(0, j as int),
        decreases second@.len() - j,
    {
        buffer.push(second[j]);
        proof {
            assert(buffer@ =~= first@ + second@.subrange(0, j + 1));
        }
        j = j + 1;
    }
    assert(buffer@ =~= content);
    while buffer.len() < size
        invariant
            content.len() <= buffer@.len() <= size,
            buffer@.subrange(0, content.len() as int) == content,
            forall|k: int| content.len() <= k < buffer@.len() ==> buffer@[k] == 0u8,
        decreases size - buffer@.len(),
    {
        let ghost before = buffer@;
        buffer.push(0u8);
        proof {
            assert(buffer@.subrange(0, content.len() as int) =~= before.subrange(
                0,
                content.len() as int,
            ));
        }
    }
    proof {
        assert forall|k: int| 0 <= k < size implies buffer@[k] == zero_padded(
            content,
            size as nat,
        )[k] by {
            if k < content.len() {
                assert(buffer@.subrange(0, content.len() as int)[k] == content[k]);
            }
        }
        assert(buffer@ =~= zero_padded(content, size as nat));
    }
    Ok(buffer)
}

/// Whether two byte strings are the same.
pub fn bytes_eq(a: &[u8], b: &[u8]) -> (r: bool)
    ensures
        r == (a@ == b@),
{
    if a.len() != b.len() {
        return false;
    }
    let mut i: usize = 0;
    while i < a.len()
        invariant
            i <= a@.len(),
            a@.len() == b@.len(),
            forall|k: int| 0 <= k < i ==> a@[k] == b@[k],
        decreases a@.len() - i,
    {
        if a[i] != b[i] {
            return false;
        }
        i = i + 1;
    }
    assert(a@ =~= b@);
    true
}

} // verus!
