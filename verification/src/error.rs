//! Failures of the dictionary and of the primitives it is built on.

use vstd::prelude::*;

verus! {

/// What a hash primitive, a Merkle accumulator or an inner dictionary reports
/// when one of its operations fails. The dictionary hands it on unread.
#[derive(Clone, Debug, PartialEq, Eq)]
pub struct Fault {
    pub message: String,
}

/// Why an operation of the dictionary failed.
#[derive(Clone, Debug, PartialEq, Eq)]
pub enum Error {
    /// A digest is longer than the fixed buffer it has to be written into.
    EncodingOverflow,
    /// Every leaf of the history log is written: no further write is possible.
    CapacityExhausted,
    /// A path was asked for an epoch beyond the capacity of the history log.
    IndexOutOfRange,
    /// The inner dictionary failed.
    InnerDictionary(Fault),
    /// The hash primitive failed, called directly or by the Merkle accumulator.
    HashEvaluation(Fault),
}

} // verus!
