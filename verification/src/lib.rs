//! A full-history authenticated dictionary: a key-value store that publishes a
//! digest after every write and proves, against the current digest alone, that
//! an earlier digest is an ancestor of it.
//!
//! The dictionary is built on three primitives, each a trait: a fixed-length
//! hash (`crh`), a Merkle accumulator (`merkle`) and an authenticated dictionary
//! without history (`ssavd`). What it adds is in `history_tree`: the log of
//! published digests, the folding of the published digest (`digest_chain`),
//! and the proofs of update, lookup and history with their verifiers. `laws`
//! holds what is proved of these across calls.

pub mod crh;
pub mod digest_chain;
pub mod digest_index;
pub mod encoding;
pub mod error;
pub mod history_tree;
pub mod laws;
pub mod merkle;
pub mod ssavd;
