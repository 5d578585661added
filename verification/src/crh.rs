//! The hash primitive that the dictionary is built on.

use vstd::prelude::*;
use crate::error::Fault;

verus! {

/// A collision-resistant hash with a fixed input size, held together with its
/// parameters: a value of the implementing type is one set of parameters.
///
/// The two spec functions are the model that the contracts of the dictionary
/// are stated over. An implementation that is verified defines them. One that
/// is written outside the verifier cannot: it keeps the bodies given here, of
/// which nothing is known but that they are functions of their arguments, and
/// owes by its own means what the `ensures` clauses below say.
pub trait FixedLengthCrh: Sized {
    /// Number of bytes that one evaluation consumes.
    closed spec fn spec_input_size(&self) -> nat {
        arbitrary::<spec_fn(Self) -> nat>()(*self)
    }

    /// The output on `input`, `None` where the evaluation fails.
    closed spec fn spec_evaluate(&self, input: Seq<u8>) -> Option<Seq<u8>> {
        arbitrary::<spec_fn(Self, Seq<u8>) -> Option<Seq<u8>>>()(*self, input)
    }

    /// Draw fresh parameters.
    fn setup<R: rand::Rng>(rng: &mut R) -> Result<Self, Fault>;

    /// Number of bytes that one evaluation consumes.
    fn input_size(&self) -> (n: usize)
        ensures
            n == self.spec_input_size(),
    ;

    /// Hash `input`. The result, a failure included, depends on the
    /// parameters and the input alone.
    fn evaluate(&self, input: &[u8]) -> (r: Result<Vec<u8>, Fault>)
        ensures
            match r {
                Ok(output) => self.spec_evaluate(input@) == Some(output@),
                Err(_) => self.spec_evaluate(input@) is None,
            },
    ;
}

} // verus!
