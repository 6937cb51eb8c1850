//! Capability interfaces shared by the nodes of a graph.

use vstd::prelude::*;

verus! {

/// A total function from byte to byte.
pub trait Mapper {
    /// The function this mapper computes, as a mathematical value.
    spec fn spec_transform(&self, input: u8) -> u8;

    /// Maps the input value to an output value.
    fn transform(&self, input: u8) -> (out: u8)
        ensures
            out == self.spec_transform(input),
    ;
}

/// A named, stateless reduction of an ordered sequence of bytes to one byte.
pub trait Combinator {
    /// The byte this combinator reduces `inputs` to.
    spec fn spec_combine(&self, inputs: Seq<u8>) -> u8;

    /// The canonical name of this combinator.
    spec fn spec_identifier(&self) -> Seq<char>;

    /// Combines a slice of input values into a single output value.
    fn combine(&self, inputs: &[u8]) -> (out: u8)
        ensures
            out == self.spec_combine(inputs@),
    ;

    /// Returns the canonical name of this combinator.
    fn identifier(&self) -> (name: String)
        ensures
            name@ == self.spec_identifier(),
    ;
}

} // verus!
