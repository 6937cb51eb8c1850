//! A bare lookup node with a table one entry short of a full byte domain.

use vstd::prelude::*;

verus! {

/// The number of entries in a node's table.
pub const MAX: usize = 255;

/// A lookup table with 255 entries, for the inputs 0 to 254.
pub struct Node {
    tf: [u8; MAX],
}

impl View for Node {
    type V = Seq<u8>;

    closed spec fn view(&self) -> Seq<u8> {
        self.tf@
    }
}

impl Node {
    /// Creates a node whose 255 entries are all 0.
    pub fn new() -> (node: Node)
        ensures
            node@ == Seq::new(255, |i: int| 0u8),
    {
        let node = Node { tf: [0u8;MAX] };
        assert(node@ =~= Seq::new(255, |i: int| 0u8));
        node
    }

    /// Looks up the entry for `input`. The table has no entry for 255.
    pub fn tranform(&self, input: u8) -> (out: u8)
        requires
            input < 255,
        ensures
            out == self@[input as int],
    {
        self.tf[input as usize]
    }
}

} // verus!
