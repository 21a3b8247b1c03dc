//! Blocks that share their ancestors: a child holds a counted reference to
//! its parent, so several children can extend the same block.

use std::rc::Rc;
use vstd::prelude::*;

verus! {

/// A block pointing (optionally) at its shared parent.
pub struct Block {
    pub id: u64,
    pub parent: Option<Rc<Block>>,
}

impl Block {
    /// A block with the given id and parent.
    pub fn new(id: u64, parent: Option<Rc<Block>>) -> (b: Block)
        ensures
            b.id == id,
            b.parent == parent,
    {
        Block { id, parent }
    }
}

} // verus!
