//! The nodes built so far, each with the id of its parent.
use crate::ast::NodeKind;
use vstd::prelude::*;

verus! {

/// A node and the id of the node that it stands under; 0 where it stands under none.
#[derive(Debug, PartialEq)]
pub struct StoredNode {
    pub node: NodeKind,
    pub parent: u32,
}

/// Nodes in the order in which they were added.
#[derive(Debug, PartialEq)]
pub struct NodesStorage {
    nodes: Vec<StoredNode>,
}

impl NodesStorage {
    /// The nodes held, in the order in which they were added.
    pub closed spec fn view(&self) -> Seq<StoredNode> {
        self.nodes@
    }

    /// A storage without nodes.
    pub fn new() -> (r: Self)
        ensures
            r@ == Seq::<StoredNode>::empty(),
    {
        NodesStorage { nodes: Vec::new() }
    }

    /// How many nodes are held.
    pub fn len(&self) -> (n: usize)
        ensures
            n == self@.len(),
    {
        self.nodes.len()
    }

    /// The node at place `i`.
    pub fn get(&self, i: usize) -> (r: &StoredNode)
        requires
            i < self@.len(),
        ensures
            *r == self@[i as int],
    {
        &self.nodes[i]
    }

    /// Adds `node`, which stands under `parent`, behind all others.
    pub fn add_node(&mut self, node: NodeKind, parent: u32)
        ensures
            final(self)@ == old(self)@.push(StoredNode { node, parent }),
    {
        self.nodes.push(StoredNode { node, parent });
    }

    /// Adds `node`, which stands under `parent`, at place `i`, before those that were added since.
    pub fn insert_node(&mut self, i: usize, node: NodeKind, parent: u32)
        requires
            i <= old(self)@.len(),
        ensures
            final(self)@ == old(self)@.insert(i as int, StoredNode { node, parent }),
    {
        self.nodes.insert(i, StoredNode { node, parent });
    }
}

} // verus!
