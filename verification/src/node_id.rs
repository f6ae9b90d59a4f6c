//! Identifiers of AST nodes.

use vstd::prelude::*;

verus! {

/// Largest index a [`NodeId`] can hold (`u32::MAX - 1`).
pub const MAX_NODE_INDEX: usize = 0xFFFF_FFFE;

/// Identifier of an AST node: its index in creation order.
///
/// The root (`Program`) node always has index 0.
#[derive(Clone, Copy, PartialEq, Eq, Structural, PartialOrd, Ord, Debug, Hash)]
pub struct NodeId {
    idx: u32,
}

impl View for NodeId {
    type V = nat;

    closed spec fn view(&self) -> nat {
        self.idx as nat
    }
}

impl NodeId {
    /// The identifier of the node with index `idx`.
    pub fn new(idx: usize) -> (id: NodeId)
        requires
            idx <= MAX_NODE_INDEX,
        ensures
            id@ == idx,
    {
        NodeId { idx: idx as u32 }
    }

    /// The identifier of the root (`Program`) node.
    pub fn root() -> (id: NodeId)
        ensures
            id@ == 0,
            id == NodeId::from_index(0),
    {
        NodeId { idx: 0 }
    }

    /// The index of this node.
    pub fn index(self) -> (idx: usize)
        ensures
            idx == self@,
    {
        self.idx as usize
    }

    /// Two identifiers are equal exactly when their indices are.
    pub broadcast proof fn lemma_view_eq(a: NodeId, b: NodeId)
        ensures
            #![trigger a@, b@]
            a@ == b@ <==> a == b,
    {
    }

    /// The identifier that a valid index names.
    pub closed spec fn from_index(idx: nat) -> NodeId {
        NodeId { idx: idx as u32 }
    }

    /// `from_index` gives back the index it was given, within range.
    pub broadcast proof fn lemma_from_index(idx: nat)
        requires
            idx <= MAX_NODE_INDEX,
        ensures
            #![trigger NodeId::from_index(idx)]
            NodeId::from_index(idx)@ == idx,
    {
    }
}

} // verus!
