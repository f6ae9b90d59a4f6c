//! Node storage used during semantic analysis, with two backends:
//!
//! 1. [`NodeStorage::Full`]: every node is recorded in [`AstNodes`], giving
//!    random access by [`NodeId`] after the build finishes.
//! 2. [`NodeStorage::Ancestors`]: only the live ancestor chain
//!    (`root..=current`) is retained, via [`AncestorStack`]. That is enough for
//!    passes that only ever look upwards from the current node.
//!
//! Both backends allocate [`NodeId`]s from the same monotonic counter, so the
//! ids handed out are identical regardless of the backend.

use crate::ancestor_stack::{AncestorStack, StackView};
use crate::ast_node::AstNode;
use crate::ast_nodes::{AstNodes, FullView};
use crate::node_id::NodeId;
use crate::outside::STACK_DEPTH_LIMIT;
use oxc_ast::AstKind;
use oxc_syntax::node::NodeFlags;
use oxc_syntax::scope::ScopeId;
use vstd::prelude::*;

verus! {

broadcast use {NodeId::lemma_view_eq, NodeId::lemma_from_index};

/// What a [`NodeStorage`] holds, as its contracts see it.
pub enum StorageView<'a> {
    Full(FullView<'a>),
    Ancestors(StackView<'a>),
}

impl<'a> StorageView<'a> {
    pub open spec fn wf(self) -> bool {
        match self {
            StorageView::Full(f) => f.wf(),
            StorageView::Ancestors(s) => s.wf(),
        }
    }

    /// Number of nodes created so far.
    pub open spec fn count(self) -> nat {
        match self {
            StorageView::Full(f) => f.count(),
            StorageView::Ancestors(s) => s.count,
        }
    }

    /// The id the next node will get.
    pub open spec fn next_id(self) -> NodeId {
        NodeId::from_index(self.count())
    }

    /// `id` can be looked up: any created node in full storage, a node on the
    /// live chain in ancestor storage.
    pub open spec fn is_live(self, id: NodeId) -> bool {
        match self {
            StorageView::Full(f) => f.is_live(id),
            StorageView::Ancestors(s) => s.is_live(id),
        }
    }

    /// A node can be added under `parent` without running out of ids or room.
    pub open spec fn can_add(self, parent: NodeId) -> bool {
        match self {
            StorageView::Full(f) => f.count() < u32::MAX && f.is_live(parent),
            StorageView::Ancestors(s) => s.count < u32::MAX && s.depth() < STACK_DEPTH_LIMIT,
        }
    }

    pub open spec fn add(self, kind: AstKind<'a>, scope_id: ScopeId, parent: NodeId, flags: NodeFlags) -> StorageView<'a> {
        match self {
            StorageView::Full(f) => StorageView::Full(f.add(kind, scope_id, parent, flags)),
            StorageView::Ancestors(s) => StorageView::Ancestors(s.add(kind, scope_id, flags)),
        }
    }

    /// Nothing was added yet.
    pub open spec fn is_empty(self) -> bool {
        match self {
            StorageView::Full(f) => f.count() == 0,
            StorageView::Ancestors(s) => s.count == 0 && s.depth() == 0,
        }
    }

    /// The storage after the `Program` node is added; it is its own parent.
    pub open spec fn add_program(self, kind: AstKind<'a>, scope_id: ScopeId, flags: NodeFlags) -> StorageView<'a> {
        self.add(kind, scope_id, NodeId::from_index(0), flags)
    }

    /// `current` can be left.
    pub open spec fn can_pop(self, current: NodeId) -> bool {
        match self {
            StorageView::Full(f) => f.is_live(current),
            StorageView::Ancestors(_) => true,
        }
    }

    /// The storage after the current node is left.
    pub open spec fn pop(self) -> StorageView<'a> {
        match self {
            StorageView::Full(f) => StorageView::Full(f),
            StorageView::Ancestors(s) => StorageView::Ancestors(s.pop()),
        }
    }

    /// The id `pop_node(current)` returns: the parent of `current`.
    pub open spec fn popped_parent(self, current: NodeId) -> NodeId {
        match self {
            StorageView::Full(f) => f.parent(current),
            StorageView::Ancestors(s) => s.pop().top_id(),
        }
    }

    pub open spec fn node(self, id: NodeId) -> AstNode<'a> {
        match self {
            StorageView::Full(f) => f.node(id),
            StorageView::Ancestors(s) => s.node(id),
        }
    }

    pub open spec fn parent(self, id: NodeId) -> NodeId {
        match self {
            StorageView::Full(f) => f.parent(id),
            StorageView::Ancestors(s) => s.parent(id),
        }
    }

    pub open spec fn flags(self, id: NodeId) -> NodeFlags {
        match self {
            StorageView::Full(f) => f.flags_of(id),
            StorageView::Ancestors(s) => s.flags(id),
        }
    }

    pub open spec fn set_flags(self, id: NodeId, flags: NodeFlags) -> StorageView<'a> {
        match self {
            StorageView::Full(f) => StorageView::Full(f.set_flags(id, flags)),
            StorageView::Ancestors(s) => StorageView::Ancestors(s.set_flags(id, flags)),
        }
    }

    /// The ancestors of `id`: its parent first, the root last.
    pub open spec fn ancestors(self, id: NodeId) -> Seq<NodeId> {
        match self {
            StorageView::Full(f) => f.ancestors(id),
            StorageView::Ancestors(s) => s.ancestors(id),
        }
    }

    /// Every ancestor of a live node is live, and on the ancestor stack it is
    /// the entry at the matching depth.
    pub proof fn lemma_ancestors_live(self, id: NodeId)
        requires
            self.wf(),
            self.is_live(id),
        ensures
            forall|k: int| 0 <= k < self.ancestors(id).len() ==> self.is_live(#[trigger] self.ancestors(id)[k]),
    {
        match self {
            StorageView::Full(f) => {
                f.lemma_ancestors_live(id@);
            },
            StorageView::Ancestors(s) => {
                s.lemma_live_pos(id);
                let pos = s.pos_of(id);
                assert forall|k: int| 0 <= k < self.ancestors(id).len() implies self.is_live(#[trigger] self.ancestors(id)[k]) by {
                    assert(s.ancestors(id)[k] == s.entries[pos - 1 - k].id);
                    s.lemma_pos_of(s.entries[pos - 1 - k].id, pos - 1 - k);
                }
            },
        }
    }
}

/// Node storage with two backends. See the module docs.
pub enum NodeStorage<'a> {
    /// Full random-access storage, retained after the build.
    Full(AstNodes<'a>),
    /// Only the live ancestor chain is retained during the build.
    Ancestors(AncestorStack<'a>),
}

impl<'a> View for NodeStorage<'a> {
    type V = StorageView<'a>;

    open spec fn view(&self) -> StorageView<'a> {
        match self {
            NodeStorage::Full(nodes) => StorageView::Full(nodes@),
            NodeStorage::Ancestors(stack) => StorageView::Ancestors(stack@),
        }
    }
}

impl<'a> Default for NodeStorage<'a> {
    fn default() -> (storage: Self)
        ensures
            storage is Full,
            storage@.is_empty(),
            storage@.wf(),
    {
        NodeStorage::Full(AstNodes::new())
    }
}

impl<'a> NodeStorage<'a> {
    /// Create full random-access storage.
    pub fn full() -> (storage: Self)
        ensures
            storage is Full,
            storage@.is_empty(),
            storage@.wf(),
    {
        NodeStorage::Full(AstNodes::new())
    }

    /// Create lightweight ancestor-stack storage.
    pub fn ancestor_stack() -> (storage: Self)
        ensures
            storage is Ancestors,
            storage@.is_empty(),
            storage@.wf(),
    {
        NodeStorage::Ancestors(AncestorStack::new())
    }

    /// Consume the storage, returning the recorded nodes.
    ///
    /// In ancestor-stack mode nothing is retained, so this returns empty storage.
    pub fn into_ast_nodes(self) -> (nodes: AstNodes<'a>)
        ensures
            self is Full ==> nodes == self->Full_0,
            self is Ancestors ==> nodes@.count() == 0 && nodes@.wf(),
    {
        match self {
            NodeStorage::Full(nodes) => nodes,
            NodeStorage::Ancestors(_) => AstNodes::new(),
        }
    }

    /// Add a node under `parent_node_id` and return its id.
    pub fn add_node(
        &mut self,
        kind: AstKind<'a>,
        scope_id: ScopeId,
        parent_node_id: NodeId,
        flags: NodeFlags,
    ) -> (node_id: NodeId)
        requires
            old(self)@.wf(),
            old(self)@.can_add(parent_node_id),
        ensures
            node_id == old(self)@.next_id(),
            node_id@ == old(self)@.count(),
            final(self)@ == old(self)@.add(kind, scope_id, parent_node_id, flags),
            final(self)@.wf(),
    {
        match self {
            NodeStorage::Full(nodes) => nodes.add_node(kind, scope_id, parent_node_id, flags),
            NodeStorage::Ancestors(stack) => stack.add_node(kind, scope_id, flags),
        }
    }

    /// Add the `Program` node, which must be the first node.
    pub fn add_program_node(&mut self, kind: AstKind<'a>, scope_id: ScopeId, flags: NodeFlags) -> (node_id: NodeId)
        requires
            old(self)@.wf(),
            old(self)@.is_empty(),
        ensures
            node_id@ == 0,
            node_id == old(self)@.next_id(),
            final(self)@ == old(self)@.add_program(kind, scope_id, flags),
            final(self)@.wf(),
    {
        match self {
            NodeStorage::Full(nodes) => nodes.add_program_node(kind, scope_id, flags),
            NodeStorage::Ancestors(stack) => stack.add_program_node(kind, scope_id, flags),
        }
    }

    /// Leave the current node and return its parent's id.
    pub fn pop_node(&mut self, current_node_id: NodeId) -> (parent_id: NodeId)
        requires
            old(self)@.wf(),
            old(self)@.can_pop(current_node_id),
        ensures
            parent_id == old(self)@.popped_parent(current_node_id),
            final(self)@ == old(self)@.pop(),
            final(self)@.wf(),
    {
        match self {
            NodeStorage::Full(nodes) => nodes.parent_id(current_node_id),
            NodeStorage::Ancestors(stack) => stack.pop_node(),
        }
    }

    pub fn get_node(&self, id: NodeId) -> (node: &AstNode<'a>)
        requires
            self@.wf(),
            self@.is_live(id),
        ensures
            *node == self@.node(id),
    {
        match self {
            NodeStorage::Full(nodes) => nodes.get_node(id),
            NodeStorage::Ancestors(stack) => stack.get_node(id),
        }
    }

    pub fn kind(&self, id: NodeId) -> (kind: AstKind<'a>)
        requires
            self@.wf(),
            self@.is_live(id),
        ensures
            kind == self@.node(id).kind_of(),
    {
        self.get_node(id).kind()
    }

    pub fn parent_id(&self, id: NodeId) -> (parent_id: NodeId)
        requires
            self@.wf(),
            self@.is_live(id),
        ensures
            parent_id == self@.parent(id),
    {
        match self {
            NodeStorage::Full(nodes) => nodes.parent_id(id),
            NodeStorage::Ancestors(stack) => stack.parent_id(id),
        }
    }

    pub fn parent_kind(&self, id: NodeId) -> (kind: AstKind<'a>)
        requires
            self@.wf(),
            self@.is_live(id),
            self@.is_live(self@.parent(id)),
        ensures
            kind == self@.node(self@.parent(id)).kind_of(),
    {
        self.kind(self.parent_id(id))
    }

    pub fn parent_node(&self, id: NodeId) -> (node: &AstNode<'a>)
        requires
            self@.wf(),
            self@.is_live(id),
            self@.is_live(self@.parent(id)),
        ensures
            *node == self@.node(self@.parent(id)),
    {
        self.get_node(self.parent_id(id))
    }

    pub fn flags_mut(&mut self, id: NodeId) -> (flags: &mut NodeFlags)
        requires
            old(self)@.wf(),
            old(self)@.is_live(id),
        ensures
            *flags == old(self)@.flags(id),
            final(self)@ == old(self)@.set_flags(id, *final(flags)),
            final(self)@.wf(),
    {
        match self {
            NodeStorage::Full(nodes) => nodes.flags_mut(id),
            NodeStorage::Ancestors(stack) => stack.flags_mut(id),
        }
    }

    /// Number of nodes created so far, in either backend.
    pub fn len(&self) -> (n: usize)
        requires
            self@.wf(),
        ensures
            n == self@.count(),
    {
        match self {
            NodeStorage::Full(nodes) => nodes.len(),
            NodeStorage::Ancestors(stack) => stack.len() as usize,
        }
    }

    /// Reserve room for `additional` more nodes. Only full storage grows with
    /// the node count; the ancestor stack only holds the current nesting depth.
    pub fn reserve(&mut self, additional: usize)
        ensures
            final(self)@ == old(self)@,
    {
        if let NodeStorage::Full(nodes) = self {
            nodes.reserve(additional);
        }
    }

    /// The ids of the ancestors of `id`: its parent first, the root last.
    pub fn ancestor_ids(&self, id: NodeId) -> (ids: Vec<NodeId>)
        requires
            self@.wf(),
            self@.is_live(id),
        ensures
            ids@ == self@.ancestors(id),
    {
        match self {
            NodeStorage::Full(nodes) => nodes.ancestor_ids(id),
            NodeStorage::Ancestors(stack) => {
                let mut iter = stack.ancestor_ids(id);
                let mut ids: Vec<NodeId> = Vec::new();
                loop
                    invariant
                        iter.wf(),
                        ids@ + iter.remaining() == stack@.ancestors(id),
                    ensures
                        ids@ == stack@.ancestors(id),
                    decreases iter.remaining().len(),
                {
                    let ghost before = iter.remaining();
                    match iter.next() {
                        Some(a) => {
                            proof {
                                assert(ids@.push(a) + iter.remaining() =~= ids@ + before);
                            }
                            ids.push(a);
                        },
                        None => {
                            proof {
                                assert(ids@ + iter.remaining() =~= ids@);
                            }
                            break;
                        },
                    }
                }
                ids
            },
        }
    }

    /// The kinds of the ancestors of `id`: its parent's first, the root's last.
    pub fn ancestor_kinds(&self, id: NodeId) -> (kinds: Vec<AstKind<'a>>)
        requires
            self@.wf(),
            self@.is_live(id),
        ensures
            kinds@ == self@.ancestors(id).map_values(|a: NodeId| self@.node(a).kind_of()),
    {
        let ids = self.ancestor_ids(id);
        proof {
            self@.lemma_ancestors_live(id);
        }
        let mut kinds: Vec<AstKind<'a>> = Vec::new();
        let mut i: usize = 0;
        while i < ids.len()
            invariant
                self@.wf(),
                i <= ids@.len(),
                ids@ == self@.ancestors(id),
                forall|k: int| 0 <= k < ids@.len() ==> self@.is_live(#[trigger] ids@[k]),
                kinds@ == ids@.take(i as int).map_values(|a: NodeId| self@.node(a).kind_of()),
            decreases ids@.len() - i,
        {
            let kind = self.kind(ids[i]);
            proof {
                assert(ids@.take(i + 1).map_values(|a: NodeId| self@.node(a).kind_of())
                    =~= kinds@.push(kind));
            }
            kinds.push(kind);
            i = i + 1;
        }
        proof {
            assert(ids@.take(ids@.len() as int) =~= ids@);
        }
        kinds
    }

    /// The ancestors of `id`: its parent first, the root last.
    pub fn ancestors<'s>(&'s self, id: NodeId) -> (nodes: Vec<&'s AstNode<'a>>)
        requires
            self@.wf(),
            self@.is_live(id),
        ensures
            nodes@.len() == self@.ancestors(id).len(),
            forall|k: int| 0 <= k < nodes@.len() ==> *(#[trigger] nodes@[k]) == self@.node(self@.ancestors(id)[k]),
    {
        let ids = self.ancestor_ids(id);
        proof {
            self@.lemma_ancestors_live(id);
        }
        let mut nodes: Vec<&'s AstNode<'a>> = Vec::new();
        let mut i: usize = 0;
        while i < ids.len()
            invariant
                self@.wf(),
                i <= ids@.len(),
                ids@ == self@.ancestors(id),
                forall|k: int| 0 <= k < ids@.len() ==> self@.is_live(#[trigger] ids@[k]),
                nodes@.len() == i,
                forall|k: int| 0 <= k < i ==> *(#[trigger] nodes@[k]) == self@.node(ids@[k]),
            decreases ids@.len() - i,
        {
            let node = self.get_node(ids[i]);
            nodes.push(node);
            i = i + 1;
        }
        nodes
    }

    /// The ancestors of `id` with their ids: its parent first, the root last.
    pub fn ancestors_enumerated<'s>(&'s self, id: NodeId) -> (pairs: Vec<(NodeId, &'s AstNode<'a>)>)
        requires
            self@.wf(),
            self@.is_live(id),
        ensures
            pairs@.len() == self@.ancestors(id).len(),
            forall|k: int| 0 <= k < pairs@.len() ==> (#[trigger] pairs@[k]).0 == self@.ancestors(id)[k]
                && *pairs@[k].1 == self@.node(self@.ancestors(id)[k]),
    {
        let ids = self.ancestor_ids(id);
        proof {
            self@.lemma_ancestors_live(id);
        }
        let mut pairs: Vec<(NodeId, &'s AstNode<'a>)> = Vec::new();
        let mut i: usize = 0;
        while i < ids.len()
            invariant
                self@.wf(),
                i <= ids@.len(),
                ids@ == self@.ancestors(id),
                forall|k: int| 0 <= k < ids@.len() ==> self@.is_live(#[trigger] ids@[k]),
                pairs@.len() == i,
                forall|k: int| 0 <= k < i ==> (#[trigger] pairs@[k]).0 == ids@[k] && *pairs@[k].1
                    == self@.node(ids@[k]),
            decreases ids@.len() - i,
        {
            let a = ids[i];
            let node = self.get_node(a);
            pairs.push((a, node));
            i = i + 1;
        }
        pairs
    }
}

} // verus!
