//! Full storage: every node is recorded, giving random access by [`NodeId`]
//! after the build finishes.

use crate::ast_node::AstNode;
use crate::node_id::NodeId;
use crate::outside::set_ast_kind_node_id;
use oxc_ast::AstKind;
use oxc_syntax::node::NodeFlags;
use oxc_syntax::scope::ScopeId;
use vstd::prelude::*;

verus! {

broadcast use {NodeId::lemma_view_eq, NodeId::lemma_from_index};

/// The ancestors of the node of index `i`, following `parents`: its parent
/// first, the root last. The root itself has none.
pub open spec fn parent_chain(parents: Seq<NodeId>, i: nat) -> Seq<NodeId>
    decreases i,
{
    if i == 0 || i >= parents.len() {
        Seq::empty()
    } else {
        let p = parents[i as int];
        if p@ < i {
            seq![p] + parent_chain(parents, p@)
        } else {
            seq![p]
        }
    }
}

/// What an [`AstNodes`] holds, as its contracts see it: one node, one parent
/// id and one set of flags per index.
pub struct FullView<'a> {
    pub nodes: Seq<AstNode<'a>>,
    pub parents: Seq<NodeId>,
    pub flags: Seq<NodeFlags>,
}

impl<'a> FullView<'a> {
    pub open spec fn count(self) -> nat {
        self.nodes.len()
    }

    /// The three columns have one row per node; the root is its own parent,
    /// and every other node's parent was created before it.
    pub open spec fn wf(self) -> bool {
        &&& self.parents.len() == self.count()
        &&& self.flags.len() == self.count()
        &&& self.count() <= u32::MAX
        &&& self.count() > 0 ==> self.parents[0]@ == 0
        &&& forall|i: int| 0 < i < self.count() ==> (#[trigger] self.parents[i])@ < i
    }

    pub open spec fn is_live(self, id: NodeId) -> bool {
        id@ < self.count()
    }

    /// The id the next node will get.
    pub open spec fn next_id(self) -> NodeId {
        NodeId::from_index(self.count())
    }

    /// The storage after a node of `kind` in `scope_id`, child of `parent`,
    /// with `flags`, is recorded.
    pub open spec fn add(
        self,
        kind: AstKind<'a>,
        scope_id: ScopeId,
        parent: NodeId,
        flags: NodeFlags,
    ) -> FullView<'a> {
        FullView {
            nodes: self.nodes.push(AstNode::from_parts(kind, scope_id)),
            parents: self.parents.push(parent),
            flags: self.flags.push(flags),
        }
    }

    pub open spec fn node(self, id: NodeId) -> AstNode<'a> {
        self.nodes[id@ as int]
    }

    pub open spec fn parent(self, id: NodeId) -> NodeId {
        self.parents[id@ as int]
    }

    pub open spec fn flags_of(self, id: NodeId) -> NodeFlags {
        self.flags[id@ as int]
    }

    /// The ancestors of `id`, parent first and the root last.
    pub open spec fn ancestors(self, id: NodeId) -> Seq<NodeId> {
        parent_chain(self.parents, id@)
    }

    pub open spec fn set_flags(self, id: NodeId, flags: NodeFlags) -> FullView<'a> {
        FullView { flags: self.flags.update(id@ as int, flags), ..self }
    }

    /// Every ancestor of a node is a node of the storage.
    pub proof fn lemma_ancestors_live(self, i: nat)
        requires
            self.wf(),
            i < self.count(),
        ensures
            forall|k: int| 0 <= k < parent_chain(self.parents, i).len()
                ==> self.is_live(#[trigger] parent_chain(self.parents, i)[k]),
        decreases i,
    {
        if i > 0 {
            let p = self.parents[i as int];
            self.lemma_ancestors_live(p@);
            let rest = parent_chain(self.parents, p@);
            assert forall|k: int| 0 <= k < parent_chain(self.parents, i).len()
                implies self.is_live(#[trigger] parent_chain(self.parents, i)[k]) by {
                if k > 0 {
                    assert(parent_chain(self.parents, i)[k] == rest[k - 1]);
                }
            }
        }
    }
}

/// Every node of the AST, with its parent and flags, indexed by [`NodeId`].
pub struct AstNodes<'a> {
    nodes: Vec<AstNode<'a>>,
    parent_ids: Vec<NodeId>,
    flags: Vec<NodeFlags>,
}

impl<'a> View for AstNodes<'a> {
    type V = FullView<'a>;

    closed spec fn view(&self) -> FullView<'a> {
        FullView { nodes: self.nodes@, parents: self.parent_ids@, flags: self.flags@ }
    }
}

impl<'a> AstNodes<'a> {
    /// Empty storage.
    pub fn new() -> (nodes: Self)
        ensures
            nodes@.count() == 0,
            nodes@.parents == Seq::<NodeId>::empty(),
            nodes@.flags == Seq::<NodeFlags>::empty(),
            nodes@.wf(),
    {
        AstNodes { nodes: Vec::new(), parent_ids: Vec::new(), flags: Vec::new() }
    }

    /// Number of nodes recorded.
    pub fn len(&self) -> (n: usize)
        requires
            self@.wf(),
        ensures
            n == self@.count(),
    {
        self.nodes.len()
    }

    /// Record a node as a child of `parent_node_id`, and record its id in the AST.
    pub fn add_node(
        &mut self,
        kind: AstKind<'a>,
        scope_id: ScopeId,
        parent_node_id: NodeId,
        flags: NodeFlags,
    ) -> (node_id: NodeId)
        requires
            old(self)@.wf(),
            old(self)@.count() < u32::MAX,
            old(self)@.is_live(parent_node_id),
        ensures
            node_id == old(self)@.next_id(),
            node_id@ == old(self)@.count(),
            final(self)@ == old(self)@.add(kind, scope_id, parent_node_id, flags),
            final(self)@.wf(),
    {
        let node_id = NodeId::new(self.parent_ids.len());
        self.parent_ids.push(parent_node_id);
        set_ast_kind_node_id(kind, node_id.index());
        self.nodes.push(AstNode::new(kind, scope_id));
        self.flags.push(flags);
        node_id
    }

    /// Record the `Program` node, which must be the first node of the AST and
    /// is its own parent.
    pub fn add_program_node(&mut self, kind: AstKind<'a>, scope_id: ScopeId, flags: NodeFlags) -> (node_id: NodeId)
        requires
            old(self)@.wf(),
            old(self)@.count() == 0,
        ensures
            node_id@ == 0,
            node_id == old(self)@.next_id(),
            final(self)@ == old(self)@.add(kind, scope_id, NodeId::from_index(0), flags),
            final(self)@.wf(),
    {
        let node_id = NodeId::new(self.parent_ids.len());
        self.parent_ids.push(NodeId::root());
        set_ast_kind_node_id(kind, node_id.index());
        self.nodes.push(AstNode::new(kind, scope_id));
        self.flags.push(flags);
        node_id
    }

    pub fn get_node(&self, id: NodeId) -> (node: &AstNode<'a>)
        requires
            self@.wf(),
            self@.is_live(id),
        ensures
            *node == self@.node(id),
    {
        &self.nodes[id.index()]
    }

    /// The parent of `id`; the root is its own parent.
    pub fn parent_id(&self, id: NodeId) -> (parent_id: NodeId)
        requires
            self@.wf(),
            self@.is_live(id),
        ensures
            parent_id == self@.parent(id),
    {
        self.parent_ids[id.index()]
    }

    pub fn flags_mut(&mut self, id: NodeId) -> (flags: &mut NodeFlags)
        requires
            old(self)@.wf(),
            old(self)@.is_live(id),
        ensures
            *flags == old(self)@.flags_of(id),
            final(self)@ == old(self)@.set_flags(id, *final(flags)),
            final(self)@.wf(),
    {
        &mut self.flags[id.index()]
    }

    /// Reserve room for `additional` more nodes; the contents do not change.
    pub fn reserve(&mut self, additional: usize)
        ensures
            final(self)@ == old(self)@,
    {
        self.nodes.reserve(additional);
        self.parent_ids.reserve(additional);
        self.flags.reserve(additional);
    }

    /// The ancestors of `id`: its parent first, the root last.
    pub fn ancestor_ids(&self, id: NodeId) -> (ids: Vec<NodeId>)
        requires
            self@.wf(),
            self@.is_live(id),
        ensures
            ids@ == self@.ancestors(id),
    {
        let mut ids: Vec<NodeId> = Vec::new();
        let mut current = id;
        while current.index() != 0
            invariant
                self@.wf(),
                self@.is_live(current),
                ids@ + parent_chain(self@.parents, current@) == self@.ancestors(id),
            decreases current@,
        {
            let parent = self.parent_ids[current.index()];
            proof {
                assert(parent_chain(self@.parents, current@) == seq![parent] + parent_chain(self@.parents, parent@));
                assert(ids@.push(parent) + parent_chain(self@.parents, parent@) =~= ids@ + (seq![parent] + parent_chain(self@.parents, parent@)));
            }
            ids.push(parent);
            current = parent;
        }
        proof {
            assert(ids@ + parent_chain(self@.parents, current@) =~= ids@);
        }
        ids
    }
}

impl<'a> Default for AstNodes<'a> {
    fn default() -> (nodes: Self)
        ensures
            nodes@.count() == 0,
            nodes@.wf(),
    {
        AstNodes::new()
    }
}

} // verus!
