//! Ancestor-stack storage: keeps only the live ancestor chain
//! (`root..=current`) during traversal, rather than every node.
//!
//! Entries are pushed when a node is entered and popped when it is left, so at
//! any point the stack holds the path from the root down to the node being
//! visited. That serves every upward query (parents and ancestors).

use crate::ast_node::AstNode;
use crate::node_id::NodeId;
use crate::outside::{
    entry_stack_as_slice, entry_stack_get_mut, entry_stack_last, entry_stack_pop,
    entry_stack_push, entry_stack_with_capacity, set_ast_kind_node_id, stack_entries,
    STACK_DEPTH_LIMIT,
};
use oxc_ast::AstKind;
use oxc_data_structures::stack::Stack;
use oxc_syntax::node::NodeFlags;
use oxc_syntax::scope::ScopeId;
use vstd::prelude::*;

verus! {

broadcast use {NodeId::lemma_view_eq, NodeId::lemma_from_index};

/// A single entry of an [`AncestorStack`].
pub struct StackEntry<'a> {
    pub id: NodeId,
    pub node: AstNode<'a>,
    pub flags: NodeFlags,
}

/// The `n` ids below position `n` of `ids`, nearest first: `ids[n - 1]`,
/// then `ids[n - 2]`, down to `ids[0]`.
pub open spec fn chain_below(ids: Seq<NodeId>, n: int) -> Seq<NodeId> {
    Seq::new(n as nat, |k: int| ids[n - 1 - k])
}

/// What an [`AncestorStack`] holds, as its contracts see it.
pub struct StackView<'a> {
    /// The live chain: the first node entered at the bottom, the current node on top.
    pub entries: Seq<StackEntry<'a>>,
    /// How many nodes were created so far: the index of the next node.
    pub count: nat,
}

impl<'a> StackView<'a> {
    /// The ids on the stack, bottom first.
    pub open spec fn ids(self) -> Seq<NodeId> {
        self.entries.map_values(|e: StackEntry<'a>| e.id)
    }

    pub open spec fn depth(self) -> nat {
        self.entries.len()
    }

    /// Every id on the stack was handed out, and ids grow from bottom to top,
    /// so no id is on the stack twice.
    pub open spec fn wf(self) -> bool {
        &&& self.count <= u32::MAX
        &&& forall|i: int| 0 <= i < self.depth() ==> (#[trigger] self.entries[i]).id@ < self.count
        &&& forall|i: int, j: int|
            0 <= i < j < self.depth() ==> (#[trigger] self.entries[i]).id@ < (#[trigger] self.entries[j]).id@
    }

    /// `id` is on the stack.
    pub open spec fn is_live(self, id: NodeId) -> bool {
        exists|i: int| 0 <= i < self.depth() && (#[trigger] self.entries[i]).id == id
    }

    /// The position of a live `id` on the stack.
    pub open spec fn pos_of(self, id: NodeId) -> int {
        choose|i: int| 0 <= i < self.depth() && (#[trigger] self.entries[i]).id == id
    }

    /// The id the next node will get.
    pub open spec fn next_id(self) -> NodeId {
        NodeId::from_index(self.count)
    }

    /// The stack after a node of `kind` in `scope_id` with `flags` is entered.
    pub open spec fn add(self, kind: AstKind<'a>, scope_id: ScopeId, flags: NodeFlags) -> StackView<'a> {
        StackView {
            entries: self.entries.push(
                StackEntry { id: self.next_id(), node: AstNode::from_parts(kind, scope_id), flags },
            ),
            count: self.count + 1,
        }
    }

    /// The stack after the current node is left.
    pub open spec fn pop(self) -> StackView<'a> {
        StackView {
            entries: if self.depth() > 0 { self.entries.drop_last() } else { self.entries },
            count: self.count,
        }
    }

    /// The id of the current node, or the root's id on an empty stack.
    pub open spec fn top_id(self) -> NodeId {
        if self.depth() > 0 { self.entries.last().id } else { NodeId::from_index(0) }
    }

    pub open spec fn node(self, id: NodeId) -> AstNode<'a> {
        self.entries[self.pos_of(id)].node
    }

    pub open spec fn flags(self, id: NodeId) -> NodeFlags {
        self.entries[self.pos_of(id)].flags
    }

    /// The parent of a live `id`: the entry below it, or the root's id for
    /// the bottom entry.
    pub open spec fn parent(self, id: NodeId) -> NodeId {
        let pos = self.pos_of(id);
        if pos == 0 { NodeId::from_index(0) } else { self.entries[pos - 1].id }
    }

    /// The ancestors of a live `id`, parent first and bottom entry last.
    pub open spec fn ancestors(self, id: NodeId) -> Seq<NodeId> {
        chain_below(self.ids(), self.pos_of(id))
    }

    /// The stack with the flags of a live `id` replaced by `flags`.
    pub open spec fn set_flags(self, id: NodeId, flags: NodeFlags) -> StackView<'a> {
        let pos = self.pos_of(id);
        StackView {
            entries: self.entries.update(
                pos,
                StackEntry { id: self.entries[pos].id, node: self.entries[pos].node, flags },
            ),
            count: self.count,
        }
    }

    /// On a well-formed stack, the position of a live id is the one place it occupies.
    pub proof fn lemma_pos_of(self, id: NodeId, k: int)
        requires
            self.wf(),
            0 <= k < self.depth(),
            self.entries[k].id == id,
        ensures
            self.is_live(id),
            self.pos_of(id) == k,
    {
        let p = self.pos_of(id);
        if p != k {
            if p < k {
                assert(self.entries[p].id@ < self.entries[k].id@);
            } else {
                assert(self.entries[k].id@ < self.entries[p].id@);
            }
        }
    }

    /// Leaving the current node keeps a stack well formed.
    pub proof fn lemma_pop_wf(self)
        requires
            self.wf(),
        ensures
            self.pop().wf(),
    {
        let p = self.pop();
        assert forall|i: int| 0 <= i < p.depth() implies #[trigger] p.entries[i] == self.entries[i] by {}
    }

    /// A live id has a position on the stack.
    pub proof fn lemma_live_pos(self, id: NodeId)
        requires
            self.wf(),
            self.is_live(id),
        ensures
            0 <= self.pos_of(id) < self.depth(),
            self.entries[self.pos_of(id)].id == id,
    {
    }
}

/// Stores only the live ancestor chain (`root..=current`) during traversal.
///
/// Pushed on entering a node, popped on leaving it, so at any point the stack
/// holds the path from the root `Program` down to the node currently being
/// visited.
pub struct AncestorStack<'a> {
    /// `stack[0]` is the root, the last entry is the current node.
    stack: Stack<StackEntry<'a>>,
    /// Total number of nodes created. Doubles as the allocator for the next
    /// [`NodeId`], keeping ids consistent with full storage.
    len: u32,
}

impl<'a> View for AncestorStack<'a> {
    type V = StackView<'a>;

    closed spec fn view(&self) -> StackView<'a> {
        StackView { entries: stack_entries(self.stack), count: self.len as nat }
    }
}

/// Initial capacity, sized to cover the maximum AST nesting depth of typical
/// code so the stack does not reallocate during a build.
pub const INITIAL_CAPACITY: usize = 128;

impl<'a> AncestorStack<'a> {
    /// Create an empty ancestor stack pre-sized to [`INITIAL_CAPACITY`].
    pub fn new() -> (stack: Self)
        ensures
            stack@.entries == Seq::<StackEntry<'a>>::empty(),
            stack@.count == 0,
            stack@.wf(),
    {
        AncestorStack { stack: entry_stack_with_capacity(INITIAL_CAPACITY), len: 0 }
    }

    /// Number of nodes created so far.
    pub fn len(&self) -> (n: u32)
        ensures
            n == self@.count,
    {
        self.len
    }

    /// Find the stack position of a live ancestor `id`.
    ///
    /// The current node (top of stack) is the overwhelmingly common case and
    /// is checked first; other ancestors require a scan from the top.
    fn position(&self, id: NodeId) -> (pos: usize)
        requires
            self@.wf(),
            self@.is_live(id),
        ensures
            pos == self@.pos_of(id),
    {
        let entries = entry_stack_as_slice(&self.stack);
        proof {
            self@.lemma_live_pos(id);
        }
        match entry_stack_last(&self.stack) {
            Some(last) => {
                if last.id == id {
                    proof {
                        self@.lemma_pos_of(id, entries@.len() - 1);
                    }
                    return entries.len() - 1;
                }
            },
            None => {},
        }
        let mut i: usize = entries.len();
        while i > 0
            invariant
                i <= entries@.len(),
                entries@ == self@.entries,
                self@.wf(),
                self@.is_live(id),
                forall|k: int| i <= k < entries@.len() ==> (#[trigger] entries@[k]).id != id,
            decreases i,
        {
            i = i - 1;
            if entries[i].id == id {
                proof {
                    self@.lemma_pos_of(id, i as int);
                }
                return i;
            }
        }
        proof {
            let k = self@.pos_of(id);
            assert(entries@[k].id == id);
        }
        0
    }

    /// Hand out the next id.
    fn next_id(&mut self) -> (id: NodeId)
        requires
            old(self)@.count < u32::MAX,
        ensures
            id == old(self)@.next_id(),
            id@ == old(self)@.count,
            final(self)@ == (StackView { count: old(self)@.count + 1, ..old(self)@ }),
    {
        let id = NodeId::new(self.len as usize);
        self.len = self.len + 1;
        id
    }

    /// Enter a node: give it the next id, record the id in the AST, and push it.
    pub fn add_node(&mut self, kind: AstKind<'a>, scope_id: ScopeId, flags: NodeFlags) -> (node_id: NodeId)
        requires
            old(self)@.wf(),
            old(self)@.count < u32::MAX,
            old(self)@.depth() < STACK_DEPTH_LIMIT,
        ensures
            node_id == old(self)@.next_id(),
            node_id@ == old(self)@.count,
            final(self)@ == old(self)@.add(kind, scope_id, flags),
            final(self)@.wf(),
    {
        let node_id = self.next_id();
        set_ast_kind_node_id(kind, node_id.index());
        entry_stack_push(&mut self.stack, StackEntry { id: node_id, node: AstNode::new(kind, scope_id), flags });
        node_id
    }

    /// Enter the `Program` node, which must be the first node of the AST.
    pub fn add_program_node(&mut self, kind: AstKind<'a>, scope_id: ScopeId, flags: NodeFlags) -> (node_id: NodeId)
        requires
            old(self)@.wf(),
            old(self)@.depth() == 0,
            old(self)@.count == 0,
        ensures
            node_id@ == 0,
            node_id == old(self)@.next_id(),
            final(self)@ == old(self)@.add(kind, scope_id, flags),
            final(self)@.wf(),
    {
        let node_id = self.next_id();
        set_ast_kind_node_id(kind, node_id.index());
        entry_stack_push(&mut self.stack, StackEntry { id: node_id, node: AstNode::new(kind, scope_id), flags });
        node_id
    }

    /// Pop the current node and return its parent's id.
    pub fn pop_node(&mut self) -> (parent_id: NodeId)
        requires
            old(self)@.wf(),
        ensures
            final(self)@ == old(self)@.pop(),
            parent_id == old(self)@.pop().top_id(),
            final(self)@.wf(),
    {
        proof {
            old(self)@.lemma_pop_wf();
        }
        let _ = entry_stack_pop(&mut self.stack);
        match entry_stack_last(&self.stack) {
            Some(entry) => entry.id,
            None => NodeId::root(),
        }
    }

    /// The node `id`, which must be on the stack.
    pub fn get_node(&self, id: NodeId) -> (node: &AstNode<'a>)
        requires
            self@.wf(),
            self@.is_live(id),
        ensures
            *node == self@.node(id),
    {
        let pos = self.position(id);
        let entries = entry_stack_as_slice(&self.stack);
        &entries[pos].node
    }

    /// The parent of `id`, which must be on the stack: the entry below it,
    /// or the root's id for the bottom entry.
    pub fn parent_id(&self, id: NodeId) -> (parent_id: NodeId)
        requires
            self@.wf(),
            self@.is_live(id),
        ensures
            parent_id == self@.parent(id),
    {
        let pos = self.position(id);
        if pos == 0 {
            NodeId::root()
        } else {
            let entries = entry_stack_as_slice(&self.stack);
            entries[pos - 1].id
        }
    }

    /// Mutable access to the flags of `id`, which must be on the stack.
    pub fn flags_mut(&mut self, id: NodeId) -> (flags: &mut NodeFlags)
        requires
            old(self)@.wf(),
            old(self)@.is_live(id),
        ensures
            *flags == old(self)@.flags(id),
            final(self)@ == old(self)@.set_flags(id, *final(flags)),
            final(self)@.wf(),
    {
        let pos = self.position(id);
        let entry = entry_stack_get_mut(&mut self.stack, pos);
        &mut entry.flags
    }

    /// The ancestors of `id`, which must be on the stack: parent first, the
    /// bottom entry last.
    pub fn ancestor_ids<'n>(&'n self, id: NodeId) -> (iter: StackAncestorIdsIter<'n, 'a>)
        requires
            self@.wf(),
            self@.is_live(id),
        ensures
            iter.wf(),
            iter.remaining() == self@.ancestors(id),
    {
        let pos = self.position(id);
        let entries = entry_stack_as_slice(&self.stack);
        StackAncestorIdsIter { stack: entries, index: pos }
    }
}

/// Iterator over the ids of a node's ancestors in an [`AncestorStack`].
///
/// Yields the parent first and the bottom of the stack (the root `Program`)
/// last, the order full storage uses.
#[derive(Clone, Copy)]
pub struct StackAncestorIdsIter<'n, 'a> {
    stack: &'n [StackEntry<'a>],
    /// Position of the node whose ancestors are being yielded. Walks downward.
    index: usize,
}

impl<'n, 'a> StackAncestorIdsIter<'n, 'a> {
    pub closed spec fn wf(&self) -> bool {
        self.index <= self.stack@.len()
    }

    /// The ids still to come, in the order they will come.
    pub closed spec fn remaining(&self) -> Seq<NodeId> {
        chain_below(self.stack@.map_values(|e: StackEntry<'a>| e.id), self.index as int)
    }

    /// The next ancestor id, or `None` once the root has been yielded.
    pub fn next(&mut self) -> (next: Option<NodeId>)
        requires
            old(self).wf(),
        ensures
            final(self).wf(),
            old(self).remaining().len() == 0 ==> next is None && final(self).remaining()
                == old(self).remaining(),
            old(self).remaining().len() > 0 ==> next == Some(old(self).remaining()[0])
                && final(self).remaining() == old(self).remaining().drop_first(),
    {
        if self.index == 0 {
            // Root has no parent.
            return None;
        }
        self.index = self.index - 1;
        let id = self.stack[self.index].id;
        proof {
            let ids = self.stack@.map_values(|e: StackEntry<'a>| e.id);
            assert(chain_below(ids, self.index as int) =~= chain_below(ids, self.index + 1).drop_first());
        }
        Some(id)
    }
}

} // verus!
