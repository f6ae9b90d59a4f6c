//! Properties that span the operations: what the ancestor stack answers
//! agrees with what full storage answers, ids come from one counter, and
//! leaving a node undoes entering it.

use crate::ancestor_stack::{chain_below, StackEntry, StackView};
use crate::ast_node::AstNode;
use crate::ast_nodes::{parent_chain, FullView};
use crate::node_id::NodeId;
use crate::storage::StorageView;
use oxc_ast::AstKind;
use oxc_syntax::node::NodeFlags;
use oxc_syntax::scope::ScopeId;
use vstd::prelude::*;

verus! {

broadcast use {NodeId::lemma_view_eq, NodeId::lemma_from_index};

/// The ancestor stack `s` holds exactly the chain that full storage `f`
/// records for the current node: both created the same number of nodes; each
/// entry's node and flags are `f`'s for that id; each entry's parent in `f`
/// is the entry below it; and the bottom entry is the root.
pub open spec fn mirrors<'a>(s: StackView<'a>, f: FullView<'a>) -> bool {
    &&& s.count == f.count()
    &&& forall|k: int| 0 <= k < s.depth() ==> f.node((#[trigger] s.entries[k]).id) == s.entries[k].node
    &&& forall|k: int| 0 <= k < s.depth() ==> f.flags_of((#[trigger] s.entries[k]).id) == s.entries[k].flags
    &&& forall|k: int| 0 < k < s.depth() ==> f.parent((#[trigger] s.entries[k]).id) == s.entries[k - 1].id
    &&& s.depth() > 0 ==> s.entries[0].id@ == 0
}

/// Two empty storages, one of each backend, mirror each other.
pub proof fn law_mirror_empty<'a>(s: StackView<'a>, f: FullView<'a>)
    requires
        s.depth() == 0,
        s.count == 0,
        f.count() == 0,
    ensures
        mirrors(s, f),
{
}

/// Adding the `Program` node to two empty storages hands out the same id and
/// keeps them mirrored.
pub proof fn law_mirror_add_program<'a>(
    s: StackView<'a>,
    f: FullView<'a>,
    kind: AstKind<'a>,
    scope_id: ScopeId,
    flags: NodeFlags,
)
    requires
        s.wf(),
        f.wf(),
        mirrors(s, f),
        s.depth() == 0,
        f.count() == 0,
    ensures
        StorageView::Ancestors(s).next_id() == StorageView::Full(f).next_id(),
        mirrors(
            StorageView::Ancestors(s).add_program(kind, scope_id, flags)->Ancestors_0,
            StorageView::Full(f).add_program(kind, scope_id, flags)->Full_0,
        ),
{
    let s2 = s.add(kind, scope_id, flags);
    let f2 = f.add(kind, scope_id, NodeId::from_index(0), flags);
    assert(s2.entries[0].id == NodeId::from_index(0));
}

/// Entering a child of the current node in both backends hands out the same
/// id and keeps them mirrored.
pub proof fn law_mirror_add<'a>(
    s: StackView<'a>,
    f: FullView<'a>,
    kind: AstKind<'a>,
    scope_id: ScopeId,
    flags: NodeFlags,
)
    requires
        s.wf(),
        f.wf(),
        mirrors(s, f),
        s.depth() > 0,
        s.count < u32::MAX,
    ensures
        s.next_id() == f.next_id(),
        mirrors(s.add(kind, scope_id, flags), f.add(kind, scope_id, s.top_id(), flags)),
{
    let s2 = s.add(kind, scope_id, flags);
    let f2 = f.add(kind, scope_id, s.top_id(), flags);
    let n = s.depth() as int;
    assert forall|k: int| 0 <= k < s2.depth() implies f2.node((#[trigger] s2.entries[k]).id) == s2.entries[k].node
        && f2.flags_of(s2.entries[k].id) == s2.entries[k].flags by {
        if k < n {
            assert(s2.entries[k] == s.entries[k]);
            assert(s.entries[k].id@ < s.count);
        }
    }
    assert forall|k: int| 0 < k < s2.depth() implies f2.parent((#[trigger] s2.entries[k]).id) == s2.entries[k - 1].id by {
        if k < n {
            assert(s2.entries[k] == s.entries[k]);
            assert(s2.entries[k - 1] == s.entries[k - 1]);
            assert(s.entries[k].id@ < s.count);
        }
    }
}

/// Leaving the current node: the ancestor stack returns the parent that full
/// storage records for it, and the two stay mirrored.
pub proof fn law_mirror_pop<'a>(s: StackView<'a>, f: FullView<'a>)
    requires
        s.wf(),
        f.wf(),
        mirrors(s, f),
        s.depth() > 0,
    ensures
        f.is_live(s.top_id()),
        StorageView::Ancestors(s).popped_parent(s.top_id()) == StorageView::Full(f).popped_parent(s.top_id()),
        mirrors(s.pop(), f),
{
    let n = s.depth() as int;
    let p = s.pop();
    assert(s.entries[n - 1].id@ < s.count);
    assert forall|k: int| 0 <= k < p.depth() implies #[trigger] p.entries[k] == s.entries[k] by {}
    if n == 1 {
        assert(s.entries[0].id@ == 0);
    }
}

/// Every query on a node of the live chain answers the same in both backends.
pub proof fn law_mirror_queries<'a>(s: StackView<'a>, f: FullView<'a>, id: NodeId)
    requires
        s.wf(),
        f.wf(),
        mirrors(s, f),
        s.is_live(id),
    ensures
        f.is_live(id),
        f.node(id) == s.node(id),
        f.flags_of(id) == s.flags(id),
        f.parent(id) == s.parent(id),
        f.ancestors(id) == s.ancestors(id),
{
    s.lemma_live_pos(id);
    let pos = s.pos_of(id);
    assert(s.entries[pos].id@ < s.count);
    lemma_mirror_chain(s, f, pos);
}

/// The full-storage ancestors of the entry at position `k` are the entries
/// below it, nearest first.
proof fn lemma_mirror_chain<'a>(s: StackView<'a>, f: FullView<'a>, k: int)
    requires
        s.wf(),
        f.wf(),
        mirrors(s, f),
        0 <= k < s.depth(),
    ensures
        parent_chain(f.parents, s.entries[k].id@) == chain_below(s.ids(), k),
    decreases k,
{
    let id = s.entries[k].id;
    assert(id@ < s.count);
    if k == 0 {
        assert(parent_chain(f.parents, id@) =~= chain_below(s.ids(), k));
    } else {
        lemma_mirror_chain(s, f, k - 1);
        let p = s.entries[k - 1].id;
        assert(p@ < id@);
        assert(f.parents[id@ as int] == p);
        assert(parent_chain(f.parents, id@) == seq![p] + parent_chain(f.parents, p@));
        assert(seq![p] + chain_below(s.ids(), k - 1) =~= chain_below(s.ids(), k));
    }
}

/// Changing the flags of a node of the live chain in both backends keeps them
/// mirrored.
pub proof fn law_mirror_set_flags<'a>(s: StackView<'a>, f: FullView<'a>, id: NodeId, flags: NodeFlags)
    requires
        s.wf(),
        f.wf(),
        mirrors(s, f),
        s.is_live(id),
    ensures
        mirrors(s.set_flags(id, flags), f.set_flags(id, flags)),
{
    s.lemma_live_pos(id);
    let pos = s.pos_of(id);
    let s2 = s.set_flags(id, flags);
    let f2 = f.set_flags(id, flags);
    assert(s.entries[pos].id@ < s.count);
    assert forall|k: int| 0 <= k < s2.depth() implies f2.flags_of((#[trigger] s2.entries[k]).id) == s2.entries[k].flags by {
        assert(s.entries[k].id@ < s.count);
        if k != pos {
            if k < pos {
                assert(s.entries[k].id@ < s.entries[pos].id@);
            } else {
                assert(s.entries[pos].id@ < s.entries[k].id@);
            }
        }
    }
    assert forall|k: int| 0 <= k < s2.depth() implies f2.node((#[trigger] s2.entries[k]).id) == s2.entries[k].node by {
        assert(s2.entries[k].id == s.entries[k].id);
    }
    assert forall|k: int| 0 < k < s2.depth() implies f2.parent((#[trigger] s2.entries[k]).id) == s2.entries[k - 1].id by {
        assert(s2.entries[k].id == s.entries[k].id);
        assert(s2.entries[k - 1].id == s.entries[k - 1].id);
    }
}

/// Ids come from one counter in either backend: adding a node hands out the
/// count so far and raises it by one, leaving a node or changing flags does
/// not lower it, so no id is handed out twice.
pub proof fn law_ids_from_counter<'a>(
    v: StorageView<'a>,
    kind: AstKind<'a>,
    scope_id: ScopeId,
    parent: NodeId,
    flags: NodeFlags,
    id: NodeId,
)
    requires
        v.wf(),
        v.can_add(parent),
    ensures
        v.next_id()@ == v.count(),
        v.add(kind, scope_id, parent, flags).count() == v.count() + 1,
        v.pop().count() == v.count(),
        v.set_flags(id, flags).count() == v.count(),
{
}

/// Leaving a node just entered gives back the chain as it was, with the
/// entering node's parent (the previous current node, or the root on an empty
/// stack) as the answer; the counter keeps the id that was used.
pub proof fn law_pop_undoes_add<'a>(s: StackView<'a>, kind: AstKind<'a>, scope_id: ScopeId, flags: NodeFlags)
    requires
        s.wf(),
        s.count < u32::MAX,
    ensures
        s.add(kind, scope_id, flags).pop().entries == s.entries,
        s.add(kind, scope_id, flags).pop().count == s.count + 1,
        s.add(kind, scope_id, flags).pop().top_id() == s.top_id(),
{
    assert(s.add(kind, scope_id, flags).pop().entries =~= s.entries);
}

/// The first ancestor of a node that has one is its parent.
pub proof fn law_parent_is_first_ancestor<'a>(v: StorageView<'a>, id: NodeId)
    requires
        v.wf(),
        v.is_live(id),
        v.ancestors(id).len() > 0,
    ensures
        v.ancestors(id)[0] == v.parent(id),
{
    if let StorageView::Ancestors(s) = v {
        s.lemma_live_pos(id);
    }
}

/// In full storage every node but the root has ancestors, and they end at the
/// root `Program` node.
pub proof fn law_full_ancestors_end_at_root<'a>(f: FullView<'a>, id: NodeId)
    requires
        f.wf(),
        f.is_live(id),
        id@ > 0,
    ensures
        f.ancestors(id).len() > 0,
        f.ancestors(id)[0] == f.parent(id),
        f.ancestors(id).last()@ == 0,
{
    lemma_chain_ends_at_root(f, id@);
}

proof fn lemma_chain_ends_at_root<'a>(f: FullView<'a>, i: nat)
    requires
        f.wf(),
        0 < i < f.count(),
    ensures
        parent_chain(f.parents, i).len() > 0,
        parent_chain(f.parents, i).last()@ == 0,
    decreases i,
{
    let p = f.parents[i as int];
    assert(parent_chain(f.parents, i) == seq![p] + parent_chain(f.parents, p@));
    if p@ > 0 {
        lemma_chain_ends_at_root(f, p@);
    } else {
        assert(parent_chain(f.parents, p@) =~= Seq::<NodeId>::empty());
        assert(parent_chain(f.parents, i) =~= seq![p]);
    }
}

/// On an ancestor stack whose bottom entry is the root, the ancestors of any
/// entry above the bottom end at the root, parent first.
pub proof fn law_stack_ancestors_end_at_root<'a>(s: StackView<'a>, id: NodeId)
    requires
        s.wf(),
        s.is_live(id),
        s.entries[0].id@ == 0,
        s.pos_of(id) > 0,
    ensures
        s.ancestors(id).len() > 0,
        s.ancestors(id)[0] == s.parent(id),
        s.ancestors(id).last()@ == 0,
{
    s.lemma_live_pos(id);
}

/// Both backends number nodes from the same counter: with as many nodes
/// created, they hand out the same next id, and they stay level after adding a
/// node or leaving one, whatever the parent given.
pub proof fn law_same_ids_across_backends<'a>(
    f: FullView<'a>,
    s: StackView<'a>,
    kind: AstKind<'a>,
    scope_id: ScopeId,
    parent: NodeId,
    flags: NodeFlags,
)
    requires
        f.count() == s.count,
    ensures
        StorageView::Full(f).next_id() == StorageView::Ancestors(s).next_id(),
        StorageView::Full(f).add(kind, scope_id, parent, flags).count()
            == StorageView::Ancestors(s).add(kind, scope_id, parent, flags).count(),
        StorageView::Full(f).pop().count() == StorageView::Ancestors(s).pop().count(),
{
}

/// Walking up from a live node visits its whole parent chain: the first
/// ancestor is the node's parent, each next one is the parent of the one
/// before, and the walk runs to the bottom. In full storage that is the parent
/// ids recorded when the nodes were added, ending at the root for any node but
/// the root; on the ancestor stack it is every entry below the node, nearest
/// first, ending at the root when the root is at the bottom.
pub proof fn law_ancestors_are_the_parent_chain<'a>(v: StorageView<'a>, id: NodeId)
    requires
        v.wf(),
        v.is_live(id),
    ensures
        v.ancestors(id).len() > 0 ==> v.ancestors(id)[0] == v.parent(id),
        forall|k: int|
            0 <= k < v.ancestors(id).len() - 1 ==> v.ancestors(id)[k + 1] == v.parent(
                #[trigger] v.ancestors(id)[k],
            ),
        v matches StorageView::Full(f) ==> {
            &&& (v.ancestors(id).len() > 0 <==> id@ > 0)
            &&& id@ > 0 ==> v.ancestors(id)[0] == f.parents[id@ as int]
            &&& forall|k: int|
                0 <= k < v.ancestors(id).len() - 1 ==> v.ancestors(id)[k + 1]
                    == f.parents[(#[trigger] v.ancestors(id)[k])@ as int]
            &&& id@ > 0 ==> v.ancestors(id).last()@ == 0
        },
        v matches StorageView::Ancestors(s) ==> {
            &&& 0 <= s.pos_of(id) < s.depth()
            &&& s.entries[s.pos_of(id)].id == id
            &&& v.ancestors(id).len() == s.pos_of(id)
            &&& forall|k: int|
                0 <= k < v.ancestors(id).len() ==> #[trigger] v.ancestors(id)[k]
                    == s.entries[s.pos_of(id) - 1 - k].id
            &&& s.entries[0].id@ == 0 && s.pos_of(id) > 0 ==> v.ancestors(id).last()@ == 0
        },
{
    match v {
        StorageView::Full(f) => {
            if id@ > 0 {
                lemma_full_chain_links(f, id@);
            }
        },
        StorageView::Ancestors(s) => {
            s.lemma_live_pos(id);
            let pos = s.pos_of(id);
            let anc = s.ancestors(id);
            assert forall|k: int| 0 <= k < anc.len() - 1 implies anc[k + 1] == s.parent(#[trigger] anc[k]) by {
                s.lemma_pos_of(s.entries[pos - 1 - k].id, pos - 1 - k);
            }
            if pos > 0 {
                assert(anc[0] == s.entries[pos - 1].id);
            }
        },
    }
}

/// In full storage the ancestors of a node other than the root start at its
/// recorded parent, follow the recorded parents, and end at the root.
proof fn lemma_full_chain_links<'a>(f: FullView<'a>, i: nat)
    requires
        f.wf(),
        0 < i < f.count(),
    ensures
        parent_chain(f.parents, i).len() > 0,
        parent_chain(f.parents, i)[0] == f.parents[i as int],
        forall|k: int|
            0 <= k < parent_chain(f.parents, i).len() - 1 ==> parent_chain(f.parents, i)[k + 1]
                == f.parents[(#[trigger] parent_chain(f.parents, i)[k])@ as int],
        parent_chain(f.parents, i).last()@ == 0,
    decreases i,
{
    let p = f.parents[i as int];
    let c = parent_chain(f.parents, i);
    assert(c == seq![p] + parent_chain(f.parents, p@));
    if p@ > 0 {
        lemma_full_chain_links(f, p@);
        let r = parent_chain(f.parents, p@);
        assert forall|k: int| 0 <= k < c.len() - 1 implies c[k + 1] == f.parents[(#[trigger] c[k])@ as int] by {
            assert(c[k + 1] == r[k]);
            if k > 0 {
                assert(c[k] == r[k - 1]);
            }
        }
    } else {
        assert(parent_chain(f.parents, p@) =~= Seq::<NodeId>::empty());
        assert(c =~= seq![p]);
    }
}

/// Leaving a node takes exactly one entry off the ancestor stack, its top, and
/// keeps every entry below it and the counter; it answers with the entry now on
/// top, or the root's id once the stack is empty. Full storage is not changed
/// by leaving a node and answers with the parent recorded for it.
pub proof fn law_pop_removes_exactly_the_top<'a>(v: StorageView<'a>, current: NodeId)
    requires
        v.wf(),
        v.can_pop(current),
    ensures
        v.pop().wf(),
        v.pop().count() == v.count(),
        v matches StorageView::Full(f) ==> v.pop() == v && v.popped_parent(current)
            == f.parents[current@ as int],
        v matches StorageView::Ancestors(s) ==> {
            &&& v.pop() is Ancestors
            &&& s.depth() > 0 ==> v.pop()->Ancestors_0.depth() == s.depth() - 1
            &&& s.depth() == 0 ==> v.pop()->Ancestors_0.depth() == 0
            &&& forall|k: int|
                0 <= k < v.pop()->Ancestors_0.depth() ==> #[trigger] v.pop()->Ancestors_0.entries[k]
                    == s.entries[k]
            &&& s.depth() >= 2 ==> v.popped_parent(current) == s.entries[s.depth() - 2].id
            &&& s.depth() < 2 ==> v.popped_parent(current)@ == 0
        },
{
    if let StorageView::Ancestors(s) = v {
        s.lemma_pop_wf();
    }
}

/// Leaving a node keeps every other node that could be looked up before: it
/// stays live, with the same node, flags and parent.
pub proof fn law_pop_keeps_the_rest<'a>(v: StorageView<'a>, current: NodeId, id: NodeId)
    requires
        v.wf(),
        v.can_pop(current),
        v.is_live(id),
        v matches StorageView::Ancestors(s) ==> id != s.top_id(),
    ensures
        v.pop().is_live(id),
        v.pop().node(id) == v.node(id),
        v.pop().flags(id) == v.flags(id),
        v.pop().parent(id) == v.parent(id),
{
    if let StorageView::Ancestors(s) = v {
        s.lemma_live_pos(id);
        s.lemma_pop_wf();
        let pos = s.pos_of(id);
        let p = s.pop();
        assert(pos < s.depth() - 1);
        assert(p.entries[pos] == s.entries[pos]);
        p.lemma_pos_of(id, pos);
        if pos > 0 {
            assert(p.entries[pos - 1] == s.entries[pos - 1]);
        }
    }
}

/// Adding a node makes it readable under the id handed out: it is live, and
/// its node, flags and parent are the ones given (on the ancestor stack the
/// parent is the node that was current). The count goes up by one and the
/// storage stays well formed.
pub proof fn law_added_node_reads_back<'a>(
    v: StorageView<'a>,
    kind: AstKind<'a>,
    scope_id: ScopeId,
    parent: NodeId,
    flags: NodeFlags,
)
    requires
        v.wf(),
        v.can_add(parent),
    ensures
        v.add(kind, scope_id, parent, flags).wf(),
        v.add(kind, scope_id, parent, flags).count() == v.count() + 1,
        v.next_id()@ == v.count(),
        v.add(kind, scope_id, parent, flags).is_live(v.next_id()),
        v.add(kind, scope_id, parent, flags).node(v.next_id()) == AstNode::from_parts(kind, scope_id),
        v.add(kind, scope_id, parent, flags).node(v.next_id()).kind_of() == kind,
        v.add(kind, scope_id, parent, flags).node(v.next_id()).scope_of() == scope_id,
        v.add(kind, scope_id, parent, flags).flags(v.next_id()) == flags,
        v matches StorageView::Full(_) ==> v.add(kind, scope_id, parent, flags).parent(v.next_id()) == parent,
        v matches StorageView::Ancestors(s) ==> v.add(kind, scope_id, parent, flags).parent(v.next_id())
            == s.top_id(),
{
    AstNode::lemma_parts(kind, scope_id);
    if let StorageView::Ancestors(s) = v {
        let w = s.add(kind, scope_id, flags);
        lemma_stack_add_wf(s, kind, scope_id, flags);
        w.lemma_pos_of(s.next_id(), s.depth() as int);
        if s.depth() > 0 {
            assert(w.entries[s.depth() - 1] == s.entries[s.depth() - 1]);
        }
    }
}

/// Adding a node leaves every node that could be looked up before as it was:
/// still live, with the same node, flags and parent.
pub proof fn law_add_keeps_the_rest<'a>(
    v: StorageView<'a>,
    kind: AstKind<'a>,
    scope_id: ScopeId,
    parent: NodeId,
    flags: NodeFlags,
    id: NodeId,
)
    requires
        v.wf(),
        v.can_add(parent),
        v.is_live(id),
    ensures
        id != v.next_id(),
        v.add(kind, scope_id, parent, flags).is_live(id),
        v.add(kind, scope_id, parent, flags).node(id) == v.node(id),
        v.add(kind, scope_id, parent, flags).flags(id) == v.flags(id),
        v.add(kind, scope_id, parent, flags).parent(id) == v.parent(id),
{
    match v {
        StorageView::Full(f) => {},
        StorageView::Ancestors(s) => {
            let w = s.add(kind, scope_id, flags);
            lemma_stack_add_wf(s, kind, scope_id, flags);
            s.lemma_live_pos(id);
            let pos = s.pos_of(id);
            assert(s.entries[pos].id@ < s.count);
            assert(w.entries[pos] == s.entries[pos]);
            w.lemma_pos_of(id, pos);
            if pos > 0 {
                assert(w.entries[pos - 1] == s.entries[pos - 1]);
            }
        },
    }
}

proof fn lemma_stack_add_wf<'a>(s: StackView<'a>, kind: AstKind<'a>, scope_id: ScopeId, flags: NodeFlags)
    requires
        s.wf(),
        s.count < u32::MAX,
    ensures
        s.add(kind, scope_id, flags).wf(),
        s.add(kind, scope_id, flags).entries[s.depth() as int].id == s.next_id(),
        forall|k: int| 0 <= k < s.depth() ==> #[trigger] s.add(kind, scope_id, flags).entries[k] == s.entries[k],
{
    let w = s.add(kind, scope_id, flags);
    assert forall|i: int| 0 <= i < w.depth() implies (#[trigger] w.entries[i]).id@ < w.count by {
        if i < s.depth() {
            assert(w.entries[i] == s.entries[i]);
        }
    }
    assert forall|i: int, j: int| 0 <= i < j < w.depth() implies (#[trigger] w.entries[i]).id@ < (#[trigger] w.entries[j]).id@ by {
        assert(w.entries[i] == s.entries[i]);
        if j < s.depth() {
            assert(w.entries[j] == s.entries[j]);
        }
    }
}

/// Changing the flags of a live node changes its flags and nothing else: it
/// reads back the new flags, and every live node keeps its liveness, node and
/// parent, and every other live node its flags.
pub proof fn law_set_flags_changes_only_that_node<'a>(v: StorageView<'a>, id: NodeId, flags: NodeFlags, other: NodeId)
    requires
        v.wf(),
        v.is_live(id),
        v.is_live(other),
    ensures
        v.set_flags(id, flags).wf(),
        v.set_flags(id, flags).count() == v.count(),
        v.set_flags(id, flags).is_live(id),
        v.set_flags(id, flags).flags(id) == flags,
        v.set_flags(id, flags).is_live(other),
        v.set_flags(id, flags).node(other) == v.node(other),
        v.set_flags(id, flags).parent(other) == v.parent(other),
        other != id ==> v.set_flags(id, flags).flags(other) == v.flags(other),
{
    if let StorageView::Ancestors(s) = v {
        s.lemma_live_pos(id);
        s.lemma_live_pos(other);
        let pos = s.pos_of(id);
        let po = s.pos_of(other);
        let w = s.set_flags(id, flags);
        assert forall|i: int| 0 <= i < w.depth() implies #[trigger] w.entries[i].id == s.entries[i].id by {}
        assert forall|i: int| 0 <= i < w.depth() implies (#[trigger] w.entries[i]).id@ < w.count by {
            assert(w.entries[i].id == s.entries[i].id);
        }
        assert forall|i: int, j: int| 0 <= i < j < w.depth() implies (#[trigger] w.entries[i]).id@ < (#[trigger] w.entries[j]).id@ by {
            assert(w.entries[i].id == s.entries[i].id);
            assert(w.entries[j].id == s.entries[j].id);
        }
        w.lemma_pos_of(id, pos);
        w.lemma_pos_of(other, po);
        if po > 0 {
            assert(w.entries[po - 1].id == s.entries[po - 1].id);
        }
    }
}

} // verus!
