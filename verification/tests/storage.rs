use oxc_allocator::Allocator;
use oxc_ast::builder::AstBuilder;
use node_storage::ancestor_stack::AncestorStack;
use node_storage::ast_node::AstNode;
use node_storage::ast_nodes::AstNodes;
use node_storage::node_id::NodeId;
use node_storage::storage::NodeStorage;
use oxc_ast::ast::NullLiteral;
use oxc_ast::AstKind;
use oxc_span::Span;
use oxc_syntax::node::NodeFlags;
use oxc_syntax::scope::ScopeId;

fn literal() -> NullLiteral {
    let allocator = Allocator::default();
    NullLiteral::new(Span::default(), &AstBuilder::new(&allocator))
}

fn ids(v: &[NodeId]) -> Vec<usize> {
    v.iter().map(|id| id.index()).collect()
}

/// Drives a storage through: Program (0) > A (1) > B (2), leave B, enter C (3) under A.
fn drive<'a>(storage: &mut NodeStorage<'a>, lits: &'a [NullLiteral; 4]) -> [NodeId; 4] {
    let scope = ScopeId::new(0);
    let root = storage.add_program_node(AstKind::NullLiteral(&lits[0]), scope, NodeFlags::empty());
    let a = storage.add_node(AstKind::NullLiteral(&lits[1]), scope, root, NodeFlags::empty());
    let b = storage.add_node(AstKind::NullLiteral(&lits[2]), ScopeId::new(1), a, NodeFlags::JSDoc);
    let back = storage.pop_node(b);
    assert_eq!(back, a);
    let c = storage.add_node(AstKind::NullLiteral(&lits[3]), scope, a, NodeFlags::empty());
    [root, a, b, c]
}

#[test]
fn node_id_roundtrip() {
    assert_eq!(NodeId::new(7).index(), 7);
    assert_eq!(NodeId::new(4_294_967_294).index(), 4_294_967_294);
    assert!(NodeId::new(2) < NodeId::new(3));
    assert_eq!(NodeId::root().index(), 0);
    assert_eq!(NodeId::new(0), NodeId::root());
    assert_ne!(NodeId::new(1), NodeId::root());
}

#[test]
fn ast_node_parts() {
    let lit = literal();
    let node = AstNode::new(AstKind::NullLiteral(&lit), ScopeId::new(3));
    assert_eq!(node.scope_id(), ScopeId::new(3));
    assert!(matches!(node.kind(), AstKind::NullLiteral(l) if std::ptr::eq(l, &lit)));
}

#[test]
fn ancestor_stack_ids_and_parents() {
    let lits = [literal(), literal(), literal(), literal()];
    let mut storage = NodeStorage::ancestor_stack();
    let [root, a, b, c] = drive(&mut storage, &lits);
    assert_eq!(ids(&[root, a, b, c]), vec![0, 1, 2, 3]);
    assert_eq!(storage.len(), 4);
    assert_eq!(storage.parent_id(c), a);
    assert_eq!(storage.parent_id(a), root);
    assert_eq!(storage.parent_id(root), NodeId::root());
    assert_eq!(ids(&storage.ancestor_ids(c)), vec![1, 0]);
    assert_eq!(ids(&storage.ancestor_ids(a)), vec![0]);
    assert!(storage.ancestor_ids(root).is_empty());
}

#[test]
fn ids_are_recorded_in_the_ast() {
    let lits = [literal(), literal(), literal(), literal()];
    let mut storage = NodeStorage::ancestor_stack();
    drive(&mut storage, &lits);
    let recorded: Vec<usize> = lits.iter().map(|l| l.node_id.get().index()).collect();
    assert_eq!(recorded, vec![0, 1, 2, 3]);

    let lits2 = [literal(), literal(), literal(), literal()];
    let mut full = NodeStorage::full();
    drive(&mut full, &lits2);
    let recorded2: Vec<usize> = lits2.iter().map(|l| l.node_id.get().index()).collect();
    assert_eq!(recorded2, vec![0, 1, 2, 3]);
}

#[test]
fn both_backends_agree() {
    let lits = [literal(), literal(), literal(), literal()];
    let lits2 = [literal(), literal(), literal(), literal()];
    let mut stack = NodeStorage::ancestor_stack();
    let mut full = NodeStorage::full();
    let s = drive(&mut stack, &lits);
    let f = drive(&mut full, &lits2);
    assert_eq!(s, f);
    assert_eq!(stack.len(), full.len());
    for id in [s[0], s[1], s[3]] {
        assert_eq!(stack.parent_id(id), full.parent_id(id));
        assert_eq!(ids(&stack.ancestor_ids(id)), ids(&full.ancestor_ids(id)));
        assert_eq!(stack.get_node(id).scope_id(), full.get_node(id).scope_id());
        if id != s[0] {
            assert_eq!(stack.ancestor_ids(id)[0], stack.parent_id(id));
            assert_eq!(stack.ancestor_ids(id).last().map(|r| r.index()), Some(0));
        }
    }
    // Leaving C then A in both returns the same parents.
    assert_eq!(stack.pop_node(s[3]), full.pop_node(f[3]));
    assert_eq!(stack.pop_node(s[1]), full.pop_node(f[1]));
    assert_eq!(stack.pop_node(s[0]), NodeId::root());
    assert_eq!(full.pop_node(f[0]), NodeId::root());
}

#[test]
fn kinds_and_nodes_of_ancestors() {
    let lits = [literal(), literal(), literal(), literal()];
    let mut storage = NodeStorage::ancestor_stack();
    let [root, a, _b, c] = drive(&mut storage, &lits);
    assert!(matches!(storage.kind(c), AstKind::NullLiteral(l) if std::ptr::eq(l, &lits[3])));
    assert!(matches!(storage.parent_kind(c), AstKind::NullLiteral(l) if std::ptr::eq(l, &lits[1])));
    assert_eq!(storage.parent_node(c).scope_id(), ScopeId::new(0));
    let kinds = storage.ancestor_kinds(c);
    assert_eq!(kinds.len(), 2);
    assert!(matches!(kinds[0], AstKind::NullLiteral(l) if std::ptr::eq(l, &lits[1])));
    assert!(matches!(kinds[1], AstKind::NullLiteral(l) if std::ptr::eq(l, &lits[0])));
    let nodes = storage.ancestors(c);
    assert_eq!(nodes.len(), 2);
    let pairs = storage.ancestors_enumerated(c);
    assert_eq!(ids(&pairs.iter().map(|p| p.0).collect::<Vec<_>>()), vec![a.index(), root.index()]);
    assert!(std::ptr::eq(pairs[0].1, storage.get_node(a)));
}

#[test]
fn full_storage_keeps_left_nodes() {
    let lits = [literal(), literal(), literal(), literal()];
    let mut storage = NodeStorage::full();
    let [root, a, b, _c] = drive(&mut storage, &lits);
    // B was left, but full storage still answers for it.
    assert_eq!(storage.parent_id(b), a);
    assert_eq!(ids(&storage.ancestor_ids(b)), vec![a.index(), root.index()]);
    assert_eq!(storage.get_node(b).scope_id(), ScopeId::new(1));
    let nodes = storage.into_ast_nodes();
    assert_eq!(nodes.len(), 4);
}

fn change_flags<'a>(mut storage: NodeStorage<'a>, lits: &'a [NullLiteral; 4]) {
    let [root, a, _b, c] = drive(&mut storage, lits);
    assert_eq!(*storage.flags_mut(c), NodeFlags::empty());
    *storage.flags_mut(a) = NodeFlags::JSDoc;
    assert_eq!(*storage.flags_mut(a), NodeFlags::JSDoc);
    assert_eq!(*storage.flags_mut(root), NodeFlags::empty());
    assert_eq!(*storage.flags_mut(c), NodeFlags::empty());
}

#[test]
fn flags_can_be_changed_in_place() {
    let lits = [literal(), literal(), literal(), literal()];
    change_flags(NodeStorage::ancestor_stack(), &lits);
    let lits2 = [literal(), literal(), literal(), literal()];
    change_flags(NodeStorage::full(), &lits2);
}

#[test]
fn ancestor_stack_into_ast_nodes_is_empty() {
    let lits = [literal(), literal(), literal(), literal()];
    let mut storage = NodeStorage::ancestor_stack();
    drive(&mut storage, &lits);
    assert_eq!(storage.into_ast_nodes().len(), 0);
}

#[test]
fn default_is_full_and_reserve_keeps_contents() {
    let lits = [literal(), literal(), literal(), literal()];
    let mut storage = NodeStorage::default();
    assert!(matches!(storage, NodeStorage::Full(_)));
    assert_eq!(storage.len(), 0);
    storage.reserve(100);
    assert_eq!(storage.len(), 0);
    drive(&mut storage, &lits);
    storage.reserve(10);
    assert_eq!(storage.len(), 4);
}

#[test]
fn pop_on_empty_stack_returns_root() {
    let mut stack = AncestorStack::new();
    assert_eq!(stack.pop_node(), NodeId::root());
    assert_eq!(stack.len(), 0);
}

#[test]
fn stack_iterator_yields_parent_first() {
    let lits = [literal(), literal(), literal()];
    let scope = ScopeId::new(0);
    let mut stack = AncestorStack::new();
    let root = stack.add_program_node(AstKind::NullLiteral(&lits[0]), scope, NodeFlags::empty());
    let a = stack.add_node(AstKind::NullLiteral(&lits[1]), scope, NodeFlags::empty());
    let b = stack.add_node(AstKind::NullLiteral(&lits[2]), scope, NodeFlags::empty());
    let mut iter = stack.ancestor_ids(b);
    let copy = iter.clone();
    assert_eq!(iter.next(), Some(a));
    assert_eq!(iter.next(), Some(root));
    assert_eq!(iter.next(), None);
    assert_eq!(iter.next(), None);
    let mut again = copy;
    assert_eq!(again.next(), Some(a));
    assert_eq!(stack.get_node(a).scope_id(), scope);
    assert_eq!(stack.parent_id(b), a);
}

#[test]
fn pop_then_add_does_not_reuse_ids() {
    let lits = [literal(), literal(), literal()];
    let scope = ScopeId::new(0);
    let mut stack = AncestorStack::new();
    let root = stack.add_program_node(AstKind::NullLiteral(&lits[0]), scope, NodeFlags::empty());
    let a = stack.add_node(AstKind::NullLiteral(&lits[1]), scope, NodeFlags::empty());
    assert_eq!(stack.pop_node(), root);
    let b = stack.add_node(AstKind::NullLiteral(&lits[2]), scope, NodeFlags::empty());
    assert_eq!(a.index(), 1);
    assert_eq!(b.index(), 2);
    assert_eq!(stack.parent_id(b), root);
    assert_eq!(stack.len(), 3);
}

#[test]
fn full_nodes_directly() {
    let lits = [literal(), literal()];
    let scope = ScopeId::new(0);
    let mut nodes = AstNodes::default();
    let root = nodes.add_program_node(AstKind::NullLiteral(&lits[0]), scope, NodeFlags::empty());
    let a = nodes.add_node(AstKind::NullLiteral(&lits[1]), scope, root, NodeFlags::JSDoc);
    assert_eq!(nodes.len(), 2);
    assert_eq!(nodes.parent_id(a), root);
    assert_eq!(nodes.parent_id(root), root);
    assert_eq!(*nodes.flags_mut(a), NodeFlags::JSDoc);
    assert_eq!(ids(&nodes.ancestor_ids(a)), vec![0]);
}
