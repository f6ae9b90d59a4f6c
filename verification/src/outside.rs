//! The outside types this library carries, and the trusted wrappers around
//! the outside calls it makes. Nothing here is proved: each contract states
//! what the outside crate's source shows.

use crate::ancestor_stack::StackEntry;
use crate::node_id::MAX_NODE_INDEX;
use oxc_ast::AstKind;
use oxc_data_structures::stack::Stack;
use oxc_syntax::node::NodeFlags;
use oxc_syntax::scope::ScopeId;
use vstd::prelude::*;

verus! {

/// `oxc_ast::AstKind`: a reference to an AST node, tagged by its type.
#[verifier::external_type_specification]
#[verifier::external_body]
pub struct ExAstKind<'a>(AstKind<'a>);

/// `oxc_syntax::scope::ScopeId`.
#[verifier::external_type_specification]
#[verifier::external_body]
pub struct ExScopeId(ScopeId);

/// `oxc_syntax::node::NodeFlags`.
#[verifier::external_type_specification]
#[verifier::external_body]
pub struct ExNodeFlags(NodeFlags);

/// `oxc_data_structures::stack::Stack`.
#[verifier::external_type_specification]
#[verifier::external_body]
#[verifier::reject_recursive_types(T)]
pub struct ExStack<T>(Stack<T>);

/// The entries of a stack, bottom first.
pub uninterp spec fn stack_entries(stack: Stack<StackEntry<'_>>) -> Seq<StackEntry<'_>>;

/// A depth below which pushing never hits `Stack::MAX_CAPACITY`.
///
/// `MAX_CAPACITY` is `isize::MAX / size_of::<StackEntry>()`. A `StackEntry`
/// takes 32 bytes on 64-bit targets and 20 on 32-bit ones, so the maximum is
/// above 2^26 entries on either.
pub const STACK_DEPTH_LIMIT: usize = 0x0400_0000;

/// Calls `AstKind::set_node_id`, which stores the node id of index `index`
/// in the `Cell` of the AST node that `kind` refers to. The index is turned
/// into that id by `oxc_syntax::node::NodeId::new`, which panics only above
/// `NodeId::MAX_INDEX` (`u32::MAX - 1`). The AST node lies outside anything
/// this library models, so no clause states the write.
#[verifier::external_body]
pub(crate) fn set_ast_kind_node_id(kind: AstKind<'_>, index: usize)
    requires
        index <= MAX_NODE_INDEX,
{
    kind.set_node_id(oxc_syntax::node::NodeId::new(index))
}

/// Calls `Stack::with_capacity`, which returns an empty stack and panics only
/// when `capacity` exceeds `Stack::MAX_CAPACITY`.
#[verifier::external_body]
pub(crate) fn entry_stack_with_capacity<'a>(capacity: usize) -> (stack: Stack<StackEntry<'a>>)
    requires
        capacity <= STACK_DEPTH_LIMIT,
    ensures
        stack_entries(stack) == Seq::<StackEntry<'a>>::empty(),
{
    Stack::with_capacity(capacity)
}

/// Calls `Stack::push`, which appends `entry` on top; it panics only when the
/// stack already holds `Stack::MAX_CAPACITY` entries.
#[verifier::external_body]
pub(crate) fn entry_stack_push<'a>(stack: &mut Stack<StackEntry<'a>>, entry: StackEntry<'a>)
    requires
        stack_entries(*old(stack)).len() < STACK_DEPTH_LIMIT,
    ensures
        stack_entries(*final(stack)) == stack_entries(*old(stack)).push(entry),
{
    stack.push(entry)
}

/// Calls `Stack::pop`: `None` on an empty stack, which it leaves as it is;
/// otherwise the top entry, which it removes.
#[verifier::external_body]
pub(crate) fn entry_stack_pop<'a>(stack: &mut Stack<StackEntry<'a>>) -> (top: Option<StackEntry<'a>>)
    ensures
        stack_entries(*old(stack)).len() == 0 ==> top is None && stack_entries(*final(stack))
            == stack_entries(*old(stack)),
        stack_entries(*old(stack)).len() > 0 ==> top == Some(stack_entries(*old(stack)).last())
            && stack_entries(*final(stack)) == stack_entries(*old(stack)).drop_last(),
{
    stack.pop()
}

/// Calls `Stack::last`: the top entry, or `None` on an empty stack.
#[verifier::external_body]
pub(crate) fn entry_stack_last<'s, 'a>(stack: &'s Stack<StackEntry<'a>>) -> (top: Option<&'s StackEntry<'a>>)
    ensures
        stack_entries(*stack).len() == 0 ==> top is None,
        stack_entries(*stack).len() > 0 ==> top == Some(&stack_entries(*stack).last()),
{
    stack.last()
}

/// Calls `Stack::as_slice`: the entries, bottom first.
#[verifier::external_body]
pub(crate) fn entry_stack_as_slice<'s, 'a>(stack: &'s Stack<StackEntry<'a>>) -> (entries: &'s [StackEntry<'a>])
    ensures
        entries@ == stack_entries(*stack),
{
    stack.as_slice()
}

/// Indexes through `Stack`'s `DerefMut` to its slice: a mutable reference to
/// the entry at `index`, whose final value becomes that entry of the stack.
#[verifier::external_body]
pub(crate) fn entry_stack_get_mut<'s, 'a>(stack: &'s mut Stack<StackEntry<'a>>, index: usize) -> (entry: &'s mut StackEntry<'a>)
    requires
        index < stack_entries(*old(stack)).len(),
    ensures
        *entry == stack_entries(*old(stack))[index as int],
        stack_entries(*final(stack)) == stack_entries(*old(stack)).update(index as int, *final(entry)),
{
    &mut stack[index]
}

} // verus!
