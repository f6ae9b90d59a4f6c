//! A node as the storage keeps it: its kind and the scope it belongs to.

use oxc_ast::AstKind;
use oxc_syntax::scope::ScopeId;
use vstd::prelude::*;

verus! {

/// An AST node: the kind of syntax it is and the scope that holds it.
#[derive(Clone, Copy)]
pub struct AstNode<'a> {
    kind: AstKind<'a>,
    scope_id: ScopeId,
}

impl<'a> AstNode<'a> {
    /// The node made of `kind` and `scope_id`.
    pub closed spec fn from_parts(kind: AstKind<'a>, scope_id: ScopeId) -> AstNode<'a> {
        AstNode { kind, scope_id }
    }

    /// The kind of this node.
    pub closed spec fn kind_of(self) -> AstKind<'a> {
        self.kind
    }

    /// The scope of this node.
    pub closed spec fn scope_of(self) -> ScopeId {
        self.scope_id
    }

    /// A node is its parts: `from_parts` and the accessors undo each other.
    pub broadcast proof fn lemma_parts(kind: AstKind<'a>, scope_id: ScopeId)
        ensures
            #[trigger] AstNode::from_parts(kind, scope_id).kind_of() == kind,
            AstNode::from_parts(kind, scope_id).scope_of() == scope_id,
    {
    }

    pub fn new(kind: AstKind<'a>, scope_id: ScopeId) -> (node: AstNode<'a>)
        ensures
            node == AstNode::from_parts(kind, scope_id),
    {
        AstNode { kind, scope_id }
    }

    pub fn kind(&self) -> (kind: AstKind<'a>)
        ensures
            kind == self.kind_of(),
    {
        self.kind
    }

    pub fn scope_id(&self) -> (scope_id: ScopeId)
        ensures
            scope_id == self.scope_of(),
    {
        self.scope_id
    }
}

} // verus!
