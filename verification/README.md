# node_storage

Storage for AST nodes while a semantic builder walks a program, with two
backends behind one enum, `NodeStorage`:

- `AstNodes` (full storage) records every node, its parent and its flags, and
  answers queries on any node after the walk.
- `AncestorStack` keeps only the chain from the root to the node being
  visited; it answers the upward queries (parent, ancestors, node, flags) for
  nodes on that chain, without keeping the rest of the tree.

Both number nodes from one counter, so the ids they hand out are the same.

Layout of `src/`:

- `node_id.rs`: `NodeId`.
- `ast_node.rs`: `AstNode`, a node's kind and scope.
- `ancestor_stack.rs`, `ast_nodes.rs`, `storage.rs`: the two backends and the
  enum over them, each with a spec view that its contracts are written in.
- `laws.rs`: proofs that the ancestor stack answers as full storage would for
  the same walk, that ids come from one counter, and that leaving a node undoes
  entering it.
- `outside.rs`: declarations of the `oxc_ast`, `oxc_syntax` and
  `oxc_data_structures` types used, and the trusted wrappers around their calls.
