//! Node storage for a semantic builder.

pub mod ancestor_stack;
pub mod ast_node;
pub mod ast_nodes;
pub mod laws;
pub mod node_id;
pub mod outside;
pub mod storage;
