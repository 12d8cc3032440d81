//! Lowering of a markup syntax tree into a text template with positional
//! placeholders, an ordered list of opaque code fragments to substitute into
//! those placeholders, and a list of diagnostics found while walking the tree.

pub mod laws;
pub mod node;
pub mod visitor;
