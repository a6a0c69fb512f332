//! The definitions of the rewriting walk, written out one step at a time.

pub mod bindings;
pub mod decls;
pub mod exprs;
pub mod markup;
pub mod operands;
pub mod seq_bindings;
pub mod seq_items;
pub mod seq_operands;
