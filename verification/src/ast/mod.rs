//! The syntax tree the compiler works on: the script constructs that the
//! passes read or build, and opaque nodes for everything else.

pub mod make;
pub mod expr;
pub mod view;
