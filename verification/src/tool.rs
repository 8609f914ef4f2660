//! Tools around the syntax tree.
pub mod print_ast;
pub mod traits;
