//! Evaluation: the scopes that hold the variables, and the evaluator.
pub mod environment;
pub mod interpret;
pub mod scoping;

pub use interpret::Interpreter;
