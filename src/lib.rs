//! Semantic diagnostics over a resolved query AST: labels for every
//! identifier reference, and the output schema of every relational transform.

pub mod ast;
pub mod fold;
pub mod text;
pub mod context;
pub mod render;
pub mod annotate;
pub mod frames;
