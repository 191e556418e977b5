//! Semantic core of a small expression language: an AST, a persistent
//! environment, a type checker and a tree-walking evaluator.
pub mod ast;
pub mod types;
pub mod context;
pub mod builtin;
pub mod value;
pub mod vm;
pub mod typeck;
pub mod util;
pub mod render;
