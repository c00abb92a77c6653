//! A scope-aware tree rewriter for an ECMAScript-style syntax tree.
//!
//! The crate walks a parsed program, models lexical scoping (including
//! hoisting), assigns every distinct variable binding a stable identity,
//! and rewrites every arrow-style closure expression into a call to a
//! well-known "wrap closure" member reference.

pub mod ast;
pub mod scope;
pub mod rewriter;
pub mod laws;

pub use rewriter::ClosureSerializer;
pub use rewriter::wrap_closures;
pub use scope::LexicalScope;
