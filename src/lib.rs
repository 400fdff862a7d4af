//! A tree-walking evaluator for a small calculator language: numeric and
//! boolean expressions, variables with lexically scoped blocks, conditionals
//! and calls into a table of built-in functions.

pub mod assoc;
pub mod ast;
pub mod builtins;
pub mod env;
pub mod eval;
pub mod grammar;
pub mod laws;
pub mod semantics;
pub mod value;
