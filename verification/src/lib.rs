//! A tree-walking interpreter for a small expression-oriented scripting
//! language: a lexer, a Pratt parser that builds a syntax tree, and an
//! evaluator that runs the tree against chained scopes.
//!
//! Every executable function carries a contract over a mathematical model of
//! its data (the `Spec*` types), and the verifier proves each body against it.

pub mod text;
pub mod lexer;
pub mod parser;
pub mod evaluator;
