//! A tree-walking interpreter for a small expression-oriented functional
//! language: a lexer producing a token sequence, a recursive-descent parser
//! producing abstract syntax trees, and an evaluator over an environment of
//! global bindings and lambda-argument frames.

pub mod chars;
pub mod text;
pub mod token;
pub mod lexer;
pub mod dec;
pub mod ast;
pub mod parser;
pub mod eval;
pub mod laws;
