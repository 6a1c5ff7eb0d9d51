//! Front end of a compiler for a C-like language.
//!
//! The crate turns raw source text into a stream of located tokens
//! (lexing) and assembles those tokens into an abstract syntax tree
//! honouring operator associativity and bracket nesting (parsing).

pub mod chars;
pub mod errors;
pub mod escape;
pub mod lexer;
pub mod lexing_data;
pub mod location;
pub mod numbers;
pub mod symbols;
pub mod token;
pub mod tree;
