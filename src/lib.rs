//! Front end of a small statically typed imperative language: a lexer that
//! turns source text into tokens, and a recursive-descent parser that turns
//! tokens into a syntax tree.

pub mod ast;
pub mod error;
pub mod grammar;
pub mod lexer;
pub mod parser;
pub mod token;
