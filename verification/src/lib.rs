//! Front end for a small scripting language: a lexer that turns a stream of
//! Unicode scalar values into tokens, and a recursive-descent parser that
//! turns tokens into an abstract syntax tree.

pub mod ast;
pub mod lexer;
pub mod parser;
pub mod token;
