//! Lexical and syntactic front end for a small expression language.
//!
//! The lexer turns source text into a lossless sequence of classified
//! tokens (longest match wins, with fixed priorities breaking ties), and
//! the parser builds an expression tree from that token sequence by
//! precedence climbing. Both are specified against mathematical models
//! of the token grammar and the expression grammar.

pub mod token;
pub mod lexer;
pub mod ast;
pub mod parser;
