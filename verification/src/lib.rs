//! Front end for a small indentation-structured expression language: a lexer
//! that turns source text into a token sequence with synthetic block markers,
//! and a recursive-descent parser that turns that sequence into a syntax tree.
//!
//! Both stages carry full functional contracts: the lexer returns exactly
//! what the character-level model in `lexer` assigns to the text, and every
//! parsing function returns exactly what the grammar model in `grammar`
//! assigns to the tokens.

pub mod ast;
pub mod grammar;
pub mod lexer;
pub mod parser;
