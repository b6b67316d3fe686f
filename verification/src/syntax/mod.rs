//! Lexical analysis, the syntax tree and the parser.

pub mod ast;
pub mod lexer;
pub mod parser;
pub mod printer;
