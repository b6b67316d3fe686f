//! The structural printer: from a syntax tree back to tokens.
//!
//! The printed form of a tree is a token sequence that shows the structure
//! of the tree and nothing else: every compound expression stands in
//! parentheses, every statement ends with its `;`, and no token follows a
//! line break. Parsing the printed form of a tree gives the tree back.

pub mod climb;
pub mod emit;
pub mod expressions;
pub mod form;
pub mod functions;
pub mod law;
pub mod produced;
pub mod shape;
pub mod statements;
pub mod window;
