//! A small scripting-language engine front end: a lexer, a recursive-descent
//! parser that builds an abstract syntax tree, a declaration hoister, and the
//! builders with which the engine registers its global objects.
//!
//! Every executable function carries a contract stated over mathematical
//! models of its data: the grammar is a family of specification functions over
//! token sequences, and each parsing function is proved to compute exactly what
//! its production denotes.

pub mod builtins;
pub mod context;
pub mod object;
pub mod property;
pub mod syntax;
pub mod value;
