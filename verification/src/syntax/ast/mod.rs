//! The abstract syntax tree.

pub mod constant;
pub mod node;
pub mod op;
pub mod position;
