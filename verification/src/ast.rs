//! The generic abstract syntax tree.

pub mod expression;
pub mod identifier;
pub mod statement;
pub mod tree;
pub mod view;
pub mod visitors;
