//! Visitors of the syntax tree.

pub mod source_reconstructor;
