//! A toolchain core between Lua bytecode and Lua source: the intermediate
//! language, the syntax tree, the lifter, control-flow reconstruction and
//! source reconstruction.

pub mod ast;
pub mod cir;
pub mod error;
pub mod hir;
pub mod il;
pub mod il_text;
pub mod lifter;
pub mod pipelines;
