//! The errors of the library.

use vstd::prelude::*;

use crate::il::Instruction;

verus! {

/// Everything that lifting, control-flow reconstruction or a pipeline can
/// report.
#[derive(Debug, Clone, PartialEq)]
pub enum LunirError {
    /// An instruction named a stack slot that the expression stack lacks.
    StackUnderflow(usize),
    /// A constant index lies outside the constant pool.
    ConstantOutOfRange(usize),
    /// An element of a table constant has no expression yet.
    UnimplementedTableElement,
    /// A constant has no expression yet.
    Unimplemented,
    /// The lifter does not lift this instruction.
    UnsupportedInstruction(Instruction),
    /// No block holds the position that a jump names.
    InvalidJumpTarget(usize),
    /// A pipeline was driven without all of its inputs.
    IncompleteJob,
}

} // verus!
