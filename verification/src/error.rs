//! Errors of the recompiler.
use vstd::prelude::*;

verus! {

/// Recompiler error kinds, each with its detail.
#[derive(Debug, Clone, PartialEq, Eq)]
pub enum RecompilerError {
    /// DOL file parsing error.
    DolParseError(String),
    /// Instruction decoding error.
    InstructionDecodeError(String),
    /// Code generation error.
    CodeGenError(String),
    /// Ghidra analysis error.
    GhidraError(String),
    /// Memory access error at an address.
    MemoryError(u32),
    /// Invalid register number.
    InvalidRegister(u8),
    /// Optimization error.
    OptimizationError(String),
    /// Generated code failed validation.
    ValidationError(String),
}

} // verus!
