//! Error taxonomy: compile-time failures, fatal virtual-machine failures, and
//! the instruction set's lookup failure. No error is recovered locally; every
//! failure surfaces to the caller of `compile` or `run`.

use vstd::prelude::*;

verus! {

/// Failure of an opcode lookup: the byte has no known definition.
#[derive(Clone, Copy, Debug, PartialEq, Eq, Structural)]
pub enum CodeError {
    UndefinedOpcode(u8),
}

/// A failure detected during the single compile pass. Compilation aborts
/// immediately; no partial bytecode is handed out.
#[derive(Clone, Debug, PartialEq, Eq)]
pub enum CompileError {
    /// A prefix or infix operator the compiler does not lower (the operator text).
    UnknownOperator(String),
    /// A node kind outside the compiler's scope (the kind's name).
    UnsupportedConstruct(String),
    /// An identifier with no slot in the symbol table (the identifier).
    UndefinedVariable(String),
}

/// The mathematical shape of a `CompileError`: the same three kinds, with
/// each carried string abstracted to its character sequence.
pub enum CompileErrorModel {
    UnknownOperator(Seq<char>),
    UnsupportedConstruct(Seq<char>),
    UndefinedVariable(Seq<char>),
}

impl View for CompileError {
    type V = CompileErrorModel;

    open spec fn view(&self) -> CompileErrorModel {
        match self {
            CompileError::UnknownOperator(s) => CompileErrorModel::UnknownOperator(s@),
            CompileError::UnsupportedConstruct(s) => CompileErrorModel::UnsupportedConstruct(s@),
            CompileError::UndefinedVariable(s) => CompileErrorModel::UndefinedVariable(s@),
        }
    }
}

/// A fatal failure during execution. The run aborts at once; global-slot
/// mutations made before the failure point are kept.
#[derive(Clone, Copy, Debug, PartialEq, Eq, Structural)]
pub enum VmError {
    /// A push was attempted on a full operand stack.
    StackOverflow,
    /// A pop was attempted on an empty operand stack.
    StackUnderflow,
    /// The fetched byte is no opcode the machine implements.
    UnimplementedOpcode(u8),
    /// A global slot was referenced that no instruction has filled.
    UndefinedGlobal(u16),
    /// A constant-pool index beyond the pool's length.
    UndefinedConstant(u16),
    /// The instruction stream ends inside an operand.
    TruncatedOperand,
    /// Operand types for which the operation is not defined.
    TypeMismatch,
    /// The operand of a negation was not an integer.
    NotAnInteger,
    /// An integer division with a zero divisor.
    DivisionByZero,
}

} // verus!
