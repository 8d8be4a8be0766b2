//! A bytecode back end for a small expression language: an instruction set
//! with fixed-width big-endian operands, a one-pass compiler that lowers an
//! abstract syntax tree into instructions plus a constant pool, and a
//! stack-based virtual machine that executes the result against a global
//! slot table that persists across compile/run cycles.

pub mod ast;
pub mod code;
pub mod compiler;
pub mod errors;
pub mod laws;
pub mod object;
pub mod semantics;
pub mod vm;
