//! A bytecode virtual machine over a fixed address space of 16-bit words,
//! with eight registers, an unbounded stack and twenty-two instructions.
//!
//! The machine itself never touches the outside world: an instruction that
//! prints hands the byte back to the caller, and an instruction that reads is
//! given the byte by the caller.

pub mod error;
pub mod op;
pub mod machine;
pub mod vm;
pub mod math;
pub mod theorems;
