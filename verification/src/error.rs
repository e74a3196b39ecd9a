//! The ways in which a program can fault.

use vstd::prelude::*;
use crate::op::Op;

verus! {

/// The kind of a fault, with the word or address that caused it. No fault is
/// recoverable by the program itself; the machine is left as it was before
/// the faulting operation began.
#[derive(Clone, Copy, Debug, PartialEq, Eq, Structural)]
pub enum VmError {
    /// The word at the program counter selects no instruction. Carries that word.
    InvalidOpcode(u16),
    /// An operand word is neither a literal nor a register reference, or is a
    /// literal where only a register reference may stand. Carries that word.
    InvalidOperand(u16),
    /// `Pop` or `Ret` found the stack empty.
    StackUnderflow,
    /// `Mod` was asked to divide by zero.
    DivisionByZero,
    /// An address lies outside memory. Carries the address.
    AddressOutOfRange(usize),
    /// `In` was executed and no input byte was offered.
    InputExhausted,
}

/// A fault of a step, with the place where it happened.
#[derive(Clone, Copy, Debug, PartialEq, Eq)]
pub struct Fault {
    /// What went wrong.
    pub error: VmError,
    /// The program counter at which the step began. The machine still stands
    /// there.
    pub pc: usize,
    /// The instruction that faulted; `None` where none could be decoded.
    pub op: Option<Op>,
}

} // verus!
