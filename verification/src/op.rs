//! The instruction set and its encoding in memory.

use vstd::prelude::*;
use crate::error::VmError;

verus! {

/// Number of addressable words of memory.
pub const MEMORY_SIZE: usize = 32768;

/// Number of registers.
pub const REGISTER_COUNT: usize = 8;

/// The largest word that stands for itself.
pub const MAX_LITERAL: u16 = 32767;

/// The word that names register 0; the following seven name registers 1 to 7.
pub const REGISTER_BASE: u16 = 32768;

/// The largest word that names a register.
pub const MAX_REGISTER_WORD: u16 = 32775;

/// The largest opcode.
pub const MAX_OPCODE: u16 = 21;

/// One decoded instruction with its raw operand words.
#[derive(Clone, Copy, Debug, PartialEq, Eq, Structural)]
pub enum Op {
    Halt(),
    /// Sets a register to a value.
    SetReg(u16, u16),
    Push(u16),
    Pop(u16),
    Eq(u16, u16, u16),
    Gt(u16, u16, u16),
    Jmp(u16),
    Jt(u16, u16),
    Jf(u16, u16),
    Add(u16, u16, u16),
    Mult(u16, u16, u16),
    Mod(u16, u16, u16),
    And(u16, u16, u16),
    Or(u16, u16, u16),
    Not(u16, u16),
    Rmem(u16, u16),
    Wmem(u16, u16),
    Call(u16),
    Ret(),
    Out(u16),
    In(u16),
    Noop(),
}

impl Op {
    /// The words that encode this instruction: its opcode, then its operands.
    pub open spec fn encoding(self) -> Seq<u16> {
        match self {
            Op::Halt() => seq![0u16],
            Op::SetReg(a, b) => seq![1u16, a, b],
            Op::Push(a) => seq![2u16, a],
            Op::Pop(a) => seq![3u16, a],
            Op::Eq(a, b, c) => seq![4u16, a, b, c],
            Op::Gt(a, b, c) => seq![5u16, a, b, c],
            Op::Jmp(a) => seq![6u16, a],
            Op::Jt(a, b) => seq![7u16, a, b],
            Op::Jf(a, b) => seq![8u16, a, b],
            Op::Add(a, b, c) => seq![9u16, a, b, c],
            Op::Mult(a, b, c) => seq![10u16, a, b, c],
            Op::Mod(a, b, c) => seq![11u16, a, b, c],
            Op::And(a, b, c) => seq![12u16, a, b, c],
            Op::Or(a, b, c) => seq![13u16, a, b, c],
            Op::Not(a, b) => seq![14u16, a, b],
            Op::Rmem(a, b) => seq![15u16, a, b],
            Op::Wmem(a, b) => seq![16u16, a, b],
            Op::Call(a) => seq![17u16, a],
            Op::Ret() => seq![18u16],
            Op::Out(a) => seq![19u16, a],
            Op::In(a) => seq![20u16, a],
            Op::Noop() => seq![21u16],
        }
    }
}

/// How many operand words follow the opcode `opcode`. Meaningful for opcodes
/// up to `MAX_OPCODE`.
pub open spec fn arity(opcode: u16) -> int {
    if opcode == 0 || opcode == 18 || opcode == 21 {
        0
    } else if opcode == 2 || opcode == 3 || opcode == 6 || opcode == 17 || opcode == 19
        || opcode == 20 {
        1
    } else if opcode == 1 || opcode == 7 || opcode == 8 || opcode == 14 || opcode == 15
        || opcode == 16 {
        2
    } else {
        3
    }
}

/// How many operand words follow the opcode `opcode`.
pub fn operand_count(opcode: u16) -> (n: usize)
    ensures
        n == arity(opcode),
        n <= 3,
{
    match opcode {
        0 | 18 | 21 => 0,
        2 | 3 | 6 | 17 | 19 | 20 => 1,
        1 | 7 | 8 | 14 | 15 | 16 => 2,
        _ => 3,
    }
}

/// The instruction selected by `opcode` with operand words `a`, `b`, `c`, of
/// which it takes the first `arity(opcode)`. Meaningful for opcodes up to
/// `MAX_OPCODE`.
pub open spec fn assemble(opcode: u16, a: u16, b: u16, c: u16) -> Op {
    match opcode {
        0 => Op::Halt(),
        1 => Op::SetReg(a, b),
        2 => Op::Push(a),
        3 => Op::Pop(a),
        4 => Op::Eq(a, b, c),
        5 => Op::Gt(a, b, c),
        6 => Op::Jmp(a),
        7 => Op::Jt(a, b),
        8 => Op::Jf(a, b),
        9 => Op::Add(a, b, c),
        10 => Op::Mult(a, b, c),
        11 => Op::Mod(a, b, c),
        12 => Op::And(a, b, c),
        13 => Op::Or(a, b, c),
        14 => Op::Not(a, b),
        15 => Op::Rmem(a, b),
        16 => Op::Wmem(a, b),
        17 => Op::Call(a),
        18 => Op::Ret(),
        19 => Op::Out(a),
        20 => Op::In(a),
        _ => Op::Noop(),
    }
}

/// What the decoder makes of the words of `memory` from address `pc` on: the
/// instruction and the number of words it occupies, or the fault.
///
/// A program counter outside memory, and an instruction whose operands would
/// lie beyond the last word, are address faults; a selector above
/// `MAX_OPCODE` is an opcode fault.
pub open spec fn decode(memory: Seq<u16>, pc: int) -> Result<(Op, int), VmError> {
    if !(0 <= pc < memory.len()) {
        Err(VmError::AddressOutOfRange(pc as usize))
    } else if memory[pc] > MAX_OPCODE {
        Err(VmError::InvalidOpcode(memory[pc]))
    } else if pc + arity(memory[pc]) >= memory.len() {
        Err(VmError::AddressOutOfRange(memory.len() as usize))
    } else {
        Ok((assemble(memory[pc], memory[pc + 1], memory[pc + 2], memory[pc + 3]), 1 + arity(memory[pc])))
    }
}

/// Decoding reads an instruction back from its encoding: wherever the words
/// of `op.encoding()` lie in memory, the decoder yields `op` and its length.
pub proof fn lemma_decode_encoding(memory: Seq<u16>, pc: int, op: Op)
    requires
        0 <= pc,
        pc + op.encoding().len() <= memory.len(),
        memory.subrange(pc, pc + op.encoding().len()) == op.encoding(),
    ensures
        decode(memory, pc) == Ok::<(Op, int), VmError>((op, op.encoding().len() as int)),
{
    let enc = op.encoding();
    let window = memory.subrange(pc, pc + enc.len());
    assert(forall|i: int| 0 <= i < enc.len() ==> memory[pc + i] == #[trigger] window[i]);
    assert(memory[pc] == window[0]);
    if enc.len() > 1 {
        assert(memory[pc + 1] == window[1]);
    }
    if enc.len() > 2 {
        assert(memory[pc + 2] == window[2]);
    }
    if enc.len() > 3 {
        assert(memory[pc + 3] == window[3]);
    }
}

/// Whatever the decoder yields lies in memory as its own encoding.
pub proof fn lemma_encoding_of_decoded(memory: Seq<u16>, pc: int)
    requires
        decode(memory, pc) is Ok,
    ensures
        ({
            let (op, len) = decode(memory, pc)->Ok_0;
            &&& len == op.encoding().len()
            &&& pc + len <= memory.len()
            &&& memory.subrange(pc, pc + len) == op.encoding()
        }),
{
    let (op, len) = decode(memory, pc)->Ok_0;
    assert(memory.subrange(pc, pc + len) =~= op.encoding());
}

} // verus!
