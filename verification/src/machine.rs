//! The mathematical model of the machine: its state, the meaning of an operand
//! word, and the effect of each instruction.

use vstd::prelude::*;
use crate::error::{Fault, VmError};
use crate::op::{
    decode, Op, MAX_LITERAL, MAX_REGISTER_WORD, MEMORY_SIZE, REGISTER_BASE, REGISTER_COUNT,
};

verus! {

/// The state of a machine.
#[verifier::ext_equal]
pub struct Machine {
    /// The words of memory, by address.
    pub memory: Seq<u16>,
    /// The contents of the registers, by register number.
    pub registers: Seq<u16>,
    /// The stack, bottom first.
    pub stack: Seq<u16>,
    /// The address of the next word to decode.
    pub pc: int,
    /// Whether `Halt` has been executed.
    pub halted: bool,
    /// The host's trace switch. No instruction reads or changes it.
    pub debug: bool,
}

/// The number of the register that `word` names where a register must stand,
/// or the fault where it names none.
pub open spec fn register_index(word: u16) -> Result<int, VmError> {
    if REGISTER_BASE <= word <= MAX_REGISTER_WORD {
        Ok(word - REGISTER_BASE)
    } else {
        Err(VmError::InvalidOperand(word))
    }
}

/// The sum of two words modulo 32768.
pub open spec fn sum(x: u16, y: u16) -> u16 {
    ((x + y) % 32768) as u16
}

/// The product of two words modulo 32768.
pub open spec fn product(x: u16, y: u16) -> u16 {
    ((x * y) % 32768) as u16
}

/// The bitwise complement of the low fifteen bits of a word.
pub open spec fn complement(x: u16) -> u16 {
    (32767 - x % 32768) as u16
}

/// The complement is the bitwise negation cut to fifteen bits, and a literal;
/// twice applied to a literal it gives the literal back.
pub proof fn lemma_complement(x: u16)
    ensures
        complement(x) == !x & 0x7FFF,
        complement(x) <= MAX_LITERAL,
        x <= MAX_LITERAL ==> complement(complement(x)) == x,
{
    assert(!x & 0x7FFF == 32767 - x % 32768) by (bit_vector);
}

/// The low eight bits of a word.
pub open spec fn low_byte(x: u16) -> u8 {
    (x % 256) as u8
}

/// The word whose low byte is `low` and whose high byte is `high`.
pub open spec fn word_of(low: u8, high: u8) -> u16 {
    (low + 256 * high) as u16
}

/// What a run of several steps leaves behind.
#[verifier::ext_equal]
pub struct Run {
    /// The state in which the run ended.
    pub machine: Machine,
    /// How many bytes of the input the run has read.
    pub consumed: nat,
    /// The bytes that the run has emitted, in order.
    pub output: Seq<u8>,
    /// The fault that ended the run, if one did.
    pub fault: Option<VmError>,
}

/// The word of two bytes is the high byte shifted over the low byte.
pub proof fn lemma_word_of(low: u8, high: u8)
    ensures
        word_of(low, high) == ((high as u16) << 8) | (low as u16),
{
    assert(((high as u16) << 8) | (low as u16) == (low as u16) + 256 * (high as u16))
        by (bit_vector);
}

impl Run {
    /// This run, taken up again for at most `steps` more steps where it has
    /// not faulted, with the same `input`, of which it goes on to read what
    /// it has not read yet.
    pub open spec fn resumed(self, input: Seq<u8>, steps: nat) -> Run {
        if self.fault is Some {
            self
        } else {
            let more = self.machine.run(input.skip(self.consumed as int), steps);
            Run {
                machine: more.machine,
                consumed: self.consumed + more.consumed,
                output: self.output + more.output,
                fault: more.fault,
            }
        }
    }
}

impl Machine {
    /// The state of a machine that has just been given `memory`: registers
    /// zero, stack empty, about to decode address 0, tracing off.
    pub open spec fn boot(memory: Seq<u16>) -> Machine {
        Machine {
            memory,
            registers: Seq::new(REGISTER_COUNT as nat, |i: int| 0u16),
            stack: Seq::empty(),
            pc: 0,
            halted: false,
            debug: false,
        }
    }

    /// Memory and register bank have their fixed sizes.
    pub open spec fn wf(self) -> bool {
        &&& self.memory.len() == MEMORY_SIZE
        &&& self.registers.len() == REGISTER_COUNT
    }

    /// What `word` denotes as a source operand: itself if it is a literal, the
    /// content of the register it names if it names one, a fault otherwise.
    pub open spec fn value(self, word: u16) -> Result<u16, VmError> {
        if word <= MAX_LITERAL {
            Ok(word)
        } else if word <= MAX_REGISTER_WORD {
            Ok(self.registers[word - REGISTER_BASE])
        } else {
            Err(VmError::InvalidOperand(word))
        }
    }

    /// What two source operands denote, the first resolved first.
    pub open spec fn values(self, first: u16, second: u16) -> Result<(u16, u16), VmError> {
        match self.value(first) {
            Err(e) => Err(e),
            Ok(x) => match self.value(second) {
                Err(e) => Err(e),
                Ok(y) => Ok((x, y)),
            },
        }
    }

    /// The state after `v` has been written to the register that `target` names.
    pub open spec fn store(self, target: u16, v: u16) -> Result<Machine, VmError> {
        match register_index(target) {
            Err(e) => Err(e),
            Ok(i) => Ok(Machine { registers: self.registers.update(i, v), ..self }),
        }
    }

    /// The state after control has passed to `address`, which must lie in memory.
    pub open spec fn jump(self, address: u16) -> Result<Machine, VmError> {
        if address < self.memory.len() {
            Ok(Machine { pc: address as int, ..self })
        } else {
            Err(VmError::AddressOutOfRange(address as usize))
        }
    }

    /// The state after control has passed to what the operand `target` denotes.
    pub open spec fn jump_to_operand(self, target: u16) -> Result<Machine, VmError> {
        match self.value(target) {
            Err(e) => Err(e),
            Ok(address) => self.jump(address),
        }
    }

    /// The state after `op` has been executed in this state, whose program
    /// counter already addresses the word after `op`. `input` is the byte
    /// offered to the instruction, read only by `In`.
    ///
    /// Source operands are resolved before the destination, in the order in
    /// which they are declared, except that `Wmem` resolves the value before
    /// the address. The target of a conditional jump is resolved only when
    /// the jump is taken.
    pub open spec fn execute(self, op: Op, input: Option<u8>) -> Result<Machine, VmError> {
        match op {
            Op::Halt() => Ok(Machine { halted: true, ..self }),
            Op::SetReg(dst, src) => match self.value(src) {
                Err(e) => Err(e),
                Ok(x) => self.store(dst, x),
            },
            Op::Push(src) => match self.value(src) {
                Err(e) => Err(e),
                Ok(x) => Ok(Machine { stack: self.stack.push(x), ..self }),
            },
            Op::Pop(dst) => if self.stack.len() == 0 {
                Err(VmError::StackUnderflow)
            } else {
                Machine { stack: self.stack.drop_last(), ..self }.store(dst, self.stack.last())
            },
            Op::Eq(dst, a, b) => match self.values(a, b) {
                Err(e) => Err(e),
                Ok((x, y)) => self.store(dst, if x == y { 1 } else { 0 }),
            },
            Op::Gt(dst, a, b) => match self.values(a, b) {
                Err(e) => Err(e),
                Ok((x, y)) => self.store(dst, if x > y { 1 } else { 0 }),
            },
            Op::Jmp(target) => self.jump_to_operand(target),
            Op::Jt(cond, target) => match self.value(cond) {
                Err(e) => Err(e),
                Ok(x) => if x != 0 { self.jump_to_operand(target) } else { Ok(self) },
            },
            Op::Jf(cond, target) => match self.value(cond) {
                Err(e) => Err(e),
                Ok(x) => if x == 0 { self.jump_to_operand(target) } else { Ok(self) },
            },
            Op::Add(dst, a, b) => match self.values(a, b) {
                Err(e) => Err(e),
                Ok((x, y)) => self.store(dst, sum(x, y)),
            },
            Op::Mult(dst, a, b) => match self.values(a, b) {
                Err(e) => Err(e),
                Ok((x, y)) => self.store(dst, product(x, y)),
            },
            Op::Mod(dst, a, b) => match self.values(a, b) {
                Err(e) => Err(e),
                Ok((x, y)) => if y == 0 {
                    Err(VmError::DivisionByZero)
                } else {
                    self.store(dst, x % y)
                },
            },
            Op::And(dst, a, b) => match self.values(a, b) {
                Err(e) => Err(e),
                Ok((x, y)) => self.store(dst, x & y),
            },
            Op::Or(dst, a, b) => match self.values(a, b) {
                Err(e) => Err(e),
                Ok((x, y)) => self.store(dst, x | y),
            },
            Op::Not(dst, a) => match self.value(a) {
                Err(e) => Err(e),
                Ok(x) => self.store(dst, complement(x)),
            },
            Op::Rmem(dst, addr) => match self.value(addr) {
                Err(e) => Err(e),
                Ok(address) => if address < self.memory.len() {
                    self.store(dst, self.memory[address as int])
                } else {
                    Err(VmError::AddressOutOfRange(address as usize))
                },
            },
            Op::Wmem(addr, src) => match self.values(src, addr) {
                Err(e) => Err(e),
                Ok((x, address)) => if address < self.memory.len() {
                    Ok(Machine { memory: self.memory.update(address as int, x), ..self })
                } else {
                    Err(VmError::AddressOutOfRange(address as usize))
                },
            },
            Op::Call(target) => if !(0 <= self.pc <= u16::MAX) {
                Err(VmError::AddressOutOfRange(self.pc as usize))
            } else {
                Machine { stack: self.stack.push(self.pc as u16), ..self }.jump_to_operand(target)
            },
            Op::Ret() => if self.stack.len() == 0 {
                Err(VmError::StackUnderflow)
            } else {
                Machine { stack: self.stack.drop_last(), ..self }.jump(self.stack.last())
            },
            Op::Out(src) => match self.value(src) {
                Err(e) => Err(e),
                Ok(x) => Ok(self),
            },
            Op::In(dst) => match input {
                None => Err(VmError::InputExhausted),
                Some(byte) => self.store(dst, byte as u16),
            },
            Op::Noop() => Ok(self),
        }
    }

    /// The byte that executing `op` in this state emits, if it emits one.
    pub open spec fn emitted(self, op: Op) -> Option<u8> {
        match op {
            Op::Out(src) => match self.value(src) {
                Err(e) => None,
                Ok(x) => Some(low_byte(x)),
            },
            _ => None,
        }
    }

    /// This state with the program counter moved `len` words on.
    pub open spec fn advanced(self, len: int) -> Machine {
        Machine { pc: self.pc + len, ..self }
    }

    /// Whether the next step reads the byte offered to it: the machine runs
    /// and the instruction at the program counter is `In`.
    pub open spec fn awaits_input(self) -> bool {
        &&& !self.halted
        &&& decode(self.memory, self.pc) matches Ok((op, len))
        &&& op is In
    }

    /// The state after one step: nothing changes once halted; otherwise the
    /// instruction at the program counter is decoded, the program counter
    /// moves past it, and the instruction is executed.
    pub open spec fn step(self, input: Option<u8>) -> Result<Machine, VmError> {
        if self.halted {
            Ok(self)
        } else {
            match decode(self.memory, self.pc) {
                Err(e) => Err(e),
                Ok((op, len)) => self.advanced(len).execute(op, input),
            }
        }
    }

    /// The fault `error` of a step from this state, with its place: the
    /// program counter, and the instruction there if one can be decoded.
    pub open spec fn located(self, error: VmError) -> Fault {
        Fault {
            error,
            pc: self.pc as usize,
            op: match decode(self.memory, self.pc) {
                Ok((op, len)) => Some(op),
                Err(e) => None,
            },
        }
    }

    /// The byte that one step from this state emits, if it emits one.
    pub open spec fn step_output(self) -> Option<u8> {
        if self.halted {
            None
        } else {
            match decode(self.memory, self.pc) {
                Err(e) => None,
                Ok((op, len)) => self.advanced(len).emitted(op),
            }
        }
    }
    /// A run of at most `steps` steps from this state, with `input` waiting to
    /// be read. The run ends when the machine has halted, when the steps are
    /// used up, or at the first fault, which leaves the machine before the
    /// faulting instruction. Each `In` reads the next byte of `input`; an `In`
    /// that finds none left is the fault `InputExhausted`.
    pub open spec fn run(self, input: Seq<u8>, steps: nat) -> Run
        decreases steps,
    {
        if self.halted || steps == 0 {
            Run { machine: self, consumed: 0, output: Seq::empty(), fault: None }
        } else {
            let offered = if input.len() > 0 { Some(input[0]) } else { None };
            match self.step(offered) {
                Err(e) => Run { machine: self, consumed: 0, output: Seq::empty(), fault: Some(e) },
                Ok(next) => {
                    let read: nat = if self.awaits_input() { 1 } else { 0 };
                    let emitted = match self.step_output() {
                        Some(byte) => seq![byte],
                        None => Seq::empty(),
                    };
                    let rest = next.run(input.skip(read as int), (steps - 1) as nat);
                    Run {
                        machine: rest.machine,
                        consumed: read + rest.consumed,
                        output: emitted + rest.output,
                        fault: rest.fault,
                    }
                },
            }
        }
    }
}

} // verus!
