//! The executable machine.

use vstd::prelude::*;
use crate::error::{Fault, VmError};
use crate::machine::{
    complement, lemma_complement, lemma_word_of, low_byte, product, register_index, sum, word_of,
    Machine,
};
use crate::op::{
    decode, operand_count, Op, MAX_LITERAL, MAX_OPCODE, MAX_REGISTER_WORD, MEMORY_SIZE,
    REGISTER_BASE, REGISTER_COUNT,
};

verus! {

/// A machine: memory, registers, stack, program counter and halted flag.
///
/// All of it is open to inspection. `debug` is a switch for the host, which
/// may trace execution when it is set; the machine carries it and never
/// reads it.
///
/// Contracts speak of a machine through its view, a `Machine`.
pub struct VM {
    pub memory: [u16; MEMORY_SIZE],
    pub registers: [u16; REGISTER_COUNT],
    pub stack: Vec<u16>,
    pub pc: usize,
    pub halted: bool,
    pub debug: bool,
}

impl View for VM {
    type V = Machine;

    open spec fn view(&self) -> Machine {
        Machine {
            memory: self.memory@,
            registers: self.registers@,
            stack: self.stack@,
            pc: self.pc as int,
            halted: self.halted,
            debug: self.debug,
        }
    }
}

/// The memory that a program image fills: word `i` is made of bytes `2 * i`
/// (low) and `2 * i + 1` (high) as far as the image holds both, and is zero
/// beyond. An odd last byte belongs to no word.
pub open spec fn image_words(image: Seq<u8>) -> Seq<u16> {
    Seq::new(
        MEMORY_SIZE as nat,
        |i: int|
            if 2 * i + 1 < image.len() {
                word_of(image[2 * i], image[2 * i + 1])
            } else {
                0u16
            },
    )
}

/// The view of every machine is well formed.
pub proof fn lemma_view_wf(vm: &VM)
    ensures
        vm@.wf(),
{
}

impl VM {
    /// A machine loaded with the program `file`, ready to decode address 0.
    /// The words of `file` must fit in memory.
    pub fn new(file: &[u8]) -> (vm: VM)
        requires
            file@.len() / 2 <= MEMORY_SIZE,
        ensures
            vm@ == Machine::boot(image_words(file@)),
    {
        let mut vm = VM {
            memory: [0; MEMORY_SIZE],
            registers: [0; REGISTER_COUNT],
            stack: Vec::new(),
            pc: 0,
            halted: false,
            debug: false,
        };
        let words: usize = file.len() / 2;
        for i in 0..words
            invariant
                words == file@.len() / 2,
                words <= MEMORY_SIZE,
                vm.registers@ == Seq::new(REGISTER_COUNT as nat, |j: int| 0u16),
                vm.stack@ == Seq::<u16>::empty(),
                vm.pc == 0,
                !vm.halted,
                !vm.debug,
                forall|j: int| 0 <= j < i ==> vm.memory@[j] == image_words(file@)[j],
                forall|j: int| i <= j < MEMORY_SIZE ==> vm.memory@[j] == 0,
        {
            let a: u16 = file[i * 2] as u16;
            let b: u16 = file[i * 2 + 1] as u16;
            let val: u16 = (b << 8) | a;
            proof {
                lemma_word_of(file@[i * 2], file@[i * 2 + 1]);
            }
            vm.memory[i] = val;
        }
        assert(vm.memory@ =~= image_words(file@));
        vm
    }

    /// Decodes the instruction at the program counter and moves the program
    /// counter past it, so that the instruction, when executed, may overwrite
    /// the program counter. On a fault nothing changes.
    pub fn get_op(&mut self) -> (r: Result<Op, VmError>)
        ensures
            match decode(old(self)@.memory, old(self)@.pc) {
                Ok((op, len)) => {
                    &&& r == Ok::<Op, VmError>(op)
                    &&& final(self)@ == old(self)@.advanced(len)
                },
                Err(e) => r == Err::<Op, VmError>(e) && final(self)@ == old(self)@,
            },
            old(self).pc < MEMORY_SIZE && old(self).memory@[old(self).pc as int] > MAX_OPCODE
                ==> r == Err::<Op, VmError>(
                VmError::InvalidOpcode(old(self).memory@[old(self).pc as int]),
            ),
    {
        let pc: usize = self.pc;
        if pc >= MEMORY_SIZE {
            return Err(VmError::AddressOutOfRange(pc));
        }
        let o: u16 = self.memory[pc];
        if o > MAX_OPCODE {
            return Err(VmError::InvalidOpcode(o));
        }
        let operands: usize = operand_count(o);
        if pc + operands >= MEMORY_SIZE {
            return Err(VmError::AddressOutOfRange(MEMORY_SIZE));
        }
        let a: u16 = if operands >= 1 { self.memory[pc + 1] } else { 0 };
        let b: u16 = if operands >= 2 { self.memory[pc + 2] } else { 0 };
        let c: u16 = if operands >= 3 { self.memory[pc + 3] } else { 0 };
        let op = match o {
            0 => Op::Halt(),
            1 => Op::SetReg(a, b),
            2 => Op::Push(a),
            3 => Op::Pop(a),
            4 => Op::Eq(a, b, c),
            5 => Op::Gt(a, b, c),
            6 => Op::Jmp(a),
            7 => Op::Jt(a, b),
            8 => Op::Jf(a, b),
            9 => Op::Add(a, b, c),
            10 => Op::Mult(a, b, c),
            11 => Op::Mod(a, b, c),
            12 => Op::And(a, b, c),
            13 => Op::Or(a, b, c),
            14 => Op::Not(a, b),
            15 => Op::Rmem(a, b),
            16 => Op::Wmem(a, b),
            17 => Op::Call(a),
            18 => Op::Ret(),
            19 => Op::Out(a),
            20 => Op::In(a),
            _ => Op::Noop(),
        };
        self.pc = pc + operands + 1;
        Ok(op)
    }

    /// What `reg` denotes as a source operand.
    pub fn get_value(&self, reg: u16) -> (r: Result<u16, VmError>)
        ensures
            r == self@.value(reg),
            reg <= MAX_LITERAL ==> r == Ok::<u16, VmError>(reg),
            REGISTER_BASE <= reg <= MAX_REGISTER_WORD ==> r == Ok::<u16, VmError>(
                self.registers@[reg - REGISTER_BASE],
            ),
            reg > MAX_REGISTER_WORD ==> r == Err::<u16, VmError>(VmError::InvalidOperand(reg)),
    {
        if reg <= MAX_LITERAL {
            Ok(reg)
        } else if reg <= MAX_REGISTER_WORD {
            Ok(self.registers[(reg - REGISTER_BASE) as usize])
        } else {
            Err(VmError::InvalidOperand(reg))
        }
    }

    /// The number of the register that `reg` names where a register must stand.
    pub fn get_register(&self, reg: u16) -> (r: Result<u16, VmError>)
        ensures
            match register_index(reg) {
                Ok(i) => r == Ok::<u16, VmError>(i as u16),
                Err(e) => r == Err::<u16, VmError>(e),
            },
            REGISTER_BASE <= reg <= MAX_REGISTER_WORD ==> r == Ok::<u16, VmError>(
                (reg - REGISTER_BASE) as u16,
            ),
            !(REGISTER_BASE <= reg <= MAX_REGISTER_WORD) ==> r == Err::<u16, VmError>(
                VmError::InvalidOperand(reg),
            ),
    {
        if reg <= MAX_LITERAL {
            Err(VmError::InvalidOperand(reg))
        } else if reg <= MAX_REGISTER_WORD {
            Ok(reg - REGISTER_BASE)
        } else {
            Err(VmError::InvalidOperand(reg))
        }
    }
    /// Writes `v` to the register that `target` names.
    fn set_register(&mut self, target: u16, v: u16) -> (r: Result<(), VmError>)
        ensures
            match old(self)@.store(target, v) {
                Ok(m) => {
                    &&& r is Ok
                    &&& final(self)@ == m
                },
                Err(e) => r == Err::<(), VmError>(e) && final(self)@ == old(self)@,
            },
    {
        let i: u16 = self.get_register(target)?;
        self.registers[i as usize] = v;
        Ok(())
    }

    /// Passes control to `address`.
    fn jump(&mut self, address: u16) -> (r: Result<(), VmError>)
        ensures
            match old(self)@.jump(address) {
                Ok(m) => {
                    &&& r is Ok
                    &&& final(self)@ == m
                },
                Err(e) => r == Err::<(), VmError>(e) && final(self)@ == old(self)@,
            },
    {
        if (address as usize) < MEMORY_SIZE {
            self.pc = address as usize;
            Ok(())
        } else {
            Err(VmError::AddressOutOfRange(address as usize))
        }
    }

    /// Executes `op`, which `get_op` has decoded: the program counter already
    /// addresses the word after it. `input` is the byte offered to the
    /// instruction; only `In` reads it. Returns the byte that the instruction
    /// emits, which only `Out` does. On a fault nothing changes.
    pub fn execute_op(&mut self, op: &Op, input: Option<u8>) -> (r: Result<Option<u8>, VmError>)
        ensures
            match old(self)@.execute(*op, input) {
                Ok(m) => {
                    &&& r == Ok::<Option<u8>, VmError>(old(self)@.emitted(*op))
                    &&& final(self)@ == m
                },
                Err(e) => r == Err::<Option<u8>, VmError>(e) && final(self)@ == old(self)@,
            },
    {
        match *op {
            Op::Halt() => {
                self.halted = true;
            },
            Op::SetReg(a, b) => {
                let v: u16 = self.get_value(b)?;
                self.set_register(a, v)?;
            },
            Op::Push(a) => {
                let v: u16 = self.get_value(a)?;
                self.stack.push(v);
            },
            Op::Pop(a) => {
                if self.stack.len() == 0 {
                    return Err(VmError::StackUnderflow);
                }
                let i: u16 = self.get_register(a)?;
                let v: u16 = self.stack.pop().unwrap();
                self.registers[i as usize] = v;
            },
            Op::Eq(a, b, c) => {
                let x: u16 = self.get_value(b)?;
                let y: u16 = self.get_value(c)?;
                self.set_register(a, if x == y { 1 } else { 0 })?;
            },
            Op::Gt(a, b, c) => {
                let x: u16 = self.get_value(b)?;
                let y: u16 = self.get_value(c)?;
                self.set_register(a, if x > y { 1 } else { 0 })?;
            },
            Op::Jmp(a) => {
                let target: u16 = self.get_value(a)?;
                self.jump(target)?;
            },
            Op::Jt(a, b) => {
                if self.get_value(a)? != 0 {
                    let target: u16 = self.get_value(b)?;
                    self.jump(target)?;
                }
            },
            Op::Jf(a, b) => {
                if self.get_value(a)? == 0 {
                    let target: u16 = self.get_value(b)?;
                    self.jump(target)?;
                }
            },
            Op::Add(a, b, c) => {
                let x: u16 = self.get_value(b)?;
                let y: u16 = self.get_value(c)?;
                self.set_register(a, ((x as u32 + y as u32) % 32768) as u16)?;
            },
            Op::Mult(a, b, c) => {
                let x: u16 = self.get_value(b)?;
                let y: u16 = self.get_value(c)?;
                assert(x * y <= 65535 * 65535) by (nonlinear_arith)
                    requires
                        x <= 65535,
                        y <= 65535,
                ;
                self.set_register(a, ((x as u32 * y as u32) % 32768) as u16)?;
            },
            Op::Mod(a, b, c) => {
                let x: u16 = self.get_value(b)?;
                let y: u16 = self.get_value(c)?;
                if y == 0 {
                    return Err(VmError::DivisionByZero);
                }
                self.set_register(a, x % y)?;
            },
            Op::And(a, b, c) => {
                let x: u16 = self.get_value(b)?;
                let y: u16 = self.get_value(c)?;
                self.set_register(a, x & y)?;
            },
            Op::Or(a, b, c) => {
                let x: u16 = self.get_value(b)?;
                let y: u16 = self.get_value(c)?;
                self.set_register(a, x | y)?;
            },
            Op::Not(a, b) => {
                let x: u16 = self.get_value(b)?;
                proof {
                    lemma_complement(x);
                }
                self.set_register(a, !x & 0x7FFF)?;
            },
            Op::Rmem(a, b) => {
                let address: u16 = self.get_value(b)?;
                if address as usize >= MEMORY_SIZE {
                    return Err(VmError::AddressOutOfRange(address as usize));
                }
                let v: u16 = self.memory[address as usize];
                self.set_register(a, v)?;
            },
            Op::Wmem(a, b) => {
                let v: u16 = self.get_value(b)?;
                let address: u16 = self.get_value(a)?;
                if address as usize >= MEMORY_SIZE {
                    return Err(VmError::AddressOutOfRange(address as usize));
                }
                self.memory[address as usize] = v;
            },
            Op::Call(a) => {
                if self.pc > 0xFFFF {
                    return Err(VmError::AddressOutOfRange(self.pc));
                }
                let target: u16 = self.get_value(a)?;
                if target as usize >= MEMORY_SIZE {
                    return Err(VmError::AddressOutOfRange(target as usize));
                }
                self.stack.push(self.pc as u16);
                self.pc = target as usize;
            },
            Op::Ret() => {
                if self.stack.len() == 0 {
                    return Err(VmError::StackUnderflow);
                }
                let target: u16 = self.stack[self.stack.len() - 1];
                if target as usize >= MEMORY_SIZE {
                    return Err(VmError::AddressOutOfRange(target as usize));
                }
                self.stack.pop();
                self.pc = target as usize;
            },
            Op::Out(a) => {
                let v: u16 = self.get_value(a)?;
                return Ok(Some((v % 256) as u8));
            },
            Op::In(a) => {
                match input {
                    None => {
                        return Err(VmError::InputExhausted);
                    },
                    Some(byte) => {
                        self.set_register(a, byte as u16)?;
                    },
                }
            },
            Op::Noop() => {},
        }
        Ok(None)
    }

    /// Whether the next step reads the byte offered to it.
    pub fn awaits_input(&self) -> (b: bool)
        ensures
            b == self@.awaits_input(),
    {
        !self.halted && self.pc < MEMORY_SIZE - 1 && self.memory[self.pc] == 20
    }

    /// Performs one step: decodes the instruction at the program counter and
    /// executes it. `input` is the byte offered to the step, read only when
    /// `awaits_input` holds. Returns the byte that the step emits, if any.
    /// A halted machine stays as it is. On a fault nothing changes, so the
    /// program counter still addresses the faulting instruction.
    pub fn execute_next(&mut self, input: Option<u8>) -> (r: Result<Option<u8>, Fault>)
        ensures
            match old(self)@.step(input) {
                Ok(m) => {
                    &&& r == Ok::<Option<u8>, Fault>(old(self)@.step_output())
                    &&& final(self)@ == m
                },
                Err(e) => {
                    &&& r == Err::<Option<u8>, Fault>(old(self)@.located(e))
                    &&& final(self)@ == old(self)@
                },
            },
    {
        if self.halted {
            return Ok(None);
        }
        let pc: usize = self.pc;
        let op: Op = match self.get_op() {
            Ok(op) => op,
            Err(error) => {
                return Err(Fault { error, pc, op: None });
            },
        };
        match self.execute_op(&op, input) {
            Ok(emitted) => Ok(emitted),
            Err(error) => {
                self.pc = pc;
                Err(Fault { error, pc, op: Some(op) })
            },
        }
    }

    /// Steps until the machine has halted, for at most `max_steps` steps.
    /// Each `In` reads the next byte of `input`; each `Out` appends its byte to
    /// `output`. Returns how many bytes of `input` were read, or the fault that
    /// stopped the run. A fault leaves the machine before the faulting
    /// instruction, and what was emitted before it stays in `output`; after
    /// `InputExhausted` the run can be taken up again with more input.
    pub fn run(&mut self, input: &[u8], output: &mut Vec<u8>, max_steps: u64) -> (r: Result<
        usize,
        Fault,
    >)
        ensures
            final(self)@ == old(self)@.run(input@, max_steps as nat).machine,
            final(output)@ == old(output)@ + old(self)@.run(input@, max_steps as nat).output,
            match old(self)@.run(input@, max_steps as nat).fault {
                None => r matches Ok(n) && n == old(self)@.run(
                    input@,
                    max_steps as nat,
                ).consumed,
                Some(e) => r == Err::<usize, Fault>(
                    old(self)@.run(input@, max_steps as nat).machine.located(e),
                ),
            },
    {
        let ghost whole = self@.run(input@, max_steps as nat);
        let ghost before = output@;
        let mut cursor: usize = 0;
        let mut remaining: u64 = max_steps;
        assert(input@.skip(0) =~= input@);
        while !self.halted && remaining > 0
            invariant
                whole == old(self)@.run(input@, max_steps as nat),
                before == old(output)@,
                cursor <= input@.len(),
                ({
                    let rest = self@.run(input@.skip(cursor as int), remaining as nat);
                    &&& whole.machine == rest.machine
                    &&& whole.consumed == cursor + rest.consumed
                    &&& before + whole.output == output@ + rest.output
                    &&& whole.fault == rest.fault
                }),
            decreases remaining,
        {
            let ghost waiting = input@.skip(cursor as int);
            let ghost rest = self@.run(waiting, remaining as nat);
            let reads: bool = self.awaits_input();
            let offered: Option<u8> = if cursor < input.len() {
                Some(input[cursor])
            } else {
                None
            };
            match self.execute_next(offered) {
                Err(e) => {
                    assert(rest.output =~= Seq::<u8>::empty());
                    assert(output@ =~= before + whole.output);
                    return Err(e);
                },
                Ok(emitted) => {
                    if let Some(byte) = emitted {
                        output.push(byte);
                    }
                    if reads {
                        cursor += 1;
                    }
                    remaining -= 1;
                    proof {
                        let read: int = if reads { 1 } else { 0 };
                        assert(waiting.skip(read) =~= input@.skip(cursor as int));
                        let next = self@.run(input@.skip(cursor as int), remaining as nat);
                        assert(before + whole.output =~= output@ + next.output);
                    }
                },
            }
        }
        assert(output@ =~= before + whole.output);
        Ok(cursor)
    }
}

} // verus!
