//! What holds of every machine, proved from the model.

use vstd::prelude::*;
use crate::error::VmError;
use crate::machine::{product, sum, Machine, Run};
use crate::op::{decode, Op, MAX_LITERAL, MAX_OPCODE, MAX_REGISTER_WORD, REGISTER_BASE};

verus! {

/// A literal word denotes itself, whatever the registers hold.
pub proof fn lemma_literal_denotes_itself(m: Machine, word: u16)
    requires
        word <= MAX_LITERAL,
    ensures
        m.value(word) == Ok::<u16, VmError>(word),
{
}

/// A register word denotes what its register holds.
pub proof fn lemma_register_denotes_content(m: Machine, word: u16)
    requires
        REGISTER_BASE <= word <= MAX_REGISTER_WORD,
    ensures
        m.value(word) == Ok::<u16, VmError>(m.registers[word - REGISTER_BASE]),
{
}

/// After a write to a register, its word denotes what was written, and every
/// other operand word denotes what it denoted before. What the word denoted
/// in the state before the write is not touched: that state is a value.
pub proof fn lemma_store_then_read(m: Machine, target: u16, v: u16, other: u16)
    requires
        m.wf(),
        REGISTER_BASE <= target <= MAX_REGISTER_WORD,
        other != target,
    ensures
        m.store(target, v) is Ok,
        m.store(target, v)->Ok_0.value(target) == Ok::<u16, VmError>(v),
        m.store(target, v)->Ok_0.value(other) == m.value(other),
{
}

/// Sums and products are literals, whatever words are added or multiplied;
/// a sum or product that is below 32768 is exact.
pub proof fn lemma_arithmetic_closed(x: u16, y: u16)
    ensures
        sum(x, y) <= MAX_LITERAL,
        product(x, y) <= MAX_LITERAL,
        x + y <= MAX_LITERAL ==> sum(x, y) == x + y,
        x * y <= MAX_LITERAL ==> product(x, y) == x * y,
{
    assert(0 <= x * y) by (nonlinear_arith)
        requires
            0 <= x,
            0 <= y,
    ;
}

/// `Add` and `Mult` leave a literal in their destination register.
pub proof fn lemma_add_mult_store_literal(m: Machine, dst: u16, a: u16, b: u16, input: Option<u8>)
    requires
        m.wf(),
    ensures
        m.execute(Op::Add(dst, a, b), input) matches Ok(after) ==> after.registers[dst
            - REGISTER_BASE] <= MAX_LITERAL,
        m.execute(Op::Mult(dst, a, b), input) matches Ok(after) ==> after.registers[dst
            - REGISTER_BASE] <= MAX_LITERAL,
{
    if m.values(a, b) is Ok {
        let (x, y) = m.values(a, b)->Ok_0;
        lemma_arithmetic_closed(x, y);
    }
}

/// `Push` followed at once by `Pop` leaves the stack as it was and the pushed
/// value in the register that `Pop` names.
pub proof fn lemma_push_then_pop(m: Machine, src: u16, dst: u16, input: Option<u8>)
    requires
        m.wf(),
        src <= MAX_REGISTER_WORD,
        REGISTER_BASE <= dst <= MAX_REGISTER_WORD,
    ensures
        m.execute(Op::Push(src), input) is Ok,
        m.execute(Op::Push(src), input)->Ok_0.execute(Op::Pop(dst), input) == Ok::<
            Machine,
            VmError,
        >(Machine { registers: m.registers.update(dst - REGISTER_BASE, m.value(src)->Ok_0), ..m }),
{
    let pushed = m.execute(Op::Push(src), input)->Ok_0;
    let v = m.value(src)->Ok_0;
    assert(pushed.stack.drop_last() =~= m.stack);
    assert(pushed.stack.last() == v);
}

/// A step that executes `Call` at address `pc` pushes `pc + 2`, the address
/// of the word after the operand of `Call`. If that address lies in memory, a
/// `Ret` executed in any later state whose stack is again as the `Call` left
/// it passes control to `pc + 2` and leaves the stack as it was before the
/// `Call`.
pub proof fn lemma_call_then_ret(m: Machine, later: Machine, input: Option<u8>)
    requires
        m.wf(),
        !m.halted,
        decode(m.memory, m.pc) matches Ok((op, len)) && op is Call,
        m.step(input) is Ok,
        later.memory.len() == m.memory.len(),
        later.stack == m.step(input)->Ok_0.stack,
    ensures
        m.step(input)->Ok_0.stack == m.stack.push((m.pc + 2) as u16),
        m.pc + 2 < m.memory.len() ==> later.execute(Op::Ret(), input) == Ok::<Machine, VmError>(
            Machine { pc: m.pc + 2, stack: m.stack, ..later },
        ),
{
    let called = m.step(input)->Ok_0;
    assert(called.stack.drop_last() =~= m.stack);
}

/// A selector above the largest opcode is the invalid-opcode fault.
pub proof fn lemma_invalid_opcode(memory: Seq<u16>, pc: int)
    requires
        0 <= pc < memory.len(),
        memory[pc] > MAX_OPCODE,
    ensures
        decode(memory, pc) == Err::<(Op, int), VmError>(VmError::InvalidOpcode(memory[pc])),
{
}

/// `Jt` leaves the state alone where its condition is zero, and passes
/// control to its target where it is not; `Jf` does the reverse.
pub proof fn lemma_conditional_jumps(m: Machine, cond: u16, target: u16, input: Option<u8>)
    requires
        m.value(cond) is Ok,
    ensures
        m.value(cond) == Ok::<u16, VmError>(0) ==> m.execute(Op::Jt(cond, target), input) == Ok::<
            Machine,
            VmError,
        >(m),
        m.value(cond) != Ok::<u16, VmError>(0) ==> m.execute(Op::Jt(cond, target), input)
            == m.execute(Op::Jmp(target), input),
        m.value(cond) == Ok::<u16, VmError>(0) ==> m.execute(Op::Jf(cond, target), input)
            == m.execute(Op::Jmp(target), input),
        m.value(cond) != Ok::<u16, VmError>(0) ==> m.execute(Op::Jf(cond, target), input) == Ok::<
            Machine,
            VmError,
        >(m),
        m.execute(Op::Jmp(target), input) matches Ok(after) ==> m.value(target) == Ok::<
            u16,
            VmError,
        >(after.pc as u16) && after == (Machine { pc: after.pc, ..m }),
{
}

/// No instruction changes the size of memory or the number of registers, and
/// none clears the halted flag; only `Halt` sets it.
pub proof fn lemma_execute_preserves(m: Machine, op: Op, input: Option<u8>)
    requires
        m.wf(),
        m.execute(op, input) is Ok,
    ensures
        m.execute(op, input)->Ok_0.wf(),
        m.halted ==> m.execute(op, input)->Ok_0.halted,
        !m.halted && m.execute(op, input)->Ok_0.halted ==> op is Halt,
        m.execute(op, input)->Ok_0.debug == m.debug,
{
}

/// A step keeps the machine well formed and leaves the program counter
/// within memory or one past its end. A halted machine does not move.
pub proof fn lemma_step_preserves(m: Machine, input: Option<u8>)
    requires
        m.wf(),
        m.step(input) is Ok,
    ensures
        m.step(input)->Ok_0.wf(),
        m.halted ==> m.step(input)->Ok_0 == m,
        !m.halted ==> 0 <= m.step(input)->Ok_0.pc <= m.memory.len(),
        m.halted ==> m.step(input)->Ok_0.halted,
{
    if !m.halted {
        let (op, len) = decode(m.memory, m.pc)->Ok_0;
        lemma_execute_preserves(m.advanced(len), op, input);
    }
}

/// A run reads no more input than there is and emits at most one byte for
/// each step; from a halted machine it does nothing; and after the fault
/// `InputExhausted` it has read all the input.
pub proof fn lemma_run_bounds(m: Machine, input: Seq<u8>, steps: nat)
    ensures
        m.run(input, steps).consumed <= input.len(),
        m.halted ==> m.run(input, steps) == (Run {
            machine: m,
            consumed: 0,
            output: Seq::empty(),
            fault: None,
        }),
        m.run(input, steps).fault == Some(VmError::InputExhausted) ==> m.run(
            input,
            steps,
        ).consumed == input.len(),
        m.run(input, steps).output.len() <= steps,
    decreases steps,
{
    if !m.halted && steps > 0 {
        let offered = if input.len() > 0 { Some(input[0]) } else { None };
        if m.step(offered) is Ok {
            let next = m.step(offered)->Ok_0;
            let read: nat = if m.awaits_input() { 1 } else { 0 };
            lemma_run_bounds(next, input.skip(read as int), (steps - 1) as nat);
        }
    }
}

/// A run of `first + second` steps is a run of `first` steps taken up again
/// for `second` more.
pub proof fn lemma_run_resumed(m: Machine, input: Seq<u8>, first: nat, second: nat)
    ensures
        m.run(input, first + second) == m.run(input, first).resumed(input, second),
    decreases first,
{
    let whole = m.run(input, first + second);
    let head = m.run(input, first);
    if m.halted || first == 0 {
        assert(input.skip(0) =~= input);
        assert(whole =~= head.resumed(input, second));
    } else {
        let offered = if input.len() > 0 { Some(input[0]) } else { None };
        if m.step(offered) is Ok {
            let next = m.step(offered)->Ok_0;
            let read: nat = if m.awaits_input() { 1 } else { 0 };
            let waiting = input.skip(read as int);
            let rest = next.run(waiting, (first - 1) as nat);
            lemma_run_resumed(next, waiting, (first - 1) as nat, second);
            lemma_run_bounds(next, waiting, (first - 1) as nat);
            assert(next.run(waiting, (first - 1 + second) as nat) == rest.resumed(waiting, second));
            assert(waiting.skip(rest.consumed as int) =~= input.skip((read + rest.consumed) as int));
            assert(whole =~= head.resumed(input, second));
        }
    }
}

} // verus!
