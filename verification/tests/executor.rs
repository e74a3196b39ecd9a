use synacors::error::VmError;
use synacors::op::Op;
use synacors::vm::VM;

const R0: u16 = 32768;
const R1: u16 = 32769;
const R2: u16 = 32770;
const R7: u16 = 32775;

fn blank() -> VM {
    VM::new(&[])
}

fn snapshot(vm: &VM) -> (Vec<u16>, [u16; 8], Vec<u16>, usize, bool, bool) {
    (vm.memory.to_vec(), vm.registers, vm.stack.clone(), vm.pc, vm.halted, vm.debug)
}

fn assert_fault_leaves_machine(vm: &mut VM, op: Op, input: Option<u8>, fault: VmError) {
    let before = snapshot(vm);
    assert_eq!(vm.execute_op(&op, input), Err(fault));
    assert_eq!(snapshot(vm), before);
}

#[test]
fn halt_sets_the_flag_and_nothing_else() {
    let mut vm = blank();
    vm.pc = 1;
    assert_eq!(vm.execute_op(&Op::Halt(), None), Ok(None));
    assert!(vm.halted);
    assert_eq!(vm.pc, 1);
    assert_eq!(vm.registers, [0u16; 8]);
    assert!(vm.stack.is_empty());
}

#[test]
fn set_writes_a_literal() {
    let mut vm = blank();
    assert_eq!(vm.execute_op(&Op::SetReg(R0, 5), None), Ok(None));
    assert_eq!(vm.registers, [5, 0, 0, 0, 0, 0, 0, 0]);
}

#[test]
fn set_copies_a_register() {
    let mut vm = blank();
    vm.registers[7] = 40000;
    assert_eq!(vm.execute_op(&Op::SetReg(R1, R7), None), Ok(None));
    assert_eq!(vm.registers, [0, 40000, 0, 0, 0, 0, 0, 40000]);
}

#[test]
fn push_then_pop_restores_the_value() {
    let mut vm = blank();
    assert_eq!(vm.execute_op(&Op::SetReg(R0, 5), None), Ok(None));
    assert_eq!(vm.execute_op(&Op::Push(R0), None), Ok(None));
    assert_eq!(vm.stack, vec![5]);
    assert_eq!(vm.execute_op(&Op::Pop(R1), None), Ok(None));
    assert_eq!(vm.registers[1], 5);
    assert_eq!(vm.registers[0], 5);
    assert!(vm.stack.is_empty());
}

#[test]
fn stack_is_last_in_first_out() {
    let mut vm = blank();
    assert_eq!(vm.execute_op(&Op::Push(1), None), Ok(None));
    assert_eq!(vm.execute_op(&Op::Push(2), None), Ok(None));
    assert_eq!(vm.execute_op(&Op::Push(3), None), Ok(None));
    assert_eq!(vm.stack, vec![1, 2, 3]);
    assert_eq!(vm.execute_op(&Op::Pop(R0), None), Ok(None));
    assert_eq!(vm.execute_op(&Op::Pop(R1), None), Ok(None));
    assert_eq!(vm.registers[0], 3);
    assert_eq!(vm.registers[1], 2);
    assert_eq!(vm.stack, vec![1]);
}

#[test]
fn pop_on_empty_stack_underflows() {
    let mut vm = blank();
    assert_fault_leaves_machine(&mut vm, Op::Pop(R0), None, VmError::StackUnderflow);
}

#[test]
fn pop_reports_underflow_before_a_bad_target() {
    let mut vm = blank();
    assert_fault_leaves_machine(&mut vm, Op::Pop(3), None, VmError::StackUnderflow);
}

#[test]
fn pop_with_bad_target_keeps_the_stack() {
    let mut vm = blank();
    vm.stack.push(9);
    assert_fault_leaves_machine(&mut vm, Op::Pop(3), None, VmError::InvalidOperand(3));
    assert_eq!(vm.stack, vec![9]);
}

#[test]
fn eq_compares_values() {
    let mut vm = blank();
    vm.registers[1] = 7;
    assert_eq!(vm.execute_op(&Op::Eq(R0, R1, 7), None), Ok(None));
    assert_eq!(vm.registers[0], 1);
    assert_eq!(vm.execute_op(&Op::Eq(R0, R1, 8), None), Ok(None));
    assert_eq!(vm.registers[0], 0);
}

#[test]
fn gt_compares_values() {
    let mut vm = blank();
    assert_eq!(vm.execute_op(&Op::Gt(R0, 8, 7), None), Ok(None));
    assert_eq!(vm.registers[0], 1);
    assert_eq!(vm.execute_op(&Op::Gt(R0, 7, 7), None), Ok(None));
    assert_eq!(vm.registers[0], 0);
    assert_eq!(vm.execute_op(&Op::Gt(R0, 6, 7), None), Ok(None));
    assert_eq!(vm.registers[0], 0);
}

#[test]
fn jmp_sets_the_program_counter() {
    let mut vm = blank();
    vm.pc = 2;
    assert_eq!(vm.execute_op(&Op::Jmp(1234), None), Ok(None));
    assert_eq!(vm.pc, 1234);
    vm.registers[0] = 32767;
    assert_eq!(vm.execute_op(&Op::Jmp(R0), None), Ok(None));
    assert_eq!(vm.pc, 32767);
}

#[test]
fn jump_outside_memory_faults() {
    let mut vm = blank();
    vm.pc = 2;
    vm.registers[0] = 32768;
    assert_fault_leaves_machine(&mut vm, Op::Jmp(R0), None, VmError::AddressOutOfRange(32768));
    vm.registers[0] = 65535;
    assert_fault_leaves_machine(&mut vm, Op::Jmp(R0), None, VmError::AddressOutOfRange(65535));
}

#[test]
fn jt_with_zero_does_not_jump() {
    let mut vm = blank();
    vm.pc = 3;
    assert_eq!(vm.execute_op(&Op::Jt(R0, 100), None), Ok(None));
    assert_eq!(vm.pc, 3);
}

#[test]
fn jt_with_nonzero_jumps_to_the_target() {
    let mut vm = blank();
    vm.pc = 3;
    vm.registers[0] = 1;
    vm.registers[1] = 200;
    assert_eq!(vm.execute_op(&Op::Jt(R0, 100), None), Ok(None));
    assert_eq!(vm.pc, 100);
    assert_eq!(vm.execute_op(&Op::Jt(R0, R1), None), Ok(None));
    assert_eq!(vm.pc, 200);
    assert_eq!(vm.execute_op(&Op::Jt(40, 7), None), Ok(None));
    assert_eq!(vm.pc, 7);
}

#[test]
fn jf_with_zero_jumps_to_the_target() {
    let mut vm = blank();
    vm.pc = 3;
    assert_eq!(vm.execute_op(&Op::Jf(R0, 100), None), Ok(None));
    assert_eq!(vm.pc, 100);
}

#[test]
fn jf_with_nonzero_does_not_jump() {
    let mut vm = blank();
    vm.pc = 3;
    vm.registers[0] = 2;
    assert_eq!(vm.execute_op(&Op::Jf(R0, 100), None), Ok(None));
    assert_eq!(vm.pc, 3);
}

#[test]
fn untaken_jump_does_not_resolve_its_target() {
    let mut vm = blank();
    vm.pc = 3;
    assert_eq!(vm.execute_op(&Op::Jt(0, 40000), None), Ok(None));
    assert_eq!(vm.execute_op(&Op::Jf(1, 40000), None), Ok(None));
    assert_eq!(vm.pc, 3);
    assert_fault_leaves_machine(&mut vm, Op::Jt(1, 40000), None, VmError::InvalidOperand(40000));
    assert_fault_leaves_machine(&mut vm, Op::Jf(0, 40000), None, VmError::InvalidOperand(40000));
}

#[test]
fn add_wraps_at_32768() {
    let mut vm = blank();
    assert_eq!(vm.execute_op(&Op::Add(R0, 4, 1), None), Ok(None));
    assert_eq!(vm.registers[0], 5);
    assert_eq!(vm.execute_op(&Op::Add(R0, 32767, 1), None), Ok(None));
    assert_eq!(vm.registers[0], 0);
    assert_eq!(vm.execute_op(&Op::Add(R0, 32758, 15), None), Ok(None));
    assert_eq!(vm.registers[0], 5);
    assert_eq!(vm.execute_op(&Op::Add(R0, 32767, 32767), None), Ok(None));
    assert_eq!(vm.registers[0], 32766);
}

#[test]
fn mult_wraps_at_32768() {
    let mut vm = blank();
    assert_eq!(vm.execute_op(&Op::Mult(R0, 6, 7), None), Ok(None));
    assert_eq!(vm.registers[0], 42);
    assert_eq!(vm.execute_op(&Op::Mult(R0, 32767, 2), None), Ok(None));
    assert_eq!(vm.registers[0], 32766);
    assert_eq!(vm.execute_op(&Op::Mult(R0, 32767, 32767), None), Ok(None));
    assert_eq!(vm.registers[0], 1);
    assert_eq!(vm.execute_op(&Op::Mult(R0, 256, 128), None), Ok(None));
    assert_eq!(vm.registers[0], 0);
}

#[test]
fn add_and_mult_results_are_literals() {
    let mut vm = blank();
    let samples = [0u16, 1, 2, 3, 255, 256, 1000, 16383, 16384, 32766, 32767];
    for x in samples {
        for y in samples {
            assert_eq!(vm.execute_op(&Op::Add(R0, x, y), None), Ok(None));
            assert_eq!(vm.registers[0] as u32, (x as u32 + y as u32) % 32768);
            assert!(vm.registers[0] <= 32767);
            assert_eq!(vm.execute_op(&Op::Mult(R1, x, y), None), Ok(None));
            assert_eq!(vm.registers[1] as u32, (x as u32 * y as u32) % 32768);
            assert!(vm.registers[1] <= 32767);
        }
    }
}

#[test]
fn add_and_mult_of_full_words_still_give_literals() {
    let mut vm = blank();
    vm.registers[1] = 65535;
    vm.registers[2] = 65535;
    assert_eq!(vm.execute_op(&Op::Add(R0, R1, R2), None), Ok(None));
    assert_eq!(vm.registers[0], 32766);
    assert_eq!(vm.execute_op(&Op::Mult(R0, R1, R2), None), Ok(None));
    assert_eq!(vm.registers[0], 1);
}

#[test]
fn mod_gives_the_remainder() {
    let mut vm = blank();
    assert_eq!(vm.execute_op(&Op::Mod(R0, 17, 5), None), Ok(None));
    assert_eq!(vm.registers[0], 2);
    assert_eq!(vm.execute_op(&Op::Mod(R0, 5, 17), None), Ok(None));
    assert_eq!(vm.registers[0], 5);
}

#[test]
fn mod_by_zero_faults() {
    let mut vm = blank();
    vm.registers[0] = 3;
    assert_fault_leaves_machine(&mut vm, Op::Mod(R0, 17, 0), None, VmError::DivisionByZero);
    assert_fault_leaves_machine(&mut vm, Op::Mod(R0, 17, R1), None, VmError::DivisionByZero);
}

#[test]
fn and_or_are_bitwise() {
    let mut vm = blank();
    assert_eq!(vm.execute_op(&Op::And(R0, 0b1100, 0b1010), None), Ok(None));
    assert_eq!(vm.registers[0], 0b1000);
    assert_eq!(vm.execute_op(&Op::Or(R0, 0b1100, 0b1010), None), Ok(None));
    assert_eq!(vm.registers[0], 0b1110);
    vm.registers[1] = 0xffff;
    assert_eq!(vm.execute_op(&Op::And(R0, R1, R1), None), Ok(None));
    assert_eq!(vm.registers[0], 0xffff);
    assert_eq!(vm.execute_op(&Op::Or(R0, R1, 1), None), Ok(None));
    assert_eq!(vm.registers[0], 0xffff);
}

#[test]
fn not_is_masked_to_fifteen_bits() {
    let mut vm = blank();
    assert_eq!(vm.execute_op(&Op::Not(R0, 0), None), Ok(None));
    assert_eq!(vm.registers[0], 32767);
    assert_eq!(vm.registers[0], 0x7FFF);
    assert_eq!(vm.execute_op(&Op::Not(R0, 32767), None), Ok(None));
    assert_eq!(vm.registers[0], 0);
    assert_eq!(vm.execute_op(&Op::Not(R0, 0b101), None), Ok(None));
    assert_eq!(vm.registers[0], 0b111_1111_1111_1010);
    vm.registers[1] = 0x8001;
    assert_eq!(vm.execute_op(&Op::Not(R0, R1), None), Ok(None));
    assert_eq!(vm.registers[0], 0x7FFE);
}

#[test]
fn rmem_reads_memory() {
    let mut vm = blank();
    vm.memory[1000] = 4242;
    vm.memory[32767] = 65535;
    vm.registers[1] = 32767;
    assert_eq!(vm.execute_op(&Op::Rmem(R0, 1000), None), Ok(None));
    assert_eq!(vm.registers[0], 4242);
    assert_eq!(vm.execute_op(&Op::Rmem(R0, R1), None), Ok(None));
    assert_eq!(vm.registers[0], 65535);
}

#[test]
fn rmem_outside_memory_faults() {
    let mut vm = blank();
    vm.registers[1] = 32768;
    assert_fault_leaves_machine(&mut vm, Op::Rmem(R0, R1), None, VmError::AddressOutOfRange(32768));
}

#[test]
fn wmem_writes_memory() {
    let mut vm = blank();
    vm.registers[0] = 2000;
    vm.registers[1] = 50000;
    assert_eq!(vm.execute_op(&Op::Wmem(R0, R1), None), Ok(None));
    assert_eq!(vm.memory[2000], 50000);
    assert_eq!(vm.execute_op(&Op::Wmem(0, 77), None), Ok(None));
    assert_eq!(vm.memory[0], 77);
    assert_eq!(vm.memory.iter().filter(|w| **w != 0).count(), 2);
}

#[test]
fn wmem_outside_memory_faults() {
    let mut vm = blank();
    vm.registers[0] = 40000;
    assert_fault_leaves_machine(&mut vm, Op::Wmem(R0, 1), None, VmError::AddressOutOfRange(40000));
}

#[test]
fn wmem_resolves_the_value_before_the_address() {
    let mut vm = blank();
    assert_fault_leaves_machine(
        &mut vm,
        Op::Wmem(50000, 60000),
        None,
        VmError::InvalidOperand(60000),
    );
}

#[test]
fn call_pushes_the_return_address() {
    let mut vm = blank();
    vm.pc = 2;
    assert_eq!(vm.execute_op(&Op::Call(10), None), Ok(None));
    assert_eq!(vm.pc, 10);
    assert_eq!(vm.stack, vec![2]);
}

#[test]
fn call_then_ret_returns_after_the_call() {
    let mut vm = blank();
    vm.stack.push(99);
    vm.pc = 2;
    assert_eq!(vm.execute_op(&Op::Call(10), None), Ok(None));
    assert_eq!(vm.execute_op(&Op::Ret(), None), Ok(None));
    assert_eq!(vm.pc, 2);
    assert_eq!(vm.stack, vec![99]);
}

#[test]
fn call_with_bad_target_pushes_nothing() {
    let mut vm = blank();
    vm.pc = 2;
    vm.registers[0] = 32768;
    assert_fault_leaves_machine(&mut vm, Op::Call(40000), None, VmError::InvalidOperand(40000));
    assert_fault_leaves_machine(&mut vm, Op::Call(R0), None, VmError::AddressOutOfRange(32768));
    assert!(vm.stack.is_empty());
}

#[test]
fn call_at_the_end_of_memory_saves_an_address_ret_cannot_use() {
    let mut vm = blank();
    vm.pc = 32768;
    assert_eq!(vm.execute_op(&Op::Call(10), None), Ok(None));
    assert_eq!(vm.stack, vec![32768]);
    assert_fault_leaves_machine(&mut vm, Op::Ret(), None, VmError::AddressOutOfRange(32768));
    assert_eq!(vm.stack, vec![32768]);
}

#[test]
fn call_with_unrepresentable_return_address_faults() {
    let mut vm = blank();
    vm.pc = 65536;
    assert_fault_leaves_machine(&mut vm, Op::Call(10), None, VmError::AddressOutOfRange(65536));
}

#[test]
fn ret_on_empty_stack_underflows() {
    let mut vm = blank();
    assert_fault_leaves_machine(&mut vm, Op::Ret(), None, VmError::StackUnderflow);
}

#[test]
fn out_emits_the_low_byte() {
    let mut vm = blank();
    assert_eq!(vm.execute_op(&Op::Out(65), None), Ok(Some(65)));
    assert_eq!(vm.execute_op(&Op::Out(321), None), Ok(Some(65)));
    vm.registers[2] = 255;
    assert_eq!(vm.execute_op(&Op::Out(R2), None), Ok(Some(255)));
    assert_eq!(vm.execute_op(&Op::Out(0), None), Ok(Some(0)));
}

#[test]
fn out_changes_nothing() {
    let mut vm = blank();
    vm.registers[2] = 66;
    let before = snapshot(&vm);
    assert_eq!(vm.execute_op(&Op::Out(R2), None), Ok(Some(66)));
    assert_eq!(snapshot(&vm), before);
}

#[test]
fn in_stores_the_offered_byte() {
    let mut vm = blank();
    assert_eq!(vm.execute_op(&Op::In(R0), Some(b'x')), Ok(None));
    assert_eq!(vm.registers[0], 120);
    assert_eq!(vm.execute_op(&Op::In(R7), Some(255)), Ok(None));
    assert_eq!(vm.registers[7], 255);
}

#[test]
fn in_without_input_faults() {
    let mut vm = blank();
    assert_fault_leaves_machine(&mut vm, Op::In(R0), None, VmError::InputExhausted);
    assert_fault_leaves_machine(&mut vm, Op::In(0), None, VmError::InputExhausted);
}

#[test]
fn in_with_bad_target_faults() {
    let mut vm = blank();
    assert_fault_leaves_machine(&mut vm, Op::In(0), Some(1), VmError::InvalidOperand(0));
}

#[test]
fn only_in_reads_the_offered_byte() {
    let mut vm = blank();
    assert_eq!(vm.execute_op(&Op::SetReg(R0, 5), Some(9)), Ok(None));
    assert_eq!(vm.execute_op(&Op::Noop(), Some(9)), Ok(None));
    assert_eq!(vm.registers, [5, 0, 0, 0, 0, 0, 0, 0]);
}

#[test]
fn noop_changes_nothing() {
    let mut vm = blank();
    vm.registers[4] = 1;
    vm.stack.push(3);
    vm.pc = 9;
    let before = snapshot(&vm);
    assert_eq!(vm.execute_op(&Op::Noop(), None), Ok(None));
    assert_eq!(snapshot(&vm), before);
}

#[test]
fn literal_destination_is_an_invalid_operand() {
    let mut vm = blank();
    vm.stack.push(1);
    for op in [
        Op::SetReg(5, 1),
        Op::Pop(5),
        Op::Eq(5, 1, 1),
        Op::Gt(5, 1, 1),
        Op::Add(5, 1, 1),
        Op::Mult(5, 1, 1),
        Op::Mod(5, 1, 1),
        Op::And(5, 1, 1),
        Op::Or(5, 1, 1),
        Op::Not(5, 1),
        Op::Rmem(5, 1),
        Op::In(5),
    ] {
        assert_fault_leaves_machine(&mut vm, op, Some(0), VmError::InvalidOperand(5));
    }
}

#[test]
fn invalid_source_is_an_invalid_operand() {
    let mut vm = blank();
    for op in [
        Op::SetReg(R0, 32776),
        Op::Push(32776),
        Op::Eq(R0, 32776, 1),
        Op::Eq(R0, 1, 32776),
        Op::Gt(R0, 32776, 1),
        Op::Jmp(32776),
        Op::Jt(32776, 1),
        Op::Jf(32776, 1),
        Op::Add(R0, 1, 32776),
        Op::Mult(R0, 32776, 1),
        Op::Mod(R0, 1, 32776),
        Op::And(R0, 32776, 1),
        Op::Or(R0, 1, 32776),
        Op::Not(R0, 32776),
        Op::Rmem(R0, 32776),
        Op::Wmem(32776, 1),
        Op::Wmem(1, 32776),
        Op::Call(32776),
        Op::Out(32776),
    ] {
        assert_fault_leaves_machine(&mut vm, op, None, VmError::InvalidOperand(32776));
    }
}

#[test]
fn sources_are_resolved_before_the_destination() {
    let mut vm = blank();
    assert_fault_leaves_machine(&mut vm, Op::SetReg(5, 40000), None, VmError::InvalidOperand(40000));
    assert_fault_leaves_machine(
        &mut vm,
        Op::Add(5, 40000, 50000),
        None,
        VmError::InvalidOperand(40000),
    );
    assert_fault_leaves_machine(&mut vm, Op::Add(5, 1, 50000), None, VmError::InvalidOperand(50000));
    assert_fault_leaves_machine(&mut vm, Op::Mod(5, 1, 0), None, VmError::DivisionByZero);
}

#[test]
fn no_instruction_clears_the_halted_flag() {
    let mut vm = blank();
    vm.halted = true;
    vm.stack.push(1);
    for op in [
        Op::Halt(),
        Op::SetReg(R0, 1),
        Op::Push(1),
        Op::Pop(R0),
        Op::Jmp(1),
        Op::Add(R0, 1, 1),
        Op::Wmem(1, 1),
        Op::Out(1),
        Op::Noop(),
    ] {
        assert!(vm.execute_op(&op, None).is_ok());
        assert!(vm.halted);
    }
}

#[test]
fn debug_switch_is_carried_along() {
    let mut vm = blank();
    vm.debug = true;
    assert_eq!(vm.execute_op(&Op::SetReg(R0, 1), None), Ok(None));
    assert_eq!(vm.execute_op(&Op::Halt(), None), Ok(None));
    assert!(vm.debug);
}
