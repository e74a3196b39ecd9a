use synacors::error::VmError;
use synacors::vm::VM;

#[test]
fn literal_words_denote_themselves() {
    let mut vm = VM::new(&[]);
    vm.registers = [9, 9, 9, 9, 9, 9, 9, 9];
    for w in [0u16, 1, 2, 255, 256, 12345, 32766, 32767] {
        assert_eq!(vm.get_value(w), Ok(w));
    }
}

#[test]
fn every_literal_word_denotes_itself() {
    let vm = VM::new(&[]);
    for w in 0..=32767u16 {
        assert_eq!(vm.get_value(w), Ok(w));
    }
}

#[test]
fn register_words_denote_register_contents() {
    let mut vm = VM::new(&[]);
    vm.registers = [10, 11, 12, 13, 14, 15, 16, 65535];
    for i in 0..8u16 {
        assert_eq!(vm.get_value(32768 + i), Ok(vm.registers[i as usize]));
    }
    assert_eq!(vm.get_value(32768), Ok(10));
    assert_eq!(vm.get_value(32775), Ok(65535));
}

#[test]
fn register_write_changes_later_reads_only() {
    let mut vm = VM::new(&[]);
    let before = vm.get_value(32771);
    vm.registers[3] = 700;
    let after = vm.get_value(32771);
    assert_eq!(before, Ok(0));
    assert_eq!(after, Ok(700));
    assert_eq!(vm.get_value(32770), Ok(0));
    assert_eq!(vm.get_value(32772), Ok(0));
}

#[test]
fn words_above_the_registers_are_invalid_operands() {
    let vm = VM::new(&[]);
    for w in [32776u16, 32777, 40000, 65535] {
        assert_eq!(vm.get_value(w), Err(VmError::InvalidOperand(w)));
    }
}

#[test]
fn register_targets() {
    let vm = VM::new(&[]);
    for i in 0..8u16 {
        assert_eq!(vm.get_register(32768 + i), Ok(i));
    }
}

#[test]
fn literal_is_no_register_target() {
    let vm = VM::new(&[]);
    for w in [0u16, 1, 7, 32767] {
        assert_eq!(vm.get_register(w), Err(VmError::InvalidOperand(w)));
    }
}

#[test]
fn word_above_the_registers_is_no_register_target() {
    let vm = VM::new(&[]);
    for w in [32776u16, 65535] {
        assert_eq!(vm.get_register(w), Err(VmError::InvalidOperand(w)));
    }
}
