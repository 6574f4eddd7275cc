use lc3::isa::{FL_NEG, StepResult, VmError};
use lc3::machine::VirtualMachine;

const R_PC: u16 = 8;
const R_COND: u16 = 9;

fn machine_with(words: Vec<u16>) -> VirtualMachine {
    let mut vm = VirtualMachine::new();
    vm.load_image(&words, 0x3000).unwrap();
    vm.set_pc(0x3000);
    vm
}

#[test]
fn getc_reads_one_byte_into_r0() {
    let mut vm = machine_with(vec![0xF020]);
    vm.feed_input(&vec![65, 66]);
    assert_eq!(vm.step(), StepResult::Continue);
    assert_eq!(vm.get(0), 65);
    // No echo: the output sink stays empty.
    assert_eq!(vm.take_output(), Vec::<u8>::new());
}

#[test]
fn getc_without_input_fails_and_changes_nothing() {
    let mut vm = machine_with(vec![0xF020]);
    vm.set(0, 0x1234);
    assert_eq!(vm.step(), StepResult::Error(VmError::IOFailure));
    assert_eq!(vm.get(0), 0x1234);
    assert_eq!(vm.get(R_PC), 0x3001);
}

#[test]
fn out_writes_low_byte_of_r0() {
    let mut vm = machine_with(vec![0xF021]);
    vm.set(0, 0x4142);
    assert_eq!(vm.step(), StepResult::Continue);
    assert_eq!(vm.take_output(), vec![0x42]);
}

#[test]
fn puts_writes_words_until_zero() {
    let mut vm = machine_with(vec![0xF022]);
    vm.load_image(&vec![72, 105, 0], 0x4000).unwrap();
    vm.set(0, 0x4000);
    assert_eq!(vm.step(), StepResult::Continue);
    assert_eq!(vm.take_output(), vec![72, 105]);
}

#[test]
fn puts_unterminated_string_fails_without_output() {
    let mut vm = machine_with(vec![0xF022]);
    vm.write(0xFFFE, 1).unwrap();
    vm.write(0xFFFF, 1).unwrap();
    vm.set(0, 0xFFFE);
    assert_eq!(vm.step(), StepResult::Error(VmError::IOFailure));
    assert_eq!(vm.take_output(), Vec::<u8>::new());
}

#[test]
fn trap_in_prompts_reads_and_echoes() {
    let mut vm = machine_with(vec![0xF023]);
    vm.feed_input(&vec![66]);
    assert_eq!(vm.step(), StepResult::Continue);
    assert_eq!(vm.get(0), 66);
    assert_eq!(vm.take_output(), vec![0x3E, 0x20, 66]);
}

#[test]
fn trap_in_without_input_fails_without_prompt() {
    let mut vm = machine_with(vec![0xF023]);
    assert_eq!(vm.step(), StepResult::Error(VmError::IOFailure));
    assert_eq!(vm.take_output(), Vec::<u8>::new());
}

#[test]
fn putsp_unpacks_two_bytes_per_word() {
    let mut vm = machine_with(vec![0xF024]);
    vm.load_image(&vec![0x6261, 0x0063, 0], 0x4000).unwrap();
    vm.set(0, 0x4000);
    assert_eq!(vm.step(), StepResult::Continue);
    assert_eq!(vm.take_output(), vec![0x61, 0x62, 0x63]);
}

#[test]
fn unknown_trap_vector_is_invalid_opcode() {
    let mut vm = machine_with(vec![0xF0FF]);
    assert_eq!(vm.step(), StepResult::Error(VmError::InvalidOpcode));
}

#[test]
fn halt_returns_halted_with_registers_unchanged() {
    let mut vm = machine_with(vec![0xF025]);
    for r in 0..8 {
        vm.set(r, 0x1100 + r);
    }
    vm.set(R_COND, 1);
    assert_eq!(vm.run(10), StepResult::Halted);
    for r in 0..8 {
        assert_eq!(vm.get(r), 0x1100 + r);
    }
    assert_eq!(vm.get(R_COND), 1);
    assert_eq!(vm.get(R_PC), 0x3001);
}

#[test]
fn run_executes_until_halt() {
    // ADD R0, R0, #1 three times, then HALT.
    let mut vm = machine_with(vec![0x1021, 0x1021, 0x1021, 0xF025]);
    assert_eq!(vm.run(100), StepResult::Halted);
    assert_eq!(vm.get(0), 3);
    assert_eq!(vm.get(R_PC), 0x3004);
}

#[test]
fn run_out_of_budget_returns_continue() {
    // BRnzp #-1: a tight endless loop.
    let mut vm = machine_with(vec![0x0FFF]);
    vm.set(R_COND, 1);
    assert_eq!(vm.run(5), StepResult::Continue);
    assert_eq!(vm.get(R_PC), 0x3000);
}

#[test]
fn run_stops_on_error() {
    let mut vm = machine_with(vec![0x1021, 0x8000]);
    assert_eq!(vm.run(10), StepResult::Error(VmError::InvalidOpcode));
    assert_eq!(vm.get(0), 1);
}

#[test]
fn sti_then_ldi_round_trips_through_indirection() {
    // STI R2, #4 then LDI R3, #3: both resolve to the cell 0x3005, which
    // holds the indirection address 0x4000.
    let mut vm = machine_with(vec![0xB404, 0xA603, 0, 0, 0, 0x4000]);
    vm.set(2, 0xBEEF);
    assert_eq!(vm.step(), StepResult::Continue);
    assert_eq!(vm.read(0x4000), Ok(0xBEEF));
    assert_eq!(vm.step(), StepResult::Continue);
    assert_eq!(vm.get(3), 0xBEEF);
    assert_eq!(vm.get(R_COND), FL_NEG);
}

#[test]
fn feed_input_appends_and_getc_consumes_in_order() {
    let mut vm = machine_with(vec![0xF020, 0xF020]);
    vm.feed_input(&vec![1]);
    vm.feed_input(&vec![2]);
    assert_eq!(vm.step(), StepResult::Continue);
    assert_eq!(vm.get(0), 1);
    assert_eq!(vm.step(), StepResult::Continue);
    assert_eq!(vm.get(0), 2);
}

#[test]
fn take_output_drains_the_sink() {
    let mut vm = machine_with(vec![0xF021, 0xF021]);
    vm.set(0, 0x41);
    assert_eq!(vm.step(), StepResult::Continue);
    assert_eq!(vm.take_output(), vec![0x41]);
    assert_eq!(vm.step(), StepResult::Continue);
    assert_eq!(vm.take_output(), vec![0x41]);
    assert_eq!(vm.take_output(), Vec::<u8>::new());
}
