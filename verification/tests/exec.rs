use lc3::isa::{FL_NEG, FL_POS, FL_ZRO, OPCode, StepResult, VmError};
use lc3::machine::VirtualMachine;

const R_PC: u16 = 8;
const R_COND: u16 = 9;

fn machine_with(words: Vec<u16>) -> VirtualMachine {
    let mut vm = VirtualMachine::new();
    vm.load_image(&words, 0x3000).unwrap();
    vm.set_pc(0x3000);
    vm
}

#[test]
fn decode_is_total_over_four_bits() {
    assert_eq!(OPCode::get(0), Some(OPCode::Br));
    assert_eq!(OPCode::get(1), Some(OPCode::Add));
    assert_eq!(OPCode::get(8), Some(OPCode::Rti));
    assert_eq!(OPCode::get(13), Some(OPCode::Res));
    assert_eq!(OPCode::get(15), Some(OPCode::Trap));
    assert_eq!(OPCode::get(16), None);
    assert_eq!(OPCode::get(0xFFFF), None);
}

#[test]
fn add_immediate_negative_three() {
    // ADD R0, R1, #-3 with R1 = 5 leaves R0 = 2 and a positive flag.
    let mut vm = machine_with(vec![0x107D]);
    vm.set(1, 5);
    assert_eq!(vm.step(), StepResult::Continue);
    assert_eq!(vm.get(0), 2);
    assert_eq!(vm.get(R_COND), FL_POS);
    assert_eq!(vm.get(R_PC), 0x3001);
}

#[test]
fn add_register_form() {
    // ADD R0, R1, R2
    let mut vm = machine_with(vec![0x1042]);
    vm.set(1, 7);
    vm.set(2, 8);
    assert_eq!(vm.step(), StepResult::Continue);
    assert_eq!(vm.get(0), 15);
    assert_eq!(vm.get(R_COND), FL_POS);
}

#[test]
fn add_wraps_modulo_two_to_the_sixteen() {
    let mut vm = machine_with(vec![0x1042]);
    vm.set(1, 0xFFFF);
    vm.set(2, 2);
    assert_eq!(vm.step(), StepResult::Continue);
    assert_eq!(vm.get(0), 1);
    assert_eq!(vm.get(R_COND), FL_POS);
}

#[test]
fn and_producing_zero_sets_zero_flag() {
    // AND R0, R1, #0
    let mut vm = machine_with(vec![0x5060]);
    vm.set(1, 0xFFFF);
    assert_eq!(vm.step(), StepResult::Continue);
    assert_eq!(vm.get(0), 0);
    assert_eq!(vm.get(R_COND), FL_ZRO);
}

#[test]
fn not_of_zero_sets_negative_flag() {
    // NOT R0, R1 with R1 = 0 gives 0xFFFF: bit 15 set.
    let mut vm = machine_with(vec![0x907F]);
    vm.set(1, 0);
    assert_eq!(vm.step(), StepResult::Continue);
    assert_eq!(vm.get(0), 0xFFFF);
    assert_eq!(vm.get(R_COND), FL_NEG);
}

#[test]
fn ld_negative_value_sets_negative_flag() {
    // LD R2, #1 reads the word two past the instruction.
    let mut vm = machine_with(vec![0x2401, 0, 0x8001]);
    assert_eq!(vm.step(), StepResult::Continue);
    assert_eq!(vm.get(2), 0x8001);
    assert_eq!(vm.get(R_COND), FL_NEG);
}

#[test]
fn ldr_reads_base_plus_offset() {
    // LDR R3, R2, #1
    let mut vm = machine_with(vec![0x6681]);
    vm.set(2, 0x4000);
    vm.write(0x4001, 123).unwrap();
    assert_eq!(vm.step(), StepResult::Continue);
    assert_eq!(vm.get(3), 123);
    assert_eq!(vm.get(R_COND), FL_POS);
}

#[test]
fn lea_loads_effective_address_without_memory_access() {
    // LEA R4, #2
    let mut vm = machine_with(vec![0xE802]);
    assert_eq!(vm.step(), StepResult::Continue);
    assert_eq!(vm.get(4), 0x3003);
    assert_eq!(vm.get(R_COND), FL_POS);
}

#[test]
fn st_stores_pc_relative() {
    // ST R1, #3
    let mut vm = machine_with(vec![0x3203]);
    vm.set(1, 0x5A5A);
    assert_eq!(vm.step(), StepResult::Continue);
    assert_eq!(vm.read(0x3004), Ok(0x5A5A));
    // Store opcodes leave the condition flags alone.
    assert_eq!(vm.get(R_COND), 0);
}

#[test]
fn str_stores_base_plus_offset() {
    // STR R1, R2, #2
    let mut vm = machine_with(vec![0x7282]);
    vm.set(1, 99);
    vm.set(2, 0x4000);
    assert_eq!(vm.step(), StepResult::Continue);
    assert_eq!(vm.read(0x4002), Ok(99));
}

#[test]
fn br_with_zero_flag_and_z_mask_branches() {
    // BRz #5
    let mut vm = machine_with(vec![0x0405]);
    vm.set(R_COND, FL_ZRO);
    assert_eq!(vm.step(), StepResult::Continue);
    assert_eq!(vm.get(R_PC), 0x3006);
}

#[test]
fn br_with_zero_flag_and_np_mask_does_not_branch() {
    // BRnp #5
    let mut vm = machine_with(vec![0x0A05]);
    vm.set(R_COND, FL_ZRO);
    assert_eq!(vm.step(), StepResult::Continue);
    assert_eq!(vm.get(R_PC), 0x3001);
}

#[test]
fn br_backwards_offset() {
    // BRnzp #-2
    let mut vm = machine_with(vec![0, 0x0FFE]);
    vm.set_pc(0x3001);
    vm.set(R_COND, FL_POS);
    assert_eq!(vm.step(), StepResult::Continue);
    assert_eq!(vm.get(R_PC), 0x3000);
}

#[test]
fn jmp_takes_base_register() {
    // JMP R2
    let mut vm = machine_with(vec![0xC080]);
    vm.set(2, 0x5000);
    assert_eq!(vm.step(), StepResult::Continue);
    assert_eq!(vm.get(R_PC), 0x5000);
}

#[test]
fn jsr_links_and_jmp_r7_returns() {
    // JSR #2, then JMP R7 at the target: execution resumes right after
    // the JSR.
    let mut vm = machine_with(vec![0x4802, 0, 0, 0xC1C0]);
    assert_eq!(vm.step(), StepResult::Continue);
    assert_eq!(vm.get(7), 0x3001);
    assert_eq!(vm.get(R_PC), 0x3003);
    assert_eq!(vm.step(), StepResult::Continue);
    assert_eq!(vm.get(R_PC), 0x3001);
}

#[test]
fn jsrr_takes_base_register() {
    // JSRR R2
    let mut vm = machine_with(vec![0x4080]);
    vm.set(2, 0x5000);
    assert_eq!(vm.step(), StepResult::Continue);
    assert_eq!(vm.get(7), 0x3001);
    assert_eq!(vm.get(R_PC), 0x5000);
}

#[test]
fn rti_is_an_invalid_opcode() {
    let mut vm = machine_with(vec![0x8000]);
    assert_eq!(vm.step(), StepResult::Error(VmError::InvalidOpcode));
    assert_eq!(vm.get(R_PC), 0x3001);
}

#[test]
fn reserved_opcode_is_invalid() {
    let mut vm = machine_with(vec![0xD000]);
    assert_eq!(vm.step(), StepResult::Error(VmError::InvalidOpcode));
}

#[test]
fn set_and_flag_tracks_value_sign() {
    let mut vm = VirtualMachine::new();
    vm.set_and_flag(0, 0);
    assert_eq!(vm.get(R_COND), FL_ZRO);
    vm.set_and_flag(0, 0x8000);
    assert_eq!(vm.get(R_COND), FL_NEG);
    vm.set_and_flag(0, 1);
    assert_eq!(vm.get(R_COND), FL_POS);
}

#[test]
fn update_flags_reads_the_named_register() {
    let mut vm = VirtualMachine::new();
    vm.set(3, 0x8000);
    vm.update_flags(3);
    assert_eq!(vm.get(R_COND), FL_NEG);
    vm.set(3, 0);
    vm.update_flags(3);
    assert_eq!(vm.get(R_COND), FL_ZRO);
}
