use lc3::isa::VmError;
use lc3::machine::VirtualMachine;

#[test]
fn read_one_past_end_is_out_of_bounds() {
    let vm = VirtualMachine::new();
    assert_eq!(vm.read(65536), Err(VmError::OutOfBounds));
}

#[test]
fn read_last_cell_is_ok() {
    let vm = VirtualMachine::new();
    assert_eq!(vm.read(65535), Ok(0));
}

#[test]
fn write_then_read_round_trip() {
    let mut vm = VirtualMachine::new();
    assert_eq!(vm.write(0x1234, 0xABCD), Ok(()));
    assert_eq!(vm.read(0x1234), Ok(0xABCD));
}

#[test]
fn write_out_of_bounds_fails() {
    let mut vm = VirtualMachine::new();
    assert_eq!(vm.write(65536, 1), Err(VmError::OutOfBounds));
}

#[test]
fn mem_read_follows_pointer() {
    let mut vm = VirtualMachine::new();
    vm.write(0x2000, 0x3000).unwrap();
    vm.write(0x3000, 77).unwrap();
    assert_eq!(vm.mem_read(0x2000), Ok(77));
}

#[test]
fn mem_read_out_of_bounds_fails() {
    let vm = VirtualMachine::new();
    assert_eq!(vm.mem_read(65536), Err(VmError::OutOfBounds));
}

#[test]
fn load_image_copies_words_at_origin() {
    let mut vm = VirtualMachine::new();
    assert_eq!(vm.load_image(&vec![10, 20, 30], 0x3000), Ok(()));
    assert_eq!(vm.read(0x3000), Ok(10));
    assert_eq!(vm.read(0x3001), Ok(20));
    assert_eq!(vm.read(0x3002), Ok(30));
    assert_eq!(vm.read(0x2FFF), Ok(0));
    assert_eq!(vm.read(0x3003), Ok(0));
}

#[test]
fn load_image_to_the_last_cell_is_ok() {
    let mut vm = VirtualMachine::new();
    assert_eq!(vm.load_image(&vec![7, 8], 0xFFFE), Ok(()));
    assert_eq!(vm.read(0xFFFE), Ok(7));
    assert_eq!(vm.read(0xFFFF), Ok(8));
}

#[test]
fn load_image_past_end_is_rejected_whole() {
    let mut vm = VirtualMachine::new();
    assert_eq!(vm.load_image(&vec![1, 2], 0xFFFF), Err(VmError::OutOfBounds));
    assert_eq!(vm.read(0xFFFF), Ok(0));
}

#[test]
fn new_machine_is_zeroed() {
    let vm = VirtualMachine::new();
    for r in 0..10 {
        assert_eq!(vm.get(r), 0);
    }
    assert_eq!(vm.read(0), Ok(0));
    assert_eq!(vm.read(0x8000), Ok(0));
}
