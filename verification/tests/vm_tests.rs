use iridium::assembler::PIE_HEADER_LENGTH;
use iridium::assembler::PIE_HEADER_PREFIX;
use iridium::vm::VM;

fn prepend_header(mut b: Vec<u8>) -> Vec<u8> {
    let mut prepension = vec![];
    for byte in PIE_HEADER_PREFIX.into_iter() {
        prepension.push(byte.clone());
    }
    while prepension.len() < PIE_HEADER_LENGTH {
        prepension.push(0);
    }
    prepension.append(&mut b);
    prepension
}

#[test]
fn test_create_vm() {
    let test_vm = VM::default();
    assert_eq!(test_vm.registers[0], 0);
}

#[test]
fn test_hlt_opcode() {
    let mut test_vm = VM::default();
    let test_bytes = vec![5, 0, 0, 0];
    test_vm.program = test_bytes;
    test_vm.run_once();
    assert_eq!(test_vm.pc, 1);
}

#[test]
fn test_igl_opcode() {
    let mut test_vm = VM::default();
    let test_bytes = vec![200, 0, 0, 0];
    test_vm.program = test_bytes;
    test_vm.run_once();
    assert_eq!(test_vm.pc, 1);
}

#[test]
fn test_load_opcode() {
    let mut test_vm = VM::get_test_vm();
    test_vm.program = vec![0, 0, 1, 244];
    test_vm.program = prepend_header(test_vm.program);
    test_vm.run();
    assert_eq!(test_vm.registers[0], 500);
}

#[test]
fn test_add_opcode() {
    let mut test_vm = VM::get_test_vm();
    test_vm.program = vec![1, 0, 1, 2];
    test_vm.program = prepend_header(test_vm.program);
    test_vm.run();
    assert_eq!(test_vm.registers[2], 15);
}

#[test]
fn test_sub_opcode() {
    let mut test_vm = VM::get_test_vm();
    test_vm.program = vec![2, 1, 0, 2];
    test_vm.program = prepend_header(test_vm.program);
    test_vm.run();
    assert_eq!(test_vm.registers[2], 5);
}

#[test]
fn test_mul_opcode() {
    let mut test_vm = VM::get_test_vm();
    test_vm.program = vec![3, 0, 1, 2];
    test_vm.program = prepend_header(test_vm.program);
    test_vm.run();
    assert_eq!(test_vm.registers[2], 50);
}

#[test]
fn test_div_opcode() {
    let mut test_vm = VM::get_test_vm();
    test_vm.program = vec![4, 1, 0, 2];
    test_vm.program = prepend_header(test_vm.program);
    test_vm.run();
    assert_eq!(test_vm.registers[2], 2);
}

#[test]
fn test_jmp_opcode() {
    let mut test_vm = VM::get_test_vm();
    test_vm.registers[0] = 1;
    test_vm.program = vec![6, 0, 0, 0];
    test_vm.run_once();
    assert_eq!(test_vm.pc, 1);
}

#[test]
fn test_jmpf_opcode() {
    let mut test_vm = VM::get_test_vm();
    test_vm.registers[0] = 2;
    test_vm.program = vec![7, 0, 0, 0, 6, 0, 0, 0];
    test_vm.run_once();
    assert_eq!(test_vm.pc, 4);
}

#[test]
fn test_jmpb_opcode() {
    let mut test_vm = VM::get_test_vm();
    test_vm.registers[0] = 2;
    test_vm.program = vec![8, 0, 0, 0, 6, 0, 0, 0];
    test_vm.run_once();
    assert_eq!(test_vm.pc, 0);
}

#[test]
fn test_eq_opcode() {
    let mut test_vm = VM::get_test_vm();
    test_vm.registers[0] = 10;
    test_vm.registers[1] = 10;
    test_vm.program = vec![9, 0, 1, 0, 9, 0, 1, 0];
    test_vm.run_once();
    assert_eq!(test_vm.equal_flag, true);
    test_vm.registers[1] = 20;
    test_vm.run_once();
    assert_eq!(test_vm.equal_flag, false);
}

#[test]
fn test_neq_opcode() {
    let mut test_vm = VM::get_test_vm();
    test_vm.registers[0] = 10;
    test_vm.registers[1] = 10;
    test_vm.program = vec![10, 0, 1, 0, 10, 0, 1, 0];
    test_vm.run_once();
    assert_eq!(test_vm.equal_flag, false);
    test_vm.registers[1] = 20;
    test_vm.run_once();
    assert_eq!(test_vm.equal_flag, true);
}

#[test]
fn test_gt_opcode() {
    let mut test_vm = VM::get_test_vm();
    test_vm.registers[0] = 10;
    test_vm.registers[1] = 0;
    test_vm.program = vec![11, 0, 1, 0, 11, 0, 1, 0, 11, 0, 1, 0];
    test_vm.run_once();
    assert_eq!(test_vm.equal_flag, true);
    test_vm.registers[1] = 10;
    test_vm.run_once();
    assert_eq!(test_vm.equal_flag, false);
    test_vm.registers[1] = 20;
    test_vm.run_once();
    assert_eq!(test_vm.equal_flag, false);
}

#[test]
fn test_lt_opcode() {
    let mut test_vm = VM::get_test_vm();
    test_vm.registers[0] = 10;
    test_vm.registers[1] = 0;
    test_vm.program = vec![12, 0, 1, 0, 12, 0, 1, 0, 12, 0, 1, 0];
    test_vm.run_once();
    assert_eq!(test_vm.equal_flag, false);
    test_vm.registers[1] = 10;
    test_vm.run_once();
    assert_eq!(test_vm.equal_flag, false);
    test_vm.registers[1] = 20;
    test_vm.run_once();
    assert_eq!(test_vm.equal_flag, true);
}

#[test]
fn test_gte_opcode() {
    let mut test_vm = VM::get_test_vm();
    test_vm.registers[0] = 10;
    test_vm.registers[1] = 0;
    test_vm.program = vec![13, 0, 1, 0, 13, 0, 1, 0, 13, 0, 1, 0];
    test_vm.run_once();
    assert_eq!(test_vm.equal_flag, true);
    test_vm.registers[1] = 10;
    test_vm.run_once();
    assert_eq!(test_vm.equal_flag, true);
    test_vm.registers[1] = 20;
    test_vm.run_once();
    assert_eq!(test_vm.equal_flag, false);
}

#[test]
fn test_lte_opcode() {
    let mut test_vm = VM::get_test_vm();
    test_vm.registers[0] = 10;
    test_vm.registers[1] = 0;
    test_vm.program = vec![14, 0, 1, 0, 14, 0, 1, 0, 14, 0, 1, 0];
    test_vm.run_once();
    assert_eq!(test_vm.equal_flag, false);
    test_vm.registers[1] = 10;
    test_vm.run_once();
    assert_eq!(test_vm.equal_flag, true);
    test_vm.registers[1] = 20;
    test_vm.run_once();
    assert_eq!(test_vm.equal_flag, true);
}

#[test]
fn test_jmpe_opcode() {
    let mut test_vm = VM::get_test_vm();
    test_vm.registers[0] = 7;
    test_vm.equal_flag = true;
    test_vm.program = vec![15, 0, 0, 0, 16, 0, 0, 0, 16, 0, 0, 0];
    test_vm.run_once();
    assert_eq!(test_vm.pc, 7);
}

#[test]
fn test_aloc_opcode() {
    let mut test_vm = VM::get_test_vm();
    test_vm.registers[0] = 1024;
    test_vm.program = vec![17, 0, 0, 0];
    test_vm.run_once();
    assert_eq!(test_vm.heap.len(), 1024);
}

#[test]
fn test_prts_opcode() {
    let mut test_vm = VM::get_test_vm();
    test_vm.ro_data.append(&mut vec![72, 101, 108, 108, 111, 0]);
    test_vm.program = vec![21, 0, 0, 0];
    test_vm.run_once();
}

#[test]
fn test_prts_output_bytes() {
    let mut test_vm = VM::get_test_vm();
    test_vm.ro_data.append(&mut vec![72, 101, 108, 108, 111, 0]);
    test_vm.program = vec![21, 0, 0, 0];
    test_vm.run_once();
    assert_eq!(test_vm.output, vec![72, 101, 108, 108, 111]);
    assert_eq!(test_vm.pc, 4);
}

#[test]
fn test_aloc_advances_pc_by_four() {
    let mut test_vm = VM::get_test_vm();
    test_vm.registers[0] = 16;
    test_vm.program = vec![17, 0, 0, 0];
    test_vm.run_once();
    assert_eq!(test_vm.heap.len(), 16);
    assert_eq!(test_vm.pc, 4);
}

#[test]
fn test_djmpe_opcode() {
    let mut test_vm = VM::get_test_vm();
    test_vm.equal_flag = true;
    test_vm.program = vec![20, 0, 8, 0, 16, 0, 0, 0, 16, 0, 0, 0];
    test_vm.run_once();
    assert_eq!(test_vm.pc, 9);
}

#[test]
fn test_djmpe_not_taken() {
    let mut test_vm = VM::get_test_vm();
    test_vm.equal_flag = false;
    test_vm.program = vec![20, 0, 8, 0, 16, 0, 0, 0, 16, 0, 0, 0];
    test_vm.run_once();
    assert_eq!(test_vm.pc, 4);
}

#[test]
fn test_inc_dec_opcodes() {
    let mut test_vm = VM::get_test_vm();
    test_vm.program = vec![18, 0, 0, 0, 19, 1, 0, 0];
    test_vm.run_once();
    assert_eq!(test_vm.registers[0], 6);
    test_vm.run_once();
    assert_eq!(test_vm.registers[1], 9);
    assert_eq!(test_vm.pc, 8);
}

#[test]
fn test_load_advances_pc_by_four() {
    let mut test_vm = VM::get_test_vm();
    test_vm.program = vec![0, 0, 1, 244];
    test_vm.run_once();
    assert_eq!(test_vm.pc, 4);
    assert_eq!(test_vm.registers[0], 500);
}

#[test]
fn test_truncated_instruction_faults() {
    let mut test_vm = VM::default();
    test_vm.program = vec![0, 0];
    test_vm.run_once();
    assert_eq!(test_vm.pc, 0);
    assert_eq!(test_vm.registers[0], 0);
}

#[test]
fn test_register_out_of_range_faults() {
    let mut test_vm = VM::default();
    test_vm.program = vec![0, 40, 1, 244];
    test_vm.run_once();
    assert_eq!(test_vm.pc, 0);
}

#[test]
fn test_division_by_zero_faults() {
    let mut test_vm = VM::default();
    test_vm.registers[0] = 7;
    test_vm.program = vec![4, 0, 1, 2];
    test_vm.run_once();
    assert_eq!(test_vm.pc, 0);
    assert_eq!(test_vm.registers[2], 0);
}

#[test]
fn test_div_sets_remainder() {
    let mut test_vm = VM::default();
    test_vm.registers[0] = 7;
    test_vm.registers[1] = 2;
    test_vm.program = vec![4, 0, 1, 2];
    test_vm.run_once();
    assert_eq!(test_vm.registers[2], 3);
    assert_eq!(test_vm.remainder, 1);
}

#[test]
fn test_run_refuses_bad_header() {
    let mut test_vm = VM::default();
    test_vm.program = vec![0, 0, 1, 244];
    let ok = test_vm.run();
    assert!(!ok);
    assert_eq!(test_vm.pc, 0);
}

#[test]
fn test_decode_helpers() {
    let mut test_vm = VM::default();
    test_vm.program = vec![1, 7, 1, 244];
    let op = test_vm.decode_opcode();
    assert_eq!(op, iridium::instruction::Opcode::ADD);
    assert_eq!(test_vm.next_8_bits(), 7);
    assert_eq!(test_vm.next_16_bits(), 500);
    assert_eq!(test_vm.pc, 4);
}
