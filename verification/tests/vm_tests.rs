use rbvm::vm::{Error, State, Vm};

fn get_test_vm(
    fill_registers: Option<Vec<(usize, i32)>>,
    pc: Option<usize>,
    program: Vec<u8>,
) -> Vm {
    Vm::new(fill_registers, pc, program, None, None)
}

#[test]
fn test_create_vm() {
    let test_vm = Vm::default();
    assert_eq!(test_vm.registers[0], 0)
}

#[test]
fn test_opcode_halt() {
    let program = vec![1, 0, 0, 0];
    let mut test_vm = get_test_vm(None, None, program);
    let result = test_vm.run_once();
    assert!(result.is_err());
    assert_eq!(test_vm.pc, 4);
}

#[test]
fn test_opcode_ill() {
    let program = vec![200, 0, 0, 0];
    let mut test_vm = get_test_vm(None, None, program);
    let result = test_vm.run_once();
    assert!(result.is_err());
    assert_eq!(test_vm.pc, 4);
}

#[test]
fn test_opcode_load() {
    // `500` as two big-endian bytes: `1, 244`
    let program = vec![2, 0, 1, 244];
    let mut test_vm = get_test_vm(None, None, program);
    let result = test_vm.run_once();
    assert!(result.is_ok());
    assert_eq!(test_vm.registers[0], 500);
}

#[test]
fn test_opcode_add() {
    let fill_registers = Some(vec![(1, 15), (2, 10)]);
    let program = vec![3, 1, 2, 0];
    let mut test_vm = get_test_vm(fill_registers, None, program);
    let result = test_vm.run_once();
    assert!(result.is_ok());
    assert_eq!(test_vm.registers[0], 25);
}

#[test]
fn test_opcode_sub() {
    let fill_registers = Some(vec![(1, 15), (2, 10)]);
    let program = vec![4, 1, 2, 0];
    let mut test_vm = get_test_vm(fill_registers, None, program);
    let result = test_vm.run_once();
    assert!(result.is_ok());
    assert_eq!(test_vm.registers[0], 5);
}

#[test]
fn test_opcode_mul() {
    let fill_registers = Some(vec![(1, 4), (2, 6)]);
    let program = vec![5, 1, 2, 0];
    let mut test_vm = get_test_vm(fill_registers, None, program);
    let result = test_vm.run_once();
    assert!(result.is_ok());
    assert_eq!(test_vm.registers[0], 24);
}

#[test]
fn test_opcode_div() {
    let fill_registers = Some(vec![(1, 8), (2, 5)]);
    let program = vec![6, 1, 2, 0];
    let mut test_vm = get_test_vm(fill_registers, None, program);
    let result = test_vm.run_once();
    assert!(result.is_ok());
    assert_eq!(test_vm.registers[0], 1);
    assert_eq!(test_vm.remainder, 3)
}

#[test]
fn test_opcode_jump() {
    let fill_registers = Some(vec![(0, 4)]);
    let program = vec![7, 0, 0, 0];
    let mut test_vm = get_test_vm(fill_registers, None, program);
    let result = test_vm.run_once();
    assert!(result.is_ok());
    assert_eq!(test_vm.pc, 4);
}

#[test]
fn test_opcode_jf() {
    let fill_registers = Some(vec![(0, 4)]);
    let program = vec![8, 0, 0, 0, 0, 0, 0, 0, 0, 0, 0, 0];
    let mut test_vm = get_test_vm(fill_registers, None, program);
    let result = test_vm.run_once();
    assert!(result.is_ok());
    assert_eq!(test_vm.pc, 8);
}

#[test]
fn test_opcode_jb() {
    let fill_registers = Some(vec![(0, 8)]);
    let pc = Some(4);
    let program = vec![0, 0, 0, 0, 9, 0, 0, 0];
    let mut test_vm = get_test_vm(fill_registers, pc, program);
    let result = test_vm.run_once();
    assert!(result.is_ok());
    assert_eq!(test_vm.pc, 0);
}

#[test]
fn test_opcode_eq() {
    let fill_registers0 = Some(vec![(1, 32), (2, 32)]);
    let program0 = vec![10, 1, 2, 0];
    let mut test_vm0 = get_test_vm(fill_registers0, None, program0);
    let result0 = test_vm0.run_once();
    assert!(result0.is_ok());
    assert!(test_vm0.equal_flag);

    let fill_registers1 = Some(vec![(1, 52), (2, 38)]);
    let program1 = vec![10, 1, 2, 0];
    let mut test_vm1 = get_test_vm(fill_registers1, None, program1);
    let result1 = test_vm1.run_once();
    assert!(result1.is_ok());
    assert!(!test_vm1.equal_flag);
}

#[test]
fn test_opcode_ne() {
    let fill_registers0 = Some(vec![(1, 32), (2, 32)]);
    let program0 = vec![11, 1, 2, 0];
    let mut test_vm0 = get_test_vm(fill_registers0, None, program0);
    let result0 = test_vm0.run_once();
    assert!(result0.is_ok());
    assert!(!test_vm0.equal_flag);

    let fill_registers1 = Some(vec![(1, 52), (2, 38)]);
    let program1 = vec![11, 1, 2, 0];
    let mut test_vm1 = get_test_vm(fill_registers1, None, program1);
    let result1 = test_vm1.run_once();
    assert!(result1.is_ok());
    assert!(test_vm1.equal_flag);
}

#[test]
fn test_opcode_gt() {
    let fill_registers0 = Some(vec![(1, 8), (2, 5)]);
    let program0 = vec![12, 1, 2, 0];
    let mut test_vm0 = get_test_vm(fill_registers0, None, program0);
    let result0 = test_vm0.run_once();
    assert!(result0.is_ok());
    assert!(test_vm0.equal_flag);

    let fill_registers1 = Some(vec![(1, 5), (2, 8)]);
    let program1 = vec![12, 1, 2, 0];
    let mut test_vm1 = get_test_vm(fill_registers1, None, program1);
    let result1 = test_vm1.run_once();
    assert!(result1.is_ok());
    assert!(!test_vm1.equal_flag);
}

#[test]
fn test_opcode_lt() {
    let fill_registers0 = Some(vec![(1, 8), (2, 5)]);
    let program0 = vec![13, 1, 2, 0];
    let mut test_vm0 = get_test_vm(fill_registers0, None, program0);
    let result0 = test_vm0.run_once();
    assert!(result0.is_ok());
    assert!(!test_vm0.equal_flag);

    let fill_registers1 = Some(vec![(1, 5), (2, 8)]);
    let program1 = vec![13, 1, 2, 0];
    let mut test_vm1 = get_test_vm(fill_registers1, None, program1);
    let result1 = test_vm1.run_once();
    assert!(result1.is_ok());
    assert!(test_vm1.equal_flag);
}

#[test]
fn test_opcode_gte() {
    let fill_registers0 = Some(vec![(1, 77), (2, 64)]);
    let program0 = vec![14, 1, 2, 0];
    let mut test_vm0 = get_test_vm(fill_registers0, None, program0);
    let result0 = test_vm0.run_once();
    assert!(result0.is_ok());
    assert!(test_vm0.equal_flag);

    let fill_registers1 = Some(vec![(1, 21), (2, 21)]);
    let program1 = vec![14, 1, 2, 0];
    let mut test_vm1 = get_test_vm(fill_registers1, None, program1);
    let result1 = test_vm1.run_once();
    assert!(result1.is_ok());
    assert!(test_vm1.equal_flag);

    let fill_registers2 = Some(vec![(1, 8), (2, 64)]);
    let program2 = vec![14, 1, 2, 0];
    let mut test_vm2 = get_test_vm(fill_registers2, None, program2);
    let result2 = test_vm2.run_once();
    assert!(result2.is_ok());
    assert!(!test_vm2.equal_flag);
}

#[test]
fn test_opcode_lte() {
    let fill_registers0 = Some(vec![(1, 77), (2, 64)]);
    let program0 = vec![15, 1, 2, 0];
    let mut test_vm0 = get_test_vm(fill_registers0, None, program0);
    let result0 = test_vm0.run_once();
    assert!(result0.is_ok());
    assert!(!test_vm0.equal_flag);

    let fill_registers1 = Some(vec![(1, 21), (2, 21)]);
    let program1 = vec![15, 1, 2, 0];
    let mut test_vm1 = get_test_vm(fill_registers1, None, program1);
    let result1 = test_vm1.run_once();
    assert!(result1.is_ok());
    assert!(test_vm1.equal_flag);

    let fill_registers2 = Some(vec![(1, 8), (2, 64)]);
    let program2 = vec![15, 1, 2, 0];
    let mut test_vm2 = get_test_vm(fill_registers2, None, program2);
    let result2 = test_vm2.run_once();
    assert!(result2.is_ok());
    assert!(test_vm2.equal_flag);
}

#[test]
fn test_opcode_je() {
    let pc0 = Some(4);
    let program0 = vec![0, 0, 0, 0, 16, 0, 0, 0];
    let mut test_vm0 = get_test_vm(None, pc0, program0);
    test_vm0.equal_flag = true;
    let result0 = test_vm0.run_once();
    assert!(result0.is_ok());
    assert_eq!(test_vm0.pc, 0);

    let pc1 = Some(4);
    let program1 = vec![0, 0, 0, 0, 16, 0, 0, 0, 0, 0, 0, 0];
    let mut test_vm1 = get_test_vm(None, pc1, program1);
    let result1 = test_vm1.run_once();
    assert!(result1.is_ok());
    assert_eq!(test_vm1.pc, 8);
}

#[test]
fn test_opcode_jne() {
    let pc0 = Some(4);
    let program0 = vec![0, 0, 0, 0, 17, 0, 0, 0];
    let mut test_vm0 = get_test_vm(None, pc0, program0);
    let result0 = test_vm0.run_once();
    assert!(result0.is_ok());
    assert_eq!(test_vm0.pc, 0);

    let pc1 = Some(4);
    let program1 = vec![0, 0, 0, 0, 17, 0, 0, 0, 0, 0, 0, 0];
    let mut test_vm1 = get_test_vm(None, pc1, program1);
    test_vm1.equal_flag = true;
    let result1 = test_vm1.run_once();
    assert!(result1.is_ok());
    assert_eq!(test_vm1.pc, 8);
}

#[test]
fn test_run_reaches_end_without_halt() {
    // A short, halt-less program terminates in the end-of-program state and
    // never reads out of bounds.
    let program = vec![2, 0, 0, 5];
    let mut test_vm = get_test_vm(None, None, program);
    let result = test_vm.run();
    assert!(result.is_ok());
    assert_eq!(test_vm.state, State::ReachedEof);
    assert_eq!(test_vm.registers[0], 5);
    assert_eq!(test_vm.pc, 4);
}

#[test]
fn test_run_halts() {
    let program = vec![2, 0, 0, 7, 1, 0, 0, 0];
    let mut test_vm = get_test_vm(None, None, program);
    let result = test_vm.run();
    assert!(result.is_ok());
    assert_eq!(test_vm.state, State::Halted);
    assert_eq!(test_vm.registers[0], 7);
}

#[test]
fn test_run_stops_at_illegal_opcode() {
    // The default run policy treats a decoded illegal opcode as fatal: the
    // run stops at it with the counter past the illegal slot, and nothing
    // after it has executed.
    let program = vec![200, 0, 0, 0, 2, 0, 0, 9];
    let mut test_vm = get_test_vm(None, None, program);
    let result = test_vm.run();
    assert_eq!(result, Err(Error::IllegalOpcode));
    assert_eq!(test_vm.state, State::Resumed);
    assert_eq!(test_vm.pc, 4);
    assert_eq!(test_vm.registers[0], 0);

    // A caller choosing the skip-and-continue policy resumes by running
    // again; execution picks up past the illegal slot.
    let resumed = test_vm.run();
    assert!(resumed.is_ok());
    assert_eq!(test_vm.state, State::ReachedEof);
    assert_eq!(test_vm.registers[0], 9);
}

#[test]
fn test_opcode_div_by_zero() {
    let fill_registers = Some(vec![(1, 8), (2, 0)]);
    let program = vec![6, 1, 2, 0];
    let mut test_vm = get_test_vm(fill_registers, None, program);
    let result = test_vm.run_once();
    assert_eq!(result, Err(Error::DivideByZero));
    assert_eq!(test_vm.registers[0], 0);
}

#[test]
fn test_register_index_out_of_range() {
    let program = vec![3, 9, 2, 0];
    let mut test_vm = get_test_vm(None, None, program);
    let result = test_vm.run_once();
    assert_eq!(result, Err(Error::RegisterOutOfRange));
}

#[test]
fn test_jump_to_negative_offset() {
    let fill_registers = Some(vec![(0, -4)]);
    let program = vec![7, 0, 0, 0];
    let mut test_vm = get_test_vm(fill_registers, None, program);
    let result = test_vm.run_once();
    assert_eq!(result, Err(Error::PcOutOfRange));
}

#[test]
fn test_truncated_instruction_reports_end() {
    // A trailing instruction whose operand bytes are missing is not
    // executed; the machine reports end-of-program instead of reading past
    // the buffer.
    let program = vec![2, 0];
    let mut test_vm = get_test_vm(None, None, program);
    let result = test_vm.run_once();
    assert_eq!(result, Err(Error::ReachedEof));
    assert_eq!(test_vm.state, State::ReachedEof);
}

#[test]
fn test_arithmetic_wraps_on_overflow() {
    let fill_registers = Some(vec![(1, i32::MAX), (2, 1)]);
    let program = vec![3, 1, 2, 0];
    let mut test_vm = get_test_vm(fill_registers, None, program);
    let result = test_vm.run_once();
    assert!(result.is_ok());
    assert_eq!(test_vm.registers[0], i32::MIN);
}

#[test]
fn test_decode_opcode_advances() {
    let program = vec![6, 1, 2, 0];
    let mut test_vm = get_test_vm(None, None, program);
    let opcode = test_vm.decode_opcode();
    assert_eq!(opcode, rbvm::opcodes::Opcode::DIV);
    assert_eq!(test_vm.pc, 1);
}

#[test]
fn test_push_byte_and_bytes() {
    let mut test_vm = Vm::default();
    test_vm.push_byte(1);
    test_vm.push_bytes(vec![2, 3]);
    assert_eq!(test_vm.program, vec![1, 2, 3]);
}
