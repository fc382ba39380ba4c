use synacor_vm::codec::{decode_program, encode_program};
use synacor_vm::state::{Status, VmError};
use synacor_vm::vm::{Input, VM};

const FUEL: u64 = 100_000;

fn run_program(words: Vec<u16>, input: Vec<u8>) -> (Result<Status, VmError>, Vec<u8>, VM) {
    let mut vm = VM::new();
    vm.init(&words);
    let mut inp = Input::new(input);
    let mut out: Vec<u8> = Vec::new();
    let r = vm.run(&mut inp, &mut out, FUEL);
    (r, out, vm)
}

#[test]
fn add_and_print() {
    // register[0] = (register[1] + 65) mod 32768 = 65, then OUT prints 'A'.
    let (r, out, vm) = run_program(vec![9, 32768, 32769, 65, 19, 32768, 0], vec![]);
    assert_eq!(r, Ok(Status::Halted));
    assert_eq!(out, b"A".to_vec());
    assert_eq!(vm.registers[0], 65);
}

#[test]
fn print_hi() {
    let (r, out, _) = run_program(vec![19, 72, 19, 105, 0], vec![]);
    assert_eq!(r, Ok(Status::Halted));
    assert_eq!(out, b"Hi".to_vec());
}

#[test]
fn set_mult_out() {
    // SET r0=10, SET r1=3, MULT r2 = 30, OUT r2, HALT.
    let (r, out, vm) = run_program(
        vec![1, 32768, 10, 1, 32769, 3, 10, 32770, 32768, 32769, 19, 32770, 0],
        vec![],
    );
    assert_eq!(r, Ok(Status::Halted));
    assert_eq!(vm.registers[2], 30);
    assert_eq!(out, vec![30u8]);
}

#[test]
fn call_and_ret() {
    // CALL 5; at 5, OUT 'A'; RET to 2, OUT 'B'; HALT.
    let (r, out, _) = run_program(vec![17, 5, 19, 66, 0, 19, 65, 18], vec![]);
    assert_eq!(r, Ok(Status::Halted));
    assert_eq!(out, b"AB".to_vec());
}

#[test]
fn not_of_zero() {
    let (r, _, vm) = run_program(vec![14, 32768, 0, 0], vec![]);
    assert_eq!(r, Ok(Status::Halted));
    assert_eq!(vm.registers[0], 32767);
}

#[test]
fn not_involution() {
    // NOT r0 = 32767, NOT r0 again = 0.
    let (r, _, vm) = run_program(vec![14, 32768, 0, 14, 32768, 32768, 0], vec![]);
    assert_eq!(r, Ok(Status::Halted));
    assert_eq!(vm.registers[0], 0);
}

#[test]
fn jmp_over() {
    // JMP 6; OUT 'X'; HALT.
    let (r, out, _) = run_program(vec![6, 6, 0, 0, 0, 0, 19, 88, 0], vec![]);
    assert_eq!(r, Ok(Status::Halted));
    assert_eq!(out, b"X".to_vec());
}

#[test]
fn operand_32767_is_literal() {
    // SET r0 = 32767: the largest raw cell that decodes as a literal.
    let (r, _, vm) = run_program(vec![1, 32768, 32767, 0], vec![]);
    assert_eq!(r, Ok(Status::Halted));
    assert_eq!(vm.registers[0], 32767);
}

#[test]
fn operand_32768_is_register_0() {
    // SET r0 = 7, then ADD r1 = r0 + 0 through raw operand 32768.
    let (r, _, vm) = run_program(vec![1, 32768, 7, 9, 32769, 32768, 0, 0], vec![]);
    assert_eq!(r, Ok(Status::Halted));
    assert_eq!(vm.registers[1], 7);
}

#[test]
fn operand_32775_is_register_7() {
    // SET r7 = 9, then ADD r0 = r7 + 0 through raw operand 32775.
    let (r, _, vm) = run_program(vec![1, 32775, 9, 9, 32768, 32775, 0, 0], vec![]);
    assert_eq!(r, Ok(Status::Halted));
    assert_eq!(vm.registers[7], 9);
    assert_eq!(vm.registers[0], 9);
}

#[test]
fn operand_32776_is_fatal() {
    // OUT with raw operand 32776: one past the last register name.
    let (r, out, _) = run_program(vec![19, 32776, 0], vec![]);
    assert_eq!(r, Err(VmError::InvalidOperand { raw: 32776, pc: 0 }));
    assert!(out.is_empty());
}

#[test]
fn add_wraps() {
    // ADD r0 = 32767 + 1 = 0 modulo 32768.
    let (r, _, vm) = run_program(vec![9, 32768, 32767, 1, 0], vec![]);
    assert_eq!(r, Ok(Status::Halted));
    assert_eq!(vm.registers[0], 0);
}

#[test]
fn mult_wraps() {
    // MULT r0 = 32767 * 2 = 32766 modulo 32768.
    let (r, _, vm) = run_program(vec![10, 32768, 32767, 2, 0], vec![]);
    assert_eq!(r, Ok(Status::Halted));
    assert_eq!(vm.registers[0], 32766);
}

#[test]
fn mod_instruction() {
    // MOD r0 = 14 mod 4 = 2.
    let (r, _, vm) = run_program(vec![11, 32768, 14, 4, 0], vec![]);
    assert_eq!(r, Ok(Status::Halted));
    assert_eq!(vm.registers[0], 2);
}

#[test]
fn mod_by_zero_is_fatal() {
    let (r, _, _) = run_program(vec![11, 32768, 5, 0, 0], vec![]);
    assert_eq!(r, Err(VmError::DivideByZero { pc: 0 }));
}

#[test]
fn eq_gt_flags() {
    // EQ r0 = (5 == 5), GT r1 = (5 > 5), GT r2 = (6 > 5).
    let (r, _, vm) = run_program(
        vec![4, 32768, 5, 5, 5, 32769, 5, 5, 5, 32770, 6, 5, 0],
        vec![],
    );
    assert_eq!(r, Ok(Status::Halted));
    assert_eq!(vm.registers[0], 1);
    assert_eq!(vm.registers[1], 0);
    assert_eq!(vm.registers[2], 1);
}

#[test]
fn and_or_bitwise() {
    // AND r0 = 12 & 10 = 8; OR r1 = 12 | 10 = 14.
    let (r, _, vm) = run_program(vec![12, 32768, 12, 10, 13, 32769, 12, 10, 0], vec![]);
    assert_eq!(r, Ok(Status::Halted));
    assert_eq!(vm.registers[0], 8);
    assert_eq!(vm.registers[1], 14);
}

#[test]
fn jt_jf_branches() {
    // JT 1 -> 6; at 6, JF 0 -> 12; at 12, OUT 'Y'; HALT.
    let (r, out, _) = run_program(
        vec![7, 1, 6, 19, 78, 0, 8, 0, 12, 19, 78, 0, 19, 89, 0],
        vec![],
    );
    assert_eq!(r, Ok(Status::Halted));
    assert_eq!(out, b"Y".to_vec());
}

#[test]
fn push_pop() {
    // PUSH 41, PUSH 42, POP r0 (42), POP r1 (41).
    let (r, _, vm) = run_program(vec![2, 41, 2, 42, 3, 32768, 3, 32769, 0], vec![]);
    assert_eq!(r, Ok(Status::Halted));
    assert_eq!(vm.registers[0], 42);
    assert_eq!(vm.registers[1], 41);
    assert!(vm.stack.is_empty());
}

#[test]
fn pop_empty_is_fatal() {
    let (r, _, _) = run_program(vec![3, 32768, 0], vec![]);
    assert_eq!(r, Err(VmError::StackUnderflow { pc: 0 }));
}

#[test]
fn ret_empty_halts_cleanly() {
    let (r, out, _) = run_program(vec![18, 19, 90, 0], vec![]);
    assert_eq!(r, Ok(Status::Halted));
    assert!(out.is_empty());
}

#[test]
fn rmem_wmem() {
    // WMEM address 7 <- 77, RMEM r0 <- memory[7].
    let (r, _, vm) = run_program(vec![16, 7, 77, 15, 32768, 7, 0, 0], vec![]);
    assert_eq!(r, Ok(Status::Halted));
    assert_eq!(vm.registers[0], 77);
    assert_eq!(vm.memory[7], 77);
}

#[test]
fn rmem_reads_raw_cells() {
    // RMEM r0 <- memory[4], a raw cell holding 40000; the register
    // holds the raw word.
    let (r, _, vm) = run_program(vec![15, 32768, 4, 0, 40000], vec![]);
    assert_eq!(r, Ok(Status::Halted));
    assert_eq!(vm.registers[0], 40000);
}

#[test]
fn jump_through_wild_register_is_fatal() {
    // RMEM r0 <- 40000, then JMP r0: the target is outside the address
    // space.
    let (r, _, _) = run_program(vec![15, 32768, 5, 6, 32768, 40000], vec![]);
    assert_eq!(r, Err(VmError::InvalidAddress { value: 40000, pc: 3 }));
}

#[test]
fn bad_opcode_is_fatal() {
    let (r, _, _) = run_program(vec![21, 22, 0], vec![]);
    assert_eq!(r, Err(VmError::InvalidOpcode { value: 22, pc: 1 }));
}

#[test]
fn set_needs_register_target() {
    // SET with a literal write target.
    let (r, _, _) = run_program(vec![1, 5, 0], vec![]);
    assert_eq!(r, Err(VmError::InvalidWriteTarget { raw: 5, pc: 0 }));
}

#[test]
fn in_reads_byte() {
    // IN r0, OUT r0: echoes one byte.
    let (r, out, vm) = run_program(vec![20, 32768, 19, 32768, 0], b"A".to_vec());
    assert_eq!(r, Ok(Status::Halted));
    assert_eq!(vm.registers[0], 65);
    assert_eq!(out, b"A".to_vec());
}

#[test]
fn in_on_empty_input_is_fatal() {
    let (r, _, _) = run_program(vec![20, 32768, 0], vec![]);
    assert_eq!(r, Err(VmError::InputFailure));
}

#[test]
fn out_takes_low_byte() {
    // OUT of 321 writes the low 8 bits: 321 mod 256 = 65.
    let (r, out, _) = run_program(vec![19, 321, 0], vec![]);
    assert_eq!(r, Ok(Status::Halted));
    assert_eq!(out, b"A".to_vec());
}

#[test]
fn fuel_runs_out_on_tight_loop() {
    // JMP 0 forever: the budget is spent and the machine is still
    // running.
    let (r, _, _) = run_program(vec![6, 0], vec![]);
    assert_eq!(r, Ok(Status::Running));
}

#[test]
fn output_before_fault_is_kept() {
    // OUT 'A', then a bad opcode: the byte already written stays.
    let (r, out, _) = run_program(vec![19, 65, 22, 0], vec![]);
    assert_eq!(r, Err(VmError::InvalidOpcode { value: 22, pc: 2 }));
    assert_eq!(out, b"A".to_vec());
}

#[test]
fn codec_round_trip() {
    let words: Vec<u16> = vec![0, 1, 255, 256, 32767, 32768, 40000, 65535];
    let bytes = encode_program(&words);
    assert_eq!(bytes.len(), 2 * words.len());
    assert_eq!(decode_program(&bytes), words);
}

#[test]
fn codec_little_endian() {
    let bytes = encode_program(&vec![0x1234]);
    assert_eq!(bytes, vec![0x34, 0x12]);
    assert_eq!(decode_program(&vec![0x34, 0x12]), vec![0x1234]);
}

#[test]
fn decode_ignores_odd_trailing_byte() {
    assert_eq!(decode_program(&vec![9, 0, 7]), vec![9]);
}

#[test]
fn load_image_round_trip() {
    // Loading the encoding of a word array, then reading memory back,
    // yields the array; memory past the image keeps its contents.
    let words: Vec<u16> = vec![19, 72, 19, 105, 0];
    let bytes = encode_program(&words);
    let mut vm = VM::new();
    vm.load(&bytes);
    for (i, w) in words.iter().enumerate() {
        assert_eq!(vm.memory[i], *w);
    }
    assert_eq!(vm.memory.len(), 32768);
    assert_eq!(vm.memory[words.len()], 0);
    let mut inp = Input::new(Vec::new());
    let mut out: Vec<u8> = Vec::new();
    assert_eq!(vm.run(&mut inp, &mut out, FUEL), Ok(Status::Halted));
    assert_eq!(out, b"Hi".to_vec());
}

#[test]
fn new_machine_is_blank() {
    let vm = VM::new();
    assert_eq!(vm.memory.len(), 32768);
    assert_eq!(vm.registers.len(), 8);
    assert!(vm.memory.iter().all(|w| *w == 0));
    assert!(vm.registers.iter().all(|w| *w == 0));
    assert!(vm.stack.is_empty());
    assert_eq!(vm.pc, 0);
}

#[test]
fn input_yields_bytes_in_order() {
    let mut inp = Input::new(vec![1, 2]);
    assert_eq!(inp.next(), Some(1));
    assert_eq!(inp.next(), Some(2));
    assert_eq!(inp.next(), None);
}
