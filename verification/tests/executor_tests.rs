use zkm_core::executor::{ExecutionError, Executor, ExecutorMode, ZKMCoreOpts};
use zkm_core::instruction::Instruction;
use zkm_core::opcode::Opcode;
use zkm_core::program::Program;
use zkm_core::register::Register;

fn reg(n: u8) -> Register {
    Register::from_u8(n).unwrap()
}

fn run_program(instructions: Vec<Instruction>) -> Executor {
    let program = Program::new(instructions, 0, 0);
    let mut runtime = Executor::new(program, ZKMCoreOpts::default());
    runtime.run().unwrap();
    runtime
}

#[test]
fn test_simple_program_run() {
    let instructions = vec![
        Instruction::new(Opcode::ADD, 29, 0, 5, false, true),
        Instruction::new(Opcode::ADD, 30, 0, 37, false, true),
        Instruction::new(Opcode::ADD, 31, 30, 29, false, false),
    ];
    let runtime = run_program(instructions);
    assert_eq!(runtime.register(Register::RA), 42);
}

#[test]
fn test_beq_jump() {
    let instructions = vec![
        Instruction::new(Opcode::ADD, 29, 0, 1, false, true),
        Instruction::new(Opcode::ADD, 30, 0, 1, false, true),
        Instruction::new(Opcode::BEQ, 29, 30, 100, false, false),
    ];
    let runtime = run_program(instructions);
    assert_eq!(runtime.state.pc + 100, runtime.state.next_pc);
}

#[test]
fn test_beq_not_jump() {
    let instructions = vec![
        Instruction::new(Opcode::ADD, 29, 0, 1, false, true),
        Instruction::new(Opcode::ADD, 30, 0, 2, false, true),
        Instruction::new(Opcode::BEQ, 29, 30, 100, false, false),
    ];
    let runtime = run_program(instructions);
    assert_eq!(runtime.state.pc + 4, runtime.state.next_pc);
}

#[test]
fn test_bne_not_jump() {
    let instructions = vec![Instruction::new(Opcode::BNE, Register::A0 as u8, 0, 100, true, true)];
    let runtime = run_program(instructions);
    assert_eq!(runtime.state.pc + 4, runtime.state.next_pc);
}

fn three_op(opcode: Opcode) -> Vec<Instruction> {
    vec![
        Instruction::new(Opcode::ADD, 29, 0, 5, false, true),
        Instruction::new(Opcode::ADD, 30, 0, 37, false, true),
        Instruction::new(opcode, 31, 30, 29, false, false),
    ]
}

#[test]
fn test_add() {
    let runtime = run_program(three_op(Opcode::ADD));
    assert_eq!(runtime.register(Register::RA), 42);
}

#[test]
fn test_sub() {
    let runtime = run_program(three_op(Opcode::SUB));
    assert_eq!(runtime.register(Register::RA), 32);
}

#[test]
fn test_xor() {
    let runtime = run_program(three_op(Opcode::XOR));
    assert_eq!(runtime.register(Register::RA), 32);
}

#[test]
fn test_or() {
    let runtime = run_program(three_op(Opcode::OR));
    assert_eq!(runtime.register(Register::RA), 37);
}

#[test]
fn test_and() {
    let runtime = run_program(three_op(Opcode::AND));
    assert_eq!(runtime.register(Register::RA), 5);
}

#[test]
fn test_sll() {
    let runtime = run_program(three_op(Opcode::SLL));
    assert_eq!(runtime.register(Register::RA), 1184);
}

#[test]
fn test_srl() {
    let runtime = run_program(three_op(Opcode::SRL));
    assert_eq!(runtime.register(Register::RA), 1);
}

#[test]
fn test_sra() {
    let runtime = run_program(three_op(Opcode::SRA));
    assert_eq!(runtime.register(Register::RA), 1);
}

#[test]
fn test_slt() {
    let runtime = run_program(three_op(Opcode::SLT));
    assert_eq!(runtime.register(Register::RA), 0);
}

#[test]
fn test_sltu() {
    let runtime = run_program(three_op(Opcode::SLTU));
    assert_eq!(runtime.register(Register::RA), 0);
}

#[test]
fn test_addi() {
    let instructions = vec![
        Instruction::new(Opcode::ADD, 29, 0, 5, false, true),
        Instruction::new(Opcode::ADD, 30, 29, 37, false, true),
        Instruction::new(Opcode::ADD, 31, 30, 42, false, true),
    ];
    let runtime = run_program(instructions);
    assert_eq!(runtime.register(Register::RA), 84);
}

#[test]
fn test_addi_negative() {
    let instructions = vec![
        Instruction::new(Opcode::ADD, 29, 0, 5, false, true),
        Instruction::new(Opcode::ADD, 30, 29, 0xFFFF_FFFF, false, true),
        Instruction::new(Opcode::ADD, 31, 30, 4, false, true),
    ];
    let runtime = run_program(instructions);
    assert_eq!(runtime.register(Register::RA), 5 - 1 + 4);
}

#[test]
fn test_xori() {
    let instructions = vec![
        Instruction::new(Opcode::ADD, 29, 0, 5, false, true),
        Instruction::new(Opcode::XOR, 30, 29, 37, false, true),
        Instruction::new(Opcode::XOR, 31, 30, 42, false, true),
    ];
    let runtime = run_program(instructions);
    assert_eq!(runtime.register(Register::RA), 10);
}

#[test]
fn test_ori() {
    let instructions = vec![
        Instruction::new(Opcode::ADD, 29, 0, 5, false, true),
        Instruction::new(Opcode::OR, 30, 29, 37, false, true),
        Instruction::new(Opcode::OR, 31, 30, 42, false, true),
    ];
    let runtime = run_program(instructions);
    assert_eq!(runtime.register(Register::RA), 47);
}

#[test]
fn test_andi() {
    let instructions = vec![
        Instruction::new(Opcode::ADD, 29, 0, 5, false, true),
        Instruction::new(Opcode::AND, 30, 29, 37, false, true),
        Instruction::new(Opcode::AND, 31, 30, 42, false, true),
    ];
    let runtime = run_program(instructions);
    assert_eq!(runtime.register(Register::RA), 0);
}

#[test]
fn test_slli() {
    let instructions = vec![
        Instruction::new(Opcode::ADD, 29, 0, 5, false, true),
        Instruction::new(Opcode::SLL, 31, 29, 4, false, true),
    ];
    let runtime = run_program(instructions);
    assert_eq!(runtime.register(Register::RA), 80);
}

#[test]
fn test_srli() {
    let instructions = vec![
        Instruction::new(Opcode::ADD, 29, 0, 42, false, true),
        Instruction::new(Opcode::SRL, 31, 29, 4, false, true),
    ];
    let runtime = run_program(instructions);
    assert_eq!(runtime.register(Register::RA), 2);
}

#[test]
fn test_srai() {
    let instructions = vec![
        Instruction::new(Opcode::ADD, 29, 0, 42, false, true),
        Instruction::new(Opcode::SRA, 31, 29, 4, false, true),
    ];
    let runtime = run_program(instructions);
    assert_eq!(runtime.register(Register::RA), 2);
}

#[test]
fn test_slti() {
    let instructions = vec![
        Instruction::new(Opcode::ADD, 29, 0, 42, false, true),
        Instruction::new(Opcode::SLT, 31, 29, 37, false, true),
    ];
    let runtime = run_program(instructions);
    assert_eq!(runtime.register(Register::RA), 0);
}

#[test]
fn test_sltiu() {
    let instructions = vec![
        Instruction::new(Opcode::ADD, 29, 0, 42, false, true),
        Instruction::new(Opcode::SLTU, 31, 29, 37, false, true),
    ];
    let runtime = run_program(instructions);
    assert_eq!(runtime.register(Register::RA), 0);
}

#[test]
fn test_j() {
    let instructions = vec![Instruction::new(Opcode::Jumpi, 0, 100, 0, false, true)];
    let runtime = run_program(instructions);
    assert_eq!(runtime.state.next_pc, 100);
}

#[test]
fn test_jr() {
    let instructions = vec![
        Instruction::new(Opcode::ADD, 11, 11, 100, false, true),
        Instruction::new(Opcode::Jump, 0, 11, 0, false, true),
    ];
    let runtime = run_program(instructions);
    assert_eq!(runtime.state.next_pc, 100);
}

#[test]
fn test_jal() {
    let instructions = vec![Instruction::new(Opcode::Jumpi, 31, 100, 0, false, true)];
    let runtime = run_program(instructions);
    assert_eq!(runtime.state.next_pc, 100);
    assert_eq!(runtime.register(reg(31)), 8);
}

#[test]
fn test_jalr() {
    let instructions = vec![
        Instruction::new(Opcode::ADD, 11, 0, 100, false, true),
        Instruction::new(Opcode::Jump, 5, 11, 0, false, true),
    ];
    let runtime = run_program(instructions);
    assert_eq!(runtime.state.next_pc, 100);
    assert_eq!(runtime.register(reg(5)), 12);
}

fn simple_op_code_test(opcode: Opcode, expected: u32, a: u32, b: u32) {
    let instructions = vec![
        Instruction::new(Opcode::ADD, 10, 0, a, false, true),
        Instruction::new(Opcode::ADD, 11, 0, b, false, true),
        Instruction::new(opcode, 12, 10, 11, false, false),
    ];
    let runtime = run_program(instructions);
    assert_eq!(runtime.register(reg(12)), expected);
}

#[test]
#[allow(clippy::unreadable_literal)]
fn multiplication_tests() {
    simple_op_code_test(Opcode::MUL, 0x00001200, 0x00007e00, 0xb6db6db7);
    simple_op_code_test(Opcode::MUL, 0x00001240, 0x00007fc0, 0xb6db6db7);
    simple_op_code_test(Opcode::MUL, 0x00000000, 0x00000000, 0x00000000);
    simple_op_code_test(Opcode::MUL, 0x00000001, 0x00000001, 0x00000001);
    simple_op_code_test(Opcode::MUL, 0x00000015, 0x00000003, 0x00000007);
    simple_op_code_test(Opcode::MUL, 0x00000000, 0x00000000, 0xffff8000);
    simple_op_code_test(Opcode::MUL, 0x00000000, 0x80000000, 0x00000000);
    simple_op_code_test(Opcode::MUL, 0x00000000, 0x80000000, 0xffff8000);
    simple_op_code_test(Opcode::MUL, 0x0000ff7f, 0xaaaaaaab, 0x0002fe7d);
    simple_op_code_test(Opcode::MUL, 0x0000ff7f, 0x0002fe7d, 0xaaaaaaab);
    simple_op_code_test(Opcode::MUL, 0x00000000, 0xff000000, 0xff000000);
    simple_op_code_test(Opcode::MUL, 0x00000001, 0xffffffff, 0xffffffff);
    simple_op_code_test(Opcode::MUL, 0xffffffff, 0xffffffff, 0x00000001);
    simple_op_code_test(Opcode::MUL, 0xffffffff, 0x00000001, 0xffffffff);
}

#[test]
#[allow(clippy::unreadable_literal)]
fn shift_tests() {
    simple_op_code_test(Opcode::SLL, 0x00000001, 0x00000001, 0);
    simple_op_code_test(Opcode::SLL, 0x00000002, 0x00000001, 1);
    simple_op_code_test(Opcode::SLL, 0x00000080, 0x00000001, 7);
    simple_op_code_test(Opcode::SLL, 0x00004000, 0x00000001, 14);
    simple_op_code_test(Opcode::SLL, 0x80000000, 0x00000001, 31);
    simple_op_code_test(Opcode::SLL, 0xffffffff, 0xffffffff, 0);
    simple_op_code_test(Opcode::SLL, 0xfffffffe, 0xffffffff, 1);
    simple_op_code_test(Opcode::SLL, 0xffffff80, 0xffffffff, 7);
    simple_op_code_test(Opcode::SLL, 0xffffc000, 0xffffffff, 14);
    simple_op_code_test(Opcode::SLL, 0x80000000, 0xffffffff, 31);
    simple_op_code_test(Opcode::SLL, 0x21212121, 0x21212121, 0);
    simple_op_code_test(Opcode::SLL, 0x42424242, 0x21212121, 1);
    simple_op_code_test(Opcode::SLL, 0x90909080, 0x21212121, 7);
    simple_op_code_test(Opcode::SLL, 0x48484000, 0x21212121, 14);
    simple_op_code_test(Opcode::SLL, 0x80000000, 0x21212121, 31);
    simple_op_code_test(Opcode::SLL, 0x21212121, 0x21212121, 0xffffffe0);
    simple_op_code_test(Opcode::SLL, 0x42424242, 0x21212121, 0xffffffe1);
    simple_op_code_test(Opcode::SLL, 0x90909080, 0x21212121, 0xffffffe7);
    simple_op_code_test(Opcode::SLL, 0x48484000, 0x21212121, 0xffffffee);
    simple_op_code_test(Opcode::SLL, 0x00000000, 0x21212120, 0xffffffff);

    simple_op_code_test(Opcode::SRL, 0xffff8000, 0xffff8000, 0);
    simple_op_code_test(Opcode::SRL, 0x7fffc000, 0xffff8000, 1);
    simple_op_code_test(Opcode::SRL, 0x01ffff00, 0xffff8000, 7);
    simple_op_code_test(Opcode::SRL, 0x0003fffe, 0xffff8000, 14);
    simple_op_code_test(Opcode::SRL, 0x0001ffff, 0xffff8001, 15);
    simple_op_code_test(Opcode::SRL, 0xffffffff, 0xffffffff, 0);
    simple_op_code_test(Opcode::SRL, 0x7fffffff, 0xffffffff, 1);
    simple_op_code_test(Opcode::SRL, 0x01ffffff, 0xffffffff, 7);
    simple_op_code_test(Opcode::SRL, 0x0003ffff, 0xffffffff, 14);
    simple_op_code_test(Opcode::SRL, 0x00000001, 0xffffffff, 31);
    simple_op_code_test(Opcode::SRL, 0x21212121, 0x21212121, 0);
    simple_op_code_test(Opcode::SRL, 0x10909090, 0x21212121, 1);
    simple_op_code_test(Opcode::SRL, 0x00424242, 0x21212121, 7);
    simple_op_code_test(Opcode::SRL, 0x00008484, 0x21212121, 14);
    simple_op_code_test(Opcode::SRL, 0x00000000, 0x21212121, 31);
    simple_op_code_test(Opcode::SRL, 0x21212121, 0x21212121, 0xffffffe0);
    simple_op_code_test(Opcode::SRL, 0x10909090, 0x21212121, 0xffffffe1);
    simple_op_code_test(Opcode::SRL, 0x00424242, 0x21212121, 0xffffffe7);
    simple_op_code_test(Opcode::SRL, 0x00008484, 0x21212121, 0xffffffee);
    simple_op_code_test(Opcode::SRL, 0x00000000, 0x21212121, 0xffffffff);

    simple_op_code_test(Opcode::SRA, 0x00000000, 0x00000000, 0);
    simple_op_code_test(Opcode::SRA, 0xc0000000, 0x80000000, 1);
    simple_op_code_test(Opcode::SRA, 0xff000000, 0x80000000, 7);
    simple_op_code_test(Opcode::SRA, 0xfffe0000, 0x80000000, 14);
    simple_op_code_test(Opcode::SRA, 0xffffffff, 0x80000001, 31);
    simple_op_code_test(Opcode::SRA, 0x7fffffff, 0x7fffffff, 0);
    simple_op_code_test(Opcode::SRA, 0x3fffffff, 0x7fffffff, 1);
    simple_op_code_test(Opcode::SRA, 0x00ffffff, 0x7fffffff, 7);
    simple_op_code_test(Opcode::SRA, 0x0001ffff, 0x7fffffff, 14);
    simple_op_code_test(Opcode::SRA, 0x00000000, 0x7fffffff, 31);
    simple_op_code_test(Opcode::SRA, 0x81818181, 0x81818181, 0);
    simple_op_code_test(Opcode::SRA, 0xc0c0c0c0, 0x81818181, 1);
    simple_op_code_test(Opcode::SRA, 0xff030303, 0x81818181, 7);
    simple_op_code_test(Opcode::SRA, 0xfffe0606, 0x81818181, 14);
    simple_op_code_test(Opcode::SRA, 0xffffffff, 0x81818181, 31);
}

// ---------------------------------------------------------------------------------------------
// Further scenarios of the executor.
// ---------------------------------------------------------------------------------------------

#[test]
fn zero_register_ignores_writes() {
    let instructions = vec![
        Instruction::new(Opcode::ADD, 0, 0, 77, false, true),
        Instruction::new(Opcode::ADD, 31, 0, 1, false, true),
    ];
    let runtime = run_program(instructions);
    assert_eq!(runtime.register(Register::ZERO), 0);
    assert_eq!(runtime.register(Register::RA), 1);
}

#[test]
fn mult_writes_lo_and_hi() {
    let instructions = vec![
        Instruction::new(Opcode::ADD, 10, 0, 0xffff_ffff, false, true),
        Instruction::new(Opcode::ADD, 11, 0, 2, false, true),
        Instruction::new(Opcode::MULTU, 0, 10, 11, false, false),
    ];
    let runtime = run_program(instructions);
    assert_eq!(runtime.register(Register::LO), 0xffff_fffe);
    assert_eq!(runtime.register(Register::HI), 1);
}

#[test]
fn div_writes_quotient_and_remainder() {
    let instructions = vec![
        Instruction::new(Opcode::ADD, 10, 0, 0xffff_fff9, false, true),
        Instruction::new(Opcode::ADD, 11, 0, 2, false, true),
        Instruction::new(Opcode::DIV, 0, 10, 11, false, false),
    ];
    let runtime = run_program(instructions);
    assert_eq!(runtime.register(Register::LO), 0xffff_fffd);
    assert_eq!(runtime.register(Register::HI), 0xffff_ffff);
}

#[test]
fn division_by_zero_is_refused() {
    let instructions = vec![
        Instruction::new(Opcode::ADD, 10, 0, 7, false, true),
        Instruction::new(Opcode::DIVU, 0, 10, 11, false, false),
    ];
    let program = Program::new(instructions, 0, 0);
    let mut runtime = Executor::new(program, ZKMCoreOpts::default());
    assert_eq!(runtime.run(), Err(ExecutionError::Unimplemented()));
}

#[test]
fn trap_on_equal_operands_is_a_breakpoint() {
    let instructions = vec![Instruction::new(Opcode::TEQ, 0, 0, 0, false, true)];
    let program = Program::new(instructions, 0, 0);
    let mut runtime = Executor::new(program, ZKMCoreOpts::default());
    assert_eq!(runtime.run(), Err(ExecutionError::Breakpoint()));
}

#[test]
fn unimplemented_instruction_is_refused() {
    let instructions = vec![Instruction::new(Opcode::UNIMPL, 0, 0, 0xdead_beef, true, true)];
    let program = Program::new(instructions, 0, 0);
    let mut runtime = Executor::new(program, ZKMCoreOpts::default());
    assert_eq!(runtime.run(), Err(ExecutionError::UnsupportedInstruction(0xdead_beef)));
}

#[test]
fn unsupported_syscall_is_refused() {
    let instructions = vec![
        Instruction::new(Opcode::ADD, 2, 0, 0x99, false, true),
        Instruction::new(Opcode::SYSCALL, 2, 4, 5, false, false),
    ];
    let program = Program::new(instructions, 0, 0);
    let mut runtime = Executor::new(program, ZKMCoreOpts::default());
    assert_eq!(runtime.run(), Err(ExecutionError::UnsupportedSyscall(0x99)));
}

#[test]
fn halt_with_nonzero_exit_code_fails() {
    let instructions = vec![
        Instruction::new(Opcode::ADD, 4, 0, 9, false, true),
        Instruction::new(Opcode::SYSCALL, 2, 4, 5, false, false),
    ];
    let program = Program::new(instructions, 4, 4);
    let mut runtime = Executor::new(program, ZKMCoreOpts::default());
    assert_eq!(runtime.run(), Err(ExecutionError::HaltWithNonZeroExitCode(9)));
}

#[test]
fn halt_with_zero_exit_code_stops() {
    let instructions = vec![
        Instruction::new(Opcode::SYSCALL, 2, 4, 5, false, false),
        Instruction::new(Opcode::ADD, 31, 0, 1, false, true),
    ];
    let program = Program::new(instructions, 4, 4);
    let mut runtime = Executor::new(program, ZKMCoreOpts::default());
    runtime.run().unwrap();
    assert!(runtime.state.exited);
    assert_eq!(runtime.state.pc, 0);
    assert_eq!(runtime.register(Register::RA), 0);
}

#[test]
fn cycle_limit_is_enforced() {
    let instructions = vec![
        Instruction::new(Opcode::ADD, 8, 0, 1, false, true),
        Instruction::new(Opcode::ADD, 8, 8, 1, false, true),
        Instruction::new(Opcode::ADD, 8, 8, 1, false, true),
    ];
    let program = Program::new(instructions, 0, 0);
    let mut runtime = Executor::new(program, ZKMCoreOpts::default());
    runtime.max_cycles = Some(2);
    assert_eq!(runtime.run(), Err(ExecutionError::ExceededCycleLimit(2)));
}

#[test]
fn write_syscall_records_output() {
    // Store "hi" at address 0x100, then write two bytes from it to descriptor 1.
    let instructions = vec![
        Instruction::new(Opcode::ADD, 8, 0, 0x6968, false, true),
        Instruction::new(Opcode::ADD, 9, 0, 0x100, false, true),
        Instruction::new(Opcode::SW, 8, 9, 0, false, true),
        Instruction::new(Opcode::ADD, 2, 0, 0xfa4, false, true),
        Instruction::new(Opcode::ADD, 4, 0, 1, false, true),
        Instruction::new(Opcode::ADD, 5, 0, 0x100, false, true),
        Instruction::new(Opcode::ADD, 6, 0, 2, false, true),
        Instruction::new(Opcode::SYSCALL, 2, 4, 5, false, false),
    ];
    let runtime = run_program(instructions);
    assert_eq!(runtime.state.output.len(), 1);
    assert_eq!(runtime.state.output[0].fd, 1);
    assert_eq!(runtime.state.output[0].bytes, vec![0x68, 0x69]);
    assert_eq!(runtime.register(Register::V0), 2);
    assert_eq!(runtime.register(Register::A3), 0);
}

#[test]
fn load_store_round_trip() {
    let instructions = vec![
        Instruction::new(Opcode::ADD, 8, 0, 0x1234_8765, false, true),
        Instruction::new(Opcode::ADD, 9, 0, 0x200, false, true),
        Instruction::new(Opcode::SW, 8, 9, 0, false, true),
        Instruction::new(Opcode::LW, 28, 9, 0, false, true),
        Instruction::new(Opcode::LBU, 27, 9, 0, false, true),
        Instruction::new(Opcode::LB, 22, 9, 1, false, true),
        Instruction::new(Opcode::LHU, 21, 9, 0, false, true),
        Instruction::new(Opcode::LH, 19, 9, 0, false, true),
    ];
    let runtime = run_program(instructions);
    assert_eq!(runtime.register(reg(28)), 0x1234_8765);
    assert_eq!(runtime.register(reg(27)), 0x65);
    assert_eq!(runtime.register(reg(22)), 0xffff_ff87);
    assert_eq!(runtime.register(reg(21)), 0x8765);
    assert_eq!(runtime.register(reg(19)), 0xffff_8765);
    assert_eq!(runtime.word(0x200), 0x1234_8765);
    assert_eq!(runtime.byte(0x202), 0x34);
}

#[test]
fn shards_close_at_the_shard_size() {
    let instructions = vec![
        Instruction::new(Opcode::ADD, 8, 0, 1, false, true),
        Instruction::new(Opcode::ADD, 8, 8, 1, false, true),
        Instruction::new(Opcode::ADD, 8, 8, 1, false, true),
    ];
    let program = Program::new(instructions, 0, 0);
    let opts = ZKMCoreOpts { shard_size: 2, shard_batch_size: 0 };
    let mut runtime = Executor::new(program, opts);
    assert_eq!(runtime.shard_size, 8);
    runtime.run_fast().unwrap();
    assert_eq!(runtime.executor_mode, ExecutorMode::Simple);
    assert_eq!(runtime.state.global_clk, 3);
    // The shard closes after every second cycle: clock 10 reaches the size 8.
    assert_eq!(runtime.shard(), 2);
    assert_eq!(runtime.state.clk, 5);
    assert_eq!(runtime.register(reg(8)), 3);
}

#[test]
fn execute_stops_after_a_batch_of_shards() {
    let instructions = vec![
        Instruction::new(Opcode::ADD, 8, 0, 1, false, true),
        Instruction::new(Opcode::ADD, 8, 8, 1, false, true),
        Instruction::new(Opcode::ADD, 8, 8, 1, false, true),
        Instruction::new(Opcode::ADD, 8, 8, 1, false, true),
    ];
    let program = Program::new(instructions, 0, 0);
    let opts = ZKMCoreOpts { shard_size: 1, shard_batch_size: 1 };
    let mut runtime = Executor::new(program, opts);
    assert_eq!(runtime.execute(), Ok(false));
    assert_eq!(runtime.state.global_clk, 1);
    assert_eq!(runtime.shard(), 2);
    runtime.run_very_fast().unwrap();
    assert_eq!(runtime.register(reg(8)), 4);
}

#[test]
fn memory_image_is_loaded_on_the_first_cycle() {
    let instructions = vec![Instruction::new(Opcode::LW, 8, 0, 0x400, false, true)];
    let mut program = Program::new(instructions, 0, 0);
    program.image.insert(0x400, 0xabcd);
    let mut runtime = Executor::new(program, ZKMCoreOpts::default());
    assert_eq!(runtime.word(0x400), 0);
    runtime.run().unwrap();
    assert_eq!(runtime.register(reg(8)), 0xabcd);
}

#[test]
fn recover_keeps_the_state() {
    let instructions = vec![Instruction::new(Opcode::ADD, 8, 8, 1, false, true)];
    let program = Program::new(instructions.clone(), 0, 0);
    let mut first = Executor::new(program, ZKMCoreOpts::default());
    first.run().unwrap();
    let program = Program::new(instructions, 0, 0);
    let again = Executor::recover(program, first.state, ZKMCoreOpts::default());
    assert_eq!(again.register(reg(8)), 1);
    assert_eq!(again.state.global_clk, 1);
}

#[test]
fn align_rounds_down_to_a_word() {
    assert_eq!(zkm_core::executor::align(0x1003), 0x1000);
    assert_eq!(zkm_core::executor::align(0x1004), 0x1004);
}
