use zkm_core::events::{AluEvent, BranchEvent, MemoryInitializeFinalizeEvent, MemoryLocalEvent, MemoryRecord, MemoryRecordEnum};
use zkm_core::executor::{Executor, ExecutorMode, ZKMCoreOpts};
use zkm_core::instruction::Instruction;
use zkm_core::opcode::Opcode;
use zkm_core::program::Program;
use zkm_core::record::{global_memory_events, ExecutionRecord};
use zkm_core::register::Register;

fn traced(instructions: Vec<Instruction>, pc_start: u32, pc_base: u32) -> Executor {
    let program = Program::new(instructions, pc_start, pc_base);
    assert!(program.traceable());
    let mut runtime = Executor::new(program, ZKMCoreOpts::default());
    runtime.run().unwrap();
    runtime
}

/// The record of a run that stayed in one shard: the run closes it when the program ends.
fn only_record(runtime: &Executor) -> &ExecutionRecord {
    assert_eq!(runtime.records.len(), 1);
    assert!(runtime.record.cpu_events.is_empty());
    &runtime.records[0]
}

fn aux(opcode: Opcode, a: u32, b: u32, c: u32) -> AluEvent {
    AluEvent { pc: 1, next_pc: 5, opcode, hi: 0, a, b, c }
}

#[test]
fn tracing_records_one_cpu_event_per_cycle() {
    let runtime = traced(
        vec![
            Instruction::new(Opcode::ADD, 29, 0, 5, false, true),
            Instruction::new(Opcode::ADD, 30, 0, 37, false, true),
            Instruction::new(Opcode::ADD, 31, 30, 29, false, false),
        ],
        0,
        0,
    );
    let cpu = &only_record(&runtime).cpu_events;
    assert_eq!(cpu.len(), 3);
    assert_eq!((cpu[0].clk, cpu[0].pc, cpu[0].next_pc, cpu[0].next_next_pc), (0, 0, 4, 8));
    assert_eq!((cpu[0].a, cpu[0].b, cpu[0].c, cpu[0].hi, cpu[0].exit_code), (5, 0, 5, None, 0));
    assert_eq!((cpu[1].clk, cpu[1].pc), (5, 4));
    assert_eq!((cpu[2].clk, cpu[2].a, cpu[2].b, cpu[2].c), (10, 42, 37, 5));
    assert!(cpu[2].a_record.is_some() && cpu[2].b_record.is_some() && cpu[2].c_record.is_some());
    assert!(cpu[2].memory_record.is_none() && cpu[2].hi_record.is_none());
    let r = &only_record(&runtime).instrs_record;
    assert_eq!(
        r.add_sub_events,
        vec![
            AluEvent { pc: 0, next_pc: 4, opcode: Opcode::ADD, hi: 0, a: 5, b: 0, c: 5 },
            AluEvent { pc: 4, next_pc: 8, opcode: Opcode::ADD, hi: 0, a: 37, b: 0, c: 37 },
            AluEvent { pc: 8, next_pc: 12, opcode: Opcode::ADD, hi: 0, a: 42, b: 37, c: 5 },
        ]
    );
    assert!(r.mul_events.is_empty() && r.lt_events.is_empty() && r.bitwise_events.is_empty());
    assert!(r.memory_instr_events.is_empty() && r.branch_events.is_empty() && r.syscall_events.is_empty());
}

#[test]
fn running_without_tracing_records_nothing() {
    let program = Program::new(vec![Instruction::new(Opcode::ADD, 29, 0, 5, false, true)], 0, 0);
    let mut runtime = Executor::new(program, ZKMCoreOpts::default());
    runtime.run_fast().unwrap();
    assert_eq!(runtime.executor_mode, ExecutorMode::Simple);
    assert!(runtime.records.iter().all(|r| r.cpu_events.is_empty() && r.instrs_record.add_sub_events.is_empty()));
    assert!(runtime.record.cpu_events.is_empty());
    assert_eq!(runtime.register(Register::SP), 5);
}

#[test]
fn traced_division_records_its_dependencies() {
    let runtime = traced(
        vec![
            Instruction::new(Opcode::ADD, 10, 0, 37, false, true),
            Instruction::new(Opcode::ADD, 11, 0, 5, false, true),
            Instruction::new(Opcode::DIVU, 0, 10, 11, false, false),
        ],
        0,
        0,
    );
    let r = &only_record(&runtime).instrs_record;
    assert_eq!(r.divrem_events.len(), 1);
    let d = r.divrem_events[0];
    assert_eq!((d.opcode, d.a, d.hi, d.b, d.c, d.pc, d.clk), (Opcode::DIVU, 7, 2, 37, 5, 8, 10));
    assert!(d.hi_record_is_real);
    assert_eq!((d.hi_record.value, d.hi_record.prev_value), (2, 0));
    assert_eq!(r.mul_events.len(), 1);
    let m = r.mul_events[0];
    assert_eq!((m.opcode, m.a, m.b, m.c, m.hi, m.pc), (Opcode::MULTU, 35, 7, 5, 0, 1));
    assert_eq!(r.lt_events, vec![aux(Opcode::SLTU, 1, 2, 5)]);
    assert_eq!(r.add_sub_events.len(), 2);
    assert_eq!(only_record(&runtime).cpu_events[2].hi, Some(2));
}

#[test]
fn traced_count_of_leading_zeros_records_its_shift() {
    let runtime = traced(
        vec![
            Instruction::new(Opcode::ADD, 10, 0, 0x0000_ff00, false, true),
            Instruction::new(Opcode::CLZ, 12, 10, 0, false, true),
        ],
        0,
        0,
    );
    let r = &only_record(&runtime).instrs_record;
    assert_eq!(r.cloclz_events, vec![AluEvent { pc: 4, next_pc: 8, opcode: Opcode::CLZ, hi: 0, a: 16, b: 0xff00, c: 0 }]);
    assert_eq!(r.shift_right_events.len(), 1);
    assert_eq!(runtime.register(Register::from_u8(12).unwrap()), 16);
}

#[test]
fn traced_store_and_load_record_memory_events() {
    let runtime = traced(
        vec![
            Instruction::new(Opcode::ADD, 8, 0, 0x1234_8765, false, true),
            Instruction::new(Opcode::ADD, 9, 0, 0x200, false, true),
            Instruction::new(Opcode::SW, 8, 9, 0, false, true),
            Instruction::new(Opcode::LW, 28, 9, 0, false, true),
        ],
        0,
        0,
    );
    let r = &only_record(&runtime).instrs_record;
    assert_eq!(r.memory_instr_events.len(), 2);
    let sw = r.memory_instr_events[0];
    assert_eq!((sw.opcode, sw.a, sw.b, sw.c, sw.pc, sw.clk, sw.prev_a_val), (Opcode::SW, 0x1234_8765, 0x200, 0, 8, 10, 0x1234_8765));
    match sw.mem_access {
        MemoryRecordEnum::Write(w) => assert_eq!((w.value, w.prev_value), (0x1234_8765, 0)),
        MemoryRecordEnum::Read(_) => panic!("a store writes memory"),
    }
    let lw = r.memory_instr_events[1];
    assert_eq!((lw.opcode, lw.a, lw.prev_a_val), (Opcode::LW, 0x1234_8765, 0));
    match lw.mem_access {
        MemoryRecordEnum::Read(rd) => assert_eq!(rd.value, 0x1234_8765),
        MemoryRecordEnum::Write(_) => panic!("a load reads memory"),
    }
    assert_eq!(r.add_sub_events.len(), 4);
    assert_eq!(r.add_sub_events[2], aux(Opcode::ADD, 0x200, 0x200, 0));
    assert_eq!(r.add_sub_events[3], aux(Opcode::ADD, 0x200, 0x200, 0));
}

#[test]
fn traced_branch_records_its_target() {
    let runtime = traced(
        vec![
            Instruction::new(Opcode::ADD, 29, 0, 1, false, true),
            Instruction::new(Opcode::ADD, 30, 0, 1, false, true),
            Instruction::new(Opcode::BEQ, 29, 30, 100, false, false),
        ],
        0,
        0,
    );
    let r = &only_record(&runtime).instrs_record;
    assert_eq!(
        r.branch_events,
        vec![BranchEvent { pc: 8, next_pc: 12, next_next_pc: 112, opcode: Opcode::BEQ, a: 1, b: 1, c: 100 }]
    );
    assert_eq!(r.add_sub_events[2], aux(Opcode::ADD, 112, 12, 100));
    assert_eq!(r.lt_events, vec![aux(Opcode::SLT, 0, 1, 1), aux(Opcode::SLT, 0, 1, 1)]);
}

#[test]
fn traced_syscall_records_its_number_and_result() {
    let runtime = traced(
        vec![
            Instruction::new(Opcode::SYSCALL, 2, 4, 5, false, false),
            Instruction::new(Opcode::ADD, 31, 0, 1, false, true),
        ],
        4,
        4,
    );
    let r = &only_record(&runtime).instrs_record;
    assert_eq!(r.syscall_events.len(), 1);
    let e = r.syscall_events[0];
    assert_eq!((e.pc, e.next_pc, e.syscall_id, e.arg1, e.arg2, e.clk, e.shard), (4, 0, 0, 0, 0, 0, 1));
    assert!(e.a_record_is_real);
    assert_eq!(only_record(&runtime).cpu_events.len(), 1);
    assert_eq!(only_record(&runtime).cpu_events[0].hi, Some(0));
}

#[test]
fn an_ins_field_past_the_word_is_not_traceable() {
    let program = Program::new(vec![Instruction::new(Opcode::INS, 8, 9, (40 << 5) | 31, false, true)], 0, 0);
    assert!(!program.traceable());
    let decoded = Program::new(vec![Instruction::new(Opcode::INS, 8, 9, (7 << 5) | 4, false, true)], 0, 0);
    assert!(decoded.traceable());
}

#[test]
fn traced_insert_records_its_shifts() {
    let runtime = traced(
        vec![
            Instruction::new(Opcode::ADD, 8, 0, 0xffff_ffff, false, true),
            Instruction::new(Opcode::ADD, 9, 0, 5, false, true),
            Instruction::new(Opcode::INS, 8, 9, (7 << 5) | 4, false, true),
        ],
        0,
        0,
    );
    assert_eq!(runtime.register(Register::T0), 0xffff_ff5f);
    let r = &only_record(&runtime).instrs_record;
    assert_eq!(r.misc_events.len(), 1);
    let e = r.misc_events[0];
    assert_eq!((e.opcode, e.a, e.b, e.c, e.prev_a, e.pc), (Opcode::INS, 0xffff_ff5f, 5, (7 << 5) | 4, 0xffff_ffff, 8));
    assert_eq!(r.shift_right_events.len(), 3);
    assert_eq!(r.shift_left_events.len(), 1);
    assert_eq!(r.add_sub_events.len(), 3);
    assert_eq!(r.shift_right_events[2].a, 0xffff_ff5f);
}

#[test]
fn execute_record_hands_over_one_record_per_shard() {
    let program = Program::new(
        vec![
            Instruction::new(Opcode::ADD, 8, 0, 1, false, true),
            Instruction::new(Opcode::ADD, 8, 8, 1, false, true),
            Instruction::new(Opcode::ADD, 8, 8, 1, false, true),
        ],
        0,
        0,
    );
    let opts = ZKMCoreOpts { shard_size: 1, shard_batch_size: 0 };
    let mut runtime = Executor::new(program, opts);
    runtime.executor_mode = ExecutorMode::Simple;
    let (records, done) = runtime.execute_record(true).unwrap();
    assert!(done);
    assert_eq!(runtime.executor_mode, ExecutorMode::Trace);
    assert!(runtime.records.is_empty());
    // Every cycle fills its shard; the end of the program closes one more, empty record.
    assert_eq!(records.len(), 4);
    for (i, r) in records.iter().take(3).enumerate() {
        assert_eq!(r.cpu_events.len(), 1);
        assert_eq!(r.cpu_events[0].pc, 4 * i as u32);
        assert_eq!(r.instrs_record.add_sub_events[0].a, i as u32 + 1);
    }
    assert!(records[3].cpu_events.is_empty() && records[3].instrs_record.add_sub_events.is_empty());
    // The end of the program also records the global memory events: addresses 0 and 8.
    let fin: Vec<u32> = records[3].global_memory_finalize_events.iter().map(|e| e.addr).collect();
    assert_eq!(fin, vec![0, 8]);
    assert_eq!(records[3].global_memory_finalize_events[1].value, 3);
}

#[test]
fn bump_record_closes_the_current_record() {
    let program = Program::new(vec![Instruction::new(Opcode::ADD, 8, 0, 1, false, true)], 0, 0);
    let mut runtime = Executor::new(program, ZKMCoreOpts::default());
    runtime.bump_record();
    runtime.bump_record();
    assert_eq!(runtime.records.len(), 2);
    assert!(runtime.record.cpu_events.is_empty());
}

#[test]
fn the_end_of_a_traced_run_records_the_global_memory_events() {
    let runtime = traced(
        vec![
            Instruction::new(Opcode::ADD, 29, 0, 5, false, true),
            Instruction::new(Opcode::ADD, 30, 0, 37, false, true),
            Instruction::new(Opcode::ADD, 31, 30, 29, false, false),
        ],
        0,
        0,
    );
    let last = only_record(&runtime);
    let fin: Vec<u32> = last.global_memory_finalize_events.iter().map(|e| e.addr).collect();
    assert_eq!(fin, vec![0, 29, 30, 31]);
    assert_eq!(last.global_memory_finalize_events[3].value, 42);
    assert_eq!(last.global_memory_finalize_events[3].used, 1);
    let init: Vec<u32> = last.global_memory_initialize_events.iter().map(|e| e.addr).collect();
    assert_eq!(init, vec![0, 29, 30, 31]);
    assert_eq!(
        last.global_memory_initialize_events[1],
        MemoryInitializeFinalizeEvent { addr: 29, value: 0, shard: 1, timestamp: 1, used: 1 }
    );
}

#[test]
fn global_memory_events_skip_the_image_and_default_address_zero() {
    let mut memory = std::collections::BTreeMap::new();
    memory.insert(8u32, MemoryRecord { value: 3, shard: 1, timestamp: 9 });
    memory.insert(0x100u32, MemoryRecord { value: 7, shard: 2, timestamp: 4 });
    let mut image = std::collections::BTreeMap::new();
    image.insert(0x100u32, 7u32);
    let mut uninitialized = std::collections::BTreeMap::new();
    uninitialized.insert(8u32, 11u32);
    let (init, fin) = global_memory_events(&memory, &image, &uninitialized);
    assert_eq!(
        init,
        vec![
            MemoryInitializeFinalizeEvent { addr: 0, value: 0, shard: 1, timestamp: 1, used: 0 },
            MemoryInitializeFinalizeEvent { addr: 8, value: 11, shard: 1, timestamp: 1, used: 1 },
        ]
    );
    assert_eq!(
        fin,
        vec![
            MemoryInitializeFinalizeEvent { addr: 0, value: 0, shard: 0, timestamp: 1, used: 1 },
            MemoryInitializeFinalizeEvent { addr: 8, value: 3, shard: 1, timestamp: 9, used: 1 },
            MemoryInitializeFinalizeEvent { addr: 0x100, value: 7, shard: 2, timestamp: 4, used: 1 },
        ]
    );
}

#[test]
fn traced_records_hold_the_local_memory_events() {
    let runtime = traced(
        vec![
            Instruction::new(Opcode::ADD, 29, 0, 5, false, true),
            Instruction::new(Opcode::ADD, 30, 0, 37, false, true),
            Instruction::new(Opcode::ADD, 31, 30, 29, false, false),
        ],
        0,
        0,
    );
    let local = &only_record(&runtime).cpu_local_memory_access;
    let fresh = MemoryRecord { value: 0, shard: 0, timestamp: 0 };
    assert_eq!(
        local,
        &vec![
            MemoryLocalEvent { addr: 0, initial_mem_access: fresh, final_mem_access: MemoryRecord { value: 0, shard: 1, timestamp: 7 } },
            MemoryLocalEvent { addr: 29, initial_mem_access: fresh, final_mem_access: MemoryRecord { value: 5, shard: 1, timestamp: 11 } },
            MemoryLocalEvent { addr: 30, initial_mem_access: fresh, final_mem_access: MemoryRecord { value: 37, shard: 1, timestamp: 12 } },
            MemoryLocalEvent { addr: 31, initial_mem_access: fresh, final_mem_access: MemoryRecord { value: 42, shard: 1, timestamp: 13 } },
        ]
    );
    assert!(runtime.local_memory_access.is_empty());
}

#[test]
fn each_shard_record_holds_its_own_local_events() {
    let program = Program::new(
        vec![
            Instruction::new(Opcode::ADD, 8, 0, 1, false, true),
            Instruction::new(Opcode::ADD, 8, 8, 1, false, true),
        ],
        0,
        0,
    );
    let opts = ZKMCoreOpts { shard_size: 1, shard_batch_size: 0 };
    let mut runtime = Executor::new(program, opts);
    let (records, _) = runtime.execute_record(false).unwrap();
    // The second shard's event for register 8 starts from the record the first shard left.
    let second: Vec<&MemoryLocalEvent> = records[1].cpu_local_memory_access.iter().filter(|e| e.addr == 8).collect();
    assert_eq!(second.len(), 1);
    assert_eq!(second[0].initial_mem_access, MemoryRecord { value: 1, shard: 1, timestamp: 3 });
    assert_eq!(second[0].final_mem_access, MemoryRecord { value: 2, shard: 2, timestamp: 3 });
}

#[test]
fn direct_accesses_are_noted_while_tracing() {
    let program = Program::new(vec![Instruction::new(Opcode::ADD, 8, 0, 1, false, true)], 0, 0);
    let mut runtime = Executor::new(program, ZKMCoreOpts::default());
    runtime.mw(0x100, 9, 1, 4);
    runtime.mr(0x100, 1, 8);
    let e = runtime.local_memory_access.get(&0x100).unwrap();
    assert_eq!(e.initial_mem_access, MemoryRecord { value: 0, shard: 0, timestamp: 0 });
    assert_eq!(e.final_mem_access, MemoryRecord { value: 9, shard: 1, timestamp: 8 });
    runtime.bump_record();
    assert!(runtime.local_memory_access.is_empty());
    assert_eq!(runtime.records[0].cpu_local_memory_access.len(), 1);
    runtime.executor_mode = ExecutorMode::Simple;
    runtime.mr(0x100, 1, 12);
    assert!(runtime.local_memory_access.is_empty());
}
