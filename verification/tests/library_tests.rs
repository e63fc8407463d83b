use std::collections::BTreeMap;

use zkm_core::alu::alu_op;
use zkm_core::alu_chips::{AddSubChip, CloClzChip, WsbhChip};
use zkm_core::dependencies::{
    emit_branch_dependencies, emit_cloclz_dependencies, emit_divrem_dependencies,
    emit_jump_dependencies, emit_memory_dependencies, emit_misc_dependencies, rotate_right,
    InstrsRecord, UNUSED_PC,
};
use zkm_core::events::{
    AluEvent, BranchEvent, CompAluEvent, CpuEvent, CpuEventFfi, JumpEvent, KeccakSpongeEvent,
    MemInstrEvent, MemoryAccessPosition, MemoryReadRecord, MemoryRecord, MemoryRecordEnum,
    MemoryWriteRecord, MiscEvent, MovCondEvent, OptionMemoryRecordEnum, OptionMemoryRecordEnumTag,
    OptionU32, OptionValTag,
};
use zkm_core::instruction::Instruction;
use zkm_core::linearmemory::{Memory, Registers, WordMemory};
use zkm_core::memops::{load_value, store_value};
use zkm_core::memory_local::{nb_rows, MemoryLocalChip};
use zkm_core::misc::{ext, ins, madd, maddu, msub, msubu, sext, wsbh};
use zkm_core::misc_chips::SextCols;
use zkm_core::opcode::Opcode;
use zkm_core::program::{patch_stack, Program, INIT_SP};
use zkm_core::register::Register;
use zkm_core::stark_testing::FibonacciRow;
use zkm_core::syscall_code::SyscallCode;
use zkm_core::utils::{get_msb, get_quotient_and_remainder, is_signed_operation, sign_extend};

// ---------------------------------------------------------------------------------------------
// Decoding.
// ---------------------------------------------------------------------------------------------

#[test]
fn decode_register_and_immediate_forms() {
    // addu $3, $1, $2
    assert_eq!(
        Instruction::decode_from(0x0022_1821).unwrap(),
        Instruction::new(Opcode::ADD, 3, 1, 2, false, false)
    );
    // lw $8, -4($29)
    assert_eq!(
        Instruction::decode_from(0x8FA8_FFFC).unwrap(),
        Instruction::new(Opcode::LW, 8, 29, 0xffff_fffc, false, true)
    );
    // beq $1, $2, +3 instructions
    assert_eq!(
        Instruction::decode_from(0x1022_0003).unwrap(),
        Instruction::new(Opcode::BEQ, 1, 2, 12, false, true)
    );
    // j 0x100
    assert_eq!(
        Instruction::decode_from(0x0800_0040).unwrap(),
        Instruction::new(Opcode::Jumpi, 0, 0x100, 0, true, true)
    );
    // jal with the most negative... all-ones target
    assert_eq!(
        Instruction::decode_from(0x0FFF_FFFF).unwrap(),
        Instruction::new(Opcode::Jumpi, 31, 0xffff_fffc, 0, true, true)
    );
    // syscall
    assert_eq!(
        Instruction::decode_from(0x0000_000C).unwrap(),
        Instruction::new(Opcode::SYSCALL, 2, 4, 5, false, false)
    );
    // div $1, $2 writes LO and HI
    assert_eq!(
        Instruction::decode_from(0x0022_001A).unwrap(),
        Instruction::new(Opcode::DIV, 32, 1, 2, false, false)
    );
}

#[test]
fn decode_unknown_word_keeps_it() {
    let word = 0xFC00_0000;
    let decoded = Instruction::decode_from(word).unwrap();
    assert_eq!(decoded, Instruction::new_with_raw(Opcode::UNIMPL, 0, 0, word, true, true, word));
}

#[test]
fn instruction_classification() {
    let add = Instruction::new(Opcode::ADD, 1, 2, 3, false, false);
    assert!(add.is_alu_instruction());
    assert!(!add.is_memory_instruction());
    let lw = Instruction::new(Opcode::LW, 1, 2, 3, false, true);
    assert!(lw.is_memory_load_instruction());
    assert!(lw.is_memory_instruction());
    assert!(!lw.is_memory_store_instruction());
    let sc = Instruction::new(Opcode::SC, 1, 2, 3, false, true);
    assert!(sc.is_memory_store_instruction());
    assert!(!sc.is_memory_store_instruction_except_sc());
    let beq = Instruction::new(Opcode::BEQ, 1, 2, 3, false, true);
    assert!(beq.is_branch_instruction());
    let jump = Instruction::new(Opcode::Jumpi, 31, 0x100, 0, true, true);
    assert!(jump.is_jump_instruction());
    let meq = Instruction::new(Opcode::MEQ, 1, 2, 3, false, false);
    assert!(meq.is_mov_cond_instruction());
    assert!(meq.is_misc_instruction());
    let syscall = Instruction::new(Opcode::SYSCALL, 2, 4, 5, false, false);
    assert!(syscall.is_syscall_instruction());
    assert!(syscall.is_check_memory_instruction());
    let clz = Instruction::new(Opcode::CLZ, 1, 2, 0, false, true);
    assert!(clz.is_cloclz_instruction());
    let maddu_ins = Instruction::new(Opcode::MADDU, 32, 2, 3, false, false);
    assert!(maddu_ins.is_maddsubu_instruction());
    let mult = Instruction::new(Opcode::MULT, 32, 2, 3, false, false);
    assert!(mult.is_mult_div_instruction());
}

// ---------------------------------------------------------------------------------------------
// Arithmetic and memory operations.
// ---------------------------------------------------------------------------------------------

#[test]
fn alu_operations() {
    assert_eq!(alu_op(Opcode::ADD, 0xffff_ffff, 2), (1, 0));
    assert_eq!(alu_op(Opcode::SUB, 0, 1), (0xffff_ffff, 0));
    assert_eq!(alu_op(Opcode::SRA, 0x8000_0000, 4), (0xf800_0000, 0));
    assert_eq!(alu_op(Opcode::ROR, 0x0000_0001, 1), (0x8000_0000, 0));
    assert_eq!(alu_op(Opcode::SLT, 0xffff_ffff, 0), (1, 0));
    assert_eq!(alu_op(Opcode::SLTU, 0xffff_ffff, 0), (0, 0));
    assert_eq!(alu_op(Opcode::MULT, 0xffff_ffff, 0xffff_ffff), (1, 0));
    assert_eq!(alu_op(Opcode::MULT, 0xffff_ffff, 2), (0xffff_fffe, 0xffff_ffff));
    assert_eq!(alu_op(Opcode::MULTU, 0xffff_ffff, 0xffff_ffff), (1, 0xffff_fffe));
    assert_eq!(alu_op(Opcode::DIVU, 7, 2), (3, 1));
    assert_eq!(alu_op(Opcode::MOD, 0xffff_fff9, 2), (0xffff_ffff, 0));
    assert_eq!(alu_op(Opcode::MODU, 7, 3), (1, 0));
    assert_eq!(alu_op(Opcode::NOR, 0x0f0f_0f0f, 0xf0f0_0000), (0x0000_f0f0, 0));
    assert_eq!(alu_op(Opcode::CLZ, 0x0001_0000, 0), (15, 0));
    assert_eq!(alu_op(Opcode::CLO, 0xff00_0000, 0), (8, 0));
}

#[test]
fn loads_pick_bytes_and_halves() {
    let mem = 0x1234_8765;
    assert_eq!(load_value(Opcode::LBU, mem, 0, 0x101), 0x87);
    assert_eq!(load_value(Opcode::LB, mem, 0, 0x101), 0xffff_ff87);
    assert_eq!(load_value(Opcode::LHU, mem, 0, 0x102), 0x1234);
    assert_eq!(load_value(Opcode::LH, mem, 0, 0x100), 0xffff_8765);
    assert_eq!(load_value(Opcode::LW, mem, 0, 0x100), mem);
    assert_eq!(load_value(Opcode::LL, mem, 0, 0x100), mem);
}

#[test]
fn stores_replace_bytes_and_halves() {
    let mem = 0x1234_8765;
    assert_eq!(store_value(Opcode::SB, mem, 0x25, 0x100), 0x1234_8725);
    assert_eq!(store_value(Opcode::SB, mem, 0x25, 0x103), 0x2534_8765);
    assert_eq!(store_value(Opcode::SH, mem, 0x6525, 0x102), 0x6525_8765);
    assert_eq!(store_value(Opcode::SW, mem, 0xdead_beef, 0x100), 0xdead_beef);
    // A stored byte is the byte loaded back.
    let stored = store_value(Opcode::SB, mem, 0xab, 0x102);
    assert_eq!(load_value(Opcode::LBU, stored, 0, 0x102), 0xab);
    assert_eq!(load_value(Opcode::LBU, stored, 0, 0x101), 0x87);
}

#[test]
fn misc_operations() {
    assert_eq!(sext(0x0000_0080, 0), 0xffff_ff80);
    assert_eq!(sext(0x0000_8000, 1), 0xffff_8000);
    assert_eq!(sext(0x0000_7f7f, 1), 0x0000_7f7f);
    assert_eq!(wsbh(0x1122_3344), 0x2211_4433);
    // ext: 4 bits from bit 8 (msbd = 3, lsb = 8)
    assert_eq!(ext(0x0000_0f00, (3 << 5) | 8), 0xf);
    // ins: bits 4..=7 of prev replaced by the low bits of b
    assert_eq!(ins(0xffff_ffff, 0, (7 << 5) | 4), 0xffff_ff0f);
    assert_eq!(maddu(0xffff_ffff, 2, 0, 1), (0xffff_ffff, 1));
    assert_eq!(msubu(2, 3, 0, 10), (4, 0));
    assert_eq!(madd(0xffff_ffff, 1, 0, 1), (0, 0));
    assert_eq!(msub(0xffff_ffff, 1, 0, 0), (1, 0));
}

#[test]
fn word_utilities() {
    assert_eq!(sign_extend(0x80, 8), 0xffff_ff80);
    assert_eq!(sign_extend(0x7fff, 16), 0x7fff);
    assert_eq!(sign_extend(0x200_0000, 26), 0xfe00_0000);
    assert_eq!(get_msb(0x8000_0000), 1);
    assert_eq!(get_msb(0x7fff_ffff), 0);
    assert!(is_signed_operation(Opcode::DIV));
    assert!(!is_signed_operation(Opcode::DIVU));
    assert_eq!(get_quotient_and_remainder(7, 0, Opcode::DIVU), (u32::MAX, 7));
    assert_eq!(get_quotient_and_remainder(0xffff_fff9, 2, Opcode::DIV), (0xffff_fffd, 0xffff_ffff));
    assert_eq!(rotate_right(0x0000_0003, 1), 0x8000_0001);
}

// ---------------------------------------------------------------------------------------------
// System call numbers.
// ---------------------------------------------------------------------------------------------

#[test]
fn syscall_codes_round_trip() {
    for code in [SyscallCode::HALT, SyscallCode::WRITE, SyscallCode::SHA_EXTEND, SyscallCode::SYS_WRITE] {
        assert_eq!(SyscallCode::from_u32(code.code()), code);
    }
    assert_eq!(SyscallCode::from_u32(0x1234_5678), SyscallCode::UNIMPLEMENTED);
}

#[test]
fn syscall_code_fields() {
    let sha = SyscallCode::SHA_EXTEND;
    assert_eq!(sha.syscall_id(), 0x0005);
    assert_eq!(sha.should_send(), 1);
    assert_eq!(sha.num_cycles(), 0x30);
    assert_eq!(SyscallCode::SYS_WRITE.linux_sys(), 0x0f);
    assert_eq!(SyscallCode::BN254_FP_SUB.count_map(), SyscallCode::BN254_FP_ADD);
    assert_eq!(SyscallCode::HALT.count_map(), SyscallCode::HALT);
}

// ---------------------------------------------------------------------------------------------
// Register and memory tables.
// ---------------------------------------------------------------------------------------------

#[test]
fn registers_read_back_writes() {
    let mut regs: Registers<u32> = Registers::default();
    assert_eq!(regs.get(5), None);
    assert_eq!(regs.insert(5, 7), None);
    assert_eq!(regs.insert(5, 8), Some(7));
    assert_eq!(regs.get(5), Some(&8));
    regs.or_insert(5, 9);
    assert_eq!(regs.get(5), Some(&8));
    regs.or_insert(6, 9);
    assert_eq!(regs.get(6), Some(&9));
    *regs.get_mut(6).unwrap() = 10;
    assert_eq!(regs.get(6), Some(&10));
    *regs.insert_mut(7, 1) += 1;
    assert_eq!(regs.get(7), Some(&2));
    assert_eq!(regs.remove(6), Some(10));
    assert_eq!(regs.get(6), None);
    regs.clear();
    assert_eq!(regs.get(5), None);
}

#[test]
fn word_memory_keys_and_lengths() {
    let mut words: WordMemory<u32> = WordMemory { unit_table: vec![None; 16] };
    assert_eq!(words.insert(0x8, 1), None);
    assert_eq!(words.insert(0x9, 2), Some(1));
    words.or_insert(0x20, 3);
    words.or_insert(0x20, 4);
    assert_eq!(words.get(0x20), Some(&3));
    assert_eq!(words.keys(), vec![0x8, 0x20]);
    assert_eq!(words.exact_len(), 2);
    assert_eq!(words.estimate_len(), 2);
    assert_eq!(words.insert_mut(0x10, 5), None);
    assert_eq!(words.insert_mut(0x12, 6), Some(5));
    assert_eq!(words.get(0x10), Some(&6));
    *words.get_mut(0x10).unwrap() = 7;
    assert_eq!(words.remove(0x10), Some(7));
    words.clear();
    assert_eq!(words.exact_len(), 0);
}

#[test]
fn memory_splits_registers_and_words() {
    let mut memory: Memory<u32> =
        Memory { registers: Registers::default(), unit_table: WordMemory { unit_table: vec![None; 64] } };
    assert_eq!(memory.insert(3, 30), None);
    assert_eq!(memory.insert(0x40, 40), None);
    assert_eq!(memory.get(3), Some(&30));
    assert_eq!(memory.get(0x41), Some(&40));
    assert_eq!(memory.remove(0x40), Some(40));
    assert_eq!(memory.get(0x40), None);
    memory.clear();
    assert_eq!(memory.get(3), None);
}

// ---------------------------------------------------------------------------------------------
// Events.
// ---------------------------------------------------------------------------------------------

#[test]
fn memory_records() {
    let read = MemoryReadRecord::new(5, 1, 10, 1, 3);
    assert_eq!(MemoryRecordEnum::Read(read).current_record(), MemoryRecord { value: 5, shard: 1, timestamp: 10 });
    let write = MemoryWriteRecord::new(6, 2, 11, 5, 1, 10);
    assert_eq!(MemoryRecordEnum::Write(write).current_record(), MemoryRecord { value: 6, shard: 2, timestamp: 11 });
    assert_eq!(MemoryWriteRecord::zeroed(), MemoryWriteRecord::new(0, 0, 0, 0, 0, 0));
    assert_eq!(MemoryAccessPosition::HI.offset(), 4);
    assert_eq!(MemoryAccessPosition::Memory.offset(), 0);
}

#[test]
fn event_constructors() {
    let alu = AluEvent::new(8, Opcode::ADD, 3, 1, 2);
    assert_eq!(alu.next_pc, 12);
    assert_eq!(alu.hi, 0);
    let mul = CompAluEvent::new_with_hi(8, Opcode::MULT, 1, 2, 3, 4);
    assert_eq!(mul.hi, 4);
    assert_eq!(mul.next_pc, 12);
    let branch = BranchEvent::new(0, 4, 104, Opcode::BEQ, 1, 1, 100);
    assert_eq!(branch.next_next_pc, 104);
    let jump = JumpEvent::new(0, 4, 100, Opcode::Jumpi, 8, 100, 0);
    assert_eq!(jump.a, 8);
    let mov = MovCondEvent::new(0, 4, Opcode::MEQ, 1, 1, 0, 9);
    assert_eq!(mov.prev_a, 9);
    let misc = MiscEvent::new(5, 1, 0, 4, Opcode::WSBH, 1, 2, 0, 0, MemoryWriteRecord::zeroed());
    assert_eq!(misc.clk, 5);
    let mem = MemInstrEvent::new(1, 5, 0, 4, Opcode::LW, 7, 0x100, 0, MemoryRecordEnum::Read(MemoryReadRecord::zeroed()), 0);
    assert_eq!(mem.b, 0x100);
    let keccak = KeccakSpongeEvent {
        shard: 0,
        clk: 0,
        input: vec![0; 36 * 3],
        output: [0; 16],
        input_len_u32s: 36 * 3,
        input_read_records: vec![],
        input_length_record: MemoryReadRecord::zeroed(),
        output_write_records: vec![],
        xored_state_list: vec![],
        input_addr: 0,
        output_addr: 0,
        local_mem_access: vec![],
    };
    assert_eq!(keccak.num_blocks(), 3);
}

#[test]
fn ffi_conversions() {
    let some: OptionU32 = Some(7).into();
    assert_eq!(some.tag, OptionValTag::IsSome);
    assert_eq!(some.value, 7);
    let none: OptionU32 = None.into();
    assert_eq!(none.tag, OptionValTag::IsNone);
    let write = MemoryWriteRecord::new(6, 2, 11, 5, 1, 10);
    let rec: OptionMemoryRecordEnum = Some(MemoryRecordEnum::Write(write)).into();
    assert_eq!(rec.tag, OptionMemoryRecordEnumTag::Write);
    let empty: OptionMemoryRecordEnum = None.into();
    assert_eq!(empty.tag, OptionMemoryRecordEnumTag::Empty);
    let event = CpuEvent {
        clk: 5,
        pc: 4,
        next_pc: 8,
        next_next_pc: 12,
        a: 1,
        a_record: None,
        b: 2,
        b_record: Some(MemoryRecordEnum::Read(MemoryReadRecord::new(2, 1, 3, 0, 0))),
        c: 3,
        c_record: None,
        hi: Some(9),
        hi_record: None,
        memory_record: None,
        exit_code: 0,
    };
    let ffi = CpuEventFfi::from_event(&event);
    assert_eq!(ffi.clk, 5);
    assert_eq!(ffi.hi.tag, OptionValTag::IsSome);
    assert_eq!(ffi.b_record.tag, OptionMemoryRecordEnumTag::Read);
}

// ---------------------------------------------------------------------------------------------
// Dependencies.
// ---------------------------------------------------------------------------------------------

#[test]
fn divrem_dependencies() {
    let mut record = InstrsRecord::new();
    // -7 / 2 = -3 remainder -1
    let event = AluEvent::new_with_hi(0, Opcode::DIV, 0xffff_fffd, 0xffff_fff9, 2, 0xffff_ffff);
    emit_divrem_dependencies(&mut record, event);
    // The negative remainder needs its absolute value.
    assert_eq!(record.add_sub_events.len(), 1);
    assert_eq!(record.add_sub_events[0].b, 0xffff_ffff);
    assert_eq!(record.add_sub_events[0].c, 1);
    assert_eq!(record.add_sub_events[0].pc, UNUSED_PC);
    // quotient * c = -6
    assert_eq!(record.mul_events.len(), 1);
    assert_eq!(record.mul_events[0].opcode, Opcode::MULT);
    assert_eq!(record.mul_events[0].a, 0xffff_fffa);
    assert_eq!(record.mul_events[0].hi, 0xffff_ffff);
    // |remainder| < |c|
    assert_eq!(record.lt_events.len(), 1);
    assert_eq!(record.lt_events[0].b, 1);
    assert_eq!(record.lt_events[0].c, 2);
}

#[test]
fn divrem_by_zero_has_no_comparison() {
    let mut record = InstrsRecord::new();
    let event = AluEvent::new_with_hi(0, Opcode::DIVU, u32::MAX, 7, 0, 7);
    emit_divrem_dependencies(&mut record, event);
    assert_eq!(record.lt_events.len(), 0);
    assert_eq!(record.mul_events.len(), 1);
}

#[test]
fn cloclz_dependencies() {
    let mut record = InstrsRecord::new();
    emit_cloclz_dependencies(&mut record, AluEvent::new(0, Opcode::CLZ, 15, 0x0001_0000, 0));
    assert_eq!(record.shift_right_events.len(), 1);
    let mut none = InstrsRecord::new();
    emit_cloclz_dependencies(&mut none, AluEvent::new(0, Opcode::CLZ, 32, 0, 0));
    assert_eq!(none.shift_right_events.len(), 0);
}

#[test]
fn branch_and_jump_dependencies() {
    let mut record = InstrsRecord::new();
    emit_branch_dependencies(&mut record, BranchEvent::new(0, 4, 104, Opcode::BEQ, 1, 1, 100));
    assert_eq!(record.lt_events.len(), 2);
    assert_eq!(record.add_sub_events.len(), 1);
    assert_eq!(record.add_sub_events[0].a, 104);
    let mut jumps = InstrsRecord::new();
    emit_jump_dependencies(&mut jumps, JumpEvent::new(0, 4, 104, Opcode::JumpDirect, 8, 100, 0));
    assert_eq!(jumps.add_sub_events.len(), 1);
    assert_eq!(jumps.add_sub_events[0].a, 104);
}

#[test]
fn memory_dependencies_compute_the_address() {
    let mut record = InstrsRecord::new();
    let read = MemoryReadRecord::new(0x1234_8765, 1, 5, 0, 0);
    let event = MemInstrEvent::new(1, 5, 0, 4, Opcode::LW, 0x1234_8765, 0x100, 4, MemoryRecordEnum::Read(read), 0);
    emit_memory_dependencies(&mut record, event, MemoryRecord { value: 0x1234_8765, shard: 1, timestamp: 5 });
    assert_eq!(record.add_sub_events[0].a, 0x104);
}

#[test]
fn misc_dependencies_of_maddu() {
    let mut record = InstrsRecord::new();
    let hi = MemoryWriteRecord::new(0, 1, 5, 0, 0, 0);
    let event = MiscEvent::new(5, 1, 0, 4, Opcode::MADDU, 3, 1, 2, 1, hi);
    emit_misc_dependencies(&mut record, event);
    assert_eq!(record.mul_events.len(), 1);
    assert_eq!(record.mul_events[0].a, 2);
}

// ---------------------------------------------------------------------------------------------
// Programs and chips.
// ---------------------------------------------------------------------------------------------

#[test]
fn patch_stack_writes_the_initial_stack() {
    let mut image = BTreeMap::new();
    image.insert(0x1000u32, 5u32);
    patch_stack(&mut image);
    assert_eq!(image.get(&0x1000), Some(&5));
    assert_eq!(image.get(&(Register::SP as u32)), Some(&INIT_SP));
    assert_eq!(image.get(&INIT_SP), Some(&0));
    assert_eq!(image.get(&(INIT_SP + 12)), Some(&0x06));
    assert_eq!(image.get(&(INIT_SP + 80)), Some(&(INIT_SP + 88)));
    assert_eq!(image.get(&(INIT_SP + 104)), Some(&0));
}

#[test]
fn program_fetch() {
    let instructions = vec![
        Instruction::new(Opcode::ADD, 1, 0, 1, false, true),
        Instruction::new(Opcode::ADD, 2, 0, 2, false, true),
    ];
    let program = Program::new(instructions, 0x1004, 0x1000);
    assert_eq!(program.next_pc, 0x1008);
    assert_eq!(program.fetch(0x1004), Instruction::new(Opcode::ADD, 2, 0, 2, false, true));
}

#[test]
fn chips_and_rows() {
    let _chip = MemoryLocalChip::new();
    let _add: AddSubChip = Default::default();
    let _clo: CloClzChip = Default::default();
    let _wsbh: WsbhChip = Default::default();
    let cols: SextCols<u32> = Default::default();
    assert_eq!(cols.most_sig_bit, 0);
    assert_eq!(nb_rows(0), 0);
    assert_eq!(nb_rows(4), 1);
    assert_eq!(nb_rows(5), 2);
    let row = FibonacciRow::new(1u64, 2u64);
    assert_eq!(row.left, 1);
    assert_eq!(row.right, 2);
}

#[test]
fn memory_keeps_a_slot_that_later_operations_leave_alone() {
    let mut m: Memory<u32> = Memory::new_preallocated();
    assert_eq!(m.get(0x100), None);
    m.insert(0x100, 7);
    m.insert(0x104, 8);
    m.remove(0x200);
    m.insert(5, 9);
    assert_eq!(m.get(0x100), Some(&7));
    assert_eq!(m.remove(0x101), Some(7));
    assert_eq!(m.get(0x100), None);
    assert_eq!(m.remove(0x100), None);
    assert_eq!(m.get(0x104), Some(&8));
}
