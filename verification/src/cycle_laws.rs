//! Properties every cycle of the executor keeps: the order of memory accesses in time, and the
//! flow of control through delay slots.
use vstd::prelude::*;

use crate::events::MemoryAccessPosition;
use crate::executor::{
    after_cycle, alu_operands, reg_of, spec_execute, start_operation, cb_operands, jump_target, spec_alu_step, spec_branch_step,
    spec_cycle, spec_jump_step, spec_load_step, spec_misc_step, spec_operation, spec_store_step,
    syscall_args, RunSetup,
};
use crate::instruction::Instruction;
use crate::opcode::Opcode;
use crate::state::{clk_ok, current_record, read_at, reg_write_at, write_at, StateModel};
use crate::syscall_code::SyscallCode;
use crate::syscalls::{after_output, call_read, call_write, spec_syscall};
use crate::utils::word_of;

verus! {

/// Every recorded access happened before the current clock of the current shard, or in an
/// earlier shard.
pub open spec fn accesses_before_now(s: StateModel) -> bool {
    forall|a: u32| #[trigger] s.memory.contains_key(a) ==> {
        ||| s.memory[a].shard < s.current_shard
        ||| (s.memory[a].shard == s.current_shard && s.memory[a].timestamp < s.clk)
    }
}

/// What the accesses of one cycle may do: the counters stay, records not touched stay, and
/// every record touched is stamped in the current shard at one of the cycle's five
/// timestamps.
pub open spec fn within_cycle(s0: StateModel, s1: StateModel) -> bool {
    &&& s1.global_clk == s0.global_clk
    &&& s1.current_shard == s0.current_shard
    &&& s1.clk == s0.clk
    &&& forall|a: u32| #[trigger] s1.memory.contains_key(a) ==> {
        ||| (s0.memory.contains_key(a) && s1.memory[a] == s0.memory[a])
        ||| (s1.memory[a].shard == s0.current_shard && s0.clk <= s1.memory[a].timestamp <= s0.clk + 4)
    }
}

proof fn lemma_within_refl(s: StateModel)
    ensures
        within_cycle(s, s),
{
}

proof fn lemma_within_trans(s0: StateModel, s1: StateModel, s2: StateModel)
    requires
        within_cycle(s0, s1),
        within_cycle(s1, s2),
    ensures
        within_cycle(s0, s2),
{
    assert forall|a: u32| #[trigger] s2.memory.contains_key(a) implies {
        ||| (s0.memory.contains_key(a) && s2.memory[a] == s0.memory[a])
        ||| (s2.memory[a].shard == s0.current_shard && s0.clk <= s2.memory[a].timestamp <= s0.clk + 4)
    } by {
        if !(s1.memory.contains_key(a) && s2.memory[a] == s1.memory[a]) {
        } else {
            assert(s1.memory.contains_key(a));
        }
    }
}

proof fn lemma_read_within(s: StateModel, a: u32, pos: MemoryAccessPosition)
    requires
        clk_ok(s),
    ensures
        within_cycle(s, read_at(s, a, pos)),
{
}

proof fn lemma_write_within(s: StateModel, a: u32, v: u32, pos: MemoryAccessPosition)
    requires
        clk_ok(s),
    ensures
        within_cycle(s, write_at(s, a, v, pos)),
        within_cycle(s, reg_write_at(s, a, v, pos)),
{
}

proof fn lemma_call_within(s: StateModel, a: u32, v: u32, fd: u32, bytes: Seq<u8>)
    ensures
        within_cycle(s, call_read(s, a)),
        within_cycle(s, call_write(s, a, v)),
        within_cycle(s, after_output(s, fd, bytes)),
{
}

proof fn lemma_alu_within(s: StateModel, ins: Instruction)
    requires
        clk_ok(s),
    ensures
        within_cycle(s, spec_alu_step(s, ins).0),
{
    let s1 = alu_operands(s, ins).0;
    if !ins.imm_c {
        let sc = read_at(s, (ins.op_c & 0xff) as u32, MemoryAccessPosition::C);
        lemma_read_within(s, (ins.op_c & 0xff) as u32, MemoryAccessPosition::C);
        lemma_read_within(sc, (ins.op_b & 0xff) as u32, MemoryAccessPosition::B);
        lemma_within_trans(s, sc, s1);
    } else if !ins.imm_b {
        lemma_read_within(s, (ins.op_b & 0xff) as u32, MemoryAccessPosition::B);
    } else {
        lemma_within_refl(s);
    }
    let (a, hi) = crate::alu::spec_alu(ins.opcode, alu_operands(s, ins).1, alu_operands(s, ins).2);
    if ins.opcode.spec_uses_lo_hi() {
        let s2 = reg_write_at(s1, 32, a, MemoryAccessPosition::A);
        lemma_write_within(s1, 32, a, MemoryAccessPosition::A);
        lemma_write_within(s2, 33, hi, MemoryAccessPosition::HI);
        lemma_within_trans(s, s1, s2);
        lemma_within_trans(s, s2, spec_alu_step(s, ins).0);
    } else {
        lemma_write_within(s1, ins.op_a as u32, a, MemoryAccessPosition::A);
        lemma_within_trans(s, s1, spec_alu_step(s, ins).0);
    }
}

proof fn lemma_load_within(s: StateModel, ins: Instruction)
    requires
        clk_ok(s),
    ensures
        within_cycle(s, spec_load_step(s, ins).0),
{
    let base = crate::executor::rv(s, (ins.op_b & 0xff) as u32);
    let s1 = read_at(s, (ins.op_b & 0xff) as u32, MemoryAccessPosition::B);
    let virt = crate::executor::aligned(word_of(base + ins.op_c));
    let s2 = read_at(s1, virt, MemoryAccessPosition::Memory);
    lemma_read_within(s, (ins.op_b & 0xff) as u32, MemoryAccessPosition::B);
    lemma_read_within(s1, virt, MemoryAccessPosition::Memory);
    lemma_within_trans(s, s1, s2);
    lemma_write_within(s2, ins.op_a as u32, spec_load_step(s, ins).1, MemoryAccessPosition::A);
    lemma_within_trans(s, s2, spec_load_step(s, ins).0);
}

proof fn lemma_store_within(s: StateModel, ins: Instruction)
    requires
        clk_ok(s),
    ensures
        within_cycle(s, spec_store_step(s, ins).0),
{
    let base = crate::executor::rv(s, (ins.op_b & 0xff) as u32);
    let s1 = read_at(s, (ins.op_b & 0xff) as u32, MemoryAccessPosition::B);
    lemma_read_within(s, (ins.op_b & 0xff) as u32, MemoryAccessPosition::B);
    let s2 = if ins.opcode is SC {
        lemma_within_refl(s1);
        s1
    } else {
        lemma_read_within(s1, ins.op_a as u32, MemoryAccessPosition::A);
        read_at(s1, ins.op_a as u32, MemoryAccessPosition::A)
    };
    lemma_within_trans(s, s1, s2);
    let virt = crate::executor::aligned(word_of(base + ins.op_c));
    let rt = if ins.opcode is SC { crate::state::peek(s1, ins.op_a as u32) } else { crate::executor::rv(s1, ins.op_a as u32) };
    let val = crate::memops::spec_store(ins.opcode, crate::state::peek(s2, virt), rt, word_of(base + ins.op_c));
    let s3 = write_at(s2, virt, val, MemoryAccessPosition::Memory);
    lemma_write_within(s2, virt, val, MemoryAccessPosition::Memory);
    lemma_within_trans(s, s2, s3);
    if ins.opcode is SC {
        lemma_write_within(s3, ins.op_a as u32, 1, MemoryAccessPosition::A);
        lemma_within_trans(s, s3, spec_store_step(s, ins).0);
    }
}

proof fn lemma_branch_within(s: StateModel, ins: Instruction, next_pc: u32, next_next_pc: u32)
    requires
        clk_ok(s),
    ensures
        within_cycle(s, spec_branch_step(s, ins, next_pc, next_next_pc).0),
{
    let one = ins.opcode.spec_only_one_operand();
    let s1 = if one {
        lemma_within_refl(s);
        s
    } else {
        lemma_read_within(s, (ins.op_b & 0xff) as u32, MemoryAccessPosition::B);
        read_at(s, (ins.op_b & 0xff) as u32, MemoryAccessPosition::B)
    };
    lemma_read_within(s1, ins.op_a as u32, MemoryAccessPosition::A);
    lemma_within_trans(s, s1, spec_branch_step(s, ins, next_pc, next_next_pc).0);
}

proof fn lemma_jump_within(s: StateModel, ins: Instruction)
    requires
        clk_ok(s),
    ensures
        within_cycle(s, spec_jump_step(s, ins).0),
{
    let s1 = jump_target(s, ins).0;
    if ins.opcode is Jump {
        lemma_read_within(s, (ins.op_b & 0xff) as u32, MemoryAccessPosition::B);
    } else {
        lemma_within_refl(s);
    }
    lemma_write_within(s1, ins.op_a as u32, word_of(s.pc + 8), MemoryAccessPosition::A);
    lemma_within_trans(s, s1, spec_jump_step(s, ins).0);
}

proof fn lemma_cb_within(s: StateModel, ins: Instruction)
    requires
        clk_ok(s),
    ensures
        within_cycle(s, cb_operands(s, ins).0),
{
    let sc = read_at(s, (ins.op_c & 0xff) as u32, MemoryAccessPosition::C);
    lemma_read_within(s, (ins.op_c & 0xff) as u32, MemoryAccessPosition::C);
    lemma_read_within(sc, (ins.op_b & 0xff) as u32, MemoryAccessPosition::B);
    lemma_within_trans(s, sc, cb_operands(s, ins).0);
}

proof fn lemma_misc_within(s: StateModel, ins: Instruction)
    requires
        clk_ok(s),
    ensures
        within_cycle(s, spec_misc_step(s, ins).0),
{
    let rd = ins.op_a as u32;
    let r = spec_misc_step(s, ins);
    match ins.opcode {
        crate::opcode::Opcode::MEQ | crate::opcode::Opcode::MNE => {
            let s1 = cb_operands(s, ins).0;
            lemma_cb_within(s, ins);
            lemma_write_within(s1, rd, r.2, MemoryAccessPosition::A);
            lemma_within_trans(s, s1, r.0);
        },
        crate::opcode::Opcode::MADDU | crate::opcode::Opcode::MSUBU | crate::opcode::Opcode::MADD
        | crate::opcode::Opcode::MSUB => {
            let s1 = cb_operands(s, ins).0;
            lemma_cb_within(s, ins);
            let s2 = reg_write_at(s1, rd, r.2, MemoryAccessPosition::A);
            lemma_write_within(s1, rd, r.2, MemoryAccessPosition::A);
            lemma_within_trans(s, s1, s2);
            let out_hi = crate::executor::spec_accumulate(
                ins.opcode,
                r.3,
                r.4,
                crate::state::peek(s1, 33),
                crate::state::peek(s1, 32),
            ).1;
            lemma_write_within(s2, 33, out_hi, MemoryAccessPosition::HI);
            lemma_within_trans(s, s2, r.0);
        },
        crate::opcode::Opcode::TEQ => {
            let s1 = read_at(s, (ins.op_b & 0xff) as u32, MemoryAccessPosition::B);
            lemma_read_within(s, (ins.op_b & 0xff) as u32, MemoryAccessPosition::B);
            lemma_read_within(s1, rd, MemoryAccessPosition::A);
            lemma_within_trans(s, s1, r.0);
        },
        _ => {
            let s1 = read_at(s, (ins.op_b & 0xff) as u32, MemoryAccessPosition::B);
            lemma_read_within(s, (ins.op_b & 0xff) as u32, MemoryAccessPosition::B);
            lemma_write_within(s1, rd, r.2, MemoryAccessPosition::A);
            lemma_within_trans(s, s1, r.0);
        },
    }
}

proof fn lemma_syscall_within(s: StateModel, code: SyscallCode, id: u32, a0: u32, a1: u32)
    requires
        spec_syscall(s, code, id, a0, a1) is Ok,
    ensures
        within_cycle(s, spec_syscall(s, code, id, a0, a1)->Ok_0.0),
{
    let r = spec_syscall(s, code, id, a0, a1)->Ok_0.0;
    match code {
        SyscallCode::WRITE => {
            lemma_call_within(s, 0, 0, a0, crate::syscalls::peek_bytes(s, a1, crate::state::peek(s, 6)));
        },
        SyscallCode::SYS_WRITE => {
            let n = crate::executor::rv(s, 6);
            let s1 = call_read(s, 6);
            let bytes = crate::syscalls::peek_bytes(s1, a1, n);
            let s2 = after_output(s1, a0, bytes);
            lemma_call_within(s, 6, 0, a0, bytes);
            lemma_call_within(s1, 6, 0, a0, bytes);
            lemma_within_trans(s, s1, s2);
            lemma_call_within(s2, 7, 0, a0, bytes);
            lemma_within_trans(s, s2, r);
        },
        SyscallCode::SYS_MMAP | SyscallCode::SYS_MMAP2 => {
            let s1 = call_write(s, 7, 0);
            lemma_call_within(s, 7, 0, 0, Seq::empty());
            if a0 == 0 {
                let top = crate::state::peek(s1, 34);
                let v = word_of(top + crate::syscalls::page_rounded(a1));
                lemma_call_within(s1, 34, v, 0, Seq::empty());
                lemma_within_trans(s, s1, r);
            }
        },
        SyscallCode::SYS_READ | SyscallCode::SYS_FCNTL => {
            let errno = r.memory[7].value;
            lemma_call_within(s, 7, errno, 0, Seq::empty());
            assert(r == call_write(s, 7, errno));
        },
        _ => {
            lemma_within_refl(s);
        },
    }
}

/// The accesses of one instruction all fall in the current cycle: if the state's records all
/// precede the current clock before the instruction, they still do after it, whose clock has
/// moved on by a cycle.
pub proof fn lemma_operation_keeps_access_order(s0: StateModel, ins: Instruction)
    requires
        accesses_before_now(s0),
        s0.clk + 5 <= u32::MAX,
        spec_operation(s0, ins) is Ok,
    ensures
        accesses_before_now(spec_operation(s0, ins)->Ok_0),
        spec_operation(s0, ins)->Ok_0.clk == s0.clk + 5,
{
    reveal(spec_execute);
    let s = start_operation(s0);
    let nn = word_of(s.next_pc + 4);
    let mid = if ins.spec_is_alu() {
        lemma_alu_within(s, ins);
        spec_alu_step(s, ins).0
    } else if ins.spec_is_load() {
        lemma_load_within(s, ins);
        spec_load_step(s, ins).0
    } else if ins.spec_is_store() {
        lemma_store_within(s, ins);
        spec_store_step(s, ins).0
    } else if ins.spec_is_branch() {
        lemma_branch_within(s, ins, s.next_pc, nn);
        spec_branch_step(s, ins, s.next_pc, nn).0
    } else if ins.spec_is_jump() {
        lemma_jump_within(s, ins);
        spec_jump_step(s, ins).0
    } else if ins.spec_is_misc() {
        lemma_misc_within(s, ins);
        spec_misc_step(s, ins).0
    } else {
        let (s1, id, a0, a1) = syscall_args(s);
        let code = SyscallCode::spec_from_u32(id);
        let sc = read_at(s, 5, MemoryAccessPosition::C);
        lemma_read_within(s, 5, MemoryAccessPosition::C);
        lemma_read_within(sc, 4, MemoryAccessPosition::B);
        lemma_within_trans(s, sc, s1);
        lemma_syscall_within(s1, code, id, a0, a1);
        let (s2, ret, npc) = spec_syscall(s1, code, id, a0, a1)->Ok_0;
        lemma_within_trans(s, s1, s2);
        let v0 = match ret {
            Some(v) => v,
            None => id,
        };
        let s3 = reg_write_at(s2, 2, v0, MemoryAccessPosition::A);
        lemma_write_within(s2, 2, v0, MemoryAccessPosition::A);
        lemma_within_trans(s, s2, s3);
        StateModel { exited: s3.exited || code is HALT, ..s3 }
    };
    let out = spec_operation(s0, ins)->Ok_0;
    assert(out.memory == mid.memory);
    assert forall|a: u32| #[trigger] out.memory.contains_key(a) implies {
        ||| out.memory[a].shard < out.current_shard
        ||| (out.memory[a].shard == out.current_shard && out.memory[a].timestamp < out.clk)
    } by {
        assert(mid.memory.contains_key(a));
    }
}

/// A cycle keeps every recorded access before the current clock of the current shard: the
/// accesses of the cycle fall within it, and a new shard begins after all of them.
pub proof fn lemma_cycle_keeps_access_order(e: RunSetup, s: StateModel)
    requires
        accesses_before_now(s),
        spec_cycle(e, s) is Ok,
    ensures
        accesses_before_now(spec_cycle(e, s)->Ok_0.0),
{
    reveal(crate::executor::operation_defined);
    let ins = e.program.spec_fetch(s.pc);
    lemma_operation_keeps_access_order(s, ins);
    let s1 = spec_operation(s, ins)->Ok_0;
    crate::executor::lemma_operation_frame(s, ins);
    let s2 = after_cycle(e.shard_size, s1);
    assert forall|a: u32| #[trigger] s2.memory.contains_key(a) implies {
        ||| s2.memory[a].shard < s2.current_shard
        ||| (s2.memory[a].shard == s2.current_shard && s2.memory[a].timestamp < s2.clk)
    } by {
        assert(s1.memory.contains_key(a));
    }
}

/// An instruction that neither branches, jumps nor calls the system moves on to the next
/// instruction, and the one after it is four bytes further on.
pub proof fn lemma_sequential_flow(s: StateModel, ins: Instruction)
    requires
        spec_operation(s, ins) is Ok,
        !ins.spec_is_branch(),
        !ins.spec_is_jump(),
        !(ins.opcode is SYSCALL),
    ensures
        spec_operation(s, ins)->Ok_0.pc == s.next_pc,
        spec_operation(s, ins)->Ok_0.next_pc == word_of(s.next_pc + 4),
        !spec_operation(s, ins)->Ok_0.next_is_delayslot,
{
    reveal(spec_execute);
}

/// A branch or jump first runs its delay slot, the instruction after it, then continues at
/// its target if it is taken, and after the delay slot otherwise.
pub proof fn lemma_delay_slot(s: StateModel, ins: Instruction)
    requires
        spec_operation(s, ins) is Ok,
        ins.spec_is_branch() || ins.spec_is_jump(),
    ensures
        spec_operation(s, ins)->Ok_0.pc == s.next_pc,
        spec_operation(s, ins)->Ok_0.next_is_delayslot,
        ins.spec_is_jump() ==> spec_operation(s, ins)->Ok_0.next_pc == jump_target(s, ins).1,
        ins.spec_is_branch() ==> spec_operation(s, ins)->Ok_0.next_pc == (if crate::executor::branch_condition(
            ins.opcode,
            spec_branch_step(s, ins, s.next_pc, word_of(s.next_pc + 4)).1,
            spec_branch_step(s, ins, s.next_pc, word_of(s.next_pc + 4)).2,
        ) {
            word_of(ins.op_c + s.next_pc)
        } else {
            word_of(s.next_pc + 4)
        }),
{
    reveal(spec_execute);
}

/// A branch compares the registers it names as they stood before it, and continues after its
/// delay slot at the offset it carries exactly when its condition holds: `BEQ` when the two
/// registers are equal, `BNE` when they differ; and, reading the first register as a signed
/// 32-bit integer, `BLTZ` when it is below zero, `BGEZ` when it is zero or above, `BLEZ` when it
/// is zero or below and `BGTZ` when it is above zero. Otherwise it leaves the given
/// continuation as it was.
pub proof fn lemma_branch_taken(s: StateModel, ins: Instruction, next_pc: u32, next_next_pc: u32)
    requires
        ins.spec_is_branch(),
    ensures
        ({
            let (s2, a, b, c, nn) = spec_branch_step(s, ins, next_pc, next_next_pc);
            let x = current_record(s, ins.op_a as u32).value;
            let y = current_record(s, reg_of(ins.op_b)).value;
            let taken = match ins.opcode {
                Opcode::BEQ => x == y,
                Opcode::BNE => x != y,
                Opcode::BLTZ => x >= 0x8000_0000,
                Opcode::BGEZ => x < 0x8000_0000,
                Opcode::BLEZ => x == 0 || x >= 0x8000_0000,
                _ => x != 0 && x < 0x8000_0000,
            };
            &&& a == x
            &&& (ins.opcode is BEQ || ins.opcode is BNE) ==> b == y
            &&& c == ins.op_c
            &&& nn == (if taken { word_of(ins.op_c + next_pc) } else { next_next_pc })
        }),
{
    let one = ins.opcode.spec_only_one_operand();
    let s1 = if one { s } else { read_at(s, reg_of(ins.op_b), MemoryAccessPosition::B) };
    assert(current_record(s1, ins.op_a as u32).value == current_record(s, ins.op_a as u32).value);
}

/// A jump links and then continues at its target after the delay slot: the link register
/// receives the address after the delay slot (register zero stays 0), and the target is the
/// value the register named by `op_b` held before the jump (`Jump`), the absolute address
/// `op_b` (`Jumpi`), or `op_b` bytes past the delay slot (`JumpDirect`).
pub proof fn lemma_jump_links(s: StateModel, ins: Instruction)
    requires
        ins.spec_is_jump(),
    ensures
        ({
            let (s2, a, b, c, nn) = spec_jump_step(s, ins);
            let target = match ins.opcode {
                Opcode::Jump => current_record(s, reg_of(ins.op_b)).value,
                Opcode::Jumpi => ins.op_b,
                _ => word_of(ins.op_b + s.pc + 4),
            };
            &&& a == word_of(s.pc + 8)
            &&& current_record(s2, ins.op_a as u32).value == (if ins.op_a == 0 { 0 } else { word_of(s.pc + 8) })
            &&& b == target
            &&& c == 0
            &&& nn == target
        }),
{
}

/// A conditional move copies the register named by `op_b` into the target when the register
/// named by `op_c` is zero (`MEQ`) or nonzero (`MNE`), and otherwise leaves the target as it
/// was; both registers are taken as they stood before the instruction.
pub proof fn lemma_conditional_move(s: StateModel, ins: Instruction)
    requires
        ins.opcode is MEQ || ins.opcode is MNE,
    ensures
        ({
            let (s2, prev, a, b, c) = spec_misc_step(s, ins);
            let x = current_record(s, reg_of(ins.op_b)).value;
            let y = current_record(s, reg_of(ins.op_c)).value;
            let moves = if ins.opcode is MEQ { y == 0 } else { y != 0 };
            &&& b == x
            &&& c == y
            &&& prev == Some(crate::state::peek(s, ins.op_a as u32))
            &&& a == (if moves { x } else { crate::state::peek(s, ins.op_a as u32) })
        }),
{
    let s1 = read_at(s, reg_of(ins.op_c), MemoryAccessPosition::C);
    assert(current_record(s1, reg_of(ins.op_b)).value == current_record(s, reg_of(ins.op_b)).value);
}

/// A cycle does not end a shard between a branch or jump and its delay slot.
pub proof fn lemma_delay_slot_same_shard(e: RunSetup, s: StateModel)
    requires
        spec_cycle(e, s) is Ok,
        spec_cycle(e, s)->Ok_0.0.next_is_delayslot,
    ensures
        spec_cycle(e, s)->Ok_0.0.current_shard == s.current_shard,
{
    let ins = e.program.spec_fetch(s.pc);
    crate::executor::lemma_operation_frame(s, ins);
}

} // verus!

verus! {

/// Register zero holds 0 after any instruction that does not store to the word at address 0,
/// if it held 0 before: reads keep it, and a write to it writes 0.
pub proof fn lemma_zero_register(s0: StateModel, ins: Instruction)
    requires
        current_record(s0, 0).value == 0,
        spec_operation(s0, ins) is Ok,
        ins.spec_is_store() ==> crate::executor::aligned(crate::executor::effective_address(s0, ins)) != 0,
    ensures
        current_record(spec_operation(s0, ins)->Ok_0, 0).value == 0,
{
    reveal(spec_execute);
    let s = start_operation(s0);
    assert(crate::executor::effective_address(s, ins) == crate::executor::effective_address(s0, ins));
    if ins.spec_is_alu() {
        assert(current_record(spec_alu_step(s, ins).0, 0).value == 0);
    } else if ins.spec_is_load() {
        assert(current_record(spec_load_step(s, ins).0, 0).value == 0);
    } else if ins.spec_is_store() {
        assert(current_record(spec_store_step(s, ins).0, 0).value == 0);
    } else if ins.spec_is_branch() {
        assert(current_record(spec_branch_step(s, ins, s.next_pc, word_of(s.next_pc + 4)).0, 0).value == 0);
    } else if ins.spec_is_jump() {
        assert(current_record(spec_jump_step(s, ins).0, 0).value == 0);
    } else if ins.spec_is_misc() {
        assert(current_record(spec_misc_step(s, ins).0, 0).value == 0);
    } else {
        let (s1, id, a0, a1) = syscall_args(s);
        assert(current_record(s1, 0).value == 0);
        let code = SyscallCode::spec_from_u32(id);
        assert(current_record(spec_syscall(s1, code, id, a0, a1)->Ok_0.0, 0).value == 0);
    }
}

} // verus!
