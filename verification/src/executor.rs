//! The executor: runs a program cycle by cycle over registers and memory.
use vstd::prelude::*;

use std::collections::BTreeMap;

use crate::events::{
    no_accesses, MemoryAccessPosition, MemoryAccessRecord, MemoryLocalEvent, MemoryReadRecord, MemoryRecord,
    MemoryWriteRecord,
};
use crate::instruction::Instruction;
use crate::opcode::Opcode;
use crate::misc::{
    ext, ext_defined, ins_defined, madd, maddu, maddu_defined, msub,
    msubu, msubu_defined, sext, spec_ext, spec_ins, spec_madd, spec_maddu, spec_msub, spec_msubu,
    spec_sext, spec_wsbh, wsbh,
};
use crate::program::Program;
use crate::record::{
    cycle_events, drain_local_events, drained_in_order, events_defined, finalize_events, note_all, note_local,
    note_local_access, note_local_accesses, global_memory_events, initialize_events, lemma_empty_record_events, lemma_ext_as_shifts, lemma_extended_events,
    lemma_ins_as_rotations, lemma_no_events_unit, lemma_then_events_associative, no_events, records_events,
    then_events, traceable, CycleTrace, EventDeltas, ExecutionRecord,
};
use crate::register::Register;
use crate::state::{
    after_read, after_write, image_records, load_image, clk_ok, current_record, peek, read_at, reg_write_at, write_at, ExecutionState, StateModel,
};
use crate::syscall_code::SyscallCode;
use crate::syscalls::{peek_byte, spec_syscall, syscall_defined};
use crate::utils::{signed, word_of};

verus! {

/// Whether to verify deferred proofs during execution.
#[derive(Clone, Copy, Debug, PartialEq, Eq, Structural)]
pub enum DeferredProofVerification {
    /// Verify deferred proofs during execution.
    Enabled,
    /// Skip verification of deferred proofs.
    Disabled,
}

/// The different modes the executor can run in.
#[derive(Clone, Copy, Debug, PartialEq, Eq, Structural)]
pub enum ExecutorMode {
    /// Run the execution with no tracing or checkpointing.
    Simple,
    /// Run the execution with checkpoints for memory.
    Checkpoint,
    /// Run the execution with full tracing of events.
    Trace,
}

impl Default for ExecutorMode {
    fn default() -> (r: Self)
        ensures
            r == ExecutorMode::Simple,
    {
        ExecutorMode::Simple
    }
}

/// Errors that the executor can return.
#[derive(Clone, Copy, Debug, PartialEq, Eq, Structural)]
pub enum ExecutionError {
    /// The execution failed with a non-zero exit code.
    HaltWithNonZeroExitCode(u32),
    /// The execution failed with an invalid memory access.
    InvalidMemoryAccess(Opcode, u32),
    /// The execution failed with an unimplemented syscall.
    UnsupportedSyscall(u32),
    /// The execution failed with an unimplemented instruction.
    UnsupportedInstruction(u32),
    /// The execution failed with a breakpoint.
    Breakpoint(),
    /// The execution failed with an exceeded cycle limit.
    ExceededCycleLimit(u64),
    /// The execution failed because the syscall was called in unconstrained mode.
    InvalidSyscallUsage(u64),
    /// The execution failed with an unimplemented feature.
    Unimplemented(),
    /// The program ended in unconstrained mode.
    EndInUnconstrained(),
}


} // verus!

verus! {

/// The register an operand field names: its low byte.
pub open spec fn reg_of(field: u32) -> u32 {
    field & 0xff
}

/// The value of the operand at `addr` as the next read returns it.
pub open spec fn rv(s: StateModel, addr: u32) -> u32 {
    current_record(s, addr).value
}

/// The operands of an ALU instruction, and the state after reading them: a third register
/// operand is read first (slot C), then the second (slot B); immediates are taken as they are.
pub open spec fn alu_operands(s: StateModel, ins: Instruction) -> (StateModel, u32, u32) {
    if !ins.imm_c {
        let s1 = read_at(s, reg_of(ins.op_c), MemoryAccessPosition::C);
        let c = rv(s, reg_of(ins.op_c));
        let b = rv(s1, reg_of(ins.op_b));
        (read_at(s1, reg_of(ins.op_b), MemoryAccessPosition::B), b, c)
    } else if !ins.imm_b {
        (read_at(s, reg_of(ins.op_b), MemoryAccessPosition::B), rv(s, reg_of(ins.op_b)), ins.op_c)
    } else {
        (s, ins.op_b, ins.op_c)
    }
}

/// The effect of an ALU instruction: the new state, the HI value for the operations that
/// write LO/HI, and the operand values `a`, `b`, `c`.
pub open spec fn spec_alu_step(s: StateModel, ins: Instruction) -> (StateModel, Option<u32>, u32, u32, u32) {
    let (s1, b, c) = alu_operands(s, ins);
    let (a, hi) = crate::alu::spec_alu(ins.opcode, b, c);
    if ins.opcode.spec_uses_lo_hi() {
        let s2 = reg_write_at(s1, 32, a, MemoryAccessPosition::A);
        (reg_write_at(s2, 33, hi, MemoryAccessPosition::HI), Some(hi), a, b, c)
    } else {
        (reg_write_at(s1, ins.op_a as u32, a, MemoryAccessPosition::A), None, a, b, c)
    }
}

/// Whether an ALU instruction is defined on the current register values.
pub open spec fn alu_step_defined(s: StateModel, ins: Instruction) -> bool {
    let (s1, b, c) = alu_operands(s, ins);
    crate::alu::alu_defined(ins.opcode, b, c)
}

/// The effective address of a load or store: base register plus offset, modulo 2^32.
pub open spec fn effective_address(s: StateModel, ins: Instruction) -> u32 {
    crate::utils::word_of(rv(s, reg_of(ins.op_b)) + ins.op_c)
}

/// The aligned word address of an access.
pub open spec fn aligned(addr: u32) -> u32 {
    addr & 0xffff_fffc
}

/// The effect of a load: the new state and `(a, b, c)` = (loaded value, base, offset).
pub open spec fn spec_load_step(s: StateModel, ins: Instruction) -> (StateModel, u32, u32, u32) {
    let base = rv(s, reg_of(ins.op_b));
    let s1 = read_at(s, reg_of(ins.op_b), MemoryAccessPosition::B);
    let rt = peek(s1, ins.op_a as u32);
    let virt_raw = crate::utils::word_of(base + ins.op_c);
    let mem = rv(s1, aligned(virt_raw));
    let s2 = read_at(s1, aligned(virt_raw), MemoryAccessPosition::Memory);
    let val = crate::memops::spec_load(ins.opcode, mem, rt, virt_raw);
    (reg_write_at(s2, ins.op_a as u32, val, MemoryAccessPosition::A), val, base, ins.op_c)
}

/// The effect of a store: the new state and `(a, b, c)` = (stored register value, or 1 for a
/// store-conditional; base; offset).
pub open spec fn spec_store_step(s: StateModel, ins: Instruction) -> (StateModel, u32, u32, u32) {
    let base = rv(s, reg_of(ins.op_b));
    let s1 = read_at(s, reg_of(ins.op_b), MemoryAccessPosition::B);
    let rt = if ins.opcode is SC { peek(s1, ins.op_a as u32) } else { rv(s1, ins.op_a as u32) };
    let s2 = if ins.opcode is SC { s1 } else { read_at(s1, ins.op_a as u32, MemoryAccessPosition::A) };
    let virt_raw = crate::utils::word_of(base + ins.op_c);
    let mem = peek(s2, aligned(virt_raw));
    let val = crate::memops::spec_store(ins.opcode, mem, rt, virt_raw);
    let s3 = write_at(s2, aligned(virt_raw), val, MemoryAccessPosition::Memory);
    if ins.opcode is SC {
        (reg_write_at(s3, ins.op_a as u32, 1, MemoryAccessPosition::A), 1, base, ins.op_c)
    } else {
        (s3, rt, base, ins.op_c)
    }
}

impl ExecutionState {
    fn alu_rr(&mut self, ins: &Instruction) -> (r: (u32, u32))
        requires
            clk_ok(old(self)@),
        ensures
            (final(self)@, r.0, r.1) == alu_operands(old(self)@, *ins),
    {
        if !ins.imm_c {
            let c = self.rr(ins.op_c & 0xff, MemoryAccessPosition::C);
            let b = self.rr(ins.op_b & 0xff, MemoryAccessPosition::B);
            (b, c)
        } else if !ins.imm_b {
            let b = self.rr(ins.op_b & 0xff, MemoryAccessPosition::B);
            (b, ins.op_c)
        } else {
            (ins.op_b, ins.op_c)
        }
    }

    /// Executes an ALU instruction.
    fn execute_alu(&mut self, ins: &Instruction) -> (r: (Option<u32>, u32, u32, u32))
        requires
            clk_ok(old(self)@),
            alu_step_defined(old(self)@, *ins),
        ensures
            (final(self)@, r.0, r.1, r.2, r.3) == spec_alu_step(old(self)@, *ins),
    {
        let (b, c) = self.alu_rr(ins);
        let (a, hi) = crate::alu::alu_op(ins.opcode, b, c);
        let hi_written = self.alu_rw(ins, hi, a);
        (hi_written, a, b, c)
    }

    /// Writes the result of an ALU instruction: LO and HI for the operations that write both,
    /// the destination register otherwise; returns the HI written, if any.
    fn alu_rw(&mut self, ins: &Instruction, hi: u32, a: u32) -> (r: Option<u32>)
        requires
            clk_ok(old(self)@),
        ensures
            ins.opcode.spec_uses_lo_hi() ==> r == Some(hi) && final(self)@ == reg_write_at(
                reg_write_at(old(self)@, 32, a, MemoryAccessPosition::A),
                33,
                hi,
                MemoryAccessPosition::HI,
            ),
            !ins.opcode.spec_uses_lo_hi() ==> r == None::<u32> && final(self)@ == reg_write_at(old(self)@, ins.op_a as u32, a, MemoryAccessPosition::A),
    {
        if ins.opcode.is_use_lo_hi_alu() {
            self.rw(32, a, MemoryAccessPosition::A);
            self.rw(33, hi, MemoryAccessPosition::HI);
            Some(hi)
        } else {
            self.rw(ins.op_a as u32, a, MemoryAccessPosition::A);
            None
        }
    }

    /// Executes a load.
    fn execute_load(&mut self, ins: &Instruction) -> (r: (u32, u32, u32))
        requires
            clk_ok(old(self)@),
        ensures
            (final(self)@, r.0, r.1, r.2) == spec_load_step(old(self)@, *ins),
    {
        let rs_raw = self.rr(ins.op_b & 0xff, MemoryAccessPosition::B);
        let rt = self.peek(ins.op_a as u32);
        let virt_raw = rs_raw.wrapping_add(ins.op_c);
        let virt = virt_raw & 0xffff_fffc;
        let mem = self.rr(virt, MemoryAccessPosition::Memory);
        let val = crate::memops::load_value(ins.opcode, mem, rt, virt_raw);
        self.rw(ins.op_a as u32, val, MemoryAccessPosition::A);
        (val, rs_raw, ins.op_c)
    }

    /// Executes a store.
    fn execute_store(&mut self, ins: &Instruction) -> (r: (u32, u32, u32))
        requires
            clk_ok(old(self)@),
        ensures
            (final(self)@, r.0, r.1, r.2) == spec_store_step(old(self)@, *ins),
    {
        let rs = self.rr(ins.op_b & 0xff, MemoryAccessPosition::B);
        let is_sc = matches!(ins.opcode, Opcode::SC);
        let rt = if is_sc {
            self.peek(ins.op_a as u32)
        } else {
            self.rr(ins.op_a as u32, MemoryAccessPosition::A)
        };
        let virt_raw = rs.wrapping_add(ins.op_c);
        let virt = virt_raw & 0xffff_fffc;
        let mem = self.peek(virt);
        let val = crate::memops::store_value(ins.opcode, mem, rt, virt_raw);
        self.mw_cpu(virt, val, MemoryAccessPosition::Memory);
        if is_sc {
            self.rw(ins.op_a as u32, 1, MemoryAccessPosition::A);
            (1, rs, ins.op_c)
        } else {
            (rt, rs, ins.op_c)
        }
    }
}

} // verus!

verus! {

// ---------------------------------------------------------------------------------------------
// Branches and jumps.
// ---------------------------------------------------------------------------------------------

/// Whether a branch on operand values `a` and `b` is taken.
pub open spec fn branch_condition(opcode: Opcode, a: u32, b: u32) -> bool {
    match opcode {
        Opcode::BEQ => a == b,
        Opcode::BNE => a != b,
        Opcode::BGEZ => signed(a) >= 0,
        Opcode::BLEZ => signed(a) <= 0,
        Opcode::BGTZ => signed(a) > 0,
        _ => signed(a) < 0,
    }
}

/// The effect of a branch: the new state, the operands `(a, b, c)` and the new `next_next_pc`.
/// The second operand is read first (slot B), unless the branch compares with zero, then the
/// first (slot A). A taken branch continues at `c + next_pc` after its delay slot.
pub open spec fn spec_branch_step(s: StateModel, ins: Instruction, next_pc: u32, next_next_pc: u32) -> (StateModel, u32, u32, u32, u32) {
    let (s2, a, b) = branch_operands(s, ins);
    let nn = if branch_condition(ins.opcode, a, b) { word_of(ins.op_c + next_pc) } else { next_next_pc };
    (s2, a, b, ins.op_c, nn)
}

/// The operands of a branch: `b` is read in slot B unless the branch compares with zero (then
/// it is 0), then `a` in slot A; the state after the reads and `(a, b)`.
pub open spec fn branch_operands(s: StateModel, ins: Instruction) -> (StateModel, u32, u32) {
    let one = ins.opcode.spec_only_one_operand();
    let s1 = if one { s } else { read_at(s, reg_of(ins.op_b), MemoryAccessPosition::B) };
    let b = if one { 0 } else { rv(s, reg_of(ins.op_b)) };
    (read_at(s1, ins.op_a as u32, MemoryAccessPosition::A), rv(s1, ins.op_a as u32), b)
}

/// The target of a jump: a register (`Jump`), an absolute address (`Jumpi`), or an offset from
/// the delay slot (`JumpDirect`); and the state after reading it.
pub open spec fn jump_target(s: StateModel, ins: Instruction) -> (StateModel, u32) {
    match ins.opcode {
        Opcode::Jump => (read_at(s, reg_of(ins.op_b), MemoryAccessPosition::B), rv(s, reg_of(ins.op_b))),
        Opcode::Jumpi => (s, ins.op_b),
        _ => (s, word_of(ins.op_b + s.pc + 4)),
    }
}

/// The effect of a jump: the link register receives the address after the delay slot; returns
/// the new state, the operands `(a, b, c)` and the new `next_next_pc`, which is the target.
pub open spec fn spec_jump_step(s: StateModel, ins: Instruction) -> (StateModel, u32, u32, u32, u32) {
    let (s1, target) = jump_target(s, ins);
    let link = word_of(s.pc + 8);
    (reg_write_at(s1, ins.op_a as u32, link, MemoryAccessPosition::A), link, target, 0, target)
}

// ---------------------------------------------------------------------------------------------
// Conditional moves, multiply-accumulate, traps and bit manipulation.
// ---------------------------------------------------------------------------------------------

/// The two register operands of an instruction that reads `c` (slot C) and then `b` (slot B):
/// the state after both reads and their values.
pub open spec fn cb_operands(s: StateModel, ins: Instruction) -> (StateModel, u32, u32) {
    let s1 = read_at(s, reg_of(ins.op_c), MemoryAccessPosition::C);
    let c = rv(s, reg_of(ins.op_c));
    let b = rv(s1, reg_of(ins.op_b));
    (read_at(s1, reg_of(ins.op_b), MemoryAccessPosition::B), b, c)
}

/// The new (LO, HI) of a multiply-accumulate instruction.
pub open spec fn spec_accumulate(opcode: Opcode, b: u32, c: u32, hi: u32, lo: u32) -> (u32, u32) {
    match opcode {
        Opcode::MADDU => spec_maddu(b, c, hi, lo),
        Opcode::MSUBU => spec_msubu(b, c, hi, lo),
        Opcode::MADD => spec_madd(b, c, hi, lo),
        _ => spec_msub(b, c, hi, lo),
    }
}

/// Whether a multiply-accumulate instruction stays within the 64-bit accumulator.
pub open spec fn accumulate_defined(opcode: Opcode, b: u32, c: u32, hi: u32, lo: u32) -> bool {
    match opcode {
        Opcode::MADDU => maddu_defined(b, c, hi, lo),
        Opcode::MSUBU => msubu_defined(b, c, hi, lo),
        _ => true,
    }
}

/// The effect of a miscellaneous instruction: the new state, the previous value of the
/// destination where the instruction depends on it (for an accumulate, the old LO), and the
/// operands `(a, b, c)`.
pub open spec fn spec_misc_step(s: StateModel, ins: Instruction) -> (StateModel, Option<u32>, u32, u32, u32) {
    let rd = ins.op_a as u32;
    match ins.opcode {
        Opcode::MEQ | Opcode::MNE => {
            let prev = peek(s, rd);
            let (s1, b, c) = cb_operands(s, ins);
            let mov = if ins.opcode is MEQ { c == 0 } else { c != 0 };
            let a = if mov { b } else { prev };
            (reg_write_at(s1, rd, a, MemoryAccessPosition::A), Some(prev), a, b, c)
        },
        Opcode::MADDU | Opcode::MSUBU | Opcode::MADD | Opcode::MSUB => {
            let (s1, b, c) = cb_operands(s, ins);
            let lo = peek(s1, 32);
            let hi = peek(s1, 33);
            let (out_lo, out_hi) = spec_accumulate(ins.opcode, b, c, hi, lo);
            let s2 = reg_write_at(s1, rd, out_lo, MemoryAccessPosition::A);
            (reg_write_at(s2, 33, out_hi, MemoryAccessPosition::HI), Some(lo), out_lo, b, c)
        },
        Opcode::TEQ => {
            let s1 = read_at(s, reg_of(ins.op_b), MemoryAccessPosition::B);
            let b = rv(s, reg_of(ins.op_b));
            let a = rv(s1, rd);
            (read_at(s1, rd, MemoryAccessPosition::A), None, a, b, 0)
        },
        _ => {
            let s1 = read_at(s, reg_of(ins.op_b), MemoryAccessPosition::B);
            let b = rv(s, reg_of(ins.op_b));
            let prev = peek(s1, rd);
            let (a, c) = match ins.opcode {
                Opcode::SEXT => (spec_sext(b, ins.op_c), ins.op_c),
                Opcode::WSBH => (spec_wsbh(b), 0),
                Opcode::EXT => (spec_ext(b, ins.op_c), ins.op_c),
                _ => (spec_ins(prev, b, ins.op_c), ins.op_c),
            };
            let hi = if ins.opcode is INS { Some(prev) } else { None };
            (reg_write_at(s1, rd, a, MemoryAccessPosition::A), hi, a, b, c)
        },
    }
}

/// Whether a miscellaneous instruction is defined: the accumulator stays in range, a trap's
/// operands differ, and bit fields fit in a word.
pub open spec fn misc_step_defined(s: StateModel, ins: Instruction) -> bool {
    let (s1, b, c) = cb_operands(s, ins);
    match ins.opcode {
        Opcode::MADDU | Opcode::MSUBU => accumulate_defined(ins.opcode, b, c, peek(s1, 33), peek(s1, 32)),
        Opcode::TEQ => {
            let s2 = read_at(s, reg_of(ins.op_b), MemoryAccessPosition::B);
            rv(s2, ins.op_a as u32) != rv(s, reg_of(ins.op_b))
        },
        Opcode::EXT => ext_defined(ins.op_c),
        Opcode::INS => ins_defined(ins.op_c),
        _ => true,
    }
}

impl ExecutionState {
    /// Executes a branch; returns `(a, b, c, next_next_pc)`.
    fn execute_branch(&mut self, ins: &Instruction, next_pc: u32, next_next_pc: u32) -> (r: (u32, u32, u32, u32))
        requires
            clk_ok(old(self)@),
        ensures
            (final(self)@, r.0, r.1, r.2, r.3) == spec_branch_step(old(self)@, *ins, next_pc, next_next_pc),
    {
        let (a, b) = self.branch_rr(ins);
        let taken = match ins.opcode {
            Opcode::BEQ => a == b,
            Opcode::BNE => a != b,
            Opcode::BGEZ => a < 0x8000_0000,
            Opcode::BLEZ => a == 0 || a >= 0x8000_0000,
            Opcode::BGTZ => a != 0 && a < 0x8000_0000,
            _ => a >= 0x8000_0000,
        };
        let nn = if taken { ins.op_c.wrapping_add(next_pc) } else { next_next_pc };
        (a, b, ins.op_c, nn)
    }

    /// Reads the operands of a branch: `b` (unless the branch compares with zero), then `a`;
    /// returns `(a, b)`.
    fn branch_rr(&mut self, ins: &Instruction) -> (r: (u32, u32))
        requires
            clk_ok(old(self)@),
        ensures
            (final(self)@, r.0, r.1) == branch_operands(old(self)@, *ins),
    {
        let b = if ins.opcode.only_one_operand() {
            0
        } else {
            self.rr(ins.op_b & 0xff, MemoryAccessPosition::B)
        };
        let a = self.rr(ins.op_a as u32, MemoryAccessPosition::A);
        (a, b)
    }

    /// Executes a jump to a register (`Jump`); returns `(a, b, c, next_next_pc)`.
    fn execute_jump(&mut self, ins: &Instruction) -> (r: (u32, u32, u32, u32))
        requires
            clk_ok(old(self)@),
            ins.opcode is Jump,
        ensures
            (final(self)@, r.0, r.1, r.2, r.3) == spec_jump_step(old(self)@, *ins),
    {
        let target = self.rr(ins.op_b & 0xff, MemoryAccessPosition::B);
        let link = self.pc.wrapping_add(8);
        self.rw(ins.op_a as u32, link, MemoryAccessPosition::A);
        (link, target, 0, target)
    }

    /// Executes a jump to an absolute address (`Jumpi`); returns `(a, b, c, next_next_pc)`.
    fn execute_jumpi(&mut self, ins: &Instruction) -> (r: (u32, u32, u32, u32))
        requires
            clk_ok(old(self)@),
            ins.opcode is Jumpi,
        ensures
            (final(self)@, r.0, r.1, r.2, r.3) == spec_jump_step(old(self)@, *ins),
    {
        let target = ins.op_b;
        let link = self.pc.wrapping_add(8);
        self.rw(ins.op_a as u32, link, MemoryAccessPosition::A);
        (link, target, 0, target)
    }

    /// Executes a jump relative to the delay slot (`JumpDirect`); returns
    /// `(a, b, c, next_next_pc)`.
    fn execute_jump_direct(&mut self, ins: &Instruction) -> (r: (u32, u32, u32, u32))
        requires
            clk_ok(old(self)@),
            ins.opcode is JumpDirect,
            old(self)@.pc + 4 <= u32::MAX,
        ensures
            (final(self)@, r.0, r.1, r.2, r.3) == spec_jump_step(old(self)@, *ins),
    {
        let target = ins.op_b.wrapping_add(self.pc + 4);
        let link = self.pc.wrapping_add(8);
        self.rw(ins.op_a as u32, link, MemoryAccessPosition::A);
        (link, target, 0, target)
    }

    /// Executes a miscellaneous instruction; returns `(hi_or_prev_a, a, b, c)`.
    fn execute_misc(&mut self, ins: &Instruction) -> (r: (Option<u32>, u32, u32, u32))
        requires
            clk_ok(old(self)@),
            ins.spec_is_misc(),
            misc_step_defined(old(self)@, *ins),
        ensures
            (final(self)@, r.0, r.1, r.2, r.3) == spec_misc_step(old(self)@, *ins),
    {
        match ins.opcode {
            Opcode::MEQ | Opcode::MNE => self.execute_condmov(ins),
            Opcode::MADDU | Opcode::MADD => self.execute_maddu(ins),
            Opcode::MSUBU | Opcode::MSUB => self.execute_msubu(ins),
            Opcode::TEQ => {
                let (a, b, c) = self.execute_teq(ins);
                (None, a, b, c)
            },
            Opcode::SEXT => {
                let (a, b, c) = self.execute_sext(ins);
                (None, a, b, c)
            },
            Opcode::WSBH => {
                let (a, b, c) = self.execute_wsbh(ins);
                (None, a, b, c)
            },
            Opcode::EXT => {
                let (a, b, c) = self.execute_ext(ins);
                (None, a, b, c)
            },
            _ => self.execute_ins(ins),
        }
    }

    /// Executes a conditional move (`MEQ` moves when `c` is 0, `MNE` when it is not); returns
    /// the previous value of the destination and `(a, b, c)`.
    fn execute_condmov(&mut self, ins: &Instruction) -> (r: (Option<u32>, u32, u32, u32))
        requires
            clk_ok(old(self)@),
            ins.opcode is MEQ || ins.opcode is MNE,
        ensures
            (final(self)@, r.0, r.1, r.2, r.3) == spec_misc_step(old(self)@, *ins),
    {
        let rd = ins.op_a as u32;
        let prev = self.peek(rd);
        let c = self.rr(ins.op_c & 0xff, MemoryAccessPosition::C);
        let b = self.rr(ins.op_b & 0xff, MemoryAccessPosition::B);
        let mov = if matches!(ins.opcode, Opcode::MEQ) { c == 0 } else { c != 0 };
        let a = if mov { b } else { prev };
        self.rw(rd, a, MemoryAccessPosition::A);
        (Some(prev), a, b, c)
    }

    /// Reads the operands of a multiply-accumulate and writes its new LO and HI; returns the
    /// old LO and `(a, b, c)`.
    fn accumulate(&mut self, ins: &Instruction) -> (r: (Option<u32>, u32, u32, u32))
        requires
            clk_ok(old(self)@),
            ins.opcode is MADDU || ins.opcode is MADD || ins.opcode is MSUBU || ins.opcode is MSUB,
            misc_step_defined(old(self)@, *ins),
        ensures
            (final(self)@, r.0, r.1, r.2, r.3) == spec_misc_step(old(self)@, *ins),
    {
        let c = self.rr(ins.op_c & 0xff, MemoryAccessPosition::C);
        let b = self.rr(ins.op_b & 0xff, MemoryAccessPosition::B);
        let lo = self.peek(32);
        let hi = self.peek(33);
        let (out_lo, out_hi) = match ins.opcode {
            Opcode::MADDU => maddu(b, c, hi, lo),
            Opcode::MSUBU => msubu(b, c, hi, lo),
            Opcode::MADD => madd(b, c, hi, lo),
            _ => msub(b, c, hi, lo),
        };
        self.rw(ins.op_a as u32, out_lo, MemoryAccessPosition::A);
        self.rw(33, out_hi, MemoryAccessPosition::HI);
        (Some(lo), out_lo, b, c)
    }

    /// Executes a multiply-add into HI:LO (`MADDU` unsigned, `MADD` signed).
    fn execute_maddu(&mut self, ins: &Instruction) -> (r: (Option<u32>, u32, u32, u32))
        requires
            clk_ok(old(self)@),
            ins.opcode is MADDU || ins.opcode is MADD,
            misc_step_defined(old(self)@, *ins),
        ensures
            (final(self)@, r.0, r.1, r.2, r.3) == spec_misc_step(old(self)@, *ins),
    {
        self.accumulate(ins)
    }

    /// Executes a multiply-subtract from HI:LO (`MSUBU` unsigned, `MSUB` signed).
    fn execute_msubu(&mut self, ins: &Instruction) -> (r: (Option<u32>, u32, u32, u32))
        requires
            clk_ok(old(self)@),
            ins.opcode is MSUBU || ins.opcode is MSUB,
            misc_step_defined(old(self)@, *ins),
        ensures
            (final(self)@, r.0, r.1, r.2, r.3) == spec_misc_step(old(self)@, *ins),
    {
        self.accumulate(ins)
    }

    /// Executes a trap on equal operands, which goes on when they differ; returns `(a, b, c)`.
    fn execute_teq(&mut self, ins: &Instruction) -> (r: (u32, u32, u32))
        requires
            clk_ok(old(self)@),
            ins.opcode is TEQ,
        ensures
            (final(self)@, None::<u32>, r.0, r.1, r.2) == spec_misc_step(old(self)@, *ins),
    {
        let b = self.rr(ins.op_b & 0xff, MemoryAccessPosition::B);
        let a = self.rr(ins.op_a as u32, MemoryAccessPosition::A);
        (a, b, 0)
    }

    /// Executes a sign extension of a byte (`c == 0`) or half-word; returns `(a, b, c)`.
    fn execute_sext(&mut self, ins: &Instruction) -> (r: (u32, u32, u32))
        requires
            clk_ok(old(self)@),
            ins.opcode is SEXT,
        ensures
            (final(self)@, None::<u32>, r.0, r.1, r.2) == spec_misc_step(old(self)@, *ins),
    {
        let b = self.rr(ins.op_b & 0xff, MemoryAccessPosition::B);
        let a = sext(b, ins.op_c);
        self.rw(ins.op_a as u32, a, MemoryAccessPosition::A);
        (a, b, ins.op_c)
    }

    /// Executes a swap of the bytes within each half-word; returns `(a, b, c)`.
    fn execute_wsbh(&mut self, ins: &Instruction) -> (r: (u32, u32, u32))
        requires
            clk_ok(old(self)@),
            ins.opcode is WSBH,
        ensures
            (final(self)@, None::<u32>, r.0, r.1, r.2) == spec_misc_step(old(self)@, *ins),
    {
        let b = self.rr(ins.op_b & 0xff, MemoryAccessPosition::B);
        let a = wsbh(b);
        self.rw(ins.op_a as u32, a, MemoryAccessPosition::A);
        (a, b, 0)
    }

    /// Executes a bit-field extraction; returns `(a, b, c)`.
    fn execute_ext(&mut self, ins: &Instruction) -> (r: (u32, u32, u32))
        requires
            clk_ok(old(self)@),
            ins.opcode is EXT,
            ext_defined(ins.op_c),
        ensures
            (final(self)@, None::<u32>, r.0, r.1, r.2) == spec_misc_step(old(self)@, *ins),
    {
        let b = self.rr(ins.op_b & 0xff, MemoryAccessPosition::B);
        let a = ext(b, ins.op_c);
        self.rw(ins.op_a as u32, a, MemoryAccessPosition::A);
        (a, b, ins.op_c)
    }

    /// Executes a bit-field insertion; returns the previous value of the destination and
    /// `(a, b, c)`.
    fn execute_ins(&mut self, ins: &Instruction) -> (r: (Option<u32>, u32, u32, u32))
        requires
            clk_ok(old(self)@),
            ins.opcode is INS,
            ins_defined(ins.op_c),
        ensures
            (final(self)@, r.0, r.1, r.2, r.3) == spec_misc_step(old(self)@, *ins),
    {
        let b = self.rr(ins.op_b & 0xff, MemoryAccessPosition::B);
        let prev = self.peek(ins.op_a as u32);
        let a = crate::misc::ins(prev, b, ins.op_c);
        self.rw(ins.op_a as u32, a, MemoryAccessPosition::A);
        (Some(prev), a, b, ins.op_c)
    }
}

} // verus!

verus! {

// ---------------------------------------------------------------------------------------------
// One instruction.
// ---------------------------------------------------------------------------------------------

/// The arguments of a system call: its number is taken from V0 without an access record, then
/// A1 is read in slot C and A0 in slot B. Returns the state after the reads, the number, and
/// the values of A0 and A1.
pub open spec fn syscall_args(s: StateModel) -> (StateModel, u32, u32, u32) {
    let id = peek(s, 2);
    let s1 = read_at(s, 5, MemoryAccessPosition::C);
    let a1 = rv(s, 5);
    let a0 = rv(s1, 4);
    (read_at(s1, 4, MemoryAccessPosition::B), id, a0, a1)
}

/// The end of a cycle: the program counter moves on to `next_pc`, the following one becomes
/// `next_next_pc`, and the clock advances by one cycle's five slots.
pub open spec fn advance(s: StateModel, next_pc: u32, next_next_pc: u32, delay_slot: bool) -> StateModel {
    StateModel { pc: next_pc, next_pc: next_next_pc, clk: (s.clk + 5) as u32, next_is_delayslot: delay_slot, ..s }
}

/// The state at the start of an instruction: no slot accesses recorded yet.
pub open spec fn start_operation(s: StateModel) -> StateModel {
    StateModel { accesses: no_accesses(), slot_accesses: Seq::empty(), ..s }
}

/// What executing `ins` does: the new state and the operand values `(a, b, c, hi_or_prev_a)`
/// of the instruction, or the error it fails with. Without a jump, the instruction after
/// `next_pc` is the one four bytes further on. For a system call, `a` is what it returns in V0,
/// `b` and `c` its arguments, and `hi_or_prev_a` its number.
#[verifier::opaque]
pub open spec fn spec_execute(s0: StateModel, ins: Instruction) -> Result<(StateModel, (u32, u32, u32, Option<u32>)), ExecutionError> {
    let s = start_operation(s0);
    let next_pc = s.next_pc;
    let nn = word_of(s.next_pc + 4);
    if ins.spec_is_alu() {
        let (s1, hi, a, b, c) = spec_alu_step(s, ins);
        Ok((advance(s1, next_pc, nn, false), (a, b, c, hi)))
    } else if ins.spec_is_load() {
        let (s1, a, b, c) = spec_load_step(s, ins);
        Ok((advance(s1, next_pc, nn, false), (a, b, c, None)))
    } else if ins.spec_is_store() {
        let (s1, a, b, c) = spec_store_step(s, ins);
        Ok((advance(s1, next_pc, nn, false), (a, b, c, None)))
    } else if ins.spec_is_branch() {
        let (s1, a, b, c, target) = spec_branch_step(s, ins, next_pc, nn);
        Ok((advance(s1, next_pc, target, true), (a, b, c, None)))
    } else if ins.spec_is_jump() {
        let (s1, a, b, c, target) = spec_jump_step(s, ins);
        Ok((advance(s1, next_pc, target, true), (a, b, c, None)))
    } else if ins.spec_is_misc() {
        let (s1, hi, a, b, c) = spec_misc_step(s, ins);
        Ok((advance(s1, next_pc, nn, false), (a, b, c, hi)))
    } else if ins.opcode is SYSCALL {
        let (s1, id, a0, a1) = syscall_args(s);
        let code = SyscallCode::spec_from_u32(id);
        match spec_syscall(s1, code, id, a0, a1) {
            Ok((s2, ret, npc)) => {
                let v0 = match ret {
                    Some(v) => v,
                    None => id,
                };
                let s3 = reg_write_at(s2, 2, v0, MemoryAccessPosition::A);
                Ok((
                    advance(StateModel { exited: s3.exited || code is HALT, ..s3 }, npc, (npc + 4) as u32, false),
                    (v0, a0, a1, Some(id)),
                ))
            },
            Err(e) => Err(e),
        }
    } else {
        Err(ExecutionError::UnsupportedInstruction(ins.op_c))
    }
}

/// The state an instruction that fails leaves: the slot accesses are cleared, and a system call
/// has read its arguments; nothing else changes, so the program counters and the clock stay.
pub open spec fn failed_state(s: StateModel, ins: Instruction) -> StateModel {
    if ins.opcode is SYSCALL {
        syscall_args(start_operation(s)).0
    } else {
        start_operation(s)
    }
}

/// What executing `ins` does to the state, or the error it fails with.
pub open spec fn spec_operation(s: StateModel, ins: Instruction) -> Result<StateModel, ExecutionError> {
    match spec_execute(s, ins) {
        Ok((s1, _)) => Ok(s1),
        Err(e) => Err(e),
    }
}

/// Whether executing `ins` can proceed without a fault: the clock has room for the cycle,
/// division has a valid divisor, accumulators stay in range, a trap's operands differ, bit
/// fields fit, a relative jump's base fits, and a system call's buffer and continuation fit.
#[verifier::opaque]
pub open spec fn operation_defined(s: StateModel, ins: Instruction) -> bool {
    &&& s.clk + 5 <= u32::MAX
    &&& ins.spec_is_alu() ==> alu_step_defined(s, ins)
    &&& ins.opcode is JumpDirect ==> s.pc + 4 <= u32::MAX
    &&& ins.spec_is_misc() ==> misc_step_defined(s, ins)
    &&& ins.opcode is SYSCALL ==> {
        let (s1, id, a0, a1) = syscall_args(s);
        let code = SyscallCode::spec_from_u32(id);
        &&& syscall_defined(s1, code, a1)
        &&& (spec_syscall(s1, code, id, a0, a1) is Ok && !(code is HALT)) ==> s.next_pc + 4 <= u32::MAX
    }
}

/// Starting an instruction changes nothing the checks for faults read.
proof fn lemma_defined_at_start(s: StateModel, ins: Instruction)
    requires
        operation_defined(s, ins),
    ensures
        operation_defined(start_operation(s), ins),
        clk_ok(start_operation(s)),
{
    reveal(operation_defined);
    let s0 = start_operation(s);
    assert(alu_operands(s0, ins).1 == alu_operands(s, ins).1);
    assert(alu_operands(s0, ins).2 == alu_operands(s, ins).2);
    assert(cb_operands(s0, ins).1 == cb_operands(s, ins).1);
    assert(cb_operands(s0, ins).2 == cb_operands(s, ins).2);
    assert(peek(cb_operands(s0, ins).0, 32) == peek(cb_operands(s, ins).0, 32));
    assert(peek(cb_operands(s0, ins).0, 33) == peek(cb_operands(s, ins).0, 33));
    assert(syscall_args(s0).0.memory == syscall_args(s).0.memory);
    assert(syscall_args(s0).0.next_pc == syscall_args(s).0.next_pc);
}

/// An instruction leaves the cycle count and the shard number as they are.
pub proof fn lemma_operation_frame(s: StateModel, ins: Instruction)
    requires
        spec_operation(s, ins) is Ok,
    ensures
        spec_operation(s, ins)->Ok_0.global_clk == s.global_clk,
        spec_operation(s, ins)->Ok_0.current_shard == s.current_shard,
{
    reveal(spec_execute);
}

impl ExecutionState {
    /// Executes one instruction: its operation, then the move to the next program counter and
    /// the next cycle.
    #[verifier::spinoff_prover]
    #[verifier::rlimit(50)]
    pub fn execute_operation(&mut self, ins: &Instruction) -> (r: Result<(u32, u32, u32, Option<u32>), ExecutionError>)
        requires
            operation_defined(old(self)@, *ins),
        ensures
            match spec_execute(old(self)@, *ins) {
                Ok((s, values)) => r == Ok::<(u32, u32, u32, Option<u32>), ExecutionError>(values) && final(self)@ == s,
                Err(e) => {
                    &&& r == Err::<(u32, u32, u32, Option<u32>), ExecutionError>(e)
                    &&& final(self)@ == failed_state(old(self)@, *ins)
                    &&& final(self)@.pc == old(self)@.pc
                    &&& final(self)@.next_pc == old(self)@.next_pc
                    &&& final(self)@.clk == old(self)@.clk
                },
            },
    {
        proof {
            lemma_defined_at_start(old(self)@, *ins);
        }
        self.memory_accesses = MemoryAccessRecord::none();
        self.slot_accesses = Vec::new();
        proof {
            reveal(spec_execute);
            reveal(operation_defined);
            assert(self@ == start_operation(old(self)@));
        }
        let mut next_pc = self.next_pc;
        let mut next_next_pc = self.next_pc.wrapping_add(4);
        let mut delay_slot = false;
        let values: (u32, u32, u32, Option<u32>);
        if ins.is_alu_instruction() {
            let (hi, a, b, c) = self.execute_alu(ins);
            values = (a, b, c, hi);
        } else if ins.is_memory_load_instruction() {
            let (a, b, c) = self.execute_load(ins);
            values = (a, b, c, None);
        } else if ins.is_memory_store_instruction() {
            let (a, b, c) = self.execute_store(ins);
            values = (a, b, c, None);
        } else if ins.is_branch_instruction() {
            let (a, b, c, target) = self.execute_branch(ins, next_pc, next_next_pc);
            next_next_pc = target;
            delay_slot = true;
            values = (a, b, c, None);
        } else if ins.is_jump_instruction() {
            let (a, b, c, target) = match ins.opcode {
                Opcode::Jump => self.execute_jump(ins),
                Opcode::Jumpi => self.execute_jumpi(ins),
                _ => self.execute_jump_direct(ins),
            };
            next_next_pc = target;
            delay_slot = true;
            values = (a, b, c, None);
        } else if ins.is_misc_instruction() {
            let (hi, a, b, c) = self.execute_misc(ins);
            values = (a, b, c, hi);
        } else if ins.is_syscall_instruction() {
            let id = self.peek(2);
            let a1 = self.rr(5, MemoryAccessPosition::C);
            let a0 = self.rr(4, MemoryAccessPosition::B);
            let code = SyscallCode::from_u32(id);
            let (ret, npc) = match self.execute_syscall(code, id, a0, a1) {
                Ok(v) => v,
                Err(e) => {
                    return Err(e);
                },
            };
            let v0 = match ret {
                Some(v) => v,
                None => id,
            };
            self.rw(2, v0, MemoryAccessPosition::A);
            if matches!(code, SyscallCode::HALT) {
                self.exited = true;
            }
            next_pc = npc;
            next_next_pc = npc + 4;
            values = (v0, a0, a1, Some(id));
        } else {
            return Err(ExecutionError::UnsupportedInstruction(ins.op_c));
        }
        self.pc = next_pc;
        self.next_pc = next_next_pc;
        self.next_is_delayslot = delay_slot;
        self.clk = self.clk + 5;
        Ok(values)
    }
}

} // verus!

verus! {

// ---------------------------------------------------------------------------------------------
// Faults.
// ---------------------------------------------------------------------------------------------

/// The error a cycle reports for an instruction it cannot carry out: a trap on equal operands
/// is a breakpoint; a division by zero, an accumulator or bit field out of range, or an address
/// or clock past the end of its range is a computation the executor does not implement.
pub open spec fn fault_error(ins: Instruction) -> ExecutionError {
    if ins.opcode is TEQ {
        ExecutionError::Breakpoint()
    } else {
        ExecutionError::Unimplemented()
    }
}

fn alu_ok(opcode: Opcode, b: u32, c: u32) -> (r: bool)
    ensures
        r == crate::alu::alu_defined(opcode, b, c),
{
    match opcode {
        Opcode::DIV | Opcode::MOD => c != 0 && !(b == 0x8000_0000 && c == 0xffff_ffff),
        Opcode::DIVU | Opcode::MODU => c != 0,
        _ => true,
    }
}

fn is_supported_syscall(code: SyscallCode) -> (r: bool)
    ensures
        r == (code is HALT || code is WRITE || code is SYS_WRITE || code is SYS_READ || code is SYS_FCNTL
            || code is SYS_MMAP || code is SYS_MMAP2 || code is COMMIT || code is COMMIT_DEFERRED_PROOFS),
{
    matches!(
        code,
        SyscallCode::HALT | SyscallCode::WRITE | SyscallCode::SYS_WRITE | SyscallCode::SYS_READ
            | SyscallCode::SYS_FCNTL | SyscallCode::SYS_MMAP | SyscallCode::SYS_MMAP2 | SyscallCode::COMMIT
            | SyscallCode::COMMIT_DEFERRED_PROOFS
    )
}

impl ExecutionState {
    /// Whether `ins` can be executed from this state without a fault.
    pub fn operation_ok(&self, ins: &Instruction) -> (r: bool)
        ensures
            r == operation_defined(self@, *ins),
    {
        proof {
            reveal(operation_defined);
        }
        if self.clk > u32::MAX - 5 {
            return false;
        }
        if ins.is_alu_instruction() {
            let (b, c) = if !ins.imm_c {
                (self.value_before(ins.op_b & 0xff), self.value_before(ins.op_c & 0xff))
            } else if !ins.imm_b {
                (self.value_before(ins.op_b & 0xff), ins.op_c)
            } else {
                (ins.op_b, ins.op_c)
            };
            alu_ok(ins.opcode, b, c)
        } else if matches!(ins.opcode, Opcode::JumpDirect) {
            self.pc <= u32::MAX - 4
        } else if ins.is_misc_instruction() {
            let rb = ins.op_b & 0xff;
            let rc = ins.op_c & 0xff;
            let b = self.value_before(rb);
            let c = self.value_before(rc);
            match ins.opcode {
                Opcode::MADDU | Opcode::MSUBU => {
                    let lo = if rb == 32 || rc == 32 { self.value_before(32) } else { self.peek(32) };
                    let hi = if rb == 33 || rc == 33 { self.value_before(33) } else { self.peek(33) };
                    proof {
                        crate::misc::lemma_product_bound(b, c);
                        assert(hi as int * 0x1_0000_0000 <= 0xffff_ffff_0000_0000) by (nonlinear_arith)
                            requires
                                hi <= 0xffff_ffff,
                        ;
                    }
                    let p: u64 = (b as u64) * (c as u64);
                    let acc: u64 = (hi as u64) * 0x1_0000_0000u64 + lo as u64;
                    if matches!(ins.opcode, Opcode::MADDU) {
                        p <= u64::MAX - acc
                    } else {
                        p <= acc
                    }
                },
                Opcode::TEQ => self.value_before(ins.op_a as u32) != b,
                Opcode::EXT => (ins.op_c >> 5u32) as u64 + (ins.op_c & 0x1f) as u64 + 1 < 32,
                Opcode::INS => {
                    let msb = ins.op_c >> 5u32;
                    let lsb = ins.op_c & 0x1f;
                    lsb <= msb && (msb - lsb) as u64 + 1 < 32
                },
                _ => true,
            }
        } else if ins.is_syscall_instruction() {
            let id = self.peek(2);
            let a0 = self.value_before(4);
            let a1 = self.value_before(5);
            let code = SyscallCode::from_u32(id);
            let buffer_ok = match code {
                SyscallCode::WRITE => (a1 as u64) + (self.peek(6) as u64) <= 0x1_0000_0000u64,
                SyscallCode::SYS_WRITE => (a1 as u64) + (self.value_before(6) as u64) <= 0x1_0000_0000u64,
                _ => true,
            };
            let continues = is_supported_syscall(code) && !matches!(code, SyscallCode::HALT);
            buffer_ok && (!continues || self.next_pc <= u32::MAX - 4)
        } else {
            true
        }
    }
}

} // verus!

verus! {

// ---------------------------------------------------------------------------------------------
// The executor.
// ---------------------------------------------------------------------------------------------

/// Options of the core executor.
pub struct ZKMCoreOpts {
    /// The number of cycles in a shard.
    pub shard_size: usize,
    /// The number of shards an `execute` call runs before it returns.
    pub shard_batch_size: usize,
}

impl Default for ZKMCoreOpts {
    fn default() -> (r: Self)
        ensures
            r.shard_size == 0x40_0000,
            r.shard_batch_size == 16,
    {
        ZKMCoreOpts { shard_size: 0x40_0000, shard_batch_size: 16 }
    }
}

/// An executor of a program.
pub struct Executor {
    /// The program.
    pub program: Program,
    /// The state of the execution.
    pub state: ExecutionState,
    /// How the execution is recorded.
    pub executor_mode: ExecutorMode,
    /// The number of clock ticks in a shard: five per cycle.
    pub shard_size: u32,
    /// The number of shards an `execute` call runs before it returns; 0 runs to the end.
    pub shard_batch_size: u32,
    /// The number of cycles after which the execution fails.
    pub max_cycles: Option<u64>,
    /// Whether deferred proofs are verified.
    pub deferred_proof_verification: DeferredProofVerification,
    /// The record of the current shard.
    pub record: ExecutionRecord,
    /// The records of the shards closed so far.
    pub records: Vec<ExecutionRecord>,
    /// Whether the end of a traced or checkpointed execution records the events of the global
    /// memory argument.
    pub emit_global_memory_events: bool,
    /// While tracing, the first and last access of every address the CPU accessed since the
    /// current record was opened.
    pub local_memory_access: BTreeMap<u32, MemoryLocalEvent>,
}

/// What a run depends on besides the state: the program and the options of the executor.
pub struct RunSetup {
    pub program: Program,
    pub shard_size: u32,
    pub shard_batch_size: u32,
    pub max_cycles: Option<u64>,
}

impl Executor {
    /// The program and options of the executor.
    pub open spec fn setup(self) -> RunSetup {
        RunSetup {
            program: self.program,
            shard_size: self.shard_size,
            shard_batch_size: self.shard_batch_size,
            max_cycles: self.max_cycles,
        }
    }
}

/// What the cycle loop needs of a program: its instructions, counted in bytes from its base
/// address, end at or below 2^32.
pub open spec fn program_fits(p: Program) -> bool {
    p.pc_base + p.instructions@.len() * 4 <= 0x1_0000_0000 && p.instructions@.len() * 4 <= usize::MAX
}

/// Whether the execution is over: the program counter is 0 or past the program, or the program
/// halted. The size of the program is counted in bytes modulo 2^32.
pub open spec fn is_done(p: Program, s: StateModel) -> bool {
    ||| s.pc == 0
    ||| s.exited
    ||| word_of(s.pc - p.pc_base) >= (p.instructions@.len() * 4) % 0x1_0000_0000
}

/// The state when execution starts: if no cycle has run yet, the clock is reset and the
/// program's memory image is loaded.
pub open spec fn initialized(p: Program, s: StateModel) -> StateModel {
    if s.global_clk == 0 {
        StateModel { clk: 0, memory: s.memory.union_prefer_right(image_records(p.image@)), ..s }
    } else {
        s
    }
}

/// The end of a cycle's bookkeeping: the cycle count advances, and unless the next instruction
/// is a delay slot, a shard whose clock has reached the shard size is closed and a new one
/// begins at clock 0.
pub open spec fn after_cycle(shard_size: u32, s: StateModel) -> StateModel {
    let s1 = StateModel { global_clk: (s.global_clk + 1) as u64, ..s };
    if !s1.next_is_delayslot && s1.clk >= shard_size {
        StateModel { current_shard: (s1.current_shard + 1) as u32, clk: 0, ..s1 }
    } else {
        s1
    }
}

/// The trace of an instruction that ran from `s`: the clock, shard and program counter it
/// started with, the program counters it moved to, its operand values and accesses, and for a
/// system call the call's number; every cycle that returns has exit code 0.
pub open spec fn trace_of(s: StateModel, ins: Instruction) -> CycleTrace {
    let (s1, (a, b, c, hi)) = spec_execute(s, ins)->Ok_0;
    CycleTrace {
        clk: s.clk,
        shard: s.current_shard,
        pc: s.pc,
        next_pc: s1.pc,
        next_next_pc: s1.next_pc,
        a,
        b,
        c,
        hi_or_prev_a: hi,
        accesses: s1.accesses,
        exit_code: 0,
        syscall_code: if ins.opcode is SYSCALL { SyscallCode::spec_from_u32(peek(s, 2)).spec_code() % 0x1_0000 } else { 0 },
    }
}

/// The trace of the cycle from `s`, or `None` if its instruction does not run: the cycle
/// fails before the instruction or the instruction fails.
pub open spec fn cycle_trace(e: RunSetup, s: StateModel) -> Option<CycleTrace> {
    let ins = e.program.spec_fetch(s.pc);
    if s.global_clk == u64::MAX || s.current_shard == u32::MAX || !operation_defined(s, ins) || spec_execute(s, ins) is Err {
        None
    } else {
        Some(trace_of(s, ins))
    }
}

/// The events of an instruction that ran can be built from its trace.
proof fn lemma_events_defined(s: StateModel, ins: Instruction)
    requires
        operation_defined(s, ins),
        spec_execute(s, ins) is Ok,
        traceable(ins),
    ensures
        events_defined(ins, trace_of(s, ins)),
{
    reveal(spec_execute);
    reveal(operation_defined);
    let t = trace_of(s, ins);
    let s0 = start_operation(s);
    if ins.spec_is_alu() {
        let (s1, b, c) = alu_operands(s0, ins);
        if ins.opcode is CLZ {
            vstd::std_specs::bits::axiom_u32_leading_zeros(b);
        } else if ins.opcode is CLO {
            vstd::std_specs::bits::axiom_u32_leading_zeros(!b);
        }
    } else if ins.spec_is_misc() {
        let s1 = read_at(s0, reg_of(ins.op_b), MemoryAccessPosition::B);
        let b = rv(s0, reg_of(ins.op_b));
        if ins.opcode is EXT {
            lemma_ext_as_shifts(b, ins.op_c);
        } else if ins.opcode is INS {
            lemma_ins_as_rotations(peek(s1, ins.op_a as u32), b, ins.op_c);
        }
    }
}

/// The operand-slot accesses of the cycle from `s`, as (address, record before, record
/// after): those of its instruction if it started, whether it then succeeded or failed.
pub open spec fn cycle_slot_accesses(e: RunSetup, s: StateModel) -> Seq<(u32, MemoryRecord, MemoryRecord)> {
    let ins = e.program.spec_fetch(s.pc);
    if s.global_clk == u64::MAX || s.current_shard == u32::MAX || !operation_defined(s, ins) {
        Seq::empty()
    } else {
        match spec_execute(s, ins) {
            Ok((s1, _)) => s1.slot_accesses,
            Err(_) => failed_state(s, ins).slot_accesses,
        }
    }
}

/// The local memory events after the cycle from `s`, before any bump: a tracing executor notes
/// the cycle's slot accesses; any other notes nothing.
pub open spec fn cycle_local(mode: ExecutorMode, e: RunSetup, s: StateModel, m: Map<u32, MemoryLocalEvent>) -> Map<u32, MemoryLocalEvent> {
    if mode is Trace {
        note_all(m, cycle_slot_accesses(e, s))
    } else {
        m
    }
}

/// Whether the cycle from `s` closes its shard: its instruction runs, is not followed by a
/// delay slot, and brings the clock to the shard size.
pub open spec fn closes_shard(e: RunSetup, s: StateModel) -> bool {
    &&& cycle_trace(e, s) is Some
    &&& !spec_operation(s, e.program.spec_fetch(s.pc))->Ok_0.next_is_delayslot
    &&& spec_operation(s, e.program.spec_fetch(s.pc))->Ok_0.clk >= e.shard_size
}

/// One cycle of the executor: the state after it and whether the execution is done, or the
/// error it fails with. A cycle count or shard number at the end of its range ends the
/// execution with `ExceededCycleLimit`, as does reaching the cycle limit.
pub open spec fn spec_cycle(e: RunSetup, s: StateModel) -> Result<(StateModel, bool), ExecutionError> {
    let ins = e.program.spec_fetch(s.pc);
    if s.global_clk == u64::MAX || s.current_shard == u32::MAX {
        Err(ExecutionError::ExceededCycleLimit(s.global_clk))
    } else if !operation_defined(s, ins) {
        Err(fault_error(ins))
    } else {
        match spec_operation(s, ins) {
            Err(err) => Err(err),
            Ok(s1) => {
                let s2 = after_cycle(e.shard_size, s1);
                match e.max_cycles {
                    Some(m) => if s2.global_clk >= m {
                        Err(ExecutionError::ExceededCycleLimit(m))
                    } else {
                        Ok((s2, is_done(e.program, s2)))
                    },
                    None => Ok((s2, is_done(e.program, s2))),
                }
            },
        }
    }
}

/// At most `n` cycles from `s`, stopping when the execution is done, a cycle fails, or (with
/// a nonzero batch size) the shard number has advanced by the batch size from `start_shard`.
/// `None` if none of these happened within `n` cycles.
pub open spec fn spec_batch(e: RunSetup, start_shard: u32, s: StateModel, n: nat) -> Option<Result<(StateModel, bool), ExecutionError>>
    decreases n,
{
    if n == 0 {
        None
    } else {
        match spec_cycle(e, s) {
            Err(err) => Some(Err(err)),
            Ok((s1, done)) => if done || (e.shard_batch_size > 0 && s1.current_shard - start_shard >= e.shard_batch_size) {
                Some(Ok((s1, done)))
            } else {
                spec_batch(e, start_shard, s1, (n - 1) as nat)
            },
        }
    }
}

/// At most `n` cycles from `s`, stopping when the execution is done or a cycle fails. `None`
/// if neither happened within `n` cycles.
pub open spec fn spec_run(e: RunSetup, s: StateModel, n: nat) -> Option<Result<StateModel, ExecutionError>>
    decreases n,
{
    if n == 0 {
        None
    } else {
        match spec_cycle(e, s) {
            Err(err) => Some(Err(err)),
            Ok((s1, done)) => if done {
                Some(Ok(s1))
            } else {
                spec_run(e, s1, (n - 1) as nat)
            },
        }
    }
}

/// What the cycle from `s` records while tracing: the events of its instruction if the
/// instruction runs, else nothing.
pub open spec fn cycle_recorded(e: RunSetup, s: StateModel) -> EventDeltas {
    match cycle_trace(e, s) {
        Some(t) => cycle_events(e.program.spec_fetch(s.pc), t),
        None => no_events(),
    }
}

/// What at most `n` cycles of a batch from `s` record while tracing, cycle after cycle, up to
/// where `spec_batch` stops.
pub open spec fn batch_events(e: RunSetup, start_shard: u32, s: StateModel, n: nat) -> EventDeltas
    decreases n,
{
    if n == 0 {
        no_events()
    } else {
        match spec_cycle(e, s) {
            Ok((s1, done)) => if done || (e.shard_batch_size > 0 && s1.current_shard - start_shard >= e.shard_batch_size) {
                cycle_recorded(e, s)
            } else {
                then_events(cycle_recorded(e, s), batch_events(e, start_shard, s1, (n - 1) as nat))
            },
            Err(_) => cycle_recorded(e, s),
        }
    }
}

/// What at most `n` cycles from `s` record while tracing, cycle after cycle, up to where
/// `spec_run` stops.
pub open spec fn run_events(e: RunSetup, s: StateModel, n: nat) -> EventDeltas
    decreases n,
{
    if n == 0 {
        no_events()
    } else {
        match spec_cycle(e, s) {
            Ok((s1, done)) => if done {
                cycle_recorded(e, s)
            } else {
                then_events(cycle_recorded(e, s), run_events(e, s1, (n - 1) as nat))
            },
            Err(_) => cycle_recorded(e, s),
        }
    }
}

/// Whether `closed` is the record `open` as a bump closes it: while tracing, the local memory
/// events `local` are appended to its local events in increasing order of address; otherwise
/// it is closed as it is.
pub open spec fn closed_record(mode: ExecutorMode, open: ExecutionRecord, local: Map<u32, MemoryLocalEvent>, closed: ExecutionRecord) -> bool {
    if mode is Trace {
        let n = open.cpu_local_memory_access@.len() as int;
        &&& closed.events() == open.events()
        &&& closed.global_memory_initialize_events@ == open.global_memory_initialize_events@
        &&& closed.global_memory_finalize_events@ == open.global_memory_finalize_events@
        &&& closed.cpu_local_memory_access@.len() >= n
        &&& closed.cpu_local_memory_access@.take(n) == open.cpu_local_memory_access@
        &&& drained_in_order(local, closed.cpu_local_memory_access@.skip(n))
    } else {
        closed == open
    }
}

impl Executor {
    /// The events an executor has recorded: those of the closed shards' records, then those of
    /// the current record.
    pub open spec fn all_events(self) -> EventDeltas {
        then_events(records_events(self.records@), self.record.events())
    }
}

/// Whether an executor in `mode` went from the recorded events `old_e` to `new_e` while
/// running cycles that record `d`: a tracing executor appends `d`, any other records nothing.
pub open spec fn recorded(mode: ExecutorMode, old_e: EventDeltas, new_e: EventDeltas, d: EventDeltas) -> bool {
    new_e == then_events(old_e, if mode is Trace { d } else { no_events() })
}

proof fn lemma_recorded_nothing(mode: ExecutorMode, e: EventDeltas)
    ensures
        recorded(mode, e, e, no_events()),
{
    lemma_no_events_unit(e);
}

proof fn lemma_recorded_twice(mode: ExecutorMode, e0: EventDeltas, e1: EventDeltas, e2: EventDeltas, d1: EventDeltas, d2: EventDeltas)
    requires
        recorded(mode, e0, e1, d1),
        recorded(mode, e1, e2, d2),
    ensures
        recorded(mode, e0, e2, then_events(d1, d2)),
{
    if mode is Trace {
        lemma_then_events_associative(e0, d1, d2);
    } else {
        lemma_no_events_unit(no_events());
        lemma_then_events_associative(e0, no_events(), no_events());
    }
}

/// The result of a batch that hands over records, without the records.
pub open spec fn batch_result(r: Result<(Vec<ExecutionRecord>, bool), ExecutionError>) -> Result<bool, ExecutionError> {
    match r {
        Ok((_, done)) => Ok(done),
        Err(e) => Err(e),
    }
}

/// Whether an outcome of a batch is the result `r` and, on success, the state `s`.
pub open spec fn batch_outcome(o: Option<Result<(StateModel, bool), ExecutionError>>, r: Result<bool, ExecutionError>, s: StateModel) -> bool {
    match o {
        Some(Ok((s1, done))) => r == Ok::<bool, ExecutionError>(done) && s == s1,
        Some(Err(err)) => r == Err::<bool, ExecutionError>(err),
        None => false,
    }
}

/// Whether an outcome of a run is the result `r` and, on success, the state `s`.
pub open spec fn run_outcome(o: Option<Result<StateModel, ExecutionError>>, r: Result<(), ExecutionError>, s: StateModel) -> bool {
    match o {
        Some(Ok(s1)) => r is Ok && s == s1,
        Some(Err(err)) => r == Err::<(), ExecutionError>(err),
        None => false,
    }
}

/// Whether two executors run the same program with the same options.
pub open spec fn same_setup(a: Executor, b: Executor) -> bool {
    &&& a.setup() == b.setup()
    &&& a.deferred_proof_verification == b.deferred_proof_verification
    &&& a.emit_global_memory_events == b.emit_global_memory_events
}

/// A program counter that is not past the end of a program that fits addresses one of its
/// instructions.
pub proof fn lemma_running_pc_fetchable(p: Program, s: StateModel)
    requires
        program_fits(p),
        !is_done(p, s),
    ensures
        p.fetchable(s.pc),
{
    let len4 = p.instructions@.len() * 4;
    if len4 == 0x1_0000_0000 {
        assert(len4 % 0x1_0000_0000 == 0);
    } else {
        assert(len4 % 0x1_0000_0000 == len4);
        if s.pc < p.pc_base {
            assert((s.pc - p.pc_base) % 0x1_0000_0000 == s.pc - p.pc_base + 0x1_0000_0000);
        } else {
            assert((s.pc - p.pc_base) % 0x1_0000_0000 == s.pc - p.pc_base);
        }
    }
}

} // verus!

verus! {

impl Executor {
    /// An executor of `program` with the given options, at the program's entry point with empty
    /// memory, tracing events, verifying deferred proofs, and with no cycle limit.
    pub fn new(program: Program, opts: ZKMCoreOpts) -> (r: Self)
        requires
            (opts.shard_size as u32) * 4 <= u32::MAX,
        ensures
            r.program == program,
            r.state@ == ExecutionState::spec_new(program.pc_start, program.next_pc),
            r.executor_mode == ExecutorMode::Trace,
            r.shard_size == (opts.shard_size as u32) * 4,
            r.shard_batch_size == opts.shard_batch_size as u32,
            r.max_cycles == None::<u64>,
            r.deferred_proof_verification == DeferredProofVerification::Enabled,
            r.record.is_empty(),
            r.records@.len() == 0,
            r.emit_global_memory_events,
            r.local_memory_access@ == Map::<u32, MemoryLocalEvent>::empty(),
    {
        let state = ExecutionState::new(program.pc_start, program.next_pc);
        Executor {
            program,
            state,
            executor_mode: ExecutorMode::Trace,
            shard_size: (opts.shard_size as u32) * 4,
            shard_batch_size: opts.shard_batch_size as u32,
            max_cycles: None,
            deferred_proof_verification: DeferredProofVerification::Enabled,
            record: ExecutionRecord::new(),
            records: Vec::new(),
            emit_global_memory_events: true,
            local_memory_access: BTreeMap::new(),
        }
    }

    /// An executor that resumes `state`; the deferred proofs were verified by the execution that
    /// produced it, so they are not verified again.
    pub fn recover(program: Program, state: ExecutionState, opts: ZKMCoreOpts) -> (r: Self)
        requires
            (opts.shard_size as u32) * 4 <= u32::MAX,
        ensures
            r.program == program,
            r.state@ == state@,
            r.executor_mode == ExecutorMode::Trace,
            r.shard_size == (opts.shard_size as u32) * 4,
            r.shard_batch_size == opts.shard_batch_size as u32,
            r.max_cycles == None::<u64>,
            r.deferred_proof_verification == DeferredProofVerification::Disabled,
            r.record.is_empty(),
            r.records@.len() == 0,
            r.emit_global_memory_events,
            r.local_memory_access@ == Map::<u32, MemoryLocalEvent>::empty(),
    {
        let mut runtime = Self::new(program, opts);
        runtime.state = state;
        runtime.deferred_proof_verification = DeferredProofVerification::Disabled;
        runtime
    }

    /// The current value of a register, without recording an access.
    pub fn register(&self, register: Register) -> (r: u32)
        ensures
            r == peek(self.state@, register.spec_index()),
    {
        self.state.peek(register.index())
    }

    /// The current value of a word, without recording an access.
    pub fn word(&self, addr: u32) -> (r: u32)
        ensures
            r == peek(self.state@, addr),
    {
        self.state.peek(addr)
    }

    /// The current value of a byte, without recording an access.
    pub fn byte(&self, addr: u32) -> (r: u8)
        ensures
            r == peek_byte(self.state@, addr),
    {
        self.state.byte(addr)
    }

    /// The timestamp of an access in slot `position` of the current cycle.
    pub fn timestamp(&self, position: &MemoryAccessPosition) -> (r: u32)
        requires
            self.state.clk + position.spec_offset() <= u32::MAX,
        ensures
            r == self.state.clk + position.spec_offset(),
    {
        self.state.clk + position.offset()
    }

    /// The current shard.
    pub fn shard(&self) -> (r: u32)
        ensures
            r == self.state.current_shard,
    {
        self.state.current_shard
    }

    /// Reads a word in `shard` at `timestamp`, recording the access.
    pub fn mr(&mut self, addr: u32, shard: u32, timestamp: u32) -> (r: MemoryReadRecord)
        ensures
            same_setup(*final(self), *old(self)),
            final(self).executor_mode == old(self).executor_mode,
            final(self).state@ == after_read(old(self).state@, addr, shard, timestamp),
            r == (MemoryReadRecord {
                value: current_record(old(self).state@, addr).value,
                shard,
                timestamp,
                prev_shard: current_record(old(self).state@, addr).shard,
                prev_timestamp: current_record(old(self).state@, addr).timestamp,
            }),
            final(self).local_memory_access@ == if old(self).executor_mode is Trace {
                note_local(
                    old(self).local_memory_access@,
                    addr,
                    current_record(old(self).state@, addr),
                    MemoryRecord { value: current_record(old(self).state@, addr).value, shard, timestamp },
                )
            } else {
                old(self).local_memory_access@
            },
    {
        let rec = self.state.mr(addr, shard, timestamp);
        if matches!(self.executor_mode, ExecutorMode::Trace) {
            let prev = MemoryRecord { value: rec.value, shard: rec.prev_shard, timestamp: rec.prev_timestamp };
            let cur = MemoryRecord { value: rec.value, shard, timestamp };
            note_local_access(&mut self.local_memory_access, addr, prev, cur);
        }
        rec
    }

    /// Writes a word in `shard` at `timestamp`, recording the access.
    pub fn mw(&mut self, addr: u32, value: u32, shard: u32, timestamp: u32) -> (r: MemoryWriteRecord)
        ensures
            same_setup(*final(self), *old(self)),
            final(self).executor_mode == old(self).executor_mode,
            final(self).state@ == after_write(old(self).state@, addr, value, shard, timestamp),
            r == (MemoryWriteRecord {
                value,
                shard,
                timestamp,
                prev_value: current_record(old(self).state@, addr).value,
                prev_shard: current_record(old(self).state@, addr).shard,
                prev_timestamp: current_record(old(self).state@, addr).timestamp,
            }),
            final(self).local_memory_access@ == if old(self).executor_mode is Trace {
                note_local(
                    old(self).local_memory_access@,
                    addr,
                    current_record(old(self).state@, addr),
                    MemoryRecord { value, shard, timestamp },
                )
            } else {
                old(self).local_memory_access@
            },
    {
        let rec = self.state.mw(addr, value, shard, timestamp);
        if matches!(self.executor_mode, ExecutorMode::Trace) {
            let prev = MemoryRecord { value: rec.prev_value, shard: rec.prev_shard, timestamp: rec.prev_timestamp };
            let cur = MemoryRecord { value, shard, timestamp };
            note_local_access(&mut self.local_memory_access, addr, prev, cur);
        }
        rec
    }

    /// Reads a word in slot `position` of the current cycle.
    pub fn mr_cpu(&mut self, addr: u32, position: MemoryAccessPosition) -> (r: u32)
        requires
            clk_ok(old(self).state@),
        ensures
            same_setup(*final(self), *old(self)),
            final(self).executor_mode == old(self).executor_mode,
            r == current_record(old(self).state@, addr).value,
            final(self).state@ == read_at(old(self).state@, addr, position),
    {
        self.state.rr(addr, position)
    }

    /// Writes a word in slot `position` of the current cycle. The address must be aligned to
    /// four bytes; registers are written with `rw`.
    pub fn mw_cpu(&mut self, addr: u32, value: u32, position: MemoryAccessPosition)
        requires
            clk_ok(old(self).state@),
            addr % 4 == 0,
        ensures
            same_setup(*final(self), *old(self)),
            final(self).executor_mode == old(self).executor_mode,
            final(self).state@ == write_at(old(self).state@, addr, value, position),
    {
        self.state.mw_cpu(addr, value, position)
    }

    /// Reads a register in slot `position` of the current cycle.
    pub fn rr(&mut self, register: Register, position: MemoryAccessPosition) -> (r: u32)
        requires
            clk_ok(old(self).state@),
        ensures
            same_setup(*final(self), *old(self)),
            final(self).executor_mode == old(self).executor_mode,
            r == current_record(old(self).state@, register.spec_index()).value,
            final(self).state@ == read_at(old(self).state@, register.spec_index(), position),
    {
        self.state.rr(register.index(), position)
    }

    /// Writes a register in slot `position` of the current cycle; the zero register always
    /// receives 0.
    pub fn rw(&mut self, register: Register, value: u32, position: MemoryAccessPosition)
        requires
            clk_ok(old(self).state@),
        ensures
            same_setup(*final(self), *old(self)),
            final(self).executor_mode == old(self).executor_mode,
            final(self).state@ == reg_write_at(old(self).state@, register.spec_index(), value, position),
    {
        self.state.rw(register.index(), value, position)
    }
}

} // verus!

verus! {

impl Executor {
    /// Resets the clock and loads the program's memory image.
    fn initialize(&mut self)
        ensures
            same_setup(*final(self), *old(self)),
            final(self).executor_mode == old(self).executor_mode,
            final(self).record == old(self).record,
            final(self).records@ == old(self).records@,
            final(self).state@ == (StateModel {
                clk: 0,
                memory: old(self).state@.memory.union_prefer_right(image_records(old(self).program.image@)),
                ..old(self).state@
            }),
    {
        self.state.clk = 0;
        load_image(&mut self.state.memory, &self.program.image);
    }

    /// At the end of a traced or checkpointed execution that emits them, appends the events of
    /// the global memory argument to the current record: the initialize events and the finalize
    /// events of the final memory. Nothing else changes.
    fn postprocess(&mut self)
        ensures
            same_setup(*final(self), *old(self)),
            final(self).executor_mode == old(self).executor_mode,
            final(self).state@ == old(self).state@,
            final(self).records@ == old(self).records@,
            final(self).record.events() == old(self).record.events(),
            old(self).emit_global_memory_events && (old(self).executor_mode is Trace || old(self).executor_mode is Checkpoint) ==> {
                let n_init = old(self).record.global_memory_initialize_events@.len() as int;
                let n_fin = old(self).record.global_memory_finalize_events@.len() as int;
                let init = final(self).record.global_memory_initialize_events@;
                let fin = final(self).record.global_memory_finalize_events@;
                &&& init.len() >= n_init && init.take(n_init) == old(self).record.global_memory_initialize_events@
                &&& fin.len() >= n_fin && fin.take(n_fin) == old(self).record.global_memory_finalize_events@
                &&& initialize_events(old(self).state@.memory, old(self).program.image@, old(self).state@.uninitialized_memory, init.skip(n_init))
                &&& finalize_events(old(self).state@.memory, fin.skip(n_fin))
            },
            !(old(self).emit_global_memory_events && (old(self).executor_mode is Trace || old(self).executor_mode is Checkpoint))
                ==> final(self).record == old(self).record,
    {
        if self.emit_global_memory_events && matches!(self.executor_mode, ExecutorMode::Trace | ExecutorMode::Checkpoint) {
            let (mut init, mut fin) = global_memory_events(&self.state.memory, &self.program.image, &self.state.uninitialized_memory);
            let ghost init_events = init@;
            let ghost fin_events = fin@;
            self.record.global_memory_initialize_events.append(&mut init);
            self.record.global_memory_finalize_events.append(&mut fin);
            proof {
                let n_init = old(self).record.global_memory_initialize_events@.len() as int;
                let n_fin = old(self).record.global_memory_finalize_events@.len() as int;
                assert(self.record.global_memory_initialize_events@.skip(n_init) =~= init_events);
                assert(self.record.global_memory_finalize_events@.skip(n_fin) =~= fin_events);
                assert(self.record.events() =~= old(self).record.events());
            }
        }
    }

    /// Closes the current record: it joins the records of the closed shards, and an empty
    /// record begins.
    pub fn bump_record(&mut self)
        ensures
            same_setup(*final(self), *old(self)),
            final(self).executor_mode == old(self).executor_mode,
            final(self).state@ == old(self).state@,
            final(self).records@.len() == old(self).records@.len() + 1,
            final(self).records@.drop_last() == old(self).records@,
            final(self).record.is_empty(),
            final(self).all_events() == old(self).all_events(),
            closed_record(old(self).executor_mode, old(self).record, old(self).local_memory_access@, final(self).records@.last()),
            final(self).local_memory_access@ == if old(self).executor_mode is Trace {
                Map::<u32, MemoryLocalEvent>::empty()
            } else {
                old(self).local_memory_access@
            },
    {
        if matches!(self.executor_mode, ExecutorMode::Trace) {
            drain_local_events(&mut self.local_memory_access, &mut self.record.cpu_local_memory_access);
        }
        let ghost before_swap = self.record;
        let mut closed = ExecutionRecord::new();
        std::mem::swap(&mut self.record, &mut closed);
        self.records.push(closed);
        proof {
            lemma_empty_record_events(self.record);
            assert(self.records@.drop_last() == old(self).records@);
            assert(before_swap.events() =~= old(self).record.events());
            lemma_no_events_unit(records_events(self.records@));
        }
    }

    /// Executes one cycle; returns whether the execution is done. While tracing, a cycle whose
    /// instruction runs records its events.
    fn execute_cycle(&mut self) -> (r: Result<bool, ExecutionError>)
        requires
            program_fits(old(self).program),
            old(self).program.fetchable(old(self).state.pc),
            old(self).executor_mode is Trace ==> traceable(old(self).program.spec_fetch(old(self).state.pc)),
        ensures
            same_setup(*final(self), *old(self)),
            final(self).executor_mode == old(self).executor_mode,
            match spec_cycle(old(self).setup(), old(self).state@) {
                Ok((s, done)) => r == Ok::<bool, ExecutionError>(done) && final(self).state@ == s,
                Err(err) => r == Err::<bool, ExecutionError>(err),
            },
            recorded(old(self).executor_mode, old(self).all_events(), final(self).all_events(), cycle_recorded(old(self).setup(), old(self).state@)),
            !closes_shard(old(self).setup(), old(self).state@) ==> final(self).records@ == old(self).records@,
            closes_shard(old(self).setup(), old(self).state@) ==> {
                &&& final(self).records@.len() == old(self).records@.len() + 1
                &&& final(self).records@.drop_last() == old(self).records@
                &&& final(self).record.is_empty()
            },
            !closes_shard(old(self).setup(), old(self).state@) ==> final(self).local_memory_access@ == cycle_local(
                old(self).executor_mode,
                old(self).setup(),
                old(self).state@,
                old(self).local_memory_access@,
            ),
            closes_shard(old(self).setup(), old(self).state@) && old(self).executor_mode is Trace ==> {
                let n = old(self).record.cpu_local_memory_access@.len() as int;
                let closed = final(self).records@.last().cpu_local_memory_access@;
                &&& final(self).local_memory_access@ == Map::<u32, MemoryLocalEvent>::empty()
                &&& closed.len() >= n
                &&& closed.take(n) == old(self).record.cpu_local_memory_access@
                &&& drained_in_order(
                    cycle_local(old(self).executor_mode, old(self).setup(), old(self).state@, old(self).local_memory_access@),
                    closed.skip(n),
                )
            },
            closes_shard(old(self).setup(), old(self).state@) && !(old(self).executor_mode is Trace)
                ==> final(self).local_memory_access@ == old(self).local_memory_access@,
    {
        let ins = self.program.fetch(self.state.pc);
        if self.state.global_clk == u64::MAX || self.state.current_shard == u32::MAX {
            return Err(ExecutionError::ExceededCycleLimit(self.state.global_clk));
        }
        if !self.state.operation_ok(&ins) {
            if matches!(ins.opcode, Opcode::TEQ) {
                return Err(ExecutionError::Breakpoint());
            } else {
                return Err(ExecutionError::Unimplemented());
            }
        }
        let clk = self.state.clk;
        let pc = self.state.pc;
        let shard = self.state.current_shard;
        let syscall_code = if ins.is_syscall_instruction() {
            SyscallCode::from_u32(self.state.peek(2)).syscall_id()
        } else {
            0
        };
        let step = self.state.execute_operation(&ins);
        if matches!(self.executor_mode, ExecutorMode::Trace) {
            note_local_accesses(&mut self.local_memory_access, &self.state.slot_accesses);
        }
        let (a, b, c, hi_or_prev_a) = match step {
            Ok(values) => values,
            Err(err) => {
                return Err(err);
            },
        };
        proof {
            lemma_operation_frame(old(self).state@, ins);
        }
        if matches!(self.executor_mode, ExecutorMode::Trace) {
            let t = CycleTrace {
                clk,
                shard,
                pc,
                next_pc: self.state.pc,
                next_next_pc: self.state.next_pc,
                a,
                b,
                c,
                hi_or_prev_a,
                accesses: self.state.memory_accesses,
                exit_code: 0,
                syscall_code,
            };
            proof {
                lemma_events_defined(old(self).state@, ins);
            }
            let ghost r0 = self.record;
            self.record.emit_events(&ins, &t);
            proof {
                lemma_extended_events(r0, self.record, cycle_recorded(old(self).setup(), old(self).state@));
                lemma_then_events_associative(records_events(self.records@), r0.events(), cycle_recorded(old(self).setup(), old(self).state@));
            }
        } else {
            proof {
                lemma_no_events_unit(self.all_events());
            }
        }
        self.state.global_clk = self.state.global_clk + 1;
        if !self.state.next_is_delayslot && self.state.clk >= self.shard_size {
            self.state.current_shard = self.state.current_shard + 1;
            self.state.clk = 0;
            self.bump_record();
        }
        if let Some(max_cycles) = self.max_cycles {
            if self.state.global_clk >= max_cycles {
                return Err(ExecutionError::ExceededCycleLimit(max_cycles));
            }
        }
        let len4: usize = self.program.instructions.len() * 4;
        let size: u32 = if len4 as u64 == 0x1_0000_0000u64 {
            0
        } else {
            len4 as u32
        };
        let done = self.state.pc == 0 || self.state.exited || self.state.pc.wrapping_sub(self.program.pc_base) >= size;
        Ok(done)
    }
}

} // verus!

verus! {

/// Whether a batch from `s` runs exactly `n` cycles and ends with the result `r`, in the state
/// `s_end` on success.
pub open spec fn batch_ran(e: RunSetup, start_shard: u32, s: StateModel, n: nat, r: Result<bool, ExecutionError>, s_end: StateModel) -> bool {
    &&& n >= 1
    &&& spec_batch(e, start_shard, s, (n - 1) as nat) is None
    &&& batch_outcome(spec_batch(e, start_shard, s, n), r, s_end)
}

/// A successful cycle advances the cycle count by one and the shard number by at most one.
pub proof fn lemma_cycle_progress(e: RunSetup, s: StateModel)
    requires
        spec_cycle(e, s) is Ok,
    ensures
        spec_cycle(e, s)->Ok_0.0.global_clk == s.global_clk + 1,
        s.current_shard <= spec_cycle(e, s)->Ok_0.0.current_shard <= s.current_shard + 1,
{
    lemma_operation_frame(s, e.program.spec_fetch(s.pc));
}

/// A batch that runs `n` cycles and does not end the execution leaves the rest of the run to
/// the state it reached; one that ends it, or fails, is the whole run.
pub proof fn lemma_batch_run(e: RunSetup, start_shard: u32, s: StateModel, n: nat, m: nat)
    requires
        n >= 1,
        spec_batch(e, start_shard, s, (n - 1) as nat) is None,
        spec_batch(e, start_shard, s, n) is Some,
    ensures
        match spec_batch(e, start_shard, s, n) {
            Some(Ok((s1, false))) => spec_run(e, s, n + m) == spec_run(e, s1, m) && s1.global_clk > s.global_clk
                && s1.current_shard >= s.current_shard,
            Some(Ok((s1, true))) => spec_run(e, s, n) == Some(Ok::<StateModel, ExecutionError>(s1)),
            Some(Err(err)) => spec_run(e, s, n) == Some(Err::<StateModel, ExecutionError>(err)),
            None => true,
        },
    decreases n,
{
    lemma_cycle_progress_if_ok(e, s);
    if n == 1 {
        if spec_cycle(e, s) is Ok {
            let s1 = spec_cycle(e, s)->Ok_0.0;
            assert(spec_run(e, s, 1 + m) == spec_run(e, s1, m) || spec_cycle(e, s)->Ok_0.1);
        }
    } else {
        assert(spec_cycle(e, s) matches Ok((s1, false)) && !(e.shard_batch_size > 0 && s1.current_shard - start_shard >= e.shard_batch_size));
        let s1 = spec_cycle(e, s)->Ok_0.0;
        assert(spec_batch(e, start_shard, s, n) == spec_batch(e, start_shard, s1, (n - 1) as nat));
        assert(spec_batch(e, start_shard, s, (n - 1) as nat) == spec_batch(e, start_shard, s1, (n - 2) as nat));
        lemma_batch_run(e, start_shard, s1, (n - 1) as nat, m);
        assert(spec_run(e, s, n + m) == spec_run(e, s1, ((n - 1) + m) as nat));
        assert(spec_run(e, s, n) == spec_run(e, s1, (n - 1) as nat));
    }
}

/// The events of a batch that stops are the first events of the run: a batch that ends
/// without the execution being done is followed by the rest of the run, and one that ends the
/// execution records what the run records.
pub proof fn lemma_batch_events_run(e: RunSetup, start_shard: u32, s: StateModel, n: nat, m: nat)
    requires
        n >= 1,
        spec_batch(e, start_shard, s, (n - 1) as nat) is None,
        spec_batch(e, start_shard, s, n) is Some,
    ensures
        match spec_batch(e, start_shard, s, n) {
            Some(Ok((s1, false))) => run_events(e, s, n + m) == then_events(batch_events(e, start_shard, s, n), run_events(e, s1, m)),
            Some(_) => run_events(e, s, n) == batch_events(e, start_shard, s, n),
            None => true,
        },
    decreases n,
{
    if n == 1 {
        if spec_cycle(e, s) is Ok {
            let s1 = spec_cycle(e, s)->Ok_0.0;
            assert(run_events(e, s, 1 + m) == then_events(cycle_recorded(e, s), run_events(e, s1, m)) || spec_cycle(e, s)->Ok_0.1);
        }
    } else {
        assert(spec_cycle(e, s) matches Ok((s1, false)) && !(e.shard_batch_size > 0 && s1.current_shard - start_shard >= e.shard_batch_size));
        let s1 = spec_cycle(e, s)->Ok_0.0;
        let d = cycle_recorded(e, s);
        assert(spec_batch(e, start_shard, s, n) == spec_batch(e, start_shard, s1, (n - 1) as nat));
        assert(spec_batch(e, start_shard, s, (n - 1) as nat) == spec_batch(e, start_shard, s1, (n - 2) as nat));
        lemma_batch_events_run(e, start_shard, s1, (n - 1) as nat, m);
        assert(batch_events(e, start_shard, s, n) == then_events(d, batch_events(e, start_shard, s1, (n - 1) as nat)));
        assert(run_events(e, s, n + m) == then_events(d, run_events(e, s1, ((n - 1) + m) as nat)));
        assert(run_events(e, s, n) == then_events(d, run_events(e, s1, (n - 1) as nat)));
        if let Some(Ok((s2, false))) = spec_batch(e, start_shard, s, n) {
            lemma_then_events_associative(d, batch_events(e, start_shard, s1, (n - 1) as nat), run_events(e, s2, m));
        }
    }
}

proof fn lemma_cycle_progress_if_ok(e: RunSetup, s: StateModel)
    ensures
        spec_cycle(e, s) is Ok ==> spec_cycle(e, s)->Ok_0.0.global_clk == s.global_clk + 1
            && s.current_shard <= spec_cycle(e, s)->Ok_0.0.current_shard <= s.current_shard + 1,
{
    if spec_cycle(e, s) is Ok {
        lemma_cycle_progress(e, s);
    }
}

impl Executor {
    /// Executes cycles until the execution is done, a cycle fails, or (if the batch size is not
    /// 0) `shard_batch_size` more shards have begun; returns whether the execution is done. The
    /// first call loads the program's memory image. While tracing, the events of the cycles
    /// are appended to the record.
    pub fn execute(&mut self) -> (r: Result<bool, ExecutionError>)
        requires
            program_fits(old(self).program),
            old(self).program.fetchable(old(self).state.pc),
            old(self).executor_mode is Trace ==> old(self).program.spec_traceable(),
        ensures
            same_setup(*final(self), *old(self)),
            final(self).executor_mode == old(self).executor_mode,
            exists|n: nat|
                #[trigger] batch_ran(old(self).setup(), old(self).state.current_shard, initialized(old(self).program, old(self).state@), n, r, final(self).state@)
                && recorded(
                    old(self).executor_mode,
                    old(self).all_events(),
                    final(self).all_events(),
                    batch_events(old(self).setup(), old(self).state.current_shard, initialized(old(self).program, old(self).state@), n),
                ),
            r == Ok::<bool, ExecutionError>(false) ==> final(self).program.fetchable(final(self).state.pc),
            r is Ok ==> final(self).record.cpu_events@.len() == 0,
            r == Ok::<bool, ExecutionError>(true) && old(self).emit_global_memory_events
                && (old(self).executor_mode is Trace || old(self).executor_mode is Checkpoint) ==> {
                let last = final(self).records@.last();
                &&& final(self).records@.len() > 0
                &&& exists|k: int|
                    0 <= k <= last.global_memory_initialize_events@.len() && initialize_events(
                        final(self).state@.memory,
                        final(self).program.image@,
                        final(self).state@.uninitialized_memory,
                        #[trigger] last.global_memory_initialize_events@.skip(k),
                    )
                &&& exists|k: int|
                    0 <= k <= last.global_memory_finalize_events@.len() && finalize_events(
                        final(self).state@.memory,
                        #[trigger] last.global_memory_finalize_events@.skip(k),
                    )
            },
    {
        let start_shard = self.state.current_shard;
        if self.state.global_clk == 0 {
            self.initialize();
        }
        let ghost e = old(self).setup();
        let ghost mode = old(self).executor_mode;
        let ghost s0 = self.state@;
        let ghost mut k: nat = 0;
        let ghost mut acc = no_events();
        proof {
            lemma_recorded_nothing(mode, self.all_events());
            assert forall|m: nat| #[trigger] batch_events(e, start_shard, self.state@, m) == batch_events(e, start_shard, s0, m)
                && then_events(acc, batch_events(e, start_shard, self.state@, m)) == batch_events(e, start_shard, s0, k + m) by {
                lemma_no_events_unit(batch_events(e, start_shard, s0, m));
            }
        }
        loop
            invariant
                self.setup() == e,
                self.deferred_proof_verification == old(self).deferred_proof_verification,
                self.emit_global_memory_events == old(self).emit_global_memory_events,
                self.executor_mode == mode,
                mode == old(self).executor_mode,
                e == old(self).setup(),
                s0 == initialized(old(self).program, old(self).state@),
                start_shard == old(self).state.current_shard,
                program_fits(self.program),
                self.program.fetchable(self.state.pc),
                mode is Trace ==> self.program.spec_traceable(),
                self.state.current_shard >= start_shard,
                forall|m: nat| #[trigger] spec_batch(e, start_shard, self.state@, m) == spec_batch(e, start_shard, s0, k + m),
                recorded(mode, old(self).all_events(), self.all_events(), acc),
                forall|m: nat| #[trigger] then_events(acc, batch_events(e, start_shard, self.state@, m)) == batch_events(e, start_shard, s0, k + m),
            decreases u64::MAX - self.state.global_clk,
        {
            let ghost cur = self.state@;
            let ghost rec = self.all_events();
            let ghost d = cycle_recorded(e, cur);
            proof {
                lemma_cycle_progress_if_ok(e, cur);
                assert(spec_batch(e, start_shard, cur, 0) == spec_batch(e, start_shard, s0, k + 0));
                assert(spec_batch(e, start_shard, cur, 1) == spec_batch(e, start_shard, s0, k + 1));
                assert(then_events(acc, batch_events(e, start_shard, cur, 1)) == batch_events(e, start_shard, s0, k + 1));
                let i = (self.state.pc - self.program.pc_base) / 4;
                assert(mode is Trace ==> traceable(self.program.instructions@[i]));
            }
            let step = self.execute_cycle();
            proof {
                lemma_recorded_twice(mode, old(self).all_events(), rec, self.all_events(), acc, d);
            }
            match step {
                Err(err) => {
                    proof {
                        assert(batch_ran(e, start_shard, s0, k + 1, step, self.state@));
                    }
                    return Err(err);
                },
                Ok(done) => {
                    if done || (self.shard_batch_size > 0 && self.state.current_shard - start_shard >= self.shard_batch_size) {
                        proof {
                            assert(batch_ran(e, start_shard, s0, k + 1, step, self.state@));
                        }
                        if !done {
                            proof {
                                lemma_running_pc_fetchable(self.program, self.state@);
                            }
                        }
                        if done {
                            self.postprocess();
                            self.bump_record();
                        }
                        if self.record.cpu_events.len() > 0 {
                            self.bump_record();
                        }
                        return Ok(done);
                    }
                    proof {
                        lemma_running_pc_fetchable(self.program, self.state@);
                        assert forall|m: nat| #[trigger] spec_batch(e, start_shard, self.state@, m) == spec_batch(e, start_shard, s0, (k + 1) + m) by {
                            assert(spec_batch(e, start_shard, cur, m + 1) == spec_batch(e, start_shard, s0, k + (m + 1)));
                            assert((k + 1) + m == k + (m + 1));
                        }
                        assert forall|m: nat| #[trigger] then_events(then_events(acc, d), batch_events(e, start_shard, self.state@, m)) == batch_events(e, start_shard, s0, (k + 1) + m) by {
                            assert(batch_events(e, start_shard, cur, m + 1) == then_events(d, batch_events(e, start_shard, self.state@, m)));
                            lemma_then_events_associative(acc, d, batch_events(e, start_shard, self.state@, m));
                            assert(then_events(acc, batch_events(e, start_shard, cur, m + 1)) == batch_events(e, start_shard, s0, k + (m + 1)));
                            assert((k + 1) + m == k + (m + 1));
                        }
                        k = k + 1;
                        acc = then_events(acc, d);
                    }
                },
            }
        }
    }
}

} // verus!

verus! {

impl Executor {
    /// Executes a batch while tracing, recording the global memory events at the end of the
    /// execution if `emit_global_memory_events`, and hands over the records of the closed
    /// shards, those closed before included, leaving none behind; returns them and whether the
    /// execution is done.
    pub fn execute_record(&mut self, emit_global_memory_events: bool) -> (r: Result<(Vec<ExecutionRecord>, bool), ExecutionError>)
        requires
            program_fits(old(self).program),
            old(self).program.fetchable(old(self).state.pc),
            old(self).program.spec_traceable(),
        ensures
            final(self).setup() == old(self).setup(),
            final(self).deferred_proof_verification == old(self).deferred_proof_verification,
            final(self).emit_global_memory_events == emit_global_memory_events,
            final(self).executor_mode == ExecutorMode::Trace,
            exists|n: nat|
                #[trigger] batch_ran(old(self).setup(), old(self).state.current_shard, initialized(old(self).program, old(self).state@), n, batch_result(r), final(self).state@)
                && match r {
                    Ok((records, _)) => {
                        &&& final(self).records@.len() == 0
                        &&& then_events(records_events(records@), final(self).record.events()) == then_events(
                            old(self).all_events(),
                            batch_events(old(self).setup(), old(self).state.current_shard, initialized(old(self).program, old(self).state@), n),
                        )
                    },
                    Err(_) => final(self).all_events() == then_events(
                        old(self).all_events(),
                        batch_events(old(self).setup(), old(self).state.current_shard, initialized(old(self).program, old(self).state@), n),
                    ),
                },
    {
        self.executor_mode = ExecutorMode::Trace;
        self.emit_global_memory_events = emit_global_memory_events;
        let ghost mid = *self;
        let step = self.execute();
        let ghost e = old(self).setup();
        let ghost s0 = initialized(old(self).program, old(self).state@);
        let ghost st = old(self).state.current_shard;
        let ghost n = choose|n: nat| #[trigger] batch_ran(e, st, s0, n, step, self.state@)
            && recorded(ExecutorMode::Trace, mid.all_events(), self.all_events(), batch_events(e, st, s0, n));
        match step {
            Ok(done) => {
                let mut records = Vec::new();
                std::mem::swap(&mut self.records, &mut records);
                let r = Ok((records, done));
                proof {
                    assert(batch_result(r) == step);
                    assert(batch_ran(e, st, s0, n, batch_result(r), self.state@));
                }
                r
            },
            Err(err) => {
                let r = Err(err);
                proof {
                    assert(batch_result(r) == step);
                    assert(batch_ran(e, st, s0, n, batch_result(r), self.state@));
                }
                r
            },
        }
    }

    /// Executes batches until the execution is done or fails.
    fn run_to_end(&mut self) -> (r: Result<(), ExecutionError>)
        requires
            program_fits(old(self).program),
            old(self).program.fetchable(old(self).state.pc),
            old(self).executor_mode is Trace ==> old(self).program.spec_traceable(),
        ensures
            same_setup(*final(self), *old(self)),
            final(self).executor_mode == old(self).executor_mode,
            exists|n: nat|
                #[trigger] run_outcome(spec_run(old(self).setup(), initialized(old(self).program, old(self).state@), n), r, final(self).state@)
                && recorded(
                    old(self).executor_mode,
                    old(self).all_events(),
                    final(self).all_events(),
                    run_events(old(self).setup(), initialized(old(self).program, old(self).state@), n),
                ),
    {
        let ghost e = old(self).setup();
        let ghost mode = old(self).executor_mode;
        let ghost s0 = initialized(old(self).program, old(self).state@);
        let ghost mut k: nat = 0;
        let ghost mut acc = no_events();
        proof {
            lemma_recorded_nothing(mode, self.all_events());
            assert forall|m: nat| #[trigger] then_events(acc, run_events(e, initialized(self.program, self.state@), m)) == run_events(e, s0, k + m) by {
                lemma_no_events_unit(run_events(e, s0, m));
            }
        }
        loop
            invariant
                self.setup() == e,
                self.deferred_proof_verification == old(self).deferred_proof_verification,
                self.emit_global_memory_events == old(self).emit_global_memory_events,
                self.executor_mode == mode,
                mode == old(self).executor_mode,
                e == old(self).setup(),
                s0 == initialized(old(self).program, old(self).state@),
                program_fits(self.program),
                self.program.fetchable(self.state.pc),
                mode is Trace ==> self.program.spec_traceable(),
                forall|m: nat| #[trigger] spec_run(e, initialized(self.program, self.state@), m) == spec_run(e, s0, k + m),
                recorded(mode, old(self).all_events(), self.all_events(), acc),
                forall|m: nat| #[trigger] then_events(acc, run_events(e, initialized(self.program, self.state@), m)) == run_events(e, s0, k + m),
            decreases u64::MAX - self.state.global_clk,
        {
            let ghost cur = initialized(self.program, self.state@);
            let ghost shard = self.state.current_shard;
            let ghost rec = self.all_events();
            let step = self.execute();
            let ghost n = choose|n: nat| #[trigger] batch_ran(e, shard, cur, n, step, self.state@)
                && recorded(mode, rec, self.all_events(), batch_events(e, shard, cur, n));
            let ghost b = batch_events(e, shard, cur, n);
            proof {
                lemma_batch_run(e, shard, cur, n, 0);
                lemma_batch_events_run(e, shard, cur, n, 0);
                assert(spec_run(e, cur, n + 0) == spec_run(e, s0, k + (n + 0)));
                assert(then_events(acc, run_events(e, cur, n + 0)) == run_events(e, s0, k + (n + 0)));
                lemma_recorded_twice(mode, old(self).all_events(), rec, self.all_events(), acc, b);
            }
            match step {
                Err(err) => {
                    proof {
                        assert(run_outcome(spec_run(e, s0, k + n), Err::<(), ExecutionError>(err), self.state@));
                    }
                    return Err(err);
                },
                Ok(done) => {
                    if done {
                        proof {
                            assert(run_outcome(spec_run(e, s0, k + n), Ok::<(), ExecutionError>(()), self.state@));
                        }
                        return Ok(());
                    }
                    proof {
                        assert forall|m: nat| #[trigger] spec_run(e, initialized(self.program, self.state@), m) == spec_run(e, s0, (k + n) + m) by {
                            lemma_batch_run(e, shard, cur, n, m);
                            assert(spec_run(e, cur, n + m) == spec_run(e, s0, k + (n + m)));
                            assert((k + n) + m == k + (n + m));
                        }
                        assert forall|m: nat| #[trigger] then_events(then_events(acc, b), run_events(e, initialized(self.program, self.state@), m)) == run_events(e, s0, (k + n) + m) by {
                            lemma_batch_run(e, shard, cur, n, m);
                            lemma_batch_events_run(e, shard, cur, n, m);
                            lemma_then_events_associative(acc, b, run_events(e, self.state@, m));
                            assert(then_events(acc, run_events(e, cur, n + m)) == run_events(e, s0, k + (n + m)));
                            assert((k + n) + m == k + (n + m));
                        }
                        k = k + n;
                        acc = then_events(acc, b);
                    }
                },
            }
        }
    }

    /// Executes the program to the end, tracing: the events of its cycles are appended to the
    /// record.
    pub fn run(&mut self) -> (r: Result<(), ExecutionError>)
        requires
            program_fits(old(self).program),
            old(self).program.fetchable(old(self).state.pc),
            old(self).program.spec_traceable(),
        ensures
            same_setup(*final(self), *old(self)),
            final(self).executor_mode == ExecutorMode::Trace,
            exists|n: nat|
                #[trigger] run_outcome(spec_run(old(self).setup(), initialized(old(self).program, old(self).state@), n), r, final(self).state@)
                && final(self).all_events() == then_events(old(self).all_events(), run_events(old(self).setup(), initialized(old(self).program, old(self).state@), n)),
    {
        self.executor_mode = ExecutorMode::Trace;
        self.run_to_end()
    }

    /// Executes the program to the end without tracing; the record is left as it is.
    pub fn run_fast(&mut self) -> (r: Result<(), ExecutionError>)
        requires
            program_fits(old(self).program),
            old(self).program.fetchable(old(self).state.pc),
        ensures
            same_setup(*final(self), *old(self)),
            final(self).executor_mode == ExecutorMode::Simple,
            final(self).all_events() == old(self).all_events(),
            exists|n: nat| run_outcome(spec_run(old(self).setup(), initialized(old(self).program, old(self).state@), n), r, final(self).state@),
    {
        self.executor_mode = ExecutorMode::Simple;
        self.run_to_end()
    }

    /// Executes the program to the end without tracing or reporting; the record is left as it
    /// is.
    pub fn run_very_fast(&mut self) -> (r: Result<(), ExecutionError>)
        requires
            program_fits(old(self).program),
            old(self).program.fetchable(old(self).state.pc),
        ensures
            same_setup(*final(self), *old(self)),
            final(self).executor_mode == ExecutorMode::Simple,
            final(self).all_events() == old(self).all_events(),
            exists|n: nat| run_outcome(spec_run(old(self).setup(), initialized(old(self).program, old(self).state@), n), r, final(self).state@),
    {
        self.executor_mode = ExecutorMode::Simple;
        self.run_to_end()
    }
}

/// Aligns an address to the word that contains it.
pub fn align(addr: u32) -> (r: u32)
    ensures
        r == addr - addr % 4,
{
    addr - addr % 4
}

} // verus!
