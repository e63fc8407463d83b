//! The record of a traced execution: one CPU event per cycle, and the events of each
//! instruction together with the auxiliary ALU events their proofs depend on.
use vstd::prelude::*;

use std::collections::BTreeMap;

use crate::alu::spec_ror;
use crate::decode::spec_decode;
use crate::dependencies::{
    branch_add_events, branch_lt_events, cloclz_events, cloclz_operand, divrem_add_events,
    divrem_lt_events, divrem_mul_event, emit_branch_dependencies, emit_cloclz_dependencies,
    emit_divrem_dependencies, emit_jump_dependencies, emit_memory_dependencies,
    emit_misc_dependencies, jump_add_events, memory_add_sub_events,
    misc_add_events, misc_dependencies_defined, misc_mul_events, misc_shl_events,
    misc_shr_events, InstrsRecord,
};
use crate::events::{
    zero_write_record, AluEvent, BranchEvent, CompAluEvent, CpuEvent, JumpEvent,
    MemInstrEvent, MemoryAccessRecord, MemoryInitializeFinalizeEvent, MemoryLocalEvent, MemoryRecord, MemoryRecordEnum,
    MemoryWriteRecord, MiscEvent, SyscallEvent,
};
use crate::instruction::Instruction;
use crate::misc::{ext_defined, field_lsb, field_msb, ins_defined, spec_ext, spec_ins};
use crate::opcode::Opcode;
use crate::program::Program;

verus! {

/// The record of a traced execution.
pub struct ExecutionRecord {
    /// One event per executed cycle, in order.
    pub cpu_events: Vec<CpuEvent>,
    /// The events of the instructions, grouped by kind, and the auxiliary events their proofs
    /// depend on.
    pub instrs_record: InstrsRecord,
    /// The initializations of the memory argument, recorded when an execution ends.
    pub global_memory_initialize_events: Vec<MemoryInitializeFinalizeEvent>,
    /// The finalizations of the memory argument, recorded when an execution ends.
    pub global_memory_finalize_events: Vec<MemoryInitializeFinalizeEvent>,
    /// The first and last access of every address the CPU accessed while the record was open.
    pub cpu_local_memory_access: Vec<MemoryLocalEvent>,
}

/// What a traced cycle is recorded from: the clock, shard and program counter it started
/// with, the program counters it moved to, its operand values and memory accesses, and for a
/// system call its exit code and number.
#[derive(Clone, Copy, Debug, PartialEq, Eq, Structural)]
pub struct CycleTrace {
    pub clk: u32,
    pub shard: u32,
    pub pc: u32,
    pub next_pc: u32,
    pub next_next_pc: u32,
    pub a: u32,
    pub b: u32,
    pub c: u32,
    /// The HI value written, or the previous value of the destination.
    pub hi_or_prev_a: Option<u32>,
    pub accesses: MemoryAccessRecord,
    pub exit_code: u32,
    pub syscall_code: u32,
}

/// What a cycle adds to each list of a record.
#[verifier::ext_equal]
pub struct EventDeltas {
    pub cpu: Seq<CpuEvent>,
    pub add_sub: Seq<AluEvent>,
    pub mul: Seq<CompAluEvent>,
    pub lt: Seq<AluEvent>,
    pub shl: Seq<AluEvent>,
    pub shr: Seq<AluEvent>,
    pub bitwise: Seq<AluEvent>,
    pub divrem: Seq<CompAluEvent>,
    pub cloclz: Seq<AluEvent>,
    pub movcond: Seq<AluEvent>,
    pub wsbh: Seq<AluEvent>,
    pub memory_instr: Seq<MemInstrEvent>,
    pub branch: Seq<BranchEvent>,
    pub jump: Seq<JumpEvent>,
    pub misc: Seq<MiscEvent>,
    pub syscall: Seq<SyscallEvent>,
}

/// Nothing added.
pub open spec fn no_events() -> EventDeltas {
    EventDeltas {
        cpu: Seq::empty(),
        add_sub: Seq::empty(),
        mul: Seq::empty(),
        lt: Seq::empty(),
        shl: Seq::empty(),
        shr: Seq::empty(),
        bitwise: Seq::empty(),
        divrem: Seq::empty(),
        cloclz: Seq::empty(),
        movcond: Seq::empty(),
        wsbh: Seq::empty(),
        memory_instr: Seq::empty(),
        branch: Seq::empty(),
        jump: Seq::empty(),
        misc: Seq::empty(),
        syscall: Seq::empty(),
    }
}

/// The additions of `d1` followed by those of `d2`, list by list.
pub open spec fn then_events(d1: EventDeltas, d2: EventDeltas) -> EventDeltas {
    EventDeltas {
        cpu: d1.cpu + d2.cpu,
        add_sub: d1.add_sub + d2.add_sub,
        mul: d1.mul + d2.mul,
        lt: d1.lt + d2.lt,
        shl: d1.shl + d2.shl,
        shr: d1.shr + d2.shr,
        bitwise: d1.bitwise + d2.bitwise,
        divrem: d1.divrem + d2.divrem,
        cloclz: d1.cloclz + d2.cloclz,
        movcond: d1.movcond + d2.movcond,
        wsbh: d1.wsbh + d2.wsbh,
        memory_instr: d1.memory_instr + d2.memory_instr,
        branch: d1.branch + d2.branch,
        jump: d1.jump + d2.jump,
        misc: d1.misc + d2.misc,
        syscall: d1.syscall + d2.syscall,
    }
}

/// Adding nothing before or after `d` adds what `d` adds.
pub proof fn lemma_no_events_unit(d: EventDeltas)
    ensures
        then_events(no_events(), d) == d,
        then_events(d, no_events()) == d,
{
    assert(then_events(no_events(), d) =~= d);
    assert(then_events(d, no_events()) =~= d);
}

/// Adding in turn is associative.
pub proof fn lemma_then_events_associative(d1: EventDeltas, d2: EventDeltas, d3: EventDeltas)
    ensures
        then_events(then_events(d1, d2), d3) == then_events(d1, then_events(d2, d3)),
{
    assert(then_events(then_events(d1, d2), d3) =~= then_events(d1, then_events(d2, d3)));
}

/// Whether `new_r` is `old_r` with the additions `d` appended to its lists.
pub open spec fn extended(old_r: ExecutionRecord, new_r: ExecutionRecord, d: EventDeltas) -> bool {
    let o = old_r.instrs_record;
    let n = new_r.instrs_record;
    &&& new_r.cpu_events@ =~= old_r.cpu_events@ + d.cpu
    &&& n.add_sub_events@ =~= o.add_sub_events@ + d.add_sub
    &&& n.mul_events@ =~= o.mul_events@ + d.mul
    &&& n.lt_events@ =~= o.lt_events@ + d.lt
    &&& n.shift_left_events@ =~= o.shift_left_events@ + d.shl
    &&& n.shift_right_events@ =~= o.shift_right_events@ + d.shr
    &&& n.bitwise_events@ =~= o.bitwise_events@ + d.bitwise
    &&& n.divrem_events@ =~= o.divrem_events@ + d.divrem
    &&& n.cloclz_events@ =~= o.cloclz_events@ + d.cloclz
    &&& n.movcond_events@ =~= o.movcond_events@ + d.movcond
    &&& n.wsbh_events@ =~= o.wsbh_events@ + d.wsbh
    &&& n.memory_instr_events@ =~= o.memory_instr_events@ + d.memory_instr
    &&& n.branch_events@ =~= o.branch_events@ + d.branch
    &&& n.jump_events@ =~= o.jump_events@ + d.jump
    &&& n.misc_events@ =~= o.misc_events@ + d.misc
    &&& n.syscall_events@ =~= o.syscall_events@ + d.syscall
    &&& new_r.global_memory_initialize_events@ =~= old_r.global_memory_initialize_events@
    &&& new_r.global_memory_finalize_events@ =~= old_r.global_memory_finalize_events@
    &&& new_r.cpu_local_memory_access@ =~= old_r.cpu_local_memory_access@
}

impl ExecutionRecord {
    /// The events of the record, list by list.
    pub open spec fn events(self) -> EventDeltas {
        let r = self.instrs_record;
        EventDeltas {
            cpu: self.cpu_events@,
            add_sub: r.add_sub_events@,
            mul: r.mul_events@,
            lt: r.lt_events@,
            shl: r.shift_left_events@,
            shr: r.shift_right_events@,
            bitwise: r.bitwise_events@,
            divrem: r.divrem_events@,
            cloclz: r.cloclz_events@,
            movcond: r.movcond_events@,
            wsbh: r.wsbh_events@,
            memory_instr: r.memory_instr_events@,
            branch: r.branch_events@,
            jump: r.jump_events@,
            misc: r.misc_events@,
            syscall: r.syscall_events@,
        }
    }
}

/// The events of a sequence of records, one record after the other.
pub open spec fn records_events(rs: Seq<ExecutionRecord>) -> EventDeltas
    decreases rs.len(),
{
    if rs.len() == 0 {
        no_events()
    } else {
        then_events(records_events(rs.drop_last()), rs.last().events())
    }
}

/// A record extended by `d` holds its events followed by `d`.
pub proof fn lemma_extended_events(r0: ExecutionRecord, r1: ExecutionRecord, d: EventDeltas)
    requires
        extended(r0, r1, d),
    ensures
        r1.events() == then_events(r0.events(), d),
{
    assert(r1.events() =~= then_events(r0.events(), d));
}

/// An empty record holds no events.
pub proof fn lemma_empty_record_events(r: ExecutionRecord)
    requires
        r.is_empty(),
    ensures
        r.events() == no_events(),
{
    assert(r.events() =~= no_events());
}

/// Extending by `d1` and then by `d2` extends by both in turn.
pub proof fn lemma_extended_twice(r0: ExecutionRecord, r1: ExecutionRecord, r2: ExecutionRecord, d1: EventDeltas, d2: EventDeltas)
    requires
        extended(r0, r1, d1),
        extended(r1, r2, d2),
    ensures
        extended(r0, r2, then_events(d1, d2)),
{
    let (a0, a2) = (r0.instrs_record, r2.instrs_record);
    assert(r2.cpu_events@ == r0.cpu_events@ + (d1.cpu + d2.cpu));
    assert(a2.add_sub_events@ == a0.add_sub_events@ + (d1.add_sub + d2.add_sub));
    assert(a2.mul_events@ == a0.mul_events@ + (d1.mul + d2.mul));
    assert(a2.lt_events@ == a0.lt_events@ + (d1.lt + d2.lt));
    assert(a2.shift_left_events@ == a0.shift_left_events@ + (d1.shl + d2.shl));
    assert(a2.shift_right_events@ == a0.shift_right_events@ + (d1.shr + d2.shr));
    assert(a2.bitwise_events@ == a0.bitwise_events@ + (d1.bitwise + d2.bitwise));
    assert(a2.divrem_events@ == a0.divrem_events@ + (d1.divrem + d2.divrem));
    assert(a2.cloclz_events@ == a0.cloclz_events@ + (d1.cloclz + d2.cloclz));
    assert(a2.movcond_events@ == a0.movcond_events@ + (d1.movcond + d2.movcond));
    assert(a2.wsbh_events@ == a0.wsbh_events@ + (d1.wsbh + d2.wsbh));
    assert(a2.memory_instr_events@ == a0.memory_instr_events@ + (d1.memory_instr + d2.memory_instr));
    assert(a2.branch_events@ == a0.branch_events@ + (d1.branch + d2.branch));
    assert(a2.jump_events@ == a0.jump_events@ + (d1.jump + d2.jump));
    assert(a2.misc_events@ == a0.misc_events@ + (d1.misc + d2.misc));
    assert(a2.syscall_events@ == a0.syscall_events@ + (d1.syscall + d2.syscall));
}

/// The write record in an access slot, and whether the slot holds a write.
pub open spec fn write_in(rec: Option<MemoryRecordEnum>) -> (MemoryWriteRecord, bool) {
    match rec {
        Some(MemoryRecordEnum::Write(w)) => (w, true),
        _ => (zero_write_record(), false),
    }
}

fn write_of(rec: Option<MemoryRecordEnum>) -> (r: (MemoryWriteRecord, bool))
    ensures
        r == write_in(rec),
{
    match rec {
        Some(MemoryRecordEnum::Write(w)) => (w, true),
        _ => (MemoryWriteRecord::zeroed(), false),
    }
}

/// The CPU event of a cycle.
pub open spec fn cpu_event_of(t: CycleTrace) -> CpuEvent {
    CpuEvent {
        clk: t.clk,
        pc: t.pc,
        next_pc: t.next_pc,
        next_next_pc: t.next_next_pc,
        a: t.a,
        a_record: t.accesses.a,
        b: t.b,
        b_record: t.accesses.b,
        c: t.c,
        c_record: t.accesses.c,
        hi: t.hi_or_prev_a,
        hi_record: t.accesses.hi,
        memory_record: t.accesses.memory,
        exit_code: t.exit_code,
    }
}

/// The HI value an event carries: the written HI, or 0.
pub open spec fn hi_of(t: CycleTrace) -> u32 {
    match t.hi_or_prev_a {
        Some(v) => v,
        None => 0,
    }
}

/// The ALU event of a cycle.
pub open spec fn alu_event_of(opcode: Opcode, t: CycleTrace) -> AluEvent {
    AluEvent { pc: t.pc, next_pc: t.next_pc, opcode, hi: hi_of(t), a: t.a, b: t.b, c: t.c }
}

/// The multiply or divide event of a cycle, with its HI write.
pub open spec fn comp_alu_event_of(opcode: Opcode, t: CycleTrace) -> CompAluEvent {
    CompAluEvent {
        clk: t.clk,
        shard: t.shard,
        pc: t.pc,
        next_pc: t.next_pc,
        opcode,
        hi: hi_of(t),
        a: t.a,
        b: t.b,
        c: t.c,
        hi_record: write_in(t.accesses.hi).0,
        hi_record_is_real: write_in(t.accesses.hi).1,
    }
}

/// The value of the first operand's register before an access that read or wrote it.
pub open spec fn prev_value_of(rec: MemoryRecordEnum) -> u32 {
    match rec {
        MemoryRecordEnum::Read(r) => r.value,
        MemoryRecordEnum::Write(w) => w.prev_value,
    }
}

/// The memory instruction event of a cycle that accessed memory and its first operand.
pub open spec fn mem_instr_event_of(opcode: Opcode, t: CycleTrace) -> MemInstrEvent {
    MemInstrEvent {
        shard: t.shard,
        clk: t.clk,
        pc: t.pc,
        next_pc: t.next_pc,
        opcode,
        a: t.a,
        b: t.b,
        c: t.c,
        mem_access: t.accesses.memory->Some_0,
        prev_a_val: prev_value_of(t.accesses.a->Some_0),
    }
}

/// The branch event of a cycle.
pub open spec fn branch_event_of(opcode: Opcode, t: CycleTrace) -> BranchEvent {
    BranchEvent { pc: t.pc, next_pc: t.next_pc, next_next_pc: t.next_next_pc, opcode, a: t.a, b: t.b, c: t.c }
}

/// The jump event of a cycle.
pub open spec fn jump_event_of(opcode: Opcode, t: CycleTrace) -> JumpEvent {
    JumpEvent { pc: t.pc, next_pc: t.next_pc, next_next_pc: t.next_next_pc, opcode, a: t.a, b: t.b, c: t.c }
}

/// The system call event of a cycle: the call's number and arguments, and the write of its
/// result.
pub open spec fn syscall_event_of(t: CycleTrace) -> SyscallEvent {
    SyscallEvent {
        pc: t.pc,
        next_pc: t.next_pc,
        shard: t.shard,
        clk: t.clk,
        a_record: write_in(t.accesses.a).0,
        a_record_is_real: write_in(t.accesses.a).1,
        syscall_id: t.syscall_code,
        arg1: t.b,
        arg2: t.c,
    }
}

/// The misc instruction event of a cycle.
pub open spec fn misc_event_of(opcode: Opcode, t: CycleTrace) -> MiscEvent {
    MiscEvent {
        clk: t.clk,
        shard: t.shard,
        pc: t.pc,
        next_pc: t.next_pc,
        opcode,
        a: t.a,
        b: t.b,
        c: t.c,
        prev_a: hi_of(t),
        hi_record: write_in(t.accesses.hi).0,
    }
}

/// What an ALU instruction records: its event in the list of its chip, with the events of its
/// dependencies; `MOD` and `MODU` record nothing.
pub open spec fn alu_events(opcode: Opcode, t: CycleTrace) -> EventDeltas {
    let e = alu_event_of(opcode, t);
    let ce = comp_alu_event_of(opcode, t);
    match opcode {
        Opcode::ADD | Opcode::SUB => EventDeltas { add_sub: seq![e], ..no_events() },
        Opcode::XOR | Opcode::OR | Opcode::AND | Opcode::NOR => EventDeltas { bitwise: seq![e], ..no_events() },
        Opcode::SLL => EventDeltas { shl: seq![e], ..no_events() },
        Opcode::SRL | Opcode::SRA | Opcode::ROR => EventDeltas { shr: seq![e], ..no_events() },
        Opcode::SLT | Opcode::SLTU => EventDeltas { lt: seq![e], ..no_events() },
        Opcode::MUL | Opcode::MULT | Opcode::MULTU => EventDeltas { mul: seq![ce], ..no_events() },
        Opcode::DIV | Opcode::DIVU => EventDeltas {
            divrem: seq![ce],
            add_sub: divrem_add_events(e),
            mul: seq![divrem_mul_event(e)],
            lt: divrem_lt_events(e),
            ..no_events()
        },
        Opcode::CLZ | Opcode::CLO => EventDeltas { cloclz: seq![e], shr: cloclz_events(e), ..no_events() },
        _ => no_events(),
    }
}

/// What an instruction records besides its CPU event.
pub open spec fn instruction_events(ins: Instruction, t: CycleTrace) -> EventDeltas {
    if ins.spec_is_alu() {
        alu_events(ins.opcode, t)
    } else if ins.spec_is_load() || ins.spec_is_store() {
        let e = mem_instr_event_of(ins.opcode, t);
        EventDeltas {
            memory_instr: seq![e],
            add_sub: memory_add_sub_events(e, e.mem_access.spec_current_record()),
            ..no_events()
        }
    } else if ins.spec_is_branch() {
        let e = branch_event_of(ins.opcode, t);
        EventDeltas { branch: seq![e], add_sub: branch_add_events(e), lt: branch_lt_events(e), ..no_events() }
    } else if ins.spec_is_jump() {
        let e = jump_event_of(ins.opcode, t);
        EventDeltas { jump: seq![e], add_sub: jump_add_events(e), ..no_events() }
    } else if ins.opcode is SYSCALL {
        EventDeltas { syscall: seq![syscall_event_of(t)], ..no_events() }
    } else if ins.spec_is_misc() {
        let e = misc_event_of(ins.opcode, t);
        EventDeltas {
            misc: seq![e],
            add_sub: misc_add_events(e),
            mul: misc_mul_events(e),
            shl: misc_shl_events(e),
            shr: misc_shr_events(e),
            ..no_events()
        }
    } else {
        no_events()
    }
}

/// What a traced cycle records: its CPU event, then its instruction's events.
pub open spec fn cycle_events(ins: Instruction, t: CycleTrace) -> EventDeltas {
    then_events(EventDeltas { cpu: seq![cpu_event_of(t)], ..no_events() }, instruction_events(ins, t))
}

/// Whether the events of a cycle can be built: a count of leading zeros or ones is below 32
/// where its operand is nonzero, a memory instruction accessed memory and its first operand,
/// and a misc instruction's dependencies reproduce its result.
pub open spec fn events_defined(ins: Instruction, t: CycleTrace) -> bool {
    &&& ins.spec_is_alu() && (ins.opcode is CLZ || ins.opcode is CLO)
        ==> (cloclz_operand(alu_event_of(ins.opcode, t)) != 0 ==> t.a <= 31)
    &&& ins.spec_is_load() || ins.spec_is_store() ==> t.accesses.memory is Some && t.accesses.a is Some
    &&& ins.spec_is_misc() ==> misc_dependencies_defined(misc_event_of(ins.opcode, t))
}

impl ExecutionRecord {
    /// Whether no event has been recorded.
    pub open spec fn is_empty(self) -> bool {
        let r = self.instrs_record;
        &&& self.cpu_events@.len() == 0
        &&& r.add_sub_events@.len() == 0
        &&& r.mul_events@.len() == 0
        &&& r.lt_events@.len() == 0
        &&& r.shift_left_events@.len() == 0
        &&& r.shift_right_events@.len() == 0
        &&& r.bitwise_events@.len() == 0
        &&& r.divrem_events@.len() == 0
        &&& r.cloclz_events@.len() == 0
        &&& r.movcond_events@.len() == 0
        &&& r.wsbh_events@.len() == 0
        &&& r.memory_instr_events@.len() == 0
        &&& r.branch_events@.len() == 0
        &&& r.jump_events@.len() == 0
        &&& r.misc_events@.len() == 0
        &&& r.syscall_events@.len() == 0
        &&& self.global_memory_initialize_events@.len() == 0
        &&& self.global_memory_finalize_events@.len() == 0
        &&& self.cpu_local_memory_access@.len() == 0
    }

    /// An empty record.
    pub fn new() -> (r: Self)
        ensures
            r.is_empty(),
    {
        ExecutionRecord {
            cpu_events: Vec::new(),
            instrs_record: InstrsRecord::new(),
            global_memory_initialize_events: Vec::new(),
            global_memory_finalize_events: Vec::new(),
            cpu_local_memory_access: Vec::new(),
        }
    }

    /// Records the CPU event of a cycle.
    fn emit_cpu(&mut self, t: &CycleTrace)
        ensures
            extended(*old(self), *final(self), EventDeltas { cpu: seq![cpu_event_of(*t)], ..no_events() }),
    {
        self.cpu_events.push(
            CpuEvent {
                clk: t.clk,
                pc: t.pc,
                next_pc: t.next_pc,
                next_next_pc: t.next_next_pc,
                a: t.a,
                a_record: t.accesses.a,
                b: t.b,
                b_record: t.accesses.b,
                c: t.c,
                c_record: t.accesses.c,
                hi: t.hi_or_prev_a,
                hi_record: t.accesses.hi,
                memory_record: t.accesses.memory,
                exit_code: t.exit_code,
            },
        );
    }

    /// Records an ALU instruction's event in the list of its chip, with its dependencies.
    fn emit_alu_event(&mut self, opcode: Opcode, t: &CycleTrace)
        requires
            opcode is CLZ || opcode is CLO ==> (cloclz_operand(alu_event_of(opcode, *t)) != 0 ==> t.a <= 31),
        ensures
            extended(*old(self), *final(self), alu_events(opcode, *t)),
    {
        let hi = match t.hi_or_prev_a {
            Some(v) => v,
            None => 0,
        };
        let event = AluEvent { pc: t.pc, next_pc: t.next_pc, opcode, hi, a: t.a, b: t.b, c: t.c };
        let (hi_access, hi_record_is_real) = write_of(t.accesses.hi);
        let event_comp = CompAluEvent {
            clk: t.clk,
            shard: t.shard,
            pc: t.pc,
            next_pc: t.next_pc,
            opcode,
            hi,
            a: t.a,
            b: t.b,
            c: t.c,
            hi_record: hi_access,
            hi_record_is_real,
        };
        match opcode {
            Opcode::ADD | Opcode::SUB => self.instrs_record.add_sub_events.push(event),
            Opcode::XOR | Opcode::OR | Opcode::AND | Opcode::NOR => self.instrs_record.bitwise_events.push(event),
            Opcode::SLL => self.instrs_record.shift_left_events.push(event),
            Opcode::SRL | Opcode::SRA | Opcode::ROR => self.instrs_record.shift_right_events.push(event),
            Opcode::SLT | Opcode::SLTU => self.instrs_record.lt_events.push(event),
            Opcode::MUL | Opcode::MULT | Opcode::MULTU => self.instrs_record.mul_events.push(event_comp),
            Opcode::DIV | Opcode::DIVU => {
                self.instrs_record.divrem_events.push(event_comp);
                emit_divrem_dependencies(&mut self.instrs_record, event);
            },
            Opcode::CLZ | Opcode::CLO => {
                self.instrs_record.cloclz_events.push(event);
                emit_cloclz_dependencies(&mut self.instrs_record, event);
            },
            _ => {},
        }
    }

    /// Records a load or store and its dependencies.
    fn emit_mem_instr_event(&mut self, opcode: Opcode, t: &CycleTrace)
        requires
            t.accesses.memory is Some,
            t.accesses.a is Some,
        ensures
            extended(
                *old(self),
                *final(self),
                EventDeltas {
                    memory_instr: seq![mem_instr_event_of(opcode, *t)],
                    add_sub: memory_add_sub_events(
                        mem_instr_event_of(opcode, *t),
                        mem_instr_event_of(opcode, *t).mem_access.spec_current_record(),
                    ),
                    ..no_events()
                },
            ),
    {
        let mem_access = t.accesses.memory.unwrap();
        let prev_a_val = match t.accesses.a.unwrap() {
            MemoryRecordEnum::Read(r) => r.value,
            MemoryRecordEnum::Write(w) => w.prev_value,
        };
        let event = MemInstrEvent {
            shard: t.shard,
            clk: t.clk,
            pc: t.pc,
            next_pc: t.next_pc,
            opcode,
            a: t.a,
            b: t.b,
            c: t.c,
            mem_access,
            prev_a_val,
        };
        self.instrs_record.memory_instr_events.push(event);
        emit_memory_dependencies(&mut self.instrs_record, event, mem_access.current_record());
    }

    /// Records a branch and its dependencies.
    fn emit_branch_event(&mut self, opcode: Opcode, t: &CycleTrace)
        requires
            opcode is BEQ || opcode is BNE || opcode is BLTZ || opcode is BLEZ || opcode is BGTZ || opcode is BGEZ,
        ensures
            extended(
                *old(self),
                *final(self),
                EventDeltas {
                    branch: seq![branch_event_of(opcode, *t)],
                    add_sub: branch_add_events(branch_event_of(opcode, *t)),
                    lt: branch_lt_events(branch_event_of(opcode, *t)),
                    ..no_events()
                },
            ),
    {
        let event = BranchEvent { pc: t.pc, next_pc: t.next_pc, next_next_pc: t.next_next_pc, opcode, a: t.a, b: t.b, c: t.c };
        self.instrs_record.branch_events.push(event);
        emit_branch_dependencies(&mut self.instrs_record, event);
    }

    /// Records a jump and its dependencies.
    fn emit_jump_event(&mut self, opcode: Opcode, t: &CycleTrace)
        requires
            opcode is Jump || opcode is Jumpi || opcode is JumpDirect,
        ensures
            extended(
                *old(self),
                *final(self),
                EventDeltas {
                    jump: seq![jump_event_of(opcode, *t)],
                    add_sub: jump_add_events(jump_event_of(opcode, *t)),
                    ..no_events()
                },
            ),
    {
        let event = JumpEvent::new(t.pc, t.next_pc, t.next_next_pc, opcode, t.a, t.b, t.c);
        self.instrs_record.jump_events.push(event);
        emit_jump_dependencies(&mut self.instrs_record, event);
    }

    /// Records a misc instruction and its dependencies.
    fn emit_misc_event(&mut self, opcode: Opcode, t: &CycleTrace)
        requires
            misc_dependencies_defined(misc_event_of(opcode, *t)),
        ensures
            extended(
                *old(self),
                *final(self),
                EventDeltas {
                    misc: seq![misc_event_of(opcode, *t)],
                    add_sub: misc_add_events(misc_event_of(opcode, *t)),
                    mul: misc_mul_events(misc_event_of(opcode, *t)),
                    shl: misc_shl_events(misc_event_of(opcode, *t)),
                    shr: misc_shr_events(misc_event_of(opcode, *t)),
                    ..no_events()
                },
            ),
    {
        let prev_a = match t.hi_or_prev_a {
            Some(v) => v,
            None => 0,
        };
        let (hi_access, _) = write_of(t.accesses.hi);
        let event = MiscEvent::new(t.clk, t.shard, t.pc, t.next_pc, opcode, t.a, t.b, t.c, prev_a, hi_access);
        self.instrs_record.misc_events.push(event);
        emit_misc_dependencies(&mut self.instrs_record, event);
    }

    /// Records a system call.
    fn emit_syscall_event(&mut self, t: &CycleTrace)
        ensures
            extended(*old(self), *final(self), EventDeltas { syscall: seq![syscall_event_of(*t)], ..no_events() }),
    {
        let event = syscall_event(t);
        self.instrs_record.syscall_events.push(event);
    }

    /// Records a cycle: its CPU event, then the events of its instruction and their
    /// dependencies.
    pub fn emit_events(&mut self, ins: &Instruction, t: &CycleTrace)
        requires
            events_defined(*ins, *t),
        ensures
            extended(*old(self), *final(self), cycle_events(*ins, *t)),
    {
        let ghost r0 = *old(self);
        self.emit_cpu(t);
        let ghost r1 = *self;
        if ins.is_alu_instruction() {
            self.emit_alu_event(ins.opcode, t);
        } else if ins.is_memory_load_instruction() || ins.is_memory_store_instruction() {
            self.emit_mem_instr_event(ins.opcode, t);
        } else if ins.is_branch_instruction() {
            self.emit_branch_event(ins.opcode, t);
        } else if ins.is_jump_instruction() {
            self.emit_jump_event(ins.opcode, t);
        } else if ins.is_syscall_instruction() {
            self.emit_syscall_event(t);
        } else if ins.is_misc_instruction() {
            self.emit_misc_event(ins.opcode, t);
        }
        proof {
            lemma_extended_twice(r0, r1, *self, EventDeltas { cpu: seq![cpu_event_of(*t)], ..no_events() }, instruction_events(*ins, *t));
        }
    }
}

/// The system call event of a cycle.
pub fn syscall_event(t: &CycleTrace) -> (r: SyscallEvent)
    ensures
        r == syscall_event_of(*t),
{
    let (a_record, a_record_is_real) = write_of(t.accesses.a);
    SyscallEvent {
        pc: t.pc,
        next_pc: t.next_pc,
        shard: t.shard,
        clk: t.clk,
        a_record,
        a_record_is_real,
        syscall_id: t.syscall_code,
        arg1: t.b,
        arg2: t.c,
    }
}

/// Whether a traced execution can record the instruction: an `INS` field must end within the
/// word.
pub open spec fn traceable(ins: Instruction) -> bool {
    ins.opcode is INS ==> field_msb(ins.op_c) <= 31
}

/// `EXT` is a left shift that drops the bits above the field followed by a right shift that
/// drops the bits below it.
pub proof fn lemma_ext_as_shifts(b: u32, c: u32)
    requires
        ext_defined(c),
    ensures
        field_lsb(c) + field_msb(c) <= 31,
        spec_ext(b, c) == (b << (31 - field_lsb(c) - field_msb(c)) as u32) >> (31 - field_msb(c)) as u32,
{
    let lsb = c & 0x1f;
    let msb = c >> 5u32;
    assert(((b & (((1u32 << (msb + lsb + 1) as u32) - 1) as u32)) >> lsb) == ((b << (31 - lsb - msb) as u32) >> (31 - msb) as u32)) by (bit_vector)
        requires
            msb + lsb + 1 < 32,
            lsb < 32,
    ;
}

/// `INS` rotates the field to the bottom, shifts it out, shifts the new bits in at the top and
/// rotates the word back.
pub proof fn lemma_ins_as_rotations(prev: u32, b: u32, c: u32)
    requires
        ins_defined(c),
        field_msb(c) <= 31,
    ensures
        spec_ins(prev, b, c) == spec_ror(
            ((spec_ror(prev, field_lsb(c)) >> (field_msb(c) - field_lsb(c) + 1) as u32) + (b << (31 - field_msb(c) + field_lsb(c)) as u32)) as u32,
            (31 - field_msb(c)) as u32,
        ),
{
    let lsb = c & 0x1f;
    let msb = c >> 5u32;
    assert(((prev & !((((1u32 << (msb - lsb + 1) as u32) - 1) as u32) << lsb)) | ((b << lsb) & ((((1u32 << (msb - lsb + 1) as u32) - 1) as u32) << lsb)))
        == spec_ror(((spec_ror(prev, lsb) >> (msb - lsb + 1) as u32) + (b << (31 - msb + lsb) as u32)) as u32, (31 - msb) as u32)) by (bit_vector)
        requires
            lsb <= msb <= 31,
            msb - lsb + 1 < 32,
    ;
}

/// Every instruction the decoder produces can be recorded: an `INS` field is given by two
/// five-bit fields of the word.
pub proof fn lemma_decoded_traceable(insn: u32)
    ensures
        traceable(spec_decode(insn)),
{
    assert((((insn >> 11u32) & 0x1f) << 5u32 | ((insn >> 6u32) & 0x1f)) >> 5u32 <= 31) by (bit_vector);
}

impl Program {
    /// Whether a traced execution can record every instruction of the program.
    pub open spec fn spec_traceable(&self) -> bool {
        forall|i: int| 0 <= i < self.instructions@.len() ==> traceable(#[trigger] self.instructions@[i])
    }

    /// Checks that a traced execution can record every instruction of the program.
    pub fn traceable(&self) -> (r: bool)
        ensures
            r == self.spec_traceable(),
    {
        let mut i: usize = 0;
        while i < self.instructions.len()
            invariant
                i <= self.instructions@.len(),
                forall|j: int| 0 <= j < i ==> traceable(#[trigger] self.instructions@[j]),
            decreases self.instructions@.len() - i,
        {
            let ins = self.instructions[i];
            if matches!(ins.opcode, Opcode::INS) && ins.op_c >> 5u32 > 31 {
                return false;
            }
            i = i + 1;
        }
        true
    }
}

} // verus!

verus! {

/// The keys of a map's iteration are increasing.
proof fn lemma_increasing_keys<V>(v: Seq<(&u32, &V)>)
    requires
        vstd::std_specs::btree::increasing_seq(v.map_values(|kv: (&u32, &V)| *kv.0)),
    ensures
        forall|i: int, j: int| 0 <= i < j < v.len() ==> *v[i].0 < *v[j].0,
{
    broadcast use vstd::laws_cmp::group_laws_cmp, vstd::std_specs::btree::group_btree_axioms;
    let k = v.map_values(|kv: (&u32, &V)| *kv.0);
    assert forall|i: int, j: int| 0 <= i < j < v.len() implies *v[i].0 < *v[j].0 by {
        assert(vstd::std_specs::cmp::OrdSpec::cmp_spec(&k[i], &k[j]) is Less);
    }
}

/// The record address 0 is finalized with: its last access, or value 0 at shard 0 and
/// timestamp 1 if it was never accessed.
pub open spec fn addr0_final_record(mem: Map<u32, MemoryRecord>) -> MemoryRecord {
    if mem.contains_key(0) {
        mem[0]
    } else {
        MemoryRecord { value: 0, shard: 0, timestamp: 1 }
    }
}

/// Whether the events' addresses strictly increase.
pub open spec fn ascending_addrs(evs: Seq<MemoryInitializeFinalizeEvent>) -> bool {
    forall|i: int, j: int| 0 <= i < j < evs.len() ==> #[trigger] evs[i].addr < #[trigger] evs[j].addr
}

/// Appending an event whose address is above all others after the first keeps the addresses
/// after the first increasing.
proof fn lemma_ascending_push(evs: Seq<MemoryInitializeFinalizeEvent>, e: MemoryInitializeFinalizeEvent)
    requires
        evs.len() >= 1,
        ascending_addrs(evs.drop_first()),
        forall|i: int| 1 <= i < evs.len() ==> (#[trigger] evs[i]).addr < e.addr,
    ensures
        ascending_addrs(evs.push(e).drop_first()),
{
    let d = evs.push(e).drop_first();
    assert forall|i: int, j: int| 0 <= i < j < d.len() implies #[trigger] d[i].addr < #[trigger] d[j].addr by {
        assert(d[i] == evs[i + 1]);
        if j < d.len() - 1 {
            assert(d[j] == evs[j + 1]);
            assert(evs.drop_first()[i] == evs[i + 1] && evs.drop_first()[j] == evs[j + 1]);
        }
    }
}

/// The value a word starts with if the program image does not give it one.
pub open spec fn initial_value(uninitialized: Map<u32, u32>, addr: u32) -> u32 {
    if uninitialized.contains_key(addr) {
        uninitialized[addr]
    } else {
        0
    }
}

/// Whether `evs` are the finalize events of memory `mem`: address 0 first, with
/// `addr0_final_record`; then every other address of the memory in increasing order, with its
/// last record.
pub open spec fn finalize_events(mem: Map<u32, MemoryRecord>, evs: Seq<MemoryInitializeFinalizeEvent>) -> bool {
    &&& evs.len() >= 1
    &&& evs[0] == MemoryInitializeFinalizeEvent::spec_finalize_from_record(0, addr0_final_record(mem))
    &&& ascending_addrs(evs.drop_first())
    &&& forall|i: int| 1 <= i < evs.len() ==> {
        &&& (#[trigger] evs[i]).addr != 0
        &&& mem.contains_key(evs[i].addr)
        &&& evs[i] == MemoryInitializeFinalizeEvent::spec_finalize_from_record(evs[i].addr, mem[evs[i].addr])
    }
    &&& forall|a: u32| a != 0 && #[trigger] mem.contains_key(a) ==> exists|i: int| 1 <= i < evs.len() && (#[trigger] evs[i]).addr == a
}

/// Whether `evs` are the initialize events of memory `mem` for a program image: address 0
/// first, marked used if it was accessed; then every other address of the memory outside the
/// image in increasing order, with its initial value.
pub open spec fn initialize_events(
    mem: Map<u32, MemoryRecord>,
    image: Map<u32, u32>,
    uninitialized: Map<u32, u32>,
    evs: Seq<MemoryInitializeFinalizeEvent>,
) -> bool {
    &&& evs.len() >= 1
    &&& evs[0] == MemoryInitializeFinalizeEvent::spec_initialize(0, 0, mem.contains_key(0))
    &&& ascending_addrs(evs.drop_first())
    &&& forall|i: int| 1 <= i < evs.len() ==> {
        &&& (#[trigger] evs[i]).addr != 0
        &&& mem.contains_key(evs[i].addr)
        &&& !image.contains_key(evs[i].addr)
        &&& evs[i] == MemoryInitializeFinalizeEvent::spec_initialize(evs[i].addr, initial_value(uninitialized, evs[i].addr), true)
    }
    &&& forall|a: u32| a != 0 && #[trigger] mem.contains_key(a) && !image.contains_key(a)
        ==> exists|i: int| 1 <= i < evs.len() && (#[trigger] evs[i]).addr == a
}

/// The events of the global memory argument at the end of an execution: the initialize events
/// and the finalize events of its memory.
pub fn global_memory_events(
    memory: &BTreeMap<u32, MemoryRecord>,
    image: &BTreeMap<u32, u32>,
    uninitialized: &BTreeMap<u32, u32>,
) -> (r: (Vec<MemoryInitializeFinalizeEvent>, Vec<MemoryInitializeFinalizeEvent>))
    ensures
        initialize_events(memory@, image@, uninitialized@, r.0@),
        finalize_events(memory@, r.1@),
{
    broadcast use vstd::std_specs::btree::group_btree_axioms;
    let mut init: Vec<MemoryInitializeFinalizeEvent> = Vec::new();
    let mut fin: Vec<MemoryInitializeFinalizeEvent> = Vec::new();
    let addr0 = match memory.get(&0) {
        Some(record) => *record,
        None => MemoryRecord { value: 0, shard: 0, timestamp: 1 },
    };
    fin.push(MemoryInitializeFinalizeEvent::finalize_from_record(0, &addr0));
    init.push(MemoryInitializeFinalizeEvent::initialize(0, 0, memory.contains_key(&0)));
    let iter = memory.iter();
    proof {
        lemma_increasing_keys(vstd::std_specs::iter::IteratorSpec::remaining(&iter));
    }
    let ghost v = vstd::std_specs::iter::IteratorSpec::remaining(&iter);
    for kv in it: iter
        invariant
            it.seq() == v,
            forall|i: int, j: int| 0 <= i < j < v.len() ==> *v[i].0 < *v[j].0,
            forall|i: int| 0 <= i < v.len() ==> #[trigger] memory@.contains_key(*v[i].0) && memory@[*v[i].0] == *v[i].1,
            forall|k: u32| #[trigger] memory@.contains_key(k) ==> v.contains((&k, &memory@[k])),
            fin@.len() >= 1,
            fin@[0] == MemoryInitializeFinalizeEvent::spec_finalize_from_record(0, addr0_final_record(memory@)),
            init@.len() >= 1,
            init@[0] == MemoryInitializeFinalizeEvent::spec_initialize(0, 0, memory@.contains_key(0)),
            ascending_addrs(fin@.drop_first()),
            ascending_addrs(init@.drop_first()),
            forall|i: int| 1 <= i < fin@.len() ==> {
                &&& (#[trigger] fin@[i]).addr != 0
                &&& memory@.contains_key(fin@[i].addr)
                &&& fin@[i] == MemoryInitializeFinalizeEvent::spec_finalize_from_record(fin@[i].addr, memory@[fin@[i].addr])
            },
            forall|i: int| 1 <= i < init@.len() ==> {
                &&& (#[trigger] init@[i]).addr != 0
                &&& memory@.contains_key(init@[i].addr)
                &&& !image@.contains_key(init@[i].addr)
                &&& init@[i] == MemoryInitializeFinalizeEvent::spec_initialize(init@[i].addr, initial_value(uninitialized@, init@[i].addr), true)
            },
            it.index() < v.len() ==> forall|i: int| 1 <= i < fin@.len() ==> (#[trigger] fin@[i]).addr < *v[it.index() as int].0,
            it.index() < v.len() ==> forall|i: int| 1 <= i < init@.len() ==> (#[trigger] init@[i]).addr < *v[it.index() as int].0,
            forall|l: int| 0 <= l < it.index() && *v[l].0 != 0
                ==> exists|i: int| 1 <= i < fin@.len() && (#[trigger] fin@[i]).addr == *v[l].0,
            forall|l: int| 0 <= l < it.index() && *v[l].0 != 0 && !image@.contains_key(*v[l].0)
                ==> exists|i: int| 1 <= i < init@.len() && (#[trigger] init@[i]).addr == *v[l].0,
    {
        let (addr, record) = kv;
        let ghost idx = it.index();
        let ghost fin_start = fin@;
        let ghost init_start = init@;
        if *addr != 0 {
            if !image.contains_key(addr) {
                let value = match uninitialized.get(addr) {
                    Some(v) => *v,
                    None => 0,
                };
                let ghost init0 = init@;
                init.push(MemoryInitializeFinalizeEvent::initialize(*addr, value, true));
                proof {
                    lemma_ascending_push(init0, init@.last());
                }
            }
            let ghost fin0 = fin@;
            fin.push(MemoryInitializeFinalizeEvent::finalize_from_record(*addr, record));
            proof {
                lemma_ascending_push(fin0, fin@.last());
            }
        }
        proof {
            assert forall|l: int| 0 <= l < idx + 1 && *v[l].0 != 0 implies exists|i: int|
                1 <= i < fin@.len() && (#[trigger] fin@[i]).addr == *v[l].0 by {
                if l == idx {
                    assert(fin@[fin@.len() - 1].addr == *v[l].0);
                } else {
                    let i = choose|i: int| 1 <= i < fin_start.len() && (#[trigger] fin_start[i]).addr == *v[l].0;
                    assert(fin@[i] == fin_start[i]);
                }
            }
            assert forall|l: int| 0 <= l < idx + 1 && *v[l].0 != 0 && !image@.contains_key(*v[l].0) implies exists|i: int|
                1 <= i < init@.len() && (#[trigger] init@[i]).addr == *v[l].0 by {
                if l == idx {
                    assert(init@[init@.len() - 1].addr == *v[l].0);
                } else {
                    let i = choose|i: int| 1 <= i < init_start.len() && (#[trigger] init_start[i]).addr == *v[l].0;
                    assert(init@[i] == init_start[i]);
                }
            }
        }
    }
    proof {
        assert forall|a: u32| a != 0 && #[trigger] memory@.contains_key(a) implies exists|i: int| 1 <= i < fin@.len() && (#[trigger] fin@[i]).addr == a by {
            assert(v.contains((&a, &memory@[a])));
            let l = choose|l: int| 0 <= l < v.len() && v[l] == (&a, &memory@[a]);
            assert(*v[l].0 == a);
        }
        assert forall|a: u32| a != 0 && #[trigger] memory@.contains_key(a) && !image@.contains_key(a) implies exists|i: int| 1 <= i < init@.len() && (#[trigger] init@[i]).addr == a by {
            assert(v.contains((&a, &memory@[a])));
            let l = choose|l: int| 0 <= l < v.len() && v[l] == (&a, &memory@[a]);
            assert(*v[l].0 == a);
        }
    }
    (init, fin)
}

// ---------------------------------------------------------------------------------------------
// Local memory events.
// ---------------------------------------------------------------------------------------------

/// The local memory events after an access of `addr` that took its record from `prev` to `cur`:
/// the first access of an address keeps its record before, later ones replace its record after.
pub open spec fn note_local(m: Map<u32, MemoryLocalEvent>, addr: u32, prev: MemoryRecord, cur: MemoryRecord) -> Map<u32, MemoryLocalEvent> {
    if m.contains_key(addr) {
        m.insert(addr, MemoryLocalEvent { final_mem_access: cur, ..m[addr] })
    } else {
        m.insert(addr, MemoryLocalEvent { addr, initial_mem_access: prev, final_mem_access: cur })
    }
}

/// The local memory events after a sequence of accesses, each given as (address, record
/// before, record after).
pub open spec fn note_all(m: Map<u32, MemoryLocalEvent>, accs: Seq<(u32, MemoryRecord, MemoryRecord)>) -> Map<u32, MemoryLocalEvent>
    decreases accs.len(),
{
    if accs.len() == 0 {
        m
    } else {
        let (addr, prev, cur) = accs.last();
        note_local(note_all(m, accs.drop_last()), addr, prev, cur)
    }
}

/// Whether `evs` are the events of `m`, one for each address, in increasing order of address.
pub open spec fn drained_in_order(m: Map<u32, MemoryLocalEvent>, evs: Seq<MemoryLocalEvent>) -> bool {
    exists|ks: Seq<u32>|
        {
            &&& ks.len() == evs.len()
            &&& forall|i: int, j: int| 0 <= i < j < ks.len() ==> #[trigger] ks[i] < #[trigger] ks[j]
            &&& forall|i: int| 0 <= i < ks.len() ==> m.contains_key(#[trigger] ks[i]) && evs[i] == m[ks[i]]
            &&& forall|k: u32| #[trigger] m.contains_key(k) ==> exists|i: int| 0 <= i < ks.len() && ks[i] == k
        }
}

/// Notes an access of `addr` that took its record from `prev` to `cur`.
pub fn note_local_access(map: &mut BTreeMap<u32, MemoryLocalEvent>, addr: u32, prev: MemoryRecord, cur: MemoryRecord)
    ensures
        final(map)@ == note_local(old(map)@, addr, prev, cur),
{
    broadcast use vstd::std_specs::btree::group_btree_axioms;
    let event = match map.get(&addr) {
        Some(e) => MemoryLocalEvent { addr: e.addr, initial_mem_access: e.initial_mem_access, final_mem_access: cur },
        None => MemoryLocalEvent { addr, initial_mem_access: prev, final_mem_access: cur },
    };
    map.insert(addr, event);
}

/// Notes a sequence of accesses, in order.
pub fn note_local_accesses(map: &mut BTreeMap<u32, MemoryLocalEvent>, accs: &Vec<(u32, MemoryRecord, MemoryRecord)>)
    ensures
        final(map)@ == note_all(old(map)@, accs@),
{
    let mut i: usize = 0;
    while i < accs.len()
        invariant
            i <= accs@.len(),
            map@ == note_all(old(map)@, accs@.take(i as int)),
        decreases accs@.len() - i,
    {
        let (addr, prev, cur) = accs[i];
        note_local_access(map, addr, prev, cur);
        proof {
            assert(accs@.take(i + 1).drop_last() =~= accs@.take(i as int));
        }
        i = i + 1;
    }
    proof {
        assert(accs@.take(i as int) =~= accs@);
    }
}

/// Moves the events of `map` to the end of `out`, in increasing order of address, and empties
/// the map.
pub fn drain_local_events(map: &mut BTreeMap<u32, MemoryLocalEvent>, out: &mut Vec<MemoryLocalEvent>)
    ensures
        final(map)@ == Map::<u32, MemoryLocalEvent>::empty(),
        final(out)@.len() >= old(out)@.len(),
        final(out)@.take(old(out)@.len() as int) == old(out)@,
        drained_in_order(old(map)@, final(out)@.skip(old(out)@.len() as int)),
{
    broadcast use vstd::std_specs::btree::group_btree_axioms;
    let ghost n = out@.len();
    let iter = map.iter();
    proof {
        lemma_increasing_keys(vstd::std_specs::iter::IteratorSpec::remaining(&iter));
    }
    let ghost v = vstd::std_specs::iter::IteratorSpec::remaining(&iter);
    for kv in it: iter
        invariant
            it.seq() == v,
            forall|i: int, j: int| 0 <= i < j < v.len() ==> *v[i].0 < *v[j].0,
            forall|i: int| 0 <= i < v.len() ==> #[trigger] map@.contains_key(*v[i].0) && map@[*v[i].0] == *v[i].1,
            forall|k: u32| #[trigger] map@.contains_key(k) ==> v.contains((&k, &map@[k])),
            n == old(out)@.len(),
            out@.len() == n + it.index(),
            out@.take(n as int) == old(out)@,
            forall|i: int| 0 <= i < it.index() ==> out@[n + i] == *v[i].1,
    {
        let (_, event) = kv;
        out.push(*event);
        proof {
            assert(out@.take(n as int) =~= old(out)@);
        }
    }
    proof {
        let ks = v.map_values(|kv: (&u32, &MemoryLocalEvent)| *kv.0);
        let evs = out@.skip(n as int);
        assert(ks.len() == evs.len());
        assert forall|i: int| 0 <= i < ks.len() implies map@.contains_key(#[trigger] ks[i]) && evs[i] == map@[ks[i]] by {
            assert(ks[i] == *v[i].0);
            assert(evs[i] == out@[n + i]);
        }
        assert forall|i: int, j: int| 0 <= i < j < ks.len() implies #[trigger] ks[i] < #[trigger] ks[j] by {
            assert(ks[i] == *v[i].0 && ks[j] == *v[j].0);
        }
        assert forall|k: u32| #[trigger] map@.contains_key(k) implies exists|i: int| 0 <= i < ks.len() && ks[i] == k by {
            assert(v.contains((&k, &map@[k])));
            let l = choose|l: int| 0 <= l < v.len() && v[l] == (&k, &map@[k]);
            assert(ks[l] == k);
        }
        assert(drained_in_order(map@, evs));
    }
    map.clear();
}

} // verus!
