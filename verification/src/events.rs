//! Memory access records and the events a traced execution emits for the proving circuits.
use vstd::prelude::*;

use crate::instruction::Instruction;
use crate::opcode::Opcode;

verus! {

/// The last access to a memory word: its value, and the shard and timestamp of the access.
#[derive(Clone, Copy, Debug, PartialEq, Eq, Structural)]
pub struct MemoryRecord {
    pub value: u32,
    pub shard: u32,
    pub timestamp: u32,
}

/// A read of a memory word, with the access before it.
#[derive(Clone, Copy, Debug, PartialEq, Eq, Structural)]
pub struct MemoryReadRecord {
    pub value: u32,
    pub shard: u32,
    pub timestamp: u32,
    pub prev_shard: u32,
    pub prev_timestamp: u32,
}

/// A write of a memory word, with the value and access before it.
#[derive(Clone, Copy, Debug, PartialEq, Eq, Structural)]
pub struct MemoryWriteRecord {
    pub value: u32,
    pub shard: u32,
    pub timestamp: u32,
    pub prev_value: u32,
    pub prev_shard: u32,
    pub prev_timestamp: u32,
}

impl MemoryReadRecord {
    /// Create a read record.
    pub fn new(value: u32, shard: u32, timestamp: u32, prev_shard: u32, prev_timestamp: u32) -> (r: Self)
        ensures
            r == (MemoryReadRecord { value, shard, timestamp, prev_shard, prev_timestamp }),
    {
        MemoryReadRecord { value, shard, timestamp, prev_shard, prev_timestamp }
    }

    /// The all-zero read record.
    pub fn zeroed() -> (r: Self)
        ensures
            r == (MemoryReadRecord { value: 0, shard: 0, timestamp: 0, prev_shard: 0, prev_timestamp: 0 }),
    {
        MemoryReadRecord { value: 0, shard: 0, timestamp: 0, prev_shard: 0, prev_timestamp: 0 }
    }
}

/// The all-zero write record.
pub open spec fn zero_write_record() -> MemoryWriteRecord {
    MemoryWriteRecord { value: 0, shard: 0, timestamp: 0, prev_value: 0, prev_shard: 0, prev_timestamp: 0 }
}

impl MemoryWriteRecord {
    /// Create a write record.
    pub fn new(value: u32, shard: u32, timestamp: u32, prev_value: u32, prev_shard: u32, prev_timestamp: u32) -> (r: Self)
        ensures
            r == (MemoryWriteRecord { value, shard, timestamp, prev_value, prev_shard, prev_timestamp }),
    {
        MemoryWriteRecord { value, shard, timestamp, prev_value, prev_shard, prev_timestamp }
    }

    /// The all-zero write record.
    pub fn zeroed() -> (r: Self)
        ensures
            r == zero_write_record(),
    {
        MemoryWriteRecord { value: 0, shard: 0, timestamp: 0, prev_value: 0, prev_shard: 0, prev_timestamp: 0 }
    }
}

impl Default for MemoryWriteRecord {
    fn default() -> (r: Self)
        ensures
            r == zero_write_record(),
    {
        MemoryWriteRecord::zeroed()
    }
}

/// A memory access: a read or a write.
#[derive(Clone, Copy, Debug, PartialEq, Eq, Structural)]
pub enum MemoryRecordEnum {
    Read(MemoryReadRecord),
    Write(MemoryWriteRecord),
}

impl MemoryRecordEnum {
    pub open spec fn spec_current_record(self) -> MemoryRecord {
        match self {
            MemoryRecordEnum::Read(r) => MemoryRecord { value: r.value, shard: r.shard, timestamp: r.timestamp },
            MemoryRecordEnum::Write(w) => MemoryRecord { value: w.value, shard: w.shard, timestamp: w.timestamp },
        }
    }

    /// The state of the word after the access.
    pub fn current_record(&self) -> (r: MemoryRecord)
        ensures
            r == self.spec_current_record(),
    {
        match self {
            MemoryRecordEnum::Read(r) => MemoryRecord { value: r.value, shard: r.shard, timestamp: r.timestamp },
            MemoryRecordEnum::Write(w) => MemoryRecord { value: w.value, shard: w.shard, timestamp: w.timestamp },
        }
    }
}

/// The accesses of one cycle, by operand slot.
#[derive(Clone, Copy, Debug, PartialEq, Eq, Structural)]
pub struct MemoryAccessRecord {
    pub a: Option<MemoryRecordEnum>,
    pub b: Option<MemoryRecordEnum>,
    pub c: Option<MemoryRecordEnum>,
    pub hi: Option<MemoryRecordEnum>,
    pub memory: Option<MemoryRecordEnum>,
}

/// No access in any slot.
pub open spec fn no_accesses() -> MemoryAccessRecord {
    MemoryAccessRecord { a: None, b: None, c: None, hi: None, memory: None }
}

/// `acc` with the access in slot `pos` replaced by `rec`.
pub open spec fn with_access(acc: MemoryAccessRecord, pos: MemoryAccessPosition, rec: MemoryRecordEnum) -> MemoryAccessRecord {
    match pos {
        MemoryAccessPosition::A => MemoryAccessRecord { a: Some(rec), ..acc },
        MemoryAccessPosition::B => MemoryAccessRecord { b: Some(rec), ..acc },
        MemoryAccessPosition::C => MemoryAccessRecord { c: Some(rec), ..acc },
        MemoryAccessPosition::HI => MemoryAccessRecord { hi: Some(rec), ..acc },
        MemoryAccessPosition::Memory => MemoryAccessRecord { memory: Some(rec), ..acc },
    }
}

impl MemoryAccessRecord {
    /// No access in any slot.
    pub fn none() -> (r: Self)
        ensures
            r == no_accesses(),
    {
        MemoryAccessRecord { a: None, b: None, c: None, hi: None, memory: None }
    }

    /// Records `rec` as the access in slot `pos`.
    pub fn set(&mut self, pos: MemoryAccessPosition, rec: MemoryRecordEnum)
        ensures
            *final(self) == with_access(*old(self), pos, rec),
    {
        match pos {
            MemoryAccessPosition::A => self.a = Some(rec),
            MemoryAccessPosition::B => self.b = Some(rec),
            MemoryAccessPosition::C => self.c = Some(rec),
            MemoryAccessPosition::HI => self.hi = Some(rec),
            MemoryAccessPosition::Memory => self.memory = Some(rec),
        }
    }
}

/// The first and last access to an address within one shard.
#[derive(Clone, Copy, Debug, PartialEq, Eq, Structural)]
pub struct MemoryLocalEvent {
    pub addr: u32,
    pub initial_mem_access: MemoryRecord,
    pub final_mem_access: MemoryRecord,
}

/// The initialization or finalization of a memory word for the global memory argument: its
/// address, value, shard and timestamp, and whether the word is used.
#[derive(Clone, Copy, Debug, PartialEq, Eq, Structural)]
pub struct MemoryInitializeFinalizeEvent {
    pub addr: u32,
    pub value: u32,
    pub shard: u32,
    pub timestamp: u32,
    pub used: u32,
}

impl MemoryInitializeFinalizeEvent {
    /// The initialization of a word: it starts at shard 1, timestamp 1.
    pub open spec fn spec_initialize(addr: u32, value: u32, used: bool) -> Self {
        MemoryInitializeFinalizeEvent { addr, value, shard: 1, timestamp: 1, used: if used { 1 } else { 0 } }
    }

    /// Creates the initialization of a word.
    pub fn initialize(addr: u32, value: u32, used: bool) -> (r: Self)
        ensures
            r == Self::spec_initialize(addr, value, used),
    {
        MemoryInitializeFinalizeEvent { addr, value, shard: 1, timestamp: 1, used: if used { 1 } else { 0 } }
    }

    /// The finalization of a word at its last access.
    pub open spec fn spec_finalize_from_record(addr: u32, record: MemoryRecord) -> Self {
        MemoryInitializeFinalizeEvent { addr, value: record.value, shard: record.shard, timestamp: record.timestamp, used: 1 }
    }

    /// Creates the finalization of a word with its value, shard and timestamp.
    pub fn finalize(addr: u32, value: u32, shard: u32, timestamp: u32) -> (r: Self)
        ensures
            r == (MemoryInitializeFinalizeEvent { addr, value, shard, timestamp, used: 1 }),
    {
        MemoryInitializeFinalizeEvent { addr, value, shard, timestamp, used: 1 }
    }

    /// Creates the finalization of a word at its last access.
    pub fn finalize_from_record(addr: u32, record: &MemoryRecord) -> (r: Self)
        ensures
            r == Self::spec_finalize_from_record(addr, *record),
    {
        Self::finalize(addr, record.value, record.shard, record.timestamp)
    }
}

/// Which operand slot of a cycle a memory access belongs to; it sets the access's timestamp
/// offset within the cycle.
#[derive(Clone, Copy, Debug, PartialEq, Eq, Structural)]
pub enum MemoryAccessPosition {
    Memory,
    C,
    B,
    A,
    HI,
}

impl MemoryAccessPosition {
    pub open spec fn spec_offset(self) -> u32 {
        match self {
            MemoryAccessPosition::Memory => 0,
            MemoryAccessPosition::C => 1,
            MemoryAccessPosition::B => 2,
            MemoryAccessPosition::A => 3,
            MemoryAccessPosition::HI => 4,
        }
    }

    /// The timestamp offset of the slot within a cycle.
    pub fn offset(self) -> (r: u32)
        ensures
            r == self.spec_offset(),
    {
        match self {
            MemoryAccessPosition::Memory => 0,
            MemoryAccessPosition::C => 1,
            MemoryAccessPosition::B => 2,
            MemoryAccessPosition::A => 3,
            MemoryAccessPosition::HI => 4,
        }
    }
}

/// Arithmetic Logic Unit (ALU) event.
#[derive(Clone, Copy, Debug, PartialEq, Eq, Structural)]
pub struct AluEvent {
    pub pc: u32,
    pub next_pc: u32,
    /// The opcode.
    pub opcode: Opcode,
    /// The upper bits of the output operand, for the operations that write HI.
    pub hi: u32,
    /// The output operand.
    pub a: u32,
    /// The first input operand.
    pub b: u32,
    /// The second input operand.
    pub c: u32,
}

impl AluEvent {
    /// Create a new ALU event for the instruction at `pc`.
    pub fn new(pc: u32, opcode: Opcode, a: u32, b: u32, c: u32) -> (r: Self)
        requires
            pc + 4 <= u32::MAX,
        ensures
            r == (AluEvent { pc, next_pc: (pc + 4) as u32, opcode, a, b, c, hi: 0 }),
    {
        AluEvent { pc, next_pc: pc + 4, opcode, a, b, c, hi: 0 }
    }

    /// Create a new ALU event for an operation that writes LO and HI.
    pub fn new_with_hi(pc: u32, opcode: Opcode, a: u32, b: u32, c: u32, hi: u32) -> (r: Self)
        requires
            pc + 4 <= u32::MAX,
        ensures
            r == (AluEvent { pc, next_pc: (pc + 4) as u32, opcode, a, b, c, hi }),
    {
        AluEvent { pc, next_pc: pc + 4, opcode, a, b, c, hi }
    }
}

/// An ALU event for the multiply and divide circuits, which also check the HI write.
#[derive(Clone, Copy, Debug, PartialEq, Eq, Structural)]
pub struct CompAluEvent {
    pub shard: u32,
    pub clk: u32,
    pub pc: u32,
    pub next_pc: u32,
    pub opcode: Opcode,
    pub hi: u32,
    pub a: u32,
    pub b: u32,
    pub c: u32,
    /// The HI register's write record.
    pub hi_record: MemoryWriteRecord,
    pub hi_record_is_real: bool,
}

impl CompAluEvent {
    /// Create a new event with no HI write.
    pub fn new(pc: u32, opcode: Opcode, a: u32, b: u32, c: u32) -> (r: Self)
        requires
            pc + 4 <= u32::MAX,
        ensures
            r == (CompAluEvent {
                clk: 0,
                shard: 0,
                pc,
                next_pc: (pc + 4) as u32,
                opcode,
                hi: 0,
                a,
                b,
                c,
                hi_record_is_real: false,
                hi_record: zero_write_record(),
            }),
    {
        CompAluEvent {
            clk: 0,
            shard: 0,
            pc,
            next_pc: pc + 4,
            opcode,
            hi: 0,
            a,
            b,
            c,
            hi_record_is_real: false,
            hi_record: MemoryWriteRecord::zeroed(),
        }
    }

    /// Create a new event carrying a HI value.
    pub fn new_with_hi(pc: u32, opcode: Opcode, a: u32, b: u32, c: u32, hi: u32) -> (r: Self)
        requires
            pc + 4 <= u32::MAX,
        ensures
            r == (CompAluEvent {
                clk: 0,
                shard: 0,
                pc,
                next_pc: (pc + 4) as u32,
                opcode,
                hi,
                a,
                b,
                c,
                hi_record_is_real: false,
                hi_record: zero_write_record(),
            }),
    {
        CompAluEvent {
            clk: 0,
            shard: 0,
            pc,
            next_pc: pc + 4,
            opcode,
            hi,
            a,
            b,
            c,
            hi_record_is_real: false,
            hi_record: MemoryWriteRecord::zeroed(),
        }
    }
}

/// Memory instruction event.
#[derive(Clone, Copy, Debug, PartialEq, Eq, Structural)]
pub struct MemInstrEvent {
    pub shard: u32,
    pub clk: u32,
    pub pc: u32,
    pub next_pc: u32,
    pub opcode: Opcode,
    pub a: u32,
    pub b: u32,
    pub c: u32,
    /// The access to the memory word.
    pub mem_access: MemoryRecordEnum,
    /// The value of the first operand register before the instruction.
    pub prev_a_val: u32,
}

impl MemInstrEvent {
    /// Create a new memory instruction event.
    pub fn new(
        shard: u32,
        clk: u32,
        pc: u32,
        next_pc: u32,
        opcode: Opcode,
        a: u32,
        b: u32,
        c: u32,
        mem_access: MemoryRecordEnum,
        prev_a_val: u32,
    ) -> (r: Self)
        ensures
            r == (MemInstrEvent { shard, clk, pc, next_pc, opcode, a, b, c, mem_access, prev_a_val }),
    {
        MemInstrEvent { shard, clk, pc, next_pc, opcode, a, b, c, mem_access, prev_a_val }
    }
}

/// Branch instruction event.
#[derive(Clone, Copy, Debug, PartialEq, Eq, Structural)]
pub struct BranchEvent {
    pub pc: u32,
    pub next_pc: u32,
    pub next_next_pc: u32,
    pub opcode: Opcode,
    pub a: u32,
    pub b: u32,
    pub c: u32,
}

impl BranchEvent {
    /// Create a new branch event.
    pub fn new(pc: u32, next_pc: u32, next_next_pc: u32, opcode: Opcode, a: u32, b: u32, c: u32) -> (r: Self)
        ensures
            r == (BranchEvent { pc, next_pc, next_next_pc, opcode, a, b, c }),
    {
        BranchEvent { pc, next_pc, next_next_pc, opcode, a, b, c }
    }
}

/// Jump instruction event.
#[derive(Clone, Copy, Debug, PartialEq, Eq, Structural)]
pub struct JumpEvent {
    pub pc: u32,
    pub next_pc: u32,
    pub next_next_pc: u32,
    pub opcode: Opcode,
    pub a: u32,
    pub b: u32,
    pub c: u32,
}

impl JumpEvent {
    /// Create a new jump event.
    pub fn new(pc: u32, next_pc: u32, next_next_pc: u32, opcode: Opcode, a: u32, b: u32, c: u32) -> (r: Self)
        ensures
            r == (JumpEvent { pc, next_pc, next_next_pc, opcode, a, b, c }),
    {
        JumpEvent { pc, next_pc, next_next_pc, opcode, a, b, c }
    }
}

/// Misc instruction event.
#[derive(Clone, Copy, Debug, PartialEq, Eq, Structural)]
pub struct MiscEvent {
    pub shard: u32,
    pub clk: u32,
    pub pc: u32,
    pub next_pc: u32,
    pub opcode: Opcode,
    pub a: u32,
    pub b: u32,
    pub c: u32,
    /// The value of the first operand register before the instruction.
    pub prev_a: u32,
    /// The HI register's write record.
    pub hi_record: MemoryWriteRecord,
}

impl MiscEvent {
    /// Create a new misc event.
    pub fn new(
        clk: u32,
        shard: u32,
        pc: u32,
        next_pc: u32,
        opcode: Opcode,
        a: u32,
        b: u32,
        c: u32,
        prev_a: u32,
        hi_record: MemoryWriteRecord,
    ) -> (r: Self)
        ensures
            r == (MiscEvent { clk, shard, pc, next_pc, opcode, a, b, c, prev_a, hi_record }),
    {
        MiscEvent { clk, shard, pc, next_pc, opcode, a, b, c, prev_a, hi_record }
    }
}

/// Conditional move and byte swap event.
#[derive(Clone, Copy, Debug, PartialEq, Eq, Structural)]
pub struct MovCondEvent {
    pub pc: u32,
    pub next_pc: u32,
    pub opcode: Opcode,
    pub a: u32,
    pub b: u32,
    pub c: u32,
    pub prev_a: u32,
}

impl MovCondEvent {
    /// Create a new conditional move event.
    pub fn new(pc: u32, next_pc: u32, opcode: Opcode, a: u32, b: u32, c: u32, prev_a: u32) -> (r: Self)
        ensures
            r == (MovCondEvent { pc, next_pc, opcode, a, b, c, prev_a }),
    {
        MovCondEvent { pc, next_pc, opcode, a, b, c, prev_a }
    }
}

/// Syscall event.
#[derive(Clone, Copy, Debug, PartialEq, Eq, Structural)]
pub struct SyscallEvent {
    pub pc: u32,
    pub next_pc: u32,
    pub shard: u32,
    pub clk: u32,
    pub a_record: MemoryWriteRecord,
    pub a_record_is_real: bool,
    pub syscall_id: u32,
    pub arg1: u32,
    pub arg2: u32,
}

/// CPU event: one per executed cycle.
#[derive(Clone, Copy, Debug, PartialEq, Eq, Structural)]
pub struct CpuEvent {
    pub clk: u32,
    pub pc: u32,
    pub next_pc: u32,
    pub next_next_pc: u32,
    pub a: u32,
    pub a_record: Option<MemoryRecordEnum>,
    pub b: u32,
    pub b_record: Option<MemoryRecordEnum>,
    pub c: u32,
    pub c_record: Option<MemoryRecordEnum>,
    pub hi: Option<u32>,
    pub hi_record: Option<MemoryRecordEnum>,
    pub memory_record: Option<MemoryRecordEnum>,
    pub exit_code: u32,
}

/// The tag of a flattened `Option<u32>`.
#[derive(Clone, Copy, Debug, PartialEq, Eq, Structural)]
pub enum OptionValTag {
    IsSome,
    IsNone,
}

/// A flattened `Option<u32>` with a fixed layout.
#[derive(Clone, Copy, Debug, PartialEq, Eq, Structural)]
pub struct OptionU32 {
    pub tag: OptionValTag,
    pub value: u32,
}

/// The flattened form of an optional word: absent words are stored as 0.
pub open spec fn option_u32_of(val: Option<u32>) -> OptionU32 {
    match val {
        Some(value) => OptionU32 { tag: OptionValTag::IsSome, value },
        None => OptionU32 { tag: OptionValTag::IsNone, value: 0 },
    }
}

impl From<Option<u32>> for OptionU32 {
    fn from(val: Option<u32>) -> (r: Self) {
        match val {
            Some(value) => OptionU32 { tag: OptionValTag::IsSome, value },
            None => OptionU32 { tag: OptionValTag::IsNone, value: 0 },
        }
    }
}

impl vstd::std_specs::convert::FromSpecImpl<Option<u32>> for OptionU32 {
    open spec fn obeys_from_spec() -> bool {
        true
    }

    open spec fn from_spec(val: Option<u32>) -> Self {
        option_u32_of(val)
    }
}

/// The tag of a flattened `Option<MemoryRecordEnum>`.
#[derive(Clone, Copy, Debug, PartialEq, Eq, Structural)]
pub enum OptionMemoryRecordEnumTag {
    Read,
    Write,
    Empty,
}

/// A flattened `Option<MemoryRecordEnum>` with a fixed layout; the unused record is zero.
#[derive(Clone, Copy, Debug, PartialEq, Eq, Structural)]
pub struct OptionMemoryRecordEnum {
    pub tag: OptionMemoryRecordEnumTag,
    pub read: MemoryReadRecord,
    pub write: MemoryWriteRecord,
}

/// The all-zero read record.
pub open spec fn zero_read_record() -> MemoryReadRecord {
    MemoryReadRecord { value: 0, shard: 0, timestamp: 0, prev_shard: 0, prev_timestamp: 0 }
}

/// The flattened form of an optional memory access.
pub open spec fn option_record_of(record: Option<MemoryRecordEnum>) -> OptionMemoryRecordEnum {
    match record {
        Some(MemoryRecordEnum::Read(read)) => OptionMemoryRecordEnum {
            tag: OptionMemoryRecordEnumTag::Read,
            read,
            write: zero_write_record(),
        },
        Some(MemoryRecordEnum::Write(write)) => OptionMemoryRecordEnum {
            tag: OptionMemoryRecordEnumTag::Write,
            read: zero_read_record(),
            write,
        },
        None => OptionMemoryRecordEnum {
            tag: OptionMemoryRecordEnumTag::Empty,
            read: zero_read_record(),
            write: zero_write_record(),
        },
    }
}

fn flatten_record(record: Option<MemoryRecordEnum>) -> (r: OptionMemoryRecordEnum)
    ensures
        r == option_record_of(record),
{
    match record {
        Some(MemoryRecordEnum::Read(read)) => OptionMemoryRecordEnum {
            tag: OptionMemoryRecordEnumTag::Read,
            read,
            write: MemoryWriteRecord::zeroed(),
        },
        Some(MemoryRecordEnum::Write(write)) => OptionMemoryRecordEnum {
            tag: OptionMemoryRecordEnumTag::Write,
            read: MemoryReadRecord::zeroed(),
            write,
        },
        None => OptionMemoryRecordEnum {
            tag: OptionMemoryRecordEnumTag::Empty,
            read: MemoryReadRecord::zeroed(),
            write: MemoryWriteRecord::zeroed(),
        },
    }
}

impl From<Option<MemoryRecordEnum>> for OptionMemoryRecordEnum {
    fn from(record: Option<MemoryRecordEnum>) -> (r: Self) {
        flatten_record(record)
    }
}

impl vstd::std_specs::convert::FromSpecImpl<Option<MemoryRecordEnum>> for OptionMemoryRecordEnum {
    open spec fn obeys_from_spec() -> bool {
        true
    }

    open spec fn from_spec(record: Option<MemoryRecordEnum>) -> Self {
        option_record_of(record)
    }
}

/// A CPU event in a fixed layout.
#[derive(Clone, Copy, Debug, PartialEq, Eq, Structural)]
pub struct CpuEventFfi {
    pub clk: u32,
    pub pc: u32,
    pub next_pc: u32,
    pub next_next_pc: u32,
    pub a: u32,
    pub a_record: OptionMemoryRecordEnum,
    pub b: u32,
    pub b_record: OptionMemoryRecordEnum,
    pub c: u32,
    pub c_record: OptionMemoryRecordEnum,
    pub hi: OptionU32,
    pub hi_record: OptionMemoryRecordEnum,
    pub memory_record: OptionMemoryRecordEnum,
    pub exit_code: u32,
}

/// The fixed-layout form of a CPU event.
pub open spec fn cpu_event_ffi_of(event: CpuEvent) -> CpuEventFfi {
    CpuEventFfi {
        clk: event.clk,
        pc: event.pc,
        next_pc: event.next_pc,
        next_next_pc: event.next_next_pc,
        a: event.a,
        a_record: option_record_of(event.a_record),
        b: event.b,
        b_record: option_record_of(event.b_record),
        c: event.c,
        c_record: option_record_of(event.c_record),
        hi: option_u32_of(event.hi),
        hi_record: option_record_of(event.hi_record),
        memory_record: option_record_of(event.memory_record),
        exit_code: event.exit_code,
    }
}

impl CpuEventFfi {
    /// The fixed-layout form of a CPU event.
    pub fn from_event(event: &CpuEvent) -> (r: Self)
        ensures
            r == cpu_event_ffi_of(*event),
    {
        CpuEventFfi {
            clk: event.clk,
            pc: event.pc,
            next_pc: event.next_pc,
            next_next_pc: event.next_next_pc,
            a: event.a,
            a_record: flatten_record(event.a_record),
            b: event.b,
            b_record: flatten_record(event.b_record),
            c: event.c,
            c_record: flatten_record(event.c_record),
            hi: OptionU32::from(event.hi),
            hi_record: flatten_record(event.hi_record),
            memory_record: flatten_record(event.memory_record),
            exit_code: event.exit_code,
        }
    }
}

/// An instruction in a fixed layout.
#[derive(Clone, Copy, Debug, PartialEq, Eq, Structural)]
pub struct InstructionFfi {
    pub opcode: Opcode,
    pub op_a: u8,
    pub op_b: u32,
    pub op_c: u32,
    pub imm_b: bool,
    pub imm_c: bool,
    pub raw: OptionU32,
}

/// The fixed-layout form of an instruction.
pub open spec fn instruction_ffi_of(ins: Instruction) -> InstructionFfi {
    InstructionFfi {
        opcode: ins.opcode,
        op_a: ins.op_a,
        op_b: ins.op_b,
        op_c: ins.op_c,
        imm_b: ins.imm_b,
        imm_c: ins.imm_c,
        raw: option_u32_of(ins.raw),
    }
}

impl From<Instruction> for InstructionFfi {
    fn from(ins: Instruction) -> (r: Self) {
        InstructionFfi {
            opcode: ins.opcode,
            op_a: ins.op_a,
            op_b: ins.op_b,
            op_c: ins.op_c,
            imm_b: ins.imm_b,
            imm_c: ins.imm_c,
            raw: OptionU32::from(ins.raw),
        }
    }
}

impl vstd::std_specs::convert::FromSpecImpl<Instruction> for InstructionFfi {
    open spec fn obeys_from_spec() -> bool {
        true
    }

    open spec fn from_spec(ins: Instruction) -> Self {
        instruction_ffi_of(ins)
    }
}

/// An event for a lookup that crosses shards.
#[derive(Clone, Copy, Debug)]
pub struct GlobalLookupEvent {
    pub message: [u32; 7],
    pub is_receive: bool,
    pub kind: u8,
}

/// The number of 32-bit words absorbed per keccak block.
pub const KECCAK_GENERAL_RATE_U32S: usize = 36;

/// The number of 32-bit words in a keccak digest as the precompile writes it.
pub const KECCAK_GENERAL_OUTPUT_U32S: usize = 16;

/// Keccak sponge event.
#[derive(Clone, Debug)]
pub struct KeccakSpongeEvent {
    pub shard: u32,
    pub clk: u32,
    pub input: Vec<u32>,
    pub output: [u32; 16],
    pub input_len_u32s: u32,
    pub input_read_records: Vec<MemoryReadRecord>,
    pub input_length_record: MemoryReadRecord,
    pub output_write_records: Vec<MemoryWriteRecord>,
    pub xored_state_list: Vec<[u64; 25]>,
    pub input_addr: u32,
    pub output_addr: u32,
    pub local_mem_access: Vec<MemoryLocalEvent>,
}

impl KeccakSpongeEvent {
    /// The number of full rate-sized blocks in the input.
    pub fn num_blocks(&self) -> (r: usize)
        ensures
            r == self.input@.len() / (KECCAK_GENERAL_RATE_U32S as nat),
    {
        self.input.len() / KECCAK_GENERAL_RATE_U32S
    }
}

/// Linux syscall event.
#[derive(Clone, Debug)]
pub struct LinuxEvent {
    pub shard: u32,
    pub clk: u32,
    pub a0: u32,
    pub a1: u32,
    pub v0: u32,
    pub syscall_code: u32,
    pub read_records: Vec<MemoryReadRecord>,
    pub write_records: Vec<MemoryWriteRecord>,
    pub local_mem_access: Vec<MemoryLocalEvent>,
}

/// Poseidon2 permutation event.
#[derive(Clone, Debug)]
pub struct Poseidon2PermuteEvent {
    pub shard: u32,
    pub clk: u32,
    pub pre_state: [u32; 16],
    pub post_state: [u32; 16],
    pub state_records: Vec<MemoryWriteRecord>,
    pub state_addr: u32,
    pub local_mem_access: Vec<MemoryLocalEvent>,
}

} // verus!
