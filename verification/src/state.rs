//! The state of an execution: the program counter, the clocks, and the last access of every
//! touched word and register.
use vstd::prelude::*;

use std::collections::BTreeMap;

use crate::events::{
    no_accesses, with_access, MemoryAccessPosition, MemoryAccessRecord, MemoryReadRecord, MemoryRecord,
    MemoryRecordEnum, MemoryWriteRecord,
};

verus! {

/// Bytes a program wrote to a file descriptor.
pub struct WriteRecord {
    pub fd: u32,
    pub bytes: Vec<u8>,
}

/// The state of an execution.
pub struct ExecutionState {
    /// The number of cycles executed so far.
    pub global_clk: u64,
    /// The shard the next cycle belongs to.
    pub current_shard: u32,
    /// The clock within the current shard.
    pub clk: u32,
    /// The program counter.
    pub pc: u32,
    /// The program counter of the next instruction (the delay slot after a branch).
    pub next_pc: u32,
    /// Whether the next instruction is in the delay slot of a branch or jump.
    pub next_is_delayslot: bool,
    /// Whether the program halted.
    pub exited: bool,
    /// The last access of every touched word and register.
    pub memory: BTreeMap<u32, MemoryRecord>,
    /// Values that words hold before their first access, where they are not zero.
    pub uninitialized_memory: BTreeMap<u32, u32>,
    /// What the program wrote to file descriptors, in order.
    pub output: Vec<WriteRecord>,
    /// The accesses of the current cycle, by operand slot.
    pub memory_accesses: MemoryAccessRecord,
    /// The operand-slot accesses of the current cycle in order: the address, its record before
    /// the access and its record after it.
    pub slot_accesses: Vec<(u32, MemoryRecord, MemoryRecord)>,
}

/// The mathematical view of an execution state.
pub struct StateModel {
    pub global_clk: u64,
    pub current_shard: u32,
    pub clk: u32,
    pub pc: u32,
    pub next_pc: u32,
    pub next_is_delayslot: bool,
    pub exited: bool,
    pub memory: Map<u32, MemoryRecord>,
    pub uninitialized_memory: Map<u32, u32>,
    pub output: Seq<(u32, Seq<u8>)>,
    pub accesses: MemoryAccessRecord,
    pub slot_accesses: Seq<(u32, MemoryRecord, MemoryRecord)>,
}

impl View for ExecutionState {
    type V = StateModel;

    open spec fn view(&self) -> StateModel {
        StateModel {
            global_clk: self.global_clk,
            current_shard: self.current_shard,
            clk: self.clk,
            pc: self.pc,
            next_pc: self.next_pc,
            next_is_delayslot: self.next_is_delayslot,
            exited: self.exited,
            memory: self.memory@,
            uninitialized_memory: self.uninitialized_memory@,
            output: self.output@.map_values(|w: WriteRecord| (w.fd, w.bytes@)),
            accesses: self.memory_accesses,
            slot_accesses: self.slot_accesses@,
        }
    }
}

// ---------------------------------------------------------------------------------------------
// The memory model.
// ---------------------------------------------------------------------------------------------

/// The value a word holds as seen without an access record: its last value, or 0.
pub open spec fn peek(s: StateModel, addr: u32) -> u32 {
    if s.memory.contains_key(addr) {
        s.memory[addr].value
    } else {
        0
    }
}

/// The record of a word before an access: its last access, or for a word never accessed its
/// initial value at shard 0 and timestamp 0.
pub open spec fn current_record(s: StateModel, addr: u32) -> MemoryRecord {
    if s.memory.contains_key(addr) {
        s.memory[addr]
    } else {
        MemoryRecord {
            value: if s.uninitialized_memory.contains_key(addr) { s.uninitialized_memory[addr] } else { 0 },
            shard: 0,
            timestamp: 0,
        }
    }
}

/// The state after reading `addr` in `shard` at `timestamp`.
pub open spec fn after_read(s: StateModel, addr: u32, shard: u32, timestamp: u32) -> StateModel {
    StateModel {
        memory: s.memory.insert(
            addr,
            MemoryRecord { value: current_record(s, addr).value, shard, timestamp },
        ),
        ..s
    }
}

/// The state after writing `value` to `addr` in `shard` at `timestamp`.
pub open spec fn after_write(s: StateModel, addr: u32, value: u32, shard: u32, timestamp: u32) -> StateModel {
    StateModel { memory: s.memory.insert(addr, MemoryRecord { value, shard, timestamp }), ..s }
}

/// The timestamp of an access in slot `pos` of the current cycle.
pub open spec fn ts(s: StateModel, pos: MemoryAccessPosition) -> u32 {
    (s.clk + pos.spec_offset()) as u32
}

/// The record of reading `addr` in `shard` at `timestamp`.
pub open spec fn read_record(s: StateModel, addr: u32, shard: u32, timestamp: u32) -> MemoryReadRecord {
    MemoryReadRecord {
        value: current_record(s, addr).value,
        shard,
        timestamp,
        prev_shard: current_record(s, addr).shard,
        prev_timestamp: current_record(s, addr).timestamp,
    }
}

/// The record of writing `value` to `addr` in `shard` at `timestamp`.
pub open spec fn write_record(s: StateModel, addr: u32, value: u32, shard: u32, timestamp: u32) -> MemoryWriteRecord {
    MemoryWriteRecord {
        value,
        shard,
        timestamp,
        prev_value: current_record(s, addr).value,
        prev_shard: current_record(s, addr).shard,
        prev_timestamp: current_record(s, addr).timestamp,
    }
}

/// Reading an operand in slot `pos` of the current cycle: the access is also recorded as the
/// slot's access.
pub open spec fn read_at(s: StateModel, addr: u32, pos: MemoryAccessPosition) -> StateModel {
    let rec = MemoryRecordEnum::Read(read_record(s, addr, s.current_shard, ts(s, pos)));
    let prev = current_record(s, addr);
    let cur = MemoryRecord { value: prev.value, shard: s.current_shard, timestamp: ts(s, pos) };
    StateModel {
        accesses: with_access(s.accesses, pos, rec),
        slot_accesses: s.slot_accesses.push((addr, prev, cur)),
        ..after_read(s, addr, s.current_shard, ts(s, pos))
    }
}

/// Writing an operand in slot `pos` of the current cycle: the access is also recorded as the
/// slot's access.
pub open spec fn write_at(s: StateModel, addr: u32, value: u32, pos: MemoryAccessPosition) -> StateModel {
    let rec = MemoryRecordEnum::Write(write_record(s, addr, value, s.current_shard, ts(s, pos)));
    let prev = current_record(s, addr);
    let cur = MemoryRecord { value, shard: s.current_shard, timestamp: ts(s, pos) };
    StateModel {
        accesses: with_access(s.accesses, pos, rec),
        slot_accesses: s.slot_accesses.push((addr, prev, cur)),
        ..after_write(s, addr, value, s.current_shard, ts(s, pos))
    }
}

/// Writing a register in slot `pos`: register 0 always receives 0.
pub open spec fn reg_write_at(s: StateModel, reg: u32, value: u32, pos: MemoryAccessPosition) -> StateModel {
    write_at(s, reg, if reg == 0 { 0 } else { value }, pos)
}

/// The timestamps of the current cycle fit in a word.
pub open spec fn clk_ok(s: StateModel) -> bool {
    s.clk + 4 <= u32::MAX
}

} // verus!

verus! {

impl ExecutionState {
    /// A fresh state at `pc_start`: no cycle run, shard 1, clock 0, nothing in memory and
    /// nothing written.
    pub open spec fn spec_new(pc_start: u32, next_pc: u32) -> StateModel {
        StateModel {
            global_clk: 0,
            current_shard: 1,
            clk: 0,
            pc: pc_start,
            next_pc,
            next_is_delayslot: false,
            exited: false,
            memory: Map::empty(),
            uninitialized_memory: Map::empty(),
            output: Seq::empty(),
            accesses: no_accesses(),
            slot_accesses: Seq::empty(),
        }
    }

    /// A fresh state that starts at `pc_start`.
    pub fn new(pc_start: u32, next_pc: u32) -> (r: Self)
        ensures
            r@ == Self::spec_new(pc_start, next_pc),
    {
        let r = ExecutionState {
            global_clk: 0,
            current_shard: 1,
            clk: 0,
            pc: pc_start,
            next_pc,
            next_is_delayslot: false,
            exited: false,
            memory: BTreeMap::new(),
            uninitialized_memory: BTreeMap::new(),
            output: Vec::new(),
            memory_accesses: MemoryAccessRecord::none(),
            slot_accesses: Vec::new(),
        };
        assert(r@.output =~= Seq::<(u32, Seq<u8>)>::empty());
        r
    }

    /// The value of a word, without recording an access.
    pub fn peek(&self, addr: u32) -> (r: u32)
        ensures
            r == peek(self@, addr),
    {
        match self.memory.get(&addr) {
            Some(record) => record.value,
            None => 0,
        }
    }

    fn record_before(&self, addr: u32) -> (r: MemoryRecord)
        ensures
            r == current_record(self@, addr),
    {
        match self.memory.get(&addr) {
            Some(record) => *record,
            None => {
                let value = match self.uninitialized_memory.get(&addr) {
                    Some(v) => *v,
                    None => 0,
                };
                MemoryRecord { value, shard: 0, timestamp: 0 }
            },
        }
    }

    /// The value the next read of `addr` returns, without recording an access.
    pub(crate) fn value_before(&self, addr: u32) -> (r: u32)
        ensures
            r == current_record(self@, addr).value,
    {
        self.record_before(addr).value
    }

    /// Reads a word in `shard` at `timestamp`, recording the access.
    pub fn mr(&mut self, addr: u32, shard: u32, timestamp: u32) -> (r: MemoryReadRecord)
        ensures
            final(self)@ == after_read(old(self)@, addr, shard, timestamp),
            r == (MemoryReadRecord {
                value: current_record(old(self)@, addr).value,
                shard,
                timestamp,
                prev_shard: current_record(old(self)@, addr).shard,
                prev_timestamp: current_record(old(self)@, addr).timestamp,
            }),
    {
        let prev = self.record_before(addr);
        self.memory.insert(addr, MemoryRecord { value: prev.value, shard, timestamp });
        assert(self@ == after_read(old(self)@, addr, shard, timestamp));
        MemoryReadRecord::new(prev.value, shard, timestamp, prev.shard, prev.timestamp)
    }

    /// Writes a word in `shard` at `timestamp`, recording the access.
    pub fn mw(&mut self, addr: u32, value: u32, shard: u32, timestamp: u32) -> (r: MemoryWriteRecord)
        ensures
            final(self)@ == after_write(old(self)@, addr, value, shard, timestamp),
            r == (MemoryWriteRecord {
                value,
                shard,
                timestamp,
                prev_value: current_record(old(self)@, addr).value,
                prev_shard: current_record(old(self)@, addr).shard,
                prev_timestamp: current_record(old(self)@, addr).timestamp,
            }),
    {
        let prev = self.record_before(addr);
        self.memory.insert(addr, MemoryRecord { value, shard, timestamp });
        assert(self@ == after_write(old(self)@, addr, value, shard, timestamp));
        MemoryWriteRecord::new(value, shard, timestamp, prev.value, prev.shard, prev.timestamp)
    }

    /// Reads an operand in slot `pos` of the current cycle.
    pub fn rr(&mut self, addr: u32, pos: MemoryAccessPosition) -> (r: u32)
        requires
            clk_ok(old(self)@),
        ensures
            r == current_record(old(self)@, addr).value,
            final(self)@ == read_at(old(self)@, addr, pos),
    {
        let t = self.clk + pos.offset();
        let prev = self.record_before(addr);
        let rec = self.mr(addr, self.current_shard, t);
        self.memory_accesses.set(pos, MemoryRecordEnum::Read(rec));
        self.slot_accesses.push((addr, prev, MemoryRecord { value: rec.value, shard: rec.shard, timestamp: t }));
        rec.value
    }

    /// Writes a word in slot `pos` of the current cycle.
    pub fn mw_cpu(&mut self, addr: u32, value: u32, pos: MemoryAccessPosition)
        requires
            clk_ok(old(self)@),
        ensures
            final(self)@ == write_at(old(self)@, addr, value, pos),
    {
        let t = self.clk + pos.offset();
        let prev = self.record_before(addr);
        let rec = self.mw(addr, value, self.current_shard, t);
        self.memory_accesses.set(pos, MemoryRecordEnum::Write(rec));
        self.slot_accesses.push((addr, prev, MemoryRecord { value, shard: rec.shard, timestamp: t }));
    }

    /// Writes a register in slot `pos`; register 0 always receives 0.
    pub fn rw(&mut self, reg: u32, value: u32, pos: MemoryAccessPosition)
        requires
            clk_ok(old(self)@),
        ensures
            final(self)@ == reg_write_at(old(self)@, reg, value, pos),
    {
        if reg == 0 {
            self.mw_cpu(reg, 0, pos);
        } else {
            self.mw_cpu(reg, value, pos);
        }
    }
}

} // verus!

verus! {

/// The records of a memory image: every word at shard 0 and timestamp 0.
pub open spec fn image_records(image: Map<u32, u32>) -> Map<u32, MemoryRecord> {
    image.map_values(|v: u32| MemoryRecord { value: v, shard: 0, timestamp: 0 })
}

/// Loads a memory image: every word of the image replaces the record at its address.
pub fn load_image(memory: &mut BTreeMap<u32, MemoryRecord>, image: &BTreeMap<u32, u32>)
    ensures
        final(memory)@ == old(memory)@.union_prefer_right(image_records(image@)),
{
    broadcast use vstd::std_specs::btree::group_btree_axioms;
    let ghost mut seen: Set<u32> = Set::empty();
    for kv in it: image.iter()
        invariant
            forall|j: int| 0 <= j < it.index() ==> seen.contains(*(#[trigger] it.seq()[j]).0),
            forall|k: u32| seen.contains(k) ==> image@.contains_key(k),
            memory@ == old(memory)@.union_prefer_right(image_records(image@.restrict(seen))),
            it.seq() == vstd::std_specs::iter::IteratorSpec::remaining(&vstd::std_specs::btree::spec_btree_map_iter(image)),
    {
        let (addr, value) = kv;
        memory.insert(*addr, MemoryRecord { value: *value, shard: 0, timestamp: 0 });
        proof {
            seen = seen.insert(*addr);
            assert(memory@ =~= old(memory)@.union_prefer_right(image_records(image@.restrict(seen))));
        }
    }
    proof {
        assert(image@.restrict(seen) =~= image@);
    }
}

} // verus!

verus! {

/// A read of an address returns the value the last write to it wrote; reads and writes of
/// other addresses leave what it holds as it was, and a read changes no value.
pub proof fn lemma_read_after_write(s: StateModel, addr: u32, value: u32, shard: u32, timestamp: u32, other: u32)
    ensures
        current_record(after_write(s, addr, value, shard, timestamp), addr).value == value,
        peek(after_write(s, addr, value, shard, timestamp), addr) == value,
        other != addr ==> current_record(after_write(s, addr, value, shard, timestamp), other) == current_record(s, other),
        other != addr ==> current_record(after_read(s, addr, shard, timestamp), other) == current_record(s, other),
        current_record(after_read(s, addr, shard, timestamp), other).value == current_record(s, other).value,
{
}

} // verus!
