//! The row of the memory instructions chip for one load or store: the event's values, the
//! address and its offset within the word, the loaded value before sign extension, the opcode
//! flags, and the byte lookups that check them.
use vstd::prelude::*;

use crate::events::MemInstrEvent;
use crate::opcode::Opcode;
use crate::utils::word_of;

verus! {

/// The register count: addresses below it are registers.
pub const NUM_REGISTERS: u32 = 36;

/// The byte operations a row looks up.
#[derive(Clone, Copy, Debug, PartialEq, Eq, Structural)]
pub enum ByteOpcode {
    /// `a1 == b & c`.
    AND,
    /// `a1` is the most significant bit of `b`.
    MSB,
    /// `b` and `c` are bytes.
    U8Range,
    /// `a1 == (b < c)`.
    LTU,
}

/// A lookup of a byte operation.
#[derive(Clone, Copy, Debug, PartialEq, Eq, Structural)]
pub struct ByteLookupEvent {
    pub opcode: ByteOpcode,
    pub a1: u16,
    pub a2: u8,
    pub b: u8,
    pub c: u8,
}

/// The values of a row of the memory instructions chip.
#[derive(Clone, Copy, Debug, PartialEq, Eq, Structural)]
pub struct MemInstrRow {
    pub shard: u32,
    pub clk: u32,
    pub pc: u32,
    pub next_pc: u32,
    pub op_a_value: u32,
    pub op_b_value: u32,
    pub op_c_value: u32,
    pub prev_a_val: u32,
    /// The address accessed: base plus offset, modulo 2^32.
    pub addr_word: u32,
    /// The address of the word that holds it.
    pub addr_aligned: u32,
    /// The offset within the word.
    pub addr_ls_two_bits: u32,
    pub ls_bits_is_one: bool,
    pub ls_bits_is_two: bool,
    pub ls_bits_is_three: bool,
    /// For a load, the value loaded before sign extension; 0 for a store.
    pub unsigned_mem_val: u32,
    /// For `LB` and `LH`, whether the loaded value is negative.
    pub mem_value_is_neg: bool,
    /// For `LB` and `LH`, the byte holding the sign and its top bit.
    pub most_sig_byte: u32,
    pub most_sig_bit: u32,
    pub is_lb: bool,
    pub is_lbu: bool,
    pub is_lh: bool,
    pub is_lhu: bool,
    pub is_lw: bool,
    pub is_lwl: bool,
    pub is_lwr: bool,
    pub is_ll: bool,
    pub is_sb: bool,
    pub is_sh: bool,
    pub is_sw: bool,
    pub is_swl: bool,
    pub is_swr: bool,
    pub is_sc: bool,
    /// Whether the upper three bytes of the address are zero.
    pub most_sig_bytes_zero: bool,
}

/// Whether an opcode loads from memory.
pub open spec fn is_load(op: Opcode) -> bool {
    op is LB || op is LBU || op is LH || op is LHU || op is LW || op is LWL || op is LWR || op is LL
}

/// The value a load reads before sign extension, from the memory word `mem` at offset `ls`:
/// the byte or half-word at the offset, the whole word, or the merge of `LWL`/`LWR` with the
/// previous value of the register.
pub open spec fn unsigned_load_value(op: Opcode, mem: u32, prev: u32, ls: u32) -> u32 {
    match op {
        Opcode::LB | Opcode::LBU => (mem >> (8 * ls) as u32) & 0xff,
        Opcode::LH | Opcode::LHU => if (ls >> 1u32) % 2 == 0 {
            mem & 0xffff
        } else {
            (mem & 0xffff_0000) >> 16u32
        },
        Opcode::LWL => (prev & !(0xffff_ffffu32 << (24 - 8 * ls) as u32)) | (mem << (24 - 8 * ls) as u32),
        Opcode::LWR => (prev & !(0xffff_ffffu32 >> (8 * ls) as u32)) | (mem >> (8 * ls) as u32),
        Opcode::LW | Opcode::LL => mem,
        _ => 0,
    }
}

/// The byte holding the sign of an `LB` (the low byte) or `LH` (the second byte) load.
pub open spec fn sign_byte(op: Opcode, unsigned: u32) -> u32 {
    if op is LB {
        unsigned & 0xff
    } else {
        (unsigned >> 8u32) & 0xff
    }
}

/// The row of a memory instruction event.
pub open spec fn spec_memory_instruction_row(e: MemInstrEvent) -> MemInstrRow {
    let addr = word_of(e.b + e.c);
    let ls = addr % 4;
    let op = e.opcode;
    let unsigned = unsigned_load_value(op, e.mem_access.spec_current_record().value, e.prev_a_val, ls);
    let signed_load = op is LB || op is LH;
    let byte = if signed_load { sign_byte(op, unsigned) } else { 0 };
    let bit = byte >> 7u32;
    MemInstrRow {
        shard: e.shard,
        clk: e.clk,
        pc: e.pc,
        next_pc: e.next_pc,
        op_a_value: e.a,
        op_b_value: e.b,
        op_c_value: e.c,
        prev_a_val: e.prev_a_val,
        addr_word: addr,
        addr_aligned: (addr - ls) as u32,
        addr_ls_two_bits: ls,
        ls_bits_is_one: ls == 1,
        ls_bits_is_two: ls == 2,
        ls_bits_is_three: ls == 3,
        unsigned_mem_val: unsigned,
        mem_value_is_neg: signed_load && bit == 1,
        most_sig_byte: byte,
        most_sig_bit: bit,
        is_lb: op is LB,
        is_lbu: op is LBU,
        is_lh: op is LH,
        is_lhu: op is LHU,
        is_lw: op is LW,
        is_lwl: op is LWL,
        is_lwr: op is LWR,
        is_ll: op is LL,
        is_sb: op is SB,
        is_sh: op is SH,
        is_sw: op is SW,
        is_swl: op is SWL,
        is_swr: op is SWR,
        is_sc: op is SC,
        most_sig_bytes_zero: addr / 0x100 == 0,
    }
}

/// The byte lookups of a row: the offset is the low two bits of the address, the sign bit of a
/// signed load is the top bit of its byte, the second and third bytes of the address are
/// bytes, and an address below 256 lies above the registers.
pub open spec fn spec_memory_instruction_lookups(e: MemInstrEvent) -> Seq<ByteLookupEvent> {
    let r = spec_memory_instruction_row(e);
    let addr = r.addr_word;
    let and = ByteLookupEvent { opcode: ByteOpcode::AND, a1: r.addr_ls_two_bits as u16, a2: 0, b: (addr % 0x100) as u8, c: 3 };
    let msb = if r.is_lb || r.is_lh {
        seq![ByteLookupEvent { opcode: ByteOpcode::MSB, a1: r.most_sig_bit as u16, a2: 0, b: r.most_sig_byte as u8, c: 0 }]
    } else {
        Seq::<ByteLookupEvent>::empty()
    };
    let range = ByteLookupEvent { opcode: ByteOpcode::U8Range, a1: 0, a2: 0, b: ((addr / 0x100) % 0x100) as u8, c: ((addr / 0x1_0000) % 0x100) as u8 };
    let ltu = if r.most_sig_bytes_zero {
        seq![ByteLookupEvent { opcode: ByteOpcode::LTU, a1: 1, a2: 0, b: (NUM_REGISTERS - 1) as u8, c: (addr % 0x100) as u8 }]
    } else {
        Seq::<ByteLookupEvent>::empty()
    };
    seq![and] + msb + seq![range] + ltu
}

/// Fills the row of a load or store and returns it with the byte lookups it needs. The shard of
/// an event is never 0.
pub fn memory_instruction_row(event: &MemInstrEvent) -> (r: (MemInstrRow, Vec<ByteLookupEvent>))
    requires
        event.shard != 0,
    ensures
        r.0 == spec_memory_instruction_row(*event),
        r.1@ == spec_memory_instruction_lookups(*event),
{
    let addr = event.b.wrapping_add(event.c);
    let ls = addr % 4;
    let op = event.opcode;
    let mem = event.mem_access.current_record().value;
    let prev = event.prev_a_val;
    let unsigned: u32 = match op {
        Opcode::LB | Opcode::LBU => (mem >> (8 * ls)) & 0xff,
        Opcode::LH | Opcode::LHU => if (ls >> 1u32) % 2 == 0 {
            mem & 0xffff
        } else {
            (mem & 0xffff_0000) >> 16u32
        },
        Opcode::LWL => (prev & !(0xffff_ffffu32 << (24 - 8 * ls))) | (mem << (24 - 8 * ls)),
        Opcode::LWR => (prev & !(0xffff_ffffu32 >> (8 * ls))) | (mem >> (8 * ls)),
        Opcode::LW | Opcode::LL => mem,
        _ => 0,
    };
    let signed_load = matches!(op, Opcode::LB | Opcode::LH);
    let byte: u32 = if signed_load {
        if matches!(op, Opcode::LB) {
            unsigned & 0xff
        } else {
            (unsigned >> 8u32) & 0xff
        }
    } else {
        0
    };
    let bit = byte >> 7u32;
    let row = MemInstrRow {
        shard: event.shard,
        clk: event.clk,
        pc: event.pc,
        next_pc: event.next_pc,
        op_a_value: event.a,
        op_b_value: event.b,
        op_c_value: event.c,
        prev_a_val: prev,
        addr_word: addr,
        addr_aligned: addr - ls,
        addr_ls_two_bits: ls,
        ls_bits_is_one: ls == 1,
        ls_bits_is_two: ls == 2,
        ls_bits_is_three: ls == 3,
        unsigned_mem_val: unsigned,
        mem_value_is_neg: signed_load && bit == 1,
        most_sig_byte: byte,
        most_sig_bit: bit,
        is_lb: matches!(op, Opcode::LB),
        is_lbu: matches!(op, Opcode::LBU),
        is_lh: matches!(op, Opcode::LH),
        is_lhu: matches!(op, Opcode::LHU),
        is_lw: matches!(op, Opcode::LW),
        is_lwl: matches!(op, Opcode::LWL),
        is_lwr: matches!(op, Opcode::LWR),
        is_ll: matches!(op, Opcode::LL),
        is_sb: matches!(op, Opcode::SB),
        is_sh: matches!(op, Opcode::SH),
        is_sw: matches!(op, Opcode::SW),
        is_swl: matches!(op, Opcode::SWL),
        is_swr: matches!(op, Opcode::SWR),
        is_sc: matches!(op, Opcode::SC),
        most_sig_bytes_zero: addr / 0x100 == 0,
    };
    let mut lookups: Vec<ByteLookupEvent> = Vec::new();
    lookups.push(ByteLookupEvent { opcode: ByteOpcode::AND, a1: ls as u16, a2: 0, b: (addr % 0x100) as u8, c: 3 });
    if signed_load {
        lookups.push(ByteLookupEvent { opcode: ByteOpcode::MSB, a1: bit as u16, a2: 0, b: byte as u8, c: 0 });
    }
    lookups.push(
        ByteLookupEvent { opcode: ByteOpcode::U8Range, a1: 0, a2: 0, b: ((addr / 0x100) % 0x100) as u8, c: ((addr / 0x1_0000) % 0x100) as u8 },
    );
    if addr / 0x100 == 0 {
        lookups.push(ByteLookupEvent { opcode: ByteOpcode::LTU, a1: 1, a2: 0, b: (NUM_REGISTERS - 1) as u8, c: (addr % 0x100) as u8 });
    }
    proof {
        assert(addr == word_of(event.b + event.c));
        assert(lookups@ =~= spec_memory_instruction_lookups(*event));
    }
    (row, lookups)
}

} // verus!
