//! The byte-lane semantics of MIPS loads and stores on little-endian 32-bit words.
use vstd::prelude::*;

use crate::opcode::Opcode;
use crate::utils::{sign_extend, spec_sign_extend};

verus! {

/// The shift that brings byte `addr % 4` of a word to the bottom.
pub open spec fn lane_shift(addr: u32) -> u32 {
    ((addr & 3) * 8) as u32
}

/// The shift that brings the half-word holding byte `addr % 4` to the bottom.
pub open spec fn half_shift(addr: u32) -> u32 {
    ((addr & 2) * 8) as u32
}

/// Byte `k` (0 = least significant) of a word.
pub open spec fn byte_of(w: u32, k: u32) -> u32 {
    (w >> (k * 8) as u32) & 0xff
}

/// The value a load writes to its target register, given the aligned memory word `mem`, the
/// target register's previous value `rt`, and the unaligned effective address `addr`.
pub open spec fn spec_load(opcode: Opcode, mem: u32, rt: u32, addr: u32) -> u32 {
    let s = lane_shift(addr);
    match opcode {
        Opcode::LH => spec_sign_extend((mem >> half_shift(addr)) & 0xffff, 16),
        Opcode::LWL => (rt & !(0xffff_ffffu32 << (24 - s) as u32)) | (mem << (24 - s) as u32),
        Opcode::LW => mem,
        Opcode::LBU => (mem >> s) & 0xff,
        Opcode::LHU => (mem >> half_shift(addr)) & 0xffff,
        Opcode::LWR => (rt & !(0xffff_ffffu32 >> s)) | (mem >> s),
        Opcode::LL => mem,
        Opcode::LB => spec_sign_extend((mem >> s) & 0xff, 8),
        _ => 0,
    }
}

/// The aligned memory word a store leaves behind, given the previous word `mem`, the source
/// register value `rt`, and the unaligned effective address `addr`.
pub open spec fn spec_store(opcode: Opcode, mem: u32, rt: u32, addr: u32) -> u32 {
    let s = lane_shift(addr);
    let h = half_shift(addr);
    match opcode {
        Opcode::SB => (mem & (0xffff_ffffu32 ^ (0xffu32 << s))) | ((rt & 0xff) << s),
        Opcode::SH => (mem & (0xffff_ffffu32 ^ (0xffffu32 << h))) | ((rt & 0xffff) << h),
        Opcode::SWL => (mem & !(0xffff_ffffu32 >> (24 - s) as u32)) | (rt >> (24 - s) as u32),
        Opcode::SW => rt,
        Opcode::SWR => (mem & !(0xffff_ffffu32 << s)) | (rt << s),
        Opcode::SC => rt,
        _ => mem,
    }
}

proof fn lemma_lane_shift(addr: u32)
    ensures
        lane_shift(addr) == 0 || lane_shift(addr) == 8 || lane_shift(addr) == 16 || lane_shift(addr) == 24,
        half_shift(addr) == 0 || half_shift(addr) == 16,
        lane_shift(addr) == (addr & 3) * 8,
        half_shift(addr) == (addr & 2) * 8,
{
    assert((addr & 3) < 4) by (bit_vector);
    assert((addr & 2) == 0 || (addr & 2) == 2) by (bit_vector);
}

/// The value a load writes to its target register.
pub fn load_value(opcode: Opcode, mem: u32, rt: u32, addr: u32) -> (r: u32)
    ensures
        r == spec_load(opcode, mem, rt, addr),
{
    proof {
        lemma_lane_shift(addr);
    }
    let s = (addr & 3) * 8;
    let h = (addr & 2) * 8;
    match opcode {
        Opcode::LH => sign_extend((mem >> h) & 0xffff, 16),
        Opcode::LWL => (rt & !(0xffff_ffffu32 << (24 - s))) | (mem << (24 - s)),
        Opcode::LW => mem,
        Opcode::LBU => (mem >> s) & 0xff,
        Opcode::LHU => (mem >> h) & 0xffff,
        Opcode::LWR => (rt & !(0xffff_ffffu32 >> s)) | (mem >> s),
        Opcode::LL => mem,
        Opcode::LB => sign_extend((mem >> s) & 0xff, 8),
        _ => 0,
    }
}

/// The aligned memory word a store leaves behind.
pub fn store_value(opcode: Opcode, mem: u32, rt: u32, addr: u32) -> (r: u32)
    ensures
        r == spec_store(opcode, mem, rt, addr),
{
    proof {
        lemma_lane_shift(addr);
    }
    let s = (addr & 3) * 8;
    let h = (addr & 2) * 8;
    match opcode {
        Opcode::SB => (mem & (0xffff_ffffu32 ^ (0xffu32 << s))) | ((rt & 0xff) << s),
        Opcode::SH => (mem & (0xffff_ffffu32 ^ (0xffffu32 << h))) | ((rt & 0xffff) << h),
        Opcode::SWL => (mem & !(0xffff_ffffu32 >> (24 - s))) | (rt >> (24 - s)),
        Opcode::SW => rt,
        Opcode::SWR => (mem & !(0xffff_ffffu32 << s)) | (rt << s),
        Opcode::SC => rt,
        _ => mem,
    }
}

/// A byte load reads back the byte that a byte store wrote to the same address, and a byte
/// store leaves the other three bytes of the word as they were.
pub proof fn lemma_store_byte_load_byte(mem: u32, rt: u32, addr: u32, other: u32)
    ensures
        spec_load(Opcode::LBU, spec_store(Opcode::SB, mem, rt, addr), 0, addr) == rt & 0xff,
        (other & 3) != (addr & 3) ==> spec_load(Opcode::LBU, spec_store(Opcode::SB, mem, rt, addr), 0, other)
            == spec_load(Opcode::LBU, mem, 0, other),
{
    lemma_lane_shift(addr);
    lemma_lane_shift(other);
    let s = lane_shift(addr);
    let t = lane_shift(other);
    assert((((mem & (0xffff_ffffu32 ^ (0xffu32 << s))) | ((rt & 0xff) << s)) >> s) & 0xff == rt & 0xff) by (bit_vector)
        requires s == 0 || s == 8 || s == 16 || s == 24;
    assert(s != t ==> (((mem & (0xffff_ffffu32 ^ (0xffu32 << s))) | ((rt & 0xff) << s)) >> t) & 0xff == (mem >> t) & 0xff) by (bit_vector)
        requires
            s == 0 || s == 8 || s == 16 || s == 24,
            t == 0 || t == 8 || t == 16 || t == 24,
    ;
    assert((other & 3) != (addr & 3) ==> s != t);
}

/// A half-word load reads back the half-word that a half-word store wrote to the same address,
/// and the other half of the word is left as it was.
pub proof fn lemma_store_half_load_half(mem: u32, rt: u32, addr: u32, other: u32)
    ensures
        spec_load(Opcode::LHU, spec_store(Opcode::SH, mem, rt, addr), 0, addr) == rt & 0xffff,
        (other & 2) != (addr & 2) ==> spec_load(Opcode::LHU, spec_store(Opcode::SH, mem, rt, addr), 0, other)
            == spec_load(Opcode::LHU, mem, 0, other),
{
    lemma_lane_shift(addr);
    lemma_lane_shift(other);
    let h = half_shift(addr);
    let t = half_shift(other);
    assert((((mem & (0xffff_ffffu32 ^ (0xffffu32 << h))) | ((rt & 0xffff) << h)) >> h) & 0xffff == rt & 0xffff) by (bit_vector)
        requires h == 0 || h == 16;
    assert(h != t ==> (((mem & (0xffff_ffffu32 ^ (0xffffu32 << h))) | ((rt & 0xffff) << h)) >> t) & 0xffff == (mem >> t) & 0xffff) by (bit_vector)
        requires
            h == 0 || h == 16,
            t == 0 || t == 16,
    ;
    assert((other & 2) != (addr & 2) ==> h != t);
}

/// A word load reads back what a word store or a store-conditional wrote, and a signed byte or
/// half-word load is the sign extension of the unsigned one.
pub proof fn lemma_load_forms(mem: u32, rt: u32, addr: u32)
    ensures
        spec_load(Opcode::LW, spec_store(Opcode::SW, mem, rt, addr), 0, addr) == rt,
        spec_load(Opcode::LW, spec_store(Opcode::SC, mem, rt, addr), 0, addr) == rt,
        spec_load(Opcode::LB, mem, rt, addr) == spec_sign_extend(spec_load(Opcode::LBU, mem, rt, addr), 8),
        spec_load(Opcode::LH, mem, rt, addr) == spec_sign_extend(spec_load(Opcode::LHU, mem, rt, addr), 16),
{
}

/// An `LWR` from an aligned address, or an `LWL` from the last byte of a word, loads the whole
/// word; and an `SWR` to an aligned address, or an `SWL` to the last byte, stores the whole word.
pub proof fn lemma_unaligned_full_word(mem: u32, rt: u32, addr: u32)
    ensures
        (addr & 3) == 0 ==> spec_load(Opcode::LWR, mem, rt, addr) == mem,
        (addr & 3) == 3 ==> spec_load(Opcode::LWL, mem, rt, addr) == mem,
        (addr & 3) == 0 ==> spec_store(Opcode::SWR, mem, rt, addr) == rt,
        (addr & 3) == 3 ==> spec_store(Opcode::SWL, mem, rt, addr) == rt,
{
    lemma_lane_shift(addr);
    assert((rt & !(0xffff_ffffu32 >> 0u32)) | (mem >> 0u32) == mem) by (bit_vector);
    assert((rt & !(0xffff_ffffu32 << 0u32)) | (mem << 0u32) == mem) by (bit_vector);
    assert((mem & !(0xffff_ffffu32 << 0u32)) | (rt << 0u32) == rt) by (bit_vector);
    assert((mem & !(0xffff_ffffu32 >> 0u32)) | (rt >> 0u32) == rt) by (bit_vector);
}

} // verus!
