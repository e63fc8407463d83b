//! Semantics of the bit-field, byte-swap, sign-extension and multiply-accumulate instructions.
use vstd::prelude::*;

use crate::alu::{mult_signed, signed_product64, two32, two64};
use crate::utils::{sign_extend, spec_sign_extend};

verus! {

/// `SEB` (`c == 0`) and `SEH` (`c > 0`): sign-extends the low byte or half-word of `b`.
pub open spec fn spec_sext(b: u32, c: u32) -> u32 {
    if c > 0 {
        spec_sign_extend(b & 0xffff, 16)
    } else {
        spec_sign_extend(b & 0xff, 8)
    }
}

/// `SEH` depends on the low half-word of its operand alone: it keeps those 16 bits and fills
/// the upper half with ones exactly when bit 15 is set. `SEB` keeps the low byte and fills the
/// upper 24 bits with ones exactly when bit 7 is set.
pub proof fn lemma_sext_fills_from_sign_bit(b: u32, c: u32)
    ensures
        c > 0 ==> spec_sext(b, c) & 0xffff == b & 0xffff,
        c > 0 ==> spec_sext(b, c) >> 16u32 == (if b & 0x8000 != 0 { 0xffffu32 } else { 0u32 }),
        c == 0 ==> spec_sext(b, c) & 0xff == b & 0xff,
        c == 0 ==> spec_sext(b, c) >> 8u32 == (if b & 0x80 != 0 { 0xff_ffffu32 } else { 0u32 }),
{
    let h = spec_sign_extend(b & 0xffff, 16);
    let l = spec_sign_extend(b & 0xff, 8);
    assert(h & 0xffff == b & 0xffff && h >> 16u32 == (if b & 0x8000 != 0 { 0xffffu32 } else { 0u32 })) by (bit_vector)
        requires h == spec_sign_extend(b & 0xffff, 16);
    assert(l & 0xff == b & 0xff && l >> 8u32 == (if b & 0x80 != 0 { 0xff_ffffu32 } else { 0u32 })) by (bit_vector)
        requires l == spec_sign_extend(b & 0xff, 8);
}

/// Sign-extends the low byte or half-word of `b`.
pub fn sext(b: u32, c: u32) -> (r: u32)
    ensures
        r == spec_sext(b, c),
{
    if c > 0 {
        sign_extend(b & 0xffff, 16)
    } else {
        sign_extend(b & 0xff, 8)
    }
}

/// `WSBH`: swaps the two bytes within each half-word.
pub open spec fn spec_wsbh(b: u32) -> u32 {
    (((b >> 16u32) & 0xff) << 24u32) | (((b >> 24u32) & 0xff) << 16u32) | ((b & 0xff) << 8u32) | ((b >> 8u32) & 0xff)
}

/// Swaps the two bytes within each half-word of `b`.
pub fn wsbh(b: u32) -> (r: u32)
    ensures
        r == spec_wsbh(b),
{
    (((b >> 16u32) & 0xff) << 24u32) | (((b >> 24u32) & 0xff) << 16u32) | ((b & 0xff) << 8u32) | ((b >> 8u32) & 0xff)
}

/// The position `c & 31` of the lowest bit of an `EXT`/`INS` field.
pub open spec fn field_lsb(c: u32) -> u32 {
    c & 0x1f
}

/// The upper part `c >> 5` of an `EXT`/`INS` field descriptor.
pub open spec fn field_msb(c: u32) -> u32 {
    c >> 5u32
}

/// Whether `EXT` can compute its mask: the field must end below bit 31.
pub open spec fn ext_defined(c: u32) -> bool {
    field_msb(c) + field_lsb(c) + 1 < 32
}

/// `EXT`: extracts bits `lsb ..= lsb + msbd` of `b`, shifted down to bit 0.
pub open spec fn spec_ext(b: u32, c: u32) -> u32 {
    (b & (((1u32 << (field_msb(c) + field_lsb(c) + 1) as u32) - 1) as u32)) >> field_lsb(c)
}

/// Extracts a bit field of `b`.
pub fn ext(b: u32, c: u32) -> (r: u32)
    requires
        ext_defined(c),
    ensures
        r == spec_ext(b, c),
{
    let msbd = c >> 5u32;
    let lsb = c & 0x1f;
    assert(lsb < 32 && msbd < 0x800_0000 && (1u32 << (msbd + lsb + 1)) >= 1) by (bit_vector)
        requires
            lsb == c & 0x1f,
            msbd == c >> 5u32,
            msbd + lsb + 1 < 32,
    ;
    let mask_msb = (1u32 << (msbd + lsb + 1)) - 1;
    (b & mask_msb) >> lsb
}

/// Whether `INS` can compute its mask: the field must be nonempty and narrower than a word.
pub open spec fn ins_defined(c: u32) -> bool {
    field_lsb(c) <= field_msb(c) && field_msb(c) - field_lsb(c) + 1 < 32
}

/// The mask of the bits an `INS` replaces.
pub open spec fn ins_field(c: u32) -> u32 {
    ((((1u32 << (field_msb(c) - field_lsb(c) + 1) as u32) - 1) as u32) << field_lsb(c))
}

/// `INS`: replaces bits `lsb ..= msb` of `prev` with the low bits of `b`.
pub open spec fn spec_ins(prev: u32, b: u32, c: u32) -> u32 {
    (prev & !ins_field(c)) | ((b << field_lsb(c)) & ins_field(c))
}

/// Inserts the low bits of `b` into a bit field of `prev`.
pub fn ins(prev: u32, b: u32, c: u32) -> (r: u32)
    requires
        ins_defined(c),
    ensures
        r == spec_ins(prev, b, c),
{
    let msb = c >> 5u32;
    let lsb = c & 0x1f;
    assert(lsb < 32 && (1u32 << ((msb - lsb + 1) as u32)) >= 1) by (bit_vector)
        requires
            lsb == c & 0x1f,
            msb == c >> 5u32,
            lsb <= msb,
            msb - lsb + 1 < 32,
    ;
    let mask = (1u32 << (msb - lsb + 1)) - 1;
    let mask_field = mask << lsb;
    (prev & !mask_field) | ((b << lsb) & mask_field)
}

/// `WSBH` swaps the two bytes of each half-word: byte 0 and byte 1 trade places, and so do byte
/// 2 and byte 3; doing it twice gives the word back.
pub proof fn lemma_wsbh_swaps_bytes(b: u32)
    ensures
        spec_wsbh(b) & 0xff == (b >> 8u32) & 0xff,
        (spec_wsbh(b) >> 8u32) & 0xff == b & 0xff,
        (spec_wsbh(b) >> 16u32) & 0xff == (b >> 24u32) & 0xff,
        spec_wsbh(b) >> 24u32 == (b >> 16u32) & 0xff,
        spec_wsbh(spec_wsbh(b)) == b,
{
    let r = spec_wsbh(b);
    let r2 = spec_wsbh(r);
    assert(r & 0xff == (b >> 8u32) & 0xff && (r >> 8u32) & 0xff == b & 0xff && (r >> 16u32) & 0xff == (b >> 24u32) & 0xff
        && r >> 24u32 == (b >> 16u32) & 0xff && r2 == b) by (bit_vector)
        requires
            r == spec_wsbh(b),
            r2 == spec_wsbh(r),
    ;
}

/// An `INS` leaves every bit of the word outside its field `lsb ..= msb` as it was, and an
/// `EXT` of the same field (size `msb - lsb + 1` from `lsb`) reads back the low bits of the
/// inserted value.
pub proof fn lemma_ins_then_ext(prev: u32, b: u32, c: u32)
    requires
        ins_defined(c),
        field_msb(c) < 31,
    ensures
        ({
            let lsb = field_lsb(c);
            let size = (field_msb(c) - lsb + 1) as u32;
            let low = (((1u32 << size) - 1) as u32);
            let d = ((size - 1) as u32) << 5u32 | lsb;
            &&& ext_defined(d)
            &&& spec_ext(spec_ins(prev, b, c), d) == b & low
            &&& spec_ins(prev, b, c) & !(low << lsb) == prev & !(low << lsb)
        }),
{
    let lsb = field_lsb(c);
    let msb = field_msb(c);
    let size = (msb - lsb + 1) as u32;
    let low = (((1u32 << size) - 1) as u32);
    let d = ((size - 1) as u32) << 5u32 | lsb;
    let r = spec_ins(prev, b, c);
    let e = spec_ext(r, d);
    assert(ext_defined(d) && e == b & low && r & !(low << lsb) == prev & !(low << lsb)) by (bit_vector)
        requires
            lsb == c & 0x1f,
            msb == c >> 5u32,
            lsb <= msb,
            msb < 31,
            size == (msb - lsb + 1) as u32,
            low == (((1u32 << size) - 1) as u32),
            d == ((size - 1) as u32) << 5u32 | lsb,
            r == spec_ins(prev, b, c),
            e == spec_ext(r, d),
    ;
}

/// The 64-bit accumulator formed by the HI and LO registers.
pub open spec fn acc64(hi: u32, lo: u32) -> int {
    hi * two32() + lo
}

/// Whether `MADDU` stays within 64 bits.
pub open spec fn maddu_defined(b: u32, c: u32, hi: u32, lo: u32) -> bool {
    b * c + acc64(hi, lo) < two64()
}

/// Whether `MSUBU` stays non-negative.
pub open spec fn msubu_defined(b: u32, c: u32, hi: u32, lo: u32) -> bool {
    b * c <= acc64(hi, lo)
}

/// Splits a 64-bit value into its (LO, HI) halves.
pub open spec fn split64(v: int) -> (u32, u32) {
    ((v % two32()) as u32, (v / two32()) as u32)
}

/// `MADDU`: adds the unsigned product of `b` and `c` to the HI/LO accumulator.
pub open spec fn spec_maddu(b: u32, c: u32, hi: u32, lo: u32) -> (u32, u32) {
    split64(b * c + acc64(hi, lo))
}

/// `MSUBU`: subtracts the unsigned product of `b` and `c` from the HI/LO accumulator.
pub open spec fn spec_msubu(b: u32, c: u32, hi: u32, lo: u32) -> (u32, u32) {
    split64(acc64(hi, lo) - b * c)
}

/// `MADD`: adds the signed product of `b` and `c` to the HI/LO accumulator, modulo 2^64.
pub open spec fn spec_madd(b: u32, c: u32, hi: u32, lo: u32) -> (u32, u32) {
    split64((acc64(hi, lo) + signed_product64(b, c)) % two64())
}

/// `MSUB`: subtracts the signed product of `b` and `c` from the HI/LO accumulator, modulo 2^64.
pub open spec fn spec_msub(b: u32, c: u32, hi: u32, lo: u32) -> (u32, u32) {
    split64((acc64(hi, lo) - signed_product64(b, c)) % two64())
}

fn accumulator(hi: u32, lo: u32) -> (r: u64)
    ensures
        r as int == acc64(hi, lo),
{
    assert(hi as int * two32() <= 0xffff_ffff_0000_0000) by (nonlinear_arith)
        requires
            hi <= 0xffff_ffff,
    ;
    (hi as u64) * 0x1_0000_0000u64 + lo as u64
}

fn split(v: u64) -> (r: (u32, u32))
    ensures
        r == split64(v as int),
{
    assert(v as int / two32() < two32()) by (nonlinear_arith)
        requires
            0 <= v < two64(),
            two64() == two32() * two32(),
    ;
    ((v % 0x1_0000_0000u64) as u32, (v / 0x1_0000_0000u64) as u32)
}

pub(crate) proof fn lemma_product_bound(b: u32, c: u32)
    ensures
        0 <= b as int * c as int <= 0xffff_fffe_0000_0001,
{
    assert(0 <= b as int * c as int <= 0xffff_fffe_0000_0001) by (nonlinear_arith)
        requires
            0 <= b <= 0xffff_ffff,
            0 <= c <= 0xffff_ffff,
    ;
}

/// Unsigned multiply-add into HI/LO; returns the new (LO, HI).
pub fn maddu(b: u32, c: u32, hi: u32, lo: u32) -> (r: (u32, u32))
    requires
        maddu_defined(b, c, hi, lo),
    ensures
        r == spec_maddu(b, c, hi, lo),
{
    proof {
        lemma_product_bound(b, c);
    }
    let multiply = (b as u64) * (c as u64);
    let addend = accumulator(hi, lo);
    split(multiply + addend)
}

/// Unsigned multiply-subtract from HI/LO; returns the new (LO, HI).
pub fn msubu(b: u32, c: u32, hi: u32, lo: u32) -> (r: (u32, u32))
    requires
        msubu_defined(b, c, hi, lo),
    ensures
        r == spec_msubu(b, c, hi, lo),
{
    proof {
        lemma_product_bound(b, c);
    }
    let multiply = (b as u64) * (c as u64);
    let addend = accumulator(hi, lo);
    split(addend - multiply)
}

/// Signed multiply-add into HI/LO, modulo 2^64; returns the new (LO, HI).
pub fn madd(b: u32, c: u32, hi: u32, lo: u32) -> (r: (u32, u32))
    ensures
        r == spec_madd(b, c, hi, lo),
{
    let p = mult_signed(b, c);
    let acc = accumulator(hi, lo);
    let out = acc.wrapping_add(p);
    proof {
        let s = acc as int + p as int;
        if s >= two64() {
            vstd::arithmetic::div_mod::lemma_mod_sub_multiples_vanish(s, two64());
            vstd::arithmetic::div_mod::lemma_small_mod((s - two64()) as nat, two64() as nat);
        } else {
            vstd::arithmetic::div_mod::lemma_small_mod(s as nat, two64() as nat);
        }
    }
    split(out)
}

/// Signed multiply-subtract from HI/LO, modulo 2^64; returns the new (LO, HI).
pub fn msub(b: u32, c: u32, hi: u32, lo: u32) -> (r: (u32, u32))
    ensures
        r == spec_msub(b, c, hi, lo),
{
    let p = mult_signed(b, c);
    let acc = accumulator(hi, lo);
    let out = acc.wrapping_sub(p);
    proof {
        let s = acc as int - p as int;
        if s < 0 {
            vstd::arithmetic::div_mod::lemma_mod_add_multiples_vanish(s, two64());
            vstd::arithmetic::div_mod::lemma_small_mod((s + two64()) as nat, two64() as nat);
        } else {
            vstd::arithmetic::div_mod::lemma_small_mod(s as nat, two64() as nat);
        }
    }
    split(out)
}

} // verus!
