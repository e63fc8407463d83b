//! The arithmetic, logic and bit-manipulation semantics of the MIPS instructions, as pure
//! functions on 32-bit words.
use vstd::prelude::*;

use vstd::std_specs::bits::{u32_leading_ones, u32_leading_zeros};

use crate::opcode::Opcode;
use crate::utils::{abs_int, get_quotient_and_remainder, signed, trunc_div, trunc_rem, word_of};

verus! {

/// 2^32.
pub open spec fn two32() -> int {
    0x1_0000_0000
}

/// 2^64.
pub open spec fn two64() -> int {
    0x1_0000_0000_0000_0000
}

/// Arithmetic right shift: the sign bit is copied into the vacated bits.
pub open spec fn spec_sra(b: u32, s: u32) -> u32 {
    if b < 0x8000_0000 {
        b >> s
    } else {
        !((!b) >> s)
    }
}

/// Rotation to the right by `s` bit positions, `s < 32`.
pub open spec fn spec_ror(b: u32, s: u32) -> u32 {
    if s == 0 {
        b
    } else {
        (b >> s) | (b << (32 - s) as u32)
    }
}

/// The 64-bit two's-complement encoding of the signed product of two words.
pub open spec fn signed_product64(b: u32, c: u32) -> int {
    (signed(b) * signed(c)) % two64()
}

/// Whether an ALU operation is defined on its operands: division needs a nonzero divisor, and
/// signed division of the most negative word by -1 overflows.
pub open spec fn alu_defined(opcode: Opcode, b: u32, c: u32) -> bool {
    (opcode is DIV || opcode is DIVU || opcode is MOD || opcode is MODU) ==> {
        &&& c != 0
        &&& (opcode is DIV || opcode is MOD) ==> !(b == 0x8000_0000 && c == 0xffff_ffff)
    }
}

/// The result `(a, hi)` of an ALU operation on operands `b` and `c`. `hi` is the HI register
/// value for the operations that write LO and HI, and 0 for the others.
pub open spec fn spec_alu(opcode: Opcode, b: u32, c: u32) -> (u32, u32) {
    let s = c & 0x1f;
    match opcode {
        Opcode::ADD => (word_of(b + c), 0),
        Opcode::SUB => (word_of(b - c), 0),
        Opcode::SLL => (b << s, 0),
        Opcode::SRL => (b >> s, 0),
        Opcode::SRA => (spec_sra(b, s), 0),
        Opcode::ROR => (spec_ror(b, s), 0),
        Opcode::MUL => (word_of(b * c), 0),
        Opcode::SLTU => (if b < c { 1 } else { 0 }, 0),
        Opcode::SLT => (if signed(b) < signed(c) { 1 } else { 0 }, 0),
        Opcode::MULT => (
            (signed_product64(b, c) % two32()) as u32,
            (signed_product64(b, c) / two32()) as u32,
        ),
        Opcode::MULTU => (word_of(b * c), ((b * c) / two32()) as u32),
        Opcode::DIV => (
            word_of(trunc_div(signed(b), signed(c))),
            word_of(trunc_rem(signed(b), signed(c))),
        ),
        Opcode::DIVU => ((b / c) as u32, (b % c) as u32),
        Opcode::MOD => (word_of(trunc_rem(signed(b), signed(c))), 0),
        Opcode::MODU => ((b % c) as u32, 0),
        Opcode::AND => (b & c, 0),
        Opcode::OR => (b | c, 0),
        Opcode::XOR => (b ^ c, 0),
        Opcode::NOR => (!(b | c), 0),
        Opcode::CLZ => (u32_leading_zeros(b), 0),
        Opcode::CLO => (u32_leading_ones(b), 0),
        _ => (0, 0),
    }
}

proof fn lemma_mod64_sub(x: int, y: int, z: int)
    requires
        0 <= x < two64(),
        x == y % two64(),
    ensures
        (if x - z < 0 { x - z + two64() } else { x - z }) == (y - z) % two64() || !(0 <= z < two64()),
{
    if 0 <= z < two64() {
        vstd::arithmetic::div_mod::lemma_sub_mod_noop(y, z, two64());
        vstd::arithmetic::div_mod::lemma_mod_twice(z, two64());
        vstd::arithmetic::div_mod::lemma_small_mod(z as nat, two64() as nat);
        if x - z < 0 {
            vstd::arithmetic::div_mod::lemma_mod_add_multiples_vanish(x - z, two64());
            vstd::arithmetic::div_mod::lemma_small_mod((x - z + two64()) as nat, two64() as nat);
        } else {
            vstd::arithmetic::div_mod::lemma_small_mod((x - z) as nat, two64() as nat);
        }
    }
}

proof fn lemma_word_product_fits(b: u32, c: u32)
    ensures
        0 <= b as int * c as int <= 0xffff_fffe_0000_0001,
{
    assert(0 <= b as int * c as int <= 0xffff_fffe_0000_0001) by (nonlinear_arith)
        requires
            0 <= b <= 0xffff_ffff,
            0 <= c <= 0xffff_ffff,
    ;
}

/// The 64-bit two's-complement signed product of two words.
pub(crate) fn mult_signed(b: u32, c: u32) -> (r: u64)
    ensures
        r as int == signed_product64(b, c),
{
    proof {
        lemma_word_product_fits(b, c);
    }
    let p0: u64 = (b as u64) * (c as u64);
    let ghost v0: int = b as int * c as int;
    proof {
        vstd::arithmetic::div_mod::lemma_small_mod(v0 as nat, two64() as nat);
    }
    let p1: u64 = if b >= 0x8000_0000 { p0.wrapping_sub((c as u64) << 32u64) } else { p0 };
    assert(((c as u64) << 32u64) as int == c as int * two32()) by {
        assert(((c as u64) << 32u64) == (c as u64) * 0x1_0000_0000u64) by (bit_vector)
            requires c as u64 <= 0xffff_ffffu64;
    }
    let ghost v1: int = if b >= 0x8000_0000 { v0 - c as int * two32() } else { v0 };
    proof {
        if b >= 0x8000_0000 {
            lemma_mod64_sub(p0 as int, v0, c as int * two32());
        }
    }
    assert(p1 as int == v1 % two64());
    let p2: u64 = if c >= 0x8000_0000 { p1.wrapping_sub((b as u64) << 32u64) } else { p1 };
    assert(((b as u64) << 32u64) as int == b as int * two32()) by {
        assert(((b as u64) << 32u64) == (b as u64) * 0x1_0000_0000u64) by (bit_vector)
            requires b as u64 <= 0xffff_ffffu64;
    }
    let ghost v2: int = if c >= 0x8000_0000 { v1 - b as int * two32() } else { v1 };
    proof {
        if c >= 0x8000_0000 {
            lemma_mod64_sub(p1 as int, v1, b as int * two32());
        }
    }
    assert(p2 as int == v2 % two64());
    proof {
        let sb = signed(b);
        let sc = signed(c);
        if b >= 0x8000_0000 && c >= 0x8000_0000 {
            assert(sb * sc == v2 + two64()) by (nonlinear_arith)
                requires
                    sb == b - two32(),
                    sc == c - two32(),
                    v2 == b * c - c * two32() - b * two32(),
                    two64() == two32() * two32(),
            ;
            vstd::arithmetic::div_mod::lemma_mod_add_multiples_vanish(v2, two64());
        } else if b >= 0x8000_0000 {
            assert(sb * sc == v2) by (nonlinear_arith)
                requires
                    sb == b - two32(),
                    sc == c,
                    v2 == b * c - c * two32(),
            ;
        } else if c >= 0x8000_0000 {
            assert(sb * sc == v2) by (nonlinear_arith)
                requires
                    sb == b,
                    sc == c - two32(),
                    v2 == b * c - b * two32(),
            ;
        } else {
            assert(sb * sc == v2);
        }
    }
    p2
}

/// Executes an ALU operation on operands `b` and `c`, returning the result and the HI value.
pub fn alu_op(opcode: Opcode, b: u32, c: u32) -> (r: (u32, u32))
    requires
        alu_defined(opcode, b, c),
    ensures
        r == spec_alu(opcode, b, c),
{
    let s = c & 0x1f;
    assert(s < 32) by (bit_vector)
        requires s == c & 0x1f;
    match opcode {
        Opcode::ADD => (b.wrapping_add(c), 0),
        Opcode::SUB => (b.wrapping_sub(c), 0),
        Opcode::SLL => (b << s, 0),
        Opcode::SRL => (b >> s, 0),
        Opcode::SRA => {
            if b < 0x8000_0000 {
                (b >> s, 0)
            } else {
                (!((!b) >> s), 0)
            }
        },
        Opcode::ROR => {
            if s == 0 {
                (b, 0)
            } else {
                ((b >> s) | (b << (32 - s)), 0)
            }
        },
        Opcode::MUL => {
            proof {
                vstd::arithmetic::div_mod::lemma_mod_pos_bound(b * c, two32());
            }
            (b.wrapping_mul(c), 0)
        },
        Opcode::SLTU => (if b < c { 1 } else { 0 }, 0),
        Opcode::SLT => {
            let lt = if (b >= 0x8000_0000) == (c >= 0x8000_0000) {
                b < c
            } else {
                b >= 0x8000_0000
            };
            (if lt { 1 } else { 0 }, 0)
        },
        Opcode::MULT => {
            let p = mult_signed(b, c);
            proof {
                vstd::arithmetic::div_mod::lemma_div_pos_is_pos(p as int, two32());
                vstd::arithmetic::div_mod::lemma_div_is_ordered(p as int, two64() - 1, two32());
            }
            assert((p & 0xffff_ffffu64) == p % 0x1_0000_0000u64) by (bit_vector);
            assert((p >> 32u64) == p / 0x1_0000_0000u64) by (bit_vector);
            ((p & 0xffff_ffff) as u32, (p >> 32u64) as u32)
        },
        Opcode::MULTU => {
            proof {
                lemma_word_product_fits(b, c);
            }
            let p: u64 = (b as u64) * (c as u64);
            proof {
                vstd::arithmetic::div_mod::lemma_div_is_ordered(p as int, two64() - 1, two32());
            }
            assert((p & 0xffff_ffffu64) == p % 0x1_0000_0000u64) by (bit_vector);
            assert((p >> 32u64) == p / 0x1_0000_0000u64) by (bit_vector);
            ((p & 0xffff_ffff) as u32, (p >> 32u64) as u32)
        },
        Opcode::DIV => get_quotient_and_remainder(b, c, Opcode::DIV),
        Opcode::DIVU => (b / c, b % c),
        Opcode::MOD => {
            let (_, r) = get_quotient_and_remainder(b, c, Opcode::MOD);
            (r, 0)
        },
        Opcode::MODU => (b % c, 0),
        Opcode::AND => (b & c, 0),
        Opcode::OR => (b | c, 0),
        Opcode::XOR => (b ^ c, 0),
        Opcode::NOR => (!(b | c), 0),
        Opcode::CLZ => (b.leading_zeros(), 0),
        Opcode::CLO => (b.leading_ones(), 0),
        _ => (0, 0),
    }
}

/// Division gives a quotient and remainder that make up the dividend again. Unsigned, the
/// remainder is below the divisor. Signed, the quotient rounds toward zero: the remainder is
/// smaller in magnitude than the divisor and has the sign of the dividend. `MOD` and `MODU`
/// return the remainder of `DIV` and `DIVU`.
pub proof fn lemma_division_identity(b: u32, c: u32)
    requires
        c != 0,
    ensures
        ({
            let (q, r) = spec_alu(Opcode::DIVU, b, c);
            &&& q * c + r == b
            &&& r < c
            &&& spec_alu(Opcode::MODU, b, c).0 == r
        }),
        !(b == 0x8000_0000 && c == 0xffff_ffff) ==> ({
            let (q, r) = spec_alu(Opcode::DIV, b, c);
            &&& signed(q) * signed(c) + signed(r) == signed(b)
            &&& abs_int(signed(r)) < abs_int(signed(c))
            &&& (r == 0 || ((signed(r) < 0) == (signed(b) < 0)))
            &&& spec_alu(Opcode::MOD, b, c).0 == r
        }),
{
    assert(b == (b / c) * c + b % c && b % c < c && b / c <= b) by (nonlinear_arith)
        requires
            c > 0,
    ;
    if !(b == 0x8000_0000 && c == 0xffff_ffff) {
        let sb = signed(b);
        let sc = signed(c);
        crate::utils::lemma_trunc_division(sb, sc);
        let t = trunc_div(sb, sc);
        let m = trunc_rem(sb, sc);
        assert(-0x8000_0000 <= t < 0x8000_0000) by {
            if t == 0x8000_0000 {
                assert(sb == -0x8000_0000);
                assert(sc * t == sb - m);
                assert(sc == -1) by (nonlinear_arith)
                    requires
                        sc * t == sb - m,
                        t == 0x8000_0000,
                        sb == -0x8000_0000,
                        abs_int(m) < abs_int(sc),
                        m == 0 || m < 0,
                        -0x8000_0000 <= sc < 0x8000_0000,
                ;
            }
        }
        crate::utils::lemma_signed_word_of(t);
        crate::utils::lemma_signed_word_of(m);
        assert(sb == t * sc + m) by (nonlinear_arith)
            requires
                sb == sc * t + m,
        ;
    }
}

/// Subtracting what was added gives the word back, modulo 2^32.
pub proof fn lemma_sub_undoes_add(b: u32, c: u32)
    ensures
        spec_alu(Opcode::SUB, spec_alu(Opcode::ADD, b, c).0, c).0 == b,
{
    let x = spec_alu(Opcode::ADD, b, c).0;
    if b + c < 0x1_0000_0000 {
        assert(x == b + c);
    } else {
        assert(x == b + c - 0x1_0000_0000);
    }
}

/// The shifts and rotation use the low five bits of the amount alone. A logical shift right
/// fills with zeros, an arithmetic one with copies of the sign bit, and rotating right by `s`
/// and then by the rest of the word gives the word back.
pub proof fn lemma_shift_amounts(b: u32, c: u32)
    ensures
        spec_alu(Opcode::SLL, b, c) == spec_alu(Opcode::SLL, b, c & 0x1f),
        spec_alu(Opcode::SRL, b, c) == spec_alu(Opcode::SRL, b, c & 0x1f),
        spec_alu(Opcode::SRA, b, c) == spec_alu(Opcode::SRA, b, c & 0x1f),
        spec_alu(Opcode::ROR, b, c) == spec_alu(Opcode::ROR, b, c & 0x1f),
        spec_alu(Opcode::SRL, b, c).0 == b >> (c & 0x1f),
        spec_alu(Opcode::SRA, b, c).0 == (if b < 0x8000_0000 { b >> (c & 0x1f) } else { (b >> (c & 0x1f)) | !(0xffff_ffffu32 >> (c & 0x1f)) }),
        spec_alu(Opcode::ROR, spec_alu(Opcode::ROR, b, c).0, (32 - (c & 0x1f)) as u32).0 == b,
{
    let s = c & 0x1f;
    assert(s & 0x1f == s && s < 32) by (bit_vector)
        requires
            s == c & 0x1f,
    ;
    let a = spec_sra(b, s);
    assert(a == (if b < 0x8000_0000 { b >> s } else { (b >> s) | !(0xffff_ffffu32 >> s) })) by (bit_vector)
        requires
            a == spec_sra(b, s),
            s < 32,
    ;
    let r = spec_ror(b, s);
    let t = (32 - s) as u32;
    let u = t & 0x1f;
    let r2 = spec_ror(r, u);
    assert(r2 == b) by (bit_vector)
        requires
            r == spec_ror(b, s),
            s < 32,
            t == (32 - s) as u32,
            u == t & 0x1f,
            r2 == spec_ror(r, u),
    ;
}

/// `MULTU` and `MULT` leave the whole 64-bit product in HI and LO: unsigned, and read as a
/// signed 64-bit number.
pub proof fn lemma_multiply_hi_lo(b: u32, c: u32)
    ensures
        ({
            let (lo, hi) = spec_alu(Opcode::MULTU, b, c);
            hi * two32() + lo == b * c
        }),
        ({
            let (lo, hi) = spec_alu(Opcode::MULT, b, c);
            let v = hi * two32() + lo;
            (if hi >= 0x8000_0000 { v - two64() } else { v }) == signed(b) * signed(c)
        }),
{
    let p: int = b * c;
    assert(0 <= p < two64() && p == (p / two32()) * two32() + p % two32() && 0 <= p / two32() < two32() && 0 <= p % two32() < two32()) by (nonlinear_arith)
        requires
            p == b * c,
            b < two32(),
            c < two32(),
    ;
    let sb = signed(b);
    let sc = signed(c);
    let x: int = sb * sc;
    assert(-0x4000_0000_0000_0000 <= x <= 0x4000_0000_0000_0000) by (nonlinear_arith)
        requires
            x == sb * sc,
            -0x8000_0000 <= sb < 0x8000_0000,
            -0x8000_0000 <= sc < 0x8000_0000,
    ;
    let m = signed_product64(b, c);
    assert(m == (if x < 0 { x + two64() } else { x }));
    assert(m == (m / two32()) * two32() + m % two32() && 0 <= m / two32() < two32() && 0 <= m % two32() < two32()) by (nonlinear_arith)
        requires
            0 <= m < two64(),
    ;
}

} // verus!
