//! Word-level helpers shared by the decoder, the executor and the event dependencies.
use vstd::prelude::*;

use crate::opcode::Opcode;

verus! {

/// The value of a word read as a two's-complement signed 32-bit integer.
pub open spec fn signed(x: u32) -> int {
    if x < 0x8000_0000 {
        x as int
    } else {
        x as int - 0x1_0000_0000
    }
}

/// The word whose two's-complement reading is `v` modulo 2^32.
pub open spec fn word_of(v: int) -> u32 {
    (v % 0x1_0000_0000) as u32
}

/// Absolute value on mathematical integers.
pub open spec fn abs_int(v: int) -> int {
    if v < 0 {
        -v
    } else {
        v
    }
}

/// Division rounding toward zero, as the machine's signed division does.
pub open spec fn trunc_div(a: int, b: int) -> int {
    let q = abs_int(a) / abs_int(b);
    if (a < 0) != (b < 0) {
        -q
    } else {
        q
    }
}

/// The remainder that goes with `trunc_div`: it has the sign of the dividend.
pub open spec fn trunc_rem(a: int, b: int) -> int {
    a - b * trunc_div(a, b)
}

/// The low `n` bits of `dat`, sign-extended; the value counts as negative when anything at or
/// above bit `n - 1` is set.
pub open spec fn spec_sign_extend(dat: u32, n: u32) -> u32 {
    let m: int = if n == 8 {
        0x100
    } else if n == 16 {
        0x1_0000
    } else {
        0x400_0000
    };
    if dat as int >= m / 2 {
        (dat as int % m + 0x1_0000_0000 - m) as u32
    } else {
        (dat as int % m) as u32
    }
}

/// Sign-extends the low `n` bits of `dat` to a full word.
pub fn sign_extend(dat: u32, n: u32) -> (r: u32)
    requires
        n == 8 || n == 16 || n == 26,
    ensures
        r == spec_sign_extend(dat, n),
{
    if n == 8 {
        let r = if (dat >> 7u32) != 0 { (dat & 0xff) | 0xffff_ff00 } else { dat & 0xff };
        assert(r == spec_sign_extend(dat, 8)) by (bit_vector)
            requires
                r == (if (dat >> 7u32) != 0 { (dat & 0xff) | 0xffff_ff00 } else { dat & 0xff }),
        ;
        r
    } else if n == 16 {
        let r = if (dat >> 15u32) != 0 { (dat & 0xffff) | 0xffff_0000 } else { dat & 0xffff };
        assert(r == spec_sign_extend(dat, 16)) by (bit_vector)
            requires
                r == (if (dat >> 15u32) != 0 { (dat & 0xffff) | 0xffff_0000 } else { dat & 0xffff }),
        ;
        r
    } else {
        let r = if (dat >> 25u32) != 0 { (dat & 0x3ff_ffff) | 0xfc00_0000 } else { dat & 0x3ff_ffff };
        assert(r == spec_sign_extend(dat, 26)) by (bit_vector)
            requires
                r == (if (dat >> 25u32) != 0 { (dat & 0x3ff_ffff) | 0xfc00_0000 } else { dat & 0x3ff_ffff }),
        ;
        r
    }
}

/// The most significant bit of a word.
pub fn get_msb(a: u32) -> (r: u32)
    ensures
        r == (if a >= 0x8000_0000 { 1u32 } else { 0u32 }),
{
    let r = (a >> 31u32) & 1;
    assert(r == (if a >= 0x8000_0000 { 1u32 } else { 0u32 })) by (bit_vector)
        requires
            r == (a >> 31u32) & 1,
    ;
    r
}

/// Whether a division-like operation reads its operands as signed integers.
pub open spec fn spec_is_signed_operation(opcode: Opcode) -> bool {
    opcode is DIV || opcode is MOD
}

/// Whether a division-like operation reads its operands as signed integers.
pub fn is_signed_operation(opcode: Opcode) -> (r: bool)
    ensures
        r == spec_is_signed_operation(opcode),
{
    matches!(opcode, Opcode::DIV | Opcode::MOD)
}

/// The negation of a word modulo 2^32.
pub fn neg_word(x: u32) -> (r: u32)
    ensures
        r as int == (0x1_0000_0000 - x as int) % 0x1_0000_0000,
{
    0u32.wrapping_sub(x)
}

/// The magnitude of a word read as a signed integer.
pub fn unsigned_abs(x: u32) -> (r: u32)
    ensures
        r as int == abs_int(signed(x)),
{
    if x >= 0x8000_0000 {
        0u32.wrapping_sub(x)
    } else {
        x
    }
}

/// Quotient and remainder of a division as the circuits see it: a zero divisor gives the
/// all-ones quotient and returns the dividend as remainder; otherwise signed operations round
/// toward zero and wrap, unsigned ones are plain integer division.
pub open spec fn spec_quotient_and_remainder(b: u32, c: u32, opcode: Opcode) -> (u32, u32) {
    if c == 0 {
        (0xffff_ffffu32, b)
    } else if spec_is_signed_operation(opcode) {
        (word_of(trunc_div(signed(b), signed(c))), word_of(trunc_rem(signed(b), signed(c))))
    } else {
        ((b / c) as u32, (b % c) as u32)
    }
}

proof fn lemma_signed_division(b: u32, c: u32, ab: u32, ac: u32, q: u32, r: u32)
    requires
        c != 0,
        ab as int == abs_int(signed(b)),
        ac as int == abs_int(signed(c)),
        q as int == ab as int / ac as int,
        r as int == ab as int % ac as int,
    ensures
        word_of(trunc_div(signed(b), signed(c))) as int == (if (b >= 0x8000_0000) != (c >= 0x8000_0000) {
            (0x1_0000_0000 - q as int) % 0x1_0000_0000
        } else {
            q as int
        }),
        word_of(trunc_rem(signed(b), signed(c))) as int == (if b >= 0x8000_0000 {
            (0x1_0000_0000 - r as int) % 0x1_0000_0000
        } else {
            r as int
        }),
{
    let sb = signed(b);
    let sc = signed(c);
    assert(ac > 0);
    assert(ab as int == ac as int * q as int + r as int) by (nonlinear_arith)
        requires
            ac > 0,
            q as int == ab as int / ac as int,
            r as int == ab as int % ac as int,
    ;
    assert(0 <= r < ac);
    assert(q as int <= ab as int) by (nonlinear_arith)
        requires
            ac > 0,
            q as int == ab as int / ac as int,
            ab >= 0,
    ;
    let t = trunc_div(sb, sc);
    assert(t == (if (sb < 0) != (sc < 0) { -(q as int) } else { q as int }));
    // remainder: sb - sc * t
    if sb >= 0 && sc > 0 {
        assert(sb - sc * t == r) by (nonlinear_arith)
            requires
                sb == ab,
                sc == ac,
                t == q,
                ab == ac * q + r,
        ;
    } else if sb < 0 && sc > 0 {
        assert(sb - sc * t == -(r as int)) by (nonlinear_arith)
            requires
                sb == -(ab as int),
                sc == ac,
                t == -(q as int),
                ab == ac * q + r,
        ;
    } else if sb >= 0 && sc < 0 {
        assert(sb - sc * t == r) by (nonlinear_arith)
            requires
                sb == ab,
                sc == -(ac as int),
                t == -(q as int),
                ab == ac * q + r,
        ;
    } else {
        assert(sb - sc * t == -(r as int)) by (nonlinear_arith)
            requires
                sb == -(ab as int),
                sc == -(ac as int),
                t == q,
                ab == ac * q + r,
        ;
    }
}

/// Quotient and remainder of `b` by `c` as the division circuits expect them.
pub fn get_quotient_and_remainder(b: u32, c: u32, opcode: Opcode) -> (r: (u32, u32))
    ensures
        r == spec_quotient_and_remainder(b, c, opcode),
{
    if c == 0 {
        (0xffff_ffffu32, b)
    } else if is_signed_operation(opcode) {
        let ab = unsigned_abs(b);
        let ac = unsigned_abs(c);
        let q = ab / ac;
        let r = ab % ac;
        let quotient = if (b >= 0x8000_0000) != (c >= 0x8000_0000) {
            neg_word(q)
        } else {
            q
        };
        let remainder = if b >= 0x8000_0000 {
            neg_word(r)
        } else {
            r
        };
        proof {
            lemma_signed_division(b, c, ab, ac, q, r);
        }
        (quotient, remainder)
    } else {
        (b / c, b % c)
    }
}

/// Division rounding toward zero leaves a remainder smaller in magnitude than the divisor,
/// with the sign of the dividend, and a quotient no larger in magnitude than the dividend.
pub proof fn lemma_trunc_division(a: int, b: int)
    requires
        b != 0,
    ensures
        a == b * trunc_div(a, b) + trunc_rem(a, b),
        abs_int(trunc_rem(a, b)) < abs_int(b),
        trunc_rem(a, b) == 0 || ((trunc_rem(a, b) < 0) == (a < 0)),
        abs_int(trunc_div(a, b)) <= abs_int(a),
{
    let aa = abs_int(a);
    let ab = abs_int(b);
    let q = aa / ab;
    let m = aa % ab;
    assert(aa == ab * q + m && 0 <= m < ab && 0 <= q <= aa) by (nonlinear_arith)
        requires
            ab > 0,
            aa >= 0,
            q == aa / ab,
            m == aa % ab,
    ;
    let t = trunc_div(a, b);
    assert(t == (if (a < 0) != (b < 0) { -q } else { q }));
    assert(trunc_rem(a, b) == (if a < 0 { -m } else { m })) by (nonlinear_arith)
        requires
            t == (if (a < 0) != (b < 0) { -q } else { q }),
            aa == ab * q + m,
            aa == (if a < 0 { -a } else { a }),
            ab == (if b < 0 { -b } else { b }),
            trunc_rem(a, b) == a - b * t,
    ;
}

/// A word read as a signed number gives back any value in the signed 32-bit range.
pub proof fn lemma_signed_word_of(x: int)
    requires
        -0x8000_0000 <= x < 0x8000_0000,
    ensures
        signed(word_of(x)) == x,
{
    if x < 0 {
        assert(x % 0x1_0000_0000 == x + 0x1_0000_0000);
    }
}

} // verus!
