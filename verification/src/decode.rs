//! The decoder from 32-bit MIPS instruction words to `Instruction`s.
use vstd::prelude::*;

use crate::instruction::{mk_instr, unimpl_instr, Instruction};
use crate::opcode::Opcode;
use crate::utils::{sign_extend, spec_sign_extend, word_of};

verus! {

/// The major opcode field, bits 31..26.
pub open spec fn field_op(insn: u32) -> u32 {
    (insn >> 26u32) & 0x3f
}

/// The function field of register-format words, bits 5..0.
pub open spec fn field_func(insn: u32) -> u32 {
    insn & 0x3f
}

/// The `rs` register field, bits 25..21.
pub open spec fn field_rs(insn: u32) -> u32 {
    (insn >> 21u32) & 0x1f
}

/// The `rt` register field, bits 20..16.
pub open spec fn field_rt(insn: u32) -> u32 {
    (insn >> 16u32) & 0x1f
}

/// The `rd` register field, bits 15..11.
pub open spec fn field_rd(insn: u32) -> u32 {
    (insn >> 11u32) & 0x1f
}

/// The shift amount field, bits 10..6.
pub open spec fn field_sa(insn: u32) -> u32 {
    (insn >> 6u32) & 0x1f
}

/// The 16-bit immediate, bits 15..0.
pub open spec fn field_imm(insn: u32) -> u32 {
    insn & 0xffff
}

/// The 16-bit immediate, sign-extended.
pub open spec fn field_simm(insn: u32) -> u32 {
    spec_sign_extend(field_imm(insn), 16)
}

/// The branch displacement in bytes: the sign-extended immediate times four, modulo 2^32.
pub open spec fn branch_offset(insn: u32) -> u32 {
    field_simm(insn) << 2u32
}

/// The jump target field, bits 25..0, sign-extended and shifted to a byte address.
pub open spec fn jump_target(insn: u32) -> u32 {
    spec_sign_extend(insn & 0x3ff_ffff, 26) << 2u32
}

/// The instruction a register-format word (major opcode 0) stands for.
pub open spec fn decode_special(insn: u32) -> Instruction {
    let rs = field_rs(insn);
    let rt = field_rt(insn);
    let rd = field_rd(insn) as u8;
    let sa = field_sa(insn);
    let func = field_func(insn);
    if func == 0x0a {
        mk_instr(Opcode::MEQ, rd, rs, rt, false, false)
    } else if func == 0x0b {
        mk_instr(Opcode::MNE, rd, rs, rt, false, false)
    } else if func == 0x20 || func == 0x21 {
        mk_instr(Opcode::ADD, rd, rs, rt, false, false)
    } else if func == 0x22 || func == 0x23 {
        mk_instr(Opcode::SUB, rd, rs, rt, false, false)
    } else if func == 0x00 {
        mk_instr(Opcode::SLL, rd, rt, sa, false, true)
    } else if func == 0x02 {
        if rs == 1 {
            mk_instr(Opcode::ROR, rd, rt, sa, false, true)
        } else {
            mk_instr(Opcode::SRL, rd, rt, sa, false, true)
        }
    } else if func == 0x03 {
        mk_instr(Opcode::SRA, rd, rt, sa, false, true)
    } else if func == 0x04 {
        mk_instr(Opcode::SLL, rd, rt, rs, false, false)
    } else if func == 0x06 {
        if sa == 1 {
            mk_instr(Opcode::ROR, rd, rt, rs, false, false)
        } else {
            mk_instr(Opcode::SRL, rd, rt, rs, false, false)
        }
    } else if func == 0x07 {
        mk_instr(Opcode::SRA, rd, rt, rs, false, false)
    } else if func == 0x18 {
        mk_instr(Opcode::MULT, 32, rt, rs, false, false)
    } else if func == 0x19 {
        mk_instr(Opcode::MULTU, 32, rt, rs, false, false)
    } else if func == 0x1a {
        if sa == 3 {
            mk_instr(Opcode::MOD, rd, rs, rt, false, false)
        } else {
            mk_instr(Opcode::DIV, 32, rs, rt, false, false)
        }
    } else if func == 0x1b {
        if sa == 3 {
            mk_instr(Opcode::MODU, rd, rs, rt, false, false)
        } else {
            mk_instr(Opcode::DIVU, 32, rs, rt, false, false)
        }
    } else if func == 0x10 {
        mk_instr(Opcode::ADD, rd, 33, 0, false, true)
    } else if func == 0x11 {
        mk_instr(Opcode::ADD, 33, rs, 0, false, true)
    } else if func == 0x12 {
        mk_instr(Opcode::ADD, rd, 32, 0, false, true)
    } else if func == 0x13 {
        mk_instr(Opcode::ADD, 32, rs, 0, false, true)
    } else if func == 0x0f {
        mk_instr(Opcode::ADD, 0, 0, 0, true, true)
    } else if func == 0x08 {
        mk_instr(Opcode::Jump, 0, rs, 0, false, true)
    } else if func == 0x09 {
        mk_instr(Opcode::Jump, rd, rs, 0, false, true)
    } else if func == 0x2a {
        mk_instr(Opcode::SLT, rd, rs, rt, false, false)
    } else if func == 0x2b {
        mk_instr(Opcode::SLTU, rd, rs, rt, false, false)
    } else if func == 0x24 {
        mk_instr(Opcode::AND, rd, rs, rt, false, false)
    } else if func == 0x25 {
        mk_instr(Opcode::OR, rd, rs, rt, false, false)
    } else if func == 0x26 {
        mk_instr(Opcode::XOR, rd, rs, rt, false, false)
    } else if func == 0x27 {
        mk_instr(Opcode::NOR, rd, rs, rt, false, false)
    } else if func == 0x0c {
        mk_instr(Opcode::SYSCALL, 2, 4, 5, false, false)
    } else if func == 0x34 {
        mk_instr(Opcode::TEQ, rs as u8, rt, 0, false, true)
    } else {
        unimpl_instr(insn)
    }
}

/// The instruction a word with major opcode 0b011100 (the SPECIAL2 group) stands for.
pub open spec fn decode_special2(insn: u32) -> Instruction {
    let rs = field_rs(insn);
    let rt = field_rt(insn);
    let rd = field_rd(insn) as u8;
    let func = field_func(insn);
    if func == 0x02 {
        mk_instr(Opcode::MUL, rd, rt, rs, false, false)
    } else if func == 0x20 {
        mk_instr(Opcode::CLZ, rd, rs, 0, false, true)
    } else if func == 0x21 {
        mk_instr(Opcode::CLO, rd, rs, 0, false, true)
    } else if func == 0x01 {
        mk_instr(Opcode::MADDU, 32, rt, rs, false, false)
    } else if func == 0x05 {
        mk_instr(Opcode::MSUBU, 32, rt, rs, false, false)
    } else if func == 0x00 {
        mk_instr(Opcode::MADD, 32, rt, rs, false, false)
    } else if func == 0x04 {
        mk_instr(Opcode::MSUB, 32, rt, rs, false, false)
    } else {
        unimpl_instr(insn)
    }
}

/// The instruction a word with major opcode 0b011111 (the SPECIAL3 group) stands for.
pub open spec fn decode_special3(insn: u32) -> Instruction {
    let rs = field_rs(insn);
    let rt = field_rt(insn);
    let rd = field_rd(insn);
    let sa = field_sa(insn);
    let func = field_func(insn);
    if func == 0x20 {
        if sa == 0x10 {
            mk_instr(Opcode::SEXT, rd as u8, rt, 0, false, true)
        } else if sa == 0x18 {
            mk_instr(Opcode::SEXT, rd as u8, rt, 1, false, true)
        } else if sa == 0x02 {
            mk_instr(Opcode::WSBH, rd as u8, rt, 0, false, true)
        } else {
            unimpl_instr(insn)
        }
    } else if func == 0x00 {
        mk_instr(Opcode::EXT, rt as u8, rs, (rd << 5u32) | sa, false, true)
    } else if func == 0x04 {
        mk_instr(Opcode::INS, rt as u8, rs, (rd << 5u32) | sa, false, true)
    } else {
        unimpl_instr(insn)
    }
}

/// The instruction a word with major opcode 1 (the REGIMM group) stands for.
pub open spec fn decode_regimm(insn: u32) -> Instruction {
    let rs = field_rs(insn);
    let rt = field_rt(insn);
    if rt == 1 {
        mk_instr(Opcode::BGEZ, rs as u8, 0, branch_offset(insn), true, true)
    } else if rt == 0 {
        mk_instr(Opcode::BLTZ, rs as u8, 0, branch_offset(insn), true, true)
    } else if rt == 0x11 && rs == 0 {
        mk_instr(Opcode::JumpDirect, 31, branch_offset(insn), 0, true, true)
    } else if rt == 0x1f {
        mk_instr(Opcode::ADD, 0, 0, 0, true, true)
    } else {
        unimpl_instr(insn)
    }
}

/// The instruction an immediate-format memory access with major opcode `op` stands for.
pub open spec fn mem_opcode(op: u32) -> Option<Opcode> {
    if op == 0x20 {
        Some(Opcode::LB)
    } else if op == 0x21 {
        Some(Opcode::LH)
    } else if op == 0x22 {
        Some(Opcode::LWL)
    } else if op == 0x23 {
        Some(Opcode::LW)
    } else if op == 0x24 {
        Some(Opcode::LBU)
    } else if op == 0x25 {
        Some(Opcode::LHU)
    } else if op == 0x26 {
        Some(Opcode::LWR)
    } else if op == 0x30 {
        Some(Opcode::LL)
    } else if op == 0x28 {
        Some(Opcode::SB)
    } else if op == 0x29 {
        Some(Opcode::SH)
    } else if op == 0x2a {
        Some(Opcode::SWL)
    } else if op == 0x2b {
        Some(Opcode::SW)
    } else if op == 0x2e {
        Some(Opcode::SWR)
    } else if op == 0x38 {
        Some(Opcode::SC)
    } else {
        None
    }
}

/// The instruction a 32-bit MIPS word stands for.
pub open spec fn spec_decode(insn: u32) -> Instruction {
    let op = field_op(insn);
    let rs = field_rs(insn);
    let rt = field_rt(insn);
    if op == 0 {
        decode_special(insn)
    } else if op == 0x1c {
        decode_special2(insn)
    } else if op == 0x1f {
        decode_special3(insn)
    } else if op == 0x01 {
        decode_regimm(insn)
    } else if op == 0x02 {
        mk_instr(Opcode::Jumpi, 0, jump_target(insn), 0, true, true)
    } else if op == 0x03 {
        mk_instr(Opcode::Jumpi, 31, jump_target(insn), 0, true, true)
    } else if op == 0x04 {
        mk_instr(Opcode::BEQ, rs as u8, rt, branch_offset(insn), false, true)
    } else if op == 0x05 {
        mk_instr(Opcode::BNE, rs as u8, rt, branch_offset(insn), false, true)
    } else if op == 0x06 {
        mk_instr(Opcode::BLEZ, rs as u8, 0, branch_offset(insn), true, true)
    } else if op == 0x07 {
        mk_instr(Opcode::BGTZ, rs as u8, 0, branch_offset(insn), true, true)
    } else if mem_opcode(op) is Some {
        mk_instr(mem_opcode(op)->0, rt as u8, rs, field_simm(insn), false, true)
    } else if op == 0x08 || op == 0x09 {
        mk_instr(Opcode::ADD, rt as u8, rs, field_simm(insn), false, true)
    } else if op == 0x0a {
        mk_instr(Opcode::SLT, rt as u8, rs, field_simm(insn), false, true)
    } else if op == 0x0b {
        mk_instr(Opcode::SLTU, rt as u8, rs, field_simm(insn), false, true)
    } else if op == 0x0f {
        mk_instr(Opcode::SLL, rt as u8, field_simm(insn), 16, true, true)
    } else if op == 0x0c {
        mk_instr(Opcode::AND, rt as u8, rs, field_imm(insn), false, true)
    } else if op == 0x0d {
        mk_instr(Opcode::OR, rt as u8, rs, field_imm(insn), false, true)
    } else if op == 0x0e {
        mk_instr(Opcode::XOR, rt as u8, rs, field_imm(insn), false, true)
    } else if op == 0x33 {
        mk_instr(Opcode::ADD, 0, 0, 0, true, true)
    } else {
        unimpl_instr(insn)
    }
}

} // verus!

verus! {

fn decode_special_exec(insn: u32) -> (r: Instruction)
    ensures
        r == decode_special(insn),
{
    let rs = (insn >> 21u32) & 0x1f;
    let rt = (insn >> 16u32) & 0x1f;
    let rd = ((insn >> 11u32) & 0x1f) as u8;
    let sa = (insn >> 6u32) & 0x1f;
    let func = insn & 0x3f;
    if func == 0x0a {
        Instruction::new(Opcode::MEQ, rd, rs, rt, false, false)
    } else if func == 0x0b {
        Instruction::new(Opcode::MNE, rd, rs, rt, false, false)
    } else if func == 0x20 || func == 0x21 {
        Instruction::new(Opcode::ADD, rd, rs, rt, false, false)
    } else if func == 0x22 || func == 0x23 {
        Instruction::new(Opcode::SUB, rd, rs, rt, false, false)
    } else if func == 0x00 {
        Instruction::new(Opcode::SLL, rd, rt, sa, false, true)
    } else if func == 0x02 {
        if rs == 1 {
            Instruction::new(Opcode::ROR, rd, rt, sa, false, true)
        } else {
            Instruction::new(Opcode::SRL, rd, rt, sa, false, true)
        }
    } else if func == 0x03 {
        Instruction::new(Opcode::SRA, rd, rt, sa, false, true)
    } else if func == 0x04 {
        Instruction::new(Opcode::SLL, rd, rt, rs, false, false)
    } else if func == 0x06 {
        if sa == 1 {
            Instruction::new(Opcode::ROR, rd, rt, rs, false, false)
        } else {
            Instruction::new(Opcode::SRL, rd, rt, rs, false, false)
        }
    } else if func == 0x07 {
        Instruction::new(Opcode::SRA, rd, rt, rs, false, false)
    } else if func == 0x18 {
        Instruction::new(Opcode::MULT, 32, rt, rs, false, false)
    } else if func == 0x19 {
        Instruction::new(Opcode::MULTU, 32, rt, rs, false, false)
    } else if func == 0x1a {
        if sa == 3 {
            Instruction::new(Opcode::MOD, rd, rs, rt, false, false)
        } else {
            Instruction::new(Opcode::DIV, 32, rs, rt, false, false)
        }
    } else if func == 0x1b {
        if sa == 3 {
            Instruction::new(Opcode::MODU, rd, rs, rt, false, false)
        } else {
            Instruction::new(Opcode::DIVU, 32, rs, rt, false, false)
        }
    } else if func == 0x10 {
        Instruction::new(Opcode::ADD, rd, 33, 0, false, true)
    } else if func == 0x11 {
        Instruction::new(Opcode::ADD, 33, rs, 0, false, true)
    } else if func == 0x12 {
        Instruction::new(Opcode::ADD, rd, 32, 0, false, true)
    } else if func == 0x13 {
        Instruction::new(Opcode::ADD, 32, rs, 0, false, true)
    } else if func == 0x0f {
        Instruction::new(Opcode::ADD, 0, 0, 0, true, true)
    } else if func == 0x08 {
        Instruction::new(Opcode::Jump, 0, rs, 0, false, true)
    } else if func == 0x09 {
        Instruction::new(Opcode::Jump, rd, rs, 0, false, true)
    } else if func == 0x2a {
        Instruction::new(Opcode::SLT, rd, rs, rt, false, false)
    } else if func == 0x2b {
        Instruction::new(Opcode::SLTU, rd, rs, rt, false, false)
    } else if func == 0x24 {
        Instruction::new(Opcode::AND, rd, rs, rt, false, false)
    } else if func == 0x25 {
        Instruction::new(Opcode::OR, rd, rs, rt, false, false)
    } else if func == 0x26 {
        Instruction::new(Opcode::XOR, rd, rs, rt, false, false)
    } else if func == 0x27 {
        Instruction::new(Opcode::NOR, rd, rs, rt, false, false)
    } else if func == 0x0c {
        Instruction::new(Opcode::SYSCALL, 2, 4, 5, false, false)
    } else if func == 0x34 {
        Instruction::new(Opcode::TEQ, rs as u8, rt, 0, false, true)
    } else {
        Instruction::new_with_raw(Opcode::UNIMPL, 0, 0, insn, true, true, insn)
    }
}

fn decode_special2_exec(insn: u32) -> (r: Instruction)
    ensures
        r == decode_special2(insn),
{
    let rs = (insn >> 21u32) & 0x1f;
    let rt = (insn >> 16u32) & 0x1f;
    let rd = ((insn >> 11u32) & 0x1f) as u8;
    let func = insn & 0x3f;
    if func == 0x02 {
        Instruction::new(Opcode::MUL, rd, rt, rs, false, false)
    } else if func == 0x20 {
        Instruction::new(Opcode::CLZ, rd, rs, 0, false, true)
    } else if func == 0x21 {
        Instruction::new(Opcode::CLO, rd, rs, 0, false, true)
    } else if func == 0x01 {
        Instruction::new(Opcode::MADDU, 32, rt, rs, false, false)
    } else if func == 0x05 {
        Instruction::new(Opcode::MSUBU, 32, rt, rs, false, false)
    } else if func == 0x00 {
        Instruction::new(Opcode::MADD, 32, rt, rs, false, false)
    } else if func == 0x04 {
        Instruction::new(Opcode::MSUB, 32, rt, rs, false, false)
    } else {
        Instruction::new_with_raw(Opcode::UNIMPL, 0, 0, insn, true, true, insn)
    }
}

fn decode_special3_exec(insn: u32) -> (r: Instruction)
    ensures
        r == decode_special3(insn),
{
    let rs = (insn >> 21u32) & 0x1f;
    let rt = (insn >> 16u32) & 0x1f;
    let rd = (insn >> 11u32) & 0x1f;
    let sa = (insn >> 6u32) & 0x1f;
    let func = insn & 0x3f;
    if func == 0x20 {
        if sa == 0x10 {
            Instruction::new(Opcode::SEXT, rd as u8, rt, 0, false, true)
        } else if sa == 0x18 {
            Instruction::new(Opcode::SEXT, rd as u8, rt, 1, false, true)
        } else if sa == 0x02 {
            Instruction::new(Opcode::WSBH, rd as u8, rt, 0, false, true)
        } else {
            Instruction::new_with_raw(Opcode::UNIMPL, 0, 0, insn, true, true, insn)
        }
    } else if func == 0x00 {
        Instruction::new(Opcode::EXT, rt as u8, rs, (rd << 5u32) | sa, false, true)
    } else if func == 0x04 {
        Instruction::new(Opcode::INS, rt as u8, rs, (rd << 5u32) | sa, false, true)
    } else {
        Instruction::new_with_raw(Opcode::UNIMPL, 0, 0, insn, true, true, insn)
    }
}

fn decode_regimm_exec(insn: u32, offset: u32) -> (r: Instruction)
    requires
        offset == branch_offset(insn),
    ensures
        r == decode_regimm(insn),
{
    let rs = (insn >> 21u32) & 0x1f;
    let rt = (insn >> 16u32) & 0x1f;
    if rt == 1 {
        Instruction::new(Opcode::BGEZ, rs as u8, 0, offset, true, true)
    } else if rt == 0 {
        Instruction::new(Opcode::BLTZ, rs as u8, 0, offset, true, true)
    } else if rt == 0x11 && rs == 0 {
        Instruction::new(Opcode::JumpDirect, 31, offset, 0, true, true)
    } else if rt == 0x1f {
        Instruction::new(Opcode::ADD, 0, 0, 0, true, true)
    } else {
        Instruction::new_with_raw(Opcode::UNIMPL, 0, 0, insn, true, true, insn)
    }
}

fn mem_opcode_exec(op: u32) -> (r: Option<Opcode>)
    ensures
        r == mem_opcode(op),
{
    if op == 0x20 {
        Some(Opcode::LB)
    } else if op == 0x21 {
        Some(Opcode::LH)
    } else if op == 0x22 {
        Some(Opcode::LWL)
    } else if op == 0x23 {
        Some(Opcode::LW)
    } else if op == 0x24 {
        Some(Opcode::LBU)
    } else if op == 0x25 {
        Some(Opcode::LHU)
    } else if op == 0x26 {
        Some(Opcode::LWR)
    } else if op == 0x30 {
        Some(Opcode::LL)
    } else if op == 0x28 {
        Some(Opcode::SB)
    } else if op == 0x29 {
        Some(Opcode::SH)
    } else if op == 0x2a {
        Some(Opcode::SWL)
    } else if op == 0x2b {
        Some(Opcode::SW)
    } else if op == 0x2e {
        Some(Opcode::SWR)
    } else if op == 0x38 {
        Some(Opcode::SC)
    } else {
        None
    }
}

impl Instruction {
    /// Decodes a 32-bit MIPS instruction word. Words that the machine does not implement decode
    /// to an `UNIMPL` instruction that carries the word, so decoding never fails.
    pub fn decode_from(insn: u32) -> (r: Result<Instruction, anyhow::Error>)
        ensures
            r is Ok,
            r->Ok_0 == spec_decode(insn),
    {
        let op = (insn >> 26u32) & 0x3f;
        let rs = (insn >> 21u32) & 0x1f;
        let rt = (insn >> 16u32) & 0x1f;
        let offset = insn & 0xffff;
        let offset_ext16 = sign_extend(offset, 16);
        let target_ext = sign_extend(insn & 0x3ff_ffff, 26);
        let branch = offset_ext16 << 2u32;
        let target = target_ext << 2u32;
        let mem_op = mem_opcode_exec(op);
        let ins = if op == 0 {
            decode_special_exec(insn)
        } else if op == 0x1c {
            decode_special2_exec(insn)
        } else if op == 0x1f {
            decode_special3_exec(insn)
        } else if op == 0x01 {
            decode_regimm_exec(insn, branch)
        } else if op == 0x02 {
            Instruction::new(Opcode::Jumpi, 0, target, 0, true, true)
        } else if op == 0x03 {
            Instruction::new(Opcode::Jumpi, 31, target, 0, true, true)
        } else if op == 0x04 {
            Instruction::new(Opcode::BEQ, rs as u8, rt, branch, false, true)
        } else if op == 0x05 {
            Instruction::new(Opcode::BNE, rs as u8, rt, branch, false, true)
        } else if op == 0x06 {
            Instruction::new(Opcode::BLEZ, rs as u8, 0, branch, true, true)
        } else if op == 0x07 {
            Instruction::new(Opcode::BGTZ, rs as u8, 0, branch, true, true)
        } else if let Some(mop) = mem_op {
            Instruction::new(mop, rt as u8, rs, offset_ext16, false, true)
        } else if op == 0x08 || op == 0x09 {
            Instruction::new(Opcode::ADD, rt as u8, rs, offset_ext16, false, true)
        } else if op == 0x0a {
            Instruction::new(Opcode::SLT, rt as u8, rs, offset_ext16, false, true)
        } else if op == 0x0b {
            Instruction::new(Opcode::SLTU, rt as u8, rs, offset_ext16, false, true)
        } else if op == 0x0f {
            Instruction::new(Opcode::SLL, rt as u8, offset_ext16, 16, true, true)
        } else if op == 0x0c {
            Instruction::new(Opcode::AND, rt as u8, rs, offset, false, true)
        } else if op == 0x0d {
            Instruction::new(Opcode::OR, rt as u8, rs, offset, false, true)
        } else if op == 0x0e {
            Instruction::new(Opcode::XOR, rt as u8, rs, offset, false, true)
        } else if op == 0x33 {
            Instruction::new(Opcode::ADD, 0, 0, 0, true, true)
        } else {
            Instruction::new_with_raw(Opcode::UNIMPL, 0, 0, insn, true, true, insn)
        };
        Ok(ins)
    }
}

} // verus!

verus! {

/// Every register operand the decoder produces names one of the machine's register slots
/// (the 32 general registers, LO = 32 and HI = 33); only `UNIMPL` words keep a raw word, and
/// they keep exactly the word that was decoded.
pub proof fn lemma_decode_well_formed(insn: u32)
    ensures
        spec_decode(insn).op_a <= 33,
        !spec_decode(insn).imm_b ==> spec_decode(insn).op_b <= 33,
        !spec_decode(insn).imm_c ==> spec_decode(insn).op_c <= 33,
        (spec_decode(insn).raw is Some) <==> (spec_decode(insn).opcode is UNIMPL),
        spec_decode(insn).raw is Some ==> spec_decode(insn).raw == Some(insn),
{
    assert(((insn >> 21u32) & 0x1f) <= 31 && ((insn >> 16u32) & 0x1f) <= 31 && ((insn >> 11u32) & 0x1f) <= 31
        && ((insn >> 6u32) & 0x1f) <= 31) by (bit_vector);
}

/// The register-format encoding with the given fields.
pub open spec fn encode_r(op: u32, rs: u32, rt: u32, rd: u32, sa: u32, func: u32) -> u32 {
    (op << 26u32) | (rs << 21u32) | (rt << 16u32) | (rd << 11u32) | (sa << 6u32) | func
}

/// The immediate-format encoding with the given fields.
pub open spec fn encode_i(op: u32, rs: u32, rt: u32, imm: u32) -> u32 {
    (op << 26u32) | (rs << 21u32) | (rt << 16u32) | imm
}

/// Decoding reads back the fields of a register-format word.
pub proof fn lemma_fields_of_encode_r(op: u32, rs: u32, rt: u32, rd: u32, sa: u32, func: u32)
    requires
        op < 64,
        rs < 32,
        rt < 32,
        rd < 32,
        sa < 32,
        func < 64,
    ensures
        field_op(encode_r(op, rs, rt, rd, sa, func)) == op,
        field_rs(encode_r(op, rs, rt, rd, sa, func)) == rs,
        field_rt(encode_r(op, rs, rt, rd, sa, func)) == rt,
        field_rd(encode_r(op, rs, rt, rd, sa, func)) == rd,
        field_sa(encode_r(op, rs, rt, rd, sa, func)) == sa,
        field_func(encode_r(op, rs, rt, rd, sa, func)) == func,
{
    let w = encode_r(op, rs, rt, rd, sa, func);
    assert((((((op << 26u32) | (rs << 21u32) | (rt << 16u32) | (rd << 11u32) | (sa << 6u32) | func) >> 26u32) & 0x3f) == op) && (((((op << 26u32) | (rs << 21u32) | (rt << 16u32) | (rd << 11u32) | (sa << 6u32) | func) >> 21u32) & 0x1f) == rs)
        && (((((op << 26u32) | (rs << 21u32) | (rt << 16u32) | (rd << 11u32) | (sa << 6u32) | func) >> 16u32) & 0x1f) == rt) && (((((op << 26u32) | (rs << 21u32) | (rt << 16u32) | (rd << 11u32) | (sa << 6u32) | func) >> 11u32) & 0x1f) == rd)
        && (((((op << 26u32) | (rs << 21u32) | (rt << 16u32) | (rd << 11u32) | (sa << 6u32) | func) >> 6u32) & 0x1f) == sa) && ((((op << 26u32) | (rs << 21u32) | (rt << 16u32) | (rd << 11u32) | (sa << 6u32) | func) & 0x3f) == func)) by (bit_vector)
        requires op < 64, rs < 32, rt < 32, rd < 32, sa < 32, func < 64;
}

/// Decoding reads back the fields of an immediate-format word.
pub proof fn lemma_fields_of_encode_i(op: u32, rs: u32, rt: u32, imm: u32)
    requires
        op < 64,
        rs < 32,
        rt < 32,
        imm < 0x1_0000,
    ensures
        field_op(encode_i(op, rs, rt, imm)) == op,
        field_rs(encode_i(op, rs, rt, imm)) == rs,
        field_rt(encode_i(op, rs, rt, imm)) == rt,
        field_imm(encode_i(op, rs, rt, imm)) == imm,
{
    assert((((((op << 26u32) | (rs << 21u32) | (rt << 16u32) | imm) >> 26u32) & 0x3f) == op) && (((((op << 26u32) | (rs << 21u32) | (rt << 16u32) | imm) >> 21u32) & 0x1f) == rs)
        && (((((op << 26u32) | (rs << 21u32) | (rt << 16u32) | imm) >> 16u32) & 0x1f) == rt) && ((((op << 26u32) | (rs << 21u32) | (rt << 16u32) | imm) & 0xffff) == imm)) by (bit_vector)
        requires op < 64, rs < 32, rt < 32, imm < 0x1_0000;
}

/// A three-register `ADDU rd, rs, rt` word decodes to the addition of `rs` and `rt` into `rd`,
/// and `ADDIU rt, rs, imm` to the addition of the sign-extended immediate.
pub proof fn lemma_decode_add(rs: u32, rt: u32, rd: u32, imm: u32)
    requires
        rs < 32,
        rt < 32,
        rd < 32,
        imm < 0x1_0000,
    ensures
        spec_decode(encode_r(0, rs, rt, rd, 0, 0x21)) == mk_instr(Opcode::ADD, rd as u8, rs, rt, false, false),
        spec_decode(encode_i(0x09, rs, rt, imm)) == mk_instr(Opcode::ADD, rt as u8, rs, spec_sign_extend(imm, 16), false, true),
{
    lemma_fields_of_encode_r(0, rs, rt, rd, 0, 0x21);
    lemma_fields_of_encode_i(0x09, rs, rt, imm);
}

/// A load word `LW rt, imm(rs)` decodes to a word load into `rt` from `rs` plus the
/// sign-extended offset, and `SW` to the matching store.
pub proof fn lemma_decode_lw_sw(rs: u32, rt: u32, imm: u32)
    requires
        rs < 32,
        rt < 32,
        imm < 0x1_0000,
    ensures
        spec_decode(encode_i(0x23, rs, rt, imm)) == mk_instr(Opcode::LW, rt as u8, rs, spec_sign_extend(imm, 16), false, true),
        spec_decode(encode_i(0x2b, rs, rt, imm)) == mk_instr(Opcode::SW, rt as u8, rs, spec_sign_extend(imm, 16), false, true),
{
    lemma_fields_of_encode_i(0x23, rs, rt, imm);
    lemma_fields_of_encode_i(0x2b, rs, rt, imm);
}

/// `ANDI`, `ORI` and `XORI` words take their 16-bit immediate zero-extended: each decodes to the
/// bitwise operation of `rs` with the immediate as it stands in the word, into `rt`.
pub proof fn lemma_decode_logical_immediate(rs: u32, rt: u32, imm: u32)
    requires
        rs < 32,
        rt < 32,
        imm < 0x1_0000,
    ensures
        spec_decode(encode_i(0x0c, rs, rt, imm)) == mk_instr(Opcode::AND, rt as u8, rs, imm, false, true),
        spec_decode(encode_i(0x0d, rs, rt, imm)) == mk_instr(Opcode::OR, rt as u8, rs, imm, false, true),
        spec_decode(encode_i(0x0e, rs, rt, imm)) == mk_instr(Opcode::XOR, rt as u8, rs, imm, false, true),
{
    lemma_fields_of_encode_i(0x0c, rs, rt, imm);
    lemma_fields_of_encode_i(0x0d, rs, rt, imm);
    lemma_fields_of_encode_i(0x0e, rs, rt, imm);
}

/// `SLTI` and `SLTIU` compare with the sign-extended immediate, signed and unsigned.
pub proof fn lemma_decode_set_less_immediate(rs: u32, rt: u32, imm: u32)
    requires
        rs < 32,
        rt < 32,
        imm < 0x1_0000,
    ensures
        spec_decode(encode_i(0x0a, rs, rt, imm)) == mk_instr(Opcode::SLT, rt as u8, rs, spec_sign_extend(imm, 16), false, true),
        spec_decode(encode_i(0x0b, rs, rt, imm)) == mk_instr(Opcode::SLTU, rt as u8, rs, spec_sign_extend(imm, 16), false, true),
{
    lemma_fields_of_encode_i(0x0a, rs, rt, imm);
    lemma_fields_of_encode_i(0x0b, rs, rt, imm);
}

/// `LUI rt, imm` decodes to a shift by 16 of an immediate whose low half is `imm`, so that it
/// loads `imm` into the upper half of `rt` and clears the lower half.
pub proof fn lemma_decode_lui(rt: u32, imm: u32)
    requires
        rt < 32,
        imm < 0x1_0000,
    ensures
        spec_decode(encode_i(0x0f, 0, rt, imm)).opcode is SLL,
        spec_decode(encode_i(0x0f, 0, rt, imm)).op_a == rt,
        spec_decode(encode_i(0x0f, 0, rt, imm)).op_c == 16,
        spec_decode(encode_i(0x0f, 0, rt, imm)).imm_b,
        spec_decode(encode_i(0x0f, 0, rt, imm)).imm_c,
        spec_decode(encode_i(0x0f, 0, rt, imm)).op_b << 16u32 == imm * 0x1_0000,
{
    lemma_fields_of_encode_i(0x0f, 0, rt, imm);
    let v = spec_sign_extend(imm, 16);
    assert(v << 16u32 == imm * 0x1_0000) by (bit_vector)
        requires
            v == spec_sign_extend(imm, 16),
            imm < 0x1_0000,
    ;
}

/// A conditional branch word carries its displacement in instructions: the 16-bit immediate,
/// read as a signed number, times four bytes (modulo 2^32). `BEQ` and `BNE` compare `rs` with
/// `rt`; in the REGIMM group `rt` 1 selects `BGEZ` and `rt` 0 `BLTZ` on `rs`.
pub proof fn lemma_decode_branch(rs: u32, rt: u32, imm: u32)
    requires
        rs < 32,
        rt < 32,
        imm < 0x1_0000,
    ensures
        ({
            let off = word_of(4 * (if imm < 0x8000 { imm as int } else { imm - 0x1_0000 }));
            &&& spec_decode(encode_i(0x04, rs, rt, imm)) == mk_instr(Opcode::BEQ, rs as u8, rt, off, false, true)
            &&& spec_decode(encode_i(0x05, rs, rt, imm)) == mk_instr(Opcode::BNE, rs as u8, rt, off, false, true)
            &&& spec_decode(encode_i(0x01, rs, 1, imm)) == mk_instr(Opcode::BGEZ, rs as u8, 0, off, true, true)
            &&& spec_decode(encode_i(0x01, rs, 0, imm)) == mk_instr(Opcode::BLTZ, rs as u8, 0, off, true, true)
        }),
{
    lemma_fields_of_encode_i(0x04, rs, rt, imm);
    lemma_fields_of_encode_i(0x05, rs, rt, imm);
    lemma_fields_of_encode_i(0x01, rs, 1, imm);
    lemma_fields_of_encode_i(0x01, rs, 0, imm);
    let v = spec_sign_extend(imm, 16);
    let o = v << 2u32;
    assert(o == (if imm < 0x8000 { imm * 4 } else { imm * 4 + 0xfffc_0000 })) by (bit_vector)
        requires
            v == spec_sign_extend(imm, 16),
            o == v << 2u32,
            imm < 0x1_0000,
    ;
}

} // verus!
