//! Decoded MIPS instructions, their classification, and the decoder.
use vstd::prelude::*;

use crate::opcode::Opcode;

verus! {

/// The error type of the decoder's result.
#[verifier::external_type_specification]
#[verifier::external_body]
pub struct ExAnyhowError(anyhow::Error);

/// A decoded MIPS instruction.
#[derive(Clone, Copy, Debug, PartialEq, Eq, Structural)]
pub struct Instruction {
    /// The operation to execute.
    pub opcode: Opcode,
    /// The first operand (a register index).
    pub op_a: u8,
    /// The second operand.
    pub op_b: u32,
    /// The third operand.
    pub op_c: u32,
    /// Whether the second operand is an immediate value.
    pub imm_b: bool,
    /// Whether the third operand is an immediate value.
    pub imm_c: bool,
    /// The raw instruction word, kept for instructions that are not implemented.
    pub raw: Option<u32>,
}

/// The instruction with the given fields and no raw word.
pub open spec fn mk_instr(opcode: Opcode, op_a: u8, op_b: u32, op_c: u32, imm_b: bool, imm_c: bool) -> Instruction {
    Instruction { opcode, op_a, op_b, op_c, imm_b, imm_c, raw: None }
}

/// The placeholder for an instruction word that is not implemented.
pub open spec fn unimpl_instr(insn: u32) -> Instruction {
    Instruction { opcode: Opcode::UNIMPL, op_a: 0, op_b: 0, op_c: insn, imm_b: true, imm_c: true, raw: Some(insn) }
}

impl Instruction {
    /// Create a new instruction.
    pub fn new(opcode: Opcode, op_a: u8, op_b: u32, op_c: u32, imm_b: bool, imm_c: bool) -> (r: Self)
        ensures
            r == mk_instr(opcode, op_a, op_b, op_c, imm_b, imm_c),
    {
        Self { opcode, op_a, op_b, op_c, imm_b, imm_c, raw: None }
    }

    /// Create a new instruction that keeps its raw word.
    pub fn new_with_raw(opcode: Opcode, op_a: u8, op_b: u32, op_c: u32, imm_b: bool, imm_c: bool, raw: u32) -> (r: Self)
        ensures
            r == (Instruction { opcode, op_a, op_b, op_c, imm_b, imm_c, raw: Some(raw) }),
    {
        Self { opcode, op_a, op_b, op_c, imm_b, imm_c, raw: Some(raw) }
    }

    pub open spec fn spec_is_alu(self) -> bool {
        let o = self.opcode;
        o is ADD || o is SUB || o is MULT || o is MULTU || o is MUL || o is DIV || o is DIVU || o is SLL
            || o is SRL || o is SRA || o is ROR || o is SLT || o is SLTU || o is AND || o is OR || o is XOR
            || o is NOR || o is CLZ || o is CLO || o is MOD || o is MODU
    }

    /// Returns if the instruction is an ALU instruction.
    pub fn is_alu_instruction(&self) -> (r: bool)
        ensures
            r == self.spec_is_alu(),
    {
        matches!(
            self.opcode,
            Opcode::ADD | Opcode::SUB | Opcode::MULT | Opcode::MULTU | Opcode::MUL | Opcode::DIV
                | Opcode::DIVU | Opcode::SLL | Opcode::SRL | Opcode::SRA | Opcode::ROR | Opcode::SLT
                | Opcode::SLTU | Opcode::AND | Opcode::OR | Opcode::XOR | Opcode::NOR | Opcode::CLZ
                | Opcode::CLO | Opcode::MOD | Opcode::MODU
        )
    }

    pub open spec fn spec_is_misc(self) -> bool {
        let o = self.opcode;
        o is WSBH || o is SEXT || o is EXT || o is INS || o is MADDU || o is MSUBU || o is MEQ || o is MNE
            || o is TEQ || o is MADD || o is MSUB
    }

    /// Returns if the instruction is a misc instruction.
    pub fn is_misc_instruction(&self) -> (r: bool)
        ensures
            r == self.spec_is_misc(),
    {
        matches!(
            self.opcode,
            Opcode::WSBH | Opcode::SEXT | Opcode::EXT | Opcode::INS | Opcode::MADDU | Opcode::MSUBU
                | Opcode::MEQ | Opcode::MNE | Opcode::TEQ | Opcode::MADD | Opcode::MSUB
        )
    }

    /// Returns if the instruction is a conditional move.
    pub fn is_mov_cond_instruction(&self) -> (r: bool)
        ensures
            r == (self.opcode is MEQ || self.opcode is MNE),
    {
        matches!(self.opcode, Opcode::MEQ | Opcode::MNE)
    }

    /// Returns if the instruction is a syscall instruction.
    pub fn is_syscall_instruction(&self) -> (r: bool)
        ensures
            r == (self.opcode is SYSCALL),
    {
        matches!(self.opcode, Opcode::SYSCALL)
    }

    pub open spec fn spec_is_memory(self) -> bool {
        let o = self.opcode;
        o is LH || o is LWL || o is LW || o is LBU || o is LHU || o is LWR || o is SB || o is SH || o is SWL
            || o is SW || o is SWR || o is LL || o is SC || o is LB
    }

    pub open spec fn spec_is_check_memory(self) -> bool {
        let o = self.opcode;
        o is SYSCALL || o is MADDU || o is MSUBU || o is MADD || o is MSUB || self.spec_is_memory()
    }

    /// Returns if the instruction touches memory beyond its register operands.
    pub fn is_check_memory_instruction(&self) -> (r: bool)
        ensures
            r == self.spec_is_check_memory(),
    {
        matches!(
            self.opcode,
            Opcode::SYSCALL | Opcode::MADDU | Opcode::MSUBU | Opcode::MADD | Opcode::MSUB | Opcode::LH
                | Opcode::LWL | Opcode::LW | Opcode::LBU | Opcode::LHU | Opcode::LWR | Opcode::SB
                | Opcode::SH | Opcode::SWL | Opcode::SW | Opcode::SWR | Opcode::LL | Opcode::SC
                | Opcode::LB
        )
    }

    pub open spec fn spec_is_rw_a(self) -> bool {
        let o = self.opcode;
        o is SYSCALL || o is INS || o is MADDU || o is MSUBU || o is MADD || o is MSUB || o is MEQ
            || o is MNE || self.spec_is_memory()
    }

    /// Returns if the instruction reads its first operand before writing it.
    pub fn is_rw_a_instruction(&self) -> (r: bool)
        ensures
            r == self.spec_is_rw_a(),
    {
        matches!(
            self.opcode,
            Opcode::SYSCALL | Opcode::INS | Opcode::MADDU | Opcode::MSUBU | Opcode::MADD | Opcode::MSUB
                | Opcode::MEQ | Opcode::MNE | Opcode::LH | Opcode::LWL | Opcode::LW | Opcode::LBU
                | Opcode::LHU | Opcode::LWR | Opcode::SB | Opcode::SH | Opcode::SWL | Opcode::SW
                | Opcode::SWR | Opcode::LL | Opcode::SC | Opcode::LB
        )
    }

    /// Returns if the instruction is a memory instruction.
    pub fn is_memory_instruction(&self) -> (r: bool)
        ensures
            r == self.spec_is_memory(),
    {
        matches!(
            self.opcode,
            Opcode::LH | Opcode::LWL | Opcode::LW | Opcode::LBU | Opcode::LHU | Opcode::LWR | Opcode::SB
                | Opcode::SH | Opcode::SWL | Opcode::SW | Opcode::SWR | Opcode::LL | Opcode::SC
                | Opcode::LB
        )
    }

    pub open spec fn spec_is_load(self) -> bool {
        let o = self.opcode;
        o is LB || o is LH || o is LW || o is LWL || o is LWR || o is LBU || o is LHU || o is LL
    }

    /// Returns if the instruction loads from memory.
    pub fn is_memory_load_instruction(&self) -> (r: bool)
        ensures
            r == self.spec_is_load(),
    {
        matches!(
            self.opcode,
            Opcode::LB | Opcode::LH | Opcode::LW | Opcode::LWL | Opcode::LWR | Opcode::LBU | Opcode::LHU
                | Opcode::LL
        )
    }

    pub open spec fn spec_is_store(self) -> bool {
        let o = self.opcode;
        o is SB || o is SH || o is SW || o is SWL || o is SWR || o is SC
    }

    /// Returns if the instruction stores to memory.
    pub fn is_memory_store_instruction(&self) -> (r: bool)
        ensures
            r == self.spec_is_store(),
    {
        matches!(self.opcode, Opcode::SB | Opcode::SH | Opcode::SW | Opcode::SWL | Opcode::SWR | Opcode::SC)
    }

    /// Returns if the instruction stores to memory and is not a store-conditional.
    pub fn is_memory_store_instruction_except_sc(&self) -> (r: bool)
        ensures
            r == (self.spec_is_store() && !(self.opcode is SC)),
    {
        matches!(self.opcode, Opcode::SB | Opcode::SH | Opcode::SW | Opcode::SWL | Opcode::SWR)
    }

    pub open spec fn spec_is_branch(self) -> bool {
        let o = self.opcode;
        o is BEQ || o is BNE || o is BLTZ || o is BGEZ || o is BLEZ || o is BGTZ
    }

    /// Returns if the instruction is a branch instruction.
    pub fn is_branch_instruction(&self) -> (r: bool)
        ensures
            r == self.spec_is_branch(),
    {
        matches!(self.opcode, Opcode::BEQ | Opcode::BNE | Opcode::BLTZ | Opcode::BGEZ | Opcode::BLEZ | Opcode::BGTZ)
    }

    /// Returns if the instruction is a branch that compares with zero.
    pub fn is_branch_cmp_instruction(&self) -> (r: bool)
        ensures
            r == self.opcode.spec_only_one_operand(),
    {
        matches!(self.opcode, Opcode::BLTZ | Opcode::BGEZ | Opcode::BLEZ | Opcode::BGTZ)
    }

    /// Returns if the instruction counts leading zeros or ones.
    pub fn is_cloclz_instruction(&self) -> (r: bool)
        ensures
            r == (self.opcode is CLZ || self.opcode is CLO),
    {
        matches!(self.opcode, Opcode::CLZ | Opcode::CLO)
    }

    /// Returns if the instruction is an unsigned multiply-accumulate.
    pub fn is_maddsubu_instruction(&self) -> (r: bool)
        ensures
            r == (self.opcode is MADDU || self.opcode is MSUBU),
    {
        matches!(self.opcode, Opcode::MADDU | Opcode::MSUBU)
    }

    /// Returns if the instruction is a signed multiply-accumulate.
    pub fn is_maddsub_instruction(&self) -> (r: bool)
        ensures
            r == (self.opcode is MADD || self.opcode is MSUB),
    {
        matches!(self.opcode, Opcode::MADD | Opcode::MSUB)
    }

    /// Returns if the instruction writes a result pair to LO and HI.
    pub fn is_mult_div_instruction(&self) -> (r: bool)
        ensures
            r == self.opcode.spec_uses_lo_hi(),
    {
        matches!(self.opcode, Opcode::MULT | Opcode::MULTU | Opcode::DIV | Opcode::DIVU)
    }

    pub open spec fn spec_is_jump(self) -> bool {
        self.opcode is Jump || self.opcode is Jumpi || self.opcode is JumpDirect
    }

    /// Returns if the instruction is a jump instruction.
    pub fn is_jump_instruction(&self) -> (r: bool)
        ensures
            r == self.spec_is_jump(),
    {
        matches!(self.opcode, Opcode::Jump | Opcode::Jumpi | Opcode::JumpDirect)
    }
}

} // verus!
