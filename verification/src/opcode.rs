//! The operations understood by the MIPS executor.
use vstd::prelude::*;

verus! {

/// An operation of the MIPS instruction set, after decoding.
#[allow(non_camel_case_types)]
#[allow(clippy::upper_case_acronyms)]
#[derive(Clone, Copy, Debug, PartialEq, Eq, Structural, Hash)]
pub enum Opcode {
    ADD,
    SUB,
    MULT,
    MULTU,
    MUL,
    DIV,
    DIVU,
    SLL,
    SRL,
    SRA,
    ROR,
    SLT,
    SLTU,
    AND,
    OR,
    XOR,
    NOR,
    CLZ,
    CLO,
    MOD,
    MODU,
    BEQ,
    BNE,
    BLTZ,
    BGEZ,
    BLEZ,
    BGTZ,
    Jump,
    Jumpi,
    JumpDirect,
    LB,
    LH,
    LWL,
    LW,
    LBU,
    LHU,
    LWR,
    LL,
    SB,
    SH,
    SWL,
    SW,
    SWR,
    SC,
    SYSCALL,
    WSBH,
    SEXT,
    EXT,
    INS,
    MADDU,
    MSUBU,
    MADD,
    MSUB,
    MEQ,
    MNE,
    TEQ,
    UNIMPL,
}

impl Opcode {
    /// Whether the operation writes its result to the LO and HI registers.
    pub open spec fn spec_uses_lo_hi(self) -> bool {
        self is MULT || self is MULTU || self is DIV || self is DIVU
    }

    /// Whether the operation writes its result to the LO and HI registers.
    pub fn is_use_lo_hi_alu(self) -> (r: bool)
        ensures
            r == self.spec_uses_lo_hi(),
    {
        matches!(self, Opcode::MULT | Opcode::MULTU | Opcode::DIV | Opcode::DIVU)
    }

    /// Whether a branch compares its first operand with zero only.
    pub open spec fn spec_only_one_operand(self) -> bool {
        self is BGEZ || self is BLEZ || self is BGTZ || self is BLTZ
    }

    /// Whether a branch compares its first operand with zero only.
    pub fn only_one_operand(self) -> (r: bool)
        ensures
            r == self.spec_only_one_operand(),
    {
        matches!(self, Opcode::BGEZ | Opcode::BLEZ | Opcode::BGTZ | Opcode::BLTZ)
    }
}

} // verus!
