//! The machine's registers. They live at the lowest addresses of the memory map.
use vstd::prelude::*;

verus! {

/// The number of register slots at the bottom of the address space.
pub const NUM_REGISTERS: usize = 36;

/// A register of the MIPS machine, together with the LO/HI multiply results and the two
/// bookkeeping slots for the heap and program break.
#[allow(clippy::upper_case_acronyms)]
#[derive(Clone, Copy, Debug, PartialEq, Eq, Structural, Hash)]
pub enum Register {
    ZERO,
    AT,
    V0,
    V1,
    A0,
    A1,
    A2,
    A3,
    T0,
    T1,
    T2,
    T3,
    T4,
    T5,
    T6,
    T7,
    S0,
    S1,
    S2,
    S3,
    S4,
    S5,
    S6,
    S7,
    T8,
    T9,
    K0,
    K1,
    GP,
    SP,
    FP,
    RA,
    LO,
    HI,
    HEAP,
    BRK,
}

impl Register {
    /// The address at which the register is stored.
    pub open spec fn spec_index(self) -> u32 {
        match self {
            Register::ZERO => 0u32,
            Register::AT => 1u32,
            Register::V0 => 2u32,
            Register::V1 => 3u32,
            Register::A0 => 4u32,
            Register::A1 => 5u32,
            Register::A2 => 6u32,
            Register::A3 => 7u32,
            Register::T0 => 8u32,
            Register::T1 => 9u32,
            Register::T2 => 10u32,
            Register::T3 => 11u32,
            Register::T4 => 12u32,
            Register::T5 => 13u32,
            Register::T6 => 14u32,
            Register::T7 => 15u32,
            Register::S0 => 16u32,
            Register::S1 => 17u32,
            Register::S2 => 18u32,
            Register::S3 => 19u32,
            Register::S4 => 20u32,
            Register::S5 => 21u32,
            Register::S6 => 22u32,
            Register::S7 => 23u32,
            Register::T8 => 24u32,
            Register::T9 => 25u32,
            Register::K0 => 26u32,
            Register::K1 => 27u32,
            Register::GP => 28u32,
            Register::SP => 29u32,
            Register::FP => 30u32,
            Register::RA => 31u32,
            Register::LO => 32u32,
            Register::HI => 33u32,
            Register::HEAP => 34u32,
            Register::BRK => 35u32,
        }
    }

    /// The address at which the register is stored.
    pub fn index(self) -> (r: u32)
        ensures
            r == self.spec_index(),
            r < NUM_REGISTERS,
    {
        match self {
            Register::ZERO => 0u32,
            Register::AT => 1u32,
            Register::V0 => 2u32,
            Register::V1 => 3u32,
            Register::A0 => 4u32,
            Register::A1 => 5u32,
            Register::A2 => 6u32,
            Register::A3 => 7u32,
            Register::T0 => 8u32,
            Register::T1 => 9u32,
            Register::T2 => 10u32,
            Register::T3 => 11u32,
            Register::T4 => 12u32,
            Register::T5 => 13u32,
            Register::T6 => 14u32,
            Register::T7 => 15u32,
            Register::S0 => 16u32,
            Register::S1 => 17u32,
            Register::S2 => 18u32,
            Register::S3 => 19u32,
            Register::S4 => 20u32,
            Register::S5 => 21u32,
            Register::S6 => 22u32,
            Register::S7 => 23u32,
            Register::T8 => 24u32,
            Register::T9 => 25u32,
            Register::K0 => 26u32,
            Register::K1 => 27u32,
            Register::GP => 28u32,
            Register::SP => 29u32,
            Register::FP => 30u32,
            Register::RA => 31u32,
            Register::LO => 32u32,
            Register::HI => 33u32,
            Register::HEAP => 34u32,
            Register::BRK => 35u32,
        }
    }

    /// The register stored at address `value`, if there is one.
    pub fn from_u8(value: u8) -> (r: Option<Register>)
        ensures
            match r {
                Some(reg) => reg.spec_index() == value as u32,
                None => value as usize >= NUM_REGISTERS,
            },
    {
        match value {
            0 => Some(Register::ZERO),
            1 => Some(Register::AT),
            2 => Some(Register::V0),
            3 => Some(Register::V1),
            4 => Some(Register::A0),
            5 => Some(Register::A1),
            6 => Some(Register::A2),
            7 => Some(Register::A3),
            8 => Some(Register::T0),
            9 => Some(Register::T1),
            10 => Some(Register::T2),
            11 => Some(Register::T3),
            12 => Some(Register::T4),
            13 => Some(Register::T5),
            14 => Some(Register::T6),
            15 => Some(Register::T7),
            16 => Some(Register::S0),
            17 => Some(Register::S1),
            18 => Some(Register::S2),
            19 => Some(Register::S3),
            20 => Some(Register::S4),
            21 => Some(Register::S5),
            22 => Some(Register::S6),
            23 => Some(Register::S7),
            24 => Some(Register::T8),
            25 => Some(Register::T9),
            26 => Some(Register::K0),
            27 => Some(Register::K1),
            28 => Some(Register::GP),
            29 => Some(Register::SP),
            30 => Some(Register::FP),
            31 => Some(Register::RA),
            32 => Some(Register::LO),
            33 => Some(Register::HI),
            34 => Some(Register::HEAP),
            35 => Some(Register::BRK),
            _ => None,
        }
    }
}

} // verus!
