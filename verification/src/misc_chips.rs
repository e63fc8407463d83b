//! The chips that prove the miscellaneous instructions.
use vstd::prelude::*;

verus! {

/// A chip that implements the miscellaneous instructions: byte swaps, sign extension, bit
/// fields, conditional moves, traps and multiply-accumulate.
/// The chip's constraints and trace generation are field arithmetic of the proving system and
/// are not part of this library; the type only names the chip.
#[derive(Default)]
pub struct MiscInstrsChip;

/// A chip that implements conditional moves for the opcodes MNE and MEQ.
/// The chip's constraints and trace generation are field arithmetic of the proving system and
/// are not part of this library; the type only names the chip.
#[derive(Default)]
pub struct MovCondChip;

/// The columns of a sign extension. How they are filled and constrained belongs to the proving
/// system and is not part of this library.
#[derive(Default, Debug, Clone, Copy)]
pub struct SextCols<T> {
    /// The most significant bit of the most significant byte.
    pub most_sig_bit: T,
    /// The most significant byte.
    pub sig_byte: T,
    /// Whether the instruction is SEB.
    pub is_seb: T,
    /// Whether the instruction is SEH.
    pub is_seh: T,
    /// Whether the operands of a trap are equal.
    pub a_eq_b: T,
}

} // verus!
