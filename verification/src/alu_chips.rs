//! The chips that prove the arithmetic instructions.
use vstd::prelude::*;

verus! {

/// A chip that implements addition for the opcodes ADD, ADDU, ADDI, ADDIU, SUB and SUBU.
/// The chip's constraints and trace generation are field arithmetic of the proving system and
/// are not part of this library; the type only names the chip.
#[derive(Default)]
pub struct AddSubChip;

/// A chip that implements the opcodes CLO and CLZ.
/// The chip's constraints and trace generation are field arithmetic of the proving system and
/// are not part of this library; the type only names the chip.
#[derive(Default)]
pub struct CloClzChip;

/// A chip that implements the conditional comparisons of the opcodes MNE and MEQ.
/// The chip's constraints and trace generation are field arithmetic of the proving system and
/// are not part of this library; the type only names the chip.
#[derive(Default)]
pub struct MovCondChip;

/// A chip that implements the opcode WSBH.
/// The chip's constraints and trace generation are field arithmetic of the proving system and
/// are not part of this library; the type only names the chip.
#[derive(Default)]
pub struct WsbhChip;

} // verus!
