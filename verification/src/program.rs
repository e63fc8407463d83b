//! Programs: decoded instructions, their base address and entry point, and the initial memory
//! image.
use vstd::prelude::*;

use std::collections::BTreeMap;

use crate::instruction::Instruction;

verus! {

/// The top of the guest's address space.
pub const MAX_MEMORY: u32 = 0x7F00_0000;

/// The top of the address range code may be loaded into.
pub const MAX_CODE_MEMORY: u32 = 0x3F00_0000;

/// The initial stack pointer.
pub const INIT_SP: u32 = 0x7EFF_C000;

/// The size of a machine word in bytes.
pub const WORD_SIZE: u32 = 4;

/// A program that the executor can run.
pub struct Program {
    /// The decoded instructions, one per word from `pc_base` on.
    pub instructions: Vec<Instruction>,
    /// The entry point.
    pub pc_start: u32,
    /// The address of the first instruction.
    pub pc_base: u32,
    /// The program counter after the entry point.
    pub next_pc: u32,
    /// The initial memory image, word address to word.
    pub image: BTreeMap<u32, u32>,
}

impl Program {
    /// A program with the given instructions and no memory image.
    pub fn new(instructions: Vec<Instruction>, pc_start: u32, pc_base: u32) -> (r: Self)
        requires
            pc_start + 4 <= u32::MAX,
        ensures
            r.instructions@ == instructions@,
            r.pc_start == pc_start,
            r.pc_base == pc_base,
            r.next_pc == pc_start + 4,
            r.image@ == Map::<u32, u32>::empty(),
    {
        Program { instructions, pc_start, pc_base, next_pc: pc_start + 4, image: BTreeMap::new() }
    }

    /// Whether `pc` addresses one of the program's instructions.
    pub open spec fn fetchable(&self, pc: u32) -> bool {
        pc >= self.pc_base && (pc - self.pc_base) / 4 < self.instructions@.len()
    }

    /// The instruction at `pc`.
    pub open spec fn spec_fetch(&self, pc: u32) -> Instruction {
        self.instructions@[(pc - self.pc_base) / 4]
    }

    /// Fetch the instruction at the given program counter.
    pub fn fetch(&self, pc: u32) -> (r: Instruction)
        requires
            self.fetchable(pc),
        ensures
            r == self.spec_fetch(pc),
    {
        let idx = ((pc - self.pc_base) / 4) as usize;
        self.instructions[idx]
    }
}

/// The words `patch_stack` writes: the stack pointer register, and the initial stack with
/// `argc = 0`, empty `argv` and `envp`, and the auxiliary vector.
pub open spec fn initial_stack() -> Map<u32, u32> {
    let sp = INIT_SP;
    map![
        29u32 => sp,
        sp => 0u32,
        (sp + 4) as u32 => 0u32,
        (sp + 8) as u32 => 0u32,
        (sp + 12) as u32 => 0x06u32,
        (sp + 16) as u32 => 0x1000u32,
        (sp + 20) as u32 => 0x0bu32,
        (sp + 24) as u32 => 0x3e8u32,
        (sp + 28) as u32 => 0x0cu32,
        (sp + 32) as u32 => 0x3e8u32,
        (sp + 36) as u32 => 0x0du32,
        (sp + 40) as u32 => 0x3e8u32,
        (sp + 44) as u32 => 0x0eu32,
        (sp + 48) as u32 => 0x3e8u32,
        (sp + 52) as u32 => 0x10u32,
        (sp + 56) as u32 => 0u32,
        (sp + 60) as u32 => 0x11u32,
        (sp + 64) as u32 => 0x64u32,
        (sp + 68) as u32 => 0x17u32,
        (sp + 72) as u32 => 0u32,
        (sp + 76) as u32 => 0x19u32,
        (sp + 80) as u32 => (sp + 88) as u32,
        (sp + 84) as u32 => 0u32,
        (sp + 88) as u32 => 0x5f28_df1du32,
        (sp + 92) as u32 => 0x2cd1_002au32,
        (sp + 96) as u32 => 0x5ff9_f682u32,
        (sp + 100) as u32 => 0xd4d8_d538u32,
        (sp + 104) as u32 => 0u32
    ]
}

/// Writes the initial stack into a memory image: the words of `initial_stack` replace what
/// the image held at their addresses, and nothing else changes.
pub fn patch_stack(image: &mut BTreeMap<u32, u32>)
    ensures
        final(image)@ == old(image)@.union_prefer_right(initial_stack()),
{
    let sp: u32 = INIT_SP;
    image.insert(29, sp);
    image.insert(sp, 0);
    let mut cur_sp = sp + 4;
    image.insert(cur_sp, 0x00);
    cur_sp = cur_sp + 4;
    image.insert(cur_sp, 0x00);
    cur_sp = cur_sp + 4;
    image.insert(cur_sp, 0x06);
    image.insert(cur_sp + 4, 0x1000);
    cur_sp = cur_sp + 8;
    image.insert(cur_sp, 0x0b);
    image.insert(cur_sp + 4, 0x3e8);
    cur_sp = cur_sp + 8;
    image.insert(cur_sp, 0x0c);
    image.insert(cur_sp + 4, 0x3e8);
    cur_sp = cur_sp + 8;
    image.insert(cur_sp, 0x0d);
    image.insert(cur_sp + 4, 0x3e8);
    cur_sp = cur_sp + 8;
    image.insert(cur_sp, 0x0e);
    image.insert(cur_sp + 4, 0x3e8);
    cur_sp = cur_sp + 8;
    image.insert(cur_sp, 0x10);
    image.insert(cur_sp + 4, 0x00);
    cur_sp = cur_sp + 8;
    image.insert(cur_sp, 0x11);
    image.insert(cur_sp + 4, 0x64);
    cur_sp = cur_sp + 8;
    image.insert(cur_sp, 0x17);
    image.insert(cur_sp + 4, 0x00);
    cur_sp = cur_sp + 8;
    image.insert(cur_sp, 0x19);
    image.insert(cur_sp + 4, cur_sp + 12);
    cur_sp = cur_sp + 8;
    image.insert(cur_sp, 0);
    cur_sp = cur_sp + 4;
    image.insert(cur_sp, 0x5f28_df1d);
    image.insert(cur_sp + 4, 0x2cd1_002a);
    image.insert(cur_sp + 8, 0x5ff9_f682);
    image.insert(cur_sp + 12, 0xd4d8_d538);
    cur_sp = cur_sp + 16;
    image.insert(cur_sp, 0x00);
    assert(image@ =~= old(image)@.union_prefer_right(initial_stack()));
}

} // verus!
