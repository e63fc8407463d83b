//! The chip that proves the local memory accesses of a shard.
use vstd::prelude::*;

verus! {

/// The number of local memory accesses a row of the chip holds.
pub const NUM_LOCAL_MEMORY_ENTRIES_PER_ROW: usize = 4;

/// A chip that proves the memory accesses local to a shard (the records' local memory events).
/// The chip's constraints and trace generation are field arithmetic of the proving system and
/// are not part of this library; the type only names the chip.
pub struct MemoryLocalChip {}

impl MemoryLocalChip {
    /// Creates a new memory chip.
    pub fn new() -> (r: Self) {
        Self {}
    }
}

/// The number of rows that `count` local accesses take: a row holds four, and a partly
/// filled row counts.
pub fn nb_rows(count: usize) -> (r: usize)
    ensures
        r as int == (count as int + NUM_LOCAL_MEMORY_ENTRIES_PER_ROW as int - 1) / NUM_LOCAL_MEMORY_ENTRIES_PER_ROW as int,
{
    if NUM_LOCAL_MEMORY_ENTRIES_PER_ROW > 1 {
        count / NUM_LOCAL_MEMORY_ENTRIES_PER_ROW + if count % NUM_LOCAL_MEMORY_ENTRIES_PER_ROW != 0 {
            1
        } else {
            0
        }
    } else {
        count
    }
}

} // verus!
