use vstd::prelude::*;

use crate::cpu::MAX_PROGRAM_ADDRESS;
use crate::cpu::MIN_PROGRAM_ADDRESS;

verus! {

/// What a validated memory range will be used for.
#[derive(Clone, Copy, Debug, PartialEq, Eq, Structural)]
pub enum MemoryUsage {
    Read,
    Write,
    Execute,
}

/// Whether the `size`-byte range starting at `base` may be used as `usage`
/// asks: reads may touch the whole address space up to `MAX_PROGRAM_ADDRESS`,
/// writes and execution must additionally stay out of the reserved glyph
/// space below `MIN_PROGRAM_ADDRESS`. A range whose end address leaves the
/// address space is never valid.
pub open spec fn spec_valid_range(base: int, size: int, usage: MemoryUsage) -> bool {
    &&& size > 0
    &&& base + size - 1 <= MAX_PROGRAM_ADDRESS
    &&& match usage {
        MemoryUsage::Read => true,
        MemoryUsage::Write | MemoryUsage::Execute => base >= MIN_PROGRAM_ADDRESS,
    }
}

pub fn is_valid_memory_range(base_address: u16, size_in_bytes: usize, usage: MemoryUsage) -> (valid:
    bool)
    requires
        size_in_bytes > 0,
    ensures
        valid == spec_valid_range(base_address as int, size_in_bytes as int, usage),
{
    let base_address = base_address as usize;

    if size_in_bytes - 1 > MAX_PROGRAM_ADDRESS {
        // The end address would leave the address space for any base.
        return false;
    }
    let end_address = base_address + (size_in_bytes - 1);

    match usage {
        MemoryUsage::Read => (end_address <= MAX_PROGRAM_ADDRESS),
        MemoryUsage::Write | MemoryUsage::Execute => (base_address >= MIN_PROGRAM_ADDRESS
            && end_address <= MAX_PROGRAM_ADDRESS),
    }
}

/// The validator rejects every `(base, size)` pair whose computed end
/// address `base + size - 1` lies beyond the addressable space, whatever the
/// intended usage.
pub proof fn lemma_validator_rejects_range_overflow(base: u16, size: int, usage: MemoryUsage)
    requires
        size > 0,
        base + size - 1 > MAX_PROGRAM_ADDRESS,
    ensures
        !spec_valid_range(base as int, size, usage),
{
}

} // verus!
