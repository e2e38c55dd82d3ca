//! The gadget of `memory.size`: the step pushes the number of pages that the
//! memory has; its one cell is the lookup of that write to the stack.

use vstd::prelude::*;
use crate::circuits::etable_compact::op_configure::{mtable_lookup_cell_at, EventTableCellAllocator, MTableLookupCell};

verus! {

/// The cells of the gadget.
#[derive(Clone, Copy, Debug, PartialEq, Eq, Structural)]
pub struct MemorySizeConfig {
    pub lookup_stack_write: MTableLookupCell,
}

/// Builds the gadget.
pub struct MemorySizeConfigBuilder {}

impl MemorySizeConfigBuilder {
    /// Takes the gadget's cell from the allocator of its block.
    pub fn configure(common: &mut EventTableCellAllocator) -> (r: MemorySizeConfig)
        requires
            old(common).wf(),
            old(common).mtable_lookup_index + 1 <= 11,
        ensures
            r == (MemorySizeConfig { lookup_stack_write: mtable_lookup_cell_at(old(common).mtable_lookup_index as int) }),
            final(common).wf(),
            *final(common) == (EventTableCellAllocator {
                mtable_lookup_index: (old(common).mtable_lookup_index + 1) as i32,
                ..*old(common)
            }),
    {
        let lookup_stack_write = common.alloc_mtable_lookup();
        MemorySizeConfig { lookup_stack_write }
    }
}

/// The change of the stack pointer: the step pushes one value.
pub open spec fn memory_size_sp_diff() -> int {
    -1
}

} // verus!
