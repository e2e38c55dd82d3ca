//! The initial memory table as a lookup column: a first row of zero, then
//! the heap entries and the global ones, one per row.

use vstd::prelude::*;
use crate::circuits::etable_compact::op_configure::one_write;
use crate::circuits::imtable::{filter_located, minit_values, InitMemoryTableEntry, LocationType};
use crate::circuits::itable::{after_zero_writes, assign_after_zero};
use crate::circuits::utils::{fv_u64, Context};

verus! {

/// The table's column.
#[derive(Clone, Copy, Debug, PartialEq, Eq, Structural)]
pub struct InitMemoryTableChip {
    pub col: usize,
}

impl InitMemoryTableChip {
    /// Assigns a zero, then the heap and global entries of
    /// `init_memory_entries`, the `i`-th at row `i + 1`.
    pub fn assign(&self, ctx: &mut Context, init_memory_entries: &Vec<InitMemoryTableEntry>)
        ensures
            final(ctx).offset == old(ctx).offset,
            final(ctx).writes@ == old(ctx).writes@ + one_write(self.col, 0, 0, fv_u64(0)) + after_zero_writes(
                self.col,
                minit_values(init_memory_entries@),
                minit_values(init_memory_entries@).len() as nat,
            ),
    {
        let mut vals = filter_located(init_memory_entries, LocationType::Heap);
        let mut global = filter_located(init_memory_entries, LocationType::Global);
        vals.append(&mut global);
        assign_after_zero(ctx, self.col, &vals);
    }
}

} // verus!
