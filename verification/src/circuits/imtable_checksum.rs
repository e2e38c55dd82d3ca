//! The initial memory table laid out as an advice column whose cells the
//! image checksum reads: the heap entries, then the global ones, from the
//! first row on, then zeros up to the table's size.

use vstd::prelude::*;
use crate::circuits::imtable::{filter_located, minit_values, InitMemoryTableEntry, LocationType};
use crate::circuits::itable_checksum::{assign_padded_column, column_writes, padded, padding_writes};
use crate::circuits::utils::{Context, FieldValue};

verus! {

/// The table's column and size.
#[derive(Clone, Copy, Debug, PartialEq, Eq, Structural)]
pub struct InitMemoryTableChip {
    pub col: usize,
    pub max_rows: usize,
}

impl InitMemoryTableChip {
    /// Assigns the heap and global entries of `init_memory_entries`, which
    /// must leave room in the table, and the padding; gives the column's
    /// values.
    pub fn assign(&self, ctx: &mut Context, init_memory_entries: &Vec<InitMemoryTableEntry>) -> (r: Vec<FieldValue>)
        requires
            minit_values(init_memory_entries@).len() < self.max_rows,
        ensures
            final(ctx).offset == old(ctx).offset,
            final(ctx).writes@ == old(ctx).writes@ + column_writes(
                self.col,
                minit_values(init_memory_entries@),
                minit_values(init_memory_entries@).len() as nat,
            ) + padding_writes(self.col, minit_values(init_memory_entries@).len() as int, self.max_rows as int),
            r@ == padded(minit_values(init_memory_entries@), self.max_rows as nat),
    {
        let mut vals = filter_located(init_memory_entries, LocationType::Heap);
        let mut global = filter_located(init_memory_entries, LocationType::Global);
        vals.append(&mut global);
        assign_padded_column(ctx, self.col, &vals, self.max_rows)
    }
}

} // verus!
