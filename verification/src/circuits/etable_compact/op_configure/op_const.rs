//! The gadget of `i32.const`: the constant, pushed with its type.

use vstd::prelude::*;
use crate::circuits::etable_compact::op_configure::{
    common_range_cell_at, common_range_cell_ok, common_range_writes, u64_cell_at, u64_cell_ok,
    u64_cell_writes, CommonRangeCell, EventTableCellAllocator, U64Cell,
};
use crate::circuits::step::StepInfo;
use crate::circuits::utils::{CellWrite, Context};

verus! {

/// The cells of the gadget.
#[derive(Clone, Copy, Debug, PartialEq, Eq, Structural)]
pub struct ConstConfig {
    pub vtype: CommonRangeCell,
    pub value: U64Cell,
}

/// Builds the gadget.
pub struct ConstConfigBuilder {}

impl ConstConfig {
    /// Every cell lies within a block.
    pub open spec fn wf(self) -> bool {
        common_range_cell_ok(self.vtype) && u64_cell_ok(self.value)
    }
}

impl ConstConfigBuilder {
    /// Takes the gadget's cells from the allocator of its block.
    pub fn configure(common: &mut EventTableCellAllocator) -> (r: ConstConfig)
        requires
            old(common).wf(),
            old(common).common_range_index + 1 <= 20,
            old(common).u64_index + 1 <= 3,
        ensures
            r == (ConstConfig {
                vtype: common_range_cell_at(old(common).common_range_index as int),
                value: u64_cell_at(old(common).u64_index as int),
            }),
            r.wf(),
            final(common).wf(),
            *final(common) == (EventTableCellAllocator {
                common_range_index: (old(common).common_range_index + 1) as i32,
                u64_index: (old(common).u64_index + 1) as i32,
                ..*old(common)
            }),
    {
        let vtype = common.alloc_common_range_value();
        let value = common.alloc_u64();
        ConstConfig { vtype, value }
    }
}

/// The value cell holds the constant sign-extended to 64 bits, and the type
/// cell holds the code of the 32-bit type.
pub open spec fn const_writes(c: ConstConfig, off: int, value: i32) -> Seq<CellWrite> {
    u64_cell_writes(c.value, off, value as u64) + common_range_writes(c.vtype, off, 1)
}

/// What an `i32.const` step writes, cell by cell: the constant, as a
/// 64-bit pattern, to the value cell, and the type `i32` to the type cell.
pub proof fn lemma_const_writes_cells(c: ConstConfig, off: int, value: i32)
    ensures
        crate::circuits::etable_compact::op_configure::has_write(const_writes(c, off, value), c.value.value_col, off + c.value.value_rot, crate::circuits::utils::fv_u64(value as u64)),
        crate::circuits::etable_compact::op_configure::has_write(const_writes(c, off, value), c.vtype.col, off + c.vtype.rot, crate::circuits::utils::fv_u64(1)),
{
    let p0 = u64_cell_writes(c.value, off, value as u64);
    let p1 = common_range_writes(c.vtype, off, 1);
    assert(const_writes(c, off, value) == p0 + p1);
    {
        crate::circuits::etable_compact::op_configure::lemma_u64_cell_writes_value(c.value, off, value as u64);
        crate::circuits::etable_compact::op_configure::lemma_has_write_append(p0, p1, c.value.value_col, off + c.value.value_rot, crate::circuits::utils::fv_u64(value as u64));
    }
    {
        crate::circuits::etable_compact::op_configure::lemma_has_write_one(c.vtype.col, off, c.vtype.rot as int, crate::circuits::utils::fv_u64(1));
        crate::circuits::etable_compact::op_configure::lemma_has_write_append(p0, p1, c.vtype.col, off + c.vtype.rot, crate::circuits::utils::fv_u64(1));
    }
}

impl ConstConfig {
    /// Assigns the gadget's cells for an `i32.const` step.
    pub fn assign(&self, ctx: &mut Context, step: &StepInfo)
        requires
            self.wf(),
            old(ctx).offset + 40 <= i32::MAX,
            step is I32Const,
        ensures
            final(ctx).offset == old(ctx).offset,
            final(ctx).writes@ == old(ctx).writes@ + const_writes(*self, old(ctx).offset as int, step->I32Const_value),
    {
        let value: i32 = match step {
            StepInfo::I32Const { value } => *value,
            _ => 0,
        };
        let ghost start = old(ctx).writes@;
        let ghost o = old(ctx).offset as int;
        self.value.assign(ctx, value as u64);
        self.vtype.assign(ctx, 1);
        proof {
            assert(ctx.writes@ =~= start + const_writes(*self, o, value));
        }
    }
}

} // verus!
