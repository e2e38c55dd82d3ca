//! The gadget of `return`: the step drops part of the stack, keeps at most
//! one value, and goes back to the caller through the jump table.

use vstd::prelude::*;
use crate::circuits::etable_compact::op_configure::{
    bit_cell_at, bit_cell_ok, bit_writes, common_range_cell_ok, common_range_writes, u64_cell_at, u64_cell_ok,
    u64_cell_writes, BitCell, CommonRangeCell, EventTableCellAllocator, JTableLookupCell, U64Cell,
};
use crate::circuits::etable_compact::op_configure::op_load::vtype_number;
use crate::circuits::etable_compact::{BIT_CELLS, COL_AUX, COL_STATE, ETABLE_STEP_SIZE};
use crate::circuits::step::{StepInfo, VarType};
use crate::circuits::utils::{b2i, CellWrite, Context};

verus! {

/// The cells of the gadget.
#[derive(Clone, Copy, Debug, PartialEq, Eq, Structural)]
pub struct ReturnConfig {
    pub drop: CommonRangeCell,
    pub keep: BitCell,
    pub vtype: CommonRangeCell,
    pub value: U64Cell,
    pub return_lookup: JTableLookupCell,
}

/// Builds the gadget.
pub struct ReturnConfigBuilder {}

/// The cells that the gadget takes from an allocator in state `a`.
pub open spec fn return_layout(a: EventTableCellAllocator) -> ReturnConfig {
    let r = a.common_range_index;
    ReturnConfig {
        drop: CommonRangeCell { col: COL_STATE, rot: r },
        keep: bit_cell_at(a.bit_index as int),
        vtype: CommonRangeCell { col: COL_STATE, rot: (r + 1) as i32 },
        value: u64_cell_at(a.u64_index as int),
        return_lookup: JTableLookupCell { col: COL_AUX, rot: a.jtable_lookup_index },
    }
}

impl ReturnConfig {
    /// Every cell lies within a block.
    pub open spec fn wf(self) -> bool {
        &&& common_range_cell_ok(self.drop)
        &&& bit_cell_ok(self.keep)
        &&& common_range_cell_ok(self.vtype)
        &&& u64_cell_ok(self.value)
    }
}

impl ReturnConfigBuilder {
    /// Takes the gadget's cells from the allocator of its block.
    pub fn configure(common: &mut EventTableCellAllocator) -> (r: ReturnConfig)
        requires
            old(common).wf(),
            old(common).common_range_index + 2 <= ETABLE_STEP_SIZE,
            old(common).bit_index + 1 <= BIT_CELLS,
            old(common).u64_index + 1 <= 3,
            old(common).jtable_lookup_index < 2,
        ensures
            r == return_layout(*old(common)),
            r.wf(),
            final(common).wf(),
    {
        let drop = common.alloc_common_range_value();
        let keep = common.alloc_bit_value();
        let vtype = common.alloc_common_range_value();
        let value = common.alloc_u64();
        let return_lookup = common.alloc_jtable_lookup();
        ReturnConfig { drop, keep, vtype, value, return_lookup }
    }
}

/// The assignments of a return that drops `drop` values and keeps the
/// values `keep_values` of types `keep`: the number dropped, whether one is
/// kept, and the kept value with its type.
pub open spec fn return_writes(
    c: ReturnConfig,
    o: int,
    drop: u32,
    keep: Seq<VarType>,
    keep_values: Seq<u64>,
) -> Seq<CellWrite> {
    common_range_writes(c.drop, o, drop as u16) + if keep_values.len() == 0 {
        bit_writes(c.keep, o, false)
    } else {
        bit_writes(c.keep, o, true) + common_range_writes(c.vtype, o, vtype_number(keep[0])) + u64_cell_writes(
            c.value,
            o,
            keep_values[0],
        )
    }
}

/// The memory operations of a return: a read and a write for the value
/// kept.
pub open spec fn return_mops(keep: bool) -> int {
    2 * b2i(keep)
}

/// The change of the stack pointer: the values dropped.
pub open spec fn return_sp_diff(drop: u32) -> int {
    drop as int
}

/// What a `return` step writes, cell by cell: its drop count to the drop
/// cell, whether it keeps a value to the keep bit, and the kept value to
/// the value cell.
pub proof fn lemma_return_writes_cells(c: ReturnConfig, o: int, drop: u32, keep: Seq<VarType>, keep_values: Seq<u64>)
    requires
        drop < 0x10000,
    ensures
        crate::circuits::etable_compact::op_configure::has_write(return_writes(c, o, drop, keep, keep_values), c.drop.col, o + c.drop.rot, crate::circuits::utils::fv_u64(drop as u64)),
        crate::circuits::etable_compact::op_configure::has_write(
            return_writes(c, o, drop, keep, keep_values),
            c.keep.col,
            o + c.keep.rot,
            crate::circuits::utils::fv_bool(keep_values.len() > 0),
        ),
        keep_values.len() > 0 ==> crate::circuits::etable_compact::op_configure::has_write(
            return_writes(c, o, drop, keep, keep_values),
            c.value.value_col,
            o + c.value.value_rot,
            crate::circuits::utils::fv_u64(keep_values[0]),
        ),
{
    let d = common_range_writes(c.drop, o, drop as u16);
    let k = bit_writes(c.keep, o, keep_values.len() > 0);
    crate::circuits::etable_compact::op_configure::lemma_has_write_one(c.drop.col, o, c.drop.rot as int, crate::circuits::utils::fv_u64(drop as u64));
    crate::circuits::etable_compact::op_configure::lemma_has_write_one(c.keep.col, o, c.keep.rot as int, crate::circuits::utils::fv_bool(keep_values.len() > 0));
    if keep_values.len() == 0 {
        assert(return_writes(c, o, drop, keep, keep_values) == d + k);
        crate::circuits::etable_compact::op_configure::lemma_has_write_append(d, k, c.drop.col, o + c.drop.rot, crate::circuits::utils::fv_u64(drop as u64));
        crate::circuits::etable_compact::op_configure::lemma_has_write_append(d, k, c.keep.col, o + c.keep.rot, crate::circuits::utils::fv_bool(keep_values.len() > 0));
    } else {
        let t = common_range_writes(c.vtype, o, vtype_number(keep[0]));
        let v = u64_cell_writes(c.value, o, keep_values[0]);
        assert(return_writes(c, o, drop, keep, keep_values) =~= d + (k + t + v));
        crate::circuits::etable_compact::op_configure::lemma_u64_cell_writes_value(c.value, o, keep_values[0]);
        crate::circuits::etable_compact::op_configure::lemma_has_write_append(k + t, v, c.value.value_col, o + c.value.value_rot, crate::circuits::utils::fv_u64(keep_values[0]));
        crate::circuits::etable_compact::op_configure::lemma_has_write_append(k, t, c.keep.col, o + c.keep.rot, crate::circuits::utils::fv_bool(keep_values.len() > 0));
        crate::circuits::etable_compact::op_configure::lemma_has_write_append(k + t, v, c.keep.col, o + c.keep.rot, crate::circuits::utils::fv_bool(keep_values.len() > 0));
        crate::circuits::etable_compact::op_configure::lemma_has_write_append(d, k + t + v, c.drop.col, o + c.drop.rot, crate::circuits::utils::fv_u64(drop as u64));
        crate::circuits::etable_compact::op_configure::lemma_has_write_append(d, k + t + v, c.keep.col, o + c.keep.rot, crate::circuits::utils::fv_bool(keep_values.len() > 0));
        crate::circuits::etable_compact::op_configure::lemma_has_write_append(d, k + t + v, c.value.value_col, o + c.value.value_rot, crate::circuits::utils::fv_u64(keep_values[0]));
    }
}

impl ReturnConfig {
    /// Assigns the gadget's cells for a `return` step.
    pub fn assign(&self, ctx: &mut Context, step: &StepInfo)
        requires
            self.wf(),
            old(ctx).offset + 40 <= i32::MAX,
            step is Return,
            step->Return_keep.len() <= 1,
            step->Return_drop < 0x10000,
            step->Return_keep.len() == step->Return_keep_values.len(),
        ensures
            final(ctx).offset == old(ctx).offset,
            final(ctx).writes@ == old(ctx).writes@ + return_writes(
                *self,
                old(ctx).offset as int,
                step->Return_drop,
                step->Return_keep@,
                step->Return_keep_values@,
            ),
    {
        match step {
            StepInfo::Return { drop, keep, keep_values } => {
                self.drop.assign(ctx, *drop as u16);
                if keep_values.len() == 0 {
                    self.keep.assign(ctx, false);
                    proof {
                        assert(ctx.writes@ =~= old(ctx).writes@ + return_writes(
                            *self,
                            old(ctx).offset as int,
                            *drop,
                            keep@,
                            keep_values@,
                        ));
                    }
                } else {
                    self.keep.assign(ctx, true);
                    let vt: u16 = match keep[0] {
                        VarType::I32 => 1,
                        VarType::I64 => 2,
                    };
                    self.vtype.assign(ctx, vt);
                    self.value.assign(ctx, keep_values[0]);
                    proof {
                        assert(ctx.writes@ =~= old(ctx).writes@ + return_writes(
                            *self,
                            old(ctx).offset as int,
                            *drop,
                            keep@,
                            keep_values@,
                        ));
                    }
                }
            },
            _ => {},
        }
    }
}

} // verus!
