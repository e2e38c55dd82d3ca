//! The gadget of `global.set`: the step pops a value from the stack and writes it to a global variable.

use vstd::prelude::*;
use crate::circuits::utils::FieldValue;
use crate::circuits::etable_compact::op_configure::{
    assign_mtable_lookups, mtable_lookup_cell_ok, mtable_lookup_writes,
    common_range_cell_ok, common_range_writes, mtable_lookup_cell_at, u64_cell_at, u64_cell_ok, u64_cell_writes,
    CommonRangeCell, EventTableCellAllocator, MTableLookupCell, U64Cell,
};
use crate::circuits::etable_compact::op_configure::op_load::vtype_number;
use crate::circuits::etable_compact::{COL_STATE, ETABLE_STEP_SIZE};
use crate::circuits::step::StepInfo;
use crate::circuits::utils::{CellWrite, Context};

verus! {

/// The cells of the gadget.
#[derive(Clone, Copy, Debug, PartialEq, Eq, Structural)]
pub struct GlobalSetConfig {
    pub idx: CommonRangeCell,
    pub vtype: CommonRangeCell,
    pub value: U64Cell,
    pub lookup_stack_read: MTableLookupCell,
    pub lookup_global_set: MTableLookupCell,
}

/// Builds the gadget.
pub struct GlobalSetConfigBuilder {}

/// The cells that the gadget takes from an allocator in state `a`.
pub open spec fn global_set_layout(a: EventTableCellAllocator) -> GlobalSetConfig {
    let r = a.common_range_index;
    GlobalSetConfig {
        idx: CommonRangeCell { col: COL_STATE, rot: r },
        vtype: CommonRangeCell { col: COL_STATE, rot: (r + 1) as i32 },
        value: u64_cell_at(a.u64_index as int),
        lookup_stack_read: mtable_lookup_cell_at(a.mtable_lookup_index as int),
        lookup_global_set: mtable_lookup_cell_at(a.mtable_lookup_index + 1),
    }
}

impl GlobalSetConfig {
    /// Every cell lies within a block.
    pub open spec fn wf(self) -> bool {
        &&& common_range_cell_ok(self.idx)
        &&& common_range_cell_ok(self.vtype)
        &&& u64_cell_ok(self.value)
        &&& mtable_lookup_cell_ok(self.lookup_stack_read)
        &&& mtable_lookup_cell_ok(self.lookup_global_set)
    }

    /// The memory table lookup cells of the step, in the order of the
    /// gadget's cells.
    pub open spec fn lookups(self) -> Seq<MTableLookupCell> {
        seq![self.lookup_stack_read, self.lookup_global_set]
    }
}

impl GlobalSetConfigBuilder {
    /// Takes the gadget's cells from the allocator of its block.
    pub fn configure(common: &mut EventTableCellAllocator) -> (r: GlobalSetConfig)
        requires
            old(common).wf(),
            old(common).common_range_index + 2 <= ETABLE_STEP_SIZE,
            old(common).u64_index + 1 <= 3,
            old(common).mtable_lookup_index + 2 <= 11,
        ensures
            r == global_set_layout(*old(common)),
            r.wf(),
            final(common).wf(),
    {
        let idx = common.alloc_common_range_value();
        let vtype = common.alloc_common_range_value();
        let value = common.alloc_u64();
        let lookup_stack_read = common.alloc_mtable_lookup();
        let lookup_global_set = common.alloc_mtable_lookup();
        GlobalSetConfig { idx, vtype, value, lookup_stack_read, lookup_global_set }
    }
}

/// The assignments of the gadget: the global's index, its
/// value type and the value written.
pub open spec fn global_set_writes(c: GlobalSetConfig, o: int, step: StepInfo) -> Seq<CellWrite> {
    common_range_writes(c.idx, o, step->SetGlobal_idx as u16) + common_range_writes(
        c.vtype,
        o,
        vtype_number(step->SetGlobal_vtype),
    ) + u64_cell_writes(c.value, o, step->SetGlobal_value)
}

/// What the step writes, cell by cell: the index of the global to the cell
/// `idx`, the number of its value type to the type cell, and its value
/// to the value cell.
pub proof fn lemma_global_set_writes_cells(c: GlobalSetConfig, o: int, step: StepInfo)
    requires
        step is SetGlobal,
        step->SetGlobal_idx < 0x10000,
    ensures
        crate::circuits::etable_compact::op_configure::has_write(global_set_writes(c, o, step), c.idx.col, o + c.idx.rot, crate::circuits::utils::fv_u64(step->SetGlobal_idx as u64)),
        crate::circuits::etable_compact::op_configure::has_write(global_set_writes(c, o, step), c.vtype.col, o + c.vtype.rot, crate::circuits::utils::fv_u64(vtype_number(step->SetGlobal_vtype) as u64)),
        crate::circuits::etable_compact::op_configure::has_write(global_set_writes(c, o, step), c.value.value_col, o + c.value.value_rot, crate::circuits::utils::fv_u64(step->SetGlobal_value)),
{
    let p0 = common_range_writes(c.idx, o, step->SetGlobal_idx as u16);
    let p1 = common_range_writes(c.vtype, o, vtype_number(step->SetGlobal_vtype));
    let p2 = u64_cell_writes(c.value, o, step->SetGlobal_value);
    assert(global_set_writes(c, o, step) == p0 + p1 + p2);
    {
        crate::circuits::etable_compact::op_configure::lemma_has_write_one(c.idx.col, o, c.idx.rot as int, crate::circuits::utils::fv_u64(step->SetGlobal_idx as u64));
        crate::circuits::etable_compact::op_configure::lemma_has_write_append(p0, p1, c.idx.col, o + c.idx.rot, crate::circuits::utils::fv_u64(step->SetGlobal_idx as u64));
        crate::circuits::etable_compact::op_configure::lemma_has_write_append(p0 + p1, p2, c.idx.col, o + c.idx.rot, crate::circuits::utils::fv_u64(step->SetGlobal_idx as u64));
    }
    {
        crate::circuits::etable_compact::op_configure::lemma_has_write_one(c.vtype.col, o, c.vtype.rot as int, crate::circuits::utils::fv_u64(vtype_number(step->SetGlobal_vtype) as u64));
        crate::circuits::etable_compact::op_configure::lemma_has_write_append(p0, p1, c.vtype.col, o + c.vtype.rot, crate::circuits::utils::fv_u64(vtype_number(step->SetGlobal_vtype) as u64));
        crate::circuits::etable_compact::op_configure::lemma_has_write_append(p0 + p1, p2, c.vtype.col, o + c.vtype.rot, crate::circuits::utils::fv_u64(vtype_number(step->SetGlobal_vtype) as u64));
    }
    {
        crate::circuits::etable_compact::op_configure::lemma_u64_cell_writes_value(c.value, o, step->SetGlobal_value);
        crate::circuits::etable_compact::op_configure::lemma_has_write_append(p0, p1, c.value.value_col, o + c.value.value_rot, crate::circuits::utils::fv_u64(step->SetGlobal_value));
        crate::circuits::etable_compact::op_configure::lemma_has_write_append(p0 + p1, p2, c.value.value_col, o + c.value.value_rot, crate::circuits::utils::fv_u64(step->SetGlobal_value));
    }
}

impl GlobalSetConfig {
    /// Assigns the gadget's cells for a `global.set` step.
    fn assign_cells(&self, ctx: &mut Context, step: &StepInfo)
        requires
            self.wf(),
            old(ctx).offset + 40 <= i32::MAX,
            step is SetGlobal,
            step->SetGlobal_idx < 0x10000,
        ensures
            final(ctx).offset == old(ctx).offset,
            final(ctx).writes@ == old(ctx).writes@ + global_set_writes(*self, old(ctx).offset as int, *step),
    {
        let (i, vtype, value) = match step {
            StepInfo::SetGlobal { idx, vtype, value } => (*idx, *vtype, *value),
            _ => (0, crate::circuits::step::VarType::I32, 0),
        };
        self.idx.assign(ctx, i as u16);
        let vt: u16 = match vtype {
            crate::circuits::step::VarType::I32 => 1,
            crate::circuits::step::VarType::I64 => 2,
        };
        self.vtype.assign(ctx, vt);
        self.value.assign(ctx, value);
        proof {
            assert(ctx.writes@ =~= old(ctx).writes@ + global_set_writes(*self, old(ctx).offset as int, *step));
        }
    }

    /// Assigns the step's cells, as `assign_cells` does, and the
    /// encodings `enc` of the step's stack and memory accesses to its
    /// memory table lookup cells, in order.
    pub fn assign(&self, ctx: &mut Context, step: &StepInfo, enc: &Vec<FieldValue>)
        requires
            enc.len() == 2,
            self.wf(),
            old(ctx).offset + 40 <= i32::MAX,
            step is SetGlobal,
            step->SetGlobal_idx < 0x10000,
        ensures
            final(ctx).offset == old(ctx).offset,
            final(ctx).writes@ == old(ctx).writes@ + global_set_writes(*self, old(ctx).offset as int, *step) + mtable_lookup_writes(
                self.lookups(),
                old(ctx).offset as int,
                enc@,
            ),
    {
        self.assign_cells(ctx, step);
        let mut cells: Vec<MTableLookupCell> = Vec::new();
        cells.push(self.lookup_stack_read);
        cells.push(self.lookup_global_set);
        proof {
            assert(cells@ =~= self.lookups());
        }
        assign_mtable_lookups(ctx, &cells, enc);
    }
}

} // verus!
