//! The gadget of `call_indirect`: the step reads the offset in the table
//! from the stack and jumps to the first instruction of the function that
//! the table holds there; the interpreter has one table, so its index is
//! zero.

use vstd::prelude::*;
use crate::circuits::utils::FieldValue;
use crate::circuits::etable_compact::op_configure::{
    assign_mtable_lookups, mtable_lookup_cell_ok, mtable_lookup_writes,
    common_range_cell_ok, common_range_writes, mtable_lookup_cell_at, CommonRangeCell,
    EventTableCellAllocator, JTableLookupCell, MTableLookupCell,
};
use crate::circuits::etable_compact::{COL_AUX, COL_STATE, ETABLE_STEP_SIZE};
use crate::circuits::step::StepInfo;
use crate::circuits::etable_compact::op_configure::{has_write, lemma_has_write_append, lemma_has_write_framed, lemma_has_write_one};
use crate::circuits::utils::{fv_u64, fzero, lemma_fzero_small, CellWrite, Context};

verus! {

/// The cells of the gadget.
#[derive(Clone, Copy, Debug, PartialEq, Eq, Structural)]
pub struct CallIndirectConfig {
    pub type_index: CommonRangeCell,
    pub table_index: CommonRangeCell,
    pub offset: CommonRangeCell,
    pub func_index: CommonRangeCell,
    pub stack_read_lookup: MTableLookupCell,
    pub frame_table_lookup: JTableLookupCell,
}

/// Builds the gadget.
pub struct CallIndirectConfigBuilder {}

/// The cells that the gadget takes from an allocator in state `a`.
pub open spec fn call_indirect_layout(a: EventTableCellAllocator) -> CallIndirectConfig {
    let r = a.common_range_index;
    CallIndirectConfig {
        type_index: CommonRangeCell { col: COL_STATE, rot: r },
        table_index: CommonRangeCell { col: COL_STATE, rot: (r + 1) as i32 },
        offset: CommonRangeCell { col: COL_STATE, rot: (r + 2) as i32 },
        func_index: CommonRangeCell { col: COL_STATE, rot: (r + 3) as i32 },
        stack_read_lookup: mtable_lookup_cell_at(a.mtable_lookup_index as int),
        frame_table_lookup: JTableLookupCell { col: COL_AUX, rot: a.jtable_lookup_index },
    }
}

impl CallIndirectConfig {
    /// Every cell lies within a block.
    pub open spec fn wf(self) -> bool {
        &&& common_range_cell_ok(self.type_index)
        &&& common_range_cell_ok(self.table_index)
        &&& common_range_cell_ok(self.offset)
        &&& common_range_cell_ok(self.func_index)
        &&& mtable_lookup_cell_ok(self.stack_read_lookup)
    }

    /// The memory table lookup cells of the step, in the order of the
    /// gadget's cells.
    pub open spec fn lookups(self) -> Seq<MTableLookupCell> {
        seq![self.stack_read_lookup]
    }
}

impl CallIndirectConfigBuilder {
    /// Takes the gadget's cells from the allocator of its block.
    pub fn configure(common: &mut EventTableCellAllocator) -> (r: CallIndirectConfig)
        requires
            old(common).wf(),
            old(common).common_range_index + 4 <= ETABLE_STEP_SIZE,
            old(common).mtable_lookup_index + 1 <= 11,
            old(common).jtable_lookup_index < 2,
        ensures
            r == call_indirect_layout(*old(common)),
            r.wf(),
            final(common).wf(),
    {
        let type_index = common.alloc_common_range_value();
        let table_index = common.alloc_common_range_value();
        let offset = common.alloc_common_range_value();
        let func_index = common.alloc_common_range_value();
        let stack_read_lookup = common.alloc_mtable_lookup();
        let frame_table_lookup = common.alloc_jtable_lookup();
        CallIndirectConfig { type_index, table_index, offset, func_index, stack_read_lookup, frame_table_lookup }
    }
}

/// The constraint of the gadget: the table's index is zero.
pub open spec fn call_indirect_gates(table_index: u16) -> bool {
    fzero(table_index as int)
}

/// The constraint holds exactly on the first table: a table index fits in two
/// bytes, far below the field's modulus.
pub proof fn lemma_call_indirect_gate(table_index: u16)
    ensures
        call_indirect_gates(table_index) <==> table_index == 0,
{
    lemma_fzero_small(table_index as int);
}

/// Whether the constraint holds on a table index.
pub fn call_indirect_gates_hold(table_index: u16) -> (b: bool)
    ensures
        b == call_indirect_gates(table_index),
{
    proof {
        lemma_call_indirect_gate(table_index);
    }
    table_index == 0
}

/// The assignments of the gadget: the table's index, the type's index, the
/// offset in the table and the called function's index.
pub open spec fn call_indirect_writes(c: CallIndirectConfig, o: int, step: StepInfo) -> Seq<CellWrite> {
    common_range_writes(c.table_index, o, step->table_index as u16) + common_range_writes(
        c.type_index,
        o,
        step->type_index as u16,
    ) + common_range_writes(c.offset, o, step->CallIndirect_offset as u16) + common_range_writes(
        c.func_index,
        o,
        step->func_index as u16,
    )
}

/// What a `call_indirect` step writes, cell by cell: its table index, type
/// index, offset in the table and called function's index, each to the
/// cell of that name.
pub proof fn lemma_call_indirect_writes_cells(c: CallIndirectConfig, o: int, step: StepInfo)
    requires
        step is CallIndirect,
        step->table_index < 0x10000,
        step->type_index < 0x10000,
        step->CallIndirect_offset < 0x10000,
        step->func_index < 0x10000,
    ensures
        has_write(call_indirect_writes(c, o, step), c.table_index.col, o + c.table_index.rot, fv_u64(step->table_index as u64)),
        has_write(call_indirect_writes(c, o, step), c.type_index.col, o + c.type_index.rot, fv_u64(step->type_index as u64)),
        has_write(call_indirect_writes(c, o, step), c.offset.col, o + c.offset.rot, fv_u64(step->CallIndirect_offset as u64)),
        has_write(call_indirect_writes(c, o, step), c.func_index.col, o + c.func_index.rot, fv_u64(step->func_index as u64)),
{
    let w1 = common_range_writes(c.table_index, o, step->table_index as u16);
    let w2 = common_range_writes(c.type_index, o, step->type_index as u16);
    let w3 = common_range_writes(c.offset, o, step->CallIndirect_offset as u16);
    let w4 = common_range_writes(c.func_index, o, step->func_index as u16);
    lemma_has_write_one(c.table_index.col, o, c.table_index.rot as int, fv_u64(step->table_index as u64));
    lemma_has_write_one(c.type_index.col, o, c.type_index.rot as int, fv_u64(step->type_index as u64));
    lemma_has_write_one(c.offset.col, o, c.offset.rot as int, fv_u64(step->CallIndirect_offset as u64));
    lemma_has_write_one(c.func_index.col, o, c.func_index.rot as int, fv_u64(step->func_index as u64));
    lemma_has_write_framed(Seq::empty(), w1, w2 + w3 + w4, c.table_index.col, o + c.table_index.rot, fv_u64(step->table_index as u64));
    assert(Seq::<CellWrite>::empty() + w1 + (w2 + w3 + w4) =~= w1 + w2 + w3 + w4);
    lemma_has_write_framed(w1, w2, w3 + w4, c.type_index.col, o + c.type_index.rot, fv_u64(step->type_index as u64));
    assert(w1 + w2 + (w3 + w4) =~= w1 + w2 + w3 + w4);
    lemma_has_write_framed(w1 + w2, w3, w4, c.offset.col, o + c.offset.rot, fv_u64(step->CallIndirect_offset as u64));
    lemma_has_write_append(w1 + w2 + w3, w4, c.func_index.col, o + c.func_index.rot, fv_u64(step->func_index as u64));
}

impl CallIndirectConfig {
    /// Assigns the gadget's cells for a `call_indirect` step.
    fn assign_cells(&self, ctx: &mut Context, step: &StepInfo)
        requires
            self.wf(),
            old(ctx).offset + 40 <= i32::MAX,
            step is CallIndirect,
            step->table_index < 0x10000,
            step->type_index < 0x10000,
            step->CallIndirect_offset < 0x10000,
            step->func_index < 0x10000,
        ensures
            final(ctx).offset == old(ctx).offset,
            final(ctx).writes@ == old(ctx).writes@ + call_indirect_writes(*self, old(ctx).offset as int, *step),
    {
        let (table_index, type_index, offset, func_index) = match step {
            StepInfo::CallIndirect { table_index, type_index, offset, func_index } => (
                *table_index,
                *type_index,
                *offset,
                *func_index,
            ),
            _ => (0, 0, 0, 0),
        };
        self.table_index.assign(ctx, table_index as u16);
        self.type_index.assign(ctx, type_index as u16);
        self.offset.assign(ctx, offset as u16);
        self.func_index.assign(ctx, func_index as u16);
        proof {
            assert(ctx.writes@ =~= old(ctx).writes@ + call_indirect_writes(*self, old(ctx).offset as int, *step));
        }
    }

    /// Assigns the step's cells, as `assign_cells` does, and the
    /// encodings `enc` of the step's stack and memory accesses to its
    /// memory table lookup cells, in order.
    pub fn assign(&self, ctx: &mut Context, step: &StepInfo, enc: &Vec<FieldValue>)
        requires
            enc.len() == 1,
            self.wf(),
            old(ctx).offset + 40 <= i32::MAX,
            step is CallIndirect,
            step->table_index < 0x10000,
            step->type_index < 0x10000,
            step->CallIndirect_offset < 0x10000,
            step->func_index < 0x10000,
        ensures
            final(ctx).offset == old(ctx).offset,
            final(ctx).writes@ == old(ctx).writes@ + call_indirect_writes(*self, old(ctx).offset as int, *step) + mtable_lookup_writes(
                self.lookups(),
                old(ctx).offset as int,
                enc@,
            ),
            has_write(final(ctx).writes@, self.table_index.col, old(ctx).offset + self.table_index.rot, fv_u64(step->table_index as u64)),
            has_write(final(ctx).writes@, self.type_index.col, old(ctx).offset + self.type_index.rot, fv_u64(step->type_index as u64)),
            has_write(
                final(ctx).writes@,
                self.offset.col,
                old(ctx).offset + self.offset.rot,
                fv_u64(step->CallIndirect_offset as u64),
            ),
            has_write(final(ctx).writes@, self.func_index.col, old(ctx).offset + self.func_index.rot, fv_u64(step->func_index as u64)),
    {
        let ghost o = old(ctx).offset as int;
        let ghost s0 = old(ctx).writes@;
        self.assign_cells(ctx, step);
        let mut cells: Vec<MTableLookupCell> = Vec::new();
        cells.push(self.stack_read_lookup);
        proof {
            assert(cells@ =~= self.lookups());
        }
        assign_mtable_lookups(ctx, &cells, enc);
        proof {
            let x = call_indirect_writes(*self, o, *step);
            let y = mtable_lookup_writes(self.lookups(), o, enc@);
            lemma_call_indirect_writes_cells(*self, o, *step);
            lemma_has_write_framed(s0, x, y, self.table_index.col, o + self.table_index.rot, fv_u64(step->table_index as u64));
            lemma_has_write_framed(s0, x, y, self.type_index.col, o + self.type_index.rot, fv_u64(step->type_index as u64));
            lemma_has_write_framed(s0, x, y, self.offset.col, o + self.offset.rot, fv_u64(step->CallIndirect_offset as u64));
            lemma_has_write_framed(s0, x, y, self.func_index.col, o + self.func_index.rot, fv_u64(step->func_index as u64));
        }
    }
}

} // verus!
