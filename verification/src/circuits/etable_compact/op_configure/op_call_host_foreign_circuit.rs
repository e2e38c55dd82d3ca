//! The gadget of a call to the external host: the step hands the host a
//! 64-bit value popped from the stack, or pushes the value the host hands
//! back, and records the call's operation and direction.

use vstd::prelude::*;
use crate::circuits::utils::FieldValue;
use crate::circuits::etable_compact::op_configure::{
    assign_mtable_lookups, mtable_lookup_cell_ok, mtable_lookup_writes,
    bit_cell_at, bit_cell_ok, bit_writes, common_range_cell_ok, common_range_writes, mtable_lookup_cell_at,
    u64_cell_at, u64_cell_ok, u64_cell_writes, BitCell, CommonRangeCell, EventTableCellAllocator, MTableLookupCell,
    U64Cell,
};
use crate::circuits::etable_compact::{BIT_CELLS, COL_STATE, ETABLE_STEP_SIZE};
use crate::circuits::step::StepInfo;
use crate::circuits::etable_compact::op_configure::{has_write, lemma_has_write_append, lemma_has_write_framed, lemma_has_write_one, one_write};
use crate::circuits::utils::{b2i, fv_bool, fv_u64, CellWrite, Context};

verus! {

/// The cells of the gadget.
#[derive(Clone, Copy, Debug, PartialEq, Eq, Structural)]
pub struct ExternalCallHostCircuitConfig {
    pub op: CommonRangeCell,
    pub value: U64Cell,
    pub value_is_ret: BitCell,
    pub stack_rw_lookup: MTableLookupCell,
}

/// Builds the gadget.
pub struct ExternalCallHostCircuitConfigBuilder {}

/// The cells that the gadget takes from an allocator in state `a`.
pub open spec fn external_call_host_layout(a: EventTableCellAllocator) -> ExternalCallHostCircuitConfig {
    ExternalCallHostCircuitConfig {
        op: CommonRangeCell { col: COL_STATE, rot: a.common_range_index },
        value: u64_cell_at(a.u64_index as int),
        value_is_ret: bit_cell_at(a.bit_index as int),
        stack_rw_lookup: mtable_lookup_cell_at(a.mtable_lookup_index as int),
    }
}

impl ExternalCallHostCircuitConfig {
    /// Every cell lies within a block.
    pub open spec fn wf(self) -> bool {
        &&& common_range_cell_ok(self.op)
        &&& u64_cell_ok(self.value)
        &&& bit_cell_ok(self.value_is_ret)
        &&& mtable_lookup_cell_ok(self.stack_rw_lookup)
    }

    /// The memory table lookup cells of the step, in the order of the
    /// gadget's cells.
    pub open spec fn lookups(self) -> Seq<MTableLookupCell> {
        seq![self.stack_rw_lookup]
    }
}

impl ExternalCallHostCircuitConfigBuilder {
    /// Takes the gadget's cells from the allocator of its block.
    pub fn configure(common: &mut EventTableCellAllocator) -> (r: ExternalCallHostCircuitConfig)
        requires
            old(common).wf(),
            old(common).common_range_index + 1 <= ETABLE_STEP_SIZE,
            old(common).u64_index + 1 <= 3,
            old(common).bit_index < BIT_CELLS,
            old(common).mtable_lookup_index + 1 <= 11,
        ensures
            r == external_call_host_layout(*old(common)),
            r.wf(),
            final(common).wf(),
    {
        let op = common.alloc_common_range_value();
        let value = common.alloc_u64();
        let value_is_ret = common.alloc_bit_value();
        let stack_rw_lookup = common.alloc_mtable_lookup();
        ExternalCallHostCircuitConfig { op, value, value_is_ret, stack_rw_lookup }
    }
}

/// The change of the stack pointer that the gadget's gate asks for, given
/// its return bit: one lower where the host hands a value back, one higher
/// where the step hands one over.
pub open spec fn external_call_sp_diff(is_ret: int) -> int {
    is_ret * -1 + (1 - is_ret)
}

/// A value handed back is pushed, one handed over is popped.
pub proof fn lemma_external_call_sp_diff(is_ret: bool)
    ensures
        external_call_sp_diff(b2i(is_ret)) == if is_ret { -1int } else { 1int },
{
}

/// The assignments of the gadget: the operation, the value and whether it
/// comes back from the host.
pub open spec fn external_call_host_writes(c: ExternalCallHostCircuitConfig, o: int, step: StepInfo) -> Seq<CellWrite> {
    common_range_writes(c.op, o, step->ExternalHostCall_op as u16) + u64_cell_writes(
        c.value,
        o,
        step->ExternalHostCall_value->0,
    ) + bit_writes(c.value_is_ret, o, step->ExternalHostCall_is_ret)
}

/// What an external host call step writes, cell by cell: the operation to
/// the operation cell, the value to the value cell, and to the return bit
/// whether the value is a result of the host (set) or an argument handed
/// to it (clear).
pub proof fn lemma_external_call_host_writes_cells(c: ExternalCallHostCircuitConfig, o: int, step: StepInfo)
    requires
        step is ExternalHostCall,
        step->ExternalHostCall_value is Some,
        step->ExternalHostCall_op < 0x10000,
    ensures
        has_write(external_call_host_writes(c, o, step), c.op.col, o + c.op.rot, fv_u64(step->ExternalHostCall_op as u64)),
        has_write(
            external_call_host_writes(c, o, step),
            c.value.value_col,
            o + c.value.value_rot,
            fv_u64(step->ExternalHostCall_value->0),
        ),
        has_write(
            external_call_host_writes(c, o, step),
            c.value_is_ret.col,
            o + c.value_is_ret.rot,
            fv_bool(step->ExternalHostCall_is_ret),
        ),
{
    let w1 = common_range_writes(c.op, o, step->ExternalHostCall_op as u16);
    let w2 = u64_cell_writes(c.value, o, step->ExternalHostCall_value->0);
    let w3 = bit_writes(c.value_is_ret, o, step->ExternalHostCall_is_ret);
    let v = fv_u64(step->ExternalHostCall_value->0);
    lemma_has_write_one(c.op.col, o, c.op.rot as int, fv_u64(step->ExternalHostCall_op as u64));
    lemma_has_write_one(c.value.value_col, o, c.value.value_rot as int, v);
    lemma_has_write_one(c.value_is_ret.col, o, c.value_is_ret.rot as int, fv_bool(step->ExternalHostCall_is_ret));
    let v0 = one_write(c.value.value_col, o, c.value.value_rot as int, v);
    assert(w2 =~= v0 + w2.subrange(1, w2.len() as int));
    lemma_has_write_append(v0, w2.subrange(1, w2.len() as int), c.value.value_col, o + c.value.value_rot, v);
    lemma_has_write_framed(Seq::empty(), w1, w2 + w3, c.op.col, o + c.op.rot, fv_u64(step->ExternalHostCall_op as u64));
    assert(Seq::<CellWrite>::empty() + w1 + (w2 + w3) =~= w1 + w2 + w3);
    lemma_has_write_framed(w1, w2, w3, c.value.value_col, o + c.value.value_rot, v);
    lemma_has_write_append(w1 + w2, w3, c.value_is_ret.col, o + c.value_is_ret.rot, fv_bool(step->ExternalHostCall_is_ret));
}

impl ExternalCallHostCircuitConfig {
    /// Assigns the gadget's cells for a call to the external host.
    fn assign_cells(&self, ctx: &mut Context, step: &StepInfo)
        requires
            self.wf(),
            old(ctx).offset + 40 <= i32::MAX,
            step is ExternalHostCall,
            step->ExternalHostCall_value is Some,
            step->ExternalHostCall_op < 0x10000,
        ensures
            final(ctx).offset == old(ctx).offset,
            final(ctx).writes@ == old(ctx).writes@ + external_call_host_writes(*self, old(ctx).offset as int, *step),
    {
        match step {
            StepInfo::ExternalHostCall { op, value, is_ret } => {
                self.op.assign(ctx, *op as u16);
                match value {
                    Some(v) => self.value.assign(ctx, *v),
                    None => {},
                }
                self.value_is_ret.assign(ctx, *is_ret);
                proof {
                    assert(ctx.writes@ =~= old(ctx).writes@ + external_call_host_writes(
                        *self,
                        old(ctx).offset as int,
                        *step,
                    ));
                }
            },
            _ => {},
        }
    }

    /// Assigns the step's cells, as `assign_cells` does, and the
    /// encodings `enc` of the step's stack and memory accesses to its
    /// memory table lookup cells, in order.
    pub fn assign(&self, ctx: &mut Context, step: &StepInfo, enc: &Vec<FieldValue>)
        requires
            enc.len() == 1,
            self.wf(),
            old(ctx).offset + 40 <= i32::MAX,
            step is ExternalHostCall,
            step->ExternalHostCall_value is Some,
            step->ExternalHostCall_op < 0x10000,
        ensures
            final(ctx).offset == old(ctx).offset,
            final(ctx).writes@ == old(ctx).writes@ + external_call_host_writes(*self, old(ctx).offset as int, *step) + mtable_lookup_writes(
                self.lookups(),
                old(ctx).offset as int,
                enc@,
            ),
            has_write(final(ctx).writes@, self.op.col, old(ctx).offset + self.op.rot, fv_u64(step->ExternalHostCall_op as u64)),
            has_write(
                final(ctx).writes@,
                self.value.value_col,
                old(ctx).offset + self.value.value_rot,
                fv_u64(step->ExternalHostCall_value->0),
            ),
            has_write(
                final(ctx).writes@,
                self.value_is_ret.col,
                old(ctx).offset + self.value_is_ret.rot,
                fv_bool(step->ExternalHostCall_is_ret),
            ),
    {
        let ghost o = old(ctx).offset as int;
        let ghost s0 = old(ctx).writes@;
        self.assign_cells(ctx, step);
        let mut cells: Vec<MTableLookupCell> = Vec::new();
        cells.push(self.stack_rw_lookup);
        proof {
            assert(cells@ =~= self.lookups());
        }
        assign_mtable_lookups(ctx, &cells, enc);
        proof {
            let x = external_call_host_writes(*self, o, *step);
            let y = mtable_lookup_writes(self.lookups(), o, enc@);
            lemma_external_call_host_writes_cells(*self, o, *step);
            lemma_has_write_framed(s0, x, y, self.op.col, o + self.op.rot, fv_u64(step->ExternalHostCall_op as u64));
            lemma_has_write_framed(s0, x, y, self.value.value_col, o + self.value.value_rot, fv_u64(step->ExternalHostCall_value->0));
            lemma_has_write_framed(s0, x, y, self.value_is_ret.col, o + self.value_is_ret.rot, fv_bool(step->ExternalHostCall_is_ret));
        }
    }
}

} // verus!
