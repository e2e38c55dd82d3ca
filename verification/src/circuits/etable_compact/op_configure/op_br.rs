//! The gadget of `br`: an unconditional branch that drops part of the stack
//! and keeps at most one value.

use vstd::prelude::*;
use crate::circuits::utils::FieldValue;
use crate::circuits::etable_compact::op_configure::{
    assign_mtable_lookups, mtable_lookup_cell_ok, mtable_lookup_writes,
    bit_cell_at, bit_cell_ok, bit_writes, common_range_cell_at, common_range_cell_ok,
    common_range_writes, mtable_lookup_cell_at, u64_cell_at, u64_cell_ok, u64_cell_writes,
    BitCell, CommonRangeCell, EventTableCellAllocator, MTableLookupCell, U64Cell,
};
use crate::circuits::etable_compact::op_configure::{has_write, lemma_has_write_append, lemma_has_write_one, one_write};
use crate::circuits::step::{vtype_code, StepInfo, VarType};
use crate::circuits::utils::{b2i, fv_bool, fv_u64, CellWrite, Context};

verus! {

/// The cells of the gadget.
#[derive(Clone, Copy, Debug, PartialEq, Eq, Structural)]
pub struct BrConfig {
    pub keep: BitCell,
    pub keep_value: U64Cell,
    pub keep_type: CommonRangeCell,
    pub drop: CommonRangeCell,
    pub dst_pc: CommonRangeCell,
    pub lookup_stack_read_return_value: MTableLookupCell,
    pub lookup_stack_write_return_value: MTableLookupCell,
}

/// Builds the gadget.
pub struct BrConfigBuilder {}

/// The cells that the gadget takes from an allocator in state `a`.
pub open spec fn br_layout(a: EventTableCellAllocator) -> BrConfig {
    let c = a.common_range_index as int;
    let t = a.mtable_lookup_index as int;
    BrConfig {
        keep: bit_cell_at(a.bit_index as int),
        keep_value: u64_cell_at(a.u64_index as int),
        keep_type: common_range_cell_at(c),
        drop: common_range_cell_at(c + 1),
        dst_pc: common_range_cell_at(c + 2),
        lookup_stack_read_return_value: mtable_lookup_cell_at(t),
        lookup_stack_write_return_value: mtable_lookup_cell_at(t + 1),
    }
}

impl BrConfig {
    /// Every cell lies within a block.
    pub open spec fn wf(self) -> bool {
        &&& bit_cell_ok(self.keep)
        &&& u64_cell_ok(self.keep_value)
        &&& common_range_cell_ok(self.keep_type)
        &&& common_range_cell_ok(self.drop)
        &&& common_range_cell_ok(self.dst_pc)
        &&& mtable_lookup_cell_ok(self.lookup_stack_read_return_value)
        &&& mtable_lookup_cell_ok(self.lookup_stack_write_return_value)
    }

    /// The memory table lookup cells of the step, in the order of the
    /// gadget's cells.
    pub open spec fn lookups(self) -> Seq<MTableLookupCell> {
        seq![self.lookup_stack_read_return_value, self.lookup_stack_write_return_value]
    }
}

impl BrConfigBuilder {
    /// Takes the gadget's cells from the allocator of its block.
    pub fn configure(common: &mut EventTableCellAllocator) -> (r: BrConfig)
        requires
            old(common).wf(),
            old(common).bit_index + 1 <= 40,
            old(common).u64_index + 1 <= 3,
            old(common).common_range_index + 3 <= 20,
            old(common).mtable_lookup_index + 2 <= 11,
        ensures
            r == br_layout(*old(common)),
            r.wf(),
            final(common).wf(),
            *final(common) == (EventTableCellAllocator {
                bit_index: (old(common).bit_index + 1) as i32,
                u64_index: (old(common).u64_index + 1) as i32,
                common_range_index: (old(common).common_range_index + 3) as i32,
                mtable_lookup_index: (old(common).mtable_lookup_index + 2) as i32,
                ..*old(common)
            }),
    {
        let keep = common.alloc_bit_value();
        let keep_value = common.alloc_u64();
        let keep_type = common.alloc_common_range_value();
        let drop = common.alloc_common_range_value();
        let dst_pc = common.alloc_common_range_value();
        let lookup_stack_read_return_value = common.alloc_mtable_lookup();
        let lookup_stack_write_return_value = common.alloc_mtable_lookup();
        BrConfig {
            keep,
            keep_value,
            keep_type,
            drop,
            dst_pc,
            lookup_stack_read_return_value,
            lookup_stack_write_return_value,
        }
    }
}

/// The kept values of a branch are well formed: at most one, and a value
/// for each type.
pub open spec fn keep_ok(keep: Seq<VarType>, keep_values: Seq<u64>) -> bool {
    keep.len() <= 1 && keep_values.len() >= keep.len()
}

/// The assignments of the kept value, if any.
pub open spec fn keep_writes(
    keep_cell: BitCell,
    value_cell: U64Cell,
    type_cell: CommonRangeCell,
    off: int,
    keep: Seq<VarType>,
    keep_values: Seq<u64>,
) -> Seq<CellWrite> {
    if keep.len() > 0 {
        bit_writes(keep_cell, off, true) + u64_cell_writes(value_cell, off, keep_values[0])
            + common_range_writes(type_cell, off, vtype_code(keep[0]) as u16)
    } else {
        Seq::empty()
    }
}

/// Assigns the kept value, if any.
pub fn assign_keep(
    keep_cell: &BitCell,
    value_cell: &U64Cell,
    type_cell: &CommonRangeCell,
    ctx: &mut Context,
    keep: &Vec<VarType>,
    keep_values: &Vec<u64>,
)
    requires
        bit_cell_ok(*keep_cell),
        u64_cell_ok(*value_cell),
        common_range_cell_ok(*type_cell),
        old(ctx).offset + 40 <= i32::MAX,
        keep_ok(keep@, keep_values@),
    ensures
        final(ctx).offset == old(ctx).offset,
        final(ctx).writes@ == old(ctx).writes@ + keep_writes(
            *keep_cell,
            *value_cell,
            *type_cell,
            old(ctx).offset as int,
            keep@,
            keep_values@,
        ),
{
    let ghost start = old(ctx).writes@;
    let ghost o = old(ctx).offset as int;
    if keep.len() > 0 {
        let code: u16 = match keep[0] {
            VarType::I32 => 1,
            VarType::I64 => 2,
        };
        keep_cell.assign(ctx, true);
        value_cell.assign(ctx, keep_values[0]);
        type_cell.assign(ctx, code);
    }
    proof {
        assert(ctx.writes@ =~= start + keep_writes(*keep_cell, *value_cell, *type_cell, o, keep@, keep_values@));
    }
}

/// The assignments that the gadget makes for a step, in order.
pub open spec fn br_writes(c: BrConfig, off: int, dst_pc: u32, drop: u32, keep: Seq<VarType>, keep_values: Seq<u64>) -> Seq<CellWrite> {
    common_range_writes(c.drop, off, drop as u16) + keep_writes(c.keep, c.keep_value, c.keep_type, off, keep, keep_values)
        + common_range_writes(c.dst_pc, off, dst_pc as u16)
}

/// The kept value, where there is one, goes to the keep bit (set) and to
/// the value cell.
pub proof fn lemma_keep_writes_cells(
    keep_cell: BitCell,
    value_cell: U64Cell,
    type_cell: CommonRangeCell,
    off: int,
    keep: Seq<VarType>,
    keep_values: Seq<u64>,
)
    ensures
        keep.len() > 0 ==> has_write(
            keep_writes(keep_cell, value_cell, type_cell, off, keep, keep_values),
            keep_cell.col,
            off + keep_cell.rot,
            fv_bool(true),
        ),
        keep.len() > 0 ==> has_write(
            keep_writes(keep_cell, value_cell, type_cell, off, keep, keep_values),
            value_cell.value_col,
            off + value_cell.value_rot,
            fv_u64(keep_values[0]),
        ),
{
    if keep.len() > 0 {
        let a = bit_writes(keep_cell, off, true);
        let v = u64_cell_writes(value_cell, off, keep_values[0]);
        let t = common_range_writes(type_cell, off, vtype_code(keep[0]) as u16);
        lemma_has_write_one(keep_cell.col, off, keep_cell.rot as int, fv_bool(true));
        lemma_has_write_one(value_cell.value_col, off, value_cell.value_rot as int, fv_u64(keep_values[0]));
        let v0 = one_write(value_cell.value_col, off, value_cell.value_rot as int, fv_u64(keep_values[0]));
        let vr = v.subrange(1, v.len() as int);
        assert(v =~= v0 + vr);
        lemma_has_write_append(v0, vr, value_cell.value_col, off + value_cell.value_rot, fv_u64(keep_values[0]));
        lemma_has_write_append(a, v, keep_cell.col, off + keep_cell.rot, fv_bool(true));
        lemma_has_write_append(a, v, value_cell.value_col, off + value_cell.value_rot, fv_u64(keep_values[0]));
        lemma_has_write_append(a + v, t, keep_cell.col, off + keep_cell.rot, fv_bool(true));
        lemma_has_write_append(a + v, t, value_cell.value_col, off + value_cell.value_rot, fv_u64(keep_values[0]));
    }
}

/// What a `br` step writes, cell by cell: its drop count to the drop cell,
/// its destination to the destination cell, and a kept value to the keep
/// bit and the value cell.
pub proof fn lemma_br_writes_cells(
    c: BrConfig,
    off: int,
    dst_pc: u32,
    drop: u32,
    keep: Seq<VarType>,
    keep_values: Seq<u64>,
)
    requires
        drop <= 0xffff,
        dst_pc <= 0xffff,
    ensures
        has_write(br_writes(c, off, dst_pc, drop, keep, keep_values), c.drop.col, off + c.drop.rot, fv_u64(drop as u64)),
        has_write(
            br_writes(c, off, dst_pc, drop, keep, keep_values),
            c.dst_pc.col,
            off + c.dst_pc.rot,
            fv_u64(dst_pc as u64),
        ),
        keep.len() > 0 ==> has_write(
            br_writes(c, off, dst_pc, drop, keep, keep_values),
            c.keep.col,
            off + c.keep.rot,
            fv_bool(true),
        ),
        keep.len() > 0 ==> has_write(
            br_writes(c, off, dst_pc, drop, keep, keep_values),
            c.keep_value.value_col,
            off + c.keep_value.value_rot,
            fv_u64(keep_values[0]),
        ),
{
    let d = common_range_writes(c.drop, off, drop as u16);
    let k = keep_writes(c.keep, c.keep_value, c.keep_type, off, keep, keep_values);
    let t = common_range_writes(c.dst_pc, off, dst_pc as u16);
    lemma_has_write_one(c.drop.col, off, c.drop.rot as int, fv_u64(drop as u64));
    lemma_has_write_one(c.dst_pc.col, off, c.dst_pc.rot as int, fv_u64(dst_pc as u64));
    lemma_keep_writes_cells(c.keep, c.keep_value, c.keep_type, off, keep, keep_values);
    lemma_has_write_append(d, k, c.drop.col, off + c.drop.rot, fv_u64(drop as u64));
    lemma_has_write_append(d + k, t, c.drop.col, off + c.drop.rot, fv_u64(drop as u64));
    lemma_has_write_append(d + k, t, c.dst_pc.col, off + c.dst_pc.rot, fv_u64(dst_pc as u64));
    lemma_has_write_append(d, k, c.keep.col, off + c.keep.rot, fv_bool(true));
    lemma_has_write_append(d + k, t, c.keep.col, off + c.keep.rot, fv_bool(true));
    lemma_has_write_append(d, k, c.keep_value.value_col, off + c.keep_value.value_rot, fv_u64(keep_values[0]));
    lemma_has_write_append(d + k, t, c.keep_value.value_col, off + c.keep_value.value_rot, fv_u64(keep_values[0]));
}

/// The memory operations of a branch beyond those of its instruction: the
/// read and the write of the kept value.
pub open spec fn br_extra_mops(keep: Seq<VarType>) -> int {
    if keep.len() > 0 {
        2
    } else {
        0
    }
}

/// The memory operations that the gadget accounts for, as its expression
/// reads the keep bit.
pub open spec fn br_mops(keep_bit: bool) -> int {
    2 * b2i(keep_bit)
}

/// The memory operations counted when the step is assigned are those that
/// the gadget's expression accounts for.
pub proof fn lemma_br_mops(keep: Seq<VarType>)
    requires
        keep.len() <= 1,
    ensures
        br_mops(keep.len() > 0) == br_extra_mops(keep),
{
}

impl BrConfig {
    /// Assigns the gadget's cells for a `br` step.
    fn assign_cells(&self, ctx: &mut Context, step: &StepInfo)
        requires
            self.wf(),
            old(ctx).offset + 40 <= i32::MAX,
            step is Br,
            keep_ok(step->Br_keep@, step->Br_keep_values@),
            step->Br_drop <= 0xffff,
            step->Br_dst_pc <= 0xffff,
        ensures
            final(ctx).offset == old(ctx).offset,
            final(ctx).writes@ == old(ctx).writes@ + br_writes(
                *self,
                old(ctx).offset as int,
                step->Br_dst_pc,
                step->Br_drop,
                step->Br_keep@,
                step->Br_keep_values@,
            ),
    {
        match step {
            StepInfo::Br { dst_pc, drop, keep, keep_values } => {
                let ghost start = old(ctx).writes@;
                let ghost o = old(ctx).offset as int;
                self.drop.assign(ctx, *drop as u16);
                assign_keep(&self.keep, &self.keep_value, &self.keep_type, ctx, keep, keep_values);
                self.dst_pc.assign(ctx, *dst_pc as u16);
                proof {
                    assert(ctx.writes@ =~= start + br_writes(*self, o, *dst_pc, *drop, keep@, keep_values@));
                }
            },
            _ => {},
        }
    }

    /// Assigns the step's cells, as `assign_cells` does, and the
    /// encodings `enc` of the step's stack and memory accesses to its
    /// memory table lookup cells, in order.
    pub fn assign(&self, ctx: &mut Context, step: &StepInfo, enc: &Vec<FieldValue>)
        requires
            enc.len() == 2,
            self.wf(),
            old(ctx).offset + 40 <= i32::MAX,
            step is Br,
            keep_ok(step->Br_keep@, step->Br_keep_values@),
            step->Br_drop <= 0xffff,
            step->Br_dst_pc <= 0xffff,
        ensures
            final(ctx).offset == old(ctx).offset,
            final(ctx).writes@ == old(ctx).writes@ + br_writes(
                *self,
                old(ctx).offset as int,
                step->Br_dst_pc,
                step->Br_drop,
                step->Br_keep@,
                step->Br_keep_values@,
            ) + mtable_lookup_writes(self.lookups(), old(ctx).offset as int, enc@),
            has_write(
                final(ctx).writes@,
                self.drop.col,
                old(ctx).offset + self.drop.rot,
                fv_u64(step->Br_drop as u64),
            ),
            has_write(
                final(ctx).writes@,
                self.dst_pc.col,
                old(ctx).offset + self.dst_pc.rot,
                fv_u64(step->Br_dst_pc as u64),
            ),
    {
        let ghost o = old(ctx).offset as int;
        let ghost s0 = old(ctx).writes@;
        self.assign_cells(ctx, step);
        let mut cells: Vec<MTableLookupCell> = Vec::new();
        cells.push(self.lookup_stack_read_return_value);
        cells.push(self.lookup_stack_write_return_value);
        proof {
            assert(cells@ =~= self.lookups());
        }
        assign_mtable_lookups(ctx, &cells, enc);
        proof {
            let bw = br_writes(*self, o, step->Br_dst_pc, step->Br_drop, step->Br_keep@, step->Br_keep_values@);
            let lw = mtable_lookup_writes(self.lookups(), o, enc@);
            lemma_br_writes_cells(*self, o, step->Br_dst_pc, step->Br_drop, step->Br_keep@, step->Br_keep_values@);
            lemma_has_write_append(s0, bw, self.drop.col, o + self.drop.rot, fv_u64(step->Br_drop as u64));
            lemma_has_write_append(s0 + bw, lw, self.drop.col, o + self.drop.rot, fv_u64(step->Br_drop as u64));
            lemma_has_write_append(s0, bw, self.dst_pc.col, o + self.dst_pc.rot, fv_u64(step->Br_dst_pc as u64));
            lemma_has_write_append(s0 + bw, lw, self.dst_pc.col, o + self.dst_pc.rot, fv_u64(step->Br_dst_pc as u64));
        }
    }

    /// The memory operations of the step beyond those of its instruction.
    pub fn assigned_extra_mops(&self, step: &StepInfo) -> (r: u64)
        requires
            step is Br,
            step->Br_keep@.len() <= 1,
        ensures
            r == br_extra_mops(step->Br_keep@),
    {
        match step {
            StepInfo::Br { keep, .. } => if keep.len() > 0 {
                2
            } else {
                0
            },
            _ => 0,
        }
    }
}

} // verus!
