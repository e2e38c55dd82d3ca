//! The gadget of `br_table`: a branch to the target that the index selects,
//! or to the last target when the index is out of bounds.

use vstd::prelude::*;
use crate::circuits::utils::FieldValue;
use crate::circuits::etable_compact::op_configure::{
    assign_mtable_lookups, mtable_lookup_cell_ok, mtable_lookup_writes,
    bit_cell_at, bit_cell_ok, bit_writes, common_range_cell_at, common_range_cell_ok,
    common_range_value_writes, mtable_lookup_cell_at, u64_cell_at, u64_cell_ok, u64_cell_writes,
    BitCell, CommonRangeCell, EventTableCellAllocator, MTableLookupCell, U64Cell,
};
use crate::circuits::etable_compact::op_configure::op_br::{assign_keep, keep_ok, keep_writes};
use crate::circuits::step::{StepInfo, VarType};
use crate::circuits::utils::{b2i, fzero, lemma_fzero_mul_bit, CellWrite, Context};

verus! {

/// The cells of the gadget.
#[derive(Clone, Copy, Debug, PartialEq, Eq, Structural)]
pub struct BrTableConfig {
    pub keep: BitCell,
    pub keep_value: U64Cell,
    pub keep_type: CommonRangeCell,
    pub drop: CommonRangeCell,
    pub dst_iid: CommonRangeCell,
    pub expect_index: CommonRangeCell,
    pub effective_index: CommonRangeCell,
    pub targets_len: CommonRangeCell,
    pub out_of_bound: BitCell,
    pub diff: U64Cell,
    pub lookup_stack_read_index: MTableLookupCell,
    pub lookup_stack_read_return_value: MTableLookupCell,
    pub lookup_stack_write_return_value: MTableLookupCell,
}

/// Builds the gadget.
pub struct BrTableConfigBuilder {}

/// The cells that the gadget takes from an allocator in state `a`.
pub open spec fn br_table_layout(a: EventTableCellAllocator) -> BrTableConfig {
    let u = a.u64_index as int;
    let b = a.bit_index as int;
    let c = a.common_range_index as int;
    let t = a.mtable_lookup_index as int;
    BrTableConfig {
        keep: bit_cell_at(b),
        keep_value: u64_cell_at(u),
        keep_type: common_range_cell_at(c),
        drop: common_range_cell_at(c + 1),
        dst_iid: common_range_cell_at(c + 2),
        expect_index: common_range_cell_at(c + 3),
        effective_index: common_range_cell_at(c + 4),
        targets_len: common_range_cell_at(c + 5),
        out_of_bound: bit_cell_at(b + 1),
        diff: u64_cell_at(u + 1),
        lookup_stack_read_index: mtable_lookup_cell_at(t),
        lookup_stack_read_return_value: mtable_lookup_cell_at(t + 1),
        lookup_stack_write_return_value: mtable_lookup_cell_at(t + 2),
    }
}

impl BrTableConfig {
    /// Every cell lies within a block.
    pub open spec fn wf(self) -> bool {
        &&& bit_cell_ok(self.keep)
        &&& u64_cell_ok(self.keep_value)
        &&& common_range_cell_ok(self.keep_type)
        &&& common_range_cell_ok(self.drop)
        &&& common_range_cell_ok(self.dst_iid)
        &&& common_range_cell_ok(self.expect_index)
        &&& common_range_cell_ok(self.effective_index)
        &&& common_range_cell_ok(self.targets_len)
        &&& bit_cell_ok(self.out_of_bound)
        &&& u64_cell_ok(self.diff)
        &&& mtable_lookup_cell_ok(self.lookup_stack_read_index)
        &&& mtable_lookup_cell_ok(self.lookup_stack_read_return_value)
        &&& mtable_lookup_cell_ok(self.lookup_stack_write_return_value)
    }

    /// The memory table lookup cells of the step, in the order of the
    /// gadget's cells.
    pub open spec fn lookups(self) -> Seq<MTableLookupCell> {
        seq![self.lookup_stack_read_index, self.lookup_stack_read_return_value, self.lookup_stack_write_return_value]
    }
}

impl BrTableConfigBuilder {
    /// Takes the gadget's cells from the allocator of its block.
    pub fn configure(common: &mut EventTableCellAllocator) -> (r: BrTableConfig)
        requires
            old(common).wf(),
            old(common).bit_index + 2 <= 40,
            old(common).u64_index + 2 <= 3,
            old(common).common_range_index + 6 <= 20,
            old(common).mtable_lookup_index + 3 <= 11,
        ensures
            r == br_table_layout(*old(common)),
            r.wf(),
            final(common).wf(),
            *final(common) == (EventTableCellAllocator {
                bit_index: (old(common).bit_index + 2) as i32,
                u64_index: (old(common).u64_index + 2) as i32,
                common_range_index: (old(common).common_range_index + 6) as i32,
                mtable_lookup_index: (old(common).mtable_lookup_index + 3) as i32,
                ..*old(common)
            }),
    {
        let keep = common.alloc_bit_value();
        let keep_value = common.alloc_u64();
        let keep_type = common.alloc_common_range_value();
        let drop = common.alloc_common_range_value();
        let dst_iid = common.alloc_common_range_value();
        let expect_index = common.alloc_common_range_value();
        let effective_index = common.alloc_common_range_value();
        let targets_len = common.alloc_common_range_value();
        let out_of_bound = common.alloc_bit_value();
        let diff = common.alloc_u64();
        let lookup_stack_read_index = common.alloc_mtable_lookup();
        let lookup_stack_read_return_value = common.alloc_mtable_lookup();
        let lookup_stack_write_return_value = common.alloc_mtable_lookup();
        BrTableConfig {
            keep,
            keep_value,
            keep_type,
            drop,
            dst_iid,
            expect_index,
            effective_index,
            targets_len,
            out_of_bound,
            diff,
            lookup_stack_read_index,
            lookup_stack_read_return_value,
            lookup_stack_write_return_value,
        }
    }
}

/// The values of the index cells of a step.
#[derive(Clone, Copy, Debug, PartialEq, Eq, Structural)]
pub struct BrTableWitness {
    pub expect_index: u64,
    pub effective_index: u64,
    pub targets_len: u64,
    pub out_of_bound: bool,
    pub diff: u64,
}

/// The gates of the gadget: out of bounds, the index reaches the number of
/// targets and the last target is taken; in bounds, the index is below the
/// number of targets and is taken.
pub open spec fn br_table_gates(w: BrTableWitness) -> bool {
    let oob = b2i(w.out_of_bound);
    &&& fzero((w.targets_len + w.diff - w.expect_index) * oob)
    &&& fzero((w.expect_index + w.diff + 1 - w.targets_len) * (1 - oob))
    &&& fzero((w.targets_len - 1 - w.effective_index) * oob)
    &&& fzero((w.expect_index - w.effective_index) * (1 - oob))
}

/// The target that `br_table` takes: the index, or the last target.
pub open spec fn br_table_target(index: int, targets_len: int) -> int {
    if index < targets_len {
        index
    } else {
        targets_len - 1
    }
}

/// The values computed for the index `index` among `targets_len` targets.
pub fn br_table_witness(index: u64, targets_len: u64) -> (w: BrTableWitness)
    requires
        targets_len >= 1,
    ensures
        w.expect_index == index,
        w.targets_len == targets_len,
        w.effective_index == br_table_target(index as int, targets_len as int),
        w.out_of_bound == (index >= targets_len),
        w.diff == (if index < targets_len { targets_len - index - 1 } else { index - targets_len }),
{
    let effective_index: u64 = if index < targets_len { index } else { targets_len - 1 };
    BrTableWitness {
        expect_index: index,
        effective_index,
        targets_len,
        out_of_bound: index != effective_index,
        diff: if index < targets_len {
            targets_len - index - 1
        } else {
            index - targets_len
        },
    }
}

/// Completeness: the values assigned for any index satisfy the gates.
pub proof fn lemma_br_table_complete(index: u64, targets_len: u64, w: BrTableWitness)
    requires
        targets_len >= 1,
        w.expect_index == index,
        w.targets_len == targets_len,
        w.effective_index == br_table_target(index as int, targets_len as int),
        w.out_of_bound == (index >= targets_len),
        w.diff == (if index < targets_len { targets_len - index - 1 } else { index - targets_len }),
    ensures
        br_table_gates(w),
{
    let oob = b2i(w.out_of_bound);
    vstd::arithmetic::mul::lemma_mul_basics(w.targets_len + w.diff - w.expect_index);
    vstd::arithmetic::mul::lemma_mul_basics(w.expect_index + w.diff + 1 - w.targets_len);
    vstd::arithmetic::mul::lemma_mul_basics(w.targets_len - 1 - w.effective_index);
    vstd::arithmetic::mul::lemma_mul_basics(w.expect_index - w.effective_index);
}

/// Soundness: wherever the gates hold, the bound bit says whether the index
/// is out of bounds and the effective index is the target that `br_table`
/// takes.
pub proof fn lemma_br_table_sound(w: BrTableWitness)
    requires
        br_table_gates(w),
    ensures
        w.out_of_bound == (w.expect_index >= w.targets_len),
        w.effective_index == br_table_target(w.expect_index as int, w.targets_len as int),
{
    let oob = b2i(w.out_of_bound);
    lemma_fzero_mul_bit(w.targets_len + w.diff - w.expect_index, oob);
    lemma_fzero_mul_bit(w.expect_index + w.diff + 1 - w.targets_len, 1 - oob);
    lemma_fzero_mul_bit(w.targets_len - 1 - w.effective_index, oob);
    lemma_fzero_mul_bit(w.expect_index - w.effective_index, 1 - oob);
}

/// Whether the gates hold on `w`.
pub fn br_table_gates_hold(w: &BrTableWitness) -> (b: bool)
    ensures
        b == br_table_gates(*w),
{
    proof {
        let oob = b2i(w.out_of_bound);
        lemma_fzero_mul_bit(w.targets_len + w.diff - w.expect_index, oob);
        lemma_fzero_mul_bit(w.expect_index + w.diff + 1 - w.targets_len, 1 - oob);
        lemma_fzero_mul_bit(w.targets_len - 1 - w.effective_index, oob);
        lemma_fzero_mul_bit(w.expect_index - w.effective_index, 1 - oob);
    }
    let len = w.targets_len as u128;
    let diff = w.diff as u128;
    let expect = w.expect_index as u128;
    let effective = w.effective_index as u128;
    if w.out_of_bound {
        len + diff == expect && len == effective + 1
    } else {
        expect + diff + 1 == len && expect == effective
    }
}

/// The assignments that the gadget makes for a step, in order.
pub open spec fn br_table_writes(
    c: BrTableConfig,
    off: int,
    dst_pc: u32,
    drop: u32,
    keep: Seq<VarType>,
    keep_values: Seq<u64>,
    w: BrTableWitness,
) -> Seq<CellWrite> {
    common_range_value_writes(c.drop, off, drop as u64) + common_range_value_writes(c.dst_iid, off, dst_pc as u64)
        + keep_writes(c.keep, c.keep_value, c.keep_type, off, keep, keep_values) + common_range_value_writes(
        c.targets_len,
        off,
        w.targets_len,
    ) + common_range_value_writes(c.expect_index, off, w.expect_index) + common_range_value_writes(
        c.effective_index,
        off,
        w.effective_index,
    ) + bit_writes(c.out_of_bound, off, w.out_of_bound) + u64_cell_writes(c.diff, off, w.diff)
}

/// What a `br_table` step writes, cell by cell: its drop count to the drop
/// cell, its destination to the destination cell, the number of targets,
/// the index asked for and the index taken each to the cell of that name,
/// whether the index is out of bounds to its bit, and a kept value to the
/// value cell.
pub proof fn lemma_br_table_writes_cells(c: BrTableConfig, off: int, dst_pc: u32, drop: u32, keep: Seq<VarType>, keep_values: Seq<u64>, w: BrTableWitness)
    ensures
        crate::circuits::etable_compact::op_configure::has_write(br_table_writes(c, off, dst_pc, drop, keep, keep_values, w), c.drop.col, off + c.drop.rot, crate::circuits::utils::fv_u64(drop as u64)),
        crate::circuits::etable_compact::op_configure::has_write(br_table_writes(c, off, dst_pc, drop, keep, keep_values, w), c.dst_iid.col, off + c.dst_iid.rot, crate::circuits::utils::fv_u64(dst_pc as u64)),
        crate::circuits::etable_compact::op_configure::has_write(br_table_writes(c, off, dst_pc, drop, keep, keep_values, w), c.targets_len.col, off + c.targets_len.rot, crate::circuits::utils::fv_u64(w.targets_len)),
        crate::circuits::etable_compact::op_configure::has_write(br_table_writes(c, off, dst_pc, drop, keep, keep_values, w), c.expect_index.col, off + c.expect_index.rot, crate::circuits::utils::fv_u64(w.expect_index)),
        crate::circuits::etable_compact::op_configure::has_write(br_table_writes(c, off, dst_pc, drop, keep, keep_values, w), c.effective_index.col, off + c.effective_index.rot, crate::circuits::utils::fv_u64(w.effective_index)),
        crate::circuits::etable_compact::op_configure::has_write(br_table_writes(c, off, dst_pc, drop, keep, keep_values, w), c.out_of_bound.col, off + c.out_of_bound.rot, crate::circuits::utils::fv_bool(w.out_of_bound)),
        keep.len() > 0 ==> crate::circuits::etable_compact::op_configure::has_write(br_table_writes(c, off, dst_pc, drop, keep, keep_values, w), c.keep_value.value_col, off + c.keep_value.value_rot, crate::circuits::utils::fv_u64(keep_values[0])),
{
    let p0 = common_range_value_writes(c.drop, off, drop as u64);
    let p1 = common_range_value_writes(c.dst_iid, off, dst_pc as u64);
    let p2 = keep_writes(c.keep, c.keep_value, c.keep_type, off, keep, keep_values);
    let p3 = common_range_value_writes(c.targets_len, off, w.targets_len);
    let p4 = common_range_value_writes(c.expect_index, off, w.expect_index);
    let p5 = common_range_value_writes(c.effective_index, off, w.effective_index);
    let p6 = bit_writes(c.out_of_bound, off, w.out_of_bound);
    let p7 = u64_cell_writes(c.diff, off, w.diff);
    assert(br_table_writes(c, off, dst_pc, drop, keep, keep_values, w) == p0 + p1 + p2 + p3 + p4 + p5 + p6 + p7);
    {
        crate::circuits::etable_compact::op_configure::lemma_has_write_one(c.drop.col, off, c.drop.rot as int, crate::circuits::utils::fv_u64(drop as u64));
        crate::circuits::etable_compact::op_configure::lemma_has_write_append(p0, p1, c.drop.col, off + c.drop.rot, crate::circuits::utils::fv_u64(drop as u64));
        crate::circuits::etable_compact::op_configure::lemma_has_write_append(p0 + p1, p2, c.drop.col, off + c.drop.rot, crate::circuits::utils::fv_u64(drop as u64));
        crate::circuits::etable_compact::op_configure::lemma_has_write_append(p0 + p1 + p2, p3, c.drop.col, off + c.drop.rot, crate::circuits::utils::fv_u64(drop as u64));
        crate::circuits::etable_compact::op_configure::lemma_has_write_append(p0 + p1 + p2 + p3, p4, c.drop.col, off + c.drop.rot, crate::circuits::utils::fv_u64(drop as u64));
        crate::circuits::etable_compact::op_configure::lemma_has_write_append(p0 + p1 + p2 + p3 + p4, p5, c.drop.col, off + c.drop.rot, crate::circuits::utils::fv_u64(drop as u64));
        crate::circuits::etable_compact::op_configure::lemma_has_write_append(p0 + p1 + p2 + p3 + p4 + p5, p6, c.drop.col, off + c.drop.rot, crate::circuits::utils::fv_u64(drop as u64));
        crate::circuits::etable_compact::op_configure::lemma_has_write_append(p0 + p1 + p2 + p3 + p4 + p5 + p6, p7, c.drop.col, off + c.drop.rot, crate::circuits::utils::fv_u64(drop as u64));
    }
    {
        crate::circuits::etable_compact::op_configure::lemma_has_write_one(c.dst_iid.col, off, c.dst_iid.rot as int, crate::circuits::utils::fv_u64(dst_pc as u64));
        crate::circuits::etable_compact::op_configure::lemma_has_write_append(p0, p1, c.dst_iid.col, off + c.dst_iid.rot, crate::circuits::utils::fv_u64(dst_pc as u64));
        crate::circuits::etable_compact::op_configure::lemma_has_write_append(p0 + p1, p2, c.dst_iid.col, off + c.dst_iid.rot, crate::circuits::utils::fv_u64(dst_pc as u64));
        crate::circuits::etable_compact::op_configure::lemma_has_write_append(p0 + p1 + p2, p3, c.dst_iid.col, off + c.dst_iid.rot, crate::circuits::utils::fv_u64(dst_pc as u64));
        crate::circuits::etable_compact::op_configure::lemma_has_write_append(p0 + p1 + p2 + p3, p4, c.dst_iid.col, off + c.dst_iid.rot, crate::circuits::utils::fv_u64(dst_pc as u64));
        crate::circuits::etable_compact::op_configure::lemma_has_write_append(p0 + p1 + p2 + p3 + p4, p5, c.dst_iid.col, off + c.dst_iid.rot, crate::circuits::utils::fv_u64(dst_pc as u64));
        crate::circuits::etable_compact::op_configure::lemma_has_write_append(p0 + p1 + p2 + p3 + p4 + p5, p6, c.dst_iid.col, off + c.dst_iid.rot, crate::circuits::utils::fv_u64(dst_pc as u64));
        crate::circuits::etable_compact::op_configure::lemma_has_write_append(p0 + p1 + p2 + p3 + p4 + p5 + p6, p7, c.dst_iid.col, off + c.dst_iid.rot, crate::circuits::utils::fv_u64(dst_pc as u64));
    }
    {
        crate::circuits::etable_compact::op_configure::lemma_has_write_one(c.targets_len.col, off, c.targets_len.rot as int, crate::circuits::utils::fv_u64(w.targets_len));
        crate::circuits::etable_compact::op_configure::lemma_has_write_append(p0, p1, c.targets_len.col, off + c.targets_len.rot, crate::circuits::utils::fv_u64(w.targets_len));
        crate::circuits::etable_compact::op_configure::lemma_has_write_append(p0 + p1, p2, c.targets_len.col, off + c.targets_len.rot, crate::circuits::utils::fv_u64(w.targets_len));
        crate::circuits::etable_compact::op_configure::lemma_has_write_append(p0 + p1 + p2, p3, c.targets_len.col, off + c.targets_len.rot, crate::circuits::utils::fv_u64(w.targets_len));
        crate::circuits::etable_compact::op_configure::lemma_has_write_append(p0 + p1 + p2 + p3, p4, c.targets_len.col, off + c.targets_len.rot, crate::circuits::utils::fv_u64(w.targets_len));
        crate::circuits::etable_compact::op_configure::lemma_has_write_append(p0 + p1 + p2 + p3 + p4, p5, c.targets_len.col, off + c.targets_len.rot, crate::circuits::utils::fv_u64(w.targets_len));
        crate::circuits::etable_compact::op_configure::lemma_has_write_append(p0 + p1 + p2 + p3 + p4 + p5, p6, c.targets_len.col, off + c.targets_len.rot, crate::circuits::utils::fv_u64(w.targets_len));
        crate::circuits::etable_compact::op_configure::lemma_has_write_append(p0 + p1 + p2 + p3 + p4 + p5 + p6, p7, c.targets_len.col, off + c.targets_len.rot, crate::circuits::utils::fv_u64(w.targets_len));
    }
    {
        crate::circuits::etable_compact::op_configure::lemma_has_write_one(c.expect_index.col, off, c.expect_index.rot as int, crate::circuits::utils::fv_u64(w.expect_index));
        crate::circuits::etable_compact::op_configure::lemma_has_write_append(p0, p1, c.expect_index.col, off + c.expect_index.rot, crate::circuits::utils::fv_u64(w.expect_index));
        crate::circuits::etable_compact::op_configure::lemma_has_write_append(p0 + p1, p2, c.expect_index.col, off + c.expect_index.rot, crate::circuits::utils::fv_u64(w.expect_index));
        crate::circuits::etable_compact::op_configure::lemma_has_write_append(p0 + p1 + p2, p3, c.expect_index.col, off + c.expect_index.rot, crate::circuits::utils::fv_u64(w.expect_index));
        crate::circuits::etable_compact::op_configure::lemma_has_write_append(p0 + p1 + p2 + p3, p4, c.expect_index.col, off + c.expect_index.rot, crate::circuits::utils::fv_u64(w.expect_index));
        crate::circuits::etable_compact::op_configure::lemma_has_write_append(p0 + p1 + p2 + p3 + p4, p5, c.expect_index.col, off + c.expect_index.rot, crate::circuits::utils::fv_u64(w.expect_index));
        crate::circuits::etable_compact::op_configure::lemma_has_write_append(p0 + p1 + p2 + p3 + p4 + p5, p6, c.expect_index.col, off + c.expect_index.rot, crate::circuits::utils::fv_u64(w.expect_index));
        crate::circuits::etable_compact::op_configure::lemma_has_write_append(p0 + p1 + p2 + p3 + p4 + p5 + p6, p7, c.expect_index.col, off + c.expect_index.rot, crate::circuits::utils::fv_u64(w.expect_index));
    }
    {
        crate::circuits::etable_compact::op_configure::lemma_has_write_one(c.effective_index.col, off, c.effective_index.rot as int, crate::circuits::utils::fv_u64(w.effective_index));
        crate::circuits::etable_compact::op_configure::lemma_has_write_append(p0, p1, c.effective_index.col, off + c.effective_index.rot, crate::circuits::utils::fv_u64(w.effective_index));
        crate::circuits::etable_compact::op_configure::lemma_has_write_append(p0 + p1, p2, c.effective_index.col, off + c.effective_index.rot, crate::circuits::utils::fv_u64(w.effective_index));
        crate::circuits::etable_compact::op_configure::lemma_has_write_append(p0 + p1 + p2, p3, c.effective_index.col, off + c.effective_index.rot, crate::circuits::utils::fv_u64(w.effective_index));
        crate::circuits::etable_compact::op_configure::lemma_has_write_append(p0 + p1 + p2 + p3, p4, c.effective_index.col, off + c.effective_index.rot, crate::circuits::utils::fv_u64(w.effective_index));
        crate::circuits::etable_compact::op_configure::lemma_has_write_append(p0 + p1 + p2 + p3 + p4, p5, c.effective_index.col, off + c.effective_index.rot, crate::circuits::utils::fv_u64(w.effective_index));
        crate::circuits::etable_compact::op_configure::lemma_has_write_append(p0 + p1 + p2 + p3 + p4 + p5, p6, c.effective_index.col, off + c.effective_index.rot, crate::circuits::utils::fv_u64(w.effective_index));
        crate::circuits::etable_compact::op_configure::lemma_has_write_append(p0 + p1 + p2 + p3 + p4 + p5 + p6, p7, c.effective_index.col, off + c.effective_index.rot, crate::circuits::utils::fv_u64(w.effective_index));
    }
    {
        crate::circuits::etable_compact::op_configure::lemma_has_write_one(c.out_of_bound.col, off, c.out_of_bound.rot as int, crate::circuits::utils::fv_bool(w.out_of_bound));
        crate::circuits::etable_compact::op_configure::lemma_has_write_append(p0, p1, c.out_of_bound.col, off + c.out_of_bound.rot, crate::circuits::utils::fv_bool(w.out_of_bound));
        crate::circuits::etable_compact::op_configure::lemma_has_write_append(p0 + p1, p2, c.out_of_bound.col, off + c.out_of_bound.rot, crate::circuits::utils::fv_bool(w.out_of_bound));
        crate::circuits::etable_compact::op_configure::lemma_has_write_append(p0 + p1 + p2, p3, c.out_of_bound.col, off + c.out_of_bound.rot, crate::circuits::utils::fv_bool(w.out_of_bound));
        crate::circuits::etable_compact::op_configure::lemma_has_write_append(p0 + p1 + p2 + p3, p4, c.out_of_bound.col, off + c.out_of_bound.rot, crate::circuits::utils::fv_bool(w.out_of_bound));
        crate::circuits::etable_compact::op_configure::lemma_has_write_append(p0 + p1 + p2 + p3 + p4, p5, c.out_of_bound.col, off + c.out_of_bound.rot, crate::circuits::utils::fv_bool(w.out_of_bound));
        crate::circuits::etable_compact::op_configure::lemma_has_write_append(p0 + p1 + p2 + p3 + p4 + p5, p6, c.out_of_bound.col, off + c.out_of_bound.rot, crate::circuits::utils::fv_bool(w.out_of_bound));
        crate::circuits::etable_compact::op_configure::lemma_has_write_append(p0 + p1 + p2 + p3 + p4 + p5 + p6, p7, c.out_of_bound.col, off + c.out_of_bound.rot, crate::circuits::utils::fv_bool(w.out_of_bound));
    }
    if keep.len() > 0 {
        crate::circuits::etable_compact::op_configure::op_br::lemma_keep_writes_cells(c.keep, c.keep_value, c.keep_type, off, keep, keep_values);
        crate::circuits::etable_compact::op_configure::lemma_has_write_append(p0, p1, c.keep_value.value_col, off + c.keep_value.value_rot, crate::circuits::utils::fv_u64(keep_values[0]));
        crate::circuits::etable_compact::op_configure::lemma_has_write_append(p0 + p1, p2, c.keep_value.value_col, off + c.keep_value.value_rot, crate::circuits::utils::fv_u64(keep_values[0]));
        crate::circuits::etable_compact::op_configure::lemma_has_write_append(p0 + p1 + p2, p3, c.keep_value.value_col, off + c.keep_value.value_rot, crate::circuits::utils::fv_u64(keep_values[0]));
        crate::circuits::etable_compact::op_configure::lemma_has_write_append(p0 + p1 + p2 + p3, p4, c.keep_value.value_col, off + c.keep_value.value_rot, crate::circuits::utils::fv_u64(keep_values[0]));
        crate::circuits::etable_compact::op_configure::lemma_has_write_append(p0 + p1 + p2 + p3 + p4, p5, c.keep_value.value_col, off + c.keep_value.value_rot, crate::circuits::utils::fv_u64(keep_values[0]));
        crate::circuits::etable_compact::op_configure::lemma_has_write_append(p0 + p1 + p2 + p3 + p4 + p5, p6, c.keep_value.value_col, off + c.keep_value.value_rot, crate::circuits::utils::fv_u64(keep_values[0]));
        crate::circuits::etable_compact::op_configure::lemma_has_write_append(p0 + p1 + p2 + p3 + p4 + p5 + p6, p7, c.keep_value.value_col, off + c.keep_value.value_rot, crate::circuits::utils::fv_u64(keep_values[0]));
    }
}

impl BrTableConfig {
    /// Assigns the gadget's cells for a `br_table` step of an instruction
    /// with `targets_len` targets, the last of them the default, and gives
    /// the values of the index cells. The index, the target and the count
    /// are assigned as they are; the range checks of their cells bound
    /// them.
    fn assign_cells(&self, ctx: &mut Context, step: &StepInfo, targets_len: u64) -> (w: BrTableWitness)
        requires
            self.wf(),
            old(ctx).offset + 40 <= i32::MAX,
            step is BrTable,
            keep_ok(step->BrTable_keep@, step->BrTable_keep_values@),
            targets_len >= 1,
        ensures
            w.expect_index == step->BrTable_index as u32,
            w.targets_len == targets_len,
            w.effective_index == br_table_target(step->BrTable_index as u32 as int, targets_len as int),
            w.out_of_bound == (step->BrTable_index as u32 >= targets_len),
            br_table_gates(w),
            final(ctx).offset == old(ctx).offset,
            final(ctx).writes@ == old(ctx).writes@ + br_table_writes(
                *self,
                old(ctx).offset as int,
                step->BrTable_dst_pc,
                step->BrTable_drop,
                step->BrTable_keep@,
                step->BrTable_keep_values@,
                w,
            ),
    {
        match step {
            StepInfo::BrTable { index, dst_pc, drop, keep, keep_values } => {
                let ghost start = old(ctx).writes@;
                let ghost o = old(ctx).offset as int;
                self.drop.assign_value(ctx, *drop as u64);
                self.dst_iid.assign_value(ctx, *dst_pc as u64);
                assign_keep(&self.keep, &self.keep_value, &self.keep_type, ctx, keep, keep_values);
                let w = br_table_witness(*index as u32 as u64, targets_len);
                proof {
                    lemma_br_table_complete(*index as u32 as u64, targets_len, w);
                }
                self.targets_len.assign_value(ctx, w.targets_len);
                self.expect_index.assign_value(ctx, w.expect_index);
                self.effective_index.assign_value(ctx, w.effective_index);
                self.out_of_bound.assign(ctx, w.out_of_bound);
                self.diff.assign(ctx, w.diff);
                proof {
                    assert(ctx.writes@ =~= start + br_table_writes(*self, o, *dst_pc, *drop, keep@, keep_values@, w));
                }
                w
            },
            _ => br_table_witness(0, 1),
        }
    }

    /// Assigns the step's cells, as `assign_cells` does, and the
    /// encodings `enc` of the step's stack and memory accesses to its
    /// memory table lookup cells, in order.
    pub fn assign(&self, ctx: &mut Context, step: &StepInfo, targets_len: u64, enc: &Vec<FieldValue>) -> (w: BrTableWitness)
        requires
            enc.len() == 3,
            self.wf(),
            old(ctx).offset + 40 <= i32::MAX,
            step is BrTable,
            keep_ok(step->BrTable_keep@, step->BrTable_keep_values@),
            targets_len >= 1,
        ensures
            w.expect_index == step->BrTable_index as u32,
            w.targets_len == targets_len,
            w.effective_index == br_table_target(step->BrTable_index as u32 as int, targets_len as int),
            w.out_of_bound == (step->BrTable_index as u32 >= targets_len),
            br_table_gates(w),
            final(ctx).offset == old(ctx).offset,
            final(ctx).writes@ == old(ctx).writes@ + br_table_writes(
                *self,
                old(ctx).offset as int,
                step->BrTable_dst_pc,
                step->BrTable_drop,
                step->BrTable_keep@,
                step->BrTable_keep_values@,
                w,
            ) + mtable_lookup_writes(self.lookups(), old(ctx).offset as int, enc@),
    {
        let w = self.assign_cells(ctx, step, targets_len);
        let mut cells: Vec<MTableLookupCell> = Vec::new();
        cells.push(self.lookup_stack_read_index);
        cells.push(self.lookup_stack_read_return_value);
        cells.push(self.lookup_stack_write_return_value);
        proof {
            assert(cells@ =~= self.lookups());
        }
        assign_mtable_lookups(ctx, &cells, enc);
        w
    }
}

} // verus!
