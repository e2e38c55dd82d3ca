//! The gadget of `br_if_eqz`: a branch taken when the condition is zero.

use vstd::prelude::*;
use crate::circuits::etable_compact::op_configure::{
    assign_mtable_lookups, mtable_lookup_cell_ok, mtable_lookup_writes,
    bit_cell_at, bit_cell_ok, bit_writes, common_range_cell_at, common_range_cell_ok,
    common_range_writes, mtable_lookup_cell_at, one_write, u64_cell_at, u64_cell_ok,
    u64_cell_writes, BitCell, CommonRangeCell, EventTableCellAllocator, MTableLookupCell, U64Cell,
    UnlimitedCell,
};
use crate::circuits::etable_compact::op_configure::op_br::{assign_keep, keep_ok, keep_writes};
use crate::circuits::etable_compact::COL_UNLIMITED;
use crate::circuits::step::{StepInfo, VarType};
use crate::circuits::utils::{
    b2i, field_mul, fzero, invert_or_zero, lemma_fzero_mul_bit, lemma_fzero_small, modulus,
    CellWrite, Context, FieldValue,
};

verus! {

/// The cells of the gadget.
#[derive(Clone, Copy, Debug, PartialEq, Eq, Structural)]
pub struct BrIfEqzConfig {
    pub cond: U64Cell,
    pub cond_inv: UnlimitedCell,
    pub cond_is_zero: BitCell,
    pub keep: BitCell,
    pub keep_value: U64Cell,
    pub keep_type: CommonRangeCell,
    pub drop: CommonRangeCell,
    pub dst_pc: CommonRangeCell,
    pub lookup_stack_read_cond: MTableLookupCell,
    pub lookup_stack_read_return_value: MTableLookupCell,
    pub lookup_stack_write_return_value: MTableLookupCell,
}

/// Builds the gadget.
pub struct BrIfEqzConfigBuilder {}

/// The cells that a conditional branch takes from an allocator in state
/// `a`.
pub open spec fn br_if_eqz_layout(a: EventTableCellAllocator) -> BrIfEqzConfig {
    let u = a.u64_index as int;
    let b = a.bit_index as int;
    let c = a.common_range_index as int;
    let t = a.mtable_lookup_index as int;
    BrIfEqzConfig {
        cond: u64_cell_at(u),
        cond_inv: UnlimitedCell { col: COL_UNLIMITED, rot: a.unlimited_index },
        cond_is_zero: bit_cell_at(b),
        keep: bit_cell_at(b + 1),
        keep_value: u64_cell_at(u + 1),
        keep_type: common_range_cell_at(c),
        drop: common_range_cell_at(c + 1),
        dst_pc: common_range_cell_at(c + 2),
        lookup_stack_read_cond: mtable_lookup_cell_at(t),
        lookup_stack_read_return_value: mtable_lookup_cell_at(t + 1),
        lookup_stack_write_return_value: mtable_lookup_cell_at(t + 2),
    }
}

impl BrIfEqzConfig {
    /// Every cell lies within a block.
    pub open spec fn wf(self) -> bool {
        &&& u64_cell_ok(self.cond)
        &&& 0 <= self.cond_inv.rot < 20
        &&& bit_cell_ok(self.cond_is_zero)
        &&& bit_cell_ok(self.keep)
        &&& u64_cell_ok(self.keep_value)
        &&& common_range_cell_ok(self.keep_type)
        &&& common_range_cell_ok(self.drop)
        &&& common_range_cell_ok(self.dst_pc)
        &&& mtable_lookup_cell_ok(self.lookup_stack_read_cond)
        &&& mtable_lookup_cell_ok(self.lookup_stack_read_return_value)
        &&& mtable_lookup_cell_ok(self.lookup_stack_write_return_value)
    }

    /// The memory table lookup cells of the step, in the order of the
    /// gadget's cells.
    pub open spec fn lookups(self) -> Seq<MTableLookupCell> {
        seq![self.lookup_stack_read_cond, self.lookup_stack_read_return_value, self.lookup_stack_write_return_value]
    }
}

impl BrIfEqzConfigBuilder {
    /// Takes the gadget's cells from the allocator of its block.
    pub fn configure(common: &mut EventTableCellAllocator) -> (r: BrIfEqzConfig)
        requires
            old(common).wf(),
            old(common).u64_index + 2 <= 3,
            old(common).unlimited_index + 1 <= 20,
            old(common).bit_index + 2 <= 40,
            old(common).common_range_index + 3 <= 20,
            old(common).mtable_lookup_index + 3 <= 11,
        ensures
            r == br_if_eqz_layout(*old(common)),
            r.wf(),
            final(common).wf(),
            *final(common) == (EventTableCellAllocator {
                u64_index: (old(common).u64_index + 2) as i32,
                unlimited_index: (old(common).unlimited_index + 1) as i32,
                bit_index: (old(common).bit_index + 2) as i32,
                common_range_index: (old(common).common_range_index + 3) as i32,
                mtable_lookup_index: (old(common).mtable_lookup_index + 3) as i32,
                ..*old(common)
            }),
    {
        let cond = common.alloc_u64();
        let cond_inv = common.alloc_unlimited_value();
        let cond_is_zero = common.alloc_bit_value();
        let keep = common.alloc_bit_value();
        let keep_value = common.alloc_u64();
        let keep_type = common.alloc_common_range_value();
        let drop = common.alloc_common_range_value();
        let dst_pc = common.alloc_common_range_value();
        let lookup_stack_read_cond = common.alloc_mtable_lookup();
        let lookup_stack_read_return_value = common.alloc_mtable_lookup();
        let lookup_stack_write_return_value = common.alloc_mtable_lookup();
        BrIfEqzConfig {
            cond,
            cond_inv,
            cond_is_zero,
            keep,
            keep_value,
            keep_type,
            drop,
            dst_pc,
            lookup_stack_read_cond,
            lookup_stack_read_return_value,
            lookup_stack_write_return_value,
        }
    }
}

/// The values of the condition cells of a conditional branch.
#[derive(Clone, Copy, Debug, PartialEq, Eq, Structural)]
pub struct CondWitness {
    pub cond: u64,
    pub cond_inv: FieldValue,
    pub cond_is_zero: bool,
}

/// The gates of the condition: the zero bit is off where the condition is
/// not zero, and the condition has an inverse where the bit is off.
pub open spec fn cond_gates(w: CondWitness) -> bool {
    &&& fzero(b2i(w.cond_is_zero) * w.cond)
    &&& fzero(b2i(w.cond_is_zero) + w.cond * w.cond_inv.value() - 1)
}

/// The condition cells assigned for the condition `cond`.
pub open spec fn cond_witness_of(w: CondWitness, cond: u64) -> bool {
    &&& w.cond == cond
    &&& w.cond_is_zero == (cond == 0)
    &&& w.cond_inv.wf()
    &&& cond == 0 ==> w.cond_inv.value() == 0
    &&& cond != 0 ==> (cond as int * w.cond_inv.value()) % modulus() == 1
}

/// The condition cells computed for the condition `cond`.
pub fn cond_witness(cond: u64) -> (w: CondWitness)
    ensures
        cond_witness_of(w, cond),
{
    CondWitness { cond, cond_inv: invert_or_zero(cond), cond_is_zero: cond == 0 }
}

/// Completeness: the assigned condition cells satisfy the gates.
pub proof fn lemma_cond_complete(w: CondWitness, cond: u64)
    requires
        cond_witness_of(w, cond),
    ensures
        cond_gates(w),
{
    vstd::arithmetic::mul::lemma_mul_basics(cond as int);
    vstd::arithmetic::mul::lemma_mul_basics(w.cond_inv.value());
    if cond != 0 {
        vstd::arithmetic::div_mod::lemma_add_mod_noop(cond as int * w.cond_inv.value(), -1, modulus());
        vstd::arithmetic::div_mod::lemma_mod_twice(-1, modulus());
        vstd::arithmetic::div_mod::lemma_add_mod_noop(1, -1, modulus());
    }
}

/// Soundness: wherever the gates hold, the zero bit says whether the
/// condition is zero, whatever the inverse cell holds.
pub proof fn lemma_cond_sound(w: CondWitness)
    requires
        cond_gates(w),
    ensures
        w.cond_is_zero == (w.cond == 0),
{
    lemma_fzero_mul_bit(w.cond as int, b2i(w.cond_is_zero));
    vstd::arithmetic::mul::lemma_mul_is_commutative(b2i(w.cond_is_zero), w.cond as int);
    if w.cond == 0 {
        vstd::arithmetic::mul::lemma_mul_basics(w.cond_inv.value());
        lemma_fzero_small(b2i(w.cond_is_zero) + w.cond * w.cond_inv.value() - 1);
    }
}

/// Whether the condition gates hold on `w`.
pub fn cond_gates_hold(w: &CondWitness) -> (b: bool)
    ensures
        b == cond_gates(*w),
{
    let t = field_mul(FieldValue::from_u64(w.cond), w.cond_inv);
    proof {
        let m = modulus();
        let p = w.cond as int * w.cond_inv.value();
        let s = b2i(w.cond_is_zero) - 1;
        lemma_fzero_mul_bit(w.cond as int, b2i(w.cond_is_zero));
        vstd::arithmetic::mul::lemma_mul_is_commutative(b2i(w.cond_is_zero), w.cond as int);
        let r = t.value();
        vstd::arithmetic::div_mod::lemma_add_mod_noop(p, s, m);
        vstd::arithmetic::div_mod::lemma_mod_twice(p, m);
        vstd::arithmetic::div_mod::lemma_add_mod_noop(r, s, m);
        vstd::arithmetic::div_mod::lemma_small_mod(r as nat, m as nat);
        if r + s == -1 {
            vstd::arithmetic::div_mod::lemma_fundamental_div_mod_converse(-1, m, -1, m - 1);
        } else {
            vstd::arithmetic::div_mod::lemma_small_mod((r + s) as nat, m as nat);
        }
        assert(p + s == b2i(w.cond_is_zero) + w.cond * w.cond_inv.value() - 1);
    }
    let g1 = !w.cond_is_zero || w.cond == 0;
    let g2 = if w.cond_is_zero { t.is_zero() } else { t.l0 == 1 && t.l1 == 0 && t.l2 == 0 && t.l3 == 0 };
    g1 && g2
}

/// The assignments of the condition cells.
pub open spec fn cond_writes(cond: U64Cell, inv: UnlimitedCell, is_zero: BitCell, off: int, w: CondWitness) -> Seq<CellWrite> {
    u64_cell_writes(cond, off, w.cond) + one_write(inv.col, off, inv.rot as int, w.cond_inv) + bit_writes(
        is_zero,
        off,
        w.cond_is_zero,
    )
}

/// The assignments that the gadget makes for a step, in order.
pub open spec fn br_if_eqz_writes(
    c: BrIfEqzConfig,
    off: int,
    dst_pc: u32,
    drop: u32,
    keep: Seq<VarType>,
    keep_values: Seq<u64>,
    w: CondWitness,
) -> Seq<CellWrite> {
    common_range_writes(c.drop, off, drop as u16) + keep_writes(c.keep, c.keep_value, c.keep_type, off, keep, keep_values)
        + cond_writes(c.cond, c.cond_inv, c.cond_is_zero, off, w) + common_range_writes(c.dst_pc, off, dst_pc as u16)
}

/// The memory operations of the step beyond the read of the condition: the
/// read and the write of the kept value when the branch is taken.
pub open spec fn br_if_eqz_extra_mops(condition: i32, keep: Seq<VarType>) -> int {
    if condition == 0 && keep.len() > 0 {
        2
    } else {
        0
    }
}

/// The memory operations that the gadget accounts for, as its expression
/// reads the cells.
pub open spec fn br_if_eqz_mops(cond_is_zero: bool, keep_bit: bool) -> int {
    1 + 2 * b2i(cond_is_zero) * b2i(keep_bit)
}

/// The memory operations counted when the step is assigned, with the read
/// of the condition, are those that the gadget's expression accounts for.
pub proof fn lemma_br_if_eqz_mops(condition: i32, keep: Seq<VarType>)
    ensures
        br_if_eqz_mops(condition as u32 as u64 == 0, keep.len() > 0) == 1 + br_if_eqz_extra_mops(condition, keep),
{
    assert((condition as u32 as u64 == 0) == (condition == 0)) by (bit_vector);
}

/// What a conditional branch step writes, cell by cell: its drop count to
/// the drop cell, its destination to the destination cell, and a kept
/// value to the value cell.
pub proof fn lemma_br_if_eqz_writes_cells(c: BrIfEqzConfig, off: int, dst_pc: u32, drop: u32, keep: Seq<VarType>, keep_values: Seq<u64>, w: CondWitness)
    requires
        drop <= 0xffff,
        dst_pc <= 0xffff,
    ensures
        crate::circuits::etable_compact::op_configure::has_write(br_if_eqz_writes(c, off, dst_pc, drop, keep, keep_values, w), c.drop.col, off + c.drop.rot, crate::circuits::utils::fv_u64(drop as u64)),
        crate::circuits::etable_compact::op_configure::has_write(br_if_eqz_writes(c, off, dst_pc, drop, keep, keep_values, w), c.dst_pc.col, off + c.dst_pc.rot, crate::circuits::utils::fv_u64(dst_pc as u64)),
        keep.len() > 0 ==> crate::circuits::etable_compact::op_configure::has_write(br_if_eqz_writes(c, off, dst_pc, drop, keep, keep_values, w), c.keep_value.value_col, off + c.keep_value.value_rot, crate::circuits::utils::fv_u64(keep_values[0])),
{
    let p0 = common_range_writes(c.drop, off, drop as u16);
    let p1 = keep_writes(c.keep, c.keep_value, c.keep_type, off, keep, keep_values);
    let p2 = cond_writes(c.cond, c.cond_inv, c.cond_is_zero, off, w);
    let p3 = common_range_writes(c.dst_pc, off, dst_pc as u16);
    assert(br_if_eqz_writes(c, off, dst_pc, drop, keep, keep_values, w) == p0 + p1 + p2 + p3);
    {
        crate::circuits::etable_compact::op_configure::lemma_has_write_one(c.drop.col, off, c.drop.rot as int, crate::circuits::utils::fv_u64(drop as u64));
        crate::circuits::etable_compact::op_configure::lemma_has_write_append(p0, p1, c.drop.col, off + c.drop.rot, crate::circuits::utils::fv_u64(drop as u64));
        crate::circuits::etable_compact::op_configure::lemma_has_write_append(p0 + p1, p2, c.drop.col, off + c.drop.rot, crate::circuits::utils::fv_u64(drop as u64));
        crate::circuits::etable_compact::op_configure::lemma_has_write_append(p0 + p1 + p2, p3, c.drop.col, off + c.drop.rot, crate::circuits::utils::fv_u64(drop as u64));
    }
    {
        crate::circuits::etable_compact::op_configure::lemma_has_write_one(c.dst_pc.col, off, c.dst_pc.rot as int, crate::circuits::utils::fv_u64(dst_pc as u64));
        crate::circuits::etable_compact::op_configure::lemma_has_write_append(p0, p1, c.dst_pc.col, off + c.dst_pc.rot, crate::circuits::utils::fv_u64(dst_pc as u64));
        crate::circuits::etable_compact::op_configure::lemma_has_write_append(p0 + p1, p2, c.dst_pc.col, off + c.dst_pc.rot, crate::circuits::utils::fv_u64(dst_pc as u64));
        crate::circuits::etable_compact::op_configure::lemma_has_write_append(p0 + p1 + p2, p3, c.dst_pc.col, off + c.dst_pc.rot, crate::circuits::utils::fv_u64(dst_pc as u64));
    }
    if keep.len() > 0 {
        crate::circuits::etable_compact::op_configure::op_br::lemma_keep_writes_cells(c.keep, c.keep_value, c.keep_type, off, keep, keep_values);
        crate::circuits::etable_compact::op_configure::lemma_has_write_append(p0, p1, c.keep_value.value_col, off + c.keep_value.value_rot, crate::circuits::utils::fv_u64(keep_values[0]));
        crate::circuits::etable_compact::op_configure::lemma_has_write_append(p0 + p1, p2, c.keep_value.value_col, off + c.keep_value.value_rot, crate::circuits::utils::fv_u64(keep_values[0]));
        crate::circuits::etable_compact::op_configure::lemma_has_write_append(p0 + p1 + p2, p3, c.keep_value.value_col, off + c.keep_value.value_rot, crate::circuits::utils::fv_u64(keep_values[0]));
    }
}

impl BrIfEqzConfig {
    /// Assigns the gadget's cells for a `br_if_eqz` step, and gives the
    /// values of the condition cells.
    fn assign_cells(&self, ctx: &mut Context, step: &StepInfo) -> (w: CondWitness)
        requires
            self.wf(),
            old(ctx).offset + 40 <= i32::MAX,
            step is BrIfEqz,
            keep_ok(step->BrIfEqz_keep@, step->BrIfEqz_keep_values@),
            step->BrIfEqz_drop <= 0xffff,
            step->BrIfEqz_dst_pc <= 0xffff,
        ensures
            cond_witness_of(w, step->BrIfEqz_condition as u32 as u64),
            final(ctx).offset == old(ctx).offset,
            final(ctx).writes@ == old(ctx).writes@ + br_if_eqz_writes(
                *self,
                old(ctx).offset as int,
                step->BrIfEqz_dst_pc,
                step->BrIfEqz_drop,
                step->BrIfEqz_keep@,
                step->BrIfEqz_keep_values@,
                w,
            ),
    {
        match step {
            StepInfo::BrIfEqz { condition, dst_pc, drop, keep, keep_values } => {
                let ghost start = old(ctx).writes@;
                let ghost o = old(ctx).offset as int;
                let cond: u64 = *condition as u32 as u64;
                self.drop.assign(ctx, *drop as u16);
                assign_keep(&self.keep, &self.keep_value, &self.keep_type, ctx, keep, keep_values);
                let w = cond_witness(cond);
                self.cond.assign(ctx, w.cond);
                self.cond_inv.assign(ctx, w.cond_inv);
                self.cond_is_zero.assign(ctx, w.cond_is_zero);
                self.dst_pc.assign(ctx, *dst_pc as u16);
                proof {
                    assert(ctx.writes@ =~= start + br_if_eqz_writes(*self, o, *dst_pc, *drop, keep@, keep_values@, w));
                }
                w
            },
            _ => cond_witness(0),
        }
    }

    /// Assigns the step's cells, as `assign_cells` does, and the
    /// encodings `enc` of the step's stack and memory accesses to its
    /// memory table lookup cells, in order.
    pub fn assign(&self, ctx: &mut Context, step: &StepInfo, enc: &Vec<FieldValue>) -> (w: CondWitness)
        requires
            enc.len() == 3,
            self.wf(),
            old(ctx).offset + 40 <= i32::MAX,
            step is BrIfEqz,
            keep_ok(step->BrIfEqz_keep@, step->BrIfEqz_keep_values@),
            step->BrIfEqz_drop <= 0xffff,
            step->BrIfEqz_dst_pc <= 0xffff,
        ensures
            cond_witness_of(w, step->BrIfEqz_condition as u32 as u64),
            final(ctx).offset == old(ctx).offset,
            final(ctx).writes@ == old(ctx).writes@ + br_if_eqz_writes(
                *self,
                old(ctx).offset as int,
                step->BrIfEqz_dst_pc,
                step->BrIfEqz_drop,
                step->BrIfEqz_keep@,
                step->BrIfEqz_keep_values@,
                w,
            ) + mtable_lookup_writes(self.lookups(), old(ctx).offset as int, enc@),
    {
        let w = self.assign_cells(ctx, step);
        let mut cells: Vec<MTableLookupCell> = Vec::new();
        cells.push(self.lookup_stack_read_cond);
        cells.push(self.lookup_stack_read_return_value);
        cells.push(self.lookup_stack_write_return_value);
        proof {
            assert(cells@ =~= self.lookups());
        }
        assign_mtable_lookups(ctx, &cells, enc);
        w
    }

    /// The memory operations of the step beyond the read of the condition.
    pub fn assigned_extra_mops(&self, step: &StepInfo) -> (r: u64)
        requires
            step is BrIfEqz,
            step->BrIfEqz_keep@.len() <= 1,
        ensures
            r == br_if_eqz_extra_mops(step->BrIfEqz_condition, step->BrIfEqz_keep@),
    {
        match step {
            StepInfo::BrIfEqz { condition, keep, .. } => if *condition == 0 && keep.len() > 0 {
                2
            } else {
                0
            },
            _ => 0,
        }
    }
}

} // verus!
