//! The gadget of `select`: the first value if the condition is not zero,
//! the second otherwise.

use vstd::prelude::*;
use crate::circuits::etable_compact::op_configure::{
    assign_mtable_lookups, mtable_lookup_cell_ok, mtable_lookup_writes,
    common_range_cell_at, common_range_cell_ok, common_range_writes, lemma_append_assoc,
    mtable_lookup_cell_at, one_write, u64_cell_at, u64_cell_ok, u64_cell_writes, u64_on_u8_cell_at,
    u64_on_u8_cell_ok, u64_on_u8_cell_writes, CommonRangeCell, EventTableCellAllocator,
    MTableLookupCell, U64Cell, U64OnU8Cell, UnlimitedCell,
};
use crate::circuits::etable_compact::COL_UNLIMITED;
use crate::circuits::step::{vtype_code, StepInfo, VarType};
use crate::circuits::utils::{
    field_mul, field_sub, fv_u64, fzero, invert_or_zero, lemma_fzero_mul, lemma_fzero_small,
    modulus, small_bound, CellWrite, Context, FieldValue,
};

verus! {

/// The cells of the gadget.
#[derive(Clone, Copy, Debug, PartialEq, Eq, Structural)]
pub struct SelectConfig {
    pub cond: U64OnU8Cell,
    pub cond_inv: UnlimitedCell,
    pub val1: U64Cell,
    pub val2: U64Cell,
    pub res: U64Cell,
    pub vtype: CommonRangeCell,
    pub lookup_stack_read_cond: MTableLookupCell,
    pub lookup_stack_read_val2: MTableLookupCell,
    pub lookup_stack_read_val1: MTableLookupCell,
    pub lookup_stack_write: MTableLookupCell,
}

/// Builds the gadget.
pub struct SelectConfigBuilder {}

/// The values that the gadget's cells hold for one step.
#[derive(Clone, Copy, Debug, PartialEq, Eq, Structural)]
pub struct SelectWitness {
    pub cond: u64,
    pub cond_inv: FieldValue,
    pub val1: u64,
    pub val2: u64,
    pub res: u64,
    pub vtype: u16,
}

/// The cells that the gadget takes from an allocator in state `a`.
pub open spec fn select_layout(a: EventTableCellAllocator) -> SelectConfig {
    let u = a.u64_index as int;
    let t = a.mtable_lookup_index as int;
    SelectConfig {
        cond: u64_on_u8_cell_at(a.u64_on_u8_index as int),
        cond_inv: UnlimitedCell { col: COL_UNLIMITED, rot: a.unlimited_index },
        val1: u64_cell_at(u),
        val2: u64_cell_at(u + 1),
        res: u64_cell_at(u + 2),
        vtype: common_range_cell_at(a.common_range_index as int),
        lookup_stack_read_cond: mtable_lookup_cell_at(t),
        lookup_stack_read_val2: mtable_lookup_cell_at(t + 1),
        lookup_stack_read_val1: mtable_lookup_cell_at(t + 2),
        lookup_stack_write: mtable_lookup_cell_at(t + 3),
    }
}

impl SelectConfig {
    /// Every cell lies within a block.
    pub open spec fn wf(self) -> bool {
        &&& u64_on_u8_cell_ok(self.cond)
        &&& 0 <= self.cond_inv.rot < 20
        &&& u64_cell_ok(self.val1)
        &&& u64_cell_ok(self.val2)
        &&& u64_cell_ok(self.res)
        &&& common_range_cell_ok(self.vtype)
        &&& mtable_lookup_cell_ok(self.lookup_stack_read_cond)
        &&& mtable_lookup_cell_ok(self.lookup_stack_read_val2)
        &&& mtable_lookup_cell_ok(self.lookup_stack_read_val1)
        &&& mtable_lookup_cell_ok(self.lookup_stack_write)
    }

    /// The memory table lookup cells of the step, in the order of the
    /// gadget's cells.
    pub open spec fn lookups(self) -> Seq<MTableLookupCell> {
        seq![self.lookup_stack_read_cond, self.lookup_stack_read_val2, self.lookup_stack_read_val1, self.lookup_stack_write]
    }
}

impl SelectConfigBuilder {
    /// Takes the gadget's cells from the allocator of its block.
    pub fn configure(common: &mut EventTableCellAllocator) -> (r: SelectConfig)
        requires
            old(common).wf(),
            old(common).u64_on_u8_index + 1 <= 4,
            old(common).unlimited_index + 1 <= 20,
            old(common).u64_index + 3 <= 3,
            old(common).common_range_index + 1 <= 20,
            old(common).mtable_lookup_index + 4 <= 11,
        ensures
            r == select_layout(*old(common)),
            r.wf(),
            final(common).wf(),
            *final(common) == (EventTableCellAllocator {
                u64_on_u8_index: (old(common).u64_on_u8_index + 1) as i32,
                unlimited_index: (old(common).unlimited_index + 1) as i32,
                u64_index: (old(common).u64_index + 3) as i32,
                common_range_index: (old(common).common_range_index + 1) as i32,
                mtable_lookup_index: (old(common).mtable_lookup_index + 4) as i32,
                ..*old(common)
            }),
    {
        let cond = common.alloc_u64_on_u8();
        let cond_inv = common.alloc_unlimited_value();
        let val1 = common.alloc_u64();
        let val2 = common.alloc_u64();
        let res = common.alloc_u64();
        let vtype = common.alloc_common_range_value();
        let lookup_stack_read_cond = common.alloc_mtable_lookup();
        let lookup_stack_read_val2 = common.alloc_mtable_lookup();
        let lookup_stack_read_val1 = common.alloc_mtable_lookup();
        let lookup_stack_write = common.alloc_mtable_lookup();
        SelectConfig {
            cond,
            cond_inv,
            val1,
            val2,
            res,
            vtype,
            lookup_stack_read_cond,
            lookup_stack_read_val2,
            lookup_stack_read_val1,
            lookup_stack_write,
        }
    }
}

/// The gates of the gadget: where the condition has no inverse the result
/// is the second value, and where the condition is not zero the result is
/// the first value.
pub open spec fn select_gates(w: SelectWitness) -> bool {
    &&& fzero((1 - w.cond * w.cond_inv.value()) * (w.res - w.val2))
    &&& fzero(w.cond * (w.res - w.val1))
}

/// The result of `select`.
pub open spec fn wasm_select(val1: u64, val2: u64, cond: u64) -> u64 {
    if cond != 0 {
        val1
    } else {
        val2
    }
}

/// The values assigned for a step: the inverse is the field inverse of the
/// condition, or zero for a zero condition.
pub open spec fn select_witness_of(w: SelectWitness, val1: u64, val2: u64, cond: u64, result: u64, vtype: VarType) -> bool {
    &&& w.cond == cond
    &&& w.val1 == val1
    &&& w.val2 == val2
    &&& w.res == result
    &&& w.vtype == vtype_code(vtype)
    &&& w.cond_inv.wf()
    &&& cond == 0 ==> w.cond_inv.value() == 0
    &&& cond != 0 ==> (cond as int * w.cond_inv.value()) % modulus() == 1
}

/// The values computed for a step.
pub fn select_witness(val1: u64, val2: u64, cond: u64, result: u64, vtype: VarType) -> (w: SelectWitness)
    ensures
        select_witness_of(w, val1, val2, cond, result, vtype),
{
    SelectWitness {
        cond,
        cond_inv: invert_or_zero(cond),
        val1,
        val2,
        res: result,
        vtype: match vtype {
            VarType::I32 => 1,
            VarType::I64 => 2,
        },
    }
}

/// A multiple of a value that vanishes in the field vanishes.
proof fn lemma_fzero_multiple(a: int, b: int)
    requires
        fzero(a),
    ensures
        fzero(a * b),
{
    vstd::arithmetic::div_mod::lemma_mul_mod_noop_left(a, b, modulus());
    vstd::arithmetic::mul::lemma_mul_basics(b);
}

/// Completeness: on every step whose recorded result is the result of
/// `select`, the assigned values satisfy the gates.
pub proof fn lemma_select_complete(w: SelectWitness, val1: u64, val2: u64, cond: u64, result: u64, vtype: VarType)
    requires
        select_witness_of(w, val1, val2, cond, result, vtype),
        result == wasm_select(val1, val2, cond),
    ensures
        select_gates(w),
{
    let c = cond as int;
    let inv = w.cond_inv.value();
    if cond == 0 {
        vstd::arithmetic::mul::lemma_mul_basics(inv);
        vstd::arithmetic::mul::lemma_mul_basics(w.res - w.val1);
        assert(w.res - w.val2 == 0);
        vstd::arithmetic::mul::lemma_mul_basics(1 - c * inv);
    } else {
        vstd::arithmetic::div_mod::lemma_sub_mod_noop(1, c * inv, modulus());
        assert(fzero(1 - c * inv));
        lemma_fzero_multiple(1 - c * inv, w.res - w.val2);
        vstd::arithmetic::mul::lemma_mul_basics(c);
    }
}

/// Soundness: wherever the gates hold, whatever the inverse cell holds,
/// the result is the one `select` gives.
pub proof fn lemma_select_sound(w: SelectWitness)
    requires
        select_gates(w),
    ensures
        w.res == wasm_select(w.val1, w.val2, w.cond),
{
    lemma_fzero_mul(w.cond as int, w.res - w.val1);
    if w.cond == 0 {
        vstd::arithmetic::mul::lemma_mul_basics(w.cond_inv.value());
        vstd::arithmetic::mul::lemma_mul_basics(w.res - w.val2);
        lemma_fzero_small(w.res - w.val2);
    }
}

/// Whether the gates hold on the values `w`.
pub fn select_gates_hold(w: &SelectWitness) -> (b: bool)
    ensures
        b == select_gates(*w),
{
    let one = FieldValue::from_u64(1);
    let prod = field_mul(FieldValue::from_u64(w.cond), w.cond_inv);
    let t = field_sub(one, prod);
    let d = field_sub(FieldValue::from_u64(w.res), FieldValue::from_u64(w.val2));
    let g1 = field_mul(t, d);
    proof {
        let m = modulus();
        let c = w.cond as int;
        let inv = w.cond_inv.value();
        vstd::arithmetic::div_mod::lemma_sub_mod_noop(1, c * inv, m);
        vstd::arithmetic::div_mod::lemma_mod_twice(1 - c * inv, m);
        vstd::arithmetic::div_mod::lemma_mul_mod_noop_general(1 - c * inv, w.res - w.val2, m);
        lemma_fzero_mul(w.cond as int, w.res - w.val1);
    }
    let g2 = w.cond == 0 || w.res == w.val1;
    g1.is_zero() && g2
}

/// The assignments that the gadget makes for a step, in order.
pub open spec fn select_writes(c: SelectConfig, off: int, w: SelectWitness) -> Seq<CellWrite> {
    u64_cell_writes(c.val1, off, w.val1) + u64_cell_writes(c.val2, off, w.val2) + u64_on_u8_cell_writes(
        c.cond,
        off,
        w.cond,
    ) + one_write(c.cond_inv.col, off, c.cond_inv.rot as int, w.cond_inv) + u64_cell_writes(c.res, off, w.res)
        + common_range_writes(c.vtype, off, w.vtype)
}

/// What a `select` step writes: the first value to the first value cell,
/// the second to the second, the condition to the condition cell and the
/// result to the result cell.
pub proof fn lemma_select_writes_cells(c: SelectConfig, off: int, w: SelectWitness)
    ensures
        crate::circuits::etable_compact::op_configure::has_write(select_writes(c, off, w), c.val1.value_col, off + c.val1.value_rot, crate::circuits::utils::fv_u64(w.val1)),
        crate::circuits::etable_compact::op_configure::has_write(select_writes(c, off, w), c.val2.value_col, off + c.val2.value_rot, crate::circuits::utils::fv_u64(w.val2)),
        crate::circuits::etable_compact::op_configure::has_write(select_writes(c, off, w), c.cond.value_col, off + c.cond.value_rot, crate::circuits::utils::fv_u64(w.cond)),
        crate::circuits::etable_compact::op_configure::has_write(select_writes(c, off, w), c.res.value_col, off + c.res.value_rot, crate::circuits::utils::fv_u64(w.res)),
{
    let p0 = u64_cell_writes(c.val1, off, w.val1);
    let p1 = u64_cell_writes(c.val2, off, w.val2);
    let p2 = u64_on_u8_cell_writes(c.cond, off, w.cond);
    let p3 = one_write(c.cond_inv.col, off, c.cond_inv.rot as int, w.cond_inv);
    let p4 = u64_cell_writes(c.res, off, w.res);
    let p5 = common_range_writes(c.vtype, off, w.vtype);
    assert(select_writes(c, off, w) =~= p0 + p1 + p2 + p3 + p4 + p5);
    {
        crate::circuits::etable_compact::op_configure::lemma_u64_cell_writes_value(c.val1, off, w.val1);
        crate::circuits::etable_compact::op_configure::lemma_has_write_append(p0, p1, c.val1.value_col, off + c.val1.value_rot, crate::circuits::utils::fv_u64(w.val1));
        crate::circuits::etable_compact::op_configure::lemma_has_write_append(p0 + p1, p2, c.val1.value_col, off + c.val1.value_rot, crate::circuits::utils::fv_u64(w.val1));
        crate::circuits::etable_compact::op_configure::lemma_has_write_append(p0 + p1 + p2, p3, c.val1.value_col, off + c.val1.value_rot, crate::circuits::utils::fv_u64(w.val1));
        crate::circuits::etable_compact::op_configure::lemma_has_write_append(p0 + p1 + p2 + p3, p4, c.val1.value_col, off + c.val1.value_rot, crate::circuits::utils::fv_u64(w.val1));
        crate::circuits::etable_compact::op_configure::lemma_has_write_append(p0 + p1 + p2 + p3 + p4, p5, c.val1.value_col, off + c.val1.value_rot, crate::circuits::utils::fv_u64(w.val1));
    }
    {
        crate::circuits::etable_compact::op_configure::lemma_u64_cell_writes_value(c.val2, off, w.val2);
        crate::circuits::etable_compact::op_configure::lemma_has_write_append(p0, p1, c.val2.value_col, off + c.val2.value_rot, crate::circuits::utils::fv_u64(w.val2));
        crate::circuits::etable_compact::op_configure::lemma_has_write_append(p0 + p1, p2, c.val2.value_col, off + c.val2.value_rot, crate::circuits::utils::fv_u64(w.val2));
        crate::circuits::etable_compact::op_configure::lemma_has_write_append(p0 + p1 + p2, p3, c.val2.value_col, off + c.val2.value_rot, crate::circuits::utils::fv_u64(w.val2));
        crate::circuits::etable_compact::op_configure::lemma_has_write_append(p0 + p1 + p2 + p3, p4, c.val2.value_col, off + c.val2.value_rot, crate::circuits::utils::fv_u64(w.val2));
        crate::circuits::etable_compact::op_configure::lemma_has_write_append(p0 + p1 + p2 + p3 + p4, p5, c.val2.value_col, off + c.val2.value_rot, crate::circuits::utils::fv_u64(w.val2));
    }
    {
        crate::circuits::etable_compact::op_configure::lemma_u64_on_u8_cell_writes_value(c.cond, off, w.cond);
        crate::circuits::etable_compact::op_configure::lemma_has_write_append(p0, p1, c.cond.value_col, off + c.cond.value_rot, crate::circuits::utils::fv_u64(w.cond));
        crate::circuits::etable_compact::op_configure::lemma_has_write_append(p0 + p1, p2, c.cond.value_col, off + c.cond.value_rot, crate::circuits::utils::fv_u64(w.cond));
        crate::circuits::etable_compact::op_configure::lemma_has_write_append(p0 + p1 + p2, p3, c.cond.value_col, off + c.cond.value_rot, crate::circuits::utils::fv_u64(w.cond));
        crate::circuits::etable_compact::op_configure::lemma_has_write_append(p0 + p1 + p2 + p3, p4, c.cond.value_col, off + c.cond.value_rot, crate::circuits::utils::fv_u64(w.cond));
        crate::circuits::etable_compact::op_configure::lemma_has_write_append(p0 + p1 + p2 + p3 + p4, p5, c.cond.value_col, off + c.cond.value_rot, crate::circuits::utils::fv_u64(w.cond));
    }
    {
        crate::circuits::etable_compact::op_configure::lemma_u64_cell_writes_value(c.res, off, w.res);
        crate::circuits::etable_compact::op_configure::lemma_has_write_append(p0, p1, c.res.value_col, off + c.res.value_rot, crate::circuits::utils::fv_u64(w.res));
        crate::circuits::etable_compact::op_configure::lemma_has_write_append(p0 + p1, p2, c.res.value_col, off + c.res.value_rot, crate::circuits::utils::fv_u64(w.res));
        crate::circuits::etable_compact::op_configure::lemma_has_write_append(p0 + p1 + p2, p3, c.res.value_col, off + c.res.value_rot, crate::circuits::utils::fv_u64(w.res));
        crate::circuits::etable_compact::op_configure::lemma_has_write_append(p0 + p1 + p2 + p3, p4, c.res.value_col, off + c.res.value_rot, crate::circuits::utils::fv_u64(w.res));
        crate::circuits::etable_compact::op_configure::lemma_has_write_append(p0 + p1 + p2 + p3 + p4, p5, c.res.value_col, off + c.res.value_rot, crate::circuits::utils::fv_u64(w.res));
    }
}

impl SelectConfig {
    /// Assigns the gadget's cells for a `select` step, and gives the values
    /// assigned.
    fn assign_cells(&self, ctx: &mut Context, step: &StepInfo) -> (w: SelectWitness)
        requires
            self.wf(),
            old(ctx).offset + 40 <= i32::MAX,
            step is Select,
        ensures
            select_witness_of(w, step->val1, step->val2, step->cond, step->Select_result, step->Select_vtype),
            final(ctx).offset == old(ctx).offset,
            final(ctx).writes@ == old(ctx).writes@ + select_writes(*self, old(ctx).offset as int, w),
    {
        let w = match step {
            StepInfo::Select { val1, val2, cond, result, vtype } => select_witness(*val1, *val2, *cond, *result, *vtype),
            _ => select_witness(0, 0, 0, 0, VarType::I32),
        };
        let ghost start = old(ctx).writes@;
        let ghost o = old(ctx).offset as int;
        self.val1.assign(ctx, w.val1);
        self.val2.assign(ctx, w.val2);
        self.cond.assign(ctx, w.cond);
        self.cond_inv.assign(ctx, w.cond_inv);
        self.res.assign(ctx, w.res);
        self.vtype.assign(ctx, w.vtype);
        proof {
            assert(ctx.writes@ =~= start + select_writes(*self, o, w));
        }
        w
    }

    /// Assigns the step's cells, as `assign_cells` does, and the
    /// encodings `enc` of the step's stack and memory accesses to its
    /// memory table lookup cells, in order.
    pub fn assign(&self, ctx: &mut Context, step: &StepInfo, enc: &Vec<FieldValue>) -> (w: SelectWitness)
        requires
            enc.len() == 4,
            self.wf(),
            old(ctx).offset + 40 <= i32::MAX,
            step is Select,
        ensures
            select_witness_of(w, step->val1, step->val2, step->cond, step->Select_result, step->Select_vtype),
            final(ctx).offset == old(ctx).offset,
            final(ctx).writes@ == old(ctx).writes@ + select_writes(*self, old(ctx).offset as int, w) + mtable_lookup_writes(
                self.lookups(),
                old(ctx).offset as int,
                enc@,
            ),
    {
        let w = self.assign_cells(ctx, step);
        let mut cells: Vec<MTableLookupCell> = Vec::new();
        cells.push(self.lookup_stack_read_cond);
        cells.push(self.lookup_stack_read_val2);
        cells.push(self.lookup_stack_read_val1);
        cells.push(self.lookup_stack_write);
        proof {
            assert(cells@ =~= self.lookups());
        }
        assign_mtable_lookups(ctx, &cells, enc);
        w
    }
}

} // verus!
