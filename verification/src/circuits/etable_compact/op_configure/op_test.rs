//! The gadget of `eqz`: one when the value is zero, zero otherwise.

use vstd::prelude::*;
use crate::circuits::etable_compact::op_configure::{
    assign_mtable_lookups, mtable_lookup_cell_ok, mtable_lookup_writes,
    bit_cell_at, bit_cell_ok, bit_writes, mtable_lookup_cell_at, one_write, u64_cell_at, u64_cell_ok,
    u64_cell_writes, BitCell, EventTableCellAllocator, MTableLookupCell, U64Cell, UnlimitedCell,
};
use crate::circuits::etable_compact::COL_UNLIMITED;
use crate::circuits::step::{StepInfo, VarType};
use crate::circuits::utils::{
    b2i, field_mul, fzero, invert_or_zero, lemma_fzero_mul_bit, lemma_fzero_small, modulus,
    CellWrite, Context, FieldValue,
};

verus! {

/// The cells of the gadget.
#[derive(Clone, Copy, Debug, PartialEq, Eq, Structural)]
pub struct TestConfig {
    pub is_i64: BitCell,
    pub value_inv: UnlimitedCell,
    pub value: U64Cell,
    pub res: BitCell,
    pub lookup_stack_read: MTableLookupCell,
    pub lookup_stack_write: MTableLookupCell,
}

/// Builds the gadget.
pub struct TestConfigBuilder {}

/// The values that the gadget's cells hold for one step.
#[derive(Clone, Copy, Debug, PartialEq, Eq, Structural)]
pub struct TestWitness {
    pub is_i64: bool,
    pub value_inv: FieldValue,
    pub value: u64,
    pub res: bool,
}

/// The cells that the gadget takes from an allocator in state `a`.
pub open spec fn test_layout(a: EventTableCellAllocator) -> TestConfig {
    let b = a.bit_index as int;
    let t = a.mtable_lookup_index as int;
    TestConfig {
        value: u64_cell_at(a.u64_index as int),
        res: bit_cell_at(b),
        is_i64: bit_cell_at(b + 1),
        value_inv: UnlimitedCell { col: COL_UNLIMITED, rot: a.unlimited_index },
        lookup_stack_read: mtable_lookup_cell_at(t),
        lookup_stack_write: mtable_lookup_cell_at(t + 1),
    }
}

impl TestConfig {
    /// Every cell lies within a block.
    pub open spec fn wf(self) -> bool {
        &&& bit_cell_ok(self.is_i64)
        &&& 0 <= self.value_inv.rot < 20
        &&& u64_cell_ok(self.value)
        &&& bit_cell_ok(self.res)
        &&& mtable_lookup_cell_ok(self.lookup_stack_read)
        &&& mtable_lookup_cell_ok(self.lookup_stack_write)
    }

    /// The memory table lookup cells of the step, in the order of the
    /// gadget's cells.
    pub open spec fn lookups(self) -> Seq<MTableLookupCell> {
        seq![self.lookup_stack_read, self.lookup_stack_write]
    }
}

impl TestConfigBuilder {
    /// Takes the gadget's cells from the allocator of its block.
    pub fn configure(common: &mut EventTableCellAllocator) -> (r: TestConfig)
        requires
            old(common).wf(),
            old(common).u64_index + 1 <= 3,
            old(common).bit_index + 2 <= 40,
            old(common).unlimited_index + 1 <= 20,
            old(common).mtable_lookup_index + 2 <= 11,
        ensures
            r == test_layout(*old(common)),
            r.wf(),
            final(common).wf(),
            *final(common) == (EventTableCellAllocator {
                u64_index: (old(common).u64_index + 1) as i32,
                bit_index: (old(common).bit_index + 2) as i32,
                unlimited_index: (old(common).unlimited_index + 1) as i32,
                mtable_lookup_index: (old(common).mtable_lookup_index + 2) as i32,
                ..*old(common)
            }),
    {
        let value = common.alloc_u64();
        let res = common.alloc_bit_value();
        let is_i64 = common.alloc_bit_value();
        let value_inv = common.alloc_unlimited_value();
        let lookup_stack_read = common.alloc_mtable_lookup();
        let lookup_stack_write = common.alloc_mtable_lookup();
        TestConfig { is_i64, value_inv, value, res, lookup_stack_read, lookup_stack_write }
    }
}

/// The gates of the gadget: the result is zero where the value is not, and
/// the value has an inverse where the result is zero.
pub open spec fn test_gates(w: TestWitness) -> bool {
    &&& fzero(b2i(w.res) * w.value)
    &&& fzero(w.value * w.value_inv.value() - 1 + b2i(w.res))
}

/// The values assigned for a step whose recorded result is `result`.
pub open spec fn test_witness_of(w: TestWitness, vtype: VarType, value: u64, result: i32) -> bool {
    &&& w.is_i64 == (vtype == VarType::I64)
    &&& w.value == value
    &&& w.res == (result == 1)
    &&& w.value_inv.wf()
    &&& value == 0 ==> w.value_inv.value() == 0
    &&& value != 0 ==> (value as int * w.value_inv.value()) % modulus() == 1
}

/// The values computed for a step.
pub fn test_witness(vtype: VarType, value: u64, result: i32) -> (w: TestWitness)
    ensures
        test_witness_of(w, vtype, value, result),
{
    TestWitness {
        is_i64: match vtype {
            VarType::I64 => true,
            VarType::I32 => false,
        },
        value_inv: invert_or_zero(value),
        value,
        res: result == 1,
    }
}

/// Completeness: on every step whose recorded result is one for a zero
/// value and zero otherwise, the assigned values satisfy the gates.
pub proof fn lemma_test_complete(w: TestWitness, vtype: VarType, value: u64, result: i32)
    requires
        test_witness_of(w, vtype, value, result),
        result == (if value == 0 { 1int } else { 0int }),
    ensures
        test_gates(w),
{
    vstd::arithmetic::mul::lemma_mul_basics(value as int);
    vstd::arithmetic::mul::lemma_mul_basics(w.value_inv.value());
    if value != 0 {
        vstd::arithmetic::div_mod::lemma_sub_mod_noop(value as int * w.value_inv.value(), 1, modulus());
    }
}

/// Soundness: wherever the gates hold, the result bit says whether the
/// value is zero, whatever the inverse cell holds.
pub proof fn lemma_test_sound(w: TestWitness)
    requires
        test_gates(w),
    ensures
        w.res == (w.value == 0),
{
    lemma_fzero_mul_bit(w.value as int, b2i(w.res));
    vstd::arithmetic::mul::lemma_mul_is_commutative(b2i(w.res), w.value as int);
    if w.value == 0 {
        vstd::arithmetic::mul::lemma_mul_basics(w.value_inv.value());
        lemma_fzero_small(w.value * w.value_inv.value() - 1 + b2i(w.res));
    }
}

/// Whether the gates hold on the values `w`.
pub fn test_gates_hold(w: &TestWitness) -> (b: bool)
    ensures
        b == test_gates(*w),
{
    let t = field_mul(FieldValue::from_u64(w.value), w.value_inv);
    proof {
        let m = modulus();
        let p = w.value as int * w.value_inv.value();
        vstd::arithmetic::div_mod::lemma_add_mod_noop(p, b2i(w.res) - 1, m);
        vstd::arithmetic::div_mod::lemma_mod_twice(p, m);
        lemma_fzero_mul_bit(w.value as int, b2i(w.res));
        vstd::arithmetic::mul::lemma_mul_is_commutative(b2i(w.res), w.value as int);
        let r = t.value();
        let s = b2i(w.res) - 1;
        assert(-1 <= r + s < m);
        vstd::arithmetic::div_mod::lemma_small_mod(0, m as nat);
        if r + s == -1 {
            vstd::arithmetic::div_mod::lemma_fundamental_div_mod_converse(-1, m, -1, m - 1);
        } else {
            vstd::arithmetic::div_mod::lemma_small_mod((r + s) as nat, m as nat);
        }
        assert((r + (s % m)) % m == (r + s) % m) by {
            vstd::arithmetic::div_mod::lemma_add_mod_noop(r, s, m);
            vstd::arithmetic::div_mod::lemma_mod_twice(r, m);
            vstd::arithmetic::div_mod::lemma_small_mod(r as nat, m as nat);
        }
    }
    let g1 = !w.res || w.value == 0;
    let g2 = if w.res { t.is_zero() } else { t.l0 == 1 && t.l1 == 0 && t.l2 == 0 && t.l3 == 0 };
    g1 && g2
}

/// The assignments that the gadget makes for a step, in order.
pub open spec fn test_writes(c: TestConfig, off: int, w: TestWitness) -> Seq<CellWrite> {
    bit_writes(c.is_i64, off, w.is_i64) + u64_cell_writes(c.value, off, w.value) + one_write(
        c.value_inv.col,
        off,
        c.value_inv.rot as int,
        w.value_inv,
    ) + bit_writes(c.res, off, w.res)
}

/// What an `eqz` step writes: the width flag to its bit, the operand to
/// the value cell and the result to the result bit.
pub proof fn lemma_test_writes_cells(c: TestConfig, off: int, w: TestWitness)
    ensures
        crate::circuits::etable_compact::op_configure::has_write(test_writes(c, off, w), c.is_i64.col, off + c.is_i64.rot, crate::circuits::utils::fv_bool(w.is_i64)),
        crate::circuits::etable_compact::op_configure::has_write(test_writes(c, off, w), c.value.value_col, off + c.value.value_rot, crate::circuits::utils::fv_u64(w.value)),
        crate::circuits::etable_compact::op_configure::has_write(test_writes(c, off, w), c.res.col, off + c.res.rot, crate::circuits::utils::fv_bool(w.res)),
{
    let p0 = bit_writes(c.is_i64, off, w.is_i64);
    let p1 = u64_cell_writes(c.value, off, w.value);
    let p2 = one_write(c.value_inv.col, off, c.value_inv.rot as int, w.value_inv);
    let p3 = bit_writes(c.res, off, w.res);
    assert(test_writes(c, off, w) =~= p0 + p1 + p2 + p3);
    {
        crate::circuits::etable_compact::op_configure::lemma_has_write_one(c.is_i64.col, off, c.is_i64.rot as int, crate::circuits::utils::fv_bool(w.is_i64));
        crate::circuits::etable_compact::op_configure::lemma_has_write_append(p0, p1, c.is_i64.col, off + c.is_i64.rot, crate::circuits::utils::fv_bool(w.is_i64));
        crate::circuits::etable_compact::op_configure::lemma_has_write_append(p0 + p1, p2, c.is_i64.col, off + c.is_i64.rot, crate::circuits::utils::fv_bool(w.is_i64));
        crate::circuits::etable_compact::op_configure::lemma_has_write_append(p0 + p1 + p2, p3, c.is_i64.col, off + c.is_i64.rot, crate::circuits::utils::fv_bool(w.is_i64));
    }
    {
        crate::circuits::etable_compact::op_configure::lemma_u64_cell_writes_value(c.value, off, w.value);
        crate::circuits::etable_compact::op_configure::lemma_has_write_append(p0, p1, c.value.value_col, off + c.value.value_rot, crate::circuits::utils::fv_u64(w.value));
        crate::circuits::etable_compact::op_configure::lemma_has_write_append(p0 + p1, p2, c.value.value_col, off + c.value.value_rot, crate::circuits::utils::fv_u64(w.value));
        crate::circuits::etable_compact::op_configure::lemma_has_write_append(p0 + p1 + p2, p3, c.value.value_col, off + c.value.value_rot, crate::circuits::utils::fv_u64(w.value));
    }
    {
        crate::circuits::etable_compact::op_configure::lemma_has_write_one(c.res.col, off, c.res.rot as int, crate::circuits::utils::fv_bool(w.res));
        crate::circuits::etable_compact::op_configure::lemma_has_write_append(p0, p1, c.res.col, off + c.res.rot, crate::circuits::utils::fv_bool(w.res));
        crate::circuits::etable_compact::op_configure::lemma_has_write_append(p0 + p1, p2, c.res.col, off + c.res.rot, crate::circuits::utils::fv_bool(w.res));
        crate::circuits::etable_compact::op_configure::lemma_has_write_append(p0 + p1 + p2, p3, c.res.col, off + c.res.rot, crate::circuits::utils::fv_bool(w.res));
    }
}

impl TestConfig {
    /// Assigns the gadget's cells for an `eqz` step, and gives the values
    /// assigned.
    fn assign_cells(&self, ctx: &mut Context, step: &StepInfo) -> (w: TestWitness)
        requires
            self.wf(),
            old(ctx).offset + 40 <= i32::MAX,
            step is Test,
        ensures
            test_witness_of(w, step->Test_vtype, step->Test_value, step->Test_result),
            final(ctx).offset == old(ctx).offset,
            final(ctx).writes@ == old(ctx).writes@ + test_writes(*self, old(ctx).offset as int, w),
    {
        let w = match step {
            StepInfo::Test { vtype, value, result } => test_witness(*vtype, *value, *result),
            _ => test_witness(VarType::I32, 0, 1),
        };
        let ghost start = old(ctx).writes@;
        let ghost o = old(ctx).offset as int;
        self.is_i64.assign(ctx, w.is_i64);
        self.value.assign(ctx, w.value);
        self.value_inv.assign(ctx, w.value_inv);
        self.res.assign(ctx, w.res);
        proof {
            assert(ctx.writes@ =~= start + test_writes(*self, o, w));
        }
        w
    }

    /// Assigns the step's cells, as `assign_cells` does, and the
    /// encodings `enc` of the step's stack and memory accesses to its
    /// memory table lookup cells, in order.
    pub fn assign(&self, ctx: &mut Context, step: &StepInfo, enc: &Vec<FieldValue>) -> (w: TestWitness)
        requires
            enc.len() == 2,
            self.wf(),
            old(ctx).offset + 40 <= i32::MAX,
            step is Test,
        ensures
            test_witness_of(w, step->Test_vtype, step->Test_value, step->Test_result),
            final(ctx).offset == old(ctx).offset,
            final(ctx).writes@ == old(ctx).writes@ + test_writes(*self, old(ctx).offset as int, w) + mtable_lookup_writes(
                self.lookups(),
                old(ctx).offset as int,
                enc@,
            ),
    {
        let w = self.assign_cells(ctx, step);
        let mut cells: Vec<MTableLookupCell> = Vec::new();
        cells.push(self.lookup_stack_read);
        cells.push(self.lookup_stack_write);
        proof {
            assert(cells@ =~= self.lookups());
        }
        assign_mtable_lookups(ctx, &cells, enc);
        w
    }
}

} // verus!
