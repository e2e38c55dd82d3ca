//! The gadget of the unsigned 32-bit comparisons `lt_u` and `le_u`: the
//! result bit is tied to the operands through a range-checked difference.

use vstd::prelude::*;
use crate::circuits::etable_compact::op_configure::{
    assign_mtable_lookups, bit_cell_at, bit_cell_ok, bit_writes, common_range_cell_at, common_range_cell_ok,
    common_range_writes, mtable_lookup_cell_at, mtable_lookup_cell_ok, mtable_lookup_writes, u64_cell_at,
    u64_cell_ok, u64_cell_writes, BitCell, CommonRangeCell, EventTableCellAllocator, MTableLookupCell, U64Cell,
};
use crate::circuits::step::{RelOp, StepInfo};
use crate::circuits::utils::{b2i, fzero, lemma_fzero_small, CellWrite, Context, FieldValue};

verus! {

/// The cells of the gadget.
#[derive(Clone, Copy, Debug, PartialEq, Eq, Structural)]
pub struct RelConfig {
    pub lhs: U64Cell,
    pub rhs: U64Cell,
    pub diff: U64Cell,
    pub res: BitCell,
    pub vtype: CommonRangeCell,
    pub is_le: BitCell,
    pub is_lt: BitCell,
    pub is_signed: BitCell,
    pub lookup_stack_read_lhs: MTableLookupCell,
    pub lookup_stack_read_rhs: MTableLookupCell,
    pub lookup_stack_write: MTableLookupCell,
}

/// Builds the gadget.
pub struct RelConfigBuilder {}

/// The cells that the gadget takes from an allocator in state `a`.
pub open spec fn rel_layout(a: EventTableCellAllocator) -> RelConfig {
    let u = a.u64_index as int;
    let b = a.bit_index as int;
    let t = a.mtable_lookup_index as int;
    RelConfig {
        lhs: u64_cell_at(u),
        rhs: u64_cell_at(u + 1),
        diff: u64_cell_at(u + 2),
        res: bit_cell_at(b),
        is_le: bit_cell_at(b + 1),
        is_lt: bit_cell_at(b + 2),
        is_signed: bit_cell_at(b + 3),
        vtype: common_range_cell_at(a.common_range_index as int),
        lookup_stack_read_lhs: mtable_lookup_cell_at(t),
        lookup_stack_read_rhs: mtable_lookup_cell_at(t + 1),
        lookup_stack_write: mtable_lookup_cell_at(t + 2),
    }
}

impl RelConfig {
    /// Every cell lies within a block.
    pub open spec fn wf(self) -> bool {
        &&& u64_cell_ok(self.lhs)
        &&& u64_cell_ok(self.rhs)
        &&& u64_cell_ok(self.diff)
        &&& bit_cell_ok(self.res)
        &&& common_range_cell_ok(self.vtype)
        &&& bit_cell_ok(self.is_le)
        &&& bit_cell_ok(self.is_lt)
        &&& bit_cell_ok(self.is_signed)
        &&& mtable_lookup_cell_ok(self.lookup_stack_read_lhs)
        &&& mtable_lookup_cell_ok(self.lookup_stack_read_rhs)
        &&& mtable_lookup_cell_ok(self.lookup_stack_write)
    }

    /// The memory table lookup cells, in the order of their accesses: the
    /// read of the right operand, of the left one, and the write of the
    /// result.
    pub open spec fn lookups(self) -> Seq<MTableLookupCell> {
        seq![self.lookup_stack_read_rhs, self.lookup_stack_read_lhs, self.lookup_stack_write]
    }
}

impl RelConfigBuilder {
    /// Takes the gadget's cells from the allocator of its block.
    pub fn configure(common: &mut EventTableCellAllocator) -> (r: RelConfig)
        requires
            old(common).wf(),
            old(common).u64_index + 3 <= 3,
            old(common).bit_index + 4 <= 40,
            old(common).common_range_index + 1 <= 20,
            old(common).mtable_lookup_index + 3 <= 11,
        ensures
            r == rel_layout(*old(common)),
            r.wf(),
            final(common).wf(),
            *final(common) == (EventTableCellAllocator {
                u64_index: (old(common).u64_index + 3) as i32,
                bit_index: (old(common).bit_index + 4) as i32,
                common_range_index: (old(common).common_range_index + 1) as i32,
                mtable_lookup_index: (old(common).mtable_lookup_index + 3) as i32,
                ..*old(common)
            }),
    {
        let lhs = common.alloc_u64();
        let rhs = common.alloc_u64();
        let diff = common.alloc_u64();
        let res = common.alloc_bit_value();
        let is_le = common.alloc_bit_value();
        let is_lt = common.alloc_bit_value();
        let is_signed = common.alloc_bit_value();
        let vtype = common.alloc_common_range_value();
        let lookup_stack_read_lhs = common.alloc_mtable_lookup();
        let lookup_stack_read_rhs = common.alloc_mtable_lookup();
        let lookup_stack_write = common.alloc_mtable_lookup();
        RelConfig {
            lhs,
            rhs,
            diff,
            res,
            vtype,
            is_le,
            is_lt,
            is_signed,
            lookup_stack_read_lhs,
            lookup_stack_read_rhs,
            lookup_stack_write,
        }
    }
}

/// The gates of the gadget: exactly one of the two comparisons is chosen;
/// and the difference cell, range-checked to 64 bits by its nibbles, is
/// the right operand less the left one, less one for `lt_u`, where the
/// result is set, and the left operand less the right one, less one for
/// `le_u`, where it is not.
pub open spec fn rel_gates(is_le: bool, is_lt: bool, lhs: int, rhs: int, res: bool, diff: int) -> bool {
    &&& fzero(b2i(is_le) + b2i(is_lt) - 1)
    &&& fzero(b2i(res) * (rhs - lhs - b2i(is_lt) - diff) + (1 - b2i(res)) * (lhs - rhs - b2i(is_le) - diff))
}

/// The comparison is one that the gadget assigns.
pub open spec fn rel_supported(class: RelOp) -> bool {
    class == RelOp::UnsignedLt || class == RelOp::UnsignedLe
}

/// The result of an unsigned comparison of the 32-bit patterns `l` and `r`.
pub open spec fn rel_result(class: RelOp, l: int, r: int) -> bool {
    if class == RelOp::UnsignedLt {
        l < r
    } else {
        l <= r
    }
}

/// The difference that the gadget assigns for a step with result `value`:
/// the one its gate asks for, or zero where that would be negative, as it
/// is for a result that is not the comparison's.
pub open spec fn rel_diff(class: RelOp, l: int, r: int, value: bool) -> int {
    let lt = if class == RelOp::UnsignedLt { 1int } else { 0int };
    let d = if value { r - l - lt } else { l - r - (1 - lt) };
    if d < 0 { 0 } else { d }
}

/// The assignments that the gadget makes for a step, in order, with the
/// encodings `enc` of its three stack accesses.
pub open spec fn rel_writes(
    c: RelConfig,
    off: int,
    class: RelOp,
    left: i32,
    right: i32,
    value: bool,
    enc: Seq<FieldValue>,
) -> Seq<CellWrite> {
    common_range_writes(c.vtype, off, 1) + u64_cell_writes(c.lhs, off, left as u32 as u64) + u64_cell_writes(
        c.rhs,
        off,
        right as u32 as u64,
    ) + u64_cell_writes(c.diff, off, rel_diff(class, left as u32 as int, right as u32 as int, value) as u64)
        + bit_writes(c.res, off, value) + if class == RelOp::UnsignedLt {
        bit_writes(c.is_lt, off, true)
    } else {
        bit_writes(c.is_le, off, true)
    } + mtable_lookup_writes(c.lookups(), off, enc)
}

/// Completeness: a step of either supported comparison whose result is the
/// comparison's satisfies the gates, with the difference it assigns.
pub proof fn lemma_rel_complete(class: RelOp, l: u32, r: u32)
    requires
        rel_supported(class),
    ensures
        rel_gates(
            class == RelOp::UnsignedLe,
            class == RelOp::UnsignedLt,
            l as int,
            r as int,
            rel_result(class, l as int, r as int),
            rel_diff(class, l as int, r as int, rel_result(class, l as int, r as int)),
        ),
{
    let res = rel_result(class, l as int, r as int);
    let d = rel_diff(class, l as int, r as int, res);
    let p = b2i(res) * (r - l - b2i(class == RelOp::UnsignedLt) - d) + (1 - b2i(res)) * (l - r - b2i(
        class == RelOp::UnsignedLe,
    ) - d);
    if res {
        assert(p == 1 * (r - l - b2i(class == RelOp::UnsignedLt) - d) + 0 * (l - r - b2i(class == RelOp::UnsignedLe) - d));
    } else {
        assert(p == 0 * (r - l - b2i(class == RelOp::UnsignedLt) - d) + 1 * (l - r - b2i(class == RelOp::UnsignedLe) - d));
    }
    assert(p == 0);
    assert(fzero(0));
}

/// Soundness: wherever the gates hold on 32-bit operands and a difference
/// of at most 64 bits, the result bit is the comparison that the selector
/// chooses: `lhs < rhs` for `lt_u`, `lhs <= rhs` for `le_u`.
pub proof fn lemma_rel_sound(is_le: bool, is_lt: bool, lhs: int, rhs: int, res: bool, diff: int)
    requires
        rel_gates(is_le, is_lt, lhs, rhs, res, diff),
        0 <= lhs < 0x1_0000_0000,
        0 <= rhs < 0x1_0000_0000,
        0 <= diff < 0x1_0000_0000_0000_0000,
    ensures
        is_le != is_lt,
        is_lt ==> (res == (lhs < rhs)),
        is_le ==> (res == (lhs <= rhs)),
{
    lemma_fzero_small(b2i(is_le) + b2i(is_lt) - 1);
    let a = rhs - lhs - b2i(is_lt) - diff;
    let b = lhs - rhs - b2i(is_le) - diff;
    if res {
        assert(b2i(res) * a + (1 - b2i(res)) * b == a) by {
            vstd::arithmetic::mul::lemma_mul_basics(a);
            vstd::arithmetic::mul::lemma_mul_basics(b);
        }
        lemma_fzero_small(a);
    } else {
        assert(b2i(res) * a + (1 - b2i(res)) * b == b) by {
            vstd::arithmetic::mul::lemma_mul_basics(a);
            vstd::arithmetic::mul::lemma_mul_basics(b);
        }
        lemma_fzero_small(b);
    }
}

/// Whether the gates hold on the given cell values.
pub fn rel_gates_hold(is_le: bool, is_lt: bool, lhs: u32, rhs: u32, res: bool, diff: u64) -> (b: bool)
    ensures
        b == rel_gates(is_le, is_lt, lhs as int, rhs as int, res, diff as int),
{
    let le: i128 = if is_le { 1 } else { 0 };
    let lt: i128 = if is_lt { 1 } else { 0 };
    let a: i128 = rhs as i128 - lhs as i128 - lt - diff as i128;
    let c: i128 = lhs as i128 - rhs as i128 - le - diff as i128;
    proof {
        lemma_fzero_small(b2i(is_le) + b2i(is_lt) - 1);
        vstd::arithmetic::mul::lemma_mul_basics(a as int);
        vstd::arithmetic::mul::lemma_mul_basics(c as int);
        if res {
            assert(b2i(res) * a + (1 - b2i(res)) * c == a as int);
            lemma_fzero_small(a as int);
        } else {
            assert(b2i(res) * a + (1 - b2i(res)) * c == c as int);
            lemma_fzero_small(c as int);
        }
    }
    le + lt == 1 && if res {
        a == 0
    } else {
        c == 0
    }
}

/// What a comparison step writes: the left operand's 32-bit pattern to the
/// left cell, the right one's to the right cell, the result to the result
/// bit, and the selector of the comparison asked for set.
pub proof fn lemma_rel_writes_cells(c: RelConfig, off: int, class: RelOp, left: i32, right: i32, value: bool, enc: Seq<FieldValue>)
    ensures
        crate::circuits::etable_compact::op_configure::has_write(rel_writes(c, off, class, left, right, value, enc), c.lhs.value_col, off + c.lhs.value_rot, crate::circuits::utils::fv_u64(left as u32 as u64)),
        crate::circuits::etable_compact::op_configure::has_write(rel_writes(c, off, class, left, right, value, enc), c.rhs.value_col, off + c.rhs.value_rot, crate::circuits::utils::fv_u64(right as u32 as u64)),
        crate::circuits::etable_compact::op_configure::has_write(rel_writes(c, off, class, left, right, value, enc), c.res.col, off + c.res.rot, crate::circuits::utils::fv_bool(value)),
        class == RelOp::UnsignedLt ==> crate::circuits::etable_compact::op_configure::has_write(rel_writes(c, off, class, left, right, value, enc), c.is_lt.col, off + c.is_lt.rot, crate::circuits::utils::fv_bool(true)),
        class != RelOp::UnsignedLt ==> crate::circuits::etable_compact::op_configure::has_write(rel_writes(c, off, class, left, right, value, enc), c.is_le.col, off + c.is_le.rot, crate::circuits::utils::fv_bool(true)),
{
    let p0 = common_range_writes(c.vtype, off, 1);
    let p1 = u64_cell_writes(c.lhs, off, left as u32 as u64);
    let p2 = u64_cell_writes(c.rhs, off, right as u32 as u64);
    let p3 = u64_cell_writes(c.diff, off, rel_diff(class, left as u32 as int, right as u32 as int, value) as u64);
    let p4 = bit_writes(c.res, off, value);
    let p5 = (if class == RelOp::UnsignedLt { bit_writes(c.is_lt, off, true) } else { bit_writes(c.is_le, off, true) });
    let p6 = mtable_lookup_writes(c.lookups(), off, enc);
    assert(rel_writes(c, off, class, left, right, value, enc) =~= p0 + p1 + p2 + p3 + p4 + p5 + p6);
    {
        crate::circuits::etable_compact::op_configure::lemma_u64_cell_writes_value(c.lhs, off, left as u32 as u64);
        crate::circuits::etable_compact::op_configure::lemma_has_write_append(p0, p1, c.lhs.value_col, off + c.lhs.value_rot, crate::circuits::utils::fv_u64(left as u32 as u64));
        crate::circuits::etable_compact::op_configure::lemma_has_write_append(p0 + p1, p2, c.lhs.value_col, off + c.lhs.value_rot, crate::circuits::utils::fv_u64(left as u32 as u64));
        crate::circuits::etable_compact::op_configure::lemma_has_write_append(p0 + p1 + p2, p3, c.lhs.value_col, off + c.lhs.value_rot, crate::circuits::utils::fv_u64(left as u32 as u64));
        crate::circuits::etable_compact::op_configure::lemma_has_write_append(p0 + p1 + p2 + p3, p4, c.lhs.value_col, off + c.lhs.value_rot, crate::circuits::utils::fv_u64(left as u32 as u64));
        crate::circuits::etable_compact::op_configure::lemma_has_write_append(p0 + p1 + p2 + p3 + p4, p5, c.lhs.value_col, off + c.lhs.value_rot, crate::circuits::utils::fv_u64(left as u32 as u64));
        crate::circuits::etable_compact::op_configure::lemma_has_write_append(p0 + p1 + p2 + p3 + p4 + p5, p6, c.lhs.value_col, off + c.lhs.value_rot, crate::circuits::utils::fv_u64(left as u32 as u64));
    }
    {
        crate::circuits::etable_compact::op_configure::lemma_u64_cell_writes_value(c.rhs, off, right as u32 as u64);
        crate::circuits::etable_compact::op_configure::lemma_has_write_append(p0, p1, c.rhs.value_col, off + c.rhs.value_rot, crate::circuits::utils::fv_u64(right as u32 as u64));
        crate::circuits::etable_compact::op_configure::lemma_has_write_append(p0 + p1, p2, c.rhs.value_col, off + c.rhs.value_rot, crate::circuits::utils::fv_u64(right as u32 as u64));
        crate::circuits::etable_compact::op_configure::lemma_has_write_append(p0 + p1 + p2, p3, c.rhs.value_col, off + c.rhs.value_rot, crate::circuits::utils::fv_u64(right as u32 as u64));
        crate::circuits::etable_compact::op_configure::lemma_has_write_append(p0 + p1 + p2 + p3, p4, c.rhs.value_col, off + c.rhs.value_rot, crate::circuits::utils::fv_u64(right as u32 as u64));
        crate::circuits::etable_compact::op_configure::lemma_has_write_append(p0 + p1 + p2 + p3 + p4, p5, c.rhs.value_col, off + c.rhs.value_rot, crate::circuits::utils::fv_u64(right as u32 as u64));
        crate::circuits::etable_compact::op_configure::lemma_has_write_append(p0 + p1 + p2 + p3 + p4 + p5, p6, c.rhs.value_col, off + c.rhs.value_rot, crate::circuits::utils::fv_u64(right as u32 as u64));
    }
    {
        crate::circuits::etable_compact::op_configure::lemma_has_write_one(c.res.col, off, c.res.rot as int, crate::circuits::utils::fv_bool(value));
        crate::circuits::etable_compact::op_configure::lemma_has_write_append(p0, p1, c.res.col, off + c.res.rot, crate::circuits::utils::fv_bool(value));
        crate::circuits::etable_compact::op_configure::lemma_has_write_append(p0 + p1, p2, c.res.col, off + c.res.rot, crate::circuits::utils::fv_bool(value));
        crate::circuits::etable_compact::op_configure::lemma_has_write_append(p0 + p1 + p2, p3, c.res.col, off + c.res.rot, crate::circuits::utils::fv_bool(value));
        crate::circuits::etable_compact::op_configure::lemma_has_write_append(p0 + p1 + p2 + p3, p4, c.res.col, off + c.res.rot, crate::circuits::utils::fv_bool(value));
        crate::circuits::etable_compact::op_configure::lemma_has_write_append(p0 + p1 + p2 + p3 + p4, p5, c.res.col, off + c.res.rot, crate::circuits::utils::fv_bool(value));
        crate::circuits::etable_compact::op_configure::lemma_has_write_append(p0 + p1 + p2 + p3 + p4 + p5, p6, c.res.col, off + c.res.rot, crate::circuits::utils::fv_bool(value));
    }
    if class == RelOp::UnsignedLt {
        crate::circuits::etable_compact::op_configure::lemma_has_write_one(c.is_lt.col, off, c.is_lt.rot as int, crate::circuits::utils::fv_bool(true));
        crate::circuits::etable_compact::op_configure::lemma_has_write_append(p0, p1, c.is_lt.col, off + c.is_lt.rot, crate::circuits::utils::fv_bool(true));
        crate::circuits::etable_compact::op_configure::lemma_has_write_append(p0 + p1, p2, c.is_lt.col, off + c.is_lt.rot, crate::circuits::utils::fv_bool(true));
        crate::circuits::etable_compact::op_configure::lemma_has_write_append(p0 + p1 + p2, p3, c.is_lt.col, off + c.is_lt.rot, crate::circuits::utils::fv_bool(true));
        crate::circuits::etable_compact::op_configure::lemma_has_write_append(p0 + p1 + p2 + p3, p4, c.is_lt.col, off + c.is_lt.rot, crate::circuits::utils::fv_bool(true));
        crate::circuits::etable_compact::op_configure::lemma_has_write_append(p0 + p1 + p2 + p3 + p4, p5, c.is_lt.col, off + c.is_lt.rot, crate::circuits::utils::fv_bool(true));
        crate::circuits::etable_compact::op_configure::lemma_has_write_append(p0 + p1 + p2 + p3 + p4 + p5, p6, c.is_lt.col, off + c.is_lt.rot, crate::circuits::utils::fv_bool(true));
    }
    if class != RelOp::UnsignedLt {
        crate::circuits::etable_compact::op_configure::lemma_has_write_one(c.is_le.col, off, c.is_le.rot as int, crate::circuits::utils::fv_bool(true));
        crate::circuits::etable_compact::op_configure::lemma_has_write_append(p0, p1, c.is_le.col, off + c.is_le.rot, crate::circuits::utils::fv_bool(true));
        crate::circuits::etable_compact::op_configure::lemma_has_write_append(p0 + p1, p2, c.is_le.col, off + c.is_le.rot, crate::circuits::utils::fv_bool(true));
        crate::circuits::etable_compact::op_configure::lemma_has_write_append(p0 + p1 + p2, p3, c.is_le.col, off + c.is_le.rot, crate::circuits::utils::fv_bool(true));
        crate::circuits::etable_compact::op_configure::lemma_has_write_append(p0 + p1 + p2 + p3, p4, c.is_le.col, off + c.is_le.rot, crate::circuits::utils::fv_bool(true));
        crate::circuits::etable_compact::op_configure::lemma_has_write_append(p0 + p1 + p2 + p3 + p4, p5, c.is_le.col, off + c.is_le.rot, crate::circuits::utils::fv_bool(true));
        crate::circuits::etable_compact::op_configure::lemma_has_write_append(p0 + p1 + p2 + p3 + p4 + p5, p6, c.is_le.col, off + c.is_le.rot, crate::circuits::utils::fv_bool(true));
    }
}

impl RelConfig {
    /// Assigns the gadget's cells for a step of `lt_u` or `le_u` on 32-bit
    /// values, with the encodings `enc` of its stack accesses: the read of
    /// the right operand, of the left one, and the write of the result.
    pub fn assign(&self, ctx: &mut Context, step: &StepInfo, enc: &Vec<FieldValue>)
        requires
            self.wf(),
            old(ctx).offset + 40 <= i32::MAX,
            step is I32Comp,
            rel_supported(step->I32Comp_class),
            enc.len() == 3,
        ensures
            final(ctx).offset == old(ctx).offset,
            final(ctx).writes@ == old(ctx).writes@ + rel_writes(
                *self,
                old(ctx).offset as int,
                step->I32Comp_class,
                step->I32Comp_left,
                step->I32Comp_right,
                step->I32Comp_value,
                enc@,
            ),
    {
        let (class, left, right, value) = match step {
            StepInfo::I32Comp { class, left, right, value } => (*class, *left, *right, *value),
            _ => (RelOp::UnsignedLt, 0, 0, false),
        };
        let ghost start = old(ctx).writes@;
        let ghost o = old(ctx).offset as int;
        let l: u64 = left as u32 as u64;
        let r: u64 = right as u32 as u64;
        let is_lt: bool = match class {
            RelOp::UnsignedLt => true,
            _ => false,
        };
        let diff: u64 = if value {
            if is_lt {
                if r > l { r - l - 1 } else { 0 }
            } else {
                if r >= l { r - l } else { 0 }
            }
        } else {
            if is_lt {
                if l >= r { l - r } else { 0 }
            } else {
                if l > r { l - r - 1 } else { 0 }
            }
        };
        assert(diff == rel_diff(class, l as int, r as int, value));
        self.vtype.assign(ctx, 1);
        self.lhs.assign(ctx, l);
        self.rhs.assign(ctx, r);
        self.diff.assign(ctx, diff);
        self.res.assign(ctx, value);
        match class {
            RelOp::UnsignedLt => self.is_lt.assign(ctx, true),
            _ => self.is_le.assign(ctx, true),
        }
        let ghost mid = ctx.writes@;
        let mut cells: Vec<MTableLookupCell> = Vec::new();
        cells.push(self.lookup_stack_read_rhs);
        cells.push(self.lookup_stack_read_lhs);
        cells.push(self.lookup_stack_write);
        assert(cells@ =~= self.lookups());
        assign_mtable_lookups(ctx, &cells, enc);
        proof {
            assert(mid =~= start + (common_range_writes(self.vtype, o, 1) + u64_cell_writes(self.lhs, o, l)
                + u64_cell_writes(self.rhs, o, r) + u64_cell_writes(self.diff, o, diff) + bit_writes(self.res, o, value)
                + if class == RelOp::UnsignedLt {
                bit_writes(self.is_lt, o, true)
            } else {
                bit_writes(self.is_le, o, true)
            }));
            assert(ctx.writes@ =~= start + rel_writes(*self, o, class, left, right, value, enc@));
        }
    }
}

} // verus!
