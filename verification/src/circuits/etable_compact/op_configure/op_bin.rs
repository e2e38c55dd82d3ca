//! The gadget of the arithmetic binary operators: addition, subtraction and
//! multiplication with wrap-around, and unsigned and signed division and
//! remainder, on 32-bit and 64-bit values.

use vstd::prelude::*;
use crate::circuits::utils::FieldValue;
use crate::circuits::etable_compact::op_configure::{
    assign_mtable_lookups, mtable_lookup_cell_ok, mtable_lookup_writes,
    bit_cell_at, bit_cell_ok, bit_writes, common_range_cell_at, common_range_cell_ok,
    common_range_writes, lemma_append_assoc, mtable_lookup_cell_at, nibble, u64_cell_at,
    u64_cell_ok, u64_cell_writes, u64_on_u8_cell_at, u64_on_u8_cell_ok, u64_on_u8_cell_writes,
    BitCell, CommonRangeCell, EventTableCellAllocator, MTableLookupCell, U64Cell, U64OnU8Cell,
};
use crate::circuits::etable_compact::{COL_AUX, COL_STATE, ETABLE_STEP_SIZE};
use crate::circuits::step::{
    abs, bits_of, to_signed, to_unsigned, trunc_div, trunc_rem, wasm_bin, wasm_bin_traps, wrap, BinOp,
    StepInfo, VarType,
};
use crate::circuits::utils::{
    b2i, digits, fzero, lemma_digit_index, lemma_fzero_mul, lemma_fzero_mul_bit, lemma_fzero_mul_sel, lemma_fzero_small,
    modulus, small_bound, CellWrite, Context,
};
use vstd::arithmetic::power::pow;

verus! {

/// The cells of the gadget.
#[derive(Clone, Copy, Debug, PartialEq, Eq, Structural)]
pub struct BinConfig {
    pub lhs: U64Cell,
    pub rhs: U64Cell,
    pub d: U64Cell,
    pub res: U64OnU8Cell,
    pub aux1: U64OnU8Cell,
    pub aux2: U64OnU8Cell,
    pub aux3: U64OnU8Cell,
    pub lhs_flag: BitCell,
    pub lhs_flag_helper: CommonRangeCell,
    pub lhs_flag_helper_diff: CommonRangeCell,
    pub rhs_flag: BitCell,
    pub rhs_flag_helper: CommonRangeCell,
    pub rhs_flag_helper_diff: CommonRangeCell,
    pub d_flag_helper_diff: CommonRangeCell,
    pub overflow: BitCell,
    pub is_add: BitCell,
    pub is_sub: BitCell,
    pub is_mul: BitCell,
    pub is_div_u: BitCell,
    pub is_rem_u: BitCell,
    pub is_div_s: BitCell,
    pub is_rem_s: BitCell,
    pub is_64bits: BitCell,
    pub lookup_stack_read_lhs: MTableLookupCell,
    pub lookup_stack_read_rhs: MTableLookupCell,
    pub lookup_stack_write: MTableLookupCell,
}

/// Builds the gadget.
pub struct BinConfigBuilder {}

/// The cells that the gadget takes from an allocator in state `a`.
pub open spec fn bin_layout(a: EventTableCellAllocator) -> BinConfig {
    let u = a.u64_index as int;
    let e = a.u64_on_u8_index as int;
    let b = a.bit_index as int;
    let c = a.common_range_index as int;
    let t = a.mtable_lookup_index as int;
    BinConfig {
        lhs: u64_cell_at(u),
        rhs: u64_cell_at(u + 1),
        d: u64_cell_at(u + 2),
        aux1: u64_on_u8_cell_at(e),
        aux2: u64_on_u8_cell_at(e + 1),
        aux3: u64_on_u8_cell_at(e + 2),
        res: u64_on_u8_cell_at(e + 3),
        overflow: bit_cell_at(b),
        is_add: bit_cell_at(b + 1),
        is_sub: bit_cell_at(b + 2),
        is_mul: bit_cell_at(b + 3),
        is_div_u: bit_cell_at(b + 4),
        is_rem_u: bit_cell_at(b + 5),
        is_div_s: bit_cell_at(b + 6),
        is_rem_s: bit_cell_at(b + 7),
        lhs_flag: bit_cell_at(b + 8),
        rhs_flag: bit_cell_at(b + 9),
        lhs_flag_helper: common_range_cell_at(c),
        lhs_flag_helper_diff: common_range_cell_at(c + 1),
        rhs_flag_helper: common_range_cell_at(c + 2),
        rhs_flag_helper_diff: common_range_cell_at(c + 3),
        d_flag_helper_diff: common_range_cell_at(c + 4),
        is_64bits: bit_cell_at(b + 10),
        lookup_stack_read_lhs: mtable_lookup_cell_at(t),
        lookup_stack_read_rhs: mtable_lookup_cell_at(t + 1),
        lookup_stack_write: mtable_lookup_cell_at(t + 2),
    }
}

impl BinConfig {
    /// Every cell lies within a block.
    pub open spec fn wf(self) -> bool {
        &&& u64_cell_ok(self.lhs)
        &&& u64_cell_ok(self.rhs)
        &&& u64_cell_ok(self.d)
        &&& u64_on_u8_cell_ok(self.res)
        &&& u64_on_u8_cell_ok(self.aux1)
        &&& u64_on_u8_cell_ok(self.aux2)
        &&& u64_on_u8_cell_ok(self.aux3)
        &&& bit_cell_ok(self.lhs_flag)
        &&& common_range_cell_ok(self.lhs_flag_helper)
        &&& common_range_cell_ok(self.lhs_flag_helper_diff)
        &&& bit_cell_ok(self.rhs_flag)
        &&& common_range_cell_ok(self.rhs_flag_helper)
        &&& common_range_cell_ok(self.rhs_flag_helper_diff)
        &&& common_range_cell_ok(self.d_flag_helper_diff)
        &&& bit_cell_ok(self.overflow)
        &&& bit_cell_ok(self.is_add)
        &&& bit_cell_ok(self.is_sub)
        &&& bit_cell_ok(self.is_mul)
        &&& bit_cell_ok(self.is_div_u)
        &&& bit_cell_ok(self.is_rem_u)
        &&& bit_cell_ok(self.is_div_s)
        &&& bit_cell_ok(self.is_rem_s)
        &&& bit_cell_ok(self.is_64bits)
        &&& mtable_lookup_cell_ok(self.lookup_stack_read_lhs)
        &&& mtable_lookup_cell_ok(self.lookup_stack_read_rhs)
        &&& mtable_lookup_cell_ok(self.lookup_stack_write)
    }

    /// The memory table lookup cells of the step, in the order of the
    /// gadget's cells.
    pub open spec fn lookups(self) -> Seq<MTableLookupCell> {
        seq![self.lookup_stack_read_lhs, self.lookup_stack_read_rhs, self.lookup_stack_write]
    }
}

impl BinConfigBuilder {
    /// Takes the gadget's cells from the allocator of its block.
    pub fn configure(common: &mut EventTableCellAllocator) -> (r: BinConfig)
        requires
            old(common).wf(),
            old(common).u64_index + 3 <= 3,
            old(common).u64_on_u8_index + 4 <= 4,
            old(common).bit_index + 11 <= 40,
            old(common).common_range_index + 5 <= 20,
            old(common).mtable_lookup_index + 3 <= 11,
        ensures
            r == bin_layout(*old(common)),
            r.wf(),
            final(common).wf(),
            *final(common) == (EventTableCellAllocator {
                u64_index: (old(common).u64_index + 3) as i32,
                u64_on_u8_index: (old(common).u64_on_u8_index + 4) as i32,
                bit_index: (old(common).bit_index + 11) as i32,
                common_range_index: (old(common).common_range_index + 5) as i32,
                mtable_lookup_index: (old(common).mtable_lookup_index + 3) as i32,
                ..*old(common)
            }),
    {
        let lhs = common.alloc_u64();
        let rhs = common.alloc_u64();
        let d = common.alloc_u64();
        let aux1 = common.alloc_u64_on_u8();
        let aux2 = common.alloc_u64_on_u8();
        let aux3 = common.alloc_u64_on_u8();
        let res = common.alloc_u64_on_u8();
        let overflow = common.alloc_bit_value();
        let is_add = common.alloc_bit_value();
        let is_sub = common.alloc_bit_value();
        let is_mul = common.alloc_bit_value();
        let is_div_u = common.alloc_bit_value();
        let is_rem_u = common.alloc_bit_value();
        let is_div_s = common.alloc_bit_value();
        let is_rem_s = common.alloc_bit_value();
        let lhs_flag = common.alloc_bit_value();
        let rhs_flag = common.alloc_bit_value();
        let lhs_flag_helper = common.alloc_common_range_value();
        let lhs_flag_helper_diff = common.alloc_common_range_value();
        let rhs_flag_helper = common.alloc_common_range_value();
        let rhs_flag_helper_diff = common.alloc_common_range_value();
        let d_flag_helper_diff = common.alloc_common_range_value();
        let is_64bits = common.alloc_bit_value();
        let lookup_stack_read_lhs = common.alloc_mtable_lookup();
        let lookup_stack_read_rhs = common.alloc_mtable_lookup();
        let lookup_stack_write = common.alloc_mtable_lookup();
        BinConfig {
            lhs,
            rhs,
            d,
            res,
            aux1,
            aux2,
            aux3,
            lhs_flag,
            lhs_flag_helper,
            lhs_flag_helper_diff,
            rhs_flag,
            rhs_flag_helper,
            rhs_flag_helper_diff,
            d_flag_helper_diff,
            overflow,
            is_add,
            is_sub,
            is_mul,
            is_div_u,
            is_rem_u,
            is_div_s,
            is_rem_s,
            is_64bits,
            lookup_stack_read_lhs,
            lookup_stack_read_rhs,
            lookup_stack_write,
        }
    }
}

/// The values that the gadget's cells hold for one step. The nibbles of the
/// 64-bit cells are those of their values.
#[derive(Clone, Copy, Debug, PartialEq, Eq, Structural)]
pub struct BinWitness {
    pub lhs: u64,
    pub rhs: u64,
    pub d: u64,
    pub res: u64,
    pub aux1: u64,
    pub aux2: u64,
    pub aux3: u64,
    pub lhs_flag: bool,
    pub lhs_flag_helper: u16,
    pub lhs_flag_helper_diff: u16,
    pub rhs_flag: bool,
    pub rhs_flag_helper: u16,
    pub rhs_flag_helper_diff: u16,
    pub d_flag_helper_diff: u16,
    pub overflow: bool,
    pub is_add: bool,
    pub is_sub: bool,
    pub is_mul: bool,
    pub is_div_u: bool,
    pub is_rem_u: bool,
    pub is_div_s: bool,
    pub is_rem_s: bool,
    pub is_64bits: bool,
}

/// The operator is a signed division or remainder.
pub open spec fn is_signed_div_rem(class: BinOp) -> bool {
    class == BinOp::SignedDiv || class == BinOp::SignedRem
}

/// The operator is an unsigned division or remainder.
pub open spec fn is_unsigned_div_rem(class: BinOp) -> bool {
    class == BinOp::UnsignedDiv || class == BinOp::UnsignedRem
}

/// The magnitude of the `n`-bit pattern `x` read as a signed value.
pub open spec fn magnitude(x: int, n: nat) -> int {
    if x >= wrap(n) / 2 {
        wrap(n) - x
    } else {
        x
    }
}

/// The values that the gadget assigns for operator `class` on the operands
/// `l` and `r` with result `v`, all of type `vtype`; cells that the step
/// leaves unassigned hold zero.
pub open spec fn spec_bin_witness(class: BinOp, vtype: VarType, l: u64, r: u64, v: u64) -> BinWitness {
    let li = l as int;
    let ri = r as int;
    let vi = v as int;
    let n = bits_of(vtype);
    let m = wrap(n);
    let lead = m / 16;
    let signed = is_signed_div_rem(class);
    let unsigned = is_unsigned_div_rem(class);
    let nl = magnitude(li, n);
    let nr = magnitude(ri, n);
    let d = nl / nr;
    let rem = nl % nr;
    let dlead = d / lead;
    BinWitness {
        lhs: l,
        rhs: r,
        d: if signed { d as u64 } else { 0 },
        res: v,
        aux1: if class == BinOp::Mul {
            ((li * ri) / m) as u64
        } else if unsigned {
            (li / ri) as u64
        } else if signed {
            rem as u64
        } else {
            0
        },
        aux2: if unsigned {
            (li % ri) as u64
        } else if signed {
            (nr - rem - 1) as u64
        } else {
            0
        },
        aux3: if unsigned { (ri - li % ri - 1) as u64 } else { 0 },
        lhs_flag: signed && li >= m / 2,
        lhs_flag_helper: if signed { ((li / lead) % 8) as u16 } else { 0 },
        lhs_flag_helper_diff: if signed { (7 - (li / lead) % 8) as u16 } else { 0 },
        rhs_flag: signed && ri >= m / 2,
        rhs_flag_helper: if signed { ((ri / lead) % 8) as u16 } else { 0 },
        rhs_flag_helper_diff: if signed { (7 - (ri / lead) % 8) as u16 } else { 0 },
        d_flag_helper_diff: if signed && dlead <= 7 { (7 - dlead) as u16 } else { 0 },
        overflow: if class == BinOp::Add {
            (li + ri) / m == 1
        } else if class == BinOp::Sub {
            (ri + vi) / m == 1
        } else {
            false
        },
        is_add: class == BinOp::Add,
        is_sub: class == BinOp::Sub,
        is_mul: class == BinOp::Mul,
        is_div_u: class == BinOp::UnsignedDiv,
        is_rem_u: class == BinOp::UnsignedRem,
        is_div_s: class == BinOp::SignedDiv,
        is_rem_s: class == BinOp::SignedRem,
        is_64bits: vtype == VarType::I64,
    }
}

/// The values computed for a step.
pub fn bin_witness(class: BinOp, vtype: VarType, left: u64, right: u64, value: u64) -> (w: BinWitness)
    requires
        left < wrap(bits_of(vtype)),
        right < wrap(bits_of(vtype)),
        value < wrap(bits_of(vtype)),
        is_unsigned_div_rem(class) || is_signed_div_rem(class) ==> right != 0,
    ensures
        w == spec_bin_witness(class, vtype, left, right, value),
{
    let is64: bool = match vtype {
        VarType::I64 => true,
        VarType::I32 => false,
    };
    let mask: u64 = if is64 { 0xffff_ffff_ffff_ffff } else { 0xffff_ffff };
    let half: u64 = if is64 { 0x8000_0000_0000_0000 } else { 0x8000_0000 };
    let lead: u64 = if is64 { 0x1000_0000_0000_0000 } else { 0x1000_0000 };
    let signed: bool = match class {
        BinOp::SignedDiv | BinOp::SignedRem => true,
        _ => false,
    };
    let unsigned: bool = match class {
        BinOp::UnsignedDiv | BinOp::UnsignedRem => true,
        _ => false,
    };
    let mut w = BinWitness {
        lhs: left,
        rhs: right,
        d: 0,
        res: value,
        aux1: 0,
        aux2: 0,
        aux3: 0,
        lhs_flag: false,
        lhs_flag_helper: 0,
        lhs_flag_helper_diff: 0,
        rhs_flag: false,
        rhs_flag_helper: 0,
        rhs_flag_helper_diff: 0,
        d_flag_helper_diff: 0,
        overflow: false,
        is_add: false,
        is_sub: false,
        is_mul: false,
        is_div_u: false,
        is_rem_u: false,
        is_div_s: false,
        is_rem_s: false,
        is_64bits: is64,
    };
    match class {
        BinOp::Add => {
            w.is_add = true;
            w.overflow = (left as u128 + right as u128) > mask as u128;
        },
        BinOp::Sub => {
            w.is_sub = true;
            w.overflow = (right as u128 + value as u128) > mask as u128;
        },
        BinOp::Mul => {
            w.is_mul = true;
            proof {
                assert(left * right <= mask * mask) by (nonlinear_arith)
                    requires left <= mask, right <= mask;
                assert(mask * mask < 0x1_0000_0000_0000_0000_0000_0000_0000_0000) by (nonlinear_arith)
                    requires mask <= 0xffff_ffff_ffff_ffff;
            }
            let prod: u128 = left as u128 * right as u128;
            proof {
                assert(prod as int / (mask as int + 1) <= mask) by (nonlinear_arith)
                    requires prod <= mask * mask, mask > 0;
            }
            w.aux1 = (prod / (mask as u128 + 1)) as u64;
        },
        BinOp::UnsignedDiv => {
            w.is_div_u = true;
        },
        BinOp::UnsignedRem => {
            w.is_rem_u = true;
        },
        BinOp::SignedDiv => {
            w.is_div_s = true;
        },
        BinOp::SignedRem => {
            w.is_rem_s = true;
        },
    }
    if unsigned {
        w.aux1 = left / right;
        w.aux2 = left % right;
        w.aux3 = right - left % right - 1;
    }
    if signed {
        let left_flag: bool = left >= half;
        let right_flag: bool = right >= half;
        w.lhs_flag = left_flag;
        w.lhs_flag_helper = ((left / lead) % 8) as u16;
        w.lhs_flag_helper_diff = (7 - (left / lead) % 8) as u16;
        w.rhs_flag = right_flag;
        w.rhs_flag_helper = ((right / lead) % 8) as u16;
        w.rhs_flag_helper_diff = (7 - (right / lead) % 8) as u16;
        let normalized_lhs: u64 = if left_flag { mask - left + 1 } else { left };
        let normalized_rhs: u64 = if right_flag { mask - right + 1 } else { right };
        let d: u64 = normalized_lhs / normalized_rhs;
        let rem: u64 = normalized_lhs % normalized_rhs;
        let d_leading_u4: u64 = d / lead;
        w.d_flag_helper_diff = if d_leading_u4 > 7 { 0 } else { (7 - d_leading_u4) as u16 };
        w.d = d;
        w.aux1 = rem;
        w.aux2 = normalized_rhs - rem - 1;
    }
    w
}

/// The operator, type and operands of a step, as 64-bit patterns.
pub open spec fn bin_operands(step: StepInfo) -> (BinOp, VarType, u64, u64, u64) {
    match step {
        StepInfo::I32BinOp { class, left, right, value } => (
            class,
            VarType::I32,
            left as u32 as u64,
            right as u32 as u64,
            value as u32 as u64,
        ),
        StepInfo::I64BinOp { class, left, right, value } => (
            class,
            VarType::I64,
            left as u64,
            right as u64,
            value as u64,
        ),
        _ => (BinOp::Add, VarType::I32, 0, 0, 0),
    }
}

/// The step is one of an arithmetic binary operator.
pub open spec fn is_bin_step(step: StepInfo) -> bool {
    step is I32BinOp || step is I64BinOp
}

/// The values computed for a recorded step.
pub fn bin_step_witness(step: &StepInfo) -> (w: BinWitness)
    requires
        is_bin_step(*step),
        !bin_step_divides_by_zero(*step),
    ensures
        ({
            let (class, vtype, l, r, v) = bin_operands(*step);
            w == spec_bin_witness(class, vtype, l, r, v)
        }),
{
    match step {
        StepInfo::I32BinOp { class, left, right, value } => bin_witness(
            *class,
            VarType::I32,
            *left as u32 as u64,
            *right as u32 as u64,
            *value as u32 as u64,
        ),
        StepInfo::I64BinOp { class, left, right, value } => bin_witness(
            *class,
            VarType::I64,
            *left as u64,
            *right as u64,
            *value as u64,
        ),
        _ => bin_witness(BinOp::Add, VarType::I32, 0, 0, 0),
    }
}

/// The assignments that depend on the operator.
pub open spec fn bin_class_writes(c: BinConfig, off: int, class: BinOp, w: BinWitness) -> Seq<CellWrite> {
    match class {
        BinOp::Add => bit_writes(c.is_add, off, true) + bit_writes(c.overflow, off, w.overflow),
        BinOp::Sub => bit_writes(c.is_sub, off, true) + bit_writes(c.overflow, off, w.overflow),
        BinOp::Mul => bit_writes(c.is_mul, off, true) + u64_on_u8_cell_writes(c.aux1, off, w.aux1),
        BinOp::UnsignedDiv => bit_writes(c.is_div_u, off, true),
        BinOp::UnsignedRem => bit_writes(c.is_rem_u, off, true),
        BinOp::SignedDiv => bit_writes(c.is_div_s, off, true),
        BinOp::SignedRem => bit_writes(c.is_rem_s, off, true),
    }
}

/// The assignments of the division helpers.
pub open spec fn bin_div_writes(c: BinConfig, off: int, class: BinOp, w: BinWitness) -> Seq<CellWrite> {
    if is_unsigned_div_rem(class) {
        u64_on_u8_cell_writes(c.aux1, off, w.aux1) + u64_on_u8_cell_writes(c.aux2, off, w.aux2)
            + u64_on_u8_cell_writes(c.aux3, off, w.aux3)
    } else if is_signed_div_rem(class) {
        bit_writes(c.lhs_flag, off, w.lhs_flag) + common_range_writes(c.lhs_flag_helper, off, w.lhs_flag_helper)
            + common_range_writes(c.lhs_flag_helper_diff, off, w.lhs_flag_helper_diff)
            + bit_writes(c.rhs_flag, off, w.rhs_flag)
            + common_range_writes(c.rhs_flag_helper, off, w.rhs_flag_helper)
            + common_range_writes(c.rhs_flag_helper_diff, off, w.rhs_flag_helper_diff)
            + common_range_writes(c.d_flag_helper_diff, off, w.d_flag_helper_diff)
            + u64_cell_writes(c.d, off, w.d) + u64_on_u8_cell_writes(c.aux1, off, w.aux1)
            + u64_on_u8_cell_writes(c.aux2, off, w.aux2)
    } else {
        Seq::empty()
    }
}

/// The assignments that the gadget makes for a step, in order.
pub open spec fn bin_writes(c: BinConfig, off: int, step: StepInfo) -> Seq<CellWrite> {
    let (class, vtype, l, r, v) = bin_operands(step);
    let w = spec_bin_witness(class, vtype, l, r, v);
    u64_cell_writes(c.lhs, off, l) + u64_cell_writes(c.rhs, off, r) + u64_on_u8_cell_writes(c.res, off, v)
        + bin_class_writes(c, off, class, w) + bin_div_writes(c, off, class, w) + (if vtype == VarType::I64 {
        bit_writes(c.is_64bits, off, true)
    } else {
        Seq::empty()
    })
}

/// The step divides by zero.
pub open spec fn bin_step_divides_by_zero(step: StepInfo) -> bool {
    let (class, vtype, l, r, v) = bin_operands(step);
    (is_unsigned_div_rem(class) || is_signed_div_rem(class)) && r == 0
}

/// What an arithmetic step writes to its operand and result cells: the
/// left operand, as a 64-bit pattern of its width, to the left cell, the
/// right operand to the right cell and the result to the result cell.
pub proof fn lemma_bin_writes_cells(c: BinConfig, off: int, step: StepInfo)
    ensures
        crate::circuits::etable_compact::op_configure::has_write(bin_writes(c, off, step), c.lhs.value_col, off + c.lhs.value_rot, crate::circuits::utils::fv_u64(bin_operands(step).2)),
        crate::circuits::etable_compact::op_configure::has_write(bin_writes(c, off, step), c.rhs.value_col, off + c.rhs.value_rot, crate::circuits::utils::fv_u64(bin_operands(step).3)),
        crate::circuits::etable_compact::op_configure::has_write(bin_writes(c, off, step), c.res.value_col, off + c.res.value_rot, crate::circuits::utils::fv_u64(bin_operands(step).4)),
{
    let p0 = u64_cell_writes(c.lhs, off, bin_operands(step).2);
    let p1 = u64_cell_writes(c.rhs, off, bin_operands(step).3);
    let p2 = u64_on_u8_cell_writes(c.res, off, bin_operands(step).4);
    let p3 = bin_class_writes(c, off, bin_operands(step).0, spec_bin_witness(bin_operands(step).0, bin_operands(step).1, bin_operands(step).2, bin_operands(step).3, bin_operands(step).4)) + bin_div_writes(c, off, bin_operands(step).0, spec_bin_witness(bin_operands(step).0, bin_operands(step).1, bin_operands(step).2, bin_operands(step).3, bin_operands(step).4)) + (if bin_operands(step).1 == VarType::I64 { bit_writes(c.is_64bits, off, true) } else { Seq::empty() });
    assert(bin_writes(c, off, step) =~= p0 + p1 + p2 + p3);
    {
        crate::circuits::etable_compact::op_configure::lemma_u64_cell_writes_value(c.lhs, off, bin_operands(step).2);
        crate::circuits::etable_compact::op_configure::lemma_has_write_append(p0, p1, c.lhs.value_col, off + c.lhs.value_rot, crate::circuits::utils::fv_u64(bin_operands(step).2));
        crate::circuits::etable_compact::op_configure::lemma_has_write_append(p0 + p1, p2, c.lhs.value_col, off + c.lhs.value_rot, crate::circuits::utils::fv_u64(bin_operands(step).2));
        crate::circuits::etable_compact::op_configure::lemma_has_write_append(p0 + p1 + p2, p3, c.lhs.value_col, off + c.lhs.value_rot, crate::circuits::utils::fv_u64(bin_operands(step).2));
    }
    {
        crate::circuits::etable_compact::op_configure::lemma_u64_cell_writes_value(c.rhs, off, bin_operands(step).3);
        crate::circuits::etable_compact::op_configure::lemma_has_write_append(p0, p1, c.rhs.value_col, off + c.rhs.value_rot, crate::circuits::utils::fv_u64(bin_operands(step).3));
        crate::circuits::etable_compact::op_configure::lemma_has_write_append(p0 + p1, p2, c.rhs.value_col, off + c.rhs.value_rot, crate::circuits::utils::fv_u64(bin_operands(step).3));
        crate::circuits::etable_compact::op_configure::lemma_has_write_append(p0 + p1 + p2, p3, c.rhs.value_col, off + c.rhs.value_rot, crate::circuits::utils::fv_u64(bin_operands(step).3));
    }
    {
        crate::circuits::etable_compact::op_configure::lemma_u64_on_u8_cell_writes_value(c.res, off, bin_operands(step).4);
        crate::circuits::etable_compact::op_configure::lemma_has_write_append(p0, p1, c.res.value_col, off + c.res.value_rot, crate::circuits::utils::fv_u64(bin_operands(step).4));
        crate::circuits::etable_compact::op_configure::lemma_has_write_append(p0 + p1, p2, c.res.value_col, off + c.res.value_rot, crate::circuits::utils::fv_u64(bin_operands(step).4));
        crate::circuits::etable_compact::op_configure::lemma_has_write_append(p0 + p1 + p2, p3, c.res.value_col, off + c.res.value_rot, crate::circuits::utils::fv_u64(bin_operands(step).4));
    }
}

impl BinConfig {
    /// Assigns the cells that depend on the operator.
    fn assign_class(&self, ctx: &mut Context, class: BinOp, w: &BinWitness)
        requires
            self.wf(),
            old(ctx).offset + 40 <= i32::MAX,
        ensures
            final(ctx).offset == old(ctx).offset,
            final(ctx).writes@ == old(ctx).writes@ + bin_class_writes(*self, old(ctx).offset as int, class, *w),
    {
        let ghost o = old(ctx).offset as int;
        match class {
            BinOp::Add => {
                self.is_add.assign(ctx, true);
                self.overflow.assign(ctx, w.overflow);
                proof { lemma_append_assoc(old(ctx).writes@, bit_writes(self.is_add, o, true), bit_writes(self.overflow, o, w.overflow)); }
            },
            BinOp::Sub => {
                self.is_sub.assign(ctx, true);
                self.overflow.assign(ctx, w.overflow);
                proof { lemma_append_assoc(old(ctx).writes@, bit_writes(self.is_sub, o, true), bit_writes(self.overflow, o, w.overflow)); }
            },
            BinOp::Mul => {
                self.is_mul.assign(ctx, true);
                self.aux1.assign(ctx, w.aux1);
                proof { lemma_append_assoc(old(ctx).writes@, bit_writes(self.is_mul, o, true), u64_on_u8_cell_writes(self.aux1, o, w.aux1)); }
            },
            BinOp::UnsignedDiv => {
                self.is_div_u.assign(ctx, true);
            },
            BinOp::UnsignedRem => {
                self.is_rem_u.assign(ctx, true);
            },
            BinOp::SignedDiv => {
                self.is_div_s.assign(ctx, true);
            },
            BinOp::SignedRem => {
                self.is_rem_s.assign(ctx, true);
            },
        }
    }

    /// Assigns the division helpers.
    fn assign_div(&self, ctx: &mut Context, class: BinOp, w: &BinWitness)
        requires
            self.wf(),
            old(ctx).offset + 40 <= i32::MAX,
        ensures
            final(ctx).offset == old(ctx).offset,
            final(ctx).writes@ == old(ctx).writes@ + bin_div_writes(*self, old(ctx).offset as int, class, *w),
    {
        let ghost o = old(ctx).offset as int;
        let ghost start = old(ctx).writes@;
        match class {
            BinOp::UnsignedDiv | BinOp::UnsignedRem => {
                self.aux1.assign(ctx, w.aux1);
                self.aux2.assign(ctx, w.aux2);
                self.aux3.assign(ctx, w.aux3);
                proof {
                    assert(ctx.writes@ =~= start + bin_div_writes(*self, o, class, *w));
                }
            },
            BinOp::SignedDiv | BinOp::SignedRem => {
                self.lhs_flag.assign(ctx, w.lhs_flag);
                self.lhs_flag_helper.assign(ctx, w.lhs_flag_helper);
                self.lhs_flag_helper_diff.assign(ctx, w.lhs_flag_helper_diff);
                self.rhs_flag.assign(ctx, w.rhs_flag);
                self.rhs_flag_helper.assign(ctx, w.rhs_flag_helper);
                self.rhs_flag_helper_diff.assign(ctx, w.rhs_flag_helper_diff);
                self.d_flag_helper_diff.assign(ctx, w.d_flag_helper_diff);
                self.d.assign(ctx, w.d);
                self.aux1.assign(ctx, w.aux1);
                self.aux2.assign(ctx, w.aux2);
                proof {
                    assert(ctx.writes@ =~= start + bin_div_writes(*self, o, class, *w));
                }
            },
            _ => {
                proof {
                    assert(ctx.writes@ =~= start + bin_div_writes(*self, o, class, *w));
                }
            },
        }
    }

    /// Assigns the gadget's cells for a step of an arithmetic binary
    /// operator.
    fn assign_cells(&self, ctx: &mut Context, step: &StepInfo)
        requires
            self.wf(),
            old(ctx).offset + 40 <= i32::MAX,
            is_bin_step(*step),
            !bin_step_divides_by_zero(*step),
        ensures
            final(ctx).offset == old(ctx).offset,
            final(ctx).writes@ == old(ctx).writes@ + bin_writes(*self, old(ctx).offset as int, *step),
    {
        let (class, vtype, left, right, value) = match step {
            StepInfo::I32BinOp { class, left, right, value } => (
                *class,
                VarType::I32,
                *left as u32 as u64,
                *right as u32 as u64,
                *value as u32 as u64,
            ),
            StepInfo::I64BinOp { class, left, right, value } => (
                *class,
                VarType::I64,
                *left as u64,
                *right as u64,
                *value as u64,
            ),
            _ => (BinOp::Add, VarType::I32, 0, 0, 0),
        };
        let w = bin_witness(class, vtype, left, right, value);
        let ghost o = old(ctx).offset as int;
        let ghost start = old(ctx).writes@;
        self.lhs.assign(ctx, left);
        self.rhs.assign(ctx, right);
        self.res.assign(ctx, value);
        let ghost s1 = u64_cell_writes(self.lhs, o, left) + u64_cell_writes(self.rhs, o, right) + u64_on_u8_cell_writes(self.res, o, value);
        proof {
            assert(ctx.writes@ =~= start + s1);
        }
        self.assign_class(ctx, class, &w);
        proof {
            lemma_append_assoc(start, s1, bin_class_writes(*self, o, class, w));
        }
        self.assign_div(ctx, class, &w);
        let ghost s2 = s1 + bin_class_writes(*self, o, class, w);
        proof {
            lemma_append_assoc(start, s2, bin_div_writes(*self, o, class, w));
        }
        let ghost s3 = s2 + bin_div_writes(*self, o, class, w);
        match vtype {
            VarType::I64 => {
                self.is_64bits.assign(ctx, true);
                proof {
                    lemma_append_assoc(start, s3, bit_writes(self.is_64bits, o, true));
                }
            },
            VarType::I32 => {
                proof {
                    assert(s3 + Seq::<CellWrite>::empty() =~= s3);
                }
            },
        }
    }

    /// Assigns the step's cells, as `assign_cells` does, and the
    /// encodings `enc` of the step's stack and memory accesses to its
    /// memory table lookup cells, in order.
    pub fn assign(&self, ctx: &mut Context, step: &StepInfo, enc: &Vec<FieldValue>)
        requires
            enc.len() == 3,
            self.wf(),
            old(ctx).offset + 40 <= i32::MAX,
            is_bin_step(*step),
            !bin_step_divides_by_zero(*step),
        ensures
            final(ctx).offset == old(ctx).offset,
            final(ctx).writes@ == old(ctx).writes@ + bin_writes(*self, old(ctx).offset as int, *step) + mtable_lookup_writes(
                self.lookups(),
                old(ctx).offset as int,
                enc@,
            ),
    {
        self.assign_cells(ctx, step);
        let mut cells: Vec<MTableLookupCell> = Vec::new();
        cells.push(self.lookup_stack_read_lhs);
        cells.push(self.lookup_stack_read_rhs);
        cells.push(self.lookup_stack_write);
        proof {
            assert(cells@ =~= self.lookups());
        }
        assign_mtable_lookups(ctx, &cells, enc);
    }
}

/// The modulus of the operation's wrap-around, as the gates write it.
pub open spec fn bin_modulus(w: BinWitness) -> int {
    0x1_0000_0000int + 0xffff_ffff_0000_0000int * b2i(w.is_64bits)
}

/// The leading nibble of a 64-bit cell, for the operation's width.
pub open spec fn leading_u4(v: u64, w: BinWitness) -> int {
    nibble(v, 7) + (nibble(v, 15) - nibble(v, 7)) * b2i(w.is_64bits)
}

/// The sign of the result of a signed division: the signs differ.
pub open spec fn res_flag(w: BinWitness) -> int {
    b2i(w.lhs_flag) + b2i(w.rhs_flag) - 2 * b2i(w.lhs_flag) * b2i(w.rhs_flag)
}

/// The magnitude of the left operand, as the gates write it.
pub open spec fn normalized_lhs(w: BinWitness) -> int {
    w.lhs as int * (1 - b2i(w.lhs_flag)) + (bin_modulus(w) - w.lhs) * b2i(w.lhs_flag)
}

/// The magnitude of the right operand, as the gates write it.
pub open spec fn normalized_rhs(w: BinWitness) -> int {
    w.rhs as int * (1 - b2i(w.rhs_flag)) + (bin_modulus(w) - w.rhs) * b2i(w.rhs_flag)
}

/// Whether a signed division or remainder is selected.
pub open spec fn signed_enable(w: BinWitness) -> int {
    b2i(w.is_div_s) + b2i(w.is_rem_s)
}

/// The selector constraint: exactly one operator is chosen.
pub open spec fn bin_gate_selector(w: BinWitness) -> bool {
    fzero(
        b2i(w.is_add) + b2i(w.is_sub) + b2i(w.is_mul) + b2i(w.is_div_u) + b2i(w.is_rem_u)
            + b2i(w.is_div_s) + b2i(w.is_rem_s) - 1,
    )
}

/// The gates of addition and subtraction.
pub open spec fn bin_gates_add_sub(w: BinWitness) -> bool {
    let m = bin_modulus(w);
    &&& fzero((w.lhs + w.rhs - w.res - b2i(w.overflow) * m) * b2i(w.is_add))
    &&& fzero((w.rhs + w.res - w.lhs - b2i(w.overflow) * m) * b2i(w.is_sub))
}

/// The multiplication constraint.
pub open spec fn bin_gate_mul(w: BinWitness) -> bool {
    fzero((w.lhs * w.rhs - w.aux1 * bin_modulus(w) - w.res) * b2i(w.is_mul))
}

/// The gates of unsigned division and remainder.
pub open spec fn bin_gates_unsigned(w: BinWitness) -> bool {
    let en = b2i(w.is_rem_u) + b2i(w.is_div_u);
    &&& fzero((w.lhs - w.rhs * w.aux1 - w.aux2) * en)
    &&& fzero((w.aux2 + w.aux3 + 1 - w.rhs) * en)
    &&& fzero((w.res - w.aux1) * b2i(w.is_div_u))
    &&& fzero((w.res - w.aux2) * b2i(w.is_rem_u))
}

/// The gates shared by signed division and remainder.
pub open spec fn bin_gates_signed(w: BinWitness) -> bool {
    let en = signed_enable(w);
    &&& fzero((leading_u4(w.lhs, w) - b2i(w.lhs_flag) * 8 - w.lhs_flag_helper) * en)
    &&& fzero((w.lhs_flag_helper + w.lhs_flag_helper_diff - 7) * en)
    &&& fzero((leading_u4(w.rhs, w) - b2i(w.rhs_flag) * 8 - w.rhs_flag_helper) * en)
    &&& fzero((w.rhs_flag_helper + w.rhs_flag_helper_diff - 7) * en)
    &&& fzero((leading_u4(w.d, w) + w.d_flag_helper_diff - 7) * ((1 - res_flag(w)) * en))
    &&& fzero((normalized_lhs(w) - normalized_rhs(w) * w.d - w.aux1) * en)
    &&& fzero((w.aux1 + w.aux2 + 1 - normalized_rhs(w)) * en)
}

/// The gates of the result of signed division.
pub open spec fn bin_gates_div_s(w: BinWitness) -> bool {
    let m = bin_modulus(w);
    &&& fzero((w.res - w.d) * ((1 - res_flag(w)) * b2i(w.is_div_s)))
    &&& fzero((w.res + w.d - m) * ((w.d + w.res) * res_flag(w) * b2i(w.is_div_s)))
}

/// The gates of the result of signed remainder.
pub open spec fn bin_gates_rem_s(w: BinWitness) -> bool {
    let m = bin_modulus(w);
    &&& fzero((w.res - w.aux1) * ((1 - b2i(w.lhs_flag)) * b2i(w.is_rem_s)))
    &&& fzero((w.res + w.aux1 - m) * ((w.aux1 + w.res) * b2i(w.lhs_flag) * b2i(w.is_rem_s)))
}

/// The gates of the gadget, each a polynomial in the cells that must vanish
/// in the field on the gadget's steps.
pub open spec fn bin_gates(w: BinWitness) -> bool {
    &&& bin_gate_selector(w)
    &&& bin_gates_add_sub(w)
    &&& bin_gate_mul(w)
    &&& bin_gates_unsigned(w)
    &&& bin_gates_signed(w)
    &&& bin_gates_div_s(w)
    &&& bin_gates_rem_s(w)
}

/// A gate whose selector is zero vanishes.
proof fn lemma_gate_off(p: int, s: int)
    requires
        s == 0,
    ensures
        fzero(p * s),
{
    vstd::arithmetic::mul::lemma_mul_basics(p);
}

/// The gates of the operators that are not selected vanish.
proof fn lemma_bin_gates_off(w: BinWitness)
    ensures
        !w.is_add && !w.is_sub ==> bin_gates_add_sub(w),
        !w.is_mul ==> bin_gate_mul(w),
        !w.is_div_u && !w.is_rem_u ==> bin_gates_unsigned(w),
        !w.is_div_s && !w.is_rem_s ==> bin_gates_signed(w),
        !w.is_div_s ==> bin_gates_div_s(w),
        !w.is_rem_s ==> bin_gates_rem_s(w),
{
    let m = bin_modulus(w);
    if !w.is_add && !w.is_sub {
        lemma_gate_off(w.lhs + w.rhs - w.res - b2i(w.overflow) * m, b2i(w.is_add));
        lemma_gate_off(w.rhs + w.res - w.lhs - b2i(w.overflow) * m, b2i(w.is_sub));
    }
    if !w.is_mul {
        lemma_gate_off(w.lhs * w.rhs - w.aux1 * m - w.res, b2i(w.is_mul));
    }
    if !w.is_div_u && !w.is_rem_u {
        let en = b2i(w.is_rem_u) + b2i(w.is_div_u);
        lemma_gate_off(w.lhs - w.rhs * w.aux1 - w.aux2, en);
        lemma_gate_off(w.aux2 + w.aux3 + 1 - w.rhs, en);
        lemma_gate_off(w.res - w.aux1, b2i(w.is_div_u));
        lemma_gate_off(w.res - w.aux2, b2i(w.is_rem_u));
    }
    if !w.is_div_s && !w.is_rem_s {
        let en = signed_enable(w);
        lemma_gate_off(leading_u4(w.lhs, w) - b2i(w.lhs_flag) * 8 - w.lhs_flag_helper, en);
        lemma_gate_off(w.lhs_flag_helper + w.lhs_flag_helper_diff - 7, en);
        lemma_gate_off(leading_u4(w.rhs, w) - b2i(w.rhs_flag) * 8 - w.rhs_flag_helper, en);
        lemma_gate_off(w.rhs_flag_helper + w.rhs_flag_helper_diff - 7, en);
        vstd::arithmetic::mul::lemma_mul_basics(1 - res_flag(w));
        lemma_gate_off(leading_u4(w.d, w) + w.d_flag_helper_diff - 7, (1 - res_flag(w)) * en);
        lemma_gate_off(normalized_lhs(w) - normalized_rhs(w) * w.d - w.aux1, en);
        lemma_gate_off(w.aux1 + w.aux2 + 1 - normalized_rhs(w), en);
    }
    if !w.is_div_s {
        vstd::arithmetic::mul::lemma_mul_basics(1 - res_flag(w));
        vstd::arithmetic::mul::lemma_mul_basics((w.d + w.res) * res_flag(w));
        lemma_gate_off(w.res - w.d, (1 - res_flag(w)) * b2i(w.is_div_s));
        lemma_gate_off(w.res + w.d - m, (w.d + w.res) * res_flag(w) * b2i(w.is_div_s));
    }
    if !w.is_rem_s {
        vstd::arithmetic::mul::lemma_mul_basics(1 - b2i(w.lhs_flag));
        vstd::arithmetic::mul::lemma_mul_basics((w.aux1 + w.res) * b2i(w.lhs_flag));
        lemma_gate_off(w.res - w.aux1, (1 - b2i(w.lhs_flag)) * b2i(w.is_rem_s));
        lemma_gate_off(w.res + w.aux1 - m, (w.aux1 + w.res) * b2i(w.lhs_flag) * b2i(w.is_rem_s));
    }
}

/// A gate whose polynomial is zero vanishes, whatever its selector.
proof fn lemma_gate_on(p: int, s: int)
    requires
        p == 0,
    ensures
        fzero(p * s),
{
    vstd::arithmetic::mul::lemma_mul_basics(s);
}

/// The gates hold on the values assigned for an addition, subtraction or
/// multiplication whose recorded result is the wrapped one.
proof fn lemma_bin_complete_ring(class: BinOp, vtype: VarType, l: u64, r: u64, v: u64)
    requires
        class == BinOp::Add || class == BinOp::Sub || class == BinOp::Mul,
        l < wrap(bits_of(vtype)),
        r < wrap(bits_of(vtype)),
        v == wasm_bin(class, l as int, r as int, bits_of(vtype)),
    ensures
        bin_gates(spec_bin_witness(class, vtype, l, r, v)),
{
    let w = spec_bin_witness(class, vtype, l, r, v);
    let m = wrap(bits_of(vtype));
    assert(bin_modulus(w) == m);
    lemma_bin_gates_off(w);
    if class == BinOp::Add {
        vstd::arithmetic::div_mod::lemma_fundamental_div_mod(l + r, m);
        assert(l + r - v - b2i(w.overflow) * m == 0);
        lemma_gate_on(l + r - v - b2i(w.overflow) * m, 1);
        lemma_gate_off(r + v - l - b2i(w.overflow) * m, 0);
    } else if class == BinOp::Sub {
        vstd::arithmetic::div_mod::lemma_fundamental_div_mod(l - r, m);
        assert(r + v - l - b2i(w.overflow) * m == 0);
        lemma_gate_off(l + r - v - b2i(w.overflow) * m, 0);
        lemma_gate_on(r + v - l - b2i(w.overflow) * m, 1);
    } else {
        let p = l * r;
        assert(0 <= p < m * m) by (nonlinear_arith)
            requires
                p == l * r,
                0 <= l < m,
                0 <= r < m,
        ;
        vstd::arithmetic::div_mod::lemma_fundamental_div_mod(p, m);
        vstd::arithmetic::div_mod::lemma_div_pos_is_pos(p, m);
        assert(p / m < m) by (nonlinear_arith)
            requires
                0 <= p < m * m,
                m > 0,
        ;
        assert(w.aux1 == p / m);
        lemma_gate_on(l * r - w.aux1 * m - v, 1);
    }
}

/// The gates hold on the values assigned for an unsigned division or
/// remainder by a nonzero divisor whose recorded result is the right one.
proof fn lemma_bin_complete_unsigned(class: BinOp, vtype: VarType, l: u64, r: u64, v: u64)
    requires
        is_unsigned_div_rem(class),
        l < wrap(bits_of(vtype)),
        r < wrap(bits_of(vtype)),
        r != 0,
        v == wasm_bin(class, l as int, r as int, bits_of(vtype)),
    ensures
        bin_gates(spec_bin_witness(class, vtype, l, r, v)),
{
    let w = spec_bin_witness(class, vtype, l, r, v);
    let m = wrap(bits_of(vtype));
    assert(bin_modulus(w) == m);
    lemma_bin_gates_off(w);
    vstd::arithmetic::div_mod::lemma_fundamental_div_mod(l as int, r as int);
    vstd::arithmetic::div_mod::lemma_mod_bound(l as int, r as int);
    vstd::arithmetic::div_mod::lemma_div_is_ordered_by_denominator(l as int, 1, r as int);
    assert(l as int / r as int <= l);
    assert(w.aux1 == l as int / r as int);
    let en = b2i(w.is_rem_u) + b2i(w.is_div_u);
    lemma_gate_on(l - r * w.aux1 - w.aux2, en);
    lemma_gate_on(w.aux2 + w.aux3 + 1 - r, en);
    if class == BinOp::UnsignedDiv {
        lemma_gate_on(w.res - w.aux1, 1);
        lemma_gate_off(w.res - w.aux2, 0);
    } else {
        lemma_gate_off(w.res - w.aux1, 0);
        lemma_gate_on(w.res - w.aux2, 1);
    }
}

/// The leading nibble of a value of the operation's width is the value
/// divided by the width's sixteenth.
pub proof fn lemma_leading_u4(v: u64, w: BinWitness, vtype: VarType)
    requires
        w.is_64bits == (vtype == VarType::I64),
        v < wrap(bits_of(vtype)),
    ensures
        leading_u4(v, w) == v as int / (wrap(bits_of(vtype)) / 16),
        0 <= leading_u4(v, w) < 16,
{
    reveal_with_fuel(pow, 16);
    assert(pow(16, 7) == 0x1000_0000);
    assert(pow(16, 15) == 0x1000_0000_0000_0000);
    lemma_digit_index(v as int, 16, 16, 7);
    lemma_digit_index(v as int, 16, 16, 15);
    if vtype == VarType::I64 {
        assert(nibble(v, 15) == (v as int / 0x1000_0000_0000_0000) % 16);
        assert(v as int / 0x1000_0000_0000_0000 < 16);
    } else {
        assert(nibble(v, 7) == (v as int / 0x1000_0000) % 16);
        assert(v as int / 0x1000_0000 < 16);
    }
}

/// A nonnegative value reaches `t` times `k` exactly when its quotient by
/// `k` reaches `t`.
pub proof fn lemma_div_ge(x: int, k: int, t: int)
    requires
        k > 0,
        x >= 0,
    ensures
        (x >= t * k) == (x / k >= t),
{
    vstd::arithmetic::div_mod::lemma_fundamental_div_mod(x, k);
    let q = x / k;
    let r = x % k;
    vstd::arithmetic::div_mod::lemma_mod_bound(x, k);
    assert((x >= t * k) == (q >= t)) by (nonlinear_arith)
        requires
            x == k * q + r,
            0 <= r < k,
            k > 0,
    ;
}

/// The requirements of the completeness of signed division and remainder.
pub open spec fn signed_step_ok(class: BinOp, vtype: VarType, l: u64, r: u64, v: u64) -> bool {
    &&& is_signed_div_rem(class)
    &&& l < wrap(bits_of(vtype))
    &&& r < wrap(bits_of(vtype))
    &&& !wasm_bin_traps(class, l as int, r as int, bits_of(vtype))
    &&& !(l == wrap(bits_of(vtype)) / 2 && r == wrap(bits_of(vtype)) - 1)
    &&& v == wasm_bin(class, l as int, r as int, bits_of(vtype))
}

/// The quotient and remainder of the magnitudes, as assigned.
proof fn lemma_signed_quotient(class: BinOp, vtype: VarType, l: u64, r: u64, v: u64)
    requires
        signed_step_ok(class, vtype, l, r, v),
    ensures
        ({
            let n = bits_of(vtype);
            let w = spec_bin_witness(class, vtype, l, r, v);
            let nl = magnitude(l as int, n);
            let nr = magnitude(r as int, n);
            &&& bin_modulus(w) == wrap(n)
            &&& nr > 0
            &&& 0 <= nl <= wrap(n) / 2
            &&& w.d == nl / nr
            &&& w.aux1 == nl % nr
            &&& w.aux2 == nr - nl % nr - 1
            &&& nl == nr * (nl / nr) + nl % nr
            &&& 0 <= nl % nr < nr
            &&& 0 <= nl / nr <= nl
            &&& normalized_lhs(w) == nl
            &&& normalized_rhs(w) == nr
        }),
{
    let n = bits_of(vtype);
    let nl = magnitude(l as int, n);
    let nr = magnitude(r as int, n);
    let w = spec_bin_witness(class, vtype, l, r, v);
    vstd::arithmetic::div_mod::lemma_fundamental_div_mod(nl, nr);
    vstd::arithmetic::div_mod::lemma_mod_bound(nl, nr);
    vstd::arithmetic::div_mod::lemma_div_is_ordered_by_denominator(nl, 1, nr);
    vstd::arithmetic::div_mod::lemma_div_pos_is_pos(nl, nr);
    lemma_normalized(w);
}

/// The normalized operands are the operands or their negations, as the
/// sign flags say.
proof fn lemma_normalized(w: BinWitness)
    ensures
        normalized_lhs(w) == if w.lhs_flag { bin_modulus(w) - w.lhs } else { w.lhs as int },
        normalized_rhs(w) == if w.rhs_flag { bin_modulus(w) - w.rhs } else { w.rhs as int },
        res_flag(w) == if w.lhs_flag == w.rhs_flag { 0int } else { 1int },
{
    let m = bin_modulus(w);
    vstd::arithmetic::mul::lemma_mul_basics(w.lhs as int);
    vstd::arithmetic::mul::lemma_mul_basics(m - w.lhs);
    vstd::arithmetic::mul::lemma_mul_basics(w.rhs as int);
    vstd::arithmetic::mul::lemma_mul_basics(m - w.rhs);
    vstd::arithmetic::mul::lemma_mul_basics(2);
    vstd::arithmetic::mul::lemma_mul_basics(0);
}

/// The shared gates of signed division and remainder hold.
proof fn lemma_bin_complete_signed_common(class: BinOp, vtype: VarType, l: u64, r: u64, v: u64)
    requires
        signed_step_ok(class, vtype, l, r, v),
    ensures
        bin_gates_signed(spec_bin_witness(class, vtype, l, r, v)),
{
    let n = bits_of(vtype);
    let w = spec_bin_witness(class, vtype, l, r, v);
    let m = wrap(n);
    let half = m / 2;
    let lead = m / 16;
    lemma_signed_quotient(class, vtype, l, r, v);
    let nl = magnitude(l as int, n);
    let nr = magnitude(r as int, n);
    let d = nl / nr;
    lemma_leading_u4(l, w, vtype);
    lemma_leading_u4(r, w, vtype);
    let en = signed_enable(w);
    assert(en == 1);
    let ll = l as int / lead;
    let rl = r as int / lead;
    assert(half == 8 * lead);
    lemma_div_ge(l as int, lead, 8);
    lemma_div_ge(r as int, lead, 8);
    assert(ll % 8 == if ll >= 8 { ll - 8 } else { ll });
    assert(rl % 8 == if rl >= 8 { rl - 8 } else { rl });
    lemma_gate_on(leading_u4(l, w) - b2i(w.lhs_flag) * 8 - w.lhs_flag_helper, en);
    lemma_gate_on(w.lhs_flag_helper + w.lhs_flag_helper_diff - 7, en);
    lemma_gate_on(leading_u4(r, w) - b2i(w.rhs_flag) * 8 - w.rhs_flag_helper, en);
    lemma_gate_on(w.rhs_flag_helper + w.rhs_flag_helper_diff - 7, en);
    if w.lhs_flag == w.rhs_flag {
        if nr >= 2 {
            vstd::arithmetic::div_mod::lemma_div_is_ordered_by_denominator(nl, 2, nr);
        }
        assert(d < half);
        lemma_leading_u4(w.d, w, vtype);
        lemma_div_ge(d, lead, 8);
        assert(leading_u4(w.d, w) + w.d_flag_helper_diff - 7 == 0);
        lemma_gate_on(leading_u4(w.d, w) + w.d_flag_helper_diff - 7, (1 - res_flag(w)) * en);
    } else {
        assert(res_flag(w) == 1);
        vstd::arithmetic::mul::lemma_mul_basics(en);
        lemma_gate_off(leading_u4(w.d, w) + w.d_flag_helper_diff - 7, (1 - res_flag(w)) * en);
    }
    lemma_gate_on(normalized_lhs(w) - normalized_rhs(w) * w.d - w.aux1, en);
    lemma_gate_on(w.aux1 + w.aux2 + 1 - normalized_rhs(w), en);
}

/// The result gates of signed division hold.
proof fn lemma_bin_complete_div_s(vtype: VarType, l: u64, r: u64, v: u64)
    requires
        signed_step_ok(BinOp::SignedDiv, vtype, l, r, v),
    ensures
        bin_gates_div_s(spec_bin_witness(BinOp::SignedDiv, vtype, l, r, v)),
{
    let class = BinOp::SignedDiv;
    let n = bits_of(vtype);
    let w = spec_bin_witness(class, vtype, l, r, v);
    let m = wrap(n);
    lemma_signed_quotient(class, vtype, l, r, v);
    let nl = magnitude(l as int, n);
    let nr = magnitude(r as int, n);
    let d = nl / nr;
    let sl = to_signed(l as int, n);
    let sr = to_signed(r as int, n);
    assert(abs(sl) == nl);
    assert(abs(sr) == nr);
    lemma_normalized(w);
    if w.lhs_flag == w.rhs_flag {
        assert(trunc_div(sl, sr) == d);
        vstd::arithmetic::div_mod::lemma_small_mod(d as nat, m as nat);
        assert(v == d);
        lemma_gate_on(w.res - w.d, (1 - res_flag(w)) * b2i(w.is_div_s));
        vstd::arithmetic::mul::lemma_mul_basics(w.d + w.res);
        assert((w.d + w.res) * res_flag(w) * b2i(w.is_div_s) == 0);
        lemma_gate_off(w.res + w.d - m, (w.d + w.res) * res_flag(w) * b2i(w.is_div_s));
    } else {
        assert(trunc_div(sl, sr) == -d);
        assert(res_flag(w) == 1);
        lemma_gate_off(w.res - w.d, (1 - res_flag(w)) * b2i(w.is_div_s));
        if d == 0 {
            assert(v == 0);
            vstd::arithmetic::mul::lemma_mul_basics(w.res + w.d - m);
            assert((w.res + w.d - m) * ((w.d + w.res) * res_flag(w) * b2i(w.is_div_s)) == 0);
        } else {
            vstd::arithmetic::div_mod::lemma_fundamental_div_mod_converse(-d, m, -1, m - d);
            assert(v == m - d);
            lemma_gate_on(w.res + w.d - m, (w.d + w.res) * res_flag(w) * b2i(w.is_div_s));
        }
    }
}

/// The result gates of signed remainder hold.
proof fn lemma_bin_complete_rem_s(vtype: VarType, l: u64, r: u64, v: u64)
    requires
        signed_step_ok(BinOp::SignedRem, vtype, l, r, v),
    ensures
        bin_gates_rem_s(spec_bin_witness(BinOp::SignedRem, vtype, l, r, v)),
{
    let class = BinOp::SignedRem;
    let n = bits_of(vtype);
    let w = spec_bin_witness(class, vtype, l, r, v);
    let m = wrap(n);
    lemma_signed_quotient(class, vtype, l, r, v);
    let nl = magnitude(l as int, n);
    let nr = magnitude(r as int, n);
    let rem = nl % nr;
    let sl = to_signed(l as int, n);
    let sr = to_signed(r as int, n);
    assert(abs(sl) == nl);
    assert(abs(sr) == nr);
    if !w.lhs_flag {
        assert(trunc_rem(sl, sr) == rem);
        vstd::arithmetic::div_mod::lemma_small_mod(rem as nat, m as nat);
        assert(v == rem);
        lemma_gate_on(w.res - w.aux1, (1 - b2i(w.lhs_flag)) * b2i(w.is_rem_s));
        assert(b2i(w.lhs_flag) == 0);
        vstd::arithmetic::mul::lemma_mul_basics(w.aux1 + w.res);
        vstd::arithmetic::mul::lemma_mul_basics(b2i(w.is_rem_s));
        assert((w.aux1 + w.res) * b2i(w.lhs_flag) * b2i(w.is_rem_s) == 0);
        lemma_gate_off(w.res + w.aux1 - m, (w.aux1 + w.res) * b2i(w.lhs_flag) * b2i(w.is_rem_s));
    } else {
        assert(trunc_rem(sl, sr) == -rem);
        lemma_gate_off(w.res - w.aux1, (1 - b2i(w.lhs_flag)) * b2i(w.is_rem_s));
        if rem == 0 {
            assert(v == 0);
            vstd::arithmetic::mul::lemma_mul_basics(w.res + w.aux1 - m);
            assert((w.res + w.aux1 - m) * ((w.aux1 + w.res) * b2i(w.lhs_flag) * b2i(w.is_rem_s)) == 0);
        } else {
            vstd::arithmetic::div_mod::lemma_fundamental_div_mod_converse(-rem, m, -1, m - rem);
            assert(v == m - rem);
            lemma_gate_on(w.res + w.aux1 - m, (w.aux1 + w.res) * b2i(w.lhs_flag) * b2i(w.is_rem_s));
        }
    }
}

/// Completeness: on every step that does not trap and whose recorded result
/// is the WebAssembly result, the assigned values satisfy every gate, with
/// one exception: the signed remainder of the most negative value by minus
/// one, whose quotient does not fit below half the range.
pub proof fn lemma_bin_complete(class: BinOp, vtype: VarType, l: u64, r: u64, v: u64)
    requires
        l < wrap(bits_of(vtype)),
        r < wrap(bits_of(vtype)),
        !wasm_bin_traps(class, l as int, r as int, bits_of(vtype)),
        !(class == BinOp::SignedRem && l == wrap(bits_of(vtype)) / 2 && r == wrap(bits_of(vtype)) - 1),
        v == wasm_bin(class, l as int, r as int, bits_of(vtype)),
    ensures
        bin_gates(spec_bin_witness(class, vtype, l, r, v)),
{
    let w = spec_bin_witness(class, vtype, l, r, v);
    lemma_bin_gates_off(w);
    if class == BinOp::Add || class == BinOp::Sub || class == BinOp::Mul {
        lemma_bin_complete_ring(class, vtype, l, r, v);
    } else if is_unsigned_div_rem(class) {
        lemma_bin_complete_unsigned(class, vtype, l, r, v);
    } else {
        lemma_bin_complete_signed_common(class, vtype, l, r, v);
        if class == BinOp::SignedDiv {
            lemma_bin_complete_div_s(vtype, l, r, v);
        } else {
            lemma_bin_complete_rem_s(vtype, l, r, v);
        }
    }
}

/// The operator that the selector bits choose.
pub open spec fn bin_selected(w: BinWitness) -> BinOp {
    if w.is_add {
        BinOp::Add
    } else if w.is_sub {
        BinOp::Sub
    } else if w.is_mul {
        BinOp::Mul
    } else if w.is_div_u {
        BinOp::UnsignedDiv
    } else if w.is_rem_u {
        BinOp::UnsignedRem
    } else if w.is_div_s {
        BinOp::SignedDiv
    } else {
        BinOp::SignedRem
    }
}

/// The width that the width bit chooses.
pub open spec fn bin_bits(w: BinWitness) -> nat {
    if w.is_64bits {
        64
    } else {
        32
    }
}

/// The selector gate leaves exactly one operator bit set.
proof fn lemma_bin_sound_selector(w: BinWitness)
    requires
        bin_gate_selector(w),
    ensures
        b2i(w.is_add) + b2i(w.is_sub) + b2i(w.is_mul) + b2i(w.is_div_u) + b2i(w.is_rem_u)
            + b2i(w.is_div_s) + b2i(w.is_rem_s) == 1,
{
    let e = b2i(w.is_add) + b2i(w.is_sub) + b2i(w.is_mul) + b2i(w.is_div_u) + b2i(w.is_rem_u)
        + b2i(w.is_div_s) + b2i(w.is_rem_s) - 1;
    lemma_fzero_small(e);
}

/// Soundness of addition, subtraction and multiplication.
proof fn lemma_bin_sound_ring(w: BinWitness)
    requires
        bin_gates(w),
        w.is_add || w.is_sub || w.is_mul,
        w.lhs < wrap(bin_bits(w)),
        w.rhs < wrap(bin_bits(w)),
        w.res < wrap(bin_bits(w)),
    ensures
        w.res == wasm_bin(bin_selected(w), w.lhs as int, w.rhs as int, bin_bits(w)),
{
    lemma_bin_sound_selector(w);
    let m = bin_modulus(w);
    assert(m == wrap(bin_bits(w)));
    let l = w.lhs as int;
    let r = w.rhs as int;
    let res = w.res as int;
    let o = b2i(w.overflow);
    vstd::arithmetic::mul::lemma_mul_basics(m);
    assert(0 <= o * m <= m);
    if w.is_add {
        lemma_fzero_mul_bit(l + r - res - o * m, 1);
        vstd::arithmetic::div_mod::lemma_fundamental_div_mod_converse(l + r, m, o, res);
    } else if w.is_sub {
        lemma_fzero_mul_bit(r + res - l - o * m, 1);
        vstd::arithmetic::div_mod::lemma_fundamental_div_mod_converse(l - r, m, -o, res);
    } else {
        let a = w.aux1 as int;
        assert(0 <= l * r < 0x1_0000_0000_0000_0000_0000_0000_0000_0000) by (nonlinear_arith)
            requires
                0 <= l < 0x1_0000_0000_0000_0000,
                0 <= r < 0x1_0000_0000_0000_0000,
        ;
        assert(0 <= a * m <= 0x1_0000_0000_0000_0000_0000_0000_0000_0000) by (nonlinear_arith)
            requires
                0 <= a < 0x1_0000_0000_0000_0000,
                0 < m <= 0x1_0000_0000_0000_0000,
        ;
        lemma_fzero_mul_bit(l * r - a * m - res, 1);
        vstd::arithmetic::div_mod::lemma_fundamental_div_mod_converse(l * r, m, a, res);
    }
}

/// Soundness of unsigned division and remainder: the divisor is nonzero.
proof fn lemma_bin_sound_unsigned(w: BinWitness)
    requires
        bin_gates(w),
        w.is_div_u || w.is_rem_u,
    ensures
        w.rhs != 0,
        w.res == wasm_bin(bin_selected(w), w.lhs as int, w.rhs as int, bin_bits(w)),
{
    lemma_bin_sound_selector(w);
    let l = w.lhs as int;
    let r = w.rhs as int;
    let a1 = w.aux1 as int;
    let a2 = w.aux2 as int;
    let a3 = w.aux3 as int;
    let en = b2i(w.is_rem_u) + b2i(w.is_div_u);
    assert(en == 1);
    assert(0 <= r * a1 < 0x1_0000_0000_0000_0000_0000_0000_0000_0000) by (nonlinear_arith)
        requires
            0 <= r < 0x1_0000_0000_0000_0000,
            0 <= a1 < 0x1_0000_0000_0000_0000,
    ;
    lemma_fzero_mul_bit(l - r * a1 - a2, en);
    lemma_fzero_mul_bit(a2 + a3 + 1 - r, en);
    vstd::arithmetic::mul::lemma_mul_is_commutative(r, a1);
    vstd::arithmetic::div_mod::lemma_fundamental_div_mod_converse(l, r, a1, a2);
    if w.is_div_u {
        lemma_fzero_mul_bit(w.res - a1, 1);
    } else {
        lemma_fzero_mul_bit(w.res - a2, 1);
    }
}

/// The value type of the width bit.
pub open spec fn bin_vtype(w: BinWitness) -> VarType {
    if w.is_64bits {
        VarType::I64
    } else {
        VarType::I32
    }
}

/// Soundness of the sign flags: a flag, with its helpers in range, is the
/// sign bit of its operand.
proof fn lemma_bin_sound_flag(w: BinWitness, v: u64, flag: bool, helper: u16, diff: u16)
    requires
        v < wrap(bin_bits(w)),
        fzero((leading_u4(v, w) - b2i(flag) * 8 - helper) * 1),
        fzero((helper + diff - 7) * 1),
    ensures
        flag == (v >= wrap(bin_bits(w)) / 2),
{
    let m = wrap(bin_bits(w));
    let lead = m / 16;
    lemma_leading_u4(v, w, bin_vtype(w));
    lemma_fzero_mul_bit(leading_u4(v, w) - b2i(flag) * 8 - helper, 1);
    lemma_fzero_mul_bit(helper + diff - 7, 1);
    assert(m / 2 == 8 * lead);
    lemma_div_ge(v as int, lead, 8);
}

/// Soundness of the quotient and remainder of the magnitudes.
proof fn lemma_bin_sound_quotient(w: BinWitness)
    requires
        bin_gates(w),
        w.is_div_s || w.is_rem_s,
        w.lhs < wrap(bin_bits(w)),
        w.rhs < wrap(bin_bits(w)),
    ensures
        w.lhs_flag == (w.lhs >= wrap(bin_bits(w)) / 2),
        w.rhs_flag == (w.rhs >= wrap(bin_bits(w)) / 2),
        magnitude(w.rhs as int, bin_bits(w)) > 0,
        w.d == magnitude(w.lhs as int, bin_bits(w)) / magnitude(w.rhs as int, bin_bits(w)),
        w.aux1 == magnitude(w.lhs as int, bin_bits(w)) % magnitude(w.rhs as int, bin_bits(w)),
        w.lhs_flag == w.rhs_flag ==> w.d < wrap(bin_bits(w)) / 2,
{
    lemma_bin_sound_selector(w);
    let n = bin_bits(w);
    let m = wrap(n);
    assert(bin_modulus(w) == m);
    let en = signed_enable(w);
    assert(en == 1);
    lemma_bin_sound_flag(w, w.lhs, w.lhs_flag, w.lhs_flag_helper, w.lhs_flag_helper_diff);
    lemma_bin_sound_flag(w, w.rhs, w.rhs_flag, w.rhs_flag_helper, w.rhs_flag_helper_diff);
    lemma_normalized(w);
    let nl = magnitude(w.lhs as int, n);
    let nr = magnitude(w.rhs as int, n);
    assert(normalized_lhs(w) == nl);
    assert(normalized_rhs(w) == nr);
    let d = w.d as int;
    let a1 = w.aux1 as int;
    let a2 = w.aux2 as int;
    assert(0 <= nr * d <= 0x1_0000_0000_0000_0000_0000_0000_0000_0000) by (nonlinear_arith)
        requires
            0 <= nr <= 0x1_0000_0000_0000_0000,
            0 <= d < 0x1_0000_0000_0000_0000,
    ;
    lemma_fzero_mul_bit(nl - nr * d - a1, en);
    lemma_fzero_mul_bit(a1 + a2 + 1 - nr, en);
    vstd::arithmetic::mul::lemma_mul_is_commutative(nr, d);
    vstd::arithmetic::div_mod::lemma_fundamental_div_mod_converse(nl, nr, d, a1);
    if w.lhs_flag == w.rhs_flag {
        assert(res_flag(w) == 0);
        vstd::arithmetic::mul::lemma_mul_basics(en);
        assert((1 - res_flag(w)) * en == 1);
        vstd::arithmetic::div_mod::lemma_div_is_ordered_by_denominator(nl, 1, nr);
        assert(d <= nl);
        let lead = m / 16;
        lemma_leading_u4(w.d, w, bin_vtype(w));
        lemma_fzero_mul_bit(leading_u4(w.d, w) + w.d_flag_helper_diff - 7, 1);
        assert(m / 2 == 8 * lead);
        lemma_div_ge(d, lead, 8);
    }
}

/// Soundness of signed division and remainder: the operation does not trap
/// and the result is the WebAssembly one.
proof fn lemma_bin_sound_signed(w: BinWitness)
    requires
        bin_gates(w),
        w.is_div_s || w.is_rem_s,
        w.lhs < wrap(bin_bits(w)),
        w.rhs < wrap(bin_bits(w)),
        w.res < wrap(bin_bits(w)),
    ensures
        !wasm_bin_traps(bin_selected(w), w.lhs as int, w.rhs as int, bin_bits(w)),
        w.res == wasm_bin(bin_selected(w), w.lhs as int, w.rhs as int, bin_bits(w)),
{
    lemma_bin_sound_selector(w);
    lemma_bin_sound_quotient(w);
    lemma_normalized(w);
    let n = bin_bits(w);
    let m = wrap(n);
    assert(bin_modulus(w) == m);
    let nl = magnitude(w.lhs as int, n);
    let nr = magnitude(w.rhs as int, n);
    let d = w.d as int;
    let a1 = w.aux1 as int;
    let res = w.res as int;
    let sl = to_signed(w.lhs as int, n);
    let sr = to_signed(w.rhs as int, n);
    assert(abs(sl) == nl);
    assert(abs(sr) == nr);
    vstd::arithmetic::div_mod::lemma_div_is_ordered_by_denominator(nl, 1, nr);
    vstd::arithmetic::div_mod::lemma_mod_bound(nl, nr);
    assert(d <= nl <= m / 2);
    if w.is_div_s {
        if w.lhs_flag == w.rhs_flag {
            vstd::arithmetic::mul::lemma_mul_basics(1 - res_flag(w));
            lemma_fzero_mul_bit(res - d, 1);
            assert(trunc_div(sl, sr) == d);
            vstd::arithmetic::div_mod::lemma_small_mod(d as nat, m as nat);
        } else {
            assert(res_flag(w) == 1);
            vstd::arithmetic::mul::lemma_mul_basics(d + res);
            assert((d + res) * res_flag(w) * b2i(w.is_div_s) == d + res);
            lemma_fzero_mul(res + d - m, d + res);
            assert(trunc_div(sl, sr) == -d);
            if d == 0 {
                assert(res == 0);
            } else {
                vstd::arithmetic::div_mod::lemma_fundamental_div_mod_converse(-d, m, -1, m - d);
            }
        }
    } else {
        if !w.lhs_flag {
            vstd::arithmetic::mul::lemma_mul_basics(1 - b2i(w.lhs_flag));
            lemma_fzero_mul_bit(res - a1, 1);
            assert(trunc_rem(sl, sr) == a1);
            vstd::arithmetic::div_mod::lemma_small_mod(a1 as nat, m as nat);
        } else {
            vstd::arithmetic::mul::lemma_mul_basics(a1 + res);
            assert((a1 + res) * b2i(w.lhs_flag) * b2i(w.is_rem_s) == a1 + res);
            lemma_fzero_mul(res + a1 - m, a1 + res);
            assert(trunc_rem(sl, sr) == -a1);
            if a1 == 0 {
                assert(res == 0);
            } else {
                vstd::arithmetic::div_mod::lemma_fundamental_div_mod_converse(-a1, m, -1, m - a1);
            }
        }
    }
}

/// Soundness: wherever the gates hold and the stack values are of the
/// width the step declares, exactly one operator is selected, it does not
/// trap on the operands, and the result cell holds its WebAssembly result.
pub proof fn lemma_bin_sound(w: BinWitness)
    requires
        bin_gates(w),
        w.lhs < wrap(bin_bits(w)),
        w.rhs < wrap(bin_bits(w)),
        w.res < wrap(bin_bits(w)),
    ensures
        b2i(w.is_add) + b2i(w.is_sub) + b2i(w.is_mul) + b2i(w.is_div_u) + b2i(w.is_rem_u)
            + b2i(w.is_div_s) + b2i(w.is_rem_s) == 1,
        !wasm_bin_traps(bin_selected(w), w.lhs as int, w.rhs as int, bin_bits(w)),
        w.res == wasm_bin(bin_selected(w), w.lhs as int, w.rhs as int, bin_bits(w)),
{
    lemma_bin_sound_selector(w);
    if w.is_add || w.is_sub || w.is_mul {
        lemma_bin_sound_ring(w);
    } else if w.is_div_u || w.is_rem_u {
        lemma_bin_sound_unsigned(w);
    } else {
        lemma_bin_sound_signed(w);
    }
}

/// The `i`-th nibble of `v`, for `i` seven or fifteen.
pub fn nibble_at(v: u64, i: u64) -> (r: u64)
    requires
        i == 1 || i == 3 || i == 7 || i == 15,
    ensures
        r == nibble(v, i as int),
        r < 16,
{
    reveal_with_fuel(pow, 16);
    proof {
        assert(pow(16, 1) == 0x10);
        assert(pow(16, 3) == 0x1000);
        assert(pow(16, 7) == 0x1000_0000);
        assert(pow(16, 15) == 0x1000_0000_0000_0000);
        lemma_digit_index(v as int, 16, 16, i as nat);
    }
    if i == 1 {
        (v / 0x10) % 16
    } else if i == 3 {
        (v / 0x1000) % 16
    } else if i == 7 {
        (v / 0x1000_0000) % 16
    } else {
        (v / 0x1000_0000_0000_0000) % 16
    }
}

/// The leading nibble of `v` for the width that `w` selects.
fn leading_u4_of(v: u64, w: &BinWitness) -> (r: u64)
    ensures
        r == leading_u4(v, *w),
{
    let n7 = nibble_at(v, 7);
    let n15 = nibble_at(v, 15);
    proof {
        vstd::arithmetic::mul::lemma_mul_basics(n15 - n7);
    }
    if w.is_64bits {
        n15
    } else {
        n7
    }
}

/// Whether the selector gate holds.
fn check_selector(w: &BinWitness) -> (b: bool)
    ensures
        b == bin_gate_selector(*w),
{
    let sum: u64 = (w.is_add as u64) + (w.is_sub as u64) + (w.is_mul as u64) + (w.is_div_u as u64)
        + (w.is_rem_u as u64) + (w.is_div_s as u64) + (w.is_rem_s as u64);
    proof {
        let e = b2i(w.is_add) + b2i(w.is_sub) + b2i(w.is_mul) + b2i(w.is_div_u) + b2i(w.is_rem_u)
            + b2i(w.is_div_s) + b2i(w.is_rem_s) - 1;
        lemma_fzero_small(e);
    }
    sum == 1
}

/// Whether the gates of addition, subtraction and multiplication hold.
fn check_ring(w: &BinWitness) -> (b: bool)
    ensures
        b == (bin_gates_add_sub(*w) && bin_gate_mul(*w)),
{
    let m: u128 = if w.is_64bits { 0x1_0000_0000_0000_0000 } else { 0x1_0000_0000 };
    let o: u128 = if w.overflow { m } else { 0 };
    let l = w.lhs as u128;
    let r = w.rhs as u128;
    let res = w.res as u128;
    let a1 = w.aux1 as u128;
    proof {
        let mm = bin_modulus(*w);
        assert(mm == m);
        vstd::arithmetic::mul::lemma_mul_basics(mm);
        assert(b2i(w.overflow) * mm == o);
        assert(0 <= l * r < 0x1_0000_0000_0000_0000_0000_0000_0000_0000) by (nonlinear_arith)
            requires
                0 <= l < 0x1_0000_0000_0000_0000,
                0 <= r < 0x1_0000_0000_0000_0000,
        ;
        assert(0 <= a1 * m <= 0xffff_ffff_ffff_ffff_0000_0000_0000_0000) by (nonlinear_arith)
            requires
                0 <= a1 < 0x1_0000_0000_0000_0000,
                0 < m <= 0x1_0000_0000_0000_0000,
        ;
        lemma_fzero_mul_bit(l + r - res - b2i(w.overflow) * mm, b2i(w.is_add));
        lemma_fzero_mul_bit(r + res - l - b2i(w.overflow) * mm, b2i(w.is_sub));
        lemma_fzero_mul_bit(l * r - a1 * mm - res, b2i(w.is_mul));
    }
    let add_ok = !w.is_add || l + r == res + o;
    let sub_ok = !w.is_sub || r + res == l + o;
    let mul_ok = !w.is_mul || l * r == a1 * m + res;
    add_ok && sub_ok && mul_ok
}

/// Whether the gates of unsigned division and remainder hold.
fn check_unsigned(w: &BinWitness) -> (b: bool)
    ensures
        b == bin_gates_unsigned(*w),
{
    let l = w.lhs as u128;
    let r = w.rhs as u128;
    let res = w.res as u128;
    let a1 = w.aux1 as u128;
    let a2 = w.aux2 as u128;
    let a3 = w.aux3 as u128;
    let en: bool = w.is_div_u || w.is_rem_u;
    proof {
        assert(0 <= r * a1 <= 0xffff_ffff_ffff_fffe_0000_0000_0000_0001) by (nonlinear_arith)
            requires
                0 <= r < 0x1_0000_0000_0000_0000,
                0 <= a1 < 0x1_0000_0000_0000_0000,
        ;
        let e = b2i(w.is_rem_u) + b2i(w.is_div_u);
        if w.is_div_u && w.is_rem_u {
            vstd::arithmetic::mul::lemma_mul_basics(l - r * a1 - a2);
            vstd::arithmetic::mul::lemma_mul_basics(a2 + a3 + 1 - r);
            vstd::arithmetic::mul::lemma_mul_is_distributive_add(l - r * a1 - a2, 1, 1);
            vstd::arithmetic::mul::lemma_mul_is_distributive_add(a2 + a3 + 1 - r, 1, 1);
            assert((l - r * a1 - a2) * e == 2 * (l - r * a1 - a2));
            assert((a2 + a3 + 1 - r) * e == 2 * (a2 + a3 + 1 - r));
            lemma_fzero_small(2 * (l - r * a1 - a2));
            lemma_fzero_small(2 * (a2 + a3 + 1 - r));
        } else {
            lemma_fzero_mul_bit(l - r * a1 - a2, e);
            lemma_fzero_mul_bit(a2 + a3 + 1 - r, e);
        }
        lemma_fzero_mul_bit(res - a1, b2i(w.is_div_u));
        lemma_fzero_mul_bit(res - a2, b2i(w.is_rem_u));
    }
    let div_ok = !en || l == r * a1 + a2;
    let bound_ok = !en || a2 + a3 + 1 == r;
    let res_div_ok = !w.is_div_u || res == a1;
    let res_rem_ok = !w.is_rem_u || res == a2;
    div_ok && bound_ok && res_div_ok && res_rem_ok
}

/// Whether the shared gates of signed division and remainder hold, for
/// operands of the selected width.
fn check_signed(w: &BinWitness) -> (b: bool)
    requires
        w.lhs < bin_modulus(*w),
        w.rhs < bin_modulus(*w),
    ensures
        b == bin_gates_signed(*w),
{
    let m: u128 = if w.is_64bits { 0x1_0000_0000_0000_0000 } else { 0x1_0000_0000 };
    let lead_l = leading_u4_of(w.lhs, w) as i128;
    let lead_r = leading_u4_of(w.rhs, w) as i128;
    let lead_d = leading_u4_of(w.d, w) as i128;
    let lf = w.lhs_flag as i128;
    let rf = w.rhs_flag as i128;
    let nl: u128 = if w.lhs_flag { m - w.lhs as u128 } else { w.lhs as u128 };
    let nr: u128 = if w.rhs_flag { m - w.rhs as u128 } else { w.rhs as u128 };
    let d = w.d as u128;
    let a1 = w.aux1 as u128;
    let a2 = w.aux2 as u128;
    let en: bool = w.is_div_s || w.is_rem_s;
    let same_sign: bool = w.lhs_flag == w.rhs_flag;
    proof {
        let e = signed_enable(*w);
        lemma_normalized(*w);
        assert(bin_modulus(*w) == m);
        assert(normalized_lhs(*w) == nl);
        assert(normalized_rhs(*w) == nr);
        assert(0 <= nr * d <= 0xffff_ffff_ffff_ffff_0000_0000_0000_0000) by (nonlinear_arith)
            requires
                0 <= nr <= 0x1_0000_0000_0000_0000,
                0 <= d < 0x1_0000_0000_0000_0000,
        ;
        assert(modulus() / 2 > 0x1_0000_0000_0000_0000_0000_0000_0000_0000);
        lemma_fzero_mul_sel(leading_u4(w.lhs, *w) - b2i(w.lhs_flag) * 8 - w.lhs_flag_helper, e);
        lemma_fzero_mul_sel(w.lhs_flag_helper + w.lhs_flag_helper_diff - 7, e);
        lemma_fzero_mul_sel(leading_u4(w.rhs, *w) - b2i(w.rhs_flag) * 8 - w.rhs_flag_helper, e);
        lemma_fzero_mul_sel(w.rhs_flag_helper + w.rhs_flag_helper_diff - 7, e);
        vstd::arithmetic::mul::lemma_mul_basics(e);
        assert((1 - res_flag(*w)) * e == if same_sign { e } else { 0 });
        lemma_fzero_mul_sel(leading_u4(w.d, *w) + w.d_flag_helper_diff - 7, (1 - res_flag(*w)) * e);
        lemma_fzero_mul_sel(normalized_lhs(*w) - normalized_rhs(*w) * w.d - w.aux1, e);
        lemma_fzero_mul_sel(w.aux1 + w.aux2 + 1 - normalized_rhs(*w), e);
    }
    let g1 = !en || lead_l - lf * 8 - w.lhs_flag_helper as i128 == 0;
    let g2 = !en || w.lhs_flag_helper as i128 + w.lhs_flag_helper_diff as i128 == 7;
    let g3 = !en || lead_r - rf * 8 - w.rhs_flag_helper as i128 == 0;
    let g4 = !en || w.rhs_flag_helper as i128 + w.rhs_flag_helper_diff as i128 == 7;
    let g5 = !en || !same_sign || lead_d + w.d_flag_helper_diff as i128 == 7;
    let g6 = !en || nl == nr * d + a1;
    let g7 = !en || a1 + a2 + 1 == nr;
    g1 && g2 && g3 && g4 && g5 && g6 && g7
}

/// Whether the result gates of signed division and remainder hold.
fn check_signed_results(w: &BinWitness) -> (b: bool)
    ensures
        b == (bin_gates_div_s(*w) && bin_gates_rem_s(*w)),
{
    let m: u128 = if w.is_64bits { 0x1_0000_0000_0000_0000 } else { 0x1_0000_0000 };
    let d = w.d as u128;
    let res = w.res as u128;
    let a1 = w.aux1 as u128;
    let same_sign: bool = w.lhs_flag == w.rhs_flag;
    proof {
        let mm = bin_modulus(*w);
        assert(mm == m);
        lemma_normalized(*w);
        let rf = res_flag(*w);
        let lf = b2i(w.lhs_flag);
        vstd::arithmetic::mul::lemma_mul_basics(d + res);
        vstd::arithmetic::mul::lemma_mul_basics(a1 + res);
        vstd::arithmetic::mul::lemma_mul_basics(1 - rf);
        vstd::arithmetic::mul::lemma_mul_basics(1 - lf);
        vstd::arithmetic::mul::lemma_mul_basics((d + res) * rf);
        vstd::arithmetic::mul::lemma_mul_basics((a1 + res) * lf);
        lemma_fzero_mul_bit(res - d, (1 - rf) * b2i(w.is_div_s));
        lemma_fzero_mul_bit(res - a1, (1 - lf) * b2i(w.is_rem_s));
        if !same_sign && w.is_div_s {
            assert((d + res) * rf * b2i(w.is_div_s) == d + res);
            lemma_fzero_mul(res + d - mm, d + res);
        } else {
            assert((d + res) * rf * b2i(w.is_div_s) == 0);
            vstd::arithmetic::mul::lemma_mul_basics(res + d - mm);
        }
        if w.lhs_flag && w.is_rem_s {
            assert((a1 + res) * lf * b2i(w.is_rem_s) == a1 + res);
            lemma_fzero_mul(res + a1 - mm, a1 + res);
        } else {
            assert((a1 + res) * lf * b2i(w.is_rem_s) == 0);
            vstd::arithmetic::mul::lemma_mul_basics(res + a1 - mm);
        }
    }
    let g1 = !w.is_div_s || !same_sign || res == d;
    let g2 = !w.is_div_s || same_sign || res + d == m || d + res == 0;
    let g3 = !w.is_rem_s || w.lhs_flag || res == a1;
    let g4 = !w.is_rem_s || !w.lhs_flag || res + a1 == m || a1 + res == 0;
    g1 && g2 && g3 && g4
}

/// Whether every gate of the gadget holds on the values `w`, whose
/// operands are of the width that `w` selects.
pub fn bin_gates_hold(w: &BinWitness) -> (b: bool)
    requires
        w.lhs < bin_modulus(*w),
        w.rhs < bin_modulus(*w),
    ensures
        b == bin_gates(*w),
{
    let a = check_selector(w);
    let b = check_ring(w);
    let c = check_unsigned(w);
    let d = check_signed(w);
    let e = check_signed_results(w);
    a && b && c && d && e
}

} // verus!
