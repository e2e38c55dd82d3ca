//! A gadget of signed division and remainder that works on the absolute
//! values of the operands.

use vstd::prelude::*;
use crate::circuits::utils::FieldValue;
use crate::circuits::etable_compact::op_configure::{
    assign_mtable_lookups, mtable_lookup_cell_ok, mtable_lookup_writes,
    bit_cell_at, bit_cell_ok, bit_writes, common_range_cell_at, common_range_cell_ok,
    common_range_writes, lemma_append_assoc, mtable_lookup_cell_at, u64_cell_at, u64_cell_ok, u64_cell_writes,
    u64_on_u8_cell_at, u64_on_u8_cell_ok, u64_on_u8_cell_writes, BitCell, CommonRangeCell,
    EventTableCellAllocator, MTableLookupCell, U64Cell, U64OnU8Cell,
};
use crate::circuits::etable_compact::op_configure::op_bin::magnitude;
use crate::circuits::step::{
    abs, bits_of, to_signed, trunc_div, trunc_rem, wasm_bin, wasm_bin_traps, wrap, BinOp,
    BinSignedOp, StepInfo, VarType,
};
use crate::circuits::utils::{b2i, fzero, lemma_fzero_mul_bit, lemma_fzero_small, modulus, CellWrite, Context};

verus! {

/// The cells of the gadget.
#[derive(Clone, Copy, Debug, PartialEq, Eq, Structural)]
pub struct BinSignedConfig {
    pub lhs: U64Cell,
    pub rhs: U64Cell,
    pub res: U64Cell,
    pub pad: U64OnU8Cell,
    pub r: U64OnU8Cell,
    pub vtype: CommonRangeCell,
    pub mode: BitCell,
    pub bit_mode: BitCell,
    pub lhs_sig_bit: BitCell,
    pub rhs_sig_bit: BitCell,
    pub rem_is_zero: BitCell,
    pub lhs_abs: U64OnU8Cell,
    pub rhs_abs: U64OnU8Cell,
    pub lookup_stack_read_lhs: MTableLookupCell,
    pub lookup_stack_read_rhs: MTableLookupCell,
    pub lookup_stack_write: MTableLookupCell,
}

/// Builds the gadget.
pub struct BinSignedConfigBuilder {}

/// The values that the gadget's cells hold for one step.
#[derive(Clone, Copy, Debug, PartialEq, Eq, Structural)]
pub struct BinSignedWitness {
    pub lhs: u64,
    pub rhs: u64,
    pub res: u64,
    pub pad: u64,
    pub r: u64,
    pub vtype: u16,
    pub mode: bool,
    pub bit_mode: bool,
    pub lhs_sig_bit: bool,
    pub rhs_sig_bit: bool,
    pub rem_is_zero: bool,
    pub lhs_abs: u64,
    pub rhs_abs: u64,
}

/// The cells that the gadget takes from an allocator in state `a`.
pub open spec fn bin_signed_layout(a: EventTableCellAllocator) -> BinSignedConfig {
    let u = a.u64_index as int;
    let e = a.u64_on_u8_index as int;
    let b = a.bit_index as int;
    let t = a.mtable_lookup_index as int;
    BinSignedConfig {
        lhs: u64_cell_at(u),
        rhs: u64_cell_at(u + 1),
        res: u64_cell_at(u + 2),
        pad: u64_on_u8_cell_at(e),
        lhs_abs: u64_on_u8_cell_at(e + 1),
        rhs_abs: u64_on_u8_cell_at(e + 2),
        r: u64_on_u8_cell_at(e + 3),
        vtype: common_range_cell_at(a.common_range_index as int),
        mode: bit_cell_at(b),
        bit_mode: bit_cell_at(b + 1),
        rem_is_zero: bit_cell_at(b + 2),
        lhs_sig_bit: bit_cell_at(b + 3),
        rhs_sig_bit: bit_cell_at(b + 4),
        lookup_stack_read_lhs: mtable_lookup_cell_at(t),
        lookup_stack_read_rhs: mtable_lookup_cell_at(t + 1),
        lookup_stack_write: mtable_lookup_cell_at(t + 2),
    }
}

impl BinSignedConfig {
    /// Every cell lies within a block.
    pub open spec fn wf(self) -> bool {
        &&& u64_cell_ok(self.lhs)
        &&& u64_cell_ok(self.rhs)
        &&& u64_cell_ok(self.res)
        &&& u64_on_u8_cell_ok(self.pad)
        &&& u64_on_u8_cell_ok(self.r)
        &&& common_range_cell_ok(self.vtype)
        &&& bit_cell_ok(self.mode)
        &&& bit_cell_ok(self.bit_mode)
        &&& bit_cell_ok(self.lhs_sig_bit)
        &&& bit_cell_ok(self.rhs_sig_bit)
        &&& bit_cell_ok(self.rem_is_zero)
        &&& u64_on_u8_cell_ok(self.lhs_abs)
        &&& u64_on_u8_cell_ok(self.rhs_abs)
        &&& mtable_lookup_cell_ok(self.lookup_stack_read_lhs)
        &&& mtable_lookup_cell_ok(self.lookup_stack_read_rhs)
        &&& mtable_lookup_cell_ok(self.lookup_stack_write)
    }

    /// The memory table lookup cells of the step, in the order of the
    /// gadget's cells.
    pub open spec fn lookups(self) -> Seq<MTableLookupCell> {
        seq![self.lookup_stack_read_lhs, self.lookup_stack_read_rhs, self.lookup_stack_write]
    }
}

impl BinSignedConfigBuilder {
    /// Takes the gadget's cells from the allocator of its block.
    pub fn configure(common: &mut EventTableCellAllocator) -> (r: BinSignedConfig)
        requires
            old(common).wf(),
            old(common).u64_index + 3 <= 3,
            old(common).u64_on_u8_index + 4 <= 4,
            old(common).bit_index + 5 <= 40,
            old(common).common_range_index + 1 <= 20,
            old(common).mtable_lookup_index + 3 <= 11,
        ensures
            r == bin_signed_layout(*old(common)),
            r.wf(),
            final(common).wf(),
            *final(common) == (EventTableCellAllocator {
                u64_index: (old(common).u64_index + 3) as i32,
                u64_on_u8_index: (old(common).u64_on_u8_index + 4) as i32,
                bit_index: (old(common).bit_index + 5) as i32,
                common_range_index: (old(common).common_range_index + 1) as i32,
                mtable_lookup_index: (old(common).mtable_lookup_index + 3) as i32,
                ..*old(common)
            }),
    {
        let lhs = common.alloc_u64();
        let rhs = common.alloc_u64();
        let res = common.alloc_u64();
        let pad = common.alloc_u64_on_u8();
        let lhs_abs = common.alloc_u64_on_u8();
        let rhs_abs = common.alloc_u64_on_u8();
        let r = common.alloc_u64_on_u8();
        let vtype = common.alloc_common_range_value();
        let mode = common.alloc_bit_value();
        let bit_mode = common.alloc_bit_value();
        let rem_is_zero = common.alloc_bit_value();
        let lhs_sig_bit = common.alloc_bit_value();
        let rhs_sig_bit = common.alloc_bit_value();
        let lookup_stack_read_lhs = common.alloc_mtable_lookup();
        let lookup_stack_read_rhs = common.alloc_mtable_lookup();
        let lookup_stack_write = common.alloc_mtable_lookup();
        BinSignedConfig {
            lhs,
            rhs,
            res,
            pad,
            r,
            vtype,
            mode,
            bit_mode,
            lhs_sig_bit,
            rhs_sig_bit,
            rem_is_zero,
            lhs_abs,
            rhs_abs,
            lookup_stack_read_lhs,
            lookup_stack_read_rhs,
            lookup_stack_write,
        }
    }
}

/// The values that the gadget assigns for `class` on the `n`-bit patterns
/// `l` and `r` with result `v`.
pub open spec fn spec_bin_signed_witness(class: BinSignedOp, vtype: VarType, l: u64, r: u64, v: u64) -> BinSignedWitness {
    let n = bits_of(vtype);
    let la = magnitude(l as int, n);
    let ra = magnitude(r as int, n);
    let q = la / ra;
    BinSignedWitness {
        lhs: l,
        rhs: r,
        res: v,
        pad: ((q + 1) * ra - la) as u64,
        r: if class == BinSignedOp::DivS { (la - q * ra) as u64 } else { q as u64 },
        vtype: if vtype == VarType::I32 { 1 } else { 2 },
        mode: class == BinSignedOp::RemS,
        bit_mode: vtype == VarType::I64,
        lhs_sig_bit: l >= wrap(n) / 2,
        rhs_sig_bit: r >= wrap(n) / 2,
        rem_is_zero: ra * q == la,
        lhs_abs: la as u64,
        rhs_abs: ra as u64,
    }
}

/// The step does not divide by zero.
pub open spec fn bin_signed_assignable(vtype: VarType, l: u64, r: u64) -> bool {
    r != 0
}

/// The values computed for a step.
pub fn bin_signed_witness(class: BinSignedOp, vtype: VarType, left: u64, right: u64, value: u64) -> (w: BinSignedWitness)
    requires
        left < wrap(bits_of(vtype)),
        right < wrap(bits_of(vtype)),
        bin_signed_assignable(vtype, left, right),
    ensures
        w == spec_bin_signed_witness(class, vtype, left, right, value),
{
    let is64: bool = match vtype {
        VarType::I64 => true,
        VarType::I32 => false,
    };
    let mask: u64 = if is64 { 0xffff_ffff_ffff_ffff } else { 0xffff_ffff };
    let half: u64 = if is64 { 0x8000_0000_0000_0000 } else { 0x8000_0000 };
    let lhs_sig_bit: bool = left >= half;
    let rhs_sig_bit: bool = right >= half;
    let lhs_abs: u64 = if lhs_sig_bit { mask - left + 1 } else { left };
    let rhs_abs: u64 = if rhs_sig_bit { mask - right + 1 } else { right };
    let res_abs: u64 = lhs_abs / rhs_abs;
    proof {
        let la = lhs_abs as int;
        let ra = rhs_abs as int;
        let q = res_abs as int;
        vstd::arithmetic::div_mod::lemma_fundamental_div_mod(la, ra);
        vstd::arithmetic::div_mod::lemma_mod_bound(la, ra);
        assert((q + 1) * ra == la - la % ra + ra) by (nonlinear_arith)
            requires
                la == ra * q + la % ra,
        ;
        assert(q * ra == ra * q) by (nonlinear_arith);
        assert(la <= half && ra <= half);
        assert(0 <= (q + 1) * ra - la <= ra);
    }
    let pad: u64 = ((res_abs as u128 + 1) * rhs_abs as u128 - lhs_abs as u128) as u64;
    let is_div: bool = match class {
        BinSignedOp::DivS => true,
        BinSignedOp::RemS => false,
    };
    BinSignedWitness {
        lhs: left,
        rhs: right,
        res: value,
        pad,
        r: if is_div { lhs_abs - res_abs * rhs_abs } else { res_abs },
        vtype: if is64 { 2 } else { 1 },
        mode: !is_div,
        bit_mode: is64,
        lhs_sig_bit,
        rhs_sig_bit,
        rem_is_zero: rhs_abs * res_abs == lhs_abs,
        lhs_abs,
        rhs_abs,
    }
}

/// Two to the width, as the gates write it.
pub open spec fn bin_signed_bound(w: BinSignedWitness) -> int {
    0x1_0000_0000 * (1 - b2i(w.bit_mode)) + 0x1_0000_0000_0000_0000 * b2i(w.bit_mode)
}

/// The sign of the quotient: the exclusive or of the operands' signs.
pub open spec fn res_sig_bit(w: BinSignedWitness) -> int {
    (1 - b2i(w.lhs_sig_bit)) * b2i(w.rhs_sig_bit) + (1 - b2i(w.rhs_sig_bit)) * b2i(w.lhs_sig_bit)
}

/// The absolute value of the result of a division, as the gates write it.
pub open spec fn res_abs(w: BinSignedWitness) -> int {
    w.res * (1 - res_sig_bit(w)) + (bin_signed_bound(w) - w.res) * res_sig_bit(w)
}

/// The absolute value of the result of a remainder, as the gates write it.
pub open spec fn remainder_abs(w: BinSignedWitness) -> int {
    w.res * (1 - b2i(w.lhs_sig_bit)) + (bin_signed_bound(w) - w.res) * b2i(w.lhs_sig_bit) * (1 - b2i(
        w.rem_is_zero,
    ))
}

/// The gates of the gadget.
pub open spec fn bin_signed_gates(w: BinSignedWitness) -> bool {
    let op_div = 1 - b2i(w.mode);
    let op_rem = b2i(w.mode);
    &&& fzero((w.lhs_abs - res_abs(w) * w.rhs_abs - w.r) * op_div)
    &&& fzero((w.rhs_abs - w.pad - w.r) * op_div)
    &&& fzero((w.lhs_abs - w.r * w.rhs_abs - remainder_abs(w)) * op_rem)
    &&& fzero((w.rhs_abs - w.pad - remainder_abs(w)) * op_rem)
}

/// The constraint polynomials, evaluated on boolean flags.
proof fn lemma_bin_signed_polys(w: BinSignedWitness)
    ensures
        bin_signed_bound(w) == if w.bit_mode { 0x1_0000_0000_0000_0000int } else { 0x1_0000_0000int },
        res_sig_bit(w) == if w.lhs_sig_bit != w.rhs_sig_bit { 1int } else { 0int },
        res_abs(w) == if w.lhs_sig_bit != w.rhs_sig_bit { bin_signed_bound(w) - w.res } else { w.res as int },
        remainder_abs(w) == if !w.lhs_sig_bit {
            w.res as int
        } else if !w.rem_is_zero {
            bin_signed_bound(w) - w.res
        } else {
            0int
        },
{
    let b = bin_signed_bound(w);
    vstd::arithmetic::mul::lemma_mul_basics(w.res as int);
    vstd::arithmetic::mul::lemma_mul_basics(b - w.res);
    vstd::arithmetic::mul::lemma_mul_basics((b - w.res) * b2i(w.lhs_sig_bit));
    vstd::arithmetic::mul::lemma_mul_basics(0x1_0000_0000);
    vstd::arithmetic::mul::lemma_mul_basics(0x1_0000_0000_0000_0000);
    vstd::arithmetic::mul::lemma_mul_basics(0);
    vstd::arithmetic::mul::lemma_mul_basics(1);
}

/// A constraint whose selector is zero vanishes; one whose polynomial is
/// zero vanishes.
proof fn lemma_product_zero(p: int, s: int)
    requires
        p == 0 || s == 0,
    ensures
        fzero(p * s),
{
    vstd::arithmetic::mul::lemma_mul_basics(p);
    vstd::arithmetic::mul::lemma_mul_basics(s);
}

/// Completeness: the assigned values satisfy the gates on every step that
/// neither traps nor panics and whose recorded result is the WebAssembly
/// one, except a signed division whose quotient is zero while the signs of
/// the operands differ, where the gates read the zero result as a negative
/// quotient of magnitude two to the width.
pub proof fn lemma_bin_signed_complete(class: BinSignedOp, vtype: VarType, l: u64, r: u64, v: u64)
    requires
        l < wrap(bits_of(vtype)),
        r < wrap(bits_of(vtype)),
        bin_signed_assignable(vtype, l, r),
        !wasm_bin_traps(bin_op_of(class), l as int, r as int, bits_of(vtype)),
        v == wasm_bin(bin_op_of(class), l as int, r as int, bits_of(vtype)),
        !(class == BinSignedOp::DivS && (l >= wrap(bits_of(vtype)) / 2) != (r >= wrap(bits_of(vtype)) / 2)
            && magnitude(l as int, bits_of(vtype)) < magnitude(r as int, bits_of(vtype))),
    ensures
        bin_signed_gates(spec_bin_signed_witness(class, vtype, l, r, v)),
{
    let n = bits_of(vtype);
    let m = wrap(n);
    let w = spec_bin_signed_witness(class, vtype, l, r, v);
    lemma_bin_signed_polys(w);
    let la = magnitude(l as int, n);
    let ra = magnitude(r as int, n);
    let q = la / ra;
    let rem = la % ra;
    vstd::arithmetic::div_mod::lemma_fundamental_div_mod(la, ra);
    vstd::arithmetic::div_mod::lemma_mod_bound(la, ra);
    vstd::arithmetic::div_mod::lemma_div_pos_is_pos(la, ra);
    vstd::arithmetic::div_mod::lemma_div_is_ordered_by_denominator(la, 1, ra);
    assert(q * ra == ra * q) by (nonlinear_arith);
    assert((q + 1) * ra == ra * q + ra) by (nonlinear_arith);
    assert(bin_signed_bound(w) == m);
    let sl = to_signed(l as int, n);
    let sr = to_signed(r as int, n);
    assert(abs(sl) == la);
    assert(abs(sr) == ra);
    if class == BinSignedOp::DivS {
        assert(w.r == rem);
        if w.lhs_sig_bit == w.rhs_sig_bit {
            assert(trunc_div(sl, sr) == q);
            vstd::arithmetic::div_mod::lemma_small_mod(q as nat, m as nat);
            assert(res_abs(w) == q);
        } else {
            assert(trunc_div(sl, sr) == -q);
            if q == 0 {
                vstd::arithmetic::div_mod::lemma_small_mod(la as nat, ra as nat);
                assert(false);
            }
            vstd::arithmetic::div_mod::lemma_fundamental_div_mod_converse(-q, m, -1, m - q);
            assert(res_abs(w) == q);
        }
        vstd::arithmetic::mul::lemma_mul_is_commutative(res_abs(w), ra);
        lemma_product_zero(w.lhs_abs - res_abs(w) * w.rhs_abs - w.r, 1 - b2i(w.mode));
        lemma_product_zero(w.rhs_abs - w.pad - w.r, 1 - b2i(w.mode));
        lemma_product_zero(w.lhs_abs - w.r * w.rhs_abs - remainder_abs(w), b2i(w.mode));
        lemma_product_zero(w.rhs_abs - w.pad - remainder_abs(w), b2i(w.mode));
    } else {
        assert(w.r == q);
        assert(w.rem_is_zero == (rem == 0));
        if !w.lhs_sig_bit {
            assert(trunc_rem(sl, sr) == rem);
            vstd::arithmetic::div_mod::lemma_small_mod(rem as nat, m as nat);
        } else {
            assert(trunc_rem(sl, sr) == -rem);
            if rem != 0 {
                vstd::arithmetic::div_mod::lemma_fundamental_div_mod_converse(-rem, m, -1, m - rem);
            }
        }
        assert(remainder_abs(w) == rem);
        vstd::arithmetic::mul::lemma_mul_is_commutative(q, ra);
        lemma_product_zero(w.lhs_abs - res_abs(w) * w.rhs_abs - w.r, 1 - b2i(w.mode));
        lemma_product_zero(w.rhs_abs - w.pad - w.r, 1 - b2i(w.mode));
        lemma_product_zero(w.lhs_abs - w.r * w.rhs_abs - remainder_abs(w), b2i(w.mode));
        lemma_product_zero(w.rhs_abs - w.pad - remainder_abs(w), b2i(w.mode));
    }
}

/// The arithmetic operator of a signed division or remainder.
pub open spec fn bin_op_of(class: BinSignedOp) -> BinOp {
    match class {
        BinSignedOp::DivS => BinOp::SignedDiv,
        BinSignedOp::RemS => BinOp::SignedRem,
    }
}

/// Whether every gate of the gadget holds on the values `w`, whose result
/// is below two to the width.
pub fn bin_signed_gates_hold(w: &BinSignedWitness) -> (b: bool)
    requires
        w.res < bin_signed_bound(*w),
    ensures
        b == bin_signed_gates(*w),
{
    let bound: u128 = if w.bit_mode { 0x1_0000_0000_0000_0000 } else { 0x1_0000_0000 };
    let res = w.res as u128;
    let la = w.lhs_abs as u128;
    let ra = w.rhs_abs as u128;
    let r = w.r as u128;
    let pad = w.pad as u128;
    let differ: bool = w.lhs_sig_bit != w.rhs_sig_bit;
    let qa: u128 = if differ { bound - res } else { res };
    let rema: u128 = if !w.lhs_sig_bit { res } else if !w.rem_is_zero { bound - res } else { 0 };
    proof {
        lemma_bin_signed_polys(*w);
        assert(res_abs(*w) == qa);
        assert(remainder_abs(*w) == rema);
        assert(0 <= qa * ra <= 0xffff_ffff_ffff_ffff_0000_0000_0000_0000) by (nonlinear_arith)
            requires
                0 <= qa <= 0x1_0000_0000_0000_0000,
                0 <= ra < 0x1_0000_0000_0000_0000,
        ;
        assert(0 <= r * ra <= 0xffff_ffff_ffff_fffe_0000_0000_0000_0001) by (nonlinear_arith)
            requires
                0 <= r < 0x1_0000_0000_0000_0000,
                0 <= ra < 0x1_0000_0000_0000_0000,
        ;
        vstd::arithmetic::mul::lemma_mul_is_commutative(r as int, ra as int);
        lemma_fzero_mul_bit(w.lhs_abs - res_abs(*w) * w.rhs_abs - w.r, 1 - b2i(w.mode));
        lemma_fzero_mul_bit(w.rhs_abs - w.pad - w.r, 1 - b2i(w.mode));
        lemma_fzero_mul_bit(w.lhs_abs - w.r * w.rhs_abs - remainder_abs(*w), b2i(w.mode));
        lemma_fzero_mul_bit(w.rhs_abs - w.pad - remainder_abs(*w), b2i(w.mode));
    }
    let g1 = match (qa * ra).checked_add(r) {
        Some(t) => la == t,
        None => false,
    };
    let g2 = ra == pad + r;
    let g3 = match (r * ra).checked_add(rema) {
        Some(t) => la == t,
        None => false,
    };
    let g4 = ra == pad + rema;
    if w.mode {
        g3 && g4
    } else {
        g1 && g2
    }
}

/// The operator, type and operands of a step, as 64-bit patterns.
pub open spec fn bin_signed_operands(step: StepInfo) -> (BinSignedOp, VarType, u64, u64, u64) {
    match step {
        StepInfo::I32BinSignedOp { class, left, right, value } => (
            class,
            VarType::I32,
            left as u32 as u64,
            right as u32 as u64,
            value as u32 as u64,
        ),
        StepInfo::I64BinSignedOp { class, left, right, value } => (
            class,
            VarType::I64,
            left as u64,
            right as u64,
            value as u64,
        ),
        _ => (BinSignedOp::DivS, VarType::I32, 0, 0, 0),
    }
}

/// The step is one of a signed division or remainder that the gadget can
/// assign.
pub open spec fn is_bin_signed_step(step: StepInfo) -> bool {
    let (class, vtype, l, r, v) = bin_signed_operands(step);
    (step is I32BinSignedOp || step is I64BinSignedOp) && bin_signed_assignable(vtype, l, r)
}

/// The values computed for a recorded step.
pub fn bin_signed_step_witness(step: &StepInfo) -> (w: BinSignedWitness)
    requires
        is_bin_signed_step(*step),
    ensures
        ({
            let (class, vtype, l, r, v) = bin_signed_operands(*step);
            w == spec_bin_signed_witness(class, vtype, l, r, v)
        }),
{
    match step {
        StepInfo::I32BinSignedOp { class, left, right, value } => bin_signed_witness(
            *class,
            VarType::I32,
            *left as u32 as u64,
            *right as u32 as u64,
            *value as u32 as u64,
        ),
        StepInfo::I64BinSignedOp { class, left, right, value } => bin_signed_witness(
            *class,
            VarType::I64,
            *left as u64,
            *right as u64,
            *value as u64,
        ),
        _ => bin_signed_witness(BinSignedOp::DivS, VarType::I32, 0, 1, 0),
    }
}

/// The assignments that the gadget makes for a step, in order.
pub open spec fn bin_signed_writes(c: BinSignedConfig, off: int, step: StepInfo) -> Seq<CellWrite> {
    let (class, vtype, l, r, v) = bin_signed_operands(step);
    let w = spec_bin_signed_witness(class, vtype, l, r, v);
    common_range_writes(c.vtype, off, w.vtype) + u64_cell_writes(c.lhs, off, w.lhs) + u64_cell_writes(c.rhs, off, w.rhs)
        + u64_cell_writes(c.res, off, w.res) + bit_writes(c.lhs_sig_bit, off, w.lhs_sig_bit)
        + bit_writes(c.rhs_sig_bit, off, w.rhs_sig_bit) + bit_writes(c.bit_mode, off, w.bit_mode)
        + u64_on_u8_cell_writes(c.lhs_abs, off, w.lhs_abs)
        + u64_on_u8_cell_writes(c.rhs_abs, off, w.rhs_abs) + bit_writes(c.mode, off, w.mode)
        + u64_on_u8_cell_writes(c.pad, off, w.pad) + u64_on_u8_cell_writes(c.r, off, w.r)
        + bit_writes(c.rem_is_zero, off, w.rem_is_zero)
}

/// What a signed division or remainder step writes to its operand and
/// result cells: the left operand's pattern to the left cell, the right
/// one's to the right cell and the result's to the result cell.
pub proof fn lemma_bin_signed_writes_cells(c: BinSignedConfig, off: int, step: StepInfo)
    ensures
        crate::circuits::etable_compact::op_configure::has_write(bin_signed_writes(c, off, step), c.lhs.value_col, off + c.lhs.value_rot, crate::circuits::utils::fv_u64(bin_signed_operands(step).2)),
        crate::circuits::etable_compact::op_configure::has_write(bin_signed_writes(c, off, step), c.rhs.value_col, off + c.rhs.value_rot, crate::circuits::utils::fv_u64(bin_signed_operands(step).3)),
        crate::circuits::etable_compact::op_configure::has_write(bin_signed_writes(c, off, step), c.res.value_col, off + c.res.value_rot, crate::circuits::utils::fv_u64(bin_signed_operands(step).4)),
{
    let p0 = common_range_writes(c.vtype, off, spec_bin_signed_witness(bin_signed_operands(step).0, bin_signed_operands(step).1, bin_signed_operands(step).2, bin_signed_operands(step).3, bin_signed_operands(step).4).vtype);
    let p1 = u64_cell_writes(c.lhs, off, spec_bin_signed_witness(bin_signed_operands(step).0, bin_signed_operands(step).1, bin_signed_operands(step).2, bin_signed_operands(step).3, bin_signed_operands(step).4).lhs);
    let p2 = u64_cell_writes(c.rhs, off, spec_bin_signed_witness(bin_signed_operands(step).0, bin_signed_operands(step).1, bin_signed_operands(step).2, bin_signed_operands(step).3, bin_signed_operands(step).4).rhs);
    let p3 = u64_cell_writes(c.res, off, spec_bin_signed_witness(bin_signed_operands(step).0, bin_signed_operands(step).1, bin_signed_operands(step).2, bin_signed_operands(step).3, bin_signed_operands(step).4).res);
    let p4 = (bit_writes(c.lhs_sig_bit, off, spec_bin_signed_witness(bin_signed_operands(step).0, bin_signed_operands(step).1, bin_signed_operands(step).2, bin_signed_operands(step).3, bin_signed_operands(step).4).lhs_sig_bit) + bit_writes(c.rhs_sig_bit, off, spec_bin_signed_witness(bin_signed_operands(step).0, bin_signed_operands(step).1, bin_signed_operands(step).2, bin_signed_operands(step).3, bin_signed_operands(step).4).rhs_sig_bit) + bit_writes(c.bit_mode, off, spec_bin_signed_witness(bin_signed_operands(step).0, bin_signed_operands(step).1, bin_signed_operands(step).2, bin_signed_operands(step).3, bin_signed_operands(step).4).bit_mode) + u64_on_u8_cell_writes(c.lhs_abs, off, spec_bin_signed_witness(bin_signed_operands(step).0, bin_signed_operands(step).1, bin_signed_operands(step).2, bin_signed_operands(step).3, bin_signed_operands(step).4).lhs_abs) + u64_on_u8_cell_writes(c.rhs_abs, off, spec_bin_signed_witness(bin_signed_operands(step).0, bin_signed_operands(step).1, bin_signed_operands(step).2, bin_signed_operands(step).3, bin_signed_operands(step).4).rhs_abs) + bit_writes(c.mode, off, spec_bin_signed_witness(bin_signed_operands(step).0, bin_signed_operands(step).1, bin_signed_operands(step).2, bin_signed_operands(step).3, bin_signed_operands(step).4).mode) + u64_on_u8_cell_writes(c.pad, off, spec_bin_signed_witness(bin_signed_operands(step).0, bin_signed_operands(step).1, bin_signed_operands(step).2, bin_signed_operands(step).3, bin_signed_operands(step).4).pad) + u64_on_u8_cell_writes(c.r, off, spec_bin_signed_witness(bin_signed_operands(step).0, bin_signed_operands(step).1, bin_signed_operands(step).2, bin_signed_operands(step).3, bin_signed_operands(step).4).r) + bit_writes(c.rem_is_zero, off, spec_bin_signed_witness(bin_signed_operands(step).0, bin_signed_operands(step).1, bin_signed_operands(step).2, bin_signed_operands(step).3, bin_signed_operands(step).4).rem_is_zero));
    assert(bin_signed_writes(c, off, step) =~= p0 + p1 + p2 + p3 + p4);
    {
        crate::circuits::etable_compact::op_configure::lemma_u64_cell_writes_value(c.lhs, off, bin_signed_operands(step).2);
        crate::circuits::etable_compact::op_configure::lemma_has_write_append(p0, p1, c.lhs.value_col, off + c.lhs.value_rot, crate::circuits::utils::fv_u64(bin_signed_operands(step).2));
        crate::circuits::etable_compact::op_configure::lemma_has_write_append(p0 + p1, p2, c.lhs.value_col, off + c.lhs.value_rot, crate::circuits::utils::fv_u64(bin_signed_operands(step).2));
        crate::circuits::etable_compact::op_configure::lemma_has_write_append(p0 + p1 + p2, p3, c.lhs.value_col, off + c.lhs.value_rot, crate::circuits::utils::fv_u64(bin_signed_operands(step).2));
        crate::circuits::etable_compact::op_configure::lemma_has_write_append(p0 + p1 + p2 + p3, p4, c.lhs.value_col, off + c.lhs.value_rot, crate::circuits::utils::fv_u64(bin_signed_operands(step).2));
    }
    {
        crate::circuits::etable_compact::op_configure::lemma_u64_cell_writes_value(c.rhs, off, bin_signed_operands(step).3);
        crate::circuits::etable_compact::op_configure::lemma_has_write_append(p0, p1, c.rhs.value_col, off + c.rhs.value_rot, crate::circuits::utils::fv_u64(bin_signed_operands(step).3));
        crate::circuits::etable_compact::op_configure::lemma_has_write_append(p0 + p1, p2, c.rhs.value_col, off + c.rhs.value_rot, crate::circuits::utils::fv_u64(bin_signed_operands(step).3));
        crate::circuits::etable_compact::op_configure::lemma_has_write_append(p0 + p1 + p2, p3, c.rhs.value_col, off + c.rhs.value_rot, crate::circuits::utils::fv_u64(bin_signed_operands(step).3));
        crate::circuits::etable_compact::op_configure::lemma_has_write_append(p0 + p1 + p2 + p3, p4, c.rhs.value_col, off + c.rhs.value_rot, crate::circuits::utils::fv_u64(bin_signed_operands(step).3));
    }
    {
        crate::circuits::etable_compact::op_configure::lemma_u64_cell_writes_value(c.res, off, bin_signed_operands(step).4);
        crate::circuits::etable_compact::op_configure::lemma_has_write_append(p0, p1, c.res.value_col, off + c.res.value_rot, crate::circuits::utils::fv_u64(bin_signed_operands(step).4));
        crate::circuits::etable_compact::op_configure::lemma_has_write_append(p0 + p1, p2, c.res.value_col, off + c.res.value_rot, crate::circuits::utils::fv_u64(bin_signed_operands(step).4));
        crate::circuits::etable_compact::op_configure::lemma_has_write_append(p0 + p1 + p2, p3, c.res.value_col, off + c.res.value_rot, crate::circuits::utils::fv_u64(bin_signed_operands(step).4));
        crate::circuits::etable_compact::op_configure::lemma_has_write_append(p0 + p1 + p2 + p3, p4, c.res.value_col, off + c.res.value_rot, crate::circuits::utils::fv_u64(bin_signed_operands(step).4));
    }
}

impl BinSignedConfig {
    /// Assigns the gadget's cells for a step of a signed division or
    /// remainder.
    fn assign_cells(&self, ctx: &mut Context, step: &StepInfo)
        requires
            self.wf(),
            old(ctx).offset + 40 <= i32::MAX,
            is_bin_signed_step(*step),
        ensures
            final(ctx).offset == old(ctx).offset,
            final(ctx).writes@ == old(ctx).writes@ + bin_signed_writes(*self, old(ctx).offset as int, *step),
    {
        let w = bin_signed_step_witness(step);
        let ghost start = old(ctx).writes@;
        let ghost o = old(ctx).offset as int;
        self.vtype.assign(ctx, w.vtype);
        let ghost mut acc = common_range_writes(self.vtype, o, w.vtype);
        self.lhs.assign(ctx, w.lhs);
        proof {
            lemma_append_assoc(start, acc, u64_cell_writes(self.lhs, o, w.lhs));
            acc = acc + u64_cell_writes(self.lhs, o, w.lhs);
        }
        self.rhs.assign(ctx, w.rhs);
        proof {
            lemma_append_assoc(start, acc, u64_cell_writes(self.rhs, o, w.rhs));
            acc = acc + u64_cell_writes(self.rhs, o, w.rhs);
        }
        self.res.assign(ctx, w.res);
        proof {
            lemma_append_assoc(start, acc, u64_cell_writes(self.res, o, w.res));
            acc = acc + u64_cell_writes(self.res, o, w.res);
        }
        self.lhs_sig_bit.assign(ctx, w.lhs_sig_bit);
        proof {
            lemma_append_assoc(start, acc, bit_writes(self.lhs_sig_bit, o, w.lhs_sig_bit));
            acc = acc + bit_writes(self.lhs_sig_bit, o, w.lhs_sig_bit);
        }
        self.rhs_sig_bit.assign(ctx, w.rhs_sig_bit);
        proof {
            lemma_append_assoc(start, acc, bit_writes(self.rhs_sig_bit, o, w.rhs_sig_bit));
            acc = acc + bit_writes(self.rhs_sig_bit, o, w.rhs_sig_bit);
        }
        self.bit_mode.assign(ctx, w.bit_mode);
        proof {
            lemma_append_assoc(start, acc, bit_writes(self.bit_mode, o, w.bit_mode));
            acc = acc + bit_writes(self.bit_mode, o, w.bit_mode);
        }
        self.lhs_abs.assign(ctx, w.lhs_abs);
        proof {
            lemma_append_assoc(start, acc, u64_on_u8_cell_writes(self.lhs_abs, o, w.lhs_abs));
            acc = acc + u64_on_u8_cell_writes(self.lhs_abs, o, w.lhs_abs);
        }
        self.rhs_abs.assign(ctx, w.rhs_abs);
        proof {
            lemma_append_assoc(start, acc, u64_on_u8_cell_writes(self.rhs_abs, o, w.rhs_abs));
            acc = acc + u64_on_u8_cell_writes(self.rhs_abs, o, w.rhs_abs);
        }
        self.mode.assign(ctx, w.mode);
        proof {
            lemma_append_assoc(start, acc, bit_writes(self.mode, o, w.mode));
            acc = acc + bit_writes(self.mode, o, w.mode);
        }
        self.pad.assign(ctx, w.pad);
        proof {
            lemma_append_assoc(start, acc, u64_on_u8_cell_writes(self.pad, o, w.pad));
            acc = acc + u64_on_u8_cell_writes(self.pad, o, w.pad);
        }
        self.r.assign(ctx, w.r);
        proof {
            lemma_append_assoc(start, acc, u64_on_u8_cell_writes(self.r, o, w.r));
            acc = acc + u64_on_u8_cell_writes(self.r, o, w.r);
        }
        self.rem_is_zero.assign(ctx, w.rem_is_zero);
        proof {
            lemma_append_assoc(start, acc, bit_writes(self.rem_is_zero, o, w.rem_is_zero));
            acc = acc + bit_writes(self.rem_is_zero, o, w.rem_is_zero);
        }
    }

    /// Assigns the step's cells, as `assign_cells` does, and the
    /// encodings `enc` of the step's stack and memory accesses to its
    /// memory table lookup cells, in order.
    pub fn assign(&self, ctx: &mut Context, step: &StepInfo, enc: &Vec<FieldValue>)
        requires
            enc.len() == 3,
            self.wf(),
            old(ctx).offset + 40 <= i32::MAX,
            is_bin_signed_step(*step),
        ensures
            final(ctx).offset == old(ctx).offset,
            final(ctx).writes@ == old(ctx).writes@ + bin_signed_writes(*self, old(ctx).offset as int, *step) + mtable_lookup_writes(
                self.lookups(),
                old(ctx).offset as int,
                enc@,
            ),
    {
        self.assign_cells(ctx, step);
        let mut cells: Vec<MTableLookupCell> = Vec::new();
        cells.push(self.lookup_stack_read_lhs);
        cells.push(self.lookup_stack_read_rhs);
        cells.push(self.lookup_stack_write);
        proof {
            assert(cells@ =~= self.lookups());
        }
        assign_mtable_lookups(ctx, &cells, enc);
    }
}

/// What the gates of a signed division or remainder give: the magnitude of
/// the left operand is the quotient times the divisor's magnitude plus a
/// remainder, and the remainder and the padding add up to the divisor's
/// magnitude. So the quotient and the remainder are those of the division
/// of the magnitudes where the padding is positive (and, for a remainder,
/// the result fits the width); with a zero padding the gates also take a
/// remainder equal to the divisor.
pub proof fn lemma_bin_signed_gates_divide(w: BinSignedWitness)
    requires
        bin_signed_gates(w),
        w.rhs_abs > 0,
    ensures
        !w.mode ==> w.lhs_abs == res_abs(w) * w.rhs_abs + w.r,
        !w.mode ==> w.r + w.pad == w.rhs_abs,
        !w.mode && w.pad > 0 ==> res_abs(w) == w.lhs_abs as int / w.rhs_abs as int && w.r == w.lhs_abs as int
            % w.rhs_abs as int,
        w.mode ==> w.lhs_abs == w.r * w.rhs_abs + remainder_abs(w),
        w.mode ==> remainder_abs(w) + w.pad == w.rhs_abs,
        w.mode && w.pad > 0 && w.res <= bin_signed_bound(w) ==> remainder_abs(w) == w.lhs_abs as int % w.rhs_abs as int,
{
    lemma_bin_signed_polys(w);
    let d = w.rhs_abs as int;
    let x = w.lhs_abs as int;
    vstd::arithmetic::mul::lemma_mul_basics(x - res_abs(w) * d - w.r);
    vstd::arithmetic::mul::lemma_mul_basics(d - w.pad - w.r);
    vstd::arithmetic::mul::lemma_mul_basics(x - w.r * d - remainder_abs(w));
    vstd::arithmetic::mul::lemma_mul_basics(d - w.pad - remainder_abs(w));
    if !w.mode {
        let q = res_abs(w);
        assert(-0x1_0000_0000_0000_0000 <= q <= 0x1_0000_0000_0000_0000);
        assert(-0x1_0000_0000_0000_0000_0000_0000_0000_0000 <= q * d <= 0x1_0000_0000_0000_0000_0000_0000_0000_0000)
            by (nonlinear_arith)
            requires
                -0x1_0000_0000_0000_0000 <= q <= 0x1_0000_0000_0000_0000,
                0 < d < 0x1_0000_0000_0000_0000,
        ;
        crate::circuits::utils::lemma_fzero_small(x - q * d - w.r);
        crate::circuits::utils::lemma_fzero_small(d - w.pad - w.r);
        if w.pad > 0 {
            vstd::arithmetic::mul::lemma_mul_is_commutative(q, d);
            vstd::arithmetic::div_mod::lemma_fundamental_div_mod_converse(x, d, q, w.r as int);
        }
    } else {
        let t = w.r as int;
        let m = remainder_abs(w);
        assert(0 <= t * d <= 0xffff_ffff_ffff_ffff * 0xffff_ffff_ffff_ffff) by (nonlinear_arith)
            requires
                0 <= t <= 0xffff_ffff_ffff_ffff,
                0 < d <= 0xffff_ffff_ffff_ffff,
        ;
        assert(-0x1_0000_0000_0000_0000 <= m <= 0x1_0000_0000_0000_0000);
        crate::circuits::utils::lemma_fzero_small(x - t * d - m);
        crate::circuits::utils::lemma_fzero_small(d - w.pad - m);
        if w.pad > 0 && w.res <= bin_signed_bound(w) {
            vstd::arithmetic::mul::lemma_mul_is_commutative(t, d);
            vstd::arithmetic::div_mod::lemma_fundamental_div_mod_converse(x, d, t, m);
        }
    }
}

/// Soundness of the signed division and remainder: where the gates hold on
/// operands and a result of the width, a nonzero divisor that does not
/// make the division trap, and cells tied to the operands as the gates
/// alone do not tie them (the sign bits are the operands' top bits, the
/// magnitudes are the operands', the padding is positive, and a remainder
/// flagged zero comes with a zero result), the result is the WebAssembly
/// one. Without those ties the gates take wrong results: a left magnitude
/// of six with a result of three for `div_s(4, 2)`; a remainder equal to
/// the divisor with a zero padding; any result for `rem_s(-4, 2)` with the
/// zero flag set.
pub proof fn lemma_bin_signed_sound(w: BinSignedWitness, n: nat)
    requires
        bin_signed_gates(w),
        n == if w.bit_mode { 64nat } else { 32nat },
        w.lhs < wrap(n),
        w.rhs < wrap(n),
        w.res < wrap(n),
        w.rhs != 0,
        !wasm_bin_traps(bin_op_of(if w.mode { BinSignedOp::RemS } else { BinSignedOp::DivS }), w.lhs as int, w.rhs as int, n),
        w.lhs_sig_bit == (w.lhs >= wrap(n) / 2),
        w.rhs_sig_bit == (w.rhs >= wrap(n) / 2),
        w.lhs_abs == magnitude(w.lhs as int, n),
        w.rhs_abs == magnitude(w.rhs as int, n),
        w.pad > 0,
        w.rem_is_zero ==> w.res == 0,
    ensures
        w.res == wasm_bin(bin_op_of(if w.mode { BinSignedOp::RemS } else { BinSignedOp::DivS }), w.lhs as int, w.rhs as int, n),
{
    lemma_bin_signed_polys(w);
    let m = wrap(n);
    assert(bin_signed_bound(w) == m);
    lemma_bin_signed_gates_divide(w);
    let la = w.lhs_abs as int;
    let ra = w.rhs_abs as int;
    let sl = to_signed(w.lhs as int, n);
    let sr = to_signed(w.rhs as int, n);
    assert(abs(sl) == la);
    assert(abs(sr) == ra);
    let q = la / ra;
    let rem = la % ra;
    vstd::arithmetic::div_mod::lemma_div_pos_is_pos(la, ra);
    vstd::arithmetic::div_mod::lemma_mod_bound(la, ra);
    vstd::arithmetic::div_mod::lemma_div_is_ordered_by_denominator(la, 1, ra);
    if !w.mode {
        assert(res_abs(w) == q);
        if w.lhs_sig_bit == w.rhs_sig_bit {
            assert(trunc_div(sl, sr) == q);
            vstd::arithmetic::div_mod::lemma_small_mod(q as nat, m as nat);
        } else {
            assert(trunc_div(sl, sr) == -q);
            assert(q == m - w.res);
            vstd::arithmetic::div_mod::lemma_fundamental_div_mod_converse(-q, m, -1, m - q);
        }
    } else {
        if w.rem_is_zero && w.lhs_sig_bit {
            assert(remainder_abs(w) == 0);
            assert(rem == 0);
            assert(trunc_rem(sl, sr) == 0);
            assert(0int % m == 0);
        } else if !w.lhs_sig_bit {
            assert(remainder_abs(w) == rem);
            assert(trunc_rem(sl, sr) == rem);
            vstd::arithmetic::div_mod::lemma_small_mod(rem as nat, m as nat);
        } else {
            assert(remainder_abs(w) == rem);
            assert(trunc_rem(sl, sr) == -rem);
            assert(rem == m - w.res);
            vstd::arithmetic::div_mod::lemma_fundamental_div_mod_converse(-rem, m, -1, m - rem);
        }
    }
}

} // verus!
