//! The gadget of the counting operators of one operand: `ctz` splits the
//! operand at its lowest set bit, `clz` at its highest, and the power table
//! ties the bit found to the count; `popcnt` is selected but has no
//! assignment yet.

use vstd::prelude::*;
use vstd::arithmetic::power2::{lemma2_to64, lemma_pow2_adds, lemma_pow2_pos, lemma_pow2_strictly_increases, pow2};
use crate::circuits::etable_compact::op_configure::{
    assign_mtable_lookups, mtable_lookup_cell_ok, mtable_lookup_writes,
    bit_cell_at, bit_cell_ok, bit_writes, lemma_append_assoc, mtable_lookup_cell_at, one_write, pow_table_entry,
    pow_table_value, u64_cell_at, u64_cell_ok, u64_cell_writes, u64_on_u8_cell_at, u64_on_u8_cell_ok,
    u64_on_u8_cell_writes, BitCell, EventTableCellAllocator, MTableLookupCell, PowTableLookupCell, U64Cell,
    U64OnU8Cell, UnlimitedCell,
};
use crate::circuits::etable_compact::op_configure::op_bin_shift::{check_pow_table, in_pow_table, pow_table_encode};
use crate::circuits::etable_compact::{BIT_CELLS, COL_AUX, COL_UNLIMITED, ETABLE_STEP_SIZE};
use crate::circuits::step::{StepInfo, UnaryOp, VarType};
use crate::circuits::utils::{
    b2i, field_mul, field_sub, fv_u64, fzero, invert_or_zero, lemma_fzero_small, modulus, two64, CellWrite, Context,
    FieldValue,
};

verus! {

/// The cells of the gadget.
#[derive(Clone, Copy, Debug, PartialEq, Eq, Structural)]
pub struct UnaryConfig {
    pub operand: U64Cell,
    pub result: U64Cell,
    pub operand_is_zero: BitCell,
    pub operand_inv: UnlimitedCell,
    pub boundary: UnlimitedCell,
    pub aux1: U64OnU8Cell,
    pub aux2: U64OnU8Cell,
    pub is_ctz: BitCell,
    pub is_clz: BitCell,
    pub is_popcnt: BitCell,
    pub is_64bits: BitCell,
    pub lookup_pow: PowTableLookupCell,
    pub lookup_stack_read: MTableLookupCell,
    pub lookup_stack_write: MTableLookupCell,
}

/// Builds the gadget.
pub struct UnaryConfigBuilder {}

/// The cells that the gadget takes from an allocator in state `a`.
pub open spec fn unary_layout(a: EventTableCellAllocator) -> UnaryConfig {
    let b = a.bit_index as int;
    let u = a.u64_index as int;
    let v = a.u64_on_u8_index as int;
    UnaryConfig {
        operand: u64_cell_at(u),
        result: u64_cell_at(u + 1),
        operand_is_zero: bit_cell_at(b),
        operand_inv: UnlimitedCell { col: COL_UNLIMITED, rot: a.unlimited_index },
        boundary: UnlimitedCell { col: COL_UNLIMITED, rot: (a.unlimited_index + 1) as i32 },
        aux1: u64_on_u8_cell_at(v),
        aux2: u64_on_u8_cell_at(v + 1),
        is_ctz: bit_cell_at(b + 1),
        is_clz: bit_cell_at(b + 2),
        is_popcnt: bit_cell_at(b + 3),
        is_64bits: bit_cell_at(b + 4),
        lookup_pow: PowTableLookupCell { col: COL_AUX, rot: a.pow_table_lookup_index },
        lookup_stack_read: mtable_lookup_cell_at(a.mtable_lookup_index as int),
        lookup_stack_write: mtable_lookup_cell_at(a.mtable_lookup_index + 1),
    }
}

impl UnaryConfig {
    /// Every cell lies within a block.
    pub open spec fn wf(self) -> bool {
        &&& u64_cell_ok(self.operand)
        &&& u64_cell_ok(self.result)
        &&& bit_cell_ok(self.operand_is_zero)
        &&& 0 <= self.operand_inv.rot < ETABLE_STEP_SIZE
        &&& 0 <= self.boundary.rot < ETABLE_STEP_SIZE
        &&& u64_on_u8_cell_ok(self.aux1)
        &&& u64_on_u8_cell_ok(self.aux2)
        &&& bit_cell_ok(self.is_ctz)
        &&& bit_cell_ok(self.is_clz)
        &&& bit_cell_ok(self.is_popcnt)
        &&& bit_cell_ok(self.is_64bits)
        &&& 0 <= self.lookup_pow.rot < ETABLE_STEP_SIZE
        &&& mtable_lookup_cell_ok(self.lookup_stack_read)
        &&& mtable_lookup_cell_ok(self.lookup_stack_write)
    }

    /// The memory table lookup cells of the step, in the order of the
    /// gadget's cells.
    pub open spec fn lookups(self) -> Seq<MTableLookupCell> {
        seq![self.lookup_stack_read, self.lookup_stack_write]
    }
}

impl UnaryConfigBuilder {
    /// Takes the gadget's cells from the allocator of its block.
    pub fn configure(common: &mut EventTableCellAllocator) -> (r: UnaryConfig)
        requires
            old(common).wf(),
            old(common).u64_index + 2 <= 3,
            old(common).bit_index + 5 <= BIT_CELLS,
            old(common).unlimited_index + 2 <= ETABLE_STEP_SIZE,
            old(common).u64_on_u8_index + 2 <= 4,
            old(common).pow_table_lookup_index + 1 <= 3,
            old(common).mtable_lookup_index + 2 <= 11,
        ensures
            r == unary_layout(*old(common)),
            r.wf(),
            final(common).wf(),
    {
        let operand = common.alloc_u64();
        let result = common.alloc_u64();
        let operand_is_zero = common.alloc_bit_value();
        let operand_inv = common.alloc_unlimited_value();
        let boundary = common.alloc_unlimited_value();
        let aux1 = common.alloc_u64_on_u8();
        let aux2 = common.alloc_u64_on_u8();
        let is_ctz = common.alloc_bit_value();
        let is_clz = common.alloc_bit_value();
        let is_popcnt = common.alloc_bit_value();
        let is_64bits = common.alloc_bit_value();
        let lookup_pow = common.alloc_pow_table_lookup();
        let lookup_stack_read = common.alloc_mtable_lookup();
        let lookup_stack_write = common.alloc_mtable_lookup();
        UnaryConfig {
            operand,
            result,
            operand_is_zero,
            operand_inv,
            boundary,
            aux1,
            aux2,
            is_ctz,
            is_clz,
            is_popcnt,
            is_64bits,
            lookup_pow,
            lookup_stack_read,
            lookup_stack_write,
        }
    }
}

/// The number of bits of the operand.
pub open spec fn unary_bits(vtype: VarType) -> nat {
    if vtype == VarType::I32 {
        32
    } else {
        64
    }
}

/// The boundary of `clz` with result `r`: the bit just below the `r`
/// leading zeros, or zero where there is none.
pub open spec fn clz_boundary(vtype: VarType, r: u64) -> u64 {
    if 1 + r < unary_bits(vtype) + 1 {
        pow2((unary_bits(vtype) - 1 - r) as nat) as u64
    } else {
        0
    }
}

/// The bits of a 64-bit value below its bit `k`.
pub open spec fn bits_below(x: u64, k: nat) -> int {
    x as int % pow2(k) as int
}

/// The values that a counting step puts in the gadget's cells; the cells
/// that the selected operator does not use hold zero.
#[derive(Clone, Copy, Debug, PartialEq, Eq, Structural)]
pub struct UnaryWitness {
    pub operand: u64,
    pub result: u64,
    pub is_64bits: bool,
    pub operand_inv: FieldValue,
    pub operand_is_zero: bool,
    pub is_ctz: bool,
    pub is_clz: bool,
    pub is_popcnt: bool,
    pub boundary: u128,
    pub aux1: u64,
    pub aux2: u64,
    pub pow: u64,
    pub pow_assigned: bool,
}

/// The values that the gadget assigns for a `ctz` or `clz` step, the
/// inverse of the operand aside: for `ctz` the bits above the lowest set
/// one and that bit's power; for `clz` the highest set bit's power, the
/// bits below it and their complement below it.
pub open spec fn unary_witness_ok(w: UnaryWitness, class: UnaryOp, vtype: VarType, operand: u64, result: u64) -> bool {
    let n = unary_bits(vtype);
    &&& w.operand == operand
    &&& w.result == result
    &&& w.is_64bits == (vtype == VarType::I64)
    &&& w.operand_is_zero == (operand == 0)
    &&& w.operand_inv.wf()
    &&& (operand == 0 ==> w.operand_inv.value() == 0)
    &&& (operand != 0 ==> (operand as int * w.operand_inv.value()) % modulus() == 1)
    &&& w.is_ctz == (class == UnaryOp::Ctz)
    &&& w.is_clz == (class == UnaryOp::Clz)
    &&& !w.is_popcnt
    &&& (class == UnaryOp::Ctz ==> {
        &&& w.boundary == pow2(result as nat)
        &&& w.aux1 == operand as int / pow2((result + 1) as nat) as int
        &&& w.aux2 == 0
        &&& w.pow == result
        &&& w.pow_assigned
    })
    &&& (class == UnaryOp::Clz ==> {
        let b = clz_boundary(vtype, result);
        &&& w.boundary == b
        &&& w.aux1 == operand ^ b
        &&& w.aux2 == if (operand ^ b) < b { b - (operand ^ b) - 1 } else { 0 }
        &&& w.pow_assigned == (b != 0)
        &&& (b != 0 ==> w.pow == n - result - 1)
        &&& (b == 0 ==> w.pow == 0)
    })
}

/// A step of `ctz` or `clz` whose result is the count that WebAssembly
/// defines: for `ctz` the bits below the lowest set bit, and the width for
/// zero; for `clz` the bits above the highest set bit, and the width for
/// zero.
pub open spec fn unary_step_valid(class: UnaryOp, vtype: VarType, operand: u64, result: u64) -> bool {
    let n = unary_bits(vtype);
    &&& operand < pow2(n)
    &&& match class {
        UnaryOp::Ctz => if operand == 0 {
            result == n
        } else {
            &&& result < n
            &&& bits_below(operand, result as nat) == 0
            &&& (operand as int / pow2(result as nat) as int) % 2 == 1
        },
        UnaryOp::Clz => if operand == 0 {
            result == n
        } else {
            &&& result < n
            &&& pow2((n - 1 - result) as nat) <= operand < pow2((n - result) as nat)
        },
        UnaryOp::Popcnt => false,
    }
}

/// The gates of the gadget and its power table lookup: one operator is
/// selected; the zero flag is set exactly for a zero operand; for `clz` a
/// zero operand counts the width, and otherwise the operand is the
/// boundary plus the bits below it, those bits and their complement make
/// the boundary less one, and the boundary is two to the bits above the
/// count; for `ctz` a zero operand counts the width, otherwise the operand
/// is the boundary plus twice the boundary times the bits above it, and
/// the boundary is two to the count.
pub open spec fn unary_gates(w: UnaryWitness) -> bool {
    let n = 32 + 32 * b2i(w.is_64bits);
    let nz = 1 - b2i(w.operand_is_zero);
    let lookup = pow_table_entry(w.pow as nat);
    let clz = b2i(w.is_clz);
    let ctz = b2i(w.is_ctz);
    &&& fzero(b2i(w.is_ctz) + b2i(w.is_clz) + b2i(w.is_popcnt) - 1)
    &&& fzero(b2i(w.operand_is_zero) * w.operand)
    &&& fzero(w.operand * w.operand_inv.value() - 1 + b2i(w.operand_is_zero))
    &&& fzero(clz * b2i(w.operand_is_zero) * (w.result - n))
    &&& fzero(clz * nz * (w.boundary + w.aux1 - w.operand))
    &&& fzero(clz * nz * (w.aux1 + w.aux2 + 1 - w.boundary))
    &&& fzero(clz * nz * (lookup - pow_table_encode(w.boundary as int, n - w.result - 1)))
    &&& fzero(ctz * b2i(w.operand_is_zero) * (w.result - n))
    &&& fzero(ctz * nz * (w.aux1 * w.boundary * 2 + w.boundary - w.operand))
    &&& fzero(ctz * (lookup - pow_table_encode(w.boundary as int, w.result as int)))
    &&& (w.pow_assigned ==> in_pow_table(lookup))
}

/// Whether the zero flag and the inverse meet their constraints.
fn unary_zero_hold(w: &UnaryWitness) -> (b: bool)
    ensures
        b == (fzero(b2i(w.operand_is_zero) * w.operand) && fzero(
            w.operand * w.operand_inv.value() - 1 + b2i(w.operand_is_zero),
        )),
{
    let z: u64 = if w.operand_is_zero { 1 } else { 0 };
    let prod = field_mul(FieldValue::from_u64(w.operand), w.operand_inv);
    let d = field_sub(prod, FieldValue::from_u64(1 - z));
    proof {
        let m = modulus();
        let x = w.operand * w.operand_inv.value();
        vstd::arithmetic::div_mod::lemma_sub_mod_noop(x, 1 - z, m);
        vstd::arithmetic::div_mod::lemma_small_mod((1 - z) as nat, m as nat);
        assert(x - 1 + b2i(w.operand_is_zero) == x - (1 - z));
        vstd::arithmetic::mul::lemma_mul_basics(w.operand as int);
        lemma_fzero_small(b2i(w.operand_is_zero) * w.operand);
    }
    let first = !w.operand_is_zero || w.operand == 0;
    first && d.is_zero()
}

/// Whether `boundary` times `2 aux1 + 1` is `operand`: the `ctz`
/// decomposition of a nonzero operand.
fn ctz_split_hold(aux1: u64, boundary: u128, operand: u64) -> (b: bool)
    ensures
        b == fzero(aux1 * boundary * 2 + boundary - operand),
{
    let q: u128 = 2 * (aux1 as u128) + 1;
    let op = operand as u128;
    proof {
        assert(aux1 * boundary * 2 + boundary == boundary * q) by (nonlinear_arith)
            requires
                q == 2 * aux1 + 1,
        ;
        vstd::arithmetic::div_mod::lemma_fundamental_div_mod(op as int, q as int);
        vstd::arithmetic::div_mod::lemma_mod_bound(op as int, q as int);
        vstd::arithmetic::div_mod::lemma_div_pos_is_pos(op as int, q as int);
        lemma2_to64();
        lemma_pow2_adds(64, 64);
        assert(0 <= boundary * q <= 0xffff_ffff_ffff_ffff_ffff_ffff_ffff_ffff * 0x3_0000_0000_0000_0000) by (nonlinear_arith)
            requires
                boundary <= 0xffff_ffff_ffff_ffff_ffff_ffff_ffff_ffff,
                1 <= q <= 0x3_0000_0000_0000_0000,
        ;
        assert(modulus() > 0xffff_ffff_ffff_ffff_ffff_ffff_ffff_ffff * 0x3_0000_0000_0000_0000);
        lemma_fzero_small(boundary * q - operand);
        if boundary * q == op {
            vstd::arithmetic::div_mod::lemma_fundamental_div_mod_converse(op as int, q as int, boundary as int, 0);
        }
        if op % q == 0 && op / q == boundary {
            assert(op == q * (op / q));
            assert(boundary * q == q * boundary) by (nonlinear_arith);
        }
    }
    op % q == 0 && op / q == boundary
}

/// The power table entry of `power`, for a power below 100.
fn pow_entry_small(power: u64) -> (r: u128)
    requires
        power < 100,
    ensures
        r == pow_table_entry(power as nat),
        r < 0x10_0000_0000_0000_0000_0000_0000_0000int,
{
    let s: u64 = power + 16;
    proof {
        lemma2_to64();
        vstd::arithmetic::power2::lemma2_to64_rest();
        if s < 115 {
            vstd::arithmetic::power2::lemma_pow2_strictly_increases(s as nat, 115);
        }
        vstd::arithmetic::power2::lemma_pow2_strictly_increases(115, 116);
        lemma_pow2_adds(64, 52);
    }
    let p: u128 = if s < 64 {
        proof {
            vstd::bits::lemma_u64_pow2_no_overflow(s as nat);
            vstd::bits::lemma_u64_shl_is_mul(1, s);
        }
        (1u64 << s) as u128
    } else {
        proof {
            vstd::bits::lemma_u64_pow2_no_overflow((s - 64) as nat);
            vstd::bits::lemma_u64_shl_is_mul(1, (s - 64) as u64);
            lemma_pow2_adds(64, (s - 64) as nat);
            if s - 64 < 52 {
                vstd::arithmetic::power2::lemma_pow2_strictly_increases((s - 64) as nat, 52);
            }
            assert(pow2((s - 64) as nat) * 0x1_0000_0000_0000_0000 <= pow2(52) * 0x1_0000_0000_0000_0000) by (nonlinear_arith)
                requires
                    pow2((s - 64) as nat) <= pow2(52),
            ;
        }
        ((1u64 << ((s - 64) as u64)) as u128) * 0x1_0000_0000_0000_0000
    };
    proof {
        assert(pow2(116) == 0x1_0000_0000_0000_0000 * 0x10_0000_0000_0000);
        assert(p == pow2(s as nat));
    }
    p + power as u128
}

/// Whether the gates and the power table lookup hold on the values `w`
/// of a counting step, where the power is below 100, the boundary below two
/// to the 100th and the result below two to the 32nd, as the gadget
/// assigns them.
pub fn unary_gates_hold(w: &UnaryWitness) -> (b: bool)
    requires
        w.pow < 100,
        w.boundary < 0x10_0000_0000_0000_0000_0000_0000,
        w.result < 0x1_0000_0000,
    ensures
        b == unary_gates(*w),
{
    let n: i128 = if w.is_64bits { 64 } else { 32 };
    let clz = w.is_clz;
    let ctz = w.is_ctz;
    let zero = w.operand_is_zero;
    let sel: i128 = (if w.is_ctz { 1i128 } else { 0 }) + (if w.is_clz { 1i128 } else { 0 }) + (if w.is_popcnt {
        1i128
    } else {
        0
    }) - 1;
    let z = unary_zero_hold(w);
    let res: i128 = w.result as i128;
    let bd: i128 = w.boundary as i128;
    let entry = pow_entry_small(w.pow);
    let lookup: i128 = entry as i128;
    let c1: i128 = res - n;
    let c2: i128 = bd + w.aux1 as i128 - w.operand as i128;
    let c3: i128 = w.aux1 as i128 + w.aux2 as i128 + 1 - bd;
    let c4: i128 = lookup - (bd * 0x10000 + (n - res - 1));
    let t4: i128 = lookup - (bd * 0x10000 + res);
    let split = ctz_split_hold(w.aux1, w.boundary, w.operand);
    let in_table = check_pow_table(entry);
    proof {
        let nn = 32 + 32 * b2i(w.is_64bits);
        assert(n == nn);
        let nz = 1 - b2i(w.operand_is_zero);
        let cl = b2i(w.is_clz);
        let ct = b2i(w.is_ctz);
        let zz = b2i(w.operand_is_zero);
        lemma_fzero_small(sel as int);
        lemma_fzero_small(c1 as int);
        lemma_fzero_small(c2 as int);
        lemma_fzero_small(c3 as int);
        lemma_fzero_small(c4 as int);
        lemma_fzero_small(t4 as int);
        assert(c4 == pow_table_entry(w.pow as nat) - pow_table_encode(w.boundary as int, nn - w.result - 1));
        assert(t4 == pow_table_entry(w.pow as nat) - pow_table_encode(w.boundary as int, w.result as int));
        vstd::arithmetic::mul::lemma_mul_basics(c1 as int);
        vstd::arithmetic::mul::lemma_mul_basics(c2 as int);
        vstd::arithmetic::mul::lemma_mul_basics(c3 as int);
        vstd::arithmetic::mul::lemma_mul_basics(c4 as int);
        vstd::arithmetic::mul::lemma_mul_basics(t4 as int);
        vstd::arithmetic::mul::lemma_mul_basics(w.aux1 * w.boundary * 2 + w.boundary - w.operand);
        assert(fzero(0));
        assert(cl * zz == if w.is_clz && w.operand_is_zero { 1int } else { 0int });
        assert(cl * nz == if w.is_clz && !w.operand_is_zero { 1int } else { 0int });
        assert(ct * zz == if w.is_ctz && w.operand_is_zero { 1int } else { 0int });
        assert(ct * nz == if w.is_ctz && !w.operand_is_zero { 1int } else { 0int });
    }
    let g_clz_zero = !(clz && zero) || c1 == 0;
    let g_clz = !(clz && !zero) || (c2 == 0 && c3 == 0 && c4 == 0);
    let g_ctz_zero = !(ctz && zero) || c1 == 0;
    let g_ctz = !(ctz && !zero) || split;
    let g_ctz_pow = !ctz || t4 == 0;
    let g_table = !w.pow_assigned || in_table;
    sel == 0 && z && g_clz_zero && g_clz && g_ctz_zero && g_ctz && g_ctz_pow && g_table
}

/// The field value of a 128-bit integer.
pub open spec fn fv_u128(x: u128) -> FieldValue {
    FieldValue { l0: (x as int % two64()) as u64, l1: (x as int / two64()) as u64, l2: 0, l3: 0 }
}

/// The field value of a 128-bit integer, as two limbs.
fn field_value_u128(x: u128) -> (r: FieldValue)
    ensures
        r == fv_u128(x),
        r.value() == x,
{
    let lo: u128 = x % 0x1_0000_0000_0000_0000;
    let hi: u128 = x / 0x1_0000_0000_0000_0000;
    FieldValue { l0: lo as u64, l1: hi as u64, l2: 0, l3: 0 }
}

/// Computes the values that the gadget assigns for a `ctz` or `clz` step.
pub fn unary_witness(class: UnaryOp, vtype: VarType, operand: u64, result: u64) -> (w: UnaryWitness)
    requires
        class != UnaryOp::Popcnt,
        result <= 64,
    ensures
        unary_witness_ok(w, class, vtype, operand, result),
{
    let inv = invert_or_zero(operand);
    let bits: u64 = match vtype {
        VarType::I32 => 32,
        VarType::I64 => 64,
    };
    proof {
        lemma2_to64();
    }
    match class {
        UnaryOp::Ctz => {
            let hd: u64 = if result + 1 < 64 {
                let sh: u64 = result + 1;
                proof {
                    vstd::bits::lemma_u64_shr_is_div(operand, sh);
                }
                operand >> sh
            } else {
                proof {
                    if result + 1 > 64 {
                        lemma_pow2_strictly_increases(64, (result + 1) as nat);
                    }
                    vstd::arithmetic::div_mod::lemma_basic_div(operand as int, pow2((result + 1) as nat) as int);
                }
                0
            };
            let boundary: u128 = if result < 64 {
                proof {
                    vstd::bits::lemma_u64_pow2_no_overflow(result as nat);
                    vstd::bits::lemma_u64_shl_is_mul(1, result);
                }
                (1u64 << result) as u128
            } else {
                0x1_0000_0000_0000_0000
            };
            UnaryWitness {
                operand,
                result,
                is_64bits: bits == 64,
                operand_inv: inv,
                operand_is_zero: operand == 0,
                is_ctz: true,
                is_clz: false,
                is_popcnt: false,
                boundary,
                aux1: hd,
                aux2: 0,
                pow: result,
                pow_assigned: true,
            }
        },
        _ => {
            let b: u64 = if result < bits {
                let sh: u64 = bits - 1 - result;
                proof {
                    vstd::bits::lemma_u64_pow2_no_overflow(sh as nat);
                    vstd::bits::lemma_u64_shl_is_mul(1, sh);
                }
                1u64 << sh
            } else {
                0
            };
            let tail: u64 = operand ^ b;
            let aux2: u64 = if tail < b {
                b - tail - 1
            } else {
                0
            };
            let pow: u64 = if b != 0 {
                bits - result - 1
            } else {
                0
            };
            UnaryWitness {
                operand,
                result,
                is_64bits: bits == 64,
                operand_inv: inv,
                operand_is_zero: operand == 0,
                is_ctz: false,
                is_clz: true,
                is_popcnt: false,
                boundary: b as u128,
                aux1: tail,
                aux2,
                pow,
                pow_assigned: b != 0,
            }
        },
    }
}

proof fn lemma_xor_top_bit_bv(x: u64, b: u64, k: u64)
    by (bit_vector)
    requires
        k < 64,
        b == 1u64 << k,
        b <= x,
        x - b < b,
    ensures
        x ^ b == x - b,
{
}

/// Flipping the highest set bit of `x`, two to the `k`, takes it away.
proof fn lemma_xor_top_bit(x: u64, k: nat)
    requires
        k < 64,
        pow2(k) <= x < 2 * pow2(k),
    ensures
        x ^ (pow2(k) as u64) == x - pow2(k),
{
    vstd::bits::lemma_u64_pow2_no_overflow(k);
    vstd::bits::lemma_u64_shl_is_mul(1, k as u64);
    lemma_xor_top_bit_bv(x, 1u64 << (k as u64), k as u64);
}

/// The zero flag and the inverse of a valid step meet their gates.
proof fn lemma_unary_complete_zero(w: UnaryWitness, class: UnaryOp, vtype: VarType, operand: u64, result: u64)
    requires
        unary_witness_ok(w, class, vtype, operand, result),
    ensures
        fzero(b2i(w.operand_is_zero) * w.operand),
        fzero(w.operand * w.operand_inv.value() - 1 + b2i(w.operand_is_zero)),
{
    if operand == 0 {
        assert(b2i(w.operand_is_zero) * w.operand == 0);
        assert(w.operand * w.operand_inv.value() - 1 + b2i(w.operand_is_zero) == 0);
    } else {
        assert(b2i(w.operand_is_zero) * w.operand == 0);
        let p = w.operand * w.operand_inv.value();
        vstd::arithmetic::div_mod::lemma_fundamental_div_mod(p, modulus());
        vstd::arithmetic::div_mod::lemma_fundamental_div_mod_converse(p - 1, modulus(), p / modulus(), 0);
    }
    assert(fzero(0));
}

/// The `ctz` gates of a valid `ctz` step hold.
proof fn lemma_unary_complete_ctz(w: UnaryWitness, vtype: VarType, operand: u64, result: u64)
    requires
        unary_step_valid(UnaryOp::Ctz, vtype, operand, result),
        unary_witness_ok(w, UnaryOp::Ctz, vtype, operand, result),
    ensures
        fzero(b2i(w.operand_is_zero) * (w.result - (32 + 32 * b2i(w.is_64bits)))),
        fzero((1 - b2i(w.operand_is_zero)) * (w.aux1 * w.boundary * 2 + w.boundary - w.operand)),
        fzero(pow_table_entry(w.pow as nat) - pow_table_encode(w.boundary as int, w.result as int)),
        in_pow_table(pow_table_entry(w.pow as nat)),
{
    let n = unary_bits(vtype);
    let r = result as nat;
    lemma2_to64();
    lemma_pow2_pos(r);
    lemma_pow2_adds(r, 16);
    lemma_pow2_adds(r, 1);
    assert(pow_table_entry(w.pow as nat) == pow_table_encode(w.boundary as int, w.result as int));
    assert(in_pow_table(pow_table_entry(w.pow as nat)));
    if operand == 0 {
        assert(w.result - (32 + 32 * b2i(w.is_64bits)) == 0);
        assert((1 - b2i(w.operand_is_zero)) == 0);
    } else {
        assert(b2i(w.operand_is_zero) == 0);
        let x = operand as int;
        let p = pow2(r) as int;
        let q = x / p;
        vstd::arithmetic::div_mod::lemma_fundamental_div_mod(x, p);
        vstd::arithmetic::div_mod::lemma_fundamental_div_mod(q, 2);
        vstd::arithmetic::div_mod::lemma_div_denominator(x, p, 2);
        assert(w.aux1 == q / 2);
        assert(x == p * q);
        assert(q == 2 * (q / 2) + 1);
        assert(x == w.aux1 * p * 2 + p) by (nonlinear_arith)
            requires
                x == p * q,
                q == 2 * (q / 2) + 1,
                w.aux1 == q / 2,
        ;
        assert((1 - b2i(w.operand_is_zero)) * (w.aux1 * w.boundary * 2 + w.boundary - w.operand) == 0);
    }
    assert(fzero(0));
}

/// The `clz` gates of a valid `clz` step hold.
proof fn lemma_unary_complete_clz(w: UnaryWitness, vtype: VarType, operand: u64, result: u64)
    requires
        unary_step_valid(UnaryOp::Clz, vtype, operand, result),
        unary_witness_ok(w, UnaryOp::Clz, vtype, operand, result),
    ensures
        fzero(b2i(w.operand_is_zero) * (w.result - (32 + 32 * b2i(w.is_64bits)))),
        fzero((1 - b2i(w.operand_is_zero)) * (w.boundary + w.aux1 - w.operand)),
        fzero((1 - b2i(w.operand_is_zero)) * (w.aux1 + w.aux2 + 1 - w.boundary)),
        fzero(
            (1 - b2i(w.operand_is_zero)) * (pow_table_entry(w.pow as nat) - pow_table_encode(
                w.boundary as int,
                32 + 32 * b2i(w.is_64bits) - w.result - 1,
            )),
        ),
        w.pow_assigned ==> in_pow_table(pow_table_entry(w.pow as nat)),
{
    let n = unary_bits(vtype);
    lemma2_to64();
    if operand == 0 {
        assert(w.result - (32 + 32 * b2i(w.is_64bits)) == 0);
        assert(1 - b2i(w.operand_is_zero) == 0);
        assert(fzero(0));
    } else {
        let k = (n - 1 - result) as nat;
        lemma_pow2_pos(k);
        lemma_pow2_adds(k, 1);
        lemma_pow2_adds(k, 16);
        vstd::bits::lemma_u64_pow2_no_overflow(k);
        assert(k + 1 == n - result);
        assert(w.boundary == pow2(k));
        lemma_xor_top_bit(operand, k);
        assert(w.aux1 == operand - pow2(k));
        assert(b2i(w.operand_is_zero) == 0);
        assert(w.boundary + w.aux1 - w.operand == 0);
        assert(w.aux1 + w.aux2 + 1 - w.boundary == 0);
        assert(pow_table_entry(w.pow as nat) == pow_table_encode(w.boundary as int, 32 + 32 * b2i(w.is_64bits) - w.result - 1));
        assert(in_pow_table(pow_table_entry(w.pow as nat)));
        assert(fzero(0));
    }
}

/// Completeness: the values that the gadget assigns for a valid `ctz` or
/// `clz` step satisfy its gates and its power table lookup.
pub proof fn lemma_unary_complete(w: UnaryWitness, class: UnaryOp, vtype: VarType, operand: u64, result: u64)
    requires
        unary_step_valid(class, vtype, operand, result),
        unary_witness_ok(w, class, vtype, operand, result),
    ensures
        unary_gates(w),
{
    lemma_unary_complete_zero(w, class, vtype, operand, result);
    assert(fzero(0));
    if class == UnaryOp::Ctz {
        lemma_unary_complete_ctz(w, vtype, operand, result);
        assert(b2i(w.is_clz) == 0);
        assert(b2i(w.is_ctz) == 1);
    } else {
        lemma_unary_complete_clz(w, vtype, operand, result);
        assert(b2i(w.is_clz) == 1);
        assert(b2i(w.is_ctz) == 0);
    }
}

/// The assignments that the gadget makes for a `ctz` or `clz` step: the
/// operand, the result, the width flag, the inverse and the zero flag; then
/// for `ctz` its flag, the bits above the lowest set one, the boundary and
/// the power; for `clz` its flag, the boundary, the bits below it, their
/// complement, and the power where the boundary is not zero.
pub open spec fn unary_writes(c: UnaryConfig, o: int, w: UnaryWitness) -> Seq<CellWrite> {
    u64_cell_writes(c.operand, o, w.operand) + u64_cell_writes(c.result, o, w.result) + bit_writes(
        c.is_64bits,
        o,
        w.is_64bits,
    ) + one_write(c.operand_inv.col, o, c.operand_inv.rot as int, w.operand_inv) + bit_writes(
        c.operand_is_zero,
        o,
        w.operand_is_zero,
    ) + if w.is_ctz {
        bit_writes(c.is_ctz, o, true) + u64_on_u8_cell_writes(c.aux1, o, w.aux1) + one_write(
            c.boundary.col,
            o,
            c.boundary.rot as int,
            fv_u128(w.boundary),
        ) + one_write(c.lookup_pow.col, o, c.lookup_pow.rot as int, pow_table_value(w.pow))
    } else {
        bit_writes(c.is_clz, o, true) + one_write(c.boundary.col, o, c.boundary.rot as int, fv_u128(w.boundary))
            + u64_on_u8_cell_writes(c.aux1, o, w.aux1) + u64_on_u8_cell_writes(c.aux2, o, w.aux2) + if w.pow_assigned {
            one_write(c.lookup_pow.col, o, c.lookup_pow.rot as int, pow_table_value(w.pow))
        } else {
            Seq::empty()
        }
    }
}

/// What a counting step writes: the operand to the operand cell, the count
/// to the result cell, the width flag to its bit and whether the operand
/// is zero to the zero bit.
pub proof fn lemma_unary_writes_cells(c: UnaryConfig, off: int, w: UnaryWitness)
    ensures
        crate::circuits::etable_compact::op_configure::has_write(unary_writes(c, off, w), c.operand.value_col, off + c.operand.value_rot, crate::circuits::utils::fv_u64(w.operand)),
        crate::circuits::etable_compact::op_configure::has_write(unary_writes(c, off, w), c.result.value_col, off + c.result.value_rot, crate::circuits::utils::fv_u64(w.result)),
        crate::circuits::etable_compact::op_configure::has_write(unary_writes(c, off, w), c.is_64bits.col, off + c.is_64bits.rot, crate::circuits::utils::fv_bool(w.is_64bits)),
        crate::circuits::etable_compact::op_configure::has_write(unary_writes(c, off, w), c.operand_is_zero.col, off + c.operand_is_zero.rot, crate::circuits::utils::fv_bool(w.operand_is_zero)),
{
    let p0 = u64_cell_writes(c.operand, off, w.operand);
    let p1 = u64_cell_writes(c.result, off, w.result);
    let p2 = bit_writes(c.is_64bits, off, w.is_64bits);
    let p3 = one_write(c.operand_inv.col, off, c.operand_inv.rot as int, w.operand_inv);
    let p4 = bit_writes(c.operand_is_zero, off, w.operand_is_zero);
    let p5 = (if w.is_ctz { bit_writes(c.is_ctz, off, true) + u64_on_u8_cell_writes(c.aux1, off, w.aux1) + one_write(c.boundary.col, off, c.boundary.rot as int, fv_u128(w.boundary)) + one_write(c.lookup_pow.col, off, c.lookup_pow.rot as int, pow_table_value(w.pow)) } else { bit_writes(c.is_clz, off, true) + one_write(c.boundary.col, off, c.boundary.rot as int, fv_u128(w.boundary)) + u64_on_u8_cell_writes(c.aux1, off, w.aux1) + u64_on_u8_cell_writes(c.aux2, off, w.aux2) + if w.pow_assigned { one_write(c.lookup_pow.col, off, c.lookup_pow.rot as int, pow_table_value(w.pow)) } else { Seq::empty() } });
    assert(unary_writes(c, off, w) =~= p0 + p1 + p2 + p3 + p4 + p5);
    {
        crate::circuits::etable_compact::op_configure::lemma_u64_cell_writes_value(c.operand, off, w.operand);
        crate::circuits::etable_compact::op_configure::lemma_has_write_append(p0, p1, c.operand.value_col, off + c.operand.value_rot, crate::circuits::utils::fv_u64(w.operand));
        crate::circuits::etable_compact::op_configure::lemma_has_write_append(p0 + p1, p2, c.operand.value_col, off + c.operand.value_rot, crate::circuits::utils::fv_u64(w.operand));
        crate::circuits::etable_compact::op_configure::lemma_has_write_append(p0 + p1 + p2, p3, c.operand.value_col, off + c.operand.value_rot, crate::circuits::utils::fv_u64(w.operand));
        crate::circuits::etable_compact::op_configure::lemma_has_write_append(p0 + p1 + p2 + p3, p4, c.operand.value_col, off + c.operand.value_rot, crate::circuits::utils::fv_u64(w.operand));
        crate::circuits::etable_compact::op_configure::lemma_has_write_append(p0 + p1 + p2 + p3 + p4, p5, c.operand.value_col, off + c.operand.value_rot, crate::circuits::utils::fv_u64(w.operand));
    }
    {
        crate::circuits::etable_compact::op_configure::lemma_u64_cell_writes_value(c.result, off, w.result);
        crate::circuits::etable_compact::op_configure::lemma_has_write_append(p0, p1, c.result.value_col, off + c.result.value_rot, crate::circuits::utils::fv_u64(w.result));
        crate::circuits::etable_compact::op_configure::lemma_has_write_append(p0 + p1, p2, c.result.value_col, off + c.result.value_rot, crate::circuits::utils::fv_u64(w.result));
        crate::circuits::etable_compact::op_configure::lemma_has_write_append(p0 + p1 + p2, p3, c.result.value_col, off + c.result.value_rot, crate::circuits::utils::fv_u64(w.result));
        crate::circuits::etable_compact::op_configure::lemma_has_write_append(p0 + p1 + p2 + p3, p4, c.result.value_col, off + c.result.value_rot, crate::circuits::utils::fv_u64(w.result));
        crate::circuits::etable_compact::op_configure::lemma_has_write_append(p0 + p1 + p2 + p3 + p4, p5, c.result.value_col, off + c.result.value_rot, crate::circuits::utils::fv_u64(w.result));
    }
    {
        crate::circuits::etable_compact::op_configure::lemma_has_write_one(c.is_64bits.col, off, c.is_64bits.rot as int, crate::circuits::utils::fv_bool(w.is_64bits));
        crate::circuits::etable_compact::op_configure::lemma_has_write_append(p0, p1, c.is_64bits.col, off + c.is_64bits.rot, crate::circuits::utils::fv_bool(w.is_64bits));
        crate::circuits::etable_compact::op_configure::lemma_has_write_append(p0 + p1, p2, c.is_64bits.col, off + c.is_64bits.rot, crate::circuits::utils::fv_bool(w.is_64bits));
        crate::circuits::etable_compact::op_configure::lemma_has_write_append(p0 + p1 + p2, p3, c.is_64bits.col, off + c.is_64bits.rot, crate::circuits::utils::fv_bool(w.is_64bits));
        crate::circuits::etable_compact::op_configure::lemma_has_write_append(p0 + p1 + p2 + p3, p4, c.is_64bits.col, off + c.is_64bits.rot, crate::circuits::utils::fv_bool(w.is_64bits));
        crate::circuits::etable_compact::op_configure::lemma_has_write_append(p0 + p1 + p2 + p3 + p4, p5, c.is_64bits.col, off + c.is_64bits.rot, crate::circuits::utils::fv_bool(w.is_64bits));
    }
    {
        crate::circuits::etable_compact::op_configure::lemma_has_write_one(c.operand_is_zero.col, off, c.operand_is_zero.rot as int, crate::circuits::utils::fv_bool(w.operand_is_zero));
        crate::circuits::etable_compact::op_configure::lemma_has_write_append(p0, p1, c.operand_is_zero.col, off + c.operand_is_zero.rot, crate::circuits::utils::fv_bool(w.operand_is_zero));
        crate::circuits::etable_compact::op_configure::lemma_has_write_append(p0 + p1, p2, c.operand_is_zero.col, off + c.operand_is_zero.rot, crate::circuits::utils::fv_bool(w.operand_is_zero));
        crate::circuits::etable_compact::op_configure::lemma_has_write_append(p0 + p1 + p2, p3, c.operand_is_zero.col, off + c.operand_is_zero.rot, crate::circuits::utils::fv_bool(w.operand_is_zero));
        crate::circuits::etable_compact::op_configure::lemma_has_write_append(p0 + p1 + p2 + p3, p4, c.operand_is_zero.col, off + c.operand_is_zero.rot, crate::circuits::utils::fv_bool(w.operand_is_zero));
        crate::circuits::etable_compact::op_configure::lemma_has_write_append(p0 + p1 + p2 + p3 + p4, p5, c.operand_is_zero.col, off + c.operand_is_zero.rot, crate::circuits::utils::fv_bool(w.operand_is_zero));
    }
}

impl UnaryConfig {
    /// Assigns the gadget's cells for a `ctz` or `clz` step, and gives the
    /// values assigned.
    #[verifier::rlimit(40)]
    fn assign_cells(&self, ctx: &mut Context, step: &StepInfo) -> (w: UnaryWitness)
        requires
            self.wf(),
            old(ctx).offset + 40 <= i32::MAX,
            step is UnaryOp,
            step->UnaryOp_class != UnaryOp::Popcnt,
            step->UnaryOp_result <= 64,
        ensures
            unary_witness_ok(w, step->UnaryOp_class, step->UnaryOp_vtype, step->operand, step->UnaryOp_result),
            final(ctx).offset == old(ctx).offset,
            final(ctx).writes@ == old(ctx).writes@ + unary_writes(*self, old(ctx).offset as int, w),
    {
        let (class, vtype, operand, result) = match step {
            StepInfo::UnaryOp { class, vtype, operand, result } => (*class, *vtype, *operand, *result),
            _ => (UnaryOp::Ctz, VarType::I32, 0, 0),
        };
        let w = unary_witness(class, vtype, operand, result);
        let ghost s0 = old(ctx).writes@;
        let ghost o = old(ctx).offset as int;
        self.operand.assign(ctx, w.operand);
        self.result.assign(ctx, w.result);
        self.is_64bits.assign(ctx, w.is_64bits);
        self.operand_inv.assign(ctx, w.operand_inv);
        self.operand_is_zero.assign(ctx, w.operand_is_zero);
        let ghost s1 = ctx.writes@;
        proof {
            assert(s1 =~= s0 + (u64_cell_writes(self.operand, o, w.operand) + u64_cell_writes(self.result, o, w.result)
                + bit_writes(self.is_64bits, o, w.is_64bits) + one_write(
                self.operand_inv.col,
                o,
                self.operand_inv.rot as int,
                w.operand_inv,
            ) + bit_writes(self.operand_is_zero, o, w.operand_is_zero)));
        }
        let bv = field_value_u128(w.boundary);
        if w.is_ctz {
            self.is_ctz.assign(ctx, true);
            self.aux1.assign(ctx, w.aux1);
            self.boundary.assign(ctx, bv);
            self.lookup_pow.assign(ctx, w.pow);
            proof {
                assert(ctx.writes@ =~= s0 + unary_writes(*self, o, w));
            }
        } else {
            self.is_clz.assign(ctx, true);
            self.boundary.assign(ctx, bv);
            self.aux1.assign(ctx, w.aux1);
            self.aux2.assign(ctx, w.aux2);
            if w.pow_assigned {
                self.lookup_pow.assign(ctx, w.pow);
            }
            proof {
                assert(ctx.writes@ =~= s0 + unary_writes(*self, o, w));
            }
        }
        w
    }

    /// Assigns the step's cells, as `assign_cells` does, and the
    /// encodings `enc` of the step's stack and memory accesses to its
    /// memory table lookup cells, in order.
    pub fn assign(&self, ctx: &mut Context, step: &StepInfo, enc: &Vec<FieldValue>) -> (w: UnaryWitness)
        requires
            enc.len() == 2,
            self.wf(),
            old(ctx).offset + 40 <= i32::MAX,
            step is UnaryOp,
            step->UnaryOp_class != UnaryOp::Popcnt,
            step->UnaryOp_result <= 64,
        ensures
            unary_witness_ok(w, step->UnaryOp_class, step->UnaryOp_vtype, step->operand, step->UnaryOp_result),
            final(ctx).offset == old(ctx).offset,
            final(ctx).writes@ == old(ctx).writes@ + unary_writes(*self, old(ctx).offset as int, w) + mtable_lookup_writes(
                self.lookups(),
                old(ctx).offset as int,
                enc@,
            ),
    {
        let w = self.assign_cells(ctx, step);
        let mut cells: Vec<MTableLookupCell> = Vec::new();
        cells.push(self.lookup_stack_read);
        cells.push(self.lookup_stack_write);
        proof {
            assert(cells@ =~= self.lookups());
        }
        assign_mtable_lookups(ctx, &cells, enc);
        w
    }
}

/// A power table lookup of a 128-bit modulus and a power below two to the
/// sixteenth pins the modulus to two to that power.
proof fn lemma_unary_pow_lookup(pow: u64, boundary: u128, power: int)
    requires
        0 <= power < 0x10000,
        in_pow_table(pow_table_entry(pow as nat)),
        fzero(pow_table_entry(pow as nat) - pow_table_encode(boundary as int, power)),
    ensures
        power < 128,
        boundary == pow2(power as nat),
{
    let k = choose|k: nat| k < 128 && pow_table_entry(pow as nat) == #[trigger] pow_table_entry(k);
    lemma2_to64();
    lemma_pow2_pos(k);
    lemma_pow2_strictly_increases(k, 128);
    lemma_pow2_adds(k, 16);
    lemma_pow2_adds(64, 64);
    lemma_pow2_adds(128, 16);
    let p = pow2(k) as int;
    let b = boundary as int;
    assert(pow2(128) == 0x1_0000_0000_0000_0000_0000_0000_0000_0000int);
    assert(p * 0x10000 < pow2(128) * 0x10000) by (nonlinear_arith)
        requires
            p < pow2(128),
    ;
    assert(b * 0x10000 < pow2(128) * 0x10000) by (nonlinear_arith)
        requires
            0 <= b < pow2(128),
    ;
    assert(pow_table_entry(k) == p * 0x10000 + k);
    lemma_fzero_small(pow_table_entry(k) - pow_table_encode(b, power));
    vstd::arithmetic::div_mod::lemma_fundamental_div_mod_converse(b * 0x10000 + power, 0x10000, b, power);
    vstd::arithmetic::div_mod::lemma_fundamental_div_mod_converse(b * 0x10000 + power, 0x10000, p, k as int);
}

/// A polynomial under two selectors that are both on is the polynomial itself.
proof fn lemma_selected_twice(a: int, b: int, x: int)
    by (nonlinear_arith)
    requires
        a == 1,
        b == 1,
    ensures
        a * b * x == x,
{
}

/// Soundness of the `ctz` and `clz` gadget: where its gates hold and the
/// power was looked up, the zero flag tells a zero operand; a zero operand
/// counts the width; and for a nonzero operand, a `ctz` count below two to
/// the sixteenth is the power of two that the operand is an odd multiple
/// of, and a `clz` count below the width puts the operand's highest set
/// bit that many places below the top.
pub proof fn lemma_unary_sound(w: UnaryWitness)
    requires
        unary_gates(w),
        w.pow_assigned,
    ensures
        ({
            let n = 32 + 32 * b2i(w.is_64bits);
            &&& (w.operand_is_zero <==> w.operand == 0)
            &&& ((w.is_ctz || w.is_clz) && w.operand == 0 ==> w.result == n)
            &&& (w.is_ctz && w.operand != 0 && w.result < 0x10000 ==> w.operand == pow2(w.result as nat) * (2
                * w.aux1 + 1))
            &&& (w.is_clz && w.operand != 0 && w.result < n ==> pow2((n - 1 - w.result) as nat) <= w.operand
                < pow2((n - w.result) as nat))
        }),
{
    let n = 32 + 32 * b2i(w.is_64bits);
    let lookup = pow_table_entry(w.pow as nat);
    lemma2_to64();
    if w.operand_is_zero {
        assert(1 * w.operand == w.operand);
        lemma_fzero_small(w.operand as int);
    } else {
        if w.operand == 0 {
            assert(w.operand * w.operand_inv.value() - 1 + 0 == -1);
            lemma_fzero_small(-1);
        }
    }
    if w.is_ctz || w.is_clz {
        if w.operand == 0 {
            assert(w.operand_is_zero);
            lemma_fzero_small(w.result - n);
            if w.is_clz {
                lemma_selected_twice(b2i(w.is_clz), b2i(w.operand_is_zero), w.result - n);
            } else {
                lemma_selected_twice(b2i(w.is_ctz), b2i(w.operand_is_zero), w.result - n);
            }
        }
    }
    if w.is_ctz && w.operand != 0 && w.result < 0x10000 {
        vstd::arithmetic::mul::lemma_mul_basics(lookup - pow_table_encode(w.boundary as int, w.result as int));
        lemma_unary_pow_lookup(w.pow, w.boundary, w.result as int);
        let b = w.boundary as int;
        let a = w.aux1 as int;
        assert(0 <= a * b * 2 <= 0xffff_ffff_ffff_ffff * 0x1_0000_0000_0000_0000_0000_0000_0000_0000 * 2)
            by (nonlinear_arith)
            requires
                0 <= a <= 0xffff_ffff_ffff_ffff,
                0 <= b <= 0x1_0000_0000_0000_0000_0000_0000_0000_0000,
        ;
        lemma_selected_twice(b2i(w.is_ctz), 1 - b2i(w.operand_is_zero), a * b * 2 + b - w.operand);
        lemma_fzero_small(a * b * 2 + b - w.operand);
        assert(w.operand == b * (2 * a + 1)) by (nonlinear_arith)
            requires
                a * b * 2 + b - w.operand == 0,
        ;
    }
    if w.is_clz && w.operand != 0 && w.result < n {
        let e = n - w.result - 1;
        lemma_selected_twice(b2i(w.is_clz), 1 - b2i(w.operand_is_zero), lookup - pow_table_encode(w.boundary as int, e));
        lemma_unary_pow_lookup(w.pow, w.boundary, e);
        let b = w.boundary as int;
        lemma_selected_twice(b2i(w.is_clz), 1 - b2i(w.operand_is_zero), b + w.aux1 - w.operand);
        lemma_selected_twice(b2i(w.is_clz), 1 - b2i(w.operand_is_zero), w.aux1 + w.aux2 + 1 - b);
        lemma_fzero_small(b + w.aux1 - w.operand);
        lemma_fzero_small(w.aux1 + w.aux2 + 1 - b);
        lemma_pow2_adds(e as nat, 1);
        assert(pow2(1) == 2);
        assert((e + 1) as nat == (n - w.result) as nat);
    }
}

} // verus!
