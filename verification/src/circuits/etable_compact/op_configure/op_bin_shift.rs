//! The gadget of the shifts and rotations on 32-bit and 64-bit values.

use vstd::prelude::*;
use vstd::arithmetic::power2::{
    lemma2_to64, lemma2_to64_rest, lemma_pow2_adds, lemma_pow2_pos, lemma_pow2_subtracts, pow2,
};
use crate::circuits::etable_compact::op_configure::{
    assign_mtable_lookups, mtable_lookup_cell_ok, mtable_lookup_writes,
    bit_cell_at, bit_cell_ok, bit_writes, byte, common_range_cell_at, common_range_cell_ok,
    common_range_writes, lemma_append_assoc, mtable_lookup_cell_at, nibble, one_write,
    pow_table_entry, pow_table_value, u64_cell_at, u64_cell_ok, u64_cell_writes,
    u64_on_u8_cell_at, u64_on_u8_cell_ok, u64_on_u8_cell_writes, BitCell, CommonRangeCell,
    EventTableCellAllocator, MTableLookupCell, PowTableLookupCell, U64Cell, U64OnU8Cell,
    UnlimitedCell,
};
use crate::circuits::etable_compact::{COL_AUX, COL_UNLIMITED};
use crate::circuits::etable_compact::op_configure::op_bin::{lemma_div_ge, nibble_at};
use crate::circuits::step::{bits_of, to_signed, to_unsigned, wasm_shift, wrap, ShiftOp, StepInfo, VarType};
use crate::circuits::utils::{b2i, fv_u64, fzero, lemma_digit_index, CellWrite, Context, FieldValue, lemma_fzero_mul_bit, lemma_fzero_small, modulus};
use vstd::arithmetic::power::pow;

verus! {

/// The cells of the gadget.
#[derive(Clone, Copy, Debug, PartialEq, Eq, Structural)]
pub struct BinShiftConfig {
    pub lhs: U64Cell,
    pub rhs: U64OnU8Cell,
    pub modulus: U64Cell,
    pub round: U64OnU8Cell,
    pub rem: U64Cell,
    pub diff: U64OnU8Cell,
    pub pad: U64OnU8Cell,
    pub res: UnlimitedCell,
    pub rhs_round: CommonRangeCell,
    pub rhs_rem: CommonRangeCell,
    pub rhs_rem_diff: CommonRangeCell,
    pub flag_bit: BitCell,
    pub flag_u4_rem: CommonRangeCell,
    pub flag_u4_rem_diff: CommonRangeCell,
    pub is_eight_bytes: BitCell,
    pub is_shl: BitCell,
    pub is_shr_u: BitCell,
    pub is_shr_s: BitCell,
    pub is_rotl: BitCell,
    pub is_rotr: BitCell,
    pub lookup_pow: PowTableLookupCell,
    pub lookup_stack_read_lhs: MTableLookupCell,
    pub lookup_stack_read_rhs: MTableLookupCell,
    pub lookup_stack_write: MTableLookupCell,
}

/// Builds the gadget.
pub struct BinShiftConfigBuilder {}

/// The cells that the gadget takes from an allocator in state `a`.
pub open spec fn shift_layout(a: EventTableCellAllocator) -> BinShiftConfig {
    let u = a.u64_index as int;
    let e = a.u64_on_u8_index as int;
    let b = a.bit_index as int;
    let c = a.common_range_index as int;
    let t = a.mtable_lookup_index as int;
    BinShiftConfig {
        lhs: u64_cell_at(u),
        rhs: u64_on_u8_cell_at(e),
        modulus: u64_cell_at(u + 1),
        round: u64_on_u8_cell_at(e + 1),
        diff: u64_on_u8_cell_at(e + 2),
        rem: u64_cell_at(u + 2),
        res: UnlimitedCell { col: COL_UNLIMITED, rot: a.unlimited_index },
        is_eight_bytes: bit_cell_at(b),
        rhs_round: common_range_cell_at(c),
        rhs_rem: common_range_cell_at(c + 1),
        rhs_rem_diff: common_range_cell_at(c + 2),
        flag_u4_rem: common_range_cell_at(c + 3),
        flag_u4_rem_diff: common_range_cell_at(c + 4),
        is_shl: bit_cell_at(b + 1),
        is_shr_u: bit_cell_at(b + 2),
        is_shr_s: bit_cell_at(b + 3),
        is_rotl: bit_cell_at(b + 4),
        is_rotr: bit_cell_at(b + 5),
        flag_bit: bit_cell_at(b + 6),
        pad: u64_on_u8_cell_at(e + 3),
        lookup_pow: PowTableLookupCell { col: COL_AUX, rot: a.pow_table_lookup_index },
        lookup_stack_read_lhs: mtable_lookup_cell_at(t),
        lookup_stack_read_rhs: mtable_lookup_cell_at(t + 1),
        lookup_stack_write: mtable_lookup_cell_at(t + 2),
    }
}

impl BinShiftConfig {
    /// Every cell lies within a block.
    pub open spec fn wf(self) -> bool {
        &&& u64_cell_ok(self.lhs)
        &&& u64_on_u8_cell_ok(self.rhs)
        &&& u64_cell_ok(self.modulus)
        &&& u64_on_u8_cell_ok(self.round)
        &&& u64_cell_ok(self.rem)
        &&& u64_on_u8_cell_ok(self.diff)
        &&& u64_on_u8_cell_ok(self.pad)
        &&& 0 <= self.res.rot < 20
        &&& common_range_cell_ok(self.rhs_round)
        &&& common_range_cell_ok(self.rhs_rem)
        &&& common_range_cell_ok(self.rhs_rem_diff)
        &&& bit_cell_ok(self.flag_bit)
        &&& common_range_cell_ok(self.flag_u4_rem)
        &&& common_range_cell_ok(self.flag_u4_rem_diff)
        &&& bit_cell_ok(self.is_eight_bytes)
        &&& bit_cell_ok(self.is_shl)
        &&& bit_cell_ok(self.is_shr_u)
        &&& bit_cell_ok(self.is_shr_s)
        &&& bit_cell_ok(self.is_rotl)
        &&& bit_cell_ok(self.is_rotr)
        &&& 0 <= self.lookup_pow.rot < 20
        &&& mtable_lookup_cell_ok(self.lookup_stack_read_lhs)
        &&& mtable_lookup_cell_ok(self.lookup_stack_read_rhs)
        &&& mtable_lookup_cell_ok(self.lookup_stack_write)
    }

    /// The memory table lookup cells of the step, in the order of the
    /// gadget's cells.
    pub open spec fn lookups(self) -> Seq<MTableLookupCell> {
        seq![self.lookup_stack_read_lhs, self.lookup_stack_read_rhs, self.lookup_stack_write]
    }
}

impl BinShiftConfigBuilder {
    /// Takes the gadget's cells from the allocator of its block.
    pub fn configure(common: &mut EventTableCellAllocator) -> (r: BinShiftConfig)
        requires
            old(common).wf(),
            old(common).u64_index + 3 <= 3,
            old(common).u64_on_u8_index + 4 <= 4,
            old(common).bit_index + 7 <= 40,
            old(common).common_range_index + 5 <= 20,
            old(common).unlimited_index + 1 <= 20,
            old(common).pow_table_lookup_index + 1 <= 3,
            old(common).mtable_lookup_index + 3 <= 11,
        ensures
            r == shift_layout(*old(common)),
            r.wf(),
            final(common).wf(),
            *final(common) == (EventTableCellAllocator {
                u64_index: (old(common).u64_index + 3) as i32,
                u64_on_u8_index: (old(common).u64_on_u8_index + 4) as i32,
                bit_index: (old(common).bit_index + 7) as i32,
                common_range_index: (old(common).common_range_index + 5) as i32,
                unlimited_index: (old(common).unlimited_index + 1) as i32,
                pow_table_lookup_index: (old(common).pow_table_lookup_index + 1) as i32,
                mtable_lookup_index: (old(common).mtable_lookup_index + 3) as i32,
                ..*old(common)
            }),
    {
        let lhs = common.alloc_u64();
        let rhs = common.alloc_u64_on_u8();
        let modulus = common.alloc_u64();
        let round = common.alloc_u64_on_u8();
        let diff = common.alloc_u64_on_u8();
        let rem = common.alloc_u64();
        let res = common.alloc_unlimited_value();
        let is_eight_bytes = common.alloc_bit_value();
        let rhs_round = common.alloc_common_range_value();
        let rhs_rem = common.alloc_common_range_value();
        let rhs_rem_diff = common.alloc_common_range_value();
        let flag_u4_rem = common.alloc_common_range_value();
        let flag_u4_rem_diff = common.alloc_common_range_value();
        let is_shl = common.alloc_bit_value();
        let is_shr_u = common.alloc_bit_value();
        let is_shr_s = common.alloc_bit_value();
        let is_rotl = common.alloc_bit_value();
        let is_rotr = common.alloc_bit_value();
        let flag_bit = common.alloc_bit_value();
        let pad = common.alloc_u64_on_u8();
        let lookup_pow = common.alloc_pow_table_lookup();
        let lookup_stack_read_lhs = common.alloc_mtable_lookup();
        let lookup_stack_read_rhs = common.alloc_mtable_lookup();
        let lookup_stack_write = common.alloc_mtable_lookup();
        BinShiftConfig {
            lhs,
            rhs,
            modulus,
            round,
            rem,
            diff,
            pad,
            res,
            rhs_round,
            rhs_rem,
            rhs_rem_diff,
            flag_bit,
            flag_u4_rem,
            flag_u4_rem_diff,
            is_eight_bytes,
            is_shl,
            is_shr_u,
            is_shr_s,
            is_rotl,
            is_rotr,
            lookup_pow,
            lookup_stack_read_lhs,
            lookup_stack_read_rhs,
            lookup_stack_write,
        }
    }
}

/// The values that the gadget's cells hold for one step.
#[derive(Clone, Copy, Debug, PartialEq, Eq, Structural)]
pub struct BinShiftWitness {
    pub lhs: u64,
    pub rhs: u64,
    pub modulus: u64,
    pub round: u64,
    pub rem: u64,
    pub diff: u64,
    pub pad: u64,
    pub res: u64,
    pub rhs_round: u16,
    pub rhs_rem: u16,
    pub rhs_rem_diff: u16,
    pub flag_bit: bool,
    pub flag_u4_rem: u16,
    pub flag_u4_rem_diff: u16,
    pub is_eight_bytes: bool,
    pub is_shl: bool,
    pub is_shr_u: bool,
    pub is_shr_s: bool,
    pub is_rotl: bool,
    pub is_rotr: bool,
    pub lookup_pow: u128,
}

/// The shift moves bits toward the high end: a left shift or rotation.
pub open spec fn shifts_left(class: ShiftOp) -> bool {
    class == ShiftOp::Shl || class == ShiftOp::Rotl
}

/// The values that the gadget assigns for operator `class` on `l` by `r`
/// with result `v`, all of type `vtype`; cells left unassigned hold zero.
pub open spec fn spec_shift_witness(class: ShiftOp, vtype: VarType, l: u64, r: u64, v: u64) -> BinShiftWitness {
    let n = bits_of(vtype);
    let m = wrap(n);
    let p = (r as int % n as int) as nat;
    let pm = pow2(p) as int;
    let lead = l as int / (m / 16);
    let li = l as int;
    BinShiftWitness {
        lhs: l,
        rhs: r,
        modulus: pm as u64,
        round: if shifts_left(class) { ((li * pm) / m) as u64 } else { (li / pm) as u64 },
        rem: if shifts_left(class) { ((li * pm) % m) as u64 } else { (li % pm) as u64 },
        diff: if shifts_left(class) {
            (m - 1 - (li * pm) % m) as u64
        } else {
            (pm - li % pm - 1) as u64
        },
        pad: if class == ShiftOp::SignedShr && lead >= 8 && p != 0 {
            ((pm - 1) * (m / pm)) as u64
        } else {
            0
        },
        res: v,
        rhs_round: ((r as int % 256) / n as int) as u16,
        rhs_rem: p as u16,
        rhs_rem_diff: (n - 1 - p) as u16,
        flag_bit: lead >= 8,
        flag_u4_rem: (lead % 8) as u16,
        flag_u4_rem_diff: (7 - lead % 8) as u16,
        is_eight_bytes: vtype == VarType::I64,
        is_shl: class == ShiftOp::Shl,
        is_shr_u: class == ShiftOp::UnsignedShr,
        is_shr_s: class == ShiftOp::SignedShr,
        is_rotl: class == ShiftOp::Rotl,
        is_rotr: class == ShiftOp::Rotr,
        lookup_pow: (pow2(p + 16) + p) as u128,
    }
}

/// Facts about powers of two below 2 to the 64.
proof fn lemma_pow2_facts(p: nat, n: nat)
    requires
        n == 32 || n == 64,
        p < n,
    ensures
        pow2(n) == wrap(n),
        0 < pow2(p) <= pow2(n) / 2,
        pow2((n - p) as nat) == pow2(n) / pow2(p),
        pow2(p) * pow2((n - p) as nat) == pow2(n),
        pow2(p + 16) == pow2(p) * 0x10000,
        pow2(p + 16) < 0x1_0000_0000_0000_0000_0000,
{
    lemma2_to64();
    lemma2_to64_rest();
    lemma_pow2_pos(p);
    lemma_pow2_adds(p, (n - p) as nat);
    lemma_pow2_subtracts(p, n);
    lemma_pow2_adds(p, 16);
    if p + 1 <= n {
        vstd::arithmetic::power2::lemma_pow2_adds(p, (n - p) as nat);
        if p < n - 1 {
            vstd::arithmetic::power2::lemma_pow2_strictly_increases(p, (n - 1) as nat);
        }
        vstd::arithmetic::power2::lemma_pow2_unfold(n);
    }
    if p + 16 < 80 {
        vstd::arithmetic::power2::lemma_pow2_strictly_increases(p + 16, 80);
    }
    lemma_pow2_adds(64, 16);
}

/// The values computed for a step.
pub fn shift_witness(class: ShiftOp, vtype: VarType, left: u64, right: u64, value: u64) -> (w: BinShiftWitness)
    requires
        left < wrap(bits_of(vtype)),
    ensures
        w == spec_shift_witness(class, vtype, left, right, value),
{
    let is64: bool = match vtype {
        VarType::I64 => true,
        VarType::I32 => false,
    };
    let size: u64 = if is64 { 64 } else { 32 };
    let m: u128 = if is64 { 0x1_0000_0000_0000_0000 } else { 0x1_0000_0000 };
    let lead_div: u64 = if is64 { 0x1000_0000_0000_0000 } else { 0x1000_0000 };
    let power: u64 = right % size;
    proof {
        lemma_pow2_facts(power as nat, size as nat);
        vstd::bits::lemma_u64_pow2_no_overflow(power as nat);
        vstd::bits::lemma_u64_shl_is_mul(1, power);
    }
    let modulus: u64 = 1u64 << power;
    assert(modulus == pow2(power as nat));
    let flag_u4: u64 = left / lead_div;
    let flag_bit: bool = flag_u4 >= 8;
    let left_shift: bool = match class {
        ShiftOp::Shl | ShiftOp::Rotl => true,
        _ => false,
    };
    let (round, rem, diff) = if left_shift {
        proof {
            assert(left * modulus < 0x1_0000_0000_0000_0000_0000_0000_0000_0000) by (nonlinear_arith)
                requires
                    left < 0x1_0000_0000_0000_0000,
                    modulus < 0x1_0000_0000_0000_0000,
            ;
            let pr = left as int * modulus as int;
            let mi = m as int;
            assert(pr < mi * mi) by (nonlinear_arith)
                requires
                    pr == left as int * modulus as int,
                    left < mi,
                    modulus < mi,
                    left >= 0,
                    modulus >= 0,
            ;
            vstd::arithmetic::div_mod::lemma_fundamental_div_mod(pr, mi);
            vstd::arithmetic::div_mod::lemma_mod_bound(pr, mi);
            let q = pr / mi;
            let r = pr % mi;
            assert(q < mi) by (nonlinear_arith)
                requires
                    pr == mi * q + r,
                    r >= 0,
                    pr < mi * mi,
                    mi > 0,
            ;
        }
        let prod: u128 = left as u128 * modulus as u128;
        let rem: u64 = (prod % m) as u64;
        ((prod / m) as u64, rem, (m - 1) as u64 - rem)
    } else {
        let rem: u64 = left % modulus;
        (left / modulus, rem, modulus - rem - 1)
    };
    let is_shr_s: bool = match class {
        ShiftOp::SignedShr => true,
        _ => false,
    };
    let pad: u64 = if is_shr_s && flag_bit && power != 0 {
        let q: u128 = m / modulus as u128;
        proof {
            assert(m == pow2(size as nat));
            assert(q == pow2((size - power) as nat));
            lemma_pow2_pos((size - power) as nat);
            assert((modulus - 1) * q < m) by (nonlinear_arith)
                requires
                    modulus * q == m,
                    q > 0,
                    modulus >= 1,
            ;
        }
        ((modulus as u128 - 1) * q) as u64
    } else {
        0
    };
    BinShiftWitness {
        lhs: left,
        rhs: right,
        modulus,
        round,
        rem,
        diff,
        pad,
        res: value,
        rhs_round: ((right % 256) / size) as u16,
        rhs_rem: power as u16,
        rhs_rem_diff: (size - 1 - power) as u16,
        flag_bit,
        flag_u4_rem: (flag_u4 % 8) as u16,
        flag_u4_rem_diff: (7 - flag_u4 % 8) as u16,
        is_eight_bytes: is64,
        is_shl: match class {
            ShiftOp::Shl => true,
            _ => false,
        },
        is_shr_u: match class {
            ShiftOp::UnsignedShr => true,
            _ => false,
        },
        is_shr_s,
        is_rotl: match class {
            ShiftOp::Rotl => true,
            _ => false,
        },
        is_rotr: match class {
            ShiftOp::Rotr => true,
            _ => false,
        },
        lookup_pow: modulus as u128 * 0x10000 + power as u128,
    }
}

/// The number of bits of the operation, as the gates write it.
pub open spec fn shift_bit_modulus(w: BinShiftWitness) -> int {
    b2i(w.is_eight_bytes) * 32 + 32
}

/// The modulus of the operation's wrap-around, as the gates write it.
pub open spec fn shift_size_modulus(w: BinShiftWitness) -> int {
    b2i(w.is_eight_bytes) * 0xffff_ffff_0000_0000 + 0x1_0000_0000
}

/// The power table's encoding of `modulus`, two to the power `power`.
pub open spec fn pow_table_encode(modulus: int, power: int) -> int {
    modulus * 0x10000 + power
}

/// The power table holds the encodings of the powers below 128.
pub open spec fn in_pow_table(x: int) -> bool {
    exists|k: nat| k < 128 && x == #[trigger] pow_table_entry(k)
}

/// The selector gate, and the gates that split the shift amount, read the
/// sign bit and tie the power to the power table.
pub open spec fn shift_gates_common(w: BinShiftWitness) -> bool {
    let flag_u4 = b2i(w.is_eight_bytes) * nibble(w.lhs, 15) + (1 - b2i(w.is_eight_bytes)) * nibble(w.lhs, 7);
    &&& fzero(
        b2i(w.is_shr_u) + b2i(w.is_shr_s) + b2i(w.is_shl) + b2i(w.is_rotl) + b2i(w.is_rotr) - 1,
    )
    &&& fzero(w.rhs_round * shift_bit_modulus(w) + w.rhs_rem - byte(w.rhs, 0))
    &&& fzero(w.rhs_rem + w.rhs_rem_diff + 1 - shift_bit_modulus(w))
    &&& fzero(b2i(w.flag_bit) * 8 + w.flag_u4_rem - flag_u4)
    &&& fzero(w.flag_u4_rem + w.flag_u4_rem_diff - 7)
    &&& fzero(w.lookup_pow - pow_table_encode(w.modulus as int, w.rhs_rem as int))
}

/// The gates of the right shifts and rotation.
pub open spec fn shift_gates_right(w: BinShiftWitness) -> bool {
    let sm = shift_size_modulus(w);
    let md = w.modulus as int;
    &&& fzero((w.rem + w.diff + 1 - md) * b2i(w.is_shr_u))
    &&& fzero((w.rem + w.round * md - w.lhs) * b2i(w.is_shr_u))
    &&& fzero((w.res - w.round) * b2i(w.is_shr_u))
    &&& fzero((w.rem + w.round * md - w.lhs) * b2i(w.is_shr_s))
    &&& fzero((w.rem + w.diff + 1 - md) * b2i(w.is_shr_s))
    &&& fzero((w.res - w.round - w.pad) * b2i(w.is_shr_s))
    &&& fzero((w.pad * md - b2i(w.flag_bit) * (md - 1) * sm) * b2i(w.is_shr_s))
    &&& fzero((w.rem + w.diff + 1 - md) * b2i(w.is_rotr))
    &&& fzero((w.rem + w.round * md - w.lhs) * b2i(w.is_rotr))
    &&& fzero((w.res * md - w.round * md - w.rem * sm) * b2i(w.is_rotr))
}

/// The gates of the left shift and rotation.
pub open spec fn shift_gates_left(w: BinShiftWitness) -> bool {
    let sm = shift_size_modulus(w);
    let md = w.modulus as int;
    &&& fzero((w.lhs * md - w.round * sm - w.rem) * b2i(w.is_shl))
    &&& fzero((w.rem + w.diff + 1 - sm) * b2i(w.is_shl))
    &&& fzero((w.res - w.rem) * b2i(w.is_shl))
    &&& fzero((w.lhs * md - w.round * sm - w.rem) * b2i(w.is_rotl))
    &&& fzero((w.rem + w.diff + 1 - sm) * b2i(w.is_rotl))
    &&& fzero((w.res - w.rem - w.round) * b2i(w.is_rotl))
}

/// The gates of the gadget, and its lookup into the power table.
pub open spec fn shift_gates(w: BinShiftWitness) -> bool {
    &&& shift_gates_common(w)
    &&& shift_gates_right(w)
    &&& shift_gates_left(w)
    &&& in_pow_table(w.lookup_pow as int)
}

/// The leading nibble of a value of the operation's width is the value
/// divided by the width's sixteenth.
pub proof fn lemma_flag_u4(w: BinShiftWitness, v: u64, n: nat)
    requires
        n == if w.is_eight_bytes { 64nat } else { 32nat },
        v < wrap(n),
    ensures
        b2i(w.is_eight_bytes) * nibble(v, 15) + (1 - b2i(w.is_eight_bytes)) * nibble(v, 7) == v as int
            / (wrap(n) / 16),
        0 <= v as int / (wrap(n) / 16) < 16,
{
    reveal_with_fuel(pow, 16);
    assert(pow(16, 7) == 0x1000_0000);
    assert(pow(16, 15) == 0x1000_0000_0000_0000);
    lemma_digit_index(v as int, 16, 16, 7);
    lemma_digit_index(v as int, 16, 16, 15);
    vstd::arithmetic::mul::lemma_mul_basics(nibble(v, 15));
    vstd::arithmetic::mul::lemma_mul_basics(nibble(v, 7));
    if w.is_eight_bytes {
        assert(v as int / 0x1000_0000_0000_0000 < 16);
    } else {
        assert(v as int / 0x1000_0000 < 16);
    }
}

/// The lowest byte of a value is its remainder by 256.
pub proof fn lemma_byte0(v: u64)
    ensures
        byte(v, 0) == v as int % 256,
{
    reveal(pow);
    lemma_digit_index(v as int, 256, 8, 0);
}

/// A gate whose selector is zero vanishes.
proof fn lemma_gate_off(p: int, s: int)
    requires
        s == 0,
    ensures
        fzero(p * s),
{
    vstd::arithmetic::mul::lemma_mul_basics(p);
}

/// A gate whose polynomial is zero vanishes, whatever its selector.
proof fn lemma_gate_on(p: int, s: int)
    requires
        p == 0,
    ensures
        fzero(p * s),
{
    vstd::arithmetic::mul::lemma_mul_basics(s);
}

/// The common gates hold on the values assigned for any step.
proof fn lemma_shift_complete_common(class: ShiftOp, vtype: VarType, l: u64, r: u64, v: u64)
    requires
        l < wrap(bits_of(vtype)),
    ensures
        shift_gates_common(spec_shift_witness(class, vtype, l, r, v)),
        in_pow_table(spec_shift_witness(class, vtype, l, r, v).lookup_pow as int),
{
    let n = bits_of(vtype);
    let w = spec_shift_witness(class, vtype, l, r, v);
    let p = (r as int % n as int) as nat;
    lemma_pow2_facts(p, n);
    lemma_byte0(r);
    vstd::arithmetic::div_mod::lemma_mod_mod(r as int, n as int, 256int / (n as int));
    vstd::arithmetic::div_mod::lemma_fundamental_div_mod(r as int % 256, n as int);
    lemma_flag_u4(w, l, n);
    let lead = l as int / (wrap(n) / 16);
    assert(lead % 8 == if lead >= 8 { lead - 8 } else { lead });
    assert(shift_bit_modulus(w) == n);
    let b0 = r as int % 256;
    assert(n as int * (256int / (n as int)) == 256);
    assert(b0 % (n as int) == r as int % (n as int));
    vstd::arithmetic::mul::lemma_mul_is_commutative(b0 / (n as int), n as int);
    assert(w.rhs_round == b0 / (n as int));
    assert(w.rhs_round * shift_bit_modulus(w) + w.rhs_rem - byte(w.rhs, 0) == 0);
    assert(w.lookup_pow - pow_table_encode(w.modulus as int, w.rhs_rem as int) == 0);
    assert(w.lookup_pow == pow_table_entry(p));
}

/// The gates of the right shifts and rotation hold on the values assigned
/// for a step whose recorded result is the WebAssembly one.
proof fn lemma_shift_complete_right(class: ShiftOp, vtype: VarType, l: u64, r: u64, v: u64)
    requires
        !shifts_left(class),
        l < wrap(bits_of(vtype)),
        v == wasm_shift(class, l as int, (r as int % bits_of(vtype) as int) as nat, bits_of(vtype)),
    ensures
        shift_gates_right(spec_shift_witness(class, vtype, l, r, v)),
        shift_gates_left(spec_shift_witness(class, vtype, l, r, v)),
{
    let n = bits_of(vtype);
    let m = wrap(n);
    let w = spec_shift_witness(class, vtype, l, r, v);
    let p = (r as int % n as int) as nat;
    let pm = pow2(p) as int;
    let q = pow2((n - p) as nat) as int;
    lemma_pow2_facts(p, n);
    let li = l as int;
    vstd::arithmetic::div_mod::lemma_fundamental_div_mod(li, pm);
    vstd::arithmetic::div_mod::lemma_mod_bound(li, pm);
    vstd::arithmetic::div_mod::lemma_div_pos_is_pos(li, pm);
    vstd::arithmetic::div_mod::lemma_div_is_ordered_by_denominator(li, 1, pm);
    let md = w.modulus as int;
    let sm = shift_size_modulus(w);
    assert(md == pm);
    assert(sm == m);
    assert(w.round == li / pm);
    assert(w.rem == li % pm);
    // the left gates are off
    lemma_gate_off(w.lhs * md - w.round * sm - w.rem, b2i(w.is_shl));
    lemma_gate_off(w.rem + w.diff + 1 - sm, b2i(w.is_shl));
    lemma_gate_off(w.res - w.rem, b2i(w.is_shl));
    lemma_gate_off(w.lhs * md - w.round * sm - w.rem, b2i(w.is_rotl));
    lemma_gate_off(w.rem + w.diff + 1 - sm, b2i(w.is_rotl));
    lemma_gate_off(w.res - w.rem - w.round, b2i(w.is_rotl));
    // the division of the operand by the power holds for every right operator
    assert(w.rem + w.round * md - w.lhs == 0) by {
        vstd::arithmetic::mul::lemma_mul_is_commutative(w.round as int, md);
    }
    lemma_gate_on(w.rem + w.diff + 1 - md, b2i(w.is_shr_u));
    lemma_gate_on(w.rem + w.round * md - w.lhs, b2i(w.is_shr_u));
    lemma_gate_on(w.rem + w.round * md - w.lhs, b2i(w.is_shr_s));
    lemma_gate_on(w.rem + w.diff + 1 - md, b2i(w.is_shr_s));
    lemma_gate_on(w.rem + w.diff + 1 - md, b2i(w.is_rotr));
    lemma_gate_on(w.rem + w.round * md - w.lhs, b2i(w.is_rotr));
    if class == ShiftOp::UnsignedShr {
        lemma_gate_on(w.res - w.round, 1);
        lemma_gate_off(w.res - w.round - w.pad, 0);
        lemma_gate_off(w.pad * md - b2i(w.flag_bit) * (md - 1) * sm, 0);
        lemma_gate_off(w.res * md - w.round * md - w.rem * sm, 0);
    } else if class == ShiftOp::Rotr {
        lemma_gate_off(w.res - w.round, 0);
        lemma_gate_off(w.res - w.round - w.pad, 0);
        lemma_gate_off(w.pad * md - b2i(w.flag_bit) * (md - 1) * sm, 0);
        assert(v == li / pm + (li % pm) * q);
        assert(w.res * md - w.round * md - w.rem * sm == 0) by (nonlinear_arith)
            requires
                w.res == w.round + w.rem * q,
                pm * q == m,
                md == pm,
                sm == m,
        ;
        lemma_gate_on(w.res * md - w.round * md - w.rem * sm, 1);
    } else {
        lemma_gate_off(w.res - w.round, 0);
        lemma_gate_off(w.res * md - w.round * md - w.rem * sm, 0);
        lemma_shift_complete_shr_s(vtype, l, r, v);
    }
}

/// The result gates of the signed right shift hold.
proof fn lemma_shift_complete_shr_s(vtype: VarType, l: u64, r: u64, v: u64)
    requires
        l < wrap(bits_of(vtype)),
        v == wasm_shift(ShiftOp::SignedShr, l as int, (r as int % bits_of(vtype) as int) as nat, bits_of(vtype)),
    ensures
        ({
            let w = spec_shift_witness(ShiftOp::SignedShr, vtype, l, r, v);
            let md = w.modulus as int;
            &&& fzero((w.res - w.round - w.pad) * b2i(w.is_shr_s))
            &&& fzero((w.pad * md - b2i(w.flag_bit) * (md - 1) * shift_size_modulus(w)) * b2i(w.is_shr_s))
        }),
{
    let n = bits_of(vtype);
    let m = wrap(n);
    let w = spec_shift_witness(ShiftOp::SignedShr, vtype, l, r, v);
    let p = (r as int % n as int) as nat;
    let pm = pow2(p) as int;
    let q = pow2((n - p) as nat) as int;
    lemma_pow2_facts(p, n);
    let li = l as int;
    let md = w.modulus as int;
    let sm = shift_size_modulus(w);
    assert(md == pm);
    assert(sm == m);
    lemma_flag_u4(w, l, n);
    let lead = li / (m / 16);
    lemma_div_ge(li, m / 16, 8);
    assert(m / 2 == 8 * (m / 16));
    assert(w.flag_bit == (li >= m / 2));
    vstd::arithmetic::div_mod::lemma_fundamental_div_mod(li, pm);
    vstd::arithmetic::div_mod::lemma_mod_bound(li, pm);
    vstd::arithmetic::div_mod::lemma_div_pos_is_pos(li, pm);
    let round = li / pm;
    assert(round < q) by (nonlinear_arith)
        requires
            li == pm * round + li % pm,
            li % pm >= 0,
            li < m,
            pm * q == m,
            pm > 0,
    ;
    if li < m / 2 {
        assert(to_signed(li, n) == li);
        vstd::arithmetic::div_mod::lemma_small_mod(round as nat, m as nat);
        assert(v == round);
        assert(w.pad == 0);
        lemma_gate_on(w.res - w.round - w.pad, 1);
        vstd::arithmetic::mul::lemma_mul_basics(md);
        vstd::arithmetic::mul::lemma_mul_basics((md - 1) * sm);
        assert(w.pad * md - b2i(w.flag_bit) * (md - 1) * sm == 0);
        lemma_gate_on(w.pad * md - b2i(w.flag_bit) * (md - 1) * sm, 1);
    } else {
        assert(to_signed(li, n) == li - m);
        // floor division of the negative value
        assert(li - m == pm * (round - q) + li % pm) by (nonlinear_arith)
            requires
                li == pm * round + li % pm,
                pm * q == m,
        ;
        vstd::arithmetic::div_mod::lemma_fundamental_div_mod_converse(li - m, pm, round - q, li % pm);
        assert((li - m) / pm == round - q);
        if p == 0 {
            lemma2_to64();
            assert(q == m);
            assert(pm == 1);
            vstd::arithmetic::div_mod::lemma_fundamental_div_mod_converse(round - q, m, -1, round);
            assert(v == round);
            assert(w.pad == 0);
            lemma_gate_on(w.res - w.round - w.pad, 1);
            assert(md - 1 == 0);
            vstd::arithmetic::mul::lemma_mul_basics(b2i(w.flag_bit));
            vstd::arithmetic::mul::lemma_mul_basics(sm);
            vstd::arithmetic::mul::lemma_mul_basics(md);
            assert(b2i(w.flag_bit) * (md - 1) == 0);
            assert(w.pad * md - b2i(w.flag_bit) * (md - 1) * sm == 0);
            lemma_gate_on(w.pad * md - b2i(w.flag_bit) * (md - 1) * sm, 1);
        } else {
            let pad = (pm - 1) * q;
            assert(pad == m - q) by (nonlinear_arith)
                requires
                    pad == (pm - 1) * q,
                    pm * q == m,
            ;
            vstd::arithmetic::div_mod::lemma_fundamental_div_mod_converse(round - q, m, -1, round + pad);
            assert(v == round + pad);
            assert(w.pad == pad);
            lemma_gate_on(w.res - w.round - w.pad, 1);
            assert(w.pad * md - b2i(w.flag_bit) * (md - 1) * sm == 0) by (nonlinear_arith)
                requires
                    w.pad == (pm - 1) * q,
                    pm * q == m,
                    md == pm,
                    sm == m,
                    b2i(w.flag_bit) == 1,
            ;
            lemma_gate_on(w.pad * md - b2i(w.flag_bit) * (md - 1) * sm, 1);
        }
    }
}

/// The gates of the left shift and rotation hold on the values assigned for
/// a step whose recorded result is the WebAssembly one.
proof fn lemma_shift_complete_left(class: ShiftOp, vtype: VarType, l: u64, r: u64, v: u64)
    requires
        shifts_left(class),
        l < wrap(bits_of(vtype)),
        v == wasm_shift(class, l as int, (r as int % bits_of(vtype) as int) as nat, bits_of(vtype)),
    ensures
        shift_gates_right(spec_shift_witness(class, vtype, l, r, v)),
        shift_gates_left(spec_shift_witness(class, vtype, l, r, v)),
{
    let n = bits_of(vtype);
    let m = wrap(n);
    let w = spec_shift_witness(class, vtype, l, r, v);
    let p = (r as int % n as int) as nat;
    let pm = pow2(p) as int;
    let q = pow2((n - p) as nat) as int;
    lemma_pow2_facts(p, n);
    let li = l as int;
    let md = w.modulus as int;
    let sm = shift_size_modulus(w);
    assert(md == pm);
    assert(sm == m);
    let pr = li * pm;
    assert(0 <= pr < m * m) by (nonlinear_arith)
        requires
            pr == li * pm,
            0 <= li < m,
            0 < pm < m,
    ;
    vstd::arithmetic::div_mod::lemma_fundamental_div_mod(pr, m);
    vstd::arithmetic::div_mod::lemma_mod_bound(pr, m);
    vstd::arithmetic::div_mod::lemma_div_pos_is_pos(pr, m);
    assert(pr / m < m) by (nonlinear_arith)
        requires
            pr == m * (pr / m) + pr % m,
            pr % m >= 0,
            pr < m * m,
            m > 0,
    ;
    assert(w.round == pr / m);
    assert(w.rem == pr % m);
    // the right gates are off
    lemma_gate_off(w.rem + w.diff + 1 - md, b2i(w.is_shr_u));
    lemma_gate_off(w.rem + w.round * md - w.lhs, b2i(w.is_shr_u));
    lemma_gate_off(w.res - w.round, b2i(w.is_shr_u));
    lemma_gate_off(w.rem + w.round * md - w.lhs, b2i(w.is_shr_s));
    lemma_gate_off(w.rem + w.diff + 1 - md, b2i(w.is_shr_s));
    lemma_gate_off(w.res - w.round - w.pad, b2i(w.is_shr_s));
    lemma_gate_off(w.pad * md - b2i(w.flag_bit) * (md - 1) * sm, b2i(w.is_shr_s));
    lemma_gate_off(w.rem + w.diff + 1 - md, b2i(w.is_rotr));
    lemma_gate_off(w.rem + w.round * md - w.lhs, b2i(w.is_rotr));
    lemma_gate_off(w.res * md - w.round * md - w.rem * sm, b2i(w.is_rotr));
    // the product of the operand and the power splits at the width
    assert(w.lhs * md - w.round * sm - w.rem == 0) by {
        vstd::arithmetic::mul::lemma_mul_is_commutative(w.round as int, m);
    }
    lemma_gate_on(w.lhs * md - w.round * sm - w.rem, b2i(w.is_shl));
    lemma_gate_on(w.rem + w.diff + 1 - sm, b2i(w.is_shl));
    lemma_gate_on(w.lhs * md - w.round * sm - w.rem, b2i(w.is_rotl));
    lemma_gate_on(w.rem + w.diff + 1 - sm, b2i(w.is_rotl));
    if class == ShiftOp::Shl {
        lemma_gate_on(w.res - w.rem, 1);
        lemma_gate_off(w.res - w.rem - w.round, 0);
    } else {
        lemma_gate_off(w.res - w.rem, 0);
        // the bits that leave at the top are the operand's high bits
        vstd::arithmetic::div_mod::lemma_div_denominator(pr, pm, q);
        vstd::arithmetic::mul::lemma_mul_is_commutative(li, pm);
        vstd::arithmetic::div_mod::lemma_div_multiples_vanish(li, pm);
        assert(pr / m == li / q);
        lemma_gate_on(w.res - w.rem - w.round, 1);
    }
}

/// Completeness: on every step whose recorded result is the WebAssembly
/// result of the shift or rotation, the assigned values satisfy every gate
/// and the power table lookup.
pub proof fn lemma_shift_complete(class: ShiftOp, vtype: VarType, l: u64, r: u64, v: u64)
    requires
        l < wrap(bits_of(vtype)),
        v == wasm_shift(class, l as int, (r as int % bits_of(vtype) as int) as nat, bits_of(vtype)),
    ensures
        shift_gates(spec_shift_witness(class, vtype, l, r, v)),
{
    lemma_shift_complete_common(class, vtype, l, r, v);
    if shifts_left(class) {
        lemma_shift_complete_left(class, vtype, l, r, v);
    } else {
        lemma_shift_complete_right(class, vtype, l, r, v);
    }
}

/// The operator that the selector bits choose.
pub open spec fn shift_selected(w: BinShiftWitness) -> ShiftOp {
    if w.is_shl {
        ShiftOp::Shl
    } else if w.is_shr_u {
        ShiftOp::UnsignedShr
    } else if w.is_shr_s {
        ShiftOp::SignedShr
    } else if w.is_rotl {
        ShiftOp::Rotl
    } else {
        ShiftOp::Rotr
    }
}

/// The width that the width bit chooses.
pub open spec fn shift_bits(w: BinShiftWitness) -> nat {
    if w.is_eight_bytes {
        64
    } else {
        32
    }
}

/// Soundness of the shift amount: the power cell holds two to the right
/// operand modulo the width.
proof fn lemma_shift_sound_power(w: BinShiftWitness)
    requires
        shift_gates(w),
    ensures
        w.rhs_rem as int == w.rhs as int % shift_bits(w) as int,
        w.modulus as int == pow2(w.rhs_rem as nat),
        b2i(w.is_shr_u) + b2i(w.is_shr_s) + b2i(w.is_shl) + b2i(w.is_rotl) + b2i(w.is_rotr) == 1,
{
    let n = shift_bits(w);
    let bm = shift_bit_modulus(w);
    assert(bm == n);
    lemma_fzero_small(b2i(w.is_shr_u) + b2i(w.is_shr_s) + b2i(w.is_shl) + b2i(w.is_rotl) + b2i(w.is_rotr) - 1);
    lemma_fzero_small(w.rhs_rem + w.rhs_rem_diff + 1 - bm);
    lemma_byte0(w.rhs);
    assert(0 <= w.rhs_round * bm <= 0x10000 * 64) by (nonlinear_arith)
        requires
            0 <= w.rhs_round < 0x10000,
            0 < bm <= 64,
    ;
    lemma_fzero_small(w.rhs_round * bm + w.rhs_rem - byte(w.rhs, 0));
    let b0 = w.rhs as int % 256;
    vstd::arithmetic::div_mod::lemma_fundamental_div_mod_converse(b0, n as int, w.rhs_round as int, w.rhs_rem as int);
    vstd::arithmetic::div_mod::lemma_mod_mod(w.rhs as int, n as int, 256int / (n as int));
    assert(n as int * (256int / (n as int)) == 256);
    // the power table fixes the power
    let md = w.modulus as int;
    let rr = w.rhs_rem as int;
    assert(0 <= md * 0x10000 <= 0x1_0000_0000_0000_0000_0000) by (nonlinear_arith)
        requires
            0 <= md < 0x1_0000_0000_0000_0000,
    ;
    lemma_fzero_small(w.lookup_pow - pow_table_encode(md, rr));
    let k = choose|k: nat| k < 128 && w.lookup_pow as int == #[trigger] pow_table_entry(k);
    lemma_pow2_adds(k, 16);
    lemma2_to64();
    vstd::arithmetic::div_mod::lemma_fundamental_div_mod_converse(w.lookup_pow as int, 0x10000, md, rr);
    vstd::arithmetic::div_mod::lemma_fundamental_div_mod_converse(w.lookup_pow as int, 0x10000, pow2(k) as int, k as int);
}

/// Soundness of the right shifts and rotation.
proof fn lemma_shift_sound_right(w: BinShiftWitness)
    requires
        shift_gates(w),
        w.is_shr_u || w.is_shr_s || w.is_rotr,
        w.lhs < wrap(shift_bits(w)),
        w.res < wrap(shift_bits(w)),
    ensures
        w.res == wasm_shift(shift_selected(w), w.lhs as int, (w.rhs as int % shift_bits(w) as int) as nat, shift_bits(w)),
{
    lemma_shift_sound_power(w);
    let n = shift_bits(w);
    let m = wrap(n);
    let p = w.rhs_rem as nat;
    let pm = pow2(p) as int;
    let q = pow2((n - p) as nat) as int;
    lemma_pow2_facts(p, n);
    let md = w.modulus as int;
    let sm = shift_size_modulus(w);
    assert(sm == m);
    let li = w.lhs as int;
    let round = w.round as int;
    let rem = w.rem as int;
    let res = w.res as int;
    assert(0 <= round * md < 0x1_0000_0000_0000_0000_0000_0000_0000_0000) by (nonlinear_arith)
        requires
            0 <= round < 0x1_0000_0000_0000_0000,
            0 < md < 0x1_0000_0000_0000_0000,
    ;
    let s = if w.is_shr_u { b2i(w.is_shr_u) } else if w.is_shr_s { b2i(w.is_shr_s) } else { b2i(w.is_rotr) };
    assert(s == 1);
    lemma_fzero_mul_bit(rem + w.diff + 1 - md, s);
    lemma_fzero_mul_bit(rem + round * md - li, s);
    vstd::arithmetic::mul::lemma_mul_is_commutative(round, md);
    vstd::arithmetic::div_mod::lemma_fundamental_div_mod_converse(li, md, round, rem);
    if w.is_shr_u {
        lemma_fzero_mul_bit(res - round, 1);
    } else if w.is_shr_s {
        lemma_fzero_mul_bit(res - round - w.pad, 1);
        let pad = w.pad as int;
        let f = b2i(w.flag_bit);
        assert(0 <= pad * md < 0x1_0000_0000_0000_0000_0000_0000_0000_0000) by (nonlinear_arith)
            requires
                0 <= pad < 0x1_0000_0000_0000_0000,
                0 < md < 0x1_0000_0000_0000_0000,
        ;
        assert(0 <= f * (md - 1) * sm <= 0x1_0000_0000_0000_0000_0000_0000_0000_0000) by (nonlinear_arith)
            requires
                0 <= f <= 1,
                0 < md <= 0x1_0000_0000_0000_0000,
                0 < sm <= 0x1_0000_0000_0000_0000,
        ;
        lemma_fzero_mul_bit(pad * md - f * (md - 1) * sm, 1);
        assert(pad == f * (md - 1) * q) by (nonlinear_arith)
            requires
                pad * md == f * (md - 1) * sm,
                md * q == sm,
                md > 0,
        ;
        // the flag is the sign bit
        lemma_flag_u4(w, w.lhs, n);
        lemma_fzero_small(b2i(w.flag_bit) * 8 + w.flag_u4_rem - (li / (m / 16)));
        lemma_fzero_small(w.flag_u4_rem + w.flag_u4_rem_diff - 7);
        lemma_div_ge(li, m / 16, 8);
        assert(m / 2 == 8 * (m / 16));
        assert(w.flag_bit == (li >= m / 2));
        assert(round < q) by (nonlinear_arith)
            requires
                li == pm * round + rem,
                rem >= 0,
                li < m,
                pm * q == m,
                pm > 0,
        ;
        if li < m / 2 {
            assert(to_signed(li, n) == li);
            vstd::arithmetic::mul::lemma_mul_basics(md - 1);
            vstd::arithmetic::mul::lemma_mul_basics(q);
            assert(pad == 0);
            vstd::arithmetic::div_mod::lemma_small_mod(round as nat, m as nat);
        } else {
            assert(to_signed(li, n) == li - m);
            assert(li - m == pm * (round - q) + rem) by (nonlinear_arith)
                requires
                    li == pm * round + rem,
                    pm * q == m,
            ;
            vstd::arithmetic::div_mod::lemma_fundamental_div_mod_converse(li - m, pm, round - q, rem);
            vstd::arithmetic::mul::lemma_mul_basics((md - 1) * q);
            assert(pad == (pm - 1) * q);
            assert(pad == m - q) by (nonlinear_arith)
                requires
                    pad == (pm - 1) * q,
                    pm * q == m,
            ;
            vstd::arithmetic::div_mod::lemma_fundamental_div_mod_converse(round - q, m, -1, round + pad);
        }
    } else {
        assert(0 <= res * md < 0x1_0000_0000_0000_0000_0000_0000_0000_0000) by (nonlinear_arith)
            requires
                0 <= res < 0x1_0000_0000_0000_0000,
                0 < md < 0x1_0000_0000_0000_0000,
        ;
        assert(0 <= rem * sm <= 0x1_0000_0000_0000_0000_0000_0000_0000_0000) by (nonlinear_arith)
            requires
                0 <= rem < 0x1_0000_0000_0000_0000,
                0 < sm <= 0x1_0000_0000_0000_0000,
        ;
        lemma_fzero_mul_bit(res * md - round * md - rem * sm, 1);
        assert(res == round + rem * q) by (nonlinear_arith)
            requires
                res * md - round * md - rem * sm == 0,
                md * q == sm,
                md > 0,
        ;
    }
}

/// Soundness of the left shift and rotation.
proof fn lemma_shift_sound_left(w: BinShiftWitness)
    requires
        shift_gates(w),
        w.is_shl || w.is_rotl,
        w.lhs < wrap(shift_bits(w)),
    ensures
        w.res == wasm_shift(shift_selected(w), w.lhs as int, (w.rhs as int % shift_bits(w) as int) as nat, shift_bits(w)),
{
    lemma_shift_sound_power(w);
    let n = shift_bits(w);
    let m = wrap(n);
    let p = w.rhs_rem as nat;
    let pm = pow2(p) as int;
    let q = pow2((n - p) as nat) as int;
    lemma_pow2_facts(p, n);
    let md = w.modulus as int;
    let sm = shift_size_modulus(w);
    assert(sm == m);
    let li = w.lhs as int;
    let round = w.round as int;
    let rem = w.rem as int;
    let res = w.res as int;
    let pr = li * md;
    assert(0 <= pr < 0x1_0000_0000_0000_0000_0000_0000_0000_0000) by (nonlinear_arith)
        requires
            pr == li * md,
            0 <= li < 0x1_0000_0000_0000_0000,
            0 < md < 0x1_0000_0000_0000_0000,
    ;
    assert(0 <= round * sm <= 0x1_0000_0000_0000_0000_0000_0000_0000_0000) by (nonlinear_arith)
        requires
            0 <= round < 0x1_0000_0000_0000_0000,
            0 < sm <= 0x1_0000_0000_0000_0000,
    ;
    let s = if w.is_shl { b2i(w.is_shl) } else { b2i(w.is_rotl) };
    assert(s == 1);
    lemma_fzero_mul_bit(li * md - round * sm - rem, s);
    lemma_fzero_mul_bit(rem + w.diff + 1 - sm, s);
    vstd::arithmetic::mul::lemma_mul_is_commutative(round, sm);
    vstd::arithmetic::div_mod::lemma_fundamental_div_mod_converse(pr, m, round, rem);
    if w.is_shl {
        lemma_fzero_mul_bit(res - rem, 1);
    } else {
        lemma_fzero_mul_bit(res - rem - round, 1);
        vstd::arithmetic::div_mod::lemma_div_denominator(pr, pm, q);
        vstd::arithmetic::mul::lemma_mul_is_commutative(li, pm);
        vstd::arithmetic::div_mod::lemma_div_multiples_vanish(li, pm);
    }
}

/// Soundness: wherever the gates and the power table lookup hold and the
/// stack values are of the width the step declares, exactly one operator is
/// selected, the remainder cell holds the right operand modulo the width,
/// the modulus cell two to that remainder, and the result cell holds the
/// WebAssembly result, the shift amount being that remainder.
pub proof fn lemma_shift_sound(w: BinShiftWitness)
    requires
        shift_gates(w),
        w.lhs < wrap(shift_bits(w)),
        w.res < wrap(shift_bits(w)),
    ensures
        w.rhs_rem as int == w.rhs as int % shift_bits(w) as int,
        w.modulus as int == pow2(w.rhs_rem as nat),
        b2i(w.is_shr_u) + b2i(w.is_shr_s) + b2i(w.is_shl) + b2i(w.is_rotl) + b2i(w.is_rotr) == 1,
        w.res == wasm_shift(shift_selected(w), w.lhs as int, (w.rhs as int % shift_bits(w) as int) as nat, shift_bits(w)),
{
    lemma_shift_sound_power(w);
    if w.is_shl || w.is_rotl {
        lemma_shift_sound_left(w);
    } else {
        lemma_shift_sound_right(w);
    }
}

/// Whether `x` is in the power table.
pub(crate) fn check_pow_table(x: u128) -> (b: bool)
    ensures
        b == in_pow_table(x as int),
{
    let k: u128 = x % 0x10000;
    proof {
        lemma2_to64();
        lemma_pow2_adds(64, 64);
        if in_pow_table(x as int) {
            let j = choose|j: nat| j < 128 && x as int == #[trigger] pow_table_entry(j);
            lemma_pow2_adds(j, 16);
            lemma_pow2_pos(j);
            vstd::arithmetic::div_mod::lemma_fundamental_div_mod_converse(x as int, 0x10000, pow2(j) as int, j as int);
            assert(j == k);
            if j + 16 > 128 {
                vstd::arithmetic::power2::lemma_pow2_strictly_increases(128, j + 16);
            }
            assert(j + 16 < 128);
        }
    }
    if k >= 112 {
        return false;
    }
    let kk = k as u64;
    proof {
        vstd::arithmetic::power2::lemma_pow2_strictly_increases((kk + 16) as nat, 128);
        if kk + 16 < 127 {
            vstd::arithmetic::power2::lemma_pow2_strictly_increases((kk + 16) as nat, 127);
        }
        vstd::arithmetic::power2::lemma_pow2_unfold(128);
    }
    let p: u128 = pow2_u128(kk + 16);
    proof {
        if x as int == pow_table_entry(kk as nat) {
            assert(in_pow_table(x as int));
        }
    }
    x == p + k
}

/// Two to the power `e`, below 2 to the 128.
fn pow2_u128(e: u64) -> (r: u128)
    requires
        e < 128,
    ensures
        r == pow2(e as nat),
{
    let mut r: u128 = 1;
    let mut i: u64 = 0;
    proof {
        lemma2_to64();
    }
    while i < e
        invariant
            0 <= i <= e,
            e < 128,
            r == pow2(i as nat),
        decreases e - i,
    {
        proof {
            vstd::arithmetic::power2::lemma_pow2_unfold((i + 1) as nat);
            vstd::arithmetic::power2::lemma_pow2_strictly_increases((i + 1) as nat, 128);
            lemma_pow2_adds(64, 64);
            lemma2_to64();
            assert(pow2(128) == 0x1_0000_0000_0000_0000_0000_0000_0000_0000);
        }
        r = r * 2;
        i = i + 1;
    }
    r
}

/// Whether the common gates hold.
fn check_shift_common(w: &BinShiftWitness) -> (b: bool)
    ensures
        b == shift_gates_common(*w),
{
    let bm: u64 = if w.is_eight_bytes { 64 } else { 32 };
    let n15 = nibble_at(w.lhs, 15);
    let n7 = nibble_at(w.lhs, 7);
    let lead: u64 = if w.is_eight_bytes { n15 } else { n7 };
    proof {
        lemma_byte0(w.rhs);
        vstd::arithmetic::mul::lemma_mul_basics(nibble(w.lhs, 15));
        vstd::arithmetic::mul::lemma_mul_basics(nibble(w.lhs, 7));
        let flag_u4 = b2i(w.is_eight_bytes) * nibble(w.lhs, 15) + (1 - b2i(w.is_eight_bytes)) * nibble(w.lhs, 7);
        assert(flag_u4 == lead);
        assert(shift_bit_modulus(*w) == bm);
        lemma_fzero_small(
            b2i(w.is_shr_u) + b2i(w.is_shr_s) + b2i(w.is_shl) + b2i(w.is_rotl) + b2i(w.is_rotr) - 1,
        );
        assert(0 <= w.rhs_round * bm <= 0x10000 * 64) by (nonlinear_arith)
            requires
                0 <= w.rhs_round < 0x10000,
                0 < bm <= 64,
        ;
        lemma_fzero_small(w.rhs_round * shift_bit_modulus(*w) + w.rhs_rem - byte(w.rhs, 0));
        lemma_fzero_small(w.rhs_rem + w.rhs_rem_diff + 1 - shift_bit_modulus(*w));
        lemma_fzero_small(b2i(w.flag_bit) * 8 + w.flag_u4_rem - flag_u4);
        lemma_fzero_small(w.flag_u4_rem + w.flag_u4_rem_diff - 7);
        assert(0 <= w.modulus * 0x10000 <= 0x1_0000_0000_0000_0000_0000) by (nonlinear_arith)
            requires
                0 <= w.modulus < 0x1_0000_0000_0000_0000,
        ;
        lemma_fzero_small(w.lookup_pow - pow_table_encode(w.modulus as int, w.rhs_rem as int));
    }
    let sel = (w.is_shr_u as u64) + (w.is_shr_s as u64) + (w.is_shl as u64) + (w.is_rotl as u64)
        + (w.is_rotr as u64) == 1;
    let g1 = (w.rhs_round as u64) * bm + (w.rhs_rem as u64) == w.rhs % 256;
    let g2 = (w.rhs_rem as u64) + (w.rhs_rem_diff as u64) + 1 == bm;
    let g3 = (if w.flag_bit { 8u64 } else { 0u64 }) + (w.flag_u4_rem as u64) == lead;
    let g4 = (w.flag_u4_rem as u64) + (w.flag_u4_rem_diff as u64) == 7;
    let g5 = w.lookup_pow == (w.modulus as u128) * 0x10000 + (w.rhs_rem as u128);
    sel && g1 && g2 && g3 && g4 && g5
}

/// Whether the gates of the right shifts and rotation hold.
fn check_shift_right(w: &BinShiftWitness) -> (b: bool)
    ensures
        b == shift_gates_right(*w),
{
    let sm: u128 = if w.is_eight_bytes { 0x1_0000_0000_0000_0000 } else { 0x1_0000_0000 };
    let md = w.modulus as u128;
    let rem = w.rem as u128;
    let round = w.round as u128;
    let res = w.res as u128;
    let pad = w.pad as u128;
    let l = w.lhs as u128;
    let ghost big: int = 0x1_0000_0000_0000_0000_0000_0000_0000_0000int;
    proof {
        assert(shift_size_modulus(*w) == sm);
        assert(0 <= round * md <= 0xffff_ffff_ffff_fffe_0000_0000_0000_0001) by (nonlinear_arith)
            requires
                0 <= round < 0x1_0000_0000_0000_0000,
                0 <= md < 0x1_0000_0000_0000_0000,
        ;
        assert(0 <= res * md <= 0xffff_ffff_ffff_fffe_0000_0000_0000_0001) by (nonlinear_arith)
            requires
                0 <= res < 0x1_0000_0000_0000_0000,
                0 <= md < 0x1_0000_0000_0000_0000,
        ;
        assert(0 <= pad * md <= 0xffff_ffff_ffff_fffe_0000_0000_0000_0001) by (nonlinear_arith)
            requires
                0 <= pad < 0x1_0000_0000_0000_0000,
                0 <= md < 0x1_0000_0000_0000_0000,
        ;
        assert(0 <= rem * sm <= 0xffff_ffff_ffff_ffff_0000_0000_0000_0000) by (nonlinear_arith)
            requires
                0 <= rem < 0x1_0000_0000_0000_0000,
                0 < sm <= 0x1_0000_0000_0000_0000,
        ;
        assert(-big <= b2i(w.flag_bit) * (md - 1) * sm <= big) by (nonlinear_arith)
            requires
                0 <= b2i(w.flag_bit) <= 1,
                0 <= md < 0x1_0000_0000_0000_0000,
                0 < sm <= 0x1_0000_0000_0000_0000,
                big == 0x1_0000_0000_0000_0000_0000_0000_0000_0000,
        ;
        lemma_fzero_mul_bit(w.rem + w.diff + 1 - md, b2i(w.is_shr_u));
        lemma_fzero_mul_bit(w.rem + w.round * md - w.lhs, b2i(w.is_shr_u));
        lemma_fzero_mul_bit(w.res - w.round, b2i(w.is_shr_u));
        lemma_fzero_mul_bit(w.rem + w.round * md - w.lhs, b2i(w.is_shr_s));
        lemma_fzero_mul_bit(w.rem + w.diff + 1 - md, b2i(w.is_shr_s));
        lemma_fzero_mul_bit(w.res - w.round - w.pad, b2i(w.is_shr_s));
        lemma_fzero_mul_bit(w.pad * md - b2i(w.flag_bit) * (md - 1) * sm, b2i(w.is_shr_s));
        lemma_fzero_mul_bit(w.rem + w.diff + 1 - md, b2i(w.is_rotr));
        lemma_fzero_mul_bit(w.rem + w.round * md - w.lhs, b2i(w.is_rotr));
        lemma_fzero_mul_bit(w.res * md - w.round * md - w.rem * sm, b2i(w.is_rotr));
        vstd::arithmetic::mul::lemma_mul_basics((md - 1) * sm);
        vstd::arithmetic::mul::lemma_mul_basics(sm as int);
    }
    let split_ok = rem + (w.diff as u128) + 1 == md;
    let div_ok = rem + round * md == l;
    let pad_ok = if md == 0 {
        proof {
            assert(b2i(w.flag_bit) * (md - 1) * sm == -b2i(w.flag_bit) * sm) by (nonlinear_arith)
                requires
                    md == 0,
            ;
            vstd::arithmetic::mul::lemma_mul_basics(pad as int);
        }
        !w.flag_bit
    } else {
        proof {
            assert(0 <= (md - 1) * sm <= 0xffff_ffff_ffff_fffe_0000_0000_0000_0000) by (nonlinear_arith)
                requires
                    1 <= md < 0x1_0000_0000_0000_0000,
                    0 < sm <= 0x1_0000_0000_0000_0000,
            ;
            vstd::arithmetic::mul::lemma_mul_basics((md - 1) * sm);
        }
        pad * md == (if w.flag_bit { (md - 1) * sm } else { 0 })
    };
    let rot_ok = match (round * md).checked_add(rem * sm) {
        Some(t) => res * md == t,
        None => false,
    };
    let g_shr_u = !w.is_shr_u || (split_ok && div_ok && res == round);
    let g_shr_s = !w.is_shr_s || (split_ok && div_ok && res == round + pad && pad_ok);
    let g_rotr = !w.is_rotr || (split_ok && div_ok && rot_ok);
    g_shr_u && g_shr_s && g_rotr
}

/// Whether the gates of the left shift and rotation hold.
fn check_shift_left(w: &BinShiftWitness) -> (b: bool)
    ensures
        b == shift_gates_left(*w),
{
    let sm: u128 = if w.is_eight_bytes { 0x1_0000_0000_0000_0000 } else { 0x1_0000_0000 };
    let md = w.modulus as u128;
    let rem = w.rem as u128;
    let round = w.round as u128;
    let res = w.res as u128;
    let l = w.lhs as u128;
    proof {
        assert(shift_size_modulus(*w) == sm);
        assert(0 <= l * md <= 0xffff_ffff_ffff_fffe_0000_0000_0000_0001) by (nonlinear_arith)
            requires
                0 <= l < 0x1_0000_0000_0000_0000,
                0 <= md < 0x1_0000_0000_0000_0000,
        ;
        assert(0 <= round * sm <= 0xffff_ffff_ffff_ffff_0000_0000_0000_0000) by (nonlinear_arith)
            requires
                0 <= round < 0x1_0000_0000_0000_0000,
                0 < sm <= 0x1_0000_0000_0000_0000,
        ;
        lemma_fzero_mul_bit(w.lhs * md - w.round * sm - w.rem, b2i(w.is_shl));
        lemma_fzero_mul_bit(w.rem + w.diff + 1 - sm, b2i(w.is_shl));
        lemma_fzero_mul_bit(w.res - w.rem, b2i(w.is_shl));
        lemma_fzero_mul_bit(w.lhs * md - w.round * sm - w.rem, b2i(w.is_rotl));
        lemma_fzero_mul_bit(w.rem + w.diff + 1 - sm, b2i(w.is_rotl));
        lemma_fzero_mul_bit(w.res - w.rem - w.round, b2i(w.is_rotl));
    }
    let mul_ok = l * md == round * sm + rem;
    let split_ok = rem + (w.diff as u128) + 1 == sm;
    let g_shl = !w.is_shl || (mul_ok && split_ok && res == rem);
    let g_rotl = !w.is_rotl || (mul_ok && split_ok && res == rem + round);
    g_shl && g_rotl
}

/// Whether every gate of the gadget, and its power table lookup, hold on
/// the values `w`.
pub fn shift_gates_hold(w: &BinShiftWitness) -> (b: bool)
    ensures
        b == shift_gates(*w),
{
    let a = check_shift_common(w);
    let b = check_shift_right(w);
    let c = check_shift_left(w);
    let d = check_pow_table(w.lookup_pow);
    a && b && c && d
}

/// The operator, type and operands of a step, as 64-bit patterns.
pub open spec fn shift_operands(step: StepInfo) -> (ShiftOp, VarType, u64, u64, u64) {
    match step {
        StepInfo::I32BinShiftOp { class, left, right, value } => (
            class,
            VarType::I32,
            left as u32 as u64,
            right as u32 as u64,
            value as u32 as u64,
        ),
        StepInfo::I64BinShiftOp { class, left, right, value } => (
            class,
            VarType::I64,
            left as u64,
            right as u64,
            value as u64,
        ),
        _ => (ShiftOp::Shl, VarType::I32, 0, 0, 0),
    }
}

/// The step is one of a shift or rotation.
pub open spec fn is_shift_step(step: StepInfo) -> bool {
    step is I32BinShiftOp || step is I64BinShiftOp
}

/// The values computed for a recorded step.
pub fn shift_step_witness(step: &StepInfo) -> (w: BinShiftWitness)
    requires
        is_shift_step(*step),
    ensures
        ({
            let (class, vtype, l, r, v) = shift_operands(*step);
            w == spec_shift_witness(class, vtype, l, r, v)
        }),
{
    match step {
        StepInfo::I32BinShiftOp { class, left, right, value } => shift_witness(
            *class,
            VarType::I32,
            *left as u32 as u64,
            *right as u32 as u64,
            *value as u32 as u64,
        ),
        StepInfo::I64BinShiftOp { class, left, right, value } => shift_witness(
            *class,
            VarType::I64,
            *left as u64,
            *right as u64,
            *value as u64,
        ),
        _ => shift_witness(ShiftOp::Shl, VarType::I32, 0, 0, 0),
    }
}

/// The assignments that do not depend on the operator.
pub open spec fn shift_common_writes(c: BinShiftConfig, off: int, w: BinShiftWitness) -> Seq<CellWrite> {
    u64_cell_writes(c.lhs, off, w.lhs) + bit_writes(c.flag_bit, off, w.flag_bit)
        + common_range_writes(c.flag_u4_rem, off, w.flag_u4_rem)
        + common_range_writes(c.flag_u4_rem_diff, off, w.flag_u4_rem_diff)
        + u64_on_u8_cell_writes(c.rhs, off, w.rhs) + common_range_writes(c.rhs_round, off, w.rhs_round)
        + common_range_writes(c.rhs_rem, off, w.rhs_rem)
        + common_range_writes(c.rhs_rem_diff, off, w.rhs_rem_diff)
        + u64_cell_writes(c.modulus, off, w.modulus)
        + one_write(c.lookup_pow.col, off, c.lookup_pow.rot as int, pow_table_value(w.rhs_rem as u64))
        + bit_writes(c.is_eight_bytes, off, w.is_eight_bytes)
        + one_write(c.res.col, off, c.res.rot as int, fv_u64(w.res))
}

/// The selector bit of an operator.
pub open spec fn shift_selector(c: BinShiftConfig, class: ShiftOp) -> BitCell {
    match class {
        ShiftOp::Shl => c.is_shl,
        ShiftOp::UnsignedShr => c.is_shr_u,
        ShiftOp::SignedShr => c.is_shr_s,
        ShiftOp::Rotl => c.is_rotl,
        ShiftOp::Rotr => c.is_rotr,
    }
}

/// The assignments that depend on the operator.
pub open spec fn shift_class_writes(c: BinShiftConfig, off: int, class: ShiftOp, w: BinShiftWitness) -> Seq<CellWrite> {
    bit_writes(shift_selector(c, class), off, true) + u64_on_u8_cell_writes(c.round, off, w.round)
        + u64_cell_writes(c.rem, off, w.rem) + u64_on_u8_cell_writes(c.diff, off, w.diff) + (if class
        == ShiftOp::SignedShr && w.flag_bit && w.rhs_rem != 0 {
        u64_on_u8_cell_writes(c.pad, off, w.pad)
    } else {
        Seq::empty()
    })
}

/// The assignments that the gadget makes for a step, in order.
pub open spec fn shift_writes(c: BinShiftConfig, off: int, step: StepInfo) -> Seq<CellWrite> {
    let (class, vtype, l, r, v) = shift_operands(step);
    let w = spec_shift_witness(class, vtype, l, r, v);
    shift_common_writes(c, off, w) + shift_class_writes(c, off, class, w)
}

/// What a shift step writes whatever its operator: the left operand to
/// the left cell, the shift amount to the right cell, the amount modulo
/// the width to the remainder cell, and the result to the result cell.
pub proof fn lemma_shift_common_writes_cells(c: BinShiftConfig, off: int, w: BinShiftWitness)
    ensures
        crate::circuits::etable_compact::op_configure::has_write(shift_common_writes(c, off, w), c.lhs.value_col, off + c.lhs.value_rot, crate::circuits::utils::fv_u64(w.lhs)),
        crate::circuits::etable_compact::op_configure::has_write(shift_common_writes(c, off, w), c.rhs.value_col, off + c.rhs.value_rot, crate::circuits::utils::fv_u64(w.rhs)),
        crate::circuits::etable_compact::op_configure::has_write(shift_common_writes(c, off, w), c.rhs_rem.col, off + c.rhs_rem.rot, crate::circuits::utils::fv_u64(w.rhs_rem as u64)),
        crate::circuits::etable_compact::op_configure::has_write(shift_common_writes(c, off, w), c.res.col, off + c.res.rot, crate::circuits::utils::fv_u64(w.res)),
{
    let p0 = u64_cell_writes(c.lhs, off, w.lhs);
    let p1 = bit_writes(c.flag_bit, off, w.flag_bit);
    let p2 = common_range_writes(c.flag_u4_rem, off, w.flag_u4_rem);
    let p3 = common_range_writes(c.flag_u4_rem_diff, off, w.flag_u4_rem_diff);
    let p4 = u64_on_u8_cell_writes(c.rhs, off, w.rhs);
    let p5 = common_range_writes(c.rhs_round, off, w.rhs_round);
    let p6 = common_range_writes(c.rhs_rem, off, w.rhs_rem);
    let p7 = common_range_writes(c.rhs_rem_diff, off, w.rhs_rem_diff);
    let p8 = u64_cell_writes(c.modulus, off, w.modulus);
    let p9 = one_write(c.lookup_pow.col, off, c.lookup_pow.rot as int, pow_table_value(w.rhs_rem as u64));
    let p10 = bit_writes(c.is_eight_bytes, off, w.is_eight_bytes);
    let p11 = one_write(c.res.col, off, c.res.rot as int, fv_u64(w.res));
    assert(shift_common_writes(c, off, w) =~= p0 + p1 + p2 + p3 + p4 + p5 + p6 + p7 + p8 + p9 + p10 + p11);
    {
        crate::circuits::etable_compact::op_configure::lemma_u64_cell_writes_value(c.lhs, off, w.lhs);
        crate::circuits::etable_compact::op_configure::lemma_has_write_append(p0, p1, c.lhs.value_col, off + c.lhs.value_rot, crate::circuits::utils::fv_u64(w.lhs));
        crate::circuits::etable_compact::op_configure::lemma_has_write_append(p0 + p1, p2, c.lhs.value_col, off + c.lhs.value_rot, crate::circuits::utils::fv_u64(w.lhs));
        crate::circuits::etable_compact::op_configure::lemma_has_write_append(p0 + p1 + p2, p3, c.lhs.value_col, off + c.lhs.value_rot, crate::circuits::utils::fv_u64(w.lhs));
        crate::circuits::etable_compact::op_configure::lemma_has_write_append(p0 + p1 + p2 + p3, p4, c.lhs.value_col, off + c.lhs.value_rot, crate::circuits::utils::fv_u64(w.lhs));
        crate::circuits::etable_compact::op_configure::lemma_has_write_append(p0 + p1 + p2 + p3 + p4, p5, c.lhs.value_col, off + c.lhs.value_rot, crate::circuits::utils::fv_u64(w.lhs));
        crate::circuits::etable_compact::op_configure::lemma_has_write_append(p0 + p1 + p2 + p3 + p4 + p5, p6, c.lhs.value_col, off + c.lhs.value_rot, crate::circuits::utils::fv_u64(w.lhs));
        crate::circuits::etable_compact::op_configure::lemma_has_write_append(p0 + p1 + p2 + p3 + p4 + p5 + p6, p7, c.lhs.value_col, off + c.lhs.value_rot, crate::circuits::utils::fv_u64(w.lhs));
        crate::circuits::etable_compact::op_configure::lemma_has_write_append(p0 + p1 + p2 + p3 + p4 + p5 + p6 + p7, p8, c.lhs.value_col, off + c.lhs.value_rot, crate::circuits::utils::fv_u64(w.lhs));
        crate::circuits::etable_compact::op_configure::lemma_has_write_append(p0 + p1 + p2 + p3 + p4 + p5 + p6 + p7 + p8, p9, c.lhs.value_col, off + c.lhs.value_rot, crate::circuits::utils::fv_u64(w.lhs));
        crate::circuits::etable_compact::op_configure::lemma_has_write_append(p0 + p1 + p2 + p3 + p4 + p5 + p6 + p7 + p8 + p9, p10, c.lhs.value_col, off + c.lhs.value_rot, crate::circuits::utils::fv_u64(w.lhs));
        crate::circuits::etable_compact::op_configure::lemma_has_write_append(p0 + p1 + p2 + p3 + p4 + p5 + p6 + p7 + p8 + p9 + p10, p11, c.lhs.value_col, off + c.lhs.value_rot, crate::circuits::utils::fv_u64(w.lhs));
    }
    {
        crate::circuits::etable_compact::op_configure::lemma_u64_on_u8_cell_writes_value(c.rhs, off, w.rhs);
        crate::circuits::etable_compact::op_configure::lemma_has_write_append(p0, p1, c.rhs.value_col, off + c.rhs.value_rot, crate::circuits::utils::fv_u64(w.rhs));
        crate::circuits::etable_compact::op_configure::lemma_has_write_append(p0 + p1, p2, c.rhs.value_col, off + c.rhs.value_rot, crate::circuits::utils::fv_u64(w.rhs));
        crate::circuits::etable_compact::op_configure::lemma_has_write_append(p0 + p1 + p2, p3, c.rhs.value_col, off + c.rhs.value_rot, crate::circuits::utils::fv_u64(w.rhs));
        crate::circuits::etable_compact::op_configure::lemma_has_write_append(p0 + p1 + p2 + p3, p4, c.rhs.value_col, off + c.rhs.value_rot, crate::circuits::utils::fv_u64(w.rhs));
        crate::circuits::etable_compact::op_configure::lemma_has_write_append(p0 + p1 + p2 + p3 + p4, p5, c.rhs.value_col, off + c.rhs.value_rot, crate::circuits::utils::fv_u64(w.rhs));
        crate::circuits::etable_compact::op_configure::lemma_has_write_append(p0 + p1 + p2 + p3 + p4 + p5, p6, c.rhs.value_col, off + c.rhs.value_rot, crate::circuits::utils::fv_u64(w.rhs));
        crate::circuits::etable_compact::op_configure::lemma_has_write_append(p0 + p1 + p2 + p3 + p4 + p5 + p6, p7, c.rhs.value_col, off + c.rhs.value_rot, crate::circuits::utils::fv_u64(w.rhs));
        crate::circuits::etable_compact::op_configure::lemma_has_write_append(p0 + p1 + p2 + p3 + p4 + p5 + p6 + p7, p8, c.rhs.value_col, off + c.rhs.value_rot, crate::circuits::utils::fv_u64(w.rhs));
        crate::circuits::etable_compact::op_configure::lemma_has_write_append(p0 + p1 + p2 + p3 + p4 + p5 + p6 + p7 + p8, p9, c.rhs.value_col, off + c.rhs.value_rot, crate::circuits::utils::fv_u64(w.rhs));
        crate::circuits::etable_compact::op_configure::lemma_has_write_append(p0 + p1 + p2 + p3 + p4 + p5 + p6 + p7 + p8 + p9, p10, c.rhs.value_col, off + c.rhs.value_rot, crate::circuits::utils::fv_u64(w.rhs));
        crate::circuits::etable_compact::op_configure::lemma_has_write_append(p0 + p1 + p2 + p3 + p4 + p5 + p6 + p7 + p8 + p9 + p10, p11, c.rhs.value_col, off + c.rhs.value_rot, crate::circuits::utils::fv_u64(w.rhs));
    }
    {
        crate::circuits::etable_compact::op_configure::lemma_has_write_one(c.rhs_rem.col, off, c.rhs_rem.rot as int, crate::circuits::utils::fv_u64(w.rhs_rem as u64));
        crate::circuits::etable_compact::op_configure::lemma_has_write_append(p0, p1, c.rhs_rem.col, off + c.rhs_rem.rot, crate::circuits::utils::fv_u64(w.rhs_rem as u64));
        crate::circuits::etable_compact::op_configure::lemma_has_write_append(p0 + p1, p2, c.rhs_rem.col, off + c.rhs_rem.rot, crate::circuits::utils::fv_u64(w.rhs_rem as u64));
        crate::circuits::etable_compact::op_configure::lemma_has_write_append(p0 + p1 + p2, p3, c.rhs_rem.col, off + c.rhs_rem.rot, crate::circuits::utils::fv_u64(w.rhs_rem as u64));
        crate::circuits::etable_compact::op_configure::lemma_has_write_append(p0 + p1 + p2 + p3, p4, c.rhs_rem.col, off + c.rhs_rem.rot, crate::circuits::utils::fv_u64(w.rhs_rem as u64));
        crate::circuits::etable_compact::op_configure::lemma_has_write_append(p0 + p1 + p2 + p3 + p4, p5, c.rhs_rem.col, off + c.rhs_rem.rot, crate::circuits::utils::fv_u64(w.rhs_rem as u64));
        crate::circuits::etable_compact::op_configure::lemma_has_write_append(p0 + p1 + p2 + p3 + p4 + p5, p6, c.rhs_rem.col, off + c.rhs_rem.rot, crate::circuits::utils::fv_u64(w.rhs_rem as u64));
        crate::circuits::etable_compact::op_configure::lemma_has_write_append(p0 + p1 + p2 + p3 + p4 + p5 + p6, p7, c.rhs_rem.col, off + c.rhs_rem.rot, crate::circuits::utils::fv_u64(w.rhs_rem as u64));
        crate::circuits::etable_compact::op_configure::lemma_has_write_append(p0 + p1 + p2 + p3 + p4 + p5 + p6 + p7, p8, c.rhs_rem.col, off + c.rhs_rem.rot, crate::circuits::utils::fv_u64(w.rhs_rem as u64));
        crate::circuits::etable_compact::op_configure::lemma_has_write_append(p0 + p1 + p2 + p3 + p4 + p5 + p6 + p7 + p8, p9, c.rhs_rem.col, off + c.rhs_rem.rot, crate::circuits::utils::fv_u64(w.rhs_rem as u64));
        crate::circuits::etable_compact::op_configure::lemma_has_write_append(p0 + p1 + p2 + p3 + p4 + p5 + p6 + p7 + p8 + p9, p10, c.rhs_rem.col, off + c.rhs_rem.rot, crate::circuits::utils::fv_u64(w.rhs_rem as u64));
        crate::circuits::etable_compact::op_configure::lemma_has_write_append(p0 + p1 + p2 + p3 + p4 + p5 + p6 + p7 + p8 + p9 + p10, p11, c.rhs_rem.col, off + c.rhs_rem.rot, crate::circuits::utils::fv_u64(w.rhs_rem as u64));
    }
    {
        crate::circuits::etable_compact::op_configure::lemma_has_write_one(c.res.col, off, c.res.rot as int, crate::circuits::utils::fv_u64(w.res));
        crate::circuits::etable_compact::op_configure::lemma_has_write_append(p0, p1, c.res.col, off + c.res.rot, crate::circuits::utils::fv_u64(w.res));
        crate::circuits::etable_compact::op_configure::lemma_has_write_append(p0 + p1, p2, c.res.col, off + c.res.rot, crate::circuits::utils::fv_u64(w.res));
        crate::circuits::etable_compact::op_configure::lemma_has_write_append(p0 + p1 + p2, p3, c.res.col, off + c.res.rot, crate::circuits::utils::fv_u64(w.res));
        crate::circuits::etable_compact::op_configure::lemma_has_write_append(p0 + p1 + p2 + p3, p4, c.res.col, off + c.res.rot, crate::circuits::utils::fv_u64(w.res));
        crate::circuits::etable_compact::op_configure::lemma_has_write_append(p0 + p1 + p2 + p3 + p4, p5, c.res.col, off + c.res.rot, crate::circuits::utils::fv_u64(w.res));
        crate::circuits::etable_compact::op_configure::lemma_has_write_append(p0 + p1 + p2 + p3 + p4 + p5, p6, c.res.col, off + c.res.rot, crate::circuits::utils::fv_u64(w.res));
        crate::circuits::etable_compact::op_configure::lemma_has_write_append(p0 + p1 + p2 + p3 + p4 + p5 + p6, p7, c.res.col, off + c.res.rot, crate::circuits::utils::fv_u64(w.res));
        crate::circuits::etable_compact::op_configure::lemma_has_write_append(p0 + p1 + p2 + p3 + p4 + p5 + p6 + p7, p8, c.res.col, off + c.res.rot, crate::circuits::utils::fv_u64(w.res));
        crate::circuits::etable_compact::op_configure::lemma_has_write_append(p0 + p1 + p2 + p3 + p4 + p5 + p6 + p7 + p8, p9, c.res.col, off + c.res.rot, crate::circuits::utils::fv_u64(w.res));
        crate::circuits::etable_compact::op_configure::lemma_has_write_append(p0 + p1 + p2 + p3 + p4 + p5 + p6 + p7 + p8 + p9, p10, c.res.col, off + c.res.rot, crate::circuits::utils::fv_u64(w.res));
        crate::circuits::etable_compact::op_configure::lemma_has_write_append(p0 + p1 + p2 + p3 + p4 + p5 + p6 + p7 + p8 + p9 + p10, p11, c.res.col, off + c.res.rot, crate::circuits::utils::fv_u64(w.res));
    }
}

impl BinShiftConfig {
    /// Assigns the cells that do not depend on the operator.
    fn assign_common(&self, ctx: &mut Context, w: &BinShiftWitness)
        requires
            self.wf(),
            old(ctx).offset + 40 <= i32::MAX,
            w.rhs_rem < 64,
        ensures
            final(ctx).offset == old(ctx).offset,
            final(ctx).writes@ == old(ctx).writes@ + shift_common_writes(*self, old(ctx).offset as int, *w),
    {
        let ghost start = old(ctx).writes@;
        let ghost o = old(ctx).offset as int;
        self.lhs.assign(ctx, w.lhs);
        let ghost mut acc = u64_cell_writes(self.lhs, o, w.lhs);
        self.flag_bit.assign(ctx, w.flag_bit);
        proof {
            lemma_append_assoc(start, acc, bit_writes(self.flag_bit, o, w.flag_bit));
            acc = acc + bit_writes(self.flag_bit, o, w.flag_bit);
        }
        self.flag_u4_rem.assign(ctx, w.flag_u4_rem);
        proof {
            lemma_append_assoc(start, acc, common_range_writes(self.flag_u4_rem, o, w.flag_u4_rem));
            acc = acc + common_range_writes(self.flag_u4_rem, o, w.flag_u4_rem);
        }
        self.flag_u4_rem_diff.assign(ctx, w.flag_u4_rem_diff);
        proof {
            lemma_append_assoc(start, acc, common_range_writes(self.flag_u4_rem_diff, o, w.flag_u4_rem_diff));
            acc = acc + common_range_writes(self.flag_u4_rem_diff, o, w.flag_u4_rem_diff);
        }
        self.rhs.assign(ctx, w.rhs);
        proof {
            lemma_append_assoc(start, acc, u64_on_u8_cell_writes(self.rhs, o, w.rhs));
            acc = acc + u64_on_u8_cell_writes(self.rhs, o, w.rhs);
        }
        self.rhs_round.assign(ctx, w.rhs_round);
        proof {
            lemma_append_assoc(start, acc, common_range_writes(self.rhs_round, o, w.rhs_round));
            acc = acc + common_range_writes(self.rhs_round, o, w.rhs_round);
        }
        self.rhs_rem.assign(ctx, w.rhs_rem);
        proof {
            lemma_append_assoc(start, acc, common_range_writes(self.rhs_rem, o, w.rhs_rem));
            acc = acc + common_range_writes(self.rhs_rem, o, w.rhs_rem);
        }
        self.rhs_rem_diff.assign(ctx, w.rhs_rem_diff);
        proof {
            lemma_append_assoc(start, acc, common_range_writes(self.rhs_rem_diff, o, w.rhs_rem_diff));
            acc = acc + common_range_writes(self.rhs_rem_diff, o, w.rhs_rem_diff);
        }
        self.modulus.assign(ctx, w.modulus);
        proof {
            lemma_append_assoc(start, acc, u64_cell_writes(self.modulus, o, w.modulus));
            acc = acc + u64_cell_writes(self.modulus, o, w.modulus);
        }
        self.lookup_pow.assign(ctx, w.rhs_rem as u64);
        proof {
            lemma_append_assoc(start, acc, one_write(self.lookup_pow.col, o, self.lookup_pow.rot as int, pow_table_value(w.rhs_rem as u64)));
            acc = acc + one_write(self.lookup_pow.col, o, self.lookup_pow.rot as int, pow_table_value(w.rhs_rem as u64));
        }
        self.is_eight_bytes.assign(ctx, w.is_eight_bytes);
        proof {
            lemma_append_assoc(start, acc, bit_writes(self.is_eight_bytes, o, w.is_eight_bytes));
            acc = acc + bit_writes(self.is_eight_bytes, o, w.is_eight_bytes);
        }
        self.res.assign(ctx, FieldValue::from_u64(w.res));
        proof {
            lemma_append_assoc(start, acc, one_write(self.res.col, o, self.res.rot as int, fv_u64(w.res)));
            acc = acc + one_write(self.res.col, o, self.res.rot as int, fv_u64(w.res));
        }
    }

    /// Assigns the cells that depend on the operator.
    fn assign_class(&self, ctx: &mut Context, class: ShiftOp, w: &BinShiftWitness)
        requires
            self.wf(),
            old(ctx).offset + 40 <= i32::MAX,
        ensures
            final(ctx).offset == old(ctx).offset,
            final(ctx).writes@ == old(ctx).writes@ + shift_class_writes(*self, old(ctx).offset as int, class, *w),
    {
        let ghost start = old(ctx).writes@;
        let ghost o = old(ctx).offset as int;
        match class {
            ShiftOp::Shl => self.is_shl.assign(ctx, true),
            ShiftOp::UnsignedShr => self.is_shr_u.assign(ctx, true),
            ShiftOp::SignedShr => self.is_shr_s.assign(ctx, true),
            ShiftOp::Rotl => self.is_rotl.assign(ctx, true),
            ShiftOp::Rotr => self.is_rotr.assign(ctx, true),
        }
        self.round.assign(ctx, w.round);
        self.rem.assign(ctx, w.rem);
        self.diff.assign(ctx, w.diff);
        let signed: bool = match class {
            ShiftOp::SignedShr => true,
            _ => false,
        };
        if signed && w.flag_bit && w.rhs_rem != 0 {
            self.pad.assign(ctx, w.pad);
        }
        proof {
            assert(ctx.writes@ =~= start + shift_class_writes(*self, o, class, *w));
        }
    }

    /// Assigns the gadget's cells for a step of a shift or rotation.
    fn assign_cells(&self, ctx: &mut Context, step: &StepInfo)
        requires
            self.wf(),
            old(ctx).offset + 40 <= i32::MAX,
            is_shift_step(*step),
        ensures
            final(ctx).offset == old(ctx).offset,
            final(ctx).writes@ == old(ctx).writes@ + shift_writes(*self, old(ctx).offset as int, *step),
    {
        let w = shift_step_witness(step);
        let class: ShiftOp = match step {
            StepInfo::I32BinShiftOp { class, .. } => *class,
            StepInfo::I64BinShiftOp { class, .. } => *class,
            _ => ShiftOp::Shl,
        };
        let ghost start = old(ctx).writes@;
        let ghost o = old(ctx).offset as int;
        self.assign_common(ctx, &w);
        self.assign_class(ctx, class, &w);
        proof {
            lemma_append_assoc(start, shift_common_writes(*self, o, w), shift_class_writes(*self, o, class, w));
        }
    }

    /// Assigns the step's cells, as `assign_cells` does, and the
    /// encodings `enc` of the step's stack and memory accesses to its
    /// memory table lookup cells, in order.
    pub fn assign(&self, ctx: &mut Context, step: &StepInfo, enc: &Vec<FieldValue>)
        requires
            enc.len() == 3,
            self.wf(),
            old(ctx).offset + 40 <= i32::MAX,
            is_shift_step(*step),
        ensures
            final(ctx).offset == old(ctx).offset,
            final(ctx).writes@ == old(ctx).writes@ + shift_writes(*self, old(ctx).offset as int, *step) + mtable_lookup_writes(
                self.lookups(),
                old(ctx).offset as int,
                enc@,
            ),
    {
        self.assign_cells(ctx, step);
        let mut cells: Vec<MTableLookupCell> = Vec::new();
        cells.push(self.lookup_stack_read_lhs);
        cells.push(self.lookup_stack_read_rhs);
        cells.push(self.lookup_stack_write);
        proof {
            assert(cells@ =~= self.lookups());
        }
        assign_mtable_lookups(ctx, &cells, enc);
    }
}

} // verus!
