//! The gadget of the integer conversions: `i32.wrap_i64` keeps the low four
//! bytes, `i64.extend_i32_u` keeps the value, and `i64.extend_i32_s` fills
//! the high half with the sign bit, which the gadget reads off the value's
//! fourth byte.

use vstd::prelude::*;
use crate::circuits::utils::FieldValue;
use vstd::arithmetic::power::pow;
use vstd::arithmetic::power2::{lemma2_to64, pow2};
use crate::circuits::etable_compact::op_configure::{
    assign_mtable_lookups, mtable_lookup_cell_ok, mtable_lookup_writes,
    bit_cell_at, bit_cell_ok, bit_writes, byte, byte_at, common_range_cell_ok, common_range_writes, lemma_append_assoc,
    mtable_lookup_cell_at, u64_cell_at, u64_cell_ok, u64_cell_writes, u64_on_u8_cell_at, u64_on_u8_cell_ok,
    u64_on_u8_cell_writes, BitCell, CommonRangeCell, EventTableCellAllocator, MTableLookupCell, U64Cell,
    U64OnU8Cell,
};
use crate::circuits::etable_compact::{BIT_CELLS, COL_STATE, ETABLE_STEP_SIZE};
use crate::circuits::step::StepInfo;
use crate::circuits::utils::{b2i, fzero, lemma_digit_index, lemma_fzero_small, CellWrite, Context};

verus! {

/// The cells of the gadget.
#[derive(Clone, Copy, Debug, PartialEq, Eq, Structural)]
pub struct ConversionConfig {
    pub value: U64OnU8Cell,
    pub value_type: CommonRangeCell,
    pub res: U64Cell,
    pub res_type: CommonRangeCell,
    pub flag_bit: BitCell,
    pub flag_u8_rem: CommonRangeCell,
    pub flag_u8_rem_diff: CommonRangeCell,
    pub is_i32_wrap_i64: BitCell,
    pub is_i64_extend_i32_u: BitCell,
    pub is_i64_extend_i32_s: BitCell,
    pub lookup_stack_read: MTableLookupCell,
    pub lookup_stack_write: MTableLookupCell,
}

/// Builds the gadget.
pub struct ConversionConfigBuilder {}

/// The cells that the gadget takes from an allocator in state `a`.
pub open spec fn conversion_layout(a: EventTableCellAllocator) -> ConversionConfig {
    let r = a.common_range_index;
    let b = a.bit_index as int;
    ConversionConfig {
        value: u64_on_u8_cell_at(a.u64_on_u8_index as int),
        value_type: CommonRangeCell { col: COL_STATE, rot: r },
        res: u64_cell_at(a.u64_index as int),
        res_type: CommonRangeCell { col: COL_STATE, rot: (r + 1) as i32 },
        flag_bit: bit_cell_at(b),
        flag_u8_rem: CommonRangeCell { col: COL_STATE, rot: (r + 2) as i32 },
        flag_u8_rem_diff: CommonRangeCell { col: COL_STATE, rot: (r + 3) as i32 },
        is_i32_wrap_i64: bit_cell_at(b + 1),
        is_i64_extend_i32_u: bit_cell_at(b + 2),
        is_i64_extend_i32_s: bit_cell_at(b + 3),
        lookup_stack_read: mtable_lookup_cell_at(a.mtable_lookup_index as int),
        lookup_stack_write: mtable_lookup_cell_at(a.mtable_lookup_index + 1),
    }
}

impl ConversionConfig {
    /// Every cell lies within a block.
    pub open spec fn wf(self) -> bool {
        &&& u64_on_u8_cell_ok(self.value)
        &&& common_range_cell_ok(self.value_type)
        &&& u64_cell_ok(self.res)
        &&& common_range_cell_ok(self.res_type)
        &&& bit_cell_ok(self.flag_bit)
        &&& common_range_cell_ok(self.flag_u8_rem)
        &&& common_range_cell_ok(self.flag_u8_rem_diff)
        &&& bit_cell_ok(self.is_i32_wrap_i64)
        &&& bit_cell_ok(self.is_i64_extend_i32_u)
        &&& bit_cell_ok(self.is_i64_extend_i32_s)
        &&& mtable_lookup_cell_ok(self.lookup_stack_read)
        &&& mtable_lookup_cell_ok(self.lookup_stack_write)
    }

    /// The memory table lookup cells of the step, in the order of the
    /// gadget's cells.
    pub open spec fn lookups(self) -> Seq<MTableLookupCell> {
        seq![self.lookup_stack_read, self.lookup_stack_write]
    }
}

impl ConversionConfigBuilder {
    /// Takes the gadget's cells from the allocator of its block.
    pub fn configure(common: &mut EventTableCellAllocator) -> (r: ConversionConfig)
        requires
            old(common).wf(),
            old(common).u64_on_u8_index + 1 <= 4,
            old(common).u64_index + 1 <= 3,
            old(common).common_range_index + 4 <= ETABLE_STEP_SIZE,
            old(common).bit_index + 4 <= BIT_CELLS,
            old(common).mtable_lookup_index + 2 <= 11,
        ensures
            r == conversion_layout(*old(common)),
            r.wf(),
            final(common).wf(),
    {
        let value = common.alloc_u64_on_u8();
        let value_type = common.alloc_common_range_value();
        let res = common.alloc_u64();
        let res_type = common.alloc_common_range_value();
        let flag_bit = common.alloc_bit_value();
        let flag_u8_rem = common.alloc_common_range_value();
        let flag_u8_rem_diff = common.alloc_common_range_value();
        let is_i32_wrap_i64 = common.alloc_bit_value();
        let is_i64_extend_i32_u = common.alloc_bit_value();
        let is_i64_extend_i32_s = common.alloc_bit_value();
        let lookup_stack_read = common.alloc_mtable_lookup();
        let lookup_stack_write = common.alloc_mtable_lookup();
        ConversionConfig {
            value,
            value_type,
            res,
            res_type,
            flag_bit,
            flag_u8_rem,
            flag_u8_rem_diff,
            is_i32_wrap_i64,
            is_i64_extend_i32_u,
            is_i64_extend_i32_s,
            lookup_stack_read,
            lookup_stack_write,
        }
    }
}

/// The values that a conversion step puts in the gadget's cells; a wrap
/// leaves the three cells of the sign unassigned, and they hold zero.
#[derive(Clone, Copy, Debug, PartialEq, Eq, Structural)]
pub struct ConversionWitness {
    pub value: u64,
    pub value_type: u16,
    pub res: u64,
    pub res_type: u16,
    pub flag_bit: bool,
    pub flag_u8_rem: u16,
    pub flag_u8_rem_diff: u16,
    pub is_i32_wrap_i64: bool,
    pub is_i64_extend_i32_u: bool,
    pub is_i64_extend_i32_s: bool,
}

/// The values that the gadget assigns for a conversion step: the operand
/// and the result as 64-bit patterns with their types, and, for an
/// extension, the sign bit of the operand and the rest of its fourth byte.
pub open spec fn spec_conversion_witness(step: StepInfo) -> ConversionWitness {
    match step {
        StepInfo::I32WrapI64 { value, result } => ConversionWitness {
            value: value as u64,
            value_type: 2,
            res: result as u32 as u64,
            res_type: 1,
            flag_bit: false,
            flag_u8_rem: 0,
            flag_u8_rem_diff: 0,
            is_i32_wrap_i64: true,
            is_i64_extend_i32_u: false,
            is_i64_extend_i32_s: false,
        },
        StepInfo::I64ExtendI32 { value, result, sign } => {
            let v = value as u32 as u64;
            let flag_u8 = v as int / 0x100_0000;
            ConversionWitness {
                value: v,
                value_type: 1,
                res: result as u64,
                res_type: 2,
                flag_bit: flag_u8 / 128 == 1,
                flag_u8_rem: (flag_u8 % 128) as u16,
                flag_u8_rem_diff: (127 - flag_u8 % 128) as u16,
                is_i32_wrap_i64: false,
                is_i64_extend_i32_u: !sign,
                is_i64_extend_i32_s: sign,
            }
        },
        _ => ConversionWitness {
            value: 0,
            value_type: 0,
            res: 0,
            res_type: 0,
            flag_bit: false,
            flag_u8_rem: 0,
            flag_u8_rem_diff: 0,
            is_i32_wrap_i64: false,
            is_i64_extend_i32_u: false,
            is_i64_extend_i32_s: false,
        },
    }
}

/// The low four bytes of `v`, each at its place.
pub open spec fn low_four_bytes(v: u64) -> int {
    byte(v, 0) + byte(v, 1) * 0x100 + byte(v, 2) * 0x1_0000 + byte(v, 3) * 0x100_0000
}

/// The gates of the gadget: one conversion is selected; the types of the
/// operand and the result match it; a wrap's result is the operand's low
/// four bytes; an extension splits the operand's fourth byte into its top
/// bit and a rest of at most 127; an unsigned extension's result is the
/// operand; and a signed one's is the operand with the high half filled
/// with the top bit.
pub open spec fn conversion_gates(w: ConversionWitness) -> bool {
    let wrap = b2i(w.is_i32_wrap_i64);
    let ext = b2i(w.is_i64_extend_i32_s) + b2i(w.is_i64_extend_i32_u);
    &&& fzero(b2i(w.is_i32_wrap_i64) + b2i(w.is_i64_extend_i32_u) + b2i(w.is_i64_extend_i32_s) - 1)
    &&& fzero(wrap * (w.value_type - 2))
    &&& fzero(wrap * (w.res_type - 1))
    &&& fzero(ext * (w.value_type - 1))
    &&& fzero(ext * (w.res_type - 2))
    &&& fzero(wrap * (low_four_bytes(w.value) - w.res))
    &&& fzero(ext * (b2i(w.flag_bit) * 128 + w.flag_u8_rem - byte(w.value, 3)))
    &&& fzero(ext * (w.flag_u8_rem + w.flag_u8_rem_diff - 127))
    &&& fzero(b2i(w.is_i64_extend_i32_u) * (w.res - w.value))
    &&& fzero(b2i(w.is_i64_extend_i32_s) * (b2i(w.flag_bit) * 0xffff_ffff_0000_0000 + w.value - w.res))
}

/// Whether the gates hold on the values `w`.
pub fn conversion_gates_hold(w: &ConversionWitness) -> (b: bool)
    ensures
        b == conversion_gates(*w),
{
    let wrap: i128 = if w.is_i32_wrap_i64 { 1 } else { 0 };
    let eu: i128 = if w.is_i64_extend_i32_u { 1 } else { 0 };
    let es: i128 = if w.is_i64_extend_i32_s { 1 } else { 0 };
    let fb: i128 = if w.flag_bit { 1 } else { 0 };
    let ext: i128 = es + eu;
    let v: i128 = w.value as i128;
    let r: i128 = w.res as i128;
    let vt: i128 = w.value_type as i128;
    let rt: i128 = w.res_type as i128;
    let rem: i128 = w.flag_u8_rem as i128;
    let rem_diff: i128 = w.flag_u8_rem_diff as i128;
    let b0: i128 = byte_at(w.value, 0) as i128;
    let b1: i128 = byte_at(w.value, 1) as i128;
    let b2: i128 = byte_at(w.value, 2) as i128;
    let b3: i128 = byte_at(w.value, 3) as i128;
    let low: i128 = b0 + b1 * 0x100 + b2 * 0x1_0000 + b3 * 0x100_0000;
    let p1: i128 = wrap + eu + es - 1;
    let p2: i128 = wrap * (vt - 2);
    let p3: i128 = wrap * (rt - 1);
    let p4: i128 = ext * (vt - 1);
    let p5: i128 = ext * (rt - 2);
    let p6: i128 = wrap * (low - r);
    let p7: i128 = ext * (fb * 128 + rem - b3);
    let p8: i128 = ext * (rem + rem_diff - 127);
    let p9: i128 = eu * (r - v);
    let p10: i128 = es * (fb * 0xffff_ffff_0000_0000 + v - r);
    proof {
        assert(low == low_four_bytes(w.value));
        assert(wrap == b2i(w.is_i32_wrap_i64));
        assert(ext == b2i(w.is_i64_extend_i32_s) + b2i(w.is_i64_extend_i32_u));
        lemma_fzero_small(p1 as int);
        lemma_fzero_small(p2 as int);
        lemma_fzero_small(p3 as int);
        lemma_fzero_small(p4 as int);
        lemma_fzero_small(p5 as int);
        lemma_fzero_small(p6 as int);
        lemma_fzero_small(p7 as int);
        lemma_fzero_small(p8 as int);
        lemma_fzero_small(p9 as int);
        lemma_fzero_small(p10 as int);
    }
    p1 == 0 && p2 == 0 && p3 == 0 && p4 == 0 && p5 == 0 && p6 == 0 && p7 == 0 && p8 == 0 && p9 == 0 && p10 == 0
}

/// A conversion whose recorded result is what WebAssembly computes, on the
/// 64-bit patterns of the operand and the result: a wrap keeps the low
/// thirty-two bits, an unsigned extension the value, and a signed one adds
/// the high half of ones where bit thirty-one is set.
pub open spec fn conversion_step_valid(step: StepInfo) -> bool {
    let w = spec_conversion_witness(step);
    match step {
        StepInfo::I32WrapI64 { .. } => w.res == w.value as int % 0x1_0000_0000,
        StepInfo::I64ExtendI32 { sign, .. } => if sign && w.value >= 0x8000_0000 {
            w.res == w.value + 0xffff_ffff_0000_0000
        } else {
            w.res == w.value
        },
        _ => false,
    }
}

/// The low four bytes of `v` spell out its remainder by two to the
/// thirty-second, and its fourth byte is the value below that power over
/// two to the twenty-fourth.
proof fn lemma_low_four_bytes(v: u64)
    ensures
        low_four_bytes(v) == v as int % 0x1_0000_0000,
        byte(v, 3) == (v as int / 0x100_0000) % 256,
{
    crate::circuits::etable_compact::op_configure::op_load::lemma_low_bytes_step(v, 0);
    crate::circuits::etable_compact::op_configure::op_load::lemma_low_bytes_step(v, 1);
    crate::circuits::etable_compact::op_configure::op_load::lemma_low_bytes_step(v, 2);
    crate::circuits::etable_compact::op_configure::op_load::lemma_low_bytes_step(v, 3);
    lemma_digit_index(v as int, 256, 8, 3);
    assert(pow(256, 0) == 1 && pow(256, 1) == 0x100 && pow(256, 2) == 0x1_0000 && pow(256, 3) == 0x100_0000 && pow(
        256,
        4,
    ) == 0x1_0000_0000) by {
        reveal_with_fuel(pow, 5);
    }
    assert(v as int % 1 == 0);
}

/// Completeness: the values that the gadget assigns for a valid conversion
/// satisfy its gates.
pub proof fn lemma_conversion_complete(step: StepInfo)
    requires
        conversion_step_valid(step),
    ensures
        conversion_gates(spec_conversion_witness(step)),
{
    let w = spec_conversion_witness(step);
    lemma_low_four_bytes(w.value);
    if step is I32WrapI64 {
        assert(b2i(w.is_i32_wrap_i64) == 1);
        assert(low_four_bytes(w.value) - w.res == 0);
        assert(b2i(w.is_i64_extend_i32_s) + b2i(w.is_i64_extend_i32_u) == 0);
        assert(fzero(0));
    } else {
        let flag_u8 = w.value as int / 0x100_0000;
        assert(w.value < 0x1_0000_0000);
        assert(flag_u8 < 256);
        vstd::arithmetic::div_mod::lemma_small_mod(flag_u8 as nat, 256);
        assert(byte(w.value, 3) == flag_u8);
        assert(b2i(w.flag_bit) * 128 + w.flag_u8_rem == flag_u8);
        assert(b2i(w.is_i32_wrap_i64) == 0);
        assert(b2i(w.is_i64_extend_i32_s) + b2i(w.is_i64_extend_i32_u) == 1);
        assert(w.flag_bit == (w.value >= 0x8000_0000));
        if w.is_i64_extend_i32_s {
            assert(b2i(w.is_i64_extend_i32_u) == 0);
            assert(b2i(w.flag_bit) * 0xffff_ffff_0000_0000 + w.value - w.res == 0);
        } else {
            assert(b2i(w.is_i64_extend_i32_s) == 0);
            assert(w.res - w.value == 0);
        }
        assert(fzero(0));
    }
}

/// Soundness: where the gates hold on cells in their ranges, the result is
/// the operand's low four bytes for a wrap, the operand for an unsigned
/// extension, and for a signed one the operand plus the high half of ones
/// exactly where the operand's fourth byte has its top bit set.
pub proof fn lemma_conversion_sound(w: ConversionWitness)
    requires
        conversion_gates(w),
    ensures
        w.is_i32_wrap_i64 ==> w.res == w.value as int % 0x1_0000_0000,
        w.is_i64_extend_i32_u ==> w.res == w.value,
        w.is_i64_extend_i32_s ==> w.flag_bit == (byte(w.value, 3) >= 128),
        w.is_i64_extend_i32_s ==> w.res == w.value + b2i(w.flag_bit) * 0xffff_ffff_0000_0000,
{
    lemma_low_four_bytes(w.value);
    let s = b2i(w.is_i32_wrap_i64) + b2i(w.is_i64_extend_i32_u) + b2i(w.is_i64_extend_i32_s);
    lemma_fzero_small(s - 1);
    if w.is_i32_wrap_i64 {
        assert(b2i(w.is_i32_wrap_i64) * (low_four_bytes(w.value) - w.res) == low_four_bytes(w.value) - w.res);
        lemma_fzero_small(low_four_bytes(w.value) - w.res);
    }
    if w.is_i64_extend_i32_u {
        assert(b2i(w.is_i64_extend_i32_u) * (w.res - w.value) == w.res - w.value);
        lemma_fzero_small(w.res - w.value);
    }
    if w.is_i64_extend_i32_s {
        assert(!w.is_i32_wrap_i64 && !w.is_i64_extend_i32_u);
        let ext = b2i(w.is_i64_extend_i32_s) + b2i(w.is_i64_extend_i32_u);
        assert(ext == 1);
        vstd::arithmetic::mul::lemma_mul_basics(b2i(w.flag_bit) * 128 + w.flag_u8_rem - byte(w.value, 3));
        vstd::arithmetic::mul::lemma_mul_basics(w.flag_u8_rem + w.flag_u8_rem_diff - 127);
        let d1 = b2i(w.flag_bit) * 128 + w.flag_u8_rem - byte(w.value, 3);
        let d2 = w.flag_u8_rem + w.flag_u8_rem_diff - 127;
        assert(ext * d1 == d1);
        assert(ext * d2 == d2);
        crate::circuits::utils::lemma_digits_shape(w.value as int, 256, 8);
        assert(0 <= byte(w.value, 3) < 256);
        lemma_fzero_small(d1);
        lemma_fzero_small(d2);
        let d3 = b2i(w.flag_bit) * 0xffff_ffff_0000_0000 + w.value - w.res;
        assert(b2i(w.is_i64_extend_i32_s) * d3 == d3);
        lemma_fzero_small(d3);
    }
}

/// The assignments that the gadget makes for a conversion: the flag of the
/// conversion, for an extension the sign bit and the rest of the fourth
/// byte, then the operand, the result and their types.
pub open spec fn conversion_writes(c: ConversionConfig, o: int, w: ConversionWitness) -> Seq<CellWrite> {
    (if w.is_i32_wrap_i64 {
        bit_writes(c.is_i32_wrap_i64, o, true)
    } else {
        (if w.is_i64_extend_i32_s {
            bit_writes(c.is_i64_extend_i32_s, o, true)
        } else {
            bit_writes(c.is_i64_extend_i32_u, o, true)
        }) + bit_writes(c.flag_bit, o, w.flag_bit) + common_range_writes(c.flag_u8_rem, o, w.flag_u8_rem)
            + common_range_writes(c.flag_u8_rem_diff, o, w.flag_u8_rem_diff)
    }) + u64_on_u8_cell_writes(c.value, o, w.value) + u64_cell_writes(c.res, o, w.res) + common_range_writes(
        c.value_type,
        o,
        w.value_type,
    ) + common_range_writes(c.res_type, o, w.res_type)
}

/// What a conversion step writes: the operand to the value cell, the
/// result to the result cell, and the operand's and the result's types to
/// their type cells.
pub proof fn lemma_conversion_writes_cells(c: ConversionConfig, off: int, w: ConversionWitness)
    ensures
        crate::circuits::etable_compact::op_configure::has_write(conversion_writes(c, off, w), c.value.value_col, off + c.value.value_rot, crate::circuits::utils::fv_u64(w.value)),
        crate::circuits::etable_compact::op_configure::has_write(conversion_writes(c, off, w), c.res.value_col, off + c.res.value_rot, crate::circuits::utils::fv_u64(w.res)),
        crate::circuits::etable_compact::op_configure::has_write(conversion_writes(c, off, w), c.value_type.col, off + c.value_type.rot, crate::circuits::utils::fv_u64(w.value_type as u64)),
        crate::circuits::etable_compact::op_configure::has_write(conversion_writes(c, off, w), c.res_type.col, off + c.res_type.rot, crate::circuits::utils::fv_u64(w.res_type as u64)),
{
    let p0 = (if w.is_i32_wrap_i64 { bit_writes(c.is_i32_wrap_i64, off, true) } else { (if w.is_i64_extend_i32_s { bit_writes(c.is_i64_extend_i32_s, off, true) } else { bit_writes(c.is_i64_extend_i32_u, off, true) }) + bit_writes(c.flag_bit, off, w.flag_bit) + common_range_writes(c.flag_u8_rem, off, w.flag_u8_rem) + common_range_writes(c.flag_u8_rem_diff, off, w.flag_u8_rem_diff) });
    let p1 = u64_on_u8_cell_writes(c.value, off, w.value);
    let p2 = u64_cell_writes(c.res, off, w.res);
    let p3 = common_range_writes(c.value_type, off, w.value_type);
    let p4 = common_range_writes(c.res_type, off, w.res_type);
    assert(conversion_writes(c, off, w) =~= p0 + p1 + p2 + p3 + p4);
    {
        crate::circuits::etable_compact::op_configure::lemma_u64_on_u8_cell_writes_value(c.value, off, w.value);
        crate::circuits::etable_compact::op_configure::lemma_has_write_append(p0, p1, c.value.value_col, off + c.value.value_rot, crate::circuits::utils::fv_u64(w.value));
        crate::circuits::etable_compact::op_configure::lemma_has_write_append(p0 + p1, p2, c.value.value_col, off + c.value.value_rot, crate::circuits::utils::fv_u64(w.value));
        crate::circuits::etable_compact::op_configure::lemma_has_write_append(p0 + p1 + p2, p3, c.value.value_col, off + c.value.value_rot, crate::circuits::utils::fv_u64(w.value));
        crate::circuits::etable_compact::op_configure::lemma_has_write_append(p0 + p1 + p2 + p3, p4, c.value.value_col, off + c.value.value_rot, crate::circuits::utils::fv_u64(w.value));
    }
    {
        crate::circuits::etable_compact::op_configure::lemma_u64_cell_writes_value(c.res, off, w.res);
        crate::circuits::etable_compact::op_configure::lemma_has_write_append(p0, p1, c.res.value_col, off + c.res.value_rot, crate::circuits::utils::fv_u64(w.res));
        crate::circuits::etable_compact::op_configure::lemma_has_write_append(p0 + p1, p2, c.res.value_col, off + c.res.value_rot, crate::circuits::utils::fv_u64(w.res));
        crate::circuits::etable_compact::op_configure::lemma_has_write_append(p0 + p1 + p2, p3, c.res.value_col, off + c.res.value_rot, crate::circuits::utils::fv_u64(w.res));
        crate::circuits::etable_compact::op_configure::lemma_has_write_append(p0 + p1 + p2 + p3, p4, c.res.value_col, off + c.res.value_rot, crate::circuits::utils::fv_u64(w.res));
    }
    {
        crate::circuits::etable_compact::op_configure::lemma_has_write_one(c.value_type.col, off, c.value_type.rot as int, crate::circuits::utils::fv_u64(w.value_type as u64));
        crate::circuits::etable_compact::op_configure::lemma_has_write_append(p0, p1, c.value_type.col, off + c.value_type.rot, crate::circuits::utils::fv_u64(w.value_type as u64));
        crate::circuits::etable_compact::op_configure::lemma_has_write_append(p0 + p1, p2, c.value_type.col, off + c.value_type.rot, crate::circuits::utils::fv_u64(w.value_type as u64));
        crate::circuits::etable_compact::op_configure::lemma_has_write_append(p0 + p1 + p2, p3, c.value_type.col, off + c.value_type.rot, crate::circuits::utils::fv_u64(w.value_type as u64));
        crate::circuits::etable_compact::op_configure::lemma_has_write_append(p0 + p1 + p2 + p3, p4, c.value_type.col, off + c.value_type.rot, crate::circuits::utils::fv_u64(w.value_type as u64));
    }
    {
        crate::circuits::etable_compact::op_configure::lemma_has_write_one(c.res_type.col, off, c.res_type.rot as int, crate::circuits::utils::fv_u64(w.res_type as u64));
        crate::circuits::etable_compact::op_configure::lemma_has_write_append(p0, p1, c.res_type.col, off + c.res_type.rot, crate::circuits::utils::fv_u64(w.res_type as u64));
        crate::circuits::etable_compact::op_configure::lemma_has_write_append(p0 + p1, p2, c.res_type.col, off + c.res_type.rot, crate::circuits::utils::fv_u64(w.res_type as u64));
        crate::circuits::etable_compact::op_configure::lemma_has_write_append(p0 + p1 + p2, p3, c.res_type.col, off + c.res_type.rot, crate::circuits::utils::fv_u64(w.res_type as u64));
        crate::circuits::etable_compact::op_configure::lemma_has_write_append(p0 + p1 + p2 + p3, p4, c.res_type.col, off + c.res_type.rot, crate::circuits::utils::fv_u64(w.res_type as u64));
    }
}

impl ConversionConfig {
    /// Assigns the gadget's cells for a conversion step, and gives the
    /// values assigned.
    fn assign_cells(&self, ctx: &mut Context, step: &StepInfo) -> (w: ConversionWitness)
        requires
            self.wf(),
            old(ctx).offset + 40 <= i32::MAX,
            step is I32WrapI64 || step is I64ExtendI32,
        ensures
            w == spec_conversion_witness(*step),
            final(ctx).offset == old(ctx).offset,
            final(ctx).writes@ == old(ctx).writes@ + conversion_writes(*self, old(ctx).offset as int, w),
    {
        let ghost s0 = old(ctx).writes@;
        let ghost o = old(ctx).offset as int;
        let w = match step {
            StepInfo::I32WrapI64 { value, result } => {
                self.is_i32_wrap_i64.assign(ctx, true);
                ConversionWitness {
                    value: *value as u64,
                    value_type: 2,
                    res: *result as u32 as u64,
                    res_type: 1,
                    flag_bit: false,
                    flag_u8_rem: 0,
                    flag_u8_rem_diff: 0,
                    is_i32_wrap_i64: true,
                    is_i64_extend_i32_u: false,
                    is_i64_extend_i32_s: false,
                }
            },
            _ => {
                let (value, result, sign) = match step {
                    StepInfo::I64ExtendI32 { value, result, sign } => (*value, *result, *sign),
                    _ => (0, 0, false),
                };
                if sign {
                    self.is_i64_extend_i32_s.assign(ctx, true);
                } else {
                    self.is_i64_extend_i32_u.assign(ctx, true);
                }
                let v: u32 = value as u32;
                let flag_u8: u32 = v >> 24;
                let flag_bit: u32 = flag_u8 >> 7;
                let rem: u32 = flag_u8 & 0x7f;
                proof {
                    vstd::bits::lemma_u32_shr_is_div(v, 24);
                    vstd::bits::lemma_u32_shr_is_div(flag_u8, 7);
                    vstd::bits::lemma_u32_low_bits_mask_is_mod(flag_u8, 7);
                    lemma2_to64();
                }
                let diff: u32 = 0x7f - rem;
                let w = ConversionWitness {
                    value: v as u64,
                    value_type: 1,
                    res: result as u64,
                    res_type: 2,
                    flag_bit: flag_bit == 1,
                    flag_u8_rem: rem as u16,
                    flag_u8_rem_diff: diff as u16,
                    is_i32_wrap_i64: false,
                    is_i64_extend_i32_u: !sign,
                    is_i64_extend_i32_s: sign,
                };
                self.flag_bit.assign(ctx, w.flag_bit);
                self.flag_u8_rem.assign(ctx, w.flag_u8_rem);
                self.flag_u8_rem_diff.assign(ctx, w.flag_u8_rem_diff);
                w
            },
        };
        let ghost s1 = ctx.writes@;
        self.value.assign(ctx, w.value);
        self.res.assign(ctx, w.res);
        self.value_type.assign(ctx, w.value_type);
        self.res_type.assign(ctx, w.res_type);
        proof {
            assert(ctx.writes@ =~= s0 + conversion_writes(*self, o, w));
        }
        w
    }

    /// Assigns the step's cells, as `assign_cells` does, and the
    /// encodings `enc` of the step's stack and memory accesses to its
    /// memory table lookup cells, in order.
    pub fn assign(&self, ctx: &mut Context, step: &StepInfo, enc: &Vec<FieldValue>) -> (w: ConversionWitness)
        requires
            enc.len() == 2,
            self.wf(),
            old(ctx).offset + 40 <= i32::MAX,
            step is I32WrapI64 || step is I64ExtendI32,
        ensures
            w == spec_conversion_witness(*step),
            final(ctx).offset == old(ctx).offset,
            final(ctx).writes@ == old(ctx).writes@ + conversion_writes(*self, old(ctx).offset as int, w) + mtable_lookup_writes(
                self.lookups(),
                old(ctx).offset as int,
                enc@,
            ),
    {
        let w = self.assign_cells(ctx, step);
        let mut cells: Vec<MTableLookupCell> = Vec::new();
        cells.push(self.lookup_stack_read);
        cells.push(self.lookup_stack_write);
        proof {
            assert(cells@ =~= self.lookups());
        }
        assign_mtable_lookups(ctx, &cells, enc);
        w
    }
}

} // verus!
