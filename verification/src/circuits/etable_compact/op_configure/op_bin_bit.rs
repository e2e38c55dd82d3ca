//! The gadget of the bitwise binary operators, of which `xor` is assigned:
//! the operation is selected through the 4-bit operation cell, whose value
//! is tied to the operation's class through the power table.

use vstd::prelude::*;
use vstd::arithmetic::power2::{lemma2_to64, lemma_pow2_adds, lemma_pow2_pos, pow2};
use crate::circuits::etable_compact::op_configure::{
    assign_mtable_lookups, mtable_lookup_cell_ok, mtable_lookup_writes,
    byte, common_range_cell_at, common_range_cell_ok, common_range_writes, lemma_append_assoc,
    mtable_lookup_cell_at, one_write, pow_table_entry, pow_table_value, u4_bop_cell_writes,
    u64_cell_at, u64_cell_ok, u64_cell_writes, u64_on_u8_cell_at, u64_on_u8_cell_ok,
    u64_on_u8_cell_writes, CommonRangeCell, EventTableCellAllocator, MTableLookupCell,
    PowTableLookupCell, U4BopCell, U64Cell, U64OnU8Cell,
};
use crate::circuits::etable_compact::op_configure::op_bin_shift::{check_pow_table, in_pow_table, pow_table_encode};
use crate::circuits::etable_compact::{COL_AUX, COL_U4_BOP};
use crate::circuits::step::{BitOp, StepInfo, VarType};
use crate::circuits::utils::{
    digits, fv_u64, fzero, lemma_digit_index, lemma_digits_shape, lemma_fzero_small, lemma_weighted_digits,
    weighted, CellWrite, Context, FieldValue,
};

verus! {

/// The number of the exclusive or among the operations of the 4-bit
/// operation table.
pub const BOP_XOR: u64 = 2u64;

/// The cells of the gadget.
#[derive(Clone, Copy, Debug, PartialEq, Eq, Structural)]
pub struct BinBitConfig {
    pub lhs: U64Cell,
    pub rhs: U64Cell,
    pub res: U64Cell,
    pub op: U4BopCell,
    pub op_class: U64OnU8Cell,
    pub op_lookup: PowTableLookupCell,
    pub vtype: CommonRangeCell,
    pub lookup_stack_read_lhs: MTableLookupCell,
    pub lookup_stack_read_rhs: MTableLookupCell,
    pub lookup_stack_write: MTableLookupCell,
}

/// Builds the gadget.
pub struct BinBitConfigBuilder {}

/// The cells that the gadget takes from an allocator in state `a`.
pub open spec fn bin_bit_layout(a: EventTableCellAllocator) -> BinBitConfig {
    let u = a.u64_index as int;
    let t = a.mtable_lookup_index as int;
    BinBitConfig {
        lhs: u64_cell_at(u),
        rhs: u64_cell_at(u + 1),
        res: u64_cell_at(u + 2),
        op: U4BopCell { col: COL_U4_BOP },
        op_class: u64_on_u8_cell_at(a.u64_on_u8_index as int),
        op_lookup: PowTableLookupCell { col: COL_AUX, rot: a.pow_table_lookup_index },
        vtype: common_range_cell_at(a.common_range_index as int),
        lookup_stack_read_lhs: mtable_lookup_cell_at(t),
        lookup_stack_read_rhs: mtable_lookup_cell_at(t + 1),
        lookup_stack_write: mtable_lookup_cell_at(t + 2),
    }
}

impl BinBitConfig {
    /// Every cell lies within a block.
    pub open spec fn wf(self) -> bool {
        &&& u64_cell_ok(self.lhs)
        &&& u64_cell_ok(self.rhs)
        &&& u64_cell_ok(self.res)
        &&& u64_on_u8_cell_ok(self.op_class)
        &&& 0 <= self.op_lookup.rot < 20
        &&& common_range_cell_ok(self.vtype)
        &&& mtable_lookup_cell_ok(self.lookup_stack_read_lhs)
        &&& mtable_lookup_cell_ok(self.lookup_stack_read_rhs)
        &&& mtable_lookup_cell_ok(self.lookup_stack_write)
    }

    /// The memory table lookup cells of the step, in the order of the
    /// gadget's cells.
    pub open spec fn lookups(self) -> Seq<MTableLookupCell> {
        seq![self.lookup_stack_read_lhs, self.lookup_stack_read_rhs, self.lookup_stack_write]
    }
}

impl BinBitConfigBuilder {
    /// Takes the gadget's cells from the allocator of its block.
    pub fn configure(common: &mut EventTableCellAllocator) -> (r: BinBitConfig)
        requires
            old(common).wf(),
            old(common).u64_index + 3 <= 3,
            old(common).u4_bop_index + 1 <= 1,
            old(common).u64_on_u8_index + 1 <= 4,
            old(common).pow_table_lookup_index + 1 <= 3,
            old(common).common_range_index + 1 <= 20,
            old(common).mtable_lookup_index + 3 <= 11,
        ensures
            r == bin_bit_layout(*old(common)),
            r.wf(),
            final(common).wf(),
            *final(common) == (EventTableCellAllocator {
                u64_index: (old(common).u64_index + 3) as i32,
                u4_bop_index: (old(common).u4_bop_index + 1) as i32,
                u64_on_u8_index: (old(common).u64_on_u8_index + 1) as i32,
                pow_table_lookup_index: (old(common).pow_table_lookup_index + 1) as i32,
                common_range_index: (old(common).common_range_index + 1) as i32,
                mtable_lookup_index: (old(common).mtable_lookup_index + 3) as i32,
                ..*old(common)
            }),
    {
        let lhs = common.alloc_u64();
        let rhs = common.alloc_u64();
        let res = common.alloc_u64();
        let op = common.alloc_u4_bop();
        let op_class = common.alloc_u64_on_u8();
        let op_lookup = common.alloc_pow_table_lookup();
        let vtype = common.alloc_common_range_value();
        let lookup_stack_read_lhs = common.alloc_mtable_lookup();
        let lookup_stack_read_rhs = common.alloc_mtable_lookup();
        let lookup_stack_write = common.alloc_mtable_lookup();
        BinBitConfig {
            lhs,
            rhs,
            res,
            op,
            op_class,
            op_lookup,
            vtype,
            lookup_stack_read_lhs,
            lookup_stack_read_rhs,
            lookup_stack_write,
        }
    }
}

/// The values that a bit operation step puts in the gadget's cells.
#[derive(Clone, Copy, Debug, PartialEq, Eq, Structural)]
pub struct BinBitWitness {
    pub class: BitOp,
    pub vtype: VarType,
    pub lhs: u64,
    pub rhs: u64,
    pub res: u64,
}

/// The operands of a bit operation step, each widened to 64 bits.
pub open spec fn bin_bit_witness(step: StepInfo) -> BinBitWitness {
    match step {
        StepInfo::I32BinBitOp { class, left, right, value } => BinBitWitness {
            class,
            vtype: VarType::I32,
            lhs: left as u32 as u64,
            rhs: right as u32 as u64,
            res: value as u32 as u64,
        },
        StepInfo::I64BinBitOp { class, left, right, value } => BinBitWitness {
            class,
            vtype: VarType::I64,
            lhs: left as u64,
            rhs: right as u64,
            res: value as u64,
        },
        _ => BinBitWitness { class: BitOp::And, vtype: VarType::I32, lhs: 0, rhs: 0, res: 0 },
    }
}

/// The number of the value type in a common range cell.
pub open spec fn vtype_u16(t: VarType) -> u16 {
    match t {
        VarType::I32 => 1u16,
        VarType::I64 => 2u16,
    }
}

/// The assignments of a step: the value type, the operands and the result,
/// then, for an exclusive or, its class, its operation cell and its power.
pub open spec fn bin_bit_writes(c: BinBitConfig, o: int, w: BinBitWitness) -> Seq<CellWrite> {
    common_range_writes(c.vtype, o, vtype_u16(w.vtype)) + u64_cell_writes(c.lhs, o, w.lhs)
        + u64_cell_writes(c.rhs, o, w.rhs) + u64_cell_writes(c.res, o, w.res) + if w.class
        == BitOp::Xor {
        u64_on_u8_cell_writes(c.op_class, o, BOP_XOR) + u4_bop_cell_writes(c.op, o, fv_u64(0x100_0000))
            + one_write(c.op_lookup.col, o, c.op_lookup.rot as int, pow_table_value(24))
    } else {
        Seq::empty()
    }
}

/// The gates of the gadget over the operation cell on the block's first
/// sixteen rows, the class and the power lookup: the lookup encodes the
/// operation cell with the power twelve times the class, the rows after the
/// first sum to fifteen times the first, and the class fits in two bytes.
pub open spec fn bin_bit_gates(op: Seq<int>, class: u64, lookup: int) -> bool {
    &&& op.len() == 16
    &&& fzero(lookup - pow_table_encode(op[0], 12 * class))
    &&& fzero(
        op[1] + op[2] + op[3] + op[4] + op[5] + op[6] + op[7] + op[8] + op[9] + op[10] + op[11]
            + op[12] + op[13] + op[14] + op[15] - 15 * op[0],
    )
    &&& fzero(
        byte(class, 2) + byte(class, 3) + byte(class, 4) + byte(class, 5) + byte(class, 6) + byte(
            class,
            7,
        ),
    )
    &&& in_pow_table(lookup)
}

/// A value below two to the sixteenth has no byte above the second.
proof fn lemma_high_bytes_zero(x: u64, i: nat)
    requires
        x < 0x10000,
        2 <= i < 8,
    ensures
        byte(x, i as int) == 0,
{
    lemma_digit_index(x as int, 256, 8, i);
    assert(vstd::arithmetic::power::pow(256, 2) == 0x10000) by {
        reveal_with_fuel(vstd::arithmetic::power::pow, 3);
    }
    vstd::arithmetic::power::lemma_pow_increases(256, 2, i);
    vstd::arithmetic::div_mod::lemma_basic_div(x as int, vstd::arithmetic::power::pow(256, i));
}

/// Completeness: the cells assigned for an exclusive or (the operation cell
/// two to the twenty-fourth on every row, the class and the power
/// twenty-four) satisfy the gates and the power table lookup.
pub proof fn lemma_bin_bit_complete()
    ensures
        bin_bit_gates(Seq::new(16, |i: int| 0x100_0000int), BOP_XOR, pow_table_entry(24)),
{
    let op = Seq::new(16, |i: int| 0x100_0000int);
    lemma2_to64();
    lemma_pow2_adds(24, 16);
    assert(pow2(40) == 0x100_0000_0000);
    lemma_high_bytes_zero(BOP_XOR, 2);
    lemma_high_bytes_zero(BOP_XOR, 3);
    lemma_high_bytes_zero(BOP_XOR, 4);
    lemma_high_bytes_zero(BOP_XOR, 5);
    lemma_high_bytes_zero(BOP_XOR, 6);
    lemma_high_bytes_zero(BOP_XOR, 7);
    assert(pow_table_entry(24) == pow_table_encode(op[0], 12 * BOP_XOR));
    assert(fzero(pow_table_entry(24) - pow_table_encode(op[0], 12 * BOP_XOR)));
    assert(in_pow_table(pow_table_entry(24)));
    assert(op[1] + op[2] + op[3] + op[4] + op[5] + op[6] + op[7] + op[8] + op[9] + op[10] + op[11]
            + op[12] + op[13] + op[14] + op[15] - 15 * op[0] == 0);

}

/// Soundness: where the operation cell is below two to the hundredth and
/// twelve times the class stays below two to the sixteenth, the gates pin
/// the operation cell to two to the power twelve times the class, and that
/// power is below the table's limit.
pub proof fn lemma_bin_bit_sound(op: Seq<int>, class: u64, lookup: int)
    requires
        bin_bit_gates(op, class, lookup),
        0 <= op[0] < pow2(100),
        12 * class < 0x10000,
    ensures
        op[0] == pow2((12 * class) as nat),
        12 * class < 128,
{
    let k = choose|k: nat| k < 128 && lookup == #[trigger] pow_table_entry(k);
    lemma_pow2_adds(k, 16);
    lemma_pow2_pos(k);
    lemma2_to64();
    vstd::arithmetic::power2::lemma_pow2_strictly_increases(k, 128);
    vstd::arithmetic::power2::lemma_pow2_strictly_increases(100, 128);
    lemma_pow2_adds(64, 64);
    lemma_pow2_adds(128, 16);
    let m = op[0];
    let p = pow2(k) as int;
    assert(pow2(144) == pow2(128) * 0x10000);
    assert(m * 0x10000 < pow2(128) * 0x10000) by (nonlinear_arith)
        requires
            m < pow2(128),
    ;
    assert(p * 0x10000 < pow2(128) * 0x10000) by (nonlinear_arith)
        requires
            p < pow2(128),
    ;
    lemma_fzero_small(lookup - pow_table_encode(m, 12 * class));
    assert(lookup == p * 0x10000 + k);
    assert(m * 0x10000 + 12 * class == p * 0x10000 + k);
    vstd::arithmetic::div_mod::lemma_fundamental_div_mod_converse(
        m * 0x10000 + 12 * class,
        0x10000,
        m,
        (12 * class) as int,
    );
    vstd::arithmetic::div_mod::lemma_fundamental_div_mod_converse(
        m * 0x10000 + 12 * class,
        0x10000,
        p,
        k as int,
    );
}

/// Digits that are all zero spell out zero.
proof fn lemma_weighted_zero(ds: Seq<int>, b: int)
    requires
        forall|i: int| 0 <= i < ds.len() ==> #[trigger] ds[i] == 0,
    ensures
        weighted(ds, b) == 0,
    decreases ds.len(),
{
    if ds.len() > 0 {
        let rest = ds.drop_first();
        assert forall|i: int| 0 <= i < rest.len() implies #[trigger] rest[i] == 0 by {
            assert(rest[i] == ds[i + 1]);
        }
        lemma_weighted_zero(rest, b);
    }
}

/// The bytes of a value above the second are all zero exactly when the
/// value is below two to the sixteenth.
proof fn lemma_high_bytes(x: u64)
    ensures
        (byte(x, 2) + byte(x, 3) + byte(x, 4) + byte(x, 5) + byte(x, 6) + byte(x, 7) == 0) <==> x
            < 0x10000,
        0 <= byte(x, 2) + byte(x, 3) + byte(x, 4) + byte(x, 5) + byte(x, 6) + byte(x, 7) < 0x10000,
{
    let y = x as int / 0x10000;
    vstd::arithmetic::div_mod::lemma_div_denominator(x as int, 256, 256);
    let ds = digits(y, 256, 6);
    assert(digits(x as int, 256, 8) =~= seq![x as int % 256, (x as int / 256) % 256].add(ds)) by {
        reveal_with_fuel(digits, 3);
    }
    lemma_digits_shape(y, 256, 6);
    assert(byte(x, 2) == ds[0] && byte(x, 3) == ds[1] && byte(x, 4) == ds[2]);
    assert(byte(x, 5) == ds[3] && byte(x, 6) == ds[4] && byte(x, 7) == ds[5]);
    assert(0 <= ds[0] < 256 && 0 <= ds[1] < 256 && 0 <= ds[2] < 256);
    assert(0 <= ds[3] < 256 && 0 <= ds[4] < 256 && 0 <= ds[5] < 256);
    if x < 0x10000 {
        assert(y == 0);
        lemma_high_bytes_zero(x, 2);
        lemma_high_bytes_zero(x, 3);
        lemma_high_bytes_zero(x, 4);
        lemma_high_bytes_zero(x, 5);
        lemma_high_bytes_zero(x, 6);
        lemma_high_bytes_zero(x, 7);
    } else if byte(x, 2) + byte(x, 3) + byte(x, 4) + byte(x, 5) + byte(x, 6) + byte(x, 7) == 0 {
        lemma_weighted_digits(y, 256, 6);
        lemma_weighted_zero(ds, 256);
        vstd::arithmetic::power::lemma_pow_positive(256, 6);
        vstd::arithmetic::div_mod::lemma_fundamental_div_mod(y, vstd::arithmetic::power::pow(256, 6));
        assert(vstd::arithmetic::power::pow(256, 6) == 0x1_0000_0000_0000) by {
            reveal_with_fuel(vstd::arithmetic::power::pow, 7);
        }
        assert(y < 0x1_0000_0000_0000);
        vstd::arithmetic::div_mod::lemma_small_mod(y as nat, 0x1_0000_0000_0000);
        assert(false);
    }
}

/// Whether every gate of the gadget and the power table lookup hold on the
/// operation cell `op` on the block's first sixteen rows, the class and the
/// power lookup.
pub fn bin_bit_gates_hold(op: &Vec<u64>, class: u64, lookup: u128) -> (b: bool)
    requires
        op.len() == 16,
    ensures
        b == bin_bit_gates(op@.map_values(|v: u64| v as int), class, lookup as int),
{
    let ghost ops = op@.map_values(|v: u64| v as int);
    let enc: u128 = op[0] as u128 * 0x10000 + 12 * class as u128;
    let g1 = lookup == enc;
    proof {
        assert(ops[0] == op[0] as int);
        lemma_fzero_small(lookup - pow_table_encode(ops[0], 12 * class));
    }
    let mut sum: u128 = 0;
    let mut i: usize = 1;
    while i < 16
        invariant
            1 <= i <= 16,
            op.len() == 16,
            ops == op@.map_values(|v: u64| v as int),
            sum < i * 0x1_0000_0000_0000_0000,
            sum == op@.subrange(1, i as int).map_values(|v: u64| v as int).fold_left(0int, |a: int, v: int| a + v),
        decreases 16 - i,
    {
        proof {
            let s = op@.subrange(1, i as int + 1).map_values(|v: u64| v as int);
            assert(s.drop_last() =~= op@.subrange(1, i as int).map_values(|v: u64| v as int));
        }
        sum = sum + op[i] as u128;
        i = i + 1;
    }
    let g2 = sum == 15 * op[0] as u128;
    proof {
        let s = op@.subrange(1, 16).map_values(|v: u64| v as int);
        reveal_with_fuel(Seq::fold_left, 16);
        assert(s.fold_left(0int, |a: int, v: int| a + v) == ops[1] + ops[2] + ops[3] + ops[4] + ops[5] + ops[6]
            + ops[7] + ops[8] + ops[9] + ops[10] + ops[11] + ops[12] + ops[13] + ops[14] + ops[15]);
        lemma_fzero_small(
            ops[1] + ops[2] + ops[3] + ops[4] + ops[5] + ops[6] + ops[7] + ops[8] + ops[9] + ops[10] + ops[11]
                + ops[12] + ops[13] + ops[14] + ops[15] - 15 * ops[0],
        );
        lemma_high_bytes(class);
        lemma_fzero_small(
            byte(class, 2) + byte(class, 3) + byte(class, 4) + byte(class, 5) + byte(class, 6) + byte(class, 7),
        );
    }
    let g3 = class < 0x10000;
    let g4 = check_pow_table(lookup);
    g1 && g2 && g3 && g4
}

/// What a bitwise step writes: the left operand to the left cell, the
/// right operand to the right cell and the result to the result cell.
pub proof fn lemma_bin_bit_writes_cells(c: BinBitConfig, off: int, w: BinBitWitness)
    ensures
        crate::circuits::etable_compact::op_configure::has_write(bin_bit_writes(c, off, w), c.lhs.value_col, off + c.lhs.value_rot, crate::circuits::utils::fv_u64(w.lhs)),
        crate::circuits::etable_compact::op_configure::has_write(bin_bit_writes(c, off, w), c.rhs.value_col, off + c.rhs.value_rot, crate::circuits::utils::fv_u64(w.rhs)),
        crate::circuits::etable_compact::op_configure::has_write(bin_bit_writes(c, off, w), c.res.value_col, off + c.res.value_rot, crate::circuits::utils::fv_u64(w.res)),
{
    let p0 = common_range_writes(c.vtype, off, vtype_u16(w.vtype));
    let p1 = u64_cell_writes(c.lhs, off, w.lhs);
    let p2 = u64_cell_writes(c.rhs, off, w.rhs);
    let p3 = u64_cell_writes(c.res, off, w.res);
    let p4 = (if w.class == BitOp::Xor { u64_on_u8_cell_writes(c.op_class, off, BOP_XOR) + u4_bop_cell_writes(c.op, off, fv_u64(0x100_0000)) + one_write(c.op_lookup.col, off, c.op_lookup.rot as int, pow_table_value(24)) } else { Seq::empty() });
    assert(bin_bit_writes(c, off, w) =~= p0 + p1 + p2 + p3 + p4);
    {
        crate::circuits::etable_compact::op_configure::lemma_u64_cell_writes_value(c.lhs, off, w.lhs);
        crate::circuits::etable_compact::op_configure::lemma_has_write_append(p0, p1, c.lhs.value_col, off + c.lhs.value_rot, crate::circuits::utils::fv_u64(w.lhs));
        crate::circuits::etable_compact::op_configure::lemma_has_write_append(p0 + p1, p2, c.lhs.value_col, off + c.lhs.value_rot, crate::circuits::utils::fv_u64(w.lhs));
        crate::circuits::etable_compact::op_configure::lemma_has_write_append(p0 + p1 + p2, p3, c.lhs.value_col, off + c.lhs.value_rot, crate::circuits::utils::fv_u64(w.lhs));
        crate::circuits::etable_compact::op_configure::lemma_has_write_append(p0 + p1 + p2 + p3, p4, c.lhs.value_col, off + c.lhs.value_rot, crate::circuits::utils::fv_u64(w.lhs));
    }
    {
        crate::circuits::etable_compact::op_configure::lemma_u64_cell_writes_value(c.rhs, off, w.rhs);
        crate::circuits::etable_compact::op_configure::lemma_has_write_append(p0, p1, c.rhs.value_col, off + c.rhs.value_rot, crate::circuits::utils::fv_u64(w.rhs));
        crate::circuits::etable_compact::op_configure::lemma_has_write_append(p0 + p1, p2, c.rhs.value_col, off + c.rhs.value_rot, crate::circuits::utils::fv_u64(w.rhs));
        crate::circuits::etable_compact::op_configure::lemma_has_write_append(p0 + p1 + p2, p3, c.rhs.value_col, off + c.rhs.value_rot, crate::circuits::utils::fv_u64(w.rhs));
        crate::circuits::etable_compact::op_configure::lemma_has_write_append(p0 + p1 + p2 + p3, p4, c.rhs.value_col, off + c.rhs.value_rot, crate::circuits::utils::fv_u64(w.rhs));
    }
    {
        crate::circuits::etable_compact::op_configure::lemma_u64_cell_writes_value(c.res, off, w.res);
        crate::circuits::etable_compact::op_configure::lemma_has_write_append(p0, p1, c.res.value_col, off + c.res.value_rot, crate::circuits::utils::fv_u64(w.res));
        crate::circuits::etable_compact::op_configure::lemma_has_write_append(p0 + p1, p2, c.res.value_col, off + c.res.value_rot, crate::circuits::utils::fv_u64(w.res));
        crate::circuits::etable_compact::op_configure::lemma_has_write_append(p0 + p1 + p2, p3, c.res.value_col, off + c.res.value_rot, crate::circuits::utils::fv_u64(w.res));
        crate::circuits::etable_compact::op_configure::lemma_has_write_append(p0 + p1 + p2 + p3, p4, c.res.value_col, off + c.res.value_rot, crate::circuits::utils::fv_u64(w.res));
    }
}

impl BinBitConfig {
    /// Assigns the gadget's cells for a bit operation step: the value type,
    /// the operands and the result, and for an exclusive or its class, its
    /// operation cell and its power table entry. The other operations leave
    /// those three cells unassigned.
    fn assign_cells(&self, ctx: &mut Context, step: &StepInfo) -> (w: BinBitWitness)
        requires
            self.wf(),
            old(ctx).offset + 40 <= i32::MAX,
            step is I32BinBitOp || step is I64BinBitOp,
            bin_bit_witness(*step).class != BitOp::Not,
        ensures
            w == bin_bit_witness(*step),
            final(ctx).offset == old(ctx).offset,
            final(ctx).writes@ == old(ctx).writes@ + bin_bit_writes(*self, old(ctx).offset as int, w),
    {
        let w = match step {
            StepInfo::I32BinBitOp { class, left, right, value } => BinBitWitness {
                class: *class,
                vtype: VarType::I32,
                lhs: *left as u32 as u64,
                rhs: *right as u32 as u64,
                res: *value as u32 as u64,
            },
            StepInfo::I64BinBitOp { class, left, right, value } => BinBitWitness {
                class: *class,
                vtype: VarType::I64,
                lhs: *left as u64,
                rhs: *right as u64,
                res: *value as u64,
            },
            _ => BinBitWitness { class: BitOp::And, vtype: VarType::I32, lhs: 0, rhs: 0, res: 0 },
        };
        let ghost start = old(ctx).writes@;
        let ghost o = old(ctx).offset as int;
        let vt: u16 = match w.vtype {
            VarType::I32 => 1,
            VarType::I64 => 2,
        };
        self.vtype.assign(ctx, vt);
        self.lhs.assign(ctx, w.lhs);
        self.rhs.assign(ctx, w.rhs);
        self.res.assign(ctx, w.res);
        let ghost mid = ctx.writes@;
        proof {
            assert(mid =~= start + common_range_writes(self.vtype, o, vtype_u16(w.vtype))
                + u64_cell_writes(self.lhs, o, w.lhs) + u64_cell_writes(self.rhs, o, w.rhs)
                + u64_cell_writes(self.res, o, w.res));
        }
        match w.class {
            BitOp::Xor => {
                self.op_class.assign(ctx, BOP_XOR);
                self.op.assign(ctx, FieldValue::from_u64(0x100_0000));
                self.op_lookup.assign(ctx, BOP_XOR * 12);
                proof {
                    assert(ctx.writes@ =~= mid + (u64_on_u8_cell_writes(self.op_class, o, BOP_XOR)
                        + u4_bop_cell_writes(self.op, o, fv_u64(0x100_0000)) + one_write(
                        self.op_lookup.col,
                        o,
                        self.op_lookup.rot as int,
                        pow_table_value(24),
                    )));
                }
            },
            _ => {
                proof {
                    assert(ctx.writes@ =~= mid + Seq::<CellWrite>::empty());
                }
            },
        }
        w
    }

    /// Assigns the step's cells, as `assign_cells` does, and the
    /// encodings `enc` of the step's stack and memory accesses to its
    /// memory table lookup cells, in order.
    pub fn assign(&self, ctx: &mut Context, step: &StepInfo, enc: &Vec<FieldValue>) -> (w: BinBitWitness)
        requires
            enc.len() == 3,
            self.wf(),
            old(ctx).offset + 40 <= i32::MAX,
            step is I32BinBitOp || step is I64BinBitOp,
            bin_bit_witness(*step).class != BitOp::Not,
        ensures
            w == bin_bit_witness(*step),
            final(ctx).offset == old(ctx).offset,
            final(ctx).writes@ == old(ctx).writes@ + bin_bit_writes(*self, old(ctx).offset as int, w) + mtable_lookup_writes(
                self.lookups(),
                old(ctx).offset as int,
                enc@,
            ),
    {
        let w = self.assign_cells(ctx, step);
        let mut cells: Vec<MTableLookupCell> = Vec::new();
        cells.push(self.lookup_stack_read_lhs);
        cells.push(self.lookup_stack_read_rhs);
        cells.push(self.lookup_stack_write);
        proof {
            assert(cells@ =~= self.lookups());
        }
        assign_mtable_lookups(ctx, &cells, enc);
        w
    }
}

} // verus!
