//! The cells that opcode gadgets allocate in the blocks of the compact
//! event table, how each kind of cell is assigned, and the allocator that
//! hands them out.

use vstd::prelude::*;
use vstd::arithmetic::div_mod::*;
use vstd::arithmetic::power::*;
use vstd::arithmetic::power2::{lemma2_to64, lemma_pow2_adds, lemma_pow2_strictly_increases, pow2};

use crate::circuits::etable_compact::{
    AUX_ROT_JTABLE_LOOKUP, AUX_ROT_MTABLE_LOOKUP_START, AUX_ROT_OFFSET_LEN_BITS_TABLE_LOOKUP,
    AUX_ROT_POW_TABLE_LOOKUP, AUX_ROT_U64_START, BIT_CELLS, BIT_ROT_MAX, COL_AUX, COL_STATE,
    COL_SHARED_BITS_0, COL_SHARED_BITS_1, COL_U4_BOP, COL_U4_SHARED_0, COL_U4_SHARED_1,
    COL_U4_SHARED_2, COL_U8_SHARED_0, COL_U8_SHARED_1, COL_UNLIMITED, ETABLE_STEP_SIZE,
    POW_TABLE_LIMIT, STATE_ROT_MAX, U4_COLUMNS, U8_COLUMNS,
};
use crate::circuits::utils::{two64, digits, fv_bool, fv_u64, fzero, lemma_digit_index, weighted, CellWrite, Context, FieldValue};

pub mod op_bin;
pub mod op_bin_bit;
pub mod op_load;
pub mod op_store;
pub mod op_memory_grow;
pub mod op_call;
pub mod op_call_indirect;
pub mod op_global_get;
pub mod op_global_set;
pub mod op_local_get;
pub mod op_memory_size;
pub mod op_return;
pub mod op_conversion;
pub mod op_unary;
pub mod op_bin_shift;
pub mod op_bin_signed;
pub mod op_select;
pub mod op_sha256;
pub mod op_test;
pub mod op_const;
pub mod op_rel;
pub mod op_unsigned_compare;
pub mod op_br;
pub mod op_call_host_foreign_circuit;
pub mod op_call_host_input;
pub mod op_br_if;
pub mod op_br_if_eqz;
pub mod op_br_table;
pub mod op_config;
pub mod checks;

verus! {

/// The row of a cell at rotation `rot` from a step starting at `offset`.
pub open spec fn row_at(offset: int, rot: int) -> usize {
    (offset + rot) as usize
}

/// The single assignment of `value` to column `col` at that row.
pub open spec fn one_write(col: usize, offset: int, rot: int, value: FieldValue) -> Seq<CellWrite> {
    seq![CellWrite { col, row: row_at(offset, rot), value }]
}

/// `ws` writes `v` to the cell of column `col` at row `row`.
pub open spec fn has_write(ws: Seq<CellWrite>, col: usize, row: int, v: FieldValue) -> bool {
    exists|k: int| 0 <= k < ws.len() && #[trigger] ws[k] == (CellWrite { col, row: row as usize, value: v })
}

/// A single assignment writes its value to its cell.
pub proof fn lemma_has_write_one(col: usize, offset: int, rot: int, v: FieldValue)
    ensures
        has_write(one_write(col, offset, rot, v), col, offset + rot, v),
{
    let ws = one_write(col, offset, rot, v);
    assert(ws[0] == (CellWrite { col, row: (offset + rot) as usize, value: v }));
}

/// A write of either part is a write of the two parts one after the other.
pub proof fn lemma_has_write_append(a: Seq<CellWrite>, b: Seq<CellWrite>, col: usize, row: int, v: FieldValue)
    ensures
        has_write(a, col, row, v) ==> has_write(a + b, col, row, v),
        has_write(b, col, row, v) ==> has_write(a + b, col, row, v),
{
    let w = CellWrite { col, row: row as usize, value: v };
    if has_write(a, col, row, v) {
        let k = choose|k: int| 0 <= k < a.len() && #[trigger] a[k] == w;
        assert((a + b)[k] == w);
    }
    if has_write(b, col, row, v) {
        let k = choose|k: int| 0 <= k < b.len() && #[trigger] b[k] == w;
        assert((a + b)[a.len() + k] == w);
    }
}

/// A write of the middle part is a write of the three parts in order.
pub proof fn lemma_has_write_framed(
    a: Seq<CellWrite>,
    b: Seq<CellWrite>,
    c: Seq<CellWrite>,
    col: usize,
    row: int,
    v: FieldValue,
)
    ensures
        has_write(b, col, row, v) ==> has_write(a + b + c, col, row, v),
{
    lemma_has_write_append(a, b, col, row, v);
    lemma_has_write_append(a + b, c, col, row, v);
}

/// A 64-bit cell's assignment writes the value to its value cell.
pub proof fn lemma_u64_cell_writes_value(c: U64Cell, offset: int, v: u64)
    ensures
        has_write(u64_cell_writes(c, offset, v), c.value_col, offset + c.value_rot, fv_u64(v)),
{
    let ws = u64_cell_writes(c, offset, v);
    assert(ws[0] == (CellWrite { col: c.value_col, row: (offset + c.value_rot) as usize, value: fv_u64(v) }));
}

/// A 64-bit cell on bytes writes the value to its value cell.
pub proof fn lemma_u64_on_u8_cell_writes_value(c: U64OnU8Cell, offset: int, v: u64)
    ensures
        has_write(u64_on_u8_cell_writes(c, offset, v), c.value_col, offset + c.value_rot, fv_u64(v)),
{
    let ws = u64_on_u8_cell_writes(c, offset, v);
    assert(ws[0] == (CellWrite { col: c.value_col, row: (offset + c.value_rot) as usize, value: fv_u64(v) }));
}

/// The `i`-th nibble of a 64-bit value.
pub open spec fn nibble(v: u64, i: int) -> int {
    digits(v as int, 16, 16)[i]
}

/// The `i`-th byte of a 64-bit value.
pub open spec fn byte(v: u64, i: int) -> int {
    digits(v as int, 256, 8)[i]
}

/// Byte `i` of `v`.
pub fn byte_at(v: u64, i: u64) -> (r: u64)
    requires
        i < 8,
    ensures
        r == byte(v, i as int),
        r < 256,
{
    reveal_with_fuel(pow, 8);
    proof {
        lemma_digit_index(v as int, 256, 8, i as nat);
    }
    let d: u64 = if i == 0 {
        1
    } else if i == 1 {
        0x100
    } else if i == 2 {
        0x1_0000
    } else if i == 3 {
        0x100_0000
    } else if i == 4 {
        0x1_0000_0000
    } else if i == 5 {
        0x100_0000_0000
    } else if i == 6 {
        0x1_0000_0000_0000
    } else {
        0x100_0000_0000_0000
    };
    proof {
        assert(d == pow(256, i as nat));
    }
    (v / d) % 256
}

/// The assignment that `BitCell::assign` makes.
pub open spec fn bit_writes(c: BitCell, offset: int, v: bool) -> Seq<CellWrite> {
    one_write(c.col, offset, c.rot as int, fv_bool(v))
}

/// The assignment that `CommonRangeCell::assign` makes.
pub open spec fn common_range_writes(c: CommonRangeCell, offset: int, v: u16) -> Seq<CellWrite> {
    one_write(c.col, offset, c.rot as int, fv_u64(v as u64))
}

/// Appending two pieces one after the other is appending their
/// concatenation.
pub proof fn lemma_append_assoc(o: Seq<CellWrite>, a: Seq<CellWrite>, b: Seq<CellWrite>)
    ensures
        (o + a) + b == o + (a + b),
{
    assert((o + a) + b =~= o + (a + b));
}

/// A cell of the unlimited column, holding any field value.
#[derive(Clone, Copy, Debug, PartialEq, Eq, Structural)]
pub struct UnlimitedCell {
    pub col: usize,
    pub rot: i32,
}

/// A cell holding the encoding of a memory table lookup.
#[derive(Clone, Copy, Debug, PartialEq, Eq, Structural)]
pub struct MTableLookupCell {
    pub col: usize,
    pub rot: i32,
}

/// A cell holding the encoding of an offset/length bits table lookup.
#[derive(Clone, Copy, Debug, PartialEq, Eq, Structural)]
pub struct OffsetLenBitsTableLookupCell {
    pub col: usize,
    pub rot: i32,
}

/// A cell holding the encoding of a power table lookup.
#[derive(Clone, Copy, Debug, PartialEq, Eq, Structural)]
pub struct PowTableLookupCell {
    pub col: usize,
    pub rot: i32,
}

/// A cell holding the encoding of a jump table lookup.
#[derive(Clone, Copy, Debug, PartialEq, Eq, Structural)]
pub struct JTableLookupCell {
    pub col: usize,
    pub rot: i32,
}

/// A cell constrained to hold zero or one.
#[derive(Clone, Copy, Debug, PartialEq, Eq, Structural)]
pub struct BitCell {
    pub col: usize,
    pub rot: i32,
}

/// A cell constrained to the common range.
#[derive(Clone, Copy, Debug, PartialEq, Eq, Structural)]
pub struct CommonRangeCell {
    pub col: usize,
    pub rot: i32,
}

/// The cell that selects the 4-bit operation of a block, repeated on each
/// of the block's first sixteen rows.
#[derive(Clone, Copy, Debug, PartialEq, Eq, Structural)]
pub struct U4BopCell {
    pub col: usize,
}

/// A 64-bit value cell with a column of nibbles for its bits.
#[derive(Clone, Copy, Debug, PartialEq, Eq, Structural)]
pub struct U64BitCell {
    pub value_col: usize,
    pub value_rot: i32,
    pub u4_col: usize,
}

/// A 64-bit value cell, range-checked by its sixteen nibbles.
#[derive(Clone, Copy, Debug, PartialEq, Eq, Structural)]
pub struct U64Cell {
    pub value_col: usize,
    pub value_rot: i32,
    pub u4_col: usize,
}

/// A 64-bit value cell, range-checked by its eight bytes.
#[derive(Clone, Copy, Debug, PartialEq, Eq, Structural)]
pub struct U64OnU8Cell {
    pub value_col: usize,
    pub value_rot: i32,
    pub u8_col: usize,
    pub u8_rot: i32,
}

/// The assignments that `U64Cell::assign` makes: the value, then its
/// nibbles on the block's first sixteen rows.
pub open spec fn u64_cell_writes(c: U64Cell, offset: int, v: u64) -> Seq<CellWrite> {
    one_write(c.value_col, offset, c.value_rot as int, fv_u64(v)).add(
        Seq::new(
            16,
            |i: int| CellWrite { col: c.u4_col, row: row_at(offset, i), value: fv_u64(nibble(v, i) as u64) },
        ),
    )
}

/// The assignments that `U64OnU8Cell::assign` makes: the value, then its
/// bytes on eight rows from the cell's byte rotation.
pub open spec fn u64_on_u8_cell_writes(c: U64OnU8Cell, offset: int, v: u64) -> Seq<CellWrite> {
    one_write(c.value_col, offset, c.value_rot as int, fv_u64(v)).add(
        Seq::new(
            8,
            |i: int|
                CellWrite {
                    col: c.u8_col,
                    row: row_at(offset + i, c.u8_rot as int),
                    value: fv_u64(byte(v, i) as u64),
                },
        ),
    )
}

/// The assignments that `U4BopCell::assign` makes: the value, sixteen times.
pub open spec fn u4_bop_cell_writes(c: U4BopCell, offset: int, v: FieldValue) -> Seq<CellWrite> {
    Seq::new(16, |i: int| CellWrite { col: c.col, row: row_at(offset, i), value: v })
}

/// The value that a power table lookup cell holds for `power`.
pub open spec fn pow_table_entry(power: nat) -> int {
    (vstd::arithmetic::power2::pow2(power + 16) + power) as int
}

/// The field value of the power table entry for `power`.
pub open spec fn pow_table_value(power: u64) -> FieldValue {
    if power + 16 < 64 {
        FieldValue { l0: (pow2((power + 16) as nat) + power) as u64, l1: 0, l2: 0, l3: 0 }
    } else if power + 16 < 128 {
        FieldValue { l0: power, l1: pow2((power + 16 - 64) as nat) as u64, l2: 0, l3: 0 }
    } else {
        FieldValue { l0: power, l1: 0, l2: pow2((power + 16 - 128) as nat) as u64, l3: 0 }
    }
}

/// The limbs spell out the power table entry.
proof fn lemma_pow_table_value(power: u64)
    requires
        power < 128,
    ensures
        pow_table_value(power).value() == pow_table_entry(power as nat),
{
    let k = (power + 16) as nat;
    lemma2_to64();
    if k < 64 {
        vstd::bits::lemma_u64_pow2_no_overflow(k);
        vstd::arithmetic::power2::lemma2_to64_rest();
        if k < 63 {
            lemma_pow2_strictly_increases(k, 63);
        }
    } else if k < 128 {
        lemma_pow2_adds(64, (k - 64) as nat);
        vstd::bits::lemma_u64_pow2_no_overflow((k - 64) as nat);
        assert(pow2(k) == two64() * pow2((k - 64) as nat));
    } else {
        let j = (k - 128) as nat;
        lemma_pow2_adds(64, (k - 64) as nat);
        lemma_pow2_adds(64, j);
        vstd::bits::lemma_u64_pow2_no_overflow(j);
        assert(pow2((k - 64) as nat) == two64() * pow2(j));
        assert(pow2(k) == two64() * pow2((k - 64) as nat));
        let t = two64();
        let a = pow2(k) as int;
        let b = pow2((k - 64) as nat) as int;
        let c = pow2(j) as int;
        assert(a == t * t * c) by (nonlinear_arith)
            requires
                b == t * c,
                a == t * b,
        ;
    }
}

impl PowTableLookupCell {
    /// Assigns the power table entry of `power`.
    pub fn assign(&self, ctx: &mut Context, power: u64)
        requires
            power < POW_TABLE_LIMIT,
            0 <= self.rot,
            old(ctx).offset + self.rot <= i32::MAX,
        ensures
            final(ctx).offset == old(ctx).offset,
            final(ctx).writes@ == old(ctx).writes@ + one_write(self.col, old(ctx).offset as int, self.rot as int, pow_table_value(power)),
            pow_table_value(power).value() == pow_table_entry(power as nat),
    {
        proof {
            lemma_pow_table_value(power);
        }
        let k: u64 = power + 16;
        let value = if k < 64 {
            proof {
                vstd::bits::lemma_u64_pow2_no_overflow(k as nat);
                vstd::bits::lemma_u64_shl_is_mul(1, k);
            }
            FieldValue { l0: (1u64 << k) + power, l1: 0, l2: 0, l3: 0 }
        } else if k < 128 {
            proof {
                vstd::bits::lemma_u64_pow2_no_overflow((k - 64) as nat);
                vstd::bits::lemma_u64_shl_is_mul(1, (k - 64) as u64);
            }
            FieldValue { l0: power, l1: 1u64 << (k - 64), l2: 0, l3: 0 }
        } else {
            proof {
                vstd::bits::lemma_u64_pow2_no_overflow((k - 128) as nat);
                vstd::bits::lemma_u64_shl_is_mul(1, (k - 128) as u64);
            }
            FieldValue { l0: power, l1: 0, l2: 1u64 << (k - 128), l3: 0 }
        };
        let row: usize = ctx.offset + self.rot as usize;
        ctx.assign_advice(self.col, row, value);
        proof {
            assert(final(ctx).writes@ =~= old(ctx).writes@ + one_write(self.col, old(ctx).offset as int, self.rot as int, pow_table_value(power)));
        }
    }
}

impl UnlimitedCell {
    /// Assigns `value` to the cell in the step at the context's offset.
    pub fn assign(&self, ctx: &mut Context, value: FieldValue)
        requires
            0 <= self.rot,
            old(ctx).offset + self.rot <= i32::MAX,
        ensures
            final(ctx).offset == old(ctx).offset,
            final(ctx).writes@ == old(ctx).writes@ + one_write(self.col, old(ctx).offset as int, self.rot as int, value),
    {
        let row: usize = ctx.offset + self.rot as usize;
        ctx.assign_advice(self.col, row, value);
        proof {
            assert(final(ctx).writes@ =~= old(ctx).writes@ + one_write(self.col, old(ctx).offset as int, self.rot as int, value));
        }
    }
}

impl MTableLookupCell {
    /// Assigns the encoded lookup `value`.
    pub fn assign(&self, ctx: &mut Context, value: FieldValue)
        requires
            0 <= self.rot,
            old(ctx).offset + self.rot <= i32::MAX,
        ensures
            final(ctx).offset == old(ctx).offset,
            final(ctx).writes@ == old(ctx).writes@ + one_write(self.col, old(ctx).offset as int, self.rot as int, value),
    {
        let row: usize = ctx.offset + self.rot as usize;
        ctx.assign_advice(self.col, row, value);
        proof {
            assert(final(ctx).writes@ =~= old(ctx).writes@ + one_write(self.col, old(ctx).offset as int, self.rot as int, value));
        }
    }
}

impl JTableLookupCell {
    /// Assigns the encoded lookup `value`.
    pub fn assign(&self, ctx: &mut Context, value: FieldValue)
        requires
            0 <= self.rot,
            old(ctx).offset + self.rot <= i32::MAX,
        ensures
            final(ctx).offset == old(ctx).offset,
            final(ctx).writes@ == old(ctx).writes@ + one_write(self.col, old(ctx).offset as int, self.rot as int, value),
    {
        let row: usize = ctx.offset + self.rot as usize;
        ctx.assign_advice(self.col, row, value);
        proof {
            assert(final(ctx).writes@ =~= old(ctx).writes@ + one_write(self.col, old(ctx).offset as int, self.rot as int, value));
        }
    }
}

impl BitCell {
    /// Assigns one for `true` and zero for `false`.
    pub fn assign(&self, ctx: &mut Context, value: bool)
        requires
            0 <= self.rot,
            old(ctx).offset + self.rot <= i32::MAX,
        ensures
            final(ctx).offset == old(ctx).offset,
            final(ctx).writes@ == old(ctx).writes@ + one_write(self.col, old(ctx).offset as int, self.rot as int, fv_bool(value)),
    {
        let row: usize = ctx.offset + self.rot as usize;
        ctx.assign_advice(self.col, row, FieldValue::from_bool(value));
        proof {
            assert(final(ctx).writes@ =~= old(ctx).writes@ + one_write(self.col, old(ctx).offset as int, self.rot as int, fv_bool(value)));
        }
    }
}

/// The assignment of the 64-bit value `v` to a common range cell: the
/// cell's range check, not its assignment, bounds it.
pub open spec fn common_range_value_writes(c: CommonRangeCell, offset: int, v: u64) -> Seq<CellWrite> {
    one_write(c.col, offset, c.rot as int, fv_u64(v))
}

impl CommonRangeCell {
    /// Assigns the 64-bit value `value`, which the cell's range check
    /// bounds.
    pub fn assign_value(&self, ctx: &mut Context, value: u64)
        requires
            0 <= self.rot,
            old(ctx).offset + self.rot <= i32::MAX,
        ensures
            final(ctx).offset == old(ctx).offset,
            final(ctx).writes@ == old(ctx).writes@ + common_range_value_writes(*self, old(ctx).offset as int, value),
    {
        let row: usize = ctx.offset + self.rot as usize;
        ctx.assign_advice(self.col, row, FieldValue::from_u64(value));
        proof {
            assert(final(ctx).writes@ =~= old(ctx).writes@ + one_write(self.col, old(ctx).offset as int, self.rot as int, fv_u64(value)));
        }
    }

    /// Assigns `value`.
    pub fn assign(&self, ctx: &mut Context, value: u16)
        requires
            0 <= self.rot,
            old(ctx).offset + self.rot <= i32::MAX,
        ensures
            final(ctx).offset == old(ctx).offset,
            final(ctx).writes@ == old(ctx).writes@ + one_write(self.col, old(ctx).offset as int, self.rot as int, fv_u64(value as u64)),
    {
        let row: usize = ctx.offset + self.rot as usize;
        ctx.assign_advice(self.col, row, FieldValue::from_u64(value as u64));
        proof {
            assert(final(ctx).writes@ =~= old(ctx).writes@ + one_write(self.col, old(ctx).offset as int, self.rot as int, fv_u64(value as u64)));
        }
    }
}

impl U4BopCell {
    /// Assigns `value` on each of the block's first sixteen rows.
    pub fn assign(&self, ctx: &mut Context, value: FieldValue)
        requires
            old(ctx).offset + 16 <= i32::MAX,
        ensures
            final(ctx).offset == old(ctx).offset,
            final(ctx).writes@ == old(ctx).writes@ + u4_bop_cell_writes(*self, old(ctx).offset as int, value),
    {
        let ghost start = ctx.writes@;
        let mut i: usize = 0;
        while i < 16
            invariant
                0 <= i <= 16,
                ctx.offset == old(ctx).offset,
                ctx.offset + 16 <= i32::MAX,
                ctx.writes@ =~= start + u4_bop_cell_writes(*self, ctx.offset as int, value).take(i as int),
            decreases 16 - i,
        {
            let row: usize = ctx.offset + i;
            ctx.assign_advice(self.col, row, value);
            i = i + 1;
            proof {
                assert(ctx.writes@ =~= start + u4_bop_cell_writes(*self, ctx.offset as int, value).take(i as int));
            }
        }
        proof {
            assert(u4_bop_cell_writes(*self, ctx.offset as int, value).take(16) =~= u4_bop_cell_writes(*self, ctx.offset as int, value));
        }
    }
}

/// One step of a base-`b` decomposition: the next digit and the rest.
proof fn lemma_digit_step(v: u64, x: int, i: nat, b: int, n: nat)
    requires
        b > 1,
        i < n,
        x == v as int / pow(b, i),
    ensures
        digits(v as int, b, n)[i as int] == x % b,
        x / b == v as int / pow(b, i + 1),
{
    lemma_digit_index(v as int, b, n, i);
    lemma_pow_positive(b, i);
    lemma_div_denominator(v as int, pow(b, i), b);
    reveal(pow);
    assert(pow(b, i + 1) == b * pow(b, i));
    vstd::arithmetic::mul::lemma_mul_is_commutative(b, pow(b, i));
}

impl U64Cell {
    /// Assigns `value`, and its nibbles on the block's first sixteen rows.
    pub fn assign(&self, ctx: &mut Context, value: u64)
        requires
            0 <= self.value_rot,
            old(ctx).offset + self.value_rot <= i32::MAX,
            old(ctx).offset + 16 <= i32::MAX,
        ensures
            final(ctx).offset == old(ctx).offset,
            final(ctx).writes@ == old(ctx).writes@ + u64_cell_writes(*self, old(ctx).offset as int, value),
    {
        let row: usize = ctx.offset + self.value_rot as usize;
        ctx.assign_advice(self.value_col, row, FieldValue::from_u64(value));
        let ghost start = ctx.writes@;
        let ghost all = Seq::new(
            16,
            |i: int| CellWrite { col: self.u4_col, row: row_at(ctx.offset as int, i), value: fv_u64(nibble(value, i) as u64) },
        );
        let mut rest: u64 = value;
        let mut i: usize = 0;
        proof {
            reveal(pow);
            assert(value as int / pow(16, 0) == value as int);
        }
        while i < 16
            invariant
                0 <= i <= 16,
                ctx.offset == old(ctx).offset,
                ctx.offset + 16 <= i32::MAX,
                rest as int == value as int / pow(16, i as nat),
                all == Seq::new(
                    16,
                    |i: int| CellWrite { col: self.u4_col, row: row_at(ctx.offset as int, i), value: fv_u64(nibble(value, i) as u64) },
                ),
                ctx.writes@ =~= start + all.take(i as int),
            decreases 16 - i,
        {
            let v: u64 = rest & 0xf;
            assert(v == rest % 16) by (bit_vector)
                requires v == rest & 0xf;
            proof {
                lemma_digit_step(value, rest as int, i as nat, 16, 16);
            }
            let r2: u64 = rest >> 4;
            assert(r2 == rest / 16) by (bit_vector)
                requires r2 == rest >> 4;
            rest = r2;
            let row: usize = ctx.offset + i;
            ctx.assign_advice(self.u4_col, row, FieldValue::from_u64(v));
            i = i + 1;
            proof {
                assert(ctx.writes@ =~= start + all.take(i as int));
            }
        }
        proof {
            assert(all.take(16) =~= all);
            assert(final(ctx).writes@ =~= old(ctx).writes@ + u64_cell_writes(*self, old(ctx).offset as int, value));
        }
    }
}

impl U64OnU8Cell {
    /// Assigns `value`, and its bytes on eight rows from the byte rotation.
    pub fn assign(&self, ctx: &mut Context, value: u64)
        requires
            0 <= self.value_rot,
            0 <= self.u8_rot,
            old(ctx).offset + self.value_rot <= i32::MAX,
            old(ctx).offset + 8 + self.u8_rot <= i32::MAX,
        ensures
            final(ctx).offset == old(ctx).offset,
            final(ctx).writes@ == old(ctx).writes@ + u64_on_u8_cell_writes(*self, old(ctx).offset as int, value),
    {
        let row: usize = ctx.offset + self.value_rot as usize;
        ctx.assign_advice(self.value_col, row, FieldValue::from_u64(value));
        let ghost start = ctx.writes@;
        let ghost all = Seq::new(
            8,
            |i: int|
                CellWrite {
                    col: self.u8_col,
                    row: row_at(ctx.offset as int + i, self.u8_rot as int),
                    value: fv_u64(byte(value, i) as u64),
                },
        );
        let mut rest: u64 = value;
        let mut i: usize = 0;
        proof {
            reveal(pow);
            assert(value as int / pow(256, 0) == value as int);
        }
        while i < 8
            invariant
                0 <= i <= 8,
                ctx.offset == old(ctx).offset,
                0 <= self.u8_rot,
                ctx.offset + 8 + self.u8_rot <= i32::MAX,
                rest as int == value as int / pow(256, i as nat),
                all == Seq::new(
                    8,
                    |i: int|
                        CellWrite {
                            col: self.u8_col,
                            row: row_at(ctx.offset as int + i, self.u8_rot as int),
                            value: fv_u64(byte(value, i) as u64),
                        },
                ),
                ctx.writes@ =~= start + all.take(i as int),
            decreases 8 - i,
        {
            let v: u64 = rest & 0xff;
            assert(v == rest % 256) by (bit_vector)
                requires v == rest & 0xff;
            proof {
                lemma_digit_step(value, rest as int, i as nat, 256, 8);
            }
            let r2: u64 = rest >> 8;
            assert(r2 == rest / 256) by (bit_vector)
                requires r2 == rest >> 8;
            rest = r2;
            let row: usize = ctx.offset + i + self.u8_rot as usize;
            ctx.assign_advice(self.u8_col, row, FieldValue::from_u64(v));
            i = i + 1;
            proof {
                assert(ctx.writes@ =~= start + all.take(i as int));
            }
        }
        proof {
            assert(all.take(8) =~= all);
            assert(final(ctx).writes@ =~= old(ctx).writes@ + u64_on_u8_cell_writes(*self, old(ctx).offset as int, value));
        }
    }
}

/// Hands out the cells of a block to one opcode gadget: each kind of cell
/// is taken in turn from its own region of the block.
#[derive(Clone, Copy, Debug, PartialEq, Eq, Structural)]
pub struct EventTableCellAllocator {
    pub bit_index: i32,
    pub common_range_index: i32,
    pub unlimited_index: i32,
    pub u4_bop_index: i32,
    pub u64_index: i32,
    pub u64_on_u8_index: i32,
    pub mtable_lookup_index: i32,
    pub jtable_lookup_index: i32,
    pub pow_table_lookup_index: i32,
    pub offset_len_bits_lookup_index: i32,
}

/// The shared bit column that bit index `i` falls in.
pub open spec fn shared_bits_col(i: int) -> usize {
    if i / (ETABLE_STEP_SIZE as int) == 0 { COL_SHARED_BITS_0 } else { COL_SHARED_BITS_1 }
}

/// The nibble column of the `i`-th 64-bit value.
pub open spec fn u4_shared_col(i: int) -> usize {
    if i == 0 { COL_U4_SHARED_0 } else if i == 1 { COL_U4_SHARED_1 } else { COL_U4_SHARED_2 }
}

/// The byte column of the `i`-th 64-bit value on bytes.
pub open spec fn u8_shared_col(i: int) -> usize {
    if i / 2 == 0 { COL_U8_SHARED_0 } else { COL_U8_SHARED_1 }
}

/// The bit cell at index `i`.
pub open spec fn bit_cell_at(i: int) -> BitCell {
    BitCell { col: shared_bits_col(i), rot: (i % (ETABLE_STEP_SIZE as int)) as i32 }
}

/// The cell of the common range at index `i`.
pub open spec fn common_range_cell_at(i: int) -> CommonRangeCell {
    CommonRangeCell { col: COL_STATE, rot: i as i32 }
}

/// The memory table lookup cell at index `i`.
pub open spec fn mtable_lookup_cell_at(i: int) -> MTableLookupCell {
    MTableLookupCell { col: COL_AUX, rot: i as i32 }
}

/// A bit cell lies within a block.
pub open spec fn bit_cell_ok(c: BitCell) -> bool {
    0 <= c.rot < ETABLE_STEP_SIZE
}

/// A cell of the common range lies within a block.
pub open spec fn common_range_cell_ok(c: CommonRangeCell) -> bool {
    0 <= c.rot < ETABLE_STEP_SIZE
}

/// A 64-bit cell lies within a block.
pub open spec fn u64_cell_ok(c: U64Cell) -> bool {
    0 <= c.value_rot < ETABLE_STEP_SIZE
}

/// A 64-bit cell on bytes lies within a block.
pub open spec fn u64_on_u8_cell_ok(c: U64OnU8Cell) -> bool {
    0 <= c.value_rot < ETABLE_STEP_SIZE && 0 <= c.u8_rot <= 8
}

/// The 64-bit cell at index `i`.
pub open spec fn u64_cell_at(i: int) -> U64Cell {
    U64Cell { value_col: COL_AUX, value_rot: (i + AUX_ROT_U64_START) as i32, u4_col: u4_shared_col(i) }
}

/// The 64-bit cell on bytes at index `i`.
pub open spec fn u64_on_u8_cell_at(i: int) -> U64OnU8Cell {
    U64OnU8Cell {
        value_col: COL_AUX,
        value_rot: (i + AUX_ROT_U64_START + U4_COLUMNS) as i32,
        u8_col: u8_shared_col(i),
        u8_rot: ((i % 2) * 8) as i32,
    }
}

impl EventTableCellAllocator {
    /// The allocator of a fresh block: every region starts past the cells
    /// that the block's common part uses.
    pub fn new() -> (r: EventTableCellAllocator)
        ensures
            r == EventTableCellAllocator::spec_new(),
    {
        EventTableCellAllocator {
            bit_index: BIT_ROT_MAX,
            common_range_index: STATE_ROT_MAX,
            unlimited_index: 0,
            u4_bop_index: 0,
            u64_index: 0,
            u64_on_u8_index: 0,
            mtable_lookup_index: AUX_ROT_MTABLE_LOOKUP_START,
            jtable_lookup_index: AUX_ROT_JTABLE_LOOKUP,
            pow_table_lookup_index: AUX_ROT_POW_TABLE_LOOKUP,
            offset_len_bits_lookup_index: AUX_ROT_OFFSET_LEN_BITS_TABLE_LOOKUP,
        }
    }

    /// The state of a fresh allocator.
    pub open spec fn spec_new() -> EventTableCellAllocator {
        EventTableCellAllocator {
            bit_index: BIT_ROT_MAX,
            common_range_index: STATE_ROT_MAX,
            unlimited_index: 0,
            u4_bop_index: 0,
            u64_index: 0,
            u64_on_u8_index: 0,
            mtable_lookup_index: AUX_ROT_MTABLE_LOOKUP_START,
            jtable_lookup_index: AUX_ROT_JTABLE_LOOKUP,
            pow_table_lookup_index: AUX_ROT_POW_TABLE_LOOKUP,
            offset_len_bits_lookup_index: AUX_ROT_OFFSET_LEN_BITS_TABLE_LOOKUP,
        }
    }

    /// Every counter is at or past the start of its region.
    pub open spec fn wf(self) -> bool {
        &&& BIT_ROT_MAX <= self.bit_index
        &&& STATE_ROT_MAX <= self.common_range_index
        &&& 0 <= self.unlimited_index
        &&& 0 <= self.u4_bop_index
        &&& 0 <= self.u64_index
        &&& 0 <= self.u64_on_u8_index
        &&& AUX_ROT_MTABLE_LOOKUP_START <= self.mtable_lookup_index
        &&& AUX_ROT_JTABLE_LOOKUP <= self.jtable_lookup_index
        &&& AUX_ROT_POW_TABLE_LOOKUP <= self.pow_table_lookup_index
        &&& AUX_ROT_OFFSET_LEN_BITS_TABLE_LOOKUP <= self.offset_len_bits_lookup_index
    }

    /// Takes the next bit cell.
    pub fn alloc_bit_value(&mut self) -> (r: BitCell)
        requires
            old(self).wf(),
            old(self).bit_index < BIT_CELLS,
        ensures
            r == bit_cell_at(old(self).bit_index as int),
            *final(self) == (EventTableCellAllocator { bit_index: (old(self).bit_index + 1) as i32, ..*old(self) }),
            final(self).wf(),
    {
        let allocated_index = self.bit_index;
        self.bit_index = self.bit_index + 1;
        let col: usize = if (allocated_index as usize) / ETABLE_STEP_SIZE == 0 {
            COL_SHARED_BITS_0
        } else {
            COL_SHARED_BITS_1
        };
        BitCell { col, rot: allocated_index % ETABLE_STEP_SIZE as i32 }
    }

    /// Takes the next cell of the common range.
    pub fn alloc_common_range_value(&mut self) -> (r: CommonRangeCell)
        requires
            old(self).wf(),
            old(self).common_range_index < ETABLE_STEP_SIZE as i32,
        ensures
            r == (CommonRangeCell { col: COL_STATE, rot: old(self).common_range_index }),
            *final(self) == (EventTableCellAllocator {
                common_range_index: (old(self).common_range_index + 1) as i32,
                ..*old(self)
            }),
            final(self).wf(),
    {
        let allocated_index = self.common_range_index;
        self.common_range_index = self.common_range_index + 1;
        CommonRangeCell { col: COL_STATE, rot: allocated_index }
    }

    /// Takes the next cell of the unlimited column.
    pub fn alloc_unlimited_value(&mut self) -> (r: UnlimitedCell)
        requires
            old(self).wf(),
            old(self).unlimited_index < ETABLE_STEP_SIZE as i32,
        ensures
            r == (UnlimitedCell { col: COL_UNLIMITED, rot: old(self).unlimited_index }),
            *final(self) == (EventTableCellAllocator {
                unlimited_index: (old(self).unlimited_index + 1) as i32,
                ..*old(self)
            }),
            final(self).wf(),
    {
        let allocated_index = self.unlimited_index;
        self.unlimited_index = self.unlimited_index + 1;
        UnlimitedCell { col: COL_UNLIMITED, rot: allocated_index }
    }

    /// Takes the block's 4-bit operation cell.
    pub fn alloc_u4_bop(&mut self) -> (r: U4BopCell)
        requires
            old(self).wf(),
            old(self).u4_bop_index < 1,
        ensures
            r == (U4BopCell { col: COL_U4_BOP }),
            *final(self) == (EventTableCellAllocator {
                u4_bop_index: (old(self).u4_bop_index + 1) as i32,
                ..*old(self)
            }),
            final(self).wf(),
    {
        self.u4_bop_index = self.u4_bop_index + 1;
        U4BopCell { col: COL_U4_BOP }
    }

    /// Takes the next 64-bit cell.
    pub fn alloc_u64(&mut self) -> (r: U64Cell)
        requires
            old(self).wf(),
            old(self).u64_index < U4_COLUMNS as i32,
        ensures
            r == u64_cell_at(old(self).u64_index as int),
            *final(self) == (EventTableCellAllocator { u64_index: (old(self).u64_index + 1) as i32, ..*old(self) }),
            final(self).wf(),
    {
        let allocated_index = self.u64_index;
        self.u64_index = self.u64_index + 1;
        let u4_col: usize = if allocated_index == 0 {
            COL_U4_SHARED_0
        } else if allocated_index == 1 {
            COL_U4_SHARED_1
        } else {
            COL_U4_SHARED_2
        };
        U64Cell { value_col: COL_AUX, value_rot: allocated_index + AUX_ROT_U64_START, u4_col }
    }

    /// Takes the next 64-bit cell on bytes.
    pub fn alloc_u64_on_u8(&mut self) -> (r: U64OnU8Cell)
        requires
            old(self).wf(),
            old(self).u64_on_u8_index < U8_COLUMNS as i32 * 2,
        ensures
            r == u64_on_u8_cell_at(old(self).u64_on_u8_index as int),
            *final(self) == (EventTableCellAllocator {
                u64_on_u8_index: (old(self).u64_on_u8_index + 1) as i32,
                ..*old(self)
            }),
            final(self).wf(),
    {
        let allocated_index = self.u64_on_u8_index;
        self.u64_on_u8_index = self.u64_on_u8_index + 1;
        let u8_col: usize = if allocated_index / 2 == 0 { COL_U8_SHARED_0 } else { COL_U8_SHARED_1 };
        U64OnU8Cell {
            value_col: COL_AUX,
            value_rot: allocated_index + AUX_ROT_U64_START + U4_COLUMNS as i32,
            u8_col,
            u8_rot: (allocated_index % 2) * 8,
        }
    }

    /// Takes the next memory table lookup cell.
    pub fn alloc_mtable_lookup(&mut self) -> (r: MTableLookupCell)
        requires
            old(self).wf(),
            old(self).mtable_lookup_index < AUX_ROT_U64_START,
        ensures
            r == (MTableLookupCell { col: COL_AUX, rot: old(self).mtable_lookup_index }),
            *final(self) == (EventTableCellAllocator {
                mtable_lookup_index: (old(self).mtable_lookup_index + 1) as i32,
                ..*old(self)
            }),
            final(self).wf(),
    {
        let allocated_index = self.mtable_lookup_index;
        self.mtable_lookup_index = self.mtable_lookup_index + 1;
        MTableLookupCell { col: COL_AUX, rot: allocated_index }
    }

    /// Takes the next power table lookup cell.
    pub fn alloc_pow_table_lookup(&mut self) -> (r: PowTableLookupCell)
        requires
            old(self).wf(),
            old(self).pow_table_lookup_index < AUX_ROT_OFFSET_LEN_BITS_TABLE_LOOKUP,
        ensures
            r == (PowTableLookupCell { col: COL_AUX, rot: old(self).pow_table_lookup_index }),
            *final(self) == (EventTableCellAllocator {
                pow_table_lookup_index: (old(self).pow_table_lookup_index + 1) as i32,
                ..*old(self)
            }),
            final(self).wf(),
    {
        let allocated_index = self.pow_table_lookup_index;
        self.pow_table_lookup_index = self.pow_table_lookup_index + 1;
        PowTableLookupCell { col: COL_AUX, rot: allocated_index }
    }

    /// Takes the next offset/length bits table lookup cell.
    pub fn alloc_offset_len_bits_table_lookup(&mut self) -> (r: OffsetLenBitsTableLookupCell)
        requires
            old(self).wf(),
            old(self).offset_len_bits_lookup_index < AUX_ROT_MTABLE_LOOKUP_START,
        ensures
            r == (OffsetLenBitsTableLookupCell {
                col: COL_AUX,
                rot: old(self).offset_len_bits_lookup_index,
            }),
            *final(self) == (EventTableCellAllocator {
                offset_len_bits_lookup_index: (old(self).offset_len_bits_lookup_index + 1) as i32,
                ..*old(self)
            }),
            final(self).wf(),
    {
        let allocated_index = self.offset_len_bits_lookup_index;
        self.offset_len_bits_lookup_index = self.offset_len_bits_lookup_index + 1;
        OffsetLenBitsTableLookupCell { col: COL_AUX, rot: allocated_index }
    }

    /// Takes the next jump table lookup cell.
    pub fn alloc_jtable_lookup(&mut self) -> (r: JTableLookupCell)
        requires
            old(self).wf(),
            old(self).jtable_lookup_index < AUX_ROT_MTABLE_LOOKUP_START,
        ensures
            r == (JTableLookupCell { col: COL_AUX, rot: old(self).jtable_lookup_index }),
            *final(self) == (EventTableCellAllocator {
                jtable_lookup_index: (old(self).jtable_lookup_index + 1) as i32,
                ..*old(self)
            }),
            final(self).wf(),
    {
        let allocated_index = self.jtable_lookup_index;
        self.jtable_lookup_index = self.jtable_lookup_index + 1;
        JTableLookupCell { col: COL_AUX, rot: allocated_index }
    }
}

/// The constraint that ties a 64-bit cell to its digits, sixteen nibbles or
/// eight bytes: the value less the number the digits spell out vanishes.
pub open spec fn u64_digits_gate(value: int, ds: Seq<int>, b: int) -> bool {
    fzero(value - weighted(ds, b))
}

/// Completeness of the digit gates of the 64-bit cells: the nibbles and
/// the bytes that the cells' assignments write spell out the value.
pub proof fn lemma_u64_digits_complete(v: u64)
    ensures
        u64_digits_gate(v as int, Seq::new(16, |i: int| nibble(v, i)), 16),
        u64_digits_gate(v as int, Seq::new(8, |i: int| byte(v, i)), 256),
{
    crate::circuits::utils::lemma_digits_shape(v as int, 16, 16);
    crate::circuits::utils::lemma_digits_shape(v as int, 256, 8);
    assert(Seq::new(16, |i: int| nibble(v, i)) =~= digits(v as int, 16, 16));
    assert(Seq::new(8, |i: int| byte(v, i)) =~= digits(v as int, 256, 8));
    crate::circuits::utils::lemma_weighted_digits(v as int, 16, 16);
    crate::circuits::utils::lemma_weighted_digits(v as int, 256, 8);
    lemma_pow_multiplies(2, 4, 16);
    lemma_pow_multiplies(2, 8, 8);
    assert(pow(2, 4) == 16 && pow(2, 8) == 256) by {
        reveal_with_fuel(pow, 9);
    }
    vstd::arithmetic::power2::lemma_pow2(64);
    lemma2_to64();
    lemma_small_mod(v as nat, pow(16, 16) as nat);
    lemma_small_mod(v as nat, pow(256, 8) as nat);
    assert(fzero(0));
}

/// Soundness of the digit gates: a cell value in the field whose `n`
/// digits in base `b` are in range and satisfy the constraint, where `b` to the
/// `n` is two to the sixty-fourth, is below two to the sixty-fourth, and
/// the digits are its own.
pub proof fn lemma_u64_digits_sound(value: int, ds: Seq<int>, b: int)
    requires
        b > 1,
        pow(b, ds.len()) == 0x1_0000_0000_0000_0000,
        0 <= value < crate::circuits::utils::modulus(),
        crate::circuits::utils::all_digits(ds, b),
        u64_digits_gate(value, ds, b),
    ensures
        value < 0x1_0000_0000_0000_0000,
        ds == digits(value, b, ds.len()),
{
    let w = weighted(ds, b);
    crate::circuits::utils::lemma_weighted_nonneg(ds, b);
    crate::circuits::utils::lemma_digits_unique(ds, w, b);
    crate::circuits::utils::lemma_weighted_digits(w, b, ds.len());
    lemma_mod_bound(w, pow(b, ds.len()));
    crate::circuits::utils::lemma_fzero_small(value - w);
}

/// A memory table lookup cell lies within a block.
pub open spec fn mtable_lookup_cell_ok(c: MTableLookupCell) -> bool {
    0 <= c.rot < ETABLE_STEP_SIZE
}

/// The writes of the memory table lookup cells `cells` of a step at row
/// `o`, the `i`-th holding `encodings[i]`, the encoding of the stack or
/// memory access that it looks up.
pub open spec fn mtable_lookup_writes(cells: Seq<MTableLookupCell>, o: int, encodings: Seq<FieldValue>) -> Seq<
    CellWrite,
>
    decreases cells.len(),
{
    if cells.len() == 0 {
        Seq::empty()
    } else {
        mtable_lookup_writes(cells.drop_last(), o, encodings) + one_write(
            cells.last().col,
            o,
            cells.last().rot as int,
            encodings[cells.len() - 1],
        )
    }
}

/// Assigns to each of the memory table lookup cells `cells` of the step at
/// the context's row the encoding of its access, in order.
pub fn assign_mtable_lookups(ctx: &mut Context, cells: &Vec<MTableLookupCell>, encodings: &Vec<FieldValue>)
    requires
        cells.len() == encodings.len(),
        forall|i: int| 0 <= i < cells.len() ==> mtable_lookup_cell_ok(#[trigger] cells@[i]),
        old(ctx).offset + ETABLE_STEP_SIZE <= i32::MAX,
    ensures
        final(ctx).offset == old(ctx).offset,
        final(ctx).writes@ == old(ctx).writes@ + mtable_lookup_writes(cells@, old(ctx).offset as int, encodings@),
{
    let ghost w0 = ctx.writes@;
    let mut i: usize = 0;
    while i < cells.len()
        invariant
            i <= cells.len(),
            cells.len() == encodings.len(),
            forall|j: int| 0 <= j < cells.len() ==> mtable_lookup_cell_ok(#[trigger] cells@[j]),
            ctx.offset == old(ctx).offset,
            old(ctx).offset + ETABLE_STEP_SIZE <= i32::MAX,
            ctx.writes@ == w0 + mtable_lookup_writes(cells@.subrange(0, i as int), old(ctx).offset as int, encodings@),
        decreases cells.len() - i,
    {
        assert(mtable_lookup_cell_ok(cells@[i as int]));
        cells[i].assign(ctx, encodings[i]);
        proof {
            let s = cells@.subrange(0, i as int + 1);
            assert(s.drop_last() =~= cells@.subrange(0, i as int));
            assert(ctx.writes@ =~= w0 + mtable_lookup_writes(s, old(ctx).offset as int, encodings@));
        }
        i = i + 1;
    }
    proof {
        assert(cells@.subrange(0, cells.len() as int) =~= cells@);
    }
}


/// The allocator never hands out one cell twice, nor a cell of the block's
/// common part: bit cells at distinct indices of the bit region are
/// distinct and none is the enable bit; cells of the common range lie past
/// the state cells; and in the auxiliary column the memory table lookups,
/// the 64-bit values and the 64-bit values on bytes take rows of their own,
/// past the rows of the instruction, jump, power and offset/length lookups
/// and within the block.
pub proof fn lemma_allocated_cells_distinct(i: int, j: int)
    ensures
        BIT_ROT_MAX <= i < BIT_CELLS && BIT_ROT_MAX <= j < BIT_CELLS && i != j ==> bit_cell_at(i) != bit_cell_at(j),
        BIT_ROT_MAX <= i < BIT_CELLS ==> bit_cell_at(i) != bit_cell_at(0),
        STATE_ROT_MAX <= i < ETABLE_STEP_SIZE ==> STATE_ROT_MAX <= common_range_cell_at(i).rot < ETABLE_STEP_SIZE,
        AUX_ROT_MTABLE_LOOKUP_START <= i < AUX_ROT_U64_START ==> {
            let r = mtable_lookup_cell_at(i).rot as int;
            &&& AUX_ROT_OFFSET_LEN_BITS_TABLE_LOOKUP < r < AUX_ROT_U64_START
            &&& (0 <= j < U4_COLUMNS ==> r < u64_cell_at(j).value_rot)
        },
        0 <= i < U4_COLUMNS && 0 <= j < U8_COLUMNS * 2 ==> {
            let r = u64_cell_at(i).value_rot as int;
            &&& AUX_ROT_U64_START <= r < u64_on_u8_cell_at(j).value_rot
            &&& u64_on_u8_cell_at(j).value_rot < ETABLE_STEP_SIZE
        },
        0 <= i < U4_COLUMNS && 0 <= j < U4_COLUMNS && i != j ==> u64_cell_at(i) != u64_cell_at(j),
        0 <= i < U8_COLUMNS * 2 && 0 <= j < U8_COLUMNS * 2 && i != j ==> u64_on_u8_cell_at(i) != u64_on_u8_cell_at(j),
{
    if BIT_ROT_MAX <= i < BIT_CELLS && BIT_ROT_MAX <= j < BIT_CELLS && i != j {
        if i < 20 && j < 20 {
            assert(bit_cell_at(i).rot != bit_cell_at(j).rot);
        } else if i >= 20 && j >= 20 {
            assert(bit_cell_at(i).rot != bit_cell_at(j).rot);
        } else {
            assert(bit_cell_at(i).col != bit_cell_at(j).col);
        }
    }
    if BIT_ROT_MAX <= i < BIT_CELLS {
        if i < 20 {
            assert(bit_cell_at(i).rot != 0);
        } else {
            assert(bit_cell_at(i).col != bit_cell_at(0).col);
        }
    }
}

} // verus!
