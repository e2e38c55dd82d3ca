//! The instruction table laid out as an advice column whose cells the
//! image checksum reads: the encoding of each instruction from the first
//! row on, then zeros up to the table's size.

use vstd::prelude::*;
use crate::circuits::etable_compact::op_configure::one_write;
use crate::circuits::utils::{fv_u64, CellWrite, Context, FieldValue};

verus! {

/// The first `k` values of `vals`, the `i`-th at row `i`.
pub open spec fn column_writes(col: usize, vals: Seq<FieldValue>, k: nat) -> Seq<CellWrite>
    decreases k,
{
    if k == 0 {
        Seq::empty()
    } else {
        column_writes(col, vals, (k - 1) as nat) + one_write(col, k - 1, 0, vals[k - 1])
    }
}

/// Zeros on the rows from `from` up to `to`.
pub open spec fn padding_writes(col: usize, from: int, to: int) -> Seq<CellWrite>
    decreases to - from,
{
    if to <= from {
        Seq::empty()
    } else {
        padding_writes(col, from, to - 1) + one_write(col, to - 1, 0, fv_u64(0))
    }
}

/// The values of a padded column: `vals`, then zeros up to `rows`.
pub open spec fn padded(vals: Seq<FieldValue>, rows: nat) -> Seq<FieldValue> {
    vals + Seq::new((rows - vals.len()) as nat, |i: int| fv_u64(0))
}

/// Assigns `vals` down column `col` from row zero, then zeros up to row
/// `max_rows`, which the values must stay below; gives the column's values.
pub fn assign_padded_column(ctx: &mut Context, col: usize, vals: &Vec<FieldValue>, max_rows: usize) -> (r: Vec<
    FieldValue,
>)
    requires
        vals.len() < max_rows,
    ensures
        final(ctx).offset == old(ctx).offset,
        final(ctx).writes@ == old(ctx).writes@ + column_writes(col, vals@, vals.len() as nat) + padding_writes(
            col,
            vals.len() as int,
            max_rows as int,
        ),
        r@ == padded(vals@, max_rows as nat),
{
    let ghost w0 = ctx.writes@;
    let mut r: Vec<FieldValue> = Vec::new();
    let mut offset: usize = 0;
    while offset < vals.len()
        invariant
            offset <= vals.len(),
            ctx.offset == old(ctx).offset,
            ctx.writes@ == w0 + column_writes(col, vals@, offset as nat),
            r@ == vals@.subrange(0, offset as int),
        decreases vals.len() - offset,
    {
        ctx.assign_advice(col, offset, vals[offset]);
        r.push(vals[offset]);
        proof {
            assert(ctx.writes@ =~= w0 + column_writes(col, vals@, (offset + 1) as nat));
            assert(r@ =~= vals@.subrange(0, offset as int + 1));
        }
        offset = offset + 1;
    }
    let ghost w1 = ctx.writes@;
    while offset < max_rows
        invariant
            vals.len() <= offset <= max_rows,
            ctx.offset == old(ctx).offset,
            ctx.writes@ == w1 + padding_writes(col, vals.len() as int, offset as int),
            r@ == padded(vals@, offset as nat),
        decreases max_rows - offset,
    {
        ctx.assign_advice(col, offset, FieldValue::from_u64(0));
        r.push(FieldValue::from_u64(0));
        proof {
            assert(ctx.writes@ =~= w1 + padding_writes(col, vals.len() as int, offset as int + 1));
            assert(r@ =~= padded(vals@, (offset + 1) as nat));
        }
        offset = offset + 1;
    }
    proof {
        assert(ctx.writes@ =~= w0 + column_writes(col, vals@, vals.len() as nat) + padding_writes(
            col,
            vals.len() as int,
            max_rows as int,
        ));
    }
    r
}

/// The table's column and size.
#[derive(Clone, Copy, Debug, PartialEq, Eq, Structural)]
pub struct InstructionTableChip {
    pub col: usize,
    pub max_rows: usize,
}

impl InstructionTableChip {
    /// Assigns the instructions whose encodings are `encoded`, which must
    /// leave room in the table, and the padding; gives the column's values.
    pub fn assign(&self, ctx: &mut Context, encoded: &Vec<FieldValue>) -> (r: Vec<FieldValue>)
        requires
            encoded.len() < self.max_rows,
        ensures
            final(ctx).offset == old(ctx).offset,
            final(ctx).writes@ == old(ctx).writes@ + column_writes(self.col, encoded@, encoded.len() as nat)
                + padding_writes(self.col, encoded.len() as int, self.max_rows as int),
            r@ == padded(encoded@, self.max_rows as nat),
    {
        assign_padded_column(ctx, self.col, encoded, self.max_rows)
    }
}

} // verus!
