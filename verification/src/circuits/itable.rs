//! The instruction table: a first row of zero, then the encoding of each
//! instruction of the program, in order.

use vstd::prelude::*;
use crate::circuits::etable_compact::op_configure::{has_write, lemma_has_write_append, lemma_has_write_one, one_write};
use crate::circuits::utils::{fv_u64, CellWrite, Context, FieldValue};

verus! {

/// The first `k` values of `vals`, the `i`-th at row `i + 1`, after the
/// zero on the first row.
pub open spec fn after_zero_writes(col: usize, vals: Seq<FieldValue>, k: nat) -> Seq<CellWrite>
    decreases k,
{
    if k == 0 {
        Seq::empty()
    } else {
        after_zero_writes(col, vals, (k - 1) as nat) + one_write(col, k as int, 0, vals[k - 1])
    }
}

/// The values after the first row are each written below the previous:
/// the `i`-th to row `i + 1`.
pub proof fn lemma_after_zero_writes_cells(col: usize, vals: Seq<FieldValue>, k: nat, i: int)
    requires
        0 <= i < k,
    ensures
        has_write(after_zero_writes(col, vals, k), col, i + 1, vals[i]),
    decreases k,
{
    let prev = after_zero_writes(col, vals, (k - 1) as nat);
    let cur = one_write(col, k as int, 0, vals[k - 1]);
    if i < k - 1 {
        lemma_after_zero_writes_cells(col, vals, (k - 1) as nat, i);
    } else {
        lemma_has_write_one(col, k as int, 0, vals[k - 1]);
    }
    lemma_has_write_append(prev, cur, col, i + 1, vals[i]);
}

/// The table's column.
#[derive(Clone, Copy, Debug, PartialEq, Eq, Structural)]
pub struct InstructionTableChip {
    pub col: usize,
}

/// Assigns a zero on column `col`'s first row, then `vals` from the second
/// row on.
pub(crate) fn assign_after_zero(ctx: &mut Context, col: usize, vals: &Vec<FieldValue>)
    ensures
        final(ctx).offset == old(ctx).offset,
        final(ctx).writes@ == old(ctx).writes@ + one_write(col, 0, 0, fv_u64(0)) + after_zero_writes(
            col,
            vals@,
            vals.len() as nat,
        ),
{
    ctx.assign_advice(col, 0, FieldValue::from_u64(0));
    let ghost w1 = ctx.writes@;
    let mut i: usize = 0;
    while i < vals.len()
        invariant
            i <= vals.len(),
            ctx.offset == old(ctx).offset,
            w1 == old(ctx).writes@ + one_write(col, 0, 0, fv_u64(0)),
            ctx.writes@ == w1 + after_zero_writes(col, vals@, i as nat),
        decreases vals.len() - i,
    {
        ctx.assign_advice(col, i + 1, vals[i]);
        proof {
            assert(ctx.writes@ =~= w1 + after_zero_writes(col, vals@, (i + 1) as nat));
        }
        i = i + 1;
    }
}

impl InstructionTableChip {
    /// Assigns the table of the instructions whose encodings are `encoded`.
    pub fn assign(&self, ctx: &mut Context, encoded: &Vec<FieldValue>)
        ensures
            final(ctx).offset == old(ctx).offset,
            final(ctx).writes@ == old(ctx).writes@ + one_write(self.col, 0, 0, fv_u64(0)) + after_zero_writes(
                self.col,
                encoded@,
                encoded.len() as nat,
            ),
    {
        assign_after_zero(ctx, self.col, encoded);
    }
}

} // verus!
