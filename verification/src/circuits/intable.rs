//! The input table: on each of its rows the public input of that index,
//! read by the steps that take a public input through the value
//! `index * 2^64 + input` of an enabled row.

use vstd::prelude::*;
use crate::circuits::etable_compact::op_configure::{has_write, lemma_has_write_append, lemma_has_write_one, one_write};
use crate::circuits::utils::{fv_u64, CellWrite, Context, FieldValue};

verus! {

/// The value that a row of the table gives to a lookup: nothing where the
/// row is disabled, else its index above the lowest 64 bits and its input
/// in them.
pub open spec fn intable_encode(enable: int, index: int, input: int) -> int {
    enable * (index * 0x1_0000_0000_0000_0000 + input)
}

/// An enabled row's value tells its index and input apart, for inputs of
/// 64 bits.
pub proof fn lemma_intable_encode_injective(i1: int, x1: int, i2: int, x2: int)
    requires
        0 <= x1 < 0x1_0000_0000_0000_0000,
        0 <= x2 < 0x1_0000_0000_0000_0000,
        intable_encode(1, i1, x1) == intable_encode(1, i2, x2),
    ensures
        i1 == i2,
        x1 == x2,
{
    let b = 0x1_0000_0000_0000_0000int;
    vstd::arithmetic::div_mod::lemma_fundamental_div_mod_converse(i1 * b + x1, b, i1, x1);
    vstd::arithmetic::div_mod::lemma_fundamental_div_mod_converse(i2 * b + x2, b, i2, x2);
}

/// The enable bit and index of the first `k` rows from row zero.
pub open spec fn intable_writes(enable: usize, index: usize, k: nat) -> Seq<CellWrite>
    decreases k,
{
    if k == 0 {
        Seq::empty()
    } else {
        let i = k - 1;
        intable_writes(enable, index, i as nat) + one_write(enable, i as int, 0, fv_u64(1)) + one_write(
            index,
            i as int,
            0,
            fv_u64(i as u64),
        )
    }
}

/// Each of the first `k` rows is enabled and holds its own index.
pub proof fn lemma_intable_writes_cells(enable: usize, index: usize, k: nat, i: int)
    requires
        0 <= i < k,
        k <= u64::MAX,
    ensures
        has_write(intable_writes(enable, index, k), enable, i, fv_u64(1)),
        has_write(intable_writes(enable, index, k), index, i, fv_u64(i as u64)),
    decreases k,
{
    let j = k - 1;
    let prev = intable_writes(enable, index, j as nat);
    let e = one_write(enable, j as int, 0, fv_u64(1));
    let x = one_write(index, j as int, 0, fv_u64(j as u64));
    if i < j {
        lemma_intable_writes_cells(enable, index, j as nat, i);
    } else {
        lemma_has_write_one(enable, j as int, 0, fv_u64(1));
        lemma_has_write_one(index, j as int, 0, fv_u64(j as u64));
    }
    lemma_has_write_append(prev, e, enable, i, fv_u64(1));
    lemma_has_write_append(prev + e, x, enable, i, fv_u64(1));
    lemma_has_write_append(prev, e, index, i, fv_u64(i as u64));
    lemma_has_write_append(prev + e, x, index, i, fv_u64(i as u64));
}

/// The table's enable and index columns, and the rows it spans.
#[derive(Clone, Copy, Debug, PartialEq, Eq, Structural)]
pub struct InputTableChip {
    pub enable: usize,
    pub index: usize,
    pub rows: usize,
}

impl InputTableChip {
    /// Enables every row of the table and gives it its index.
    pub fn assign(&self, ctx: &mut Context)
        requires
            self.rows <= u64::MAX,
        ensures
            final(ctx).offset == old(ctx).offset,
            final(ctx).writes@ == old(ctx).writes@ + intable_writes(self.enable, self.index, self.rows as nat),
    {
        let ghost w0 = ctx.writes@;
        let mut i: usize = 0;
        while i < self.rows
            invariant
                i <= self.rows,
                self.rows <= u64::MAX,
                ctx.offset == old(ctx).offset,
                w0 == old(ctx).writes@,
                ctx.writes@ == w0 + intable_writes(self.enable, self.index, i as nat),
            decreases self.rows - i,
        {
            ctx.assign_advice(self.enable, i, FieldValue::from_u64(1));
            ctx.assign_advice(self.index, i, FieldValue::from_u64(i as u64));
            proof {
                assert(ctx.writes@ =~= w0 + intable_writes(self.enable, self.index, (i + 1) as nat));
            }
            i = i + 1;
        }
    }
}

} // verus!
