//! The initial memory table: a first row of zeros, then the heap entries
//! and after them the global entries, laid out row by row across the
//! table's columns, the last row filled up with zeros.

use vstd::prelude::*;
use crate::circuits::etable_compact::op_configure::{
    has_write, lemma_has_write_append, lemma_has_write_framed, lemma_has_write_one, one_write,
};
use crate::circuits::utils::{fv_u64, CellWrite, Context, FieldValue};

verus! {

/// Where a memory location lives.
#[derive(Clone, Copy, Debug, PartialEq, Eq, Structural)]
pub enum LocationType {
    Stack,
    Heap,
    Global,
}

/// An entry of the initial memory as the table reads it: where it lives
/// and the value that encodes it.
#[derive(Clone, Copy, Debug, PartialEq, Eq, Structural)]
pub struct InitMemoryTableEntry {
    pub ltype: LocationType,
    pub encoded: FieldValue,
}

/// The encodings of the entries of `entries` that live in `t`, in order.
pub open spec fn located(entries: Seq<InitMemoryTableEntry>, t: LocationType) -> Seq<FieldValue>
    decreases entries.len(),
{
    if entries.len() == 0 {
        Seq::empty()
    } else {
        let r = located(entries.drop_last(), t);
        if entries.last().ltype == t {
            r.push(entries.last().encoded)
        } else {
            r
        }
    }
}

/// The values the table holds after its first row: the heap entries, then
/// the global ones.
pub open spec fn minit_values(entries: Seq<InitMemoryTableEntry>) -> Seq<FieldValue> {
    located(entries, LocationType::Heap) + located(entries, LocationType::Global)
}

/// Zeros in the first `k` of `cols` at row `row`.
pub open spec fn row_zero_writes(cols: Seq<usize>, row: int, lo: int, k: int) -> Seq<CellWrite>
    decreases k - lo,
{
    if k <= lo {
        Seq::empty()
    } else {
        row_zero_writes(cols, row, lo, k - 1) + one_write(cols[k - 1], row, 0, fv_u64(0))
    }
}

/// The first `k` values, the `i`-th in column `i % n` of row `i / n + 1`,
/// where there are `n` columns.
pub open spec fn value_writes(cols: Seq<usize>, vals: Seq<FieldValue>, k: nat) -> Seq<CellWrite>
    decreases k,
{
    if k == 0 {
        Seq::empty()
    } else {
        let i = k - 1;
        let n = cols.len() as int;
        value_writes(cols, vals, i as nat) + one_write(cols[i % n], i / n + 1, 0, vals[i])
    }
}

/// The whole assignment: the first row of zeros, the values, and zeros in
/// the rest of the last row where the values do not fill it.
pub open spec fn minit_writes(cols: Seq<usize>, entries: Seq<InitMemoryTableEntry>) -> Seq<CellWrite> {
    let vals = minit_values(entries);
    let n = cols.len() as int;
    let m = vals.len() as int;
    row_zero_writes(cols, 0, 0, n) + value_writes(cols, vals, m as nat) + if m % n != 0 {
        row_zero_writes(cols, m / n + 1, m % n, n)
    } else {
        Seq::empty()
    }
}

/// An entry lives in one place only, so the heap and global entries
/// together are at most all of them.
pub proof fn lemma_located_len(entries: Seq<InitMemoryTableEntry>)
    ensures
        located(entries, LocationType::Heap).len() + located(entries, LocationType::Global).len() <= entries.len(),
    decreases entries.len(),
{
    if entries.len() > 0 {
        lemma_located_len(entries.drop_last());
    }
}

/// Taking the entries of one kind keeps their order: the entries of two
/// lists one after the other are those of the first list, then those of
/// the second.
pub proof fn lemma_located_append(e1: Seq<InitMemoryTableEntry>, e2: Seq<InitMemoryTableEntry>, t: LocationType)
    ensures
        located(e1 + e2, t) == located(e1, t) + located(e2, t),
    decreases e2.len(),
{
    if e2.len() == 0 {
        assert(e1 + e2 =~= e1);
        assert(located(e1, t) + located(e2, t) =~= located(e1, t));
    } else {
        let e2p = e2.drop_last();
        lemma_located_append(e1, e2p, t);
        assert((e1 + e2).drop_last() =~= e1 + e2p);
        assert((e1 + e2).last() == e2.last());
        if e2.last().ltype == t {
            assert(located(e1, t) + located(e2, t) =~= (located(e1, t) + located(e2p, t)).push(e2.last().encoded));
        } else {
            assert(located(e1, t) + located(e2, t) =~= located(e1, t) + located(e2p, t));
        }
    }
}

/// A single entry is kept exactly when it is of the kind taken.
pub proof fn lemma_located_one(x: InitMemoryTableEntry, t: LocationType)
    ensures
        located(seq![x], t) == if x.ltype == t {
            seq![x.encoded]
        } else {
            Seq::<FieldValue>::empty()
        },
{
    assert(seq![x].drop_last() =~= Seq::<InitMemoryTableEntry>::empty());
    assert(seq![x].last() == x);
    assert(located(Seq::<InitMemoryTableEntry>::empty(), t) == Seq::<FieldValue>::empty());
    assert(located(seq![x], t) == if x.ltype == t {
        located(seq![x].drop_last(), t).push(x.encoded)
    } else {
        located(seq![x].drop_last(), t)
    });
    assert(Seq::<FieldValue>::empty().push(x.encoded) =~= seq![x.encoded]);
}

/// The first `k` values are each written to their cell: the `i`-th to
/// column `i % n` of row `i / n + 1`.
proof fn lemma_value_writes_cells(cols: Seq<usize>, vals: Seq<FieldValue>, k: nat, i: int)
    requires
        0 <= i < k,
    ensures
        has_write(value_writes(cols, vals, k), cols[i % cols.len() as int], i / cols.len() as int + 1, vals[i]),
    decreases k,
{
    let n = cols.len() as int;
    let prev = value_writes(cols, vals, (k - 1) as nat);
    let cur = one_write(cols[(k - 1) % n], (k - 1) / n + 1, 0, vals[k - 1]);
    if i < k - 1 {
        lemma_value_writes_cells(cols, vals, (k - 1) as nat, i);
        lemma_has_write_append(prev, cur, cols[i % n], i / n + 1, vals[i]);
    } else {
        lemma_has_write_one(cols[(k - 1) % n], (k - 1) / n + 1, 0, vals[k - 1]);
        lemma_has_write_append(prev, cur, cols[i % n], i / n + 1, vals[i]);
    }
}

/// Zeros are written to the columns from `lo` below `k`, at row `row`.
proof fn lemma_row_zero_writes_cells(cols: Seq<usize>, row: int, lo: int, k: int, j: int)
    requires
        lo <= j < k,
    ensures
        has_write(row_zero_writes(cols, row, lo, k), cols[j], row, fv_u64(0)),
    decreases k - lo,
{
    let prev = row_zero_writes(cols, row, lo, k - 1);
    let cur = one_write(cols[k - 1], row, 0, fv_u64(0));
    if j < k - 1 {
        lemma_row_zero_writes_cells(cols, row, lo, k - 1, j);
    } else {
        lemma_has_write_one(cols[k - 1], row, 0, fv_u64(0));
    }
    lemma_has_write_append(prev, cur, cols[j], row, fv_u64(0));
}

/// The table writes the heap entries' encodings, in their order, and after
/// them the global entries' encodings, in their order: the `i`-th of them
/// to column `i % n` of row `i / n + 1`, where there are `n` columns; and
/// its first row is zeros.
pub proof fn lemma_minit_writes_cells(cols: Seq<usize>, entries: Seq<InitMemoryTableEntry>, i: int)
    requires
        cols.len() > 0,
    ensures
        0 <= i < located(entries, LocationType::Heap).len() ==> has_write(
            minit_writes(cols, entries),
            cols[i % cols.len() as int],
            i / cols.len() as int + 1,
            located(entries, LocationType::Heap)[i],
        ),
        ({
            let h = located(entries, LocationType::Heap).len() as int;
            let g = located(entries, LocationType::Global);
            h <= i < h + g.len() ==> has_write(
                minit_writes(cols, entries),
                cols[i % cols.len() as int],
                i / cols.len() as int + 1,
                g[i - h],
            )
        }),
        0 <= i < cols.len() ==> has_write(minit_writes(cols, entries), cols[i], 0, fv_u64(0)),
{
    let n = cols.len() as int;
    let vals = minit_values(entries);
    let m = vals.len() as int;
    let z = row_zero_writes(cols, 0, 0, n);
    let vw = value_writes(cols, vals, m as nat);
    let rest = if m % n != 0 {
        row_zero_writes(cols, m / n + 1, m % n, n)
    } else {
        Seq::empty()
    };
    assert(minit_writes(cols, entries) == z + vw + rest);
    if 0 <= i < m {
        lemma_value_writes_cells(cols, vals, m as nat, i);
        lemma_has_write_framed(z, vw, rest, cols[i % n], i / n + 1, vals[i]);
    }
    if 0 <= i < n {
        lemma_row_zero_writes_cells(cols, 0, 0, n, i);
        lemma_has_write_append(z, vw, cols[i], 0, fv_u64(0));
        lemma_has_write_append(z + vw, rest, cols[i], 0, fv_u64(0));
    }
}

/// The table's columns.
#[derive(Clone, Debug)]
pub struct MInitTableChip {
    pub cols: Vec<usize>,
}

/// The encodings of the entries of `entries` that live in `t`, in order.
pub(crate) fn filter_located(entries: &Vec<InitMemoryTableEntry>, t: LocationType) -> (r: Vec<FieldValue>)
    ensures
        r@ == located(entries@, t),
        r.len() <= entries.len(),
{
    let mut r: Vec<FieldValue> = Vec::new();
    let mut i: usize = 0;
    while i < entries.len()
        invariant
            i <= entries.len(),
            r@ == located(entries@.subrange(0, i as int), t),
            r.len() <= i,
        decreases entries.len() - i,
    {
        proof {
            assert(entries@.subrange(0, i as int + 1).drop_last() =~= entries@.subrange(0, i as int));
        }
        if entries[i].ltype == t {
            r.push(entries[i].encoded);
        }
        i = i + 1;
    }
    proof {
        assert(entries@.subrange(0, entries.len() as int) =~= entries@);
    }
    r
}

/// Writes zeros in the columns `cols[lo..]` at row `row`.
fn zero_row(ctx: &mut Context, cols: &Vec<usize>, row: usize, lo: usize)
    requires
        lo <= cols.len(),
    ensures
        final(ctx).offset == old(ctx).offset,
        final(ctx).writes@ == old(ctx).writes@ + row_zero_writes(cols@, row as int, lo as int, cols.len() as int),
{
    let ghost w0 = ctx.writes@;
    let mut j: usize = lo;
    while j < cols.len()
        invariant
            lo <= j <= cols.len(),
            ctx.offset == old(ctx).offset,
            ctx.writes@ == w0 + row_zero_writes(cols@, row as int, lo as int, j as int),
        decreases cols.len() - j,
    {
        ctx.assign_advice(cols[j], row, FieldValue::from_u64(0));
        proof {
            assert(ctx.writes@ =~= w0 + row_zero_writes(cols@, row as int, lo as int, j as int + 1));
        }
        j = j + 1;
    }
}

impl MInitTableChip {
    /// Assigns the table of the initial memory `minit`, whose heap entries
    /// fill whole rows.
    pub fn assign(&self, ctx: &mut Context, minit: &Vec<InitMemoryTableEntry>)
        requires
            self.cols.len() > 0,
            located(minit@, LocationType::Heap).len() as int % self.cols.len() as int == 0,
        ensures
            final(ctx).offset == old(ctx).offset,
            final(ctx).writes@ == old(ctx).writes@ + minit_writes(self.cols@, minit@),
            forall|i: int|
                #![trigger located(minit@, LocationType::Heap)[i]]
                0 <= i < located(minit@, LocationType::Heap).len() ==> has_write(
                    final(ctx).writes@,
                    self.cols@[i % self.cols@.len() as int],
                    i / self.cols@.len() as int + 1,
                    located(minit@, LocationType::Heap)[i],
                ),
            forall|i: int|
                #![trigger located(minit@, LocationType::Global)[i]]
                0 <= i < located(minit@, LocationType::Global).len() ==> {
                    let j = located(minit@, LocationType::Heap).len() + i;
                    has_write(
                        final(ctx).writes@,
                        self.cols@[j % self.cols@.len() as int],
                        j / self.cols@.len() as int + 1,
                        located(minit@, LocationType::Global)[i],
                    )
                },
    {
        let n = self.cols.len();
        zero_row(ctx, &self.cols, 0, 0);
        let heap = filter_located(minit, LocationType::Heap);
        let global = filter_located(minit, LocationType::Global);
        let ghost w1 = ctx.writes@;
        let ghost vals = minit_values(minit@);
        proof {
            lemma_located_len(minit@);
        }
        let mut idx: usize = 0;
        let total = heap.len() + global.len();
        while idx < total
            invariant
                n == self.cols.len(),
                n > 0,
                heap@ == located(minit@, LocationType::Heap),
                global@ == located(minit@, LocationType::Global),
                vals == heap@ + global@,
                total == vals.len(),
                total <= minit.len(),
                idx <= total,
                ctx.offset == old(ctx).offset,
                ctx.writes@ == w1 + value_writes(self.cols@, vals, idx as nat),
            decreases total - idx,
        {
            let v = if idx < heap.len() {
                heap[idx]
            } else {
                global[idx - heap.len()]
            };
            ctx.assign_advice(self.cols[idx % n], idx / n + 1, v);
            proof {
                assert(v == vals[idx as int]);
                assert(ctx.writes@ =~= w1 + value_writes(self.cols@, vals, (idx + 1) as nat));
            }
            idx = idx + 1;
        }
        let ghost w2 = ctx.writes@;
        if idx % n != 0 {
            proof {
                assert(n != 1);
                vstd::arithmetic::div_mod::lemma_div_is_ordered_by_denominator(idx as int, 2, n as int);
                assert(idx / n <= idx / 2);
            }
            zero_row(ctx, &self.cols, idx / n + 1, idx % n);
        }
        proof {
            assert(ctx.writes@ =~= old(ctx).writes@ + minit_writes(self.cols@, minit@));
            let cs = self.cols@;
            let nn = cs.len() as int;
            let mw = minit_writes(cs, minit@);
            let hs = located(minit@, LocationType::Heap);
            let gs = located(minit@, LocationType::Global);
            assert forall|i: int| #![trigger hs[i]] 0 <= i < hs.len() implies has_write(
                ctx.writes@,
                cs[i % nn],
                i / nn + 1,
                hs[i],
            ) by {
                lemma_minit_writes_cells(cs, minit@, i);
                lemma_has_write_append(old(ctx).writes@, mw, cs[i % nn], i / nn + 1, hs[i]);
            }
            assert forall|i: int| #![trigger gs[i]] 0 <= i < gs.len() implies has_write(
                ctx.writes@,
                cs[(hs.len() + i) % nn],
                (hs.len() + i) / nn + 1,
                gs[i],
            ) by {
                let j = hs.len() + i;
                lemma_minit_writes_cells(cs, minit@, j);
                assert(gs[j - hs.len()] == gs[i]);
                lemma_has_write_append(old(ctx).writes@, mw, cs[j % nn], j / nn + 1, gs[i]);
            }
        }
    }
}

/// No two values of the table share a cell: the `i`-th and the `j`-th
/// values are in different columns or different rows.
pub proof fn lemma_minit_cells_distinct(n: int, i: int, j: int)
    requires
        n > 0,
        0 <= i < j,
    ensures
        i % n != j % n || i / n != j / n,
{
    vstd::arithmetic::div_mod::lemma_fundamental_div_mod(i, n);
    vstd::arithmetic::div_mod::lemma_fundamental_div_mod(j, n);
}

} // verus!
