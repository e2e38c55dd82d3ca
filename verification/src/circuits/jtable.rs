//! The jump table: one entry of three rows per recorded jump, an enable
//! bit, the count of jump rows still to come and the jump's encoding, closed
//! by an entry of zeros; a selector marks the first row of each entry.

use vstd::prelude::*;
use crate::circuits::etable_compact::op_configure::{has_write, lemma_has_write_append, lemma_has_write_one, one_write};
use crate::circuits::utils::{fv_u64, CellWrite, Context, FieldValue};

verus! {

/// The rows of a jump table entry, in order.
#[derive(Clone, Copy, Debug, PartialEq, Eq, Structural)]
pub enum JtableOffset {
    JtableOffsetEnable,
    JtableOffsetRest,
    JtableOffsetEntry,
    JtableOffsetMax,
}

/// The row of `o` within an entry; `JtableOffsetMax` is the entry's size.
pub open spec fn jtable_offset(o: JtableOffset) -> int {
    match o {
        JtableOffset::JtableOffsetEnable => 0,
        JtableOffset::JtableOffsetRest => 1,
        JtableOffset::JtableOffsetEntry => 2,
        JtableOffset::JtableOffsetMax => 3,
    }
}

impl JtableOffset {
    /// The row within an entry; the entry's size for `JtableOffsetMax`.
    pub fn offset(&self) -> (r: usize)
        ensures
            r == jtable_offset(*self),
    {
        match self {
            JtableOffset::JtableOffsetEnable => 0,
            JtableOffset::JtableOffsetRest => 1,
            JtableOffset::JtableOffsetEntry => 2,
            JtableOffset::JtableOffsetMax => 3,
        }
    }
}

/// A recorded jump as the table reads it: the step that made it, zero for
/// none, and the value that encodes it.
#[derive(Clone, Copy, Debug, PartialEq, Eq, Structural)]
pub struct JumpTableEntry {
    pub eid: u64,
    pub encoded: FieldValue,
}

/// The jumps of `entries` that were made by a step, in order.
pub open spec fn recorded_jumps(entries: Seq<JumpTableEntry>) -> Seq<JumpTableEntry>
    decreases entries.len(),
{
    if entries.len() == 0 {
        Seq::empty()
    } else {
        let r = recorded_jumps(entries.drop_last());
        if entries.last().eid != 0 {
            r.push(entries.last())
        } else {
            r
        }
    }
}

/// The selector set on the first row of every entry among the first `rows`
/// rows of a table starting at row `base`.
pub open spec fn sel_writes(sel: usize, base: int, rows: nat) -> Seq<CellWrite>
    decreases rows,
{
    if rows == 0 {
        Seq::empty()
    } else {
        let r = rows - 1;
        sel_writes(sel, base, r as nat) + if r % 3 == 0 {
            one_write(sel, base, r, fv_u64(1))
        } else {
            Seq::empty()
        }
    }
}

/// The three rows of an entry at row `row`: its enable bit, the jump rows
/// still to come, and its encoding.
pub open spec fn entry_writes(data: usize, row: int, enable: u64, rest: u64, encoded: FieldValue) -> Seq<CellWrite> {
    one_write(data, row, 0, fv_u64(enable)) + one_write(data, row, 1, fv_u64(rest)) + one_write(
        data,
        row,
        2,
        encoded,
    )
}

/// The entries of the first `k` jumps of `jumps`, from row `base`: the
/// `k`-th at row `base + 3 k`, with twice the number of jumps from it on
/// still to come.
pub open spec fn jumps_writes(data: usize, base: int, jumps: Seq<JumpTableEntry>, k: nat) -> Seq<CellWrite>
    decreases k,
{
    if k == 0 {
        Seq::empty()
    } else {
        let i = k - 1;
        jumps_writes(data, base, jumps, i as nat) + entry_writes(
            data,
            base + 3 * i,
            1,
            (2 * (jumps.len() - i)) as u64,
            jumps[i].encoded,
        )
    }
}

/// The whole assignment of a table of `rows` rows from row `base`: the
/// selectors, then an entry per recorded jump, then an entry of zeros.
pub open spec fn jtable_writes(sel: usize, data: usize, rows: nat, base: int, entries: Seq<JumpTableEntry>) -> Seq<
    CellWrite,
> {
    let jumps = recorded_jumps(entries);
    sel_writes(sel, base, rows) + jumps_writes(data, base, jumps, jumps.len()) + entry_writes(
        data,
        base + 3 * jumps.len(),
        0,
        0,
        fv_u64(0),
    )
}

/// Each of the first `k` jumps has its entry at row `base + 3 i`: the
/// enable bit set, twice the number of jumps from it on, and its encoding.
proof fn lemma_jumps_writes_cells(data: usize, base: int, jumps: Seq<JumpTableEntry>, k: nat, i: int)
    requires
        0 <= i < k <= jumps.len(),
    ensures
        has_write(jumps_writes(data, base, jumps, k), data, base + 3 * i, fv_u64(1)),
        has_write(jumps_writes(data, base, jumps, k), data, base + 3 * i + 1, fv_u64((2 * (jumps.len() - i)) as u64)),
        has_write(jumps_writes(data, base, jumps, k), data, base + 3 * i + 2, jumps[i].encoded),
    decreases k,
{
    let j = k - 1;
    let prev = jumps_writes(data, base, jumps, j as nat);
    let row = base + 3 * j;
    let rest = (2 * (jumps.len() - j)) as u64;
    let a = one_write(data, row, 0, fv_u64(1));
    let b = one_write(data, row, 1, fv_u64(rest));
    let d = one_write(data, row, 2, jumps[j].encoded);
    assert(entry_writes(data, row, 1, rest, jumps[j].encoded) == a + b + d);
    let v0 = fv_u64(1);
    let v1 = fv_u64((2 * (jumps.len() - i)) as u64);
    let v2 = jumps[i].encoded;
    if i < j {
        lemma_jumps_writes_cells(data, base, jumps, j as nat, i);
    } else {
        lemma_has_write_one(data, row, 0, v0);
        lemma_has_write_one(data, row, 1, fv_u64(rest));
        lemma_has_write_one(data, row, 2, jumps[j].encoded);
    }
    lemma_has_write_append(a, b, data, base + 3 * i, v0);
    lemma_has_write_append(a + b, d, data, base + 3 * i, v0);
    lemma_has_write_append(prev, a + b + d, data, base + 3 * i, v0);
    lemma_has_write_append(a, b, data, base + 3 * i + 1, v1);
    lemma_has_write_append(a + b, d, data, base + 3 * i + 1, v1);
    lemma_has_write_append(prev, a + b + d, data, base + 3 * i + 1, v1);
    lemma_has_write_append(a, b, data, base + 3 * i + 2, v2);
    lemma_has_write_append(a + b, d, data, base + 3 * i + 2, v2);
    lemma_has_write_append(prev, a + b + d, data, base + 3 * i + 2, v2);
}

/// The jump table holds, for each recorded jump in order, an entry of three
/// rows from row `base + 3 i`: the enable bit set, twice the number of jumps
/// from it on still to come, and the jump's encoding.
pub proof fn lemma_jtable_writes_cells(sel: usize, data: usize, rows: nat, base: int, entries: Seq<JumpTableEntry>, i: int)
    requires
        0 <= i < recorded_jumps(entries).len(),
    ensures
        ({
            let jumps = recorded_jumps(entries);
            &&& has_write(jtable_writes(sel, data, rows, base, entries), data, base + 3 * i, fv_u64(1))
            &&& has_write(
                jtable_writes(sel, data, rows, base, entries),
                data,
                base + 3 * i + 1,
                fv_u64((2 * (jumps.len() - i)) as u64),
            )
            &&& has_write(jtable_writes(sel, data, rows, base, entries), data, base + 3 * i + 2, jumps[i].encoded)
        }),
{
    let jumps = recorded_jumps(entries);
    let s0 = sel_writes(sel, base, rows);
    let jw = jumps_writes(data, base, jumps, jumps.len());
    let z = entry_writes(data, base + 3 * jumps.len(), 0, 0, fv_u64(0));
    assert(jtable_writes(sel, data, rows, base, entries) == s0 + jw + z);
    lemma_jumps_writes_cells(data, base, jumps, jumps.len(), i);
    let v1 = fv_u64((2 * (jumps.len() - i)) as u64);
    lemma_has_write_append(s0, jw, data, base + 3 * i, fv_u64(1));
    lemma_has_write_append(s0 + jw, z, data, base + 3 * i, fv_u64(1));
    lemma_has_write_append(s0, jw, data, base + 3 * i + 1, v1);
    lemma_has_write_append(s0 + jw, z, data, base + 3 * i + 1, v1);
    lemma_has_write_append(s0, jw, data, base + 3 * i + 2, jumps[i].encoded);
    lemma_has_write_append(s0 + jw, z, data, base + 3 * i + 2, jumps[i].encoded);
}

/// The recorded jumps keep their order: those of two lists one after the
/// other are those of the first, then those of the second; and a single
/// entry is recorded exactly when a step made it.
pub proof fn lemma_recorded_jumps_append(e1: Seq<JumpTableEntry>, e2: Seq<JumpTableEntry>)
    ensures
        recorded_jumps(e1 + e2) == recorded_jumps(e1) + recorded_jumps(e2),
    decreases e2.len(),
{
    if e2.len() == 0 {
        assert(e1 + e2 =~= e1);
        assert(recorded_jumps(e1) + recorded_jumps(e2) =~= recorded_jumps(e1));
    } else {
        let e2p = e2.drop_last();
        lemma_recorded_jumps_append(e1, e2p);
        assert((e1 + e2).drop_last() =~= e1 + e2p);
        assert((e1 + e2).last() == e2.last());
        if e2.last().eid != 0 {
            assert(recorded_jumps(e1) + recorded_jumps(e2) =~= (recorded_jumps(e1) + recorded_jumps(e2p)).push(e2.last()));
        } else {
            assert(recorded_jumps(e1) + recorded_jumps(e2) =~= recorded_jumps(e1) + recorded_jumps(e2p));
        }
    }
}

/// A single entry is recorded exactly when a step made it.
pub proof fn lemma_recorded_jumps_one(x: JumpTableEntry)
    ensures
        recorded_jumps(seq![x]) == if x.eid != 0 {
            seq![x]
        } else {
            Seq::<JumpTableEntry>::empty()
        },
{
    assert(seq![x].drop_last() =~= Seq::<JumpTableEntry>::empty());
    assert(seq![x].last() == x);
    assert(recorded_jumps(Seq::<JumpTableEntry>::empty()) == Seq::<JumpTableEntry>::empty());
    assert(Seq::<JumpTableEntry>::empty().push(x) =~= seq![x]);
}

/// The jump table's columns: the selector, the data column, and the rows
/// it spans.
#[derive(Clone, Copy, Debug, PartialEq, Eq, Structural)]
pub struct JumpTableChip {
    pub sel: usize,
    pub data: usize,
    pub rows: usize,
}

/// The recorded jumps of `entries`, kept in order.
fn filter_recorded(entries: &Vec<JumpTableEntry>) -> (r: Vec<JumpTableEntry>)
    ensures
        r@ == recorded_jumps(entries@),
        r.len() <= entries.len(),
{
    let mut r: Vec<JumpTableEntry> = Vec::new();
    let mut i: usize = 0;
    while i < entries.len()
        invariant
            i <= entries.len(),
            r@ == recorded_jumps(entries@.subrange(0, i as int)),
            r.len() <= i,
        decreases entries.len() - i,
    {
        proof {
            assert(entries@.subrange(0, i as int + 1).drop_last() =~= entries@.subrange(0, i as int));
        }
        if entries[i].eid != 0 {
            r.push(entries[i]);
        }
        i = i + 1;
    }
    proof {
        assert(entries@.subrange(0, entries.len() as int) =~= entries@);
    }
    r
}

impl JumpTableChip {
    /// Assigns the table from the context's row, a multiple of the entry
    /// size: the selectors over the table's rows, then an entry per jump of
    /// `entries` made by a step, with the jump rows still to come counting
    /// down by two from twice their number, then an entry of zeros. Gives
    /// the row of the first entry's count, which is tied to the event
    /// table's count of jumps to come where `tie_rest_jops` is set and there
    /// is a jump.
    pub fn assign(&self, ctx: &mut Context, entries: &Vec<JumpTableEntry>, tie_rest_jops: bool) -> (r: Option<usize>)
        requires
            old(ctx).offset % 3 == 0,
            old(ctx).offset + self.rows <= usize::MAX,
            old(ctx).offset + 3 * entries.len() + 3 <= usize::MAX,
            2 * entries.len() <= u64::MAX,
        ensures
            final(ctx).offset == old(ctx).offset + 3 * recorded_jumps(entries@).len() + 3,
            final(ctx).writes@ == old(ctx).writes@ + jtable_writes(
                self.sel,
                self.data,
                self.rows as nat,
                old(ctx).offset as int,
                entries@,
            ),
            r == if tie_rest_jops && recorded_jumps(entries@).len() > 0 {
                Some((old(ctx).offset + 1) as usize)
            } else {
                None::<usize>
            },
    {
        let base = ctx.offset;
        let ghost w0 = ctx.writes@;
        let mut k: usize = 0;
        while k < self.rows
            invariant
                k <= self.rows,
                base + self.rows <= usize::MAX,
                base % 3 == 0,
                ctx.offset == base + k,
                ctx.writes@ == w0 + sel_writes(self.sel, base as int, k as nat),
            decreases self.rows - k,
        {
            if ctx.offset % 3 == 0 {
                ctx.assign_advice(self.sel, ctx.offset, FieldValue::from_u64(1));
                proof {
                    assert(k % 3 == 0);
                    assert(ctx.writes@ =~= w0 + sel_writes(self.sel, base as int, (k + 1) as nat));
                }
            } else {
                proof {
                    assert(k % 3 != 0);
                    assert(ctx.writes@ =~= w0 + sel_writes(self.sel, base as int, (k + 1) as nat));
                }
            }
            ctx.next();
            k = k + 1;
        }
        ctx.offset = base;
        let jumps = filter_recorded(entries);
        let ghost w1 = ctx.writes@;
        let n = jumps.len();
        let mut rest: u64 = (n as u64) * 2;
        let mut tied: Option<usize> = None;
        let mut i: usize = 0;
        while i < n
            invariant
                n == jumps.len(),
                jumps@ == recorded_jumps(entries@),
                n <= entries.len(),
                base + 3 * entries.len() + 3 <= usize::MAX,
                i <= n,
                ctx.offset == base + 3 * i,
                rest == 2 * (n - i),
                ctx.writes@ == w1 + jumps_writes(self.data, base as int, jumps@, i as nat),
                tied == if tie_rest_jops && i > 0 { Some((base + 1) as usize) } else { None::<usize> },
            decreases n - i,
        {
            let e = jumps[i];
            let ghost before = ctx.writes@;
            ctx.assign_advice(self.data, ctx.offset, FieldValue::from_u64(1));
            ctx.next();
            ctx.assign_advice(self.data, ctx.offset, FieldValue::from_u64(rest));
            if i == 0 && tie_rest_jops {
                tied = Some(ctx.offset);
            }
            ctx.next();
            ctx.assign_advice(self.data, ctx.offset, e.encoded);
            ctx.next();
            proof {
                assert(ctx.writes@ =~= before + entry_writes(self.data, base + 3 * i, 1, rest, e.encoded));
                assert(ctx.writes@ =~= w1 + jumps_writes(self.data, base as int, jumps@, (i + 1) as nat));
            }
            rest = rest - 2;
            i = i + 1;
        }
        let ghost before = ctx.writes@;
        ctx.assign_advice(self.data, ctx.offset, FieldValue::from_u64(0));
        ctx.next();
        ctx.assign_advice(self.data, ctx.offset, FieldValue::from_u64(0));
        ctx.next();
        ctx.assign_advice(self.data, ctx.offset, FieldValue::from_u64(0));
        ctx.next();
        proof {
            assert(ctx.writes@ =~= before + entry_writes(self.data, base + 3 * n, 0, 0, fv_u64(0)));
            assert(ctx.writes@ =~= old(ctx).writes@ + jtable_writes(
                self.sel,
                self.data,
                self.rows as nat,
                base as int,
                entries@,
            ));
        }
        tied
    }
}

} // verus!
