//! The table of calls to the external host: an index on every row, a first
//! row of zeros, then for each recorded call its operation, whether it hands
//! a value back, and the value.

use vstd::prelude::*;
use crate::circuits::etable_compact::op_configure::{has_write, lemma_has_write_append, lemma_has_write_one, one_write};
use crate::circuits::utils::{b2i, fv_u64, CellWrite, Context, FieldValue};

verus! {

/// Whether a value goes to the host as an argument or comes back from it.
#[derive(Clone, Copy, Debug, PartialEq, Eq, Structural)]
pub enum ExternalHostCallSignature {
    Argument,
    Return,
}

impl ExternalHostCallSignature {
    /// Whether the value comes back from the host.
    pub fn is_ret(&self) -> (r: bool)
        ensures
            r == (*self == ExternalHostCallSignature::Return),
    {
        match self {
            ExternalHostCallSignature::Argument => false,
            ExternalHostCallSignature::Return => true,
        }
    }
}

/// A recorded call to the external host: the operation, the direction of
/// the value, and the value.
#[derive(Clone, Copy, Debug, PartialEq, Eq, Structural)]
pub struct ExternalHostCallEntry {
    pub op: u64,
    pub sig: ExternalHostCallSignature,
    pub value: u64,
}

/// The index column's first `k` rows.
pub open spec fn index_writes(idx: usize, k: nat) -> Seq<CellWrite>
    decreases k,
{
    if k == 0 {
        Seq::empty()
    } else {
        index_writes(idx, (k - 1) as nat) + one_write(idx, k - 1, 0, fv_u64((k - 1) as u64))
    }
}

/// The first `k` calls, the `i`-th at row `i + 1`: its operation, whether
/// it hands a value back, and the value.
pub open spec fn call_writes(c: ExternalHostCallChip, entries: Seq<ExternalHostCallEntry>, k: nat) -> Seq<CellWrite>
    decreases k,
{
    if k == 0 {
        Seq::empty()
    } else {
        let e = entries[k - 1];
        call_writes(c, entries, (k - 1) as nat) + one_write(c.op, k as int, 0, fv_u64(e.op)) + one_write(
            c.is_ret,
            k as int,
            0,
            fv_u64(b2i(e.sig == ExternalHostCallSignature::Return) as u64),
        ) + one_write(c.arg, k as int, 0, fv_u64(e.value))
    }
}

/// The whole assignment: the index column, the first row of zeros, then
/// the calls.
pub open spec fn host_call_writes(c: ExternalHostCallChip, entries: Seq<ExternalHostCallEntry>) -> Seq<CellWrite> {
    index_writes(c.idx, c.max_available_size as nat) + one_write(c.op, 0, 0, fv_u64(0)) + one_write(
        c.arg,
        0,
        0,
        fv_u64(0),
    ) + one_write(c.is_ret, 0, 0, fv_u64(0)) + call_writes(c, entries, entries.len())
}

/// Each of the first `k` calls is written on row `i + 1`: its operation,
/// whether the value is a result of the host (one) or an argument handed to
/// it (zero), and the value.
proof fn lemma_call_writes_cells(c: ExternalHostCallChip, entries: Seq<ExternalHostCallEntry>, k: nat, i: int)
    requires
        0 <= i < k,
    ensures
        has_write(call_writes(c, entries, k), c.op, i + 1, fv_u64(entries[i].op)),
        has_write(
            call_writes(c, entries, k),
            c.is_ret,
            i + 1,
            fv_u64(if entries[i].sig == ExternalHostCallSignature::Return { 1 } else { 0 }),
        ),
        has_write(call_writes(c, entries, k), c.arg, i + 1, fv_u64(entries[i].value)),
    decreases k,
{
    let e = entries[k - 1];
    let prev = call_writes(c, entries, (k - 1) as nat);
    let a = one_write(c.op, k as int, 0, fv_u64(e.op));
    let b = one_write(c.is_ret, k as int, 0, fv_u64(b2i(e.sig == ExternalHostCallSignature::Return) as u64));
    let d = one_write(c.arg, k as int, 0, fv_u64(e.value));
    let vop = fv_u64(entries[i].op);
    let vret = fv_u64(if entries[i].sig == ExternalHostCallSignature::Return { 1 } else { 0 });
    let varg = fv_u64(entries[i].value);
    if i < k - 1 {
        lemma_call_writes_cells(c, entries, (k - 1) as nat, i);
    } else {
        lemma_has_write_one(c.op, k as int, 0, fv_u64(e.op));
        lemma_has_write_one(c.is_ret, k as int, 0, fv_u64(b2i(e.sig == ExternalHostCallSignature::Return) as u64));
        lemma_has_write_one(c.arg, k as int, 0, fv_u64(e.value));
    }
    lemma_has_write_append(prev, a, c.op, i + 1, vop);
    lemma_has_write_append(prev + a, b, c.op, i + 1, vop);
    lemma_has_write_append(prev + a + b, d, c.op, i + 1, vop);
    lemma_has_write_append(prev, a, c.is_ret, i + 1, vret);
    lemma_has_write_append(prev + a, b, c.is_ret, i + 1, vret);
    lemma_has_write_append(prev + a + b, d, c.is_ret, i + 1, vret);
    lemma_has_write_append(prev, a, c.arg, i + 1, varg);
    lemma_has_write_append(prev + a, b, c.arg, i + 1, varg);
    lemma_has_write_append(prev + a + b, d, c.arg, i + 1, varg);
}

/// The table writes each call on the row after the one before it, the
/// first on row one: its operation, whether the value is a result of the
/// host (one) or an argument handed to it (zero), and the value.
pub proof fn lemma_host_call_writes_cells(c: ExternalHostCallChip, entries: Seq<ExternalHostCallEntry>, i: int)
    requires
        0 <= i < entries.len(),
    ensures
        has_write(host_call_writes(c, entries), c.op, i + 1, fv_u64(entries[i].op)),
        has_write(
            host_call_writes(c, entries),
            c.is_ret,
            i + 1,
            fv_u64(if entries[i].sig == ExternalHostCallSignature::Return { 1 } else { 0 }),
        ),
        has_write(host_call_writes(c, entries), c.arg, i + 1, fv_u64(entries[i].value)),
{
    let pre = index_writes(c.idx, c.max_available_size as nat) + one_write(c.op, 0, 0, fv_u64(0)) + one_write(
        c.arg,
        0,
        0,
        fv_u64(0),
    ) + one_write(c.is_ret, 0, 0, fv_u64(0));
    let cw = call_writes(c, entries, entries.len());
    assert(host_call_writes(c, entries) == pre + cw);
    lemma_call_writes_cells(c, entries, entries.len(), i);
    lemma_has_write_append(pre, cw, c.op, i + 1, fv_u64(entries[i].op));
    lemma_has_write_append(
        pre,
        cw,
        c.is_ret,
        i + 1,
        fv_u64(if entries[i].sig == ExternalHostCallSignature::Return { 1 } else { 0 }),
    );
    lemma_has_write_append(pre, cw, c.arg, i + 1, fv_u64(entries[i].value));
}

/// The table's columns and the rows it may use.
#[derive(Clone, Copy, Debug, PartialEq, Eq, Structural)]
pub struct ExternalHostCallChip {
    pub idx: usize,
    pub op: usize,
    pub arg: usize,
    pub is_ret: usize,
    pub max_available_size: usize,
}

impl ExternalHostCallChip {
    /// Assigns the table of the recorded calls `entries`.
    pub fn assign(&self, ctx: &mut Context, entries: &Vec<ExternalHostCallEntry>)
        requires
            self.max_available_size <= u64::MAX,
            entries.len() < usize::MAX,
        ensures
            final(ctx).offset == old(ctx).offset,
            final(ctx).writes@ == old(ctx).writes@ + host_call_writes(*self, entries@),
    {
        let ghost w0 = ctx.writes@;
        let mut offset: usize = 0;
        while offset < self.max_available_size
            invariant
                offset <= self.max_available_size,
                self.max_available_size <= u64::MAX,
                ctx.offset == old(ctx).offset,
                ctx.writes@ == w0 + index_writes(self.idx, offset as nat),
            decreases self.max_available_size - offset,
        {
            ctx.assign_advice(self.idx, offset, FieldValue::from_u64(offset as u64));
            proof {
                assert(ctx.writes@ =~= w0 + index_writes(self.idx, (offset + 1) as nat));
            }
            offset = offset + 1;
        }
        ctx.assign_advice(self.op, 0, FieldValue::from_u64(0));
        ctx.assign_advice(self.arg, 0, FieldValue::from_u64(0));
        ctx.assign_advice(self.is_ret, 0, FieldValue::from_u64(0));
        let ghost w1 = ctx.writes@;
        proof {
            assert(w1 =~= w0 + index_writes(self.idx, self.max_available_size as nat) + one_write(self.op, 0, 0, fv_u64(0))
                + one_write(self.arg, 0, 0, fv_u64(0)) + one_write(self.is_ret, 0, 0, fv_u64(0)));
        }
        let mut i: usize = 0;
        while i < entries.len()
            invariant
                i <= entries.len(),
                entries.len() < usize::MAX,
                ctx.offset == old(ctx).offset,
                ctx.writes@ == w1 + call_writes(*self, entries@, i as nat),
            decreases entries.len() - i,
        {
            let e = entries[i];
            ctx.assign_advice(self.op, i + 1, FieldValue::from_u64(e.op));
            let r = e.sig.is_ret();
            ctx.assign_advice(self.is_ret, i + 1, FieldValue::from_u64(if r { 1 } else { 0 }));
            ctx.assign_advice(self.arg, i + 1, FieldValue::from_u64(e.value));
            proof {
                assert(ctx.writes@ =~= w1 + call_writes(*self, entries@, (i + 1) as nat));
            }
            i = i + 1;
        }
    }
}

} // verus!
