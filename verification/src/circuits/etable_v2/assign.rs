//! The common cells of a step in the second layout, and their assignment:
//! each step's enable bit, opcode bits, operations still to come, input and
//! host call indices, and the state it starts from.

use vstd::prelude::*;
use crate::circuits::etable_compact::op_configure::one_write;
use crate::circuits::etable_v2::allocator::{
    cell_at, position, AllocatedCell, EventTableCellAllocator,
};
use crate::circuits::etable_v2::{opcode_bit_indices, spec_opcode_bits, ESTEP_SIZE, OP_LVL1_BITS, OP_LVL2_BITS};
use crate::circuits::etable_compact::assign::prefix_count;
use crate::circuits::utils::{fv_u64, CellWrite, Context, FieldValue};

verus! {

/// The common cells of a step.
#[derive(Clone, Debug)]
pub struct EventTableCommonConfig {
    pub enabled_cell: AllocatedCell,
    pub lvl1_bits: Vec<AllocatedCell>,
    pub lvl2_bits: Vec<AllocatedCell>,
    pub rest_mops_cell: AllocatedCell,
    pub rest_jops_cell: AllocatedCell,
    pub input_index_cell: AllocatedCell,
    pub external_host_call_index_cell: AllocatedCell,
    pub sp_cell: AllocatedCell,
    pub mpages_cell: AllocatedCell,
    pub frame_id_cell: AllocatedCell,
    pub eid_cell: AllocatedCell,
    pub fid_cell: AllocatedCell,
    pub iid_cell: AllocatedCell,
    pub itable_lookup_cell: AllocatedCell,
    pub brtable_lookup_cell: AllocatedCell,
    pub jtable_lookup_cell: AllocatedCell,
    pub pow_table_lookup_cell: AllocatedCell,
    pub olb_table_lookup_cell: AllocatedCell,
}

/// A recorded step as the common cells read it: its place in the trace,
/// the instruction's function and index, the stack pointer, the step of the
/// last jump, the memory pages, the opcode class, and the memory writes and
/// jumps that it makes.
#[derive(Clone, Copy, Debug, PartialEq, Eq, Structural)]
pub struct EventTableEntry {
    pub eid: u32,
    pub fid: u32,
    pub iid: u32,
    pub sp: u32,
    pub last_jump_eid: u32,
    pub allocated_memory_pages: u32,
    pub opcode: usize,
    pub memory_writing_ops: u32,
    pub jops: u32,
}

/// The common cells that `allocate` takes from an allocator in state `a`,
/// in order: the twelve opcode bits, the enable bit, ten common range cells
/// and five unlimited cells.
pub open spec fn common_layout(c: EventTableCommonConfig, a: EventTableCellAllocator) -> bool {
    let b = position(a.bit);
    let r = position(a.common_range);
    let u = position(a.unlimited);
    &&& c.lvl1_bits@ == Seq::new(6, |i: int| cell_at(a.bit, b + i))
    &&& c.lvl2_bits@ == Seq::new(6, |i: int| cell_at(a.bit, b + 6 + i))
    &&& c.enabled_cell == cell_at(a.bit, b + 12)
    &&& c.rest_mops_cell == cell_at(a.common_range, r)
    &&& c.rest_jops_cell == cell_at(a.common_range, r + 1)
    &&& c.input_index_cell == cell_at(a.common_range, r + 2)
    &&& c.external_host_call_index_cell == cell_at(a.common_range, r + 3)
    &&& c.sp_cell == cell_at(a.common_range, r + 4)
    &&& c.mpages_cell == cell_at(a.common_range, r + 5)
    &&& c.frame_id_cell == cell_at(a.common_range, r + 6)
    &&& c.eid_cell == cell_at(a.common_range, r + 7)
    &&& c.fid_cell == cell_at(a.common_range, r + 8)
    &&& c.iid_cell == cell_at(a.common_range, r + 9)
    &&& c.itable_lookup_cell == cell_at(a.unlimited, u)
    &&& c.brtable_lookup_cell == cell_at(a.unlimited, u + 1)
    &&& c.jtable_lookup_cell == cell_at(a.unlimited, u + 2)
    &&& c.pow_table_lookup_cell == cell_at(a.unlimited, u + 3)
    &&& c.olb_table_lookup_cell == cell_at(a.unlimited, u + 4)
}

/// Takes `n` bit cells, in order.
fn alloc_bits(a: &mut EventTableCellAllocator, n: usize) -> (r: Vec<AllocatedCell>)
    requires
        old(a).wf(),
        position(old(a).bit) + n <= old(a).bit.cols.len() * ESTEP_SIZE,
    ensures
        r@ == Seq::new(n as nat, |i: int| cell_at(old(a).bit, position(old(a).bit) + i)),
        position(final(a).bit) == position(old(a).bit) + n,
        final(a).bit.cols == old(a).bit.cols,
        final(a).wf(),
        final(a).u16 == old(a).u16,
        final(a).common_range == old(a).common_range,
        final(a).unlimited == old(a).unlimited,
        final(a).mtable_lookup == old(a).mtable_lookup,
{
    let mut r: Vec<AllocatedCell> = Vec::new();
    let mut i: usize = 0;
    while i < n
        invariant
            i <= n,
            a.wf(),
            position(old(a).bit) + n <= old(a).bit.cols.len() * ESTEP_SIZE,
            position(a.bit) == position(old(a).bit) + i,
            a.bit.cols == old(a).bit.cols,
            a.u16 == old(a).u16,
            a.common_range == old(a).common_range,
            a.unlimited == old(a).unlimited,
            a.mtable_lookup == old(a).mtable_lookup,
            r@ == Seq::new(i as nat, |k: int| cell_at(old(a).bit, position(old(a).bit) + k)),
        decreases n - i,
    {
        let c = a.alloc_bit_cell();
        r.push(c);
        i = i + 1;
        proof {
            assert(r@ =~= Seq::new(i as nat, |k: int| cell_at(old(a).bit, position(old(a).bit) + k)));
        }
    }
    r
}

impl EventTableCommonConfig {
    /// Takes the common cells of a step from the allocator.
    pub fn allocate(a: &mut EventTableCellAllocator) -> (r: EventTableCommonConfig)
        requires
            old(a).wf(),
            position(old(a).bit) + 13 <= old(a).bit.cols.len() * ESTEP_SIZE,
            position(old(a).common_range) + 10 <= old(a).common_range.cols.len() * ESTEP_SIZE,
            position(old(a).unlimited) + 5 <= old(a).unlimited.cols.len() * ESTEP_SIZE,
        ensures
            common_layout(r, *old(a)),
            final(a).wf(),
    {
        let ghost a0 = *old(a);
        let lvl1_bits = alloc_bits(a, 6);
        let lvl2_bits = alloc_bits(a, 6);
        let enabled_cell = a.alloc_bit_cell();
        let rest_mops_cell = a.alloc_common_range_cell();
        let rest_jops_cell = a.alloc_common_range_cell();
        let input_index_cell = a.alloc_common_range_cell();
        let external_host_call_index_cell = a.alloc_common_range_cell();
        let sp_cell = a.alloc_common_range_cell();
        let mpages_cell = a.alloc_common_range_cell();
        let frame_id_cell = a.alloc_common_range_cell();
        let eid_cell = a.alloc_common_range_cell();
        let fid_cell = a.alloc_common_range_cell();
        let iid_cell = a.alloc_common_range_cell();
        let itable_lookup_cell = a.alloc_unlimited_cell();
        let brtable_lookup_cell = a.alloc_unlimited_cell();
        let jtable_lookup_cell = a.alloc_unlimited_cell();
        let pow_table_lookup_cell = a.alloc_unlimited_cell();
        let olb_table_lookup_cell = a.alloc_unlimited_cell();
        let r = EventTableCommonConfig {
            enabled_cell,
            lvl1_bits,
            lvl2_bits,
            rest_mops_cell,
            rest_jops_cell,
            input_index_cell,
            external_host_call_index_cell,
            sp_cell,
            mpages_cell,
            frame_id_cell,
            eid_cell,
            fid_cell,
            iid_cell,
            itable_lookup_cell,
            brtable_lookup_cell,
            jtable_lookup_cell,
            pow_table_lookup_cell,
            olb_table_lookup_cell,
        };
        proof {
            let b = position(a0.bit);
            assert(r.lvl2_bits@ =~= Seq::new(6, |i: int| cell_at(a0.bit, b + 6 + i)));
        }
        r
    }

    /// The two opcode bit cells of a class, counted from one.
    pub fn allocate_opcode_bit_cell(&self, class: usize) -> (r: (AllocatedCell, AllocatedCell))
        requires
            self.lvl1_bits.len() == OP_LVL1_BITS,
            self.lvl2_bits.len() == OP_LVL2_BITS,
            1 <= class,
            class - 1 < OP_LVL1_BITS * OP_LVL2_BITS,
        ensures
            r.0 == self.lvl1_bits@[spec_opcode_bits(class as int).0],
            r.1 == self.lvl2_bits@[spec_opcode_bits(class as int).1],
    {
        let (i, j) = opcode_bit_indices(class);
        (self.lvl1_bits[i], self.lvl2_bits[j])
    }
}

/// The sum of the first `m` of `ops`.
pub open spec fn prefix_sum(ops: Seq<u32>, m: int) -> int
    decreases m,
{
    if m <= 0 || ops.len() == 0 {
        0
    } else if m > ops.len() {
        prefix_sum(ops, ops.len() as int)
    } else {
        prefix_sum(ops, m - 1) + ops[m - 1]
    }
}

/// The memory writes of each step.
pub open spec fn entry_mops(entries: Seq<EventTableEntry>) -> Seq<u32> {
    Seq::new(entries.len(), |i: int| entries[i].memory_writing_ops)
}

/// The jumps of each step.
pub open spec fn entry_jops(entries: Seq<EventTableEntry>) -> Seq<u32> {
    Seq::new(entries.len(), |i: int| entries[i].jops)
}

/// The pair of counts that step `k` of `n` is given: the running sums of
/// the memory writes and the jumps up to the step `n - 1 - k`, that is the
/// running sums taken from the front and then read from the back.
pub open spec fn spec_rest_ops(entries: Seq<EventTableEntry>, k: int) -> (u32, u32) {
    let m = entries.len() - k;
    (prefix_sum(entry_mops(entries), m) as u32, prefix_sum(entry_jops(entries), m) as u32)
}

/// The running sums grow with their length.
pub proof fn lemma_prefix_sum_monotone(ops: Seq<u32>, i: int, j: int)
    requires
        0 <= i <= j <= ops.len(),
    ensures
        0 <= prefix_sum(ops, i) <= prefix_sum(ops, j),
    decreases j,
{
    if i < j {
        lemma_prefix_sum_monotone(ops, i, j - 1);
    } else {
        lemma_prefix_sum_nonneg(ops, i);
    }
}

/// A running sum of naturals is not negative.
pub proof fn lemma_prefix_sum_nonneg(ops: Seq<u32>, i: int)
    requires
        0 <= i <= ops.len(),
    ensures
        prefix_sum(ops, i) >= 0,
    decreases i,
{
    if i > 0 {
        lemma_prefix_sum_nonneg(ops, i - 1);
    }
}

/// Computes the counts that each step is given: the running sums of the
/// memory writes and jumps, from the front, read from the back.
pub fn compute_rest_mops_and_jops(entries: &Vec<EventTableEntry>) -> (r: Vec<(u32, u32)>)
    requires
        prefix_sum(entry_mops(entries@), entries.len() as int) <= u32::MAX,
        prefix_sum(entry_jops(entries@), entries.len() as int) <= u32::MAX,
    ensures
        r.len() == entries.len(),
        forall|k: int| 0 <= k < entries.len() ==> #[trigger] r@[k] == spec_rest_ops(entries@, k),
{
    let n = entries.len();
    let mut acc: Vec<(u32, u32)> = Vec::new();
    let mut m: u32 = 0;
    let mut j: u32 = 0;
    let mut i: usize = 0;
    while i < n
        invariant
            n == entries.len(),
            i <= n,
            prefix_sum(entry_mops(entries@), n as int) <= u32::MAX,
            prefix_sum(entry_jops(entries@), n as int) <= u32::MAX,
            m == prefix_sum(entry_mops(entries@), i as int),
            j == prefix_sum(entry_jops(entries@), i as int),
            acc.len() == i,
            forall|t: int| 0 <= t < i ==> #[trigger] acc@[t] == (
                prefix_sum(entry_mops(entries@), t + 1) as u32,
                prefix_sum(entry_jops(entries@), t + 1) as u32,
            ),
        decreases n - i,
    {
        proof {
            lemma_prefix_sum_monotone(entry_mops(entries@), i as int + 1, n as int);
            lemma_prefix_sum_monotone(entry_jops(entries@), i as int + 1, n as int);
            assert(entry_mops(entries@)[i as int] == entries@[i as int].memory_writing_ops);
            assert(entry_jops(entries@)[i as int] == entries@[i as int].jops);
        }
        m = m + entries[i].memory_writing_ops;
        j = j + entries[i].jops;
        acc.push((m, j));
        i = i + 1;
    }
    let mut r: Vec<(u32, u32)> = Vec::new();
    let mut k: usize = 0;
    while k < n
        invariant
            n == entries.len(),
            k <= n,
            acc.len() == n,
            forall|t: int| 0 <= t < n ==> #[trigger] acc@[t] == (
                prefix_sum(entry_mops(entries@), t + 1) as u32,
                prefix_sum(entry_jops(entries@), t + 1) as u32,
            ),
            r.len() == k,
            forall|t: int| 0 <= t < k ==> #[trigger] r@[t] == spec_rest_ops(entries@, t),
        decreases n - k,
    {
        r.push(acc[n - 1 - k]);
        k = k + 1;
    }
    r
}

/// The counts of consecutive steps differ by the writes and jumps of the
/// step read from the back: step `k` is given the sums up to step
/// `n - 1 - k`. So they differ by the step's own counts exactly where those
/// equal the counts of step `n - 1 - k`, as in a trace that reads the same
/// from both ends.
pub proof fn lemma_rest_ops_change(entries: Seq<EventTableEntry>, k: int)
    requires
        0 <= k,
        k + 1 < entries.len(),
        prefix_sum(entry_mops(entries), entries.len() as int) <= u32::MAX,
        prefix_sum(entry_jops(entries), entries.len() as int) <= u32::MAX,
    ensures
        spec_rest_ops(entries, k).0 == spec_rest_ops(entries, k + 1).0 + entries[entries.len() - 1 - k].memory_writing_ops,
        spec_rest_ops(entries, k).1 == spec_rest_ops(entries, k + 1).1 + entries[entries.len() - 1 - k].jops,
{
    let n = entries.len() as int;
    lemma_prefix_sum_monotone(entry_mops(entries), n - k, n);
    lemma_prefix_sum_monotone(entry_jops(entries), n - k, n);
    lemma_prefix_sum_monotone(entry_mops(entries), n - k - 1, n - k);
    lemma_prefix_sum_monotone(entry_jops(entries), n - k - 1, n - k);
    assert(entry_mops(entries)[n - k - 1] == entries[n - 1 - k].memory_writing_ops);
    assert(entry_jops(entries)[n - k - 1] == entries[n - 1 - k].jops);
}

/// The table of the second layout, through the common cells of its steps.
#[derive(Clone, Debug)]
pub struct EventTableChip {
    pub common: EventTableCommonConfig,
}

/// The assignment of `value` to cell `c` of the step at row `o`.
pub open spec fn cell_write(c: AllocatedCell, o: int, value: u64) -> Seq<CellWrite> {
    one_write(c.col, o, c.rot as int, fv_u64(value))
}

/// The writes of the common cells of step `e` at row `o`, which is given the
/// counts `rest`, and the input and host call indices `input` and `call`.
pub open spec fn step_writes(
    c: EventTableCommonConfig,
    e: EventTableEntry,
    o: int,
    rest: (u32, u32),
    input: u64,
    call: u64,
) -> Seq<CellWrite> {
    let bits = spec_opcode_bits(e.opcode as int);
    cell_write(c.enabled_cell, o, 1) + cell_write(c.lvl1_bits@[bits.0], o, 1) + cell_write(c.lvl2_bits@[bits.1], o, 1)
        + cell_write(c.rest_mops_cell, o, rest.0 as u64) + cell_write(c.rest_jops_cell, o, rest.1 as u64)
        + cell_write(c.input_index_cell, o, input) + cell_write(c.external_host_call_index_cell, o, call)
        + cell_write(c.sp_cell, o, e.sp as u64) + cell_write(c.mpages_cell, o, e.allocated_memory_pages as u64)
        + cell_write(c.frame_id_cell, o, e.last_jump_eid as u64) + cell_write(c.eid_cell, o, e.eid as u64)
        + cell_write(c.fid_cell, o, e.fid as u64) + cell_write(c.iid_cell, o, e.iid as u64)
}

/// The writes of the common cells of the first `k` steps, the step `i`
/// at row `ESTEP_SIZE * i`, the host call index counting from one.
pub open spec fn steps_writes(
    c: EventTableCommonConfig,
    entries: Seq<EventTableEntry>,
    public: Seq<bool>,
    external: Seq<bool>,
    k: nat,
) -> Seq<CellWrite>
    decreases k,
{
    if k == 0 {
        Seq::empty()
    } else {
        let i = k - 1;
        steps_writes(c, entries, public, external, (k - 1) as nat) + step_writes(
            c,
            entries[i],
            ESTEP_SIZE * i,
            spec_rest_ops(entries, i),
            prefix_count(public, i) as u64,
            (1 + prefix_count(external, i)) as u64,
        )
    }
}

/// What the common cells of step `e` at row `o` are written, cell by cell:
/// the enable bit set, the operations still to come, the input and host
/// call indices, and the step's stack pointer, memory pages, last jump,
/// place in the trace, function and instruction, each to its cell.
proof fn lemma_step_writes_cells(
    c: EventTableCommonConfig,
    e: EventTableEntry,
    o: int,
    rest: (u32, u32),
    input: u64,
    call: u64,
)
    ensures
        crate::circuits::etable_compact::op_configure::has_write(step_writes(c, e, o, rest, input, call), c.enabled_cell.col, o + c.enabled_cell.rot, fv_u64(1)),
        crate::circuits::etable_compact::op_configure::has_write(step_writes(c, e, o, rest, input, call), c.sp_cell.col, o + c.sp_cell.rot, fv_u64(e.sp as u64)),
        crate::circuits::etable_compact::op_configure::has_write(step_writes(c, e, o, rest, input, call), c.mpages_cell.col, o + c.mpages_cell.rot, fv_u64(e.allocated_memory_pages as u64)),
        crate::circuits::etable_compact::op_configure::has_write(step_writes(c, e, o, rest, input, call), c.frame_id_cell.col, o + c.frame_id_cell.rot, fv_u64(e.last_jump_eid as u64)),
        crate::circuits::etable_compact::op_configure::has_write(step_writes(c, e, o, rest, input, call), c.eid_cell.col, o + c.eid_cell.rot, fv_u64(e.eid as u64)),
        crate::circuits::etable_compact::op_configure::has_write(step_writes(c, e, o, rest, input, call), c.fid_cell.col, o + c.fid_cell.rot, fv_u64(e.fid as u64)),
        crate::circuits::etable_compact::op_configure::has_write(step_writes(c, e, o, rest, input, call), c.iid_cell.col, o + c.iid_cell.rot, fv_u64(e.iid as u64)),
        crate::circuits::etable_compact::op_configure::has_write(step_writes(c, e, o, rest, input, call), c.input_index_cell.col, o + c.input_index_cell.rot, fv_u64(input)),
        crate::circuits::etable_compact::op_configure::has_write(step_writes(c, e, o, rest, input, call), c.external_host_call_index_cell.col, o + c.external_host_call_index_cell.rot, fv_u64(call)),
        crate::circuits::etable_compact::op_configure::has_write(step_writes(c, e, o, rest, input, call), c.rest_mops_cell.col, o + c.rest_mops_cell.rot, fv_u64(rest.0 as u64)),
        crate::circuits::etable_compact::op_configure::has_write(step_writes(c, e, o, rest, input, call), c.rest_jops_cell.col, o + c.rest_jops_cell.rot, fv_u64(rest.1 as u64)),
{
    let bits = spec_opcode_bits(e.opcode as int);
    let sw = step_writes(c, e, o, rest, input, call);
    assert(sw =~= seq![
        CellWrite { col: c.enabled_cell.col, row: crate::circuits::etable_compact::op_configure::row_at(o, c.enabled_cell.rot as int), value: fv_u64(1) },
        CellWrite { col: c.lvl1_bits@[bits.0].col, row: crate::circuits::etable_compact::op_configure::row_at(o, c.lvl1_bits@[bits.0].rot as int), value: fv_u64(1) },
        CellWrite { col: c.lvl2_bits@[bits.1].col, row: crate::circuits::etable_compact::op_configure::row_at(o, c.lvl2_bits@[bits.1].rot as int), value: fv_u64(1) },
        CellWrite { col: c.rest_mops_cell.col, row: crate::circuits::etable_compact::op_configure::row_at(o, c.rest_mops_cell.rot as int), value: fv_u64(rest.0 as u64) },
        CellWrite { col: c.rest_jops_cell.col, row: crate::circuits::etable_compact::op_configure::row_at(o, c.rest_jops_cell.rot as int), value: fv_u64(rest.1 as u64) },
        CellWrite { col: c.input_index_cell.col, row: crate::circuits::etable_compact::op_configure::row_at(o, c.input_index_cell.rot as int), value: fv_u64(input) },
        CellWrite { col: c.external_host_call_index_cell.col, row: crate::circuits::etable_compact::op_configure::row_at(o, c.external_host_call_index_cell.rot as int), value: fv_u64(call) },
        CellWrite { col: c.sp_cell.col, row: crate::circuits::etable_compact::op_configure::row_at(o, c.sp_cell.rot as int), value: fv_u64(e.sp as u64) },
        CellWrite { col: c.mpages_cell.col, row: crate::circuits::etable_compact::op_configure::row_at(o, c.mpages_cell.rot as int), value: fv_u64(e.allocated_memory_pages as u64) },
        CellWrite { col: c.frame_id_cell.col, row: crate::circuits::etable_compact::op_configure::row_at(o, c.frame_id_cell.rot as int), value: fv_u64(e.last_jump_eid as u64) },
        CellWrite { col: c.eid_cell.col, row: crate::circuits::etable_compact::op_configure::row_at(o, c.eid_cell.rot as int), value: fv_u64(e.eid as u64) },
        CellWrite { col: c.fid_cell.col, row: crate::circuits::etable_compact::op_configure::row_at(o, c.fid_cell.rot as int), value: fv_u64(e.fid as u64) },
        CellWrite { col: c.iid_cell.col, row: crate::circuits::etable_compact::op_configure::row_at(o, c.iid_cell.rot as int), value: fv_u64(e.iid as u64) },
    ]);
    assert(sw[0] == CellWrite { col: c.enabled_cell.col, row: crate::circuits::etable_compact::op_configure::row_at(o, c.enabled_cell.rot as int), value: fv_u64(1) });
    assert(sw[7] == CellWrite { col: c.sp_cell.col, row: crate::circuits::etable_compact::op_configure::row_at(o, c.sp_cell.rot as int), value: fv_u64(e.sp as u64) });
    assert(sw[8] == CellWrite { col: c.mpages_cell.col, row: crate::circuits::etable_compact::op_configure::row_at(o, c.mpages_cell.rot as int), value: fv_u64(e.allocated_memory_pages as u64) });
    assert(sw[9] == CellWrite { col: c.frame_id_cell.col, row: crate::circuits::etable_compact::op_configure::row_at(o, c.frame_id_cell.rot as int), value: fv_u64(e.last_jump_eid as u64) });
    assert(sw[10] == CellWrite { col: c.eid_cell.col, row: crate::circuits::etable_compact::op_configure::row_at(o, c.eid_cell.rot as int), value: fv_u64(e.eid as u64) });
    assert(sw[11] == CellWrite { col: c.fid_cell.col, row: crate::circuits::etable_compact::op_configure::row_at(o, c.fid_cell.rot as int), value: fv_u64(e.fid as u64) });
    assert(sw[12] == CellWrite { col: c.iid_cell.col, row: crate::circuits::etable_compact::op_configure::row_at(o, c.iid_cell.rot as int), value: fv_u64(e.iid as u64) });
    assert(sw[5] == CellWrite { col: c.input_index_cell.col, row: crate::circuits::etable_compact::op_configure::row_at(o, c.input_index_cell.rot as int), value: fv_u64(input) });
    assert(sw[6] == CellWrite { col: c.external_host_call_index_cell.col, row: crate::circuits::etable_compact::op_configure::row_at(o, c.external_host_call_index_cell.rot as int), value: fv_u64(call) });
    assert(sw[3] == CellWrite { col: c.rest_mops_cell.col, row: crate::circuits::etable_compact::op_configure::row_at(o, c.rest_mops_cell.rot as int), value: fv_u64(rest.0 as u64) });
    assert(sw[4] == CellWrite { col: c.rest_jops_cell.col, row: crate::circuits::etable_compact::op_configure::row_at(o, c.rest_jops_cell.rot as int), value: fv_u64(rest.1 as u64) });
}

/// The common cells of the first `k` steps hold, for each step `i` below
/// `k` at row `ESTEP_SIZE * i`, its enable bit set, its counts, its input
/// and host call indices and its state.
proof fn lemma_steps_writes_cells(
    c: EventTableCommonConfig,
    entries: Seq<EventTableEntry>,
    public: Seq<bool>,
    external: Seq<bool>,
    k: nat,
    i: int,
)
    requires
        0 <= i < k,
    ensures
        crate::circuits::etable_compact::op_configure::has_write(steps_writes(c, entries, public, external, k), c.enabled_cell.col, ESTEP_SIZE * i + c.enabled_cell.rot, fv_u64(1)),
        crate::circuits::etable_compact::op_configure::has_write(steps_writes(c, entries, public, external, k), c.sp_cell.col, ESTEP_SIZE * i + c.sp_cell.rot, fv_u64(entries[i].sp as u64)),
        crate::circuits::etable_compact::op_configure::has_write(steps_writes(c, entries, public, external, k), c.mpages_cell.col, ESTEP_SIZE * i + c.mpages_cell.rot, fv_u64(entries[i].allocated_memory_pages as u64)),
        crate::circuits::etable_compact::op_configure::has_write(steps_writes(c, entries, public, external, k), c.frame_id_cell.col, ESTEP_SIZE * i + c.frame_id_cell.rot, fv_u64(entries[i].last_jump_eid as u64)),
        crate::circuits::etable_compact::op_configure::has_write(steps_writes(c, entries, public, external, k), c.eid_cell.col, ESTEP_SIZE * i + c.eid_cell.rot, fv_u64(entries[i].eid as u64)),
        crate::circuits::etable_compact::op_configure::has_write(steps_writes(c, entries, public, external, k), c.fid_cell.col, ESTEP_SIZE * i + c.fid_cell.rot, fv_u64(entries[i].fid as u64)),
        crate::circuits::etable_compact::op_configure::has_write(steps_writes(c, entries, public, external, k), c.iid_cell.col, ESTEP_SIZE * i + c.iid_cell.rot, fv_u64(entries[i].iid as u64)),
        crate::circuits::etable_compact::op_configure::has_write(steps_writes(c, entries, public, external, k), c.input_index_cell.col, ESTEP_SIZE * i + c.input_index_cell.rot, fv_u64(prefix_count(public, i) as u64)),
        crate::circuits::etable_compact::op_configure::has_write(steps_writes(c, entries, public, external, k), c.external_host_call_index_cell.col, ESTEP_SIZE * i + c.external_host_call_index_cell.rot, fv_u64((1 + prefix_count(external, i)) as u64)),
        crate::circuits::etable_compact::op_configure::has_write(steps_writes(c, entries, public, external, k), c.rest_mops_cell.col, ESTEP_SIZE * i + c.rest_mops_cell.rot, fv_u64(spec_rest_ops(entries, i).0 as u64)),
        crate::circuits::etable_compact::op_configure::has_write(steps_writes(c, entries, public, external, k), c.rest_jops_cell.col, ESTEP_SIZE * i + c.rest_jops_cell.rot, fv_u64(spec_rest_ops(entries, i).1 as u64)),
    decreases k,
{
    let j = k - 1;
    let prev = steps_writes(c, entries, public, external, j as nat);
    let cur = step_writes(
        c,
        entries[j],
        ESTEP_SIZE * j,
        spec_rest_ops(entries, j),
        prefix_count(public, j) as u64,
        (1 + prefix_count(external, j)) as u64,
    );
    if i < j {
        lemma_steps_writes_cells(c, entries, public, external, j as nat, i);
    } else {
        lemma_step_writes_cells(
            c,
            entries[j],
            ESTEP_SIZE * j,
            spec_rest_ops(entries, j),
            prefix_count(public, j) as u64,
            (1 + prefix_count(external, j)) as u64,
        );
    }
    crate::circuits::etable_compact::op_configure::lemma_has_write_append(prev, cur, c.enabled_cell.col, ESTEP_SIZE * i + c.enabled_cell.rot, fv_u64(1));
    crate::circuits::etable_compact::op_configure::lemma_has_write_append(prev, cur, c.sp_cell.col, ESTEP_SIZE * i + c.sp_cell.rot, fv_u64(entries[i].sp as u64));
    crate::circuits::etable_compact::op_configure::lemma_has_write_append(prev, cur, c.mpages_cell.col, ESTEP_SIZE * i + c.mpages_cell.rot, fv_u64(entries[i].allocated_memory_pages as u64));
    crate::circuits::etable_compact::op_configure::lemma_has_write_append(prev, cur, c.frame_id_cell.col, ESTEP_SIZE * i + c.frame_id_cell.rot, fv_u64(entries[i].last_jump_eid as u64));
    crate::circuits::etable_compact::op_configure::lemma_has_write_append(prev, cur, c.eid_cell.col, ESTEP_SIZE * i + c.eid_cell.rot, fv_u64(entries[i].eid as u64));
    crate::circuits::etable_compact::op_configure::lemma_has_write_append(prev, cur, c.fid_cell.col, ESTEP_SIZE * i + c.fid_cell.rot, fv_u64(entries[i].fid as u64));
    crate::circuits::etable_compact::op_configure::lemma_has_write_append(prev, cur, c.iid_cell.col, ESTEP_SIZE * i + c.iid_cell.rot, fv_u64(entries[i].iid as u64));
    crate::circuits::etable_compact::op_configure::lemma_has_write_append(prev, cur, c.input_index_cell.col, ESTEP_SIZE * i + c.input_index_cell.rot, fv_u64(prefix_count(public, i) as u64));
    crate::circuits::etable_compact::op_configure::lemma_has_write_append(prev, cur, c.external_host_call_index_cell.col, ESTEP_SIZE * i + c.external_host_call_index_cell.rot, fv_u64((1 + prefix_count(external, i)) as u64));
    crate::circuits::etable_compact::op_configure::lemma_has_write_append(prev, cur, c.rest_mops_cell.col, ESTEP_SIZE * i + c.rest_mops_cell.rot, fv_u64(spec_rest_ops(entries, i).0 as u64));
    crate::circuits::etable_compact::op_configure::lemma_has_write_append(prev, cur, c.rest_jops_cell.col, ESTEP_SIZE * i + c.rest_jops_cell.rot, fv_u64(spec_rest_ops(entries, i).1 as u64));
}

/// The common cells are placed within a step, and there are six bits of
/// each level.
pub open spec fn common_wf(c: EventTableCommonConfig) -> bool {
    &&& c.lvl1_bits.len() == OP_LVL1_BITS
    &&& c.lvl2_bits.len() == OP_LVL2_BITS
    &&& 0 <= c.enabled_cell.rot < ESTEP_SIZE
    &&& (forall|i: int| 0 <= i < 6 ==> 0 <= #[trigger] c.lvl1_bits@[i].rot < ESTEP_SIZE)
    &&& (forall|i: int| 0 <= i < 6 ==> 0 <= #[trigger] c.lvl2_bits@[i].rot < ESTEP_SIZE)
    &&& 0 <= c.rest_mops_cell.rot < ESTEP_SIZE
    &&& 0 <= c.rest_jops_cell.rot < ESTEP_SIZE
    &&& 0 <= c.input_index_cell.rot < ESTEP_SIZE
    &&& 0 <= c.external_host_call_index_cell.rot < ESTEP_SIZE
    &&& 0 <= c.sp_cell.rot < ESTEP_SIZE
    &&& 0 <= c.mpages_cell.rot < ESTEP_SIZE
    &&& 0 <= c.frame_id_cell.rot < ESTEP_SIZE
    &&& 0 <= c.eid_cell.rot < ESTEP_SIZE
    &&& 0 <= c.fid_cell.rot < ESTEP_SIZE
    &&& 0 <= c.iid_cell.rot < ESTEP_SIZE
}

/// The writes of the whole assignment: the first step's counts; the input
/// index, the host call index and the memory pages of the first step, from
/// their starting values; and the common cells of each step.
pub open spec fn chip_writes(
    c: EventTableCommonConfig,
    entries: Seq<EventTableEntry>,
    public: Seq<bool>,
    external: Seq<bool>,
    init_memory_pages: u32,
) -> Seq<CellWrite> {
    cell_write(c.rest_mops_cell, 0, spec_rest_ops(entries, 0).0 as u64) + cell_write(
        c.rest_jops_cell,
        0,
        spec_rest_ops(entries, 0).1 as u64,
    ) + cell_write(c.input_index_cell, 0, 0) + cell_write(c.external_host_call_index_cell, 0, 1) + cell_write(
        c.mpages_cell,
        0,
        init_memory_pages as u64,
    ) + steps_writes(c, entries, public, external, entries.len())
}

/// The table writes, for each step `i` at row `ESTEP_SIZE * i`, its enable
/// bit set, the memory and jump operations still to come from it, the
/// number of public inputs read before it, one more than the number of host
/// calls before it, and its stack pointer, memory pages, last jump, place
/// in the trace, function and instruction, each to the cell of that name.
pub proof fn lemma_chip_writes_cells(
    c: EventTableCommonConfig,
    entries: Seq<EventTableEntry>,
    public: Seq<bool>,
    external: Seq<bool>,
    init_memory_pages: u32,
    i: int,
)
    requires
        0 <= i < entries.len(),
    ensures
        crate::circuits::etable_compact::op_configure::has_write(chip_writes(c, entries, public, external, init_memory_pages), c.enabled_cell.col, ESTEP_SIZE * i + c.enabled_cell.rot, fv_u64(1)),
        crate::circuits::etable_compact::op_configure::has_write(chip_writes(c, entries, public, external, init_memory_pages), c.sp_cell.col, ESTEP_SIZE * i + c.sp_cell.rot, fv_u64(entries[i].sp as u64)),
        crate::circuits::etable_compact::op_configure::has_write(chip_writes(c, entries, public, external, init_memory_pages), c.mpages_cell.col, ESTEP_SIZE * i + c.mpages_cell.rot, fv_u64(entries[i].allocated_memory_pages as u64)),
        crate::circuits::etable_compact::op_configure::has_write(chip_writes(c, entries, public, external, init_memory_pages), c.frame_id_cell.col, ESTEP_SIZE * i + c.frame_id_cell.rot, fv_u64(entries[i].last_jump_eid as u64)),
        crate::circuits::etable_compact::op_configure::has_write(chip_writes(c, entries, public, external, init_memory_pages), c.eid_cell.col, ESTEP_SIZE * i + c.eid_cell.rot, fv_u64(entries[i].eid as u64)),
        crate::circuits::etable_compact::op_configure::has_write(chip_writes(c, entries, public, external, init_memory_pages), c.fid_cell.col, ESTEP_SIZE * i + c.fid_cell.rot, fv_u64(entries[i].fid as u64)),
        crate::circuits::etable_compact::op_configure::has_write(chip_writes(c, entries, public, external, init_memory_pages), c.iid_cell.col, ESTEP_SIZE * i + c.iid_cell.rot, fv_u64(entries[i].iid as u64)),
        crate::circuits::etable_compact::op_configure::has_write(chip_writes(c, entries, public, external, init_memory_pages), c.input_index_cell.col, ESTEP_SIZE * i + c.input_index_cell.rot, fv_u64(prefix_count(public, i) as u64)),
        crate::circuits::etable_compact::op_configure::has_write(chip_writes(c, entries, public, external, init_memory_pages), c.external_host_call_index_cell.col, ESTEP_SIZE * i + c.external_host_call_index_cell.rot, fv_u64((1 + prefix_count(external, i)) as u64)),
        crate::circuits::etable_compact::op_configure::has_write(chip_writes(c, entries, public, external, init_memory_pages), c.rest_mops_cell.col, ESTEP_SIZE * i + c.rest_mops_cell.rot, fv_u64(spec_rest_ops(entries, i).0 as u64)),
        crate::circuits::etable_compact::op_configure::has_write(chip_writes(c, entries, public, external, init_memory_pages), c.rest_jops_cell.col, ESTEP_SIZE * i + c.rest_jops_cell.rot, fv_u64(spec_rest_ops(entries, i).1 as u64)),
{
    let pre = cell_write(c.rest_mops_cell, 0, spec_rest_ops(entries, 0).0 as u64) + cell_write(
        c.rest_jops_cell,
        0,
        spec_rest_ops(entries, 0).1 as u64,
    ) + cell_write(c.input_index_cell, 0, 0) + cell_write(c.external_host_call_index_cell, 0, 1) + cell_write(
        c.mpages_cell,
        0,
        init_memory_pages as u64,
    );
    let sw = steps_writes(c, entries, public, external, entries.len());
    assert(chip_writes(c, entries, public, external, init_memory_pages) == pre + sw);
    lemma_steps_writes_cells(c, entries, public, external, entries.len(), i);
    crate::circuits::etable_compact::op_configure::lemma_has_write_append(pre, sw, c.enabled_cell.col, ESTEP_SIZE * i + c.enabled_cell.rot, fv_u64(1));
    crate::circuits::etable_compact::op_configure::lemma_has_write_append(pre, sw, c.sp_cell.col, ESTEP_SIZE * i + c.sp_cell.rot, fv_u64(entries[i].sp as u64));
    crate::circuits::etable_compact::op_configure::lemma_has_write_append(pre, sw, c.mpages_cell.col, ESTEP_SIZE * i + c.mpages_cell.rot, fv_u64(entries[i].allocated_memory_pages as u64));
    crate::circuits::etable_compact::op_configure::lemma_has_write_append(pre, sw, c.frame_id_cell.col, ESTEP_SIZE * i + c.frame_id_cell.rot, fv_u64(entries[i].last_jump_eid as u64));
    crate::circuits::etable_compact::op_configure::lemma_has_write_append(pre, sw, c.eid_cell.col, ESTEP_SIZE * i + c.eid_cell.rot, fv_u64(entries[i].eid as u64));
    crate::circuits::etable_compact::op_configure::lemma_has_write_append(pre, sw, c.fid_cell.col, ESTEP_SIZE * i + c.fid_cell.rot, fv_u64(entries[i].fid as u64));
    crate::circuits::etable_compact::op_configure::lemma_has_write_append(pre, sw, c.iid_cell.col, ESTEP_SIZE * i + c.iid_cell.rot, fv_u64(entries[i].iid as u64));
    crate::circuits::etable_compact::op_configure::lemma_has_write_append(pre, sw, c.input_index_cell.col, ESTEP_SIZE * i + c.input_index_cell.rot, fv_u64(prefix_count(public, i) as u64));
    crate::circuits::etable_compact::op_configure::lemma_has_write_append(pre, sw, c.external_host_call_index_cell.col, ESTEP_SIZE * i + c.external_host_call_index_cell.rot, fv_u64((1 + prefix_count(external, i)) as u64));
    crate::circuits::etable_compact::op_configure::lemma_has_write_append(pre, sw, c.rest_mops_cell.col, ESTEP_SIZE * i + c.rest_mops_cell.rot, fv_u64(spec_rest_ops(entries, i).0 as u64));
    crate::circuits::etable_compact::op_configure::lemma_has_write_append(pre, sw, c.rest_jops_cell.col, ESTEP_SIZE * i + c.rest_jops_cell.rot, fv_u64(spec_rest_ops(entries, i).1 as u64));
}

/// Writes the common cells of one step at the context's row.
fn write_step(ctx: &mut Context, c: &EventTableCommonConfig, e: &EventTableEntry, rest: (u32, u32), input: u64, call: u64)
    requires
        common_wf(*c),
        1 <= e.opcode <= 36,
        old(ctx).offset + ESTEP_SIZE < i32::MAX,
    ensures
        final(ctx).offset == old(ctx).offset,
        final(ctx).writes@ == old(ctx).writes@ + step_writes(*c, *e, old(ctx).offset as int, rest, input, call),
{
    let o = ctx.offset;
    let (b1, b2) = c.allocate_opcode_bit_cell(e.opcode);
    let (rm, rj) = rest;
    let ghost s0 = ctx.writes@;
    ctx.assign_advice(c.enabled_cell.col, o + c.enabled_cell.rot as usize, FieldValue::from_u64(1));
    ctx.assign_advice(b1.col, o + b1.rot as usize, FieldValue::from_u64(1));
    ctx.assign_advice(b2.col, o + b2.rot as usize, FieldValue::from_u64(1));
    ctx.assign_advice(c.rest_mops_cell.col, o + c.rest_mops_cell.rot as usize, FieldValue::from_u64(rm as u64));
    ctx.assign_advice(c.rest_jops_cell.col, o + c.rest_jops_cell.rot as usize, FieldValue::from_u64(rj as u64));
    ctx.assign_advice(c.input_index_cell.col, o + c.input_index_cell.rot as usize, FieldValue::from_u64(input));
    let ghost s1 = ctx.writes@;
    proof {
        let bits = spec_opcode_bits(e.opcode as int);
        assert(s1 =~= s0 + (cell_write(c.enabled_cell, o as int, 1) + cell_write(c.lvl1_bits@[bits.0], o as int, 1)
            + cell_write(c.lvl2_bits@[bits.1], o as int, 1) + cell_write(c.rest_mops_cell, o as int, rm as u64)
            + cell_write(c.rest_jops_cell, o as int, rj as u64) + cell_write(c.input_index_cell, o as int, input)));
    }
    ctx.assign_advice(
        c.external_host_call_index_cell.col,
        o + c.external_host_call_index_cell.rot as usize,
        FieldValue::from_u64(call),
    );
    ctx.assign_advice(c.sp_cell.col, o + c.sp_cell.rot as usize, FieldValue::from_u64(e.sp as u64));
    ctx.assign_advice(c.mpages_cell.col, o + c.mpages_cell.rot as usize, FieldValue::from_u64(e.allocated_memory_pages as u64));
    ctx.assign_advice(c.frame_id_cell.col, o + c.frame_id_cell.rot as usize, FieldValue::from_u64(e.last_jump_eid as u64));
    ctx.assign_advice(c.eid_cell.col, o + c.eid_cell.rot as usize, FieldValue::from_u64(e.eid as u64));
    ctx.assign_advice(c.fid_cell.col, o + c.fid_cell.rot as usize, FieldValue::from_u64(e.fid as u64));
    ctx.assign_advice(c.iid_cell.col, o + c.iid_cell.rot as usize, FieldValue::from_u64(e.iid as u64));
    proof {
        assert(ctx.writes@ =~= s1 + (cell_write(c.external_host_call_index_cell, o as int, call) + cell_write(
            c.sp_cell,
            o as int,
            e.sp as u64,
        ) + cell_write(c.mpages_cell, o as int, e.allocated_memory_pages as u64) + cell_write(
            c.frame_id_cell,
            o as int,
            e.last_jump_eid as u64,
        ) + cell_write(c.eid_cell, o as int, e.eid as u64) + cell_write(c.fid_cell, o as int, e.fid as u64)
            + cell_write(c.iid_cell, o as int, e.iid as u64)));
        assert(ctx.writes@ =~= s0 + step_writes(*c, *e, o as int, rest, input, call));
    }
}

impl EventTableChip {
    /// Assigns the common cells of the steps `entries`, whose steps read a
    /// public input where `public` is set and call the external host where
    /// `external` is set, from `init_memory_pages` memory pages.
    pub fn assign(
        &self,
        ctx: &mut Context,
        entries: &Vec<EventTableEntry>,
        public: &Vec<bool>,
        external: &Vec<bool>,
        init_memory_pages: u32,
    )
        requires
            common_wf(self.common),
            entries.len() > 0,
            public.len() == entries.len(),
            external.len() == entries.len(),
            ESTEP_SIZE * (entries.len() + 1) < i32::MAX,
            forall|i: int| 0 <= i < entries.len() ==> 1 <= (#[trigger] entries@[i]).opcode <= 36,
            prefix_sum(entry_mops(entries@), entries.len() as int) <= u32::MAX,
            prefix_sum(entry_jops(entries@), entries.len() as int) <= u32::MAX,
        ensures
            final(ctx).offset == 0,
            final(ctx).writes@ == old(ctx).writes@ + chip_writes(
                self.common,
                entries@,
                public@,
                external@,
                init_memory_pages,
            ),
    {
        let rest_ops = compute_rest_mops_and_jops(entries);
        let c = &self.common;
        ctx.reset();
        let (m0, j0) = rest_ops[0];
        ctx.assign_advice(c.rest_mops_cell.col, c.rest_mops_cell.rot as usize, FieldValue::from_u64(m0 as u64));
        ctx.assign_advice(c.rest_jops_cell.col, c.rest_jops_cell.rot as usize, FieldValue::from_u64(j0 as u64));
        ctx.assign_advice(c.input_index_cell.col, c.input_index_cell.rot as usize, FieldValue::from_u64(0));
        ctx.assign_advice(
            c.external_host_call_index_cell.col,
            c.external_host_call_index_cell.rot as usize,
            FieldValue::from_u64(1),
        );
        ctx.assign_advice(c.mpages_cell.col, c.mpages_cell.rot as usize, FieldValue::from_u64(init_memory_pages as u64));
        let ghost s1 = ctx.writes@;
        proof {
            assert(s1 =~= old(ctx).writes@ + (cell_write(c.rest_mops_cell, 0, m0 as u64) + cell_write(
                c.rest_jops_cell,
                0,
                j0 as u64,
            ) + cell_write(c.input_index_cell, 0, 0) + cell_write(c.external_host_call_index_cell, 0, 1)
                + cell_write(c.mpages_cell, 0, init_memory_pages as u64)));
        }
        let n = entries.len();
        let mut host_public_inputs: u64 = 0;
        let mut external_host_call_index: u64 = 1;
        let mut index: usize = 0;
        while index < n
            invariant
                n == entries.len(),
                public.len() == n,
                external.len() == n,
                index <= n,
                common_wf(*c),
                ESTEP_SIZE * (n + 1) < i32::MAX,
                forall|i: int| 0 <= i < n ==> 1 <= (#[trigger] entries@[i]).opcode <= 36,
                rest_ops.len() == n,
                forall|k: int| 0 <= k < n ==> #[trigger] rest_ops@[k] == spec_rest_ops(entries@, k),
                ctx.offset == ESTEP_SIZE * index,
                host_public_inputs == prefix_count(public@, index as int),
                external_host_call_index == 1 + prefix_count(external@, index as int),
                prefix_count(public@, index as int) <= index,
                prefix_count(external@, index as int) <= index,
                ctx.writes@ == s1 + steps_writes(*c, entries@, public@, external@, index as nat),
            decreases n - index,
        {
            let e = entries[index];
            let ghost before = ctx.writes@;
            assert(1 <= entries@[index as int].opcode <= 36);
            write_step(ctx, c, &e, rest_ops[index], host_public_inputs, external_host_call_index);
            proof {
                assert(ctx.writes@ =~= s1 + steps_writes(*c, entries@, public@, external@, (index + 1) as nat));
                crate::circuits::etable_compact::assign::lemma_prefix_count_bound(public@, index as int + 1);
                crate::circuits::etable_compact::assign::lemma_prefix_count_bound(external@, index as int + 1);
            }
            if public[index] {
                host_public_inputs = host_public_inputs + 1;
            }
            if external[index] {
                external_host_call_index = external_host_call_index + 1;
            }
            ctx.offset = ctx.offset + ESTEP_SIZE as usize;
            index = index + 1;
        }
        ctx.reset();
    }
}

} // verus!
