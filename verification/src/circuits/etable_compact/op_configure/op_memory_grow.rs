//! The gadget of `memory.grow`: a successful grow returns the number of
//! pages before it and stays within the maximal number of pages; a failed
//! one returns minus one.

use vstd::prelude::*;
use crate::circuits::utils::FieldValue;
use crate::circuits::etable_compact::op_configure::{
    assign_mtable_lookups, mtable_lookup_cell_ok, mtable_lookup_writes,
    bit_cell_at, bit_cell_ok, bit_writes, common_range_cell_ok, common_range_writes, mtable_lookup_cell_at,
    u64_cell_at, u64_cell_ok, u64_cell_writes, BitCell, CommonRangeCell, EventTableCellAllocator,
    MTableLookupCell, U64Cell,
};
use crate::circuits::etable_compact::{BIT_CELLS, COL_STATE, ETABLE_STEP_SIZE};
use crate::circuits::step::StepInfo;
use crate::circuits::utils::{b2i, fzero, lemma_fzero_small, CellWrite, Context};

verus! {

/// The cells of the gadget.
#[derive(Clone, Copy, Debug, PartialEq, Eq, Structural)]
pub struct MemoryGrowConfig {
    pub current_maximal_diff: CommonRangeCell,
    pub grow_size: U64Cell,
    pub result: U64Cell,
    pub success: BitCell,
    pub lookup_stack_read: MTableLookupCell,
    pub lookup_stack_write: MTableLookupCell,
}

/// Builds the gadget.
pub struct MemoryGrowConfigBuilder {}

/// The cells that the gadget takes from an allocator in state `a`.
pub open spec fn memory_grow_layout(a: EventTableCellAllocator) -> MemoryGrowConfig {
    let t = a.mtable_lookup_index as int;
    MemoryGrowConfig {
        current_maximal_diff: CommonRangeCell { col: COL_STATE, rot: a.common_range_index },
        grow_size: u64_cell_at(a.u64_index as int),
        result: u64_cell_at(a.u64_index + 1),
        success: bit_cell_at(a.bit_index as int),
        lookup_stack_read: mtable_lookup_cell_at(t),
        lookup_stack_write: mtable_lookup_cell_at(t + 1),
    }
}

impl MemoryGrowConfig {
    /// Every cell lies within a block.
    pub open spec fn wf(self) -> bool {
        &&& common_range_cell_ok(self.current_maximal_diff)
        &&& u64_cell_ok(self.grow_size)
        &&& u64_cell_ok(self.result)
        &&& bit_cell_ok(self.success)
        &&& mtable_lookup_cell_ok(self.lookup_stack_read)
        &&& mtable_lookup_cell_ok(self.lookup_stack_write)
    }

    /// The memory table lookup cells of the step, in the order of the
    /// gadget's cells.
    pub open spec fn lookups(self) -> Seq<MTableLookupCell> {
        seq![self.lookup_stack_read, self.lookup_stack_write]
    }
}

impl MemoryGrowConfigBuilder {
    /// Takes the gadget's cells from the allocator of its block.
    pub fn configure(common: &mut EventTableCellAllocator) -> (r: MemoryGrowConfig)
        requires
            old(common).wf(),
            old(common).common_range_index + 1 <= ETABLE_STEP_SIZE,
            old(common).u64_index + 2 <= 3,
            old(common).bit_index + 1 <= BIT_CELLS,
            old(common).mtable_lookup_index + 2 <= 11,
        ensures
            r == memory_grow_layout(*old(common)),
            r.wf(),
            final(common).wf(),
    {
        let current_maximal_diff = common.alloc_common_range_value();
        let grow_size = common.alloc_u64();
        let result = common.alloc_u64();
        let success = common.alloc_bit_value();
        let lookup_stack_read = common.alloc_mtable_lookup();
        let lookup_stack_write = common.alloc_mtable_lookup();
        MemoryGrowConfig { current_maximal_diff, grow_size, result, success, lookup_stack_read, lookup_stack_write }
    }
}

/// The values that a `memory.grow` step puts in the gadget's cells.
#[derive(Clone, Copy, Debug, PartialEq, Eq, Structural)]
pub struct MemoryGrowWitness {
    pub grow_size: u64,
    pub result: u64,
    pub success: bool,
    pub current_maximal_diff: u16,
}

/// The values that the gadget assigns for a grow by `grow_size` pages that
/// returned `result`, from `current` pages with at most `maximal`: the
/// pages still free after a successful grow, and zero after a failed one,
/// for which the cell is left unassigned.
pub open spec fn spec_memory_grow_witness(grow_size: i32, result: i32, current: u32, maximal: u32) -> MemoryGrowWitness {
    MemoryGrowWitness {
        grow_size: grow_size as u64,
        result: result as u32 as u64,
        success: result != -1,
        current_maximal_diff: if result != -1 {
            (maximal - (current + grow_size as u32)) as u16
        } else {
            0
        },
    }
}

/// The grow's cells fit their ranges: after a successful grow, the pages
/// still free are counted in two bytes.
pub open spec fn memory_grow_in_range(grow_size: i32, result: i32, current: u32, maximal: u32) -> bool {
    result != -1 ==> current + grow_size as u32 <= maximal && maximal - (current + grow_size as u32) < 0x10000
}

/// A `memory.grow` that fails and returns minus one, or grows by a
/// nonnegative number of pages from `current` within `maximal` and returns
/// `current`.
pub open spec fn memory_grow_valid(grow_size: i32, result: i32, current: u32, maximal: u32) -> bool {
    ||| result == -1
    ||| {
        &&& 0 <= grow_size
        &&& 0 <= result
        &&& result == current
        &&& current + grow_size <= maximal
        &&& maximal - (current + grow_size) < 0x10000
    }
}

/// The gates of the gadget, from `current` pages with at most `maximal`:
/// a failed grow returns the largest 32-bit number, a successful one the
/// current number of pages, and after a successful one the current pages,
/// the grown pages and the pages still free make the maximum.
pub open spec fn memory_grow_gates(w: MemoryGrowWitness, current: u32, maximal: u32) -> bool {
    &&& fzero((1 - b2i(w.success)) * (w.result - 0xffff_ffff))
    &&& fzero(b2i(w.success) * (w.result - current))
    &&& fzero((current + w.grow_size + w.current_maximal_diff - maximal) * b2i(w.success))
}

/// The change in the number of pages that a grow makes.
pub open spec fn memory_grow_pages_diff(w: MemoryGrowWitness) -> int {
    b2i(w.success) * w.grow_size
}

/// Computes the values that the gadget assigns for a grow.
pub fn memory_grow_witness(grow_size: i32, result: i32, current: u32, maximal: u32) -> (w: MemoryGrowWitness)
    requires
        memory_grow_in_range(grow_size, result, current, maximal),
    ensures
        w == spec_memory_grow_witness(grow_size, result, current, maximal),
{
    let diff: u16 = if result != -1 {
        (maximal - (current + grow_size as u32)) as u16
    } else {
        0
    };
    MemoryGrowWitness { grow_size: grow_size as u64, result: result as u32 as u64, success: result != -1, current_maximal_diff: diff }
}

/// Completeness: the values that the gadget assigns for a valid grow
/// satisfy its gates.
pub proof fn lemma_memory_grow_complete(grow_size: i32, result: i32, current: u32, maximal: u32)
    requires
        memory_grow_valid(grow_size, result, current, maximal),
    ensures
        memory_grow_gates(spec_memory_grow_witness(grow_size, result, current, maximal), current, maximal),
{
    let w = spec_memory_grow_witness(grow_size, result, current, maximal);
    if result == -1 {
        assert(result as u32 == 0xffff_ffffu32) by (bit_vector)
            requires
                result == -1i32,
        ;
        assert(w.result == 0xffff_ffff);
        assert((1 - b2i(w.success)) * (w.result - 0xffff_ffff) == 0);
        assert(b2i(w.success) * (w.result - current) == 0);
        assert((current + w.grow_size + w.current_maximal_diff - maximal) * b2i(w.success) == 0);
    } else {
        assert(w.result == current);
        assert(w.grow_size + w.current_maximal_diff + current == maximal);
        assert(1 - b2i(w.success) == 0);
        assert((1 - b2i(w.success)) * (w.result - 0xffff_ffff) == 0);
        assert(b2i(w.success) * (w.result - current) == 0);
        assert((current + w.grow_size + w.current_maximal_diff - maximal) * b2i(w.success) == 0);
    }
}

/// Soundness: where the gates hold, a successful grow returns the number of
/// pages before it, and the grown memory stays within the maximum; a failed
/// one returns the largest 32-bit number, that is minus one.
pub proof fn lemma_memory_grow_sound(w: MemoryGrowWitness, current: u32, maximal: u32)
    requires
        memory_grow_gates(w, current, maximal),
    ensures
        w.success ==> w.result == current && current + w.grow_size <= maximal,
        !w.success ==> w.result == 0xffff_ffff,
{
    if w.success {
        assert(b2i(w.success) * (w.result - current) == w.result - current);
        lemma_fzero_small(w.result - current);
        assert((current + w.grow_size + w.current_maximal_diff - maximal) * b2i(w.success) == current + w.grow_size
            + w.current_maximal_diff - maximal);
        lemma_fzero_small(current + w.grow_size + w.current_maximal_diff - maximal);
    } else {
        assert(1 - b2i(w.success) == 1);
        vstd::arithmetic::mul::lemma_mul_basics(w.result - 0xffff_ffff);
        assert((1 - b2i(w.success)) * (w.result - 0xffff_ffff) == w.result - 0xffff_ffff);
        lemma_fzero_small(w.result - 0xffff_ffff);
    }
}

/// Whether the gates hold on the values `w`, from `current` pages with at
/// most `maximal`.
pub fn memory_grow_gates_hold(w: &MemoryGrowWitness, current: u32, maximal: u32) -> (b: bool)
    ensures
        b == memory_grow_gates(*w, current, maximal),
{
    proof {
        if w.success {
            assert(b2i(w.success) * (w.result - current) == w.result - current);
            assert(1 - b2i(w.success) == 0);
            assert((1 - b2i(w.success)) * (w.result - 0xffff_ffff) == 0);
            assert((current + w.grow_size + w.current_maximal_diff - maximal) * b2i(w.success) == current
                + w.grow_size + w.current_maximal_diff - maximal);
            lemma_fzero_small(w.result - current);
            lemma_fzero_small(current + w.grow_size + w.current_maximal_diff - maximal);
            assert(fzero(0));
        } else {
            assert(1 - b2i(w.success) == 1);
            assert((1 - b2i(w.success)) * (w.result - 0xffff_ffff) == w.result - 0xffff_ffff);
            assert(b2i(w.success) * (w.result - current) == 0);
            assert((current + w.grow_size + w.current_maximal_diff - maximal) * b2i(w.success) == 0);
            lemma_fzero_small(w.result - 0xffff_ffff);
            assert(fzero(0));
        }
    }
    if w.success {
        w.result == current as u64 && current as u128 + w.grow_size as u128 + w.current_maximal_diff as u128
            == maximal as u128
    } else {
        w.result == 0xffff_ffff
    }
}

/// The assignments that the gadget makes for a grow: the pages still free
/// where the grow succeeded, the grow size, the result and the success bit.
pub open spec fn memory_grow_writes(c: MemoryGrowConfig, o: int, w: MemoryGrowWitness) -> Seq<CellWrite> {
    u64_cell_writes(c.grow_size, o, w.grow_size) + u64_cell_writes(c.result, o, w.result) + bit_writes(
        c.success,
        o,
        w.success,
    ) + if w.success {
        common_range_writes(c.current_maximal_diff, o, w.current_maximal_diff)
    } else {
        Seq::empty()
    }
}

/// What a `memory.grow` step writes: the pages asked for to the size
/// cell, the result to the result cell and whether the growth succeeded
/// to its bit.
pub proof fn lemma_memory_grow_writes_cells(c: MemoryGrowConfig, off: int, w: MemoryGrowWitness)
    ensures
        crate::circuits::etable_compact::op_configure::has_write(memory_grow_writes(c, off, w), c.grow_size.value_col, off + c.grow_size.value_rot, crate::circuits::utils::fv_u64(w.grow_size)),
        crate::circuits::etable_compact::op_configure::has_write(memory_grow_writes(c, off, w), c.result.value_col, off + c.result.value_rot, crate::circuits::utils::fv_u64(w.result)),
        crate::circuits::etable_compact::op_configure::has_write(memory_grow_writes(c, off, w), c.success.col, off + c.success.rot, crate::circuits::utils::fv_bool(w.success)),
{
    let p0 = u64_cell_writes(c.grow_size, off, w.grow_size);
    let p1 = u64_cell_writes(c.result, off, w.result);
    let p2 = bit_writes(c.success, off, w.success);
    let p3 = (if w.success { common_range_writes(c.current_maximal_diff, off, w.current_maximal_diff) } else { Seq::empty() });
    assert(memory_grow_writes(c, off, w) =~= p0 + p1 + p2 + p3);
    {
        crate::circuits::etable_compact::op_configure::lemma_u64_cell_writes_value(c.grow_size, off, w.grow_size);
        crate::circuits::etable_compact::op_configure::lemma_has_write_append(p0, p1, c.grow_size.value_col, off + c.grow_size.value_rot, crate::circuits::utils::fv_u64(w.grow_size));
        crate::circuits::etable_compact::op_configure::lemma_has_write_append(p0 + p1, p2, c.grow_size.value_col, off + c.grow_size.value_rot, crate::circuits::utils::fv_u64(w.grow_size));
        crate::circuits::etable_compact::op_configure::lemma_has_write_append(p0 + p1 + p2, p3, c.grow_size.value_col, off + c.grow_size.value_rot, crate::circuits::utils::fv_u64(w.grow_size));
    }
    {
        crate::circuits::etable_compact::op_configure::lemma_u64_cell_writes_value(c.result, off, w.result);
        crate::circuits::etable_compact::op_configure::lemma_has_write_append(p0, p1, c.result.value_col, off + c.result.value_rot, crate::circuits::utils::fv_u64(w.result));
        crate::circuits::etable_compact::op_configure::lemma_has_write_append(p0 + p1, p2, c.result.value_col, off + c.result.value_rot, crate::circuits::utils::fv_u64(w.result));
        crate::circuits::etable_compact::op_configure::lemma_has_write_append(p0 + p1 + p2, p3, c.result.value_col, off + c.result.value_rot, crate::circuits::utils::fv_u64(w.result));
    }
    {
        crate::circuits::etable_compact::op_configure::lemma_has_write_one(c.success.col, off, c.success.rot as int, crate::circuits::utils::fv_bool(w.success));
        crate::circuits::etable_compact::op_configure::lemma_has_write_append(p0, p1, c.success.col, off + c.success.rot, crate::circuits::utils::fv_bool(w.success));
        crate::circuits::etable_compact::op_configure::lemma_has_write_append(p0 + p1, p2, c.success.col, off + c.success.rot, crate::circuits::utils::fv_bool(w.success));
        crate::circuits::etable_compact::op_configure::lemma_has_write_append(p0 + p1 + p2, p3, c.success.col, off + c.success.rot, crate::circuits::utils::fv_bool(w.success));
    }
}

impl MemoryGrowConfig {
    /// Assigns the gadget's cells for a grow step, from `current` pages with
    /// at most `maximal`, and gives the values assigned.
    fn assign_cells(&self, ctx: &mut Context, step: &StepInfo, current: u32, maximal: u32) -> (w: MemoryGrowWitness)
        requires
            self.wf(),
            old(ctx).offset + 40 <= i32::MAX,
            step is MemoryGrow,
            memory_grow_in_range(step->grow_size, step->MemoryGrow_result, current, maximal),
        ensures
            w == spec_memory_grow_witness(step->grow_size, step->MemoryGrow_result, current, maximal),
            final(ctx).offset == old(ctx).offset,
            final(ctx).writes@ == old(ctx).writes@ + memory_grow_writes(*self, old(ctx).offset as int, w),
    {
        let (grow_size, result) = match step {
            StepInfo::MemoryGrow { grow_size, result } => (*grow_size, *result),
            _ => (0, 0),
        };
        let w = memory_grow_witness(grow_size, result, current, maximal);
        let ghost s0 = old(ctx).writes@;
        let ghost o = old(ctx).offset as int;
        self.grow_size.assign(ctx, w.grow_size);
        self.result.assign(ctx, w.result);
        self.success.assign(ctx, w.success);
        let ghost s1 = ctx.writes@;
        proof {
            assert(s1 =~= s0 + (u64_cell_writes(self.grow_size, o, w.grow_size) + u64_cell_writes(
                self.result,
                o,
                w.result,
            ) + bit_writes(self.success, o, w.success)));
        }
        if w.success {
            self.current_maximal_diff.assign(ctx, w.current_maximal_diff);
            proof {
                assert(ctx.writes@ =~= s0 + memory_grow_writes(*self, o, w));
            }
        } else {
            proof {
                assert(ctx.writes@ =~= s0 + memory_grow_writes(*self, o, w));
            }
        }
        w
    }

    /// Assigns the step's cells, as `assign_cells` does, and the
    /// encodings `enc` of the step's stack and memory accesses to its
    /// memory table lookup cells, in order.
    pub fn assign(&self, ctx: &mut Context, step: &StepInfo, current: u32, maximal: u32, enc: &Vec<FieldValue>) -> (w: MemoryGrowWitness)
        requires
            enc.len() == 2,
            self.wf(),
            old(ctx).offset + 40 <= i32::MAX,
            step is MemoryGrow,
            memory_grow_in_range(step->grow_size, step->MemoryGrow_result, current, maximal),
        ensures
            w == spec_memory_grow_witness(step->grow_size, step->MemoryGrow_result, current, maximal),
            final(ctx).offset == old(ctx).offset,
            final(ctx).writes@ == old(ctx).writes@ + memory_grow_writes(*self, old(ctx).offset as int, w) + mtable_lookup_writes(
                self.lookups(),
                old(ctx).offset as int,
                enc@,
            ),
    {
        let w = self.assign_cells(ctx, step, current, maximal);
        let mut cells: Vec<MTableLookupCell> = Vec::new();
        cells.push(self.lookup_stack_read);
        cells.push(self.lookup_stack_write);
        proof {
            assert(cells@ =~= self.lookups());
        }
        assign_mtable_lookups(ctx, &cells, enc);
        w
    }
}

} // verus!
