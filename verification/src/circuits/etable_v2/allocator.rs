//! The cell allocator of the second event table layout: each kind of cell
//! has its own columns, and a kind's cells are handed out down a column's
//! `ESTEP_SIZE` rows, then on to the kind's next column.

use vstd::prelude::*;
use crate::circuits::etable_v2::ESTEP_SIZE;

verus! {

/// The kinds of cells of a step.
#[derive(Clone, Copy, Debug, PartialEq, Eq, Structural)]
pub enum EventTableCellType {
    Bit,
    U16,
    CommonRange,
    Unlimited,
    MTableLookup,
}

/// The columns of bit cells.
pub const BIT_COLUMNS: usize = 5usize;
/// The columns of 16-bit cells.
pub const U16_COLUMNS: usize = 4usize;
/// The columns of common range cells.
pub const COMMON_RANGE_COLUMNS: usize = 3usize;
/// The columns of unlimited cells.
pub const UNLIMITED_COLUMNS: usize = 3usize;
/// The columns of memory table lookup cells.
pub const MTABLE_LOOKUP_COLUMNS: usize = 1usize;
/// The 64-bit cells prepared for the gadgets.
pub const U64_CELLS: usize = 3usize;

/// A cell of a step: a column and a row from the step's first.
#[derive(Clone, Copy, Debug, PartialEq, Eq, Structural)]
pub struct AllocatedCell {
    pub col: usize,
    pub rot: i32,
}

/// A 64-bit cell: the value, and its four 16-bit limbs, lowest first.
#[derive(Clone, Copy, Debug)]
pub struct AllocatedU64Cell {
    pub u16_cells_le: [AllocatedCell; 4],
    pub u64_cell: AllocatedCell,
}

/// The columns of a kind, and the next free cell of that kind, as a column
/// index among the kind's columns and a row.
#[derive(Clone, Debug)]
pub struct KindCells {
    pub cols: Vec<usize>,
    pub next_col: usize,
    pub next_rot: u32,
}

/// The allocator: the columns and next free cell of each kind, and the
/// 64-bit cells prepared in advance.
#[derive(Clone, Debug)]
pub struct EventTableCellAllocator {
    pub bit: KindCells,
    pub u16: KindCells,
    pub common_range: KindCells,
    pub unlimited: KindCells,
    pub mtable_lookup: KindCells,
    pub free_u64_cells: Vec<AllocatedU64Cell>,
}

/// The number of cells of a kind handed out so far.
pub open spec fn position(k: KindCells) -> int {
    k.next_col * ESTEP_SIZE + k.next_rot
}

/// The `p`-th cell of a kind: down the rows of a column, then on to the next.
pub open spec fn cell_at(k: KindCells, p: int) -> AllocatedCell {
    AllocatedCell { col: k.cols[p / ESTEP_SIZE as int], rot: (p % ESTEP_SIZE as int) as i32 }
}

/// The columns of each kind, in the order the allocator takes them from
/// `first`.
pub open spec fn kind_cols(first: int, n: int) -> Seq<usize> {
    Seq::new(n as nat, |i: int| (first + i) as usize)
}

/// The kinds' bookkeeping is consistent: the next free row is within a
/// step, and the kind has at most as many columns as the bits.
pub open spec fn kind_wf(k: KindCells) -> bool {
    &&& k.next_rot < ESTEP_SIZE
    &&& k.cols.len() <= BIT_COLUMNS
}

impl EventTableCellAllocator {
    /// Every kind's bookkeeping is consistent.
    pub open spec fn wf(self) -> bool {
        &&& kind_wf(self.bit)
        &&& kind_wf(self.u16)
        &&& kind_wf(self.common_range)
        &&& kind_wf(self.unlimited)
        &&& kind_wf(self.mtable_lookup)
    }

    /// The bookkeeping of kind `t`.
    pub open spec fn kind(self, t: EventTableCellType) -> KindCells {
        match t {
            EventTableCellType::Bit => self.bit,
            EventTableCellType::U16 => self.u16,
            EventTableCellType::CommonRange => self.common_range,
            EventTableCellType::Unlimited => self.unlimited,
            EventTableCellType::MTableLookup => self.mtable_lookup,
        }
    }
}

/// The columns and first free cell of a kind with `n` columns from `first`.
fn kind_cells(first: usize, n: usize) -> (r: KindCells)
    requires
        first + n <= usize::MAX,
        n <= BIT_COLUMNS,
    ensures
        r.cols@ == kind_cols(first as int, n as int),
        r.next_col == 0,
        r.next_rot == 0,
        kind_wf(r),
{
    let mut cols: Vec<usize> = Vec::new();
    let mut i: usize = 0;
    while i < n
        invariant
            i <= n,
            first + n <= usize::MAX,
            cols@ == kind_cols(first as int, i as int),
        decreases n - i,
    {
        cols.push(first + i);
        i = i + 1;
        proof {
            assert(cols@ =~= kind_cols(first as int, i as int));
        }
    }
    KindCells { cols, next_col: 0, next_rot: 0 }
}

/// Takes the next free cell of a kind.
fn alloc_kind(k: &mut KindCells) -> (r: AllocatedCell)
    requires
        kind_wf(*old(k)),
        old(k).next_col < old(k).cols.len(),
        old(k).next_col < BIT_COLUMNS,
    ensures
        r == cell_at(*old(k), position(*old(k))),
        position(*final(k)) == position(*old(k)) + 1,
        final(k).cols == old(k).cols,
        kind_wf(*final(k)),
{
    let r = AllocatedCell { col: k.cols[k.next_col], rot: k.next_rot as i32 };
    k.next_rot = k.next_rot + 1;
    if k.next_rot == ESTEP_SIZE as u32 {
        k.next_col = k.next_col + 1;
        k.next_rot = 0;
    }
    proof {
        let p = position(*old(k));
        assert(p / ESTEP_SIZE as int == old(k).next_col);
        assert(p % ESTEP_SIZE as int == old(k).next_rot);
    }
    r
}

/// Distinct positions of one kind are distinct cells, and every cell is
/// on a row of the step.
pub proof fn lemma_cells_distinct(k: KindCells, p: int, q: int)
    requires
        k.cols@.no_duplicates(),
        0 <= p < k.cols.len() * ESTEP_SIZE,
        0 <= q < k.cols.len() * ESTEP_SIZE,
        p != q,
    ensures
        cell_at(k, p) != cell_at(k, q),
        0 <= cell_at(k, p).rot < ESTEP_SIZE,
{
    if p / (ESTEP_SIZE as int) == q / (ESTEP_SIZE as int) {
        assert(p % (ESTEP_SIZE as int) != q % (ESTEP_SIZE as int));
    } else {
        assert(k.cols@[p / ESTEP_SIZE as int] != k.cols@[q / ESTEP_SIZE as int]);
    }
}

/// The allocator's kinds take consecutive columns from `first`: five of
/// bits, four of 16-bit cells, three of common range cells, three of
/// unlimited cells and one of memory table lookups.
pub open spec fn allocator_columns(a: EventTableCellAllocator, first: int) -> bool {
    &&& a.bit.cols@ == kind_cols(first, BIT_COLUMNS as int)
    &&& a.u16.cols@ == kind_cols(first + 5, U16_COLUMNS as int)
    &&& a.common_range.cols@ == kind_cols(first + 9, COMMON_RANGE_COLUMNS as int)
    &&& a.unlimited.cols@ == kind_cols(first + 12, UNLIMITED_COLUMNS as int)
    &&& a.mtable_lookup.cols@ == kind_cols(first + 15, MTABLE_LOOKUP_COLUMNS as int)
}

/// Columns taken in order from one start are all distinct, and those of two
/// kinds never meet.
pub proof fn lemma_kind_cols_disjoint(first: int, a: int, n: int, b: int, m: int, i: int, j: int)
    requires
        0 <= first,
        0 <= a,
        a + n <= b,
        first + b + m <= usize::MAX,
        0 <= i < n,
        0 <= j < m,
    ensures
        kind_cols(first + a, n)[i] != kind_cols(first + b, m)[j],
{
}

impl EventTableCellAllocator {
    /// An allocator whose kinds take consecutive columns from `first`, with
    /// no cell handed out yet.
    pub fn _new(first: usize) -> (r: EventTableCellAllocator)
        requires
            first + 16 <= usize::MAX,
        ensures
            allocator_columns(r, first as int),
            r.wf(),
            position(r.bit) == 0,
            position(r.u16) == 0,
            position(r.common_range) == 0,
            position(r.unlimited) == 0,
            position(r.mtable_lookup) == 0,
            r.free_u64_cells@.len() == 0,
    {
        let bit = kind_cells(first, BIT_COLUMNS);
        let u16 = kind_cells(first + 5, U16_COLUMNS);
        let common_range = kind_cells(first + 9, COMMON_RANGE_COLUMNS);
        let unlimited = kind_cells(first + 12, UNLIMITED_COLUMNS);
        let mtable_lookup = kind_cells(first + 15, MTABLE_LOOKUP_COLUMNS);
        EventTableCellAllocator { bit, u16, common_range, unlimited, mtable_lookup, free_u64_cells: Vec::new() }
    }

    /// Takes the next bit cell.
    pub fn alloc_bit_cell(&mut self) -> (r: AllocatedCell)
        requires
            old(self).wf(),
            old(self).bit.next_col < old(self).bit.cols.len(),
        ensures
            r == cell_at(old(self).bit, position(old(self).bit)),
            position(final(self).bit) == position(old(self).bit) + 1,
            final(self).bit.cols == old(self).bit.cols,
            final(self).wf(),
            final(self).u16 == old(self).u16,
            final(self).common_range == old(self).common_range,
            final(self).unlimited == old(self).unlimited,
            final(self).mtable_lookup == old(self).mtable_lookup,
            final(self).free_u64_cells == old(self).free_u64_cells,
    {
        alloc_kind(&mut self.bit)
    }

    /// Takes the next 16-bit cell.
    pub fn alloc_u16_cell(&mut self) -> (r: AllocatedCell)
        requires
            old(self).wf(),
            old(self).u16.next_col < old(self).u16.cols.len(),
        ensures
            r == cell_at(old(self).u16, position(old(self).u16)),
            position(final(self).u16) == position(old(self).u16) + 1,
            final(self).u16.cols == old(self).u16.cols,
            final(self).wf(),
            final(self).bit == old(self).bit,
            final(self).common_range == old(self).common_range,
            final(self).unlimited == old(self).unlimited,
            final(self).mtable_lookup == old(self).mtable_lookup,
            final(self).free_u64_cells == old(self).free_u64_cells,
    {
        alloc_kind(&mut self.u16)
    }

    /// Takes the next common range cell.
    pub fn alloc_common_range_cell(&mut self) -> (r: AllocatedCell)
        requires
            old(self).wf(),
            old(self).common_range.next_col < old(self).common_range.cols.len(),
        ensures
            r == cell_at(old(self).common_range, position(old(self).common_range)),
            position(final(self).common_range) == position(old(self).common_range) + 1,
            final(self).common_range.cols == old(self).common_range.cols,
            final(self).wf(),
            final(self).bit == old(self).bit,
            final(self).u16 == old(self).u16,
            final(self).unlimited == old(self).unlimited,
            final(self).mtable_lookup == old(self).mtable_lookup,
            final(self).free_u64_cells == old(self).free_u64_cells,
    {
        alloc_kind(&mut self.common_range)
    }

    /// Takes the next unlimited cell.
    pub fn alloc_unlimited_cell(&mut self) -> (r: AllocatedCell)
        requires
            old(self).wf(),
            old(self).unlimited.next_col < old(self).unlimited.cols.len(),
        ensures
            r == cell_at(old(self).unlimited, position(old(self).unlimited)),
            position(final(self).unlimited) == position(old(self).unlimited) + 1,
            final(self).unlimited.cols == old(self).unlimited.cols,
            final(self).wf(),
            final(self).bit == old(self).bit,
            final(self).u16 == old(self).u16,
            final(self).common_range == old(self).common_range,
            final(self).mtable_lookup == old(self).mtable_lookup,
            final(self).free_u64_cells == old(self).free_u64_cells,
    {
        alloc_kind(&mut self.unlimited)
    }

    /// Takes the next memory table lookup cell, which lies among the
    /// unlimited cells.
    pub fn alloc_memory_table_lookup_cell(&mut self) -> (r: AllocatedCell)
        requires
            old(self).wf(),
            old(self).unlimited.next_col < old(self).unlimited.cols.len(),
        ensures
            r == cell_at(old(self).unlimited, position(old(self).unlimited)),
            position(final(self).unlimited) == position(old(self).unlimited) + 1,
            final(self).unlimited.cols == old(self).unlimited.cols,
            final(self).wf(),
            final(self).bit == old(self).bit,
            final(self).u16 == old(self).u16,
            final(self).common_range == old(self).common_range,
            final(self).mtable_lookup == old(self).mtable_lookup,
            final(self).free_u64_cells == old(self).free_u64_cells,
    {
        self.alloc_unlimited_cell()
    }

    /// Takes four 16-bit cells and an unlimited cell for a 64-bit value.
    pub fn prepare_alloc_u64_cell(&mut self) -> (r: AllocatedU64Cell)
        requires
            old(self).wf(),
            position(old(self).u16) + 4 <= old(self).u16.cols.len() * ESTEP_SIZE,
            old(self).unlimited.next_col < old(self).unlimited.cols.len(),
        ensures
            r.u16_cells_le@ == seq![
                cell_at(old(self).u16, position(old(self).u16)),
                cell_at(old(self).u16, position(old(self).u16) + 1),
                cell_at(old(self).u16, position(old(self).u16) + 2),
                cell_at(old(self).u16, position(old(self).u16) + 3),
            ],
            r.u64_cell == cell_at(old(self).unlimited, position(old(self).unlimited)),
            position(final(self).u16) == position(old(self).u16) + 4,
            position(final(self).unlimited) == position(old(self).unlimited) + 1,
            final(self).u16.cols == old(self).u16.cols,
            final(self).unlimited.cols == old(self).unlimited.cols,
            final(self).wf(),
            final(self).bit == old(self).bit,
            final(self).common_range == old(self).common_range,
            final(self).mtable_lookup == old(self).mtable_lookup,
            final(self).free_u64_cells == old(self).free_u64_cells,
    {
        let a = self.alloc_u16_cell();
        let b = self.alloc_u16_cell();
        let c = self.alloc_u16_cell();
        let d = self.alloc_u16_cell();
        let u64_cell = self.alloc_unlimited_cell();
        let r = AllocatedU64Cell { u16_cells_le: [a, b, c, d], u64_cell };
        proof {
            assert(r.u16_cells_le@ =~= seq![a, b, c, d]);
        }
        r
    }

    /// An allocator whose kinds take consecutive columns from `first`, with
    /// the three 64-bit cells prepared: the first twelve 16-bit cells and
    /// the first three unlimited cells.
    pub fn new(first: usize) -> (r: EventTableCellAllocator)
        requires
            first + 16 <= usize::MAX,
        ensures
            allocator_columns(r, first as int),
            r.wf(),
            position(r.bit) == 0,
            position(r.u16) == 12,
            position(r.common_range) == 0,
            position(r.unlimited) == 3,
            position(r.mtable_lookup) == 0,
            r.free_u64_cells@.len() == U64_CELLS,
    {
        let mut a = EventTableCellAllocator::_new(first);
        let mut i: usize = 0;
        while i < U64_CELLS
            invariant
                i <= U64_CELLS,
                allocator_columns(a, first as int),
                a.wf(),
                position(a.bit) == 0,
                position(a.u16) == 4 * i,
                position(a.common_range) == 0,
                position(a.unlimited) == i,
                position(a.mtable_lookup) == 0,
                a.free_u64_cells@.len() == i,
                a.u16.next_col <= i,
                a.unlimited.next_col == 0,
            decreases U64_CELLS - i,
        {
            let cell = a.prepare_alloc_u64_cell();
            a.free_u64_cells.push(cell);
            i = i + 1;
        }
        a
    }

    /// Takes one of the prepared 64-bit cells, the last prepared first.
    pub fn alloc_u64_cell(&mut self) -> (r: AllocatedU64Cell)
        requires
            old(self).free_u64_cells@.len() > 0,
        ensures
            r == old(self).free_u64_cells@.last(),
            final(self).free_u64_cells@ == old(self).free_u64_cells@.drop_last(),
            final(self).bit == old(self).bit,
            final(self).u16 == old(self).u16,
            final(self).common_range == old(self).common_range,
            final(self).unlimited == old(self).unlimited,
            final(self).mtable_lookup == old(self).mtable_lookup,
    {
        let r = self.free_u64_cells.pop();
        match r {
            Some(c) => c,
            None => {
                proof {
                    assert(false);
                }
                AllocatedU64Cell {
                    u16_cells_le: [AllocatedCell { col: 0, rot: 0 }; 4],
                    u64_cell: AllocatedCell { col: 0, rot: 0 },
                }
            },
        }
    }
}

} // verus!
