use zkwasm_circuits::circuits::etable_v2::allocator::{AllocatedCell, EventTableCellAllocator};
use zkwasm_circuits::circuits::etable_v2::assign::{
    compute_rest_mops_and_jops, EventTableChip, EventTableCommonConfig, EventTableEntry,
};
use zkwasm_circuits::circuits::etable_v2::opcode_bit_indices;
use zkwasm_circuits::circuits::utils::Context;

fn cell(col: usize, rot: i32) -> AllocatedCell {
    AllocatedCell { col, rot }
}

fn entry(eid: u32, opcode: usize, mops: u32, jops: u32) -> EventTableEntry {
    EventTableEntry {
        eid,
        fid: 3,
        iid: eid + 10,
        sp: 100,
        last_jump_eid: 0,
        allocated_memory_pages: 2,
        opcode,
        memory_writing_ops: mops,
        jops,
    }
}

fn read(ctx: &Context, col: usize, row: usize) -> Option<u64> {
    ctx.writes.iter().rev().find(|w| w.col == col && w.row == row).map(|w| w.value.l0)
}

#[test]
fn test_bit_cells_fill_a_column_then_move_on() {
    let mut a = EventTableCellAllocator::_new(0);
    let cells: Vec<AllocatedCell> = (0..6).map(|_| a.alloc_bit_cell()).collect();
    assert_eq!(cells, vec![cell(0, 0), cell(0, 1), cell(0, 2), cell(0, 3), cell(1, 0), cell(1, 1)]);
    assert_eq!(a.alloc_u16_cell(), cell(5, 0));
    assert_eq!(a.alloc_common_range_cell(), cell(9, 0));
    assert_eq!(a.alloc_unlimited_cell(), cell(12, 0));
    // memory table lookups are drawn from the unlimited columns
    assert_eq!(a.alloc_memory_table_lookup_cell(), cell(12, 1));
}

#[test]
fn test_prepared_u64_cells_last_first() {
    let mut a = EventTableCellAllocator::new(0);
    assert_eq!(a.free_u64_cells.len(), 3);
    let c = a.alloc_u64_cell();
    assert_eq!(c.u16_cells_le, [cell(7, 0), cell(7, 1), cell(7, 2), cell(7, 3)]);
    assert_eq!(c.u64_cell, cell(12, 2));
    let c = a.alloc_u64_cell();
    assert_eq!(c.u16_cells_le, [cell(6, 0), cell(6, 1), cell(6, 2), cell(6, 3)]);
    assert_eq!(c.u64_cell, cell(12, 1));
    // the prepared cells are taken: fresh ones follow them
    assert_eq!(a.alloc_u16_cell(), cell(8, 0));
    assert_eq!(a.alloc_unlimited_cell(), cell(12, 3));
}

#[test]
fn test_common_config_layout() {
    let mut a = EventTableCellAllocator::new(0);
    let c = EventTableCommonConfig::allocate(&mut a);
    assert_eq!(c.lvl1_bits, vec![cell(0, 0), cell(0, 1), cell(0, 2), cell(0, 3), cell(1, 0), cell(1, 1)]);
    assert_eq!(c.lvl2_bits, vec![cell(1, 2), cell(1, 3), cell(2, 0), cell(2, 1), cell(2, 2), cell(2, 3)]);
    assert_eq!(c.enabled_cell, cell(3, 0));
    assert_eq!(c.rest_mops_cell, cell(9, 0));
    assert_eq!(c.rest_jops_cell, cell(9, 1));
    assert_eq!(c.input_index_cell, cell(9, 2));
    assert_eq!(c.external_host_call_index_cell, cell(9, 3));
    assert_eq!(c.sp_cell, cell(10, 0));
    assert_eq!(c.iid_cell, cell(11, 1));
    assert_eq!(c.itable_lookup_cell, cell(12, 3));
    assert_eq!(c.olb_table_lookup_cell, cell(13, 3));
    assert_eq!(c.allocate_opcode_bit_cell(8), (cell(0, 1), cell(1, 3)));
}

#[test]
fn test_opcode_bit_indices() {
    assert_eq!(opcode_bit_indices(1), (0, 0));
    assert_eq!(opcode_bit_indices(7), (1, 0));
    assert_eq!(opcode_bit_indices(36), (5, 5));
}

#[test]
fn test_rest_ops_are_running_sums_read_backwards() {
    let entries = vec![entry(1, 1, 1, 0), entry(2, 1, 0, 1), entry(3, 1, 2, 1)];
    assert_eq!(compute_rest_mops_and_jops(&entries), vec![(3, 2), (1, 1), (1, 0)]);
    // for a trace that reads the same from both ends the counts fall by each
    // step's own operations
    let entries = vec![entry(1, 1, 2, 1), entry(2, 1, 0, 0), entry(3, 1, 2, 1)];
    assert_eq!(compute_rest_mops_and_jops(&entries), vec![(4, 2), (2, 1), (2, 1)]);
    assert_eq!(compute_rest_mops_and_jops(&vec![]), vec![]);
}

#[test]
fn test_chip_assign() {
    let mut a = EventTableCellAllocator::new(0);
    let chip = EventTableChip { common: EventTableCommonConfig::allocate(&mut a) };
    let entries = vec![entry(1, 7, 1, 0), entry(2, 1, 2, 1)];
    let mut ctx = Context::new();
    chip.assign(&mut ctx, &entries, &vec![true, false], &vec![false, true], 5);
    assert_eq!(ctx.offset, 0);
    // first write: the first step's counts and the starting indices
    assert_eq!(ctx.writes.len(), 5 + 2 * 13);
    assert_eq!((ctx.writes[4].col, ctx.writes[4].row, ctx.writes[4].value.l0), (10, 1, 5));
    // enable bits
    assert_eq!(read(&ctx, 3, 0), Some(1));
    assert_eq!(read(&ctx, 3, 4), Some(1));
    // class 7: first-level bit 1 and second-level bit 0
    assert_eq!(read(&ctx, 0, 1), Some(1));
    assert_eq!(read(&ctx, 1, 2), Some(1));
    // class 1 at the second step: bits 0 and 0
    assert_eq!(read(&ctx, 0, 4), Some(1));
    assert_eq!(read(&ctx, 1, 4 + 2), Some(1));
    // counts, input and host call indices
    assert_eq!(read(&ctx, 9, 0), Some(3));
    assert_eq!(read(&ctx, 9, 1), Some(1));
    assert_eq!(read(&ctx, 9, 4), Some(1));
    assert_eq!(read(&ctx, 9, 5), Some(0));
    assert_eq!(read(&ctx, 9, 2), Some(0));
    assert_eq!(read(&ctx, 9, 6), Some(1));
    assert_eq!(read(&ctx, 9, 3), Some(1));
    assert_eq!(read(&ctx, 9, 7), Some(1));
    // state
    assert_eq!(read(&ctx, 10, 0), Some(100));
    assert_eq!(read(&ctx, 10, 1), Some(2));
    assert_eq!(read(&ctx, 10, 3), Some(1));
    assert_eq!(read(&ctx, 10, 7), Some(2));
    assert_eq!(read(&ctx, 11, 4 + 1), Some(12));
}
