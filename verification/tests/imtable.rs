use zkwasm_circuits::circuits::imtable::{InitMemoryTableEntry, LocationType, MInitTableChip};
use zkwasm_circuits::circuits::utils::{Context, FieldValue};

fn entry(ltype: LocationType, v: u64) -> InitMemoryTableEntry {
    InitMemoryTableEntry { ltype, encoded: FieldValue::from_u64(v) }
}

fn cells(ctx: &Context) -> Vec<(usize, usize, u64)> {
    ctx.writes.iter().map(|w| (w.col, w.row, w.value.l0)).collect()
}

#[test]
fn test_minit_heap_then_global_row_by_row() {
    let chip = MInitTableChip { cols: vec![5, 6, 7] };
    let minit = vec![
        entry(LocationType::Global, 40),
        entry(LocationType::Heap, 10),
        entry(LocationType::Stack, 99),
        entry(LocationType::Heap, 11),
        entry(LocationType::Heap, 12),
    ];
    let mut ctx = Context::new();
    chip.assign(&mut ctx, &minit);
    assert_eq!(
        cells(&ctx),
        vec![
            (5, 0, 0),
            (6, 0, 0),
            (7, 0, 0),
            (5, 1, 10),
            (6, 1, 11),
            (7, 1, 12),
            (5, 2, 40),
            (6, 2, 0),
            (7, 2, 0),
        ]
    );
}

#[test]
fn test_minit_full_last_row_gets_no_padding() {
    let chip = MInitTableChip { cols: vec![1, 2] };
    let minit = vec![entry(LocationType::Heap, 3), entry(LocationType::Heap, 4)];
    let mut ctx = Context::new();
    chip.assign(&mut ctx, &minit);
    assert_eq!(cells(&ctx), vec![(1, 0, 0), (2, 0, 0), (1, 1, 3), (2, 1, 4)]);
}

#[test]
fn test_imtable_checksum_and_fixed_layouts() {
    let minit = vec![entry(LocationType::Global, 7), entry(LocationType::Heap, 3), entry(LocationType::Stack, 1)];
    let chip = zkwasm_circuits::circuits::imtable_checksum::InitMemoryTableChip { col: 0, max_rows: 3 };
    let mut ctx = Context::new();
    let vals = chip.assign(&mut ctx, &minit);
    assert_eq!(vals.iter().map(|v| v.l0).collect::<Vec<_>>(), vec![3, 7, 0]);
    assert_eq!(cells(&ctx), vec![(0, 0, 3), (0, 1, 7), (0, 2, 0)]);
    let chip = zkwasm_circuits::circuits::imtable_fixed::InitMemoryTableChip { col: 1 };
    let mut ctx = Context::new();
    chip.assign(&mut ctx, &minit);
    assert_eq!(cells(&ctx), vec![(1, 0, 0), (1, 1, 3), (1, 2, 7)]);
}
