use zkwasm_circuits::circuits::jtable::{JtableOffset, JumpTableChip, JumpTableEntry};
use zkwasm_circuits::circuits::utils::{Context, FieldValue};

fn fv(v: u64) -> FieldValue {
    FieldValue::from_u64(v)
}

fn column(ctx: &Context, col: usize) -> Vec<(usize, u64)> {
    ctx.writes.iter().filter(|w| w.col == col).map(|w| (w.row, w.value.l0)).collect()
}

#[test]
fn test_jtable_offsets() {
    assert_eq!(JtableOffset::JtableOffsetEnable.offset(), 0);
    assert_eq!(JtableOffset::JtableOffsetRest.offset(), 1);
    assert_eq!(JtableOffset::JtableOffsetEntry.offset(), 2);
    assert_eq!(JtableOffset::JtableOffsetMax.offset(), 3);
}

#[test]
fn test_jtable_assign_counts_down_and_drops_unrecorded() {
    let chip = JumpTableChip { sel: 20, data: 21, rows: 9 };
    let entries = vec![
        JumpTableEntry { eid: 0, encoded: fv(100) },
        JumpTableEntry { eid: 3, encoded: fv(7) },
        JumpTableEntry { eid: 5, encoded: fv(9) },
    ];
    let mut ctx = Context::new();
    let tied = chip.assign(&mut ctx, &entries, true);
    assert_eq!(tied, Some(1));
    assert_eq!(ctx.offset, 9);
    assert_eq!(column(&ctx, 20), vec![(0, 1), (3, 1), (6, 1)]);
    assert_eq!(
        column(&ctx, 21),
        vec![(0, 1), (1, 4), (2, 7), (3, 1), (4, 2), (5, 9), (6, 0), (7, 0), (8, 0)]
    );
}

#[test]
fn test_jtable_assign_without_jumps() {
    let chip = JumpTableChip { sel: 0, data: 1, rows: 6 };
    let mut ctx = Context::new();
    ctx.offset = 3;
    let tied = chip.assign(&mut ctx, &vec![JumpTableEntry { eid: 0, encoded: fv(1) }], true);
    assert_eq!(tied, None);
    assert_eq!(column(&ctx, 0), vec![(3, 1), (6, 1)]);
    assert_eq!(column(&ctx, 1), vec![(3, 0), (4, 0), (5, 0)]);
    assert_eq!(ctx.offset, 6);
}
