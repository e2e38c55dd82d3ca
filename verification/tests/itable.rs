use zkwasm_circuits::circuits::intable::InputTableChip;
use zkwasm_circuits::circuits::itable::InstructionTableChip;
use zkwasm_circuits::circuits::utils::{Context, FieldValue};

fn cells(ctx: &Context) -> Vec<(usize, usize, u64)> {
    ctx.writes.iter().map(|w| (w.col, w.row, w.value.l0)).collect()
}

#[test]
fn test_itable_zero_row_then_instructions() {
    let chip = InstructionTableChip { col: 4 };
    let mut ctx = Context::new();
    chip.assign(&mut ctx, &vec![FieldValue::from_u64(17), FieldValue::from_u64(23)]);
    assert_eq!(cells(&ctx), vec![(4, 0, 0), (4, 1, 17), (4, 2, 23)]);
}

#[test]
fn test_intable_rows_enabled_with_their_index() {
    let chip = InputTableChip { enable: 0, index: 1, rows: 3 };
    let mut ctx = Context::new();
    chip.assign(&mut ctx);
    assert_eq!(cells(&ctx), vec![(0, 0, 1), (1, 0, 0), (0, 1, 1), (1, 1, 1), (0, 2, 1), (1, 2, 2)]);
}

#[test]
fn test_itable_checksum_padding() {
    let chip = zkwasm_circuits::circuits::itable_checksum::InstructionTableChip { col: 2, max_rows: 4 };
    let mut ctx = Context::new();
    let vals = chip.assign(&mut ctx, &vec![FieldValue::from_u64(5), FieldValue::from_u64(6)]);
    assert_eq!(vals.iter().map(|v| v.l0).collect::<Vec<_>>(), vec![5, 6, 0, 0]);
    assert_eq!(cells(&ctx), vec![(2, 0, 5), (2, 1, 6), (2, 2, 0), (2, 3, 0)]);
}
