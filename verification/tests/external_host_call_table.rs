use zkwasm_circuits::circuits::external_host_call_table::{
    ExternalHostCallChip, ExternalHostCallEntry, ExternalHostCallSignature,
};
use zkwasm_circuits::circuits::utils::Context;

fn column(ctx: &Context, col: usize) -> Vec<(usize, u64)> {
    ctx.writes.iter().filter(|w| w.col == col).map(|w| (w.row, w.value.l0)).collect()
}

#[test]
fn test_external_host_call_table() {
    let chip = ExternalHostCallChip { idx: 0, op: 1, arg: 2, is_ret: 3, max_available_size: 4 };
    let entries = vec![
        ExternalHostCallEntry { op: 7, sig: ExternalHostCallSignature::Argument, value: 42 },
        ExternalHostCallEntry { op: 7, sig: ExternalHostCallSignature::Return, value: 5 },
    ];
    let mut ctx = Context::new();
    chip.assign(&mut ctx, &entries);
    assert_eq!(column(&ctx, 0), vec![(0, 0), (1, 1), (2, 2), (3, 3)]);
    assert_eq!(column(&ctx, 1), vec![(0, 0), (1, 7), (2, 7)]);
    assert_eq!(column(&ctx, 2), vec![(0, 0), (1, 42), (2, 5)]);
    assert_eq!(column(&ctx, 3), vec![(0, 0), (1, 0), (2, 1)]);
    assert!(ExternalHostCallSignature::Return.is_ret());
    assert!(!ExternalHostCallSignature::Argument.is_ret());
}
