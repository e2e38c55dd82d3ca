use zkwasm_circuits::circuits::etable_compact::op_configure::op_bin_bit::{
    bin_bit_gates_hold, BinBitConfigBuilder, BOP_XOR,
};
use zkwasm_circuits::circuits::etable_compact::op_configure::EventTableCellAllocator;
use zkwasm_circuits::circuits::step::{BitOp, StepInfo};
use zkwasm_circuits::circuits::utils::{Context, FieldValue};

/// Distinct encodings for the gadget's memory-table lookup cells.
fn enc(n: u64) -> Vec<FieldValue> {
    (0..n).map(|i| FieldValue::from_u64(1000 + i)).collect()
}


fn cell(ctx: &Context, col: usize, row: usize) -> FieldValue {
    ctx.writes.iter().rev().find(|w| w.col == col && w.row == row).unwrap().value
}

/// Runs a step through the gadget, and checks the gates on the operation
/// cells that it assigned.
fn run(step: StepInfo) -> (u64, u64, u64, u64) {
    let mut allocator = EventTableCellAllocator::new();
    let config = BinBitConfigBuilder::configure(&mut allocator);
    let mut ctx = Context::new();
    let w = config.assign(&mut ctx, &step, &enc(3));
    let op: Vec<u64> = (0..16).map(|i| cell(&ctx, config.op.col, i).l0).collect();
    let class = cell(&ctx, config.op_class.value_col, config.op_class.value_rot as usize).l0;
    let lookup = cell(&ctx, config.op_lookup.col, config.op_lookup.rot as usize);
    let lookup = lookup.l0 as u128 | ((lookup.l1 as u128) << 64);
    assert!(bin_bit_gates_hold(&op, class, lookup));
    assert_eq!(class, BOP_XOR);
    assert_eq!(op[0], 1 << 24);
    let res = cell(&ctx, config.res.value_col, config.res.value_rot as usize).l0;
    assert_eq!(res, w.res);
    (w.lhs, w.rhs, w.res, class)
}

#[test]
fn test_i32_xor() {
    let (l, r, v, _) = run(StepInfo::I32BinBitOp { class: BitOp::Xor, left: 1, right: 1, value: 0 });
    assert_eq!((l, r, v), (1, 1, 0));
}

#[test]
fn test_i32_xor1() {
    let (l, r, v, _) = run(StepInfo::I32BinBitOp { class: BitOp::Xor, left: 21, right: 31, value: 10 });
    assert_eq!((l, r, v), (21, 31, 10));
}

#[test]
fn test_i64_xor_negative_operand() {
    let (l, r, v, _) = run(StepInfo::I64BinBitOp { class: BitOp::Xor, left: -1, right: 0, value: -1 });
    assert_eq!((l, r, v), (u64::MAX, 0, u64::MAX));
}

#[test]
fn test_bin_bit_gates_reject_wrong_class() {
    let op = vec![1u64 << 24; 16];
    let lookup = (1u128 << 40) + 24;
    assert!(bin_bit_gates_hold(&op, 2, lookup));
    assert!(!bin_bit_gates_hold(&op, 1, lookup));
    let mut uneven = op.clone();
    uneven[3] = 0;
    assert!(!bin_bit_gates_hold(&uneven, 2, lookup));
}

#[test]
fn test_bin_bit_gates_class_range() {
    // Twelve times 5462 passes two to the sixteenth: the lookup can then be
    // met by an operation cell that is no power of two.
    let op = vec![255u64; 16];
    let lookup = (1u128 << 24) + 8;
    assert!(bin_bit_gates_hold(&op, 5462, lookup));
    assert!(!bin_bit_gates_hold(&op, 0x10000 + 5462, lookup));
}
