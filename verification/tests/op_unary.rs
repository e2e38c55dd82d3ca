use zkwasm_circuits::circuits::etable_compact::op_configure::op_unary::{unary_gates_hold, UnaryConfigBuilder, UnaryWitness};
use zkwasm_circuits::circuits::etable_compact::op_configure::EventTableCellAllocator;
use zkwasm_circuits::circuits::step::{StepInfo, UnaryOp, VarType};
use zkwasm_circuits::circuits::utils::{Context, FieldValue};

/// Distinct encodings for the gadget's memory-table lookup cells.
fn enc(n: u64) -> Vec<FieldValue> {
    (0..n).map(|i| FieldValue::from_u64(1000 + i)).collect()
}


fn run(class: UnaryOp, vtype: VarType, operand: u64, result: u64) -> (UnaryWitness, Context) {
    let mut allocator = EventTableCellAllocator::new();
    let config = UnaryConfigBuilder::configure(&mut allocator);
    let mut ctx = Context::new();
    let w = config.assign(&mut ctx, &StepInfo::UnaryOp { class, vtype, operand, result }, &enc(2));
    assert!(unary_gates_hold(&w));
    (w, ctx)
}

#[test]
fn test_i32_ctz() {
    let (w, _) = run(UnaryOp::Ctz, VarType::I32, 8, 3);
    assert_eq!((w.boundary, w.aux1, w.pow), (8, 0, 3));
    assert!(!w.operand_is_zero && w.is_ctz);
    let (w, _) = run(UnaryOp::Ctz, VarType::I32, 0b1011_0000, 4);
    assert_eq!((w.boundary, w.aux1), (16, 0b101));
}

#[test]
fn test_i64_ctz_zero() {
    let (w, ctx) = run(UnaryOp::Ctz, VarType::I64, 0, 64);
    assert!(w.operand_is_zero && w.is_64bits);
    assert_eq!(w.boundary, 1u128 << 64);
    assert!(w.operand_inv.l0 == 0 && w.operand_inv.l1 == 0);
    assert!(ctx.writes.iter().any(|c| c.value.l0 == 0 && c.value.l1 == 1));
}

#[test]
fn test_i32_clz() {
    let (w, _) = run(UnaryOp::Clz, VarType::I32, 1, 31);
    assert_eq!((w.boundary, w.aux1, w.aux2, w.pow), (1, 0, 0, 0));
    assert!(w.pow_assigned);
    let (w, _) = run(UnaryOp::Clz, VarType::I32, 0x8000_0001, 0);
    assert_eq!((w.boundary, w.aux1, w.aux2, w.pow), (0x8000_0000, 1, 0x7fff_fffe, 31));
}

#[test]
fn test_i64_clz() {
    let (w, _) = run(UnaryOp::Clz, VarType::I64, 0x10, 59);
    assert_eq!((w.boundary, w.aux1, w.aux2, w.pow), (0x10, 0, 0xf, 4));
}

#[test]
fn test_unary_inverse() {
    let (w, _) = run(UnaryOp::Ctz, VarType::I32, 1, 0);
    assert_eq!((w.operand_inv.l0, w.operand_inv.l1, w.operand_inv.l2, w.operand_inv.l3), (1, 0, 0, 0));
}

#[test]
fn test_i32_clz_zero() {
    // clz(0) counts the whole width; only the zero-operand constraint is live.
    let (w, _) = run(UnaryOp::Clz, VarType::I32, 0, 32);
    assert!(w.operand_is_zero && w.is_clz);
    assert_eq!((w.result, w.boundary, w.aux1, w.aux2), (32, 0, 0, 0));
    assert!(!w.pow_assigned);
}

#[test]
fn unary_gates_reject_a_wrong_count() {
    let (mut w, _) = run(UnaryOp::Clz, VarType::I32, 0x10, 27);
    w.result = 26;
    assert!(!unary_gates_hold(&w));
    let (mut w, _) = run(UnaryOp::Ctz, VarType::I32, 8, 3);
    w.result = 2;
    assert!(!unary_gates_hold(&w));
    let (mut w, _) = run(UnaryOp::Clz, VarType::I32, 0, 32);
    w.result = 31;
    assert!(!unary_gates_hold(&w));
}
