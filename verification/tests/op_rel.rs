use zkwasm_circuits::circuits::etable_compact::op_configure::op_rel::{rel_gates_hold, RelConfigBuilder};
use zkwasm_circuits::circuits::etable_compact::op_configure::EventTableCellAllocator;
use zkwasm_circuits::circuits::step::{RelOp, StepInfo};
use zkwasm_circuits::circuits::utils::{Context, FieldValue};

/// Assigns one comparison step and checks the selector bit it sets and the
/// result bit it writes.
fn run(class: RelOp, left: i32, right: i32, value: bool) {
    let mut allocator = EventTableCellAllocator::new();
    let config = RelConfigBuilder::configure(&mut allocator);
    let mut ctx = Context::new();
    let enc = vec![FieldValue::from_u64(11), FieldValue::from_u64(12), FieldValue::from_u64(13)];
    config.assign(&mut ctx, &StepInfo::I32Comp { class, left, right, value }, &enc);
    // the value type, three values with their nibbles, two bits, and the
    // three stack accesses
    assert_eq!(ctx.writes.len(), 1 + 3 * 17 + 1 + 1 + 3);
    // the difference: what separates the operands beyond the comparison
    let (l, r) = (left as u32 as i64, right as u32 as i64);
    let lt = (class == RelOp::UnsignedLt) as i64;
    let d = if value { r - l - lt } else { l - r - (1 - lt) };
    assert_eq!(ctx.writes[35].value.l0, d as u64);
    assert_eq!((ctx.writes[35].col, ctx.writes[35].row), (config.diff.value_col, config.diff.value_rot as usize));
    let lookups: Vec<(usize, usize, u64)> =
        ctx.writes[54..].iter().map(|w| (w.col, w.row, w.value.l0)).collect();
    assert_eq!(
        lookups,
        vec![
            (config.lookup_stack_read_rhs.col, config.lookup_stack_read_rhs.rot as usize, 11),
            (config.lookup_stack_read_lhs.col, config.lookup_stack_read_lhs.rot as usize, 12),
            (config.lookup_stack_write.col, config.lookup_stack_write.rot as usize, 13),
        ]
    );
    let res = ctx.writes[52];
    assert_eq!((res.col, res.row), (config.res.col, config.res.rot as usize));
    assert_eq!(res.value.l0, value as u64);
    let sel = ctx.writes[53];
    let expected = if class == RelOp::UnsignedLt { config.is_lt } else { config.is_le };
    assert_eq!((sel.col, sel.row, sel.value.l0), (expected.col, expected.rot as usize, 1));
}

#[test]
fn test_i32_le_u_1_ok() {
    run(RelOp::UnsignedLe, 1, 0, false);
}

#[test]
fn test_i32_le_u_2_ok() {
    run(RelOp::UnsignedLe, 1, 1, true);
}

#[test]
fn test_i32_le_u_3_ok() {
    run(RelOp::UnsignedLe, 0, 1, true);
}

#[test]
fn test_i32_lt_u_1_ok() {
    run(RelOp::UnsignedLt, 1, 0, false);
}

#[test]
fn test_i32_lt_u_2_ok() {
    run(RelOp::UnsignedLt, 1, 1, false);
}

#[test]
fn test_i32_lt_u_3_ok() {
    run(RelOp::UnsignedLt, 0, 1, true);
}

#[test]
fn rel_gates_accept_only_the_true_comparison() {
    // lt_u on 0 and 1: the result must be set, with a difference of zero
    assert!(rel_gates_hold(false, true, 0, 1, true, 0));
    for diff in [0u64, 1, 2, u64::MAX] {
        assert!(!rel_gates_hold(false, true, 0, 1, false, diff));
    }
    // le_u on 1 and 0: the result must be clear, with a difference of zero
    assert!(rel_gates_hold(true, false, 1, 0, false, 0));
    assert!(!rel_gates_hold(true, false, 1, 0, true, 0));
    // both selectors, or none
    assert!(!rel_gates_hold(true, true, 0, 1, true, 0));
    assert!(!rel_gates_hold(false, false, 0, 1, true, 0));
}
