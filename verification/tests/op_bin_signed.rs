use zkwasm_circuits::circuits::etable_compact::op_configure::op_bin::{bin_gates_hold, bin_step_witness};
use zkwasm_circuits::circuits::etable_compact::op_configure::op_bin_signed::{
    bin_signed_gates_hold, bin_signed_step_witness, BinSignedConfigBuilder, BinSignedWitness,
};
use zkwasm_circuits::circuits::etable_compact::op_configure::EventTableCellAllocator;
use zkwasm_circuits::circuits::step::{BinOp, BinSignedOp, StepInfo};
use zkwasm_circuits::circuits::utils::{Context, FieldValue};

/// Distinct encodings for the gadget's memory-table lookup cells.
fn enc(n: u64) -> Vec<FieldValue> {
    (0..n).map(|i| FieldValue::from_u64(1000 + i)).collect()
}


/// Runs a signed division or remainder through the signed gadget, and
/// through the arithmetic gadget that the event table selects for it; the
/// gates of both must hold.
fn run(step: StepInfo, bin_step: StepInfo) -> BinSignedWitness {
    let mut allocator = EventTableCellAllocator::new();
    let config = BinSignedConfigBuilder::configure(&mut allocator);
    let mut ctx = Context::new();
    config.assign(&mut ctx, &step, &enc(3));
    assert_eq!(ctx.writes.len(), 1 + 17 * 3 + 3 + 9 * 2 + 1 + 9 * 2 + 1 + 3);
    let w = bin_signed_step_witness(&step);
    assert!(bin_signed_gates_hold(&w));
    assert!(bin_gates_hold(&bin_step_witness(&bin_step)));
    w
}

fn i32_op(div: bool, left: i32, right: i32, value: i32) -> BinSignedWitness {
    let (class, op) = if div { (BinSignedOp::DivS, BinOp::SignedDiv) } else { (BinSignedOp::RemS, BinOp::SignedRem) };
    run(
        StepInfo::I32BinSignedOp { class, left, right, value },
        StepInfo::I32BinOp { class: op, left, right, value },
    )
}

fn i64_op(div: bool, left: i64, right: i64, value: i64) -> BinSignedWitness {
    let (class, op) = if div { (BinSignedOp::DivS, BinOp::SignedDiv) } else { (BinSignedOp::RemS, BinOp::SignedRem) };
    run(
        StepInfo::I64BinSignedOp { class, left, right, value },
        StepInfo::I64BinOp { class: op, left, right, value },
    )
}

#[test]
fn test_i32_divs_eq() {
    i32_op(true, 4, 4, 1);
}

#[test]
fn test_i32_divs_neq() {
    i32_op(true, 4, 3, 1);
}

#[test]
fn test_i32_divs_eq_neg_lhs() {
    i32_op(true, -4, 4, -1);
}

#[test]
fn test_i32_divs_neq_neg_lhs() {
    i32_op(true, -4, 3, -1);
}

#[test]
fn test_i32_divs_eq_neg() {
    i32_op(true, -4, -4, 1);
}

#[test]
fn test_i32_divs_neq_neg() {
    i32_op(true, -4, -3, 1);
}

#[test]
fn test_i32_rems_eq() {
    i32_op(false, 4, 4, 0);
}

#[test]
fn test_i32_rems_eq_neg() {
    let w = i32_op(false, -4, -4, 0);
    assert!(w.rem_is_zero);
}

#[test]
fn test_i32_rems_neq() {
    i32_op(false, 4, 3, 1);
}

#[test]
fn test_i32_rems_neq_neg_1() {
    i32_op(false, -4, -3, -1);
}

#[test]
fn test_i32_rems_neq_neg_2() {
    i32_op(false, 4, -3, 1);
}

#[test]
fn test_i32_rems_neq_neg_3() {
    i32_op(false, -4, 3, -1);
}

#[test]
fn test_i64_divs_eq() {
    i64_op(true, 4, 4, 1);
}

#[test]
fn test_i64_divs_neq() {
    i64_op(true, 4, 3, 1);
}

#[test]
fn test_i64_divs_eq_neg_lhs() {
    i64_op(true, -4, 4, -1);
}

#[test]
fn test_i64_divs_neq_neg_lhs() {
    i64_op(true, -4, 3, -1);
}

#[test]
fn test_i64_divs_eq_neg() {
    i64_op(true, -4, -4, 1);
}

#[test]
fn test_i64_divs_neq_neg() {
    i64_op(true, -4, -3, 1);
}

#[test]
fn test_i64_rems_eq() {
    i64_op(false, 4, 4, 0);
}

#[test]
fn test_i64_rems_eq_neg() {
    i64_op(false, -4, -4, 0);
}

#[test]
fn test_i64_rems_neq() {
    i64_op(false, 4, 3, 1);
}

#[test]
fn test_i64_rems_neq_neg_1() {
    i64_op(false, -4, -3, -1);
}

#[test]
fn test_i64_rems_neq_neg_2() {
    i64_op(false, 4, -3, 1);
}

#[test]
fn test_i64_rems_neq_neg_3() {
    let w = i64_op(false, -4, 3, -1);
    assert_eq!((w.lhs_abs, w.rhs_abs, w.r, w.pad), (4, 3, 1, 2));
}

#[test]
fn bin_signed_zero_quotient_of_mixed_signs_fails_the_gates() {
    let w = bin_signed_step_witness(&StepInfo::I32BinSignedOp { class: BinSignedOp::DivS, left: -3, right: 4, value: 0 });
    assert!(!bin_signed_gates_hold(&w));
    let step = StepInfo::I32BinOp { class: BinOp::SignedDiv, left: -3, right: 4, value: 0 };
    assert!(bin_gates_hold(&bin_step_witness(&step)));
}

#[test]
fn bin_signed_gates_reject_a_wrong_remainder() {
    let w = bin_signed_step_witness(&StepInfo::I64BinSignedOp { class: BinSignedOp::RemS, left: -7, right: 2, value: 1 });
    assert!(!bin_signed_gates_hold(&w));
}

#[test]
fn i64_div_s_of_the_most_negative_value_by_itself() {
    let w = i64_op(true, i64::MIN, i64::MIN, 1);
    assert_eq!((w.lhs_abs, w.rhs_abs, w.r, w.pad), (1 << 63, 1 << 63, 0, 1 << 63));
    assert!(w.rem_is_zero);
    assert_eq!(w.res, 1);
}
