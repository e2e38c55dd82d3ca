use zkwasm_circuits::circuits::etable_compact::op_configure::op_bin_shift::{
    shift_gates_hold, shift_step_witness, BinShiftConfigBuilder, BinShiftWitness,
};
use zkwasm_circuits::circuits::etable_compact::op_configure::EventTableCellAllocator;
use zkwasm_circuits::circuits::step::{ShiftOp, StepInfo};
use zkwasm_circuits::circuits::utils::{Context, FieldValue};

/// Distinct encodings for the gadget's memory-table lookup cells.
fn enc(n: u64) -> Vec<FieldValue> {
    (0..n).map(|i| FieldValue::from_u64(1000 + i)).collect()
}


/// Runs one step through the gadget: assigns it in a fresh block, and checks
/// that every gate and the power table lookup hold on the assigned values.
fn run(step: StepInfo) -> BinShiftWitness {
    let mut allocator = EventTableCellAllocator::new();
    let config = BinShiftConfigBuilder::configure(&mut allocator);
    let mut ctx = Context::new();
    config.assign(&mut ctx, &step, &enc(3));
    assert!(!ctx.writes.is_empty());
    let w = shift_step_witness(&step);
    assert!(shift_gates_hold(&w));
    w
}

fn i32_op(class: ShiftOp, left: i32, right: i32, value: i32) -> BinShiftWitness {
    run(StepInfo::I32BinShiftOp { class, left, right, value })
}

fn i64_op(class: ShiftOp, left: i64, right: i64, value: i64) -> BinShiftWitness {
    run(StepInfo::I64BinShiftOp { class, left, right, value })
}

#[test]
fn test_i32_shr_u_1_ok() {
    let w = i32_op(ShiftOp::UnsignedShr, 12, 3, 1);
    assert_eq!(w.modulus, 8);
    assert_eq!(w.rem, 4);
}

#[test]
fn test_i32_shr_u_2_ok() {
    let w = i32_op(ShiftOp::UnsignedShr, 12, 35, 1);
    assert_eq!(w.rhs_rem, 3);
    assert_eq!(w.rhs_round, 1);
}

#[test]
fn test_bin_shift_rhs_0_ok() {
    i32_op(ShiftOp::Shl, 12, 0, 12);
    i32_op(ShiftOp::UnsignedShr, 12, 0, 12);
    i32_op(ShiftOp::SignedShr, 12, 0, 12);
    i32_op(ShiftOp::Rotl, 12, 0, 12);
    i32_op(ShiftOp::Rotr, 12, 0, 12);
    i64_op(ShiftOp::Shl, 12, 0, 12);
    i64_op(ShiftOp::UnsignedShr, 12, 0, 12);
    i64_op(ShiftOp::SignedShr, 12, 0, 12);
    i64_op(ShiftOp::Rotl, 12, 0, 12);
    i64_op(ShiftOp::Rotr, 12, 0, 12);
}

#[test]
fn test_i32_shl_ok() {
    i32_op(ShiftOp::Shl, 12, 1, 24);
}

#[test]
fn test_i32_shl_rhs_overflow_ok() {
    i32_op(ShiftOp::Shl, 12, 33, 24);
}

#[test]
fn test_i32_shl_res_overflow_ok() {
    let w = i32_op(ShiftOp::Shl, -1, 1, -2);
    assert_eq!(w.round, 1);
}

#[test]
fn test_i32_shr_s_positive() {
    i32_op(ShiftOp::SignedShr, 23, 2, 5);
}

#[test]
fn test_i32_shr_s_positive_rhs_overflow() {
    i32_op(ShiftOp::SignedShr, 23, 35, 2);
}

#[test]
fn test_i32_shr_s_negative() {
    let w = i32_op(ShiftOp::SignedShr, -23, 5, -1);
    assert!(w.flag_bit);
    assert_eq!(w.pad, 0xf800_0000);
}

#[test]
fn test_i32_shr_s_negative_rhs_overflow() {
    i32_op(ShiftOp::SignedShr, -23, 35, -3);
}

#[test]
fn test_i32_shr_s_zero() {
    i32_op(ShiftOp::SignedShr, 0, 5, 0);
}

#[test]
fn test_i32_shr_s_res_overflow() {
    i32_op(ShiftOp::SignedShr, -1, 5, -1);
}

#[test]
fn test_i32_rotl() {
    i32_op(ShiftOp::Rotl, 23, 5, 736);
}

#[test]
fn test_i32_rotl2() {
    i32_op(ShiftOp::Rotl, 2863311530u32 as i32, 5, 1431655765);
}

#[test]
fn test_i32_rotr() {
    i32_op(ShiftOp::Rotr, 23, 5, -1207959552);
}

#[test]
fn test_i64_shr_u_1_ok() {
    i64_op(ShiftOp::UnsignedShr, 12, 3, 1);
}

#[test]
fn test_i64_shr_u_rhs_overflow_ok() {
    i64_op(ShiftOp::UnsignedShr, 12, 68, 0);
}

#[test]
fn test_i64_rhs_zero_ok() {
    i64_op(ShiftOp::Shl, 12, 0, 12);
}

#[test]
fn test_i64_shl_ok() {
    i64_op(ShiftOp::Shl, 12, 1, 24);
}

#[test]
fn test_i64_shl_rhs_overflow_ok() {
    i64_op(ShiftOp::Shl, 12, 67, 96);
}

#[test]
fn test_i64_shl_res_overflow_ok() {
    i64_op(ShiftOp::Shl, -1, 1, -2);
}

#[test]
fn test_i64_shr_s_positive() {
    i64_op(ShiftOp::SignedShr, 23, 2, 5);
}

#[test]
fn test_i64_shr_s_positive_rhs_overflow() {
    i64_op(ShiftOp::SignedShr, 23, 68, 1);
}

#[test]
fn test_i64_shr_s_negative() {
    i64_op(ShiftOp::SignedShr, -23, 5, -1);
}

#[test]
fn test_i64_shr_s_negative_rhs_overflow() {
    i64_op(ShiftOp::SignedShr, -23, 68, -2);
}

#[test]
fn test_i64_shr_s_zero() {
    i64_op(ShiftOp::SignedShr, 0, 5, 0);
}

#[test]
fn test_i64_rotl() {
    i64_op(ShiftOp::Rotl, 23, 5, 736);
}

#[test]
fn test_i64_rotl2() {
    i64_op(ShiftOp::Rotl, 2863311530, 5, 91625968960);
}

#[test]
fn test_i64_rotr() {
    i64_op(ShiftOp::Rotr, 23, 5, -5188146770730811392);
}

#[test]
fn shift_gates_reject_a_wrong_result() {
    let w = shift_step_witness(&StepInfo::I32BinShiftOp { class: ShiftOp::Shl, left: 12, right: 1, value: 25 });
    assert!(!shift_gates_hold(&w));
    let w = shift_step_witness(&StepInfo::I64BinShiftOp { class: ShiftOp::SignedShr, left: -23, right: 5, value: 0 });
    assert!(!shift_gates_hold(&w));
}

#[test]
fn shift_power_table_entry_is_written() {
    let mut allocator = EventTableCellAllocator::new();
    let config = BinShiftConfigBuilder::configure(&mut allocator);
    let mut ctx = Context::new();
    config.assign(&mut ctx, &StepInfo::I64BinShiftOp { class: ShiftOp::Shl, left: 1, right: 60, value: 1 << 60 }, &enc(3));
    let w = shift_step_witness(&StepInfo::I64BinShiftOp { class: ShiftOp::Shl, left: 1, right: 60, value: 1 << 60 });
    assert_eq!(w.lookup_pow, (1u128 << 76) + 60);
    let entry = ctx.writes.iter().find(|c| c.col == config.lookup_pow.col && c.row == config.lookup_pow.rot as usize).unwrap();
    assert_eq!(entry.value.l0, 60);
    assert_eq!(entry.value.l1, 1 << 12);
}
