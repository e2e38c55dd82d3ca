use zkwasm_circuits::circuits::etable_compact::op_configure::op_bin::{
    bin_gates_hold, bin_step_witness, BinConfigBuilder, BinWitness,
};
use zkwasm_circuits::circuits::etable_compact::op_configure::EventTableCellAllocator;
use zkwasm_circuits::circuits::step::{BinOp, StepInfo};
use zkwasm_circuits::circuits::utils::{Context, FieldValue};

/// Distinct encodings for the gadget's memory-table lookup cells.
fn enc(n: u64) -> Vec<FieldValue> {
    (0..n).map(|i| FieldValue::from_u64(1000 + i)).collect()
}


/// Runs one step through the gadget: assigns it in a fresh block, and checks
/// that every gate holds on the assigned values.
fn run(step: StepInfo) -> BinWitness {
    let mut allocator = EventTableCellAllocator::new();
    let config = BinConfigBuilder::configure(&mut allocator);
    let mut ctx = Context::new();
    config.assign(&mut ctx, &step, &enc(3));
    assert!(!ctx.writes.is_empty());
    let w = bin_step_witness(&step);
    assert!(bin_gates_hold(&w));
    w
}

fn i32_op(class: BinOp, left: i32, right: i32, value: i32) -> BinWitness {
    run(StepInfo::I32BinOp { class, left, right, value })
}

fn i64_op(class: BinOp, left: i64, right: i64, value: i64) -> BinWitness {
    run(StepInfo::I64BinOp { class, left, right, value })
}

#[test]
fn test_i32_add() {
    let w = i32_op(BinOp::Add, 1, 1, 2);
    assert!(!w.overflow);
}

#[test]
fn test_i32_add_overflow() {
    let w = i32_op(BinOp::Add, 1, -1, 0);
    assert!(w.overflow);
}

#[test]
fn test_i64_add() {
    i64_op(BinOp::Add, 1, 1, 2);
}

#[test]
fn test_i64_add_overflow() {
    let w = i64_op(BinOp::Add, 1, -1, 0);
    assert!(w.overflow);
}

#[test]
fn test_i32_sub() {
    i32_op(BinOp::Sub, 1, 1, 0);
}

#[test]
fn test_i32_sub_overflow() {
    let w = i32_op(BinOp::Sub, 0, 1, -1);
    assert!(w.overflow);
}

#[test]
fn test_i64_sub() {
    i64_op(BinOp::Sub, 1, 1, 0);
}

#[test]
fn test_i64_sub_overflow() {
    let w = i64_op(BinOp::Sub, 0, 1, -1);
    assert!(w.overflow);
}

#[test]
fn test_i32_mult() {
    let w = i32_op(BinOp::Mul, 4, 3, 12);
    assert_eq!(w.aux1, 0);
}

#[test]
fn test_i32_mult_overflow() {
    let w = i32_op(BinOp::Mul, -1, -1, 1);
    assert_eq!(w.aux1, 0xffff_fffe);
}

#[test]
fn test_i32_divu_normal() {
    let w = i32_op(BinOp::UnsignedDiv, 4, 3, 1);
    assert_eq!((w.aux1, w.aux2, w.aux3), (1, 1, 1));
}

#[test]
fn test_i32_divu() {
    i32_op(BinOp::UnsignedDiv, 4, 4, 1);
}

#[test]
fn test_i32_divs() {
    i32_op(BinOp::UnsignedDiv, i32::MIN, 1, i32::MIN);
}

#[test]
fn test_i64_mult() {
    i64_op(BinOp::Mul, 4, 3, 12);
}

#[test]
fn test_i64_mult_overflow() {
    let w = i64_op(BinOp::Mul, -1, -1, 1);
    assert_eq!(w.aux1, 0xffff_ffff_ffff_fffe);
}

#[test]
fn test_i64_divu_normal() {
    i64_op(BinOp::UnsignedDiv, 4, 3, 1);
    i64_op(BinOp::UnsignedDiv, 4, 4, 1);
}

#[test]
fn test_i64_remu_normal() {
    i64_op(BinOp::UnsignedRem, 4, 3, 1);
    i64_op(BinOp::UnsignedRem, 4, 4, 0);
}

#[test]
fn test_i64_divs_normal() {
    i64_op(BinOp::SignedDiv, 4, 3, 1);
    i64_op(BinOp::SignedDiv, -4, -3, 1);
}

#[test]
fn test_i64_divs_neg() {
    i64_op(BinOp::SignedDiv, -4, 3, -1);
    i64_op(BinOp::SignedDiv, 4, -3, -1);
    i64_op(BinOp::SignedDiv, -3, 4, 0);
    i64_op(BinOp::SignedDiv, i64::MIN, 1, i64::MIN);
}

#[test]
fn test_i64_rems_normal() {
    i64_op(BinOp::SignedRem, 4, 3, 1);
    i64_op(BinOp::SignedRem, -4, -3, -1);
}

#[test]
fn test_i64_rems_neg() {
    i64_op(BinOp::SignedRem, -4, 3, -1);
    i64_op(BinOp::SignedRem, 4, -3, 1);
    i64_op(BinOp::SignedRem, 4, -4, 0);
}

#[test]
fn bin_gates_reject_a_wrong_sum() {
    let step = StepInfo::I32BinOp { class: BinOp::Add, left: 1, right: 1, value: 3 };
    let w = bin_step_witness(&step);
    assert!(!bin_gates_hold(&w));
}

#[test]
fn bin_gates_reject_a_wrong_signed_quotient() {
    let step = StepInfo::I64BinOp { class: BinOp::SignedDiv, left: -7, right: 2, value: -4 };
    let w = bin_step_witness(&step);
    assert!(!bin_gates_hold(&w));
}

#[test]
fn bin_signed_remainder_of_min_by_minus_one_fails_the_gates() {
    let step = StepInfo::I32BinOp { class: BinOp::SignedRem, left: i32::MIN, right: -1, value: 0 };
    let w = bin_step_witness(&step);
    assert!(!bin_gates_hold(&w));
}

#[test]
fn bin_witness_of_signed_division() {
    let step = StepInfo::I32BinOp { class: BinOp::SignedDiv, left: -7, right: 2, value: -3 };
    let w = bin_step_witness(&step);
    assert!(w.lhs_flag);
    assert!(!w.rhs_flag);
    assert_eq!(w.d, 3);
    assert_eq!(w.aux1, 1);
    assert_eq!(w.aux2, 0);
    assert_eq!(w.lhs_flag_helper, 7);
    assert_eq!(w.lhs_flag_helper_diff, 0);
    assert!(bin_gates_hold(&w));
}

#[test]
fn bin_assign_writes_every_nibble_of_the_operands() {
    let mut allocator = EventTableCellAllocator::new();
    let config = BinConfigBuilder::configure(&mut allocator);
    let mut ctx = Context::new();
    let step = StepInfo::I32BinOp { class: BinOp::Add, left: 0x1234, right: 1, value: 0x1235 };
    config.assign(&mut ctx, &step, &enc(3));
    // value, sixteen nibbles, for each operand; value and eight bytes for the
    // result; the selector and the overflow bit.
    assert_eq!(ctx.writes.len(), 17 + 17 + 9 + 2 + 3);
    assert_eq!(ctx.writes[1].value.l0, 4);
    assert_eq!(ctx.writes[2].value.l0, 3);
    assert_eq!(ctx.writes[3].value.l0, 2);
    assert_eq!(ctx.writes[4].value.l0, 1);
}

#[test]
fn bin_writes_its_stack_lookups_last() {
    let mut allocator = EventTableCellAllocator::new();
    let config = BinConfigBuilder::configure(&mut allocator);
    let mut ctx = Context::new();
    config.assign(&mut ctx, &StepInfo::I32BinOp { class: BinOp::Add, left: 1, right: -1, value: 0 }, &enc(3));
    let n = ctx.writes.len();
    let cells = [config.lookup_stack_read_lhs, config.lookup_stack_read_rhs, config.lookup_stack_write];
    for (i, c) in cells.iter().enumerate() {
        let w = &ctx.writes[n - 3 + i];
        assert_eq!((w.col, w.row, w.value.l0), (c.col, c.rot as usize, 1000 + i as u64));
    }
}

#[test]
fn allocator_never_repeats_a_cell() {
    let mut allocator = EventTableCellAllocator::new();
    let mut bits: Vec<(usize, i32)> = Vec::new();
    for _ in 1..40 {
        let c = allocator.alloc_bit_value();
        bits.push((c.col, c.rot));
    }
    let mut sorted = bits.clone();
    sorted.sort();
    sorted.dedup();
    assert_eq!(sorted.len(), bits.len());
    assert!(!bits.contains(&(0, 0)));
    let mut aux: Vec<i32> = Vec::new();
    for _ in 0..7 {
        aux.push(allocator.alloc_mtable_lookup().rot);
    }
    for _ in 0..3 {
        aux.push(allocator.alloc_u64().value_rot);
    }
    for _ in 0..4 {
        aux.push(allocator.alloc_u64_on_u8().value_rot);
    }
    assert_eq!(aux, (4..18).collect::<Vec<i32>>());
}
