use zkwasm_circuits::circuits::etable_compact::op_configure::op_conversion::{conversion_gates_hold, ConversionConfigBuilder};
use zkwasm_circuits::circuits::etable_compact::op_configure::EventTableCellAllocator;
use zkwasm_circuits::circuits::step::StepInfo;
use zkwasm_circuits::circuits::utils::{Context, FieldValue};

/// Distinct encodings for the gadget's memory-table lookup cells.
fn enc(n: u64) -> Vec<FieldValue> {
    (0..n).map(|i| FieldValue::from_u64(1000 + i)).collect()
}


fn run(step: StepInfo) -> (zkwasm_circuits::circuits::etable_compact::op_configure::op_conversion::ConversionWitness, usize) {
    let mut allocator = EventTableCellAllocator::new();
    let config = ConversionConfigBuilder::configure(&mut allocator);
    let mut ctx = Context::new();
    let w = config.assign(&mut ctx, &step, &enc(2));
    assert!(conversion_gates_hold(&w));
    (w, ctx.writes.len())
}

#[test]
fn test_i32_wrap_i64() {
    let (w, n) = run(StepInfo::I32WrapI64 { value: 0x1_0000_0005, result: 5 });
    assert!(w.is_i32_wrap_i64);
    assert_eq!((w.value, w.value_type, w.res, w.res_type), (0x1_0000_0005, 2, 5, 1));
    // the flag, the operand with its bytes, the result with its nibbles and
    // the two types
    assert_eq!(n, 1 + 9 + 17 + 2 + 2);
}

#[test]
fn test_i64_extend_i32_s_negative() {
    let (w, n) = run(StepInfo::I64ExtendI32 { value: -2, result: -2, sign: true });
    assert!(w.is_i64_extend_i32_s && w.flag_bit);
    assert_eq!((w.value, w.res), (0xffff_fffe, 0xffff_ffff_ffff_fffe));
    assert_eq!((w.flag_u8_rem, w.flag_u8_rem_diff), (0x7f, 0));
    assert_eq!(n, 4 + 9 + 17 + 2 + 2);
}

#[test]
fn test_i64_extend_i32_u() {
    let (w, _) = run(StepInfo::I64ExtendI32 { value: i32::MIN, result: 0x8000_0000, sign: false });
    assert!(w.is_i64_extend_i32_u && w.flag_bit);
    assert_eq!((w.value, w.res, w.flag_u8_rem, w.flag_u8_rem_diff), (0x8000_0000, 0x8000_0000, 0, 0x7f));
}

#[test]
fn test_i64_extend_i32_s_positive() {
    let (w, _) = run(StepInfo::I64ExtendI32 { value: 0x1234_5678, result: 0x1234_5678, sign: true });
    assert!(!w.flag_bit);
    assert_eq!((w.flag_u8_rem, w.flag_u8_rem_diff), (0x12, 0x7f - 0x12));
}

#[test]
fn conversion_gates_reject_a_wrong_result() {
    let (mut w, _) = run(StepInfo::I64ExtendI32 { value: -2, result: -2, sign: true });
    w.res = 0xffff_fffe;
    assert!(!conversion_gates_hold(&w));
    let (mut w, _) = run(StepInfo::I32WrapI64 { value: 0x1_0000_0005, result: 5 });
    w.res = 0x1_0000_0005;
    assert!(!conversion_gates_hold(&w));
}
