use zkwasm_circuits::circuits::etable_compact::op_configure::op_const::ConstConfigBuilder;
use zkwasm_circuits::circuits::etable_compact::op_configure::EventTableCellAllocator;
use zkwasm_circuits::circuits::step::StepInfo;
use zkwasm_circuits::circuits::utils::Context;

#[test]
fn test_op_const_ok() {
    let mut allocator = EventTableCellAllocator::new();
    let config = ConstConfigBuilder::configure(&mut allocator);
    let mut ctx = Context::new();
    config.assign(&mut ctx, &StepInfo::I32Const { value: 0 });
    assert_eq!(ctx.writes.len(), 17 + 1);
    assert_eq!(ctx.writes[17].value.l0, 1);
}

#[test]
fn const_of_a_negative_value_is_sign_extended() {
    let mut allocator = EventTableCellAllocator::new();
    let config = ConstConfigBuilder::configure(&mut allocator);
    let mut ctx = Context::new();
    config.assign(&mut ctx, &StepInfo::I32Const { value: -1 });
    assert_eq!(ctx.writes[0].value.l0, u64::MAX);
    assert_eq!(ctx.writes[16].value.l0, 15);
}
