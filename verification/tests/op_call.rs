use zkwasm_circuits::circuits::etable_compact::op_configure::op_call::CallConfigBuilder;
use zkwasm_circuits::circuits::etable_compact::op_configure::op_call_indirect::{
    call_indirect_gates_hold, CallIndirectConfigBuilder,
};
use zkwasm_circuits::circuits::etable_compact::op_configure::EventTableCellAllocator;
use zkwasm_circuits::circuits::step::StepInfo;
use zkwasm_circuits::circuits::utils::{Context, FieldValue};

#[test]
fn test_call() {
    let mut allocator = EventTableCellAllocator::new();
    let config = CallConfigBuilder::configure(&mut allocator);
    let mut ctx = Context::new();
    config.assign(&mut ctx, &StepInfo::Call { index: 0 });
    assert_eq!(ctx.writes.len(), 1);
    assert_eq!(ctx.writes[0].value.l0, 0);
    assert_eq!(ctx.writes[0].row, config.index.rot as usize);
}

#[test]
fn test_call_indirect() {
    let mut allocator = EventTableCellAllocator::new();
    let config = CallIndirectConfigBuilder::configure(&mut allocator);
    let mut ctx = Context::new();
    let step = StepInfo::CallIndirect { table_index: 0, type_index: 0, offset: 1, func_index: 1 };
    config.assign(&mut ctx, &step, &vec![FieldValue::from_u64(77)]);
    let values: Vec<u64> = ctx.writes.iter().map(|w| w.value.l0).collect();
    // the four indices, then the stack read of the offset
    assert_eq!(values, vec![0, 0, 1, 1, 77]);
    assert!(call_indirect_gates_hold(0));
    assert!(!call_indirect_gates_hold(1));
}
