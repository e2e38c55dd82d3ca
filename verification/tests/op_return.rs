use zkwasm_circuits::circuits::etable_compact::op_configure::op_return::ReturnConfigBuilder;
use zkwasm_circuits::circuits::etable_compact::op_configure::EventTableCellAllocator;
use zkwasm_circuits::circuits::step::{StepInfo, VarType};
use zkwasm_circuits::circuits::utils::Context;

fn run(drop: u32, keep: Vec<VarType>, keep_values: Vec<u64>) -> Vec<u64> {
    let mut allocator = EventTableCellAllocator::new();
    let config = ReturnConfigBuilder::configure(&mut allocator);
    let mut ctx = Context::new();
    config.assign(&mut ctx, &StepInfo::Return { drop, keep, keep_values });
    ctx.writes.iter().map(|w| w.value.l0).collect()
}

#[test]
fn test_trivial_return() {
    assert_eq!(run(0, vec![], vec![]), vec![0, 0]);
}

#[test]
fn test_return_with_drop_ok() {
    assert_eq!(run(2, vec![], vec![]), vec![2, 0]);
}

#[test]
fn test_return_keeps_value() {
    let values = run(1, vec![VarType::I64], vec![5]);
    assert_eq!(values[..4].to_vec(), vec![1, 1, 2, 5]);
    assert_eq!(values.len(), 4 + 16);
}
