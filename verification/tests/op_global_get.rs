use zkwasm_circuits::circuits::etable_compact::op_configure::op_global_get::GlobalGetConfigBuilder;
use zkwasm_circuits::circuits::etable_compact::op_configure::op_global_set::GlobalSetConfigBuilder;
use zkwasm_circuits::circuits::etable_compact::op_configure::op_local_get::LocalGetConfigBuilder;
use zkwasm_circuits::circuits::etable_compact::op_configure::op_memory_size::MemorySizeConfigBuilder;
use zkwasm_circuits::circuits::etable_compact::op_configure::EventTableCellAllocator;
use zkwasm_circuits::circuits::step::{StepInfo, VarType};
use zkwasm_circuits::circuits::utils::{Context, FieldValue};

/// Distinct encodings for the gadget's memory-table lookup cells.
fn enc(n: u64) -> Vec<FieldValue> {
    (0..n).map(|i| FieldValue::from_u64(1000 + i)).collect()
}


#[test]
fn test_global_get() {
    let mut allocator = EventTableCellAllocator::new();
    let config = GlobalGetConfigBuilder::configure(&mut allocator);
    let mut ctx = Context::new();
    config.assign(&mut ctx, &StepInfo::GetGlobal { idx: 0, vtype: VarType::I32, value: 10 }, &enc(2));
    // the index, the value type, and the value with its sixteen nibbles,
    // then the two stack lookups
    assert_eq!(ctx.writes.len(), 1 + 1 + 17 + 2);
    assert_eq!((ctx.writes[0].value.l0, ctx.writes[1].value.l0, ctx.writes[2].value.l0), (0, 1, 10));
    assert_eq!(ctx.writes[3].value.l0, 10);
    assert!(ctx.writes[4..19].iter().all(|w| w.value.l0 == 0));
}

#[test]
fn test_global_set_i64() {
    let mut allocator = EventTableCellAllocator::new();
    let config = GlobalSetConfigBuilder::configure(&mut allocator);
    let mut ctx = Context::new();
    config.assign(&mut ctx, &StepInfo::SetGlobal { idx: 3, vtype: VarType::I64, value: 0x1234 }, &enc(2));
    assert_eq!((ctx.writes[0].value.l0, ctx.writes[1].value.l0, ctx.writes[2].value.l0), (3, 2, 0x1234));
    let nibbles: Vec<u64> = ctx.writes[3..7].iter().map(|w| w.value.l0).collect();
    assert_eq!(nibbles, vec![4, 3, 2, 1]);
}

#[test]
fn test_local_get_depth() {
    let mut allocator = EventTableCellAllocator::new();
    let config = LocalGetConfigBuilder::configure(&mut allocator);
    let mut ctx = Context::new();
    config.assign(&mut ctx, &StepInfo::GetLocal { vtype: VarType::I32, depth: 2, value: 7 }, &enc(2));
    assert_eq!((ctx.writes[0].value.l0, ctx.writes[1].value.l0, ctx.writes[2].value.l0), (2, 1, 7));
}

#[test]
fn test_memory_size() {
    let mut allocator = EventTableCellAllocator::new();
    let before = allocator;
    let config = MemorySizeConfigBuilder::configure(&mut allocator);
    assert_eq!(config.lookup_stack_write.rot, before.mtable_lookup_index);
    assert_eq!(allocator.mtable_lookup_index, before.mtable_lookup_index + 1);
}

#[test]
fn test_local_get() {
    // `local.get $0` on the function's one parameter, zero, just below the
    // stack pointer.
    let mut allocator = EventTableCellAllocator::new();
    let config = LocalGetConfigBuilder::configure(&mut allocator);
    let mut ctx = Context::new();
    config.assign(&mut ctx, &StepInfo::GetLocal { vtype: VarType::I32, depth: 1, value: 0 }, &enc(2));
    assert_eq!((ctx.writes[0].value.l0, ctx.writes[1].value.l0, ctx.writes[2].value.l0), (1, 1, 0));
}
