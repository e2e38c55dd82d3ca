use zkwasm_circuits::circuits::etable_compact::op_configure::op_load::LoadConfigBuilder;
use zkwasm_circuits::circuits::etable_compact::op_configure::op_memory_grow::{
    memory_grow_gates_hold, MemoryGrowConfigBuilder, MemoryGrowWitness,
};
use zkwasm_circuits::circuits::etable_compact::op_configure::EventTableCellAllocator;
use zkwasm_circuits::circuits::etable_compact::{Status, StepStatus};
use zkwasm_circuits::circuits::step::{MemoryReadSize, StepInfo, VarType};
use zkwasm_circuits::circuits::utils::{Context, FieldValue};

/// Distinct encodings for the gadget's memory-table lookup cells.
fn enc(n: u64) -> Vec<FieldValue> {
    (0..n).map(|i| FieldValue::from_u64(1000 + i)).collect()
}


fn grow(grow_size: i32, result: i32, current: u32, maximal: u32) -> (MemoryGrowWitness, usize) {
    let mut allocator = EventTableCellAllocator::new();
    let config = MemoryGrowConfigBuilder::configure(&mut allocator);
    let mut ctx = Context::new();
    let w = config.assign(&mut ctx, &StepInfo::MemoryGrow { grow_size, result }, current, maximal, &enc(2));
    assert!(memory_grow_gates_hold(&w, current, maximal));
    (w, ctx.writes.len())
}

#[test]
fn test_memory_grow() {
    let (w, n) = grow(1, 1, 1, 2);
    assert!(w.success);
    assert_eq!((w.grow_size, w.result, w.current_maximal_diff), (1, 1, 0));
    assert_eq!(n, 17 + 17 + 1 + 1 + 2);
}

#[test]
fn test_memory_grow_fail() {
    let (w, n) = grow(2, -1, 1, 2);
    assert!(!w.success);
    assert_eq!(w.result, 0xffff_ffff);
    assert_eq!(n, 17 + 17 + 1 + 2);
}

#[test]
fn test_memory_grow_lazy_init() {
    let (w, _) = grow(1, 0, 0, 1);
    assert!(w.success);
    assert_eq!((w.result, w.current_maximal_diff), (0, 0));
    let mut allocator = EventTableCellAllocator::new();
    let config = LoadConfigBuilder::configure(&mut allocator);
    let mut ctx = Context::new();
    let s = Status { eid: 2, moid: 0, fid: 0, iid: 1, mmid: 0, sp: 10, last_jump_eid: 0 };
    let step = StepInfo::Load {
        origin_mmid: 0,
        vtype: VarType::I32,
        load_size: MemoryReadSize::U32,
        offset: 0,
        raw_address: 0,
        effective_address: 0,
        value: 0,
        block_value: 0,
        block_value2: 0,
    };
    let l = config.assign(&mut ctx, &StepStatus { current: s, next: s }, &step, &enc(4));
    assert_eq!(l.value_in_heap, 0);
}

#[test]
fn test_memory_grow_gates_reject() {
    let ok = MemoryGrowWitness { grow_size: 1, result: 1, success: true, current_maximal_diff: 0 };
    assert!(memory_grow_gates_hold(&ok, 1, 2));
    let past_max = MemoryGrowWitness { grow_size: 2, result: 1, success: true, current_maximal_diff: 0 };
    assert!(!memory_grow_gates_hold(&past_max, 1, 2));
    let wrong_result = MemoryGrowWitness { grow_size: 1, result: 2, success: true, current_maximal_diff: 0 };
    assert!(!memory_grow_gates_hold(&wrong_result, 1, 2));
    let failed = MemoryGrowWitness { grow_size: 2, result: 0xffff_ffff, success: false, current_maximal_diff: 0 };
    assert!(memory_grow_gates_hold(&failed, 1, 2));
}
