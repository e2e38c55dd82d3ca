use zkwasm_circuits::circuits::etable_compact::op_configure::op_call_host_foreign_circuit::ExternalCallHostCircuitConfigBuilder;
use zkwasm_circuits::circuits::etable_compact::op_configure::op_call_host_input::CallHostWasmInputConfigBuilder;
use zkwasm_circuits::circuits::etable_compact::op_configure::EventTableCellAllocator;
use zkwasm_circuits::circuits::etable_compact::{COL_AUX, COL_SHARED_BITS_0};
use zkwasm_circuits::circuits::step::{HostPlugin, StepInfo};
use zkwasm_circuits::circuits::utils::{Context, FieldValue};

/// Distinct encodings for the gadget's memory-table lookup cells.
fn enc(n: u64) -> Vec<FieldValue> {
    (0..n).map(|i| FieldValue::from_u64(1000 + i)).collect()
}


fn input_step(flag: u64, value: u64) -> StepInfo {
    StepInfo::CallHost { plugin: HostPlugin::HostInput, host_function_idx: 0, args: vec![flag], ret_val: Some(value) }
}

#[test]
fn test_host_input_public_flag_and_value() {
    let mut allocator = EventTableCellAllocator::new();
    let config = CallHostWasmInputConfigBuilder::configure(&mut allocator);
    assert_eq!(config.public.col, COL_SHARED_BITS_0);
    assert_eq!(config.value.value_col, COL_AUX);
    let mut ctx = Context::new();
    let step = input_step(1, 0x2a);
    config.assign(&mut ctx, &step, &enc(2));
    // the flag, then the input with its sixteen nibbles
    assert_eq!(ctx.writes.len(), 1 + 17 + 2);
    assert_eq!(ctx.writes[0].value.l0, 1);
    assert_eq!(ctx.writes[1].value.l0, 0x2a);
    assert_eq!((ctx.writes[2].value.l0, ctx.writes[3].value.l0), (0xa, 0x2));
    assert!(config.is_host_public_input(&step));
    assert_eq!(config.assigned_extra_mops(&step), 2);
}

#[test]
fn test_host_input_private() {
    let mut allocator = EventTableCellAllocator::new();
    let config = CallHostWasmInputConfigBuilder::configure(&mut allocator);
    let mut ctx = Context::new();
    let step = input_step(0, 5);
    config.assign(&mut ctx, &step, &enc(2));
    assert_eq!(ctx.writes[0].value.l0, 0);
    assert!(!config.is_host_public_input(&step));
}

#[test]
fn test_external_host_call_gadget() {
    let mut allocator = EventTableCellAllocator::new();
    let config = ExternalCallHostCircuitConfigBuilder::configure(&mut allocator);
    let mut ctx = Context::new();
    config.assign(&mut ctx, &StepInfo::ExternalHostCall { op: 3, value: Some(0x10), is_ret: true }, &enc(1));
    // the operation, the value with its sixteen nibbles, the return bit
    assert_eq!(ctx.writes.len(), 1 + 17 + 1 + 1);
    assert_eq!(ctx.writes[0].value.l0, 3);
    assert_eq!(ctx.writes[1].value.l0, 0x10);
    assert_eq!((ctx.writes[2].value.l0, ctx.writes[3].value.l0), (0, 1));
    assert_eq!(ctx.writes[18].value.l0, 1);
    assert_eq!(ctx.writes[18].col, config.value_is_ret.col);
}

#[test]
fn test_wasm_input() {
    // `wasm_input(0)`: a private input, pushed as a 64-bit value.
    let mut allocator = EventTableCellAllocator::new();
    let config = CallHostWasmInputConfigBuilder::configure(&mut allocator);
    let mut ctx = Context::new();
    let step = input_step(0, 0);
    config.assign(&mut ctx, &step, &enc(2));
    assert_eq!(ctx.writes[0].value.l0, 0);
    assert_eq!(ctx.writes[1].value.l0, 0);
    assert!(!config.is_host_public_input(&step));
    assert_eq!(config.assigned_extra_mops(&step), 2);
}
