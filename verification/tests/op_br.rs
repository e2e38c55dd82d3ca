use zkwasm_circuits::circuits::etable_compact::op_configure::op_br::BrConfigBuilder;
use zkwasm_circuits::circuits::etable_compact::op_configure::op_br_if_eqz::{
    cond_gates_hold, BrIfEqzConfigBuilder,
};
use zkwasm_circuits::circuits::etable_compact::op_configure::op_br_if::BrIfConfigBuilder;
use zkwasm_circuits::circuits::etable_compact::op_configure::op_br_table::{
    br_table_gates_hold, BrTableConfigBuilder,
};
use zkwasm_circuits::circuits::etable_compact::op_configure::EventTableCellAllocator;
use zkwasm_circuits::circuits::step::{StepInfo, VarType};
use zkwasm_circuits::circuits::utils::{Context, FieldValue};

/// Distinct encodings for the gadget's memory-table lookup cells.
fn enc(n: u64) -> Vec<FieldValue> {
    (0..n).map(|i| FieldValue::from_u64(1000 + i)).collect()
}


#[test]
fn test_br_if_eqz_ok() {
    // `if (i32.const 0)` branches to its else arm, which leaves the block.
    let mut allocator = EventTableCellAllocator::new();
    let config = BrIfEqzConfigBuilder::configure(&mut allocator);
    let mut ctx = Context::new();
    let step = StepInfo::BrIfEqz { condition: 0, dst_pc: 4, drop: 0, keep: vec![], keep_values: vec![] };
    let w = config.assign(&mut ctx, &step, &enc(3));
    assert!(w.cond_is_zero);
    assert!(cond_gates_hold(&w));
    assert_eq!(config.assigned_extra_mops(&step), 0);

    let mut allocator = EventTableCellAllocator::new();
    let br = BrConfigBuilder::configure(&mut allocator);
    let step = StepInfo::Br { dst_pc: 5, drop: 0, keep: vec![], keep_values: vec![] };
    br.assign(&mut ctx, &step, &enc(2));
    assert_eq!(br.assigned_extra_mops(&step), 0);
}

#[test]
fn br_if_eqz_on_a_nonzero_condition_falls_through() {
    let mut allocator = EventTableCellAllocator::new();
    let config = BrIfEqzConfigBuilder::configure(&mut allocator);
    let mut ctx = Context::new();
    let step = StepInfo::BrIfEqz { condition: -5, dst_pc: 4, drop: 1, keep: vec![VarType::I32], keep_values: vec![7] };
    let w = config.assign(&mut ctx, &step, &enc(3));
    assert!(!w.cond_is_zero);
    assert_eq!(w.cond, 0xffff_fffb);
    assert!(cond_gates_hold(&w));
    assert_eq!(config.assigned_extra_mops(&step), 0);
}

#[test]
fn br_if_keeps_a_value_when_taken() {
    let mut allocator = EventTableCellAllocator::new();
    let config = BrIfConfigBuilder::configure(&mut allocator);
    let mut ctx = Context::new();
    let step = StepInfo::BrIfNez { condition: 1, dst_pc: 9, drop: 2, keep: vec![VarType::I64], keep_values: vec![42] };
    let w = config.assign(&mut ctx, &step, &enc(3));
    assert!(cond_gates_hold(&w));
    assert_eq!(config.assigned_extra_mops(&step), 2);
    // drop, then the keep bit, the kept value with its nibbles and its type
    assert_eq!(ctx.writes[0].value.l0, 2);
    assert_eq!(ctx.writes[1].value.l0, 1);
    assert_eq!(ctx.writes[2].value.l0, 42);
    assert_eq!(ctx.writes[19].value.l0, 2);
}

fn br_table(index: i32) -> u64 {
    let mut allocator = EventTableCellAllocator::new();
    let config = BrTableConfigBuilder::configure(&mut allocator);
    let mut ctx = Context::new();
    let step = StepInfo::BrTable { index, dst_pc: 3, drop: 0, keep: vec![], keep_values: vec![] };
    let w = config.assign(&mut ctx, &step, 5, &enc(3));
    assert!(br_table_gates_hold(&w));
    w.effective_index
}

#[test]
fn test_br_table_1() {
    assert_eq!(br_table(0), 0);
}

#[test]
fn test_br_table_2() {
    assert_eq!(br_table(4), 4);
}

#[test]
fn test_br_table_oob_1() {
    assert_eq!(br_table(5), 4);
}

#[test]
fn test_br_table_oob_2() {
    assert_eq!(br_table(99), 4);
}

#[test]
fn br_table_takes_the_whole_unsigned_index() {
    // -1 reads as the index 0xffff_ffff, far out of bounds
    let mut allocator = EventTableCellAllocator::new();
    let config = BrTableConfigBuilder::configure(&mut allocator);
    let mut ctx = Context::new();
    let step = StepInfo::BrTable { index: -1, dst_pc: 0x1_0000, drop: 0x2_0000, keep: vec![], keep_values: vec![] };
    let w = config.assign(&mut ctx, &step, 70000, &enc(3));
    assert!(w.out_of_bound);
    assert_eq!((w.expect_index, w.effective_index, w.targets_len), (0xffff_ffff, 69999, 70000));
    assert_eq!(w.diff, 0xffff_ffff - 70000);
    assert!(br_table_gates_hold(&w));
    assert_eq!((ctx.writes[0].value.l0, ctx.writes[1].value.l0), (0x2_0000, 0x1_0000));
}
