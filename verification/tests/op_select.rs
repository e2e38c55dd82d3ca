use zkwasm_circuits::circuits::etable_compact::op_configure::op_select::{
    select_gates_hold, SelectConfigBuilder, SelectWitness,
};
use zkwasm_circuits::circuits::etable_compact::op_configure::EventTableCellAllocator;
use zkwasm_circuits::circuits::step::{StepInfo, VarType};
use zkwasm_circuits::circuits::utils::{Context, FieldValue};

/// Distinct encodings for the gadget's memory-table lookup cells.
fn enc(n: u64) -> Vec<FieldValue> {
    (0..n).map(|i| FieldValue::from_u64(1000 + i)).collect()
}


fn run(step: StepInfo) -> SelectWitness {
    let mut allocator = EventTableCellAllocator::new();
    let config = SelectConfigBuilder::configure(&mut allocator);
    let mut ctx = Context::new();
    let w = config.assign(&mut ctx, &step, &enc(4));
    assert_eq!(ctx.writes.len(), 17 + 17 + 9 + 1 + 17 + 1 + 4);
    assert!(select_gates_hold(&w));
    w
}

#[test]
fn test_select_i32() {
    let w = run(StepInfo::Select { val1: 1, val2: 2, cond: 0, result: 2, vtype: VarType::I32 });
    assert_eq!(w.cond_inv, FieldValue::from_u64(0));
    assert_eq!(w.vtype, 1);
}

#[test]
fn test_select_i64() {
    let w = run(StepInfo::Select { val1: 1, val2: 2, cond: 0, result: 2, vtype: VarType::I64 });
    assert_eq!(w.vtype, 2);
}

#[test]
fn select_with_a_true_condition_takes_the_first_value() {
    let w = run(StepInfo::Select { val1: 7, val2: 9, cond: 3, result: 7, vtype: VarType::I32 });
    // the inverse of three is a field element, not a small integer
    assert!(w.cond_inv.l3 != 0 || w.cond_inv.l2 != 0 || w.cond_inv.l1 != 0);
}

#[test]
fn select_gates_reject_the_wrong_value() {
    let mut allocator = EventTableCellAllocator::new();
    let config = SelectConfigBuilder::configure(&mut allocator);
    let mut ctx = Context::new();
    let w = config.assign(&mut ctx, &StepInfo::Select { val1: 7, val2: 9, cond: 3, result: 9, vtype: VarType::I32 }, &enc(4));
    assert!(!select_gates_hold(&w));
    let w = config.assign(&mut ctx, &StepInfo::Select { val1: 7, val2: 9, cond: 0, result: 7, vtype: VarType::I32 }, &enc(4));
    assert!(!select_gates_hold(&w));
}

#[test]
fn select_writes_its_stack_lookups_last() {
    let mut allocator = EventTableCellAllocator::new();
    let config = SelectConfigBuilder::configure(&mut allocator);
    let mut ctx = Context::new();
    config.assign(&mut ctx, &StepInfo::Select { val1: 1, val2: 2, cond: 0, result: 2, vtype: VarType::I32 }, &enc(4));
    let n = ctx.writes.len();
    let cells = [
        config.lookup_stack_read_cond,
        config.lookup_stack_read_val2,
        config.lookup_stack_read_val1,
        config.lookup_stack_write,
    ];
    for (i, c) in cells.iter().enumerate() {
        let w = &ctx.writes[n - 4 + i];
        assert_eq!((w.col, w.row, w.value.l0), (c.col, c.rot as usize, 1000 + i as u64));
    }
}
