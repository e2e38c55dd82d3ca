use zkwasm_circuits::circuits::etable_compact::gates::{EventTableConfig, OpcodeClass};
use zkwasm_circuits::circuits::etable_compact::assign::EventTableEntry;
use zkwasm_circuits::circuits::etable_compact::op_configure::op_bin::BinConfigBuilder;
use zkwasm_circuits::circuits::etable_compact::op_configure::op_config::OpConfig;
use zkwasm_circuits::circuits::etable_compact::op_configure::EventTableCellAllocator;
use zkwasm_circuits::circuits::etable_compact::{
    OpcodeClassPlain, Status, StepStatus, COL_OPCODE_BITS, COL_SHARED_BITS_0, COL_STATE,
};
use zkwasm_circuits::circuits::step::StepInfo;
use zkwasm_circuits::circuits::utils::{Context, FieldValue};

fn classes(v: &[usize]) -> Vec<OpcodeClassPlain> {
    v.iter().map(|c| OpcodeClassPlain(*c)).collect()
}

#[test]
fn test_configure_registers_the_tables_gadgets_in_the_set() {
    // bin, return, the SHA-256 host call, unary (no gadget) and a class
    // outside the instruction set
    let config = EventTableConfig::configure(&classes(&[10, 9, 30, 19, 70]));
    assert_eq!(
        config.op_bitmaps,
        vec![(OpcodeClassPlain(9), 1, 8), (OpcodeClassPlain(10), 1, 9), (OpcodeClassPlain(30), 3, 13)]
    );
    assert_eq!(config.common_config.shared_bits, COL_SHARED_BITS_0);
    assert_eq!(config.common_config.opcode_bits, COL_OPCODE_BITS);
    assert_eq!(config.common_config.state, COL_STATE);
    let gadgets: Vec<usize> = config.op_configs.iter().map(|(c, _)| c.0).collect();
    assert_eq!(gadgets, vec![9, 10, 30]);
}

#[test]
fn test_configure_classes_without_a_gadget_get_only_bits() {
    // drop, local.set and local.tee have opcode bits and no gadget
    let config = EventTableConfig::configure(&classes(&[7, 2, 3, 1]));
    let bits: Vec<usize> = config.op_bitmaps.iter().map(|(c, _, _)| c.0).collect();
    assert_eq!(bits, vec![7, 1, 2, 3]);
    let gadgets: Vec<usize> = config.op_configs.iter().map(|(c, _)| c.0).collect();
    assert_eq!(gadgets, vec![1]);
}

#[test]
fn test_configure_nothing_in_the_set() {
    let config = EventTableConfig::configure(&classes(&[]));
    assert!(config.op_bitmaps.is_empty());
    let config = EventTableConfig::configure(&classes(&[OpcodeClass::Load.plain().0]));
    assert_eq!(config.op_bitmaps, vec![(OpcodeClassPlain(23), 2, 14)]);
}

#[test]
fn test_table_assigns_a_step_with_its_registered_gadget() {
    let config = EventTableConfig::configure(&classes(&[6]));
    let entry = EventTableEntry {
        eid: 1,
        fid: 0,
        iid: 0,
        sp: 10,
        last_jump_eid: 0,
        opcode: OpcodeClassPlain(6),
        op_mops: 1,
        op_jops: 0,
        encoding: FieldValue::from_u64(77),
    };
    let s = Status { eid: 1, moid: 0, fid: 0, iid: 0, mmid: 0, sp: 10, last_jump_eid: 0 };
    let mut ctx = Context::new();
    let (m, j) = config.assign(
        &mut ctx,
        &vec![entry],
        &vec![StepInfo::I32Const { value: 9 }],
        &vec![StepStatus { current: s, next: s }],
        &vec![vec![]],
        40,
    );
    assert_eq!((m, j), (1, 0));
    assert_eq!(ctx.offset, 20);
    // the constant's value, written by its gadget, comes before the common part
    assert!(ctx.writes.iter().any(|w| w.value.l0 == 9));
    assert!(ctx.writes.iter().any(|w| w.value.l0 == 77));
}

#[test]
fn test_configure_gives_each_gadget_its_builders_layout() {
    let config = EventTableConfig::configure(&classes(&[10]));
    assert_eq!(config.op_configs.len(), 1);
    match &config.op_configs[0].1 {
        OpConfig::Bin(c) => {
            let fresh = BinConfigBuilder::configure(&mut EventTableCellAllocator::new());
            assert_eq!(*c, fresh);
            // no two of its cells share a place
            assert_ne!((c.lhs.value_col, c.lhs.value_rot), (c.rhs.value_col, c.rhs.value_rot));
        },
        _ => panic!("the bin class has the bin gadget"),
    }
}
