use zkwasm_circuits::circuits::etable_compact::assign::{rest_ops, EventTableCommonConfig, EventTableEntry};
use zkwasm_circuits::circuits::etable_compact::op_configure::op_load::LoadConfigBuilder;
use zkwasm_circuits::circuits::etable_compact::op_configure::op_store::StoreConfigBuilder;
use zkwasm_circuits::circuits::etable_compact::op_configure::op_config::configure_gadget;
use zkwasm_circuits::circuits::etable_compact::op_configure::EventTableCellAllocator;
use zkwasm_circuits::circuits::etable_compact::{
    opclass_to_two_level, OpcodeClassPlain, Status, StepStatus, AUX_ROT_ITABLE_LOOKUP, COL_AUX, COL_OPCODE_BITS, COL_SHARED_BITS_0, COL_STATE, STATE_ROT_EID, STATE_ROT_INPUT_INDEX,
    STATE_ROT_REST_JOPS, STATE_ROT_REST_MOPS,
};
use zkwasm_circuits::circuits::step::{HostPlugin, MemoryReadSize, MemoryStoreSize, StepInfo, VarType};
use zkwasm_circuits::circuits::utils::{Context, FieldValue};

fn entry(eid: u64, class: usize, op_mops: u64, op_jops: u64) -> EventTableEntry {
    EventTableEntry {
        eid,
        fid: 0,
        iid: eid as u16,
        sp: 100,
        last_jump_eid: 0,
        opcode: OpcodeClassPlain(class),
        op_mops,
        op_jops,
        encoding: FieldValue::from_u64(0x100 + eid),
    }
}

fn cell(ctx: &Context, col: usize, row: usize) -> Option<u64> {
    ctx.writes.iter().rev().find(|w| w.col == col && w.row == row).map(|w| w.value.l0)
}

#[test]
fn test_rest_ops_suffix_sums() {
    assert_eq!(rest_ops(&vec![1, 0, 2, 3]), vec![6, 5, 5, 3]);
    assert_eq!(rest_ops(&vec![]), Vec::<u64>::new());
}

fn status(eid: u64) -> StepStatus {
    let s = Status { eid, moid: 0, fid: 0, iid: eid as u16, mmid: 0, sp: 100, last_jump_eid: 0 };
    StepStatus { current: s, next: s }
}

fn lookups(n: u64) -> Vec<FieldValue> {
    (0..n).map(|i| FieldValue::from_u64(1000 + i)).collect()
}

#[test]
fn test_common_assign_rest_and_state() {
    let config = EventTableCommonConfig::new();
    let op_configs = vec![
        (OpcodeClassPlain(29), configure_gadget(29).unwrap()),
        (OpcodeClassPlain(15), configure_gadget(15).unwrap()),
        (OpcodeClassPlain(6), configure_gadget(6).unwrap()),
    ];
    // a public host input, a branch that keeps a value, a constant
    let entries = vec![entry(1, 29, 0, 0), entry(2, 15, 0, 1), entry(3, 6, 1, 0)];
    let steps = vec![
        StepInfo::CallHost { plugin: HostPlugin::HostInput, host_function_idx: 0, args: vec![1], ret_val: Some(0x2a) },
        StepInfo::Br { dst_pc: 3, drop: 0, keep: vec![VarType::I32], keep_values: vec![5] },
        StepInfo::I32Const { value: 5 },
    ];
    let statuses = vec![status(1), status(2), status(3)];
    let encodings = vec![lookups(2), lookups(2), vec![]];
    let mut ctx = Context::new();
    let (m, j) = config.assign(&mut ctx, &op_configs, &entries, &steps, &statuses, &encodings, 80);
    // two extra memory operations for the host input and for the kept value
    assert_eq!((m, j), (5, 1));
    assert_eq!(ctx.offset, 60);
    let rest_m: Vec<u64> =
        (0..3).map(|i| cell(&ctx, COL_STATE, 20 * i + STATE_ROT_REST_MOPS as usize).unwrap()).collect();
    let rest_j: Vec<u64> =
        (0..3).map(|i| cell(&ctx, COL_STATE, 20 * i + STATE_ROT_REST_JOPS as usize).unwrap()).collect();
    assert_eq!(rest_m, vec![5, 3, 1]);
    assert_eq!(rest_j, vec![1, 1, 0]);
    let idx: Vec<u64> =
        (0..3).map(|i| cell(&ctx, COL_STATE, 20 * i + STATE_ROT_INPUT_INDEX as usize).unwrap()).collect();
    assert_eq!(idx, vec![0, 1, 1]);
    assert_eq!(cell(&ctx, COL_STATE, 40 + STATE_ROT_EID as usize), Some(3));
    let (l1, l2) = opclass_to_two_level(OpcodeClassPlain(15));
    assert_eq!(cell(&ctx, COL_OPCODE_BITS, 20 + l1), Some(1));
    assert_eq!(cell(&ctx, COL_OPCODE_BITS, 20 + l2), Some(1));
    assert_eq!(cell(&ctx, COL_SHARED_BITS_0, 0), Some(1));
    assert_eq!(cell(&ctx, COL_SHARED_BITS_0, 60), Some(0));
    // each block's instruction table lookup cell holds its encoding
    let enc: Vec<u64> = (0..3).map(|i| cell(&ctx, COL_AUX, 20 * i + AUX_ROT_ITABLE_LOOKUP as usize).unwrap()).collect();
    assert_eq!(enc, vec![0x101, 0x102, 0x103]);
    // the branch's gadget wrote its two memory table lookups in its own block
    let br_lookups = ctx.writes.iter().filter(|w| w.col == COL_AUX && (20..40).contains(&w.row) && w.value.l0 >= 1000).count();
    assert_eq!(br_lookups, 2);
    // the constant's gadget wrote its value in the third block
    assert!(ctx.writes.iter().any(|w| (40..60).contains(&w.row) && w.value.l0 == 5));
}

#[test]
fn test_common_assign_empty() {
    let config = EventTableCommonConfig::new();
    let mut ctx = Context::new();
    let (m, j) = config.assign(&mut ctx, &vec![], &vec![], &vec![], &vec![], &vec![], 20);
    assert_eq!((m, j), (0, 0));
    assert_eq!(cell(&ctx, COL_SHARED_BITS_0, 0), Some(0));
    assert_eq!(ctx.writes.len(), 4);
}

#[test]
fn test_memory_extra_mops() {
    let mut allocator = EventTableCellAllocator::new();
    let load = LoadConfigBuilder::configure(&mut allocator);
    let step = |ea: u32| StepInfo::Load {
        origin_mmid: 0,
        vtype: VarType::I64,
        load_size: MemoryReadSize::I64,
        offset: 0,
        raw_address: ea,
        effective_address: ea,
        value: 0,
        block_value: 0,
        block_value2: 0,
    };
    assert_eq!(load.assigned_extra_mops(&step(0)), 0);
    assert_eq!(load.assigned_extra_mops(&step(6)), 1);
    let mut allocator = EventTableCellAllocator::new();
    let store = StoreConfigBuilder::configure(&mut allocator);
    let s = StepInfo::Store {
        vtype: VarType::I32,
        store_size: MemoryStoreSize::Byte32,
        offset: 0,
        raw_address: 6,
        effective_address: 6,
        pre_block_value: 0,
        updated_block_value: 0,
        pre_block_value2: 0,
        updated_block_value2: 0,
        value: 0,
        mmid: 0,
    };
    assert_eq!(store.assigned_extra_mops(&s), 2);
}
