use zkwasm_circuits::circuits::etable_compact::op_configure::op_load::{load_gates_hold, LoadConfigBuilder, LoadWitness};
use zkwasm_circuits::circuits::etable_compact::op_configure::EventTableCellAllocator;
use zkwasm_circuits::circuits::etable_compact::{Status, StepStatus};
use zkwasm_circuits::circuits::step::{MemoryReadSize, StepInfo, VarType};
use zkwasm_circuits::circuits::utils::{Context, FieldValue};

/// Distinct encodings for the gadget's memory-table lookup cells.
fn enc(n: u64) -> Vec<FieldValue> {
    (0..n).map(|i| FieldValue::from_u64(1000 + i)).collect()
}


const BLOCK0: u64 = 0x0000_00fe_0000_00ff;

fn status() -> StepStatus {
    let s = Status { eid: 1, moid: 0, fid: 0, iid: 0, mmid: 0, sp: 10, last_jump_eid: 0 };
    StepStatus { current: s, next: s }
}

fn load(vtype: VarType, load_size: MemoryReadSize, offset: u32, raw: u32, value: u64, block: u64) -> LoadWitness {
    load_two(vtype, load_size, offset, raw, value, (block, 0))
}

/// Assigns a load from the two blocks `blocks`, and checks that every gate
/// holds on what was assigned.
fn load_two(
    vtype: VarType,
    load_size: MemoryReadSize,
    offset: u32,
    raw: u32,
    value: u64,
    blocks: (u64, u64),
) -> LoadWitness {
    let mut allocator = EventTableCellAllocator::new();
    let config = LoadConfigBuilder::configure(&mut allocator);
    let mut ctx = Context::new();
    let step = StepInfo::Load {
        origin_mmid: 0,
        vtype,
        load_size,
        offset,
        raw_address: raw,
        effective_address: raw + offset,
        value,
        block_value: blocks.0,
        block_value2: blocks.1,
    };
    let w = config.assign(&mut ctx, &status(), &step, &enc(4));
    // 9 location cells, 2 blocks with their bytes, 16 mask bits, the
    // modulus with its bytes, three values with their nibbles, 4 + 6 bits,
    // the value type and the power lookup.
    assert_eq!(ctx.writes.len(), 9 + 2 * 9 + 16 + 9 + 3 * 17 + 10 + 1 + 1 + 4);
    assert!(w.local);
    assert!(load_gates_hold(&w, 0));
    w
}

#[test]
fn test_load() {
    let w = load(VarType::I32, MemoryReadSize::U32, 0, 0, 0xff, BLOCK0);
    assert_eq!(w.value_in_heap, 0xff);
    assert_eq!(w.mask, 0b1111);
    assert_eq!(w.offset_modulus, 1);
    assert_eq!((w.start_block, w.start_inner, w.end_block, w.end_inner), (0, 0, 0, 3));
    let w = load(VarType::I32, MemoryReadSize::U32, 0, 4, 0xfe, BLOCK0);
    assert_eq!(w.value_in_heap, 0xfe);
    assert_eq!(w.mask, 0b1111_0000);
    assert_eq!(w.offset_modulus, 1 << 32);
    assert_eq!(w.pow, 32);
    assert_eq!((w.start_inner, w.start_helper, w.end_inner, w.end_helper), (4, 3, 7, 0));
}

#[test]
fn test_load_64() {
    let w = load(VarType::I64, MemoryReadSize::I64, 0, 0, BLOCK0, BLOCK0);
    assert_eq!(w.value_in_heap, BLOCK0);
    assert_eq!(w.mask, 0xff);
    assert!(w.is_eight_bytes && w.is_i64);
    let w = load(VarType::I64, MemoryReadSize::I64, 4, 4, 0, 0);
    assert_eq!((w.start_block, w.start_inner, w.load_base, w.offset), (1, 0, 4, 4));
    assert_eq!(w.value_in_heap, 0);
}

#[test]
fn test_load_32_8s() {
    let w = load(VarType::I32, MemoryReadSize::S8, 0, 0, 0xffff_ffff, BLOCK0);
    assert_eq!(w.value_in_heap, 0xff);
    assert!(w.is_sign && w.is_one_byte);
    assert!(w.highest0 && w.highest1 && w.highest2 && w.highest3);
    assert_eq!(w.res, 0xffff_ffff);
}

#[test]
fn test_load_64_8u() {
    let w = load(VarType::I64, MemoryReadSize::U8, 0, 0, 0xff, BLOCK0);
    assert_eq!(w.value_in_heap, 0xff);
    assert!(!w.is_sign && w.highest0);
    assert_eq!(w.mask, 1);
}

#[test]
fn test_load_16s_positive() {
    let w = load(VarType::I64, MemoryReadSize::S16, 0, 2, 0x1234, 0x0000_0000_1234_0000);
    assert_eq!(w.value_in_heap, 0x1234);
    assert!(!w.highest0 && !w.highest1 && !w.highest2 && w.highest3);
    assert_eq!(w.mask, 0b1100);
}

#[test]
fn test_load_import_other_instance() {
    // `i32.load` at address zero of a memory imported from another module
    // instance, which is empty: the load reads zero and is not local.
    let mut allocator = EventTableCellAllocator::new();
    let config = LoadConfigBuilder::configure(&mut allocator);
    let mut ctx = Context::new();
    let step = StepInfo::Load {
        origin_mmid: 1,
        vtype: VarType::I32,
        load_size: MemoryReadSize::U32,
        offset: 0,
        raw_address: 0,
        effective_address: 0,
        value: 0,
        block_value: 0,
        block_value2: 0,
    };
    let w = config.assign(&mut ctx, &status(), &step, &enc(4));
    assert!(!w.local);
    assert_eq!(w.origin_mmid, 1);
    assert_eq!((w.value_in_heap, w.res), (0, 0));
    assert_eq!(w.mask, 0b1111);
    assert!(load_gates_hold(&w, 0));
}

#[test]
fn load_gates_reject_a_wrong_value() {
    let mut w = load(VarType::I32, MemoryReadSize::U32, 0, 4, 0xfe, BLOCK0);
    w.value_in_heap = 0xff;
    w.res = 0xff;
    assert!(!load_gates_hold(&w, 0));
}

#[test]
fn load_64_across_two_blocks() {
    // `i64.load` at address 6 reads bytes 6 and 7 of the first block and
    // the first six bytes of the next one
    let w = load_two(
        VarType::I64,
        MemoryReadSize::I64,
        0,
        6,
        0x4_3213_4214,
        (0x4214_00fe_0000_00ff, 0x4_3213),
    );
    assert_eq!((w.start_block, w.start_inner, w.end_block, w.end_inner), (0, 6, 1, 5));
    assert_eq!((w.load_value1, w.load_value2), (0x4214_00fe_0000_00ff, 0x4_3213));
    assert_eq!(w.value_in_heap, 0x4_3213_4214);
}
