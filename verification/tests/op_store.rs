use zkwasm_circuits::circuits::etable_compact::op_configure::op_store::{store_gates_hold, StoreConfigBuilder, StoreWitness};
use zkwasm_circuits::circuits::etable_compact::op_configure::EventTableCellAllocator;
use zkwasm_circuits::circuits::step::{MemoryStoreSize, StepInfo, VarType};
use zkwasm_circuits::circuits::utils::{Context, FieldValue};

/// Distinct encodings for the gadget's memory-table lookup cells.
fn enc(n: u64) -> Vec<FieldValue> {
    (0..n).map(|i| FieldValue::from_u64(1000 + i)).collect()
}


const BLOCK0: u64 = 0x0000_00fe_0000_00ff;

fn store(
    vtype: VarType,
    store_size: MemoryStoreSize,
    raw: u32,
    value: u64,
    pre: u64,
    updated: u64,
) -> StoreWitness {
    store_two(vtype, store_size, raw, value, (pre, 0), (updated, 0))
}

/// Assigns a store whose two blocks are `pre` before it and `updated`
/// after it, and checks that every gate holds on what was assigned.
fn store_two(
    vtype: VarType,
    store_size: MemoryStoreSize,
    raw: u32,
    value: u64,
    pre: (u64, u64),
    updated: (u64, u64),
) -> StoreWitness {
    let mut allocator = EventTableCellAllocator::new();
    let config = StoreConfigBuilder::configure(&mut allocator);
    let mut ctx = Context::new();
    let step = StepInfo::Store {
        vtype,
        store_size,
        offset: 0,
        raw_address: raw,
        effective_address: raw,
        pre_block_value: pre.0,
        updated_block_value: updated.0,
        pre_block_value2: pre.1,
        updated_block_value2: updated.1,
        value,
        mmid: 0,
    };
    let w = config.assign(&mut ctx, &step, &enc(6));
    // 7 location cells, 4 blocks with their bytes, 16 mask bits, three
    // values with their nibbles, the wrapped value, 4 flags, the value type
    // and the power lookup.
    assert_eq!(ctx.writes.len(), 7 + 4 * 9 + 16 + 3 * 17 + 1 + 4 + 1 + 1 + 6);
    assert!(store_gates_hold(&w));
    w
}

#[test]
fn test_store_32() {
    let w = store(VarType::I32, MemoryStoreSize::Byte32, 1, 0, BLOCK0, 0xff);
    assert_eq!((w.start_inner, w.end_inner, w.mask, w.offset_modulus), (1, 4, 0b1_1110, 1 << 8));
    assert_eq!(w.wrapped_value, 0);
    let w = store(VarType::I32, MemoryStoreSize::Byte32, 2, 4, 0xff, 0x4_00ff);
    assert_eq!((w.start_inner, w.end_inner, w.mask, w.pow), (2, 5, 0b11_1100, 16));
    assert_eq!(w.wrapped_value, 4);
    assert_eq!((w.load_value1, w.store_value1), (0xff, 0x4_00ff));
}

#[test]
fn test_all_store() {
    let sizes = [
        (VarType::I64, MemoryStoreSize::Byte64, 0xff),
        (VarType::I64, MemoryStoreSize::Byte32, 0xf),
        (VarType::I64, MemoryStoreSize::Byte16, 0x3),
        (VarType::I64, MemoryStoreSize::Byte8, 0x1),
        (VarType::I32, MemoryStoreSize::Byte32, 0xf),
        (VarType::I32, MemoryStoreSize::Byte16, 0x3),
        (VarType::I32, MemoryStoreSize::Byte8, 0x1),
    ];
    let mut pre = BLOCK0;
    for (vtype, size, mask) in sizes {
        let updated = match size {
            MemoryStoreSize::Byte64 => 0,
            _ => pre,
        };
        let w = store(vtype, size, 0, 0, pre, updated);
        assert_eq!(w.mask, mask);
        assert_eq!(w.wrapped_value, 0);
        assert_eq!(w.vtype, if vtype == VarType::I64 { 2 } else { 1 });
        pre = updated;
    }
}

#[test]
fn test_store_32_wrap() {
    let w = store(VarType::I32, MemoryStoreSize::Byte8, 0, 256, BLOCK0, 0x0000_00fe_0000_0000);
    assert_eq!(w.raw_value, 256);
    assert_eq!(w.wrapped_value, 0);
    assert!(w.is_one_byte && !w.is_two_bytes);
}

#[test]
fn test_store_64() {
    let w = store(VarType::I64, MemoryStoreSize::Byte64, 0, 0x4_3213_4214, BLOCK0, 0x4_3213_4214);
    assert_eq!(w.wrapped_value, 0x4_3213_4214);
    assert_eq!((w.start_block, w.end_block, w.end_inner), (0, 0, 7));
}

#[test]
fn test_store_64_cross() {
    // bytes 6 and 7 of the first block take the value's two low bytes, and
    // the next block, zero before, takes the other six
    let w = store_two(
        VarType::I64,
        MemoryStoreSize::Byte64,
        6,
        0x4_3213_4214,
        (BLOCK0, 0),
        (0x4214_00fe_0000_00ff, 0x4_3213),
    );
    assert_eq!((w.load_value2, w.store_value2), (0, 0x4_3213));
    assert_eq!((w.start_block, w.start_inner, w.end_block, w.end_inner), (0, 6, 1, 5));
    assert_eq!(w.mask, 0xff << 6);
    assert_eq!(w.offset_modulus, 1 << 48);
}

#[test]
fn store_gates_reject_a_wrong_block() {
    // the same store, with a byte of the next block that the store does
    // not reach changed
    let mut w = store_two(
        VarType::I64,
        MemoryStoreSize::Byte64,
        6,
        0x4_3213_4214,
        (BLOCK0, 0),
        (0x4214_00fe_0000_00ff, 0x4_3213),
    );
    w.store_value2 = 0xff00_0000_0004_3213;
    assert!(!store_gates_hold(&w));
    // a spilled byte that differs from the value's
    w.store_value2 = 0x4_3214;
    assert!(!store_gates_hold(&w));
}
