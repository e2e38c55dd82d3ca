//! The gadget of the memory stores: the store's address is split into the
//! block of eight bytes that it starts in and the offset in that block, the
//! value is wrapped to the store's width, and the block after the store is
//! the block before it with the bytes under the mask replaced by the
//! wrapped value.

use vstd::prelude::*;
use vstd::arithmetic::power2::{lemma2_to64, lemma_pow2_pos, pow2};
use crate::circuits::etable_compact::op_configure::{
    assign_mtable_lookups, mtable_lookup_cell_ok, mtable_lookup_writes,
    bit_cell_at, bit_cell_ok, bit_writes, common_range_cell_ok, common_range_writes, lemma_append_assoc,
    mtable_lookup_cell_at, one_write, pow_table_value, u64_cell_at, u64_cell_ok, u64_cell_writes,
    u64_on_u8_cell_at, u64_on_u8_cell_ok, u64_on_u8_cell_writes, BitCell, CommonRangeCell,
    EventTableCellAllocator, MTableLookupCell, OffsetLenBitsTableLookupCell, PowTableLookupCell, U64Cell,
    U64OnU8Cell, UnlimitedCell,
};
use crate::circuits::etable_compact::op_configure::op_load::{
    alloc_bits, assign_bool_cells, bit_at, bit_of, bool_writes, clamp, lemma_low_bytes_step, lemma_mask_bits_of_weight,
    lemma_mask_weight, lemma_masked_bytes, lemma_masked_bytes_range, lemma_masked_bytes_zero, lemma_offset_len_bits,
    lemma_pow256, lemma_pow_lookup_sound,
    mask_values, mask_weight, masked_bytes, offset_len_bits, pow2_u64, vtype_number,
};
use crate::circuits::etable_compact::op_configure::op_bin_shift::{in_pow_table, pow_table_encode};
use crate::circuits::etable_compact::op_configure::{byte, byte_at, nibble, pow_table_entry};
use crate::circuits::etable_compact::op_configure::checks::{mask_matches, masked_bytes_of, pow_lookup_ok, unmasked_bytes_of};
use crate::circuits::utils::{b2i, fzero, lemma_digit_index};
use vstd::arithmetic::power::pow;
use crate::circuits::etable_compact::{BIT_CELLS, COL_AUX, COL_STATE, COL_UNLIMITED, ETABLE_STEP_SIZE};
use crate::circuits::step::{store_byte_size, MemoryStoreSize, StepInfo, VarType};
use crate::circuits::utils::{fv_u64, CellWrite, Context, FieldValue};

verus! {

/// The cells of the gadget.
#[derive(Clone, Debug)]
pub struct StoreConfig {
    pub opcode_store_offset: CommonRangeCell,
    pub store_start_block_index: CommonRangeCell,
    pub store_start_block_inner_offset: CommonRangeCell,
    pub store_start_block_inner_offset_helper: CommonRangeCell,
    pub store_end_block_index: CommonRangeCell,
    pub store_end_block_inner_offset: CommonRangeCell,
    pub store_end_block_inner_offset_helper: CommonRangeCell,
    pub load_value1: U64OnU8Cell,
    pub load_value2: U64OnU8Cell,
    pub store_value1: U64OnU8Cell,
    pub store_value2: U64OnU8Cell,
    pub offset_modulus: U64Cell,
    pub store_raw_value: U64Cell,
    pub store_base: U64Cell,
    pub store_wrapped_value: UnlimitedCell,
    pub mask_bits: Vec<BitCell>,
    pub is_one_byte: BitCell,
    pub is_two_bytes: BitCell,
    pub is_four_bytes: BitCell,
    pub is_eight_bytes: BitCell,
    pub vtype: CommonRangeCell,
    pub lookup_stack_read_val: MTableLookupCell,
    pub lookup_stack_read_pos: MTableLookupCell,
    pub lookup_heap_read1: MTableLookupCell,
    pub lookup_heap_read2: MTableLookupCell,
    pub lookup_heap_write1: MTableLookupCell,
    pub lookup_heap_write2: MTableLookupCell,
    pub lookup_offset_len_bits: OffsetLenBitsTableLookupCell,
    pub lookup_pow: PowTableLookupCell,
}

/// Builds the gadget.
pub struct StoreConfigBuilder {}

/// The cells that the gadget takes from an allocator in state `a`, in the
/// order in which it asks for them.
pub open spec fn store_layout(c: StoreConfig, a: EventTableCellAllocator) -> bool {
    let r = a.common_range_index as int;
    let b = a.bit_index as int;
    let u = a.u64_index as int;
    let v = a.u64_on_u8_index as int;
    let t = a.mtable_lookup_index as int;
    &&& c.opcode_store_offset == CommonRangeCell { col: COL_STATE, rot: r as i32 }
    &&& c.store_start_block_index == CommonRangeCell { col: COL_STATE, rot: (r + 1) as i32 }
    &&& c.store_start_block_inner_offset == CommonRangeCell { col: COL_STATE, rot: (r + 2) as i32 }
    &&& c.store_start_block_inner_offset_helper == CommonRangeCell { col: COL_STATE, rot: (r + 3) as i32 }
    &&& c.store_end_block_index == CommonRangeCell { col: COL_STATE, rot: (r + 4) as i32 }
    &&& c.store_end_block_inner_offset == CommonRangeCell { col: COL_STATE, rot: (r + 5) as i32 }
    &&& c.store_end_block_inner_offset_helper == CommonRangeCell { col: COL_STATE, rot: (r + 6) as i32 }
    &&& c.load_value1 == u64_on_u8_cell_at(v)
    &&& c.load_value2 == u64_on_u8_cell_at(v + 1)
    &&& c.store_value1 == u64_on_u8_cell_at(v + 2)
    &&& c.store_value2 == u64_on_u8_cell_at(v + 3)
    &&& c.offset_modulus == u64_cell_at(u)
    &&& c.store_raw_value == u64_cell_at(u + 1)
    &&& c.store_base == u64_cell_at(u + 2)
    &&& c.store_wrapped_value == UnlimitedCell { col: COL_UNLIMITED, rot: a.unlimited_index }
    &&& c.mask_bits@ == Seq::new(16, |i: int| bit_cell_at(b + i))
    &&& c.is_one_byte == bit_cell_at(b + 16)
    &&& c.is_two_bytes == bit_cell_at(b + 17)
    &&& c.is_four_bytes == bit_cell_at(b + 18)
    &&& c.is_eight_bytes == bit_cell_at(b + 19)
    &&& c.vtype == CommonRangeCell { col: COL_STATE, rot: (r + 7) as i32 }
    &&& c.lookup_stack_read_val == mtable_lookup_cell_at(t)
    &&& c.lookup_stack_read_pos == mtable_lookup_cell_at(t + 1)
    &&& c.lookup_heap_read1 == mtable_lookup_cell_at(t + 2)
    &&& c.lookup_heap_read2 == mtable_lookup_cell_at(t + 3)
    &&& c.lookup_heap_write1 == mtable_lookup_cell_at(t + 4)
    &&& c.lookup_heap_write2 == mtable_lookup_cell_at(t + 5)
    &&& c.lookup_offset_len_bits == OffsetLenBitsTableLookupCell {
        col: COL_AUX,
        rot: a.offset_len_bits_lookup_index,
    }
    &&& c.lookup_pow == PowTableLookupCell { col: COL_AUX, rot: a.pow_table_lookup_index }
}

impl StoreConfig {
    /// Every cell lies within a block, with sixteen mask bits.
    pub open spec fn wf(self) -> bool {
        &&& common_range_cell_ok(self.opcode_store_offset)
        &&& common_range_cell_ok(self.store_start_block_index)
        &&& common_range_cell_ok(self.store_start_block_inner_offset)
        &&& common_range_cell_ok(self.store_start_block_inner_offset_helper)
        &&& common_range_cell_ok(self.store_end_block_index)
        &&& common_range_cell_ok(self.store_end_block_inner_offset)
        &&& common_range_cell_ok(self.store_end_block_inner_offset_helper)
        &&& u64_on_u8_cell_ok(self.load_value1)
        &&& u64_on_u8_cell_ok(self.load_value2)
        &&& u64_on_u8_cell_ok(self.store_value1)
        &&& u64_on_u8_cell_ok(self.store_value2)
        &&& u64_cell_ok(self.offset_modulus)
        &&& u64_cell_ok(self.store_raw_value)
        &&& u64_cell_ok(self.store_base)
        &&& 0 <= self.store_wrapped_value.rot < ETABLE_STEP_SIZE
        &&& self.mask_bits.len() == 16
        &&& (forall|i: int| 0 <= i < 16 ==> bit_cell_ok(#[trigger] self.mask_bits@[i]))
        &&& bit_cell_ok(self.is_one_byte)
        &&& bit_cell_ok(self.is_two_bytes)
        &&& bit_cell_ok(self.is_four_bytes)
        &&& bit_cell_ok(self.is_eight_bytes)
        &&& common_range_cell_ok(self.vtype)
        &&& 0 <= self.lookup_pow.rot < ETABLE_STEP_SIZE
        &&& mtable_lookup_cell_ok(self.lookup_stack_read_val)
        &&& mtable_lookup_cell_ok(self.lookup_stack_read_pos)
        &&& mtable_lookup_cell_ok(self.lookup_heap_read1)
        &&& mtable_lookup_cell_ok(self.lookup_heap_read2)
        &&& mtable_lookup_cell_ok(self.lookup_heap_write1)
        &&& mtable_lookup_cell_ok(self.lookup_heap_write2)
    }

    /// The memory table lookup cells of the step, in the order of the
    /// gadget's cells.
    pub open spec fn lookups(self) -> Seq<MTableLookupCell> {
        seq![self.lookup_stack_read_val, self.lookup_stack_read_pos, self.lookup_heap_read1, self.lookup_heap_read2, self.lookup_heap_write1, self.lookup_heap_write2]
    }
}

impl StoreConfigBuilder {
    /// Takes the gadget's cells from the allocator of its block.
    pub fn configure(common: &mut EventTableCellAllocator) -> (r: StoreConfig)
        requires
            old(common).wf(),
            old(common).common_range_index + 8 <= ETABLE_STEP_SIZE,
            old(common).bit_index + 20 <= BIT_CELLS,
            old(common).u64_index + 3 <= 3,
            old(common).u64_on_u8_index + 4 <= 4,
            old(common).unlimited_index + 1 <= ETABLE_STEP_SIZE,
            old(common).mtable_lookup_index + 6 <= 11,
            old(common).offset_len_bits_lookup_index < 4,
            old(common).pow_table_lookup_index + 1 <= 3,
        ensures
            store_layout(r, *old(common)),
            r.wf(),
            final(common).wf(),
    {
        let ghost a = *old(common);
        let opcode_store_offset = common.alloc_common_range_value();
        let store_start_block_index = common.alloc_common_range_value();
        let store_start_block_inner_offset = common.alloc_common_range_value();
        let store_start_block_inner_offset_helper = common.alloc_common_range_value();
        let store_end_block_index = common.alloc_common_range_value();
        let store_end_block_inner_offset = common.alloc_common_range_value();
        let store_end_block_inner_offset_helper = common.alloc_common_range_value();
        let load_value1 = common.alloc_u64_on_u8();
        let load_value2 = common.alloc_u64_on_u8();
        let store_value1 = common.alloc_u64_on_u8();
        let store_value2 = common.alloc_u64_on_u8();
        let offset_modulus = common.alloc_u64();
        let store_raw_value = common.alloc_u64();
        let store_base = common.alloc_u64();
        let store_wrapped_value = common.alloc_unlimited_value();
        let mask_bits = alloc_bits(common, 16);
        let is_one_byte = common.alloc_bit_value();
        let is_two_bytes = common.alloc_bit_value();
        let is_four_bytes = common.alloc_bit_value();
        let is_eight_bytes = common.alloc_bit_value();
        let vtype = common.alloc_common_range_value();
        let lookup_stack_read_val = common.alloc_mtable_lookup();
        let lookup_stack_read_pos = common.alloc_mtable_lookup();
        let lookup_heap_read1 = common.alloc_mtable_lookup();
        let lookup_heap_read2 = common.alloc_mtable_lookup();
        let lookup_heap_write1 = common.alloc_mtable_lookup();
        let lookup_heap_write2 = common.alloc_mtable_lookup();
        let lookup_offset_len_bits = common.alloc_offset_len_bits_table_lookup();
        let lookup_pow = common.alloc_pow_table_lookup();
        let r = StoreConfig {
            opcode_store_offset,
            store_start_block_index,
            store_start_block_inner_offset,
            store_start_block_inner_offset_helper,
            store_end_block_index,
            store_end_block_inner_offset,
            store_end_block_inner_offset_helper,
            load_value1,
            load_value2,
            store_value1,
            store_value2,
            offset_modulus,
            store_raw_value,
            store_base,
            store_wrapped_value,
            mask_bits,
            is_one_byte,
            is_two_bytes,
            is_four_bytes,
            is_eight_bytes,
            vtype,
            lookup_stack_read_val,
            lookup_stack_read_pos,
            lookup_heap_read1,
            lookup_heap_read2,
            lookup_heap_write1,
            lookup_heap_write2,
            lookup_offset_len_bits,
            lookup_pow,
        };
        proof {
            let b = a.bit_index as int;
            assert(r.mask_bits@ =~= Seq::new(16, |i: int| bit_cell_at(b + i)));
            assert forall|i: int| 0 <= i < 16 implies bit_cell_ok(#[trigger] r.mask_bits@[i]) by {
                assert(r.mask_bits@[i] == bit_cell_at(b + i));
            }
        }
        r
    }
}

/// The values that a store step puts in the gadget's cells.
#[derive(Clone, Copy, Debug, PartialEq, Eq, Structural)]
pub struct StoreWitness {
    pub offset: u16,
    pub start_block: u16,
    pub start_inner: u16,
    pub start_helper: u16,
    pub end_block: u16,
    pub end_inner: u16,
    pub end_helper: u16,
    pub load_value1: u64,
    pub load_value2: u64,
    pub store_value1: u64,
    pub store_value2: u64,
    pub mask: u64,
    pub offset_modulus: u64,
    pub raw_value: u64,
    pub base: u64,
    pub wrapped_value: u64,
    pub is_one_byte: bool,
    pub is_two_bytes: bool,
    pub is_four_bytes: bool,
    pub is_eight_bytes: bool,
    pub vtype: u16,
    pub pow: u64,
}

/// The values that the gadget assigns for a store step with these fields.
pub open spec fn store_witness_of(
    vtype: VarType,
    store_size: MemoryStoreSize,
    offset: u32,
    raw_address: u32,
    effective_address: u32,
    pre_block_value: u64,
    updated_block_value: u64,
    pre_block_value2: u64,
    updated_block_value2: u64,
    value: u64,
) -> StoreWitness {
    let len = store_byte_size(store_size);
    let start = effective_address as int;
    let end = start + len - 1;
    let inner = (start % 8) as nat;
    StoreWitness {
        offset: offset as u16,
        start_block: (start / 8) as u16,
        start_inner: inner as u16,
        start_helper: (7 - inner) as u16,
        end_block: (end / 8) as u16,
        end_inner: (end % 8) as u16,
        end_helper: (7 - end % 8) as u16,
        load_value1: pre_block_value,
        load_value2: pre_block_value2,
        store_value1: updated_block_value,
        store_value2: updated_block_value2,
        mask: offset_len_bits(inner, len) as u64,
        offset_modulus: pow2(8 * inner) as u64,
        raw_value: value,
        base: raw_address as u64,
        wrapped_value: (value as int % pow2(8 * len) as int) as u64,
        is_one_byte: len == 1,
        is_two_bytes: len == 2,
        is_four_bytes: len == 4,
        is_eight_bytes: len == 8,
        vtype: vtype_number(vtype),
        pow: (8 * inner) as u64,
    }
}

/// The values that the gadget assigns for a store step.
pub open spec fn spec_store_witness(step: StepInfo) -> StoreWitness {
    match step {
        StepInfo::Store {
            vtype,
            store_size,
            offset,
            raw_address,
            effective_address,
            pre_block_value,
            updated_block_value,
            pre_block_value2,
            updated_block_value2,
            value,
            ..
        } => store_witness_of(
            vtype,
            store_size,
            offset,
            raw_address,
            effective_address,
            pre_block_value,
            updated_block_value,
            pre_block_value2,
            updated_block_value2,
            value,
        ),
        _ => store_witness_of(VarType::I32, MemoryStoreSize::Byte32, 0, 0, 0, 0, 0, 0, 0, 0),
    }
}

/// The store step's cells fit their ranges: the offset and the indices of
/// the blocks that the store touches fit in two bytes.
pub open spec fn store_in_range(step: StepInfo) -> bool {
    match step {
        StepInfo::Store { store_size, offset, effective_address, .. } => {
            &&& offset < 0x10000
            &&& (effective_address + store_byte_size(store_size) - 1) / 8 < 0x10000
        },
        _ => false,
    }
}

/// Computes the values that the gadget assigns for a store step.
pub fn store_step_witness(step: &StepInfo) -> (w: StoreWitness)
    requires
        store_in_range(*step),
    ensures
        w == spec_store_witness(*step),
{
    match step {
        StepInfo::Store {
            vtype,
            store_size,
            offset,
            raw_address,
            effective_address,
            pre_block_value,
            updated_block_value,
            pre_block_value2,
            updated_block_value2,
            value,
            ..
        } => {
            let len = store_size.byte_size();
            let start: u64 = *effective_address as u64;
            let end: u64 = start + len - 1;
            let inner: u64 = start % 8;
            let pl = pow2_u64(len);
            let pi = pow2_u64(inner);
            proof {
                lemma2_to64();
                assert((pl - 1) * pi <= 255 * 128) by (nonlinear_arith)
                    requires
                        1 <= pl <= 256,
                        1 <= pi <= 128,
                ;
            }
            let bits: u64 = (pl - 1) * pi;
            let modulus = pow2_u64(inner * 8);
            let wrapped: u64 = if len == 8 {
                proof {
                    vstd::arithmetic::div_mod::lemma_small_mod(*value as nat, pow2(64));
                }
                *value
            } else {
                let m: u64 = pow2_u64(len * 8) - 1;
                proof {
                    vstd::bits::lemma_u64_low_bits_mask_is_mod(*value, (len * 8) as nat);
                }
                *value & m
            };
            let vt: u16 = match vtype {
                VarType::I32 => 1,
                VarType::I64 => 2,
            };
            StoreWitness {
                offset: *offset as u16,
                start_block: (start / 8) as u16,
                start_inner: inner as u16,
                start_helper: (7 - inner) as u16,
                end_block: (end / 8) as u16,
                end_inner: (end % 8) as u16,
                end_helper: (7 - end % 8) as u16,
                load_value1: *pre_block_value,
                load_value2: *pre_block_value2,
                store_value1: *updated_block_value,
                store_value2: *updated_block_value2,
                mask: bits,
                offset_modulus: modulus,
                raw_value: *value,
                base: *raw_address as u64,
                wrapped_value: wrapped,
                is_one_byte: len == 1,
                is_two_bytes: len == 2,
                is_four_bytes: len == 4,
                is_eight_bytes: len == 8,
                vtype: vt,
                pow: inner * 8,
            }
        },
        _ => {
            proof {
                assert(false);
            }
            StoreWitness {
                offset: 0,
                start_block: 0,
                start_inner: 0,
                start_helper: 0,
                end_block: 0,
                end_inner: 0,
                end_helper: 0,
                load_value1: 0,
                load_value2: 0,
                store_value1: 0,
                store_value2: 0,
                mask: 0,
                offset_modulus: 0,
                raw_value: 0,
                base: 0,
                wrapped_value: 0,
                is_one_byte: false,
                is_two_bytes: false,
                is_four_bytes: false,
                is_eight_bytes: false,
                vtype: 0,
                pow: 0,
            }
        },
    }
}

/// The assignments of the cells that locate a store.
pub open spec fn store_writes_head(c: StoreConfig, o: int, w: StoreWitness) -> Seq<CellWrite> {
    common_range_writes(c.opcode_store_offset, o, w.offset) + common_range_writes(
        c.store_start_block_index,
        o,
        w.start_block,
    ) + common_range_writes(c.store_start_block_inner_offset, o, w.start_inner) + common_range_writes(
        c.store_start_block_inner_offset_helper,
        o,
        w.start_helper,
    ) + common_range_writes(c.store_end_block_index, o, w.end_block) + common_range_writes(
        c.store_end_block_inner_offset,
        o,
        w.end_inner,
    ) + common_range_writes(c.store_end_block_inner_offset_helper, o, w.end_helper)
}

/// The assignments of the blocks before and after the store, and of the
/// mask.
pub open spec fn store_writes_blocks(c: StoreConfig, o: int, w: StoreWitness) -> Seq<CellWrite> {
    u64_on_u8_cell_writes(c.load_value1, o, w.load_value1) + u64_on_u8_cell_writes(c.store_value1, o, w.store_value1)
        + u64_on_u8_cell_writes(c.load_value2, o, w.load_value2) + u64_on_u8_cell_writes(
        c.store_value2,
        o,
        w.store_value2,
    ) + bool_writes(c.mask_bits@, o, mask_values(w.mask))
}

/// The assignments of the values of the store, of the flags, of the value
/// type and of the power lookup.
pub open spec fn store_writes_values(c: StoreConfig, o: int, w: StoreWitness) -> Seq<CellWrite> {
    u64_cell_writes(c.offset_modulus, o, w.offset_modulus) + u64_cell_writes(c.store_raw_value, o, w.raw_value)
        + u64_cell_writes(c.store_base, o, w.base) + one_write(
        c.store_wrapped_value.col,
        o,
        c.store_wrapped_value.rot as int,
        fv_u64(w.wrapped_value),
    )
}

/// The assignments of the flags, of the value type and of the power lookup.
pub open spec fn store_writes_flags(c: StoreConfig, o: int, w: StoreWitness) -> Seq<CellWrite> {
    bit_writes(c.is_one_byte, o, w.is_one_byte) + bit_writes(c.is_two_bytes, o, w.is_two_bytes) + bit_writes(
        c.is_four_bytes,
        o,
        w.is_four_bytes,
    ) + bit_writes(c.is_eight_bytes, o, w.is_eight_bytes) + common_range_writes(c.vtype, o, w.vtype)
}

/// The assignment of the power table lookup.
pub open spec fn store_writes_pow(c: StoreConfig, o: int, w: StoreWitness) -> Seq<CellWrite> {
    one_write(c.lookup_pow.col, o, c.lookup_pow.rot as int, pow_table_value(w.pow))
}

/// The assignments that the gadget makes for a store, in order.
pub open spec fn store_writes(c: StoreConfig, o: int, w: StoreWitness) -> Seq<CellWrite> {
    store_writes_head(c, o, w) + store_writes_blocks(c, o, w) + store_writes_values(c, o, w) + store_writes_flags(
        c,
        o,
        w,
    ) + store_writes_pow(c, o, w)
}

impl StoreConfig {
    fn assign_head(&self, ctx: &mut Context, w: &StoreWitness)
        requires
            self.wf(),
            old(ctx).offset + 40 <= i32::MAX,
        ensures
            final(ctx).offset == old(ctx).offset,
            final(ctx).writes@ == old(ctx).writes@ + store_writes_head(*self, old(ctx).offset as int, *w),
    {
        self.opcode_store_offset.assign(ctx, w.offset);
        self.store_start_block_index.assign(ctx, w.start_block);
        self.store_start_block_inner_offset.assign(ctx, w.start_inner);
        self.store_start_block_inner_offset_helper.assign(ctx, w.start_helper);
        self.store_end_block_index.assign(ctx, w.end_block);
        self.store_end_block_inner_offset.assign(ctx, w.end_inner);
        self.store_end_block_inner_offset_helper.assign(ctx, w.end_helper);
        proof {
            assert(ctx.writes@ =~= old(ctx).writes@ + store_writes_head(*self, old(ctx).offset as int, *w));
        }
    }

    fn assign_blocks(&self, ctx: &mut Context, w: &StoreWitness)
        requires
            self.wf(),
            old(ctx).offset + 40 <= i32::MAX,
        ensures
            final(ctx).offset == old(ctx).offset,
            final(ctx).writes@ == old(ctx).writes@ + store_writes_blocks(*self, old(ctx).offset as int, *w),
    {
        self.load_value1.assign(ctx, w.load_value1);
        self.store_value1.assign(ctx, w.store_value1);
        self.load_value2.assign(ctx, w.load_value2);
        self.store_value2.assign(ctx, w.store_value2);
        let mut mvals: Vec<bool> = Vec::new();
        let mut i: u64 = 0;
        while i < 16
            invariant
                i <= 16,
                mvals@ == mask_values(w.mask).take(i as int),
            decreases 16 - i,
        {
            let b = bit_at(w.mask, i);
            mvals.push(b);
            i = i + 1;
            proof {
                assert(mvals@ =~= mask_values(w.mask).take(i as int));
            }
        }
        proof {
            assert(mvals@ =~= mask_values(w.mask));
        }
        assign_bool_cells(&self.mask_bits, ctx, &mvals);
        proof {
            assert(ctx.writes@ =~= old(ctx).writes@ + store_writes_blocks(*self, old(ctx).offset as int, *w));
        }
    }

    fn assign_values(&self, ctx: &mut Context, w: &StoreWitness)
        requires
            self.wf(),
            old(ctx).offset + 40 <= i32::MAX,
        ensures
            final(ctx).offset == old(ctx).offset,
            final(ctx).writes@ == old(ctx).writes@ + store_writes_values(*self, old(ctx).offset as int, *w),
    {
        self.offset_modulus.assign(ctx, w.offset_modulus);
        self.store_raw_value.assign(ctx, w.raw_value);
        self.store_base.assign(ctx, w.base);
        self.store_wrapped_value.assign(ctx, FieldValue::from_u64(w.wrapped_value));
        proof {
            assert(ctx.writes@ =~= old(ctx).writes@ + store_writes_values(*self, old(ctx).offset as int, *w));
        }
    }

    fn assign_flags(&self, ctx: &mut Context, w: &StoreWitness)
        requires
            self.wf(),
            old(ctx).offset + 40 <= i32::MAX,
        ensures
            final(ctx).offset == old(ctx).offset,
            final(ctx).writes@ == old(ctx).writes@ + store_writes_flags(*self, old(ctx).offset as int, *w),
    {
        let ghost o = old(ctx).offset as int;
        let ghost s0 = old(ctx).writes@;
        let ghost f1 = bit_writes(self.is_one_byte, o, w.is_one_byte) + bit_writes(self.is_two_bytes, o, w.is_two_bytes);
        let ghost f2 = f1 + bit_writes(self.is_four_bytes, o, w.is_four_bytes);
        let ghost f3 = f2 + bit_writes(self.is_eight_bytes, o, w.is_eight_bytes);
        self.is_one_byte.assign(ctx, w.is_one_byte);
        self.is_two_bytes.assign(ctx, w.is_two_bytes);
        proof {
            lemma_append_assoc(s0, bit_writes(self.is_one_byte, o, w.is_one_byte), bit_writes(self.is_two_bytes, o, w.is_two_bytes));
        }
        self.is_four_bytes.assign(ctx, w.is_four_bytes);
        proof {
            lemma_append_assoc(s0, f1, bit_writes(self.is_four_bytes, o, w.is_four_bytes));
        }
        self.is_eight_bytes.assign(ctx, w.is_eight_bytes);
        proof {
            lemma_append_assoc(s0, f2, bit_writes(self.is_eight_bytes, o, w.is_eight_bytes));
        }
        self.vtype.assign(ctx, w.vtype);
        proof {
            lemma_append_assoc(s0, f3, common_range_writes(self.vtype, o, w.vtype));
        }
    }

    /// Assigns the gadget's cells for a store step, and gives the values
    /// assigned.
    fn assign_cells(&self, ctx: &mut Context, step: &StepInfo) -> (w: StoreWitness)
        requires
            self.wf(),
            old(ctx).offset + 40 <= i32::MAX,
            store_in_range(*step),
        ensures
            w == spec_store_witness(*step),
            final(ctx).offset == old(ctx).offset,
            final(ctx).writes@ == old(ctx).writes@ + store_writes(*self, old(ctx).offset as int, w),
    {
        let w = store_step_witness(step);
        let ghost s0 = old(ctx).writes@;
        let ghost o = old(ctx).offset as int;
        self.assign_head(ctx, &w);
        self.assign_blocks(ctx, &w);
        self.assign_values(ctx, &w);
        self.assign_flags(ctx, &w);
        let ghost s4 = ctx.writes@;
        self.lookup_pow.assign(ctx, w.pow);
        proof {
            assert(ctx.writes@ == s4 + store_writes_pow(*self, o, w));
            lemma_append_assoc(s0, store_writes_head(*self, o, w), store_writes_blocks(*self, o, w));
            lemma_append_assoc(
                s0,
                store_writes_head(*self, o, w) + store_writes_blocks(*self, o, w),
                store_writes_values(*self, o, w),
            );
            lemma_append_assoc(
                s0,
                store_writes_head(*self, o, w) + store_writes_blocks(*self, o, w) + store_writes_values(*self, o, w),
                store_writes_flags(*self, o, w),
            );
            lemma_append_assoc(
                s0,
                store_writes_head(*self, o, w) + store_writes_blocks(*self, o, w) + store_writes_values(*self, o, w)
                    + store_writes_flags(*self, o, w),
                store_writes_pow(*self, o, w),
            );
        }
        w
    }

    /// Assigns the step's cells, as `assign_cells` does, and the
    /// encodings `enc` of the step's stack and memory accesses to its
    /// memory table lookup cells, in order.
    pub fn assign(&self, ctx: &mut Context, step: &StepInfo, enc: &Vec<FieldValue>) -> (w: StoreWitness)
        requires
            enc.len() == 6,
            self.wf(),
            old(ctx).offset + 40 <= i32::MAX,
            store_in_range(*step),
        ensures
            w == spec_store_witness(*step),
            final(ctx).offset == old(ctx).offset,
            final(ctx).writes@ == old(ctx).writes@ + store_writes(*self, old(ctx).offset as int, w) + mtable_lookup_writes(
                self.lookups(),
                old(ctx).offset as int,
                enc@,
            ),
    {
        let w = self.assign_cells(ctx, step);
        let mut cells: Vec<MTableLookupCell> = Vec::new();
        cells.push(self.lookup_stack_read_val);
        cells.push(self.lookup_stack_read_pos);
        cells.push(self.lookup_heap_read1);
        cells.push(self.lookup_heap_read2);
        cells.push(self.lookup_heap_write1);
        cells.push(self.lookup_heap_write2);
        proof {
            assert(cells@ =~= self.lookups());
        }
        assign_mtable_lookups(ctx, &cells, enc);
        w
    }
}

/// The sum over the bytes `i` below `k` of `v` placed at byte `i`, where
/// bit `shift + i` of the mask is clear.
pub open spec fn unmasked_bytes(v: u64, mask: u64, shift: nat, k: nat) -> int
    decreases k,
{
    if k == 0 {
        0
    } else {
        unmasked_bytes(v, mask, shift, (k - 1) as nat) + byte(v, k - 1) * pow(256, (k - 1) as nat) * (1 - b2i(
            bit_of(mask as int, (shift + k - 1) as nat),
        ))
    }
}

/// Byte `i` of `v` at its place, spelled out from its two nibbles.
pub open spec fn store_byte_value(v: u64, i: nat) -> int {
    nibble(v, 2 * i as int) * pow(256, i) + nibble(v, 2 * i as int + 1) * pow(256, i) * 16
}

/// The low bytes of the raw value, as many as the length flags select.
pub open spec fn store_wrap_sum(w: StoreWitness) -> int {
    let has_two = b2i(w.is_two_bytes) + b2i(w.is_four_bytes) + b2i(w.is_eight_bytes);
    let has_four = b2i(w.is_four_bytes) + b2i(w.is_eight_bytes);
    let has_eight = b2i(w.is_eight_bytes);
    store_byte_value(w.raw_value, 0) + store_byte_value(w.raw_value, 1) * has_two + (store_byte_value(w.raw_value, 2)
        + store_byte_value(w.raw_value, 3)) * has_four + (store_byte_value(w.raw_value, 4) + store_byte_value(
        w.raw_value,
        5,
    ) + store_byte_value(w.raw_value, 6) + store_byte_value(w.raw_value, 7)) * has_eight
}

/// The number of bytes that the length flags select.
pub open spec fn store_len(w: StoreWitness) -> int {
    1 + b2i(w.is_two_bytes) + 3 * b2i(w.is_four_bytes) + 7 * b2i(w.is_eight_bytes)
}

/// The gates of the gadget and its two table lookups, on the values that a
/// step assigned: the offsets in the blocks are at most seven; the last
/// byte is `len - 1` past the first; the first byte is the base address
/// plus the offset; one length flag is set; the mask holds the bits from
/// the offset, as many as the length, and the offset modulus is two to
/// eight times the offset; the wrapped value is the raw value's low bytes;
/// the wrapped value, shifted to its offset, is the masked bytes of the
/// blocks after the store; and the bytes outside the mask are the same
/// before and after the store.
pub open spec fn store_gates(w: StoreWitness) -> bool {
    &&& fzero(w.start_inner + w.start_helper - 7)
    &&& fzero(w.end_inner + w.end_helper - 7)
    &&& fzero(w.start_block * 8 + w.start_inner + store_len(w) - 1 - w.end_block * 8 - w.end_inner)
    &&& fzero(w.base + w.offset - w.start_block * 8 - w.start_inner)
    &&& fzero(b2i(w.is_one_byte) + b2i(w.is_two_bytes) + b2i(w.is_four_bytes) + b2i(w.is_eight_bytes) - 1)
    &&& mask_weight(w.mask) == offset_len_bits(w.start_inner as nat, store_len(w) as nat)
    &&& fzero(pow_table_entry(w.pow as nat) - pow_table_encode(w.offset_modulus as int, 8 * w.start_inner))
    &&& in_pow_table(pow_table_entry(w.pow as nat))
    &&& fzero(store_wrap_sum(w) - w.wrapped_value)
    &&& fzero(
        w.wrapped_value * w.offset_modulus - masked_bytes(w.store_value1, w.mask, 0, 8) - pow2(64)
            * masked_bytes(w.store_value2, w.mask, 8, 8),
    )
    &&& fzero(
        unmasked_bytes(w.load_value1, w.mask, 0, 8) - unmasked_bytes(w.store_value1, w.mask, 0, 8) + pow2(64) * (
        unmasked_bytes(w.load_value2, w.mask, 8, 8) - unmasked_bytes(w.store_value2, w.mask, 8, 8)),
    )
}

/// Whether the gates that locate the store hold.
fn store_location_hold(w: &StoreWitness) -> (b: bool)
    ensures
        b == ({
            &&& fzero(w.start_inner + w.start_helper - 7)
            &&& fzero(w.end_inner + w.end_helper - 7)
            &&& fzero(w.start_block * 8 + w.start_inner + store_len(*w) - 1 - w.end_block * 8 - w.end_inner)
            &&& fzero(w.base + w.offset - w.start_block * 8 - w.start_inner)
            &&& fzero(b2i(w.is_one_byte) + b2i(w.is_two_bytes) + b2i(w.is_four_bytes) + b2i(w.is_eight_bytes) - 1)
        }),
{
    let two: i128 = if w.is_two_bytes { 1 } else { 0 };
    let four: i128 = if w.is_four_bytes { 1 } else { 0 };
    let eight: i128 = if w.is_eight_bytes { 1 } else { 0 };
    let one: i128 = if w.is_one_byte { 1 } else { 0 };
    let len: i128 = 1 + two + 3 * four + 7 * eight;
    let g1: i128 = w.start_inner as i128 + w.start_helper as i128 - 7;
    let g2: i128 = w.end_inner as i128 + w.end_helper as i128 - 7;
    let g3: i128 = w.start_block as i128 * 8 + w.start_inner as i128 + len - 1 - w.end_block as i128 * 8
        - w.end_inner as i128;
    let g4: i128 = w.base as i128 + w.offset as i128 - w.start_block as i128 * 8 - w.start_inner as i128;
    let g5: i128 = one + two + four + eight - 1;
    proof {
        assert(len == store_len(*w));
        crate::circuits::utils::lemma_fzero_small(g1 as int);
        crate::circuits::utils::lemma_fzero_small(g2 as int);
        crate::circuits::utils::lemma_fzero_small(g3 as int);
        crate::circuits::utils::lemma_fzero_small(g4 as int);
        crate::circuits::utils::lemma_fzero_small(g5 as int);
    }
    g1 == 0 && g2 == 0 && g3 == 0 && g4 == 0 && g5 == 0
}

/// The wrapped sum of the raw value's bytes, as `store_wrap_sum` states it.
fn store_wrap_sum_of(w: &StoreWitness) -> (r: u128)
    ensures
        r == store_wrap_sum(*w),
{
    let v = w.raw_value;
    let b0 = byte_at(v, 0) as u128;
    let b1 = byte_at(v, 1) as u128 * 0x100;
    let b2 = byte_at(v, 2) as u128 * 0x1_0000;
    let b3 = byte_at(v, 3) as u128 * 0x100_0000;
    let b4 = byte_at(v, 4) as u128 * 0x1_0000_0000;
    let b5 = byte_at(v, 5) as u128 * 0x100_0000_0000;
    let b6 = byte_at(v, 6) as u128 * 0x1_0000_0000_0000;
    let b7 = byte_at(v, 7) as u128 * 0x100_0000_0000_0000;
    let f2: u128 = if w.is_two_bytes { 1 } else { 0 };
    let f4: u128 = if w.is_four_bytes { 1 } else { 0 };
    let f8: u128 = if w.is_eight_bytes { 1 } else { 0 };
    let h2: u128 = f2 + f4 + f8;
    let h4: u128 = f4 + f8;
    proof {
        reveal_with_fuel(pow, 8);
        lemma_store_byte_values(v);
        assert(store_byte_value(v, 0) == b0);
        assert(store_byte_value(v, 1) == b1);
        assert(store_byte_value(v, 2) == b2);
        assert(store_byte_value(v, 3) == b3);
        assert(store_byte_value(v, 4) == b4);
        assert(store_byte_value(v, 5) == b5);
        assert(store_byte_value(v, 6) == b6);
        assert(store_byte_value(v, 7) == b7);
        assert(b1 * h2 <= 0xff00 * 3) by (nonlinear_arith)
            requires
                b1 <= 0xff00,
                h2 <= 3,
        ;
        assert((b2 + b3) * h4 <= 0xffff_0000 * 2) by (nonlinear_arith)
            requires
                b2 + b3 <= 0xffff_0000,
                h4 <= 2,
        ;
        assert((b4 + b5 + b6 + b7) * f8 <= 0xffff_ffff_0000_0000) by (nonlinear_arith)
            requires
                b4 + b5 + b6 + b7 <= 0xffff_ffff_0000_0000,
                f8 <= 1,
        ;
    }
    b0 + b1 * h2 + (b2 + b3) * h4 + (b4 + b5 + b6 + b7) * f8
}

/// Whether the gates hold on the values `w` that a store step assigned;
/// the mask has the sixteen bits of its cells.
pub fn store_gates_hold(w: &StoreWitness) -> (b: bool)
    requires
        w.mask < 0x10000,
    ensures
        b == store_gates(*w),
{
    let len: u64 = 1 + (if w.is_two_bytes { 1 } else { 0 }) + (if w.is_four_bytes { 3 } else { 0 }) + (if w.is_eight_bytes {
        7
    } else {
        0
    });
    let loc = store_location_hold(w);
    let mask_ok = mask_matches(w.mask, w.start_inner, len);
    let pow_ok = pow_lookup_ok(w.pow, w.offset_modulus, 8 * (w.start_inner as u64));
    let sum = store_wrap_sum_of(w);
    let wrap_ok = sum == w.wrapped_value as u128;
    let m1 = masked_bytes_of(w.store_value1, w.mask, 0);
    let m2 = masked_bytes_of(w.store_value2, w.mask, 8);
    assert((w.wrapped_value as int) * (w.offset_modulus as int) <= 0xffff_ffff_ffff_ffff * 0xffff_ffff_ffff_ffff) by (nonlinear_arith);
    let shifted: u128 = (w.wrapped_value as u128) * (w.offset_modulus as u128);
    let placed: u128 = m1 + m2 * 0x1_0000_0000_0000_0000;
    let ul1 = unmasked_bytes_of(w.load_value1, w.mask, 0);
    let us1 = unmasked_bytes_of(w.store_value1, w.mask, 0);
    let ul2 = unmasked_bytes_of(w.load_value2, w.mask, 8);
    let us2 = unmasked_bytes_of(w.store_value2, w.mask, 8);
    let kept_before: u128 = ul1 + ul2 * 0x1_0000_0000_0000_0000;
    let kept_after: u128 = us1 + us2 * 0x1_0000_0000_0000_0000;
    proof {
        lemma2_to64();
        vstd::arithmetic::power2::lemma_pow2_adds(64, 64);
        crate::circuits::utils::lemma_fzero_small(store_wrap_sum(*w) - w.wrapped_value);
        crate::circuits::utils::lemma_fzero_small(shifted - m1 - pow2(64) * m2);
        crate::circuits::utils::lemma_fzero_small(ul1 - us1 + pow2(64) * (ul2 - us2));
    }
    loc && mask_ok && pow_ok && wrap_ok && shifted == placed && kept_before == kept_after
}

/// A store step at the address that its base address and offset give,
/// whose blocks after the store are the blocks before it with the bytes
/// from the offset, as many as the store's width, replaced by the value's
/// low bytes. Within one block of eight bytes, the first block keeps its
/// bytes below the offset and above the value, and the next block is left
/// as it was. Across two blocks, the first block keeps its bytes below the
/// offset and takes the value's low bytes up to its end, and the next block
/// takes the value's remaining bytes at its start and keeps the rest.
pub open spec fn store_step_valid(step: StepInfo) -> bool {
    match step {
        StepInfo::Store {
            store_size,
            offset,
            raw_address,
            effective_address,
            pre_block_value,
            updated_block_value,
            pre_block_value2,
            updated_block_value2,
            value,
            ..
        } => {
            let len = store_byte_size(store_size);
            let inner = (effective_address as int % 8) as nat;
            let p = pow2(8 * inner) as int;
            let l = pow2(8 * len) as int;
            &&& store_in_range(step)
            &&& effective_address == raw_address + offset
            &&& if inner + len <= 8 {
                &&& updated_block_value as int % p == pre_block_value as int % p
                &&& (updated_block_value as int / p) % l == value as int % l
                &&& updated_block_value as int / (p * l) == pre_block_value as int / (p * l)
                &&& updated_block_value2 == pre_block_value2
            } else {
                let head = pow2((8 * (8 - inner)) as nat) as int;
                let tail = pow2((8 * (inner + len - 8)) as nat) as int;
                &&& updated_block_value as int % p == pre_block_value as int % p
                &&& updated_block_value as int / p == value as int % head
                &&& updated_block_value2 as int % tail == (value as int % l) / head
                &&& updated_block_value2 as int / tail == pre_block_value2 as int / tail
            }
        },
        _ => false,
    }
}

/// A byte is its low nibble plus sixteen times its high nibble.
proof fn lemma_byte_nibbles(v: u64, i: nat)
    requires
        i < 8,
    ensures
        byte(v, i as int) == nibble(v, 2 * i as int) + 16 * nibble(v, 2 * i as int + 1),
{
    lemma_digit_index(v as int, 256, 8, i);
    lemma_digit_index(v as int, 16, 16, 2 * i);
    lemma_digit_index(v as int, 16, 16, 2 * i + 1);
    vstd::arithmetic::power::lemma_pow_multiplies(16, 2, i);
    assert(pow(16, 2) == 256) by {
        reveal_with_fuel(pow, 3);
    }
    vstd::arithmetic::power::lemma_pow_adds(16, 2 * i, 1);
    vstd::arithmetic::power::lemma_pow1(16);
    vstd::arithmetic::power::lemma_pow_positive(16, 2 * i);
    let q = pow(16, 2 * i);
    let x = v as int / q;
    vstd::arithmetic::div_mod::lemma_div_pos_is_pos(v as int, q);
    vstd::arithmetic::div_mod::lemma_div_denominator(v as int, q, 16);
    vstd::arithmetic::div_mod::lemma_mod_breakdown(x, 16, 16);
}

/// The masked bytes below `k` and the unmasked bytes below `k` together
/// are the remainder by 256 to the `k`.
proof fn lemma_unmasked_bytes(v: u64, mask: u64, shift: nat, k: nat)
    requires
        k <= 8,
    ensures
        unmasked_bytes(v, mask, shift, k) + masked_bytes(v, mask, shift, k) == v as int % pow(256, k),
    decreases k,
{
    if k == 0 {
        reveal(pow);
    } else {
        lemma_unmasked_bytes(v, mask, shift, (k - 1) as nat);
        lemma_low_bytes_step(v, (k - 1) as nat);
        let t = byte(v, k - 1) * pow(256, (k - 1) as nat);
        let b = b2i(bit_of(mask as int, (shift + k - 1) as nat));
        assert(t * (1 - b) + t * b == t) by (nonlinear_arith);
    }
}

/// The low bytes of `v` below `k`, each at its place, are `v`'s remainder
/// by 256 to the `k`.
proof fn lemma_low_bytes(v: u64, k: nat)
    requires
        k <= 8,
    ensures
        masked_bytes(v, 255, 0, k) == v as int % pow(256, k),
{
    assert forall|i: nat| i < 8 implies (#[trigger] bit_of(255, 0 + i) <==> (0 <= i && i < 8)) by {
        lemma_offset_len_bits(0, 8, i);
        lemma2_to64();
    }
    lemma_masked_bytes_range(v, 255, 0, 0, 8, k);
    reveal(pow);
}

/// The gates that locate a valid store, and its table lookups, hold.
proof fn lemma_store_complete_location(step: StepInfo)
    requires
        store_step_valid(step),
    ensures
        ({
            let w = spec_store_witness(step);
            &&& fzero(w.start_inner + w.start_helper - 7)
            &&& fzero(w.end_inner + w.end_helper - 7)
            &&& fzero(w.start_block * 8 + w.start_inner + store_len(w) - 1 - w.end_block * 8 - w.end_inner)
            &&& fzero(w.base + w.offset - w.start_block * 8 - w.start_inner)
            &&& fzero(b2i(w.is_one_byte) + b2i(w.is_two_bytes) + b2i(w.is_four_bytes) + b2i(w.is_eight_bytes) - 1)
            &&& mask_weight(w.mask) == offset_len_bits(w.start_inner as nat, store_len(w) as nat)
            &&& fzero(pow_table_entry(w.pow as nat) - pow_table_encode(w.offset_modulus as int, 8 * w.start_inner))
            &&& in_pow_table(pow_table_entry(w.pow as nat))
        }),
{
    let w = spec_store_witness(step);
    let len = store_byte_size(step->store_size);
    let inner = w.start_inner as nat;
    assert(store_len(w) == len);
    lemma2_to64();
    lemma_offset_len_bits(inner, len, 0);
    lemma_mask_weight(w.mask);
    vstd::arithmetic::power2::lemma_pow2_adds(8 * inner, 16);
    vstd::bits::lemma_u64_pow2_no_overflow(8 * inner);
    assert(w.offset_modulus == pow2(8 * inner));
    assert(pow_table_entry((8 * inner) as nat) == pow_table_encode(w.offset_modulus as int, 8 * w.start_inner));
    assert(in_pow_table(pow_table_entry(w.pow as nat)));
}

/// Under the full mask, each byte adds itself at its place.
proof fn lemma_full_mask_step(v: u64, k: nat)
    requires
        1 <= k <= 8,
    ensures
        masked_bytes(v, 255, 0, k) == masked_bytes(v, 255, 0, (k - 1) as nat) + byte(v, k - 1) * pow(
            256,
            (k - 1) as nat,
        ),
{
    lemma_offset_len_bits(0, 8, (k - 1) as nat);
    lemma2_to64();
    assert(bit_of(255, (0 + k - 1) as nat));
    assert(b2i(bit_of(255u64 as int, (0 + k - 1) as nat)) == 1);
    let t = byte(v, k - 1) * pow(256, (k - 1) as nat);
    assert(t * 1 == t);
    assert(masked_bytes(v, 255, 0, k) == masked_bytes(v, 255, 0, (k - 1) as nat) + t * b2i(
        bit_of(255u64 as int, (0 + k - 1) as nat),
    ));
}

/// Each byte of `v` spelled out from its nibbles is the byte at its place.
proof fn lemma_store_byte_values(v: u64)
    ensures
        forall|i: nat| i < 8 ==> #[trigger] store_byte_value(v, i) == byte(v, i as int) * pow(256, i),
{
    assert forall|i: nat| i < 8 implies #[trigger] store_byte_value(v, i) == byte(v, i as int) * pow(256, i) by {
        lemma_byte_nibbles(v, i);
        let p = pow(256, i);
        assert(nibble(v, 2 * i as int) * p + nibble(v, 2 * i as int + 1) * p * 16 == (nibble(v, 2 * i as int) + 16
            * nibble(v, 2 * i as int + 1)) * p) by (nonlinear_arith);
    }
}

/// The low bytes of `v` under the full mask, spelled out.
proof fn lemma_full_mask_sums(v: u64)
    ensures
        ({
            let b0 = store_byte_value(v, 0);
            let b1 = store_byte_value(v, 1);
            let b2 = store_byte_value(v, 2);
            let b3 = store_byte_value(v, 3);
            let b4 = store_byte_value(v, 4);
            let b5 = store_byte_value(v, 5);
            let b6 = store_byte_value(v, 6);
            let b7 = store_byte_value(v, 7);
            &&& masked_bytes(v, 255, 0, 1) == b0
            &&& masked_bytes(v, 255, 0, 2) == b0 + b1
            &&& masked_bytes(v, 255, 0, 4) == b0 + b1 + b2 + b3
            &&& masked_bytes(v, 255, 0, 8) == b0 + b1 + b2 + b3 + b4 + b5 + b6 + b7
        }),
{
    lemma_store_byte_values(v);
    assert(store_byte_value(v, 0) == byte(v, 0) * pow(256, 0));
    assert(store_byte_value(v, 1) == byte(v, 1) * pow(256, 1));
    assert(store_byte_value(v, 2) == byte(v, 2) * pow(256, 2));
    assert(store_byte_value(v, 3) == byte(v, 3) * pow(256, 3));
    assert(store_byte_value(v, 4) == byte(v, 4) * pow(256, 4));
    assert(store_byte_value(v, 5) == byte(v, 5) * pow(256, 5));
    assert(store_byte_value(v, 6) == byte(v, 6) * pow(256, 6));
    assert(store_byte_value(v, 7) == byte(v, 7) * pow(256, 7));
    lemma_full_mask_step(v, 1);
    lemma_full_mask_step(v, 2);
    lemma_full_mask_step(v, 3);
    lemma_full_mask_step(v, 4);
    lemma_full_mask_step(v, 5);
    lemma_full_mask_step(v, 6);
    lemma_full_mask_step(v, 7);
    lemma_full_mask_step(v, 8);
}

/// The wrapped value of a valid store is the raw value's low bytes, as the
/// length flags select them.
proof fn lemma_store_complete_wrap(step: StepInfo)
    requires
        store_step_valid(step),
    ensures
        fzero(store_wrap_sum(spec_store_witness(step)) - spec_store_witness(step).wrapped_value),
{
    let w = spec_store_witness(step);
    let v = w.raw_value;
    let len = store_byte_size(step->store_size);
    lemma_low_bytes(v, len);
    lemma_pow256(len);
    lemma_full_mask_sums(v);
    let b0 = store_byte_value(v, 0);
    let b1 = store_byte_value(v, 1);
    let b2 = store_byte_value(v, 2);
    let b3 = store_byte_value(v, 3);
    let b4 = store_byte_value(v, 4);
    let b5 = store_byte_value(v, 5);
    let b6 = store_byte_value(v, 6);
    let b7 = store_byte_value(v, 7);
    lemma2_to64();
    vstd::arithmetic::div_mod::lemma_mod_bound(v as int, pow2(8 * len) as int);
    assert(w.wrapped_value == v as int % pow2(8 * len) as int);
    if len == 1 {
        assert(store_wrap_sum(w) == b0 + b1 * 0 + (b2 + b3) * 0 + (b4 + b5 + b6 + b7) * 0);
        assert(store_wrap_sum(w) == b0);
    } else if len == 2 {
        assert(store_wrap_sum(w) == b0 + b1 * 1 + (b2 + b3) * 0 + (b4 + b5 + b6 + b7) * 0);
        assert(store_wrap_sum(w) == b0 + b1);
    } else if len == 4 {
        assert(store_wrap_sum(w) == b0 + b1 * 1 + (b2 + b3) * 1 + (b4 + b5 + b6 + b7) * 0);
        assert(store_wrap_sum(w) == b0 + b1 + b2 + b3);
    } else {
        assert(store_wrap_sum(w) == b0 + b1 * 1 + (b2 + b3) * 1 + (b4 + b5 + b6 + b7) * 1);
        assert(store_wrap_sum(w) == b0 + b1 + b2 + b3 + b4 + b5 + b6 + b7);
    }
}

/// The block after a valid store holds the wrapped value at the store's
/// offset, and the bytes outside the mask are those of the block before.
proof fn lemma_store_complete_blocks(step: StepInfo)
    requires
        store_step_valid(step),
    ensures
        ({
            let w = spec_store_witness(step);
            &&& fzero(
                w.wrapped_value * w.offset_modulus - masked_bytes(w.store_value1, w.mask, 0, 8) - pow2(64)
                    * masked_bytes(w.store_value2, w.mask, 8, 8),
            )
            &&& fzero(
                unmasked_bytes(w.load_value1, w.mask, 0, 8) - unmasked_bytes(w.store_value1, w.mask, 0, 8) + pow2(64)
                    * (unmasked_bytes(w.load_value2, w.mask, 8, 8) - unmasked_bytes(w.store_value2, w.mask, 8, 8)),
            )
        }),
{
    let w = spec_store_witness(step);
    let len = store_byte_size(step->store_size);
    let inner = w.start_inner as nat;
    if inner + len <= 8 {
        lemma_store_complete_one_block(step);
    } else {
        lemma_store_complete_two_blocks(step);
    }
}

/// The block constraints hold for a valid store within one block.
proof fn lemma_store_complete_one_block(step: StepInfo)
    requires
        store_step_valid(step),
        (step->Store_effective_address as int % 8) + store_byte_size(step->store_size) <= 8,
    ensures
        ({
            let w = spec_store_witness(step);
            &&& fzero(
                w.wrapped_value * w.offset_modulus - masked_bytes(w.store_value1, w.mask, 0, 8) - pow2(64)
                    * masked_bytes(w.store_value2, w.mask, 8, 8),
            )
            &&& fzero(
                unmasked_bytes(w.load_value1, w.mask, 0, 8) - unmasked_bytes(w.store_value1, w.mask, 0, 8) + pow2(64)
                    * (unmasked_bytes(w.load_value2, w.mask, 8, 8) - unmasked_bytes(w.store_value2, w.mask, 8, 8)),
            )
        }),
{
    let w = spec_store_witness(step);
    let len = store_byte_size(step->store_size);
    let inner = w.start_inner as nat;
    let pre = w.load_value1;
    let upd = w.store_value1;
    lemma2_to64();
    lemma_pow256(inner);
    lemma_pow256(len);
    lemma_pow256(inner + len);
    lemma_pow256(8);
    vstd::arithmetic::power::lemma_pow_adds(256, inner, len);
    let p = pow(256, inner);
    let l = pow(256, len);
    lemma_offset_len_bits(inner, len, 0);
    assert forall|i: nat| i < 8 implies (#[trigger] bit_of(w.mask as int, 0 + i) <==> (inner <= i && i < inner
        + len)) by {
        lemma_offset_len_bits(inner, len, i);
    }
    assert forall|i: nat| i < 8 implies !#[trigger] bit_of(w.mask as int, 8 + i) by {
        lemma_offset_len_bits(inner, len, 8 + i);
    }
    lemma_masked_bytes(upd, w.mask, 0, inner, inner + len);
    lemma_masked_second_block_zero(w.store_value2, w.mask);
    vstd::bits::lemma_u64_pow2_no_overflow(8 * inner);
    vstd::arithmetic::div_mod::lemma_mod_bound(step->Store_value as int, l);
    assert(w.wrapped_value == step->Store_value as int % l);
    assert(masked_bytes(upd, w.mask, 0, 8) == w.wrapped_value * p);
    lemma_masked_bytes_range(pre, w.mask, 0, inner, inner + len, 8);
    lemma_masked_bytes_range(upd, w.mask, 0, inner, inner + len, 8);
    lemma_unmasked_bytes(pre, w.mask, 0, 8);
    lemma_unmasked_bytes(upd, w.mask, 0, 8);
    vstd::arithmetic::div_mod::lemma_small_mod(pre as nat, pow(256, 8) as nat);
    vstd::arithmetic::div_mod::lemma_small_mod(upd as nat, pow(256, 8) as nat);
    vstd::arithmetic::power::lemma_pow_positive(256, inner + len);
    vstd::arithmetic::div_mod::lemma_fundamental_div_mod(pre as int, p * l);
    vstd::arithmetic::div_mod::lemma_fundamental_div_mod(upd as int, p * l);
    assert(unmasked_bytes(pre, w.mask, 0, 8) == unmasked_bytes(upd, w.mask, 0, 8));
    assert(w.load_value2 == w.store_value2);
    assert(pow2(64) * 0 == 0);
    assert(fzero(0));
}

/// Below and above a split at `p`, a value below `p * b` is its remainder
/// by `p` and `p` times its quotient, which is below `b`.
proof fn lemma_split_below(v: int, p: int, b: int)
    requires
        0 <= v < p * b,
        p > 0,
        b > 0,
    ensures
        v / p < b,
        (v / p) % b == v / p,
        v == v % p + (v / p) * p,
        v / p >= 0,
{
    vstd::arithmetic::div_mod::lemma_fundamental_div_mod(v, p);
    vstd::arithmetic::div_mod::lemma_div_pos_is_pos(v, p);
    vstd::arithmetic::div_mod::lemma_mod_bound(v, p);
    if v / p >= b {
        assert(p * (v / p) >= p * b) by (nonlinear_arith)
            requires
                v / p >= b,
                p > 0,
        ;
    }
    vstd::arithmetic::div_mod::lemma_small_mod((v / p) as nat, b as nat);
    vstd::arithmetic::mul::lemma_mul_is_commutative(p, v / p);
}

/// The block constraints hold for a valid store that crosses into the next
/// block.
proof fn lemma_store_complete_two_blocks(step: StepInfo)
    requires
        store_step_valid(step),
        (step->Store_effective_address as int % 8) + store_byte_size(step->store_size) > 8,
    ensures
        ({
            let w = spec_store_witness(step);
            &&& fzero(
                w.wrapped_value * w.offset_modulus - masked_bytes(w.store_value1, w.mask, 0, 8) - pow2(64)
                    * masked_bytes(w.store_value2, w.mask, 8, 8),
            )
            &&& fzero(
                unmasked_bytes(w.load_value1, w.mask, 0, 8) - unmasked_bytes(w.store_value1, w.mask, 0, 8) + pow2(64)
                    * (unmasked_bytes(w.load_value2, w.mask, 8, 8) - unmasked_bytes(w.store_value2, w.mask, 8, 8)),
            )
        }),
{
    let w = spec_store_witness(step);
    let len = store_byte_size(step->store_size);
    let inner = w.start_inner as nat;
    let e = (inner + len - 8) as nat;
    let h = (8 - inner) as nat;
    let pre1 = w.load_value1;
    let upd1 = w.store_value1;
    let pre2 = w.load_value2;
    let upd2 = w.store_value2;
    let v = step->Store_value as int;
    lemma2_to64();
    lemma_pow256(inner);
    lemma_pow256(len);
    lemma_pow256(h);
    lemma_pow256(e);
    lemma_pow256(8);
    lemma_pow256(0);
    let p = pow(256, inner);
    let l = pow(256, len);
    let bh = pow(256, h);
    let be = pow(256, e);
    vstd::arithmetic::power::lemma_pow_adds(256, inner, h);
    vstd::arithmetic::power::lemma_pow_adds(256, h, e);
    vstd::arithmetic::power::lemma_pow_positive(256, inner);
    vstd::arithmetic::power::lemma_pow_positive(256, h);
    vstd::arithmetic::power::lemma_pow_positive(256, e);
    assert(p * bh == 0x1_0000_0000_0000_0000);
    assert(l == bh * be);
    assert(bh * be == be * bh) by (nonlinear_arith);
    // the mask: the bytes from the offset to the end of the first block, and
    // the first `e` bytes of the next one
    assert forall|i: nat| i < 8 implies (#[trigger] bit_of(w.mask as int, 0 + i) <==> (inner <= i && i < 8)) by {
        lemma_offset_len_bits(inner, len, i);
    }
    assert forall|i: nat| i < 8 implies (#[trigger] bit_of(w.mask as int, 8 + i) <==> (0 <= i && i < e)) by {
        lemma_offset_len_bits(inner, len, 8 + i);
    }
    lemma_masked_bytes(upd1, w.mask, 0, inner, 8);
    lemma_masked_bytes(pre1, w.mask, 0, inner, 8);
    lemma_masked_bytes(upd2, w.mask, 8, 0, e);
    lemma_masked_bytes(pre2, w.mask, 8, 0, e);
    vstd::arithmetic::power::lemma_pow0(256);
    assert(upd2 as int / 1 == upd2 as int);
    assert(pre2 as int / 1 == pre2 as int);
    assert(masked_bytes(upd2, w.mask, 8, 8) == upd2 as int % be);
    assert(masked_bytes(pre2, w.mask, 8, 8) == pre2 as int % be);
    // the first block
    lemma_split_below(upd1 as int, p, bh);
    lemma_split_below(pre1 as int, p, bh);
    assert(masked_bytes(upd1, w.mask, 0, 8) == (upd1 as int / p) * p);
    assert(masked_bytes(pre1, w.mask, 0, 8) == (pre1 as int / p) * p);
    // the value
    vstd::bits::lemma_u64_pow2_no_overflow(8 * inner);
    vstd::arithmetic::div_mod::lemma_mod_bound(v, l);
    assert(w.wrapped_value == v % l);
    assert(w.offset_modulus == p);
    let wr = v % l;
    vstd::arithmetic::div_mod::lemma_fundamental_div_mod(wr, bh);
    vstd::arithmetic::div_mod::lemma_mod_mod(v, bh, be);
    assert(wr % bh == v % bh);
    assert(upd1 as int / p == v % bh);
    assert(upd2 as int % be == wr / bh);
    assert(wr * p == (v % bh) * p + pow2(64) * (wr / bh)) by (nonlinear_arith)
        requires
            wr == bh * (wr / bh) + wr % bh,
            wr % bh == v % bh,
            p * bh == 0x1_0000_0000_0000_0000,
            pow2(64) == 0x1_0000_0000_0000_0000,
    ;
    assert(w.wrapped_value * w.offset_modulus - masked_bytes(w.store_value1, w.mask, 0, 8) - pow2(64)
        * masked_bytes(w.store_value2, w.mask, 8, 8) == 0);
    // the bytes left alone
    lemma_unmasked_bytes(pre1, w.mask, 0, 8);
    lemma_unmasked_bytes(upd1, w.mask, 0, 8);
    lemma_unmasked_bytes(pre2, w.mask, 8, 8);
    lemma_unmasked_bytes(upd2, w.mask, 8, 8);
    vstd::arithmetic::div_mod::lemma_small_mod(pre1 as nat, pow(256, 8) as nat);
    vstd::arithmetic::div_mod::lemma_small_mod(upd1 as nat, pow(256, 8) as nat);
    vstd::arithmetic::div_mod::lemma_small_mod(pre2 as nat, pow(256, 8) as nat);
    vstd::arithmetic::div_mod::lemma_small_mod(upd2 as nat, pow(256, 8) as nat);
    assert(unmasked_bytes(pre1, w.mask, 0, 8) == pre1 as int % p);
    assert(unmasked_bytes(upd1, w.mask, 0, 8) == upd1 as int % p);
    vstd::arithmetic::div_mod::lemma_fundamental_div_mod(pre2 as int, be);
    vstd::arithmetic::div_mod::lemma_fundamental_div_mod(upd2 as int, be);
    assert(unmasked_bytes(pre2, w.mask, 8, 8) == be * (pre2 as int / be));
    assert(unmasked_bytes(upd2, w.mask, 8, 8) == be * (upd2 as int / be));
    assert(pow2(64) * 0 == 0);
    assert(fzero(0));
}

/// Completeness: the values that the gadget assigns for a valid store step
/// satisfy its gates and its table lookups.
pub proof fn lemma_store_complete(step: StepInfo)
    requires
        store_step_valid(step),
    ensures
        store_gates(spec_store_witness(step)),
{
    lemma_store_complete_location(step);
    lemma_store_complete_wrap(step);
    lemma_store_complete_blocks(step);
}

/// The memory operations that a store adds to those of its opcode: two for
/// a store that spans two blocks, none otherwise.
pub open spec fn store_extra_mops(step: StepInfo) -> int {
    let ea = step->Store_effective_address as int;
    let len = store_byte_size(step->store_size);
    if (ea + len - 1) / 8 != ea / 8 {
        2
    } else {
        0
    }
}

/// What a store writes for its blocks: each of the two blocks before the
/// store to its cell, and each of them after the store to its cell.
pub proof fn lemma_store_writes_blocks_cells(c: StoreConfig, off: int, w: StoreWitness)
    ensures
        crate::circuits::etable_compact::op_configure::has_write(store_writes_blocks(c, off, w), c.load_value1.value_col, off + c.load_value1.value_rot, crate::circuits::utils::fv_u64(w.load_value1)),
        crate::circuits::etable_compact::op_configure::has_write(store_writes_blocks(c, off, w), c.store_value1.value_col, off + c.store_value1.value_rot, crate::circuits::utils::fv_u64(w.store_value1)),
        crate::circuits::etable_compact::op_configure::has_write(store_writes_blocks(c, off, w), c.load_value2.value_col, off + c.load_value2.value_rot, crate::circuits::utils::fv_u64(w.load_value2)),
        crate::circuits::etable_compact::op_configure::has_write(store_writes_blocks(c, off, w), c.store_value2.value_col, off + c.store_value2.value_rot, crate::circuits::utils::fv_u64(w.store_value2)),
{
    let p0 = u64_on_u8_cell_writes(c.load_value1, off, w.load_value1);
    let p1 = u64_on_u8_cell_writes(c.store_value1, off, w.store_value1);
    let p2 = u64_on_u8_cell_writes(c.load_value2, off, w.load_value2);
    let p3 = u64_on_u8_cell_writes(c.store_value2, off, w.store_value2);
    let p4 = bool_writes(c.mask_bits@, off, mask_values(w.mask));
    assert(store_writes_blocks(c, off, w) =~= p0 + p1 + p2 + p3 + p4);
    {
        crate::circuits::etable_compact::op_configure::lemma_u64_on_u8_cell_writes_value(c.load_value1, off, w.load_value1);
        crate::circuits::etable_compact::op_configure::lemma_has_write_append(p0, p1, c.load_value1.value_col, off + c.load_value1.value_rot, crate::circuits::utils::fv_u64(w.load_value1));
        crate::circuits::etable_compact::op_configure::lemma_has_write_append(p0 + p1, p2, c.load_value1.value_col, off + c.load_value1.value_rot, crate::circuits::utils::fv_u64(w.load_value1));
        crate::circuits::etable_compact::op_configure::lemma_has_write_append(p0 + p1 + p2, p3, c.load_value1.value_col, off + c.load_value1.value_rot, crate::circuits::utils::fv_u64(w.load_value1));
        crate::circuits::etable_compact::op_configure::lemma_has_write_append(p0 + p1 + p2 + p3, p4, c.load_value1.value_col, off + c.load_value1.value_rot, crate::circuits::utils::fv_u64(w.load_value1));
    }
    {
        crate::circuits::etable_compact::op_configure::lemma_u64_on_u8_cell_writes_value(c.store_value1, off, w.store_value1);
        crate::circuits::etable_compact::op_configure::lemma_has_write_append(p0, p1, c.store_value1.value_col, off + c.store_value1.value_rot, crate::circuits::utils::fv_u64(w.store_value1));
        crate::circuits::etable_compact::op_configure::lemma_has_write_append(p0 + p1, p2, c.store_value1.value_col, off + c.store_value1.value_rot, crate::circuits::utils::fv_u64(w.store_value1));
        crate::circuits::etable_compact::op_configure::lemma_has_write_append(p0 + p1 + p2, p3, c.store_value1.value_col, off + c.store_value1.value_rot, crate::circuits::utils::fv_u64(w.store_value1));
        crate::circuits::etable_compact::op_configure::lemma_has_write_append(p0 + p1 + p2 + p3, p4, c.store_value1.value_col, off + c.store_value1.value_rot, crate::circuits::utils::fv_u64(w.store_value1));
    }
    {
        crate::circuits::etable_compact::op_configure::lemma_u64_on_u8_cell_writes_value(c.load_value2, off, w.load_value2);
        crate::circuits::etable_compact::op_configure::lemma_has_write_append(p0, p1, c.load_value2.value_col, off + c.load_value2.value_rot, crate::circuits::utils::fv_u64(w.load_value2));
        crate::circuits::etable_compact::op_configure::lemma_has_write_append(p0 + p1, p2, c.load_value2.value_col, off + c.load_value2.value_rot, crate::circuits::utils::fv_u64(w.load_value2));
        crate::circuits::etable_compact::op_configure::lemma_has_write_append(p0 + p1 + p2, p3, c.load_value2.value_col, off + c.load_value2.value_rot, crate::circuits::utils::fv_u64(w.load_value2));
        crate::circuits::etable_compact::op_configure::lemma_has_write_append(p0 + p1 + p2 + p3, p4, c.load_value2.value_col, off + c.load_value2.value_rot, crate::circuits::utils::fv_u64(w.load_value2));
    }
    {
        crate::circuits::etable_compact::op_configure::lemma_u64_on_u8_cell_writes_value(c.store_value2, off, w.store_value2);
        crate::circuits::etable_compact::op_configure::lemma_has_write_append(p0, p1, c.store_value2.value_col, off + c.store_value2.value_rot, crate::circuits::utils::fv_u64(w.store_value2));
        crate::circuits::etable_compact::op_configure::lemma_has_write_append(p0 + p1, p2, c.store_value2.value_col, off + c.store_value2.value_rot, crate::circuits::utils::fv_u64(w.store_value2));
        crate::circuits::etable_compact::op_configure::lemma_has_write_append(p0 + p1 + p2, p3, c.store_value2.value_col, off + c.store_value2.value_rot, crate::circuits::utils::fv_u64(w.store_value2));
        crate::circuits::etable_compact::op_configure::lemma_has_write_append(p0 + p1 + p2 + p3, p4, c.store_value2.value_col, off + c.store_value2.value_rot, crate::circuits::utils::fv_u64(w.store_value2));
    }
}

/// What a store writes for its value: the value stored to the raw value
/// cell, the base address to the base cell and the value's low bytes to
/// the wrapped value cell.
pub proof fn lemma_store_writes_values_cells(c: StoreConfig, off: int, w: StoreWitness)
    ensures
        crate::circuits::etable_compact::op_configure::has_write(store_writes_values(c, off, w), c.store_raw_value.value_col, off + c.store_raw_value.value_rot, crate::circuits::utils::fv_u64(w.raw_value)),
        crate::circuits::etable_compact::op_configure::has_write(store_writes_values(c, off, w), c.store_base.value_col, off + c.store_base.value_rot, crate::circuits::utils::fv_u64(w.base)),
        crate::circuits::etable_compact::op_configure::has_write(store_writes_values(c, off, w), c.store_wrapped_value.col, off + c.store_wrapped_value.rot, crate::circuits::utils::fv_u64(w.wrapped_value)),
{
    let p0 = u64_cell_writes(c.offset_modulus, off, w.offset_modulus);
    let p1 = u64_cell_writes(c.store_raw_value, off, w.raw_value);
    let p2 = u64_cell_writes(c.store_base, off, w.base);
    let p3 = one_write(c.store_wrapped_value.col, off, c.store_wrapped_value.rot as int, fv_u64(w.wrapped_value));
    assert(store_writes_values(c, off, w) =~= p0 + p1 + p2 + p3);
    {
        crate::circuits::etable_compact::op_configure::lemma_u64_cell_writes_value(c.store_raw_value, off, w.raw_value);
        crate::circuits::etable_compact::op_configure::lemma_has_write_append(p0, p1, c.store_raw_value.value_col, off + c.store_raw_value.value_rot, crate::circuits::utils::fv_u64(w.raw_value));
        crate::circuits::etable_compact::op_configure::lemma_has_write_append(p0 + p1, p2, c.store_raw_value.value_col, off + c.store_raw_value.value_rot, crate::circuits::utils::fv_u64(w.raw_value));
        crate::circuits::etable_compact::op_configure::lemma_has_write_append(p0 + p1 + p2, p3, c.store_raw_value.value_col, off + c.store_raw_value.value_rot, crate::circuits::utils::fv_u64(w.raw_value));
    }
    {
        crate::circuits::etable_compact::op_configure::lemma_u64_cell_writes_value(c.store_base, off, w.base);
        crate::circuits::etable_compact::op_configure::lemma_has_write_append(p0, p1, c.store_base.value_col, off + c.store_base.value_rot, crate::circuits::utils::fv_u64(w.base));
        crate::circuits::etable_compact::op_configure::lemma_has_write_append(p0 + p1, p2, c.store_base.value_col, off + c.store_base.value_rot, crate::circuits::utils::fv_u64(w.base));
        crate::circuits::etable_compact::op_configure::lemma_has_write_append(p0 + p1 + p2, p3, c.store_base.value_col, off + c.store_base.value_rot, crate::circuits::utils::fv_u64(w.base));
    }
    {
        crate::circuits::etable_compact::op_configure::lemma_has_write_one(c.store_wrapped_value.col, off, c.store_wrapped_value.rot as int, crate::circuits::utils::fv_u64(w.wrapped_value));
        crate::circuits::etable_compact::op_configure::lemma_has_write_append(p0, p1, c.store_wrapped_value.col, off + c.store_wrapped_value.rot, crate::circuits::utils::fv_u64(w.wrapped_value));
        crate::circuits::etable_compact::op_configure::lemma_has_write_append(p0 + p1, p2, c.store_wrapped_value.col, off + c.store_wrapped_value.rot, crate::circuits::utils::fv_u64(w.wrapped_value));
        crate::circuits::etable_compact::op_configure::lemma_has_write_append(p0 + p1 + p2, p3, c.store_wrapped_value.col, off + c.store_wrapped_value.rot, crate::circuits::utils::fv_u64(w.wrapped_value));
    }
}

impl StoreConfig {
    /// The memory operations that the step adds to those of its opcode.
    pub fn assigned_extra_mops(&self, step: &StepInfo) -> (r: u64)
        requires
            step is Store,
            step->Store_effective_address + store_byte_size(step->store_size) <= u32::MAX,
        ensures
            r == store_extra_mops(*step),
    {
        match step {
            StepInfo::Store { store_size, effective_address, .. } => {
                if (*effective_address + store_size.byte_size() as u32 - 1) / 8 != *effective_address / 8 {
                    2
                } else {
                    0
                }
            },
            _ => 0,
        }
    }
}

/// Where one length flag is set, the wrapped sum is the raw value's low
/// bytes, as many as the length.
proof fn lemma_store_wrap_sum_value(w: StoreWitness)
    requires
        b2i(w.is_one_byte) + b2i(w.is_two_bytes) + b2i(w.is_four_bytes) + b2i(w.is_eight_bytes) == 1,
    ensures
        store_wrap_sum(w) == w.raw_value as int % pow(256, store_len(w) as nat),
{
    let v = w.raw_value;
    let len = store_len(w);
    lemma_full_mask_sums(v);
    let b0 = store_byte_value(v, 0);
    let b1 = store_byte_value(v, 1);
    let b2 = store_byte_value(v, 2);
    let b3 = store_byte_value(v, 3);
    let b4 = store_byte_value(v, 4);
    let b5 = store_byte_value(v, 5);
    let b6 = store_byte_value(v, 6);
    let b7 = store_byte_value(v, 7);
    if w.is_one_byte {
        lemma_low_bytes(v, 1);
        assert(len == 1);
        assert(store_wrap_sum(w) == b0 + b1 * 0 + (b2 + b3) * 0 + (b4 + b5 + b6 + b7) * 0);
        assert(store_wrap_sum(w) == masked_bytes(v, 255, 0, 1));
    } else if w.is_two_bytes {
        lemma_low_bytes(v, 2);
        assert(len == 2);
        assert(store_wrap_sum(w) == b0 + b1 * 1 + (b2 + b3) * 0 + (b4 + b5 + b6 + b7) * 0);
        assert(store_wrap_sum(w) == masked_bytes(v, 255, 0, 2));
    } else if w.is_four_bytes {
        lemma_low_bytes(v, 4);
        assert(len == 4);
        assert(store_wrap_sum(w) == b0 + b1 * 1 + (b2 + b3) * 1 + (b4 + b5 + b6 + b7) * 0);
        assert(store_wrap_sum(w) == masked_bytes(v, 255, 0, 4));
    } else {
        lemma_low_bytes(v, 8);
        assert(len == 8);
        assert(store_wrap_sum(w) == b0 + b1 * 1 + (b2 + b3) * 1 + (b4 + b5 + b6 + b7) * 1);
        assert(store_wrap_sum(w) == masked_bytes(v, 255, 0, 8));
    }
}

/// A value splits into its bytes below a window, the window, and the bytes
/// above it.
proof fn lemma_window_split(v: int, p: int, l: int)
    requires
        v >= 0,
        p > 0,
        l > 0,
    ensures
        v == v % p + ((v / p) % l) * p + (v / (p * l)) * (p * l),
        0 <= v % p < p,
        0 <= (v / p) % l < l,
        p * l > 0,
        v / (p * l) >= 0,
{
    vstd::arithmetic::mul::lemma_mul_strictly_positive(p, l);
    vstd::arithmetic::div_mod::lemma_div_pos_is_pos(v, p * l);
    vstd::arithmetic::div_mod::lemma_mod_breakdown(v, p, l);
    vstd::arithmetic::mul::lemma_mul_strictly_positive(p, l);
    vstd::arithmetic::div_mod::lemma_fundamental_div_mod(v, p * l);
    vstd::arithmetic::div_mod::lemma_mod_bound(v, p);
    vstd::arithmetic::div_mod::lemma_div_pos_is_pos(v, p);
    vstd::arithmetic::div_mod::lemma_mod_bound(v / p, l);
    vstd::arithmetic::mul::lemma_mul_is_commutative(p, (v / p) % l);
    vstd::arithmetic::mul::lemma_mul_is_commutative(p * l, v / (p * l));
}

/// Masked bytes of a block past the mask's selected bits, in the second
/// block of a store that stays within the first, add up to nothing.
proof fn lemma_masked_second_block_zero(v: u64, mask: u64)
    requires
        forall|i: nat| i < 8 ==> !#[trigger] bit_of(mask as int, 8 + i),
    ensures
        masked_bytes(v, mask, 8, 8) == 0,
{
    assert forall|i: nat| i < 8 implies (#[trigger] bit_of(mask as int, 8 + i) <==> (0 <= i && i < 0)) by {}
    lemma_masked_bytes(v, mask, 8, 0, 0);
    vstd::arithmetic::power::lemma_pow0(256);
    assert((v as int / 1) % 1 == 0);
}

/// Soundness of the store gadget for a store within one block: where its
/// gates hold, the offset modulus is two to eight times the offset in the
/// block, the wrapped value is the raw value's low bytes, as many as the
/// length, the block after the store holds the wrapped value at the offset,
/// its bytes below the offset and above the value are those of the block
/// before, and the next block is left as it was.
pub proof fn lemma_store_sound(w: StoreWitness)
    requires
        store_gates(w),
        w.start_inner + store_len(w) <= 8,
    ensures
        ({
            let inner = w.start_inner as nat;
            let len = store_len(w) as nat;
            let p = pow2(8 * inner) as int;
            let l = pow2(8 * len) as int;
            &&& (len == 1 || len == 2 || len == 4 || len == 8)
            &&& w.offset_modulus == p
            &&& w.wrapped_value == w.raw_value as int % l
            &&& (w.store_value1 as int / p) % l == w.wrapped_value
            &&& w.store_value1 as int % p == w.load_value1 as int % p
            &&& w.store_value1 as int / (p * l) == w.load_value1 as int / (p * l)
            &&& w.store_value2 == w.load_value2
        }),
{
    let inner = w.start_inner as nat;
    crate::circuits::utils::lemma_fzero_small(w.start_inner + w.start_helper - 7);
    let flags = b2i(w.is_one_byte) + b2i(w.is_two_bytes) + b2i(w.is_four_bytes) + b2i(w.is_eight_bytes);
    crate::circuits::utils::lemma_fzero_small(flags - 1);
    let len = store_len(w) as nat;
    assert(len == 1 || len == 2 || len == 4 || len == 8);
    lemma_pow_lookup_sound(w.pow, w.offset_modulus, w.start_inner);
    lemma_pow256(inner);
    lemma_pow256(len);
    lemma_pow256(8);
    let p = pow(256, inner);
    let l = pow(256, len);
    vstd::arithmetic::power::lemma_pow_positive(256, inner);
    vstd::arithmetic::power::lemma_pow_positive(256, len);
    lemma_offset_len_bits(inner, len, 0);
    lemma_mask_bits_of_weight(w.mask, offset_len_bits(inner, len));
    assert forall|i: nat| i < 8 implies (#[trigger] bit_of(w.mask as int, 0 + i) <==> (inner <= i && i < inner + len)) by {
        lemma_offset_len_bits(inner, len, i);
    }
    assert forall|i: nat| i < 8 implies !#[trigger] bit_of(w.mask as int, 8 + i) by {
        lemma_offset_len_bits(inner, len, 8 + i);
    }
    lemma_masked_bytes(w.store_value1, w.mask, 0, inner, inner + len);
    lemma_masked_bytes(w.load_value1, w.mask, 0, inner, inner + len);
    lemma_masked_second_block_zero(w.store_value2, w.mask);
    lemma_masked_second_block_zero(w.load_value2, w.mask);
    lemma_unmasked_bytes(w.store_value2, w.mask, 8, 8);
    lemma_unmasked_bytes(w.load_value2, w.mask, 8, 8);
    lemma_pow256(8);
    lemma2_to64();
    vstd::arithmetic::div_mod::lemma_small_mod(w.store_value2 as nat, pow(256, 8) as nat);
    vstd::arithmetic::div_mod::lemma_small_mod(w.load_value2 as nat, pow(256, 8) as nat);
    lemma_store_wrap_sum_value(w);
    lemma2_to64();
    vstd::arithmetic::div_mod::lemma_mod_bound(w.raw_value as int, l);
    crate::circuits::utils::lemma_fzero_small(store_wrap_sum(w) - w.wrapped_value);
    vstd::arithmetic::power::lemma_pow_increases(256, inner, 7);
    lemma_pow256(7);
    vstd::arithmetic::power2::lemma2_to64_rest();
    vstd::arithmetic::power::lemma_pow_adds(256, inner, len);
    vstd::arithmetic::power::lemma_pow_increases(256, inner + len, 8);
    lemma_store_window_value(w, p, l);
    lemma_store_outside_window(w, p, l);
}

/// Soundness of the store gadget for a store that crosses into the next
/// block: where its gates hold, the offset modulus is two to eight times
/// the offset, the wrapped value is the raw value's low bytes, as many as
/// the length, the first block after the store keeps its bytes below the
/// offset and holds the wrapped value's low bytes from the offset to its
/// end, and the next block holds the wrapped value's other bytes at its
/// start and keeps the rest.
pub proof fn lemma_store_sound_two_blocks(w: StoreWitness)
    requires
        store_gates(w),
        w.start_inner + store_len(w) > 8,
    ensures
        ({
            let inner = w.start_inner as nat;
            let len = store_len(w) as nat;
            let p = pow2(8 * inner) as int;
            let l = pow2(8 * len) as int;
            let head = pow2((8 * (8 - inner)) as nat) as int;
            let tail = pow2((8 * (inner + len - 8)) as nat) as int;
            &&& (len == 2 || len == 4 || len == 8)
            &&& w.offset_modulus == p
            &&& w.wrapped_value == w.raw_value as int % l
            &&& w.store_value1 as int % p == w.load_value1 as int % p
            &&& w.store_value1 as int / p == w.wrapped_value as int % head
            &&& w.store_value2 as int % tail == w.wrapped_value as int / head
            &&& w.store_value2 as int / tail == w.load_value2 as int / tail
        }),
{
    let inner = w.start_inner as nat;
    crate::circuits::utils::lemma_fzero_small(w.start_inner + w.start_helper - 7);
    let flags = b2i(w.is_one_byte) + b2i(w.is_two_bytes) + b2i(w.is_four_bytes) + b2i(w.is_eight_bytes);
    crate::circuits::utils::lemma_fzero_small(flags - 1);
    let len = store_len(w) as nat;
    assert(len == 1 || len == 2 || len == 4 || len == 8);
    assert(inner <= 7);
    let e = (inner + len - 8) as nat;
    let h = (8 - inner) as nat;
    lemma_pow_lookup_sound(w.pow, w.offset_modulus, w.start_inner);
    lemma2_to64();
    vstd::arithmetic::power2::lemma2_to64_rest();
    lemma_pow256(inner);
    lemma_pow256(len);
    lemma_pow256(8);
    lemma_pow256(h);
    lemma_pow256(e);
    lemma_pow256(0);
    vstd::arithmetic::power::lemma_pow0(256);
    let p = pow(256, inner);
    let l = pow(256, len);
    let bh = pow(256, h);
    let be = pow(256, e);
    vstd::arithmetic::power::lemma_pow_positive(256, inner);
    vstd::arithmetic::power::lemma_pow_positive(256, len);
    vstd::arithmetic::power::lemma_pow_positive(256, h);
    vstd::arithmetic::power::lemma_pow_positive(256, e);
    vstd::arithmetic::power::lemma_pow_adds(256, inner, h);
    vstd::arithmetic::power::lemma_pow_adds(256, h, e);
    assert(p * bh == 0x1_0000_0000_0000_0000);
    assert(l == bh * be);
    vstd::arithmetic::power::lemma_pow_increases(256, inner, 7);
    lemma_pow256(7);
    vstd::arithmetic::power::lemma_pow_increases(256, e, 7);
    lemma_offset_len_bits(inner, len, 0);
    lemma_mask_bits_of_weight(w.mask, offset_len_bits(inner, len));
    assert forall|i: nat| i < 8 implies (#[trigger] bit_of(w.mask as int, 0 + i) <==> (inner <= i && i < 8)) by {
        lemma_offset_len_bits(inner, len, i);
    }
    assert forall|i: nat| i < 8 implies (#[trigger] bit_of(w.mask as int, 8 + i) <==> (0 <= i && i < e)) by {
        lemma_offset_len_bits(inner, len, 8 + i);
    }
    let s1 = w.store_value1 as int;
    let d1 = w.load_value1 as int;
    let s2 = w.store_value2 as int;
    let d2 = w.load_value2 as int;
    lemma_masked_bytes(w.store_value1, w.mask, 0, inner, 8);
    lemma_masked_bytes(w.load_value1, w.mask, 0, inner, 8);
    lemma_masked_bytes(w.store_value2, w.mask, 8, 0, e);
    lemma_masked_bytes(w.load_value2, w.mask, 8, 0, e);
    assert(s2 / 1 == s2);
    assert(d2 / 1 == d2);
    lemma_split_below(s1, p, bh);
    lemma_split_below(d1, p, bh);
    // the wrapped value
    lemma_store_wrap_sum_value(w);
    vstd::arithmetic::div_mod::lemma_mod_bound(w.raw_value as int, l);
    crate::circuits::utils::lemma_fzero_small(store_wrap_sum(w) - w.wrapped_value);
    // the value constraint: the wrapped value at the offset is the first
    // block's bytes from the offset and the next block's first bytes
    let v = w.wrapped_value as int;
    let a = s1 / p;
    let c = s2 % be;
    vstd::arithmetic::div_mod::lemma_mod_bound(s2, be);
    assert(masked_bytes(w.store_value1, w.mask, 0, 8) == a * p);
    assert(masked_bytes(w.store_value2, w.mask, 8, 8) == c);
    assert(0 <= v * p <= 0xffff_ffff_ffff_ffff * 0x100_0000_0000_0000) by (nonlinear_arith)
        requires
            0 <= v <= 0xffff_ffff_ffff_ffff,
            0 < p <= 0x100_0000_0000_0000,
    ;
    assert(0 <= a * p < 0x1_0000_0000_0000_0000) by (nonlinear_arith)
        requires
            0 <= a < bh,
            p > 0,
            p * bh == 0x1_0000_0000_0000_0000,
    ;
    assert(0 <= pow2(64) * c <= 0x1_0000_0000_0000_0000 * 0x100_0000_0000_0000) by (nonlinear_arith)
        requires
            0 <= c < be,
            be <= 0x100_0000_0000_0000,
            pow2(64) == 0x1_0000_0000_0000_0000,
    ;
    crate::circuits::utils::lemma_fzero_small(v * p - a * p - pow2(64) * c);
    assert(v * p == (a + bh * c) * p) by (nonlinear_arith)
        requires
            v * p == a * p + pow2(64) * c,
            pow2(64) == 0x1_0000_0000_0000_0000,
            p * bh == 0x1_0000_0000_0000_0000,
    ;
    vstd::arithmetic::mul::lemma_mul_is_commutative(v, p);
    vstd::arithmetic::mul::lemma_mul_is_commutative(a + bh * c, p);
    vstd::arithmetic::mul::lemma_mul_equality_converse(p, v, a + bh * c);
    vstd::arithmetic::div_mod::lemma_fundamental_div_mod_converse(v, bh, c, a);
    // the constraint on the bytes left alone
    lemma_unmasked_bytes(w.store_value1, w.mask, 0, 8);
    lemma_unmasked_bytes(w.load_value1, w.mask, 0, 8);
    lemma_unmasked_bytes(w.store_value2, w.mask, 8, 8);
    lemma_unmasked_bytes(w.load_value2, w.mask, 8, 8);
    vstd::arithmetic::div_mod::lemma_small_mod(w.store_value1 as nat, pow(256, 8) as nat);
    vstd::arithmetic::div_mod::lemma_small_mod(w.load_value1 as nat, pow(256, 8) as nat);
    vstd::arithmetic::div_mod::lemma_small_mod(w.store_value2 as nat, pow(256, 8) as nat);
    vstd::arithmetic::div_mod::lemma_small_mod(w.load_value2 as nat, pow(256, 8) as nat);
    let us1 = unmasked_bytes(w.store_value1, w.mask, 0, 8);
    let ud1 = unmasked_bytes(w.load_value1, w.mask, 0, 8);
    let us2 = unmasked_bytes(w.store_value2, w.mask, 8, 8);
    let ud2 = unmasked_bytes(w.load_value2, w.mask, 8, 8);
    assert(us1 == s1 % p);
    assert(ud1 == d1 % p);
    vstd::arithmetic::div_mod::lemma_fundamental_div_mod(s2, be);
    vstd::arithmetic::div_mod::lemma_fundamental_div_mod(d2, be);
    vstd::arithmetic::div_mod::lemma_mod_bound(d2, be);
    vstd::arithmetic::div_mod::lemma_div_pos_is_pos(s2, be);
    vstd::arithmetic::div_mod::lemma_div_pos_is_pos(d2, be);
    assert(us2 == be * (s2 / be));
    assert(ud2 == be * (d2 / be));
    let x = ud2 - us2;
    assert(-0x1_0000_0000_0000_0000 < x < 0x1_0000_0000_0000_0000);
    assert(-0x1_0000_0000_0000_0000 * 0x1_0000_0000_0000_0000 < pow2(64) * x < 0x1_0000_0000_0000_0000
        * 0x1_0000_0000_0000_0000) by (nonlinear_arith)
        requires
            pow2(64) == 0x1_0000_0000_0000_0000,
            -0x1_0000_0000_0000_0000 < x < 0x1_0000_0000_0000_0000,
    ;
    vstd::arithmetic::div_mod::lemma_mod_bound(s1, p);
    vstd::arithmetic::div_mod::lemma_mod_bound(d1, p);
    crate::circuits::utils::lemma_fzero_small(ud1 - us1 + pow2(64) * x);
    if x != 0 {
        assert(pow2(64) * x >= pow2(64) || pow2(64) * x <= -pow2(64)) by (nonlinear_arith)
            requires
                x != 0,
                pow2(64) > 0,
        ;
    }
    assert(x == 0);
    assert(be * (s2 / be) == be * (d2 / be));
    vstd::arithmetic::mul::lemma_mul_equality_converse(be, s2 / be, d2 / be);
}

/// Byte `i` of `x` is the quotient by 256 to the `i` of its remainder by
/// 256 to the `i + 1`.
proof fn lemma_byte_from_low(x: int, i: nat)
    requires
        0 <= x,
    ensures
        (x / pow(256, i)) % 256 == (x % pow(256, i + 1)) / pow(256, i),
{
    vstd::arithmetic::power::lemma_pow_positive(256, i);
    vstd::arithmetic::power::lemma_pow_adds(256, i, 1);
    vstd::arithmetic::power::lemma_pow1(256);
    let d = pow(256, i);
    vstd::arithmetic::div_mod::lemma_mod_breakdown(x, d, 256);
    vstd::arithmetic::div_mod::lemma_mod_bound(x, d);
    vstd::arithmetic::div_mod::lemma_mod_bound(x / d, 256);
    vstd::arithmetic::div_mod::lemma_div_pos_is_pos(x, d);
    vstd::arithmetic::div_mod::lemma_fundamental_div_mod_converse(
        d * ((x / d) % 256) + x % d,
        d,
        (x / d) % 256,
        x % d,
    );
}

/// Below byte `k`, a remainder by 256 to the `k` has the bytes of the value.
proof fn lemma_byte_below(x: int, i: nat, k: nat)
    requires
        0 <= x,
        i < k,
    ensures
        (x / pow(256, i)) % 256 == ((x % pow(256, k)) / pow(256, i)) % 256,
{
    vstd::arithmetic::power::lemma_pow_positive(256, i + 1);
    vstd::arithmetic::power::lemma_pow_positive(256, (k - i - 1) as nat);
    vstd::arithmetic::power::lemma_pow_adds(256, i + 1, (k - i - 1) as nat);
    vstd::arithmetic::div_mod::lemma_mod_mod(x, pow(256, i + 1), pow(256, (k - i - 1) as nat));
    vstd::arithmetic::div_mod::lemma_mod_pos_bound(x, pow(256, k));
    lemma_byte_from_low(x, i);
    lemma_byte_from_low(x % pow(256, k), i);
}

/// Above byte `k`, the bytes of a value are those of its quotient by 256 to
/// the `k`.
proof fn lemma_byte_above(x: int, i: nat, k: nat)
    requires
        0 <= x,
        k <= i,
    ensures
        (x / pow(256, i)) % 256 == ((x / pow(256, k)) / pow(256, (i - k) as nat)) % 256,
{
    vstd::arithmetic::power::lemma_pow_positive(256, k);
    vstd::arithmetic::power::lemma_pow_positive(256, (i - k) as nat);
    vstd::arithmetic::power::lemma_pow_adds(256, k, (i - k) as nat);
    vstd::arithmetic::div_mod::lemma_div_denominator(x, pow(256, k), pow(256, (i - k) as nat));
}

/// Soundness of the store gadget byte by byte, for a store within one
/// block: where its gates hold, byte `i` of the block after the store is
/// byte `i - o` of the raw value for the bytes from the offset `o`, as many
/// as the store's length, and byte `i` of the block before the store for
/// the others.
pub proof fn lemma_store_sound_bytes(w: StoreWitness, i: nat)
    requires
        store_gates(w),
        w.start_inner + store_len(w) <= 8,
        i < 8,
    ensures
        w.start_inner <= i < w.start_inner + store_len(w) ==> byte(w.store_value1, i as int) == byte(
            w.raw_value,
            i - w.start_inner,
        ),
        !(w.start_inner <= i < w.start_inner + store_len(w)) ==> byte(w.store_value1, i as int) == byte(
            w.load_value1,
            i as int,
        ),
{
    lemma_store_sound(w);
    let o = w.start_inner as nat;
    let len = store_len(w) as nat;
    lemma_pow256(o);
    lemma_pow256(len);
    let p = pow(256, o);
    let l = pow(256, len);
    vstd::arithmetic::power::lemma_pow_adds(256, o, len);
    let s = w.store_value1 as int;
    let d = w.load_value1 as int;
    let r = w.raw_value as int;
    lemma_digit_index(s, 256, 8, i);
    lemma_digit_index(d, 256, 8, i);
    if i < o {
        lemma_byte_below(s, i, o);
        lemma_byte_below(d, i, o);
    } else if i < o + len {
        let j = (i - o) as nat;
        lemma_digit_index(r, 256, 8, j);
        lemma_byte_above(s, i, o);
        vstd::arithmetic::power::lemma_pow_positive(256, o);
        vstd::arithmetic::div_mod::lemma_div_pos_is_pos(s, p);
        lemma_byte_below(s / p, j, len);
        lemma_byte_below(r, j, len);
        assert((s / p) % l == r % l);
    } else {
        lemma_byte_above(s, i, o + len);
        lemma_byte_above(d, i, o + len);
    }
}

/// The value gate of a store within one block gives the window of the
/// block after the store.
proof fn lemma_store_window_value(w: StoreWitness, p: int, l: int)
    requires
        w.offset_modulus == p,
        0 < p <= 0x100_0000_0000_0000,
        l > 0,
        fzero(
            w.wrapped_value * w.offset_modulus - masked_bytes(w.store_value1, w.mask, 0, 8) - pow2(64)
                * masked_bytes(w.store_value2, w.mask, 8, 8),
        ),
        masked_bytes(w.store_value1, w.mask, 0, 8) == ((w.store_value1 as int / p) % l) * p,
        masked_bytes(w.store_value2, w.mask, 8, 8) == 0,
    ensures
        (w.store_value1 as int / p) % l == w.wrapped_value,
{
    let a = (w.store_value1 as int / p) % l;
    let v = w.wrapped_value as int;
    lemma_window_split(w.store_value1 as int, p, l);
    assert(0 <= v * p <= 0xffff_ffff_ffff_ffff * 0x100_0000_0000_0000) by (nonlinear_arith)
        requires
            0 <= v <= 0xffff_ffff_ffff_ffff,
            0 < p <= 0x100_0000_0000_0000,
    ;
    assert(a * p <= w.store_value1) by (nonlinear_arith)
        requires
            w.store_value1 == w.store_value1 as int % p + a * p + (w.store_value1 as int / (p * l)) * (p * l),
            0 <= w.store_value1 as int % p,
            0 <= w.store_value1 as int / (p * l),
            p * l > 0,
    ;
    assert(0 <= a * p) by (nonlinear_arith)
        requires
            0 <= a,
            0 < p,
    ;
    assert(pow2(64) * 0 == 0);
    crate::circuits::utils::lemma_fzero_small(v * p - a * p - pow2(64) * 0);
    vstd::arithmetic::mul::lemma_mul_is_commutative(v, p);
    vstd::arithmetic::mul::lemma_mul_is_commutative(a, p);
    assert(p * v == p * a);
    vstd::arithmetic::mul::lemma_mul_equality_converse(p, v, a);
}

/// The constraint on the bytes the store leaves alone, for a store within one
/// block, keeps the bytes below the window and above it.
proof fn lemma_store_outside_window(w: StoreWitness, p: int, l: int)
    requires
        0 < p,
        0 < l,
        p * l <= 0x1_0000_0000_0000_0000,
        pow(256, 8) == 0x1_0000_0000_0000_0000,
        fzero(
            unmasked_bytes(w.load_value1, w.mask, 0, 8) - unmasked_bytes(w.store_value1, w.mask, 0, 8) + pow2(64) * (
            unmasked_bytes(w.load_value2, w.mask, 8, 8) - unmasked_bytes(w.store_value2, w.mask, 8, 8)),
        ),
        masked_bytes(w.store_value1, w.mask, 0, 8) == ((w.store_value1 as int / p) % l) * p,
        masked_bytes(w.load_value1, w.mask, 0, 8) == ((w.load_value1 as int / p) % l) * p,
        unmasked_bytes(w.store_value2, w.mask, 8, 8) == w.store_value2,
        unmasked_bytes(w.load_value2, w.mask, 8, 8) == w.load_value2,
    ensures
        w.store_value1 as int % p == w.load_value1 as int % p,
        w.store_value1 as int / (p * l) == w.load_value1 as int / (p * l),
        w.store_value2 == w.load_value2,
{
    let s = w.store_value1 as int;
    let d = w.load_value1 as int;
    lemma_unmasked_bytes(w.store_value1, w.mask, 0, 8);
    lemma_unmasked_bytes(w.load_value1, w.mask, 0, 8);
    vstd::arithmetic::div_mod::lemma_small_mod(w.store_value1 as nat, 0x1_0000_0000_0000_0000nat);
    vstd::arithmetic::div_mod::lemma_small_mod(w.load_value1 as nat, 0x1_0000_0000_0000_0000nat);
    lemma_window_split(s, p, l);
    lemma_window_split(d, p, l);
    let us = unmasked_bytes(w.store_value1, w.mask, 0, 8);
    let ud = unmasked_bytes(w.load_value1, w.mask, 0, 8);
    assert(us == s % p + (s / (p * l)) * (p * l));
    assert(ud == d % p + (d / (p * l)) * (p * l));
    assert(0 <= (s / (p * l)) * (p * l) <= s) by (nonlinear_arith)
        requires
            s == s % p + ((s / p) % l) * p + (s / (p * l)) * (p * l),
            0 <= s % p,
            0 <= (s / p) % l,
            0 <= s / (p * l),
            p > 0,
            p * l > 0,
    ;
    assert(0 <= (d / (p * l)) * (p * l) <= d) by (nonlinear_arith)
        requires
            d == d % p + ((d / p) % l) * p + (d / (p * l)) * (p * l),
            0 <= d % p,
            0 <= (d / p) % l,
            0 <= d / (p * l),
            p > 0,
            p * l > 0,
    ;
    let x2 = w.load_value2 as int;
    let y2 = w.store_value2 as int;
    vstd::arithmetic::power2::lemma2_to64();
    assert(0 <= us < 0x1_0000_0000_0000_0000);
    assert(0 <= ud < 0x1_0000_0000_0000_0000);
    assert(-0x1_0000_0000_0000_0000 * 0x1_0000_0000_0000_0000 <= pow2(64) * (x2 - y2) <= 0x1_0000_0000_0000_0000
        * 0x1_0000_0000_0000_0000) by (nonlinear_arith)
        requires
            pow2(64) == 0x1_0000_0000_0000_0000,
            0 <= x2 < 0x1_0000_0000_0000_0000,
            0 <= y2 < 0x1_0000_0000_0000_0000,
    ;
    crate::circuits::utils::lemma_fzero_small(ud - us + pow2(64) * (x2 - y2));
    if x2 != y2 {
        assert(pow2(64) * (x2 - y2) >= pow2(64) || pow2(64) * (x2 - y2) <= -pow2(64)) by (nonlinear_arith)
            requires
                x2 != y2,
                pow2(64) > 0,
        ;
    }
    assert(x2 == y2);
    assert(us == ud);
    assert(p <= p * l) by (nonlinear_arith)
        requires
            p > 0,
            l >= 1,
    ;
    vstd::arithmetic::mul::lemma_mul_is_commutative(p * l, s / (p * l));
    vstd::arithmetic::mul::lemma_mul_is_commutative(p * l, d / (p * l));
    vstd::arithmetic::div_mod::lemma_fundamental_div_mod_converse(us, p * l, s / (p * l), s % p);
    vstd::arithmetic::div_mod::lemma_fundamental_div_mod_converse(ud, p * l, d / (p * l), d % p);
}

} // verus!
