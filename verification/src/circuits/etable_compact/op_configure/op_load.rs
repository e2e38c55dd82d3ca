//! The gadget of the memory loads: the load's address is split into the
//! block of eight bytes that it starts in and the offset in that block, the
//! bytes read are picked out of the block by a mask, and the result is what
//! was read, its sign extended for the signed loads.

use vstd::prelude::*;
use crate::circuits::utils::FieldValue;
use vstd::arithmetic::power2::{lemma2_to64, lemma_pow2_pos, lemma_pow2_strictly_increases, pow2};
use crate::circuits::etable_compact::op_configure::{
    assign_mtable_lookups, mtable_lookup_cell_ok, mtable_lookup_writes,
    bit_cell_at, bit_cell_ok, bit_writes, common_range_cell_ok, common_range_writes, mtable_lookup_cell_at,
    lemma_append_assoc, one_write, pow_table_value, u64_cell_at, u64_cell_ok, u64_cell_writes, u64_on_u8_cell_at,
    u64_on_u8_cell_ok, u64_on_u8_cell_writes, BitCell, CommonRangeCell, EventTableCellAllocator,
    MTableLookupCell, OffsetLenBitsTableLookupCell, PowTableLookupCell, U64Cell, U64OnU8Cell,
};
use crate::circuits::etable_compact::{StepStatus, BIT_CELLS, COL_AUX, COL_STATE, ETABLE_STEP_SIZE};
use crate::circuits::step::{bits_of, read_byte_size, read_is_sign, MemoryReadSize, StepInfo, VarType};
use crate::circuits::etable_compact::op_configure::row_at;
use crate::circuits::etable_compact::op_configure::checks::{mask_matches, masked_bytes_of, pow_lookup_ok};
use crate::circuits::etable_compact::op_configure::op_bin::nibble_at;
use crate::circuits::utils::{b2i, fv_bool, fzero, lemma_digit_index, weighted, CellWrite, Context};
use crate::circuits::etable_compact::op_configure::{byte, nibble, pow_table_entry};
use crate::circuits::etable_compact::op_configure::op_bin_shift::{in_pow_table, pow_table_encode};
use vstd::arithmetic::power::pow;

verus! {

/// The cells of the gadget.
#[derive(Clone, Debug)]
pub struct LoadConfig {
    pub origin_mmid: CommonRangeCell,
    pub local: BitCell,
    pub opcode_load_offset: CommonRangeCell,
    pub load_start_block_index: CommonRangeCell,
    pub load_start_block_inner_offset: CommonRangeCell,
    pub load_start_block_inner_offset_helper: CommonRangeCell,
    pub load_end_block_index: CommonRangeCell,
    pub load_end_block_inner_offset: CommonRangeCell,
    pub load_end_block_inner_offset_helper: CommonRangeCell,
    pub load_value1: U64OnU8Cell,
    pub load_value2: U64OnU8Cell,
    pub mask_bits: Vec<BitCell>,
    pub offset_modulus: U64OnU8Cell,
    pub res: U64Cell,
    pub value_in_heap: U64Cell,
    pub load_base: U64Cell,
    pub vtype: CommonRangeCell,
    pub is_one_byte: BitCell,
    pub is_two_bytes: BitCell,
    pub is_four_bytes: BitCell,
    pub is_eight_bytes: BitCell,
    pub is_sign: BitCell,
    pub is_i64: BitCell,
    pub highest_u4: Vec<BitCell>,
    pub lookup_stack_read: MTableLookupCell,
    pub lookup_heap_read1: MTableLookupCell,
    pub lookup_heap_read2: MTableLookupCell,
    pub lookup_stack_write: MTableLookupCell,
    pub lookup_offset_len_bits: OffsetLenBitsTableLookupCell,
    pub lookup_pow: PowTableLookupCell,
}

/// Builds the gadget.
pub struct LoadConfigBuilder {}

/// The cells that the gadget takes from an allocator in state `a`: the
/// common range cells, bytes, 64-bit values and bits in the order in which
/// the gadget asks for them.
pub open spec fn load_layout(c: LoadConfig, a: EventTableCellAllocator) -> bool {
    let r = a.common_range_index as int;
    let b = a.bit_index as int;
    let u = a.u64_index as int;
    let v = a.u64_on_u8_index as int;
    let t = a.mtable_lookup_index as int;
    &&& c.origin_mmid == CommonRangeCell { col: COL_STATE, rot: r as i32 }
    &&& c.local == bit_cell_at(b)
    &&& c.opcode_load_offset == CommonRangeCell { col: COL_STATE, rot: (r + 1) as i32 }
    &&& c.load_start_block_index == CommonRangeCell { col: COL_STATE, rot: (r + 2) as i32 }
    &&& c.load_start_block_inner_offset == CommonRangeCell { col: COL_STATE, rot: (r + 3) as i32 }
    &&& c.load_start_block_inner_offset_helper == CommonRangeCell { col: COL_STATE, rot: (r + 4) as i32 }
    &&& c.load_end_block_index == CommonRangeCell { col: COL_STATE, rot: (r + 5) as i32 }
    &&& c.load_end_block_inner_offset == CommonRangeCell { col: COL_STATE, rot: (r + 6) as i32 }
    &&& c.load_end_block_inner_offset_helper == CommonRangeCell { col: COL_STATE, rot: (r + 7) as i32 }
    &&& c.load_value1 == u64_on_u8_cell_at(v)
    &&& c.load_value2 == u64_on_u8_cell_at(v + 1)
    &&& c.offset_modulus == u64_on_u8_cell_at(v + 2)
    &&& c.res == u64_cell_at(u)
    &&& c.value_in_heap == u64_cell_at(u + 1)
    &&& c.load_base == u64_cell_at(u + 2)
    &&& c.mask_bits@ == Seq::new(16, |i: int| bit_cell_at(b + 1 + i))
    &&& c.is_one_byte == bit_cell_at(b + 17)
    &&& c.is_two_bytes == bit_cell_at(b + 18)
    &&& c.is_four_bytes == bit_cell_at(b + 19)
    &&& c.is_eight_bytes == bit_cell_at(b + 20)
    &&& c.is_sign == bit_cell_at(b + 21)
    &&& c.is_i64 == bit_cell_at(b + 22)
    &&& c.vtype == CommonRangeCell { col: COL_STATE, rot: (r + 8) as i32 }
    &&& c.highest_u4@ == Seq::new(4, |i: int| bit_cell_at(b + 23 + i))
    &&& c.lookup_stack_read == mtable_lookup_cell_at(t)
    &&& c.lookup_heap_read1 == mtable_lookup_cell_at(t + 1)
    &&& c.lookup_heap_read2 == mtable_lookup_cell_at(t + 2)
    &&& c.lookup_stack_write == mtable_lookup_cell_at(t + 3)
    &&& c.lookup_offset_len_bits == OffsetLenBitsTableLookupCell {
        col: COL_AUX,
        rot: a.offset_len_bits_lookup_index,
    }
    &&& c.lookup_pow == PowTableLookupCell { col: COL_AUX, rot: a.pow_table_lookup_index }
}


/// The values that a load step puts in the gadget's cells.
#[derive(Clone, Copy, Debug, PartialEq, Eq, Structural)]
pub struct LoadWitness {
    pub origin_mmid: u16,
    pub local: bool,
    pub offset: u16,
    pub start_block: u16,
    pub start_inner: u16,
    pub start_helper: u16,
    pub end_block: u16,
    pub end_inner: u16,
    pub end_helper: u16,
    pub load_value1: u64,
    pub load_value2: u64,
    pub mask: u64,
    pub offset_modulus: u64,
    pub load_base: u64,
    pub value_in_heap: u64,
    pub res: u64,
    pub highest0: bool,
    pub highest1: bool,
    pub highest2: bool,
    pub highest3: bool,
    pub is_one_byte: bool,
    pub is_two_bytes: bool,
    pub is_four_bytes: bool,
    pub is_eight_bytes: bool,
    pub is_sign: bool,
    pub is_i64: bool,
    pub vtype: u16,
    pub pow: u64,
}

/// Bit `k` of `x`.
pub open spec fn bit_of(x: int, k: nat) -> bool {
    (x / pow2(k) as int) % 2 == 1
}

/// What a load read from memory: the result itself, or, for a signed load
/// whose result is negative, the result's low bytes that it read.
pub open spec fn load_value_in_heap(value: u64, vtype: VarType, size: MemoryReadSize) -> u64 {
    if read_is_sign(size) && value as int / pow2((bits_of(vtype) - 1) as nat) as int == 1 {
        (value as int % pow2(8 * read_byte_size(size)) as int) as u64
    } else {
        value
    }
}

/// The bits of the mask of a load of `len` bytes at `inner` in its block:
/// the bits from `inner` on, `len` of them.
pub open spec fn offset_len_bits(inner: nat, len: nat) -> int {
    (pow2(len) - 1) * pow2(inner)
}

/// The number of the value type in a common range cell.
pub open spec fn vtype_number(t: VarType) -> u16 {
    match t {
        VarType::I32 => 1u16,
        VarType::I64 => 2u16,
    }
}

/// The values that the gadget assigns for a load step with these fields,
/// when the step starts in module instance `moid`.
pub open spec fn load_witness_of(
    origin_mmid: u16,
    vtype: VarType,
    load_size: MemoryReadSize,
    offset: u32,
    raw_address: u32,
    effective_address: u32,
    value: u64,
    block_value: u64,
    block_value2: u64,
    moid: u16,
) -> LoadWitness {
    let len = read_byte_size(load_size);
    let start = effective_address as int;
    let end = start + len - 1;
    let inner = (start % 8) as nat;
    let vih = load_value_in_heap(value, vtype, load_size);
    LoadWitness {
        origin_mmid,
        local: origin_mmid == moid,
        offset: offset as u16,
        start_block: (start / 8) as u16,
        start_inner: inner as u16,
        start_helper: (7 - inner) as u16,
        end_block: (end / 8) as u16,
        end_inner: (end % 8) as u16,
        end_helper: (7 - end % 8) as u16,
        load_value1: block_value,
        load_value2: block_value2,
        mask: offset_len_bits(inner, len) as u64,
        offset_modulus: pow2(8 * inner) as u64,
        load_base: raw_address as u64,
        value_in_heap: vih,
        res: value,
        highest0: bit_of(vih as int, (8 * len - 1) as nat),
        highest1: bit_of(vih as int, (8 * len - 2) as nat),
        highest2: bit_of(vih as int, (8 * len - 3) as nat),
        highest3: bit_of(vih as int, (8 * len - 4) as nat),
        is_one_byte: len == 1,
        is_two_bytes: len == 2,
        is_four_bytes: len == 4,
        is_eight_bytes: len == 8,
        is_sign: read_is_sign(load_size),
        is_i64: vtype == VarType::I64,
        vtype: vtype_number(vtype),
        pow: (8 * inner) as u64,
    }
}

/// The values that the gadget assigns for a load step, when the step
/// starts in module instance `moid`.
pub open spec fn spec_load_witness(step: StepInfo, moid: u16) -> LoadWitness {
    match step {
        StepInfo::Load {
            origin_mmid,
            vtype,
            load_size,
            offset,
            raw_address,
            effective_address,
            value,
            block_value,
            block_value2,
        } => load_witness_of(
            origin_mmid,
            vtype,
            load_size,
            offset,
            raw_address,
            effective_address,
            value,
            block_value,
            block_value2,
            moid,
        ),
        _ => load_witness_of(0, VarType::I32, MemoryReadSize::U32, 0, 0, 0, 0, 0, 0, moid),
    }
}

/// The load step's cells fit their ranges: the offset and the indices of
/// the blocks that the load touches fit in two bytes.
pub open spec fn load_in_range(step: StepInfo) -> bool {
    match step {
        StepInfo::Load { load_size, offset, effective_address, .. } => {
            &&& offset < 0x10000
            &&& (effective_address + read_byte_size(load_size) - 1) / 8 < 0x10000
        },
        _ => false,
    }
}

/// Bit `k` of `x`.
pub(crate) fn bit_at(x: u64, k: u64) -> (r: bool)
    requires
        k < 64,
    ensures
        r == bit_of(x as int, k as nat),
{
    let y: u64 = x >> k;
    proof {
        vstd::bits::lemma_u64_shr_is_div(x, k);
        vstd::bits::lemma_u64_low_bits_mask_is_mod(y, 1);
        lemma2_to64();
    }
    (y & 1) == 1
}

/// Two to the `k`.
pub(crate) fn pow2_u64(k: u64) -> (r: u64)
    requires
        k < 64,
    ensures
        r == pow2(k as nat),
{
    proof {
        vstd::bits::lemma_u64_pow2_no_overflow(k as nat);
        vstd::bits::lemma_u64_shl_is_mul(1, k);
    }
    1u64 << k
}

/// Computes the values that the gadget assigns for a load step.
pub fn load_step_witness(step: &StepInfo, status: &StepStatus) -> (w: LoadWitness)
    requires
        load_in_range(*step),
    ensures
        w == spec_load_witness(*step, status.current.moid),
{
    match step {
        StepInfo::Load {
            origin_mmid,
            vtype,
            load_size,
            offset,
            raw_address,
            effective_address,
            value,
            block_value,
            block_value2,
        } => {
            let len = load_size.byte_size();
            let start: u64 = *effective_address as u64;
            let end: u64 = start + len - 1;
            let inner: u64 = start % 8;
            let pl = pow2_u64(len);
            let pi = pow2_u64(inner);
            proof {
                lemma2_to64();
                assert(1 <= pl <= 256);
                assert(1 <= pi <= 128);
                assert((pl - 1) * pi <= 255 * 128) by (nonlinear_arith)
                    requires
                        1 <= pl <= 256,
                        1 <= pi <= 128,
                ;
            }
            let bits: u64 = (pl - 1) * pi;
            let modulus = pow2_u64(inner * 8);
            let vt: u64 = match vtype {
                VarType::I32 => 1,
                VarType::I64 => 2,
            };
            let sh: u64 = vt * 32 - 1;
            let highest_bit: u64 = *value >> sh;
            proof {
                lemma2_to64();
                vstd::bits::lemma_u64_shr_is_div(*value, sh);
            }
            let vih: u64 = if load_size.is_sign() && highest_bit == 1 {
                if len == 8 {
                    proof {
                        assert(*value & 0xffff_ffff_ffff_ffffu64 == *value) by (bit_vector);
                        vstd::arithmetic::div_mod::lemma_small_mod(*value as nat, pow2(64));
                    }
                    *value & 0xffff_ffff_ffff_ffff
                } else {
                    let m: u64 = pow2_u64(len * 8) - 1;
                    proof {
                        vstd::bits::lemma_u64_low_bits_mask_is_mod(*value, (len * 8) as nat);
                    }
                    *value & m
                }
            } else {
                *value
            };
            let h0 = bit_at(vih, 8 * len - 1);
            let h1 = bit_at(vih, 8 * len - 2);
            let h2 = bit_at(vih, 8 * len - 3);
            let h3 = bit_at(vih, 8 * len - 4);
            LoadWitness {
                origin_mmid: *origin_mmid,
                local: *origin_mmid == status.current.moid,
                offset: *offset as u16,
                start_block: (start / 8) as u16,
                start_inner: inner as u16,
                start_helper: (7 - inner) as u16,
                end_block: (end / 8) as u16,
                end_inner: (end % 8) as u16,
                end_helper: (7 - end % 8) as u16,
                load_value1: *block_value,
                load_value2: *block_value2,
                mask: bits,
                offset_modulus: modulus,
                load_base: *raw_address as u64,
                value_in_heap: vih,
                res: *value,
                highest0: h0,
                highest1: h1,
                highest2: h2,
                highest3: h3,
                is_one_byte: len == 1,
                is_two_bytes: len == 2,
                is_four_bytes: len == 4,
                is_eight_bytes: len == 8,
                is_sign: load_size.is_sign(),
                is_i64: vt == 2,
                vtype: vt as u16,
                pow: inner * 8,
            }
        },
        _ => {
            proof {
                assert(false);
            }
            LoadWitness {
                origin_mmid: 0,
                local: false,
                offset: 0,
                start_block: 0,
                start_inner: 0,
                start_helper: 0,
                end_block: 0,
                end_inner: 0,
                end_helper: 0,
                load_value1: 0,
                load_value2: 0,
                mask: 0,
                offset_modulus: 0,
                load_base: 0,
                value_in_heap: 0,
                res: 0,
                highest0: false,
                highest1: false,
                highest2: false,
                highest3: false,
                is_one_byte: false,
                is_two_bytes: false,
                is_four_bytes: false,
                is_eight_bytes: false,
                is_sign: false,
                is_i64: false,
                vtype: 0,
                pow: 0,
            }
        },
    }
}

impl LoadConfig {
    /// Every cell lies within a block, with sixteen mask bits and four bits
    /// for the leading nibble of the value read.
    pub open spec fn wf(self) -> bool {
        &&& common_range_cell_ok(self.origin_mmid)
        &&& bit_cell_ok(self.local)
        &&& common_range_cell_ok(self.opcode_load_offset)
        &&& common_range_cell_ok(self.load_start_block_index)
        &&& common_range_cell_ok(self.load_start_block_inner_offset)
        &&& common_range_cell_ok(self.load_start_block_inner_offset_helper)
        &&& common_range_cell_ok(self.load_end_block_index)
        &&& common_range_cell_ok(self.load_end_block_inner_offset)
        &&& common_range_cell_ok(self.load_end_block_inner_offset_helper)
        &&& u64_on_u8_cell_ok(self.load_value1)
        &&& u64_on_u8_cell_ok(self.load_value2)
        &&& u64_on_u8_cell_ok(self.offset_modulus)
        &&& u64_cell_ok(self.res)
        &&& u64_cell_ok(self.value_in_heap)
        &&& u64_cell_ok(self.load_base)
        &&& self.mask_bits.len() == 16
        &&& (forall|i: int| 0 <= i < 16 ==> bit_cell_ok(#[trigger] self.mask_bits@[i]))
        &&& bit_cell_ok(self.is_one_byte)
        &&& bit_cell_ok(self.is_two_bytes)
        &&& bit_cell_ok(self.is_four_bytes)
        &&& bit_cell_ok(self.is_eight_bytes)
        &&& bit_cell_ok(self.is_sign)
        &&& bit_cell_ok(self.is_i64)
        &&& common_range_cell_ok(self.vtype)
        &&& self.highest_u4.len() == 4
        &&& (forall|i: int| 0 <= i < 4 ==> bit_cell_ok(#[trigger] self.highest_u4@[i]))
        &&& 0 <= self.lookup_pow.rot < ETABLE_STEP_SIZE
        &&& mtable_lookup_cell_ok(self.lookup_stack_read)
        &&& mtable_lookup_cell_ok(self.lookup_heap_read1)
        &&& mtable_lookup_cell_ok(self.lookup_heap_read2)
        &&& mtable_lookup_cell_ok(self.lookup_stack_write)
    }

    /// The memory table lookup cells of the step, in the order of the
    /// gadget's cells.
    pub open spec fn lookups(self) -> Seq<MTableLookupCell> {
        seq![self.lookup_stack_read, self.lookup_heap_read1, self.lookup_heap_read2, self.lookup_stack_write]
    }
}

/// Takes `n` bit cells, in order, into a vector.
pub(crate) fn alloc_bits(common: &mut EventTableCellAllocator, n: usize) -> (r: Vec<BitCell>)
    requires
        old(common).wf(),
        old(common).bit_index + n <= BIT_CELLS,
    ensures
        r@ == Seq::new(n as nat, |i: int| bit_cell_at(old(common).bit_index + i)),
        *final(common) == (EventTableCellAllocator { bit_index: (old(common).bit_index + n) as i32, ..*old(common) }),
        final(common).wf(),
{
    let mut r: Vec<BitCell> = Vec::new();
    let mut i: usize = 0;
    while i < n
        invariant
            i <= n,
            common.wf(),
            old(common).bit_index + n <= BIT_CELLS,
            *common == (EventTableCellAllocator { bit_index: (old(common).bit_index + i) as i32, ..*old(common) }),
            r@ == Seq::new(i as nat, |k: int| bit_cell_at(old(common).bit_index + k)),
        decreases n - i,
    {
        let c = common.alloc_bit_value();
        r.push(c);
        i = i + 1;
        proof {
            assert(r@ =~= Seq::new(i as nat, |k: int| bit_cell_at(old(common).bit_index + k)));
        }
    }
    r
}

impl LoadConfigBuilder {
    /// Takes the gadget's cells from the allocator of its block.
    pub fn configure(common: &mut EventTableCellAllocator) -> (r: LoadConfig)
        requires
            old(common).wf(),
            old(common).common_range_index + 9 <= ETABLE_STEP_SIZE,
            old(common).bit_index + 27 <= BIT_CELLS,
            old(common).u64_index + 3 <= 3,
            old(common).u64_on_u8_index + 3 <= 4,
            old(common).mtable_lookup_index + 4 <= 11,
            old(common).offset_len_bits_lookup_index < 4,
            old(common).pow_table_lookup_index + 1 <= 3,
        ensures
            load_layout(r, *old(common)),
            r.wf(),
            final(common).wf(),
    {
        let ghost a = *old(common);
        let origin_mmid = common.alloc_common_range_value();
        let local = common.alloc_bit_value();
        let opcode_load_offset = common.alloc_common_range_value();
        let load_start_block_index = common.alloc_common_range_value();
        let load_start_block_inner_offset = common.alloc_common_range_value();
        let load_start_block_inner_offset_helper = common.alloc_common_range_value();
        let load_end_block_index = common.alloc_common_range_value();
        let load_end_block_inner_offset = common.alloc_common_range_value();
        let load_end_block_inner_offset_helper = common.alloc_common_range_value();
        let load_value1 = common.alloc_u64_on_u8();
        let load_value2 = common.alloc_u64_on_u8();
        let offset_modulus = common.alloc_u64_on_u8();
        let res = common.alloc_u64();
        let value_in_heap = common.alloc_u64();
        let load_base = common.alloc_u64();
        let mask_bits = alloc_bits(common, 16);
        let is_one_byte = common.alloc_bit_value();
        let is_two_bytes = common.alloc_bit_value();
        let is_four_bytes = common.alloc_bit_value();
        let is_eight_bytes = common.alloc_bit_value();
        let is_sign = common.alloc_bit_value();
        let is_i64 = common.alloc_bit_value();
        let vtype = common.alloc_common_range_value();
        let highest_u4 = alloc_bits(common, 4);
        let lookup_stack_read = common.alloc_mtable_lookup();
        let lookup_heap_read1 = common.alloc_mtable_lookup();
        let lookup_heap_read2 = common.alloc_mtable_lookup();
        let lookup_stack_write = common.alloc_mtable_lookup();
        let lookup_offset_len_bits = common.alloc_offset_len_bits_table_lookup();
        let lookup_pow = common.alloc_pow_table_lookup();
        let r = LoadConfig {
            origin_mmid,
            local,
            opcode_load_offset,
            load_start_block_index,
            load_start_block_inner_offset,
            load_start_block_inner_offset_helper,
            load_end_block_index,
            load_end_block_inner_offset,
            load_end_block_inner_offset_helper,
            load_value1,
            load_value2,
            mask_bits,
            offset_modulus,
            res,
            value_in_heap,
            load_base,
            vtype,
            is_one_byte,
            is_two_bytes,
            is_four_bytes,
            is_eight_bytes,
            is_sign,
            is_i64,
            highest_u4,
            lookup_stack_read,
            lookup_heap_read1,
            lookup_heap_read2,
            lookup_stack_write,
            lookup_offset_len_bits,
            lookup_pow,
        };
        proof {
            let b = a.bit_index as int;
            assert(r.mask_bits@ =~= Seq::new(16, |i: int| bit_cell_at(b + 1 + i)));
            assert(r.highest_u4@ =~= Seq::new(4, |i: int| bit_cell_at(b + 23 + i)));
            assert forall|i: int| 0 <= i < 16 implies bit_cell_ok(#[trigger] r.mask_bits@[i]) by {
                assert(r.mask_bits@[i] == bit_cell_at(b + 1 + i));
            }
            assert forall|i: int| 0 <= i < 4 implies bit_cell_ok(#[trigger] r.highest_u4@[i]) by {
                assert(r.highest_u4@[i] == bit_cell_at(b + 23 + i));
            }
        }
        r
    }
}

/// The assignments of the bit cells `cells` to the values `vals`, in order.
pub open spec fn bool_writes(cells: Seq<BitCell>, o: int, vals: Seq<bool>) -> Seq<CellWrite> {
    Seq::new(
        cells.len(),
        |i: int| CellWrite { col: cells[i].col, row: row_at(o, cells[i].rot as int), value: fv_bool(vals[i]) },
    )
}

/// The sixteen bits of a mask, lowest first.
pub open spec fn mask_values(mask: u64) -> Seq<bool> {
    Seq::new(16, |i: int| bit_of(mask as int, i as nat))
}

/// Assigns the bit cells `cells` the values `vals`, in order.
pub(crate) fn assign_bool_cells(cells: &Vec<BitCell>, ctx: &mut Context, vals: &Vec<bool>)
    requires
        cells.len() == vals.len(),
        forall|i: int| 0 <= i < cells.len() ==> bit_cell_ok(#[trigger] cells@[i]),
        old(ctx).offset + 40 <= i32::MAX,
    ensures
        final(ctx).offset == old(ctx).offset,
        final(ctx).writes@ == old(ctx).writes@ + bool_writes(cells@, old(ctx).offset as int, vals@),
{
    let ghost start = old(ctx).writes@;
    let ghost o = old(ctx).offset as int;
    let mut i: usize = 0;
    while i < cells.len()
        invariant
            i <= cells.len(),
            cells.len() == vals.len(),
            forall|k: int| 0 <= k < cells.len() ==> bit_cell_ok(#[trigger] cells@[k]),
            ctx.offset == o,
            o + 40 <= i32::MAX,
            ctx.writes@ == start + bool_writes(cells@, o, vals@).take(i as int),
        decreases cells.len() - i,
    {
        assert(bit_cell_ok(cells@[i as int]));
        cells[i].assign(ctx, vals[i]);
        proof {
            assert(bool_writes(cells@, o, vals@).take(i as int + 1) =~= bool_writes(cells@, o, vals@).take(
                i as int,
            ).push(bool_writes(cells@, o, vals@)[i as int]));
            assert(ctx.writes@ =~= start + bool_writes(cells@, o, vals@).take(i as int + 1));
        }
        i = i + 1;
    }
    proof {
        assert(bool_writes(cells@, o, vals@).take(cells.len() as int) =~= bool_writes(cells@, o, vals@));
    }
}

/// The assignments of the cells that locate a load.
pub open spec fn load_writes_head(c: LoadConfig, o: int, w: LoadWitness) -> Seq<CellWrite> {
    common_range_writes(c.origin_mmid, o, w.origin_mmid) + bit_writes(c.local, o, w.local)
        + common_range_writes(c.opcode_load_offset, o, w.offset) + common_range_writes(
        c.load_start_block_index,
        o,
        w.start_block,
    ) + common_range_writes(c.load_start_block_inner_offset, o, w.start_inner) + common_range_writes(
        c.load_start_block_inner_offset_helper,
        o,
        w.start_helper,
    ) + common_range_writes(c.load_end_block_index, o, w.end_block) + common_range_writes(
        c.load_end_block_inner_offset,
        o,
        w.end_inner,
    ) + common_range_writes(c.load_end_block_inner_offset_helper, o, w.end_helper)
}

/// The assignments of the blocks read and of the mask.
pub open spec fn load_writes_blocks(c: LoadConfig, o: int, w: LoadWitness) -> Seq<CellWrite> {
    u64_on_u8_cell_writes(c.load_value1, o, w.load_value1) + u64_on_u8_cell_writes(c.load_value2, o, w.load_value2)
        + bool_writes(c.mask_bits@, o, mask_values(w.mask))
}

/// The assignments of the values of the load.
pub open spec fn load_writes_values(c: LoadConfig, o: int, w: LoadWitness) -> Seq<CellWrite> {
    u64_on_u8_cell_writes(c.offset_modulus, o, w.offset_modulus) + u64_cell_writes(c.load_base, o, w.load_base)
        + u64_cell_writes(c.value_in_heap, o, w.value_in_heap) + u64_cell_writes(c.res, o, w.res) + bool_writes(
        c.highest_u4@,
        o,
        seq![w.highest0, w.highest1, w.highest2, w.highest3],
    )
}

/// The assignments of the flags, the value type and the power lookup.
pub open spec fn load_writes_flags(c: LoadConfig, o: int, w: LoadWitness) -> Seq<CellWrite> {
    bit_writes(c.is_one_byte, o, w.is_one_byte) + bit_writes(c.is_two_bytes, o, w.is_two_bytes) + bit_writes(
        c.is_four_bytes,
        o,
        w.is_four_bytes,
    ) + bit_writes(c.is_eight_bytes, o, w.is_eight_bytes) + bit_writes(c.is_sign, o, w.is_sign) + bit_writes(
        c.is_i64,
        o,
        w.is_i64,
    ) + common_range_writes(c.vtype, o, w.vtype)
}

/// The assignment of the power table lookup.
pub open spec fn load_writes_pow(c: LoadConfig, o: int, w: LoadWitness) -> Seq<CellWrite> {
    one_write(c.lookup_pow.col, o, c.lookup_pow.rot as int, pow_table_value(w.pow))
}

/// The assignments that the gadget makes for a load, in order.
pub open spec fn load_writes(c: LoadConfig, o: int, w: LoadWitness) -> Seq<CellWrite> {
    load_writes_head(c, o, w) + load_writes_blocks(c, o, w) + load_writes_values(c, o, w) + load_writes_flags(
        c,
        o,
        w,
    ) + load_writes_pow(c, o, w)
}

impl LoadConfig {
    fn assign_head(&self, ctx: &mut Context, w: &LoadWitness)
        requires
            self.wf(),
            old(ctx).offset + 40 <= i32::MAX,
        ensures
            final(ctx).offset == old(ctx).offset,
            final(ctx).writes@ == old(ctx).writes@ + load_writes_head(*self, old(ctx).offset as int, *w),
    {
        self.origin_mmid.assign(ctx, w.origin_mmid);
        self.local.assign(ctx, w.local);
        self.opcode_load_offset.assign(ctx, w.offset);
        self.load_start_block_index.assign(ctx, w.start_block);
        self.load_start_block_inner_offset.assign(ctx, w.start_inner);
        self.load_start_block_inner_offset_helper.assign(ctx, w.start_helper);
        self.load_end_block_index.assign(ctx, w.end_block);
        self.load_end_block_inner_offset.assign(ctx, w.end_inner);
        self.load_end_block_inner_offset_helper.assign(ctx, w.end_helper);
        proof {
            assert(ctx.writes@ =~= old(ctx).writes@ + load_writes_head(*self, old(ctx).offset as int, *w));
        }
    }

    fn assign_blocks(&self, ctx: &mut Context, w: &LoadWitness)
        requires
            self.wf(),
            old(ctx).offset + 40 <= i32::MAX,
        ensures
            final(ctx).offset == old(ctx).offset,
            final(ctx).writes@ == old(ctx).writes@ + load_writes_blocks(*self, old(ctx).offset as int, *w),
    {
        self.load_value1.assign(ctx, w.load_value1);
        self.load_value2.assign(ctx, w.load_value2);
        let mut mvals: Vec<bool> = Vec::new();
        let mut i: u64 = 0;
        while i < 16
            invariant
                i <= 16,
                mvals@ == mask_values(w.mask).take(i as int),
            decreases 16 - i,
        {
            let b = bit_at(w.mask, i);
            mvals.push(b);
            i = i + 1;
            proof {
                assert(mvals@ =~= mask_values(w.mask).take(i as int));
            }
        }
        proof {
            assert(mvals@ =~= mask_values(w.mask));
        }
        assign_bool_cells(&self.mask_bits, ctx, &mvals);
        proof {
            assert(ctx.writes@ =~= old(ctx).writes@ + load_writes_blocks(*self, old(ctx).offset as int, *w));
        }
    }

    fn assign_values(&self, ctx: &mut Context, w: &LoadWitness)
        requires
            self.wf(),
            old(ctx).offset + 40 <= i32::MAX,
        ensures
            final(ctx).offset == old(ctx).offset,
            final(ctx).writes@ == old(ctx).writes@ + load_writes_values(*self, old(ctx).offset as int, *w),
    {
        self.offset_modulus.assign(ctx, w.offset_modulus);
        self.load_base.assign(ctx, w.load_base);
        self.value_in_heap.assign(ctx, w.value_in_heap);
        self.res.assign(ctx, w.res);
        let hvals: Vec<bool> = vec![w.highest0, w.highest1, w.highest2, w.highest3];
        proof {
            assert(hvals@ =~= seq![w.highest0, w.highest1, w.highest2, w.highest3]);
        }
        assign_bool_cells(&self.highest_u4, ctx, &hvals);
        proof {
            assert(ctx.writes@ =~= old(ctx).writes@ + load_writes_values(*self, old(ctx).offset as int, *w));
        }
    }

    fn assign_flags(&self, ctx: &mut Context, w: &LoadWitness)
        requires
            self.wf(),
            old(ctx).offset + 40 <= i32::MAX,
        ensures
            final(ctx).offset == old(ctx).offset,
            final(ctx).writes@ == old(ctx).writes@ + load_writes_flags(*self, old(ctx).offset as int, *w),
    {
        let ghost o = old(ctx).offset as int;
        let ghost s0 = old(ctx).writes@;
        let ghost f1 = bit_writes(self.is_one_byte, o, w.is_one_byte) + bit_writes(self.is_two_bytes, o, w.is_two_bytes);
        let ghost f2 = f1 + bit_writes(self.is_four_bytes, o, w.is_four_bytes);
        let ghost f3 = f2 + bit_writes(self.is_eight_bytes, o, w.is_eight_bytes);
        let ghost f4 = f3 + bit_writes(self.is_sign, o, w.is_sign);
        let ghost f5 = f4 + bit_writes(self.is_i64, o, w.is_i64);
        let ghost f6 = f5 + common_range_writes(self.vtype, o, w.vtype);
        self.is_one_byte.assign(ctx, w.is_one_byte);
        self.is_two_bytes.assign(ctx, w.is_two_bytes);
        proof {
            lemma_append_assoc(s0, bit_writes(self.is_one_byte, o, w.is_one_byte), bit_writes(self.is_two_bytes, o, w.is_two_bytes));
        }
        self.is_four_bytes.assign(ctx, w.is_four_bytes);
        proof {
            lemma_append_assoc(s0, f1, bit_writes(self.is_four_bytes, o, w.is_four_bytes));
        }
        self.is_eight_bytes.assign(ctx, w.is_eight_bytes);
        proof {
            lemma_append_assoc(s0, f2, bit_writes(self.is_eight_bytes, o, w.is_eight_bytes));
        }
        self.is_sign.assign(ctx, w.is_sign);
        proof {
            lemma_append_assoc(s0, f3, bit_writes(self.is_sign, o, w.is_sign));
        }
        self.is_i64.assign(ctx, w.is_i64);
        proof {
            lemma_append_assoc(s0, f4, bit_writes(self.is_i64, o, w.is_i64));
        }
        self.vtype.assign(ctx, w.vtype);
        proof {
            lemma_append_assoc(s0, f5, common_range_writes(self.vtype, o, w.vtype));
            assert(f6 == load_writes_flags(*self, o, *w));
        }
    }

    /// Assigns the gadget's cells for a load step, and gives the values
    /// assigned.
    fn assign_cells(&self, ctx: &mut Context, status: &StepStatus, step: &StepInfo) -> (w: LoadWitness)
        requires
            self.wf(),
            old(ctx).offset + 40 <= i32::MAX,
            load_in_range(*step),
        ensures
            w == spec_load_witness(*step, status.current.moid),
            final(ctx).offset == old(ctx).offset,
            final(ctx).writes@ == old(ctx).writes@ + load_writes(*self, old(ctx).offset as int, w),
    {
        let w = load_step_witness(step, status);
        let ghost s0 = old(ctx).writes@;
        let ghost o = old(ctx).offset as int;
        self.assign_head(ctx, &w);
        self.assign_blocks(ctx, &w);
        self.assign_values(ctx, &w);
        self.assign_flags(ctx, &w);
        let ghost s4 = ctx.writes@;
        self.lookup_pow.assign(ctx, w.pow);
        proof {
            assert(ctx.writes@ == s4 + load_writes_pow(*self, o, w));
            lemma_append_assoc(s0, load_writes_head(*self, o, w), load_writes_blocks(*self, o, w));
            lemma_append_assoc(
                s0,
                load_writes_head(*self, o, w) + load_writes_blocks(*self, o, w),
                load_writes_values(*self, o, w),
            );
            lemma_append_assoc(
                s0,
                load_writes_head(*self, o, w) + load_writes_blocks(*self, o, w) + load_writes_values(*self, o, w),
                load_writes_flags(*self, o, w),
            );
            lemma_append_assoc(
                s0,
                load_writes_head(*self, o, w) + load_writes_blocks(*self, o, w) + load_writes_values(*self, o, w)
                    + load_writes_flags(*self, o, w),
                load_writes_pow(*self, o, w),
            );
        }
        w
    }

    /// Assigns the step's cells, as `assign_cells` does, and the
    /// encodings `enc` of the step's stack and memory accesses to its
    /// memory table lookup cells, in order.
    pub fn assign(&self, ctx: &mut Context, status: &StepStatus, step: &StepInfo, enc: &Vec<FieldValue>) -> (w: LoadWitness)
        requires
            enc.len() == 4,
            self.wf(),
            old(ctx).offset + 40 <= i32::MAX,
            load_in_range(*step),
        ensures
            w == spec_load_witness(*step, status.current.moid),
            final(ctx).offset == old(ctx).offset,
            final(ctx).writes@ == old(ctx).writes@ + load_writes(*self, old(ctx).offset as int, w) + mtable_lookup_writes(
                self.lookups(),
                old(ctx).offset as int,
                enc@,
            ),
    {
        let w = self.assign_cells(ctx, status, step);
        let mut cells: Vec<MTableLookupCell> = Vec::new();
        cells.push(self.lookup_stack_read);
        cells.push(self.lookup_heap_read1);
        cells.push(self.lookup_heap_read2);
        cells.push(self.lookup_stack_write);
        proof {
            assert(cells@ =~= self.lookups());
        }
        assign_mtable_lookups(ctx, &cells, enc);
        w
    }
}

/// The sum over the bytes `i` below `k` of `v` placed at byte `i`, where
/// bit `shift + i` of the mask is set.
pub open spec fn masked_bytes(v: u64, mask: u64, shift: nat, k: nat) -> int
    decreases k,
{
    if k == 0 {
        0
    } else {
        masked_bytes(v, mask, shift, (k - 1) as nat) + byte(v, k - 1) * pow(256, (k - 1) as nat) * b2i(
            bit_of(mask as int, (shift + k - 1) as nat),
        )
    }
}

/// The number that the sixteen mask bits spell out.
pub open spec fn mask_weight(mask: u64) -> int {
    weighted(Seq::new(16, |i: int| b2i(bit_of(mask as int, i as nat))), 2)
}

/// The number of bytes that the length flags select.
pub open spec fn load_len(w: LoadWitness) -> int {
    1 + b2i(w.is_two_bytes) + 3 * b2i(w.is_four_bytes) + 7 * b2i(w.is_eight_bytes)
}

/// What is added to the value read to extend its sign: the bits above
/// the value read, up to the value type's width.
pub open spec fn load_padding(w: LoadWitness) -> int {
    b2i(w.is_one_byte) * 0xffff_ff00 + b2i(w.is_two_bytes) * 0xffff_0000 + (1 - b2i(w.is_eight_bytes)) * b2i(
        w.is_i64,
    ) * 0xffff_ffff_0000_0000
}

/// The leading nibble of the value read, as the length flags select it.
pub open spec fn load_leading_nibble(w: LoadWitness) -> int {
    b2i(w.is_one_byte) * nibble(w.value_in_heap, 1) + b2i(w.is_two_bytes) * nibble(w.value_in_heap, 3) + b2i(
        w.is_four_bytes,
    ) * nibble(w.value_in_heap, 7) + b2i(w.is_eight_bytes) * nibble(w.value_in_heap, 15)
}

/// The gates of the gadget and its two table lookups, on the values that
/// a step assigned, in a step that starts in module instance `moid`: the
/// load is local when the instances agree; the offsets in the blocks are
/// at most seven; the last byte is `len - 1` past the first; the first
/// byte is the base address plus the offset; one length flag is set; the
/// mask holds the bits from the offset, as many as the length, and the
/// offset modulus is two to eight times the offset; the value read, shifted
/// to its offset, is the masked bytes of the blocks; the result is the
/// value read with its sign extended where the load is signed; the four
/// bits are the value read's leading nibble; and the value type is one
/// more than the 64-bit flag.
pub open spec fn load_gates(w: LoadWitness, moid: u16) -> bool {
    &&& fzero(b2i(w.local) * (w.origin_mmid - moid))
    &&& fzero(w.start_inner + w.start_helper - 7)
    &&& fzero(w.end_inner + w.end_helper - 7)
    &&& fzero(w.start_block * 8 + w.start_inner + load_len(w) - 1 - w.end_block * 8 - w.end_inner)
    &&& fzero(w.load_base + w.offset - w.start_block * 8 - w.start_inner)
    &&& fzero(b2i(w.is_one_byte) + b2i(w.is_two_bytes) + b2i(w.is_four_bytes) + b2i(w.is_eight_bytes) - 1)
    &&& mask_weight(w.mask) == offset_len_bits(w.start_inner as nat, load_len(w) as nat)
    &&& fzero(pow_table_entry(w.pow as nat) - pow_table_encode(w.offset_modulus as int, 8 * w.start_inner))
    &&& in_pow_table(pow_table_entry(w.pow as nat))
    &&& fzero(
        w.value_in_heap * w.offset_modulus - masked_bytes(w.load_value1, w.mask, 0, 8) - pow2(64)
            * masked_bytes(w.load_value2, w.mask, 8, 8),
    )
    &&& fzero(w.res - w.value_in_heap - b2i(w.highest0) * b2i(w.is_sign) * load_padding(w))
    &&& fzero(
        load_leading_nibble(w) - (8 * b2i(w.highest0) + 4 * b2i(w.highest1) + 2 * b2i(w.highest2) + b2i(
            w.highest3,
        )),
    )
    &&& fzero(b2i(w.is_i64) + 1 - w.vtype)
}

/// Whether the gates that locate the load hold.
fn load_location_hold(w: &LoadWitness, moid: u16) -> (b: bool)
    ensures
        b == ({
            &&& fzero(b2i(w.local) * (w.origin_mmid - moid))
            &&& fzero(w.start_inner + w.start_helper - 7)
            &&& fzero(w.end_inner + w.end_helper - 7)
            &&& fzero(w.start_block * 8 + w.start_inner + load_len(*w) - 1 - w.end_block * 8 - w.end_inner)
            &&& fzero(w.load_base + w.offset - w.start_block * 8 - w.start_inner)
            &&& fzero(b2i(w.is_one_byte) + b2i(w.is_two_bytes) + b2i(w.is_four_bytes) + b2i(w.is_eight_bytes) - 1)
        }),
{
    let local: i128 = if w.local { 1 } else { 0 };
    let one: i128 = if w.is_one_byte { 1 } else { 0 };
    let two: i128 = if w.is_two_bytes { 1 } else { 0 };
    let four: i128 = if w.is_four_bytes { 1 } else { 0 };
    let eight: i128 = if w.is_eight_bytes { 1 } else { 0 };
    let len: i128 = 1 + two + 3 * four + 7 * eight;
    let g1: i128 = local * (w.origin_mmid as i128 - moid as i128);
    let g2: i128 = w.start_inner as i128 + w.start_helper as i128 - 7;
    let g3: i128 = w.end_inner as i128 + w.end_helper as i128 - 7;
    let g4: i128 = w.start_block as i128 * 8 + w.start_inner as i128 + len - 1 - w.end_block as i128 * 8
        - w.end_inner as i128;
    let g5: i128 = w.load_base as i128 + w.offset as i128 - w.start_block as i128 * 8 - w.start_inner as i128;
    let g6: i128 = one + two + four + eight - 1;
    proof {
        assert(len == load_len(*w));
        crate::circuits::utils::lemma_fzero_small(g1 as int);
        crate::circuits::utils::lemma_fzero_small(g2 as int);
        crate::circuits::utils::lemma_fzero_small(g3 as int);
        crate::circuits::utils::lemma_fzero_small(g4 as int);
        crate::circuits::utils::lemma_fzero_small(g5 as int);
        crate::circuits::utils::lemma_fzero_small(g6 as int);
    }
    g1 == 0 && g2 == 0 && g3 == 0 && g4 == 0 && g5 == 0 && g6 == 0
}

/// Whether the constraint on the value read holds.
fn load_read_hold(w: &LoadWitness) -> (b: bool)
    ensures
        b == fzero(
            w.value_in_heap * w.offset_modulus - masked_bytes(w.load_value1, w.mask, 0, 8) - pow2(64) * masked_bytes(
                w.load_value2,
                w.mask,
                8,
                8,
            ),
        ),
{
    let m1 = masked_bytes_of(w.load_value1, w.mask, 0);
    let m2 = masked_bytes_of(w.load_value2, w.mask, 8);
    assert((w.value_in_heap as int) * (w.offset_modulus as int) <= 0xffff_ffff_ffff_ffff * 0xffff_ffff_ffff_ffff) by (nonlinear_arith);
    let lhs: u128 = (w.value_in_heap as u128) * (w.offset_modulus as u128);
    let rhs: u128 = m1 + m2 * 0x1_0000_0000_0000_0000;
    proof {
        lemma2_to64();
        crate::circuits::utils::lemma_fzero_small(lhs - m1 - pow2(64) * m2);
    }
    lhs == rhs
}

/// The padding of a signed load, as `load_padding` states it.
fn load_padding_of(w: &LoadWitness) -> (r: i128)
    ensures
        r == load_padding(*w),
        0 <= r <= 0xffff_ffff_ffff_ff00 + 0xffff_0000,
{
    let a: i128 = if w.is_one_byte { 0xffff_ff00 } else { 0 };
    let b: i128 = if w.is_two_bytes { 0xffff_0000 } else { 0 };
    let c: i128 = if w.is_i64 && !w.is_eight_bytes { 0xffff_ffff_0000_0000 } else { 0 };
    proof {
        assert(b2i(w.is_one_byte) * 0xffff_ff00 == a);
        assert(b2i(w.is_two_bytes) * 0xffff_0000 == b);
        assert((1 - b2i(w.is_eight_bytes)) * b2i(w.is_i64) * 0xffff_ffff_0000_0000 == c);
    }
    a + b + c
}

/// The leading nibble of the value read, as `load_leading_nibble` states
/// it.
fn load_leading_nibble_of(w: &LoadWitness) -> (r: i128)
    ensures
        r == load_leading_nibble(*w),
        0 <= r < 64,
{
    let n1 = nibble_at(w.value_in_heap, 1) as i128;
    let n3 = nibble_at(w.value_in_heap, 3) as i128;
    let n7 = nibble_at(w.value_in_heap, 7) as i128;
    let n15 = nibble_at(w.value_in_heap, 15) as i128;
    let a: i128 = if w.is_one_byte { n1 } else { 0 };
    let b: i128 = if w.is_two_bytes { n3 } else { 0 };
    let c: i128 = if w.is_four_bytes { n7 } else { 0 };
    let d: i128 = if w.is_eight_bytes { n15 } else { 0 };
    proof {
        vstd::arithmetic::mul::lemma_mul_basics(nibble(w.value_in_heap, 1));
        vstd::arithmetic::mul::lemma_mul_basics(nibble(w.value_in_heap, 3));
        vstd::arithmetic::mul::lemma_mul_basics(nibble(w.value_in_heap, 7));
        vstd::arithmetic::mul::lemma_mul_basics(nibble(w.value_in_heap, 15));
        assert(b2i(w.is_one_byte) * nibble(w.value_in_heap, 1) == a);
        assert(b2i(w.is_two_bytes) * nibble(w.value_in_heap, 3) == b);
        assert(b2i(w.is_four_bytes) * nibble(w.value_in_heap, 7) == c);
        assert(b2i(w.is_eight_bytes) * nibble(w.value_in_heap, 15) == d);
    }
    a + b + c + d
}

/// Whether the gates on the result, its leading nibble and its type hold.
fn load_result_hold(w: &LoadWitness) -> (b: bool)
    ensures
        b == ({
            &&& fzero(w.res - w.value_in_heap - b2i(w.highest0) * b2i(w.is_sign) * load_padding(*w))
            &&& fzero(
                load_leading_nibble(*w) - (8 * b2i(w.highest0) + 4 * b2i(w.highest1) + 2 * b2i(w.highest2) + b2i(
                    w.highest3,
                )),
            )
            &&& fzero(b2i(w.is_i64) + 1 - w.vtype)
        }),
{
    let padding = load_padding_of(w);
    let lead = load_leading_nibble_of(w);
    let i64f: i128 = if w.is_i64 { 1 } else { 0 };
    let h0: i128 = if w.highest0 { 1 } else { 0 };
    let h1: i128 = if w.highest1 { 1 } else { 0 };
    let h2: i128 = if w.highest2 { 1 } else { 0 };
    let h3: i128 = if w.highest3 { 1 } else { 0 };
    let ext: i128 = if w.highest0 && w.is_sign { padding } else { 0 };
    let g8: i128 = w.res as i128 - w.value_in_heap as i128 - ext;
    let g9: i128 = lead - (8 * h0 + 4 * h1 + 2 * h2 + h3);
    let g10: i128 = i64f + 1 - w.vtype as i128;
    proof {
        vstd::arithmetic::mul::lemma_mul_basics(load_padding(*w));
        assert(b2i(w.highest0) * b2i(w.is_sign) * load_padding(*w) == ext);
        crate::circuits::utils::lemma_fzero_small(g8 as int);
        crate::circuits::utils::lemma_fzero_small(g9 as int);
        crate::circuits::utils::lemma_fzero_small(g10 as int);
    }
    g8 == 0 && g9 == 0 && g10 == 0
}

/// Whether the gates hold on the values `w` of a step that starts in
/// module instance `moid`; the mask has the sixteen bits of its cells.
pub fn load_gates_hold(w: &LoadWitness, moid: u16) -> (b: bool)
    requires
        w.mask < 0x10000,
    ensures
        b == load_gates(*w, moid),
{
    let len: u64 = 1 + (if w.is_two_bytes { 1 } else { 0 }) + (if w.is_four_bytes { 3 } else { 0 }) + (if w.is_eight_bytes {
        7
    } else {
        0
    });
    let a = load_location_hold(w, moid);
    let m = mask_matches(w.mask, w.start_inner, len);
    let p = pow_lookup_ok(w.pow, w.offset_modulus, 8 * (w.start_inner as u64));
    let r = load_read_hold(w);
    let c = load_result_hold(w);
    a && m && p && r && c
}

proof fn lemma_mask_bv(m: u64, x: u64, inner: u64, len: u64, i: u64)
    by (bit_vector)
    requires
        inner < 8,
        1 <= len <= 8,
        i < 16,
        m == (1u64 << len) - 1u64,
        x == m << inner,
    ensures
        ((x >> i) & 1u64 == 1u64) <==> (inner <= i && i < inner + len),
        x < 0x10000,
{
}

/// The mask of `len` bytes at `inner` has bit `i` set exactly for the
/// bytes that the load reads, and fits in sixteen bits.
pub proof fn lemma_offset_len_bits(inner: nat, len: nat, i: nat)
    requires
        inner < 8,
        1 <= len <= 8,
        i < 16,
    ensures
        bit_of(offset_len_bits(inner, len), i) <==> (inner <= i && i < inner + len),
        0 <= offset_len_bits(inner, len) < 0x10000,
{
    lemma2_to64();
    let m: u64 = ((1u64 << (len as u64)) - 1u64) as u64;
    let x: u64 = m << (inner as u64);
    vstd::bits::lemma_u64_shl_is_mul(1, len as u64);
    assert(1 <= pow2(inner) <= 128) by {
        if inner < 7 {
            vstd::arithmetic::power2::lemma_pow2_strictly_increases(inner, 7);
        }
        lemma_pow2_pos(inner);
    }
    assert(m * pow2(inner) <= 255 * 128) by (nonlinear_arith)
        requires
            m <= 255,
            pow2(inner) <= 128,
    ;
    vstd::bits::lemma_u64_shl_is_mul(m, inner as u64);
    lemma_mask_bv(m, x, inner as u64, len as u64, i as u64);
    vstd::bits::lemma_u64_shr_is_div(x, i as u64);
    vstd::bits::lemma_u64_low_bits_mask_is_mod(x >> (i as u64), 1);
}

/// The remainder of `v` by 256 to the `k + 1` adds byte `k` at its place
/// to the remainder by 256 to the `k`.
pub proof fn lemma_low_bytes_step(v: u64, k: nat)
    requires
        k < 8,
    ensures
        v as int % pow(256, k + 1) == v as int % pow(256, k) + byte(v, k as int) * pow(256, k),
{
    lemma_digit_index(v as int, 256, 8, k);
    vstd::arithmetic::power::lemma_pow_positive(256, k);
    vstd::arithmetic::div_mod::lemma_mod_breakdown(v as int, pow(256, k), 256);
    vstd::arithmetic::power::lemma_pow_adds(256, k, 1);
    vstd::arithmetic::power::lemma_pow1(256);
    vstd::arithmetic::mul::lemma_mul_is_commutative(pow(256, k), (v as int / pow(256, k)) % 256);
}

/// `k` held between `lo` and `hi`.
pub open spec fn clamp(k: int, lo: int, hi: int) -> int {
    if k < lo {
        lo
    } else if k > hi {
        hi
    } else {
        k
    }
}

/// Where the mask selects the bytes from `lo` to `hi`, the masked bytes
/// below `k` are the remainder of `v` by 256 to the `k` held between the
/// two, less that by 256 to the `lo`.
pub proof fn lemma_masked_bytes_range(v: u64, mask: u64, shift: nat, lo: nat, hi: nat, k: nat)
    requires
        lo <= hi <= 8,
        k <= 8,
        forall|i: nat| i < 8 ==> (#[trigger] bit_of(mask as int, shift + i) <==> (lo <= i && i < hi)),
    ensures
        masked_bytes(v, mask, shift, k) == v as int % pow(256, clamp(k as int, lo as int, hi as int) as nat)
            - v as int % pow(256, lo),
    decreases k,
{
    if k > 0 {
        let j = (k - 1) as nat;
        lemma_masked_bytes_range(v, mask, shift, lo, hi, j);
        assert(bit_of(mask as int, shift + j) <==> (lo <= j && j < hi));
        assert((shift + k - 1) as nat == shift + j);
        if lo <= j && j < hi {
            lemma_low_bytes_step(v, j);
        }
    }
}

/// Where the mask selects the bytes from `lo` to `hi`, the masked bytes are
/// those bytes of `v`, in their places.
pub proof fn lemma_masked_bytes(v: u64, mask: u64, shift: nat, lo: nat, hi: nat)
    requires
        lo <= hi <= 8,
        forall|i: nat| i < 8 ==> (#[trigger] bit_of(mask as int, shift + i) <==> (lo <= i && i < hi)),
    ensures
        masked_bytes(v, mask, shift, 8) == ((v as int / pow(256, lo)) % pow(256, (hi - lo) as nat)) * pow(256, lo),
{
    lemma_masked_bytes_range(v, mask, shift, lo, hi, 8);
    vstd::arithmetic::power::lemma_pow_positive(256, lo);
    vstd::arithmetic::power::lemma_pow_positive(256, (hi - lo) as nat);
    vstd::arithmetic::div_mod::lemma_mod_breakdown(v as int, pow(256, lo), pow(256, (hi - lo) as nat));
    vstd::arithmetic::power::lemma_pow_adds(256, lo, (hi - lo) as nat);
    vstd::arithmetic::mul::lemma_mul_is_commutative(
        pow(256, lo),
        (v as int / pow(256, lo)) % pow(256, (hi - lo) as nat),
    );
}

/// 256 to the `k` is two to the `8 k`.
pub proof fn lemma_pow256(k: nat)
    ensures
        pow(256, k) == pow2(8 * k),
        pow(256, k) > 0,
{
    vstd::arithmetic::power2::lemma_pow2(8 * k);
    vstd::arithmetic::power::lemma_pow_multiplies(2, 8, k);
    assert(pow(2, 8) == 256) by {
        reveal_with_fuel(pow, 9);
    }
    lemma_pow2_pos(8 * k);
}

/// The sixteen mask bits of a value below two to the sixteenth spell it
/// out.
pub proof fn lemma_mask_weight(x: u64)
    requires
        x < 0x10000,
    ensures
        mask_weight(x) == x,
{
    let ds = Seq::new(16, |i: int| b2i(bit_of(x as int, i as nat)));
    crate::circuits::utils::lemma_digits_shape(x as int, 2, 16);
    assert forall|i: int| 0 <= i < 16 implies ds[i] == crate::circuits::utils::digits(x as int, 2, 16)[i] by {
        lemma_digit_index(x as int, 2, 16, i as nat);
        vstd::arithmetic::power2::lemma_pow2(i as nat);
    }
    assert(ds =~= crate::circuits::utils::digits(x as int, 2, 16));
    crate::circuits::utils::lemma_weighted_digits(x as int, 2, 16);
    vstd::arithmetic::power2::lemma_pow2(16);
    lemma2_to64();
    vstd::arithmetic::div_mod::lemma_small_mod(x as nat, pow(2, 16) as nat);
}

/// A load step at the address that its base address and offset give, no
/// wider than its value type, whose result is the bytes it reads, within one
/// block or across two, with the sign extended for a signed load.
pub open spec fn load_step_valid(step: StepInfo) -> bool {
    match step {
        StepInfo::Load { vtype, load_size, offset, raw_address, effective_address, value, .. } => {
            let len = read_byte_size(load_size);
            let read = load_read(step);
            &&& load_in_range(step)
            &&& 8 * len <= bits_of(vtype)
            &&& effective_address == raw_address + offset
            &&& value == if read_is_sign(load_size) && bit_of(read, (8 * len - 1) as nat) {
                read + pow2(bits_of(vtype)) - pow2(8 * len)
            } else {
                read
            }
        },
        _ => false,
    }
}

/// The bytes a load reads are fewer than its length allows.
proof fn lemma_load_read_fits(step: StepInfo)
    requires
        step is Load,
    ensures
        0 <= load_read(step) < pow2(8 * read_byte_size(step->load_size)),
{
    let len = read_byte_size(step->load_size);
    let inner = (step->Load_effective_address as int % 8) as nat;
    let b1 = step->block_value as int;
    let b2 = step->block_value2 as int;
    lemma2_to64();
    lemma_pow2_pos(8 * len);
    lemma_pow2_pos(8 * inner);
    vstd::arithmetic::div_mod::lemma_div_pos_is_pos(b1, pow2(8 * inner) as int);
    if inner + len <= 8 {
        vstd::arithmetic::div_mod::lemma_mod_bound(b1 / pow2(8 * inner) as int, pow2(8 * len) as int);
    } else {
        let h = (8 * (8 - inner)) as nat;
        let e = (8 * (inner + len - 8)) as nat;
        let p = pow2(8 * inner) as int;
        let bh = pow2(h) as int;
        let be = pow2(e) as int;
        lemma_pow2_pos(h);
        lemma_pow2_pos(e);
        vstd::arithmetic::power2::lemma_pow2_adds(8 * inner, h);
        vstd::arithmetic::power2::lemma_pow2_adds(h, e);
        assert(8 * inner + h == 64);
        assert(h + e == 8 * len);
        assert(p * bh == 0x1_0000_0000_0000_0000);
        vstd::arithmetic::div_mod::lemma_mod_bound(b2, be);
        if b1 / p >= bh {
            assert(p * (b1 / p) >= p * bh) by (nonlinear_arith)
                requires
                    b1 / p >= bh,
                    p > 0,
            ;
            vstd::arithmetic::div_mod::lemma_fundamental_div_mod(b1, p);
            vstd::arithmetic::div_mod::lemma_mod_bound(b1, p);
        }
        assert(b1 / p + bh * (b2 % be) < bh * be) by (nonlinear_arith)
            requires
                0 <= b1 / p < bh,
                0 <= b2 % be < be,
        ;
    }
}

/// Under a valid load, what the gadget takes for the value read is the
/// bytes read.
proof fn lemma_load_value_in_heap(value: u64, vtype: VarType, size: MemoryReadSize, read: int)
    requires
        0 <= read < pow2(8 * read_byte_size(size)),
        8 * read_byte_size(size) <= bits_of(vtype),
        value == if read_is_sign(size) && bit_of(read, (8 * read_byte_size(size) - 1) as nat) {
            read + pow2(bits_of(vtype)) - pow2(8 * read_byte_size(size))
        } else {
            read
        },
    ensures
        load_value_in_heap(value, vtype, size) == read,
{
    let l = 8 * read_byte_size(size);
    let n = bits_of(vtype);
    lemma2_to64();
    lemma_pow2_pos((l - 1) as nat);
    vstd::arithmetic::power2::lemma_pow2_adds((l - 1) as nat, 1);
    assert(pow2(l) == 2 * pow2((l - 1) as nat));
    vstd::arithmetic::power2::lemma_pow2_adds((n - 1) as nat, 1);
    assert(pow2(n) == 2 * pow2((n - 1) as nat));
    if l < n {
        lemma_pow2_strictly_increases((l - 1) as nat, (n - 1) as nat);
    }
    if read < pow2((l - 1) as nat) {
        vstd::arithmetic::div_mod::lemma_basic_div(read, pow2((l - 1) as nat) as int);
    } else {
        vstd::arithmetic::div_mod::lemma_fundamental_div_mod_converse(read, pow2((l - 1) as nat) as int, 1, read - pow2((l - 1) as nat));
    }
    if read_is_sign(size) {
        let v = value as int;
        let h = pow2((n - 1) as nat) as int;
        if bit_of(read, (l - 1) as nat) {
            vstd::arithmetic::div_mod::lemma_fundamental_div_mod_converse(v, h, 1, v - h);
            vstd::arithmetic::power2::lemma_pow2_adds(l, (n - l) as nat);
            lemma_pow2_pos((n - l) as nat);
            let a = pow2(l) as int;
            let b = pow2((n - l) as nat) as int;
            assert(v == (b - 1) * a + read) by (nonlinear_arith)
                requires
                    v == read + pow2(n) - a,
                    pow2(n) == a * b,
            ;
            vstd::arithmetic::div_mod::lemma_fundamental_div_mod_converse(
                v,
                pow2(l) as int,
                pow2((n - l) as nat) - 1,
                read,
            );
        } else {
            vstd::arithmetic::div_mod::lemma_basic_div(v, h);
        }
    }
}

/// The leading nibble of a value of `len` bytes spells out its four top
/// bits.
proof fn lemma_leading_nibble(v: u64, len: nat)
    requires
        len == 1 || len == 2 || len == 4 || len == 8,
        v < pow2(8 * len),
    ensures
        nibble(v, 2 * len - 1) == 8 * b2i(bit_of(v as int, (8 * len - 1) as nat)) + 4 * b2i(
            bit_of(v as int, (8 * len - 2) as nat),
        ) + 2 * b2i(bit_of(v as int, (8 * len - 3) as nat)) + b2i(bit_of(v as int, (8 * len - 4) as nat)),
{
    let k = (8 * len - 4) as nat;
    lemma_digit_index(v as int, 16, 16, (2 * len - 1) as nat);
    vstd::arithmetic::power2::lemma_pow2(k);
    vstd::arithmetic::power::lemma_pow_multiplies(2, 4, (2 * len - 1) as nat);
    assert(pow(2, 4) == 16) by {
        reveal_with_fuel(pow, 5);
    }
    lemma2_to64();
    lemma_pow2_pos(k);
    let t = v as int / pow2(k) as int;
    vstd::arithmetic::power2::lemma_pow2_adds(k, 4);
    assert(t < 16) by {
        assert((k + 4) as nat == 8 * len);
        vstd::arithmetic::div_mod::lemma_multiply_divide_lt(v as int, pow2(k) as int, 16);
    }
    vstd::arithmetic::div_mod::lemma_div_pos_is_pos(v as int, pow2(k) as int);
    vstd::arithmetic::div_mod::lemma_small_mod(t as nat, 16);
    vstd::arithmetic::power2::lemma_pow2_adds(k, 1);
    vstd::arithmetic::power2::lemma_pow2_adds(k, 2);
    vstd::arithmetic::power2::lemma_pow2_adds(k, 3);
    vstd::arithmetic::div_mod::lemma_div_denominator(v as int, pow2(k) as int, 2);
    vstd::arithmetic::div_mod::lemma_div_denominator(v as int, pow2(k) as int, 4);
    vstd::arithmetic::div_mod::lemma_div_denominator(v as int, pow2(k) as int, 8);
    assert(t == 8 * ((t / 8) % 2) + 4 * ((t / 4) % 2) + 2 * ((t / 2) % 2) + t % 2) by (nonlinear_arith)
        requires
            0 <= t < 16,
    ;
    assert((k + 3) as nat == (8 * len - 1) as nat);
    assert((k + 2) as nat == (8 * len - 2) as nat);
    assert((k + 1) as nat == (8 * len - 3) as nat);
}

/// No byte of zero is set.
pub proof fn lemma_masked_bytes_zero(mask: u64, shift: nat, k: nat)
    requires
        k <= 8,
    ensures
        masked_bytes(0, mask, shift, k) == 0,
    decreases k,
{
    if k > 0 {
        lemma_masked_bytes_zero(mask, shift, (k - 1) as nat);
        lemma_digit_index(0, 256, 8, (k - 1) as nat);
        vstd::arithmetic::power::lemma_pow_positive(256, (k - 1) as nat);
        assert(0int / pow(256, (k - 1) as nat) == 0);
        assert(byte(0, k - 1) == 0);
        let t = pow(256, (k - 1) as nat) * b2i(bit_of(mask as int, (shift + k - 1) as nat));
        assert(0 * t == 0);
    }
}

/// The bytes that a load reads, as a number: within one block, the bytes
/// of the block from the offset, as many as the load's length; across two
/// blocks, the bytes of the first block from the offset to its end, then
/// the first bytes of the next block.
pub open spec fn load_read(step: StepInfo) -> int {
    match step {
        StepInfo::Load { load_size, effective_address, block_value, block_value2, .. } => {
            let len = read_byte_size(load_size);
            let inner = (effective_address as int % 8) as nat;
            if inner + len <= 8 {
                (block_value as int / pow2(8 * inner) as int) % pow2(8 * len) as int
            } else {
                block_value as int / pow2(8 * inner) as int + pow2((8 * (8 - inner)) as nat) as int * (
                block_value2 as int % pow2((8 * (inner + len - 8)) as nat) as int)
            }
        },
        _ => 0,
    }
}

/// The gates that locate a valid load hold.
proof fn lemma_load_complete_location(step: StepInfo, moid: u16)
    requires
        load_step_valid(step),
    ensures
        ({
            let w = spec_load_witness(step, moid);
            &&& fzero(b2i(w.local) * (w.origin_mmid - moid))
            &&& fzero(w.start_inner + w.start_helper - 7)
            &&& fzero(w.end_inner + w.end_helper - 7)
            &&& fzero(w.start_block * 8 + w.start_inner + load_len(w) - 1 - w.end_block * 8 - w.end_inner)
            &&& fzero(w.load_base + w.offset - w.start_block * 8 - w.start_inner)
            &&& fzero(b2i(w.is_one_byte) + b2i(w.is_two_bytes) + b2i(w.is_four_bytes) + b2i(w.is_eight_bytes) - 1)
            &&& fzero(b2i(w.is_i64) + 1 - w.vtype)
            &&& load_len(w) == read_byte_size(step->load_size)
        }),
{
    let w = spec_load_witness(step, moid);
    if w.local {
        assert(w.origin_mmid == moid);
    } else {
        assert(b2i(w.local) == 0);
    }
    assert(b2i(w.local) * (w.origin_mmid - moid) == 0);
}

/// The table lookups of a valid load hold.
proof fn lemma_load_complete_tables(step: StepInfo, moid: u16)
    requires
        load_step_valid(step),
    ensures
        ({
            let w = spec_load_witness(step, moid);
            &&& mask_weight(w.mask) == offset_len_bits(w.start_inner as nat, read_byte_size(step->load_size))
            &&& fzero(pow_table_entry(w.pow as nat) - pow_table_encode(w.offset_modulus as int, 8 * w.start_inner))
            &&& in_pow_table(pow_table_entry(w.pow as nat))
        }),
{
    let w = spec_load_witness(step, moid);
    let len = read_byte_size(step->load_size);
    let inner = w.start_inner as nat;
    lemma2_to64();
    lemma_offset_len_bits(inner, len, 0);
    lemma_mask_weight(w.mask);
    vstd::arithmetic::power2::lemma_pow2_adds(8 * inner, 16);
    vstd::bits::lemma_u64_pow2_no_overflow(8 * inner);
    assert(w.offset_modulus == pow2(8 * inner));
    assert(pow_table_entry((8 * inner) as nat) == pow_table_encode(w.offset_modulus as int, 8 * w.start_inner));
    assert(in_pow_table(pow_table_entry(w.pow as nat)));
}

/// For a valid load, the value read, shifted to its offset, equals the
/// masked bytes of the block.
proof fn lemma_load_complete_heap(step: StepInfo, moid: u16)
    requires
        load_step_valid(step),
    ensures
        ({
            let w = spec_load_witness(step, moid);
            &&& w.value_in_heap == load_read(step)
            &&& fzero(
                w.value_in_heap * w.offset_modulus - masked_bytes(w.load_value1, w.mask, 0, 8) - pow2(64)
                    * masked_bytes(w.load_value2, w.mask, 8, 8),
            )
        }),
{
    let w = spec_load_witness(step, moid);
    let len = read_byte_size(step->load_size);
    let inner = (step->Load_effective_address as int % 8) as nat;
    let read = load_read(step);
    lemma2_to64();
    lemma_load_read_fits(step);
    lemma_load_value_in_heap(step->Load_value, step->Load_vtype, step->load_size, read);
    lemma_pow2_pos(8 * len);
    lemma_pow2_pos(8 * inner);
    vstd::bits::lemma_u64_pow2_no_overflow(8 * inner);
    lemma_pow256(inner);
    lemma_pow256(len);
    lemma_pow256(8);
    lemma_pow256(0);
    vstd::arithmetic::power::lemma_pow0(256);
    if inner + len <= 8 {
        vstd::arithmetic::div_mod::lemma_div_pos_is_pos(step->block_value as int, pow2(8 * inner) as int);
        lemma_offset_len_bits(inner, len, 0);
        assert forall|i: nat| i < 8 implies (#[trigger] bit_of(w.mask as int, 0 + i) <==> (inner <= i && i < inner
            + len)) by {
            lemma_offset_len_bits(inner, len, i);
        }
        assert forall|i: nat| i < 8 implies (#[trigger] bit_of(w.mask as int, 8 + i) <==> (0 <= i && i < 0)) by {
            lemma_offset_len_bits(inner, len, 8 + i);
        }
        lemma_masked_bytes(step->block_value, w.mask, 0, inner, inner + len);
        lemma_masked_bytes(w.load_value2, w.mask, 8, 0, 0);
        assert((w.load_value2 as int / 1) % 1 == 0);
        assert(masked_bytes(w.load_value1, w.mask, 0, 8) == read * pow2(8 * inner));
        assert(pow2(64) * 0 == 0);
        assert(fzero(0));
    } else {
        let e = (inner + len - 8) as nat;
        let h = (8 - inner) as nat;
        let b1 = step->block_value as int;
        let b2 = step->block_value2 as int;
        lemma_pow256(h);
        lemma_pow256(e);
        let p = pow(256, inner);
        let bh = pow(256, h);
        let be = pow(256, e);
        vstd::arithmetic::power::lemma_pow_adds(256, inner, h);
        vstd::arithmetic::power::lemma_pow_positive(256, inner);
        vstd::arithmetic::power::lemma_pow_positive(256, h);
        assert(p * bh == 0x1_0000_0000_0000_0000);
        assert forall|i: nat| i < 8 implies (#[trigger] bit_of(w.mask as int, 0 + i) <==> (inner <= i && i < 8)) by {
            lemma_offset_len_bits(inner, len, i);
        }
        assert forall|i: nat| i < 8 implies (#[trigger] bit_of(w.mask as int, 8 + i) <==> (0 <= i && i < e)) by {
            lemma_offset_len_bits(inner, len, 8 + i);
        }
        lemma_masked_bytes(step->block_value, w.mask, 0, inner, 8);
        lemma_masked_bytes(w.load_value2, w.mask, 8, 0, e);
        assert(b2 / 1 == b2);
        assert(masked_bytes(w.load_value2, w.mask, 8, 8) == b2 % be);
        // the first block's bytes from the offset are its quotient by `p`
        vstd::arithmetic::div_mod::lemma_fundamental_div_mod(b1, p);
        vstd::arithmetic::div_mod::lemma_mod_bound(b1, p);
        vstd::arithmetic::div_mod::lemma_div_pos_is_pos(b1, p);
        if b1 / p >= bh {
            assert(p * (b1 / p) >= p * bh) by (nonlinear_arith)
                requires
                    b1 / p >= bh,
                    p > 0,
            ;
        }
        vstd::arithmetic::div_mod::lemma_small_mod((b1 / p) as nat, bh as nat);
        assert(masked_bytes(w.load_value1, w.mask, 0, 8) == (b1 / p) * p);
        assert(w.offset_modulus == p);
        assert(read == b1 / p + bh * (b2 % be));
        assert(read * p == (b1 / p) * p + pow2(64) * (b2 % be)) by (nonlinear_arith)
            requires
                read == b1 / p + bh * (b2 % be),
                p * bh == 0x1_0000_0000_0000_0000,
                pow2(64) == 0x1_0000_0000_0000_0000,
        ;
        assert(fzero(0));
    }
}

/// The length flags pick the nibble of the value read at index `2 len - 1`.
proof fn lemma_leading_nibble_select(w: LoadWitness, len: nat)
    requires
        len == 1 || len == 2 || len == 4 || len == 8,
        w.is_one_byte == (len == 1),
        w.is_two_bytes == (len == 2),
        w.is_four_bytes == (len == 4),
        w.is_eight_bytes == (len == 8),
    ensures
        load_leading_nibble(w) == nibble(w.value_in_heap, 2 * len - 1),
{
    let n1 = nibble(w.value_in_heap, 1);
    let n3 = nibble(w.value_in_heap, 3);
    let n7 = nibble(w.value_in_heap, 7);
    let n15 = nibble(w.value_in_heap, 15);
    if len == 1 {
        assert(load_leading_nibble(w) == 1 * n1 + 0 * n3 + 0 * n7 + 0 * n15);
    } else if len == 2 {
        assert(load_leading_nibble(w) == 0 * n1 + 1 * n3 + 0 * n7 + 0 * n15);
    } else if len == 4 {
        assert(load_leading_nibble(w) == 0 * n1 + 0 * n3 + 1 * n7 + 0 * n15);
    } else {
        assert(load_leading_nibble(w) == 0 * n1 + 0 * n3 + 0 * n7 + 1 * n15);
    }
}

/// The gates on the result hold for a valid load: the result is the value
/// read with its sign extended where the load is signed, and the four bits
/// are its leading nibble.
proof fn lemma_load_complete_result(step: StepInfo, moid: u16)
    requires
        load_step_valid(step),
        spec_load_witness(step, moid).value_in_heap == load_read(step),
    ensures
        ({
            let w = spec_load_witness(step, moid);
            &&& fzero(w.res - w.value_in_heap - b2i(w.highest0) * b2i(w.is_sign) * load_padding(w))
            &&& fzero(
                load_leading_nibble(w) - (8 * b2i(w.highest0) + 4 * b2i(w.highest1) + 2 * b2i(w.highest2) + b2i(
                    w.highest3,
                )),
            )
        }),
{
    let w = spec_load_witness(step, moid);
    let len = read_byte_size(step->load_size);
    let inner = (step->Load_effective_address as int % 8) as nat;
    let read = load_read(step);
    lemma2_to64();
    lemma_pow2_pos(8 * len);
    lemma_pow2_pos(8 * inner);
    lemma_load_read_fits(step);
    lemma_leading_nibble(w.value_in_heap, len);
    lemma_leading_nibble_select(w, len);
    if read_is_sign(step->load_size) && bit_of(read, (8 * len - 1) as nat) {
        assert(w.highest0 && w.is_sign);
        assert(w.res - w.value_in_heap == pow2(bits_of(step->Load_vtype)) - pow2(8 * len));
        assert(load_padding(w) == pow2(bits_of(step->Load_vtype)) - pow2(8 * len));
        assert(b2i(w.highest0) * b2i(w.is_sign) == 1);
    } else {
        assert(w.res == w.value_in_heap);
        if w.is_sign {
            assert(!w.highest0);
        }
        assert(b2i(w.highest0) * b2i(w.is_sign) == 0);
    }
    assert(w.res - w.value_in_heap - b2i(w.highest0) * b2i(w.is_sign) * load_padding(w) == 0);
}

/// Completeness: the values that the gadget assigns for a valid load step
/// satisfy its gates and its table lookups, whatever module instance the
/// step starts in.
pub proof fn lemma_load_complete(step: StepInfo, moid: u16)
    requires
        load_step_valid(step),
    ensures
        load_gates(spec_load_witness(step, moid), moid),
{
    lemma_load_complete_location(step, moid);
    lemma_load_complete_tables(step, moid);
    lemma_load_complete_heap(step, moid);
    lemma_load_complete_result(step, moid);
}

/// The memory operations that a load adds to those of its opcode: one for
/// a load that spans two blocks, none otherwise.
pub open spec fn load_extra_mops(step: StepInfo) -> int {
    let ea = step->Load_effective_address as int;
    let len = read_byte_size(step->load_size);
    if (ea + len - 1) / 8 != ea / 8 {
        1
    } else {
        0
    }
}

/// What a load writes for its blocks: each of the two blocks it may read
/// to its cell.
pub proof fn lemma_load_writes_blocks_cells(c: LoadConfig, off: int, w: LoadWitness)
    ensures
        crate::circuits::etable_compact::op_configure::has_write(load_writes_blocks(c, off, w), c.load_value1.value_col, off + c.load_value1.value_rot, crate::circuits::utils::fv_u64(w.load_value1)),
        crate::circuits::etable_compact::op_configure::has_write(load_writes_blocks(c, off, w), c.load_value2.value_col, off + c.load_value2.value_rot, crate::circuits::utils::fv_u64(w.load_value2)),
{
    let p0 = u64_on_u8_cell_writes(c.load_value1, off, w.load_value1);
    let p1 = u64_on_u8_cell_writes(c.load_value2, off, w.load_value2);
    let p2 = bool_writes(c.mask_bits@, off, mask_values(w.mask));
    assert(load_writes_blocks(c, off, w) =~= p0 + p1 + p2);
    {
        crate::circuits::etable_compact::op_configure::lemma_u64_on_u8_cell_writes_value(c.load_value1, off, w.load_value1);
        crate::circuits::etable_compact::op_configure::lemma_has_write_append(p0, p1, c.load_value1.value_col, off + c.load_value1.value_rot, crate::circuits::utils::fv_u64(w.load_value1));
        crate::circuits::etable_compact::op_configure::lemma_has_write_append(p0 + p1, p2, c.load_value1.value_col, off + c.load_value1.value_rot, crate::circuits::utils::fv_u64(w.load_value1));
    }
    {
        crate::circuits::etable_compact::op_configure::lemma_u64_on_u8_cell_writes_value(c.load_value2, off, w.load_value2);
        crate::circuits::etable_compact::op_configure::lemma_has_write_append(p0, p1, c.load_value2.value_col, off + c.load_value2.value_rot, crate::circuits::utils::fv_u64(w.load_value2));
        crate::circuits::etable_compact::op_configure::lemma_has_write_append(p0 + p1, p2, c.load_value2.value_col, off + c.load_value2.value_rot, crate::circuits::utils::fv_u64(w.load_value2));
    }
}

/// What a load writes for its values: the base address to the base cell,
/// the bytes read to the read value cell and the result to the result
/// cell.
pub proof fn lemma_load_writes_values_cells(c: LoadConfig, off: int, w: LoadWitness)
    ensures
        crate::circuits::etable_compact::op_configure::has_write(load_writes_values(c, off, w), c.load_base.value_col, off + c.load_base.value_rot, crate::circuits::utils::fv_u64(w.load_base)),
        crate::circuits::etable_compact::op_configure::has_write(load_writes_values(c, off, w), c.value_in_heap.value_col, off + c.value_in_heap.value_rot, crate::circuits::utils::fv_u64(w.value_in_heap)),
        crate::circuits::etable_compact::op_configure::has_write(load_writes_values(c, off, w), c.res.value_col, off + c.res.value_rot, crate::circuits::utils::fv_u64(w.res)),
{
    let p0 = u64_on_u8_cell_writes(c.offset_modulus, off, w.offset_modulus);
    let p1 = u64_cell_writes(c.load_base, off, w.load_base);
    let p2 = u64_cell_writes(c.value_in_heap, off, w.value_in_heap);
    let p3 = u64_cell_writes(c.res, off, w.res);
    let p4 = bool_writes(c.highest_u4@, off, seq![w.highest0, w.highest1, w.highest2, w.highest3]);
    assert(load_writes_values(c, off, w) =~= p0 + p1 + p2 + p3 + p4);
    {
        crate::circuits::etable_compact::op_configure::lemma_u64_cell_writes_value(c.load_base, off, w.load_base);
        crate::circuits::etable_compact::op_configure::lemma_has_write_append(p0, p1, c.load_base.value_col, off + c.load_base.value_rot, crate::circuits::utils::fv_u64(w.load_base));
        crate::circuits::etable_compact::op_configure::lemma_has_write_append(p0 + p1, p2, c.load_base.value_col, off + c.load_base.value_rot, crate::circuits::utils::fv_u64(w.load_base));
        crate::circuits::etable_compact::op_configure::lemma_has_write_append(p0 + p1 + p2, p3, c.load_base.value_col, off + c.load_base.value_rot, crate::circuits::utils::fv_u64(w.load_base));
        crate::circuits::etable_compact::op_configure::lemma_has_write_append(p0 + p1 + p2 + p3, p4, c.load_base.value_col, off + c.load_base.value_rot, crate::circuits::utils::fv_u64(w.load_base));
    }
    {
        crate::circuits::etable_compact::op_configure::lemma_u64_cell_writes_value(c.value_in_heap, off, w.value_in_heap);
        crate::circuits::etable_compact::op_configure::lemma_has_write_append(p0, p1, c.value_in_heap.value_col, off + c.value_in_heap.value_rot, crate::circuits::utils::fv_u64(w.value_in_heap));
        crate::circuits::etable_compact::op_configure::lemma_has_write_append(p0 + p1, p2, c.value_in_heap.value_col, off + c.value_in_heap.value_rot, crate::circuits::utils::fv_u64(w.value_in_heap));
        crate::circuits::etable_compact::op_configure::lemma_has_write_append(p0 + p1 + p2, p3, c.value_in_heap.value_col, off + c.value_in_heap.value_rot, crate::circuits::utils::fv_u64(w.value_in_heap));
        crate::circuits::etable_compact::op_configure::lemma_has_write_append(p0 + p1 + p2 + p3, p4, c.value_in_heap.value_col, off + c.value_in_heap.value_rot, crate::circuits::utils::fv_u64(w.value_in_heap));
    }
    {
        crate::circuits::etable_compact::op_configure::lemma_u64_cell_writes_value(c.res, off, w.res);
        crate::circuits::etable_compact::op_configure::lemma_has_write_append(p0, p1, c.res.value_col, off + c.res.value_rot, crate::circuits::utils::fv_u64(w.res));
        crate::circuits::etable_compact::op_configure::lemma_has_write_append(p0 + p1, p2, c.res.value_col, off + c.res.value_rot, crate::circuits::utils::fv_u64(w.res));
        crate::circuits::etable_compact::op_configure::lemma_has_write_append(p0 + p1 + p2, p3, c.res.value_col, off + c.res.value_rot, crate::circuits::utils::fv_u64(w.res));
        crate::circuits::etable_compact::op_configure::lemma_has_write_append(p0 + p1 + p2 + p3, p4, c.res.value_col, off + c.res.value_rot, crate::circuits::utils::fv_u64(w.res));
    }
}

impl LoadConfig {
    /// The memory operations that the step adds to those of its opcode.
    pub fn assigned_extra_mops(&self, step: &StepInfo) -> (r: u64)
        requires
            step is Load,
            step->Load_effective_address + read_byte_size(step->load_size) <= u32::MAX,
        ensures
            r == load_extra_mops(*step),
    {
        match step {
            StepInfo::Load { load_size, effective_address, .. } => {
                if (*effective_address + load_size.byte_size() as u32 - 1) / 8 != *effective_address / 8 {
                    1
                } else {
                    0
                }
            },
            _ => 0,
        }
    }
}

/// Mask bits whose weight is a value below two to the sixteenth are that
/// value's bits.
pub(crate) proof fn lemma_mask_bits_of_weight(mask: u64, x: int)
    requires
        mask_weight(mask) == x,
        0 <= x < 0x10000,
    ensures
        forall|i: nat| i < 16 ==> (#[trigger] bit_of(mask as int, i) <==> bit_of(x, i)),
{
    let ds = Seq::new(16, |i: int| b2i(bit_of(mask as int, i as nat)));
    assert(crate::circuits::utils::all_digits(ds, 2));
    crate::circuits::utils::lemma_digits_unique(ds, x, 2);
    assert forall|i: nat| i < 16 implies (#[trigger] bit_of(mask as int, i) <==> bit_of(x, i)) by {
        lemma_digit_index(x, 2, 16, i);
        vstd::arithmetic::power2::lemma_pow2(i);
        assert(ds[i as int] == crate::circuits::utils::digits(x, 2, 16)[i as int]);
    }
}

/// Where the power lookup holds for a power cell `power` and an offset
/// modulus `modulus`, at offset `inner` in a block, at most seven, the
/// modulus is two to eight times `inner`.
pub(crate) proof fn lemma_pow_lookup_sound(power: u64, modulus: u64, inner: u16)
    requires
        inner <= 7,
        fzero(pow_table_entry(power as nat) - pow_table_encode(modulus as int, 8 * inner)),
        in_pow_table(pow_table_entry(power as nat)),
    ensures
        modulus == pow(256, inner as nat),
{
    let k = choose|k: nat| k < 128 && pow_table_entry(power as nat) == #[trigger] pow_table_entry(k);
    lemma2_to64();
    lemma_pow2_pos(k);
    lemma_pow2_strictly_increases(k, 128);
    vstd::arithmetic::power2::lemma_pow2_adds(k, 16);
    vstd::arithmetic::power2::lemma_pow2_adds(64, 64);
    vstd::arithmetic::power2::lemma_pow2_adds(128, 16);
    let m = modulus as int;
    let p = pow2(k) as int;
    assert(pow2(128) == 0x1_0000_0000_0000_0000_0000_0000_0000_0000int);
    assert(p * 0x10000 < pow2(128) * 0x10000) by (nonlinear_arith)
        requires
            p < pow2(128),
    ;
    assert(m * 0x10000 < 0x1_0000_0000_0000_0000_0000int) by (nonlinear_arith)
        requires
            0 <= m < 0x1_0000_0000_0000_0000int,
    ;
    assert(pow_table_entry(k) == p * 0x10000 + k);
    crate::circuits::utils::lemma_fzero_small(pow_table_entry(k) - pow_table_encode(m, 8 * inner));
    assert(m * 0x10000 + 8 * inner == p * 0x10000 + k);
    vstd::arithmetic::div_mod::lemma_fundamental_div_mod_converse(m * 0x10000 + 8 * inner, 0x10000, m, 8 * inner as int);
    vstd::arithmetic::div_mod::lemma_fundamental_div_mod_converse(m * 0x10000 + 8 * inner, 0x10000, p, k as int);
    lemma_pow256(inner as nat);
}

/// Soundness of the load gadget on what it reads: where its gates hold,
/// the offset in the first block is at most seven, exactly one length flag
/// is set, the offset modulus is two to eight times that offset, the mask
/// selects the bytes from the offset on, as many as the length, and the
/// value read is those bytes of the two blocks: the bytes of the first
/// block from the offset on, and above them the first bytes of the second
/// where the load runs past the first block.
pub proof fn lemma_load_read_sound(w: LoadWitness, moid: u16)
    requires
        load_gates(w, moid),
    ensures
        ({
            let inner = w.start_inner as nat;
            let len = load_len(w) as nat;
            let hi1: nat = if inner + len <= 8 { inner + len } else { 8 };
            let hi2: nat = if inner + len <= 8 { 0 } else { (inner + len - 8) as nat };
            &&& inner <= 7
            &&& b2i(w.is_one_byte) + b2i(w.is_two_bytes) + b2i(w.is_four_bytes) + b2i(w.is_eight_bytes) == 1
            &&& (len == 1 || len == 2 || len == 4 || len == 8)
            &&& w.offset_modulus == pow2(8 * inner)
            &&& forall|i: nat| i < 16 ==> (#[trigger] bit_of(w.mask as int, i) <==> (inner <= i && i < inner + len))
            &&& w.value_in_heap == (w.load_value1 as int / pow(256, inner)) % pow(256, (hi1 - inner) as nat) + pow(
                256,
                (8 - inner) as nat,
            ) * (w.load_value2 as int % pow(256, hi2))
        }),
{
    let inner = w.start_inner as nat;
    crate::circuits::utils::lemma_fzero_small(w.start_inner + w.start_helper - 7);
    let flags = b2i(w.is_one_byte) + b2i(w.is_two_bytes) + b2i(w.is_four_bytes) + b2i(w.is_eight_bytes);
    crate::circuits::utils::lemma_fzero_small(flags - 1);
    let len = load_len(w) as nat;
    assert(len == 1 || len == 2 || len == 4 || len == 8);
    let hi1: nat = if inner + len <= 8 { inner + len } else { 8 };
    let hi2: nat = if inner + len <= 8 { 0 } else { (inner + len - 8) as nat };
    lemma_pow_lookup_sound(w.pow, w.offset_modulus, w.start_inner);
    lemma_pow256(inner);
    let olb = offset_len_bits(inner, len);
    lemma_offset_len_bits(inner, len, 0);
    lemma_mask_bits_of_weight(w.mask, olb);
    assert forall|i: nat| i < 16 implies (#[trigger] bit_of(w.mask as int, i) <==> (inner <= i && i < inner + len)) by {
        lemma_offset_len_bits(inner, len, i);
    }
    assert forall|i: nat| i < 8 implies (#[trigger] bit_of(w.mask as int, 0 + i) <==> (inner <= i && i < hi1)) by {
        assert(bit_of(w.mask as int, i) <==> (inner <= i && i < inner + len));
    }
    assert forall|i: nat| i < 8 implies (#[trigger] bit_of(w.mask as int, 8 + i) <==> (0 <= i && i < hi2)) by {
        assert(bit_of(w.mask as int, 8 + i) <==> (inner <= 8 + i && 8 + i < inner + len));
    }
    lemma_masked_bytes(w.load_value1, w.mask, 0, inner, hi1);
    lemma_masked_bytes(w.load_value2, w.mask, 8, 0, hi2);
    lemma_load_value_equation(w, inner, hi1, hi2);
}

/// The last step of the soundness of the load: from the value read, times
/// the offset modulus, being the masked bytes, to the value read itself.
proof fn lemma_load_value_equation(w: LoadWitness, inner: nat, hi1: nat, hi2: nat)
    requires
        inner <= hi1 <= 8,
        hi2 <= 8,
        inner <= 7,
        w.offset_modulus == pow(256, inner),
        pow(256, inner) == pow2(8 * inner),
        fzero(
            w.value_in_heap * w.offset_modulus - masked_bytes(w.load_value1, w.mask, 0, 8) - pow2(64)
                * masked_bytes(w.load_value2, w.mask, 8, 8),
        ),
        masked_bytes(w.load_value1, w.mask, 0, 8) == ((w.load_value1 as int / pow(256, inner)) % pow(
            256,
            (hi1 - inner) as nat,
        )) * pow(256, inner),
        masked_bytes(w.load_value2, w.mask, 8, 8) == ((w.load_value2 as int / pow(256, 0)) % pow(
            256,
            (hi2 - 0) as nat,
        )) * pow(256, 0),
    ensures
        w.value_in_heap == (w.load_value1 as int / pow(256, inner)) % pow(256, (hi1 - inner) as nat) + pow(
            256,
            (8 - inner) as nat,
        ) * (w.load_value2 as int % pow(256, hi2)),
{
    let q = pow(256, inner);
    let a = (w.load_value1 as int / q) % pow(256, (hi1 - inner) as nat);
    let b = w.load_value2 as int % pow(256, hi2);
    let r = pow(256, (8 - inner) as nat);
    lemma2_to64();
    vstd::arithmetic::power::lemma_pow0(256);
    assert(w.load_value2 as int / 1 == w.load_value2);
    assert(masked_bytes(w.load_value2, w.mask, 8, 8) == b);
    vstd::arithmetic::power::lemma_pow_positive(256, inner);
    vstd::arithmetic::power::lemma_pow_positive(256, (hi1 - inner) as nat);
    vstd::arithmetic::power::lemma_pow_positive(256, hi2);
    vstd::arithmetic::power::lemma_pow_positive(256, (8 - inner) as nat);
    vstd::arithmetic::power::lemma_pow_adds(256, inner, (8 - inner) as nat);
    vstd::arithmetic::power::lemma_pow_adds(256, inner, (hi1 - inner) as nat);
    vstd::arithmetic::power::lemma_pow_increases(256, hi1, 8);
    vstd::arithmetic::power::lemma_pow_increases(256, hi2, 8);
    vstd::arithmetic::power::lemma_pow_increases(256, inner, 7);
    lemma_pow256(8);
    lemma_pow256(7);
    assert(pow2(56) == 0x100_0000_0000_0000) by {
        vstd::arithmetic::power2::lemma2_to64_rest();
    }
    assert(q * r == pow2(64));
    let m1 = a * q;
    assert(0 <= a < pow(256, (hi1 - inner) as nat));
    assert(0 <= m1 < pow(256, hi1)) by (nonlinear_arith)
        requires
            0 <= a < pow(256, (hi1 - inner) as nat),
            q > 0,
            pow(256, hi1) == q * pow(256, (hi1 - inner) as nat),
            m1 == a * q,
    ;
    assert(0 <= b < pow2(64));
    let v = w.value_in_heap as int;
    assert(0 <= v * q <= 0xffff_ffff_ffff_ffff * 0x100_0000_0000_0000) by (nonlinear_arith)
        requires
            0 <= v <= 0xffff_ffff_ffff_ffff,
            0 < q <= 0x100_0000_0000_0000,
    ;
    assert(0 <= pow2(64) * b < pow2(64) * pow2(64)) by (nonlinear_arith)
        requires
            0 <= b < pow2(64),
            pow2(64) > 0,
    ;
    assert(pow2(64) * pow2(64) == 0x1_0000_0000_0000_0000_0000_0000_0000_0000int);
    crate::circuits::utils::lemma_fzero_small(v * q - m1 - pow2(64) * b);
    assert(v * q == a * q + (q * r) * b);
    assert(v * q == (a + r * b) * q) by (nonlinear_arith)
        requires
            v * q == a * q + (q * r) * b,
    ;
    vstd::arithmetic::mul::lemma_mul_is_commutative(v, q);
    vstd::arithmetic::mul::lemma_mul_is_commutative(a + r * b, q);
    vstd::arithmetic::mul::lemma_mul_equality_converse(q, v, a + r * b);
}

/// The value read, as the soundness of the load gives it, is below two to
/// eight times the length.
proof fn lemma_load_read_bound(v: int, a: int, b: int, inner: nat, len: nat, hi1: nat, hi2: nat)
    requires
        inner <= 7,
        1 <= len <= 8,
        hi1 == if inner + len <= 8 { inner + len } else { 8 },
        hi2 == if inner + len <= 8 { 0 } else { (inner + len - 8) as nat },
        0 <= a < pow(256, (hi1 - inner) as nat),
        0 <= b < pow(256, hi2),
        v == a + pow(256, (8 - inner) as nat) * b,
    ensures
        0 <= v < pow2(8 * len),
{
    lemma_pow256(len);
    vstd::arithmetic::power::lemma_pow_positive(256, (8 - inner) as nat);
    if inner + len <= 8 {
        vstd::arithmetic::power::lemma_pow0(256);
        assert(b == 0);
        assert(pow(256, (8 - inner) as nat) * 0 == 0);
    } else {
        let r = pow(256, (8 - inner) as nat);
        vstd::arithmetic::power::lemma_pow_adds(256, (8 - inner) as nat, hi2);
        assert((8 - inner) + hi2 == len);
        assert(a + r * b < r * pow(256, hi2)) by (nonlinear_arith)
            requires
                0 <= a < r,
                0 <= b < pow(256, hi2),
                r > 0,
        ;
        assert(0 <= r * b) by (nonlinear_arith)
            requires
                0 <= b,
                r > 0,
        ;
    }
}

/// Soundness of the load gadget on its result: where its gates hold, the
/// value read has as many bytes as the length, the first of the four bits
/// is its sign bit, the result is the value read with the padding added
/// exactly where the load is signed and that bit is set, the value type is
/// one more than the 64-bit flag, and the padding is what sign extension to
/// the value type's width adds, where the length fits that width.
pub proof fn lemma_load_result_sound(w: LoadWitness, moid: u16)
    requires
        load_gates(w, moid),
    ensures
        ({
            let len = load_len(w) as nat;
            let v = w.value_in_heap as int;
            let width: nat = if w.is_i64 { 64 } else { 32 };
            &&& v < pow2(8 * len)
            &&& w.highest0 == bit_of(v, (8 * len - 1) as nat)
            &&& w.res == v + if w.is_sign && bit_of(v, (8 * len - 1) as nat) { load_padding(w) } else { 0 }
            &&& w.vtype == 1 + b2i(w.is_i64)
            &&& (8 * len <= width ==> load_padding(w) == pow2(width) - pow2(8 * len))
        }),
{
    lemma_load_read_sound(w, moid);
    let inner = w.start_inner as nat;
    let len = load_len(w) as nat;
    let hi1: nat = if inner + len <= 8 { inner + len } else { 8 };
    let hi2: nat = if inner + len <= 8 { 0 } else { (inner + len - 8) as nat };
    let a = (w.load_value1 as int / pow(256, inner)) % pow(256, (hi1 - inner) as nat);
    let b = w.load_value2 as int % pow(256, hi2);
    vstd::arithmetic::power::lemma_pow_positive(256, inner);
    vstd::arithmetic::power::lemma_pow_positive(256, (hi1 - inner) as nat);
    vstd::arithmetic::power::lemma_pow_positive(256, hi2);
    vstd::arithmetic::div_mod::lemma_div_pos_is_pos(w.load_value1 as int, pow(256, inner));
    vstd::arithmetic::div_mod::lemma_mod_bound(w.load_value1 as int / pow(256, inner), pow(256, (hi1 - inner) as nat));
    vstd::arithmetic::div_mod::lemma_mod_bound(w.load_value2 as int, pow(256, hi2));
    let v = w.value_in_heap as int;
    lemma_load_read_bound(v, a, b, inner, len, hi1, hi2);
    lemma2_to64();
    vstd::arithmetic::power2::lemma2_to64_rest();
    assert(w.is_one_byte == (len == 1) && w.is_two_bytes == (len == 2) && w.is_four_bytes == (len == 4)
        && w.is_eight_bytes == (len == 8));
    lemma_leading_nibble_select(w, len);
    lemma_leading_nibble(w.value_in_heap, len);
    crate::circuits::utils::lemma_digits_shape(v, 16, 16);
    assert(0 <= nibble(w.value_in_heap, (2 * len - 1) as int) < 16);
    let hs = 8 * b2i(w.highest0) + 4 * b2i(w.highest1) + 2 * b2i(w.highest2) + b2i(w.highest3);
    crate::circuits::utils::lemma_fzero_small(load_leading_nibble(w) - hs);
    let c0 = bit_of(v, (8 * len - 1) as nat);
    assert(w.highest0 == c0) by {
        let cs = 8 * b2i(c0) + 4 * b2i(bit_of(v, (8 * len - 2) as nat)) + 2 * b2i(bit_of(v, (8 * len - 3) as nat))
            + b2i(bit_of(v, (8 * len - 4) as nat));
        assert(hs == cs);
    }
    let pad = load_padding(w);
    assert(0 <= pad <= 0xffff_ffff_ffff_ffff);
    let t = b2i(w.highest0) * b2i(w.is_sign) * pad;
    assert(t == if w.is_sign && c0 { pad } else { 0 }) by {
        vstd::arithmetic::mul::lemma_mul_basics(pad);
        vstd::arithmetic::mul::lemma_mul_basics(b2i(w.is_sign));
        vstd::arithmetic::mul::lemma_mul_basics(b2i(w.is_sign) * pad);
        vstd::arithmetic::mul::lemma_mul_is_associative(b2i(w.highest0), b2i(w.is_sign), pad);
    }
    crate::circuits::utils::lemma_fzero_small(w.res - v - t);
    crate::circuits::utils::lemma_fzero_small(b2i(w.is_i64) + 1 - w.vtype);
}

} // verus!
