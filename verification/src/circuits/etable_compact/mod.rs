//! The compact event table: every execution step occupies a block of
//! `ETABLE_STEP_SIZE` rows, shared by all opcode gadgets, and a step is told
//! apart by two opcode bits set in its block.

use vstd::prelude::*;

pub mod assign;
pub mod gates;
pub mod op_configure;

verus! {

/// Rows of the table occupied by one execution step.
pub const ETABLE_STEP_SIZE: usize = 20usize;
/// Columns of 4-bit cells, one per 64-bit value decomposed into nibbles.
pub const U4_COLUMNS: usize = 3usize;
/// Columns of 8-bit cells, each shared by two 64-bit values.
pub const U8_COLUMNS: usize = 2usize;
/// Columns of bit cells.
pub const BITS_COLUMNS: usize = 2usize;
/// Bit cells of a block: one per row of each bit column.
pub const BIT_CELLS: i32 = 40;
/// Memory table lookups that one step may make.
pub const MTABLE_LOOKUPS_SIZE: usize = 6usize;
/// Rows of a block that carry a first-level opcode bit.
pub const MAX_OP_LVL1: i32 = 8;
/// Rows of a block that carry an opcode bit of either level.
pub const MAX_OP_LVL2: i32 = 20;

/// Powers below this bound are in the power table.
pub const POW_TABLE_LIMIT: u64 = 128u64;

/// Advice columns of the table, in the order in which they are taken.
pub const COL_SHARED_BITS_0: usize = 0usize;
pub const COL_SHARED_BITS_1: usize = 1usize;
pub const COL_OPCODE_BITS: usize = 2usize;
pub const COL_STATE: usize = 3usize;
pub const COL_AUX: usize = 4usize;
pub const COL_UNLIMITED: usize = 5usize;
pub const COL_U4_SHARED_0: usize = 6usize;
pub const COL_U4_SHARED_1: usize = 7usize;
pub const COL_U4_SHARED_2: usize = 8usize;
pub const COL_U8_SHARED_0: usize = 9usize;
pub const COL_U8_SHARED_1: usize = 10usize;
pub const COL_U4_BOP: usize = 11usize;

/// Rotation, in the bit columns, of the flag that enables a step.
pub const BIT_ROT_ENABLE: i32 = 0;
/// First rotation of the bit columns that gadgets may allocate.
pub const BIT_ROT_MAX: i32 = 1;

/// Rotations, in the state column, of the values every step carries.
pub const STATE_ROT_REST_MOPS: i32 = 0;
pub const STATE_ROT_REST_JOPS: i32 = 1;
pub const STATE_ROT_INPUT_INDEX: i32 = 2;
pub const STATE_ROT_EID: i32 = 3;
pub const STATE_ROT_MOID: i32 = 4;
pub const STATE_ROT_FID: i32 = 5;
pub const STATE_ROT_IID: i32 = 6;
pub const STATE_ROT_MMID: i32 = 7;
pub const STATE_ROT_SP: i32 = 8;
pub const STATE_ROT_LAST_JUMP_EID: i32 = 9;
/// First rotation of the state column that gadgets may allocate.
pub const STATE_ROT_MAX: i32 = 10;

/// Rotations, in the aux column, of the lookups and 64-bit values.
pub const AUX_ROT_ITABLE_LOOKUP: i32 = 0;
pub const AUX_ROT_JTABLE_LOOKUP: i32 = 1;
pub const AUX_ROT_POW_TABLE_LOOKUP: i32 = 2;
pub const AUX_ROT_OFFSET_LEN_BITS_TABLE_LOOKUP: i32 = 3;
pub const AUX_ROT_MTABLE_LOOKUP_START: i32 = 4;
pub const AUX_ROT_U64_START: i32 = 11;

/// A plain opcode class number.
#[derive(Clone, Copy, Debug, PartialEq, Eq, Structural)]
pub struct OpcodeClassPlain(pub usize);

/// The two opcode bits, one among the first `MAX_OP_LVL1` rows of a block
/// and one among the rest, that together select an opcode class.
/// (Class zero, which no opcode has, falls on the pair `(0, 7)`, as the
/// truncating division of `-1` by eight gives.)
pub open spec fn spec_opclass_to_two_level(id: int) -> (int, int) {
    if id == 0 {
        (0, 7)
    } else {
        ((id - 1) / 8, (id - 1) % 8 + 8)
    }
}

/// The rows of the two opcode bits of class `class`.
pub fn opclass_to_two_level(class: OpcodeClassPlain) -> (r: (usize, usize))
    requires
        class.0 <= MAX_OP_LVL1 * (MAX_OP_LVL2 - MAX_OP_LVL1),
    ensures
        r.0 == spec_opclass_to_two_level(class.0 as int).0,
        r.1 == spec_opclass_to_two_level(class.0 as int).1,
        r.0 < MAX_OP_LVL2 - MAX_OP_LVL1,
        class.0 >= 1 ==> MAX_OP_LVL1 <= r.1 < MAX_OP_LVL2,
{
    if class.0 == 0 {
        return (0, 7);
    }
    let id: usize = class.0 - 1;
    (id / 8, id % 8 + 8)
}

/// Distinct opcode classes get distinct pairs of opcode bits, so that the
/// gadget of one class is never enabled on the step of another.
pub proof fn lemma_opclass_to_two_level_injective(a: int, b: int)
    requires
        1 <= a <= 96,
        1 <= b <= 96,
        spec_opclass_to_two_level(a) == spec_opclass_to_two_level(b),
    ensures
        a == b,
{
    let da = a - 1;
    let db = b - 1;
    assert(da == 8 * (da / 8) + da % 8);
    assert(db == 8 * (db / 8) + db % 8);
}

/// The memory table lookups that a step may make, in order.
#[derive(Clone, Copy, Debug, PartialEq, Eq, Structural)]
pub enum MLookupItem {
    First,
    Second,
    Third,
    Fourth,
    Fifth,
    Six,
}

/// The position of a lookup among those of its step.
pub open spec fn mlookup_index(item: MLookupItem) -> int {
    match item {
        MLookupItem::First => 0,
        MLookupItem::Second => 1,
        MLookupItem::Third => 2,
        MLookupItem::Fourth => 3,
        MLookupItem::Fifth => 4,
        MLookupItem::Six => 5,
    }
}

impl MLookupItem {
    /// The lookup at position `i`.
    pub fn from_usize(i: usize) -> (r: MLookupItem)
        requires
            i < MTABLE_LOOKUPS_SIZE,
        ensures
            mlookup_index(r) == i,
    {
        match i {
            0 => MLookupItem::First,
            1 => MLookupItem::Second,
            2 => MLookupItem::Third,
            3 => MLookupItem::Fourth,
            4 => MLookupItem::Fifth,
            _ => MLookupItem::Six,
        }
    }

    /// The lookup at position `value`, among the first four.
    pub fn try_from_u32(value: u32) -> (r: MLookupItem)
        requires
            value < 4,
        ensures
            mlookup_index(r) == value,
    {
        match value {
            0 => MLookupItem::First,
            1 => MLookupItem::Second,
            2 => MLookupItem::Third,
            _ => MLookupItem::Fourth,
        }
    }
}

/// The machine state that a step starts from.
#[derive(Clone, Copy, Debug, PartialEq, Eq, Structural)]
pub struct Status {
    pub eid: u64,
    pub moid: u16,
    pub fid: u16,
    pub iid: u16,
    pub mmid: u16,
    pub sp: u64,
    pub last_jump_eid: u64,
}

/// The state a step starts from and the state the next step starts from.
#[derive(Clone, Copy, Debug, PartialEq, Eq, Structural)]
pub struct StepStatus {
    pub current: Status,
    pub next: Status,
}

} // verus!
