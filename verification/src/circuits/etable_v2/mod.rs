//! The second event table layout: a step occupies `ESTEP_SIZE` rows, its
//! cells handed out by kind, and its opcode class is told by one bit among
//! six of a first level and one among six of a second.

use vstd::prelude::*;

pub mod allocator;
pub mod assign;

verus! {

/// Rows of the table occupied by one execution step.
pub const ESTEP_SIZE: i32 = 4;
/// The bits of the first level of the opcode class.
pub const OP_LVL1_BITS: usize = 6usize;
/// The bits of the second level of the opcode class.
pub const OP_LVL2_BITS: usize = 6usize;

/// The machine state that a step starts from.
#[derive(Clone, Copy, Debug, PartialEq, Eq, Structural)]
pub struct Status {
    pub eid: u32,
    pub fid: u32,
    pub iid: u32,
    pub sp: u32,
    pub last_jump_eid: u32,
    pub allocated_memory_pages: u32,
}

/// The two opcode bits of class `class`, counted from one: the class less
/// one, split into its quotient and remainder by the second level's size.
pub open spec fn spec_opcode_bits(class: int) -> (int, int) {
    ((class - 1) / OP_LVL2_BITS as int, (class - 1) % OP_LVL2_BITS as int)
}

/// The indices, among the first and the second level's bits, of the two
/// opcode bits of a class.
pub fn opcode_bit_indices(class: usize) -> (r: (usize, usize))
    requires
        1 <= class,
        class - 1 < OP_LVL1_BITS * OP_LVL2_BITS,
    ensures
        r.0 == spec_opcode_bits(class as int).0,
        r.1 == spec_opcode_bits(class as int).1,
        r.0 < OP_LVL1_BITS,
        r.1 < OP_LVL2_BITS,
{
    let idx = class - 1;
    (idx / OP_LVL2_BITS, idx % OP_LVL2_BITS)
}

/// Distinct classes get distinct pairs of opcode bits.
pub proof fn lemma_opcode_bits_injective(a: int, b: int)
    requires
        1 <= a <= 36,
        1 <= b <= 36,
        spec_opcode_bits(a) == spec_opcode_bits(b),
    ensures
        a == b,
{
    let da = a - 1;
    let db = b - 1;
    assert(da == 6 * (da / 6) + da % 6);
    assert(db == 6 * (db / 6) + db % 6);
}

} // verus!
