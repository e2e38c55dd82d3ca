//! The cells and gates of a comparison of two 64-bit values through their
//! difference.
//!
//! The builder takes four 64-bit cells from a block that has three, so the
//! gadget is never configured; its gates are kept, with what they prove.

use vstd::prelude::*;
use crate::circuits::etable_compact::op_configure::{
    BitCell, CommonRangeCell, MTableLookupCell, U64Cell, UnlimitedCell,
};
use crate::circuits::utils::{
    b2i, fzero, lemma_fzero_mul_bit, lemma_fzero_small, modulus, FieldValue,
};

verus! {

/// The cells of the gadget.
#[derive(Clone, Copy, Debug, PartialEq, Eq, Structural)]
pub struct CompareConfig {
    pub vtype: CommonRangeCell,
    pub diff_inv: UnlimitedCell,
    pub res_is_eq: BitCell,
    pub res_is_lt: BitCell,
    pub res_is_gt: BitCell,
    pub left: U64Cell,
    pub right: U64Cell,
    pub diff: U64Cell,
    pub res: U64Cell,
    pub op_is_eq: BitCell,
    pub op_is_ne: BitCell,
    pub op_is_lt: BitCell,
    pub op_is_gt: BitCell,
    pub op_is_le: BitCell,
    pub op_is_ge: BitCell,
    pub lookup_stack_read_left: MTableLookupCell,
    pub lookup_stack_read_right: MTableLookupCell,
    pub lookup_stack_write_res: MTableLookupCell,
}

/// Builds the gadget.
pub struct CompareConfigBuilder {}

/// The values of the gadget's cells on a step.
#[derive(Clone, Copy, Debug, PartialEq, Eq, Structural)]
pub struct CompareWitness {
    pub diff_inv: FieldValue,
    pub res_is_eq: bool,
    pub res_is_lt: bool,
    pub res_is_gt: bool,
    pub left: u64,
    pub right: u64,
    pub diff: u64,
}

/// The gates that tie the three outcomes to the difference of the
/// operands.
pub open spec fn compare_diff_gates(w: CompareWitness) -> bool {
    &&& fzero(w.left + b2i(w.res_is_lt) * w.diff - b2i(w.res_is_gt) * w.diff - w.right)
    &&& fzero(b2i(w.res_is_gt) + b2i(w.res_is_lt) + b2i(w.res_is_eq) - 1)
    &&& fzero(w.diff * b2i(w.res_is_eq))
    &&& fzero(w.diff * w.diff_inv.value() + b2i(w.res_is_eq) - 1)
}

/// Soundness: wherever these gates hold, the outcome bits say how the
/// operands compare.
pub proof fn lemma_compare_sound(w: CompareWitness)
    requires
        compare_diff_gates(w),
    ensures
        w.res_is_eq == (w.left == w.right),
        w.res_is_lt == (w.left < w.right),
        w.res_is_gt == (w.left > w.right),
{
    let d = w.diff as int;
    lemma_fzero_small(b2i(w.res_is_gt) + b2i(w.res_is_lt) + b2i(w.res_is_eq) - 1);
    lemma_fzero_mul_bit(d, b2i(w.res_is_eq));
    if !w.res_is_eq && d == 0 {
        vstd::arithmetic::mul::lemma_mul_basics(w.diff_inv.value());
        assert(d * w.diff_inv.value() + b2i(w.res_is_eq) - 1 == -1);
        lemma_fzero_small(-1);
    }
    vstd::arithmetic::mul::lemma_mul_basics(d);
    let e = w.left + b2i(w.res_is_lt) * d - b2i(w.res_is_gt) * d - w.right;
    assert(-0x2_0000_0000_0000_0000 < e < 0x2_0000_0000_0000_0000);
    lemma_fzero_small(e);
}

} // verus!
