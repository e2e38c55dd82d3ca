//! The constraints that the table places on every block beside those of
//! the opcode gadgets: the cells of the opcode column are bits, an enabled
//! block has one set bit in each level, and from a block to the next the
//! counts and the state change by what the enabled gadget contributes.

use vstd::prelude::*;
use crate::circuits::etable_compact::assign::{
    block_value, input_indices, lemma_input_index_change, lemma_rest_jops_change, lemma_rest_mops_change, rest_seq,
    configs_distinct, gadget_writes_ok, step_configs, step_extra_mops, step_jops, step_mops, step_public,
    steps_assignable, common_writes, suffix_sum, EventTableCommonConfig, EventTableEntry,
};
use crate::circuits::etable_compact::{StepStatus, ETABLE_STEP_SIZE};
use crate::circuits::step::StepInfo;
use crate::circuits::utils::{CellWrite, Context, FieldValue};
use crate::circuits::etable_compact::{
    opclass_to_two_level, spec_opclass_to_two_level, OpcodeClassPlain, COL_AUX, COL_OPCODE_BITS, COL_SHARED_BITS_0, COL_STATE,
    MAX_OP_LVL1, MAX_OP_LVL2,
};
use crate::circuits::etable_compact::op_configure::op_config::{
    configure_gadget, gadget_layout, has_gadget, op_config_class, op_config_wf, OpConfig,
};
use crate::circuits::utils::{b2i, fzero, lemma_fzero_small, small_bound};

verus! {

/// The sum of `bits` over the rows from `lo` up to `hi`.
pub open spec fn level_sum(bits: Seq<int>, lo: int, hi: int) -> int
    decreases hi - lo,
{
    if hi <= lo {
        0
    } else {
        level_sum(bits, lo, hi - 1) + bits[hi - 1]
    }
}

/// The gates on the opcode column of a block whose enable bit is `enable`:
/// every cell is a bit, and where the block is enabled each level holds
/// bits that sum to one.
pub open spec fn opcode_bits_gates(bits: Seq<int>, enable: int) -> bool {
    &&& bits.len() == MAX_OP_LVL2
    &&& forall|i: int| 0 <= i < MAX_OP_LVL2 ==> fzero(#[trigger] bits[i] * (bits[i] - 1))
    &&& fzero((1 - level_sum(bits, 0, MAX_OP_LVL1 as int)) * enable)
    &&& fzero((1 - level_sum(bits, MAX_OP_LVL1 as int, MAX_OP_LVL2 as int)) * enable)
}

/// The opcode column of a block with the bits at rows `a` and `b` set.
pub open spec fn one_hot(a: int, b: int) -> Seq<int> {
    Seq::new(MAX_OP_LVL2 as nat, |i: int| if i == a || i == b { 1int } else { 0int })
}

/// The selector of the gadget whose opcode bits are at rows `l1` and `l2`.
pub open spec fn op_enabled(bits: Seq<int>, l1: int, l2: int) -> int {
    bits[l1] * bits[l2]
}

/// The sum, over the registered gadgets with opcode bits `maps`, of what
/// each contributes, `effects`, times its selector.
pub open spec fn selected(bits: Seq<int>, maps: Seq<(int, int)>, effects: Seq<int>) -> int
    decreases maps.len(),
{
    if maps.len() == 0 || effects.len() != maps.len() {
        0
    } else {
        selected(bits, maps.drop_last(), effects.drop_last()) + effects.last() * op_enabled(
            bits,
            maps.last().0,
            maps.last().1,
        )
    }
}

/// A change gate: from a block holding `cur` to the next holding `next`,
/// the value changes by what the enabled gadget contributes, wherever
/// `factor` is set.
pub open spec fn change_gate(cur: int, next: int, bits: Seq<int>, maps: Seq<(int, int)>, deltas: Seq<int>, factor: int) -> bool {
    fzero((next - cur - selected(bits, maps, deltas)) * factor)
}

/// The state that the table's gates read in the common cells of a block.
#[derive(Clone, Copy, Debug, PartialEq, Eq, Structural)]
pub struct BlockCommon {
    pub enable: u64,
    pub rest_mops: u64,
    pub rest_jops: u64,
    pub input_index: u64,
    pub eid: u64,
    pub moid: u64,
    pub fid: u64,
    pub iid: u64,
    pub mmid: u64,
    pub sp: u64,
    pub last_jump_eid: u64,
}

/// The gates that tie a block to the next, given the registered gadgets'
/// opcode bits `maps` and, for each, its memory operations `mops`, its
/// jumps `jops`, whether it reads a public input `input`, its change of the
/// stack pointer `sp`, and its change of the module, function, instruction
/// and last jump `moid`, `fid`, `iid`, `ljeid`: the enable bit may only be
/// set after an enabled block; the operations still to come drop by the
/// step's own, jumps only where a step follows; the step number grows by
/// one; the input index, the stack pointer and the instruction change where
/// a step follows; the module and memory module agree.
pub open spec fn common_change_gates(
    cur: BlockCommon,
    next: BlockCommon,
    bits: Seq<int>,
    maps: Seq<(int, int)>,
    mops: Seq<int>,
    jops: Seq<int>,
    input: Seq<int>,
    sp: Seq<int>,
    moid: Seq<int>,
    fid: Seq<int>,
    iid: Seq<int>,
    ljeid: Seq<int>,
) -> bool {
    let e = cur.enable as int;
    let ne = next.enable as int;
    &&& fzero(ne * (e - 1))
    &&& change_gate(cur.rest_mops as int, next.rest_mops as int, bits, maps, mops.map_values(|m: int| -m), e)
    &&& change_gate(cur.rest_jops as int, next.rest_jops as int, bits, maps, jops.map_values(|j: int| -j * ne), e)
    &&& fzero((next.eid - cur.eid - 1) * ne * e)
    &&& change_gate(cur.input_index as int, next.input_index as int, bits, maps, input, ne * e)
    &&& change_gate(cur.sp as int, next.sp as int, bits, maps, sp, ne * e)
    &&& change_gate(cur.moid as int, next.moid as int, bits, maps, moid, e)
    &&& change_gate(cur.fid as int, next.fid as int, bits, maps, fid, e)
    &&& change_gate(cur.iid as int, next.iid as int, bits, maps, iid, ne * e)
    &&& fzero((cur.mmid - cur.moid) * e)
    &&& change_gate(cur.last_jump_eid as int, next.last_jump_eid as int, bits, maps, ljeid, e)
}

/// The level sum of a column with the one bit `a` set is one where `a` is
/// among the rows, else zero.
pub proof fn lemma_level_sum_one_hot(a: int, b: int, lo: int, hi: int)
    requires
        0 <= lo <= hi <= MAX_OP_LVL2,
        !(lo <= b < hi),
    ensures
        level_sum(one_hot(a, b), lo, hi) == if lo <= a < hi { 1int } else { 0int },
    decreases hi - lo,
{
    if hi > lo {
        lemma_level_sum_one_hot(a, b, lo, hi - 1);
    }
}

/// The level sum of cells that are bits is between zero and the number of
/// rows, and is zero only where every cell is.
pub proof fn lemma_level_sum_bits(bits: Seq<int>, lo: int, hi: int)
    requires
        0 <= lo <= hi <= bits.len(),
        forall|i: int| lo <= i < hi ==> #[trigger] bits[i] == 0 || bits[i] == 1,
    ensures
        0 <= level_sum(bits, lo, hi) <= hi - lo,
        level_sum(bits, lo, hi) == 0 ==> forall|i: int| lo <= i < hi ==> #[trigger] bits[i] == 0,
    decreases hi - lo,
{
    if hi > lo {
        lemma_level_sum_bits(bits, lo, hi - 1);
    }
}

/// Bits that sum to one over a level have exactly one set bit there.
pub proof fn lemma_level_sum_one(bits: Seq<int>, lo: int, hi: int) -> (a: int)
    requires
        0 <= lo <= hi <= bits.len(),
        forall|i: int| lo <= i < hi ==> #[trigger] bits[i] == 0 || bits[i] == 1,
        level_sum(bits, lo, hi) == 1,
    ensures
        lo <= a < hi,
        bits[a] == 1,
        forall|i: int| lo <= i < hi && i != a ==> #[trigger] bits[i] == 0,
    decreases hi - lo,
{
    lemma_level_sum_bits(bits, lo, hi - 1);
    if bits[hi - 1] == 1 {
        hi - 1
    } else {
        lemma_level_sum_one(bits, lo, hi - 1)
    }
}

/// A cell below two to the hundred and twelfth whose bit gate holds is a
/// bit.
pub proof fn lemma_bit_gate(v: int)
    requires
        0 <= v < small_bound(),
        fzero(v * (v - 1)),
    ensures
        v == 0 || v == 1,
{
    crate::circuits::utils::lemma_fzero_mul(v, v - 1);
}

/// Soundness of the opcode bit gates: in an enabled block whose opcode
/// cells are below two to the hundred and twelfth, exactly one bit of the
/// first level and one of the second are set.
pub proof fn lemma_opcode_bits_one_hot(bits: Seq<int>) -> (r: (int, int))
    requires
        opcode_bits_gates(bits, 1),
        forall|i: int| 0 <= i < MAX_OP_LVL2 ==> 0 <= #[trigger] bits[i] < small_bound(),
    ensures
        0 <= r.0 < MAX_OP_LVL1 <= r.1 < MAX_OP_LVL2,
        bits =~= one_hot(r.0, r.1),
{
    assert forall|i: int| 0 <= i < MAX_OP_LVL2 implies #[trigger] bits[i] == 0 || bits[i] == 1 by {
        lemma_bit_gate(bits[i]);
    }
    lemma_level_sum_bits(bits, 0, 8);
    lemma_level_sum_bits(bits, 8, 20);
    assert((1 - level_sum(bits, 0, 8)) * 1 == 1 - level_sum(bits, 0, 8));
    assert((1 - level_sum(bits, 8, 20)) * 1 == 1 - level_sum(bits, 8, 20));
    lemma_fzero_small(1 - level_sum(bits, 0, 8));
    lemma_fzero_small(1 - level_sum(bits, 8, 20));
    let a = lemma_level_sum_one(bits, 0, 8);
    let b = lemma_level_sum_one(bits, 8, 20);
    assert(bits =~= one_hot(a, b));
    (a, b)
}

/// Completeness of the opcode bit gates: the column of a step of a class
/// from 1 to 64, with its two bits set, satisfies them in an enabled
/// block, and a column of zeros satisfies them in a disabled one.
pub proof fn lemma_assigned_opcode_bits_gates(class: int)
    requires
        1 <= class <= 64,
    ensures
        opcode_bits_gates(
            one_hot(spec_opclass_to_two_level(class).0, spec_opclass_to_two_level(class).1),
            1,
        ),
        opcode_bits_gates(Seq::new(MAX_OP_LVL2 as nat, |i: int| 0int), 0),
{
    let l = spec_opclass_to_two_level(class);
    let bits = one_hot(l.0, l.1);
    assert(0 <= l.0 < 8 <= l.1 < 20);
    lemma_level_sum_one_hot(l.0, l.1, 0, 8);
    lemma_level_sum_one_hot(l.1, l.0, 8, 20);
    assert(level_sum(one_hot(l.1, l.0), 8, 20) == level_sum(bits, 8, 20)) by {
        assert(one_hot(l.1, l.0) =~= bits);
    }
    assert forall|i: int| 0 <= i < MAX_OP_LVL2 implies fzero(#[trigger] bits[i] * (bits[i] - 1)) by {
        assert(bits[i] * (bits[i] - 1) == 0);
    }
    assert(fzero(0));
    let z = Seq::new(MAX_OP_LVL2 as nat, |i: int| 0int);
    assert forall|i: int| 0 <= i < MAX_OP_LVL2 implies fzero(#[trigger] z[i] * (z[i] - 1)) by {
        assert(z[i] == 0);
        vstd::arithmetic::mul::lemma_mul_basics(-1);
    }
    assert((1 - level_sum(z, 0, 8)) * 0 == 0);
    assert((1 - level_sum(z, 8, 20)) * 0 == 0);
}

/// In a block whose opcode bits are those at rows `a` and `b`, the gadget
/// whose bits are at rows `x` and `y` is selected exactly when they are
/// the same rows.
pub proof fn lemma_op_enabled_one_hot(a: int, b: int, x: int, y: int)
    requires
        0 <= a < MAX_OP_LVL1 <= b < MAX_OP_LVL2,
        0 <= x < MAX_OP_LVL1 <= y < MAX_OP_LVL2,
    ensures
        op_enabled(one_hot(a, b), x, y) == if x == a && y == b { 1int } else { 0int },
{
}

/// The gadget of a class is selected on the block of a step exactly when
/// the step is of that class.
pub proof fn lemma_gadget_selected_iff_class(step: int, gadget: int)
    requires
        1 <= step <= 64,
        1 <= gadget <= 64,
    ensures
        op_enabled(
            one_hot(spec_opclass_to_two_level(step).0, spec_opclass_to_two_level(step).1),
            spec_opclass_to_two_level(gadget).0,
            spec_opclass_to_two_level(gadget).1,
        ) == if step == gadget { 1int } else { 0int },
{
    let s = spec_opclass_to_two_level(step);
    let g = spec_opclass_to_two_level(gadget);
    lemma_op_enabled_one_hot(s.0, s.1, g.0, g.1);
    if s == g {
        crate::circuits::etable_compact::lemma_opclass_to_two_level_injective(step, gadget);
    }
}

/// The registered gadgets' opcode bits are distinct pairs, one row in each
/// level.
pub open spec fn maps_wf(maps: Seq<(int, int)>) -> bool {
    &&& forall|k: int| 0 <= k < maps.len() ==> 0 <= (#[trigger] maps[k]).0 < MAX_OP_LVL1 <= maps[k].1 < MAX_OP_LVL2
    &&& forall|k: int, j: int| 0 <= k < j < maps.len() ==> #[trigger] maps[k] != #[trigger] maps[j]
}

/// On a block whose opcode bits are at rows `a` and `b`, the sum of the
/// registered gadgets' contributions is the contribution of the gadget
/// registered with those rows, or zero where there is none.
pub proof fn lemma_selected_one_hot(a: int, b: int, maps: Seq<(int, int)>, effects: Seq<int>)
    requires
        0 <= a < MAX_OP_LVL1 <= b < MAX_OP_LVL2,
        maps_wf(maps),
        effects.len() == maps.len(),
    ensures
        (exists|k: int| 0 <= k < maps.len() && maps[k] == (a, b)) ==> selected(one_hot(a, b), maps, effects) == effects[
            choose|k: int| 0 <= k < maps.len() && maps[k] == (a, b)],
        !(exists|k: int| 0 <= k < maps.len() && maps[k] == (a, b)) ==> selected(one_hot(a, b), maps, effects) == 0,
    decreases maps.len(),
{
    if maps.len() > 0 {
        let n = maps.len() - 1;
        let m0 = maps.drop_last();
        let e0 = effects.drop_last();
        assert(maps_wf(m0)) by {
            assert forall|k: int, j: int| 0 <= k < j < m0.len() implies #[trigger] m0[k] != #[trigger] m0[j] by {
                assert(m0[k] == maps[k] && m0[j] == maps[j]);
            }
        }
        lemma_selected_one_hot(a, b, m0, e0);
        lemma_op_enabled_one_hot(a, b, maps[n].0, maps[n].1);
        let v = effects[n];
        let s = op_enabled(one_hot(a, b), maps[n].0, maps[n].1);
        assert(v * s == if maps[n] == (a, b) { v } else { 0 }) by {
            vstd::arithmetic::mul::lemma_mul_basics(v);
        }
        if maps[n] == (a, b) {
            let k = choose|k: int| 0 <= k < maps.len() && maps[k] == (a, b);
            assert(k == n);
            assert(!(exists|j: int| 0 <= j < m0.len() && m0[j] == (a, b))) by {
                if exists|j: int| 0 <= j < m0.len() && m0[j] == (a, b) {
                    let j = choose|j: int| 0 <= j < m0.len() && m0[j] == (a, b);
                    assert(maps[j] == maps[n]);
                }
            }
        } else {
            if exists|k: int| 0 <= k < maps.len() && maps[k] == (a, b) {
                let k = choose|k: int| 0 <= k < maps.len() && maps[k] == (a, b);
                assert(m0[k] == (a, b));
                let k0 = choose|k: int| 0 <= k < m0.len() && m0[k] == (a, b);
                assert(k0 == k) by {
                    if k0 != k {
                        assert(maps[k0] == maps[k]);
                        if k0 < k {
                            assert(maps[k0] != maps[k]);
                        } else {
                            assert(maps[k] != maps[k0]);
                        }
                    }
                }
            } else {
                assert(!(exists|j: int| 0 <= j < m0.len() && m0[j] == (a, b))) by {
                    if exists|j: int| 0 <= j < m0.len() && m0[j] == (a, b) {
                        let j = choose|j: int| 0 <= j < m0.len() && m0[j] == (a, b);
                        assert(maps[j] == (a, b));
                    }
                }
            }
        }
    }
}

/// Completeness of the change gates for the counts that the assignment
/// computes. Take a step `i` of class from 1 to 64 among steps with memory
/// operations `mops`, jumps `jops` and public inputs `public`, and a
/// registered gadget `k` with the step's opcode bits that contributes the
/// step's own counts. Then on the step's block the operations still to come
/// drop by the step's memory operations; the jumps drop by the step's
/// jumps where a step follows, and after the last step the constraint holds
/// exactly when that step makes no jump; and the input index grows by one
/// where the step reads a public input.
pub proof fn lemma_assigned_counts_change(
    mops: Seq<u64>,
    jops: Seq<u64>,
    public: Seq<bool>,
    class: int,
    i: int,
    maps: Seq<(int, int)>,
    gm: Seq<int>,
    gj: Seq<int>,
    gi: Seq<int>,
    k: int,
)
    requires
        mops.len() == jops.len(),
        public.len() == mops.len(),
        0 <= i < mops.len(),
        suffix_sum(mops, 0) <= u64::MAX,
        suffix_sum(jops, 0) <= u64::MAX,
        public.len() <= u64::MAX,
        1 <= class <= 64,
        maps_wf(maps),
        gm.len() == maps.len(),
        gj.len() == maps.len(),
        gi.len() == maps.len(),
        0 <= k < maps.len(),
        maps[k] == spec_opclass_to_two_level(class),
        gm[k] == mops[i],
        gj[k] == jops[i],
        gi[k] == b2i(public[i]),
    ensures
        ({
            let l = spec_opclass_to_two_level(class);
            let bits = one_hot(l.0, l.1);
            let ne = if i + 1 < mops.len() { 1int } else { 0int };
            &&& change_gate(
                block_value(rest_seq(mops), i),
                block_value(rest_seq(mops), i + 1),
                bits,
                maps,
                gm.map_values(|m: int| -m),
                1,
            )
            &&& (change_gate(
                block_value(rest_seq(jops), i),
                block_value(rest_seq(jops), i + 1),
                bits,
                maps,
                gj.map_values(|j: int| -j * ne),
                1,
            ) <==> (i + 1 < mops.len() || jops[i] == 0))
            &&& (i + 1 < mops.len() ==> change_gate(
                input_indices(public)[i] as int,
                input_indices(public)[i + 1] as int,
                bits,
                maps,
                gi,
                1,
            ))
        }),
{
    let l = spec_opclass_to_two_level(class);
    let bits = one_hot(l.0, l.1);
    let n = mops.len() as int;
    let ne = if i + 1 < n { 1int } else { 0int };
    assert(0 <= l.0 < 8 <= l.1 < 20);
    let em = gm.map_values(|m: int| -m);
    let ej = gj.map_values(|j: int| -j * ne);
    lemma_selected_one_hot(l.0, l.1, maps, em);
    lemma_selected_one_hot(l.0, l.1, maps, ej);
    lemma_selected_one_hot(l.0, l.1, maps, gi);
    assert(maps[k] == (l.0, l.1));
    let c = choose|j: int| 0 <= j < maps.len() && maps[j] == (l.0, l.1);
    assert(c == k) by {
        if c != k {
            if c < k {
                assert(maps[c] != maps[k]);
            } else {
                assert(maps[k] != maps[c]);
            }
        }
    }
    assert(selected(bits, maps, em) == -(mops[i] as int));
    assert(selected(bits, maps, ej) == -(jops[i] as int) * ne);
    assert(selected(bits, maps, gi) == b2i(public[i]));
    lemma_rest_mops_change(mops, i);
    lemma_rest_jops_change(jops, i);
    let rm0 = block_value(rest_seq(mops), i);
    let rm1 = block_value(rest_seq(mops), i + 1);
    let rj0 = block_value(rest_seq(jops), i);
    let rj1 = block_value(rest_seq(jops), i + 1);
    assert((rm1 - rm0 - selected(bits, maps, em)) * 1 == rm1 - rm0 + mops[i]);
    assert(-(jops[i] as int) * ne == -(jops[i] * ne)) by (nonlinear_arith);
    assert((rj1 - rj0 - selected(bits, maps, ej)) * 1 == rj1 - rj0 + jops[i] * ne);
    if i + 1 < n {
        lemma_input_index_change(public, i);
        let x0 = input_indices(public)[i] as int;
        let x1 = input_indices(public)[i + 1] as int;
        assert((x1 - x0 - selected(bits, maps, gi)) * 1 == 0);
        assert(fzero(0));
    }
}

/// The classes of `supported` that are also in `set`, in order, each with
/// its two opcode bits: the gadgets that the table registers.
pub open spec fn registered(supported: Seq<OpcodeClassPlain>, set: Seq<OpcodeClassPlain>) -> Seq<
    (OpcodeClassPlain, usize, usize),
>
    decreases supported.len(),
{
    if supported.len() == 0 {
        Seq::empty()
    } else {
        let r = registered(supported.drop_last(), set);
        let c = supported.last();
        if set.contains(c) {
            let l = spec_opclass_to_two_level(c.0 as int);
            r.push((c, l.0 as usize, l.1 as usize))
        } else {
            r
        }
    }
}

/// The opcode bits of the registered gadgets.
pub open spec fn registered_maps(r: Seq<(OpcodeClassPlain, usize, usize)>) -> Seq<(int, int)> {
    r.map_values(|e: (OpcodeClassPlain, usize, usize)| (e.1 as int, e.2 as int))
}

/// The table's configuration: its common columns and the gadgets it
/// registers, each with its opcode bits.
#[derive(Clone, Debug)]
pub struct EventTableConfig {
    pub common_config: EventTableCommonConfig,
    pub op_bitmaps: Vec<(OpcodeClassPlain, usize, usize)>,
    pub op_configs: Vec<(OpcodeClassPlain, OpConfig)>,
}

/// Whether `set` holds the class `c`.
fn contains_class(set: &Vec<OpcodeClassPlain>, c: OpcodeClassPlain) -> (b: bool)
    ensures
        b == set@.contains(c),
{
    let mut i: usize = 0;
    while i < set.len()
        invariant
            i <= set.len(),
            forall|j: int| 0 <= j < i ==> set@[j] != c,
        decreases set.len() - i,
    {
        if set[i] == c {
            return true;
        }
        i = i + 1;
    }
    false
}

/// The opcode classes of the instruction set, numbered from one in this
/// order; the foreign plugins follow the last, each at its plugin's index
/// past it.
#[derive(Clone, Copy, Debug, PartialEq, Eq, Structural)]
pub enum OpcodeClass {
    LocalGet,
    LocalSet,
    LocalTee,
    GlobalGet,
    GlobalSet,
    Const,
    Drop,
    Select,
    Return,
    Bin,
    BinSigned,
    BinShift,
    BinBit,
    Rel,
    Br,
    BrIf,
    BrIfEqz,
    BrTable,
    Unary,
    Call,
    CallHost,
    Store,
    Load,
    Test,
    Conversion,
    MemorySize,
    MemoryGrow,
    CallIndirect,
    ForeignPluginStart,
}

/// The number of a class.
pub open spec fn class_number(c: OpcodeClass) -> int {
    match c {
        OpcodeClass::LocalGet => 1,
        OpcodeClass::LocalSet => 2,
        OpcodeClass::LocalTee => 3,
        OpcodeClass::GlobalGet => 4,
        OpcodeClass::GlobalSet => 5,
        OpcodeClass::Const => 6,
        OpcodeClass::Drop => 7,
        OpcodeClass::Select => 8,
        OpcodeClass::Return => 9,
        OpcodeClass::Bin => 10,
        OpcodeClass::BinSigned => 11,
        OpcodeClass::BinShift => 12,
        OpcodeClass::BinBit => 13,
        OpcodeClass::Rel => 14,
        OpcodeClass::Br => 15,
        OpcodeClass::BrIf => 16,
        OpcodeClass::BrIfEqz => 17,
        OpcodeClass::BrTable => 18,
        OpcodeClass::Unary => 19,
        OpcodeClass::Call => 20,
        OpcodeClass::CallHost => 21,
        OpcodeClass::Store => 22,
        OpcodeClass::Load => 23,
        OpcodeClass::Test => 24,
        OpcodeClass::Conversion => 25,
        OpcodeClass::MemorySize => 26,
        OpcodeClass::MemoryGrow => 27,
        OpcodeClass::CallIndirect => 28,
        OpcodeClass::ForeignPluginStart => 29,
    }
}

impl OpcodeClass {
    /// The plain number of the class.
    pub fn plain(&self) -> (r: OpcodeClassPlain)
        ensures
            r.0 == class_number(*self),
    {
        let n: usize = match self {
            OpcodeClass::LocalGet => 1,
            OpcodeClass::LocalSet => 2,
            OpcodeClass::LocalTee => 3,
            OpcodeClass::GlobalGet => 4,
            OpcodeClass::GlobalSet => 5,
            OpcodeClass::Const => 6,
            OpcodeClass::Drop => 7,
            OpcodeClass::Select => 8,
            OpcodeClass::Return => 9,
            OpcodeClass::Bin => 10,
            OpcodeClass::BinSigned => 11,
            OpcodeClass::BinShift => 12,
            OpcodeClass::BinBit => 13,
            OpcodeClass::Rel => 14,
            OpcodeClass::Br => 15,
            OpcodeClass::BrIf => 16,
            OpcodeClass::BrIfEqz => 17,
            OpcodeClass::BrTable => 18,
            OpcodeClass::Unary => 19,
            OpcodeClass::Call => 20,
            OpcodeClass::CallHost => 21,
            OpcodeClass::Store => 22,
            OpcodeClass::Load => 23,
            OpcodeClass::Test => 24,
            OpcodeClass::Conversion => 25,
            OpcodeClass::MemorySize => 26,
            OpcodeClass::MemoryGrow => 27,
            OpcodeClass::CallIndirect => 28,
            OpcodeClass::ForeignPluginStart => 29,
        };
        OpcodeClassPlain(n)
    }
}

/// The plain class of a class of the instruction set.
pub open spec fn plain_of(c: OpcodeClass) -> OpcodeClassPlain {
    OpcodeClassPlain(class_number(c) as usize)
}

/// The class of the SHA-256 host call: the foreign plugins' start plus the
/// plugin's index, one.
pub open spec fn sha256_class() -> OpcodeClassPlain {
    OpcodeClassPlain((class_number(OpcodeClass::ForeignPluginStart) + 1) as usize)
}

/// The classes whose gadgets the table has, in the order it configures
/// them: return, br, br_if_eqz, call, const, drop, the three local
/// accesses, the three binary operator groups, br_if, load, store, the
/// comparisons, select, test, the conversions, and the SHA-256 host call.
pub open spec fn original_supported() -> Seq<OpcodeClassPlain> {
    seq![
        plain_of(OpcodeClass::Return),
        plain_of(OpcodeClass::Br),
        plain_of(OpcodeClass::BrIfEqz),
        plain_of(OpcodeClass::Call),
        plain_of(OpcodeClass::Const),
        plain_of(OpcodeClass::Drop),
        plain_of(OpcodeClass::LocalGet),
        plain_of(OpcodeClass::LocalSet),
        plain_of(OpcodeClass::LocalTee),
        plain_of(OpcodeClass::Bin),
        plain_of(OpcodeClass::BinBit),
        plain_of(OpcodeClass::BinShift),
        plain_of(OpcodeClass::BrIf),
        plain_of(OpcodeClass::Load),
        plain_of(OpcodeClass::Store),
        plain_of(OpcodeClass::Rel),
        plain_of(OpcodeClass::Select),
        plain_of(OpcodeClass::Test),
        plain_of(OpcodeClass::Conversion),
        sha256_class(),
    ]
}

/// The classes whose gadgets the table has, in order.
fn supported_classes() -> (r: Vec<OpcodeClassPlain>)
    ensures
        r@ == original_supported(),
{
    let mut r: Vec<OpcodeClassPlain> = Vec::new();
    r.push(OpcodeClass::Return.plain());
    r.push(OpcodeClass::Br.plain());
    r.push(OpcodeClass::BrIfEqz.plain());
    r.push(OpcodeClass::Call.plain());
    r.push(OpcodeClass::Const.plain());
    r.push(OpcodeClass::Drop.plain());
    r.push(OpcodeClass::LocalGet.plain());
    r.push(OpcodeClass::LocalSet.plain());
    r.push(OpcodeClass::LocalTee.plain());
    r.push(OpcodeClass::Bin.plain());
    r.push(OpcodeClass::BinBit.plain());
    r.push(OpcodeClass::BinShift.plain());
    r.push(OpcodeClass::BrIf.plain());
    r.push(OpcodeClass::Load.plain());
    r.push(OpcodeClass::Store.plain());
    r.push(OpcodeClass::Rel.plain());
    r.push(OpcodeClass::Select.plain());
    r.push(OpcodeClass::Test.plain());
    r.push(OpcodeClass::Conversion.plain());
    r.push(OpcodeClassPlain(30));
    assert(r@ =~= original_supported());
    r
}

impl EventTableConfig {
    /// Configures the table for the opcode classes `opcode_set`: the gadget
    /// of each class that the table has and the set holds is registered
    /// with its opcode bits, in the order in which the table configures its
    /// gadgets; each registered class that has a gadget gets it, configured
    /// in a block of its own with its builder's layout, once.
    pub fn configure(opcode_set: &Vec<OpcodeClassPlain>) -> (r: EventTableConfig)
        ensures
            r.common_config == (EventTableCommonConfig {
                shared_bits: COL_SHARED_BITS_0,
                opcode_bits: COL_OPCODE_BITS,
                state: COL_STATE,
                aux: COL_AUX,
            }),
            r.op_bitmaps@ == registered(original_supported(), opcode_set@),
            configs_distinct(r.op_configs@),
            forall|k: int|
                0 <= k < r.op_configs@.len() ==> {
                    let (c, g) = #[trigger] r.op_configs@[k];
                    &&& op_config_wf(g)
                    &&& op_config_class(g) == c.0
                    &&& gadget_layout(g, c.0)
                    &&& opcode_set@.contains(c)
                    &&& original_supported().contains(c)
                },
            forall|j: int|
                0 <= j < original_supported().len() && opcode_set@.contains(#[trigger] original_supported()[j])
                    && has_gadget(original_supported()[j].0) ==> exists|k: int|
                    0 <= k < r.op_configs@.len() && #[trigger] r.op_configs@[k].0 == original_supported()[j],
    {
        let supported = supported_classes();
        let common_config = EventTableCommonConfig::new();
        let mut op_bitmaps: Vec<(OpcodeClassPlain, usize, usize)> = Vec::new();
        let mut op_configs: Vec<(OpcodeClassPlain, OpConfig)> = Vec::new();
        proof {
            lemma_supported_distinct();
        }
        let mut i: usize = 0;
        while i < supported.len()
            invariant
                i <= supported.len(),
                supported@ == original_supported(),
                forall|a: int, b: int| 0 <= a < b < supported@.len() ==> #[trigger] supported@[a] != #[trigger] supported@[b],
                op_bitmaps@ == registered(supported@.subrange(0, i as int), opcode_set@),
                configs_distinct(op_configs@),
                forall|k: int|
                    0 <= k < op_configs@.len() ==> {
                        let (c, g) = #[trigger] op_configs@[k];
                        &&& op_config_wf(g)
                        &&& op_config_class(g) == c.0
                        &&& gadget_layout(g, c.0)
                        &&& opcode_set@.contains(c)
                        &&& exists|a: int| 0 <= a < i && supported@[a] == c
                    },
                forall|j: int|
                    0 <= j < i && opcode_set@.contains(#[trigger] supported@[j]) && has_gadget(supported@[j].0)
                        ==> exists|k: int| 0 <= k < op_configs@.len() && #[trigger] op_configs@[k].0 == supported@[j],
            decreases supported.len() - i,
        {
            let c = supported[i];
            proof {
                assert(supported@.subrange(0, i as int + 1).drop_last() =~= supported@.subrange(0, i as int));
                assert(supported@.subrange(0, i as int + 1).last() == c);
                assert(c.0 <= 30);
            }
            if contains_class(opcode_set, c) {
                let (l1, l2) = opclass_to_two_level(c);
                op_bitmaps.push((c, l1, l2));
                let g = configure_gadget(c.0);
                match g {
                    Some(g) => {
                        let ghost before = op_configs@;
                        proof {
                            assert forall|k: int| 0 <= k < before.len() implies before[k].0 != c by {
                                let a = choose|a: int| 0 <= a < i && supported@[a] == before[k].0;
                            }
                        }
                        op_configs.push((c, g));
                        proof {
                            assert(op_configs@[before.len() as int].0 == c);
                            assert forall|k: int| 0 <= k < before.len() implies op_configs@[k] == before[k] by {}
                        }
                    },
                    None => {},
                }
            }
            proof {
                assert forall|j: int|
                    0 <= j < i + 1 && opcode_set@.contains(#[trigger] supported@[j]) && has_gadget(supported@[j].0)
                    implies exists|k: int| 0 <= k < op_configs@.len() && #[trigger] op_configs@[k].0 == supported@[j] by {
                    if j == i {
                        assert(op_configs@[op_configs@.len() - 1].0 == c);
                    }
                }
            }
            i = i + 1;
        }
        proof {
            assert(supported@.subrange(0, supported.len() as int) =~= supported@);
        }
        proof {
            assert forall|k: int| 0 <= k < op_configs@.len() implies original_supported().contains(
                #[trigger] op_configs@[k].0,
            ) by {
                let a = choose|a: int| 0 <= a < supported@.len() && supported@[a] == op_configs@[k].0;
            }
        }
        EventTableConfig { common_config, op_bitmaps, op_configs }
    }
}

impl EventTableConfig {
    /// Assigns the steps `entries` of an execution, recorded as `steps` and
    /// starting from `statuses`, with the table's gadgets and common
    /// columns, as `EventTableCommonConfig::assign` does with the gadgets
    /// that the table registered.
    pub fn assign(
        &self,
        ctx: &mut Context,
        entries: &Vec<EventTableEntry>,
        steps: &Vec<StepInfo>,
        statuses: &Vec<StepStatus>,
        encodings: &Vec<Vec<FieldValue>>,
        max_rows: usize,
    ) -> (r: (u64, u64))
        requires
            ETABLE_STEP_SIZE * (entries.len() + 1) <= max_rows,
            steps.len() == entries.len(),
            statuses.len() == entries.len(),
            encodings.len() == entries.len(),
            steps_assignable(self.op_configs@, entries@, steps@, encodings@),
            old(ctx).offset + ETABLE_STEP_SIZE * (entries.len() + 1) < i32::MAX,
            forall|i: int| 0 <= i < entries.len() ==> (#[trigger] entries@[i]).opcode.0 <= 96,
            forall|i: int|
                0 <= i < entries.len() ==> #[trigger] entries@[i].op_mops + step_extra_mops(
                    step_configs(self.op_configs@, entries@),
                    steps@,
                )[i] <= u64::MAX,
            suffix_sum(step_mops(entries@, step_extra_mops(step_configs(self.op_configs@, entries@), steps@)), 0)
                <= u64::MAX,
            suffix_sum(step_jops(entries@), 0) <= u64::MAX,
        ensures
            final(ctx).offset == ETABLE_STEP_SIZE * entries.len(),
            ({
                let gadgets = step_configs(self.op_configs@, entries@);
                exists|gws: Seq<Seq<CellWrite>>|
                    {
                        &&& gadget_writes_ok(gadgets, old(ctx).offset as int, statuses@, steps@, encodings@, gws)
                        &&& final(ctx).writes@ == old(ctx).writes@ + common_writes(
                            self.common_config,
                            entries@,
                            step_extra_mops(gadgets, steps@),
                            step_public(gadgets, steps@),
                            old(ctx).offset as int,
                            gws,
                        )
                    }
            }),
            r.0 == suffix_sum(step_mops(entries@, step_extra_mops(step_configs(self.op_configs@, entries@), steps@)), 0),
            r.1 == suffix_sum(step_jops(entries@), 0),
    {
        self.common_config.assign(ctx, &self.op_configs, entries, steps, statuses, encodings, max_rows)
    }
}

/// The classes that the table supports are distinct.
proof fn lemma_supported_distinct()
    ensures
        forall|a: int, b: int|
            0 <= a < b < original_supported().len() ==> #[trigger] original_supported()[a]
                != #[trigger] original_supported()[b],
{
    let s = original_supported();
    assert forall|a: int, b: int| 0 <= a < b < s.len() implies #[trigger] s[a] != #[trigger] s[b] by {}
}

/// The table's gadgets are of distinct classes from 1 to 64, so that the
/// gadgets it registers, for any set of classes, have distinct opcode bits
/// and at most one is selected on any block.
pub proof fn lemma_table_gadgets_wf(set: Seq<OpcodeClassPlain>)
    ensures
        maps_wf(registered_maps(registered(original_supported(), set))),
{
    let s = original_supported();
    assert forall|i: int| 0 <= i < s.len() implies 1 <= (#[trigger] s[i]).0 <= 64 by {}
    assert forall|i: int, j: int| 0 <= i < j < s.len() implies #[trigger] s[i] != #[trigger] s[j] by {}
    lemma_registered_maps_wf(s, set);
}

/// Each registered gadget is a class of `supported` held by `set`, with the
/// opcode bits of its class.
pub proof fn lemma_registered_members(supported: Seq<OpcodeClassPlain>, set: Seq<OpcodeClassPlain>, k: int)
    requires
        0 <= k < registered(supported, set).len(),
    ensures
        supported.contains(registered(supported, set)[k].0),
        set.contains(registered(supported, set)[k].0),
        registered(supported, set)[k].1 == spec_opclass_to_two_level(registered(supported, set)[k].0.0 as int).0 as usize,
        registered(supported, set)[k].2 == spec_opclass_to_two_level(registered(supported, set)[k].0.0 as int).1 as usize,
    decreases supported.len(),
{
    let s0 = supported.drop_last();
    let r0 = registered(s0, set);
    if k < r0.len() {
        lemma_registered_members(s0, set, k);
        let c = r0[k].0;
        let j = choose|j: int| 0 <= j < s0.len() && s0[j] == c;
        assert(supported[j] == c);
    } else {
        assert(supported[supported.len() - 1] == supported.last());
    }
}

/// Where the supported classes are distinct and run from 1 to 64, the
/// registered gadgets have distinct opcode bits, one in each level, so that
/// on any block at most one of them is selected.
pub proof fn lemma_registered_maps_wf(supported: Seq<OpcodeClassPlain>, set: Seq<OpcodeClassPlain>)
    requires
        forall|i: int| 0 <= i < supported.len() ==> 1 <= (#[trigger] supported[i]).0 <= 64,
        forall|i: int, j: int| 0 <= i < j < supported.len() ==> #[trigger] supported[i] != #[trigger] supported[j],
    ensures
        maps_wf(registered_maps(registered(supported, set))),
    decreases supported.len(),
{
    let r = registered(supported, set);
    let m = registered_maps(r);
    assert forall|k: int| 0 <= k < m.len() implies 0 <= (#[trigger] m[k]).0 < MAX_OP_LVL1 <= m[k].1 < MAX_OP_LVL2 by {
        lemma_registered_members(supported, set, k);
        let c = r[k].0;
        let j = choose|j: int| 0 <= j < supported.len() && supported[j] == c;
        assert(1 <= supported[j].0 <= 64);
    }
    if supported.len() > 0 {
        let s0 = supported.drop_last();
        lemma_registered_maps_wf(s0, set);
        let r0 = registered(s0, set);
        let m0 = registered_maps(r0);
        assert forall|k: int, j: int| 0 <= k < j < m.len() implies #[trigger] m[k] != #[trigger] m[j] by {
            if j < m0.len() {
                assert(m[k] == m0[k] && m[j] == m0[j]);
            } else {
                let c = supported.last();
                lemma_registered_members(s0, set, k);
                let ck = r0[k].0;
                let jk = choose|x: int| 0 <= x < s0.len() && s0[x] == ck;
                assert(supported[jk] == ck);
                assert(supported[jk] != supported[supported.len() - 1]);
                assert(1 <= ck.0 <= 64 && 1 <= c.0 <= 64);
                if m[k] == m[j] {
                    crate::circuits::etable_compact::lemma_opclass_to_two_level_injective(ck.0 as int, c.0 as int);
                }
            }
        }
    }
}

/// Completeness of all the gates that tie the block of step `i` to the
/// next: take the blocks as the assignment fills them, with the counts it
/// computes, the next block enabled exactly where a step follows, and the
/// memory module equal to the module; and take the gadget `k` registered
/// with the step's opcode bits, whose contributions are the step's counts
/// and the changes of the state that the trace records from the step to
/// the next. Then the gates hold, but for the one on the jumps after the
/// last step, which holds exactly when that step makes no jump.
pub proof fn lemma_common_change_gates_complete(
    cur: BlockCommon,
    next: BlockCommon,
    mops: Seq<u64>,
    jops: Seq<u64>,
    public: Seq<bool>,
    class: int,
    i: int,
    maps: Seq<(int, int)>,
    gm: Seq<int>,
    gj: Seq<int>,
    gi: Seq<int>,
    gsp: Seq<int>,
    gmoid: Seq<int>,
    gfid: Seq<int>,
    giid: Seq<int>,
    gljeid: Seq<int>,
    k: int,
)
    requires
        mops.len() == jops.len(),
        public.len() == mops.len(),
        0 <= i < mops.len(),
        suffix_sum(mops, 0) <= u64::MAX,
        suffix_sum(jops, 0) <= u64::MAX,
        public.len() <= u64::MAX,
        1 <= class <= 64,
        maps_wf(maps),
        gm.len() == maps.len(),
        gj.len() == maps.len(),
        gi.len() == maps.len(),
        gsp.len() == maps.len(),
        gmoid.len() == maps.len(),
        gfid.len() == maps.len(),
        giid.len() == maps.len(),
        gljeid.len() == maps.len(),
        0 <= k < maps.len(),
        maps[k] == spec_opclass_to_two_level(class),
        gm[k] == mops[i],
        gj[k] == jops[i],
        gi[k] == b2i(public[i]),
        cur.enable == 1,
        next.enable == if i + 1 < mops.len() { 1u64 } else { 0u64 },
        cur.rest_mops == block_value(rest_seq(mops), i),
        next.rest_mops == block_value(rest_seq(mops), i + 1),
        cur.rest_jops == block_value(rest_seq(jops), i),
        next.rest_jops == block_value(rest_seq(jops), i + 1),
        i + 1 < mops.len() ==> cur.input_index == input_indices(public)[i],
        i + 1 < mops.len() ==> next.input_index == input_indices(public)[i + 1],
        i + 1 < mops.len() ==> next.eid == cur.eid + 1,
        i + 1 < mops.len() ==> next.sp == cur.sp + gsp[k],
        i + 1 < mops.len() ==> next.iid == cur.iid + giid[k],
        next.moid == cur.moid + gmoid[k],
        next.fid == cur.fid + gfid[k],
        next.last_jump_eid == cur.last_jump_eid + gljeid[k],
        cur.mmid == cur.moid,
    ensures
        ({
            let l = spec_opclass_to_two_level(class);
            let ne = next.enable as int;
            common_change_gates(
                cur,
                next,
                one_hot(l.0, l.1),
                maps,
                gm,
                gj,
                gi,
                gsp,
                gmoid,
                gfid,
                giid,
                gljeid,
            ) <==> (i + 1 < mops.len() || jops[i] == 0)
        }),
{
    let l = spec_opclass_to_two_level(class);
    let bits = one_hot(l.0, l.1);
    let ne = next.enable as int;
    assert(0 <= l.0 < 8 <= l.1 < 20);
    lemma_assigned_counts_change(mops, jops, public, class, i, maps, gm, gj, gi, k);
    lemma_selected_one_hot(l.0, l.1, maps, gsp);
    lemma_selected_one_hot(l.0, l.1, maps, gmoid);
    lemma_selected_one_hot(l.0, l.1, maps, gfid);
    lemma_selected_one_hot(l.0, l.1, maps, giid);
    lemma_selected_one_hot(l.0, l.1, maps, gljeid);
    assert(maps[k] == (l.0, l.1));
    let c = choose|j: int| 0 <= j < maps.len() && maps[j] == (l.0, l.1);
    assert(c == k) by {
        if c != k {
            if c < k {
                assert(maps[c] != maps[k]);
            } else {
                assert(maps[k] != maps[c]);
            }
        }
    }
    assert(fzero(0));
    assert(ne * (1 - 1) == 0);
    assert((next.moid - cur.moid - selected(bits, maps, gmoid)) * 1 == 0);
    assert((next.fid - cur.fid - selected(bits, maps, gfid)) * 1 == 0);
    assert((next.last_jump_eid - cur.last_jump_eid - selected(bits, maps, gljeid)) * 1 == 0);
    assert((cur.mmid - cur.moid) * 1 == 0);
    if i + 1 < mops.len() {
        assert(ne * 1 == 1);
        assert((next.eid - cur.eid - 1) * ne * 1 == 0);
        assert((next.sp - cur.sp - selected(bits, maps, gsp)) * (ne * 1) == 0);
        assert((next.iid - cur.iid - selected(bits, maps, giid)) * (ne * 1) == 0);
        assert((next.input_index - cur.input_index - selected(bits, maps, gi)) * (ne * 1) == (next.input_index
            - cur.input_index - selected(bits, maps, gi)) * 1);
    } else {
        assert(ne == 0);
        vstd::arithmetic::mul::lemma_mul_basics(next.eid - cur.eid - 1);
        vstd::arithmetic::mul::lemma_mul_basics(next.sp - cur.sp - selected(bits, maps, gsp));
        vstd::arithmetic::mul::lemma_mul_basics(next.iid - cur.iid - selected(bits, maps, giid));
        vstd::arithmetic::mul::lemma_mul_basics(next.input_index - cur.input_index - selected(bits, maps, gi));
        assert(ne * 1 == 0);
        assert((next.eid - cur.eid - 1) * ne == 0);
    }
}

} // verus!
