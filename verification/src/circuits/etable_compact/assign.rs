//! The common part of the event table's assignment: each step's block gets
//! its enable bit, its two opcode bits, the memory and jump operations still
//! to come, the index of the next public input, the state it starts from
//! and its instruction's encoding; the first block after the steps is left
//! disabled.

use vstd::prelude::*;
use crate::circuits::etable_compact::op_configure::{has_write, lemma_has_write_append, lemma_has_write_framed, one_write, row_at};
use crate::circuits::etable_compact::{
    opclass_to_two_level, spec_opclass_to_two_level, OpcodeClassPlain, AUX_ROT_ITABLE_LOOKUP, BIT_ROT_ENABLE, COL_AUX,
    COL_OPCODE_BITS,
    COL_SHARED_BITS_0, COL_STATE, ETABLE_STEP_SIZE, MAX_OP_LVL1, MAX_OP_LVL2, STATE_ROT_EID, STATE_ROT_FID,
    STATE_ROT_IID, STATE_ROT_INPUT_INDEX, STATE_ROT_LAST_JUMP_EID, STATE_ROT_REST_JOPS, STATE_ROT_REST_MOPS,
    STATE_ROT_SP,
};
use crate::circuits::etable_compact::op_configure::op_config::{
    op_assignable, op_config_wf, op_extra_mops, op_public_input, op_step_writes, OpConfig,
};
use crate::circuits::etable_compact::StepStatus;
use crate::circuits::step::StepInfo;
use crate::circuits::utils::{b2i, fv_bool, fv_u64, fzero, CellWrite, Context, FieldValue};

verus! {

/// A recorded step as the common part of the table reads it: its place in
/// the trace, the instruction's function and index, the stack pointer, the
/// step of the last jump, the opcode class, the memory and jump operations
/// that the instruction's opcode counts, and the instruction's encoding in
/// the instruction table.
#[derive(Clone, Copy, Debug, PartialEq, Eq, Structural)]
pub struct EventTableEntry {
    pub eid: u64,
    pub fid: u16,
    pub iid: u16,
    pub sp: u64,
    pub last_jump_eid: u64,
    pub opcode: OpcodeClassPlain,
    pub op_mops: u64,
    pub op_jops: u64,
    pub encoding: FieldValue,
}

/// The columns of the common part of a block.
#[derive(Clone, Copy, Debug, PartialEq, Eq, Structural)]
pub struct EventTableCommonConfig {
    pub shared_bits: usize,
    pub opcode_bits: usize,
    pub state: usize,
    pub aux: usize,
}

/// The sum of `ops` from index `i` on.
pub open spec fn suffix_sum(ops: Seq<u64>, i: int) -> int
    decreases ops.len() - i,
{
    if i >= ops.len() || i < 0 {
        0
    } else {
        ops[i] + suffix_sum(ops, i + 1)
    }
}

/// How many of the first `i` flags are set.
pub open spec fn prefix_count(flags: Seq<bool>, i: int) -> int
    decreases i,
{
    if i <= 0 {
        0
    } else {
        prefix_count(flags, i - 1) + b2i(flags[i - 1])
    }
}

/// The memory operations of each step: those its opcode counts and those
/// its gadget adds.
pub open spec fn step_mops(entries: Seq<EventTableEntry>, extra_mops: Seq<u64>) -> Seq<u64> {
    Seq::new(entries.len(), |i: int| (entries[i].op_mops + extra_mops[i]) as u64)
}

/// The jump operations of each step.
pub open spec fn step_jops(entries: Seq<EventTableEntry>) -> Seq<u64> {
    Seq::new(entries.len(), |i: int| entries[i].op_jops)
}

/// The sums from each index on: what is still to come at each step.
pub open spec fn rest_seq(ops: Seq<u64>) -> Seq<u64> {
    Seq::new(ops.len(), |i: int| suffix_sum(ops, i) as u64)
}

/// The sums of a sequence from each index on fit in 64 bits where the
/// whole sum does.
pub proof fn lemma_suffix_sum_bounds(ops: Seq<u64>, i: int)
    requires
        0 <= i,
    ensures
        0 <= suffix_sum(ops, i) <= suffix_sum(ops, 0),
    decreases i,
{
    lemma_suffix_sum_nonneg(ops, i);
    if i > 0 {
        lemma_suffix_sum_bounds(ops, i - 1);
        if i - 1 < ops.len() {
            assert(suffix_sum(ops, i - 1) == ops[i - 1] + suffix_sum(ops, i));
        }
    }
}

/// A sum of naturals from any index on is not negative.
pub proof fn lemma_suffix_sum_nonneg(ops: Seq<u64>, i: int)
    ensures
        suffix_sum(ops, i) >= 0,
    decreases ops.len() - i,
{
    if i < ops.len() && i >= 0 {
        lemma_suffix_sum_nonneg(ops, i + 1);
    }
}

/// Computes, for each step, the operations still to come from it on: the
/// sum of `ops` from its index on.
pub fn rest_ops(ops: &Vec<u64>) -> (rest: Vec<u64>)
    requires
        suffix_sum(ops@, 0) <= u64::MAX,
    ensures
        rest@ == rest_seq(ops@),
{
    let mut total: u64 = 0;
    let mut i: usize = ops.len();
    while i > 0
        invariant
            i <= ops.len(),
            total == suffix_sum(ops@, i as int),
            suffix_sum(ops@, 0) <= u64::MAX,
        decreases i,
    {
        proof {
            lemma_suffix_sum_bounds(ops@, i - 1);
        }
        total = total + ops[i - 1];
        i = i - 1;
    }
    let mut rest: Vec<u64> = Vec::new();
    let mut j: usize = 0;
    while j < ops.len()
        invariant
            j <= ops.len(),
            total == suffix_sum(ops@, j as int),
            suffix_sum(ops@, 0) <= u64::MAX,
            rest@ == rest_seq(ops@).take(j as int),
        decreases ops.len() - j,
    {
        proof {
            lemma_suffix_sum_bounds(ops@, j as int);
            lemma_suffix_sum_nonneg(ops@, j as int + 1);
        }
        rest.push(total);
        total = total - ops[j];
        j = j + 1;
        proof {
            assert(rest@ =~= rest_seq(ops@).take(j as int));
        }
    }
    proof {
        assert(rest@ =~= rest_seq(ops@));
    }
    rest
}

/// The index of the next public input at each step: the public inputs
/// that the steps before it read.
pub open spec fn input_indices(public: Seq<bool>) -> Seq<u64> {
    Seq::new(public.len(), |i: int| prefix_count(public, i) as u64)
}

/// The writes of the first `k` steps' gadgets and of the input index of
/// the blocks from the second to the `k`-th, the block of step `i` starting
/// at row `base + 20 i`: each step's gadget writes `gws[i]`, then its
/// block's input index.
pub open spec fn step_loop_writes(
    c: EventTableCommonConfig,
    base: int,
    gws: Seq<Seq<CellWrite>>,
    idx: Seq<u64>,
    k: nat,
) -> Seq<CellWrite>
    decreases k,
{
    if k == 0 {
        Seq::empty()
    } else {
        step_loop_writes(c, base, gws, idx, (k - 1) as nat) + gws[k - 1] + if k == 1 {
            Seq::empty()
        } else {
            one_write(c.state, base + ETABLE_STEP_SIZE * (k - 1), STATE_ROT_INPUT_INDEX as int, fv_u64(idx[k - 1]))
        }
    }
}

/// The gadget of `class` among the registered gadgets `cfgs`.
pub open spec fn config_of(cfgs: Seq<(OpcodeClassPlain, OpConfig)>, class: OpcodeClassPlain) -> OpConfig {
    cfgs[choose|j: int| 0 <= j < cfgs.len() && cfgs[j].0 == class].1
}

/// Each class has at most one gadget among `cfgs`.
pub open spec fn configs_distinct(cfgs: Seq<(OpcodeClassPlain, OpConfig)>) -> bool {
    forall|j: int, k: int| 0 <= j < cfgs.len() && 0 <= k < cfgs.len() && #[trigger] cfgs[j].0 == #[trigger] cfgs[k].0 ==> j == k
}

/// The gadget of each step's class.
pub open spec fn step_configs(cfgs: Seq<(OpcodeClassPlain, OpConfig)>, entries: Seq<EventTableEntry>) -> Seq<OpConfig> {
    Seq::new(entries.len(), |i: int| config_of(cfgs, entries[i].opcode))
}

/// The memory operations that each step's gadget adds.
pub open spec fn step_extra_mops(gadgets: Seq<OpConfig>, steps: Seq<StepInfo>) -> Seq<u64> {
    Seq::new(gadgets.len(), |i: int| op_extra_mops(gadgets[i], steps[i]) as u64)
}

/// Whether each step reads a public input, as its gadget says.
pub open spec fn step_public(gadgets: Seq<OpConfig>, steps: Seq<StepInfo>) -> Seq<bool> {
    Seq::new(gadgets.len(), |i: int| op_public_input(gadgets[i], steps[i]))
}

/// The steps that the table can assign: each step's class has a gadget in
/// `cfgs`, which assigns the step with its lookup encodings.
pub open spec fn steps_assignable(
    cfgs: Seq<(OpcodeClassPlain, OpConfig)>,
    entries: Seq<EventTableEntry>,
    steps: Seq<StepInfo>,
    encodings: Seq<Vec<FieldValue>>,
) -> bool {
    &&& configs_distinct(cfgs)
    &&& forall|j: int| 0 <= j < cfgs.len() ==> op_config_wf(#[trigger] cfgs[j].1)
    &&& forall|i: int|
        0 <= i < entries.len() ==> exists|j: int| 0 <= j < cfgs.len() && #[trigger] cfgs[j].0 == (#[trigger] entries[i]).opcode
    &&& forall|i: int|
        0 <= i < entries.len() ==> op_assignable(
            config_of(cfgs, (#[trigger] entries[i]).opcode),
            steps[i],
            encodings[i]@,
        )
}

/// What each step's gadget wrote: `gws[i]`, as the gadget of the step's
/// class writes it in the block at row `base + 20 i`.
pub open spec fn gadget_writes_ok(
    gadgets: Seq<OpConfig>,
    base: int,
    statuses: Seq<StepStatus>,
    steps: Seq<StepInfo>,
    encodings: Seq<Vec<FieldValue>>,
    gws: Seq<Seq<CellWrite>>,
) -> bool {
    &&& gws.len() == gadgets.len()
    &&& forall|i: int|
        0 <= i < gadgets.len() ==> op_step_writes(
            gadgets[i],
            base + ETABLE_STEP_SIZE * i,
            statuses[i],
            steps[i],
            encodings[i]@,
            #[trigger] gws[i],
        )
}

/// The writes of the common part of the block of step `e` at row `o`: the
/// enable bit, the two opcode bits, the operations still to come, the
/// state the step starts from, and the instruction's encoding in the
/// instruction table lookup cell.
pub open spec fn block_state_writes(c: EventTableCommonConfig, e: EventTableEntry, o: int, rest_m: u64, rest_j: u64) -> Seq<
    CellWrite,
> {
    let lv = spec_opclass_to_two_level(e.opcode.0 as int);
    one_write(c.shared_bits, o, BIT_ROT_ENABLE as int, fv_u64(1)) + one_write(c.opcode_bits, o, lv.0, fv_u64(1))
        + one_write(c.opcode_bits, o, lv.1, fv_u64(1)) + one_write(
        c.state,
        o,
        STATE_ROT_REST_MOPS as int,
        fv_u64(rest_m),
    ) + one_write(c.state, o, STATE_ROT_REST_JOPS as int, fv_u64(rest_j)) + one_write(
        c.state,
        o,
        STATE_ROT_EID as int,
        fv_u64(e.eid),
    ) + one_write(c.state, o, STATE_ROT_FID as int, fv_u64(e.fid as u64)) + one_write(
        c.state,
        o,
        STATE_ROT_IID as int,
        fv_u64(e.iid as u64),
    ) + one_write(c.state, o, STATE_ROT_SP as int, fv_u64(e.sp)) + one_write(
        c.state,
        o,
        STATE_ROT_LAST_JUMP_EID as int,
        fv_u64(e.last_jump_eid),
    ) + one_write(c.aux, o, AUX_ROT_ITABLE_LOOKUP as int, e.encoding)
}

/// What the common part writes for the block of step `e` at row `o`, cell
/// by cell: the enable bit set, the operations still to come, the step's
/// place in the trace, function, instruction, stack pointer and last jump
/// to their state cells, and the instruction's encoding to the instruction
/// table lookup cell.
proof fn lemma_block_state_cells(c: EventTableCommonConfig, e: EventTableEntry, o: int, rest_m: u64, rest_j: u64)
    ensures
        has_write(block_state_writes(c, e, o, rest_m, rest_j), c.shared_bits, o + BIT_ROT_ENABLE, fv_u64(1)),
        has_write(block_state_writes(c, e, o, rest_m, rest_j), c.state, o + STATE_ROT_REST_MOPS, fv_u64(rest_m)),
        has_write(block_state_writes(c, e, o, rest_m, rest_j), c.state, o + STATE_ROT_REST_JOPS, fv_u64(rest_j)),
        has_write(block_state_writes(c, e, o, rest_m, rest_j), c.state, o + STATE_ROT_EID, fv_u64(e.eid)),
        has_write(block_state_writes(c, e, o, rest_m, rest_j), c.state, o + STATE_ROT_FID, fv_u64(e.fid as u64)),
        has_write(block_state_writes(c, e, o, rest_m, rest_j), c.state, o + STATE_ROT_IID, fv_u64(e.iid as u64)),
        has_write(block_state_writes(c, e, o, rest_m, rest_j), c.state, o + STATE_ROT_SP, fv_u64(e.sp)),
        has_write(block_state_writes(c, e, o, rest_m, rest_j), c.state, o + STATE_ROT_LAST_JUMP_EID, fv_u64(e.last_jump_eid)),
        has_write(block_state_writes(c, e, o, rest_m, rest_j), c.aux, o + AUX_ROT_ITABLE_LOOKUP, e.encoding),
        has_write(
            block_state_writes(c, e, o, rest_m, rest_j),
            c.opcode_bits,
            o + spec_opclass_to_two_level(e.opcode.0 as int).0,
            fv_u64(1),
        ),
        has_write(
            block_state_writes(c, e, o, rest_m, rest_j),
            c.opcode_bits,
            o + spec_opclass_to_two_level(e.opcode.0 as int).1,
            fv_u64(1),
        ),
{
    let lv = spec_opclass_to_two_level(e.opcode.0 as int);
    let bw = block_state_writes(c, e, o, rest_m, rest_j);
    let w = |col: usize, rot: int, v: FieldValue| CellWrite { col, row: row_at(o, rot), value: v };
    assert(bw =~= seq![
        w(c.shared_bits, BIT_ROT_ENABLE as int, fv_u64(1)),
        w(c.opcode_bits, lv.0, fv_u64(1)),
        w(c.opcode_bits, lv.1, fv_u64(1)),
        w(c.state, STATE_ROT_REST_MOPS as int, fv_u64(rest_m)),
        w(c.state, STATE_ROT_REST_JOPS as int, fv_u64(rest_j)),
        w(c.state, STATE_ROT_EID as int, fv_u64(e.eid)),
        w(c.state, STATE_ROT_FID as int, fv_u64(e.fid as u64)),
        w(c.state, STATE_ROT_IID as int, fv_u64(e.iid as u64)),
        w(c.state, STATE_ROT_SP as int, fv_u64(e.sp)),
        w(c.state, STATE_ROT_LAST_JUMP_EID as int, fv_u64(e.last_jump_eid)),
        w(c.aux, AUX_ROT_ITABLE_LOOKUP as int, e.encoding),
    ]);
    assert(bw[0] == w(c.shared_bits, BIT_ROT_ENABLE as int, fv_u64(1)));
    assert(bw[3] == w(c.state, STATE_ROT_REST_MOPS as int, fv_u64(rest_m)));
    assert(bw[4] == w(c.state, STATE_ROT_REST_JOPS as int, fv_u64(rest_j)));
    assert(bw[5] == w(c.state, STATE_ROT_EID as int, fv_u64(e.eid)));
    assert(bw[6] == w(c.state, STATE_ROT_FID as int, fv_u64(e.fid as u64)));
    assert(bw[7] == w(c.state, STATE_ROT_IID as int, fv_u64(e.iid as u64)));
    assert(bw[8] == w(c.state, STATE_ROT_SP as int, fv_u64(e.sp)));
    assert(bw[9] == w(c.state, STATE_ROT_LAST_JUMP_EID as int, fv_u64(e.last_jump_eid)));
    assert(bw[10] == w(c.aux, AUX_ROT_ITABLE_LOOKUP as int, e.encoding));
    assert(bw[1] == w(c.opcode_bits, lv.0, fv_u64(1)));
    assert(bw[2] == w(c.opcode_bits, lv.1, fv_u64(1)));
}

/// The writes of the common parts of the first `k` blocks, from row zero.
pub open spec fn state_writes(
    c: EventTableCommonConfig,
    entries: Seq<EventTableEntry>,
    rest_m: Seq<u64>,
    rest_j: Seq<u64>,
    k: nat,
) -> Seq<CellWrite>
    decreases k,
{
    if k == 0 {
        Seq::empty()
    } else {
        state_writes(c, entries, rest_m, rest_j, (k - 1) as nat) + block_state_writes(
            c,
            entries[k - 1],
            ETABLE_STEP_SIZE * (k - 1),
            rest_m[k - 1],
            rest_j[k - 1],
        )
    }
}

/// The writes of the common assignment of `entries`, whose steps read the
/// public inputs `public`, whose gadgets add `extra_mops` memory operations
/// and write `gws`, in a region whose steps start at row `base`: the first
/// block's operations still to come and input index, zero until the steps
/// are filled in; each step's gadget, then the input index of its block
/// from the second on; the common part of
/// each block from row zero; and the enable bit of the block after the
/// last step, cleared.
pub open spec fn common_writes(
    c: EventTableCommonConfig,
    entries: Seq<EventTableEntry>,
    extra_mops: Seq<u64>,
    public: Seq<bool>,
    base: int,
    gws: Seq<Seq<CellWrite>>,
) -> Seq<CellWrite> {
    let n = entries.len();
    one_write(c.state, 0, STATE_ROT_REST_MOPS as int, fv_u64(0)) + one_write(
        c.state,
        0,
        STATE_ROT_REST_JOPS as int,
        fv_u64(0),
    ) + one_write(c.state, base, STATE_ROT_INPUT_INDEX as int, fv_u64(0)) + step_loop_writes(
        c,
        base,
        gws,
        input_indices(public),
        n,
    ) + state_writes(c, entries, rest_seq(step_mops(entries, extra_mops)), rest_seq(step_jops(entries)), n)
        + one_write(c.shared_bits, ETABLE_STEP_SIZE * n, BIT_ROT_ENABLE as int, fv_u64(0))
}

/// The writes of the first `k` steps read only the first `k` gadgets'
/// writes.
proof fn lemma_step_loop_writes_prefix(
    c: EventTableCommonConfig,
    base: int,
    gws: Seq<Seq<CellWrite>>,
    idx: Seq<u64>,
    k: nat,
)
    requires
        k <= gws.len(),
    ensures
        step_loop_writes(c, base, gws.take(k as int), idx, k) == step_loop_writes(c, base, gws, idx, k),
    decreases k,
{
    if k > 0 {
        lemma_step_loop_writes_prefix(c, base, gws.take(k as int), idx, (k - 1) as nat);
        lemma_step_loop_writes_prefix(c, base, gws, idx, (k - 1) as nat);
        assert(gws.take(k as int).take(k - 1) =~= gws.take(k - 1));
        assert(gws.take(k as int)[k - 1] == gws[k - 1]);
    }
}

/// The common parts of the first `k` blocks hold, in the block of each
/// step `i` below `k`, its enable bit set, its state and its instruction's
/// encoding.
proof fn lemma_state_writes_cells(
    c: EventTableCommonConfig,
    entries: Seq<EventTableEntry>,
    rest_m: Seq<u64>,
    rest_j: Seq<u64>,
    k: nat,
    i: int,
)
    requires
        0 <= i < k,
    ensures
        has_write(state_writes(c, entries, rest_m, rest_j, k), c.shared_bits, ETABLE_STEP_SIZE * i + BIT_ROT_ENABLE, fv_u64(1)),
        has_write(state_writes(c, entries, rest_m, rest_j, k), c.state, ETABLE_STEP_SIZE * i + STATE_ROT_EID, fv_u64(entries[i].eid)),
        has_write(state_writes(c, entries, rest_m, rest_j, k), c.state, ETABLE_STEP_SIZE * i + STATE_ROT_FID, fv_u64(entries[i].fid as u64)),
        has_write(state_writes(c, entries, rest_m, rest_j, k), c.state, ETABLE_STEP_SIZE * i + STATE_ROT_IID, fv_u64(entries[i].iid as u64)),
        has_write(state_writes(c, entries, rest_m, rest_j, k), c.state, ETABLE_STEP_SIZE * i + STATE_ROT_SP, fv_u64(entries[i].sp)),
        has_write(state_writes(c, entries, rest_m, rest_j, k), c.state, ETABLE_STEP_SIZE * i + STATE_ROT_LAST_JUMP_EID, fv_u64(entries[i].last_jump_eid)),
        has_write(state_writes(c, entries, rest_m, rest_j, k), c.aux, ETABLE_STEP_SIZE * i + AUX_ROT_ITABLE_LOOKUP, entries[i].encoding),
    decreases k,
{
    let prev = state_writes(c, entries, rest_m, rest_j, (k - 1) as nat);
    let cur = block_state_writes(c, entries[k - 1], ETABLE_STEP_SIZE * (k - 1), rest_m[k - 1], rest_j[k - 1]);
    if i < k - 1 {
        lemma_state_writes_cells(c, entries, rest_m, rest_j, (k - 1) as nat, i);
    } else {
        lemma_block_state_cells(c, entries[k - 1], ETABLE_STEP_SIZE * (k - 1), rest_m[k - 1], rest_j[k - 1]);
    }
        lemma_has_write_append(prev, cur, c.shared_bits, ETABLE_STEP_SIZE * i + BIT_ROT_ENABLE, fv_u64(1));
        lemma_has_write_append(prev, cur, c.state, ETABLE_STEP_SIZE * i + STATE_ROT_EID, fv_u64(entries[i].eid));
        lemma_has_write_append(prev, cur, c.state, ETABLE_STEP_SIZE * i + STATE_ROT_FID, fv_u64(entries[i].fid as u64));
        lemma_has_write_append(prev, cur, c.state, ETABLE_STEP_SIZE * i + STATE_ROT_IID, fv_u64(entries[i].iid as u64));
        lemma_has_write_append(prev, cur, c.state, ETABLE_STEP_SIZE * i + STATE_ROT_SP, fv_u64(entries[i].sp));
        lemma_has_write_append(prev, cur, c.state, ETABLE_STEP_SIZE * i + STATE_ROT_LAST_JUMP_EID, fv_u64(entries[i].last_jump_eid));
        lemma_has_write_append(prev, cur, c.aux, ETABLE_STEP_SIZE * i + AUX_ROT_ITABLE_LOOKUP, entries[i].encoding);
}

/// The common assignment writes, in the block of each step, its enable bit
/// set, the step's place in the trace, function, instruction, stack pointer
/// and last jump each to the state cell of that name, and its instruction's
/// encoding to the instruction table lookup cell; and it clears the enable
/// bit of the block after the last step.
pub proof fn lemma_common_writes_cells(
    c: EventTableCommonConfig,
    entries: Seq<EventTableEntry>,
    extra_mops: Seq<u64>,
    public: Seq<bool>,
    base: int,
    gws: Seq<Seq<CellWrite>>,
    i: int,
)
    requires
        0 <= i < entries.len(),
    ensures
        has_write(common_writes(c, entries, extra_mops, public, base, gws), c.shared_bits, ETABLE_STEP_SIZE * i + BIT_ROT_ENABLE, fv_u64(1)),
        has_write(common_writes(c, entries, extra_mops, public, base, gws), c.state, ETABLE_STEP_SIZE * i + STATE_ROT_EID, fv_u64(entries[i].eid)),
        has_write(common_writes(c, entries, extra_mops, public, base, gws), c.state, ETABLE_STEP_SIZE * i + STATE_ROT_FID, fv_u64(entries[i].fid as u64)),
        has_write(common_writes(c, entries, extra_mops, public, base, gws), c.state, ETABLE_STEP_SIZE * i + STATE_ROT_IID, fv_u64(entries[i].iid as u64)),
        has_write(common_writes(c, entries, extra_mops, public, base, gws), c.state, ETABLE_STEP_SIZE * i + STATE_ROT_SP, fv_u64(entries[i].sp)),
        has_write(common_writes(c, entries, extra_mops, public, base, gws), c.state, ETABLE_STEP_SIZE * i + STATE_ROT_LAST_JUMP_EID, fv_u64(entries[i].last_jump_eid)),
        has_write(common_writes(c, entries, extra_mops, public, base, gws), c.aux, ETABLE_STEP_SIZE * i + AUX_ROT_ITABLE_LOOKUP, entries[i].encoding),
{
    let n = entries.len();
    let rm = rest_seq(step_mops(entries, extra_mops));
    let rj = rest_seq(step_jops(entries));
    let pre = one_write(c.state, 0, STATE_ROT_REST_MOPS as int, fv_u64(0)) + one_write(
        c.state,
        0,
        STATE_ROT_REST_JOPS as int,
        fv_u64(0),
    ) + one_write(c.state, base, STATE_ROT_INPUT_INDEX as int, fv_u64(0)) + step_loop_writes(
        c,
        base,
        gws,
        input_indices(public),
        n,
    );
    let sw = state_writes(c, entries, rm, rj, n);
    let last = one_write(c.shared_bits, ETABLE_STEP_SIZE * n, BIT_ROT_ENABLE as int, fv_u64(0));
    assert(common_writes(c, entries, extra_mops, public, base, gws) == pre + sw + last);
    lemma_state_writes_cells(c, entries, rm, rj, n, i);
    lemma_has_write_framed(pre, sw, last, c.shared_bits, ETABLE_STEP_SIZE * i + BIT_ROT_ENABLE, fv_u64(1));
    lemma_has_write_framed(pre, sw, last, c.state, ETABLE_STEP_SIZE * i + STATE_ROT_EID, fv_u64(entries[i].eid));
    lemma_has_write_framed(pre, sw, last, c.state, ETABLE_STEP_SIZE * i + STATE_ROT_FID, fv_u64(entries[i].fid as u64));
    lemma_has_write_framed(pre, sw, last, c.state, ETABLE_STEP_SIZE * i + STATE_ROT_IID, fv_u64(entries[i].iid as u64));
    lemma_has_write_framed(pre, sw, last, c.state, ETABLE_STEP_SIZE * i + STATE_ROT_SP, fv_u64(entries[i].sp));
    lemma_has_write_framed(pre, sw, last, c.state, ETABLE_STEP_SIZE * i + STATE_ROT_LAST_JUMP_EID, fv_u64(entries[i].last_jump_eid));
    lemma_has_write_framed(pre, sw, last, c.aux, ETABLE_STEP_SIZE * i + AUX_ROT_ITABLE_LOOKUP, entries[i].encoding);
}

/// The common parts of the first `k` blocks hold, in the block of each
/// step `i` below `k`, the operations still to come from it and its two
/// opcode bits set.
proof fn lemma_state_writes_counts(
    c: EventTableCommonConfig,
    entries: Seq<EventTableEntry>,
    rest_m: Seq<u64>,
    rest_j: Seq<u64>,
    k: nat,
    i: int,
)
    requires
        0 <= i < k,
    ensures
        has_write(state_writes(c, entries, rest_m, rest_j, k), c.state, ETABLE_STEP_SIZE * i + STATE_ROT_REST_MOPS, fv_u64(rest_m[i])),
        has_write(state_writes(c, entries, rest_m, rest_j, k), c.state, ETABLE_STEP_SIZE * i + STATE_ROT_REST_JOPS, fv_u64(rest_j[i])),
        has_write(state_writes(c, entries, rest_m, rest_j, k), c.opcode_bits, ETABLE_STEP_SIZE * i + spec_opclass_to_two_level(entries[i].opcode.0 as int).0, fv_u64(1)),
        has_write(state_writes(c, entries, rest_m, rest_j, k), c.opcode_bits, ETABLE_STEP_SIZE * i + spec_opclass_to_two_level(entries[i].opcode.0 as int).1, fv_u64(1)),
    decreases k,
{
    let prev = state_writes(c, entries, rest_m, rest_j, (k - 1) as nat);
    let cur = block_state_writes(c, entries[k - 1], ETABLE_STEP_SIZE * (k - 1), rest_m[k - 1], rest_j[k - 1]);
    if i < k - 1 {
        lemma_state_writes_counts(c, entries, rest_m, rest_j, (k - 1) as nat, i);
    } else {
        lemma_block_state_cells(c, entries[k - 1], ETABLE_STEP_SIZE * (k - 1), rest_m[k - 1], rest_j[k - 1]);
    }
    lemma_has_write_append(prev, cur, c.state, ETABLE_STEP_SIZE * i + STATE_ROT_REST_MOPS, fv_u64(rest_m[i]));
    lemma_has_write_append(prev, cur, c.state, ETABLE_STEP_SIZE * i + STATE_ROT_REST_JOPS, fv_u64(rest_j[i]));
    lemma_has_write_append(prev, cur, c.opcode_bits, ETABLE_STEP_SIZE * i + spec_opclass_to_two_level(entries[i].opcode.0 as int).0, fv_u64(1));
    lemma_has_write_append(prev, cur, c.opcode_bits, ETABLE_STEP_SIZE * i + spec_opclass_to_two_level(entries[i].opcode.0 as int).1, fv_u64(1));
}

/// The common assignment writes, in the block of each step, the memory
/// operations still to come from it (its own and those of the steps after
/// it), the jump operations still to come, and its two opcode bits set.
pub proof fn lemma_common_writes_counts(
    c: EventTableCommonConfig,
    entries: Seq<EventTableEntry>,
    extra_mops: Seq<u64>,
    public: Seq<bool>,
    base: int,
    gws: Seq<Seq<CellWrite>>,
    i: int,
)
    requires
        0 <= i < entries.len(),
    ensures
        has_write(common_writes(c, entries, extra_mops, public, base, gws), c.state, ETABLE_STEP_SIZE * i + STATE_ROT_REST_MOPS, fv_u64(suffix_sum(step_mops(entries, extra_mops), i) as u64)),
        has_write(common_writes(c, entries, extra_mops, public, base, gws), c.state, ETABLE_STEP_SIZE * i + STATE_ROT_REST_JOPS, fv_u64(suffix_sum(step_jops(entries), i) as u64)),
        has_write(common_writes(c, entries, extra_mops, public, base, gws), c.opcode_bits, ETABLE_STEP_SIZE * i + spec_opclass_to_two_level(entries[i].opcode.0 as int).0, fv_u64(1)),
        has_write(common_writes(c, entries, extra_mops, public, base, gws), c.opcode_bits, ETABLE_STEP_SIZE * i + spec_opclass_to_two_level(entries[i].opcode.0 as int).1, fv_u64(1)),
{
    let n = entries.len();
    let rm = rest_seq(step_mops(entries, extra_mops));
    let rj = rest_seq(step_jops(entries));
    let pre = one_write(c.state, 0, STATE_ROT_REST_MOPS as int, fv_u64(0)) + one_write(
        c.state,
        0,
        STATE_ROT_REST_JOPS as int,
        fv_u64(0),
    ) + one_write(c.state, base, STATE_ROT_INPUT_INDEX as int, fv_u64(0)) + step_loop_writes(
        c,
        base,
        gws,
        input_indices(public),
        n,
    );
    let sw = state_writes(c, entries, rm, rj, n);
    let last = one_write(c.shared_bits, ETABLE_STEP_SIZE * n, BIT_ROT_ENABLE as int, fv_u64(0));
    assert(common_writes(c, entries, extra_mops, public, base, gws) == pre + sw + last);
    lemma_state_writes_counts(c, entries, rm, rj, n, i);
    assert(rm[i] == suffix_sum(step_mops(entries, extra_mops), i) as u64);
    assert(rj[i] == suffix_sum(step_jops(entries), i) as u64);
    lemma_has_write_framed(pre, sw, last, c.state, ETABLE_STEP_SIZE * i + STATE_ROT_REST_MOPS, fv_u64(suffix_sum(step_mops(entries, extra_mops), i) as u64));
    lemma_has_write_framed(pre, sw, last, c.state, ETABLE_STEP_SIZE * i + STATE_ROT_REST_JOPS, fv_u64(suffix_sum(step_jops(entries), i) as u64));
    lemma_has_write_framed(pre, sw, last, c.opcode_bits, ETABLE_STEP_SIZE * i + spec_opclass_to_two_level(entries[i].opcode.0 as int).0, fv_u64(1));
    lemma_has_write_framed(pre, sw, last, c.opcode_bits, ETABLE_STEP_SIZE * i + spec_opclass_to_two_level(entries[i].opcode.0 as int).1, fv_u64(1));
}

/// The loop over the first `k` steps writes, in the block of each step
/// from the second on, its input index.
proof fn lemma_step_loop_writes_index(
    c: EventTableCommonConfig,
    base: int,
    gws: Seq<Seq<CellWrite>>,
    idx: Seq<u64>,
    k: nat,
    i: int,
)
    requires
        1 <= i < k,
    ensures
        has_write(step_loop_writes(c, base, gws, idx, k), c.state, base + ETABLE_STEP_SIZE * i + STATE_ROT_INPUT_INDEX, fv_u64(idx[i])),
    decreases k,
{
    let prev = step_loop_writes(c, base, gws, idx, (k - 1) as nat);
    let g = gws[k - 1];
    let cur = one_write(c.state, base + ETABLE_STEP_SIZE * (k - 1), STATE_ROT_INPUT_INDEX as int, fv_u64(idx[k - 1]));
    let row = base + ETABLE_STEP_SIZE * i + STATE_ROT_INPUT_INDEX;
    assert(step_loop_writes(c, base, gws, idx, k) == prev + g + cur);
    if i < k - 1 {
        lemma_step_loop_writes_index(c, base, gws, idx, (k - 1) as nat, i);
        lemma_has_write_framed(prev, g, cur, c.state, row, fv_u64(idx[i]));
        lemma_has_write_append(prev, g, c.state, row, fv_u64(idx[i]));
        lemma_has_write_append(prev + g, cur, c.state, row, fv_u64(idx[i]));
    } else {
        crate::circuits::etable_compact::op_configure::lemma_has_write_one(
            c.state,
            base + ETABLE_STEP_SIZE * (k - 1),
            STATE_ROT_INPUT_INDEX as int,
            fv_u64(idx[k - 1]),
        );
        lemma_has_write_append(prev + g, cur, c.state, row, fv_u64(idx[i]));
    }
}

/// The common assignment writes, in the block of each step, the index of
/// the next public input: the number of steps before it that read one.
pub proof fn lemma_common_writes_input_index(
    c: EventTableCommonConfig,
    entries: Seq<EventTableEntry>,
    extra_mops: Seq<u64>,
    public: Seq<bool>,
    base: int,
    gws: Seq<Seq<CellWrite>>,
    i: int,
)
    requires
        0 <= i < entries.len(),
        public.len() == entries.len(),
    ensures
        has_write(
            common_writes(c, entries, extra_mops, public, base, gws),
            c.state,
            base + ETABLE_STEP_SIZE * i + STATE_ROT_INPUT_INDEX,
            fv_u64(prefix_count(public, i) as u64),
        ),
{
    let n = entries.len();
    let a0 = one_write(c.state, 0, STATE_ROT_REST_MOPS as int, fv_u64(0)) + one_write(
        c.state,
        0,
        STATE_ROT_REST_JOPS as int,
        fv_u64(0),
    );
    let a1 = one_write(c.state, base, STATE_ROT_INPUT_INDEX as int, fv_u64(0));
    let lw = step_loop_writes(c, base, gws, input_indices(public), n);
    let rest = state_writes(c, entries, rest_seq(step_mops(entries, extra_mops)), rest_seq(step_jops(entries)), n)
        + one_write(c.shared_bits, ETABLE_STEP_SIZE * n, BIT_ROT_ENABLE as int, fv_u64(0));
    let row = base + ETABLE_STEP_SIZE * i + STATE_ROT_INPUT_INDEX;
    let v = fv_u64(prefix_count(public, i) as u64);
    assert(common_writes(c, entries, extra_mops, public, base, gws) =~= a0 + a1 + lw + rest);
    if i == 0 {
        assert(prefix_count(public, 0) == 0);
        crate::circuits::etable_compact::op_configure::lemma_has_write_one(c.state, base, STATE_ROT_INPUT_INDEX as int, fv_u64(0));
        lemma_has_write_framed(a0, a1, lw, c.state, row, v);
    } else {
        lemma_step_loop_writes_index(c, base, gws, input_indices(public), n, i);
        assert(input_indices(public)[i] == prefix_count(public, i) as u64);
        lemma_has_write_append(a0 + a1, lw, c.state, row, v);
    }
    lemma_has_write_append(a0 + a1 + lw, rest, c.state, row, v);
}

/// The common assignment clears the enable bit of the block after the last
/// step.
pub proof fn lemma_common_writes_disable_last(
    c: EventTableCommonConfig,
    entries: Seq<EventTableEntry>,
    extra_mops: Seq<u64>,
    public: Seq<bool>,
    base: int,
    gws: Seq<Seq<CellWrite>>,
)
    ensures
        has_write(
            common_writes(c, entries, extra_mops, public, base, gws),
            c.shared_bits,
            ETABLE_STEP_SIZE * entries.len() + BIT_ROT_ENABLE,
            fv_u64(0),
        ),
{
    let n = entries.len();
    let last = one_write(c.shared_bits, ETABLE_STEP_SIZE * n, BIT_ROT_ENABLE as int, fv_u64(0));
    let cw = common_writes(c, entries, extra_mops, public, base, gws);
    let pre = cw.subrange(0, cw.len() - 1);
    assert(cw =~= pre + last);
    crate::circuits::etable_compact::op_configure::lemma_has_write_one(
        c.shared_bits,
        ETABLE_STEP_SIZE * n,
        BIT_ROT_ENABLE as int,
        fv_u64(0),
    );
    lemma_has_write_append(pre, last, c.shared_bits, ETABLE_STEP_SIZE * n + BIT_ROT_ENABLE, fv_u64(0));
}

impl EventTableCommonConfig {
    /// The columns of the common part in the table's layout.
    pub fn new() -> (r: EventTableCommonConfig)
        ensures
            r == (EventTableCommonConfig {
                shared_bits: COL_SHARED_BITS_0,
                opcode_bits: COL_OPCODE_BITS,
                state: COL_STATE,
                aux: COL_AUX,
            }),
    {
        EventTableCommonConfig { shared_bits: COL_SHARED_BITS_0, opcode_bits: COL_OPCODE_BITS, state: COL_STATE, aux: COL_AUX }
    }

    /// Assigns the blocks of the steps `entries`, recorded as `steps` and
    /// starting from `statuses`, in a table of `max_rows` rows that has room
    /// for them and for one disabled block after them: each step goes to the
    /// gadget of its class among `op_configs`, with the encodings of its
    /// memory table lookups; then the common part of each block is filled
    /// in. Gives the memory and jump operations that the first block has
    /// still to come.
    #[verifier::rlimit(100)]
    pub fn assign(
        &self,
        ctx: &mut Context,
        op_configs: &Vec<(OpcodeClassPlain, OpConfig)>,
        entries: &Vec<EventTableEntry>,
        steps: &Vec<StepInfo>,
        statuses: &Vec<StepStatus>,
        encodings: &Vec<Vec<FieldValue>>,
        max_rows: usize,
    ) -> (r: (u64, u64))
        requires
            ETABLE_STEP_SIZE * (entries.len() + 1) <= max_rows,
            steps.len() == entries.len(),
            statuses.len() == entries.len(),
            encodings.len() == entries.len(),
            steps_assignable(op_configs@, entries@, steps@, encodings@),
            old(ctx).offset + ETABLE_STEP_SIZE * (entries.len() + 1) < i32::MAX,
            forall|i: int| 0 <= i < entries.len() ==> (#[trigger] entries@[i]).opcode.0 <= 96,
            forall|i: int|
                0 <= i < entries.len() ==> #[trigger] entries@[i].op_mops + step_extra_mops(
                    step_configs(op_configs@, entries@),
                    steps@,
                )[i] <= u64::MAX,
            suffix_sum(step_mops(entries@, step_extra_mops(step_configs(op_configs@, entries@), steps@)), 0)
                <= u64::MAX,
            suffix_sum(step_jops(entries@), 0) <= u64::MAX,
        ensures
            final(ctx).offset == ETABLE_STEP_SIZE * entries.len(),
            ({
                let gadgets = step_configs(op_configs@, entries@);
                exists|gws: Seq<Seq<CellWrite>>|
                    {
                        &&& gadget_writes_ok(gadgets, old(ctx).offset as int, statuses@, steps@, encodings@, gws)
                        &&& final(ctx).writes@ == old(ctx).writes@ + common_writes(
                            *self,
                            entries@,
                            step_extra_mops(gadgets, steps@),
                            step_public(gadgets, steps@),
                            old(ctx).offset as int,
                            gws,
                        )
                    }
            }),
            r.0 == suffix_sum(step_mops(entries@, step_extra_mops(step_configs(op_configs@, entries@), steps@)), 0),
            r.1 == suffix_sum(step_jops(entries@), 0),
            forall|i: int|
                #![trigger entries@[i]]
                0 <= i < entries.len() ==> has_write(final(ctx).writes@, self.state, ETABLE_STEP_SIZE * i + STATE_ROT_EID, fv_u64(entries@[i].eid))
                    && has_write(final(ctx).writes@, self.shared_bits, ETABLE_STEP_SIZE * i + BIT_ROT_ENABLE, fv_u64(1)),
            forall|i: int|
                #![trigger entries@[i]]
                0 <= i < entries.len() ==> has_write(final(ctx).writes@, self.state, ETABLE_STEP_SIZE * i + STATE_ROT_FID, fv_u64(entries@[i].fid as u64)),
            forall|i: int|
                #![trigger entries@[i]]
                0 <= i < entries.len() ==> has_write(final(ctx).writes@, self.state, ETABLE_STEP_SIZE * i + STATE_ROT_IID, fv_u64(entries@[i].iid as u64)),
            forall|i: int|
                #![trigger entries@[i]]
                0 <= i < entries.len() ==> has_write(final(ctx).writes@, self.state, ETABLE_STEP_SIZE * i + STATE_ROT_SP, fv_u64(entries@[i].sp)),
            forall|i: int|
                #![trigger entries@[i]]
                0 <= i < entries.len() ==> has_write(final(ctx).writes@, self.state, ETABLE_STEP_SIZE * i + STATE_ROT_LAST_JUMP_EID, fv_u64(entries@[i].last_jump_eid)),
            forall|i: int|
                #![trigger entries@[i]]
                0 <= i < entries.len() ==> has_write(final(ctx).writes@, self.aux, ETABLE_STEP_SIZE * i + AUX_ROT_ITABLE_LOOKUP, entries@[i].encoding),
            has_write(final(ctx).writes@, self.shared_bits, ETABLE_STEP_SIZE * entries.len() + BIT_ROT_ENABLE, fv_u64(0)),
    {
        let ghost s0 = old(ctx).writes@;
        let ghost base = old(ctx).offset as int;
        let ghost gadgets = step_configs(op_configs@, entries@);
        let ghost extra = step_extra_mops(gadgets, steps@);
        let ghost public = step_public(gadgets, steps@);
        let n = entries.len();
        ctx.assign_advice(self.state, STATE_ROT_REST_MOPS as usize, FieldValue::from_u64(0));
        ctx.assign_advice(self.state, STATE_ROT_REST_JOPS as usize, FieldValue::from_u64(0));
        let row0: usize = ctx.offset + STATE_ROT_INPUT_INDEX as usize;
        ctx.assign_advice(self.state, row0, FieldValue::from_u64(0));
        let ghost s1 = ctx.writes@;
        proof {
            assert(s1 =~= s0 + (one_write(self.state, 0, STATE_ROT_REST_MOPS as int, fv_u64(0)) + one_write(
                self.state,
                0,
                STATE_ROT_REST_JOPS as int,
                fv_u64(0),
            ) + one_write(self.state, base, STATE_ROT_INPUT_INDEX as int, fv_u64(0))));
        }
        let mut mops: Vec<u64> = Vec::new();
        let mut jops: Vec<u64> = Vec::new();
        let mut host_public_inputs: u64 = 0;
        let ghost mut gws: Seq<Seq<CellWrite>> = Seq::empty();
        let mut index: usize = 0;
        while index < n
            invariant
                n == entries.len(),
                steps.len() == n,
                statuses.len() == n,
                encodings.len() == n,
                index <= n,
                gadgets == step_configs(op_configs@, entries@),
                extra == step_extra_mops(gadgets, steps@),
                public == step_public(gadgets, steps@),
                steps_assignable(op_configs@, entries@, steps@, encodings@),
                ctx.offset == base + ETABLE_STEP_SIZE * index,
                base + ETABLE_STEP_SIZE * (n + 1) < i32::MAX,
                forall|i: int| 0 <= i < n ==> #[trigger] entries@[i].op_mops + extra[i] <= u64::MAX,
                host_public_inputs == prefix_count(public, index as int),
                prefix_count(public, index as int) <= index,
                mops@ == step_mops(entries@, extra).take(index as int),
                jops@ == step_jops(entries@).take(index as int),
                gws.len() == index,
                forall|i: int|
                    0 <= i < index ==> op_step_writes(
                        gadgets[i],
                        base + ETABLE_STEP_SIZE * i,
                        statuses@[i],
                        steps@[i],
                        encodings@[i]@,
                        #[trigger] gws[i],
                    ),
                ctx.writes@ == s1 + step_loop_writes(*self, base, gws, input_indices(public), index as nat),
            decreases n - index,
        {
            let entry = entries[index];
            let ghost i = index as int;
            proof {
                assert(exists|j: int| 0 <= j < op_configs@.len() && #[trigger] op_configs@[j].0 == entries@[i].opcode);
            }
            let mut j: usize = 0;
            while j < op_configs.len() && op_configs[j].0.0 != entry.opcode.0
                invariant
                    j <= op_configs.len(),
                    exists|k: int| 0 <= k < op_configs@.len() && #[trigger] op_configs@[k].0 == entry.opcode,
                    forall|k: int| 0 <= k < j ==> (#[trigger] op_configs@[k]).0 != entry.opcode,
                decreases op_configs.len() - j,
            {
                j = j + 1;
            }
            proof {
                if j == op_configs.len() {
                    let k = choose|k: int| 0 <= k < op_configs@.len() && #[trigger] op_configs@[k].0 == entry.opcode;
                    assert(op_configs@[k].0 != entry.opcode);
                }
                let k = choose|k: int| 0 <= k < op_configs@.len() && #[trigger] op_configs@[k].0 == entry.opcode;
                assert(op_configs@[j as int].0 == op_configs@[k].0);
                assert(gadgets[i] == op_configs@[j as int].1);
                assert(op_config_wf(op_configs@[j as int].1));
                assert(op_assignable(gadgets[i], steps@[i], encodings@[i]@));
            }
            let config = &op_configs[j].1;
            let ghost before = ctx.writes@;
            config.assign(ctx, &statuses[index], &steps[index], &encodings[index]);
            let ghost gw = ctx.writes@.skip(before.len() as int);
            proof {
                assert(ctx.writes@ =~= before + gw);
            }
            let extra_i: u64 = config.assigned_extra_mops(&steps[index]);
            let is_public: bool = config.is_host_public_input(&steps[index]);
            mops.push(entry.op_mops + extra_i);
            jops.push(entry.op_jops);
            let ghost mid = ctx.writes@;
            if index != 0 {
                let row: usize = ctx.offset + STATE_ROT_INPUT_INDEX as usize;
                ctx.assign_advice(self.state, row, FieldValue::from_u64(host_public_inputs));
            }
            proof {
                let old_gws = gws;
                gws = gws.push(gw);
                assert(gws[i] == gw);
                assert(gws.take(i) =~= old_gws);
                assert(forall|k: int| 0 <= k < i ==> gws[k] == old_gws[k]);
                assert(mops@ =~= step_mops(entries@, extra).take(index as int + 1));
                assert(jops@ =~= step_jops(entries@).take(index as int + 1));
                assert(input_indices(public)[i] == prefix_count(public, i));
                assert(step_loop_writes(*self, base, gws.take(i), input_indices(public), index as nat)
                    == step_loop_writes(*self, base, gws, input_indices(public), index as nat)) by {
                    lemma_step_loop_writes_prefix(*self, base, gws, input_indices(public), index as nat);
                }
                assert(ctx.writes@ =~= s1 + step_loop_writes(
                    *self,
                    base,
                    gws,
                    input_indices(public),
                    (index + 1) as nat,
                ));
            }
            if is_public {
                host_public_inputs = host_public_inputs + 1;
            }
            let mut k: usize = 0;
            while k < ETABLE_STEP_SIZE
                invariant
                    k <= ETABLE_STEP_SIZE,
                    ctx.offset == base + ETABLE_STEP_SIZE * index + k,
                    base + ETABLE_STEP_SIZE * (n + 1) < i32::MAX,
                    index < n,
                    ctx.writes@ == s1 + step_loop_writes(*self, base, gws, input_indices(public), (index + 1) as nat),
                decreases ETABLE_STEP_SIZE - k,
            {
                ctx.next();
                k = k + 1;
            }
            index = index + 1;
        }
        ctx.reset();
        proof {
            assert(mops@ =~= step_mops(entries@, extra));
            assert(jops@ =~= step_jops(entries@));
        }
        proof {
            assert(gadget_writes_ok(gadgets, base, statuses@, steps@, encodings@, gws));
        }
        let rest_mops = rest_ops(&mops);
        let rest_jops = rest_ops(&jops);
        let ghost s2 = ctx.writes@;
        let mut index: usize = 0;
        while index < n
            invariant
                n == entries.len(),
                index <= n,
                ctx.offset == ETABLE_STEP_SIZE * index,
                base >= 0,
                base + ETABLE_STEP_SIZE * (n + 1) < i32::MAX,
                forall|i: int| 0 <= i < n ==> (#[trigger] entries@[i]).opcode.0 <= 96,
                gadgets == step_configs(op_configs@, entries@),
                extra == step_extra_mops(gadgets, steps@),
                public == step_public(gadgets, steps@),
                gadget_writes_ok(gadgets, base, statuses@, steps@, encodings@, gws),
                rest_mops@ == rest_seq(step_mops(entries@, extra)),
                rest_jops@ == rest_seq(step_jops(entries@)),
                rest_mops.len() == n,
                rest_jops.len() == n,
                ctx.writes@ == s2 + state_writes(*self, entries@, rest_mops@, rest_jops@, index as nat),
            decreases n - index,
        {
            let entry = entries[index];
            let ghost before = ctx.writes@;
            let o: usize = ctx.offset;
            ctx.assign_advice(self.shared_bits, o + BIT_ROT_ENABLE as usize, FieldValue::from_u64(1));
            assert(entries@[index as int].opcode.0 <= 96);
            let (l1, l2) = opclass_to_two_level(entry.opcode);
            ctx.assign_advice(self.opcode_bits, o + l1, FieldValue::from_u64(1));
            ctx.assign_advice(self.opcode_bits, o + l2, FieldValue::from_u64(1));
            ctx.assign_advice(self.state, o + STATE_ROT_REST_MOPS as usize, FieldValue::from_u64(rest_mops[index]));
            ctx.assign_advice(self.state, o + STATE_ROT_REST_JOPS as usize, FieldValue::from_u64(rest_jops[index]));
            ctx.assign_advice(self.state, o + STATE_ROT_EID as usize, FieldValue::from_u64(entry.eid));
            ctx.assign_advice(self.state, o + STATE_ROT_FID as usize, FieldValue::from_u64(entry.fid as u64));
            ctx.assign_advice(self.state, o + STATE_ROT_IID as usize, FieldValue::from_u64(entry.iid as u64));
            ctx.assign_advice(self.state, o + STATE_ROT_SP as usize, FieldValue::from_u64(entry.sp));
            ctx.assign_advice(
                self.state,
                o + STATE_ROT_LAST_JUMP_EID as usize,
                FieldValue::from_u64(entry.last_jump_eid),
            );
            ctx.assign_advice(self.aux, o + AUX_ROT_ITABLE_LOOKUP as usize, entry.encoding);
            proof {
                assert(ctx.writes@ =~= before + block_state_writes(
                    *self,
                    entries@[index as int],
                    o as int,
                    rest_mops@[index as int],
                    rest_jops@[index as int],
                ));
                assert(ctx.writes@ =~= s2 + state_writes(*self, entries@, rest_mops@, rest_jops@, (index + 1) as nat));
            }
            let mut k: usize = 0;
            while k < ETABLE_STEP_SIZE
                invariant
                    k <= ETABLE_STEP_SIZE,
                    ctx.offset == ETABLE_STEP_SIZE * index + k,
                    base >= 0,
                    base + ETABLE_STEP_SIZE * (n + 1) < i32::MAX,
                    index < n,
                    ctx.writes@ == s2 + state_writes(*self, entries@, rest_mops@, rest_jops@, (index + 1) as nat),
                decreases ETABLE_STEP_SIZE - k,
            {
                ctx.next();
                k = k + 1;
            }
            index = index + 1;
        }
        let last: usize = ctx.offset + BIT_ROT_ENABLE as usize;
        ctx.assign_advice(self.shared_bits, last, FieldValue::from_u64(0));
        proof {
            assert(ctx.writes@ =~= s0 + common_writes(*self, entries@, extra, public, base, gws));
            let cw = common_writes(*self, entries@, extra, public, base, gws);
            assert forall|i: int| #![trigger entries@[i]] 0 <= i < entries.len() implies {
                &&& has_write(ctx.writes@, self.shared_bits, ETABLE_STEP_SIZE * i + BIT_ROT_ENABLE, fv_u64(1))
                &&& has_write(ctx.writes@, self.state, ETABLE_STEP_SIZE * i + STATE_ROT_EID, fv_u64(entries@[i].eid))
                &&& has_write(ctx.writes@, self.state, ETABLE_STEP_SIZE * i + STATE_ROT_FID, fv_u64(entries@[i].fid as u64))
                &&& has_write(ctx.writes@, self.state, ETABLE_STEP_SIZE * i + STATE_ROT_IID, fv_u64(entries@[i].iid as u64))
                &&& has_write(ctx.writes@, self.state, ETABLE_STEP_SIZE * i + STATE_ROT_SP, fv_u64(entries@[i].sp))
                &&& has_write(ctx.writes@, self.state, ETABLE_STEP_SIZE * i + STATE_ROT_LAST_JUMP_EID, fv_u64(entries@[i].last_jump_eid))
                &&& has_write(ctx.writes@, self.aux, ETABLE_STEP_SIZE * i + AUX_ROT_ITABLE_LOOKUP, entries@[i].encoding)
            } by {
                lemma_common_writes_cells(*self, entries@, extra, public, base, gws, i);
                lemma_has_write_append(s0, cw, self.shared_bits, ETABLE_STEP_SIZE * i + BIT_ROT_ENABLE, fv_u64(1));
                lemma_has_write_append(s0, cw, self.state, ETABLE_STEP_SIZE * i + STATE_ROT_EID, fv_u64(entries@[i].eid));
                lemma_has_write_append(s0, cw, self.state, ETABLE_STEP_SIZE * i + STATE_ROT_FID, fv_u64(entries@[i].fid as u64));
                lemma_has_write_append(s0, cw, self.state, ETABLE_STEP_SIZE * i + STATE_ROT_IID, fv_u64(entries@[i].iid as u64));
                lemma_has_write_append(s0, cw, self.state, ETABLE_STEP_SIZE * i + STATE_ROT_SP, fv_u64(entries@[i].sp));
                lemma_has_write_append(s0, cw, self.state, ETABLE_STEP_SIZE * i + STATE_ROT_LAST_JUMP_EID, fv_u64(entries@[i].last_jump_eid));
                lemma_has_write_append(s0, cw, self.aux, ETABLE_STEP_SIZE * i + AUX_ROT_ITABLE_LOOKUP, entries@[i].encoding);
            }
            lemma_common_writes_disable_last(*self, entries@, extra, public, base, gws);
            lemma_has_write_append(s0, cw, self.shared_bits, ETABLE_STEP_SIZE * entries.len() + BIT_ROT_ENABLE, fv_u64(0));
        }
        proof {
            lemma_suffix_sum_nonneg(step_mops(entries@, extra), 0);
            lemma_suffix_sum_nonneg(step_jops(entries@), 0);
        }
        let total_m: u64 = if n == 0 {
            0
        } else {
            rest_mops[0]
        };
        let total_j: u64 = if n == 0 {
            0
        } else {
            rest_jops[0]
        };
        (total_m, total_j)
    }
}

/// The value that a block's cell holds, where block `i` holds `vals[i]`
/// and the blocks past the steps hold zero.
pub open spec fn block_value(vals: Seq<u64>, i: int) -> int {
    if 0 <= i < vals.len() {
        vals[i] as int
    } else {
        0
    }
}

/// The memory operations still to come drop, from one block to the next,
/// by the operations of the step; the first block counts them all; and past
/// the last step none are left. This is what the constraint on the change of
/// the operations still to come asks of each enabled block.
pub proof fn lemma_rest_mops_change(ops: Seq<u64>, i: int)
    requires
        suffix_sum(ops, 0) <= u64::MAX,
        0 <= i < ops.len(),
    ensures
        block_value(rest_seq(ops), i) == block_value(rest_seq(ops), i + 1) + ops[i],
        fzero(block_value(rest_seq(ops), i + 1) - block_value(rest_seq(ops), i) + ops[i]),
        block_value(rest_seq(ops), 0) == suffix_sum(ops, 0),
{
    lemma_suffix_sum_bounds(ops, i);
    lemma_suffix_sum_bounds(ops, i + 1);
    lemma_suffix_sum_bounds(ops, 0);
    if i + 1 >= ops.len() {
        assert(suffix_sum(ops, i + 1) == 0);
    }
    assert(fzero(0));
}

/// The jump operations still to come drop in the same way, where the next
/// block is enabled; past the last step the constraint asks the last step to
/// make no jump, so it holds there exactly when the last step's count is
/// zero.
pub proof fn lemma_rest_jops_change(ops: Seq<u64>, i: int)
    requires
        suffix_sum(ops, 0) <= u64::MAX,
        0 <= i < ops.len(),
    ensures
        ({
            let next_enable = if i + 1 < ops.len() {
                1int
            } else {
                0int
            };
            fzero(block_value(rest_seq(ops), i + 1) - block_value(rest_seq(ops), i) + ops[i] * next_enable)
                <==> (i + 1 < ops.len() || ops[i] == 0)
        }),
{
    lemma_rest_mops_change(ops, i);
    if i + 1 >= ops.len() {
        crate::circuits::utils::lemma_fzero_small(-(ops[i] as int));
    }
}

/// The input index grows by one from a step to the next exactly where the
/// step reads a public input.
pub proof fn lemma_input_index_change(public: Seq<bool>, i: int)
    requires
        0 <= i,
        i + 1 < public.len(),
        public.len() <= u64::MAX,
    ensures
        input_indices(public)[i + 1] == input_indices(public)[i] + b2i(public[i]),
        fzero(input_indices(public)[i] - input_indices(public)[i + 1] + b2i(public[i])),
{
    lemma_prefix_count_bound(public, i + 1);
    lemma_prefix_count_bound(public, i);
    assert(fzero(0));
}

/// At most `i` of the first `i` flags are set.
pub proof fn lemma_prefix_count_bound(flags: Seq<bool>, i: int)
    ensures
        0 <= prefix_count(flags, i) <= if i < 0 {
            0
        } else {
            i
        },
    decreases i,
{
    if i > 0 {
        lemma_prefix_count_bound(flags, i - 1);
    }
}

/// The two opcode bits of a class from 1 to 64 fall one in each level: the
/// first among the first eight rows of the block, the second among the
/// rest, so that each level sums to one. For the classes from 65 on the
/// first bit falls among the rows of the second level.
pub proof fn lemma_opcode_bits_levels(class: int)
    requires
        1 <= class <= 96,
    ensures
        spec_opclass_to_two_level(class).0 < MAX_OP_LVL1 <==> class <= 64,
        MAX_OP_LVL1 <= spec_opclass_to_two_level(class).1 < MAX_OP_LVL2,
        0 <= spec_opclass_to_two_level(class).0,
{
}

} // verus!
