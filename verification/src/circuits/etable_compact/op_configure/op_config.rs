//! The gadgets that the compact event table registers, held as one type, and
//! the dispatch of a step to the gadget of its opcode class: its cells, the
//! memory operations it adds and whether it reads a public input.

use vstd::prelude::*;

use crate::circuits::etable_compact::op_configure::op_bin::bin_layout;
use crate::circuits::etable_compact::op_configure::op_bin::{bin_step_divides_by_zero, bin_writes, is_bin_step, BinConfig};
use crate::circuits::etable_compact::op_configure::op_bin_bit::bin_bit_layout;
use crate::circuits::etable_compact::op_configure::op_bin_bit::{bin_bit_witness, bin_bit_writes, BinBitConfig};
use crate::circuits::etable_compact::op_configure::op_bin_shift::shift_layout;
use crate::circuits::etable_compact::op_configure::op_bin_shift::{is_shift_step, shift_writes, BinShiftConfig};
use crate::circuits::etable_compact::op_configure::op_br::br_layout;
use crate::circuits::etable_compact::op_configure::op_br::{br_extra_mops, br_writes, keep_ok, BrConfig};
use crate::circuits::etable_compact::op_configure::op_br_if::br_if_layout;
use crate::circuits::etable_compact::op_configure::op_br_if::{br_if_extra_mops, br_if_writes, BrIfConfig};
use crate::circuits::etable_compact::op_configure::op_br_if_eqz::br_if_eqz_layout;
use crate::circuits::etable_compact::op_configure::op_br_if_eqz::{
    br_if_eqz_extra_mops, br_if_eqz_writes, cond_witness_of, BrIfEqzConfig, CondWitness,
};
use crate::circuits::etable_compact::op_configure::op_call::call_layout;
use crate::circuits::etable_compact::op_configure::op_call::CallConfig;
use crate::circuits::etable_compact::op_configure::op_call_host_input::call_host_input_layout;
use crate::circuits::etable_compact::op_configure::op_call_host_input::{
    call_host_input_writes, host_input_step, is_public_input, CallHostWasmInputConfig,
};
use crate::circuits::etable_compact::op_configure::op_const::{const_writes, ConstConfig};
use crate::circuits::etable_compact::op_configure::op_conversion::conversion_layout;
use crate::circuits::etable_compact::op_configure::op_conversion::{
    conversion_writes, spec_conversion_witness, ConversionConfig,
};
use crate::circuits::etable_compact::op_configure::op_load::load_layout;
use crate::circuits::etable_compact::op_configure::op_load::{
    load_extra_mops, load_in_range, load_writes, spec_load_witness, LoadConfig,
};
use crate::circuits::etable_compact::op_configure::op_local_get::local_get_layout;
use crate::circuits::etable_compact::op_configure::op_local_get::{local_get_writes, LocalGetConfig};
use crate::circuits::etable_compact::op_configure::op_rel::rel_layout;
use crate::circuits::etable_compact::op_configure::op_rel::{rel_supported, rel_writes, RelConfig};
use crate::circuits::etable_compact::op_configure::op_return::return_layout;
use crate::circuits::etable_compact::op_configure::op_return::{return_writes, ReturnConfig};
use crate::circuits::etable_compact::op_configure::op_select::select_layout;
use crate::circuits::etable_compact::op_configure::op_select::{select_witness_of, select_writes, SelectConfig, SelectWitness};
use crate::circuits::etable_compact::op_configure::op_sha256::CallHostSha256Config;
use crate::circuits::etable_compact::op_configure::op_store::store_layout;
use crate::circuits::etable_compact::op_configure::op_store::{
    spec_store_witness, store_extra_mops, store_in_range, store_writes, StoreConfig,
};
use crate::circuits::etable_compact::op_configure::op_test::test_layout;
use crate::circuits::etable_compact::op_configure::op_test::{test_witness_of, test_writes, TestConfig, TestWitness};
use crate::circuits::etable_compact::op_configure::{common_range_cell_at, u64_cell_at, common_range_cell_ok, common_range_writes, mtable_lookup_writes};
use crate::circuits::etable_compact::op_configure::op_return::ReturnConfigBuilder;
use crate::circuits::etable_compact::op_configure::op_br::BrConfigBuilder;
use crate::circuits::etable_compact::op_configure::op_br_if_eqz::BrIfEqzConfigBuilder;
use crate::circuits::etable_compact::op_configure::op_call::CallConfigBuilder;
use crate::circuits::etable_compact::op_configure::op_const::ConstConfigBuilder;
use crate::circuits::etable_compact::op_configure::op_local_get::LocalGetConfigBuilder;
use crate::circuits::etable_compact::op_configure::op_bin::BinConfigBuilder;
use crate::circuits::etable_compact::op_configure::op_bin_bit::BinBitConfigBuilder;
use crate::circuits::etable_compact::op_configure::op_bin_shift::BinShiftConfigBuilder;
use crate::circuits::etable_compact::op_configure::op_br_if::BrIfConfigBuilder;
use crate::circuits::etable_compact::op_configure::op_load::LoadConfigBuilder;
use crate::circuits::etable_compact::op_configure::op_store::StoreConfigBuilder;
use crate::circuits::etable_compact::op_configure::op_rel::RelConfigBuilder;
use crate::circuits::etable_compact::op_configure::op_select::SelectConfigBuilder;
use crate::circuits::etable_compact::op_configure::op_test::TestConfigBuilder;
use crate::circuits::etable_compact::op_configure::op_conversion::ConversionConfigBuilder;
use crate::circuits::etable_compact::op_configure::op_call_host_input::CallHostWasmInputConfigBuilder;
use crate::circuits::etable_compact::op_configure::EventTableCellAllocator;
use crate::circuits::etable_compact::StepStatus;
use crate::circuits::step::{BitOp, StepInfo};
use crate::circuits::utils::{CellWrite, Context, FieldValue};

verus! {

/// The configured gadget of one opcode class.
#[derive(Clone, Debug)]
pub enum OpConfig {
    Return(ReturnConfig),
    Br(BrConfig),
    BrIfEqz(BrIfEqzConfig),
    Call(CallConfig),
    Const(ConstConfig),
    LocalGet(LocalGetConfig),
    Bin(BinConfig),
    BinBit(BinBitConfig),
    BinShift(BinShiftConfig),
    BrIf(BrIfConfig),
    Load(LoadConfig),
    Store(StoreConfig),
    Rel(RelConfig),
    Select(SelectConfig),
    Test(TestConfig),
    Conversion(ConversionConfig),
    HostInput(CallHostWasmInputConfig),
    Sha256(CallHostSha256Config),
}

/// The gadget's cells are well placed in its block.
pub open spec fn op_config_wf(c: OpConfig) -> bool {
    match c {
        OpConfig::Return(x) => x.wf(),
        OpConfig::Br(x) => x.wf(),
        OpConfig::BrIfEqz(x) => x.wf(),
        OpConfig::Call(x) => common_range_cell_ok(x.index),
        OpConfig::Const(x) => x.wf(),
        OpConfig::LocalGet(x) => x.wf(),
        OpConfig::Bin(x) => x.wf(),
        OpConfig::BinBit(x) => x.wf(),
        OpConfig::BinShift(x) => x.wf(),
        OpConfig::BrIf(x) => x.wf(),
        OpConfig::Load(x) => x.wf(),
        OpConfig::Store(x) => x.wf(),
        OpConfig::Rel(x) => x.wf(),
        OpConfig::Select(x) => x.wf(),
        OpConfig::Test(x) => x.wf(),
        OpConfig::Conversion(x) => x.wf(),
        OpConfig::HostInput(x) => x.wf(),
        OpConfig::Sha256(_) => true,
    }
}

/// The steps that the gadget assigns: a step of its kind, on the values for
/// which it does not panic. The SHA-256 gadget assigns none.
pub open spec fn op_step_ok(c: OpConfig, step: StepInfo) -> bool {
    match c {
        OpConfig::Return(_) => {
            &&& step is Return
            &&& step->Return_keep.len() <= 1
            &&& step->Return_drop < 0x10000
            &&& step->Return_keep.len() == step->Return_keep_values.len()
        },
        OpConfig::Br(_) => {
            &&& step is Br
            &&& keep_ok(step->Br_keep@, step->Br_keep_values@)
            &&& step->Br_drop <= 0xffff
            &&& step->Br_dst_pc <= 0xffff
        },
        OpConfig::BrIfEqz(_) => {
            &&& step is BrIfEqz
            &&& keep_ok(step->BrIfEqz_keep@, step->BrIfEqz_keep_values@)
            &&& step->BrIfEqz_drop <= 0xffff
            &&& step->BrIfEqz_dst_pc <= 0xffff
        },
        OpConfig::Call(_) => step is Call && step->Call_index < 0x10000,
        OpConfig::Const(_) => step is I32Const,
        OpConfig::LocalGet(_) => step is GetLocal && step->depth < 0x10000,
        OpConfig::Bin(_) => is_bin_step(step) && !bin_step_divides_by_zero(step),
        OpConfig::BinBit(_) => {
            &&& (step is I32BinBitOp || step is I64BinBitOp)
            &&& bin_bit_witness(step).class != BitOp::Not
        },
        OpConfig::BinShift(_) => is_shift_step(step),
        OpConfig::BrIf(_) => {
            &&& step is BrIfNez
            &&& keep_ok(step->BrIfNez_keep@, step->BrIfNez_keep_values@)
            &&& step->BrIfNez_drop <= 0xffff
            &&& step->BrIfNez_dst_pc <= 0xffff
        },
        OpConfig::Load(_) => load_in_range(step),
        OpConfig::Store(_) => store_in_range(step),
        OpConfig::Rel(_) => step is I32Comp && rel_supported(step->I32Comp_class),
        OpConfig::Select(_) => step is Select,
        OpConfig::Test(_) => step is Test,
        OpConfig::Conversion(_) => (step is I32WrapI64 || step is I64ExtendI32),
        OpConfig::HostInput(_) => host_input_step(step),
        OpConfig::Sha256(_) => false,
    }
}

/// The number of memory table lookup cells of the gadget.
pub open spec fn op_lookup_count(c: OpConfig) -> nat {
    match c {
        OpConfig::Br(_) => 2,
        OpConfig::BrIfEqz(_) => 3,
        OpConfig::LocalGet(_) => 2,
        OpConfig::Bin(_) => 3,
        OpConfig::BinBit(_) => 3,
        OpConfig::BinShift(_) => 3,
        OpConfig::BrIf(_) => 3,
        OpConfig::Load(_) => 4,
        OpConfig::Store(_) => 6,
        OpConfig::Rel(_) => 3,
        OpConfig::Select(_) => 4,
        OpConfig::Test(_) => 2,
        OpConfig::Conversion(_) => 2,
        OpConfig::HostInput(_) => 2,
        _ => 0,
    }
}

/// The gadget assigns the step, with one encoding for each of its memory
/// table lookup cells.
pub open spec fn op_assignable(c: OpConfig, step: StepInfo, enc: Seq<FieldValue>) -> bool {
    op_step_ok(c, step) && enc.len() == op_lookup_count(c)
}

/// `ws` is what the gadget writes for the step in the block at row `o`:
/// its own cells, then, where it has them, its memory table lookup cells
/// with the encodings `enc`.
pub open spec fn op_step_writes(
    c: OpConfig,
    o: int,
    status: StepStatus,
    step: StepInfo,
    enc: Seq<FieldValue>,
    ws: Seq<CellWrite>,
) -> bool {
    match c {
        OpConfig::Return(x) => ws == return_writes(
            x,
            o,
            step->Return_drop,
            step->Return_keep@,
            step->Return_keep_values@,
        ),
        OpConfig::Br(x) => ws == br_writes(x, o, step->Br_dst_pc, step->Br_drop, step->Br_keep@, step->Br_keep_values@)
            + mtable_lookup_writes(x.lookups(), o, enc),
        OpConfig::BrIfEqz(x) => exists|w: CondWitness|
            {
                &&& cond_witness_of(w, step->BrIfEqz_condition as u32 as u64)
                &&& ws == br_if_eqz_writes(
                    x,
                    o,
                    step->BrIfEqz_dst_pc,
                    step->BrIfEqz_drop,
                    step->BrIfEqz_keep@,
                    step->BrIfEqz_keep_values@,
                    w,
                ) + mtable_lookup_writes(x.lookups(), o, enc)
            },
        OpConfig::Call(x) => ws == common_range_writes(x.index, o, step->Call_index as u16),
        OpConfig::Const(x) => ws == const_writes(x, o, step->I32Const_value),
        OpConfig::LocalGet(x) => ws == local_get_writes(x, o, step) + mtable_lookup_writes(x.lookups(), o, enc),
        OpConfig::Bin(x) => ws == bin_writes(x, o, step) + mtable_lookup_writes(x.lookups(), o, enc),
        OpConfig::BinBit(x) => ws == bin_bit_writes(x, o, bin_bit_witness(step)) + mtable_lookup_writes(
            x.lookups(),
            o,
            enc,
        ),
        OpConfig::BinShift(x) => ws == shift_writes(x, o, step) + mtable_lookup_writes(x.lookups(), o, enc),
        OpConfig::BrIf(x) => exists|w: CondWitness|
            {
                &&& cond_witness_of(w, step->BrIfNez_condition as u32 as u64)
                &&& ws == br_if_writes(
                    x,
                    o,
                    step->BrIfNez_dst_pc,
                    step->BrIfNez_drop,
                    step->BrIfNez_keep@,
                    step->BrIfNez_keep_values@,
                    w,
                ) + mtable_lookup_writes(x.lookups(), o, enc)
            },
        OpConfig::Load(x) => ws == load_writes(x, o, spec_load_witness(step, status.current.moid))
            + mtable_lookup_writes(x.lookups(), o, enc),
        OpConfig::Store(x) => ws == store_writes(x, o, spec_store_witness(step)) + mtable_lookup_writes(
            x.lookups(),
            o,
            enc,
        ),
        OpConfig::Rel(x) => ws == rel_writes(
            x,
            o,
            step->I32Comp_class,
            step->I32Comp_left,
            step->I32Comp_right,
            step->I32Comp_value,
            enc,
        ),
        OpConfig::Select(x) => exists|w: SelectWitness|
            {
                &&& select_witness_of(w, step->val1, step->val2, step->cond, step->Select_result, step->Select_vtype)
                &&& ws == select_writes(x, o, w) + mtable_lookup_writes(x.lookups(), o, enc)
            },
        OpConfig::Test(x) => exists|w: TestWitness|
            {
                &&& test_witness_of(w, step->Test_vtype, step->Test_value, step->Test_result)
                &&& ws == test_writes(x, o, w) + mtable_lookup_writes(x.lookups(), o, enc)
            },
        OpConfig::Conversion(x) => ws == conversion_writes(x, o, spec_conversion_witness(step))
            + mtable_lookup_writes(x.lookups(), o, enc),
        OpConfig::HostInput(x) => ws == call_host_input_writes(x, o, step) + mtable_lookup_writes(
            x.lookups(),
            o,
            enc,
        ),
        OpConfig::Sha256(_) => ws == Seq::<CellWrite>::empty(),
    }
}

/// The memory operations that the gadget adds to those its opcode counts:
/// the kept value of a taken branch, the second block of a load or store
/// that crosses a block boundary, and the two accesses of a host input.
pub open spec fn op_extra_mops(c: OpConfig, step: StepInfo) -> int {
    match c {
        OpConfig::Br(_) => br_extra_mops(step->Br_keep@),
        OpConfig::BrIf(_) => br_if_extra_mops(step->BrIfNez_condition, step->BrIfNez_keep@),
        OpConfig::BrIfEqz(_) => br_if_eqz_extra_mops(step->BrIfEqz_condition, step->BrIfEqz_keep@),
        OpConfig::Load(_) => load_extra_mops(step),
        OpConfig::Store(_) => store_extra_mops(step),
        OpConfig::HostInput(_) => 2,
        _ => 0,
    }
}

/// Whether the step reads a public input: only a host input step can.
pub open spec fn op_public_input(c: OpConfig, step: StepInfo) -> bool {
    match c {
        OpConfig::HostInput(_) => is_public_input(step),
        _ => false,
    }
}

/// The opcode class of the gadget, by the numbering of the instruction
/// set's classes; the host calls follow the last class, each at its
/// plugin's index past it.
pub open spec fn op_config_class(c: OpConfig) -> usize {
    match c {
        OpConfig::Return(_) => 9,
        OpConfig::Br(_) => 15,
        OpConfig::BrIfEqz(_) => 17,
        OpConfig::Call(_) => 20,
        OpConfig::Const(_) => 6,
        OpConfig::LocalGet(_) => 1,
        OpConfig::Bin(_) => 10,
        OpConfig::BinBit(_) => 13,
        OpConfig::BinShift(_) => 12,
        OpConfig::BrIf(_) => 16,
        OpConfig::Load(_) => 23,
        OpConfig::Store(_) => 22,
        OpConfig::Rel(_) => 14,
        OpConfig::Select(_) => 8,
        OpConfig::Test(_) => 24,
        OpConfig::Conversion(_) => 25,
        OpConfig::HostInput(_) => 29,
        OpConfig::Sha256(_) => 30,
    }
}

/// The classes that have a gadget.
pub open spec fn has_gadget(class: usize) -> bool {
    class == 1 || class == 6 || class == 8 || class == 9 || class == 10 || class == 12 || class == 13 || class == 14 || class == 15 || class == 16 || class == 17 || class == 20 || class == 22 || class == 23 || class == 24 || class == 25 || class == 29 || class == 30
}

/// The cells that the gadget of `class` takes in a block of its own: its
/// builder's layout, run on a fresh allocator.
pub open spec fn gadget_layout(g: OpConfig, class: usize) -> bool {
    let a = EventTableCellAllocator::spec_new();
    match g {
        OpConfig::Return(c) => class == 9 && c == return_layout(a),
        OpConfig::Br(c) => class == 15 && c == br_layout(a),
        OpConfig::BrIfEqz(c) => class == 17 && c == br_if_eqz_layout(a),
        OpConfig::Call(c) => class == 20 && c == call_layout(a),
        OpConfig::LocalGet(c) => class == 1 && c == local_get_layout(a),
        OpConfig::Bin(c) => class == 10 && c == bin_layout(a),
        OpConfig::BinBit(c) => class == 13 && c == bin_bit_layout(a),
        OpConfig::BinShift(c) => class == 12 && c == shift_layout(a),
        OpConfig::BrIf(c) => class == 16 && c == br_if_layout(a),
        OpConfig::Rel(c) => class == 14 && c == rel_layout(a),
        OpConfig::Select(c) => class == 8 && c == select_layout(a),
        OpConfig::Test(c) => class == 24 && c == test_layout(a),
        OpConfig::Conversion(c) => class == 25 && c == conversion_layout(a),
        OpConfig::HostInput(c) => class == 29 && c == call_host_input_layout(a),
        OpConfig::Const(c) => class == 6 && c == (ConstConfig {
            vtype: common_range_cell_at(a.common_range_index as int),
            value: u64_cell_at(a.u64_index as int),
        }),
        OpConfig::Load(c) => class == 23 && load_layout(c, a),
        OpConfig::Store(c) => class == 22 && store_layout(c, a),
        OpConfig::Sha256(_) => class == 30,
    }
}

/// Configures the gadget of `class` in a block of its own, where the class
/// has one.
pub fn configure_gadget(class: usize) -> (r: Option<OpConfig>)
    ensures
        r is Some <==> has_gadget(class),
        r is Some ==> op_config_wf(r->0) && op_config_class(r->0) == class && gadget_layout(r->0, class),
{
    let mut a = EventTableCellAllocator::new();
    match class {
        9 => Some(OpConfig::Return(ReturnConfigBuilder::configure(&mut a))),
        15 => Some(OpConfig::Br(BrConfigBuilder::configure(&mut a))),
        17 => Some(OpConfig::BrIfEqz(BrIfEqzConfigBuilder::configure(&mut a))),
        20 => Some(OpConfig::Call(CallConfigBuilder::configure(&mut a))),
        6 => Some(OpConfig::Const(ConstConfigBuilder::configure(&mut a))),
        1 => Some(OpConfig::LocalGet(LocalGetConfigBuilder::configure(&mut a))),
        10 => Some(OpConfig::Bin(BinConfigBuilder::configure(&mut a))),
        13 => Some(OpConfig::BinBit(BinBitConfigBuilder::configure(&mut a))),
        12 => Some(OpConfig::BinShift(BinShiftConfigBuilder::configure(&mut a))),
        16 => Some(OpConfig::BrIf(BrIfConfigBuilder::configure(&mut a))),
        23 => Some(OpConfig::Load(LoadConfigBuilder::configure(&mut a))),
        22 => Some(OpConfig::Store(StoreConfigBuilder::configure(&mut a))),
        14 => Some(OpConfig::Rel(RelConfigBuilder::configure(&mut a))),
        8 => Some(OpConfig::Select(SelectConfigBuilder::configure(&mut a))),
        24 => Some(OpConfig::Test(TestConfigBuilder::configure(&mut a))),
        25 => Some(OpConfig::Conversion(ConversionConfigBuilder::configure(&mut a))),
        29 => Some(OpConfig::HostInput(CallHostWasmInputConfigBuilder::configure(&mut a))),
        30 => Some(OpConfig::Sha256(CallHostSha256Config {})),
        _ => None,
    }
}

impl OpConfig {
    /// Assigns the step's cells with the gadget of its class, and the
    /// encodings `enc` to the gadget's memory table lookup cells.
    #[verifier::rlimit(100)]
    pub fn assign(&self, ctx: &mut Context, status: &StepStatus, step: &StepInfo, enc: &Vec<FieldValue>)
        requires
            op_config_wf(*self),
            op_assignable(*self, *step, enc@),
            old(ctx).offset + 40 <= i32::MAX,
        ensures
            final(ctx).offset == old(ctx).offset,
            final(ctx).writes@.len() >= old(ctx).writes@.len(),
            final(ctx).writes@.take(old(ctx).writes@.len() as int) == old(ctx).writes@,
            op_step_writes(
                *self,
                old(ctx).offset as int,
                *status,
                *step,
                enc@,
                final(ctx).writes@.skip(old(ctx).writes@.len() as int),
            ),
    {
        let ghost s0 = old(ctx).writes@;
        let ghost o = old(ctx).offset as int;
        match self {
            OpConfig::Return(x) => {
                x.assign(ctx, step);
                proof {
                    assert(ctx.writes@.skip(s0.len() as int) =~= return_writes(*x, o, step->Return_drop, step->Return_keep@, step->Return_keep_values@));
                }
            },
            OpConfig::Br(x) => {
                x.assign(ctx, step, enc);
                proof {
                    assert(ctx.writes@.skip(s0.len() as int) =~= br_writes(*x, o, step->Br_dst_pc, step->Br_drop, step->Br_keep@, step->Br_keep_values@) + mtable_lookup_writes(x.lookups(), o, enc@));
                }
            },
            OpConfig::BrIfEqz(x) => {
                let w = x.assign(ctx, step, enc);
                proof {
                    assert(ctx.writes@.skip(s0.len() as int) =~= br_if_eqz_writes(
                        *x,
                        o,
                        step->BrIfEqz_dst_pc,
                        step->BrIfEqz_drop,
                        step->BrIfEqz_keep@,
                        step->BrIfEqz_keep_values@,
                        w,
                    ) + mtable_lookup_writes(x.lookups(), o, enc@));
                }
            },
            OpConfig::Call(x) => {
                x.assign(ctx, step);
                proof {
                    assert(ctx.writes@.skip(s0.len() as int) =~= common_range_writes(x.index, o, step->Call_index as u16));
                }
            },
            OpConfig::Const(x) => {
                x.assign(ctx, step);
                proof {
                    assert(ctx.writes@.skip(s0.len() as int) =~= const_writes(*x, o, step->I32Const_value));
                }
            },
            OpConfig::LocalGet(x) => {
                x.assign(ctx, step, enc);
                proof {
                    assert(ctx.writes@.skip(s0.len() as int) =~= local_get_writes(*x, o, *step) + mtable_lookup_writes(x.lookups(), o, enc@));
                }
            },
            OpConfig::Bin(x) => {
                x.assign(ctx, step, enc);
                proof {
                    assert(ctx.writes@.skip(s0.len() as int) =~= bin_writes(*x, o, *step) + mtable_lookup_writes(x.lookups(), o, enc@));
                }
            },
            OpConfig::BinBit(x) => {
                x.assign(ctx, step, enc);
                proof {
                    assert(ctx.writes@.skip(s0.len() as int) =~= bin_bit_writes(*x, o, bin_bit_witness(*step)) + mtable_lookup_writes(x.lookups(), o, enc@));
                }
            },
            OpConfig::BinShift(x) => {
                x.assign(ctx, step, enc);
                proof {
                    assert(ctx.writes@.skip(s0.len() as int) =~= shift_writes(*x, o, *step) + mtable_lookup_writes(x.lookups(), o, enc@));
                }
            },
            OpConfig::BrIf(x) => {
                let w = x.assign(ctx, step, enc);
                proof {
                    assert(ctx.writes@.skip(s0.len() as int) =~= br_if_writes(
                        *x,
                        o,
                        step->BrIfNez_dst_pc,
                        step->BrIfNez_drop,
                        step->BrIfNez_keep@,
                        step->BrIfNez_keep_values@,
                        w,
                    ) + mtable_lookup_writes(x.lookups(), o, enc@));
                }
            },
            OpConfig::Load(x) => {
                x.assign(ctx, status, step, enc);
                proof {
                    assert(ctx.writes@.skip(s0.len() as int) =~= load_writes(*x, o, spec_load_witness(*step, status.current.moid)) + mtable_lookup_writes(x.lookups(), o, enc@));
                }
            },
            OpConfig::Store(x) => {
                x.assign(ctx, step, enc);
                proof {
                    assert(ctx.writes@.skip(s0.len() as int) =~= store_writes(*x, o, spec_store_witness(*step)) + mtable_lookup_writes(x.lookups(), o, enc@));
                }
            },
            OpConfig::Rel(x) => {
                x.assign(ctx, step, enc);
                proof {
                    assert(ctx.writes@.skip(s0.len() as int) =~= rel_writes(*x, o, step->I32Comp_class, step->I32Comp_left, step->I32Comp_right, step->I32Comp_value, enc@));
                }
            },
            OpConfig::Select(x) => {
                let w = x.assign(ctx, step, enc);
                proof {
                    assert(ctx.writes@.skip(s0.len() as int) =~= select_writes(*x, o, w) + mtable_lookup_writes(
                        x.lookups(),
                        o,
                        enc@,
                    ));
                }
            },
            OpConfig::Test(x) => {
                let w = x.assign(ctx, step, enc);
                proof {
                    assert(ctx.writes@.skip(s0.len() as int) =~= test_writes(*x, o, w) + mtable_lookup_writes(
                        x.lookups(),
                        o,
                        enc@,
                    ));
                }
            },
            OpConfig::Conversion(x) => {
                x.assign(ctx, step, enc);
                proof {
                    assert(ctx.writes@.skip(s0.len() as int) =~= conversion_writes(*x, o, spec_conversion_witness(*step)) + mtable_lookup_writes(x.lookups(), o, enc@));
                }
            },
            OpConfig::HostInput(x) => {
                x.assign(ctx, step, enc);
                proof {
                    assert(ctx.writes@.skip(s0.len() as int) =~= call_host_input_writes(*x, o, *step) + mtable_lookup_writes(x.lookups(), o, enc@));
                }
            },
            OpConfig::Sha256(_) => {},
        }
        proof {
            assert(ctx.writes@.take(s0.len() as int) =~= s0);
            assert(ctx.writes@ =~= s0 + ctx.writes@.skip(s0.len() as int));
        }
    }

    /// The memory operations that the gadget adds for the step.
    pub fn assigned_extra_mops(&self, step: &StepInfo) -> (r: u64)
        requires
            op_step_ok(*self, *step),
        ensures
            r == op_extra_mops(*self, *step),
    {
        match self {
            OpConfig::Br(x) => x.assigned_extra_mops(step),
            OpConfig::BrIf(x) => x.assigned_extra_mops(step),
            OpConfig::BrIfEqz(x) => x.assigned_extra_mops(step),
            OpConfig::Load(x) => x.assigned_extra_mops(step),
            OpConfig::Store(x) => x.assigned_extra_mops(step),
            OpConfig::HostInput(x) => x.assigned_extra_mops(step),
            _ => 0,
        }
    }

    /// Whether the step reads a public input.
    pub fn is_host_public_input(&self, step: &StepInfo) -> (r: bool)
        requires
            op_step_ok(*self, *step),
        ensures
            r == op_public_input(*self, *step),
    {
        match self {
            OpConfig::HostInput(x) => x.is_host_public_input(step),
            _ => false,
        }
    }
}

} // verus!
