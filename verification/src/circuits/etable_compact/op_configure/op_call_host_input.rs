//! The gadget of a call to the host's input function: the step pops a flag
//! that says whether the input is public, pushes the 64-bit input, and, for
//! a public input, reads it from the input table at the step's input index.

use vstd::prelude::*;
use crate::circuits::utils::FieldValue;
use crate::circuits::etable_compact::op_configure::{
    assign_mtable_lookups, mtable_lookup_cell_ok, mtable_lookup_writes,
    bit_cell_at, bit_cell_ok, bit_writes, mtable_lookup_cell_at, u64_cell_at, u64_cell_ok, u64_cell_writes, BitCell,
    EventTableCellAllocator, MTableLookupCell, U64Cell,
};
use crate::circuits::etable_compact::BIT_CELLS;
use crate::circuits::intable::{intable_encode, lemma_intable_encode_injective};
use crate::circuits::step::{HostPlugin, StepInfo};
use crate::circuits::utils::{CellWrite, Context};

verus! {

/// The cells of the gadget.
#[derive(Clone, Copy, Debug, PartialEq, Eq, Structural)]
pub struct CallHostWasmInputConfig {
    pub public: BitCell,
    pub value: U64Cell,
    pub lookup_read_stack: MTableLookupCell,
    pub lookup_write_stack: MTableLookupCell,
}

/// Builds the gadget.
pub struct CallHostWasmInputConfigBuilder {}

/// The cells that the gadget takes from an allocator in state `a`.
pub open spec fn call_host_input_layout(a: EventTableCellAllocator) -> CallHostWasmInputConfig {
    CallHostWasmInputConfig {
        public: bit_cell_at(a.bit_index as int),
        value: u64_cell_at(a.u64_index as int),
        lookup_read_stack: mtable_lookup_cell_at(a.mtable_lookup_index as int),
        lookup_write_stack: mtable_lookup_cell_at(a.mtable_lookup_index + 1),
    }
}

/// The value that the gadget looks up in the input table: the step's input
/// index above the lowest 64 bits, and the input in them.
pub open spec fn host_input_lookup(input_index: int, value: int) -> int {
    intable_encode(1, input_index, value)
}

/// The lookup reads the input table's row at the step's input index: where
/// its value is that of an enabled row, and both inputs have 64 bits, the
/// index and the input are the row's.
pub proof fn lemma_host_input_lookup_sound(input_index: int, value: int, index: int, input: int)
    requires
        0 <= value < 0x1_0000_0000_0000_0000,
        0 <= input < 0x1_0000_0000_0000_0000,
        host_input_lookup(input_index, value) == intable_encode(1, index, input),
    ensures
        input_index == index,
        value == input,
{
    lemma_intable_encode_injective(input_index, value, index, input);
}

impl CallHostWasmInputConfig {
    /// Every cell lies within a block.
    pub open spec fn wf(self) -> bool {
        &&& bit_cell_ok(self.public)
        &&& u64_cell_ok(self.value)
        &&& mtable_lookup_cell_ok(self.lookup_read_stack)
        &&& mtable_lookup_cell_ok(self.lookup_write_stack)
    }

    /// The memory table lookup cells of the step, in the order of the
    /// gadget's cells.
    pub open spec fn lookups(self) -> Seq<MTableLookupCell> {
        seq![self.lookup_read_stack, self.lookup_write_stack]
    }
}

impl CallHostWasmInputConfigBuilder {
    /// Takes the gadget's cells from the allocator of its block.
    pub fn configure(common: &mut EventTableCellAllocator) -> (r: CallHostWasmInputConfig)
        requires
            old(common).wf(),
            old(common).bit_index < BIT_CELLS,
            old(common).u64_index + 1 <= 3,
            old(common).mtable_lookup_index + 2 <= 11,
        ensures
            r == call_host_input_layout(*old(common)),
            r.wf(),
            final(common).wf(),
    {
        let public = common.alloc_bit_value();
        let value = common.alloc_u64();
        let lookup_read_stack = common.alloc_mtable_lookup();
        let lookup_write_stack = common.alloc_mtable_lookup();
        CallHostWasmInputConfig { public, value, lookup_read_stack, lookup_write_stack }
    }
}

/// The step's input is public where the flag it pops is one.
pub open spec fn is_public_input(step: StepInfo) -> bool {
    step->CallHost_args@[0] == 1
}

/// The assignments of the gadget: the public flag and the input.
pub open spec fn call_host_input_writes(c: CallHostWasmInputConfig, o: int, step: StepInfo) -> Seq<CellWrite> {
    bit_writes(c.public, o, is_public_input(step)) + u64_cell_writes(c.value, o, step->CallHost_ret_val->0)
}

/// A call to the host's input function with its one argument and a result.
pub open spec fn host_input_step(step: StepInfo) -> bool {
    &&& step is CallHost
    &&& step->CallHost_plugin == HostPlugin::HostInput
    &&& step->CallHost_args@.len() == 1
    &&& step->CallHost_ret_val is Some
}

/// What a host input step writes, cell by cell: whether its argument asks
/// for a public input to the public bit, and the input read to the value
/// cell.
pub proof fn lemma_call_host_input_writes_cells(c: CallHostWasmInputConfig, o: int, step: StepInfo)
    requires
        host_input_step(step),
    ensures
        crate::circuits::etable_compact::op_configure::has_write(call_host_input_writes(c, o, step), c.public.col, o + c.public.rot, crate::circuits::utils::fv_bool(step->CallHost_args@[0] == 1)),
        crate::circuits::etable_compact::op_configure::has_write(call_host_input_writes(c, o, step), c.value.value_col, o + c.value.value_rot, crate::circuits::utils::fv_u64(step->CallHost_ret_val->0)),
{
    let p0 = bit_writes(c.public, o, is_public_input(step));
    let p1 = u64_cell_writes(c.value, o, step->CallHost_ret_val->0);
    assert(call_host_input_writes(c, o, step) == p0 + p1);
    {
        crate::circuits::etable_compact::op_configure::lemma_has_write_one(c.public.col, o, c.public.rot as int, crate::circuits::utils::fv_bool(step->CallHost_args@[0] == 1));
        crate::circuits::etable_compact::op_configure::lemma_has_write_append(p0, p1, c.public.col, o + c.public.rot, crate::circuits::utils::fv_bool(step->CallHost_args@[0] == 1));
    }
    {
        crate::circuits::etable_compact::op_configure::lemma_u64_cell_writes_value(c.value, o, step->CallHost_ret_val->0);
        crate::circuits::etable_compact::op_configure::lemma_has_write_append(p0, p1, c.value.value_col, o + c.value.value_rot, crate::circuits::utils::fv_u64(step->CallHost_ret_val->0));
    }
}

impl CallHostWasmInputConfig {
    /// Assigns the gadget's cells for a call to the host's input function.
    fn assign_cells(&self, ctx: &mut Context, step: &StepInfo)
        requires
            self.wf(),
            old(ctx).offset + 40 <= i32::MAX,
            host_input_step(*step),
        ensures
            final(ctx).offset == old(ctx).offset,
            final(ctx).writes@ == old(ctx).writes@ + call_host_input_writes(*self, old(ctx).offset as int, *step),
    {
        match step {
            StepInfo::CallHost { args, ret_val, .. } => {
                let public = args[0] == 1;
                self.public.assign(ctx, public);
                match ret_val {
                    Some(v) => self.value.assign(ctx, *v),
                    None => {},
                }
                proof {
                    assert(ctx.writes@ =~= old(ctx).writes@ + call_host_input_writes(
                        *self,
                        old(ctx).offset as int,
                        *step,
                    ));
                }
            },
            _ => {},
        }
    }

    /// Assigns the step's cells, as `assign_cells` does, and the
    /// encodings `enc` of the step's stack and memory accesses to its
    /// memory table lookup cells, in order.
    pub fn assign(&self, ctx: &mut Context, step: &StepInfo, enc: &Vec<FieldValue>)
        requires
            enc.len() == 2,
            self.wf(),
            old(ctx).offset + 40 <= i32::MAX,
            host_input_step(*step),
        ensures
            final(ctx).offset == old(ctx).offset,
            final(ctx).writes@ == old(ctx).writes@ + call_host_input_writes(*self, old(ctx).offset as int, *step) + mtable_lookup_writes(
                self.lookups(),
                old(ctx).offset as int,
                enc@,
            ),
    {
        self.assign_cells(ctx, step);
        let mut cells: Vec<MTableLookupCell> = Vec::new();
        cells.push(self.lookup_read_stack);
        cells.push(self.lookup_write_stack);
        proof {
            assert(cells@ =~= self.lookups());
        }
        assign_mtable_lookups(ctx, &cells, enc);
    }

    /// The memory operations of the step beyond those of its instruction:
    /// the read of the flag and the write of the input.
    pub fn assigned_extra_mops(&self, step: &StepInfo) -> (r: u64)
        ensures
            r == 2,
    {
        2
    }

    /// Whether the step reads a public input, which moves the input index
    /// on.
    pub fn is_host_public_input(&self, step: &StepInfo) -> (r: bool)
        requires
            host_input_step(*step),
        ensures
            r == is_public_input(*step),
    {
        match step {
            StepInfo::CallHost { args, .. } => args[0] == 1,
            _ => false,
        }
    }
}

} // verus!
