//! The gadget of `call`: the step jumps to the first instruction of the
//! called function, whose index the opcode carries.

use vstd::prelude::*;
use crate::circuits::etable_compact::op_configure::{
    common_range_cell_ok, common_range_writes, CommonRangeCell, EventTableCellAllocator, JTableLookupCell,
};
use crate::circuits::etable_compact::{Status, COL_AUX, COL_STATE, ETABLE_STEP_SIZE};
use crate::circuits::step::StepInfo;
use crate::circuits::utils::{CellWrite, Context};

verus! {

/// The cells of the gadget.
#[derive(Clone, Copy, Debug, PartialEq, Eq, Structural)]
pub struct CallConfig {
    pub index: CommonRangeCell,
    pub frame_table_lookup: JTableLookupCell,
}

/// Builds the gadget.
pub struct CallConfigBuilder {}

/// The cells that the gadget takes from an allocator in state `a`.
pub open spec fn call_layout(a: EventTableCellAllocator) -> CallConfig {
    CallConfig {
        index: CommonRangeCell { col: COL_STATE, rot: a.common_range_index },
        frame_table_lookup: JTableLookupCell { col: COL_AUX, rot: a.jtable_lookup_index },
    }
}

impl CallConfigBuilder {
    /// Takes the gadget's cells from the allocator of its block.
    pub fn configure(common: &mut EventTableCellAllocator) -> (r: CallConfig)
        requires
            old(common).wf(),
            old(common).common_range_index + 1 <= ETABLE_STEP_SIZE,
            old(common).jtable_lookup_index < 2,
        ensures
            r == call_layout(*old(common)),
            common_range_cell_ok(r.index),
            final(common).wf(),
    {
        let index = common.alloc_common_range_value();
        let frame_table_lookup = common.alloc_jtable_lookup();
        CallConfig { index, frame_table_lookup }
    }
}

/// The state in which a call to function `index` leaves the machine: in
/// that function, at its first instruction.
pub open spec fn call_next_status(next: Status, index: int) -> bool {
    &&& next.fid == index
    &&& next.iid == 0
}

impl CallConfig {
    /// Assigns the index of the called function.
    pub fn assign(&self, ctx: &mut Context, step: &StepInfo)
        requires
            common_range_cell_ok(self.index),
            old(ctx).offset + 40 <= i32::MAX,
            step is Call,
            step->Call_index < 0x10000,
        ensures
            final(ctx).offset == old(ctx).offset,
            final(ctx).writes@ == old(ctx).writes@ + common_range_writes(
                self.index,
                old(ctx).offset as int,
                step->Call_index as u16,
            ),
    {
        let index: u32 = match step {
            StepInfo::Call { index } => *index,
            _ => 0,
        };
        self.index.assign(ctx, index as u16);
    }
}

} // verus!
