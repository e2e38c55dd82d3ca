//! The image table: the program's instructions, then its branch and
//! element tables, then its initial memory, heap before globals, each
//! section opened by an entry of zero under the section's tag, and the rest
//! of the table's rows padded with zeros.

use vstd::prelude::*;
use crate::circuits::imtable::{filter_located, located, InitMemoryTableEntry, LocationType};
use crate::circuits::utils::{fv_u64, FieldValue};

verus! {

/// The tag under which a section's entries are encoded.
#[derive(Clone, Copy, Debug, PartialEq, Eq, Structural)]
pub enum ImageTableEncoder {
    Instruction,
    BrTable,
    InitMemory,
}

/// A cell of the table: an entry's encoding under a section's tag, or a
/// padding zero.
#[derive(Clone, Copy, Debug, PartialEq, Eq, Structural)]
pub enum ImageTableCell {
    Encoded(ImageTableEncoder, FieldValue),
    Padding,
}

/// The cells of a section: each entry under the tag.
pub open spec fn tagged(tag: ImageTableEncoder, entries: Seq<FieldValue>) -> Seq<ImageTableCell> {
    entries.map_values(|v: FieldValue| ImageTableCell::Encoded(tag, v))
}

/// The cells of the image before the padding: each section opened by a
/// zero under its tag.
pub open spec fn image_cells(
    instructions: Seq<FieldValue>,
    br_table: Seq<FieldValue>,
    elem_table: Seq<FieldValue>,
    init_memory: Seq<InitMemoryTableEntry>,
) -> Seq<ImageTableCell> {
    seq![ImageTableCell::Encoded(ImageTableEncoder::Instruction, fv_u64(0))] + tagged(
        ImageTableEncoder::Instruction,
        instructions,
    ) + seq![ImageTableCell::Encoded(ImageTableEncoder::BrTable, fv_u64(0))] + tagged(
        ImageTableEncoder::BrTable,
        br_table,
    ) + tagged(ImageTableEncoder::BrTable, elem_table) + seq![
        ImageTableCell::Encoded(ImageTableEncoder::InitMemory, fv_u64(0)),
    ] + tagged(ImageTableEncoder::InitMemory, located(init_memory, LocationType::Heap)) + tagged(
        ImageTableEncoder::InitMemory,
        located(init_memory, LocationType::Global),
    )
}

/// Where each entry stands in the image: the zero that opens the
/// instructions at row zero and instruction `i` at row `1 + i`; then the
/// zero that opens the branch tables, branch table entry `j`, and after
/// them element `k`; then the zero that opens the initial memory, heap
/// entry `h` in the order of the entries, and after the heap global entry
/// `g` in the order of the entries; each under its section's tag.
pub proof fn lemma_image_cells_positions(
    instructions: Seq<FieldValue>,
    br_table: Seq<FieldValue>,
    elem_table: Seq<FieldValue>,
    init_memory: Seq<InitMemoryTableEntry>,
)
    ensures
        ({
            let c = image_cells(instructions, br_table, elem_table, init_memory);
            let ni = instructions.len() as int;
            let nb = br_table.len() as int;
            let ne = elem_table.len() as int;
            let heap = located(init_memory, LocationType::Heap);
            let global = located(init_memory, LocationType::Global);
            &&& c.len() == 3 + ni + nb + ne + heap.len() + global.len()
            &&& c[0] == ImageTableCell::Encoded(ImageTableEncoder::Instruction, fv_u64(0))
            &&& (forall|i: int| 0 <= i < ni ==> c[1 + i] == ImageTableCell::Encoded(ImageTableEncoder::Instruction, #[trigger] instructions[i]))
            &&& c[1 + ni] == ImageTableCell::Encoded(ImageTableEncoder::BrTable, fv_u64(0))
            &&& (forall|j: int| 0 <= j < nb ==> c[2 + ni + j] == ImageTableCell::Encoded(ImageTableEncoder::BrTable, #[trigger] br_table[j]))
            &&& (forall|k: int| 0 <= k < ne ==> c[2 + ni + nb + k] == ImageTableCell::Encoded(ImageTableEncoder::BrTable, #[trigger] elem_table[k]))
            &&& c[2 + ni + nb + ne] == ImageTableCell::Encoded(ImageTableEncoder::InitMemory, fv_u64(0))
            &&& (forall|h: int| 0 <= h < heap.len() ==> c[3 + ni + nb + ne + h] == ImageTableCell::Encoded(ImageTableEncoder::InitMemory, #[trigger] heap[h]))
            &&& (forall|g: int| 0 <= g < global.len() ==> c[3 + ni + nb + ne + heap.len() + g] == ImageTableCell::Encoded(ImageTableEncoder::InitMemory, #[trigger] global[g]))
        }),
{
    let c = image_cells(instructions, br_table, elem_table, init_memory);
    let heap = located(init_memory, LocationType::Heap);
    let global = located(init_memory, LocationType::Global);
    let s0 = seq![ImageTableCell::Encoded(ImageTableEncoder::Instruction, fv_u64(0))];
    let s1 = tagged(ImageTableEncoder::Instruction, instructions);
    let s2 = seq![ImageTableCell::Encoded(ImageTableEncoder::BrTable, fv_u64(0))];
    let s3 = tagged(ImageTableEncoder::BrTable, br_table);
    let s4 = tagged(ImageTableEncoder::BrTable, elem_table);
    let s5 = seq![ImageTableCell::Encoded(ImageTableEncoder::InitMemory, fv_u64(0))];
    let s6 = tagged(ImageTableEncoder::InitMemory, heap);
    let s7 = tagged(ImageTableEncoder::InitMemory, global);
    assert(c == s0 + s1 + s2 + s3 + s4 + s5 + s6 + s7);
    let ni = instructions.len() as int;
    let nb = br_table.len() as int;
    let ne = elem_table.len() as int;
    assert forall|i: int| 0 <= i < ni implies c[1 + i] == ImageTableCell::Encoded(ImageTableEncoder::Instruction, #[trigger] instructions[i]) by {
        assert(s1[i] == ImageTableCell::Encoded(ImageTableEncoder::Instruction, instructions[i]));
    }
    assert forall|j: int| 0 <= j < nb implies c[2 + ni + j] == ImageTableCell::Encoded(ImageTableEncoder::BrTable, #[trigger] br_table[j]) by {
        assert(s3[j] == ImageTableCell::Encoded(ImageTableEncoder::BrTable, br_table[j]));
    }
    assert forall|k: int| 0 <= k < ne implies c[2 + ni + nb + k] == ImageTableCell::Encoded(ImageTableEncoder::BrTable, #[trigger] elem_table[k]) by {
        assert(s4[k] == ImageTableCell::Encoded(ImageTableEncoder::BrTable, elem_table[k]));
    }
    assert forall|h: int| 0 <= h < heap.len() implies c[3 + ni + nb + ne + h] == ImageTableCell::Encoded(ImageTableEncoder::InitMemory, #[trigger] heap[h]) by {
        assert(s6[h] == ImageTableCell::Encoded(ImageTableEncoder::InitMemory, heap[h]));
    }
    assert forall|g: int| 0 <= g < global.len() implies c[3 + ni + nb + ne + heap.len() + g] == ImageTableCell::Encoded(ImageTableEncoder::InitMemory, #[trigger] global[g]) by {
        assert(s7[g] == ImageTableCell::Encoded(ImageTableEncoder::InitMemory, global[g]));
    }
}

/// The table's size.
#[derive(Clone, Copy, Debug, PartialEq, Eq, Structural)]
pub struct ImageTableChip {
    pub max_rows: usize,
}

/// Appends the entries of a section under its tag.
fn push_tagged(ret: &mut Vec<ImageTableCell>, tag: ImageTableEncoder, entries: &Vec<FieldValue>)
    ensures
        final(ret)@ == old(ret)@ + tagged(tag, entries@),
{
    let ghost r0 = ret@;
    let mut i: usize = 0;
    while i < entries.len()
        invariant
            i <= entries.len(),
            ret@ == r0 + tagged(tag, entries@.subrange(0, i as int)),
        decreases entries.len() - i,
    {
        ret.push(ImageTableCell::Encoded(tag, entries[i]));
        proof {
            assert(tagged(tag, entries@.subrange(0, i as int + 1)) =~= tagged(tag, entries@.subrange(0, i as int)).push(
                ImageTableCell::Encoded(tag, entries@[i as int]),
            ));
        }
        i = i + 1;
    }
    proof {
        assert(entries@.subrange(0, entries.len() as int) =~= entries@);
    }
}

impl ImageTableChip {
    /// The cells of the image table of a program with the instructions,
    /// branch table, element table and initial memory given by their
    /// entries' encodings, padded with zeros to the table's size, which the
    /// image must stay below.
    pub fn assign(
        &self,
        instructions: &Vec<FieldValue>,
        br_table: &Vec<FieldValue>,
        elem_table: &Vec<FieldValue>,
        init_memory: &Vec<InitMemoryTableEntry>,
    ) -> (r: Vec<ImageTableCell>)
        requires
            image_cells(instructions@, br_table@, elem_table@, init_memory@).len() < self.max_rows,
        ensures
            r@.len() == self.max_rows,
            r@.subrange(0, image_cells(instructions@, br_table@, elem_table@, init_memory@).len() as int)
                == image_cells(instructions@, br_table@, elem_table@, init_memory@),
            forall|i: int|
                image_cells(instructions@, br_table@, elem_table@, init_memory@).len() <= i < self.max_rows
                    ==> #[trigger] r@[i] == ImageTableCell::Padding,
    {
        let ghost cells = image_cells(instructions@, br_table@, elem_table@, init_memory@);
        let mut ret: Vec<ImageTableCell> = Vec::new();
        ret.push(ImageTableCell::Encoded(ImageTableEncoder::Instruction, FieldValue::from_u64(0)));
        push_tagged(&mut ret, ImageTableEncoder::Instruction, instructions);
        ret.push(ImageTableCell::Encoded(ImageTableEncoder::BrTable, FieldValue::from_u64(0)));
        push_tagged(&mut ret, ImageTableEncoder::BrTable, br_table);
        push_tagged(&mut ret, ImageTableEncoder::BrTable, elem_table);
        ret.push(ImageTableCell::Encoded(ImageTableEncoder::InitMemory, FieldValue::from_u64(0)));
        let heap = filter_located(init_memory, LocationType::Heap);
        let global = filter_located(init_memory, LocationType::Global);
        push_tagged(&mut ret, ImageTableEncoder::InitMemory, &heap);
        push_tagged(&mut ret, ImageTableEncoder::InitMemory, &global);
        proof {
            assert(ret@ =~= cells);
        }
        let n = ret.len();
        while ret.len() < self.max_rows
            invariant
                n == cells.len(),
                n <= ret.len() <= self.max_rows,
                ret@.subrange(0, n as int) == cells,
                forall|i: int| n <= i < ret.len() ==> #[trigger] ret@[i] == ImageTableCell::Padding,
            decreases self.max_rows - ret.len(),
        {
            let ghost before = ret@;
            ret.push(ImageTableCell::Padding);
            proof {
                assert(ret@.subrange(0, n as int) =~= before.subrange(0, n as int));
            }
        }
        ret
    }
}

} // verus!
