use zkwasm_circuits::circuits::image_table::{ImageTableCell, ImageTableChip, ImageTableEncoder};
use zkwasm_circuits::circuits::imtable::{InitMemoryTableEntry, LocationType};
use zkwasm_circuits::circuits::utils::FieldValue;

fn fv(v: u64) -> FieldValue {
    FieldValue::from_u64(v)
}

fn enc(tag: ImageTableEncoder, v: u64) -> ImageTableCell {
    ImageTableCell::Encoded(tag, fv(v))
}

#[test]
fn test_image_table_sections_and_padding() {
    let chip = ImageTableChip { max_rows: 12 };
    let init_memory = vec![
        InitMemoryTableEntry { ltype: LocationType::Global, encoded: fv(8) },
        InitMemoryTableEntry { ltype: LocationType::Heap, encoded: fv(9) },
    ];
    let cells = chip.assign(&vec![fv(1), fv(2)], &vec![fv(3)], &vec![fv(4)], &init_memory);
    assert_eq!(
        cells,
        vec![
            enc(ImageTableEncoder::Instruction, 0),
            enc(ImageTableEncoder::Instruction, 1),
            enc(ImageTableEncoder::Instruction, 2),
            enc(ImageTableEncoder::BrTable, 0),
            enc(ImageTableEncoder::BrTable, 3),
            enc(ImageTableEncoder::BrTable, 4),
            enc(ImageTableEncoder::InitMemory, 0),
            enc(ImageTableEncoder::InitMemory, 9),
            enc(ImageTableEncoder::InitMemory, 8),
            ImageTableCell::Padding,
            ImageTableCell::Padding,
            ImageTableCell::Padding,
        ]
    );
}
