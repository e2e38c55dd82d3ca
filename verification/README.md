# zkwasm_circuits

Verified models of the zkWasm prover's table circuits, written in Verus.

A circuit is described by two things: the witness values that the prover
assigns to the cells of each execution step, and the polynomial gates and
lookups that those values must satisfy. The library computes the first
(every `assign` writes into a `Context`, whose write list its contract
pins down exactly) and states the second as spec functions over integers,
a gate holding when its polynomial vanishes modulo the Pallas base field.
Laws tie the two together:

- completeness: the values assigned for a valid step satisfy the gates;
- soundness: values that satisfy the gates (and the range checks of their
  cells) carry the intended meaning, e.g. the value a load reads is the
  selected bytes of the memory blocks.

Layout of `src/circuits/`:

- `utils.rs`: field values, the assignment context, digit arithmetic, and
  the three field operations taken from `halo2_proofs` (inverse, product,
  difference).
- `step.rs`: the recorded execution steps the gadgets read.
- `etable_compact/`: the event table with blocks of twenty rows: the cell
  allocator, one module per opcode gadget (`op_configure/`), the gadgets
  the table registers and the dispatch of a step to its gadget
  (`op_configure/op_config.rs`), the assignment of every block, each step
  through its gadget and then the block's common part (`assign.rs`), and
  the table's configuration and its own gates (`gates.rs`). The encodings
  that a gadget's memory table lookup cells hold are inputs of its
  `assign`, as are the instruction encodings of the steps. A load or a
  store carries both memory blocks that it may touch, so that an access
  that crosses into the next block is assigned and proved like one within
  a block. Each gadget with constraints of its own has an executable
  checker (`*_gates_hold`) whose result is proved to be the constraint
  spec, which the tests run on the assigned values.
- `etable_v2/`: the event table with steps of four rows: its allocator and
  the assignment of the common cells.
- `jtable.rs`, `itable.rs`, `itable_checksum.rs`, `imtable.rs`,
  `imtable_checksum.rs`, `imtable_fixed.rs`, `intable.rs`,
  `external_host_call_table.rs`, `image_table.rs`: the layouts of the jump,
  instruction, initial memory, input, host call and image tables.
- `foreign/sha256_helper.rs`: the gates of the SHA-256 helper table.

Verify with Verus; the tests under `tests/` run the assignments on
concrete steps.
