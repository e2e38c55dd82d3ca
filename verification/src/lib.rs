//! Verified models of the zkWasm event-table circuits: the witness values
//! that each opcode gadget assigns, the polynomial gates that the prover
//! must satisfy, and the laws that tie the two together.

pub mod circuits;
