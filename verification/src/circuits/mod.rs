//! The circuits of the zkWasm prover.

pub mod etable_compact;
pub mod etable_v2;
pub mod external_host_call_table;
pub mod foreign;
pub mod image_table;
pub mod imtable;
pub mod imtable_checksum;
pub mod imtable_fixed;
pub mod intable;
pub mod itable;
pub mod itable_checksum;
pub mod jtable;
pub mod step;
pub mod utils;
