//! The gadget of the SHA-256 host call, which has no cells of its own: the
//! step's work is left to the SHA-256 helper table.

use vstd::prelude::*;

verus! {

/// The cells of the gadget: none.
#[derive(Clone, Copy, Debug, PartialEq, Eq, Structural)]
pub struct CallHostSha256Config {}

/// Builds the gadget.
pub struct CallHostSha256ConfigBuilder {}

} // verus!
