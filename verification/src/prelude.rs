//! The whole system: a registry of transceivers and its front ends.

use vstd::prelude::*;

verus! {

/// The system; starting it connects its front ends, which is I/O.
pub struct TwoMeatSystem;

} // verus!
