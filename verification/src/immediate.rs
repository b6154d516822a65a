//! Numeric immediate operands: parsed 64-bit scalars, not yet width-classified.

use vstd::prelude::*;

verus! {

/// An unsigned 64-bit immediate value. Width classification happens only
/// when the value is later narrowed to a memory `Offset`.
#[derive(Clone, Copy, Debug, PartialEq, Eq, Structural)]
pub struct Immediate(pub u64);

} // verus!
