//! Memory operands: the nine 16-bit addressing modes and their offsets.

use vstd::prelude::*;
use crate::error::ParseError;
use crate::immediate::Immediate;

verus! {

/// A memory-addressing operand. The variant name states exactly which
/// registers participate; the payload is the displacement.
#[derive(Clone, Copy, Debug, PartialEq, Eq, Structural)]
pub enum Memory {
    BXSI(Offset),
    BXDI(Offset),
    BPSI(Offset),
    BPDI(Offset),
    SI(Offset),
    DI(Offset),
    BP(Offset),
    BX(Offset),
    Offset(Offset),
}

/// A displacement, always held in the smallest sufficient width:
/// values at most 255 as `U8`, values at most 65535 as `U16`.
#[derive(Clone, Copy, Debug, PartialEq, Eq, Structural)]
pub enum Offset {
    U16(u16),
    U8(u8),
    Absent,
}

/// What narrowing a 64-bit immediate to an offset yields: the minimal
/// representation, or `TooLarge` past 16 bits.
pub open spec fn spec_offset(v: u64) -> Result<Offset, ParseError> {
    if v > 65535 {
        Err(ParseError::TooLarge)
    } else if v > 255 {
        Ok(Offset::U16(v as u16))
    } else {
        Ok(Offset::U8(v as u8))
    }
}

/// Holds of every `Offset` built by narrowing: the representation is minimal.
pub open spec fn offset_minimal(o: Offset) -> bool {
    o matches Offset::U16(w) ==> w > 255
}

/// The displacement a memory operand carries, whichever variant names it.
pub open spec fn memory_offset(m: Memory) -> Offset {
    match m {
        Memory::BXSI(o) => o,
        Memory::BXDI(o) => o,
        Memory::BPSI(o) => o,
        Memory::BPDI(o) => o,
        Memory::SI(o) => o,
        Memory::DI(o) => o,
        Memory::BP(o) => o,
        Memory::BX(o) => o,
        Memory::Offset(o) => o,
    }
}

/// A well-formed memory operand holds its displacement in the minimal width.
pub open spec fn memory_wf(m: Memory) -> bool {
    offset_minimal(memory_offset(m))
}

impl Offset {
    /// Narrow an immediate to the smallest sufficient offset width.
    pub fn try_from(value: Immediate) -> (r: Result<Offset, ParseError>)
        ensures
            r == spec_offset(value.0),
            r matches Ok(o) ==> offset_minimal(o),
    {
        let value: u64 = value.0;
        if value > 65535 {
            Err(ParseError::TooLarge)
        } else if value > 255 {
            Ok(Offset::U16(value as u16))
        } else {
            Ok(Offset::U8(value as u8))
        }
    }
}

} // verus!
