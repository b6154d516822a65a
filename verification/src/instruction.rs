//! The uniform operand value handed to an instruction encoder.

use vstd::prelude::*;
use crate::immediate::Immediate;
use crate::memory::Memory;
use crate::register::Register;

verus! {

/// An instruction prefix; none are recognized yet.
#[derive(Clone, Copy, Debug, PartialEq, Eq, Structural)]
pub struct Prefix {}

/// The closed set of operand shapes a parser can produce, with capability
/// queries and typed accessors that yield the underlying value exactly when
/// the corresponding capability holds.
#[derive(Clone, Copy, Debug, PartialEq, Eq, Structural)]
pub enum Operand {
    Register(Register),
    Memory(Memory),
    Immediate(Immediate),
}

impl Operand {
    pub fn is_register(&self) -> (r: bool)
        ensures
            r == (self is Register),
    {
        matches!(self, Operand::Register(_))
    }

    pub fn is_memory(&self) -> (r: bool)
        ensures
            r == (self is Memory),
    {
        matches!(self, Operand::Memory(_))
    }

    pub fn is_immediate(&self) -> (r: bool)
        ensures
            r == (self is Immediate),
    {
        matches!(self, Operand::Immediate(_))
    }

    pub fn get_register(&self) -> (r: Option<Register>)
        ensures
            match self {
                Operand::Register(reg) => r == Some(*reg),
                _ => r == None::<Register>,
            },
    {
        match self {
            Operand::Register(reg) => Some(*reg),
            _ => None,
        }
    }

    pub fn get_memory(&self) -> (r: Option<Memory>)
        ensures
            match self {
                Operand::Memory(mem) => r == Some(*mem),
                _ => r == None::<Memory>,
            },
    {
        match self {
            Operand::Memory(mem) => Some(*mem),
            _ => None,
        }
    }

    pub fn get_immediate(&self) -> (r: Option<Immediate>)
        ensures
            match self {
                Operand::Immediate(imm) => r == Some(*imm),
                _ => r == None::<Immediate>,
            },
    {
        match self {
            Operand::Immediate(imm) => Some(*imm),
            _ => None,
        }
    }
}

} // verus!
