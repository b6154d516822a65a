//! Recognizer for textual operands of a 16-bit x86-style assembly dialect:
//! register aliases, memory-addressing expressions and numeric immediates.
//! Every parser is a pure function of its input slice; its result is pinned
//! to a specification-level grammar stated over `Seq<char>`.

pub mod error;
pub mod immediate;
pub mod instruction;
pub mod memory;
pub mod parser;
pub mod properties;
pub mod register;
