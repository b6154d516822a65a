//! The four failure kinds of the operand grammar, returned as values.

use vstd::prelude::*;

verus! {

/// How a parse attempt failed.
///
/// - `Tag`: no alternative of an alternation matched the input.
/// - `Malformed`: a digit run was empty, held a stray character, or exceeded
///   the 64-bit range during radix conversion.
/// - `TooLarge`: a normalized offset value exceeded 16 bits.
/// - `Verify`: a structurally well-formed memory expression used a register
///   that is illegal for its position.
#[derive(Clone, Copy, Debug, PartialEq, Eq, Structural)]
pub enum ParseError {
    Tag,
    Malformed,
    TooLarge,
    Verify,
}

impl ParseError {
    /// A human-readable reason, enough to tell the four kinds apart.
    pub fn message(&self) -> (r: &'static str)
        ensures
            r@ == self.spec_message(),
    {
        match self {
            ParseError::Tag => "no alternative matched",
            ParseError::Malformed => "malformed numeric literal",
            ParseError::TooLarge => "offset too large",
            ParseError::Verify => "register not legal in this position",
        }
    }

    pub open spec fn spec_message(self) -> Seq<char> {
        match self {
            ParseError::Tag => "no alternative matched"@,
            ParseError::Malformed => "malformed numeric literal"@,
            ParseError::TooLarge => "offset too large"@,
            ParseError::Verify => "register not legal in this position"@,
        }
    }
}

} // verus!
