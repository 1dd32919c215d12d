//! The ways in which reading or evaluating a formula can fail.

use vstd::prelude::*;

verus! {

/// A failure of the reduction of a token sequence to one truth value.
#[derive(Clone, Copy, Debug, PartialEq, Eq, Structural)]
pub enum ArityError {
    /// Stack underflow: a connective found fewer operands than it takes.
    StackUnderflow,
    /// Unresolved operands: after the last token the operand stack held no
    /// value, or more than one.
    UnresolvedOperands,
}

/// A failure of reading or evaluating a formula.
#[derive(Clone, Copy, Debug, PartialEq, Eq, Structural)]
pub enum Error {
    /// A symbol that stands for no token, with its position in the formula.
    Lex { symbol: char, position: usize },
    /// A literal after the first connective, where only connectives may
    /// stand, with its position in the formula.
    Structure { operand: bool, position: usize },
    /// The tokens do not reduce to one truth value.
    Arity(ArityError),
}

impl Error {
    /// The position in the formula that an error of reading speaks of. An
    /// error of reduction speaks of none: for it this is -1.
    pub open spec fn position(self) -> int {
        match self {
            Error::Lex { position, .. } => position as int,
            Error::Structure { position, .. } => position as int,
            Error::Arity(_) => -1,
        }
    }
}

} // verus!
