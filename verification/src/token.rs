//! Tokens, and formulas as sequences of tokens.

use crate::connective::{BinaryConnective, UnaryConnective};
use vstd::prelude::*;

verus! {

/// One element of a formula.
#[derive(Clone, Copy, Debug, PartialEq, Eq, Structural)]
pub enum Token {
    /// A truth value.
    Literal(bool),
    /// A connective of one operand.
    UnaryOp(UnaryConnective),
    /// A connective of two operands.
    BinaryOp(BinaryConnective),
}

/// Every literal of `tokens` stands before every connective.
pub open spec fn literals_first(tokens: Seq<Token>) -> bool {
    forall|i: int, j: int|
        0 <= i < j < tokens.len() && tokens[j] is Literal ==> tokens[i] is Literal
}

/// The tokens of a formula, in the order in which they were read.
#[derive(Debug, PartialEq, Eq)]
pub struct Formula {
    pub tokens: Vec<Token>,
}

impl View for Formula {
    type V = Seq<Token>;

    open spec fn view(&self) -> Seq<Token> {
        self.tokens@
    }
}

impl Clone for Formula {
    fn clone(&self) -> (copy: Self)
        ensures
            copy@ == self@,
    {
        let mut tokens: Vec<Token> = Vec::new();
        let mut i: usize = 0;
        while i < self.tokens.len()
            invariant
                i <= self.tokens.len(),
                tokens@ == self.tokens@.take(i as int),
            decreases self.tokens.len() - i,
        {
            tokens.push(self.tokens[i]);
            assert(tokens@ =~= self.tokens@.take(i + 1));
            i = i + 1;
        }
        assert(self.tokens@.take(i as int) =~= self.tokens@);
        Formula { tokens }
    }
}

impl Formula {
    /// The formula is a run of literals followed by a run of connectives.
    pub open spec fn wf(&self) -> bool {
        literals_first(self@)
    }
}

} // verus!
