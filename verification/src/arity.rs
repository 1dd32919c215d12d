//! When a formula reduces to one truth value, told from the counts of its
//! tokens.

use crate::error::ArityError;
use crate::evaluator::{evaluated, reduce, step};
use crate::token::{literals_first, Token};
use vstd::prelude::*;

verus! {

/// The number of literals among `tokens`.
pub open spec fn literal_count(tokens: Seq<Token>) -> nat
    decreases tokens.len(),
{
    if tokens.len() == 0 {
        0
    } else if tokens[0] is Literal {
        1 + literal_count(tokens.drop_first())
    } else {
        literal_count(tokens.drop_first())
    }
}

/// The number of connectives of two operands among `tokens`.
pub open spec fn binary_count(tokens: Seq<Token>) -> nat
    decreases tokens.len(),
{
    if tokens.len() == 0 {
        0
    } else if tokens[0] is BinaryOp {
        1 + binary_count(tokens.drop_first())
    } else {
        binary_count(tokens.drop_first())
    }
}

/// Literals and connectives of two operands are distinct tokens.
proof fn lemma_counts_fit(tokens: Seq<Token>)
    ensures
        literal_count(tokens) + binary_count(tokens) <= tokens.len(),
    decreases tokens.len(),
{
    if tokens.len() > 0 {
        lemma_counts_fit(tokens.drop_first());
    }
}

/// Ordered tokens that begin with a connective hold no literal.
proof fn lemma_no_literal_after_connective(tokens: Seq<Token>)
    requires
        literals_first(tokens),
        tokens.len() > 0,
        !(tokens[0] is Literal),
    ensures
        literal_count(tokens) == 0,
    decreases tokens.len(),
{
    let rest = tokens.drop_first();
    if rest.len() > 0 {
        assert(rest[0] == tokens[1]);
        assert(tokens[1] is Literal ==> tokens[0] is Literal);
        assert forall|i: int, j: int|
            0 <= i < j < rest.len() && rest[j] is Literal implies rest[i] is Literal by {
            assert(rest[i] == tokens[i + 1] && rest[j] == tokens[j + 1]);
        }
        lemma_no_literal_after_connective(rest);
    }
    assert(literal_count(tokens) == literal_count(rest));
}

/// The depth of the operand stack after ordered tokens. Each literal adds
/// one value and each connective of two operands takes one away, so the
/// reduction from a stack of `stack.len()` values underflows exactly when a
/// connective is there and the connectives of two operands are at least as
/// many as the values that the stack and the literals bring.
pub proof fn lemma_depth_of_ordered(tokens: Seq<Token>, stack: Seq<bool>)
    requires
        literals_first(tokens),
    ensures
        reduce(tokens, stack) is None <==> literal_count(tokens) < tokens.len() && binary_count(
            tokens,
        ) >= stack.len() + literal_count(tokens),
        reduce(tokens, stack) matches Some(left) ==> left.len() == stack.len() + literal_count(
            tokens,
        ) - binary_count(tokens),
    decreases tokens.len(),
{
    if tokens.len() > 0 {
        let rest = tokens.drop_first();
        assert forall|i: int, j: int|
            0 <= i < j < rest.len() && rest[j] is Literal implies rest[i] is Literal by {
            assert(rest[i] == tokens[i + 1] && rest[j] == tokens[j + 1]);
        }
        lemma_counts_fit(rest);
        if !(tokens[0] is Literal) {
            lemma_no_literal_after_connective(tokens);
        }
        match step(stack, tokens[0]) {
            Some(next) => {
                lemma_depth_of_ordered(rest, next);
            },
            None => {},
        }
    }
}

/// An ordered formula reduces to one truth value exactly when it holds one
/// literal more than it holds connectives of two operands. It fails with a
/// stack underflow exactly when it holds a connective and its connectives of
/// two operands are at least as many as its literals. In every other case
/// operands are left unresolved.
pub proof fn lemma_arity_of_ordered(tokens: Seq<Token>)
    requires
        literals_first(tokens),
    ensures
        evaluated(tokens) is Ok <==> literal_count(tokens) == binary_count(tokens) + 1,
        evaluated(tokens) == Err::<bool, ArityError>(ArityError::StackUnderflow) <==> literal_count(
            tokens,
        ) < tokens.len() && binary_count(tokens) >= literal_count(tokens),
{
    lemma_depth_of_ordered(tokens, Seq::empty());
}

} // verus!
