//! Reduction of a formula to one truth value on an operand stack.

use crate::arity::{binary_count, lemma_arity_of_ordered, literal_count};
use crate::error::{ArityError, Error};
use crate::lexer::{lexes_to, tokenize, tokens_of};
use crate::token::{Formula, Token};
use vstd::prelude::*;

verus! {

/// The operand stack after one token, the top of the stack being the end of
/// the sequence. A literal is pushed. A connective takes its operands off
/// the top and puts its value there; of two operands the upper one is the
/// right operand. `None` where the stack holds too few operands.
pub open spec fn step(stack: Seq<bool>, token: Token) -> Option<Seq<bool>> {
    match token {
        Token::Literal(value) => Some(stack.push(value)),
        Token::UnaryOp(connective) => if stack.len() >= 1 {
            Some(stack.drop_last().push(connective.value(stack.last())))
        } else {
            None
        },
        Token::BinaryOp(connective) => if stack.len() >= 2 {
            let left = stack[stack.len() - 2];
            let right = stack[stack.len() - 1];
            Some(stack.take(stack.len() - 2).push(connective.value(left, right)))
        } else {
            None
        },
    }
}

/// The operand stack after `tokens`, taken from left to right, when it held
/// `stack` before. `None` where some connective found too few operands.
pub open spec fn reduce(tokens: Seq<Token>, stack: Seq<bool>) -> Option<Seq<bool>>
    decreases tokens.len(),
{
    if tokens.len() == 0 {
        Some(stack)
    } else {
        match step(stack, tokens[0]) {
            Some(next) => reduce(tokens.drop_first(), next),
            None => None,
        }
    }
}

/// The truth value of a token sequence: the one value that the reduction
/// from an empty stack leaves.
pub open spec fn evaluated(tokens: Seq<Token>) -> Result<bool, ArityError> {
    match reduce(tokens, Seq::empty()) {
        Some(stack) => if stack.len() == 1 {
            Ok(stack[0])
        } else {
            Err(ArityError::UnresolvedOperands)
        },
        None => Err(ArityError::StackUnderflow),
    }
}

/// What evaluating the formula written as `text` comes to: the error of
/// reading it where it cannot be read, and else the value of its tokens.
pub open spec fn evaluates_to(text: Seq<char>, outcome: Result<bool, Error>) -> bool {
    match outcome {
        Ok(value) => lexes_to(text, Ok(tokens_of(text))) && evaluated(tokens_of(text)) == Ok::<
            bool,
            ArityError,
        >(value),
        Err(Error::Arity(fault)) => lexes_to(text, Ok(tokens_of(text))) && evaluated(
            tokens_of(text),
        ) == Err::<bool, ArityError>(fault),
        Err(error) => lexes_to(text, Err(error)),
    }
}

/// Applies one token to the operand stack. Where the stack holds too few
/// operands for it, the stack is left as it is.
pub fn apply_token(stack: &mut Vec<bool>, token: Token) -> (outcome: Result<(), ArityError>)
    ensures
        match step(old(stack)@, token) {
            Some(next) => outcome is Ok && final(stack)@ == next,
            None => outcome == Err::<(), ArityError>(ArityError::StackUnderflow) && final(stack)@
                == old(stack)@,
        },
{
    match token {
        Token::Literal(value) => {
            stack.push(value);
        },
        Token::UnaryOp(connective) => {
            match stack.pop() {
                Some(operand) => {
                    stack.push(connective.apply(operand));
                },
                None => {
                    return Err(ArityError::StackUnderflow);
                },
            }
        },
        Token::BinaryOp(connective) => {
            if stack.len() < 2 {
                return Err(ArityError::StackUnderflow);
            }
            let right = stack.pop().unwrap();
            let left = stack.pop().unwrap();
            stack.push(connective.apply(left, right));
            assert(stack@ =~= old(stack)@.take(old(stack)@.len() - 2).push(
                connective.value(left, right),
            ));
        },
    }
    Ok(())
}

/// Reduces a formula to one truth value: the tokens are applied to an empty
/// operand stack from left to right, and the one value left on it is the
/// result. A formula whose literals stand first succeeds exactly when it
/// holds one literal more than it holds connectives of two operands.
pub fn evaluate(formula: &Formula) -> (outcome: Result<bool, ArityError>)
    ensures
        outcome == evaluated(formula@),
        formula.wf() ==> (outcome is Ok <==> literal_count(formula@) == binary_count(formula@)
            + 1),
{
    let mut stack: Vec<bool> = Vec::new();
    let mut i: usize = 0;
    assert(formula@.skip(0) =~= formula@);
    while i < formula.tokens.len()
        invariant
            i <= formula@.len(),
            reduce(formula@, Seq::empty()) == reduce(formula@.skip(i as int), stack@),
        decreases formula@.len() - i,
    {
        assert(formula@.skip(i as int).drop_first() =~= formula@.skip(i + 1));
        match apply_token(&mut stack, formula.tokens[i]) {
            Ok(()) => {},
            Err(fault) => {
                proof {
                    if formula.wf() {
                        lemma_arity_of_ordered(formula@);
                    }
                }
                return Err(fault);
            },
        }
        i = i + 1;
    }
    proof {
        if formula.wf() {
            lemma_arity_of_ordered(formula@);
        }
    }
    if stack.len() == 1 {
        Ok(stack[0])
    } else {
        Err(ArityError::UnresolvedOperands)
    }
}

/// Reads the formula written as `formula` and reduces it to its truth
/// value.
pub fn eval_formula(formula: &str) -> (outcome: Result<bool, Error>)
    ensures
        evaluates_to(formula@, outcome),
{
    match tokenize(formula) {
        Ok(read) => match evaluate(&read) {
            Ok(value) => Ok(value),
            Err(fault) => Err(Error::Arity(fault)),
        },
        Err(error) => Err(error),
    }
}

} // verus!
