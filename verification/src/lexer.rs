//! Reading a formula from its compact notation: literals first, then
//! connectives.

use crate::connective::{BinaryConnective, UnaryConnective};
use crate::error::Error;
use crate::token::{literals_first, Formula, Token};
use vstd::prelude::*;
use vstd::std_specs::iter::IteratorSpec;

verus! {

/// The token that a symbol stands for, if it stands for one.
pub open spec fn symbol_token(symbol: char) -> Option<Token> {
    if symbol == '1' {
        Some(Token::Literal(true))
    } else if symbol == '0' {
        Some(Token::Literal(false))
    } else if symbol == '!' {
        Some(Token::UnaryOp(UnaryConnective::Negation))
    } else if symbol == '&' {
        Some(Token::BinaryOp(BinaryConnective::Conjunction))
    } else if symbol == '|' {
        Some(Token::BinaryOp(BinaryConnective::Disjunction))
    } else if symbol == '^' {
        Some(Token::BinaryOp(BinaryConnective::ExclusiveDisjunction))
    } else if symbol == '>' {
        Some(Token::BinaryOp(BinaryConnective::MaterialCondition))
    } else if symbol == '=' {
        Some(Token::BinaryOp(BinaryConnective::LogicalEvidence))
    } else {
        None
    }
}

/// The symbol stands for a literal.
pub open spec fn is_literal_symbol(symbol: char) -> bool {
    symbol == '0' || symbol == '1'
}

/// Position `p` of `text` lies in the connective suffix: a symbol that is no
/// literal stands at `p` or before it.
pub open spec fn in_suffix(text: Seq<char>, p: int) -> bool {
    exists|j: int| 0 <= j <= p && !is_literal_symbol(#[trigger] text[j])
}

/// The symbol at position `p` of `text` cannot be read there: it stands for
/// no token, or it is a literal in the connective suffix.
pub open spec fn fault_at(text: Seq<char>, p: int) -> bool {
    &&& 0 <= p < text.len()
    &&& (symbol_token(text[p]) is None || (is_literal_symbol(text[p]) && in_suffix(text, p)))
}

/// Position `p` is the first one of `text` whose symbol cannot be read.
pub open spec fn first_fault(text: Seq<char>, p: int) -> bool {
    &&& fault_at(text, p)
    &&& forall|q: int| 0 <= q < p ==> !fault_at(text, q)
}

/// The error that reports the fault at position `p` of `text`.
pub open spec fn fault_error(text: Seq<char>, p: int) -> Error {
    if is_literal_symbol(text[p]) {
        Error::Structure { operand: text[p] == '1', position: p as usize }
    } else {
        Error::Lex { symbol: text[p], position: p as usize }
    }
}

/// The tokens that the symbols of `text` stand for, one for one.
pub open spec fn tokens_of(text: Seq<char>) -> Seq<Token> {
    Seq::new(text.len(), |i: int| symbol_token(text[i])->0)
}

/// What reading `text` comes to: its tokens where every symbol can be read,
/// and else the error for the first symbol that cannot.
pub open spec fn lexes_to(text: Seq<char>, outcome: Result<Seq<Token>, Error>) -> bool {
    match outcome {
        Ok(tokens) => tokens == tokens_of(text) && forall|p: int| !fault_at(text, p),
        Err(error) => first_fault(text, error.position()) && error == fault_error(
            text,
            error.position(),
        ),
    }
}

/// Reading a text has one outcome.
pub proof fn lemma_lexes_to_one_outcome(
    text: Seq<char>,
    a: Result<Seq<Token>, Error>,
    b: Result<Seq<Token>, Error>,
)
    requires
        lexes_to(text, a),
        lexes_to(text, b),
    ensures
        a == b,
{
    if a is Err && b is Err {
        let p = a->Err_0.position();
        let q = b->Err_0.position();
        assert(p == q) by {
            if p < q {
                assert(!fault_at(text, p));
            } else if q < p {
                assert(!fault_at(text, q));
            }
        }
    }
}

/// Reads one symbol.
pub fn lex_symbol(symbol: char) -> (token: Option<Token>)
    ensures
        token == symbol_token(symbol),
{
    match symbol {
        '1' => Some(Token::Literal(true)),
        '0' => Some(Token::Literal(false)),
        '!' => Some(Token::UnaryOp(UnaryConnective::Negation)),
        '&' => Some(Token::BinaryOp(BinaryConnective::Conjunction)),
        '|' => Some(Token::BinaryOp(BinaryConnective::Disjunction)),
        '^' => Some(Token::BinaryOp(BinaryConnective::ExclusiveDisjunction)),
        '>' => Some(Token::BinaryOp(BinaryConnective::MaterialCondition)),
        '=' => Some(Token::BinaryOp(BinaryConnective::LogicalEvidence)),
        _ => None,
    }
}

/// Reads a formula: a run of literals, `1` for true and `0` for false,
/// followed by a run of connectives, `!` `&` `|` `^` `>` `=`. Reading stops
/// at the first symbol that cannot be read where it stands: one that stands
/// for no token, or a literal after the first connective.
pub fn tokenize(formula: &str) -> (outcome: Result<Formula, Error>)
    ensures
        match outcome {
            Ok(read) => lexes_to(formula@, Ok(read@)) && read.wf(),
            Err(error) => lexes_to(formula@, Err(error)),
        },
{
    broadcast use vstd::string::group_string_axioms;

    let ghost text = formula@;
    let mut tokens: Vec<Token> = Vec::new();
    let mut suffix = false;
    let mut chars = formula.chars();
    assert(text.skip(0) =~= text);
    loop
        invariant
            text == formula@,
            tokens.len() <= text.len(),
            chars.remaining() == text.skip(tokens.len() as int),
            tokens@ == tokens_of(text.take(tokens.len() as int)),
            forall|q: int| 0 <= q < tokens.len() ==> !fault_at(text, q),
            suffix <==> exists|j: int|
                0 <= j < tokens.len() && !is_literal_symbol(#[trigger] text[j]),
        decreases text.len() - tokens.len(),
    {
        let position = tokens.len();
        match chars.next() {
            None => {
                proof {
                    assert(text.take(position as int) =~= text);
                    lemma_readable_text_is_ordered(text);
                }
                return Ok(Formula { tokens });
            },
            Some(symbol) => {
                assert(symbol == text[position as int]);
                assert(text.skip(position as int).drop_first() =~= text.skip(position + 1));
                match lex_symbol(symbol) {
                    None => {
                        assert(first_fault(text, position as int));
                        return Err(Error::Lex { symbol, position });
                    },
                    Some(Token::Literal(operand)) => {
                        if suffix {
                            assert(in_suffix(text, position as int));
                            assert(first_fault(text, position as int));
                            return Err(Error::Structure { operand, position });
                        }
                        tokens.push(Token::Literal(operand));
                    },
                    Some(connective) => {
                        suffix = true;
                        tokens.push(connective);
                    },
                }
                assert(tokens@ =~= tokens_of(text.take(position + 1)));
            },
        }
    }
}

/// Where every symbol of a text can be read, the literals among its tokens
/// stand before the connectives.
pub proof fn lemma_readable_text_is_ordered(text: Seq<char>)
    requires
        forall|p: int| !fault_at(text, p),
    ensures
        literals_first(tokens_of(text)),
{
    let tokens = tokens_of(text);
    assert forall|i: int, j: int|
        0 <= i < j < tokens.len() && tokens[j] is Literal implies tokens[i] is Literal by {
        assert(!fault_at(text, i) && !fault_at(text, j));
        assert(is_literal_symbol(text[j]));
        if !is_literal_symbol(text[i]) {
            assert(in_suffix(text, j));
        }
    }
}

} // verus!
