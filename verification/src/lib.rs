//! Fixed-width bitwise computation on 32-bit words, and a small evaluator
//! of boolean formulas.
//!
//! The arithmetic half adds and multiplies words without the machine's own
//! addition and multiplication, and converts a word to its reflected binary
//! Gray code. The formula half reads a compact notation, literals followed
//! by connectives, into tokens and reduces them to one truth value.

pub mod arith;
pub mod arity;
pub mod bits;
pub mod connective;
pub mod error;
pub mod evaluator;
pub mod gray;
pub mod lexer;
pub mod token;

pub use arith::{adder, multiplier};
pub use connective::{BinaryConnective, UnaryConnective};
pub use error::{ArityError, Error};
pub use evaluator::{eval_formula, evaluate};
pub use gray::{gray_code, gray_decode};
pub use lexer::tokenize;
pub use token::{Formula, Token};
