//! A calculator for expressions in reverse Polish notation: an evaluator
//! binds names to operators over a numeric type of the caller's choice and
//! evaluates whitespace-separated postfix expressions on a stack.
//!
//! `ReversePolishNotation::base` builds an evaluator with the operators of
//! arithmetic, `ReversePolishNotation::extended` one with operators of the
//! caller, and `ReversePolishNotation::parse` evaluates an input. What an
//! evaluation may return is the relation `evaluates`; `laws` and `expression`
//! prove what follows from it.

pub mod error;
pub mod evaluator;
pub mod expression;
pub mod laws;
pub mod number;
pub mod operator;
pub mod token;

pub use crate::error::RpnError;
pub use crate::evaluator::ReversePolishNotation;
pub use crate::number::Number;
pub use crate::operator::{BinaryOpList, BinaryOperator, UnaryOpList};
