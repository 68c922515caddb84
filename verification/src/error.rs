//! The ways in which an evaluation fails.

use vstd::prelude::*;

verus! {

/// Why an evaluation failed.
#[derive(Debug, PartialEq, Eq)]
pub enum RpnError {
    /// An operator found fewer operands on the stack than it takes.
    StackUnderflow,
    /// The token is no operator and no literal of the numeric type.
    InvalidLiteral(String),
    /// The input left nothing on the stack.
    EmptyResult,
    /// The input left more than one value on the stack.
    AmbiguousResult,
}

/// What an `RpnError` says, with the offending token as a sequence of
/// characters.
pub enum Failure {
    /// An operator found fewer operands on the stack than it takes.
    StackUnderflow,
    /// The token is no operator and no literal of the numeric type.
    InvalidLiteral(Seq<char>),
    /// The input left nothing on the stack.
    EmptyResult,
    /// The input left more than one value on the stack.
    AmbiguousResult,
}

impl View for RpnError {
    type V = Failure;

    open spec fn view(&self) -> Failure {
        match self {
            RpnError::StackUnderflow => Failure::StackUnderflow,
            RpnError::InvalidLiteral(token) => Failure::InvalidLiteral(token@),
            RpnError::EmptyResult => Failure::EmptyResult,
            RpnError::AmbiguousResult => Failure::AmbiguousResult,
        }
    }
}

/// A result of the library as contracts speak of it: the error by its view.
pub open spec fn outcome<T>(result: Result<T, RpnError>) -> Result<T, Failure> {
    match result {
        Ok(value) => Ok(value),
        Err(error) => Err(error@),
    }
}

} // verus!
