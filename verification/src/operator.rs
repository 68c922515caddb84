//! The operators that an evaluator binds to names.

use crate::number::Number;
use vstd::hash_map::StringHashMap;
use vstd::prelude::*;
use vstd::std_specs::ops::{AddSpec, DivSpec, MulSpec, SubSpec};

verus! {

/// A binary operator: one of the four of arithmetic, which compute with the
/// numeric type's own operations, or a function of the caller. All the
/// functions of one table have one type `B`; a table of boxed closures holds
/// functions of any kind.
pub enum BinaryOperator<B> {
    /// The sum `a + b`.
    Add,
    /// The difference `a - b`.
    Subtract,
    /// The product `a * b`.
    Multiply,
    /// The quotient `a / b`.
    Divide,
    /// What the function gives for `a` and `b`.
    Custom(B),
}

/// A table of binary operators by name.
pub type BinaryOpList<B> = StringHashMap<BinaryOperator<B>>;

/// A table of unary operators by name.
pub type UnaryOpList<U> = StringHashMap<U>;

impl<B> BinaryOperator<B> {
    /// Whether the operator may be applied to `a` and `b`.
    pub open spec fn accepts<T>(self, a: T, b: T) -> bool where T: Number, B: Fn(T, T) -> T {
        match self {
            BinaryOperator::Add => a.add_req(b),
            BinaryOperator::Subtract => a.sub_req(b),
            BinaryOperator::Multiply => a.mul_req(b),
            BinaryOperator::Divide => a.div_req(b),
            BinaryOperator::Custom(f) => call_requires(f, (a, b)),
        }
    }

    /// Whether the operator, applied to `a` and `b`, may give `v`.
    pub open spec fn yields<T>(self, a: T, b: T, v: T) -> bool where T: Number, B: Fn(T, T) -> T {
        match self {
            BinaryOperator::Add => T::obeys_add_spec() ==> v == a.add_spec(b),
            BinaryOperator::Subtract => T::obeys_sub_spec() ==> v == a.sub_spec(b),
            BinaryOperator::Multiply => T::obeys_mul_spec() ==> v == a.mul_spec(b),
            BinaryOperator::Divide => T::obeys_div_spec() ==> v == a.div_spec(b),
            BinaryOperator::Custom(f) => call_ensures(f, (a, b), v),
        }
    }

    /// Applies the operator to `a` and `b`.
    pub fn apply<T>(&self, a: T, b: T) -> (v: T) where T: Number, B: Fn(T, T) -> T
        requires
            self.accepts(a, b),
        ensures
            self.yields(a, b, v),
    {
        match self {
            BinaryOperator::Add => a + b,
            BinaryOperator::Subtract => a - b,
            BinaryOperator::Multiply => a * b,
            BinaryOperator::Divide => a / b,
            BinaryOperator::Custom(f) => f(a, b),
        }
    }
}

/// Whether the unary operator `f` may be applied to `a`.
pub open spec fn takes<T, U: Fn(T) -> T>(f: U, a: T) -> bool {
    call_requires(f, (a,))
}

/// Whether the unary operator `f`, applied to `a`, may give `v`.
pub open spec fn gives<T, U: Fn(T) -> T>(f: U, a: T, v: T) -> bool {
    call_ensures(f, (a,), v)
}

} // verus!
