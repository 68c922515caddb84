//! What holds of every evaluator: how its tables resolve, when every input
//! can be evaluated, and when an input has one result only.

use crate::error::Failure;
use crate::evaluator::{conclusion, default_binary, resolved_binary, ReversePolishNotation};
use crate::number::{reads, Number};
use crate::operator::{gives, takes, BinaryOperator};
use crate::token::tokens;
use vstd::prelude::*;
use vstd::std_specs::ops::{AddSpec, DivSpec, MulSpec, SubSpec};

verus! {

/// An operator of `extra` takes the place of any other of its name.
pub proof fn lemma_extra_prevails<B>(
    extra: Map<Seq<char>, BinaryOperator<B>>,
    replacement: Option<Map<Seq<char>, BinaryOperator<B>>>,
    name: Seq<char>,
)
    requires
        extra.contains_key(name),
    ensures
        resolved_binary(Some(extra), replacement).contains_key(name),
        resolved_binary(Some(extra), replacement)[name] == extra[name],
{
}

/// A name that `extra` does not bind keeps the operator that it has in
/// `replacement`, or among the default operators where there is no
/// replacement, and is bound only if it is bound there.
pub proof fn lemma_extra_keeps<B>(
    extra: Option<Map<Seq<char>, BinaryOperator<B>>>,
    replacement: Option<Map<Seq<char>, BinaryOperator<B>>>,
    name: Seq<char>,
)
    requires
        extra matches Some(table) ==> !table.contains_key(name),
    ensures
        ({
            let beneath = match replacement {
                Some(table) => table,
                None => default_binary(),
            };
            let table = resolved_binary(extra, replacement);
            &&& table.contains_key(name) == beneath.contains_key(name)
            &&& table.contains_key(name) ==> table[name] == beneath[name]
        }),
{
}

impl<T: Number, B: Fn(T, T) -> T, U: Fn(T) -> T> ReversePolishNotation<T, B, U> {
    /// Whether every operator of the evaluator accepts whatever it is
    /// applied to.
    pub open spec fn total(&self) -> bool {
        &&& forall|name: Seq<char>, a: T, b: T|
            self.binary().contains_key(name) ==> #[trigger] self.binary()[name].accepts(a, b)
        &&& forall|name: Seq<char>, a: T|
            self.unary().contains_key(name) ==> #[trigger] takes(self.unary()[name], a)
    }

    /// Where every operator accepts whatever it is applied to, every input
    /// can be evaluated.
    pub proof fn lemma_total_admissible(&self, tokens: Seq<Seq<char>>)
        requires
            self.total(),
        ensures
            self.admissible(tokens),
    {
    }

    /// An evaluator that was built with an empty replacement and without
    /// extras has no binary operator: a token that names no unary operator
    /// either is read as a literal, and fails as an invalid literal where it
    /// is none.
    pub proof fn lemma_empty_replacement(
        &self,
        stack: Seq<T>,
        token: Seq<char>,
        next: Result<Seq<T>, Failure>,
    )
        requires
            self.binary() == resolved_binary::<B>(None, Some(Map::empty())),
            !self.unary().contains_key(token),
            self.step(stack, token, next),
        ensures
            match next {
                Ok(after) => after.len() == stack.len() + 1 && after.drop_last() == stack
                    && reads::<T>(token, Some(after.last())),
                Err(failure) => failure == Failure::InvalidLiteral(token) && reads::<T>(
                    token,
                    None,
                ),
            },
    {
        let value = choose|value: Option<T>|
            #[trigger] reads::<T>(token, value) && next == match value {
                Some(v) => Ok::<Seq<T>, Failure>(stack.push(v)),
                None => Err::<Seq<T>, Failure>(Failure::InvalidLiteral(token)),
            };
        if let Some(v) = value {
            assert(stack.push(v).drop_last() =~= stack);
        }
    }

    /// Whether what `token` stands for is a function: applied to the same
    /// operands, the operator that it names gives the same value, and where
    /// it names none, it is read as the same literal, or as none.
    pub open spec fn functional(&self, token: Seq<char>) -> bool {
        if self.binary().contains_key(token) {
            forall|a: T, b: T, v: T, w: T|
                #[trigger] self.binary()[token].yields(a, b, v)
                    && #[trigger] self.binary()[token].yields(a, b, w) ==> v == w
        } else if self.unary().contains_key(token) {
            forall|a: T, v: T, w: T|
                #[trigger] gives(self.unary()[token], a, v)
                    && #[trigger] gives(self.unary()[token], a, w) ==> v == w
        } else {
            forall|v: Option<T>, w: Option<T>|
                #[trigger] reads::<T>(token, v) && #[trigger] reads::<T>(token, w) ==> v == w
        }
    }

    /// Whether each of `tokens` stands for a function.
    pub open spec fn deterministic(&self, tokens: Seq<Seq<char>>) -> bool {
        forall|i: int| 0 <= i < tokens.len() ==> self.functional(#[trigger] tokens[i])
    }

    /// A token that stands for a function takes a stack to one next stack,
    /// or to one failure.
    pub proof fn lemma_step_deterministic(
        &self,
        stack: Seq<T>,
        token: Seq<char>,
        first: Result<Seq<T>, Failure>,
        second: Result<Seq<T>, Failure>,
    )
        requires
            self.functional(token),
            self.step(stack, token, first),
            self.step(stack, token, second),
        ensures
            first == second,
    {
    }

    /// Tokens that stand for functions determine how their evaluation ends.
    pub proof fn lemma_run_deterministic(
        &self,
        tokens: Seq<Seq<char>>,
        first: Result<Seq<T>, Failure>,
        second: Result<Seq<T>, Failure>,
    )
        requires
            self.deterministic(tokens),
            self.run(tokens, first),
            self.run(tokens, second),
        ensures
            first == second,
        decreases tokens.len(),
    {
        if tokens.len() > 0 {
            let front = tokens.drop_last();
            let last = tokens.last();
            let before_first = if first is Err && self.run(front, first) {
                first
            } else {
                Ok(
                    choose|stack: Seq<T>|
                        self.run(front, Ok(stack)) && self.step(stack, last, first),
                )
            };
            let before_second = if second is Err && self.run(front, second) {
                second
            } else {
                Ok(
                    choose|stack: Seq<T>|
                        self.run(front, Ok(stack)) && self.step(stack, last, second),
                )
            };
            assert forall|i: int| 0 <= i < front.len() implies self.functional(
                #[trigger] front[i],
            ) by {
                assert(front[i] == tokens[i]);
            }
            self.lemma_run_deterministic(front, before_first, before_second);
            if before_first is Ok {
                self.lemma_step_deterministic(before_first->Ok_0, last, first, second);
            }
        }
    }

    /// Evaluating one input twice with one evaluator gives the same result
    /// both times, where the tokens of the input stand for functions.
    pub proof fn lemma_evaluation_repeatable(
        &self,
        input: Seq<char>,
        first: Result<T, Failure>,
        second: Result<T, Failure>,
    )
        requires
            self.deterministic(tokens(input)),
            self.evaluates(input, first),
            self.evaluates(input, second),
        ensures
            first == second,
    {
        let words = tokens(input);
        let end_first = choose|end: Result<Seq<T>, Failure>|
            self.run(words, end) && first == conclusion(end);
        let end_second = choose|end: Result<Seq<T>, Failure>|
            self.run(words, end) && second == conclusion(end);
        self.lemma_run_deterministic(words, end_first, end_second);
    }

    /// A name of an operator of arithmetic stands for a function where the
    /// arithmetic of `T` is specified.
    pub proof fn lemma_arithmetic_functional(&self, name: Seq<char>)
        requires
            self.binary().contains_key(name),
            !(self.binary()[name] is Custom),
            T::obeys_add_spec(),
            T::obeys_sub_spec(),
            T::obeys_mul_spec(),
            T::obeys_div_spec(),
        ensures
            self.functional(name),
    {
    }
}

} // verus!
