//! Expressions as trees, and what the evaluator makes of them once they
//! are written in postfix.

use crate::error::Failure;
use crate::evaluator::{conclusion, ReversePolishNotation};
use crate::number::{reads, Number};
use crate::operator::gives;
use crate::token::{is_word, lemma_tokens_of_phrase, phrase, tokens};
use vstd::prelude::*;

verus! {

/// An arithmetic expression: a literal, or an operator by its name with
/// the expressions it is applied to.
pub enum Expression {
    /// A literal, as it is written.
    Literal(Seq<char>),
    /// A unary operator by its name, and its operand.
    Unary(Seq<char>, Box<Expression>),
    /// A binary operator by its name, and its left and its right operand.
    Binary(Seq<char>, Box<Expression>, Box<Expression>),
}

impl Expression {
    /// The expression in postfix: each operator after its operands, the
    /// operands from left to right.
    pub open spec fn postfix(self) -> Seq<Seq<char>>
        decreases self,
    {
        match self {
            Expression::Literal(token) => seq![token],
            Expression::Unary(name, operand) => operand.postfix().push(name),
            Expression::Binary(name, left, right) => (left.postfix() + right.postfix()).push(
                name,
            ),
        }
    }

    /// Whether the literals and the names of the expression are words.
    pub open spec fn in_words(self) -> bool
        decreases self,
    {
        match self {
            Expression::Literal(token) => is_word(token),
            Expression::Unary(name, operand) => is_word(name) && operand.in_words(),
            Expression::Binary(name, left, right) => is_word(name) && left.in_words()
                && right.in_words(),
        }
    }

    /// The postfix form of an expression in words is made of words.
    pub proof fn lemma_postfix_in_words(self)
        requires
            self.in_words(),
        ensures
            forall|i: int| 0 <= i < self.postfix().len() ==> is_word(#[trigger] self.postfix()[i]),
        decreases self,
    {
        match self {
            Expression::Literal(token) => {},
            Expression::Unary(name, operand) => {
                operand.lemma_postfix_in_words();
                assert forall|i: int| 0 <= i < self.postfix().len() implies is_word(
                    #[trigger] self.postfix()[i],
                ) by {
                    if i < operand.postfix().len() {
                        assert(self.postfix()[i] == operand.postfix()[i]);
                    }
                }
            },
            Expression::Binary(name, left, right) => {
                left.lemma_postfix_in_words();
                right.lemma_postfix_in_words();
                assert forall|i: int| 0 <= i < self.postfix().len() implies is_word(
                    #[trigger] self.postfix()[i],
                ) by {
                    let m = left.postfix().len() as int;
                    if i < m {
                        assert(self.postfix()[i] == left.postfix()[i]);
                    } else if i < m + right.postfix().len() {
                        assert(self.postfix()[i] == right.postfix()[i - m]);
                    }
                }
            },
        }
    }
}

impl<T: Number, B: Fn(T, T) -> T, U: Fn(T) -> T> ReversePolishNotation<T, B, U> {
    /// Whether `expression` may have the value `value`: a literal what it
    /// reads as, and an operator what it gives for the values of its
    /// operands, the left one first. A literal is a token that names no
    /// operator, and a unary operator has a name that no binary one has.
    pub open spec fn denotes(&self, expression: Expression, value: T) -> bool
        decreases expression,
    {
        match expression {
            Expression::Literal(token) => {
                &&& !self.binary().contains_key(token)
                &&& !self.unary().contains_key(token)
                &&& reads::<T>(token, Some(value))
            },
            Expression::Unary(name, operand) => {
                &&& !self.binary().contains_key(name)
                &&& self.unary().contains_key(name)
                &&& exists|a: T|
                    self.denotes(*operand, a) && #[trigger] gives(self.unary()[name], a, value)
            },
            Expression::Binary(name, left, right) => {
                &&& self.binary().contains_key(name)
                &&& exists|a: T, b: T|
                    self.denotes(*left, a) && self.denotes(*right, b)
                        && #[trigger] self.binary()[name].yields(a, b, value)
            },
        }
    }

    /// Processing an expression in postfix can put its value on the stack
    /// and leave what was below as it was.
    pub proof fn lemma_postfix_run(
        &self,
        before: Seq<Seq<char>>,
        stack: Seq<T>,
        expression: Expression,
        value: T,
    )
        requires
            self.run(before, Ok(stack)),
            self.denotes(expression, value),
        ensures
            self.run(before + expression.postfix(), Ok(stack.push(value))),
        decreases expression,
    {
        let all = before + expression.postfix();
        let end = Ok::<Seq<T>, Failure>(stack.push(value));
        match expression {
            Expression::Literal(token) => {
                assert(all.drop_last() =~= before);
                assert(self.step(stack, all.last(), end));
            },
            Expression::Unary(name, operand) => {
                let a = choose|a: T|
                    self.denotes(*operand, a) && #[trigger] gives(self.unary()[name], a, value);
                self.lemma_postfix_run(before, stack, *operand, a);
                let below = stack.push(a);
                let n = below.len() as int;
                assert(all.drop_last() =~= before + operand.postfix());
                assert(below.take(n - 1).push(value) =~= stack.push(value));
                assert(gives(self.unary()[name], below[n - 1], value));
                assert(self.step(below, all.last(), end));
            },
            Expression::Binary(name, left, right) => {
                let (a, b) = choose|a: T, b: T|
                    self.denotes(*left, a) && self.denotes(*right, b) && self.binary()[name].yields(
                        a,
                        b,
                        value,
                    );
                self.lemma_postfix_run(before, stack, *left, a);
                self.lemma_postfix_run(before + left.postfix(), stack.push(a), *right, b);
                let below = stack.push(a).push(b);
                let n = below.len() as int;
                assert(all.drop_last() =~= (before + left.postfix()) + right.postfix());
                assert(below.take(n - 2).push(value) =~= stack.push(value));
                assert(self.binary()[name].yields(below[n - 2], below[n - 1], value));
                assert(self.step(below, all.last(), end));
            },
        }
    }

    /// Evaluating an expression that is written in postfix, a space between
    /// each two tokens, returns the value of the expression, where its
    /// tokens stand for functions.
    pub proof fn lemma_postfix_value(
        &self,
        expression: Expression,
        value: T,
        result: Result<T, Failure>,
    )
        requires
            self.deterministic(expression.postfix()),
            expression.in_words(),
            self.denotes(expression, value),
            self.evaluates(phrase(expression.postfix()), result),
        ensures
            result == Ok::<T, Failure>(value),
    {
        let input = phrase(expression.postfix());
        expression.lemma_postfix_in_words();
        lemma_tokens_of_phrase(expression.postfix());
        let nothing = Seq::<Seq<char>>::empty();
        let empty = Seq::<T>::empty();
        self.lemma_postfix_run(nothing, empty, expression, value);
        assert(nothing + expression.postfix() =~= expression.postfix());
        let end = Ok::<Seq<T>, Failure>(empty.push(value));
        assert(self.run(tokens(input), end) && conclusion(end) == Ok::<T, Failure>(value));
        self.lemma_evaluation_repeatable(input, result, Ok(value));
    }
}

} // verus!
