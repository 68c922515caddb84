//! The registry of operators and the evaluation of postfix expressions.

use crate::error::{outcome, Failure, RpnError};
use crate::number::{reads, Number};
use crate::operator::{gives, takes, BinaryOpList, BinaryOperator, UnaryOpList};
use crate::token::{split_whitespace, tokens, views};
use core::marker::PhantomData;
use vstd::hash_map::StringHashMap;
use vstd::prelude::*;

verus! {

/// An evaluator of postfix expressions over the numeric type `T`. It binds
/// names to binary operators, built in or of type `B`, and to unary operators
/// of type `U`, and it does not change once it is built.
#[verifier::reject_recursive_types(B)]
#[verifier::reject_recursive_types(U)]
pub struct ReversePolishNotation<T, B, U> {
    binary_operators: BinaryOpList<B>,
    unary_operators: UnaryOpList<U>,
    number: PhantomData<T>,
}

/// The binary operators that an evaluator has where the caller names no
/// others: those of arithmetic, with `x` as a second name for `*`.
pub open spec fn default_binary<B>() -> Map<Seq<char>, BinaryOperator<B>> {
    map![
        seq!['+'] => BinaryOperator::Add,
        seq!['-'] => BinaryOperator::Subtract,
        seq!['/'] => BinaryOperator::Divide,
        seq!['*'] => BinaryOperator::Multiply,
        seq!['x'] => BinaryOperator::Multiply,
    ]
}

/// The default table name by name: `+` adds, `-` subtracts, `/` divides,
/// and `*` and `x` multiply.
pub proof fn lemma_default_binary<B>()
    ensures
        default_binary::<B>().dom() == set![
            seq!['+'],
            seq!['-'],
            seq!['/'],
            seq!['*'],
            seq!['x'],
        ],
        default_binary::<B>()[seq!['+']] == BinaryOperator::<B>::Add,
        default_binary::<B>()[seq!['-']] == BinaryOperator::<B>::Subtract,
        default_binary::<B>()[seq!['/']] == BinaryOperator::<B>::Divide,
        default_binary::<B>()[seq!['*']] == BinaryOperator::<B>::Multiply,
        default_binary::<B>()[seq!['x']] == BinaryOperator::<B>::Multiply,
{
    assert(seq!['+'][0] == '+');
    assert(seq!['-'][0] == '-');
    assert(seq!['/'][0] == '/');
    assert(seq!['*'][0] == '*');
    assert(seq!['x'][0] == 'x');
    assert(default_binary::<B>().dom() =~= set![
        seq!['+'],
        seq!['-'],
        seq!['/'],
        seq!['*'],
        seq!['x'],
    ]);
}

/// What a table that may be absent holds.
pub open spec fn entries<V>(table: Option<StringHashMap<V>>) -> Option<Map<Seq<char>, V>> {
    match table {
        Some(table) => Some(table@),
        None => None,
    }
}

/// The binary table of an evaluator built from `extra` and `replacement`:
/// `replacement`, or the default operators where there is none, with each
/// entry of `extra` put on top.
pub open spec fn resolved_binary<B>(
    extra: Option<Map<Seq<char>, BinaryOperator<B>>>,
    replacement: Option<Map<Seq<char>, BinaryOperator<B>>>,
) -> Map<Seq<char>, BinaryOperator<B>> {
    let table = match replacement {
        Some(table) => table,
        None => default_binary(),
    };
    match extra {
        Some(extra) => table.union_prefer_right(extra),
        None => table,
    }
}

/// The unary table of an evaluator built from `unary`.
pub open spec fn resolved_unary<U>(unary: Option<Map<Seq<char>, U>>) -> Map<Seq<char>, U> {
    match unary {
        Some(table) => table,
        None => Map::empty(),
    }
}

/// What an evaluation returns that ends with `end`: the failure, if it
/// failed, and else the one value on the stack.
pub open spec fn conclusion<T>(end: Result<Seq<T>, Failure>) -> Result<T, Failure> {
    match end {
        Err(failure) => Err(failure),
        Ok(stack) => if stack.len() == 1 {
            Ok(stack[0])
        } else if stack.len() == 0 {
            Err(Failure::EmptyResult)
        } else {
            Err(Failure::AmbiguousResult)
        },
    }
}

/// A table of the default operators.
fn default_operators<B>() -> (table: BinaryOpList<B>)
    ensures
        table@ == default_binary::<B>(),
{
    let mut table: BinaryOpList<B> = StringHashMap::new();
    proof {
        reveal_strlit("+");
        reveal_strlit("-");
        reveal_strlit("/");
        reveal_strlit("*");
        reveal_strlit("x");
        assert("+"@ =~= seq!['+']);
        assert("-"@ =~= seq!['-']);
        assert("/"@ =~= seq!['/']);
        assert("*"@ =~= seq!['*']);
        assert("x"@ =~= seq!['x']);
    }
    table.insert("+".to_owned(), BinaryOperator::Add);
    table.insert("-".to_owned(), BinaryOperator::Subtract);
    table.insert("/".to_owned(), BinaryOperator::Divide);
    table.insert("*".to_owned(), BinaryOperator::Multiply);
    table.insert("x".to_owned(), BinaryOperator::Multiply);
    table
}

/// The result of an evaluation that ends with `stack`.
pub fn conclude<T>(stack: Vec<T>) -> (result: Result<T, RpnError>)
    ensures
        outcome(result) == conclusion(Ok::<Seq<T>, Failure>(stack@)),
{
    let mut stack = stack;
    if stack.len() == 1 {
        match stack.pop() {
            Some(value) => Ok(value),
            None => Err(RpnError::EmptyResult),
        }
    } else if stack.len() == 0 {
        Err(RpnError::EmptyResult)
    } else {
        Err(RpnError::AmbiguousResult)
    }
}

impl<T: Number, B: Fn(T, T) -> T, U: Fn(T) -> T> ReversePolishNotation<T, B, U> {
    /// The binary operators by name.
    pub closed spec fn binary(&self) -> Map<Seq<char>, BinaryOperator<B>> {
        self.binary_operators@
    }

    /// The unary operators by name.
    pub closed spec fn unary(&self) -> Map<Seq<char>, U> {
        self.unary_operators@
    }

    /// Whether `token` may be processed on `stack`: where it names an
    /// operator and the stack holds its operands, the operator accepts them.
    pub open spec fn accepts(&self, stack: Seq<T>, token: Seq<char>) -> bool {
        let n = stack.len() as int;
        if self.binary().contains_key(token) {
            n >= 2 ==> self.binary()[token].accepts(stack[n - 2], stack[n - 1])
        } else if self.unary().contains_key(token) {
            n >= 1 ==> takes(self.unary()[token], stack[n - 1])
        } else {
            true
        }
    }

    /// Whether processing `token` on `stack` may give `next`. A name of a
    /// binary operator comes first, then a name of a unary operator, and any
    /// other token is read as a literal. An operator takes its operands from
    /// the end of the stack, the last of them on top, and leaves its value
    /// in their place.
    pub open spec fn step(
        &self,
        stack: Seq<T>,
        token: Seq<char>,
        next: Result<Seq<T>, Failure>,
    ) -> bool {
        let n = stack.len() as int;
        if self.binary().contains_key(token) {
            if n < 2 {
                next == Err::<Seq<T>, Failure>(Failure::StackUnderflow)
            } else {
                exists|v: T|
                    #[trigger] self.binary()[token].yields(stack[n - 2], stack[n - 1], v)
                        && next == Ok::<Seq<T>, Failure>(stack.take(n - 2).push(v))
            }
        } else if self.unary().contains_key(token) {
            if n < 1 {
                next == Err::<Seq<T>, Failure>(Failure::StackUnderflow)
            } else {
                exists|v: T|
                    #[trigger] gives(self.unary()[token], stack[n - 1], v)
                        && next == Ok::<Seq<T>, Failure>(stack.take(n - 1).push(v))
            }
        } else {
            exists|value: Option<T>|
                #[trigger] reads::<T>(token, value) && next == match value {
                    Some(v) => Ok::<Seq<T>, Failure>(stack.push(v)),
                    None => Err::<Seq<T>, Failure>(Failure::InvalidLiteral(token)),
                }
        }
    }

    /// Whether processing `tokens` in order, from the empty stack, may end
    /// with `end`: the stack after the last token, or the first failure.
    pub open spec fn run(&self, tokens: Seq<Seq<char>>, end: Result<Seq<T>, Failure>) -> bool
        decreases tokens.len(),
    {
        if tokens.len() == 0 {
            end == Ok::<Seq<T>, Failure>(Seq::empty())
        } else {
            ||| end is Err && self.run(tokens.drop_last(), end)
            ||| exists|stack: Seq<T>|
                self.run(tokens.drop_last(), Ok(stack))
                    && #[trigger] self.step(stack, tokens.last(), end)
        }
    }

    /// Whether every token of `tokens` may be processed on each stack that
    /// the tokens before it can leave.
    pub open spec fn admissible(&self, tokens: Seq<Seq<char>>) -> bool {
        forall|k: int, stack: Seq<T>|
            0 <= k < tokens.len() && #[trigger] self.run(tokens.take(k), Ok(stack))
                ==> self.accepts(stack, tokens[k])
    }

    /// Whether evaluating `input` may return `result`.
    pub open spec fn evaluates(&self, input: Seq<char>, result: Result<T, Failure>) -> bool {
        exists|end: Result<Seq<T>, Failure>|
            #[trigger] self.run(tokens(input), end) && result == conclusion(end)
    }

    /// An evaluator with the default binary operators and no unary ones.
    pub fn base() -> (evaluator: Self)
        ensures
            evaluator.binary() == default_binary::<B>(),
            evaluator.unary() == Map::<Seq<char>, U>::empty(),
    {
        ReversePolishNotation {
            binary_operators: default_operators(),
            unary_operators: StringHashMap::new(),
            number: PhantomData,
        }
    }

    /// An evaluator with operators of the caller. Its binary operators are
    /// those of `replacement`, or the default ones where there is none, and on
    /// top of them those of `extra`, each of which takes the place of an
    /// operator of the same name. Its unary operators are those of `unary`.
    pub fn extended(
        extra: Option<BinaryOpList<B>>,
        unary: Option<UnaryOpList<U>>,
        replacement: Option<BinaryOpList<B>>,
    ) -> (evaluator: Self)
        ensures
            evaluator.binary() == resolved_binary(entries(extra), entries(replacement)),
            evaluator.unary() == resolved_unary(entries(unary)),
    {
        let mut binary_operators = match replacement {
            Some(table) => table,
            None => default_operators(),
        };
        let unary_operators = match unary {
            Some(table) => table,
            None => StringHashMap::new(),
        };
        if let Some(table) = extra {
            binary_operators.union_prefer_right(table);
        }
        ReversePolishNotation { binary_operators, unary_operators, number: PhantomData }
    }

    /// Processes `token` on `stack`.
    fn feed(&self, stack: &mut Vec<T>, token: &str) -> (result: Result<(), RpnError>)
        requires
            self.accepts(old(stack)@, token@),
        ensures
            self.step(
                old(stack)@,
                token@,
                match result {
                    Ok(_) => Ok(final(stack)@),
                    Err(error) => Err(error@),
                },
            ),
    {
        let n = stack.len();
        if let Some(operator) = self.binary_operators.get(token) {
            if n < 2 {
                return Err(RpnError::StackUnderflow);
            }
            let b = stack.pop().unwrap();
            let a = stack.pop().unwrap();
            let v = operator.apply(a, b);
            stack.push(v);
            proof {
                assert(stack@ =~= old(stack)@.take(n - 2).push(v));
                assert(self.binary()[token@].yields(old(stack)@[n - 2], old(stack)@[n - 1], v));
            }
            Ok(())
        } else if let Some(operator) = self.unary_operators.get(token) {
            if n < 1 {
                return Err(RpnError::StackUnderflow);
            }
            let a = stack.pop().unwrap();
            let v = operator(a);
            stack.push(v);
            proof {
                assert(stack@ =~= old(stack)@.take(n - 1).push(v));
                assert(gives(self.unary()[token@], old(stack)@[n - 1], v));
            }
            Ok(())
        } else {
            let value = T::from_literal(token);
            assert(reads::<T>(token@, value));
            match value {
                Some(v) => {
                    stack.push(v);
                    Ok(())
                },
                None => Err(RpnError::InvalidLiteral(token.to_owned())),
            }
        }
    }

    /// Evaluates the postfix expression `string`: its tokens, cut at
    /// whitespace, are processed from left to right on a stack that starts
    /// empty, and the one value that is left is returned. The first failure
    /// ends the evaluation.
    ///
    /// The input has to be admissible: no operator may meet operands that it
    /// does not accept. For the arithmetic of the integers that means no
    /// overflow and no division by zero.
    pub fn parse(&self, string: String) -> (result: Result<T, RpnError>)
        requires
            self.admissible(tokens(string@)),
        ensures
            self.evaluates(string@, outcome(result)),
    {
        let words = split_whitespace(string.as_str());
        let ghost all = tokens(string@);
        let mut stack: Vec<T> = Vec::new();
        let mut i: usize = 0;
        while i < words.len()
            invariant
                views(words@) == all,
                all == tokens(string@),
                i <= words.len(),
                self.admissible(all),
                self.run(all.take(i as int), Ok(stack@)),
            decreases words.len() - i,
        {
            let ghost before = stack@;
            let fed = self.feed(&mut stack, words[i]);
            assert(all.take(i + 1).drop_last() =~= all.take(i as int));
            if let Err(error) = fed {
                proof {
                    assert(self.step(before, all.take(i + 1).last(), Err(error@)));
                    self.lemma_failure_stays(all, i + 1, error@);
                }
                return Err(error);
            }
            assert(self.step(before, all.take(i + 1).last(), Ok(stack@)));
            i += 1;
        }
        assert(all.take(i as int) =~= all);
        conclude(stack)
    }

    /// A failure on a prefix of the tokens is the failure of the whole.
    pub proof fn lemma_failure_stays(&self, tokens: Seq<Seq<char>>, k: int, failure: Failure)
        requires
            0 <= k <= tokens.len(),
            self.run(tokens.take(k), Err(failure)),
        ensures
            self.run(tokens, Err(failure)),
        decreases tokens.len() - k,
    {
        if k < tokens.len() {
            assert(tokens.take(k + 1).drop_last() =~= tokens.take(k));
            self.lemma_failure_stays(tokens, k + 1, failure);
        } else {
            assert(tokens.take(k) =~= tokens);
        }
    }
}

} // verus!
