//! The numeric types an expression can be evaluated over, and how their
//! literals are read.

use core::ops::{Add, Div, Mul, Sub};
use vstd::prelude::*;

verus! {

broadcast use vstd::string::group_string_axioms;

/// A type of values that expressions can be evaluated over: it has the four
/// arithmetic operations, and its values can be read from a token.
pub trait Number: Sized + Add<Output = Self> + Sub<Output = Self> + Mul<Output = Self> + Div<
    Output = Self,
> {
    /// Reads `token` as a literal of this type; `None` where it is none.
    fn from_literal(token: &str) -> Option<Self>;
}

/// Whether reading `token` as a literal of `T` may give `value`.
pub open spec fn reads<T: Number>(token: Seq<char>, value: Option<T>) -> bool {
    exists|text: &str| text@ == token && call_ensures(T::from_literal, (text,), value)
}

/// Whether `c` is one of the decimal digits `0` to `9`.
pub open spec fn is_digit(c: char) -> bool {
    '0' <= c <= '9'
}

/// The value of the decimal digit `c`.
pub open spec fn digit(c: char) -> nat
    recommends
        is_digit(c),
{
    (c as int - '0' as int) as nat
}

/// Whether `s` holds decimal digits only.
pub open spec fn all_digits(s: Seq<char>) -> bool {
    forall|i: int| 0 <= i < s.len() ==> is_digit(#[trigger] s[i])
}

/// The number that the decimal digits `digits` write.
pub open spec fn decimal(digits: Seq<char>) -> nat
    decreases digits.len(),
{
    if digits.len() == 0 {
        0
    } else {
        10 * decimal(digits.drop_last()) + digit(digits.last())
    }
}

/// Whether `token` starts with a sign: `+`, or `-` where `minus` says that
/// a minus sign is one.
pub open spec fn has_sign(token: Seq<char>, minus: bool) -> bool {
    token.len() > 0 && (token[0] == '+' || (minus && token[0] == '-'))
}

/// The integer that `token` writes: an optional sign and then one or more
/// decimal digits. `None` where `token` is not of that form.
pub open spec fn integer_literal(token: Seq<char>, minus: bool) -> Option<int> {
    let digits = if has_sign(token, minus) {
        token.drop_first()
    } else {
        token
    };
    if digits.len() > 0 && all_digits(digits) {
        Some(
            if token[0] == '-' {
                -(decimal(digits) as int)
            } else {
                decimal(digits) as int
            },
        )
    } else {
        None
    }
}

/// The integer that `token` writes, where it lies within `lo..=hi`. A minus
/// sign is a sign only where the range holds negative numbers.
pub open spec fn integer_within(token: Seq<char>, lo: int, hi: int) -> Option<int> {
    match integer_literal(token, lo < 0) {
        Some(v) => if lo <= v <= hi {
            Some(v)
        } else {
            None
        },
        None => None,
    }
}

/// Reads `token` as an optional sign and decimal digits: whether the sign is
/// a minus sign, and the number that the digits write. A minus sign is a
/// sign only where `minus` says so. `None` also where the number is above
/// `u128::MAX`.
pub fn parse_magnitude(token: &str, minus: bool) -> (r: Option<(bool, u128)>)
    ensures
        match r {
            Some((negative, magnitude)) => integer_literal(token@, minus) == Some(
                if negative {
                    -(magnitude as int)
                } else {
                    magnitude as int
                },
            ),
            None => match integer_literal(token@, minus) {
                Some(v) => v < -(u128::MAX as int) || v > u128::MAX as int,
                None => true,
            },
        },
{
    let mut first = true;
    let mut signed = false;
    let mut negative = false;
    let mut any = false;
    let mut overflow = false;
    let mut magnitude: u128 = 0;
    let ghost mut seen = Seq::<char>::empty();
    for c in it: token.chars()
        invariant
            it.seq() == token@,
            first == (it.index() == 0),
            signed == (it.index() > 0 && has_sign(token@, minus)),
            negative == (signed && token@[0] == '-'),
            seen == token@.subrange(if signed { 1int } else { 0int }, it.index() as int),
            all_digits(seen),
            any == (seen.len() > 0),
            !overflow ==> magnitude == decimal(seen),
            overflow ==> decimal(seen) > u128::MAX,
    {
        let ghost k = it.index() as int;
        if first && (c == '+' || (minus && c == '-')) {
            signed = true;
            negative = c == '-';
        } else if '0' <= c && c <= '9' {
            let d = (c as u8 - '0' as u8) as u128;
            proof {
                let next = seen.push(c);
                assert(next.drop_last() =~= seen);
                assert(next =~= token@.subrange(if signed { 1int } else { 0int }, k + 1));
                seen = next;
            }
            if !overflow {
                let sum = match magnitude.checked_mul(10) {
                    Some(tenfold) => tenfold.checked_add(d),
                    None => None,
                };
                match sum {
                    Some(sum) => {
                        magnitude = sum;
                    },
                    None => {
                        overflow = true;
                    },
                }
            }
            any = true;
        } else {
            proof {
                let (digits, start) = if has_sign(token@, minus) {
                    (token@.drop_first(), 1int)
                } else {
                    (token@, 0int)
                };
                assert(digits[k - start] == c);
                assert(!all_digits(digits));
            }
            return None;
        }
        first = false;
    }
    proof {
        let digits = if signed {
            token@.drop_first()
        } else {
            token@
        };
        assert(digits =~= seen);
    }
    if !any || overflow {
        return None;
    }
    Some((negative, magnitude))
}

/// Reads `token` as a decimal integer and returns it where it lies within
/// `lo..=hi`. A minus sign is a sign only where `lo` is negative.
pub fn parse_integer(token: &str, lo: i128, hi: i128) -> (r: Option<i128>)
    requires
        lo <= 0 <= hi,
    ensures
        integer_within(token@, lo as int, hi as int) == match r {
            Some(v) => Some(v as int),
            None => None,
        },
{
    match parse_magnitude(token, lo < 0) {
        Some((negative, magnitude)) => {
            if !negative {
                if magnitude <= hi as u128 {
                    Some(magnitude as i128)
                } else {
                    None
                }
            } else if magnitude <= i128::MAX as u128 {
                let value = -(magnitude as i128);
                if lo <= value {
                    Some(value)
                } else {
                    None
                }
            } else if lo == i128::MIN && magnitude == i128::MAX as u128 + 1 {
                Some(i128::MIN)
            } else {
                None
            }
        },
        None => None,
    }
}

impl Number for i8 {
    fn from_literal(token: &str) -> (r: Option<i8>)
        ensures
            integer_within(token@, i8::MIN as int, i8::MAX as int) == match r {
                Some(v) => Some(v as int),
                None => None,
            },
    {
        match parse_integer(token, i8::MIN as i128, i8::MAX as i128) {
            Some(v) => Some(v as i8),
            None => None,
        }
    }
}

impl Number for i16 {
    fn from_literal(token: &str) -> (r: Option<i16>)
        ensures
            integer_within(token@, i16::MIN as int, i16::MAX as int) == match r {
                Some(v) => Some(v as int),
                None => None,
            },
    {
        match parse_integer(token, i16::MIN as i128, i16::MAX as i128) {
            Some(v) => Some(v as i16),
            None => None,
        }
    }
}

impl Number for i32 {
    fn from_literal(token: &str) -> (r: Option<i32>)
        ensures
            integer_within(token@, i32::MIN as int, i32::MAX as int) == match r {
                Some(v) => Some(v as int),
                None => None,
            },
    {
        match parse_integer(token, i32::MIN as i128, i32::MAX as i128) {
            Some(v) => Some(v as i32),
            None => None,
        }
    }
}

impl Number for i64 {
    fn from_literal(token: &str) -> (r: Option<i64>)
        ensures
            integer_within(token@, i64::MIN as int, i64::MAX as int) == match r {
                Some(v) => Some(v as int),
                None => None,
            },
    {
        match parse_integer(token, i64::MIN as i128, i64::MAX as i128) {
            Some(v) => Some(v as i64),
            None => None,
        }
    }
}

impl Number for i128 {
    fn from_literal(token: &str) -> (r: Option<i128>)
        ensures
            integer_within(token@, i128::MIN as int, i128::MAX as int) == match r {
                Some(v) => Some(v as int),
                None => None,
            },
    {
        match parse_integer(token, i128::MIN as i128, i128::MAX as i128) {
            Some(v) => Some(v as i128),
            None => None,
        }
    }
}

impl Number for isize {
    fn from_literal(token: &str) -> (r: Option<isize>)
        ensures
            integer_within(token@, isize::MIN as int, isize::MAX as int) == match r {
                Some(v) => Some(v as int),
                None => None,
            },
    {
        match parse_integer(token, isize::MIN as i128, isize::MAX as i128) {
            Some(v) => Some(v as isize),
            None => None,
        }
    }
}

impl Number for u8 {
    fn from_literal(token: &str) -> (r: Option<u8>)
        ensures
            integer_within(token@, u8::MIN as int, u8::MAX as int) == match r {
                Some(v) => Some(v as int),
                None => None,
            },
    {
        match parse_integer(token, u8::MIN as i128, u8::MAX as i128) {
            Some(v) => Some(v as u8),
            None => None,
        }
    }
}

impl Number for u16 {
    fn from_literal(token: &str) -> (r: Option<u16>)
        ensures
            integer_within(token@, u16::MIN as int, u16::MAX as int) == match r {
                Some(v) => Some(v as int),
                None => None,
            },
    {
        match parse_integer(token, u16::MIN as i128, u16::MAX as i128) {
            Some(v) => Some(v as u16),
            None => None,
        }
    }
}

impl Number for u32 {
    fn from_literal(token: &str) -> (r: Option<u32>)
        ensures
            integer_within(token@, u32::MIN as int, u32::MAX as int) == match r {
                Some(v) => Some(v as int),
                None => None,
            },
    {
        match parse_integer(token, u32::MIN as i128, u32::MAX as i128) {
            Some(v) => Some(v as u32),
            None => None,
        }
    }
}

impl Number for u64 {
    fn from_literal(token: &str) -> (r: Option<u64>)
        ensures
            integer_within(token@, u64::MIN as int, u64::MAX as int) == match r {
                Some(v) => Some(v as int),
                None => None,
            },
    {
        match parse_integer(token, u64::MIN as i128, u64::MAX as i128) {
            Some(v) => Some(v as u64),
            None => None,
        }
    }
}

impl Number for u128 {
    fn from_literal(token: &str) -> (r: Option<u128>)
        ensures
            integer_within(token@, u128::MIN as int, u128::MAX as int) == match r {
                Some(v) => Some(v as int),
                None => None,
            },
    {
        match parse_magnitude(token, false) {
            Some((_, magnitude)) => Some(magnitude),
            None => None,
        }
    }
}

impl Number for usize {
    fn from_literal(token: &str) -> (r: Option<usize>)
        ensures
            integer_within(token@, usize::MIN as int, usize::MAX as int) == match r {
                Some(v) => Some(v as int),
                None => None,
            },
    {
        match parse_integer(token, usize::MIN as i128, usize::MAX as i128) {
            Some(v) => Some(v as usize),
            None => None,
        }
    }
}

} // verus!
