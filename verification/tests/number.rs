use rpn::number::{parse_integer, parse_magnitude};
use rpn::Number;

#[test]
fn integers_in_decimal() {
    assert_eq!(i32::from_literal("0"), Some(0));
    assert_eq!(i32::from_literal("7"), Some(7));
    assert_eq!(i32::from_literal("42"), Some(42));
    assert_eq!(i32::from_literal("007"), Some(7));
    assert_eq!(i32::from_literal("1234567890"), Some(1234567890));
    assert_eq!(i64::from_literal("1234567890123"), Some(1234567890123));
}

#[test]
fn integers_with_a_sign() {
    assert_eq!(i32::from_literal("+7"), Some(7));
    assert_eq!(i32::from_literal("-7"), Some(-7));
    assert_eq!(i32::from_literal("-0"), Some(0));
    assert_eq!(i32::from_literal("+0"), Some(0));
    assert_eq!(i32::from_literal("-00012"), Some(-12));
    assert_eq!(i64::from_literal("-9000000000"), Some(-9_000_000_000));
}

#[test]
fn integers_at_the_bounds() {
    assert_eq!(i32::from_literal("2147483647"), Some(i32::MAX));
    assert_eq!(i32::from_literal("2147483648"), None);
    assert_eq!(i32::from_literal("-2147483648"), Some(i32::MIN));
    assert_eq!(i32::from_literal("-2147483649"), None);
    assert_eq!(i64::from_literal("9223372036854775807"), Some(i64::MAX));
    assert_eq!(i64::from_literal("9223372036854775808"), None);
    assert_eq!(i64::from_literal("-9223372036854775808"), Some(i64::MIN));
    assert_eq!(i64::from_literal("-9223372036854775809"), None);
    assert_eq!(i32::from_literal("99999999999999999999999999999999999999999999"), None);
    assert_eq!(i64::from_literal("-99999999999999999999999999999999999999999999"), None);
    assert_eq!(
        i64::from_literal("000000000000000000000000000000000000000000000000001"),
        Some(1)
    );
}

#[test]
fn what_is_no_integer() {
    assert_eq!(i32::from_literal(""), None);
    assert_eq!(i32::from_literal("+"), None);
    assert_eq!(i32::from_literal("-"), None);
    assert_eq!(i32::from_literal("+-1"), None);
    assert_eq!(i32::from_literal("--1"), None);
    assert_eq!(i32::from_literal("1-"), None);
    assert_eq!(i32::from_literal("1+1"), None);
    assert_eq!(i32::from_literal("foo"), None);
    assert_eq!(i32::from_literal("1x"), None);
    assert_eq!(i32::from_literal("x1"), None);
    assert_eq!(i32::from_literal("1.0"), None);
    assert_eq!(i32::from_literal("1e3"), None);
    assert_eq!(i32::from_literal("1_000"), None);
    assert_eq!(i32::from_literal("0x10"), None);
    assert_eq!(i32::from_literal(" 1"), None);
    assert_eq!(i32::from_literal("1 "), None);
    assert_eq!(i32::from_literal("١٢"), None);
    assert_eq!(i32::from_literal("１"), None);
}

#[test]
fn integers_agree_with_the_standard_library() {
    let samples = [
        "", "0", "1", "-1", "+1", "-", "+", "00", "-00", "+00", "10", "0010", "2147483647",
        "2147483648", "-2147483648", "-2147483649", "4294967296", "9223372036854775807",
        "9223372036854775808", "-9223372036854775808", "-9223372036854775809",
        "18446744073709551616", "-18446744073709551617", "340282366920938463463374607431768211456",
        "1a", "a1", "1 ", " 1", "1.5", "-+1", "+-1", "++1", "1+", "٣", "１２", "1\u{0}", "\t1", "1e1",
        "0b1", "0o7", "0x1f", "1_0", "- 1", "−1",
    ];
    for sample in samples {
        assert_eq!(i8::from_literal(sample), sample.parse::<i8>().ok(), "{:?}", sample);
        assert_eq!(i16::from_literal(sample), sample.parse::<i16>().ok(), "{:?}", sample);
        assert_eq!(i32::from_literal(sample), sample.parse::<i32>().ok(), "{:?}", sample);
        assert_eq!(i64::from_literal(sample), sample.parse::<i64>().ok(), "{:?}", sample);
        assert_eq!(i128::from_literal(sample), sample.parse::<i128>().ok(), "{:?}", sample);
        assert_eq!(isize::from_literal(sample), sample.parse::<isize>().ok(), "{:?}", sample);
        assert_eq!(u8::from_literal(sample), sample.parse::<u8>().ok(), "{:?}", sample);
        assert_eq!(u16::from_literal(sample), sample.parse::<u16>().ok(), "{:?}", sample);
        assert_eq!(u32::from_literal(sample), sample.parse::<u32>().ok(), "{:?}", sample);
        assert_eq!(u64::from_literal(sample), sample.parse::<u64>().ok(), "{:?}", sample);
        assert_eq!(u128::from_literal(sample), sample.parse::<u128>().ok(), "{:?}", sample);
        assert_eq!(usize::from_literal(sample), sample.parse::<usize>().ok(), "{:?}", sample);
    }
}

#[test]
fn unsigned_integers_take_no_minus_sign() {
    assert_eq!(u32::from_literal("7"), Some(7));
    assert_eq!(u32::from_literal("+7"), Some(7));
    assert_eq!(u32::from_literal("-7"), None);
    assert_eq!(u32::from_literal("-0"), None);
    assert_eq!(u8::from_literal("255"), Some(255));
    assert_eq!(u8::from_literal("256"), None);
    assert_eq!(u16::from_literal("65535"), Some(u16::MAX));
    assert_eq!(u16::from_literal("65536"), None);
    assert_eq!(u32::from_literal("4294967295"), Some(u32::MAX));
    assert_eq!(u32::from_literal("4294967296"), None);
    assert_eq!(u64::from_literal("18446744073709551615"), Some(u64::MAX));
    assert_eq!(u64::from_literal("18446744073709551616"), None);
    assert_eq!(usize::from_literal("0"), Some(0));
}

#[test]
fn narrow_integers_at_the_bounds() {
    assert_eq!(i8::from_literal("127"), Some(i8::MAX));
    assert_eq!(i8::from_literal("128"), None);
    assert_eq!(i8::from_literal("-128"), Some(i8::MIN));
    assert_eq!(i8::from_literal("-129"), None);
    assert_eq!(i16::from_literal("32767"), Some(i16::MAX));
    assert_eq!(i16::from_literal("32768"), None);
    assert_eq!(i16::from_literal("-32768"), Some(i16::MIN));
    assert_eq!(i16::from_literal("-32769"), None);
    assert_eq!(isize::from_literal("-1"), Some(-1));
}

#[test]
fn bounds_of_every_integer_type_agree_with_the_standard_library() {
    let samples = [
        "127", "128", "-128", "-129", "255", "256", "32767", "32768", "-32768", "-32769",
        "65535", "65536", "2147483647", "2147483648", "-2147483648", "-2147483649",
        "4294967295", "4294967296", "9223372036854775807", "9223372036854775808",
        "-9223372036854775808", "-9223372036854775809", "18446744073709551615",
        "18446744073709551616", "+18446744073709551615", "-18446744073709551615",
        "170141183460469231731687303715884105727", "170141183460469231731687303715884105728",
        "-170141183460469231731687303715884105728", "-170141183460469231731687303715884105729",
        "340282366920938463463374607431768211455", "340282366920938463463374607431768211456",
        "-340282366920938463463374607431768211455", "3402823669209384634633746074317682114550",
        "+000340282366920938463463374607431768211455",
    ];
    for sample in samples {
        assert_eq!(i8::from_literal(sample), sample.parse::<i8>().ok(), "{:?}", sample);
        assert_eq!(i16::from_literal(sample), sample.parse::<i16>().ok(), "{:?}", sample);
        assert_eq!(i32::from_literal(sample), sample.parse::<i32>().ok(), "{:?}", sample);
        assert_eq!(i64::from_literal(sample), sample.parse::<i64>().ok(), "{:?}", sample);
        assert_eq!(i128::from_literal(sample), sample.parse::<i128>().ok(), "{:?}", sample);
        assert_eq!(isize::from_literal(sample), sample.parse::<isize>().ok(), "{:?}", sample);
        assert_eq!(u8::from_literal(sample), sample.parse::<u8>().ok(), "{:?}", sample);
        assert_eq!(u16::from_literal(sample), sample.parse::<u16>().ok(), "{:?}", sample);
        assert_eq!(u32::from_literal(sample), sample.parse::<u32>().ok(), "{:?}", sample);
        assert_eq!(u64::from_literal(sample), sample.parse::<u64>().ok(), "{:?}", sample);
        assert_eq!(u128::from_literal(sample), sample.parse::<u128>().ok(), "{:?}", sample);
        assert_eq!(usize::from_literal(sample), sample.parse::<usize>().ok(), "{:?}", sample);
    }
}

#[test]
fn every_small_integer_reads_back() {
    for value in -2000..2000 {
        let text = value.to_string();
        assert_eq!(i32::from_literal(&text), Some(value));
        assert_eq!(i64::from_literal(&text), Some(value as i64));
    }
}

#[test]
fn integer_within_bounds() {
    assert_eq!(parse_integer("100", -100, 100), Some(100));
    assert_eq!(parse_integer("101", -100, 100), None);
    assert_eq!(parse_integer("-100", -100, 100), Some(-100));
    assert_eq!(parse_integer("-101", -100, 100), None);
    assert_eq!(parse_integer("5", 0, 0), None);
    assert_eq!(parse_integer("0", 0, 0), Some(0));
    assert_eq!(parse_integer("+0", 0, 0), Some(0));
    assert_eq!(parse_integer("-0", 0, 0), None);
    assert_eq!(parse_integer("-0", -1, 0), Some(0));
    let limit: i128 = 1 << 64;
    assert_eq!(parse_integer("18446744073709551616", -limit, limit), Some(limit));
    assert_eq!(parse_integer("18446744073709551617", -limit, limit), None);
    assert_eq!(parse_integer("-18446744073709551616", -limit, limit), Some(-limit));
    assert_eq!(parse_integer("-18446744073709551617", -limit, limit), None);
}

#[test]
fn widest_integers_at_the_bounds() {
    assert_eq!(
        i128::from_literal("170141183460469231731687303715884105727"),
        Some(i128::MAX)
    );
    assert_eq!(i128::from_literal("170141183460469231731687303715884105728"), None);
    assert_eq!(
        i128::from_literal("-170141183460469231731687303715884105728"),
        Some(i128::MIN)
    );
    assert_eq!(i128::from_literal("-170141183460469231731687303715884105729"), None);
    assert_eq!(
        u128::from_literal("340282366920938463463374607431768211455"),
        Some(u128::MAX)
    );
    assert_eq!(u128::from_literal("340282366920938463463374607431768211456"), None);
    assert_eq!(u128::from_literal("-0"), None);
    assert_eq!(u128::from_literal("+0"), Some(0));
}

#[test]
fn sign_and_magnitude() {
    assert_eq!(parse_magnitude("12", true), Some((false, 12)));
    assert_eq!(parse_magnitude("+12", true), Some((false, 12)));
    assert_eq!(parse_magnitude("-12", true), Some((true, 12)));
    assert_eq!(parse_magnitude("-0", true), Some((true, 0)));
    assert_eq!(parse_magnitude("-12", false), None);
    assert_eq!(parse_magnitude("+12", false), Some((false, 12)));
    assert_eq!(parse_magnitude("", true), None);
    assert_eq!(parse_magnitude("-", true), None);
    assert_eq!(parse_magnitude("12a", true), None);
    assert_eq!(
        parse_magnitude("340282366920938463463374607431768211455", true),
        Some((false, u128::MAX))
    );
    assert_eq!(
        parse_magnitude("-340282366920938463463374607431768211455", true),
        Some((true, u128::MAX))
    );
    assert_eq!(parse_magnitude("340282366920938463463374607431768211456", true), None);
    assert_eq!(parse_magnitude("99999999999999999999999999999999999999999x", true), None);
}

#[test]
fn integer_within_the_widest_bounds() {
    assert_eq!(
        parse_integer("-170141183460469231731687303715884105728", i128::MIN, 0),
        Some(i128::MIN)
    );
    assert_eq!(
        parse_integer("-170141183460469231731687303715884105728", i128::MIN + 1, 0),
        None
    );
    assert_eq!(
        parse_integer("-170141183460469231731687303715884105727", i128::MIN + 1, 0),
        Some(i128::MIN + 1)
    );
    assert_eq!(parse_integer("1", i128::MIN, 0), None);
    assert_eq!(parse_integer("0", i128::MIN, 0), Some(0));
}
