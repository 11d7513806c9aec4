use ilo::errors::{report_error, ErrorDetails, ErrorType};
use ilo::interpreter::compares;
use ilo::text::{is_space, repeat, split_words};
use ilo::lexer::{is_alpha, is_alpha_numeric, is_digit};
use ilo::number::{is_nan, is_negative, is_zero, negate, number_equal, number_less, repetitions};
use ilo::token::Kind;

fn samples() -> Vec<f64> {
    let mut values = vec![
        0.0,
        -0.0,
        1.0,
        -1.0,
        0.5,
        -0.5,
        2.5,
        3.0,
        -3.0,
        1e-310,
        -1e-310,
        f64::MIN_POSITIVE,
        f64::EPSILON,
        4503599627370496.0,
        4503599627370495.5,
        9007199254740992.0,
        9007199254740993.0,
        9223372036854775807.0,
        9223372036854775808.0,
        9223372036854774784.0,
        18446744073709551616.0,
        1e300,
        -1e300,
        f64::MAX,
        f64::MIN,
        f64::INFINITY,
        f64::NEG_INFINITY,
        f64::NAN,
        -f64::NAN,
        f64::from_bits(0x7ff0_0000_0000_0001),
        f64::from_bits(0xfff8_0000_0000_0001),
    ];
    // a fixed walk through the bit patterns
    let mut state: u64 = 0x9e37_79b9_7f4a_7c15;
    for _ in 0..2000 {
        state = state.wrapping_mul(6364136223846793005).wrapping_add(1442695040888963407);
        values.push(f64::from_bits(state));
        values.push((state >> 40) as f64);
        values.push(-((state >> 11) as f64) / 8.0);
    }
    values
}

#[test]
fn equality_and_order_are_those_of_the_numbers() {
    let values = samples();
    for (i, a) in values.iter().enumerate() {
        // every value against a window of the others
        for b in values.iter().skip(i.saturating_sub(3)).take(40) {
            let (x, y) = (a.to_bits(), b.to_bits());
            assert_eq!(number_equal(x, y), a == b, "{a} == {b}");
            assert_eq!(number_less(x, y), a < b, "{a} < {b}");
            assert_eq!(compares(Kind::Greater, x, y), a > b, "{a} > {b}");
            assert_eq!(compares(Kind::GreaterEqual, x, y), a >= b, "{a} >= {b}");
            assert_eq!(compares(Kind::Less, x, y), a < b, "{a} < {b}");
            assert_eq!(compares(Kind::LessEqual, x, y), a <= b, "{a} <= {b}");
        }
    }
}

#[test]
fn signs_and_zeros() {
    for a in samples() {
        let bits = a.to_bits();
        assert_eq!(is_nan(bits), a.is_nan());
        assert_eq!(is_zero(bits), a == 0.0);
        assert_eq!(is_negative(bits), a.is_sign_negative());
        assert_eq!(negate(bits), (-a).to_bits());
    }
    assert_eq!(negate(0), 0x8000_0000_0000_0000);
}

#[test]
fn repetitions_are_whole_and_not_negative() {
    for a in samples() {
        let expected = if a.round() != a || (a as i64) < 0 { None } else { Some(a as i64 as u64) };
        assert_eq!(repetitions(a.to_bits()), expected, "{a}");
    }
    assert_eq!(repetitions(3.0_f64.to_bits()), Some(3));
    assert_eq!(repetitions(0.0_f64.to_bits()), Some(0));
    assert_eq!(repetitions((-0.0_f64).to_bits()), Some(0));
    assert_eq!(repetitions(3.1_f64.to_bits()), None);
    assert_eq!(repetitions((-2.0_f64).to_bits()), None);
    assert_eq!(repetitions(f64::NAN.to_bits()), None);
    assert_eq!(repetitions(f64::INFINITY.to_bits()), Some(i64::MAX as u64));
    assert_eq!(repetitions(4503599627370497.0_f64.to_bits()), Some(4503599627370497));
    assert_eq!(repetitions(9007199254740992.0_f64.to_bits()), Some(9007199254740992));
}

#[test]
fn character_classes() {
    for code in 0..=0x10ffff_u32 {
        if let Some(c) = char::from_u32(code) {
            assert_eq!(is_space(c), c.is_whitespace(), "{code:x}");
            assert_eq!(is_digit(c), c.is_ascii_digit(), "{code:x}");
            assert_eq!(is_alpha(c), c.is_ascii_alphabetic() || c == '_', "{code:x}");
            assert_eq!(is_alpha_numeric(c), c.is_ascii_alphanumeric() || c == '_', "{code:x}");
        }
    }
}

#[test]
fn words_are_split_at_white_space() {
    for text in ["", " ", "a", " a ", "echo -n hello world", "\ta\u{a0}b\n\nc  ", "é è"] {
        let expected: Vec<String> = text.split_whitespace().map(String::from).collect();
        assert_eq!(split_words(text), expected, "{text:?}");
    }
}

#[test]
fn texts_are_repeated() {
    assert_eq!(repeat("ab", 0), "");
    assert_eq!(repeat("ab", 1), "ab");
    assert_eq!(repeat("ab", 3), "ababab");
    assert_eq!(repeat("", 5), "");
}

#[test]
fn diagnostics_are_one_line() {
    let line = |kind, message: &str, line, column| {
        report_error(ErrorDetails::new(kind, String::from(message), line, column))
    };
    assert_eq!(
        line(ErrorType::LexicalError, "Unterminated string", 3, 14),
        "Lexical error at line 3, column 14: Unterminated string."
    );
    assert_eq!(line(ErrorType::ParsingError, "m", 1, 1), "Syntax error at line 1, column 1: m.");
    assert_eq!(line(ErrorType::RuntimeError, "", 0, 10), "Runtime error at line 0, column 10: .");
    assert_eq!(
        line(ErrorType::TypeError, "x", -7, i64::MAX),
        "Type error at line -7, column 9223372036854775807: x."
    );
    assert_eq!(
        line(ErrorType::TypeError, "x", i64::MIN, 100),
        "Type error at line -9223372036854775808, column 100: x."
    );
    let error = ErrorDetails::new(ErrorType::TypeError, String::from("text"), 4, 2);
    assert_eq!(error.error_type(), ErrorType::TypeError);
    assert_eq!(error.message(), "text");
    assert_eq!((error.line(), error.column()), (4, 2));
    assert_eq!(ErrorType::ParsingError.label(), "Syntax error");
}
