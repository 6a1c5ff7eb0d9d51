use cfront::chars::dec_string;
use cfront::chars::parse_u32_digits;
use cfront::chars::parse_u64_digits;
use cfront::errors::CompileError;
use cfront::errors::ErrorLevel;
use cfront::errors::Res;
use cfront::escape::end_escape_sequence;
use cfront::escape::EscapeSequence;
use cfront::lexing_data::LexingData;
use cfront::location::Location;
use cfront::numbers::hex_char_to_int;
use cfront::numbers::to_hex_value;
use cfront::numbers::HexFloatValue;
use cfront::numbers::Number;
use cfront::numbers::NumberType;
use cfront::token::Token;

fn loc() -> Location {
    Location::new(3, 7)
}

fn float_value(v: &HexFloatValue) -> f64 {
    let mut frac = 0.0f64;
    let mut scale = 1.0f64 / 16.0;
    for d in v.frac_digits.iter() {
        frac += (*d as f64) * scale;
        scale /= 16.0;
    }
    let base = v.int_part as f64 + frac;
    let exp = f64::powf(2.0, v.exponent as f64);
    if v.exponent_neg { base / exp } else { base * exp }
}

#[test]
fn hex_float_with_positive_exponent() {
    // 0x1.8p3 = (1 + 0.5) * 2^3 = 12.0
    match to_hex_value("1.8p3", &NumberType::Float, &loc()) {
        Ok(Number::Float(v)) => {
            assert_eq!(v.int_part, 1);
            assert_eq!(v.frac_digits, vec![8]);
            assert_eq!(v.exponent, 3);
            assert!(!v.exponent_neg);
            assert!(!v.mantissa_overflow);
            assert_eq!(float_value(&v), 12.0);
        },
        other => panic!("unexpected result: {:?}", other),
    }
}

#[test]
fn hex_float_with_negative_exponent() {
    // 0x1.8p-1 = 1.5 / 2 = 0.75
    match to_hex_value("1.8p-1", &NumberType::Double, &loc()) {
        Ok(Number::Double(v)) => {
            assert!(v.exponent_neg);
            assert_eq!(float_value(&v), 0.75);
        },
        other => panic!("unexpected result: {:?}", other),
    }
}

#[test]
fn hex_float_mantissa_overflow_is_flagged() {
    match to_hex_value("ffffff", &NumberType::Float, &loc()) {
        Ok(Number::Float(v)) => {
            assert_eq!(v.int_part, 0xffffff);
            assert!(v.mantissa_overflow);
        },
        other => panic!("unexpected result: {:?}", other),
    }
}

#[test]
fn hex_int_picks_the_first_fitting_type() {
    match to_hex_value("ff", &NumberType::Int, &loc()) {
        Ok(Number::Int(v)) => assert_eq!(v, 255),
        other => panic!("unexpected result: {:?}", other),
    }
    match to_hex_value("ffffffffffffffff", &NumberType::Int, &loc()) {
        Ok(Number::ULong(v)) => assert_eq!(v, u64::MAX),
        other => panic!("unexpected result: {:?}", other),
    }
    match to_hex_value("ff", &NumberType::UInt, &loc()) {
        Ok(Number::UInt(v)) => assert_eq!(v, 255),
        other => panic!("unexpected result: {:?}", other),
    }
}

#[test]
fn hex_int_overflowing_every_type_is_reported() {
    match to_hex_value("1ffffffffffffffff", &NumberType::Int, &loc()) {
        Err(e) => {
            let (at, message) = e.get();
            assert_eq!(at.line, 3);
            assert_eq!(
                message,
                "Invalid number constant: number too large to fit in its type"
            );
        },
        other => panic!("unexpected result: {:?}", other),
    }
}

#[test]
fn hex_float_grammar_faults() {
    match to_hex_value("1.8.3", &NumberType::Float, &loc()) {
        Err(e) => assert_eq!(
            e.get().1,
            "Invalid number constant: maximum one '.' in number constant, but 2 were found."
        ),
        other => panic!("unexpected result: {:?}", other),
    }
    match to_hex_value("1p3a", &NumberType::Float, &loc()) {
        Err(e) => assert_eq!(
            e.get().1,
            "Invalid number constant: invalid character for exponent. Expected an ascii digit, but found 'a'"
        ),
        other => panic!("unexpected result: {:?}", other),
    }
    match to_hex_value("1p+-3", &NumberType::Float, &loc()) {
        Err(e) => assert_eq!(
            e.get().1,
            "Invalid number constant: maximum one sign is allowed in a number literal."
        ),
        other => panic!("unexpected result: {:?}", other),
    }
    match to_hex_value("1z3", &NumberType::Float, &loc()) {
        Err(e) => assert_eq!(
            e.get().1,
            "Invalid number constant: invalid character 'z' found in number constant"
        ),
        other => panic!("unexpected result: {:?}", other),
    }
}

#[test]
fn number_type_classes() {
    assert!(NumberType::Int.is_int());
    assert!(NumberType::ULongLong.is_int());
    assert!(!NumberType::Double.is_int());
}

#[test]
fn hex_digit_values() {
    assert_eq!(hex_char_to_int('0'), 0);
    assert_eq!(hex_char_to_int('a'), 10);
    assert_eq!(hex_char_to_int('F'), 15);
}

#[test]
fn digit_strings_parse_with_overflow_checks() {
    assert_eq!(parse_u32_digits("ffffffff", 16), Some(u32::MAX));
    assert_eq!(parse_u32_digits("100000000", 16), None);
    assert_eq!(parse_u64_digits("12345", 10), Some(12345));
    assert_eq!(dec_string(0), "0");
    assert_eq!(dec_string(90210), "90210");
}

#[test]
fn octal_escape_over_255_reparses_two_digits() {
    let mut data = LexingData::new();
    let seq = EscapeSequence::Octal(String::from("777"));
    match end_escape_sequence(&mut data, &loc(), &seq) {
        Ok(c) => assert_eq!(c, '\u{3f}'),
        other => panic!("unexpected result: {:?}", other),
    }
    assert!(!data.failed());
}

#[test]
fn long_unicode_with_few_digits_suggests_short_form() {
    let mut data = LexingData::new();
    let seq = EscapeSequence::Unicode(String::from("0041"));
    assert!(end_escape_sequence(&mut data, &loc(), &seq).is_err());
    assert!(data.failed());
    let errors = data.take_errors();
    assert_eq!(errors.len(), 1);
    let (_, message) = errors.into_iter().next().unwrap().get();
    assert!(message.starts_with(
        "Invalid escaped unicode number: An escaped big unicode must contain 8 hexadecimal digits"
    ));
}

#[test]
fn surrogate_code_point_is_rejected() {
    let mut data = LexingData::new();
    let seq = EscapeSequence::ShortUnicode(String::from("d800"));
    assert!(end_escape_sequence(&mut data, &loc(), &seq).is_err());
    let errors = data.take_errors();
    let (_, message) = errors.into_iter().next().unwrap().get();
    assert_eq!(
        message,
        "Invalid escaped unicode number: d800 is not a valid unicode character."
    );
}

#[test]
fn only_error_severity_fails_a_pass() {
    let mut data = LexingData::new();
    data.push_err(CompileError::new(
        loc(),
        String::from("reduced precision"),
        ErrorLevel::Warning,
    ));
    assert!(!data.failed());
    data.push_err(CompileError::new(
        loc(),
        String::from("suggestion only"),
        ErrorLevel::Suggestion,
    ));
    assert!(!data.failed());
    data.push_err(CompileError::new(
        loc(),
        String::from("hard fault"),
        ErrorLevel::Error,
    ));
    assert!(data.failed());
    assert_eq!(data.take_errors().len(), 3);
}

#[test]
fn lexing_data_holds_tokens_in_order() {
    let mut data = LexingData::new();
    data.push_token(Token::from_char('a', &loc()));
    data.push_token(Token::from_char('b', &loc()));
    match data.pop_token() {
        Some(t) => match t.into_parts().1 {
            cfront::token::TokenValue::Char(c) => assert_eq!(c, 'b'),
            other => panic!("unexpected token: {:?}", other),
        },
        None => panic!("token expected"),
    }
    let rest = data.take_tokens();
    assert_eq!(rest.len(), 1);
}

#[test]
fn res_wraps_values_without_diagnostics() {
    let res: Res<u32> = Res::from_value(5);
    assert_eq!(res.result, 5);
    assert!(res.errors.is_empty());
}

#[test]
fn locations_rewind_and_advance() {
    let mut l = Location::new(1, 5);
    l.incr_col();
    assert_eq!(l.col, 6);
    let back = l.into_past(2);
    assert_eq!(back.col, 4);
    assert_eq!(back.line, 1);
    assert_eq!(Location::new(0, 1).into_past(3).col, 0);
}
