use cfront::escape::escape_consumes;
use cfront::escape::expect_min_length;
use cfront::escape::handle_escape;
use cfront::escape::handle_escaped_sequence;
use cfront::escape::EscapeSequence;
use cfront::escape::EscapeStatus;
use cfront::lexing_data::LexingData;
use cfront::location::Location;
use cfront::numbers::get_hex_float_state;
use cfront::numbers::HexFloatParseState;

fn loc() -> Location {
    Location::new(0, 0)
}

#[test]
fn one_character_escapes_decode_at_once() {
    let mut data = LexingData::new();
    let mut status = EscapeStatus::Single;
    let decoded = handle_escape('n', &mut data, &mut status, &loc());
    assert_eq!(decoded, Some('\n'));
    assert!(matches!(status, EscapeStatus::False));
    assert!(!data.failed());
}

#[test]
fn numeric_escapes_open_a_sequence() {
    let mut data = LexingData::new();
    let mut status = EscapeStatus::Single;
    let decoded = handle_escape('x', &mut data, &mut status, &loc());
    assert_eq!(decoded, None);
    match &status {
        EscapeStatus::Sequence(EscapeSequence::Hexadecimal(v)) => assert_eq!(v, ""),
        other => panic!("unexpected status: {:?}", other),
    }
}

#[test]
fn a_full_sequence_decodes_through_handle_escape() {
    let mut data = LexingData::new();
    let mut status = EscapeStatus::Sequence(EscapeSequence::ShortUnicode(String::from("004")));
    let decoded = handle_escape('1', &mut data, &mut status, &loc());
    assert_eq!(decoded, Some('A'));
    assert!(!data.failed());
}

#[test]
fn a_hex_sequence_ends_at_two_digits() {
    let mut data = LexingData::new();
    let mut seq = EscapeSequence::Hexadecimal(String::from("4"));
    let decoded = handle_escaped_sequence('1', &mut seq, &mut data, &loc());
    assert_eq!(decoded, Some('A'));
}

#[test]
fn octal_stops_before_a_digit_that_overflows() {
    assert!(escape_consumes(&EscapeSequence::Octal(String::from("7")), '7'));
    assert!(!escape_consumes(&EscapeSequence::Octal(String::from("77")), '7'));
    assert!(escape_consumes(&EscapeSequence::Octal(String::from("10")), '1'));
    assert!(!escape_consumes(&EscapeSequence::Octal(String::from("1")), '8'));
}

#[test]
fn short_sequences_push_the_four_digit_diagnostic() {
    let mut data = LexingData::new();
    let seq = EscapeSequence::ShortUnicode(String::from("ab"));
    let r = expect_min_length(&mut data, 4, &String::from("ab"), &loc(), &seq);
    assert!(r.is_err());
    let errors = data.take_errors();
    let (_, message) = errors.into_iter().next().unwrap().get();
    assert_eq!(
        message,
        "Invalid escaped unicode number: must contain 4 digits, but found only 2"
    );
}

#[test]
fn sequence_shapes_are_reported() {
    let seq = EscapeSequence::Octal(String::from("12"));
    assert_eq!(seq.max_len(), 3);
    assert!(seq.is_octal());
    assert_eq!(seq.repr(), "octal");
    assert_eq!(seq.value(), "12");
    assert_eq!(EscapeSequence::Unicode(String::new()).max_len(), 8);
}

#[test]
fn hex_float_state_splits_the_literal() {
    let fp = get_hex_float_state("1.8p3", &loc()).unwrap();
    assert_eq!(fp.int_part, "1");
    assert_eq!(fp.decimal_part, "8");
    assert_eq!(fp.exponent, "3");
    assert_eq!(fp.exponent_neg, None);
    assert_eq!(fp.state, HexFloatParseState::Exponent);
    assert_eq!(fp.get_exp(), 3);
    let signed = get_hex_float_state("1p-2", &loc()).unwrap();
    assert_eq!(signed.exponent_neg, Some(true));
    assert_eq!(signed.get_exp(), 2);
}

#[test]
fn hex_float_state_push_follows_the_phase() {
    let mut fp = cfront::numbers::HexFloatParse::new();
    fp.push('a');
    assert_eq!(fp.int_part, "a");
    fp.state = HexFloatParseState::Decimal;
    fp.push('b');
    assert_eq!(fp.decimal_part, "b");
    fp.state = HexFloatParseState::Exponent;
    fp.push('7');
    assert_eq!(fp.exponent, "7");
    assert_eq!(fp.get_exp(), 7);
}
