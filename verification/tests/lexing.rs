use cfront::errors::Res;
use cfront::lexer::parse;
use cfront::location::Location;
use cfront::token::Symbol;
use cfront::token::Token;
use cfront::token::TokenValue;

fn lex(src: &str) -> Res<Vec<Token>> {
    let mut loc = Location::new(0, 0);
    parse(src, &mut loc)
}

fn symbol_table() -> Vec<(&'static str, Symbol)> {
    vec![
        ("+", Symbol::Plus),
        ("-", Symbol::Minus),
        ("*", Symbol::Star),
        ("/", Symbol::Divide),
        ("%", Symbol::Modulo),
        ("=", Symbol::Assign),
        ("<", Symbol::Lt),
        (">", Symbol::Gt),
        ("!", Symbol::LogicalNot),
        ("&", Symbol::Ampercent),
        ("|", Symbol::BitwiseOr),
        ("^", Symbol::BitwiseXor),
        ("~", Symbol::BitwiseNot),
        ("?", Symbol::Interrogation),
        (":", Symbol::Colon),
        (";", Symbol::SemiColon),
        (",", Symbol::Comma),
        (".", Symbol::Dot),
        ("(", Symbol::ParenthesisOpen),
        (")", Symbol::ParenthesisClose),
        ("[", Symbol::BracketOpen),
        ("]", Symbol::BracketClose),
        ("{", Symbol::BraceOpen),
        ("}", Symbol::BraceClose),
        ("==", Symbol::Equal),
        ("!=", Symbol::Different),
        ("<=", Symbol::Le),
        (">=", Symbol::Ge),
        ("&&", Symbol::LogicalAnd),
        ("||", Symbol::LogicalOr),
        ("<<", Symbol::ShiftLeft),
        (">>", Symbol::ShiftRight),
        ("+=", Symbol::AddAssign),
        ("-=", Symbol::SubAssign),
        ("*=", Symbol::MulAssign),
        ("/=", Symbol::DivAssign),
        ("%=", Symbol::ModAssign),
        ("&=", Symbol::AndAssign),
        ("|=", Symbol::OrAssign),
        ("^=", Symbol::XorAssign),
        ("->", Symbol::Arrow),
        ("++", Symbol::Increment),
        ("--", Symbol::Decrement),
        ("<<=", Symbol::ShiftLeftAssign),
        (">>=", Symbol::ShiftRightAssign),
    ]
}

#[test]
fn every_symbol_spelling_lexes_alone() {
    for (text, expected) in symbol_table() {
        let res = lex(text);
        assert!(res.errors.is_empty(), "diagnostics while lexing {:?}", text);
        assert_eq!(res.result.len(), 1, "token count for {:?}", text);
        match res.result[0].value() {
            TokenValue::Symbol(sym) => assert_eq!(*sym, expected, "symbol for {:?}", text),
            other => panic!("not a symbol token for {:?}: {:?}", text, other),
        }
        assert_eq!(res.result[0].location().col, 0, "location for {:?}", text);
    }
}

#[test]
fn short_unicode_escape_decodes() {
    let res = lex("\"\\u0041\"");
    assert!(res.errors.is_empty());
    assert_eq!(res.result.len(), 1);
    match res.result[0].value() {
        TokenValue::Str(s) => assert_eq!(s, "A"),
        other => panic!("unexpected token: {:?}", other),
    }
}

#[test]
fn short_unicode_escape_too_short() {
    let res = lex("\"\\u41\"");
    assert_eq!(res.errors.len(), 1);
    let (_, message) = res.errors.into_iter().next().unwrap().get();
    assert_eq!(
        message,
        "Invalid escaped unicode number: must contain 4 digits, but found only 2"
    );
}

#[test]
fn octal_escape_decodes() {
    let res = lex("'\\101'");
    assert!(res.errors.is_empty());
    assert_eq!(res.result.len(), 1);
    match res.result[0].value() {
        TokenValue::Char(c) => assert_eq!(*c, 'A'),
        other => panic!("unexpected token: {:?}", other),
    }
}

#[test]
fn octal_escape_overflow_uses_two_digits() {
    // `\459`: the `9` is no octal digit, so only `45` decodes (to `%`),
    // and the `9` then stands as a second character inside the char
    // literal, which is a diagnostic.
    let res = lex("'\\459'");
    assert_eq!(res.result.len(), 1);
    match res.result[0].value() {
        TokenValue::Char(c) => assert_eq!(*c, '%'),
        other => panic!("unexpected token: {:?}", other),
    }
    assert_eq!(res.errors.len(), 1);
    let (_, message) = res.errors.into_iter().next().unwrap().get();
    assert_eq!(message, "A char must contain only one character");
}

#[test]
fn three_octal_digits_over_255_use_first_two() {
    // `\777` collects three octal digits whose value passes 255, so
    // the escape stops after `77` and the third `7` is ordinary input.
    let res = lex("\"\\7778\"");
    assert!(res.errors.is_empty());
    assert_eq!(res.result.len(), 1);
    match res.result[0].value() {
        TokenValue::Str(s) => assert_eq!(s, "\u{3f}78"),
        other => panic!("unexpected token: {:?}", other),
    }
}

#[test]
fn hex_escape_decodes() {
    let res = lex("'\\xff'");
    assert!(res.errors.is_empty());
    match res.result[0].value() {
        TokenValue::Char(c) => assert_eq!(*c, '\u{ff}'),
        other => panic!("unexpected token: {:?}", other),
    }
}

#[test]
fn simple_escapes_decode() {
    let res = lex("\"\\n\\t\\\\\\\"\"");
    assert!(res.errors.is_empty());
    match res.result[0].value() {
        TokenValue::Str(s) => assert_eq!(s, "\n\t\\\""),
        other => panic!("unexpected token: {:?}", other),
    }
}

#[test]
fn unknown_escape_is_reported() {
    let res = lex("\"\\q\"");
    assert_eq!(res.errors.len(), 1);
    let (_, message) = res.errors.into_iter().next().unwrap().get();
    assert_eq!(
        message,
        "Character 'q' can not be escaped, even inside a string or a char."
    );
}

#[test]
fn identifiers_numbers_and_symbols_mix() {
    let res = lex("x1 = y_2 + 0x3f;");
    assert!(res.errors.is_empty());
    let shown: Vec<String> = res.result.iter().map(|t| format!("{:?}", t)).collect();
    assert_eq!(res.result.len(), 6);
    match res.result[0].value() {
        TokenValue::Identifier(s) => assert_eq!(s, "x1"),
        other => panic!("unexpected token: {:?}", other),
    }
    match res.result[4].value() {
        TokenValue::Number(s) => assert_eq!(s, "0x3f"),
        other => panic!("unexpected token: {:?}", other),
    }
    assert_eq!(shown.len(), 6);
}

#[test]
fn block_comment_is_swallowed() {
    let res = lex("a/*ignored*/b");
    assert!(res.errors.is_empty());
    assert_eq!(res.result.len(), 2);
    match res.result[0].value() {
        TokenValue::Identifier(s) => assert_eq!(s, "a"),
        other => panic!("unexpected token: {:?}", other),
    }
    match res.result[1].value() {
        TokenValue::Identifier(s) => assert_eq!(s, "b"),
        other => panic!("unexpected token: {:?}", other),
    }
}

#[test]
fn line_comment_runs_to_end() {
    let res = lex("a//whatever comes after");
    assert!(res.errors.is_empty());
    assert_eq!(res.result.len(), 1);
}

#[test]
fn unsupported_character_is_reported() {
    let res = lex("a@b");
    assert_eq!(res.errors.len(), 1);
    let (_, message) = res.errors.into_iter().next().unwrap().get();
    assert_eq!(message, "Character not supported by parser: '@'");
}

#[test]
fn multi_character_char_literal_is_reported() {
    let res = lex("'ab'");
    assert_eq!(res.errors.len(), 1);
    let (_, message) = res.errors.into_iter().next().unwrap().get();
    assert_eq!(message, "A char must contain only one character");
}

#[test]
fn empty_input_yields_nothing() {
    let res = lex("");
    assert!(res.errors.is_empty());
    assert!(res.result.is_empty());
}

#[test]
fn maximal_munch_prefers_longest() {
    let res = lex("a<<=b");
    assert!(res.errors.is_empty());
    assert_eq!(res.result.len(), 3);
    match res.result[1].value() {
        TokenValue::Symbol(sym) => assert_eq!(*sym, Symbol::ShiftLeftAssign),
        other => panic!("unexpected token: {:?}", other),
    }
}

#[test]
fn trailing_backslash_becomes_eol_token() {
    // The end-of-line token resolves before the pending literal
    // flushes, so it comes first.
    let res = lex("a\\");
    assert!(res.errors.is_empty());
    assert_eq!(res.result.len(), 2);
    match res.result[0].value() {
        TokenValue::Symbol(sym) => assert_eq!(*sym, Symbol::EOL),
        other => panic!("unexpected token: {:?}", other),
    }
    match res.result[1].value() {
        TokenValue::Identifier(s) => assert_eq!(s, "a"),
        other => panic!("unexpected token: {:?}", other),
    }
}

#[test]
fn round_trip_of_escape_free_tokens() {
    // Rebuilding the text from the lexed spellings and lexing again
    // reproduces the same token sequence.
    let src = "a+b*c<<=d";
    let first = lex(src);
    assert!(first.errors.is_empty());
    let mut rebuilt = String::new();
    for token in &first.result {
        match token.value() {
            TokenValue::Identifier(s) => rebuilt.push_str(s),
            TokenValue::Number(s) => rebuilt.push_str(s),
            TokenValue::Symbol(Symbol::Plus) => rebuilt.push('+'),
            TokenValue::Symbol(Symbol::Star) => rebuilt.push('*'),
            TokenValue::Symbol(Symbol::ShiftLeftAssign) => rebuilt.push_str("<<="),
            other => panic!("unexpected token: {:?}", other),
        }
    }
    assert_eq!(rebuilt, src);
    let second = lex(&rebuilt);
    assert!(second.errors.is_empty());
    assert_eq!(
        format!("{:?}", first.result),
        format!("{:?}", second.result)
    );
}

#[test]
fn relexing_successful_input_is_identical() {
    let src = "x = 'c' + \"str\" * 12;";
    let first = lex(src);
    let second = lex(src);
    assert!(first.errors.is_empty());
    assert!(second.errors.is_empty());
    assert_eq!(
        format!("{:?}", first.result),
        format!("{:?}", second.result)
    );
}

#[test]
fn locations_advance_by_column() {
    let res = lex("ab +");
    assert!(res.errors.is_empty());
    assert_eq!(res.result.len(), 2);
    assert_eq!(res.result[0].location().col, 0);
    assert_eq!(res.result[1].location().col, 3);
}
