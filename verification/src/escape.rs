//! The escape-sequence sub-lexer: turns a backslash introducer plus the
//! following characters into one decoded character.

use vstd::prelude::*;

use crate::chars::digit_val;
use crate::chars::is_dec_digit;
use crate::chars::is_hex_digit;
use crate::chars::is_oct_digit;
use crate::chars::dec_string;
use crate::chars::char_from_u32;
use crate::chars::parse_u32_digits;
use crate::chars::spec_dec_repr;
use crate::chars::spec_digit_val;
use crate::chars::spec_digits_val;
use crate::chars::spec_is_dec_digit;
use crate::chars::spec_is_hex_digit;
use crate::chars::spec_is_oct_digit;
use crate::chars::spec_is_unicode_scalar;
use crate::errors::CompileError;
use crate::errors::ErrorLevel;
use crate::lexing_data::lex_pushed_error;
use crate::lexing_data::LexingData;
use crate::location::Location;

verus! {

/// Which numeric encoding an escape sequence uses, together with the
/// digits accumulated so far.
#[derive(Debug)]
pub enum EscapeSequence {
    /// `\u`: exactly 4 hexadecimal digits.
    ShortUnicode(String),
    /// `\U`: exactly 8 hexadecimal digits.
    Unicode(String),
    /// `\x`: 1 or 2 hexadecimal digits.
    Hexadecimal(String),
    /// `\<digit>`: 1 to 3 octal digits.
    Octal(String),
}

/// The encoding alone, without the accumulated digits.
pub ghost enum EscKind {
    ShortUnicode,
    Unicode,
    Hexadecimal,
    Octal,
}

/// Whether the lexer stands inside an escape.
#[derive(Debug)]
pub enum EscapeStatus {
    /// No escape pending.
    False,
    /// A backslash was just seen; the next character picks the form.
    Single,
    /// Inside a numeric escape sequence.
    Sequence(EscapeSequence),
}

impl EscapeSequence {
    /// The digits accumulated so far.
    pub open spec fn value_seq(&self) -> Seq<char> {
        match self {
            EscapeSequence::ShortUnicode(s) => s@,
            EscapeSequence::Unicode(s) => s@,
            EscapeSequence::Hexadecimal(s) => s@,
            EscapeSequence::Octal(s) => s@,
        }
    }

    /// The encoding of this sequence.
    pub open spec fn kind(&self) -> EscKind {
        match self {
            EscapeSequence::ShortUnicode(_) => EscKind::ShortUnicode,
            EscapeSequence::Unicode(_) => EscKind::Unicode,
            EscapeSequence::Hexadecimal(_) => EscKind::Hexadecimal,
            EscapeSequence::Octal(_) => EscKind::Octal,
        }
    }

    /// How many digits the encoding accepts at most.
    pub open spec fn spec_max_len(&self) -> nat {
        spec_kind_max_len(self.kind())
    }

    /// The buffer never exceeds the encoding's length and holds only
    /// digits the encoding can have consumed.
    pub open spec fn wf(&self) -> bool {
        &&& self.value_seq().len() <= self.spec_max_len()
        &&& match self.kind() {
            EscKind::Octal => forall|i: int|
                0 <= i < self.value_seq().len() ==> spec_is_dec_digit(#[trigger] self.value_seq()[i]),
            _ => forall|i: int|
                0 <= i < self.value_seq().len() ==> spec_is_hex_digit(#[trigger] self.value_seq()[i]),
        }
    }

    /// How many digits the encoding accepts at most.
    pub fn max_len(&self) -> (r: usize)
        ensures
            r == self.spec_max_len(),
    {
        match self {
            EscapeSequence::ShortUnicode(_) => 4,
            EscapeSequence::Unicode(_) => 8,
            EscapeSequence::Hexadecimal(_) => 2,
            EscapeSequence::Octal(_) => 3,
        }
    }

    /// True for the octal encoding.
    pub fn is_octal(&self) -> (r: bool)
        ensures
            r == (self.kind() == EscKind::Octal),
    {
        match self {
            EscapeSequence::Octal(_) => true,
            _ => false,
        }
    }

    /// The encoding's name, as the diagnostics spell it.
    pub fn repr(&self) -> (r: &'static str)
        ensures
            r@ == spec_repr(self.kind()),
    {
        match self {
            EscapeSequence::ShortUnicode(_) => "unicode",
            EscapeSequence::Unicode(_) => "big unicode",
            EscapeSequence::Hexadecimal(_) => "hexadecimal",
            EscapeSequence::Octal(_) => "octal",
        }
    }

    /// Borrows the digit buffer.
    pub fn value(&self) -> (r: &String)
        ensures
            r@ == self.value_seq(),
    {
        match self {
            EscapeSequence::ShortUnicode(s) => s,
            EscapeSequence::Unicode(s) => s,
            EscapeSequence::Hexadecimal(s) => s,
            EscapeSequence::Octal(s) => s,
        }
    }

    /// Appends one digit to the buffer.
    pub fn push_digit(&mut self, ch: char)
        ensures
            final(self).kind() == old(self).kind(),
            final(self).value_seq() == old(self).value_seq().push(ch),
    {
        match self {
            EscapeSequence::ShortUnicode(s) => crate::chars::push_char(s, ch),
            EscapeSequence::Unicode(s) => crate::chars::push_char(s, ch),
            EscapeSequence::Hexadecimal(s) => crate::chars::push_char(s, ch),
            EscapeSequence::Octal(s) => crate::chars::push_char(s, ch),
        }
    }
}

/// How many digits each encoding accepts at most.
pub open spec fn spec_kind_max_len(k: EscKind) -> nat {
    match k {
        EscKind::ShortUnicode => 4,
        EscKind::Unicode => 8,
        EscKind::Hexadecimal => 2,
        EscKind::Octal => 3,
    }
}

/// The encoding's name, as the diagnostics spell it.
pub open spec fn spec_repr(k: EscKind) -> Seq<char> {
    match k {
        EscKind::ShortUnicode => "unicode"@,
        EscKind::Unicode => "big unicode"@,
        EscKind::Hexadecimal => "hexadecimal"@,
        EscKind::Octal => "octal"@,
    }
}

/// Diagnostic for a numeric escape that ended short of its length.
pub open spec fn msg_min_digits(repr: Seq<char>, found: nat) -> Seq<char> {
    "Invalid escaped "@ + repr + " number: must contain 4 digits, but found only "@
        + spec_dec_repr(found)
}

/// Diagnostic for a number that is no Unicode scalar value.
pub open spec fn msg_not_unicode(digits: Seq<char>) -> Seq<char> {
    "Invalid escaped unicode number: "@ + digits + " is not a valid unicode character."@
}

/// Diagnostic for a long-unicode escape that ended with few digits.
pub open spec fn msg_big_unicode(found: nat) -> Seq<char> {
    "Invalid escaped unicode number: An escaped big unicode must contain 8 hexadecimal digits, found only "@
        + spec_dec_repr(found) + ". Did you mean to use lowercase \\u?"@
}

/// Diagnostic for an octal escape holding a digit above 7.
pub open spec fn msg_bad_octal() -> Seq<char> {
    "Invalid octal escape sequence: invalid digit found in string"@
}

/// Diagnostic for a character that no escape form covers.
pub open spec fn msg_cannot_escape(ch: char) -> Seq<char> {
    "Character '"@ + seq![ch] + "' can not be escaped, even inside a string or a char."@
}

/// What ending a sequence of the given encoding and digits yields: the
/// decoded code point, or the message of the diagnostic it pushes.
pub open spec fn spec_decode(k: EscKind, v: Seq<char>) -> Result<nat, Seq<char>> {
    match k {
        EscKind::ShortUnicode => if v.len() < 4 {
            Err(msg_min_digits(spec_repr(k), v.len()))
        } else if !spec_is_unicode_scalar(spec_digits_val(v, 16) as u32) {
            Err(msg_not_unicode(v))
        } else {
            Ok(spec_digits_val(v, 16))
        },
        EscKind::Unicode => if v.len() <= 4 {
            Err(msg_big_unicode(v.len()))
        } else if v.len() < 8 {
            Err(msg_min_digits(spec_repr(k), v.len()))
        } else if !spec_is_unicode_scalar(spec_digits_val(v, 16) as u32) {
            Err(msg_not_unicode(v))
        } else {
            Ok(spec_digits_val(v, 16))
        },
        EscKind::Hexadecimal => if v.len() < 1 {
            Err(msg_min_digits(spec_repr(k), v.len()))
        } else {
            Ok(spec_digits_val(v, 16))
        },
        EscKind::Octal => if v.len() < 1 {
            Err(msg_min_digits(spec_repr(k), v.len()))
        } else if exists|i: int| 0 <= i < v.len() && !spec_is_oct_digit(v[i]) {
            Err(msg_bad_octal())
        } else if v.len() < 3 || spec_digits_val(v, 8) <= 255 {
            Ok(spec_digits_val(v, 8))
        } else {
            Ok(spec_digits_val(v.take(2), 8))
        },
    }
}

/// Relates the result of ending a sequence to its specified outcome:
/// either the decoded character comes back, or a diagnostic is pushed
/// and nothing comes back.
pub open spec fn escape_step_ended(
    d: Result<nat, Seq<char>>,
    r: Option<char>,
    old_d: crate::lexing_data::LexingDataV,
    new_d: crate::lexing_data::LexingDataV,
    location: Location,
) -> bool {
    match d {
        Ok(v) => r is Some && (r->0 as u32) as nat == v && new_d == old_d,
        Err(m) => r is None && lex_pushed_error(old_d, new_d, location, m),
    }
}

/// Whether the sub-lexer consumes `ch` into the sequence, or instead
/// ends the sequence and leaves `ch` to the surrounding lexer.  An
/// octal sequence stops before a third digit that would push the value
/// over 255.
pub open spec fn spec_escape_consumes(es: EscapeSequence, ch: char) -> bool {
    &&& es.value_seq().len() < es.spec_max_len()
    &&& match es.kind() {
        EscKind::Octal => spec_is_oct_digit(ch) && !(es.value_seq().len() == 2 && spec_digits_val(
            es.value_seq(),
            8,
        ) * 8 + spec_digit_val(ch) > 255),
        _ => spec_is_hex_digit(ch),
    }
}

/// Exponents of a base, used to bound digit strings.
pub open spec fn spec_pow(base: nat, n: nat) -> nat
    decreases n,
{
    if n == 0 {
        1
    } else {
        base * spec_pow(base, (n - 1) as nat)
    }
}

/// A digit string in base at most `big`, all of whose digits are below
/// `big`, writes a number below `big` to the power of its length.
pub proof fn lemma_digits_val_upper(s: Seq<char>, base: nat, big: nat)
    requires
        1 <= base <= big,
        forall|i: int| 0 <= i < s.len() ==> spec_digit_val(#[trigger] s[i]) < big,
    ensures
        spec_digits_val(s, base) < spec_pow(big, s.len()),
    decreases s.len(),
{
    if s.len() == 0 {
    } else {
        let pre = s.drop_last();
        assert(forall|i: int| 0 <= i < pre.len() ==> spec_digit_val(#[trigger] pre[i]) < big);
        lemma_digits_val_upper(pre, base, big);
        let p = spec_pow(big, pre.len());
        assert(spec_digits_val(pre, base) * base + spec_digit_val(s.last()) < p * big)
            by (nonlinear_arith)
            requires
                spec_digits_val(pre, base) < p,
                spec_digit_val(s.last()) < big,
                1 <= base <= big,
                p >= 1,
        {
        }
        lemma_pow_pos(big, pre.len());
        assert(spec_pow(big, s.len()) == big * p);
    }
}

/// Powers of a positive base are positive.
pub proof fn lemma_pow_pos(base: nat, n: nat)
    requires
        base >= 1,
    ensures
        spec_pow(base, n) >= 1,
    decreases n,
{
    if n > 0 {
        lemma_pow_pos(base, (n - 1) as nat);
        assert(spec_pow(base, n) == base * spec_pow(base, (n - 1) as nat));
        assert(base * spec_pow(base, (n - 1) as nat) >= 1) by (nonlinear_arith)
            requires
                base >= 1,
                spec_pow(base, (n - 1) as nat) >= 1,
        {
        }
    }
}

/// Ends a unicode escape: reads the digits as one hexadecimal number
/// and checks that it is a Unicode scalar value.
fn end_unicode_sequence(lex_data: &mut LexingData, value: &String, location: &Location) -> (r:
    Result<char, ()>)
    requires
        value@.len() <= 8,
        forall|i: int| 0 <= i < value@.len() ==> spec_is_hex_digit(#[trigger] value@[i]),
    ensures
        spec_is_unicode_scalar(spec_digits_val(value@, 16) as u32) ==> {
            &&& r is Ok
            &&& (r->Ok_0 as u32) as nat == spec_digits_val(value@, 16)
            &&& final(lex_data)@ == old(lex_data)@
        },
        !spec_is_unicode_scalar(spec_digits_val(value@, 16) as u32) ==> {
            &&& r is Err
            &&& lex_pushed_error(old(lex_data)@, final(lex_data)@, *location, msg_not_unicode(value@))
        },
{
    proof {
        lemma_digits_val_upper(value@, 16, 16);
        assert(spec_pow(16, 8) == 4294967296) by {
            reveal_with_fuel(spec_pow, 9);
        }
        if value@.len() < 8 {
            lemma_pow_le(16, value@.len(), 8);
        }
    }
    let parsed = parse_u32_digits(value.as_str(), 16);
    let val: u32 = match parsed {
        Some(v) => v,
        None => {
            proof {
                assert(false);
            }
            0
        },
    };
    match char_from_u32(val) {
        Some(ch) => Ok(ch),
        None => {
            let mut m = String::from_str("Invalid escaped unicode number: ");
            m.append(value.as_str());
            m.append(" is not a valid unicode character.");
            proof {
                assert(m@ =~= msg_not_unicode(value@));
            }
            lex_data.push_err(CompileError::new(*location, m, ErrorLevel::Error));
            proof {
                assert(lex_data@.errors.drop_last() =~= old(lex_data)@.errors);
            }
            Err(())
        },
    }
}

/// Powers grow with the exponent.
pub proof fn lemma_pow_le(base: nat, n: nat, m: nat)
    requires
        base >= 1,
        n <= m,
    ensures
        spec_pow(base, n) <= spec_pow(base, m),
    decreases m,
{
    if n < m {
        lemma_pow_le(base, n, (m - 1) as nat);
        lemma_pow_pos(base, (m - 1) as nat);
        assert(spec_pow(base, m) == base * spec_pow(base, (m - 1) as nat));
        assert(base * spec_pow(base, (m - 1) as nat) >= spec_pow(base, (m - 1) as nat))
            by (nonlinear_arith)
            requires
                base >= 1,
                spec_pow(base, (m - 1) as nat) >= 0,
        {
        }
    }
}

/// Ends the active escape sequence: decodes the accumulated digits into
/// one character, or pushes a diagnostic and yields nothing.
pub fn end_escape_sequence(
    lex_data: &mut LexingData,
    location: &Location,
    sequence: &EscapeSequence,
) -> (r: Result<char, ()>)
    requires
        sequence.wf(),
    ensures
        escape_step_ended(
            spec_decode(sequence.kind(), sequence.value_seq()),
            match r {
                Ok(c) => Some(c),
                Err(_) => None,
            },
            old(lex_data)@,
            final(lex_data)@,
            *location,
        ),
        r is Err <==> spec_decode(sequence.kind(), sequence.value_seq()) is Err,
{
    match sequence {
        EscapeSequence::ShortUnicode(value) => {
            match expect_min_length(lex_data, 4, value, location, sequence) {
                Err(()) => Err(()),
                Ok(()) => end_unicode_sequence(lex_data, value, location),
            }
        },
        EscapeSequence::Unicode(value) => {
            let len = value.unicode_len();
            if len <= 4 {
                let mut m = String::from_str(
                    "Invalid escaped unicode number: An escaped big unicode must contain 8 hexadecimal digits, found only ",
                );
                let n = dec_string(len);
                m.append(n.as_str());
                m.append(". Did you mean to use lowercase \\u?");
                proof {
                    assert(m@ =~= msg_big_unicode(value@.len()));
                }
                lex_data.push_err(CompileError::new(*location, m, ErrorLevel::Error));
                proof {
                    assert(lex_data@.errors.drop_last() =~= old(lex_data)@.errors);
                }
                Err(())
            } else {
                match expect_min_length(lex_data, 8, value, location, sequence) {
                    Err(()) => Err(()),
                    Ok(()) => end_unicode_sequence(lex_data, value, location),
                }
            }
        },
        EscapeSequence::Hexadecimal(value) => {
            match expect_min_length(lex_data, 1, value, location, sequence) {
                Err(()) => Err(()),
                Ok(()) => {
                    proof {
                        lemma_digits_val_upper(value@, 16, 16);
                        assert(spec_pow(16, 2) == 256) by {
                            reveal_with_fuel(spec_pow, 3);
                        }
                        if value@.len() < 2 {
                            lemma_pow_le(16, value@.len(), 2);
                        }
                    }
                    let val = parse_u32_digits(value.as_str(), 16).unwrap();
                    Ok((val as u8) as char)
                },
            }
        },
        EscapeSequence::Octal(value) => {
            match expect_min_length(lex_data, 1, value, location, sequence) {
                Err(()) => Err(()),
                Ok(()) => {
                    let n = value.unicode_len();
                    let mut i: usize = 0;
                    while i < n
                        invariant
                            n == value@.len(),
                            0 <= i <= n,
                            n >= 1,
                            sequence.kind() == EscKind::Octal,
                            sequence.value_seq() == value@,
                            lex_data@ == old(lex_data)@,
                            forall|j: int| 0 <= j < i ==> spec_is_oct_digit(#[trigger] value@[j]),
                        decreases n - i,
                    {
                        if !is_oct_digit(value.as_str().get_char(i)) {
                            let m = String::from_str(
                                "Invalid octal escape sequence: invalid digit found in string",
                            );
                            proof {
                                assert(m@ =~= msg_bad_octal());
                            }
                            lex_data.push_err(CompileError::new(*location, m, ErrorLevel::Error));
                            proof {
                                assert(lex_data@.errors.drop_last() =~= old(lex_data)@.errors);
                                assert(sequence.value_seq() == value@);
                                assert(!spec_is_oct_digit(sequence.value_seq()[i as int]));
                                assert(exists|j: int|
                                    0 <= j < sequence.value_seq().len() && !spec_is_oct_digit(
                                        sequence.value_seq()[j],
                                    ));
                            }
                            return Err(());
                        }
                        i = i + 1;
                    }
                    proof {
                        lemma_digits_val_upper(value@, 8, 16);
                        assert(spec_pow(16, 3) == 4096) by {
                            reveal_with_fuel(spec_pow, 4);
                        }
                        assert(spec_pow(16, 2) == 256) by {
                            reveal_with_fuel(spec_pow, 3);
                        }
                        if value@.len() < 3 {
                            lemma_pow_le(16, value@.len(), 2);
                        }
                    }
                    let val = parse_u32_digits(value.as_str(), 8).unwrap();
                    if n < 3 || val <= 255 {
                        Ok((val as u8) as char)
                    } else {
                        let sub = value.as_str().substring_char(0, 2);
                        proof {
                            assert(sub@ =~= value@.take(2));
                            lemma_digits_val_upper(sub@, 8, 16);
                            assert(spec_pow(16, 2) == 256) by {
                                reveal_with_fuel(spec_pow, 3);
                            }
                        }
                        let val2 = parse_u32_digits(sub, 8).unwrap();
                        Ok((val2 as u8) as char)
                    }
                },
            }
        },
    }
}

/// Decodes a one-character escape, as `\n` or `\t`; `None` when the
/// character opens a numeric sequence or cannot be escaped at all.
pub open spec fn spec_simple_escape(ch: char) -> Option<char> {
    match ch {
        '\0' => Some('\0'),
        'a' => Some('\u{7}'),
        'b' => Some('\u{8}'),
        't' => Some('\u{9}'),
        'n' => Some('\u{a}'),
        'v' => Some('\u{b}'),
        'f' => Some('\u{c}'),
        'r' => Some('\u{d}'),
        'e' => Some('\u{1b}'),
        '"' => Some('\u{22}'),
        '\'' => Some('\u{27}'),
        '?' => Some('\u{3f}'),
        '\\' => Some('\u{5c}'),
        _ => None,
    }
}

/// The numeric escape form the character opens, if any.
pub open spec fn spec_escape_start(ch: char) -> Option<EscKind> {
    if ch == 'u' {
        Some(EscKind::ShortUnicode)
    } else if ch == 'U' {
        Some(EscKind::Unicode)
    } else if ch == 'x' {
        Some(EscKind::Hexadecimal)
    } else if spec_is_dec_digit(ch) {
        Some(EscKind::Octal)
    } else {
        None
    }
}

/// The status holds a just-opened sequence of the given kind and digits.
pub open spec fn is_fresh_sequence(st: EscapeStatus, k: EscKind, v: Seq<char>) -> bool {
    match st {
        EscapeStatus::Sequence(es) => es.kind() == k && es.value_seq() == v && es.wf(),
        _ => false,
    }
}

/// Outcome of handling the character that follows a bare backslash.
pub open spec fn one_char_post(
    ch: char,
    r: Option<char>,
    st1: EscapeStatus,
    old_d: crate::lexing_data::LexingDataV,
    new_d: crate::lexing_data::LexingDataV,
    location: Location,
) -> bool {
    if spec_simple_escape(ch) is Some {
        r == spec_simple_escape(ch) && st1 is False && new_d == old_d
    } else {
        match spec_escape_start(ch) {
            Some(k) => {
                &&& r is None
                &&& is_fresh_sequence(
                    st1,
                    k,
                    if k == EscKind::Octal {
                        seq![ch]
                    } else {
                        Seq::<char>::empty()
                    },
                )
                &&& new_d == old_d
            },
            None => {
                &&& r is None
                &&& st1 is False
                &&& lex_pushed_error(old_d, new_d, location, msg_cannot_escape(ch))
            },
        }
    }
}

/// Handles the character right after a bare backslash: a one-character
/// escape decodes at once, `u`, `U`, `x` or a digit opens a numeric
/// sequence, and anything else is a diagnostic.
pub fn handle_escape_one_char(
    ch: char,
    lex_data: &mut LexingData,
    escape_status: &mut EscapeStatus,
    location: &Location,
) -> (r: Option<char>)
    ensures
        one_char_post(ch, r, *final(escape_status), old(lex_data)@, final(lex_data)@, *location),
{
    *escape_status = EscapeStatus::False;
    match ch {
        '\0' => Some('\0'),
        'a' => Some('\u{7}'),
        'b' => Some('\u{8}'),
        't' => Some('\u{9}'),
        'n' => Some('\u{a}'),
        'v' => Some('\u{b}'),
        'f' => Some('\u{c}'),
        'r' => Some('\u{d}'),
        'e' => Some('\u{1b}'),
        '"' => Some('\u{22}'),
        '\'' => Some('\u{27}'),
        '?' => Some('\u{3f}'),
        '\\' => Some('\u{5c}'),
        'u' => {
            *escape_status = EscapeStatus::Sequence(EscapeSequence::ShortUnicode(String::new()));
            None
        },
        'U' => {
            *escape_status = EscapeStatus::Sequence(EscapeSequence::Unicode(String::new()));
            None
        },
        'x' => {
            *escape_status = EscapeStatus::Sequence(EscapeSequence::Hexadecimal(String::new()));
            None
        },
        _ => {
            if is_dec_digit(ch) {
                let mut s = String::new();
                crate::chars::push_char(&mut s, ch);
                proof {
                    assert(s@ =~= seq![ch]);
                }
                *escape_status = EscapeStatus::Sequence(EscapeSequence::Octal(s));
                None
            } else {
                let mut m = String::from_str("Character '");
                crate::chars::push_char(&mut m, ch);
                m.append("' can not be escaped, even inside a string or a char.");
                proof {
                    assert(m@ =~= msg_cannot_escape(ch));
                }
                lex_data.push_err(CompileError::new(*location, m, ErrorLevel::Error));
                proof {
                    assert(lex_data@.errors.drop_last() =~= old(lex_data)@.errors);
                }
                None
            }
        },
    }
}

/// True when the sub-lexer takes `ch` into the sequence rather than
/// ending it.
pub fn escape_consumes(es: &EscapeSequence, ch: char) -> (r: bool)
    requires
        es.wf(),
    ensures
        r == spec_escape_consumes(*es, ch),
{
    let len = es.value().unicode_len();
    if len >= es.max_len() {
        return false;
    }
    if es.is_octal() {
        if !is_oct_digit(ch) {
            return false;
        }
        if len == 2 {
            proof {
                lemma_digits_val_upper(es.value_seq(), 8, 16);
                assert(spec_pow(16, 2) == 256) by {
                    reveal_with_fuel(spec_pow, 3);
                }
            }
            let v = parse_u32_digits(es.value().as_str(), 8).unwrap();
            !(v * 8 + digit_val(ch) > 255)
        } else {
            true
        }
    } else {
        is_hex_digit(ch)
    }
}

/// Outcome of feeding `ch` to an active numeric sequence.
pub open spec fn seq_step_post(
    es0: EscapeSequence,
    es1: EscapeSequence,
    ch: char,
    r: Option<char>,
    old_d: crate::lexing_data::LexingDataV,
    new_d: crate::lexing_data::LexingDataV,
    location: Location,
) -> bool {
    if !spec_escape_consumes(es0, ch) {
        &&& es1 == es0
        &&& escape_step_ended(spec_decode(es0.kind(), es0.value_seq()), r, old_d, new_d, location)
    } else if es0.value_seq().len() + 1 == es0.spec_max_len() {
        &&& es1.kind() == es0.kind()
        &&& es1.value_seq() == es0.value_seq().push(ch)
        &&& escape_step_ended(
            spec_decode(es0.kind(), es0.value_seq().push(ch)),
            r,
            old_d,
            new_d,
            location,
        )
    } else {
        &&& es1.kind() == es0.kind()
        &&& es1.value_seq() == es0.value_seq().push(ch)
        &&& r is None
        &&& new_d == old_d
    }
}

/// Feeds one character to an active numeric sequence: the character is
/// consumed into the buffer (completing the sequence when it fills it),
/// or ends the sequence without being consumed.
pub fn handle_escaped_sequence(
    ch: char,
    escape_sequence: &mut EscapeSequence,
    lex_data: &mut LexingData,
    location: &Location,
) -> (r: Option<char>)
    requires
        old(escape_sequence).wf(),
    ensures
        final(escape_sequence).wf(),
        seq_step_post(
            *old(escape_sequence),
            *final(escape_sequence),
            ch,
            r,
            old(lex_data)@,
            final(lex_data)@,
            *location,
        ),
{
    if !escape_consumes(escape_sequence, ch) {
        match end_escape_sequence(lex_data, location, escape_sequence) {
            Ok(c) => Some(c),
            Err(()) => None,
        }
    } else {
        escape_sequence.push_digit(ch);
        proof {
            let v0 = old(escape_sequence).value_seq();
            let v1 = escape_sequence.value_seq();
            assert(forall|i: int| 0 <= i < v0.len() ==> v1[i] == #[trigger] v0[i]);
            assert(v1[v0.len() as int] == ch);
        }
        if escape_sequence.value().unicode_len() == escape_sequence.max_len() {
            match end_escape_sequence(lex_data, location, escape_sequence) {
                Ok(c) => Some(c),
                Err(()) => None,
            }
        } else {
            None
        }
    }
}

/// Dispatches one character of an active escape: to the numeric
/// sub-lexer when a sequence is open, else to the one-character
/// decoder.
pub fn handle_escape(
    ch: char,
    lex_data: &mut LexingData,
    escape_status: &mut EscapeStatus,
    location: &Location,
) -> (r: Option<char>)
    requires
        !(*old(escape_status) is False),
        *old(escape_status) is Sequence ==> (*old(escape_status))->Sequence_0.wf(),
    ensures
        *old(escape_status) is Sequence ==> {
            &&& *final(escape_status) is Sequence
            &&& (*final(escape_status))->Sequence_0.wf()
            &&& seq_step_post(
                (*old(escape_status))->Sequence_0,
                (*final(escape_status))->Sequence_0,
                ch,
                r,
                old(lex_data)@,
                final(lex_data)@,
                *location,
            )
        },
        *old(escape_status) is Single ==> one_char_post(
            ch,
            r,
            *final(escape_status),
            old(lex_data)@,
            final(lex_data)@,
            *location,
        ),
{
    let mut st = EscapeStatus::False;
    core::mem::swap(escape_status, &mut st);
    match st {
        EscapeStatus::Sequence(mut es) => {
            let r = handle_escaped_sequence(ch, &mut es, lex_data, location);
            *escape_status = EscapeStatus::Sequence(es);
            r
        },
        EscapeStatus::Single => handle_escape_one_char(ch, lex_data, escape_status, location),
        EscapeStatus::False => {
            proof {
                assert(false);
            }
            None
        },
    }
}

/// Pushes the short-of-digits diagnostic when the sequence ended before
/// reaching `size` digits.
pub fn expect_min_length(
    lex_data: &mut LexingData,
    size: usize,
    value: &String,
    location: &Location,
    sequence: &EscapeSequence,
) -> (r: Result<(), ()>)
    ensures
        value@.len() >= size ==> r is Ok && final(lex_data)@ == old(lex_data)@,
        value@.len() < size ==> r is Err && lex_pushed_error(
            old(lex_data)@,
            final(lex_data)@,
            *location,
            msg_min_digits(spec_repr(sequence.kind()), value@.len()),
        ),
{
    let len = value.unicode_len();
    if len < size {
        let mut m = String::from_str("Invalid escaped ");
        m.append(sequence.repr());
        m.append(" number: must contain 4 digits, but found only ");
        let n = dec_string(len);
        m.append(n.as_str());
        proof {
            assert(m@ =~= msg_min_digits(spec_repr(sequence.kind()), value@.len()));
        }
        lex_data.push_err(CompileError::new(*location, m, ErrorLevel::Error));
        proof {
            assert(lex_data@.errors.drop_last() =~= old(lex_data)@.errors);
        }
        return Err(());
    }
    Ok(())
}

} // verus!
