//! The numeric-literal sub-lexer: reads a hexadecimal literal (integer
//! or floating, with the `p` power-of-two exponent grammar) into a
//! typed numeric value.

use vstd::prelude::*;

use crate::chars::is_dec_digit;
use crate::chars::is_hex_digit;
use crate::chars::digit_val;
use crate::chars::parse_u32_digits;
use crate::chars::parse_u64_digits;
use crate::chars::push_char;
use crate::chars::spec_digit_val;
use crate::chars::spec_digits_val;
use crate::chars::spec_is_dec_digit;
use crate::chars::spec_is_hex_digit;
use crate::errors::CompileError;
use crate::errors::CompileErrorV;
use crate::errors::ErrorLevel;
use crate::location::Location;

verus! {

/// The numeric type a literal is read as, decided by its suffix and
/// shape before this sub-lexer runs.
#[derive(Clone, Copy, PartialEq, Eq, Structural, Debug)]
pub enum NumberType {
    Int,
    Long,
    LongLong,
    UInt,
    ULong,
    ULongLong,
    Float,
    Double,
    LongDouble,
}

impl NumberType {
    /// True for the six integer types.
    pub open spec fn spec_is_int(&self) -> bool {
        !(*self is Float || *self is Double || *self is LongDouble)
    }

    /// True for the six integer types.
    pub fn is_int(&self) -> (r: bool)
        ensures
            r == self.spec_is_int(),
    {
        match self {
            NumberType::Float | NumberType::Double | NumberType::LongDouble => false,
            _ => true,
        }
    }
}

/// The exact value of a hexadecimal floating literal, kept as integers:
/// `(int_part + frac) * 2^exponent` or `... / 2^exponent`, where `frac`
/// is the fractional digit string read in base 16.  `mantissa_overflow`
/// records that some converted magnitude exceeded the fixed 23-bit
/// mantissa budget, a warning-level condition that loses precision but
/// no value.
#[derive(Debug)]
pub struct HexFloatValue {
    pub int_part: u64,
    /// Fractional hexadecimal digits, most significant first, each
    /// below 16.
    pub frac_digits: Vec<u8>,
    pub exponent: u32,
    pub exponent_neg: bool,
    pub mantissa_overflow: bool,
}

impl HexFloatValue {
    /// Every fractional digit is one hexadecimal digit.
    pub open spec fn wf(&self) -> bool {
        forall|i: int| 0 <= i < self.frac_digits@.len() ==> self.frac_digits@[i] < 16
    }
}

/// The fractional digits read as a base-16 integer.
pub open spec fn spec_frac_num(s: Seq<u8>) -> nat
    decreases s.len(),
{
    if s.len() == 0 {
        0
    } else {
        (spec_frac_num(s.drop_last()) * 16 + s.last()) as nat
    }
}

/// Numerator of the exact rational value of `v`, over
/// [`spec_value_den`] as denominator.
pub open spec fn spec_value_num(v: HexFloatValue) -> nat {
    ((v.int_part * crate::escape::spec_pow(16, v.frac_digits@.len()) + spec_frac_num(
        v.frac_digits@,
    )) * (if v.exponent_neg {
        1
    } else {
        crate::escape::spec_pow(2, v.exponent as nat)
    })) as nat
}

/// Denominator of the exact rational value of `v`.
pub open spec fn spec_value_den(v: HexFloatValue) -> nat {
    crate::escape::spec_pow(16, v.frac_digits@.len()) * (if v.exponent_neg {
        crate::escape::spec_pow(2, v.exponent as nat)
    } else {
        1
    })
}

/// A typed numeric value.
#[derive(Debug)]
pub enum Number {
    Int(i32),
    Long(i64),
    LongLong(i64),
    UInt(u32),
    ULong(u64),
    ULongLong(u64),
    Float(HexFloatValue),
    Double(HexFloatValue),
    LongDouble(HexFloatValue),
}

/// Which phase of the literal the grammar stands in.
#[derive(Clone, Copy, PartialEq, Eq, Structural, Debug)]
pub enum HexFloatParseState {
    Int,
    Decimal,
    Exponent,
}

/// The split of a hexadecimal literal into integer digits, fractional
/// digits, exponent digits and an optional exponent sign.
#[derive(Debug)]
pub struct HexFloatParse {
    pub int_part: String,
    pub decimal_part: String,
    pub exponent: String,
    pub exponent_neg: Option<bool>,
    pub state: HexFloatParseState,
}

/// Ghost image of a `HexFloatParse`.
pub ghost struct HexParseV {
    pub int_part: Seq<char>,
    pub decimal_part: Seq<char>,
    pub exponent: Seq<char>,
    pub exponent_neg: Option<bool>,
    pub state: HexFloatParseState,
}

impl View for HexFloatParse {
    type V = HexParseV;

    open spec fn view(&self) -> HexParseV {
        HexParseV {
            int_part: self.int_part@,
            decimal_part: self.decimal_part@,
            exponent: self.exponent@,
            exponent_neg: self.exponent_neg,
            state: self.state,
        }
    }
}

/// The empty split, standing in the integer phase.
pub open spec fn spec_hex_parse_init() -> HexParseV {
    HexParseV {
        int_part: Seq::empty(),
        decimal_part: Seq::empty(),
        exponent: Seq::empty(),
        exponent_neg: None,
        state: HexFloatParseState::Int,
    }
}

/// Appending one digit to the phase the split stands in.
pub open spec fn spec_hex_push(st: HexParseV, ch: char) -> HexParseV {
    match st.state {
        HexFloatParseState::Int => HexParseV { int_part: st.int_part.push(ch), ..st },
        HexFloatParseState::Decimal => HexParseV { decimal_part: st.decimal_part.push(ch), ..st },
        HexFloatParseState::Exponent => HexParseV { exponent: st.exponent.push(ch), ..st },
    }
}

pub open spec fn msg_two_signs() -> Seq<char> {
    "Invalid number constant: maximum one sign is allowed in a number literal."@
}

pub open spec fn msg_two_dots() -> Seq<char> {
    "Invalid number constant: maximum one '.' in number constant, but 2 were found."@
}

pub open spec fn msg_exp_char(ch: char) -> Seq<char> {
    "Invalid number constant: invalid character for exponent. Expected an ascii digit, but found '"@
        + seq![ch] + "'"@
}

pub open spec fn msg_invalid_char(ch: char) -> Seq<char> {
    "Invalid number constant: invalid character '"@ + seq![ch] + "' found in number constant"@
}

pub open spec fn msg_int_has_nonhex() -> Seq<char> {
    "Invalid number constant: invalid character found in integer constant"@
}

pub open spec fn msg_int_overflow() -> Seq<char> {
    "Invalid number constant: number too large to fit in its type"@
}

pub open spec fn msg_int_part_overflow() -> Seq<char> {
    "Invalid number constant: integer part too large"@
}

pub open spec fn msg_exp_overflow() -> Seq<char> {
    "Invalid number constant: exponent too large"@
}

/// One step of the literal grammar: the next split, or the message of
/// the diagnostic that makes the literal fatal.
pub open spec fn hex_step(st: HexParseV, ch: char) -> Result<HexParseV, Seq<char>> {
    if ch == '+' || ch == '-' {
        if st.state == HexFloatParseState::Exponent {
            if st.exponent_neg is Some {
                Err(msg_two_signs())
            } else {
                Ok(HexParseV { exponent_neg: Some(ch == '-'), ..st })
            }
        } else {
            Err(msg_invalid_char(ch))
        }
    } else if st.state == HexFloatParseState::Exponent {
        if spec_is_dec_digit(ch) {
            Ok(spec_hex_push(st, ch))
        } else {
            Err(msg_exp_char(ch))
        }
    } else if spec_is_hex_digit(ch) {
        Ok(spec_hex_push(st, ch))
    } else if ch == '.' {
        if st.state == HexFloatParseState::Int {
            Ok(HexParseV { state: HexFloatParseState::Decimal, ..st })
        } else {
            Err(msg_two_dots())
        }
    } else if ch == 'p' || ch == 'P' {
        Ok(HexParseV { state: HexFloatParseState::Exponent, ..st })
    } else {
        Err(msg_invalid_char(ch))
    }
}

/// Runs the grammar over a whole literal.
pub open spec fn hex_run(s: Seq<char>) -> Result<HexParseV, Seq<char>>
    decreases s.len(),
{
    if s.len() == 0 {
        Ok(spec_hex_parse_init())
    } else {
        match hex_run(s.drop_last()) {
            Err(m) => Err(m),
            Ok(st) => hex_step(st, s.last()),
        }
    }
}

/// One more character extends the run by one step.
pub proof fn lemma_hex_run_step(s: Seq<char>, i: int)
    requires
        0 <= i < s.len(),
    ensures
        hex_run(s.take(i + 1)) == match hex_run(s.take(i)) {
            Err(m) => Err(m),
            Ok(st) => hex_step(st, s[i]),
        },
{
    assert(s.take(i + 1).drop_last() =~= s.take(i));
    assert(s.take(i + 1).last() == s[i]);
}


/// Once a step fails, the whole run fails with the same message.
pub proof fn lemma_hex_run_err_persists(s: Seq<char>, i: int)
    requires
        0 <= i <= s.len(),
        hex_run(s.take(i)) is Err,
    ensures
        hex_run(s) == hex_run(s.take(i)),
    decreases s.len() - i,
{
    if i == s.len() {
        assert(s.take(i) =~= s);
    } else {
        lemma_hex_run_step(s, i);
        lemma_hex_run_err_persists(s, i + 1);
    }
}

impl HexFloatParse {
    /// The empty split.
    pub fn new() -> (r: Self)
        ensures
            r@ == spec_hex_parse_init(),
    {
        let r = HexFloatParse {
            int_part: String::new(),
            decimal_part: String::new(),
            exponent: String::new(),
            exponent_neg: None,
            state: HexFloatParseState::Int,
        };
        proof {
            assert(r@.int_part =~= spec_hex_parse_init().int_part);
            assert(r@.decimal_part =~= spec_hex_parse_init().decimal_part);
            assert(r@.exponent =~= spec_hex_parse_init().exponent);
        }
        r
    }

    /// Appends one digit to the phase the split stands in.
    pub fn push(&mut self, ch: char)
        ensures
            final(self)@ == spec_hex_push(old(self)@, ch),
    {
        match self.state {
            HexFloatParseState::Int => push_char(&mut self.int_part, ch),
            HexFloatParseState::Decimal => push_char(&mut self.decimal_part, ch),
            HexFloatParseState::Exponent => push_char(&mut self.exponent, ch),
        }
    }

    /// The exponent's value; an empty exponent counts as zero.
    pub fn get_exp(&self) -> (r: u32)
        requires
            spec_digits_val(self@.exponent, 10) <= u32::MAX,
        ensures
            r == spec_digits_val(self@.exponent, 10),
    {
        parse_u32_digits(self.exponent.as_str(), 10).unwrap()
    }
}

/// Value of one hexadecimal digit character; other characters are
/// left out by the callers.
pub fn hex_char_to_int(ch: char) -> (r: u8)
    requires
        spec_is_hex_digit(ch),
    ensures
        r == spec_digit_val(ch),
        r < 16,
{
    digit_val(ch) as u8
}

/// Splits a hexadecimal literal into its integer, fractional and
/// exponent parts, or reports the first grammar fault as a diagnostic.
pub fn get_hex_float_state(literal: &str, location: &Location) -> (r: Result<
    HexFloatParse,
    CompileError,
>)
    ensures
        match hex_run(literal@) {
            Ok(stv) => r is Ok && r->Ok_0@ == stv,
            Err(m) => r is Err && r->Err_0@ == (CompileErrorV {
                location: *location,
                message: m,
                err_lvl: ErrorLevel::Error,
            }),
        },
{
    let n = literal.unicode_len();
    let mut fp = HexFloatParse::new();
    let mut i: usize = 0;
    while i < n
        invariant
            n == literal@.len(),
            0 <= i <= n,
            hex_run(literal@.take(i as int)) == Ok::<HexParseV, Seq<char>>(fp@),
        decreases n - i,
    {
        let ch = literal.get_char(i);
        proof {
            lemma_hex_run_step(literal@, i as int);
        }
        if ch == '+' || ch == '-' {
            match fp.state {
                HexFloatParseState::Exponent => {
                    match fp.exponent_neg {
                        Some(_) => {
                            let m = String::from_str(
                                "Invalid number constant: maximum one sign is allowed in a number literal.",
                            );
                            proof {
                                assert(m@ =~= msg_two_signs());
                            }
                            proof {
                                lemma_hex_run_err_persists(literal@, i + 1);
                            }
                            proof {
                        lemma_hex_run_err_persists(literal@, i + 1);
                    }
                    return Err(CompileError::new(*location, m, ErrorLevel::Error));
                        },
                        None => {
                            fp.exponent_neg = Some(ch == '-');
                        },
                    }
                },
                _ => {
                    let mut m = String::from_str("Invalid number constant: invalid character '");
                    push_char(&mut m, ch);
                    m.append("' found in number constant");
                    proof {
                        assert(m@ =~= msg_invalid_char(ch));
                    }
                    proof {
                        lemma_hex_run_err_persists(literal@, i + 1);
                    }
                    return Err(CompileError::new(*location, m, ErrorLevel::Error));
                },
            }
        } else {
            match fp.state {
                HexFloatParseState::Exponent => {
                    if is_dec_digit(ch) {
                        fp.push(ch);
                    } else {
                        let mut m = String::from_str(
                            "Invalid number constant: invalid character for exponent. Expected an ascii digit, but found '",
                        );
                        push_char(&mut m, ch);
                        m.append("'");
                        proof {
                            assert(m@ =~= msg_exp_char(ch));
                        }
                        proof {
                        lemma_hex_run_err_persists(literal@, i + 1);
                    }
                    return Err(CompileError::new(*location, m, ErrorLevel::Error));
                    }
                },
                _ => {
                    if is_hex_digit(ch) {
                        fp.push(ch);
                    } else if ch == '.' {
                        match fp.state {
                            HexFloatParseState::Int => {
                                fp.state = HexFloatParseState::Decimal;
                            },
                            _ => {
                                let m = String::from_str(
                                    "Invalid number constant: maximum one '.' in number constant, but 2 were found.",
                                );
                                proof {
                                    assert(m@ =~= msg_two_dots());
                                }
                                proof {
                                lemma_hex_run_err_persists(literal@, i + 1);
                            }
                            proof {
                        lemma_hex_run_err_persists(literal@, i + 1);
                    }
                    return Err(CompileError::new(*location, m, ErrorLevel::Error));
                            },
                        }
                    } else if ch == 'p' || ch == 'P' {
                        fp.state = HexFloatParseState::Exponent;
                    } else {
                        let mut m = String::from_str(
                            "Invalid number constant: invalid character '",
                        );
                        push_char(&mut m, ch);
                        m.append("' found in number constant");
                        proof {
                            assert(m@ =~= msg_invalid_char(ch));
                        }
                        proof {
                        lemma_hex_run_err_persists(literal@, i + 1);
                    }
                    return Err(CompileError::new(*location, m, ErrorLevel::Error));
                    }
                },
            }
        }
        i = i + 1;
    }
    proof {
        assert(literal@.take(n as int) =~= literal@);
    }
    Ok(fp)
}

/// Order in which the integer types are tried: the four wider
/// candidates follow the starting type.
pub open spec fn spec_rank(t: NumberType) -> int {
    match t {
        NumberType::Int => 0,
        NumberType::Long => 1,
        NumberType::LongLong => 2,
        NumberType::UInt => 3,
        NumberType::ULong => 4,
        NumberType::ULongLong => 5,
        _ => 6,
    }
}

/// The first integer type, from the starting one onward, whose range
/// holds the value.
pub open spec fn spec_pick_int(v: nat, start: NumberType) -> Option<NumberType> {
    let k = spec_rank(start);
    if k <= 0 && v <= i32::MAX {
        Some(NumberType::Int)
    } else if k <= 1 && v <= i64::MAX {
        Some(NumberType::Long)
    } else if k <= 2 && v <= i64::MAX {
        Some(NumberType::LongLong)
    } else if k <= 3 && v <= u32::MAX {
        Some(NumberType::UInt)
    } else if k <= 4 && v <= u64::MAX {
        Some(NumberType::ULong)
    } else if k <= 5 && v <= u64::MAX {
        Some(NumberType::ULongLong)
    } else {
        None
    }
}

/// The number a chosen integer type wraps around the value.
pub open spec fn spec_int_number(t: NumberType, v: nat) -> Number {
    match t {
        NumberType::Int => Number::Int(v as i32),
        NumberType::Long => Number::Long(v as i64),
        NumberType::LongLong => Number::LongLong(v as i64),
        NumberType::UInt => Number::UInt(v as u32),
        NumberType::ULong => Number::ULong(v as u64),
        _ => Number::ULongLong(v as u64),
    }
}

/// The fields of a floating value built from the split `stv`.
pub open spec fn spec_float_fields(hv: HexFloatValue, stv: HexParseV) -> bool {
    &&& hv.int_part == spec_digits_val(stv.int_part, 16)
    &&& hv.frac_digits@ == stv.decimal_part.map_values(|c: char| spec_digit_val(c) as u8)
    &&& hv.exponent == spec_digits_val(stv.exponent, 10)
    &&& hv.exponent_neg == (stv.exponent_neg == Some(true))
    &&& hv.mantissa_overflow == (spec_digits_val(stv.int_part, 16) >= 0x800000
        || spec_digits_val(stv.exponent, 10) >= 23 || stv.decimal_part.len() > 0x800000)
}

/// The number wraps a floating value of the right type built from the
/// split `stv`.
pub open spec fn spec_float_number(r: Number, t: NumberType, stv: HexParseV) -> bool {
    match t {
        NumberType::Float => r is Float && spec_float_fields(r->Float_0, stv),
        NumberType::Double => r is Double && spec_float_fields(r->Double_0, stv),
        NumberType::LongDouble => r is LongDouble && spec_float_fields(r->LongDouble_0, stv),
        _ => false,
    }
}

/// Position of the starting type in the candidate order.
fn rank(t: &NumberType) -> (r: i32)
    ensures
        r == spec_rank(*t),
{
    match t {
        NumberType::Int => 0,
        NumberType::Long => 1,
        NumberType::LongLong => 2,
        NumberType::UInt => 3,
        NumberType::ULong => 4,
        NumberType::ULongLong => 5,
        _ => 6,
    }
}

/// Reads a hexadecimal literal (digits only, without the `0x` prefix)
/// into the given numeric type.  Integer types take the whole literal
/// as base-16 digits, widening along the candidate order when the value
/// does not fit; floating types split the literal with the exponent
/// grammar and keep the exact value as integers.
pub fn to_hex_value(literal: &str, nb_type: &NumberType, location: &Location) -> (r: Result<
    Number,
    CompileError,
>)
    ensures
        match hex_run(literal@) {
            Err(m) => r is Err && r->Err_0@ == (CompileErrorV {
                location: *location,
                message: m,
                err_lvl: ErrorLevel::Error,
            }),
            Ok(stv) => if nb_type.spec_is_int() {
                if exists|i: int| 0 <= i < literal@.len() && !spec_is_hex_digit(literal@[i]) {
                    r is Err && r->Err_0@ == (CompileErrorV {
                        location: *location,
                        message: msg_int_has_nonhex(),
                        err_lvl: ErrorLevel::Error,
                    })
                } else {
                    match spec_pick_int(spec_digits_val(literal@, 16), *nb_type) {
                        Some(t) => r is Ok && r->Ok_0 == spec_int_number(
                            t,
                            spec_digits_val(literal@, 16),
                        ),
                        None => r is Err && r->Err_0@ == (CompileErrorV {
                            location: *location,
                            message: msg_int_overflow(),
                            err_lvl: ErrorLevel::Error,
                        }),
                    }
                }
            } else {
                if spec_digits_val(stv.int_part, 16) > u64::MAX {
                    r is Err && r->Err_0@ == (CompileErrorV {
                        location: *location,
                        message: msg_int_part_overflow(),
                        err_lvl: ErrorLevel::Error,
                    })
                } else if spec_digits_val(stv.exponent, 10) > u32::MAX {
                    r is Err && r->Err_0@ == (CompileErrorV {
                        location: *location,
                        message: msg_exp_overflow(),
                        err_lvl: ErrorLevel::Error,
                    })
                } else {
                    r is Ok && spec_float_number(r->Ok_0, *nb_type, stv) && (r->Ok_0 is Float
                        ==> r->Ok_0->Float_0.wf()) && (r->Ok_0 is Double
                        ==> r->Ok_0->Double_0.wf()) && (r->Ok_0 is LongDouble
                        ==> r->Ok_0->LongDouble_0.wf())
                }
            },
        },
{
    let fp = match get_hex_float_state(literal, location) {
        Ok(fp) => fp,
        Err(e) => {
            return Err(e);
        },
    };
    if nb_type.is_int() {
        let n = literal.unicode_len();
        let mut i: usize = 0;
        while i < n
            invariant
                n == literal@.len(),
                0 <= i <= n,
                hex_run(literal@) is Ok,
                nb_type.spec_is_int(),
                forall|j: int| 0 <= j < i ==> spec_is_hex_digit(#[trigger] literal@[j]),
            decreases n - i,
        {
            if !is_hex_digit(literal.get_char(i)) {
                let m = String::from_str(
                    "Invalid number constant: invalid character found in integer constant",
                );
                proof {
                    assert(m@ =~= msg_int_has_nonhex());
                    assert(!spec_is_hex_digit(literal@[i as int]));
                }
                return Err(CompileError::new(*location, m, ErrorLevel::Error));
            }
            i = i + 1;
        }
        match parse_u64_digits(literal, 16) {
            None => {
                let m = String::from_str(
                    "Invalid number constant: number too large to fit in its type",
                );
                proof {
                    assert(m@ =~= msg_int_overflow());
                }
                Err(CompileError::new(*location, m, ErrorLevel::Error))
            },
            Some(v) => {
                let k = rank(nb_type);
                if k <= 0 && v <= i32::MAX as u64 {
                    Ok(Number::Int(v as i32))
                } else if k <= 1 && v <= i64::MAX as u64 {
                    Ok(Number::Long(v as i64))
                } else if k <= 2 && v <= i64::MAX as u64 {
                    Ok(Number::LongLong(v as i64))
                } else if k <= 3 && v <= u32::MAX as u64 {
                    Ok(Number::UInt(v as u32))
                } else if k <= 4 {
                    Ok(Number::ULong(v))
                } else if k <= 5 {
                    Ok(Number::ULongLong(v))
                } else {
                    let m = String::from_str(
                        "Invalid number constant: number too large to fit in its type",
                    );
                    proof {
                        assert(m@ =~= msg_int_overflow());
                    }
                    Err(CompileError::new(*location, m, ErrorLevel::Error))
                }
            },
        }
    } else {
        let ip = match parse_u64_digits(fp.int_part.as_str(), 16) {
            Some(x) => x,
            None => {
                let m = String::from_str("Invalid number constant: integer part too large");
                proof {
                    assert(m@ =~= msg_int_part_overflow());
                }
                return Err(CompileError::new(*location, m, ErrorLevel::Error));
            },
        };
        let ex = match parse_u32_digits(fp.exponent.as_str(), 10) {
            Some(x) => x,
            None => {
                let m = String::from_str("Invalid number constant: exponent too large");
                proof {
                    assert(m@ =~= msg_exp_overflow());
                }
                return Err(CompileError::new(*location, m, ErrorLevel::Error));
            },
        };
        let dn = fp.decimal_part.unicode_len();
        let mut frac: Vec<u8> = Vec::new();
        let mut i: usize = 0;
        while i < dn
            invariant
                dn == fp.decimal_part@.len(),
                0 <= i <= dn,
                frac@ == fp.decimal_part@.take(i as int).map_values(
                    |c: char| spec_digit_val(c) as u8,
                ),
            decreases dn - i,
        {
            let c = fp.decimal_part.as_str().get_char(i);
            frac.push(digit_val(c) as u8);
            proof {
                assert(frac@ =~= fp.decimal_part@.take(i + 1).map_values(
                    |c: char| spec_digit_val(c) as u8,
                ));
            }
            i = i + 1;
        }
        proof {
            assert(fp.decimal_part@.take(dn as int) =~= fp.decimal_part@);
        }
        let mantissa_overflow = ip >= 0x800000 || ex >= 23 || frac.len() > 0x800000;
        let exponent_neg = match fp.exponent_neg {
            Some(true) => true,
            _ => false,
        };
        let hv = HexFloatValue {
            int_part: ip,
            frac_digits: frac,
            exponent: ex,
            exponent_neg,
            mantissa_overflow,
        };
        match nb_type {
            NumberType::Float => Ok(Number::Float(hv)),
            NumberType::Double => Ok(Number::Double(hv)),
            _ => Ok(Number::LongDouble(hv)),
        }
    }
}

} // verus!
