//! Character classes and digit arithmetic shared by the lexer and the
//! numeric sub-lexer, together with the few string-building primitives
//! the rest of the crate needs.

use vstd::prelude::*;

verus! {

/// Value of `c` as a digit in any radix up to 16; 0 for other characters.
pub open spec fn spec_digit_val(c: char) -> nat {
    if '0' <= c && c <= '9' {
        (c as u32 - '0' as u32) as nat
    } else if 'a' <= c && c <= 'f' {
        (c as u32 - 'a' as u32 + 10) as nat
    } else if 'A' <= c && c <= 'F' {
        (c as u32 - 'A' as u32 + 10) as nat
    } else {
        0
    }
}

pub open spec fn spec_is_dec_digit(c: char) -> bool {
    '0' <= c && c <= '9'
}

pub open spec fn spec_is_oct_digit(c: char) -> bool {
    '0' <= c && c <= '7'
}

pub open spec fn spec_is_hex_digit(c: char) -> bool {
    ('0' <= c && c <= '9') || ('a' <= c && c <= 'f') || ('A' <= c && c <= 'F')
}

/// ASCII letters and digits; the lexer builds identifiers and numbers
/// out of these (plus `_` and `.`).
pub open spec fn spec_is_alphanumeric(c: char) -> bool {
    ('0' <= c && c <= '9') || ('a' <= c && c <= 'z') || ('A' <= c && c <= 'Z')
}

/// ASCII whitespace: space, tab, line feed, vertical tab, form feed,
/// carriage return.
pub open spec fn spec_is_whitespace(c: char) -> bool {
    c == ' ' || c == '\t' || c == '\n' || c == '\u{b}' || c == '\u{c}' || c == '\r'
}

/// Unicode scalar values: everything below the surrogate range plus
/// everything between the surrogates and the last code point.
pub open spec fn spec_is_unicode_scalar(v: u32) -> bool {
    v < 0xD800 || (0xE000 <= v && v < 0x110000)
}

/// The number written by the digit sequence `s` in the given base,
/// most significant digit first.
pub open spec fn spec_digits_val(s: Seq<char>, base: nat) -> nat
    decreases s.len(),
{
    if s.len() == 0 {
        0
    } else {
        spec_digits_val(s.drop_last(), base) * base + spec_digit_val(s.last())
    }
}

pub fn is_dec_digit(c: char) -> (r: bool)
    ensures
        r == spec_is_dec_digit(c),
{
    '0' <= c && c <= '9'
}

pub fn is_oct_digit(c: char) -> (r: bool)
    ensures
        r == spec_is_oct_digit(c),
{
    '0' <= c && c <= '7'
}

pub fn is_hex_digit(c: char) -> (r: bool)
    ensures
        r == spec_is_hex_digit(c),
{
    ('0' <= c && c <= '9') || ('a' <= c && c <= 'f') || ('A' <= c && c <= 'F')
}

pub fn is_alphanumeric(c: char) -> (r: bool)
    ensures
        r == spec_is_alphanumeric(c),
{
    ('0' <= c && c <= '9') || ('a' <= c && c <= 'z') || ('A' <= c && c <= 'Z')
}

pub fn is_whitespace(c: char) -> (r: bool)
    ensures
        r == spec_is_whitespace(c),
{
    c == ' ' || c == '\t' || c == '\n' || c == '\u{b}' || c == '\u{c}' || c == '\r'
}

/// Value of one digit character.
pub fn digit_val(c: char) -> (r: u32)
    ensures
        r == spec_digit_val(c),
        r <= 15,
{
    if '0' <= c && c <= '9' {
        c as u32 - '0' as u32
    } else if 'a' <= c && c <= 'f' {
        c as u32 - 'a' as u32 + 10
    } else if 'A' <= c && c <= 'F' {
        c as u32 - 'A' as u32 + 10
    } else {
        0
    }
}

/// Extending a digit string on the right never shrinks its value.
pub proof fn lemma_digits_val_take_step(s: Seq<char>, base: nat, i: int)
    requires
        0 <= i < s.len(),
    ensures
        spec_digits_val(s.take(i + 1), base) == spec_digits_val(s.take(i), base) * base
            + spec_digit_val(s[i]),
{
    assert(s.take(i + 1).drop_last() =~= s.take(i));
    assert(s.take(i + 1).last() == s[i]);
}

/// A digit string is worth at least as much as any of its prefixes.
pub proof fn lemma_digits_val_prefix_le(s: Seq<char>, base: nat, i: int)
    requires
        0 <= i <= s.len(),
        base >= 1,
    ensures
        spec_digits_val(s.take(i), base) <= spec_digits_val(s, base),
    decreases s.len() - i,
{
    if i == s.len() {
        assert(s.take(i) =~= s);
    } else {
        lemma_digits_val_take_step(s, base, i);
        assert(spec_digits_val(s.take(i), base) * base >= spec_digits_val(s.take(i), base) * 1)
            by (nonlinear_arith)
            requires base >= 1, spec_digits_val(s.take(i), base) >= 0;
        lemma_digits_val_prefix_le(s, base, i + 1);
    }
}

/// Reads the whole string as a number in the given base.  `None` means
/// the value does not fit in a `u32`.
pub fn parse_u32_digits(s: &str, base: u32) -> (r: Option<u32>)
    requires
        2 <= base <= 16,
    ensures
        r is Some <==> spec_digits_val(s@, base as nat) <= u32::MAX,
        r is Some ==> r->0 == spec_digits_val(s@, base as nat),
{
    let n: usize = s.unicode_len();
    let mut acc: u64 = 0;
    let mut i: usize = 0;
    while i < n
        invariant
            2 <= base <= 16,
            n == s@.len(),
            0 <= i <= n,
            acc == spec_digits_val(s@.take(i as int), base as nat),
            acc <= u32::MAX,
        decreases n - i,
    {
        let c = s.get_char(i);
        let d = digit_val(c);
        proof {
            lemma_digits_val_take_step(s@, base as nat, i as int);
            vstd::arithmetic::mul::lemma_mul_inequality(acc as int, u32::MAX as int, base as int);
            vstd::arithmetic::mul::lemma_mul_upper_bound(u32::MAX as int, u32::MAX as int, base as int, 16);
        }
        acc = acc * (base as u64) + (d as u64);
        if acc > u32::MAX as u64 {
            proof {
                lemma_digits_val_prefix_le(s@, base as nat, i + 1);
            }
            return None;
        }
        i = i + 1;
    }
    proof {
        assert(s@.take(n as int) =~= s@);
    }
    Some(acc as u32)
}

/// Reads the whole string as a number in the given base.  `None` means
/// the value does not fit in a `u64`.
pub fn parse_u64_digits(s: &str, base: u64) -> (r: Option<u64>)
    requires
        2 <= base <= 16,
    ensures
        r is Some <==> spec_digits_val(s@, base as nat) <= u64::MAX,
        r is Some ==> r->0 == spec_digits_val(s@, base as nat),
{
    let n: usize = s.unicode_len();
    let mut acc: u128 = 0;
    let mut i: usize = 0;
    while i < n
        invariant
            2 <= base <= 16,
            n == s@.len(),
            0 <= i <= n,
            acc == spec_digits_val(s@.take(i as int), base as nat),
            acc <= u64::MAX,
        decreases n - i,
    {
        let c = s.get_char(i);
        let d = digit_val(c);
        proof {
            lemma_digits_val_take_step(s@, base as nat, i as int);
            vstd::arithmetic::mul::lemma_mul_inequality(acc as int, u64::MAX as int, base as int);
            vstd::arithmetic::mul::lemma_mul_upper_bound(u64::MAX as int, u64::MAX as int, base as int, 16);
        }
        acc = acc * (base as u128) + (d as u128);
        if acc > u64::MAX as u128 {
            proof {
                lemma_digits_val_prefix_le(s@, base as nat, i + 1);
            }
            return None;
        }
        i = i + 1;
    }
    proof {
        assert(s@.take(n as int) =~= s@);
    }
    Some(acc as u64)
}

/// Relies on `String::push`: appends exactly the given character.
#[verifier::external_body]
pub fn push_char(s: &mut String, c: char)
    ensures
        final(s)@ == old(s)@.push(c),
{
    s.push(c);
}

/// Relies on `char::from_u32`: returns `Some` exactly on Unicode scalar
/// values, and the returned character converts back to the same number.
#[verifier::external_body]
pub fn char_from_u32(v: u32) -> (r: Option<char>)
    ensures
        r is Some <==> spec_is_unicode_scalar(v),
        r is Some ==> r->0 as u32 == v,
{
    char::from_u32(v)
}

/// Decimal digit characters of `n`, most significant first.
pub open spec fn spec_dec_repr(n: nat) -> Seq<char>
    decreases n,
{
    let digit = seq![spec_dec_digit_char(n % 10)];
    if n < 10 {
        digit
    } else {
        spec_dec_repr(n / 10) + digit
    }
}

pub open spec fn spec_dec_digit_char(d: nat) -> char {
    if d == 0 { '0' }
    else if d == 1 { '1' }
    else if d == 2 { '2' }
    else if d == 3 { '3' }
    else if d == 4 { '4' }
    else if d == 5 { '5' }
    else if d == 6 { '6' }
    else if d == 7 { '7' }
    else if d == 8 { '8' }
    else { '9' }
}

fn dec_digit_char(d: usize) -> (r: char)
    requires
        d < 10,
    ensures
        r == spec_dec_digit_char(d as nat),
{
    if d == 0 { '0' }
    else if d == 1 { '1' }
    else if d == 2 { '2' }
    else if d == 3 { '3' }
    else if d == 4 { '4' }
    else if d == 5 { '5' }
    else if d == 6 { '6' }
    else if d == 7 { '7' }
    else if d == 8 { '8' }
    else { '9' }
}

/// Writes `n` in decimal.
pub fn dec_string(n: usize) -> (r: String)
    ensures
        r@ == spec_dec_repr(n as nat),
    decreases n,
{
    let mut r = if n < 10 {
        String::new()
    } else {
        dec_string(n / 10)
    };
    push_char(&mut r, dec_digit_char(n % 10));
    proof {
        if n < 10 {
            assert(r@ =~= spec_dec_repr(n as nat));
        } else {
            assert(r@ =~= spec_dec_repr(n as nat));
        }
    }
    r
}

} // verus!
