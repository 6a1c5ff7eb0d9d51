//! The character-stream lexer: a state machine that scans the whole
//! source buffer and emits tokens, delegating escape sequences to the
//! escape sub-lexer.

use vstd::prelude::*;

use crate::escape::EscapeSequence;
use crate::escape::EscapeStatus;
use crate::lexing_data::LexingData;
use crate::token::Symbol;
use crate::location::Location;

verus! {

/// Where the lexer stands with respect to comments.
#[derive(Clone, Copy, PartialEq, Eq, Structural, Debug)]
pub enum CommentStatus {
    /// Not inside a comment.
    False,
    /// Inside a block comment.
    True,
    /// Inside a block comment, just after a `*`.
    Star,
}

/// Where the lexer stands with respect to a char literal.
#[derive(Clone, Copy, PartialEq, Eq, Structural, Debug)]
pub enum CharStatus {
    Closed,
    Opened,
    Written,
}

/// All the state the lexer carries from one character to the next.
pub struct ParsingState {
    pub comments: CommentStatus,
    pub escape: EscapeStatus,
    pub single_quote: CharStatus,
    pub double_quote: bool,
    /// Identifier, number or string content accumulated so far.
    pub literal: String,
    /// Pending operator spelling, always a valid symbol spelling.
    pub operator: String,
    /// Where the literal being accumulated started.
    pub initial_location: Location,
}

impl ParsingState {
    /// A fresh state standing at the given location.
    pub fn new(location: Location) -> (r: Self)
        ensures
            r.comments == CommentStatus::False,
            r.escape == EscapeStatus::False,
            r.single_quote == CharStatus::Closed,
            r.double_quote == false,
            r.literal@ =~= Seq::<char>::empty(),
            r.operator@ =~= Seq::<char>::empty(),
            r.initial_location == location,
    {
        ParsingState {
            comments: CommentStatus::False,
            escape: EscapeStatus::False,
            single_quote: CharStatus::Closed,
            double_quote: false,
            literal: String::new(),
            operator: String::new(),
            initial_location: location,
        }
    }
}

/// Ghost image of the escape status.
pub ghost enum EscStV {
    False,
    Single,
    Sequence(crate::escape::EscKind, Seq<char>),
}

/// Ghost image of the whole lexer state: the state machine's flags and
/// buffers, the cursor positions, and everything emitted so far.
#[verifier::ext_equal]
pub ghost struct LexSt {
    pub comments: CommentStatus,
    pub escape: EscStV,
    pub squote: CharStatus,
    pub dquote: bool,
    pub literal: Seq<char>,
    pub operator: Seq<char>,
    pub initial_location: Location,
    pub location: Location,
    pub tokens: Seq<crate::token::TokenV>,
    pub errors: Seq<crate::errors::CompileErrorV>,
    pub failed: bool,
}

/// The escape status a runtime value stands for.
pub open spec fn esc_view(e: EscapeStatus) -> EscStV {
    match e {
        EscapeStatus::False => EscStV::False,
        EscapeStatus::Single => EscStV::Single,
        EscapeStatus::Sequence(es) => EscStV::Sequence(es.kind(), es.value_seq()),
    }
}

/// The lexer state the three runtime pieces stand for.
pub open spec fn abs_state(
    p: ParsingState,
    d: crate::lexing_data::LexingDataV,
    loc: Location,
) -> LexSt {
    LexSt {
        comments: p.comments,
        escape: esc_view(p.escape),
        squote: p.single_quote,
        dquote: p.double_quote,
        literal: p.literal@,
        operator: p.operator@,
        initial_location: p.initial_location,
        location: loc,
        tokens: d.tokens.map_values(|t: crate::token::Token| t@),
        errors: d.errors.map_values(|e: crate::errors::CompileError| e@),
        failed: d.failed,
    }
}

/// The symbol a one-character spelling names.
pub open spec fn spec_symbol_1(a: char) -> Option<Symbol> {
    if a == '+' { Some(Symbol::Plus) }
    else if a == '-' { Some(Symbol::Minus) }
    else if a == '(' { Some(Symbol::ParenthesisOpen) }
    else if a == ')' { Some(Symbol::ParenthesisClose) }
    else if a == '[' { Some(Symbol::BracketOpen) }
    else if a == ']' { Some(Symbol::BracketClose) }
    else if a == '{' { Some(Symbol::BraceOpen) }
    else if a == '}' { Some(Symbol::BraceClose) }
    else if a == '.' { Some(Symbol::Dot) }
    else if a == ',' { Some(Symbol::Comma) }
    else if a == '~' { Some(Symbol::BitwiseNot) }
    else if a == '!' { Some(Symbol::LogicalNot) }
    else if a == '*' { Some(Symbol::Star) }
    else if a == '&' { Some(Symbol::Ampercent) }
    else if a == '%' { Some(Symbol::Modulo) }
    else if a == '/' { Some(Symbol::Divide) }
    else if a == '>' { Some(Symbol::Gt) }
    else if a == '<' { Some(Symbol::Lt) }
    else if a == '=' { Some(Symbol::Assign) }
    else if a == '|' { Some(Symbol::BitwiseOr) }
    else if a == '^' { Some(Symbol::BitwiseXor) }
    else if a == '?' { Some(Symbol::Interrogation) }
    else if a == ':' { Some(Symbol::Colon) }
    else if a == ';' { Some(Symbol::SemiColon) }
    else { None }
}

/// The symbol a two-character spelling names.
pub open spec fn spec_symbol_2(a: char, b: char) -> Option<Symbol> {
    if a == '=' && b == '=' { Some(Symbol::Equal) }
    else if a == '!' && b == '=' { Some(Symbol::Different) }
    else if a == '<' && b == '=' { Some(Symbol::Le) }
    else if a == '>' && b == '=' { Some(Symbol::Ge) }
    else if a == '&' && b == '&' { Some(Symbol::LogicalAnd) }
    else if a == '|' && b == '|' { Some(Symbol::LogicalOr) }
    else if a == '<' && b == '<' { Some(Symbol::ShiftLeft) }
    else if a == '>' && b == '>' { Some(Symbol::ShiftRight) }
    else if a == '+' && b == '=' { Some(Symbol::AddAssign) }
    else if a == '-' && b == '=' { Some(Symbol::SubAssign) }
    else if a == '*' && b == '=' { Some(Symbol::MulAssign) }
    else if a == '/' && b == '=' { Some(Symbol::DivAssign) }
    else if a == '%' && b == '=' { Some(Symbol::ModAssign) }
    else if a == '&' && b == '=' { Some(Symbol::AndAssign) }
    else if a == '|' && b == '=' { Some(Symbol::OrAssign) }
    else if a == '^' && b == '=' { Some(Symbol::XorAssign) }
    else if a == '-' && b == '>' { Some(Symbol::Arrow) }
    else if a == '+' && b == '+' { Some(Symbol::Increment) }
    else if a == '-' && b == '-' { Some(Symbol::Decrement) }
    else { None }
}

/// The symbol a three-character spelling names.
pub open spec fn spec_symbol_3(a: char, b: char, c: char) -> Option<Symbol> {
    if a == '<' && b == '<' && c == '=' { Some(Symbol::ShiftLeftAssign) }
    else if a == '>' && b == '>' && c == '=' { Some(Symbol::ShiftRightAssign) }
    else { None }
}

/// The symbol a spelling names, by the longest-match table.
pub open spec fn spec_symbol_of(s: Seq<char>) -> Option<Symbol> {
    if s.len() == 1 { spec_symbol_1(s[0]) }
    else if s.len() == 2 { spec_symbol_2(s[0], s[1]) }
    else if s.len() == 3 { spec_symbol_3(s[0], s[1], s[2]) }
    else { None }
}

/// The characters that always route to symbol handling.
pub open spec fn spec_is_symbol_char(c: char) -> bool {
    c == '+' || c == '-' || c == '(' || c == ')' || c == '[' || c == ']' || c == '{' || c == '}'
        || c == '~' || c == '!' || c == '*' || c == '&' || c == '%' || c == '/' || c == '>'
        || c == '<' || c == '=' || c == '|' || c == '^' || c == ',' || c == '?' || c == ':'
        || c == ';'
}

/// A literal buffer that will flush as a number: it starts with a digit.
pub open spec fn spec_is_number_lit(l: Seq<char>) -> bool {
    l.len() > 0 && crate::chars::spec_is_dec_digit(l[0])
}

pub open spec fn msg_char_too_long() -> Seq<char> {
    "A char must contain only one character"@
}

pub open spec fn msg_char_empty() -> Seq<char> {
    "A char must contain at least one character"@
}

pub open spec fn msg_escape_outside() -> Seq<char> {
    "Escape sequences are only allowed inside a string or a char."@
}

pub open spec fn msg_unsupported(ch: char) -> Seq<char> {
    "Character not supported by parser: '"@ + seq![ch] + "'"@
}

/// An `Error`-severity diagnostic appended at the state's location.
pub open spec fn st_err(st: LexSt, m: Seq<char>) -> LexSt {
    LexSt {
        errors: st.errors.push(
            crate::errors::CompileErrorV {
                location: st.location,
                message: m,
                err_lvl: crate::errors::ErrorLevel::Error,
            },
        ),
        failed: true,
        ..st
    }
}

/// Flushes the literal buffer: a token whose kind the first character
/// decides, standing where the literal began.
pub open spec fn st_end_literal(st: LexSt) -> LexSt {
    if st.literal.len() == 0 {
        st
    } else {
        let value = if spec_is_number_lit(st.literal) {
            crate::token::TokenValueV::Number(st.literal)
        } else {
            crate::token::TokenValueV::Identifier(st.literal)
        };
        LexSt {
            literal: Seq::empty(),
            initial_location: st.location,
            tokens: st.tokens.push(
                crate::token::TokenV { location: st.initial_location, value },
            ),
            ..st
        }
    }
}

/// Flushes the operator buffer: a symbol token standing where the
/// spelling began.
pub open spec fn st_end_operator(st: LexSt) -> LexSt {
    match spec_symbol_of(st.operator) {
        Some(sym) => LexSt {
            operator: Seq::empty(),
            initial_location: st.location,
            tokens: st.tokens.push(
                crate::token::TokenV {
                    location: crate::location::spec_into_past(st.location, st.operator.len()),
                    value: crate::token::TokenValueV::Symbol(sym),
                },
            ),
            ..st
        },
        None => st,
    }
}

/// Flushes both buffers, the literal first.
pub open spec fn st_end_both(st: LexSt) -> LexSt {
    st_end_operator(st_end_literal(st))
}

/// Routes one decoded escape character: into the open string, as a
/// char-literal token, or as a fault outside any literal.
pub open spec fn st_route_char(st: LexSt, c: char) -> LexSt {
    if st.dquote {
        LexSt { literal: st.literal.push(c), ..st }
    } else if st.squote == CharStatus::Opened {
        LexSt {
            squote: CharStatus::Written,
            tokens: st.tokens.push(
                crate::token::TokenV {
                    location: st.location,
                    value: crate::token::TokenValueV::Char(c),
                },
            ),
            ..st
        }
    } else if st.squote == CharStatus::Written {
        st_err(st, msg_char_too_long())
    } else {
        st_err(st, msg_escape_outside())
    }
}

/// Ending an escape sequence: the decoded character is routed, or the
/// diagnostic the decode names is pushed.
pub open spec fn st_end_escape(st: LexSt, k: crate::escape::EscKind, v: Seq<char>) -> LexSt {
    let st1 = LexSt { escape: EscStV::False, ..st };
    match crate::escape::spec_decode(k, v) {
        Ok(code) => st_route_char(st1, (code as u32) as char),
        Err(m) => st_err(st1, m),
    }
}

/// One character fed to an active escape.
pub open spec fn st_escape_char(st: LexSt, k: crate::escape::EscKind, v: Seq<char>, ch: char)
    -> (LexSt, bool) {
    if v.len() < crate::escape::spec_kind_max_len(k) && (match k {
        crate::escape::EscKind::Octal => crate::chars::spec_is_oct_digit(ch) && !(v.len() == 2
            && crate::chars::spec_digits_val(v, 8) * 8 + crate::chars::spec_digit_val(ch) > 255),
        _ => crate::chars::spec_is_hex_digit(ch),
    }) {
        let v2 = v.push(ch);
        if v2.len() == crate::escape::spec_kind_max_len(k) {
            (st_end_escape(st, k, v2), true)
        } else {
            (LexSt { escape: EscStV::Sequence(k, v2), ..st }, true)
        }
    } else {
        (st_end_escape(st, k, v), false)
    }
}

/// The character right after a bare backslash.
pub open spec fn st_escape_single(st: LexSt, ch: char) -> LexSt {
    let st1 = LexSt { escape: EscStV::False, ..st };
    match crate::escape::spec_simple_escape(ch) {
        Some(c) => st_route_char(st1, c),
        None => match crate::escape::spec_escape_start(ch) {
            Some(k) => LexSt {
                escape: EscStV::Sequence(
                    k,
                    if k == crate::escape::EscKind::Octal {
                        seq![ch]
                    } else {
                        Seq::<char>::empty()
                    },
                ),
                ..st
            },
            None => st_err(st1, crate::escape::msg_cannot_escape(ch)),
        },
    }
}

/// Symbol handling: the pending literal flushes, then the character
/// extends the pending spelling if the table still knows the longer
/// spelling, else the pending spelling flushes and a new one starts.
pub open spec fn st_symbol_char(st: LexSt, ch: char) -> LexSt {
    let st1 = st_end_literal(st);
    if st1.operator.len() > 0 && spec_symbol_of(st1.operator.push(ch)) is Some {
        LexSt { operator: st1.operator.push(ch), ..st1 }
    } else {
        let st2 = st_end_operator(st1);
        LexSt { operator: seq![ch], ..st2 }
    }
}

/// One character of ordinary input: everything below the comment and
/// escape layers.
pub open spec fn st_normal_char(st: LexSt, ch: char) -> (LexSt, bool) {
    if ch == '*' && st.operator.len() > 0 && st.operator.last() == '/' {
        let st1 = st_end_both(LexSt { operator: st.operator.drop_last(), ..st });
        (LexSt { comments: CommentStatus::True, ..st1 }, true)
    } else if ch == '\\' {
        (LexSt { escape: EscStV::Single, ..st }, true)
    } else if ch == '\'' {
        if st.squote == CharStatus::Closed {
            (LexSt { squote: CharStatus::Opened, ..st_end_both(st) }, true)
        } else if st.squote == CharStatus::Opened {
            (st_err(LexSt { squote: CharStatus::Closed, ..st }, msg_char_empty()), true)
        } else {
            (LexSt { squote: CharStatus::Closed, ..st }, true)
        }
    } else if ch == '"' {
        if st.dquote {
            (
                LexSt {
                    dquote: false,
                    literal: Seq::empty(),
                    initial_location: st.location,
                    tokens: st.tokens.push(
                        crate::token::TokenV {
                            location: st.initial_location,
                            value: crate::token::TokenValueV::Str(st.literal),
                        },
                    ),
                    ..st
                },
                true,
            )
        } else {
            (LexSt { dquote: true, ..st_end_both(st) }, true)
        }
    } else if st.squote == CharStatus::Written {
        (st_err(st, msg_char_too_long()), true)
    } else if st.squote == CharStatus::Opened {
        (
            LexSt {
                squote: CharStatus::Written,
                tokens: st.tokens.push(
                    crate::token::TokenV {
                        location: st.location,
                        value: crate::token::TokenValueV::Char(ch),
                    },
                ),
                ..st
            },
            true,
        )
    } else if st.dquote {
        (LexSt { literal: st.literal.push(ch), ..st }, true)
    } else if ch == '/' && st.operator.len() > 0 && st.operator.last() == '/' {
        (LexSt { literal: Seq::empty(), operator: Seq::empty(), ..st }, false)
    } else if spec_is_symbol_char(ch) {
        (st_symbol_char(st, ch), true)
    } else if ch == '.' && !spec_is_number_lit(st.literal) {
        (st_symbol_char(st, ch), true)
    } else if crate::chars::spec_is_whitespace(ch) {
        let st1 = st_end_both(st);
        (
            LexSt {
                initial_location: Location {
                    line: st1.initial_location.line,
                    col: if st1.initial_location.col < usize::MAX {
                        (st1.initial_location.col + 1) as usize
                    } else {
                        st1.initial_location.col
                    },
                },
                ..st1
            },
            true,
        )
    } else if crate::chars::spec_is_alphanumeric(ch) || ch == '_' || ch == '.' {
        let st1 = st_end_operator(st);
        (LexSt { literal: st1.literal.push(ch), ..st1 }, true)
    } else {
        (st_err(st_end_both(st), msg_unsupported(ch)), true)
    }
}

/// One character of input, comments and escapes included.  The flag
/// says whether lexing goes on; it only stops at `//`.
pub open spec fn st_lex_char(st: LexSt, ch: char) -> (LexSt, bool) {
    if st.comments == CommentStatus::Star {
        if ch == '/' {
            (LexSt { comments: CommentStatus::False, ..st }, true)
        } else {
            (LexSt { comments: CommentStatus::True, ..st }, true)
        }
    } else if st.comments == CommentStatus::True {
        if ch == '*' {
            (LexSt { comments: CommentStatus::Star, ..st }, true)
        } else {
            (st, true)
        }
    } else {
        match st.escape {
            EscStV::Single => (st_escape_single(st, ch), true),
            EscStV::Sequence(k, v) => {
                let (st1, consumed) = st_escape_char(st, k, v, ch);
                if consumed {
                    (st1, true)
                } else {
                    st_normal_char(st1, ch)
                }
            },
            EscStV::False => st_normal_char(st, ch),
        }
    }
}

/// The cursor stepped one column forward.
pub open spec fn st_incr_col(st: LexSt) -> LexSt {
    LexSt {
        location: Location {
            line: st.location.line,
            col: if st.location.col < usize::MAX {
                (st.location.col + 1) as usize
            } else {
                st.location.col
            },
        },
        ..st
    }
}

/// The whole input run through the lexer, column counting included.
pub open spec fn st_lex_run(s: Seq<char>, st: LexSt) -> LexSt
    decreases s.len(),
{
    if s.len() == 0 {
        st
    } else {
        let (st1, go_on) = st_lex_char(st, s[0]);
        let st2 = st_incr_col(st1);
        if go_on {
            st_lex_run(s.drop_first(), st2)
        } else {
            st2
        }
    }
}

/// End of input: an unterminated escape resolves (a trailing backslash
/// stands for an end-of-line token), then both buffers flush.
pub open spec fn st_lex_finish(st: LexSt) -> LexSt {
    let st1 = match st.escape {
        EscStV::Single => LexSt {
            escape: EscStV::False,
            initial_location: st.location,
            tokens: st.tokens.push(
                crate::token::TokenV {
                    location: crate::location::spec_into_past(st.location, 1),
                    value: crate::token::TokenValueV::Symbol(Symbol::EOL),
                },
            ),
            ..st
        },
        EscStV::Sequence(k, v) => st_end_escape(st, k, v),
        EscStV::False => st,
    };
    st_end_both(st1)
}

/// The state a fresh lexer starts from.
pub open spec fn st_lex_init(loc: Location) -> LexSt {
    LexSt {
        comments: CommentStatus::False,
        escape: EscStV::False,
        squote: CharStatus::Closed,
        dquote: false,
        literal: Seq::empty(),
        operator: Seq::empty(),
        initial_location: loc,
        location: loc,
        tokens: Seq::empty(),
        errors: Seq::empty(),
        failed: false,
    }
}

/// The runtime buffers are in shape: the pending operator, when there
/// is one, is a spelling the table knows, and an open escape sequence
/// is well formed.
pub open spec fn exec_wf(p: ParsingState) -> bool {
    &&& (p.operator@.len() == 0 || spec_symbol_of(p.operator@) is Some)
    &&& match p.escape {
        EscapeStatus::Sequence(es) => es.wf(),
        _ => true,
    }
}

/// The symbol a one-character spelling names.
fn symbol_1(a: char) -> (r: Option<Symbol>)
    ensures
        r == spec_symbol_1(a),
{
    if a == '+' { Some(Symbol::Plus) }
    else if a == '-' { Some(Symbol::Minus) }
    else if a == '(' { Some(Symbol::ParenthesisOpen) }
    else if a == ')' { Some(Symbol::ParenthesisClose) }
    else if a == '[' { Some(Symbol::BracketOpen) }
    else if a == ']' { Some(Symbol::BracketClose) }
    else if a == '{' { Some(Symbol::BraceOpen) }
    else if a == '}' { Some(Symbol::BraceClose) }
    else if a == '.' { Some(Symbol::Dot) }
    else if a == ',' { Some(Symbol::Comma) }
    else if a == '~' { Some(Symbol::BitwiseNot) }
    else if a == '!' { Some(Symbol::LogicalNot) }
    else if a == '*' { Some(Symbol::Star) }
    else if a == '&' { Some(Symbol::Ampercent) }
    else if a == '%' { Some(Symbol::Modulo) }
    else if a == '/' { Some(Symbol::Divide) }
    else if a == '>' { Some(Symbol::Gt) }
    else if a == '<' { Some(Symbol::Lt) }
    else if a == '=' { Some(Symbol::Assign) }
    else if a == '|' { Some(Symbol::BitwiseOr) }
    else if a == '^' { Some(Symbol::BitwiseXor) }
    else if a == '?' { Some(Symbol::Interrogation) }
    else if a == ':' { Some(Symbol::Colon) }
    else if a == ';' { Some(Symbol::SemiColon) }
    else { None }
}

/// The symbol a two-character spelling names.
fn symbol_2(a: char, b: char) -> (r: Option<Symbol>)
    ensures
        r == spec_symbol_2(a, b),
{
    if a == '=' && b == '=' { Some(Symbol::Equal) }
    else if a == '!' && b == '=' { Some(Symbol::Different) }
    else if a == '<' && b == '=' { Some(Symbol::Le) }
    else if a == '>' && b == '=' { Some(Symbol::Ge) }
    else if a == '&' && b == '&' { Some(Symbol::LogicalAnd) }
    else if a == '|' && b == '|' { Some(Symbol::LogicalOr) }
    else if a == '<' && b == '<' { Some(Symbol::ShiftLeft) }
    else if a == '>' && b == '>' { Some(Symbol::ShiftRight) }
    else if a == '+' && b == '=' { Some(Symbol::AddAssign) }
    else if a == '-' && b == '=' { Some(Symbol::SubAssign) }
    else if a == '*' && b == '=' { Some(Symbol::MulAssign) }
    else if a == '/' && b == '=' { Some(Symbol::DivAssign) }
    else if a == '%' && b == '=' { Some(Symbol::ModAssign) }
    else if a == '&' && b == '=' { Some(Symbol::AndAssign) }
    else if a == '|' && b == '=' { Some(Symbol::OrAssign) }
    else if a == '^' && b == '=' { Some(Symbol::XorAssign) }
    else if a == '-' && b == '>' { Some(Symbol::Arrow) }
    else if a == '+' && b == '+' { Some(Symbol::Increment) }
    else if a == '-' && b == '-' { Some(Symbol::Decrement) }
    else { None }
}

/// The symbol a three-character spelling names.
fn symbol_3(a: char, b: char, c: char) -> (r: Option<Symbol>)
    ensures
        r == spec_symbol_3(a, b, c),
{
    if a == '<' && b == '<' && c == '=' { Some(Symbol::ShiftLeftAssign) }
    else if a == '>' && b == '>' && c == '=' { Some(Symbol::ShiftRightAssign) }
    else { None }
}

/// The symbol the pending spelling names.
fn symbol_of_buf(op: &String) -> (r: Option<Symbol>)
    ensures
        r == spec_symbol_of(op@),
{
    let n = op.as_str().unicode_len();
    if n == 1 {
        symbol_1(op.as_str().get_char(0))
    } else if n == 2 {
        symbol_2(op.as_str().get_char(0), op.as_str().get_char(1))
    } else if n == 3 {
        symbol_3(op.as_str().get_char(0), op.as_str().get_char(1), op.as_str().get_char(2))
    } else {
        None
    }
}

/// Whether the pending spelling extended by `ch` is still a spelling
/// the table knows.
fn can_extend(op: &String, ch: char) -> (r: bool)
    ensures
        r == (spec_symbol_of(op@.push(ch)) is Some),
{
    let n = op.as_str().unicode_len();
    proof {
        assert(op@.push(ch).len() == op@.len() + 1);
        assert(op@.push(ch)[op@.len() as int] == ch);
        assert(forall|j: int| 0 <= j < op@.len() ==> op@.push(ch)[j] == #[trigger] op@[j]);
    }
    if n == 0 {
        match symbol_1(ch) {
            Some(_) => true,
            None => false,
        }
    } else if n == 1 {
        match symbol_2(op.as_str().get_char(0), ch) {
            Some(_) => true,
            None => false,
        }
    } else if n == 2 {
        match symbol_3(op.as_str().get_char(0), op.as_str().get_char(1), ch) {
            Some(_) => true,
            None => false,
        }
    } else {
        false
    }
}

/// True when the pending spelling ends in the given character.
fn op_last_is(p_state: &ParsingState, ch: char) -> (r: bool)
    ensures
        r == (p_state.operator@.len() > 0 && p_state.operator@.last() == ch),
{
    let n = p_state.operator.as_str().unicode_len();
    if n == 0 {
        false
    } else {
        p_state.operator.as_str().get_char(n - 1) == ch
    }
}

/// Flushes the pending literal as an identifier or number token.
fn end_literal(p_state: &mut ParsingState, lex_data: &mut LexingData, location: &Location)
    requires
        exec_wf(*old(p_state)),
    ensures
        exec_wf(*final(p_state)),
        abs_state(*final(p_state), final(lex_data)@, *location) == st_end_literal(
            abs_state(*old(p_state), old(lex_data)@, *location),
        ),
{
    let n = p_state.literal.as_str().unicode_len();
    if n == 0 {
        return ;
    }
    let first = p_state.literal.as_str().get_char(0);
    let mut lit = String::new();
    core::mem::swap(&mut p_state.literal, &mut lit);
    let token = if crate::chars::is_dec_digit(first) {
        crate::token::Token::from_number(lit, p_state, location)
    } else {
        crate::token::Token::from_identifier(lit, p_state, location)
    };
    lex_data.push_token(token);
    proof {
        assert(abs_state(*p_state, lex_data@, *location) =~= st_end_literal(
            abs_state(*old(p_state), old(lex_data)@, *location),
        ));
    }
}

/// Flushes the pending operator spelling as a symbol token.
fn end_operator(p_state: &mut ParsingState, lex_data: &mut LexingData, location: &Location)
    requires
        exec_wf(*old(p_state)),
    ensures
        exec_wf(*final(p_state)),
        abs_state(*final(p_state), final(lex_data)@, *location) == st_end_operator(
            abs_state(*old(p_state), old(lex_data)@, *location),
        ),
{
    let size = p_state.operator.as_str().unicode_len();
    if size == 0 {
        return ;
    }
    let sym = match symbol_of_buf(&p_state.operator) {
        Some(sym) => sym,
        None => {
            proof {
                assert(false);
            }
            Symbol::EOL
        },
    };
    p_state.operator = String::new();
    let token = crate::token::Token::from_symbol(sym, size, p_state, location);
    lex_data.push_token(token);
    proof {
        assert(abs_state(*p_state, lex_data@, *location) =~= st_end_operator(
            abs_state(*old(p_state), old(lex_data)@, *location),
        ));
    }
}

/// Flushes both buffers, the literal first.
fn end_both(p_state: &mut ParsingState, lex_data: &mut LexingData, location: &Location)
    requires
        exec_wf(*old(p_state)),
    ensures
        exec_wf(*final(p_state)),
        abs_state(*final(p_state), final(lex_data)@, *location) == st_end_both(
            abs_state(*old(p_state), old(lex_data)@, *location),
        ),
{
    end_literal(p_state, lex_data, location);
    end_operator(p_state, lex_data, location);
}

/// Routes one decoded escape character into the literal it belongs to.
fn route_char(c: char, p_state: &mut ParsingState, lex_data: &mut LexingData, location: &Location)
    requires
        exec_wf(*old(p_state)),
    ensures
        exec_wf(*final(p_state)),
        abs_state(*final(p_state), final(lex_data)@, *location) == st_route_char(
            abs_state(*old(p_state), old(lex_data)@, *location),
            c,
        ),
{
    if p_state.double_quote {
        crate::chars::push_char(&mut p_state.literal, c);
    } else {
        match p_state.single_quote {
            CharStatus::Opened => {
                lex_data.push_token(crate::token::Token::from_char(c, location));
                p_state.single_quote = CharStatus::Written;
            },
            CharStatus::Written => {
                let m = String::from_str("A char must contain only one character");
                proof {
                    assert(m@ =~= msg_char_too_long());
                }
                lex_data.push_err(
                    crate::errors::CompileError::new(
                        *location,
                        m,
                        crate::errors::ErrorLevel::Error,
                    ),
                );
            },
            CharStatus::Closed => {
                let m = String::from_str(
                    "Escape sequences are only allowed inside a string or a char.",
                );
                proof {
                    assert(m@ =~= msg_escape_outside());
                }
                lex_data.push_err(
                    crate::errors::CompileError::new(
                        *location,
                        m,
                        crate::errors::ErrorLevel::Error,
                    ),
                );
            },
        }
    }
    proof {
        assert(abs_state(*p_state, lex_data@, *location) =~= st_route_char(
            abs_state(*old(p_state), old(lex_data)@, *location),
            c,
        ));
    }
}

/// Ends the open escape sequence and routes what it decoded.
fn finish_escape(
    es: EscapeSequence,
    p_state: &mut ParsingState,
    lex_data: &mut LexingData,
    location: &Location,
)
    requires
        exec_wf(*old(p_state)),
        es.wf(),
        old(p_state).escape is False,
    ensures
        exec_wf(*final(p_state)),
        abs_state(*final(p_state), final(lex_data)@, *location) == st_end_escape(
            LexSt {
                escape: EscStV::Sequence(es.kind(), es.value_seq()),
                ..abs_state(*old(p_state), old(lex_data)@, *location)
            },
            es.kind(),
            es.value_seq(),
        ),
{
    match crate::escape::end_escape_sequence(lex_data, location, &es) {
        Ok(c) => {
            route_char(c, p_state, lex_data, location);
            proof {
                let code = crate::escape::spec_decode(es.kind(), es.value_seq())->Ok_0;
                assert((c as u32) as nat == code);
                vstd::utf8::char_u32_cast(c, code as u32);
            }
        },
        Err(()) => {
        },
    }
    proof {
        assert(abs_state(*p_state, lex_data@, *location) =~= st_end_escape(
            LexSt {
                escape: EscStV::Sequence(es.kind(), es.value_seq()),
                ..abs_state(*old(p_state), old(lex_data)@, *location)
            },
            es.kind(),
            es.value_seq(),
        ));
    }
}

/// True when the pending literal will flush as a number.
fn is_number(p_state: &ParsingState) -> (r: bool)
    ensures
        r == spec_is_number_lit(p_state.literal@),
{
    let n = p_state.literal.as_str().unicode_len();
    n > 0 && crate::chars::is_dec_digit(p_state.literal.as_str().get_char(0))
}

/// True for the characters that always route to symbol handling.
fn is_symbol_char(c: char) -> (r: bool)
    ensures
        r == spec_is_symbol_char(c),
{
    c == '+' || c == '-' || c == '(' || c == ')' || c == '[' || c == ']' || c == '{' || c == '}'
        || c == '~' || c == '!' || c == '*' || c == '&' || c == '%' || c == '/' || c == '>'
        || c == '<' || c == '=' || c == '|' || c == '^' || c == ',' || c == '?' || c == ':'
        || c == ';'
}

/// Symbol handling with maximal munch: the pending literal flushes,
/// then the character extends or replaces the pending spelling.
fn handle_symbol_char(
    ch: char,
    p_state: &mut ParsingState,
    lex_data: &mut LexingData,
    location: &Location,
)
    requires
        exec_wf(*old(p_state)),
        spec_symbol_1(ch) is Some,
    ensures
        exec_wf(*final(p_state)),
        abs_state(*final(p_state), final(lex_data)@, *location) == st_symbol_char(
            abs_state(*old(p_state), old(lex_data)@, *location),
            ch,
        ),
{
    end_literal(p_state, lex_data, location);
    let opn = p_state.operator.as_str().unicode_len();
    if opn > 0 && can_extend(&p_state.operator, ch) {
        crate::chars::push_char(&mut p_state.operator, ch);
    } else {
        end_operator(p_state, lex_data, location);
        let mut s = String::new();
        crate::chars::push_char(&mut s, ch);
        p_state.operator = s;
        proof {
            assert(p_state.operator@ =~= seq![ch]);
        }
    }
    proof {
        assert(abs_state(*p_state, lex_data@, *location) =~= st_symbol_char(
            abs_state(*old(p_state), old(lex_data)@, *location),
            ch,
        ));
    }
}

/// One character of ordinary input, below the comment and escape
/// layers.  The result says whether lexing goes on.
fn lex_normal_char(
    ch: char,
    p_state: &mut ParsingState,
    lex_data: &mut LexingData,
    location: &Location,
) -> (go_on: bool)
    requires
        exec_wf(*old(p_state)),
    ensures
        exec_wf(*final(p_state)),
        abs_state(*final(p_state), final(lex_data)@, *location) == st_normal_char(
            abs_state(*old(p_state), old(lex_data)@, *location),
            ch,
        ).0,
        go_on == st_normal_char(abs_state(*old(p_state), old(lex_data)@, *location), ch).1,
{
    if ch == '*' && op_last_is(p_state, '/') {
        proof {
            let op = p_state.operator@;
            assert(spec_symbol_of(op) is Some);
            if op.len() == 2 {
                assert(spec_symbol_2(op[0], op[1]) is Some && op[1] == '/');
                assert(false);
            }
            if op.len() == 3 {
                assert(spec_symbol_3(op[0], op[1], op[2]) is Some && op[2] == '/');
                assert(false);
            }
            assert(op.len() == 1);
            assert(op.drop_last() =~= Seq::<char>::empty());
        }
        p_state.operator = String::new();
        end_both(p_state, lex_data, location);
        p_state.comments = CommentStatus::True;
        proof {
            assert(abs_state(*p_state, lex_data@, *location) =~= st_normal_char(
                abs_state(*old(p_state), old(lex_data)@, *location),
                ch,
            ).0);
        }
        true
    } else if ch == '\\' {
        p_state.escape = EscapeStatus::Single;
        true
    } else if ch == '\'' {
        match p_state.single_quote {
            CharStatus::Closed => {
                end_both(p_state, lex_data, location);
                p_state.single_quote = CharStatus::Opened;
            },
            CharStatus::Opened => {
                p_state.single_quote = CharStatus::Closed;
                let m = String::from_str("A char must contain at least one character");
                proof {
                    assert(m@ =~= msg_char_empty());
                }
                lex_data.push_err(
                    crate::errors::CompileError::new(
                        *location,
                        m,
                        crate::errors::ErrorLevel::Error,
                    ),
                );
            },
            CharStatus::Written => {
                p_state.single_quote = CharStatus::Closed;
            },
        }
        proof {
            assert(abs_state(*p_state, lex_data@, *location) =~= st_normal_char(
                abs_state(*old(p_state), old(lex_data)@, *location),
                ch,
            ).0);
        }
        true
    } else if ch == '"' {
        if p_state.double_quote {
            let mut lit = String::new();
            core::mem::swap(&mut p_state.literal, &mut lit);
            let token = crate::token::Token::from_str(lit, p_state, location);
            lex_data.push_token(token);
            p_state.double_quote = false;
        } else {
            end_both(p_state, lex_data, location);
            p_state.double_quote = true;
        }
        proof {
            assert(abs_state(*p_state, lex_data@, *location) =~= st_normal_char(
                abs_state(*old(p_state), old(lex_data)@, *location),
                ch,
            ).0);
        }
        true
    } else if matches!(p_state.single_quote, CharStatus::Written) {
        let m = String::from_str("A char must contain only one character");
        proof {
            assert(m@ =~= msg_char_too_long());
        }
        lex_data.push_err(
            crate::errors::CompileError::new(*location, m, crate::errors::ErrorLevel::Error),
        );
        proof {
            assert(abs_state(*p_state, lex_data@, *location) =~= st_normal_char(
                abs_state(*old(p_state), old(lex_data)@, *location),
                ch,
            ).0);
        }
        true
    } else if matches!(p_state.single_quote, CharStatus::Opened) {
        lex_data.push_token(crate::token::Token::from_char(ch, location));
        p_state.single_quote = CharStatus::Written;
        proof {
            assert(abs_state(*p_state, lex_data@, *location) =~= st_normal_char(
                abs_state(*old(p_state), old(lex_data)@, *location),
                ch,
            ).0);
        }
        true
    } else if p_state.double_quote {
        crate::chars::push_char(&mut p_state.literal, ch);
        proof {
            assert(abs_state(*p_state, lex_data@, *location) =~= st_normal_char(
                abs_state(*old(p_state), old(lex_data)@, *location),
                ch,
            ).0);
        }
        true
    } else if ch == '/' && op_last_is(p_state, '/') {
        p_state.literal = String::new();
        p_state.operator = String::new();
        proof {
            assert(abs_state(*p_state, lex_data@, *location) =~= st_normal_char(
                abs_state(*old(p_state), old(lex_data)@, *location),
                ch,
            ).0);
        }
        false
    } else if is_symbol_char(ch) {
        handle_symbol_char(ch, p_state, lex_data, location);
        true
    } else if ch == '.' && !is_number(p_state) {
        handle_symbol_char(ch, p_state, lex_data, location);
        true
    } else if crate::chars::is_whitespace(ch) {
        end_both(p_state, lex_data, location);
        p_state.initial_location.incr_col();
        proof {
            assert(abs_state(*p_state, lex_data@, *location) =~= st_normal_char(
                abs_state(*old(p_state), old(lex_data)@, *location),
                ch,
            ).0);
        }
        true
    } else if crate::chars::is_alphanumeric(ch) || ch == '_' || ch == '.' {
        end_operator(p_state, lex_data, location);
        crate::chars::push_char(&mut p_state.literal, ch);
        proof {
            assert(abs_state(*p_state, lex_data@, *location) =~= st_normal_char(
                abs_state(*old(p_state), old(lex_data)@, *location),
                ch,
            ).0);
        }
        true
    } else {
        end_both(p_state, lex_data, location);
        let mut m = String::from_str("Character not supported by parser: '");
        crate::chars::push_char(&mut m, ch);
        m.append("'");
        proof {
            assert(m@ =~= msg_unsupported(ch));
        }
        lex_data.push_err(
            crate::errors::CompileError::new(*location, m, crate::errors::ErrorLevel::Error),
        );
        proof {
            assert(abs_state(*p_state, lex_data@, *location) =~= st_normal_char(
                abs_state(*old(p_state), old(lex_data)@, *location),
                ch,
            ).0);
        }
        true
    }
}

/// One character of input, comments and escapes included.
fn lex_one_char(
    ch: char,
    p_state: &mut ParsingState,
    lex_data: &mut LexingData,
    location: &Location,
) -> (go_on: bool)
    requires
        exec_wf(*old(p_state)),
    ensures
        exec_wf(*final(p_state)),
        abs_state(*final(p_state), final(lex_data)@, *location) == st_lex_char(
            abs_state(*old(p_state), old(lex_data)@, *location),
            ch,
        ).0,
        go_on == st_lex_char(abs_state(*old(p_state), old(lex_data)@, *location), ch).1,
{
    match p_state.comments {
        CommentStatus::Star => {
            if ch == '/' {
                p_state.comments = CommentStatus::False;
            } else {
                p_state.comments = CommentStatus::True;
            }
            true
        },
        CommentStatus::True => {
            if ch == '*' {
                p_state.comments = CommentStatus::Star;
            }
            true
        },
        CommentStatus::False => {
            let mut esc = EscapeStatus::False;
            core::mem::swap(&mut p_state.escape, &mut esc);
            match esc {
                EscapeStatus::Single => {
                    let r = crate::escape::handle_escape_one_char(
                        ch,
                        lex_data,
                        &mut p_state.escape,
                        location,
                    );
                    match r {
                        Some(c) => {
                            route_char(c, p_state, lex_data, location);
                        },
                        None => {},
                    }
                    proof {
                        assert(abs_state(*p_state, lex_data@, *location) =~= st_lex_char(
                            abs_state(*old(p_state), old(lex_data)@, *location),
                            ch,
                        ).0);
                    }
                    true
                },
                EscapeStatus::Sequence(es) => {
                    let consumes = crate::escape::escape_consumes(&es, ch);
                    if consumes {
                        let mut es2 = es;
                        es2.push_digit(ch);
                        proof {
                            let v0 = es.value_seq();
                            let v1 = es2.value_seq();
                            assert(forall|i: int|
                                0 <= i < v0.len() ==> v1[i] == #[trigger] v0[i]);
                            assert(v1[v0.len() as int] == ch);
                        }
                        if es2.value().as_str().unicode_len() == es2.max_len() {
                            finish_escape(es2, p_state, lex_data, location);
                        } else {
                            p_state.escape = EscapeStatus::Sequence(es2);
                        }
                        proof {
                            assert(abs_state(*p_state, lex_data@, *location) =~= st_lex_char(
                                abs_state(*old(p_state), old(lex_data)@, *location),
                                ch,
                            ).0);
                        }
                        true
                    } else {
                        finish_escape(es, p_state, lex_data, location);
                        let go2 = lex_normal_char(ch, p_state, lex_data, location);
                        go2
                    }
                },
                EscapeStatus::False => lex_normal_char(ch, p_state, lex_data, location),
            }
        },
    }
}

/// Lexes a whole source buffer: emits the token sequence and the
/// diagnostics, advancing the location over every character read.
pub fn parse(expression: &str, location: &mut Location) -> (r: crate::errors::Res<
    Vec<crate::token::Token>,
>)
    ensures
        ({
            let fin = st_lex_finish(st_lex_run(expression@, st_lex_init(*old(location))));
            &&& r.result@.map_values(|t: crate::token::Token| t@) == fin.tokens
            &&& r.errors@.map_values(|e: crate::errors::CompileError| e@) == fin.errors
            &&& *final(location) == fin.location
        }),
{
    let ghost init_st = st_lex_init(*old(location));
    let mut lex_data = LexingData::new();
    let mut p_state = ParsingState::new(*location);
    let n = expression.unicode_len();
    let mut i: usize = 0;
    let mut go: bool = true;
    proof {
        assert(abs_state(p_state, lex_data@, *location) =~= init_st);
        assert(expression@.skip(0) =~= expression@);
    }
    while go && i < n
        invariant
            n == expression@.len(),
            0 <= i <= n,
            exec_wf(p_state),
            go ==> st_lex_run(expression@, init_st) == st_lex_run(
                expression@.skip(i as int),
                abs_state(p_state, lex_data@, *location),
            ),
            !go ==> st_lex_run(expression@, init_st) == abs_state(p_state, lex_data@, *location),
        decreases n - i,
    {
        let ch = expression.get_char(i);
        let ghost pre = abs_state(p_state, lex_data@, *location);
        proof {
            assert(expression@.skip(i as int).len() > 0);
            assert(expression@.skip(i as int)[0] == expression@[i as int]);
            assert(expression@.skip(i as int).drop_first() =~= expression@.skip(i + 1));
        }
        let go2 = lex_one_char(ch, &mut p_state, &mut lex_data, location);
        let ghost mid = abs_state(p_state, lex_data@, *location);
        location.incr_col();
        proof {
            assert(mid == st_lex_char(pre, ch).0);
            assert(abs_state(p_state, lex_data@, *location) =~= st_incr_col(mid));
        }
        go = go2;
        i = i + 1;
    }
    proof {
        if go {
            assert(expression@.skip(n as int) =~= Seq::<char>::empty());
        }
        assert(st_lex_run(expression@, init_st) == abs_state(p_state, lex_data@, *location));
    }
    let mut esc = EscapeStatus::False;
    core::mem::swap(&mut p_state.escape, &mut esc);
    match esc {
        EscapeStatus::Single => {
            let token = crate::token::Token::from_symbol(Symbol::EOL, 1, &mut p_state, location);
            lex_data.push_token(token);
        },
        EscapeStatus::Sequence(es) => {
            finish_escape(es, &mut p_state, &mut lex_data, location);
        },
        EscapeStatus::False => {},
    }
    end_both(&mut p_state, &mut lex_data, location);
    proof {
        assert(abs_state(p_state, lex_data@, *location) =~= st_lex_finish(
            st_lex_run(expression@, init_st),
        ));
    }
    let tokens = lex_data.take_tokens();
    let errors = lex_data.take_errors();
    crate::errors::Res::from_parts(tokens, errors)
}

/// Law: every one-, two- or three-character symbol spelling, lexed in
/// isolation, yields exactly one symbol token of the matching kind,
/// standing at the start of the spelling, and no diagnostics.
#[verifier::rlimit(100)]
pub proof fn lemma_symbol_spelling_lexes_alone(s: Seq<char>, sym: Symbol, loc: Location)
    requires
        spec_symbol_of(s) == Some(sym),
        forall|i: int| 1 <= i <= s.len() ==> spec_symbol_of(#[trigger] s.take(i)) is Some,
        loc.col + s.len() <= usize::MAX,
    ensures
        ({
            let fin = st_lex_finish(st_lex_run(s, st_lex_init(loc)));
            &&& fin.tokens =~= seq![
                crate::token::TokenV {
                    location: loc,
                    value: crate::token::TokenValueV::Symbol(sym),
                },
            ]
            &&& fin.errors =~= Seq::<crate::errors::CompileErrorV>::empty()
        }),
{
    reveal_with_fuel(st_lex_run, 5);
    let st0 = st_lex_init(loc);
    assert(s.take(1) =~= seq![s[0]]);
    assert(spec_symbol_1(s[0]) is Some);
    let (st1c, go1) = st_lex_char(st0, s[0]);
    assert(st1c == st_symbol_char(st0, s[0]));
    let st1 = st_incr_col(st1c);
    assert(st1.operator =~= seq![s[0]]);
    if s.len() == 1 {
        assert(st_lex_run(s, st0) == st1);
        assert(st1.operator =~= s);
        let fin = st_lex_finish(st1);
        assert(fin.tokens =~= seq![
            crate::token::TokenV {
                location: crate::location::spec_into_past(st1.location, s.len()),
                value: crate::token::TokenValueV::Symbol(sym),
            },
        ]);
        assert(crate::location::spec_into_past(st1.location, s.len()) == loc);
    } else {
        assert(s.take(2) =~= seq![s[0], s[1]]);
        assert(spec_symbol_2(s[0], s[1]) is Some);
        let (st2c, go2) = st_lex_char(st1, s[1]);
        assert(st1.operator.push(s[1]) =~= s.take(2));
        assert(st2c == st_symbol_char(st1, s[1]));
        let st2 = st_incr_col(st2c);
        assert(st2.operator =~= s.take(2));
        assert(st2.tokens =~= Seq::<crate::token::TokenV>::empty());
        if s.len() == 2 {
            assert(s.drop_first() =~= seq![s[1]]);
            assert(seq![s[1]].drop_first() =~= Seq::<char>::empty());
            assert(st_lex_run(s.drop_first(), st1) == st2);
            assert(st_lex_run(s, st0) == st2);
            assert(st2.operator =~= s);
            let fin = st_lex_finish(st2);
            assert(fin.tokens =~= seq![
                crate::token::TokenV {
                    location: crate::location::spec_into_past(st2.location, s.len()),
                    value: crate::token::TokenValueV::Symbol(sym),
                },
            ]);
            assert(crate::location::spec_into_past(st2.location, s.len()) == loc);
        } else {
            assert(s.len() == 3);
            assert(s.take(3) =~= seq![s[0], s[1], s[2]]);
            assert(spec_symbol_3(s[0], s[1], s[2]) is Some);
            let (st3c, go3) = st_lex_char(st2, s[2]);
            assert(st2.operator.push(s[2]) =~= s.take(3));
            assert(st3c == st_symbol_char(st2, s[2]));
            let st3 = st_incr_col(st3c);
            assert(st3.operator =~= s.take(3));
            assert(s.drop_first() =~= seq![s[1], s[2]]);
            assert(s.drop_first().drop_first() =~= seq![s[2]]);
            assert(seq![s[2]].drop_first() =~= Seq::<char>::empty());
            assert(st_lex_run(seq![s[2]], st2) == st3);
            assert(st_lex_run(s.drop_first(), st1) == st3);
            assert(st_lex_run(s, st0) == st3);
            assert(st3.operator =~= s);
            let fin = st_lex_finish(st3);
            assert(fin.tokens =~= seq![
                crate::token::TokenV {
                    location: crate::location::spec_into_past(st3.location, s.len()),
                    value: crate::token::TokenValueV::Symbol(sym),
                },
            ]);
            assert(crate::location::spec_into_past(st3.location, s.len()) == loc);
        }
    }
}

/// Law: the lexer is a function of the source text and the starting
/// location alone.  Two results that both meet the contract of
/// [`parse`] on the same input carry identical tokens and identical
/// diagnostics, so re-running the lexer on already-successful input
/// again yields the same tokens and no diagnostics.
pub proof fn lemma_lex_deterministic(
    s: Seq<char>,
    loc: Location,
    toks1: Seq<crate::token::TokenV>,
    errs1: Seq<crate::errors::CompileErrorV>,
    toks2: Seq<crate::token::TokenV>,
    errs2: Seq<crate::errors::CompileErrorV>,
)
    requires
        toks1 == st_lex_finish(st_lex_run(s, st_lex_init(loc))).tokens,
        errs1 == st_lex_finish(st_lex_run(s, st_lex_init(loc))).errors,
        toks2 == st_lex_finish(st_lex_run(s, st_lex_init(loc))).tokens,
        errs2 == st_lex_finish(st_lex_run(s, st_lex_init(loc))).errors,
    ensures
        toks1 == toks2,
        errs1 == errs2,
{
}

/// Running the lexer over word characters only grows the literal
/// buffer and steps the column, touching nothing else.
proof fn lemma_word_run(s: Seq<char>, st: LexSt)
    requires
        st.comments == CommentStatus::False,
        st.escape is False,
        st.squote == CharStatus::Closed,
        st.dquote == false,
        st.operator.len() == 0,
        st.location.col + s.len() <= usize::MAX,
        forall|i: int|
            0 <= i < s.len() ==> (crate::chars::spec_is_alphanumeric(#[trigger] s[i]) || s[i]
                == '_'),
    ensures
        st_lex_run(s, st) == (LexSt {
            literal: st.literal + s,
            location: Location { line: st.location.line, col: (st.location.col + s.len()) as usize },
            ..st
        }),
    decreases s.len(),
{
    if s.len() == 0 {
        assert(st.literal + s =~= st.literal);
        assert(st_lex_run(s, st) =~= (LexSt {
            literal: st.literal + s,
            location: Location {
                line: st.location.line,
                col: (st.location.col + s.len()) as usize,
            },
            ..st
        }));
    } else {
        let c = s[0];
        let (st1c, go1) = st_lex_char(st, c);
        assert(go1);
        let st1 = st_incr_col(st1c);
        assert(st1.literal =~= st.literal + seq![c]);
        lemma_word_run(s.drop_first(), st1);
        assert((st.literal + seq![c]) + s.drop_first() =~= st.literal + s);
        assert(st_lex_run(s, st) =~= (LexSt {
            literal: st.literal + s,
            location: Location {
                line: st.location.line,
                col: (st.location.col + s.len()) as usize,
            },
            ..st
        }));
    }
}

/// Law (the round trip, for one word token): the raw text of an
/// identifier or number token, lexed again in isolation, yields
/// exactly that token and no diagnostics.  Together with
/// [`lemma_symbol_spelling_lexes_alone`] this gives the round trip for
/// every single escape-free token.
pub proof fn lemma_word_lexes_alone(s: Seq<char>, loc: Location)
    requires
        s.len() > 0,
        forall|i: int|
            0 <= i < s.len() ==> (crate::chars::spec_is_alphanumeric(#[trigger] s[i]) || s[i]
                == '_'),
        loc.col + s.len() <= usize::MAX,
    ensures
        ({
            let fin = st_lex_finish(st_lex_run(s, st_lex_init(loc)));
            &&& fin.tokens =~= seq![
                crate::token::TokenV {
                    location: loc,
                    value: if crate::chars::spec_is_dec_digit(s[0]) {
                        crate::token::TokenValueV::Number(s)
                    } else {
                        crate::token::TokenValueV::Identifier(s)
                    },
                },
            ]
            &&& fin.errors =~= Seq::<crate::errors::CompileErrorV>::empty()
        }),
{
    let st0 = st_lex_init(loc);
    lemma_word_run(s, st0);
    let run = st_lex_run(s, st0);
    assert(run.literal =~= s);
    let fin = st_lex_finish(run);
    assert(fin.tokens =~= seq![
        crate::token::TokenV {
            location: loc,
            value: if crate::chars::spec_is_dec_digit(s[0]) {
                crate::token::TokenValueV::Number(s)
            } else {
                crate::token::TokenValueV::Identifier(s)
            },
        },
    ]);
}

} // verus!
