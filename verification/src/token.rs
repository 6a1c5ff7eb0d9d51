//! Tokens: the data product of the lexer and the input of the parser.

use vstd::prelude::*;

use crate::lexer::ParsingState;
use crate::location::Location;
use crate::location::spec_into_past;

verus! {

/// The closed set of operator and punctuator kinds, including the one-,
/// two- and three-character spellings.
#[derive(Clone, Copy, PartialEq, Eq, Structural, Debug)]
pub enum Symbol {
    // unique
    EOL,
    // one character
    Ampercent,
    Assign,
    BitwiseNot,
    BitwiseOr,
    BitwiseXor,
    BraceClose,
    BraceOpen,
    BracketClose,
    BracketOpen,
    Colon,
    Comma,
    Divide,
    Dot,
    Gt,
    Interrogation,
    LogicalNot,
    Lt,
    Minus,
    Modulo,
    ParenthesisClose,
    ParenthesisOpen,
    Plus,
    SemiColon,
    Star,
    // two characters
    AddAssign,
    AndAssign,
    Arrow,
    Decrement,
    Different,
    DivAssign,
    Equal,
    Ge,
    Increment,
    Le,
    LogicalAnd,
    LogicalOr,
    ModAssign,
    MulAssign,
    OrAssign,
    ShiftLeft,
    ShiftRight,
    SubAssign,
    XorAssign,
    // three characters
    ShiftLeftAssign,
    ShiftRightAssign,
}

/// What one token holds.
#[derive(Debug)]
pub enum TokenValue {
    Char(char),
    Identifier(String),
    Number(String),
    Str(String),
    Symbol(Symbol),
}

/// Ghost image of a `TokenValue`.
pub ghost enum TokenValueV {
    Char(char),
    Identifier(Seq<char>),
    Number(Seq<char>),
    Str(Seq<char>),
    Symbol(Symbol),
}

impl View for TokenValue {
    type V = TokenValueV;

    open spec fn view(&self) -> TokenValueV {
        match self {
            TokenValue::Char(c) => TokenValueV::Char(*c),
            TokenValue::Identifier(s) => TokenValueV::Identifier(s@),
            TokenValue::Number(s) => TokenValueV::Number(s@),
            TokenValue::Str(s) => TokenValueV::Str(s@),
            TokenValue::Symbol(s) => TokenValueV::Symbol(*s),
        }
    }
}

/// A located token.
#[derive(Debug)]
pub struct Token {
    location: Location,
    value: TokenValue,
}

/// Ghost image of a `Token`.
pub ghost struct TokenV {
    pub location: Location,
    pub value: TokenValueV,
}

impl View for Token {
    type V = TokenV;

    closed spec fn view(&self) -> TokenV {
        TokenV { location: self.location, value: self.value@ }
    }
}

impl Token {
    /// The token's payload, as a value the parser's specification can
    /// match on.
    pub closed spec fn spec_value(&self) -> TokenValue {
        self.value
    }

    /// The token's source position.
    pub closed spec fn spec_location(&self) -> Location {
        self.location
    }

    /// The token's payload.
    pub fn value(&self) -> (r: &TokenValue)
        ensures
            r@ == self@.value,
            *r == self.spec_value(),
    {
        &self.value
    }

    /// Takes the token apart into its location and its payload.
    pub fn into_parts(self) -> (r: (Location, TokenValue))
        ensures
            r.0 == self@.location,
            r.1@ == self@.value,
            r.0 == self.spec_location(),
            r.1 == self.spec_value(),
    {
        (self.location, self.value)
    }

    /// The token's source position.
    pub fn location(&self) -> (r: &Location)
        ensures
            *r == self@.location,
    {
        &self.location
    }

    /// A char-literal token standing at the given location.
    pub fn from_char(ch: char, location: &Location) -> (r: Self)
        ensures
            r@.value == TokenValueV::Char(ch),
            r@.location == *location,
    {
        Token { value: TokenValue::Char(ch), location: *location }
    }

    /// An identifier token; it stands where the literal began, and the
    /// state's start marker moves to the current location.
    pub fn from_identifier(identifier: String, p_state: &mut ParsingState, location: &Location)
        -> (r: Self)
        ensures
            r@.value == TokenValueV::Identifier(identifier@),
            r@.location == old(p_state).initial_location,
            state_with_start(*old(p_state), *final(p_state), *location),
    {
        let past = p_state.initial_location;
        p_state.initial_location = *location;
        Token { value: TokenValue::Identifier(identifier), location: past }
    }

    /// A number token, built like an identifier token.
    pub fn from_number(number: String, p_state: &mut ParsingState, location: &Location) -> (r: Self)
        ensures
            r@.value == TokenValueV::Number(number@),
            r@.location == old(p_state).initial_location,
            state_with_start(*old(p_state), *final(p_state), *location),
    {
        let past = p_state.initial_location;
        p_state.initial_location = *location;
        Token { value: TokenValue::Number(number), location: past }
    }

    /// A string-literal token, built like an identifier token.
    pub fn from_str(str: String, p_state: &mut ParsingState, location: &Location) -> (r: Self)
        ensures
            r@.value == TokenValueV::Str(str@),
            r@.location == old(p_state).initial_location,
            state_with_start(*old(p_state), *final(p_state), *location),
    {
        let past = p_state.initial_location;
        p_state.initial_location = *location;
        Token { value: TokenValue::Str(str), location: past }
    }

    /// A symbol token of the given spelling size; it stands `size`
    /// columns before the current location.
    pub fn from_symbol(symbol: Symbol, size: usize, p_state: &mut ParsingState, location: &Location)
        -> (r: Self)
        ensures
            r@.value == TokenValueV::Symbol(symbol),
            r@.location == spec_into_past(*location, size as nat),
            state_with_start(*old(p_state), *final(p_state), *location),
    {
        p_state.initial_location = *location;
        Token { value: TokenValue::Symbol(symbol), location: location.into_past(size) }
    }
}

/// The two states agree everywhere except that the start marker of the
/// new one stands at `start`.
pub open spec fn state_with_start(old_st: ParsingState, new_st: ParsingState, start: Location)
    -> bool {
    &&& new_st.comments == old_st.comments
    &&& new_st.escape == old_st.escape
    &&& new_st.single_quote == old_st.single_quote
    &&& new_st.double_quote == old_st.double_quote
    &&& new_st.literal == old_st.literal
    &&& new_st.operator == old_st.operator
    &&& new_st.initial_location == start
}

} // verus!
