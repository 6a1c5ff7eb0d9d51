//! The lexer's output accumulator: tokens and diagnostics, plus the
//! failed flag that an `Error`-severity diagnostic sets.

use vstd::prelude::*;

use crate::errors::CompileError;
use crate::errors::CompileErrorV;
use crate::errors::ErrorLevel;
use crate::location::Location;
use crate::token::Token;

verus! {

/// Tokens and diagnostics accumulated while lexing.
pub struct LexingData {
    errors: Vec<CompileError>,
    tokens: Vec<Token>,
    failed: bool,
}

/// Ghost image of a `LexingData`.
pub ghost struct LexingDataV {
    pub errors: Seq<CompileError>,
    pub tokens: Seq<Token>,
    pub failed: bool,
}

impl View for LexingData {
    type V = LexingDataV;

    closed spec fn view(&self) -> LexingDataV {
        LexingDataV { errors: self.errors@, tokens: self.tokens@, failed: self.failed }
    }
}

/// The new accumulator equals the old one with one `Error`-severity
/// diagnostic of the given location and message appended.
pub open spec fn lex_pushed_error(
    old_d: LexingDataV,
    new_d: LexingDataV,
    location: Location,
    message: Seq<char>,
) -> bool {
    &&& new_d.tokens == old_d.tokens
    &&& new_d.errors.len() == old_d.errors.len() + 1
    &&& new_d.errors.drop_last() == old_d.errors
    &&& new_d.errors.last()@ == (CompileErrorV {
        location,
        message,
        err_lvl: ErrorLevel::Error,
    })
    &&& new_d.failed == true
}

impl LexingData {
    /// An empty accumulator.
    pub fn new() -> (r: Self)
        ensures
            r@.errors =~= Seq::<CompileError>::empty(),
            r@.tokens =~= Seq::<Token>::empty(),
            r@.failed == false,
    {
        LexingData { errors: Vec::new(), tokens: Vec::new(), failed: false }
    }

    /// Removes and returns the most recently pushed token.
    pub fn pop_token(&mut self) -> (r: Option<Token>)
        ensures
            final(self)@.errors == old(self)@.errors,
            final(self)@.failed == old(self)@.failed,
            old(self)@.tokens.len() > 0 ==> {
                &&& r is Some
                &&& r->0 == old(self)@.tokens.last()
                &&& final(self)@.tokens == old(self)@.tokens.drop_last()
            },
            old(self)@.tokens.len() == 0 ==> r is None && final(self)@.tokens
                == old(self)@.tokens,
    {
        self.tokens.pop()
    }

    /// Hands out the accumulated diagnostics, leaving none behind.
    pub fn take_errors(&mut self) -> (r: Vec<CompileError>)
        ensures
            r@ == old(self)@.errors,
            final(self)@.errors =~= Seq::<CompileError>::empty(),
            final(self)@.tokens == old(self)@.tokens,
            final(self)@.failed == old(self)@.failed,
    {
        let mut taken: Vec<CompileError> = Vec::new();
        core::mem::swap(&mut self.errors, &mut taken);
        taken
    }

    /// Hands out the accumulated tokens, leaving none behind.
    pub fn take_tokens(&mut self) -> (r: Vec<Token>)
        ensures
            r@ == old(self)@.tokens,
            final(self)@.tokens =~= Seq::<Token>::empty(),
            final(self)@.errors == old(self)@.errors,
            final(self)@.failed == old(self)@.failed,
    {
        let mut taken: Vec<Token> = Vec::new();
        core::mem::swap(&mut self.tokens, &mut taken);
        taken
    }

    /// Records a diagnostic; an `Error`-severity one marks the whole
    /// pass as failed.
    pub fn push_err(&mut self, error: CompileError)
        ensures
            final(self)@.errors == old(self)@.errors.push(error),
            final(self)@.tokens == old(self)@.tokens,
            final(self)@.failed == (old(self)@.failed || error@.err_lvl == ErrorLevel::Error),
    {
        let is_error = error.is_error();
        self.errors.push(error);
        if is_error {
            self.failed = true;
        }
    }

    /// Appends a token.
    pub fn push_token(&mut self, token: Token)
        ensures
            final(self)@.tokens == old(self)@.tokens.push(token),
            final(self)@.errors == old(self)@.errors,
            final(self)@.failed == old(self)@.failed,
    {
        self.tokens.push(token);
    }

    /// True once an `Error`-severity diagnostic was recorded.
    pub fn failed(&self) -> (r: bool)
        ensures
            r == self@.failed,
    {
        self.failed
    }
}

} // verus!
