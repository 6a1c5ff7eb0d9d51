//! Structured diagnostics: every problem found while lexing or parsing
//! is recorded with a severity, a location and a message, and a pass
//! fails only when an `Error`-severity diagnostic was recorded.

use vstd::prelude::*;

use crate::location::Location;

verus! {

/// Severity of a diagnostic.  Only `Error` makes a pass fail.
#[derive(Clone, Copy, PartialEq, Eq, Structural, Debug)]
pub enum ErrorLevel {
    Warning,
    Error,
    Suggestion,
}

/// One located diagnostic.
#[derive(Debug)]
pub struct CompileError {
    location: Location,
    message: String,
    err_lvl: ErrorLevel,
}

/// Ghost image of a `CompileError`.
pub ghost struct CompileErrorV {
    pub location: Location,
    pub message: Seq<char>,
    pub err_lvl: ErrorLevel,
}

impl View for CompileError {
    type V = CompileErrorV;

    closed spec fn view(&self) -> CompileErrorV {
        CompileErrorV { location: self.location, message: self.message@, err_lvl: self.err_lvl }
    }
}

impl CompileError {
    /// Builds a diagnostic from its parts.
    pub fn new(location: Location, message: String, err_lvl: ErrorLevel) -> (r: Self)
        ensures
            r@ == (CompileErrorV { location, message: message@, err_lvl }),
    {
        CompileError { location, message, err_lvl }
    }

    /// Hands the location and the message back to the caller.
    pub fn get(self) -> (r: (Location, String))
        ensures
            r.0 == self@.location,
            r.1@ == self@.message,
    {
        (self.location, self.message)
    }

    /// True for `Error`-severity diagnostics.
    pub fn is_error(&self) -> (r: bool)
        ensures
            r == (self@.err_lvl == ErrorLevel::Error),
    {
        match self.err_lvl {
            ErrorLevel::Error => true,
            _ => false,
        }
    }
}

/// A pass result: the produced value together with every diagnostic
/// recorded on the way.
pub struct Res<T> {
    pub errors: Vec<CompileError>,
    pub result: T,
}

impl<T> Res<T> {
    /// Pairs a result with the diagnostics recorded while building it.
    pub fn from_parts(result: T, errors: Vec<CompileError>) -> (r: Self)
        ensures
            r.result == result,
            r.errors == errors,
    {
        Res { errors, result }
    }

    /// Wraps a value that was produced without any diagnostic.
    pub fn from_value(result: T) -> (r: Self)
        ensures
            r.result == result,
            r.errors@ =~= Seq::<CompileError>::empty(),
    {
        Res { errors: Vec::new(), result }
    }
}

} // verus!
