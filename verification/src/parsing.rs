//! Errors of parsing source text.

use vstd::prelude::*;

verus! {

/// Why source text could not be parsed.
#[derive(Debug, Clone, PartialEq, Eq)]
pub struct ParseError {
    message: String,
}

impl View for ParseError {
    type V = Seq<char>;

    /// The message of the error.
    closed spec fn view(&self) -> Seq<char> {
        self.message@
    }
}

impl ParseError {
    /// An error with a message.
    pub fn new(message: String) -> (error: ParseError)
        ensures
            error@ == message@,
    {
        ParseError { message }
    }

    /// The error in words.
    pub fn message(&self) -> (message: &str)
        ensures
            message@ == self@,
    {
        self.message.as_str()
    }
}

/// What parsing returns.
pub type ParseResult<T> = Result<T, ParseError>;

} // verus!
