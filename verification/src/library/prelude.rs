//! What an implementation of a function needs at hand.

use vstd::prelude::*;
use vstd::string::*;
use crate::parsing::{ParseError, ParseResult};

verus! {

/// The failure of a parse with a message.
pub fn err<T>(message: &str) -> (result: ParseResult<T>)
    ensures
        result is Err,
        result->Err_0@ == message@,
{
    Err(ParseError::new(message.to_owned()))
}

} // verus!
