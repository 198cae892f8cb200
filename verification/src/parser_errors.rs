//! The messages of parse errors, one function for each kind of error.
use vstd::prelude::*;
use crate::parser::parser_errors::{
    eof, eof_message, invalid, invalid_message, unrecognized, unrecognized_message, user,
    user_message,
};

pub use crate::parser::parser_errors::ErrorType;

verus! {

/// The message for a text that ends too early.
pub fn pretty_eof() -> (m: String)
    ensures
        m@ == eof_message(),
{
    eof()
}

/// The message for a position at which no token begins.
pub fn pretty_invalid(s: String, loc: usize) -> (m: String)
    ensures
        m@ == invalid_message(s@, loc as int),
{
    invalid(s, loc)
}

/// The message for a token that can not stand where it stands.
pub fn pretty_unrecognized(s: String, token: &str, beg: usize, end: usize) -> (m: String)
    ensures
        m@ == unrecognized_message(s@, token@, beg as int, end as int),
{
    unrecognized(s, token, beg, end)
}

/// The message for an error that the grammar's own rules raise.
pub fn pretty_user(s: String, err_type: ErrorType, err: String, loc: usize) -> (m: String)
    ensures
        m@ == user_message(s@, err@, loc as int),
{
    user(s, err_type, err, loc)
}

} // verus!
